//! Getting models onto the machine: where they come from, when a download counts, and which step
//! follows which.
//!
//! Files, processes and the network are worked from outside: each step is carried out there, and
//! what came of it decides on the next one.

use vstd::prelude::*;

use crate::numbers::{decimal, decimal_text};
use crate::speaker_diarization::{file_is_ready, EMBEDDING_MODEL_BYTES, SEGMENTATION_MODEL_BYTES};
use crate::speech_model::{
    is_file_above, kind_id, kind_repository, kind_with_id, local_model_spec, model_files_exist,
    punctuation_model_file_is_ready, vad_model_file_is_ready, weights_ready, FileInfo, LocalModelSpec,
    LocalSpeechModelKind, ModelFiles, PARAFORMER_STREAMING_MODEL_ID,
};
use crate::text::{occurs, same_text, text_occurs, trim, trimmed, views};
use crate::transcript::option_view;

verus! {

/// The models that are downloaded as one file or one archive.
#[derive(Clone, Copy, Debug, PartialEq, Eq, Structural)]
pub enum SupportModel {
    SileroVad,
    Punctuation,
    Segmentation,
    Embedding,
    Paraformer,
}

/// Where a model can be downloaded from, in the order in which the places are tried.
pub open spec fn mirrors(model: SupportModel) -> Seq<Seq<char>> {
    match model {
        SupportModel::SileroVad => seq![
            "https://gh-proxy.com/https://github.com/k2-fsa/sherpa-onnx/releases/download/asr-models/silero_vad.onnx"@,
            "https://github.com/k2-fsa/sherpa-onnx/releases/download/asr-models/silero_vad.onnx"@,
        ],
        SupportModel::Punctuation => seq![
            "https://gh-proxy.com/https://github.com/k2-fsa/sherpa-onnx/releases/download/punctuation-models/sherpa-onnx-punct-ct-transformer-zh-en-vocab272727-2024-04-12-int8.tar.bz2"@,
            "https://github.com/k2-fsa/sherpa-onnx/releases/download/punctuation-models/sherpa-onnx-punct-ct-transformer-zh-en-vocab272727-2024-04-12-int8.tar.bz2"@,
        ],
        SupportModel::Segmentation => seq![
            "https://gh-proxy.com/https://github.com/k2-fsa/sherpa-onnx/releases/download/speaker-segmentation-models/sherpa-onnx-pyannote-segmentation-3-0.tar.bz2"@,
            "https://ghfast.top/https://github.com/k2-fsa/sherpa-onnx/releases/download/speaker-segmentation-models/sherpa-onnx-pyannote-segmentation-3-0.tar.bz2"@,
            "https://github.com/k2-fsa/sherpa-onnx/releases/download/speaker-segmentation-models/sherpa-onnx-pyannote-segmentation-3-0.tar.bz2"@,
        ],
        SupportModel::Embedding => seq![
            "https://gh-proxy.com/https://github.com/k2-fsa/sherpa-onnx/releases/download/speaker-recongition-models/3dspeaker_speech_eres2net_base_sv_zh-cn_3dspeaker_16k.onnx"@,
            "https://ghfast.top/https://github.com/k2-fsa/sherpa-onnx/releases/download/speaker-recongition-models/3dspeaker_speech_eres2net_base_sv_zh-cn_3dspeaker_16k.onnx"@,
            "https://github.com/k2-fsa/sherpa-onnx/releases/download/speaker-recongition-models/3dspeaker_speech_eres2net_base_sv_zh-cn_3dspeaker_16k.onnx"@,
        ],
        SupportModel::Paraformer => seq![
            "https://gh-proxy.com/https://github.com/k2-fsa/sherpa-onnx/releases/download/asr-models/sherpa-onnx-streaming-paraformer-bilingual-zh-en.tar.bz2"@,
            "https://github.com/k2-fsa/sherpa-onnx/releases/download/asr-models/sherpa-onnx-streaming-paraformer-bilingual-zh-en.tar.bz2"@,
        ],
    }
}

/// Where a model can be downloaded from, in the order in which the places are tried.
pub fn mirror_urls(model: SupportModel) -> (urls: Vec<&'static str>)
    ensures
        urls@.map_values(|url: &'static str| url@) == mirrors(model),
{
    let urls = match model {
        SupportModel::SileroVad => vec![
            "https://gh-proxy.com/https://github.com/k2-fsa/sherpa-onnx/releases/download/asr-models/silero_vad.onnx",
            "https://github.com/k2-fsa/sherpa-onnx/releases/download/asr-models/silero_vad.onnx",
        ],
        SupportModel::Punctuation => vec![
            "https://gh-proxy.com/https://github.com/k2-fsa/sherpa-onnx/releases/download/punctuation-models/sherpa-onnx-punct-ct-transformer-zh-en-vocab272727-2024-04-12-int8.tar.bz2",
            "https://github.com/k2-fsa/sherpa-onnx/releases/download/punctuation-models/sherpa-onnx-punct-ct-transformer-zh-en-vocab272727-2024-04-12-int8.tar.bz2",
        ],
        SupportModel::Segmentation => vec![
            "https://gh-proxy.com/https://github.com/k2-fsa/sherpa-onnx/releases/download/speaker-segmentation-models/sherpa-onnx-pyannote-segmentation-3-0.tar.bz2",
            "https://ghfast.top/https://github.com/k2-fsa/sherpa-onnx/releases/download/speaker-segmentation-models/sherpa-onnx-pyannote-segmentation-3-0.tar.bz2",
            "https://github.com/k2-fsa/sherpa-onnx/releases/download/speaker-segmentation-models/sherpa-onnx-pyannote-segmentation-3-0.tar.bz2",
        ],
        SupportModel::Embedding => vec![
            "https://gh-proxy.com/https://github.com/k2-fsa/sherpa-onnx/releases/download/speaker-recongition-models/3dspeaker_speech_eres2net_base_sv_zh-cn_3dspeaker_16k.onnx",
            "https://ghfast.top/https://github.com/k2-fsa/sherpa-onnx/releases/download/speaker-recongition-models/3dspeaker_speech_eres2net_base_sv_zh-cn_3dspeaker_16k.onnx",
            "https://github.com/k2-fsa/sherpa-onnx/releases/download/speaker-recongition-models/3dspeaker_speech_eres2net_base_sv_zh-cn_3dspeaker_16k.onnx",
        ],
        SupportModel::Paraformer => vec![
            "https://gh-proxy.com/https://github.com/k2-fsa/sherpa-onnx/releases/download/asr-models/sherpa-onnx-streaming-paraformer-bilingual-zh-en.tar.bz2",
            "https://github.com/k2-fsa/sherpa-onnx/releases/download/asr-models/sherpa-onnx-streaming-paraformer-bilingual-zh-en.tar.bz2",
        ],
    };
    assert(urls@.map_values(|url: &'static str| url@) =~= mirrors(model));
    urls
}

/// The least size of a download that counts as complete, in bytes.
pub open spec fn least_download(model: SupportModel) -> u64 {
    match model {
        SupportModel::SileroVad => 524_289,
        SupportModel::Punctuation => 52_428_801,
        SupportModel::Segmentation => 5_242_880,
        SupportModel::Embedding => 31_457_280,
        SupportModel::Paraformer => 524_288_001,
    }
}

/// What is said of a download of `size` bytes that is not complete.
pub open spec fn incomplete_download(model: SupportModel, size: u64) -> Seq<char> {
    match model {
        SupportModel::Segmentation | SupportModel::Embedding => "下载文件不完整（"@ + decimal(size as nat)
            + " 字节）"@,
        _ => "下载文件不完整"@,
    }
}

/// What is said when a model could not be downloaded from anywhere.
pub open spec fn download_failure(model: SupportModel, last_error: Seq<char>) -> Seq<char> {
    (match model {
        SupportModel::SileroVad => "下载 Silero VAD 失败："@,
        SupportModel::Punctuation => "下载标点模型失败："@,
        SupportModel::Segmentation => "下载说话人分段模型失败："@,
        SupportModel::Embedding => "下载音色特征模型失败："@,
        SupportModel::Paraformer => "下载 Paraformer 模型失败："@,
    }) + last_error
}

/// What came of one attempt, as sequences: the size of what was received, or an error.
pub open spec fn attempt_view(outcome: Result<u64, String>) -> Result<u64, Seq<char>> {
    match outcome {
        Ok(size) => Ok(size),
        Err(error) => Err(error@),
    }
}

/// The attempt brought the whole model.
pub open spec fn is_complete(model: SupportModel, outcome: Result<u64, Seq<char>>) -> bool {
    outcome is Ok && outcome->Ok_0 >= least_download(model)
}

/// The error of an attempt that did not bring the whole model.
pub open spec fn attempt_error(model: SupportModel, outcome: Result<u64, Seq<char>>) -> Seq<char> {
    match outcome {
        Ok(size) => incomplete_download(model, size),
        Err(error) => error,
    }
}

/// How far the attempts to download a model have come.
pub struct AttemptState {
    pub model: SupportModel,
    /// How many places have been tried.
    pub tried: int,
    /// What the last attempt failed with; nothing before the first.
    pub last_error: Seq<char>,
}

/// No place has been tried yet.
pub open spec fn first_attempt(model: SupportModel) -> AttemptState {
    AttemptState { model, tried: 0, last_error: Seq::empty() }
}

/// A place is left to be tried.
pub open spec fn has_next(state: AttemptState) -> bool {
    state.tried < mirrors(state.model).len()
}

/// How far the attempts have come after one with the outcome `outcome`, and whether it brought the
/// whole model.
pub open spec fn after_attempt(state: AttemptState, outcome: Result<u64, Seq<char>>) -> (AttemptState, bool) {
    let tried = if has_next(state) {
        state.tried + 1
    } else {
        state.tried
    };
    if is_complete(state.model, outcome) {
        (AttemptState { tried, ..state }, true)
    } else {
        (AttemptState { tried, last_error: attempt_error(state.model, outcome), ..state }, false)
    }
}

/// The attempts to download one model.
pub struct DownloadAttempts {
    model: SupportModel,
    urls: Vec<&'static str>,
    tried: usize,
    last_error: String,
}

/// What to do next about a download.
pub enum AttemptStep {
    /// Try this place.
    Try(&'static str),
    /// All places have been tried in vain.
    GiveUp(String),
}

impl DownloadAttempts {
    /// How far the attempts have come.
    pub closed spec fn state(&self) -> AttemptState {
        AttemptState { model: self.model, tried: self.tried as int, last_error: self.last_error@ }
    }

    #[verifier::type_invariant]
    closed spec fn well_formed(&self) -> bool {
        self.urls@.map_values(|url: &'static str| url@) == mirrors(self.model) && self.tried <= self.urls@.len()
    }

    /// No place has been tried yet.
    pub fn new(model: SupportModel) -> (attempts: Self)
        ensures
            attempts.state() == first_attempt(model),
    {
        let attempts = DownloadAttempts {
            model,
            urls: mirror_urls(model),
            tried: 0,
            last_error: String::new(),
        };
        assert(attempts.last_error@ =~= Seq::<char>::empty());
        attempts
    }

    /// Says which place to try next.
    pub fn next(&self) -> (step: AttemptStep)
        ensures
            if has_next(self.state()) {
                step is Try && step->Try_0@ == mirrors(self.state().model)[self.state().tried]
            } else {
                step is GiveUp && step->GiveUp_0@ == download_failure(self.state().model, self.state().last_error)
            },
    {
        proof {
            use_type_invariant(self);
            assert(mirrors(self.model).len() == self.urls@.len());
        }
        if self.tried < self.urls.len() {
            assert(mirrors(self.model)[self.tried as int] == self.urls@[self.tried as int]@);
            return AttemptStep::Try(self.urls[self.tried]);
        }
        let prefix = match self.model {
            SupportModel::SileroVad => "下载 Silero VAD 失败：",
            SupportModel::Punctuation => "下载标点模型失败：",
            SupportModel::Segmentation => "下载说话人分段模型失败：",
            SupportModel::Embedding => "下载音色特征模型失败：",
            SupportModel::Paraformer => "下载 Paraformer 模型失败：",
        };
        AttemptStep::GiveUp(prefix.to_string().concat(self.last_error.as_str()))
    }

    /// Takes note of what came of the attempt at the place that was next, and says whether it
    /// brought the whole model.
    pub fn report(&mut self, outcome: Result<u64, String>) -> (complete: bool)
        ensures
            (final(self).state(), complete) == after_attempt(old(self).state(), attempt_view(outcome)),
    {
        let ghost before = self.state();
        proof {
            use_type_invariant(&*self);
            assert(mirrors(self.model).len() == self.urls@.len());
        }
        if self.tried < self.urls.len() {
            self.tried = self.tried + 1;
        }
        let least: u64 = match self.model {
            SupportModel::SileroVad => 512 * 1024 + 1,
            SupportModel::Punctuation => 50 * 1024 * 1024 + 1,
            SupportModel::Segmentation => 5 * 1024 * 1024,
            SupportModel::Embedding => 30 * 1024 * 1024,
            SupportModel::Paraformer => 500 * 1024 * 1024 + 1,
        };
        let error = match outcome {
            Ok(size) => {
                if size >= least {
                    return true;
                }
                match self.model {
                    SupportModel::Segmentation | SupportModel::Embedding => "下载文件不完整（".to_string().concat(
                        decimal_text(size).as_str(),
                    ).concat(" 字节）"),
                    _ => "下载文件不完整".to_string(),
                }
            },
            Err(error) => error,
        };
        self.last_error = error;
        false
    }
}

/// What attempts come to: the index of the place that the model came from, or what is said when
/// none had it. `outcomes` are what the places, in their order, would give.
pub open spec fn download_result(state: AttemptState, outcomes: Seq<Result<u64, Seq<char>>>) -> Result<int, Seq<char>>
    decreases mirrors(state.model).len() - state.tried,
{
    if !has_next(state) {
        Err(download_failure(state.model, state.last_error))
    } else {
        let (after, complete) = after_attempt(state, outcomes[state.tried]);
        if complete {
            Ok(state.tried)
        } else {
            download_result(after, outcomes)
        }
    }
}

/// The first place that has the whole model is the one it comes from; where none has it, the error
/// is that of the last place.
pub proof fn law_first_complete_download_is_taken(model: SupportModel, outcomes: Seq<Result<u64, Seq<char>>>)
    requires
        outcomes.len() == mirrors(model).len(),
    ensures
        match download_result(first_attempt(model), outcomes) {
            Ok(place) => 0 <= place < outcomes.len() && is_complete(model, outcomes[place]) && forall|i: int|
                0 <= i < place ==> !is_complete(model, #[trigger] outcomes[i]),
            Err(message) => message == download_failure(model, attempt_error(model, outcomes.last())) && forall|i: int|
                0 <= i < outcomes.len() ==> !is_complete(model, #[trigger] outcomes[i]),
        },
{
    lemma_download_result(first_attempt(model), outcomes);
}

/// What the attempts come to from one place on.
proof fn lemma_download_result(state: AttemptState, outcomes: Seq<Result<u64, Seq<char>>>)
    requires
        outcomes.len() == mirrors(state.model).len(),
        0 <= state.tried <= outcomes.len(),
        state.tried > 0 ==> state.last_error == attempt_error(state.model, outcomes[state.tried - 1]),
        forall|i: int| 0 <= i < state.tried ==> !is_complete(state.model, #[trigger] outcomes[i]),
    ensures
        match download_result(state, outcomes) {
            Ok(place) => 0 <= place < outcomes.len() && is_complete(state.model, outcomes[place]) && forall|i: int|
                0 <= i < place ==> !is_complete(state.model, #[trigger] outcomes[i]),
            Err(message) => message == download_failure(
                state.model,
                attempt_error(state.model, outcomes.last()),
            ) && forall|i: int|
                0 <= i < outcomes.len() ==> !is_complete(state.model, #[trigger] outcomes[i]),
        },
    decreases outcomes.len() - state.tried,
{
    if has_next(state) && !is_complete(state.model, outcomes[state.tried]) {
        lemma_download_result(after_attempt(state, outcomes[state.tried]).0, outcomes);
    }
}

/// What is installed together.
#[derive(Clone, Copy, Debug, PartialEq, Eq, Structural)]
pub enum InstallTarget {
    /// The voice activity model.
    SileroVad,
    /// The punctuation model.
    Punctuation,
    /// The voice embedding model.
    Embedding,
    /// The models that tell the speakers of a recording apart: segmentation and embedding.
    SpeakerModels,
    /// The streaming speech model.
    Paraformer,
}

/// A step of an installation.
pub enum InstallStep {
    /// Look whether all models are there.
    CheckAll,
    /// Wait until no other installation is going on.
    Wait,
    /// Look again whether all models are there.
    CheckAllAgain,
    CreateDirectory,
    CreateClient,
    /// Look whether this one is there.
    Check(SupportModel),
    Download(SupportModel),
    /// Write what was downloaded beside its place.
    Save(SupportModel),
    /// Look whether an old file stands in its place.
    CheckOld(SupportModel),
    RemoveOld(SupportModel),
    /// Move the new file to its place.
    Rename(SupportModel),
    /// Unpack the archive.
    Unpack(SupportModel),
    /// Remove the archive; then fail, where there is something to be said.
    RemoveArchive(SupportModel, Option<String>),
    /// Look whether the archive held the model.
    CheckUnpacked(SupportModel),
    /// Remove the files of the archive that are not used.
    RemoveExtras,
    Ready,
    Failed(String),
}

/// A step of an installation, as sequences.
pub enum InstallView {
    CheckAll,
    Wait,
    CheckAllAgain,
    CreateDirectory,
    CreateClient,
    Check(SupportModel),
    Download(SupportModel),
    Save(SupportModel),
    CheckOld(SupportModel),
    RemoveOld(SupportModel),
    Rename(SupportModel),
    Unpack(SupportModel),
    RemoveArchive(SupportModel, Option<Seq<char>>),
    CheckUnpacked(SupportModel),
    RemoveExtras,
    Ready,
    Failed(Seq<char>),
}

impl View for InstallStep {
    type V = InstallView;

    open spec fn view(&self) -> InstallView {
        match self {
            InstallStep::CheckAll => InstallView::CheckAll,
            InstallStep::Wait => InstallView::Wait,
            InstallStep::CheckAllAgain => InstallView::CheckAllAgain,
            InstallStep::CreateDirectory => InstallView::CreateDirectory,
            InstallStep::CreateClient => InstallView::CreateClient,
            InstallStep::Check(model) => InstallView::Check(*model),
            InstallStep::Download(model) => InstallView::Download(*model),
            InstallStep::Save(model) => InstallView::Save(*model),
            InstallStep::CheckOld(model) => InstallView::CheckOld(*model),
            InstallStep::RemoveOld(model) => InstallView::RemoveOld(*model),
            InstallStep::Rename(model) => InstallView::Rename(*model),
            InstallStep::Unpack(model) => InstallView::Unpack(*model),
            InstallStep::RemoveArchive(model, failure) => InstallView::RemoveArchive(*model, option_view(*failure)),
            InstallStep::CheckUnpacked(model) => InstallView::CheckUnpacked(*model),
            InstallStep::RemoveExtras => InstallView::RemoveExtras,
            InstallStep::Ready => InstallView::Ready,
            InstallStep::Failed(message) => InstallView::Failed(message@),
        }
    }
}

/// What came of a step.
pub enum StepEvent {
    /// What was looked for is there, or not.
    Checked(bool),
    Done,
    /// It could not be done, for this reason.
    Failed(String),
    /// The program that unpacks ended; well, or with this complaint.
    Unpacked(Result<(), String>),
}

/// What came of a step, as sequences.
pub enum EventView {
    Checked(bool),
    Done,
    Failed(Seq<char>),
    Unpacked(Result<(), Seq<char>>),
}

impl View for StepEvent {
    type V = EventView;

    open spec fn view(&self) -> EventView {
        match self {
            StepEvent::Checked(found) => EventView::Checked(*found),
            StepEvent::Done => EventView::Done,
            StepEvent::Failed(reason) => EventView::Failed(reason@),
            StepEvent::Unpacked(Ok(_)) => EventView::Unpacked(Ok(())),
            StepEvent::Unpacked(Err(complaint)) => EventView::Unpacked(Err(complaint@)),
        }
    }
}

/// A model comes as an archive.
pub open spec fn is_archive(model: SupportModel) -> bool {
    model == SupportModel::Punctuation || model == SupportModel::Segmentation || model == SupportModel::Paraformer
}

/// The model of a target that is installed first.
pub open spec fn first_model(target: InstallTarget) -> SupportModel {
    match target {
        InstallTarget::SileroVad => SupportModel::SileroVad,
        InstallTarget::Punctuation => SupportModel::Punctuation,
        InstallTarget::Embedding => SupportModel::Embedding,
        InstallTarget::SpeakerModels => SupportModel::Segmentation,
        InstallTarget::Paraformer => SupportModel::Paraformer,
    }
}

/// The step after a model of a target is in its place.
pub open spec fn step_after_model(target: InstallTarget, model: SupportModel) -> InstallView {
    if target == InstallTarget::SpeakerModels && model == SupportModel::Segmentation {
        InstallView::Check(SupportModel::Embedding)
    } else if model == SupportModel::Paraformer {
        InstallView::RemoveExtras
    } else {
        InstallView::Ready
    }
}

/// What is said when the directory of a target cannot be created.
pub open spec fn directory_failure(target: InstallTarget) -> Seq<char> {
    match target {
        InstallTarget::SileroVad => "无法创建 Silero VAD 模型目录："@,
        InstallTarget::Punctuation => "无法创建标点模型目录："@,
        InstallTarget::Paraformer => "无法创建模型缓存目录："@,
        _ => "创建说话人分离模型目录失败："@,
    }
}

/// What is said when nothing can be downloaded at all.
pub open spec fn client_failure(target: InstallTarget) -> Seq<char> {
    match target {
        InstallTarget::SileroVad => "创建 Silero VAD 下载客户端失败："@,
        InstallTarget::Punctuation => "创建标点模型下载客户端失败："@,
        InstallTarget::Paraformer => "创建 Paraformer 下载客户端失败："@,
        _ => "创建模型下载客户端失败："@,
    }
}

/// What is said when a download cannot be written.
pub open spec fn save_failure(model: SupportModel) -> Seq<char> {
    match model {
        SupportModel::SileroVad => "保存 Silero VAD 模型失败："@,
        SupportModel::Punctuation => "保存标点模型压缩包失败："@,
        SupportModel::Embedding => "保存音色特征模型失败："@,
        _ => "保存说话人分段模型失败："@,
    }
}

/// What is said when an old file cannot be removed.
pub open spec fn replace_failure(model: SupportModel) -> Seq<char> {
    if model == SupportModel::Embedding {
        "替换音色特征模型失败："@
    } else {
        "替换 Silero VAD 模型失败："@
    }
}

/// What is said when a new file cannot be moved to its place.
pub open spec fn rename_failure(model: SupportModel) -> Seq<char> {
    if model == SupportModel::Embedding {
        "完成音色特征模型缓存失败："@
    } else {
        "完成 Silero VAD 模型缓存失败："@
    }
}

/// What is said when the program that unpacks cannot be started.
pub open spec fn unpacker_failure(model: SupportModel) -> Seq<char> {
    match model {
        SupportModel::Segmentation => "无法启动说话人分段模型解压程序："@,
        SupportModel::Paraformer => "无法启动 Paraformer 解压程序："@,
        _ => "无法启动标点模型解压程序："@,
    }
}

/// What is said when an archive cannot be unpacked.
pub open spec fn unpack_failure(model: SupportModel) -> Seq<char> {
    match model {
        SupportModel::Segmentation => "解压说话人分段模型失败："@,
        SupportModel::Paraformer => "解压 Paraformer 模型失败："@,
        _ => "解压标点模型失败："@,
    }
}

/// What is said when an archive did not hold the model.
pub open spec fn incomplete_archive(model: SupportModel) -> Seq<char> {
    match model {
        SupportModel::Segmentation => "解压后的说话人分段模型文件不完整"@,
        SupportModel::Paraformer => "解压后的 Paraformer Streaming 模型文件不完整"@,
        _ => "解压后的标点模型文件不完整"@,
    }
}

/// The step of an installation that follows `step` when `event` came of it. An event that cannot
/// come of the step leaves it as it is.
pub open spec fn next_install(target: InstallTarget, step: InstallView, event: EventView) -> InstallView {
    match (step, event) {
        (InstallView::CheckAll, EventView::Checked(found)) => if found {
            InstallView::Ready
        } else {
            InstallView::Wait
        },
        (InstallView::Wait, EventView::Done) => InstallView::CheckAllAgain,
        (InstallView::CheckAllAgain, EventView::Checked(found)) => if found {
            InstallView::Ready
        } else {
            InstallView::CreateDirectory
        },
        (InstallView::CreateDirectory, EventView::Done) => InstallView::CreateClient,
        (InstallView::CreateDirectory, EventView::Failed(reason)) => InstallView::Failed(
            directory_failure(target) + reason,
        ),
        (InstallView::CreateClient, EventView::Done) => if target == InstallTarget::SpeakerModels {
            InstallView::Check(SupportModel::Segmentation)
        } else {
            InstallView::Download(first_model(target))
        },
        (InstallView::CreateClient, EventView::Failed(reason)) => InstallView::Failed(
            client_failure(target) + reason,
        ),
        (InstallView::Check(model), EventView::Checked(found)) => if found {
            step_after_model(target, model)
        } else {
            InstallView::Download(model)
        },
        (InstallView::Download(model), EventView::Done) => if model == SupportModel::Paraformer {
            InstallView::Unpack(model)
        } else {
            InstallView::Save(model)
        },
        (InstallView::Download(_), EventView::Failed(message)) => InstallView::Failed(message),
        (InstallView::Save(model), EventView::Done) => if is_archive(model) {
            InstallView::Unpack(model)
        } else {
            InstallView::CheckOld(model)
        },
        (InstallView::Save(model), EventView::Failed(reason)) => InstallView::Failed(save_failure(model) + reason),
        (InstallView::CheckOld(model), EventView::Checked(found)) => if found {
            InstallView::RemoveOld(model)
        } else {
            InstallView::Rename(model)
        },
        (InstallView::RemoveOld(model), EventView::Done) => InstallView::Rename(model),
        (InstallView::RemoveOld(model), EventView::Failed(reason)) => InstallView::Failed(
            replace_failure(model) + reason,
        ),
        (InstallView::Rename(model), EventView::Done) => step_after_model(target, model),
        (InstallView::Rename(model), EventView::Failed(reason)) => InstallView::Failed(
            rename_failure(model) + reason,
        ),
        (InstallView::Unpack(model), EventView::Failed(reason)) => InstallView::Failed(
            unpacker_failure(model) + reason,
        ),
        (InstallView::Unpack(model), EventView::Unpacked(Ok(_))) => InstallView::RemoveArchive(model, None),
        (InstallView::Unpack(model), EventView::Unpacked(Err(complaint))) => if model == SupportModel::Punctuation {
            InstallView::Failed(unpack_failure(model) + trim(complaint))
        } else {
            InstallView::RemoveArchive(model, Some(unpack_failure(model) + trim(complaint)))
        },
        (InstallView::RemoveArchive(_, Some(message)), EventView::Done) => InstallView::Failed(message),
        (InstallView::RemoveArchive(model, None), EventView::Done) => InstallView::CheckUnpacked(model),
        (InstallView::CheckUnpacked(model), EventView::Checked(found)) => if found {
            step_after_model(target, model)
        } else {
            InstallView::Failed(incomplete_archive(model))
        },
        (InstallView::RemoveExtras, EventView::Done) => InstallView::Ready,
        _ => step,
    }
}

/// What is found where a model belongs.
pub enum FoundModel {
    /// The file of a model that is one file.
    File(Option<FileInfo>),
    /// The files of a speech model.
    Files(ModelFiles),
}

/// What was found is the whole model.
pub open spec fn is_whole(model: SupportModel, found: FoundModel) -> bool {
    match (model, found) {
        (SupportModel::Paraformer, FoundModel::Files(files)) => files.tokens.info is Some && weights_ready(
            &files,
            LocalSpeechModelKind::ParaformerStreaming,
        ),
        (SupportModel::SileroVad, FoundModel::File(info)) => is_file_above(info, 524_288),
        (SupportModel::Punctuation, FoundModel::File(info)) => is_file_above(info, 52_428_800),
        (SupportModel::Segmentation, FoundModel::File(info)) => is_file_above(info, SEGMENTATION_MODEL_BYTES - 1),
        (SupportModel::Embedding, FoundModel::File(info)) => is_file_above(info, EMBEDDING_MODEL_BYTES - 1),
        _ => false,
    }
}

/// Whether what was found is the whole model.
pub fn model_is_whole(model: SupportModel, found: &FoundModel) -> (whole: bool)
    ensures
        whole == is_whole(model, *found),
{
    match (model, found) {
        (SupportModel::Paraformer, FoundModel::Files(files)) => {
            proof {
                crate::speech_model::law_identifiers_round_trip(LocalSpeechModelKind::ParaformerStreaming);
            }
            model_files_exist(files, PARAFORMER_STREAMING_MODEL_ID)
        },
        (SupportModel::SileroVad, FoundModel::File(info)) => vad_model_file_is_ready(*info),
        (SupportModel::Punctuation, FoundModel::File(info)) => punctuation_model_file_is_ready(*info),
        (SupportModel::Segmentation, FoundModel::File(info)) => file_is_ready(*info, SEGMENTATION_MODEL_BYTES),
        (SupportModel::Embedding, FoundModel::File(info)) => file_is_ready(*info, EMBEDDING_MODEL_BYTES),
        _ => false,
    }
}

/// The models that a target is made of.
pub open spec fn models_of(target: InstallTarget) -> Seq<SupportModel> {
    match target {
        InstallTarget::SileroVad => seq![SupportModel::SileroVad],
        InstallTarget::Punctuation => seq![SupportModel::Punctuation],
        InstallTarget::Embedding => seq![SupportModel::Embedding],
        InstallTarget::SpeakerModels => seq![SupportModel::Segmentation, SupportModel::Embedding],
        InstallTarget::Paraformer => seq![SupportModel::Paraformer],
    }
}

/// The models that a target is made of.
pub fn target_models(target: InstallTarget) -> (models: Vec<SupportModel>)
    ensures
        models@ == models_of(target),
{
    let models = match target {
        InstallTarget::SileroVad => vec![SupportModel::SileroVad],
        InstallTarget::Punctuation => vec![SupportModel::Punctuation],
        InstallTarget::Embedding => vec![SupportModel::Embedding],
        InstallTarget::SpeakerModels => vec![SupportModel::Segmentation, SupportModel::Embedding],
        InstallTarget::Paraformer => vec![SupportModel::Paraformer],
    };
    assert(models@ =~= models_of(target));
    models
}

/// Whether a target is installed: each of its models is whole. `found` says what was found of each,
/// in their order.
pub fn target_is_installed(target: InstallTarget, found: &Vec<FoundModel>) -> (installed: bool)
    ensures
        installed == (found@.len() == models_of(target).len() && forall|i: int|
            0 <= i < found@.len() ==> is_whole(models_of(target)[i], #[trigger] found@[i])),
{
    let models = target_models(target);
    if found.len() != models.len() {
        return false;
    }
    let mut i: usize = 0;
    while i < models.len()
        invariant
            i <= models@.len() == found@.len(),
            models@ == models_of(target),
            forall|j: int| 0 <= j < i ==> is_whole(models_of(target)[j], #[trigger] found@[j]),
        decreases models@.len() - i,
    {
        if !model_is_whole(models[i], &found[i]) {
            assert(!is_whole(models_of(target)[i as int], found@[i as int]));
            return false;
        }
        i += 1;
    }
    true
}

/// The step that an installation starts with.
pub fn first_install_step(target: InstallTarget) -> (step: InstallStep)
    ensures
        step@ == (if target == InstallTarget::Paraformer {
            InstallView::CreateDirectory
        } else {
            InstallView::CheckAll
        }),
{
    match target {
        InstallTarget::Paraformer => InstallStep::CreateDirectory,
        _ => InstallStep::CheckAll,
    }
}

/// The step after a model of a target is in its place.
fn step_after(target: InstallTarget, model: SupportModel) -> (step: InstallStep)
    ensures
        step@ == step_after_model(target, model),
{
    match (target, model) {
        (InstallTarget::SpeakerModels, SupportModel::Segmentation) => InstallStep::Check(SupportModel::Embedding),
        (_, SupportModel::Paraformer) => InstallStep::RemoveExtras,
        _ => InstallStep::Ready,
    }
}

/// Fails with what is said of `reason`.
fn failed(prefix: &str, reason: &str) -> (step: InstallStep)
    ensures
        step@ == InstallView::Failed(prefix@ + reason@),
{
    InstallStep::Failed(prefix.to_string().concat(reason))
}

/// What is said when an archive cannot be unpacked.
fn unpack_complaint(model: SupportModel, complaint: &str) -> (message: String)
    ensures
        message@ == unpack_failure(model) + trim(complaint@),
{
    let prefix = match model {
        SupportModel::Segmentation => "解压说话人分段模型失败：",
        SupportModel::Paraformer => "解压 Paraformer 模型失败：",
        _ => "解压标点模型失败：",
    };
    prefix.to_string().concat(trimmed(complaint).as_str())
}

/// Says which step of an installation follows `step` when `event` came of it.
pub fn next_install_step(target: InstallTarget, step: InstallStep, event: StepEvent) -> (next: InstallStep)
    ensures
        next@ == next_install(target, step@, event@),
{
    match (step, event) {
        (InstallStep::CheckAll, StepEvent::Checked(found)) => if found {
            InstallStep::Ready
        } else {
            InstallStep::Wait
        },
        (InstallStep::Wait, StepEvent::Done) => InstallStep::CheckAllAgain,
        (InstallStep::CheckAllAgain, StepEvent::Checked(found)) => if found {
            InstallStep::Ready
        } else {
            InstallStep::CreateDirectory
        },
        (InstallStep::CreateDirectory, StepEvent::Done) => InstallStep::CreateClient,
        (InstallStep::CreateDirectory, StepEvent::Failed(reason)) => failed(
            match target {
                InstallTarget::SileroVad => "无法创建 Silero VAD 模型目录：",
                InstallTarget::Punctuation => "无法创建标点模型目录：",
                InstallTarget::Paraformer => "无法创建模型缓存目录：",
                _ => "创建说话人分离模型目录失败：",
            },
            reason.as_str(),
        ),
        (InstallStep::CreateClient, StepEvent::Done) => match target {
            InstallTarget::SpeakerModels => InstallStep::Check(SupportModel::Segmentation),
            InstallTarget::SileroVad => InstallStep::Download(SupportModel::SileroVad),
            InstallTarget::Punctuation => InstallStep::Download(SupportModel::Punctuation),
            InstallTarget::Embedding => InstallStep::Download(SupportModel::Embedding),
            InstallTarget::Paraformer => InstallStep::Download(SupportModel::Paraformer),
        },
        (InstallStep::CreateClient, StepEvent::Failed(reason)) => failed(
            match target {
                InstallTarget::SileroVad => "创建 Silero VAD 下载客户端失败：",
                InstallTarget::Punctuation => "创建标点模型下载客户端失败：",
                InstallTarget::Paraformer => "创建 Paraformer 下载客户端失败：",
                _ => "创建模型下载客户端失败：",
            },
            reason.as_str(),
        ),
        (InstallStep::Check(model), StepEvent::Checked(found)) => if found {
            step_after(target, model)
        } else {
            InstallStep::Download(model)
        },
        (InstallStep::Download(model), StepEvent::Done) => match model {
            SupportModel::Paraformer => InstallStep::Unpack(model),
            _ => InstallStep::Save(model),
        },
        (InstallStep::Download(_), StepEvent::Failed(message)) => InstallStep::Failed(message),
        (InstallStep::Save(model), StepEvent::Done) => match model {
            SupportModel::SileroVad | SupportModel::Embedding => InstallStep::CheckOld(model),
            _ => InstallStep::Unpack(model),
        },
        (InstallStep::Save(model), StepEvent::Failed(reason)) => failed(
            match model {
                SupportModel::SileroVad => "保存 Silero VAD 模型失败：",
                SupportModel::Punctuation => "保存标点模型压缩包失败：",
                SupportModel::Embedding => "保存音色特征模型失败：",
                _ => "保存说话人分段模型失败：",
            },
            reason.as_str(),
        ),
        (InstallStep::CheckOld(model), StepEvent::Checked(found)) => if found {
            InstallStep::RemoveOld(model)
        } else {
            InstallStep::Rename(model)
        },
        (InstallStep::RemoveOld(model), StepEvent::Done) => InstallStep::Rename(model),
        (InstallStep::RemoveOld(model), StepEvent::Failed(reason)) => failed(
            match model {
                SupportModel::Embedding => "替换音色特征模型失败：",
                _ => "替换 Silero VAD 模型失败：",
            },
            reason.as_str(),
        ),
        (InstallStep::Rename(model), StepEvent::Done) => step_after(target, model),
        (InstallStep::Rename(model), StepEvent::Failed(reason)) => failed(
            match model {
                SupportModel::Embedding => "完成音色特征模型缓存失败：",
                _ => "完成 Silero VAD 模型缓存失败：",
            },
            reason.as_str(),
        ),
        (InstallStep::Unpack(model), StepEvent::Failed(reason)) => failed(
            match model {
                SupportModel::Segmentation => "无法启动说话人分段模型解压程序：",
                SupportModel::Paraformer => "无法启动 Paraformer 解压程序：",
                _ => "无法启动标点模型解压程序：",
            },
            reason.as_str(),
        ),
        (InstallStep::Unpack(model), StepEvent::Unpacked(Ok(_))) => InstallStep::RemoveArchive(model, None),
        (InstallStep::Unpack(model), StepEvent::Unpacked(Err(complaint))) => {
            let message = unpack_complaint(model, complaint.as_str());
            match model {
                SupportModel::Punctuation => InstallStep::Failed(message),
                _ => InstallStep::RemoveArchive(model, Some(message)),
            }
        },
        (InstallStep::RemoveArchive(_, Some(message)), StepEvent::Done) => InstallStep::Failed(message),
        (InstallStep::RemoveArchive(model, None), StepEvent::Done) => InstallStep::CheckUnpacked(model),
        (InstallStep::CheckUnpacked(model), StepEvent::Checked(found)) => if found {
            step_after(target, model)
        } else {
            InstallStep::Failed(
                match model {
                    SupportModel::Segmentation => "解压后的说话人分段模型文件不完整".to_string(),
                    SupportModel::Paraformer => "解压后的 Paraformer Streaming 模型文件不完整".to_string(),
                    _ => "解压后的标点模型文件不完整".to_string(),
                },
            )
        },
        (InstallStep::RemoveExtras, StepEvent::Done) => InstallStep::Ready,
        (step, _) => step,
    }
}

/// How many steps may follow once a model is in its place: segmentation is followed by embedding.
pub open spec fn later(model: SupportModel) -> int {
    if model == SupportModel::Segmentation {
        12
    } else {
        0
    }
}

/// How far a step of an installation is from the end, at most.
pub open spec fn steps_left(step: InstallView) -> int {
    match step {
        InstallView::CheckAll => 28,
        InstallView::Wait => 27,
        InstallView::CheckAllAgain => 26,
        InstallView::CreateDirectory => 25,
        InstallView::CreateClient => 24,
        InstallView::Check(model) => 11 + later(model),
        InstallView::Download(model) => 10 + later(model),
        InstallView::Save(model) => 9 + later(model),
        InstallView::CheckOld(model) => 8 + later(model),
        InstallView::RemoveOld(model) => 7 + later(model),
        InstallView::Rename(model) => 6 + later(model),
        InstallView::Unpack(model) => 5 + later(model),
        InstallView::RemoveArchive(model, _) => 4 + later(model),
        InstallView::CheckUnpacked(model) => 3 + later(model),
        InstallView::RemoveExtras => 1,
        InstallView::Ready => 0,
        InstallView::Failed(_) => 0,
    }
}

/// An installation comes to an end: each step brings it nearer, and from the end nothing leads on.
#[verifier::rlimit(60)]
pub proof fn law_installations_come_to_an_end(target: InstallTarget, step: InstallView, event: EventView)
    ensures
        steps_left(step) >= 0,
        next_install(target, step, event) != step ==> steps_left(next_install(target, step, event)) < steps_left(
            step,
        ),
        step is Ready || step is Failed ==> next_install(target, step, event) == step,
{
    match step {
        InstallView::CheckAll | InstallView::Wait | InstallView::CheckAllAgain => {},
        InstallView::CreateDirectory | InstallView::CreateClient => {},
        InstallView::Check(_) | InstallView::Download(_) | InstallView::Save(_) => {},
        InstallView::CheckOld(_) | InstallView::RemoveOld(_) | InstallView::Rename(_) => {},
        InstallView::Unpack(_) => {},
        InstallView::RemoveArchive(_, _) => {},
        InstallView::CheckUnpacked(_) => {},
        InstallView::RemoveExtras => {},
        InstallView::Ready | InstallView::Failed(_) => {},
    }
}

/// What comes of a step that goes well where no model is there yet; `stale` says whether old files
/// stand in their places.
pub open spec fn good_event(step: InstallView, stale: bool) -> EventView {
    match step {
        InstallView::CheckAll | InstallView::CheckAllAgain | InstallView::Check(_) => EventView::Checked(false),
        InstallView::CheckOld(_) => EventView::Checked(stale),
        InstallView::CheckUnpacked(_) => EventView::Checked(true),
        InstallView::Unpack(_) => EventView::Unpacked(Ok(())),
        _ => EventView::Done,
    }
}

/// The step of an installation that is reached from `step` after `steps` that go well.
pub open spec fn smooth_install(target: InstallTarget, step: InstallView, stale: bool, steps: nat) -> InstallView
    decreases steps,
{
    if steps == 0 {
        step
    } else {
        smooth_install(target, next_install(target, step, good_event(step, stale)), stale, (steps - 1) as nat)
    }
}

/// An installation whose steps all go well is ready after eighteen of them at most, whatever it
/// installs.
pub proof fn law_installations_succeed(target: InstallTarget, stale: bool)
    ensures
        smooth_install(
            target,
            if target == InstallTarget::Paraformer {
                InstallView::CreateDirectory
            } else {
                InstallView::CheckAll
            },
            stale,
            18,
        ) == InstallView::Ready,
{
    reveal_with_fuel(smooth_install, 19);
    match target {
        InstallTarget::SileroVad => {},
        InstallTarget::Punctuation => {},
        InstallTarget::Embedding => {},
        InstallTarget::SpeakerModels => {},
        InstallTarget::Paraformer => {},
    }
}

/// Where all models are there already, nothing is downloaded; and a model that was unpacked counts
/// as installed only once it was found to be there.
pub proof fn law_models_are_checked(target: InstallTarget, model: SupportModel)
    ensures
        next_install(target, InstallView::CheckAll, EventView::Checked(true)) == InstallView::Ready,
        next_install(target, InstallView::CheckAllAgain, EventView::Checked(true)) == InstallView::Ready,
        next_install(target, InstallView::CheckUnpacked(model), EventView::Checked(false)) is Failed,
        is_archive(model) ==> next_install(target, InstallView::Save(model), EventView::Done)
            == InstallView::Unpack(model),
{
}

/// How long a download of a target may take, in seconds: to connect, and altogether.
pub fn download_timeouts(target: InstallTarget) -> (seconds: (u64, u64))
    ensures
        seconds == match target {
            InstallTarget::SileroVad => (15u64, 60u64),
            InstallTarget::Punctuation => (15u64, 300u64),
            InstallTarget::Paraformer => (20u64, 3_600u64),
            _ => (20u64, 600u64),
        },
{
    match target {
        InstallTarget::SileroVad => (15, 60),
        InstallTarget::Punctuation => (15, 300),
        InstallTarget::Paraformer => (20, 3_600),
        _ => (20, 600),
    }
}

/// A hundred times `n`, as far as it can be counted.
pub open spec fn hundredfold(n: u64) -> int {
    if n * 100 > u64::MAX {
        u64::MAX as int
    } else {
        n * 100
    }
}

/// The percentage of a download that is done. The last percent is kept for what comes after it.
pub open spec fn percent_done(downloaded: u64, total: u64) -> int {
    if hundredfold(downloaded) / total as int > 99 {
        99
    } else {
        hundredfold(downloaded) / total as int
    }
}

/// The percentage that was shown last.
pub struct ProgressMeter {
    shown: Option<u64>,
}

impl ProgressMeter {
    /// The percentage that was shown last; none before the first.
    pub closed spec fn shown(&self) -> Option<u64> {
        self.shown
    }

    /// Nothing has been shown yet.
    pub fn new() -> (meter: Self)
        ensures
            meter.shown() is None,
    {
        ProgressMeter { shown: None }
    }

    /// Takes note that `downloaded` bytes are there, of `total` where that is known, and gives the
    /// percentage to be shown where it is a new one.
    pub fn advance(&mut self, downloaded: u64, total: Option<u64>) -> (percent: Option<u64>)
        ensures
            match total {
                Some(total) if total > 0 && old(self).shown() != Some(percent_done(downloaded, total) as u64) => {
                    &&& percent == Some(percent_done(downloaded, total) as u64)
                    &&& final(self).shown() == percent
                },
                _ => percent is None && final(self).shown() == old(self).shown(),
            },
    {
        match total {
            Some(total) => {
                if total == 0 {
                    return None;
                }
                let scaled: u64 = if downloaded > u64::MAX / 100 {
                    u64::MAX
                } else {
                    downloaded * 100
                };
                let mut percent: u64 = scaled / total;
                if percent > 99 {
                    percent = 99;
                }
                assert(percent == percent_done(downloaded, total));
                match self.shown {
                    Some(shown) => {
                        if shown == percent {
                            return None;
                        }
                    },
                    None => {},
                }
                self.shown = Some(percent);
                Some(percent)
            },
            None => None,
        }
    }
}

/// A percentage as it is shown.
pub fn percent_text(percent: u64) -> (text: String)
    ensures
        text@ == decimal(percent as nat) + "%"@,
{
    decimal_text(percent).concat("%")
}

/// What is logged at a percentage: at every fifth one, how much of the whole is there.
pub fn percent_log(percent: u64, downloaded_mb: &str, total_mb: &str) -> (log: Option<String>)
    ensures
        if percent % 5 == 0 {
            log is Some && log->0@ == "Paraformer 下载 "@ + decimal(percent as nat) + "%（"@ + downloaded_mb@ + "/"@
                + total_mb@ + " MB）"@
        } else {
            log is None
        },
{
    if percent % 5 != 0 {
        return None;
    }
    Some(
        "Paraformer 下载 ".to_string().concat(decimal_text(percent).as_str()).concat("%（").concat(
            downloaded_mb,
        ).concat("/").concat(total_mb).concat(" MB）"),
    )
}

/// A download starts at 0 percent, never falls back, and never shows more than 99; that much it
/// shows once it is whole, where its hundredfold can be counted.
pub proof fn law_progress_stays_below_a_hundred(downloaded: u64, more: u64, total: u64)
    requires
        total > 0,
    ensures
        0 <= percent_done(downloaded, total) <= 99,
        percent_done(0, total) == 0,
        downloaded <= more ==> percent_done(downloaded, total) <= percent_done(more, total),
        downloaded >= total && total * 100 <= u64::MAX ==> percent_done(downloaded, total) == 99,
{
    let less = hundredfold(downloaded);
    let most = hundredfold(more);
    vstd::arithmetic::div_mod::lemma_div_pos_is_pos(less, total as int);
    assert(0int / total as int == 0) by (nonlinear_arith)
        requires
            total > 0,
    ;
    if downloaded <= more {
        vstd::arithmetic::div_mod::lemma_div_is_ordered(less, most, total as int);
    }
    if downloaded >= total && total * 100 <= u64::MAX {
        vstd::arithmetic::div_mod::lemma_div_is_ordered(100 * total as int, less, total as int);
        vstd::arithmetic::div_mod::lemma_div_multiples_vanish(100, total as int);
        assert(total * 100 == 100 * total as int);
        assert(100 * total as int == total as int * 100);
    }
}

/// A line that tells how far a clone has come.
pub open spec fn is_progress_line(line: Seq<char>) -> bool {
    occurs("Receiving objects:"@, line) && occurs("%"@, line)
}

/// Whether a line tells how far a clone has come.
pub fn shows_progress(line: &str) -> (yes: bool)
    ensures
        yes == is_progress_line(line@),
{
    text_occurs("Receiving objects:", line) && text_occurs("%", line)
}

/// What the program that clones is started with.
pub fn clone_arguments(repository: &str, directory: &str) -> (arguments: Vec<String>)
    ensures
        views(arguments@) == seq![
            "clone"@,
            "--depth"@,
            "1"@,
            "--progress"@,
            repository@,
            directory@,
        ],
{
    let arguments = vec![
        "clone".to_string(),
        "--depth".to_string(),
        "1".to_string(),
        "--progress".to_string(),
        repository.to_string(),
        directory.to_string(),
    ];
    assert(views(arguments@) =~= seq!["clone"@, "--depth"@, "1"@, "--progress"@, repository@, directory@]);
    arguments
}

/// A step of the download of a local speech model.
pub enum DownloadStep {
    /// Let go of the model, where it is the one that is loaded.
    Unload,
    /// Look whether its directory is there.
    CheckDirectory,
    RemoveDirectory,
    /// Install the streaming model from its archive.
    InstallArchive,
    CreateDirectory,
    /// Clone this repository.
    Clone(&'static str),
    /// Say this, and install the voice activity model.
    PrepareVad(&'static str),
    PreparePunctuation,
    Complete,
    Failed(String),
}

/// A step of the download of a local speech model, as sequences.
pub enum DownloadView {
    Unload,
    CheckDirectory,
    RemoveDirectory,
    InstallArchive,
    CreateDirectory,
    Clone(Seq<char>),
    PrepareVad(Seq<char>),
    PreparePunctuation,
    Complete,
    Failed(Seq<char>),
}

impl View for DownloadStep {
    type V = DownloadView;

    open spec fn view(&self) -> DownloadView {
        match self {
            DownloadStep::Unload => DownloadView::Unload,
            DownloadStep::CheckDirectory => DownloadView::CheckDirectory,
            DownloadStep::RemoveDirectory => DownloadView::RemoveDirectory,
            DownloadStep::InstallArchive => DownloadView::InstallArchive,
            DownloadStep::CreateDirectory => DownloadView::CreateDirectory,
            DownloadStep::Clone(repository) => DownloadView::Clone(repository@),
            DownloadStep::PrepareVad(log) => DownloadView::PrepareVad(log@),
            DownloadStep::PreparePunctuation => DownloadView::PreparePunctuation,
            DownloadStep::Complete => DownloadView::Complete,
            DownloadStep::Failed(message) => DownloadView::Failed(message@),
        }
    }
}

/// The step that gets the files of a model, once its old directory is gone.
pub open spec fn fetch_step(kind: LocalSpeechModelKind) -> DownloadView {
    if kind == LocalSpeechModelKind::ParaformerStreaming {
        DownloadView::InstallArchive
    } else {
        DownloadView::CreateDirectory
    }
}

/// What is said when the models that go with a speech model are being prepared.
pub open spec fn support_log(kind: LocalSpeechModelKind) -> Seq<char> {
    if kind == LocalSpeechModelKind::SenseVoice {
        "正在准备 Silero VAD 模型..."@
    } else {
        "正在准备 Silero VAD 和中英文标点模型..."@
    }
}

/// The step of the download of `kind` that follows `step` when `event` came of it. An event that
/// cannot come of the step leaves it as it is.
pub open spec fn next_download(kind: LocalSpeechModelKind, step: DownloadView, event: EventView) -> DownloadView {
    match (step, event) {
        (DownloadView::Unload, EventView::Done) => DownloadView::CheckDirectory,
        (DownloadView::CheckDirectory, EventView::Checked(found)) => if found {
            DownloadView::RemoveDirectory
        } else {
            fetch_step(kind)
        },
        (DownloadView::RemoveDirectory, EventView::Done) => fetch_step(kind),
        (DownloadView::CreateDirectory, EventView::Done) => match kind_repository(kind) {
            Some(repository) => DownloadView::Clone(repository),
            None => DownloadView::Failed("本地模型缺少下载地址"@),
        },
        (DownloadView::InstallArchive, EventView::Done) => DownloadView::PrepareVad(support_log(kind)),
        (DownloadView::Clone(_), EventView::Done) => DownloadView::PrepareVad(support_log(kind)),
        (DownloadView::PrepareVad(_), EventView::Done) => if kind == LocalSpeechModelKind::SenseVoice {
            DownloadView::Complete
        } else {
            DownloadView::PreparePunctuation
        },
        (DownloadView::PreparePunctuation, EventView::Done) => DownloadView::Complete,
        (DownloadView::Complete, _) => step,
        (DownloadView::Failed(_), _) => step,
        (_, EventView::Failed(message)) => DownloadView::Failed(message),
        _ => step,
    }
}

/// What is shown of how far a download has come, when it has come to `step`.
pub open spec fn step_progress(step: DownloadView) -> Option<Seq<char>> {
    match step {
        DownloadView::Complete => Some("100%"@),
        _ => None,
    }
}

/// What is shown of how far a download has come, when it has come to `step`: only a complete one is
/// shown as such.
pub fn progress_at(step: &DownloadStep) -> (shown: Option<&'static str>)
    ensures
        match shown {
            Some(shown) => step_progress(step@) == Some(shown@),
            None => step_progress(step@) is None,
        },
{
    match step {
        DownloadStep::Complete => Some("100%"),
        _ => None,
    }
}

/// A hundred percent is shown of a complete download only: while a file comes in, the percentage
/// that is shown is another text.
pub proof fn law_a_hundred_means_complete(
    kind: LocalSpeechModelKind,
    found: bool,
    step: DownloadView,
    downloaded: u64,
    total: u64,
)
    requires
        total > 0,
    ensures
        step_progress(smooth_download(kind, DownloadView::Unload, found, 8)) == Some("100%"@),
        step_progress(step) is Some ==> step is Complete,
        decimal(percent_done(downloaded, total) as nat) + "%"@ != "100%"@,
{
    law_downloads_complete(kind, found, step, Seq::empty());
    law_progress_stays_below_a_hundred(downloaded, downloaded, total);
    reveal_strlit("%");
    reveal_strlit("100%");
    let percent = percent_done(downloaded, total) as nat;
    reveal_with_fuel(decimal, 2);
    assert(decimal(percent).len() <= 2);
    assert((decimal(percent) + "%"@).len() <= 3);
}

/// The download of a local speech model.
pub struct ModelDownload {
    kind: LocalSpeechModelKind,
    spec: LocalModelSpec,
}

impl ModelDownload {
    /// The model that is downloaded.
    pub closed spec fn kind(&self) -> LocalSpeechModelKind {
        self.kind
    }

    #[verifier::type_invariant]
    closed spec fn well_formed(&self) -> bool {
        self.spec.describes(self.kind)
    }

    /// The download of the model with the identifier `model_id`.
    pub fn new(model_id: &str) -> (download: Result<Self, String>)
        ensures
            match kind_with_id(model_id@) {
                Some(kind) => download is Ok && download->Ok_0.kind() == kind,
                None => download is Err && download->Err_0@ == "不支持的本地语音模型："@ + trim(model_id@),
            },
    {
        match local_model_spec(model_id) {
            Ok(spec) => {
                match LocalSpeechModelKind::from_id(model_id) {
                    Ok(kind) => Ok(ModelDownload { kind, spec }),
                    Err(message) => Err(message),
                }
            },
            Err(message) => Err(message),
        }
    }

    /// Where the model's files are kept and where they come from.
    pub fn spec(&self) -> (spec: &LocalModelSpec)
        ensures
            spec.describes(self.kind()),
    {
        proof {
            use_type_invariant(self);
        }
        &self.spec
    }

    /// The step that a download starts with.
    pub fn first_step(&self) -> (step: DownloadStep)
        ensures
            step@ == DownloadView::Unload,
    {
        DownloadStep::Unload
    }

    /// Whether the model that is loaded is the one that is downloaded, and has to be let go of.
    pub fn replaces(&self, loaded_id: &str) -> (yes: bool)
        ensures
            yes == (loaded_id@ == kind_id(self.kind())),
    {
        same_text(loaded_id, self.kind.id())
    }

    /// Says which step follows `step` when `event` came of it.
    pub fn next_step(&self, step: DownloadStep, event: StepEvent) -> (next: DownloadStep)
        ensures
            next@ == next_download(self.kind(), step@, event@),
    {
        proof {
            use_type_invariant(self);
        }
        match (step, event) {
            (DownloadStep::Unload, StepEvent::Done) => DownloadStep::CheckDirectory,
            (DownloadStep::CheckDirectory, StepEvent::Checked(found)) => if found {
                DownloadStep::RemoveDirectory
            } else {
                self.fetch()
            },
            (DownloadStep::RemoveDirectory, StepEvent::Done) => self.fetch(),
            (DownloadStep::CreateDirectory, StepEvent::Done) => match self.spec.repository {
                Some(repository) => DownloadStep::Clone(repository),
                None => DownloadStep::Failed("本地模型缺少下载地址".to_string()),
            },
            (DownloadStep::InstallArchive, StepEvent::Done) => self.prepare(),
            (DownloadStep::Clone(_), StepEvent::Done) => self.prepare(),
            (DownloadStep::PrepareVad(_), StepEvent::Done) => match self.kind {
                LocalSpeechModelKind::SenseVoice => DownloadStep::Complete,
                _ => DownloadStep::PreparePunctuation,
            },
            (DownloadStep::PreparePunctuation, StepEvent::Done) => DownloadStep::Complete,
            (DownloadStep::Complete, _) => DownloadStep::Complete,
            (DownloadStep::Failed(message), _) => DownloadStep::Failed(message),
            (_, StepEvent::Failed(message)) => DownloadStep::Failed(message),
            (step, _) => step,
        }
    }

    fn fetch(&self) -> (step: DownloadStep)
        ensures
            step@ == fetch_step(self.kind()),
    {
        match self.kind {
            LocalSpeechModelKind::ParaformerStreaming => DownloadStep::InstallArchive,
            _ => DownloadStep::CreateDirectory,
        }
    }

    fn prepare(&self) -> (step: DownloadStep)
        ensures
            step@ == DownloadView::PrepareVad(support_log(self.kind())),
    {
        match self.kind {
            LocalSpeechModelKind::SenseVoice => DownloadStep::PrepareVad("正在准备 Silero VAD 模型..."),
            _ => DownloadStep::PrepareVad("正在准备 Silero VAD 和中英文标点模型..."),
        }
    }
}

/// The steps of a download when each of them goes well, from `step` on; `found` says whether an old
/// directory is there.
pub open spec fn smooth_download(kind: LocalSpeechModelKind, step: DownloadView, found: bool, steps: nat) -> DownloadView
    decreases steps,
{
    if steps == 0 {
        step
    } else {
        let event = if step is CheckDirectory {
            EventView::Checked(found)
        } else {
            EventView::Done
        };
        smooth_download(kind, next_download(kind, step, event), found, (steps - 1) as nat)
    }
}

/// A download whose steps all go well is complete after eight of them at most, whichever model it
/// is of; a step that fails ends it with what it failed with.
pub proof fn law_downloads_complete(kind: LocalSpeechModelKind, found: bool, step: DownloadView, message: Seq<char>)
    ensures
        smooth_download(kind, DownloadView::Unload, found, 8) == DownloadView::Complete,
        !(step is Complete) && !(step is Failed) ==> next_download(kind, step, EventView::Failed(message))
            == DownloadView::Failed(message),
{
    reveal_with_fuel(smooth_download, 9);
}

/// What the program that unpacks archives is started with.
pub fn unpack_arguments(archive: &str, directory: &str) -> (arguments: Vec<String>)
    ensures
        views(arguments@) == seq!["-xjf"@, archive@, "-C"@, directory@],
{
    let arguments = vec!["-xjf".to_string(), archive.to_string(), "-C".to_string(), directory.to_string()];
    assert(views(arguments@) =~= seq!["-xjf"@, archive@, "-C"@, directory@]);
    arguments
}

/// What came of cloning: `status` is what is said of the program's end.
pub fn clone_outcome(success: bool, status: &str) -> (outcome: Result<(), String>)
    ensures
        if success {
            outcome is Ok
        } else {
            outcome is Err && outcome->Err_0@ == "Git clone failed with status: "@ + status@
        },
{
    if success {
        Ok(())
    } else {
        Err("Git clone failed with status: ".to_string().concat(status))
    }
}

/// An installation is ready only when all models were found, or when the last model of the target was
/// found, moved to its place or unpacked and found there.
pub proof fn law_ready_means_installed(target: InstallTarget, step: InstallView, event: EventView)
    requires
        !(step is Ready),
        next_install(target, step, event) is Ready,
    ensures
        match step {
            InstallView::CheckAll => event == EventView::Checked(true),
            InstallView::CheckAllAgain => event == EventView::Checked(true),
            InstallView::Check(model) => event == EventView::Checked(true) && (models_of(target).contains(model)
                ==> model == models_of(target).last()),
            InstallView::Rename(model) => event == EventView::Done && (models_of(target).contains(model) ==> model
                == models_of(target).last()),
            InstallView::CheckUnpacked(model) => event == EventView::Checked(true) && (models_of(target).contains(model)
                ==> model == models_of(target).last()),
            InstallView::RemoveExtras => event == EventView::Done,
            _ => false,
        },
{
    match target {
        InstallTarget::SpeakerModels => {
            assert(models_of(target).last() == SupportModel::Embedding);
        },
        InstallTarget::SileroVad => {},
        InstallTarget::Punctuation => {},
        InstallTarget::Embedding => {},
        InstallTarget::Paraformer => {},
    }
}

/// The models of a target are installed one after the other, from the first to the last.
pub proof fn law_all_models_are_installed(target: InstallTarget, i: int)
    requires
        0 <= i < models_of(target).len(),
    ensures
        first_model(target) == models_of(target)[0],
        next_install(target, InstallView::CreateClient, EventView::Done) == InstallView::Download(models_of(target)[0])
            || next_install(target, InstallView::CreateClient, EventView::Done) == InstallView::Check(
            models_of(target)[0],
        ),
        i + 1 < models_of(target).len() ==> step_after_model(target, models_of(target)[i]) == InstallView::Check(
            models_of(target)[i + 1],
        ),
        next_install(target, InstallView::Check(models_of(target)[i]), EventView::Checked(false))
            == InstallView::Download(models_of(target)[i]),
        target == InstallTarget::SpeakerModels ==> models_of(target).contains(SupportModel::Segmentation)
            && models_of(target).contains(SupportModel::Embedding),
{
    match target {
        InstallTarget::SpeakerModels => {
            assert(models_of(target)[0] == SupportModel::Segmentation);
            assert(models_of(target)[1] == SupportModel::Embedding);
        },
        InstallTarget::SileroVad => {},
        InstallTarget::Punctuation => {},
        InstallTarget::Embedding => {},
        InstallTarget::Paraformer => {},
    }
}

/// What was downloaded comes to its place: a file is written, an old one is removed, and it is moved;
/// an archive is unpacked, removed, and what it held is looked for.
pub proof fn law_downloads_come_to_their_place(target: InstallTarget, model: SupportModel)
    ensures
        !is_archive(model) ==> {
            &&& next_install(target, InstallView::Download(model), EventView::Done) == InstallView::Save(model)
            &&& next_install(target, InstallView::Save(model), EventView::Done) == InstallView::CheckOld(model)
            &&& next_install(target, InstallView::CheckOld(model), EventView::Checked(true))
                == InstallView::RemoveOld(model)
            &&& next_install(target, InstallView::CheckOld(model), EventView::Checked(false))
                == InstallView::Rename(model)
            &&& next_install(target, InstallView::RemoveOld(model), EventView::Done) == InstallView::Rename(model)
        },
        is_archive(model) ==> {
            &&& next_install(target, InstallView::Download(model), EventView::Done) == InstallView::Save(model)
                || next_install(target, InstallView::Download(model), EventView::Done) == InstallView::Unpack(model)
            &&& next_install(target, InstallView::Save(model), EventView::Done) == InstallView::Unpack(model)
            &&& next_install(target, InstallView::Unpack(model), EventView::Unpacked(Ok(())))
                == InstallView::RemoveArchive(model, None)
            &&& next_install(target, InstallView::RemoveArchive(model, None), EventView::Done)
                == InstallView::CheckUnpacked(model)
        },
{
}

/// A step that cannot be done ends the installation, and what is said ends with the reason.
pub proof fn law_failed_installations_say_why(target: InstallTarget, model: SupportModel, reason: Seq<char>)
    ensures
        fails_with(next_install(target, InstallView::CreateDirectory, EventView::Failed(reason)), reason),
        fails_with(next_install(target, InstallView::CreateClient, EventView::Failed(reason)), reason),
        fails_with(next_install(target, InstallView::Download(model), EventView::Failed(reason)), reason),
        fails_with(next_install(target, InstallView::Save(model), EventView::Failed(reason)), reason),
        fails_with(next_install(target, InstallView::RemoveOld(model), EventView::Failed(reason)), reason),
        fails_with(next_install(target, InstallView::Rename(model), EventView::Failed(reason)), reason),
        fails_with(next_install(target, InstallView::Unpack(model), EventView::Failed(reason)), reason),
        ({
            let next = next_install(target, InstallView::Unpack(model), EventView::Unpacked(Err(reason)));
            fails_with(next, trim(reason)) || (next is RemoveArchive && fails_with(
                next_install(target, next, EventView::Done),
                trim(reason),
            ))
        }),
{
    lemma_ends_with(directory_failure(target), reason);
    lemma_ends_with(client_failure(target), reason);
    lemma_ends_with(Seq::empty(), reason);
    assert(Seq::<char>::empty() + reason =~= reason);
    lemma_ends_with(save_failure(model), reason);
    lemma_ends_with(replace_failure(model), reason);
    lemma_ends_with(rename_failure(model), reason);
    lemma_ends_with(unpacker_failure(model), reason);
    lemma_ends_with(unpack_failure(model), trim(reason));
}

/// The installation has failed, and what is said ends with `reason`.
pub open spec fn fails_with(step: InstallView, reason: Seq<char>) -> bool {
    step is Failed && reason.is_suffix_of(step->Failed_0)
}

/// A text ends with its last part.
proof fn lemma_ends_with(before: Seq<char>, part: Seq<char>)
    ensures
        part.is_suffix_of(before + part),
{
    let whole = before + part;
    assert(whole.subrange(whole.len() - part.len(), whole.len() as int) =~= part);
}

/// What is said of a download that failed everywhere ends with the last error.
pub proof fn law_failed_downloads_say_why(model: SupportModel, error: Seq<char>)
    ensures
        error.is_suffix_of(download_failure(model, error)),
        attempt_error(model, Err(error)) == error,
{
    let whole = download_failure(model, error);
    assert(whole.subrange(whole.len() - error.len(), whole.len() as int) =~= error);
}

/// A model that comes as one file is taken as complete when it is downloaded exactly when it is taken
/// as whole once it is in its place.
pub proof fn law_complete_downloads_are_whole(model: SupportModel, size: u64)
    requires
        !is_archive(model),
    ensures
        is_complete(model, Ok(size)) <==> is_whole(model, FoundModel::File(Some(FileInfo { is_file: true, len: size }))),
        !is_whole(model, FoundModel::File(None)),
        !is_whole(model, FoundModel::File(Some(FileInfo { is_file: false, len: size }))),
{
}

/// More of a model than counts as complete counts too, and an error never does.
pub proof fn law_more_is_complete_too(model: SupportModel, size: u64, more: u64, error: Seq<char>)
    requires
        size <= more,
    ensures
        is_complete(model, Ok(size)) ==> is_complete(model, Ok(more)),
        !is_complete(model, Err(error)),
        !is_complete(model, Ok(0)),
{
}

/// The percentage that is shown is the one that was reached, rounded down, up to the last percent.
pub proof fn law_progress_is_what_was_reached(downloaded: u64, total: u64)
    requires
        total > 0,
        downloaded * 100 <= u64::MAX,
        percent_done(downloaded, total) < 99,
    ensures
        percent_done(downloaded, total) * total <= downloaded * 100,
        downloaded * 100 < (percent_done(downloaded, total) + 1) * total,
{
    let scaled = downloaded * 100;
    let percent = percent_done(downloaded, total);
    vstd::arithmetic::div_mod::lemma_fundamental_div_mod(scaled, total as int);
    vstd::arithmetic::div_mod::lemma_mod_bound(scaled, total as int);
    assert(percent == scaled / total as int);
    assert(percent * total == total as int * percent) by (nonlinear_arith);
    assert((percent + 1) * total == total as int * percent + total) by (nonlinear_arith);
}

/// A download is complete only after the models that go with the speech model were installed: the
/// voice activity model, and the punctuation model unless it is the SenseVoice model.
pub proof fn law_support_models_come_along(kind: LocalSpeechModelKind, step: DownloadView, event: EventView)
    ensures
        next_download(kind, step, event) is Complete && !(step is Complete) ==> event == EventView::Done && (
        step is PreparePunctuation || (step is PrepareVad && kind == LocalSpeechModelKind::SenseVoice)),
        next_download(kind, step, event) is PreparePunctuation && !(step is PreparePunctuation) ==> event
            == EventView::Done && step is PrepareVad && kind != LocalSpeechModelKind::SenseVoice,
        next_download(kind, step, event) is PrepareVad && !(step is PrepareVad) ==> event == EventView::Done && (
        step is InstallArchive || step is Clone),
{
}

/// The files of a speech model are fetched only once its old directory is gone: the streaming model
/// from its archive, the others from their repositories.
pub proof fn law_models_are_fetched_anew(kind: LocalSpeechModelKind, step: DownloadView, event: EventView)
    ensures
        next_download(kind, DownloadView::CheckDirectory, EventView::Checked(true)) == DownloadView::RemoveDirectory,
        next_download(kind, step, event) is InstallArchive && !(step is InstallArchive) ==> kind
            == LocalSpeechModelKind::ParaformerStreaming && ((step is CheckDirectory && event == EventView::Checked(
            false,
        )) || (step is RemoveDirectory && event == EventView::Done)),
        next_download(kind, step, event) is CreateDirectory && !(step is CreateDirectory) ==> kind
            != LocalSpeechModelKind::ParaformerStreaming && ((step is CheckDirectory && event == EventView::Checked(
            false,
        )) || (step is RemoveDirectory && event == EventView::Done)),
        next_download(kind, step, event) is Clone && !(step is Clone) ==> step is CreateDirectory && kind_repository(kind)
            == Some(next_download(kind, step, event)->Clone_0),
{
}

/// A hundred percent is shown of a complete download, and of nothing else.
pub proof fn law_only_complete_downloads_show_a_hundred(step: DownloadView)
    ensures
        step is Complete <==> step_progress(step) == Some("100%"@),
        !(step is Complete) ==> step_progress(step) is None,
{
}

/// Every model can be had from its own place, which is tried last, and through others before it: their
/// addresses end with that of its own place.
pub proof fn law_all_places_lead_to_the_same_file(model: SupportModel, i: int)
    requires
        0 <= i < mirrors(model).len(),
    ensures
        mirrors(model).len() >= 2,
        mirrors(model).last().is_suffix_of(mirrors(model)[i]),
        "https://github.com/k2-fsa/sherpa-onnx/releases/download/"@.is_prefix_of(mirrors(model).last()),
        is_archive(model) <==> ".tar.bz2"@.is_suffix_of(mirrors(model).last()),
        !is_archive(model) <==> ".onnx"@.is_suffix_of(mirrors(model).last()),
{
    match model {
        SupportModel::SileroVad => lemma_vad_places(i),
        SupportModel::Punctuation => lemma_punctuation_places(i),
        SupportModel::Segmentation => lemma_segmentation_places(i),
        SupportModel::Embedding => lemma_embedding_places(i),
        SupportModel::Paraformer => lemma_streaming_places(i),
    }
}

/// Where the voice activity model can be had from.
proof fn lemma_vad_places(i: int)
    requires
        0 <= i < mirrors(SupportModel::SileroVad).len(),
    ensures
        mirrors(SupportModel::SileroVad).len() == 2,
        mirrors(SupportModel::SileroVad).last().is_suffix_of(mirrors(SupportModel::SileroVad)[i]),
        "https://github.com/k2-fsa/sherpa-onnx/releases/download/"@.is_prefix_of(mirrors(SupportModel::SileroVad).last()),
        !".tar.bz2"@.is_suffix_of(mirrors(SupportModel::SileroVad).last()),
        ".onnx"@.is_suffix_of(mirrors(SupportModel::SileroVad).last()),
{
    let place = mirrors(SupportModel::SileroVad)[i];
    let own = mirrors(SupportModel::SileroVad).last();
    reveal_strlit("https://github.com/k2-fsa/sherpa-onnx/releases/download/");
    reveal_strlit(".tar.bz2");
    reveal_strlit(".onnx");
    reveal_strlit(
        "https://gh-proxy.com/https://github.com/k2-fsa/sherpa-onnx/releases/download/asr-models/silero_vad.onnx",
    );
    reveal_strlit(
        "https://github.com/k2-fsa/sherpa-onnx/releases/download/asr-models/silero_vad.onnx",
    );
    assert(own.subrange(0, 56) =~= "https://github.com/k2-fsa/sherpa-onnx/releases/download/"@);
    assert(own.subrange(own.len() - 5, own.len() as int) =~= ".onnx"@);
    assert(own.last() == 'x');
    assert(".tar.bz2"@[7] == '2');
    if i == 0 {
        assert(place.subrange(place.len() - own.len(), place.len() as int) =~= own);
    }
    if i == 1 {
        assert(own.subrange(0, own.len() as int) =~= own);
    }
}

/// Where the punctuation model can be had from.
proof fn lemma_punctuation_places(i: int)
    requires
        0 <= i < mirrors(SupportModel::Punctuation).len(),
    ensures
        mirrors(SupportModel::Punctuation).len() == 2,
        mirrors(SupportModel::Punctuation).last().is_suffix_of(mirrors(SupportModel::Punctuation)[i]),
        "https://github.com/k2-fsa/sherpa-onnx/releases/download/"@.is_prefix_of(mirrors(SupportModel::Punctuation).last()),
        ".tar.bz2"@.is_suffix_of(mirrors(SupportModel::Punctuation).last()),
        !".onnx"@.is_suffix_of(mirrors(SupportModel::Punctuation).last()),
{
    let place = mirrors(SupportModel::Punctuation)[i];
    let own = mirrors(SupportModel::Punctuation).last();
    reveal_strlit("https://github.com/k2-fsa/sherpa-onnx/releases/download/");
    reveal_strlit(".tar.bz2");
    reveal_strlit(".onnx");
    reveal_strlit(
        "https://gh-proxy.com/https://github.com/k2-fsa/sherpa-onnx/releases/download/punctuation-models/sherpa-onnx-punct-ct-transformer-zh-en-vocab272727-2024-04-12-int8.tar.bz2",
    );
    reveal_strlit(
        "https://github.com/k2-fsa/sherpa-onnx/releases/download/punctuation-models/sherpa-onnx-punct-ct-transformer-zh-en-vocab272727-2024-04-12-int8.tar.bz2",
    );
    assert(own.subrange(0, 56) =~= "https://github.com/k2-fsa/sherpa-onnx/releases/download/"@);
    assert(own.subrange(own.len() - 8, own.len() as int) =~= ".tar.bz2"@);
    assert(own.last() == '2');
    assert(".onnx"@[4] == 'x');
    if i == 0 {
        assert(place.subrange(place.len() - own.len(), place.len() as int) =~= own);
    }
    if i == 1 {
        assert(own.subrange(0, own.len() as int) =~= own);
    }
}

/// Where the segmentation model can be had from.
proof fn lemma_segmentation_places(i: int)
    requires
        0 <= i < mirrors(SupportModel::Segmentation).len(),
    ensures
        mirrors(SupportModel::Segmentation).len() == 3,
        mirrors(SupportModel::Segmentation).last().is_suffix_of(mirrors(SupportModel::Segmentation)[i]),
        "https://github.com/k2-fsa/sherpa-onnx/releases/download/"@.is_prefix_of(mirrors(SupportModel::Segmentation).last()),
        ".tar.bz2"@.is_suffix_of(mirrors(SupportModel::Segmentation).last()),
        !".onnx"@.is_suffix_of(mirrors(SupportModel::Segmentation).last()),
{
    let place = mirrors(SupportModel::Segmentation)[i];
    let own = mirrors(SupportModel::Segmentation).last();
    reveal_strlit("https://github.com/k2-fsa/sherpa-onnx/releases/download/");
    reveal_strlit(".tar.bz2");
    reveal_strlit(".onnx");
    reveal_strlit(
        "https://gh-proxy.com/https://github.com/k2-fsa/sherpa-onnx/releases/download/speaker-segmentation-models/sherpa-onnx-pyannote-segmentation-3-0.tar.bz2",
    );
    reveal_strlit(
        "https://ghfast.top/https://github.com/k2-fsa/sherpa-onnx/releases/download/speaker-segmentation-models/sherpa-onnx-pyannote-segmentation-3-0.tar.bz2",
    );
    reveal_strlit(
        "https://github.com/k2-fsa/sherpa-onnx/releases/download/speaker-segmentation-models/sherpa-onnx-pyannote-segmentation-3-0.tar.bz2",
    );
    assert(own.subrange(0, 56) =~= "https://github.com/k2-fsa/sherpa-onnx/releases/download/"@);
    assert(own.subrange(own.len() - 8, own.len() as int) =~= ".tar.bz2"@);
    assert(own.last() == '2');
    assert(".onnx"@[4] == 'x');
    if i == 0 {
        assert(place.subrange(place.len() - own.len(), place.len() as int) =~= own);
    }
    if i == 1 {
        assert(place.subrange(place.len() - own.len(), place.len() as int) =~= own);
    }
    if i == 2 {
        assert(own.subrange(0, own.len() as int) =~= own);
    }
}

/// Where the embedding model can be had from.
proof fn lemma_embedding_places(i: int)
    requires
        0 <= i < mirrors(SupportModel::Embedding).len(),
    ensures
        mirrors(SupportModel::Embedding).len() == 3,
        mirrors(SupportModel::Embedding).last().is_suffix_of(mirrors(SupportModel::Embedding)[i]),
        "https://github.com/k2-fsa/sherpa-onnx/releases/download/"@.is_prefix_of(mirrors(SupportModel::Embedding).last()),
        !".tar.bz2"@.is_suffix_of(mirrors(SupportModel::Embedding).last()),
        ".onnx"@.is_suffix_of(mirrors(SupportModel::Embedding).last()),
{
    let place = mirrors(SupportModel::Embedding)[i];
    let own = mirrors(SupportModel::Embedding).last();
    reveal_strlit("https://github.com/k2-fsa/sherpa-onnx/releases/download/");
    reveal_strlit(".tar.bz2");
    reveal_strlit(".onnx");
    reveal_strlit(
        "https://gh-proxy.com/https://github.com/k2-fsa/sherpa-onnx/releases/download/speaker-recongition-models/3dspeaker_speech_eres2net_base_sv_zh-cn_3dspeaker_16k.onnx",
    );
    reveal_strlit(
        "https://ghfast.top/https://github.com/k2-fsa/sherpa-onnx/releases/download/speaker-recongition-models/3dspeaker_speech_eres2net_base_sv_zh-cn_3dspeaker_16k.onnx",
    );
    reveal_strlit(
        "https://github.com/k2-fsa/sherpa-onnx/releases/download/speaker-recongition-models/3dspeaker_speech_eres2net_base_sv_zh-cn_3dspeaker_16k.onnx",
    );
    assert(own.subrange(0, 56) =~= "https://github.com/k2-fsa/sherpa-onnx/releases/download/"@);
    assert(own.subrange(own.len() - 5, own.len() as int) =~= ".onnx"@);
    assert(own.last() == 'x');
    assert(".tar.bz2"@[7] == '2');
    if i == 0 {
        assert(place.subrange(place.len() - own.len(), place.len() as int) =~= own);
    }
    if i == 1 {
        assert(place.subrange(place.len() - own.len(), place.len() as int) =~= own);
    }
    if i == 2 {
        assert(own.subrange(0, own.len() as int) =~= own);
    }
}

/// Where the streaming speech model can be had from.
proof fn lemma_streaming_places(i: int)
    requires
        0 <= i < mirrors(SupportModel::Paraformer).len(),
    ensures
        mirrors(SupportModel::Paraformer).len() == 2,
        mirrors(SupportModel::Paraformer).last().is_suffix_of(mirrors(SupportModel::Paraformer)[i]),
        "https://github.com/k2-fsa/sherpa-onnx/releases/download/"@.is_prefix_of(mirrors(SupportModel::Paraformer).last()),
        ".tar.bz2"@.is_suffix_of(mirrors(SupportModel::Paraformer).last()),
        !".onnx"@.is_suffix_of(mirrors(SupportModel::Paraformer).last()),
{
    let place = mirrors(SupportModel::Paraformer)[i];
    let own = mirrors(SupportModel::Paraformer).last();
    reveal_strlit("https://github.com/k2-fsa/sherpa-onnx/releases/download/");
    reveal_strlit(".tar.bz2");
    reveal_strlit(".onnx");
    reveal_strlit(
        "https://gh-proxy.com/https://github.com/k2-fsa/sherpa-onnx/releases/download/asr-models/sherpa-onnx-streaming-paraformer-bilingual-zh-en.tar.bz2",
    );
    reveal_strlit(
        "https://github.com/k2-fsa/sherpa-onnx/releases/download/asr-models/sherpa-onnx-streaming-paraformer-bilingual-zh-en.tar.bz2",
    );
    assert(own.subrange(0, 56) =~= "https://github.com/k2-fsa/sherpa-onnx/releases/download/"@);
    assert(own.subrange(own.len() - 8, own.len() as int) =~= ".tar.bz2"@);
    assert(own.last() == '2');
    assert(".onnx"@[4] == 'x');
    if i == 0 {
        assert(place.subrange(place.len() - own.len(), place.len() as int) =~= own);
    }
    if i == 1 {
        assert(own.subrange(0, own.len() as int) =~= own);
    }
}

/// From its first step on, an installation whose steps all go well is ready in the end.
pub proof fn law_installations_start_and_succeed(target: InstallTarget, stale: bool, step: InstallStep)
    requires
        call_ensures(first_install_step, (target,), step),
    ensures
        smooth_install(target, step@, stale, 18) is Ready,
{
    law_installations_succeed(target, stale);
}

/// A target is installed only when every one of its models is whole.
pub proof fn law_one_missing_model_is_noticed(
    target: InstallTarget,
    found: &Vec<FoundModel>,
    i: int,
    installed: bool,
)
    requires
        call_ensures(target_is_installed, (target, found), installed),
        found@.len() == models_of(target).len(),
        0 <= i < found@.len(),
    ensures
        !is_whole(models_of(target)[i], found@[i]) ==> !installed,
        (forall|k: int| 0 <= k < found@.len() ==> is_whole(models_of(target)[k], #[trigger] found@[k])) ==> installed,
{
}

/// The places of a model are tried one after the other: an attempt that brought too little leads to the
/// place behind it, or to giving up where it was the last.
pub proof fn law_the_next_place_is_tried(
    attempts: &mut DownloadAttempts,
    later: &DownloadAttempts,
    outcome: Result<u64, String>,
    complete: bool,
    step: AttemptStep,
)
    requires
        has_next(old(attempts).state()),
        call_ensures(DownloadAttempts::report, (attempts, outcome), complete),
        later.state() == final(attempts).state(),
        call_ensures(DownloadAttempts::next, (later,), step),
    ensures
        complete <==> outcome is Ok && outcome->Ok_0 >= least_download(old(attempts).state().model),
        final(attempts).state().tried == old(attempts).state().tried + 1,
        final(attempts).state().model == old(attempts).state().model,
        old(attempts).state().tried + 1 < mirrors(old(attempts).state().model).len() ==> step is Try && step->Try_0@
            == mirrors(old(attempts).state().model)[old(attempts).state().tried + 1],
        old(attempts).state().tried + 1 == mirrors(old(attempts).state().model).len() ==> step is GiveUp,
        step is GiveUp && outcome is Err ==> outcome->Err_0@.is_suffix_of(step->GiveUp_0@),
{
    if outcome is Err {
        law_failed_downloads_say_why(old(attempts).state().model, outcome->Err_0@);
    }
}

/// A percentage is shown when it is a new one, and only then.
pub proof fn law_percentages_are_shown_once(
    meter: &mut ProgressMeter,
    downloaded: u64,
    total: u64,
    percent: Option<u64>,
)
    requires
        total > 0,
        call_ensures(ProgressMeter::advance, (meter, downloaded, Some(total)), percent),
    ensures
        percent is Some ==> percent->0 == percent_done(downloaded, total) && percent != old(meter).shown(),
        percent is None ==> old(meter).shown() == Some(percent_done(downloaded, total) as u64),
        final(meter).shown() == Some(percent_done(downloaded, total) as u64),
{
    law_progress_stays_below_a_hundred(downloaded, downloaded, total);
}

/// The streaming model is whole when its tokens, its encoder and its decoder are there; it is no single
/// file, and no other model is several.
pub proof fn law_the_streaming_model_has_three_parts(files: ModelFiles, model: SupportModel, file: Option<FileInfo>)
    ensures
        is_whole(SupportModel::Paraformer, FoundModel::Files(files)) <==> files.tokens.info is Some
            && crate::speech_model::is_model_file(files.encoder_int8.info) && crate::speech_model::is_model_file(
            files.decoder_int8.info,
        ),
        !is_whole(SupportModel::Paraformer, FoundModel::File(file)),
        model != SupportModel::Paraformer ==> !is_whole(model, FoundModel::Files(files)),
        model != SupportModel::Paraformer && is_whole(model, FoundModel::File(file)) ==> file is Some && file->0.is_file
            && file->0.len > 512 * 1_024,
        first_attempt(model).tried == 0 && first_attempt(model).last_error.len() == 0 && first_attempt(model).model
            == model,
{
}

/// A line tells how far a clone has come exactly when it speaks of the objects that are received and
/// holds a percentage.
pub proof fn law_progress_lines(before: Seq<char>, between: Seq<char>, after: Seq<char>, line: Seq<char>)
    ensures
        is_progress_line(before + "Receiving objects:"@ + (between + "%"@ + after)),
        is_progress_line(line) ==> line.contains('%') && line.len() >= 18,
{
    reveal_strlit("Receiving objects:");
    reveal_strlit("%");
    let rest = between + "%"@ + after;
    let whole = before + "Receiving objects:"@ + rest;
    crate::text::law_what_occurs_stands_between("Receiving objects:"@, before, rest, line);
    crate::text::law_what_occurs_stands_between("%"@, before + "Receiving objects:"@ + between, after, line);
    assert(before + "Receiving objects:"@ + between + "%"@ + after =~= whole);
    if is_progress_line(line) {
        let i = choose|i: int| crate::text::occurs_at("%"@, line, i);
        assert(line.subrange(i, i + 1)[0] == line[i]);
        assert(line[i] == '%');
    }
}

} // verus!
