//! The local speech models: which there are, which files they need, and how they are set up.

use vstd::prelude::*;

use crate::text::{
    ascii_lowercase, ascii_lowercased, lemma_trim_fixed, same_text, trim, trimmed,
};

verus! {

pub const SENSE_VOICE_MODEL_ID: &'static str = "sense-voice";

pub const PARAFORMER_STREAMING_MODEL_ID: &'static str = "paraformer-streaming";

pub const ZIPFORMER_ZH_MODEL_ID: &'static str = "zipformer-zh";

pub const DEFAULT_LOCAL_SPEECH_MODEL_ID: &'static str = PARAFORMER_STREAMING_MODEL_ID;

pub const DEFAULT_SENSE_VOICE_LANGUAGE: &'static str = "auto";

pub const SENSE_VOICE_MODEL_DIR: &'static str = "sherpa-onnx-sense-voice-zh-en-ja-ko-yue-2024-07-17-int8";

pub const SENSE_VOICE_MODEL_REPO: &'static str =
    "https://huggingface.co/csukuangfj/sherpa-onnx-sense-voice-zh-en-ja-ko-yue-2024-07-17";

pub const PARAFORMER_STREAMING_MODEL_DIR: &'static str = "sherpa-onnx-streaming-paraformer-bilingual-zh-en";

pub const ZIPFORMER_ZH_MODEL_DIR: &'static str = "sherpa-onnx-zipformer-ctc-zh-int8-2025-07-03";

pub const ZIPFORMER_ZH_MODEL_REPO: &'static str =
    "https://huggingface.co/csukuangfj/sherpa-onnx-zipformer-ctc-zh-int8-2025-07-03";

pub const SILERO_VAD_MODEL_DIR: &'static str = "silero-vad";

pub const SILERO_VAD_MODEL_FILE: &'static str = "silero_vad.onnx";

pub const PUNCTUATION_MODEL_DIR: &'static str =
    "sherpa-onnx-punct-ct-transformer-zh-en-vocab272727-2024-04-12-int8";

pub const PUNCTUATION_MODEL_FILE: &'static str = "model.int8.onnx";

/// The sample rate that the recognisers work at, in samples per second.
pub const TARGET_SAMPLE_RATE: u32 = 16_000;

/// The local speech models.
#[derive(Clone, Copy, Debug, PartialEq, Eq, Structural)]
pub enum LocalSpeechModelKind {
    SenseVoice,
    ParaformerStreaming,
    ZipformerZh,
}

/// The identifier of a model.
pub open spec fn kind_id(kind: LocalSpeechModelKind) -> Seq<char> {
    match kind {
        LocalSpeechModelKind::SenseVoice => SENSE_VOICE_MODEL_ID@,
        LocalSpeechModelKind::ParaformerStreaming => PARAFORMER_STREAMING_MODEL_ID@,
        LocalSpeechModelKind::ZipformerZh => ZIPFORMER_ZH_MODEL_ID@,
    }
}

/// The model that an identifier stands for; white space around it does not count, and the empty
/// identifier stands for the default model.
pub open spec fn kind_with_id(id: Seq<char>) -> Option<LocalSpeechModelKind> {
    let id = trim(id);
    if id.len() == 0 || id == PARAFORMER_STREAMING_MODEL_ID@ {
        Some(LocalSpeechModelKind::ParaformerStreaming)
    } else if id == SENSE_VOICE_MODEL_ID@ {
        Some(LocalSpeechModelKind::SenseVoice)
    } else if id == ZIPFORMER_ZH_MODEL_ID@ {
        Some(LocalSpeechModelKind::ZipformerZh)
    } else {
        None
    }
}

impl LocalSpeechModelKind {
    /// The model with the identifier `model_id`.
    pub fn from_id(model_id: &str) -> (kind: Result<Self, String>)
        ensures
            match kind_with_id(model_id@) {
                Some(found) => kind == Ok::<Self, String>(found),
                None => kind is Err && kind->Err_0@ == "Unsupported local speech model: "@ + trim(model_id@),
            },
    {
        let id = trimmed(model_id);
        if id.as_str().is_empty() || same_text(id.as_str(), PARAFORMER_STREAMING_MODEL_ID) {
            Ok(LocalSpeechModelKind::ParaformerStreaming)
        } else if same_text(id.as_str(), SENSE_VOICE_MODEL_ID) {
            Ok(LocalSpeechModelKind::SenseVoice)
        } else if same_text(id.as_str(), ZIPFORMER_ZH_MODEL_ID) {
            Ok(LocalSpeechModelKind::ZipformerZh)
        } else {
            Err("Unsupported local speech model: ".to_string().concat(id.as_str()))
        }
    }

    /// The identifier of this model.
    pub fn id(self) -> (id: &'static str)
        ensures
            id@ == kind_id(self),
    {
        match self {
            LocalSpeechModelKind::SenseVoice => SENSE_VOICE_MODEL_ID,
            LocalSpeechModelKind::ParaformerStreaming => PARAFORMER_STREAMING_MODEL_ID,
            LocalSpeechModelKind::ZipformerZh => ZIPFORMER_ZH_MODEL_ID,
        }
    }
}

/// A model's own identifier stands for that model, and the default identifier for the default
/// model.
pub proof fn law_identifiers_round_trip(kind: LocalSpeechModelKind)
    ensures
        kind_with_id(kind_id(kind)) == Some(kind),
        kind_with_id(Seq::empty()) == Some(LocalSpeechModelKind::ParaformerStreaming),
        kind_with_id(DEFAULT_LOCAL_SPEECH_MODEL_ID@) == kind_with_id(Seq::empty()),
{
    reveal_strlit("sense-voice");
    reveal_strlit("paraformer-streaming");
    reveal_strlit("zipformer-zh");
    assert(SENSE_VOICE_MODEL_ID@.len() == 11);
    assert(PARAFORMER_STREAMING_MODEL_ID@.len() == 20);
    assert(ZIPFORMER_ZH_MODEL_ID@.len() == 12);
    lemma_trim_fixed(kind_id(kind));
    lemma_trim_fixed(Seq::empty());
    lemma_trim_fixed(DEFAULT_LOCAL_SPEECH_MODEL_ID@);
}

/// Where a model's files are kept and where they come from.
pub struct LocalModelSpec {
    pub id: &'static str,
    pub directory: &'static str,
    pub repository: Option<&'static str>,
}

/// The directory of a model, below the directory of all models.
pub open spec fn kind_directory(kind: LocalSpeechModelKind) -> Seq<char> {
    match kind {
        LocalSpeechModelKind::SenseVoice => SENSE_VOICE_MODEL_DIR@,
        LocalSpeechModelKind::ParaformerStreaming => PARAFORMER_STREAMING_MODEL_DIR@,
        LocalSpeechModelKind::ZipformerZh => ZIPFORMER_ZH_MODEL_DIR@,
    }
}

/// The repository that a model is cloned from; the streaming model comes as an archive instead.
pub open spec fn kind_repository(kind: LocalSpeechModelKind) -> Option<Seq<char>> {
    match kind {
        LocalSpeechModelKind::SenseVoice => Some(SENSE_VOICE_MODEL_REPO@),
        LocalSpeechModelKind::ParaformerStreaming => None,
        LocalSpeechModelKind::ZipformerZh => Some(ZIPFORMER_ZH_MODEL_REPO@),
    }
}

impl LocalModelSpec {
    /// This describes `kind`.
    pub open spec fn describes(&self, kind: LocalSpeechModelKind) -> bool {
        &&& self.id@ == kind_id(kind)
        &&& self.directory@ == kind_directory(kind)
        &&& match self.repository {
            Some(repository) => kind_repository(kind) == Some(repository@),
            None => kind_repository(kind) is None,
        }
    }
}

/// The description of the model with the identifier `model_id`.
pub fn local_model_spec(model_id: &str) -> (spec: Result<LocalModelSpec, String>)
    ensures
        match kind_with_id(model_id@) {
            Some(kind) => spec is Ok && spec->Ok_0.describes(kind),
            None => spec is Err && spec->Err_0@ == "不支持的本地语音模型："@ + trim(model_id@),
        },
{
    let id = trimmed(model_id);
    if id.as_str().is_empty() || same_text(id.as_str(), PARAFORMER_STREAMING_MODEL_ID) {
        Ok(
            LocalModelSpec {
                id: PARAFORMER_STREAMING_MODEL_ID,
                directory: PARAFORMER_STREAMING_MODEL_DIR,
                repository: None,
            },
        )
    } else if same_text(id.as_str(), SENSE_VOICE_MODEL_ID) {
        Ok(
            LocalModelSpec {
                id: SENSE_VOICE_MODEL_ID,
                directory: SENSE_VOICE_MODEL_DIR,
                repository: Some(SENSE_VOICE_MODEL_REPO),
            },
        )
    } else if same_text(id.as_str(), ZIPFORMER_ZH_MODEL_ID) {
        Ok(
            LocalModelSpec {
                id: ZIPFORMER_ZH_MODEL_ID,
                directory: ZIPFORMER_ZH_MODEL_DIR,
                repository: Some(ZIPFORMER_ZH_MODEL_REPO),
            },
        )
    } else {
        Err("不支持的本地语音模型：".to_string().concat(id.as_str()))
    }
}

/// The view of an optional text.
pub open spec fn str_view(text: Option<&str>) -> Option<Seq<char>> {
    match text {
        Some(text) => Some(text@),
        None => None,
    }
}

/// The language that is asked for: trimmed, in lower case, the default where none is given.
pub open spec fn asked_language(language: Option<Seq<char>>) -> Seq<char> {
    ascii_lowercase(
        trim(
            match language {
                Some(language) => language,
                None => DEFAULT_SENSE_VOICE_LANGUAGE@,
            },
        ),
    )
}

/// The language code that the SenseVoice model takes for `language`.
pub open spec fn sense_voice_language(language: Option<Seq<char>>) -> Option<Seq<char>> {
    let asked = asked_language(language);
    if asked.len() == 0 || asked == "auto"@ {
        Some(DEFAULT_SENSE_VOICE_LANGUAGE@)
    } else if asked == "zh"@ || asked == "zh-cn"@ {
        Some("zh"@)
    } else if asked == "yue"@ || asked == "en"@ || asked == "ja"@ || asked == "ko"@ {
        Some(asked)
    } else {
        None
    }
}

/// The language code that the SenseVoice model takes for `language`.
pub fn normalize_sense_voice_language(language: Option<&str>) -> (code: Result<String, String>)
    ensures
        match sense_voice_language(str_view(language)) {
            Some(found) => code is Ok && code->Ok_0@ == found,
            None => code is Err && code->Err_0@ == "Unsupported SenseVoice language: "@ + asked_language(
                str_view(language),
            ),
        },
{
    let given = match language {
        Some(language) => language,
        None => DEFAULT_SENSE_VOICE_LANGUAGE,
    };
    let asked = ascii_lowercased(trimmed(given).as_str());
    if asked.as_str().is_empty() || same_text(asked.as_str(), "auto") {
        Ok(DEFAULT_SENSE_VOICE_LANGUAGE.to_string())
    } else if same_text(asked.as_str(), "zh") || same_text(asked.as_str(), "zh-cn") {
        Ok("zh".to_string())
    } else if same_text(asked.as_str(), "yue") || same_text(asked.as_str(), "en") || same_text(
        asked.as_str(),
        "ja",
    ) || same_text(asked.as_str(), "ko") {
        Ok(asked)
    } else {
        Err("Unsupported SenseVoice language: ".to_string().concat(asked.as_str()))
    }
}

/// The language codes that the SenseVoice model takes stand for themselves.
pub proof fn law_language_codes_are_stable(language: Option<Seq<char>>)
    ensures
        sense_voice_language(language) matches Some(code) ==> sense_voice_language(Some(code)) == Some(code),
{
    reveal_strlit("auto");
    reveal_strlit("zh");
    reveal_strlit("yue");
    reveal_strlit("en");
    reveal_strlit("ja");
    reveal_strlit("ko");
    match sense_voice_language(language) {
        Some(code) => {
            lemma_trim_fixed(code);
            assert(ascii_lowercase(code) =~= code);
        },
        None => {},
    }
}

/// What the file system says of a path that exists.
#[derive(Clone, Copy, Debug, PartialEq, Eq, Structural)]
pub struct FileInfo {
    pub is_file: bool,
    pub len: u64,
}

/// A path, and what the file system says of it; `None` where it says nothing.
pub struct LocatedFile {
    pub path: String,
    pub info: Option<FileInfo>,
}

/// A file with more than `limit` bytes.
pub open spec fn is_file_above(info: Option<FileInfo>, limit: int) -> bool {
    info is Some && info->0.is_file && info->0.len > limit
}

/// More than one mebibyte.
pub open spec fn is_model_file(info: Option<FileInfo>) -> bool {
    is_file_above(info, 1_048_576)
}

/// Whether a file is large enough to be a speech model.
pub fn model_file_is_ready(info: Option<FileInfo>) -> (ready: bool)
    ensures
        ready == is_model_file(info),
{
    match info {
        Some(info) => info.is_file && info.len > 1024 * 1024,
        None => false,
    }
}

/// Whether a file is large enough to be the voice activity model: more than half a mebibyte.
pub fn vad_model_file_is_ready(info: Option<FileInfo>) -> (ready: bool)
    ensures
        ready == is_file_above(info, 524_288),
{
    match info {
        Some(info) => info.is_file && info.len > 512 * 1024,
        None => false,
    }
}

/// Whether a file is large enough to be the punctuation model: more than fifty mebibytes.
pub fn punctuation_model_file_is_ready(info: Option<FileInfo>) -> (ready: bool)
    ensures
        ready == is_file_above(info, 52_428_800),
{
    match info {
        Some(info) => info.is_file && info.len > 50 * 1024 * 1024,
        None => false,
    }
}

/// The files that the models are made of, in one model's directory.
pub struct ModelFiles {
    pub directory: String,
    pub tokens: LocatedFile,
    pub model_int8: LocatedFile,
    pub model: LocatedFile,
    pub encoder_int8: LocatedFile,
    pub decoder_int8: LocatedFile,
}

/// The first of `candidates` that is ready.
pub open spec fn first_ready(candidates: Seq<&LocatedFile>) -> Option<Seq<char>>
    decreases candidates.len(),
{
    if candidates.len() == 0 {
        None
    } else if is_model_file(candidates[0].info) {
        Some(candidates[0].path@)
    } else {
        first_ready(candidates.drop_first())
    }
}

/// The path of the first of `candidates` that is ready.
pub fn first_existing_model(candidates: &Vec<&LocatedFile>) -> (path: Option<String>)
    ensures
        crate::transcript::option_view(path) == first_ready(candidates@),
{
    let mut i: usize = 0;
    proof {
        assert(candidates@.skip(0) == candidates@);
    }
    while i < candidates.len()
        invariant
            i <= candidates@.len(),
            first_ready(candidates@) == first_ready(candidates@.skip(i as int)),
        decreases candidates@.len() - i,
    {
        assert(candidates@.skip(i as int).drop_first() == candidates@.skip(i + 1));
        if model_file_is_ready(candidates[i].info) {
            return Some(candidates[i].path.clone());
        }
        i += 1;
    }
    None
}

/// Where the model that `kind` loads is, below the files that all models need.
pub open spec fn weights_ready(files: &ModelFiles, kind: LocalSpeechModelKind) -> bool {
    match kind {
        LocalSpeechModelKind::SenseVoice => is_model_file(files.model_int8.info),
        LocalSpeechModelKind::ParaformerStreaming => is_model_file(files.encoder_int8.info)
            && is_model_file(files.decoder_int8.info),
        LocalSpeechModelKind::ZipformerZh => is_model_file(files.model_int8.info) || is_model_file(
            files.model.info,
        ),
    }
}

/// Whether all files of the model `model_id` are there.
pub fn model_files_exist(files: &ModelFiles, model_id: &str) -> (complete: bool)
    ensures
        complete == match kind_with_id(model_id@) {
            Some(kind) => files.tokens.info is Some && weights_ready(files, kind),
            None => false,
        },
{
    match LocalSpeechModelKind::from_id(model_id) {
        Ok(kind) => {
            if files.tokens.info.is_none() {
                return false;
            }
            match kind {
                LocalSpeechModelKind::SenseVoice => model_file_is_ready(files.model_int8.info),
                LocalSpeechModelKind::ParaformerStreaming => {
                    model_file_is_ready(files.encoder_int8.info) && model_file_is_ready(
                        files.decoder_int8.info,
                    )
                },
                LocalSpeechModelKind::ZipformerZh => {
                    let candidates = vec![&files.model_int8, &files.model];
                    proof {
                        reveal_with_fuel(first_ready, 3);
                        assert(candidates@ == seq![&files.model_int8, &files.model]);
                        assert(candidates@.drop_first() == seq![&files.model]);
                        assert(candidates@.drop_first().drop_first() == Seq::<&LocatedFile>::empty());
                    }
                    first_existing_model(&candidates).is_some()
                },
            }
        },
        Err(_) => false,
    }
}

/// Each identifier names one model, and a blank one the streaming model; what is none of them names
/// no model.
pub proof fn law_identifiers_name_their_models(id: Seq<char>)
    ensures
        trim(id) == "sense-voice"@ ==> kind_with_id(id) == Some(LocalSpeechModelKind::SenseVoice),
        trim(id) == "paraformer-streaming"@ ==> kind_with_id(id) == Some(LocalSpeechModelKind::ParaformerStreaming),
        trim(id) == "zipformer-zh"@ ==> kind_with_id(id) == Some(LocalSpeechModelKind::ZipformerZh),
        trim(id).len() == 0 ==> kind_with_id(id) == Some(LocalSpeechModelKind::ParaformerStreaming),
        kind_with_id(id) is Some && trim(id).len() > 0 ==> trim(id) == kind_id(kind_with_id(id)->0),
        trim(id) != "sense-voice"@ && trim(id) != "paraformer-streaming"@ && trim(id) != "zipformer-zh"@ && trim(
            id,
        ).len() > 0 ==> kind_with_id(id) is None,
{
    reveal_strlit("sense-voice");
    reveal_strlit("paraformer-streaming");
    reveal_strlit("zipformer-zh");
    assert(SENSE_VOICE_MODEL_ID@.len() == 11);
    assert(PARAFORMER_STREAMING_MODEL_ID@.len() == 20);
    assert(ZIPFORMER_ZH_MODEL_ID@.len() == 12);
}

/// Different models have different identifiers and are kept in different directories, and those that
/// are cloned come from different repositories.
pub proof fn law_models_are_kept_apart(kind: LocalSpeechModelKind, other: LocalSpeechModelKind)
    requires
        kind != other,
    ensures
        kind_id(kind) != kind_id(other),
        kind_directory(kind) != kind_directory(other),
        kind_repository(kind) is Some ==> kind_repository(kind) != kind_repository(other),
        kind_repository(LocalSpeechModelKind::SenseVoice) is Some,
        kind_repository(LocalSpeechModelKind::ZipformerZh) is Some,
        kind_repository(LocalSpeechModelKind::ParaformerStreaming) is None,
{
    law_identifiers_round_trip(kind);
    law_identifiers_round_trip(other);
    reveal_strlit("sherpa-onnx-sense-voice-zh-en-ja-ko-yue-2024-07-17-int8");
    reveal_strlit("sherpa-onnx-streaming-paraformer-bilingual-zh-en");
    reveal_strlit("sherpa-onnx-zipformer-ctc-zh-int8-2025-07-03");
    reveal_strlit("https://huggingface.co/csukuangfj/sherpa-onnx-sense-voice-zh-en-ja-ko-yue-2024-07-17");
    reveal_strlit("https://huggingface.co/csukuangfj/sherpa-onnx-zipformer-ctc-zh-int8-2025-07-03");
    assert(SENSE_VOICE_MODEL_DIR@.len() > PARAFORMER_STREAMING_MODEL_DIR@.len());
    assert(PARAFORMER_STREAMING_MODEL_DIR@.len() > ZIPFORMER_ZH_MODEL_DIR@.len());
    assert(SENSE_VOICE_MODEL_REPO@.len() > ZIPFORMER_ZH_MODEL_REPO@.len());
}

/// A language that the SenseVoice model takes is asked of it under its own code; detection is asked
/// for where none is given, and any other language is refused.
pub proof fn law_languages_are_asked_for_by_their_codes(language: Seq<char>)
    ensures
        ({
            let asked = ascii_lowercase(trim(language));
            let taken = asked == "zh"@ || asked == "yue"@ || asked == "en"@ || asked == "ja"@ || asked == "ko"@
                || asked == "auto"@;
            &&& taken ==> sense_voice_language(Some(language)) == Some(asked)
            &&& asked == "zh-cn"@ ==> sense_voice_language(Some(language)) == Some("zh"@)
            &&& asked.len() == 0 ==> sense_voice_language(Some(language)) == Some("auto"@)
            &&& !taken && asked != "zh-cn"@ && asked.len() > 0 ==> sense_voice_language(Some(language)) is None
        }),
        sense_voice_language(None) == Some("auto"@),
{
    reveal_strlit("auto");
    reveal_strlit("zh");
    reveal_strlit("zh-cn");
    reveal_strlit("yue");
    reveal_strlit("en");
    reveal_strlit("ja");
    reveal_strlit("ko");
    assert("auto"@.len() == 4 && "zh-cn"@.len() == 5 && "yue"@.len() == 3);
    assert("zh"@[0] == 'z' && "en"@[0] == 'e' && "ja"@[0] == 'j' && "ko"@[0] == 'k');
    lemma_trim_fixed("auto"@);
    assert(ascii_lowercase("auto"@) =~= "auto"@);
}

/// Of the candidates the first that is large enough is taken, and none only where none is.
pub proof fn law_the_first_ready_file_is_taken(candidates: Seq<&LocatedFile>)
    ensures
        first_ready(candidates) is None <==> forall|i: int|
            0 <= i < candidates.len() ==> !is_model_file((#[trigger] candidates[i]).info),
        first_ready(candidates) is Some ==> exists|i: int|
            {
                &&& 0 <= i < candidates.len()
                &&& is_model_file((#[trigger] candidates[i]).info)
                &&& first_ready(candidates) == Some(candidates[i].path@)
                &&& forall|j: int| 0 <= j < i ==> !is_model_file((#[trigger] candidates[j]).info)
            },
    decreases candidates.len(),
{
    if candidates.len() > 0 {
        let rest = candidates.drop_first();
        law_the_first_ready_file_is_taken(rest);
        if is_model_file(candidates[0].info) {
            assert(first_ready(candidates) == Some(candidates[0].path@));
        } else {
            assert forall|i: int| 0 <= i < rest.len() implies #[trigger] rest[i] == candidates[i + 1] by {}
            if first_ready(rest) is Some {
                let i = choose|i: int|
                    {
                        &&& 0 <= i < rest.len()
                        &&& is_model_file((#[trigger] rest[i]).info)
                        &&& first_ready(rest) == Some(rest[i].path@)
                        &&& forall|j: int| 0 <= j < i ==> !is_model_file((#[trigger] rest[j]).info)
                    };
                assert(candidates[i + 1] == rest[i]);
                assert forall|j: int| 0 <= j < i + 1 implies !is_model_file((#[trigger] candidates[j]).info) by {
                    if j > 0 {
                        assert(candidates[j] == rest[j - 1]);
                    }
                }
            } else {
                assert forall|i: int| 0 <= i < candidates.len() implies !is_model_file(
                    (#[trigger] candidates[i]).info,
                ) by {
                    if i > 0 {
                        assert(candidates[i] == rest[i - 1]);
                    }
                }
            }
        }
    }
}

/// What is there of a file tells whether it is a model: a file of more than a mebibyte, and nothing
/// less.
pub proof fn law_models_are_large_files(file: FileInfo)
    ensures
        is_model_file(Some(file)) <==> file.is_file && file.len > 1024 * 1024,
        !is_model_file(None),
        is_file_above(Some(file), 52_428_800) ==> is_model_file(Some(file)),
        is_model_file(Some(file)) ==> is_file_above(Some(file), 524_288),
{
}

/// All files of a model have to be there: its tokens, and the weights of the parts that it has.
pub proof fn law_models_need_all_their_files(files: &ModelFiles, model_id: &str, complete: bool)
    requires
        call_ensures(model_files_exist, (files, model_id), complete),
    ensures
        files.tokens.info is None ==> !complete,
        trim(model_id@) == "sense-voice"@ ==> (complete <==> files.tokens.info is Some && is_model_file(
            files.model_int8.info,
        )),
        trim(model_id@) == "paraformer-streaming"@ ==> (complete <==> files.tokens.info is Some && is_model_file(
            files.encoder_int8.info,
        ) && is_model_file(files.decoder_int8.info)),
        trim(model_id@) == "zipformer-zh"@ ==> (complete <==> files.tokens.info is Some && (is_model_file(
            files.model_int8.info,
        ) || is_model_file(files.model.info))),
        kind_with_id(model_id@) is None ==> !complete,
{
    law_identifiers_name_their_models(model_id@);
}

/// The description of a model names that model, its own directory, and the repository that it is cloned
/// from where it is.
pub proof fn law_descriptions_fit_their_models(spec: LocalModelSpec, kind: LocalSpeechModelKind)
    requires
        spec.describes(kind),
    ensures
        kind_with_id(spec.id@) == Some(kind),
        spec.directory@ == kind_directory(kind),
        spec.repository is None <==> kind == LocalSpeechModelKind::ParaformerStreaming,
        spec.repository is Some ==> kind_repository(kind) == Some(spec.repository->0@),
{
    law_identifiers_round_trip(kind);
}

} // verus!
