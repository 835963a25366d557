//! Setting up a local speech model: the checks on its files, and what its engines are created with.

use vstd::prelude::*;

use crate::speech_model::{
    asked_language, first_existing_model, first_ready, is_file_above, is_model_file, kind_id, kind_with_id,
    law_identifiers_round_trip, local_model_spec, model_file_is_ready, model_files_exist,
    normalize_sense_voice_language, punctuation_model_file_is_ready, sense_voice_language, str_view,
    vad_model_file_is_ready, weights_ready, LocalModelSpec, LocalSpeechModelKind, LocatedFile, ModelFiles,
    SENSE_VOICE_MODEL_ID, TARGET_SAMPLE_RATE,
};
use crate::text::{same_text, trim};

verus! {

/// The weights that a recogniser loads.
pub enum RecognizerModel {
    Paraformer { encoder: String, decoder: String },
    SenseVoice { model: String },
    Zipformer { model: String },
}

/// What a recogniser is created with.
pub struct RecognizerPlan {
    pub kind: LocalSpeechModelKind,
    pub recognition_language: String,
    pub tokens: String,
    pub model: RecognizerModel,
    pub num_threads: i32,
    /// The search that decodes; the engine's own default where there is none.
    pub decoding_method: Option<&'static str>,
    pub provider: &'static str,
}

/// The language that a recogniser of `kind` is created for.
pub open spec fn engine_language(kind: LocalSpeechModelKind, asked: Option<Seq<char>>) -> Option<Seq<char>> {
    match kind {
        LocalSpeechModelKind::SenseVoice => sense_voice_language(asked),
        LocalSpeechModelKind::ParaformerStreaming => Some("zh-en"@),
        LocalSpeechModelKind::ZipformerZh => Some("zh"@),
    }
}

/// How many threads a recogniser of `kind` gets on a machine that can run `available` at once.
pub open spec fn engine_threads(kind: LocalSpeechModelKind, available: Option<usize>) -> int {
    match (kind, available) {
        (LocalSpeechModelKind::SenseVoice, Some(count)) => if count < 2 {
            2
        } else if count > 4 {
            4
        } else {
            count as int
        },
        _ => 2,
    }
}

/// What is said when the weights of `kind` are missing.
pub open spec fn weights_missing(files: &ModelFiles, kind: LocalSpeechModelKind) -> Seq<char> {
    match kind {
        LocalSpeechModelKind::SenseVoice => "SenseVoice model file not found at: "@ + files.model_int8.path@,
        LocalSpeechModelKind::ParaformerStreaming => "Paraformer streaming model files not found in: "@
            + files.directory@,
        LocalSpeechModelKind::ZipformerZh => "Zipformer Chinese model file not found in: "@
            + files.directory@,
    }
}

impl RecognizerPlan {
    /// This loads the model `kind` from `files`.
    pub open spec fn loads(
        &self,
        kind: LocalSpeechModelKind,
        files: &ModelFiles,
        asked: Option<Seq<char>>,
        available: Option<usize>,
    ) -> bool {
        &&& self.kind == kind
        &&& engine_language(kind, asked) == Some(self.recognition_language@)
        &&& self.tokens@ == files.tokens.path@
        &&& self.num_threads == engine_threads(kind, available)
        &&& self.provider@ == "cpu"@
        &&& str_view(self.decoding_method) == (if kind == LocalSpeechModelKind::SenseVoice {
            None
        } else {
            Some("greedy_search"@)
        })
        &&& match self.model {
            RecognizerModel::Paraformer { encoder, decoder } => kind == LocalSpeechModelKind::ParaformerStreaming
                && encoder@ == files.encoder_int8.path@ && decoder@ == files.decoder_int8.path@,
            RecognizerModel::SenseVoice { model } => kind == LocalSpeechModelKind::SenseVoice && model@
                == files.model_int8.path@,
            RecognizerModel::Zipformer { model } => kind == LocalSpeechModelKind::ZipformerZh && model@ == (
            if is_model_file(files.model_int8.info) {
                files.model_int8.path@
            } else {
                files.model.path@
            }),
        }
    }
}

/// Checks the files of the model `model_id` and says what its recogniser is created with.
pub fn plan_recognizer(
    files: &ModelFiles,
    model_id: &str,
    language: Option<&str>,
    available_threads: Option<usize>,
) -> (plan: Result<RecognizerPlan, String>)
    ensures
        match kind_with_id(model_id@) {
            None => plan is Err && plan->Err_0@ == "Unsupported local speech model: "@ + trim(model_id@),
            Some(kind) => if engine_language(kind, str_view(language)) is None {
                plan is Err && plan->Err_0@ == "Unsupported SenseVoice language: "@ + asked_language(
                    str_view(language),
                )
            } else if files.tokens.info is None {
                plan is Err && plan->Err_0@ == "Sherpa-ONNX tokens file not found at: "@
                    + files.tokens.path@
            } else if !weights_ready(files, kind) {
                plan is Err && plan->Err_0@ == weights_missing(files, kind)
            } else {
                plan is Ok && plan->Ok_0.loads(kind, files, str_view(language), available_threads)
            },
        },
{
    let kind = match LocalSpeechModelKind::from_id(model_id) {
        Ok(kind) => kind,
        Err(message) => {
            return Err(message);
        },
    };
    let recognition_language = match kind {
        LocalSpeechModelKind::SenseVoice => match normalize_sense_voice_language(language) {
            Ok(code) => code,
            Err(message) => {
                return Err(message);
            },
        },
        LocalSpeechModelKind::ParaformerStreaming => "zh-en".to_string(),
        LocalSpeechModelKind::ZipformerZh => "zh".to_string(),
    };
    if files.tokens.info.is_none() {
        return Err("Sherpa-ONNX tokens file not found at: ".to_string().concat(files.tokens.path.as_str()));
    }
    let model = match kind {
        LocalSpeechModelKind::ParaformerStreaming => {
            if !model_file_is_ready(files.encoder_int8.info) || !model_file_is_ready(files.decoder_int8.info) {
                return Err(
                    "Paraformer streaming model files not found in: ".to_string().concat(
                        files.directory.as_str(),
                    ),
                );
            }
            RecognizerModel::Paraformer {
                encoder: files.encoder_int8.path.clone(),
                decoder: files.decoder_int8.path.clone(),
            }
        },
        LocalSpeechModelKind::SenseVoice => {
            if !model_file_is_ready(files.model_int8.info) {
                return Err(
                    "SenseVoice model file not found at: ".to_string().concat(files.model_int8.path.as_str()),
                );
            }
            RecognizerModel::SenseVoice { model: files.model_int8.path.clone() }
        },
        LocalSpeechModelKind::ZipformerZh => {
            let candidates = vec![&files.model_int8, &files.model];
            proof {
                reveal_with_fuel(first_ready, 3);
                assert(candidates@ == seq![&files.model_int8, &files.model]);
                assert(candidates@.drop_first() == seq![&files.model]);
                assert(candidates@.drop_first().drop_first() == Seq::<&LocatedFile>::empty());
            }
            match first_existing_model(&candidates) {
                Some(path) => RecognizerModel::Zipformer { model: path },
                None => {
                    return Err(
                        "Zipformer Chinese model file not found in: ".to_string().concat(
                            files.directory.as_str(),
                        ),
                    );
                },
            }
        },
    };
    let sense_voice = match kind {
        LocalSpeechModelKind::SenseVoice => true,
        _ => false,
    };
    let num_threads: i32 = match available_threads {
        Some(count) => if !sense_voice || count < 2 {
            2
        } else if count > 4 {
            4
        } else {
            count as i32
        },
        None => 2,
    };
    let decoding_method: Option<&'static str> = if sense_voice {
        None
    } else {
        Some("greedy_search")
    };
    Ok(
        RecognizerPlan {
            kind,
            recognition_language,
            tokens: files.tokens.path.clone(),
            model,
            num_threads,
            decoding_method,
            provider: "cpu",
        },
    )
}

/// What the voice activity detector is created with. Durations are in milliseconds, the
/// probability threshold in thousandths.
pub struct VadPlan {
    pub model: String,
    pub threshold_thousandths: u32,
    pub min_silence_ms: u32,
    pub min_speech_ms: u32,
    pub max_speech_ms: u32,
    pub window_size: i32,
    pub sample_rate: i32,
    pub num_threads: i32,
    pub buffer_ms: u32,
    pub provider: &'static str,
}

/// Checks the voice activity model and says what the detector is created with. A pause of 450 ms
/// ends a segment: long enough to leave the punctuation model whole clauses.
pub fn plan_vad(file: Option<LocatedFile>) -> (plan: Result<VadPlan, String>)
    ensures
        match file {
            None => plan is Err && plan->Err_0@
                == "Silero VAD model path is required for local recognition"@,
            Some(file) => if is_file_above(file.info, 524_288) {
                &&& plan is Ok
                &&& plan->Ok_0.model@ == file.path@
                &&& plan->Ok_0.threshold_thousandths == 500
                &&& plan->Ok_0.min_silence_ms == 450
                &&& plan->Ok_0.min_speech_ms == 200
                &&& plan->Ok_0.max_speech_ms == 12_000
                &&& plan->Ok_0.window_size == 512
                &&& plan->Ok_0.sample_rate == TARGET_SAMPLE_RATE
                &&& plan->Ok_0.num_threads == 1
                &&& plan->Ok_0.buffer_ms == 30_000
                &&& plan->Ok_0.provider@ == "cpu"@
            } else {
                plan is Err && plan->Err_0@ == "Silero VAD model file not found at: "@ + file.path@
            },
        },
{
    match file {
        None => Err("Silero VAD model path is required for local recognition".to_string()),
        Some(file) => {
            if !vad_model_file_is_ready(file.info) {
                return Err("Silero VAD model file not found at: ".to_string().concat(file.path.as_str()));
            }
            Ok(
                VadPlan {
                    model: file.path,
                    threshold_thousandths: 500,
                    min_silence_ms: 450,
                    min_speech_ms: 200,
                    max_speech_ms: 12_000,
                    window_size: 512,
                    sample_rate: 16_000,
                    num_threads: 1,
                    buffer_ms: 30_000,
                    provider: "cpu",
                },
            )
        },
    }
}

/// What the punctuation model is created with.
pub struct PunctuationPlan {
    pub model: String,
    pub num_threads: i32,
}

/// The models that leave punctuation to a model of its own.
pub open spec fn needs_punctuation_model(kind: LocalSpeechModelKind) -> bool {
    kind != LocalSpeechModelKind::SenseVoice
}

/// Checks the punctuation model where `kind` needs one, and says what it is created with.
pub fn plan_punctuation(kind: LocalSpeechModelKind, file: Option<LocatedFile>) -> (plan: Result<
    Option<PunctuationPlan>,
    String,
>)
    ensures
        if !needs_punctuation_model(kind) {
            plan == Ok::<Option<PunctuationPlan>, String>(None)
        } else {
            match file {
                None => plan is Err && plan->Err_0@ == "Punctuation model path is required"@,
                Some(file) => if is_file_above(file.info, 52_428_800) {
                    plan is Ok && plan->Ok_0 is Some && plan->Ok_0->0.model@ == file.path@
                        && plan->Ok_0->0.num_threads == 1
                } else {
                    plan is Err && plan->Err_0@ == "Punctuation model file not found at: "@ + file.path@
                },
            }
        },
{
    match kind {
        LocalSpeechModelKind::SenseVoice => Ok(None),
        _ => match file {
            None => Err("Punctuation model path is required".to_string()),
            Some(file) => {
                if !punctuation_model_file_is_ready(file.info) {
                    return Err(
                        "Punctuation model file not found at: ".to_string().concat(file.path.as_str()),
                    );
                }
                Ok(Some(PunctuationPlan { model: file.path, num_threads: 1 }))
            },
        },
    }
}

/// Whether audio at `sample_rate` has to be resampled before it is recognised.
pub fn resampling_needed(sample_rate: u32) -> (needed: bool)
    ensures
        needed == (sample_rate != TARGET_SAMPLE_RATE),
{
    sample_rate != TARGET_SAMPLE_RATE
}

/// What has to be there before a model is loaded.
pub struct LoadPlan {
    pub spec: LocalModelSpec,
    /// The language that a model loaded before must have been loaded for to be kept.
    pub language: String,
    pub punctuation: bool,
}

/// The language that loading a model of `kind` asks for.
pub open spec fn load_language(kind: LocalSpeechModelKind, asked: Option<Seq<char>>) -> Option<Seq<char>> {
    if kind == LocalSpeechModelKind::SenseVoice {
        sense_voice_language(asked)
    } else {
        Some("zh"@)
    }
}

/// Checks that the model `model_id` has been downloaded, and says what loading it takes.
pub fn plan_load(model_id: &str, files: &ModelFiles, language: Option<&str>) -> (plan: Result<LoadPlan, String>)
    ensures
        match kind_with_id(model_id@) {
            None => plan is Err && plan->Err_0@ == "不支持的本地语音模型："@ + trim(model_id@),
            Some(kind) => if !(files.tokens.info is Some && weights_ready(files, kind)) {
                plan is Err && plan->Err_0@ == "本地模型尚未完整下载："@ + kind_id(kind)
                    + "。请先在 AI 处理页面下载；若已执行下载，请确认 Git LFS 可用。"@
            } else {
                match load_language(kind, str_view(language)) {
                    Some(found) => plan is Ok && plan->Ok_0.spec.describes(kind) && plan->Ok_0.language@
                        == found && plan->Ok_0.punctuation == needs_punctuation_model(kind),
                    None => plan is Err && plan->Err_0@ == "Unsupported SenseVoice language: "@
                        + asked_language(str_view(language)),
                }
            },
        },
{
    let spec = match local_model_spec(model_id) {
        Ok(spec) => spec,
        Err(message) => {
            return Err(message);
        },
    };
    proof {
        law_identifiers_round_trip(kind_with_id(model_id@)->0);
        law_identifiers_round_trip(LocalSpeechModelKind::SenseVoice);
    }
    if !model_files_exist(files, spec.id) {
        return Err(
            "本地模型尚未完整下载：".to_string().concat(spec.id).concat(
                "。请先在 AI 处理页面下载；若已执行下载，请确认 Git LFS 可用。",
            ),
        );
    }
    if same_text(spec.id, SENSE_VOICE_MODEL_ID) {
        match normalize_sense_voice_language(language) {
            Ok(code) => Ok(LoadPlan { spec, language: code, punctuation: false }),
            Err(message) => Err(message),
        }
    } else {
        Ok(LoadPlan { spec, language: "zh".to_string(), punctuation: true })
    }
}

/// Whether a model that is loaded already serves a request for `wanted_id` in `wanted_language`.
pub fn loaded_model_serves(
    loaded_id: &str,
    loaded_language: &str,
    wanted_id: &str,
    wanted_language: &str,
) -> (serves: bool)
    ensures
        serves == (loaded_id@ == wanted_id@ && loaded_language@ == wanted_language@),
{
    same_text(loaded_id, wanted_id) && same_text(loaded_language, wanted_language)
}

/// A model that was loaded for a language is asked for in the same language again, so that it is
/// kept. The streaming model is created for two languages and asked for in one, and is loaded anew.
pub proof fn law_a_loaded_model_is_kept(kind: LocalSpeechModelKind, asked: Option<Seq<char>>)
    requires
        kind != LocalSpeechModelKind::ParaformerStreaming,
    ensures
        load_language(kind, asked) == engine_language(kind, asked),
        load_language(kind, asked) matches Some(language) ==> engine_language(kind, Some(language)) == Some(language),
{
    crate::speech_model::law_language_codes_are_stable(asked);
}

/// A recogniser gets two to four threads: the SenseVoice model as many as there are within these
/// bounds, the others two.
pub proof fn law_threads_stay_within_bounds(kind: LocalSpeechModelKind, available: usize)
    ensures
        2 <= engine_threads(kind, Some(available)) <= 4,
        engine_threads(kind, None) == 2,
        kind == LocalSpeechModelKind::SenseVoice && 2 <= available <= 4 ==> engine_threads(kind, Some(available))
            == available,
        kind == LocalSpeechModelKind::SenseVoice && available > 4 ==> engine_threads(kind, Some(available)) == 4,
        kind != LocalSpeechModelKind::SenseVoice ==> engine_threads(kind, Some(available)) == 2,
{
}

/// The SenseVoice model is created for the language that is asked for; the others know their own,
/// and are never refused one. Those leave punctuation to a model of its own.
pub proof fn law_engines_know_their_languages(kind: LocalSpeechModelKind, asked: Option<Seq<char>>)
    ensures
        kind == LocalSpeechModelKind::SenseVoice ==> engine_language(kind, asked) == sense_voice_language(asked)
            && load_language(kind, asked) == sense_voice_language(asked),
        kind == LocalSpeechModelKind::ParaformerStreaming ==> engine_language(kind, asked) == Some("zh-en"@),
        kind == LocalSpeechModelKind::ZipformerZh ==> engine_language(kind, asked) == Some("zh"@),
        kind != LocalSpeechModelKind::SenseVoice ==> load_language(kind, asked) == Some("zh"@),
        needs_punctuation_model(LocalSpeechModelKind::ParaformerStreaming),
        needs_punctuation_model(LocalSpeechModelKind::ZipformerZh),
        !needs_punctuation_model(LocalSpeechModelKind::SenseVoice),
{
}

/// What a recogniser loads is there, and large enough: it is created exactly when all files of its
/// model are there and the language is one that it takes.
pub proof fn law_what_is_loaded_is_there(
    files: &ModelFiles,
    model_id: &str,
    language: Option<&str>,
    available: Option<usize>,
    complete: bool,
    plan: Result<RecognizerPlan, String>,
)
    requires
        call_ensures(model_files_exist, (files, model_id), complete),
        call_ensures(plan_recognizer, (files, model_id, language, available), plan),
    ensures
        plan is Ok ==> complete,
        complete && trim(model_id@) != "sense-voice"@ ==> plan is Ok,
        complete && sense_voice_language(str_view(language)) is Some ==> plan is Ok,
        plan is Ok ==> match plan->Ok_0.model {
            RecognizerModel::Paraformer { encoder, decoder } => encoder@ == files.encoder_int8.path@ && decoder@
                == files.decoder_int8.path@ && is_model_file(files.encoder_int8.info) && is_model_file(
                files.decoder_int8.info,
            ),
            RecognizerModel::SenseVoice { model } => model@ == files.model_int8.path@ && is_model_file(
                files.model_int8.info,
            ),
            RecognizerModel::Zipformer { model } => (model@ == files.model_int8.path@ && is_model_file(
                files.model_int8.info,
            )) || (model@ == files.model.path@ && is_model_file(files.model.info)),
        },
        plan is Ok && trim(model_id@) == "sense-voice"@ ==> plan->Ok_0.model is SenseVoice,
        plan is Ok && trim(model_id@) == "zipformer-zh"@ ==> plan->Ok_0.model is Zipformer,
        plan is Ok && trim(model_id@) == "paraformer-streaming"@ ==> plan->Ok_0.model is Paraformer,
        plan is Ok ==> plan->Ok_0.tokens@ == files.tokens.path@ && files.tokens.info is Some,
{
    crate::speech_model::law_identifiers_name_their_models(model_id@);
    reveal_strlit("sense-voice");
    reveal_strlit("paraformer-streaming");
    reveal_strlit("zipformer-zh");
    assert("sense-voice"@.len() == 11 && "paraformer-streaming"@.len() == 20 && "zipformer-zh"@.len() == 12);
}

/// A model is loaded exactly when all its files are there and the language is one that it takes, and
/// then with the punctuation model unless it is the SenseVoice model.
pub proof fn law_complete_models_are_loaded(
    model_id: &str,
    files: &ModelFiles,
    language: Option<&str>,
    complete: bool,
    plan: Result<LoadPlan, String>,
)
    requires
        call_ensures(model_files_exist, (files, model_id), complete),
        call_ensures(plan_load, (model_id, files, language), plan),
    ensures
        plan is Ok ==> complete,
        complete && trim(model_id@) != "sense-voice"@ ==> plan is Ok && plan->Ok_0.punctuation,
        complete && trim(model_id@) == "sense-voice"@ ==> (plan is Ok <==> sense_voice_language(str_view(language)) is Some)
            && (plan is Ok ==> !plan->Ok_0.punctuation && Some(plan->Ok_0.language@) == sense_voice_language(
            str_view(language),
        )),
        plan is Ok && trim(model_id@).len() > 0 ==> plan->Ok_0.spec.id@ == trim(model_id@),
{
    crate::speech_model::law_identifiers_name_their_models(model_id@);
    reveal_strlit("sense-voice");
    assert("sense-voice"@.len() == 11);
}

/// A recogniser is created for its kind, in the language that it knows or was asked for, with the threads
/// that it gets; only the SenseVoice model leaves the search to the engine.
pub proof fn law_recognisers_are_created_as_planned(
    plan: RecognizerPlan,
    kind: LocalSpeechModelKind,
    files: &ModelFiles,
    asked: Option<Seq<char>>,
    available: Option<usize>,
)
    requires
        plan.loads(kind, files, asked, available),
    ensures
        plan.kind == kind,
        plan.tokens@ == files.tokens.path@,
        2 <= plan.num_threads <= 4,
        plan.decoding_method is None <==> kind == LocalSpeechModelKind::SenseVoice,
        plan.decoding_method is Some ==> plan.decoding_method->0@ == "greedy_search"@,
        plan.provider@ == "cpu"@,
        kind == LocalSpeechModelKind::ParaformerStreaming ==> plan.recognition_language@ == "zh-en"@,
        kind == LocalSpeechModelKind::ZipformerZh ==> plan.recognition_language@ == "zh"@,
        kind == LocalSpeechModelKind::SenseVoice ==> sense_voice_language(asked) == Some(plan.recognition_language@),
        is_model_file(files.model_int8.info) && kind == LocalSpeechModelKind::ZipformerZh ==> plan.model is Zipformer
            && plan.model->Zipformer_model@ == files.model_int8.path@,
{
}

} // verus!
