use tauri_llm::inference::{
    flush_local_model, process_audio_chunk, stream_result, work_result, SherpaOfflineModel, StreamWork, VadReading, Work,
};
use tauri_llm::model_setup::{
    loaded_model_serves, plan_load, plan_punctuation, plan_recognizer, plan_vad, resampling_needed, RecognizerModel,
};
use tauri_llm::speech_model::{
    first_existing_model, local_model_spec, model_file_is_ready, model_files_exist, punctuation_model_file_is_ready,
    vad_model_file_is_ready, FileInfo, LocalSpeechModelKind, LocatedFile, ModelFiles,
};
use tauri_llm::transcript::{decode_final_segments, finalize_text, recognized_text, LocalTranscriptResult};

const MIB: u64 = 1024 * 1024;

fn file(path: &str, len: Option<u64>) -> LocatedFile {
    LocatedFile { path: path.to_string(), info: len.map(|len| FileInfo { is_file: true, len }) }
}

fn files(tokens: Option<u64>, int8: Option<u64>, plain: Option<u64>, encoder: Option<u64>, decoder: Option<u64>) -> ModelFiles {
    ModelFiles {
        directory: "d".to_string(),
        tokens: file("d/tokens.txt", tokens),
        model_int8: file("d/model.int8.onnx", int8),
        model: file("d/model.onnx", plain),
        encoder_int8: file("d/encoder.int8.onnx", encoder),
        decoder_int8: file("d/decoder.int8.onnx", decoder),
    }
}

fn message_of<T>(result: Result<T, String>) -> String {
    match result {
        Ok(_) => panic!("an error was expected"),
        Err(message) => message,
    }
}

fn model(id: &str) -> SherpaOfflineModel<i32> {
    let big = Some(2 * MIB);
    match plan_recognizer(&files(Some(1), big, big, big, big), id, None, None) {
        Ok(plan) => SherpaOfflineModel::new(&plan),
        Err(message) => panic!("{}", message),
    }
}

fn reading(detected: bool, segments: Vec<Vec<i32>>) -> Option<VadReading<i32>> {
    Some(VadReading { detected, segments })
}

#[test]
fn files_are_ready_above_their_limits() {
    let at = |len: u64| Some(FileInfo { is_file: true, len });
    assert!(!model_file_is_ready(at(MIB)) && model_file_is_ready(at(MIB + 1)));
    assert!(!vad_model_file_is_ready(at(MIB / 2)) && vad_model_file_is_ready(at(MIB / 2 + 1)));
    assert!(!punctuation_model_file_is_ready(at(50 * MIB)) && punctuation_model_file_is_ready(at(50 * MIB + 1)));
    assert!(!model_file_is_ready(Some(FileInfo { is_file: false, len: 9 * MIB })));
    assert!(!vad_model_file_is_ready(None));
    let small = file("a", Some(1));
    let large = file("b", Some(2 * MIB));
    assert_eq!(first_existing_model(&vec![&small, &large]).as_deref(), Some("b"));
    assert!(first_existing_model(&vec![&small]).is_none());
}

#[test]
fn models_are_complete_with_their_own_files() {
    let big = Some(2 * MIB);
    assert!(model_files_exist(&files(Some(1), big, None, None, None), "sense-voice"));
    assert!(!model_files_exist(&files(None, big, None, None, None), "sense-voice"));
    assert!(!model_files_exist(&files(Some(1), None, big, None, None), "sense-voice"));
    assert!(model_files_exist(&files(Some(1), None, big, None, None), "zipformer-zh"));
    assert!(model_files_exist(&files(Some(1), None, None, big, big), " "));
    assert!(!model_files_exist(&files(Some(1), None, None, big, None), "paraformer-streaming"));
    assert!(!model_files_exist(&files(Some(1), big, big, big, big), "other"));
    assert_eq!(message_of(local_model_spec(" other ")), "不支持的本地语音模型：other");
    assert_eq!(message_of(LocalSpeechModelKind::from_id("x")), "Unsupported local speech model: x");
    assert!(local_model_spec("").unwrap_or_else(|message| panic!("{}", message)).repository.is_none());
}

#[test]
fn recognizers_are_planned_or_refused() {
    let big = Some(2 * MIB);
    let complete = files(Some(1), big, big, big, big);
    let plan = |files: &ModelFiles, id: &str, language: Option<&str>, threads: Option<usize>| {
        plan_recognizer(files, id, language, threads)
    };
    let sense = plan(&complete, "sense-voice", Some(" ZH-cn "), Some(16)).unwrap_or_else(|m| panic!("{}", m));
    assert_eq!(sense.recognition_language, "zh");
    assert_eq!(sense.num_threads, 4);
    assert!(sense.decoding_method.is_none());
    assert!(matches!(&sense.model, RecognizerModel::SenseVoice { model } if model == "d/model.int8.onnx"));
    let zipformer = plan(&files(Some(1), None, big, None, None), "zipformer-zh", None, Some(16))
        .unwrap_or_else(|m| panic!("{}", m));
    assert_eq!(zipformer.num_threads, 2);
    assert_eq!(zipformer.decoding_method, Some("greedy_search"));
    assert!(matches!(&zipformer.model, RecognizerModel::Zipformer { model } if model == "d/model.onnx"));
    let stream = plan(&complete, "", None, None).unwrap_or_else(|m| panic!("{}", m));
    assert_eq!(stream.recognition_language, "zh-en");
    assert_eq!(
        message_of(plan(&complete, "sense-voice", Some("FR"), None)),
        "Unsupported SenseVoice language: fr"
    );
    assert_eq!(
        message_of(plan(&files(None, big, None, None, None), "sense-voice", None, None)),
        "Sherpa-ONNX tokens file not found at: d/tokens.txt"
    );
    assert_eq!(
        message_of(plan(&files(Some(1), None, None, None, None), "sense-voice", None, None)),
        "SenseVoice model file not found at: d/model.int8.onnx"
    );
    assert_eq!(
        message_of(plan(&files(Some(1), None, None, big, None), "paraformer-streaming", None, None)),
        "Paraformer streaming model files not found in: d"
    );
    assert_eq!(
        message_of(plan(&files(Some(1), None, None, None, None), "zipformer-zh", None, None)),
        "Zipformer Chinese model file not found in: d"
    );
    assert_eq!(message_of(plan(&complete, "x", None, None)), "Unsupported local speech model: x");
}

#[test]
fn support_models_are_planned_or_refused() {
    let vad = plan_vad(Some(file("v", Some(MIB)))).unwrap_or_else(|m| panic!("{}", m));
    assert_eq!((vad.threshold_thousandths, vad.min_silence_ms, vad.window_size), (500, 450, 512));
    assert_eq!(message_of(plan_vad(None)), "Silero VAD model path is required for local recognition");
    assert_eq!(message_of(plan_vad(Some(file("v", Some(1))))), "Silero VAD model file not found at: v");
    assert!(plan_punctuation(LocalSpeechModelKind::SenseVoice, None).unwrap_or_else(|m| panic!("{}", m)).is_none());
    assert_eq!(
        message_of(plan_punctuation(LocalSpeechModelKind::ZipformerZh, None)),
        "Punctuation model path is required"
    );
    assert_eq!(
        message_of(plan_punctuation(LocalSpeechModelKind::ZipformerZh, Some(file("p", Some(1))))),
        "Punctuation model file not found at: p"
    );
    assert!(resampling_needed(48_000) && !resampling_needed(16_000));
}

#[test]
fn loading_checks_the_download_first() {
    let big = Some(2 * MIB);
    let plan = plan_load("zipformer-zh", &files(Some(1), big, None, None, None), Some("fr"))
        .unwrap_or_else(|m| panic!("{}", m));
    assert_eq!(plan.language, "zh");
    assert!(plan.punctuation);
    assert_eq!(
        message_of(plan_load("sense-voice", &files(Some(1), None, None, None, None), None)),
        "本地模型尚未完整下载：sense-voice。请先在 AI 处理页面下载；若已执行下载，请确认 Git LFS 可用。"
    );
    assert_eq!(
        message_of(plan_load("sense-voice", &files(Some(1), big, None, None, None), Some("fr"))),
        "Unsupported SenseVoice language: fr"
    );
    assert_eq!(message_of(plan_load("x", &files(None, None, None, None, None), None)), "不支持的本地语音模型：x");
    assert!(loaded_model_serves("a", "zh", "a", "zh"));
    assert!(!loaded_model_serves("a", "zh-en", "a", "zh"));
}

#[test]
fn speech_is_recognised_with_its_preroll() {
    let mut model = model("zipformer-zh");
    assert_eq!(model.model_id(), "zipformer-zh");
    assert_eq!(model.recognition_language(), "zh");
    assert!(!model.is_streaming());
    let quiet: Vec<i32> = (0..6_000).collect();
    assert!(matches!(model.process(&quiet, reading(false, Vec::new())), Work::Nothing));
    let onset = vec![-1; 8_000];
    assert!(matches!(model.process(&onset, reading(true, Vec::new())), Work::Nothing));
    let more = vec![-2; 7_168];
    match model.process(&more, reading(true, Vec::new())) {
        Work::Partial(speech) => {
            assert_eq!(speech.len(), 12_288);
            assert_eq!(speech[0], -1);
            assert_eq!(speech[5_120], -2);
        }
        _ => panic!("a partial result was due"),
    }
    match model.process(&[5], reading(false, vec![vec![1, 2], vec![3]])) {
        Work::Final(segments) => assert_eq!(segments, vec![vec![1, 2], vec![3]]),
        _ => panic!("a final result was due"),
    }
    match model.flush(Some(Vec::new())) {
        Work::Final(segments) => assert!(segments.is_empty()),
        _ => panic!("flushing gives final results"),
    }
}

#[test]
fn speech_that_is_cut_off_is_flushed() {
    let mut model = model("sense-voice");
    assert_eq!(model.partial_interval_samples(), 20_480);
    assert!(matches!(model.process(&[1, 2], reading(true, Vec::new())), Work::Nothing));
    assert!(matches!(model.process(&[3], reading(true, Vec::new())), Work::Nothing));
    match model.flush(Some(Vec::new())) {
        Work::Final(segments) => assert_eq!(segments, vec![vec![1, 2, 3]]),
        _ => panic!("flushing gives final results"),
    }
    assert!(matches!(model.process(&[4], reading(true, Vec::new())), Work::Nothing));
    assert!(matches!(model.process(&[5], reading(false, Vec::new())), Work::Nothing));
    match model.flush(Some(Vec::new())) {
        Work::Final(segments) => assert!(segments.is_empty()),
        _ => panic!("flushing gives final results"),
    }
    model.reset_session();
}

#[test]
fn sound_is_gathered_without_a_detector() {
    let mut model = model("sense-voice");
    assert!(matches!(model.process(&vec![1; 15_999], None), Work::Nothing));
    match model.process(&vec![2; 130_000], None) {
        Work::Final(segments) => {
            assert_eq!(segments.len(), 1);
            assert_eq!(segments[0].len(), 128_000);
            assert!(segments[0].iter().all(|sample| *sample == 2));
        }
        _ => panic!("the buffer was full"),
    }
    assert!(matches!(model.process(&[3], None), Work::Nothing));
    match model.flush(None) {
        Work::Final(segments) => assert_eq!(segments, vec![vec![3]]),
        _ => panic!("flushing gives final results"),
    }
}

#[test]
fn streams_show_each_text_once() {
    let mut model = model("");
    assert!(model.is_streaming());
    let chunk = model.stream_audio(&[1, 2], false);
    assert!(chunk.feed.is_none());
    assert!(matches!(model.stream_hypothesis(chunk, String::new(), false), StreamWork::Nothing));
    let chunk = model.stream_audio(&[3], true);
    assert_eq!(chunk.feed, Some(vec![1, 2, 3]));
    assert!(matches!(
        model.stream_hypothesis(chunk, "你".to_string(), false),
        StreamWork::Partial(text) if text == "你"
    ));
    let chunk = model.stream_audio(&[4], true);
    assert_eq!(chunk.feed, Some(vec![4]));
    assert!(matches!(model.stream_hypothesis(chunk, "你".to_string(), false), StreamWork::Nothing));
    let chunk = model.stream_audio(&[5], false);
    assert!(matches!(model.stream_hypothesis(chunk, "你好".to_string(), true), StreamWork::Finish));
    assert_eq!(model.finish_stream(Some("  ".to_string())), "你");
    assert_eq!(model.finish_stream(Some(" a<unk>b ".to_string())), "ab");
    let chunk = model.stream_audio(&[6], true);
    assert_eq!(chunk.feed, Some(vec![5, 6]));
    assert!(matches!(model.stream_hypothesis(chunk, "x".to_string(), false), StreamWork::Partial(_)));
    let chunk = model.stream_audio(&[7], false);
    assert!(matches!(model.stream_hypothesis(chunk, "x".to_string(), false), StreamWork::Restart));
    assert_eq!(model.flush_stream(None), "");
}

#[test]
fn final_texts_are_punctuated_and_joined() {
    assert_eq!(finalize_text(String::new(), Some("x".to_string())), "");
    assert_eq!(finalize_text("hello".to_string(), Some("Hello, world".to_string())), "Hello, world.");
    assert_eq!(finalize_text("hello".to_string(), Some("  ".to_string())), "hello.");
    assert_eq!(finalize_text("你好".to_string(), None), "你好。");
    assert_eq!(
        decode_final_segments(vec!["a".to_string(), String::new(), "b.".to_string(), "c".to_string()]),
        "a b.c"
    );
    assert_eq!(recognized_text(Some("  a <unk>  b\t".to_string())), "a b");
    assert_eq!(recognized_text(None), "");
    let empty = LocalTranscriptResult::default();
    assert!(empty.text.is_empty() && !empty.is_final);
}

#[test]
fn results_are_final_once_speech_has_ended() {
    let shown = |result: LocalTranscriptResult| (result.text, result.is_final);
    assert_eq!(shown(work_result(&Work::<u8>::Nothing, vec![])), (String::new(), false));
    assert_eq!(shown(work_result(&Work::Partial(vec![1]), vec!["so far".to_string()])), ("so far".to_string(), false));
    let texts = vec!["你好。".to_string(), String::new(), "再见。".to_string()];
    assert_eq!(
        shown(work_result(&Work::Final(vec![vec![1], vec![2], vec![3]]), texts)),
        ("你好。再见。".to_string(), true)
    );
    let stream = |work: StreamWork| shown(stream_result(work, "done.".to_string()));
    assert_eq!(stream(StreamWork::Nothing), (String::new(), false));
    assert_eq!(stream(StreamWork::Restart), (String::new(), false));
    assert_eq!(stream(StreamWork::Partial("do".to_string())), ("do".to_string(), false));
    assert_eq!(stream(StreamWork::Finish), ("done.".to_string(), true));
}

#[test]
fn nothing_is_recognised_without_a_model() {
    let result = |text: &str| LocalTranscriptResult { text: text.to_string(), is_final: true };
    assert_eq!(
        message_of(process_audio_chunk(None)),
        "模型未加载。请在设置中下载模型后再使用本地推理。"
    );
    assert_eq!(message_of(process_audio_chunk(Some(Err("x".to_string())))), "x");
    assert_eq!(process_audio_chunk(Some(Ok(result("a")))).ok().unwrap().text, "a");
    let nothing = flush_local_model(None);
    assert_eq!((nothing.text.as_str(), nothing.is_final), ("", false));
    assert!(flush_local_model(Some(result("b"))).is_final);
}
