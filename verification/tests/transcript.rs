use tauri_llm::speech_model::{
    normalize_sense_voice_language, LocalSpeechModelKind, DEFAULT_LOCAL_SPEECH_MODEL_ID,
    PARAFORMER_STREAMING_MODEL_ID,
};
use tauri_llm::transcript::{clean_transcript_text, ensure_terminal_punctuation, join_transcript_parts};

#[test]
fn removes_unknown_tokens_from_transcripts() {
    assert_eq!(clean_transcript_text("你<unk>好"), "你好");
    assert_eq!(clean_transcript_text("hello <UNK> world"), "hello world");
}

#[test]
fn validates_sense_voice_languages() {
    assert_eq!(normalize_sense_voice_language(None).unwrap(), "auto");
    assert_eq!(normalize_sense_voice_language(Some("zh-CN")).unwrap(), "zh");
    assert!(normalize_sense_voice_language(Some("fr")).is_err());
}

#[test]
fn defaults_to_paraformer_streaming() {
    assert_eq!(DEFAULT_LOCAL_SPEECH_MODEL_ID, PARAFORMER_STREAMING_MODEL_ID);
    assert_eq!(LocalSpeechModelKind::from_id("").unwrap(), LocalSpeechModelKind::ParaformerStreaming);
}

#[test]
fn joins_transcripts_without_spaces_between_chinese_sentences() {
    assert_eq!(
        join_transcript_parts(vec!["第一句。".to_string(), "第二句。".to_string()]),
        "第一句。第二句。"
    );
    assert_eq!(
        join_transcript_parts(vec!["hello".to_string(), "world".to_string()]),
        "hello world"
    );
}

#[test]
fn adds_terminal_punctuation_when_the_model_omits_it() {
    assert_eq!(ensure_terminal_punctuation("今天天气不错".to_string()), "今天天气不错。");
    assert_eq!(ensure_terminal_punctuation("looks good".to_string()), "looks good.");
    assert_eq!(ensure_terminal_punctuation("已经有标点！".to_string()), "已经有标点！");
    assert_eq!(ensure_terminal_punctuation("“引用内容”".to_string()), "“引用内容。”");
    assert_eq!(ensure_terminal_punctuation("下一句，".to_string()), "下一句，");
}

#[test]
fn cleaned_texts_hold_single_spaces() {
    assert_eq!(clean_transcript_text("  a\t<unk> \n b\u{3000}c "), "a b c");
    assert_eq!(clean_transcript_text("<u<unk>nk>x"), "<unk>x");
    assert_eq!(clean_transcript_text("<U<unk>NK>x"), "x");
}

#[test]
fn punctuation_is_put_in_once() {
    for text in ["你好", "hello)", "(“好的”)", "ok?", "）", "  "] {
        let once = ensure_terminal_punctuation(text.to_string());
        assert_eq!(ensure_terminal_punctuation(once.clone()), once);
    }
    assert_eq!(ensure_terminal_punctuation("）".to_string()), ".）");
    assert_eq!(ensure_terminal_punctuation(" \n".to_string()), "");
}
