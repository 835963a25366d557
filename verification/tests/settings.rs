use tauri_llm::numbers::{decimal_text, padded_text, parse_number, signed_text};
use tauri_llm::settings::{
    load_settings, logging_enabled, migrate_settings, shortcut_bindings, test_logging, ProviderConfig, Settings,
    StoredSettings,
};
use tauri_llm::text::{text_occurs, trimmed, with_char_replaced};
use tauri_llm::translation::{
    read_translation, translate_caption, translation_language_name, translation_outcome, TranslationPlan,
};

fn message_of<T>(result: Result<T, String>) -> String {
    match result {
        Ok(_) => panic!("an error was expected"),
        Err(message) => message,
    }
}

#[test]
fn new_installations_start_with_these_settings() {
    let settings = Settings::default();
    assert_eq!(settings.text, "默认字幕");
    assert_eq!(f64::from_bits(settings.opacity_bits), 0.5);
    assert_eq!(settings.local_speech_model, "paraformer-streaming");
    assert_eq!(settings.sense_voice_language, "auto");
    assert_eq!(settings.toggle_recording_hotkey, "Alt+F1");
    assert!(settings.provider_configs.is_empty());
    assert!(settings.always_on_top && settings.speaker_diarization_enabled && !settings.translation_enabled);
    let config = ProviderConfig::default();
    assert!(config.base_url.is_empty() && config.available_models.is_empty());
}

#[test]
fn blank_shortcuts_are_not_bound() {
    let mut settings = Settings::default();
    settings.toggle_recording_hotkey = " Ctrl+R ".to_string();
    let bindings = shortcut_bindings(&settings);
    assert_eq!(bindings.len(), 2);
    assert_eq!((bindings[0].hotkey.as_str(), bindings[0].event), ("Ctrl+R", "toggle_recording_shortcut"));
    assert_eq!((bindings[1].hotkey.as_str(), bindings[1].event), ("Alt+F2", "capture_visual_shortcut"));
    settings.toggle_recording_hotkey = "  ".to_string();
    let bindings = shortcut_bindings(&settings);
    assert_eq!(bindings.len(), 1);
    assert_eq!(bindings[0].event, "capture_visual_shortcut");
}

#[test]
fn old_start_shortcuts_become_toggles() {
    let with_start = |start: &str| {
        let mut settings = Settings::default();
        settings.start_recording_hotkey = start.to_string();
        settings
    };
    assert_eq!(migrate_settings(with_start("F5"), None).toggle_recording_hotkey, "F5");
    assert_eq!(migrate_settings(with_start("F5"), Some(" ".to_string())).toggle_recording_hotkey, "F5");
    assert_eq!(migrate_settings(with_start("F5"), Some("Alt+F1".to_string())).toggle_recording_hotkey, "Alt+F1");
    assert_eq!(migrate_settings(with_start(" "), None).toggle_recording_hotkey, "Alt+F1");
}

#[test]
fn logging_is_switched_on_by_name() {
    assert!(logging_enabled("1") && logging_enabled("TRUE") && logging_enabled("true"));
    assert!(!logging_enabled("not_set") && !logging_enabled("0") && !logging_enabled(""));
}

#[test]
fn translation_languages_have_names() {
    assert_eq!(translation_language_name("auto", true).unwrap(), "automatically detected language");
    assert_eq!(translation_language_name("zh-CN", false).unwrap(), "Simplified Chinese");
    for (code, name) in [
        ("en", "English"),
        ("ja", "Japanese"),
        ("ko", "Korean"),
        ("es", "Spanish"),
        ("fr", "French"),
        ("de", "German"),
    ] {
        assert_eq!(translation_language_name(code, false).unwrap(), name);
    }
    assert_eq!(message_of(translation_language_name("auto", false)), "Unsupported translation language: auto");
}

#[test]
fn translations_are_planned_or_refused() {
    assert_eq!(message_of(translate_caption(" ", "x", "auto", "en")), "DashScope API Key 未配置");
    assert!(matches!(translate_caption("k", "  ", "??", "??"), Ok(TranslationPlan::Nothing)));
    assert_eq!(message_of(translate_caption("k", "x", "xx", "yy")), "Unsupported translation language: xx");
    assert_eq!(message_of(translate_caption("k", "x", "auto", "auto")), "Unsupported translation language: auto");
    match translate_caption(" k ", " 你好 ", "zh-CN", "en") {
        Ok(TranslationPlan::Ask { api_key, prompt }) => {
            assert_eq!(api_key, "k");
            assert_eq!(
                prompt,
                "Translate the following real-time subtitle from Simplified Chinese to English. Return only the translation. Preserve names, numbers, tone, and punctuation. Do not explain or add quotation marks.\n\n你好"
            );
        }
        _ => panic!("the service should be asked"),
    }
}

#[test]
fn settings_are_loaded_or_default() {
    let fresh = load_settings(StoredSettings::Missing);
    assert!(fresh.store);
    assert_eq!((fresh.settings.font_size, fresh.settings.toggle_recording_hotkey.as_str()), (24, "Alt+F1"));
    let broken = load_settings(StoredSettings::Unreadable);
    assert!(!broken.store);
    assert_eq!((broken.settings.text.as_str(), broken.settings.toggle_recording_hotkey.as_str()), ("默认字幕", "Alt+F1"));
    let old = Settings { font_size: 30, start_recording_hotkey: "Ctrl+R".to_string(), ..Settings::default() };
    let read = load_settings(StoredSettings::Read { settings: old, toggle: None });
    assert!(!read.store);
    assert_eq!((read.settings.font_size, read.settings.toggle_recording_hotkey.as_str()), (30, "Ctrl+R"));
    assert_eq!(test_logging("not_set"), "TAURI_LLM_DEBUG = not_set");
}

#[test]
fn replies_of_the_service_are_read() {
    let body = |text: &str| text.as_bytes().to_vec();
    assert_eq!(
        read_translation(200, &body("{\"choices\":[{\"message\":{\"content\":\"  hello \\n\"}}]}")).unwrap(),
        "hello"
    );
    assert_eq!(
        message_of(read_translation(401, &body("{\"error\":{\"message\":\"bad key\"}}"))),
        "翻译失败（401）：bad key"
    );
    assert_eq!(message_of(read_translation(500, &body("{}"))), "翻译失败（500）：未知错误");
    assert_eq!(message_of(read_translation(200, &body("{\"choices\":[]}"))), "翻译服务未返回文本");
    assert_eq!(
        message_of(read_translation(200, &body("{\"choices\":[{\"message\":{\"content\":7}}]}"))),
        "翻译服务未返回文本"
    );
    assert_eq!(
        message_of(read_translation(500, &body("<html>"))),
        "翻译服务响应无效：error decoding response body"
    );
    assert_eq!(translation_outcome(299, true, Some(" x ".to_string()), None).unwrap(), "x");
    assert_eq!(message_of(translation_outcome(300, true, Some("x".to_string()), None)), "翻译失败（300）：未知错误");
}

#[test]
fn numbers_are_written_and_read_back() {
    for number in [0_u64, 7, 10, 99, 100, 65_535, u64::MAX] {
        assert_eq!(decimal_text(number), number.to_string());
    }
    assert_eq!(parse_number(&decimal_text(18_446_744)), Some(18_446_744));
    assert_eq!(padded_text(5, 3), "005");
    assert_eq!(padded_text(1_234, 3), "1234");
    assert_eq!(signed_text(i32::MIN), i32::MIN.to_string());
    assert_eq!(signed_text(42), "42");
    assert_eq!(parse_number("+"), None);
    assert_eq!(parse_number(&format!("{}0", usize::MAX)), None);
}

#[test]
fn text_is_trimmed_as_std_trims() {
    for text in ["", " a ", "\u{3000}你好\u{a0}", "\u{200b}x", "\r\n\tx\u{85}", "a b"] {
        assert_eq!(trimmed(text), text.trim());
    }
    for code in 0..0x11_0000_u32 {
        if let Some(c) = char::from_u32(code) {
            assert_eq!(tauri_llm::text::white(c), c.is_whitespace());
        }
    }
    assert!(text_occurs("bc", "abcd") && !text_occurs("cb", "abcd") && text_occurs("", ""));
    assert_eq!(with_char_replaced("a b c", ' ', "%20"), "a%20b%20c");
}
