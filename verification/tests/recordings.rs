use tauri_llm::model_runtime::ModelTarget;
use tauri_llm::recording_export::{
    escape_html, export_format, format_duration, format_offset, html_document, markdown_document, print_arguments,
    print_outcome, speakers_countable, ExportFormat, HTML_HEAD,
};
use tauri_llm::recording_store::{
    check_recording_format, close_entry, default_diarization_status, diarize_recording, finish_entry,
    generate_recording_report, list_recordings, new_entry, record_diarization, record_formatting, record_report,
    recording_format, recording_title, start_entry, title_at_offset, title_from, title_with_clock, transcript_of, validate_record_id, AudioFormat,
    RecordingEntry, RecordingStoreState, FORMATTING_PROMPT, REPORT_PROMPT,
};
use tauri_llm::speaker_diarization::{SpeakerDiarizationOutput, SpeakerSegment};
use tauri_llm::utc_time::{duration_ms, UtcTime};

fn now() -> UtcTime {
    let now = chrono::Utc::now();
    UtcTime { seconds: now.timestamp(), nanos: now.timestamp_subsec_nanos() }
}

fn sample_record() -> RecordingEntry {
    RecordingEntry {
        id: "test-record".to_string(),
        title: "测试录音".to_string(),
        started_at: "2026-08-05T08:00:00.000Z".to_string(),
        ended_at: Some("2026-08-05T08:01:00.000Z".to_string()),
        duration_ms: 60_000,
        audio_source: "microphone".to_string(),
        audio_path: "audio.wav".to_string(),
        raw_transcript: "原始正文".to_string(),
        formatted_transcript: Some("整理后的正文".to_string()),
        formatting_status: "ready".to_string(),
        formatting_error: None,
        report: Some("报告正文".to_string()),
        report_status: "ready".to_string(),
        report_error: None,
        text_provider: Some("dashscope".to_string()),
        text_model: Some("qwen-plus".to_string()),
        speaker_count: 0,
        speaker_segments: Vec::new(),
        diarization_status: "none".to_string(),
        diarization_error: None,
    }
}

fn text_model() -> ModelTarget {
    ModelTarget {
        provider: "custom".to_string(),
        adapter: "openai".to_string(),
        base_url: "http://h".to_string(),
        api_key: None,
        model: "m".to_string(),
    }
}

fn message_of<T>(result: Result<T, String>) -> String {
    match result {
        Ok(_) => panic!("an error was expected"),
        Err(message) => message,
    }
}

#[test]
fn title_is_limited_by_characters() {
    let started_at = now();
    let title = recording_title(
        "这是一个很长很长的录音文字标题，需要在列表里保持紧凑并且不能截断中文字符",
        started_at,
    );
    assert!(title.ends_with("..."));
    assert_eq!(title.trim_end_matches("...").chars().count(), 28);
}

#[test]
fn titles_come_from_the_first_line_with_text() {
    assert_eq!(title_from(" \r\n\t\n  hello there \r\nsecond").as_deref(), Some("hello there"));
    assert_eq!(title_from("a\rb").as_deref(), Some("a\rb"));
    let exact = "x".repeat(28);
    assert_eq!(title_from(&exact), Some(exact.clone()));
    assert_eq!(title_from(&format!("{exact}y")), Some(format!("{exact}...")));
    assert!(title_from(" \n ").is_none());
    let title = recording_title("  ", now());
    let local = chrono::DateTime::from_timestamp(0, 0).unwrap().with_timezone(&chrono::Local);
    assert_eq!(
        recording_title("", UtcTime { seconds: 0, nanos: 0 }),
        format!("录音 {}", local.format("%m-%d %H:%M"))
    );
    assert!(title.starts_with("录音 "));
    assert_eq!(title.chars().count(), 14);
}

#[test]
fn titles_without_text_tell_the_time_of_the_start() {
    let start = |seconds: i64| UtcTime { seconds, nanos: 0 };
    assert_eq!(title_at_offset("", start(0), 0), "录音 01-01 00:00");
    assert_eq!(title_at_offset(" \n", start(0), 8 * 3_600), "录音 01-01 08:00");
    assert_eq!(title_at_offset("", start(0), -1), "录音 12-31 23:59");
    assert_eq!(title_at_offset("", start(1_722_875_459), 86_399), "录音 08-06 16:30");
    assert_eq!(title_at_offset("", UtcTime { seconds: 1_483_228_799, nanos: 1_999_999_999 }, 0), "录音 12-31 23:59");
    assert_eq!(title_at_offset("text", start(0), 0), "text");
    assert_eq!(title_with_clock("\n \n", "noon"), "录音 noon");
    assert_eq!(title_with_clock("\n text \nmore", "noon"), "text");
}

#[test]
fn html_content_is_escaped() {
    assert_eq!(escape_html("<script>\"&"), "&lt;script&gt;&quot;&amp;");
}

#[test]
fn escaped_text_opens_no_tag() {
    let escaped = escape_html("a<b>&amp;\"c\"'d'");
    assert_eq!(escaped, "a&lt;b&gt;&amp;amp;&quot;c&quot;'d'");
    assert!(!escaped.contains('<') && !escaped.contains('>') && !escaped.contains('"'));
    assert_eq!(escape_html("文字 plain"), "文字 plain");
}

#[test]
fn markdown_contains_transcript_and_report() {
    let mut record = sample_record();
    record.speaker_count = 2;
    record.speaker_segments = vec![SpeakerSegment { start_ms: 1_250, end_ms: 3_500, speaker: 0 }];
    let markdown = markdown_document(&record);
    assert!(markdown.contains("## 文字记录"));
    assert!(markdown.contains("整理后的正文"));
    assert!(markdown.contains("## 汇总报告"));
    assert!(markdown.contains("报告正文"));
    assert!(markdown.contains("说话人 1"));
    assert!(markdown.contains("00:01.250 - 00:03.500"));
}

#[test]
fn markdown_is_laid_out() {
    let mut record = sample_record();
    record.speaker_count = 2;
    record.speaker_segments = vec![
        SpeakerSegment { start_ms: 1_250, end_ms: 3_500, speaker: 0 },
        SpeakerSegment { start_ms: 60_001, end_ms: 3_600_000, speaker: 1 },
    ];
    assert_eq!(
        markdown_document(&record),
        "# 测试录音\n\n- 时间：2026-08-05T08:01:00.000Z\n- 时长：01:00\n- 来源：麦克风\n\n## 文字记录\n\n整理后的正文\n\n## 说话人分离\n\n共检测到 2 位说话人。\n\n- 00:01.250 - 00:03.500：说话人 1\n- 01:00.001 - 60:00.000：说话人 2\n\n## 汇总报告\n\n报告正文\n"
    );
    record.speaker_segments = Vec::new();
    record.report = Some("  ".to_string());
    record.formatted_transcript = Some(" ".to_string());
    record.ended_at = None;
    record.audio_source = "process".to_string();
    assert_eq!(
        markdown_document(&record),
        "# 测试录音\n\n- 时间：2026-08-05T08:00:00.000Z\n- 时长：01:00\n- 来源：程序音频\n\n## 文字记录\n\n原始正文\n"
    );
}

#[test]
fn markdown_labels_combined_audio_source() {
    let mut record = sample_record();
    record.audio_source = "microphone_and_process".to_string();

    assert!(markdown_document(&record).contains("- 来源：麦克风 + 程序音频"));
}

#[test]
fn html_is_laid_out() {
    let mut record = sample_record();
    record.title = "<t>".to_string();
    record.speaker_count = 1;
    record.speaker_segments = vec![SpeakerSegment { start_ms: 0, end_ms: 999, speaker: 4 }];
    assert_eq!(
        html_document(&record),
        format!(
            "{HTML_HEAD}&lt;t&gt;</h1><div class=\"meta\">2026-08-05T08:01:00.000Z · 01:00</div><section><h2>文字记录</h2><div class=\"content\">整理后的正文</div></section><section><h2>说话人分离</h2><p>共检测到 1 位说话人</p><ul class=\"speakers\"><li><span>00:00.000 - 00:00.999</span><strong>说话人 5</strong></li></ul></section><section><h2>汇总报告</h2><div class=\"content\">报告正文</div></section></body></html>"
        )
    );
    assert!(HTML_HEAD.starts_with("<!doctype html><html lang=\"zh-CN\"><head><meta charset=\"utf-8\"><style>\n@page { size: A4; margin: 18mm; } body {"));
    assert!(HTML_HEAD.ends_with("\n </style></head><body><h1>"));
    record.speaker_segments[0].speaker = u32::MAX;
    assert!(!speakers_countable(&record));
}

#[test]
fn lengths_and_offsets_are_padded() {
    assert_eq!(format_duration(0), "00:00");
    assert_eq!(format_duration(59_999), "00:59");
    assert_eq!(format_duration(6_000_000), "100:00");
    assert_eq!(format_offset(61_007), "01:01.007");
}

#[test]
fn exports_know_two_formats() {
    assert_eq!(export_format("markdown").unwrap(), ExportFormat::Markdown);
    assert_eq!(export_format("pdf").unwrap(), ExportFormat::Pdf);
    assert_eq!(message_of(export_format("PDF")), "不支持的导出格式");
    assert_eq!(
        print_arguments("C:\\a b\\recording-print.html", "C:\\a b\\recording.pdf"),
        vec![
            "--headless",
            "--disable-gpu",
            "--no-pdf-header-footer",
            "--print-to-pdf=C:\\a b\\recording.pdf",
            "file:///C:/a%20b/recording-print.html"
        ]
    );
    assert!(print_outcome(true, true, "noise").is_ok());
    assert_eq!(message_of(print_outcome(true, false, " no file \n")), "生成 PDF 失败：no file");
    assert_eq!(message_of(print_outcome(false, true, "")), "生成 PDF 失败：");
}

#[test]
fn record_identifiers_are_plain() {
    assert!(validate_record_id("20260805-080000-123").is_ok());
    assert!(validate_record_id("a_B-9").is_ok());
    for id in ["", "../x", "a b", "é", "a/b"] {
        assert_eq!(message_of(validate_record_id(id)), "录音记录编号无效");
    }
}

#[test]
fn one_recording_goes_on_at_a_time() {
    let mut store: RecordingStoreState<u8> = RecordingStoreState::new();
    let start = UtcTime { seconds: 1_785_916_800, nanos: 123_456_789 };
    let id = store.begin_recording(start).unwrap();
    assert_eq!(id, "20260805-080000-123");
    assert!(validate_record_id(&id).is_ok());
    let entry = new_entry(id, start, "process".to_string(), "p/audio.wav".to_string());
    assert_eq!(entry.started_at, "2026-08-05T08:00:00.123Z");
    assert_eq!(entry.formatting_status, "recording");
    assert!(entry.title.starts_with("录音 "));
    store.activate(entry, "p".to_string(), 7);
    assert_eq!(message_of(store.begin_recording(start)), "已有录音正在保存");
    let active = match store.finish_recording() {
        Ok(active) => active,
        Err(message) => panic!("{}", message),
    };
    assert_eq!(active.writer, Some(7));
    assert_eq!(active.directory, "p");
    assert_eq!(message_of(store.finish_recording()), "没有正在保存的录音");
    assert!(store.cancel_recording().is_none());
    assert!(store.begin_recording(start).is_ok());
}

#[test]
fn finished_recordings_say_what_is_left_to_do() {
    let start = UtcTime { seconds: 1_785_916_800, nanos: 500_900_000 };
    let end = UtcTime { seconds: 1_785_916_861, nanos: 500_000_000 };
    let entry = new_entry("id".to_string(), start, "microphone".to_string(), "a".to_string());
    let plan = finish_entry(entry, end, "  你好\n世界  ", true, Some(text_model()), true);
    assert_eq!(plan.entry.title, "你好");
    assert_eq!(plan.entry.ended_at.as_deref(), Some("2026-08-05T08:01:01.500Z"));
    assert_eq!(plan.entry.duration_ms, 61_000);
    assert_eq!(plan.entry.raw_transcript, "你好\n世界");
    assert_eq!(plan.entry.formatting_status, "pending");
    assert_eq!(plan.entry.text_provider.as_deref(), Some("custom"));
    assert_eq!(plan.entry.text_model.as_deref(), Some("m"));
    assert_eq!(plan.entry.diarization_status, "pending");
    assert!(plan.diarize);
    let request = plan.formatting.unwrap();
    assert_eq!(request.system_prompt.as_deref(), Some(FORMATTING_PROMPT));
    assert_eq!(request.messages[0].content, "你好\n世界");

    let entry = new_entry("id".to_string(), start, "microphone".to_string(), "a".to_string());
    let plan = finish_entry(entry, end, "   ", true, Some(text_model()), false);
    assert!(plan.formatting.is_none());
    assert_eq!(plan.entry.formatting_status, "none");
    assert_eq!(plan.entry.diarization_status, "none");
    assert!(plan.entry.title.starts_with("录音 "));

    let mut entry = sample_record();
    entry.started_at = "not a time".to_string();
    let plan = finish_entry(entry, end, "x", false, None, false);
    assert_eq!(plan.entry.duration_ms, 0);
    assert_eq!(plan.entry.text_provider.as_deref(), Some("dashscope"));
}

#[test]
fn closing_keeps_the_start_of_a_record() {
    let entry = start_entry(
        "i".to_string(),
        "t".to_string(),
        "s".to_string(),
        "process".to_string(),
        "p".to_string(),
    );
    let plan = close_entry(entry, "new".to_string(), "e".to_string(), 5, "w".to_string(), true, None, true);
    assert_eq!(plan.entry.id, "i");
    assert_eq!(plan.entry.started_at, "s");
    assert_eq!(plan.entry.audio_path, "p");
    assert_eq!(plan.entry.title, "new");
    assert_eq!(plan.entry.duration_ms, 5);
    assert_eq!(plan.entry.formatting_status, "none");
    assert!(plan.formatting.is_none());
}

#[test]
fn lengths_are_whole_milliseconds() {
    let at = |seconds: i64, nanos: u32| UtcTime { seconds, nanos };
    assert_eq!(duration_ms(at(10, 0), at(11, 999_999)), 1_000);
    assert_eq!(duration_ms(at(10, 999_999_999), at(11, 0)), 0);
    assert_eq!(duration_ms(at(11, 0), at(10, 0)), 0);
    assert_eq!(duration_ms(at(59, 1_500_000_000), at(60, 0)), 500);
    assert!(at(59, 1_999_999_999).valid());
    assert!(!at(58, 1_000_000_000).valid());
    assert!(!at(i64::MAX, 0).valid());
    assert!(at(-8_334_601_228_800, 0).valid() && !at(-8_334_601_228_801, 0).valid());
    assert!(at(8_210_266_876_799, 0).valid() && !at(8_210_266_876_800, 0).valid());
    assert!(chrono::DateTime::from_timestamp(-8_334_601_228_800, 0).is_some());
    assert!(chrono::DateTime::from_timestamp(-8_334_601_228_801, 0).is_none());
    assert!(chrono::DateTime::from_timestamp(8_210_266_876_799, 0).is_some());
    assert!(chrono::DateTime::from_timestamp(8_210_266_876_800, 0).is_none());
}

#[test]
fn formatting_results_are_taken_in() {
    let ready = record_formatting(sample_record(), Ok("neu".to_string()));
    assert_eq!(ready.formatted_transcript.as_deref(), Some("neu"));
    assert_eq!(ready.formatting_status, "ready");
    let failed = record_formatting(sample_record(), Err("bad".to_string()));
    assert_eq!(failed.formatted_transcript.as_deref(), Some("整理后的正文"));
    assert_eq!(failed.formatting_status, "failed");
    assert_eq!(failed.formatting_error.as_deref(), Some("bad"));
}

#[test]
fn speakers_are_taken_in() {
    let mut record = sample_record();
    record.speaker_count = 3;
    let waiting = diarize_recording(record);
    assert_eq!(waiting.speaker_count, 0);
    assert_eq!(waiting.diarization_status, "pending");
    let output = SpeakerDiarizationOutput {
        speaker_count: 1,
        segments: vec![SpeakerSegment { start_ms: 0, end_ms: 5, speaker: 0 }],
    };
    let (ready, result) = record_diarization(waiting, Ok(output));
    assert!(result.is_ok());
    assert_eq!(ready.diarization_status, "ready");
    assert_eq!(ready.speaker_segments.len(), 1);
    let (failed, result) = record_diarization(ready, Err("no model".to_string()));
    assert_eq!(message_of(result), "no model");
    assert_eq!(failed.diarization_status, "failed");
    assert_eq!(failed.diarization_error.as_deref(), Some("no model"));
    assert_eq!(failed.speaker_segments.len(), 1);
    assert_eq!(default_diarization_status(), "none");
}

#[test]
fn reports_are_asked_for_and_taken_in() {
    let (record, request) = match generate_recording_report(sample_record(), text_model()) {
        Ok(plan) => plan,
        Err(message) => panic!("{}", message),
    };
    assert_eq!(record.report_status, "generating");
    assert_eq!(record.text_provider.as_deref(), Some("custom"));
    assert_eq!(request.messages[0].content, "整理后的正文");
    assert_eq!(request.system_prompt.as_deref(), Some(REPORT_PROMPT));
    let (ready, result) = record_report(record, Ok("r".to_string()));
    assert!(result.is_ok());
    assert_eq!(ready.report.as_deref(), Some("r"));
    assert_eq!(ready.report_status, "ready");
    let (failed, result) = record_report(ready, Err("x".to_string()));
    assert_eq!(message_of(result), "x");
    assert_eq!(failed.report.as_deref(), Some("r"));
    assert_eq!(failed.report_error.as_deref(), Some("x"));

    let mut empty = sample_record();
    empty.formatted_transcript = Some("  ".to_string());
    assert_eq!(transcript_of(&empty), "原始正文");
    empty.raw_transcript = " \n".to_string();
    assert_eq!(message_of(generate_recording_report(empty, text_model())), "这条录音没有可汇总的文字");
}

#[test]
fn recordings_are_listed_latest_first() {
    let mut records = Vec::new();
    for started_at in ["2026-08-05T08:00:00.000Z", "2026-08-06T08:00:00.000Z", "2025-01-01T00:00:00.000Z"] {
        let mut record = sample_record();
        record.started_at = started_at.to_string();
        records.push(Some(record));
        records.push(None);
    }
    let listed: Vec<String> = list_recordings(records).into_iter().map(|record| record.started_at).collect();
    assert_eq!(
        listed,
        vec!["2026-08-06T08:00:00.000Z", "2026-08-05T08:00:00.000Z", "2025-01-01T00:00:00.000Z"]
    );
}

#[test]
fn audio_for_diarization_has_one_format() {
    assert!(check_recording_format(recording_format()).is_ok());
    let stereo = AudioFormat { sample_rate: 48_000, channels: 2, bits_per_sample: 24, is_integer: true };
    assert_eq!(
        message_of(check_recording_format(stereo)),
        "说话人分离需要 16 kHz 单声道 PCM 录音，当前为 48000 Hz / 2 声道 / 24 bit"
    );
    let floats = AudioFormat { sample_rate: 16_000, channels: 1, bits_per_sample: 16, is_integer: false };
    assert!(check_recording_format(floats).is_err());
}

#[test]
fn escaped_texts_can_be_told_apart() {
    for (left, right) in [("&", "&amp;"), ("<", "&lt;"), (">", "&gt;"), ("\"", "&quot;"), ("a&b", "a&amp;b")] {
        assert_ne!(escape_html(left), escape_html(right));
    }
    assert_eq!(escape_html("&amp;"), "&amp;amp;");
    assert_eq!(escape_html("纯文本;"), "纯文本;");
}
