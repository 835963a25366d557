//! Recordings as documents.

use vstd::prelude::*;

use crate::numbers::{decimal, decimal_text, padded_decimal, padded_text};
use crate::recording_store::{shown_transcript, transcript_of, RecordView, RecordingEntry};
use crate::speaker_diarization::SpeakerSegment;
use crate::text::{blank, chars_of, is_blank, occurs, replace_char, same_text, trim, trimmed, with_char_replaced};

verus! {

/// A length in milliseconds as minutes and seconds.
pub open spec fn duration_form(ms: nat) -> Seq<char> {
    padded_decimal(ms / 1_000 / 60, 2) + ":"@ + padded_decimal(ms / 1_000 % 60, 2)
}

/// A point in a recording as minutes, seconds and milliseconds.
pub open spec fn offset_form(ms: nat) -> Seq<char> {
    duration_form(ms) + "."@ + padded_decimal(ms % 1_000, 3)
}

/// A length in milliseconds as minutes and seconds.
pub fn format_duration(duration_ms: u64) -> (text: String)
    ensures
        text@ == duration_form(duration_ms as nat),
{
    let total_seconds: u64 = duration_ms / 1_000;
    padded_text(total_seconds / 60, 2).concat(":").concat(padded_text(total_seconds % 60, 2).as_str())
}

/// A point in a recording as minutes, seconds and milliseconds.
pub fn format_offset(offset_ms: u64) -> (text: String)
    ensures
        text@ == offset_form(offset_ms as nat),
{
    format_duration(offset_ms).concat(".").concat(padded_text(offset_ms % 1_000, 3).as_str())
}

/// The name of an audio source.
pub open spec fn source_name(source: Seq<char>) -> Seq<char> {
    if source == "process"@ {
        "程序音频"@
    } else if source == "microphone_and_process"@ {
        "麦克风 + 程序音频"@
    } else {
        "麦克风"@
    }
}

/// When a recording ended, or else when it started.
pub open spec fn shown_time(record: RecordView) -> Seq<char> {
    match record.ended_at {
        Some(ended_at) => ended_at,
        None => record.started_at,
    }
}

/// A segment of the timeline in Markdown.
pub open spec fn markdown_row(segment: SpeakerSegment) -> Seq<char> {
    "- "@ + offset_form(segment.start_ms as nat) + " - "@ + offset_form(segment.end_ms as nat) + "：说话人 "@
        + decimal((segment.speaker + 1) as nat) + "\n"@
}

/// The segments of the timeline in Markdown.
pub open spec fn markdown_rows(segments: Seq<SpeakerSegment>) -> Seq<char>
    decreases segments.len(),
{
    if segments.len() == 0 {
        Seq::empty()
    } else {
        markdown_rows(segments.drop_last()) + markdown_row(segments.last())
    }
}

/// What stands above the transcript in Markdown.
pub open spec fn markdown_head(record: RecordView) -> Seq<char> {
    "# "@ + record.title + "\n\n- 时间："@ + shown_time(record) + "\n- 时长："@ + duration_form(
        record.duration_ms as nat,
    ) + "\n- 来源："@ + source_name(record.audio_source) + "\n\n## 文字记录\n\n"@
}

/// The timeline of the speakers in Markdown, where there is one.
pub open spec fn markdown_speakers(record: RecordView) -> Seq<char> {
    if record.speaker_segments.len() == 0 {
        Seq::empty()
    } else {
        "\n## 说话人分离\n\n共检测到 "@ + decimal(record.speaker_count as nat) + " 位说话人。\n\n"@
            + markdown_rows(record.speaker_segments)
    }
}

/// The report in Markdown, where there is one that is not blank.
pub open spec fn markdown_report(record: RecordView) -> Seq<char> {
    match record.report {
        Some(report) if !is_blank(report) => "\n## 汇总报告\n\n"@ + trim(report) + "\n"@,
        _ => Seq::empty(),
    }
}

/// A recording in Markdown.
pub open spec fn markdown(record: RecordView) -> Seq<char> {
    markdown_head(record) + trim(shown_transcript(record)) + "\n"@ + markdown_speakers(record)
        + markdown_report(record)
}

/// No speaker has the highest number there is, so that each can be counted from one.
pub open spec fn speakers_can_be_counted(segments: Seq<SpeakerSegment>) -> bool {
    forall|i: int| 0 <= i < segments.len() ==> (#[trigger] segments[i]).speaker < u32::MAX
}

/// Whether the speakers of a record can be counted from one.
pub fn speakers_countable(record: &RecordingEntry) -> (yes: bool)
    ensures
        yes == speakers_can_be_counted(record.speaker_segments@),
{
    let mut i: usize = 0;
    while i < record.speaker_segments.len()
        invariant
            i <= record.speaker_segments@.len(),
            forall|j: int| 0 <= j < i ==> (#[trigger] record.speaker_segments@[j]).speaker < u32::MAX,
        decreases record.speaker_segments@.len() - i,
    {
        if record.speaker_segments[i].speaker == u32::MAX {
            assert(!(record.speaker_segments@[i as int].speaker < u32::MAX));
            return false;
        }
        i += 1;
    }
    true
}

/// When a recording ended, or else when it started.
fn time_of(record: &RecordingEntry) -> (text: &str)
    ensures
        text@ == shown_time(record@),
{
    match &record.ended_at {
        Some(ended_at) => ended_at.as_str(),
        None => record.started_at.as_str(),
    }
}

/// The timeline of the speakers in Markdown.
fn markdown_timeline(record: &RecordingEntry) -> (text: String)
    requires
        speakers_can_be_counted(record.speaker_segments@),
    ensures
        text@ == markdown_speakers(record@),
{
    if record.speaker_segments.len() == 0 {
        return String::new();
    }
    let mut rows = String::new();
    let mut i: usize = 0;
    while i < record.speaker_segments.len()
        invariant
            i <= record.speaker_segments@.len(),
            speakers_can_be_counted(record.speaker_segments@),
            rows@ == markdown_rows(record.speaker_segments@.take(i as int)),
        decreases record.speaker_segments@.len() - i,
    {
        let segment = record.speaker_segments[i];
        assert(record.speaker_segments@.take(i + 1).drop_last() == record.speaker_segments@.take(i as int));
        assert(record.speaker_segments@[i as int].speaker < u32::MAX);
        let row = "- ".to_string().concat(format_offset(segment.start_ms).as_str()).concat(" - ").concat(
            format_offset(segment.end_ms).as_str(),
        ).concat("：说话人 ").concat(decimal_text((segment.speaker + 1) as u64).as_str()).concat("\n");
        rows.append(row.as_str());
        i += 1;
    }
    assert(record.speaker_segments@.take(i as int) == record.speaker_segments@);
    "\n## 说话人分离\n\n共检测到 ".to_string().concat(decimal_text(record.speaker_count as u64).as_str()).concat(
        " 位说话人。\n\n",
    ).concat(rows.as_str())
}

/// Writes a recording in Markdown.
pub fn markdown_document(record: &RecordingEntry) -> (document: String)
    requires
        speakers_can_be_counted(record.speaker_segments@),
    ensures
        document@ == markdown(record@),
{
    let source = if same_text(record.audio_source.as_str(), "process") {
        "程序音频"
    } else if same_text(record.audio_source.as_str(), "microphone_and_process") {
        "麦克风 + 程序音频"
    } else {
        "麦克风"
    };
    let mut document = "# ".to_string().concat(record.title.as_str()).concat("\n\n- 时间：").concat(
        time_of(record),
    ).concat("\n- 时长：").concat(format_duration(record.duration_ms).as_str()).concat("\n- 来源：").concat(
        source,
    ).concat("\n\n## 文字记录\n\n").concat(trimmed(transcript_of(record)).as_str()).concat("\n").concat(
        markdown_timeline(record).as_str(),
    );
    match &record.report {
        Some(report) => {
            if !blank(report.as_str()) {
                document = document.concat(
                    "\n## 汇总报告\n\n".to_string().concat(trimmed(report.as_str()).as_str()).concat("\n").as_str(),
                );
            }
        },
        None => {},
    }
    assert(document@ =~= markdown(record@));
    document
}

/// A document in Markdown holds the title, the transcript, and the report where there is one.
pub proof fn law_markdown_holds_the_texts(record: RecordView)
    ensures
        occurs(record.title, markdown(record)),
        occurs("## 文字记录\n\n"@ + trim(shown_transcript(record)), markdown(record)),
        record.report matches Some(report) ==> !is_blank(report) ==> occurs(
            "## 汇总报告\n\n"@ + trim(report),
            markdown(record),
        ),
{
    reveal_strlit("## 文字记录\n\n");
    reveal_strlit("\n\n## 文字记录\n\n");
    reveal_strlit("## 汇总报告\n\n");
    reveal_strlit("\n## 汇总报告\n\n");
    let all = markdown(record);
    let head = "# "@;
    lemma_occurs(head, record.title, all.skip((head.len() + record.title.len()) as int), all);
    let text = "## 文字记录\n\n"@ + trim(shown_transcript(record));
    let before = "# "@ + record.title + "\n\n- 时间："@ + shown_time(record) + "\n- 时长："@ + duration_form(
        record.duration_ms as nat,
    ) + "\n- 来源："@ + source_name(record.audio_source) + "\n\n"@;
    reveal_strlit("\n\n");
    assert("\n\n## 文字记录\n\n"@ =~= "\n\n"@ + "## 文字记录\n\n"@);
    lemma_occurs(before, text, all.skip((before.len() + text.len()) as int), all);
    match record.report {
        Some(report) => {
            if !is_blank(report) {
                let text = "## 汇总报告\n\n"@ + trim(report);
                let before = markdown_head(record) + trim(shown_transcript(record)) + "\n"@
                    + markdown_speakers(record) + "\n"@;
                reveal_strlit("\n");
                assert("\n## 汇总报告\n\n"@ =~= "\n"@ + "## 汇总报告\n\n"@);
                lemma_occurs(before, text, "\n"@, all);
            }
        },
        None => {},
    }
}

/// A part of a text occurs in it.
proof fn lemma_occurs(before: Seq<char>, part: Seq<char>, after: Seq<char>, whole: Seq<char>)
    requires
        whole =~= before + part + after,
    ensures
        occurs(part, whole),
{
    assert(whole.subrange(before.len() as int, (before.len() + part.len()) as int) =~= part);
    assert(crate::text::occurs_at(part, whole, before.len() as int));
}

/// How a character is written in HTML.
pub open spec fn escaped_char(c: char) -> Seq<char> {
    if c == '&' {
        "&amp;"@
    } else if c == '<' {
        "&lt;"@
    } else if c == '>' {
        "&gt;"@
    } else if c == '"' {
        "&quot;"@
    } else {
        seq![c]
    }
}

/// A text as it is written in HTML.
pub open spec fn escaped(s: Seq<char>) -> Seq<char>
    decreases s.len(),
{
    if s.len() == 0 {
        s
    } else {
        escaped(s.drop_last()) + escaped_char(s.last())
    }
}

/// Writes a text in HTML.
pub fn escape_html(value: &str) -> (text: String)
    ensures
        text@ == escaped(value@),
{
    let chars = chars_of(value);
    let mut text = String::new();
    let mut i: usize = 0;
    while i < chars.len()
        invariant
            i <= chars@.len(),
            chars@ == value@,
            text@ == escaped(value@.take(i as int)),
        decreases chars@.len() - i,
    {
        let c = chars[i];
        assert(value@.take(i + 1).drop_last() == value@.take(i as int));
        if c == '&' {
            text.append("&amp;");
        } else if c == '<' {
            text.append("&lt;");
        } else if c == '>' {
            text.append("&gt;");
        } else if c == '"' {
            text.append("&quot;");
        } else {
            text.push(c);
        }
        i += 1;
    }
    assert(value@.take(i as int) == value@);
    text
}

/// A text written in HTML holds no character that opens or closes a tag or an attribute.
pub proof fn law_escaped_text_is_plain(s: Seq<char>, i: int)
    requires
        0 <= i < escaped(s).len(),
    ensures
        escaped(s)[i] != '<',
        escaped(s)[i] != '>',
        escaped(s)[i] != '"',
    decreases s.len(),
{
    reveal_strlit("&amp;");
    reveal_strlit("&lt;");
    reveal_strlit("&gt;");
    reveal_strlit("&quot;");
    let before = escaped(s.drop_last());
    if i < before.len() {
        law_escaped_text_is_plain(s.drop_last(), i);
    } else {
        assert(escaped(s)[i] == escaped_char(s.last())[i - before.len()]);
    }
}

/// A text without characters that need it is written in HTML as it is.
pub proof fn law_plain_text_is_not_changed(s: Seq<char>)
    requires
        forall|i: int|
            0 <= i < s.len() ==> #[trigger] s[i] != '&' && s[i] != '<' && s[i] != '>' && s[i] != '"',
    ensures
        escaped(s) == s,
    decreases s.len(),
{
    if s.len() > 0 {
        let rest = s.drop_last();
        assert forall|i: int| 0 <= i < rest.len() implies #[trigger] rest[i] != '&' && rest[i] != '<' && rest[i]
            != '>' && rest[i] != '"' by {
            assert(rest[i] == s[i]);
        }
        law_plain_text_is_not_changed(rest);
        assert(s[s.len() - 1] != '&');
        assert(escaped(s) =~= s);
    }
}

/// Different texts are written differently in HTML: nothing is lost.
pub proof fn law_escaping_loses_nothing(left: Seq<char>, right: Seq<char>)
    requires
        escaped(left) == escaped(right),
    ensures
        left == right,
    decreases left.len(),
{
    reveal_strlit("&amp;");
    reveal_strlit("&lt;");
    reveal_strlit("&gt;");
    reveal_strlit("&quot;");
    if left.len() > 0 {
        lemma_escaped_from_the_start(left);
    }
    if right.len() > 0 {
        lemma_escaped_from_the_start(right);
    }
    if left.len() > 0 && right.len() > 0 {
        let first = escaped_char(left[0]);
        let other = escaped_char(right[0]);
        assert(escaped(left)[0] == first[0] && escaped(right)[0] == other[0]);
        if first.len() > 1 && other.len() > 1 {
            assert(escaped(left)[1] == first[1] && escaped(right)[1] == other[1]);
        }
        assert(left[0] == right[0]);
        assert(escaped(left).skip(first.len() as int) =~= escaped(left.drop_first()));
        assert(escaped(right).skip(first.len() as int) =~= escaped(right.drop_first()));
        law_escaping_loses_nothing(left.drop_first(), right.drop_first());
        assert(left =~= seq![left[0]] + left.drop_first());
        assert(right =~= seq![right[0]] + right.drop_first());
    } else {
        assert(left =~= right);
    }
}

/// A text in HTML starts with its first character.
proof fn lemma_escaped_from_the_start(s: Seq<char>)
    requires
        s.len() > 0,
    ensures
        escaped(s) == escaped_char(s[0]) + escaped(s.drop_first()),
    decreases s.len(),
{
    if s.len() == 1 {
        assert(s.drop_last() =~= Seq::empty());
        assert(s.drop_first() =~= Seq::empty());
        assert(escaped(s) =~= escaped_char(s[0]) + escaped(s.drop_first()));
    } else {
        lemma_escaped_from_the_start(s.drop_last());
        assert(s.drop_last().drop_first() =~= s.drop_first().drop_last());
        assert(escaped(s) =~= escaped_char(s[0]) + escaped(s.drop_first()));
    }
}

/// What stands above the title in HTML.
pub const HTML_HEAD: &'static str = "<!doctype html><html lang=\"zh-CN\"><head><meta charset=\"utf-8\"><style>\n@page { size: A4; margin: 18mm; } body { color:#17191f; font-family:\"Microsoft YaHei\",\"SimHei\",sans-serif; font-size:11pt; line-height:1.75; }\nh1 { font-size:22pt; margin:0 0 8mm; } h2 { font-size:15pt; margin:9mm 0 3mm; border-bottom:1px solid #d9dde5; padding-bottom:2mm; }\n .meta { color:#606775; margin-bottom:8mm; } .content { white-space:pre-wrap; overflow-wrap:anywhere; }\n .speakers { list-style:none; padding:0; } .speakers li { display:flex; justify-content:space-between; border-bottom:1px solid #eceef2; padding:2mm 0; }\n </style></head><body><h1>";

/// A segment of the timeline in HTML.
pub open spec fn html_row(segment: SpeakerSegment) -> Seq<char> {
    "<li><span>"@ + offset_form(segment.start_ms as nat) + " - "@ + offset_form(segment.end_ms as nat)
        + "</span><strong>说话人 "@ + decimal((segment.speaker + 1) as nat) + "</strong></li>"@
}

/// The segments of the timeline in HTML.
pub open spec fn html_rows(segments: Seq<SpeakerSegment>) -> Seq<char>
    decreases segments.len(),
{
    if segments.len() == 0 {
        Seq::empty()
    } else {
        html_rows(segments.drop_last()) + html_row(segments.last())
    }
}

/// The timeline of the speakers in HTML, where there is one.
pub open spec fn html_speakers(record: RecordView) -> Seq<char> {
    if record.speaker_segments.len() == 0 {
        Seq::empty()
    } else {
        "<section><h2>说话人分离</h2><p>共检测到 "@ + decimal(record.speaker_count as nat)
            + " 位说话人</p><ul class=\"speakers\">"@ + html_rows(record.speaker_segments) + "</ul></section>"@
    }
}

/// The report in HTML, where there is one that is not blank.
pub open spec fn html_report(record: RecordView) -> Seq<char> {
    match record.report {
        Some(report) if !is_blank(report) => "<section><h2>汇总报告</h2><div class=\"content\">"@ + escaped(report)
            + "</div></section>"@,
        _ => Seq::empty(),
    }
}

/// A recording in HTML.
pub open spec fn html(record: RecordView) -> Seq<char> {
    HTML_HEAD@ + escaped(record.title) + "</h1><div class=\"meta\">"@ + escaped(shown_time(record)) + " · "@
        + duration_form(record.duration_ms as nat)
        + "</div><section><h2>文字记录</h2><div class=\"content\">"@ + escaped(shown_transcript(record))
        + "</div></section>"@ + html_speakers(record) + html_report(record) + "</body></html>"@
}

/// The timeline of the speakers in HTML.
fn html_timeline(record: &RecordingEntry) -> (text: String)
    requires
        speakers_can_be_counted(record.speaker_segments@),
    ensures
        text@ == html_speakers(record@),
{
    if record.speaker_segments.len() == 0 {
        return String::new();
    }
    let mut rows = String::new();
    let mut i: usize = 0;
    while i < record.speaker_segments.len()
        invariant
            i <= record.speaker_segments@.len(),
            speakers_can_be_counted(record.speaker_segments@),
            rows@ == html_rows(record.speaker_segments@.take(i as int)),
        decreases record.speaker_segments@.len() - i,
    {
        let segment = record.speaker_segments[i];
        assert(record.speaker_segments@.take(i + 1).drop_last() == record.speaker_segments@.take(i as int));
        assert(record.speaker_segments@[i as int].speaker < u32::MAX);
        let row = "<li><span>".to_string().concat(format_offset(segment.start_ms).as_str()).concat(" - ").concat(
            format_offset(segment.end_ms).as_str(),
        ).concat("</span><strong>说话人 ").concat(decimal_text((segment.speaker + 1) as u64).as_str()).concat(
            "</strong></li>",
        );
        rows.append(row.as_str());
        i += 1;
    }
    assert(record.speaker_segments@.take(i as int) == record.speaker_segments@);
    "<section><h2>说话人分离</h2><p>共检测到 ".to_string().concat(
        decimal_text(record.speaker_count as u64).as_str(),
    ).concat(" 位说话人</p><ul class=\"speakers\">").concat(rows.as_str()).concat("</ul></section>")
}

/// Writes a recording in HTML.
pub fn html_document(record: &RecordingEntry) -> (document: String)
    requires
        speakers_can_be_counted(record.speaker_segments@),
    ensures
        document@ == html(record@),
{
    let report = match &record.report {
        Some(report) => if blank(report.as_str()) {
            String::new()
        } else {
            "<section><h2>汇总报告</h2><div class=\"content\">".to_string().concat(
                escape_html(report.as_str()).as_str(),
            ).concat("</div></section>")
        },
        None => String::new(),
    };
    assert(report@ =~= html_report(record@));
    HTML_HEAD.to_string().concat(escape_html(record.title.as_str()).as_str()).concat("</h1><div class=\"meta\">").concat(
        escape_html(time_of(record)).as_str(),
    ).concat(" · ").concat(format_duration(record.duration_ms).as_str()).concat(
        "</div><section><h2>文字记录</h2><div class=\"content\">",
    ).concat(escape_html(transcript_of(record)).as_str()).concat("</div></section>").concat(
        html_timeline(record).as_str(),
    ).concat(report.as_str()).concat("</body></html>")
}

/// The formats that recordings are exported in.
#[derive(Clone, Copy, Debug, PartialEq, Eq, Structural)]
pub enum ExportFormat {
    Markdown,
    Pdf,
}

/// The format with the name `format`.
pub fn export_format(format: &str) -> (found: Result<ExportFormat, String>)
    ensures
        if format@ == "markdown"@ {
            found == Ok::<ExportFormat, String>(ExportFormat::Markdown)
        } else if format@ == "pdf"@ {
            found == Ok::<ExportFormat, String>(ExportFormat::Pdf)
        } else {
            found is Err && found->Err_0@ == "不支持的导出格式"@
        },
{
    if same_text(format, "markdown") {
        Ok(ExportFormat::Markdown)
    } else if same_text(format, "pdf") {
        Ok(ExportFormat::Pdf)
    } else {
        Err("不支持的导出格式".to_string())
    }
}

/// The address of a local file: slashes for backslashes, and spaces written out.
pub open spec fn file_url(path: Seq<char>) -> Seq<char> {
    "file:///"@ + replace_char(replace_char(path, '\\', "/"@), ' ', "%20"@)
}

/// What the browser is started with to print the page at `html_path` into the file at `pdf_path`.
pub fn print_arguments(html_path: &str, pdf_path: &str) -> (arguments: Vec<String>)
    ensures
        crate::text::views(arguments@) == seq![
            "--headless"@,
            "--disable-gpu"@,
            "--no-pdf-header-footer"@,
            "--print-to-pdf="@ + pdf_path@,
            file_url(html_path@),
        ],
{
    let slashed = with_char_replaced(html_path, '\\', "/");
    let url = "file:///".to_string().concat(with_char_replaced(slashed.as_str(), ' ', "%20").as_str());
    let arguments = vec![
        "--headless".to_string(),
        "--disable-gpu".to_string(),
        "--no-pdf-header-footer".to_string(),
        "--print-to-pdf=".to_string().concat(pdf_path),
        url,
    ];
    assert(crate::text::views(arguments@) =~= seq![
        "--headless"@,
        "--disable-gpu"@,
        "--no-pdf-header-footer"@,
        "--print-to-pdf="@ + pdf_path@,
        file_url(html_path@),
    ]);
    arguments
}

/// What came of printing: `printed` says whether the browser ended well, `written` whether the
/// file is there, and `complaint` is what the browser said.
pub fn print_outcome(printed: bool, written: bool, complaint: &str) -> (outcome: Result<(), String>)
    ensures
        if printed && written {
            outcome is Ok
        } else {
            outcome is Err && outcome->Err_0@ == "生成 PDF 失败："@ + trim(complaint@)
        },
{
    if !printed || !written {
        return Err("生成 PDF 失败：".to_string().concat(trimmed(complaint).as_str()));
    }
    Ok(())
}

/// Where a record holds no transcript that was put in order, or a blank one, the documents hold the
/// transcript as it was heard; else they hold the one put in order.
pub proof fn law_documents_hold_the_transcript(record: RecordView)
    ensures
        record.formatted_transcript is None ==> occurs(
            "## 文字记录\n\n"@ + trim(record.raw_transcript) + "\n"@,
            markdown(record),
        ) && occurs("<div class=\"content\">"@ + escaped(record.raw_transcript) + "</div>"@, html(record)),
        record.formatted_transcript is Some && is_blank(record.formatted_transcript->0) ==> occurs(
            "## 文字记录\n\n"@ + trim(record.raw_transcript) + "\n"@,
            markdown(record),
        ) && occurs("<div class=\"content\">"@ + escaped(record.raw_transcript) + "</div>"@, html(record)),
        record.formatted_transcript is Some && !is_blank(record.formatted_transcript->0) ==> occurs(
            "## 文字记录\n\n"@ + trim(record.formatted_transcript->0) + "\n"@,
            markdown(record),
        ) && occurs("<div class=\"content\">"@ + escaped(record.formatted_transcript->0) + "</div>"@, html(record)),
{
    crate::recording_store::law_the_raw_transcript_stands_in(record);
    lemma_markdown_transcript(record);
    lemma_html_transcript(record);
}

/// The transcript that is shown stands in the Markdown document, to its end.
proof fn lemma_markdown_transcript(record: RecordView)
    ensures
        occurs("## 文字记录\n\n"@ + trim(shown_transcript(record)) + "\n"@, markdown(record)),
{
    reveal_strlit("## 文字记录\n\n");
    reveal_strlit("\n\n## 文字记录\n\n");
    reveal_strlit("\n\n");
    let text = "## 文字记录\n\n"@ + trim(shown_transcript(record)) + "\n"@;
    let before = "# "@ + record.title + "\n\n- 时间："@ + shown_time(record) + "\n- 时长："@ + duration_form(
        record.duration_ms as nat,
    ) + "\n- 来源："@ + source_name(record.audio_source) + "\n\n"@;
    assert("\n\n## 文字记录\n\n"@ =~= "\n\n"@ + "## 文字记录\n\n"@);
    lemma_occurs(before, text, markdown_speakers(record) + markdown_report(record), markdown(record));
}

/// The transcript that is shown stands in the HTML document, to its end.
proof fn lemma_html_transcript(record: RecordView)
    ensures
        occurs("<div class=\"content\">"@ + escaped(shown_transcript(record)) + "</div>"@, html(record)),
{
    reveal_strlit("<div class=\"content\">");
    reveal_strlit("</div><section><h2>文字记录</h2>");
    reveal_strlit("</div><section><h2>文字记录</h2><div class=\"content\">");
    reveal_strlit("</div></section>");
    reveal_strlit("</div>");
    reveal_strlit("</section>");
    assert("</div><section><h2>文字记录</h2><div class=\"content\">"@ =~= "</div><section><h2>文字记录</h2>"@
        + "<div class=\"content\">"@);
    assert("</div></section>"@ =~= "</div>"@ + "</section>"@);
    let before = HTML_HEAD@ + escaped(record.title) + "</h1><div class=\"meta\">"@ + escaped(shown_time(record))
        + " · "@ + duration_form(record.duration_ms as nat) + "</div><section><h2>文字记录</h2>"@;
    let text = "<div class=\"content\">"@ + escaped(shown_transcript(record)) + "</div>"@;
    let after = "</section>"@ + html_speakers(record) + html_report(record) + "</body></html>"@;
    lemma_occurs(before, text, after, html(record));
}

/// The documents say when the recording ended, or else when it started, and how long it is.
pub proof fn law_documents_say_when(record: RecordView)
    ensures
        record.ended_at is Some ==> occurs("时间："@ + record.ended_at->0, markdown(record)) && occurs(
            escaped(record.ended_at->0),
            html(record),
        ),
        record.ended_at is None ==> occurs("时间："@ + record.started_at, markdown(record)) && occurs(
            escaped(record.started_at),
            html(record),
        ),
        occurs("时长："@ + duration_form(record.duration_ms as nat), markdown(record)),
        occurs(duration_form(record.duration_ms as nat), html(record)),
{
    lemma_markdown_time(record);
    lemma_markdown_length(record);
    lemma_html_time(record);
}

/// The time that is shown stands in the Markdown document.
proof fn lemma_markdown_time(record: RecordView)
    ensures
        occurs("时间："@ + shown_time(record), markdown(record)),
{
    reveal_strlit("\n\n- ");
    reveal_strlit("时间：");
    reveal_strlit("\n\n- 时间：");
    assert("\n\n- 时间："@ =~= "\n\n- "@ + "时间："@);
    let all = markdown(record);
    let before = "# "@ + record.title + "\n\n- "@;
    let part = "时间："@ + shown_time(record);
    lemma_occurs(before, part, all.skip((before.len() + part.len()) as int), all);
}

/// The length stands in the Markdown document.
proof fn lemma_markdown_length(record: RecordView)
    ensures
        occurs("时长："@ + duration_form(record.duration_ms as nat), markdown(record)),
{
    reveal_strlit("\n- ");
    reveal_strlit("时长：");
    reveal_strlit("\n- 时长：");
    assert("\n- 时长："@ =~= "\n- "@ + "时长："@);
    let all = markdown(record);
    let before = "# "@ + record.title + "\n\n- 时间："@ + shown_time(record) + "\n- "@;
    let part = "时长："@ + duration_form(record.duration_ms as nat);
    lemma_occurs(before, part, all.skip((before.len() + part.len()) as int), all);
}

/// The time that is shown and the length stand in the HTML document.
proof fn lemma_html_time(record: RecordView)
    ensures
        occurs(escaped(shown_time(record)), html(record)),
        occurs(duration_form(record.duration_ms as nat), html(record)),
{
    let all = html(record);
    let before = HTML_HEAD@ + escaped(record.title) + "</h1><div class=\"meta\">"@;
    let time = escaped(shown_time(record));
    lemma_occurs(before, time, all.skip((before.len() + time.len()) as int), all);
    let ahead = before + time + " · "@;
    let length = duration_form(record.duration_ms as nat);
    lemma_occurs(ahead, length, all.skip((ahead.len() + length.len()) as int), all);
}

/// The HTML document holds the title, and the report where there is one that is not blank.
pub proof fn law_html_holds_the_texts(record: RecordView)
    ensures
        occurs(escaped(record.title) + "</h1>"@, html(record)),
        record.report is Some && !is_blank(record.report->0) ==> occurs(escaped(record.report->0), html(record)),
{
    lemma_html_title(record);
    if record.report is Some && !is_blank(record.report->0) {
        lemma_html_report(record);
    }
}

/// The title stands in the HTML document.
proof fn lemma_html_title(record: RecordView)
    ensures
        occurs(escaped(record.title) + "</h1>"@, html(record)),
{
    reveal_strlit("</h1><div class=\"meta\">");
    reveal_strlit("</h1>");
    reveal_strlit("<div class=\"meta\">");
    assert("</h1><div class=\"meta\">"@ =~= "</h1>"@ + "<div class=\"meta\">"@);
    let all = html(record);
    let part = escaped(record.title) + "</h1>"@;
    lemma_occurs(HTML_HEAD@, part, all.skip((HTML_HEAD@.len() + part.len()) as int), all);
}

/// The report stands in the HTML document.
proof fn lemma_html_report(record: RecordView)
    requires
        record.report is Some,
        !is_blank(record.report->0),
    ensures
        occurs(escaped(record.report->0), html(record)),
{
    let part = escaped(record.report->0);
    let opening = "<section><h2>汇总报告</h2><div class=\"content\">"@;
    lemma_occurs(opening, part, "</div></section>"@, html_report(record));
    lemma_html_parts(record);
    lemma_occurs_within(
        part,
        html_before_speakers(record) + html_speakers(record),
        html_report(record),
        "</body></html>"@,
        html(record),
    );
}

/// The parts of the HTML document.
proof fn lemma_html_parts(record: RecordView)
    ensures
        html(record) == html_before_speakers(record) + html_speakers(record) + html_report(record)
            + "</body></html>"@,
{
}

/// What occurs in a part of a text occurs in it.
proof fn lemma_occurs_within(
    part: Seq<char>,
    before: Seq<char>,
    middle: Seq<char>,
    after: Seq<char>,
    whole: Seq<char>,
)
    requires
        occurs(part, middle),
        whole == before + middle + after,
    ensures
        occurs(part, whole),
{
    let i = choose|i: int| crate::text::occurs_at(part, middle, i);
    let at = before.len() + i;
    assert(whole.subrange(at, at + part.len()) =~= middle.subrange(i, i + part.len()));
    assert(crate::text::occurs_at(part, whole, at));
}

/// Each stretch of a speaker is in both documents, with where it starts and ends and the number of
/// the speaker, counted from one.
pub proof fn law_documents_show_each_speaker(record: RecordView, i: int)
    requires
        0 <= i < record.speaker_segments.len(),
    ensures
        ({
            let segment = record.speaker_segments[i];
            &&& occurs(
                offset_form(segment.start_ms as nat) + " - "@ + offset_form(segment.end_ms as nat) + "：说话人 "@
                    + decimal((segment.speaker + 1) as nat) + "\n"@,
                markdown(record),
            )
            &&& occurs(
                offset_form(segment.start_ms as nat) + " - "@ + offset_form(segment.end_ms as nat)
                    + "</span><strong>说话人 "@ + decimal((segment.speaker + 1) as nat) + "</strong></li>"@,
                html(record),
            )
        }),
{
    lemma_markdown_speaker(record, i);
    lemma_html_speaker(record, i);
}

/// A segment of the timeline stands in the Markdown document.
proof fn lemma_markdown_speaker(record: RecordView, i: int)
    requires
        0 <= i < record.speaker_segments.len(),
    ensures
        occurs(
            offset_form(record.speaker_segments[i].start_ms as nat) + " - "@ + offset_form(
                record.speaker_segments[i].end_ms as nat,
            ) + "：说话人 "@ + decimal((record.speaker_segments[i].speaker + 1) as nat) + "\n"@,
            markdown(record),
        ),
{
    let segment = record.speaker_segments[i];
    let around = lemma_markdown_row(record.speaker_segments, i);
    let rows = markdown_rows(record.speaker_segments);
    let part = offset_form(segment.start_ms as nat) + " - "@ + offset_form(segment.end_ms as nat) + "：说话人 "@
        + decimal((segment.speaker + 1) as nat) + "\n"@;
    lemma_occurs("- "@, part, Seq::empty(), markdown_row(segment));
    lemma_occurs_within(part, around.0, markdown_row(segment), around.1, rows);
    let opening = "\n## 说话人分离\n\n共检测到 "@ + decimal(record.speaker_count as nat) + " 位说话人。\n\n"@;
    assert(markdown_speakers(record) =~= opening + rows + Seq::<char>::empty());
    lemma_occurs_within(part, opening, rows, Seq::empty(), markdown_speakers(record));
    lemma_occurs_within(
        part,
        markdown_head(record) + trim(shown_transcript(record)) + "\n"@,
        markdown_speakers(record),
        markdown_report(record),
        markdown(record),
    );
}

/// A segment of the timeline stands in the HTML document.
proof fn lemma_html_speaker(record: RecordView, i: int)
    requires
        0 <= i < record.speaker_segments.len(),
    ensures
        occurs(
            offset_form(record.speaker_segments[i].start_ms as nat) + " - "@ + offset_form(
                record.speaker_segments[i].end_ms as nat,
            ) + "</span><strong>说话人 "@ + decimal((record.speaker_segments[i].speaker + 1) as nat)
                + "</strong></li>"@,
            html(record),
        ),
{
    let segment = record.speaker_segments[i];
    let around = lemma_html_row(record.speaker_segments, i);
    let rows = html_rows(record.speaker_segments);
    let part = offset_form(segment.start_ms as nat) + " - "@ + offset_form(segment.end_ms as nat)
        + "</span><strong>说话人 "@ + decimal((segment.speaker + 1) as nat) + "</strong></li>"@;
    lemma_occurs("<li><span>"@, part, Seq::empty(), html_row(segment));
    lemma_occurs_within(part, around.0, html_row(segment), around.1, rows);
    let opening = "<section><h2>说话人分离</h2><p>共检测到 "@ + decimal(record.speaker_count as nat)
        + " 位说话人</p><ul class=\"speakers\">"@;
    lemma_occurs_within(part, opening, rows, "</ul></section>"@, html_speakers(record));
    lemma_html_parts(record);
    let tail = html_report(record) + "</body></html>"@;
    assert(html(record) =~= html_before_speakers(record) + html_speakers(record) + tail);
    lemma_occurs_within(part, html_before_speakers(record), html_speakers(record), tail, html(record));
}

/// What stands before the timeline in HTML.
spec fn html_before_speakers(record: RecordView) -> Seq<char> {
    HTML_HEAD@ + escaped(record.title) + "</h1><div class=\"meta\">"@ + escaped(shown_time(record)) + " · "@
        + duration_form(record.duration_ms as nat)
        + "</div><section><h2>文字记录</h2><div class=\"content\">"@ + escaped(shown_transcript(record))
        + "</div></section>"@
}

/// The documents say how many speakers were told apart, where there is a timeline.
pub proof fn law_documents_count_the_speakers(record: RecordView)
    requires
        record.speaker_segments.len() > 0,
    ensures
        occurs("共检测到 "@ + decimal(record.speaker_count as nat) + " 位说话人"@, markdown(record)),
        occurs("共检测到 "@ + decimal(record.speaker_count as nat) + " 位说话人"@, html(record)),
{
    let part = "共检测到 "@ + decimal(record.speaker_count as nat) + " 位说话人"@;
    reveal_strlit("共检测到 ");
    reveal_strlit(" 位说话人");
    reveal_strlit("\n## 说话人分离\n\n共检测到 ");
    reveal_strlit("\n## 说话人分离\n\n");
    reveal_strlit(" 位说话人。\n\n");
    reveal_strlit("。\n\n");
    reveal_strlit("<section><h2>说话人分离</h2><p>");
    reveal_strlit("<section><h2>说话人分离</h2><p>共检测到 ");
    reveal_strlit(" 位说话人</p><ul class=\"speakers\">");
    reveal_strlit("</p><ul class=\"speakers\">");
    assert("\n## 说话人分离\n\n共检测到 "@ =~= "\n## 说话人分离\n\n"@ + "共检测到 "@);
    assert(" 位说话人。\n\n"@ =~= " 位说话人"@ + "。\n\n"@);
    assert("<section><h2>说话人分离</h2><p>共检测到 "@ =~= "<section><h2>说话人分离</h2><p>"@ + "共检测到 "@);
    assert(" 位说话人</p><ul class=\"speakers\">"@ =~= " 位说话人"@ + "</p><ul class=\"speakers\">"@);
    lemma_occurs(
        "\n## 说话人分离\n\n"@,
        part,
        "。\n\n"@ + markdown_rows(record.speaker_segments),
        markdown_speakers(record),
    );
    lemma_occurs_within(
        part,
        markdown_head(record) + trim(shown_transcript(record)) + "\n"@,
        markdown_speakers(record),
        markdown_report(record),
        markdown(record),
    );
    lemma_occurs(
        "<section><h2>说话人分离</h2><p>"@,
        part,
        "</p><ul class=\"speakers\">"@ + html_rows(record.speaker_segments) + "</ul></section>"@,
        html_speakers(record),
    );
    lemma_html_parts(record);
    let tail = html_report(record) + "</body></html>"@;
    assert(html(record) =~= html_before_speakers(record) + html_speakers(record) + tail);
    lemma_occurs_within(part, html_before_speakers(record), html_speakers(record), tail, html(record));
}

/// What stands before and after a segment in the timeline in Markdown.
proof fn lemma_markdown_row(segments: Seq<SpeakerSegment>, i: int) -> (around: (Seq<char>, Seq<char>))
    requires
        0 <= i < segments.len(),
    ensures
        markdown_rows(segments) == around.0 + markdown_row(segments[i]) + around.1,
    decreases segments.len(),
{
    if i == segments.len() - 1 {
        let around = (markdown_rows(segments.drop_last()), Seq::<char>::empty());
        assert(markdown_rows(segments) =~= around.0 + markdown_row(segments[i]) + around.1);
        around
    } else {
        let inner = lemma_markdown_row(segments.drop_last(), i);
        let around = (inner.0, inner.1 + markdown_row(segments.last()));
        assert(markdown_rows(segments) =~= around.0 + markdown_row(segments[i]) + around.1);
        around
    }
}

/// What stands before and after a segment in the timeline in HTML.
proof fn lemma_html_row(segments: Seq<SpeakerSegment>, i: int) -> (around: (Seq<char>, Seq<char>))
    requires
        0 <= i < segments.len(),
    ensures
        html_rows(segments) == around.0 + html_row(segments[i]) + around.1,
    decreases segments.len(),
{
    if i == segments.len() - 1 {
        let around = (html_rows(segments.drop_last()), Seq::<char>::empty());
        assert(html_rows(segments) =~= around.0 + html_row(segments[i]) + around.1);
        around
    } else {
        let inner = lemma_html_row(segments.drop_last(), i);
        let around = (inner.0, inner.1 + html_row(segments.last()));
        assert(html_rows(segments) =~= around.0 + html_row(segments[i]) + around.1);
        around
    }
}

/// A length of so many minutes, seconds and milliseconds is written with these numbers, the minutes
/// and seconds with at least two digits and the milliseconds with three.
pub proof fn law_lengths_are_minutes_and_seconds(minutes: nat, seconds: nat, rest: nat)
    requires
        seconds < 60,
        rest < 1_000,
    ensures
        duration_form((minutes * 60 + seconds) * 1_000 + rest) == padded_decimal(minutes, 2) + ":"@ + padded_decimal(
            seconds,
            2,
        ),
        offset_form((minutes * 60 + seconds) * 1_000 + rest) == padded_decimal(minutes, 2) + ":"@ + padded_decimal(
            seconds,
            2,
        ) + "."@ + padded_decimal(rest, 3),
{
    let ms: nat = (minutes * 60 + seconds) * 1_000 + rest;
    assert(ms / 1_000 == minutes * 60 + seconds);
    assert(ms % 1_000 == rest);
    assert((minutes * 60 + seconds) / 60 == minutes);
    assert((minutes * 60 + seconds) % 60 == seconds);
}

/// The address of a local file holds no backslash and no space, and keeps the rest of the path.
pub proof fn law_addresses_of_files_are_plain(path: Seq<char>)
    ensures
        "file:///"@.is_prefix_of(file_url(path)),
        !file_url(path).contains('\\'),
        !file_url(path).contains(' '),
        !path.contains('\\') && !path.contains(' ') ==> file_url(path) == "file:///"@ + path,
{
    reveal_strlit("file:///");
    reveal_strlit("/");
    reveal_strlit("%20");
    let slashed = replace_char(path, '\\', "/"@);
    let spaced = replace_char(slashed, ' ', "%20"@);
    crate::text::law_replacing_changes_one_character(path, path, '\\', "/"@);
    crate::text::law_replacing_changes_one_character(slashed, slashed, ' ', "%20"@);
    assert("file:///"@ =~= file_url(path).subrange(0, "file:///"@.len() as int));
    lemma_no_backslash_comes_in(slashed);
    assert forall|i: int| 0 <= i < file_url(path).len() implies #[trigger] file_url(path)[i] != '\\'
        && file_url(path)[i] != ' ' by {
        if i >= 8 {
            assert(file_url(path)[i] == spaced[i - 8]);
            assert(spaced.contains(spaced[i - 8]));
        }
    }
}

/// Writing out spaces brings no backslash in.
proof fn lemma_no_backslash_comes_in(s: Seq<char>)
    requires
        !s.contains('\\'),
    ensures
        !replace_char(s, ' ', "%20"@).contains('\\'),
    decreases s.len(),
{
    reveal_strlit("%20");
    if s.len() > 0 {
        let rest = s.drop_last();
        assert forall|i: int| 0 <= i < rest.len() implies #[trigger] rest[i] != '\\' by {
            assert(s.contains(s[i]));
        }
        assert(s.contains(s.last()));
        lemma_no_backslash_comes_in(rest);
        let before = replace_char(rest, ' ', "%20"@);
        let all = replace_char(s, ' ', "%20"@);
        assert forall|i: int| 0 <= i < all.len() implies #[trigger] all[i] != '\\' by {
            if i < before.len() {
                assert(before.contains(before[i]));
            }
        }
    }
}

/// Each kind of audio source has a name of its own.
pub proof fn law_sources_are_named_apart()
    ensures
        source_name("microphone"@) != source_name("process"@),
        source_name("microphone"@) != source_name("microphone_and_process"@),
        source_name("process"@) != source_name("microphone_and_process"@),
{
    reveal_strlit("microphone");
    reveal_strlit("process");
    reveal_strlit("microphone_and_process");
    reveal_strlit("程序音频");
    reveal_strlit("麦克风 + 程序音频");
    reveal_strlit("麦克风");
    assert("microphone"@.len() == 10 && "process"@.len() == 7 && "microphone_and_process"@.len() == 22);
    assert("程序音频"@.len() == 4 && "麦克风"@.len() == 3 && "麦克风 + 程序音频"@.len() == 10);
}

/// The documents of a recording whose transcript was not put in order hold the transcript as it was
/// heard.
pub proof fn law_exports_hold_the_raw_transcript(record: &RecordingEntry, document: String, page: String)
    requires
        call_ensures(markdown_document, (record,), document),
        call_ensures(html_document, (record,), page),
        record.formatted_transcript is None,
    ensures
        occurs(trim(record.raw_transcript@), document@),
        occurs(escaped(record.raw_transcript@), page@),
        occurs(record.title@, document@),
{
    let shown = trim(record.raw_transcript@);
    law_markdown_holds_the_texts(record@);
    crate::recording_store::law_the_raw_transcript_stands_in(record@);
    lemma_occurs(markdown_head(record@), shown, "\n"@ + markdown_speakers(record@) + markdown_report(record@), document@);
    let before = HTML_HEAD@ + escaped(record.title@) + "</h1><div class=\"meta\">"@ + escaped(shown_time(record@)) + " · "@
        + duration_form(record.duration_ms as nat) + "</div><section><h2>文字记录</h2><div class=\"content\">"@;
    let after = "</div></section>"@ + html_speakers(record@) + html_report(record@) + "</body></html>"@;
    lemma_occurs(before, escaped(record.raw_transcript@), after, page@);
}

/// Printing went well exactly when the browser ended well and the file is there; otherwise what the
/// browser said is told.
pub proof fn law_failed_printing_says_why(printed: bool, written: bool, complaint: &str, outcome: Result<(), String>)
    requires
        call_ensures(print_outcome, (printed, written, complaint), outcome),
    ensures
        outcome is Ok <==> printed && written,
        outcome is Err ==> trim(complaint@).is_suffix_of(outcome->Err_0@),
{
    if outcome is Err {
        let said = outcome->Err_0@;
        let reason = trim(complaint@);
        assert(said.subrange(said.len() - reason.len(), said.len() as int) =~= reason);
    }
}

/// Each format is known by its own name, and nothing else is a format.
pub proof fn law_formats_have_their_names(format: &str, found: Result<ExportFormat, String>)
    requires
        call_ensures(export_format, (format,), found),
    ensures
        found == Ok::<ExportFormat, String>(ExportFormat::Markdown) <==> format@ == "markdown"@,
        found == Ok::<ExportFormat, String>(ExportFormat::Pdf) <==> format@ == "pdf"@,
        found is Err <==> format@ != "markdown"@ && format@ != "pdf"@,
{
    reveal_strlit("markdown");
    reveal_strlit("pdf");
    assert("markdown"@.len() == 8 && "pdf"@.len() == 3);
}

/// A recording without a timeline and without a report is exported as its transcript alone: nothing
/// follows it.
pub proof fn law_nothing_follows_the_transcript_alone(record: RecordView)
    requires
        record.speaker_segments.len() == 0,
        record.report is None || is_blank(record.report->0),
    ensures
        ("## 文字记录\n\n"@ + trim(shown_transcript(record)) + "\n"@).is_suffix_of(markdown(record)),
        (escaped(shown_transcript(record)) + "</div></section>"@ + "</body></html>"@).is_suffix_of(html(record)),
{
    reveal_strlit("## 文字记录\n\n");
    reveal_strlit("\n\n## 文字记录\n\n");
    let part = "## 文字记录\n\n"@ + trim(shown_transcript(record)) + "\n"@;
    let all = markdown(record);
    assert(all.subrange(all.len() - part.len(), all.len() as int) =~= part) by {
        assert(markdown_speakers(record).len() == 0 && markdown_report(record).len() == 0);
    }
    let part = escaped(shown_transcript(record)) + "</div></section>"@ + "</body></html>"@;
    let page = html(record);
    assert(page.subrange(page.len() - part.len(), page.len() as int) =~= part) by {
        assert(html_speakers(record).len() == 0 && html_report(record).len() == 0);
    }
}

/// A timeline is written segment by segment, in its order and with nothing between, before or behind
/// its segments.
pub proof fn law_timelines_are_written_in_order(segments: Seq<SpeakerSegment>, segment: SpeakerSegment)
    ensures
        markdown_rows(segments.push(segment)) == markdown_rows(segments) + markdown_row(segment),
        html_rows(segments.push(segment)) == html_rows(segments) + html_row(segment),
        markdown_rows(Seq::empty()).len() == 0,
        html_rows(Seq::empty()).len() == 0,
{
    assert(segments.push(segment).drop_last() =~= segments);
}

} // verus!
