//! Recordings: what is kept of each, and how a record changes from its start to its report.

use vstd::prelude::*;

use crate::assistant::{text_request, AssistantRequest};
use crate::model_runtime::ModelTarget;
use crate::ordering::{comes_first, is_sorting_of, present, present_items, sort, text_le, Ranked};
use crate::speaker_diarization::{SpeakerDiarizationOutput, SpeakerSegment};
use crate::text::{
    ascii_alnum, blank, chars_of, copied, drop_end_while, drop_while, index_of_char, is_ascii_alnum, is_blank,
    position_of, string_of, trim, trimmed, trimmed_chars, white_chars,
};
use crate::transcript::option_view;
use crate::utc_time::{
    clock_stamp, clock_text, compact_stamp, compact_text, duration_ms, elapsed_ms, is_clock_stamp, is_compact_stamp,
    is_offset, local_offset, nanos_between, parse_rfc3339, read_time, rfc3339_millis, rfc3339_text, UtcTime,
};

verus! {

/// The file that a record is kept in, in the directory of its recording.
pub const RECORD_FILE: &'static str = "record.json";

/// The file that the audio is kept in, in the directory of its recording.
pub const AUDIO_FILE: &'static str = "audio.wav";

/// What is kept of a recording.
#[derive(Clone, Debug)]
pub struct RecordingEntry {
    pub id: String,
    pub title: String,
    pub started_at: String,
    pub ended_at: Option<String>,
    pub duration_ms: u64,
    pub audio_source: String,
    pub audio_path: String,
    pub raw_transcript: String,
    pub formatted_transcript: Option<String>,
    pub formatting_status: String,
    pub formatting_error: Option<String>,
    pub report: Option<String>,
    pub report_status: String,
    pub report_error: Option<String>,
    pub text_provider: Option<String>,
    pub text_model: Option<String>,
    pub speaker_count: u32,
    pub speaker_segments: Vec<SpeakerSegment>,
    pub diarization_status: String,
    pub diarization_error: Option<String>,
}

/// What is kept of a recording, as sequences.
pub struct RecordView {
    pub id: Seq<char>,
    pub title: Seq<char>,
    pub started_at: Seq<char>,
    pub ended_at: Option<Seq<char>>,
    pub duration_ms: u64,
    pub audio_source: Seq<char>,
    pub audio_path: Seq<char>,
    pub raw_transcript: Seq<char>,
    pub formatted_transcript: Option<Seq<char>>,
    pub formatting_status: Seq<char>,
    pub formatting_error: Option<Seq<char>>,
    pub report: Option<Seq<char>>,
    pub report_status: Seq<char>,
    pub report_error: Option<Seq<char>>,
    pub text_provider: Option<Seq<char>>,
    pub text_model: Option<Seq<char>>,
    pub speaker_count: u32,
    pub speaker_segments: Seq<SpeakerSegment>,
    pub diarization_status: Seq<char>,
    pub diarization_error: Option<Seq<char>>,
}

impl View for RecordingEntry {
    type V = RecordView;

    open spec fn view(&self) -> RecordView {
        RecordView {
            id: self.id@,
            title: self.title@,
            started_at: self.started_at@,
            ended_at: option_view(self.ended_at),
            duration_ms: self.duration_ms,
            audio_source: self.audio_source@,
            audio_path: self.audio_path@,
            raw_transcript: self.raw_transcript@,
            formatted_transcript: option_view(self.formatted_transcript),
            formatting_status: self.formatting_status@,
            formatting_error: option_view(self.formatting_error),
            report: option_view(self.report),
            report_status: self.report_status@,
            report_error: option_view(self.report_error),
            text_provider: option_view(self.text_provider),
            text_model: option_view(self.text_model),
            speaker_count: self.speaker_count,
            speaker_segments: self.speaker_segments@,
            diarization_status: self.diarization_status@,
            diarization_error: option_view(self.diarization_error),
        }
    }
}

/// The state of speaker separation in a record that says nothing of it.
pub fn default_diarization_status() -> (status: String)
    ensures
        status@ == "none"@,
{
    "none".to_string()
}

/// Letters, digits, hyphens and underscores in ASCII, at least one.
pub open spec fn is_record_id(id: Seq<char>) -> bool {
    id.len() > 0 && forall|i: int|
        0 <= i < id.len() ==> is_ascii_alnum(#[trigger] id[i]) || id[i] == '-' || id[i] == '_'
}

/// Checks the identifier of a record, which is also the name of its directory.
pub fn validate_record_id(record_id: &str) -> (valid: Result<(), String>)
    ensures
        if is_record_id(record_id@) {
            valid is Ok
        } else {
            valid is Err && valid->Err_0@ == "录音记录编号无效"@
        },
{
    let chars = chars_of(record_id);
    if chars.len() == 0 {
        return Err("录音记录编号无效".to_string());
    }
    let mut i: usize = 0;
    while i < chars.len()
        invariant
            i <= chars@.len(),
            chars@ == record_id@,
            forall|j: int|
                0 <= j < i ==> is_ascii_alnum(#[trigger] record_id@[j]) || record_id@[j] == '-' || record_id@[j] == '_',
        decreases chars@.len() - i,
    {
        let c = chars[i];
        if !ascii_alnum(c) && c != '-' && c != '_' {
            assert(!is_ascii_alnum(record_id@[i as int]));
            return Err("录音记录编号无效".to_string());
        }
        i += 1;
    }
    Ok(())
}

/// The first line of `s` that is not blank, trimmed; empty where there is none.
pub open spec fn first_line(s: Seq<char>) -> Seq<char> {
    trim(trim(s).take(index_of_char(trim(s), '\n')))
}

/// The most characters of a title.
pub const TITLE_CHARS: usize = 28;

/// The title of a recording with the transcript `transcript`; `fallback` is its title where the
/// transcript is blank.
pub open spec fn title_with(transcript: Seq<char>, fallback: Seq<char>) -> Seq<char> {
    let line = first_line(transcript);
    if line.len() == 0 {
        fallback
    } else if line.len() > TITLE_CHARS {
        line.take(TITLE_CHARS as int) + "..."@
    } else {
        line
    }
}

/// The title that a transcript gives to its recording, where it is not blank.
pub fn title_from(transcript: &str) -> (title: Option<String>)
    ensures
        match title {
            Some(title) => first_line(transcript@).len() > 0 && forall|fallback: Seq<char>|
                title@ == #[trigger] title_with(transcript@, fallback),
            None => first_line(transcript@).len() == 0,
        },
{
    let all = trimmed_chars(&chars_of(transcript));
    let end: usize = position_of(&all, '\n');
    assert(all@.subrange(0, end as int) == all@.take(end as int));
    let line = trimmed_chars(&copied(&all, 0, end));
    if line.len() == 0 {
        None
    } else if line.len() > TITLE_CHARS {
        assert(line@.subrange(0, TITLE_CHARS as int) == line@.take(TITLE_CHARS as int));
        Some(string_of(&copied(&line, 0, TITLE_CHARS)).concat("..."))
    } else {
        Some(string_of(&line))
    }
}

/// What a recording that started at `started` is called where it has no text, by a clock that is
/// `offset` seconds ahead of UTC.
pub open spec fn clock_title(started: UtcTime, offset: i32) -> Seq<char> {
    "录音 "@ + clock_stamp(started.seconds, offset)
}

/// The title of a recording: the start of its transcript, or else the time `clock`.
pub fn title_with_clock(transcript: &str, clock: &str) -> (title: String)
    ensures
        title@ == title_with(transcript@, "录音 "@ + clock@),
{
    match title_from(transcript) {
        Some(title) => {
            assert(title@ == title_with(transcript@, "录音 "@ + clock@));
            title
        },
        None => "录音 ".to_string().concat(clock),
    }
}

/// The title of a recording: the start of its transcript, or else the time of its start, by a clock
/// that is `offset` seconds ahead of UTC.
pub fn title_at_offset(transcript: &str, started_at: UtcTime, offset: i32) -> (title: String)
    requires
        started_at.is_valid(),
        is_offset(offset),
    ensures
        title@ == title_with(transcript@, clock_title(started_at, offset)),
        is_clock_stamp(clock_stamp(started_at.seconds, offset)),
{
    title_with_clock(transcript, clock_text(started_at, offset).as_str())
}

/// The title of a recording: the start of its transcript, or else the local time of its start. Which
/// offset the local clock has rests on the time zone of the machine.
pub fn recording_title(transcript: &str, started_at: UtcTime) -> (title: String)
    requires
        started_at.is_valid(),
    ensures
        exists|offset: i32|
            {
                &&& is_offset(offset)
                &&& title@ == title_with(transcript@, #[trigger] clock_title(started_at, offset))
                &&& first_line(transcript@).len() == 0 ==> is_clock_stamp(
                    clock_stamp(started_at.seconds, offset),
                )
            },
{
    match title_from(transcript) {
        Some(title) => {
            assert(title@ == title_with(transcript@, clock_title(started_at, 0)));
            title
        },
        None => title_at_offset(transcript, started_at, local_offset(started_at)),
    }
}

/// A title that comes from a transcript is trimmed text of at most 28 characters, or 28 characters
/// and an ellipsis.
pub proof fn law_titles_are_short(transcript: Seq<char>, fallback: Seq<char>)
    requires
        !is_blank(first_line(transcript)),
    ensures
        0 < title_with(transcript, fallback).len() <= TITLE_CHARS + 3,
        title_with(transcript, fallback).take(1) == first_line(transcript).take(1),
        first_line(transcript).len() <= TITLE_CHARS ==> title_with(transcript, fallback) == first_line(transcript),
        first_line(transcript).len() > TITLE_CHARS ==> title_with(transcript, fallback).take(TITLE_CHARS as int)
            == first_line(transcript).take(TITLE_CHARS as int),
{
    reveal_strlit("...");
    let line = first_line(transcript);
    crate::text::lemma_trim_ends(line);
    if line.len() > TITLE_CHARS {
        let title = line.take(TITLE_CHARS as int) + "..."@;
        assert(title.take(1) =~= line.take(1));
        assert(title.take(TITLE_CHARS as int) =~= line.take(TITLE_CHARS as int));
    }
}

/// The line that gives a title is the first one that is not blank: `line`, where `before` holds
/// blank lines only and `rest` is what follows it.
pub proof fn law_titles_come_from_the_first_line(before: Seq<char>, line: Seq<char>, rest: Seq<char>)
    requires
        is_blank(before),
        before.len() > 0 ==> before.last() == '\n',
        !is_blank(line),
        !line.contains('\n'),
        rest.len() > 0 ==> rest[0] == '\n',
    ensures
        first_line(before + line + rest) == trim(line),
{
    let white = white_chars();
    let whole = before + line + rest;
    let front = drop_while(line, white);
    crate::text::lemma_blank_is_white(before);
    crate::text::lemma_drop_while_over(before, line + rest, white);
    assert(before + (line + rest) =~= whole);
    crate::text::lemma_drop_while(line, white);
    if front.len() == 0 {
        assert(trim(line) == front);
    }
    crate::text::lemma_drop_while_within(line, rest, white);
    assert(drop_while(whole, white) == front + rest);
    crate::text::lemma_drop_end_while(front, white);
    crate::text::lemma_drop_end_while(rest, white);
    assert forall|i: int| 0 <= i < front.len() implies #[trigger] front[i] != '\n' by {
        assert(front[i] == line[line.len() - front.len() + i]);
        assert(line.contains(front[i]));
    }
    let kept = drop_end_while(rest, white);
    crate::text::lemma_drop_end_while_over(front, rest, white);
    let shown = trim(whole);
    if kept.len() == 0 {
        assert(shown == trim(line));
        crate::text::lemma_no_such_char(shown, '\n');
        assert(shown.take(shown.len() as int) =~= shown);
        crate::text::lemma_trim_idempotent(line);
    } else {
        assert(shown == front + kept);
        assert(kept[0] == rest[0]);
        assert(shown[front.len() as int] == '\n');
        crate::text::lemma_index_of_char(shown, '\n', front.len() as int);
        assert(shown.take(front.len() as int) =~= front);
    }
}

/// A recording that is going on: its record so far, its directory, and what writes its audio.
pub struct ActiveRecording<W> {
    pub entry: RecordingEntry,
    pub directory: String,
    pub writer: Option<W>,
}

/// The recording that is going on, if any. `W` is what writes audio.
pub struct RecordingStoreState<W> {
    pub active: Option<ActiveRecording<W>>,
}

impl<W> RecordingStoreState<W> {
    /// No recording is going on.
    pub fn new() -> (state: Self)
        ensures
            state.active is None,
    {
        RecordingStoreState { active: None }
    }

    /// Gives the identifier of a recording that starts at `now`; one recording goes on at a time.
    pub fn begin_recording(&self, now: UtcTime) -> (id: Result<String, String>)
        requires
            now.is_valid(),
        ensures
            if self.active is Some {
                id is Err && id->Err_0@ == "已有录音正在保存"@
            } else {
                id is Ok && id->Ok_0@ == compact_stamp(now.seconds, now.nanos) && (now.has_plain_year()
                    ==> is_record_id(id->Ok_0@))
            },
    {
        if self.active.is_some() {
            return Err("已有录音正在保存".to_string());
        }
        let id = compact_text(now);
        proof {
            if now.has_plain_year() {
                lemma_stamp_is_record_id(id@);
            }
        }
        Ok(id)
    }

    /// Takes note of a recording that has started.
    pub fn activate(&mut self, entry: RecordingEntry, directory: String, writer: W)
        ensures
            final(self).active == Some(ActiveRecording { entry, directory, writer: Some(writer) }),
    {
        self.active = Some(ActiveRecording { entry, directory, writer: Some(writer) });
    }

    /// Gives up the recording that is going on, if any.
    pub fn cancel_recording(&mut self) -> (given_up: Option<ActiveRecording<W>>)
        ensures
            given_up == old(self).active,
            final(self).active is None,
    {
        let mut taken: Option<ActiveRecording<W>> = None;
        std::mem::swap(&mut taken, &mut self.active);
        taken
    }

    /// Takes the recording that is going on, so as to finish it.
    pub fn finish_recording(&mut self) -> (taken: Result<ActiveRecording<W>, String>)
        ensures
            final(self).active is None,
            match old(self).active {
                Some(active) => taken == Ok::<ActiveRecording<W>, String>(active),
                None => taken is Err && taken->Err_0@ == "没有正在保存的录音"@,
            },
    {
        match self.cancel_recording() {
            Some(active) => Ok(active),
            None => Err("没有正在保存的录音".to_string()),
        }
    }
}

/// A compact time stamp can be the identifier of a record.
proof fn lemma_stamp_is_record_id(s: Seq<char>)
    requires
        is_compact_stamp(s),
    ensures
        is_record_id(s),
{
    assert forall|i: int| 0 <= i < s.len() implies is_ascii_alnum(#[trigger] s[i]) || s[i] == '-' || s[i]
        == '_' by {
        if i != 8 && i != 15 {
            assert(crate::numbers::is_digit(s[i]));
        }
    }
}

/// The record of a recording that has just started.
pub open spec fn started_record(
    id: Seq<char>,
    title: Seq<char>,
    started_at: Seq<char>,
    audio_source: Seq<char>,
    audio_path: Seq<char>,
) -> RecordView {
    RecordView {
        id,
        title,
        started_at,
        ended_at: None,
        duration_ms: 0,
        audio_source,
        audio_path,
        raw_transcript: Seq::empty(),
        formatted_transcript: None,
        formatting_status: "recording"@,
        formatting_error: None,
        report: None,
        report_status: "none"@,
        report_error: None,
        text_provider: None,
        text_model: None,
        speaker_count: 0,
        speaker_segments: Seq::empty(),
        diarization_status: "none"@,
        diarization_error: None,
    }
}

/// Makes the record of a recording that has just started, out of its texts.
pub fn start_entry(
    id: String,
    title: String,
    started_at: String,
    audio_source: String,
    audio_path: String,
) -> (entry: RecordingEntry)
    ensures
        entry@ == started_record(id@, title@, started_at@, audio_source@, audio_path@),
{
    let entry = RecordingEntry {
        id,
        title,
        started_at,
        ended_at: None,
        duration_ms: 0,
        audio_source,
        audio_path,
        raw_transcript: String::new(),
        formatted_transcript: None,
        formatting_status: "recording".to_string(),
        formatting_error: None,
        report: None,
        report_status: "none".to_string(),
        report_error: None,
        text_provider: None,
        text_model: None,
        speaker_count: 0,
        speaker_segments: Vec::new(),
        diarization_status: default_diarization_status(),
        diarization_error: None,
    };
    assert(entry.raw_transcript@ =~= Seq::<char>::empty());
    assert(entry.speaker_segments@ =~= Seq::<SpeakerSegment>::empty());
    entry
}

/// Makes the record of a recording that starts at `now`. Its title is the local time.
pub fn new_entry(id: String, now: UtcTime, audio_source: String, audio_path: String) -> (entry: RecordingEntry)
    requires
        now.is_valid(),
    ensures
        exists|offset: i32|
            {
                &&& is_offset(offset)
                &&& is_clock_stamp(clock_stamp(now.seconds, offset))
                &&& entry@ == started_record(
                    id@,
                    #[trigger] clock_title(now, offset),
                    rfc3339_millis(now.seconds, now.nanos),
                    audio_source@,
                    audio_path@,
                )
            },
        now.has_plain_year() ==> read_time(entry.started_at@) == Some(now.to_the_millisecond()),
{
    let title = recording_title("", now);
    proof {
        reveal_strlit("");
        crate::text::lemma_trim_ends(""@);
        crate::text::lemma_trim_ends(trim(""@).take(index_of_char(trim(""@), '\n')));
        assert(first_line(""@).len() == 0);
    }
    start_entry(id, title, rfc3339_text(now), audio_source, audio_path)
}

/// What the language model is told when it puts a transcript in order.
pub const FORMATTING_PROMPT: &'static str =
    "你是录音文字整理助手。只修正标点、明显错别字和段落结构，保留原意、事实、语气和信息完整性；不要总结，不要新增内容。只返回整理后的正文。";

/// What the language model is told when it writes a report.
pub const REPORT_PROMPT: &'static str =
    "你是录音报告整理助手。严格依据录音文字生成中文 Markdown 报告。包含简要概述、重点信息、决定与待办（没有则明确写无）以及详细记录。不得补充录音中没有的事实。";

/// The record of a recording that has ended.
pub open spec fn ended_record(
    record: RecordView,
    title: Seq<char>,
    ended_at: Seq<char>,
    duration_ms: u64,
    transcript: Seq<char>,
    auto_format: bool,
    text_model: Option<(Seq<char>, Seq<char>)>,
    diarize: bool,
) -> RecordView {
    RecordView {
        title,
        ended_at: Some(ended_at),
        duration_ms,
        raw_transcript: transcript,
        formatting_status: if auto_format && text_model is Some && transcript.len() > 0 {
            "pending"@
        } else {
            "none"@
        },
        text_provider: match text_model {
            Some((provider, _)) => Some(provider),
            None => record.text_provider,
        },
        text_model: match text_model {
            Some((_, model)) => Some(model),
            None => record.text_model,
        },
        diarization_status: if diarize {
            "pending"@
        } else {
            "none"@
        },
        diarization_error: None,
        ..record
    }
}

/// The provider and the model of a target.
pub open spec fn target_names(target: Option<ModelTarget>) -> Option<(Seq<char>, Seq<char>)> {
    match target {
        Some(target) => Some((target.provider@, target.model@)),
        None => None,
    }
}

/// What follows the end of a recording: its record, and what is to be done in the background.
pub struct FinishPlan {
    pub entry: RecordingEntry,
    /// The request that puts the transcript in order.
    pub formatting: Option<AssistantRequest>,
    /// The speakers are to be told apart.
    pub diarize: bool,
}

impl FinishPlan {
    /// The formatting that this asks for is the one due for `transcript`.
    pub open spec fn formats(
        &self,
        transcript: Seq<char>,
        auto_format: bool,
        text_model: Option<ModelTarget>,
    ) -> bool {
        if auto_format && text_model is Some && transcript.len() > 0 {
            self.formatting is Some && self.formatting->0.asks_about(
                text_model->0,
                FORMATTING_PROMPT@,
                transcript,
            )
        } else {
            self.formatting is None
        }
    }
}

/// Closes the record of a recording, out of its title, the text and the length that have been
/// found, and says what is to be done in the background.
pub fn close_entry(
    entry: RecordingEntry,
    title: String,
    ended_at: String,
    duration_ms: u64,
    transcript: String,
    auto_format: bool,
    text_model: Option<ModelTarget>,
    diarize: bool,
) -> (plan: FinishPlan)
    ensures
        plan.entry@ == ended_record(
            entry@,
            title@,
            ended_at@,
            duration_ms,
            transcript@,
            auto_format,
            target_names(text_model),
            diarize,
        ),
        plan.formats(transcript@, auto_format, text_model),
        plan.diarize == diarize,
{
    let mut entry = entry;
    let formatted = auto_format && text_model.is_some() && !transcript.as_str().is_empty();
    entry.title = title;
    entry.ended_at = Some(ended_at);
    entry.duration_ms = duration_ms;
    entry.raw_transcript = transcript.clone();
    entry.formatting_status = if formatted {
        "pending".to_string()
    } else {
        "none".to_string()
    };
    let mut formatting: Option<AssistantRequest> = None;
    match text_model {
        Some(target) => {
            entry.text_provider = Some(target.provider.clone());
            entry.text_model = Some(target.model.clone());
            if formatted {
                formatting = Some(text_request(target, FORMATTING_PROMPT, transcript));
            }
        },
        None => {},
    }
    entry.diarization_status = if diarize {
        "pending".to_string()
    } else {
        "none".to_string()
    };
    entry.diarization_error = None;
    FinishPlan { entry, formatting, diarize }
}

/// When a recording started, by its record; `ended_at` where the record does not say.
pub open spec fn start_of(record: RecordView, ended_at: UtcTime) -> UtcTime {
    match read_time(record.started_at) {
        Some(started_at) => started_at,
        None => ended_at,
    }
}

/// Closes the record of a recording that ended at `ended_at`, and says what is to be done in the
/// background.
pub fn finish_entry(
    entry: RecordingEntry,
    ended_at: UtcTime,
    transcript: &str,
    auto_format: bool,
    text_model: Option<ModelTarget>,
    diarize: bool,
) -> (plan: FinishPlan)
    requires
        ended_at.is_valid(),
    ensures
        exists|offset: i32|
            {
                &&& is_offset(offset)
                &&& first_line(trim(transcript@)).len() == 0 ==> is_clock_stamp(
                    clock_stamp(start_of(entry@, ended_at).seconds, offset),
                )
                &&& plan.entry@ == ended_record(
                    entry@,
                    title_with(trim(transcript@), #[trigger] clock_title(start_of(entry@, ended_at), offset)),
                    rfc3339_millis(ended_at.seconds, ended_at.nanos),
                    elapsed_ms(start_of(entry@, ended_at), ended_at) as u64,
                    trim(transcript@),
                    auto_format,
                    target_names(text_model),
                    diarize,
                )
            },
        plan.formats(trim(transcript@), auto_format, text_model),
        plan.diarize == diarize,
{
    let started_at = match parse_rfc3339(entry.started_at.as_str()) {
        Some(started_at) => started_at,
        None => ended_at,
    };
    assert(started_at == start_of(entry@, ended_at));
    let transcript = trimmed(transcript);
    let title = recording_title(transcript.as_str(), started_at);
    let length: u64 = duration_ms(started_at, ended_at);
    close_entry(
        entry,
        title,
        rfc3339_text(ended_at),
        length,
        transcript,
        auto_format,
        text_model,
        diarize,
    )
}

/// The length of a recording, by a record that tells its start to the millisecond, is the time from
/// its start to its end, to within a millisecond.
pub proof fn law_length_is_the_time_between(record: RecordView, started: UtcTime, ended: UtcTime)
    requires
        read_time(record.started_at) == Some(started.to_the_millisecond()),
        started.nanos < 1_000_000_000,
        ended.nanos < 1_000_000_000,
        nanos_between(started, ended) >= 0,
    ensures
        nanos_between(started, ended) < (elapsed_ms(start_of(record, ended), ended) + 1) * 1_000_000,
        (elapsed_ms(start_of(record, ended), ended) - 1) * 1_000_000 < nanos_between(started, ended),
{
}

/// The record after the language model put its transcript in order, or failed to.
pub open spec fn formatted_record(record: RecordView, result: Result<Seq<char>, Seq<char>>) -> RecordView {
    match result {
        Ok(text) => RecordView {
            formatted_transcript: Some(text),
            formatting_status: "ready"@,
            formatting_error: None,
            ..record
        },
        Err(error) => RecordView { formatting_status: "failed"@, formatting_error: Some(error), ..record },
    }
}

/// The views of a text or an error.
pub open spec fn result_view(result: Result<String, String>) -> Result<Seq<char>, Seq<char>> {
    match result {
        Ok(text) => Ok(text@),
        Err(error) => Err(error@),
    }
}

/// Takes the language model's version of the transcript, or its failure, into the record.
pub fn record_formatting(record: RecordingEntry, result: Result<String, String>) -> (updated: RecordingEntry)
    ensures
        updated@ == formatted_record(record@, result_view(result)),
{
    let mut record = record;
    match result {
        Ok(formatted) => {
            record.formatted_transcript = Some(formatted);
            record.formatting_status = "ready".to_string();
            record.formatting_error = None;
        },
        Err(error) => {
            record.formatting_status = "failed".to_string();
            record.formatting_error = Some(error);
        },
    }
    record
}

/// The record while its speakers are being told apart anew.
pub open spec fn awaiting_speakers(record: RecordView) -> RecordView {
    RecordView {
        speaker_count: 0,
        speaker_segments: Seq::empty(),
        diarization_status: "pending"@,
        diarization_error: None,
        ..record
    }
}

/// Forgets the speakers of a record, so that they are told apart anew.
pub fn diarize_recording(record: RecordingEntry) -> (updated: RecordingEntry)
    ensures
        updated@ == awaiting_speakers(record@),
{
    let mut record = record;
    record.diarization_status = "pending".to_string();
    record.diarization_error = None;
    record.speaker_count = 0;
    record.speaker_segments = Vec::new();
    assert(record.speaker_segments@ =~= Seq::<SpeakerSegment>::empty());
    record
}

/// The record after its speakers were told apart, or could not be.
pub open spec fn diarized_record(
    record: RecordView,
    result: Result<(u32, Seq<SpeakerSegment>), Seq<char>>,
) -> RecordView {
    match result {
        Ok((speaker_count, speaker_segments)) => RecordView {
            speaker_count,
            speaker_segments,
            diarization_status: "ready"@,
            diarization_error: None,
            ..record
        },
        Err(error) => RecordView { diarization_status: "failed"@, diarization_error: Some(error), ..record },
    }
}

/// Takes the speakers that were told apart, or the failure, into the record. The failure is also
/// handed on.
pub fn record_diarization(record: RecordingEntry, result: Result<SpeakerDiarizationOutput, String>) -> (updated: (
    RecordingEntry,
    Result<(), String>,
))
    ensures
        match result {
            Ok(output) => updated.0@ == diarized_record(record@, Ok((output.speaker_count, output.segments@)))
                && updated.1 is Ok,
            Err(error) => updated.0@ == diarized_record(record@, Err(error@)) && updated.1 is Err
                && updated.1->Err_0@ == error@,
        },
{
    let mut record = record;
    match result {
        Ok(output) => {
            record.speaker_count = output.speaker_count;
            record.speaker_segments = output.segments;
            record.diarization_status = "ready".to_string();
            record.diarization_error = None;
            (record, Ok(()))
        },
        Err(error) => {
            record.diarization_status = "failed".to_string();
            record.diarization_error = Some(error.clone());
            (record, Err(error))
        },
    }
}

/// The transcript that is shown: the one put in order where there is one that is not blank.
pub open spec fn shown_transcript(record: RecordView) -> Seq<char> {
    match record.formatted_transcript {
        Some(text) if !is_blank(text) => text,
        _ => record.raw_transcript,
    }
}

/// The transcript that is shown.
pub fn transcript_of(record: &RecordingEntry) -> (text: &str)
    ensures
        text@ == shown_transcript(record@),
{
    match &record.formatted_transcript {
        Some(text) => if blank(text.as_str()) {
            record.raw_transcript.as_str()
        } else {
            text.as_str()
        },
        None => record.raw_transcript.as_str(),
    }
}

/// The record while its report is being written by the model `target`.
pub open spec fn awaiting_report(record: RecordView, target: ModelTarget) -> RecordView {
    RecordView {
        report_status: "generating"@,
        report_error: None,
        text_provider: Some(target.provider@),
        text_model: Some(target.model@),
        ..record
    }
}

/// Starts the report of a recording: the record while it is being written, and what is asked of
/// the language model.
pub fn generate_recording_report(record: RecordingEntry, text_model: ModelTarget) -> (plan: Result<
    (RecordingEntry, AssistantRequest),
    String,
>)
    ensures
        if is_blank(shown_transcript(record@)) {
            plan is Err && plan->Err_0@ == "这条录音没有可汇总的文字"@
        } else {
            &&& plan is Ok
            &&& plan->Ok_0.0@ == awaiting_report(record@, text_model)
            &&& plan->Ok_0.1.asks_about(text_model, REPORT_PROMPT@, trim(shown_transcript(record@)))
        },
{
    let transcript = trimmed(transcript_of(&record));
    if transcript.as_str().is_empty() {
        return Err("这条录音没有可汇总的文字".to_string());
    }
    let mut record = record;
    record.report_status = "generating".to_string();
    record.report_error = None;
    record.text_provider = Some(text_model.provider.clone());
    record.text_model = Some(text_model.model.clone());
    Ok((record, text_request(text_model, REPORT_PROMPT, transcript)))
}

/// The record after its report was written, or could not be.
pub open spec fn reported_record(record: RecordView, result: Result<Seq<char>, Seq<char>>) -> RecordView {
    match result {
        Ok(report) => RecordView { report: Some(report), report_status: "ready"@, report_error: None, ..record },
        Err(error) => RecordView { report_status: "failed"@, report_error: Some(error), ..record },
    }
}

/// Takes the report, or the failure, into the record. The failure is also handed on.
pub fn record_report(record: RecordingEntry, result: Result<String, String>) -> (updated: (
    RecordingEntry,
    Result<(), String>,
))
    ensures
        updated.0@ == reported_record(record@, result_view(result)),
        match result {
            Ok(_) => updated.1 is Ok,
            Err(error) => updated.1 is Err && updated.1->Err_0@ == error@,
        },
{
    let mut record = record;
    match result {
        Ok(report) => {
            record.report = Some(report);
            record.report_status = "ready".to_string();
            record.report_error = None;
            (record, Ok(()))
        },
        Err(error) => {
            record.report_status = "failed".to_string();
            record.report_error = Some(error.clone());
            (record, Err(error))
        },
    }
}

/// What the later steps of a recording change leaves alone what was recorded: the identifier, the
/// times, the audio, and the transcript as it was heard.
pub proof fn law_later_steps_keep_what_was_recorded(
    record: RecordView,
    text: Result<Seq<char>, Seq<char>>,
    speakers: Result<(u32, Seq<SpeakerSegment>), Seq<char>>,
    target: ModelTarget,
)
    ensures
        keeps_recording(record, formatted_record(record, text)),
        keeps_recording(record, awaiting_speakers(record)),
        keeps_recording(record, diarized_record(record, speakers)),
        keeps_recording(record, awaiting_report(record, target)),
        keeps_recording(record, reported_record(record, text)),
{
}

/// The end of a recording leaves alone how it started: the identifier, the start and the audio.
pub proof fn law_the_end_keeps_the_start(
    record: RecordView,
    title: Seq<char>,
    ended_at: Seq<char>,
    duration_ms: u64,
    transcript: Seq<char>,
    auto_format: bool,
    text_model: Option<(Seq<char>, Seq<char>)>,
    diarize: bool,
)
    ensures
        ({
            let after = ended_record(
                record,
                title,
                ended_at,
                duration_ms,
                transcript,
                auto_format,
                text_model,
                diarize,
            );
            &&& after.id == record.id
            &&& after.started_at == record.started_at
            &&& after.audio_source == record.audio_source
            &&& after.audio_path == record.audio_path
            &&& after.report == record.report
        }),
{
}

/// `after` is of the same recording as `before`.
pub open spec fn keeps_recording(before: RecordView, after: RecordView) -> bool {
    &&& after.id == before.id
    &&& after.title == before.title
    &&& after.started_at == before.started_at
    &&& after.ended_at == before.ended_at
    &&& after.duration_ms == before.duration_ms
    &&& after.audio_source == before.audio_source
    &&& after.audio_path == before.audio_path
    &&& after.raw_transcript == before.raw_transcript
}

/// A later step that fails says so, and loses nothing that an earlier one had found.
pub proof fn law_failures_lose_nothing(record: RecordView, error: Seq<char>)
    ensures
        formatted_record(record, Err(error)).formatted_transcript == record.formatted_transcript,
        formatted_record(record, Err(error)).formatting_error == Some(error),
        diarized_record(record, Err(error)).speaker_segments == record.speaker_segments,
        diarized_record(record, Err(error)).diarization_error == Some(error),
        reported_record(record, Err(error)).report == record.report,
        reported_record(record, Err(error)).report_error == Some(error),
        shown_transcript(formatted_record(record, Err(error))) == shown_transcript(record),
{
}

impl Ranked for RecordingEntry {
    /// The recording that started later comes first.
    open spec fn ranks_before(&self, other: &Self) -> bool {
        text_le(other.started_at@, self.started_at@)
    }

    proof fn ranks_total(&self, other: &Self) {
        crate::ordering::lemma_text_le_total(self.started_at@, other.started_at@);
    }

    proof fn ranks_transitive(&self, middle: &Self, other: &Self) {
        crate::ordering::lemma_text_le_transitive(other.started_at@, middle.started_at@, self.started_at@);
    }

    fn may_precede(&self, other: &Self) -> (yes: bool) {
        comes_first(other.started_at.as_str(), self.started_at.as_str())
    }
}

/// Lists recordings, the latest first. A record that cannot be read is `None`, and is left out.
pub fn list_recordings(records: Vec<Option<RecordingEntry>>) -> (listed: Vec<RecordingEntry>)
    ensures
        is_sorting_of(listed@, present(records@)),
{
    sort(present_items(records))
}

/// The format of the audio of a recording.
#[derive(Clone, Copy, Debug, PartialEq, Eq, Structural)]
pub struct AudioFormat {
    pub sample_rate: u32,
    pub channels: u16,
    pub bits_per_sample: u16,
    pub is_integer: bool,
}

/// The format that recordings are written in: 16 kHz, one channel, 16 bits.
pub fn recording_format() -> (format: AudioFormat)
    ensures
        is_recording_format(format),
{
    AudioFormat { sample_rate: 16_000, channels: 1, bits_per_sample: 16, is_integer: true }
}

/// 16 kHz, one channel, 16 bits, whole numbers.
pub open spec fn is_recording_format(format: AudioFormat) -> bool {
    format.sample_rate == 16_000 && format.channels == 1 && format.bits_per_sample == 16 && format.is_integer
}

/// Checks that audio is in the format that telling speakers apart takes.
pub fn check_recording_format(format: AudioFormat) -> (checked: Result<(), String>)
    ensures
        if is_recording_format(format) {
            checked is Ok
        } else {
            checked is Err && checked->Err_0@ == "说话人分离需要 16 kHz 单声道 PCM 录音，当前为 "@
                + crate::numbers::decimal(format.sample_rate as nat) + " Hz / "@ + crate::numbers::decimal(
                format.channels as nat,
            ) + " 声道 / "@ + crate::numbers::decimal(format.bits_per_sample as nat) + " bit"@
        },
{
    if format.sample_rate != 16_000 || format.channels != 1 || format.bits_per_sample != 16 || !format.is_integer {
        return Err(
            "说话人分离需要 16 kHz 单声道 PCM 录音，当前为 ".to_string().concat(
                crate::numbers::decimal_text(format.sample_rate as u64).as_str(),
            ).concat(" Hz / ").concat(crate::numbers::decimal_text(format.channels as u64).as_str()).concat(
                " 声道 / ",
            ).concat(crate::numbers::decimal_text(format.bits_per_sample as u64).as_str()).concat(" bit"),
        );
    }
    Ok(())
}

/// Where a record holds no transcript that was put in order, or a blank one, what is shown is the
/// transcript as it was heard; else it is the one put in order.
pub proof fn law_the_raw_transcript_stands_in(record: RecordView)
    ensures
        record.formatted_transcript is None ==> shown_transcript(record) == record.raw_transcript,
        record.formatted_transcript is Some && is_blank(record.formatted_transcript->0) ==> shown_transcript(record)
            == record.raw_transcript,
        record.formatted_transcript is Some && !is_blank(record.formatted_transcript->0) ==> shown_transcript(record)
            == record.formatted_transcript->0,
{
}

/// What a later step found is in the record, and an earlier failure of that step is forgotten: a
/// transcript put in order is shown unless it is blank.
pub proof fn law_results_are_kept(record: RecordView, text: Seq<char>, count: u32, segments: Seq<SpeakerSegment>)
    ensures
        formatted_record(record, Ok(text)).formatted_transcript == Some(text),
        formatted_record(record, Ok(text)).formatting_error is None,
        !is_blank(text) ==> shown_transcript(formatted_record(record, Ok(text))) == text,
        is_blank(text) ==> shown_transcript(formatted_record(record, Ok(text))) == record.raw_transcript,
        diarized_record(record, Ok((count, segments))).speaker_count == count,
        diarized_record(record, Ok((count, segments))).speaker_segments == segments,
        diarized_record(record, Ok((count, segments))).diarization_error is None,
        reported_record(record, Ok(text)).report == Some(text),
        reported_record(record, Ok(text)).report_error is None,
{
}

/// The states of a step tell its outcomes apart: done, failed and waiting are three.
pub proof fn law_states_tell_outcomes_apart(
    record: RecordView,
    text: Seq<char>,
    error: Seq<char>,
    count: u32,
    segments: Seq<SpeakerSegment>,
    target: ModelTarget,
)
    ensures
        formatted_record(record, Ok(text)).formatting_status != formatted_record(record, Err(error)).formatting_status,
        reported_record(record, Ok(text)).report_status != reported_record(record, Err(error)).report_status,
        awaiting_report(record, target).report_status != reported_record(record, Ok(text)).report_status,
        awaiting_report(record, target).report_status != reported_record(record, Err(error)).report_status,
        diarized_record(record, Ok((count, segments))).diarization_status != diarized_record(
            record,
            Err(error),
        ).diarization_status,
        awaiting_speakers(record).diarization_status != diarized_record(
            record,
            Ok((count, segments)),
        ).diarization_status,
        awaiting_speakers(record).diarization_status != diarized_record(record, Err(error)).diarization_status,
{
    reveal_strlit("ready");
    reveal_strlit("failed");
    reveal_strlit("pending");
    reveal_strlit("generating");
    assert("ready"@.len() == 5 && "failed"@.len() == 6 && "pending"@.len() == 7 && "generating"@.len() == 10);
}

/// Each step leaves alone what the others found.
pub proof fn law_steps_leave_each_other_alone(
    record: RecordView,
    text: Result<Seq<char>, Seq<char>>,
    speakers: Result<(u32, Seq<SpeakerSegment>), Seq<char>>,
    target: ModelTarget,
)
    ensures
        ({
            let after = formatted_record(record, text);
            after.report == record.report && after.speaker_segments == record.speaker_segments
                && after.speaker_count == record.speaker_count && after.report_status == record.report_status
                && after.diarization_status == record.diarization_status
        }),
        ({
            let after = diarized_record(record, speakers);
            after.report == record.report && after.formatted_transcript == record.formatted_transcript
                && after.report_status == record.report_status && after.formatting_status == record.formatting_status
        }),
        ({
            let after = awaiting_speakers(record);
            after.report == record.report && after.formatted_transcript == record.formatted_transcript
                && after.report_status == record.report_status && after.formatting_status == record.formatting_status
        }),
        ({
            let after = reported_record(record, text);
            after.formatted_transcript == record.formatted_transcript && after.speaker_segments
                == record.speaker_segments && after.speaker_count == record.speaker_count && after.formatting_status
                == record.formatting_status && after.diarization_status == record.diarization_status
        }),
        ({
            let after = awaiting_report(record, target);
            after.report == record.report && after.formatted_transcript == record.formatted_transcript
                && after.speaker_segments == record.speaker_segments && after.speaker_count == record.speaker_count
                && after.formatting_status == record.formatting_status && after.diarization_status
                == record.diarization_status
        }),
{
}

/// The end of a recording is in its record: the title, the time, the length, the whole transcript and
/// the model. Formatting is waited for exactly when it is asked for, there is a model for it and there
/// is text, and telling the speakers apart exactly when it is asked for.
pub proof fn law_the_end_is_recorded(
    record: RecordView,
    title: Seq<char>,
    ended_at: Seq<char>,
    duration_ms: u64,
    transcript: Seq<char>,
    auto_format: bool,
    text_model: Option<(Seq<char>, Seq<char>)>,
    diarize: bool,
)
    ensures
        ({
            let after = ended_record(
                record,
                title,
                ended_at,
                duration_ms,
                transcript,
                auto_format,
                text_model,
                diarize,
            );
            &&& after.title == title
            &&& after.ended_at == Some(ended_at)
            &&& after.duration_ms == duration_ms
            &&& after.raw_transcript == transcript
            &&& record.formatted_transcript is None ==> shown_transcript(after) == transcript
            &&& text_model is Some ==> after.text_provider == Some((text_model->0).0) && after.text_model == Some(
                (text_model->0).1,
            )
            &&& text_model is None ==> after.text_provider == record.text_provider && after.text_model
                == record.text_model
            &&& after.formatting_status == "pending"@ <==> (auto_format && text_model is Some && transcript
                != Seq::<char>::empty())
            &&& after.diarization_status == "pending"@ <==> diarize
            &&& after.diarization_error is None
        }),
{
    reveal_strlit("pending");
    reveal_strlit("none");
    assert("pending"@.len() == 7 && "none"@.len() == 4);
    if transcript.len() == 0 {
        assert(transcript =~= Seq::<char>::empty());
    }
}

/// A record waits for its transcript to be put in order exactly when the plan asks a model for it,
/// and then the model is asked about the transcript itself.
pub proof fn law_what_is_waited_for_is_asked_for(
    record: RecordView,
    plan: FinishPlan,
    title: Seq<char>,
    ended_at: Seq<char>,
    duration_ms: u64,
    transcript: Seq<char>,
    auto_format: bool,
    text_model: Option<ModelTarget>,
    diarize: bool,
)
    requires
        plan.formats(transcript, auto_format, text_model),
    ensures
        plan.formatting is Some <==> ended_record(
            record,
            title,
            ended_at,
            duration_ms,
            transcript,
            auto_format,
            target_names(text_model),
            diarize,
        ).formatting_status == "pending"@,
        plan.formatting is Some ==> plan.formatting->0.messages@.len() == 1
            && plan.formatting->0.messages@[0].content@ == transcript && Some(plan.formatting->0.models.controller)
            == text_model,
{
    reveal_strlit("pending");
    reveal_strlit("none");
    assert("pending"@.len() == 7 && "none"@.len() == 4);
}

/// A recording that has just started has no text, no speakers and no report, and none is waited for.
pub proof fn law_a_new_record_is_empty(
    id: Seq<char>,
    title: Seq<char>,
    started_at: Seq<char>,
    audio_source: Seq<char>,
    audio_path: Seq<char>,
)
    ensures
        ({
            let record = started_record(id, title, started_at, audio_source, audio_path);
            &&& record.id == id && record.title == title && record.started_at == started_at
            &&& record.audio_source == audio_source && record.audio_path == audio_path
            &&& record.ended_at is None && record.duration_ms == 0
            &&& shown_transcript(record).len() == 0 && record.formatted_transcript is None
            &&& record.report is None && record.speaker_segments.len() == 0 && record.speaker_count == 0
            &&& record.formatting_error is None && record.report_error is None && record.diarization_error is None
            &&& record.text_provider is None && record.text_model is None
        }),
{
}

/// Telling the speakers apart anew forgets those that were told apart before.
pub proof fn law_speakers_are_told_apart_anew(record: RecordView)
    ensures
        awaiting_speakers(record).speaker_count == 0,
        awaiting_speakers(record).speaker_segments.len() == 0,
        awaiting_speakers(record).diarization_error is None,
{
}

/// A report is written by the model that was asked, and an earlier failure is forgotten.
pub proof fn law_reports_name_their_model(record: RecordView, target: ModelTarget)
    ensures
        awaiting_report(record, target).text_provider == Some(target.provider@),
        awaiting_report(record, target).text_model == Some(target.model@),
        awaiting_report(record, target).report_error is None,
{
}

/// The recordings that could be read are listed, all of them and no others; of two, the one that
/// started later comes first.
pub proof fn law_the_latest_recordings_come_first(
    listed: Seq<RecordingEntry>,
    before: Seq<Option<RecordingEntry>>,
    entry: RecordingEntry,
    after: Seq<Option<RecordingEntry>>,
)
    requires
        is_sorting_of(listed, present(before + seq![Some(entry)] + after)),
    ensures
        listed.contains(entry),
        forall|i: int, j: int|
            #![trigger listed[i], listed[j]]
            0 <= i < j < listed.len() ==> text_le(listed[j].started_at@, listed[i].started_at@),
{
    let records = before + seq![Some(entry)] + after;
    crate::ordering::law_what_is_there_is_kept(before + seq![Some(entry)], after, entry);
    crate::ordering::law_what_is_there_is_kept(before, seq![Some(entry)], entry);
    let at = present(before).len() as int;
    assert(present(records)[at] == entry);
    crate::ordering::law_sorting_keeps_the_items(listed, present(records), at);
    let order = choose|order: Seq<int>| crate::ordering::sorted_along(listed, present(records), order);
    assert forall|i: int, j: int|
        #![trigger listed[i], listed[j]]
        0 <= i < j < listed.len() implies text_le(listed[j].started_at@, listed[i].started_at@) by {
        assert(listed[i].ranks_before(&listed[j]));
    }
}

/// An identifier names a directory within the one that holds the recordings: it is not empty, and
/// nothing in it leads elsewhere. Every name of letters, digits and hyphens is one.
pub proof fn law_identifiers_lead_nowhere_else(id: Seq<char>)
    ensures
        is_record_id(id) ==> id.len() > 0 && !id.contains('/') && !id.contains('\\') && !id.contains('.')
            && !id.contains(':') && !id.contains(' '),
        id.len() > 0 && (forall|i: int|
            0 <= i < id.len() ==> ('0' <= #[trigger] id[i] && id[i] <= '9') || ('a' <= id[i] && id[i] <= 'z') || (
            'A' <= id[i] && id[i] <= 'Z') || id[i] == '-' || id[i] == '_') ==> is_record_id(id),
{
}

/// A blank transcript gives no title; any other gives one of its own.
pub proof fn law_blank_transcripts_give_no_title(transcript: Seq<char>, fallback: Seq<char>, other: Seq<char>)
    ensures
        is_blank(transcript) ==> title_with(transcript, fallback) == fallback,
        !is_blank(first_line(transcript)) ==> title_with(transcript, fallback) == title_with(transcript, other),
{
    if is_blank(transcript) {
        let start = trim(transcript).take(index_of_char(trim(transcript), '\n'));
        crate::text::lemma_no_such_char(trim(transcript), '\n');
        crate::text::lemma_trim_ends(start);
    }
    crate::text::lemma_trim_ends(first_line(transcript));
}

/// Recordings are written as audio is captured and recognised: one channel of whole numbers of two
/// bytes, at the rate of the models.
pub proof fn law_recordings_are_written_as_captured(format: AudioFormat)
    ensures
        is_recording_format(format) <==> (format.sample_rate == crate::speech_model::TARGET_SAMPLE_RATE
            && format.sample_rate == crate::audio_capture::CAPTURE_TARGET_RATE && format.channels == 1
            && format.bits_per_sample == 2 * 8 && format.is_integer),
{
}

/// A title of a transcript has 28 characters at most; a longer line is cut there, and three dots say
/// so.
pub proof fn law_long_titles_are_cut(transcript: Seq<char>, fallback: Seq<char>)
    ensures
        0 < first_line(transcript).len() <= 28 ==> title_with(transcript, fallback) == first_line(transcript),
        first_line(transcript).len() > 28 ==> title_with(transcript, fallback) == first_line(transcript).take(28)
            + "..."@,
{
}

/// A recording starts when its record says so; where that cannot be read it has no length.
pub proof fn law_the_start_is_that_of_the_record(record: RecordView, started: UtcTime, ended: UtcTime)
    ensures
        read_time(record.started_at) == Some(started) ==> start_of(record, ended) == started,
        read_time(record.started_at) is None ==> elapsed_ms(start_of(record, ended), ended) == 0,
{
}

/// A target is recorded by its provider and its model, and none where there is no target.
pub proof fn law_targets_are_recorded_by_name(target: ModelTarget)
    ensures
        target_names(Some(target)) == Some((target.provider@, target.model@)),
        target_names(None) is None,
{
}

/// A report is asked for exactly when there is text: of a recording whose transcript was not put in
/// order, about the transcript as it was heard; otherwise about the one put in order.
pub proof fn law_reports_are_about_the_transcript(
    record: RecordingEntry,
    target: ModelTarget,
    plan: Result<(RecordingEntry, AssistantRequest), String>,
)
    requires
        call_ensures(generate_recording_report, (record, target), plan),
    ensures
        ({
            let formatted = record.formatted_transcript is Some && !is_blank(record.formatted_transcript->0@);
            let text = if formatted {
                record.formatted_transcript->0@
            } else {
                record.raw_transcript@
            };
            &&& plan is Ok <==> !is_blank(text)
            &&& plan is Ok ==> plan->Ok_0.1.messages@.len() == 1 && plan->Ok_0.1.messages@[0].content@ == trim(text)
                && plan->Ok_0.1.models.controller == target
            &&& plan is Ok ==> plan->Ok_0.0@.raw_transcript == record.raw_transcript@ && plan->Ok_0.0@.id == record.id@
        }),
{
    law_the_raw_transcript_stands_in(record@);
}

/// Recordings are written in the format that telling speakers apart takes.
pub proof fn law_recordings_can_be_told_apart(format: AudioFormat, checked: Result<(), String>)
    requires
        call_ensures(recording_format, (), format),
        call_ensures(check_recording_format, (format,), checked),
    ensures
        checked is Ok,
{
}

/// An identifier passes exactly when it is made of letters, digits, hyphens and underscores; so it
/// never leads out of the directory of the recordings.
pub proof fn law_only_identifiers_pass(id: &str, valid: Result<(), String>)
    requires
        call_ensures(validate_record_id, (id,), valid),
    ensures
        valid is Ok ==> id@.len() > 0 && !id@.contains('/') && !id@.contains('\\') && !id@.contains('.') && !id@.contains(
            ':',
        ),
        id@.len() > 0 && (forall|i: int|
            0 <= i < id@.len() ==> is_ascii_alnum(#[trigger] id@[i]) || id@[i] == '-' || id@[i] == '_') ==> valid is Ok,
{
    law_identifiers_lead_nowhere_else(id@);
}

/// The recording that was taken note of is the one that is finished, with its record, its directory and
/// its writer; after that none is going on.
pub proof fn law_the_recording_that_started_is_finished<W>(
    activated: &mut RecordingStoreState<W>,
    finished: &mut RecordingStoreState<W>,
    entry: RecordingEntry,
    directory: String,
    writer: W,
    taken: Result<ActiveRecording<W>, String>,
)
    requires
        call_ensures(RecordingStoreState::<W>::activate, (activated, entry, directory, writer), ()),
        *old(finished) == *final(activated),
        call_ensures(RecordingStoreState::<W>::finish_recording, (finished,), taken),
    ensures
        taken is Ok,
        taken->Ok_0.entry == entry && taken->Ok_0.directory == directory && taken->Ok_0.writer == Some(writer),
        final(finished).active is None,
{
}

/// One recording goes on at a time: while one does, none begins; and where none does, there is none to
/// finish.
pub proof fn law_one_recording_at_a_time<W>(
    state: &RecordingStoreState<W>,
    now: UtcTime,
    id: Result<String, String>,
    finished: &mut RecordingStoreState<W>,
    taken: Result<ActiveRecording<W>, String>,
)
    requires
        call_ensures(RecordingStoreState::<W>::begin_recording, (state, now), id),
        call_ensures(RecordingStoreState::<W>::finish_recording, (finished,), taken),
    ensures
        id is Ok <==> state.active is None,
        taken is Ok <==> old(finished).active is Some,
        final(finished).active is None,
{
}

} // verus!
