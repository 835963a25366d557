//! Who spoke when in a finished recording.

use vstd::prelude::*;

use crate::numbers::{signed_decimal, signed_text};
use crate::speech_model::FileInfo;

verus! {

/// The directory of the models that tell speakers apart, below the directory of all models.
pub const SPEAKER_MODEL_DIR: &'static str = "speaker-diarization";
/// The directory of the segmentation model, below that.
pub const SEGMENTATION_MODEL_DIR: &'static str = "sherpa-onnx-pyannote-segmentation-3-0";
/// The file of the segmentation model.
pub const SEGMENTATION_MODEL_FILE: &'static str = "model.onnx";
/// The least size of the segmentation model, in bytes.
pub const SEGMENTATION_MODEL_BYTES: u64 = 5_242_880;
/// The file of the voice embedding model.
pub const EMBEDDING_MODEL_FILE: &'static str = "3dspeaker_speech_eres2net_base_sv_zh-cn_3dspeaker_16k.onnx";
/// The least size of the voice embedding model, in bytes.
pub const EMBEDDING_MODEL_BYTES: u64 = 31_457_280;

/// A stretch of speech of one speaker, as it is shown: times in milliseconds, speakers numbered
/// from zero in the order in which they are first heard.
#[derive(Clone, Copy, Debug, PartialEq, Eq, Structural)]
pub struct SpeakerSegment {
    pub start_ms: u64,
    pub end_ms: u64,
    pub speaker: u32,
}

impl Default for SpeakerSegment {
    fn default() -> (segment: Self)
        ensures
            segment == (SpeakerSegment { start_ms: 0, end_ms: 0, speaker: 0 }),
    {
        SpeakerSegment { start_ms: 0, end_ms: 0, speaker: 0 }
    }
}

/// The speakers of a recording.
#[derive(Clone, Debug)]
pub struct SpeakerDiarizationOutput {
    pub speaker_count: u32,
    pub segments: Vec<SpeakerSegment>,
}

impl Default for SpeakerDiarizationOutput {
    fn default() -> (output: Self)
        ensures
            output.speaker_count == 0,
            output.segments@.len() == 0,
    {
        SpeakerDiarizationOutput { speaker_count: 0, segments: Vec::new() }
    }
}

/// A stretch of speech as the engine finds it, with the engine's own number for the speaker.
#[derive(Clone, Copy, Debug, PartialEq, Eq, Structural)]
pub struct EngineSegment {
    pub start_ms: u64,
    pub end_ms: u64,
    pub speaker: i32,
}

/// The engine's speakers in the order in which they were first heard, and the segments so far.
pub struct Timeline {
    pub speakers: Seq<i32>,
    pub segments: Seq<SpeakerSegment>,
}

/// The place of `speaker` in `speakers`; their number where it is not among them.
pub open spec fn label_of(speakers: Seq<i32>, speaker: i32) -> int
    decreases speakers.len(),
{
    if speakers.len() == 0 || speakers[0] == speaker {
        0
    } else {
        1 + label_of(speakers.drop_first(), speaker)
    }
}

/// `next` continues the last of `segments`: the same speaker, after a gap of at most 200 ms.
pub open spec fn continues(segments: Seq<SpeakerSegment>, next: SpeakerSegment) -> bool {
    segments.len() > 0 && segments.last().speaker == next.speaker && next.start_ms
        <= segments.last().end_ms + 200
}

/// The timeline after one more segment of the engine.
pub open spec fn extended(timeline: Timeline, heard: EngineSegment) -> Timeline {
    if heard.end_ms <= heard.start_ms {
        timeline
    } else {
        let label = label_of(timeline.speakers, heard.speaker);
        let speakers = if label == timeline.speakers.len() {
            timeline.speakers.push(heard.speaker)
        } else {
            timeline.speakers
        };
        let next = SpeakerSegment {
            start_ms: heard.start_ms,
            end_ms: heard.end_ms,
            speaker: label as u32,
        };
        let segments = if continues(timeline.segments, next) {
            let last = timeline.segments.last();
            timeline.segments.update(
                timeline.segments.len() - 1,
                SpeakerSegment {
                    end_ms: if last.end_ms < next.end_ms {
                        next.end_ms
                    } else {
                        last.end_ms
                    },
                    ..last
                },
            )
        } else {
            timeline.segments.push(next)
        };
        Timeline { speakers, segments }
    }
}

/// The timeline of the engine's segments: empty ones left out, speakers renumbered, segments of
/// one speaker put together.
pub open spec fn timeline_of(heard: Seq<EngineSegment>) -> Timeline
    decreases heard.len(),
{
    if heard.len() == 0 {
        Timeline { speakers: Seq::empty(), segments: Seq::empty() }
    } else {
        extended(timeline_of(heard.drop_last()), heard.last())
    }
}

/// The place of `speaker` in `speakers`.
fn label_in(speakers: &Vec<i32>, speaker: i32) -> (label: usize)
    ensures
        label == label_of(speakers@, speaker),
        label <= speakers@.len(),
{
    let mut i: usize = 0;
    proof {
        assert(speakers@.skip(0) == speakers@);
    }
    while i < speakers.len() && speakers[i] != speaker
        invariant
            i <= speakers@.len(),
            label_of(speakers@, speaker) == i + label_of(speakers@.skip(i as int), speaker),
        decreases speakers@.len() - i,
    {
        assert(speakers@.skip(i as int).drop_first() == speakers@.skip(i + 1));
        i += 1;
    }
    i
}

/// Makes the timeline that is shown out of the segments that the engine found, in the order of
/// their start.
pub fn normalize_segments(segments: Vec<EngineSegment>) -> (output: SpeakerDiarizationOutput)
    requires
        segments@.len() <= u32::MAX,
    ensures
        output.segments@ == timeline_of(segments@).segments,
        output.speaker_count == timeline_of(segments@).speakers.len(),
{
    let mut speakers: Vec<i32> = Vec::new();
    let mut normalized: Vec<SpeakerSegment> = Vec::new();
    let mut i: usize = 0;
    while i < segments.len()
        invariant
            i <= segments@.len() <= u32::MAX,
            speakers@.len() <= i,
            speakers@ == timeline_of(segments@.take(i as int)).speakers,
            normalized@ == timeline_of(segments@.take(i as int)).segments,
        decreases segments@.len() - i,
    {
        let heard = segments[i];
        assert(segments@.take(i + 1).drop_last() == segments@.take(i as int));
        i += 1;
        if heard.end_ms > heard.start_ms {
            let label: usize = label_in(&speakers, heard.speaker);
            if label == speakers.len() {
                speakers.push(heard.speaker);
            }
            let next = SpeakerSegment {
                start_ms: heard.start_ms,
                end_ms: heard.end_ms,
                speaker: label as u32,
            };
            let count: usize = normalized.len();
            if count > 0 && normalized[count - 1].speaker == next.speaker && next.start_ms <= normalized[count
                - 1].end_ms.saturating_add(200) {
                let last = normalized[count - 1];
                let end_ms: u64 = if last.end_ms < next.end_ms {
                    next.end_ms
                } else {
                    last.end_ms
                };
                normalized.set(
                    count - 1,
                    SpeakerSegment { start_ms: last.start_ms, end_ms, speaker: last.speaker },
                );
            } else {
                normalized.push(next);
            }
        }
    }
    assert(segments@.take(i as int) == segments@);
    SpeakerDiarizationOutput { speaker_count: speakers.len() as u32, segments: normalized }
}

/// Some segment carries the number `label`.
pub open spec fn is_heard(segments: Seq<SpeakerSegment>, label: int, before: int) -> bool {
    exists|i: int| 0 <= i < before && (#[trigger] segments[i]).speaker == label
}

/// What every timeline keeps.
pub open spec fn is_tidy(timeline: Timeline) -> bool {
    let segments = timeline.segments;
    &&& timeline.speakers.no_duplicates()
    &&& forall|i: int| 0 <= i < segments.len() ==> (#[trigger] segments[i]).start_ms < segments[i].end_ms
    &&& forall|i: int| 0 <= i < segments.len() ==> (#[trigger] segments[i]).speaker < timeline.speakers.len()
    &&& forall|label: int|
        0 <= label < timeline.speakers.len() ==> #[trigger] is_heard(segments, label, segments.len() as int)
    &&& forall|i: int, label: int|
        0 <= i < segments.len() && 0 <= label < segments[i].speaker ==> #[trigger] is_heard(segments, label, i)
    &&& forall|i: int|
        #![trigger segments[i]]
        0 < i < segments.len() && segments[i].speaker == segments[i - 1].speaker ==> segments[i].start_ms
            > segments[i - 1].end_ms + 200
}

/// Every timeline is tidy: no segment is empty; the speakers are numbered from zero without gaps,
/// in the order in which they are first heard; and two segments of one speaker that follow each
/// other are more than 200 ms apart.
pub proof fn law_timeline_is_tidy(heard: Seq<EngineSegment>)
    requires
        heard.len() <= u32::MAX,
    ensures
        is_tidy(timeline_of(heard)),
        timeline_of(heard).speakers.len() <= heard.len(),
    decreases heard.len(),
{
    if heard.len() > 0 {
        let before = timeline_of(heard.drop_last());
        let next = heard.last();
        law_timeline_is_tidy(heard.drop_last());
        lemma_label_of(before.speakers, next.speaker);
        if next.end_ms > next.start_ms {
            lemma_extended_is_tidy(before, next);
        }
    }
}

/// The engine's speakers of the segments that are not empty are the speakers of the timeline.
pub proof fn law_speakers_are_those_heard(heard: Seq<EngineSegment>, speaker: i32)
    ensures
        timeline_of(heard).speakers.contains(speaker) <==> exists|i: int|
            0 <= i < heard.len() && (#[trigger] heard[i]).start_ms < heard[i].end_ms && heard[i].speaker
                == speaker,
    decreases heard.len(),
{
    if heard.len() > 0 {
        let rest = heard.drop_last();
        let before = timeline_of(rest).speakers;
        let after = timeline_of(heard).speakers;
        let next = heard.last();
        law_speakers_are_those_heard(rest, speaker);
        lemma_label_of(before, next.speaker);
        if after.contains(speaker) {
            if before.contains(speaker) {
                let i = choose|i: int|
                    0 <= i < rest.len() && (#[trigger] rest[i]).start_ms < rest[i].end_ms && rest[i].speaker
                        == speaker;
                assert(heard[i] == rest[i]);
            } else {
                let k = choose|k: int| 0 <= k < after.len() && after[k] == speaker;
                if k < before.len() {
                    assert(before[k] == speaker);
                }
                assert(heard[heard.len() - 1].speaker == speaker);
            }
        }
        if exists|i: int|
            0 <= i < heard.len() && (#[trigger] heard[i]).start_ms < heard[i].end_ms && heard[i].speaker
                == speaker {
            let i = choose|i: int|
                0 <= i < heard.len() && (#[trigger] heard[i]).start_ms < heard[i].end_ms && heard[i].speaker
                    == speaker;
            if i < rest.len() {
                assert(rest[i] == heard[i]);
                assert(before.contains(speaker));
                let k = choose|k: int| 0 <= k < before.len() && before[k] == speaker;
                assert(after[k] == speaker);
            } else {
                let label = label_of(before, speaker);
                assert(after[label] == speaker);
            }
        }
    }
}

/// What `label_of` finds.
proof fn lemma_label_of(speakers: Seq<i32>, speaker: i32)
    ensures
        0 <= label_of(speakers, speaker) <= speakers.len(),
        label_of(speakers, speaker) < speakers.len() ==> speakers[label_of(speakers, speaker)] == speaker,
        label_of(speakers, speaker) == speakers.len() ==> !speakers.contains(speaker),
    decreases speakers.len(),
{
    if speakers.len() > 0 && speakers[0] != speaker {
        let rest = speakers.drop_first();
        lemma_label_of(rest, speaker);
        if label_of(speakers, speaker) == speakers.len() {
            assert forall|i: int| 0 <= i < speakers.len() implies speakers[i] != speaker by {
                if i > 0 {
                    assert(rest[i - 1] == speakers[i]);
                    assert(rest.contains(speakers[i]));
                }
            }
        }
    }
}

/// One more segment keeps a timeline tidy.
proof fn lemma_extended_is_tidy(before: Timeline, heard: EngineSegment)
    requires
        is_tidy(before),
        heard.start_ms < heard.end_ms,
        before.speakers.len() < u32::MAX,
    ensures
        is_tidy(extended(before, heard)),
{
    let after = extended(before, heard);
    let label = label_of(before.speakers, heard.speaker);
    lemma_label_of(before.speakers, heard.speaker);
    let next = SpeakerSegment { start_ms: heard.start_ms, end_ms: heard.end_ms, speaker: label as u32 };
    let old = before.segments;
    let new = after.segments;
    let n = new.len() as int;
    assert forall|i: int| 0 <= i < old.len() implies (#[trigger] new[i]).speaker == old[i].speaker by {}
    assert forall|l: int, b: int| 0 <= b <= old.len() && is_heard(old, l, b) implies #[trigger] is_heard(
        new,
        l,
        b,
    ) by {
        let i = choose|i: int| 0 <= i < b && (#[trigger] old[i]).speaker == l;
        assert(new[i].speaker == l);
    }
    assert(new[n - 1].speaker == label);
    assert forall|l: int| 0 <= l < after.speakers.len() implies #[trigger] is_heard(new, l, n) by {
        if l < before.speakers.len() {
            assert(is_heard(old, l, old.len() as int));
            assert(is_heard(new, l, old.len() as int));
            let i = choose|i: int| 0 <= i < old.len() && (#[trigger] new[i]).speaker == l;
            assert(new[i].speaker == l);
        } else {
            assert(new[n - 1].speaker == l);
        }
    }
    assert forall|i: int, l: int| 0 <= i < n && 0 <= l < new[i].speaker implies #[trigger] is_heard(new, l, i) by {
        if i < old.len() {
            assert(new[i].speaker == old[i].speaker);
            assert(is_heard(old, l, i));
        } else {
            assert(is_heard(old, l, old.len() as int));
        }
    }
    assert forall|i: int|
        #![trigger new[i]]
        0 < i < n && new[i].speaker == new[i - 1].speaker implies new[i].start_ms > new[i - 1].end_ms + 200 by {
        if i < old.len() {
            assert(old[i].speaker == new[i].speaker);
            assert(old[i - 1] == new[i - 1]);
        } else {
            assert(!continues(old, next));
            assert(new[i - 1] == old.last());
        }
    }
}

/// Checks that the engine that tells speakers apart works at the rate that recordings have.
pub fn check_engine_rate(sample_rate: i32) -> (checked: Result<(), String>)
    ensures
        if sample_rate == 16_000 {
            checked is Ok
        } else {
            checked is Err && checked->Err_0@ == "说话人分离模型采样率不匹配："@ + signed_decimal(sample_rate as int)
                + " Hz"@
        },
{
    if sample_rate != 16_000 {
        return Err(
            "说话人分离模型采样率不匹配：".to_string().concat(signed_text(sample_rate).as_str()).concat(" Hz"),
        );
    }
    Ok(())
}

/// Makes the speakers of a recording out of what the engine found, where it found anything.
pub fn diarization_outcome(found: Option<Vec<EngineSegment>>) -> (output: Result<SpeakerDiarizationOutput, String>)
    requires
        found is Some ==> found->0@.len() <= u32::MAX,
    ensures
        match found {
            Some(segments) => {
                &&& output is Ok
                &&& output->Ok_0.segments@ == timeline_of(segments@).segments
                &&& output->Ok_0.speaker_count == timeline_of(segments@).speakers.len()
            },
            None => output is Err && output->Err_0@ == "本地说话人分离失败"@,
        },
{
    match found {
        Some(segments) => Ok(normalize_segments(segments)),
        None => Err("本地说话人分离失败".to_string()),
    }
}

/// Makes the speakers of a recording out of what came of listening to it; `heard` is nothing where
/// the recording has no sound, and so no speakers.
pub fn diarize_recording_audio(heard: Option<Option<Vec<EngineSegment>>>) -> (output: Result<
    SpeakerDiarizationOutput,
    String,
>)
    requires
        heard is Some && heard->0 is Some ==> heard->0->0@.len() <= u32::MAX,
    ensures
        match heard {
            Some(Some(segments)) => {
                &&& output is Ok
                &&& output->Ok_0.segments@ == timeline_of(segments@).segments
                &&& output->Ok_0.speaker_count == timeline_of(segments@).speakers.len()
            },
            Some(None) => output is Err && output->Err_0@ == "本地说话人分离失败"@,
            None => output is Ok && output->Ok_0.speaker_count == 0 && output->Ok_0.segments@.len() == 0,
        },
{
    match heard {
        Some(found) => diarization_outcome(found),
        None => Ok(SpeakerDiarizationOutput::default()),
    }
}

/// Whether a file has at least `minimum_size` bytes.
pub fn file_is_ready(info: Option<FileInfo>, minimum_size: u64) -> (ready: bool)
    ensures
        ready == (info is Some && info->0.is_file && info->0.len >= minimum_size),
{
    match info {
        Some(info) => info.is_file && info.len >= minimum_size,
        None => false,
    }
}

/// The engine found something in this segment.
pub open spec fn is_filled(heard: EngineSegment) -> bool {
    heard.start_ms < heard.end_ms
}

/// `segment` shows the stretch of `heard` from `first` up to `end`, all of it speech of the engine's
/// speaker `speaker`: it starts with the first, ends with the one that ends last, and between them
/// there is no gap of more than 200 ms.
pub open spec fn shows_stretch(
    segment: SpeakerSegment,
    heard: Seq<EngineSegment>,
    first: int,
    end: int,
    speaker: i32,
) -> bool {
    &&& 0 <= first < end <= heard.len()
    &&& is_filled(heard[first]) && heard[first].start_ms == segment.start_ms
    &&& forall|m: int|
        first <= m < end && is_filled(#[trigger] heard[m]) ==> heard[m].speaker == speaker && heard[m].end_ms
            <= segment.end_ms
    &&& exists|m: int|
        first <= m < end && is_filled(#[trigger] heard[m]) && heard[m].end_ms == segment.end_ms
    &&& forall|m: int|
        first < m < end && is_filled(heard[m]) ==> #[trigger] follows_closely(heard, first, m)
}

/// The segment at `m` starts at most 200 ms after the end of one from `first` on.
pub open spec fn follows_closely(heard: Seq<EngineSegment>, first: int, m: int) -> bool {
    exists|p: int|
        first <= p < m && is_filled(#[trigger] heard[p]) && heard[m].start_ms <= heard[p].end_ms + 200
}

/// The place of the stretch that segment `k` of the timeline shows, among those found by the engine.
pub open spec fn is_shown_by(heard: Seq<EngineSegment>, k: int, first: int, end: int) -> bool {
    let timeline = timeline_of(heard);
    &&& 0 <= k < timeline.segments.len()
    &&& timeline.segments[k].speaker < timeline.speakers.len()
    &&& shows_stretch(
        timeline.segments[k],
        heard,
        first,
        end,
        timeline.speakers[timeline.segments[k].speaker as int],
    )
}

/// What every segment of the timeline is made of: a stretch of what the engine heard, all of one
/// speaker, with the bounds of that stretch, and put together only over gaps of at most 200 ms.
pub proof fn law_segments_are_what_was_heard(heard: Seq<EngineSegment>, k: int)
    requires
        heard.len() <= u32::MAX,
        0 <= k < timeline_of(heard).segments.len(),
    ensures
        exists|first: int, end: int| #[trigger] is_shown_by(heard, k, first, end),
    decreases heard.len(),
{
    lemma_timeline_shows(heard);
    let (firsts, ends) = choose|firsts: Seq<int>, ends: Seq<int>| shows_all(heard, firsts, ends);
    assert(is_shown_by(heard, k, firsts[k], ends[k]));
}

/// Nothing that was heard is left out: each segment of the engine that is not empty lies within a
/// segment of the timeline, which carries the number of its speaker, that is the same number for the
/// same speaker throughout. The engine gives its segments in the order of their starts.
pub proof fn law_all_speech_is_shown(heard: Seq<EngineSegment>, m: int)
    requires
        heard.len() <= u32::MAX,
        0 <= m < heard.len(),
        is_filled(heard[m]),
        forall|i: int, j: int|
            0 <= i < j < heard.len() ==> (#[trigger] heard[i]).start_ms <= (#[trigger] heard[j]).start_ms,
    ensures
        exists|k: int|
            {
                let timeline = timeline_of(heard);
                &&& 0 <= k < timeline.segments.len()
                &&& (#[trigger] timeline_of(heard).segments[k]).start_ms <= heard[m].start_ms
                &&& heard[m].end_ms <= timeline.segments[k].end_ms
                &&& timeline.segments[k].speaker < timeline.speakers.len()
                &&& timeline.speakers[timeline.segments[k].speaker as int] == heard[m].speaker
            },
{
    lemma_timeline_shows(heard);
    let (firsts, ends) = choose|firsts: Seq<int>, ends: Seq<int>| shows_all(heard, firsts, ends);
    let timeline = timeline_of(heard);
    assert(covered(heard, firsts, ends, m));
    let k = choose|k: int| 0 <= k < firsts.len() && (#[trigger] firsts[k]) <= m < ends[k];
    assert(is_shown_by(heard, k, firsts[k], ends[k]));
    if firsts[k] < m {
        assert(heard[firsts[k]].start_ms <= heard[m].start_ms);
    }
    assert(timeline.segments[k].start_ms <= heard[m].start_ms);
}

/// The segment at `m` lies in one of the stretches.
pub open spec fn covered(heard: Seq<EngineSegment>, firsts: Seq<int>, ends: Seq<int>, m: int) -> bool {
    exists|k: int| 0 <= k < firsts.len() && (#[trigger] firsts[k]) <= m < ends[k]
}

/// The timeline shows the stretches that start at `firsts` and go up to `ends`, one behind the other,
/// and with them all that was heard.
pub open spec fn shows_all(heard: Seq<EngineSegment>, firsts: Seq<int>, ends: Seq<int>) -> bool {
    let timeline = timeline_of(heard);
    &&& firsts.len() == timeline.segments.len()
    &&& ends.len() == timeline.segments.len()
    &&& forall|k: int| 0 <= k < firsts.len() ==> is_shown_by(heard, k, #[trigger] firsts[k], ends[k])
    &&& forall|m: int| 0 <= m < heard.len() && is_filled(heard[m]) ==> #[trigger] covered(heard, firsts, ends, m)
    &&& firsts.len() > 0 ==> ends.last() == heard.len()
}

/// A stretch that was heard stays so when more is heard.
proof fn lemma_stretch_stays(
    segment: SpeakerSegment,
    rest: Seq<EngineSegment>,
    heard: Seq<EngineSegment>,
    first: int,
    end: int,
    speaker: i32,
)
    requires
        shows_stretch(segment, rest, first, end, speaker),
        heard.len() > 0,
        rest == heard.drop_last(),
    ensures
        shows_stretch(segment, heard, first, end, speaker),
{
    assert(forall|m: int| 0 <= m < rest.len() ==> #[trigger] heard[m] == rest[m]);
    let last = choose|m: int|
        first <= m < end && is_filled(#[trigger] rest[m]) && rest[m].end_ms == segment.end_ms;
    assert(is_filled(heard[last]));
    assert forall|m: int| first < m < end && is_filled(heard[m]) implies #[trigger] follows_closely(
        heard,
        first,
        m,
    ) by {
        assert(is_filled(rest[m]));
        assert(follows_closely(rest, first, m));
        let p = choose|p: int|
            first <= p < m && is_filled(#[trigger] rest[p]) && rest[m].start_ms <= rest[p].end_ms + 200;
        assert(is_filled(heard[p]));
    }
}

/// A stretch that reaches to the end goes on with what is heard next: with nothing, or with the same
/// speaker shortly after.
proof fn lemma_stretch_grows(
    last: SpeakerSegment,
    longer: SpeakerSegment,
    heard: Seq<EngineSegment>,
    first: int,
    speaker: i32,
)
    requires
        heard.len() > 0,
        shows_stretch(last, heard.drop_last(), first, heard.len() - 1, speaker),
        longer.start_ms == last.start_ms,
        !is_filled(heard.last()) ==> longer.end_ms == last.end_ms,
        is_filled(heard.last()) ==> heard.last().speaker == speaker && heard.last().start_ms <= last.end_ms + 200
            && longer.end_ms == (if last.end_ms < heard.last().end_ms {
            heard.last().end_ms
        } else {
            last.end_ms
        }),
    ensures
        shows_stretch(longer, heard, first, heard.len() as int, speaker),
{
    let rest = heard.drop_last();
    let n = rest.len() as int;
    lemma_stretch_stays(last, rest, heard, first, n, speaker);
    let end = choose|m: int| first <= m < n && is_filled(#[trigger] heard[m]) && heard[m].end_ms == last.end_ms;
    assert(is_filled(heard[end]));
    assert(heard[n] == heard.last());
    if is_filled(heard.last()) {
        assert(follows_closely(heard, first, n));
    }
    assert forall|m: int| first <= m < heard.len() && is_filled(#[trigger] heard[m]) implies heard[m].speaker
        == speaker && heard[m].end_ms <= longer.end_ms by {
        if m < n {
            assert(heard[m].end_ms <= last.end_ms);
        }
    }
    assert(exists|m: int|
        first <= m < heard.len() && is_filled(#[trigger] heard[m]) && heard[m].end_ms == longer.end_ms) by {
        if longer.end_ms == last.end_ms {
            assert(is_filled(heard[end]) && heard[end].end_ms == longer.end_ms);
        } else {
            assert(is_filled(heard[n]) && heard[n].end_ms == longer.end_ms);
        }
    }
}

/// What the timeline shows of what was heard so far stays shown when more is heard.
proof fn lemma_shown_stays(heard: Seq<EngineSegment>, firsts: Seq<int>, ends: Seq<int>, k: int)
    requires
        0 < heard.len() <= u32::MAX,
        shows_all(heard.drop_last(), firsts, ends),
        0 <= k < firsts.len(),
    ensures
        ({
            let before = timeline_of(heard.drop_last());
            let after = timeline_of(heard);
            let segment = before.segments[k];
            &&& segment.speaker < before.speakers.len() <= after.speakers.len()
            &&& after.speakers[segment.speaker as int] == before.speakers[segment.speaker as int]
            &&& shows_stretch(segment, heard, firsts[k], ends[k], before.speakers[segment.speaker as int])
        }),
{
    let rest = heard.drop_last();
    let before = timeline_of(rest);
    assert(is_shown_by(rest, k, firsts[k], ends[k]));
    let segment = before.segments[k];
    lemma_stretch_stays(segment, rest, heard, firsts[k], ends[k], before.speakers[segment.speaker as int]);
}

/// The stretches of a timeline whose last segment goes on, or to which nothing is added.
proof fn lemma_shown_grows(heard: Seq<EngineSegment>, firsts: Seq<int>, ends: Seq<int>)
    requires
        0 < heard.len() <= u32::MAX,
        shows_all(heard.drop_last(), firsts, ends),
        firsts.len() > 0,
        timeline_of(heard).segments.len() == firsts.len(),
        forall|j: int|
            0 <= j < firsts.len() - 1 ==> #[trigger] timeline_of(heard).segments[j] == timeline_of(
                heard.drop_last(),
            ).segments[j],
        ({
            let last = timeline_of(heard.drop_last()).segments.last();
            let longer = timeline_of(heard).segments.last();
            let speaker = timeline_of(heard.drop_last()).speakers[last.speaker as int];
            &&& longer.speaker == last.speaker
            &&& longer.start_ms == last.start_ms
            &&& !is_filled(heard.last()) ==> longer.end_ms == last.end_ms
            &&& is_filled(heard.last()) ==> heard.last().speaker == speaker && heard.last().start_ms <= last.end_ms
                + 200 && longer.end_ms == (if last.end_ms < heard.last().end_ms {
                heard.last().end_ms
            } else {
                last.end_ms
            })
        }),
    ensures
        shows_all(heard, firsts, ends.update(firsts.len() - 1, heard.len() as int)),
{
    let rest = heard.drop_last();
    let n = rest.len() as int;
    let before = timeline_of(rest);
    let after = timeline_of(heard);
    let k = firsts.len() - 1;
    let later = ends.update(k, heard.len() as int);
    lemma_shown_stays(heard, firsts, ends, k);
    assert(is_shown_by(rest, k, firsts[k], ends[k]));
    lemma_stretch_grows(
        before.segments[k],
        after.segments[k],
        heard,
        firsts[k],
        before.speakers[before.segments[k].speaker as int],
    );
    assert forall|j: int| 0 <= j < firsts.len() implies is_shown_by(heard, j, #[trigger] firsts[j], later[j]) by {
        lemma_shown_stays(heard, firsts, ends, j);
        if j < k {
            assert(after.segments[j] == before.segments[j]);
        }
    }
    assert forall|m: int| 0 <= m < heard.len() && is_filled(heard[m]) implies #[trigger] covered(
        heard,
        firsts,
        later,
        m,
    ) by {
        if m < n {
            assert(is_filled(rest[m]));
            assert(covered(rest, firsts, ends, m));
            let j = choose|j: int| 0 <= j < firsts.len() && (#[trigger] firsts[j]) <= m < ends[j];
            assert(firsts[j] <= m < later[j]);
        } else {
            assert(firsts[k] <= m < later[k]);
        }
    }
}

/// The stretches of a timeline to which a segment is added.
proof fn lemma_shown_added(heard: Seq<EngineSegment>, firsts: Seq<int>, ends: Seq<int>)
    requires
        0 < heard.len() <= u32::MAX,
        shows_all(heard.drop_last(), firsts, ends),
        is_filled(heard.last()),
        timeline_of(heard).segments.len() == firsts.len() + 1,
        forall|j: int|
            0 <= j < firsts.len() ==> #[trigger] timeline_of(heard).segments[j] == timeline_of(
                heard.drop_last(),
            ).segments[j],
        timeline_of(heard).segments.last().start_ms == heard.last().start_ms,
        timeline_of(heard).segments.last().end_ms == heard.last().end_ms,
        timeline_of(heard).segments.last().speaker < timeline_of(heard).speakers.len(),
        timeline_of(heard).speakers[timeline_of(heard).segments.last().speaker as int] == heard.last().speaker,
    ensures
        shows_all(heard, firsts.push(heard.len() - 1), ends.push(heard.len() as int)),
{
    let rest = heard.drop_last();
    let n = rest.len() as int;
    let before = timeline_of(rest);
    let after = timeline_of(heard);
    let count = firsts.len() as int;
    let more = firsts.push(n);
    let later = ends.push(heard.len() as int);
    assert(heard[n] == heard.last());
    assert(is_filled(heard[n]));
    assert(shows_stretch(after.segments[count], heard, n, heard.len() as int, heard.last().speaker));
    assert forall|j: int| 0 <= j < more.len() implies is_shown_by(heard, j, #[trigger] more[j], later[j]) by {
        if j < count {
            lemma_shown_stays(heard, firsts, ends, j);
            assert(more[j] == firsts[j] && later[j] == ends[j]);
            assert(after.segments[j] == before.segments[j]);
        }
    }
    assert forall|m: int| 0 <= m < heard.len() && is_filled(heard[m]) implies #[trigger] covered(
        heard,
        more,
        later,
        m,
    ) by {
        if m < n {
            assert(is_filled(rest[m]));
            assert(covered(rest, firsts, ends, m));
            let j = choose|j: int| 0 <= j < firsts.len() && (#[trigger] firsts[j]) <= m < ends[j];
            assert(more[j] <= m < later[j]);
        } else {
            assert(more[count] <= m < later[count]);
        }
    }
}

/// Some stretches are those that the timeline shows.
proof fn lemma_timeline_shows(heard: Seq<EngineSegment>)
    requires
        heard.len() <= u32::MAX,
    ensures
        exists|firsts: Seq<int>, ends: Seq<int>| shows_all(heard, firsts, ends),
    decreases heard.len(),
{
    if heard.len() == 0 {
        assert(shows_all(heard, Seq::empty(), Seq::empty()));
    } else {
        let rest = heard.drop_last();
        let next = heard.last();
        lemma_timeline_shows(rest);
        let (firsts, ends) = choose|firsts: Seq<int>, ends: Seq<int>| shows_all(rest, firsts, ends);
        let before = timeline_of(rest);
        let label = label_of(before.speakers, next.speaker);
        law_timeline_is_tidy(rest);
        lemma_label_of(before.speakers, next.speaker);
        let shown = SpeakerSegment { start_ms: next.start_ms, end_ms: next.end_ms, speaker: label as u32 };
        if is_filled(next) && !continues(before.segments, shown) {
            lemma_shown_added(heard, firsts, ends);
        } else if firsts.len() > 0 {
            lemma_shown_grows(heard, firsts, ends);
        } else {
            assert(forall|m: int| 0 <= m < rest.len() ==> #[trigger] heard[m] == rest[m]);
            assert forall|m: int| 0 <= m < heard.len() && is_filled(heard[m]) implies #[trigger] covered(
                heard,
                firsts,
                ends,
                m,
            ) by {
                assert(is_filled(rest[m]));
                assert(covered(rest, firsts, ends, m));
            }
            assert(shows_all(heard, firsts, ends));
        }
    }
}

/// What the engine found is shown, all of it; where it could not be asked there is a failure, and a
/// recording without sound has no speakers.
pub proof fn law_what_the_engine_found_is_shown(
    segments: Vec<EngineSegment>,
    m: int,
    output: Result<SpeakerDiarizationOutput, String>,
    failed: Result<SpeakerDiarizationOutput, String>,
    silent: Result<SpeakerDiarizationOutput, String>,
)
    requires
        segments@.len() <= u32::MAX,
        0 <= m < segments@.len(),
        is_filled(segments@[m]),
        forall|i: int, j: int|
            0 <= i < j < segments@.len() ==> (#[trigger] segments@[i]).start_ms <= (#[trigger] segments@[j]).start_ms,
        call_ensures(diarize_recording_audio, (Some(Some(segments)),), output),
        call_ensures(diarize_recording_audio, (Some(None),), failed),
        call_ensures(diarize_recording_audio, (None,), silent),
    ensures
        output is Ok,
        exists|k: int|
            {
                &&& 0 <= k < output->Ok_0.segments@.len()
                &&& (#[trigger] output->Ok_0.segments@[k]).start_ms <= segments@[m].start_ms
                &&& segments@[m].end_ms <= output->Ok_0.segments@[k].end_ms
                &&& output->Ok_0.segments@[k].speaker < output->Ok_0.speaker_count
            },
        failed is Err,
        silent is Ok && silent->Ok_0.speaker_count == 0 && silent->Ok_0.segments@.len() == 0,
{
    law_all_speech_is_shown(segments@, m);
    let timeline = timeline_of(segments@);
    let k = choose|k: int|
        {
            &&& 0 <= k < timeline.segments.len()
            &&& (#[trigger] timeline_of(segments@).segments[k]).start_ms <= segments@[m].start_ms
            &&& segments@[m].end_ms <= timeline.segments[k].end_ms
            &&& timeline.segments[k].speaker < timeline.speakers.len()
            &&& timeline.speakers[timeline.segments[k].speaker as int] == segments@[m].speaker
        };
    assert(output->Ok_0.segments@[k] == timeline.segments[k]);
}

} // verus!
