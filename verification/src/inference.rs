//! A running local recogniser: which audio is kept, and when which audio is recognised.
//!
//! The engines (voice activity detection, recognition, punctuation) are driven from outside: each
//! method takes what they reported and says what they are to do next. `S` is the type of an audio
//! sample; samples are moved and never looked at.

use vstd::prelude::*;

use crate::model_setup::RecognizerPlan;
use crate::speech_model::{kind_id, LocalSpeechModelKind};
use crate::text::{copied, same_text, views};
use crate::transcript::{
    decode_final_segments, joined_parts, nonempty_texts, option_view, recognized, recognized_text,
    LocalTranscriptResult,
};

verus! {

/// How much audio is kept from before speech sets in, in samples.
pub const SPEECH_PREROLL_SAMPLES: usize = 5_120;

/// How much new speech SenseVoice gathers between two partial results, in samples.
pub const SENSE_VOICE_PARTIAL_INTERVAL_SAMPLES: usize = 20_480;

/// How much new speech Zipformer gathers between two partial results, in samples.
pub const ZIPFORMER_PARTIAL_INTERVAL_SAMPLES: usize = 12_288;

/// How much audio is gathered without a voice activity detector, in samples.
pub const DEFAULT_CHUNK_SAMPLES: usize = 16_000;

/// The most audio that is recognised at once without a voice activity detector, in samples.
pub const MAX_BUFFER_SAMPLES: usize = 128_000;

/// What the session of a recogniser holds.
pub struct Session<S> {
    /// The last partial text of the streaming model.
    pub last_text: Seq<char>,
    /// Audio gathered without a voice activity detector.
    pub buffer: Seq<S>,
    /// The speech that is going on.
    pub speech: Seq<S>,
    /// The audio from before speech sets in.
    pub preroll: Seq<S>,
    /// How much speech the last partial result covered.
    pub last_partial: int,
    /// Speech is going on.
    pub active: bool,
}

/// A session in which nothing has been heard.
pub open spec fn fresh_session<S>() -> Session<S> {
    Session {
        last_text: Seq::empty(),
        buffer: Seq::empty(),
        speech: Seq::empty(),
        preroll: Seq::empty(),
        last_partial: 0,
        active: false,
    }
}

/// The last `n` of `samples`, or all of them.
pub open spec fn last_of<S>(samples: Seq<S>, n: int) -> Seq<S> {
    if samples.len() > n {
        samples.skip(samples.len() - n)
    } else {
        samples
    }
}

/// The audio to keep from before speech, after `samples` came in.
pub open spec fn preroll_with<S>(preroll: Seq<S>, samples: Seq<S>) -> Seq<S> {
    last_of(preroll + samples, SPEECH_PREROLL_SAMPLES as int)
}

/// What the voice activity detector reports once it took in some audio: whether it hears speech
/// now, and the segments of speech that have ended.
pub struct VadReading<S> {
    pub detected: bool,
    pub segments: Vec<Vec<S>>,
}

/// What is to be recognised.
pub enum Work<S> {
    /// Nothing.
    Nothing,
    /// Speech that is still going on; its text is provisional.
    Partial(Vec<S>),
    /// Stretches of speech that have ended; their texts are final.
    Final(Vec<Vec<S>>),
}

/// What is to be recognised, as sequences.
pub enum WorkView<S> {
    Nothing,
    Partial(Seq<S>),
    Final(Seq<Seq<S>>),
}

/// The contents of a list of stretches.
pub open spec fn stretches<S>(segments: Seq<Vec<S>>) -> Seq<Seq<S>> {
    segments.map_values(|segment: Vec<S>| segment@)
}

impl<S> View for Work<S> {
    type V = WorkView<S>;

    open spec fn view(&self) -> WorkView<S> {
        match self {
            Work::Nothing => WorkView::Nothing,
            Work::Partial(samples) => WorkView::Partial(samples@),
            Work::Final(segments) => WorkView::Final(stretches(segments@)),
        }
    }
}

/// How many stretches of speech are to be recognised.
pub open spec fn stretch_count<S>(work: WorkView<S>) -> nat {
    match work {
        WorkView::Nothing => 0,
        WorkView::Partial(_) => 1,
        WorkView::Final(segments) => segments.len(),
    }
}

/// What is shown of speech whose stretches have the texts `texts`, and whether it is final.
pub open spec fn shown_work<S>(work: WorkView<S>, texts: Seq<Seq<char>>) -> (Seq<char>, bool) {
    match work {
        WorkView::Nothing => (Seq::empty(), false),
        WorkView::Partial(_) => (texts[0], false),
        WorkView::Final(_) => (joined_parts(nonempty_texts(texts)), true),
    }
}

/// Makes what is shown of speech out of the texts of its stretches: provisional texts as they were
/// recognised, final ones in their final form.
pub fn work_result<S>(work: &Work<S>, texts: Vec<String>) -> (result: LocalTranscriptResult)
    requires
        texts@.len() == stretch_count(work@),
    ensures
        (result.text@, result.is_final) == shown_work(work@, views(texts@)),
{
    match work {
        Work::Nothing => LocalTranscriptResult::default(),
        Work::Partial(_) => LocalTranscriptResult { text: texts[0].clone(), is_final: false },
        Work::Final(_) => LocalTranscriptResult { text: decode_final_segments(texts), is_final: true },
    }
}

/// How much new speech a model gathers between two partial results.
pub open spec fn partial_interval(kind: LocalSpeechModelKind) -> int {
    if kind == LocalSpeechModelKind::SenseVoice {
        SENSE_VOICE_PARTIAL_INTERVAL_SAMPLES as int
    } else {
        ZIPFORMER_PARTIAL_INTERVAL_SAMPLES as int
    }
}

/// The session, and what is to be recognised, after a model that recognises whole stretches took
/// in `samples` and the detector reported `detected` and the ended `segments`.
pub open spec fn after_reading<S>(
    before: Session<S>,
    kind: LocalSpeechModelKind,
    samples: Seq<S>,
    detected: bool,
    segments: Seq<Seq<S>>,
) -> (Session<S>, WorkView<S>) {
    let preroll = if before.active {
        before.preroll
    } else {
        preroll_with(before.preroll, samples)
    };
    let onset = !before.active && detected;
    let speech = if onset {
        preroll
    } else if before.active {
        before.speech + samples
    } else {
        before.speech
    };
    let last_partial = if onset {
        0
    } else {
        before.last_partial
    };
    if segments.len() > 0 {
        let kept = last_of(samples, SPEECH_PREROLL_SAMPLES as int);
        (
            Session {
                speech: if detected {
                    kept
                } else {
                    Seq::empty()
                },
                preroll: kept,
                last_partial: 0,
                active: detected,
                ..before
            },
            WorkView::Final(segments),
        )
    } else if before.active && !detected {
        (
            Session { speech: Seq::empty(), preroll, last_partial: 0, active: false, ..before },
            WorkView::Nothing,
        )
    } else if detected && speech.len() - last_partial >= partial_interval(kind) {
        (
            Session { speech, preroll, last_partial: speech.len() as int, active: true, ..before },
            WorkView::Partial(speech),
        )
    } else {
        (Session { speech, preroll, last_partial, active: detected, ..before }, WorkView::Nothing)
    }
}

/// The session, and what is to be recognised, after `samples` came in and there is no detector.
pub open spec fn after_buffering<S>(before: Session<S>, samples: Seq<S>) -> (Session<S>, WorkView<S>) {
    let buffer = before.buffer + samples;
    if buffer.len() < DEFAULT_CHUNK_SAMPLES {
        (Session { buffer, ..before }, WorkView::Nothing)
    } else {
        (
            Session { buffer: Seq::empty(), ..before },
            WorkView::Final(seq![last_of(buffer, MAX_BUFFER_SAMPLES as int)]),
        )
    }
}

/// The session, and what is to be recognised, at the end. `segments` are those that the detector still
/// had, where there is a detector.
pub open spec fn after_flush<S>(before: Session<S>, segments: Option<Seq<Seq<S>>>) -> (Session<S>, WorkView<S>) {
    match segments {
        Some(segments) => (
            Session { speech: Seq::empty(), preroll: Seq::empty(), last_partial: 0, active: false, ..before },
            WorkView::Final(
                if segments.len() == 0 && before.speech.len() > 0 {
                    seq![before.speech]
                } else {
                    segments
                },
            ),
        ),
        None => (Session { buffer: Seq::empty(), ..before }, WorkView::Final(seq![before.buffer])),
    }
}

/// Audio that came in to the streaming model, between the detector's report and the recogniser's.
pub struct StreamChunk<S> {
    pub samples: Vec<S>,
    /// Speech was going on before this audio.
    pub was_active: bool,
    /// Speech is going on now.
    pub detected: bool,
    /// The audio that the recogniser is to take in.
    pub feed: Option<Vec<S>>,
}

/// The contents of optional audio.
pub open spec fn option_samples<S>(samples: Option<Vec<S>>) -> Option<Seq<S>> {
    match samples {
        Some(samples) => Some(samples@),
        None => None,
    }
}

/// The session after the streaming model took in `samples` and the detector reported `detected`,
/// and the audio that the recogniser is to take in.
pub open spec fn after_stream_reading<S>(before: Session<S>, samples: Seq<S>, detected: bool) -> (
    Session<S>,
    Option<Seq<S>>,
) {
    if before.active {
        (Session { active: detected, ..before }, Some(samples))
    } else {
        let preroll = preroll_with(before.preroll, samples);
        if detected {
            (Session { preroll: Seq::empty(), active: true, ..before }, Some(preroll))
        } else {
            (Session { preroll, active: false, ..before }, None)
        }
    }
}

/// What the streaming model does next.
pub enum StreamWork {
    /// Wait for more audio.
    Nothing,
    /// The sentence has ended: finish the stream and start a new one.
    Finish,
    /// The speech broke off without a sentence: start a new stream.
    Restart,
    /// Show a new provisional text.
    Partial(String),
}

/// What the streaming model does next, as a sequence.
pub enum StreamWorkView {
    Nothing,
    Finish,
    Restart,
    Partial(Seq<char>),
}

impl View for StreamWork {
    type V = StreamWorkView;

    open spec fn view(&self) -> StreamWorkView {
        match self {
            StreamWork::Nothing => StreamWorkView::Nothing,
            StreamWork::Finish => StreamWorkView::Finish,
            StreamWork::Restart => StreamWorkView::Restart,
            StreamWork::Partial(text) => StreamWorkView::Partial(text@),
        }
    }
}

/// What is shown of a stream, and whether it is final; `finished` is the final form of a sentence
/// that has ended.
pub open spec fn shown_stream(work: StreamWorkView, finished: Seq<char>) -> (Seq<char>, bool) {
    match work {
        StreamWorkView::Partial(text) => (text, false),
        StreamWorkView::Finish => (finished, true),
        _ => (Seq::empty(), false),
    }
}

/// Makes what is shown of a stream.
pub fn stream_result(work: StreamWork, finished: String) -> (result: LocalTranscriptResult)
    ensures
        (result.text@, result.is_final) == shown_stream(work@, finished@),
{
    match work {
        StreamWork::Partial(text) => LocalTranscriptResult { text, is_final: false },
        StreamWork::Finish => LocalTranscriptResult { text: finished, is_final: true },
        _ => LocalTranscriptResult::default(),
    }
}

/// The session after the recogniser reported `hypothesis` on a chunk, and what to do next.
/// `endpoint` says whether a segment of speech has ended.
pub open spec fn after_hypothesis<S>(
    before: Session<S>,
    samples: Seq<S>,
    was_active: bool,
    detected: bool,
    hypothesis: Seq<char>,
    endpoint: bool,
) -> (Session<S>, StreamWorkView) {
    let kept = last_of(samples, SPEECH_PREROLL_SAMPLES as int);
    if endpoint {
        (
            Session {
                preroll: if detected {
                    Seq::empty()
                } else {
                    kept
                },
                ..before
            },
            StreamWorkView::Finish,
        )
    } else if was_active && !detected {
        (Session { last_text: Seq::empty(), preroll: kept, ..before }, StreamWorkView::Restart)
    } else if detected && hypothesis.len() > 0 && hypothesis != before.last_text {
        (Session { last_text: hypothesis, ..before }, StreamWorkView::Partial(hypothesis))
    } else {
        (before, StreamWorkView::Nothing)
    }
}

/// The text of a finished stream: the recogniser's last one, or else the last provisional one.
pub open spec fn stream_text<S>(before: Session<S>, last: Option<Seq<char>>) -> Seq<char> {
    let text = recognized(last);
    if text.len() == 0 {
        before.last_text
    } else {
        text
    }
}

/// A local recogniser that has been set up.
pub struct SherpaOfflineModel<S> {
    kind: LocalSpeechModelKind,
    recognition_language: String,
    online_last_text: String,
    audio_buffer: Vec<S>,
    speech_audio: Vec<S>,
    speech_preroll: Vec<S>,
    samples_at_last_partial: usize,
    speech_active: bool,
}

/// Appends `samples` to `kept` and takes the oldest off, down to `limit`.
pub fn keep_latest<S: Copy>(kept: Vec<S>, samples: &[S], limit: usize) -> (latest: Vec<S>)
    ensures
        latest@ == last_of(kept@ + samples@, limit as int),
{
    let mut all = kept;
    append_all(&mut all, samples);
    if all.len() > limit {
        let start: usize = all.len() - limit;
        let latest = copied(&all, start, all.len());
        assert(all@.subrange(start as int, all@.len() as int) == all@.skip(start as int));
        latest
    } else {
        all
    }
}

/// Appends `samples` to `list`.
pub fn append_all<S: Copy>(list: &mut Vec<S>, samples: &[S])
    ensures
        final(list)@ == old(list)@ + samples@,
{
    let ghost before = list@;
    let mut i: usize = 0;
    while i < samples.len()
        invariant
            i <= samples@.len(),
            list@ == before + samples@.take(i as int),
        decreases samples@.len() - i,
    {
        list.push(samples[i]);
        i += 1;
        assert(list@ =~= before + samples@.take(i as int));
    }
    assert(samples@.take(i as int) == samples@);
}

impl<S: Copy> SherpaOfflineModel<S> {
    /// What the session holds.
    pub closed spec fn session(&self) -> Session<S> {
        Session {
            last_text: self.online_last_text@,
            buffer: self.audio_buffer@,
            speech: self.speech_audio@,
            preroll: self.speech_preroll@,
            last_partial: self.samples_at_last_partial as int,
            active: self.speech_active,
        }
    }

    /// Which model this is.
    pub closed spec fn kind(&self) -> LocalSpeechModelKind {
        self.kind
    }

    /// The language that this recogniser was created for.
    pub closed spec fn language(&self) -> Seq<char> {
        self.recognition_language@
    }

    /// A recogniser that was set up along `plan`, in which nothing has been heard.
    pub fn new(plan: &RecognizerPlan) -> (model: Self)
        ensures
            model.kind() == plan.kind,
            model.language() == plan.recognition_language@,
            model.session() == fresh_session::<S>(),
    {
        let model = SherpaOfflineModel {
            kind: plan.kind,
            recognition_language: plan.recognition_language.clone(),
            online_last_text: String::new(),
            audio_buffer: Vec::new(),
            speech_audio: Vec::new(),
            speech_preroll: Vec::new(),
            samples_at_last_partial: 0,
            speech_active: false,
        };
        assert(model.session() =~= fresh_session::<S>());
        model
    }

    /// The identifier of the model.
    pub fn model_id(&self) -> (id: &str)
        ensures
            id@ == kind_id(self.kind()),
    {
        self.kind.id()
    }

    /// The language that this recogniser was created for.
    pub fn recognition_language(&self) -> (language: &str)
        ensures
            language@ == self.language(),
    {
        self.recognition_language.as_str()
    }

    /// Whether this model recognises while speech goes on, audio by audio.
    pub fn is_streaming(&self) -> (streaming: bool)
        ensures
            streaming == (self.kind() == LocalSpeechModelKind::ParaformerStreaming),
    {
        match self.kind {
            LocalSpeechModelKind::ParaformerStreaming => true,
            _ => false,
        }
    }

    /// Forgets all that was heard.
    pub fn reset_session(&mut self)
        ensures
            final(self).session() == fresh_session::<S>(),
            final(self).kind() == old(self).kind(),
            final(self).language() == old(self).language(),
    {
        self.audio_buffer = Vec::new();
        self.speech_audio = Vec::new();
        self.speech_preroll = Vec::new();
        self.samples_at_last_partial = 0;
        self.speech_active = false;
        self.online_last_text = String::new();
        assert(self.session() =~= fresh_session::<S>());
    }

    /// How much new speech the model gathers between two partial results.
    pub fn partial_interval_samples(&self) -> (interval: usize)
        ensures
            interval == partial_interval(self.kind()),
    {
        match self.kind {
            LocalSpeechModelKind::SenseVoice => SENSE_VOICE_PARTIAL_INTERVAL_SAMPLES,
            _ => ZIPFORMER_PARTIAL_INTERVAL_SAMPLES,
        }
    }

    /// Takes in audio for a model that recognises whole stretches, with the detector's reading
    /// on it where there is a detector, and says what is to be recognised.
    pub fn process(&mut self, samples: &[S], reading: Option<VadReading<S>>) -> (work: Work<S>)
        ensures
            final(self).kind() == old(self).kind(),
            final(self).language() == old(self).language(),
            (final(self).session(), work@) == match reading {
                Some(reading) => after_reading(
                    old(self).session(),
                    old(self).kind(),
                    samples@,
                    reading.detected,
                    stretches(reading.segments@),
                ),
                None => after_buffering(old(self).session(), samples@),
            },
    {
        match reading {
            Some(reading) => self.process_with_detector(samples, reading),
            None => self.process_buffered(samples),
        }
    }

    fn process_with_detector(&mut self, samples: &[S], reading: VadReading<S>) -> (work: Work<S>)
        ensures
            final(self).kind() == old(self).kind(),
            final(self).language() == old(self).language(),
            (final(self).session(), work@) == after_reading(
                old(self).session(),
                old(self).kind(),
                samples@,
                reading.detected,
                stretches(reading.segments@),
            ),
    {
        let ghost expected = after_reading(
            self.session(),
            self.kind(),
            samples@,
            reading.detected,
            stretches(reading.segments@),
        );
        let was_active = self.speech_active;
        let detected = reading.detected;
        if !was_active {
            let mut preroll: Vec<S> = Vec::new();
            std::mem::swap(&mut preroll, &mut self.speech_preroll);
            self.speech_preroll = keep_latest(preroll, samples, SPEECH_PREROLL_SAMPLES);
        }
        if !was_active && detected {
            self.speech_active = true;
            self.speech_audio = copied(&self.speech_preroll, 0, self.speech_preroll.len());
            assert(self.speech_preroll@.subrange(0, self.speech_preroll@.len() as int)
                == self.speech_preroll@);
            self.samples_at_last_partial = 0;
        } else if was_active {
            append_all(&mut self.speech_audio, samples);
        }
        if reading.segments.len() > 0 {
            self.speech_active = detected;
            self.samples_at_last_partial = 0;
            self.speech_preroll = keep_latest(Vec::new(), samples, SPEECH_PREROLL_SAMPLES);
            assert(Seq::<S>::empty() + samples@ == samples@);
            if detected {
                self.speech_audio = copied(&self.speech_preroll, 0, self.speech_preroll.len());
                assert(self.speech_preroll@.subrange(0, self.speech_preroll@.len() as int)
                    == self.speech_preroll@);
            } else {
                self.speech_audio = Vec::new();
            }
            let work = Work::Final(reading.segments);
            assert(self.session() =~= expected.0);
            return work;
        }
        if was_active && !detected {
            self.speech_active = false;
            self.speech_audio = Vec::new();
            self.samples_at_last_partial = 0;
        }
        let interval: usize = self.partial_interval_samples();
        if self.speech_active && self.speech_audio.len().saturating_sub(self.samples_at_last_partial)
            >= interval {
            self.samples_at_last_partial = self.speech_audio.len();
            let speech = copied(&self.speech_audio, 0, self.speech_audio.len());
            assert(self.speech_audio@.subrange(0, self.speech_audio@.len() as int) == self.speech_audio@);
            assert(self.session() =~= expected.0);
            return Work::Partial(speech);
        }
        assert(self.session() =~= expected.0);
        Work::Nothing
    }

    fn process_buffered(&mut self, samples: &[S]) -> (work: Work<S>)
        ensures
            final(self).kind() == old(self).kind(),
            final(self).language() == old(self).language(),
            (final(self).session(), work@) == after_buffering(old(self).session(), samples@),
    {
        let ghost expected = after_buffering(self.session(), samples@);
        append_all(&mut self.audio_buffer, samples);
        if self.audio_buffer.len() < DEFAULT_CHUNK_SAMPLES {
            assert(self.session() =~= expected.0);
            return Work::Nothing;
        }
        let mut buffer: Vec<S> = Vec::new();
        std::mem::swap(&mut buffer, &mut self.audio_buffer);
        let ghost gathered = buffer@;
        let nothing: Vec<S> = Vec::new();
        let chunk = keep_latest(buffer, &nothing, MAX_BUFFER_SAMPLES);
        assert(gathered + nothing@ == gathered);
        let mut segments: Vec<Vec<S>> = Vec::new();
        segments.push(chunk);
        assert(stretches(segments@) =~= seq![chunk@]);
        assert(self.session() =~= expected.0);
        Work::Final(segments)
    }

    /// Ends the session of a model that recognises whole stretches, once the detector, where
    /// there is one, handed out the segments it still had. Says what is to be recognised.
    pub fn flush(&mut self, segments: Option<Vec<Vec<S>>>) -> (work: Work<S>)
        ensures
            final(self).kind() == old(self).kind(),
            final(self).language() == old(self).language(),
            match segments {
                Some(segments) => {
                    &&& final(self).session() == (Session {
                        speech: Seq::empty(),
                        preroll: Seq::empty(),
                        last_partial: 0,
                        active: false,
                        ..old(self).session()
                    })
                    &&& work@ == WorkView::Final(
                        if segments@.len() == 0 && old(self).session().speech.len() > 0 {
                            seq![old(self).session().speech]
                        } else {
                            stretches(segments@)
                        },
                    )
                },
                None => {
                    &&& final(self).session() == (Session { buffer: Seq::empty(), ..old(self).session() })
                    &&& work@ == WorkView::Final(seq![old(self).session().buffer])
                },
            },
            (final(self).session(), work@) == after_flush(
                old(self).session(),
                match segments {
                    Some(segments) => Some(stretches(segments@)),
                    None => None,
                },
            ),
    {
        let ghost before = self.session();
        match segments {
            Some(segments) => {
                let mut speech: Vec<S> = Vec::new();
                std::mem::swap(&mut speech, &mut self.speech_audio);
                self.speech_preroll = Vec::new();
                self.samples_at_last_partial = 0;
                self.speech_active = false;
                assert(self.session() =~= (Session {
                    speech: Seq::empty(),
                    preroll: Seq::empty(),
                    last_partial: 0,
                    active: false,
                    ..before
                }));
                if segments.len() == 0 && speech.len() > 0 {
                    let mut whole: Vec<Vec<S>> = Vec::new();
                    whole.push(speech);
                    assert(stretches(whole@) =~= seq![before.speech]);
                    Work::Final(whole)
                } else {
                    Work::Final(segments)
                }
            },
            None => {
                let mut buffer: Vec<S> = Vec::new();
                std::mem::swap(&mut buffer, &mut self.audio_buffer);
                assert(self.session() =~= (Session { buffer: Seq::empty(), ..before }));
                let mut whole: Vec<Vec<S>> = Vec::new();
                whole.push(buffer);
                assert(stretches(whole@) =~= seq![before.buffer]);
                Work::Final(whole)
            },
        }
    }

    /// Takes in audio for the streaming model, with the detector's reading on it, and says which
    /// audio the recogniser is to take in.
    pub fn stream_audio(&mut self, samples: &[S], detected: bool) -> (chunk: StreamChunk<S>)
        ensures
            final(self).kind() == old(self).kind(),
            final(self).language() == old(self).language(),
            chunk.samples@ == samples@,
            chunk.was_active == old(self).session().active,
            chunk.detected == detected,
            (final(self).session(), option_samples(chunk.feed)) == after_stream_reading(
                old(self).session(),
                samples@,
                detected,
            ),
    {
        let ghost expected = after_stream_reading(self.session(), samples@, detected);
        let was_active = self.speech_active;
        let all = copied(samples, 0, samples.len());
        assert(samples@.subrange(0, samples@.len() as int) == samples@);
        self.speech_active = detected;
        let feed = if was_active {
            Some(copied(samples, 0, samples.len()))
        } else {
            let mut preroll: Vec<S> = Vec::new();
            std::mem::swap(&mut preroll, &mut self.speech_preroll);
            let preroll = keep_latest(preroll, samples, SPEECH_PREROLL_SAMPLES);
            if detected {
                Some(preroll)
            } else {
                self.speech_preroll = preroll;
                None
            }
        };
        assert(self.session() =~= expected.0);
        StreamChunk { samples: all, was_active, detected, feed }
    }

    /// Takes in the streaming recogniser's text so far, and whether a segment of speech has
    /// ended, and says what to do next.
    pub fn stream_hypothesis(&mut self, chunk: StreamChunk<S>, hypothesis: String, endpoint: bool) -> (work:
        StreamWork)
        ensures
            final(self).kind() == old(self).kind(),
            final(self).language() == old(self).language(),
            (final(self).session(), work@) == after_hypothesis(
                old(self).session(),
                chunk.samples@,
                chunk.was_active,
                chunk.detected,
                hypothesis@,
                endpoint,
            ),
    {
        let ghost expected = after_hypothesis(
            self.session(),
            chunk.samples@,
            chunk.was_active,
            chunk.detected,
            hypothesis@,
            endpoint,
        );
        assert(Seq::<S>::empty() + chunk.samples@ == chunk.samples@);
        if endpoint {
            if chunk.detected {
                self.speech_preroll = Vec::new();
            } else {
                self.speech_preroll = keep_latest(Vec::new(), &chunk.samples, SPEECH_PREROLL_SAMPLES);
            }
            assert(self.session() =~= expected.0);
            return StreamWork::Finish;
        }
        if chunk.was_active && !chunk.detected {
            self.online_last_text = String::new();
            self.speech_preroll = keep_latest(Vec::new(), &chunk.samples, SPEECH_PREROLL_SAMPLES);
            assert(self.session() =~= expected.0);
            return StreamWork::Restart;
        }
        if chunk.detected && !hypothesis.as_str().is_empty() && !same_text(
            hypothesis.as_str(),
            self.online_last_text.as_str(),
        ) {
            self.online_last_text = hypothesis.clone();
            assert(self.session() =~= expected.0);
            return StreamWork::Partial(hypothesis);
        }
        StreamWork::Nothing
    }

    /// Takes in the last result of a stream that has been finished, and gives its text.
    pub fn finish_stream(&mut self, last: Option<String>) -> (text: String)
        ensures
            final(self).kind() == old(self).kind(),
            final(self).language() == old(self).language(),
            final(self).session() == (Session { last_text: Seq::empty(), ..old(self).session() }),
            text@ == stream_text(old(self).session(), option_view(last)),
    {
        let ghost before = self.session();
        let hypothesis = recognized_text(last);
        let mut shown = String::new();
        std::mem::swap(&mut shown, &mut self.online_last_text);
        assert(self.session() =~= (Session { last_text: Seq::empty(), ..before }));
        if hypothesis.as_str().is_empty() {
            shown
        } else {
            hypothesis
        }
    }

    /// Ends the session of the streaming model, once its stream has been finished, and gives the
    /// text of the stream.
    pub fn flush_stream(&mut self, last: Option<String>) -> (text: String)
        ensures
            final(self).kind() == old(self).kind(),
            final(self).language() == old(self).language(),
            final(self).session() == (Session {
                last_text: Seq::empty(),
                active: false,
                ..old(self).session()
            }),
            text@ == stream_text(old(self).session(), option_view(last)),
    {
        let ghost before = self.session();
        let text = self.finish_stream(last);
        self.speech_active = false;
        assert(self.session() =~= (Session { last_text: Seq::empty(), active: false, ..before }));
        text
    }
}

/// What every session keeps: the audio from before speech stays short, and a partial result covers
/// no more than the speech that is going on.
pub open spec fn is_bounded<S>(session: Session<S>) -> bool {
    &&& session.preroll.len() <= SPEECH_PREROLL_SAMPLES
    &&& 0 <= session.last_partial <= session.speech.len()
    &&& session.buffer.len() < DEFAULT_CHUNK_SAMPLES
}

/// Audio keeps a session bounded, with a detector and without one; no stretch that was gathered
/// without a detector is longer than eight seconds.
pub proof fn law_audio_keeps_the_session_bounded<S>(
    before: Session<S>,
    kind: LocalSpeechModelKind,
    samples: Seq<S>,
    detected: bool,
    segments: Seq<Seq<S>>,
)
    requires
        is_bounded(before),
    ensures
        is_bounded(fresh_session::<S>()),
        is_bounded(after_reading(before, kind, samples, detected, segments).0),
        is_bounded(after_buffering(before, samples).0),
        is_bounded(after_stream_reading(before, samples, detected).0),
        after_buffering(before, samples).1 matches WorkView::Final(stretches) ==> stretches.len() == 1
            && stretches[0].len() <= MAX_BUFFER_SAMPLES,
{
}

/// The streaming recogniser's reports keep a session bounded.
pub proof fn law_reports_keep_the_session_bounded<S>(
    before: Session<S>,
    samples: Seq<S>,
    was_active: bool,
    detected: bool,
    hypothesis: Seq<char>,
    endpoint: bool,
)
    requires
        is_bounded(before),
    ensures
        is_bounded(after_hypothesis(before, samples, was_active, detected, hypothesis, endpoint).0),
{
}

/// A provisional text is shown once: when the recogniser reports it again, nothing new is shown.
pub proof fn law_a_text_is_shown_once<S>(
    before: Session<S>,
    first: Seq<S>,
    second: Seq<S>,
    was_active: bool,
    hypothesis: Seq<char>,
)
    requires
        after_hypothesis(before, first, was_active, true, hypothesis, false).1 is Partial,
    ensures
        ({
            let shown = after_hypothesis(before, first, was_active, true, hypothesis, false).0;
            after_hypothesis(shown, second, true, true, hypothesis, false) == (
                shown,
                StreamWorkView::Nothing,
            )
        }),
{
}

/// The detector decides what kind of result there is: final texts exactly when a segment of
/// speech has ended, and provisional ones only while speech goes on.
pub proof fn law_results_follow_the_detector<S>(
    before: Session<S>,
    kind: LocalSpeechModelKind,
    samples: Seq<S>,
    detected: bool,
    segments: Seq<Seq<S>>,
)
    ensures
        ({
            let (after, work) = after_reading(before, kind, samples, detected, segments);
            &&& after.active == detected
            &&& work is Final <==> segments.len() > 0
            &&& work is Partial ==> detected
            &&& work matches WorkView::Partial(speech) ==> speech == after.speech
        }),
{
}

/// Speech that sets in is recognised with the audio from before it.
pub proof fn law_onset_includes_the_preroll<S>(
    before: Session<S>,
    kind: LocalSpeechModelKind,
    samples: Seq<S>,
)
    requires
        !before.active,
    ensures
        after_reading(before, kind, samples, true, Seq::empty()).0.speech == preroll_with(
            before.preroll,
            samples,
        ),
        after_stream_reading(before, samples, true).1 == Some(preroll_with(before.preroll, samples)),
{
}

/// While speech goes on, all of it is kept, and a provisional result comes exactly when enough new
/// speech has been gathered since the last one.
pub proof fn law_partial_results_are_spaced<S>(before: Session<S>, kind: LocalSpeechModelKind, samples: Seq<S>)
    requires
        before.active,
    ensures
        ({
            let (after, work) = after_reading(before, kind, samples, true, Seq::empty());
            &&& after.speech == before.speech + samples
            &&& work is Partial <==> after.speech.len() - before.last_partial >= partial_interval(kind)
            &&& work is Partial ==> after.last_partial - before.last_partial >= partial_interval(kind)
            &&& after.speech.len() - after.last_partial < partial_interval(kind)
        }),
{
}

/// What came of recognising a chunk of audio; there is nothing where no model is loaded.
pub fn process_audio_chunk(processed: Option<Result<LocalTranscriptResult, String>>) -> (result: Result<
    LocalTranscriptResult,
    String,
>)
    ensures
        match processed {
            Some(processed) => result == processed,
            None => result is Err && result->Err_0@ == "模型未加载。请在设置中下载模型后再使用本地推理。"@,
        },
{
    match processed {
        Some(processed) => processed,
        None => Err("模型未加载。请在设置中下载模型后再使用本地推理。".to_string()),
    }
}

/// What came of ending the speech that was going on; there is nothing where no model is loaded, and
/// then nothing is shown.
pub fn flush_local_model(flushed: Option<LocalTranscriptResult>) -> (result: LocalTranscriptResult)
    ensures
        match flushed {
            Some(flushed) => result == flushed,
            None => result.text@ == Seq::<char>::empty() && !result.is_final,
        },
{
    match flushed {
        Some(flushed) => flushed,
        None => LocalTranscriptResult::default(),
    }
}

/// The text of a stream that was finished is the recogniser's last result, tidied up, whatever
/// provisional text was shown before; only where that result is empty is it the provisional text that
/// was shown last.
pub proof fn law_the_last_result_counts<S>(
    before: Session<S>,
    samples: Seq<S>,
    was_active: bool,
    provisional: Seq<char>,
    last: Option<Seq<char>>,
)
    ensures
        recognized(last).len() > 0 ==> stream_text(before, last) == recognized(last),
        recognized(last).len() == 0 ==> stream_text(before, last) == before.last_text,
        ({
            let (shown, work) = after_hypothesis(before, samples, was_active, true, provisional, false);
            &&& recognized(last).len() > 0 ==> stream_text(shown, last) == recognized(last)
            &&& work is Partial && recognized(last).len() == 0 ==> stream_text(shown, last) == provisional
        }),
{
}

/// A result of the recogniser that is tidy and holds no token for an unknown word is the text of the
/// finished stream as it stands, but for white space around it.
pub proof fn law_a_clean_result_is_the_text<S>(before: Session<S>, result: Seq<char>)
    requires
        !crate::text::is_blank(result),
        !crate::text::occurs("<unk>"@, crate::text::trim(result)),
        !crate::text::occurs("<UNK>"@, crate::text::trim(result)),
    ensures
        crate::transcript::is_tidy(crate::text::trim(result)) ==> stream_text(before, Some(result))
            == crate::text::trim(result),
        crate::text::ink(stream_text(before, Some(result))) == crate::text::ink(crate::text::trim(result)),
{
    crate::transcript::law_recognised_words_are_shown(result);
}

/// What the streaming model does once the recogniser reported: it finishes the stream exactly when a
/// segment of speech has ended; otherwise it starts anew exactly when speech broke off; otherwise it
/// shows the recogniser's text, and nothing else, exactly while speech goes on and that text is new.
pub proof fn law_the_stream_follows_the_detector<S>(
    before: Session<S>,
    samples: Seq<S>,
    was_active: bool,
    detected: bool,
    hypothesis: Seq<char>,
    endpoint: bool,
)
    ensures
        ({
            let (after, work) = after_hypothesis(before, samples, was_active, detected, hypothesis, endpoint);
            let broke_off = was_active && !detected;
            let is_new = hypothesis.len() > 0 && hypothesis != before.last_text;
            &&& work is Finish <==> endpoint
            &&& work is Restart <==> !endpoint && broke_off
            &&& work is Partial <==> !endpoint && detected && is_new
            &&& work matches StreamWorkView::Partial(text) ==> text == hypothesis && after.last_text == hypothesis
            &&& work is Restart ==> after.last_text.len() == 0
            &&& work is Finish || work is Nothing ==> after.last_text == before.last_text
            &&& work is Nothing || work is Partial ==> after.preroll == before.preroll
            &&& after.active == before.active && after.speech == before.speech && after.buffer == before.buffer
        }),
{
}

/// The audio to keep from before speech is the latest of all that came in, a third of a second and
/// without gaps.
pub proof fn law_the_preroll_is_the_latest_audio<S>(preroll: Seq<S>, samples: Seq<S>)
    ensures
        ({
            let all = preroll + samples;
            let kept = preroll_with(preroll, samples);
            &&& kept.len() == (if all.len() < 5_120 {
                all.len() as int
            } else {
                5_120
            })
            &&& kept == all.skip(all.len() - kept.len())
        }),
{
    let all = preroll + samples;
    assert(all.skip(0) =~= all);
}

/// The streaming recogniser takes in all speech, and each sample of it once: with its onset the audio
/// kept from before it, of which then nothing is kept; and from then on all audio as it comes, up to
/// where speech ends. Without speech it takes in nothing, and the audio is kept.
pub proof fn law_the_stream_takes_in_all_speech<S>(before: Session<S>, samples: Seq<S>, more: Seq<S>, detected: bool)
    requires
        !before.active,
    ensures
        ({
            let (speaking, onset) = after_stream_reading(before, samples, true);
            let (later, rest) = after_stream_reading(speaking, more, detected);
            let all = before.preroll + samples;
            &&& onset is Some && onset->0.len() <= all.len() && onset->0 == all.skip(all.len() - onset->0.len())
            &&& all.len() <= 5_120 ==> onset->0 == all
            &&& onset->0.len() >= samples.len() || onset->0.len() == 5_120
            &&& speaking.preroll.len() == 0 && speaking.active
            &&& rest == Some(more) && later.active == detected
            &&& later.preroll.len() == 0
        }),
        ({
            let (silent, fed) = after_stream_reading(before, samples, false);
            &&& fed is None && !silent.active
            &&& silent.preroll == preroll_with(before.preroll, samples)
            &&& silent.last_text == before.last_text
        }),
{
    law_the_preroll_is_the_latest_audio(before.preroll, samples);
}

/// The stretches that the detector cut out are recognised, all of them and as they are; what is kept for
/// the next speech is the latest audio. Speech that breaks off without a stretch is forgotten, and so is
/// what a provisional result covered.
pub proof fn law_ended_speech_is_recognised<S>(
    before: Session<S>,
    kind: LocalSpeechModelKind,
    samples: Seq<S>,
    detected: bool,
    segments: Seq<Seq<S>>,
)
    requires
        segments.len() > 0,
    ensures
        ({
            let (after, work) = after_reading(before, kind, samples, detected, segments);
            &&& work == WorkView::Final(segments)
            &&& after.preroll == preroll_with(Seq::empty(), samples)
            &&& after.speech == (if detected {
                preroll_with(Seq::empty(), samples)
            } else {
                Seq::<S>::empty()
            })
            &&& after.last_partial == 0 && after.active == detected
            &&& after.buffer == before.buffer && after.last_text == before.last_text
        }),
        ({
            let (after, work) = after_reading(before, kind, samples, false, Seq::empty());
            &&& work is Nothing && !after.active
            &&& before.active ==> after.speech.len() == 0 && after.last_partial == 0 && after.preroll == before.preroll
            &&& !before.active ==> after.preroll == preroll_with(before.preroll, samples) && after.speech == before.speech
        }),
{
    assert(Seq::<S>::empty() + samples =~= samples);
}

/// A provisional result covers the speech from its onset on, all of it: also where speech has just set
/// in.
pub proof fn law_provisional_results_cover_the_speech<S>(
    before: Session<S>,
    kind: LocalSpeechModelKind,
    samples: Seq<S>,
)
    ensures
        ({
            let (after, work) = after_reading(before, kind, samples, true, Seq::empty());
            let speech = if before.active {
                before.speech + samples
            } else {
                preroll_with(before.preroll, samples)
            };
            let covered = if before.active {
                before.last_partial
            } else {
                0
            };
            &&& after.active && after.speech == speech
            &&& work is Partial <==> speech.len() - covered >= (if kind == LocalSpeechModelKind::SenseVoice {
                20_480int
            } else {
                12_288int
            })
            &&& work matches WorkView::Partial(audio) ==> audio == speech && after.last_partial == speech.len()
            &&& !(work is Partial) ==> work is Nothing && after.last_partial == covered
        }),
{
}

/// Without a detector, audio is gathered until there is a second of it, and then recognised at once, the
/// latest eight seconds of it; nothing is recognised twice.
pub proof fn law_gathered_audio_is_recognised<S>(before: Session<S>, samples: Seq<S>)
    ensures
        ({
            let (after, work) = after_buffering(before, samples);
            let all = before.buffer + samples;
            if all.len() < 16_000 {
                work is Nothing && after.buffer == all
            } else {
                &&& after.buffer.len() == 0
                &&& work matches WorkView::Final(stretches) && stretches.len() == 1 && stretches[0].len() == (
                if all.len() < 128_000 {
                    all.len() as int
                } else {
                    128_000
                }) && stretches[0] == all.skip(all.len() - stretches[0].len())
            }
        }),
{
    let all = before.buffer + samples;
    assert(all.skip(0) =~= all);
}

/// At the end nothing that was heard is lost: where the detector still had stretches of speech, all of
/// them are recognised; otherwise the speech that was going on is; and without a detector, the audio that
/// was gathered. The session then holds none of it any more, and a second end has no speech to recognise.
pub proof fn law_the_end_loses_no_speech<S>(before: Session<S>, segments: Seq<Seq<S>>)
    ensures
        ({
            let (after, work) = after_flush(before, Some(segments));
            &&& segments.len() > 0 ==> work == WorkView::Final(segments)
            &&& segments.len() == 0 && before.speech.len() > 0 ==> work == WorkView::Final(seq![before.speech])
            &&& segments.len() == 0 && before.speech.len() == 0 ==> work == WorkView::Final(Seq::<Seq<S>>::empty())
            &&& after.speech.len() == 0 && after.preroll.len() == 0 && after.last_partial == 0 && !after.active
            &&& after_flush(after, Some(Seq::empty())).1 == WorkView::Final(Seq::<Seq<S>>::empty())
        }),
        ({
            let (after, work) = after_flush(before, None);
            &&& work == WorkView::Final(seq![before.buffer])
            &&& after.buffer.len() == 0
        }),
{
    if segments.len() == 0 {
        assert(segments =~= Seq::<Seq<S>>::empty());
    }
}

/// What is shown is final exactly when speech has ended; a provisional text is shown as it was
/// recognised, and so is the final text of a single stretch.
pub proof fn law_final_results_are_those_of_ended_speech<S>(work: WorkView<S>, texts: Seq<Seq<char>>)
    requires
        texts.len() == stretch_count(work),
    ensures
        shown_work(work, texts).1 <==> work is Final,
        work is Partial ==> shown_work(work, texts).0 == texts[0],
        work is Nothing ==> shown_work(work, texts).0.len() == 0,
        work is Final && texts.len() == 0 ==> shown_work(work, texts).0.len() == 0,
        work is Final && texts.len() == 1 ==> shown_work(work, texts).0 == texts[0],
{
    if work is Final {
        crate::transcript::law_parts_follow_each_other(Seq::empty(), texts[0]);
        crate::transcript::law_empty_texts_are_left_out(Seq::empty(), Seq::empty(), texts[0]);
        if texts.len() == 1 {
            assert(texts =~= seq![texts[0]]);
            if texts[0].len() == 0 {
                assert(texts[0] =~= Seq::<char>::empty());
            }
        } else if texts.len() == 0 {
            reveal(Seq::filter);
            assert(nonempty_texts(texts) =~= Seq::<Seq<char>>::empty());
        }
    }
}

/// A text that is not empty, of a further stretch of speech that has ended, is shown behind those of the
/// stretches before it, with a space exactly where letters or digits of ASCII would meet; an empty one
/// changes nothing.
pub proof fn law_final_texts_follow_each_other<S>(
    stretches: Seq<Seq<S>>,
    stretch: Seq<S>,
    texts: Seq<Seq<char>>,
    text: Seq<char>,
)
    ensures
        ({
            let before = shown_work(WorkView::Final(stretches), texts).0;
            let after = shown_work(WorkView::Final(stretches.push(stretch)), texts.push(text)).0;
            let spaced = before.len() > 0 && text.len() > 0 && crate::text::is_ascii_alnum(before.last())
                && crate::text::is_ascii_alnum(text[0]);
            &&& spaced ==> after == before + seq![' '] + text
            &&& !spaced ==> after == before + text
        }),
{
    crate::transcript::law_empty_texts_are_left_out(texts, seq![text], text);
    assert(texts + seq![text] =~= texts.push(text));
    let kept = nonempty_texts(texts);
    crate::transcript::law_parts_follow_each_other(kept, text);
    if text.len() == 0 {
        assert(kept + Seq::<Seq<char>>::empty() =~= kept);
        assert(joined_parts(kept) + text =~= joined_parts(kept));
    } else {
        assert(kept + seq![text] =~= kept.push(text));
    }
}

/// Of a stream the provisional text is shown while it goes on, and the finished one, as the final text,
/// exactly when the sentence has ended; otherwise nothing is.
pub proof fn law_streams_show_what_they_heard(work: StreamWorkView, finished: Seq<char>)
    ensures
        shown_stream(work, finished).1 <==> work is Finish,
        work is Finish ==> shown_stream(work, finished).0 == finished,
        work matches StreamWorkView::Partial(text) ==> shown_stream(work, finished).0 == text,
        work is Nothing || work is Restart ==> shown_stream(work, finished).0.len() == 0,
{
}

/// A session that has just started has heard nothing and shown nothing.
pub proof fn law_a_new_session_is_empty<S>()
    ensures
        ({
            let session = fresh_session::<S>();
            &&& session.last_text.len() == 0 && session.buffer.len() == 0 && session.speech.len() == 0
            &&& session.preroll.len() == 0 && session.last_partial == 0 && !session.active
        }),
{
}

/// Once a sentence has ended or speech broke off, the audio kept for the next one is the latest, and
/// none of it where speech goes on, whose audio the recogniser takes in itself.
pub proof fn law_the_next_sentence_has_its_onset<S>(
    before: Session<S>,
    samples: Seq<S>,
    was_active: bool,
    hypothesis: Seq<char>,
)
    ensures
        after_hypothesis(before, samples, was_active, true, hypothesis, true).0.preroll.len() == 0,
        after_hypothesis(before, samples, was_active, false, hypothesis, true).0.preroll == preroll_with(
            Seq::empty(),
            samples,
        ),
        after_hypothesis(before, samples, true, false, hypothesis, false).0.preroll == preroll_with(
            Seq::empty(),
            samples,
        ),
{
    assert(Seq::<S>::empty() + samples =~= samples);
}

/// Each way of listening leaves alone what the others hold.
pub proof fn law_ways_of_listening_are_kept_apart<S>(
    before: Session<S>,
    samples: Seq<S>,
    detected: bool,
    segments: Option<Seq<Seq<S>>>,
)
    ensures
        ({
            let after = after_buffering(before, samples).0;
            after.speech == before.speech && after.preroll == before.preroll && after.last_text == before.last_text
                && after.active == before.active && after.last_partial == before.last_partial
        }),
        ({
            let after = after_stream_reading(before, samples, detected).0;
            after.speech == before.speech && after.buffer == before.buffer && after.last_text == before.last_text
                && after.last_partial == before.last_partial && after.active == detected
        }),
        ({
            let after = after_flush(before, segments).0;
            after.last_text == before.last_text && (segments is Some ==> after.buffer == before.buffer) && (
            segments is None ==> after.speech == before.speech && after.active == before.active)
        }),
{
}

/// The measures of listening, at the rate of the models: a second is gathered without a detector and
/// eight are recognised at most, and SenseVoice waits longer for its provisional results than the others.
pub proof fn law_measures_of_listening()
    ensures
        DEFAULT_CHUNK_SAMPLES == crate::speech_model::TARGET_SAMPLE_RATE,
        MAX_BUFFER_SAMPLES == 8 * crate::speech_model::TARGET_SAMPLE_RATE,
        SPEECH_PREROLL_SAMPLES == 10 * 512,
        partial_interval(LocalSpeechModelKind::SenseVoice) == 40 * 512,
        partial_interval(LocalSpeechModelKind::ZipformerZh) == 24 * 512,
{
}

/// What came of recognising is handed on as it is, be it a failure; without a model it is one, and at
/// the end nothing is shown then.
pub proof fn law_results_are_handed_on(
    processed: Result<LocalTranscriptResult, String>,
    result: Result<LocalTranscriptResult, String>,
    without: Result<LocalTranscriptResult, String>,
    flushed: LocalTranscriptResult,
    shown: LocalTranscriptResult,
)
    requires
        call_ensures(process_audio_chunk, (Some(processed),), result),
        call_ensures(process_audio_chunk, (None,), without),
        call_ensures(flush_local_model, (Some(flushed),), shown),
    ensures
        result == processed,
        without is Err,
        shown == flushed,
{
}

/// A stream that is finished gives the recogniser's last result, tidied up, unless that is empty; then
/// it gives the provisional text. Either way that text is then gone, and the rest of the session stays.
pub proof fn law_finished_streams_give_the_last_result<S: Copy>(
    model: &mut SherpaOfflineModel<S>,
    last: Option<String>,
    text: String,
)
    requires
        call_ensures(SherpaOfflineModel::<S>::finish_stream, (model, last), text),
    ensures
        recognized(option_view(last)).len() > 0 ==> text@ == recognized(option_view(last)),
        recognized(option_view(last)).len() == 0 ==> text@ == old(model).session().last_text,
        final(model).session().last_text.len() == 0,
        final(model).session().speech == old(model).session().speech,
        final(model).session().preroll == old(model).session().preroll,
        final(model).session().active == old(model).session().active,
{
    law_the_last_result_counts(old(model).session(), Seq::empty(), false, Seq::empty(), option_view(last));
}

/// The end of a stream gives the text that finishing it gives, and speech is not going on any more.
pub proof fn law_the_end_of_a_stream_gives_its_text<S: Copy>(
    model: &mut SherpaOfflineModel<S>,
    last: Option<String>,
    text: String,
)
    requires
        call_ensures(SherpaOfflineModel::<S>::flush_stream, (model, last), text),
    ensures
        recognized(option_view(last)).len() > 0 ==> text@ == recognized(option_view(last)),
        recognized(option_view(last)).len() == 0 ==> text@ == old(model).session().last_text,
        !final(model).session().active && final(model).session().last_text.len() == 0,
{
    law_the_last_result_counts(old(model).session(), Seq::empty(), false, Seq::empty(), option_view(last));
}

/// A session that is reset holds nothing of what was heard, and is for the same model and language.
pub proof fn law_a_reset_forgets_all<S: Copy>(model: &mut SherpaOfflineModel<S>)
    requires
        call_ensures(SherpaOfflineModel::<S>::reset_session, (model,), ()),
    ensures
        final(model).kind() == old(model).kind() && final(model).language() == old(model).language(),
        final(model).session().last_text.len() == 0 && final(model).session().buffer.len() == 0,
        final(model).session().speech.len() == 0 && final(model).session().preroll.len() == 0,
        !final(model).session().active,
{
}

} // verus!
