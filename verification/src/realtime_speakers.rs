//! Telling speakers apart while a recording is going on.
//!
//! `S` is the type of an audio sample and `E` the type of a voice embedding; both are moved and
//! never looked at. Similarities come in as the bit patterns of single-precision numbers.

use vstd::prelude::*;

use crate::float_bits::{
    at_least, below, clamp_to_unit, is_at_least, is_below, is_last_highest, is_nan, last_highest,
    law_clamped_numbers_lie_in_the_range, total_rank, unit_clamped, ONE_BITS,
};
use crate::inference::{keep_latest, last_of};
use crate::text::copied;
use crate::transcript::option_view;

verus! {

/// How much audio one analysis takes, in samples: three seconds.
pub const REALTIME_WINDOW_SAMPLES: usize = 48_000;

/// How much new audio lies between two analyses, in samples.
pub const REALTIME_INTERVAL_SAMPLES: usize = 24_000;

/// The loudness below which audio is not analysed: 0.006.
pub const REALTIME_MIN_RMS_BITS: u32 = 0x3bc4_9ba6;

/// The similarity from which a voice is one that is known: 0.48.
pub const REALTIME_MATCH_THRESHOLD_BITS: u32 = 0x3ef5_c28f;

/// The similarity from which two unknown voices are one new speaker: 0.65.
pub const REALTIME_NEW_SPEAKER_THRESHOLD_BITS: u32 = 0x3f26_6666;

/// The most speakers that are told apart.
pub const REALTIME_MAX_SPEAKERS: usize = 6;

/// What is known of a speaker's voice.
pub struct SpeakerCentroid<E> {
    pub embedding: E,
    pub observations: u32,
}

/// Which speaker a stretch of audio belongs to.
#[derive(Clone, Copy, Debug, PartialEq, Eq, Structural)]
pub struct RealtimeClassification {
    pub speaker: u32,
    /// The similarity, as the bit pattern of a number from 0 to 1.
    pub confidence_bits: u32,
}

/// Who is speaking, as it is shown.
#[derive(Clone, Copy, Debug, PartialEq, Eq, Structural)]
pub struct RealtimeSpeakerEvent {
    pub speaker: u32,
    pub speaker_count: u32,
    pub confidence_bits: u32,
    /// Where the analysed audio ends in the recording, in milliseconds.
    pub analyzed_end_ms: u64,
}

/// How telling speakers apart goes on, as it is shown.
#[derive(Clone, Debug)]
pub struct RealtimeSpeakerStatusEvent {
    pub status: String,
    pub error: Option<String>,
}

impl RealtimeSpeakerStatusEvent {
    /// This says `status` and no error.
    pub open spec fn says(&self, status: Seq<char>) -> bool {
        self.status@ == status && self.error is None
    }

    /// This says that it failed, with `error`.
    pub open spec fn says_failed(&self, error: Seq<char>) -> bool {
        self.status@ == "failed"@ && option_view(self.error) == Some(error)
    }
}

/// What is shown when telling speakers apart has failed.
pub fn failed_status(error: String) -> (status: RealtimeSpeakerStatusEvent)
    ensures
        status.says_failed(error@),
{
    RealtimeSpeakerStatusEvent { status: "failed".to_string(), error: Some(error) }
}

/// What can keep a voice from being made out.
#[derive(Clone, Copy, Debug, PartialEq, Eq, Structural)]
pub enum ExtractionFault {
    Unavailable,
    NotLoaded,
    NoStream,
    TooShort,
    NoEmbedding,
}

/// What is said when a voice cannot be made out.
pub fn extraction_fault(fault: ExtractionFault) -> (message: String)
    ensures
        message@ == match fault {
            ExtractionFault::Unavailable => "实时音色模型状态不可用"@,
            ExtractionFault::NotLoaded => "实时音色模型尚未加载"@,
            ExtractionFault::NoStream => "无法创建实时音色分析流"@,
            ExtractionFault::TooShort => "当前语音片段过短，无法提取音色"@,
            ExtractionFault::NoEmbedding => "实时音色特征提取失败"@,
        },
{
    match fault {
        ExtractionFault::Unavailable => "实时音色模型状态不可用".to_string(),
        ExtractionFault::NotLoaded => "实时音色模型尚未加载".to_string(),
        ExtractionFault::NoStream => "无法创建实时音色分析流".to_string(),
        ExtractionFault::TooShort => "当前语音片段过短，无法提取音色".to_string(),
        ExtractionFault::NoEmbedding => "实时音色特征提取失败".to_string(),
    }
}

/// How much a new observation counts in what is known of a voice.
#[derive(Clone, Copy, Debug, PartialEq, Eq, Structural)]
pub enum CentroidWeight {
    /// One part in `count`: a plain mean.
    OneIn { count: u32 },
    /// A steady share, for a voice that is well known.
    Steady,
}

/// How much a new observation counts after `observations` of them.
pub open spec fn weight_after(observations: u32) -> CentroidWeight {
    if observations < 5 {
        CentroidWeight::OneIn { count: (observations + 1) as u32 }
    } else {
        CentroidWeight::Steady
    }
}

/// What the session holds.
pub struct RealtimeState<S, E> {
    pub generation: u64,
    pub active: bool,
    pub model_ready: bool,
    pub samples: Seq<S>,
    pub total_samples: u64,
    pub samples_since_analysis: usize,
    pub analysis_in_flight: bool,
    pub centroids: Seq<SpeakerCentroid<E>>,
    pub pending_unknown: Option<E>,
}

/// A session in which nothing has been heard.
pub open spec fn fresh_state<S, E>(generation: u64, active: bool) -> RealtimeState<S, E> {
    RealtimeState {
        generation,
        active,
        model_ready: false,
        samples: Seq::empty(),
        total_samples: 0,
        samples_since_analysis: 0,
        analysis_in_flight: false,
        centroids: Seq::empty(),
        pending_unknown: None,
    }
}

/// The generation after `generation`.
pub open spec fn next_generation(generation: u64) -> u64 {
    if generation == u64::MAX {
        0
    } else {
        (generation + 1) as u64
    }
}

/// The state after `samples` came in, and whether an analysis is due.
pub open spec fn after_audio<S, E>(before: RealtimeState<S, E>, samples: Seq<S>) -> (RealtimeState<S, E>, bool) {
    if samples.len() == 0 || !before.active {
        (before, false)
    } else {
        let total = before.total_samples + samples.len();
        let since = before.samples_since_analysis + samples.len();
        let window = last_of(before.samples + samples, REALTIME_WINDOW_SAMPLES as int);
        let due = before.model_ready && !before.analysis_in_flight && window.len()
            >= REALTIME_WINDOW_SAMPLES && since >= REALTIME_INTERVAL_SAMPLES;
        (
            RealtimeState {
                samples: window,
                total_samples: if total > u64::MAX {
                    u64::MAX
                } else {
                    total as u64
                },
                samples_since_analysis: if due {
                    0
                } else if since > usize::MAX {
                    usize::MAX
                } else {
                    since as usize
                },
                ..before
            },
            due,
        )
    }
}

/// An analysis to be made.
pub struct AnalysisJob<S> {
    pub generation: u64,
    pub window: Vec<S>,
    /// Where the window ends in the recording, in milliseconds.
    pub analyzed_end_ms: u64,
}

/// The end of the audio so far, in milliseconds.
pub open spec fn end_ms(total_samples: u64) -> int {
    (if total_samples * 1_000 > u64::MAX {
        u64::MAX as int
    } else {
        total_samples * 1_000
    }) / 16_000
}

/// What follows from the similarities of a voice to those that are known.
pub enum ClassifyStep<E> {
    /// The voice is told apart.
    Known(RealtimeClassification),
    /// The voice is that of a known speaker; what is known of it is to be refined with
    /// `embedding`, by `weight`.
    Refine { classification: RealtimeClassification, weight: CentroidWeight, embedding: E },
    /// The voice is unknown; it has to be heard once more.
    Undecided,
    /// The voice was heard twice and is that of a new speaker, whose embedding is the mean of the
    /// two.
    NewSpeaker { pending: E, embedding: E, confidence_bits: u32 },
}

/// The state after a voice was compared with those that are known, and what follows. `best` is
/// the most similar known voice; `pending_score` the similarity to the unknown voice heard last.
pub open spec fn after_comparison<S, E>(
    before: RealtimeState<S, E>,
    embedding: E,
    scores: Seq<u32>,
    best: int,
    pending_score: Option<u32>,
) -> (RealtimeState<S, E>, ClassifyStep<E>) {
    if before.centroids.len() == 0 {
        (
            RealtimeState {
                centroids: seq![SpeakerCentroid { embedding, observations: 1 }],
                ..before
            },
            ClassifyStep::Known(RealtimeClassification { speaker: 0, confidence_bits: ONE_BITS }),
        )
    } else {
        let classification = RealtimeClassification {
            speaker: best as u32,
            confidence_bits: unit_clamped(scores[best]),
        };
        let forgotten = RealtimeState { pending_unknown: None, ..before };
        let remembered = RealtimeState { pending_unknown: Some(embedding), ..before };
        if is_at_least(scores[best], REALTIME_MATCH_THRESHOLD_BITS) {
            (
                forgotten,
                ClassifyStep::Refine {
                    classification,
                    weight: weight_after(before.centroids[best].observations),
                    embedding,
                },
            )
        } else if before.centroids.len() >= REALTIME_MAX_SPEAKERS {
            (forgotten, ClassifyStep::Known(classification))
        } else {
            match (before.pending_unknown, pending_score) {
                (Some(pending), Some(score)) if !is_below(score, REALTIME_NEW_SPEAKER_THRESHOLD_BITS) => (
                    forgotten,
                    ClassifyStep::NewSpeaker {
                        pending,
                        embedding,
                        confidence_bits: unit_clamped(score),
                    },
                ),
                _ => (remembered, ClassifyStep::Undecided),
            }
        }
    }
}

/// The state after a voice was heard, and what follows. A voice without a usable embedding changes
/// nothing.
pub open spec fn after_hearing<S, E>(
    before: RealtimeState<S, E>,
    embedding: Option<E>,
    scores: Seq<u32>,
    best: int,
    pending_score: Option<u32>,
) -> (RealtimeState<S, E>, ClassifyStep<E>) {
    match embedding {
        Some(embedding) => after_comparison(before, embedding, scores, best, pending_score),
        None => (before, ClassifyStep::Undecided),
    }
}

/// The state after the embedding of a known speaker was refined to `embedding`.
pub open spec fn after_refinement<S, E>(before: RealtimeState<S, E>, speaker: int, embedding: E) -> RealtimeState<
    S,
    E,
> {
    RealtimeState {
        centroids: before.centroids.update(
            speaker,
            SpeakerCentroid { embedding, observations: (before.centroids[speaker].observations + 1) as u32 },
        ),
        ..before
    }
}

/// The state after a new speaker was added, who was heard twice, and who the voice belongs to; none
/// where the two voices have no mean.
pub open spec fn after_addition<S, E>(
    before: RealtimeState<S, E>,
    embedding: Option<E>,
    confidence_bits: u32,
) -> (RealtimeState<S, E>, Option<RealtimeClassification>) {
    match embedding {
        Some(embedding) => (
            RealtimeState {
                centroids: before.centroids.push(SpeakerCentroid { embedding, observations: 2 }),
                ..before
            },
            Some(RealtimeClassification { speaker: before.centroids.len() as u32, confidence_bits }),
        ),
        None => (before, None),
    }
}

/// The state after a step was carried out, and whose voice was heard. `mixed` is the embedding that
/// the step asks for: the refined one, or the mean of two.
pub open spec fn after_step<S, E>(
    before: RealtimeState<S, E>,
    step: ClassifyStep<E>,
    mixed: Option<E>,
) -> (RealtimeState<S, E>, Option<RealtimeClassification>) {
    match step {
        ClassifyStep::Known(classification) => (before, Some(classification)),
        ClassifyStep::Refine { classification, .. } => (
            after_refinement(before, classification.speaker as int, mixed->0),
            Some(classification),
        ),
        ClassifyStep::Undecided => (before, None),
        ClassifyStep::NewSpeaker { confidence_bits, .. } => after_addition(before, mixed, confidence_bits),
    }
}

/// The step can be carried out, with `mixed` as the embedding that it asks for.
pub open spec fn can_follow<S, E>(state: RealtimeState<S, E>, step: ClassifyStep<E>, mixed: Option<E>) -> bool {
    match step {
        ClassifyStep::Refine { classification, .. } => mixed is Some && classification.speaker
            < state.centroids.len() && state.centroids[classification.speaker as int].observations < u32::MAX,
        ClassifyStep::NewSpeaker { .. } => state.centroids.len() < REALTIME_MAX_SPEAKERS,
        _ => true,
    }
}

/// The speakers of a recording that is going on.
pub struct RealtimeSpeakerSession<S, E> {
    generation: u64,
    active: bool,
    model_ready: bool,
    samples: Vec<S>,
    total_samples: u64,
    samples_since_analysis: usize,
    analysis_in_flight: bool,
    centroids: Vec<SpeakerCentroid<E>>,
    pending_unknown: Option<E>,
}

impl<S, E> RealtimeSpeakerSession<S, E> {
    /// What the session holds.
    pub closed spec fn state(&self) -> RealtimeState<S, E> {
        RealtimeState {
            generation: self.generation,
            active: self.active,
            model_ready: self.model_ready,
            samples: self.samples@,
            total_samples: self.total_samples,
            samples_since_analysis: self.samples_since_analysis,
            analysis_in_flight: self.analysis_in_flight,
            centroids: self.centroids@,
            pending_unknown: self.pending_unknown,
        }
    }

    /// A session holds one window of audio at most, and no more speakers than are told apart.
    #[verifier::type_invariant]
    closed spec fn well_formed(&self) -> bool {
        is_bounded(self.state())
    }
}

impl<S: Copy, E> RealtimeSpeakerSession<S, E> {
    /// A session that is not active.
    pub fn new() -> (session: Self)
        ensures
            session.state() == fresh_state::<S, E>(0, false),
    {
        let session = RealtimeSpeakerSession {
            generation: 0,
            active: false,
            model_ready: false,
            samples: Vec::new(),
            total_samples: 0,
            samples_since_analysis: 0,
            analysis_in_flight: false,
            centroids: Vec::new(),
            pending_unknown: None,
        };
        assert(session.state() =~= fresh_state::<S, E>(0, false));
        session
    }

    /// Forgets all that was heard and starts the next generation, active or not.
    pub fn restart(&mut self, enabled: bool) -> (generation: u64)
        ensures
            generation == next_generation(old(self).state().generation),
            final(self).state() == fresh_state::<S, E>(generation, enabled),
    {
        proof {
            use_type_invariant(&*self);
        }
        let generation: u64 = self.generation.wrapping_add(1);
        self.generation = generation;
        self.active = enabled;
        self.model_ready = false;
        self.samples = Vec::new();
        self.total_samples = 0;
        self.samples_since_analysis = 0;
        self.analysis_in_flight = false;
        self.centroids = Vec::new();
        self.pending_unknown = None;
        assert(self.state() =~= fresh_state::<S, E>(generation, enabled));
        generation
    }

    /// Takes note that loading the embedding model has ended, for the session of `generation`.
    /// Says whether that session is still going on.
    pub fn model_loaded(&mut self, generation: u64, loaded: bool) -> (current: bool)
        ensures
            current == (old(self).state().active && old(self).state().generation == generation),
            final(self).state() == (if current {
                RealtimeState { model_ready: loaded, active: loaded, ..old(self).state() }
            } else {
                old(self).state()
            }),
    {
        proof {
            use_type_invariant(&*self);
        }
        if self.active && self.generation == generation {
            self.model_ready = loaded;
            if !loaded {
                self.active = false;
            }
            true
        } else {
            false
        }
    }

    /// Starts a session for a new recording, and says what is shown: that the model is being loaded,
    /// or that nothing is done where it is not enabled.
    pub fn start_realtime(&mut self, enabled: bool) -> (started: (u64, RealtimeSpeakerStatusEvent))
        ensures
            started.0 == next_generation(old(self).state().generation),
            final(self).state() == fresh_state::<S, E>(started.0, enabled),
            started.1.says(
                if enabled {
                    "loading"@
                } else {
                    "idle"@
                },
            ),
    {
        let generation: u64 = self.restart(enabled);
        let status = if enabled {
            "loading".to_string()
        } else {
            "idle".to_string()
        };
        (generation, RealtimeSpeakerStatusEvent { status, error: None })
    }

    /// Ends the session of a recording, and says what is shown.
    pub fn stop_realtime(&mut self) -> (status: RealtimeSpeakerStatusEvent)
        ensures
            final(self).state() == fresh_state::<S, E>(next_generation(old(self).state().generation), false),
            status.says("idle"@),
    {
        let _generation: u64 = self.restart(false);
        RealtimeSpeakerStatusEvent { status: "idle".to_string(), error: None }
    }

    /// Takes note of what came of loading the embedding model for the session of `generation`, and
    /// says what is shown: nothing where that session is over.
    pub fn finish_loading(&mut self, generation: u64, result: Result<(), String>) -> (status: Option<
        RealtimeSpeakerStatusEvent,
    >)
        ensures
            ({
                let before = old(self).state();
                if before.active && before.generation == generation {
                    &&& final(self).state() == (RealtimeState {
                        model_ready: result is Ok,
                        active: result is Ok,
                        ..before
                    })
                    &&& status is Some
                    &&& match result {
                        Ok(_) => status->0.says("ready"@),
                        Err(error) => status->0.says_failed(error@),
                    }
                } else {
                    final(self).state() == before && status is None
                }
            }),
    {
        if !self.model_loaded(generation, result.is_ok()) {
            return None;
        }
        match result {
            Ok(_) => Some(RealtimeSpeakerStatusEvent { status: "ready".to_string(), error: None }),
            Err(error) => Some(failed_status(error)),
        }
    }

    /// Makes the event that shows who is speaking.
    pub fn speaker_event(&self, classification: RealtimeClassification, analyzed_end_ms: u64) -> (event:
        RealtimeSpeakerEvent)
        ensures
            event == (RealtimeSpeakerEvent {
                speaker: classification.speaker,
                speaker_count: self.state().centroids.len() as u32,
                confidence_bits: classification.confidence_bits,
                analyzed_end_ms,
            }),
    {
        proof {
            use_type_invariant(self);
        }
        RealtimeSpeakerEvent {
            speaker: classification.speaker,
            speaker_count: self.centroids.len() as u32,
            confidence_bits: classification.confidence_bits,
            analyzed_end_ms,
        }
    }

    /// Takes in audio, and says whether an analysis is due.
    pub fn append_samples(&mut self, samples: &[S]) -> (due: bool)
        ensures
            (final(self).state(), due) == after_audio(old(self).state(), samples@),
    {
        let ghost expected = after_audio(self.state(), samples@);
        proof {
            use_type_invariant(&*self);
        }
        if samples.len() == 0 || !self.active {
            return false;
        }
        let count: usize = samples.len();
        self.total_samples = self.total_samples.saturating_add(count as u64);
        self.samples_since_analysis = self.samples_since_analysis.saturating_add(count);
        let mut window: Vec<S> = Vec::new();
        std::mem::swap(&mut window, &mut self.samples);
        self.samples = keep_latest(window, samples, REALTIME_WINDOW_SAMPLES);
        let due = self.model_ready && !self.analysis_in_flight && self.samples.len()
            >= REALTIME_WINDOW_SAMPLES && self.samples_since_analysis >= REALTIME_INTERVAL_SAMPLES;
        if due {
            self.samples_since_analysis = 0;
        }
        assert(self.state() =~= expected.0);
        due
    }

    /// The audio that an analysis takes.
    pub fn window(&self) -> (window: &Vec<S>)
        ensures
            window@ == self.state().samples,
            window@.len() <= REALTIME_WINDOW_SAMPLES,
    {
        proof {
            use_type_invariant(self);
        }
        &self.samples
    }

    /// Starts an analysis that is due, unless the window is too quiet. `rms_bits` is the root mean
    /// square of the window.
    pub fn begin_analysis(&mut self, rms_bits: u32) -> (job: Option<AnalysisJob<S>>)
        ensures
            job is None <==> is_below(rms_bits, REALTIME_MIN_RMS_BITS),
            job is None ==> final(self).state() == old(self).state(),
            job matches Some(job) ==> {
                &&& final(self).state() == (RealtimeState { analysis_in_flight: true, ..old(self).state() })
                &&& job.generation == old(self).state().generation
                &&& job.window@ == old(self).state().samples
                &&& job.analyzed_end_ms == end_ms(old(self).state().total_samples)
            },
    {
        proof {
            use_type_invariant(&*self);
        }
        if below(rms_bits, REALTIME_MIN_RMS_BITS) {
            return None;
        }
        let ghost before = self.state();
        self.analysis_in_flight = true;
        assert(self.state() =~= (RealtimeState { analysis_in_flight: true, ..before }));
        let thousandfold: u64 = if self.total_samples > u64::MAX / 1_000 {
            u64::MAX
        } else {
            self.total_samples * 1_000
        };
        let window = copied(&self.samples, 0, self.samples.len());
        assert(self.samples@.subrange(0, self.samples@.len() as int) == self.samples@);
        Some(
            AnalysisJob {
                generation: self.generation,
                window,
                analyzed_end_ms: thousandfold / 16_000,
            },
        )
    }

    /// Takes note that an analysis of the session of `generation` has ended. Says whether its
    /// result counts: not when the session is over.
    pub fn end_analysis(&mut self, generation: u64) -> (current: bool)
        ensures
            current == (old(self).state().active && old(self).state().generation == generation),
            final(self).state() == (if current {
                RealtimeState { analysis_in_flight: false, ..old(self).state() }
            } else {
                old(self).state()
            }),
    {
        proof {
            use_type_invariant(&*self);
        }
        if !self.active || self.generation != generation {
            return false;
        }
        let ghost before = self.state();
        self.analysis_in_flight = false;
        assert(self.state() =~= (RealtimeState { analysis_in_flight: false, ..before }));
        true
    }

    /// Takes note that an analysis of the session of `generation` has failed, and says what is shown:
    /// nothing where that session is over. Otherwise the session ends.
    pub fn fail_analysis(&mut self, generation: u64, error: String) -> (status: Option<RealtimeSpeakerStatusEvent>)
        ensures
            ({
                let before = old(self).state();
                if before.active && before.generation == generation {
                    &&& final(self).state() == (RealtimeState {
                        analysis_in_flight: false,
                        active: false,
                        ..before
                    })
                    &&& status is Some
                    &&& status->0.says_failed(error@)
                } else {
                    final(self).state() == before && status is None
                }
            }),
    {
        if !self.end_analysis(generation) {
            return None;
        }
        proof {
            use_type_invariant(&*self);
        }
        let ghost ended = self.state();
        self.active = false;
        assert(self.state() =~= (RealtimeState { active: false, ..ended }));
        Some(failed_status(error))
    }

    /// How many speakers are told apart.
    pub fn speaker_count(&self) -> (count: usize)
        ensures
            count == self.state().centroids.len(),
            count <= REALTIME_MAX_SPEAKERS,
    {
        proof {
            use_type_invariant(self);
        }
        self.centroids.len()
    }

    /// What is known of a speaker's voice.
    pub fn centroid(&self, speaker: usize) -> (centroid: &SpeakerCentroid<E>)
        requires
            speaker < self.state().centroids.len(),
        ensures
            *centroid == self.state().centroids[speaker as int],
    {
        &self.centroids[speaker]
    }

    /// The unknown voice heard last.
    pub fn pending(&self) -> (pending: Option<&E>)
        ensures
            match pending {
                Some(pending) => self.state().pending_unknown == Some(*pending),
                None => self.state().pending_unknown is None,
            },
    {
        match &self.pending_unknown {
            Some(pending) => Some(pending),
            None => None,
        }
    }

    /// Decides whose voice `embedding` is, where it is usable. `scores` are its similarities to the
    /// known speakers, `pending_score` the one to the unknown voice heard last.
    pub fn classify(&mut self, embedding: Option<E>, scores: &Vec<u32>, pending_score: Option<u32>) -> (step:
        ClassifyStep<E>)
        requires
            embedding is Some ==> scores@.len() == old(self).state().centroids.len(),
            embedding is Some && old(self).state().pending_unknown is Some ==> pending_score is Some,
        ensures
            embedding is None || scores@.len() == 0 ==> (final(self).state(), step) == after_hearing(
                old(self).state(),
                embedding,
                scores@,
                0,
                pending_score,
            ),
            forall|best: int| #[trigger]
                is_last_highest(scores@, best) ==> (final(self).state(), step) == after_hearing(
                    old(self).state(),
                    embedding,
                    scores@,
                    best,
                    pending_score,
                ),
            embedding is Some && scores@.len() > 0 ==> exists|best: int| is_last_highest(scores@, best),
    {
        match embedding {
            Some(embedding) => self.compare(embedding, scores, pending_score),
            None => ClassifyStep::Undecided,
        }
    }

    /// Decides whose voice `embedding` is.
    fn compare(&mut self, embedding: E, scores: &Vec<u32>, pending_score: Option<u32>) -> (step: ClassifyStep<E>)
        requires
            scores@.len() == old(self).state().centroids.len(),
            old(self).state().pending_unknown is Some ==> pending_score is Some,
        ensures
            scores@.len() == 0 ==> (final(self).state(), step) == after_comparison(
                old(self).state(),
                embedding,
                scores@,
                0,
                pending_score,
            ),
            forall|best: int| #[trigger]
                is_last_highest(scores@, best) ==> (final(self).state(), step) == after_comparison(
                    old(self).state(),
                    embedding,
                    scores@,
                    best,
                    pending_score,
                ),
            scores@.len() > 0 ==> exists|best: int| is_last_highest(scores@, best),
    {
        let ghost before = self.state();
        proof {
            use_type_invariant(&*self);
        }
        if self.centroids.len() == 0 {
            let mut centroids: Vec<SpeakerCentroid<E>> = Vec::new();
            centroids.push(SpeakerCentroid { embedding, observations: 1 });
            self.centroids = centroids;
            assert(self.centroids@ =~= seq![SpeakerCentroid { embedding, observations: 1 }]);
            assert(self.state() =~= after_comparison(before, embedding, scores@, 0, pending_score).0);
            return ClassifyStep::Known(
                RealtimeClassification { speaker: 0, confidence_bits: ONE_BITS },
            );
        }
        let best: usize = last_highest(scores);
        proof {
            assert forall|other: int| #[trigger] is_last_highest(scores@, other) implies other == best by {
                assert(crate::float_bits::total_rank(scores@[other])
                    <= crate::float_bits::total_rank(scores@[best as int]));
                assert(crate::float_bits::total_rank(scores@[best as int])
                    <= crate::float_bits::total_rank(scores@[other]));
            }
        }
        let ghost expected = after_comparison(before, embedding, scores@, best as int, pending_score);
        let score: u32 = scores[best];
        let classification = RealtimeClassification {
            speaker: best as u32,
            confidence_bits: clamp_to_unit(score),
        };
        if at_least(score, REALTIME_MATCH_THRESHOLD_BITS) {
            self.pending_unknown = None;
            let observations: u32 = self.centroids[best].observations;
            let weight = if observations < 5 {
                CentroidWeight::OneIn { count: observations + 1 }
            } else {
                CentroidWeight::Steady
            };
            assert(self.state() =~= expected.0);
            return ClassifyStep::Refine { classification, weight, embedding };
        }
        if self.centroids.len() >= REALTIME_MAX_SPEAKERS {
            self.pending_unknown = None;
            assert(self.state() =~= expected.0);
            return ClassifyStep::Known(classification);
        }
        let mut pending: Option<E> = None;
        std::mem::swap(&mut pending, &mut self.pending_unknown);
        match (pending, pending_score) {
            (Some(pending), Some(score)) => {
                if below(score, REALTIME_NEW_SPEAKER_THRESHOLD_BITS) {
                    self.pending_unknown = Some(embedding);
                    assert(self.state() =~= expected.0);
                    return ClassifyStep::Undecided;
                }
                assert(self.state() =~= expected.0);
                ClassifyStep::NewSpeaker {
                    pending,
                    embedding,
                    confidence_bits: clamp_to_unit(score),
                }
            },
            _ => {
                self.pending_unknown = Some(embedding);
                assert(self.state() =~= expected.0);
                ClassifyStep::Undecided
            },
        }
    }

    /// Puts the refined embedding of a known speaker in the place of the old one.
    pub fn refine_speaker(&mut self, speaker: usize, embedding: E)
        requires
            speaker < old(self).state().centroids.len(),
            old(self).state().centroids[speaker as int].observations < u32::MAX,
        ensures
            final(self).state() == after_refinement(old(self).state(), speaker as int, embedding),
    {
        let ghost before = self.state();
        let observations: u32 = self.centroids[speaker].observations + 1;
        let mut centroids: Vec<SpeakerCentroid<E>> = Vec::new();
        proof {
            use_type_invariant(&*self);
        }
        std::mem::swap(&mut centroids, &mut self.centroids);
        centroids.set(speaker, SpeakerCentroid { embedding, observations });
        self.centroids = centroids;
        assert(self.state() =~= after_refinement(before, speaker as int, embedding));
    }

    /// Adds a new speaker, who was heard twice; none when the two voices have no mean.
    pub fn add_speaker(&mut self, embedding: Option<E>, confidence_bits: u32) -> (classification: Option<
        RealtimeClassification,
    >)
        requires
            old(self).state().centroids.len() < REALTIME_MAX_SPEAKERS,
        ensures
            (final(self).state(), classification) == after_addition(old(self).state(), embedding, confidence_bits),
    {
        let ghost before = self.state();
        match embedding {
            Some(embedding) => {
                let speaker: u32 = self.centroids.len() as u32;
                let mut centroids: Vec<SpeakerCentroid<E>> = Vec::new();
                proof {
                    use_type_invariant(&*self);
                }
                std::mem::swap(&mut centroids, &mut self.centroids);
                centroids.push(SpeakerCentroid { embedding, observations: 2 });
                self.centroids = centroids;
                assert(self.state() =~= after_addition(before, Some(embedding), confidence_bits).0);
                Some(RealtimeClassification { speaker, confidence_bits })
            },
            None => None,
        }
    }

    /// Carries out what follows from a comparison, and says whose voice was heard. `mixed` is the
    /// embedding that the step asks for: the refined one, or the mean of two where they have one.
    pub fn conclude(&mut self, step: ClassifyStep<E>, mixed: Option<E>) -> (classification: Option<
        RealtimeClassification,
    >)
        requires
            can_follow(old(self).state(), step, mixed),
        ensures
            (final(self).state(), classification) == after_step(old(self).state(), step, mixed),
    {
        match step {
            ClassifyStep::Known(classification) => Some(classification),
            ClassifyStep::Refine { classification, .. } => {
                if let Some(refined) = mixed {
                    self.refine_speaker(classification.speaker as usize, refined);
                }
                Some(classification)
            },
            ClassifyStep::Undecided => None,
            ClassifyStep::NewSpeaker { confidence_bits, .. } => self.add_speaker(mixed, confidence_bits),
        }
    }
}

/// What every session keeps: one window of audio at most, and no more speakers than are told
/// apart.
pub open spec fn is_bounded<S, E>(state: RealtimeState<S, E>) -> bool {
    state.samples.len() <= REALTIME_WINDOW_SAMPLES && state.centroids.len() <= REALTIME_MAX_SPEAKERS
}

/// Audio and comparisons keep a session bounded, and where a new speaker follows there is room
/// for one.
pub proof fn law_session_stays_bounded<S, E>(
    before: RealtimeState<S, E>,
    samples: Seq<S>,
    embedding: E,
    scores: Seq<u32>,
    best: int,
    pending_score: Option<u32>,
    generation: u64,
    enabled: bool,
)
    requires
        is_bounded(before),
    ensures
        is_bounded(fresh_state::<S, E>(generation, enabled)),
        is_bounded(after_audio(before, samples).0),
        is_bounded(after_comparison(before, embedding, scores, best, pending_score).0),
        after_comparison(before, embedding, scores, best, pending_score).1 is NewSpeaker
            ==> after_comparison(before, embedding, scores, best, pending_score).0.centroids.len()
            < REALTIME_MAX_SPEAKERS,
{
}

/// A voice that is not known is a new speaker's only when an unknown voice was heard before, and
/// the two are alike. The first voice of all is a speaker's at once.
pub proof fn law_a_new_speaker_is_heard_twice<S, E>(
    before: RealtimeState<S, E>,
    embedding: E,
    scores: Seq<u32>,
    best: int,
    pending_score: Option<u32>,
)
    requires
        before.centroids.len() > 0,
    ensures
        ({
            let (after, step) = after_comparison(before, embedding, scores, best, pending_score);
            &&& after.centroids == before.centroids
            &&& step is NewSpeaker ==> before.pending_unknown is Some && pending_score is Some && !is_below(
                pending_score->0,
                REALTIME_NEW_SPEAKER_THRESHOLD_BITS,
            ) && !is_at_least(scores[best], REALTIME_MATCH_THRESHOLD_BITS)
            &&& before.pending_unknown is None && !is_at_least(scores[best], REALTIME_MATCH_THRESHOLD_BITS)
                && before.centroids.len() < REALTIME_MAX_SPEAKERS ==> step is Undecided
                && after.pending_unknown == Some(embedding)
        }),
{
}

/// The pattern stands for a number from 0, which may be minus zero, to 1.
pub open spec fn is_confidence(bits: u32) -> bool {
    !is_nan(bits) && total_rank(0x8000_0000) <= total_rank(bits) <= total_rank(ONE_BITS)
}

/// What holds of a whole classification: a voice is heard, and what follows from its comparison is
/// carried out. At most one speaker is added, the last one, and it is the one that the voice belongs
/// to; the speaker that it belongs to is always one of those known. Where it belongs to none, the
/// known voices stay as they were. With as many speakers as are told apart, a usable voice always
/// belongs to one of them; one that is not usable changes nothing. The confidence lies between 0 and
/// 1 where the similarities are numbers.
pub proof fn law_a_voice_belongs_to_a_known_speaker<S, E>(
    before: RealtimeState<S, E>,
    embedding: Option<E>,
    scores: Seq<u32>,
    best: int,
    pending_score: Option<u32>,
    mixed: Option<E>,
)
    requires
        is_bounded(before),
        embedding is Some ==> scores.len() == before.centroids.len(),
        scores.len() > 0 ==> is_last_highest(scores, best),
    ensures
        ({
            let known = before.centroids.len();
            let (compared, step) = after_hearing(before, embedding, scores, best, pending_score);
            let (after, answer) = after_step(compared, step, mixed);
            &&& after.centroids.len() == known || after.centroids.len() == known + 1
            &&& is_bounded(after)
            &&& answer matches Some(found) ==> found.speaker < after.centroids.len()
            &&& after.centroids.len() == known + 1 ==> answer is Some && answer->0.speaker == known
                && after.centroids.take(known as int) == before.centroids
            &&& answer is None ==> after.centroids == before.centroids
            &&& embedding is Some && known == REALTIME_MAX_SPEAKERS ==> answer is Some
            &&& embedding is None ==> answer is None && after == before
            &&& (forall|i: int| 0 <= i < scores.len() ==> !is_nan(#[trigger] scores[i])) && (pending_score is Some
                ==> !is_nan(pending_score->0)) ==> (answer matches Some(found) ==> is_confidence(
                found.confidence_bits,
            ))
        }),
{
    let known = before.centroids.len();
    let (compared, step) = after_hearing(before, embedding, scores, best, pending_score);
    let (after, answer) = after_step(compared, step, mixed);
    if known > 0 && embedding is Some {
        assert(compared.centroids == before.centroids);
        if !is_nan(scores[best]) {
            law_clamped_numbers_lie_in_the_range(scores[best]);
        }
        if pending_score is Some && !is_nan(pending_score->0) {
            law_clamped_numbers_lie_in_the_range(pending_score->0);
        }
    }
    if after.centroids.len() == known + 1 {
        assert(after.centroids.take(known as int) =~= before.centroids);
    }
}

/// What follows from a comparison can always be carried out, unless a voice was heard as often as can
/// be counted.
pub proof fn law_steps_can_be_carried_out<S, E>(
    before: RealtimeState<S, E>,
    embedding: Option<E>,
    scores: Seq<u32>,
    best: int,
    pending_score: Option<u32>,
    mixed: Option<E>,
)
    requires
        is_bounded(before),
        embedding is Some ==> scores.len() == before.centroids.len(),
        scores.len() > 0 ==> is_last_highest(scores, best),
        forall|i: int|
            0 <= i < before.centroids.len() ==> (#[trigger] before.centroids[i]).observations < u32::MAX,
        after_hearing(before, embedding, scores, best, pending_score).1 is Refine ==> mixed is Some,
    ensures
        ({
            let (compared, step) = after_hearing(before, embedding, scores, best, pending_score);
            can_follow(compared, step, mixed)
        }),
{
}

/// While an analysis is going on, no other is due; and once one was due, the next is not before
/// enough new audio came in.
pub proof fn law_one_analysis_at_a_time<S, E>(before: RealtimeState<S, E>, samples: Seq<S>, more: Seq<S>)
    requires
        more.len() < REALTIME_INTERVAL_SAMPLES,
    ensures
        before.analysis_in_flight ==> !after_audio(before, samples).1,
        after_audio(before, samples).1 ==> !after_audio(after_audio(before, samples).0, more).1,
{
}

/// A restart makes what was going on before it out of date: the result of an analysis or of a
/// model load that belongs to the session before it counts no more.
pub proof fn law_restart_outdates_earlier_work<S, E>(before: RealtimeState<S, E>, enabled: bool)
    ensures
        fresh_state::<S, E>(next_generation(before.generation), enabled).generation != before.generation,
{
}

/// A voice that is alike enough to one that is known belongs to the speaker whose voice it is most
/// alike, with that likeness as the confidence, brought into the range from 0 to 1. What is known of
/// that speaker is refined, by one observation, and by the share that its observations so far call
/// for; what is known of all others stays, and no unknown voice is waited for any more.
pub proof fn law_the_most_alike_speaker_is_named<S, E>(
    before: RealtimeState<S, E>,
    embedding: E,
    scores: Seq<u32>,
    best: int,
    pending_score: Option<u32>,
    mixed: E,
    other: int,
)
    requires
        is_bounded(before),
        scores.len() == before.centroids.len(),
        is_last_highest(scores, best),
        forall|i: int| 0 <= i < scores.len() ==> !is_nan(#[trigger] scores[i]),
        0 <= other < scores.len(),
        is_at_least(scores[other], REALTIME_MATCH_THRESHOLD_BITS),
        forall|i: int| 0 <= i < before.centroids.len() ==> (#[trigger] before.centroids[i]).observations < u32::MAX,
    ensures
        ({
            let (compared, step) = after_hearing(before, Some(embedding), scores, best, pending_score);
            let (after, answer) = after_step(compared, step, Some(mixed));
            let found = answer->0;
            let named = found.speaker as int;
            &&& answer is Some
            &&& named < scores.len()
            &&& forall|i: int| 0 <= i < scores.len() ==> total_rank(#[trigger] scores[i]) <= total_rank(scores[named])
            &&& found.confidence_bits == unit_clamped(scores[named])
            &&& after.centroids.len() == before.centroids.len()
            &&& forall|i: int| 0 <= i < scores.len() && i != named ==> #[trigger] after.centroids[i] == before.centroids[i]
            &&& after.centroids[named].embedding == mixed
            &&& after.centroids[named].observations == before.centroids[named].observations + 1
            &&& after.pending_unknown is None
            &&& step matches ClassifyStep::Refine { weight, embedding: heard, .. } && heard == embedding && (
            if before.centroids[named].observations < 5 {
                weight matches CentroidWeight::OneIn { count } && count == before.centroids[named].observations + 1
            } else {
                weight is Steady
            })
        }),
{
    assert(total_rank(scores[other]) <= total_rank(scores[best]));
    assert(!is_nan(scores[best]));
    assert(before.centroids[best].observations < u32::MAX);
}

/// A voice that is alike to none of those known is held against the unknown voice heard before it, as
/// long as more speakers can be told apart. The first such voice, and one that is not alike to the one
/// before it, is waited for and belongs to nobody yet; the second of two that are alike is a new
/// speaker's, who is known by the mean of the two, with their likeness as the confidence. What is known
/// of the others stays.
pub proof fn law_an_unknown_voice_has_to_come_back<S, E>(
    before: RealtimeState<S, E>,
    embedding: E,
    scores: Seq<u32>,
    best: int,
    likeness: u32,
    mean: E,
)
    requires
        0 < before.centroids.len() < REALTIME_MAX_SPEAKERS,
        scores.len() == before.centroids.len(),
        is_last_highest(scores, best),
        forall|i: int|
            0 <= i < scores.len() ==> !is_nan(#[trigger] scores[i]) && is_below(
                scores[i],
                REALTIME_MATCH_THRESHOLD_BITS,
            ),
        !is_nan(likeness),
    ensures
        ({
            let (compared, step) = after_hearing(before, Some(embedding), scores, best, Some(likeness));
            let (after, answer) = after_step(compared, step, Some(mean));
            if before.pending_unknown is Some && is_at_least(likeness, REALTIME_NEW_SPEAKER_THRESHOLD_BITS) {
                &&& step matches ClassifyStep::NewSpeaker { pending, embedding: heard, .. } && pending
                    == before.pending_unknown->0 && heard == embedding
                &&& answer == Some(
                    RealtimeClassification {
                        speaker: before.centroids.len() as u32,
                        confidence_bits: unit_clamped(likeness),
                    },
                )
                &&& after.centroids == before.centroids.push(SpeakerCentroid { embedding: mean, observations: 2 })
                &&& after.pending_unknown is None
            } else {
                &&& answer is None
                &&& after.centroids == before.centroids
                &&& after.pending_unknown == Some(embedding)
            }
        }),
{
    assert(is_below(scores[best], REALTIME_MATCH_THRESHOLD_BITS));
}

/// The first voice of all is the first speaker's, with full confidence. Once as many speakers are known
/// as are told apart, a voice that is alike to none of them is named after the most alike, and nothing
/// that is known of them changes.
pub proof fn law_the_first_and_the_last_speaker<S, E>(
    before: RealtimeState<S, E>,
    embedding: E,
    scores: Seq<u32>,
    best: int,
    pending_score: Option<u32>,
    mixed: Option<E>,
)
    requires
        scores.len() == before.centroids.len(),
        is_bounded(before),
        scores.len() > 0 ==> is_last_highest(scores, best),
        forall|i: int|
            0 <= i < scores.len() ==> !is_nan(#[trigger] scores[i]) && is_below(
                scores[i],
                REALTIME_MATCH_THRESHOLD_BITS,
            ),
    ensures
        ({
            let (compared, step) = after_hearing(before, Some(embedding), scores, best, pending_score);
            let (after, answer) = after_step(compared, step, mixed);
            &&& before.centroids.len() == 0 ==> answer == Some(
                RealtimeClassification { speaker: 0, confidence_bits: ONE_BITS },
            ) && after.centroids == seq![SpeakerCentroid { embedding, observations: 1 }]
            &&& before.centroids.len() == REALTIME_MAX_SPEAKERS ==> {
                &&& answer is Some
                &&& answer->0.speaker < scores.len()
                &&& forall|i: int|
                    0 <= i < scores.len() ==> total_rank(#[trigger] scores[i]) <= total_rank(
                        scores[answer->0.speaker as int],
                    )
                &&& answer->0.confidence_bits == unit_clamped(scores[answer->0.speaker as int])
                &&& after.centroids == before.centroids
            }
        }),
{
    if scores.len() > 0 {
        assert(is_below(scores[best], REALTIME_MATCH_THRESHOLD_BITS));
    }
}

/// What a session hears while it is active: the window holds the latest three seconds of all sound,
/// without gaps; all sound is counted; and an analysis is due exactly when the model is ready, none is
/// going on, the window is full, and a second and a half of sound came in since the last one. A session
/// that is not active hears nothing.
pub proof fn law_the_window_holds_the_latest_sound<S, E>(before: RealtimeState<S, E>, samples: Seq<S>)
    requires
        samples.len() > 0,
        before.total_samples + samples.len() <= u64::MAX,
        before.samples_since_analysis + samples.len() <= usize::MAX,
    ensures
        ({
            let (after, due) = after_audio(before, samples);
            let heard = before.samples + samples;
            if before.active {
                &&& after.samples.len() == (if heard.len() < 48_000 {
                    heard.len() as int
                } else {
                    48_000
                })
                &&& after.samples == heard.skip(heard.len() - after.samples.len())
                &&& after.total_samples == before.total_samples + samples.len()
                &&& due <==> before.model_ready && !before.analysis_in_flight && heard.len() >= 48_000
                    && before.samples_since_analysis + samples.len() >= 24_000
                &&& after.samples_since_analysis == (if due {
                    0
                } else {
                    before.samples_since_analysis + samples.len()
                })
                &&& after.centroids == before.centroids && after.pending_unknown == before.pending_unknown
                &&& after.generation == before.generation && after.active
            } else {
                after == before && !due
            }
        }),
{
    let heard = before.samples + samples;
    assert(heard.skip(0) =~= heard);
}

/// Where the sound so far ends, in milliseconds: sixteen samples are a millisecond.
pub proof fn law_sixteen_samples_are_a_millisecond(total_samples: u64)
    requires
        total_samples * 1_000 <= u64::MAX,
    ensures
        16 * end_ms(total_samples) <= total_samples < 16 * (end_ms(total_samples) + 1),
{
}

/// A session that has just started has heard nothing, knows nobody and waits for no voice, and no
/// analysis is going on before the model is ready.
pub proof fn law_a_new_session_knows_nobody<S, E>(generation: u64, active: bool, samples: Seq<S>)
    ensures
        ({
            let state = fresh_state::<S, E>(generation, active);
            &&& state.generation == generation && state.active == active
            &&& !state.model_ready && !state.analysis_in_flight
            &&& state.samples.len() == 0 && state.total_samples == 0 && state.samples_since_analysis == 0
            &&& state.centroids.len() == 0 && state.pending_unknown is None
            &&& !after_audio(state, samples).1
        }),
{
}

/// The measures of a session: a window of three seconds and an analysis every second and a half, at the
/// rate of the models; six speakers; a voice is known from a likeness of 0.48 on and a new speaker's
/// from one of 0.65 on, and sound is analysed from a loudness of 0.006 on.
pub proof fn law_measures_of_a_session()
    ensures
        REALTIME_WINDOW_SAMPLES == 3 * crate::speech_model::TARGET_SAMPLE_RATE,
        2 * REALTIME_INTERVAL_SAMPLES == 3 * crate::speech_model::TARGET_SAMPLE_RATE,
        REALTIME_MAX_SPEAKERS == 6,
        crate::float_bits::is_nearest_to(REALTIME_MATCH_THRESHOLD_BITS, 48, 100, 0x200_0000),
        REALTIME_MATCH_THRESHOLD_BITS / 0x80_0000 == 125,
        crate::float_bits::is_nearest_to(REALTIME_NEW_SPEAKER_THRESHOLD_BITS, 65, 100, 0x100_0000),
        REALTIME_NEW_SPEAKER_THRESHOLD_BITS / 0x80_0000 == 126,
        crate::float_bits::is_nearest_to(REALTIME_MIN_RMS_BITS, 6, 1_000, 0x8000_0000),
        REALTIME_MIN_RMS_BITS / 0x80_0000 == 119,
{
}

/// What follows from a comparison changes neither the sound that was heard nor how the session stands.
pub proof fn law_voices_do_not_touch_the_sound<S, E>(
    before: RealtimeState<S, E>,
    embedding: Option<E>,
    scores: Seq<u32>,
    best: int,
    pending_score: Option<u32>,
    mixed: Option<E>,
)
    ensures
        ({
            let (compared, step) = after_hearing(before, embedding, scores, best, pending_score);
            let after = after_step(compared, step, mixed).0;
            &&& after.samples == before.samples && after.total_samples == before.total_samples
            &&& after.samples_since_analysis == before.samples_since_analysis
            &&& after.generation == before.generation && after.active == before.active
            &&& after.model_ready == before.model_ready && after.analysis_in_flight == before.analysis_in_flight
        }),
{
}

/// A voice that is heard, and then concluded on, belongs to the known speaker that it is most alike to,
/// where it is alike enough; the likeness is the confidence, and only what is known of that speaker
/// changes: it becomes the mix that was made for it.
pub proof fn law_hearing_a_known_voice<S: Copy, E>(
    heard: &mut RealtimeSpeakerSession<S, E>,
    concluded: &mut RealtimeSpeakerSession<S, E>,
    embedding: E,
    scores: &Vec<u32>,
    pending_score: Option<u32>,
    step: ClassifyStep<E>,
    mixed: E,
    answer: Option<RealtimeClassification>,
    other: int,
)
    requires
        is_bounded(old(heard).state()),
        scores@.len() == old(heard).state().centroids.len(),
        forall|i: int| 0 <= i < scores@.len() ==> !is_nan(#[trigger] scores@[i]),
        0 <= other < scores@.len(),
        is_at_least(scores@[other], REALTIME_MATCH_THRESHOLD_BITS),
        forall|i: int|
            0 <= i < scores@.len() ==> (#[trigger] old(heard).state().centroids[i]).observations < u32::MAX,
        call_ensures(
            RealtimeSpeakerSession::<S, E>::classify,
            (heard, Some(embedding), scores, pending_score),
            step,
        ),
        old(concluded).state() == final(heard).state(),
        call_ensures(RealtimeSpeakerSession::<S, E>::conclude, (concluded, step, Some(mixed)), answer),
    ensures
        ({
            let before = old(heard).state();
            let after = final(concluded).state();
            let named = answer->0.speaker as int;
            &&& answer is Some && named < scores@.len()
            &&& forall|i: int| 0 <= i < scores@.len() ==> total_rank(#[trigger] scores@[i]) <= total_rank(scores@[named])
            &&& answer->0.confidence_bits == unit_clamped(scores@[named])
            &&& after.centroids.len() == before.centroids.len()
            &&& forall|i: int| 0 <= i < scores@.len() && i != named ==> #[trigger] after.centroids[i] == before.centroids[i]
            &&& after.centroids[named].embedding == mixed
            &&& after.centroids[named].observations == before.centroids[named].observations + 1
        }),
{
    let best = choose|best: int| is_last_highest(scores@, best);
    law_the_most_alike_speaker_is_named(old(heard).state(), embedding, scores@, best, pending_score, mixed, other);
}

/// Loading that has ended counts for the session that it was begun for, and no other: that session goes
/// on when the model is there, and ends when it is not, which is told with the reason.
pub proof fn law_loading_counts_for_its_session<S: Copy, E>(
    session: &mut RealtimeSpeakerSession<S, E>,
    generation: u64,
    result: Result<(), String>,
    status: Option<RealtimeSpeakerStatusEvent>,
)
    requires
        call_ensures(RealtimeSpeakerSession::<S, E>::finish_loading, (session, generation, result), status),
    ensures
        ({
            let before = old(session).state();
            let after = final(session).state();
            let counts = before.active && before.generation == generation;
            &&& !counts ==> after == before && status is None
            &&& counts ==> status is Some && (after.active <==> result is Ok) && (after.model_ready <==> result is Ok)
            &&& counts && result is Ok ==> status->0.status@ == "ready"@ && status->0.error is None
            &&& counts && result is Err ==> status->0.status@ == "failed"@ && status->0.error is Some
                && status->0.error->0@ == result->Err_0@
            &&& after.samples == before.samples && after.centroids == before.centroids && after.generation
                == before.generation
        }),
{
}

/// An analysis takes the whole window of a session that is not too quiet, tells where it ends, and is
/// then going on; one that is too quiet is left out.
pub proof fn law_analyses_take_the_window<S: Copy, E>(
    session: &mut RealtimeSpeakerSession<S, E>,
    rms_bits: u32,
    job: Option<AnalysisJob<S>>,
)
    requires
        call_ensures(RealtimeSpeakerSession::<S, E>::begin_analysis, (session, rms_bits), job),
    ensures
        job is Some <==> !is_below(rms_bits, REALTIME_MIN_RMS_BITS),
        job is Some ==> job->0.window@ == old(session).state().samples && job->0.generation
            == old(session).state().generation && job->0.analyzed_end_ms == end_ms(old(session).state().total_samples)
            && final(session).state().analysis_in_flight,
        final(session).state().samples == old(session).state().samples,
        final(session).state().centroids == old(session).state().centroids,
        job is None ==> final(session).state() == old(session).state(),
{
}

/// The result of an analysis counts exactly when its session is still going on, and then another may be
/// made; one that failed ends that session and is told, and one of a session that is over changes
/// nothing.
pub proof fn law_analyses_count_for_their_session<S: Copy, E>(
    ended: &mut RealtimeSpeakerSession<S, E>,
    failed: &mut RealtimeSpeakerSession<S, E>,
    generation: u64,
    current: bool,
    error: String,
    status: Option<RealtimeSpeakerStatusEvent>,
)
    requires
        call_ensures(RealtimeSpeakerSession::<S, E>::end_analysis, (ended, generation), current),
        call_ensures(RealtimeSpeakerSession::<S, E>::fail_analysis, (failed, generation, error), status),
    ensures
        current <==> old(ended).state().active && old(ended).state().generation == generation,
        current ==> !final(ended).state().analysis_in_flight && final(ended).state().active,
        !current ==> final(ended).state() == old(ended).state(),
        status is Some <==> old(failed).state().active && old(failed).state().generation == generation,
        status is Some ==> !final(failed).state().active && !final(failed).state().analysis_in_flight
            && status->0.error is Some && status->0.error->0@ == error@,
        status is None ==> final(failed).state() == old(failed).state(),
        final(failed).state().centroids == old(failed).state().centroids,
{
}

/// A session that is started or stopped forgets the one before it, whose work no longer counts.
pub proof fn law_starting_and_stopping_forget<S: Copy, E>(
    started: &mut RealtimeSpeakerSession<S, E>,
    stopped: &mut RealtimeSpeakerSession<S, E>,
    enabled: bool,
    begun: (u64, RealtimeSpeakerStatusEvent),
    status: RealtimeSpeakerStatusEvent,
)
    requires
        call_ensures(RealtimeSpeakerSession::<S, E>::start_realtime, (started, enabled), begun),
        call_ensures(RealtimeSpeakerSession::<S, E>::stop_realtime, (stopped,), status),
    ensures
        final(started).state().generation == begun.0 && begun.0 != old(started).state().generation,
        final(started).state().active == enabled && final(started).state().centroids.len() == 0,
        enabled ==> begun.1.status@ == "loading"@,
        !enabled ==> begun.1.status@ == "idle"@,
        begun.1.error is None,
        !final(stopped).state().active && final(stopped).state().generation != old(stopped).state().generation,
        final(stopped).state().centroids.len() == 0 && final(stopped).state().samples.len() == 0,
        status.status@ == "idle"@ && status.error is None,
{
}

} // verus!
