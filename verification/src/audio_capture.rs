//! Capturing the sound of a program: what the audio system hands over, cut into chunks.
//!
//! `S` is the type of an audio sample; samples are moved and never looked at.

use vstd::prelude::*;

use crate::float_bits::{below, is_below};
use crate::inference::append_all;
use crate::numbers::{decimal, decimal_text};
use crate::text::{blank, copied, is_blank, occurs, text_occurs};
use crate::transcript::LocalTranscriptResult;

verus! {

/// How many samples a chunk has.
pub const CHUNK_SAMPLES: usize = 1024;

/// The rate that captured sound is brought to, in samples per second.
pub const CAPTURE_TARGET_RATE: u32 = 16_000;

/// The peak below which a chunk counts as silent: 0.0005.
pub const SILENT_PEAK_BITS: u32 = 0x3a03_126f;

/// A text that was recognised in the sound of a program.
#[derive(Clone, Debug)]
pub struct AudioTranscriptEvent {
    pub source: String,
    pub text: String,
    pub is_final: bool,
}

/// A chunk of the sound of a program.
#[derive(Clone, Debug)]
pub struct AudioChunkEvent<S> {
    pub source: String,
    pub samples: Vec<S>,
}

/// How the capture of the sound of a program goes on. The loudness is given as the bit patterns of
/// single-precision numbers.
#[derive(Clone, Debug)]
pub struct AudioCaptureStatsEvent {
    pub source: String,
    pub chunks: u64,
    pub samples: u64,
    pub rms_bits: u32,
    pub peak_bits: u32,
    pub silent: bool,
}

impl AudioTranscriptEvent {
    /// This shows `result`.
    pub open spec fn shows(&self, result: LocalTranscriptResult) -> bool {
        self.source@ == "process"@ && self.text == result.text && self.is_final == result.is_final
    }
}

/// Makes the event that shows a text that was recognised, where there is a text.
pub fn transcript_event(result: LocalTranscriptResult) -> (event: Option<AudioTranscriptEvent>)
    ensures
        if is_blank(result.text@) {
            event is None
        } else {
            event is Some && event->0.shows(result)
        },
{
    if blank(result.text.as_str()) {
        None
    } else {
        Some(
            AudioTranscriptEvent { source: "process".to_string(), text: result.text, is_final: result.is_final },
        )
    }
}

/// What is shown of a chunk that was recognised; there is nothing where no model is loaded any more.
pub fn process_chunk(processed: Option<Result<LocalTranscriptResult, String>>) -> (event: Result<
    Option<AudioTranscriptEvent>,
    String,
>)
    ensures
        match processed {
            Some(Ok(result)) => if is_blank(result.text@) {
                event is Ok && event->Ok_0 is None
            } else {
                event is Ok && event->Ok_0 is Some && event->Ok_0->0.shows(result)
            },
            Some(Err(error)) => event is Err && event->Err_0 == error,
            None => event is Err && event->Err_0@ == "Local Sherpa-ONNX model is not loaded."@,
        },
{
    match processed {
        Some(Ok(result)) => Ok(transcript_event(result)),
        Some(Err(error)) => Err(error),
        None => Err("Local Sherpa-ONNX model is not loaded.".to_string()),
    }
}

/// Makes the event that hands on a chunk.
pub fn chunk_event<S>(samples: Vec<S>) -> (event: AudioChunkEvent<S>)
    ensures
        event.source@ == "process"@,
        event.samples == samples,
{
    AudioChunkEvent { source: "process".to_string(), samples }
}

/// How much has been captured so far.
pub struct CaptureCounter {
    chunks: u64,
    samples: u64,
}

impl CaptureCounter {
    /// How many chunks have been captured.
    pub closed spec fn chunks(&self) -> u64 {
        self.chunks
    }

    /// How many samples have been captured.
    pub closed spec fn samples(&self) -> u64 {
        self.samples
    }

    /// Nothing has been captured yet.
    pub fn new() -> (counter: Self)
        ensures
            counter.chunks() == 0,
            counter.samples() == 0,
    {
        CaptureCounter { chunks: 0, samples: 0 }
    }

    /// Whether a chunk of `count` samples can still be counted.
    pub fn has_room(&self, count: usize) -> (room: bool)
        ensures
            room == (self.chunks() < u64::MAX && self.samples() + count <= u64::MAX),
    {
        self.chunks < u64::MAX && self.samples <= u64::MAX - count as u64
    }

    /// Counts a chunk of `count` samples and makes the event that tells how the capture goes on.
    /// `rms_bits` and `peak_bits` are the loudness of the chunk.
    pub fn count_chunk(&mut self, count: usize, rms_bits: u32, peak_bits: u32) -> (event: AudioCaptureStatsEvent)
        requires
            old(self).chunks() < u64::MAX,
            old(self).samples() + count <= u64::MAX,
        ensures
            final(self).chunks() == old(self).chunks() + 1,
            final(self).samples() == old(self).samples() + count,
            event.source@ == "process"@,
            event.chunks == final(self).chunks(),
            event.samples == final(self).samples(),
            event.rms_bits == rms_bits,
            event.peak_bits == peak_bits,
            event.silent == is_below(peak_bits, SILENT_PEAK_BITS),
    {
        self.chunks = self.chunks + 1;
        self.samples = self.samples + count as u64;
        AudioCaptureStatsEvent {
            source: "process".to_string(),
            chunks: self.chunks,
            samples: self.samples,
            rms_bits,
            peak_bits,
            silent: below(peak_bits, SILENT_PEAK_BITS),
        }
    }
}

/// Checks that a capture can start: only one goes on at a time.
pub fn check_capture_start(running: bool) -> (checked: Result<(), String>)
    ensures
        if running {
            checked is Err && checked->Err_0@ == "Process audio capture is already running"@
        } else {
            checked is Ok
        },
{
    if running {
        return Err("Process audio capture is already running".to_string());
    }
    Ok(())
}

/// Checks that captured sound can be recognised: nothing else is being captured, and a model is
/// loaded.
pub fn check_transcription_start(running: bool, model_loaded: bool) -> (checked: Result<(), String>)
    ensures
        if running {
            checked is Err && checked->Err_0@ == "Process audio transcription is already running"@
        } else if !model_loaded {
            checked is Err && checked->Err_0@
                == "Local Sherpa-ONNX model is not loaded. Download/load the local model first."@
        } else {
            checked is Ok
        },
{
    if running {
        return Err("Process audio transcription is already running".to_string());
    }
    if !model_loaded {
        return Err(
            "Local Sherpa-ONNX model is not loaded. Download/load the local model first.".to_string(),
        );
    }
    Ok(())
}

/// What is said of an error of the audio system.
pub open spec fn loopback_error(error: Seq<char>) -> Seq<char> {
    if occurs("0x80004001"@, error) {
        "Windows process audio loopback is not implemented in this audio environment. This feature requires Windows Application Loopback support and an active audio output device. Raw error: "@
            + error
    } else {
        error
    }
}

/// Explains an error of the audio system where it means that the system cannot capture.
pub fn describe_windows_loopback_error(error: String) -> (message: String)
    ensures
        message@ == loopback_error(error@),
{
    if text_occurs("0x80004001", error.as_str()) {
        return "Windows process audio loopback is not implemented in this audio environment. This feature requires Windows Application Loopback support and an active audio output device. Raw error: ".to_string().concat(
            error.as_str(),
        );
    }
    error
}

/// The format that sound is asked for in.
#[derive(Clone, Copy, Debug, PartialEq, Eq, Structural)]
pub struct CaptureFormat {
    pub format_tag: u16,
    pub channels: u16,
    pub samples_per_second: u32,
    pub bytes_per_second: u32,
    pub bytes_per_frame: u16,
    pub bits_per_sample: u16,
    /// How much sound the system is to buffer, in units of 100 ns.
    pub buffer_duration: i64,
}

/// Whole numbers.
pub const WAVE_FORMAT_PCM: u16 = 1;

/// Floating-point numbers.
pub const WAVE_FORMAT_IEEE_FLOAT: u16 = 3;

/// A format that is told by a second tag.
pub const WAVE_FORMAT_EXTENSIBLE: u16 = 0xfffe;

/// The format that sound is asked for in: whole numbers of 16 bits, two channels, 48 kHz, and a
/// tenth of a second of buffer.
pub fn capture_format() -> (format: CaptureFormat)
    ensures
        format.format_tag == WAVE_FORMAT_PCM,
        format.channels == 2,
        format.samples_per_second == 48_000,
        format.bits_per_sample == 16,
        format.bytes_per_frame == format.channels * format.bits_per_sample / 8,
        format.bytes_per_second == format.samples_per_second * format.bytes_per_frame,
        format.buffer_duration == 1_000_000,
{
    CaptureFormat {
        format_tag: WAVE_FORMAT_PCM,
        channels: 2,
        samples_per_second: 48_000,
        bytes_per_second: 192_000,
        bytes_per_frame: 4,
        bits_per_sample: 16,
        buffer_duration: 1_000_000,
    }
}

/// How samples are laid out.
#[derive(Clone, Copy, Debug, PartialEq, Eq, Structural)]
pub enum SampleLayout {
    Float32,
    Int16,
    Int32,
}

/// The second tag of a format.
#[derive(Clone, Copy, Debug, PartialEq, Eq, Structural)]
pub enum SubFormat {
    Pcm,
    IeeeFloat,
    Other,
}

/// How samples of a format are laid out, or what is said when that is not supported.
pub open spec fn layout_of(format_tag: u16, bits_per_sample: u16, sub_format: SubFormat) -> Result<
    SampleLayout,
    Seq<char>,
> {
    if format_tag == WAVE_FORMAT_IEEE_FLOAT {
        Ok(SampleLayout::Float32)
    } else if format_tag == WAVE_FORMAT_PCM {
        if bits_per_sample == 16 {
            Ok(SampleLayout::Int16)
        } else if bits_per_sample == 32 {
            Ok(SampleLayout::Int32)
        } else {
            Err("Unsupported PCM bit depth: "@ + decimal(bits_per_sample as nat))
        }
    } else if format_tag == WAVE_FORMAT_EXTENSIBLE {
        match sub_format {
            SubFormat::IeeeFloat => Ok(SampleLayout::Float32),
            SubFormat::Pcm => if bits_per_sample == 16 {
                Ok(SampleLayout::Int16)
            } else if bits_per_sample == 32 {
                Ok(SampleLayout::Int32)
            } else {
                Err("Unsupported extensible PCM bit depth: "@ + decimal(bits_per_sample as nat))
            },
            SubFormat::Other => Err("Unsupported WAVE_FORMAT_EXTENSIBLE subtype"@),
        }
    } else {
        Err("Unsupported WASAPI format tag: "@ + decimal(format_tag as nat))
    }
}

/// Says how samples of a format are laid out.
pub fn sample_layout(format_tag: u16, bits_per_sample: u16, sub_format: SubFormat) -> (layout: Result<
    SampleLayout,
    String,
>)
    ensures
        match layout_of(format_tag, bits_per_sample, sub_format) {
            Ok(found) => layout == Ok::<SampleLayout, String>(found),
            Err(message) => layout is Err && layout->Err_0@ == message,
        },
{
    if format_tag == WAVE_FORMAT_IEEE_FLOAT {
        Ok(SampleLayout::Float32)
    } else if format_tag == WAVE_FORMAT_PCM {
        if bits_per_sample == 16 {
            Ok(SampleLayout::Int16)
        } else if bits_per_sample == 32 {
            Ok(SampleLayout::Int32)
        } else {
            Err("Unsupported PCM bit depth: ".to_string().concat(decimal_text(bits_per_sample as u64).as_str()))
        }
    } else if format_tag == WAVE_FORMAT_EXTENSIBLE {
        match sub_format {
            SubFormat::IeeeFloat => Ok(SampleLayout::Float32),
            SubFormat::Pcm => if bits_per_sample == 16 {
                Ok(SampleLayout::Int16)
            } else if bits_per_sample == 32 {
                Ok(SampleLayout::Int32)
            } else {
                Err(
                    "Unsupported extensible PCM bit depth: ".to_string().concat(
                        decimal_text(bits_per_sample as u64).as_str(),
                    ),
                )
            },
            SubFormat::Other => Err("Unsupported WAVE_FORMAT_EXTENSIBLE subtype".to_string()),
        }
    } else {
        Err("Unsupported WASAPI format tag: ".to_string().concat(decimal_text(format_tag as u64).as_str()))
    }
}

/// The sound before a packet is not continued by it.
pub const DISCONTINUITY_FLAG: u32 = 1;

/// A packet holds silence, whatever its data says.
pub const SILENT_FLAG: u32 = 2;

/// What is to be done in the loop that captures. `E` is what an action can fail with.
#[derive(Clone, Debug, PartialEq, Eq)]
pub enum LoopAction<E> {
    /// Look whether the capture is to stop.
    CheckStop,
    /// Wait for sound.
    Wait,
    /// Ask how large the next packet is.
    AskPacket,
    /// Take the packet.
    TakePacket,
    /// Take the next chunk out of the sound that waits, where one is full.
    TakeChunk,
    /// Hand the chunk on.
    HandOn,
    /// Stop the system's capture.
    Stop,
    /// All is done.
    Ended,
    /// The capture has failed.
    Failed(E),
}

/// What came of an action in the loop that captures.
#[derive(Clone, Debug, PartialEq, Eq)]
pub enum LoopEvent<E> {
    /// The capture is to stop, or not.
    StopAsked(bool),
    /// There is sound, or there was none for a while.
    Signalled(bool),
    /// The size of the next packet, in frames.
    PacketSize(u32),
    /// A chunk was full, or none was.
    ChunkFull(bool),
    Done,
    /// The action failed.
    Failed(E),
}

/// The action that follows `action` when `event` came of it. A failure ends the loop. An event that
/// cannot come of the action leaves it as it is.
pub open spec fn next_action<E>(action: LoopAction<E>, event: LoopEvent<E>) -> LoopAction<E> {
    match (action, event) {
        (LoopAction::Ended, _) => action,
        (LoopAction::Failed(_), _) => action,
        (_, LoopEvent::Failed(error)) => LoopAction::Failed(error),
        (LoopAction::CheckStop, LoopEvent::StopAsked(stop)) => if stop {
            LoopAction::Stop
        } else {
            LoopAction::Wait
        },
        (LoopAction::Wait, LoopEvent::Signalled(sound)) => if sound {
            LoopAction::AskPacket
        } else {
            LoopAction::CheckStop
        },
        (LoopAction::AskPacket, LoopEvent::PacketSize(frames)) => if frames == 0 {
            LoopAction::CheckStop
        } else {
            LoopAction::TakePacket
        },
        (LoopAction::TakePacket, LoopEvent::Done) => LoopAction::TakeChunk,
        (LoopAction::TakeChunk, LoopEvent::ChunkFull(full)) => if full {
            LoopAction::HandOn
        } else {
            LoopAction::AskPacket
        },
        (LoopAction::HandOn, LoopEvent::Done) => LoopAction::TakeChunk,
        (LoopAction::Stop, LoopEvent::Done) => LoopAction::Ended,
        _ => action,
    }
}

/// Says which action of the loop that captures follows `action` when `event` came of it.
pub fn next_loop_action<E>(action: LoopAction<E>, event: LoopEvent<E>) -> (next: LoopAction<E>)
    ensures
        next == next_action(action, event),
{
    match (action, event) {
        (LoopAction::Ended, _) => LoopAction::Ended,
        (LoopAction::Failed(error), _) => LoopAction::Failed(error),
        (_, LoopEvent::Failed(error)) => LoopAction::Failed(error),
        (LoopAction::CheckStop, LoopEvent::StopAsked(stop)) => if stop {
            LoopAction::Stop
        } else {
            LoopAction::Wait
        },
        (LoopAction::Wait, LoopEvent::Signalled(sound)) => if sound {
            LoopAction::AskPacket
        } else {
            LoopAction::CheckStop
        },
        (LoopAction::AskPacket, LoopEvent::PacketSize(frames)) => if frames == 0 {
            LoopAction::CheckStop
        } else {
            LoopAction::TakePacket
        },
        (LoopAction::TakePacket, LoopEvent::Done) => LoopAction::TakeChunk,
        (LoopAction::TakeChunk, LoopEvent::ChunkFull(full)) => if full {
            LoopAction::HandOn
        } else {
            LoopAction::AskPacket
        },
        (LoopAction::HandOn, LoopEvent::Done) => LoopAction::TakeChunk,
        (LoopAction::Stop, LoopEvent::Done) => LoopAction::Ended,
        (action, _) => action,
    }
}

/// The capture is stopped only when it was asked to, and looks for that whenever no more sound is
/// there; it ends only once it was stopped.
pub proof fn law_capture_stops_when_asked<E>(action: LoopAction<E>, event: LoopEvent<E>)
    ensures
        next_action(action, event) is Stop ==> action is Stop || (action is CheckStop && event
            == LoopEvent::<E>::StopAsked(true)),
        next_action(action, event) is Ended ==> action is Ended || (action is Stop && event is Done),
        next_action(LoopAction::<E>::CheckStop, LoopEvent::StopAsked(true)) is Stop,
        next_action(LoopAction::<E>::AskPacket, LoopEvent::PacketSize(0)) is CheckStop,
        next_action(LoopAction::<E>::Wait, LoopEvent::Signalled(false)) is CheckStop,
        next_action(LoopAction::<E>::Stop, LoopEvent::Done) is Ended,
{
}

/// The action of the loop that captures after `events` came of its actions, from `action` on.
pub open spec fn action_after<E>(action: LoopAction<E>, events: Seq<LoopEvent<E>>) -> LoopAction<E>
    decreases events.len(),
{
    if events.len() == 0 {
        action
    } else {
        next_action(action_after(action, events.drop_last()), events.last())
    }
}

/// An action that fails, be it that of handing a chunk on, ends the capture with what it failed
/// with: whatever events follow, no packet is taken and no chunk handed on any more.
pub proof fn law_failures_end_the_capture<E>(action: LoopAction<E>, error: E, events: Seq<LoopEvent<E>>)
    requires
        !(action is Ended) && !(action is Failed),
    ensures
        action_after(next_action(action, LoopEvent::Failed(error)), events) == LoopAction::Failed(error),
    decreases events.len(),
{
    if events.len() > 0 {
        law_failures_end_the_capture(action, error, events.drop_last());
    }
}

/// All full chunks are handed on before the next packet is asked for.
pub proof fn law_full_chunks_are_handed_on<E>(event: LoopEvent<E>)
    ensures
        next_action(LoopAction::<E>::TakePacket, LoopEvent::Done) is TakeChunk,
        next_action(LoopAction::<E>::TakeChunk, LoopEvent::ChunkFull(true)) is HandOn,
        next_action(LoopAction::<E>::HandOn, LoopEvent::Done) is TakeChunk,
        next_action(LoopAction::<E>::TakeChunk, event) is AskPacket ==> event == LoopEvent::<E>::ChunkFull(false),
        !(next_action(LoopAction::<E>::HandOn, event) is AskPacket),
{
}

/// What the flags of a packet say.
#[derive(Clone, Copy, Debug, PartialEq, Eq, Structural)]
pub struct PacketFlags {
    pub silent: bool,
    pub discontinuous: bool,
}

/// Reads the flags of a packet.
pub fn packet_flags(flags: u32) -> (read: PacketFlags)
    ensures
        read.silent == (flags & SILENT_FLAG != 0),
        read.discontinuous == (flags & DISCONTINUITY_FLAG != 0),
{
    PacketFlags { silent: flags & SILENT_FLAG != 0, discontinuous: flags & DISCONTINUITY_FLAG != 0 }
}

/// Captured sound that does not fill a chunk yet.
pub struct ChunkBuffer<S> {
    pending: Vec<S>,
}

impl<S: Copy> ChunkBuffer<S> {
    /// The sound that waits for its chunk.
    pub closed spec fn pending(&self) -> Seq<S> {
        self.pending@
    }

    /// Nothing waits.
    pub fn new() -> (buffer: Self)
        ensures
            buffer.pending() == Seq::<S>::empty(),
    {
        ChunkBuffer { pending: Vec::new() }
    }

    /// Takes in the sound of a packet; what waited is dropped where the packet does not continue
    /// it.
    pub fn receive(&mut self, samples: &[S], discontinuous: bool)
        ensures
            final(self).pending() == (if discontinuous {
                samples@
            } else {
                old(self).pending() + samples@
            }),
    {
        if discontinuous {
            self.pending = Vec::new();
        }
        append_all(&mut self.pending, samples);
        assert(Seq::<S>::empty() + samples@ =~= samples@);
    }

    /// Takes the next chunk out, where one is full.
    pub fn next_chunk(&mut self) -> (chunk: Option<Vec<S>>)
        ensures
            if old(self).pending().len() >= CHUNK_SAMPLES {
                &&& chunk is Some
                &&& chunk->0@ == old(self).pending().take(CHUNK_SAMPLES as int)
                &&& final(self).pending() == old(self).pending().skip(CHUNK_SAMPLES as int)
            } else {
                chunk is None && final(self).pending() == old(self).pending()
            },
    {
        if self.pending.len() < CHUNK_SAMPLES {
            return None;
        }
        let chunk = copied(&self.pending, 0, CHUNK_SAMPLES);
        let rest = copied(&self.pending, CHUNK_SAMPLES, self.pending.len());
        assert(chunk@ =~= self.pending@.take(CHUNK_SAMPLES as int));
        assert(rest@ =~= self.pending@.skip(CHUNK_SAMPLES as int));
        self.pending = rest;
        Some(chunk)
    }
}

/// The chunks that are taken out of `pending` until no more is full, and what is left.
pub open spec fn chunks_of<S>(pending: Seq<S>) -> (Seq<Seq<S>>, Seq<S>)
    decreases pending.len(),
{
    if pending.len() >= CHUNK_SAMPLES {
        let (chunks, rest) = chunks_of(pending.skip(CHUNK_SAMPLES as int));
        (seq![pending.take(CHUNK_SAMPLES as int)] + chunks, rest)
    } else {
        (Seq::empty(), pending)
    }
}

/// All of `chunks`, one after the other.
pub open spec fn all_of<S>(chunks: Seq<Seq<S>>) -> Seq<S>
    decreases chunks.len(),
{
    if chunks.len() == 0 {
        Seq::empty()
    } else {
        chunks[0] + all_of(chunks.drop_first())
    }
}

/// Cutting sound into chunks loses nothing and changes no order: the chunks, and then what is left,
/// are the sound that came in. Each chunk is full, and what is left does not fill one.
pub proof fn law_chunks_are_the_sound<S>(pending: Seq<S>)
    ensures
        all_of(chunks_of(pending).0) + chunks_of(pending).1 == pending,
        forall|i: int|
            0 <= i < chunks_of(pending).0.len() ==> (#[trigger] chunks_of(pending).0[i]).len() == CHUNK_SAMPLES,
        chunks_of(pending).1.len() < CHUNK_SAMPLES,
    decreases pending.len(),
{
    if pending.len() >= CHUNK_SAMPLES {
        let first = pending.take(CHUNK_SAMPLES as int);
        let after = pending.skip(CHUNK_SAMPLES as int);
        law_chunks_are_the_sound(after);
        let (chunks, rest) = chunks_of(after);
        let all = chunks_of(pending).0;
        assert(all.drop_first() =~= chunks);
        assert(all_of(all) + rest =~= first + (all_of(chunks) + rest));
        assert(first + after =~= pending);
        assert forall|i: int| 0 <= i < all.len() implies (#[trigger] all[i]).len() == CHUNK_SAMPLES by {
            if i > 0 {
                assert(all[i] == chunks[i - 1]);
            }
        }
    } else {
        assert(all_of(Seq::<Seq<S>>::empty()) + pending =~= pending);
    }
}

/// An error of the audio system is told in full, and explained where the system cannot capture.
pub proof fn law_errors_are_told_in_full(error: Seq<char>)
    ensures
        error.is_suffix_of(loopback_error(error)),
        occurs("0x80004001"@, error) <==> loopback_error(error) != error,
{
    let said = loopback_error(error);
    assert(said.subrange(said.len() - error.len(), said.len() as int) =~= error);
    if occurs("0x80004001"@, error) {
        reveal_strlit(
            "Windows process audio loopback is not implemented in this audio environment. This feature requires Windows Application Loopback support and an active audio output device. Raw error: ",
        );
        assert(said.len() > error.len());
    }
}

/// Floating-point numbers, and whole numbers of two or four bytes, are read, whether the format is told
/// by the first tag or by the second; nothing else is.
pub proof fn law_layouts_of_formats(tag: u16, bits: u16, sub: SubFormat)
    ensures
        layout_of(3, bits, sub) == Ok::<SampleLayout, Seq<char>>(SampleLayout::Float32),
        layout_of(0xfffe, bits, SubFormat::IeeeFloat) == Ok::<SampleLayout, Seq<char>>(SampleLayout::Float32),
        bits == 2 * 8 ==> layout_of(1, bits, sub) == Ok::<SampleLayout, Seq<char>>(SampleLayout::Int16),
        bits == 4 * 8 ==> layout_of(1, bits, sub) == Ok::<SampleLayout, Seq<char>>(SampleLayout::Int32),
        layout_of(1, bits, sub) is Ok <==> layout_of(0xfffe, bits, SubFormat::Pcm) is Ok,
        layout_of(1, bits, sub) is Ok ==> layout_of(1, bits, sub) == layout_of(0xfffe, bits, SubFormat::Pcm),
        layout_of(1, bits, sub) is Ok ==> bits == 16 || bits == 32,
        layout_of(tag, bits, SubFormat::Other) is Ok ==> tag == 1 || tag == 3,
        layout_of(tag, bits, sub) is Ok ==> tag == 1 || tag == 3 || tag == 0xfffe,
{
}

/// The sound that is asked for can be read.
pub proof fn law_captured_sound_can_be_read(format: CaptureFormat, sub: SubFormat)
    requires
        call_ensures(capture_format, (), format),
    ensures
        layout_of(format.format_tag, format.bits_per_sample, sub) is Ok,
        format.samples_per_second as int % CAPTURE_TARGET_RATE as int == 0,
        format.buffer_duration * 10 == 10_000_000,
        format.bytes_per_second == format.samples_per_second * format.channels * 2,
{
}

/// A text that was recognised is shown as it is, with whether it is final; a blank one is not shown.
pub proof fn law_recognised_texts_are_shown(result: LocalTranscriptResult, event: Option<AudioTranscriptEvent>)
    requires
        call_ensures(transcript_event, (result,), event),
    ensures
        event is Some <==> !is_blank(result.text@),
        event is Some ==> event->0.text@ == result.text@ && event->0.is_final == result.is_final
            && event->0.source@ == "process"@,
{
}

/// Sound that is there is taken: while no stop was asked for, the capture waits for sound, asks for
/// the packet and takes it.
pub proof fn law_sound_is_taken<E>(frames: u32)
    ensures
        next_action(LoopAction::<E>::CheckStop, LoopEvent::StopAsked(false)) is Wait,
        next_action(LoopAction::<E>::Wait, LoopEvent::Signalled(true)) is AskPacket,
        frames > 0 ==> next_action(LoopAction::<E>::AskPacket, LoopEvent::PacketSize(frames)) is TakePacket,
        next_action(LoopAction::<E>::TakeChunk, LoopEvent::ChunkFull(false)) is AskPacket,
{
}

/// A packet is taken only when one is there, and a chunk is handed on only when it is full.
pub proof fn law_nothing_is_made_up<E>(action: LoopAction<E>, event: LoopEvent<E>)
    ensures
        next_action(action, event) is TakePacket && !(action is TakePacket) ==> action is AskPacket
            && event is PacketSize && event->PacketSize_0 > 0,
        next_action(action, event) is HandOn && !(action is HandOn) ==> action is TakeChunk && event
            == LoopEvent::<E>::ChunkFull(true),
        next_action(action, event) is Failed && !(action is Failed) ==> event is Failed,
{
}

/// The measures of capturing: chunks of 1024 samples, at the rate of the models; a chunk is silent whose
/// peak lies below 0.0005.
pub proof fn law_measures_of_capturing(flags: u32, read: PacketFlags)
    requires
        call_ensures(packet_flags, (flags,), read),
    ensures
        CHUNK_SAMPLES == 1_024,
        CAPTURE_TARGET_RATE == crate::speech_model::TARGET_SAMPLE_RATE,
        crate::float_bits::is_nearest_to(SILENT_PEAK_BITS, 5, 10_000, 0x4_0000_0000),
        SILENT_PEAK_BITS / 0x80_0000 == 116,
        read.silent <==> flags & 2 != 0,
        read.discontinuous <==> flags & 1 != 0,
{
}

/// Sound comes out of the buffer as it came in: a chunk of 1024 samples exactly when there are as many,
/// the oldest ones, and what is left stays behind it.
pub proof fn law_chunks_come_out_in_order<S: Copy>(buffer: &mut ChunkBuffer<S>, chunk: Option<Vec<S>>)
    requires
        call_ensures(ChunkBuffer::<S>::next_chunk, (buffer,), chunk),
    ensures
        chunk is Some <==> old(buffer).pending().len() >= 1_024,
        chunk is Some ==> chunk->0@.len() == 1_024 && chunk->0@ + final(buffer).pending() == old(buffer).pending(),
        chunk is None ==> final(buffer).pending() == old(buffer).pending(),
{
    if chunk is Some {
        assert(chunk->0@ + final(buffer).pending() =~= old(buffer).pending());
    }
}

/// Sound that continues what waits goes behind it; sound that does not takes its place.
pub proof fn law_broken_sound_is_not_joined<S: Copy>(buffer: &mut ChunkBuffer<S>, samples: &[S], discontinuous: bool)
    requires
        call_ensures(ChunkBuffer::<S>::receive, (buffer, samples, discontinuous), ()),
    ensures
        !discontinuous ==> final(buffer).pending() == old(buffer).pending() + samples@,
        discontinuous ==> final(buffer).pending() == samples@,
{
}

/// Each chunk is counted once, with its samples, and tells how loud it was.
pub proof fn law_each_chunk_is_counted(
    counter: &mut CaptureCounter,
    count: usize,
    rms_bits: u32,
    peak_bits: u32,
    event: AudioCaptureStatsEvent,
)
    requires
        call_ensures(CaptureCounter::count_chunk, (counter, count, rms_bits, peak_bits), event),
    ensures
        event.chunks == old(counter).chunks() + 1 && event.samples == old(counter).samples() + count,
        final(counter).chunks() == event.chunks && final(counter).samples() == event.samples,
        event.rms_bits == rms_bits && event.peak_bits == peak_bits,
        event.silent <==> is_below(peak_bits, SILENT_PEAK_BITS),
{
}

} // verus!
