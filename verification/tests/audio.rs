use tauri_llm::audio_capture::{
    capture_format, check_capture_start, check_transcription_start, chunk_event, describe_windows_loopback_error,
    next_loop_action, packet_flags, process_chunk, sample_layout, transcript_event, CaptureCounter, ChunkBuffer, LoopAction,
    LoopEvent, SampleLayout, SubFormat, SILENT_PEAK_BITS,
};
use tauri_llm::audio_processes::{
    arrange_processes, count_sessions, list_audio_processes, listing_text, processes_read, AudioProcessTarget,
    KeyedProcess, Listing, ListingOutput,
};
use tauri_llm::transcript::LocalTranscriptResult;

fn process(pid: u32, name: &str) -> AudioProcessTarget {
    AudioProcessTarget {
        pid,
        name: name.to_string(),
        window_title: None,
        executable_path: None,
        command_line: None,
        session_id: None,
        has_audio_session: true,
        audio_session_count: 99,
    }
}

#[test]
fn programs_with_sound_are_listed_first() {
    let processes = vec![
        process(5, "beta"),
        process(4, "Alpha"),
        process(3, "alpha"),
        process(0, "idle"),
        process(9, "  "),
        process(8, "zeta"),
        process(7, "Éclair"),
        process(6, "player"),
    ];
    let listed = list_audio_processes(processes, &vec![8, 6, 0, 8, 1_000]);
    let pids: Vec<u32> = listed.iter().map(|process| process.pid).collect();
    assert_eq!(pids, vec![8, 6, 3, 4, 5, 7]);
    assert_eq!(listed[0].audio_session_count, 2);
    assert!(listed[0].has_audio_session && !listed[2].has_audio_session);
    assert_eq!(listed[2].audio_session_count, 0);
    assert_eq!(count_sessions(&vec![0, 0, 3], 0), 0);
    assert_eq!(count_sessions(&vec![3, 1, 3], 3), 2);
    let keyed = |pid: u32, key: &str| KeyedProcess { process: process(pid, "n"), key: key.to_string() };
    let arranged = arrange_processes(vec![keyed(2, "b"), keyed(3, "a"), keyed(1, "a")]);
    assert_eq!(arranged.iter().map(|process| process.pid).collect::<Vec<u32>>(), vec![1, 3, 2]);
}

#[test]
fn listings_are_read_as_far_as_they_go() {
    let output = |success: bool, stdout: &str| {
        let (stdout, stderr) = (stdout.to_string(), " denied\r\n".to_string());
        listing_text(Ok(ListingOutput { success, stdout, stderr }))
    };
    assert_eq!(output(true, " \r\n"), Ok(None));
    assert_eq!(output(true, " []\n"), Ok(Some("[]".to_string())));
    assert_eq!(output(false, "[]"), Err("denied".to_string()));
    assert_eq!(
        listing_text(Err("not found".to_string())),
        Err("Failed to run PowerShell process listing: not found".to_string())
    );
    let pids = |listing: Option<Result<Listing, String>>| {
        processes_read(listing).map(|read| read.iter().map(|process| process.pid).collect::<Vec<u32>>())
    };
    let items = vec![None, Some(process(4, "d")), None, Some(process(2, "b")), None];
    assert_eq!(pids(Some(Ok(Listing::Items(items)))), Ok(vec![4, 2]));
    assert_eq!(pids(Some(Ok(Listing::One(Ok(process(7, "g")))))), Ok(vec![7]));
    assert_eq!(
        pids(Some(Ok(Listing::One(Err("no pid".to_string()))))),
        Err("Failed to parse process list item: no pid".to_string())
    );
    assert_eq!(pids(Some(Ok(Listing::Other))), Ok(vec![]));
    assert_eq!(pids(None), Ok(vec![]));
    assert_eq!(pids(Some(Err("eof".to_string()))), Err("Failed to parse process list: eof".to_string()));
}

#[test]
fn blank_texts_raise_no_event() {
    let result = |text: &str, is_final: bool| LocalTranscriptResult { text: text.to_string(), is_final };
    assert!(transcript_event(result(" \n", true)).is_none());
    let event = transcript_event(result(" hi ", true)).unwrap();
    assert_eq!(event.source, "process");
    assert_eq!(event.text, " hi ");
    assert!(event.is_final);
    assert!(process_chunk(Some(Ok(result(" ", true)))).ok().unwrap().is_none());
    assert_eq!(process_chunk(Some(Ok(result("hi", false)))).ok().unwrap().unwrap().text, "hi");
    assert_eq!(process_chunk(Some(Err("x".to_string()))).err().unwrap(), "x");
    assert_eq!(process_chunk(None).err().unwrap(), "Local Sherpa-ONNX model is not loaded.");
    let event = chunk_event(vec![1, 2]);
    assert_eq!((event.source.as_str(), event.samples), ("process", vec![1, 2]));
}

#[test]
fn captures_are_counted() {
    assert_eq!(SILENT_PEAK_BITS, 0.0005_f32.to_bits());
    let mut counter = CaptureCounter::new();
    assert!(counter.has_room(1024));
    let first = counter.count_chunk(1024, 0.1_f32.to_bits(), 0.0004_f32.to_bits());
    assert!(first.silent);
    let second = counter.count_chunk(10, 0.1_f32.to_bits(), 0.0005_f32.to_bits());
    assert_eq!((second.chunks, second.samples), (2, 1_034));
    assert!(!second.silent);
    assert_eq!(second.rms_bits, 0.1_f32.to_bits());
}

#[test]
fn captures_start_one_at_a_time() {
    assert!(check_capture_start(false).is_ok());
    assert_eq!(check_capture_start(true).err().unwrap(), "Process audio capture is already running");
    assert!(check_transcription_start(false, true).is_ok());
    assert_eq!(
        check_transcription_start(true, false).err().unwrap(),
        "Process audio transcription is already running"
    );
    assert_eq!(
        check_transcription_start(false, false).err().unwrap(),
        "Local Sherpa-ONNX model is not loaded. Download/load the local model first."
    );
}

#[test]
fn errors_of_the_audio_system_are_explained() {
    assert_eq!(describe_windows_loopback_error("other".to_string()), "other");
    assert_eq!(
        describe_windows_loopback_error("Not implemented (0x80004001)".to_string()),
        "Windows process audio loopback is not implemented in this audio environment. This feature requires Windows Application Loopback support and an active audio output device. Raw error: Not implemented (0x80004001)"
    );
}

#[test]
fn sample_layouts_follow_the_format() {
    let format = capture_format();
    assert_eq!((format.bytes_per_frame, format.bytes_per_second), (4, 192_000));
    let layout = |tag: u16, bits: u16, sub: SubFormat| sample_layout(tag, bits, sub);
    assert_eq!(layout(format.format_tag, 16, SubFormat::Other).unwrap(), SampleLayout::Int16);
    assert_eq!(layout(1, 32, SubFormat::Other).unwrap(), SampleLayout::Int32);
    assert_eq!(layout(3, 64, SubFormat::Other).unwrap(), SampleLayout::Float32);
    assert_eq!(layout(0xfffe, 8, SubFormat::IeeeFloat).unwrap(), SampleLayout::Float32);
    assert_eq!(layout(0xfffe, 32, SubFormat::Pcm).unwrap(), SampleLayout::Int32);
    assert_eq!(layout(0xfffe, 16, SubFormat::Pcm).unwrap(), SampleLayout::Int16);
    assert_eq!(layout(1, 24, SubFormat::Pcm).err().unwrap(), "Unsupported PCM bit depth: 24");
    assert_eq!(layout(0xfffe, 24, SubFormat::Pcm).err().unwrap(), "Unsupported extensible PCM bit depth: 24");
    assert_eq!(
        layout(0xfffe, 16, SubFormat::Other).err().unwrap(),
        "Unsupported WAVE_FORMAT_EXTENSIBLE subtype"
    );
    assert_eq!(layout(7, 16, SubFormat::Pcm).err().unwrap(), "Unsupported WASAPI format tag: 7");
}

type Action = LoopAction<String>;
type Event = LoopEvent<String>;

#[test]
fn the_capture_loop_stops_when_asked() {
    let mut action = Action::CheckStop;
    for event in [
        Event::StopAsked(false),
        Event::Signalled(true),
        Event::PacketSize(480),
        Event::Done,
        Event::ChunkFull(true),
        Event::Done,
        Event::ChunkFull(false),
        Event::PacketSize(0),
    ] {
        action = next_loop_action(action, event);
    }
    assert_eq!(action, Action::CheckStop);
    assert_eq!(next_loop_action(Action::Wait, Event::Signalled(false)), Action::CheckStop);
    assert_eq!(next_loop_action(action, Event::StopAsked(true)), Action::Stop);
    assert_eq!(next_loop_action(Action::Stop, Event::Done), Action::Ended);
    assert_eq!(next_loop_action(Action::Ended, Event::Failed("late".to_string())), Action::Ended);
}

#[test]
fn failures_end_the_capture() {
    let failed = Action::Failed("full disk".to_string());
    for action in [Action::AskPacket, Action::TakePacket, Action::HandOn, Action::Stop] {
        let mut action = next_loop_action(action, Event::Failed("full disk".to_string()));
        assert_eq!(action, failed);
        for event in [Event::Done, Event::ChunkFull(true), Event::PacketSize(9), Event::Failed("x".to_string())] {
            action = next_loop_action(action, event);
            assert_eq!(action, failed);
        }
    }
}

#[test]
fn full_chunks_are_handed_on() {
    let mut action = Action::TakePacket;
    let mut handed_on = 0;
    for event in [Event::Done, Event::ChunkFull(true), Event::Done, Event::ChunkFull(true), Event::Done] {
        action = next_loop_action(action, event);
        if action == Action::HandOn {
            handed_on += 1;
        }
    }
    assert_eq!((handed_on, action), (2, Action::TakeChunk));
    assert_eq!(next_loop_action(Action::TakeChunk, Event::ChunkFull(false)), Action::AskPacket);
}

#[test]
fn packets_tell_silence_and_breaks() {
    let flags = packet_flags(3);
    assert!(flags.silent && flags.discontinuous);
    let flags = packet_flags(4);
    assert!(!flags.silent && !flags.discontinuous);
    assert!(packet_flags(2).silent && packet_flags(1).discontinuous);
}

#[test]
fn sound_is_cut_into_chunks() {
    let mut buffer: ChunkBuffer<u32> = ChunkBuffer::new();
    let sound: Vec<u32> = (0..2_500).collect();
    buffer.receive(&sound[..1_000], false);
    assert!(buffer.next_chunk().is_none());
    buffer.receive(&sound[1_000..], false);
    let mut seen = Vec::new();
    while let Some(chunk) = buffer.next_chunk() {
        assert_eq!(chunk.len(), 1024);
        seen.extend(chunk);
    }
    assert_eq!(seen, (0..2_048).collect::<Vec<u32>>());
    buffer.receive(&[7; 1_023], true);
    assert!(buffer.next_chunk().is_none());
    buffer.receive(&[8], false);
    let chunk = buffer.next_chunk().unwrap();
    assert_eq!((chunk[0], chunk[1_023]), (7, 8));
}
