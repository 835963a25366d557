use tauri_llm::float_bits::{at_least, below, clamp_to_unit, last_highest, ONE_BITS};
use tauri_llm::realtime_speakers::{
    extraction_fault, failed_status, CentroidWeight, ClassifyStep, ExtractionFault, RealtimeClassification,
    RealtimeSpeakerSession, REALTIME_MATCH_THRESHOLD_BITS, REALTIME_MIN_RMS_BITS,
    REALTIME_NEW_SPEAKER_THRESHOLD_BITS,
};
use tauri_llm::speaker_diarization::{
    check_engine_rate, diarization_outcome, diarize_recording_audio, file_is_ready, normalize_segments, EngineSegment, SpeakerDiarizationOutput,
    SpeakerSegment,
};
use tauri_llm::speech_model::FileInfo;

type Session = RealtimeSpeakerSession<f32, Vec<f32>>;

fn engine_segment(start: f32, end: f32, speaker: i32) -> EngineSegment {
    EngineSegment {
        start_ms: (start.max(0.0) * 1_000.0).round() as u64,
        end_ms: (end.max(start) * 1_000.0).round() as u64,
        speaker,
    }
}

fn normalized(mut embedding: Vec<f32>) -> Option<Vec<f32>> {
    let norm = embedding.iter().map(|value| value * value).sum::<f32>().sqrt();
    if !norm.is_finite() || norm <= f32::EPSILON {
        return None;
    }
    for value in &mut embedding {
        *value /= norm;
    }
    Some(embedding)
}

fn similarity(left: &[f32], right: &[f32]) -> f32 {
    if left.len() != right.len() || left.is_empty() {
        return -1.0;
    }
    left.iter().zip(right).map(|(left, right)| left * right).sum()
}

fn classify(session: &mut Session, embedding: Vec<f32>) -> Option<RealtimeClassification> {
    let embedding = normalized(embedding);
    let (scores, pending_score): (Vec<u32>, Option<u32>) = match &embedding {
        Some(embedding) => (
            (0..session.speaker_count())
                .map(|speaker| similarity(&session.centroid(speaker).embedding, embedding).to_bits())
                .collect(),
            session.pending().map(|pending| similarity(pending, embedding).to_bits()),
        ),
        None => (Vec::new(), None),
    };
    let step = session.classify(embedding, &scores, pending_score);
    let mixed = match &step {
        ClassifyStep::Refine { classification, weight, embedding } => {
            let weight = match weight {
                CentroidWeight::OneIn { count } => 1.0 / *count as f32,
                CentroidWeight::Steady => 0.12,
            };
            let mixed: Vec<f32> = session
                .centroid(classification.speaker as usize)
                .embedding
                .iter()
                .zip(embedding)
                .map(|(current, incoming)| *current * (1.0 - weight) + *incoming * weight)
                .collect();
            Some(normalized(mixed).unwrap_or_default())
        }
        ClassifyStep::NewSpeaker { pending, embedding, .. } => {
            let combined: Vec<f32> = pending.iter().zip(embedding).map(|(left, right)| (left + right) * 0.5).collect();
            normalized(combined)
        }
        _ => None,
    };
    session.conclude(step, mixed)
}

#[test]
fn normalizes_labels_and_merges_adjacent_segments() {
    let output = normalize_segments(vec![
        engine_segment(0.0, 1.0, 8),
        engine_segment(1.1, 2.0, 8),
        engine_segment(2.2, 3.0, 3),
    ]);

    assert_eq!(output.speaker_count, 2);
    assert_eq!(output.segments.len(), 2);
    assert_eq!(output.segments[0].speaker, 0);
    assert_eq!(output.segments[0].end_ms, 2_000);
    assert_eq!(output.segments[1].speaker, 1);
}

#[test]
fn timelines_leave_empty_segments_out() {
    let heard = |start_ms: u64, end_ms: u64, speaker: i32| EngineSegment { start_ms, end_ms, speaker };
    let output = normalize_segments(vec![
        heard(5, 5, -7),
        heard(0, 100, 2),
        heard(300, 400, 2),
        heard(601, 700, 2),
        heard(650, 660, 2),
        heard(800, 900, 9),
        heard(u64::MAX - 1, u64::MAX, 9),
    ]);
    assert_eq!(
        output.segments,
        vec![
            SpeakerSegment { start_ms: 0, end_ms: 400, speaker: 0 },
            SpeakerSegment { start_ms: 601, end_ms: 700, speaker: 0 },
            SpeakerSegment { start_ms: 800, end_ms: 900, speaker: 1 },
            SpeakerSegment { start_ms: u64::MAX - 1, end_ms: u64::MAX, speaker: 1 },
        ]
    );
    assert_eq!(output.speaker_count, 2);
    assert_eq!(SpeakerDiarizationOutput::default().speaker_count, 0);
    assert_eq!(SpeakerSegment::default(), SpeakerSegment { start_ms: 0, end_ms: 0, speaker: 0 });
}

#[test]
fn diarization_failures_are_explained() {
    assert!(check_engine_rate(16_000).is_ok());
    assert_eq!(check_engine_rate(-8).err().unwrap(), "说话人分离模型采样率不匹配：-8 Hz");
    assert_eq!(check_engine_rate(48_000).err().unwrap(), "说话人分离模型采样率不匹配：48000 Hz");
    assert_eq!(diarization_outcome(None).err().unwrap(), "本地说话人分离失败");
    assert_eq!(diarize_recording_audio(Some(None)).err().unwrap(), "本地说话人分离失败");
    assert_eq!(diarize_recording_audio(None).unwrap().speaker_count, 0);
    assert_eq!(diarize_recording_audio(Some(Some(vec![engine_segment(0.0, 1.0, 5)]))).unwrap().speaker_count, 1);
    assert_eq!(diarization_outcome(Some(vec![engine_segment(0.0, 1.0, 5)])).unwrap().segments.len(), 1);
    assert!(file_is_ready(Some(FileInfo { is_file: true, len: 5 }), 5));
    assert!(!file_is_ready(Some(FileInfo { is_file: true, len: 4 }), 5));
    assert!(!file_is_ready(Some(FileInfo { is_file: false, len: 9 }), 5));
    assert!(!file_is_ready(None, 0));
}

#[test]
fn realtime_clustering_requires_a_repeated_new_voice() {
    let mut session = Session::new();
    let first = classify(&mut session, vec![1.0, 0.0, 0.0]).unwrap();
    let same = classify(&mut session, vec![0.98, 0.08, 0.0]).unwrap();

    assert_eq!(first.speaker, 0);
    assert_eq!(same.speaker, 0);
    assert_eq!(session.speaker_count(), 1);
    assert!(classify(&mut session, vec![0.0, 1.0, 0.0]).is_none());

    let second = classify(&mut session, vec![0.04, 0.99, 0.0]).unwrap();
    assert_eq!(second.speaker, 1);
    assert_eq!(session.speaker_count(), 2);
}

#[test]
fn voices_unlike_the_pending_one_replace_it() {
    let mut session = Session::new();
    assert_eq!(classify(&mut session, vec![1.0, 0.0, 0.0, 0.0]).unwrap().confidence_bits, ONE_BITS);
    assert!(classify(&mut session, vec![0.0, 1.0, 0.0, 0.0]).is_none());
    assert!(classify(&mut session, vec![0.0, 0.0, 1.0, 0.0]).is_none());
    assert_eq!(session.pending().unwrap()[2], 1.0);
    let known = classify(&mut session, vec![1.0, 0.0, 0.0, 0.0]).unwrap();
    assert_eq!(known.speaker, 0);
    assert!(session.pending().is_none());
    assert_eq!(session.centroid(0).observations, 2);
}

#[test]
fn no_more_than_six_speakers_are_told_apart() {
    let mut session = Session::new();
    for speaker in 0..7usize {
        let mut voice = vec![0.0_f32; 8];
        voice[speaker] = 1.0;
        let first = classify(&mut session, voice.clone());
        if speaker == 0 {
            assert_eq!(first.unwrap().speaker, 0);
        } else if speaker < 6 {
            assert!(first.is_none());
            assert_eq!(classify(&mut session, voice).unwrap().speaker, speaker as u32);
        } else {
            assert_eq!(first.unwrap().confidence_bits, 0);
        }
    }
    assert_eq!(session.speaker_count(), 6);
}

#[test]
fn a_voice_belongs_to_a_known_speaker() {
    let mut session = Session::new();
    assert!(classify(&mut session, vec![0.0, 0.0]).is_none());
    assert!(classify(&mut session, vec![f32::NAN, 1.0]).is_none());
    assert_eq!(session.speaker_count(), 0);
    assert!(session.pending().is_none());
    let voices = [[1.0, 0.0, 0.0], [0.9, 0.1, 0.0], [0.0, 1.0, 0.0], [0.0, 0.9, 0.2], [0.0, 0.0, 1.0], [0.1, 0.9, 0.0]];
    for voice in voices {
        let known = session.speaker_count();
        let answer = classify(&mut session, voice.to_vec());
        let now = session.speaker_count();
        assert!(now == known || now == known + 1);
        match answer {
            Some(found) => {
                assert!((found.speaker as usize) < now);
                assert!(now == known || found.speaker as usize == known);
                assert!((0.0..=1.0).contains(&f32::from_bits(found.confidence_bits)));
            }
            None => assert_eq!(now, known),
        }
        let pending = session.pending().cloned();
        assert!(classify(&mut session, vec![0.0, 0.0, 0.0]).is_none());
        assert_eq!(session.pending().cloned(), pending);
        assert_eq!(session.speaker_count(), now);
    }
    assert_eq!(session.speaker_count(), 2);
}

#[test]
fn two_voices_without_a_mean_are_no_new_speaker() {
    let mut session: RealtimeSpeakerSession<f32, u8> = RealtimeSpeakerSession::new();
    let step = session.classify(Some(1), &vec![], None);
    assert_eq!(session.conclude(step, None).unwrap().confidence_bits, ONE_BITS);
    let step = session.classify(Some(2), &vec![0], None);
    assert!(session.conclude(step, None).is_none());
    assert_eq!(session.pending(), Some(&2));
    let step = session.classify(Some(3), &vec![0], Some(0.7_f32.to_bits()));
    assert!(matches!(step, ClassifyStep::NewSpeaker { pending: 2, embedding: 3, .. }));
    assert!(session.conclude(step, None).is_none());
    assert_eq!(session.speaker_count(), 1);
    let step = session.classify(Some(4), &vec![0], None);
    assert!(session.conclude(step, None).is_none());
    let step = session.classify(Some(5), &vec![0], Some(0.7_f32.to_bits()));
    let found = session.conclude(step, Some(9)).unwrap();
    assert_eq!((found.speaker, found.confidence_bits), (1, 0.7_f32.to_bits()));
    assert_eq!((session.centroid(1).embedding, session.centroid(1).observations), (9, 2));
    let step = session.classify(Some(6), &vec![0, ONE_BITS], None);
    assert_eq!(session.conclude(step, Some(8)).unwrap().speaker, 1);
    assert_eq!((session.centroid(1).embedding, session.centroid(1).observations), (8, 3));
    assert_eq!(session.centroid(0).embedding, 1);
}

#[test]
fn analyses_wait_for_a_window_and_an_interval() {
    let mut session = Session::new();
    assert!(!session.append_samples(&[0.5; 48_000]));
    let (generation, status) = session.start_realtime(true);
    assert_eq!(generation, 1);
    assert_eq!(status.status, "loading");
    assert!(!session.append_samples(&[0.5; 48_000]));
    assert!(session.finish_loading(0, Ok(())).is_none());
    assert_eq!(session.finish_loading(generation, Ok(())).unwrap().status, "ready");
    assert!(session.append_samples(&[0.25; 1_000]));
    assert_eq!(session.window().len(), 48_000);
    assert!(session.begin_analysis(0.005_f32.to_bits()).is_none());
    assert!(!session.append_samples(&[0.25; 23_999]));
    assert!(session.append_samples(&[0.25; 1]));
    let job = session.begin_analysis(0.3_f32.to_bits()).unwrap();
    assert_eq!(job.generation, 1);
    assert_eq!(job.window.len(), 48_000);
    assert_eq!(job.analyzed_end_ms, 73_000 / 16);
    assert!(!session.append_samples(&[0.25; 48_000]));
    assert!(!session.end_analysis(7));
    assert!(session.end_analysis(1));
    assert!(session.append_samples(&[0.25; 1]));
    let event = session.speaker_event(RealtimeClassification { speaker: 2, confidence_bits: 3 }, 44);
    assert_eq!((event.speaker, event.speaker_count, event.confidence_bits, event.analyzed_end_ms), (2, 0, 3, 44));
}

#[test]
fn sessions_that_are_over_count_no_more() {
    let mut session = Session::new();
    let (first, _) = session.start_realtime(true);
    assert_eq!(session.stop_realtime().status, "idle");
    assert!(session.finish_loading(first, Ok(())).is_none());
    let (second, status) = session.start_realtime(false);
    assert_eq!(status.status, "idle");
    assert!(second > first);
    assert!(!session.end_analysis(second));
    let (third, _) = session.start_realtime(true);
    let failed = session.finish_loading(third, Err("kein Modell".to_string())).unwrap();
    assert_eq!(failed.status, "failed");
    assert_eq!(failed.error.as_deref(), Some("kein Modell"));
    assert!(!session.append_samples(&[0.0; 10]));
    let (fourth, _) = session.start_realtime(true);
    assert!(session.begin_analysis(ONE_BITS).is_some());
    assert!(session.fail_analysis(third, "late".to_string()).is_none());
    let failed = session.fail_analysis(fourth, "no voice".to_string()).unwrap();
    assert_eq!((failed.status.as_str(), failed.error.as_deref()), ("failed", Some("no voice")));
    assert!(session.fail_analysis(fourth, "again".to_string()).is_none());
    assert!(!session.end_analysis(fourth));
    assert_eq!(failed_status("x".to_string()).error.as_deref(), Some("x"));
    assert_eq!(extraction_fault(ExtractionFault::Unavailable), "实时音色模型状态不可用");
    assert_eq!(extraction_fault(ExtractionFault::NotLoaded), "实时音色模型尚未加载");
    assert_eq!(extraction_fault(ExtractionFault::NoStream), "无法创建实时音色分析流");
    assert_eq!(extraction_fault(ExtractionFault::TooShort), "当前语音片段过短，无法提取音色");
    assert_eq!(extraction_fault(ExtractionFault::NoEmbedding), "实时音色特征提取失败");
}

#[test]
fn bit_patterns_order_as_their_numbers_do() {
    assert_eq!(REALTIME_MIN_RMS_BITS, 0.006_f32.to_bits());
    assert_eq!(REALTIME_MATCH_THRESHOLD_BITS, 0.48_f32.to_bits());
    assert_eq!(REALTIME_NEW_SPEAKER_THRESHOLD_BITS, 0.65_f32.to_bits());
    assert_eq!(ONE_BITS, 1.0_f32.to_bits());
    let numbers = [-2.0_f32, -0.0, 0.0, 0.1, 0.48, 0.5, 1.0, 7.0, f32::INFINITY, f32::NEG_INFINITY, f32::NAN];
    for left in numbers {
        assert_eq!(below(left.to_bits(), 0.48_f32.to_bits()), left < 0.48);
        assert_eq!(at_least(left.to_bits(), 0.48_f32.to_bits()), left >= 0.48);
        assert_eq!(clamp_to_unit(left.to_bits()), left.clamp(0.0, 1.0).to_bits());
    }
    let scores: Vec<u32> = [0.1_f32, 0.7, -0.3, 0.7, 0.2].iter().map(|score| score.to_bits()).collect();
    assert_eq!(last_highest(&scores), 3);
}
