use recmari::analysis::HpReading;
use recmari::pipeline::{
    damage_threshold, record_frame, reset_threshold, segment_into_match, split_into_rounds,
    CarryState, FrameData, PipelineConfig, PlayerState,
};
use recmari::ratio::Ratio;

/// A frame whose health values are given in hundredths.
fn fd(frame_number: u32, ts_micros: u64, p1: u32, p2: u32) -> FrameData {
    FrameData {
        frame_number,
        timestamp_micros: ts_micros,
        player1: PlayerState { health_ratio: Ratio::new(p1, 100) },
        player2: PlayerState { health_ratio: Ratio::new(p2, 100) },
    }
}

#[test]
fn split_no_damage_yields_one_round() {
    let frames = vec![fd(0, 0, 100, 100), fd(1, 500_000, 90, 90)];
    let rounds = split_into_rounds(&frames);
    assert_eq!(rounds.len(), 1);
}

#[test]
fn split_detects_round_boundary() {
    let frames = vec![
        fd(0, 0, 100, 100),
        fd(1, 500_000, 60, 30), // P2 takes significant damage
        fd(2, 1_000_000, 80, 0), // KO
        fd(3, 1_500_000, 100, 100), // reset — new round
        fd(4, 2_000_000, 90, 80),
    ];
    let rounds = split_into_rounds(&frames);
    assert_eq!(rounds.len(), 2, "expected 2 rounds, got {}", rounds.len());
    assert_eq!(rounds[0].len(), 3);
    assert_eq!(rounds[1].len(), 2);
    // The recovery frame belongs to the new round.
    assert_eq!(rounds[1][0].frame_number, 3);
}

#[test]
fn split_empty_input() {
    let rounds = split_into_rounds(&Vec::new());
    assert!(rounds.is_empty());
}

#[test]
fn segment_builds_single_match() {
    let frames = vec![
        fd(0, 0, 100, 100),
        fd(1, 500_000, 60, 30),
        fd(2, 1_000_000, 80, 0),
        fd(3, 1_500_000, 100, 100), // reset — new round
        fd(4, 2_000_000, 90, 80),
    ];
    let m = segment_into_match(&frames, b"test.mp4".to_vec());
    assert_eq!(m.rounds.len(), 2);
    assert_eq!(m.rounds[0].round_index, 0);
    assert_eq!(m.rounds[1].round_index, 1);
    assert_eq!(m.source_path, b"test.mp4".to_vec());
    assert_eq!(m.start_micros, 0);
}

#[test]
fn thresholds_are_the_documented_constants() {
    assert_eq!(damage_threshold(), Ratio::new(1, 2));
    assert_eq!(reset_threshold(), Ratio::new(19, 20));
}

#[test]
fn record_frame_skips_until_both_sides_have_readings() {
    let mut state = CarryState::new();
    let only_p1 = HpReading { p1: Some(Ratio::new(100, 100)), p2: None };
    let r = record_frame(&mut state, 0, 0, &only_p1);
    assert!(r.is_none());
    // A skipped frame does not advance the carried values.
    assert!(state.last_p1.is_none());
    assert!(state.last_p2.is_none());
}

#[test]
fn record_frame_carries_last_value_forward() {
    let mut state = CarryState::new();
    let both = HpReading {
        p1: Some(Ratio::new(100, 100)),
        p2: Some(Ratio::new(80, 100)),
    };
    let r = record_frame(&mut state, 0, 0, &both);
    let first = r.expect("both sides read");
    assert_eq!(first.player1.health_ratio, Ratio::new(100, 100));
    assert_eq!(first.player2.health_ratio, Ratio::new(80, 100));

    // P2 becomes unreadable: its last confident value is carried forward.
    let p2_hidden = HpReading { p1: Some(Ratio::new(90, 100)), p2: None };
    let r = record_frame(&mut state, 1, 500_000, &p2_hidden);
    let second = r.expect("carried forward");
    assert_eq!(second.player1.health_ratio, Ratio::new(90, 100));
    assert_eq!(second.player2.health_ratio, Ratio::new(80, 100));
    // The carried value only advances on a fresh reading.
    assert_eq!(state.last_p1, Some(Ratio::new(90, 100)));
    assert_eq!(state.last_p2, Some(Ratio::new(80, 100)));
}

#[test]
fn pipeline_config_sampling() {
    let config = PipelineConfig::default();
    assert_eq!(config.sample_rate, 60);
    assert!(config.should_analyze(0));
    assert!(!config.should_analyze(59));
    assert!(config.should_analyze(120));
    let capped = PipelineConfig { max_frames: Some(1), ..PipelineConfig::default() };
    assert!(capped.should_analyze(59));
}
