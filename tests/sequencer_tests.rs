use terminal_daw::sequencer::{NoteEvent, Sequencer, VELOCITY_FULL};

fn fresh() -> Sequencer {
    Sequencer::new(120, 48000, 16, 4)
}

#[test]
fn new_sequencer_is_empty_and_on_first_step() {
    let s = fresh();
    assert_eq!(s.pattern_len(), 16);
    assert_eq!(s.current_step(), 0);
    assert_eq!(s.accumulated, 0);
    for i in 0..16 {
        assert_eq!(s.get_event(i), None);
    }
    assert_eq!(s.get_current_event(), None);
}

#[test]
fn step_lasts_sample_rate_times_sixty_over_bpm_times_division() {
    // 48000 * 60 / (120 * 4) = 6000 samples per step.
    let mut s = fresh();
    assert!(s.is_primed());
    assert!(!s.process(1));
    assert!(!s.is_primed());
    assert_eq!(s.current_step(), 0);
    assert!(!s.process(5998));
    assert_eq!(s.current_step(), 0);
    assert!(s.process(1));
    assert_eq!(s.current_step(), 1);
    assert_eq!(s.accumulated, 0);
    assert!(!s.is_primed());
}

#[test]
fn fractional_step_length_has_no_drift() {
    // 44100 * 60 / (133 * 4) = 4973.68... samples per step.
    let mut s = Sequencer::new(133, 44100, 16, 4);
    s.process(1_000_000);
    let ticks: u64 = 1_000_000 * 133 * 4;
    let span: u64 = 44100 * 60;
    assert_eq!(s.current_step() as u64, (ticks / span) % 16);
    assert_eq!(s.accumulated, ticks % span);
}

#[test]
fn single_samples_match_one_bulk_advance() {
    let mut a = Sequencer::new(133, 44100, 7, 3);
    let mut b = Sequencer::new(133, 44100, 7, 3);
    let mut entered = 0u32;
    for _ in 0..100_000 {
        if a.process(1) {
            entered += 1;
        }
    }
    b.process(100_000);
    assert_eq!(a.current_step(), b.current_step());
    assert_eq!(a.accumulated, b.accumulated);
    // 100000 * 133 * 3 / (44100 * 60) = 15.08..: fifteen boundaries.
    assert_eq!(entered, 15);
    assert_eq!(a.current_step(), 15 % 7);
}

#[test]
fn several_boundaries_in_one_sample() {
    // 1000 * 60 / (60000 * 4) = a quarter of a sample per step.
    let mut s = Sequencer::new(60000, 1000, 16, 4);
    assert!(s.process(1));
    assert_eq!(s.current_step(), 4);
    assert_eq!(s.accumulated, 0);
    assert!(s.process(3));
    assert_eq!(s.current_step(), 0);
}

#[test]
fn reset_replays_like_new() {
    let mut a = fresh();
    a.set_note_at(2, 440_000, VELOCITY_FULL);
    a.process(12345);
    a.reset();
    assert!(a.is_primed());
    let mut b = fresh();
    b.set_note_at(2, 440_000, VELOCITY_FULL);
    for n in [1usize, 7, 5999, 6000, 20000] {
        assert_eq!(a.process(n), b.process(n));
        assert_eq!(a.current_step(), b.current_step());
        assert_eq!(a.accumulated, b.accumulated);
        assert_eq!(a.get_current_event(), b.get_current_event());
        assert_eq!(a.is_primed(), b.is_primed());
    }
}

#[test]
fn note_round_trip() {
    let mut s = fresh();
    s.set_note_at(3, 220_000, 500);
    s.process(1);
    s.process(3 * 6000 - 1);
    assert_eq!(s.current_step(), 3);
    assert_eq!(
        s.get_current_event(),
        Some(NoteEvent { frequency: 220_000, velocity: 500 })
    );
    s.clear_step(3);
    s.process(16 * 6000);
    assert_eq!(s.current_step(), 3);
    assert_eq!(s.get_current_event(), None);
}

#[test]
fn edits_past_the_end_are_ignored() {
    let mut s = fresh();
    s.set_note_at(16, 440_000, 100);
    s.clear_step(99);
    for i in 0..16 {
        assert_eq!(s.get_event(i), None);
    }
    assert_eq!(s.get_event(16), None);
    assert_eq!(s.pattern_len(), 16);
}

#[test]
fn bpm_change_mid_step_keeps_cursor() {
    let mut s = fresh();
    s.process(1);
    s.process(3000);
    assert_eq!(s.current_step(), 0);
    // Halfway through a 6000-sample step at 120 BPM.
    assert_eq!(s.accumulated, 3001 * 480);
    s.set_bpm(240);
    assert_eq!(s.current_step(), 0);
    // At 240 BPM a step lasts 3000 samples; 3001 already passed, so the
    // accumulator sits just short of the boundary.
    assert_eq!(s.accumulated, 48000 * 60 - 1);
    assert!(s.process(1));
    assert_eq!(s.current_step(), 1);
    assert!(!s.process(2999));
    assert!(s.process(1));
    assert_eq!(s.current_step(), 2);
}

#[test]
fn bpm_change_keeps_elapsed_samples() {
    let mut s = fresh();
    s.process(1000);
    s.set_bpm(240);
    assert_eq!(s.accumulated, 1000 * 960);
    assert_eq!(s.bpm, 240);
}

#[test]
fn sample_rate_change_cuts_accumulator() {
    let mut s = fresh();
    s.process(5000);
    assert_eq!(s.accumulated, 5000 * 480);
    s.set_sample_rate(44100);
    assert_eq!(s.accumulated, 5000 * 480);
    s.set_sample_rate(8000);
    assert_eq!(s.accumulated, 8000 * 60 - 1);
    assert_eq!(s.current_step(), 0);
}
