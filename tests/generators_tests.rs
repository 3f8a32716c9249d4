use terminal_daw::generators::{
    Envelope, EnvelopeState, PrimitiveWave, Processor, WaveType, LEVEL_ONE,
};

#[test]
fn envelope_lengths_in_samples() {
    let e = Envelope::new(10, 20, LEVEL_ONE, 30, 48000);
    assert_eq!(e.attack, 480);
    assert_eq!(e.decay, 960);
    assert_eq!(e.release, 1440);
    assert_eq!(e.get_state(), EnvelopeState::Idle);
    assert!(e.is_idle());
    assert!(!e.is_active());
}

#[test]
fn envelope_walks_through_its_segments() {
    let half = LEVEL_ONE / 2;
    let mut e = Envelope::new(4, 2, half, 4, 1000);
    assert_eq!(e.next_level(), 0);
    e.start();
    assert_eq!(e.get_state(), EnvelopeState::Attack);
    let attack: Vec<u32> = (0..4).map(|_| e.next_level()).collect();
    // Each step closes a quarter, a half, three quarters of the gap left to unity.
    assert_eq!(attack, vec![0, 16384, 40960, 59392]);
    assert_eq!(e.get_state(), EnvelopeState::Decay);
    assert_eq!(e.next_level(), LEVEL_ONE);
    assert_eq!(e.next_level(), 49152);
    assert_eq!(e.get_state(), EnvelopeState::Sustain);
    assert_eq!(e.next_level(), half);
    assert_eq!(e.next_level(), half);
    e.stop();
    assert_eq!(e.get_state(), EnvelopeState::Release);
    let release: Vec<u32> = (0..4).map(|_| e.next_level()).collect();
    assert_eq!(release, vec![32768, 24576, 16384, 8192]);
    assert!(e.is_idle());
    assert_eq!(e.next_level(), 0);
}

#[test]
fn retrigger_starts_from_current_level() {
    let mut e = Envelope::new(4, 0, LEVEL_ONE, 4, 1000);
    e.start();
    for _ in 0..6 {
        e.next_level();
    }
    e.stop();
    e.next_level();
    e.next_level();
    assert_eq!(e.current_level, 49152);
    e.start();
    assert_eq!(e.next_level(), 49152);
    assert_eq!(e.next_level(), 49152 + (LEVEL_ONE - 49152) / 4);
}

#[test]
fn zero_length_segments_are_instant() {
    let mut e = Envelope::new(0, 0, LEVEL_ONE, 0, 48000);
    e.start();
    assert_eq!(e.next_level(), LEVEL_ONE);
    assert_eq!(e.next_level(), LEVEL_ONE);
    assert_eq!(e.get_state(), EnvelopeState::Sustain);
    e.stop();
    assert_eq!(e.next_level(), 0);
    assert!(e.is_idle());
}

#[test]
fn stop_leaves_idle_and_release_alone() {
    let mut e = Envelope::new(1, 1, LEVEL_ONE, 10, 1000);
    e.stop();
    assert!(e.is_idle());
    e.start();
    e.stop();
    e.next_level();
    e.next_level();
    assert_eq!(e.phase, 2);
    e.stop();
    assert_eq!(e.get_state(), EnvelopeState::Release);
    assert_eq!(e.phase, 2);
}

#[test]
fn envelope_processor_scales_its_input() {
    let mut e = Envelope::new(0, 0, LEVEL_ONE / 4, 0, 1000);
    assert_eq!(e.process(1000), 0);
    e.start();
    e.next_level();
    e.next_level();
    assert_eq!(e.process(1000), 250);
}

#[test]
fn oscillator_phase_steps_by_frequency_over_rate() {
    let env = Envelope::new(0, 0, LEVEL_ONE, 0, 48000);
    let mut w = PrimitiveWave::new(440_000, WaveType::Sine, 48000, env);
    assert_eq!(w.get_phase(), 0);
    w.advance_phase();
    assert_eq!(w.get_phase(), 39370533);
}

#[test]
fn oscillator_phase_wraps_into_one_cycle() {
    let env = Envelope::new(0, 0, LEVEL_ONE, 0, 4000);
    let mut w = PrimitiveWave::new(1_000_000, WaveType::Square, 4000, env);
    for _ in 0..4 {
        w.advance_phase();
    }
    assert_eq!(w.get_phase(), 0);
    let mut fast = PrimitiveWave::new(5_000_000, WaveType::Saw, 4000, env);
    fast.advance_phase();
    assert_eq!(fast.get_phase(), 1 << 30);
}

#[test]
fn oscillator_notes_drive_the_envelope() {
    let env = Envelope::new(0, 0, LEVEL_ONE, 0, 48000);
    let mut w = PrimitiveWave::new(144_000, WaveType::Triangle, 48000, env);
    let t = w.process();
    assert_eq!(t.level, 0);
    assert_eq!(t.wave, WaveType::Triangle);
    w.note_on(880_000);
    assert_eq!(w.frequency, 880_000);
    assert_eq!(w.get_envelope().get_state(), EnvelopeState::Attack);
    let t = w.process();
    assert_eq!(t.level, LEVEL_ONE);
    assert_eq!(t.phase, 12884901);
    w.process();
    assert_eq!(w.get_envelope().get_state(), EnvelopeState::Sustain);
    w.note_off();
    assert_eq!(w.get_envelope().get_state(), EnvelopeState::Release);
}

#[test]
fn full_sustain_gives_unit_level_at_every_phase() {
    let env = Envelope::new(0, 0, LEVEL_ONE, 0, 8000);
    for wave in [WaveType::Sine, WaveType::Square, WaveType::Triangle, WaveType::Saw] {
        let mut w = PrimitiveWave::new(1_234_567, wave, 8000, env);
        w.note_on(1_234_567);
        w.process();
        w.process();
        for _ in 0..500 {
            let t = w.process();
            assert_eq!(t.level, LEVEL_ONE);
            assert_eq!(t.wave, wave);
        }
    }
}
