use terminal_daw::generators::{Envelope, EnvelopeState, PrimitiveWave, WaveType, CYCLE, LEVEL_ONE};
use terminal_daw::sequencer::{NoteEvent, VELOCITY_FULL};
use terminal_daw::track::Track;

fn sine_track(volume: u32) -> Track {
    let mut t = Track::new(volume, "Lead".to_string(), 48000, 120, 16, 4);
    let env = Envelope::new(0, 0, LEVEL_ONE, 0, 48000);
    t.set_instrument(PrimitiveWave::new(440_000, WaveType::Sine, 48000, env));
    t
}

#[test]
fn track_without_instrument_is_silent() {
    let mut t = Track::new(100, "Empty".to_string(), 48000, 120, 16, 4);
    t.sequencer_mut().set_note_at(0, 440_000, VELOCITY_FULL);
    let block = t.process_block(64);
    assert_eq!(block.len(), 64);
    assert!(block.iter().all(|v| v.is_none()));
    // The sequencer still ran.
    assert_eq!(t.sequencer.accumulated, 64 * 480);
    assert_eq!(t.get_current_note(), Some(NoteEvent { frequency: 440_000, velocity: VELOCITY_FULL }));
}

#[test]
fn one_step_pattern_sounds_from_first_sample() {
    let mut t = sine_track(80);
    t.sequencer_mut().set_note_at(0, 440_000, VELOCITY_FULL);
    let block = t.process_block(12);
    let first = block[0].unwrap();
    assert_eq!(first.tone.phase, 0);
    assert_eq!(first.tone.level, LEVEL_ONE);
    assert_eq!(first.velocity, VELOCITY_FULL);
    assert_eq!(first.volume, 80);
    let eleventh = block[11].unwrap();
    assert_eq!(eleventh.tone.level, LEVEL_ONE);
    assert_eq!(eleventh.tone.phase, 433075863);
    let p = eleventh.tone.phase as f64 / CYCLE as f64;
    let s = (2.0 * std::f64::consts::PI * p).sin();
    let expected = (2.0 * std::f64::consts::PI * 11.0 * 440.0 / 48000.0).sin();
    assert!((s - expected).abs() < 1e-6);
}

#[test]
fn empty_step_releases_the_note_on_the_crossing_sample() {
    let mut t = sine_track(100);
    t.sequencer_mut().set_note_at(0, 440_000, 700);
    let block = t.process_block(6000);
    // The 6000th sample completes step 0 and enters the empty step 1.
    assert_eq!(block[5998].unwrap().velocity, 700);
    assert_eq!(block[5998].unwrap().tone.level, LEVEL_ONE);
    let crossing = block[5999].unwrap();
    assert_eq!(crossing.velocity, VELOCITY_FULL);
    assert_eq!(crossing.tone.level, 0);
    assert_eq!(t.sequencer.current_step(), 1);
    assert_eq!(t.get_current_note(), None);
    assert_eq!(t.instrument.unwrap().get_envelope().get_state(), EnvelopeState::Idle);
}

#[test]
fn note_starts_on_the_crossing_sample() {
    let mut t = sine_track(100);
    t.sequencer_mut().set_note_at(1, 220_000, 250);
    let block = t.process_block(6000);
    assert_eq!(block[5998].unwrap().velocity, VELOCITY_FULL);
    assert_eq!(block[5998].unwrap().tone.level, 0);
    let crossing = block[5999].unwrap();
    assert_eq!(crossing.velocity, 250);
    assert_eq!(crossing.tone.level, LEVEL_ONE);
    assert_eq!(t.get_current_note(), Some(NoteEvent { frequency: 220_000, velocity: 250 }));
    assert_eq!(t.instrument.unwrap().frequency, 220_000);
}

#[test]
fn reset_cues_the_first_step_again() {
    let mut t = sine_track(100);
    t.sequencer_mut().set_note_at(0, 330_000, 400);
    t.process_block(100);
    t.sequencer_mut().set_note_at(0, 660_000, 900);
    t.sequencer_mut().reset();
    let v = t.get_output().unwrap();
    assert_eq!(v.velocity, 900);
    assert_eq!(t.instrument.unwrap().frequency, 660_000);
}

#[test]
fn track_volume_stops_at_zero() {
    let mut t = Track::new(30, "T".to_string(), 48000, 120, 16, 4);
    t.decrease_volume(10);
    assert_eq!(t.get_volume(), 20);
    t.decrease_volume(25);
    assert_eq!(t.get_volume(), 0);
    t.increse_volume(250);
    assert_eq!(t.get_volume(), 250);
    t.increse_volume(u32::MAX);
    assert_eq!(t.get_volume(), u32::MAX);
}

#[test]
fn track_tempo_and_rate_reach_the_sequencer() {
    let mut t = sine_track(100);
    t.set_bpm(90);
    assert_eq!(t.bpm, 90);
    assert_eq!(t.sequencer.bpm, 90);
    t.set_sample_rate(44100);
    assert_eq!(t.sample_rate, 44100);
    assert_eq!(t.sequencer.sample_rate, 44100);
    assert_eq!(t.instrument.unwrap().sample_rate, 44100);
}

#[test]
fn track_rename() {
    let mut t = Track::new(30, "Kick".to_string(), 48000, 120, 16, 4);
    assert_eq!(t.get_name(), "Kick");
    t.rename("Snare".to_string());
    assert_eq!(t.get_name(), "Snare");
}
