use terminal_daw::control::Key;
use terminal_daw::generators::LEVEL_ONE;
use terminal_daw::mixer::{Mixer, MASTER_MAX};

fn mixer_with(n: usize) -> Mixer {
    let mut m = Mixer::new(48000, 120);
    for i in 0..n {
        m.add_track(30, format!("T{}", i), 16, 4, 48000);
    }
    m
}

fn order_matches(m: &Mixer) -> bool {
    m.track_order.len() == m.tracks.len()
        && m.track_order.iter().all(|id| m.tracks.contains_key(id))
}

#[test]
fn add_remove_ordering() {
    let mut m = mixer_with(3);
    assert_eq!(m.track_order, vec![0, 1, 2]);
    assert_eq!(m.selected_index, 2);
    m.previous_track();
    assert_eq!(m.selected_index, 1);
    m.remove_selected_track();
    assert_eq!(m.track_order, vec![0, 2]);
    assert_eq!(m.selected_index, 1);
    assert_eq!(m.next_id, 3);
    assert!(order_matches(&m));
}

#[test]
fn removing_last_moves_selection_back() {
    let mut m = mixer_with(2);
    m.remove_selected_track();
    assert_eq!(m.track_order, vec![0]);
    assert_eq!(m.selected_index, 0);
    m.remove_selected_track();
    assert!(m.track_order.is_empty());
    assert_eq!(m.selected_index, 0);
    m.remove_selected_track();
    m.next_track();
    m.previous_track();
    assert_eq!(m.selected_index, 0);
    assert!(m.selected_track().is_none());
    assert_eq!(m.next_id, 2);
}

#[test]
fn order_and_map_agree_after_edits() {
    let mut m = mixer_with(4);
    m.remove_selected_track();
    m.add_track(10, "x".to_string(), 8, 2, 44100);
    m.previous_track();
    m.previous_track();
    m.remove_selected_track();
    assert!(order_matches(&m));
    assert!(m.selected_index < m.track_order.len());
    assert_eq!(m.track_order, vec![0, 2, 4]);
}

#[test]
fn selection_wraps_both_ways() {
    let mut m = mixer_with(3);
    m.next_track();
    assert_eq!(m.selected_index, 0);
    m.previous_track();
    assert_eq!(m.selected_index, 2);
    assert_eq!(m.selected_track().unwrap().get_name(), "T2");
}

#[test]
fn new_track_gets_default_instrument() {
    let m = mixer_with(1);
    let t = m.get_track_id(0).unwrap();
    let w = t.instrument.unwrap();
    assert_eq!(w.frequency, 144_000);
    assert_eq!(w.envelope.attack, 480);
    assert_eq!(w.envelope.release, 1440);
    assert_eq!(w.envelope.sustain, LEVEL_ONE);
    assert_eq!(t.bpm, 120);
    assert!(m.get_track_id(1).is_none());
}

#[test]
fn master_volume_is_clamped() {
    let mut m = mixer_with(0);
    assert_eq!(m.master_volume, 100);
    m.set_master_volumne(200);
    assert_eq!(m.master_volume, 200);
    m.set_master_volumne(350);
    assert_eq!(m.master_volume, MASTER_MAX);
    m.set_master_volumne(0);
    assert_eq!(m.master_volume, 0);
}

#[test]
fn tempo_reaches_every_sequencer() {
    let mut m = mixer_with(3);
    m.set_bpm(150);
    assert_eq!(m.bpm(), 150);
    for id in &m.track_order {
        let t = &m.tracks[id];
        assert_eq!(t.bpm, 150);
        assert_eq!(t.sequencer.bpm, 150);
    }
    m.set_sample_rate(44100);
    for id in &m.track_order {
        let t = &m.tracks[id];
        assert_eq!(t.sample_rate, 44100);
        assert_eq!(t.sequencer.sample_rate, 44100);
    }
}

#[test]
fn prepare_only_changes_new_tracks() {
    let mut m = mixer_with(1);
    m.prepare(96000);
    assert_eq!(m.sample_rate, 96000);
    assert_eq!(m.tracks[&0].sample_rate, 48000);
}

#[test]
fn selected_volume_nudges() {
    let mut m = mixer_with(2);
    m.increment_selected_track_volume();
    assert_eq!(m.tracks[&1].get_volume(), 40);
    assert_eq!(m.tracks[&0].get_volume(), 30);
    for _ in 0..5 {
        m.decrease_selected_track_volume();
    }
    assert_eq!(m.tracks[&1].get_volume(), 0);
}

#[test]
fn keys_drive_the_mixer() {
    let mut m = Mixer::new(48000, 120);
    m.handle_keyboard_input(Key::Char('t'));
    m.handle_keyboard_input(Key::Char('t'));
    assert_eq!(m.track_order, vec![0, 1]);
    assert_eq!(m.tracks[&1].get_name(), "Track 1");
    assert_eq!(m.tracks[&1].get_volume(), 30);
    assert_eq!(m.tracks[&1].sequencer.pattern_len(), 16);
    m.handle_keyboard_input(Key::Up);
    assert_eq!(m.tracks[&1].get_volume(), 40);
    m.handle_keyboard_input(Key::Left);
    assert_eq!(m.selected_index, 0);
    m.handle_keyboard_input(Key::Down);
    assert_eq!(m.tracks[&0].get_volume(), 20);
    m.handle_keyboard_input(Key::Right);
    assert_eq!(m.selected_index, 1);
    m.handle_keyboard_input(Key::Char('x'));
    m.handle_keyboard_input(Key::Tab);
    assert_eq!(m.track_order, vec![0, 1]);
    m.handle_keyboard_input(Key::Char('r'));
    assert_eq!(m.track_order, vec![0]);
    assert_eq!(m.tracks[&0].get_name(), "Track 0");
}

#[test]
fn block_has_one_voice_per_sample_per_track() {
    let mut m = mixer_with(2);
    for n in [0usize, 1, 64, 500] {
        let blocks = m.process_block(n);
        assert_eq!(blocks.len(), 2);
        assert!(blocks.iter().all(|b| b.len() == n));
    }
    let mut empty = Mixer::new(48000, 120);
    assert!(empty.process_block(128).is_empty());
}

#[test]
fn block_follows_render_order() {
    let mut m = mixer_with(2);
    m.tracks.get_mut(&1).unwrap().sequencer.set_note_at(0, 880_000, 1000);
    let blocks = m.process_block(4);
    assert!(blocks[0].iter().all(|v| v.unwrap().tone.level == 0));
    assert!(blocks[1][3].unwrap().tone.level > 0);
    assert_eq!(m.tracks[&1].instrument.unwrap().frequency, 880_000);
}

#[test]
fn key_added_tracks_are_named_by_id() {
    let mut m = Mixer::new(48000, 120);
    for _ in 0..12 {
        m.handle_keyboard_input(Key::Char('t'));
    }
    assert_eq!(m.tracks[&0].get_name(), "Track 0");
    assert_eq!(m.tracks[&9].get_name(), "Track 9");
    assert_eq!(m.tracks[&10].get_name(), "Track 10");
    assert_eq!(m.tracks[&11].get_name(), "Track 11");
}

#[test]
fn added_track_has_empty_pattern() {
    let m = mixer_with(1);
    let s = &m.tracks[&0].sequencer;
    assert_eq!(s.pattern_len(), 16);
    assert!((0..16).all(|i| s.get_event(i).is_none()));
}
