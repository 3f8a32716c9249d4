use terminal_daw::control::{command_for, AppWindow, Command, Key};
use terminal_daw::engine::{fan_out, plan_callback, AudioEngineState, CallbackPlan};

#[test]
fn stopped_transport_writes_silence() {
    assert_eq!(plan_callback(AudioEngineState::Stopped, 256, 2), CallbackPlan::Silence);
    assert_eq!(
        plan_callback(AudioEngineState::Playing, 256, 2),
        CallbackPlan::Render { frames: 128 }
    );
    assert_eq!(plan_callback(AudioEngineState::Playing, 256, 0), CallbackPlan::Silence);
}

#[test]
fn mono_block_fans_out_to_every_channel() {
    let mix = vec![0.25f32, -0.5, 1.0];
    assert_eq!(fan_out(&mix, 2), vec![0.25, 0.25, -0.5, -0.5, 1.0, 1.0]);
    assert_eq!(fan_out(&mix, 1), mix);
    let zeros = vec![0.0f32; 128];
    let out = fan_out(&zeros, 2);
    assert_eq!(out.len(), 256);
    assert!(out.iter().all(|s| *s == 0.0));
    assert!(fan_out::<f32>(&Vec::new(), 6).is_empty());
}

#[test]
fn transport_toggles() {
    let s = AudioEngineState::Stopped;
    assert_eq!(s.handle_stop_start(), AudioEngineState::Playing);
    assert_eq!(s.handle_stop_start().handle_stop_start(), AudioEngineState::Stopped);
}

#[test]
fn key_table() {
    assert_eq!(command_for(Key::Char(' ')), Command::TogglePlayback);
    assert_eq!(command_for(Key::Tab), Command::NextWindow);
    assert_eq!(command_for(Key::Char('q')), Command::Quit);
    assert_eq!(command_for(Key::Char('t')), Command::AddTrack);
    assert_eq!(command_for(Key::Char('r')), Command::RemoveTrack);
    assert_eq!(command_for(Key::Left), Command::PreviousTrack);
    assert_eq!(command_for(Key::Right), Command::NextTrack);
    assert_eq!(command_for(Key::Up), Command::VolumeUp);
    assert_eq!(command_for(Key::Down), Command::VolumeDown);
    assert_eq!(command_for(Key::Char('z')), Command::Nothing);
    assert_eq!(command_for(Key::Other), Command::Nothing);
}

#[test]
fn windows_take_turns() {
    let w = AppWindow::Mixer;
    assert_eq!(w.current_window_title(), "Mixer");
    assert_eq!(w.next_window(), AppWindow::Sequencer);
    assert_eq!(w.next_window().current_window_title(), "Sequencer");
    assert_eq!(w.next_window().next_window(), AppWindow::Mixer);
}
