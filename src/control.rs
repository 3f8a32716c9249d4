//! Keys, the commands they stand for, and the window the user looks at.
use vstd::prelude::*;

verus! {

/// A key press, as far as the workstation reads it.
#[derive(Clone, Copy, Debug, PartialEq, Eq, Structural)]
pub enum Key {
    Char(char),
    Tab,
    Left,
    Right,
    Up,
    Down,
    Other,
}

/// What a key asks the workstation to do.
#[derive(Clone, Copy, Debug, PartialEq, Eq, Structural)]
pub enum Command {
    TogglePlayback,
    NextWindow,
    Quit,
    AddTrack,
    RemoveTrack,
    PreviousTrack,
    NextTrack,
    VolumeUp,
    VolumeDown,
    Nothing,
}

pub open spec fn spec_command_for(key: Key) -> Command {
    match key {
        Key::Char(' ') => Command::TogglePlayback,
        Key::Tab => Command::NextWindow,
        Key::Char('q') => Command::Quit,
        Key::Char('t') => Command::AddTrack,
        Key::Char('r') => Command::RemoveTrack,
        Key::Left => Command::PreviousTrack,
        Key::Right => Command::NextTrack,
        Key::Up => Command::VolumeUp,
        Key::Down => Command::VolumeDown,
        _ => Command::Nothing,
    }
}

/// The command bound to `key`: space plays or stops, tab switches window,
/// `q` quits, `t` adds a track, `r` removes the selected one, left and
/// right move the selection, up and down nudge its volume.
pub fn command_for(key: Key) -> (r: Command)
    ensures
        r == spec_command_for(key),
{
    match key {
        Key::Char(' ') => Command::TogglePlayback,
        Key::Tab => Command::NextWindow,
        Key::Char('q') => Command::Quit,
        Key::Char('t') => Command::AddTrack,
        Key::Char('r') => Command::RemoveTrack,
        Key::Left => Command::PreviousTrack,
        Key::Right => Command::NextTrack,
        Key::Up => Command::VolumeUp,
        Key::Down => Command::VolumeDown,
        _ => Command::Nothing,
    }
}

/// The window shown in the body of the screen.
#[derive(Clone, Copy, Debug, PartialEq, Eq, Structural)]
pub enum AppWindow {
    Mixer,
    Sequencer,
}

impl AppWindow {
    pub open spec fn spec_next(self) -> AppWindow {
        match self {
            AppWindow::Mixer => AppWindow::Sequencer,
            AppWindow::Sequencer => AppWindow::Mixer,
        }
    }

    /// The other window: the two take turns.
    pub fn next_window(self) -> (r: AppWindow)
        ensures
            r == self.spec_next(),
            r != self,
    {
        match self {
            AppWindow::Mixer => AppWindow::Sequencer,
            AppWindow::Sequencer => AppWindow::Mixer,
        }
    }

    pub fn current_window_title(self) -> (r: &'static str)
        ensures
            self == AppWindow::Mixer ==> r@ == "Mixer"@,
            self == AppWindow::Sequencer ==> r@ == "Sequencer"@,
    {
        match self {
            AppWindow::Mixer => "Mixer",
            AppWindow::Sequencer => "Sequencer",
        }
    }
}

/// Whether the workstation keeps running.
#[derive(Clone, Copy, Debug, PartialEq, Eq, Structural)]
pub enum AppState {
    Running,
    Exiting,
}

/// The user-interface state that key presses move: running or quitting,
/// and which window is shown.
#[derive(Clone, Copy, Debug, PartialEq, Eq, Structural)]
pub struct Session {
    pub state: AppState,
    pub window: AppWindow,
}

impl Session {
    /// A running session showing the mixer.
    pub fn new() -> (r: Session)
        ensures
            r == (Session { state: AppState::Running, window: AppWindow::Mixer }),
    {
        Session { state: AppState::Running, window: AppWindow::Mixer }
    }

    /// Applies the session's part of a key press and returns the key's
    /// command, so the host can play or stop the transport and pass mixer
    /// keys on: `q` quits, tab shows the other window.
    pub fn handle_keys(&mut self, key: Key) -> (r: Command)
        ensures
            r == spec_command_for(key),
            r == Command::Quit ==> *final(self) == (Session {
                state: AppState::Exiting,
                ..*old(self)
            }),
            r == Command::NextWindow ==> *final(self) == (Session {
                window: old(self).window.spec_next(),
                ..*old(self)
            }),
            r != Command::Quit && r != Command::NextWindow ==> *final(self) == *old(self),
    {
        let command = command_for(key);
        match command {
            Command::Quit => self.state = AppState::Exiting,
            Command::NextWindow => self.window = self.window.next_window(),
            _ => {},
        }
        command
    }
}

} // verus!
