//! What the client's terminal interface decides: what a key does, and what
//! the status lines say.

use vstd::prelude::*;

verus! {

/// Room that the join key takes the client to.
pub const DEFAULT_ROOM: u32 = 10;

/// A key that was pressed.
#[derive(Clone, Copy, Debug, PartialEq, Eq, Structural)]
pub enum Key {
    Char(char),
    Left,
    Right,
    Other,
}

/// What the audio manager is to do after a key.
#[derive(Clone, Copy, Debug, PartialEq, Eq, Structural)]
pub enum AudioCommand {
    JoinRoom(u32),
    ExitRoom,
    SetMuted(bool),
}

/// The state of the interface.
#[derive(Clone, Copy, Debug, PartialEq, Eq, Structural)]
pub struct App {
    pub exit: bool,
    pub counter: i32,
}

/// One less, wrapping at the smallest value.
pub open spec fn decrement(counter: i32) -> i32 {
    if counter == i32::MIN {
        i32::MAX
    } else {
        (counter - 1) as i32
    }
}

/// One more, wrapping at the largest value.
pub open spec fn increment(counter: i32) -> i32 {
    if counter == i32::MAX {
        i32::MIN
    } else {
        (counter + 1) as i32
    }
}

/// The interface after a key: `q` quits, the arrows count down and up.
pub open spec fn after_key(app: App, key: Key) -> App {
    match key {
        Key::Char(c) => if c == 'q' {
            App { exit: true, ..app }
        } else {
            app
        },
        Key::Left => App { counter: decrement(app.counter), ..app },
        Key::Right => App { counter: increment(app.counter), ..app },
        Key::Other => app,
    }
}

/// What a key asks of the audio manager: `c` joins room 10, `v` leaves,
/// `m` turns muting over.
pub open spec fn command_for(key: Key, muted: bool) -> Option<AudioCommand> {
    match key {
        Key::Char(c) => if c == 'c' {
            Some(AudioCommand::JoinRoom(10))
        } else if c == 'v' {
            Some(AudioCommand::ExitRoom)
        } else if c == 'm' {
            Some(AudioCommand::SetMuted(!muted))
        } else {
            None
        },
        _ => None,
    }
}

/// The line that says whether audio is recorded.
pub open spec fn status_line(active: bool, errored: bool) -> Seq<char> {
    if active && !errored {
        "Now recording audio..."@
    } else {
        "Audio recording stopped: "@
    }
}

/// The line that says what `m` does.
pub open spec fn mute_line(muted: bool) -> Seq<char> {
    if muted {
        "Press M to unmute"@
    } else {
        "Press M to mute self"@
    }
}

impl App {
    /// The interface as it starts.
    pub fn new() -> (app: App)
        ensures
            app == (App { exit: false, counter: 0 }),
    {
        App { exit: false, counter: 0 }
    }

    /// Takes in a key press, given whether the client is muted; returns
    /// what the audio manager is to do.
    pub fn handle_key_event(&mut self, key: Key, muted: bool) -> (command: Option<AudioCommand>)
        ensures
            *final(self) == after_key(*old(self), key),
            command == command_for(key, muted),
    {
        match key {
            Key::Char(c) => {
                if c == 'q' {
                    self.exit = true;
                    None
                } else if c == 'c' {
                    Some(AudioCommand::JoinRoom(DEFAULT_ROOM))
                } else if c == 'v' {
                    Some(AudioCommand::ExitRoom)
                } else if c == 'm' {
                    Some(AudioCommand::SetMuted(!muted))
                } else {
                    None
                }
            },
            Key::Left => {
                self.counter = if self.counter == i32::MIN {
                    i32::MAX
                } else {
                    self.counter - 1
                };
                None
            },
            Key::Right => {
                self.counter = if self.counter == i32::MAX {
                    i32::MIN
                } else {
                    self.counter + 1
                };
                None
            },
            Key::Other => None,
        }
    }

    /// The line that says whether audio is recorded.
    pub fn status(active: bool, errored: bool) -> (line: String)
        ensures
            line@ == status_line(active, errored),
    {
        if active && !errored {
            "Now recording audio...".to_owned()
        } else {
            "Audio recording stopped: ".to_owned()
        }
    }

    /// The line that says what `m` does.
    pub fn mute_hint(muted: bool) -> (line: String)
        ensures
            line@ == mute_line(muted),
    {
        if muted {
            "Press M to unmute".to_owned()
        } else {
            "Press M to mute self".to_owned()
        }
    }
}

} // verus!
