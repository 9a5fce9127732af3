//! The client's audio manager: whether it is in a room, muted or in error,
//! and which signal goes to the task that streams the audio.

use vstd::prelude::*;

verus! {

/// A signal from the user interface to the streaming task.
#[allow(non_camel_case_types)]
#[derive(Clone, Copy, Debug, PartialEq, Eq, Structural)]
pub enum AudioManagerSignal {
    EXIT,
    MUTE,
    UNMUTE,
}

/// The session that the client has in a room.
#[derive(Clone, Copy, Debug, PartialEq, Eq, Structural)]
pub struct RoomActiveAudioSession {
    pub session_id: u32,
    pub session_key: u32,
    pub user_id: u32,
    pub mixing: u8,
    pub room_id: u32,
}

/// What the streaming task does on a signal.
#[derive(Clone, Copy, Debug, PartialEq, Eq, Structural)]
pub enum StreamAction {
    /// Close the connection with this application code and the reason
    /// `done`, and stop: nothing is sent any more.
    Close { code: u32 },
    /// Start or stop capturing.
    SetPlaying(bool),
}

/// Application code that the client closes its connection with.
pub const DONE_CODE: u32 = 0;

/// The reason that the client closes its connection with.
pub open spec fn done_reason() -> Seq<char> {
    "done"@
}

/// Whether the client is muted after the streaming task has taken a signal.
pub open spec fn muted_after(muted: bool, signal: AudioManagerSignal) -> bool {
    match signal {
        AudioManagerSignal::EXIT => muted,
        AudioManagerSignal::MUTE => true,
        AudioManagerSignal::UNMUTE => false,
    }
}

/// What the audio manager knows.
#[derive(Debug)]
pub struct AudioManagerState {
    pub active_session: Option<RoomActiveAudioSession>,
    /// What the streaming task failed with, if it did.
    pub stream_error: Option<String>,
    pub muted: bool,
    /// Whether a streaming task is there to take signals.
    pub signal_sender: bool,
}

/// The audio manager.
#[derive(Debug)]
pub struct AudioManager {
    state: AudioManagerState,
}

/// The name of a signal.
pub open spec fn signal_name(signal: AudioManagerSignal) -> Seq<char> {
    match signal {
        AudioManagerSignal::EXIT => "EXIT"@,
        AudioManagerSignal::MUTE => "MUTE"@,
        AudioManagerSignal::UNMUTE => "UNMUTE"@,
    }
}

/// The signal that tells the streaming task of a change of muting.
pub open spec fn mute_signal(muted: bool) -> AudioManagerSignal {
    if muted {
        AudioManagerSignal::MUTE
    } else {
        AudioManagerSignal::UNMUTE
    }
}

/// What the streaming task does on a signal.
pub open spec fn action_on(signal: AudioManagerSignal) -> StreamAction {
    match signal {
        AudioManagerSignal::EXIT => StreamAction::Close { code: 0 },
        AudioManagerSignal::MUTE => StreamAction::SetPlaying(false),
        AudioManagerSignal::UNMUTE => StreamAction::SetPlaying(true),
    }
}

impl StreamAction {
    /// Whether the streaming task stops after this action, and sends
    /// nothing more.
    pub fn ends_stream(&self) -> (ends: bool)
        ensures
            ends == (*self is Close),
    {
        match self {
            StreamAction::Close { .. } => true,
            StreamAction::SetPlaying(_) => false,
        }
    }

    /// The reason that goes with the close code: `done`.
    pub fn close_reason() -> (reason: String)
        ensures
            reason@ == done_reason(),
    {
        "done".to_owned()
    }
}

impl AudioManagerSignal {
    /// The signal as text: its name.
    pub fn to_string(&self) -> (s: String)
        ensures
            s@ == signal_name(*self),
    {
        match self {
            AudioManagerSignal::EXIT => "EXIT".to_owned(),
            AudioManagerSignal::MUTE => "MUTE".to_owned(),
            AudioManagerSignal::UNMUTE => "UNMUTE".to_owned(),
        }
    }

    /// What the streaming task does on the signal.
    pub fn action(&self) -> (a: StreamAction)
        ensures
            a == action_on(*self),
    {
        match self {
            AudioManagerSignal::EXIT => StreamAction::Close { code: DONE_CODE },
            AudioManagerSignal::MUTE => StreamAction::SetPlaying(false),
            AudioManagerSignal::UNMUTE => StreamAction::SetPlaying(true),
        }
    }
}

impl Default for RoomActiveAudioSession {
    fn default() -> (s: RoomActiveAudioSession)
        ensures
            s == (RoomActiveAudioSession {
                session_id: 0,
                session_key: 0,
                user_id: 0,
                mixing: 0,
                room_id: 0,
            }),
    {
        RoomActiveAudioSession { session_id: 0, session_key: 0, user_id: 0, mixing: 0, room_id: 0 }
    }
}

impl Default for AudioManagerState {
    fn default() -> (s: AudioManagerState)
        ensures
            s.active_session is None,
            s.stream_error is None,
            !s.muted,
            !s.signal_sender,
    {
        AudioManagerState {
            active_session: None,
            stream_error: None,
            muted: false,
            signal_sender: false,
        }
    }
}

impl AudioManager {
    /// What the manager knows.
    pub closed spec fn state(&self) -> AudioManagerState {
        self.state
    }

    /// A manager that is in no room, not muted and not in error.
    pub fn new() -> (m: AudioManager)
        ensures
            m.state().active_session is None,
            m.state().stream_error is None,
            !m.state().muted,
            !m.state().signal_sender,
    {
        AudioManager { state: AudioManagerState::default() }
    }

    /// Asks to join a room; says whether a streaming task is to be started,
    /// which it is unless the client is in a room already. An earlier error
    /// is forgotten. Which room is asked for makes no difference yet.
    pub fn join_room(&mut self, _room_id: u32) -> (start: bool)
        ensures
            start == (old(self).state().active_session is None),
            !start ==> final(self).state() == old(self).state(),
            start ==> final(self).state() == (AudioManagerState {
                stream_error: None,
                signal_sender: true,
                ..old(self).state()
            }),
    {
        if self.state.active_session.is_some() {
            return false;
        }
        self.state.stream_error = None;
        self.state.signal_sender = true;
        true
    }

    /// Whether the streaming task starts capturing at once: it does unless
    /// the client is muted.
    pub fn play_on_start(&self) -> (play: bool)
        ensures
            play == !self.state().muted,
    {
        !self.state.muted
    }

    /// Takes note that the server has let the client in: only now is the
    /// client in a session.
    pub fn on_authenticated(&mut self)
        ensures
            final(self).state() == (AudioManagerState {
                active_session: Some(
                    RoomActiveAudioSession {
                        session_id: 0,
                        session_key: 0,
                        user_id: 0,
                        mixing: 0,
                        room_id: 0,
                    },
                ),
                ..old(self).state()
            }),
    {
        self.state.active_session = Some(RoomActiveAudioSession::default());
    }

    /// Takes note that the streaming task has failed: the error is kept,
    /// and the client is in no room and has no task any more.
    pub fn on_stream_failed(&mut self, error: String)
        ensures
            final(self).state() == (AudioManagerState {
                active_session: None,
                stream_error: Some(error),
                signal_sender: false,
                ..old(self).state()
            }),
    {
        self.state.stream_error = Some(error);
        self.state.active_session = None;
        self.state.signal_sender = false;
    }

    /// Leaves the room; gives the signal to send to the streaming task, if
    /// there is one to take it.
    pub fn exit_room(&mut self) -> (signal: Option<AudioManagerSignal>)
        ensures
            signal == (if old(self).state().signal_sender {
                Some(AudioManagerSignal::EXIT)
            } else {
                None
            }),
            final(self).state() == (AudioManagerState {
                active_session: None,
                stream_error: None,
                signal_sender: false,
                ..old(self).state()
            }),
    {
        let signal = if self.state.signal_sender {
            Some(AudioManagerSignal::EXIT)
        } else {
            None
        };
        self.state.active_session = None;
        self.state.signal_sender = false;
        self.state.stream_error = None;
        signal
    }

    /// Mutes or unmutes; gives the signal to send to the streaming task, if
    /// there is one to take it.
    pub fn set_muted(&mut self, muted: bool) -> (signal: Option<AudioManagerSignal>)
        ensures
            signal == (if old(self).state().signal_sender {
                Some(mute_signal(muted))
            } else {
                None
            }),
            final(self).state() == (AudioManagerState { muted, ..old(self).state() }),
    {
        self.state.muted = muted;
        if self.state.signal_sender {
            Some(
                if muted {
                    AudioManagerSignal::MUTE
                } else {
                    AudioManagerSignal::UNMUTE
                },
            )
        } else {
            None
        }
    }

    /// Takes in a signal on behalf of the streaming task: says what the
    /// task is to do, and takes note of the muting that follows from it.
    /// On EXIT the connection is closed with code 0 and the reason `done`.
    pub fn on_signal(&mut self, signal: AudioManagerSignal) -> (action: StreamAction)
        ensures
            action == action_on(signal),
            final(self).state() == (AudioManagerState {
                muted: muted_after(old(self).state().muted, signal),
                ..old(self).state()
            }),
    {
        match signal {
            AudioManagerSignal::EXIT => {},
            AudioManagerSignal::MUTE => {
                self.state.muted = true;
            },
            AudioManagerSignal::UNMUTE => {
                self.state.muted = false;
            },
        }
        signal.action()
    }

    /// Whether the client is muted.
    pub fn get_muted(&self) -> (m: bool)
        ensures
            m == self.state().muted,
    {
        self.state.muted
    }

    /// Whether the client is in a session.
    pub fn get_active(&self) -> (a: bool)
        ensures
            a == self.state().active_session is Some,
    {
        self.state.active_session.is_some()
    }

    /// Whether the streaming task has failed.
    pub fn is_errored(&self) -> (e: bool)
        ensures
            e == self.state().stream_error is Some,
    {
        self.state.stream_error.is_some()
    }

    /// What the streaming task has failed with.
    pub fn get_error(&self) -> (e: Option<String>)
        ensures
            e == self.state().stream_error,
    {
        match &self.state.stream_error {
            Some(s) => Some(s.clone()),
            None => None,
        }
    }
}

} // verus!
