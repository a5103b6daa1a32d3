//! The participant-side session: the connection-phase state machine, the
//! local input buffer, the replica of the shared text, and the typing
//! metrics. The surrounding binary owns the terminal and the network
//! socket; it feeds this module keystrokes, link events and elapsed time
//! as plain values and carries out the commands it returns.

use vstd::prelude::*;

use crate::text::{all_space, trim, trimmed};

verus! {

/// Key byte for the lower-case letter `q`.
pub const KEY_Q: u8 = 113;

/// Key byte for the upper-case letter `Q`.
pub const KEY_Q_UPPER: u8 = 81;

/// Key byte for the lower-case letter `h`.
pub const KEY_H: u8 = 104;

/// Key byte for the upper-case letter `H`.
pub const KEY_H_UPPER: u8 = 72;

/// The connection phase the participant is in.
#[derive(Clone, Copy, PartialEq, Eq, Structural, Debug)]
pub enum AppState {
    /// The initial screen; no connection requested yet.
    Welcome,
    /// A connection attempt is in flight.
    Connecting,
    /// The link is up; keystrokes go to the input buffer.
    Connected,
    /// The link failed or dropped; an explanation may be held beside it.
    Disconnected,
}

/// A command the state machine hands to the task that owns the network
/// link.
#[derive(Debug, PartialEq)]
pub enum AppEvent {
    /// Send this contribution over the link.
    SendWord(Vec<u8>),
    /// Open a connection to the configured coordinator.
    Connect,
    /// Close the current connection.
    Disconnect,
    /// Terminate the network task.
    Quit,
}

/// A keystroke, reduced to what the state machine distinguishes.
#[derive(Clone, Copy, PartialEq, Eq, Structural, Debug)]
pub enum Key {
    /// A printable byte.
    Char(u8),
    Enter,
    Backspace,
    Esc,
    /// A function key, by number.
    F(u8),
    /// Any key the state machine ignores.
    Other,
}

/// Local, single-participant state: connection phase, input buffer,
/// replica of the shared text, and typing metrics.
#[derive(Debug)]
pub struct App {
    /// The connection phase.
    pub state: AppState,
    /// The word being typed, not yet submitted.
    pub current_input: Vec<u8>,
    /// The last snapshot of the shared text received from the coordinator.
    pub sentence: Vec<u8>,
    /// Human-readable connection status shown in the header.
    pub connection_status: String,
    /// Number of participants, as far as this client knows.
    pub users_count: usize,
    /// Typing speed in whole words per minute, recomputed on submit and
    /// on every UI tick.
    pub typing_speed: u64,
    /// Whether the metrics timer has been started (it starts when the
    /// link comes up; the clock itself lives outside the library).
    pub timer_running: bool,
    /// Cumulative characters typed, counting one separator per submitted
    /// word.
    pub chars_typed: usize,
    /// Why the session is disconnected, when it is and a reason is known.
    pub error_message: Option<String>,
    /// The coordinator endpoint this client connects to.
    pub server_url: String,
    /// Set when the user asked to leave; the UI loop exits on it.
    pub should_quit: bool,
    /// Whether the help overlay is shown.
    pub show_help: bool,
}

/// Typing speed in whole words per minute: `chars` characters at five per
/// word, over `elapsed` seconds — `(chars / 5) / (elapsed / 60)`,
/// truncated.
pub open spec fn wpm(chars: int, elapsed: int) -> int
    recommends
        elapsed > 0,
{
    (chars * 12) / elapsed
}

/// The typing-speed field after a recomputation: updated only while the
/// timer runs and time has actually passed, and capped at the field's
/// range.
pub open spec fn speed_after(pre: App, chars: int, elapsed: int) -> int {
    if pre.timer_running && elapsed > 0 {
        if wpm(chars, elapsed) > u64::MAX as int {
            u64::MAX as int
        } else {
            wpm(chars, elapsed)
        }
    } else {
        pre.typing_speed as int
    }
}

/// A fresh session pointed at `url`: welcome screen, everything empty,
/// one known user, no metrics yet.
pub open spec fn is_fresh(a: App, url: Seq<char>) -> bool {
    &&& a.state == AppState::Welcome
    &&& a.current_input@ == Seq::<u8>::empty()
    &&& a.sentence@ == Seq::<u8>::empty()
    &&& a.connection_status@ == "Not connected"@
    &&& a.users_count == 1
    &&& a.typing_speed == 0
    &&& a.timer_running == false
    &&& a.chars_typed == 0
    &&& a.error_message is None
    &&& a.server_url@ == url
    &&& a.should_quit == false
    &&& a.show_help == false
}

impl App {
    /// A fresh session that will connect to `server_url`.
    pub fn new(server_url: String) -> (a: App)
        ensures
            is_fresh(a, server_url@),
    {
        App {
            state: AppState::Welcome,
            current_input: Vec::new(),
            sentence: Vec::new(),
            connection_status: "Not connected".to_owned(),
            users_count: 1,
            typing_speed: 0,
            timer_running: false,
            chars_typed: 0,
            error_message: None,
            server_url,
            should_quit: false,
            show_help: false,
        }
    }

    /// Records that a connection attempt has begun: any stale error is
    /// cleared, everything else is kept.
    pub fn connect(&mut self)
        ensures
            *final(self) == (App {
                state: AppState::Connecting,
                connection_status: final(self).connection_status,
                error_message: None,
                ..*old(self)
            }),
            final(self).connection_status@ == "Connecting..."@,
    {
        self.state = AppState::Connecting;
        self.connection_status = "Connecting...".to_owned();
        self.error_message = None;
    }

    /// Records that the link is up and starts the metrics timer.
    pub fn set_connected(&mut self)
        ensures
            *final(self) == (App {
                state: AppState::Connected,
                connection_status: final(self).connection_status,
                timer_running: true,
                ..*old(self)
            }),
            final(self).connection_status@ == "Connected"@,
    {
        self.state = AppState::Connected;
        self.connection_status = "Connected".to_owned();
        self.timer_running = true;
    }

    /// Records that the link is down. A reason, when given, replaces the
    /// held error message; when none is given the old one is kept.
    pub fn set_disconnected(&mut self, error: Option<String>)
        ensures
            *final(self) == (App {
                state: AppState::Disconnected,
                connection_status: final(self).connection_status,
                error_message: final(self).error_message,
                ..*old(self)
            }),
            final(self).connection_status@ == "Disconnected"@,
            final(self).error_message == (match error {
                Some(_) => error,
                None => old(self).error_message,
            }),
    {
        self.state = AppState::Disconnected;
        self.connection_status = "Disconnected".to_owned();
        if let Some(err) = error {
            self.error_message = Some(err);
        }
    }

    /// Submits the input buffer. A buffer that is empty or whitespace-only
    /// yields no contribution and changes nothing. Otherwise the trimmed
    /// word is returned, the buffer is cleared, the character count grows
    /// by the word's length plus one for the implicit separator (capped at
    /// the counter's range), and the typing speed is recomputed from
    /// `elapsed_secs` seconds of typing.
    pub fn send_word(&mut self, elapsed_secs: u64) -> (word: Option<Vec<u8>>)
        ensures
            all_space(old(self).current_input@) ==> {
                &&& word is None
                &&& *final(self) == *old(self)
            },
            !all_space(old(self).current_input@) ==> {
                &&& (word matches Some(w) && w@ == trimmed(old(self).current_input@))
                &&& *final(self) == (App {
                    current_input: final(self).current_input,
                    chars_typed: final(self).chars_typed,
                    typing_speed: final(self).typing_speed,
                    ..*old(self)
                })
                &&& final(self).current_input@ == Seq::<u8>::empty()
                &&& final(self).chars_typed == saturate_usize(
                    old(self).chars_typed as int + trimmed(old(self).current_input@).len() + 1,
                )
                &&& final(self).typing_speed as int == speed_after(
                    *old(self),
                    final(self).chars_typed as int,
                    elapsed_secs as int,
                )
            },
    {
        let word = trim(&self.current_input);
        if word.len() > 0 {
            self.current_input = Vec::new();
            self.chars_typed = add_chars(self.chars_typed, word.len());
            self.update_typing_speed(elapsed_secs);
            proof {
                assert(final(self).current_input@ =~= Seq::<u8>::empty());
            }
            Some(word)
        } else {
            None
        }
    }

    /// Recomputes the typing speed from the character count and
    /// `elapsed_secs` seconds of typing; before the timer runs, or when
    /// no time has passed, the old value is kept.
    pub fn update_typing_speed(&mut self, elapsed_secs: u64)
        ensures
            *final(self) == (App { typing_speed: final(self).typing_speed, ..*old(self) }),
            final(self).typing_speed as int == speed_after(
                *old(self),
                old(self).chars_typed as int,
                elapsed_secs as int,
            ),
    {
        if self.timer_running && elapsed_secs > 0 {
            let scaled: u128 = (self.chars_typed as u128) * 12 / (elapsed_secs as u128);
            self.typing_speed = if scaled > u64::MAX as u128 {
                u64::MAX
            } else {
                scaled as u64
            };
        }
    }

    /// Replaces the local replica of the shared text with a newly arrived
    /// snapshot: last received wins, no client-side merge.
    pub fn update_sentence(&mut self, new_sentence: Vec<u8>)
        ensures
            *final(self) == (App { sentence: final(self).sentence, ..*old(self) }),
            final(self).sentence@ == new_sentence@,
    {
        self.sentence = new_sentence;
    }

    /// Shows or hides the help overlay.
    pub fn toggle_help(&mut self)
        ensures
            *final(self) == (App { show_help: !old(self).show_help, ..*old(self) }),
    {
        self.show_help = !self.show_help;
    }
}

impl Default for App {
    /// A fresh session pointed at the loopback coordinator on the
    /// well-known port.
    fn default() -> (a: App)
        ensures
            is_fresh(a, "ws://127.0.0.1:9001"@),
    {
        App::new("ws://127.0.0.1:9001".to_owned())
    }
}

/// What `handle_key` does for each phase and key, stated over the state
/// before (`pre`) and after (`post`) and the command it emits. This is
/// the participant-facing state machine: connect on Enter from the
/// welcome or disconnected screen, type and submit while connected,
/// retreat to the welcome screen on Esc, quit on `q`.
pub open spec fn handle_key_post(
    pre: App,
    key: Key,
    elapsed: int,
    post: App,
    emit: Option<AppEvent>,
) -> bool {
    match pre.state {
        AppState::Welcome => match key {
            Key::Enter => {
                &&& post == (App {
                    state: AppState::Connecting,
                    connection_status: post.connection_status,
                    error_message: None,
                    ..pre
                })
                &&& post.connection_status@ == "Connecting..."@
                &&& (emit matches Some(e) && e == AppEvent::Connect)
            },
            Key::Char(c) => if c == KEY_Q || c == KEY_Q_UPPER {
                post == (App { should_quit: true, ..pre }) && emit is None
            } else if c == KEY_H || c == KEY_H_UPPER {
                post == (App { show_help: !pre.show_help, ..pre }) && emit is None
            } else {
                post == pre && emit is None
            },
            _ => post == pre && emit is None,
        },
        AppState::Connected => match key {
            Key::Char(c) => {
                &&& post == (App { current_input: post.current_input, ..pre })
                &&& post.current_input@ == pre.current_input@.push(c)
                &&& emit is None
            },
            Key::Backspace => {
                &&& post == (App { current_input: post.current_input, ..pre })
                &&& post.current_input@ == (if pre.current_input@.len() == 0 {
                    pre.current_input@
                } else {
                    pre.current_input@.drop_last()
                })
                &&& emit is None
            },
            Key::Enter => if all_space(pre.current_input@) {
                post == pre && emit is None
            } else {
                &&& (emit matches Some(e) && (e matches AppEvent::SendWord(w) && w@ == trimmed(
                    pre.current_input@,
                )))
                &&& post == (App {
                    current_input: post.current_input,
                    chars_typed: post.chars_typed,
                    typing_speed: post.typing_speed,
                    ..pre
                })
                &&& post.current_input@ == Seq::<u8>::empty()
                &&& post.chars_typed == saturate_usize(
                    pre.chars_typed as int + trimmed(pre.current_input@).len() + 1,
                )
                &&& post.typing_speed as int == speed_after(pre, post.chars_typed as int, elapsed)
            },
            Key::Esc => {
                &&& post == (App { state: AppState::Welcome, current_input: post.current_input, ..pre })
                &&& post.current_input@ == Seq::<u8>::empty()
                &&& (emit matches Some(e) && e == AppEvent::Disconnect)
            },
            Key::F(n) => if n == 1 {
                post == (App { show_help: !pre.show_help, ..pre }) && emit is None
            } else {
                post == pre && emit is None
            },
            _ => post == pre && emit is None,
        },
        AppState::Connecting => match key {
            Key::Esc => post == (App { state: AppState::Welcome, ..pre }) && emit is None,
            Key::Char(c) => if c == KEY_Q || c == KEY_Q_UPPER {
                post == (App { should_quit: true, ..pre }) && emit is None
            } else {
                post == pre && emit is None
            },
            _ => post == pre && emit is None,
        },
        AppState::Disconnected => match key {
            Key::Enter => {
                &&& post == (App {
                    state: AppState::Connecting,
                    connection_status: post.connection_status,
                    error_message: None,
                    ..pre
                })
                &&& post.connection_status@ == "Connecting..."@
                &&& (emit matches Some(e) && e == AppEvent::Connect)
            },
            Key::Esc => post == (App { state: AppState::Welcome, ..pre }) && emit is None,
            Key::Char(c) => if c == KEY_Q || c == KEY_Q_UPPER {
                post == (App { should_quit: true, ..pre }) && emit is None
            } else {
                post == pre && emit is None
            },
            _ => post == pre && emit is None,
        },
    }
}

impl App {
    /// Applies one keystroke to the session, possibly emitting a command
    /// for the network task. `elapsed_secs` is how long the metrics timer
    /// has been running, used when a submit recomputes the typing speed.
    pub fn handle_key(&mut self, key: Key, elapsed_secs: u64) -> (emit: Option<AppEvent>)
        ensures
            handle_key_post(*old(self), key, elapsed_secs as int, *final(self), emit),
    {
        match self.state {
            AppState::Welcome => match key {
                Key::Enter => {
                    self.connect();
                    Some(AppEvent::Connect)
                },
                Key::Char(c) => {
                    if c == KEY_Q || c == KEY_Q_UPPER {
                        self.should_quit = true;
                    } else if c == KEY_H || c == KEY_H_UPPER {
                        self.toggle_help();
                    }
                    None
                },
                _ => None,
            },
            AppState::Connected => match key {
                Key::Char(c) => {
                    self.current_input.push(c);
                    None
                },
                Key::Backspace => {
                    if self.current_input.len() > 0 {
                        self.current_input.pop();
                    }
                    None
                },
                Key::Enter => match self.send_word(elapsed_secs) {
                    Some(word) => Some(AppEvent::SendWord(word)),
                    None => None,
                },
                Key::Esc => {
                    self.state = AppState::Welcome;
                    self.current_input = Vec::new();
                    proof {
                        assert(final(self).current_input@ =~= Seq::<u8>::empty());
                    }
                    Some(AppEvent::Disconnect)
                },
                Key::F(n) => {
                    if n == 1 {
                        self.toggle_help();
                    }
                    None
                },
                _ => None,
            },
            AppState::Connecting => match key {
                Key::Esc => {
                    self.state = AppState::Welcome;
                    None
                },
                Key::Char(c) => {
                    if c == KEY_Q || c == KEY_Q_UPPER {
                        self.should_quit = true;
                    }
                    None
                },
                _ => None,
            },
            AppState::Disconnected => match key {
                Key::Enter => {
                    self.connect();
                    Some(AppEvent::Connect)
                },
                Key::Esc => {
                    self.state = AppState::Welcome;
                    None
                },
                Key::Char(c) => {
                    if c == KEY_Q || c == KEY_Q_UPPER {
                        self.should_quit = true;
                    }
                    None
                },
                _ => None,
            },
        }
    }
}

/// What the task that owns the network link observes: the outcome of a
/// connection attempt, traffic on the link, and commands relayed from the
/// UI task.
#[derive(Debug)]
pub enum WireEvent {
    /// The connection attempt succeeded.
    ConnectOk,
    /// The connection attempt failed, with the reason to show.
    ConnectFailed(String),
    /// A snapshot of the shared text arrived on the link.
    Inbound(Vec<u8>),
    /// The link closed or failed while reading.
    InboundClosed,
    /// The UI asks for this contribution to be sent.
    UserSend(Vec<u8>),
    /// Writing to the link failed.
    SendFailed,
    /// The UI asks for the connection to be closed.
    UserDisconnect,
    /// The UI asks for the network task to terminate.
    UserQuit,
    /// The UI asks to connect while a link is already up; ignored.
    UserConnect,
    /// The UI side of the command queue is gone.
    ChannelClosed,
}

/// What the network task must do next, as decided by `wire_step`.
#[derive(Debug)]
pub enum WireDirective {
    /// Keep waiting on the link and the command queue.
    Continue,
    /// Write this contribution to the link, then keep waiting; on a write
    /// error, feed back `WireEvent::SendFailed`.
    Forward(Vec<u8>),
    /// Drop the link and fall back to waiting for a connect command.
    EndConnection,
    /// Terminate the network task.
    EndTask,
}

/// The disconnected phase with `reason` held as the error message.
pub open spec fn disconnected_rel(pre: App, post: App, reason: Seq<char>) -> bool {
    &&& post == (App {
        state: AppState::Disconnected,
        connection_status: post.connection_status,
        error_message: post.error_message,
        ..pre
    })
    &&& post.connection_status@ == "Disconnected"@
    &&& (post.error_message matches Some(e) && e@ == reason)
}

/// What `wire_step` does for each event: every decision the network task
/// takes between two of its suspension points.
pub open spec fn wire_step_post(pre: App, event: WireEvent, post: App, d: WireDirective) -> bool {
    match event {
        WireEvent::ConnectOk => {
            &&& post == (App {
                state: AppState::Connected,
                connection_status: post.connection_status,
                timer_running: true,
                ..pre
            })
            &&& post.connection_status@ == "Connected"@
            &&& d is Continue
        },
        WireEvent::ConnectFailed(m) => disconnected_rel(pre, post, m@) && d is EndConnection,
        WireEvent::Inbound(s) => {
            &&& post == (App { sentence: post.sentence, ..pre })
            &&& post.sentence@ == s@
            &&& d is Continue
        },
        WireEvent::InboundClosed => disconnected_rel(pre, post, "Connection lost"@)
            && d is EndConnection,
        WireEvent::UserSend(w) => post == pre && (d matches WireDirective::Forward(v) && v@ == w@),
        WireEvent::SendFailed => disconnected_rel(pre, post, "Failed to send message"@)
            && d is EndConnection,
        WireEvent::UserDisconnect => post == pre && d is EndConnection,
        WireEvent::UserQuit => post == pre && d is EndTask,
        WireEvent::UserConnect => post == pre && d is Continue,
        WireEvent::ChannelClosed => post == pre && d is EndConnection,
    }
}

impl App {
    /// Takes one event observed by the network task, applies its effect
    /// on the session state, and says what the task must do next. The
    /// task itself only waits, reads, writes and tears down; every
    /// decision is taken here.
    pub fn wire_step(&mut self, event: WireEvent) -> (d: WireDirective)
        ensures
            wire_step_post(*old(self), event, *final(self), d),
    {
        match event {
            WireEvent::ConnectOk => {
                self.set_connected();
                WireDirective::Continue
            },
            WireEvent::ConnectFailed(m) => {
                self.set_disconnected(Some(m));
                WireDirective::EndConnection
            },
            WireEvent::Inbound(s) => {
                self.update_sentence(s);
                WireDirective::Continue
            },
            WireEvent::InboundClosed => {
                self.set_disconnected(Some("Connection lost".to_owned()));
                WireDirective::EndConnection
            },
            WireEvent::UserSend(w) => WireDirective::Forward(w),
            WireEvent::SendFailed => {
                self.set_disconnected(Some("Failed to send message".to_owned()));
                WireDirective::EndConnection
            },
            WireEvent::UserDisconnect => WireDirective::EndConnection,
            WireEvent::UserQuit => WireDirective::EndTask,
            WireEvent::UserConnect => WireDirective::Continue,
            WireEvent::ChannelClosed => WireDirective::EndConnection,
        }
    }
}

/// What the network task does with a UI command while no link is up:
/// attempt a connection, terminate, or ignore it.
#[derive(Clone, Copy, PartialEq, Eq, Structural, Debug)]
pub enum IdleDirective {
    /// Read the configured endpoint and attempt a connection.
    Attempt,
    /// Terminate the network task.
    EndTask,
    /// Stay idle; the command only matters while connected.
    Ignore,
}

/// Decides what the network task does with a UI command received while
/// no connection is up: only a connect request starts an attempt, only a
/// quit request ends the task.
pub fn idle_step(event: &AppEvent) -> (d: IdleDirective)
    ensures
        d == (match event {
            AppEvent::Connect => IdleDirective::Attempt,
            AppEvent::Quit => IdleDirective::EndTask,
            _ => IdleDirective::Ignore,
        }),
{
    match event {
        AppEvent::Connect => IdleDirective::Attempt,
        AppEvent::Quit => IdleDirective::EndTask,
        _ => IdleDirective::Ignore,
    }
}

/// `v` clipped to the range of `usize`.
pub open spec fn saturate_usize(v: int) -> int {
    if v > usize::MAX as int {
        usize::MAX as int
    } else {
        v
    }
}

/// Adds a submitted word's length plus one separator to the cumulative
/// character count, capping at the counter's range.
fn add_chars(total: usize, word_len: usize) -> (r: usize)
    ensures
        r == saturate_usize(total as int + word_len as int + 1),
{
    let room: usize = usize::MAX - total;
    if word_len >= room {
        usize::MAX
    } else {
        total + word_len + 1
    }
}

} // verus!
