//! The interactive session: what is asked of the remote at the start, and
//! the relay between the local terminal and the channel.
//!
//! The relay is a state machine. Whoever owns the terminal and the channel
//! waits for whichever is ready, hands what happened to `Session::step` as an
//! `Event`, and carries out the `Action` that comes back.

use crate::error::{SessionError, SessionErrorView};
use vstd::prelude::*;

verus! {

/// Seconds without traffic after which the transport gives a session up,
/// counted from the last event.
pub const INACTIVITY_TIMEOUT_SECS: u64 = 5;

/// The terminal type asked for where the environment names none.
pub open spec fn default_term() -> Seq<char> {
    "xterm"@
}

/// The client side of the handshake.
#[derive(Debug, Clone, Copy, PartialEq, Eq, Default)]
pub struct Client {}

impl Client {
    /// Whether to go on with a server that presents this public key: with
    /// every server, whatever its key.
    pub fn check_server_key(&self, server_public_key: &[u8]) -> (r: Result<bool, SessionError>)
        ensures
            r == Ok::<bool, SessionError>(true),
    {
        Ok(true)
    }
}

/// The pseudo-terminal asked of the remote.
#[derive(Debug, Clone, PartialEq, Eq)]
pub struct PtyRequest {
    pub term: String,
    pub width: u32,
    pub height: u32,
}

/// What the remote is asked to run on the channel.
#[derive(Debug, Clone, PartialEq, Eq)]
pub enum Launch {
    /// This command.
    Exec(String),
    /// The login shell.
    Shell,
}

/// A `Launch` as mathematical values.
pub enum LaunchView {
    Exec(Seq<char>),
    Shell,
}

impl View for Launch {
    type V = LaunchView;

    open spec fn view(&self) -> LaunchView {
        match self {
            Launch::Exec(command) => LaunchView::Exec(command@),
            Launch::Shell => LaunchView::Shell,
        }
    }
}

/// The pseudo-terminal to ask for: of the local terminal's type, `xterm`
/// where that is not known, and of its size.
pub fn pty_request(term: Option<String>, width: u16, height: u16) -> (r: PtyRequest)
    ensures
        r.term@ == match term {
            Some(name) => name@,
            None => default_term(),
        },
        r.width == width,
        r.height == height,
{
    let term = match term {
        Some(name) => name,
        None => "xterm".to_string(),
    };
    PtyRequest { term, width: width as u32, height: height as u32 }
}

/// What to run on the channel: the command, or the login shell where none is
/// given.
pub fn launch(command: Option<&str>) -> (r: Launch)
    ensures
        r@ == match command {
            Some(text) => LaunchView::Exec(text@),
            None => LaunchView::Shell,
        },
{
    match command {
        Some(text) => Launch::Exec(text.to_string()),
        None => Launch::Shell,
    }
}

/// What happened on one of the two sides of the relay.
#[derive(Debug, Clone, PartialEq, Eq)]
pub enum Event {
    /// A read of the local input returned these bytes; none means that the
    /// input is at its end.
    Input(Vec<u8>),
    /// A read of the local input failed.
    InputFailed(String),
    /// The remote sent output.
    Data(Vec<u8>),
    /// The remote reported the exit status of what it ran.
    ExitStatus(i32),
    /// The remote sent a message of another kind.
    Other,
    /// The channel closed.
    Closed,
}

/// An `Event` as mathematical values.
pub enum EventView {
    Input(Seq<u8>),
    InputFailed(Seq<char>),
    Data(Seq<u8>),
    ExitStatus(i32),
    Other,
    Closed,
}

impl View for Event {
    type V = EventView;

    open spec fn view(&self) -> EventView {
        match self {
            Event::Input(bytes) => EventView::Input(bytes@),
            Event::InputFailed(message) => EventView::InputFailed(message@),
            Event::Data(bytes) => EventView::Data(bytes@),
            Event::ExitStatus(code) => EventView::ExitStatus(*code),
            Event::Other => EventView::Other,
            Event::Closed => EventView::Closed,
        }
    }
}

/// What the relay does in answer to an event.
#[derive(Debug, Clone, PartialEq, Eq)]
pub enum Action {
    /// Send these bytes to the remote, as they are.
    Forward(Vec<u8>),
    /// Tell the remote that the input is at its end.
    SendEof,
    /// Write these bytes to the local output and flush it.
    Emit(Vec<u8>),
    /// Leave the relay with this exit status, after telling the remote that
    /// the input is at its end where `send_eof` is set.
    Exit { code: i32, send_eof: bool },
    /// Leave the relay with this failure.
    Abort(SessionError),
    /// Nothing.
    Nothing,
}

/// An `Action` as mathematical values.
pub enum ActionView {
    Forward(Seq<u8>),
    SendEof,
    Emit(Seq<u8>),
    Exit { code: i32, send_eof: bool },
    Abort(SessionErrorView),
    Nothing,
}

impl View for Action {
    type V = ActionView;

    open spec fn view(&self) -> ActionView {
        match self {
            Action::Forward(bytes) => ActionView::Forward(bytes@),
            Action::SendEof => ActionView::SendEof,
            Action::Emit(bytes) => ActionView::Emit(bytes@),
            Action::Exit { code, send_eof } => ActionView::Exit { code: *code, send_eof: *send_eof },
            Action::Abort(e) => ActionView::Abort(e@),
            Action::Nothing => ActionView::Nothing,
        }
    }
}

/// An authenticated session and the state of its relay.
#[derive(Debug, Clone, Copy, PartialEq, Eq, Structural)]
pub struct Session {
    /// The local input is at its end: it is read no more.
    pub input_closed: bool,
    /// The remote was told that the input is at its end.
    pub eof_sent: bool,
    /// The relay is over.
    pub finished: bool,
    /// The remote was told that the session is over.
    pub closed: bool,
}

/// Whether `event` ends the relay: an exit status, a closed channel, or a
/// failed read.
pub open spec fn is_final(event: EventView) -> bool {
    event is ExitStatus || event is Closed || event is InputFailed
}

/// The state after `event` and the action that answers it.
pub open spec fn step_of(state: Session, event: EventView) -> (Session, ActionView) {
    if state.finished {
        (state, ActionView::Nothing)
    } else {
        match event {
            EventView::Input(bytes) => if state.input_closed {
                (state, ActionView::Nothing)
            } else if bytes.len() == 0 {
                (Session { input_closed: true, eof_sent: true, ..state }, ActionView::SendEof)
            } else {
                (state, ActionView::Forward(bytes))
            },
            EventView::InputFailed(message) => (
                Session { finished: true, ..state },
                ActionView::Abort(SessionErrorView::Io(message)),
            ),
            EventView::Data(bytes) => (state, ActionView::Emit(bytes)),
            EventView::ExitStatus(code) => (
                Session { eof_sent: true, finished: true, ..state },
                ActionView::Exit { code, send_eof: !state.eof_sent },
            ),
            EventView::Other => (state, ActionView::Nothing),
            EventView::Closed => (
                Session { finished: true, ..state },
                ActionView::Abort(SessionErrorView::ChannelClosed),
            ),
        }
    }
}

/// What a relay did over a run of events.
#[derive(Debug, Clone, PartialEq, Eq)]
pub struct Transcript {
    /// The state it is left in.
    pub state: Session,
    /// The bytes sent to the remote, in the order of sending.
    pub to_remote: Vec<u8>,
    /// The bytes written to the local output, in the order of writing.
    pub to_local: Vec<u8>,
    /// How many times the remote was told that the input is at its end.
    pub eofs: usize,
    /// How the relay ended, if it did.
    pub outcome: Option<Result<i32, SessionError>>,
}

/// A `Transcript` as mathematical values.
pub struct TranscriptView {
    pub state: Session,
    pub to_remote: Seq<u8>,
    pub to_local: Seq<u8>,
    pub eofs: nat,
    pub outcome: Option<Result<i32, SessionErrorView>>,
}

impl View for Transcript {
    type V = TranscriptView;

    open spec fn view(&self) -> TranscriptView {
        TranscriptView {
            state: self.state,
            to_remote: self.to_remote@,
            to_local: self.to_local@,
            eofs: self.eofs as nat,
            outcome: match self.outcome {
                Some(Ok(code)) => Some(Ok(code)),
                Some(Err(e)) => Some(Err(e@)),
                None => None,
            },
        }
    }
}

/// The events of `script` as mathematical values.
pub open spec fn events_of(script: Seq<Event>) -> Seq<EventView> {
    script.map_values(|event: Event| event@)
}

/// The transcript `so_far` with what `action` does written down, in `state`.
pub open spec fn noted(so_far: TranscriptView, state: Session, action: ActionView) -> TranscriptView {
    match action {
        ActionView::Forward(bytes) => TranscriptView {
            state,
            to_remote: so_far.to_remote + bytes,
            ..so_far
        },
        ActionView::SendEof => TranscriptView { state, eofs: so_far.eofs + 1, ..so_far },
        ActionView::Emit(bytes) => TranscriptView {
            state,
            to_local: so_far.to_local + bytes,
            ..so_far
        },
        ActionView::Exit { code, send_eof } => TranscriptView {
            state,
            eofs: if send_eof {
                so_far.eofs + 1
            } else {
                so_far.eofs
            },
            outcome: Some(Ok(code)),
            ..so_far
        },
        ActionView::Abort(e) => TranscriptView { state, outcome: Some(Err(e)), ..so_far },
        ActionView::Nothing => TranscriptView { state, ..so_far },
    }
}

/// The transcript of a relay that starts in `start` and meets `events` in
/// turn.
pub open spec fn run(start: Session, events: Seq<EventView>) -> TranscriptView
    decreases events.len(),
{
    if events.len() == 0 {
        TranscriptView {
            state: start,
            to_remote: Seq::empty(),
            to_local: Seq::empty(),
            eofs: 0,
            outcome: None,
        }
    } else {
        let so_far = run(start, events.drop_last());
        let (state, action) = step_of(so_far.state, events.last());
        noted(so_far, state, action)
    }
}

/// No event among `events` ends the relay.
pub open spec fn none_final(events: Seq<EventView>) -> bool {
    forall|i: int| 0 <= i < events.len() ==> !is_final(#[trigger] events[i])
}

/// No event among `events` tells that the local input is at its end.
pub open spec fn input_open(events: Seq<EventView>) -> bool {
    forall|i: int| 0 <= i < events.len() ==> #[trigger] events[i] != EventView::Input(Seq::empty())
}

/// The output of the remote that counts: the payloads of its data messages,
/// in their order, up to the first event that ends the relay.
pub open spec fn remote_output(events: Seq<EventView>) -> Seq<u8>
    decreases events.len(),
{
    if events.len() == 0 {
        Seq::empty()
    } else {
        let before = events.drop_last();
        match events.last() {
            EventView::Data(bytes) => if none_final(before) {
                remote_output(before) + bytes
            } else {
                remote_output(before)
            },
            _ => remote_output(before),
        }
    }
}

/// The local input that counts: what the reads returned, in their order, up
/// to the end of the input or to the first event that ends the relay.
pub open spec fn local_input(events: Seq<EventView>) -> Seq<u8>
    decreases events.len(),
{
    if events.len() == 0 {
        Seq::empty()
    } else {
        let before = events.drop_last();
        match events.last() {
            EventView::Input(bytes) => if none_final(before) && input_open(before) {
                local_input(before) + bytes
            } else {
                local_input(before)
            },
            _ => local_input(before),
        }
    }
}

/// How a relay ends on `event`.
pub open spec fn ending(event: EventView) -> Result<i32, SessionErrorView> {
    match event {
        EventView::ExitStatus(code) => Ok(code),
        EventView::InputFailed(message) => Err(SessionErrorView::Io(message)),
        _ => Err(SessionErrorView::ChannelClosed),
    }
}

/// `none_final` and `input_open` of a run of events, by its last event.
pub proof fn lemma_last_event(events: Seq<EventView>)
    requires
        events.len() > 0,
    ensures
        none_final(events) <==> none_final(events.drop_last()) && !is_final(events.last()),
        input_open(events) <==> input_open(events.drop_last()) && events.last()
            != EventView::Input(Seq::empty()),
{
    let before = events.drop_last();
    if none_final(events) {
        assert forall|i: int| 0 <= i < before.len() implies !is_final(#[trigger] before[i]) by {
            assert(before[i] == events[i]);
        }
        assert(!is_final(events[events.len() - 1]));
    }
    if none_final(before) && !is_final(events.last()) {
        assert forall|i: int| 0 <= i < events.len() implies !is_final(#[trigger] events[i]) by {
            if i < before.len() {
                assert(before[i] == events[i]);
            }
        }
    }
    if input_open(events) {
        assert forall|i: int| 0 <= i < before.len() implies #[trigger] before[i]
            != EventView::Input(Seq::empty()) by {
            assert(before[i] == events[i]);
        }
        assert(events[events.len() - 1] != EventView::Input(Seq::empty()));
    }
    if input_open(before) && events.last() != EventView::Input(Seq::empty()) {
        assert forall|i: int| 0 <= i < events.len() implies #[trigger] events[i]
            != EventView::Input(Seq::empty()) by {
            if i < before.len() {
                assert(before[i] == events[i]);
            }
        }
    }
}

/// Where a relay stands after a run of events: it is over exactly if one of
/// them ended it, and while it is not, the input is closed exactly if it
/// came to its end.
pub proof fn lemma_run_state(start: Session, events: Seq<EventView>)
    requires
        start.wf(),
        !start.finished,
        !start.input_closed,
    ensures
        run(start, events).state.wf(),
        run(start, events).state.closed == start.closed,
        run(start, events).state.finished <==> !none_final(events),
        none_final(events) ==> (run(start, events).state.input_closed <==> !input_open(events)),
    decreases events.len(),
{
    if events.len() > 0 {
        let before = events.drop_last();
        lemma_run_state(start, before);
        lemma_last_event(events);
        let so_far = run(start, before);
        match events.last() {
            EventView::Input(bytes) => {
                if bytes.len() == 0 {
                    assert(bytes =~= Seq::empty());
                }
            },
            _ => {},
        }
    }
}

/// The remote is told that the input is at its end at most once: when the
/// input ends, or else when the relay ends on an exit status.
pub proof fn lemma_eof_at_most_once(start: Session, events: Seq<EventView>)
    requires
        start.wf(),
    ensures
        run(start, events).state.wf(),
        run(start, events).eofs + (if start.eof_sent {
            1nat
        } else {
            0nat
        }) == (if run(start, events).state.eof_sent {
            1nat
        } else {
            0nat
        }),
        run(start, events).eofs <= 1,
    decreases events.len(),
{
    if events.len() > 0 {
        lemma_eof_at_most_once(start, events.drop_last());
    }
}

/// What is written to the local output is the output of the remote, byte for
/// byte and in its order, up to the event that ends the relay.
pub proof fn lemma_output_in_order(start: Session, events: Seq<EventView>)
    requires
        start.wf(),
        !start.finished,
        !start.input_closed,
    ensures
        run(start, events).to_local == remote_output(events),
    decreases events.len(),
{
    if events.len() > 0 {
        let before = events.drop_last();
        lemma_output_in_order(start, before);
        lemma_run_state(start, before);
    }
}

/// What is sent to the remote is the local input, byte for byte and in its
/// order, up to the end of the input or to the event that ends the relay.
pub proof fn lemma_input_in_order(start: Session, events: Seq<EventView>)
    requires
        start.wf(),
        !start.finished,
        !start.input_closed,
    ensures
        run(start, events).to_remote == local_input(events),
    decreases events.len(),
{
    if events.len() > 0 {
        let before = events.drop_last();
        lemma_input_in_order(start, before);
        lemma_run_state(start, before);
        match events.last() {
            EventView::Input(bytes) => {
                if bytes.len() == 0 {
                    assert(run(start, before).to_remote + bytes =~= run(start, before).to_remote);
                }
            },
            _ => {},
        }
    }
}

/// A relay ends on the first event that is an exit status, a closed channel
/// or a failed read, with what that event says, and on nothing else: the end
/// of the local input does not end it.
pub proof fn lemma_ends_on_final_only(start: Session, events: Seq<EventView>)
    requires
        start.wf(),
        !start.finished,
        !start.input_closed,
    ensures
        none_final(events) ==> run(start, events).outcome is None,
        forall|k: int|
            0 <= k < events.len() && is_final(#[trigger] events[k]) && none_final(events.take(k))
                ==> run(start, events).outcome == Some(ending(events[k])),
    decreases events.len(),
{
    if events.len() > 0 {
        let before = events.drop_last();
        lemma_ends_on_final_only(start, before);
        lemma_run_state(start, before);
        lemma_last_event(events);
        assert forall|k: int|
            0 <= k < events.len() && is_final(#[trigger] events[k]) && none_final(
                events.take(k),
            ) implies run(start, events).outcome == Some(ending(events[k])) by {
            if k < before.len() {
                assert(before[k] == events[k]);
                assert(before.take(k) =~= events.take(k));
                assert(!none_final(before));
            } else {
                assert(events.take(k) =~= before);
            }
        }
    }
}

impl Session {
    /// A session that was just authenticated.
    pub open spec fn fresh() -> Session {
        Session { input_closed: false, eof_sent: false, finished: false, closed: false }
    }

    /// The remote is told that the input is at its end when the input ends
    /// or the relay does, and not otherwise.
    pub open spec fn wf(self) -> bool {
        &&& self.input_closed ==> self.eof_sent
        &&& self.eof_sent ==> self.input_closed || self.finished
    }

    /// The session that stands after password authentication: there is one
    /// where the remote accepted, and none where it rejected.
    pub fn connect(accepted: bool) -> (r: Result<Session, SessionError>)
        ensures
            r == if accepted {
                Ok::<Session, SessionError>(Session::fresh())
            } else {
                Err::<Session, SessionError>(SessionError::AuthFailed)
            },
    {
        if accepted {
            Ok(Session { input_closed: false, eof_sent: false, finished: false, closed: false })
        } else {
            Err(SessionError::AuthFailed)
        }
    }

    /// Whether the local input is to be waited for: until it is at its end,
    /// or the relay is over.
    pub fn reads_input(&self) -> (b: bool)
        ensures
            b == (!self.input_closed && !self.finished),
    {
        !self.input_closed && !self.finished
    }

    /// Takes one event and says what to do about it.
    ///
    /// Input is forwarded as it is; at its end the remote is told so, once,
    /// and the input is read no more. Output of the remote is written out. An
    /// exit status ends the relay, and nothing but that, a closed channel or
    /// a failed read does.
    pub fn step(&mut self, event: Event) -> (action: Action)
        ensures
            (*final(self), action@) == step_of(*old(self), event@),
            old(self).wf() ==> final(self).wf(),
    {
        if self.finished {
            return Action::Nothing;
        }
        match event {
            Event::Input(bytes) => {
                if self.input_closed {
                    Action::Nothing
                } else if bytes.len() == 0 {
                    self.input_closed = true;
                    self.eof_sent = true;
                    Action::SendEof
                } else {
                    Action::Forward(bytes)
                }
            },
            Event::InputFailed(message) => {
                self.finished = true;
                Action::Abort(SessionError::Io(message))
            },
            Event::Data(bytes) => Action::Emit(bytes),
            Event::ExitStatus(code) => {
                let send_eof = !self.eof_sent;
                self.eof_sent = true;
                self.finished = true;
                Action::Exit { code, send_eof }
            },
            Event::Other => Action::Nothing,
            Event::Closed => {
                self.finished = true;
                Action::Abort(SessionError::ChannelClosed)
            },
        }
    }

    /// Runs the relay over `script`, one event after the other, and writes
    /// down what it does.
    pub fn call(&mut self, script: Vec<Event>) -> (r: Transcript)
        ensures
            r@ == run(*old(self), events_of(script@)),
            *final(self) == r.state,
    {
        let ghost start = *self;
        let ghost whole = script@;
        let mut r = Transcript {
            state: *self,
            to_remote: Vec::new(),
            to_local: Vec::new(),
            eofs: 0,
            outcome: None,
        };
        proof {
            assert(events_of(whole.take(0)) =~= Seq::empty());
            assert(whole.len() == script.len());
        }
        for event in it: script
            invariant
                it.seq() == whole,
                whole.len() <= usize::MAX,
                r@ == run(start, events_of(whole.take(it.index() as int))),
                r.eofs <= it.index(),
                *self == r.state,
        {
            let ghost i = it.index() as int;
            proof {
                let now = events_of(whole.take(i + 1));
                assert(i < whole.len() <= usize::MAX);
                assert(now.drop_last() =~= events_of(whole.take(i)));
                assert(now.last() == event@);
            }
            let action = self.step(event);
            r.state = *self;
            match action {
                Action::Forward(bytes) => {
                    let mut bytes = bytes;
                    r.to_remote.append(&mut bytes);
                },
                Action::SendEof => {
                    r.eofs = r.eofs + 1;
                },
                Action::Emit(bytes) => {
                    let mut bytes = bytes;
                    r.to_local.append(&mut bytes);
                },
                Action::Exit { code, send_eof } => {
                    if send_eof {
                        r.eofs = r.eofs + 1;
                    }
                    r.outcome = Some(Ok(code));
                },
                Action::Abort(e) => {
                    r.outcome = Some(Err(e));
                },
                Action::Nothing => {},
            }
        }
        proof {
            assert(whole.take(whole.len() as int) =~= whole);
        }
        r
    }

    /// Whether the remote is to be told that the session is over: the first
    /// time, and never again. A notification that cannot be delivered is no
    /// failure.
    pub fn close(&mut self) -> (notify: bool)
        ensures
            notify == !old(self).closed,
            *final(self) == (Session { closed: true, ..*old(self) }),
    {
        let notify = !self.closed;
        self.closed = true;
        notify
    }
}

} // verus!
