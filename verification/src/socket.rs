//! The protocol of one client session: what the session does next, given
//! what just happened.
//!
//! The session itself neither reads nor writes nor sleeps. Whoever drives it
//! reports each event with the time at which it happened, carries out the
//! action that comes back, and reports the outcome as the next event.

use vstd::prelude::*;
use vstd::string::*;
use crate::from_client::{CloseData, FromClient, FromClientView, SessionError};
use crate::text::{decimal, push_decimal};

verus! {

/// The least time between two updates to one client, in milliseconds.
pub const FRAME_SPAN_MS: u64 = 1000;

/// Where a session stands.
#[derive(Clone, Copy, Debug, PartialEq, Eq, Structural)]
pub enum Step {
    /// The connection is accepted and nothing was sent yet.
    Idle,
    /// The full snapshot is on its way.
    Opening,
    /// The messages of the client are being read.
    Draining,
    /// The messages that were read are being applied to the chart projection.
    Applying,
    /// The session sleeps until the next update is due.
    Waiting,
    /// An incremental update is on its way.
    Rendering,
    /// The session is over.
    Closed,
}

/// The states of a session as its client sees them.
#[derive(Clone, Copy, Debug, PartialEq, Eq, Structural)]
pub enum Phase {
    Init,
    Streaming,
    Closed,
}

/// One protocol message as it comes from the socket, or the lack of one.
#[derive(Debug)]
pub enum Incoming<M> {
    /// A data frame, text or binary, that held a well-formed message.
    Message(M),
    /// A data frame that did not.
    Malformed,
    /// The read failed.
    Broken,
    /// A liveness probe.
    Ping(Vec<u8>),
    /// The reply to a liveness probe: the client asks for an update now.
    Pong,
    /// The client closes the connection.
    Close(Option<CloseData>),
    /// Nothing more is there to be read right now.
    Nothing,
}

/// What the driver of a session reports to it.
#[derive(Debug)]
pub enum Event<M> {
    /// The connection was accepted.
    Started,
    /// The update was computed and sent.
    Sent,
    /// The chart projection could not compute the update.
    RenderFailed,
    /// The update could not be sent.
    SendFailed,
    /// This came from the socket.
    Incoming(Incoming<M>),
    /// The messages were applied to the chart projection.
    Applied,
    /// The chart projection turned a message down.
    ApplyFailed,
    /// The sleep is over.
    Woke,
}

/// What the driver of a session is to do next.
#[derive(Debug, PartialEq, Eq)]
pub enum Action<M> {
    /// Compute an update, the full snapshot or an incremental one, and send it.
    Render { is_init: bool },
    /// Read the next message from the socket.
    Receive,
    /// Apply these messages to the chart projection, in this order.
    Apply(Vec<M>),
    /// Sleep for this many milliseconds.
    Sleep(u64),
    /// End the session: the client closed the connection, with these words.
    Close(Option<CloseData>),
    /// End the session: it failed.
    Fail(SessionError),
}

/// An action, with the messages it carries as a sequence.
pub enum ActionView<M> {
    Render { is_init: bool },
    Receive,
    Apply(Seq<M>),
    Sleep(u64),
    Close(Option<CloseData>),
    Fail(SessionError),
}

impl<M> View for Action<M> {
    type V = ActionView<M>;

    open spec fn view(&self) -> ActionView<M> {
        match *self {
            Action::Render { is_init } => ActionView::Render { is_init },
            Action::Receive => ActionView::Receive,
            Action::Apply(msgs) => ActionView::Apply(msgs@),
            Action::Sleep(millis) => ActionView::Sleep(millis),
            Action::Close(data) => ActionView::Close(data),
            Action::Fail(e) => ActionView::Fail(e),
        }
    }
}

/// What a session holds.
pub struct HandlerView<M> {
    pub step: Step,
    /// The messages that wait to be applied, and what is known of a close.
    pub from_client: FromClientView<M>,
    /// The time at which the latest update was sent, in milliseconds.
    pub last_frame: u64,
    /// The latest time that was reported to the session, in milliseconds.
    pub clock: u64,
    /// The least time between two updates, in milliseconds.
    pub frame_span: u64,
}

/// The later of the session's clock and the time that is reported to it.
pub open spec fn later(clock: u64, now: u64) -> u64 {
    if now > clock {
        now
    } else {
        clock
    }
}

/// How long an update has to wait at `clock`, the previous one having been
/// sent at `last_frame`: what is missing of `frame_span`.
pub open spec fn spec_wait(last_frame: u64, frame_span: u64, clock: u64) -> u64 {
    if clock >= last_frame && clock - last_frame >= frame_span {
        0
    } else if clock >= last_frame {
        (frame_span - (clock - last_frame)) as u64
    } else {
        frame_span
    }
}

/// The session fails at `clock`.
pub open spec fn failed<M>(v: HandlerView<M>, clock: u64, e: SessionError) -> (
    HandlerView<M>,
    ActionView<M>,
) {
    (HandlerView { step: Step::Closed, clock, ..v }, ActionView::Fail(e))
}

/// An update is asked for at `clock`: it is sent if it is due, and put off
/// for what is missing of the frame span otherwise.
pub open spec fn throttled<M>(v: HandlerView<M>, clock: u64) -> (HandlerView<M>, ActionView<M>) {
    let wait = spec_wait(v.last_frame, v.frame_span, clock);
    if wait > 0 {
        (HandlerView { step: Step::Waiting, clock, ..v }, ActionView::Sleep(wait))
    } else {
        (HandlerView { step: Step::Rendering, clock, ..v }, ActionView::Render { is_init: false })
    }
}

/// What a session that reads the client's messages makes of the next one.
pub open spec fn spec_receive<M>(v: HandlerView<M>, clock: u64, incoming: Incoming<M>) -> (
    HandlerView<M>,
    ActionView<M>,
) {
    match incoming {
        Incoming::Message(msg) => (
            HandlerView {
                clock,
                from_client: FromClientView {
                    msgs: v.from_client.msgs.push(msg),
                    ..v.from_client
                },
                ..v
            },
            ActionView::Receive,
        ),
        Incoming::Malformed => failed(v, clock, SessionError::Malformed),
        Incoming::Broken => failed(v, clock, SessionError::ReceiveFailed),
        Incoming::Ping(_) => failed(v, clock, SessionError::UnexpectedPing),
        Incoming::Pong | Incoming::Nothing => (
            HandlerView {
                step: Step::Applying,
                clock,
                from_client: FromClientView { msgs: Seq::empty(), ..v.from_client },
                ..v
            },
            ActionView::Apply(v.from_client.msgs),
        ),
        Incoming::Close(data) => (
            HandlerView {
                step: Step::Closed,
                clock,
                from_client: FromClientView { closed: true, close_data: data, ..v.from_client },
                ..v
            },
            ActionView::Close(data),
        ),
    }
}

/// The session after `event` is reported at `now`, and what its driver is
/// to do next.
pub open spec fn spec_step<M>(v: HandlerView<M>, now: u64, event: Event<M>) -> (
    HandlerView<M>,
    ActionView<M>,
) {
    let clock = later(v.clock, now);
    match v.step {
        Step::Idle => match event {
            Event::Started => (
                HandlerView { step: Step::Opening, clock, last_frame: clock, ..v },
                ActionView::Render { is_init: true },
            ),
            _ => failed(v, clock, SessionError::OutOfTurn),
        },
        Step::Opening | Step::Rendering => match event {
            Event::Sent => (
                HandlerView { step: Step::Draining, clock, last_frame: clock, ..v },
                ActionView::Receive,
            ),
            Event::RenderFailed => failed(v, clock, SessionError::RenderFailed),
            Event::SendFailed => failed(v, clock, SessionError::SendFailed),
            _ => failed(v, clock, SessionError::OutOfTurn),
        },
        Step::Draining => match event {
            Event::Incoming(incoming) => spec_receive(v, clock, incoming),
            _ => failed(v, clock, SessionError::OutOfTurn),
        },
        Step::Applying => match event {
            Event::Applied => throttled(v, clock),
            Event::ApplyFailed => failed(v, clock, SessionError::ApplyFailed),
            _ => failed(v, clock, SessionError::OutOfTurn),
        },
        Step::Waiting => match event {
            Event::Woke => throttled(v, clock),
            _ => failed(v, clock, SessionError::OutOfTurn),
        },
        Step::Closed => failed(v, clock, SessionError::Closed),
    }
}

/// What is logged of the way a client closed the connection.
pub open spec fn spec_close_text(data: Option<CloseData>) -> Seq<char> {
    match data {
        Some(data) => "status code `"@ + decimal(data.status_code as nat) + "`: "@ + data.reason@,
        None => "no information"@,
    }
}

/// What is logged of the way a client closed the connection.
pub fn close_text(data: Option<&CloseData>) -> (res: String)
    ensures
        res@ == spec_close_text(
            match data {
                Some(data) => Some(*data),
                None => None,
            },
        ),
{
    match data {
        Some(data) => {
            let mut res = String::from_str("status code `");
            push_decimal(&mut res, data.status_code as u64);
            res.append("`: ");
            res.append(data.reason.as_str());
            res
        },
        None => String::from_str("no information"),
    }
}

/// The server's side of one client session.
#[derive(Debug)]
pub struct Handler<M> {
    step: Step,
    /// What the client sent and was not applied yet.
    from_client: FromClient<M>,
    /// Time at which the latest update was sent.
    last_frame: u64,
    /// The latest time that was reported.
    clock: u64,
    /// Least time between two updates.
    frame_span: u64,
}

impl<M> View for Handler<M> {
    type V = HandlerView<M>;

    closed spec fn view(&self) -> HandlerView<M> {
        HandlerView {
            step: self.step,
            from_client: self.from_client@,
            last_frame: self.last_frame,
            clock: self.clock,
            frame_span: self.frame_span,
        }
    }
}

/// The invariant of a session: no update was sent later than the latest
/// time reported; an incremental update is on its way only when it is due;
/// the client has closed the connection only if the session is over.
pub open spec fn session_inv<M>(v: HandlerView<M>) -> bool {
    &&& v.last_frame <= v.clock
    &&& v.step is Rendering ==> v.clock - v.last_frame >= v.frame_span
    &&& v.from_client.closed ==> v.step is Closed
    &&& v.from_client.close_data is Some ==> v.from_client.closed
}

impl<M> Handler<M> {
    pub open spec fn wf(&self) -> bool {
        session_inv(self@)
    }

    /// The session of a connection accepted at `now`.
    pub fn new(now: u64) -> (res: Self)
        ensures
            res.wf(),
            res@ == (HandlerView::<M> {
                step: Step::Idle,
                from_client: FromClientView { msgs: Seq::empty(), closed: false, close_data: None },
                last_frame: now,
                clock: now,
                frame_span: FRAME_SPAN_MS,
            }),
    {
        Handler {
            step: Step::Idle,
            from_client: FromClient::new(),
            last_frame: now,
            clock: now,
            frame_span: FRAME_SPAN_MS,
        }
    }

    pub fn step(&self) -> (res: Step)
        ensures
            res == self@.step,
    {
        self.step
    }

    /// The state of the session as its client sees it.
    pub fn phase(&self) -> (res: Phase)
        ensures
            res == match self@.step {
                Step::Idle | Step::Opening => Phase::Init,
                Step::Closed => Phase::Closed,
                _ => Phase::Streaming,
            },
    {
        match self.step {
            Step::Idle | Step::Opening => Phase::Init,
            Step::Closed => Phase::Closed,
            _ => Phase::Streaming,
        }
    }

    /// The time at which the latest update was sent.
    pub fn last_frame(&self) -> (res: u64)
        ensures
            res == self@.last_frame,
    {
        self.last_frame
    }

    /// The least time between two updates.
    pub fn frame_span(&self) -> (res: u64)
        ensures
            res == self@.frame_span,
    {
        self.frame_span
    }

    /// What the client sent and was not applied yet.
    pub fn from_client(&self) -> (res: &FromClient<M>)
        ensures
            res@ == self@.from_client,
    {
        &self.from_client
    }

    /// What is logged of the way the client closed the connection.
    pub fn close_reason(&self) -> (res: String)
        ensures
            res@ == spec_close_text(self@.from_client.close_data),
    {
        close_text(self.from_client.close_data())
    }

    /// Moves the clock to `now`, unless it is there or further already.
    fn tick(&mut self, now: u64)
        ensures
            final(self)@ == (HandlerView { clock: later(old(self)@.clock, now), ..old(self)@ }),
    {
        if now > self.clock {
            self.clock = now;
        }
    }

    /// Sets the time of the latest update to that of the clock.
    fn set_last_frame(&mut self)
        ensures
            final(self)@ == (HandlerView { last_frame: old(self)@.clock, ..old(self)@ }),
    {
        self.last_frame = self.clock;
    }

    /// Ends the session with a failure.
    fn fail(&mut self, e: SessionError) -> (action: Action<M>)
        ensures
            (final(self)@, action@) == failed(old(self)@, old(self)@.clock, e),
    {
        self.step = Step::Closed;
        Action::Fail(e)
    }

    /// How long the next update has to wait at the time of the clock.
    pub fn wait(&self) -> (res: u64)
        ensures
            res == spec_wait(self@.last_frame, self@.frame_span, self@.clock),
    {
        if self.clock >= self.last_frame {
            let elapsed = self.clock - self.last_frame;
            if elapsed >= self.frame_span {
                0
            } else {
                self.frame_span - elapsed
            }
        } else {
            self.frame_span
        }
    }

    /// Sends the next update if it is due, sleeps otherwise.
    fn throttle(&mut self) -> (action: Action<M>)
        ensures
            (final(self)@, action@) == throttled(old(self)@, old(self)@.clock),
    {
        let wait = self.wait();
        if wait > 0 {
            self.step = Step::Waiting;
            Action::Sleep(wait)
        } else {
            self.step = Step::Rendering;
            Action::Render { is_init: false }
        }
    }

    /// Starts the session: the full snapshot is to be sent.
    pub fn init(&mut self, now: u64) -> (action: Action<M>)
        requires
            old(self).wf(),
        ensures
            final(self).wf(),
            (final(self)@, action@) == spec_step(old(self)@, now, Event::Started),
    {
        self.tick(now);
        match self.step {
            Step::Idle => {
                self.set_last_frame();
                self.step = Step::Opening;
                Action::Render { is_init: true }
            },
            Step::Closed => self.fail(SessionError::Closed),
            _ => self.fail(SessionError::OutOfTurn),
        }
    }

    /// Takes in what came from the socket: a message is put into the
    /// buffer, and the next one is to be read; the reply to a liveness
    /// probe, or the lack of anything to read, ends the reading, and what
    /// was read is to be applied; a close ends the session; anything else is
    /// fatal to it.
    pub fn receive_messages(&mut self, now: u64, incoming: Incoming<M>) -> (action: Action<M>)
        requires
            old(self).wf(),
        ensures
            final(self).wf(),
            (final(self)@, action@) == spec_step(old(self)@, now, Event::Incoming(incoming)),
    {
        self.tick(now);
        match self.step {
            Step::Draining => match incoming {
                Incoming::Message(msg) => match self.from_client.push(msg) {
                    Ok(()) => Action::Receive,
                    Err(e) => self.fail(e),
                },
                Incoming::Malformed => self.fail(SessionError::Malformed),
                Incoming::Broken => self.fail(SessionError::ReceiveFailed),
                Incoming::Ping(_) => self.fail(SessionError::UnexpectedPing),
                Incoming::Pong | Incoming::Nothing => {
                    self.step = Step::Applying;
                    let msgs = self.from_client.drain();
                    Action::Apply(msgs)
                },
                Incoming::Close(data) => {
                    let kept = match &data {
                        Some(data) => Some(data.duplicate()),
                        None => None,
                    };
                    match self.from_client.close() {
                        Ok(()) => match self.from_client.set_close_data(kept) {
                            Ok(()) => {
                                self.step = Step::Closed;
                                Action::Close(data)
                            },
                            Err(e) => self.fail(e),
                        },
                        Err(e) => self.fail(e),
                    }
                },
            },
            Step::Closed => self.fail(SessionError::Closed),
            _ => self.fail(SessionError::OutOfTurn),
        }
    }

    /// Takes in one event, reported at `now`, and says what is to be done next.
    pub fn run(&mut self, now: u64, event: Event<M>) -> (action: Action<M>)
        requires
            old(self).wf(),
        ensures
            final(self).wf(),
            (final(self)@, action@) == spec_step(old(self)@, now, event),
    {
        match event {
            Event::Started => self.init(now),
            Event::Incoming(incoming) => self.receive_messages(now, incoming),
            Event::Sent => {
                self.tick(now);
                match self.step {
                    Step::Opening | Step::Rendering => {
                        self.set_last_frame();
                        self.step = Step::Draining;
                        Action::Receive
                    },
                    Step::Closed => self.fail(SessionError::Closed),
                    _ => self.fail(SessionError::OutOfTurn),
                }
            },
            Event::RenderFailed => {
                self.tick(now);
                match self.step {
                    Step::Opening | Step::Rendering => self.fail(SessionError::RenderFailed),
                    Step::Closed => self.fail(SessionError::Closed),
                    _ => self.fail(SessionError::OutOfTurn),
                }
            },
            Event::SendFailed => {
                self.tick(now);
                match self.step {
                    Step::Opening | Step::Rendering => self.fail(SessionError::SendFailed),
                    Step::Closed => self.fail(SessionError::Closed),
                    _ => self.fail(SessionError::OutOfTurn),
                }
            },
            Event::Applied => {
                self.tick(now);
                match self.step {
                    Step::Applying => self.throttle(),
                    Step::Closed => self.fail(SessionError::Closed),
                    _ => self.fail(SessionError::OutOfTurn),
                }
            },
            Event::ApplyFailed => {
                self.tick(now);
                match self.step {
                    Step::Applying => self.fail(SessionError::ApplyFailed),
                    Step::Closed => self.fail(SessionError::Closed),
                    _ => self.fail(SessionError::OutOfTurn),
                }
            },
            Event::Woke => {
                self.tick(now);
                match self.step {
                    Step::Waiting => self.throttle(),
                    Step::Closed => self.fail(SessionError::Closed),
                    _ => self.fail(SessionError::OutOfTurn),
                }
            },
        }
    }
}

} // verus!
