//! What a client sent and the session has not yet acted upon.

use vstd::prelude::*;

verus! {

/// What a client says when it closes the connection.
#[derive(Debug, PartialEq, Eq)]
pub struct CloseData {
    pub status_code: u16,
    pub reason: String,
}

impl CloseData {
    /// The same words, once more.
    pub fn duplicate(&self) -> (res: Self)
        ensures
            res == *self,
    {
        CloseData { status_code: self.status_code, reason: self.reason.clone() }
    }
}

/// Why a session ended other than by the client closing it.
#[derive(Clone, Copy, Debug, PartialEq, Eq, Structural)]
pub enum SessionError {
    /// A data frame did not hold a well-formed message.
    Malformed,
    /// The connection failed while a message was read.
    ReceiveFailed,
    /// The client sent a liveness probe, which the protocol does not allow.
    UnexpectedPing,
    /// The chart projection could not take in a message of the client.
    ApplyFailed,
    /// The chart projection could not compute an update.
    RenderFailed,
    /// An update could not be sent.
    SendFailed,
    /// Something was reported to the session that it was not waiting for.
    OutOfTurn,
    /// The client has closed the connection.
    Closed,
    /// The connection was not closed.
    NotClosed,
}

/// What the buffer of inbound messages holds.
pub struct FromClientView<M> {
    /// The messages, in the order of their arrival.
    pub msgs: Seq<M>,
    /// The client has closed the connection.
    pub closed: bool,
    /// What the client said when it closed the connection.
    pub close_data: Option<CloseData>,
}

/// The messages of one client that wait to be applied, in the order of
/// their arrival, and whether the client has closed the connection.
#[derive(Debug)]
pub struct FromClient<M> {
    msgs: Vec<M>,
    closed: bool,
    close_data: Option<CloseData>,
}

impl<M> View for FromClient<M> {
    type V = FromClientView<M>;

    closed spec fn view(&self) -> FromClientView<M> {
        FromClientView { msgs: self.msgs@, closed: self.closed, close_data: self.close_data }
    }
}

impl<M> FromClient<M> {
    /// An empty buffer on an open connection.
    pub fn new() -> (res: Self)
        ensures
            res@ == (FromClientView::<M> { msgs: Seq::empty(), closed: false, close_data: None }),
    {
        FromClient { msgs: Vec::new(), closed: false, close_data: None }
    }

    /// Appends a message, unless the connection is closed.
    pub fn push(&mut self, msg: M) -> (res: Result<(), SessionError>)
        ensures
            old(self)@.closed ==> res == Err::<(), SessionError>(SessionError::Closed) && final(self)@ == old(self)@,
            !old(self)@.closed ==> res is Ok && final(self)@ == (FromClientView {
                msgs: old(self)@.msgs.push(msg),
                ..old(self)@
            }),
    {
        if self.closed {
            Err(SessionError::Closed)
        } else {
            self.msgs.push(msg);
            Ok(())
        }
    }

    /// Marks the connection as closed, unless it is already.
    pub fn close(&mut self) -> (res: Result<(), SessionError>)
        ensures
            old(self)@.closed ==> res == Err::<(), SessionError>(SessionError::Closed) && final(self)@ == old(self)@,
            !old(self)@.closed ==> res is Ok && final(self)@ == (FromClientView {
                closed: true,
                ..old(self)@
            }),
    {
        if self.closed {
            Err(SessionError::Closed)
        } else {
            self.closed = true;
            Ok(())
        }
    }

    /// Records what the client said when it closed the connection.
    pub fn set_close_data(&mut self, close_data: Option<CloseData>) -> (res: Result<
        (),
        SessionError,
    >)
        ensures
            !old(self)@.closed ==> res == Err::<(), SessionError>(SessionError::NotClosed)
                && final(self)@ == old(self)@,
            old(self)@.closed ==> res is Ok && final(self)@ == (FromClientView {
                close_data,
                ..old(self)@
            }),
    {
        if !self.closed {
            Err(SessionError::NotClosed)
        } else {
            self.close_data = close_data;
            Ok(())
        }
    }

    pub fn is_closed(&self) -> (res: bool)
        ensures
            res == self@.closed,
    {
        self.closed
    }

    /// What the client said when it closed the connection.
    pub fn close_data(&self) -> (res: Option<&CloseData>)
        ensures
            match self@.close_data {
                Some(data) => res is Some && *res->Some_0 == data,
                None => res is None,
            },
    {
        self.close_data.as_ref()
    }

    /// The number of messages that wait.
    pub fn len(&self) -> (res: usize)
        ensures
            res == self@.msgs.len(),
    {
        self.msgs.len()
    }

    /// Hands out the messages in the order of their arrival and empties the buffer.
    pub fn drain(&mut self) -> (res: Vec<M>)
        ensures
            res@ == old(self)@.msgs,
            final(self)@ == (FromClientView { msgs: Seq::empty(), ..old(self)@ }),
    {
        let mut msgs: Vec<M> = Vec::new();
        core::mem::swap(&mut self.msgs, &mut msgs);
        msgs
    }
}

} // verus!
