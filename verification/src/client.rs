//! Clients: who they are, and what is sent to them.
//!
//! A message goes out in three steps. First the client decides what is to be done
//! with its socket ([`Action`]). How that went ([`Outcome`]) decides whether the
//! socket is given up and what the sender hears ([`Operation::settle`]). Once a
//! socket that is to be given up is gone, the client concludes
//! ([`Client::conclude`]).
use vstd::prelude::*;

use crate::token::Token;

verus! {

/// The protocol that a client speaks.
#[derive(Debug, Clone, Copy, PartialEq, Eq, Structural)]
pub enum ClientType {
    Blobcast,
    Ecast,
}

/// Who a client is.
#[derive(Debug)]
pub struct JBProfile {
    pub id: i64,
    pub user_id: String,
    /// The name of the role that its rights come from.
    pub role: String,
    pub name: String,
    pub roles: JBProfileRoles,
}

/// What a client is in the room.
#[derive(Debug)]
pub enum JBProfileRoles {
    Host {},
    Player { name: String },
    NoRole,
}

/// A client of a room.
#[derive(Debug)]
pub struct Client {
    pub profile: JBProfile,
    /// Whether the client has a socket.
    pub connected: bool,
    /// The number of the next message that has none.
    pub pc: u64,
    pub client_type: ClientType,
    pub secret: Token,
}

/// How long a socket may take for a message, in seconds.
pub const SEND_LIMIT_SECS: u64 = 3;

/// The code of a close that nothing is wrong with.
pub const NORMAL_CLOSE: u16 = 1000;

/// What goes through a socket.
#[derive(Debug, PartialEq, Eq)]
pub enum Message {
    Text(String),
    Binary(Vec<u8>),
    Ping(Vec<u8>),
    Pong(Vec<u8>),
    Close { code: u16, reason: String },
    /// A close that says nothing of why.
    BareClose,
}

/// [`Message`] with its contents as sequences.
pub enum MessageView {
    Text(Seq<char>),
    Binary(Seq<u8>),
    Ping(Seq<u8>),
    Pong(Seq<u8>),
    Close { code: u16, reason: Seq<char> },
    BareClose,
}

impl View for Message {
    type V = MessageView;

    open spec fn view(&self) -> MessageView {
        match *self {
            Message::Text(text) => MessageView::Text(text@),
            Message::Binary(data) => MessageView::Binary(data@),
            Message::Ping(data) => MessageView::Ping(data@),
            Message::Pong(data) => MessageView::Pong(data@),
            Message::Close { code, reason } => MessageView::Close { code, reason: reason@ },
            Message::BareClose => MessageView::BareClose,
        }
    }
}

/// What is to be done with the socket of a client.
#[derive(Debug, PartialEq, Eq)]
pub enum Action {
    /// Hand `message` to the socket, and wait for it no longer than `limit_secs`.
    Send { operation: Operation, message: Message, limit_secs: u64 },
    /// There is no socket, and nothing to do: [`Outcome::Skipped`].
    Skip { operation: Operation },
}

/// [`Action`] with its message as sequences.
pub enum ActionView {
    Send { operation: Operation, message: MessageView, limit_secs: u64 },
    Skip { operation: Operation },
}

impl View for Action {
    type V = ActionView;

    open spec fn view(&self) -> ActionView {
        match *self {
            Action::Send { operation, message, limit_secs } => ActionView::Send {
                operation,
                message: message@,
                limit_secs,
            },
            Action::Skip { operation } => ActionView::Skip { operation },
        }
    }
}

/// What is being sent.
#[derive(Debug, Clone, Copy, PartialEq, Eq, Structural)]
pub enum Operation {
    Ecast,
    Blobcast,
    Ping,
    Pong,
    Close,
    /// A message as it is.
    Raw,
}

/// How an [`Action`] went.
#[derive(Debug, Clone, Copy, PartialEq, Eq, Structural)]
pub enum Outcome {
    /// There was nothing to do.
    Skipped,
    /// The socket took the message.
    Sent,
    /// The socket refused the message.
    Failed,
    /// The socket did neither in time.
    TimedOut,
}

/// Why a message did not go out.
#[derive(Debug, Clone, Copy, PartialEq, Eq, Structural)]
pub enum SendError {
    /// There is no text for an Ecast message.
    SerializeEcast,
    /// There is no text for a Blobcast message.
    SerializeBlobcast,
    /// The socket refused it.
    Send(Operation),
}

/// What follows when an [`Action`] has ended.
#[derive(Debug, Clone, Copy, PartialEq, Eq)]
pub struct Next {
    /// Whether the socket is to be given up first.
    pub disconnect: bool,
    /// What the sender hears then.
    pub report: Result<(), SendError>,
}

/// The number that a message goes out with: its own, or the next one where it
/// has none.
pub open spec fn number_given(counter: u64, requested: u64) -> u64 {
    if requested == 0 {
        counter
    } else {
        requested
    }
}

/// The next number once a message has gone out: one more where a number was
/// given out, back to zero after the last.
pub open spec fn counter_after(counter: u64, requested: u64) -> u64 {
    if requested != 0 {
        counter
    } else if counter == u64::MAX {
        0
    } else {
        (counter + 1) as u64
    }
}

/// What is done with a message to a client that is connected or not.
pub open spec fn handed(
    connected: bool,
    operation: Operation,
    message: MessageView,
) -> ActionView {
    if connected {
        ActionView::Send { operation, message, limit_secs: SEND_LIMIT_SECS }
    } else {
        ActionView::Skip { operation }
    }
}

/// Where sending fails, the connection is given up, except where a close or a
/// message as it is was sent.
pub open spec fn gives_up(operation: Operation) -> bool {
    operation != Operation::Close && operation != Operation::Raw
}

/// What follows when `operation` has ended in `outcome`.
pub open spec fn next_step(operation: Operation, outcome: Outcome) -> Next {
    match outcome {
        Outcome::Skipped => Next { disconnect: false, report: Ok(()) },
        Outcome::Sent => Next { disconnect: false, report: Ok(()) },
        Outcome::Failed => Next {
            disconnect: gives_up(operation),
            report: Err(SendError::Send(operation)),
        },
        Outcome::TimedOut => Next { disconnect: true, report: Ok(()) },
    }
}

/// `after` is `before` but for its connection and its numbers.
pub open spec fn same_client(before: Client, after: Client) -> bool {
    &&& after.profile == before.profile
    &&& after.client_type == before.client_type
    &&& after.secret == before.secret
}

impl SendError {
    /// The error in words.
    pub fn message(&self) -> (message: String)
        ensures
            message@ == match *self {
                SendError::SerializeEcast => "Failed to serialize ecast message"@,
                SendError::SerializeBlobcast => "Failed to serialize blobcast message"@,
                SendError::Send(Operation::Ecast) => "Ecast message failed to send"@,
                SendError::Send(Operation::Blobcast) => "Blobcast message failed to send"@,
                SendError::Send(Operation::Ping) => "Failed to ping socket"@,
                SendError::Send(Operation::Pong) => "Failed to pong socket"@,
                SendError::Send(Operation::Close) => "Failed to close connection"@,
                SendError::Send(Operation::Raw) => "WS Message failed to send"@,
            },
    {
        match self {
            SendError::SerializeEcast => "Failed to serialize ecast message".to_owned(),
            SendError::SerializeBlobcast => "Failed to serialize blobcast message".to_owned(),
            SendError::Send(Operation::Ecast) => "Ecast message failed to send".to_owned(),
            SendError::Send(Operation::Blobcast) => "Blobcast message failed to send".to_owned(),
            SendError::Send(Operation::Ping) => "Failed to ping socket".to_owned(),
            SendError::Send(Operation::Pong) => "Failed to pong socket".to_owned(),
            SendError::Send(Operation::Close) => "Failed to close connection".to_owned(),
            SendError::Send(Operation::Raw) => "WS Message failed to send".to_owned(),
        }
    }
}

impl Client {
    /// The number that an Ecast message goes out with, where `pc` is the one
    /// that it comes with. Zero stands for none.
    pub fn number(&mut self, pc: u64) -> (given: u64)
        ensures
            given == number_given(old(self).pc, pc),
            final(self).pc == counter_after(old(self).pc, pc),
            final(self).connected == old(self).connected,
            same_client(*old(self), *final(self)),
    {
        if pc != 0 {
            return pc;
        }
        let given = self.pc;
        self.pc = if given == u64::MAX {
            0
        } else {
            given + 1
        };
        given
    }

    /// Sends an Ecast message whose text is `json`; there is none where it could
    /// not be serialized. The message has its number from [`Client::number`].
    pub fn send_ecast(&self, json: Option<String>) -> (action: Result<Action, SendError>)
        ensures
            match json {
                Some(json) => action matches Ok(action) && action@ == handed(
                    self.connected,
                    Operation::Ecast,
                    MessageView::Text(json@),
                ),
                None => action == Err::<Action, SendError>(SendError::SerializeEcast),
            },
    {
        match json {
            Some(json) => Ok(self.hand(Operation::Ecast, Message::Text(json))),
            None => Err(SendError::SerializeEcast),
        }
    }

    /// Sends a Blobcast message whose text is `json`; there is none where it
    /// could not be serialized.
    pub fn send_blobcast(&self, json: Option<String>) -> (action: Result<Action, SendError>)
        ensures
            match json {
                Some(json) => action matches Ok(action) && action@ == handed(
                    self.connected,
                    Operation::Blobcast,
                    MessageView::Text("5:::"@ + json@),
                ),
                None => action == Err::<Action, SendError>(SendError::SerializeBlobcast),
            },
    {
        match json {
            Some(json) => {
                let mut frame = "5:::".to_owned();
                frame.append(&json);
                Ok(self.hand(Operation::Blobcast, Message::Text(frame)))
            },
            None => Err(SendError::SerializeBlobcast),
        }
    }

    /// Asks the client for a sign of life that carries `d`.
    pub fn ping(&self, d: Vec<u8>) -> (action: Action)
        ensures
            action@ == handed(self.connected, Operation::Ping, MessageView::Ping(d@)),
    {
        self.hand(Operation::Ping, Message::Ping(d))
    }

    /// Gives the client a sign of life that carries `d`.
    pub fn pong(&self, d: Vec<u8>) -> (action: Action)
        ensures
            action@ == handed(self.connected, Operation::Pong, MessageView::Pong(d@)),
    {
        self.hand(Operation::Pong, Message::Pong(d))
    }

    /// Tells the client that its connection ends.
    pub fn close(&self) -> (action: Action)
        ensures
            action@ == handed(
                self.connected,
                Operation::Close,
                MessageView::Close { code: 1000, reason: "normal close"@ },
            ),
    {
        self.hand(
            Operation::Close,
            Message::Close { code: NORMAL_CLOSE, reason: "normal close".to_owned() },
        )
    }

    /// Gives the socket up.
    pub fn disconnect(&mut self)
        ensures
            !final(self).connected,
            final(self).pc == old(self).pc,
            same_client(*old(self), *final(self)),
    {
        self.connected = false;
    }

    /// Sends `message` as it is. To a client without a socket nothing is sent.
    pub fn send_ws_message(&self, message: Message) -> (action: Action)
        ensures
            action@ == handed(self.connected, Operation::Raw, message@),
    {
        self.hand(Operation::Raw, message)
    }

    /// Hands `message` to the socket, if there is one, on behalf of `operation`.
    fn hand(&self, operation: Operation, message: Message) -> (action: Action)
        ensures
            action@ == handed(self.connected, operation, message@),
    {
        if self.connected {
            Action::Send { operation, message, limit_secs: SEND_LIMIT_SECS }
        } else {
            Action::Skip { operation }
        }
    }

    /// Ends a message, by what follows it. Where the socket was to be given up, it
    /// is gone by now and the client is without one; a client without a socket
    /// never comes to one here. Then the sender hears the report.
    pub fn conclude(&mut self, next: Next) -> (report: Result<(), SendError>)
        ensures
            report == next.report,
            final(self).connected == (old(self).connected && !next.disconnect),
            final(self).pc == old(self).pc,
            same_client(*old(self), *final(self)),
    {
        if next.disconnect {
            self.disconnect();
        }
        next.report
    }
}

impl Operation {
    /// What follows when the operation has ended in `outcome`: the socket is to
    /// be given up where it was too slow, or where it failed and is still
    /// needed, and then a failure is reported.
    pub fn settle(self, outcome: Outcome) -> (next: Next)
        ensures
            next == next_step(self, outcome),
    {
        match outcome {
            Outcome::Skipped => Next { disconnect: false, report: Ok(()) },
            Outcome::Sent => Next { disconnect: false, report: Ok(()) },
            Outcome::Failed => Next {
                disconnect: self != Operation::Close && self != Operation::Raw,
                report: Err(SendError::Send(self)),
            },
            Outcome::TimedOut => Next { disconnect: true, report: Ok(()) },
        }
    }
}

/// A client without a socket is sent nothing, and its senders hear of no error.
pub proof fn law_disconnected_client_is_left_alone(message: MessageView, operation: Operation)
    ensures
        handed(false, operation, message) == (ActionView::Skip { operation }),
        next_step(operation, Outcome::Skipped) == (Next { disconnect: false, report: Ok(()) }),
{
}

/// A sender hears of an error exactly where the socket refused the message: that
/// it took too long has the socket given up and is not an error.
pub proof fn law_only_refusal_is_reported(operation: Operation, outcome: Outcome)
    ensures
        next_step(operation, outcome).report is Err <==> outcome == Outcome::Failed,
        next_step(operation, Outcome::TimedOut) == (Next { disconnect: true, report: Ok(()) }),
{
}

/// A socket is given up exactly where it was too slow, or where it refused
/// anything but a close or a message as it is.
pub proof fn law_socket_is_given_up(operation: Operation, outcome: Outcome)
    ensures
        next_step(operation, outcome).disconnect <==> outcome == Outcome::TimedOut || (outcome
            == Outcome::Failed && operation != Operation::Close && operation != Operation::Raw),
{
}

/// The next number once all of `requested` have gone out, one after the other.
pub open spec fn counter_after_all(counter: u64, requested: Seq<u64>) -> u64
    decreases requested.len(),
{
    if requested.len() == 0 {
        counter
    } else {
        counter_after(counter_after_all(counter, requested.drop_last()), requested.last())
    }
}

/// The number that the `i`th of `requested` goes out with.
pub open spec fn number_given_to(counter: u64, requested: Seq<u64>, i: int) -> u64 {
    number_given(counter_after_all(counter, requested.take(i)), requested[i])
}

/// How many of `requested` come without a number.
pub open spec fn unnumbered(requested: Seq<u64>) -> nat
    decreases requested.len(),
{
    if requested.len() == 0 {
        0
    } else {
        unnumbered(requested.drop_last()) + if requested.last() == 0 {
            1nat
        } else {
            0nat
        }
    }
}

/// Messages without a number are numbered one after the other from the counter
/// on, whatever else goes out between them, and a message with a number keeps it.
pub proof fn law_numbers_are_consecutive(counter: u64, requested: Seq<u64>, i: int)
    requires
        0 <= i < requested.len(),
    ensures
        requested[i] != 0 ==> number_given_to(counter, requested, i) == requested[i],
        requested[i] == 0 ==> number_given_to(counter, requested, i) == (counter + unnumbered(
            requested.take(i),
        )) % 0x1_0000_0000_0000_0000,
{
    lemma_counter_after_all(counter, requested.take(i));
}

proof fn lemma_counter_after_all(counter: u64, requested: Seq<u64>)
    ensures
        counter_after_all(counter, requested) == (counter + unnumbered(requested))
            % 0x1_0000_0000_0000_0000,
    decreases requested.len(),
{
    if requested.len() > 0 {
        lemma_counter_after_all(counter, requested.drop_last());
    }
}

proof fn lemma_unnumbered_take(requested: Seq<u64>, i: int, j: int)
    requires
        0 <= i <= j <= requested.len(),
    ensures
        unnumbered(requested.take(i)) <= unnumbered(requested.take(j)) <= unnumbered(
            requested.take(i),
        ) + (j - i),
        i < j && requested[i] == 0 ==> unnumbered(requested.take(i)) < unnumbered(
            requested.take(j),
        ),
    decreases j - i,
{
    if i < j {
        lemma_unnumbered_take(requested, i, j - 1);
        assert(requested.take(j).drop_last() =~= requested.take(j - 1));
    }
}

/// No two messages that come without a number are given the same one, as long as
/// no more messages go out than there are numbers.
pub proof fn law_numbers_are_distinct(counter: u64, requested: Seq<u64>, i: int, j: int)
    requires
        0 <= i < j < requested.len() <= 0x1_0000_0000_0000_0000,
        requested[i] == 0,
        requested[j] == 0,
    ensures
        number_given_to(counter, requested, i) != number_given_to(counter, requested, j),
{
    law_numbers_are_consecutive(counter, requested, i);
    law_numbers_are_consecutive(counter, requested, j);
    lemma_unnumbered_take(requested, i, j);
}

/// A client with a socket is sent every message as it is, whatever it holds and
/// however long it is, and has three seconds for it.
pub proof fn law_connected_client_is_sent_every_message(
    operation: Operation,
    message: MessageView,
)
    ensures
        handed(true, operation, message) == (ActionView::Send {
            operation,
            message,
            limit_secs: 3,
        }),
{
}

/// A sender whose message was refused hears which operation failed. All others
/// hear that nothing did.
pub proof fn law_senders_hear_what_failed(operation: Operation)
    ensures
        next_step(operation, Outcome::Failed).report == Err::<(), SendError>(
            SendError::Send(operation),
        ),
        next_step(operation, Outcome::Sent) == (Next { disconnect: false, report: Ok(()) }),
        next_step(operation, Outcome::Skipped) == (Next { disconnect: false, report: Ok(()) }),
        next_step(operation, Outcome::TimedOut) == (Next { disconnect: true, report: Ok(()) }),
        next_step(Operation::Ecast, Outcome::Failed).disconnect,
        next_step(Operation::Blobcast, Outcome::Failed).disconnect,
        next_step(Operation::Ping, Outcome::Failed).disconnect,
        next_step(Operation::Pong, Outcome::Failed).disconnect,
        !next_step(Operation::Close, Outcome::Failed).disconnect,
        !next_step(Operation::Raw, Outcome::Failed).disconnect,
{
}

/// A number that a message comes with is kept and uses none up. One that it comes
/// without is the counter, which then moves on by one, and from the last number to
/// zero.
pub proof fn law_numbers_come_from_the_counter(counter: u64, requested: u64)
    ensures
        requested > 0 ==> number_given(counter, requested) == requested && counter_after(
            counter,
            requested,
        ) == counter,
        number_given(counter, 0) == counter,
        counter < 0xffff_ffff_ffff_ffff ==> counter_after(counter, 0) == counter + 1,
        counter == 0xffff_ffff_ffff_ffff ==> counter_after(counter, 0) == 0,
{
}

/// A client stays who it is exactly where it has become no other than by its
/// connection and its counter.
pub proof fn law_client_stays_the_same(before: Client, after: Client)
    ensures
        same_client(before, after) <==> before == (Client {
            connected: before.connected,
            pc: before.pc,
            ..after
        }),
{
}

/// What a message and an action are is what the values say: none stands for
/// another, and nothing of them is left out.
pub proof fn law_messages_are_what_they_say(
    text: String,
    data: Vec<u8>,
    code: u16,
    operation: Operation,
    message: Message,
    limit_secs: u64,
)
    ensures
        Message::Text(text)@ == MessageView::Text(text@),
        Message::Binary(data)@ == MessageView::Binary(data@),
        Message::Ping(data)@ == MessageView::Ping(data@),
        Message::Pong(data)@ == MessageView::Pong(data@),
        (Message::Close { code, reason: text })@ == (MessageView::Close { code, reason: text@ }),
        Message::BareClose@ == MessageView::BareClose,
        (Action::Send { operation, message, limit_secs })@ == (ActionView::Send {
            operation,
            message: message@,
            limit_secs,
        }),
        (Action::Skip { operation })@ == (ActionView::Skip { operation }),
{
}

} // verus!
