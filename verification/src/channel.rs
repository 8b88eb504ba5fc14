//! The delivery channel of a session: a bounded queue of `tokio`, of which the
//! room keeps the sending half and the listener the receiving half.

use tokio::sync::mpsc::{Receiver, Sender};
use vstd::prelude::*;
use vstd::string::*;

verus! {

/// The sending half of a bounded `tokio` channel. Opaque to the verifier.
#[verifier::external_type_specification]
#[verifier::external_body]
#[verifier::reject_recursive_types(T)]
pub struct ExSender<T>(Sender<T>);

/// The receiving half of a bounded `tokio` channel. Opaque to the verifier.
#[verifier::external_type_specification]
#[verifier::external_body]
#[verifier::reject_recursive_types(T)]
pub struct ExReceiver<T>(Receiver<T>);

/// How many messages may wait in a session's channel before sends to it fail.
pub const CHANNEL_CAPACITY: usize = 128;

/// One chat line as it travels to the listeners: who said it, and what.
pub struct ChatMessage {
    pub name: String,
    pub body: String,
}

/// A message as a listener's terminal shows it: the name, a colon, a space,
/// and the body.
pub open spec fn line_of(name: Seq<char>, body: Seq<char>) -> Seq<char> {
    name + seq![':', ' '] + body
}

impl ChatMessage {
    /// The message that says `body` in the name of `name`; both are copied
    /// as they are.
    pub fn new(name: &String, body: &String) -> (message: ChatMessage)
        ensures
            message.name == *name,
            message.body == *body,
    {
        ChatMessage { name: name.clone(), body: body.clone() }
    }

    /// The line that shows this message.
    pub fn to_line(&self) -> (line: String)
        ensures
            line@ == line_of(self.name@, self.body@),
    {
        proof {
            reveal_strlit(": ");
        }
        let line = self.name.clone().concat(": ").concat(self.body.as_str());
        assert(line@ =~= line_of(self.name@, self.body@));
        line
    }
}

/// What became of one session during a broadcast.
#[derive(Clone, Copy, Debug, PartialEq, Eq, Structural)]
pub enum Delivery {
    /// The session has no channel: nothing was attempted.
    Unattached,
    /// The message was queued on the session's channel.
    Delivered,
    /// The channel was closed or full: the session is to be removed.
    Failed,
}

/// Calls `tokio::sync::mpsc::channel` for a queue of `capacity` messages.
/// Nothing is claimed of the two halves; the precondition leaves out the
/// capacities on which `tokio` panics (zero, and more than a semaphore holds).
#[verifier::external_body]
pub(crate) fn open_channel(capacity: usize) -> (halves: (
    Sender<ChatMessage>,
    Receiver<ChatMessage>,
))
    requires
        0 < capacity <= usize::MAX / 8,
{
    tokio::sync::mpsc::channel(capacity)
}

/// Calls `Sender::try_send`, which never blocks, and reports whether the
/// message was queued. Whether it is depends on the receiver and on what
/// already waits in the queue, so nothing is claimed of the answer.
#[verifier::external_body]
pub(crate) fn try_deliver(channel: &Sender<ChatMessage>, message: ChatMessage) -> (queued: bool) {
    channel.try_send(message).is_ok()
}

} // verus!
