use vstd::prelude::*;

use futures::channel::mpsc::{Receiver, Sender};

verus! {

#[verifier::external_type_specification]
#[verifier::external_body]
#[verifier::reject_recursive_types(T)]
pub struct ExSender<T>(Sender<T>);

#[verifier::external_type_specification]
#[verifier::external_body]
#[verifier::reject_recursive_types(T)]
pub struct ExReceiver<T>(Receiver<T>);

/// The buffer size that the channel of this receiving end was opened with.
pub uninterp spec fn receiver_buffer(receiver: Receiver<String>) -> nat;

/// Whether this sending end feeds this receiving end: both belong to one
/// channel (they share its inner state, as `Sender::is_connected_to` tests).
pub uninterp spec fn ends_connected(sender: Sender<String>, receiver: Receiver<String>) -> bool;

/// Buffer size of the channel that carries incoming protocol messages.
pub const CHANNEL_BUFFER: usize = 50;

/// Opens a bounded channel of texts with `futures::channel::mpsc::channel`.
/// Claimed: the two ends belong to one channel (both hold the same inner
/// state), and the channel is made with the buffer size given (`BoundedInner`
/// keeps `buffer` as passed). Nothing else is claimed of the two ends; the
/// call panics for a buffer of `usize::MAX / 4` or more, which `requires`
/// leaves out.
#[verifier::external_body]
fn open_channel(buffer: usize) -> (res: (Sender<String>, Receiver<String>))
    requires
        buffer < usize::MAX / 4,
    ensures
        ends_connected(res.0, res.1),
        receiver_buffer(res.1) == buffer,
{
    futures::channel::mpsc::channel::<String>(buffer)
}

/// Another sender of the same channel (`Sender::clone`). Claimed: it feeds
/// exactly the receiving ends that `sender` feeds (the clone shares the inner
/// state of the channel). The call panics when `usize::MAX / 4` senders of one channel are
/// alive at once; no clause can state that count, which is left unsaid (this
/// library keeps at most two senders of a channel alive).
#[verifier::external_body]
fn clone_sender(sender: &Sender<String>) -> (res: Sender<String>)
    ensures
        forall|receiver: Receiver<String>|
            #[trigger] ends_connected(res, receiver) == ends_connected(*sender, receiver),
{
    sender.clone()
}

/// Tries to queue `message` with `Sender::try_send`. Whether it is accepted
/// depends on the receiving side and is not claimed; a refused message is
/// handed back unchanged, as every error path of `try_send` does.
#[verifier::external_body]
fn try_send_text(sender: &mut Sender<String>, message: String) -> (res: Result<(), String>)
    ensures
        res matches Err(back) ==> back@ == message@,
{
    match sender.try_send(message) {
        Ok(()) => Ok(()),
        Err(refused) => Err(refused.into_inner()),
    }
}

/// Why an incoming message could not be queued.
#[derive(Debug, PartialEq, Eq)]
pub enum DispatchError {
    /// The channel refused the message; it is handed back.
    Rejected(String),
}

/// The channel through which the host application feeds incoming protocol
/// messages to the computation that runs in the background.
pub struct Channel {
    sender: Box<Sender<String>>,
    receiver: Box<Receiver<String>>,
}

impl Channel {
    /// The sending end that the host application feeds.
    pub closed spec fn sender_end(&self) -> Sender<String> {
        *self.sender
    }

    /// The receiving end that the next computation will listen on.
    pub closed spec fn receiver_end(&self) -> Receiver<String> {
        *self.receiver
    }

    /// Hands the receiving end to a computation that starts now, and puts the
    /// receiving end of a fresh channel in its place. The sending end stays,
    /// so it still feeds the returned receiving end when it fed it before.
    pub fn hand_off_receiver(&mut self) -> (res: Box<Receiver<String>>)
        ensures
            *res == old(self).receiver_end(),
            final(self).sender_end() == old(self).sender_end(),
            ends_connected(old(self).sender_end(), old(self).receiver_end()) ==> ends_connected(
                final(self).sender_end(),
                *res,
            ),
            receiver_buffer(final(self).receiver_end()) == CHANNEL_BUFFER,
    {
        let (_unused_sender, fresh) = open_channel(CHANNEL_BUFFER);
        let mut previous = Box::new(fresh);
        std::mem::swap(&mut previous, &mut self.receiver);
        previous
    }
}

/// A fresh channel with a buffer of `CHANNEL_BUFFER` messages, whose
/// sending end feeds its receiving end.
pub fn create_channel() -> (res: Channel)
    ensures
        ends_connected(res.sender_end(), res.receiver_end()),
        receiver_buffer(res.receiver_end()) == CHANNEL_BUFFER,
{
    let (sender, receiver) = open_channel(CHANNEL_BUFFER);
    Channel { sender: Box::new(sender), receiver: Box::new(receiver) }
}

/// What `dispatch_incoming` reports for the outcome of its send: success
/// for an accepted message, and the refused message handed back otherwise.
pub open spec fn dispatch_outcome_spec(sent: Result<(), String>) -> Result<(), DispatchError> {
    match sent {
        Ok(()) => Ok(()),
        Err(back) => Err(DispatchError::Rejected(back)),
    }
}

/// Maps the outcome of sending a dispatched message to what
/// `dispatch_incoming` reports.
pub fn dispatch_outcome(sent: Result<(), String>) -> (res: Result<(), DispatchError>)
    ensures
        res == dispatch_outcome_spec(sent),
{
    match sent {
        Ok(()) => Ok(()),
        Err(back) => Err(DispatchError::Rejected(back)),
    }
}

/// Queues an incoming message for the computation, through a fresh sender of
/// the channel, which feeds the same receiving ends as the channel's own
/// sending end. The channel itself is left as it is; a refused message comes
/// back in the error.
pub fn dispatch_incoming(channel: &Channel, message: String) -> (res: Result<(), DispatchError>)
    ensures
        res matches Err(DispatchError::Rejected(back)) ==> back@ == message@,
{
    let mut sender = clone_sender(&channel.sender);
    let sent = try_send_text(&mut sender, message);
    dispatch_outcome(sent)
}

} // verus!
