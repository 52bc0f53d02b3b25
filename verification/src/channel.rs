//! The channel over which the end of a rendering is reported.

use crossbeam_channel::{Receiver, SendError, Sender, TryRecvError};
use vstd::prelude::*;

verus! {

/// How many reports can wait to be picked up.
pub const CHANNEL_CAPACITY: usize = 1;

/// The sending end of a channel.
#[verifier::external_type_specification]
#[verifier::external_body]
#[verifier::reject_recursive_types(T)]
pub struct ExSender<T>(Sender<T>);

/// The receiving end of a channel.
#[verifier::external_type_specification]
#[verifier::external_body]
#[verifier::reject_recursive_types(T)]
pub struct ExReceiver<T>(Receiver<T>);

/// Why nothing was received.
#[verifier::external_type_specification]
#[verifier::external_body]
pub struct ExTryRecvError(TryRecvError);

/// Why nothing was sent.
#[verifier::external_type_specification]
#[verifier::external_body]
#[verifier::reject_recursive_types(T)]
pub struct ExSendError<T>(SendError<T>);

/// How many messages the channel of a sending end was made to hold.
pub uninterp spec fn sender_capacity(sender: Sender<()>) -> Option<usize>;

/// How many messages the channel of a receiving end was made to hold.
pub uninterp spec fn receiver_capacity(receiver: Receiver<()>) -> Option<usize>;

/// Whether two ends belong to one channel, so that what goes in at the one comes out at the
/// other.
pub uninterp spec fn linked(sender: Sender<()>, receiver: Receiver<()>) -> bool;

/// The replies that sending a message has brought at this very end, not at its clones, from
/// the first to the latest.
pub uninterp spec fn send_replies(sender: Sender<()>) -> Seq<Result<(), SendError<()>>>;

/// The replies that trying to receive a message has brought at this very end, not at its
/// clones, from the first to the latest.
pub uninterp spec fn try_recv_replies(receiver: Receiver<()>) -> Seq<Result<(), TryRecvError>>;

/// Calls `crossbeam_channel::bounded`. Claimed of it: both ends are new and belong to one
/// channel, which holds at most `capacity` messages. What waits in the channel at a time is
/// not stated, since clones of the ends can take part. The call panics where `capacity` is
/// too large to set up, so a capacity has to be small here.
#[verifier::external_body]
fn open_channel(capacity: usize) -> (r: (Sender<()>, Receiver<()>))
    requires
        capacity <= 1024,
    ensures
        sender_capacity(r.0) == Some(capacity),
        receiver_capacity(r.1) == Some(capacity),
        linked(r.0, r.1),
        send_replies(r.0).len() == 0,
        try_recv_replies(r.1).len() == 0,
{
    crossbeam_channel::bounded(capacity)
}

/// Calls `crossbeam_channel::Sender::clone`. Claimed of it: the clone is a new end that sends
/// into the same channel.
#[verifier::external_body]
fn clone_sender(sender: &Sender<()>) -> (r: Sender<()>)
    ensures
        sender_capacity(r) == sender_capacity(*sender),
        forall|receiver: Receiver<()>| #[trigger]
            linked(r, receiver) == linked(*sender, receiver),
        send_replies(r).len() == 0,
{
    sender.clone()
}

/// Calls `crossbeam_channel::Sender::send` once, which waits while the channel is full and
/// fails once the receiving end is gone. Claimed of it: the end has brought this one more
/// reply and still belongs to the same channel. Which reply comes depends on what other
/// threads do and is not stated.
#[verifier::external_body]
fn send_message(sender: &mut Sender<()>) -> (r: Result<(), SendError<()>>)
    ensures
        send_replies(*final(sender)) == send_replies(*old(sender)).push(r),
        sender_capacity(*final(sender)) == sender_capacity(*old(sender)),
        forall|receiver: Receiver<()>| #[trigger]
            linked(*final(sender), receiver) == linked(*old(sender), receiver),
{
    sender.send(())
}

/// Calls `crossbeam_channel::Receiver::try_recv` once, which takes a message out of the
/// channel if one waits there. Claimed of it: the end has brought this one more reply and
/// still belongs to the same channel. Which reply comes depends on what other threads do and
/// is not stated.
#[verifier::external_body]
fn try_receive_message(receiver: &mut Receiver<()>) -> (r: Result<(), TryRecvError>)
    ensures
        try_recv_replies(*final(receiver)) == try_recv_replies(*old(receiver)).push(r),
        receiver_capacity(*final(receiver)) == receiver_capacity(*old(receiver)),
        forall|sender: Sender<()>| #[trigger]
            linked(sender, *final(receiver)) == linked(sender, *old(receiver)),
{
    receiver.try_recv()
}

/// A report could not be sent, since nobody can receive it any more.
#[derive(Debug, Clone, Copy, PartialEq, Eq)]
pub struct ReceiverGone;

/// What a reply to sending a report means: that it was sent, or that it could not be.
pub open spec fn outcome(reply: Result<(), SendError<()>>) -> Result<(), ReceiverGone> {
    match reply {
        Ok(()) => Ok(()),
        Err(_) => Err(ReceiverGone),
    }
}

/// What a reply to sending a report means.
pub fn sent(reply: Result<(), SendError<()>>) -> (r: Result<(), ReceiverGone>)
    ensures
        r == outcome(reply),
        r is Ok <==> reply is Ok,
{
    match reply {
        Ok(()) => Ok(()),
        Err(_) => Err(ReceiverGone),
    }
}

/// Whether a reply brought a report. A channel that is empty brings none, nor does one
/// that nobody can send into any more.
pub fn received(reply: Result<(), TryRecvError>) -> (r: bool)
    ensures
        r == (reply is Ok),
{
    match reply {
        Ok(()) => true,
        Err(_) => false,
    }
}

/// The channel over which the end of a rendering is reported.
pub struct RenderingDoneChannel {
    pub sender: Sender<()>,
    pub receiver: Receiver<()>,
}

/// Reports the end of one rendering.
pub struct DoneNotifier {
    pub sender: Sender<()>,
}

impl RenderingDoneChannel {
    /// Both ends belong to one channel, which holds one report at a time.
    pub open spec fn well_formed(self) -> bool {
        &&& linked(self.sender, self.receiver)
        &&& sender_capacity(self.sender) == Some(CHANNEL_CAPACITY)
        &&& receiver_capacity(self.receiver) == Some(CHANNEL_CAPACITY)
    }

    /// The replies that trying to pick up a report has brought, from the first to the latest.
    pub open spec fn replies(self) -> Seq<Result<(), TryRecvError>> {
        try_recv_replies(self.receiver)
    }

    /// Opens a channel that holds one report at a time.
    pub fn new() -> (r: RenderingDoneChannel)
        ensures
            sender_capacity(r.sender) == Some(1usize),
            receiver_capacity(r.receiver) == Some(1usize),
            linked(r.sender, r.receiver),
            r.well_formed(),
            r.replies().len() == 0,
    {
        let (sender, receiver) = open_channel(CHANNEL_CAPACITY);
        RenderingDoneChannel { sender, receiver }
    }

    /// What reports the end of a rendering over this channel.
    pub fn notifier(&self) -> (r: DoneNotifier)
        ensures
            sender_capacity(r.sender) == sender_capacity(self.sender),
            forall|receiver: Receiver<()>| #[trigger]
                linked(r.sender, receiver) == linked(self.sender, receiver),
            self.well_formed() ==> linked(r.sender, self.receiver),
            r.replies().len() == 0,
    {
        DoneNotifier { sender: clone_sender(&self.sender) }
    }

    /// Tries once to pick up a report. The channel decides whether one waits.
    pub(crate) fn poll(&mut self) -> (r: bool)
        ensures
            exists|reply: Result<(), TryRecvError>|
                final(self).replies() == #[trigger] old(self).replies().push(reply) && r == (
                reply is Ok),
            try_recv_replies(final(self).receiver).len() == try_recv_replies(
                old(self).receiver,
            ).len() + 1,
            final(self).sender == old(self).sender,
            old(self).well_formed() ==> final(self).well_formed(),
    {
        let reply = try_receive_message(&mut self.receiver);
        assert(self.replies() == old(self).replies().push(reply));
        received(reply)
    }
}

impl DoneNotifier {
    /// The replies that sending a report has brought, from the first to the latest.
    pub open spec fn replies(self) -> Seq<Result<(), SendError<()>>> {
        send_replies(self.sender)
    }

    /// Sends the report, once. Waits until there is room for it in the channel. Fails only
    /// where nobody can receive it any more, which the channel decides.
    pub fn notify(&mut self) -> (r: Result<(), ReceiverGone>)
        ensures
            exists|reply: Result<(), SendError<()>>|
                final(self).replies() == #[trigger] old(self).replies().push(reply) && r
                    == outcome(reply) && (r is Ok <==> reply is Ok),
            send_replies(final(self).sender).len() == send_replies(old(self).sender).len() + 1,
            sender_capacity(final(self).sender) == sender_capacity(old(self).sender),
            forall|receiver: Receiver<()>| #[trigger]
                linked(final(self).sender, receiver) == linked(old(self).sender, receiver),
    {
        let reply = send_message(&mut self.sender);
        assert(self.replies() == old(self).replies().push(reply));
        sent(reply)
    }
}

}
