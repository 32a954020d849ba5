use crate::error::{ZFError, ZFResult};
use crate::message::share;
use crate::types::PortId;
use std::sync::Arc;
use vstd::prelude::*;
use vstd::string::*;

verus! {

/// `flume::Sender`, the sending end of a queue.
#[verifier::external_type_specification]
#[verifier::external_body]
#[verifier::reject_recursive_types(T)]
pub struct ExSender<T>(flume::Sender<T>);

/// `flume::Receiver`, the receiving end of a queue.
#[verifier::external_type_specification]
#[verifier::external_body]
#[verifier::reject_recursive_types(T)]
pub struct ExReceiver<T>(flume::Receiver<T>);

/// `flume::unbounded`: the two ends of a new queue without a bound.
pub assume_specification<T>[ flume::unbounded::<T> ]() -> (r: (
    flume::Sender<T>,
    flume::Receiver<T>,
));

/// `flume::bounded`: the two ends of a new queue that holds at most `cap` items.
pub assume_specification<T>[ flume::bounded::<T> ](cap: usize) -> (r: (
    flume::Sender<T>,
    flume::Receiver<T>,
));

/// `flume::Sender::send`, with the text that the error prints as with
/// `{:?}`. The call waits while a bounded queue is full. It fails only when
/// every receiver is gone, and the error then prints as `"SendError(..)"`,
/// quotation marks included.
#[verifier::external_body]
fn channel_send<T>(sender: &flume::Sender<T>, item: T) -> (r: Result<(), String>)
    ensures
        r matches Err(text) ==> text@ == "\"SendError(..)\""@,
{
    sender.send(item).map_err(|e| format!("{:?}", e))
}

/// `flume::Receiver::recv`, with the text that the error prints as with
/// `{:?}`. The call waits while the queue is empty. It fails only when the
/// queue is empty and every sender is gone, and the error then prints as
/// `Disconnected`.
#[verifier::external_body]
fn channel_recv<T>(receiver: &flume::Receiver<T>) -> (r: Result<T, String>)
    ensures
        r matches Err(text) ==> text@ == "Disconnected"@,
{
    receiver.recv().map_err(|e| format!("{:?}", e))
}

/// Why nothing could be taken from a queue without waiting.
pub enum TryRecvError {
    /// The queue was empty.
    Empty,
    /// The queue was empty and every sender is gone.
    Disconnected,
}

/// `flume::Receiver::try_recv`: the next item, if one is waiting.
#[verifier::external_body]
fn channel_try_recv<T>(receiver: &flume::Receiver<T>) -> (r: Result<T, TryRecvError>) {
    receiver.try_recv().map_err(
        |e|
            match e {
                flume::TryRecvError::Empty => TryRecvError::Empty,
                flume::TryRecvError::Disconnected => TryRecvError::Disconnected,
            },
    )
}

/// `flume::Sender::clone`: another handle to the same sending end.
#[verifier::external_body]
fn channel_sender_clone<T>(sender: &flume::Sender<T>) -> (r: flume::Sender<T>) {
    sender.clone()
}

/// `flume::Sender::is_disconnected`: whether every receiver is gone.
#[verifier::external_body]
fn channel_sender_disconnected<T>(sender: &flume::Sender<T>) -> (r: bool) {
    sender.is_disconnected()
}

/// `flume::Receiver::is_disconnected`: whether every sender is gone.
#[verifier::external_body]
fn channel_receiver_disconnected<T>(receiver: &flume::Receiver<T>) -> (r: bool) {
    receiver.is_disconnected()
}

impl ZFError {
    /// The error that stands for a failed attempt to take from a queue
    /// without waiting.
    pub fn from_try_recv(error: TryRecvError) -> (r: ZFError)
        ensures
            error is Empty ==> r == ZFError::Empty,
            error is Disconnected ==> r == ZFError::Disconnected,
    {
        match error {
            TryRecvError::Disconnected => ZFError::Disconnected,
            TryRecvError::Empty => ZFError::Empty,
        }
    }
}

/// The sending end of a link. It carries the name of the output port it is
/// bound to.
#[verifier::reject_recursive_types(T)]
pub struct LinkSender<T> {
    pub id: PortId,
    pub sender: flume::Sender<Arc<T>>,
}

/// The receiving end of a link. It carries the name of the input port it is
/// bound to, with which it tags whatever it hands out.
#[verifier::reject_recursive_types(T)]
pub struct LinkReceiver<T> {
    pub id: PortId,
    pub receiver: flume::Receiver<Arc<T>>,
}

impl<T> LinkReceiver<T> {
    /// What the receiving end hands out for what its queue gave: an item
    /// comes with the name of the input port, and a failure of the queue
    /// becomes a `RecvError` with the text of that failure.
    pub fn delivered(&self, outcome: Result<Arc<T>, String>) -> (r: ZFResult<(PortId, Arc<T>)>)
        ensures
            outcome matches Ok(item) ==> r == Ok::<(PortId, Arc<T>), ZFError>((self.id, item)),
            outcome matches Err(text) ==> r == Err::<(PortId, Arc<T>), ZFError>(
                ZFError::RecvError(text),
            ),
    {
        match outcome {
            Ok(item) => Ok((self.id.clone(), item)),
            Err(text) => Err(ZFError::RecvError(text)),
        }
    }

    /// Waits for the next item and returns it with the name of the input
    /// port. Fails with `RecvError` once the queue is empty and every sender
    /// is gone.
    pub fn recv(&self) -> (r: ZFResult<(PortId, Arc<T>)>)
        ensures
            r matches Ok(got) ==> got.0 == self.id,
            r matches Err(e) ==> (e matches ZFError::RecvError(text) && text@ == "Disconnected"@),
    {
        self.delivered(channel_recv(&self.receiver))
    }

    /// Returns the next item with the name of the input port, if one is
    /// waiting. Fails with `Empty` when none is, and with `Disconnected` when
    /// none will come.
    pub fn try_recv(&self) -> (r: ZFResult<(PortId, Arc<T>)>)
        ensures
            r matches Ok(got) ==> got.0 == self.id,
            r matches Err(e) ==> e == ZFError::Empty || e == ZFError::Disconnected,
    {
        match channel_try_recv(&self.receiver) {
            Ok(item) => Ok((self.id.clone(), item)),
            Err(e) => Err(ZFError::from_try_recv(e)),
        }
    }

    /// The name of the input port.
    pub fn id(&self) -> (r: PortId)
        ensures
            r == self.id,
    {
        self.id.clone()
    }

    /// Whether every sender is gone.
    pub fn is_disconnected(&self) -> bool {
        channel_receiver_disconnected(&self.receiver)
    }
}

impl<T> LinkSender<T> {
    /// What the sending end reports for what its queue said of a send: a
    /// failure of the queue becomes a `SendError` with the text of that
    /// failure.
    pub fn sent(outcome: Result<(), String>) -> (r: ZFResult<()>)
        ensures
            outcome is Ok ==> r == Ok::<(), ZFError>(()),
            outcome matches Err(text) ==> r == Err::<(), ZFError>(ZFError::SendError(text)),
    {
        match outcome {
            Ok(()) => Ok(()),
            Err(text) => Err(ZFError::SendError(text)),
        }
    }

    /// Puts an item into the link, waiting while a bounded link is full.
    /// Fails with `SendError` when every receiver is gone.
    pub fn send(&self, data: Arc<T>) -> (r: ZFResult<()>)
        ensures
            r matches Err(e) ==> (e matches ZFError::SendError(text) && text@
                == "\"SendError(..)\""@),
    {
        Self::sent(channel_send(&self.sender, data))
    }

    /// The name of the output port.
    pub fn id(&self) -> (r: PortId)
        ensures
            r == self.id,
    {
        self.id.clone()
    }

    /// Whether every receiver is gone.
    pub fn is_disconnected(&self) -> bool {
        channel_sender_disconnected(&self.sender)
    }
}

impl<T> Clone for LinkSender<T> {
    /// Another handle to the same sending end, bound to the same port.
    fn clone(&self) -> (r: Self)
        ensures
            r.id == self.id,
    {
        LinkSender { id: self.id.clone(), sender: channel_sender_clone(&self.sender) }
    }
}

/// Makes a link: a queue with one sending and one receiving end, bound to the
/// given output and input port. `None` asks for a queue without a bound,
/// `Some(n)` for one that holds at most `n` items.
pub fn link<T>(capacity: Option<usize>, send_id: PortId, recv_id: PortId) -> (r: (
    LinkSender<T>,
    LinkReceiver<T>,
))
    ensures
        r.0.id == send_id,
        r.1.id == recv_id,
{
    let (sender, receiver) = match capacity {
        None => flume::unbounded::<Arc<T>>(),
        Some(cap) => flume::bounded::<Arc<T>>(cap),
    };
    (LinkSender { id: send_id, sender }, LinkReceiver { id: recv_id, receiver })
}

} // verus!
