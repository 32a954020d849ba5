use crate::deadline::{DeadlineView, E2EDeadline, E2EDeadlineMiss, MissView};
use crate::time::{Timestamp, TimestampView};
use crate::types::views;
use std::sync::Arc;
use vstd::prelude::*;

verus! {

/// `Arc::clone`: another handle to the same shared value.
#[verifier::external_body]
pub(crate) fn share<T>(value: &Arc<T>) -> (r: Arc<T>)
    ensures
        r == *value,
{
    Arc::clone(value)
}

/// What a data message stands for.
pub struct DataView<P> {
    pub data: P,
    pub timestamp: TimestampView,
    pub deadlines: Seq<DeadlineView>,
    pub missed: Seq<MissView>,
}

/// A payload on its way through the graph, with the timestamp of its
/// emission, the end-to-end deadlines that ride on it and the misses that
/// were found on the way. The payload is shared, never changed.
#[derive(Debug, PartialEq)]
pub struct DataMessage<P> {
    pub data: Arc<P>,
    pub timestamp: Timestamp,
    pub end_to_end_deadlines: Vec<E2EDeadline>,
    pub missed_end_to_end_deadlines: Vec<E2EDeadlineMiss>,
}

impl<P> View for DataMessage<P> {
    type V = DataView<P>;

    open spec fn view(&self) -> DataView<P> {
        DataView {
            data: *self.data,
            timestamp: self.timestamp@,
            deadlines: views(self.end_to_end_deadlines@),
            missed: views(self.missed_end_to_end_deadlines@),
        }
    }
}

impl<P> Clone for DataMessage<P> {
    fn clone(&self) -> (r: Self)
        ensures
            r@ == self@,
    {
        let deadlines = self.end_to_end_deadlines.clone();
        let missed = self.missed_end_to_end_deadlines.clone();
        assert(views(deadlines@) =~= views(self.end_to_end_deadlines@));
        assert(views(missed@) =~= views(self.missed_end_to_end_deadlines@));
        DataMessage {
            data: share(&self.data),
            timestamp: self.timestamp.clone(),
            end_to_end_deadlines: deadlines,
            missed_end_to_end_deadlines: missed,
        }
    }
}

impl<P> DataMessage<P> {
    /// A message as it leaves its producer: no miss has been found yet.
    pub fn new(data: Arc<P>, timestamp: Timestamp, end_to_end_deadlines: Vec<E2EDeadline>) -> (r:
        Self)
        ensures
            r@ == (DataView {
                data: *data,
                timestamp: timestamp@,
                deadlines: views(end_to_end_deadlines@),
                missed: Seq::<MissView>::empty(),
            }),
    {
        let r = DataMessage {
            data,
            timestamp,
            end_to_end_deadlines,
            missed_end_to_end_deadlines: Vec::new(),
        };
        assert(views(r.missed_end_to_end_deadlines@) =~= Seq::<MissView>::empty());
        r
    }

    /// The payload.
    pub fn get_inner_data(&self) -> (r: &Arc<P>)
        ensures
            **r == self@.data,
    {
        &self.data
    }
}

/// A message of the runtime to itself. Nodes pass these on; none acts on one.
#[derive(Debug, PartialEq, Eq)]
pub enum ControlMessage {
    /// A recording of the stream begins with this message.
    RecordingStart(Timestamp),
    /// A recording of the stream ends with this message.
    RecordingStop(Timestamp),
}

/// What a control message stands for.
pub enum ControlView {
    RecordingStart(TimestampView),
    RecordingStop(TimestampView),
}

impl View for ControlMessage {
    type V = ControlView;

    open spec fn view(&self) -> ControlView {
        match self {
            ControlMessage::RecordingStart(t) => ControlView::RecordingStart(t@),
            ControlMessage::RecordingStop(t) => ControlView::RecordingStop(t@),
        }
    }
}

impl Clone for ControlMessage {
    fn clone(&self) -> (r: Self)
        ensures
            r@ == self@,
    {
        match self {
            ControlMessage::RecordingStart(t) => ControlMessage::RecordingStart(t.clone()),
            ControlMessage::RecordingStop(t) => ControlMessage::RecordingStop(t.clone()),
        }
    }
}

/// What an envelope stands for.
pub enum MessageView<P> {
    Data(DataView<P>),
    Control(ControlView),
}

/// The envelope that travels through a link.
#[derive(Debug, PartialEq)]
pub enum Message<P> {
    Data(DataMessage<P>),
    Control(ControlMessage),
}

impl<P> View for Message<P> {
    type V = MessageView<P>;

    open spec fn view(&self) -> MessageView<P> {
        match self {
            Message::Data(d) => MessageView::Data(d@),
            Message::Control(c) => MessageView::Control(c@),
        }
    }
}

impl<P> Clone for Message<P> {
    fn clone(&self) -> (r: Self)
        ensures
            r@ == self@,
    {
        match self {
            Message::Data(d) => Message::Data(d.clone()),
            Message::Control(c) => Message::Control(c.clone()),
        }
    }
}

} // verus!
