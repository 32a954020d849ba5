use crate::clock::{elapsed, elapsed_between};
use crate::context::InstanceContext;
use crate::error::{ZFError, ZFResult};
use crate::link::{LinkReceiver, LinkSender};
use crate::message::{ControlMessage, Message};
use crate::runners::{bound_to, broadcast, round_over, RunnerKind};
use crate::time::{Duration, Timestamp, TimestampView};
use crate::types::{NodeId, PortDescriptor, PortId, PortType};
use std::sync::Arc;
use vstd::prelude::*;

verus! {

/// What a replay does with one envelope of a recording: how long it waits,
/// and what it then sends, if anything.
#[derive(Debug, PartialEq)]
pub struct Replayed<P> {
    pub wait: Duration,
    pub message: Option<Arc<Message<P>>>,
}

/// The runner that plays a recording of an output of a source back into the
/// links of that output.
#[verifier::reject_recursive_types(P)]
pub struct JanuReplay<P> {
    id: NodeId,
    context: InstanceContext,
    node_id: NodeId,
    port_id: PortId,
    port_type: PortType,
    links: Vec<LinkSender<Message<P>>>,
    resource_name: String,
    is_running: bool,
    previous: Option<Timestamp>,
}

/// The time a replay lets pass before an envelope with the clock time `time`:
/// what passed in the recording since the envelope before it, and nothing
/// before the first.
pub open spec fn gap(previous: Option<TimestampView>, time: u64) -> Duration {
    match previous {
        Some(p) => elapsed_between(p.time, time),
        None => Duration { secs: 0, nanos: 0 },
    }
}

impl<P> JanuReplay<P> {
    /// The name the replay runs under.
    pub closed spec fn id(&self) -> Seq<char> {
        self.id@
    }

    /// The context of the instance the replay belongs to.
    pub closed spec fn context(&self) -> InstanceContext {
        self.context
    }

    /// The source whose output is played back.
    pub closed spec fn node_id(&self) -> Seq<char> {
        self.node_id@
    }

    /// The output that is played back, with its type.
    pub closed spec fn port(&self) -> PortDescriptor {
        PortDescriptor { port_id: self.port_id, port_type: self.port_type }
    }

    /// The recording that is played back.
    pub closed spec fn resource_name(&self) -> Seq<char> {
        self.resource_name@
    }

    /// The sending ends of the links that the replay feeds.
    pub closed spec fn links(&self) -> Seq<LinkSender<Message<P>>> {
        self.links@
    }

    /// Whether the replay's loop is meant to go on.
    pub closed spec fn running(&self) -> bool {
        self.is_running
    }

    /// The timestamp of the envelope that was played back last.
    pub closed spec fn previous(&self) -> Option<TimestampView> {
        match self.previous {
            Some(t) => Some(t@),
            None => None,
        }
    }

    /// Everything about the replay but whether it runs, how far it has come
    /// and which links it holds.
    pub open spec fn same_node(&self, other: &Self) -> bool {
        &&& self.id() == other.id()
        &&& self.context() == other.context()
        &&& self.node_id() == other.node_id()
        &&& self.port() == other.port()
        &&& self.resource_name() == other.resource_name()
    }

    /// Makes the runner that plays the recording `resource_name` of the
    /// output `port_id` of the source `node_id` back into `links`. It starts
    /// out idle, at the beginning of the recording.
    pub fn try_new(
        id: NodeId,
        context: InstanceContext,
        node_id: NodeId,
        port_id: PortId,
        port_type: PortType,
        links: Vec<LinkSender<Message<P>>>,
        resource_name: String,
    ) -> (r: ZFResult<Self>)
        ensures
            r matches Ok(runner) && {
                &&& runner.id() == id@
                &&& runner.context() == context
                &&& runner.node_id() == node_id@
                &&& runner.port() == (PortDescriptor { port_id, port_type })
                &&& runner.resource_name() == resource_name@
                &&& runner.links() == links@
                &&& !runner.running()
                &&& runner.previous() is None
            },
    {
        Ok(
            JanuReplay {
                id,
                context,
                node_id,
                port_id,
                port_type,
                links,
                resource_name,
                is_running: false,
                previous: None,
            },
        )
    }

    /// The recording that is played back.
    pub fn resource(&self) -> (r: &String)
        ensures
            r@ == self.resource_name(),
    {
        &self.resource_name
    }

    /// Takes the next envelope of the recording and says what to do with it.
    ///
    /// A data envelope is sent on as it was recorded, after as much time as
    /// lay between it and the envelope before it in the recording; the first
    /// envelope is not waited for. The mark at the beginning of a recording
    /// is not sent and not waited for; the mark at its end is waited for and
    /// not sent. Each envelope becomes the one that the next is measured from.
    pub fn iteration(&mut self, recorded: Message<P>) -> (r: Replayed<P>)
        ensures
            final(self).same_node(old(self)),
            final(self).links() == old(self).links(),
            final(self).running() == old(self).running(),
            recorded matches Message::Data(d) ==> {
                &&& r.wait == gap(old(self).previous(), d.timestamp.time)
                &&& r.message matches Some(m)
                &&& *m == recorded
                &&& final(self).previous() == Some(d.timestamp@)
            },
            recorded matches Message::Control(ControlMessage::RecordingStart(t)) ==> {
                &&& r.wait == (Duration { secs: 0, nanos: 0 })
                &&& r.message is None
                &&& final(self).previous() == Some(t@)
            },
            recorded matches Message::Control(ControlMessage::RecordingStop(t)) ==> {
                &&& r.wait == gap(old(self).previous(), t.time)
                &&& r.message is None
                &&& final(self).previous() == Some(t@)
            },
    {
        let (wait, at, send) = match &recorded {
            Message::Data(d) => (self.wait_for(&d.timestamp), d.timestamp.clone(), true),
            Message::Control(ControlMessage::RecordingStart(t)) => (
                Duration { secs: 0, nanos: 0 },
                t.clone(),
                false,
            ),
            Message::Control(ControlMessage::RecordingStop(t)) => (
                self.wait_for(t),
                t.clone(),
                false,
            ),
        };
        self.previous = Some(at);
        let message = if send {
            Some(Arc::new(recorded))
        } else {
            None
        };
        Replayed { wait, message }
    }

    fn wait_for(&self, next: &Timestamp) -> (wait: Duration)
        ensures
            wait == gap(self.previous(), next.time),
    {
        match &self.previous {
            Some(p) => elapsed(p, next),
            None => Duration { secs: 0, nanos: 0 },
        }
    }

    /// Sends an envelope over every link of the output that is played
    /// back. The round fails, with `Disconnected`, exactly when there are such
    /// links and every one of them has lost its receiver. Otherwise the number
    /// of links that took the envelope is returned: at least one and at most
    /// all when there are links, none when there is no link.
    pub fn send(&self, message: &Arc<Message<P>>) -> (r: ZFResult<usize>)
        ensures
            round_over(r, bound_to(self.links(), self.port().port_id@).len()),
    {
        broadcast(&self.links, &self.port_id, message)
    }

    /// Marks the replay as running.
    pub fn start(&mut self)
        ensures
            final(self).running(),
            final(self).same_node(old(self)),
            final(self).links() == old(self).links(),
            final(self).previous() == old(self).previous(),
    {
        self.is_running = true;
    }

    /// Asks the replay's loop to end after the pass it is in.
    pub fn stop(&mut self)
        ensures
            !final(self).running(),
            final(self).same_node(old(self)),
            final(self).links() == old(self).links(),
            final(self).previous() == old(self).previous(),
    {
        self.is_running = false;
    }

    pub fn is_running(&self) -> (r: bool)
        ensures
            r == self.running(),
    {
        self.is_running
    }

    /// Settles one pass of the replay's loop: a pass that failed stops the
    /// replay, and the failure is what the loop ends with.
    pub fn after_iteration<T>(&mut self, outcome: ZFResult<T>) -> (r: ZFResult<T>)
        ensures
            r == outcome,
            outcome is Ok ==> final(self).running() == old(self).running(),
            outcome is Err ==> !final(self).running(),
            final(self).same_node(old(self)),
            final(self).links() == old(self).links(),
            final(self).previous() == old(self).previous(),
    {
        if outcome.is_err() {
            self.is_running = false;
        }
        outcome
    }

    pub fn get_id(&self) -> (r: NodeId)
        ensures
            r@ == self.id(),
    {
        self.id.clone()
    }

    pub fn get_kind(&self) -> (r: RunnerKind)
        ensures
            r == RunnerKind::Replay,
    {
        RunnerKind::Replay
    }

    /// A replay has no inputs: the receiving end is refused.
    pub fn add_input(&mut self, _input: LinkReceiver<Message<P>>) -> (r: ZFResult<()>)
        ensures
            r == Err::<(), ZFError>(ZFError::SourceDoNotHaveInputs),
            *final(self) == *old(self),
    {
        Err(ZFError::SourceDoNotHaveInputs)
    }

    /// Gives the replay one more link to feed.
    pub fn add_output(&mut self, output: LinkSender<Message<P>>) -> (r: ZFResult<()>)
        ensures
            r is Ok,
            final(self).links() == old(self).links().push(output),
            final(self).same_node(old(self)),
            final(self).running() == old(self).running(),
            final(self).previous() == old(self).previous(),
    {
        self.links.push(output);
        Ok(())
    }

    /// A replay has no input ports.
    pub fn get_inputs(&self) -> (r: Vec<PortDescriptor>)
        ensures
            r@.len() == 0,
    {
        Vec::new()
    }

    /// The output that is played back, as the only entry.
    pub fn get_outputs(&self) -> (r: Vec<PortDescriptor>)
        ensures
            r@ == seq![self.port()],
    {
        let mut outputs = Vec::with_capacity(1);
        outputs.push(
            PortDescriptor { port_id: self.port_id.clone(), port_type: self.port_type.clone() },
        );
        outputs
    }

    /// Handles to the sending ends of the links that the replay feeds, in
    /// their order, each bound to the port of the end it was made from.
    pub fn get_outputs_links(&self) -> (r: Vec<LinkSender<Message<P>>>)
        ensures
            r@.len() == self.links().len(),
            forall|i: int| 0 <= i < r@.len() ==> (#[trigger] r@[i]).id == self.links()[i].id,
    {
        let mut out: Vec<LinkSender<Message<P>>> = Vec::new();
        let mut i: usize = 0;
        while i < self.links.len()
            invariant
                i <= self.links.len(),
                out@.len() == i,
                forall|j: int| 0 <= j < i ==> (#[trigger] out@[j]).id == self.links@[j].id,
            decreases self.links.len() - i,
        {
            out.push(self.links[i].clone());
            i += 1;
        }
        out
    }

    /// A replay has no receiving ends.
    pub fn take_input_links(&mut self) -> (r: Vec<LinkReceiver<Message<P>>>)
        ensures
            r@.len() == 0,
            *final(self) == *old(self),
    {
        Vec::new()
    }

    /// What a replay sends cannot be recorded again.
    pub fn start_recording(&self) -> (r: ZFResult<String>)
        ensures
            r == Err::<String, ZFError>(ZFError::Unsupported),
    {
        Err(ZFError::Unsupported)
    }

    /// What a replay sends cannot be recorded again.
    pub fn stop_recording(&self) -> (r: ZFResult<String>)
        ensures
            r == Err::<String, ZFError>(ZFError::Unsupported),
    {
        Err(ZFError::Unsupported)
    }

    pub fn is_recording(&self) -> (r: bool)
        ensures
            !r,
    {
        false
    }
}

} // verus!
