use crate::clock::Clock;
use crate::context::InstanceContext;
use crate::deadline::E2EDeadlineRecord;
use crate::error::{ZFError, ZFResult};
use crate::io::{receivers_wf, OperatorIO};
use crate::link::{LinkReceiver, LinkSender};
use crate::message::Message;
use crate::runners::{receive_data, taken_in, Received, RunnerKind};
use crate::types::{NodeId, PortDescriptor, PortId};
use vstd::prelude::*;
use vstd::string::*;

verus! {

/// A sink as the graph describes it: its name, its one input port, and the
/// end-to-end deadlines that end at it.
#[derive(Debug, PartialEq, Eq)]
pub struct SinkLoaded {
    pub id: NodeId,
    pub input: PortDescriptor,
    pub end_to_end_deadlines: Vec<E2EDeadlineRecord>,
}

/// The text of the error for a sink whose input port has no link.
pub open spec fn missing_sink_link(port: Seq<char>, sink: Seq<char>) -> Seq<char> {
    "Missing link for port < "@ + port + " > for Sink: < "@ + sink + " >."@
}

/// The runner of a sink: one input port, fed by one link.
#[verifier::reject_recursive_types(P)]
pub struct SinkRunner<P> {
    id: NodeId,
    context: InstanceContext,
    input: PortDescriptor,
    link: Option<LinkReceiver<Message<P>>>,
    end_to_end_deadlines: Vec<E2EDeadlineRecord>,
    is_running: bool,
}

impl<P> SinkRunner<P> {
    /// The sink's name.
    pub closed spec fn id(&self) -> Seq<char> {
        self.id@
    }

    /// The sink's input port.
    pub closed spec fn input(&self) -> PortDescriptor {
        self.input
    }

    /// Whether the sink holds the receiving end of its link.
    pub closed spec fn has_link(&self) -> bool {
        self.link is Some
    }

    /// The input port that the held receiving end is bound to.
    pub closed spec fn link_id(&self) -> Seq<char>
        recommends
            self.has_link(),
    {
        self.link->0.id@
    }

    /// Whether the sink's loop is meant to go on.
    pub closed spec fn running(&self) -> bool {
        self.is_running
    }

    /// The context of the instance the sink belongs to.
    pub closed spec fn context(&self) -> InstanceContext {
        self.context
    }

    /// Makes the runner of a sink from the sink's description and the link
    /// ends that the wiring has set aside for it. The runner takes the
    /// receiving end bound to the sink's input port and starts out idle. When
    /// there is no such end, `MissingOutput` is returned.
    pub fn try_new(context: InstanceContext, sink: SinkLoaded, io: OperatorIO<P>) -> (r: ZFResult<
        Self,
    >)
        requires
            io.wf(),
        ensures
            r is Ok <==> io.input_ids().contains(sink.input.port_id@),
            r matches Ok(runner) ==> {
                &&& runner.id() == sink.id@
                &&& runner.input() == sink.input
                &&& runner.context() == context
                &&& runner.has_link()
                &&& runner.link_id() == sink.input.port_id@
                &&& !runner.running()
            },
            r matches Err(e) ==> (e matches ZFError::MissingOutput(text) && text@
                == missing_sink_link(sink.input.port_id@, sink.id@)),
    {
        let (mut inputs, _) = io.take();
        let port_id = sink.input.port_id.clone();
        let ghost held = inputs;
        match inputs.remove(&port_id) {
            Some(link) => {
                proof {
                    let i = held.keys().index_of(port_id@);
                    assert(held.keys()[i] == port_id@);
                    assert(held.values()[i].id@ == held.keys()[i]);
                }
                Ok(
                    SinkRunner {
                        id: sink.id,
                        context,
                        input: sink.input,
                        link: Some(link),
                        end_to_end_deadlines: sink.end_to_end_deadlines,
                        is_running: false,
                    },
                )
            },
            None => {
                let mut text = String::from_str("Missing link for port < ");
                text.append(port_id.as_str());
                text.append(" > for Sink: < ");
                text.append(sink.id.as_str());
                text.append(" >.");
                Err(ZFError::MissingOutput(text))
            },
        }
    }

    /// Marks the sink as running.
    pub fn start(&mut self)
        ensures
            final(self).running(),
            final(self).id() == old(self).id(),
            final(self).input() == old(self).input(),
            final(self).context() == old(self).context(),
            final(self).has_link() == old(self).has_link(),
            final(self).has_link() ==> final(self).link_id() == old(self).link_id(),
    {
        self.is_running = true;
    }

    /// Takes in one envelope that the sink's link has delivered at the input
    /// `port_id` and returns what is to be handed to the sink.
    ///
    /// A control message is refused with `Unimplemented`, and the clock is
    /// left alone. A data message is taken in at this input: the clock is
    /// advanced with its timestamp, and each of its deadlines that ends here
    /// and has run out by the time of arrival is added to its misses. When
    /// the clock has run out of timestamps, the data message is refused with
    /// `InvalidState`.
    pub fn iteration(&self, clock: &mut Clock, port_id: &PortId, message: &Message<P>) -> (r:
        ZFResult<Received<P>>)
        requires
            old(clock).wf(),
        ensures
            final(clock).wf(),
            final(clock).id() == old(clock).id(),
            message is Control ==> r == Err::<Received<P>, ZFError>(ZFError::Unimplemented)
                && final(clock).time() == old(clock).time(),
            message is Data && old(clock).time() >= u64::MAX - 1 ==> r == Err::<
                Received<P>,
                ZFError,
            >(ZFError::InvalidState) && final(clock).time() == old(clock).time(),
            message is Data && old(clock).time() < u64::MAX - 1 ==> {
                &&& message matches Message::Data(data)
                &&& r matches Ok(got)
                &&& old(clock).ticked(data.timestamp@, got.clock_updated, got.now@, *final(clock))
                &&& got.message@ == taken_in(data@, self.id(), port_id@, got.now.time)
            },
    {
        match message {
            Message::Data(data_message) => receive_data(clock, &self.id, port_id, data_message),
            Message::Control(_) => Err(ZFError::Unimplemented),
        }
    }

    /// Settles one pass of the sink's loop: a pass that failed stops the
    /// sink, and the failure is what the loop ends with.
    pub fn after_iteration<T>(&mut self, outcome: ZFResult<T>) -> (r: ZFResult<T>)
        ensures
            r == outcome,
            outcome is Ok ==> final(self).running() == old(self).running(),
            outcome is Err ==> !final(self).running(),
            final(self).id() == old(self).id(),
            final(self).input() == old(self).input(),
            final(self).context() == old(self).context(),
            final(self).has_link() == old(self).has_link(),
            final(self).has_link() ==> final(self).link_id() == old(self).link_id(),
    {
        if outcome.is_err() {
            self.is_running = false;
        }
        outcome
    }

    pub fn get_id(&self) -> (r: NodeId)
        ensures
            r@ == self.id(),
    {
        self.id.clone()
    }

    pub fn get_kind(&self) -> (r: RunnerKind)
        ensures
            r == RunnerKind::Sink,
    {
        RunnerKind::Sink
    }

    /// Gives the sink a receiving end, in place of the one it may hold.
    pub fn add_input(&mut self, input: LinkReceiver<Message<P>>) -> (r: ZFResult<()>)
        ensures
            r is Ok,
            final(self).has_link(),
            final(self).link_id() == input.id@,
            final(self).id() == old(self).id(),
            final(self).input() == old(self).input(),
            final(self).context() == old(self).context(),
            final(self).running() == old(self).running(),
    {
        self.link = Some(input);
        Ok(())
    }

    /// A sink has no outputs: the sending end is refused.
    pub fn add_output(&mut self, _output: LinkSender<Message<P>>) -> (r: ZFResult<()>)
        ensures
            r == Err::<(), ZFError>(ZFError::SinkDoNotHaveOutputs),
            *final(self) == *old(self),
    {
        Err(ZFError::SinkDoNotHaveOutputs)
    }

    /// The sink's input port, as the only entry.
    pub fn get_inputs(&self) -> (r: Vec<PortDescriptor>)
        ensures
            r@ == seq![self.input()],
    {
        let mut inputs = Vec::with_capacity(1);
        inputs.push(self.input.clone());
        inputs
    }

    /// A sink has no output ports.
    pub fn get_outputs(&self) -> (r: Vec<PortDescriptor>)
        ensures
            r@.len() == 0,
    {
        Vec::new()
    }

    /// A sink has no sending ends.
    pub fn get_outputs_links(&self) -> (r: Vec<LinkSender<Message<P>>>)
        ensures
            r@.len() == 0,
    {
        Vec::new()
    }

    /// Hands out the receiving end, if the sink holds one, and leaves the
    /// sink without.
    pub fn take_input_links(&mut self) -> (r: Vec<LinkReceiver<Message<P>>>)
        ensures
            !final(self).has_link(),
            old(self).has_link() ==> r@.len() == 1 && r@[0].id@ == old(self).link_id(),
            !old(self).has_link() ==> r@.len() == 0,
            final(self).id() == old(self).id(),
            final(self).input() == old(self).input(),
            final(self).context() == old(self).context(),
            final(self).running() == old(self).running(),
    {
        let mut inputs = Vec::new();
        if let Some(link) = self.link.take() {
            inputs.push(link);
        }
        inputs
    }

    /// What a sink takes in cannot be recorded.
    pub fn start_recording(&self) -> (r: ZFResult<String>)
        ensures
            r == Err::<String, ZFError>(ZFError::Unsupported),
    {
        Err(ZFError::Unsupported)
    }

    /// What a sink takes in cannot be recorded.
    pub fn stop_recording(&self) -> (r: ZFResult<String>)
        ensures
            r == Err::<String, ZFError>(ZFError::Unsupported),
    {
        Err(ZFError::Unsupported)
    }

    pub fn is_recording(&self) -> (r: bool)
        ensures
            !r,
    {
        false
    }

    pub fn is_running(&self) -> (r: bool)
        ensures
            r == self.running(),
    {
        self.is_running
    }

    /// Asks the sink's loop to end after the pass it is in.
    pub fn stop(&mut self)
        ensures
            !final(self).running(),
            final(self).id() == old(self).id(),
            final(self).input() == old(self).input(),
            final(self).context() == old(self).context(),
            final(self).has_link() == old(self).has_link(),
            final(self).has_link() ==> final(self).link_id() == old(self).link_id(),
    {
        self.is_running = false;
    }
}

} // verus!
