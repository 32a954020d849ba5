use crate::clock::Clock;
use crate::context::InstanceContext;
use crate::error::{ZFError, ZFResult};
use crate::link::{LinkReceiver, LinkSender};
use crate::message::Message;
use crate::naming::record_name;
use crate::runners::connector::{JanuReceiver, JanuSender};
use crate::runners::operator::OperatorRunner;
use crate::runners::replay::JanuReplay;
use crate::runners::sink::SinkRunner;
use crate::runners::source::SourceRunner;
use crate::runners::RunnerKind;
use crate::types::{NodeId, PortDescriptor};
use vstd::prelude::*;

verus! {

/// The runner of a node, whatever the node is.
#[verifier::reject_recursive_types(P)]
pub enum NodeRunner<P> {
    Source(SourceRunner<P>),
    Operator(OperatorRunner<P>),
    Sink(SinkRunner<P>),
    Sender(JanuSender<P>),
    Receiver(JanuReceiver<P>),
    Replay(JanuReplay<P>),
}

impl<P> NodeRunner<P> {
    /// The node's name.
    pub open spec fn id(&self) -> Seq<char> {
        match self {
            NodeRunner::Source(r) => r.id(),
            NodeRunner::Operator(r) => r.id(),
            NodeRunner::Sink(r) => r.id(),
            NodeRunner::Sender(r) => r.id(),
            NodeRunner::Receiver(r) => r.id(),
            NodeRunner::Replay(r) => r.id(),
        }
    }

    /// The kind of the runner.
    pub open spec fn kind(&self) -> RunnerKind {
        match self {
            NodeRunner::Source(_) => RunnerKind::Source,
            NodeRunner::Operator(_) => RunnerKind::Operator,
            NodeRunner::Sink(_) => RunnerKind::Sink,
            NodeRunner::Sender(_) => RunnerKind::Connector,
            NodeRunner::Receiver(_) => RunnerKind::Connector,
            NodeRunner::Replay(_) => RunnerKind::Replay,
        }
    }

    /// Whether the node's loop is meant to go on.
    pub open spec fn running(&self) -> bool {
        match self {
            NodeRunner::Source(r) => r.running(),
            NodeRunner::Operator(r) => r.running(),
            NodeRunner::Sink(r) => r.running(),
            NodeRunner::Sender(r) => r.running(),
            NodeRunner::Receiver(r) => r.running(),
            NodeRunner::Replay(r) => r.running(),
        }
    }

    /// The context of the instance the node belongs to.
    pub open spec fn context(&self) -> InstanceContext {
        match self {
            NodeRunner::Source(r) => r.context(),
            NodeRunner::Operator(r) => r.context(),
            NodeRunner::Sink(r) => r.context(),
            NodeRunner::Sender(r) => r.context(),
            NodeRunner::Receiver(r) => r.context(),
            NodeRunner::Replay(r) => r.context(),
        }
    }

    /// The runner is in order.
    pub open spec fn wf(&self) -> bool {
        match self {
            NodeRunner::Source(r) => r.wf(),
            NodeRunner::Operator(r) => r.wf(),
            _ => true,
        }
    }

    /// The node's output ports.
    pub open spec fn outputs(&self) -> Seq<PortDescriptor> {
        match self {
            NodeRunner::Source(r) => seq![r.output()],
            NodeRunner::Operator(r) => r.outputs(),
            NodeRunner::Sink(_) => Seq::empty(),
            NodeRunner::Sender(_) => Seq::empty(),
            NodeRunner::Receiver(r) => seq![r.record().link_id],
            NodeRunner::Replay(r) => seq![r.port()],
        }
    }

    /// The node's input ports.
    pub open spec fn inputs(&self) -> Seq<PortDescriptor> {
        match self {
            NodeRunner::Source(_) => Seq::empty(),
            NodeRunner::Operator(r) => r.inputs(),
            NodeRunner::Sink(r) => seq![r.input()],
            NodeRunner::Sender(r) => seq![r.record().link_id],
            NodeRunner::Receiver(_) => Seq::empty(),
            NodeRunner::Replay(_) => Seq::empty(),
        }
    }

    /// The sending ends of the links that the node feeds.
    pub open spec fn output_links(&self) -> Seq<LinkSender<Message<P>>> {
        match self {
            NodeRunner::Source(r) => r.links(),
            NodeRunner::Operator(r) => r.output_links(),
            NodeRunner::Sink(_) => Seq::empty(),
            NodeRunner::Sender(_) => Seq::empty(),
            NodeRunner::Receiver(r) => r.links(),
            NodeRunner::Replay(r) => r.links(),
        }
    }

    /// The input ports whose receiving ends the runner holds, in the order
    /// in which it got them.
    pub open spec fn input_links(&self) -> Seq<Seq<char>> {
        match self {
            NodeRunner::Operator(r) => r.input_links(),
            NodeRunner::Sink(r) => if r.has_link() {
                seq![r.link_id()]
            } else {
                Seq::empty()
            },
            NodeRunner::Sender(r) => if r.has_link() {
                seq![r.link_id()]
            } else {
                Seq::empty()
            },
            _ => Seq::empty(),
        }
    }

    /// The same node, whatever has become of its links, its recordings, and
    /// of whether it runs.
    pub open spec fn same_node(&self, other: &Self) -> bool {
        &&& self.id() == other.id()
        &&& self.kind() == other.kind()
        &&& self.context() == other.context()
        &&& self.inputs() == other.inputs()
        &&& self.outputs() == other.outputs()
        &&& self.wf() == other.wf()
    }

    /// The same runner in every respect, but that one may run while the
    /// other does not.
    pub open spec fn same_but_running(&self, other: &Self) -> bool {
        match (*self, *other) {
            (NodeRunner::Source(a), NodeRunner::Source(b)) => {
                &&& a.same_node(&b)
                &&& a.links() == b.links()
                &&& a.recording() == b.recording()
            },
            (NodeRunner::Operator(a), NodeRunner::Operator(b)) => {
                &&& a.same_node(&b)
                &&& a.wf() == b.wf()
                &&& a.input_links() == b.input_links()
                &&& a.output_links() == b.output_links()
                &&& forall|p: Seq<char>| a.recording(p) == b.recording(p)
            },
            (NodeRunner::Sink(a), NodeRunner::Sink(b)) => {
                &&& a.id() == b.id()
                &&& a.input() == b.input()
                &&& a.context() == b.context()
                &&& a.has_link() == b.has_link()
                &&& a.has_link() ==> a.link_id() == b.link_id()
            },
            (NodeRunner::Sender(a), NodeRunner::Sender(b)) => {
                &&& a.same_node(&b)
                &&& a.has_link() == b.has_link()
                &&& a.has_link() ==> a.link_id() == b.link_id()
            },
            (NodeRunner::Receiver(a), NodeRunner::Receiver(b)) => {
                &&& a.same_node(&b)
                &&& a.links() == b.links()
            },
            (NodeRunner::Replay(a), NodeRunner::Replay(b)) => {
                &&& a.same_node(&b)
                &&& a.links() == b.links()
                &&& a.previous() == b.previous()
            },
            _ => false,
        }
    }

    pub fn get_id(&self) -> (r: NodeId)
        ensures
            r@ == self.id(),
    {
        match self {
            NodeRunner::Source(r) => r.get_id(),
            NodeRunner::Operator(r) => r.get_id(),
            NodeRunner::Sink(r) => r.get_id(),
            NodeRunner::Sender(r) => r.get_id(),
            NodeRunner::Receiver(r) => r.get_id(),
            NodeRunner::Replay(r) => r.get_id(),
        }
    }

    pub fn get_kind(&self) -> (r: RunnerKind)
        ensures
            r == self.kind(),
    {
        match self {
            NodeRunner::Source(r) => r.get_kind(),
            NodeRunner::Operator(r) => r.get_kind(),
            NodeRunner::Sink(r) => r.get_kind(),
            NodeRunner::Sender(r) => r.get_kind(),
            NodeRunner::Receiver(r) => r.get_kind(),
            NodeRunner::Replay(r) => r.get_kind(),
        }
    }

    /// The node's input ports.
    pub fn get_inputs(&self) -> (r: Vec<PortDescriptor>)
        ensures
            r@ == self.inputs(),
    {
        let r = match self {
            NodeRunner::Source(r) => r.get_inputs(),
            NodeRunner::Operator(r) => r.get_inputs(),
            NodeRunner::Sink(r) => r.get_inputs(),
            NodeRunner::Sender(r) => r.get_inputs(),
            NodeRunner::Receiver(r) => r.get_inputs(),
            NodeRunner::Replay(r) => r.get_inputs(),
        };
        assert(r@ =~= self.inputs());
        r
    }

    /// The node's output ports.
    pub fn get_outputs(&self) -> (r: Vec<PortDescriptor>)
        ensures
            r@ == self.outputs(),
    {
        let r = match self {
            NodeRunner::Source(r) => r.get_outputs(),
            NodeRunner::Operator(r) => r.get_outputs(),
            NodeRunner::Sink(r) => r.get_outputs(),
            NodeRunner::Sender(r) => r.get_outputs(),
            NodeRunner::Receiver(r) => r.get_outputs(),
            NodeRunner::Replay(r) => r.get_outputs(),
        };
        assert(r@ =~= self.outputs());
        r
    }

    /// Handles to the sending ends of the links that the node feeds, in
    /// their order, each bound to the port of the end it was made from.
    pub fn get_outputs_links(&self) -> (r: Vec<LinkSender<Message<P>>>)
        ensures
            r@.len() == self.output_links().len(),
            forall|i: int|
                0 <= i < r@.len() ==> (#[trigger] r@[i]).id == self.output_links()[i].id,
    {
        match self {
            NodeRunner::Source(r) => r.get_outputs_links(),
            NodeRunner::Operator(r) => r.get_outputs_links(),
            NodeRunner::Sink(r) => r.get_outputs_links(),
            NodeRunner::Sender(r) => r.get_outputs_links(),
            NodeRunner::Receiver(r) => r.get_outputs_links(),
            NodeRunner::Replay(r) => r.get_outputs_links(),
        }
    }

    /// Hands out the receiving ends that the node holds, in the order in
    /// which it got them, and leaves the node without.
    pub fn take_input_links(&mut self) -> (r: Vec<LinkReceiver<Message<P>>>)
        requires
            old(self).wf(),
        ensures
            final(self).same_node(old(self)),
            final(self).running() == old(self).running(),
            final(self).output_links() == old(self).output_links(),
            final(self).input_links().len() == 0,
            r@.len() == old(self).input_links().len(),
            forall|i: int| 0 <= i < r@.len() ==> (#[trigger] r@[i]).id@ == old(self).input_links()[i],
    {
        match self {
            NodeRunner::Source(r) => r.take_input_links(),
            NodeRunner::Operator(r) => r.take_input_links(),
            NodeRunner::Sink(r) => r.take_input_links(),
            NodeRunner::Sender(r) => r.take_input_links(),
            NodeRunner::Receiver(r) => r.take_input_links(),
            NodeRunner::Replay(r) => r.take_input_links(),
        }
    }

    /// Gives the node a receiving end. Nodes without inputs refuse it:
    /// sources and replays with `SourceDoNotHaveInputs`, receiving connectors
    /// with `ReceiverDoNotHaveInputs`.
    pub fn add_input(&mut self, input: LinkReceiver<Message<P>>) -> (r: ZFResult<()>)
        requires
            old(self).wf(),
        ensures
            final(self).same_node(old(self)),
            final(self).running() == old(self).running(),
            final(self).output_links() == old(self).output_links(),
            match *old(self) {
                NodeRunner::Source(_) => r == Err::<(), ZFError>(ZFError::SourceDoNotHaveInputs),
                NodeRunner::Replay(_) => r == Err::<(), ZFError>(ZFError::SourceDoNotHaveInputs),
                NodeRunner::Receiver(_) => r == Err::<(), ZFError>(
                    ZFError::ReceiverDoNotHaveInputs,
                ),
                NodeRunner::Operator(_) => r is Ok && final(self).input_links() == if old(self).input_links().contains(input.id@) {
                    old(self).input_links()
                } else {
                    old(self).input_links().push(input.id@)
                },
                _ => r is Ok && final(self).input_links() == seq![input.id@],
            },
            r is Err ==> final(self).input_links() == old(self).input_links(),
    {
        match self {
            NodeRunner::Source(r) => r.add_input(input),
            NodeRunner::Operator(r) => r.add_input(input),
            NodeRunner::Sink(r) => r.add_input(input),
            NodeRunner::Sender(r) => r.add_input(input),
            NodeRunner::Receiver(r) => r.add_input(input),
            NodeRunner::Replay(r) => r.add_input(input),
        }
    }

    /// Gives the node one more link to feed. Nodes without outputs refuse
    /// it: sinks with `SinkDoNotHaveOutputs`, sending connectors with
    /// `SenderDoNotHaveOutputs`.
    pub fn add_output(&mut self, output: LinkSender<Message<P>>) -> (r: ZFResult<()>)
        ensures
            final(self).same_node(old(self)),
            final(self).running() == old(self).running(),
            match *old(self) {
                NodeRunner::Sink(_) => r == Err::<(), ZFError>(ZFError::SinkDoNotHaveOutputs)
                    && final(self).output_links() == old(self).output_links(),
                NodeRunner::Sender(_) => r == Err::<(), ZFError>(ZFError::SenderDoNotHaveOutputs)
                    && final(self).output_links() == old(self).output_links(),
                _ => r is Ok && final(self).output_links() == old(self).output_links().push(
                    output,
                ),
            },
    {
        match self {
            NodeRunner::Source(r) => r.add_output(output),
            NodeRunner::Operator(r) => r.add_output(output),
            NodeRunner::Sink(r) => r.add_output(output),
            NodeRunner::Sender(r) => r.add_output(output),
            NodeRunner::Receiver(r) => r.add_output(output),
            NodeRunner::Replay(r) => r.add_output(output),
        }
    }

    pub fn is_running(&self) -> (r: bool)
        ensures
            r == self.running(),
    {
        match self {
            NodeRunner::Source(r) => r.is_running(),
            NodeRunner::Operator(r) => r.is_running(),
            NodeRunner::Sink(r) => r.is_running(),
            NodeRunner::Sender(r) => r.is_running(),
            NodeRunner::Receiver(r) => r.is_running(),
            NodeRunner::Replay(r) => r.is_running(),
        }
    }

    /// Marks the node as running.
    pub fn set_running(&mut self)
        ensures
            final(self).running(),
            final(self).same_node(old(self)),
            final(self).same_but_running(old(self)),
            final(self).output_links() == old(self).output_links(),
    {
        match self {
            NodeRunner::Source(r) => r.start(),
            NodeRunner::Operator(r) => r.start(),
            NodeRunner::Sink(r) => r.start(),
            NodeRunner::Sender(r) => r.start(),
            NodeRunner::Receiver(r) => r.start(),
            NodeRunner::Replay(r) => r.start(),
        }
    }

    /// Asks the node's loop to end after the pass it is in.
    pub fn stop(&mut self)
        ensures
            !final(self).running(),
            final(self).same_node(old(self)),
            final(self).same_but_running(old(self)),
            final(self).output_links() == old(self).output_links(),
    {
        match self {
            NodeRunner::Source(r) => r.stop(),
            NodeRunner::Operator(r) => r.stop(),
            NodeRunner::Sink(r) => r.stop(),
            NodeRunner::Sender(r) => r.stop(),
            NodeRunner::Receiver(r) => r.stop(),
            NodeRunner::Replay(r) => r.stop(),
        }
    }

    /// Settles one pass of the node's loop: a pass that failed stops the
    /// node, and the failure is what the loop ends with.
    pub fn after_iteration<T>(&mut self, outcome: ZFResult<T>) -> (r: ZFResult<T>)
        ensures
            r == outcome,
            outcome is Ok ==> final(self).running() == old(self).running(),
            outcome is Err ==> !final(self).running(),
            final(self).same_node(old(self)),
            final(self).same_but_running(old(self)),
            final(self).output_links() == old(self).output_links(),
    {
        match self {
            NodeRunner::Source(r) => r.after_iteration(outcome),
            NodeRunner::Operator(r) => r.after_iteration(outcome),
            NodeRunner::Sink(r) => r.after_iteration(outcome),
            NodeRunner::Sender(r) => r.after_iteration(outcome),
            NodeRunner::Receiver(r) => r.after_iteration(outcome),
            NodeRunner::Replay(r) => r.after_iteration(outcome),
        }
    }

    /// Starts the node: marks it as running and returns the manager that
    /// answers for its loop from now on.
    pub fn start(&mut self) -> (manager: RunnerManager)
        ensures
            final(self).running(),
            final(self).same_node(old(self)),
            final(self).same_but_running(old(self)),
            final(self).output_links() == old(self).output_links(),
            manager.node() == old(self).id(),
            manager.kind() == old(self).kind(),
            manager.started(),
            !manager.killed(),
    {
        self.set_running();
        RunnerManager { node: self.get_id(), kind: self.get_kind(), started: true, killed: false }
    }

    /// Whether a recording of what the node emits is going on.
    pub fn is_recording(&self) -> (r: bool)
        requires
            self.wf(),
        ensures
            self matches NodeRunner::Source(s) ==> r == s.recording() is Some,
            self matches NodeRunner::Operator(o) ==> r == exists|p: Seq<char>|
                o.recording(p) is Some,
            self is Sink || self is Sender || self is Receiver || self is Replay ==> !r,
    {
        match self {
            NodeRunner::Source(r) => r.is_recording(),
            NodeRunner::Operator(r) => r.is_recording(),
            NodeRunner::Sink(r) => r.is_recording(),
            NodeRunner::Sender(r) => r.is_recording(),
            NodeRunner::Receiver(r) => r.is_recording(),
            NodeRunner::Replay(r) => r.is_recording(),
        }
    }

    /// Begins a recording of what the node emits and returns its name.
    /// Only a source can do so; every other node answers `Unsupported`. A
    /// source that is recording answers `AlreadyRecording`, and one whose
    /// clock has run out of timestamps `InvalidState`.
    pub fn start_recording(&mut self, clock: &mut Clock) -> (r: ZFResult<String>)
        requires
            old(self).wf(),
            old(clock).wf(),
        ensures
            final(clock).wf(),
            final(clock).id() == old(clock).id(),
            final(self).same_node(old(self)),
            final(self).running() == old(self).running(),
            final(self).output_links() == old(self).output_links(),
            !(*old(self) is Source) ==> r == Err::<String, ZFError>(ZFError::Unsupported)
                && final(clock).time() == old(clock).time(),
            *old(self) matches NodeRunner::Source(s) ==> {
                &&& *final(self) matches NodeRunner::Source(t)
                &&& s.recording() is Some ==> r == Err::<String, ZFError>(
                    ZFError::AlreadyRecording,
                ) && t.recording() == s.recording() && final(clock).time() == old(clock).time()
                &&& s.recording() is None && old(clock).time() == u64::MAX ==> r == Err::<
                    String,
                    ZFError,
                >(ZFError::InvalidState) && t.recording() is None
                    && final(clock).time() == old(clock).time()
                &&& s.recording() is None && old(clock).time() < u64::MAX ==> {
                    &&& r matches Ok(name)
                    &&& old(clock).time() < final(clock).time()
                    &&& name@ == record_name(s.base_name(), final(clock).time())
                    &&& t.recording() == Some(name@)
                }
            },
    {
        match self {
            NodeRunner::Source(r) => r.start_recording(clock),
            NodeRunner::Operator(r) => r.start_recording(),
            NodeRunner::Sink(r) => r.start_recording(),
            NodeRunner::Sender(r) => r.start_recording(),
            NodeRunner::Receiver(r) => r.start_recording(),
            NodeRunner::Replay(r) => r.start_recording(),
        }
    }

    /// Ends the recording that is going on and returns its name. Only a
    /// source can do so; every other node answers `Unsupported`. A source
    /// that is not recording answers `NotRecoding`.
    pub fn stop_recording(&mut self) -> (r: ZFResult<String>)
        ensures
            final(self).same_node(old(self)),
            final(self).running() == old(self).running(),
            final(self).output_links() == old(self).output_links(),
            !(*old(self) is Source) ==> r == Err::<String, ZFError>(ZFError::Unsupported),
            *old(self) matches NodeRunner::Source(s) ==> {
                &&& *final(self) matches NodeRunner::Source(t)
                &&& t.recording() is None
                &&& match s.recording() {
                    Some(name) => r matches Ok(n) && n@ == name,
                    None => r == Err::<String, ZFError>(ZFError::NotRecoding),
                }
            },
    {
        match self {
            NodeRunner::Source(r) => r.stop_recording(),
            NodeRunner::Operator(r) => r.stop_recording(),
            NodeRunner::Sink(r) => r.stop_recording(),
            NodeRunner::Sender(r) => r.stop_recording(),
            NodeRunner::Receiver(r) => r.stop_recording(),
            NodeRunner::Replay(r) => r.stop_recording(),
        }
    }
}

/// The handle that answers for the loop of one started node.
#[derive(Debug, PartialEq, Eq)]
pub struct RunnerManager {
    node: NodeId,
    kind: RunnerKind,
    started: bool,
    killed: bool,
}

impl RunnerManager {
    /// The node whose loop the manager answers for.
    pub closed spec fn node(&self) -> Seq<char> {
        self.node@
    }

    /// The kind of that node's runner.
    pub closed spec fn kind(&self) -> RunnerKind {
        self.kind
    }

    /// Whether the loop has been started.
    pub closed spec fn started(&self) -> bool {
        self.started
    }

    /// Whether the loop has been asked to end.
    pub closed spec fn killed(&self) -> bool {
        self.killed
    }

    /// The node whose loop the manager answers for.
    pub fn get_id(&self) -> (r: NodeId)
        ensures
            r@ == self.node(),
    {
        self.node.clone()
    }

    /// The kind of that node's runner.
    pub fn get_kind(&self) -> (r: RunnerKind)
        ensures
            r == self.kind(),
    {
        self.kind
    }

    /// A manager starts its runner once, at its making. Every later attempt
    /// is refused with `InvalidState`, and nothing changes.
    pub fn start<P>(&mut self, runner: &mut NodeRunner<P>) -> (r: ZFResult<()>)
        ensures
            old(self).started() ==> r == Err::<(), ZFError>(ZFError::InvalidState) && *final(self)
                == *old(self) && *final(runner) == *old(runner),
            !old(self).started() ==> r is Ok && final(self).started() && final(runner).running()
                && final(runner).same_node(old(runner)) && final(runner).same_but_running(
                old(runner),
            ) && final(self).node() == old(self).node()
                && final(self).killed() == old(self).killed(),
    {
        if self.started {
            return Err(ZFError::InvalidState);
        }
        runner.set_running();
        self.started = true;
        Ok(())
    }

    /// Whether the runner's loop is meant to go on.
    pub fn is_running<P>(&self, runner: &NodeRunner<P>) -> (r: bool)
        ensures
            r == runner.running(),
    {
        runner.is_running()
    }

    /// Asks the runner's loop to end after the pass it is in. Asking again
    /// changes nothing.
    pub fn kill<P>(&mut self, runner: &mut NodeRunner<P>) -> (r: ZFResult<()>)
        ensures
            r is Ok,
            final(self).killed(),
            final(self).node() == old(self).node(),
            final(self).kind() == old(self).kind(),
            final(self).started() == old(self).started(),
            !final(runner).running(),
            final(runner).same_node(old(runner)),
            final(runner).same_but_running(old(runner)),
            final(runner).output_links() == old(runner).output_links(),
    {
        runner.stop();
        self.killed = true;
        Ok(())
    }

    /// Begins a recording of what the runner emits and returns its name.
    /// The answer is that of the runner.
    pub fn start_recording<P>(&self, runner: &mut NodeRunner<P>, clock: &mut Clock) -> (r: ZFResult<
        String,
    >)
        requires
            old(runner).wf(),
            old(clock).wf(),
        ensures
            final(clock).wf(),
            final(clock).id() == old(clock).id(),
            final(runner).same_node(old(runner)),
            final(runner).running() == old(runner).running(),
            final(runner).output_links() == old(runner).output_links(),
            !(*old(runner) is Source) ==> r == Err::<String, ZFError>(ZFError::Unsupported)
                && final(clock).time() == old(clock).time(),
            *old(runner) matches NodeRunner::Source(s) ==> {
                &&& *final(runner) matches NodeRunner::Source(t)
                &&& s.recording() is Some ==> r == Err::<String, ZFError>(
                    ZFError::AlreadyRecording,
                ) && t.recording() == s.recording() && final(clock).time() == old(clock).time()
                &&& s.recording() is None && old(clock).time() == u64::MAX ==> r == Err::<
                    String,
                    ZFError,
                >(ZFError::InvalidState) && t.recording() is None
                &&& s.recording() is None && old(clock).time() < u64::MAX ==> {
                    &&& r matches Ok(name)
                    &&& old(clock).time() < final(clock).time()
                    &&& name@ == record_name(s.base_name(), final(clock).time())
                    &&& t.recording() == Some(name@)
                }
            },
    {
        runner.start_recording(clock)
    }

    /// Ends the recording that is going on and returns its name. The answer
    /// is that of the runner.
    pub fn stop_recording<P>(&self, runner: &mut NodeRunner<P>) -> (r: ZFResult<String>)
        ensures
            final(runner).same_node(old(runner)),
            final(runner).running() == old(runner).running(),
            final(runner).output_links() == old(runner).output_links(),
            !(*old(runner) is Source) ==> r == Err::<String, ZFError>(ZFError::Unsupported),
            *old(runner) matches NodeRunner::Source(s) ==> {
                &&& *final(runner) matches NodeRunner::Source(t)
                &&& t.recording() is None
                &&& match s.recording() {
                    Some(name) => r matches Ok(n) && n@ == name,
                    None => r == Err::<String, ZFError>(ZFError::NotRecoding),
                }
            },
    {
        runner.stop_recording()
    }
}

} // verus!
