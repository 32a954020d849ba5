use crate::context::InstanceContext;
use crate::error::{ZFError, ZFResult};
use crate::io::OperatorIO;
use crate::link::{LinkReceiver, LinkSender};
use crate::message::Message;
use crate::runners::{
    bound_to, broadcast, count_of, lemma_bound_count, round_over, senders_for, RunnerKind,
};
use crate::types::{NodeId, PortDescriptor};
use std::sync::Arc;
use vstd::prelude::*;
use vstd::string::*;

verus! {

/// The two halves of an edge that crosses from one runtime to another.
#[derive(Debug, Clone, Copy, PartialEq, Eq)]
pub enum ZFConnectorKind {
    /// Takes envelopes from a link and publishes them on the fabric.
    Sender,
    /// Takes envelopes from the fabric and feeds them to its links.
    Receiver,
}

/// A connector as the graph describes it: which half it is, its name, the
/// fabric resource the two halves meet on, and its one port.
#[derive(Debug, PartialEq, Eq)]
pub struct ZFConnectorRecord {
    pub kind: ZFConnectorKind,
    pub id: NodeId,
    pub resource: String,
    pub link_id: PortDescriptor,
}

/// The text of the error for a connector whose port has no link.
pub open spec fn missing_connector_link(port: Seq<char>, connector: Seq<char>) -> Seq<char> {
    "Missing link for port < "@ + port + " > for Connector: < "@ + connector + " >."@
}

fn missing_link_text(record: &ZFConnectorRecord) -> (text: String)
    ensures
        text@ == missing_connector_link(record.link_id.port_id@, record.id@),
{
    let mut text = String::from_str("Missing link for port < ");
    text.append(record.link_id.port_id.as_str());
    text.append(" > for Connector: < ");
    text.append(record.id.as_str());
    text.append(" >.");
    text
}

/// The runner of the sending half of a connector: one input port, fed by
/// one link, whose envelopes go out on the fabric.
#[verifier::reject_recursive_types(P)]
pub struct JanuSender<P> {
    id: NodeId,
    context: InstanceContext,
    record: ZFConnectorRecord,
    link: Option<LinkReceiver<Message<P>>>,
    is_running: bool,
}

impl<P> JanuSender<P> {
    /// The connector's name.
    pub closed spec fn id(&self) -> Seq<char> {
        self.id@
    }

    /// The context of the instance the connector belongs to.
    pub closed spec fn context(&self) -> InstanceContext {
        self.context
    }

    /// The connector's description.
    pub closed spec fn record(&self) -> ZFConnectorRecord {
        self.record
    }

    /// Whether the connector holds the receiving end of its link.
    pub closed spec fn has_link(&self) -> bool {
        self.link is Some
    }

    /// The input port that the held receiving end is bound to.
    pub closed spec fn link_id(&self) -> Seq<char>
        recommends
            self.has_link(),
    {
        self.link->0.id@
    }

    /// Whether the connector's loop is meant to go on.
    pub closed spec fn running(&self) -> bool {
        self.is_running
    }

    /// Everything about the connector but whether it runs and which link it
    /// holds.
    pub open spec fn same_node(&self, other: &Self) -> bool {
        &&& self.id() == other.id()
        &&& self.context() == other.context()
        &&& self.record() == other.record()
    }

    /// Makes the runner of a sending connector from its description and the
    /// link ends that the wiring has set aside for it. The runner takes the
    /// receiving end bound to the connector's port and starts out idle. When
    /// there is no such end, `MissingInput` is returned.
    pub fn try_new(context: InstanceContext, record: ZFConnectorRecord, io: OperatorIO<P>) -> (r:
        ZFResult<Self>)
        requires
            io.wf(),
        ensures
            r is Ok <==> io.input_ids().contains(record.link_id.port_id@),
            r matches Ok(runner) ==> {
                &&& runner.id() == record.id@
                &&& runner.context() == context
                &&& runner.record() == record
                &&& runner.has_link()
                &&& runner.link_id() == record.link_id.port_id@
                &&& !runner.running()
            },
            r matches Err(e) ==> (e matches ZFError::MissingInput(text) && text@
                == missing_connector_link(record.link_id.port_id@, record.id@)),
    {
        let (mut inputs, _) = io.take();
        let ghost held = inputs;
        match inputs.remove(&record.link_id.port_id) {
            Some(link) => {
                proof {
                    let i = held.keys().index_of(record.link_id.port_id@);
                    assert(held.keys()[i] == record.link_id.port_id@);
                    assert(held.values()[i].id@ == held.keys()[i]);
                }
                Ok(
                    JanuSender {
                        id: record.id.clone(),
                        context,
                        record,
                        link: Some(link),
                        is_running: false,
                    },
                )
            },
            None => Err(ZFError::MissingInput(missing_link_text(&record))),
        }
    }

    /// The fabric resource on which the connector publishes what its link
    /// delivers.
    pub fn resource(&self) -> (r: &String)
        ensures
            *r == self.record().resource,
    {
        &self.record.resource
    }

    /// Marks the connector as running.
    pub fn start(&mut self)
        ensures
            final(self).running(),
            final(self).same_node(old(self)),
            final(self).has_link() == old(self).has_link(),
            final(self).has_link() ==> final(self).link_id() == old(self).link_id(),
    {
        self.is_running = true;
    }

    /// Asks the connector's loop to end after the pass it is in.
    pub fn stop(&mut self)
        ensures
            !final(self).running(),
            final(self).same_node(old(self)),
            final(self).has_link() == old(self).has_link(),
            final(self).has_link() ==> final(self).link_id() == old(self).link_id(),
    {
        self.is_running = false;
    }

    pub fn is_running(&self) -> (r: bool)
        ensures
            r == self.running(),
    {
        self.is_running
    }

    /// Settles one pass of the connector's loop: a pass that failed stops
    /// the connector, and the failure is what the loop ends with.
    pub fn after_iteration<T>(&mut self, outcome: ZFResult<T>) -> (r: ZFResult<T>)
        ensures
            r == outcome,
            outcome is Ok ==> final(self).running() == old(self).running(),
            outcome is Err ==> !final(self).running(),
            final(self).same_node(old(self)),
            final(self).has_link() == old(self).has_link(),
            final(self).has_link() ==> final(self).link_id() == old(self).link_id(),
    {
        if outcome.is_err() {
            self.is_running = false;
        }
        outcome
    }

    pub fn get_id(&self) -> (r: NodeId)
        ensures
            r@ == self.id(),
    {
        self.id.clone()
    }

    pub fn get_kind(&self) -> (r: RunnerKind)
        ensures
            r == RunnerKind::Connector,
    {
        RunnerKind::Connector
    }

    /// Gives the connector a receiving end, in place of the one it may hold.
    pub fn add_input(&mut self, input: LinkReceiver<Message<P>>) -> (r: ZFResult<()>)
        ensures
            r is Ok,
            final(self).has_link(),
            final(self).link_id() == input.id@,
            final(self).same_node(old(self)),
            final(self).running() == old(self).running(),
    {
        self.link = Some(input);
        Ok(())
    }

    /// A sending connector has no outputs: the sending end is refused.
    pub fn add_output(&mut self, _output: LinkSender<Message<P>>) -> (r: ZFResult<()>)
        ensures
            r == Err::<(), ZFError>(ZFError::SenderDoNotHaveOutputs),
            *final(self) == *old(self),
    {
        Err(ZFError::SenderDoNotHaveOutputs)
    }

    /// The connector's port, as the only input.
    pub fn get_inputs(&self) -> (r: Vec<PortDescriptor>)
        ensures
            r@ == seq![self.record().link_id],
    {
        let mut inputs = Vec::with_capacity(1);
        inputs.push(self.record.link_id.clone());
        inputs
    }

    /// A sending connector has no output ports.
    pub fn get_outputs(&self) -> (r: Vec<PortDescriptor>)
        ensures
            r@.len() == 0,
    {
        Vec::new()
    }

    /// A sending connector has no sending ends.
    pub fn get_outputs_links(&self) -> (r: Vec<LinkSender<Message<P>>>)
        ensures
            r@.len() == 0,
    {
        Vec::new()
    }

    /// Hands out the receiving end, if the connector holds one, and leaves
    /// the connector without.
    pub fn take_input_links(&mut self) -> (r: Vec<LinkReceiver<Message<P>>>)
        ensures
            !final(self).has_link(),
            old(self).has_link() ==> r@.len() == 1 && r@[0].id@ == old(self).link_id(),
            !old(self).has_link() ==> r@.len() == 0,
            final(self).same_node(old(self)),
            final(self).running() == old(self).running(),
    {
        let mut inputs = Vec::new();
        if let Some(link) = self.link.take() {
            inputs.push(link);
        }
        inputs
    }

    /// What passes a connector cannot be recorded.
    pub fn start_recording(&self) -> (r: ZFResult<String>)
        ensures
            r == Err::<String, ZFError>(ZFError::Unsupported),
    {
        Err(ZFError::Unsupported)
    }

    /// What passes a connector cannot be recorded.
    pub fn stop_recording(&self) -> (r: ZFResult<String>)
        ensures
            r == Err::<String, ZFError>(ZFError::Unsupported),
    {
        Err(ZFError::Unsupported)
    }

    pub fn is_recording(&self) -> (r: bool)
        ensures
            !r,
    {
        false
    }
}

/// The runner of the receiving half of a connector: one output port, which
/// may feed several links, with envelopes that come in from the fabric.
#[verifier::reject_recursive_types(P)]
pub struct JanuReceiver<P> {
    id: NodeId,
    context: InstanceContext,
    record: ZFConnectorRecord,
    links: Vec<LinkSender<Message<P>>>,
    is_running: bool,
}

impl<P> JanuReceiver<P> {
    /// The connector's name.
    pub closed spec fn id(&self) -> Seq<char> {
        self.id@
    }

    /// The context of the instance the connector belongs to.
    pub closed spec fn context(&self) -> InstanceContext {
        self.context
    }

    /// The connector's description.
    pub closed spec fn record(&self) -> ZFConnectorRecord {
        self.record
    }

    /// The sending ends of the connector's links.
    pub closed spec fn links(&self) -> Seq<LinkSender<Message<P>>> {
        self.links@
    }

    /// Whether the connector's loop is meant to go on.
    pub closed spec fn running(&self) -> bool {
        self.is_running
    }

    /// Everything about the connector but whether it runs and which links
    /// it holds.
    pub open spec fn same_node(&self, other: &Self) -> bool {
        &&& self.id() == other.id()
        &&& self.context() == other.context()
        &&& self.record() == other.record()
    }

    /// Makes the runner of a receiving connector from its description and
    /// the link ends that the wiring has set aside for it. The runner takes
    /// the sending ends bound to the connector's port and starts out idle.
    /// When there is no such end, `MissingOutput` is returned.
    pub fn try_new(context: InstanceContext, record: ZFConnectorRecord, io: OperatorIO<P>) -> (r:
        ZFResult<Self>)
        requires
            io.wf(),
        ensures
            r is Ok <==> io.output_ids().contains(record.link_id.port_id@),
            r matches Ok(runner) ==> {
                &&& runner.id() == record.id@
                &&& runner.context() == context
                &&& runner.record() == record
                &&& runner.links().len() == count_of(io.output_ids(), record.link_id.port_id@)
                &&& forall|i: int|
                    0 <= i < runner.links().len() ==> (#[trigger] runner.links()[i]).id@
                        == record.link_id.port_id@
                &&& !runner.running()
            },
            r matches Err(e) ==> (e matches ZFError::MissingOutput(text) && text@
                == missing_connector_link(record.link_id.port_id@, record.id@)),
    {
        let (_, outputs) = io.take();
        let ghost all = outputs@;
        let links = senders_for(outputs, &record.link_id.port_id);
        proof {
            lemma_bound_count(all, record.link_id.port_id@);
            let p = |s: LinkSender<Message<P>>| s.id@ == record.link_id.port_id@;
            let ids = crate::io::sender_ids(all);
            assert forall|i: int| 0 <= i < links@.len() implies (#[trigger] links@[i]).id@
                == record.link_id.port_id@ by {
                all.lemma_filter_pred(p, i);
            }
            if ids.contains(record.link_id.port_id@) {
                let k = choose|k: int| 0 <= k < ids.len() && ids[k] == record.link_id.port_id@;
                all.lemma_filter_contains(p, k);
            }
            if links@.len() > 0 {
                all.lemma_filter_contains_rev(p, links@[0]);
                let k = choose|k: int| 0 <= k < all.len() && all[k] == links@[0];
                assert(ids[k] == record.link_id.port_id@);
            }
        }
        if links.len() == 0 {
            return Err(ZFError::MissingOutput(missing_link_text(&record)));
        }
        Ok(JanuReceiver { id: record.id.clone(), context, record, links, is_running: false })
    }

    /// The fabric resource on which the connector listens.
    pub fn resource(&self) -> (r: &String)
        ensures
            *r == self.record().resource,
    {
        &self.record.resource
    }

    /// Deals with one sample from the fabric, given what decoding made of
    /// it. A sample that did not decode to an envelope is dropped, and the
    /// connector goes on: `Ok(None)`. An envelope is sent over every link of
    /// the connector's port. The round fails, with `Disconnected`, exactly
    /// when there are such links and every one of them has lost its
    /// receiver. Otherwise the number of links that took the envelope is
    /// returned: at least one and at most all when there are links, none
    /// when there is no link.
    pub fn iteration(&self, decoded: ZFResult<Message<P>>) -> (r: ZFResult<Option<usize>>)
        ensures
            decoded is Err ==> r == Ok::<Option<usize>, ZFError>(None),
            decoded is Ok ==> {
                let count = bound_to(self.links(), self.record().link_id.port_id@).len();
                match r {
                    Ok(sent) => sent matches Some(n) && round_over(Ok::<usize, ZFError>(n), count),
                    Err(e) => round_over(Err::<usize, ZFError>(e), count),
                }
            },
    {
        match decoded {
            Err(_) => Ok(None),
            Ok(message) => {
                let envelope = Arc::new(message);
                match broadcast(&self.links, &self.record.link_id.port_id, &envelope) {
                    Ok(n) => Ok(Some(n)),
                    Err(e) => Err(e),
                }
            },
        }
    }

    /// Marks the connector as running.
    pub fn start(&mut self)
        ensures
            final(self).running(),
            final(self).same_node(old(self)),
            final(self).links() == old(self).links(),
    {
        self.is_running = true;
    }

    /// Asks the connector's loop to end after the pass it is in.
    pub fn stop(&mut self)
        ensures
            !final(self).running(),
            final(self).same_node(old(self)),
            final(self).links() == old(self).links(),
    {
        self.is_running = false;
    }

    pub fn is_running(&self) -> (r: bool)
        ensures
            r == self.running(),
    {
        self.is_running
    }

    /// Settles one pass of the connector's loop: a pass that failed stops
    /// the connector, and the failure is what the loop ends with.
    pub fn after_iteration<T>(&mut self, outcome: ZFResult<T>) -> (r: ZFResult<T>)
        ensures
            r == outcome,
            outcome is Ok ==> final(self).running() == old(self).running(),
            outcome is Err ==> !final(self).running(),
            final(self).same_node(old(self)),
            final(self).links() == old(self).links(),
    {
        if outcome.is_err() {
            self.is_running = false;
        }
        outcome
    }

    pub fn get_id(&self) -> (r: NodeId)
        ensures
            r@ == self.id(),
    {
        self.id.clone()
    }

    pub fn get_kind(&self) -> (r: RunnerKind)
        ensures
            r == RunnerKind::Connector,
    {
        RunnerKind::Connector
    }

    /// A receiving connector has no inputs: the receiving end is refused.
    pub fn add_input(&mut self, _input: LinkReceiver<Message<P>>) -> (r: ZFResult<()>)
        ensures
            r == Err::<(), ZFError>(ZFError::ReceiverDoNotHaveInputs),
            *final(self) == *old(self),
    {
        Err(ZFError::ReceiverDoNotHaveInputs)
    }

    /// Gives the connector one more link to feed.
    pub fn add_output(&mut self, output: LinkSender<Message<P>>) -> (r: ZFResult<()>)
        ensures
            r is Ok,
            final(self).links() == old(self).links().push(output),
            final(self).same_node(old(self)),
            final(self).running() == old(self).running(),
    {
        self.links.push(output);
        Ok(())
    }

    /// A receiving connector has no input ports.
    pub fn get_inputs(&self) -> (r: Vec<PortDescriptor>)
        ensures
            r@.len() == 0,
    {
        Vec::new()
    }

    /// The connector's port, as the only output.
    pub fn get_outputs(&self) -> (r: Vec<PortDescriptor>)
        ensures
            r@ == seq![self.record().link_id],
    {
        let mut outputs = Vec::with_capacity(1);
        outputs.push(self.record.link_id.clone());
        outputs
    }

    /// Handles to the sending ends of the connector's links, in their
    /// order, each bound to the port of the end it was made from.
    pub fn get_outputs_links(&self) -> (r: Vec<LinkSender<Message<P>>>)
        ensures
            r@.len() == self.links().len(),
            forall|i: int| 0 <= i < r@.len() ==> (#[trigger] r@[i]).id == self.links()[i].id,
    {
        let mut out: Vec<LinkSender<Message<P>>> = Vec::new();
        let mut i: usize = 0;
        while i < self.links.len()
            invariant
                i <= self.links.len(),
                out@.len() == i,
                forall|j: int| 0 <= j < i ==> (#[trigger] out@[j]).id == self.links@[j].id,
            decreases self.links.len() - i,
        {
            out.push(self.links[i].clone());
            i += 1;
        }
        out
    }

    /// A receiving connector has no receiving ends.
    pub fn take_input_links(&mut self) -> (r: Vec<LinkReceiver<Message<P>>>)
        ensures
            r@.len() == 0,
            *final(self) == *old(self),
    {
        Vec::new()
    }

    /// What passes a connector cannot be recorded.
    pub fn start_recording(&self) -> (r: ZFResult<String>)
        ensures
            r == Err::<String, ZFError>(ZFError::Unsupported),
    {
        Err(ZFError::Unsupported)
    }

    /// What passes a connector cannot be recorded.
    pub fn stop_recording(&self) -> (r: ZFResult<String>)
        ensures
            r == Err::<String, ZFError>(ZFError::Unsupported),
    {
        Err(ZFError::Unsupported)
    }

    pub fn is_recording(&self) -> (r: bool)
        ensures
            !r,
    {
        false
    }
}

} // verus!
