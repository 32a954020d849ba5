use crate::clock::Clock;
use crate::context::InstanceContext;
use crate::deadline::{
    check_local_deadline, deadlines_beyond, deadlines_to_propagate, local_miss, misses_beyond,
    misses_to_propagate, records_from, start_deadlines, started, DeadlineView, E2EDeadline,
    E2EDeadlineMiss, E2EDeadlineRecord, LocalDeadlineMiss, MissView,
};
use crate::error::{ZFError, ZFResult};
use crate::io::{receivers_wf, OperatorIO};
use crate::link::{LinkReceiver, LinkSender};
use crate::message::{ControlMessage, DataMessage, DataView, Message, MessageView};
use crate::naming::{record_base, record_base_name, record_name, record_resource};
use crate::runners::{
    bound_to, broadcast, receive_data, round_over, taken_in, Received, RunnerKind,
};
use crate::table::Table;
use crate::time::{Duration, Timestamp};
use crate::types::{views, NodeId, PortDescriptor, PortId};
use std::sync::Arc;
use vstd::prelude::*;

verus! {

/// An operator as the graph describes it: its name, its input and output
/// ports, the time its computation may take, if that is bounded, and the
/// end-to-end deadlines that start at its outputs.
#[derive(Debug, PartialEq, Eq)]
pub struct OperatorLoaded {
    pub id: NodeId,
    pub inputs: Vec<PortDescriptor>,
    pub outputs: Vec<PortDescriptor>,
    pub local_deadline: Option<Duration>,
    pub end_to_end_deadlines: Vec<E2EDeadlineRecord>,
}

/// What an operator knows of one of its inputs between two firings.
#[derive(Debug, PartialEq)]
pub enum Token<P> {
    /// Nothing has arrived since the last firing.
    NotReady,
    /// A message has arrived and waits to be consumed.
    Ready(Received<P>),
}

/// What an operator's output rule sends to one output port.
#[derive(Debug, PartialEq)]
pub enum NodeOutput<P> {
    Data(Arc<P>),
    Control(ControlMessage),
}

/// An envelope on its way out of an operator: the output port, the
/// envelope, and the name of the recording that is to get a copy, if one is
/// going on for that port.
#[derive(Debug, PartialEq)]
pub struct Outgoing<P> {
    pub port_id: PortId,
    pub message: Arc<Message<P>>,
    pub record_to: Option<String>,
}

/// What the messages of one firing pass on to the messages that the
/// firing produces.
#[derive(Debug, PartialEq, Eq)]
pub struct Carried {
    pub deadlines: Vec<E2EDeadline>,
    pub missed: Vec<E2EDeadlineMiss>,
}

/// The deadlines that the given messages pass on beyond `node`: those of the
/// first message that go beyond it, then those of the second, and so on.
pub open spec fn inherited_deadlines<P>(inputs: Seq<DataView<P>>, node: Seq<char>) -> Seq<
    DeadlineView,
>
    decreases inputs.len(),
{
    if inputs.len() == 0 {
        Seq::empty()
    } else {
        inherited_deadlines(inputs.drop_last(), node) + deadlines_beyond(
            inputs.last().deadlines,
            node,
        )
    }
}

/// The misses that the given messages pass on beyond `node`, in the same
/// order.
pub open spec fn inherited_misses<P>(inputs: Seq<DataView<P>>, node: Seq<char>) -> Seq<MissView>
    decreases inputs.len(),
{
    if inputs.len() == 0 {
        Seq::empty()
    } else {
        inherited_misses(inputs.drop_last(), node) + misses_beyond(inputs.last().missed, node)
    }
}

/// Whether none of the outputs of a firing is data.
pub open spec fn no_data<P>(outputs: Seq<NodeOutput<P>>) -> bool {
    forall|i: int| 0 <= i < outputs.len() ==> !(#[trigger] outputs[i] is Data)
}

/// Whether two or more of the outputs of a firing are data.
pub open spec fn more_data_than_one<P>(outputs: Seq<NodeOutput<P>>) -> bool {
    exists|i: int, j: int|
        0 <= i < j < outputs.len() && #[trigger] outputs[i] is Data && #[trigger] outputs[j] is Data
}

/// A deadline rides unchanged through a node that is not its goal: what a
/// firing passes on holds every deadline of every message that went into the
/// firing and ends at another node, as it was, and holds nothing else.
pub proof fn lemma_deadlines_carried<P>(inputs: Seq<DataView<P>>, node: Seq<char>)
    ensures
        forall|k: int, j: int|
            0 <= k < inputs.len() && 0 <= j < inputs[k].deadlines.len() && (
            #[trigger] inputs[k].deadlines[j]).goes_beyond(node) ==> inherited_deadlines(
                inputs,
                node,
            ).contains(inputs[k].deadlines[j]),
        forall|i: int|
            0 <= i < inherited_deadlines(inputs, node).len() ==> (#[trigger] inherited_deadlines(
                inputs,
                node,
            )[i]).goes_beyond(node) && exists|k: int, j: int|
                0 <= k < inputs.len() && 0 <= j < inputs[k].deadlines.len()
                    && #[trigger] inputs[k].deadlines[j] == inherited_deadlines(inputs, node)[i],
    decreases inputs.len(),
{
    let p = |d: DeadlineView| d.goes_beyond(node);
    if inputs.len() > 0 {
        let init = inputs.drop_last();
        let last = inputs.last();
        lemma_deadlines_carried(init, node);
        let before = inherited_deadlines(init, node);
        let fresh = deadlines_beyond(last.deadlines, node);
        let all = inherited_deadlines(inputs, node);
        assert(all == before + fresh);
        assert forall|k: int, j: int|
            0 <= k < inputs.len() && 0 <= j < inputs[k].deadlines.len() && (
            #[trigger] inputs[k].deadlines[j]).goes_beyond(node) implies all.contains(
            inputs[k].deadlines[j],
        ) by {
            let d = inputs[k].deadlines[j];
            if k < init.len() {
                assert(init[k] == inputs[k]);
                let i = choose|i: int| 0 <= i < before.len() && before[i] == d;
                assert(all[i] == d);
            } else {
                last.deadlines.lemma_filter_contains(p, j);
                let i = choose|i: int| 0 <= i < fresh.len() && fresh[i] == d;
                assert(all[before.len() + i] == d);
            }
        }
        assert forall|i: int| 0 <= i < all.len() implies (#[trigger] all[i]).goes_beyond(node)
            && exists|k: int, j: int|
            0 <= k < inputs.len() && 0 <= j < inputs[k].deadlines.len()
                && #[trigger] inputs[k].deadlines[j] == all[i] by {
            if i < before.len() {
                assert(all[i] == before[i]);
                let (k, j) = choose|k: int, j: int|
                    0 <= k < init.len() && 0 <= j < init[k].deadlines.len()
                        && #[trigger] init[k].deadlines[j] == before[i];
                assert(inputs[k] == init[k]);
                assert(inputs[k].deadlines[j] == all[i]);
            } else {
                let m = i - before.len();
                assert(all[i] == fresh[m]);
                last.deadlines.lemma_filter_pred(p, m);
                last.deadlines.lemma_filter_contains_rev(p, fresh[m]);
                let j = choose|j: int| 0 <= j < last.deadlines.len()
                    && last.deadlines[j] == fresh[m];
                assert(inputs[inputs.len() - 1].deadlines[j] == all[i]);
            }
        }
    }
}

/// A message that passes a node at which none of its deadlines ends keeps
/// its deadlines as they are, in their order: they are what the node passes
/// on for it.
pub proof fn lemma_deadlines_kept<P>(input: DataView<P>, node: Seq<char>)
    requires
        forall|j: int|
            0 <= j < input.deadlines.len() ==> (#[trigger] input.deadlines[j]).goes_beyond(node),
    ensures
        inherited_deadlines(seq![input], node) == input.deadlines,
{
    let p = |d: DeadlineView| d.goes_beyond(node);
    lemma_filter_all(input.deadlines, p);
    assert(seq![input].drop_last() =~= Seq::<DataView<P>>::empty());
    assert(seq![input].last() == input);
    assert(inherited_deadlines(Seq::<DataView<P>>::empty(), node) =~= Seq::<
        DeadlineView,
    >::empty());
    assert(Seq::<DeadlineView>::empty() + input.deadlines =~= input.deadlines);
}

proof fn lemma_filter_all(s: Seq<DeadlineView>, p: spec_fn(DeadlineView) -> bool)
    requires
        forall|j: int| 0 <= j < s.len() ==> p(#[trigger] s[j]),
    ensures
        s.filter(p) == s,
    decreases s.len(),
{
    reveal(Seq::filter);
    if s.len() > 0 {
        assert forall|j: int| 0 <= j < s.drop_last().len()
            implies p(#[trigger] s.drop_last()[j]) by {
            assert(s.drop_last()[j] == s[j]);
        }
        lemma_filter_all(s.drop_last(), p);
        assert(p(s[s.len() - 1]));
        assert(s.drop_last().push(s.last()) =~= s);
    }
}

/// Whether every input has a message waiting.
pub open spec fn all_ready<P>(tokens: Seq<Token<P>>) -> bool {
    forall|i: int| 0 <= i < tokens.len() ==> #[trigger] tokens[i] is Ready
}

/// The input rule that operators use unless they bring their own: the
/// operator fires when every one of its inputs has a message waiting.
pub fn default_input_rule<P>(tokens: &Table<Token<P>>) -> (r: ZFResult<bool>)
    ensures
        r == Ok::<bool, ZFError>(all_ready(tokens.values())),
{
    let mut i: usize = 0;
    while i < tokens.len()
        invariant
            i <= tokens.values().len(),
            forall|j: int| 0 <= j < i ==> #[trigger] tokens.values()[j] is Ready,
        decreases tokens.values().len() - i,
    {
        match tokens.value(i) {
            Token::NotReady => {
                return Ok(false);
            },
            Token::Ready(_) => {},
        }
        i += 1;
    }
    Ok(true)
}

/// What the default output rule makes of the results of a computation:
/// each result goes out as data on the port it was produced for.
pub open spec fn as_data<P>(outputs: Seq<Arc<P>>) -> Seq<NodeOutput<P>> {
    Seq::new(outputs.len(), |i: int| NodeOutput::Data(outputs[i]))
}

/// The output rule that operators use unless they bring their own: every
/// result of the computation goes out as data on its port.
pub fn default_output_rule<P>(outputs: Table<Arc<P>>) -> (r: ZFResult<Table<NodeOutput<P>>>)
    requires
        outputs.wf(),
    ensures
        r matches Ok(routed) && {
            &&& routed.wf()
            &&& routed.keys() == outputs.keys()
            &&& routed.values() == as_data(outputs.values())
        },
{
    let mut rest = outputs;
    let mut routed: Table<NodeOutput<P>> = Table::new();
    while rest.len() > 0
        invariant
            rest.wf(),
            routed.wf(),
            routed.keys() + rest.keys() == outputs.keys(),
            routed.values() + as_data(rest.values()) == as_data(outputs.values()),
            outputs.wf(),
        decreases rest.keys().len(),
    {
        let ghost rk = rest.keys();
        let ghost rv = rest.values();
        let ghost dk = routed.keys();
        let ghost dv = routed.values();
        let (port, data) = rest.remove_at(0);
        proof {
            assert(rk =~= seq![rk[0]] + rest.keys());
            assert(rv =~= seq![rv[0]] + rest.values());
            // The port is new to the routed table: the ports are distinct.
            assert(!routed.has(port@)) by {
                if routed.has(port@) {
                    let a = choose|a: int| 0 <= a < dk.len() && dk[a] == port@;
                    assert(outputs.keys()[a] == (dk + rk)[a]);
                    assert(outputs.keys()[dk.len() as int] == (dk + rk)[dk.len() as int]);
                }
            }
        }
        routed.push(port, NodeOutput::Data(data));
        proof {
            assert(routed.keys() + rest.keys() =~= dk + rk);
            assert(routed.values() + as_data(rest.values()) =~= dv + as_data(rv));
        }
    }
    proof {
        assert(routed.keys() =~= routed.keys() + rest.keys());
        assert(routed.values() =~= routed.values() + as_data(rest.values()));
    }
    Ok(routed)
}

/// Gathers what the messages of one firing pass on beyond the node
/// `node_id`: their deadlines that end elsewhere and their misses of such
/// deadlines, message by message.
pub fn carry_over<P>(inputs: &Table<DataMessage<P>>, node_id: &NodeId) -> (carried: Carried)
    ensures
        views(carried.deadlines@) == inherited_deadlines(views(inputs.values()), node_id@),
        views(carried.missed@) == inherited_misses(views(inputs.values()), node_id@),
{
    let mut deadlines: Vec<E2EDeadline> = Vec::new();
    let mut missed: Vec<E2EDeadlineMiss> = Vec::new();
    let ghost all = views(inputs.values());
    let mut i: usize = 0;
    proof {
        assert(all.take(0) =~= Seq::<DataView<P>>::empty());
    }
    while i < inputs.len()
        invariant
            i <= inputs.values().len(),
            all == views(inputs.values()),
            views(deadlines@) == inherited_deadlines(all.take(i as int), node_id@),
            views(missed@) == inherited_misses(all.take(i as int), node_id@),
        decreases inputs.values().len() - i,
    {
        let message = inputs.value(i);
        let ghost d0 = views(deadlines@);
        let ghost m0 = views(missed@);
        let mut more = deadlines_to_propagate(&message.end_to_end_deadlines, node_id);
        let mut more_missed = misses_to_propagate(&message.missed_end_to_end_deadlines, node_id);
        let ghost d1 = views(more@);
        let ghost m1 = views(more_missed@);
        deadlines.append(&mut more);
        missed.append(&mut more_missed);
        proof {
            assert(views(deadlines@) =~= d0 + d1);
            assert(views(missed@) =~= m0 + m1);
            assert(all.take(i + 1).drop_last() =~= all.take(i as int));
            assert(all.take(i + 1).last() == all[i as int]);
            assert(all[i as int] == message@);
        }
        i += 1;
    }
    proof {
        assert(all.take(i as int) =~= all);
    }
    Carried { deadlines, missed }
}

/// Takes the waiting messages out of the tokens of an operator that fires.
/// Every input that had a message waiting hands it over, under the name of
/// the input; afterwards no input has one.
pub fn consume_tokens<P>(tokens: &mut Table<Token<P>>) -> (inputs: Table<DataMessage<P>>)
    requires
        old(tokens).wf(),
    ensures
        final(tokens).wf(),
        final(tokens).keys() == old(tokens).keys(),
        forall|i: int|
            0 <= i < final(tokens).values().len() ==> #[trigger] final(tokens).values()[i]
                is NotReady,
        inputs.wf(),
        forall|k: Seq<char>| #[trigger]
            inputs.has(k) <==> (old(tokens).has(k) && old(tokens).at(k) is Ready),
        forall|k: Seq<char>| #[trigger]
            inputs.has(k) ==> inputs.at(k) == old(tokens).at(k)->Ready_0.message,
        all_ready(old(tokens).values()) ==> forall|k: Seq<char>| #[trigger]
            inputs.has(k) <==> old(tokens).has(k),
{
    let ghost before = *tokens;
    let mut fresh: Table<Token<P>> = Table::new();
    let mut inputs: Table<DataMessage<P>> = Table::new();
    while tokens.len() > 0
        invariant
            tokens.wf(),
            fresh.wf(),
            inputs.wf(),
            before.wf(),
            fresh.keys() + tokens.keys() == before.keys(),
            fresh.values().len() == fresh.keys().len(),
            forall|i: int|
                0 <= i < tokens.values().len() ==> #[trigger] tokens.values()[i]
                    == before.values()[fresh.keys().len() + i],
            forall|i: int|
                0 <= i < fresh.values().len() ==> #[trigger] fresh.values()[i] is NotReady,
            forall|k: Seq<char>| #[trigger]
                inputs.has(k) <==> (fresh.has(k) && before.at(k) is Ready),
            forall|k: Seq<char>| #[trigger]
                inputs.has(k) ==> inputs.at(k) == before.at(k)->Ready_0.message,
        decreases tokens.keys().len(),
    {
        let ghost fk = fresh.keys();
        let ghost tk = tokens.keys();
        let ghost tv = tokens.values();
        let ghost n = fk.len() as int;
        let ghost had = inputs;
        let ghost was = fresh;
        let (port, token) = tokens.remove_at(0);
        proof {
            assert(tk =~= seq![tk[0]] + tokens.keys());
            assert(before.keys()[n] == (fk + tk)[n]);
            assert(port@ == before.keys()[n]);
            before.lemma_index(n);
            assert(token == before.values()[n]);
            assert(!fresh.has(port@)) by {
                if fresh.has(port@) {
                    let a = choose|a: int| 0 <= a < fk.len() && fk[a] == port@;
                    assert(before.keys()[a] == (fk + tk)[a]);
                }
            }
            assert(!inputs.has(port@));
        }
        match token {
            Token::Ready(received) => {
                inputs.push(port.clone(), received.message);
            },
            Token::NotReady => {},
        }
        fresh.push(port, Token::NotReady);
        proof {
            assert(fresh.keys() + tokens.keys() =~= fk + tk);
            assert forall|i: int| 0 <= i < tokens.values().len() implies #[trigger]
                tokens.values()[i] == before.values()[fresh.keys().len() + i] by {
                assert(tokens.values()[i] == tv[i + 1]);
            }
            assert forall|k: Seq<char>| #[trigger] fresh.has(k) <==> (was.has(k) || k == port@) by {
                assert(fresh@.dom().contains(k) <==> fresh.has(k));
                assert(was@.dom().contains(k) <==> was.has(k));
            }
            assert forall|k: Seq<char>| #[trigger]
                inputs.has(k) <==> (fresh.has(k) && before.at(k) is Ready) by {
                assert(inputs@.dom().contains(k) <==> inputs.has(k));
                assert(had@.dom().contains(k) <==> had.has(k));
            }
            assert forall|k: Seq<char>| #[trigger] inputs.has(k) implies inputs.at(k)
                == before.at(k)->Ready_0.message by {
                assert(inputs@.dom().contains(k));
                assert(inputs@[k] == inputs.at(k));
                if had.has(k) {
                    assert(had@.dom().contains(k));
                    assert(had@[k] == had.at(k));
                }
            }
        }
    }
    proof {
        assert(fresh.keys() =~= fresh.keys() + tokens.keys());
        assert forall|k: Seq<char>| #[trigger]
            inputs.has(k) <==> (before.has(k) && before.at(k) is Ready) by {}
        if all_ready(before.values()) {
            before.lemma_len();
            assert forall|k: Seq<char>| #[trigger] inputs.has(k) <==> before.has(k) by {
                if before.has(k) {
                    let i = before.keys().index_of(k);
                    assert(before.values()[i] is Ready);
                }
            }
        }
    }
    *tokens = fresh;
    inputs
}

/// The runner of an operator: any number of input ports, each fed by one
/// link, and any number of output ports, each of which may feed several.
#[verifier::reject_recursive_types(P)]
pub struct OperatorRunner<P> {
    id: NodeId,
    context: InstanceContext,
    inputs: Vec<PortDescriptor>,
    outputs: Vec<PortDescriptor>,
    links_in: Table<LinkReceiver<Message<P>>>,
    links_out: Vec<LinkSender<Message<P>>>,
    is_running: bool,
    local_deadline: Option<Duration>,
    end_to_end_deadlines: Vec<E2EDeadlineRecord>,
    recordings: Table<String>,
}

/// The envelope that an operator makes of what its output rule sends to the
/// output `port`: a control message goes out as it is; data goes out with the
/// timestamp `time` of the node's clock `clock`, the deadlines carried over
/// from the inputs followed by the node's own that start at this port, and
/// the misses carried over.
pub open spec fn outgoing_message<P>(
    output: NodeOutput<P>,
    node: Seq<char>,
    port: Seq<char>,
    time: u64,
    clock: Seq<u8>,
    carried_deadlines: Seq<DeadlineView>,
    carried_missed: Seq<MissView>,
    declared: Seq<crate::deadline::RecordView>,
) -> MessageView<P> {
    match output {
        NodeOutput::Data(data) => MessageView::Data(
            DataView {
                data: *data,
                timestamp: crate::time::TimestampView { time, id: clock },
                deadlines: carried_deadlines + started(
                    records_from(declared, node, port),
                    crate::time::TimestampView { time, id: clock },
                ),
                missed: carried_missed,
            },
        ),
        NodeOutput::Control(c) => MessageView::Control(c@),
    }
}

/// The clock time on an envelope that carries data; zero for the others.
pub open spec fn stamp_of<P>(message: MessageView<P>) -> u64 {
    match message {
        MessageView::Data(d) => d.timestamp.time,
        MessageView::Control(_) => 0,
    }
}

impl<P> OperatorRunner<P> {
    /// The operator's name.
    pub closed spec fn id(&self) -> Seq<char> {
        self.id@
    }

    /// The context of the instance the operator belongs to.
    pub closed spec fn context(&self) -> InstanceContext {
        self.context
    }

    /// The operator's input ports.
    pub closed spec fn inputs(&self) -> Seq<PortDescriptor> {
        self.inputs@
    }

    /// The operator's output ports.
    pub closed spec fn outputs(&self) -> Seq<PortDescriptor> {
        self.outputs@
    }

    /// The input ports that have a link, in the order in which they got it.
    pub closed spec fn input_links(&self) -> Seq<Seq<char>> {
        self.links_in.keys()
    }

    /// The sending ends of the operator's links.
    pub closed spec fn output_links(&self) -> Seq<LinkSender<Message<P>>> {
        self.links_out@
    }

    /// The time the operator's computation may take, if that is bounded.
    pub closed spec fn local_deadline(&self) -> Option<Duration> {
        self.local_deadline
    }

    /// The end-to-end deadlines that start at the operator's outputs.
    pub closed spec fn deadlines(&self) -> Seq<E2EDeadlineRecord> {
        self.end_to_end_deadlines@
    }

    /// Whether the operator's loop is meant to go on.
    pub closed spec fn running(&self) -> bool {
        self.is_running
    }

    /// The name of the recording that is going on for an output port, if one
    /// is.
    pub closed spec fn recording(&self, port: Seq<char>) -> Option<Seq<char>> {
        if self.recordings.has(port) {
            Some(self.recordings.at(port)@)
        } else {
            None
        }
    }

    /// No input port has two links, and no output port two recordings.
    pub closed spec fn wf(&self) -> bool {
        receivers_wf(self.links_in) && self.recordings.wf()
    }

    /// Everything about the operator but whether it runs, what it records
    /// and which links it holds.
    pub open spec fn same_node(&self, other: &Self) -> bool {
        &&& self.id() == other.id()
        &&& self.context() == other.context()
        &&& self.inputs() == other.inputs()
        &&& self.outputs() == other.outputs()
        &&& self.local_deadline() == other.local_deadline()
        &&& self.deadlines() == other.deadlines()
    }

    /// Makes the runner of an operator from the operator's description and
    /// the link ends that the wiring has set aside for it. The runner takes
    /// them all and starts out idle and not recording.
    pub fn try_new(context: InstanceContext, operator: OperatorLoaded, io: OperatorIO<P>) -> (r:
        ZFResult<Self>)
        requires
            io.wf(),
        ensures
            r matches Ok(runner) && {
                &&& runner.wf()
                &&& runner.id() == operator.id@
                &&& runner.context() == context
                &&& runner.inputs() == operator.inputs@
                &&& runner.outputs() == operator.outputs@
                &&& runner.local_deadline() == operator.local_deadline
                &&& runner.deadlines() == operator.end_to_end_deadlines@
                &&& runner.input_links() == io.input_ids()
                &&& crate::io::sender_ids(runner.output_links()) == io.output_ids()
                &&& !runner.running()
                &&& forall|p: Seq<char>| runner.recording(p) is None
            },
    {
        let (links_in, links_out) = io.take();
        Ok(
            OperatorRunner {
                id: operator.id,
                context,
                inputs: operator.inputs,
                outputs: operator.outputs,
                links_in,
                links_out,
                is_running: false,
                local_deadline: operator.local_deadline,
                end_to_end_deadlines: operator.end_to_end_deadlines,
                recordings: Table::new(),
            },
        )
    }

    /// Marks the operator as running.
    pub fn start(&mut self)
        ensures
            final(self).running(),
            final(self).same_node(old(self)),
            final(self).wf() == old(self).wf(),
            final(self).input_links() == old(self).input_links(),
            final(self).output_links() == old(self).output_links(),
            forall|p: Seq<char>| final(self).recording(p) == old(self).recording(p),
    {
        self.is_running = true;
    }

    /// Asks the operator's loop to end after the pass it is in.
    pub fn stop(&mut self)
        ensures
            !final(self).running(),
            final(self).same_node(old(self)),
            final(self).wf() == old(self).wf(),
            final(self).input_links() == old(self).input_links(),
            final(self).output_links() == old(self).output_links(),
            forall|p: Seq<char>| final(self).recording(p) == old(self).recording(p),
    {
        self.is_running = false;
    }

    pub fn is_running(&self) -> (r: bool)
        ensures
            r == self.running(),
    {
        self.is_running
    }

    /// Settles one pass of the operator's loop: a pass that failed stops the
    /// operator, and the failure is what the loop ends with.
    pub fn after_iteration<T>(&mut self, outcome: ZFResult<T>) -> (r: ZFResult<T>)
        ensures
            r == outcome,
            outcome is Ok ==> final(self).running() == old(self).running(),
            outcome is Err ==> !final(self).running(),
            final(self).same_node(old(self)),
            final(self).wf() == old(self).wf(),
            final(self).input_links() == old(self).input_links(),
            final(self).output_links() == old(self).output_links(),
            forall|p: Seq<char>| final(self).recording(p) == old(self).recording(p),
    {
        if outcome.is_err() {
            self.is_running = false;
        }
        outcome
    }

    /// The tokens of an operator that has not yet taken anything in: one
    /// for each input that has a link, none with a message waiting.
    pub fn tokens(&self) -> (tokens: Table<Token<P>>)
        requires
            self.wf(),
        ensures
            tokens.wf(),
            tokens.keys() == self.input_links(),
            forall|i: int|
                0 <= i < tokens.values().len() ==> #[trigger] tokens.values()[i] is NotReady,
    {
        let mut tokens: Table<Token<P>> = Table::new();
        let mut i: usize = 0;
        while i < self.links_in.len()
            invariant
                i <= self.links_in.keys().len(),
                self.links_in.wf(),
                tokens.wf(),
                tokens.keys() == self.links_in.keys().take(i as int),
                tokens.values().len() == i,
                forall|j: int| 0 <= j < i ==> #[trigger] tokens.values()[j] is NotReady,
            decreases self.links_in.keys().len() - i,
        {
            let port = self.links_in.key(i).clone();
            proof {
                let ks = self.links_in.keys();
                assert(ks.take(i + 1) =~= ks.take(i as int).push(ks[i as int]));
                if tokens.has(port@) {
                    let a = choose|a: int| 0 <= a < i && ks.take(i as int)[a] == port@;
                    assert(ks[a] == ks[i as int]);
                }
            }
            tokens.push(port, Token::NotReady);
            i += 1;
        }
        proof {
            assert(self.links_in.keys().take(i as int) =~= self.links_in.keys());
        }
        tokens
    }

    /// Takes in one envelope that a link has delivered at the input
    /// `port_id`, and keeps it as that input's token until the operator fires.
    ///
    /// A control message is refused with `Unimplemented`; a message for a
    /// port that has no token with `PortNotFound`; a data message that
    /// arrives when the clock has run out of timestamps with `InvalidState`.
    /// In all three cases nothing changes. Otherwise the data message is taken
    /// in at this input: the clock is advanced with its timestamp, each of its
    /// deadlines that ends here and has run out by the time of arrival is
    /// added to its misses, and the outcome takes the place of the input's
    /// token.
    pub fn accept(
        &self,
        clock: &mut Clock,
        tokens: &mut Table<Token<P>>,
        port_id: &PortId,
        message: &Message<P>,
    ) -> (r: ZFResult<()>)
        requires
            old(clock).wf(),
            old(tokens).wf(),
        ensures
            final(clock).wf(),
            final(clock).id() == old(clock).id(),
            final(tokens).wf(),
            final(tokens).keys() == old(tokens).keys(),
            r is Err ==> final(tokens).values() == old(tokens).values() && final(clock).time()
                == old(clock).time(),
            message is Control ==> r == Err::<(), ZFError>(ZFError::Unimplemented),
            message is Data && !old(tokens).has(port_id@) ==> (r matches Err(
                ZFError::PortNotFound(p),
            ) && p.0@ == self.id() && p.1@ == port_id@),
            message is Data && old(tokens).has(port_id@) && old(clock).time() >= u64::MAX - 1
                ==> r == Err::<(), ZFError>(ZFError::InvalidState),
            message is Data && old(tokens).has(port_id@) && old(clock).time() < u64::MAX - 1 ==> {
                &&& message matches Message::Data(data)
                &&& r is Ok
                &&& final(tokens).at(port_id@) matches Token::Ready(got)
                &&& old(clock).ticked(data.timestamp@, got.clock_updated, got.now@, *final(clock))
                &&& got.message@ == taken_in(data@, self.id(), port_id@, got.now.time)
                &&& final(tokens).values() == old(tokens).values().update(
                    old(tokens).keys().index_of(port_id@),
                    Token::Ready(got),
                )
            },
    {
        match message {
            Message::Control(_) => Err(ZFError::Unimplemented),
            Message::Data(data) => {
                let i = match tokens.position(port_id) {
                    Some(i) => i,
                    None => {
                        return Err(ZFError::PortNotFound((self.id.clone(), port_id.clone())));
                    },
                };
                let got = match receive_data(clock, &self.id, port_id, data) {
                    Ok(got) => got,
                    Err(e) => {
                        return Err(e);
                    },
                };
                let ghost before = *tokens;
                tokens.replace(i, Token::Ready(got));
                proof {
                    before.lemma_index(i as int);
                    tokens.lemma_index(i as int);
                }
                Ok(())
            },
        }
    }

    /// Holds the time that the operator's computation took against its
    /// local deadline. A miss is reported exactly when the operator has a
    /// local deadline and the computation took at least that long.
    pub fn local_deadline_miss(&self, elapsed: Duration) -> (r: Option<LocalDeadlineMiss>)
        ensures
            r == local_miss(self.local_deadline(), elapsed),
    {
        check_local_deadline(&self.local_deadline, elapsed)
    }

    /// Gathers what the messages of one firing pass on to the messages that
    /// the firing produces.
    pub fn carry(&self, inputs: &Table<DataMessage<P>>) -> (carried: Carried)
        ensures
            views(carried.deadlines@) == inherited_deadlines(views(inputs.values()), self.id()),
            views(carried.missed@) == inherited_misses(views(inputs.values()), self.id()),
    {
        carry_over(inputs, &self.id)
    }

    /// Makes the data message that goes out of the output `port_id` with
    /// the timestamp that the clock gave for it: the payload as it is, that
    /// timestamp, the deadlines carried over from the inputs, followed by the
    /// operator's own deadlines that start at the port, started at that
    /// timestamp, and the misses carried over.
    pub fn make_output(
        &self,
        port_id: &PortId,
        data: &Arc<P>,
        timestamp: Timestamp,
        carried: &Carried,
    ) -> (r: DataMessage<P>)
        ensures
            r@ == (DataView {
                data: **data,
                timestamp: timestamp@,
                deadlines: views(carried.deadlines@) + started(
                    records_from(views(self.deadlines()), self.id(), port_id@),
                    timestamp@,
                ),
                missed: views(carried.missed@),
            }),
    {
        let mut deadlines = carried.deadlines.clone();
        let mut own = start_deadlines(&self.end_to_end_deadlines, &self.id, port_id, &timestamp);
        let ghost d0 = views(deadlines@);
        let ghost d1 = views(own@);
        assert(d0 =~= views(carried.deadlines@));
        deadlines.append(&mut own);
        assert(views(deadlines@) =~= d0 + d1);
        let missed = carried.missed.clone();
        assert(views(missed@) =~= views(carried.missed@));
        DataMessage {
            data: crate::message::share(data),
            timestamp,
            end_to_end_deadlines: deadlines,
            missed_end_to_end_deadlines: missed,
        }
    }

    /// Makes the envelopes of one firing from what the output rule has sent
    /// to the output ports, one envelope for each port, in the order of the
    /// ports.
    ///
    /// A control message goes out as it is. Data goes out with a fresh
    /// timestamp of the clock, later than all the clock has made or taken in
    /// before and than those of the envelopes made before it; with the
    /// deadlines carried over from the inputs, followed by the operator's own
    /// deadlines that start at the port, started at that timestamp; and with
    /// the misses carried over. Each envelope comes with the name of the
    /// recording that is going on for its port, if one is.
    ///
    /// Fails with `InvalidState` when the clock runs out of timestamps, and
    /// only then: the clock is then at its largest time, and there was data
    /// that wanted a timestamp. Without data among the outputs the clock is
    /// not asked, and the envelopes are made. With data, a clock at its
    /// largest time makes the firing fail; a clock that is not there yet has
    /// a timestamp for the first data at least, so that a firing with data
    /// for one port goes through.
    pub fn prepare_outputs(
        &self,
        clock: &mut Clock,
        carried: &Carried,
        outputs: &Table<NodeOutput<P>>,
    ) -> (r: ZFResult<Vec<Outgoing<P>>>)
        requires
            old(clock).wf(),
            self.wf(),
            outputs.wf(),
        ensures
            final(clock).wf(),
            final(clock).id() == old(clock).id(),
            old(clock).time() <= final(clock).time(),
            no_data(outputs.values()) ==> r is Ok && final(clock).time() == old(clock).time(),
            !no_data(outputs.values()) && old(clock).time() == u64::MAX ==> r is Err,
            !more_data_than_one(outputs.values()) && old(clock).time() < u64::MAX ==> r is Ok,
            r matches Err(e) ==> e == ZFError::InvalidState && final(clock).time() == u64::MAX
                && !no_data(outputs.values()),
            r matches Ok(out) ==> {
                &&& out@.len() == outputs.keys().len()
                &&& forall|i: int|
                    0 <= i < out@.len() ==> {
                        &&& (#[trigger] out@[i]).port_id@ == outputs.keys()[i]
                        &&& out@[i].message@ == outgoing_message(
                            outputs.values()[i],
                            self.id(),
                            outputs.keys()[i],
                            stamp_of(out@[i].message@),
                            old(clock).id(),
                            views(carried.deadlines@),
                            views(carried.missed@),
                            views(self.deadlines()),
                        )
                        &&& match out@[i].record_to {
                            Some(name) => self.recording(outputs.keys()[i]) == Some(name@),
                            None => self.recording(outputs.keys()[i]) is None,
                        }
                        &&& outputs.values()[i] is Data ==> old(clock).time() < stamp_of(
                            out@[i].message@,
                        ) <= final(clock).time()
                    }
                &&& forall|i: int, j: int|
                    0 <= i < j < out@.len() && outputs.values()[i] is Data
                        && outputs.values()[j] is Data ==> stamp_of(#[trigger] out@[i].message@)
                        < stamp_of(#[trigger] out@[j].message@)
            },
    {
        let mut out: Vec<Outgoing<P>> = Vec::new();
        let ghost start = clock.time();
        let ghost cid = clock.id();
        let mut i: usize = 0;
        while i < outputs.len()
            invariant
                i <= outputs.keys().len(),
                outputs.keys().len() == outputs.values().len(),
                self.wf(),
                clock.wf(),
                clock.id() == cid,
                cid == old(clock).id(),
                start == old(clock).time(),
                start <= clock.time(),
                no_data(outputs.values().take(i as int)) ==> clock.time() == start,
                start == u64::MAX ==> no_data(outputs.values().take(i as int)),
                out@.len() == i,
                forall|k: int|
                    0 <= k < i ==> {
                        &&& (#[trigger] out@[k]).port_id@ == outputs.keys()[k]
                        &&& out@[k].message@ == outgoing_message(
                            outputs.values()[k],
                            self.id(),
                            outputs.keys()[k],
                            stamp_of(out@[k].message@),
                            cid,
                            views(carried.deadlines@),
                            views(carried.missed@),
                            views(self.deadlines()),
                        )
                        &&& match out@[k].record_to {
                            Some(name) => self.recording(outputs.keys()[k]) == Some(name@),
                            None => self.recording(outputs.keys()[k]) is None,
                        }
                        &&& outputs.values()[k] is Data ==> start < stamp_of(out@[k].message@)
                            <= clock.time()
                    },
                forall|a: int, b: int|
                    0 <= a < b < i && outputs.values()[a] is Data && outputs.values()[b] is Data
                        ==> stamp_of(#[trigger] out@[a].message@) < stamp_of(
                        #[trigger] out@[b].message@,
                    ),
            decreases outputs.keys().len() - i,
        {
            let port_id = outputs.key(i).clone();
            let ghost seen = outputs.values().take(i as int);
            proof {
                assert(outputs.values().take(i + 1) =~= seen.push(outputs.values()[i as int]));
                if !no_data(seen) {
                    let a = choose|a: int| 0 <= a < seen.len() && seen[a] is Data;
                    assert(outputs.values()[a] is Data);
                    assert(outputs.values().take(i + 1)[a] is Data);
                }
            }
            let message = match outputs.value(i) {
                NodeOutput::Data(data) => {
                    proof {
                        assert(outputs.values()[i as int] is Data);
                        assert(outputs.values().take(i + 1)[i as int] is Data);
                    }
                    let timestamp = match clock.new_timestamp() {
                        Ok(ts) => ts,
                        Err(e) => {
                            proof {
                                if start < u64::MAX {
                                    let a = choose|a: int| 0 <= a < seen.len() && seen[a] is Data;
                                    assert(outputs.values()[a] is Data);
                                    assert(more_data_than_one(outputs.values()));
                                }
                            }
                            return Err(e);
                        },
                    };
                    Message::Data(self.make_output(&port_id, data, timestamp, carried))
                },
                NodeOutput::Control(c) => Message::Control(c.clone()),
            };
            let record_to = match self.recordings.get(&port_id) {
                Some(name) => Some(name.clone()),
                None => None,
            };
            let ghost before = out@;
            out.push(Outgoing { port_id, message: Arc::new(message), record_to });
            proof {
                assert forall|k: int| 0 <= k < i implies out@[k] == before[k] by {}
                if no_data(seen) && !(outputs.values()[i as int] is Data) {
                    assert forall|a: int| 0 <= a < i + 1 implies !(
                    #[trigger] outputs.values().take(i + 1)[a] is Data) by {
                        if a < i {
                            assert(!(seen[a] is Data));
                        }
                    }
                }
            }
            i += 1;
        }
        proof {
            assert(outputs.values().take(i as int) =~= outputs.values());
        }
        Ok(out)
    }

    /// Sends an envelope over every link of the output `port_id`. The round
    /// fails, with `Disconnected`, exactly when the port has links and every
    /// one of them has lost its receiver. Otherwise the number of links that
    /// took the envelope is returned: at least one and at most all when the
    /// port has links, none when it has no link.
    pub fn send(&self, port_id: &PortId, message: &Arc<Message<P>>) -> (r: ZFResult<usize>)
        ensures
            round_over(r, bound_to(self.output_links(), port_id@).len()),
    {
        broadcast(&self.links_out, port_id, message)
    }

    pub fn get_id(&self) -> (r: NodeId)
        ensures
            r@ == self.id(),
    {
        self.id.clone()
    }

    pub fn get_kind(&self) -> (r: RunnerKind)
        ensures
            r == RunnerKind::Operator,
    {
        RunnerKind::Operator
    }

    /// Gives the operator a receiving end for the input port it is bound
    /// to, in place of the one the port may have.
    pub fn add_input(&mut self, input: LinkReceiver<Message<P>>) -> (r: ZFResult<()>)
        requires
            old(self).wf(),
        ensures
            r is Ok,
            final(self).wf(),
            final(self).same_node(old(self)),
            final(self).running() == old(self).running(),
            final(self).output_links() == old(self).output_links(),
            forall|p: Seq<char>| final(self).recording(p) == old(self).recording(p),
            old(self).input_links().contains(input.id@)
                ==> final(self).input_links() == old(self).input_links(),
            !old(self).input_links().contains(input.id@)
                ==> final(self).input_links() == old(self).input_links().push(input.id@),
    {
        let key = input.id.clone();
        let _ = self.links_in.insert(key, input);
        Ok(())
    }

    /// Gives the operator one more link to feed, from the output port the
    /// sending end is bound to.
    pub fn add_output(&mut self, output: LinkSender<Message<P>>) -> (r: ZFResult<()>)
        ensures
            r is Ok,
            final(self).wf() == old(self).wf(),
            final(self).same_node(old(self)),
            final(self).running() == old(self).running(),
            final(self).input_links() == old(self).input_links(),
            final(self).output_links() == old(self).output_links().push(output),
            forall|p: Seq<char>| final(self).recording(p) == old(self).recording(p),
    {
        self.links_out.push(output);
        Ok(())
    }

    /// The operator's input ports.
    pub fn get_inputs(&self) -> (r: Vec<PortDescriptor>)
        ensures
            r@ == self.inputs(),
    {
        let r = self.inputs.clone();
        assert(r@ =~= self.inputs@);
        r
    }

    /// The operator's output ports.
    pub fn get_outputs(&self) -> (r: Vec<PortDescriptor>)
        ensures
            r@ == self.outputs(),
    {
        let r = self.outputs.clone();
        assert(r@ =~= self.outputs@);
        r
    }

    /// Handles to the sending ends of the operator's links, in their order,
    /// each bound to the port of the end it was made from.
    pub fn get_outputs_links(&self) -> (r: Vec<LinkSender<Message<P>>>)
        ensures
            r@.len() == self.output_links().len(),
            forall|i: int|
                0 <= i < r@.len() ==> (#[trigger] r@[i]).id == self.output_links()[i].id,
    {
        let mut out: Vec<LinkSender<Message<P>>> = Vec::new();
        let mut i: usize = 0;
        while i < self.links_out.len()
            invariant
                i <= self.links_out.len(),
                out@.len() == i,
                forall|j: int| 0 <= j < i ==> (#[trigger] out@[j]).id == self.links_out@[j].id,
            decreases self.links_out.len() - i,
        {
            out.push(self.links_out[i].clone());
            i += 1;
        }
        out
    }

    /// Hands out the receiving ends of all inputs, in the order in which
    /// the inputs got them, and leaves the operator without.
    pub fn take_input_links(&mut self) -> (r: Vec<LinkReceiver<Message<P>>>)
        requires
            old(self).wf(),
        ensures
            final(self).wf(),
            final(self).input_links().len() == 0,
            r@.len() == old(self).input_links().len(),
            forall|i: int| 0 <= i < r@.len()
                ==> (#[trigger] r@[i]).id@ == old(self).input_links()[i],
            final(self).same_node(old(self)),
            final(self).running() == old(self).running(),
            final(self).output_links() == old(self).output_links(),
            forall|p: Seq<char>| final(self).recording(p) == old(self).recording(p),
    {
        let mut out: Vec<LinkReceiver<Message<P>>> = Vec::new();
        let ghost all = self.links_in.keys();
        while self.links_in.len() > 0
            invariant
                receivers_wf(self.links_in),
                self.recordings == old(self).recordings,
                self.id == old(self).id,
                self.context == old(self).context,
                self.inputs == old(self).inputs,
                self.outputs == old(self).outputs,
                self.links_out == old(self).links_out,
                self.is_running == old(self).is_running,
                self.local_deadline == old(self).local_deadline,
                self.end_to_end_deadlines == old(self).end_to_end_deadlines,
                all == old(self).links_in.keys(),
                out@.len() + self.links_in.keys().len() == all.len(),
                forall|i: int| 0 <= i < out@.len() ==> (#[trigger] out@[i]).id@ == all[i],
                forall|i: int|
                    0 <= i < self.links_in.keys().len() ==> #[trigger] self.links_in.keys()[i]
                        == all[out@.len() + i],
            decreases self.links_in.keys().len(),
        {
            let ghost ks = self.links_in.keys();
            let ghost vs = self.links_in.values();
            let (_, rx) = self.links_in.remove_at(0);
            proof {
                assert(rx == vs[0]);
                assert(vs[0].id@ == ks[0]);
                assert forall|i: int| 0 <= i < self.links_in.keys().len() implies #[trigger]
                    self.links_in.keys()[i] == all[out@.len() + 1 + i] by {
                    assert(self.links_in.keys()[i] == ks[i + 1]);
                }
                assert forall|i: int|
                    0 <= i < self.links_in.keys().len() implies (
                #[trigger] self.links_in.values()[i]).id@ == self.links_in.keys()[i] by {
                    assert(self.links_in.values()[i] == vs[i + 1]);
                    assert(self.links_in.keys()[i] == ks[i + 1]);
                }
            }
            out.push(rx);
        }
        out
    }

    /// Whether the operator has an output port of the given name.
    pub open spec fn has_output(&self, port: Seq<char>) -> bool {
        exists|i: int| 0 <= i < self.outputs().len()
            && (#[trigger] self.outputs()[i]).port_id@ == port
    }

    fn declares_output(&self, port_id: &PortId) -> (r: bool)
        ensures
            r == self.has_output(port_id@),
    {
        let mut i: usize = 0;
        while i < self.outputs.len()
            invariant
                i <= self.outputs.len(),
                forall|j: int| 0 <= j < i ==> (#[trigger] self.outputs@[j]).port_id@ != port_id@,
            decreases self.outputs.len() - i,
        {
            if self.outputs[i].port_id == *port_id {
                assert(self.outputs()[i as int].port_id@ == port_id@);
                return true;
            }
            i += 1;
        }
        false
    }

    /// Begins a recording of what the operator sends to the output
    /// `port_id` and returns its name: the names of the flow, the instance,
    /// the operator and the port, and the time of a fresh timestamp of the
    /// clock.
    ///
    /// Fails with `PortNotFound` when the operator has no such output, with
    /// `AlreadyRecording` when a recording of the port is going on, and with
    /// `InvalidState` when the clock has run out of timestamps. Nothing
    /// changes then.
    pub fn start_recording_on(&mut self, port_id: &PortId, clock: &mut Clock) -> (r: ZFResult<
        String,
    >)
        requires
            old(self).wf(),
            old(clock).wf(),
        ensures
            final(self).wf(),
            final(clock).wf(),
            final(clock).id() == old(clock).id(),
            final(self).same_node(old(self)),
            final(self).running() == old(self).running(),
            final(self).input_links() == old(self).input_links(),
            final(self).output_links() == old(self).output_links(),
            forall|p: Seq<char>| p != port_id@
                ==> final(self).recording(p) == old(self).recording(p),
            r is Err ==> final(self).recording(port_id@) == old(self).recording(port_id@)
                && final(clock).time() == old(clock).time(),
            !old(self).has_output(port_id@) ==> (r matches Err(ZFError::PortNotFound(p)) && p.0@
                == old(self).id() && p.1@ == port_id@),
            old(self).has_output(port_id@) && old(self).recording(port_id@) is Some ==> r == Err::<
                String,
                ZFError,
            >(ZFError::AlreadyRecording),
            old(self).has_output(port_id@) && old(self).recording(port_id@) is None
                && old(clock).time() == u64::MAX
                ==> r == Err::<String, ZFError>(ZFError::InvalidState),
            old(self).has_output(port_id@) && old(self).recording(port_id@) is None
                && old(clock).time() < u64::MAX ==> {
                &&& r matches Ok(name)
                &&& old(clock).time() < final(clock).time()
                &&& name@ == record_name(
                    record_base_name(
                        old(self).context().flow_id@,
                        old(self).context().instance_id,
                        old(self).id(),
                        port_id@,
                    ),
                    final(clock).time(),
                )
                &&& final(self).recording(port_id@) == Some(name@)
            },
    {
        if !self.declares_output(port_id) {
            return Err(ZFError::PortNotFound((self.id.clone(), port_id.clone())));
        }
        if self.recordings.contains_key(port_id) {
            return Err(ZFError::AlreadyRecording);
        }
        let ts = match clock.new_timestamp() {
            Ok(ts) => ts,
            Err(e) => {
                return Err(e);
            },
        };
        let base = record_base(&self.context.flow_id, self.context.instance_id, &self.id, port_id);
        let name = record_resource(&base, ts.time);
        let ghost before = self.recordings;
        self.recordings.push(port_id.clone(), name.clone());
        proof {
            assert forall|p: Seq<char>| p != port_id@
                implies self.recording(p) == old(self).recording(p) by {
                assert(self.recordings@.dom().contains(p) <==> self.recordings.has(p));
                assert(before@.dom().contains(p) <==> before.has(p));
                if before.has(p) {
                    assert(self.recordings@[p] == self.recordings.at(p));
                    assert(before@[p] == before.at(p));
                }
            }
            assert(self.recordings@.dom().contains(port_id@));
            assert(self.recordings.has(port_id@));
            assert(self.recordings@[port_id@] == self.recordings.at(port_id@));
        }
        Ok(name)
    }

    /// Ends the recording that is going on for the output `port_id` and
    /// returns its name. When none is going on: `NotRecoding`.
    pub fn stop_recording_on(&mut self, port_id: &PortId) -> (r: ZFResult<String>)
        requires
            old(self).wf(),
        ensures
            final(self).wf(),
            final(self).same_node(old(self)),
            final(self).running() == old(self).running(),
            final(self).input_links() == old(self).input_links(),
            final(self).output_links() == old(self).output_links(),
            forall|p: Seq<char>| p != port_id@
                ==> final(self).recording(p) == old(self).recording(p),
            final(self).recording(port_id@) is None,
            match old(self).recording(port_id@) {
                Some(name) => r matches Ok(n) && n@ == name,
                None => r == Err::<String, ZFError>(ZFError::NotRecoding),
            },
    {
        let ghost before = self.recordings;
        let r = match self.recordings.remove(port_id) {
            Some(name) => Ok(name),
            None => Err(ZFError::NotRecoding),
        };
        proof {
            assert forall|p: Seq<char>| p != port_id@
                implies self.recording(p) == old(self).recording(p) by {
                assert(self.recordings@.dom().contains(p) <==> self.recordings.has(p));
                assert(before@.dom().contains(p) <==> before.has(p));
                if before.has(p) {
                    assert(self.recordings@[p] == self.recordings.at(p));
                    assert(before@[p] == before.at(p));
                }
            }
        }
        r
    }

    /// An operator records by output port; without a port there is nothing
    /// to begin.
    pub fn start_recording(&self) -> (r: ZFResult<String>)
        ensures
            r == Err::<String, ZFError>(ZFError::Unsupported),
    {
        Err(ZFError::Unsupported)
    }

    /// An operator records by output port; without a port there is nothing
    /// to end.
    pub fn stop_recording(&self) -> (r: ZFResult<String>)
        ensures
            r == Err::<String, ZFError>(ZFError::Unsupported),
    {
        Err(ZFError::Unsupported)
    }

    /// Whether a recording is going on for some output port.
    pub fn is_recording(&self) -> (r: bool)
        requires
            self.wf(),
        ensures
            r == exists|p: Seq<char>| self.recording(p) is Some,
    {
        let r = self.recordings.len() > 0;
        proof {
            if r {
                self.recordings.lemma_index(0);
                assert(self.recording(self.recordings.keys()[0]) is Some);
            }
        }
        r
    }
}

} // verus!
