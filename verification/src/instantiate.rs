use crate::context::InstanceContext;
use crate::dataflow::Dataflow;
use crate::error::{ZFError, ZFResult};
use crate::instance::DataflowInstance;
use crate::io::{sender_ids, OperatorIO};
use crate::runners::connector::{
    missing_connector_link, JanuReceiver, JanuSender, ZFConnectorKind, ZFConnectorRecord,
};
use crate::runners::count_of;
use crate::runners::node::{NodeRunner, RunnerManager};
use crate::runners::operator::{OperatorLoaded, OperatorRunner};
use crate::runners::sink::{missing_sink_link, SinkLoaded, SinkRunner};
use crate::runners::source::{missing_source_links, SourceLoaded, SourceRunner};
use crate::table::Table;
use crate::types::{views, LinkView, NodeId};
use crate::wiring::{clash_at, create_links, inputs_of, names, outputs_of, touched, wired};
use vstd::prelude::*;
use vstd::string::*;

verus! {

/// What a flow says of one of its nodes.
pub enum NodePlan {
    Source(SourceLoaded),
    Operator(OperatorLoaded),
    Sink(SinkLoaded),
    Connector(ZFConnectorRecord),
}

impl NodePlan {
    /// The node's name.
    pub open spec fn id(self) -> Seq<char> {
        match self {
            NodePlan::Source(s) => s.id@,
            NodePlan::Operator(o) => o.id@,
            NodePlan::Sink(s) => s.id@,
            NodePlan::Connector(c) => c.id@,
        }
    }

    /// The word for the node's kind.
    pub open spec fn word(self) -> Seq<char> {
        match self {
            NodePlan::Source(_) => "Source"@,
            NodePlan::Operator(_) => "Operator"@,
            NodePlan::Sink(_) => "Sink"@,
            NodePlan::Connector(_) => "Connector"@,
        }
    }
}

/// What a flow says of its nodes, in the order of their names: sources
/// first, then operators, sinks and connectors.
pub open spec fn plans(flow: &Dataflow) -> Seq<NodePlan> {
    flow.sources().values().map_values(|s: SourceLoaded| NodePlan::Source(s))
        + flow.operators().values().map_values(|o: OperatorLoaded| NodePlan::Operator(o))
        + flow.sinks().values().map_values(|s: SinkLoaded| NodePlan::Sink(s))
        + flow.connectors().values().map_values(|c: ZFConnectorRecord| NodePlan::Connector(c))
}

/// The text of the error for a node that no local link touches.
pub open spec fn no_links_text(word: Seq<char>, node: Seq<char>) -> Seq<char> {
    "Links for "@ + word + " < "@ + node + " > were not created."@
}

/// Why a node cannot get its runner.
pub enum PlanFailure {
    /// No local link starts or ends at the node.
    NoLinks(Seq<char>),
    /// The node's output port has no link.
    MissingOutput(Seq<char>),
    /// The node's input port has no link.
    MissingInput(Seq<char>),
}

/// Whether a node of the flow can get its runner from the local links, and
/// if not, why not. A node needs a local link at all; a source and a
/// receiving connector need one that leaves their port, a sink and a sending
/// connector one that arrives at it.
pub open spec fn plan_failure(plan: NodePlan, nodes: Seq<Seq<char>>, links: Seq<LinkView>)
    -> Option<PlanFailure> {
    let id = plan.id();
    if !touched(nodes, links, id, links.len() as int) {
        Some(PlanFailure::NoLinks(no_links_text(plan.word(), id)))
    } else {
        match plan {
            NodePlan::Source(s) => if outputs_of(nodes, links, id).contains(s.output.port_id@) {
                None
            } else {
                Some(PlanFailure::MissingOutput(missing_source_links(s.output.port_id@, id)))
            },
            NodePlan::Operator(_) => None,
            NodePlan::Sink(s) => if inputs_of(nodes, links, id).contains(s.input.port_id@) {
                None
            } else {
                Some(PlanFailure::MissingOutput(missing_sink_link(s.input.port_id@, id)))
            },
            NodePlan::Connector(c) => match c.kind {
                ZFConnectorKind::Sender => if inputs_of(nodes, links, id).contains(
                    c.link_id.port_id@,
                ) {
                    None
                } else {
                    Some(
                        PlanFailure::MissingInput(missing_connector_link(c.link_id.port_id@, id)),
                    )
                },
                ZFConnectorKind::Receiver => if outputs_of(nodes, links, id).contains(
                    c.link_id.port_id@,
                ) {
                    None
                } else {
                    Some(
                        PlanFailure::MissingOutput(missing_connector_link(c.link_id.port_id@, id)),
                    )
                },
            },
        }
    }
}

/// Whether an error reports the given failure.
pub open spec fn reports(e: ZFError, f: PlanFailure) -> bool {
    match f {
        PlanFailure::NoLinks(text) => e matches ZFError::IOError(m) && m@ == text,
        PlanFailure::MissingOutput(text) => e matches ZFError::MissingOutput(m) && m@ == text,
        PlanFailure::MissingInput(text) => e matches ZFError::MissingInput(m) && m@ == text,
    }
}

/// Whether a runner is the one that the flow asks for: of the node's kind,
/// with the node's name and ports, idle, and holding the ends of the local
/// links of the node.
pub open spec fn runner_fits<P>(
    runner: NodeRunner<P>,
    plan: NodePlan,
    context: InstanceContext,
    nodes: Seq<Seq<char>>,
    links: Seq<LinkView>,
) -> bool {
    match plan {
        NodePlan::Source(s) => {
            &&& runner matches NodeRunner::Source(r)
            &&& r.wf()
            &&& r.id() == s.id@
            &&& r.context() == context
            &&& r.output() == s.output
            &&& r.period() == s.period
            &&& r.deadlines() == s.end_to_end_deadlines@
            &&& r.links().len() == count_of(outputs_of(nodes, links, s.id@), s.output.port_id@)
            &&& forall|i: int|
                0 <= i < r.links().len() ==> (#[trigger] r.links()[i]).id@ == s.output.port_id@
            &&& !r.running()
            &&& r.recording() is None
        },
        NodePlan::Operator(o) => {
            &&& runner matches NodeRunner::Operator(r)
            &&& r.wf()
            &&& r.id() == o.id@
            &&& r.context() == context
            &&& r.inputs() == o.inputs@
            &&& r.outputs() == o.outputs@
            &&& r.local_deadline() == o.local_deadline
            &&& r.deadlines() == o.end_to_end_deadlines@
            &&& r.input_links() == inputs_of(nodes, links, o.id@)
            &&& sender_ids(r.output_links()) == outputs_of(nodes, links, o.id@)
            &&& !r.running()
            &&& forall|p: Seq<char>| r.recording(p) is None
        },
        NodePlan::Sink(s) => {
            &&& runner matches NodeRunner::Sink(r)
            &&& r.id() == s.id@
            &&& r.context() == context
            &&& r.input() == s.input
            &&& r.has_link()
            &&& r.link_id() == s.input.port_id@
            &&& !r.running()
        },
        NodePlan::Connector(c) => match c.kind {
            ZFConnectorKind::Sender => {
                &&& runner matches NodeRunner::Sender(r)
                &&& r.id() == c.id@
                &&& r.context() == context
                &&& r.record() == c
                &&& r.has_link()
                &&& r.link_id() == c.link_id.port_id@
                &&& !r.running()
            },
            ZFConnectorKind::Receiver => {
                &&& runner matches NodeRunner::Receiver(r)
                &&& r.id() == c.id@
                &&& r.context() == context
                &&& r.record() == c
                &&& r.links().len() == count_of(
                    outputs_of(nodes, links, c.id@),
                    c.link_id.port_id@,
                )
                &&& forall|i: int|
                    0 <= i < r.links().len() ==> (#[trigger] r.links()[i]).id@
                        == c.link_id.port_id@
                &&& !r.running()
            },
        },
    }
}

/// How far the making of the runners has come: the first `n` nodes have
/// their runners, and their link ends are gone from the table; the link ends
/// of the others are still as the wiring left them.
spec fn progress<P>(
    links: Table<OperatorIO<P>>,
    full: Table<OperatorIO<P>>,
    runners: Table<NodeRunner<P>>,
    plan: Seq<NodePlan>,
    context: InstanceContext,
    nodes: Seq<Seq<char>>,
    ls: Seq<LinkView>,
    n: int,
) -> bool {
    &&& 0 <= n <= nodes.len()
    &&& nodes.len() == plan.len()
    &&& nodes.no_duplicates()
    &&& wired(full, nodes, ls, ls.len() as int)
    &&& links.wf()
    &&& forall|k: Seq<char>| #[trigger]
        links.has(k) <==> (full.has(k) && !nodes.take(n).contains(k))
    &&& forall|k: Seq<char>| #[trigger] links.has(k) ==> links.at(k) == full.at(k)
    &&& runners.wf()
    &&& runners.keys() == nodes.take(n)
    &&& runners.values().len() == n
    &&& forall|m: int|
        0 <= m < n ==> runner_fits(#[trigger] runners.values()[m], plan[m], context, nodes, ls)
            && runners.values()[m].id() == nodes[m] && runners.values()[m].wf()
    &&& forall|m: int| 0 <= m < n ==> plan_failure(#[trigger] plan[m], nodes, ls) is None
}

/// Takes the link ends of a node out of the table. When the wiring has set
/// none aside for the node, the answer is an `IOError` that names the node.
fn take_io<P>(links: &mut Table<OperatorIO<P>>, id: &NodeId, word: &str) -> (r: ZFResult<
    OperatorIO<P>,
>)
    requires
        old(links).wf(),
    ensures
        final(links).wf(),
        !final(links).has(id@),
        forall|k: Seq<char>|
            #![trigger final(links).has(k)]
            k != id@ ==> (final(links).has(k) == old(links).has(k)) && (old(links).has(k)
                ==> final(links).at(k) == old(links).at(k)),
        r is Ok <==> old(links).has(id@),
        r matches Ok(io) ==> io == old(links).at(id@),
        r matches Err(e) ==> (e matches ZFError::IOError(m) && m@ == no_links_text(word@, id@)),
{
    let ghost before = *links;
    let taken = links.remove(id);
    proof {
        assert forall|k: Seq<char>| k != id@ implies #[trigger] links.has(k) == before.has(k) by {}
        assert forall|k: Seq<char>| k != id@ && #[trigger] before.has(k) implies links.at(k)
            == before.at(k) by {
            assert(links.has(k));
        }
    }
    match taken {
        Some(io) => Ok(io),
        None => {
            let mut text = String::from_str("Links for ");
            text.append(word);
            text.append(" < ");
            text.append(id.as_str());
            text.append(" > were not created.");
            Err(ZFError::IOError(text))
        },
    }
}

/// One more node has its runner.
proof fn lemma_step<P>(
    was: Table<OperatorIO<P>>,
    links: Table<OperatorIO<P>>,
    full: Table<OperatorIO<P>>,
    had: Table<NodeRunner<P>>,
    runners: Table<NodeRunner<P>>,
    runner: NodeRunner<P>,
    plan: Seq<NodePlan>,
    context: InstanceContext,
    nodes: Seq<Seq<char>>,
    ls: Seq<LinkView>,
    n: int,
)
    requires
        progress(was, full, had, plan, context, nodes, ls, n),
        n < nodes.len(),
        links.wf(),
        !links.has(nodes[n]),
        forall|k: Seq<char>|
            #![trigger links.has(k)]
            k != nodes[n] ==> (links.has(k) == was.has(k)) && (was.has(k) ==> links.at(k)
                == was.at(k)),
        runners.wf(),
        runners.keys() == had.keys().push(nodes[n]),
        runners.values() == had.values().push(runner),
        runner_fits(runner, plan[n], context, nodes, ls),
        runner.id() == nodes[n],
        runner.wf(),
        plan_failure(plan[n], nodes, ls) is None,
    ensures
        progress(links, full, runners, plan, context, nodes, ls, n + 1),
{
    let done = nodes.take(n);
    let more = nodes.take(n + 1);
    assert(more =~= done.push(nodes[n]));
    assert forall|k: Seq<char>| #[trigger] links.has(k) <==> (full.has(k) && !more.contains(k)) by {
        if k == nodes[n] {
            assert(more[n] == k);
        } else {
            assert(links.has(k) == was.has(k));
            if more.contains(k) {
                let i = choose|i: int| 0 <= i < more.len() && more[i] == k;
                assert(done[i] == k);
            }
            if done.contains(k) {
                let i = choose|i: int| 0 <= i < done.len() && done[i] == k;
                assert(more[i] == k);
            }
        }
    }
    assert forall|k: Seq<char>| #[trigger] links.has(k) implies links.at(k) == full.at(k) by {
        assert(k != nodes[n]);
        assert(was.has(k));
    }
    assert forall|m: int| 0 <= m < n + 1 implies runner_fits(
        #[trigger] runners.values()[m],
        plan[m],
        context,
        nodes,
        ls,
    ) && runners.values()[m].id() == nodes[m] && runners.values()[m].wf() by {
        if m < n {
            assert(runners.values()[m] == had.values()[m]);
        }
    }
}

/// The link ends that the wiring has set aside for a node that has not got
/// its runner yet are there exactly when a local link touches the node, and
/// are then bound to the ports that the links name.
proof fn lemma_next<P>(
    links: Table<OperatorIO<P>>,
    full: Table<OperatorIO<P>>,
    runners: Table<NodeRunner<P>>,
    plan: Seq<NodePlan>,
    context: InstanceContext,
    nodes: Seq<Seq<char>>,
    ls: Seq<LinkView>,
    n: int,
)
    requires
        progress(links, full, runners, plan, context, nodes, ls, n),
        n < nodes.len(),
    ensures
        !runners.has(nodes[n]),
        links.has(nodes[n]) <==> touched(nodes, ls, nodes[n], ls.len() as int),
        links.has(nodes[n]) ==> {
            &&& links.at(nodes[n]).wf()
            &&& links.at(nodes[n]).input_ids() == inputs_of(nodes, ls, nodes[n])
            &&& links.at(nodes[n]).output_ids() == outputs_of(nodes, ls, nodes[n])
        },
{
    let id = nodes[n];
    let done = nodes.take(n);
    if done.contains(id) {
        let i = choose|i: int| 0 <= i < done.len() && done[i] == id;
        assert(nodes[i] == nodes[n]);
    }
    assert(ls.take(ls.len() as int) =~= ls);
    assert(full.has(id) <==> touched(nodes, ls, id, ls.len() as int));
}

impl<P> DataflowInstance<P> {
    /// Makes an instance of a flow: wires the nodes with links and gives
    /// every node its runner. No node is started.
    ///
    /// The links are made first, as `create_links` says; an input that two
    /// local links arrive at ends the making with `DuplicatedPort`. The
    /// runners are made next, in the order of the nodes: sources, operators,
    /// sinks, connectors. The first node that cannot get its runner ends the
    /// making: with `IOError` when no local link touches the node, with
    /// `MissingOutput` when the port of a source, a sink or a receiving
    /// connector has no link, with `MissingInput` when that of a sending
    /// connector has none.
    pub fn try_instantiate(dataflow: Dataflow) -> (r: ZFResult<Self>)
        requires
            dataflow.wf(),
        ensures
            r is Ok <==> {
                &&& forall|j: int|
                    !clash_at(dataflow.node_ids(), views(dataflow.links()), j)
                &&& forall|i: int|
                    0 <= i < plans(&dataflow).len() ==> plan_failure(
                        #[trigger] plans(&dataflow)[i],
                        dataflow.node_ids(),
                        views(dataflow.links()),
                    ) is None
            },
            r matches Ok(instance) ==> {
                &&& instance.wf()
                &&& instance.context() == (InstanceContext {
                    flow_id: dataflow.flow_id(),
                    instance_id: dataflow.uuid(),
                    runtime: dataflow.context(),
                })
                &&& instance.managers().keys().len() == 0
                &&& instance.runners().keys() == dataflow.node_ids()
                &&& instance.runners().values().len() == plans(&dataflow).len()
                &&& forall|i: int|
                    0 <= i < plans(&dataflow).len() ==> runner_fits(
                        #[trigger] instance.runners().values()[i],
                        plans(&dataflow)[i],
                        instance.context(),
                        dataflow.node_ids(),
                        views(dataflow.links()),
                    )
            },
            r matches Err(e) ==> {
                ||| exists|j: int|
                    {
                        &&& #[trigger] clash_at(dataflow.node_ids(), views(dataflow.links()), j)
                        &&& forall|k: int|
                            0 <= k < j ==> !clash_at(
                                dataflow.node_ids(),
                                views(dataflow.links()),
                                k,
                            )
                        &&& e matches ZFError::DuplicatedPort(p)
                        &&& p.0@ == views(dataflow.links())[j].to.port
                        &&& p.1@ == views(dataflow.links())[j].to.port
                    }
                ||| {
                    &&& forall|j: int|
                        !clash_at(dataflow.node_ids(), views(dataflow.links()), j)
                    &&& exists|i: int|
                        {
                            &&& 0 <= i < plans(&dataflow).len()
                            &&& plan_failure(
                                #[trigger] plans(&dataflow)[i],
                                dataflow.node_ids(),
                                views(dataflow.links()),
                            ) matches Some(f)
                            &&& reports(e, f)
                            &&& forall|k: int|
                                0 <= k < i ==> plan_failure(
                                    #[trigger] plans(&dataflow)[k],
                                    dataflow.node_ids(),
                                    views(dataflow.links()),
                                ) is None
                        }
                }
            },
    {
        let ghost nodes = dataflow.node_ids();
        let ghost ls = views(dataflow.links());
        let ghost plan = plans(&dataflow);
        proof {
            dataflow.lemma_node_ids_distinct();
        }
        let parts = dataflow.into_parts();
        let mut sources = parts.sources;
        let mut operators = parts.operators;
        let mut sinks = parts.sinks;
        let mut connectors = parts.connectors;
        let ghost ka = sources.keys();
        let ghost kb = operators.keys();
        let ghost kc = sinks.keys();
        let ghost kd = connectors.keys();
        let ghost va = sources.values();
        let ghost vb = operators.values();
        let ghost vc = sinks.values();
        let ghost vd = connectors.values();
        proof {
            sources.lemma_len();
            operators.lemma_len();
            sinks.lemma_len();
            connectors.lemma_len();
        }

        // Gather the names of all nodes, to tell the local links from the others.
        let mut node_ids: Vec<NodeId> = Vec::new();
        let mut i: usize = 0;
        while i < sources.len()
            invariant
                i <= ka.len(),
                ka == sources.keys(),
                names(node_ids@) == ka.take(i as int),
            decreases ka.len() - i,
        {
            let ghost before = names(node_ids@);
            node_ids.push(sources.key(i).clone());
            proof {
                assert(names(node_ids@) =~= before.push(ka[i as int]));
                assert(ka.take(i + 1) =~= ka.take(i as int).push(ka[i as int]));
            }
            i += 1;
        }
        proof {
            assert(ka.take(i as int) =~= ka);
        }
        i = 0;
        while i < operators.len()
            invariant
                i <= kb.len(),
                kb == operators.keys(),
                names(node_ids@) == ka + kb.take(i as int),
            decreases kb.len() - i,
        {
            let ghost before = names(node_ids@);
            node_ids.push(operators.key(i).clone());
            proof {
                assert(names(node_ids@) =~= before.push(kb[i as int]));
                assert(kb.take(i + 1) =~= kb.take(i as int).push(kb[i as int]));
            }
            i += 1;
        }
        proof {
            assert(kb.take(i as int) =~= kb);
        }
        i = 0;
        while i < sinks.len()
            invariant
                i <= kc.len(),
                kc == sinks.keys(),
                names(node_ids@) == ka + kb + kc.take(i as int),
            decreases kc.len() - i,
        {
            let ghost before = names(node_ids@);
            node_ids.push(sinks.key(i).clone());
            proof {
                assert(names(node_ids@) =~= before.push(kc[i as int]));
                assert(kc.take(i + 1) =~= kc.take(i as int).push(kc[i as int]));
            }
            i += 1;
        }
        proof {
            assert(kc.take(i as int) =~= kc);
        }
        i = 0;
        while i < connectors.len()
            invariant
                i <= kd.len(),
                kd == connectors.keys(),
                names(node_ids@) == ka + kb + kc + kd.take(i as int),
            decreases kd.len() - i,
        {
            let ghost before = names(node_ids@);
            node_ids.push(connectors.key(i).clone());
            proof {
                assert(names(node_ids@) =~= before.push(kd[i as int]));
                assert(kd.take(i + 1) =~= kd.take(i as int).push(kd[i as int]));
            }
            i += 1;
        }
        proof {
            assert(kd.take(i as int) =~= kd);
            assert(names(node_ids@) == nodes);
        }

        let mut links = match create_links::<P>(node_ids.as_slice(), parts.links.as_slice()) {
            Ok(links) => links,
            Err(e) => {
                return Err(e);
            },
        };
        let ghost full = links;

        let context = InstanceContext {
            flow_id: parts.flow_id,
            instance_id: parts.uuid,
            runtime: parts.context,
        };

        // The links were created, the runners can be made.
        let mut runners: Table<NodeRunner<P>> = Table::new();
        proof {
            assert(nodes.take(0) =~= Seq::<Seq<char>>::empty());
            assert(plan.len() == nodes.len());
        }

        proof {
            assert(ka.skip(0) =~= ka);
            assert(va.skip(0) =~= va);
        }
        while sources.len() > 0
            invariant
                sources.wf(),
                ka.len() == va.len(),
                sources.keys().len() == sources.values().len(),
                runners.keys().len() + sources.keys().len() == ka.len(),
                sources.keys() == ka.skip(runners.keys().len() as int),
                sources.values() == va.skip(runners.keys().len() as int),
                forall|j: int| 0 <= j < va.len() ==> (#[trigger] va[j]).id@ == ka[j],
                forall|j: int| 0 <= j < ka.len() ==> #[trigger] plan[j] == NodePlan::Source(va[j]),
                forall|j: int| 0 <= j < ka.len() ==> #[trigger] nodes[j] == ka[j],
                ka.len() <= nodes.len(),
                progress(
                    links,
                    full,
                    runners,
                    plan,
                    context,
                    nodes,
                    ls,
                    runners.keys().len() as int,
                ),
                forall|j: int| !clash_at(nodes, ls, j),
                nodes == dataflow.node_ids(),
                ls == views(dataflow.links()),
                plan == plans(&dataflow),
            decreases sources.keys().len(),
        {
            let ghost n = runners.keys().len() as int;
            let ghost was = links;
            let ghost had = runners;
            let ghost rest_k = sources.keys();
            let ghost rest_v = sources.values();
            let (id, source) = sources.remove_at(0);
            proof {
                sources.lemma_len();
                lemma_next(links, full, runners, plan, context, nodes, ls, n);
                assert(rest_k[0] == ka[n]);
                assert(rest_v[0] == va[n]);
                assert(id@ == nodes[n]);
                assert(source == va[n]);
                assert(sources.keys() =~= ka.skip(n + 1));
                assert(sources.values() =~= va.skip(n + 1));
            }
            let io = match take_io(&mut links, &id, "Source") {
                Ok(io) => io,
                Err(e) => {
                    proof {
                        assert(plan_failure(plan[n], nodes, ls) matches Some(f) && reports(e, f));
                    }
                    return Err(e);
                },
            };
            let runner = match SourceRunner::try_new(context.clone(), source, io) {
                Ok(runner) => runner,
                Err(e) => {
                    proof {
                        assert(plan_failure(plan[n], nodes, ls) matches Some(f) && reports(e, f));
                    }
                    return Err(e);
                },
            };
            let node = NodeRunner::Source(runner);
            runners.push(id, node);
            proof {
                lemma_step(was, links, full, had, runners, node, plan, context, nodes, ls, n);
                assert(runners.keys().len() == n + 1);
            }
        }

        proof {
            assert(kb.skip(0) =~= kb);
            assert(vb.skip(0) =~= vb);
        }
        while operators.len() > 0
            invariant
                operators.wf(),
                kb.len() == vb.len(),
                operators.keys().len() == operators.values().len(),
                runners.keys().len() + operators.keys().len() == ka.len() + kb.len(),
                runners.keys().len() >= ka.len(),
                operators.keys() == kb.skip(runners.keys().len() - ka.len()),
                operators.values() == vb.skip(runners.keys().len() - ka.len()),
                forall|j: int| 0 <= j < vb.len() ==> (#[trigger] vb[j]).id@ == kb[j],
                forall|j: int|
                    0 <= j < kb.len() ==> #[trigger] plan[ka.len() + j] == NodePlan::Operator(
                        vb[j],
                    ),
                forall|j: int| 0 <= j < kb.len() ==> #[trigger] nodes[ka.len() + j] == kb[j],
                ka.len() + kb.len() <= nodes.len(),
                progress(
                    links,
                    full,
                    runners,
                    plan,
                    context,
                    nodes,
                    ls,
                    runners.keys().len() as int,
                ),
                forall|j: int| !clash_at(nodes, ls, j),
                nodes == dataflow.node_ids(),
                ls == views(dataflow.links()),
                plan == plans(&dataflow),
            decreases operators.keys().len(),
        {
            let ghost n = runners.keys().len() as int;
            let ghost was = links;
            let ghost had = runners;
            let ghost rest_k = operators.keys();
            let ghost rest_v = operators.values();
            let (id, operator) = operators.remove_at(0);
            proof {
                operators.lemma_len();
                lemma_next(links, full, runners, plan, context, nodes, ls, n);
                assert(rest_k[0] == kb[n - ka.len()]);
                assert(rest_v[0] == vb[n - ka.len()]);
                assert(id@ == nodes[ka.len() + (n - ka.len())]);
                assert(operator == vb[n - ka.len()]);
                assert(plan[ka.len() + (n - ka.len())] == NodePlan::Operator(operator));
                assert(operators.keys() =~= kb.skip(n - ka.len() + 1));
                assert(operators.values() =~= vb.skip(n - ka.len() + 1));
            }
            let io = match take_io(&mut links, &id, "Operator") {
                Ok(io) => io,
                Err(e) => {
                    proof {
                        assert(plan_failure(plan[n], nodes, ls) matches Some(f) && reports(e, f));
                    }
                    return Err(e);
                },
            };
            let runner = match OperatorRunner::try_new(context.clone(), operator, io) {
                Ok(runner) => runner,
                Err(e) => {
                    return Err(e);
                },
            };
            let node = NodeRunner::Operator(runner);
            runners.push(id, node);
            proof {
                lemma_step(was, links, full, had, runners, node, plan, context, nodes, ls, n);
                assert(runners.keys().len() == n + 1);
            }
        }

        proof {
            assert(kc.skip(0) =~= kc);
            assert(vc.skip(0) =~= vc);
        }
        while sinks.len() > 0
            invariant
                sinks.wf(),
                kc.len() == vc.len(),
                sinks.keys().len() == sinks.values().len(),
                runners.keys().len() + sinks.keys().len() == ka.len() + kb.len() + kc.len(),
                runners.keys().len() >= ka.len() + kb.len(),
                sinks.keys() == kc.skip(runners.keys().len() - ka.len() - kb.len()),
                sinks.values() == vc.skip(runners.keys().len() - ka.len() - kb.len()),
                forall|j: int| 0 <= j < vc.len() ==> (#[trigger] vc[j]).id@ == kc[j],
                forall|j: int|
                    0 <= j < kc.len() ==> #[trigger] plan[ka.len() + kb.len() + j]
                        == NodePlan::Sink(vc[j]),
                forall|j: int|
                    0 <= j < kc.len() ==> #[trigger] nodes[ka.len() + kb.len() + j] == kc[j],
                ka.len() + kb.len() + kc.len() <= nodes.len(),
                progress(
                    links,
                    full,
                    runners,
                    plan,
                    context,
                    nodes,
                    ls,
                    runners.keys().len() as int,
                ),
                forall|j: int| !clash_at(nodes, ls, j),
                nodes == dataflow.node_ids(),
                ls == views(dataflow.links()),
                plan == plans(&dataflow),
            decreases sinks.keys().len(),
        {
            let ghost n = runners.keys().len() as int;
            let ghost off = ka.len() + kb.len();
            let ghost was = links;
            let ghost had = runners;
            let ghost rest_k = sinks.keys();
            let ghost rest_v = sinks.values();
            let (id, sink) = sinks.remove_at(0);
            proof {
                sinks.lemma_len();
                lemma_next(links, full, runners, plan, context, nodes, ls, n);
                assert(rest_k[0] == kc[n - off]);
                assert(rest_v[0] == vc[n - off]);
                assert(id@ == nodes[off + (n - off)]);
                assert(sink == vc[n - off]);
                assert(plan[off + (n - off)] == NodePlan::Sink(sink));
                assert(sinks.keys() =~= kc.skip(n - off + 1));
                assert(sinks.values() =~= vc.skip(n - off + 1));
            }
            let io = match take_io(&mut links, &id, "Sink") {
                Ok(io) => io,
                Err(e) => {
                    proof {
                        assert(plan_failure(plan[n], nodes, ls) matches Some(f) && reports(e, f));
                    }
                    return Err(e);
                },
            };
            let runner = match SinkRunner::try_new(context.clone(), sink, io) {
                Ok(runner) => runner,
                Err(e) => {
                    proof {
                        assert(plan_failure(plan[n], nodes, ls) matches Some(f) && reports(e, f));
                    }
                    return Err(e);
                },
            };
            let node = NodeRunner::Sink(runner);
            runners.push(id, node);
            proof {
                lemma_step(was, links, full, had, runners, node, plan, context, nodes, ls, n);
                assert(runners.keys().len() == n + 1);
            }
        }

        proof {
            assert(kd.skip(0) =~= kd);
            assert(vd.skip(0) =~= vd);
        }
        while connectors.len() > 0
            invariant
                connectors.wf(),
                kd.len() == vd.len(),
                connectors.keys().len() == connectors.values().len(),
                runners.keys().len() + connectors.keys().len() == nodes.len(),
                runners.keys().len() >= ka.len() + kb.len() + kc.len(),
                nodes.len() == ka.len() + kb.len() + kc.len() + kd.len(),
                connectors.keys() == kd.skip(runners.keys().len() - ka.len() - kb.len() - kc.len()),
                connectors.values() == vd.skip(runners.keys().len() - ka.len() - kb.len() - kc.len()),
                forall|j: int| 0 <= j < vd.len() ==> (#[trigger] vd[j]).id@ == kd[j],
                forall|j: int|
                    0 <= j < kd.len() ==> #[trigger] plan[ka.len() + kb.len() + kc.len() + j]
                        == NodePlan::Connector(vd[j]),
                forall|j: int|
                    0 <= j < kd.len() ==> #[trigger] nodes[ka.len() + kb.len() + kc.len() + j]
                        == kd[j],
                progress(
                    links,
                    full,
                    runners,
                    plan,
                    context,
                    nodes,
                    ls,
                    runners.keys().len() as int,
                ),
                forall|j: int| !clash_at(nodes, ls, j),
                nodes == dataflow.node_ids(),
                ls == views(dataflow.links()),
                plan == plans(&dataflow),
            decreases connectors.keys().len(),
        {
            let ghost n = runners.keys().len() as int;
            let ghost off = ka.len() + kb.len() + kc.len();
            let ghost was = links;
            let ghost had = runners;
            let ghost rest_k = connectors.keys();
            let ghost rest_v = connectors.values();
            let (id, connector) = connectors.remove_at(0);
            proof {
                connectors.lemma_len();
                lemma_next(links, full, runners, plan, context, nodes, ls, n);
                assert(rest_k[0] == kd[n - off]);
                assert(rest_v[0] == vd[n - off]);
                assert(id@ == nodes[off + (n - off)]);
                assert(connector == vd[n - off]);
                assert(plan[off + (n - off)] == NodePlan::Connector(connector));
                assert(connectors.keys() =~= kd.skip(n - off + 1));
                assert(connectors.values() =~= vd.skip(n - off + 1));
            }
            let io = match take_io(&mut links, &id, "Connector") {
                Ok(io) => io,
                Err(e) => {
                    proof {
                        assert(plan_failure(plan[n], nodes, ls) matches Some(f) && reports(e, f));
                    }
                    return Err(e);
                },
            };
            let node = match connector.kind {
                ZFConnectorKind::Sender => {
                    match JanuSender::try_new(context.clone(), connector, io) {
                        Ok(runner) => NodeRunner::Sender(runner),
                        Err(e) => {
                            proof {
                                assert(plan_failure(plan[n], nodes, ls) matches Some(f) && reports(
                                    e,
                                    f,
                                ));
                            }
                            return Err(e);
                        },
                    }
                },
                ZFConnectorKind::Receiver => {
                    match JanuReceiver::try_new(context.clone(), connector, io) {
                        Ok(runner) => NodeRunner::Receiver(runner),
                        Err(e) => {
                            proof {
                                assert(plan_failure(plan[n], nodes, ls) matches Some(f) && reports(
                                    e,
                                    f,
                                ));
                            }
                            return Err(e);
                        },
                    }
                },
            };
            runners.push(id, node);
            proof {
                lemma_step(was, links, full, had, runners, node, plan, context, nodes, ls, n);
                assert(runners.keys().len() == n + 1);
            }
        }

        proof {
            assert(nodes.take(nodes.len() as int) =~= nodes);
        }
        let managers: Table<RunnerManager> = Table::new();
        Ok(DataflowInstance::assemble(context, runners, managers))
    }
}

} // verus!
