use crate::context::RuntimeContext;
use crate::deadline::E2EDeadlineRecord;
use crate::error::{ZFError, ZFResult};
use crate::runners::connector::{ZFConnectorKind, ZFConnectorRecord};
use crate::runners::operator::OperatorLoaded;
use crate::runners::sink::SinkLoaded;
use crate::runners::source::SourceLoaded;
use crate::table::Table;
use crate::time::Duration;
use crate::types::{
    views, FlowId, InputDescriptor, LinkDescriptor, LinkView, NodeId, OutputDescriptor,
    PortDescriptor, PortId, PortType,
};
use vstd::prelude::*;

verus! {

/// `uuid::Uuid::new_v4`: an identifier drawn at random.
#[verifier::external_body]
fn uuid_new_v4() -> (r: u128) {
    uuid::Uuid::new_v4().as_u128()
}

/// The type of the first port of the given name among `ports`.
pub open spec fn port_type_in(ports: Seq<PortDescriptor>, port: Seq<char>) -> Option<Seq<char>>
    decreases ports.len(),
{
    if ports.len() == 0 {
        None
    } else if ports[0].port_id@ == port {
        Some(ports[0].port_type@)
    } else {
        port_type_in(ports.drop_first(), port)
    }
}

fn find_port_type(ports: &Vec<PortDescriptor>, port: &PortId) -> (r: Option<PortType>)
    ensures
        match r {
            Some(t) => port_type_in(ports@, port@) == Some(t@),
            None => port_type_in(ports@, port@) is None,
        },
{
    let mut i: usize = 0;
    assert(ports@.skip(0) =~= ports@);
    while i < ports.len()
        invariant
            i <= ports.len(),
            port_type_in(ports@, port@) == port_type_in(ports@.skip(i as int), port@),
        decreases ports.len() - i,
    {
        proof {
            assert(ports@.skip(i as int)[0] == ports@[i as int]);
            assert(ports@.skip(i as int).drop_first() =~= ports@.skip(i + 1));
        }
        if ports[i].port_id == *port {
            return Some(ports[i].port_type.clone());
        }
        i += 1;
    }
    None
}

/// What a flow is made of, taken apart.
pub struct DataflowParts {
    pub uuid: u128,
    pub flow_id: FlowId,
    pub context: RuntimeContext,
    pub sources: Table<SourceLoaded>,
    pub operators: Table<OperatorLoaded>,
    pub sinks: Table<SinkLoaded>,
    pub connectors: Table<ZFConnectorRecord>,
    pub links: Vec<LinkDescriptor>,
}

/// A flow as it is handed to a runtime: the nodes that the runtime is to
/// host, by kind and under their names, and the links between them.
pub struct Dataflow {
    uuid: u128,
    flow_id: FlowId,
    context: RuntimeContext,
    sources: Table<SourceLoaded>,
    operators: Table<OperatorLoaded>,
    sinks: Table<SinkLoaded>,
    connectors: Table<ZFConnectorRecord>,
    links: Vec<LinkDescriptor>,
}

impl Dataflow {
    /// The identifier of the instance that is to be made.
    pub closed spec fn uuid(&self) -> u128 {
        self.uuid
    }

    /// The name of the flow.
    pub closed spec fn flow_id(&self) -> FlowId {
        self.flow_id
    }

    /// The runtime that hosts the flow.
    pub closed spec fn context(&self) -> RuntimeContext {
        self.context
    }

    /// The sources, under their names.
    pub closed spec fn sources(&self) -> Table<SourceLoaded> {
        self.sources
    }

    /// The operators, under their names.
    pub closed spec fn operators(&self) -> Table<OperatorLoaded> {
        self.operators
    }

    /// The sinks, under their names.
    pub closed spec fn sinks(&self) -> Table<SinkLoaded> {
        self.sinks
    }

    /// The connectors, under their names.
    pub closed spec fn connectors(&self) -> Table<ZFConnectorRecord> {
        self.connectors
    }

    /// The links, in the order in which they were added.
    pub closed spec fn links(&self) -> Seq<LinkDescriptor> {
        self.links@
    }

    /// The names of all nodes: sources first, then operators, sinks and
    /// connectors, each group in the order in which its nodes were added.
    pub open spec fn node_ids(&self) -> Seq<Seq<char>> {
        self.sources().keys() + self.operators().keys() + self.sinks().keys()
            + self.connectors().keys()
    }

    /// Whether a node of the given name is part of the flow.
    pub open spec fn has_node(&self, node: Seq<char>) -> bool {
        self.sources().has(node) || self.operators().has(node) || self.sinks().has(node)
            || self.connectors().has(node)
    }

    /// In how many of the four groups of nodes the name occurs.
    pub open spec fn groups_with(&self, node: Seq<char>) -> int {
        (if self.sources().has(node) {
            1int
        } else {
            0int
        }) + (if self.operators().has(node) {
            1int
        } else {
            0int
        }) + (if self.sinks().has(node) {
            1int
        } else {
            0int
        }) + (if self.connectors().has(node) {
            1int
        } else {
            0int
        })
    }

    /// The type of the output `port` of `node`, if the node has that output.
    pub open spec fn output_type(&self, node: Seq<char>, port: Seq<char>) -> Option<Seq<char>> {
        if self.sources().has(node) {
            if self.sources().at(node).output.port_id@ == port {
                Some(self.sources().at(node).output.port_type@)
            } else {
                None
            }
        } else if self.operators().has(node) {
            port_type_in(self.operators().at(node).outputs@, port)
        } else if self.connectors().has(node) {
            if self.connectors().at(node).kind == ZFConnectorKind::Receiver
                && self.connectors().at(node).link_id.port_id@ == port {
                Some(self.connectors().at(node).link_id.port_type@)
            } else {
                None
            }
        } else {
            None
        }
    }

    /// The type of the input `port` of `node`, if the node has that input.
    pub open spec fn input_type(&self, node: Seq<char>, port: Seq<char>) -> Option<Seq<char>> {
        if self.sinks().has(node) {
            if self.sinks().at(node).input.port_id@ == port {
                Some(self.sinks().at(node).input.port_type@)
            } else {
                None
            }
        } else if self.operators().has(node) {
            port_type_in(self.operators().at(node).inputs@, port)
        } else if self.connectors().has(node) {
            if self.connectors().at(node).kind == ZFConnectorKind::Sender
                && self.connectors().at(node).link_id.port_id@ == port {
                Some(self.connectors().at(node).link_id.port_type@)
            } else {
                None
            }
        } else {
            None
        }
    }

    /// Whether the link joins an output and an input that both exist and
    /// carry the same type.
    pub open spec fn link_fits(&self, l: LinkView) -> bool {
        &&& self.output_type(l.from.node, l.from.port) is Some
        &&& self.output_type(l.from.node, l.from.port) == self.input_type(l.to.node, l.to.port)
    }

    /// No two nodes share a name, every node stands under its own name, and
    /// every link joins an output and an input of the same type.
    pub open spec fn wf(&self) -> bool {
        &&& self.sources().wf()
        &&& self.operators().wf()
        &&& self.sinks().wf()
        &&& self.connectors().wf()
        &&& forall|k: Seq<char>| #[trigger] self.groups_with(k) <= 1
        &&& forall|i: int|
            0 <= i < self.sources().keys().len() ==> (#[trigger] self.sources().values()[i]).id@
                == self.sources().keys()[i]
        &&& forall|i: int|
            0 <= i < self.operators().keys().len() ==> (
            #[trigger] self.operators().values()[i]).id@ == self.operators().keys()[i]
        &&& forall|i: int|
            0 <= i < self.sinks().keys().len() ==> (#[trigger] self.sinks().values()[i]).id@
                == self.sinks().keys()[i]
        &&& forall|i: int|
            0 <= i < self.connectors().keys().len() ==> (
            #[trigger] self.connectors().values()[i]).id@ == self.connectors().keys()[i]
        &&& forall|i: int|
            0 <= i < self.links().len() ==> self.link_fits(#[trigger] self.links()[i]@)
    }

    /// A flow without nodes and links. Without an identifier for the
    /// instance, one is drawn at random.
    pub fn new(context: RuntimeContext, id: FlowId, uuid: Option<u128>) -> (r: Self)
        ensures
            r.wf(),
            r.context() == context,
            r.flow_id() == id,
            uuid matches Some(u) ==> r.uuid() == u,
            r.node_ids() == Seq::<Seq<char>>::empty(),
            r.links() == Seq::<LinkDescriptor>::empty(),
    {
        let uuid = match uuid {
            Some(u) => u,
            None => uuid_new_v4(),
        };
        let r = Dataflow {
            uuid,
            flow_id: id,
            context,
            sources: Table::new(),
            operators: Table::new(),
            sinks: Table::new(),
            connectors: Table::new(),
            links: Vec::new(),
        };
        assert(r.node_ids() =~= Seq::<Seq<char>>::empty());
        r
    }

    /// Whether a node of the given name is part of the flow.
    pub fn contains_node(&self, id: &NodeId) -> (r: bool)
        ensures
            r == self.has_node(id@),
    {
        self.sources.contains_key(id) || self.operators.contains_key(id)
            || self.sinks.contains_key(id) || self.connectors.contains_key(id)
    }

    /// The type of the output `port` of `node`. `NodeNotFound` when the
    /// flow has no such node, `PortNotFound` when the node has no such output.
    pub fn get_output_type(&self, node: &NodeId, port: &PortId) -> (r: ZFResult<PortType>)
        requires
            self.wf(),
        ensures
            !self.has_node(node@) ==> r == Err::<PortType, ZFError>(ZFError::NodeNotFound(*node)),
            self.has_node(node@) && self.output_type(node@, port@) is None ==> r == Err::<
                PortType,
                ZFError,
            >(ZFError::PortNotFound((*node, *port))),
            self.has_node(node@) && self.output_type(node@, port@) is Some ==> (r matches Ok(t)
                && Some(t@) == self.output_type(node@, port@)),
    {
        if !self.contains_node(node) {
            return Err(ZFError::NodeNotFound(node.clone()));
        }
        let found = match self.sources.get(node) {
            Some(source) => {
                if source.output.port_id == *port {
                    Some(source.output.port_type.clone())
                } else {
                    None
                }
            },
            None => match self.operators.get(node) {
                Some(operator) => find_port_type(&operator.outputs, port),
                None => match self.connectors.get(node) {
                    Some(connector) => {
                        let is_receiver = match connector.kind {
                            ZFConnectorKind::Receiver => true,
                            ZFConnectorKind::Sender => false,
                        };
                        if is_receiver && connector.link_id.port_id == *port {
                            Some(connector.link_id.port_type.clone())
                        } else {
                            None
                        }
                    },
                    None => None,
                },
            },
        };
        match found {
            Some(t) => Ok(t),
            None => Err(ZFError::PortNotFound((node.clone(), port.clone()))),
        }
    }

    /// The type of the input `port` of `node`. `NodeNotFound` when the flow
    /// has no such node, `PortNotFound` when the node has no such input.
    pub fn get_input_type(&self, node: &NodeId, port: &PortId) -> (r: ZFResult<PortType>)
        requires
            self.wf(),
        ensures
            !self.has_node(node@) ==> r == Err::<PortType, ZFError>(ZFError::NodeNotFound(*node)),
            self.has_node(node@) && self.input_type(node@, port@) is None ==> r == Err::<
                PortType,
                ZFError,
            >(ZFError::PortNotFound((*node, *port))),
            self.has_node(node@) && self.input_type(node@, port@) is Some ==> (r matches Ok(t)
                && Some(t@) == self.input_type(node@, port@)),
    {
        if !self.contains_node(node) {
            return Err(ZFError::NodeNotFound(node.clone()));
        }
        let found = match self.sinks.get(node) {
            Some(sink) => {
                if sink.input.port_id == *port {
                    Some(sink.input.port_type.clone())
                } else {
                    None
                }
            },
            None => match self.operators.get(node) {
                Some(operator) => find_port_type(&operator.inputs, port),
                None => match self.connectors.get(node) {
                    Some(connector) => {
                        let is_sender = match connector.kind {
                            ZFConnectorKind::Sender => true,
                            ZFConnectorKind::Receiver => false,
                        };
                        if is_sender && connector.link_id.port_id == *port {
                            Some(connector.link_id.port_type.clone())
                        } else {
                            None
                        }
                    },
                    None => None,
                },
            },
        };
        match found {
            Some(t) => Ok(t),
            None => Err(ZFError::PortNotFound((node.clone(), port.clone()))),
        }
    }

    /// Adds a link from an output to an input.
    ///
    /// The link is refused, and the flow stays as it was, when one of its
    /// ends does not exist or when the two ends carry different types: with
    /// `NodeNotFound` or `PortNotFound` for the first end that does not exist,
    /// the output coming first, and with `PortTypeNotMatching`, which names
    /// both types, when both ends exist.
    pub fn try_add_link(
        &mut self,
        from: OutputDescriptor,
        to: InputDescriptor,
        size: Option<usize>,
        queueing_policy: Option<String>,
        priority: Option<usize>,
    ) -> (r: ZFResult<()>)
        requires
            old(self).wf(),
        ensures
            final(self).wf(),
            final(self).uuid() == old(self).uuid(),
            final(self).flow_id() == old(self).flow_id(),
            final(self).context() == old(self).context(),
            final(self).sources() == old(self).sources(),
            final(self).operators() == old(self).operators(),
            final(self).sinks() == old(self).sinks(),
            final(self).connectors() == old(self).connectors(),
            r is Err ==> final(self).links() == old(self).links(),
            r is Ok ==> final(self).links() == old(self).links().push(
                LinkDescriptor { from, to, size, queueing_policy, priority },
            ),
            r is Ok <==> old(self).link_fits(
                (LinkDescriptor { from, to, size, queueing_policy, priority })@,
            ),
            !old(self).has_node(from.node@) ==> r == Err::<(), ZFError>(
                ZFError::NodeNotFound(from.node),
            ),
            old(self).has_node(from.node@) && old(self).output_type(from.node@, from.output@)
                is None ==> r == Err::<(), ZFError>(
                ZFError::PortNotFound((from.node, from.output)),
            ),
            old(self).output_type(from.node@, from.output@) is Some && !old(self).has_node(to.node@)
                ==> r == Err::<(), ZFError>(ZFError::NodeNotFound(to.node)),
            old(self).output_type(from.node@, from.output@) is Some && old(self).has_node(to.node@)
                && old(self).input_type(to.node@, to.input@) is None ==> r == Err::<(), ZFError>(
                ZFError::PortNotFound((to.node, to.input)),
            ),
            old(self).output_type(from.node@, from.output@) is Some && old(self).input_type(
                to.node@,
                to.input@,
            ) is Some && old(self).output_type(from.node@, from.output@) != old(self).input_type(
                to.node@,
                to.input@,
            ) ==> (r matches Err(ZFError::PortTypeNotMatching(p))
                && Some(p.0@) == old(self).output_type(from.node@, from.output@)
                && Some(p.1@) == old(self).input_type(
                to.node@,
                to.input@,
            )),
    {
        let from_type = match self.get_output_type(&from.node, &from.output) {
            Ok(t) => t,
            Err(e) => {
                return Err(e);
            },
        };
        let to_type = match self.get_input_type(&to.node, &to.input) {
            Ok(t) => t,
            Err(e) => {
                return Err(e);
            },
        };
        if from_type == to_type {
            let ghost before = self.links@;
            let made = LinkDescriptor { from, to, size, queueing_policy, priority };
            let ghost l = made@;
            assert(self.link_fits(l));
            self.links.push(made);
            proof {
                assert forall|k: Seq<char>| #[trigger] self.groups_with(k) <= 1 by {
                    assert(old(self).groups_with(k) <= 1);
                }
                assert forall|i: int| 0 <= i < self.links().len() implies self.link_fits(
                    #[trigger] self.links()[i]@,
                ) by {
                    let li = self.links()[i]@;
                    assert(self.output_type(li.from.node, li.from.port) == old(self).output_type(
                        li.from.node,
                        li.from.port,
                    ));
                    assert(self.input_type(li.to.node, li.to.port) == old(self).input_type(
                        li.to.node,
                        li.to.port,
                    ));
                    if i < before.len() {
                        assert(self.links()[i] == before[i]);
                        assert(old(self).link_fits(old(self).links()[i]@));
                    } else {
                        assert(li == l);
                    }
                }
            }
            return Ok(());
        }
        Err(ZFError::PortTypeNotMatching((from_type, to_type)))
    }

    /// A flow that takes in a node under a new name keeps its links in order:
    /// the ports that the links join are those of other nodes.
    proof fn lemma_links_still_fit(&self, was: &Dataflow, id: Seq<char>)
        requires
            was.wf(),
            !was.has_node(id),
            self.links() == was.links(),
            forall|k: Seq<char>|
                #![trigger self.sources().has(k)]
                k != id ==> (self.sources().has(k) == was.sources().has(k)) && (
                was.sources().has(k) ==> self.sources().at(k) == was.sources().at(k)),
            forall|k: Seq<char>|
                #![trigger self.operators().has(k)]
                k != id ==> (self.operators().has(k) == was.operators().has(k)) && (
                was.operators().has(k) ==> self.operators().at(k) == was.operators().at(k)),
            forall|k: Seq<char>|
                #![trigger self.sinks().has(k)]
                k != id ==> (self.sinks().has(k) == was.sinks().has(k)) && (
                was.sinks().has(k) ==> self.sinks().at(k) == was.sinks().at(k)),
            forall|k: Seq<char>|
                #![trigger self.connectors().has(k)]
                k != id ==> (self.connectors().has(k) == was.connectors().has(k)) && (
                was.connectors().has(k) ==> self.connectors().at(k) == was.connectors().at(k)),
        ensures
            forall|i: int|
                0 <= i < self.links().len() ==> self.link_fits(#[trigger] self.links()[i]@),
    {
        assert forall|i: int| 0 <= i < self.links().len() implies self.link_fits(
            #[trigger] self.links()[i]@,
        ) by {
            let l = self.links()[i]@;
            assert(was.link_fits(was.links()[i]@));
            assert(l.from.node != id);
            assert(l.to.node != id);
            assert(self.sources().has(l.from.node) == was.sources().has(l.from.node));
            assert(self.operators().has(l.from.node) == was.operators().has(l.from.node));
            assert(self.connectors().has(l.from.node) == was.connectors().has(l.from.node));
            assert(self.sinks().has(l.to.node) == was.sinks().has(l.to.node));
            assert(self.operators().has(l.to.node) == was.operators().has(l.to.node));
            assert(self.connectors().has(l.to.node) == was.connectors().has(l.to.node));
        }
    }

    /// Adds a source. A name that a node of the flow already has is refused
    /// with `DuplicatedNodeId`, and the flow stays as it was.
    pub fn try_add_static_source(
        &mut self,
        id: NodeId,
        period: Option<Duration>,
        output: PortDescriptor,
    ) -> (r: ZFResult<()>)
        requires
            old(self).wf(),
        ensures
            final(self).wf(),
            final(self).uuid() == old(self).uuid(),
            final(self).flow_id() == old(self).flow_id(),
            final(self).context() == old(self).context(),
            final(self).operators() == old(self).operators(),
            final(self).sinks() == old(self).sinks(),
            final(self).connectors() == old(self).connectors(),
            final(self).links() == old(self).links(),
            old(self).has_node(id@) ==> r == Err::<(), ZFError>(ZFError::DuplicatedNodeId(id))
                && final(self).sources() == old(self).sources(),
            !old(self).has_node(id@) ==> {
                &&& r is Ok
                &&& final(self).sources().keys() == old(self).sources().keys().push(id@)
                &&& final(self).sources().values().drop_last() == old(self).sources().values()
                &&& final(self).sources().values().last().id == id
                &&& final(self).sources().values().last().output == output
                &&& final(self).sources().values().last().period == period
                &&& final(self).sources().values().last().end_to_end_deadlines@.len() == 0
            },
    {
        if self.contains_node(&id) {
            return Err(ZFError::DuplicatedNodeId(id));
        }
        let ghost was = *self;
        let key = id.clone();
        self.sources.push(
            key,
            SourceLoaded { id, output, period, end_to_end_deadlines: Vec::new() },
        );
        proof {
            assert(self.sources().values().drop_last() =~= was.sources().values());
            self.lemma_links_still_fit(&was, id@);
            assert forall|k: Seq<char>| #[trigger] self.groups_with(k) <= 1 by {
                assert(was.groups_with(k) <= 1);
            }
            assert forall|i: int| 0 <= i < self.sources().keys().len() implies (
            #[trigger] self.sources().values()[i]).id@ == self.sources().keys()[i] by {
                if i < was.sources().keys().len() {
                    assert(self.sources().values()[i] == was.sources().values()[i]);
                }
            }
        }
        Ok(())
    }

    /// Adds an operator. A name that a node of the flow already has is
    /// refused with `DuplicatedNodeId`, and the flow stays as it was.
    pub fn try_add_static_operator(
        &mut self,
        id: NodeId,
        inputs: Vec<PortDescriptor>,
        outputs: Vec<PortDescriptor>,
        deadline: Option<Duration>,
    ) -> (r: ZFResult<()>)
        requires
            old(self).wf(),
        ensures
            final(self).wf(),
            final(self).uuid() == old(self).uuid(),
            final(self).flow_id() == old(self).flow_id(),
            final(self).context() == old(self).context(),
            final(self).sources() == old(self).sources(),
            final(self).sinks() == old(self).sinks(),
            final(self).connectors() == old(self).connectors(),
            final(self).links() == old(self).links(),
            old(self).has_node(id@) ==> r == Err::<(), ZFError>(ZFError::DuplicatedNodeId(id))
                && final(self).operators() == old(self).operators(),
            !old(self).has_node(id@) ==> {
                &&& r is Ok
                &&& final(self).operators().keys() == old(self).operators().keys().push(id@)
                &&& final(self).operators().values().drop_last() == old(self).operators().values()
                &&& final(self).operators().values().last().id == id
                &&& final(self).operators().values().last().inputs == inputs
                &&& final(self).operators().values().last().outputs == outputs
                &&& final(self).operators().values().last().local_deadline == deadline
                &&& final(self).operators().values().last().end_to_end_deadlines@.len() == 0
            },
    {
        if self.contains_node(&id) {
            return Err(ZFError::DuplicatedNodeId(id));
        }
        let ghost was = *self;
        let key = id.clone();
        self.operators.push(
            key,
            OperatorLoaded {
                id,
                inputs,
                outputs,
                local_deadline: deadline,
                end_to_end_deadlines: Vec::new(),
            },
        );
        proof {
            assert(self.operators().values().drop_last() =~= was.operators().values());
            self.lemma_links_still_fit(&was, id@);
            assert forall|k: Seq<char>| #[trigger] self.groups_with(k) <= 1 by {
                assert(was.groups_with(k) <= 1);
            }
            assert forall|i: int| 0 <= i < self.operators().keys().len() implies (
            #[trigger] self.operators().values()[i]).id@ == self.operators().keys()[i] by {
                if i < was.operators().keys().len() {
                    assert(self.operators().values()[i] == was.operators().values()[i]);
                }
            }
        }
        Ok(())
    }

    /// Adds a sink. A name that a node of the flow already has is refused
    /// with `DuplicatedNodeId`, and the flow stays as it was.
    pub fn try_add_static_sink(&mut self, id: NodeId, input: PortDescriptor) -> (r: ZFResult<()>)
        requires
            old(self).wf(),
        ensures
            final(self).wf(),
            final(self).uuid() == old(self).uuid(),
            final(self).flow_id() == old(self).flow_id(),
            final(self).context() == old(self).context(),
            final(self).sources() == old(self).sources(),
            final(self).operators() == old(self).operators(),
            final(self).connectors() == old(self).connectors(),
            final(self).links() == old(self).links(),
            old(self).has_node(id@) ==> r == Err::<(), ZFError>(ZFError::DuplicatedNodeId(id))
                && final(self).sinks() == old(self).sinks(),
            !old(self).has_node(id@) ==> {
                &&& r is Ok
                &&& final(self).sinks().keys() == old(self).sinks().keys().push(id@)
                &&& final(self).sinks().values().drop_last() == old(self).sinks().values()
                &&& final(self).sinks().values().last().id == id
                &&& final(self).sinks().values().last().input == input
                &&& final(self).sinks().values().last().end_to_end_deadlines@.len() == 0
            },
    {
        if self.contains_node(&id) {
            return Err(ZFError::DuplicatedNodeId(id));
        }
        let ghost was = *self;
        let key = id.clone();
        self.sinks.push(key, SinkLoaded { id, input, end_to_end_deadlines: Vec::new() });
        proof {
            assert(self.sinks().values().drop_last() =~= was.sinks().values());
            self.lemma_links_still_fit(&was, id@);
            assert forall|k: Seq<char>| #[trigger] self.groups_with(k) <= 1 by {
                assert(was.groups_with(k) <= 1);
            }
            assert forall|i: int| 0 <= i < self.sinks().keys().len() implies (
            #[trigger] self.sinks().values()[i]).id@ == self.sinks().keys()[i] by {
                if i < was.sinks().keys().len() {
                    assert(self.sinks().values()[i] == was.sinks().values()[i]);
                }
            }
        }
        Ok(())
    }

    /// Adds a connector. A name that a node of the flow already has is
    /// refused with `DuplicatedNodeId`, and the flow stays as it was.
    pub fn try_add_connector(&mut self, record: ZFConnectorRecord) -> (r: ZFResult<()>)
        requires
            old(self).wf(),
        ensures
            final(self).wf(),
            final(self).uuid() == old(self).uuid(),
            final(self).flow_id() == old(self).flow_id(),
            final(self).context() == old(self).context(),
            final(self).sources() == old(self).sources(),
            final(self).operators() == old(self).operators(),
            final(self).sinks() == old(self).sinks(),
            final(self).links() == old(self).links(),
            old(self).has_node(record.id@) ==> r == Err::<(), ZFError>(
                ZFError::DuplicatedNodeId(record.id),
            ) && final(self).connectors() == old(self).connectors(),
            !old(self).has_node(record.id@) ==> {
                &&& r is Ok
                &&& final(self).connectors().keys() == old(self).connectors().keys().push(
                    record.id@,
                )
                &&& final(self).connectors().values() == old(self).connectors().values().push(
                    record,
                )
            },
    {
        if self.contains_node(&record.id) {
            return Err(ZFError::DuplicatedNodeId(record.id.clone()));
        }
        let ghost was = *self;
        let key = record.id.clone();
        self.connectors.push(key, record);
        proof {
            self.lemma_links_still_fit(&was, record.id@);
            assert forall|k: Seq<char>| #[trigger] self.groups_with(k) <= 1 by {
                assert(was.groups_with(k) <= 1);
            }
            assert forall|i: int| 0 <= i < self.connectors().keys().len() implies (
            #[trigger] self.connectors().values()[i]).id@ == self.connectors().keys()[i] by {
                if i < was.connectors().keys().len() {
                    assert(self.connectors().values()[i] == was.connectors().values()[i]);
                }
            }
        }
        Ok(())
    }

    /// Every group of nodes holds the same names as in `was`, and every node
    /// has the same ports.
    pub open spec fn same_ports(&self, was: &Dataflow) -> bool {
        &&& self.sources().keys() == was.sources().keys()
        &&& self.operators().keys() == was.operators().keys()
        &&& self.sinks().keys() == was.sinks().keys()
        &&& self.connectors() == was.connectors()
        &&& self.sources().values().len() == was.sources().values().len()
        &&& self.operators().values().len() == was.operators().values().len()
        &&& self.sinks().values().len() == was.sinks().values().len()
        &&& forall|i: int|
            0 <= i < self.sources().values().len() ==> {
                &&& (#[trigger] self.sources().values()[i]).id == was.sources().values()[i].id
                &&& self.sources().values()[i].output == was.sources().values()[i].output
                &&& self.sources().values()[i].period == was.sources().values()[i].period
            }
        &&& forall|i: int|
            0 <= i < self.operators().values().len() ==> {
                &&& (#[trigger] self.operators().values()[i]).id == was.operators().values()[i].id
                &&& self.operators().values()[i].inputs == was.operators().values()[i].inputs
                &&& self.operators().values()[i].outputs == was.operators().values()[i].outputs
                &&& self.operators().values()[i].local_deadline
                    == was.operators().values()[i].local_deadline
            }
        &&& forall|i: int|
            0 <= i < self.sinks().values().len() ==> {
                &&& (#[trigger] self.sinks().values()[i]).id == was.sinks().values()[i].id
                &&& self.sinks().values()[i].input == was.sinks().values()[i].input
            }
    }

    /// A flow whose nodes have kept their names and ports keeps its links in
    /// order.
    proof fn lemma_same_ports_fit(&self, was: &Dataflow)
        requires
            was.wf(),
            self.same_ports(was),
            self.links() == was.links(),
        ensures
            self.wf(),
    {
        was.sources().lemma_len();
        was.operators().lemma_len();
        was.sinks().lemma_len();
        self.sources().lemma_len();
        self.operators().lemma_len();
        self.sinks().lemma_len();
        assert forall|k: Seq<char>| #[trigger] self.groups_with(k) <= 1 by {
            assert(was.groups_with(k) <= 1);
        }
        assert forall|n: Seq<char>, p: Seq<char>|
            self.output_type(n, p) == was.output_type(n, p) && self.input_type(n, p)
                == was.input_type(n, p) by {
            if was.sources().has(n) {
                let i = was.sources().keys().index_of(n);
                was.sources().lemma_index(i);
                self.sources().lemma_index(i);
            }
            if was.operators().has(n) {
                let i = was.operators().keys().index_of(n);
                was.operators().lemma_index(i);
                self.operators().lemma_index(i);
            }
            if was.sinks().has(n) {
                let i = was.sinks().keys().index_of(n);
                was.sinks().lemma_index(i);
                self.sinks().lemma_index(i);
            }
        }
        assert forall|i: int| 0 <= i < self.links().len() implies self.link_fits(
            #[trigger] self.links()[i]@,
        ) by {
            assert(was.link_fits(was.links()[i]@));
        }
    }

    /// Declares an end-to-end deadline: what leaves the output `from` is due
    /// at the input `to` before `duration` has passed.
    ///
    /// The deadline is noted at the node that `from` belongs to, behind the
    /// deadlines that node already has, and likewise at the node of `to` when
    /// that is a sink. It is refused, and the flow stays as it was, when one
    /// of its ends does not exist: with `NodeNotFound` or `PortNotFound` for
    /// the first end that does not exist, the output coming first. A deadline
    /// that starts at a connector is refused with `Unsupported`.
    pub fn try_add_deadline(
        &mut self,
        from: OutputDescriptor,
        to: InputDescriptor,
        duration: Duration,
    ) -> (r: ZFResult<()>)
        requires
            old(self).wf(),
        ensures
            final(self).wf(),
            final(self).uuid() == old(self).uuid(),
            final(self).flow_id() == old(self).flow_id(),
            final(self).context() == old(self).context(),
            final(self).links() == old(self).links(),
            final(self).same_ports(old(self)),
            r is Err ==> *final(self) == *old(self),
            !old(self).has_node(from.node@) ==> r == Err::<(), ZFError>(
                ZFError::NodeNotFound(from.node),
            ),
            old(self).has_node(from.node@) && old(self).output_type(from.node@, from.output@)
                is None ==> r == Err::<(), ZFError>(
                ZFError::PortNotFound((from.node, from.output)),
            ),
            old(self).output_type(from.node@, from.output@) is Some && !old(self).has_node(to.node@)
                ==> r == Err::<(), ZFError>(ZFError::NodeNotFound(to.node)),
            old(self).output_type(from.node@, from.output@) is Some && old(self).has_node(to.node@)
                && old(self).input_type(to.node@, to.input@) is None ==> r == Err::<(), ZFError>(
                ZFError::PortNotFound((to.node, to.input)),
            ),
            old(self).output_type(from.node@, from.output@) is Some && old(self).input_type(
                to.node@,
                to.input@,
            ) is Some && old(self).connectors().has(from.node@) ==> r == Err::<(), ZFError>(
                ZFError::Unsupported,
            ),
            old(self).output_type(from.node@, from.output@) is Some && old(self).input_type(
                to.node@,
                to.input@,
            ) is Some && !old(self).connectors().has(from.node@) ==> {
                let record = E2EDeadlineRecord { from, to, duration };
                &&& r is Ok
                &&& old(self).sources().has(from.node@)
                    ==> final(self).sources().at(from.node@).end_to_end_deadlines@
                    == old(self).sources().at(from.node@).end_to_end_deadlines@.push(record)
                &&& old(self).operators().has(from.node@)
                    ==> final(self).operators().at(from.node@).end_to_end_deadlines@
                    == old(self).operators().at(from.node@).end_to_end_deadlines@.push(record)
                &&& old(self).sinks().has(to.node@)
                    ==> final(self).sinks().at(to.node@).end_to_end_deadlines@
                    == old(self).sinks().at(to.node@).end_to_end_deadlines@.push(record)
            },
    {
        proof {
            assert(self.groups_with(from.node@) <= 1);
            assert(self.groups_with(to.node@) <= 1);
        }
        match self.get_output_type(&from.node, &from.output) {
            Ok(_) => {},
            Err(e) => {
                return Err(e);
            },
        }
        match self.get_input_type(&to.node, &to.input) {
            Ok(_) => {},
            Err(e) => {
                return Err(e);
            },
        }
        if self.connectors.contains_key(&from.node) {
            return Err(ZFError::Unsupported);
        }
        let ghost was = *self;
        let record = E2EDeadlineRecord { from, to, duration };
        proof {
            was.sources().lemma_len();
            was.operators().lemma_len();
            was.sinks().lemma_len();
        }
        if let Some(i) = self.sources.position(&record.from.node) {
            proof {
                was.sources().lemma_index(i as int);
            }
            let source = self.sources.value_mut(i);
            source.end_to_end_deadlines.push(record.clone());
            proof {
                self.sources.lemma_index(i as int);
            }
        } else if let Some(i) = self.operators.position(&record.from.node) {
            proof {
                was.operators().lemma_index(i as int);
            }
            let operator = self.operators.value_mut(i);
            operator.end_to_end_deadlines.push(record.clone());
            proof {
                self.operators.lemma_index(i as int);
            }
        }
        let ghost mid = *self;
        proof {
            mid.sinks().lemma_len();
        }
        if let Some(i) = self.sinks.position(&record.to.node) {
            proof {
                mid.sinks().lemma_index(i as int);
            }
            let sink = self.sinks.value_mut(i);
            sink.end_to_end_deadlines.push(record);
            proof {
                self.sinks.lemma_index(i as int);
            }
        }
        proof {
            self.lemma_same_ports_fit(&was);
        }
        Ok(())
    }

    /// Takes the flow apart.
    pub fn into_parts(self) -> (parts: DataflowParts)
        ensures
            parts.uuid == self.uuid(),
            parts.flow_id == self.flow_id(),
            parts.context == self.context(),
            parts.sources == self.sources(),
            parts.operators == self.operators(),
            parts.sinks == self.sinks(),
            parts.connectors == self.connectors(),
            parts.links@ == self.links(),
    {
        DataflowParts {
            uuid: self.uuid,
            flow_id: self.flow_id,
            context: self.context,
            sources: self.sources,
            operators: self.operators,
            sinks: self.sinks,
            connectors: self.connectors,
            links: self.links,
        }
    }

    /// A flow holds no link between ports of different types. A link is let
    /// in only where its output and its input exist and carry one type, and
    /// is refused with `PortTypeNotMatching` where they carry two; so every
    /// link of a flow that is handed on to be instantiated joins one type.
    pub proof fn lemma_links_join_one_type(&self, i: int)
        requires
            self.wf(),
            0 <= i < self.links().len(),
        ensures
            ({
                let l = self.links()[i]@;
                &&& self.output_type(l.from.node, l.from.port) is Some
                &&& self.input_type(l.to.node, l.to.port) is Some
                &&& self.output_type(l.from.node, l.from.port) == self.input_type(
                    l.to.node,
                    l.to.port,
                )
            }),
    {
        assert(self.link_fits(self.links()[i]@));
    }

    /// No two nodes of a flow that is in order share a name.
    pub proof fn lemma_node_ids_distinct(&self)
        requires
            self.wf(),
        ensures
            self.node_ids().no_duplicates(),
            forall|k: Seq<char>| self.has_node(k) <==> #[trigger] self.node_ids().contains(k),
    {
        let a = self.sources().keys();
        let b = self.operators().keys();
        let c = self.sinks().keys();
        let d = self.connectors().keys();
        let all = self.node_ids();
        assert forall|i: int, j: int| 0 <= i < all.len() && 0 <= j < all.len() && i != j implies
            all[i] != all[j] by {
            let k = all[i];
            assert(self.groups_with(k) <= 1);
            if i < a.len() {
                assert(a[i] == k);
            } else if i < a.len() + b.len() {
                assert(b[i - a.len()] == k);
            } else if i < a.len() + b.len() + c.len() {
                assert(c[i - a.len() - b.len()] == k);
            } else {
                assert(d[i - a.len() - b.len() - c.len()] == k);
            }
            if all[j] == k {
                if j < a.len() {
                    assert(a[j] == k);
                } else if j < a.len() + b.len() {
                    assert(b[j - a.len()] == k);
                } else if j < a.len() + b.len() + c.len() {
                    assert(c[j - a.len() - b.len()] == k);
                } else {
                    assert(d[j - a.len() - b.len() - c.len()] == k);
                }
            }
        }
        assert forall|k: Seq<char>| self.has_node(k) <==> #[trigger] all.contains(k) by {
            if a.contains(k) {
                let i = choose|i: int| 0 <= i < a.len() && a[i] == k;
                assert(all[i] == k);
            }
            if b.contains(k) {
                let i = choose|i: int| 0 <= i < b.len() && b[i] == k;
                assert(all[a.len() + i] == k);
            }
            if c.contains(k) {
                let i = choose|i: int| 0 <= i < c.len() && c[i] == k;
                assert(all[a.len() + b.len() + i] == k);
            }
            if d.contains(k) {
                let i = choose|i: int| 0 <= i < d.len() && d[i] == k;
                assert(all[a.len() + b.len() + c.len() + i] == k);
            }
            if all.contains(k) {
                let i = choose|i: int| 0 <= i < all.len() && all[i] == k;
                if i < a.len() {
                    assert(a[i] == k);
                } else if i < a.len() + b.len() {
                    assert(b[i - a.len()] == k);
                } else if i < a.len() + b.len() + c.len() {
                    assert(c[i - a.len() - b.len()] == k);
                } else {
                    assert(d[i - a.len() - b.len() - c.len()] == k);
                }
            }
        }
    }
}

} // verus!
