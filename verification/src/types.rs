use vstd::prelude::*;

verus! {

/// Name of a node of a flow.
pub type NodeId = String;

/// Name of a port of a node.
pub type PortId = String;

/// Name of the type of the values that travel through a port.
pub type PortType = String;

/// Name of a flow, the template that instances are made from.
pub type FlowId = String;

/// The values that the items of a sequence stand for, in the same order.
pub open spec fn views<T: View>(s: Seq<T>) -> Seq<T::V> {
    Seq::new(s.len(), |i: int| s[i]@)
}

/// What a port descriptor stands for: the port's name and its type's name.
pub struct PortView {
    pub port_id: Seq<char>,
    pub port_type: Seq<char>,
}

/// What an endpoint stands for: a node's name and the name of one of its ports.
pub struct Endpoint {
    pub node: Seq<char>,
    pub port: Seq<char>,
}

/// A port of a node together with the type it carries.
#[derive(Debug, PartialEq, Eq)]
pub struct PortDescriptor {
    pub port_id: PortId,
    pub port_type: PortType,
}

impl View for PortDescriptor {
    type V = PortView;

    open spec fn view(&self) -> PortView {
        PortView { port_id: self.port_id@, port_type: self.port_type@ }
    }
}

impl Clone for PortDescriptor {
    fn clone(&self) -> (r: Self)
        ensures
            r == *self,
    {
        PortDescriptor { port_id: self.port_id.clone(), port_type: self.port_type.clone() }
    }
}

/// The sending end of an edge: an output port of a node.
#[derive(Debug, PartialEq, Eq)]
pub struct OutputDescriptor {
    pub node: NodeId,
    pub output: PortId,
}

impl View for OutputDescriptor {
    type V = Endpoint;

    open spec fn view(&self) -> Endpoint {
        Endpoint { node: self.node@, port: self.output@ }
    }
}

impl Clone for OutputDescriptor {
    fn clone(&self) -> (r: Self)
        ensures
            r == *self,
    {
        OutputDescriptor { node: self.node.clone(), output: self.output.clone() }
    }
}

impl OutputDescriptor {
    /// Whether both name the same output of the same node.
    pub fn same(&self, other: &OutputDescriptor) -> (r: bool)
        ensures
            r == (self@ == other@),
    {
        self.node == other.node && self.output == other.output
    }

    /// Whether this is the given output of the given node.
    pub fn is_port(&self, node: &NodeId, port: &PortId) -> (r: bool)
        ensures
            r == (self@ == Endpoint { node: node@, port: port@ }),
    {
        self.node == *node && self.output == *port
    }
}

/// The receiving end of an edge: an input port of a node.
#[derive(Debug, PartialEq, Eq)]
pub struct InputDescriptor {
    pub node: NodeId,
    pub input: PortId,
}

impl View for InputDescriptor {
    type V = Endpoint;

    open spec fn view(&self) -> Endpoint {
        Endpoint { node: self.node@, port: self.input@ }
    }
}

impl Clone for InputDescriptor {
    fn clone(&self) -> (r: Self)
        ensures
            r == *self,
    {
        InputDescriptor { node: self.node.clone(), input: self.input.clone() }
    }
}

impl InputDescriptor {
    /// Whether both name the same input of the same node.
    pub fn same(&self, other: &InputDescriptor) -> (r: bool)
        ensures
            r == (self@ == other@),
    {
        self.node == other.node && self.input == other.input
    }

    /// Whether this is the given input of the given node.
    pub fn is_port(&self, node: &NodeId, port: &PortId) -> (r: bool)
        ensures
            r == (self@ == Endpoint { node: node@, port: port@ }),
    {
        self.node == *node && self.input == *port
    }
}

/// What a link descriptor stands for.
pub struct LinkView {
    pub from: Endpoint,
    pub to: Endpoint,
    pub size: Option<usize>,
    pub queueing_policy: Option<Seq<char>>,
    pub priority: Option<usize>,
}

/// One edge of a flow, from an output of one node to an input of another,
/// with the queue bound, queueing policy and priority that were asked for.
#[derive(Debug, PartialEq, Eq)]
pub struct LinkDescriptor {
    pub from: OutputDescriptor,
    pub to: InputDescriptor,
    pub size: Option<usize>,
    pub queueing_policy: Option<String>,
    pub priority: Option<usize>,
}

impl View for LinkDescriptor {
    type V = LinkView;

    open spec fn view(&self) -> LinkView {
        LinkView {
            from: self.from@,
            to: self.to@,
            size: self.size,
            queueing_policy: match self.queueing_policy {
                Some(policy) => Some(policy@),
                None => None,
            },
            priority: self.priority,
        }
    }
}

} // verus!
