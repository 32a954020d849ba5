//! The core of a dataflow runtime: typed links, message envelopes, deadline
//! bookkeeping, the runners of the nodes, and the instance that wires and
//! controls them.
//!
//! A flow is a graph of sources, operators and sinks, joined by links and,
//! where an edge crosses to another runtime, by connectors. An instance of a
//! flow has one runner for each node. A runner does not run by itself: the
//! runtime around this crate has one loop for each started node, which waits
//! for what the node needs (a message from a link, the user's code, the
//! fabric), hands it to the runner, and acts on what the runner decides.
//! Every decision is made here, and every function that makes one says what
//! it decides.
//!
//! Three things come from other crates and are taken on trust: the queues
//! of the links (`flume`), the hybrid logical clock (`uhlc`), and the
//! notation and the drawing of identifiers (`uuid`). What is assumed of them
//! is written at the functions that call them, in `link`, `clock`, `naming`
//! and `dataflow`; the same goes for the two calls into `std` that have no
//! contract of their own, in `message` and `resources`.

pub mod clock;
pub mod context;
pub mod dataflow;
pub mod deadline;
pub mod error;
pub mod instance;
pub mod instantiate;
pub mod io;
pub mod link;
pub mod message;
pub mod naming;
pub mod payload;
pub mod resources;
pub mod runners;
pub mod table;
pub mod time;
pub mod types;
pub mod wiring;

pub use clock::Clock;
pub use context::{InstanceContext, RuntimeContext};
pub use dataflow::{Dataflow, DataflowParts};
pub use deadline::{
    check_local_deadline, E2EDeadline, E2EDeadlineMiss, E2EDeadlineRecord, LocalDeadlineMiss,
};
pub use error::{ZFError, ZFResult};
pub use instance::DataflowInstance;
pub use io::OperatorIO;
pub use link::{link, LinkReceiver, LinkSender};
pub use message::{ControlMessage, DataMessage, Message};
pub use payload::{Data, Deserializable, ZFData};
pub use runners::connector::{JanuReceiver, JanuSender, ZFConnectorKind, ZFConnectorRecord};
pub use runners::node::{NodeRunner, RunnerManager};
pub use runners::replay::{JanuReplay, Replayed};
pub use runners::operator::{
    carry_over, consume_tokens, default_input_rule, default_output_rule, Carried, NodeOutput,
    OperatorLoaded, OperatorRunner, Outgoing, Token,
};
pub use runners::sink::{SinkLoaded, SinkRunner};
pub use runners::source::{Emission, SourceLoaded, SourceRunner};
pub use runners::{
    arrive, broadcast, broadcast_result, receive_data, senders_for, Received, RunnerKind,
};
pub use table::Table;
pub use wiring::create_links;
pub use time::{Duration, Timestamp};
pub use types::{
    Endpoint, FlowId, InputDescriptor, LinkDescriptor, LinkView, NodeId, OutputDescriptor,
    PortDescriptor, PortId, PortType, PortView,
};
