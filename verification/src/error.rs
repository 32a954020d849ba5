use crate::types::{NodeId, PortId, PortType};
use vstd::prelude::*;

verus! {

/// Every failure the runtime core can report.
#[derive(Debug, PartialEq)]
pub enum ZFError {
    GenericError,
    SerializationError,
    DeseralizationError,
    MissingState,
    InvalidState,
    Unimplemented,
    Unsupported,
    Empty,
    MissingConfiguration,
    VersionMismatch,
    Disconnected,
    Uncompleted(String),
    RecvError(String),
    SendError(String),
    MissingInput(String),
    MissingOutput(String),
    InvalidData(String),
    IOError(String),
    JanuError(String),
    LoadingError(String),
    ParsingError(String),
    RunnerStopError,
    RunnerStopSendError,
    InstanceNotFound(u128),
    RPCError(String),
    SourceDoNotHaveInputs,
    ReceiverDoNotHaveInputs,
    SinkDoNotHaveOutputs,
    SenderDoNotHaveOutputs,
    DuplicatedNodeId(NodeId),
    DuplicatedPort((NodeId, PortId)),
    DuplicatedLink(((NodeId, PortId), (NodeId, PortId))),
    MultipleOutputsToInput((NodeId, PortId)),
    PortTypeNotMatching((PortType, PortType)),
    NodeNotFound(NodeId),
    PortNotFound((NodeId, PortId)),
    PortNotConnected((NodeId, PortId)),
    NotRecoding,
    AlreadyRecording,
    NoPathBetweenNodes(((NodeId, PortId), (NodeId, PortId))),
}

impl Clone for ZFError {
    fn clone(&self) -> (r: Self)
        ensures
            r == *self,
    {
        match self {
            ZFError::GenericError => ZFError::GenericError,
            ZFError::SerializationError => ZFError::SerializationError,
            ZFError::DeseralizationError => ZFError::DeseralizationError,
            ZFError::MissingState => ZFError::MissingState,
            ZFError::InvalidState => ZFError::InvalidState,
            ZFError::Unimplemented => ZFError::Unimplemented,
            ZFError::Unsupported => ZFError::Unsupported,
            ZFError::Empty => ZFError::Empty,
            ZFError::MissingConfiguration => ZFError::MissingConfiguration,
            ZFError::VersionMismatch => ZFError::VersionMismatch,
            ZFError::Disconnected => ZFError::Disconnected,
            ZFError::RunnerStopError => ZFError::RunnerStopError,
            ZFError::RunnerStopSendError => ZFError::RunnerStopSendError,
            ZFError::SourceDoNotHaveInputs => ZFError::SourceDoNotHaveInputs,
            ZFError::ReceiverDoNotHaveInputs => ZFError::ReceiverDoNotHaveInputs,
            ZFError::SinkDoNotHaveOutputs => ZFError::SinkDoNotHaveOutputs,
            ZFError::SenderDoNotHaveOutputs => ZFError::SenderDoNotHaveOutputs,
            ZFError::NotRecoding => ZFError::NotRecoding,
            ZFError::AlreadyRecording => ZFError::AlreadyRecording,
            ZFError::Uncompleted(a) => ZFError::Uncompleted(a.clone()),
            ZFError::RecvError(a) => ZFError::RecvError(a.clone()),
            ZFError::SendError(a) => ZFError::SendError(a.clone()),
            ZFError::MissingInput(a) => ZFError::MissingInput(a.clone()),
            ZFError::MissingOutput(a) => ZFError::MissingOutput(a.clone()),
            ZFError::InvalidData(a) => ZFError::InvalidData(a.clone()),
            ZFError::IOError(a) => ZFError::IOError(a.clone()),
            ZFError::JanuError(a) => ZFError::JanuError(a.clone()),
            ZFError::LoadingError(a) => ZFError::LoadingError(a.clone()),
            ZFError::ParsingError(a) => ZFError::ParsingError(a.clone()),
            ZFError::RPCError(a) => ZFError::RPCError(a.clone()),
            ZFError::DuplicatedNodeId(a) => ZFError::DuplicatedNodeId(a.clone()),
            ZFError::NodeNotFound(a) => ZFError::NodeNotFound(a.clone()),
            ZFError::InstanceNotFound(id) => ZFError::InstanceNotFound(*id),
            ZFError::DuplicatedPort(p) => ZFError::DuplicatedPort((p.0.clone(), p.1.clone())),
            ZFError::MultipleOutputsToInput(p) => ZFError::MultipleOutputsToInput(
                (p.0.clone(), p.1.clone()),
            ),
            ZFError::PortTypeNotMatching(p) => ZFError::PortTypeNotMatching(
                (p.0.clone(), p.1.clone()),
            ),
            ZFError::PortNotFound(p) => ZFError::PortNotFound((p.0.clone(), p.1.clone())),
            ZFError::PortNotConnected(p) => ZFError::PortNotConnected((p.0.clone(), p.1.clone())),
            ZFError::DuplicatedLink(p) => ZFError::DuplicatedLink(
                ((p.0.0.clone(), p.0.1.clone()), (p.1.0.clone(), p.1.1.clone())),
            ),
            ZFError::NoPathBetweenNodes(p) => ZFError::NoPathBetweenNodes(
                ((p.0.0.clone(), p.0.1.clone()), (p.1.0.clone(), p.1.1.clone())),
            ),
        }
    }
}

pub type ZFResult<T> = Result<T, ZFError>;

} // verus!
