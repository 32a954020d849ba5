use crate::types::FlowId;
use vstd::prelude::*;

verus! {

/// What the runners of a runtime know of it: its name and its identifier.
#[derive(Debug, PartialEq, Eq)]
pub struct RuntimeContext {
    pub runtime_name: String,
    pub runtime_uuid: u128,
}

impl RuntimeContext {
    /// Whether a node that is placed on the runtime of the given name is to
    /// run here.
    pub fn hosts(&self, runtime: &String) -> (r: bool)
        ensures
            r == (self.runtime_name@ == runtime@),
    {
        self.runtime_name == *runtime
    }
}

impl Clone for RuntimeContext {
    fn clone(&self) -> (r: Self)
        ensures
            r == *self,
    {
        RuntimeContext { runtime_name: self.runtime_name.clone(), runtime_uuid: self.runtime_uuid }
    }
}

/// What the runners of one instance share: the flow it was made from, its
/// own identifier, and the runtime that hosts it. It does not change once
/// the instance exists.
#[derive(Debug, PartialEq, Eq)]
pub struct InstanceContext {
    pub flow_id: FlowId,
    pub instance_id: u128,
    pub runtime: RuntimeContext,
}

impl Clone for InstanceContext {
    fn clone(&self) -> (r: Self)
        ensures
            r == *self,
    {
        InstanceContext {
            flow_id: self.flow_id.clone(),
            instance_id: self.instance_id,
            runtime: self.runtime.clone(),
        }
    }
}

} // verus!
