use crate::clock::Clock;
use crate::context::InstanceContext;
use crate::error::{ZFError, ZFResult};
use crate::naming::{record_name, replay_id, replay_name};
use crate::runners::node::{NodeRunner, RunnerManager};
use crate::runners::replay::JanuReplay;
use crate::runners::{bound_to, senders_for, RunnerKind};
use crate::table::Table;
use crate::types::{FlowId, NodeId, PortDescriptor};
use crate::wiring::names;
use vstd::prelude::*;

verus! {

/// The names of the runners of one kind, in the order of the runners.
pub open spec fn kind_ids<P>(keys: Seq<Seq<char>>, runners: Seq<NodeRunner<P>>, kind: RunnerKind)
    -> Seq<Seq<char>>
    decreases keys.len(),
{
    if keys.len() == 0 || runners.len() != keys.len() {
        Seq::empty()
    } else {
        let rest = kind_ids(keys.drop_last(), runners.drop_last(), kind);
        if runners.last().kind() == kind {
            rest.push(keys.last())
        } else {
            rest
        }
    }
}

/// A table of runners stays in order when one runner is changed where it
/// stands and is in order afterwards, under its name and with its context:
/// every runner stands under its own name as before, and every other name
/// finds the runner that it found before.
proof fn lemma_runner_changed<P>(
    before: Table<NodeRunner<P>>,
    after: Table<NodeRunner<P>>,
    i: int,
    context: InstanceContext,
)
    requires
        before.wf(),
        0 <= i < before.keys().len(),
        after.keys() == before.keys(),
        after.values() == before.values().update(i, after.values()[i]),
        forall|j: int|
            0 <= j < before.keys().len() ==> (#[trigger] before.values()[j]).id()
                == before.keys()[j] && before.values()[j].wf() && before.values()[j].context()
                == context,
        after.values()[i].id() == before.keys()[i],
        after.values()[i].wf(),
        after.values()[i].context() == context,
    ensures
        after.wf(),
        after.at(before.keys()[i]) == after.values()[i],
        forall|j: int|
            0 <= j < after.keys().len() ==> (#[trigger] after.values()[j]).id() == after.keys()[j]
                && after.values()[j].wf() && after.values()[j].context() == context,
        forall|k: Seq<char>|
            k != before.keys()[i] && #[trigger] before.has(k) ==> after.at(k) == before.at(k),
{
    before.lemma_len();
    after.lemma_len();
    after.lemma_index(i);
    assert forall|j: int| 0 <= j < after.keys().len() implies (#[trigger] after.values()[j]).id()
        == after.keys()[j] && after.values()[j].wf() && after.values()[j].context()
        == context by {
        if j != i {
            assert(after.values()[j] == before.values()[j]);
        }
    }
    assert forall|k: Seq<char>| k != before.keys()[i] && #[trigger] before.has(k) implies after.at(
        k,
    ) == before.at(k) by {
        let j = before.keys().index_of(k);
        before.lemma_index(j);
        after.lemma_index(j);
    }
}

/// The managers stay under the names of their nodes when the manager of one
/// node comes, goes or gives way to another of that node, and the others
/// are left alone.
proof fn lemma_managers_changed(
    before: Table<RunnerManager>,
    after: Table<RunnerManager>,
    name: Seq<char>,
)
    requires
        before.wf(),
        after.wf(),
        forall|j: int|
            0 <= j < before.keys().len() ==> (#[trigger] before.values()[j]).node()
                == before.keys()[j],
        forall|k: Seq<char>|
            #![trigger after.has(k)]
            k != name && after.has(k) ==> before.has(k) && after.at(k) == before.at(k),
        after.has(name) ==> after.at(name).node() == name,
    ensures
        forall|j: int|
            0 <= j < after.keys().len() ==> (#[trigger] after.values()[j]).node()
                == after.keys()[j],
{
    assert forall|j: int| 0 <= j < after.keys().len() implies (#[trigger] after.values()[j]).node()
        == after.keys()[j] by {
        after.lemma_index(j);
        let k = after.keys()[j];
        if k != name {
            assert(before.has(k));
            let j0 = before.keys().index_of(k);
            before.lemma_index(j0);
        }
    }
}

/// A flow at work on one runtime: the runners of its nodes, wired by links,
/// and the managers of those that have been started.
#[verifier::reject_recursive_types(P)]
pub struct DataflowInstance<P> {
    context: InstanceContext,
    runners: Table<NodeRunner<P>>,
    managers: Table<RunnerManager>,
}

impl<P> DataflowInstance<P> {
    /// What the runners of the instance share.
    pub closed spec fn context(&self) -> InstanceContext {
        self.context
    }

    /// The runners, under the names of their nodes.
    pub closed spec fn runners(&self) -> Table<NodeRunner<P>> {
        self.runners
    }

    /// The managers of the nodes that have been started and not stopped
    /// since, under the names of the nodes.
    pub closed spec fn managers(&self) -> Table<RunnerManager> {
        self.managers
    }

    /// No node has two runners or two managers, every runner and every
    /// manager stands under the name of its node, and every runner is in
    /// order.
    pub open spec fn wf(&self) -> bool {
        &&& self.runners().wf()
        &&& self.managers().wf()
        &&& forall|i: int|
            0 <= i < self.runners().keys().len() ==> (#[trigger] self.runners().values()[i]).id()
                == self.runners().keys()[i] && self.runners().values()[i].wf()
                && self.runners().values()[i].context() == self.context()
        &&& forall|i: int|
            0 <= i < self.managers().keys().len() ==> (
            #[trigger] self.managers().values()[i]).node() == self.managers().keys()[i]
        &&& forall|k: Seq<char>| #[trigger] self.managers().has(k) ==> self.runners().has(k)
    }

    /// All runners but the one of `node` are as they are in `other`.
    pub open spec fn same_runners_but(&self, other: &Self, node: Seq<char>) -> bool {
        &&& self.runners().keys() == other.runners().keys()
        &&& forall|k: Seq<char>|
            k != node && #[trigger] other.runners().has(k) ==> self.runners().at(k)
                == other.runners().at(k)
    }

    /// All managers but the one of `node` are as they are in `other`.
    pub open spec fn same_managers_but(&self, other: &Self, node: Seq<char>) -> bool {
        forall|k: Seq<char>|
            #![trigger self.managers().has(k)]
            k != node ==> (self.managers().has(k) == other.managers().has(k)) && (
            other.managers().has(k) ==> self.managers().at(k) == other.managers().at(k))
    }

    /// Whether the loop of `node` is meant to go on: the node has been
    /// started, has not been stopped since, and its runner has not ended.
    pub open spec fn node_runs(&self, node: Seq<char>) -> bool {
        self.managers().has(node) && self.runners().at(node).running()
    }

    /// The instance is what `before` has become by stopping `node`, which
    /// was started: the node has lost its manager and its runner is asked to
    /// end, and every other node is as it was.
    pub open spec fn stopped(&self, before: &Self, node: Seq<char>) -> bool {
        &&& before.managers().has(node)
        &&& self.same_runners_but(before, node)
        &&& self.same_managers_but(before, node)
        &&& !self.managers().has(node)
        &&& !self.runners().at(node).running()
    }

    /// Puts an instance together from its parts.
    pub(crate) fn assemble(
        context: InstanceContext,
        runners: Table<NodeRunner<P>>,
        managers: Table<RunnerManager>,
    ) -> (r: Self)
        ensures
            r.context() == context,
            r.runners() == runners,
            r.managers() == managers,
    {
        DataflowInstance { context, runners, managers }
    }

    /// The runner of a node, if the node has one.
    pub fn runner(&self, node_id: &NodeId) -> (r: Option<&NodeRunner<P>>)
        requires
            self.wf(),
        ensures
            r is Some <==> self.runners().has(node_id@),
            r matches Some(runner) ==> *runner == self.runners().at(node_id@),
    {
        self.runners.get(node_id)
    }

    /// The runner of a node, if the node has one, to be worked with where it
    /// stands. The instance stays in order as long as the runner does.
    pub fn runner_mut(&mut self, node_id: &NodeId) -> (r: Option<&mut NodeRunner<P>>)
        requires
            old(self).wf(),
        ensures
            r is Some <==> old(self).runners().has(node_id@),
            r is None ==> *final(self) == *old(self),
            r matches Some(runner) ==> {
                &&& *runner == old(self).runners().at(node_id@)
                &&& final(self).context() == old(self).context()
                &&& final(self).managers() == old(self).managers()
                &&& final(self).runners().keys() == old(self).runners().keys()
                &&& final(self).runners().values() == old(self).runners().values().update(
                    old(self).runners().keys().index_of(node_id@),
                    *final(runner),
                )
            },
    {
        match self.runners.position(node_id) {
            Some(i) => {
                proof {
                    self.runners.lemma_index(i as int);
                }
                Some(self.runners.value_mut(i))
            },
            None => None,
        }
    }

    /// The identifier of the instance.
    pub fn get_uuid(&self) -> (r: u128)
        ensures
            r == self.context().instance_id,
    {
        self.context.instance_id
    }

    /// The name of the flow that the instance was made from.
    pub fn get_flow(&self) -> (r: FlowId)
        ensures
            r == self.context().flow_id,
    {
        self.context.flow_id.clone()
    }

    /// What the runners of the instance share.
    pub fn get_instance_context(&self) -> (r: InstanceContext)
        ensures
            r == self.context(),
    {
        self.context.clone()
    }

    fn ids_of_kind(&self, kind: RunnerKind) -> (r: Vec<NodeId>)
        ensures
            names(r@) == kind_ids(self.runners().keys(), self.runners().values(), kind),
    {
        let mut ids: Vec<NodeId> = Vec::new();
        let ghost ks = self.runners.keys();
        let ghost vs = self.runners.values();
        let mut i: usize = 0;
        proof {
            self.runners.lemma_len();
            assert(ks.take(0) =~= Seq::<Seq<char>>::empty());
            assert(names(ids@) =~= Seq::<Seq<char>>::empty());
        }
        while i < self.runners.len()
            invariant
                i <= ks.len(),
                ks.len() == vs.len(),
                ks == self.runners.keys(),
                vs == self.runners.values(),
                names(ids@) == kind_ids(ks.take(i as int), vs.take(i as int), kind),
            decreases ks.len() - i,
        {
            let runner = self.runners.value(i);
            let ghost before = names(ids@);
            proof {
                assert(ks.take(i + 1).drop_last() =~= ks.take(i as int));
                assert(vs.take(i + 1).drop_last() =~= vs.take(i as int));
                assert(ks.take(i + 1).last() == ks[i as int]);
                assert(vs.take(i + 1).last() == vs[i as int]);
            }
            let same = match (runner.get_kind(), kind) {
                (RunnerKind::Source, RunnerKind::Source) => true,
                (RunnerKind::Operator, RunnerKind::Operator) => true,
                (RunnerKind::Sink, RunnerKind::Sink) => true,
                (RunnerKind::Connector, RunnerKind::Connector) => true,
                (RunnerKind::Replay, RunnerKind::Replay) => true,
                _ => false,
            };
            if same {
                ids.push(self.runners.key(i).clone());
                assert(names(ids@) =~= before.push(ks[i as int]));
            }
            i += 1;
        }
        proof {
            assert(ks.take(i as int) =~= ks);
            assert(vs.take(i as int) =~= vs);
        }
        ids
    }

    /// The names of the sources.
    pub fn get_sources(&self) -> (r: Vec<NodeId>)
        ensures
            names(r@) == kind_ids(
                self.runners().keys(),
                self.runners().values(),
                RunnerKind::Source,
            ),
    {
        self.ids_of_kind(RunnerKind::Source)
    }

    /// The names of the sinks.
    pub fn get_sinks(&self) -> (r: Vec<NodeId>)
        ensures
            names(r@) == kind_ids(self.runners().keys(), self.runners().values(), RunnerKind::Sink),
    {
        self.ids_of_kind(RunnerKind::Sink)
    }

    /// The names of the operators.
    pub fn get_operators(&self) -> (r: Vec<NodeId>)
        ensures
            names(r@) == kind_ids(
                self.runners().keys(),
                self.runners().values(),
                RunnerKind::Operator,
            ),
    {
        self.ids_of_kind(RunnerKind::Operator)
    }

    /// The names of the connectors.
    pub fn get_connectors(&self) -> (r: Vec<NodeId>)
        ensures
            names(r@) == kind_ids(
                self.runners().keys(),
                self.runners().values(),
                RunnerKind::Connector,
            ),
    {
        self.ids_of_kind(RunnerKind::Connector)
    }

    /// The names of all nodes that have a runner.
    pub fn get_nodes(&self) -> (r: Vec<NodeId>)
        ensures
            names(r@) == self.runners().keys(),
    {
        let mut ids: Vec<NodeId> = Vec::new();
        let mut i: usize = 0;
        while i < self.runners.len()
            invariant
                i <= self.runners.keys().len(),
                names(ids@) == self.runners.keys().take(i as int),
            decreases self.runners.keys().len() - i,
        {
            let ghost before = names(ids@);
            ids.push(self.runners.key(i).clone());
            proof {
                let ks = self.runners.keys();
                assert(names(ids@) =~= before.push(ks[i as int]));
                assert(ks.take(i + 1) =~= ks.take(i as int).push(ks[i as int]));
            }
            i += 1;
        }
        proof {
            assert(self.runners.keys().take(i as int) =~= self.runners.keys());
        }
        ids
    }

    /// Starting all sources at once is not provided.
    pub fn start_sources(&mut self) -> (r: ZFResult<()>)
        ensures
            r == Err::<(), ZFError>(ZFError::Unimplemented),
            *final(self) == *old(self),
    {
        Err(ZFError::Unimplemented)
    }

    /// Starting all nodes at once is not provided.
    pub fn start_nodes(&mut self) -> (r: ZFResult<()>)
        ensures
            r == Err::<(), ZFError>(ZFError::Unimplemented),
            *final(self) == *old(self),
    {
        Err(ZFError::Unimplemented)
    }

    /// Stopping all sources at once is not provided.
    pub fn stop_sources(&mut self) -> (r: ZFResult<()>)
        ensures
            r == Err::<(), ZFError>(ZFError::Unimplemented),
            *final(self) == *old(self),
    {
        Err(ZFError::Unimplemented)
    }

    /// Stopping all nodes at once is not provided.
    pub fn stop_nodes(&mut self) -> (r: ZFResult<()>)
        ensures
            r == Err::<(), ZFError>(ZFError::Unimplemented),
            *final(self) == *old(self),
    {
        Err(ZFError::Unimplemented)
    }

    /// Whether the loop of a node is meant to go on. A node that has no
    /// runner is answered with `NodeNotFound`; one that has not been started,
    /// or has been stopped since, is not running.
    pub fn is_node_running(&self, node_id: &NodeId) -> (r: ZFResult<bool>)
        requires
            self.wf(),
        ensures
            !self.runners().has(node_id@) ==> r == Err::<bool, ZFError>(
                ZFError::NodeNotFound(*node_id),
            ),
            self.runners().has(node_id@) ==> r == Ok::<bool, ZFError>(self.node_runs(node_id@)),
    {
        let runner = match self.runners.get(node_id) {
            Some(runner) => runner,
            None => {
                return Err(ZFError::NodeNotFound(node_id.clone()));
            },
        };
        match self.managers.get(node_id) {
            Some(manager) => Ok(manager.is_running(runner)),
            None => Ok(false),
        }
    }

    /// Starts a node: its runner is marked as running, and a manager
    /// answers for its loop from now on.
    ///
    /// A node is started once: as long as it has a manager, that is, until it
    /// is stopped, another start is refused with `InvalidState`. A node that
    /// has no runner is answered with `NodeNotFound`. In both cases nothing
    /// changes.
    pub fn start_node(&mut self, node_id: &NodeId) -> (r: ZFResult<()>)
        requires
            old(self).wf(),
        ensures
            final(self).wf(),
            final(self).context() == old(self).context(),
            !old(self).runners().has(node_id@) ==> r == Err::<(), ZFError>(
                ZFError::NodeNotFound(*node_id),
            ) && *final(self) == *old(self),
            old(self).runners().has(node_id@) && old(self).managers().has(node_id@) ==> r == Err::<
                (),
                ZFError,
            >(ZFError::InvalidState) && *final(self) == *old(self),
            old(self).runners().has(node_id@) && !old(self).managers().has(node_id@) ==> {
                &&& r is Ok
                &&& final(self).same_runners_but(old(self), node_id@)
                &&& final(self).same_managers_but(old(self), node_id@)
                &&& final(self).runners().at(node_id@).running()
                &&& final(self).runners().at(node_id@).same_but_running(
                    &old(self).runners().at(node_id@),
                )
                &&& final(self).runners().at(node_id@).same_node(&old(self).runners().at(node_id@))
                &&& final(self).runners().at(node_id@).output_links()
                    == old(self).runners().at(node_id@).output_links()
                &&& final(self).managers().has(node_id@)
                &&& final(self).managers().at(node_id@).started()
                &&& !final(self).managers().at(node_id@).killed()
            },
    {
        let i = match self.runners.position(node_id) {
            Some(i) => i,
            None => {
                return Err(ZFError::NodeNotFound(node_id.clone()));
            },
        };
        if self.managers.contains_key(node_id) {
            return Err(ZFError::InvalidState);
        }
        let ghost before = self.runners;
        proof {
            before.lemma_len();
            before.lemma_index(i as int);
        }
        let runner = self.runners.value_mut(i);
        let manager = runner.start();
        proof {
            lemma_runner_changed(before, self.runners, i as int, self.context);
        }
        let ghost managers = self.managers;
        let _ = self.managers.insert(node_id.clone(), manager);
        proof {
            lemma_managers_changed(managers, self.managers, node_id@);
        }
        Ok(())
    }

    /// Stops a node that has been started: its manager is taken away and
    /// its runner is asked to end its loop. A node that has no manager is
    /// answered with `NodeNotFound`, and nothing changes.
    pub fn stop_node(&mut self, node_id: &NodeId) -> (r: ZFResult<()>)
        requires
            old(self).wf(),
        ensures
            final(self).wf(),
            final(self).context() == old(self).context(),
            !old(self).managers().has(node_id@) ==> r == Err::<(), ZFError>(
                ZFError::NodeNotFound(*node_id),
            ) && *final(self) == *old(self),
            old(self).managers().has(node_id@) ==> {
                &&& r is Ok
                &&& final(self).stopped(old(self), node_id@)
                &&& final(self).runners().at(node_id@).same_but_running(
                    &old(self).runners().at(node_id@),
                )
                &&& final(self).runners().at(node_id@).same_node(&old(self).runners().at(node_id@))
                &&& final(self).runners().at(node_id@).output_links()
                    == old(self).runners().at(node_id@).output_links()
            },
    {
        let m = match self.managers.position(node_id) {
            Some(m) => m,
            None => {
                return Err(ZFError::NodeNotFound(node_id.clone()));
            },
        };
        let ghost managers = self.managers;
        proof {
            managers.lemma_index(m as int);
        }
        let (_, mut manager) = self.managers.remove_at(m);
        proof {
            lemma_managers_changed(managers, self.managers, node_id@);
        }
        if let Some(i) = self.runners.position(node_id) {
            let ghost before = self.runners;
            proof {
                before.lemma_len();
                before.lemma_index(i as int);
            }
            let runner = self.runners.value_mut(i);
            let _ = manager.kill(runner);
            proof {
                lemma_runner_changed(before, self.runners, i as int, self.context);
            }
        }
        Ok(())
    }

    /// Begins a recording of what a started node emits and returns its
    /// name. A node that has no manager is answered with `NodeNotFound`; for
    /// the others the answer is that of the node's runner.
    pub fn start_recording(&mut self, node_id: &NodeId, clock: &mut Clock) -> (r: ZFResult<String>)
        requires
            old(self).wf(),
            old(clock).wf(),
        ensures
            final(self).wf(),
            final(clock).wf(),
            final(clock).id() == old(clock).id(),
            final(self).context() == old(self).context(),
            final(self).managers() == old(self).managers(),
            final(self).same_runners_but(old(self), node_id@),
            !old(self).managers().has(node_id@) ==> r == Err::<String, ZFError>(
                ZFError::NodeNotFound(*node_id),
            ) && *final(self) == *old(self) && final(clock).time() == old(clock).time(),
            old(self).managers().has(node_id@) ==> {
                let was = old(self).runners().at(node_id@);
                let now = final(self).runners().at(node_id@);
                &&& now.same_node(&was)
                &&& now.running() == was.running()
                &&& !(was is Source) ==> r == Err::<String, ZFError>(ZFError::Unsupported)
                    && final(clock).time() == old(clock).time()
                &&& was matches NodeRunner::Source(s) ==> {
                    &&& now matches NodeRunner::Source(t)
                    &&& s.recording() is Some ==> r == Err::<String, ZFError>(
                        ZFError::AlreadyRecording,
                    ) && t.recording() == s.recording() && final(clock).time() == old(clock).time()
                    &&& s.recording() is None && old(clock).time() == u64::MAX ==> r == Err::<
                        String,
                        ZFError,
                    >(ZFError::InvalidState) && t.recording() is None
                    &&& s.recording() is None && old(clock).time() < u64::MAX ==> {
                        &&& r matches Ok(name)
                        &&& old(clock).time() < final(clock).time()
                        &&& name@ == record_name(s.base_name(), final(clock).time())
                        &&& t.recording() == Some(name@)
                    }
                }
            },
    {
        if !self.managers.contains_key(node_id) {
            return Err(ZFError::NodeNotFound(node_id.clone()));
        }
        match self.runners.position(node_id) {
            Some(i) => {
                let ghost before = self.runners;
                proof {
                    before.lemma_len();
                    before.lemma_index(i as int);
                }
                let runner = self.runners.value_mut(i);
                let r = runner.start_recording(clock);
                proof {
                    lemma_runner_changed(before, self.runners, i as int, self.context);
                }
                r
            },
            None => Err(ZFError::NodeNotFound(node_id.clone())),
        }
    }

    /// Ends the recording of what a started node emits and returns its
    /// name. A node that has no manager is answered with `NodeNotFound`; for
    /// the others the answer is that of the node's runner.
    pub fn stop_recording(&mut self, node_id: &NodeId) -> (r: ZFResult<String>)
        requires
            old(self).wf(),
        ensures
            final(self).wf(),
            final(self).context() == old(self).context(),
            final(self).managers() == old(self).managers(),
            final(self).same_runners_but(old(self), node_id@),
            !old(self).managers().has(node_id@) ==> r == Err::<String, ZFError>(
                ZFError::NodeNotFound(*node_id),
            ) && *final(self) == *old(self),
            old(self).managers().has(node_id@) ==> {
                let was = old(self).runners().at(node_id@);
                let now = final(self).runners().at(node_id@);
                &&& now.same_node(&was)
                &&& now.running() == was.running()
                &&& !(was is Source) ==> r == Err::<String, ZFError>(ZFError::Unsupported)
                &&& was matches NodeRunner::Source(s) ==> {
                    &&& now matches NodeRunner::Source(t)
                    &&& t.recording() is None
                    &&& match s.recording() {
                        Some(name) => r matches Ok(n) && n@ == name,
                        None => r == Err::<String, ZFError>(ZFError::NotRecoding),
                    }
                }
            },
    {
        if !self.managers.contains_key(node_id) {
            return Err(ZFError::NodeNotFound(node_id.clone()));
        }
        match self.runners.position(node_id) {
            Some(i) => {
                let ghost before = self.runners;
                proof {
                    before.lemma_len();
                    before.lemma_index(i as int);
                }
                let runner = self.runners.value_mut(i);
                let r = runner.stop_recording();
                proof {
                    lemma_runner_changed(before, self.runners, i as int, self.context);
                }
                r
            },
            None => Err(ZFError::NodeNotFound(node_id.clone())),
        }
    }

    /// Starts the replay of a recording in place of a source.
    ///
    /// The replay takes the last output port of the source and feeds the
    /// links of that port from the recording `resource`. It gets a runner and
    /// a manager of its own, under the name
    /// `replay-<flow>-<instance>-<source>-<output>`, which is returned. A new
    /// name goes behind the names that are there. Where a runner stands
    /// under that name already, as after an earlier replay of the same
    /// output that has not been stopped, the new runner and manager take
    /// the place of the old, and the order of the names stays. The source
    /// itself is left as it is: stopping it beforehand is up to the caller.
    ///
    /// A source that has no runner, or whose runner has no output port, is
    /// answered with `NodeNotFound`; one whose port feeds no link with
    /// `PortNotFound`. Nothing changes then.
    pub fn start_replay(&mut self, source_id: &NodeId, resource: String) -> (r: ZFResult<NodeId>)
        requires
            old(self).wf(),
        ensures
            final(self).wf(),
            final(self).context() == old(self).context(),
            r is Err ==> *final(self) == *old(self),
            !old(self).runners().has(source_id@) ==> r == Err::<NodeId, ZFError>(
                ZFError::NodeNotFound(*source_id),
            ),
            old(self).runners().has(source_id@)
                && old(self).runners().at(source_id@).outputs().len() == 0
                ==> r == Err::<NodeId, ZFError>(
                ZFError::NodeNotFound(*source_id),
            ),
            old(self).runners().has(source_id@)
                && old(self).runners().at(source_id@).outputs().len() > 0 ==> {
                let source = old(self).runners().at(source_id@);
                let port = source.outputs().last();
                let fed = bound_to(source.output_links(), port.port_id@);
                let name = replay_name(
                    old(self).context().flow_id@,
                    old(self).context().instance_id,
                    source_id@,
                    port.port_id@,
                );
                &&& fed.len() == 0 ==> (r matches Err(ZFError::PortNotFound(p)) && p.0@
                    == source_id@ && p.1@ == port.port_id@)
                &&& fed.len() > 0 ==> {
                    &&& r matches Ok(id)
                    &&& id@ == name
                    &&& final(self).same_runners_except(old(self), id@)
                    &&& final(self).same_managers_but(old(self), id@)
                    &&& final(self).runners().keys() == if old(self).runners().has(name) {
                        old(self).runners().keys()
                    } else {
                        old(self).runners().keys().push(name)
                    }
                    &&& final(self).managers().has(id@)
                    &&& final(self).managers().at(id@).started()
                    &&& !final(self).managers().at(id@).killed()
                    &&& final(self).runners().has(id@)
                    &&& final(self).runners().at(id@) matches NodeRunner::Replay(replay)
                    &&& replay.id() == id@
                    &&& replay.context() == old(self).context()
                    &&& replay.node_id() == source_id@
                    &&& replay.port()@ == port@
                    &&& replay.resource_name() == resource@
                    &&& replay.running()
                    &&& replay.previous() is None
                    &&& replay.links().len() == fed.len()
                    &&& forall|i: int|
                        0 <= i < fed.len() ==> (#[trigger] replay.links()[i]).id == fed[i].id
                }
            },
    {
        let runner = match self.runners.get(source_id) {
            Some(runner) => runner,
            None => {
                return Err(ZFError::NodeNotFound(source_id.clone()));
            },
        };
        let mut outputs: Vec<PortDescriptor> = runner.get_outputs();
        let port = match outputs.pop() {
            Some(port) => port,
            None => {
                return Err(ZFError::NodeNotFound(source_id.clone()));
            },
        };
        let replay_id: NodeId = replay_id(
            &self.context.flow_id,
            self.context.instance_id,
            source_id,
            &port.port_id,
        );
        let handles = runner.get_outputs_links();
        let ghost all = handles@;
        let ghost links = runner.output_links();
        let output_links = senders_for(handles, &port.port_id);
        proof {
            lemma_bound_alike(all, links, port.port_id@);
        }
        if output_links.len() == 0 {
            return Err(ZFError::PortNotFound((source_id.clone(), port.port_id.clone())));
        }
        let replay_node = match JanuReplay::try_new(
            replay_id.clone(),
            self.context.clone(),
            source_id.clone(),
            port.port_id,
            port.port_type,
            output_links,
            resource,
        ) {
            Ok(node) => node,
            Err(e) => {
                return Err(e);
            },
        };
        let mut replay_runner = NodeRunner::Replay(replay_node);
        let replay_manager = replay_runner.start();

        let ghost runners = self.runners;
        let ghost managers = self.managers;
        let _ = self.runners.insert(replay_id.clone(), replay_runner);
        let _ = self.managers.insert(replay_id.clone(), replay_manager);
        proof {
            assert forall|j: int| 0 <= j < self.runners.keys().len() implies (
            #[trigger] self.runners.values()[j]).id() == self.runners.keys()[j]
                && self.runners.values()[j].wf() && self.runners.values()[j].context()
                == self.context by {
                self.runners.lemma_index(j);
                let k = self.runners.keys()[j];
                if k != replay_id@ {
                    assert(runners.has(k));
                    let j0 = runners.keys().index_of(k);
                    runners.lemma_index(j0);
                }
            }
            lemma_managers_changed(managers, self.managers, replay_id@);
            assert forall|k: Seq<char>| #[trigger] self.managers.has(k)
                implies self.runners.has(k) by {
                if k != replay_id@ {
                    assert(managers.has(k));
                    assert(runners.has(k));
                }
            }
        }
        Ok(replay_id)
    }

    /// Stopping takes nodes down for good. After started nodes have been
    /// stopped one after the other, in whatever order, none of them has a
    /// manager and none of them runs; a node that was not among them runs
    /// exactly if it ran before, and no runner has come or gone. So once
    /// every started node has been stopped, no node of the instance runs.
    ///
    /// `states` holds the instance before the first stop and after each
    /// stop, `nodes` the node that each stop was for.
    pub proof fn lemma_stopped_nodes_stay_down(states: Seq<Self>, nodes: Seq<Seq<char>>)
        requires
            states.len() == nodes.len() + 1,
            forall|i: int|
                1 <= i < states.len() ==> (#[trigger] states[i]).stopped(
                    &states[i - 1],
                    nodes[i - 1],
                ),
        ensures
            states.last().runners().keys() == states[0].runners().keys(),
            forall|i: int|
                0 <= i < nodes.len() ==> !states.last().managers().has(#[trigger] nodes[i])
                    && !states.last().node_runs(nodes[i]),
            forall|k: Seq<char>|
                !nodes.contains(k) && states[0].runners().has(k) ==> (
                #[trigger] states.last().node_runs(k)) == states[0].node_runs(k),
            (forall|k: Seq<char>| #[trigger] states[0].managers().has(k) ==> nodes.contains(k))
                ==> forall|k: Seq<char>| !#[trigger] states.last().node_runs(k),
        decreases nodes.len(),
    {
        if nodes.len() > 0 {
            let n = nodes.len() as int;
            let earlier = states.drop_last();
            let stops = nodes.drop_last();
            assert forall|i: int| 1 <= i < earlier.len() implies (#[trigger] earlier[i]).stopped(
                &earlier[i - 1],
                stops[i - 1],
            ) by {
                assert(states[i].stopped(&states[i - 1], nodes[i - 1]));
            }
            Self::lemma_stopped_nodes_stay_down(earlier, stops);
            let before = states[n - 1];
            let after = states[n];
            let node = nodes[n - 1];
            assert(earlier.last() == before);
            assert(earlier[0] == states[0]);
            assert(after.stopped(&before, node));
            assert forall|i: int| 0 <= i < nodes.len() implies !after.managers().has(
                #[trigger] nodes[i],
            ) by {
                if i < n - 1 {
                    assert(stops[i] == nodes[i]);
                    assert(!before.managers().has(stops[i]));
                }
            }
            assert forall|k: Seq<char>| !nodes.contains(k) && states[0].runners().has(k) implies (
            #[trigger] after.node_runs(k)) == states[0].node_runs(k) by {
                assert(k != node);
                assert(!stops.contains(k)) by {
                    if stops.contains(k) {
                        let j = choose|j: int| 0 <= j < stops.len() && stops[j] == k;
                        assert(nodes[j] == k);
                    }
                }
                assert(before.node_runs(k) == states[0].node_runs(k));
                assert(before.runners().has(k));
            }
            if forall|k: Seq<char>| #[trigger] states[0].managers().has(k) ==> nodes.contains(k) {
                assert forall|k: Seq<char>| !#[trigger] after.node_runs(k) by {
                    if after.managers().has(k) {
                        assert(k != node);
                        assert(before.managers().has(k));
                        Self::lemma_managers_only_go(earlier, stops, k);
                        assert(states[0].managers().has(k));
                        let j = choose|j: int| 0 <= j < nodes.len() && nodes[j] == k;
                        assert(!after.managers().has(nodes[j]));
                    }
                }
            }
        }
    }

    /// Stopping gives no node a manager: a node that has one after a run of
    /// stops had it before.
    pub proof fn lemma_managers_only_go(states: Seq<Self>, nodes: Seq<Seq<char>>, node: Seq<char>)
        requires
            states.len() == nodes.len() + 1,
            forall|i: int|
                1 <= i < states.len() ==> (#[trigger] states[i]).stopped(
                    &states[i - 1],
                    nodes[i - 1],
                ),
            states.last().managers().has(node),
        ensures
            states[0].managers().has(node),
            states.last().managers().at(node) == states[0].managers().at(node),
        decreases nodes.len(),
    {
        if nodes.len() > 0 {
            let n = nodes.len() as int;
            let earlier = states.drop_last();
            let stops = nodes.drop_last();
            assert forall|i: int| 1 <= i < earlier.len() implies (#[trigger] earlier[i]).stopped(
                &earlier[i - 1],
                stops[i - 1],
            ) by {
                assert(states[i].stopped(&states[i - 1], nodes[i - 1]));
            }
            assert(states[n].stopped(&states[n - 1], nodes[n - 1]));
            assert(earlier.last() == states[n - 1]);
            Self::lemma_managers_only_go(earlier, stops, node);
        }
    }

    /// Every runner but the one of `node` is as it is in `other`, and `other`
    /// has none that is missing here.
    pub open spec fn same_runners_except(&self, other: &Self, node: Seq<char>) -> bool {
        forall|k: Seq<char>|
            #![trigger self.runners().has(k)]
            k != node ==> (self.runners().has(k) == other.runners().has(k)) && (
            other.runners().has(k) ==> self.runners().at(k) == other.runners().at(k))
    }

    /// Stops a replay and takes its runner away. A replay that has no
    /// manager is answered with `NodeNotFound`, and nothing changes.
    pub fn stop_replay(&mut self, replay_id: &NodeId) -> (r: ZFResult<()>)
        requires
            old(self).wf(),
        ensures
            final(self).wf(),
            final(self).context() == old(self).context(),
            !old(self).managers().has(replay_id@) ==> r == Err::<(), ZFError>(
                ZFError::NodeNotFound(*replay_id),
            ) && *final(self) == *old(self),
            old(self).managers().has(replay_id@) ==> {
                &&& r is Ok
                &&& final(self).same_runners_except(old(self), replay_id@)
                &&& final(self).same_managers_but(old(self), replay_id@)
                &&& !final(self).managers().has(replay_id@)
                &&& !final(self).runners().has(replay_id@)
            },
    {
        match self.stop_node(replay_id) {
            Ok(()) => {},
            Err(e) => {
                return Err(e);
            },
        }
        let ghost stopped = self.runners;
        let _ = self.runners.remove(replay_id);
        proof {
            assert forall|j: int| 0 <= j < self.runners.keys().len() implies (
            #[trigger] self.runners.values()[j]).id() == self.runners.keys()[j]
                && self.runners.values()[j].wf() && self.runners.values()[j].context()
                == self.context by {
                self.runners.lemma_index(j);
                let k = self.runners.keys()[j];
                assert(stopped.has(k));
                let j0 = stopped.keys().index_of(k);
                stopped.lemma_index(j0);
            }
            assert forall|k: Seq<char>| k != replay_id@ implies (#[trigger] self.runners().has(k)
                == old(self).runners().has(k)) && (old(self).runners().has(k)
                    ==> self.runners().at(k) == old(self).runners().at(k)) by {
                assert(stopped.keys() == old(self).runners().keys());
            }
        }
        Ok(())
    }
}

/// Handles to sending ends are bound to the same ports as the ends they were
/// made from, so as many of them are bound to a given port, at the same
/// places.
proof fn lemma_bound_alike<P>(
    handles: Seq<crate::link::LinkSender<crate::message::Message<P>>>,
    links: Seq<crate::link::LinkSender<crate::message::Message<P>>>,
    port: Seq<char>,
)
    requires
        handles.len() == links.len(),
        forall|i: int| 0 <= i < handles.len() ==> (#[trigger] handles[i]).id == links[i].id,
    ensures
        bound_to(handles, port).len() == bound_to(links, port).len(),
        forall|i: int|
            0 <= i < bound_to(links, port).len() ==> (#[trigger] bound_to(handles, port)[i]).id
                == bound_to(links, port)[i].id,
    decreases handles.len(),
{
    reveal(Seq::filter);
    if handles.len() > 0 {
        lemma_bound_alike(handles.drop_last(), links.drop_last(), port);
        assert(handles.last().id == links.last().id);
    }
}

} // verus!
