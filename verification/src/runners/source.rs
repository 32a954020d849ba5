use crate::clock::Clock;
use crate::context::InstanceContext;
use crate::deadline::{started, E2EDeadline, E2EDeadlineRecord, MissView};
use crate::error::{ZFError, ZFResult};
use crate::io::OperatorIO;
use crate::link::{LinkReceiver, LinkSender};
use crate::message::{DataMessage, DataView, Message, MessageView};
use crate::naming::{record_base, record_base_name, record_name, record_resource};
use crate::runners::{
    bound_to, broadcast, count_of, lemma_bound_count, round_over, senders_for, RunnerKind,
};
use crate::time::{Duration, Timestamp};
use crate::types::{views, NodeId, PortDescriptor};
use std::sync::Arc;
use vstd::prelude::*;
use vstd::string::*;

verus! {

/// A source as the graph describes it: its name, its one output port, the
/// period at which it is to be triggered, if any, and the end-to-end
/// deadlines that start at its output.
#[derive(Debug, PartialEq, Eq)]
pub struct SourceLoaded {
    pub id: NodeId,
    pub output: PortDescriptor,
    pub period: Option<Duration>,
    pub end_to_end_deadlines: Vec<E2EDeadlineRecord>,
}

/// The text of the error for a source whose output port has no link.
pub open spec fn missing_source_links(port: Seq<char>, source: Seq<char>) -> Seq<char> {
    "Missing links for port < "@ + port + " > for Source: < "@ + source + " >."@
}

/// What a source hands on after a run of the user's code: the envelope for
/// its links, and the name of the recording that is to get a copy, if one is
/// going on.
#[derive(Debug, PartialEq)]
pub struct Emission<P> {
    pub message: Arc<Message<P>>,
    pub record_to: Option<String>,
}

/// The runner of a source: one output port, which may feed several links.
#[verifier::reject_recursive_types(P)]
pub struct SourceRunner<P> {
    id: NodeId,
    context: InstanceContext,
    period: Option<Duration>,
    output: PortDescriptor,
    links: Vec<LinkSender<Message<P>>>,
    is_running: bool,
    end_to_end_deadlines: Vec<E2EDeadlineRecord>,
    base_resource_name: String,
    current_recording_resource: Option<String>,
}

impl<P> SourceRunner<P> {
    /// The source's name.
    pub closed spec fn id(&self) -> Seq<char> {
        self.id@
    }

    /// The context of the instance the source belongs to.
    pub closed spec fn context(&self) -> InstanceContext {
        self.context
    }

    /// The source's output port.
    pub closed spec fn output(&self) -> PortDescriptor {
        self.output
    }

    /// The period at which the source is to be triggered, if it has one.
    pub closed spec fn period(&self) -> Option<Duration> {
        self.period
    }

    /// The sending ends of the source's links.
    pub closed spec fn links(&self) -> Seq<LinkSender<Message<P>>> {
        self.links@
    }

    /// The end-to-end deadlines that start at the source's output.
    pub closed spec fn deadlines(&self) -> Seq<E2EDeadlineRecord> {
        self.end_to_end_deadlines@
    }

    /// Whether the source's loop is meant to go on.
    pub closed spec fn running(&self) -> bool {
        self.is_running
    }

    /// The name of the recording that is going on, if one is.
    pub closed spec fn recording(&self) -> Option<Seq<char>> {
        match self.current_recording_resource {
            Some(name) => Some(name@),
            None => None,
        }
    }

    /// What the names of the source's recordings begin with.
    pub closed spec fn base_name(&self) -> Seq<char> {
        self.base_resource_name@
    }

    /// The name of every recording begins with the names of the flow, the
    /// instance, the source and its output.
    pub closed spec fn wf(&self) -> bool {
        self.base_resource_name@ == record_base_name(
            self.context.flow_id@,
            self.context.instance_id,
            self.id@,
            self.output.port_id@,
        )
    }

    /// Everything about the source but whether it runs and what it records.
    pub open spec fn same_node(&self, other: &Self) -> bool {
        &&& self.id() == other.id()
        &&& self.context() == other.context()
        &&& self.output() == other.output()
        &&& self.period() == other.period()
        &&& self.deadlines() == other.deadlines()
        &&& self.base_name() == other.base_name()
        &&& self.wf() == other.wf()
    }

    /// Makes the runner of a source from the source's description and the
    /// link ends that the wiring has set aside for it. The runner takes the
    /// sending ends bound to the source's output port and starts out idle and
    /// not recording. When there is no such end, `MissingOutput` is returned.
    pub fn try_new(context: InstanceContext, source: SourceLoaded, io: OperatorIO<P>) -> (r:
        ZFResult<Self>)
        requires
            io.wf(),
        ensures
            r is Ok <==> io.output_ids().contains(source.output.port_id@),
            r matches Ok(runner) ==> {
                &&& runner.wf()
                &&& runner.id() == source.id@
                &&& runner.context() == context
                &&& runner.output() == source.output
                &&& runner.period() == source.period
                &&& runner.deadlines() == source.end_to_end_deadlines@
                &&& runner.links().len() == count_of(io.output_ids(), source.output.port_id@)
                &&& forall|i: int|
                    0 <= i < runner.links().len() ==> (#[trigger] runner.links()[i]).id@
                        == source.output.port_id@
                &&& !runner.running()
                &&& runner.recording() is None
            },
            r matches Err(e) ==> (e matches ZFError::MissingOutput(text) && text@
                == missing_source_links(source.output.port_id@, source.id@)),
    {
        let (_, outputs) = io.take();
        let ghost all = outputs@;
        let links = senders_for(outputs, &source.output.port_id);
        proof {
            lemma_bound_count(all, source.output.port_id@);
            let p = |s: LinkSender<Message<P>>| s.id@ == source.output.port_id@;
            let ids = crate::io::sender_ids(all);
            assert forall|i: int| 0 <= i < links@.len() implies (#[trigger] links@[i]).id@
                == source.output.port_id@ by {
                all.lemma_filter_pred(p, i);
            }
            if ids.contains(source.output.port_id@) {
                let k = choose|k: int| 0 <= k < ids.len() && ids[k] == source.output.port_id@;
                all.lemma_filter_contains(p, k);
            }
            if links@.len() > 0 {
                all.lemma_filter_contains_rev(p, links@[0]);
                let k = choose|k: int| 0 <= k < all.len() && all[k] == links@[0];
                assert(ids[k] == source.output.port_id@);
            }
        }
        if links.len() == 0 {
            let mut text = String::from_str("Missing links for port < ");
            text.append(source.output.port_id.as_str());
            text.append(" > for Source: < ");
            text.append(source.id.as_str());
            text.append(" >.");
            return Err(ZFError::MissingOutput(text));
        }
        let base_resource_name = record_base(
            &context.flow_id,
            context.instance_id,
            &source.id,
            &source.output.port_id,
        );
        Ok(
            SourceRunner {
                id: source.id,
                context,
                period: source.period,
                output: source.output,
                links,
                is_running: false,
                end_to_end_deadlines: source.end_to_end_deadlines,
                base_resource_name,
                current_recording_resource: None,
            },
        )
    }

    /// Marks the source as running.
    pub fn start(&mut self)
        ensures
            final(self).running(),
            final(self).same_node(old(self)),
            final(self).links() == old(self).links(),
            final(self).recording() == old(self).recording(),
    {
        self.is_running = true;
    }

    /// Wraps what a run of the user's code has produced into the envelope
    /// that goes out on the source's links, with the timestamp that the clock
    /// gave for the emission.
    ///
    /// The envelope is a data message with the payload as it is, that
    /// timestamp, every deadline declared for the source's output, started at
    /// that timestamp, and no miss. When a recording is going on, its name
    /// comes along, for the copy that is due to it.
    pub fn emit(&self, data: Arc<P>, timestamp: Timestamp) -> (out: Emission<P>)
        ensures
            out.message@ matches MessageView::Data(d) && {
                &&& d.data == *data
                &&& d.timestamp == timestamp@
                &&& d.deadlines == started(views(self.deadlines()), timestamp@)
                &&& d.missed == Seq::<MissView>::empty()
            },
            match out.record_to {
                Some(name) => self.recording() == Some(name@),
                None => self.recording() is None,
            },
    {
        let mut deadlines: Vec<E2EDeadline> = Vec::new();
        let ghost g = |r: crate::deadline::RecordView|
            crate::deadline::DeadlineView { record: r, start: timestamp@ };
        let mut i: usize = 0;
        while i < self.end_to_end_deadlines.len()
            invariant
                i <= self.end_to_end_deadlines.len(),
                g == (|r: crate::deadline::RecordView|
                    crate::deadline::DeadlineView { record: r, start: timestamp@ }),
                views(deadlines@) == views(self.end_to_end_deadlines@).take(i as int).map_values(g),
            decreases self.end_to_end_deadlines.len() - i,
        {
            let ghost before = views(deadlines@);
            deadlines.push(E2EDeadline::new(&self.end_to_end_deadlines[i], &timestamp));
            proof {
                let all = views(self.end_to_end_deadlines@);
                assert(all.take(i + 1) =~= all.take(i as int).push(all[i as int]));
                assert(views(deadlines@) =~= before.push(g(all[i as int])));
                assert(all.take(i as int).push(all[i as int]).map_values(g) =~= all.take(
                    i as int,
                ).map_values(g).push(g(all[i as int])));
            }
            i += 1;
        }
        assert(views(self.end_to_end_deadlines@).take(i as int) =~= views(
            self.end_to_end_deadlines@,
        ));
        let message = Arc::new(Message::Data(DataMessage::new(data, timestamp, deadlines)));
        let record_to = match &self.current_recording_resource {
            Some(name) => Some(name.clone()),
            None => None,
        };
        Emission { message, record_to }
    }

    /// Makes the envelope for what a run of the user's code has produced:
    /// the clock gives a fresh timestamp, later than all it has made or taken
    /// in before, and the envelope is made as `emit` says.
    ///
    /// Fails with `InvalidState` when the clock has run out of timestamps.
    pub fn iteration(&self, clock: &mut Clock, data: Arc<P>) -> (r: ZFResult<Emission<P>>)
        requires
            old(clock).wf(),
        ensures
            final(clock).wf(),
            final(clock).id() == old(clock).id(),
            old(clock).time() == u64::MAX ==> r == Err::<Emission<P>, ZFError>(
                ZFError::InvalidState,
            ) && final(clock).time() == old(clock).time(),
            old(clock).time() < u64::MAX ==> {
                &&& r matches Ok(out)
                &&& out.message@ matches MessageView::Data(d)
                &&& d.data == *data
                &&& old(clock).stamped(d.timestamp, *final(clock))
                &&& d.deadlines == started(views(self.deadlines()), d.timestamp)
                &&& d.missed == Seq::<MissView>::empty()
                &&& match out.record_to {
                    Some(name) => self.recording() == Some(name@),
                    None => self.recording() is None,
                }
            },
    {
        let timestamp = match clock.new_timestamp() {
            Ok(ts) => ts,
            Err(e) => {
                return Err(e);
            },
        };
        Ok(self.emit(data, timestamp))
    }

    /// Sends an envelope over every link of the source's output. The round
    /// fails, with `Disconnected`, exactly when there are such links and every
    /// one of them has lost its receiver, and the source is then to end.
    /// Otherwise the number of links that took the envelope is returned: at
    /// least one and at most all when there are links, none when there is no
    /// link.
    pub fn send(&self, message: &Arc<Message<P>>) -> (r: ZFResult<usize>)
        ensures
            round_over(r, bound_to(self.links(), self.output().port_id@).len()),
    {
        broadcast(&self.links, &self.output.port_id, message)
    }

    /// Settles one pass of the source's loop: a pass that failed stops the
    /// source, and the failure is what the loop ends with.
    pub fn after_iteration<T>(&mut self, outcome: ZFResult<T>) -> (r: ZFResult<T>)
        ensures
            r == outcome,
            outcome is Ok ==> final(self).running() == old(self).running(),
            outcome is Err ==> !final(self).running(),
            final(self).same_node(old(self)),
            final(self).links() == old(self).links(),
            final(self).recording() == old(self).recording(),
    {
        if outcome.is_err() {
            self.is_running = false;
        }
        outcome
    }

    pub fn get_id(&self) -> (r: NodeId)
        ensures
            r@ == self.id(),
    {
        self.id.clone()
    }

    /// The period at which the source is to be triggered, if it has one.
    pub fn get_period(&self) -> (r: Option<Duration>)
        ensures
            r == self.period(),
    {
        self.period
    }

    pub fn get_kind(&self) -> (r: RunnerKind)
        ensures
            r == RunnerKind::Source,
    {
        RunnerKind::Source
    }

    /// A source has no inputs: the receiving end is refused.
    pub fn add_input(&mut self, _input: LinkReceiver<Message<P>>) -> (r: ZFResult<()>)
        ensures
            r == Err::<(), ZFError>(ZFError::SourceDoNotHaveInputs),
            *final(self) == *old(self),
    {
        Err(ZFError::SourceDoNotHaveInputs)
    }

    /// Gives the source one more link to feed.
    pub fn add_output(&mut self, output: LinkSender<Message<P>>) -> (r: ZFResult<()>)
        ensures
            r is Ok,
            final(self).links() == old(self).links().push(output),
            final(self).same_node(old(self)),
            final(self).running() == old(self).running(),
            final(self).recording() == old(self).recording(),
    {
        self.links.push(output);
        Ok(())
    }

    /// A source has no input ports.
    pub fn get_inputs(&self) -> (r: Vec<PortDescriptor>)
        ensures
            r@.len() == 0,
    {
        Vec::new()
    }

    /// The source's output port, as the only entry.
    pub fn get_outputs(&self) -> (r: Vec<PortDescriptor>)
        ensures
            r@ == seq![self.output()],
    {
        let mut outputs = Vec::with_capacity(1);
        outputs.push(self.output.clone());
        outputs
    }

    /// Handles to the sending ends of the source's links, in their order,
    /// each bound to the port of the end it was made from.
    pub fn get_outputs_links(&self) -> (r: Vec<LinkSender<Message<P>>>)
        ensures
            r@.len() == self.links().len(),
            forall|i: int| 0 <= i < r@.len() ==> (#[trigger] r@[i]).id == self.links()[i].id,
    {
        let mut out: Vec<LinkSender<Message<P>>> = Vec::new();
        let mut i: usize = 0;
        while i < self.links.len()
            invariant
                i <= self.links.len(),
                out@.len() == i,
                forall|j: int| 0 <= j < i ==> (#[trigger] out@[j]).id == self.links@[j].id,
            decreases self.links.len() - i,
        {
            out.push(self.links[i].clone());
            i += 1;
        }
        out
    }

    /// A source has no receiving ends.
    pub fn take_input_links(&mut self) -> (r: Vec<LinkReceiver<Message<P>>>)
        ensures
            r@.len() == 0,
            *final(self) == *old(self),
    {
        Vec::new()
    }

    /// Begins a recording of what the source emits and returns its name:
    /// the names of the flow, the instance, the source and its output, and
    /// the time of a fresh timestamp of the clock, so that no two recordings
    /// of one output share a name. While a recording is going on, another
    /// cannot begin: `AlreadyRecording`. When the clock has run out of
    /// timestamps, none can begin: `InvalidState`.
    pub fn start_recording(&mut self, clock: &mut Clock) -> (r: ZFResult<String>)
        requires
            old(self).wf(),
            old(clock).wf(),
        ensures
            final(clock).wf(),
            final(clock).id() == old(clock).id(),
            final(self).same_node(old(self)),
            final(self).links() == old(self).links(),
            final(self).running() == old(self).running(),
            old(self).recording() is Some ==> {
                &&& r == Err::<String, ZFError>(ZFError::AlreadyRecording)
                &&& final(self).recording() == old(self).recording()
                &&& final(clock).time() == old(clock).time()
            },
            old(self).recording() is None && old(clock).time() == u64::MAX ==> {
                &&& r == Err::<String, ZFError>(ZFError::InvalidState)
                &&& final(self).recording() is None
                &&& final(clock).time() == old(clock).time()
            },
            old(self).recording() is None && old(clock).time() < u64::MAX ==> {
                &&& r matches Ok(name)
                &&& old(clock).time() < final(clock).time()
                &&& name@ == record_name(old(self).base_name(), final(clock).time())
                &&& final(self).recording() == Some(name@)
            },
    {
        if self.current_recording_resource.is_some() {
            return Err(ZFError::AlreadyRecording);
        }
        let ts = match clock.new_timestamp() {
            Ok(ts) => ts,
            Err(e) => {
                return Err(e);
            },
        };
        let name = record_resource(&self.base_resource_name, ts.time);
        self.current_recording_resource = Some(name.clone());
        Ok(name)
    }

    /// Ends the recording that is going on and returns its name. When none
    /// is going on: `NotRecoding`.
    pub fn stop_recording(&mut self) -> (r: ZFResult<String>)
        ensures
            final(self).same_node(old(self)),
            final(self).links() == old(self).links(),
            final(self).running() == old(self).running(),
            final(self).recording() is None,
            match old(self).recording() {
                Some(name) => r matches Ok(n) && n@ == name,
                None => r == Err::<String, ZFError>(ZFError::NotRecoding),
            },
    {
        match self.current_recording_resource.take() {
            Some(name) => Ok(name),
            None => Err(ZFError::NotRecoding),
        }
    }

    pub fn is_recording(&self) -> (r: bool)
        ensures
            r == self.recording() is Some,
    {
        self.current_recording_resource.is_some()
    }

    pub fn is_running(&self) -> (r: bool)
        ensures
            r == self.running(),
    {
        self.is_running
    }

    /// Asks the source's loop to end after the pass it is in.
    pub fn stop(&mut self)
        ensures
            !final(self).running(),
            final(self).same_node(old(self)),
            final(self).links() == old(self).links(),
            final(self).recording() == old(self).recording(),
    {
        self.is_running = false;
    }
}

} // verus!
