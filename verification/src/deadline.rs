use crate::clock::{elapsed, elapsed_between};
use crate::time::{Duration, Timestamp, TimestampView};
use crate::types::{views, Endpoint, InputDescriptor, NodeId, OutputDescriptor, PortId};
use vstd::prelude::*;

verus! {

/// What a declared end-to-end deadline stands for.
pub struct RecordView {
    pub from: Endpoint,
    pub to: Endpoint,
    pub duration: Duration,
}

/// A declared end-to-end deadline: what leaves the output `from` is due at
/// the input `to` before `duration` has passed.
#[derive(Debug, PartialEq, Eq)]
pub struct E2EDeadlineRecord {
    pub from: OutputDescriptor,
    pub to: InputDescriptor,
    pub duration: Duration,
}

impl View for E2EDeadlineRecord {
    type V = RecordView;

    open spec fn view(&self) -> RecordView {
        RecordView { from: self.from@, to: self.to@, duration: self.duration }
    }
}

impl Clone for E2EDeadlineRecord {
    fn clone(&self) -> (r: Self)
        ensures
            r == *self,
    {
        E2EDeadlineRecord {
            from: self.from.clone(),
            to: self.to.clone(),
            duration: self.duration,
        }
    }
}

impl E2EDeadlineRecord {
    pub fn new(from: OutputDescriptor, to: InputDescriptor, duration: Duration) -> (r: Self)
        ensures
            r.from == from,
            r.to == to,
            r.duration == duration,
    {
        E2EDeadlineRecord { from, to, duration }
    }
}

/// What a deadline on a message stands for.
pub struct DeadlineView {
    pub record: RecordView,
    pub start: TimestampView,
}

impl DeadlineView {
    /// Whether a node that looks at its input `port` at the time `now` finds
    /// this deadline missed: the input is the deadline's goal, and the
    /// deadline's span has passed since the message was emitted.
    pub open spec fn missed_at(self, node: Seq<char>, port: Seq<char>, now: u64) -> bool {
        &&& self.record.to == Endpoint { node, port }
        &&& self.start.time <= now
        &&& elapsed_between(self.start.time, now).total() >= self.record.duration.total()
    }

    /// The miss that such a node records.
    pub open spec fn miss(self, now: u64) -> MissView {
        MissView { record: self.record, elapsed: elapsed_between(self.start.time, now) }
    }

    /// Whether the deadline is still of interest beyond the given node: its
    /// goal is an input of some other node.
    pub open spec fn goes_beyond(self, node: Seq<char>) -> bool {
        self.record.to.node != node
    }
}

/// An end-to-end deadline as a message carries it: the declared record and
/// the timestamp of the emission that started it.
#[derive(Debug, PartialEq, Eq)]
pub struct E2EDeadline {
    pub duration: Duration,
    pub from: OutputDescriptor,
    pub to: InputDescriptor,
    pub start: Timestamp,
}

impl View for E2EDeadline {
    type V = DeadlineView;

    open spec fn view(&self) -> DeadlineView {
        DeadlineView {
            record: RecordView { from: self.from@, to: self.to@, duration: self.duration },
            start: self.start@,
        }
    }
}

impl Clone for E2EDeadline {
    fn clone(&self) -> (r: Self)
        ensures
            r@ == self@,
    {
        E2EDeadline {
            duration: self.duration,
            from: self.from.clone(),
            to: self.to.clone(),
            start: self.start.clone(),
        }
    }
}

/// What a recorded miss stands for.
pub struct MissView {
    pub record: RecordView,
    pub elapsed: Duration,
}

/// An end-to-end deadline that was found missed at its goal, with the time
/// that had passed since the emission.
#[derive(Debug, PartialEq, Eq)]
pub struct E2EDeadlineMiss {
    pub record: E2EDeadlineRecord,
    pub elapsed: Duration,
}

impl View for E2EDeadlineMiss {
    type V = MissView;

    open spec fn view(&self) -> MissView {
        MissView { record: self.record@, elapsed: self.elapsed }
    }
}

impl Clone for E2EDeadlineMiss {
    fn clone(&self) -> (r: Self)
        ensures
            r == *self,
    {
        E2EDeadlineMiss { record: self.record.clone(), elapsed: self.elapsed }
    }
}

impl E2EDeadline {
    /// Puts a declared deadline on a message emitted at `start`.
    pub fn new(record: &E2EDeadlineRecord, start: &Timestamp) -> (r: Self)
        ensures
            r@ == (DeadlineView { record: record@, start: start@ }),
    {
        E2EDeadline {
            duration: record.duration,
            from: record.from.clone(),
            to: record.to.clone(),
            start: start.clone(),
        }
    }

    /// The declared deadline that this one was made from.
    pub fn record(&self) -> (r: E2EDeadlineRecord)
        ensures
            r@ == self@.record,
    {
        E2EDeadlineRecord {
            from: self.from.clone(),
            to: self.to.clone(),
            duration: self.duration,
        }
    }

    /// Whether this deadline was made from the given declared deadline.
    pub fn is_record(&self, record: &E2EDeadlineRecord) -> (r: bool)
        ensures
            r == (self@.record == record@),
    {
        self.duration.secs == record.duration.secs && self.duration.nanos == record.duration.nanos
            && self.from.same(&record.from) && self.to.same(&record.to)
    }

    /// Looks at the deadline from the input `port_id` of the node `node_id`
    /// at the time `now`. A miss is reported exactly when that input is the
    /// deadline's goal and the deadline's span has passed since the emission.
    pub fn check(&self, node_id: &NodeId, port_id: &PortId, now: &Timestamp) -> (r: Option<
        E2EDeadlineMiss,
    >)
        ensures
            r is Some <==> self@.missed_at(node_id@, port_id@, now.time),
            r matches Some(m) ==> m@ == self@.miss(now.time),
    {
        if self.to.is_port(node_id, port_id) && self.start.time <= now.time {
            let passed = elapsed(&self.start, now);
            if passed.at_least(&self.duration) {
                return Some(E2EDeadlineMiss { record: self.record(), elapsed: passed });
            }
        }
        None
    }
}

/// The misses that a node records when it looks at the deadlines of a message
/// from its input `port` at the time `now`: one for each deadline missed
/// there, in the order of the deadlines.
pub open spec fn misses_at(
    deadlines: Seq<DeadlineView>,
    node: Seq<char>,
    port: Seq<char>,
    now: u64,
) -> Seq<MissView> {
    deadlines.filter_map(
        |d: DeadlineView|
            if d.missed_at(node, port, now) {
                Some(d.miss(now))
            } else {
                None
            },
    )
}

/// The deadlines of a message that are still of interest beyond `node`.
pub open spec fn deadlines_beyond(deadlines: Seq<DeadlineView>, node: Seq<char>) -> Seq<
    DeadlineView,
> {
    deadlines.filter(|d: DeadlineView| d.goes_beyond(node))
}

/// The misses of a message that are still of interest beyond `node`.
pub open spec fn misses_beyond(misses: Seq<MissView>, node: Seq<char>) -> Seq<MissView> {
    misses.filter(|m: MissView| m.record.to.node != node)
}

/// The declared deadlines that start at the output `port` of `node`.
pub open spec fn records_from(records: Seq<RecordView>, node: Seq<char>, port: Seq<char>) -> Seq<
    RecordView,
> {
    records.filter(|r: RecordView| r.from == Endpoint { node, port })
}

/// The deadlines that a message emitted at `start` carries for the given
/// declared deadlines.
pub open spec fn started(records: Seq<RecordView>, start: TimestampView) -> Seq<DeadlineView> {
    records.map_values(|r: RecordView| DeadlineView { record: r, start })
}

/// Whether `miss` records that one of the deadlines was missed at the input
/// `port` of `node` at the time `now`.
pub open spec fn is_miss_of(
    miss: MissView,
    deadlines: Seq<DeadlineView>,
    node: Seq<char>,
    port: Seq<char>,
    now: u64,
) -> bool {
    exists|i: int|
        0 <= i < deadlines.len() && (#[trigger] deadlines[i]).missed_at(node, port, now) && miss
            == deadlines[i].miss(now)
}

/// At the goal of a deadline, the deadline is either passed over or
/// reported as a miss, as the time that has passed decides, and never both:
/// a node records a miss for exactly those deadlines of a message that are
/// missed at its input, one for each, and none besides.
pub proof fn lemma_misses_exact(
    deadlines: Seq<DeadlineView>,
    node: Seq<char>,
    port: Seq<char>,
    now: u64,
)
    ensures
        misses_at(deadlines, node, port, now).len() == deadlines.filter(
            |d: DeadlineView| d.missed_at(node, port, now),
        ).len(),
        misses_at(deadlines, node, port, now).len() <= deadlines.len(),
        forall|i: int|
            0 <= i < deadlines.len() && (#[trigger] deadlines[i]).missed_at(node, port, now)
                ==> misses_at(deadlines, node, port, now).contains(deadlines[i].miss(now)),
        forall|k: int|
            0 <= k < misses_at(deadlines, node, port, now).len() ==> is_miss_of(
                #[trigger] misses_at(deadlines, node, port, now)[k],
                deadlines,
                node,
                port,
                now,
            ),
    decreases deadlines.len(),
{
    let p = |d: DeadlineView| d.missed_at(node, port, now);
    let f = |d: DeadlineView|
        if d.missed_at(node, port, now) {
            Some(d.miss(now))
        } else {
            None
        };
    reveal(Seq::filter);
    if deadlines.len() > 0 {
        let init = deadlines.drop_last();
        let last = deadlines.last();
        lemma_misses_exact(init, node, port, now);
        let before = misses_at(init, node, port, now);
        let all = misses_at(deadlines, node, port, now);
        assert(all == if last.missed_at(node, port, now) {
            before + seq![last.miss(now)]
        } else {
            before
        });
        assert forall|i: int|
            0 <= i < deadlines.len() && (#[trigger] deadlines[i]).missed_at(
                node,
                port,
                now,
            ) implies all.contains(deadlines[i].miss(now)) by {
            if i < init.len() {
                assert(init[i] == deadlines[i]);
                let k = choose|k: int| 0 <= k < before.len() && before[k] == init[i].miss(now);
                assert(all[k] == before[k]);
            } else {
                assert(all[all.len() - 1] == last.miss(now));
            }
        }
        assert forall|k: int| 0 <= k < all.len() implies is_miss_of(
            #[trigger] all[k],
            deadlines,
            node,
            port,
            now,
        ) by {
            if k < before.len() {
                assert(all[k] == before[k]);
                assert(is_miss_of(before[k], init, node, port, now));
                let i = choose|i: int|
                    0 <= i < init.len() && (#[trigger] init[i]).missed_at(node, port, now)
                        && before[k] == init[i].miss(now);
                assert(deadlines[i] == init[i]);
            } else {
                assert(deadlines[deadlines.len() - 1] == last);
            }
        }
    }
}

/// Looks at all deadlines of a message from the input `port_id` of the node
/// `node_id` at the time `now` and returns the misses, in the deadlines' order.
pub fn check_deadlines(
    deadlines: &Vec<E2EDeadline>,
    node_id: &NodeId,
    port_id: &PortId,
    now: &Timestamp,
) -> (missed: Vec<E2EDeadlineMiss>)
    ensures
        views(missed@) == misses_at(views(deadlines@), node_id@, port_id@, now.time),
{
    let mut missed: Vec<E2EDeadlineMiss> = Vec::new();
    let ghost all = views(deadlines@);
    let ghost f = |d: DeadlineView|
        if d.missed_at(node_id@, port_id@, now.time) {
            Some(d.miss(now.time))
        } else {
            None
        };
    let mut i: usize = 0;
    while i < deadlines.len()
        invariant
            i <= deadlines.len(),
            all == views(deadlines@),
            f == (|d: DeadlineView|
                if d.missed_at(node_id@, port_id@, now.time) {
                    Some(d.miss(now.time))
                } else {
                    None
                }),
            views(missed@) == all.take(i as int).filter_map(f),
        decreases deadlines.len() - i,
    {
        proof {
            all.lemma_filter_map_take_succ(f, i as int);
        }
        let ghost before = views(missed@);
        if let Some(miss) = deadlines[i].check(node_id, port_id, now) {
            missed.push(miss);
            assert(views(missed@) =~= before + seq![miss@]);
        }
        i += 1;
    }
    assert(all.take(i as int) =~= all);
    missed
}

/// The deadlines of a message that are still of interest beyond the node
/// `node_id`, in their order.
pub fn deadlines_to_propagate(deadlines: &Vec<E2EDeadline>, node_id: &NodeId) -> (kept: Vec<
    E2EDeadline,
>)
    ensures
        views(kept@) == deadlines_beyond(views(deadlines@), node_id@),
{
    let mut kept: Vec<E2EDeadline> = Vec::new();
    let ghost all = views(deadlines@);
    let ghost p = |d: DeadlineView| d.goes_beyond(node_id@);
    let mut i: usize = 0;
    while i < deadlines.len()
        invariant
            i <= deadlines.len(),
            all == views(deadlines@),
            p == (|d: DeadlineView| d.goes_beyond(node_id@)),
            views(kept@) == all.take(i as int).filter(p),
        decreases deadlines.len() - i,
    {
        proof {
            assert(all.take(i + 1) =~= all.take(i as int).push(all[i as int]));
            all.take(i as int).lemma_filter_push(all[i as int], p);
        }
        let ghost before = views(kept@);
        if !(deadlines[i].to.node == *node_id) {
            kept.push(deadlines[i].clone());
            assert(views(kept@) =~= before.push(all[i as int]));
        }
        i += 1;
    }
    assert(all.take(i as int) =~= all);
    kept
}

/// The misses of a message that are still of interest beyond the node
/// `node_id`, in their order.
pub fn misses_to_propagate(misses: &Vec<E2EDeadlineMiss>, node_id: &NodeId) -> (kept: Vec<
    E2EDeadlineMiss,
>)
    ensures
        views(kept@) == misses_beyond(views(misses@), node_id@),
{
    let mut kept: Vec<E2EDeadlineMiss> = Vec::new();
    let ghost all = views(misses@);
    let ghost p = |m: MissView| m.record.to.node != node_id@;
    let mut i: usize = 0;
    while i < misses.len()
        invariant
            i <= misses.len(),
            all == views(misses@),
            p == (|m: MissView| m.record.to.node != node_id@),
            views(kept@) == all.take(i as int).filter(p),
        decreases misses.len() - i,
    {
        proof {
            assert(all.take(i + 1) =~= all.take(i as int).push(all[i as int]));
            all.take(i as int).lemma_filter_push(all[i as int], p);
        }
        let ghost before = views(kept@);
        if !(misses[i].record.to.node == *node_id) {
            kept.push(misses[i].clone());
            assert(views(kept@) =~= before.push(all[i as int]));
        }
        i += 1;
    }
    assert(all.take(i as int) =~= all);
    kept
}

/// Puts on a message emitted at `start` from the output `port_id` of the
/// node `node_id` the declared deadlines that start there, in their order.
pub fn start_deadlines(
    records: &Vec<E2EDeadlineRecord>,
    node_id: &NodeId,
    port_id: &PortId,
    start: &Timestamp,
) -> (made: Vec<E2EDeadline>)
    ensures
        views(made@) == started(records_from(views(records@), node_id@, port_id@), start@),
{
    let mut made: Vec<E2EDeadline> = Vec::new();
    let ghost all = views(records@);
    let ghost p = |r: RecordView| r.from == Endpoint { node: node_id@, port: port_id@ };
    let ghost g = |r: RecordView| DeadlineView { record: r, start: start@ };
    let mut i: usize = 0;
    while i < records.len()
        invariant
            i <= records.len(),
            all == views(records@),
            p == (|r: RecordView| r.from == Endpoint { node: node_id@, port: port_id@ }),
            g == (|r: RecordView| DeadlineView { record: r, start: start@ }),
            views(made@) == all.take(i as int).filter(p).map_values(g),
        decreases records.len() - i,
    {
        proof {
            assert(all.take(i + 1) =~= all.take(i as int).push(all[i as int]));
            all.take(i as int).lemma_filter_push(all[i as int], p);
        }
        let ghost before = views(made@);
        if records[i].from.is_port(node_id, port_id) {
            made.push(E2EDeadline::new(&records[i], start));
            assert(views(made@) =~= before.push(g(all[i as int])));
            assert(all.take(i as int).filter(p).push(all[i as int]).map_values(g)
                =~= all.take(i as int).filter(p).map_values(g).push(g(all[i as int])));
        }
        i += 1;
    }
    assert(all.take(i as int) =~= all);
    made
}

/// A local deadline that an operator's computation overran, with the time
/// the computation took.
#[derive(Debug, Clone, Copy, PartialEq, Eq)]
pub struct LocalDeadlineMiss {
    pub deadline: Duration,
    pub elapsed: Duration,
}

/// What is reported of a computation that took `elapsed` under the local
/// deadline `deadline`: a miss, with both spans, when a deadline is set and
/// the computation took at least that long, and nothing otherwise.
pub open spec fn local_miss(deadline: Option<Duration>, elapsed: Duration) -> Option<
    LocalDeadlineMiss,
> {
    match deadline {
        Some(d) => if elapsed.total() >= d.total() {
            Some(LocalDeadlineMiss { deadline: d, elapsed })
        } else {
            None
        },
        None => None,
    }
}

/// A computation that takes as long as the operator's local deadline, or
/// longer, is reported as a miss, which holds the deadline and the time
/// taken, the second no shorter than the first. A computation that is done
/// sooner is not reported, and neither is any where no deadline is set.
pub proof fn lemma_local_miss(deadline: Duration, elapsed: Duration)
    ensures
        elapsed.total() >= deadline.total() ==> local_miss(Some(deadline), elapsed) == Some(
            (LocalDeadlineMiss { deadline, elapsed }),
        ),
        elapsed.total() < deadline.total() ==> local_miss(Some(deadline), elapsed) is None,
        local_miss(None, elapsed) is None,
        local_miss(Some(deadline), elapsed) matches Some(m) ==> m.elapsed.total()
            >= m.deadline.total(),
{
}

/// Holds the time a computation took against the operator's local deadline.
/// A miss is reported exactly when a deadline is set and the computation took
/// at least that long.
pub fn check_local_deadline(deadline: &Option<Duration>, elapsed: Duration) -> (r: Option<
    LocalDeadlineMiss,
>)
    ensures
        r == local_miss(*deadline, elapsed),
{
    match deadline {
        Some(d) => {
            if elapsed.at_least(d) {
                Some(LocalDeadlineMiss { deadline: *d, elapsed })
            } else {
                None
            }
        },
        None => None,
    }
}

} // verus!
