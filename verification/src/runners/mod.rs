pub mod connector;
pub mod node;
pub mod operator;
pub mod replay;
pub mod sink;
pub mod source;

use crate::clock::Clock;
use crate::deadline::{
    check_deadlines, is_miss_of, lemma_misses_exact, misses_at, E2EDeadlineMiss,
};
use crate::error::{ZFError, ZFResult};
use crate::link::LinkSender;
use crate::message::{share, DataMessage, DataView, Message};
use crate::time::Timestamp;
use crate::types::{views, NodeId, PortId};
use std::sync::Arc;
use vstd::prelude::*;

verus! {

/// The kinds of runner. Both connectors are of one kind.
#[derive(Debug, Clone, Copy, PartialEq, Eq)]
pub enum RunnerKind {
    Source,
    Operator,
    Sink,
    Connector,
    Replay,
}

/// A data message as a node takes it in: the message with the misses found
/// on arrival, the timestamp of the arrival, and whether the node's clock
/// took the message's timestamp in.
#[derive(Debug, PartialEq)]
pub struct Received<P> {
    pub message: DataMessage<P>,
    pub now: Timestamp,
    pub clock_updated: bool,
}

/// What a node makes of a data message that arrives at its input `port` at
/// the clock time `now`: the same message, with a miss added for each of its
/// deadlines that ends at this input and has run out.
pub open spec fn taken_in<P>(data: DataView<P>, node: Seq<char>, port: Seq<char>, now: u64)
    -> DataView<P> {
    DataView { missed: data.missed + misses_at(data.deadlines, node, port, now), ..data }
}

/// A message comes through an arrival as it was sent: payload, timestamp and
/// deadlines are untouched, and the misses it carried stay in front, in
/// their order. Behind them stands one miss for each deadline that ends at
/// this input and has run out, and nothing else; a deadline that ends here
/// and has not run out adds nothing.
pub proof fn lemma_arrival_keeps_the_message<P>(
    data: DataView<P>,
    node: Seq<char>,
    port: Seq<char>,
    now: u64,
)
    ensures
        ({
            let got = taken_in(data, node, port, now);
            let carried = data.missed.len();
            &&& got.data == data.data
            &&& got.timestamp == data.timestamp
            &&& got.deadlines == data.deadlines
            &&& carried <= got.missed.len() <= carried + data.deadlines.len()
            &&& got.missed.subrange(0, carried as int) == data.missed
            &&& got.missed.subrange(carried as int, got.missed.len() as int) == misses_at(
                data.deadlines,
                node,
                port,
                now,
            )
            &&& forall|i: int|
                0 <= i < data.deadlines.len() && (#[trigger] data.deadlines[i]).missed_at(
                    node,
                    port,
                    now,
                ) ==> got.missed.contains(data.deadlines[i].miss(now))
            &&& forall|k: int|
                carried <= k < got.missed.len() ==> is_miss_of(
                    #[trigger] got.missed[k],
                    data.deadlines,
                    node,
                    port,
                    now,
                )
            &&& (forall|i: int|
                0 <= i < data.deadlines.len() ==> !(#[trigger] data.deadlines[i]).missed_at(
                    node,
                    port,
                    now,
                )) ==> got.missed == data.missed
        }),
{
    let fresh = misses_at(data.deadlines, node, port, now);
    let got = taken_in(data, node, port, now);
    let carried = data.missed.len() as int;
    lemma_misses_exact(data.deadlines, node, port, now);
    assert(got.missed == data.missed + fresh);
    assert(got.missed.subrange(0, carried) =~= data.missed);
    assert(got.missed.subrange(carried, got.missed.len() as int) =~= fresh);
    assert forall|i: int|
        0 <= i < data.deadlines.len() && (#[trigger] data.deadlines[i]).missed_at(
            node,
            port,
            now,
        ) implies got.missed.contains(data.deadlines[i].miss(now)) by {
        let m = data.deadlines[i].miss(now);
        assert(fresh.contains(m));
        let k = choose|k: int| 0 <= k < fresh.len() && fresh[k] == m;
        assert(got.missed[carried + k] == m);
    }
    assert forall|k: int| carried <= k < got.missed.len() implies is_miss_of(
        #[trigger] got.missed[k],
        data.deadlines,
        node,
        port,
        now,
    ) by {
        assert(got.missed[k] == fresh[k - carried]);
    }
    if forall|i: int|
        0 <= i < data.deadlines.len() ==> !(#[trigger] data.deadlines[i]).missed_at(
            node,
            port,
            now,
        ) {
        if fresh.len() > 0 {
            assert(is_miss_of(fresh[0], data.deadlines, node, port, now));
        }
        assert(got.missed =~= data.missed);
    }
}

/// Notes the arrival of a data message at the input `port_id` of the node
/// `node_id`, at the time `now` that the node's clock gave for it.
///
/// Every deadline on the message that ends at this input and whose span has
/// passed by then is recorded as a miss, behind the misses that the message
/// already carried. Nothing else of the message changes.
pub fn arrive<P>(
    node_id: &NodeId,
    port_id: &PortId,
    data: &DataMessage<P>,
    now: Timestamp,
    clock_updated: bool,
) -> (r: Received<P>)
    ensures
        r.now == now,
        r.clock_updated == clock_updated,
        r.message@ == taken_in(data@, node_id@, port_id@, now.time),
{
    let mut message = data.clone();
    let ghost carried = views(message.missed_end_to_end_deadlines@);
    let mut found = check_deadlines(&data.end_to_end_deadlines, node_id, port_id, &now);
    let ghost fresh = views(found@);
    message.missed_end_to_end_deadlines.append(&mut found);
    assert(views(message.missed_end_to_end_deadlines@) =~= carried + fresh);
    Received { message, now, clock_updated }
}

/// Takes a data message in at the input `port_id` of the node `node_id`.
///
/// The clock is advanced with the message's timestamp and then read; the
/// reading is the time of arrival, and the arrival is noted as `arrive` says.
///
/// The clock refuses a timestamp that lies too far ahead of it; the message
/// is taken in all the same. When the clock did take the timestamp, the time
/// of arrival is later than the message's timestamp.
///
/// Fails with `InvalidState`, and changes nothing, when the clock has run
/// out of timestamps.
pub fn receive_data<P>(
    clock: &mut Clock,
    node_id: &NodeId,
    port_id: &PortId,
    data: &DataMessage<P>,
) -> (r: ZFResult<Received<P>>)
    requires
        old(clock).wf(),
    ensures
        final(clock).wf(),
        final(clock).id() == old(clock).id(),
        old(clock).time() >= u64::MAX - 1 ==> r == Err::<Received<P>, ZFError>(
            ZFError::InvalidState,
        ) && final(clock).time() == old(clock).time(),
        old(clock).time() < u64::MAX - 1 ==> {
            &&& r matches Ok(got)
            &&& old(clock).ticked(data.timestamp@, got.clock_updated, got.now@, *final(clock))
            &&& got.message@ == taken_in(data@, node_id@, port_id@, got.now.time)
        },
{
    let (clock_updated, now) = match clock.tick(&data.timestamp) {
        Ok(ticked) => ticked,
        Err(e) => {
            return Err(e);
        },
    };
    Ok(arrive(node_id, port_id, data, now, clock_updated))
}

/// What a round of sends to the links of one output comes to, given for each
/// link whether its send went through. The round fails, with `Disconnected`,
/// only when there were links and not one of them took the message;
/// otherwise the number of links that took it is returned.
pub fn broadcast_result(delivered: &Vec<bool>) -> (r: ZFResult<usize>)
    ensures
        r is Err <==> (delivered@.len() > 0 && !delivered@.contains(true)),
        r matches Err(e) ==> e == ZFError::Disconnected,
        r matches Ok(n) ==> n == delivered@.filter(|b: bool| b).len(),
{
    let mut n: usize = 0;
    let mut i: usize = 0;
    let ghost p = |b: bool| b;
    while i < delivered.len()
        invariant
            i <= delivered.len(),
            p == (|b: bool| b),
            n == delivered@.take(i as int).filter(p).len(),
            n <= i,
            n == 0 <==> !delivered@.take(i as int).contains(true),
        decreases delivered.len() - i,
    {
        proof {
            assert(delivered@.take(i + 1) =~= delivered@.take(i as int).push(delivered@[i as int]));
            delivered@.take(i as int).lemma_filter_push(delivered@[i as int], p);
            let shorter = delivered@.take(i as int);
            let longer = delivered@.take(i + 1);
            if shorter.contains(true) {
                let k = choose|k: int| 0 <= k < shorter.len() && #[trigger] shorter[k] == true;
                assert(longer[k] == true);
            }
            if delivered@[i as int] {
                assert(longer[i as int] == true);
            }
            if longer.contains(true) && !delivered@[i as int] {
                let k = choose|k: int| 0 <= k < longer.len() && #[trigger] longer[k] == true;
                assert(shorter[k] == true);
            }
        }
        if delivered[i] {
            n += 1;
        }
        i += 1;
    }
    assert(delivered@.take(i as int) =~= delivered@);
    if delivered.len() > 0 && n == 0 {
        Err(ZFError::Disconnected)
    } else {
        Ok(n)
    }
}

/// The sending ends among `links` that are bound to the output `port`.
pub open spec fn bound_to<P>(links: Seq<LinkSender<Message<P>>>, port: Seq<char>) -> Seq<
    LinkSender<Message<P>>,
> {
    links.filter(|s: LinkSender<Message<P>>| s.id@ == port)
}

/// How many of the given port names are `port`.
pub open spec fn count_of(ids: Seq<Seq<char>>, port: Seq<char>) -> nat {
    ids.filter(|id: Seq<char>| id == port).len()
}

/// As many sending ends are bound to a port as there are entries for the
/// port among the names of the ports they are bound to.
pub proof fn lemma_bound_count<P>(links: Seq<LinkSender<Message<P>>>, port: Seq<char>)
    ensures
        bound_to(links, port).len() == count_of(crate::io::sender_ids(links), port),
    decreases links.len(),
{
    reveal(Seq::filter);
    let ids = crate::io::sender_ids(links);
    if links.len() > 0 {
        lemma_bound_count(links.drop_last(), port);
        assert(ids.drop_last() =~= crate::io::sender_ids(links.drop_last()));
        assert(ids.last() == links.last().id@);
    } else {
        assert(ids =~= Seq::<Seq<char>>::empty());
    }
}

/// Picks from `links` the sending ends that are bound to the output `port`,
/// in their order. The others are let go.
pub fn senders_for<P>(links: Vec<LinkSender<Message<P>>>, port: &PortId) -> (picked: Vec<
    LinkSender<Message<P>>,
>)
    ensures
        picked@ == bound_to(links@, port@),
{
    let mut rest = links;
    let mut picked: Vec<LinkSender<Message<P>>> = Vec::new();
    let ghost p = |s: LinkSender<Message<P>>| s.id@ == port@;
    while rest.len() > 0
        invariant
            p == (|s: LinkSender<Message<P>>| s.id@ == port@),
            picked@ + rest@.filter(p) == links@.filter(p),
        decreases rest.len(),
    {
        let ghost before = rest@;
        let ghost had = picked@;
        let first = rest.remove(0);
        proof {
            assert(before =~= seq![first] + rest@);
            rest@.lemma_filter_prepend(first, p);
        }
        if first.id == *port {
            picked.push(first);
            assert(picked@ + rest@.filter(p) =~= had + (seq![first] + rest@.filter(p)));
        }
    }
    proof {
        reveal(Seq::filter);
        assert(rest@.filter(p) =~= Seq::<LinkSender<Message<P>>>::empty());
        assert(picked@ =~= picked@ + rest@.filter(p));
    }
    picked
}

/// What a round of sends to `count` links can come to. Without a link
/// nothing is sent and nothing fails: the round comes to no link that took
/// the message. With links, either every one of them has lost its receiver,
/// and the round fails with `Disconnected`, or at least one of them, and at
/// most all, took the message, and their number is what the round comes to.
pub open spec fn round_over(r: ZFResult<usize>, count: nat) -> bool {
    match r {
        Ok(n) => n <= count && (count > 0 ==> n > 0),
        Err(e) => e == ZFError::Disconnected && count > 0,
    }
}

/// Sends a message over every link of the output `port_id`, each link
/// getting a handle to the same envelope. A link whose receiver is gone does
/// not stop the round: it fails only when there were such links and every
/// one of them was disconnected. On success the number of links that took
/// the message is returned.
pub fn broadcast<P>(
    links: &Vec<LinkSender<Message<P>>>,
    port_id: &PortId,
    message: &Arc<Message<P>>,
) -> (r: ZFResult<usize>)
    ensures
        round_over(r, bound_to(links@, port_id@).len()),
{
    let mut delivered: Vec<bool> = Vec::new();
    let ghost p = |s: LinkSender<Message<P>>| s.id@ == port_id@;
    let mut i: usize = 0;
    while i < links.len()
        invariant
            i <= links.len(),
            p == (|s: LinkSender<Message<P>>| s.id@ == port_id@),
            delivered@.len() == links@.take(i as int).filter(p).len(),
        decreases links.len() - i,
    {
        proof {
            assert(links@.take(i + 1) =~= links@.take(i as int).push(links@[i as int]));
            links@.take(i as int).lemma_filter_push(links@[i as int], p);
        }
        if links[i].id == *port_id {
            let sent = links[i].send(share(message));
            delivered.push(sent.is_ok());
        }
        i += 1;
    }
    assert(links@.take(i as int) =~= links@);
    proof {
        delivered@.lemma_filter_len(|b: bool| b);
        if delivered@.len() > 0 && delivered@.filter(|b: bool| b).len() == 0 {
            if delivered@.contains(true) {
                let k = choose|k: int| 0 <= k < delivered@.len()
                    && #[trigger] delivered@[k] == true;
                delivered@.lemma_filter_contains(|b: bool| b, k);
            }
        }
    }
    broadcast_result(&delivered)
}

} // verus!
