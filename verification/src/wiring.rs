use crate::error::{ZFError, ZFResult};
use crate::io::OperatorIO;
use crate::link::link;
use crate::message::Message;
use crate::table::Table;
use crate::types::{views, Endpoint, LinkDescriptor, LinkView, NodeId};
use vstd::prelude::*;

verus! {

/// The names that a slice of node names holds.
pub open spec fn names(nodes: Seq<NodeId>) -> Seq<Seq<char>> {
    Seq::new(nodes.len(), |i: int| nodes[i]@)
}

/// Whether both ends of the link are nodes of this runtime.
pub open spec fn is_local(nodes: Seq<Seq<char>>, l: LinkView) -> bool {
    nodes.contains(l.from.node) && nodes.contains(l.to.node)
}

/// The output ports of `node` that the local links leave from, one entry
/// for each link, in the order of the links.
pub open spec fn outputs_of(nodes: Seq<Seq<char>>, links: Seq<LinkView>, node: Seq<char>) -> Seq<
    Seq<char>,
> {
    links.filter(|l: LinkView| is_local(nodes, l) && l.from.node == node).map_values(
        |l: LinkView| l.from.port,
    )
}

/// The input ports of `node` that the local links arrive at, one entry for
/// each link, in the order of the links.
pub open spec fn inputs_of(nodes: Seq<Seq<char>>, links: Seq<LinkView>, node: Seq<char>) -> Seq<
    Seq<char>,
> {
    links.filter(|l: LinkView| is_local(nodes, l) && l.to.node == node).map_values(
        |l: LinkView| l.to.port,
    )
}

/// Whether some local link among the first `upto` starts or ends at `node`.
pub open spec fn touched(
    nodes: Seq<Seq<char>>,
    links: Seq<LinkView>,
    node: Seq<char>,
    upto: int,
) -> bool {
    exists|j: int|
        0 <= j < upto && j < links.len() && is_local(nodes, #[trigger] links[j])
            && (links[j].from.node
            == node || links[j].to.node == node)
}

/// Whether the local link at `j` arrives at an input that an earlier local
/// link has already taken.
pub open spec fn clash_at(nodes: Seq<Seq<char>>, links: Seq<LinkView>, j: int) -> bool {
    &&& 0 <= j < links.len()
    &&& is_local(nodes, links[j])
    &&& exists|i: int| 0 <= i < j && is_local(nodes, #[trigger] links[i])
        && links[i].to == links[j].to
}

/// The link ends of every node that a local link touches are as the links
/// say: one sending end for each link that leaves the node, one receiving
/// end for each link that arrives, each bound to the port the link names.
pub open spec fn wired<P>(
    table: Table<OperatorIO<P>>,
    nodes: Seq<Seq<char>>,
    links: Seq<LinkView>,
    upto: int,
) -> bool {
    &&& table.wf()
    &&& forall|n: Seq<char>| #[trigger] table.has(n) <==> touched(nodes, links, n, upto)
    &&& forall|n: Seq<char>| #[trigger]
        table.has(n) ==> {
            &&& table.at(n).wf()
            &&& table.at(n).input_ids() == inputs_of(nodes, links.take(upto), n)
            &&& table.at(n).output_ids() == outputs_of(nodes, links.take(upto), n)
        }
}

proof fn lemma_ports_push(nodes: Seq<Seq<char>>, links: Seq<LinkView>, l: LinkView, n: Seq<char>)
    ensures
        outputs_of(nodes, links.push(l), n) == if is_local(nodes, l) && l.from.node == n {
            outputs_of(nodes, links, n).push(l.from.port)
        } else {
            outputs_of(nodes, links, n)
        },
        inputs_of(nodes, links.push(l), n) == if is_local(nodes, l) && l.to.node == n {
            inputs_of(nodes, links, n).push(l.to.port)
        } else {
            inputs_of(nodes, links, n)
        },
{
    let po = |l: LinkView| is_local(nodes, l) && l.from.node == n;
    let pi = |l: LinkView| is_local(nodes, l) && l.to.node == n;
    let fo = |l: LinkView| l.from.port;
    let fi = |l: LinkView| l.to.port;
    links.lemma_filter_push(l, po);
    links.lemma_filter_push(l, pi);
    if po(l) {
        assert(links.filter(po).push(l).map_values(fo) =~= links.filter(po).map_values(fo).push(
            l.from.port,
        ));
    }
    if pi(l) {
        assert(links.filter(pi).push(l).map_values(fi) =~= links.filter(pi).map_values(fi).push(
            l.to.port,
        ));
    }
}

proof fn lemma_ports_empty(nodes: Seq<Seq<char>>, n: Seq<char>)
    ensures
        outputs_of(nodes, Seq::<LinkView>::empty(), n) == Seq::<Seq<char>>::empty(),
        inputs_of(nodes, Seq::<LinkView>::empty(), n) == Seq::<Seq<char>>::empty(),
{
    reveal(Seq::filter);
    assert(outputs_of(nodes, Seq::<LinkView>::empty(), n) =~= Seq::<Seq<char>>::empty());
    assert(inputs_of(nodes, Seq::<LinkView>::empty(), n) =~= Seq::<Seq<char>>::empty());
}

proof fn lemma_inputs_contains(
    nodes: Seq<Seq<char>>,
    links: Seq<LinkView>,
    node: Seq<char>,
    port: Seq<char>,
)
    ensures
        inputs_of(nodes, links, node).contains(port) <==> exists|j: int|
            0 <= j < links.len() && is_local(nodes, #[trigger] links[j]) && links[j].to
                == (Endpoint { node, port }),
    decreases links.len(),
{
    if links.len() == 0 {
        lemma_ports_empty(nodes, node);
        assert(links =~= Seq::<LinkView>::empty());
    } else {
        let init = links.drop_last();
        let l = links.last();
        assert(links =~= init.push(l));
        lemma_inputs_contains(nodes, init, node, port);
        lemma_ports_push(nodes, init, l, node);
        let here = is_local(nodes, l) && l.to == (Endpoint { node, port });
        if inputs_of(nodes, links, node).contains(port) {
            let k = choose|k: int|
                0 <= k < inputs_of(nodes, links, node).len() && inputs_of(nodes, links, node)[k]
                    == port;
            if k < inputs_of(nodes, init, node).len() {
                assert(inputs_of(nodes, init, node)[k] == port);
                assert(inputs_of(nodes, init, node).contains(port));
                let j = choose|j: int|
                    0 <= j < init.len() && is_local(nodes, #[trigger] init[j]) && init[j].to == (
                    Endpoint { node, port });
                assert(links[j] == init[j]);
            } else {
                assert(here);
                assert(links[links.len() - 1] == l);
            }
        }
        if exists|j: int|
            0 <= j < links.len() && is_local(nodes, #[trigger] links[j]) && links[j].to == (
            Endpoint { node, port }) {
            let j = choose|j: int|
                0 <= j < links.len() && is_local(nodes, #[trigger] links[j]) && links[j].to == (
                Endpoint { node, port });
            if j < init.len() {
                assert(init[j] == links[j]);
                assert(inputs_of(nodes, init, node).contains(port));
                let k = choose|k: int|
                    0 <= k < inputs_of(nodes, init, node).len() && inputs_of(nodes, init, node)[k]
                        == port;
                assert(inputs_of(nodes, links, node)[k] == port);
            } else {
                assert(here);
                let last = inputs_of(nodes, links, node).len() - 1;
                assert(inputs_of(nodes, links, node)[last] == port);
            }
        }
    }
}

/// Whether a name is among the given node names.
pub fn contains_node(nodes: &[NodeId], id: &NodeId) -> (r: bool)
    ensures
        r == names(nodes@).contains(id@),
{
    let mut i: usize = 0;
    while i < nodes.len()
        invariant
            i <= nodes.len(),
            forall|j: int| 0 <= j < i ==> names(nodes@)[j] != id@,
        decreases nodes.len() - i,
    {
        if nodes[i] == *id {
            assert(names(nodes@)[i as int] == id@);
            return true;
        }
        i += 1;
    }
    false
}

/// Makes the links of a graph and sorts their ends by node.
///
/// A link is made for every descriptor whose two ends are both among
/// `nodes`; the others belong to links that cross to another runtime and are
/// passed over. The sending end goes to the bundle of the node the link
/// leaves, the receiving end to the bundle of the node it arrives at. All
/// links are without a bound.
///
/// An input port takes one link only. The first local descriptor that
/// arrives at an input which an earlier one has taken ends the wiring with
/// `DuplicatedPort`, which names that input port.
pub fn create_links<P>(nodes: &[NodeId], links: &[LinkDescriptor]) -> (r: ZFResult<
    Table<OperatorIO<P>>,
>)
    ensures
        r is Ok <==> forall|j: int| !clash_at(names(nodes@), views(links@), j),
        r matches Ok(table) ==> wired(table, names(nodes@), views(links@), links@.len() as int),
        r matches Err(e) ==> exists|j: int|
            {
                &&& #[trigger] clash_at(names(nodes@), views(links@), j)
                &&& forall|k: int| 0 <= k < j ==> !clash_at(names(nodes@), views(links@), k)
                &&& e matches ZFError::DuplicatedPort(p)
                &&& p.0@ == views(links@)[j].to.port
                &&& p.1@ == views(links@)[j].to.port
            },
{
    let mut io: Table<OperatorIO<P>> = Table::new();
    let ghost ns = names(nodes@);
    let ghost ls = views(links@);
    proof {
        assert(ls.take(0) =~= Seq::<LinkView>::empty());
        assert forall|n: Seq<char>| !touched(ns, ls, n, 0) by {}
    }
    let mut i: usize = 0;
    while i < links.len()
        invariant
            i <= links.len(),
            ns == names(nodes@),
            ls == views(links@),
            wired(io, ns, ls, i as int),
            forall|j: int| 0 <= j < i ==> !clash_at(ns, ls, j),
        decreases links.len() - i,
    {
        let link_desc = &links[i];
        let ghost l = ls[i as int];
        let ghost before = io;
        assert(l == link_desc@);
        proof {
            assert(ls.take(i + 1) =~= ls.take(i as int).push(l));
        }
        if !contains_node(nodes, &link_desc.from.node) || !contains_node(
            nodes,
            &link_desc.to.node,
        ) {
            proof {
                assert(!is_local(ns, l));
                assert forall|n: Seq<char>| touched(ns, ls, n, i + 1) == touched(
                    ns,
                    ls,
                    n,
                    i as int,
                ) by {
                    if touched(ns, ls, n, i + 1) {
                        let j = choose|j: int|
                            0 <= j < i + 1 && j < ls.len() && is_local(ns, #[trigger] ls[j]) && (
                            ls[j].from.node == n || ls[j].to.node == n);
                        assert(j != i);
                    }
                }
                assert forall|n: Seq<char>|
                    inputs_of(ns, ls.take(i + 1), n) == inputs_of(ns, ls.take(i as int), n)
                        && outputs_of(ns, ls.take(i + 1), n) == outputs_of(
                        ns,
                        ls.take(i as int),
                        n,
                    ) by {
                    lemma_ports_push(ns, ls.take(i as int), l, n);
                }
                assert(!clash_at(ns, ls, i as int));
            }
            i += 1;
            continue ;
        }
        assert(is_local(ns, l));
        let (tx, rx) = link::<Message<P>>(
            None,
            link_desc.from.output.clone(),
            link_desc.to.input.clone(),
        );
        let upstream_node = link_desc.from.node.clone();
        let downstream_node = link_desc.to.node.clone();

        let mut up = match io.remove(&upstream_node) {
            Some(operator_io) => operator_io,
            None => {
                proof {
                    lemma_ports_empty(ns, l.from.node);
                    // No earlier local link touches the upstream node.
                    assert(!touched(ns, ls, l.from.node, i as int));
                    assert(inputs_of(ns, ls.take(i as int), l.from.node) == Seq::<
                        Seq<char>,
                    >::empty()) by {
                        lemma_untouched_has_no_ports(ns, ls, l.from.node, i as int);
                    }
                    assert(outputs_of(ns, ls.take(i as int), l.from.node) == Seq::<
                        Seq<char>,
                    >::empty()) by {
                        lemma_untouched_has_no_ports(ns, ls, l.from.node, i as int);
                    }
                }
                OperatorIO::new()
            },
        };
        up.add_output(tx);
        let ghost up1 = up;
        io.push(upstream_node, up);
        let ghost mid = io;
        proof {
            lemma_ports_push(ns, ls.take(i as int), l, l.from.node);
            assert forall|n: Seq<char>| #[trigger] mid.has(n) <==> (before.has(n) || n
                == l.from.node) by {
                assert(mid@.dom().contains(n) <==> mid.has(n));
                assert(before@.dom().contains(n) <==> before.has(n));
            }
            assert forall|n: Seq<char>| #[trigger] mid.has(n) implies {
                &&& mid.at(n).wf()
                &&& mid.at(n).input_ids() == inputs_of(ns, ls.take(i as int), n)
                &&& mid.at(n).output_ids() == if n == l.from.node {
                    outputs_of(ns, ls.take(i as int), n).push(l.from.port)
                } else {
                    outputs_of(ns, ls.take(i as int), n)
                }
            } by {
                assert(mid@.dom().contains(n));
                assert(mid@[n] == mid.at(n));
                if n == l.from.node {
                    assert(mid.at(n) == up1);
                } else {
                    assert(before@.dom().contains(n));
                    assert(before.has(n));
                    assert(before@[n] == before.at(n));
                }
            }
        }

        let mut down = match io.remove(&downstream_node) {
            Some(operator_io) => operator_io,
            None => {
                proof {
                    assert(!before.has(l.to.node));
                    lemma_untouched_has_no_ports(ns, ls, l.to.node, i as int);
                    lemma_ports_empty(ns, l.to.node);
                }
                OperatorIO::new()
            },
        };
        proof {
            lemma_ports_push(ns, ls.take(i as int), l, l.to.node);
            lemma_inputs_contains(ns, ls.take(i as int), l.to.node, l.to.port);
            assert(down.input_ids() == inputs_of(ns, ls.take(i as int), l.to.node));
        }
        let ghost down0 = down;
        match down.try_add_input(rx) {
            Ok(()) => {},
            Err(e) => {
                proof {
                    let j = choose|j: int|
                        0 <= j < ls.take(i as int).len() && is_local(
                            ns,
                            #[trigger] ls.take(i as int)[j],
                        ) && ls.take(i as int)[j].to == (Endpoint {
                            node: l.to.node,
                            port: l.to.port,
                        });
                    assert(ls[j] == ls.take(i as int)[j]);
                    assert(clash_at(ns, ls, i as int));
                }
                return Err(e);
            },
        }
        let ghost down1 = down;
        io.push(downstream_node, down);
        proof {
            assert(!clash_at(ns, ls, i as int)) by {
                if clash_at(ns, ls, i as int) {
                    let k = choose|k: int|
                        0 <= k < i && is_local(ns, #[trigger] ls[k]) && ls[k].to == ls[i as int].to;
                    assert(ls.take(i as int)[k] == ls[k]);
                }
            }
            assert forall|n: Seq<char>| #[trigger] io.has(n) <==> (before.has(n) || n
                == l.from.node || n == l.to.node) by {
                assert(io@.dom().contains(n) <==> io.has(n));
                assert(mid@.dom().contains(n) <==> mid.has(n));
            }
            assert forall|n: Seq<char>| #[trigger]
                io.has(n) <==> touched(ns, ls, n, i + 1) by {
                if touched(ns, ls, n, i + 1) {
                    let j = choose|j: int|
                        0 <= j < i + 1 && j < ls.len() && is_local(ns, #[trigger] ls[j]) && (
                        ls[j].from.node == n || ls[j].to.node == n);
                    if j < i {
                        assert(touched(ns, ls, n, i as int));
                    }
                }
                if before.has(n) {
                    assert(touched(ns, ls, n, i as int));
                    let j = choose|j: int|
                        0 <= j < i && j < ls.len() && is_local(ns, #[trigger] ls[j]) && (
                        ls[j].from.node == n || ls[j].to.node == n);
                    assert(touched(ns, ls, n, i + 1));
                }
                if n == l.from.node || n == l.to.node {
                    assert(is_local(ns, ls[i as int]));
                    assert(touched(ns, ls, n, i + 1));
                }
            }
            assert forall|n: Seq<char>| #[trigger] io.has(n) implies {
                &&& io.at(n).wf()
                &&& io.at(n).input_ids() == inputs_of(ns, ls.take(i + 1), n)
                &&& io.at(n).output_ids() == outputs_of(ns, ls.take(i + 1), n)
            } by {
                lemma_ports_push(ns, ls.take(i as int), l, n);
                assert(io@.dom().contains(n));
                assert(io@[n] == io.at(n));
                if n == l.to.node {
                    assert(io.at(n) == down1);
                    if mid.has(n) {
                        assert(mid@.dom().contains(n));
                        assert(mid@[n] == mid.at(n));
                        assert(down0 == mid.at(n));
                    } else {
                        assert(n != l.from.node);
                    }
                } else {
                    assert(mid@.dom().contains(n));
                    assert(mid.has(n));
                    assert(mid@[n] == mid.at(n));
                }
            }
        }
        i += 1;
    }
    proof {
        assert forall|j: int| !clash_at(ns, ls, j) by {
            if clash_at(ns, ls, j) {
                assert(0 <= j < i);
            }
        }
    }
    Ok(io)
}

proof fn lemma_untouched_has_no_ports(
    nodes: Seq<Seq<char>>,
    links: Seq<LinkView>,
    node: Seq<char>,
    upto: int,
)
    requires
        0 <= upto <= links.len(),
        !touched(nodes, links, node, upto),
    ensures
        inputs_of(nodes, links.take(upto), node) == Seq::<Seq<char>>::empty(),
        outputs_of(nodes, links.take(upto), node) == Seq::<Seq<char>>::empty(),
    decreases upto,
{
    if upto == 0 {
        assert(links.take(0) =~= Seq::<LinkView>::empty());
        lemma_ports_empty(nodes, node);
    } else {
        assert(!touched(nodes, links, node, upto - 1)) by {
            if touched(nodes, links, node, upto - 1) {
                let j = choose|j: int|
                    0 <= j < upto - 1 && j < links.len() && is_local(nodes, #[trigger] links[j])
                        && (links[j].from.node == node || links[j].to.node == node);
                assert(touched(nodes, links, node, upto));
            }
        }
        lemma_untouched_has_no_ports(nodes, links, node, upto - 1);
        let l = links[upto - 1];
        assert(links.take(upto) =~= links.take(upto - 1).push(l));
        lemma_ports_push(nodes, links.take(upto - 1), l, node);
        assert(!(is_local(nodes, l) && (l.from.node == node || l.to.node == node)));
    }
}

} // verus!
