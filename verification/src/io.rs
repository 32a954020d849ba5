use crate::error::{ZFError, ZFResult};
use crate::link::{LinkReceiver, LinkSender};
use crate::message::Message;
use crate::table::Table;
use crate::types::PortId;
use vstd::prelude::*;

verus! {

/// The names of the ports that a sequence of sending ends is bound to.
pub open spec fn sender_ids<P>(senders: Seq<LinkSender<Message<P>>>) -> Seq<Seq<char>> {
    Seq::new(senders.len(), |i: int| senders[i].id@)
}

/// Each receiving end stands in the table under the name of its own port.
pub open spec fn receivers_wf<P>(inputs: Table<LinkReceiver<Message<P>>>) -> bool {
    &&& inputs.wf()
    &&& forall|i: int|
        0 <= i < inputs.keys().len() ==> (#[trigger] inputs.values()[i]).id@ == inputs.keys()[i]
}

/// The link ends of one node while the graph is being wired: at most one
/// receiving end for each input port, any number of sending ends for each
/// output port.
#[verifier::reject_recursive_types(P)]
pub struct OperatorIO<P> {
    inputs: Table<LinkReceiver<Message<P>>>,
    outputs: Vec<LinkSender<Message<P>>>,
}

impl<P> Default for OperatorIO<P> {
    /// A bundle without link ends.
    fn default() -> (io: Self)
        ensures
            io.wf(),
            io.input_ids() == Seq::<Seq<char>>::empty(),
            io.output_ids() == Seq::<Seq<char>>::empty(),
    {
        OperatorIO::new()
    }
}

impl<P> OperatorIO<P> {
    /// The input ports that have a receiving end, in the order of arrival.
    pub closed spec fn input_ids(&self) -> Seq<Seq<char>> {
        self.inputs.keys()
    }

    /// The output port of each sending end, in the order of arrival.
    pub closed spec fn output_ids(&self) -> Seq<Seq<char>> {
        sender_ids(self.outputs@)
    }

    /// No input port has two receiving ends.
    pub closed spec fn wf(&self) -> bool {
        receivers_wf(self.inputs)
    }

    /// A bundle without link ends.
    pub fn new() -> (io: Self)
        ensures
            io.wf(),
            io.input_ids() == Seq::<Seq<char>>::empty(),
            io.output_ids() == Seq::<Seq<char>>::empty(),
    {
        let io = OperatorIO { inputs: Table::new(), outputs: Vec::new() };
        assert(io.output_ids() =~= Seq::<Seq<char>>::empty());
        io
    }

    /// Adds a receiving end. An input port takes one link only: a second
    /// receiving end for the same port is refused with `DuplicatedPort`, and
    /// the bundle stays as it was.
    pub fn try_add_input(&mut self, rx: LinkReceiver<Message<P>>) -> (r: ZFResult<()>)
        requires
            old(self).wf(),
        ensures
            final(self).wf(),
            final(self).output_ids() == old(self).output_ids(),
            old(self).input_ids().contains(rx.id@) ==> r == Err::<(), ZFError>(
                ZFError::DuplicatedPort((rx.id, rx.id)),
            ) && final(self).input_ids() == old(self).input_ids(),
            !old(self).input_ids().contains(rx.id@) ==> r == Ok::<(), ZFError>(())
                && final(self).input_ids() == old(self).input_ids().push(rx.id@),
    {
        if self.inputs.contains_key(&rx.id) {
            return Err(ZFError::DuplicatedPort((rx.id.clone(), rx.id.clone())));
        }
        let key = rx.id.clone();
        self.inputs.push(key, rx);
        Ok(())
    }

    /// Adds a sending end. An output port may feed any number of links.
    pub fn add_output(&mut self, tx: LinkSender<Message<P>>)
        requires
            old(self).wf(),
        ensures
            final(self).wf(),
            final(self).input_ids() == old(self).input_ids(),
            final(self).output_ids() == old(self).output_ids().push(tx.id@),
    {
        self.outputs.push(tx);
        assert(self.output_ids() =~= old(self).output_ids().push(tx.id@));
    }

    /// Hands out the link ends: the receiving ends under their port names,
    /// and the sending ends in the order of arrival.
    pub fn take(self) -> (r: (Table<LinkReceiver<Message<P>>>, Vec<LinkSender<Message<P>>>))
        requires
            self.wf(),
        ensures
            receivers_wf(r.0),
            r.0.keys() == self.input_ids(),
            sender_ids(r.1@) == self.output_ids(),
    {
        (self.inputs, self.outputs)
    }
}

} // verus!
