use vstd::prelude::*;
use crate::pool::{Pool, Select, selected, rejected, lemma_selected_selects};
use core::marker::PhantomData;

verus! {

/// The address of one control's event channel inside the outer message type
/// `MSG`: the channel carries events of type `EVT` and is told apart from the
/// other channels of the same event type by its slot number.
pub struct CtrlId<MSG, EVT> {
    pub slot: u64,
    pub marker: PhantomData<(MSG, EVT)>,
}

impl<MSG, EVT> View for CtrlId<MSG, EVT> {
    type V = u64;

    open spec fn view(&self) -> u64 {
        self.slot
    }
}

/// The mapping between an outer message type and one event type carried in
/// it. Each message is on at most one channel of a given event type.
pub trait Unpack<EVT>: Sized {
    /// The slot of the channel of event type `EVT` that this message is on.
    spec fn channel(&self) -> Option<u64>;

    /// The event that this message carries on that channel.
    spec fn event(&self) -> EVT;

    /// The message that carries `e` on the channel with slot `slot`.
    spec fn packed(slot: u64, e: EVT) -> Self;

    proof fn lemma_packed(slot: u64, e: EVT)
        ensures
            Self::packed(slot, e).channel() == Some(slot),
            Self::packed(slot, e).event() == e,
    ;

    fn pack(slot: u64, e: EVT) -> (r: Self)
        ensures
            r == Self::packed(slot, e),
    ;

    /// The event inside, when this message is on the channel `c`.
    fn peek(&self, c: &CtrlId<Self, EVT>) -> (r: Option<&EVT>)
        ensures
            r == (if self.channel() == Some(c@) { Some(&self.event()) } else { None }),
    ;

    /// Takes the event out when this message is on the channel `c`; hands the
    /// message back unchanged otherwise.
    fn unpack(self, c: &CtrlId<Self, EVT>) -> (r: Result<EVT, Self>)
        ensures
            r == (if self.channel() == Some(c@) { Ok::<EVT, Self>(self.event()) } else { Err(self) }),
    ;
}

/// What `unpack` gives for `m` on the channel `c`: the event when `m` is on
/// that channel, `m` itself otherwise.
pub open spec fn unpacked<MSG: Unpack<EVT>, EVT>(m: MSG, c: CtrlId<MSG, EVT>) -> Result<EVT, MSG> {
    if m.channel() == Some(c@) {
        Ok(m.event())
    } else {
        Err(m)
    }
}

impl<MSG, EVT> CtrlId<MSG, EVT> {
    pub fn new(slot: u64) -> (r: Self)
        ensures
            r@ == slot,
    {
        CtrlId { slot, marker: PhantomData }
    }

    pub fn slot(&self) -> (r: u64)
        ensures
            r == self@,
    {
        self.slot
    }

    /// A second handle on the same channel.
    pub fn copy(&self) -> (r: Self)
        ensures
            r@ == self@,
    {
        CtrlId { slot: self.slot, marker: PhantomData }
    }

    /// The message that carries `e` on this channel.
    pub open spec fn tomsg_spec(&self, e: EVT) -> MSG
        where
            MSG: Unpack<EVT>,
    {
        MSG::packed(self@, e)
    }

    /// The message that carries `evt` on this channel.
    pub fn tomsg(&self, evt: EVT) -> (r: MSG)
        where
            MSG: Unpack<EVT>,
        ensures
            r == self.tomsg_spec(evt),
            r.channel() == Some(self@),
            r.event() == evt,
    {
        proof {
            MSG::lemma_packed(self.slot, evt);
        }
        MSG::pack(self.slot, evt)
    }

    /// Two handles name the same channel exactly when the message that one
    /// builds is recognised by the other.
    pub fn same_channel(&self, other: &Self) -> (r: bool)
        where
            MSG: Unpack<EVT>,
            EVT: Default,
        ensures
            r == (self@ == other@),
    {
        let probe = self.tomsg(EVT::default());
        probe.peek(other).is_some()
    }
}

impl<MSG: Unpack<EVT>, EVT> Select<MSG> for CtrlId<MSG, EVT> {
    open spec fn selects(&self, m: MSG) -> bool {
        m.channel() == Some(self@)
    }

    fn test(&self, m: &MSG) -> (r: bool) {
        m.peek(self).is_some()
    }
}

/// The events carried by the messages of `s`, in order.
pub open spec fn events_of<MSG: Unpack<EVT>, EVT>(s: Seq<MSG>) -> Seq<EVT> {
    s.map_values(|m: MSG| m.event())
}

/// Drains every message on the channel `c` from `pool` and returns their
/// events, in order.
pub fn query_by_ctrlid<MSG: Unpack<EVT>, EVT>(pool: &mut Pool<MSG>, c: &CtrlId<MSG, EVT>) -> (r: Vec<EVT>)
    ensures
        r@ == events_of::<MSG, EVT>(selected(old(pool)@, *c)),
        final(pool)@ == rejected(old(pool)@, *c),
{
    let mut msgs = pool.drain_filter(c);
    let ghost taken = msgs@;
    proof {
        lemma_selected_selects(old(pool)@, *c);
    }
    let mut out: Vec<EVT> = Vec::new();
    let ghost mut i: int = 0;
    while msgs.len() > 0
        invariant
            0 <= i <= taken.len(),
            taken == selected(old(pool)@, *c),
            forall|j: int| 0 <= j < taken.len() ==> (#[trigger] taken[j]).channel() == Some(c@),
            msgs@ == taken.subrange(i, taken.len() as int),
            out@ == events_of::<MSG, EVT>(taken.subrange(0, i)),
        decreases msgs.len(),
    {
        let m = msgs.remove(0);
        proof {
            assert(m == taken[i]);
            assert(msgs@ =~= taken.subrange(i + 1, taken.len() as int));
            assert(events_of::<MSG, EVT>(taken.subrange(0, i + 1)) =~= events_of::<MSG, EVT>(
                taken.subrange(0, i),
            ).push(m.event()));
            i = i + 1;
        }
        match m.unpack(c) {
            Ok(e) => out.push(e),
            Err(_) => {},
        }
    }
    proof {
        assert(taken.subrange(0, i) =~= taken);
    }
    out
}

/// The two states of a request for a control's state: an outstanding query
/// with its parameters, or the answer.
#[derive(PartialEq, Eq, Clone, Copy, Debug)]
pub enum QR<Q, R> {
    Query(Q),
    Response(R),
}

impl<Q, R> QR<Q, R> {
    pub fn is_query(&self) -> (r: bool)
        ensures
            r == (self is Query),
    {
        match self {
            QR::Query(_) => true,
            QR::Response(_) => false,
        }
    }

    pub fn is_response(&self) -> (r: bool)
        ensures
            r == (self is Response),
    {
        match self {
            QR::Query(_) => false,
            QR::Response(_) => true,
        }
    }
}

/// A source of messages that a control sends of its own accord.
pub trait MessageSender<MSG> {
    /// The messages waiting to be handed out, oldest first.
    spec fn outbox(&self) -> Seq<MSG>;

    /// Hands out the oldest waiting message, if any.
    fn get_message(&mut self) -> (r: Option<MSG>)
        ensures
            old(self).outbox().len() == 0 ==> r is None && final(self).outbox() == old(self).outbox(),
            old(self).outbox().len() > 0 ==> r == Some(old(self).outbox()[0]) && final(self).outbox()
                == old(self).outbox().subrange(1, old(self).outbox().len() as int),
    ;
}

/// Address exclusivity: a message is on at most one of two distinct channels
/// of the same event type.
pub proof fn lemma_address_exclusive<MSG: Unpack<EVT>, EVT>(m: MSG, c1: CtrlId<MSG, EVT>, c2: CtrlId<MSG, EVT>)
    requires
        c1@ != c2@,
    ensures
        !(m.channel() == Some(c1@) && m.channel() == Some(c2@)),
{
}

/// Round trip: a message built on a channel unpacks on that channel to the
/// event it was built from, and is handed back unchanged by any other.
pub proof fn lemma_round_trip<MSG: Unpack<EVT>, EVT>(e: EVT, c: CtrlId<MSG, EVT>, c2: CtrlId<MSG, EVT>)
    ensures
        unpacked(c.tomsg_spec(e), c) == Ok::<EVT, MSG>(e),
        c2@ != c@ ==> unpacked(c.tomsg_spec(e), c2) == Err::<EVT, MSG>(c.tomsg_spec(e)),
{
    MSG::lemma_packed(c@, e);
}

} // verus!
