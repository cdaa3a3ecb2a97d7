use vstd::prelude::*;
use crate::request::MessageSender;

verus! {

/// The key under which a handler is registered.
pub type HandlerId = u64;

/// The entries of `s` whose key is not `hid`, in order.
pub open spec fn without<M>(s: Seq<(HandlerId, M)>, hid: HandlerId) -> Seq<(HandlerId, M)>
    decreases s.len(),
{
    if s.len() == 0 {
        s
    } else if s.last().0 == hid {
        without(s.drop_last(), hid)
    } else {
        without(s.drop_last(), hid).push(s.last())
    }
}

/// The message registered under `hid`: that of the last entry with that key.
pub open spec fn lookup<M>(s: Seq<(HandlerId, M)>, hid: HandlerId) -> Option<M>
    decreases s.len(),
{
    if s.len() == 0 {
        None
    } else if s.last().0 == hid {
        Some(s.last().1)
    } else {
        lookup(s.drop_last(), hid)
    }
}

/// The messages that firing the handlers `hids` in turn sends.
pub open spec fn fired<M>(s: Seq<(HandlerId, M)>, hids: Seq<HandlerId>) -> Seq<M>
    decreases hids.len(),
{
    if hids.len() == 0 {
        Seq::empty()
    } else {
        fired(s, hids.drop_last()) + match lookup(s, hids.last()) {
            Some(m) => seq![m],
            None => Seq::empty(),
        }
    }
}

/// The messages of the registered handlers, in order of registration.
pub open spec fn registered<M>(s: Seq<(HandlerId, M)>) -> Seq<M> {
    s.map_values(|e: (HandlerId, M)| e.1)
}

/// Firing one handler sends what is registered under its id.
pub proof fn lemma_fired_one<M>(s: Seq<(HandlerId, M)>, hid: HandlerId)
    ensures
        fired(s, seq![hid]) == match lookup(s, hid) {
            Some(m) => seq![m],
            None => Seq::<M>::empty(),
        },
{
    assert(seq![hid].drop_last() =~= Seq::<HandlerId>::empty());
    assert(fired(s, Seq::<HandlerId>::empty()) == Seq::<M>::empty());
    assert(seq![hid].last() == hid);
    let tail = match lookup(s, hid) {
        Some(m) => seq![m],
        None => Seq::<M>::empty(),
    };
    assert(Seq::<M>::empty() + tail =~= tail);
}

/// Whether each id occurs at most once among the entries `s`.
pub open spec fn keys_unique<M>(s: Seq<(HandlerId, M)>) -> bool {
    forall|i: int, j: int| 0 <= i < j < s.len() ==> s[i].0 != s[j].0
}

/// Dropping the entries of one id leaves none of that id, only ids that
/// were there, and keeps the ids unique.
pub proof fn lemma_without<M>(s: Seq<(HandlerId, M)>, hid: HandlerId)
    ensures
        forall|i: int|
            0 <= i < without(s, hid).len() ==> (#[trigger] without(s, hid)[i]).0 != hid && exists|j: int|
                0 <= j < s.len() && s[j].0 == without(s, hid)[i].0,
        keys_unique(s) ==> keys_unique(without(s, hid)),
    decreases s.len(),
{
    if s.len() > 0 {
        let d = s.drop_last();
        lemma_without(d, hid);
        let w = without(s, hid);
        let wd = without(d, hid);
        assert forall|i: int| 0 <= i < w.len() implies (#[trigger] w[i]).0 != hid && exists|j: int|
            0 <= j < s.len() && s[j].0 == w[i].0 by {
            if i < wd.len() {
                assert(w[i] == wd[i]);
                let j = choose|j: int| 0 <= j < d.len() && d[j].0 == wd[i].0;
                assert(s[j] == d[j]);
            } else {
                assert(s[s.len() - 1].0 == w[i].0);
            }
        }
        if keys_unique(s) {
            assert(keys_unique(d));
            assert forall|i: int, j: int| 0 <= i < j < w.len() implies w[i].0 != w[j].0 by {
                if j < wd.len() {
                    assert(w[i] == wd[i] && w[j] == wd[j]);
                } else {
                    assert(w[i] == wd[i]);
                    let k = choose|k: int| 0 <= k < d.len() && d[k].0 == wd[i].0;
                    assert(s[k] == d[k]);
                    assert(w[j] == s.last());
                }
            }
        }
    }
}

/// A registry of handlers, each a message to send when it fires, keyed by
/// handler id, and the messages fired and not yet collected. Each id is
/// registered at most once.
pub struct Handlers<M> {
    stored: Registry<M>,
    pending: Vec<M>,
}

/// The entries of a registry, with each id at most once.
struct Registry<M> {
    entries: Vec<(HandlerId, M)>,
}

impl<M> Registry<M> {
    #[verifier::type_invariant]
    closed spec fn ids_unique(&self) -> bool {
        keys_unique(self.entries@)
    }
}

/// Taking out the messages that fired handlers left behind.
pub trait IHandlers<M> {
    /// The registered handlers, as (id, message) entries.
    spec fn entries(&self) -> Seq<(HandlerId, M)>;

    /// The messages fired and not yet collected.
    spec fn fired_messages(&self) -> Seq<M>;

    /// Drops the handler registered under `hid`.
    fn remove_handler(&mut self, hid: HandlerId)
        ensures
            final(self).entries() == without(old(self).entries(), hid),
            final(self).fired_messages() == old(self).fired_messages(),
    ;

    fn collect_fired_handlers(&mut self) -> (r: Vec<M>)
        ensures
            r@ == old(self).fired_messages(),
            final(self).fired_messages() == Seq::<M>::empty(),
    ;
}

impl<M: Copy> Handlers<M> {
    pub closed spec fn stored(&self) -> Seq<(HandlerId, M)> {
        self.stored.entries@
    }

    pub closed spec fn pending(&self) -> Seq<M> {
        self.pending@
    }

    pub fn new() -> (r: Self)
        ensures
            r.stored() == Seq::<(HandlerId, M)>::empty(),
            r.pending() == Seq::<M>::empty(),
            keys_unique(r.stored()),
    {
        Handlers { stored: Registry { entries: Vec::new() }, pending: Vec::new() }
    }

    /// Drops the handler registered under `hid`, if any.
    pub fn unregister(&mut self, hid: HandlerId)
        ensures
            final(self).stored() == without(old(self).stored(), hid),
            final(self).pending() == old(self).pending(),
            keys_unique(final(self).stored()),
    {
        proof {
            use_type_invariant(&self.stored);
            lemma_without(self.stored.entries@, hid);
        }
        let mut kept: Vec<(HandlerId, M)> = Vec::new();
        let mut i: usize = 0;
        while i < self.stored.entries.len()
            invariant
                0 <= i <= self.stored.entries@.len(),
                self.stored.entries@ == old(self).stored.entries@,
                self.pending@ == old(self).pending@,
                kept@ == without(self.stored.entries@.subrange(0, i as int), hid),
            decreases self.stored.entries@.len() - i,
        {
            proof {
                assert(self.stored.entries@.subrange(0, i + 1).drop_last() =~= self.stored.entries@.subrange(0, i as int));
            }
            let e = self.stored.entries[i];
            if e.0 != hid {
                kept.push(e);
            }
            i = i + 1;
        }
        proof {
            assert(self.stored.entries@.subrange(0, i as int) =~= self.stored.entries@);
        }
        self.stored = Registry { entries: kept };
    }

    /// Registers `m` under `hid`, replacing what was registered there.
    pub fn add_handler(&mut self, hid: HandlerId, m: M)
        ensures
            final(self).stored() == without(old(self).stored(), hid).push((hid, m)),
            final(self).pending() == old(self).pending(),
            keys_unique(final(self).stored()),
    {
        self.unregister(hid);
        proof {
            lemma_without(old(self).stored.entries@, hid);
        }
        let mut entries: Vec<(HandlerId, M)> = Vec::new();
        std::mem::swap(&mut entries, &mut self.stored.entries);
        entries.push((hid, m));
        self.stored = Registry { entries };
    }

    /// The message registered under `hid`, if any.
    pub fn get(&self, hid: HandlerId) -> (r: Option<M>)
        ensures
            r == lookup(self.stored(), hid),
    {
        let mut i: usize = self.stored.entries.len();
        proof {
            assert(self.stored.entries@.subrange(0, i as int) =~= self.stored.entries@);
        }
        while i > 0
            invariant
                0 <= i <= self.stored.entries@.len(),
                lookup(self.stored.entries@, hid) == lookup(self.stored.entries@.subrange(0, i as int), hid),
            decreases i,
        {
            proof {
                assert(self.stored.entries@.subrange(0, i as int).drop_last() =~= self.stored.entries@.subrange(0, i - 1));
            }
            let e = self.stored.entries[i - 1];
            if e.0 == hid {
                return Some(e.1);
            }
            i = i - 1;
        }
        None
    }

    /// Takes out the fired messages, in the order they fired.
    pub fn take_fired(&mut self) -> (r: Vec<M>)
        ensures
            r@ == old(self).pending(),
            final(self).pending() == Seq::<M>::empty(),
            final(self).stored() == old(self).stored(),
    {
        let mut out = Vec::new();
        std::mem::swap(&mut self.pending, &mut out);
        out
    }

    /// The messages of all registered handlers, in order of registration.
    pub fn messages(&self) -> (r: Vec<M>)
        ensures
            r@ == registered(self.stored()),
    {
        let mut out: Vec<M> = Vec::new();
        let mut i: usize = 0;
        while i < self.stored.entries.len()
            invariant
                0 <= i <= self.stored.entries@.len(),
                out@ == registered(self.stored.entries@.subrange(0, i as int)),
            decreases self.stored.entries@.len() - i,
        {
            let e = self.stored.entries[i];
            out.push(e.1);
            i = i + 1;
            proof {
                assert(out@ =~= registered(self.stored.entries@.subrange(0, i as int)));
            }
        }
        proof {
            assert(self.stored.entries@.subrange(0, i as int) =~= self.stored.entries@);
        }
        out
    }

    /// Fires the handler registered under `hid`: its message joins the
    /// pending ones. An id with nothing registered fires nothing.
    pub fn fire_handler(&mut self, hid: HandlerId)
        ensures
            final(self).stored() == old(self).stored(),
            final(self).pending() == old(self).pending() + fired(old(self).stored(), seq![hid]),
    {
        proof {
            lemma_fired_one(self.stored.entries@, hid);
        }
        match self.get(hid) {
            Some(m) => {
                self.pending.push(m);
                proof {
                    assert(old(self).pending@ + seq![m] =~= old(self).pending@.push(m));
                }
            },
            None => {
                proof {
                    assert(old(self).pending@ + Seq::<M>::empty() =~= old(self).pending@);
                }
            },
        }
    }

    /// Fires the handlers `hids`, in order. An id with nothing registered
    /// fires nothing, so a firing never stops halfway.
    pub fn fire_handlers(&mut self, hids: &Vec<HandlerId>)
        ensures
            final(self).stored() == old(self).stored(),
            final(self).pending() == old(self).pending() + fired(old(self).stored(), hids@),
    {
        let mut i: usize = 0;
        while i < hids.len()
            invariant
                0 <= i <= hids@.len(),
                self.stored.entries@ == old(self).stored.entries@,
                self.pending@ == old(self).pending@ + fired(old(self).stored.entries@, hids@.subrange(0, i as int)),
            decreases hids@.len() - i,
        {
            self.fire_handler(hids[i]);
            proof {
                let pre = hids@.subrange(0, i as int);
                let post = hids@.subrange(0, i + 1);
                assert(post.drop_last() =~= pre);
                lemma_fired_one(old(self).stored.entries@, hids@[i as int]);
                assert(post.last() == hids@[i as int]);
                assert(fired(old(self).stored.entries@, post) == fired(old(self).stored.entries@, pre) + fired(
                    old(self).stored.entries@,
                    seq![hids@[i as int]],
                ));
                assert(self.pending@ =~= old(self).pending@ + fired(old(self).stored.entries@, post));
            }
            i = i + 1;
        }
        proof {
            assert(hids@.subrange(0, i as int) =~= hids@);
        }
    }
}

impl<M: Copy> IHandlers<M> for Handlers<M> {
    open spec fn entries(&self) -> Seq<(HandlerId, M)> {
        self.stored()
    }

    open spec fn fired_messages(&self) -> Seq<M> {
        self.pending()
    }

    fn remove_handler(&mut self, hid: HandlerId) {
        self.unregister(hid);
    }

    fn collect_fired_handlers(&mut self) -> (r: Vec<M>) {
        self.take_fired()
    }
}

impl<M: Copy> MessageSender<M> for Handlers<M> {
    open spec fn outbox(&self) -> Seq<M> {
        self.pending()
    }

    /// Hands out the oldest fired message that was not collected yet.
    fn get_message(&mut self) -> (r: Option<M>) {
        if self.pending.len() == 0 {
            None
        } else {
            Some(self.pending.remove(0))
        }
    }
}

} // verus!
