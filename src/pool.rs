use vstd::prelude::*;

verus! {

/// A predicate over messages, stated once as a spec function and once as code.
pub trait Select<M> {
    spec fn selects(&self, m: M) -> bool;

    fn test(&self, m: &M) -> (r: bool)
        ensures
            r == self.selects(*m),
    ;
}

/// The messages of `s` that `f` selects, in the order they had.
pub open spec fn selected<M, F: Select<M>>(s: Seq<M>, f: F) -> Seq<M>
    decreases s.len(),
{
    if s.len() == 0 {
        Seq::empty()
    } else if f.selects(s.last()) {
        selected(s.drop_last(), f).push(s.last())
    } else {
        selected(s.drop_last(), f)
    }
}

/// The messages of `s` that `f` does not select, in the order they had.
pub open spec fn rejected<M, F: Select<M>>(s: Seq<M>, f: F) -> Seq<M>
    decreases s.len(),
{
    if s.len() == 0 {
        Seq::empty()
    } else if f.selects(s.last()) {
        rejected(s.drop_last(), f)
    } else {
        rejected(s.drop_last(), f).push(s.last())
    }
}

/// Every message that `selected` keeps is one that `f` selects.
pub proof fn lemma_selected_selects<M, F: Select<M>>(s: Seq<M>, f: F)
    ensures
        forall|i: int| 0 <= i < selected(s, f).len() ==> f.selects(#[trigger] selected(s, f)[i]),
    decreases s.len(),
{
    if s.len() > 0 {
        lemma_selected_selects(s.drop_last(), f);
        let prev = selected(s.drop_last(), f);
        assert forall|i: int| 0 <= i < selected(s, f).len() implies f.selects(
            #[trigger] selected(s, f)[i],
        ) by {
            if i < prev.len() {
                assert(selected(s, f)[i] == prev[i]);
            }
        }
    }
}

/// Selecting nothing sifts nothing out: everything is rejected, in order.
pub proof fn lemma_select_none<M, F: Select<M>>(s: Seq<M>, f: F)
    requires
        forall|m: M| !f.selects(m),
    ensures
        selected(s, f) == Seq::<M>::empty(),
        rejected(s, f) == s,
    decreases s.len(),
{
    if s.len() > 0 {
        lemma_select_none(s.drop_last(), f);
        assert(s.drop_last().push(s.last()) =~= s);
    }
}

/// Two predicates that select the same messages sift any sequence alike.
pub proof fn lemma_select_same<M, F: Select<M>, G: Select<M>>(s: Seq<M>, f: F, g: G)
    requires
        forall|m: M| f.selects(m) == g.selects(m),
    ensures
        selected(s, f) == selected(s, g),
        rejected(s, f) == rejected(s, g),
    decreases s.len(),
{
    if s.len() > 0 {
        lemma_select_same(s.drop_last(), f, g);
    }
}

/// When nothing is selected, everything is rejected, in order.
pub proof fn lemma_nothing_selected<M, F: Select<M>>(s: Seq<M>, f: F)
    requires
        selected(s, f).len() == 0,
    ensures
        rejected(s, f) == s,
    decreases s.len(),
{
    if s.len() > 0 {
        lemma_nothing_selected(s.drop_last(), f);
        assert(s.drop_last().push(s.last()) =~= s);
    }
}

/// The predicate that selects no message.
pub struct Nothing;

impl<M> Select<M> for Nothing {
    open spec fn selects(&self, m: M) -> bool {
        false
    }

    fn test(&self, m: &M) -> (r: bool) {
        false
    }
}

/// An ordered collection of in-flight messages with a single owner.
pub struct Pool<M> {
    msgs: Vec<M>,
}

impl<M> View for Pool<M> {
    type V = Seq<M>;

    closed spec fn view(&self) -> Seq<M> {
        self.msgs@
    }
}

impl<M> Pool<M> {
    pub fn new() -> (r: Self)
        ensures
            r@ == Seq::<M>::empty(),
    {
        Pool { msgs: Vec::new() }
    }

    /// Builds a pool holding the messages of `v`, in order.
    pub fn from_vec(v: Vec<M>) -> (r: Self)
        ensures
            r@ == v@,
    {
        Pool { msgs: v }
    }

    pub fn len(&self) -> (r: usize)
        ensures
            r == self@.len(),
    {
        self.msgs.len()
    }

    pub fn is_empty(&self) -> (r: bool)
        ensures
            r == (self@.len() == 0),
    {
        self.msgs.len() == 0
    }

    /// Appends a message at the end.
    pub fn push(&mut self, m: M)
        ensures
            final(self)@ == old(self)@.push(m),
    {
        self.msgs.push(m);
    }

    /// Removes every message.
    pub fn clear(&mut self)
        ensures
            final(self)@ == Seq::<M>::empty(),
    {
        self.msgs.clear();
    }

    /// Removes and returns every message, in order.
    pub fn drain(&mut self) -> (r: Vec<M>)
        ensures
            r@ == old(self)@,
            final(self)@ == Seq::<M>::empty(),
    {
        let mut all = Vec::new();
        std::mem::swap(&mut self.msgs, &mut all);
        all
    }

    /// Appends every message of `other`, in order, and leaves `other` empty.
    pub fn append(&mut self, other: &mut Pool<M>)
        ensures
            final(self)@ == old(self)@ + old(other)@,
            final(other)@ == Seq::<M>::empty(),
    {
        self.msgs.append(&mut other.msgs);
    }

    /// Removes and returns, in order, every message that `f` selects; the
    /// others stay, in order.
    pub fn drain_filter<F: Select<M>>(&mut self, f: &F) -> (r: Vec<M>)
        ensures
            r@ == selected(old(self)@, *f),
            final(self)@ == rejected(old(self)@, *f),
    {
        let ghost orig = self.msgs@;
        let mut rest = Vec::new();
        std::mem::swap(&mut self.msgs, &mut rest);
        let mut taken: Vec<M> = Vec::new();
        let ghost mut i: int = 0;
        while rest.len() > 0
            invariant
                0 <= i <= orig.len(),
                rest@ == orig.subrange(i, orig.len() as int),
                taken@ == selected(orig.subrange(0, i), *f),
                self.msgs@ == rejected(orig.subrange(0, i), *f),
            decreases rest.len(),
        {
            let m = rest.remove(0);
            proof {
                assert(orig.subrange(0, i + 1).drop_last() =~= orig.subrange(0, i));
                assert(orig.subrange(0, i + 1).last() == m);
                assert(rest@ =~= orig.subrange(i + 1, orig.len() as int));
                i = i + 1;
            }
            if f.test(&m) {
                taken.push(m);
            } else {
                self.msgs.push(m);
            }
        }
        proof {
            assert(orig.subrange(0, i) =~= orig);
        }
        taken
    }

    /// Draining with a predicate that selects nothing returns nothing and
    /// leaves the pool as it was.
    pub proof fn lemma_drain_filter_nothing<F: Select<M>>(s: Seq<M>, f: F)
        requires
            forall|m: M| !f.selects(m),
        ensures
            selected(s, f).len() == 0,
            rejected(s, f) == s,
    {
        lemma_select_none(s, f);
    }

    /// Tells whether some message is selected by `f`, without removing any.
    pub fn query<F: Select<M>>(&self, f: &F) -> (r: bool)
        ensures
            r == (selected(self@, *f).len() > 0),
    {
        let mut i: usize = 0;
        let mut found = false;
        while i < self.msgs.len()
            invariant
                0 <= i <= self.msgs@.len(),
                found == (selected(self.msgs@.subrange(0, i as int), *f).len() > 0),
            decreases self.msgs@.len() - i,
        {
            proof {
                assert(self.msgs@.subrange(0, i + 1).drop_last() =~= self.msgs@.subrange(0, i as int));
            }
            if f.test(&self.msgs[i]) {
                found = true;
            }
            i = i + 1;
        }
        proof {
            assert(self.msgs@.subrange(0, i as int) =~= self.msgs@);
        }
        found
    }
}

} // verus!
