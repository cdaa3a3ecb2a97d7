use vstd::prelude::*;
use crate::pool::Pool;
use crate::router::Widget;
use crate::gui::{views_of, run_all, handle_all};

verus! {

/// Controls laid over one another. Its handler runs theirs in the order
/// they were added.
pub struct Panel<W> {
    widgets: Vec<W>,
}

impl<W: View> View for Panel<W> {
    type V = Seq<W::V>;

    closed spec fn view(&self) -> Seq<W::V> {
        views_of(self.widgets@)
    }
}

impl<W: View> Panel<W> {
    pub fn new() -> (r: Self)
        ensures
            r@ == Seq::<W::V>::empty(),
    {
        let r = Panel { widgets: Vec::new() };
        assert(views_of(r.widgets@) =~= Seq::<W::V>::empty());
        r
    }

    pub fn len(&self) -> (r: usize)
        ensures
            r == self@.len(),
    {
        self.widgets.len()
    }

    /// Adds a control at the end.
    pub fn add_widget(&mut self, w: W)
        ensures
            final(self)@ == old(self)@.push(w@),
    {
        self.widgets.push(w);
        assert(views_of(self.widgets@) =~= views_of(old(self).widgets@).push(w@));
    }
}

impl<M, W: Widget<M>> Widget<M> for Panel<W> {
    open spec fn after(s: Seq<W::V>, input: Seq<M>) -> Seq<W::V> {
        run_all::<M, W>(s, input).0
    }

    open spec fn left(s: Seq<W::V>, input: Seq<M>) -> Seq<M> {
        run_all::<M, W>(s, input).1
    }

    open spec fn sent(s: Seq<W::V>, input: Seq<M>) -> Seq<M> {
        run_all::<M, W>(s, input).2
    }

    fn handle(&mut self, input: &mut Pool<M>, output: &mut Pool<M>) {
        handle_all(&mut self.widgets, input, output);
    }
}

/// Builds a panel.
pub struct Builder<W> {
    panel: Panel<W>,
}

impl<W: View> Builder<W> {
    pub fn new() -> (r: Self)
        ensures
            r@ == Seq::<W::V>::empty(),
    {
        Builder { panel: Panel::new() }
    }

    pub closed spec fn view(&self) -> Seq<W::V> {
        self.panel@
    }

    pub fn add_widget(self, w: W) -> (r: Self)
        ensures
            r@ == self@.push(w@),
    {
        let mut b = self;
        b.panel.add_widget(w);
        b
    }

    pub fn build(self) -> (r: Panel<W>)
        ensures
            r@ == self@,
    {
        self.panel
    }
}

} // verus!
