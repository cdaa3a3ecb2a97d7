use vstd::prelude::*;
use crate::pool::Pool;
use crate::router::Widget;
use crate::gui::{views_of, run_all, handle_all};

verus! {

/// Controls stacked in a column of cells. Its handler runs theirs in the
/// order they were added.
pub struct Grid<W> {
    widgets: Vec<W>,
}

impl<W: View> View for Grid<W> {
    type V = Seq<W::V>;

    closed spec fn view(&self) -> Seq<W::V> {
        views_of(self.widgets@)
    }
}

impl<W: View> Grid<W> {
    pub fn new() -> (r: Self)
        ensures
            r@ == Seq::<W::V>::empty(),
    {
        let r = Grid { widgets: Vec::new() };
        assert(views_of(r.widgets@) =~= Seq::<W::V>::empty());
        r
    }

    pub fn len(&self) -> (r: usize)
        ensures
            r == self@.len(),
    {
        self.widgets.len()
    }

    /// Adds a control at the end.
    pub fn add_widget(&mut self, w: W)
        ensures
            final(self)@ == old(self)@.push(w@),
    {
        self.widgets.push(w);
        assert(views_of(self.widgets@) =~= views_of(old(self).widgets@).push(w@));
    }
}

impl<M, W: Widget<M>> Widget<M> for Grid<W> {
    open spec fn after(s: Seq<W::V>, input: Seq<M>) -> Seq<W::V> {
        run_all::<M, W>(s, input).0
    }

    open spec fn left(s: Seq<W::V>, input: Seq<M>) -> Seq<M> {
        run_all::<M, W>(s, input).1
    }

    open spec fn sent(s: Seq<W::V>, input: Seq<M>) -> Seq<M> {
        run_all::<M, W>(s, input).2
    }

    fn handle(&mut self, input: &mut Pool<M>, output: &mut Pool<M>) {
        handle_all(&mut self.widgets, input, output);
    }
}

} // verus!
