use vstd::prelude::*;
use crate::pool::Pool;
use crate::router::Widget;
use crate::gui::{views_of, run_all, handle_all};

verus! {

/// The top-level windows. Its handler runs those of the windows in the
/// order they were added.
pub struct WindowManager<W> {
    windows: Vec<W>,
}

impl<W: View> View for WindowManager<W> {
    type V = Seq<W::V>;

    closed spec fn view(&self) -> Seq<W::V> {
        views_of(self.windows@)
    }
}

impl<W: View> WindowManager<W> {
    pub fn new() -> (r: Self)
        ensures
            r@ == Seq::<W::V>::empty(),
    {
        let r = WindowManager { windows: Vec::new() };
        assert(views_of(r.windows@) =~= Seq::<W::V>::empty());
        r
    }

    pub fn len(&self) -> (r: usize)
        ensures
            r == self@.len(),
    {
        self.windows.len()
    }

    /// Adds a control at the end.
    pub fn add_window(&mut self, w: W)
        ensures
            final(self)@ == old(self)@.push(w@),
    {
        self.windows.push(w);
        assert(views_of(self.windows@) =~= views_of(old(self).windows@).push(w@));
    }
}

impl<M, W: Widget<M>> Widget<M> for WindowManager<W> {
    open spec fn after(s: Seq<W::V>, input: Seq<M>) -> Seq<W::V> {
        run_all::<M, W>(s, input).0
    }

    open spec fn left(s: Seq<W::V>, input: Seq<M>) -> Seq<M> {
        run_all::<M, W>(s, input).1
    }

    open spec fn sent(s: Seq<W::V>, input: Seq<M>) -> Seq<M> {
        run_all::<M, W>(s, input).2
    }

    fn handle(&mut self, input: &mut Pool<M>, output: &mut Pool<M>) {
        handle_all(&mut self.windows, input, output);
    }
}

} // verus!
