use vstd::prelude::*;
use crate::pool::Pool;
use crate::router::Widget;
use crate::gui::{views_of, run_all, handle_all};

verus! {

/// What a ribbon is: its controls, in order, and its direction.
pub struct RibbonView<V> {
    pub widgets: Seq<V>,
    pub horizontal: bool,
}

/// A row or a column of controls. Its handler runs theirs in order.
pub struct Ribbon<W> {
    widgets: Vec<W>,
    horizontal: bool,
}

impl<W: View> View for Ribbon<W> {
    type V = RibbonView<W::V>;

    closed spec fn view(&self) -> RibbonView<W::V> {
        RibbonView { widgets: views_of(self.widgets@), horizontal: self.horizontal }
    }
}

impl<W: View> Ribbon<W> {
    fn new() -> (r: Self)
        ensures
            r@ == (RibbonView::<W::V> { widgets: Seq::empty(), horizontal: true }),
    {
        let r = Ribbon { widgets: Vec::new(), horizontal: true };
        assert(views_of(r.widgets@) =~= Seq::<W::V>::empty());
        r
    }

    pub fn set_horizontal(&mut self, horizontal: bool)
        ensures
            final(self)@ == (RibbonView { horizontal, ..old(self)@ }),
    {
        self.horizontal = horizontal;
    }

    pub fn is_horizontal(&self) -> (r: bool)
        ensures
            r == self@.horizontal,
    {
        self.horizontal
    }

    pub fn len(&self) -> (r: usize)
        ensures
            r == self@.widgets.len(),
    {
        self.widgets.len()
    }

    /// The control at position `i`.
    pub fn get(&self, i: usize) -> (r: &W)
        requires
            i < self@.widgets.len(),
        ensures
            r@ == self@.widgets[i as int],
    {
        &self.widgets[i]
    }

    /// Adds a control at the end.
    pub fn add_widget(&mut self, widget: W)
        ensures
            final(self)@ == (RibbonView { widgets: old(self)@.widgets.push(widget@), ..old(self)@ }),
    {
        self.widgets.push(widget);
        assert(views_of(self.widgets@) =~= views_of(old(self).widgets@).push(widget@));
    }

    /// Takes out the control at position `i`; the others keep their order.
    pub fn remove_widget(&mut self, i: usize) -> (r: W)
        requires
            i < old(self)@.widgets.len(),
        ensures
            r@ == old(self)@.widgets[i as int],
            final(self)@ == (RibbonView { widgets: old(self)@.widgets.remove(i as int), ..old(self)@ }),
    {
        let w = self.widgets.remove(i);
        assert(views_of(self.widgets@) =~= views_of(old(self).widgets@).remove(i as int));
        w
    }
}

impl<M, W: Widget<M>> Widget<M> for Ribbon<W> {
    open spec fn after(s: RibbonView<W::V>, input: Seq<M>) -> RibbonView<W::V> {
        RibbonView { widgets: run_all::<M, W>(s.widgets, input).0, ..s }
    }

    open spec fn left(s: RibbonView<W::V>, input: Seq<M>) -> Seq<M> {
        run_all::<M, W>(s.widgets, input).1
    }

    open spec fn sent(s: RibbonView<W::V>, input: Seq<M>) -> Seq<M> {
        run_all::<M, W>(s.widgets, input).2
    }

    fn handle(&mut self, input: &mut Pool<M>, output: &mut Pool<M>) {
        handle_all(&mut self.widgets, input, output);
    }
}

/// Builds a ribbon.
pub struct Builder<W> {
    ribbon: Ribbon<W>,
}

impl<W: View> Builder<W> {
    /// An empty horizontal ribbon.
    pub fn new() -> (r: Self)
        ensures
            r@ == (RibbonView::<W::V> { widgets: Seq::empty(), horizontal: true }),
    {
        Builder { ribbon: Ribbon::new() }
    }

    pub closed spec fn view(&self) -> RibbonView<W::V> {
        self.ribbon@
    }

    pub fn set_horizontal(self, horizontal: bool) -> (r: Self)
        ensures
            r@ == (RibbonView { horizontal, ..self@ }),
    {
        let mut b = self;
        b.ribbon.set_horizontal(horizontal);
        b
    }

    pub fn add_widget(self, w: W) -> (r: Self)
        ensures
            r@ == (RibbonView { widgets: self@.widgets.push(w@), ..self@ }),
    {
        let mut b = self;
        b.ribbon.add_widget(w);
        b
    }

    pub fn build(self) -> (r: Ribbon<W>)
        ensures
            r@ == self@,
    {
        self.ribbon
    }
}

} // verus!
