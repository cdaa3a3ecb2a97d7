//! The controls of the toolkit, the message type they share, and the
//! containers that compose their handlers.

pub mod button;
pub mod checkbox;
pub mod handlers;
pub mod ribbon;
pub mod panel;
pub mod grid;
pub mod window_manager;
pub mod radio_group;
pub mod radio_panel;




use vstd::prelude::*;
use crate::pool::Pool;
use crate::request::{CtrlId, Unpack, QR};
use crate::router::{Envelope, Widget};
use crate::gui::button::{Frontend, ButtonView};
use crate::gui::checkbox::{Checkbox, CheckboxView};

verus! {

/// The events of a check box: a command to set its state, a request for its
/// state, a click delivered by pointer dispatch, and the notification that it
/// was pressed.
#[derive(PartialEq, Eq, Clone, Copy, Debug)]
pub enum CheckboxEvent {
    SetState(bool),
    State(QR<(), bool>),
    Click,
    Pressed,
}

/// The events of a push button: a request for whether it is held down, a
/// click delivered by pointer dispatch, and the notification that it was
/// pressed.
#[derive(PartialEq, Eq, Clone, Copy, Debug)]
pub enum ButtonEvent {
    Touched(QR<(), bool>),
    Click,
    Pressed,
}

/// The message type that the toolkit's controls share: one variant per kind
/// of control, each with the control's slot and its event.
#[derive(PartialEq, Eq, Clone, Copy, Debug)]
pub enum Msg {
    Button(u64, ButtonEvent),
    Checkbox(u64, CheckboxEvent),
}

impl Default for CheckboxEvent {
    fn default() -> (r: Self)
        ensures
            r == CheckboxEvent::Pressed,
    {
        CheckboxEvent::Pressed
    }
}

impl Default for ButtonEvent {
    fn default() -> (r: Self)
        ensures
            r == ButtonEvent::Pressed,
    {
        ButtonEvent::Pressed
    }
}

impl Unpack<CheckboxEvent> for Msg {
    open spec fn channel(&self) -> Option<u64> {
        match self {
            Msg::Checkbox(s, _) => Some(*s),
            _ => None,
        }
    }

    open spec fn event(&self) -> CheckboxEvent {
        match self {
            Msg::Checkbox(_, e) => *e,
            _ => CheckboxEvent::Pressed,
        }
    }

    open spec fn packed(slot: u64, e: CheckboxEvent) -> Self {
        Msg::Checkbox(slot, e)
    }

    proof fn lemma_packed(slot: u64, e: CheckboxEvent) {
    }

    fn pack(slot: u64, e: CheckboxEvent) -> (r: Self) {
        Msg::Checkbox(slot, e)
    }

    fn peek(&self, c: &CtrlId<Self, CheckboxEvent>) -> (r: Option<&CheckboxEvent>) {
        match self {
            Msg::Checkbox(s, e) => if *s == c.slot() {
                Some(e)
            } else {
                None
            },
            _ => None,
        }
    }

    fn unpack(self, c: &CtrlId<Self, CheckboxEvent>) -> (r: Result<CheckboxEvent, Self>) {
        match self {
            Msg::Checkbox(s, e) => if s == c.slot() {
                Ok(e)
            } else {
                Err(self)
            },
            _ => Err(self),
        }
    }
}

impl Unpack<ButtonEvent> for Msg {
    open spec fn channel(&self) -> Option<u64> {
        match self {
            Msg::Button(s, _) => Some(*s),
            _ => None,
        }
    }

    open spec fn event(&self) -> ButtonEvent {
        match self {
            Msg::Button(_, e) => *e,
            _ => ButtonEvent::Pressed,
        }
    }

    open spec fn packed(slot: u64, e: ButtonEvent) -> Self {
        Msg::Button(slot, e)
    }

    proof fn lemma_packed(slot: u64, e: ButtonEvent) {
    }

    fn pack(slot: u64, e: ButtonEvent) -> (r: Self) {
        Msg::Button(slot, e)
    }

    fn peek(&self, c: &CtrlId<Self, ButtonEvent>) -> (r: Option<&ButtonEvent>) {
        match self {
            Msg::Button(s, e) => if *s == c.slot() {
                Some(e)
            } else {
                None
            },
            _ => None,
        }
    }

    fn unpack(self, c: &CtrlId<Self, ButtonEvent>) -> (r: Result<ButtonEvent, Self>) {
        match self {
            Msg::Button(s, e) => if s == c.slot() {
                Ok(e)
            } else {
                Err(self)
            },
            _ => Err(self),
        }
    }
}

impl Envelope<(), bool> for CheckboxEvent {
    open spec fn answer(&self) -> Option<bool> {
        match self {
            CheckboxEvent::State(QR::Response(b)) => Some(*b),
            _ => None,
        }
    }

    open spec fn asking(q: ()) -> Self {
        CheckboxEvent::State(QR::Query(()))
    }

    proof fn lemma_asking_unanswered(q: ()) {
    }

    fn ask(q: ()) -> (r: Self) {
        CheckboxEvent::State(QR::Query(()))
    }

    fn is_answer(&self) -> (r: bool) {
        match self {
            CheckboxEvent::State(QR::Response(_)) => true,
            _ => false,
        }
    }

    fn into_answer(self) -> (r: Result<bool, Self>) {
        match self {
            CheckboxEvent::State(QR::Response(b)) => Ok(b),
            _ => Err(self),
        }
    }
}

impl Envelope<(), bool> for ButtonEvent {
    open spec fn answer(&self) -> Option<bool> {
        match self {
            ButtonEvent::Touched(QR::Response(b)) => Some(*b),
            _ => None,
        }
    }

    open spec fn asking(q: ()) -> Self {
        ButtonEvent::Touched(QR::Query(()))
    }

    proof fn lemma_asking_unanswered(q: ()) {
    }

    fn ask(q: ()) -> (r: Self) {
        ButtonEvent::Touched(QR::Query(()))
    }

    fn is_answer(&self) -> (r: bool) {
        match self {
            ButtonEvent::Touched(QR::Response(_)) => true,
            _ => false,
        }
    }

    fn into_answer(self) -> (r: Result<bool, Self>) {
        match self {
            ButtonEvent::Touched(QR::Response(b)) => Ok(b),
            _ => Err(self),
        }
    }
}

/// The views of the controls `ws`, in order.
pub open spec fn views_of<W: View>(ws: Seq<W>) -> Seq<W::V> {
    ws.map_values(|w: W| w@)
}

/// What handing the input to each of the controls `ws` in turn does: their
/// states after the tick, what is left of the input after the last one, and
/// what they send, in order.
pub open spec fn run_all<M, W: Widget<M>>(ws: Seq<W::V>, input: Seq<M>) -> (Seq<W::V>, Seq<M>, Seq<M>)
    decreases ws.len(),
{
    if ws.len() == 0 {
        (Seq::empty(), input, Seq::empty())
    } else {
        let (vs, left, sent) = run_all::<M, W>(ws.drop_last(), input);
        let w = ws.last();
        (vs.push(W::after(w, left)), W::left(w, left), sent + W::sent(w, left))
    }
}

/// Runs the handler of each control of `widgets`, in declaration order; the
/// input each one leaves is the next one's input.
pub fn handle_all<M, W: Widget<M>>(widgets: &mut Vec<W>, input: &mut Pool<M>, output: &mut Pool<M>)
    ensures
        views_of(final(widgets)@) == run_all::<M, W>(views_of(old(widgets)@), old(input)@).0,
        final(input)@ == run_all::<M, W>(views_of(old(widgets)@), old(input)@).1,
        final(output)@ == old(output)@ + run_all::<M, W>(views_of(old(widgets)@), old(input)@).2,
{
    let ghost orig = views_of(widgets@);
    let ghost in0 = input@;
    let ghost out0 = output@;
    let mut rest: Vec<W> = Vec::new();
    std::mem::swap(widgets, &mut rest);
    let ghost n = rest@.len();
    let ghost mut i: int = 0;
    proof {
        assert(orig.subrange(0, 0) =~= Seq::<W::V>::empty());
        assert(views_of(widgets@) =~= Seq::<W::V>::empty());
        assert(out0 + Seq::<M>::empty() =~= out0);
    }
    while rest.len() > 0
        invariant
            0 <= i <= n,
            n == orig.len(),
            views_of(rest@) == orig.subrange(i, n as int),
            views_of(widgets@) == run_all::<M, W>(orig.subrange(0, i), in0).0,
            input@ == run_all::<M, W>(orig.subrange(0, i), in0).1,
            output@ == out0 + run_all::<M, W>(orig.subrange(0, i), in0).2,
        decreases rest.len(),
    {
        let ghost rv = rest@;
        proof {
            assert(views_of(rv).len() == rv.len());
            assert(orig.subrange(i, n as int).len() == n - i);
            assert(i < n);
        }
        let mut w = rest.remove(0);
        proof {
            assert(views_of(rv)[0] == w@);
            assert(orig.subrange(i, n as int)[0] == orig[i]);
            assert(w@ == orig[i]);
            assert(rest@ =~= rv.subrange(1, rv.len() as int));
            assert(views_of(rest@) =~= views_of(rv).subrange(1, rv.len() as int));
            assert(views_of(rest@) =~= orig.subrange(i + 1, n as int));
            assert(orig.subrange(0, i + 1).drop_last() =~= orig.subrange(0, i));
            assert(orig.subrange(0, i + 1).last() == orig[i]);
        }
        let ghost wv = w@;
        w.handle(input, output);
        let ghost wl = widgets@;
        widgets.push(w);
        proof {
            let (vs, left, sent) = run_all::<M, W>(orig.subrange(0, i), in0);
            assert(views_of(widgets@) =~= views_of(wl).push(w@));
            assert(output@ =~= out0 + (sent + W::sent(wv, left)));
            i = i + 1;
        }
    }
    proof {
        assert(orig.subrange(0, i) =~= orig);
    }
}

/// A control of either kind, so that one container can hold both.
pub enum Control {
    Button(Frontend),
    Checkbox(Checkbox),
}

/// What a control of either kind is.
pub enum ControlView {
    Button(ButtonView),
    Checkbox(CheckboxView),
}

impl View for Control {
    type V = ControlView;

    open spec fn view(&self) -> ControlView {
        match self {
            Control::Button(b) => ControlView::Button(b@),
            Control::Checkbox(c) => ControlView::Checkbox(c@),
        }
    }
}

impl Widget<Msg> for Control {
    open spec fn after(s: ControlView, input: Seq<Msg>) -> ControlView {
        match s {
            ControlView::Button(b) => ControlView::Button(Frontend::after(b, input)),
            ControlView::Checkbox(c) => ControlView::Checkbox(Checkbox::after(c, input)),
        }
    }

    open spec fn left(s: ControlView, input: Seq<Msg>) -> Seq<Msg> {
        match s {
            ControlView::Button(b) => Frontend::left(b, input),
            ControlView::Checkbox(c) => Checkbox::left(c, input),
        }
    }

    open spec fn sent(s: ControlView, input: Seq<Msg>) -> Seq<Msg> {
        match s {
            ControlView::Button(b) => Frontend::sent(b, input),
            ControlView::Checkbox(c) => Checkbox::sent(c, input),
        }
    }

    fn handle(&mut self, input: &mut Pool<Msg>, output: &mut Pool<Msg>) {
        match self {
            Control::Button(b) => b.handle(input, output),
            Control::Checkbox(c) => c.handle(input, output),
        }
    }
}

/// A button builder for the button at slot `slot`.
pub fn button(slot: u64) -> (r: button::Builder)
    ensures
        r@.id@ == slot,
        r@.back.label.len() == 0,
        r@.back.on_click.len() == 0,
        r@.back.handlers.len() == 0,
        r@.back.pending.len() == 0,
        !r@.back.touched,
{
    button::Builder::new(slot)
}

/// An empty ribbon builder, horizontal.
pub fn ribbon<W: View>() -> (r: ribbon::Builder<W>)
    ensures
        r@.widgets.len() == 0,
        r@.horizontal,
{
    ribbon::Builder::new()
}

/// An empty ribbon builder that lays its controls out in a row.
pub fn row<W: View>() -> (r: ribbon::Builder<W>)
    ensures
        r@.widgets.len() == 0,
        r@.horizontal,
{
    ribbon::Builder::new().set_horizontal(true)
}

/// An empty ribbon builder that lays its controls out in a column.
pub fn column<W: View>() -> (r: ribbon::Builder<W>)
    ensures
        r@.widgets.len() == 0,
        !r@.horizontal,
{
    ribbon::Builder::new().set_horizontal(false)
}

/// An empty panel builder.
pub fn panel<W: View>() -> (r: panel::Builder<W>)
    ensures
        r@.len() == 0,
{
    panel::Builder::new()
}

/// Whether two handles address the same control.
pub fn is_same<MSG, EVT>(a: &CtrlId<MSG, EVT>, b: &CtrlId<MSG, EVT>) -> (r: bool)
    ensures
        r == (a@ == b@),
{
    a.slot() == b.slot()
}

} // verus!
