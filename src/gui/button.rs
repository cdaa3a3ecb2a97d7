use vstd::prelude::*;
use crate::pool::{Pool, selected, rejected};
use crate::request::{CtrlId, QR, query_by_ctrlid, events_of};
use crate::router::Widget;
use crate::gui::{Msg, ButtonEvent};
use crate::gui::handlers::{Handlers, HandlerId, fired, without};

verus! {

/// Reading and writing a control's text.
pub trait ILabel {
    spec fn text(&self) -> Seq<char>;

    fn get_label(&self) -> (r: String)
        ensures
            r@ == self.text(),
    ;

    fn set_label(&mut self, label: String)
        ensures
            final(self).text() == label@,
    ;
}

/// What a button's state is: its text, whether it is held down, the
/// handlers it fires on a click, the registry they are kept in, and the
/// messages fired and not yet sent.
pub struct BackendView {
    pub label: Seq<char>,
    pub touched: bool,
    pub on_click: Seq<HandlerId>,
    pub handlers: Seq<(HandlerId, Msg)>,
    pub pending: Seq<Msg>,
}

/// The state of a push button, apart from its address.
pub struct Backend {
    label: String,
    touched: bool,
    on_click_handlers: Vec<HandlerId>,
    handlers: Handlers<Msg>,
}

impl View for Backend {
    type V = BackendView;

    closed spec fn view(&self) -> BackendView {
        BackendView {
            label: self.label@,
            touched: self.touched,
            on_click: self.on_click_handlers@,
            handlers: self.handlers.stored(),
            pending: self.handlers.pending(),
        }
    }
}

/// The click handler ids `s` with `hid` among them: each id is kept once,
/// in the order it was first added.
pub open spec fn with_id(s: Seq<HandlerId>, hid: HandlerId) -> Seq<HandlerId> {
    if s.contains(hid) {
        s
    } else {
        s.push(hid)
    }
}

/// Whether `hid` is among the ids `v`.
fn contains_id(v: &Vec<HandlerId>, hid: HandlerId) -> (r: bool)
    ensures
        r == v@.contains(hid),
{
    let mut i: usize = 0;
    while i < v.len()
        invariant
            0 <= i <= v@.len(),
            forall|j: int| 0 <= j < i ==> v@[j] != hid,
        decreases v@.len() - i,
    {
        if v[i] == hid {
            return true;
        }
        i = i + 1;
    }
    false
}

/// Pressing a button.
pub trait IButton {
    /// The button's state.
    spec fn model(&self) -> BackendView;

    fn set_touched(&mut self, state: bool)
        ensures
            final(self).model() == (BackendView { touched: state, ..old(self).model() }),
    ;

    fn is_touched(&self) -> (r: bool)
        ensures
            r == self.model().touched,
    ;

    /// Fires the click handlers, in the order they were added.
    fn click(&mut self)
        ensures
            final(self).model() == (BackendView {
                pending: old(self).model().pending + fired(old(self).model().handlers, old(self).model().on_click),
                ..old(self).model()
            }),
    ;

    /// Adds `m` as a click handler under `hid`, replacing what was kept
    /// under that id. An id fires once per click, in the place where it was
    /// first added.
    fn on_click(&mut self, hid: HandlerId, m: Msg)
        ensures
            final(self).model() == (BackendView {
                on_click: with_id(old(self).model().on_click, hid),
                handlers: without(old(self).model().handlers, hid).push((hid, m)),
                ..old(self).model()
            }),
    ;
}

impl Backend {
    pub fn new() -> (r: Self)
        ensures
            r@ == (BackendView {
                label: Seq::empty(),
                touched: false,
                on_click: Seq::empty(),
                handlers: Seq::empty(),
                pending: Seq::empty(),
            }),
    {
        Backend {
            label: String::new(),
            touched: false,
            on_click_handlers: Vec::new(),
            handlers: Handlers::new(),
        }
    }

    /// Fires the click handlers, in the order they were added.
    pub fn fire_click(&mut self)
        ensures
            final(self)@ == (BackendView {
                pending: old(self)@.pending + fired(old(self)@.handlers, old(self)@.on_click),
                ..old(self)@
            }),
    {
        self.handlers.fire_handlers(&self.on_click_handlers);
    }

    /// Adds `m` as a click handler under `hid`, replacing what was kept
    /// under that id. An id fires once per click, in the place where it was
    /// first added.
    pub fn add_click_handler(&mut self, hid: HandlerId, m: Msg)
        ensures
            final(self)@ == (BackendView {
                on_click: with_id(old(self)@.on_click, hid),
                handlers: without(old(self)@.handlers, hid).push((hid, m)),
                ..old(self)@
            }),
    {
        if !contains_id(&self.on_click_handlers, hid) {
            self.on_click_handlers.push(hid);
        }
        self.handlers.add_handler(hid, m);
    }

    /// Drops the handler kept under `hid`.
    pub fn remove_handler(&mut self, hid: HandlerId)
        ensures
            final(self)@ == (BackendView { handlers: without(old(self)@.handlers, hid), ..old(self)@ }),
    {
        self.handlers.unregister(hid);
    }

    /// Takes out the messages fired and not yet sent.
    pub fn collect_fired_handlers(&mut self) -> (r: Vec<Msg>)
        ensures
            r@ == old(self)@.pending,
            final(self)@ == (BackendView { pending: Seq::empty(), ..old(self)@ }),
    {
        self.handlers.take_fired()
    }
}

impl ILabel for Backend {
    open spec fn text(&self) -> Seq<char> {
        self@.label
    }

    fn get_label(&self) -> (r: String) {
        self.label.clone()
    }

    fn set_label(&mut self, label: String) {
        self.label = label;
    }
}

impl IButton for Backend {
    open spec fn model(&self) -> BackendView {
        self@
    }

    fn set_touched(&mut self, state: bool) {
        self.touched = state;
    }

    fn is_touched(&self) -> (r: bool) {
        self.touched
    }

    fn click(&mut self) {
        self.fire_click();
    }

    fn on_click(&mut self, hid: HandlerId, m: Msg) {
        self.add_click_handler(hid, m);
    }
}

/// Takes out the messages that the button's fired handlers left behind.
pub fn collect_fired_actions(widget: &mut Backend) -> (r: Vec<Msg>)
    ensures
        r@ == old(widget)@.pending,
        final(widget)@ == (BackendView { pending: Seq::empty(), ..old(widget)@ }),
{
    widget.collect_fired_handlers()
}

/// What a push button is: its address and its state.
pub struct ButtonView {
    pub id: CtrlId<Msg, ButtonEvent>,
    pub back: BackendView,
}

/// What one event does to a button, and what it sends.
pub open spec fn button_step(v: ButtonView, e: ButtonEvent) -> (ButtonView, Seq<Msg>) {
    match e {
        ButtonEvent::Touched(QR::Query(_)) => (
            v,
            seq![Msg::Button(v.id@, ButtonEvent::Touched(QR::Response(v.back.touched)))],
        ),
        ButtonEvent::Click => (
            ButtonView { back: BackendView { pending: Seq::empty(), ..v.back }, ..v },
            seq![Msg::Button(v.id@, ButtonEvent::Pressed)] + v.back.pending + fired(
                v.back.handlers,
                v.back.on_click,
            ),
        ),
        _ => (v, Seq::empty()),
    }
}

/// What the events `evs`, in order, do to a button, and what it sends.
pub open spec fn button_run(v: ButtonView, evs: Seq<ButtonEvent>) -> (ButtonView, Seq<Msg>)
    decreases evs.len(),
{
    if evs.len() == 0 {
        (v, Seq::empty())
    } else {
        let (v1, o1) = button_run(v, evs.drop_last());
        let (v2, o2) = button_step(v1, evs.last());
        (v2, o1 + o2)
    }
}

/// A push button. Each tick it takes the events addressed to it, in order:
/// it answers whether it is held down, and on a click sends the pressed
/// notification and the messages of its click handlers.
pub struct Frontend {
    id: CtrlId<Msg, ButtonEvent>,
    back: Backend,
}

impl View for Frontend {
    type V = ButtonView;

    closed spec fn view(&self) -> ButtonView {
        ButtonView { id: self.id, back: self.back@ }
    }
}

impl Frontend {
    /// The button's state.
    pub fn backend(&self) -> (r: &Backend)
        ensures
            r@ == self@.back,
    {
        &self.back
    }

    /// Holds the button down or lets it go, as pointer dispatch tells.
    pub fn set_touched(&mut self, state: bool)
        ensures
            final(self)@ == (ButtonView { back: BackendView { touched: state, ..old(self)@.back }, ..old(self)@ }),
    {
        self.back.touched = state;
    }

    /// The address of this button.
    pub fn ctrl_id(&self) -> (r: CtrlId<Msg, ButtonEvent>)
        ensures
            r@ == self@.id@,
    {
        self.id.copy()
    }

    fn apply(&mut self, e: ButtonEvent, output: &mut Pool<Msg>)
        ensures
            final(self)@ == button_step(old(self)@, e).0,
            final(output)@ == old(output)@ + button_step(old(self)@, e).1,
    {
        match e {
            ButtonEvent::Touched(QR::Query(_)) => {
                output.push(Msg::Button(self.id.slot(), ButtonEvent::Touched(QR::Response(self.back.touched))));
                assert(final(output)@ =~= old(output)@ + button_step(old(self)@, e).1);
            },
            ButtonEvent::Click => {
                output.push(Msg::Button(self.id.slot(), ButtonEvent::Pressed));
                self.back.fire_click();
                let fired = collect_fired_actions(&mut self.back);
                let mut rest = Pool::from_vec(fired);
                output.append(&mut rest);
                assert(final(output)@ =~= old(output)@ + button_step(old(self)@, e).1);
            },
            _ => {
                assert(old(output)@ + Seq::<Msg>::empty() =~= old(output)@);
            },
        }
    }
}

impl Widget<Msg> for Frontend {
    open spec fn after(s: ButtonView, input: Seq<Msg>) -> ButtonView {
        button_run(s, events_of::<Msg, ButtonEvent>(selected(input, s.id))).0
    }

    open spec fn left(s: ButtonView, input: Seq<Msg>) -> Seq<Msg> {
        rejected(input, s.id)
    }

    open spec fn sent(s: ButtonView, input: Seq<Msg>) -> Seq<Msg> {
        button_run(s, events_of::<Msg, ButtonEvent>(selected(input, s.id))).1
    }

    fn handle(&mut self, input: &mut Pool<Msg>, output: &mut Pool<Msg>) {
        let ghost v0 = self@;
        let ghost out0 = output@;
        let evs = query_by_ctrlid(input, &self.id);
        let ghost all = evs@;
        let mut i: usize = 0;
        proof {
            assert(all.subrange(0, 0) =~= Seq::<ButtonEvent>::empty());
            assert(out0 + Seq::<Msg>::empty() =~= out0);
        }
        while i < evs.len()
            invariant
                0 <= i <= all.len(),
                evs@ == all,
                self@.id == v0.id,
                self@ == button_run(v0, all.subrange(0, i as int)).0,
                output@ == out0 + button_run(v0, all.subrange(0, i as int)).1,
            decreases all.len() - i,
        {
            let e = evs[i];
            self.apply(e, output);
            proof {
                assert(all.subrange(0, i + 1).drop_last() =~= all.subrange(0, i as int));
                assert(all.subrange(0, i + 1).last() == e);
                let (va, oa) = button_run(v0, all.subrange(0, i as int));
                let (vb, ob) = button_step(va, e);
                assert(output@ =~= out0 + (oa + ob));
            }
            i = i + 1;
        }
        proof {
            assert(all.subrange(0, i as int) =~= all);
        }
    }
}

/// Builds a push button.
pub struct Builder {
    front: Frontend,
}

impl Builder {
    /// A button at slot `slot`, with no text and no handlers.
    pub fn new(slot: u64) -> (r: Self)
        ensures
            r@.id@ == slot,
            r@.back == (BackendView {
                label: Seq::empty(),
                touched: false,
                on_click: Seq::empty(),
                handlers: Seq::empty(),
                pending: Seq::empty(),
            }),
    {
        Builder { front: Frontend { id: CtrlId::new(slot), back: Backend::new() } }
    }

    pub closed spec fn view(&self) -> ButtonView {
        self.front@
    }

    pub fn set_label(self, label: String) -> (r: Self)
        ensures
            r@ == (ButtonView { back: BackendView { label: label@, ..self@.back }, ..self@ }),
    {
        let mut b = self;
        b.front.back.label = label;
        b
    }

    /// Adds `m` as a message to send on each click, under `hid`, replacing
    /// what was kept under that id.
    pub fn on_click(self, hid: HandlerId, m: Msg) -> (r: Self)
        ensures
            r@ == (ButtonView {
                back: BackendView {
                    on_click: with_id(self@.back.on_click, hid),
                    handlers: without(self@.back.handlers, hid).push((hid, m)),
                    ..self@.back
                },
                ..self@
            }),
    {
        let mut b = self;
        b.front.back.add_click_handler(hid, m);
        b
    }

    pub fn build(self) -> (r: Frontend)
        ensures
            r@ == self@,
    {
        self.front
    }
}

} // verus!
