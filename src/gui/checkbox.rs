use vstd::prelude::*;
use crate::pool::{Pool, selected, rejected};
use crate::request::{CtrlId, QR, query_by_ctrlid, events_of};
use crate::router::Widget;
use crate::gui::{Msg, CheckboxEvent};
use crate::gui::handlers::{Handlers, HandlerId, registered, without};

verus! {

/// Reading and writing the on/off state of a control.
pub trait ICheckbox {
    spec fn checked(&self) -> bool;

    fn get_state(&self) -> (r: bool)
        ensures
            r == self.checked(),
    ;

    fn set_state(&mut self, state: bool)
        ensures
            final(self).checked() == state,
    ;
}

/// What a check box is: its address, its state, and the handlers that fire
/// when a click changes the state.
pub struct CheckboxView {
    pub id: CtrlId<Msg, CheckboxEvent>,
    pub state: bool,
    pub handlers: Seq<(HandlerId, Msg)>,
}

/// What one event does to a check box, and what it sends.
pub open spec fn checkbox_step(v: CheckboxView, e: CheckboxEvent) -> (CheckboxView, Seq<Msg>) {
    match e {
        CheckboxEvent::SetState(b) => (CheckboxView { state: b, ..v }, Seq::empty()),
        CheckboxEvent::State(QR::Query(_)) => (
            v,
            seq![Msg::Checkbox(v.id@, CheckboxEvent::State(QR::Response(v.state)))],
        ),
        CheckboxEvent::State(QR::Response(_)) => (v, Seq::empty()),
        CheckboxEvent::Click => (
            CheckboxView { state: !v.state, ..v },
            seq![Msg::Checkbox(v.id@, CheckboxEvent::Pressed)] + registered(v.handlers),
        ),
        CheckboxEvent::Pressed => (v, Seq::empty()),
    }
}

/// What the events `evs`, in order, do to a check box, and what it sends.
pub open spec fn checkbox_run(v: CheckboxView, evs: Seq<CheckboxEvent>) -> (CheckboxView, Seq<Msg>)
    decreases evs.len(),
{
    if evs.len() == 0 {
        (v, Seq::empty())
    } else {
        let (v1, o1) = checkbox_run(v, evs.drop_last());
        let (v2, o2) = checkbox_step(v1, evs.last());
        (v2, o1 + o2)
    }
}

/// A click reaching a check box in a tick of its own flips its state, and
/// the box sends the pressed notification and then its handlers' messages
/// to the output, for later ticks; nothing is left of the input.
pub proof fn lemma_click(v: CheckboxView)
    ensures
        ({
            let input = seq![Msg::Checkbox(v.id@, CheckboxEvent::Click)];
            &&& <Checkbox as Widget<Msg>>::after(v, input) == (CheckboxView { state: !v.state, ..v })
            &&& <Checkbox as Widget<Msg>>::left(v, input) == Seq::<Msg>::empty()
            &&& <Checkbox as Widget<Msg>>::sent(v, input) == seq![Msg::Checkbox(v.id@, CheckboxEvent::Pressed)]
                + registered(v.handlers)
        }),
{
    let input = seq![Msg::Checkbox(v.id@, CheckboxEvent::Click)];
    reveal_with_fuel(selected, 2);
    reveal_with_fuel(rejected, 2);
    reveal_with_fuel(checkbox_run, 2);
    assert(input.drop_last() =~= Seq::<Msg>::empty());
    assert(selected(input, v.id) == input);
    let evs = events_of::<Msg, CheckboxEvent>(input);
    assert(evs =~= seq![CheckboxEvent::Click]);
    assert(evs.drop_last() =~= Seq::<CheckboxEvent>::empty());
    let out = seq![Msg::Checkbox(v.id@, CheckboxEvent::Pressed)] + registered(v.handlers);
    assert(Seq::<Msg>::empty() + out =~= out);
}

/// An on/off control. Each tick it takes the events addressed to it, in
/// order: it sets its state on command, answers a query with its state, and
/// on a click flips its state, sends the pressed notification and fires its
/// handlers.
pub struct Checkbox {
    id: CtrlId<Msg, CheckboxEvent>,
    state: bool,
    handlers: Handlers<Msg>,
}

impl View for Checkbox {
    type V = CheckboxView;

    closed spec fn view(&self) -> CheckboxView {
        CheckboxView { id: self.id, state: self.state, handlers: self.handlers.stored() }
    }
}

impl Checkbox {
    fn new(slot: u64) -> (r: Self)
        ensures
            r@.id@ == slot,
            !r@.state,
            r@.handlers == Seq::<(HandlerId, Msg)>::empty(),
    {
        Checkbox { id: CtrlId::new(slot), state: false, handlers: Handlers::new() }
    }

    /// Whether the check box is on.
    pub fn is_checked(&self) -> (r: bool)
        ensures
            r == self@.state,
    {
        self.state
    }

    /// The address of this check box.
    pub fn ctrl_id(&self) -> (r: CtrlId<Msg, CheckboxEvent>)
        ensures
            r@ == self@.id@,
    {
        self.id.copy()
    }

    /// Registers `m` to be sent, under `hid`, whenever a click changes the
    /// state; what was registered under `hid` is replaced.
    pub fn on_changed(&mut self, hid: HandlerId, m: Msg)
        ensures
            final(self)@ == (CheckboxView {
                handlers: without(old(self)@.handlers, hid).push((hid, m)),
                ..old(self)@
            }),
    {
        self.handlers.add_handler(hid, m);
    }

    /// Drops the handler registered under `hid`.
    pub fn remove_handler(&mut self, hid: HandlerId)
        ensures
            final(self)@ == (CheckboxView { handlers: without(old(self)@.handlers, hid), ..old(self)@ }),
    {
        self.handlers.unregister(hid);
    }

    fn apply(&mut self, e: CheckboxEvent, output: &mut Pool<Msg>)
        ensures
            final(self)@ == checkbox_step(old(self)@, e).0,
            final(output)@ == old(output)@ + checkbox_step(old(self)@, e).1,
    {
        match e {
            CheckboxEvent::SetState(b) => {
                self.state = b;
                assert(old(output)@ + Seq::<Msg>::empty() =~= old(output)@);
            },
            CheckboxEvent::State(QR::Query(_)) => {
                output.push(Msg::Checkbox(self.id.slot(), CheckboxEvent::State(QR::Response(self.state))));
                assert(final(output)@ =~= old(output)@ + checkbox_step(old(self)@, e).1);
            },
            CheckboxEvent::Click => {
                self.state = !self.state;
                output.push(Msg::Checkbox(self.id.slot(), CheckboxEvent::Pressed));
                let fired = self.handlers.messages();
                let mut rest = Pool::from_vec(fired);
                output.append(&mut rest);
                assert(final(output)@ =~= old(output)@ + checkbox_step(old(self)@, e).1);
            },
            _ => {
                assert(old(output)@ + Seq::<Msg>::empty() =~= old(output)@);
            },
        }
    }
}

impl ICheckbox for Checkbox {
    open spec fn checked(&self) -> bool {
        self@.state
    }

    fn get_state(&self) -> (r: bool) {
        self.state
    }

    fn set_state(&mut self, state: bool) {
        self.state = state;
    }
}

impl Widget<Msg> for Checkbox {
    open spec fn after(s: CheckboxView, input: Seq<Msg>) -> CheckboxView {
        checkbox_run(s, events_of::<Msg, CheckboxEvent>(selected(input, s.id))).0
    }

    open spec fn left(s: CheckboxView, input: Seq<Msg>) -> Seq<Msg> {
        rejected(input, s.id)
    }

    open spec fn sent(s: CheckboxView, input: Seq<Msg>) -> Seq<Msg> {
        checkbox_run(s, events_of::<Msg, CheckboxEvent>(selected(input, s.id))).1
    }

    fn handle(&mut self, input: &mut Pool<Msg>, output: &mut Pool<Msg>) {
        let ghost v0 = self@;
        let ghost out0 = output@;
        let evs = query_by_ctrlid(input, &self.id);
        let ghost all = evs@;
        let mut i: usize = 0;
        proof {
            assert(all.subrange(0, 0) =~= Seq::<CheckboxEvent>::empty());
            assert(out0 + Seq::<Msg>::empty() =~= out0);
        }
        while i < evs.len()
            invariant
                0 <= i <= all.len(),
                evs@ == all,
                self@.id == v0.id,
                self@ == checkbox_run(v0, all.subrange(0, i as int)).0,
                output@ == out0 + checkbox_run(v0, all.subrange(0, i as int)).1,
            decreases all.len() - i,
        {
            let e = evs[i];
            self.apply(e, output);
            proof {
                assert(all.subrange(0, i + 1).drop_last() =~= all.subrange(0, i as int));
                assert(all.subrange(0, i + 1).last() == e);
                let (va, oa) = checkbox_run(v0, all.subrange(0, i as int));
                let (vb, ob) = checkbox_step(va, e);
                assert(output@ =~= out0 + (oa + ob));
            }
            i = i + 1;
        }
        proof {
            assert(all.subrange(0, i as int) =~= all);
        }
    }
}

/// Builds a check box.
pub struct CheckboxBuilder {
    checkbox: Checkbox,
}

impl CheckboxBuilder {
    /// A check box at slot `slot`, off, with no handlers.
    pub fn new(slot: u64) -> (r: Self)
        ensures
            r@.id@ == slot,
            !r@.state,
            r@.handlers == Seq::<(HandlerId, Msg)>::empty(),
    {
        CheckboxBuilder { checkbox: Checkbox::new(slot) }
    }

    pub closed spec fn view(&self) -> CheckboxView {
        self.checkbox@
    }

    /// Sets the state the check box starts in.
    pub fn set_state(self, state: bool) -> (r: Self)
        ensures
            r@ == (CheckboxView { state, ..self@ }),
    {
        let mut b = self;
        b.checkbox.state = state;
        b
    }

    pub fn build(self) -> (r: Checkbox)
        ensures
            r@ == self@,
    {
        self.checkbox
    }
}

} // verus!
