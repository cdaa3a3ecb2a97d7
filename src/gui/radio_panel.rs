use vstd::prelude::*;
use vstd::string::StringExecFns;
use crate::pool::{Pool, Select, selected, rejected};
use crate::request::events_of;
use crate::request::CtrlId;
use crate::router::{Router, Widget, Stalled, run_outcome, Protocol};
use crate::gui::{Msg, ButtonEvent, CheckboxEvent, run_all};
use crate::gui::button::{Frontend, ButtonView, BackendView, Builder};
use crate::gui::checkbox::{Checkbox, CheckboxBuilder, CheckboxView, checkbox_run};
use crate::gui::ribbon::{Ribbon, RibbonView};
use crate::gui::radio_group::{RadioGroup, RadioGroupBuilder, RadioGroupView, first_pressed, other_than};
use crate::gui::views_of;

verus! {

/// The slot of the button that adds a radio.
pub const ADD_BUTTON: u64 = 0;

/// The slot of the button that removes the last radio.
pub const REMOVE_BUTTON: u64 = 1;

/// Selects the pressed notifications of the button at slot `at`.
pub struct ButtonPressed {
    pub at: u64,
}

impl Select<Msg> for ButtonPressed {
    open spec fn selects(&self, m: Msg) -> bool {
        m == Msg::Button(self.at, ButtonEvent::Pressed)
    }

    fn test(&self, m: &Msg) -> (r: bool) {
        match m {
            Msg::Button(s, ButtonEvent::Pressed) => *s == self.at,
            _ => false,
        }
    }
}

/// What the controls of a radio panel are: a row of radios above a row of
/// buttons.
pub struct PanelView {
    pub radios: RibbonView<CheckboxView>,
    pub buttons: RibbonView<ButtonView>,
}

/// The controls of a radio panel. Its handler runs the radios' first, then
/// the buttons'.
pub struct RadioPanelWidgets {
    radios: Ribbon<Checkbox>,
    buttons: Ribbon<Frontend>,
}

impl View for RadioPanelWidgets {
    type V = PanelView;

    closed spec fn view(&self) -> PanelView {
        PanelView { radios: self.radios@, buttons: self.buttons@ }
    }
}

impl Widget<Msg> for RadioPanelWidgets {
    open spec fn after(s: PanelView, input: Seq<Msg>) -> PanelView {
        PanelView {
            radios: <Ribbon<Checkbox> as Widget<Msg>>::after(s.radios, input),
            buttons: <Ribbon<Frontend> as Widget<Msg>>::after(
                s.buttons,
                <Ribbon<Checkbox> as Widget<Msg>>::left(s.radios, input),
            ),
        }
    }

    open spec fn left(s: PanelView, input: Seq<Msg>) -> Seq<Msg> {
        <Ribbon<Frontend> as Widget<Msg>>::left(s.buttons, <Ribbon<Checkbox> as Widget<Msg>>::left(s.radios, input))
    }

    open spec fn sent(s: PanelView, input: Seq<Msg>) -> Seq<Msg> {
        <Ribbon<Checkbox> as Widget<Msg>>::sent(s.radios, input) + <Ribbon<Frontend> as Widget<
            Msg,
        >>::sent(s.buttons, <Ribbon<Checkbox> as Widget<Msg>>::left(s.radios, input))
    }

    fn handle(&mut self, input: &mut Pool<Msg>, output: &mut Pool<Msg>) {
        let ghost o0 = output@;
        self.radios.handle(input, output);
        let ghost o1 = output@;
        self.buttons.handle(input, output);
        assert(output@ =~= o0 + (o1.subrange(o0.len() as int, o1.len() as int) + output@.subrange(
            o1.len() as int,
            output@.len() as int,
        )));
    }
}

/// What a radio panel is: its controls, its radio group, and the slot the
/// next radio gets.
pub struct RadioPanelView {
    pub widgets: PanelView,
    pub group: RadioGroupView,
    pub next_slot: u64,
}

/// A row of radios kept mutually exclusive by a radio group, with a button
/// that adds a radio and one that removes the last.
pub struct RadioPanel {
    widgets: RadioPanelWidgets,
    group: RadioGroup,
    next_slot: u64,
}

/// The check box that a new radio at slot `slot` is.
pub open spec fn fresh_radio(slot: u64) -> CheckboxView {
    CheckboxView { id: CtrlId { slot, marker: core::marker::PhantomData }, state: false, handlers: Seq::empty() }
}

/// The panel after adding a radio: a fresh one at the next slot, in the row
/// and in the group; nothing changes when the slots are used up.
pub open spec fn with_radio_added(v: RadioPanelView) -> RadioPanelView {
    if v.next_slot < u64::MAX {
        RadioPanelView {
            widgets: PanelView {
                radios: RibbonView { widgets: v.widgets.radios.widgets.push(fresh_radio(v.next_slot)), ..v.widgets.radios },
                ..v.widgets
            },
            group: RadioGroupView { radios: v.group.radios.push(v.next_slot), ..v.group },
            next_slot: (v.next_slot + 1) as u64,
        }
    } else {
        v
    }
}

/// The panel after removing the last radio: it leaves the row, its address
/// leaves the group, and a read in progress is given up; nothing changes when
/// there is no radio.
pub open spec fn with_radio_removed(v: RadioPanelView) -> RadioPanelView {
    if v.widgets.radios.widgets.len() > 0 {
        RadioPanelView {
            widgets: PanelView {
                radios: RibbonView { widgets: v.widgets.radios.widgets.drop_last(), ..v.widgets.radios },
                ..v.widgets
            },
            group: RadioGroupView {
                radios: v.group.radios.filter(other_than(v.widgets.radios.widgets.last().id@)),
                waiting: None,
            },
            ..v
        }
    } else {
        v
    }
}

/// The panel after `n` additions.
pub open spec fn with_radios_added(v: RadioPanelView, n: nat) -> RadioPanelView
    decreases n,
{
    if n == 0 {
        v
    } else {
        with_radio_added(with_radios_added(v, (n - 1) as nat))
    }
}

/// The panel after `n` removals.
pub open spec fn with_radios_removed(v: RadioPanelView, n: nat) -> RadioPanelView
    decreases n,
{
    if n == 0 {
        v
    } else {
        with_radio_removed(with_radios_removed(v, (n - 1) as nat))
    }
}

/// A button at slot `slot` with the text `label`, not held, with no
/// handlers.
pub open spec fn fresh_button(slot: u64, label: Seq<char>) -> ButtonView {
    ButtonView {
        id: CtrlId { slot, marker: core::marker::PhantomData },
        back: BackendView {
            label,
            touched: false,
            on_click: Seq::empty(),
            handlers: Seq::empty(),
            pending: Seq::empty(),
        },
    }
}

/// The slots of the check boxes `ws`, in order.
pub open spec fn slots_of(ws: Seq<CheckboxView>) -> Seq<u64> {
    ws.map_values(|c: CheckboxView| c.id@)
}

/// A radio panel is well formed when its group holds the slots of its row of
/// radios, in the same order, each slot once, all below the next slot.
pub open spec fn panel_wf(v: RadioPanelView) -> bool {
    &&& v.group.radios == slots_of(v.widgets.radios.widgets)
    &&& forall|i: int, j: int| 0 <= i < j < v.group.radios.len() ==> v.group.radios[i] != v.group.radios[j]
    &&& forall|i: int| 0 <= i < v.group.radios.len() ==> v.group.radios[i] < v.next_slot
}

/// Keeping what differs from `x` keeps everything when nothing is `x`.
proof fn lemma_filter_none(s: Seq<u64>, x: u64)
    requires
        forall|i: int| 0 <= i < s.len() ==> s[i] != x,
    ensures
        s.filter(other_than(x)) == s,
    decreases s.len(),
{
    reveal(Seq::filter);
    if s.len() > 0 {
        lemma_filter_none(s.drop_last(), x);
        assert(s.filter(other_than(x)) == s.drop_last().filter(other_than(x)).push(s.last()));
        assert(s.drop_last().push(s.last()) =~= s);
    } else {
        assert(s.filter(other_than(x)) == s);
    }
}

/// Adding a radio keeps a panel well formed.
proof fn lemma_added_wf(v: RadioPanelView)
    requires
        panel_wf(v),
    ensures
        panel_wf(with_radio_added(v)),
{
    if v.next_slot < u64::MAX {
        let w = with_radio_added(v);
        assert(slots_of(w.widgets.radios.widgets) =~= slots_of(v.widgets.radios.widgets).push(v.next_slot));
    }
}

/// Removing a radio keeps a panel well formed, and takes the group's last
/// radio out of the group.
proof fn lemma_removed_wf(v: RadioPanelView)
    requires
        panel_wf(v),
    ensures
        panel_wf(with_radio_removed(v)),
        v.group.radios.len() > 0 ==> with_radio_removed(v).group.radios == v.group.radios.drop_last(),
{
    let rs = v.group.radios;
    if v.widgets.radios.widgets.len() > 0 {
        let x = v.widgets.radios.widgets.last().id@;
        assert(rs.last() == x);
        lemma_filter_none(rs.drop_last(), x);
        reveal(Seq::filter);
        assert(rs.filter(other_than(x)) == rs.drop_last().filter(other_than(x)));
        let w = with_radio_removed(v);
        assert(w.group.radios == rs.drop_last());
        assert(slots_of(w.widgets.radios.widgets) =~= rs.drop_last());
    }
}

/// Events never change a check box's address.
proof fn lemma_run_keeps_id(v: CheckboxView, evs: Seq<CheckboxEvent>)
    ensures
        checkbox_run(v, evs).0.id == v.id,
    decreases evs.len(),
{
    if evs.len() > 0 {
        lemma_run_keeps_id(v, evs.drop_last());
    }
}

/// A tick keeps the slots of a row of check boxes.
proof fn lemma_tick_keeps_slots(ws: Seq<CheckboxView>, input: Seq<Msg>)
    ensures
        slots_of(run_all::<Msg, Checkbox>(ws, input).0) == slots_of(ws),
    decreases ws.len(),
{
    if ws.len() > 0 {
        lemma_tick_keeps_slots(ws.drop_last(), input);
        let (vs, left, sent) = run_all::<Msg, Checkbox>(ws.drop_last(), input);
        lemma_run_keeps_id(ws.last(), events_of::<Msg, CheckboxEvent>(selected(left, ws.last().id)));
        assert(slots_of(vs.push(Checkbox::after(ws.last(), left))) =~= slots_of(vs).push(ws.last().id@));
        assert(slots_of(ws) =~= slots_of(ws.drop_last()).push(ws.last().id@));
    }
}

/// Driving the group's protocol over the panel keeps the slots of the row
/// and the radios of the group.
proof fn lemma_run_keeps_slots(h: PanelView, s: RadioGroupView, pool: Seq<Msg>, left: nat, budget: u64)
    ensures
        ({
            let o = run_outcome::<Msg, RadioPanelWidgets, RadioGroup>(h, s, pool, left, budget);
            slots_of(o.1.radios.widgets) == slots_of(h.radios.widgets) && o.2.radios == s.radios
        }),
    decreases left,
{
    let (s1, p1, step) = RadioGroup::resumed(s, pool);
    if left > 0 {
        lemma_tick_keeps_slots(h.radios.widgets, p1);
        lemma_run_keeps_slots(RadioPanelWidgets::after(h, p1), s1, RadioPanelWidgets::sent(h, p1), (left - 1) as nat, budget);
    }
}

impl View for RadioPanel {
    type V = RadioPanelView;

    closed spec fn view(&self) -> RadioPanelView {
        RadioPanelView { widgets: self.widgets@, group: self.group@, next_slot: self.next_slot }
    }
}

impl RadioPanel {
    /// Three radios, at slots 0, 1 and 2, all off, and the two buttons.
    pub fn new() -> (r: Self)
        ensures
            r@.widgets.radios.widgets == seq![fresh_radio(0), fresh_radio(1), fresh_radio(2)],
            r@.widgets.radios.horizontal,
            r@.widgets.buttons.widgets == seq![
                fresh_button(ADD_BUTTON, "Add"@),
                fresh_button(REMOVE_BUTTON, "Remove"@),
            ],
            r@.widgets.buttons.horizontal,
            r@.group.radios == seq![0u64, 1u64, 2u64],
            r@.group.waiting is None,
            r@.next_slot == 3,
            panel_wf(r@),
    {
        let a = CheckboxBuilder::new(0).build();
        let b = CheckboxBuilder::new(1).build();
        let c = CheckboxBuilder::new(2).build();
        let group = RadioGroupBuilder::new().add_widget(a.ctrl_id()).add_widget(b.ctrl_id()).add_widget(
            c.ctrl_id(),
        ).build();
        let radios = crate::gui::row().add_widget(a).add_widget(b).add_widget(c).build();
        let add = Builder::new(ADD_BUTTON).set_label(String::from_str("Add")).build();
        let remove = Builder::new(REMOVE_BUTTON).set_label(String::from_str("Remove")).build();
        let buttons = crate::gui::row().add_widget(add).add_widget(remove).build();
        assert(group@.radios =~= seq![0u64, 1u64, 2u64]);
        assert(radios@.widgets =~= seq![fresh_radio(0), fresh_radio(1), fresh_radio(2)]);
        assert(slots_of(radios@.widgets) =~= seq![0u64, 1u64, 2u64]);
        assert(buttons@.widgets =~= seq![fresh_button(ADD_BUTTON, "Add"@), fresh_button(REMOVE_BUTTON, "Remove"@)]);
        RadioPanel { widgets: RadioPanelWidgets { radios, buttons }, group, next_slot: 3 }
    }

    /// The states of the radios, in order.
    pub fn radio_states(&self) -> (r: Vec<bool>)
        ensures
            r@ == self@.widgets.radios.widgets.map_values(|v: CheckboxView| v.state),
    {
        let mut out: Vec<bool> = Vec::new();
        let mut i: usize = 0;
        let n = self.widgets.radios.len();
        while i < n
            invariant
                0 <= i <= n,
                n == self@.widgets.radios.widgets.len(),
                out@ == self@.widgets.radios.widgets.subrange(0, i as int).map_values(|v: CheckboxView| v.state),
            decreases n - i,
        {
            let radio = self.widgets.radios.get(i);
            out.push(radio.is_checked());
            i = i + 1;
            proof {
                assert(out@ =~= self@.widgets.radios.widgets.subrange(0, i as int).map_values(
                    |v: CheckboxView| v.state,
                ));
            }
        }
        proof {
            assert(self@.widgets.radios.widgets.subrange(0, i as int) =~= self@.widgets.radios.widgets);
        }
        out
    }

    /// The radio group.
    pub fn group(&self) -> (r: &RadioGroup)
        ensures
            r@ == self@.group,
    {
        &self.group
    }

    /// Adds a radio, off, at the next slot, to the row and to the group.
    /// Nothing happens when the slots are used up.
    pub fn add_radio(&mut self) -> (r: bool)
        ensures
            r == (old(self)@.next_slot < u64::MAX),
            final(self)@ == with_radio_added(old(self)@),
            panel_wf(old(self)@) ==> panel_wf(final(self)@),
    {
        proof {
            if panel_wf(old(self)@) {
                lemma_added_wf(old(self)@);
            }
        }
        if self.next_slot == u64::MAX {
            return false;
        }
        let radio = CheckboxBuilder::new(self.next_slot).build();
        self.group.add_widget(radio.ctrl_id());
        self.widgets.radios.add_widget(radio);
        self.next_slot = self.next_slot + 1;
        true
    }

    /// Takes the last radio out of the row and its address out of the group.
    /// Nothing happens when there is no radio.
    pub fn remove_radio(&mut self) -> (r: bool)
        ensures
            r == (old(self)@.widgets.radios.widgets.len() > 0),
            final(self)@ == with_radio_removed(old(self)@),
            panel_wf(old(self)@) ==> panel_wf(final(self)@),
            panel_wf(old(self)@) && r ==> final(self)@.group.radios == old(self)@.group.radios.drop_last(),
    {
        proof {
            if panel_wf(old(self)@) {
                lemma_removed_wf(old(self)@);
            }
        }
        let n = self.widgets.radios.len();
        if n == 0 {
            return false;
        }
        let last = self.widgets.radios.remove_widget(n - 1);
        let id = last.ctrl_id();
        self.group.remove_widget(&id);
        proof {
            assert(old(self)@.widgets.radios.widgets.remove(n - 1) =~= old(self)@.widgets.radios.widgets.drop_last());
        }
        true
    }

    /// Acts on the presses of the two buttons found in the pool: a radio is
    /// added for each press of the first, and the last one removed for each
    /// press of the second. Returns how many presses it acted on.
    pub fn update(&mut self, router: &mut Router<Msg>) -> (r: (usize, usize))
        ensures
            r.0 == selected(old(router)@, ButtonPressed { at: ADD_BUTTON }).len(),
            r.1 == selected(
                rejected(old(router)@, ButtonPressed { at: ADD_BUTTON }),
                ButtonPressed { at: REMOVE_BUTTON },
            ).len(),
            final(router)@ == rejected(
                rejected(old(router)@, ButtonPressed { at: ADD_BUTTON }),
                ButtonPressed { at: REMOVE_BUTTON },
            ),
            final(self)@ == with_radios_removed(with_radios_added(old(self)@, r.0 as nat), r.1 as nat),
            panel_wf(old(self)@) ==> panel_wf(final(self)@),
            final(router).tick_count() == old(router).tick_count(),
    {
        let adds = router.drain_filter(&ButtonPressed { at: ADD_BUTTON });
        let removes = router.drain_filter(&ButtonPressed { at: REMOVE_BUTTON });
        let mut i: usize = 0;
        while i < adds.len()
            invariant
                0 <= i <= adds@.len(),
                self@ == with_radios_added(old(self)@, i as nat),
                panel_wf(old(self)@) ==> panel_wf(self@),
            decreases adds@.len() - i,
        {
            self.add_radio();
            i = i + 1;
        }
        let mut j: usize = 0;
        while j < removes.len()
            invariant
                0 <= j <= removes@.len(),
                self@ == with_radios_removed(with_radios_added(old(self)@, adds@.len() as nat), j as nat),
                panel_wf(old(self)@) ==> panel_wf(self@),
            decreases removes@.len() - j,
        {
            self.remove_radio();
            j = j + 1;
        }
        (adds.len(), removes.len())
    }

    /// One tick of the panel's controls.
    pub fn tick(&mut self, router: &mut Router<Msg>)
        requires
            old(router).tick_count() < u64::MAX,
        ensures
            final(router)@ == RadioPanelWidgets::sent(old(self)@.widgets, old(router)@),
            final(self)@ == (RadioPanelView {
                widgets: RadioPanelWidgets::after(old(self)@.widgets, old(router)@),
                ..old(self)@
            }),
            final(router).tick_count() == old(router).tick_count() + 1,
            panel_wf(old(self)@) ==> panel_wf(final(self)@),
    {
        proof {
            lemma_tick_keeps_slots(old(self)@.widgets.radios.widgets, old(router)@);
        }
        router.tick(&mut self.widgets);
    }

    /// Runs the radio group's protocol against the panel's controls, at most
    /// `budget` ticks.
    pub fn step(&mut self, router: &mut Router<Msg>, budget: u64) -> (r: Result<Option<usize>, Stalled>)
        requires
            old(router).tick_count() + budget <= u64::MAX,
        ensures
            ({
                let o = run_outcome::<Msg, RadioPanelWidgets, RadioGroup>(
                    old(self)@.widgets,
                    old(self)@.group,
                    old(router)@,
                    budget as nat,
                    budget,
                );
                &&& r == o.0
                &&& final(self)@ == (RadioPanelView { widgets: o.1, group: o.2, ..old(self)@ })
                &&& final(router)@ == o.3
                &&& final(router).tick_count() == old(router).tick_count() + o.4
            }),
            old(self)@.group.waiting is None && first_pressed(old(self)@.group.radios, old(router)@) is None
                ==> r == Ok::<Option<usize>, Stalled>(None) && final(router)@ == old(router)@
                && final(self)@ == old(self)@ && final(router).tick_count() == old(router).tick_count(),
            final(router).tick_count() <= old(router).tick_count() + budget,
            r is Err ==> r == Err::<Option<usize>, Stalled>(Stalled { ticks: budget }),
            panel_wf(old(self)@) ==> panel_wf(final(self)@),
    {
        proof {
            lemma_run_keeps_slots(old(self)@.widgets, old(self)@.group, old(router)@, budget as nat, budget);
        }
        router.run(&mut self.widgets, &mut self.group, budget)
    }
}

} // verus!
