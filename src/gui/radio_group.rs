use vstd::prelude::*;
use crate::pool::{Select, selected, rejected};
use crate::request::{CtrlId, QR};
use crate::router::{Router, Protocol, Step, Answer, last_answer, without_responses, lemma_same_channel, lemma_last_answer};
use crate::gui::{Msg, CheckboxEvent, views_of, is_same};

verus! {

/// Selects the pressed notifications of the check box at slot `at`.
pub struct Notice {
    pub at: u64,
}

impl Select<Msg> for Notice {
    open spec fn selects(&self, m: Msg) -> bool {
        m == Msg::Checkbox(self.at, CheckboxEvent::Pressed)
    }

    fn test(&self, m: &Msg) -> (r: bool) {
        match m {
            Msg::Checkbox(s, CheckboxEvent::Pressed) => *s == self.at,
            _ => false,
        }
    }
}

/// Whether the pool `p` holds a pressed notification of the check box at
/// slot `at`.
pub open spec fn pressed_in(p: Seq<Msg>, at: u64) -> bool {
    selected(p, Notice { at }).len() > 0
}

/// The commands that select radio `k` of `rs`: on for it, off for the
/// others, in the order of `rs`.
pub open spec fn select_msgs(rs: Seq<u64>, k: int) -> Seq<Msg> {
    Seq::new(rs.len(), |i: int| Msg::Checkbox(rs[i], CheckboxEvent::SetState(i == k)))
}

/// The commands that follow a press of radio `k` whose state then reads
/// `state`: when it is on, it becomes the one selected; when the press
/// turned it off, it is turned on again.
pub open spec fn press_msgs(rs: Seq<u64>, k: int, state: bool) -> Seq<Msg> {
    if state {
        select_msgs(rs, k)
    } else {
        seq![Msg::Checkbox(rs[k], CheckboxEvent::SetState(true))]
    }
}

/// The address of the check box at slot `slot`.
pub open spec fn radio_id(slot: u64) -> CtrlId<Msg, CheckboxEvent> {
    CtrlId { slot, marker: core::marker::PhantomData }
}

/// Whether the group waits to read the state of one of its radios.
pub open spec fn waits_in_range(v: RadioGroupView) -> bool {
    v.waiting is Some && v.waiting->0 < v.radios.len()
}

/// The address of the radio whose state the group waits to read.
pub open spec fn waiting_on(v: RadioGroupView) -> CtrlId<Msg, CheckboxEvent> {
    radio_id(v.radios[v.waiting->0 as int])
}

/// The first radio of `rs` with a pressed notification in `p`, if any.
pub open spec fn first_pressed(rs: Seq<u64>, p: Seq<Msg>) -> Option<int> {
    if exists|i: int|
        0 <= i < rs.len() && pressed_in(p, #[trigger] rs[i]) && (forall|j: int|
            0 <= j < i ==> !pressed_in(p, #[trigger] rs[j])) {
        Some(
            choose|i: int|
                0 <= i < rs.len() && pressed_in(p, #[trigger] rs[i]) && (forall|j: int|
                    0 <= j < i ==> !pressed_in(p, #[trigger] rs[j])),
        )
    } else {
        None
    }
}

/// What answering from the pool `p` a read of radio `k` gives: the answer,
/// or the pool with the query sent and the group waiting on `k`.
pub open spec fn read_radio(v: RadioGroupView, p: Seq<Msg>, k: int) -> (RadioGroupView, Seq<Msg>, Step<Option<usize>>) {
    let c = radio_id(v.radios[k]);
    match last_answer::<Msg, CheckboxEvent, (), bool>(p, c) {
        Some(b) => (
            RadioGroupView { waiting: None, ..v },
            without_responses::<Msg, CheckboxEvent, (), bool>(p, c) + press_msgs(v.radios, k, b),
            Step::Done(Some(k as usize)),
        ),
        None => (
            RadioGroupView { waiting: Some(k as usize), ..v },
            p.push(Msg::Checkbox(v.radios[k], CheckboxEvent::State(QR::Query(())))),
            Step::Suspended,
        ),
    }
}

/// What one resumption of a radio group does on the pool `p`. Without a
/// read in progress it looks for the first pressed radio: with none it is
/// done with nothing; otherwise it drains that radio's notifications and
/// reads its state. With a read in progress it picks up the answer, or stays
/// suspended; a radio removed meanwhile ends the read with nothing.
pub open spec fn group_resume(v: RadioGroupView, p: Seq<Msg>) -> (RadioGroupView, Seq<Msg>, Step<Option<usize>>) {
    match v.waiting {
        None => match first_pressed(v.radios, p) {
            None => (v, p, Step::Done(None)),
            Some(k) => read_radio(v, rejected(p, Notice { at: v.radios[k] }), k),
        },
        Some(k) => if k >= v.radios.len() {
            (RadioGroupView { waiting: None, ..v }, p, Step::Done(None))
        } else {
            let c = radio_id(v.radios[k as int]);
            match last_answer::<Msg, CheckboxEvent, (), bool>(p, c) {
                Some(_) => read_radio(v, p, k as int),
                None => (v, p, Step::Suspended),
            }
        },
    }
}

/// The test that keeps every slot but `x`.
pub open spec fn other_than(x: u64) -> spec_fn(u64) -> bool {
    |s: u64| s != x
}

/// What a radio group is: the slots of its check boxes, in order, and the
/// radio whose state it is waiting to read, if any.
pub struct RadioGroupView {
    pub radios: Seq<u64>,
    pub waiting: Option<usize>,
}

/// Keeps at most one of a set of check boxes on. As a protocol, it picks up
/// a press of one of them, reads that one's state, and sends the commands
/// that leave it the only one on.
pub struct RadioGroup {
    radios: Vec<CtrlId<Msg, CheckboxEvent>>,
    waiting: Option<usize>,
}

impl View for RadioGroup {
    type V = RadioGroupView;

    closed spec fn view(&self) -> RadioGroupView {
        RadioGroupView { radios: views_of(self.radios@), waiting: self.waiting }
    }
}

impl RadioGroup {
    fn new() -> (r: Self)
        ensures
            r@.radios.len() == 0,
            r@.waiting is None,
    {
        RadioGroup { radios: Vec::new(), waiting: None }
    }

    /// Adds a check box at the end.
    pub fn add_widget(&mut self, w: CtrlId<Msg, CheckboxEvent>)
        ensures
            final(self)@ == (RadioGroupView { radios: old(self)@.radios.push(w@), ..old(self)@ }),
    {
        self.radios.push(w);
        assert(views_of(self.radios@) =~= views_of(old(self).radios@).push(w@));
    }

    /// Takes out every check box with the address of `w`; the others keep
    /// their order. A read in progress is given up.
    pub fn remove_widget(&mut self, w: &CtrlId<Msg, CheckboxEvent>)
        ensures
            final(self)@.radios == old(self)@.radios.filter(other_than(w@)),
            final(self)@.waiting is None,
    {
        let mut kept: Vec<CtrlId<Msg, CheckboxEvent>> = Vec::new();
        let mut i: usize = 0;
        let ghost all = views_of(self.radios@);
        while i < self.radios.len()
            invariant
                0 <= i <= self.radios@.len(),
                all == views_of(self.radios@),
                views_of(kept@) == all.subrange(0, i as int).filter(other_than(w@)),
            decreases self.radios@.len() - i,
        {
            proof {
                assert(all.subrange(0, i + 1).drop_last() =~= all.subrange(0, i as int));
                reveal(Seq::filter);
            }
            if !is_same(&self.radios[i], w) {
                let c = self.radios[i].copy();
                kept.push(c);
                proof {
                    assert(views_of(kept@) =~= views_of(kept@.drop_last()).push(c@));
                }
            }
            i = i + 1;
        }
        proof {
            assert(all.subrange(0, i as int) =~= all);
        }
        self.radios = kept;
        self.waiting = None;
    }

    /// The addresses of the check boxes, in order.
    pub fn radios(&self) -> (r: &Vec<CtrlId<Msg, CheckboxEvent>>)
        ensures
            views_of(r@) == self@.radios,
    {
        &self.radios
    }

    /// Sends the commands that select radio `k`.
    pub fn select(&self, router: &mut Router<Msg>, k: usize)
        requires
            k < self@.radios.len(),
        ensures
            final(router)@ == old(router)@ + select_msgs(self@.radios, k as int),
            final(router).tick_count() == old(router).tick_count(),
            final(router).saw_conflict() == old(router).saw_conflict(),
    {
        let ghost rs = self@.radios;
        let mut i: usize = 0;
        while i < self.radios.len()
            invariant
                0 <= i <= rs.len(),
                rs == views_of(self.radios@),
                router@ == old(router)@ + select_msgs(rs, k as int).subrange(0, i as int),
                router.tick_count() == old(router).tick_count(),
                router.saw_conflict() == old(router).saw_conflict(),
            decreases rs.len() - i,
        {
            router.push(Msg::Checkbox(self.radios[i].slot(), CheckboxEvent::SetState(i == k)));
            proof {
                assert(select_msgs(rs, k as int).subrange(0, i + 1) =~= select_msgs(rs, k as int).subrange(
                    0,
                    i as int,
                ).push(Msg::Checkbox(rs[i as int], CheckboxEvent::SetState(i == k))));
            }
            i = i + 1;
        }
        proof {
            assert(select_msgs(rs, k as int).subrange(0, i as int) =~= select_msgs(rs, k as int));
        }
    }

    /// Sends the commands that follow a press of radio `k` whose state
    /// reads `state`.
    pub fn answer_press(&self, router: &mut Router<Msg>, k: usize, state: bool)
        requires
            k < self@.radios.len(),
        ensures
            final(router)@ == old(router)@ + press_msgs(self@.radios, k as int, state),
            final(router).tick_count() == old(router).tick_count(),
            final(router).saw_conflict() == old(router).saw_conflict(),
    {
        if state {
            self.select(router, k);
        } else {
            router.push(Msg::Checkbox(self.radios[k].slot(), CheckboxEvent::SetState(true)));
            assert(old(router)@.push(Msg::Checkbox(self@.radios[k as int], CheckboxEvent::SetState(true)))
                =~= old(router)@ + press_msgs(self@.radios, k as int, state));
        }
    }

    /// Finds the first radio with a pressed notification in the pool and
    /// drains that radio's notifications; the pool is left as it was when
    /// none was pressed.
    pub fn pressed(&self, router: &mut Router<Msg>) -> (r: Option<usize>)
        ensures
            r is None ==> (forall|i: int|
                0 <= i < self@.radios.len() ==> !pressed_in(old(router)@, #[trigger] self@.radios[i]))
                && final(router)@ == old(router)@,
            r matches Some(k) ==> k < self@.radios.len() && pressed_in(old(router)@, self@.radios[k as int])
                && (forall|j: int| 0 <= j < k ==> !pressed_in(old(router)@, #[trigger] self@.radios[j]))
                && final(router)@ == rejected(old(router)@, Notice { at: self@.radios[k as int] }),
            final(router).tick_count() == old(router).tick_count(),
            final(router).saw_conflict() == old(router).saw_conflict(),
    {
        let ghost rs = self@.radios;
        let mut i: usize = 0;
        while i < self.radios.len()
            invariant
                0 <= i <= rs.len(),
                rs == views_of(self.radios@),
                router@ == old(router)@,
                router.tick_count() == old(router).tick_count(),
                router.saw_conflict() == old(router).saw_conflict(),
                forall|j: int| 0 <= j < i ==> !pressed_in(old(router)@, #[trigger] rs[j]),
            decreases rs.len() - i,
        {
            let notice = Notice { at: self.radios[i].slot() };
            if router.has(&notice) {
                router.drain_filter(&notice);
                return Some(i);
            }
            i = i + 1;
        }
        None
    }

    /// One resumption of the group's protocol. Without a read in progress
    /// it looks for a pressed radio: with none it is done with nothing;
    /// otherwise it asks that radio's state, and when the answer is already
    /// there it sends the commands that follow and is done with that radio.
    /// With a read in progress it picks up the answer the same way, or stays
    /// suspended.
    pub fn react(&mut self, router: &mut Router<Msg>) -> (r: Step<Option<usize>>)
        ensures
            (final(self)@, final(router)@, r) == group_resume(old(self)@, old(router)@),
            final(router).tick_count() == old(router).tick_count(),
    {
        match self.waiting {
            None => {
                match self.pressed(router) {
                    None => {
                        proof {
                            assert(first_pressed(old(self)@.radios, old(router)@) is None);
                        }
                        Step::Done(None)
                    },
                    Some(k) => {
                        let c = self.radios[k].copy();
                        proof {
                            let rs = old(self)@.radios;
                            let p = old(router)@;
                            let i = choose|i: int|
                                0 <= i < rs.len() && pressed_in(p, #[trigger] rs[i]) && (forall|j: int|
                                    0 <= j < i ==> !pressed_in(p, #[trigger] rs[j]));
                            assert(first_pressed(rs, p) == Some(i));
                            if i < k {
                                assert(!pressed_in(p, rs[i]));
                            }
                            if k < i {
                                assert(!pressed_in(p, rs[k as int]));
                            }
                            assert(i == k);
                            lemma_same_channel::<Msg, CheckboxEvent, (), bool>(router@, c, radio_id(rs[k as int]));
                            lemma_last_answer::<Msg, CheckboxEvent, (), bool>(router@, c);
                        }
                        match router.query::<CheckboxEvent, (), bool>(&c, ()) {
                            Answer::Ready(b) => {
                                self.answer_press(router, k, b);
                                Step::Done(Some(k))
                            },
                            Answer::Pending => {
                                self.waiting = Some(k);
                                Step::Suspended
                            },
                        }
                    },
                }
            },
            Some(k) => {
                if k >= self.radios.len() {
                    self.waiting = None;
                    return Step::Done(None);
                }
                let c = self.radios[k].copy();
                proof {
                    lemma_same_channel::<Msg, CheckboxEvent, (), bool>(old(router)@, c, waiting_on(old(self)@));
                }
                match router.response::<CheckboxEvent, (), bool>(&c) {
                    Some(b) => {
                        self.waiting = None;
                        self.answer_press(router, k, b);
                        Step::Done(Some(k))
                    },
                    None => {
                        proof {
                            lemma_last_answer::<Msg, CheckboxEvent, (), bool>(old(router)@, c);
                        }
                        Step::Suspended
                    },
                }
            },
        }
    }
}

impl Protocol<Msg> for RadioGroup {
    type Output = Option<usize>;

    open spec fn resumed(s: RadioGroupView, pool: Seq<Msg>) -> (RadioGroupView, Seq<Msg>, Step<Option<usize>>) {
        group_resume(s, pool)
    }

    fn resume(&mut self, router: &mut Router<Msg>) -> (r: Step<Option<usize>>) {
        self.react(router)
    }
}

/// Builds a radio group.
pub struct RadioGroupBuilder {
    radio_group: RadioGroup,
}

impl RadioGroupBuilder {
    pub fn new() -> (r: Self)
        ensures
            r@.radios.len() == 0,
            r@.waiting is None,
    {
        RadioGroupBuilder { radio_group: RadioGroup::new() }
    }

    pub closed spec fn view(&self) -> RadioGroupView {
        self.radio_group@
    }

    pub fn add_widget(self, w: CtrlId<Msg, CheckboxEvent>) -> (r: Self)
        ensures
            r@ == (RadioGroupView { radios: self@.radios.push(w@), ..self@ }),
    {
        let mut b = self;
        b.radio_group.add_widget(w);
        b
    }

    pub fn build(self) -> (r: RadioGroup)
        ensures
            r@ == self@,
    {
        self.radio_group
    }
}

} // verus!
