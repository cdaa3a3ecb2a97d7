use vstd::prelude::*;
use crate::pool::{Pool, Select, selected, rejected, lemma_selected_selects, lemma_select_same, lemma_nothing_selected};
use crate::request::{CtrlId, Unpack};
use core::marker::PhantomData;

verus! {

/// An event type with a query/response state that asks with a `Q` and is
/// answered with an `R`.
pub trait Envelope<Q, R>: Sized {
    /// The answer, when this event is a response.
    spec fn answer(&self) -> Option<R>;

    /// The event that asks with `q`.
    spec fn asking(q: Q) -> Self;

    proof fn lemma_asking_unanswered(q: Q)
        ensures
            Self::asking(q).answer() is None,
    ;

    fn ask(q: Q) -> (r: Self)
        ensures
            r == Self::asking(q),
    ;

    fn is_answer(&self) -> (r: bool)
        ensures
            r == self.answer() is Some,
    ;

    fn into_answer(self) -> (r: Result<R, Self>)
        ensures
            r == (match self.answer() {
                Some(a) => Ok::<R, Self>(a),
                None => Err(self),
            }),
    ;
}

/// Selects the responses on one channel.
pub struct ResponseAt<M, E, Q, R> {
    pub at: CtrlId<M, E>,
    pub marker: PhantomData<(Q, R)>,
}

impl<M, E, Q, R> ResponseAt<M, E, Q, R> {
    pub fn new(c: &CtrlId<M, E>) -> (r: Self)
        ensures
            r.at@ == c@,
    {
        ResponseAt { at: c.copy(), marker: PhantomData }
    }
}

impl<M: Unpack<E>, E: Envelope<Q, R>, Q, R> Select<M> for ResponseAt<M, E, Q, R> {
    open spec fn selects(&self, m: M) -> bool {
        m.channel() == Some(self.at@) && m.event().answer() is Some
    }

    fn test(&self, m: &M) -> (r: bool) {
        match m.peek(&self.at) {
            Some(e) => e.is_answer(),
            None => false,
        }
    }
}

/// The responses on channel `c` among the messages `s`, in order.
pub open spec fn responses<M: Unpack<E>, E: Envelope<Q, R>, Q, R>(s: Seq<M>, c: CtrlId<M, E>) -> Seq<M> {
    selected(s, ResponseAt::<M, E, Q, R> { at: c, marker: PhantomData })
}

/// What is left of `s` once the responses on channel `c` are drained.
pub open spec fn without_responses<M: Unpack<E>, E: Envelope<Q, R>, Q, R>(s: Seq<M>, c: CtrlId<M, E>) -> Seq<M> {
    rejected(s, ResponseAt::<M, E, Q, R> { at: c, marker: PhantomData })
}

/// The answer that a destructive scan of `s` for channel `c` finds: the last
/// response on that channel, if any.
pub open spec fn last_answer<M: Unpack<E>, E: Envelope<Q, R>, Q, R>(s: Seq<M>, c: CtrlId<M, E>) -> Option<R> {
    let rs = responses::<M, E, Q, R>(s, c);
    if rs.len() == 0 {
        None
    } else {
        rs.last().event().answer()
    }
}

/// Two handles on the same channel find the same responses.
pub proof fn lemma_same_channel<M: Unpack<E>, E: Envelope<Q, R>, Q, R>(s: Seq<M>, c1: CtrlId<M, E>, c2: CtrlId<M, E>)
    requires
        c1@ == c2@,
    ensures
        responses::<M, E, Q, R>(s, c1) == responses::<M, E, Q, R>(s, c2),
        without_responses::<M, E, Q, R>(s, c1) == without_responses::<M, E, Q, R>(s, c2),
        last_answer::<M, E, Q, R>(s, c1) == last_answer::<M, E, Q, R>(s, c2),
{
    lemma_select_same(
        s,
        ResponseAt::<M, E, Q, R> { at: c1, marker: PhantomData },
        ResponseAt::<M, E, Q, R> { at: c2, marker: PhantomData },
    );
}

/// A scan finds an answer exactly when the channel holds a response.
pub proof fn lemma_last_answer<M: Unpack<E>, E: Envelope<Q, R>, Q, R>(s: Seq<M>, c: CtrlId<M, E>)
    ensures
        last_answer::<M, E, Q, R>(s, c) is None <==> responses::<M, E, Q, R>(s, c).len() == 0,
        last_answer::<M, E, Q, R>(s, c) is None ==> without_responses::<M, E, Q, R>(s, c) == s,
{
    let sel = ResponseAt::<M, E, Q, R> { at: c, marker: PhantomData };
    lemma_selected_selects(s, sel);
    let rs = selected(s, sel);
    if rs.len() > 0 {
        assert(sel.selects(rs[rs.len() - 1]));
    } else {
        lemma_nothing_selected(s, sel);
    }
}

/// The answer on channel `c` that ticking the handler `h` from the pool `p`
/// brings within `n` ticks: the last response of the first tick that holds
/// any.
pub open spec fn first_answer<M: Unpack<E>, E: Envelope<Q, R>, Q, R, W: Widget<M>>(
    h: W::V,
    p: Seq<M>,
    c: CtrlId<M, E>,
    n: nat,
) -> Option<R>
    decreases n,
{
    if n == 0 {
        None
    } else {
        let next = W::sent(h, p);
        match last_answer::<M, E, Q, R>(next, c) {
            Some(a) => Some(a),
            None => first_answer::<M, E, Q, R, W>(W::after(h, p), next, c, (n - 1) as nat),
        }
    }
}

/// Adding a message that is no response leaves what a scan finds unchanged.
pub proof fn lemma_push_unanswered<M: Unpack<E>, E: Envelope<Q, R>, Q, R>(s: Seq<M>, c: CtrlId<M, E>, m: M)
    requires
        m.event().answer() is None,
    ensures
        responses::<M, E, Q, R>(s.push(m), c) == responses::<M, E, Q, R>(s, c),
        last_answer::<M, E, Q, R>(s.push(m), c) == last_answer::<M, E, Q, R>(s, c),
{
    assert(s.push(m).drop_last() =~= s);
}

/// A query whose control answers within one tick: the pool that holds the
/// query holds no answer yet, and the answer is there after the next tick.
pub proof fn lemma_answer_in_one_tick<M: Unpack<E>, E: Envelope<Q, R>, Q, R, W: Widget<M>>(
    h: W::V,
    p: Seq<M>,
    c: CtrlId<M, E>,
    q: Q,
    v: R,
    budget: nat,
)
    requires
        last_answer::<M, E, Q, R>(p, c) is None,
        budget >= 1,
        last_answer::<M, E, Q, R>(W::sent(h, p.push(M::packed(c@, E::asking(q)))), c) == Some(v),
    ensures
        last_answer::<M, E, Q, R>(p.push(M::packed(c@, E::asking(q))), c) is None,
        first_answer::<M, E, Q, R, W>(h, p.push(M::packed(c@, E::asking(q))), c, budget) == Some(v),
{
    M::lemma_packed(c@, E::asking(q));
    E::lemma_asking_unanswered(q);
    lemma_push_unanswered::<M, E, Q, R>(p, c, M::packed(c@, E::asking(q)));
}

/// Starvation: when the handler never sends a response on channel `c`, no
/// number of ticks brings an answer.
pub proof fn lemma_starved<M: Unpack<E>, E: Envelope<Q, R>, Q, R, W: Widget<M>>(
    h: W::V,
    p: Seq<M>,
    c: CtrlId<M, E>,
    n: nat,
)
    requires
        forall|s: W::V, input: Seq<M>| responses::<M, E, Q, R>(#[trigger] W::sent(s, input), c).len() == 0,
    ensures
        first_answer::<M, E, Q, R, W>(h, p, c, n) is None,
    decreases n,
{
    if n > 0 {
        lemma_last_answer::<M, E, Q, R>(W::sent(h, p), c);
        lemma_starved::<M, E, Q, R, W>(W::after(h, p), W::sent(h, p), c, (n - 1) as nat);
    }
}

/// A control's message handler, run once per tick. Its effect is stated over
/// the control's view: the state after the tick, what is left of the input,
/// and what it sends.
pub trait Widget<M>: View {
    spec fn after(s: Self::V, input: Seq<M>) -> Self::V;

    spec fn left(s: Self::V, input: Seq<M>) -> Seq<M>;

    spec fn sent(s: Self::V, input: Seq<M>) -> Seq<M>;

    fn handle(&mut self, input: &mut Pool<M>, output: &mut Pool<M>)
        ensures
            final(self)@ == Self::after(old(self)@, old(input)@),
            final(input)@ == Self::left(old(self)@, old(input)@),
            final(output)@ == old(output)@ + Self::sent(old(self)@, old(input)@),
    ;
}

/// What a protocol hands back when it is resumed.
pub enum Step<T> {
    Suspended,
    Done(T),
}

/// What a query gives at once: the answer, or the word that it is pending.
pub enum Answer<R> {
    Ready(R),
    Pending,
}

/// A procedure that runs across ticks and is suspended only while it waits
/// for an answer.
pub trait Protocol<M>: View {
    type Output;

    /// What one resumption from state `s` on the pool `pool` does: the
    /// protocol's next state, the pool it leaves, and the step it reports.
    spec fn resumed(s: Self::V, pool: Seq<M>) -> (Self::V, Seq<M>, Step<Self::Output>);

    fn resume(&mut self, router: &mut Router<M>) -> (r: Step<Self::Output>)
        ensures
            (final(self)@, final(router)@, r) == Self::resumed(old(self)@, old(router)@),
            final(router).tick_count() == old(router).tick_count(),
    ;
}

/// What the driving loop does after a resumption: finish with the output,
/// tick and resume again, or give up.
pub enum Next<T> {
    Finish(T),
    Tick,
    GiveUp,
}

/// The driving loop's decision on the step `step`, after `ticks_run` of
/// `budget` ticks: a completed protocol finishes; a suspended one gets a
/// tick while the budget lasts.
pub fn next_move<T>(step: Step<T>, ticks_run: u64, budget: u64) -> (r: Next<T>)
    ensures
        r == (match step {
            Step::Done(o) => Next::Finish(o),
            Step::Suspended => if ticks_run >= budget {
                Next::<T>::GiveUp
            } else {
                Next::<T>::Tick
            },
        }),
{
    match step {
        Step::Done(o) => Next::Finish(o),
        Step::Suspended => if ticks_run >= budget {
            Next::GiveUp
        } else {
            Next::Tick
        },
    }
}

/// What driving the protocol in state `s` with the handler `h` from the pool
/// `pool` comes to, with `left` ticks left of `budget`: the result, the
/// handler's and the protocol's final states, the final pool, and the number
/// of ticks run.
pub open spec fn run_outcome<M, W: Widget<M>, P: Protocol<M>>(
    h: W::V,
    s: P::V,
    pool: Seq<M>,
    left: nat,
    budget: u64,
) -> (Result<P::Output, Stalled>, W::V, P::V, Seq<M>, nat)
    decreases left,
{
    let (s1, p1, step) = P::resumed(s, pool);
    match step {
        Step::Done(o) => (Ok(o), h, s1, p1, 0),
        Step::Suspended => if left == 0 {
            (Err(Stalled { ticks: budget }), h, s1, p1, 0)
        } else {
            let (r, h2, s2, p2, t) = run_outcome::<M, W, P>(
                W::after(h, p1),
                s1,
                W::sent(h, p1),
                (left - 1) as nat,
                budget,
            );
            (r, h2, s2, p2, t + 1)
        },
    }
}

/// The driving loop runs at most the ticks left, and gives up only after
/// running all of them.
pub proof fn lemma_run_ticks<M, W: Widget<M>, P: Protocol<M>>(
    h: W::V,
    s: P::V,
    pool: Seq<M>,
    left: nat,
    budget: u64,
)
    ensures
        run_outcome::<M, W, P>(h, s, pool, left, budget).4 <= left,
        run_outcome::<M, W, P>(h, s, pool, left, budget).0 is Err ==> run_outcome::<M, W, P>(
            h,
            s,
            pool,
            left,
            budget,
        ).4 == left && run_outcome::<M, W, P>(h, s, pool, left, budget).0 == Err::<
            P::Output,
            Stalled,
        >(Stalled { ticks: budget }),
    decreases left,
{
    let (s1, p1, step) = P::resumed(s, pool);
    if left > 0 {
        lemma_run_ticks::<M, W, P>(W::after(h, p1), s1, W::sent(h, p1), (left - 1) as nat, budget);
    }
}

/// The driving loop ran out of ticks before the protocol completed.
#[derive(PartialEq, Eq, Structural, Debug, Clone, Copy)]
pub struct Stalled {
    pub ticks: u64,
}

/// Owns the pool between ticks and answers queries from it.
pub struct Router<M> {
    pool: Pool<M>,
    ticks: u64,
    conflicts: bool,
}

impl<M> View for Router<M> {
    type V = Seq<M>;

    closed spec fn view(&self) -> Seq<M> {
        self.pool@
    }
}

impl<M> Router<M> {
    /// The number of ticks run so far.
    pub closed spec fn tick_count(&self) -> nat {
        self.ticks as nat
    }

    /// Whether some scan found more than one response for one query.
    pub closed spec fn saw_conflict(&self) -> bool {
        self.conflicts
    }

    pub fn new(pool: Pool<M>) -> (r: Self)
        ensures
            r@ == pool@,
            r.tick_count() == 0,
            !r.saw_conflict(),
    {
        Router { pool, ticks: 0, conflicts: false }
    }

    pub fn ticks(&self) -> (r: u64)
        ensures
            r == self.tick_count(),
    {
        self.ticks
    }

    pub fn conflicts(&self) -> (r: bool)
        ensures
            r == self.saw_conflict(),
    {
        self.conflicts
    }

    /// Puts a message in the pool.
    pub fn push(&mut self, m: M)
        ensures
            final(self)@ == old(self)@.push(m),
            final(self).tick_count() == old(self).tick_count(),
            final(self).saw_conflict() == old(self).saw_conflict(),
    {
        self.pool.push(m);
    }

    /// Drains the messages that `f` selects, in order.
    pub fn drain_filter<F: Select<M>>(&mut self, f: &F) -> (r: Vec<M>)
        ensures
            r@ == selected(old(self)@, *f),
            final(self)@ == rejected(old(self)@, *f),
            final(self).tick_count() == old(self).tick_count(),
            final(self).saw_conflict() == old(self).saw_conflict(),
    {
        self.pool.drain_filter(f)
    }

    /// Whether the pool holds a message that `f` selects.
    pub fn has<F: Select<M>>(&self, f: &F) -> (r: bool)
        ensures
            r == (selected(self@, *f).len() > 0),
    {
        self.pool.query(f)
    }

    /// Hands the pool back.
    pub fn into_pool(self) -> (r: Pool<M>)
        ensures
            r@ == self@,
    {
        self.pool
    }

    /// One tick: the handler drains the whole pool as its input and what it
    /// sends becomes the pool. Messages no control claimed are dropped.
    pub fn tick<W: Widget<M>>(&mut self, handler: &mut W)
        requires
            old(self).tick_count() < u64::MAX,
        ensures
            final(self)@ == W::sent(old(handler)@, old(self)@),
            final(handler)@ == W::after(old(handler)@, old(self)@),
            final(self).tick_count() == old(self).tick_count() + 1,
            final(self).saw_conflict() == old(self).saw_conflict(),
    {
        let mut input = Pool::from_vec(self.pool.drain());
        let mut output = Pool::new();
        handler.handle(&mut input, &mut output);
        proof {
            assert(output@ =~= W::sent(old(handler)@, old(self)@));
        }
        self.pool = output;
        self.ticks = self.ticks + 1;
    }

    /// Scans the pool for responses on channel `c`, drains them all, and
    /// returns the last one's answer. More than one response is recorded as a
    /// conflict.
    pub fn response<E, Q, R>(&mut self, c: &CtrlId<M, E>) -> (r: Option<R>)
        where
            M: Unpack<E>,
            E: Envelope<Q, R>,
        ensures
            r == last_answer::<M, E, Q, R>(old(self)@, *c),
            final(self)@ == without_responses::<M, E, Q, R>(old(self)@, *c),
            final(self).tick_count() == old(self).tick_count(),
            final(self).saw_conflict() == (old(self).saw_conflict() || responses::<M, E, Q, R>(
                old(self)@,
                *c,
            ).len() > 1),
    {
        let sel: ResponseAt<M, E, Q, R> = ResponseAt::new(c);
        let mut found = self.pool.drain_filter(&sel);
        proof {
            lemma_selected_selects(old(self)@, sel);
            lemma_select_same(old(self)@, sel, ResponseAt::<M, E, Q, R> { at: *c, marker: PhantomData });
        }
        if found.len() > 1 {
            self.conflicts = true;
        }
        match found.pop() {
            None => None,
            Some(m) => {
                proof {
                    assert(sel.selects(m));
                }
                match m.unpack(c) {
                    Ok(e) => match e.into_answer() {
                        Ok(a) => Some(a),
                        Err(_) => None,
                    },
                    Err(_) => None,
                }
            },
        }
    }

    /// Asks channel `c` with `param` and ticks `handler` until the answer
    /// comes, at most `budget` ticks. Without an answer by then it reports
    /// the stall.
    pub fn ask<W, E, Q, R>(&mut self, handler: &mut W, c: &CtrlId<M, E>, param: Q, budget: u64) -> (r:
        Result<R, Stalled>)
        where
            W: Widget<M>,
            M: Unpack<E>,
            E: Envelope<Q, R>,
        requires
            old(self).tick_count() + budget <= u64::MAX,
        ensures
            last_answer::<M, E, Q, R>(old(self)@, *c) is Some ==> r == Ok::<R, Stalled>(
                last_answer::<M, E, Q, R>(old(self)@, *c)->0,
            ) && final(self).tick_count() == old(self).tick_count(),
            last_answer::<M, E, Q, R>(old(self)@, *c) is None ==> r == (match first_answer::<
                M,
                E,
                Q,
                R,
                W,
            >(old(handler)@, old(self)@.push(M::packed(c@, E::asking(param))), *c, budget as nat) {
                Some(a) => Ok::<R, Stalled>(a),
                None => Err(Stalled { ticks: budget }),
            }),
            final(self).tick_count() <= old(self).tick_count() + budget,
            r is Ok && last_answer::<M, E, Q, R>(old(self)@, *c) is None ==> final(self).tick_count()
                > old(self).tick_count(),
    {
        proof {
            lemma_last_answer::<M, E, Q, R>(self@, *c);
        }
        let ghost pool0 = self@.push(M::packed(c@, E::asking(param)));
        let ghost h0 = handler@;
        let ghost q0 = param;
        match self.query(c, param) {
            Answer::Ready(a) => Ok(a),
            Answer::Pending => {
                let ghost t0 = self.tick_count();
                let mut n: u64 = 0;
                while n < budget
                    invariant
                        n <= budget,
                        t0 == old(self).tick_count(),
                        h0 == old(handler)@,
                        q0 == param,
                        pool0 == old(self)@.push(M::packed(c@, E::asking(q0))),
                        last_answer::<M, E, Q, R>(old(self)@, *c) is None,
                        t0 + budget <= u64::MAX,
                        self.tick_count() == t0 + n,
                        first_answer::<M, E, Q, R, W>(h0, pool0, *c, budget as nat) == first_answer::<
                            M,
                            E,
                            Q,
                            R,
                            W,
                        >(handler@, self@, *c, (budget - n) as nat),
                    decreases budget - n,
                {
                    let ghost h1 = handler@;
                    let ghost pool1 = self@;
                    self.tick(handler);
                    proof {
                        lemma_last_answer::<M, E, Q, R>(self@, *c);
                        assert(first_answer::<M, E, Q, R, W>(h1, pool1, *c, (budget - n) as nat) == (
                        match last_answer::<M, E, Q, R>(self@, *c) {
                            Some(a) => Some(a),
                            None => first_answer::<M, E, Q, R, W>(
                                handler@,
                                self@,
                                *c,
                                (budget - n - 1) as nat,
                            ),
                        }));
                    }
                    n = n + 1;
                    match self.response(c) {
                        Some(a) => {
                            assert(first_answer::<M, E, Q, R, W>(h0, pool0, *c, budget as nat) == Some(a));
                            return Ok(a);
                        },
                        None => {},
                    }
                }
                Err(Stalled { ticks: budget })
            },
        }
    }

    /// Drives `protocol` to completion: it is resumed, and while it is
    /// suspended the handler gets one tick before it is resumed again. After
    /// `budget` ticks without completion the stall is reported.
    pub fn run<W: Widget<M>, P: Protocol<M>>(&mut self, handler: &mut W, protocol: &mut P, budget: u64) -> (r:
        Result<P::Output, Stalled>)
        requires
            old(self).tick_count() + budget <= u64::MAX,
        ensures
            ({
                let o = run_outcome::<M, W, P>(old(handler)@, old(protocol)@, old(self)@, budget as nat, budget);
                &&& r == o.0
                &&& final(handler)@ == o.1
                &&& final(protocol)@ == o.2
                &&& final(self)@ == o.3
                &&& final(self).tick_count() == old(self).tick_count() + o.4
            }),
            final(self).tick_count() <= old(self).tick_count() + budget,
            r is Err ==> r == Err::<P::Output, Stalled>(Stalled { ticks: budget })
                && final(self).tick_count() == old(self).tick_count() + budget,
    {
        let ghost t0 = self.tick_count();
        let ghost goal = run_outcome::<M, W, P>(handler@, protocol@, self@, budget as nat, budget);
        proof {
            lemma_run_ticks::<M, W, P>(handler@, protocol@, self@, budget as nat, budget);
        }
        let mut n: u64 = 0;
        loop
            invariant
                n <= budget,
                t0 == old(self).tick_count(),
                t0 + budget <= u64::MAX,
                self.tick_count() == t0 + n,
                goal == run_outcome::<M, W, P>(old(handler)@, old(protocol)@, old(self)@, budget as nat, budget),
                ({
                    let o = run_outcome::<M, W, P>(handler@, protocol@, self@, (budget - n) as nat, budget);
                    goal == (o.0, o.1, o.2, o.3, (o.4 + n) as nat)
                }),
            decreases budget - n,
        {
            let ghost h1 = handler@;
            let step = protocol.resume(self);
            match next_move(step, n, budget) {
                Next::Finish(out) => {
                    return Ok(out);
                },
                Next::GiveUp => {
                    return Err(Stalled { ticks: budget });
                },
                Next::Tick => {},
            }
            let ghost pool1 = self@;
            self.tick(handler);
            n = n + 1;
            proof {
                assert(handler@ == W::after(h1, pool1));
            }
        }
    }

    /// Answers from the pool when it already holds a response on channel
    /// `c`; otherwise sends the query with `param` on `c` and reports it
    /// pending, to be picked up with `response` after a tick.
    pub fn query<E, Q, R>(&mut self, c: &CtrlId<M, E>, param: Q) -> (r: Answer<R>)
        where
            M: Unpack<E>,
            E: Envelope<Q, R>,
        ensures
            last_answer::<M, E, Q, R>(old(self)@, *c) is Some ==> r == Answer::Ready(
                last_answer::<M, E, Q, R>(old(self)@, *c)->0,
            ) && final(self)@ == without_responses::<M, E, Q, R>(old(self)@, *c),
            last_answer::<M, E, Q, R>(old(self)@, *c) is None ==> r is Pending && final(self)@
                == without_responses::<M, E, Q, R>(old(self)@, *c).push(
                M::packed(c@, E::asking(param)),
            ),
            final(self).tick_count() == old(self).tick_count(),
            final(self).saw_conflict() == (old(self).saw_conflict() || responses::<M, E, Q, R>(
                old(self)@,
                *c,
            ).len() > 1),
    {
        match self.response(c) {
            Some(a) => Answer::Ready(a),
            None => {
                let m = c.tomsg(E::ask(param));
                self.pool.push(m);
                Answer::Pending
            },
        }
    }
}

} // verus!
