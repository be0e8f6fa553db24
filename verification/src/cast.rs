//! The cast sequencer and the delayed message pool behind it.
//!
//! Casting resolves every card of the hand against the grid in one
//! sequenced pass: a trigger is accepted only while idle, each card's
//! damage is scheduled one second per hand position apart so the effects
//! land visibly one after another, a consumer delivers the scheduled
//! messages as their time comes, and when the pool drains the sequencer
//! returns to idle and asks for a grid refresh and a fresh hand, exactly
//! once per cast.

use vstd::multiset::Multiset;
use vstd::prelude::*;

use crate::card::{spec_match_count, evaluate, Card, CardRedrawRequest};
use crate::grid::{Grid, GridRefreshRequest};
use crate::healthbar::{spec_apply_damage, Health};
use crate::geom::spec_saturating_add;

verus! {

/// Ticks in one second of game time.
pub const TICKS_PER_SECOND: u64 = 1000;

/// Largest hand position whose staggered delay is representable.
pub const MAX_CARD_INDEX: usize = 0x10000;

/// A message the delayed pool can carry.
#[derive(Clone, Copy, PartialEq, Eq, Structural, Debug)]
pub enum ActionMessage {
    DamageEnemy(u64),
    FinishedExecution,
}

/// A message waiting in the pool, with the tick it becomes deliverable at.
#[derive(Clone, Copy, PartialEq, Eq, Structural, Debug)]
pub struct PendingMessage {
    pub due: u64,
    pub message: ActionMessage,
}

/// One-shot empty signal of the pool.
#[derive(Clone, Copy, PartialEq, Eq, Structural, Debug)]
pub struct ActionMessagePoolEmpty;

/// Delayed delivery pool: messages become deliverable once the pool's
/// accumulated time reaches their scheduled tick. Messages leave in
/// non-decreasing due order, first-in first-out among equal dues, and the
/// pool reports the drain of its last outstanding message exactly once.
#[derive(Debug)]
pub struct ActionMessagePool {
    pub pending: Vec<PendingMessage>,
    pub now: u64,
    pub armed: bool,
}

/// Inserting into a sequence adds one copy of the element to its
/// multiset of contents.
proof fn lemma_insert_to_multiset<A>(s: Seq<A>, i: int, v: A)
    requires
        0 <= i <= s.len(),
    ensures
        s.insert(i, v).to_multiset() == s.to_multiset().insert(v),
{
    broadcast use vstd::seq_lib::group_to_multiset_ensures;

    let s2 = s.insert(i, v);
    assert(s2.remove(i) =~= s);
    assert(s2[i] == v);
    assert(s2.remove(i).to_multiset() =~= s2.to_multiset().remove(v));
    assert(s2.contains(v));
    assert(s2.to_multiset().count(v) > 0);
    assert(s2.to_multiset() =~= s.to_multiset().insert(v));
}

impl ActionMessagePool {
    /// The pending list is sorted by due tick (ties keep insertion
    /// order by construction), and the empty signal is armed exactly
    /// while messages are outstanding.
    pub open spec fn wf(self) -> bool {
        &&& forall|i: int, j: int|
            0 <= i <= j < self.pending@.len() ==> (#[trigger] self.pending@[i]).due <= (
            #[trigger] self.pending@[j]).due
        &&& (self.pending@.len() == 0 ==> !self.armed)
    }

    /// An empty pool whose clock starts at `start`.
    pub fn new(start: u64) -> (p: Self)
        ensures
            p.wf(),
            p.pending@.len() == 0,
            p.now == start,
            !p.armed,
    {
        ActionMessagePool { pending: Vec::new(), now: start, armed: false }
    }

    /// Schedule `message` to become deliverable `delay` ticks from now.
    /// It goes in after every message due no later, so equal dues drain
    /// first-in first-out.
    pub fn write_after(&mut self, message: ActionMessage, delay: u64)
        requires
            old(self).wf(),
        ensures
            final(self).wf(),
            final(self).now == old(self).now,
            final(self).armed,
            ({
                let pm = (PendingMessage {
                    due: spec_saturating_add(old(self).now, delay),
                    message,
                });
                &&& (exists|i: int|
                    {
                        &&& 0 <= i <= old(self).pending@.len()
                        &&& final(self).pending@ == old(self).pending@.insert(i, pm)
                        &&& (forall|j: int|
                            0 <= j < i ==> (#[trigger] old(self).pending@[j]).due <= pm.due)
                        &&& (forall|j: int|
                            i <= j < old(self).pending@.len() ==> pm.due < (
                            #[trigger] old(self).pending@[j]).due)
                    })
                &&& final(self).pending@.to_multiset() == old(self).pending@.to_multiset().insert(
                    pm,
                )
            }),
    {
        let due: u64 = self.now.saturating_add(delay);
        let n: usize = self.pending.len();
        let mut i: usize = 0;
        while i < n && self.pending[i].due <= due
            invariant
                i <= n,
                n == self.pending@.len(),
                *self == *old(self),
                due == spec_saturating_add(old(self).now, delay),
                forall|j: int| 0 <= j < i ==> (#[trigger] self.pending@[j]).due <= due,
            decreases n - i,
        {
            i = i + 1;
        }
        let pm = PendingMessage { due, message };
        self.pending.insert(i, pm);
        self.armed = true;
        proof {
            assert forall|a: int, b: int|
                0 <= a <= b < self.pending@.len() implies (#[trigger] self.pending@[a]).due <= (
            #[trigger] self.pending@[b]).due by {
                if a < i && b >= i {
                    if b > i {
                        assert(old(self).pending@[b - 1].due > due);
                    }
                }
            }
            lemma_insert_to_multiset(old(self).pending@, i as int, pm);
        }
    }

    /// Advance the pool's clock by `dt` and deliver every message that
    /// has come due, in due order. The second result is the one-shot
    /// empty signal: true exactly when this tick drained the last
    /// outstanding message.
    pub fn tick(&mut self, dt: u64) -> (out: (Vec<ActionMessage>, bool))
        requires
            old(self).wf(),
        ensures
            final(self).wf(),
            final(self).now == spec_saturating_add(old(self).now, dt),
            ({
                let k = out.0@.len() as int;
                &&& 0 <= k <= old(self).pending@.len()
                &&& final(self).pending@ == old(self).pending@.skip(k)
                &&& (forall|j: int|
                    0 <= j < k ==> out.0@[j] == (#[trigger] old(self).pending@[j]).message)
                &&& (forall|j: int|
                    0 <= j < k ==> (#[trigger] old(self).pending@[j]).due <= final(self).now)
                &&& (k < old(self).pending@.len() ==> old(self).pending@[k].due > final(self).now)
            }),
            out.1 == (old(self).armed && final(self).pending@.len() == 0),
            final(self).armed == (old(self).armed && final(self).pending@.len() > 0),
    {
        let was_armed: bool = self.armed;
        self.now = self.now.saturating_add(dt);
        let mut delivered: Vec<ActionMessage> = Vec::new();
        while self.pending.len() > 0 && self.pending[0].due <= self.now
            invariant
                old(self).wf(),
                self.now == spec_saturating_add(old(self).now, dt),
                self.armed == old(self).armed,
                delivered@.len() <= old(self).pending@.len(),
                self.pending@ == old(self).pending@.skip(delivered@.len() as int),
                forall|j: int|
                    0 <= j < delivered@.len() ==> delivered@[j] == (
                    #[trigger] old(self).pending@[j]).message,
                forall|j: int|
                    0 <= j < delivered@.len() ==> (#[trigger] old(self).pending@[j]).due
                        <= self.now,
            decreases self.pending@.len(),
        {
            let pm = self.pending.remove(0);
            delivered.push(pm.message);
            proof {
                assert(self.pending@ =~= old(self).pending@.skip(delivered@.len() as int));
            }
        }
        let fired: bool = was_armed && self.pending.len() == 0;
        if fired {
            self.armed = false;
        }
        proof {
            let k = delivered@.len() as int;
            if k < old(self).pending@.len() {
                assert(old(self).pending@[k] == self.pending@[0]);
            }
            assert forall|a: int, b: int|
                0 <= a <= b < self.pending@.len() implies (#[trigger] self.pending@[a]).due <= (
            #[trigger] self.pending@[b]).due by {
                assert(self.pending@[a] == old(self).pending@[a + k]);
                assert(self.pending@[b] == old(self).pending@[b + k]);
            }
        }
        (delivered, fired)
    }
}

/// What one card schedules when actions execute: its matched-tile count
/// as damage, due one second per hand position after the trigger.
pub open spec fn spec_card_effect(card: Card, grid: Grid, now: u64) -> PendingMessage {
    PendingMessage {
        due: spec_saturating_add(now, (card.index * TICKS_PER_SECOND) as u64),
        message: ActionMessage::DamageEnemy(spec_match_count(card.requirement.tiles@, grid) as u64),
    }
}

/// The multiset of effects a hand schedules.
pub open spec fn spec_scheduled_effects(cards: Seq<Card>, grid: Grid, now: u64) -> Multiset<
    PendingMessage,
>
    decreases cards.len(),
{
    if cards.len() == 0 {
        Multiset::empty()
    } else {
        spec_scheduled_effects(cards.drop_last(), grid, now).insert(
            spec_card_effect(cards.last(), grid, now),
        )
    }
}

/// Execute the actions of every card in the hand: evaluate each card's
/// requirement against the grid, read-only, and schedule its damage into
/// the pool with the per-position stagger. The pool's clock does not move.
pub fn execute_actions(cards: &Vec<Card>, grid: &Grid, pool: &mut ActionMessagePool)
    requires
        grid.wf(),
        old(pool).wf(),
        forall|c: int| 0 <= c < cards@.len() ==> (#[trigger] cards@[c]).index <= MAX_CARD_INDEX,
    ensures
        final(pool).wf(),
        final(pool).now == old(pool).now,
        final(pool).pending@.to_multiset() == old(pool).pending@.to_multiset().add(
            spec_scheduled_effects(cards@, *grid, old(pool).now),
        ),
{
    let n: usize = cards.len();
    let mut c: usize = 0;
    while c < n
        invariant
            c <= n,
            n == cards@.len(),
            grid.wf(),
            pool.wf(),
            pool.now == old(pool).now,
            forall|k: int| 0 <= k < n ==> (#[trigger] cards@[k]).index <= MAX_CARD_INDEX,
            pool.pending@.to_multiset() == old(pool).pending@.to_multiset().add(
                spec_scheduled_effects(cards@.take(c as int), *grid, old(pool).now),
            ),
        decreases n - c,
    {
        let card = &cards[c];
        let points: u64 = evaluate(&card.requirement, grid);
        let delay: u64 = (card.index as u64) * TICKS_PER_SECOND;
        pool.write_after(ActionMessage::DamageEnemy(points), delay);
        proof {
            let taken = cards@.take(c + 1);
            assert(taken.drop_last() =~= cards@.take(c as int));
            assert(taken.last() == cards@[c as int]);
            assert(old(pool).pending@.to_multiset().add(
                spec_scheduled_effects(taken, *grid, old(pool).now),
            ) =~= old(pool).pending@.to_multiset().add(
                spec_scheduled_effects(cards@.take(c as int), *grid, old(pool).now),
            ).insert(spec_card_effect(cards@[c as int], *grid, old(pool).now)));
        }
        c = c + 1;
    }
    proof {
        assert(cards@.take(n as int) =~= cards@);
    }
}

/// Health after a sequence of delivered messages, applied from entry `i`
/// on: each damage message lands in full until health is exhausted.
pub open spec fn spec_apply_messages(health: u64, messages: Seq<ActionMessage>, i: int) -> u64
    decreases messages.len() - i,
{
    if i < 0 || i >= messages.len() {
        health
    } else {
        match messages[i] {
            ActionMessage::DamageEnemy(d) => spec_apply_messages(
                spec_apply_damage(health, d),
                messages,
                i + 1,
            ),
            ActionMessage::FinishedExecution => spec_apply_messages(health, messages, i + 1),
        }
    }
}

/// Apply every delivered damage message to the enemy, in delivery order.
pub fn damage_enemy(health: &mut Health, delivered: &Vec<ActionMessage>)
    ensures
        final(health).0 == spec_apply_messages(old(health).0, delivered@, 0),
{
    let n: usize = delivered.len();
    let mut i: usize = 0;
    while i < n
        invariant
            i <= n,
            n == delivered@.len(),
            spec_apply_messages(old(health).0, delivered@, 0) == spec_apply_messages(
                health.0,
                delivered@,
                i as int,
            ),
        decreases n - i,
    {
        match delivered[i] {
            ActionMessage::DamageEnemy(d) => {
                health.apply_damage(d);
            },
            ActionMessage::FinishedExecution => {},
        }
        i = i + 1;
    }
}

/// Signal that triggers a cast.
#[derive(Clone, Copy, PartialEq, Eq, Structural, Debug)]
pub struct StartCast;

/// Signal that the hand's actions should execute this step.
#[derive(Clone, Copy, PartialEq, Eq, Structural, Debug)]
pub struct ExecuteActions;

/// Signal that the cast has fully resolved.
#[derive(Clone, Copy, PartialEq, Eq, Structural, Debug)]
pub struct FinishedExecution;

/// State of the cast sequencer. A single global instance steps between
/// idle and executing, once per cast.
#[derive(Clone, Copy, PartialEq, Eq, Structural, Debug, Hash)]
pub enum CastState {
    Idle,
    ExecutingActions,
}

/// Where a cast trigger leads: idle starts executing, a trigger while
/// already executing changes nothing.
pub open spec fn spec_cast_after_start(s: CastState) -> CastState {
    if s is Idle {
        CastState::ExecutingActions
    } else {
        s
    }
}

/// Whether a cast trigger broadcasts the execute signal: only while idle.
pub open spec fn spec_start_emits(s: CastState) -> bool {
    s is Idle
}

/// Where the completion of a cast leads: executing returns to idle,
/// completion while idle changes nothing.
pub open spec fn spec_cast_after_finish(s: CastState) -> CastState {
    if s is ExecutingActions {
        CastState::Idle
    } else {
        s
    }
}

/// Whether completion fires the follow-on requests: only while executing.
pub open spec fn spec_finish_emits(s: CastState) -> bool {
    s is ExecutingActions
}

/// Accept a cast trigger: only while idle does the sequencer move to
/// executing and broadcast the execute signal, in the same step; a
/// re-entrant trigger is ignored.
pub fn start_cast(state: &mut CastState, trigger: StartCast) -> (execute: Option<ExecuteActions>)
    ensures
        spec_start_emits(*old(state)) ==> *final(state) == spec_cast_after_start(*old(state))
            && execute == Some(ExecuteActions),
        !spec_start_emits(*old(state)) ==> *final(state) == *old(state) && execute == None::<
            ExecuteActions,
        >,
{
    let _ = trigger;
    match *state {
        CastState::Idle => {
            *state = CastState::ExecutingActions;
            Some(ExecuteActions)
        },
        CastState::ExecutingActions => None,
    }
}

/// On the pool's one-shot empty signal, schedule the completion notice
/// one second out, as one more delayed message: the cast is declared
/// finished a beat after its last effect landed.
pub fn finish_execution(pool: &mut ActionMessagePool, empty: ActionMessagePoolEmpty)
    requires
        old(pool).wf(),
    ensures
        final(pool).wf(),
        final(pool).now == old(pool).now,
        final(pool).pending@.to_multiset() == old(pool).pending@.to_multiset().insert(
            (PendingMessage {
                due: spec_saturating_add(old(pool).now, TICKS_PER_SECOND),
                message: ActionMessage::FinishedExecution,
            }),
        ),
{
    let _ = empty;
    pool.write_after(ActionMessage::FinishedExecution, TICKS_PER_SECOND);
}

/// Finish a cast, on the notice that every effect has resolved: only
/// while executing does the sequencer return to idle, and then it asks
/// for a grid refresh and a fresh hand, exactly once per cast.
pub fn post_execute(state: &mut CastState, finished: FinishedExecution) -> (requests: Option<(
    GridRefreshRequest,
    CardRedrawRequest,
)>)
    ensures
        spec_finish_emits(*old(state)) ==> *final(state) == spec_cast_after_finish(*old(state))
            && requests == Some((GridRefreshRequest, CardRedrawRequest)),
        !spec_finish_emits(*old(state)) ==> *final(state) == *old(state) && requests == None::<(
            GridRefreshRequest,
            CardRedrawRequest,
        )>,
{
    let _ = finished;
    match *state {
        CastState::ExecutingActions => {
            *state = CastState::Idle;
            Some((GridRefreshRequest, CardRedrawRequest))
        },
        CastState::Idle => None,
    }
}

/// Cast sequencing, over one whole cast: a trigger while idle moves the
/// sequencer to executing the same step and broadcasts the execute
/// signal; a second trigger before completion changes nothing and emits
/// nothing; completion returns the sequencer to idle and fires the
/// refresh and redraw requests, and a stray completion afterwards fires
/// nothing again — so the follow-on requests fire exactly once per cast.
pub proof fn lemma_cast_sequencing(s0: CastState)
    requires
        s0 is Idle,
    ensures
        ({
            let s1 = spec_cast_after_start(s0);
            let s3 = spec_cast_after_finish(s1);
            &&& spec_start_emits(s0) && s1 is ExecutingActions
            &&& !spec_start_emits(s1)
            &&& spec_finish_emits(s1) && s3 is Idle
            &&& !spec_finish_emits(s3)
        }),
{
}

} // verus!
