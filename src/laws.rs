//! Properties that span several calls of the driver.
use vstd::prelude::*;

use crate::command::{TimerCommand, HALF_RANGE, LOAD_MAX};
use crate::driver::{
    allocate_post, is_earliest, is_pending, lemma_minimal_taken, set_alarm_post, ticks_until,
    trigger_post, DriverState, Exhausted, TriggerOutcome, SENTINEL,
};

verus! {

/// After `k` allocations from a state with nothing handed out, the cursor
/// stands at `k`, capped at the capacity.
proof fn cursor_after_allocations<C>(
    states: Seq<DriverState<C>>,
    results: Seq<Result<u8, Exhausted>>,
    harts: Seq<usize>,
    k: int,
)
    requires
        states.len() == results.len() + 1,
        harts.len() == results.len(),
        states[0].next == 0,
        forall|i: int|
            0 <= i < results.len() ==> allocate_post(
                #[trigger] states[i],
                harts[i],
                results[i],
                states[i + 1],
            ),
        0 <= k < states.len(),
    ensures
        states[k].slots.len() == states[0].slots.len(),
        states[k].next == if k < states[0].slots.len() {
            k
        } else {
            states[0].slots.len() as int
        },
    decreases k,
{
    if k > 0 {
        cursor_after_allocations(states, results, harts, k - 1);
        assert(allocate_post(states[k - 1], harts[k - 1], results[k - 1], states[k]));
    }
}

/// Allocation hands out ids in order: starting with no slot taken, the `k`-th
/// call returns id `k` while `k` is below the capacity, and every later call
/// fails with `Exhausted`.
pub proof fn allocation_is_sequential<C>(
    states: Seq<DriverState<C>>,
    results: Seq<Result<u8, Exhausted>>,
    harts: Seq<usize>,
)
    requires
        states.len() == results.len() + 1,
        harts.len() == results.len(),
        states[0].next == 0,
        forall|i: int|
            0 <= i < results.len() ==> allocate_post(
                #[trigger] states[i],
                harts[i],
                results[i],
                states[i + 1],
            ),
    ensures
        forall|k: int|
            0 <= k < results.len() ==> #[trigger] results[k] == if k < states[0].slots.len() {
                Ok::<u8, Exhausted>(k as u8)
            } else {
                Err::<u8, Exhausted>(Exhausted)
            },
{
    assert forall|k: int| 0 <= k < results.len() implies #[trigger] results[k] == if k
        < states[0].slots.len() {
        Ok::<u8, Exhausted>(k as u8)
    } else {
        Err::<u8, Exhausted>(Exhausted)
    } by {
        cursor_after_allocations(states, results, harts, k);
        assert(allocate_post(states[k], harts[k], results[k], states[k + 1]));
    }
}

/// Once a trigger step finds no pending slot, the timer is stopped; a later
/// spurious interrupt then runs no callback, arms nothing and changes nothing.
pub proof fn quiet_after_last_alarm<C>(
    s0: DriverState<C>,
    now1: u64,
    r1: TriggerOutcome<C>,
    s1: DriverState<C>,
    now2: u64,
    r2: TriggerOutcome<C>,
    s2: DriverState<C>,
)
    requires
        trigger_post(s0, now1, r1, s1),
        !r1.pending,
        trigger_post(s1, now2, r2, s2),
    ensures
        r1.command == TimerCommand::Stop,
        r2.fired is None,
        !r2.pending,
        r2.command == TimerCommand::Stop,
        s2 == s1,
{
}

/// A slot fires once per arming: the trigger step hands back its callback,
/// retires it, and re-arms the timer for some other slot or for none, so the
/// next expiry cannot fire it again unless it is set anew.
pub proof fn fired_slot_is_retired<C>(
    s0: DriverState<C>,
    now: u64,
    r: TriggerOutcome<C>,
    s1: DriverState<C>,
    a: int,
)
    requires
        s0.wf(),
        s0.armed == Some(a),
        trigger_post(s0, now, r, s1),
    ensures
        is_pending(s0.slots[a]),
        r.fired == s0.slots[a].callback,
        s1.slots[a].timestamp == SENTINEL,
        s1.armed != Some(a),
{
}

/// The load for `v` countdown units, split into its two 32-bit halves.
pub open spec fn exact_load(v: nat, hart: usize) -> TimerCommand {
    TimerCommand::Load {
        upper: (v / HALF_RANGE as nat) as u32,
        lower: (v % HALF_RANGE as nat) as u32,
        hart,
    }
}

/// A nearer deadline takes the timer over: while slot `a` is armed, setting
/// another slot `b` to a deadline after `now` and before `a`'s arms `b`,
/// leaves `a` pending as it was, and loads `(t - now) * ratio` countdown
/// units when that fits the register.
pub proof fn nearer_alarm_takes_over<C>(
    pre: DriverState<C>,
    a: int,
    b: int,
    t: u64,
    now: u64,
    r: (bool, TimerCommand),
    post: DriverState<C>,
)
    requires
        pre.wf(),
        pre.armed == Some(a),
        0 <= b < pre.next,
        a != b,
        now < t < pre.slots[a].timestamp,
        (t - now) * pre.ratio <= LOAD_MAX,
        set_alarm_post(pre, b, t, now, r, post),
    ensures
        r == (true, exact_load(((t - now) * pre.ratio) as nat, pre.slots[b].hart)),
        post.armed == Some(b),
        post.slots[a] == pre.slots[a],
        post.slots[b].timestamp == t,
{
    lemma_minimal_taken(pre.slots, pre.armed, b, t);
}

/// On expiry the timer is re-armed toward the earliest remaining deadline,
/// the lowest slot on a tie, and loaded with the ticks left until it times
/// the ratio (none once it has passed), when that fits the register.
pub proof fn trigger_rearms_toward_earliest<C>(
    pre: DriverState<C>,
    now: u64,
    r: TriggerOutcome<C>,
    post: DriverState<C>,
    i: int,
)
    requires
        trigger_post(pre, now, r, post),
        post.armed == Some(i),
        ticks_until(post.slots[i].timestamp, now) * pre.ratio <= LOAD_MAX,
    ensures
        r.pending,
        is_earliest(post.slots, i),
        forall|j: int|
            0 <= j < post.slots.len() && is_pending(#[trigger] post.slots[j]) ==> post.slots[i].timestamp
                <= post.slots[j].timestamp,
        forall|j: int|
            0 <= j < i && is_pending(#[trigger] post.slots[j]) ==> post.slots[i].timestamp
                < post.slots[j].timestamp,
        r.command == exact_load(
            ticks_until(post.slots[i].timestamp, now) * pre.ratio,
            post.slots[i].hart,
        ),
{
}

} // verus!
