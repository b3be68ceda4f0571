//! The alarm table, its allocator, and the set/trigger protocol that
//! multiplexes every alarm onto the one countdown timer.
use vstd::prelude::*;

use crate::command::{load_command, load_command_of, TimerCommand};

verus! {

/// The deadline of a slot that has no pending work.
pub const SENTINEL: u64 = 0xffff_ffff_ffff_ffff;

/// The number of alarm slots on the board.
pub const ALARM_COUNT: u8 = 4;

/// One software alarm: its deadline in clock ticks, the core that its
/// interrupt is routed to, and what to run when it fires.
#[derive(Clone, Copy, Debug)]
pub struct AlarmSlot<C> {
    pub timestamp: u64,
    pub hart: usize,
    pub callback: Option<C>,
}

/// Returned by allocation once every slot has been handed out.
#[derive(Clone, Copy, Debug, PartialEq, Eq, Structural)]
pub struct Exhausted;

/// What a trigger step did: the callback that the platform must run once,
/// whether work remains pending, and the timer programming it asks for.
#[derive(Clone, Copy, Debug)]
pub struct TriggerOutcome<C> {
    pub fired: Option<C>,
    pub pending: bool,
    pub command: TimerCommand,
}

/// The abstract state of a driver.
pub ghost struct DriverState<C> {
    /// The alarm table; its length is the capacity.
    pub slots: Seq<AlarmSlot<C>>,
    /// How many slots have been handed out; they are `0..next`.
    pub next: nat,
    /// The slot the countdown timer currently counts toward, if any.
    pub armed: Option<int>,
    /// Countdown units per clock tick.
    pub ratio: nat,
}

/// `s` with its deadline replaced by `t`.
pub open spec fn retimed<C>(s: AlarmSlot<C>, t: u64) -> AlarmSlot<C> {
    AlarmSlot { timestamp: t, hart: s.hart, callback: s.callback }
}

/// The slot has a deadline to fire at.
pub open spec fn is_pending<C>(s: AlarmSlot<C>) -> bool {
    s.timestamp != SENTINEL
}

/// Slot `i` holds the earliest pending deadline among slots `0..k`, and no
/// lower slot holds the same deadline.
pub open spec fn is_earliest_below<C>(slots: Seq<AlarmSlot<C>>, i: int, k: int) -> bool {
    &&& 0 <= i < k <= slots.len()
    &&& is_pending(slots[i])
    &&& forall|j: int|
        0 <= j < k && is_pending(#[trigger] slots[j]) ==> slots[i].timestamp <= slots[j].timestamp
    &&& forall|j: int|
        0 <= j < i && is_pending(#[trigger] slots[j]) ==> slots[i].timestamp < slots[j].timestamp
}

/// Slot `i` holds the earliest pending deadline of the table, lowest id first.
pub open spec fn is_earliest<C>(slots: Seq<AlarmSlot<C>>, i: int) -> bool {
    is_earliest_below(slots, i, slots.len() as int)
}

/// Slot `i` is pending and no pending slot has an earlier deadline.
pub open spec fn is_minimal<C>(slots: Seq<AlarmSlot<C>>, i: int) -> bool {
    &&& 0 <= i < slots.len()
    &&& is_pending(slots[i])
    &&& forall|j: int|
        0 <= j < slots.len() && is_pending(#[trigger] slots[j]) ==> slots[i].timestamp
            <= slots[j].timestamp
}

/// No slot among `0..k` has pending work.
pub open spec fn none_pending_below<C>(slots: Seq<AlarmSlot<C>>, k: int) -> bool {
    forall|j: int| 0 <= j < k ==> !is_pending(#[trigger] slots[j])
}

/// No slot of the table has pending work.
pub open spec fn none_pending<C>(slots: Seq<AlarmSlot<C>>) -> bool {
    none_pending_below(slots, slots.len() as int)
}

/// Clock ticks from `now` until `deadline`, zero once it has passed.
pub open spec fn ticks_until(deadline: u64, now: u64) -> nat {
    if deadline < now {
        0
    } else {
        (deadline - now) as nat
    }
}

impl<C> DriverState<C> {
    /// The table fits the 8-bit cursor, only handed-out slots are pending,
    /// and the timer counts toward a pending slot with the earliest deadline,
    /// or toward nothing when no slot is pending.
    pub open spec fn wf(self) -> bool {
        &&& self.slots.len() <= 255
        &&& self.next <= self.slots.len()
        &&& (self.armed matches Some(a) ==> 0 <= a < self.next)
        &&& forall|j: int| self.next <= j < self.slots.len() ==> !is_pending(#[trigger] self.slots[j])
        &&& match self.armed {
            Some(a) => is_minimal(self.slots, a),
            None => none_pending(self.slots),
        }
    }

    /// The deadline that the timer counts toward.
    pub open spec fn armed_deadline(self) -> u64 {
        match self.armed {
            Some(a) => self.slots[a].timestamp,
            None => SENTINEL,
        }
    }

    /// The freshly built driver of `capacity` inactive slots.
    pub open spec fn is_fresh(self, capacity: nat, ratio: nat) -> bool {
        &&& self.slots.len() == capacity
        &&& self.next == 0
        &&& self.armed is None
        &&& self.ratio == ratio
        &&& forall|j: int|
            0 <= j < capacity ==> (#[trigger] self.slots[j]) == (AlarmSlot::<C> {
                timestamp: SENTINEL,
                hart: 0,
                callback: None,
            })
    }

    /// The table once slot `n` holds deadline `t`.
    pub open spec fn stored(self, n: int, t: u64) -> Seq<AlarmSlot<C>> {
        self.slots.update(n, retimed(self.slots[n], t))
    }

    /// The table once the armed slot is retired.
    pub open spec fn retired(self) -> Seq<AlarmSlot<C>> {
        match self.armed {
            Some(a) => self.slots.update(a, retimed(self.slots[a], SENTINEL)),
            None => self.slots,
        }
    }

    /// The callback that runs when the armed slot fires.
    pub open spec fn fired_callback(self) -> Option<C> {
        match self.armed {
            Some(a) => self.slots[a].callback,
            None => None,
        }
    }
}

/// Allocation from `pre` on core `hart` returned `r` and left `post`.
pub open spec fn allocate_post<C>(
    pre: DriverState<C>,
    hart: usize,
    r: Result<u8, Exhausted>,
    post: DriverState<C>,
) -> bool {
    if pre.next < pre.slots.len() {
        let n = pre.next as int;
        &&& r == Ok::<u8, Exhausted>(n as u8)
        &&& post == DriverState {
            slots: pre.slots.update(
                n,
                AlarmSlot { timestamp: pre.slots[n].timestamp, hart, callback: pre.slots[n].callback },
            ),
            next: pre.next + 1,
            ..pre
        }
    } else {
        r == Err::<u8, Exhausted>(Exhausted) && post == pre
    }
}

/// The timer, asked for by `cmd`, counts toward the earliest pending slot of
/// `slots`, named by `armed`; or it is stopped and `armed` is empty when no
/// slot is pending.
pub open spec fn rearmed<C>(
    slots: Seq<AlarmSlot<C>>,
    now: u64,
    ratio: nat,
    cmd: TimerCommand,
    armed: Option<int>,
) -> bool {
    if none_pending(slots) {
        cmd == TimerCommand::Stop && armed is None
    } else {
        armed matches Some(i) && is_earliest(slots, i) && cmd == load_command_of(
            ticks_until(slots[i].timestamp, now),
            ratio,
            slots[i].hart,
        )
    }
}

/// Setting slot `n` to deadline `t` at clock `now` from `pre` returned `r`
/// and left `post`.
///
/// The deadline is compared with the one the timer counts toward (with `t`
/// itself when `n` is the armed slot). When it is later, or `t` is the
/// sentinel, the deadline is stored and the timer left alone. Otherwise, a
/// deadline that has passed is refused and the slot retired; a future one is
/// stored and the timer loaded for it. When `n` was the armed slot, the timer
/// is instead pointed at the earliest deadline left, found by a fresh scan.
pub open spec fn set_alarm_post<C>(
    pre: DriverState<C>,
    n: int,
    t: u64,
    now: u64,
    r: (bool, TimerCommand),
    post: DriverState<C>,
) -> bool {
    let ahead = if pre.armed == Some(n) {
        t
    } else {
        pre.armed_deadline()
    };
    let nearest = t != SENTINEL && t <= ahead;
    let expired = nearest && t <= now;
    let table = if expired {
        pre.stored(n, SENTINEL)
    } else {
        pre.stored(n, t)
    };
    &&& r.0 == !expired
    &&& post.slots == table
    &&& post.next == pre.next
    &&& post.ratio == pre.ratio
    &&& if pre.armed == Some(n) {
        rearmed(table, now, pre.ratio, r.1, post.armed)
    } else if nearest && !expired {
        &&& r.1 == load_command_of((t - now) as nat, pre.ratio, pre.slots[n].hart)
        &&& post.armed == Some(n)
    } else {
        r.1 == TimerCommand::Keep && post.armed == pre.armed
    }
}

/// A trigger step at clock `now` from `pre` returned `r` and left `post`.
pub open spec fn trigger_post<C>(
    pre: DriverState<C>,
    now: u64,
    r: TriggerOutcome<C>,
    post: DriverState<C>,
) -> bool {
    let slots = pre.retired();
    &&& r.fired == pre.fired_callback()
    &&& post.slots == slots
    &&& post.next == pre.next
    &&& post.ratio == pre.ratio
    &&& r.pending == !none_pending(slots)
    &&& rearmed(slots, now, pre.ratio, r.command, post.armed)
}

/// A slot `a` with the earliest deadline keeps it when another slot `n`
/// takes a deadline no earlier, or none.
pub proof fn lemma_minimal_kept<C>(slots: Seq<AlarmSlot<C>>, a: int, n: int, t: u64)
    requires
        is_minimal(slots, a),
        0 <= n < slots.len(),
        n != a,
        t >= slots[a].timestamp,
    ensures
        is_minimal(slots.update(n, retimed(slots[n], t)), a),
{
    let s2 = slots.update(n, retimed(slots[n], t));
    assert forall|j: int| 0 <= j < s2.len() && is_pending(#[trigger] s2[j]) implies s2[a].timestamp
        <= s2[j].timestamp by {
        if j != n {
            assert(is_pending(slots[j]));
        }
    }
}

/// Slot `n` takes the earliest deadline when its new deadline is no later
/// than that of the slot `a` holding the earliest one, or when no slot was
/// pending.
pub proof fn lemma_minimal_taken<C>(slots: Seq<AlarmSlot<C>>, armed: Option<int>, n: int, t: u64)
    requires
        0 <= n < slots.len(),
        t != SENTINEL,
        match armed {
            Some(a) => is_minimal(slots, a) && t <= slots[a].timestamp,
            None => none_pending(slots),
        },
    ensures
        is_minimal(slots.update(n, retimed(slots[n], t)), n),
{
    let s2 = slots.update(n, retimed(slots[n], t));
    assert forall|j: int| 0 <= j < s2.len() && is_pending(#[trigger] s2[j]) implies t
        <= s2[j].timestamp by {
        if j != n {
            assert(is_pending(slots[j]));
        }
    }
}

/// Retiring a slot keeps a table without pending work so.
pub proof fn lemma_none_pending_kept<C>(slots: Seq<AlarmSlot<C>>, n: int)
    requires
        none_pending(slots),
        0 <= n < slots.len(),
    ensures
        none_pending(slots.update(n, retimed(slots[n], SENTINEL))),
{
    let s2 = slots.update(n, retimed(slots[n], SENTINEL));
    assert forall|j: int| 0 <= j < s2.len() implies !is_pending(#[trigger] s2[j]) by {
        if j != n {
            assert(!is_pending(slots[j]));
        }
    }
}

/// The driver: a fixed table of alarm slots, an allocation cursor, and the
/// slot that the countdown timer is programmed for.
///
/// Every method assumes exclusive access; the platform calls them inside its
/// cross-core critical section.
pub struct TimeDriver<C> {
    alarms: Vec<AlarmSlot<C>>,
    next_alarm: u8,
    current_alarm: Option<u8>,
    clock_ratio: u64,
}

impl<C> View for TimeDriver<C> {
    type V = DriverState<C>;

    closed spec fn view(&self) -> DriverState<C> {
        DriverState {
            slots: self.alarms@,
            next: self.next_alarm as nat,
            armed: match self.current_alarm {
                Some(a) => Some(a as int),
                None => None,
            },
            ratio: self.clock_ratio as nat,
        }
    }
}

impl<C: Copy> TimeDriver<C> {
    /// Brings up a driver of `capacity` inactive slots whose timer counts
    /// `clock_ratio` units per clock tick.
    pub fn new(capacity: u8, clock_ratio: u64) -> (r: Self)
        ensures
            r@.wf(),
            r@.is_fresh(capacity as nat, clock_ratio as nat),
    {
        let mut alarms: Vec<AlarmSlot<C>> = Vec::new();
        let mut i: u8 = 0;
        while i < capacity
            invariant
                i <= capacity,
                alarms@.len() == i,
                forall|j: int|
                    0 <= j < i ==> (#[trigger] alarms@[j]) == (AlarmSlot::<C> {
                        timestamp: SENTINEL,
                        hart: 0,
                        callback: None,
                    }),
            decreases capacity - i,
        {
            alarms.push(AlarmSlot { timestamp: SENTINEL, hart: 0, callback: None });
            i = i + 1;
        }
        TimeDriver { alarms, next_alarm: 0, current_alarm: None, clock_ratio }
    }

    /// Hands out the next unused slot and records core `hart` as its owner;
    /// fails once all slots are taken. Ids are never reused.
    pub fn allocate_alarm(&mut self, hart: usize) -> (r: Result<u8, Exhausted>)
        requires
            old(self)@.wf(),
        ensures
            final(self)@.wf(),
            allocate_post(old(self)@, hart, r, final(self)@),
    {
        if (self.next_alarm as usize) < self.alarms.len() {
            let id: u8 = self.next_alarm;
            let slot = self.alarms[id as usize];
            self.alarms[id as usize] = AlarmSlot { timestamp: slot.timestamp, hart, callback: slot.callback };
            self.next_alarm = id + 1;
            Ok(id)
        } else {
            Err(Exhausted)
        }
    }

    /// Registers `callback` for slot `alarm`, replacing any earlier one.
    pub fn set_alarm_callback(&mut self, alarm: u8, callback: C)
        requires
            old(self)@.wf(),
            (alarm as nat) < old(self)@.next,
        ensures
            final(self)@.wf(),
            final(self)@ == (DriverState {
                slots: old(self)@.slots.update(
                    alarm as int,
                    AlarmSlot {
                        timestamp: old(self)@.slots[alarm as int].timestamp,
                        hart: old(self)@.slots[alarm as int].hart,
                        callback: Some(callback),
                    },
                ),
                ..old(self)@
            }),
    {
        let slot = self.alarms[alarm as usize];
        self.alarms[alarm as usize] = AlarmSlot { timestamp: slot.timestamp, hart: slot.hart, callback: Some(callback) };
    }

    /// The earliest pending slot, the lowest id on a tie.
    fn earliest(&self) -> (r: Option<usize>)
        ensures
            match r {
                Some(i) => is_earliest(self@.slots, i as int),
                None => none_pending(self@.slots),
            },
    {
        let mut first: Option<usize> = None;
        let mut i: usize = 0;
        while i < self.alarms.len()
            invariant
                0 <= i <= self.alarms@.len(),
                match first {
                    Some(p) => is_earliest_below(self.alarms@, p as int, i as int),
                    None => none_pending_below(self.alarms@, i as int),
                },
            decreases self.alarms@.len() - i,
        {
            let ts: u64 = self.alarms[i].timestamp;
            let nearer: bool = match first {
                Some(p) => ts < self.alarms[p].timestamp,
                None => true,
            };
            if ts != SENTINEL && nearer {
                first = Some(i);
            }
            i = i + 1;
        }
        first
    }

    /// Points the timer at `first`, the earliest pending slot, or stops it.
    fn rearm(&mut self, first: Option<usize>, now: u64) -> (cmd: TimerCommand)
        requires
            old(self)@.slots.len() <= 255,
            match first {
                Some(i) => is_earliest(old(self)@.slots, i as int),
                None => none_pending(old(self)@.slots),
            },
        ensures
            final(self)@.slots == old(self)@.slots,
            final(self)@.next == old(self)@.next,
            final(self)@.ratio == old(self)@.ratio,
            rearmed(old(self)@.slots, now, old(self)@.ratio, cmd, final(self)@.armed),
    {
        match first {
            Some(p) => {
                let slot = self.alarms[p];
                let interval: u64 = if slot.timestamp < now {
                    0
                } else {
                    slot.timestamp - now
                };
                self.current_alarm = Some(p as u8);
                load_command(interval, self.clock_ratio, slot.hart)
            },
            None => {
                self.current_alarm = None;
                TimerCommand::Stop
            },
        }
    }

    /// Sets slot `alarm` to fire at clock tick `timestamp`, the clock reading
    /// `now`.
    ///
    /// Returns `false` when the deadline is not later than the one the timer
    /// counts toward and has already passed: the slot is then retired and the
    /// caller must react itself. Otherwise the alarm stays pending, and the
    /// command reprograms the timer whenever the nearest deadline changed.
    pub fn set_alarm(&mut self, alarm: u8, timestamp: u64, now: u64) -> (r: (bool, TimerCommand))
        requires
            old(self)@.wf(),
            (alarm as nat) < old(self)@.next,
        ensures
            final(self)@.wf(),
            set_alarm_post(old(self)@, alarm as int, timestamp, now, r, final(self)@),
            r.1 is Load ==> (final(self)@.armed matches Some(i) && is_minimal(final(self)@.slots, i)),
            timestamp <= now && timestamp != SENTINEL && (old(self)@.armed == Some(alarm as int)
                || timestamp <= old(self)@.armed_deadline()) ==> !r.0 && final(self)@.slots[alarm as int].timestamp
                == SENTINEL,
            timestamp > now && timestamp != SENTINEL && old(self)@.armed is None ==> r == (true, load_command_of(
                (timestamp - now) as nat,
                old(self)@.ratio,
                old(self)@.slots[alarm as int].hart,
            )),
    {
        let n = alarm as usize;
        let slot = self.alarms[n];
        let ghost pre = old(self)@;
        let was_armed: bool = match self.current_alarm {
            Some(a) => a == alarm,
            None => false,
        };
        if was_armed {
            // the armed slot moved: the nearest deadline is found afresh
            let expired: bool = timestamp != SENTINEL && timestamp <= now;
            let kept: u64 = if expired {
                SENTINEL
            } else {
                timestamp
            };
            self.alarms[n] = AlarmSlot { timestamp: kept, hart: slot.hart, callback: slot.callback };
            assert(self@.slots =~= pre.stored(n as int, kept));
            let first = self.earliest();
            let command = self.rearm(first, now);
            return (!expired, command);
        }
        // another slot (or none) is armed, with the earliest deadline
        let ahead: u64 = match self.current_alarm {
            Some(a) => self.alarms[a as usize].timestamp,
            None => SENTINEL,
        };
        if timestamp == SENTINEL || timestamp > ahead {
            self.alarms[n] = AlarmSlot { timestamp, hart: slot.hart, callback: slot.callback };
            assert(self@.slots =~= pre.stored(n as int, timestamp));
            proof {
                match pre.armed {
                    Some(a) => lemma_minimal_kept(pre.slots, a, n as int, timestamp),
                    None => lemma_none_pending_kept(pre.slots, n as int),
                }
            }
            return (true, TimerCommand::Keep);
        }
        if timestamp <= now {
            self.alarms[n] = AlarmSlot { timestamp: SENTINEL, hart: slot.hart, callback: slot.callback };
            assert(self@.slots =~= pre.stored(n as int, SENTINEL));
            proof {
                match pre.armed {
                    Some(a) => lemma_minimal_kept(pre.slots, a, n as int, SENTINEL),
                    None => lemma_none_pending_kept(pre.slots, n as int),
                }
            }
            return (false, TimerCommand::Keep);
        }
        self.alarms[n] = AlarmSlot { timestamp, hart: slot.hart, callback: slot.callback };
        assert(self@.slots =~= pre.stored(n as int, timestamp));
        proof {
            lemma_minimal_taken(pre.slots, pre.armed, n as int, timestamp);
        }
        let command = load_command(timestamp - now, self.clock_ratio, slot.hart);
        self.current_alarm = Some(alarm);
        (true, command)
    }

    /// Services one expiry of the countdown timer at clock `now`.
    ///
    /// Retires the armed slot and hands back its callback, to be run once;
    /// then re-arms the timer for the earliest pending deadline (the lowest
    /// slot on a tie), or stops it when nothing is pending.
    pub fn trigger_alarm(&mut self, now: u64) -> (r: TriggerOutcome<C>)
        requires
            old(self)@.wf(),
        ensures
            final(self)@.wf(),
            trigger_post(old(self)@, now, r, final(self)@),
    {
        let fired: Option<C> = match self.current_alarm {
            Some(a) => {
                let slot = self.alarms[a as usize];
                self.alarms[a as usize] = AlarmSlot { timestamp: SENTINEL, hart: slot.hart, callback: slot.callback };
                slot.callback
            },
            None => None,
        };
        assert(self@.slots =~= old(self)@.retired());
        let first = self.earliest();
        let command = self.rearm(first, now);
        TriggerOutcome { fired, pending: first.is_some(), command }
    }

    /// The deadline stored in slot `alarm`; `SENTINEL` when it is inactive.
    pub fn deadline(&self, alarm: u8) -> (r: u64)
        requires
            (alarm as nat) < self@.slots.len(),
        ensures
            r == self@.slots[alarm as int].timestamp,
    {
        self.alarms[alarm as usize].timestamp
    }

    /// The core that slot `alarm` interrupts when it fires.
    pub fn owner(&self, alarm: u8) -> (r: usize)
        requires
            (alarm as nat) < self@.slots.len(),
        ensures
            r == self@.slots[alarm as int].hart,
    {
        self.alarms[alarm as usize].hart
    }

    /// How many slots have been handed out; they are `0..allocated()`.
    pub fn allocated(&self) -> (r: u8)
        ensures
            r as nat == self@.next,
    {
        self.next_alarm
    }

    /// The slot that the countdown timer counts toward, if any.
    pub fn armed_alarm(&self) -> (r: Option<u8>)
        ensures
            r matches Some(a) ==> self@.armed == Some(a as int),
            r is None ==> self@.armed is None,
    {
        self.current_alarm
    }
}

} // verus!
