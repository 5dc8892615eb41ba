//! The timer task: on every wake of a fixed interval it appends one synthetic record
//! to the store that it alone writes.

use crate::action::Action;
use crate::store::{
    law_revision_counts_appends, lemma_append_all, Services, Snapshot, StoreState,
};
use vstd::arithmetic::div_mod::{
    lemma_fundamental_div_mod, lemma_fundamental_div_mod_converse, lemma_mod_pos_bound,
};
use vstd::prelude::*;

verus! {

/// The interval between two wakes of the timer task, in milliseconds.
pub const TIMER_INTERVAL_MS: u64 = 2000;

/// The record that the timer task appends on every wake.
pub const SYNTHETIC_RECORD: &'static str = "one more";

/// `count` copies of the synthetic record.
pub open spec fn synthetic_records(count: nat) -> Seq<Seq<char>> {
    Seq::new(count, |i: int| SYNTHETIC_RECORD@)
}

/// The mathematical value of a timer task: its store, its interval, and the time it
/// has slept since its last wake, both in milliseconds.
pub struct TimerState {
    pub store: StoreState,
    pub interval: nat,
    pub waited: nat,
}

impl TimerState {
    /// A task that begins its first sleep, with an empty store.
    pub open spec fn start(interval: nat) -> TimerState {
        TimerState { store: StoreState::empty(), interval, waited: 0 }
    }

    /// The interval is positive, and the task has slept for less than one interval.
    pub open spec fn well_formed(self) -> bool {
        0 <= self.waited < self.interval
    }

    /// The task after one wake: one synthetic record more, and the sleep goes on
    /// from where it was.
    pub open spec fn wake(self) -> TimerState {
        TimerState { store: self.store.append(SYNTHETIC_RECORD@), ..self }
    }

    /// How many wakes fall due while `elapsed` milliseconds pass. A wake that falls
    /// due exactly at the end of that time is counted.
    pub open spec fn wakes_due(self, elapsed: nat) -> nat {
        (self.waited + elapsed) / self.interval
    }

    /// The task after `elapsed` milliseconds have passed: every wake that fell due
    /// has been made, and the rest of the time counts towards the next one.
    pub open spec fn advance(self, elapsed: nat) -> TimerState {
        TimerState {
            store: self.store.append_all(synthetic_records(self.wakes_due(elapsed))),
            interval: self.interval,
            waited: (self.waited + elapsed) % self.interval,
        }
    }
}

/// A clock that counts the wakes of a fixed interval as time passes.
pub struct IntervalClock {
    interval_ms: u64,
    waited_ms: u64,
}

impl IntervalClock {
    #[verifier::type_invariant]
    spec fn sound(self) -> bool {
        self.waited_ms < self.interval_ms
    }

    /// The interval, in milliseconds.
    pub closed spec fn interval(self) -> nat {
        self.interval_ms as nat
    }

    /// The time slept since the last wake, in milliseconds.
    pub closed spec fn waited(self) -> nat {
        self.waited_ms as nat
    }

    /// A clock at the beginning of an interval, or nothing where the interval is zero.
    pub fn new(interval_ms: u64) -> (clock: Option<IntervalClock>)
        ensures
            match clock {
                Some(clock) => interval_ms > 0 && clock.interval() == interval_ms
                    && clock.waited() == 0,
                None => interval_ms == 0,
            },
    {
        if interval_ms == 0 {
            None
        } else {
            Some(IntervalClock { interval_ms, waited_ms: 0 })
        }
    }

    /// The interval, in milliseconds. It is positive, and the clock has waited for
    /// less than that.
    pub fn interval_ms(&self) -> (interval_ms: u64)
        ensures
            interval_ms == self.interval(),
            self.waited() < self.interval(),
    {
        proof {
            use_type_invariant(self);
        }
        self.interval_ms
    }

    /// Lets `elapsed_ms` milliseconds pass and returns the number of wakes that fell
    /// due, the one at the very end of that time included.
    pub fn advance(&mut self, elapsed_ms: u64) -> (wakes: u64)
        ensures
            final(self).interval() == old(self).interval(),
            old(self).waited() < old(self).interval(),
            ({
                let total = old(self).waited() + elapsed_ms as nat;
                &&& wakes == total / old(self).interval()
                &&& final(self).waited() == total % old(self).interval()
            }),
    {
        proof {
            use_type_invariant(&*self);
        }
        let total: u128 = self.waited_ms as u128 + elapsed_ms as u128;
        let interval: u128 = self.interval_ms as u128;
        let wakes: u128 = total / interval;
        let rest: u128 = total % interval;
        assert(wakes <= elapsed_ms) by (nonlinear_arith)
            requires
                0 < interval,
                total < interval + elapsed_ms,
                wakes == total / interval,
        ;
        self.waited_ms = rest as u64;
        wakes as u64
    }
}

/// The task that feeds the timer-backed store. It owns the store: nothing else can
/// append to it.
pub struct TimerTask {
    store: Services,
    clock: IntervalClock,
}

impl View for TimerTask {
    type V = TimerState;

    closed spec fn view(&self) -> TimerState {
        TimerState {
            store: self.store@,
            interval: self.clock.interval(),
            waited: self.clock.waited(),
        }
    }
}

impl TimerTask {
    /// A task that begins its first sleep with an empty store, or nothing where the
    /// interval is zero.
    pub fn new(interval_ms: u64) -> (task: Option<TimerTask>)
        ensures
            match task {
                Some(task) => interval_ms > 0 && task@ == TimerState::start(interval_ms as nat),
                None => interval_ms == 0,
            },
    {
        match IntervalClock::new(interval_ms) {
            Some(clock) => Some(TimerTask { store: Services::new(), clock }),
            None => None,
        }
    }

    /// The time to sleep before each wake, in milliseconds. It is positive, and the
    /// task has slept for less than that since its last wake.
    pub fn interval_ms(&self) -> (interval_ms: u64)
        ensures
            interval_ms == self@.interval,
            self@.well_formed(),
    {
        proof {
            use_type_invariant(&self.clock);
        }
        self.clock.interval_ms()
    }

    /// Takes in one wake: appends the synthetic record and asks for a redraw.
    pub fn on_wake(&mut self) -> (action: Action)
        ensures
            final(self)@ == old(self)@.wake(),
            final(self)@.well_formed(),
            action == Action::Refresh,
    {
        proof {
            use_type_invariant(&self.clock);
        }
        self.store.add(SYNTHETIC_RECORD);
        Action::Refresh
    }

    /// Lets `elapsed_ms` milliseconds pass, makes every wake that fell due in that
    /// time, the one at its very end included, and returns their number.
    pub fn advance(&mut self, elapsed_ms: u64) -> (wakes: u64)
        ensures
            final(self)@ == old(self)@.advance(elapsed_ms as nat),
            final(self)@.well_formed(),
            wakes == old(self)@.wakes_due(elapsed_ms as nat),
    {
        let wakes = self.clock.advance(elapsed_ms);
        proof {
            use_type_invariant(&self.clock);
        }
        let ghost clock = self.clock;
        let mut made: u64 = 0;
        assert(synthetic_records(0) =~= Seq::empty());
        while made < wakes
            invariant
                made <= wakes,
                self.clock == clock,
                self.store@ == old(self).store@.append_all(synthetic_records(made as nat)),
            decreases wakes - made,
        {
            self.store.add(SYNTHETIC_RECORD);
            made = made + 1;
            assert(synthetic_records(made as nat).drop_last() =~= synthetic_records(
                (made - 1) as nat,
            ));
        }
        wakes
    }

    /// The store, for reading.
    pub fn store(&self) -> (store: &Services)
        ensures
            store@ == self@.store,
    {
        &self.store
    }

    /// A copy of the store's records and revision as they are now.
    pub fn snapshot(&self) -> (snapshot: Snapshot)
        ensures
            snapshot@ == self@.store,
    {
        self.store.snapshot()
    }
}

/// Appending the synthetic record `first` times and then `second` times appends it
/// `first + second` times.
proof fn lemma_synthetic_records_add(store: StoreState, first: nat, second: nat)
    ensures
        store.append_all(synthetic_records(first)).append_all(synthetic_records(second))
            == store.append_all(synthetic_records(first + second)),
{
    lemma_append_all(store, synthetic_records(first));
    lemma_append_all(store.append_all(synthetic_records(first)), synthetic_records(second));
    lemma_append_all(store, synthetic_records(first + second));
    assert(store.records + synthetic_records(first) + synthetic_records(second)
        =~= store.records + synthetic_records(first + second));
}

/// A timer task that runs for `duration` milliseconds at an interval of `interval`
/// milliseconds makes `duration / interval` appends, rounded down: its store holds
/// that many synthetic records and nothing else, at that revision. A wake that
/// falls due at the very end of the duration is made.
pub proof fn law_wakes_in_duration(interval: nat, duration: nat)
    requires
        interval > 0,
    ensures
        TimerState::start(interval).wakes_due(duration) == duration / interval,
        TimerState::start(interval).advance(duration).store == (StoreState {
            records: synthetic_records(duration / interval),
            revision: duration / interval,
        }),
{
    law_revision_counts_appends(synthetic_records(duration / interval));
}

/// Time adds up: to let `first` milliseconds pass and then `second` is to let
/// `first + second` pass. However a duration is cut into pieces, the same wakes
/// are made.
pub proof fn law_time_adds_up(timer: TimerState, first: nat, second: nat)
    requires
        timer.well_formed(),
    ensures
        timer.advance(first).well_formed(),
        timer.advance(first).advance(second) == timer.advance(first + second),
        timer.wakes_due(first) + timer.advance(first).wakes_due(second) == timer.wakes_due(
            first + second,
        ),
{
    let interval: int = timer.interval as int;
    let begun: int = (timer.waited + first) as int;
    let wakes1: int = begun / interval;
    let rest1: int = begun % interval;
    let resumed: int = rest1 + second;
    let wakes2: int = resumed / interval;
    let rest2: int = resumed % interval;
    lemma_fundamental_div_mod(begun, interval);
    lemma_fundamental_div_mod(resumed, interval);
    lemma_mod_pos_bound(begun, interval);
    lemma_mod_pos_bound(resumed, interval);
    assert(begun + second == (wakes1 + wakes2) * interval + rest2) by (nonlinear_arith)
        requires
            begun == interval * wakes1 + rest1,
            resumed == rest1 + second,
            resumed == interval * wakes2 + rest2,
    ;
    lemma_fundamental_div_mod_converse(begun + second, interval, wakes1 + wakes2, rest2);
    assert(0 <= wakes1) by (nonlinear_arith)
        requires
            0 <= begun,
            0 < interval,
            wakes1 == begun / interval,
    ;
    assert(0 <= wakes2) by (nonlinear_arith)
        requires
            0 <= resumed,
            0 < interval,
            wakes2 == resumed / interval,
    ;
    lemma_synthetic_records_add(timer.store, wakes1 as nat, wakes2 as nat);
}

/// To let one interval pass is to wake once.
pub proof fn law_interval_is_one_wake(timer: TimerState)
    requires
        timer.well_formed(),
    ensures
        timer.wakes_due(timer.interval) == 1,
        timer.advance(timer.interval) == timer.wake(),
{
    let interval: int = timer.interval as int;
    let waited: int = timer.waited as int;
    lemma_fundamental_div_mod_converse(waited + interval, interval, 1, waited);
    lemma_append_all(timer.store, synthetic_records(1));
    assert(timer.store.records + synthetic_records(1) =~= timer.store.records.push(
        SYNTHETIC_RECORD@,
    ));
}

} // verus!
