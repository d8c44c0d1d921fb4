//! The clock as a state machine over mathematical values: what each
//! operation of the clock does, and the laws that follow.

use crate::engine_core::mixed_radix::lemma_advance_adds;
use crate::engine_core::mixed_radix::lemma_carried_is_canonical;
use crate::engine_core::mixed_radix::MixedRadixTime;
use crate::engine_core::mixed_radix::TimeValue;
use vstd::prelude::*;

verus! {

/// A deferred event: the time it is due, the number it got when it was
/// scheduled, and what the caller wants back when it fires.
pub struct TemporalEvent<P> {
    pub time: MixedRadixTime,
    pub id: u64,
    pub payload: P,
}

/// The order in which events fire: by ascending target time, and among
/// events of one target time by ascending scheduling number.
pub open spec fn fires_before<P>(a: TemporalEvent<P>, b: TemporalEvent<P>) -> bool {
    if a.time == b.time {
        a.id < b.id
    } else {
        a.time@.at_or_before(b.time@)
    }
}

/// Every event of the sequence fires before each one that stands after it.
pub open spec fn in_firing_order<P>(events: Seq<TemporalEvent<P>>) -> bool {
    forall|i: int, j: int| 0 <= i < j < events.len() ==> fires_before(events[i], events[j])
}

/// No two events of the sequence carry the same scheduling number.
pub open spec fn distinct_ids<P>(events: Seq<TemporalEvent<P>>) -> bool {
    forall|i: int, j: int|
        0 <= i < events.len() && 0 <= j < events.len() && i != j ==> events[i].id != events[j].id
}

/// How many events at the head of `pending` are due at `now`: the head is
/// inspected, and counted if its target time is at or before `now`, until one
/// is not.
pub open spec fn leading_due<P>(pending: Seq<TemporalEvent<P>>, now: TimeValue) -> nat
    decreases pending.len(),
{
    if pending.len() == 0 || !pending[0].time@.at_or_before(now) {
        0
    } else {
        1 + leading_due(pending.skip(1), now)
    }
}

/// The time scale at which simulated time runs at the pace of the wall
/// clock. A time scale is counted in millionths.
pub const REAL_TIME: u64 = 1_000_000;

/// Microseconds per millisecond, times the millionths in which a time scale
/// is counted.
pub const SCALE_DIVISOR: u64 = 1_000_000_000;

/// The simulated milliseconds that `elapsed_us` microseconds of wall-clock
/// time are worth at a time scale of `scale` millionths: the product in
/// whole milliseconds, rounded down, and at most `u32::MAX`.
pub open spec fn scaled_delta_ms(elapsed_us: nat, scale: nat) -> nat {
    let ms = elapsed_us * scale / (SCALE_DIVISOR as nat);
    if ms > u32::MAX {
        u32::MAX as nat
    } else {
        ms
    }
}

/// The state of a clock.
pub struct ClockState<P> {
    /// The current simulated time.
    pub time: TimeValue,
    /// The time scale in millionths: `REAL_TIME` runs at the pace of the
    /// wall clock, 0 stands still.
    pub time_scale: nat,
    /// Whether the clock is paused.
    pub paused: bool,
    /// The wall-clock reading, in microseconds, from which the next update
    /// measures. `None` until the first update or resume.
    pub baseline: Option<nat>,
    /// The events that wait, in firing order.
    pub pending: Seq<TemporalEvent<P>>,
    /// The number that the next scheduled event gets.
    pub next_event_id: nat,
    pub sub_ticks_per_tick: nat,
    pub ms_per_sub_tick: nat,
    /// The simulated milliseconds of the last update that advanced.
    pub last_delta_ms: nat,
}

impl<P> ClockState<P> {
    /// A running clock at time zero, at the pace of the wall clock, with no
    /// baseline and nothing pending.
    pub open spec fn initial(sub_ticks_per_tick: nat, ms_per_sub_tick: nat) -> ClockState<P> {
        ClockState {
            time: TimeValue::zero(),
            time_scale: REAL_TIME as nat,
            paused: false,
            baseline: None,
            pending: Seq::empty(),
            next_event_id: 0,
            sub_ticks_per_tick,
            ms_per_sub_tick,
            last_delta_ms: 0,
        }
    }

    /// The radices are positive, the current time and every target time are
    /// canonical, the pending events stand in firing order and carry
    /// different numbers, all of which were handed out, and every counter
    /// fits its machine integer.
    pub open spec fn wf(self) -> bool {
        &&& 0 < self.sub_ticks_per_tick <= u32::MAX
        &&& 0 < self.ms_per_sub_tick <= u32::MAX
        &&& self.time.is_canonical(self.sub_ticks_per_tick, self.ms_per_sub_tick)
        &&& self.time.fits()
        &&& self.time_scale <= i64::MAX
        &&& self.last_delta_ms <= u32::MAX
        &&& self.next_event_id <= u64::MAX
        &&& (self.baseline matches Some(at) ==> at <= u64::MAX)
        &&& in_firing_order(self.pending)
        &&& distinct_ids(self.pending)
        &&& forall|i: int|
            0 <= i < self.pending.len() ==> {
                &&& (#[trigger] self.pending[i]).id < self.next_event_id
                &&& self.pending[i].time@.is_canonical(
                    self.sub_ticks_per_tick,
                    self.ms_per_sub_tick,
                )
            }
    }

    /// Whether an update at this moment advances the time: the clock runs
    /// and has a baseline to measure from.
    pub open spec fn advances(self) -> bool {
        !self.paused && self.baseline is Some
    }

    /// The simulated milliseconds that an update at wall-clock reading
    /// `now_us` adds: the time since the baseline, scaled. A reading before
    /// the baseline counts as no time.
    pub open spec fn delta_at(self, now_us: nat) -> nat {
        match self.baseline {
            Some(at) => scaled_delta_ms(
                if now_us >= at {
                    (now_us - at) as nat
                } else {
                    0
                },
                self.time_scale,
            ),
            None => 0,
        }
    }

    /// The simulated time after an update at `now_us`.
    pub open spec fn time_at(self, now_us: nat) -> TimeValue {
        if self.advances() {
            self.time.advanced(self.delta_at(now_us), self.sub_ticks_per_tick, self.ms_per_sub_tick)
        } else {
            self.time
        }
    }

    /// Whether an update at `now_us` keeps the time within its fields.
    pub open spec fn can_update(self, now_us: nat) -> bool {
        self.time_at(now_us).fits()
    }

    /// The events that wait and are due now, in firing order.
    pub open spec fn due(self) -> Seq<TemporalEvent<P>> {
        self.pending.take(leading_due(self.pending, self.time) as int)
    }

    /// The clock after the events that are due now have left the queue.
    pub open spec fn drained(self) -> ClockState<P> {
        ClockState {
            pending: self.pending.skip(leading_due(self.pending, self.time) as int),
            ..self
        }
    }

    /// The clock after its time moved to an update at `now_us`, before any
    /// event fires. A paused clock stays as it is. A clock without a
    /// baseline takes `now_us` as its baseline and does not advance.
    pub open spec fn ticked(self, now_us: nat) -> ClockState<P> {
        if self.paused {
            self
        } else if self.baseline is None {
            ClockState { baseline: Some(now_us), ..self }
        } else {
            ClockState {
                time: self.time_at(now_us),
                baseline: Some(now_us),
                last_delta_ms: self.delta_at(now_us),
                ..self
            }
        }
    }

    /// The clock after an update at `now_us`: the time moves, then the events
    /// that are due at the new time leave the queue. Nothing fires on an
    /// update that does not advance.
    pub open spec fn updated(self, now_us: nat) -> ClockState<P> {
        if self.advances() {
            self.ticked(now_us).drained()
        } else {
            self.ticked(now_us)
        }
    }

    /// The events that an update at `now_us` fires, in firing order.
    pub open spec fn fired(self, now_us: nat) -> Seq<TemporalEvent<P>> {
        if self.advances() {
            self.ticked(now_us).due()
        } else {
            Seq::empty()
        }
    }

    /// The target time of an event scheduled now with `delay`: the field-wise
    /// sum of the current time and the delay, carried.
    pub open spec fn target(self, delay: TimeValue) -> TimeValue {
        self.time.plus(delay).carried(self.sub_ticks_per_tick, self.ms_per_sub_tick)
    }

    /// Whether an event with `delay` can be scheduled: its target time fits
    /// the fields and a scheduling number is left.
    pub open spec fn can_schedule(self, delay: TimeValue) -> bool {
        self.target(delay).fits() && self.next_event_id < u64::MAX
    }

    /// The event that scheduling with `delay` and `payload` creates.
    pub open spec fn new_event(self, delay: TimeValue, payload: P) -> TemporalEvent<P> {
        let target = self.target(delay);
        TemporalEvent {
            time: MixedRadixTime {
                frame_count: target.frame_count as u64,
                ticks: target.ticks as u64,
                sub_ticks: target.sub_ticks as u32,
                milliseconds: target.milliseconds as u32,
            },
            id: self.next_event_id as u64,
            payload,
        }
    }

    /// The clock after an event was scheduled: the event stands behind every
    /// pending event whose target time is at or before its own.
    pub open spec fn scheduled(self, delay: TimeValue, payload: P) -> ClockState<P> {
        ClockState {
            pending: self.pending.insert(
                leading_due(self.pending, self.target(delay)) as int,
                self.new_event(delay, payload),
            ),
            next_event_id: self.next_event_id + 1,
            ..self
        }
    }

    /// The clock after a pause: only the flag changes.
    pub open spec fn paused_state(self) -> ClockState<P> {
        ClockState { paused: true, ..self }
    }

    /// The clock after a resume at wall-clock reading `now_us`: it runs, and
    /// measures from `now_us`.
    pub open spec fn resumed(self, now_us: nat) -> ClockState<P> {
        ClockState { paused: false, baseline: Some(now_us), ..self }
    }

    /// The clock after its time scale was set: a negative scale counts as
    /// zero.
    pub open spec fn with_time_scale(self, scale: int) -> ClockState<P> {
        ClockState {
            time_scale: if scale < 0 {
                0
            } else {
                scale as nat
            },
            ..self
        }
    }
}

/// The lexicographic order of times is total and transitive.
pub proof fn lemma_time_order(a: TimeValue, b: TimeValue, c: TimeValue)
    ensures
        a.at_or_before(a),
        a.at_or_before(b) || b.at_or_before(a),
        a.at_or_before(b) && b.at_or_before(a) ==> a == b,
        a.at_or_before(b) && b.at_or_before(c) ==> a.at_or_before(c),
{
}

/// The count of leading due events stops within the sequence, every event
/// that it counts is due, and the event at which it stops is not.
pub proof fn lemma_leading_due_stops<P>(pending: Seq<TemporalEvent<P>>, now: TimeValue)
    ensures
        leading_due(pending, now) <= pending.len(),
        forall|i: int|
            0 <= i < leading_due(pending, now) ==> (#[trigger] pending[i]).time@.at_or_before(now),
        leading_due(pending, now) < pending.len() ==> !pending[leading_due(
            pending,
            now,
        ) as int].time@.at_or_before(now),
    decreases pending.len(),
{
    if pending.len() > 0 && pending[0].time@.at_or_before(now) {
        let rest = pending.skip(1);
        lemma_leading_due_stops(rest, now);
        assert forall|i: int| 0 <= i < leading_due(pending, now) implies (
        #[trigger] pending[i]).time@.at_or_before(now) by {
            if i > 0 {
                assert(pending[i] == rest[i - 1]);
            }
        }
        if leading_due(pending, now) < pending.len() {
            assert(pending[leading_due(pending, now) as int] == rest[leading_due(rest, now) as int]);
        }
    }
}

/// Where the first `count` events are due and the next one, if there is one,
/// is not, `count` is the count of leading due events.
pub proof fn lemma_leading_due_is<P>(pending: Seq<TemporalEvent<P>>, now: TimeValue, count: nat)
    requires
        count <= pending.len(),
        forall|i: int| 0 <= i < count ==> (#[trigger] pending[i]).time@.at_or_before(now),
        count < pending.len() ==> !pending[count as int].time@.at_or_before(now),
    ensures
        leading_due(pending, now) == count,
    decreases count,
{
    if count > 0 {
        let rest = pending.skip(1);
        assert(pending[0].time@.at_or_before(now));
        assert forall|i: int| 0 <= i < count - 1 implies (#[trigger] rest[i]).time@.at_or_before(
            now,
        ) by {
            assert(rest[i] == pending[i + 1]);
        }
        if count < pending.len() {
            assert(rest[count - 1] == pending[count as int]);
        }
        lemma_leading_due_is(rest, now, (count - 1) as nat);
    }
}

/// In a sequence that stands in firing order, the leading due events are all
/// the due events: none behind them is due.
pub proof fn lemma_due_are_leading<P>(pending: Seq<TemporalEvent<P>>, now: TimeValue)
    requires
        in_firing_order(pending),
    ensures
        forall|i: int|
            leading_due(pending, now) <= i < pending.len() ==> !(#[trigger] pending[i]).time@.at_or_before(
                now,
            ),
{
    lemma_leading_due_stops(pending, now);
    let count = leading_due(pending, now) as int;
    assert forall|i: int| count <= i < pending.len() implies !(
    #[trigger] pending[i]).time@.at_or_before(now) by {
        if i > count {
            assert(fires_before(pending[count], pending[i]));
            lemma_time_order(pending[count].time@, pending[i].time@, now);
        }
    }
}

/// Draining a clock fires exactly the events that are due. The events that
/// fire and the events that stay make up the queue as it was; each event
/// that fires has a target time at or before the current time; each that
/// stays has a later one; no event that fires stays; and the events fire in
/// firing order, so that among events of one target time the one scheduled
/// first fires first.
pub proof fn lemma_drain_fires_the_due<P>(state: ClockState<P>)
    requires
        in_firing_order(state.pending),
        distinct_ids(state.pending),
    ensures
        state.due() + state.drained().pending == state.pending,
        in_firing_order(state.due()),
        in_firing_order(state.drained().pending),
        distinct_ids(state.drained().pending),
        forall|i: int|
            0 <= i < state.due().len() ==> (#[trigger] state.due()[i]).time@.at_or_before(
                state.time,
            ),
        forall|i: int|
            0 <= i < state.drained().pending.len() ==> !(
            #[trigger] state.drained().pending[i]).time@.at_or_before(state.time),
        forall|i: int, j: int|
            0 <= i < state.due().len() && 0 <= j < state.drained().pending.len() ==> (
            #[trigger] state.due()[i]).id != (#[trigger] state.drained().pending[j]).id,
{
    let count = leading_due(state.pending, state.time) as int;
    lemma_leading_due_stops(state.pending, state.time);
    lemma_due_are_leading(state.pending, state.time);
    let due = state.due();
    let rest = state.drained().pending;
    assert(due + rest =~= state.pending);
    assert forall|i: int, j: int| 0 <= i < j < rest.len() implies fires_before(
        rest[i],
        rest[j],
    ) by {
        assert(rest[i] == state.pending[count + i]);
        assert(rest[j] == state.pending[count + j]);
    }
    assert forall|i: int| 0 <= i < rest.len() implies !(#[trigger] rest[i]).time@.at_or_before(
        state.time,
    ) by {
        assert(rest[i] == state.pending[count + i]);
    }
    assert forall|i: int, j: int| 0 <= i < rest.len() && 0 <= j < rest.len() && i
        != j implies rest[i].id != rest[j].id by {
        assert(rest[i] == state.pending[count + i]);
        assert(rest[j] == state.pending[count + j]);
    }
    assert forall|i: int, j: int| 0 <= i < due.len() && 0 <= j < rest.len() implies (
    #[trigger] due[i]).id != (#[trigger] rest[j]).id by {
        assert(due[i] == state.pending[i]);
        assert(rest[j] == state.pending[count + j]);
    }
}

/// Draining keeps a clock well formed.
pub proof fn lemma_drain_keeps_wf<P>(state: ClockState<P>)
    requires
        state.wf(),
    ensures
        state.drained().wf(),
{
    let count = leading_due(state.pending, state.time) as int;
    lemma_leading_due_stops(state.pending, state.time);
    lemma_drain_fires_the_due(state);
    let rest = state.drained().pending;
    assert forall|i: int| 0 <= i < rest.len() implies {
        &&& (#[trigger] rest[i]).id < state.next_event_id
        &&& rest[i].time@.is_canonical(state.sub_ticks_per_tick, state.ms_per_sub_tick)
    } by {
        assert(rest[i] == state.pending[count + i]);
    }
}

/// Every update, at whatever reading, fires no event before its target time
/// and fires each event once. The events that fire and the events that stay
/// make up the queue as it was, and no event that fires stays, so no later
/// update fires it again. The events fire in firing order. An update that
/// advances fires every event whose target time the new current time has
/// reached: none that stays is due. And the current time never runs
/// backwards, so an event that stays was not due at any earlier update
/// either.
pub proof fn lemma_update_fires_the_due<P>(state: ClockState<P>, now_us: nat)
    requires
        in_firing_order(state.pending),
        distinct_ids(state.pending),
    ensures
        state.fired(now_us) + state.updated(now_us).pending == state.pending,
        in_firing_order(state.fired(now_us)),
        in_firing_order(state.updated(now_us).pending),
        distinct_ids(state.updated(now_us).pending),
        forall|i: int|
            0 <= i < state.fired(now_us).len() ==> (#[trigger] state.fired(
                now_us,
            )[i]).time@.at_or_before(state.updated(now_us).time),
        state.advances() ==> forall|i: int|
            0 <= i < state.updated(now_us).pending.len() ==> !(#[trigger] state.updated(
                now_us,
            ).pending[i]).time@.at_or_before(state.updated(now_us).time),
        forall|i: int, j: int|
            0 <= i < state.fired(now_us).len() && 0 <= j < state.updated(now_us).pending.len()
                ==> (#[trigger] state.fired(now_us)[i]).id != (#[trigger] state.updated(
                now_us,
            ).pending[j]).id,
        state.time.at_or_before(state.updated(now_us).time),
{
    if state.advances() {
        lemma_drain_fires_the_due(state.ticked(now_us));
    } else {
        assert(state.fired(now_us) + state.updated(now_us).pending =~= state.pending);
    }
}

/// An update whose new time fits the fields keeps a clock well formed.
pub proof fn lemma_update_keeps_wf<P>(state: ClockState<P>, now_us: nat)
    requires
        state.wf(),
        state.can_update(now_us),
        now_us <= u64::MAX,
    ensures
        state.updated(now_us).wf(),
{
    if state.advances() {
        lemma_advance_adds(
            state.time,
            state.delta_at(now_us),
            state.sub_ticks_per_tick,
            state.ms_per_sub_tick,
        );
        lemma_drain_keeps_wf(state.ticked(now_us));
    }
}

/// Scheduling keeps a clock well formed: the new event takes its place in
/// the firing order, behind the events of the same target time.
pub proof fn lemma_schedule_keeps_order<P>(state: ClockState<P>, delay: TimeValue, payload: P)
    requires
        state.wf(),
        state.can_schedule(delay),
    ensures
        state.scheduled(delay, payload).wf(),
        state.new_event(delay, payload).time@ == state.target(delay),
{
    let target = state.target(delay);
    let event = state.new_event(delay, payload);
    let at = leading_due(state.pending, target) as int;
    let after = state.scheduled(delay, payload).pending;
    lemma_carried_is_canonical(
        state.time.plus(delay),
        state.sub_ticks_per_tick,
        state.ms_per_sub_tick,
    );
    lemma_leading_due_stops(state.pending, target);
    lemma_due_are_leading(state.pending, target);
    assert(event.time@ == target);
    assert forall|i: int, j: int| 0 <= i < j < after.len() implies fires_before(
        after[i],
        after[j],
    ) by {
        let before_i = if i < at {
            i
        } else {
            i - 1
        };
        let before_j = if j < at {
            j
        } else {
            j - 1
        };
        if i == at {
            assert(after[j] == state.pending[before_j]);
            lemma_time_order(target, state.pending[before_j].time@, target);
        } else if j == at {
            assert(after[i] == state.pending[before_i]);
        } else {
            assert(after[i] == state.pending[before_i]);
            assert(after[j] == state.pending[before_j]);
        }
    }
    assert forall|i: int| 0 <= i < after.len() implies {
        &&& (#[trigger] after[i]).id < state.next_event_id + 1
        &&& after[i].time@.is_canonical(state.sub_ticks_per_tick, state.ms_per_sub_tick)
    } by {
        if i < at {
            assert(after[i] == state.pending[i]);
        } else if i > at {
            assert(after[i] == state.pending[i - 1]);
        }
    }
    assert forall|i: int, j: int| 0 <= i < after.len() && 0 <= j < after.len() && i
        != j implies after[i].id != after[j].id by {
        let before_i = if i < at {
            i
        } else {
            i - 1
        };
        let before_j = if j < at {
            j
        } else {
            j - 1
        };
        if i != at {
            assert(after[i] == state.pending[before_i]);
        }
        if j != at {
            assert(after[j] == state.pending[before_j]);
        }
    }
}

/// A negative time scale is a time scale of zero, and at a time scale of
/// zero no time passes, whatever the reading: an update adds no
/// milliseconds and leaves ticks, sub-ticks and milliseconds as they were.
/// An update that advances records a delta of zero and counts its frame.
pub proof fn lemma_negative_scale_stops_time<P>(state: ClockState<P>, scale: int, now_us: nat)
    requires
        state.wf(),
        scale <= 0,
    ensures
        state.with_time_scale(scale) == state.with_time_scale(0),
        state.with_time_scale(scale).updated(now_us) == state.with_time_scale(0).updated(now_us),
        state.with_time_scale(scale).delta_at(now_us) == 0,
        ({
            let after = state.with_time_scale(scale).updated(now_us);
            &&& after.time.ticks == state.time.ticks
            &&& after.time.sub_ticks == state.time.sub_ticks
            &&& after.time.milliseconds == state.time.milliseconds
            &&& state.advances() ==> after.last_delta_ms == 0 && after.time.frame_count
                == state.time.frame_count + 1
        }),
{
    let stopped = state.with_time_scale(scale);
    if let Some(at) = stopped.baseline {
        let elapsed: nat = if now_us >= at {
            (now_us - at) as nat
        } else {
            0
        };
        assert(elapsed * 0 == 0) by (nonlinear_arith);
    }
    lemma_carried_is_canonical(state.time, state.sub_ticks_per_tick, state.ms_per_sub_tick);
}

/// Time spent paused does not count. While the clock is paused an update
/// changes nothing. After a pause and a resume at `resumed_at_us`, the next
/// update at `now_us` measures from the resume alone: whatever the baseline
/// was when the clock was paused, and however long the pause lasted, its
/// delta is the scaled time since the resume, and the time advances by
/// exactly that delta.
pub proof fn lemma_pause_is_not_counted<P>(state: ClockState<P>, resumed_at_us: nat, now_us: nat)
    requires
        resumed_at_us <= now_us,
    ensures
        state.paused_state().updated(now_us) == state.paused_state(),
        state.paused_state().fired(now_us) == Seq::<TemporalEvent<P>>::empty(),
        ({
            let delta = scaled_delta_ms((now_us - resumed_at_us) as nat, state.time_scale);
            let after = state.paused_state().resumed(resumed_at_us).updated(now_us);
            &&& after.last_delta_ms == delta
            &&& after.time == state.time.advanced(
                delta,
                state.sub_ticks_per_tick,
                state.ms_per_sub_tick,
            )
            &&& after.baseline == Some(now_us)
        }),
{
}

} // verus!
