//! The clock: it advances simulated time from wall-clock readings and hands
//! back the deferred events whose time has come.
//!
//! The clock reads no timer and runs no callback itself. The caller passes
//! each wall-clock reading in, in whole microseconds, and gets the events
//! that fire, in firing order, to do with their payloads what it wants.

pub use crate::engine_core::clock_model::TemporalEvent;
pub use crate::engine_core::mixed_radix::MixedRadixTime;

use crate::engine_core::clock_model::in_firing_order;
use crate::engine_core::clock_model::lemma_drain_keeps_wf;
use crate::engine_core::clock_model::lemma_leading_due_is;
use crate::engine_core::clock_model::lemma_schedule_keeps_order;
use crate::engine_core::clock_model::lemma_update_fires_the_due;
use crate::engine_core::clock_model::lemma_update_keeps_wf;
use crate::engine_core::clock_model::scaled_delta_ms;
use crate::engine_core::clock_model::ClockState;
use crate::engine_core::clock_model::REAL_TIME;
use crate::engine_core::clock_model::SCALE_DIVISOR;
use vstd::prelude::*;

verus! {

/// The simulated milliseconds that `elapsed_us` microseconds of wall-clock
/// time are worth at a time scale of `scale` millionths.
pub fn scale_elapsed(elapsed_us: u64, scale: u64) -> (ms: u32)
    ensures
        ms == scaled_delta_ms(elapsed_us as nat, scale as nat),
{
    assert(elapsed_us * scale <= u128::MAX) by (nonlinear_arith)
        requires
            elapsed_us <= u64::MAX,
            scale <= u64::MAX,
    ;
    let product: u128 = (elapsed_us as u128) * (scale as u128);
    let ms: u128 = product / (SCALE_DIVISOR as u128);
    if ms > u32::MAX as u128 {
        u32::MAX
    } else {
        ms as u32
    }
}

/// A simulation clock with a queue of deferred events.
pub struct AdvancedTime<P> {
    mixed_time: MixedRadixTime,
    time_scale: u64,
    paused: bool,
    last_timestamp: Option<u64>,
    event_queue: Vec<TemporalEvent<P>>,
    next_event_id: u64,
    sub_ticks_per_tick: u32,
    ms_per_sub_tick: u32,
    last_delta_ms: u32,
}

impl<P> View for AdvancedTime<P> {
    type V = ClockState<P>;

    closed spec fn view(&self) -> ClockState<P> {
        ClockState {
            time: self.mixed_time@,
            time_scale: self.time_scale as nat,
            paused: self.paused,
            baseline: match self.last_timestamp {
                Some(at) => Some(at as nat),
                None => None,
            },
            pending: self.event_queue@,
            next_event_id: self.next_event_id as nat,
            sub_ticks_per_tick: self.sub_ticks_per_tick as nat,
            ms_per_sub_tick: self.ms_per_sub_tick as nat,
            last_delta_ms: self.last_delta_ms as nat,
        }
    }
}

impl<P> AdvancedTime<P> {
    /// A running clock at time zero with the given radices, at the pace of
    /// the wall clock, with no baseline and nothing pending.
    pub fn new(sub_ticks_per_tick: u32, ms_per_sub_tick: u32) -> (clock: Self)
        requires
            sub_ticks_per_tick > 0,
            ms_per_sub_tick > 0,
        ensures
            clock@ == ClockState::<P>::initial(sub_ticks_per_tick as nat, ms_per_sub_tick as nat),
            clock@.wf(),
    {
        Self {
            mixed_time: MixedRadixTime::new(),
            time_scale: REAL_TIME,
            paused: false,
            last_timestamp: None,
            event_queue: Vec::new(),
            next_event_id: 0,
            sub_ticks_per_tick,
            ms_per_sub_tick,
            last_delta_ms: 0,
        }
    }

    /// Tells whether `update` may be called with this reading: the time it
    /// would reach fits the fields.
    pub fn can_update(&self, now_us: u64) -> (ok: bool)
        requires
            self@.wf(),
        ensures
            ok == self@.can_update(now_us as nat),
    {
        if self.paused {
            return true;
        }
        match self.last_timestamp {
            None => true,
            Some(at) => {
                let elapsed: u64 = if now_us >= at {
                    now_us - at
                } else {
                    0
                };
                let delta_ms = scale_elapsed(elapsed, self.time_scale);
                self.mixed_time.can_advance(delta_ms, self.sub_ticks_per_tick, self.ms_per_sub_tick)
            },
        }
    }

    /// One step of the clock at wall-clock reading `now_us`, in
    /// microseconds. Returns the events that fire, in firing order.
    ///
    /// A paused clock does nothing. The first update of a clock that has no
    /// baseline only records `now_us`. Any other update adds the scaled time
    /// since the baseline to the simulated time, counts one frame, takes
    /// `now_us` as the new baseline, and fires every pending event whose
    /// target time is at or before the new simulated time.
    pub fn update(&mut self, now_us: u64) -> (fired: Vec<TemporalEvent<P>>)
        requires
            old(self)@.wf(),
            old(self)@.can_update(now_us as nat),
        ensures
            final(self)@ == old(self)@.updated(now_us as nat),
            fired@ == old(self)@.fired(now_us as nat),
            final(self)@.wf(),
            fired@ + final(self)@.pending == old(self)@.pending,
            in_firing_order(fired@),
            forall|i: int|
                0 <= i < fired@.len() ==> (#[trigger] fired@[i]).time@.at_or_before(
                    final(self)@.time,
                ),
            old(self)@.advances() ==> forall|i: int|
                0 <= i < final(self)@.pending.len() ==> !(
                #[trigger] final(self)@.pending[i]).time@.at_or_before(final(self)@.time),
    {
        proof {
            lemma_update_fires_the_due(self@, now_us as nat);
            lemma_update_keeps_wf(self@, now_us as nat);
        }
        if self.paused {
            return Vec::new();
        }
        let baseline = match self.last_timestamp {
            Some(at) => at,
            None => {
                self.last_timestamp = Some(now_us);
                return Vec::new();
            },
        };
        let elapsed: u64 = if now_us >= baseline {
            now_us - baseline
        } else {
            0
        };
        let delta_ms = scale_elapsed(elapsed, self.time_scale);
        self.last_timestamp = Some(now_us);
        self.last_delta_ms = delta_ms;
        self.mixed_time.advance(delta_ms, self.sub_ticks_per_tick, self.ms_per_sub_tick);
        self.process_events()
    }

    /// Tells whether `schedule_event` may be called with this delay.
    pub fn can_schedule(&self, delay: &MixedRadixTime) -> (ok: bool)
        requires
            self@.wf(),
        ensures
            ok == self@.can_schedule(delay@),
    {
        self.next_event_id < u64::MAX && self.mixed_time.offset_by(
            delay,
            self.sub_ticks_per_tick,
            self.ms_per_sub_tick,
        ).is_some()
    }

    /// Schedules an event `delay` after the current time and returns its
    /// number. Numbers grow by one with each event.
    ///
    /// The target time is the field-wise sum of the current time and the
    /// delay, carried into canonical form. The event waits behind every
    /// pending event with the same or an earlier target time.
    pub fn schedule_event(&mut self, delay: MixedRadixTime, payload: P) -> (id: u64)
        requires
            old(self)@.wf(),
            old(self)@.can_schedule(delay@),
        ensures
            final(self)@ == old(self)@.scheduled(delay@, payload),
            final(self)@.wf(),
            id == old(self)@.next_event_id,
    {
        proof {
            lemma_schedule_keeps_order(self@, delay@, payload);
        }
        let target = self.mixed_time.offset_by(
            &delay,
            self.sub_ticks_per_tick,
            self.ms_per_sub_tick,
        ).unwrap();
        let mut at: usize = 0;
        while at < self.event_queue.len() && self.event_queue[at].time.at_or_before(&target)
            invariant
                at <= self.event_queue@.len(),
                forall|i: int|
                    0 <= i < at ==> (#[trigger] self.event_queue@[i]).time@.at_or_before(target@),
            decreases self.event_queue@.len() - at,
        {
            at = at + 1;
        }
        proof {
            lemma_leading_due_is(self.event_queue@, target@, at as nat);
        }
        let id = self.next_event_id;
        self.next_event_id = id + 1;
        self.event_queue.insert(at, TemporalEvent { time: target, id, payload });
        id
    }

    /// The simulated milliseconds that the last advancing update added.
    pub fn get_delta_time(&self) -> (delta_ms: u32)
        ensures
            delta_ms == self@.last_delta_ms,
    {
        self.last_delta_ms
    }

    /// Takes the events that are due at the current time out of the queue
    /// and returns them in firing order: the head of the queue is inspected,
    /// and leaves if its target time is at or before the current time, until
    /// one is later or the queue is empty.
    pub fn process_events(&mut self) -> (fired: Vec<TemporalEvent<P>>)
        requires
            old(self)@.wf(),
        ensures
            final(self)@ == old(self)@.drained(),
            fired@ == old(self)@.due(),
            final(self)@.wf(),
    {
        proof {
            lemma_drain_keeps_wf(self@);
        }
        let mut count: usize = 0;
        while count < self.event_queue.len() && self.event_queue[count].time.at_or_before(
            &self.mixed_time,
        )
            invariant
                *self == *old(self),
                count <= self.event_queue@.len(),
                forall|i: int|
                    0 <= i < count ==> (#[trigger] self.event_queue@[i]).time@.at_or_before(
                        self.mixed_time@,
                    ),
            decreases self.event_queue@.len() - count,
        {
            count = count + 1;
        }
        proof {
            lemma_leading_due_is(self.event_queue@, self.mixed_time@, count as nat);
        }
        let mut fired = self.event_queue.split_off(count);
        std::mem::swap(&mut self.event_queue, &mut fired);
        fired
    }

    /// Sets the time scale, in millionths. A negative scale is taken as
    /// zero.
    pub fn set_time_scale(&mut self, scale: i64)
        ensures
            final(self)@ == old(self)@.with_time_scale(scale as int),
            old(self)@.wf() ==> final(self)@.wf(),
    {
        self.time_scale = if scale < 0 {
            0
        } else {
            scale as u64
        };
    }

    /// Pauses the clock. The simulated time stays as it is.
    pub fn pause(&mut self)
        ensures
            final(self)@ == old(self)@.paused_state(),
            old(self)@.wf() ==> final(self)@.wf(),
    {
        self.paused = true;
    }

    /// Lets the clock run again and takes `now_us` as the baseline, so that
    /// the time spent paused is not counted.
    pub fn resume(&mut self, now_us: u64)
        ensures
            final(self)@ == old(self)@.resumed(now_us as nat),
            old(self)@.wf() ==> final(self)@.wf(),
    {
        self.paused = false;
        self.last_timestamp = Some(now_us);
    }

    /// The interpolation factor as a fraction, numerator first: the
    /// sub-ticks over the sub-ticks per tick, plus the milliseconds over the
    /// milliseconds per tick, brought to the common denominator
    /// `sub_ticks_per_tick * ms_per_sub_tick`.
    ///
    /// This blends two terms of different scale. It serves to smooth
    /// rendering between simulation steps and is no normalized fraction of a
    /// tick.
    pub fn get_interpolation_factor(&self) -> (factor: (u64, u64))
        requires
            self@.wf(),
        ensures
            factor.0 == self@.time.sub_ticks * self@.ms_per_sub_tick + self@.time.milliseconds,
            factor.1 == self@.sub_ticks_per_tick * self@.ms_per_sub_tick,
            factor.1 > 0,
    {
        let sub_ticks = self.mixed_time.sub_ticks as u64;
        let per_sub_tick = self.ms_per_sub_tick as u64;
        let per_tick = self.sub_ticks_per_tick as u64;
        assert(sub_ticks * per_sub_tick + per_sub_tick <= per_tick * per_sub_tick <= u64::MAX
            && per_tick * per_sub_tick > 0) by (nonlinear_arith)
            requires
                sub_ticks < per_tick <= u32::MAX,
                0 < per_sub_tick <= u32::MAX,
        ;
        (sub_ticks * per_sub_tick + self.mixed_time.milliseconds as u64, per_tick * per_sub_tick)
    }

    /// The current simulated time.
    pub fn current_time(&self) -> (time: MixedRadixTime)
        ensures
            time@ == self@.time,
    {
        self.mixed_time
    }

    /// Whether the clock is paused.
    pub fn is_paused(&self) -> (paused: bool)
        ensures
            paused == self@.paused,
    {
        self.paused
    }

    /// The time scale, in millionths.
    pub fn time_scale(&self) -> (scale: u64)
        ensures
            scale == self@.time_scale,
    {
        self.time_scale
    }

    /// How many events wait.
    pub fn pending_events(&self) -> (count: usize)
        ensures
            count == self@.pending.len(),
    {
        self.event_queue.len()
    }
}

} // verus!
