//! Hierarchical simulation time: a value of four magnitudes and its carry
//! arithmetic.

use vstd::arithmetic::div_mod::lemma_fundamental_div_mod;
use vstd::arithmetic::div_mod::lemma_fundamental_div_mod_converse;
use vstd::prelude::*;

verus! {

/// The mathematical value of a [`MixedRadixTime`]: four unbounded counters,
/// from the coarsest to the finest.
pub struct TimeValue {
    pub frame_count: nat,
    pub ticks: nat,
    pub sub_ticks: nat,
    pub milliseconds: nat,
}

impl TimeValue {
    /// The all-zero time.
    pub open spec fn zero() -> TimeValue {
        TimeValue { frame_count: 0, ticks: 0, sub_ticks: 0, milliseconds: 0 }
    }

    /// Sub-ticks and milliseconds lie below their radix.
    pub open spec fn is_canonical(self, sub_ticks_per_tick: nat, ms_per_sub_tick: nat) -> bool {
        self.sub_ticks < sub_ticks_per_tick && self.milliseconds < ms_per_sub_tick
    }

    /// Every field fits the machine integer that holds it.
    pub open spec fn fits(self) -> bool {
        &&& self.frame_count <= u64::MAX
        &&& self.ticks <= u64::MAX
        &&& self.sub_ticks <= u32::MAX
        &&& self.milliseconds <= u32::MAX
    }

    /// The milliseconds that the three time fields stand for together.
    pub open spec fn total_ms(self, sub_ticks_per_tick: nat, ms_per_sub_tick: nat) -> nat {
        (self.ticks * sub_ticks_per_tick + self.sub_ticks) * ms_per_sub_tick + self.milliseconds
    }

    /// The lexicographic order over frame count, ticks, sub-ticks and
    /// milliseconds: `self` is at or before `other`.
    pub open spec fn at_or_before(self, other: TimeValue) -> bool {
        ||| self.frame_count < other.frame_count
        ||| self.frame_count == other.frame_count && self.ticks < other.ticks
        ||| self.frame_count == other.frame_count && self.ticks == other.ticks && self.sub_ticks
            < other.sub_ticks
        ||| self.frame_count == other.frame_count && self.ticks == other.ticks && self.sub_ticks
            == other.sub_ticks && self.milliseconds <= other.milliseconds
    }

    /// The field-wise sum of two times, nothing carried.
    pub open spec fn plus(self, other: TimeValue) -> TimeValue {
        TimeValue {
            frame_count: self.frame_count + other.frame_count,
            ticks: self.ticks + other.ticks,
            sub_ticks: self.sub_ticks + other.sub_ticks,
            milliseconds: self.milliseconds + other.milliseconds,
        }
    }

    /// The canonical form: whole sub-ticks move out of the milliseconds, then
    /// whole ticks out of the sub-ticks. The frame count stays.
    pub open spec fn carried(self, sub_ticks_per_tick: nat, ms_per_sub_tick: nat) -> TimeValue {
        let sub_ticks = self.sub_ticks + self.milliseconds / ms_per_sub_tick;
        TimeValue {
            frame_count: self.frame_count,
            ticks: self.ticks + sub_ticks / sub_ticks_per_tick,
            sub_ticks: sub_ticks % sub_ticks_per_tick,
            milliseconds: self.milliseconds % ms_per_sub_tick,
        }
    }

    /// One step of the clock: the frame count grows by one, `delta_ms` joins
    /// the milliseconds, and the sum is carried.
    pub open spec fn advanced(
        self,
        delta_ms: nat,
        sub_ticks_per_tick: nat,
        ms_per_sub_tick: nat,
    ) -> TimeValue {
        TimeValue {
            frame_count: self.frame_count + 1,
            ticks: self.ticks,
            sub_ticks: self.sub_ticks,
            milliseconds: self.milliseconds + delta_ms,
        }.carried(sub_ticks_per_tick, ms_per_sub_tick)
    }
}

/// Splitting a dividend: the quotient of `n + r` is the quotient of `n` plus
/// that of what `n` left over together with `r`, and the remainders agree.
pub proof fn lemma_carry_split(n: nat, r: nat, d: nat)
    requires
        d > 0,
    ensures
        (n % d + r) / d + n / d == (n + r) / d,
        (n % d + r) % d == (n + r) % d,
{
    let rest = n % d + r;
    lemma_fundamental_div_mod(n as int, d as int);
    lemma_fundamental_div_mod(rest as int, d as int);
    let q = (rest / d + n / d) as int;
    let m = (rest % d) as int;
    assert(d * q == d * (rest / d) + d * (n / d)) by (nonlinear_arith)
        requires
            q == rest / d + n / d,
    ;
    assert((n + r) as int == d * q + m);
    lemma_fundamental_div_mod_converse((n + r) as int, d as int, q, m);
}

/// Carrying yields a canonical time that stands for the same milliseconds.
pub proof fn lemma_carried_is_canonical(t: TimeValue, sub_ticks_per_tick: nat, ms_per_sub_tick: nat)
    requires
        sub_ticks_per_tick > 0,
        ms_per_sub_tick > 0,
    ensures
        t.carried(sub_ticks_per_tick, ms_per_sub_tick).is_canonical(
            sub_ticks_per_tick,
            ms_per_sub_tick,
        ),
        t.carried(sub_ticks_per_tick, ms_per_sub_tick).total_ms(sub_ticks_per_tick, ms_per_sub_tick)
            == t.total_ms(sub_ticks_per_tick, ms_per_sub_tick),
        t.is_canonical(sub_ticks_per_tick, ms_per_sub_tick) ==> t.carried(
            sub_ticks_per_tick,
            ms_per_sub_tick,
        ) == t,
{
    let s = sub_ticks_per_tick as int;
    let m = ms_per_sub_tick as int;
    let ms = t.milliseconds as int;
    let st = t.sub_ticks as int + ms / m;
    lemma_fundamental_div_mod(ms, m);
    lemma_fundamental_div_mod(st, s);
    let tk = t.ticks as int;
    assert(((tk + st / s) * s + st % s) * m + ms % m == (tk * s + t.sub_ticks) * m + ms)
        by (nonlinear_arith)
        requires
            ms == m * (ms / m) + ms % m,
            st == s * (st / s) + st % s,
            st == t.sub_ticks + ms / m,
    ;
    if t.is_canonical(sub_ticks_per_tick, ms_per_sub_tick) {
        lemma_fundamental_div_mod_converse(ms, m, 0, ms);
        lemma_fundamental_div_mod_converse(t.sub_ticks as int, s, 0, t.sub_ticks as int);
    }
}

/// Advancing composes: a step by `a` and then a step by `b` reach the ticks,
/// sub-ticks and milliseconds of one step by `a + b`. Each step counts one
/// frame, so the two steps end one frame later than the single step.
pub proof fn lemma_advance_composes(
    t: TimeValue,
    a: nat,
    b: nat,
    sub_ticks_per_tick: nat,
    ms_per_sub_tick: nat,
)
    requires
        sub_ticks_per_tick > 0,
        ms_per_sub_tick > 0,
    ensures
        ({
            let twice = t.advanced(a, sub_ticks_per_tick, ms_per_sub_tick).advanced(
                b,
                sub_ticks_per_tick,
                ms_per_sub_tick,
            );
            let once = t.advanced(a + b, sub_ticks_per_tick, ms_per_sub_tick);
            &&& twice.ticks == once.ticks
            &&& twice.sub_ticks == once.sub_ticks
            &&& twice.milliseconds == once.milliseconds
            &&& twice.frame_count == once.frame_count + 1
        }),
{
    let s = sub_ticks_per_tick;
    let m = ms_per_sub_tick;
    let first = t.milliseconds + a;
    lemma_carry_split(first, b, m);
    let st = t.sub_ticks + first / m;
    lemma_carry_split(st, (first % m + b) / m, s);
}

/// Advancing by `delta_ms` adds exactly `delta_ms` to the milliseconds that
/// the time stands for, and leaves a canonical time.
pub proof fn lemma_advance_adds(
    t: TimeValue,
    delta_ms: nat,
    sub_ticks_per_tick: nat,
    ms_per_sub_tick: nat,
)
    requires
        sub_ticks_per_tick > 0,
        ms_per_sub_tick > 0,
    ensures
        t.advanced(delta_ms, sub_ticks_per_tick, ms_per_sub_tick).is_canonical(
            sub_ticks_per_tick,
            ms_per_sub_tick,
        ),
        t.advanced(delta_ms, sub_ticks_per_tick, ms_per_sub_tick).total_ms(
            sub_ticks_per_tick,
            ms_per_sub_tick,
        ) == t.total_ms(sub_ticks_per_tick, ms_per_sub_tick) + delta_ms,
        t.advanced(delta_ms, sub_ticks_per_tick, ms_per_sub_tick).frame_count == t.frame_count
            + 1,
{
    let stepped = TimeValue {
        frame_count: t.frame_count + 1,
        ticks: t.ticks,
        sub_ticks: t.sub_ticks,
        milliseconds: t.milliseconds + delta_ms,
    };
    lemma_carried_is_canonical(stepped, sub_ticks_per_tick, ms_per_sub_tick);
}

/// A time of four magnitudes: frames, ticks, sub-ticks and milliseconds.
///
/// The radices (sub-ticks per tick, milliseconds per sub-tick) belong to the
/// clock, not to the value. The derived order is the lexicographic one over
/// the fields as they are declared.
#[derive(Clone, Copy, Debug, PartialEq, Eq, PartialOrd, Ord, Structural)]
pub struct MixedRadixTime {
    pub frame_count: u64,
    pub ticks: u64,
    pub sub_ticks: u32,
    pub milliseconds: u32,
}

impl View for MixedRadixTime {
    type V = TimeValue;

    open spec fn view(&self) -> TimeValue {
        TimeValue {
            frame_count: self.frame_count as nat,
            ticks: self.ticks as nat,
            sub_ticks: self.sub_ticks as nat,
            milliseconds: self.milliseconds as nat,
        }
    }
}

impl MixedRadixTime {
    /// The all-zero time.
    pub fn new() -> (time: Self)
        ensures
            time@ == TimeValue::zero(),
    {
        Self { frame_count: 0, ticks: 0, sub_ticks: 0, milliseconds: 0 }
    }

    /// Tells whether `advance` by `delta_ms` stays within the fields' range.
    pub fn can_advance(&self, delta_ms: u32, sub_ticks_per_tick: u32, ms_per_sub_tick: u32) -> (ok:
        bool)
        requires
            sub_ticks_per_tick > 0,
            ms_per_sub_tick > 0,
        ensures
            ok == self@.advanced(
                delta_ms as nat,
                sub_ticks_per_tick as nat,
                ms_per_sub_tick as nat,
            ).fits(),
    {
        let ms: u64 = self.milliseconds as u64 + delta_ms as u64;
        let sub_ticks: u64 = self.sub_ticks as u64 + ms / (ms_per_sub_tick as u64);
        let carry: u64 = sub_ticks / (sub_ticks_per_tick as u64);
        self.frame_count < u64::MAX && carry <= u64::MAX - self.ticks
    }

    /// Counts one frame, adds `delta_ms` to the milliseconds and carries the
    /// excess upward, in one step.
    pub fn advance(&mut self, delta_ms: u32, sub_ticks_per_tick: u32, ms_per_sub_tick: u32)
        requires
            sub_ticks_per_tick > 0,
            ms_per_sub_tick > 0,
            old(self)@.advanced(
                delta_ms as nat,
                sub_ticks_per_tick as nat,
                ms_per_sub_tick as nat,
            ).fits(),
        ensures
            final(self)@ == old(self)@.advanced(
                delta_ms as nat,
                sub_ticks_per_tick as nat,
                ms_per_sub_tick as nat,
            ),
            final(self)@.is_canonical(sub_ticks_per_tick as nat, ms_per_sub_tick as nat),
    {
        let ms: u64 = self.milliseconds as u64 + delta_ms as u64;
        let sub_ticks: u64 = self.sub_ticks as u64 + ms / (ms_per_sub_tick as u64);
        let carry: u64 = sub_ticks / (sub_ticks_per_tick as u64);
        self.frame_count = self.frame_count + 1;
        self.milliseconds = (ms % (ms_per_sub_tick as u64)) as u32;
        self.sub_ticks = (sub_ticks % (sub_ticks_per_tick as u64)) as u32;
        self.ticks = self.ticks + carry;
    }

    /// Tells whether `self` is at or before `other` in the lexicographic
    /// order of the four fields.
    pub fn at_or_before(&self, other: &MixedRadixTime) -> (earlier: bool)
        ensures
            earlier == self@.at_or_before(other@),
    {
        if self.frame_count != other.frame_count {
            self.frame_count < other.frame_count
        } else if self.ticks != other.ticks {
            self.ticks < other.ticks
        } else if self.sub_ticks != other.sub_ticks {
            self.sub_ticks < other.sub_ticks
        } else {
            self.milliseconds <= other.milliseconds
        }
    }

    /// The time that lies `delay` after `self`: the field-wise sum, carried.
    /// `None` when that time does not fit the fields.
    pub fn offset_by(
        &self,
        delay: &MixedRadixTime,
        sub_ticks_per_tick: u32,
        ms_per_sub_tick: u32,
    ) -> (target: Option<MixedRadixTime>)
        requires
            sub_ticks_per_tick > 0,
            ms_per_sub_tick > 0,
        ensures
            ({
                let sum = self@.plus(delay@).carried(
                    sub_ticks_per_tick as nat,
                    ms_per_sub_tick as nat,
                );
                match target {
                    Some(time) => time@ == sum && sum.fits(),
                    None => !sum.fits(),
                }
            }),
    {
        let frames: u128 = self.frame_count as u128 + delay.frame_count as u128;
        let ms: u64 = self.milliseconds as u64 + delay.milliseconds as u64;
        let sub_ticks: u64 = self.sub_ticks as u64 + delay.sub_ticks as u64 + ms / (
        ms_per_sub_tick as u64);
        let ticks: u128 = self.ticks as u128 + delay.ticks as u128 + (sub_ticks / (
        sub_ticks_per_tick as u64)) as u128;
        if frames > u64::MAX as u128 || ticks > u64::MAX as u128 {
            None
        } else {
            Some(
                MixedRadixTime {
                    frame_count: frames as u64,
                    ticks: ticks as u64,
                    sub_ticks: (sub_ticks % (sub_ticks_per_tick as u64)) as u32,
                    milliseconds: (ms % (ms_per_sub_tick as u64)) as u32,
                },
            )
        }
    }
}

} // verus!
