//! Fan control arithmetic: duty mapping, slew limiting, tachometer readings
//! and their median, the calibration plateau test and the closed-loop step.
use vstd::prelude::*;

verus! {

pub const TACH_PULSES_PER_REV: u32 = 2;
pub const RPM_CAP: u32 = 12_000;
pub const CALIB_STABLE_REQUIRED: usize = 12;
pub const CALIB_STABLE_EPS_PCT: u32 = 2;
pub const CALIB_STABLE_EPS_ABS: u32 = 50;
pub const PI_KP: i32 = 50;
pub const PI_KI: i32 = 6;
pub const DUTY_SLEW_STEP: u8 = 6;

/// The fan's speed input is active low: 100 % speed is 0 % duty.
pub fn speed_to_hw_duty(speed_pct: u8) -> (d: u8)
    ensures
        d == 100 - (if speed_pct > 100 { 100 } else { speed_pct as int }),
{
    let s = if speed_pct > 100 {
        100
    } else {
        speed_pct
    };
    100 - s
}

pub open spec fn spec_slew(current: u8, target: u8, max_step: u8) -> u8 {
    if target > current {
        if target - current > max_step {
            (current + max_step) as u8
        } else {
            target
        }
    } else {
        if current - target > max_step {
            (current - max_step) as u8
        } else {
            target
        }
    }
}

/// Moves `current` toward `target` by at most `max_step`.
pub fn slew(current: u8, target: u8, max_step: u8) -> (r: u8)
    ensures
        r == spec_slew(current, target, max_step),
{
    if target > current {
        let d = target - current;
        let step = if d < max_step {
            d
        } else {
            max_step
        };
        current + step
    } else {
        let d = current - target;
        let step = if d < max_step {
            d
        } else {
            max_step
        };
        current - step
    }
}

pub open spec fn dist(a: u8, b: u8) -> int {
    if a >= b {
        a - b
    } else {
        b - a
    }
}

/// A slew step never overshoots: it closes the distance to the target by
/// `max_step`, or reaches the target when closer than that.
pub proof fn lemma_slew_approaches(current: u8, target: u8, max_step: u8)
    ensures
        dist(spec_slew(current, target, max_step), target) == if dist(current, target) > max_step {
            dist(current, target) - max_step
        } else {
            0
        },
        dist(spec_slew(current, target, max_step), current) <= max_step,
{
}

pub open spec fn sorted(s: Seq<u32>) -> bool {
    forall|a: int, b: int| 0 <= a < b < s.len() ==> s[a] <= s[b]
}

/// Sorts the readings in place and returns the middle one (the upper middle
/// for an even count).
pub fn median_in_place(v: &mut [u32]) -> (m: u32)
    requires
        old(v)@.len() > 0,
    ensures
        final(v)@.len() == old(v)@.len(),
        final(v)@.to_multiset() == old(v)@.to_multiset(),
        sorted(final(v)@),
        m == final(v)@[(final(v)@.len() / 2) as int],
{
    broadcast use vstd::seq_lib::to_multiset_update;
    let n = v.len();
    let mut i: usize = 1;
    while i < n
        invariant
            1 <= i <= n,
            n == v@.len(),
            v@.to_multiset() == old(v)@.to_multiset(),
            forall|a: int, b: int| 0 <= a < b < i ==> v@[a] <= v@[b],
        decreases n - i,
    {
        let mut j: usize = i;
        while j > 0 && v[j - 1] > v[j]
            invariant
                0 <= j <= i < n,
                n == v@.len(),
                v@.to_multiset() == old(v)@.to_multiset(),
                forall|a: int, b: int| 0 <= a < b <= i && b != j ==> v@[a] <= v@[b],
            decreases j,
        {
            let x = v[j - 1];
            let y = v[j];
            let ghost before = v@;
            v[j - 1] = y;
            v[j] = x;
            proof {
                broadcast use vstd::multiset::group_multiset_axioms;
                let mid = before.update(j - 1, y);
                assert(mid[j as int] == y);
                assert(v@ == mid.update(j as int, x));
                vstd::seq_lib::to_multiset_update(before, j - 1, y);
                vstd::seq_lib::to_multiset_update(mid, j as int, x);
                before.to_multiset_ensures();
                assert(before.to_multiset().count(x) > 0);
                assert(v@.to_multiset() =~= before.to_multiset());
            }
            j = j - 1;
        }
        i = i + 1;
    }
    v[n / 2]
}

/// Revolutions per minute from `pulses` counted over `elapsed_ms` (at least
/// one), two pulses per revolution, capped at 12000.
pub open spec fn spec_rpm(pulses: u32, elapsed_ms: u64) -> u32 {
    let ms = if elapsed_ms == 0 { 1 } else { elapsed_ms as int };
    let rpm = pulses * 60_000 / ms / 2;
    (if rpm > 12_000 { 12_000 } else { rpm }) as u32
}

pub fn rpm_from_pulses(pulses: u32, elapsed_ms: u64) -> (rpm: u32)
    ensures
        rpm == spec_rpm(pulses, elapsed_ms),
{
    assert((pulses as u64) * 60_000 <= 0xffff_ffffu64 * 60_000) by (nonlinear_arith)
        requires
            pulses <= 0xffff_ffffu32,
    ;
    let scaled = (pulses as u64) * 60_000;
    let ms = if elapsed_ms == 0 {
        1
    } else {
        elapsed_ms
    };
    let rpm = scaled / ms / (TACH_PULSES_PER_REV as u64);
    if rpm > 12_000 {
        12_000
    } else {
        rpm as u32
    }
}

/// Progress of the maximum-speed calibration: the highest median seen, the
/// previous median, how many medians in a row did not rise noticeably, how
/// many groups were taken, and the spread of the last group.
#[derive(Clone, Copy, Debug, PartialEq, Eq, Structural)]
pub struct CalibTracker {
    pub max_rpm: u32,
    pub med_prev: Option<u32>,
    pub stable_streak: usize,
    pub samples: u32,
    pub jitter_pct: u32,
}

/// How far above the previous median a new one may be and still count as
/// not rising: 2 % of it plus 50.
pub open spec fn rise_allowance(prev: u32) -> int {
    prev * 2 / 100 + 50
}

impl CalibTracker {
    pub fn new() -> (t: Self)
        ensures
            t == (CalibTracker {
                max_rpm: 0,
                med_prev: None,
                stable_streak: 0,
                samples: 0,
                jitter_pct: 100,
            }),
    {
        CalibTracker { max_rpm: 0, med_prev: None, stable_streak: 0, samples: 0, jitter_pct: 100 }
    }

    /// Takes one group of readings: its median raises the maximum, a median
    /// not above the previous one by more than the allowance extends the
    /// stable streak (a larger one resets it). Returns whether the streak has
    /// reached 12, which ends the calibration. Readings are capped at 12000.
    pub fn observe_group(&mut self, group: &mut [u32]) -> (stable: bool)
        requires
            old(group)@.len() > 0,
            forall|i: int| 0 <= i < old(group)@.len() ==> old(group)@[i] <= 12_000,
            old(self).med_prev matches Some(p) ==> p <= 12_000,
        ensures
            ({
                let g = final(group)@;
                let med = g[(g.len() / 2) as int];
                let lo = g[0];
                let hi = g[g.len() - 1];
                &&& g.to_multiset() == old(group)@.to_multiset()
                &&& sorted(g)
                &&& final(self).max_rpm == if med > old(self).max_rpm {
                    med
                } else {
                    old(self).max_rpm
                }
                &&& final(self).samples == if old(self).samples == u32::MAX {
                    u32::MAX
                } else {
                    (old(self).samples + 1) as u32
                }
                &&& final(self).jitter_pct == if med > 0 {
                    ((hi - lo) * 100 / (med as int)) as u32
                } else {
                    100
                }
                &&& final(self).stable_streak == match old(self).med_prev {
                    None => old(self).stable_streak,
                    Some(prev) => if med <= prev + rise_allowance(prev) {
                        if old(self).stable_streak == usize::MAX {
                            usize::MAX
                        } else {
                            (old(self).stable_streak + 1) as usize
                        }
                    } else {
                        0
                    },
                }
                &&& final(self).med_prev == Some(med)
                &&& stable == (final(self).stable_streak >= CALIB_STABLE_REQUIRED)
            }),
    {
        let med = median_in_place(group);
        let n = group.len();
        assert(forall|i: int| 0 <= i < n ==> group@[i] <= 12_000) by {
            group@.to_multiset_ensures();
            old(group)@.to_multiset_ensures();
            assert forall|i: int| 0 <= i < n implies group@[i] <= 12_000 by {
                let x = group@[i];
                assert(group@.contains(x));
                assert(group@.to_multiset().count(x) > 0);
                assert(old(group)@.to_multiset().count(x) > 0);
                assert(old(group)@.contains(x));
            }
        }
        self.samples = if self.samples == u32::MAX {
            u32::MAX
        } else {
            self.samples + 1
        };
        if med > self.max_rpm {
            self.max_rpm = med;
        }
        let minv = group[0];
        let maxv = group[n - 1];
        self.jitter_pct = if med > 0 {
            ((maxv - minv) * 100) / med
        } else {
            100
        };
        if let Some(prev) = self.med_prev {
            let eps = (prev * CALIB_STABLE_EPS_PCT) / 100 + CALIB_STABLE_EPS_ABS;
            if med <= prev + eps {
                self.stable_streak = if self.stable_streak == usize::MAX {
                    usize::MAX
                } else {
                    self.stable_streak + 1
                };
            } else {
                self.stable_streak = 0;
            }
        }
        self.med_prev = Some(med);
        self.stable_streak >= CALIB_STABLE_REQUIRED
    }
}

/// Truncating division of `a` by a positive `b`, as Rust's `/` on integers.
pub open spec fn trunc_div(a: int, b: int) -> int {
    if a >= 0 {
        a / b
    } else {
        -((-a) / b)
    }
}

pub open spec fn clamp_int(v: int, lo: int, hi: int) -> int {
    if v < lo {
        lo
    } else if v > hi {
        hi
    } else {
        v
    }
}

fn div_trunc(a: i64, b: i64) -> (q: i64)
    requires
        b > 0,
        a > i64::MIN,
    ensures
        q == trunc_div(a as int, b as int),
{
    if a >= 0 {
        a / b
    } else {
        -((-a) / b)
    }
}

/// State of the closed speed loop between two control ticks.
#[derive(Clone, Copy, Debug, PartialEq, Eq, Structural)]
pub struct PiState {
    pub max_rpm_seen: u32,
    pub integral: i32,
    pub duty_pi: i32,
    pub applied_duty: u8,
}

/// One tick of the closed speed loop toward `target_pct` of the fan's
/// maximum speed: the error (clamped to the calibrated maximum) feeds a
/// proportional and an integral term (the integral clamped to three times
/// the maximum), the duty is clamped to 0..100 and the applied duty slews
/// toward it by at most 6.
pub open spec fn spec_pi_step(s: PiState, max_rpm: u32, rpm: u32, target_pct: u8) -> PiState {
    let seen = if rpm > 0 && rpm > s.max_rpm_seen { rpm } else { s.max_rpm_seen };
    let eff = if seen > max_rpm { seen as int } else { max_rpm as int };
    let eff = if eff < 1 { 1 } else { eff };
    let target_rpm = trunc_div(eff * target_pct, 100);
    let m = max_rpm as int;
    let err = clamp_int(target_rpm - rpm, -m, m);
    let integral = clamp_int(s.integral + err, -3 * m, 3 * m);
    let div = if m < 1 { 1 } else { m };
    let step_p = trunc_div(err * 50, div);
    let step_i = trunc_div(integral * 6, div);
    let duty = clamp_int(s.duty_pi + step_p + step_i, 0, 100);
    PiState {
        max_rpm_seen: seen,
        integral: integral as i32,
        duty_pi: duty as i32,
        applied_duty: spec_slew(s.applied_duty, duty as u8, 6),
    }
}

pub fn pi_step(s: PiState, max_rpm: u32, rpm: u32, target_pct: u8) -> (r: PiState)
    requires
        1 <= max_rpm <= 12_000,
        rpm <= 12_000,
        s.max_rpm_seen <= 12_000,
        target_pct <= 100,
        -36_000 <= s.integral <= 36_000,
        0 <= s.duty_pi <= 100,
    ensures
        r == spec_pi_step(s, max_rpm, rpm, target_pct),
        r.max_rpm_seen <= 12_000,
        -36_000 <= r.integral <= 36_000,
        0 <= r.duty_pi <= 100,
{
    let seen = if rpm > 0 && rpm > s.max_rpm_seen {
        rpm
    } else {
        s.max_rpm_seen
    };
    let eff: i64 = if seen > max_rpm {
        seen as i64
    } else {
        max_rpm as i64
    };
    let eff: i64 = if eff < 1 {
        1
    } else {
        eff
    };
    assert(0 <= eff * (target_pct as i64) <= 12_000 * 100) by (nonlinear_arith)
        requires
            1 <= eff <= 12_000,
            target_pct <= 100,
    ;
    let target_rpm = div_trunc(eff * (target_pct as i64), 100);
    let m = max_rpm as i64;
    assert(1 <= m <= 12_000);
    let raw_err = target_rpm - (rpm as i64);
    let err = if raw_err < -m {
        -m
    } else if raw_err > m {
        m
    } else {
        raw_err
    };
    let raw_int = (s.integral as i64) + err;
    let integral = if raw_int < -3 * m {
        -3 * m
    } else if raw_int > 3 * m {
        3 * m
    } else {
        raw_int
    };
    assert(-36_000 <= integral <= 36_000);
    let step_p = div_trunc(err * 50, m);
    let step_i = div_trunc(integral * 6, m);
    assert(-50 <= step_p <= 50) by (nonlinear_arith)
        requires
            step_p == trunc_div(err * 50, m as int),
            -m <= err <= m,
            1 <= m,
    {
        assert(-(m * 50) <= err * 50 <= m * 50);
    }
    assert(-18 <= step_i <= 18) by (nonlinear_arith)
        requires
            step_i == trunc_div(integral * 6, m as int),
            -3 * m <= integral <= 3 * m,
            1 <= m,
    {
        assert(-(m * 18) <= integral * 6 <= m * 18);
    }
    let raw_duty = (s.duty_pi as i64) + step_p + step_i;
    let duty = if raw_duty < 0 {
        0
    } else if raw_duty > 100 {
        100
    } else {
        raw_duty
    };
    PiState {
        max_rpm_seen: seen,
        integral: integral as i32,
        duty_pi: duty as i32,
        applied_duty: slew(s.applied_duty, duty as u8, 6),
    }
}

/// A fan measured clearly faster than its target speed (by at least a
/// fiftieth of its calibrated maximum), with an integral that does not push
/// upward, gets less duty; here the measured and seen speeds stay within
/// the calibrated maximum, and the target speed is that share of it.
pub proof fn lemma_pi_slows_a_fast_fan(s: PiState, max_rpm: u32, rpm: u32, target_pct: u8)
    requires
        1 <= max_rpm <= 12_000,
        rpm <= max_rpm,
        s.max_rpm_seen <= max_rpm,
        target_pct <= 100,
        s.integral <= 0,
        0 < s.duty_pi <= 100,
        rpm * 100 >= max_rpm * target_pct + max_rpm * 2,
    ensures
        spec_pi_step(s, max_rpm, rpm, target_pct).duty_pi < s.duty_pi,
{
    let m = max_rpm as int;
    let t = target_pct as int;
    let target_rpm = trunc_div(m * t, 100);
    assert(0 <= m * t) by (nonlinear_arith)
        requires
            0 <= m,
            0 <= t,
    ;
    assert(target_rpm * 100 <= m * t);
    let err = target_rpm - rpm;
    assert(err * 50 <= -m);
    assert(err >= -m);
    let integral = clamp_int(s.integral + err, -3 * m, 3 * m);
    assert(integral <= 0);
    let step_p = trunc_div(err * 50, m);
    let step_i = trunc_div(integral * 6, m);
    assert(step_p <= -1) by (nonlinear_arith)
        requires
            step_p == -((-(err * 50)) / m),
            -(err * 50) >= m,
            m >= 1,
    ;
    assert(step_i <= 0) by (nonlinear_arith)
        requires
            step_i == -((-(integral * 6)) / m),
            -(integral * 6) >= 0,
            m >= 1,
    ;
}

/// A fan measured clearly slower than its target speed (by at least a
/// fiftieth of its calibrated maximum), with an integral that does not push
/// downward, gets more duty until the duty is full.
pub proof fn lemma_pi_speeds_up_a_slow_fan(s: PiState, max_rpm: u32, rpm: u32, target_pct: u8)
    requires
        1 <= max_rpm <= 12_000,
        rpm <= max_rpm,
        s.max_rpm_seen <= max_rpm,
        target_pct <= 100,
        s.integral >= 0,
        0 <= s.duty_pi < 100,
        rpm * 100 + max_rpm * 2 + 100 <= max_rpm * target_pct,
    ensures
        spec_pi_step(s, max_rpm, rpm, target_pct).duty_pi > s.duty_pi,
{
    let m = max_rpm as int;
    let t = target_pct as int;
    assert(0 <= m * t <= m * 100) by (nonlinear_arith)
        requires
            0 <= m,
            0 <= t <= 100,
    ;
    let target_rpm = trunc_div(m * t, 100);
    assert(target_rpm * 100 > m * t - 100);
    assert(target_rpm <= m);
    let err = target_rpm - rpm;
    assert(err * 50 > m);
    assert(err <= m);
    let integral = clamp_int(s.integral + err, -3 * m, 3 * m);
    assert(integral >= 0);
    let step_p = trunc_div(err * 50, m);
    let step_i = trunc_div(integral * 6, m);
    assert(step_p >= 1) by (nonlinear_arith)
        requires
            step_p == (err * 50) / m,
            err * 50 >= m,
            m >= 1,
    ;
    assert(step_i >= 0) by (nonlinear_arith)
        requires
            step_i == (integral * 6) / m,
            integral * 6 >= 0,
            m >= 1,
    ;
}

proof fn lemma_trunc_div_monotonic(a: int, b: int, m: int)
    requires
        a <= b,
        m >= 1,
    ensures
        trunc_div(a, m) <= trunc_div(b, m),
{
    if a >= 0 {
        vstd::arithmetic::div_mod::lemma_div_is_ordered(a, b, m);
    } else if b < 0 {
        vstd::arithmetic::div_mod::lemma_div_is_ordered(-b, -a, m);
    } else {
        vstd::arithmetic::div_mod::lemma_div_is_ordered(0, -a, m);
        vstd::arithmetic::div_mod::lemma_div_is_ordered(0, b, m);
    }
}

/// A faster measured speed never earns more duty: within the calibrated
/// maximum, the duty after a step is the same or lower the higher the
/// measured speed.
pub proof fn lemma_pi_duty_falls_as_speed_rises(s: PiState, max_rpm: u32, rpm1: u32, rpm2: u32, target_pct: u8)
    requires
        1 <= max_rpm <= 12_000,
        rpm1 <= rpm2 <= max_rpm,
        s.max_rpm_seen <= max_rpm,
        target_pct <= 100,
    ensures
        spec_pi_step(s, max_rpm, rpm2, target_pct).duty_pi <= spec_pi_step(s, max_rpm, rpm1, target_pct).duty_pi,
{
    let m = max_rpm as int;
    let t = target_pct as int;
    let target_rpm = trunc_div(m * t, 100);
    let e1 = clamp_int(target_rpm - rpm1, -m, m);
    let e2 = clamp_int(target_rpm - rpm2, -m, m);
    assert(e2 <= e1);
    let i1 = clamp_int(s.integral + e1, -3 * m, 3 * m);
    let i2 = clamp_int(s.integral + e2, -3 * m, 3 * m);
    assert(i2 <= i1);
    assert(e2 * 50 <= e1 * 50);
    assert(i2 * 6 <= i1 * 6);
    lemma_trunc_div_monotonic(e2 * 50, e1 * 50, m);
    lemma_trunc_div_monotonic(i2 * 6, i1 * 6, m);
}

/// The closed loop's state stays within its bounds.
pub open spec fn pi_bounded(s: PiState) -> bool {
    &&& s.max_rpm_seen <= 12_000
    &&& -36_000 <= s.integral <= 36_000
    &&& 0 <= s.duty_pi <= 100
}

/// What a control tick drives: the fan's enable line and its speed in
/// percent.
#[derive(Clone, Copy, Debug, PartialEq, Eq, Structural)]
pub struct FanDrive {
    pub enabled: bool,
    pub speed_pct: u8,
}

/// One control tick toward `target_pct`: a target of zero switches the fan
/// off and clears the loop; without a trusted tachometer (or a calibrated
/// maximum) the fan runs at full speed; otherwise the closed loop steps
/// with the measured speed `rpm` (zero when no sample came).
pub fn fan_control_tick(s: &mut PiState, target_pct: u8, tach_valid: bool, max_rpm: u32, rpm: u32) -> (d: FanDrive)
    requires
        pi_bounded(*old(s)),
        target_pct <= 100,
        max_rpm <= 12_000,
        rpm <= 12_000,
    ensures
        pi_bounded(*final(s)),
        target_pct == 0 ==> *final(s) == (PiState { integral: 0, duty_pi: 0, applied_duty: 0, ..*old(s) })
            && d == (FanDrive { enabled: false, speed_pct: 0 }),
        target_pct != 0 && (!tach_valid || max_rpm == 0) ==> *final(s) == (PiState {
            applied_duty: 100,
            ..*old(s)
        }) && d == (FanDrive { enabled: true, speed_pct: 100 }),
        target_pct != 0 && tach_valid && max_rpm != 0 ==> *final(s) == spec_pi_step(
            *old(s),
            max_rpm,
            rpm,
            target_pct,
        ) && d == (FanDrive { enabled: true, speed_pct: final(s).applied_duty }),
{
    if target_pct == 0 {
        s.integral = 0;
        s.duty_pi = 0;
        s.applied_duty = 0;
        FanDrive { enabled: false, speed_pct: 0 }
    } else if !tach_valid || max_rpm == 0 {
        s.applied_duty = 100;
        FanDrive { enabled: true, speed_pct: 100 }
    } else {
        let n = pi_step(*s, max_rpm, rpm, target_pct);
        *s = n;
        FanDrive { enabled: true, speed_pct: n.applied_duty }
    }
}

} // verus!
