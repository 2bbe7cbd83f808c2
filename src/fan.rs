//! Temperature-to-duty fan control with hysteresis.
//!
//! Duty ratios are kept in thousandths (`0..=1000` stands for `[0, 1]`),
//! curve keys in whole degrees and temperature samples in millidegrees.
use vstd::prelude::*;
use crate::ControlError;
use vstd::arithmetic::div_mod::{lemma_div_is_ordered, lemma_div_multiples_vanish, lemma_div_pos_is_pos};

verus! {

/// Full duty, in thousandths.
pub const DUTY_MAX: u32 = 1000;

/// A fan curve: points `(temperature in degrees, duty in thousandths)`.
#[derive(Debug, Default)]
pub struct FanCurve {
    pub points: Vec<(i32, u32)>,
}

impl View for FanCurve {
    type V = Seq<(i32, u32)>;

    open spec fn view(&self) -> Seq<(i32, u32)> {
        self.points@
    }
}

/// Keys strictly ascending and every duty within `[0, 1000]`.
pub open spec fn curve_valid(s: Seq<(i32, u32)>) -> bool {
    &&& forall|i: int, j: int| 0 <= i < j < s.len() ==> s[i].0 < s[j].0
    &&& forall|i: int| 0 <= i < s.len() ==> s[i].1 <= DUTY_MAX
}

/// Duties never decrease as the temperature rises.
pub open spec fn curve_monotone(s: Seq<(i32, u32)>) -> bool {
    forall|i: int, j: int| 0 <= i < j < s.len() ==> s[i].1 <= s[j].1
}

/// A curve key in millidegrees.
pub open spec fn key_milli(k: i32) -> int {
    k as int * 1000
}

/// Linear interpolation between two points at `t` millidegrees, rounded
/// towards the first point's duty.
pub open spec fn lerp(p0: (i32, u32), p1: (i32, u32), t: int) -> int {
    let span = key_milli(p1.0) - key_milli(p0.0);
    let dt = t - key_milli(p0.0);
    if p0.1 <= p1.1 {
        p0.1 + (p1.1 - p0.1) * dt / span
    } else {
        p0.1 - (p0.1 - p1.1) * dt / span
    }
}

/// The duty a curve gives at `t` millidegrees: the first point's duty below
/// the lowest key, the last point's above the highest key, the interpolation
/// of the two bracketing points in between, and 0 for an empty curve.
pub open spec fn curve_duty(s: Seq<(i32, u32)>, t: int) -> int
    decreases s.len(),
{
    if s.len() == 0 {
        0
    } else if s.len() == 1 || t <= key_milli(s[0].0) {
        s[0].1 as int
    } else if t < key_milli(s[1].0) {
        lerp(s[0], s[1], t)
    } else {
        curve_duty(s.drop_first(), t)
    }
}


proof fn lemma_scaled_between(x: int, dt: int, span: int)
    requires
        0 <= x,
        0 <= dt <= span,
        0 < span,
    ensures
        0 <= x * dt / span <= x,
{
    assert(0 <= x * dt <= span * x) by (nonlinear_arith)
        requires
            0 <= x,
            0 <= dt <= span,
    ;
    lemma_div_is_ordered(x * dt, span * x, span);
    lemma_div_multiples_vanish(x, span);
    lemma_div_pos_is_pos(x * dt, span);
}

proof fn lemma_scaled_mono(x: int, a: int, b: int, span: int)
    requires
        0 <= x,
        a <= b,
        0 < span,
    ensures
        x * a / span <= x * b / span,
{
    assert(x * a <= x * b) by (nonlinear_arith)
        requires
            0 <= x,
            a <= b,
    ;
    lemma_div_is_ordered(x * a, x * b, span);
}

/// Between two points the interpolation stays between their duties.
proof fn lemma_lerp_between(p0: (i32, u32), p1: (i32, u32), t: int)
    requires
        p0.0 < p1.0,
        key_milli(p0.0) <= t <= key_milli(p1.0),
    ensures
        p0.1 <= p1.1 ==> p0.1 <= lerp(p0, p1, t) <= p1.1,
        p1.1 < p0.1 ==> p1.1 <= lerp(p0, p1, t) <= p0.1,
{
    let span = key_milli(p1.0) - key_milli(p0.0);
    let dt = t - key_milli(p0.0);
    if p0.1 <= p1.1 {
        lemma_scaled_between(p1.1 - p0.1, dt, span);
    } else {
        lemma_scaled_between(p0.1 - p1.1, dt, span);
    }
}

/// Every duty of a valid curve lies within `[0, 1000]`.
pub proof fn lemma_curve_duty_in_range(s: Seq<(i32, u32)>, t: int)
    requires
        curve_valid(s),
    ensures
        0 <= curve_duty(s, t) <= DUTY_MAX,
    decreases s.len(),
{
    if s.len() > 1 && t > key_milli(s[0].0) {
        assert(s[0].0 < s[1].0);
        if t < key_milli(s[1].0) {
            lemma_lerp_between(s[0], s[1], t);
        } else {
            lemma_curve_duty_in_range(s.drop_first(), t);
        }
    }
}

/// A monotone curve gives at least its first duty everywhere.
proof fn lemma_curve_duty_above_first(s: Seq<(i32, u32)>, t: int)
    requires
        curve_valid(s),
        curve_monotone(s),
        s.len() > 0,
    ensures
        s[0].1 <= curve_duty(s, t),
    decreases s.len(),
{
    if s.len() > 1 && t > key_milli(s[0].0) {
        assert(s[0].0 < s[1].0 && s[0].1 <= s[1].1);
        if t < key_milli(s[1].0) {
            lemma_lerp_between(s[0], s[1], t);
        } else {
            lemma_curve_duty_above_first(s.drop_first(), t);
        }
    }
}

/// Interpolating a monotone curve gives a duty that never decreases as the
/// temperature rises.
pub proof fn lemma_curve_duty_monotone(s: Seq<(i32, u32)>, t1: int, t2: int)
    requires
        curve_valid(s),
        curve_monotone(s),
        t1 <= t2,
    ensures
        curve_duty(s, t1) <= curve_duty(s, t2),
    decreases s.len(),
{
    if s.len() > 1 {
        assert(s[0].0 < s[1].0 && s[0].1 <= s[1].1);
        let k0 = key_milli(s[0].0);
        let k1 = key_milli(s[1].0);
        if t1 <= k0 {
            lemma_curve_duty_above_first(s, t2);
        } else if t1 < k1 {
            lemma_lerp_between(s[0], s[1], t1);
            if t2 < k1 {
                lemma_scaled_mono(s[1].1 - s[0].1, t1 - k0, t2 - k0, k1 - k0);
            } else {
                lemma_curve_duty_above_first(s.drop_first(), t2);
            }
        } else {
            lemma_curve_duty_monotone(s.drop_first(), t1, t2);
        }
    }
}

/// The duty that `curve` asks for at `temp_milli` millidegrees.
pub fn interpolate(curve: &FanCurve, temp_milli: i32) -> (r: u32)
    requires
        curve_valid(curve@),
    ensures
        r as int == curve_duty(curve@, temp_milli as int),
{
    let n = curve.points.len();
    if n == 0 {
        return 0;
    }
    proof {
        lemma_curve_duty_in_range(curve@, temp_milli as int);
    }
    let t = temp_milli as i64;
    let first = curve.points[0];
    if t <= first.0 as i64 * 1000 {
        return first.1;
    }
    let mut i: usize = 0;
    assert(curve@.subrange(0, n as int) =~= curve@);
    while i + 1 < n
        invariant
            n == curve@.len(),
            i < n,
            curve_valid(curve@),
            t == temp_milli as int,
            t >= key_milli(curve@[i as int].0),
            curve_duty(curve@, t as int) == curve_duty(curve@.subrange(i as int, n as int), t as int),
        decreases n - i,
    {
        let p0 = curve.points[i];
        let p1 = curve.points[i + 1];
        let sub = Ghost(curve@.subrange(i as int, n as int));
        assert(sub@[0] == p0 && sub@[1] == p1);
        assert(p0.0 < p1.0);
        if t <= p0.0 as i64 * 1000 {
            return p0.1;
        }
        if t < p1.0 as i64 * 1000 {
            proof {
                lemma_lerp_between(p0, p1, t as int);
            }
            let span = p1.0 as i64 * 1000 - p0.0 as i64 * 1000;
            let dt = t - p0.0 as i64 * 1000;
            proof {
                assert(0 <= dt < span);
                assert(span <= 4_294_967_296_000);
            }
            if p0.1 <= p1.1 {
                let x = (p1.1 - p0.1) as i64;
                assert(x * dt <= 1000 * 4_294_967_296_000) by (nonlinear_arith)
                    requires 0 <= x <= 1000, 0 <= dt <= 4_294_967_296_000;
                assert(0 <= x * dt) by (nonlinear_arith)
                    requires 0 <= x, 0 <= dt;
                return (p0.1 as i64 + x * dt / span) as u32;
            } else {
                let x = (p0.1 - p1.1) as i64;
                assert(x * dt <= 1000 * 4_294_967_296_000) by (nonlinear_arith)
                    requires 0 <= x <= 1000, 0 <= dt <= 4_294_967_296_000;
                assert(0 <= x * dt) by (nonlinear_arith)
                    requires 0 <= x, 0 <= dt;
                return (p0.1 as i64 - x * dt / span) as u32;
            }
        }
        assert(sub@.drop_first() =~= curve@.subrange(i + 1, n as int));
        i = i + 1;
    }
    assert(curve@.subrange(i as int, n as int).len() == 1);
    curve.points[i].1
}


/// How the fan duty is chosen.
#[derive(Clone, Copy, Debug, PartialEq, Eq, Structural)]
pub enum FanControlMode {
    /// A fixed duty.
    Static,
    /// A duty interpolated from a temperature curve.
    Curve,
}

impl Default for FanControlMode {
    fn default() -> (r: Self)
        ensures
            r == FanControlMode::Curve,
    {
        FanControlMode::Curve
    }
}

/// The mode that `s` names, if any.
pub open spec fn mode_named(s: Seq<char>) -> Option<FanControlMode> {
    if s == "curve"@ {
        Some(FanControlMode::Curve)
    } else if s == "static"@ {
        Some(FanControlMode::Static)
    } else {
        None
    }
}

impl FanControlMode {
    /// Reads `"curve"` or `"static"`.
    pub fn parse(s: &str) -> (r: Result<FanControlMode, String>)
        ensures
            mode_named(s@) matches Some(m) ==> r == Ok::<FanControlMode, String>(m),
            mode_named(s@) is None ==> (r matches Err(e) && e@ == "unknown fan control mode"@),
    {
        let owned = s.to_owned();
        let curve = "curve".to_owned();
        let stat = "static".to_owned();
        proof {
            reveal_strlit("curve");
            reveal_strlit("static");
        }
        if owned == curve {
            Ok(FanControlMode::Curve)
        } else if owned == stat {
            Ok(FanControlMode::Static)
        } else {
            Err("unknown fan control mode".to_owned())
        }
    }
}

impl std::str::FromStr for FanControlMode {
    type Err = String;

    fn from_str(s: &str) -> (r: Result<FanControlMode, String>)
        ensures
            mode_named(s@) matches Some(m) ==> r == Ok::<FanControlMode, String>(m),
            mode_named(s@) is None ==> (r matches Err(e) && e@ == "unknown fan control mode"@),
    {
        FanControlMode::parse(s)
    }
}

/// The curve used where none is configured.
pub open spec fn default_curve_spec() -> Seq<(i32, u32)> {
    seq![(40i32, 300u32), (50i32, 350u32), (60i32, 500u32), (70i32, 750u32), (80i32, 1000u32)]
}

/// The default curve is valid and monotone.
pub proof fn lemma_default_curve_valid()
    ensures
        curve_valid(default_curve_spec()),
        curve_monotone(default_curve_spec()),
{
    let s = default_curve_spec();
    assert(s.len() == 5);
    assert(s[0] == (40i32, 300u32) && s[1] == (50i32, 350u32) && s[2] == (60i32, 500u32) && s[3] == (70i32, 750u32)
        && s[4] == (80i32, 1000u32));
}

/// The curve used where none is configured: 30% at 40 degrees up to full
/// speed at 80 degrees.
pub fn default_fan_curve() -> (r: FanCurve)
    ensures
        r@ == default_curve_spec(),
        curve_valid(r@),
        curve_monotone(r@),
{
    let r = FanCurve { points: vec![(40, 300), (50, 350), (60, 500), (70, 750), (80, 1000)] };
    assert(r@ =~= default_curve_spec());
    proof {
        lemma_default_curve_valid();
    }
    r
}

/// Limits that the board firmware enforces on its own.
#[derive(Clone, Copy, Debug, PartialEq, Eq, Structural)]
pub struct PmfwOptions {
    pub acoustic_limit: Option<u32>,
    pub acoustic_target: Option<u32>,
    pub minimum_pwm: Option<u32>,
    pub target_temperature: Option<u32>,
    pub zero_rpm: Option<bool>,
    pub zero_rpm_threshold: Option<u32>,
}

/// Options with nothing set.
pub open spec fn pmfw_unset() -> PmfwOptions {
    PmfwOptions {
        acoustic_limit: None,
        acoustic_target: None,
        minimum_pwm: None,
        target_temperature: None,
        zero_rpm: None,
        zero_rpm_threshold: None,
    }
}

impl Default for PmfwOptions {
    fn default() -> (r: Self)
        ensures
            r == pmfw_unset(),
    {
        PmfwOptions {
            acoustic_limit: None,
            acoustic_target: None,
            minimum_pwm: None,
            target_temperature: None,
            zero_rpm: None,
            zero_rpm_threshold: None,
        }
    }
}

impl PmfwOptions {
    /// Whether no limit is set.
    pub fn is_empty(&self) -> (r: bool)
        ensures
            r == (*self == pmfw_unset()),
    {
        self.acoustic_limit.is_none() && self.acoustic_target.is_none()
            && self.minimum_pwm.is_none() && self.target_temperature.is_none()
            && self.zero_rpm.is_none() && self.zero_rpm_threshold.is_none()
    }
}

/// Fan control configuration of one device.
pub struct FanOptions {
    pub id: String,
    pub enabled: bool,
    pub mode: Option<FanControlMode>,
    /// Duty in thousandths, used in static mode.
    pub static_speed: Option<u32>,
    /// Used in curve mode; the default curve where absent.
    pub curve: Option<FanCurve>,
    pub pmfw: PmfwOptions,
    /// Minimum time in milliseconds for which a lower duty is held back.
    pub spindown_delay_ms: Option<u64>,
    /// Minimum duty change, in thousandths, that is written.
    pub change_threshold: Option<u64>,
}

impl FanOptions {
    /// The curve in effect.
    pub open spec fn curve_spec(&self) -> Seq<(i32, u32)> {
        match self.curve {
            Some(c) => c@,
            None => default_curve_spec(),
        }
    }

    pub open spec fn mode_spec(&self) -> FanControlMode {
        match self.mode {
            Some(m) => m,
            None => FanControlMode::Curve,
        }
    }

    /// Options the control loop can run on.
    pub open spec fn valid(&self) -> bool {
        &&& curve_valid(self.curve_spec())
        &&& match self.static_speed {
            Some(v) => v <= DUTY_MAX,
            None => true,
        }
    }

    /// The duty these options ask for at `t` millidegrees.
    pub open spec fn target_spec(&self, t: int) -> int {
        match self.mode_spec() {
            FanControlMode::Static => match self.static_speed {
                Some(v) => v as int,
                None => 0,
            },
            FanControlMode::Curve => curve_duty(self.curve_spec(), t),
        }
    }

    /// Accepts the options, or rejects a malformed curve or static duty.
    pub fn validate(&self) -> (r: Result<(), ControlError>)
        ensures
            r is Ok <==> self.valid(),
            r is Err ==> r == Err::<(), ControlError>(ControlError::InvalidCurve),
    {
        if let Some(v) = self.static_speed {
            if v > DUTY_MAX {
                return Err(ControlError::InvalidCurve);
            }
        }
        match &self.curve {
            None => {
                proof {
                    lemma_default_curve_valid();
                }
                Ok(())
            },
            Some(c) => {
                if check_curve(c) {
                    Ok(())
                } else {
                    Err(ControlError::InvalidCurve)
                }
            },
        }
    }

    /// The duty these options ask for at `temp_milli` millidegrees.
    pub fn target_duty(&self, temp_milli: i32) -> (r: u32)
        requires
            self.valid(),
        ensures
            r as int == self.target_spec(temp_milli as int),
            r <= DUTY_MAX,
    {
        let mode = match self.mode {
            Some(m) => m,
            None => FanControlMode::Curve,
        };
        match mode {
            FanControlMode::Static => match self.static_speed {
                Some(v) => v,
                None => 0,
            },
            FanControlMode::Curve => {
                proof {
                    lemma_curve_duty_in_range(self.curve_spec(), temp_milli as int);
                }
                match &self.curve {
                    Some(c) => interpolate(c, temp_milli),
                    None => interpolate(&default_fan_curve(), temp_milli),
                }
            },
        }
    }
}

/// Whether the keys ascend strictly and every duty is within `[0, 1000]`.
pub fn check_curve(curve: &FanCurve) -> (r: bool)
    ensures
        r == curve_valid(curve@),
{
    let n = curve.points.len();
    let mut i: usize = 0;
    while i < n
        invariant
            n == curve@.len(),
            i <= n,
            forall|a: int, b: int| 0 <= a < b < i ==> curve@[a].0 < curve@[b].0,
            forall|a: int| 0 <= a < i ==> curve@[a].1 <= DUTY_MAX,
        decreases n - i,
    {
        if curve.points[i].1 > DUTY_MAX {
            return false;
        }
        if i > 0 && curve.points[i - 1].0 >= curve.points[i].0 {
            return false;
        }
        proof {
            assert forall|a: int, b: int| 0 <= a < b < i + 1 implies curve@[a].0 < curve@[b].0 by {
                if b == i && a < i - 1 {
                    assert(curve@[a].0 < curve@[i - 1].0);
                }
            }
        }
        i = i + 1;
    }
    true
}


/// State of the fan control loop of one device.
#[derive(Clone, Copy, Debug, PartialEq, Eq, Structural)]
pub struct FanController {
    /// The duty last written, if any.
    pub last_duty: Option<u32>,
    /// When the last write was issued, in milliseconds.
    pub last_write_ms: u64,
    /// Since when the target has stayed below the last written duty.
    pub lower_since: Option<u64>,
}

impl FanController {
    /// A lower target is only ever held back from after the last write.
    pub open spec fn wf(&self) -> bool {
        match self.lower_since {
            Some(since) => since >= self.last_write_ms,
            None => true,
        }
    }

    /// The next state and the duty to write, given the target duty `d` at
    /// time `now`: a first duty and a higher one are written at once, a lower
    /// one only once it has been asked for during `delay` milliseconds, and
    /// none that differs from the last by less than `threshold`.
    pub open spec fn decide(self, d: u32, now: u64, delay: u64, threshold: u64) -> (FanController, Option<u32>) {
        let written = FanController { last_duty: Some(d), last_write_ms: now, lower_since: None };
        let quiet = FanController { lower_since: None, ..self };
        match self.last_duty {
            None => (written, Some(d)),
            Some(l) => if d > l {
                if d - l >= threshold { (written, Some(d)) } else { (quiet, None) }
            } else if d == l {
                (quiet, None)
            } else {
                let since = match self.lower_since {
                    Some(x) => x,
                    None => if now >= self.last_write_ms { now } else { self.last_write_ms },
                };
                if l - d >= threshold && now >= since && now - since >= delay {
                    (written, Some(d))
                } else {
                    (FanController { lower_since: Some(since), ..self }, None)
                }
            },
        }
    }
}

/// A controller that has written nothing yet.
pub open spec fn controller_new_spec() -> FanController {
    FanController { last_duty: None, last_write_ms: 0, lower_since: None }
}

impl FanController {
    pub fn new() -> (r: FanController)
        ensures
            r == controller_new_spec(),
            r.wf(),
    {
        FanController { last_duty: None, last_write_ms: 0, lower_since: None }
    }

    /// Takes the outcome of the write that the step from `before` asked for:
    /// a failed write leaves the controller as it was before that step, so
    /// the next sample is judged against what the hardware still holds.
    pub fn settle(&mut self, before: FanController, written: bool) -> (r: Result<(), ControlError>)
        requires
            old(self).wf(),
            before.wf(),
        ensures
            final(self).wf(),
            written ==> r is Ok && *final(self) == *old(self),
            !written ==> r == Err::<(), ControlError>(ControlError::HardwareWriteFailed) && *final(self) == before,
    {
        if written {
            Ok(())
        } else {
            *self = before;
            Err(ControlError::HardwareWriteFailed)
        }
    }

    /// Takes a temperature sample of `temp_milli` millidegrees at time
    /// `now_ms` and returns the duty to write, if one is due.
    pub fn step(&mut self, opts: &FanOptions, temp_milli: i32, now_ms: u64) -> (r: Option<u32>)
        requires
            old(self).wf(),
            opts.valid(),
        ensures
            final(self).wf(),
            (*final(self), r) == step_spec(*old(self), *opts, (temp_milli, now_ms)),
            r is None ==> final(self).last_duty == old(self).last_duty
                && final(self).last_write_ms == old(self).last_write_ms,
            r matches Some(d) ==> final(self).last_duty == Some(d) && final(self).last_write_ms == now_ms,
            // a lower duty follows the previous write by at least the delay
            r matches Some(d) ==> (old(self).last_duty matches Some(l) && d < l ==> now_ms
                >= old(self).last_write_ms + opts.delay_spec()),
            // consecutive writes differ by at least the threshold
            r matches Some(d) ==> (old(self).last_duty matches Some(l) ==> d != l
                && (if d > l { d - l } else { l - d }) >= opts.threshold_spec()),
    {
        if !opts.enabled {
            return None;
        }
        let d = opts.target_duty(temp_milli);
        let delay = match opts.spindown_delay_ms { Some(v) => v, None => 0 };
        let threshold = match opts.change_threshold { Some(v) => v, None => 0 };
        match self.last_duty {
            None => {
                *self = FanController { last_duty: Some(d), last_write_ms: now_ms, lower_since: None };
                Some(d)
            },
            Some(l) => {
                if d > l {
                    self.lower_since = None;
                    if (d - l) as u64 >= threshold {
                        *self = FanController { last_duty: Some(d), last_write_ms: now_ms, lower_since: None };
                        Some(d)
                    } else {
                        None
                    }
                } else if d == l {
                    self.lower_since = None;
                    None
                } else {
                    let since = match self.lower_since {
                        Some(x) => x,
                        None => if now_ms >= self.last_write_ms { now_ms } else { self.last_write_ms },
                    };
                    if (l - d) as u64 >= threshold && now_ms >= since && now_ms - since >= delay {
                        *self = FanController { last_duty: Some(d), last_write_ms: now_ms, lower_since: None };
                        Some(d)
                    } else {
                        self.lower_since = Some(since);
                        None
                    }
                }
            },
        }
    }
}


impl FanOptions {
    pub open spec fn delay_spec(&self) -> u64 {
        match self.spindown_delay_ms {
            Some(v) => v,
            None => 0,
        }
    }

    pub open spec fn threshold_spec(&self) -> u64 {
        match self.change_threshold {
            Some(v) => v,
            None => 0,
        }
    }
}

/// One control step on the sample `(millidegrees, time)`.
pub open spec fn step_spec(c: FanController, opts: FanOptions, sample: (i32, u64)) -> (FanController, Option<u32>) {
    if !opts.enabled {
        (c, None)
    } else {
        c.decide(opts.target_spec(sample.0 as int) as u32, sample.1, opts.delay_spec(), opts.threshold_spec())
    }
}

/// The state after a run of samples, and the writes it issued as
/// `(time, duty)`, in order.
pub open spec fn run(c: FanController, opts: FanOptions, samples: Seq<(i32, u64)>) -> (FanController, Seq<(u64, u32)>)
    decreases samples.len(),
{
    if samples.len() == 0 {
        (c, Seq::empty())
    } else {
        let (c1, w1) = run(c, opts, samples.drop_last());
        let (c2, r) = step_spec(c1, opts, samples.last());
        (c2, match r {
            Some(d) => w1.push((samples.last().1, d)),
            None => w1,
        })
    }
}

/// Whether two successive writes keep the hysteresis rules: they differ by
/// at least the threshold, and a lower one comes at least the spindown
/// delay after the one before.
pub open spec fn writes_spaced(a: (u64, u32), b: (u64, u32), delay: u64, threshold: u64) -> bool {
    &&& a.1 != b.1
    &&& (if b.1 > a.1 { b.1 - a.1 } else { a.1 - b.1 }) >= threshold
    &&& b.1 < a.1 ==> b.0 >= a.0 + delay
}

/// Over any sequence of temperature samples, starting from a controller
/// that has written nothing, each write differs from the previous one by at
/// least the change threshold, and each write that lowers the duty comes at
/// least the spindown delay after the previous write, whatever the direction
/// of that one.
pub proof fn lemma_run_writes_spaced(opts: FanOptions, samples: Seq<(i32, u64)>)
    ensures
        forall|k: int| 0 <= k < run(controller_new_spec(), opts, samples).1.len() - 1 ==> #[trigger] writes_spaced(
            run(controller_new_spec(), opts, samples).1[k],
            run(controller_new_spec(), opts, samples).1[k + 1],
            opts.delay_spec(),
            opts.threshold_spec(),
        ),
{
    lemma_run_tracks_last(opts, samples);
}

proof fn lemma_run_tracks_last(opts: FanOptions, samples: Seq<(i32, u64)>)
    ensures
        ({
            let (c, w) = run(controller_new_spec(), opts, samples);
            &&& c.wf()
            &&& w.len() == 0 ==> c.last_duty is None
            &&& w.len() > 0 ==> c.last_duty == Some(w.last().1) && c.last_write_ms == w.last().0
            &&& forall|k: int| 0 <= k < w.len() - 1 ==> #[trigger] writes_spaced(w[k], w[k + 1], opts.delay_spec(), opts.threshold_spec())
        }),
    decreases samples.len(),
{
    if samples.len() > 0 {
        lemma_run_tracks_last(opts, samples.drop_last());
        let (c1, w1) = run(controller_new_spec(), opts, samples.drop_last());
        let (c2, r) = step_spec(c1, opts, samples.last());
        let (c, w) = run(controller_new_spec(), opts, samples);
        assert(c == c2);
        if r is Some {
            let d = r->0;
            assert(w == w1.push((samples.last().1, d)));
            assert forall|k: int| 0 <= k < w.len() - 1 implies #[trigger] writes_spaced(w[k], w[k + 1], opts.delay_spec(), opts.threshold_spec()) by {
                if k < w1.len() - 1 {
                    assert(w[k] == w1[k] && w[k + 1] == w1[k + 1]);
                } else {
                    assert(w[k] == w1.last());
                }
            }
        } else {
            assert(w == w1);
        }
    }
}

} // verus!
