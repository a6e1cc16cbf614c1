//! Fan-curve interpolation and the fan daemon's decisions.
//!
//! The daemon is a two-state machine (stopped, running). Its sampling loop
//! runs outside the library: each tick hands the sampled temperatures to
//! [`FanDaemon::plan_tick`] and performs the fan writes it returns.

use vstd::prelude::*;
use vstd::arithmetic::div_mod::lemma_fundamental_div_mod_converse;
use vstd::arithmetic::div_mod::lemma_fundamental_div_mod;
use crate::profile::{
    FanCurve, FanCurvePoint, Profile, ProfileView, temps_ascending, profile_check, curve_check,
    lemma_curves_valid_from,
};
use crate::text::{contains_text, text_equals, trailing_number, seq_contains, trailing_number_spec};

verus! {

/// Temperature assumed for a sensor that gave no reading: 50 degrees Celsius, in millidegrees.
pub const FALLBACK_TEMP_MILLI: i64 = 50000;

/// Duty on the segment from `p1` to `p2` at `t` millidegrees: the straight
/// line through both points, rounded to the nearest integer, halves up.
pub open spec fn interpolate_milli(p1: FanCurvePoint, p2: FanCurvePoint, t: int) -> int {
    let range = (p2.temp - p1.temp) * 1000;
    let off = t - p1.temp * 1000;
    let num = p1.speed * (range - off) + p2.speed * off;
    (2 * num + range) / (2 * range)
}

/// Segment `i` of the curve spans temperature `t` (millidegrees).
pub open spec fn brackets(pts: Seq<FanCurvePoint>, i: int, t: int) -> bool {
    0 <= i && i + 1 < pts.len() && pts[i].temp * 1000 <= t && t <= pts[i + 1].temp * 1000
}

/// Target duty of a curve at `t` millidegrees: the first point's duty below
/// the curve, the last point's above it, linear interpolation in between.
pub open spec fn curve_duty(pts: Seq<FanCurvePoint>, t: int) -> int {
    if t <= pts[0].temp * 1000 {
        pts[0].speed as int
    } else if t >= pts.last().temp * 1000 {
        pts.last().speed as int
    } else {
        let i = choose|i: int| brackets(pts, i, t);
        interpolate_milli(pts[i], pts[i + 1], t)
    }
}

proof fn lemma_round_exact(s: int, range: int)
    requires
        range > 0,
    ensures
        (2 * s * range + range) / (2 * range) == s,
{
    assert(2 * s * range + range == s * (2 * range) + range) by (nonlinear_arith);
    lemma_fundamental_div_mod_converse(2 * s * range + range, 2 * range, s, range);
}

proof fn lemma_round_bounds(num: int, range: int, lo: int, hi: int)
    requires
        range > 0,
        lo * range <= num <= hi * range,
    ensures
        lo <= (2 * num + range) / (2 * range) <= hi,
{
    let d = 2 * range;
    let x = 2 * num + range;
    lemma_fundamental_div_mod(x, d);
    let q = x / d;
    let r = x % d;
    assert(x >= d * lo && x < d * (hi + 1)) by (nonlinear_arith)
        requires
            x == 2 * num + range,
            d == 2 * range,
            lo * range <= num <= hi * range,
            range > 0,
    ;
    assert(lo <= q) by (nonlinear_arith)
        requires
            x == d * q + r,
            0 <= r < d,
            x >= d * lo,
            d > 0,
    ;
    assert(q <= hi) by (nonlinear_arith)
        requires
            x == d * q + r,
            0 <= r,
            x < d * (hi + 1),
            d > 0,
    ;
}

/// The interpolated duty lies between the duties of the segment's ends.
proof fn lemma_interpolate_bounds(p1: FanCurvePoint, p2: FanCurvePoint, t: int)
    requires
        p1.temp < p2.temp,
        p1.temp * 1000 <= t <= p2.temp * 1000,
    ensures
        0 <= interpolate_milli(p1, p2, t) <= 255,
        p1.speed <= p2.speed ==> p1.speed <= interpolate_milli(p1, p2, t) <= p2.speed,
        p2.speed <= p1.speed ==> p2.speed <= interpolate_milli(p1, p2, t) <= p1.speed,
{
    let range = (p2.temp - p1.temp) * 1000;
    let off = t - p1.temp * 1000;
    let num = p1.speed * (range - off) + p2.speed * off;
    let s1 = p1.speed as int;
    let s2 = p2.speed as int;
    let lo = if s1 <= s2 { s1 } else { s2 };
    let hi = if s1 <= s2 { s2 } else { s1 };
    assert(lo * range <= num <= hi * range) by (nonlinear_arith)
        requires
            num == s1 * (range - off) + s2 * off,
            0 <= off <= range,
            lo <= s1 <= hi,
            lo <= s2 <= hi,
    ;
    lemma_round_bounds(num, range, lo, hi);
}

/// At either end of a segment the interpolation gives that end's duty.
proof fn lemma_interpolate_ends(p1: FanCurvePoint, p2: FanCurvePoint)
    requires
        p1.temp < p2.temp,
    ensures
        interpolate_milli(p1, p2, p1.temp * 1000) == p1.speed,
        interpolate_milli(p1, p2, p2.temp * 1000) == p2.speed,
{
    let range = (p2.temp - p1.temp) * 1000;
    assert(p1.speed * (range - 0) + p2.speed * 0 == p1.speed * range) by (nonlinear_arith);
    assert(p1.speed * (range - range) + p2.speed * range == p2.speed * range) by (nonlinear_arith);
    lemma_round_exact(p1.speed as int, range);
    lemma_round_exact(p2.speed as int, range);
    assert(2 * (p1.speed * range) == 2 * p1.speed * range) by (nonlinear_arith);
    assert(2 * (p2.speed * range) == 2 * p2.speed * range) by (nonlinear_arith);
}

/// Two segments that both span `t` give the same duty there.
proof fn lemma_brackets_agree(pts: Seq<FanCurvePoint>, i: int, j: int, t: int)
    requires
        temps_ascending(pts),
        brackets(pts, i, t),
        brackets(pts, j, t),
    ensures
        interpolate_milli(pts[i], pts[i + 1], t) == interpolate_milli(pts[j], pts[j + 1], t),
{
    if i < j {
        if i + 1 < j {
            assert(pts[i + 1].temp < pts[j].temp);
        }
        lemma_interpolate_ends(pts[i], pts[i + 1]);
        lemma_interpolate_ends(pts[j], pts[j + 1]);
    } else if j < i {
        if j + 1 < i {
            assert(pts[j + 1].temp < pts[i].temp);
        }
        lemma_interpolate_ends(pts[i], pts[i + 1]);
        lemma_interpolate_ends(pts[j], pts[j + 1]);
    }
}

/// Interpolation is exact on every segment: wherever segment `i` of an
/// ascending curve spans the temperature, the curve's duty is the linear
/// interpolation between that segment's two points.
pub proof fn lemma_duty_on_segment(pts: Seq<FanCurvePoint>, i: int, t: int)
    requires
        temps_ascending(pts),
        brackets(pts, i, t),
    ensures
        curve_duty(pts, t) == interpolate_milli(pts[i], pts[i + 1], t),
{
    lemma_interpolate_ends(pts[i], pts[i + 1]);
    if t <= pts[0].temp * 1000 {
        if i > 0 {
            assert(pts[0].temp < pts[i].temp);
        }
    } else if t >= pts.last().temp * 1000 {
        if i + 1 < pts.len() - 1 {
            assert(pts[i + 1].temp < pts[pts.len() - 1].temp);
        }
    } else {
        let j = choose|j: int| brackets(pts, j, t);
        lemma_brackets_agree(pts, i, j, t);
    }
}

/// At each point's own temperature an ascending curve gives that point's duty.
pub proof fn lemma_duty_at_points(pts: Seq<FanCurvePoint>, k: int)
    requires
        temps_ascending(pts),
        0 <= k < pts.len(),
    ensures
        curve_duty(pts, pts[k].temp * 1000) == pts[k].speed,
{
    let t = pts[k].temp * 1000;
    if k == 0 {
    } else if k == pts.len() - 1 {
        assert(pts[0].temp < pts[k].temp);
    } else {
        assert(pts[0].temp < pts[k].temp);
        assert(pts[k].temp < pts[pts.len() - 1].temp);
        lemma_duty_on_segment(pts, k, t);
        lemma_interpolate_ends(pts[k], pts[k + 1]);
    }
}

/// Which temperature drives a fan.
#[derive(Debug, Clone, Copy, PartialEq, Eq, Structural)]
pub enum FanSensor {
    /// The CPU package temperature.
    Cpu,
    /// The first GPU's temperature.
    Gpu,
    /// The higher of the two.
    Hottest,
}

/// A fan whose identifier names the CPU (or is "fan1") follows the CPU; one
/// that names the GPU (or is "fan2") follows the GPU; any other the hotter.
pub open spec fn fan_sensor_spec(fan_id: Seq<char>) -> FanSensor {
    if seq_contains(fan_id, "cpu"@) || fan_id == "fan1"@ {
        FanSensor::Cpu
    } else if seq_contains(fan_id, "gpu"@) || fan_id == "fan2"@ {
        FanSensor::Gpu
    } else {
        FanSensor::Hottest
    }
}

/// Temperatures sampled for one daemon tick, in millidegrees Celsius.
#[derive(Debug, Clone, Copy, PartialEq, Eq, Structural)]
pub struct FanTemperatures {
    pub cpu_package: Option<i64>,
    pub first_gpu: Option<i64>,
}

pub open spec fn reading_or_fallback(reading: Option<i64>) -> int {
    match reading {
        Some(t) => t as int,
        None => FALLBACK_TEMP_MILLI as int,
    }
}

/// The temperature (millidegrees) that drives the fan `fan_id`.
pub open spec fn fan_temperature_spec(fan_id: Seq<char>, temps: FanTemperatures) -> int {
    let cpu = reading_or_fallback(temps.cpu_package);
    let gpu = reading_or_fallback(temps.first_gpu);
    match fan_sensor_spec(fan_id) {
        FanSensor::Cpu => cpu,
        FanSensor::Gpu => gpu,
        FanSensor::Hottest => if cpu >= gpu {
            cpu
        } else {
            gpu
        },
    }
}

/// The fan number an identifier addresses: its trailing digits, or 1 when
/// it has none (or they do not fit in a `u64`).
pub open spec fn fan_number_spec(fan_id: Seq<char>) -> u64 {
    match trailing_number_spec(fan_id) {
        Some(n) => n,
        None => 1,
    }
}

/// One fan to drive at a duty cycle.
#[derive(Debug, Clone, PartialEq, Eq)]
pub struct FanCommand {
    pub fan_id: String,
    /// The `n` of the `fan{n}` / `pwm{n}` sysfs nodes.
    pub fan_number: u64,
    /// Percent, 0..=100.
    pub duty: u8,
}

/// What the sampling loop does on a tick.
#[derive(Debug, Clone, PartialEq, Eq)]
pub enum TickAction {
    /// The daemon was stopped: leave the loop.
    Stop,
    /// Nothing to write this tick (no reading, or no profile yet).
    Idle,
    /// Write these duties, in this order.
    SetFans(Vec<FanCommand>),
}

/// `cmds` drives, in order, every fan of `curves` at its curve's duty for
/// the temperature that fan follows.
pub open spec fn fan_commands_match(
    cmds: Seq<FanCommand>,
    curves: Seq<(Seq<char>, Seq<FanCurvePoint>)>,
    temps: FanTemperatures,
) -> bool {
    &&& cmds.len() == curves.len()
    &&& forall|i: int|
        0 <= i < cmds.len() ==> {
            &&& (#[trigger] cmds[i]).fan_id@ == curves[i].0
            &&& cmds[i].fan_number == fan_number_spec(curves[i].0)
            &&& cmds[i].duty == curve_duty(curves[i].1, fan_temperature_spec(curves[i].0, temps))
        }
}

/// Which sensor drives the fan `fan_id`.
pub fn fan_sensor(fan_id: &str) -> (r: FanSensor)
    ensures
        r == fan_sensor_spec(fan_id@),
{
    if contains_text(fan_id, "cpu") || text_equals(fan_id, "fan1") {
        FanSensor::Cpu
    } else if contains_text(fan_id, "gpu") || text_equals(fan_id, "fan2") {
        FanSensor::Gpu
    } else {
        FanSensor::Hottest
    }
}

/// The temperature (millidegrees) that drives the fan `fan_id`; a missing
/// reading counts as 50 degrees.
pub fn fan_temperature(fan_id: &str, temps: FanTemperatures) -> (r: i64)
    ensures
        r == fan_temperature_spec(fan_id@, temps),
{
    let cpu = match temps.cpu_package {
        Some(t) => t,
        None => FALLBACK_TEMP_MILLI,
    };
    let gpu = match temps.first_gpu {
        Some(t) => t,
        None => FALLBACK_TEMP_MILLI,
    };
    match fan_sensor(fan_id) {
        FanSensor::Cpu => cpu,
        FanSensor::Gpu => gpu,
        FanSensor::Hottest => if cpu >= gpu {
            cpu
        } else {
            gpu
        },
    }
}

/// The fan number `fan_id` addresses: its trailing digits ("fan2" gives 2),
/// or 1 when it has none.
pub fn fan_number(fan_id: &str) -> (r: u64)
    ensures
        r == fan_number_spec(fan_id@),
{
    match trailing_number(fan_id) {
        Some(n) => n,
        None => 1,
    }
}

/// The duty of every fan of `profile` at the sampled temperatures.
pub fn plan_fan_commands(profile: &Profile, temps: FanTemperatures) -> (r: Vec<FanCommand>)
    requires
        profile.is_valid(),
    ensures
        fan_commands_match(r@, profile@.fan_curves, temps),
{
    let ghost curves = profile@.fan_curves;
    proof {
        lemma_curves_valid_from(curves, 0);
    }
    let mut cmds: Vec<FanCommand> = Vec::new();
    let mut i: usize = 0;
    while i < profile.fan_curves.len()
        invariant
            curves == profile@.fan_curves,
            i <= profile.fan_curves@.len(),
            curves.len() == profile.fan_curves@.len(),
            forall|k: int| 0 <= k < curves.len() ==> (#[trigger] curve_check(curves[k].1)) is Ok,
            fan_commands_match(cmds@, curves.take(i as int), temps),
        decreases profile.fan_curves@.len() - i,
    {
        let entry = &profile.fan_curves[i];
        assert(curves[i as int] == entry@);
        assert(curve_check(curves[i as int].1) is Ok);
        let t = fan_temperature(entry.fan_id.as_str(), temps);
        let duty = FanDaemon::calculate_fan_speed_millidegrees(&entry.curve, t);
        let cmd = FanCommand {
            fan_id: entry.fan_id.clone(),
            fan_number: fan_number(entry.fan_id.as_str()),
            duty,
        };
        cmds.push(cmd);
        proof {
            let c2 = curves.take(i as int + 1);
            assert forall|k: int| 0 <= k < cmds@.len() implies {
                &&& (#[trigger] cmds@[k]).fan_id@ == c2[k].0
                &&& cmds@[k].fan_number == fan_number_spec(c2[k].0)
                &&& cmds@[k].duty == curve_duty(c2[k].1, fan_temperature_spec(c2[k].0, temps))
            } by {
                if k < i {
                    assert(c2[k] == curves.take(i as int)[k]);
                }
            }
        }
        i = i + 1;
    }
    assert(curves.take(i as int) =~= curves);
    cmds
}

pub ghost struct FanDaemonView {
    pub running: bool,
    pub profile: Option<ProfileView>,
    pub update_interval_ms: u64,
}

/// `start`: a stopped daemon stores the profile, turns to running and asks
/// for one sampling loop; a running daemon ignores the call.
pub open spec fn start_spec(d: FanDaemonView, p: ProfileView) -> (FanDaemonView, bool) {
    if d.running {
        (d, false)
    } else {
        (FanDaemonView { running: true, profile: Some(p), ..d }, true)
    }
}

pub open spec fn stop_spec(d: FanDaemonView) -> FanDaemonView {
    FanDaemonView { running: false, ..d }
}

/// Starting twice in a row launches one sampling loop at most: the second
/// start finds the daemon running, changes nothing and asks for no loop.
pub proof fn lemma_start_twice_spawns_once(d: FanDaemonView, p: ProfileView, q: ProfileView)
    ensures
        start_spec(start_spec(d, p).0, q).0 == start_spec(d, p).0,
        !start_spec(start_spec(d, p).0, q).1,
{
}

/// Stopping a stopped daemon changes nothing.
pub proof fn lemma_stop_when_stopped_is_noop(d: FanDaemonView)
    requires
        !d.running,
    ensures
        stop_spec(d) == d,
{
}

/// The fan daemon's state: whether it runs and the profile snapshot it drives
/// the fans from (a copy, not shared with the profile store).
pub struct FanDaemon {
    running: bool,
    current_profile: Option<Profile>,
    update_interval_ms: u64,
}

impl View for FanDaemon {
    type V = FanDaemonView;

    closed spec fn view(&self) -> FanDaemonView {
        FanDaemonView {
            running: self.running,
            profile: match self.current_profile {
                Some(p) => Some(p@),
                None => None,
            },
            update_interval_ms: self.update_interval_ms,
        }
    }
}

impl FanDaemon {
    /// The profile snapshot, if any, is a valid profile.
    pub open spec fn wf(&self) -> bool {
        self@.profile is Some ==> profile_check(self@.profile.unwrap()) is Ok
    }

    /// A stopped daemon with no profile, sampling every `update_interval_ms`.
    pub fn new(update_interval_ms: u64) -> (r: FanDaemon)
        ensures
            r@ == (FanDaemonView { running: false, profile: None, update_interval_ms }),
            r.wf(),
    {
        FanDaemon { running: false, current_profile: None, update_interval_ms }
    }

    /// Starts the daemon with `profile`. Returns whether the caller must
    /// launch a sampling loop: only on the stopped-to-running transition.
    pub fn start(&mut self, profile: Profile) -> (spawn_loop: bool)
        requires
            old(self).wf(),
            profile.is_valid(),
        ensures
            (final(self)@, spawn_loop) == start_spec(old(self)@, profile@),
            final(self).wf(),
    {
        if self.running {
            return false;
        }
        self.running = true;
        self.current_profile = Some(profile);
        true
    }

    /// Asks the sampling loop to exit on its next check; does nothing to a
    /// stopped daemon.
    pub fn stop(&mut self)
        requires
            old(self).wf(),
        ensures
            final(self)@ == stop_spec(old(self)@),
            final(self).wf(),
    {
        self.running = false;
    }

    /// Replaces the profile snapshot; the next tick uses it.
    pub fn update_profile(&mut self, profile: Profile)
        requires
            old(self).wf(),
            profile.is_valid(),
        ensures
            final(self)@ == (FanDaemonView { profile: Some(profile@), ..old(self)@ }),
            final(self).wf(),
    {
        self.current_profile = Some(profile);
    }

    pub fn is_running(&self) -> (r: bool)
        ensures
            r == self@.running,
    {
        self.running
    }

    /// What the sampling loop does on this tick, given the temperatures it
    /// sampled (`None` when sampling failed).
    pub fn plan_tick(&self, temps: Option<FanTemperatures>) -> (r: TickAction)
        requires
            self.wf(),
        ensures
            !self@.running ==> r == TickAction::Stop,
            self@.running && (temps is None || self@.profile is None) ==> r == TickAction::Idle,
            self@.running && temps is Some && self@.profile is Some ==> r is SetFans
                && fan_commands_match(
                r->SetFans_0@,
                self@.profile.unwrap().fan_curves,
                temps.unwrap(),
            ),
    {
        if !self.running {
            return TickAction::Stop;
        }
        match (temps, &self.current_profile) {
            (Some(t), Some(profile)) => TickAction::SetFans(plan_fan_commands(profile, t)),
            _ => TickAction::Idle,
        }
    }

    pub fn update_interval_ms(&self) -> (r: u64)
        ensures
            r == self@.update_interval_ms,
    {
        self.update_interval_ms
    }

    /// Target duty of `curve` at `temp` degrees Celsius.
    pub fn calculate_fan_speed(curve: &FanCurve, temp: i32) -> (r: u8)
        requires
            curve@.len() > 0,
            temps_ascending(curve@),
        ensures
            r == curve_duty(curve@, temp * 1000),
    {
        Self::calculate_fan_speed_millidegrees(curve, temp as i64 * 1000)
    }

    /// Target duty of `curve` at `temp` millidegrees Celsius: clamped to the
    /// first and last points outside the curve, interpolated inside it.
    pub fn calculate_fan_speed_millidegrees(curve: &FanCurve, temp: i64) -> (r: u8)
        requires
            curve@.len() > 0,
            temps_ascending(curve@),
        ensures
            r == curve_duty(curve@, temp as int),
    {
        let pts = &curve.points;
        let n = pts.len();
        let first = pts[0];
        let last = pts[n - 1];
        if temp <= first.temp as i64 * 1000 {
            return first.speed;
        }
        if temp >= last.temp as i64 * 1000 {
            return last.speed;
        }
        let mut i: usize = 0;
        while i + 1 < n
            invariant
                n == curve@.len(),
                pts@ == curve@,
                temps_ascending(curve@),
                i < n,
                temp > curve@[i as int].temp * 1000,
                temp < curve@[n - 1].temp * 1000,
            decreases n - i,
        {
            let p1 = pts[i];
            let p2 = pts[i + 1];
            if temp <= p2.temp as i64 * 1000 {
                assert(p1.temp < p2.temp);
                let range: i64 = (p2.temp as i64 - p1.temp as i64) * 1000;
                let off: i64 = temp - p1.temp as i64 * 1000;
                proof {
                    assert(p1.speed * (range - off) <= 255 * 255000) by (nonlinear_arith)
                        requires
                            p1.speed <= 255,
                            0 <= range - off <= 255000,
                    ;
                    assert(p2.speed * off <= 255 * 255000) by (nonlinear_arith)
                        requires
                            p2.speed <= 255,
                            0 <= off <= 255000,
                    ;
                    assert(p1.speed * (range - off) >= 0) by (nonlinear_arith)
                        requires
                            0 <= range - off,
                    ;
                    assert(p2.speed * off >= 0) by (nonlinear_arith)
                        requires
                            0 <= off,
                    ;
                }
                let num: i64 = p1.speed as i64 * (range - off) + p2.speed as i64 * off;
                let duty: i64 = (2 * num + range) / (2 * range);
                proof {
                    lemma_interpolate_bounds(p1, p2, temp as int);
                    lemma_duty_on_segment(curve@, i as int, temp as int);
                }
                return duty as u8;
            }
            i = i + 1;
        }
        last.speed
    }
}

} // verus!
