//! Hardware writes as plans: for each control value, its backends in
//! priority order, each a group of sysfs writes. The caller probes the
//! backends one by one and [`next_probe`] decides when to stop.

use vstd::prelude::*;
use crate::profile::{
    CpuPerformanceProfile, CpuSettings, FanCurve, FanCurvePoint, Profile, ProfileView, RGBColor,
    KeyboardBacklight,
};
use crate::fan_daemon::{FanCommand, fan_number_spec, fan_number};
use crate::keyboard::{KeyboardController, KeyboardView, percent_to_raw_spec};
use crate::profile::{curve_check, lemma_curves_valid_from};

verus! {

/// Known backlight devices, in the order they are tried.
#[derive(Debug, Clone, Copy, PartialEq, Eq, Structural)]
pub enum BacklightDevice {
    IntelBacklight,
    AmdgpuBl0,
    AcpiVideo0,
}

/// A sysfs node that takes a control value. The per-core nodes stand for the
/// node of every present core.
#[derive(Debug, Clone, Copy, PartialEq, Eq, Structural)]
pub enum SysfsNode {
    CpuGovernor,
    CpuMinFreq,
    CpuMaxFreq,
    /// `intel_pstate/no_turbo`: inverted polarity.
    IntelNoTurbo,
    /// `cpufreq/boost`.
    AmdBoost,
    /// Legacy per-core `cpufreq/boost`.
    CoreBoost,
    SmtControl,
    KeyboardColor,
    KeyboardBrightness,
    BacklightBrightness(BacklightDevice),
    /// `tuxedo_io/fan{n}_manual_speed`.
    TuxedoFanSpeed(u64),
    /// `tuxedo_io/fan{n}_temp{i}`.
    TuxedoCurveTemp(u64, u64),
    /// `tuxedo_io/fan{n}_speed{i}`.
    TuxedoCurveSpeed(u64, u64),
    /// `hwmon*/pwm{n}_enable`.
    HwmonPwmEnable(u64),
    /// `hwmon*/pwm{n}`.
    HwmonPwm(u64),
}

/// A word written to a text-valued node.
#[derive(Debug, Clone, Copy, PartialEq, Eq, Structural)]
pub enum SysfsWord {
    Powersave,
    Schedutil,
    Performance,
    On,
    Off,
}

#[derive(Debug, Clone, Copy, PartialEq, Eq, Structural)]
pub enum SysfsValue {
    Number(u64),
    Word(SysfsWord),
    /// Written as `"R G B"`.
    Color(RGBColor),
    /// A percentage scaled to the device's `max_brightness` with [`scale_percent`].
    ScaledPercent(u8),
}

#[derive(Debug, Clone, Copy, PartialEq, Eq, Structural)]
pub struct SysfsWrite {
    pub node: SysfsNode,
    pub value: SysfsValue,
}

/// One way to apply a value: writes that all have to succeed.
#[derive(Debug)]
pub struct Backend {
    pub writes: Vec<SysfsWrite>,
}

impl View for Backend {
    type V = Seq<SysfsWrite>;

    open spec fn view(&self) -> Seq<SysfsWrite> {
        self.writes@
    }
}

/// The backends for one value, in priority order: the first that exists and
/// accepts the writes wins.
#[derive(Debug)]
pub struct WritePlan {
    pub backends: Vec<Backend>,
}

impl View for WritePlan {
    type V = Seq<Seq<SysfsWrite>>;

    open spec fn view(&self) -> Seq<Seq<SysfsWrite>> {
        self.backends@.map_values(|b: Backend| b@)
    }
}

/// What probing one backend gave.
#[derive(Debug, Clone, Copy, PartialEq, Eq, Structural)]
pub enum ProbeResult {
    /// Its nodes are not there.
    Absent,
    /// Present, and the writes succeeded.
    Accepted,
    /// Present, but writing was refused for lack of privilege.
    PermissionDenied,
    /// Present, but a write failed otherwise.
    Failed,
}

/// The outcome of a whole plan.
#[derive(Debug, Clone, Copy, PartialEq, Eq, Structural)]
pub enum WriteOutcome {
    /// The backend at this position took the value.
    Applied(usize),
    /// No backend took it, and one refused it for lack of privilege.
    PermissionDenied,
    /// No backend took it, one was present but failed, none was refused for privilege.
    Failed,
    /// None of the backends exists.
    NoBackend,
}

/// The next thing to do while working through a plan.
#[derive(Debug, Clone, Copy, PartialEq, Eq, Structural)]
pub enum ProbeStep {
    /// Probe the backend at this position.
    Try(usize),
    Done(WriteOutcome),
}

pub open spec fn some_result(results: Seq<ProbeResult>, r: ProbeResult) -> bool {
    exists|i: int| 0 <= i < results.len() && results[i] == r
}

/// The outcome once the probing has stopped.
pub open spec fn outcome_spec(results: Seq<ProbeResult>) -> WriteOutcome {
    if some_result(results, ProbeResult::Accepted) {
        WriteOutcome::Applied(
            (choose|i: int| 0 <= i < results.len() && results[i] == ProbeResult::Accepted) as usize,
        )
    } else if some_result(results, ProbeResult::PermissionDenied) {
        WriteOutcome::PermissionDenied
    } else if some_result(results, ProbeResult::Failed) {
        WriteOutcome::Failed
    } else {
        WriteOutcome::NoBackend
    }
}

/// Given the results of the backends probed so far (in order) out of
/// `n_backends`, says which to probe next, or the outcome once one has
/// accepted or all have been probed.
pub fn next_probe(results: &Vec<ProbeResult>, n_backends: usize) -> (r: ProbeStep)
    requires
        results@.len() <= n_backends,
        forall|i: int| 0 <= i < results@.len() - 1 ==> results@[i] != ProbeResult::Accepted,
    ensures
        !some_result(results@, ProbeResult::Accepted) && results@.len() < n_backends ==> r
            == ProbeStep::Try(results@.len() as usize),
        some_result(results@, ProbeResult::Accepted) || results@.len() == n_backends ==> r
            == ProbeStep::Done(outcome_spec(results@)),
{
    let n = results.len();
    if n > 0 && results[n - 1] == ProbeResult::Accepted {
        proof {
            assert forall|i: int| 0 <= i < n && results@[i] == ProbeResult::Accepted implies i == n
                - 1 by {}
            let c = choose|i: int| 0 <= i < results@.len() && results@[i] == ProbeResult::Accepted;
            assert(c == n - 1);
        }
        return ProbeStep::Done(WriteOutcome::Applied(n - 1));
    }
    proof {
        if some_result(results@, ProbeResult::Accepted) {
            let c = choose|i: int| 0 <= i < results@.len() && results@[i] == ProbeResult::Accepted;
            assert(c < n - 1 || c == n - 1);
        }
    }
    if n < n_backends {
        return ProbeStep::Try(n);
    }
    let mut denied = false;
    let mut failed = false;
    let mut i: usize = 0;
    while i < n
        invariant
            n == results@.len(),
            i <= n,
            denied <==> exists|k: int| 0 <= k < i && results@[k] == ProbeResult::PermissionDenied,
            failed <==> exists|k: int| 0 <= k < i && results@[k] == ProbeResult::Failed,
        decreases n - i,
    {
        if results[i] == ProbeResult::PermissionDenied {
            denied = true;
        } else if results[i] == ProbeResult::Failed {
            failed = true;
        }
        i = i + 1;
    }
    if denied {
        ProbeStep::Done(WriteOutcome::PermissionDenied)
    } else if failed {
        ProbeStep::Done(WriteOutcome::Failed)
    } else {
        ProbeStep::Done(WriteOutcome::NoBackend)
    }
}

fn result_flags(results: &Vec<ProbeResult>) -> (r: (bool, bool, bool))
    ensures
        r.0 == some_result(results@, ProbeResult::Accepted),
        r.1 == some_result(results@, ProbeResult::PermissionDenied),
        r.2 == some_result(results@, ProbeResult::Failed),
{
    let mut accepted = false;
    let mut denied = false;
    let mut failed = false;
    let mut i: usize = 0;
    while i < results.len()
        invariant
            i <= results@.len(),
            accepted <==> exists|k: int| 0 <= k < i && results@[k] == ProbeResult::Accepted,
            denied <==> exists|k: int| 0 <= k < i && results@[k] == ProbeResult::PermissionDenied,
            failed <==> exists|k: int| 0 <= k < i && results@[k] == ProbeResult::Failed,
        decreases results@.len() - i,
    {
        if results[i] == ProbeResult::Accepted {
            accepted = true;
        } else if results[i] == ProbeResult::PermissionDenied {
            denied = true;
        } else if results[i] == ProbeResult::Failed {
            failed = true;
        }
        i = i + 1;
    }
    (accepted, denied, failed)
}

/// A node written best effort across its files (one per core for the
/// per-core nodes): taken when one file took the value, else refused for
/// privilege when one file was, else failed when one file was there, else
/// absent.
pub open spec fn node_result_spec(files: Seq<ProbeResult>) -> ProbeResult {
    if some_result(files, ProbeResult::Accepted) {
        ProbeResult::Accepted
    } else if some_result(files, ProbeResult::PermissionDenied) {
        ProbeResult::PermissionDenied
    } else if some_result(files, ProbeResult::Failed) {
        ProbeResult::Failed
    } else {
        ProbeResult::Absent
    }
}

/// The result of writing one node, from the results of writing each of its
/// files (`Absent` for a file that is not there).
pub fn node_result(files: &Vec<ProbeResult>) -> (r: ProbeResult)
    ensures
        r == node_result_spec(files@),
{
    let (accepted, denied, failed) = result_flags(files);
    if accepted {
        ProbeResult::Accepted
    } else if denied {
        ProbeResult::PermissionDenied
    } else if failed {
        ProbeResult::Failed
    } else {
        ProbeResult::Absent
    }
}

/// A backend from the results of its writes: absent when none of its nodes
/// is there; else refused for privilege, or failed, when one of its writes
/// was; else it took the value. Nodes that are not there are skipped (the
/// vendor interface takes the curve points whose nodes exist).
pub open spec fn backend_result_spec(writes: Seq<ProbeResult>) -> ProbeResult {
    if some_result(writes, ProbeResult::PermissionDenied) {
        ProbeResult::PermissionDenied
    } else if some_result(writes, ProbeResult::Failed) {
        ProbeResult::Failed
    } else if some_result(writes, ProbeResult::Accepted) {
        ProbeResult::Accepted
    } else {
        ProbeResult::Absent
    }
}

/// The result of probing a backend, from the results of its writes in order.
pub fn backend_result(writes: &Vec<ProbeResult>) -> (r: ProbeResult)
    ensures
        r == backend_result_spec(writes@),
{
    let (accepted, denied, failed) = result_flags(writes);
    if denied {
        ProbeResult::PermissionDenied
    } else if failed {
        ProbeResult::Failed
    } else if accepted {
        ProbeResult::Accepted
    } else {
        ProbeResult::Absent
    }
}

/// `floor(percent * 255 / 100)`: a duty percentage on the 0..=255 PWM scale.
pub open spec fn pwm_spec(percent: u8) -> u64 {
    (percent * 255 / 100) as u64
}

/// A duty percentage (0..=100) on the 0..=255 PWM scale, rounded down.
pub fn percent_to_pwm(percent: u8) -> (r: u64)
    requires
        percent <= 100,
    ensures
        r == pwm_spec(percent),
        r <= 255,
{
    percent as u64 * 255 / 100
}

/// `round(percent / 100 * max)`, halves rounded up.
pub open spec fn scale_percent_spec(percent: u8, max: u64) -> int {
    (2 * percent * max + 100) / 200
}

/// A brightness percentage scaled to a device whose top raw value is `max`,
/// rounded to the nearest integer.
pub fn scale_percent(percent: u8, max: u64) -> (r: u64)
    requires
        percent <= 100,
    ensures
        r == scale_percent_spec(percent, max),
        r <= max,
{
    let p = percent as u128;
    let m = max as u128;
    proof {
        assert(2 * p * m + 100 <= 200 * m + 100) by (nonlinear_arith)
            requires
                p <= 100,
        ;
        assert((2 * p * m + 100) / 200 <= m) by (nonlinear_arith)
            requires
                p <= 100,
        ;
    }
    ((2 * p * m + 100) / 200) as u64
}

pub open spec fn governor_word(p: CpuPerformanceProfile) -> SysfsWord {
    match p {
        CpuPerformanceProfile::PowerSave => SysfsWord::Powersave,
        CpuPerformanceProfile::Balanced => SysfsWord::Schedutil,
        CpuPerformanceProfile::Performance => SysfsWord::Performance,
    }
}

/// The text a word is written as.
pub fn word_text(w: SysfsWord) -> (r: &'static str)
    ensures
        r@ == match w {
            SysfsWord::Powersave => "powersave"@,
            SysfsWord::Schedutil => "schedutil"@,
            SysfsWord::Performance => "performance"@,
            SysfsWord::On => "on"@,
            SysfsWord::Off => "off"@,
        },
{
    match w {
        SysfsWord::Powersave => "powersave",
        SysfsWord::Schedutil => "schedutil",
        SysfsWord::Performance => "performance",
        SysfsWord::On => "on",
        SysfsWord::Off => "off",
    }
}

pub open spec fn single(node: SysfsNode, value: SysfsValue) -> Seq<SysfsWrite> {
    seq![SysfsWrite { node, value }]
}

/// Boost: Intel's inverted `no_turbo` flag, then AMD's flag, then the legacy per-core flag.
pub open spec fn boost_plan_spec(enable: bool) -> Seq<Seq<SysfsWrite>> {
    let on: u64 = if enable { 1 } else { 0 };
    let no_turbo: u64 = if enable { 0 } else { 1 };
    seq![
        single(SysfsNode::IntelNoTurbo, SysfsValue::Number(no_turbo)),
        single(SysfsNode::AmdBoost, SysfsValue::Number(on)),
        single(SysfsNode::CoreBoost, SysfsValue::Number(on)),
    ]
}

/// The plans for a CPU settings block: governor, then each frequency bound
/// that is set (MHz to kHz), then boost, then SMT.
pub open spec fn cpu_plans_spec(s: CpuSettings) -> Seq<Seq<Seq<SysfsWrite>>> {
    let governor = seq![
        seq![single(SysfsNode::CpuGovernor, SysfsValue::Word(governor_word(s.performance_profile)))],
    ];
    let min = match s.min_freq_mhz {
        Some(f) => seq![seq![single(SysfsNode::CpuMinFreq, SysfsValue::Number((f * 1000) as u64))]],
        None => seq![],
    };
    let max = match s.max_freq_mhz {
        Some(f) => seq![seq![single(SysfsNode::CpuMaxFreq, SysfsValue::Number((f * 1000) as u64))]],
        None => seq![],
    };
    let smt = if s.smt_enabled {
        SysfsWord::On
    } else {
        SysfsWord::Off
    };
    governor + min + max + seq![boost_plan_spec(!s.disable_boost)] + seq![
        seq![single(SysfsNode::SmtControl, SysfsValue::Word(smt))],
    ]
}

/// Screen brightness: the known backlight devices in order.
pub open spec fn screen_plan_spec(percent: u8) -> Seq<Seq<SysfsWrite>> {
    seq![
        single(
            SysfsNode::BacklightBrightness(BacklightDevice::IntelBacklight),
            SysfsValue::ScaledPercent(percent),
        ),
        single(
            SysfsNode::BacklightBrightness(BacklightDevice::AmdgpuBl0),
            SysfsValue::ScaledPercent(percent),
        ),
        single(
            SysfsNode::BacklightBrightness(BacklightDevice::AcpiVideo0),
            SysfsValue::ScaledPercent(percent),
        ),
    ]
}

/// A fan duty: the vendor's manual-speed node, then the generic PWM node.
pub open spec fn fan_duty_plan_spec(fan: u64, duty: u8) -> Seq<Seq<SysfsWrite>> {
    seq![
        single(SysfsNode::TuxedoFanSpeed(fan), SysfsValue::Number(duty as u64)),
        single(SysfsNode::HwmonPwm(fan), SysfsValue::Number(pwm_spec(duty))),
    ]
}

/// The vendor interface's curve nodes for fan `fan`: per point, its
/// temperature then its duty.
pub open spec fn tuxedo_curve_writes(fan: u64, pts: Seq<FanCurvePoint>) -> Seq<SysfsWrite>
    decreases pts.len(),
{
    if pts.len() == 0 {
        seq![]
    } else {
        let i = (pts.len() - 1) as u64;
        tuxedo_curve_writes(fan, pts.drop_last()) + seq![
            SysfsWrite {
                node: SysfsNode::TuxedoCurveTemp(fan, i),
                value: SysfsValue::Number(pts.last().temp as u64),
            },
            SysfsWrite {
                node: SysfsNode::TuxedoCurveSpeed(fan, i),
                value: SysfsValue::Number(pts.last().speed as u64),
            },
        ]
    }
}

/// A fan curve: the whole curve through the vendor interface, else manual
/// PWM control at the duty of the curve's middle point.
pub open spec fn fan_curve_plan_spec(fan: u64, pts: Seq<FanCurvePoint>) -> Seq<Seq<SysfsWrite>> {
    seq![
        tuxedo_curve_writes(fan, pts),
        seq![
            SysfsWrite { node: SysfsNode::HwmonPwmEnable(fan), value: SysfsValue::Number(1) },
            SysfsWrite {
                node: SysfsNode::HwmonPwm(fan),
                value: SysfsValue::Number(pwm_spec(pts[pts.len() as int / 2].speed)),
            },
        ],
    ]
}

pub open spec fn plans_view(plans: Seq<WritePlan>) -> Seq<Seq<Seq<SysfsWrite>>> {
    plans.map_values(|p: WritePlan| p@)
}

fn single_backend(node: SysfsNode, value: SysfsValue) -> (r: Backend)
    ensures
        r@ == single(node, value),
{
    let r = Backend { writes: vec![SysfsWrite { node, value }] };
    assert(r@ =~= single(node, value));
    r
}

/// The plan for enabling or disabling CPU boost.
pub fn boost_plan(enable: bool) -> (r: WritePlan)
    ensures
        r@ == boost_plan_spec(enable),
{
    let on: u64 = if enable { 1 } else { 0 };
    let no_turbo: u64 = if enable { 0 } else { 1 };
    let r = WritePlan {
        backends: vec![
            single_backend(SysfsNode::IntelNoTurbo, SysfsValue::Number(no_turbo)),
            single_backend(SysfsNode::AmdBoost, SysfsValue::Number(on)),
            single_backend(SysfsNode::CoreBoost, SysfsValue::Number(on)),
        ],
    };
    assert(r@ =~= boost_plan_spec(enable));
    r
}

fn one_plan(node: SysfsNode, value: SysfsValue) -> (r: WritePlan)
    ensures
        r@ == seq![single(node, value)],
{
    let r = WritePlan { backends: vec![single_backend(node, value)] };
    assert(r@ =~= seq![single(node, value)]);
    r
}

/// The plan for a screen brightness percentage.
pub fn screen_plan(percent: u8) -> (r: WritePlan)
    ensures
        r@ == screen_plan_spec(percent),
{
    let v = SysfsValue::ScaledPercent(percent);
    let r = WritePlan {
        backends: vec![
            single_backend(SysfsNode::BacklightBrightness(BacklightDevice::IntelBacklight), v),
            single_backend(SysfsNode::BacklightBrightness(BacklightDevice::AmdgpuBl0), v),
            single_backend(SysfsNode::BacklightBrightness(BacklightDevice::AcpiVideo0), v),
        ],
    };
    assert(r@ =~= screen_plan_spec(percent));
    r
}

/// The plan for driving one fan at a duty.
pub fn fan_duty_plan(cmd: &FanCommand) -> (r: WritePlan)
    requires
        cmd.duty <= 100,
    ensures
        r@ == fan_duty_plan_spec(cmd.fan_number, cmd.duty),
{
    let r = WritePlan {
        backends: vec![
            single_backend(
                SysfsNode::TuxedoFanSpeed(cmd.fan_number),
                SysfsValue::Number(cmd.duty as u64),
            ),
            single_backend(SysfsNode::HwmonPwm(cmd.fan_number), SysfsValue::Number(percent_to_pwm(cmd.duty))),
        ],
    };
    assert(r@ =~= fan_duty_plan_spec(cmd.fan_number, cmd.duty));
    r
}

/// The plan for writing a whole curve to fan `fan`.
pub fn fan_curve_plan(fan: u64, curve: &FanCurve) -> (r: WritePlan)
    requires
        curve.is_valid(),
    ensures
        r@ == fan_curve_plan_spec(fan, curve@),
{
    let mut writes: Vec<SysfsWrite> = Vec::new();
    let mut i: usize = 0;
    while i < curve.points.len()
        invariant
            i <= curve@.len(),
            curve@.len() == 8,
            writes@ == tuxedo_curve_writes(fan, curve@.take(i as int)),
        decreases curve@.len() - i,
    {
        let p = curve.points[i];
        writes.push(
            SysfsWrite {
                node: SysfsNode::TuxedoCurveTemp(fan, i as u64),
                value: SysfsValue::Number(p.temp as u64),
            },
        );
        writes.push(
            SysfsWrite {
                node: SysfsNode::TuxedoCurveSpeed(fan, i as u64),
                value: SysfsValue::Number(p.speed as u64),
            },
        );
        proof {
            let t = curve@.take(i as int + 1);
            assert(t.drop_last() =~= curve@.take(i as int));
            assert(t.last() == p);
        }
        i = i + 1;
    }
    assert(curve@.take(8) =~= curve@);
    let mid = curve.points[curve.points.len() / 2];
    assert(curve@[4].speed <= 100);
    let hwmon = Backend {
        writes: vec![
            SysfsWrite { node: SysfsNode::HwmonPwmEnable(fan), value: SysfsValue::Number(1) },
            SysfsWrite { node: SysfsNode::HwmonPwm(fan), value: SysfsValue::Number(percent_to_pwm(mid.speed)) },
        ],
    };
    let r = WritePlan { backends: vec![Backend { writes }, hwmon] };
    assert(r@[1] =~= fan_curve_plan_spec(fan, curve@)[1]);
    assert(r@ =~= fan_curve_plan_spec(fan, curve@));
    r
}

/// The plans for a CPU settings block, in the order they are applied.
pub fn cpu_plans(s: &CpuSettings) -> (r: Vec<WritePlan>)
    ensures
        plans_view(r@) == cpu_plans_spec(*s),
{
    let mut plans: Vec<WritePlan> = Vec::new();
    plans.push(one_plan(SysfsNode::CpuGovernor, SysfsValue::Word(governor_word_of(s.performance_profile))));
    match s.min_freq_mhz {
        Some(f) => {
            plans.push(one_plan(SysfsNode::CpuMinFreq, SysfsValue::Number(f as u64 * 1000)));
        },
        None => {},
    }
    match s.max_freq_mhz {
        Some(f) => {
            plans.push(one_plan(SysfsNode::CpuMaxFreq, SysfsValue::Number(f as u64 * 1000)));
        },
        None => {},
    }
    plans.push(boost_plan(!s.disable_boost));
    let smt = if s.smt_enabled {
        SysfsWord::On
    } else {
        SysfsWord::Off
    };
    plans.push(one_plan(SysfsNode::SmtControl, SysfsValue::Word(smt)));
    assert(plans_view(plans@) =~= cpu_plans_spec(*s));
    plans
}

pub fn governor_word_of(p: CpuPerformanceProfile) -> (r: SysfsWord)
    ensures
        r == governor_word(p),
{
    match p {
        CpuPerformanceProfile::PowerSave => SysfsWord::Powersave,
        CpuPerformanceProfile::Balanced => SysfsWord::Schedutil,
        CpuPerformanceProfile::Performance => SysfsWord::Performance,
    }
}

/// The plans for each fan curve of a profile, in list order.
pub open spec fn fan_plans_spec(curves: Seq<(Seq<char>, Seq<FanCurvePoint>)>) -> Seq<
    Seq<Seq<SysfsWrite>>,
> {
    curves.map_values(
        |c: (Seq<char>, Seq<FanCurvePoint>)| fan_curve_plan_spec(fan_number_spec(c.0), c.1),
    )
}

/// The keyboard plans: its color write and its brightness write, or none
/// when there is no keyboard device or it refuses the settings.
pub open spec fn keyboard_plans_spec(kbd: Option<KeyboardView>, k: KeyboardBacklight) -> Seq<
    Seq<Seq<SysfsWrite>>,
> {
    match kbd {
        Some(v) => if v.rgb_support && k.brightness <= 100 {
            seq![
                seq![single(SysfsNode::KeyboardColor, SysfsValue::Color(k.color))],
                seq![
                    single(
                        SysfsNode::KeyboardBrightness,
                        SysfsValue::Number(percent_to_raw_spec(k.brightness, v.max_brightness) as u64),
                    ),
                ],
            ]
        } else {
            seq![]
        },
        None => seq![],
    }
}

/// Everything applying a profile writes, per settings category. The
/// categories are applied independently: a failure in one does not stop
/// the others.
#[derive(Debug)]
pub struct ProfileApplication {
    pub keyboard: Vec<WritePlan>,
    pub fans: Vec<WritePlan>,
    pub cpu: Vec<WritePlan>,
    pub screen: WritePlan,
}

/// `a` is what applying profile `p` writes on a machine with keyboard `kbd`.
pub open spec fn application_matches(
    a: ProfileApplication,
    kbd: Option<KeyboardView>,
    p: ProfileView,
) -> bool {
    &&& plans_view(a.keyboard@) == keyboard_plans_spec(kbd, p.keyboard_backlight)
    &&& plans_view(a.fans@) == fan_plans_spec(p.fan_curves)
    &&& plans_view(a.cpu@) == cpu_plans_spec(p.cpu_settings)
    &&& a.screen@ == screen_plan_spec(p.screen_settings.brightness)
}

/// Applies profiles to the machine; knows the keyboard device, if there is one.
pub struct HardwareController {
    keyboard: Option<KeyboardController>,
}

impl View for HardwareController {
    type V = Option<KeyboardView>;

    closed spec fn view(&self) -> Option<KeyboardView> {
        match self.keyboard {
            Some(k) => Some(k@),
            None => None,
        }
    }
}

impl HardwareController {
    /// A controller for a machine with the given keyboard device, if any.
    pub fn new(keyboard: Option<KeyboardController>) -> (r: HardwareController)
        ensures
            r@ == match keyboard {
                Some(k) => Some(k@),
                None => None::<KeyboardView>,
            },
    {
        HardwareController { keyboard }
    }

    /// The writes that apply `profile`: keyboard, fan curves, CPU, screen.
    pub fn apply_profile(&self, profile: &Profile) -> (r: ProfileApplication)
        requires
            profile.is_valid(),
        ensures
            application_matches(r, self@, profile@),
    {
        let keyboard = self.keyboard_plans(&profile.keyboard_backlight);
        let fans = fan_plans(profile);
        let cpu = cpu_plans(&profile.cpu_settings);
        let screen = screen_plan(profile.screen_settings.brightness);
        ProfileApplication { keyboard, fans, cpu, screen }
    }

    fn keyboard_plans(&self, k: &KeyboardBacklight) -> (r: Vec<WritePlan>)
        ensures
            plans_view(r@) == keyboard_plans_spec(self@, *k),
    {
        let mut plans: Vec<WritePlan> = Vec::new();
        match &self.keyboard {
            Some(kbd) => {
                match kbd.set_color_and_brightness(k.color.r, k.color.g, k.color.b, k.brightness) {
                    Ok(writes) => {
                        plans.push(one_plan(writes[0].node, writes[0].value));
                        plans.push(one_plan(writes[1].node, writes[1].value));
                        assert(plans_view(plans@) =~= keyboard_plans_spec(self@, *k));
                    },
                    Err(_) => {
                        assert(plans_view(plans@) =~= keyboard_plans_spec(self@, *k));
                    },
                }
            },
            None => {
                assert(plans_view(plans@) =~= keyboard_plans_spec(self@, *k));
            },
        }
        plans
    }

    /// The argument `prime-select` takes to switch to the discrete or the integrated GPU.
    pub fn switch_gpu(&self, use_discrete: bool) -> (r: &'static str)
        ensures
            r@ == (if use_discrete {
                "nvidia"@
            } else {
                "intel"@
            }),
    {
        if use_discrete {
            "nvidia"
        } else {
            "intel"
        }
    }

    /// Maximum performance: the performance governor, then boost on. (Each
    /// core's frequency bounds are also raised to its hardware maximum, which
    /// only the machine knows.)
    pub fn set_maximum_performance(&self) -> (r: Vec<WritePlan>)
        ensures
            plans_view(r@) == seq![
                seq![single(SysfsNode::CpuGovernor, SysfsValue::Word(SysfsWord::Performance))],
                boost_plan_spec(true),
            ],
    {
        let r = vec![
            one_plan(SysfsNode::CpuGovernor, SysfsValue::Word(SysfsWord::Performance)),
            boost_plan(true),
        ];
        assert(plans_view(r@) =~= seq![
            seq![single(SysfsNode::CpuGovernor, SysfsValue::Word(SysfsWord::Performance))],
            boost_plan_spec(true),
        ]);
        r
    }
}

/// The curve plans of every fan of a valid profile.
pub fn fan_plans(profile: &Profile) -> (r: Vec<WritePlan>)
    requires
        profile.is_valid(),
    ensures
        plans_view(r@) == fan_plans_spec(profile@.fan_curves),
{
    let ghost curves = profile@.fan_curves;
    proof {
        lemma_curves_valid_from(curves, 0);
    }
    let mut plans: Vec<WritePlan> = Vec::new();
    let mut i: usize = 0;
    while i < profile.fan_curves.len()
        invariant
            curves == profile@.fan_curves,
            i <= profile.fan_curves@.len(),
            curves.len() == profile.fan_curves@.len(),
            forall|k: int| 0 <= k < curves.len() ==> (#[trigger] curve_check(curves[k].1)) is Ok,
            plans_view(plans@) == fan_plans_spec(curves.take(i as int)),
        decreases profile.fan_curves@.len() - i,
    {
        let entry = &profile.fan_curves[i];
        assert(curves[i as int] == entry@);
        assert(curve_check(curves[i as int].1) is Ok);
        let plan = fan_curve_plan(fan_number(entry.fan_id.as_str()), &entry.curve);
        let ghost before = plans@;
        assert(plans_view(before).len() == before.len());
        assert(fan_plans_spec(curves.take(i as int)).len() == i);
        plans.push(plan);
        proof {
            let g = |c: (Seq<char>, Seq<FanCurvePoint>)| fan_curve_plan_spec(fan_number_spec(c.0), c.1);
            assert forall|k: int| 0 <= k < i implies #[trigger] plans_view(plans@)[k] == fan_plans_spec(curves.take(i as int + 1))[k] by {
                assert(plans@[k] == before[k]);
                assert(plans_view(before)[k] == fan_plans_spec(curves.take(i as int))[k]);
                assert(curves.take(i as int)[k] == curves[k]);
                assert(curves.take(i as int + 1)[k] == curves[k]);
            }
            assert(plans_view(plans@)[i as int] == plan@);
            assert(curves.take(i as int + 1)[i as int] == curves[i as int]);
            assert(curves.take(i as int + 1) =~= curves.take(i as int).push(curves[i as int]));
            assert(plans_view(plans@) =~= fan_plans_spec(curves.take(i as int + 1)));
        }
        i = i + 1;
    }
    assert(curves.take(i as int) =~= curves);
    plans
}

} // verus!
