//! Profile data model: fan curves, keyboard, CPU and screen settings, and
//! the validation rules every stored profile satisfies.

use vstd::prelude::*;
use vstd::string::StringExecFns;

verus! {

/// Number of points every fan curve holds.
pub const CURVE_POINTS: usize = 8;

/// Highest allowed percentage (duty cycle, brightness).
pub const MAX_PERCENT: u8 = 100;

#[derive(Debug, Clone, Copy, PartialEq, Eq, Structural)]
pub struct RGBColor {
    pub r: u8,
    pub g: u8,
    pub b: u8,
}

/// One point of a fan curve: at `temp` degrees Celsius the fan runs at `speed` percent.
#[derive(Debug, Clone, Copy, PartialEq, Eq, Structural)]
pub struct FanCurvePoint {
    pub temp: u8,
    pub speed: u8,
}

/// Why a fan curve is rejected.
#[derive(Debug, Clone, Copy, PartialEq, Eq, Structural)]
pub enum CurveError {
    WrongPointCount,
    NotAscending,
    SpeedOutOfRange,
}

#[derive(Debug)]
pub struct FanCurve {
    pub points: Vec<FanCurvePoint>,
}

/// Temperatures strictly increase from each point to the next.
pub open spec fn temps_ascending(pts: Seq<FanCurvePoint>) -> bool {
    forall|i: int, j: int| 0 <= i < j < pts.len() ==> #[trigger] pts[i].temp < #[trigger] pts[j].temp
}

/// Every duty value is a percentage.
pub open spec fn speeds_in_range(pts: Seq<FanCurvePoint>) -> bool {
    forall|i: int| 0 <= i < pts.len() ==> #[trigger] pts[i].speed <= 100
}

/// The verdict of curve validation, checks taken in order: point count,
/// ascending temperatures, duty range.
pub open spec fn curve_check(pts: Seq<FanCurvePoint>) -> Result<(), CurveError> {
    if pts.len() != CURVE_POINTS {
        Err(CurveError::WrongPointCount)
    } else if !temps_ascending(pts) {
        Err(CurveError::NotAscending)
    } else if !speeds_in_range(pts) {
        Err(CurveError::SpeedOutOfRange)
    } else {
        Ok(())
    }
}

/// Curve validation: a curve passes exactly when it has eight points, strictly
/// ascending temperatures and every duty within 0..=100; so one with fewer
/// points, a repeated or falling temperature, or a duty above 100 fails.
pub proof fn lemma_curve_validation(pts: Seq<FanCurvePoint>)
    ensures
        curve_check(pts) is Ok <==> (pts.len() == CURVE_POINTS && temps_ascending(pts)
            && speeds_in_range(pts)),
        pts.len() < CURVE_POINTS ==> curve_check(pts) is Err,
        (exists|i: int| 1 <= i < pts.len() && pts[i - 1].temp >= #[trigger] pts[i].temp) ==> curve_check(
            pts,
        ) is Err,
        (exists|i: int| 0 <= i < pts.len() && pts[i].speed > 100) ==> curve_check(pts) is Err,
{
    if exists|i: int| 1 <= i < pts.len() && pts[i - 1].temp >= #[trigger] pts[i].temp {
        let i = choose|i: int| 1 <= i < pts.len() && pts[i - 1].temp >= #[trigger] pts[i].temp;
        assert(!temps_ascending(pts)) by {
            assert(!(pts[i - 1].temp < pts[i].temp));
        }
    }
    if exists|i: int| 0 <= i < pts.len() && pts[i].speed > 100 {
        let i = choose|i: int| 0 <= i < pts.len() && pts[i].speed > 100;
        assert(!speeds_in_range(pts)) by {
            assert(!(pts[i].speed <= 100));
        }
    }
}

impl View for FanCurve {
    type V = Seq<FanCurvePoint>;

    open spec fn view(&self) -> Seq<FanCurvePoint> {
        self.points@
    }
}

impl Clone for FanCurve {
    fn clone(&self) -> (r: Self)
        ensures
            r@ == self@,
    {
        let points = self.points.clone();
        assert(points@ =~= self.points@);
        FanCurve { points }
    }
}

impl FanCurve {
    pub open spec fn is_valid(&self) -> bool {
        curve_check(self.points@) is Ok
    }

    /// Checks that the curve has exactly eight points, strictly ascending
    /// temperatures and duty values within 0..=100.
    pub fn validate(&self) -> (r: Result<(), CurveError>)
        ensures
            r == curve_check(self.points@),
    {
        if self.points.len() != CURVE_POINTS {
            return Err(CurveError::WrongPointCount);
        }
        let mut i: usize = 1;
        while i < self.points.len()
            invariant
                self.points@.len() == CURVE_POINTS,
                1 <= i <= self.points@.len(),
                temps_ascending(self.points@.take(i as int)),
            decreases self.points@.len() - i,
        {
            if self.points[i].temp <= self.points[i - 1].temp {
                assert(!(self.points@[i as int - 1].temp < self.points@[i as int].temp));
                return Err(CurveError::NotAscending);
            }
            assert forall|a: int, b: int| 0 <= a < b < i + 1 implies #[trigger] self.points@.take(
                i + 1,
            )[a].temp < #[trigger] self.points@.take(i + 1)[b].temp by {
                if b < i {
                    assert(self.points@.take(i as int)[a] == self.points@[a]);
                    assert(self.points@.take(i as int)[b] == self.points@[b]);
                } else if a < i - 1 {
                    assert(self.points@.take(i as int)[a] == self.points@[a]);
                    assert(self.points@.take(i as int)[i - 1] == self.points@[i - 1]);
                }
            }
            i = i + 1;
        }
        assert(self.points@.take(self.points@.len() as int) =~= self.points@);
        let mut j: usize = 0;
        while j < self.points.len()
            invariant
                self.points@.len() == CURVE_POINTS,
                j <= self.points@.len(),
                temps_ascending(self.points@),
                forall|k: int| 0 <= k < j ==> #[trigger] self.points@[k].speed <= 100,
            decreases self.points@.len() - j,
        {
            if self.points[j].speed > MAX_PERCENT {
                assert(!(self.points@[j as int].speed <= 100));
                return Err(CurveError::SpeedOutOfRange);
            }
            j = j + 1;
        }
        Ok(())
    }
}

#[derive(Debug, Clone, Copy, PartialEq, Eq, Structural)]
pub struct KeyboardBacklight {
    pub color: RGBColor,
    /// Percent, 0..=100.
    pub brightness: u8,
}

#[derive(Debug, Clone, Copy, PartialEq, Eq, Structural)]
pub enum CpuPerformanceProfile {
    PowerSave,
    Balanced,
    Performance,
}

#[derive(Debug, Clone, Copy, PartialEq, Eq, Structural)]
pub struct CpuSettings {
    pub performance_profile: CpuPerformanceProfile,
    pub min_freq_mhz: Option<u32>,
    pub max_freq_mhz: Option<u32>,
    pub disable_boost: bool,
    pub smt_enabled: bool,
}

#[derive(Debug, Clone, Copy, PartialEq, Eq, Structural)]
pub struct ScreenSettings {
    /// Percent, 0..=100.
    pub brightness: u8,
    pub auto_brightness: bool,
}

/// The curve assigned to one fan, keyed by the fan's identifier ("fan1", "cpu", ...).
#[derive(Debug)]
pub struct FanCurveEntry {
    pub fan_id: String,
    pub curve: FanCurve,
}

impl View for FanCurveEntry {
    type V = (Seq<char>, Seq<FanCurvePoint>);

    open spec fn view(&self) -> (Seq<char>, Seq<FanCurvePoint>) {
        (self.fan_id@, self.curve@)
    }
}

impl Clone for FanCurveEntry {
    fn clone(&self) -> (r: Self)
        ensures
            r@ == self@,
    {
        FanCurveEntry { fan_id: self.fan_id.clone(), curve: self.curve.clone() }
    }
}

/// Why a profile, or an operation on the profile store, is rejected.
#[derive(Debug, Clone, Copy, PartialEq, Eq, Structural)]
pub enum ProfileError {
    /// A fan curve of the profile is malformed.
    InvalidFanCurve(CurveError),
    /// Two fan curves of the profile share one fan identifier.
    DuplicateFanId,
    KeyboardBrightnessOutOfRange,
    ScreenBrightnessOutOfRange,
    /// Another profile of the store already has this name.
    DuplicateName,
    IndexOutOfBounds,
    /// The default profile cannot be deleted.
    CannotDeleteDefault,
    /// The change would leave the store without exactly one default profile.
    NotExactlyOneDefault,
    /// No profile has the requested name.
    NotFound,
}

/// A named bundle of hardware settings plus its auto-switch triggers.
#[derive(Debug)]
pub struct Profile {
    pub name: String,
    pub is_default: bool,
    pub keyboard_backlight: KeyboardBacklight,
    /// One curve per fan, fan identifiers distinct.
    pub fan_curves: Vec<FanCurveEntry>,
    pub cpu_settings: CpuSettings,
    pub screen_settings: ScreenSettings,
    pub auto_switch_enabled: bool,
    /// Substrings of an application name that select this profile.
    pub trigger_apps: Vec<String>,
}

pub ghost struct ProfileView {
    pub name: Seq<char>,
    pub is_default: bool,
    pub keyboard_backlight: KeyboardBacklight,
    pub fan_curves: Seq<(Seq<char>, Seq<FanCurvePoint>)>,
    pub cpu_settings: CpuSettings,
    pub screen_settings: ScreenSettings,
    pub auto_switch_enabled: bool,
    pub trigger_apps: Seq<Seq<char>>,
}

impl View for Profile {
    type V = ProfileView;

    open spec fn view(&self) -> ProfileView {
        ProfileView {
            name: self.name@,
            is_default: self.is_default,
            keyboard_backlight: self.keyboard_backlight,
            fan_curves: self.fan_curves@.map_values(|e: FanCurveEntry| e@),
            cpu_settings: self.cpu_settings,
            screen_settings: self.screen_settings,
            auto_switch_enabled: self.auto_switch_enabled,
            trigger_apps: self.trigger_apps@.map_values(|t: String| t@),
        }
    }
}

/// The error of the first malformed curve at position `i` or later.
pub open spec fn first_curve_error(curves: Seq<(Seq<char>, Seq<FanCurvePoint>)>, i: int) -> Option<
    CurveError,
>
    decreases curves.len() - i,
{
    if i < 0 || i >= curves.len() {
        None
    } else {
        match curve_check(curves[i].1) {
            Err(e) => Some(e),
            Ok(_) => first_curve_error(curves, i + 1),
        }
    }
}

pub open spec fn fan_ids_unique(curves: Seq<(Seq<char>, Seq<FanCurvePoint>)>) -> bool {
    forall|i: int, j: int|
        0 <= i < j < curves.len() ==> #[trigger] curves[i].0 != #[trigger] curves[j].0
}

/// The verdict of profile validation, checks taken in order: fan curves in
/// list order, distinct fan identifiers, keyboard brightness, screen brightness.
pub open spec fn profile_check(p: ProfileView) -> Result<(), ProfileError> {
    match first_curve_error(p.fan_curves, 0) {
        Some(e) => Err(ProfileError::InvalidFanCurve(e)),
        None => if !fan_ids_unique(p.fan_curves) {
            Err(ProfileError::DuplicateFanId)
        } else if p.keyboard_backlight.brightness > 100 {
            Err(ProfileError::KeyboardBrightnessOutOfRange)
        } else if p.screen_settings.brightness > 100 {
            Err(ProfileError::ScreenBrightnessOutOfRange)
        } else {
            Ok(())
        },
    }
}

pub open spec fn default_curve_points() -> Seq<FanCurvePoint> {
    seq![
        FanCurvePoint { temp: 40, speed: 30 },
        FanCurvePoint { temp: 50, speed: 40 },
        FanCurvePoint { temp: 60, speed: 50 },
        FanCurvePoint { temp: 65, speed: 60 },
        FanCurvePoint { temp: 70, speed: 70 },
        FanCurvePoint { temp: 75, speed: 80 },
        FanCurvePoint { temp: 80, speed: 90 },
        FanCurvePoint { temp: 85, speed: 100 },
    ]
}

/// The profile a fresh store starts with.
pub open spec fn default_profile_view() -> ProfileView {
    ProfileView {
        name: "Default"@,
        is_default: true,
        keyboard_backlight: KeyboardBacklight {
            color: RGBColor { r: 255, g: 255, b: 255 },
            brightness: 50,
        },
        fan_curves: seq![("fan1"@, default_curve_points()), ("fan2"@, default_curve_points())],
        cpu_settings: CpuSettings {
            performance_profile: CpuPerformanceProfile::Balanced,
            min_freq_mhz: None,
            max_freq_mhz: None,
            disable_boost: false,
            smt_enabled: true,
        },
        screen_settings: ScreenSettings { brightness: 70, auto_brightness: false },
        auto_switch_enabled: false,
        trigger_apps: seq![],
    }
}

impl Clone for Profile {
    fn clone(&self) -> (r: Self)
        ensures
            r@ == self@,
    {
        let fan_curves = self.fan_curves.clone();
        let trigger_apps = self.trigger_apps.clone();
        let r = Profile {
            name: self.name.clone(),
            is_default: self.is_default,
            keyboard_backlight: self.keyboard_backlight,
            fan_curves,
            cpu_settings: self.cpu_settings,
            screen_settings: self.screen_settings,
            auto_switch_enabled: self.auto_switch_enabled,
            trigger_apps,
        };
        assert(r@.fan_curves =~= self@.fan_curves);
        assert(r@.trigger_apps =~= self@.trigger_apps);
        r
    }
}

impl Profile {
    pub open spec fn is_valid(&self) -> bool {
        profile_check(self@) is Ok
    }

    /// The factory default: balanced CPU, white keyboard at half brightness,
    /// the same eight-point curve on "fan1" and "fan2".
    pub fn default_profile() -> (r: Profile)
        ensures
            r@ == default_profile_view(),
            r.is_valid(),
    {
        let curve = FanCurve {
            points: vec![
                FanCurvePoint { temp: 40, speed: 30 },
                FanCurvePoint { temp: 50, speed: 40 },
                FanCurvePoint { temp: 60, speed: 50 },
                FanCurvePoint { temp: 65, speed: 60 },
                FanCurvePoint { temp: 70, speed: 70 },
                FanCurvePoint { temp: 75, speed: 80 },
                FanCurvePoint { temp: 80, speed: 90 },
                FanCurvePoint { temp: 85, speed: 100 },
            ],
        };
        assert(curve@ =~= default_curve_points());
        let first = FanCurveEntry { fan_id: String::from_str("fan1"), curve: curve.clone() };
        let second = FanCurveEntry { fan_id: String::from_str("fan2"), curve };
        let r = Profile {
            name: String::from_str("Default"),
            is_default: true,
            keyboard_backlight: KeyboardBacklight {
                color: RGBColor { r: 255, g: 255, b: 255 },
                brightness: 50,
            },
            fan_curves: vec![first, second],
            cpu_settings: CpuSettings {
                performance_profile: CpuPerformanceProfile::Balanced,
                min_freq_mhz: None,
                max_freq_mhz: None,
                disable_boost: false,
                smt_enabled: true,
            },
            screen_settings: ScreenSettings { brightness: 70, auto_brightness: false },
            auto_switch_enabled: false,
            trigger_apps: Vec::new(),
        };
        proof {
            reveal_strlit("fan1");
            reveal_strlit("fan2");
            assert(r@.fan_curves =~= default_profile_view().fan_curves);
            assert(r@.trigger_apps =~= default_profile_view().trigger_apps);
            lemma_default_curve_valid();
            assert(first_curve_error(r@.fan_curves, 2) == None::<CurveError>);
            assert(first_curve_error(r@.fan_curves, 1) == None::<CurveError>);
            assert(r@.fan_curves[0].0[3] != r@.fan_curves[1].0[3]);
        }
        r
    }

    /// Checks every fan curve, that fan identifiers are distinct, and that
    /// both brightness values are percentages.
    pub fn validate(&self) -> (r: Result<(), ProfileError>)
        ensures
            r == profile_check(self@),
    {
        let ghost curves = self@.fan_curves;
        let mut i: usize = 0;
        while i < self.fan_curves.len()
            invariant
                i <= self.fan_curves@.len(),
                curves == self@.fan_curves,
                first_curve_error(curves, 0) == first_curve_error(curves, i as int),
            decreases self.fan_curves@.len() - i,
        {
            match self.fan_curves[i].curve.validate() {
                Err(e) => {
                    assert(curves[i as int] == self.fan_curves@[i as int]@);
                    return Err(ProfileError::InvalidFanCurve(e));
                },
                Ok(()) => {
                    assert(curves[i as int] == self.fan_curves@[i as int]@);
                },
            }
            i = i + 1;
        }
        let mut a: usize = 0;
        while a < self.fan_curves.len()
            invariant
                a <= self.fan_curves@.len(),
                curves == self@.fan_curves,
                first_curve_error(curves, 0) == None::<CurveError>,
                forall|x: int, y: int|
                    0 <= x < a && x < y < curves.len() ==> #[trigger] curves[x].0
                        != #[trigger] curves[y].0,
            decreases self.fan_curves@.len() - a,
        {
            let mut b: usize = a + 1;
            while b < self.fan_curves.len()
                invariant
                    a < self.fan_curves@.len(),
                    a < b <= self.fan_curves@.len(),
                    curves == self@.fan_curves,
                    first_curve_error(curves, 0) == None::<CurveError>,
                    forall|x: int, y: int|
                        0 <= x < a && x < y < curves.len() ==> #[trigger] curves[x].0
                            != #[trigger] curves[y].0,
                    forall|y: int| a < y < b ==> curves[a as int].0 != #[trigger] curves[y].0,
                decreases self.fan_curves@.len() - b,
            {
                let same = self.fan_curves[a].fan_id == self.fan_curves[b].fan_id;
                assert(curves[a as int] == self.fan_curves@[a as int]@);
                assert(curves[b as int] == self.fan_curves@[b as int]@);
                if same {
                    assert(self.fan_curves@[a as int].fan_id@ == self.fan_curves@[b as int].fan_id@);
                    assert(curves[a as int].0 == curves[b as int].0);
                    assert(!fan_ids_unique(curves));
                    return Err(ProfileError::DuplicateFanId);
                }
                b = b + 1;
            }
            a = a + 1;
        }
        if self.keyboard_backlight.brightness > MAX_PERCENT {
            return Err(ProfileError::KeyboardBrightnessOutOfRange);
        }
        if self.screen_settings.brightness > MAX_PERCENT {
            return Err(ProfileError::ScreenBrightnessOutOfRange);
        }
        Ok(())
    }
}

/// When no curve from position `i` on is malformed, each of them passes validation.
pub proof fn lemma_curves_valid_from(curves: Seq<(Seq<char>, Seq<FanCurvePoint>)>, i: int)
    requires
        0 <= i,
        first_curve_error(curves, i) is None,
    ensures
        forall|k: int| i <= k < curves.len() ==> (#[trigger] curve_check(curves[k].1)) is Ok,
    decreases curves.len() - i,
{
    if i < curves.len() {
        lemma_curves_valid_from(curves, i + 1);
    }
}

proof fn lemma_default_curve_valid()
    ensures
        curve_check(default_curve_points()) is Ok,
{
    let pts = default_curve_points();
    assert(temps_ascending(pts)) by {
        assert forall|i: int, j: int| 0 <= i < j < pts.len() implies #[trigger] pts[i].temp
            < #[trigger] pts[j].temp by {
            assert(pts[i].temp < pts[j].temp);
        }
    }
}

} // verus!
