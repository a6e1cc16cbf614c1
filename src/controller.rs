//! Profile selection and application, and the application monitor that
//! switches profiles when a known application runs.

use vstd::prelude::*;
use vstd::string::StringExecFns;
use vstd::string::StrSliceExecFns;
use crate::hardware::{HardwareController, ProfileApplication, WritePlan, application_matches, plans_view, single, boost_plan_spec, SysfsNode, SysfsValue, SysfsWord};
use crate::keyboard::KeyboardView;
use crate::profile::{
    CpuPerformanceProfile, Profile, ProfileError, ProfileView, RGBColor, default_profile_view,
};
use crate::store::{
    ProfileManager, ProfileManagerView, store_wf, add_spec, update_spec, delete_spec,
    set_active_spec, profile_matches_app,
};
use crate::text::{lower_of, lowercase, contains_text, text_equals, seq_contains, is_digit, is_ascii_digit};

verus! {

pub ghost struct ProfileControllerView {
    pub store: ProfileManagerView,
    pub keyboard: Option<KeyboardView>,
    pub monitoring: bool,
    /// The last application signal that switched profiles.
    pub last_detected: Seq<char>,
}

/// Owns the profile store and the hardware controller; applies profiles
/// and runs the auto-switch decisions.
pub struct ProfileController {
    profile_manager: ProfileManager,
    hardware_controller: HardwareController,
    monitoring_enabled: bool,
    last_detected_app: String,
}

impl View for ProfileController {
    type V = ProfileControllerView;

    closed spec fn view(&self) -> ProfileControllerView {
        ProfileControllerView {
            store: self.profile_manager@,
            keyboard: self.hardware_controller@,
            monitoring: self.monitoring_enabled,
            last_detected: self.last_detected_app@,
        }
    }
}

/// Index of the first profile that switches on for `app`.
pub open spec fn first_match(ps: Seq<ProfileView>, app: Seq<char>, i: int) -> bool {
    0 <= i < ps.len() && profile_matches_app(ps[i], app) && forall|k: int|
        0 <= k < i ==> !profile_matches_app(#[trigger] ps[k], app)
}

pub open spec fn no_match(ps: Seq<ProfileView>, app: Seq<char>) -> bool {
    forall|k: int| 0 <= k < ps.len() ==> !profile_matches_app(#[trigger] ps[k], app)
}

/// The application signal one command line gives: the first of "steam",
/// "lutris", "gamemode" that occurs in it, case-folded.
pub open spec fn signal_of(cmdline: Seq<char>) -> Option<Seq<char>> {
    let l = lower_of(cmdline);
    if seq_contains(l, "steam"@) {
        Some("steam"@)
    } else if seq_contains(l, "lutris"@) {
        Some("lutris"@)
    } else if seq_contains(l, "gamemode"@) {
        Some("gamemode"@)
    } else {
        None
    }
}

/// The signal of the first command line, from position `i` on, that gives one; empty if none does.
pub open spec fn detect_from(cmdlines: Seq<Seq<char>>, i: int) -> Seq<char>
    decreases cmdlines.len() - i,
{
    if i < 0 || i >= cmdlines.len() {
        seq![]
    } else {
        match signal_of(cmdlines[i]) {
            Some(s) => s,
            None => detect_from(cmdlines, i + 1),
        }
    }
}

/// The application signal across the whole process table: the signal of
/// the first command line (in table order) that gives one, or empty.
pub fn detect_running_apps(cmdlines: &Vec<String>) -> (r: String)
    ensures
        r@ == detect_from(cmdlines@.map_values(|c: String| c@), 0),
{
    let ghost v = cmdlines@.map_values(|c: String| c@);
    let mut i: usize = 0;
    while i < cmdlines.len()
        invariant
            v == cmdlines@.map_values(|c: String| c@),
            i <= cmdlines@.len(),
            detect_from(v, 0) == detect_from(v, i as int),
        decreases cmdlines@.len() - i,
    {
        assert(v[i as int] == cmdlines@[i as int]@);
        let lower = lowercase(cmdlines[i].as_str());
        if contains_text(lower.as_str(), "steam") {
            return String::from_str("steam");
        }
        if contains_text(lower.as_str(), "lutris") {
            return String::from_str("lutris");
        }
        if contains_text(lower.as_str(), "gamemode") {
            return String::from_str("gamemode");
        }
        i = i + 1;
    }
    String::new()
}

/// A process-table entry: a name made only of decimal digits (a PID).
pub fn is_pid_entry(name: &str) -> (r: bool)
    ensures
        r == (forall|i: int| 0 <= i < name@.len() ==> is_digit(#[trigger] name@[i])),
{
    let n = name.unicode_len();
    let mut i: usize = 0;
    while i < n
        invariant
            n == name@.len(),
            i <= n,
            forall|k: int| 0 <= k < i ==> is_digit(#[trigger] name@[k]),
        decreases n - i,
    {
        if !is_ascii_digit(name.get_char(i)) {
            return false;
        }
        i = i + 1;
    }
    true
}

impl ProfileController {
    /// The store is well formed.
    pub open spec fn wf(&self) -> bool {
        store_wf(self@.store)
    }

    /// A controller over `profile_manager`, with application monitoring off.
    pub fn new(profile_manager: ProfileManager, hardware_controller: HardwareController) -> (r:
        ProfileController)
        requires
            profile_manager.wf(),
        ensures
            r.wf(),
            r@.store == profile_manager@,
            r@.keyboard == hardware_controller@,
            !r@.monitoring,
            r@.last_detected == Seq::<char>::empty(),
    {
        ProfileController {
            profile_manager,
            hardware_controller,
            monitoring_enabled: false,
            last_detected_app: String::new(),
        }
    }

    /// Makes the profile at `index` active and returns what applying it writes.
    pub fn apply_profile(&mut self, index: usize) -> (r: Result<ProfileApplication, ProfileError>)
        requires
            old(self).wf(),
        ensures
            final(self).wf(),
            r is Err <==> index >= old(self)@.store.profiles.len(),
            r is Err ==> r->Err_0 == ProfileError::IndexOutOfBounds && final(self)@ == old(self)@,
            r is Ok ==> final(self)@ == (ProfileControllerView {
                store: set_active_spec(old(self)@.store, index as int).1,
                ..old(self)@
            }) && application_matches(
                r->Ok_0,
                old(self)@.keyboard,
                old(self)@.store.profiles[index as int],
            ),
    {
        match self.profile_manager.set_active_profile(index) {
            Err(e) => Err(e),
            Ok(()) => {
                let profile = self.profile_manager.get_active_profile();
                Ok(self.hardware_controller.apply_profile(profile))
            },
        }
    }

    /// Position of the profile called `name`.
    fn index_of_name(&self, name: &str) -> (r: Option<usize>)
        requires
            self.wf(),
        ensures
            r matches Some(i) ==> i < self@.store.profiles.len() && self@.store.profiles[i as int].name
                == name@,
            r is None ==> forall|k: int|
                0 <= k < self@.store.profiles.len() ==> (#[trigger] self@.store.profiles[k]).name
                    != name@,
    {
        let profiles = self.profile_manager.get_profiles();
        let mut i: usize = 0;
        while i < profiles.len()
            invariant
                i <= profiles@.len(),
                profiles@.map_values(|p: Profile| p@) == self@.store.profiles,
                forall|k: int| 0 <= k < i ==> (#[trigger] self@.store.profiles[k]).name != name@,
            decreases profiles@.len() - i,
        {
            assert(self@.store.profiles[i as int] == profiles@[i as int]@);
            if text_equals(profiles[i].name.as_str(), name) {
                return Some(i);
            }
            i = i + 1;
        }
        None
    }

    /// Applies the profile called `name`; `NotFound` when there is none.
    pub fn apply_profile_by_name(&mut self, name: &str) -> (r: Result<
        ProfileApplication,
        ProfileError,
    >)
        requires
            old(self).wf(),
        ensures
            final(self).wf(),
            r is Err <==> forall|k: int|
                0 <= k < old(self)@.store.profiles.len() ==> (#[trigger] old(
                    self,
                )@.store.profiles[k]).name != name@,
            r is Err ==> r->Err_0 == ProfileError::NotFound && final(self)@ == old(self)@,
            r is Ok ==> old(self)@.store.profiles[final(self)@.store.active].name == name@
                && final(self)@ == (ProfileControllerView {
                store: set_active_spec(old(self)@.store, final(self)@.store.active).1,
                ..old(self)@
            }) && application_matches(
                r->Ok_0,
                old(self)@.keyboard,
                old(self)@.store.profiles[final(self)@.store.active],
            ),
    {
        match self.index_of_name(name) {
            None => Err(ProfileError::NotFound),
            Some(i) => self.apply_profile(i),
        }
    }

    /// A copy of the active profile.
    pub fn get_active_profile(&self) -> (r: Profile)
        requires
            self.wf(),
        ensures
            r@ == self@.store.profiles[self@.store.active],
            r.is_valid(),
    {
        self.profile_manager.get_active_profile().clone()
    }

    /// A copy of every profile, in store order.
    pub fn get_all_profiles(&self) -> (r: Vec<Profile>)
        ensures
            r@.map_values(|p: Profile| p@) == self@.store.profiles,
    {
        let profiles = self.profile_manager.get_profiles();
        let out = profiles.clone();
        proof {
            assert forall|k: int| 0 <= k < out@.len() implies #[trigger] out@[k]@ == profiles@[k]@ by {
                assert(cloned::<Profile>(profiles@[k], out@[k]));
            }
            assert(out@.map_values(|p: Profile| p@) =~= profiles@.map_values(|p: Profile| p@));
        }
        out
    }

    pub fn add_profile(&mut self, profile: Profile) -> (r: Result<(), ProfileError>)
        requires
            old(self).wf(),
        ensures
            final(self).wf(),
            (r, final(self)@.store) == add_spec(old(self)@.store, profile@),
            final(self)@ == (ProfileControllerView { store: final(self)@.store, ..old(self)@ }),
    {
        self.profile_manager.add_profile(profile)
    }

    pub fn update_profile(&mut self, index: usize, profile: Profile) -> (r: Result<(), ProfileError>)
        requires
            old(self).wf(),
        ensures
            final(self).wf(),
            (r, final(self)@.store) == update_spec(old(self)@.store, index as int, profile@),
            final(self)@ == (ProfileControllerView { store: final(self)@.store, ..old(self)@ }),
    {
        self.profile_manager.update_profile(index, profile)
    }

    pub fn delete_profile(&mut self, index: usize) -> (r: Result<(), ProfileError>)
        requires
            old(self).wf(),
        ensures
            final(self).wf(),
            (r, final(self)@.store) == delete_spec(old(self)@.store, index as int),
            final(self)@ == (ProfileControllerView { store: final(self)@.store, ..old(self)@ }),
    {
        self.profile_manager.delete_profile(index)
    }

    /// The profile store, for persisting it.
    pub fn profile_manager(&self) -> (r: &ProfileManager)
        ensures
            r@ == self@.store,
    {
        &self.profile_manager
    }

    /// The argument for `prime-select` (a restart makes the switch take effect).
    pub fn switch_gpu(&self, use_discrete: bool) -> (r: &'static str)
        ensures
            r@ == (if use_discrete {
                "nvidia"@
            } else {
                "intel"@
            }),
    {
        self.hardware_controller.switch_gpu(use_discrete)
    }

    /// The writes of maximum-performance mode.
    pub fn enable_maximum_performance(&self) -> (r: Vec<WritePlan>)
        ensures
            plans_view(r@) == seq![
                seq![single(SysfsNode::CpuGovernor, SysfsValue::Word(SysfsWord::Performance))],
                boost_plan_spec(true),
            ],
    {
        self.hardware_controller.set_maximum_performance()
    }

    /// Turns application monitoring on. Returns whether the caller must
    /// launch the monitoring loop: only when it was off.
    pub fn start_app_monitoring(&mut self) -> (spawn_loop: bool)
        requires
            old(self).wf(),
        ensures
            final(self).wf(),
            spawn_loop == !old(self)@.monitoring,
            final(self)@ == (ProfileControllerView { monitoring: true, ..old(self)@ }),
    {
        if self.monitoring_enabled {
            return false;
        }
        self.monitoring_enabled = true;
        true
    }

    /// Asks the monitoring loop to exit on its next check.
    pub fn stop_app_monitoring(&mut self)
        requires
            old(self).wf(),
        ensures
            final(self).wf(),
            final(self)@ == (ProfileControllerView { monitoring: false, ..old(self)@ }),
    {
        self.monitoring_enabled = false;
    }

    pub fn is_app_monitoring(&self) -> (r: bool)
        ensures
            r == self@.monitoring,
    {
        self.monitoring_enabled
    }

    /// One monitoring tick with the signal detected in the process table.
    /// When it differs from the last one that switched profiles and a profile
    /// switches on for it, that profile becomes active and its application is
    /// returned with its index. Otherwise nothing changes (closing the
    /// application does not revert the profile).
    pub fn auto_switch(&mut self, detected: &str) -> (r: Option<(usize, ProfileApplication)>)
        requires
            old(self).wf(),
        ensures
            final(self).wf(),
            detected@ == old(self)@.last_detected ==> r is None && final(self)@ == old(self)@,
            detected@ != old(self)@.last_detected && no_match(old(self)@.store.profiles, detected@)
                ==> r is None && final(self)@ == old(self)@,
            r matches Some((i, a)) ==> detected@ != old(self)@.last_detected && first_match(
                old(self)@.store.profiles,
                detected@,
                i as int,
            ) && final(self)@ == (ProfileControllerView {
                store: set_active_spec(old(self)@.store, i as int).1,
                last_detected: detected@,
                ..old(self)@
            }) && application_matches(a, old(self)@.keyboard, old(self)@.store.profiles[i as int]),
            r is None ==> final(self)@ == old(self)@,
            detected@ != old(self)@.last_detected && !no_match(old(self)@.store.profiles, detected@)
                ==> r is Some,
    {
        if text_equals(detected, self.last_detected_app.as_str()) {
            return None;
        }
        match self.profile_manager.find_profile_for_app(detected) {
            None => None,
            Some(i) => {
                match self.apply_profile(i) {
                    Ok(a) => {
                        self.last_detected_app = String::from_str(detected);
                        Some((i, a))
                    },
                    Err(_) => None,
                }
            },
        }
    }
}

/// Builds a profile from the default one, setting one thing at a time.
pub struct ProfileBuilder {
    profile: Profile,
}

impl View for ProfileBuilder {
    type V = ProfileView;

    closed spec fn view(&self) -> ProfileView {
        self.profile@
    }
}

impl ProfileBuilder {
    /// The default profile under another name, not marked default.
    pub fn new(name: &str) -> (r: ProfileBuilder)
        ensures
            r@ == (ProfileView { name: name@, is_default: false, ..default_profile_view() }),
    {
        let mut profile = Profile::default_profile();
        profile.name = String::from_str(name);
        profile.is_default = false;
        ProfileBuilder { profile }
    }

    pub fn keyboard_color(self, r: u8, g: u8, b: u8) -> (s: ProfileBuilder)
        ensures
            s@ == (ProfileView {
                keyboard_backlight: crate::profile::KeyboardBacklight {
                    color: RGBColor { r, g, b },
                    ..self@.keyboard_backlight
                },
                ..self@
            }),
    {
        let mut s = self;
        s.profile.keyboard_backlight.color = RGBColor { r, g, b };
        s
    }

    pub fn keyboard_brightness(self, brightness: u8) -> (s: ProfileBuilder)
        ensures
            s@ == (ProfileView {
                keyboard_backlight: crate::profile::KeyboardBacklight {
                    brightness,
                    ..self@.keyboard_backlight
                },
                ..self@
            }),
    {
        let mut s = self;
        s.profile.keyboard_backlight.brightness = brightness;
        s
    }

    pub fn cpu_performance(self, profile: CpuPerformanceProfile) -> (s: ProfileBuilder)
        ensures
            s@ == (ProfileView {
                cpu_settings: crate::profile::CpuSettings {
                    performance_profile: profile,
                    ..self@.cpu_settings
                },
                ..self@
            }),
    {
        let mut s = self;
        s.profile.cpu_settings.performance_profile = profile;
        s
    }

    pub fn cpu_frequency_limits(self, min_mhz: Option<u32>, max_mhz: Option<u32>) -> (s:
        ProfileBuilder)
        ensures
            s@ == (ProfileView {
                cpu_settings: crate::profile::CpuSettings {
                    min_freq_mhz: min_mhz,
                    max_freq_mhz: max_mhz,
                    ..self@.cpu_settings
                },
                ..self@
            }),
    {
        let mut s = self;
        s.profile.cpu_settings.min_freq_mhz = min_mhz;
        s.profile.cpu_settings.max_freq_mhz = max_mhz;
        s
    }

    pub fn disable_boost(self, disable: bool) -> (s: ProfileBuilder)
        ensures
            s@ == (ProfileView {
                cpu_settings: crate::profile::CpuSettings {
                    disable_boost: disable,
                    ..self@.cpu_settings
                },
                ..self@
            }),
    {
        let mut s = self;
        s.profile.cpu_settings.disable_boost = disable;
        s
    }

    pub fn smt_enabled(self, enabled: bool) -> (s: ProfileBuilder)
        ensures
            s@ == (ProfileView {
                cpu_settings: crate::profile::CpuSettings {
                    smt_enabled: enabled,
                    ..self@.cpu_settings
                },
                ..self@
            }),
    {
        let mut s = self;
        s.profile.cpu_settings.smt_enabled = enabled;
        s
    }

    pub fn screen_brightness(self, brightness: u8) -> (s: ProfileBuilder)
        ensures
            s@ == (ProfileView {
                screen_settings: crate::profile::ScreenSettings {
                    brightness,
                    ..self@.screen_settings
                },
                ..self@
            }),
    {
        let mut s = self;
        s.profile.screen_settings.brightness = brightness;
        s
    }

    /// Turns auto-switching on, triggered by `apps`.
    pub fn auto_switch_for_apps(self, apps: Vec<String>) -> (s: ProfileBuilder)
        ensures
            s@ == (ProfileView {
                auto_switch_enabled: true,
                trigger_apps: apps@.map_values(|t: String| t@),
                ..self@
            }),
    {
        let mut s = self;
        s.profile.auto_switch_enabled = true;
        s.profile.trigger_apps = apps;
        s
    }

    pub fn build(self) -> (r: Profile)
        ensures
            r@ == self@,
    {
        self.profile
    }
}

} // verus!
