//! The daemons together: the fan daemon and application monitoring, kept in
//! step with the active profile.

use vstd::prelude::*;
use crate::controller::{ProfileController, ProfileControllerView};
use crate::fan_daemon::{FanDaemon, FanDaemonView, start_spec, stop_spec};
use crate::hardware::{ProfileApplication, application_matches};
use crate::profile::{Profile, ProfileError, profile_check};
use crate::store::set_active_spec;

verus! {

/// Sampling interval of the fan daemon, in milliseconds.
pub const FAN_INTERVAL_MS: u64 = 2000;

/// Snapshot of the daemons' state.
#[derive(Debug, Clone, PartialEq, Eq)]
pub struct DaemonStatus {
    pub fan_daemon_running: bool,
    pub app_monitoring_running: bool,
    pub active_profile: String,
}

/// What the caller must launch after a call: the fan sampling loop, the
/// application monitoring loop, or both.
#[derive(Debug, Clone, Copy, PartialEq, Eq, Structural)]
pub struct LoopLaunches {
    pub fan_loop: bool,
    pub monitor_loop: bool,
}

pub struct DaemonManager {
    pub profile_controller: ProfileController,
    pub fan_daemon: FanDaemon,
}

impl DaemonManager {
    /// The fan daemon's state.
    pub open spec fn fan(&self) -> FanDaemonView {
        self.fan_daemon@
    }

    /// The controller is well formed and the fan daemon's snapshot is valid.
    pub open spec fn wf(&self) -> bool {
        &&& self.profile_controller.wf()
        &&& self.fan().profile is Some ==> profile_check(self.fan().profile.unwrap()) is Ok
    }

    /// Both daemons stopped; the fan daemon samples every two seconds.
    pub fn new(profile_controller: ProfileController) -> (r: DaemonManager)
        requires
            profile_controller.wf(),
        ensures
            r.wf(),
            r.profile_controller@ == profile_controller@,
            r.fan() == (FanDaemonView {
                running: false,
                profile: None,
                update_interval_ms: FAN_INTERVAL_MS,
            }),
    {
        DaemonManager { profile_controller, fan_daemon: FanDaemon::new(FAN_INTERVAL_MS) }
    }

    /// The fan daemon, for its sampling loop.
    pub fn fan_daemon(&self) -> (r: &FanDaemon)
        ensures
            r@ == self.fan(),
            self.wf() ==> r.wf(),
    {
        &self.fan_daemon
    }

    /// Starts the fan daemon with the active profile, and application
    /// monitoring when that profile auto-switches.
    pub fn start_all(&mut self) -> (r: LoopLaunches)
        requires
            old(self).wf(),
        ensures
            final(self).wf(),
            ({
                let c = old(self).profile_controller@;
                let p = c.store.profiles[c.store.active];
                &&& (final(self).fan(), r.fan_loop) == start_spec(old(self).fan(), p)
                &&& r.monitor_loop == (p.auto_switch_enabled && !c.monitoring)
                &&& final(self).profile_controller@ == (ProfileControllerView {
                    monitoring: c.monitoring || p.auto_switch_enabled,
                    ..c
                })
            }),
    {
        let profile = self.profile_controller.get_active_profile();
        let auto = profile.auto_switch_enabled;
        let fan_loop = self.start_fan_daemon(profile);
        let monitor_loop = if auto {
            self.start_app_monitoring()
        } else {
            false
        };
        LoopLaunches { fan_loop, monitor_loop }
    }

    /// Stops both daemons.
    pub fn stop_all(&mut self)
        requires
            old(self).wf(),
        ensures
            final(self).wf(),
            final(self).fan() == stop_spec(old(self).fan()),
            final(self).profile_controller@ == (ProfileControllerView {
                monitoring: false,
                ..old(self).profile_controller@
            }),
    {
        self.stop_fan_daemon();
        self.stop_app_monitoring();
    }

    /// Starts the fan daemon; returns whether its loop must be launched.
    pub fn start_fan_daemon(&mut self, profile: Profile) -> (spawn_loop: bool)
        requires
            old(self).wf(),
            profile.is_valid(),
        ensures
            final(self).wf(),
            (final(self).fan(), spawn_loop) == start_spec(old(self).fan(), profile@),
            final(self).profile_controller@ == old(self).profile_controller@,
    {
        self.fan_daemon.start(profile)
    }

    pub fn stop_fan_daemon(&mut self)
        requires
            old(self).wf(),
        ensures
            final(self).wf(),
            final(self).fan() == stop_spec(old(self).fan()),
            final(self).profile_controller@ == old(self).profile_controller@,
    {
        self.fan_daemon.stop();
    }

    /// Hands the fan daemon a new profile snapshot.
    pub fn update_fan_daemon_profile(&mut self, profile: Profile)
        requires
            old(self).wf(),
            profile.is_valid(),
        ensures
            final(self).wf(),
            final(self).fan() == (FanDaemonView { profile: Some(profile@), ..old(self).fan() }),
            final(self).profile_controller@ == old(self).profile_controller@,
    {
        self.fan_daemon.update_profile(profile);
    }

    /// Turns application monitoring on; returns whether its loop must be launched.
    pub fn start_app_monitoring(&mut self) -> (spawn_loop: bool)
        requires
            old(self).wf(),
        ensures
            final(self).wf(),
            spawn_loop == !old(self).profile_controller@.monitoring,
            final(self).profile_controller@ == (ProfileControllerView {
                monitoring: true,
                ..old(self).profile_controller@
            }),
            final(self).fan() == old(self).fan(),
    {
        self.profile_controller.start_app_monitoring()
    }

    pub fn stop_app_monitoring(&mut self)
        requires
            old(self).wf(),
        ensures
            final(self).wf(),
            final(self).profile_controller@ == (ProfileControllerView {
                monitoring: false,
                ..old(self).profile_controller@
            }),
            final(self).fan() == old(self).fan(),
    {
        self.profile_controller.stop_app_monitoring();
    }

    pub fn is_fan_daemon_running(&self) -> (r: bool)
        ensures
            r == self.fan().running,
    {
        self.fan_daemon.is_running()
    }

    pub fn is_app_monitoring_running(&self) -> (r: bool)
        ensures
            r == self.profile_controller@.monitoring,
    {
        self.profile_controller.is_app_monitoring()
    }

    /// Applies the profile at `index`, hands it to the fan daemon, and turns
    /// application monitoring on or off as the profile auto-switches or not.
    pub fn apply_profile(&mut self, index: usize) -> (r: Result<
        (ProfileApplication, LoopLaunches),
        ProfileError,
    >)
        requires
            old(self).wf(),
        ensures
            final(self).wf(),
            ({
                let c = old(self).profile_controller@;
                let p = c.store.profiles[index as int];
                &&& r is Err <==> index >= c.store.profiles.len()
                &&& r is Err ==> r->Err_0 == ProfileError::IndexOutOfBounds
                    && final(self).profile_controller@ == c && final(self).fan() == old(self).fan()
                &&& r is Ok ==> {
                    &&& application_matches(r->Ok_0.0, c.keyboard, p)
                    &&& final(self).fan() == (FanDaemonView { profile: Some(p), ..old(self).fan() })
                    &&& final(self).profile_controller@ == (ProfileControllerView {
                        store: set_active_spec(c.store, index as int).1,
                        monitoring: p.auto_switch_enabled,
                        ..c
                    })
                    &&& r->Ok_0.1 == (LoopLaunches {
                        fan_loop: false,
                        monitor_loop: p.auto_switch_enabled && !c.monitoring,
                    })
                }
            }),
    {
        let application = match self.profile_controller.apply_profile(index) {
            Ok(a) => a,
            Err(e) => {
                return Err(e);
            },
        };
        let profile = self.profile_controller.get_active_profile();
        let auto = profile.auto_switch_enabled;
        self.update_fan_daemon_profile(profile);
        let mut monitor_loop = false;
        if auto {
            if !self.is_app_monitoring_running() {
                monitor_loop = self.start_app_monitoring();
            }
        } else {
            if self.is_app_monitoring_running() {
                self.stop_app_monitoring();
            }
        }
        Ok((application, LoopLaunches { fan_loop: false, monitor_loop }))
    }

    /// Which daemons run, and the active profile's name.
    pub fn get_status(&self) -> (r: DaemonStatus)
        requires
            self.wf(),
        ensures
            r.fan_daemon_running == self.fan().running,
            r.app_monitoring_running == self.profile_controller@.monitoring,
            r.active_profile@ == self.profile_controller@.store.profiles[self.profile_controller@.store.active].name,
    {
        let profile = self.profile_controller.get_active_profile();
        DaemonStatus {
            fan_daemon_running: self.is_fan_daemon_running(),
            app_monitoring_running: self.is_app_monitoring_running(),
            active_profile: profile.name,
        }
    }
}

} // verus!
