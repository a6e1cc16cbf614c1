use tailor_gui::controller::{detect_running_apps, is_pid_entry, ProfileBuilder, ProfileController};
use tailor_gui::daemon_manager::{DaemonManager, LoopLaunches};
use tailor_gui::hardware::HardwareController;
use tailor_gui::profile::{CpuPerformanceProfile, ProfileError};
use tailor_gui::store::ProfileManager;

fn controller() -> ProfileController {
    ProfileController::new(ProfileManager::new(), HardwareController::new(None))
}

#[test]
fn test_profile_builder() {
    let profile = ProfileBuilder::new("Test Gaming")
        .keyboard_color(255, 0, 0)
        .keyboard_brightness(100)
        .cpu_performance(CpuPerformanceProfile::Performance)
        .auto_switch_for_apps(vec!["steam".to_string()])
        .build();

    assert_eq!(profile.name, "Test Gaming");
    assert_eq!(profile.keyboard_backlight.color.r, 255);
    assert!(profile.auto_switch_enabled);
}

#[test]
fn builder_sets_each_field() {
    let p = ProfileBuilder::new("Quiet")
        .cpu_frequency_limits(Some(800), None)
        .disable_boost(true)
        .smt_enabled(false)
        .screen_brightness(30)
        .build();
    assert!(!p.is_default);
    assert_eq!(p.cpu_settings.min_freq_mhz, Some(800));
    assert_eq!(p.cpu_settings.max_freq_mhz, None);
    assert!(p.cpu_settings.disable_boost);
    assert!(!p.cpu_settings.smt_enabled);
    assert_eq!(p.screen_settings.brightness, 30);
    assert_eq!(p.cpu_settings.performance_profile, CpuPerformanceProfile::Balanced);
    assert!(p.validate().is_ok());
}

#[test]
fn detecting_running_apps() {
    let cmdlines = vec![
        "/usr/lib/systemd/systemd\0--user".to_string(),
        "/usr/bin/gamemoded".to_string(),
        "/home/u/.local/share/Steam/ubuntu12_32/STEAM\0-silent".to_string(),
    ];
    assert_eq!(detect_running_apps(&cmdlines), "gamemode");
    let steam_first = vec!["/usr/bin/Steam".to_string(), "lutris".to_string()];
    assert_eq!(detect_running_apps(&steam_first), "steam");
    assert_eq!(detect_running_apps(&vec!["bash".to_string()]), "");
    assert_eq!(detect_running_apps(&vec![]), "");
}

#[test]
fn pid_entries() {
    assert!(is_pid_entry("1234"));
    assert!(!is_pid_entry("self"));
    assert!(!is_pid_entry("12a"));
}

#[test]
fn gaming_profile_switches_on_steam() {
    let mut c = controller();
    let gaming = ProfileBuilder::new("Gaming").auto_switch_for_apps(vec!["steam".to_string()]).build();
    c.add_profile(gaming).unwrap();
    let signal = detect_running_apps(&vec![
        "/usr/bin/bash".to_string(),
        "/home/u/.steam/steam.sh\0-silent".to_string(),
    ]);
    assert_eq!(signal, "steam");
    let (index, application) = c.auto_switch(&signal).expect("a profile switches on");
    assert_eq!(index, 1);
    assert_eq!(c.get_active_profile().name, "Gaming");
    assert_eq!(application.fans.len(), 2);
    // the same signal again changes nothing
    assert!(c.auto_switch(&signal).is_none());
}

#[test]
fn first_of_overlapping_triggers_wins() {
    let mut c = controller();
    c.add_profile(ProfileBuilder::new("Launchers").auto_switch_for_apps(vec!["ste".to_string()]).build())
        .unwrap();
    c.add_profile(ProfileBuilder::new("Gaming").auto_switch_for_apps(vec!["steam".to_string()]).build())
        .unwrap();
    let (index, _) = c.auto_switch("steam").unwrap();
    assert_eq!(index, 1);
    assert_eq!(c.get_active_profile().name, "Launchers");
}

#[test]
fn no_matching_profile_means_no_switch() {
    let mut c = controller();
    assert!(c.auto_switch("lutris").is_none());
    assert_eq!(c.get_active_profile().name, "Default");
}

#[test]
fn applying_by_index_and_name() {
    let mut c = controller();
    c.add_profile(ProfileBuilder::new("Gaming").build()).unwrap();
    assert!(c.apply_profile(1).is_ok());
    assert_eq!(c.get_active_profile().name, "Gaming");
    assert_eq!(c.apply_profile(7).err(), Some(ProfileError::IndexOutOfBounds));
    assert!(c.apply_profile_by_name("Default").is_ok());
    assert_eq!(c.get_active_profile().name, "Default");
    assert_eq!(c.apply_profile_by_name("Nope").err(), Some(ProfileError::NotFound));
    assert_eq!(c.get_all_profiles().len(), 2);
    assert_eq!(c.update_profile(1, ProfileBuilder::new("Games").build()), Ok(()));
    assert_eq!(c.delete_profile(1), Ok(()));
    assert_eq!(c.get_all_profiles().len(), 1);
    assert_eq!(c.switch_gpu(true), "nvidia");
    assert_eq!(c.enable_maximum_performance().len(), 2);
}

#[test]
fn monitoring_flag() {
    let mut c = controller();
    assert!(c.start_app_monitoring());
    assert!(!c.start_app_monitoring());
    assert!(c.is_app_monitoring());
    c.stop_app_monitoring();
    assert!(!c.is_app_monitoring());
}

#[test]
fn daemon_manager_follows_the_applied_profile() {
    let mut c = controller();
    c.add_profile(ProfileBuilder::new("Gaming").auto_switch_for_apps(vec!["steam".to_string()]).build())
        .unwrap();
    let mut d = DaemonManager::new(c);
    assert_eq!(d.start_all(), LoopLaunches { fan_loop: true, monitor_loop: false });
    assert!(d.is_fan_daemon_running());
    assert!(!d.is_app_monitoring_running());
    let (_, launches) = d.apply_profile(1).unwrap();
    assert_eq!(launches, LoopLaunches { fan_loop: false, monitor_loop: true });
    assert!(d.is_app_monitoring_running());
    let status = d.get_status();
    assert!(status.fan_daemon_running);
    assert!(status.app_monitoring_running);
    assert_eq!(status.active_profile, "Gaming");
    let (_, launches) = d.apply_profile(0).unwrap();
    assert_eq!(launches, LoopLaunches { fan_loop: false, monitor_loop: false });
    assert!(!d.is_app_monitoring_running());
    assert_eq!(d.apply_profile(9).err(), Some(ProfileError::IndexOutOfBounds));
    d.stop_all();
    assert!(!d.is_fan_daemon_running());
    d.stop_fan_daemon();
    assert!(!d.is_fan_daemon_running());
}
