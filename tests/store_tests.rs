use tailor_gui::controller::ProfileBuilder;
use tailor_gui::profile::{CurveError, Profile, ProfileError};
use tailor_gui::store::ProfileManager;

fn named(name: &str) -> Profile {
    ProfileBuilder::new(name).build()
}

#[test]
fn new_store_holds_the_default_profile() {
    let m = ProfileManager::new();
    assert_eq!(m.get_profiles().len(), 1);
    assert!(m.get_profiles()[0].is_default);
    assert_eq!(m.get_active_index(), 0);
    assert_eq!(m.get_active_profile().name, "Default");
}

#[test]
fn loading_nothing_leaves_one_default_profile() {
    let mut m = ProfileManager::new();
    m.add_profile(named("Quiet")).unwrap();
    assert_eq!(m.load_profiles(Vec::new()), Ok(()));
    assert_eq!(m.get_profiles().len(), 1);
    assert_eq!(m.get_profiles()[0].name, "Default");
    assert!(m.get_profiles()[0].is_default);
}

#[test]
fn loading_replaces_the_profiles() {
    let mut m = ProfileManager::new();
    assert_eq!(m.load_profiles(vec![Profile::default_profile(), named("Gaming")]), Ok(()));
    assert_eq!(m.get_profiles().len(), 2);
    assert_eq!(m.get_profiles()[1].name, "Gaming");
}

#[test]
fn loading_an_invalid_profile_fails_and_keeps_the_store() {
    let mut m = ProfileManager::new();
    let mut bad = named("Bad");
    bad.fan_curves[0].curve.points.pop();
    assert_eq!(
        m.load_profiles(vec![Profile::default_profile(), bad]),
        Err(ProfileError::InvalidFanCurve(CurveError::WrongPointCount))
    );
    assert_eq!(m.get_profiles().len(), 1);
    assert_eq!(m.load_profiles(vec![named("A"), named("A")]), Err(ProfileError::DuplicateName));
    assert_eq!(m.get_profiles().len(), 1);
}

#[test]
fn adding_a_duplicate_name_fails() {
    let mut m = ProfileManager::new();
    assert_eq!(m.add_profile(named("Gaming")), Ok(()));
    assert_eq!(m.add_profile(named("Gaming")), Err(ProfileError::DuplicateName));
    assert_eq!(m.get_profiles().len(), 2);
}

#[test]
fn adding_an_invalid_profile_fails() {
    let mut m = ProfileManager::new();
    let mut p = named("Bright");
    p.screen_settings.brightness = 101;
    assert_eq!(m.add_profile(p), Err(ProfileError::ScreenBrightnessOutOfRange));
    assert_eq!(m.get_profiles().len(), 1);
}

#[test]
fn deleting_the_default_profile_fails() {
    let mut m = ProfileManager::new();
    assert_eq!(m.delete_profile(0), Err(ProfileError::CannotDeleteDefault));
    assert_eq!(m.delete_profile(5), Err(ProfileError::IndexOutOfBounds));
    assert_eq!(m.get_profiles().len(), 1);
}

#[test]
fn deleting_past_the_active_index_resets_it() {
    let mut m = ProfileManager::new();
    m.add_profile(named("A")).unwrap();
    m.add_profile(named("B")).unwrap();
    assert_eq!(m.set_active_profile(2), Ok(()));
    assert_eq!(m.delete_profile(2), Ok(()));
    assert_eq!(m.get_active_index(), 0);
    assert_eq!(m.get_profiles().len(), 2);
}

#[test]
fn deleting_before_the_active_index_keeps_it_in_range() {
    let mut m = ProfileManager::new();
    m.add_profile(named("A")).unwrap();
    m.add_profile(named("B")).unwrap();
    m.set_active_profile(1).unwrap();
    assert_eq!(m.delete_profile(2), Ok(()));
    assert_eq!(m.get_active_index(), 1);
}

#[test]
fn the_default_profile_is_never_deleted_so_the_store_never_empties() {
    let mut m = ProfileManager::new();
    m.add_profile(named("A")).unwrap();
    assert_eq!(m.delete_profile(1), Ok(()));
    assert_eq!(m.delete_profile(0), Err(ProfileError::CannotDeleteDefault));
    assert_eq!(m.get_profiles().len(), 1);
    assert!(m.get_profiles()[0].is_default);
}

#[test]
fn adding_a_second_default_fails() {
    let mut m = ProfileManager::new();
    let mut p = named("Other");
    p.is_default = true;
    assert_eq!(m.add_profile(p), Err(ProfileError::NotExactlyOneDefault));
    assert_eq!(m.get_profiles().len(), 1);
}

#[test]
fn update_cannot_move_or_remove_the_default_flag() {
    let mut m = ProfileManager::new();
    m.add_profile(named("A")).unwrap();
    // removing the flag from the sole default
    assert_eq!(m.update_profile(0, named("Default")), Err(ProfileError::NotExactlyOneDefault));
    // flagging a second profile
    let mut flagged = named("A");
    flagged.is_default = true;
    assert_eq!(m.update_profile(1, flagged), Err(ProfileError::NotExactlyOneDefault));
    // the default itself can be edited while it keeps its flag
    let mut renamed = Profile::default_profile();
    renamed.name = "Standard".to_string();
    assert_eq!(m.update_profile(0, renamed), Ok(()));
    assert!(m.get_profiles()[0].is_default);
    assert!(!m.get_profiles()[1].is_default);
}

#[test]
fn loading_needs_exactly_one_default() {
    let mut m = ProfileManager::new();
    assert_eq!(m.load_profiles(vec![named("A"), named("B")]), Err(ProfileError::NotExactlyOneDefault));
    let mut second = named("Second");
    second.is_default = true;
    assert_eq!(
        m.load_profiles(vec![Profile::default_profile(), second]),
        Err(ProfileError::NotExactlyOneDefault)
    );
    assert_eq!(m.get_profiles().len(), 1);
    assert_eq!(m.load_profiles(vec![named("A"), Profile::default_profile()]), Ok(()));
    assert_eq!(m.get_profiles().len(), 2);
}

#[test]
fn update_checks_bounds_validity_and_names() {
    let mut m = ProfileManager::new();
    m.add_profile(named("A")).unwrap();
    assert_eq!(m.update_profile(2, named("C")), Err(ProfileError::IndexOutOfBounds));
    assert_eq!(m.update_profile(1, named("Default")), Err(ProfileError::DuplicateName));
    let mut bad = named("C");
    bad.keyboard_backlight.brightness = 200;
    assert_eq!(m.update_profile(1, bad), Err(ProfileError::KeyboardBrightnessOutOfRange));
    assert_eq!(m.update_profile(1, named("A")), Ok(()));
    assert_eq!(m.update_profile(1, named("C")), Ok(()));
    assert_eq!(m.get_profiles()[1].name, "C");
}

#[test]
fn set_active_is_bounds_checked() {
    let mut m = ProfileManager::new();
    assert_eq!(m.set_active_profile(1), Err(ProfileError::IndexOutOfBounds));
    assert_eq!(m.set_active_profile(0), Ok(()));
}

#[test]
fn finding_a_profile_for_an_app() {
    let mut m = ProfileManager::new();
    m.add_profile(ProfileBuilder::new("Gaming").auto_switch_for_apps(vec!["STEAM".to_string()]).build())
        .unwrap();
    let mut off = ProfileBuilder::new("Off").auto_switch_for_apps(vec!["lutris".to_string()]).build();
    off.auto_switch_enabled = false;
    m.add_profile(off).unwrap();
    assert_eq!(m.find_profile_for_app("steam"), Some(1));
    assert_eq!(m.find_profile_for_app("Steam Runtime"), Some(1));
    assert_eq!(m.find_profile_for_app("lutris"), None);
    assert_eq!(m.find_profile_for_app("firefox"), None);
}
