use tailor_gui::profile::{
    CurveError, FanCurve, FanCurveEntry, FanCurvePoint, Profile, ProfileError,
};

fn curve(points: &[(u8, u8)]) -> FanCurve {
    FanCurve {
        points: points.iter().map(|&(temp, speed)| FanCurvePoint { temp, speed }).collect(),
    }
}

fn reference_curve() -> FanCurve {
    curve(&[(40, 30), (50, 40), (60, 50), (65, 60), (70, 70), (75, 80), (80, 90), (85, 100)])
}

#[test]
fn test_fan_curve_validation() {
    let mut curve = FanCurve {
        points: vec![
            FanCurvePoint { temp: 40, speed: 30 },
            FanCurvePoint { temp: 50, speed: 40 },
            FanCurvePoint { temp: 60, speed: 50 },
            FanCurvePoint { temp: 65, speed: 60 },
            FanCurvePoint { temp: 70, speed: 70 },
            FanCurvePoint { temp: 75, speed: 80 },
            FanCurvePoint { temp: 80, speed: 90 },
            FanCurvePoint { temp: 85, speed: 100 },
        ],
    };

    assert!(curve.validate().is_ok());

    curve.points.pop();
    assert!(curve.validate().is_err());
}

#[test]
fn test_profile_validation() {
    let profile = Profile::default_profile();
    assert!(profile.validate().is_ok());
}

#[test]
fn curve_with_seven_points_fails() {
    let mut c = reference_curve();
    c.points.pop();
    assert_eq!(c.validate(), Err(CurveError::WrongPointCount));
}

#[test]
fn curve_with_nine_points_fails() {
    let mut c = reference_curve();
    c.points.push(FanCurvePoint { temp: 90, speed: 100 });
    assert_eq!(c.validate(), Err(CurveError::WrongPointCount));
}

#[test]
fn curve_with_repeated_temperature_fails() {
    let c = curve(&[(40, 30), (50, 40), (50, 50), (65, 60), (70, 70), (75, 80), (80, 90), (85, 100)]);
    assert_eq!(c.validate(), Err(CurveError::NotAscending));
}

#[test]
fn curve_with_descending_temperature_fails() {
    let c = curve(&[(40, 30), (50, 40), (60, 50), (65, 60), (70, 70), (75, 80), (85, 90), (80, 100)]);
    assert_eq!(c.validate(), Err(CurveError::NotAscending));
}

#[test]
fn curve_with_duty_over_100_fails() {
    let c = curve(&[(40, 30), (50, 40), (60, 50), (65, 60), (70, 70), (75, 80), (80, 90), (85, 101)]);
    assert_eq!(c.validate(), Err(CurveError::SpeedOutOfRange));
}

#[test]
fn well_formed_curve_passes() {
    assert_eq!(reference_curve().validate(), Ok(()));
}

#[test]
fn default_profile_contents() {
    let p = Profile::default_profile();
    assert_eq!(p.name, "Default");
    assert!(p.is_default);
    assert_eq!(p.keyboard_backlight.brightness, 50);
    assert_eq!(p.screen_settings.brightness, 70);
    assert_eq!(p.fan_curves.len(), 2);
    assert_eq!(p.fan_curves[0].fan_id, "fan1");
    assert_eq!(p.fan_curves[1].fan_id, "fan2");
    assert_eq!(p.fan_curves[0].curve.points.len(), 8);
    assert!(!p.auto_switch_enabled);
    assert!(p.trigger_apps.is_empty());
}

#[test]
fn profile_with_bad_curve_reports_curve_error() {
    let mut p = Profile::default_profile();
    p.fan_curves[1].curve.points.pop();
    assert_eq!(p.validate(), Err(ProfileError::InvalidFanCurve(CurveError::WrongPointCount)));
}

#[test]
fn profile_with_duplicate_fan_id_fails() {
    let mut p = Profile::default_profile();
    p.fan_curves.push(FanCurveEntry { fan_id: "fan1".to_string(), curve: reference_curve() });
    assert_eq!(p.validate(), Err(ProfileError::DuplicateFanId));
}

#[test]
fn profile_with_keyboard_brightness_over_100_fails() {
    let mut p = Profile::default_profile();
    p.keyboard_backlight.brightness = 101;
    assert_eq!(p.validate(), Err(ProfileError::KeyboardBrightnessOutOfRange));
}

#[test]
fn profile_with_screen_brightness_over_100_fails() {
    let mut p = Profile::default_profile();
    p.screen_settings.brightness = 150;
    assert_eq!(p.validate(), Err(ProfileError::ScreenBrightnessOutOfRange));
}

#[test]
fn profile_clone_keeps_every_field() {
    let mut p = Profile::default_profile();
    p.trigger_apps = vec!["steam".to_string(), "lutris".to_string()];
    p.cpu_settings.min_freq_mhz = Some(800);
    let q = p.clone();
    assert_eq!(q.name, p.name);
    assert_eq!(q.trigger_apps, p.trigger_apps);
    assert_eq!(q.cpu_settings, p.cpu_settings);
    assert_eq!(q.fan_curves.len(), p.fan_curves.len());
    assert_eq!(q.fan_curves[1].curve.points, p.fan_curves[1].curve.points);
}
