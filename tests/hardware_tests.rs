use tailor_gui::fan_daemon::FanCommand;
use tailor_gui::hardware::{
    boost_plan, next_probe, percent_to_pwm, scale_percent, word_text, BacklightDevice,
    HardwareController, ProbeResult, ProbeStep, SysfsNode, SysfsValue, SysfsWord, SysfsWrite,
    WriteOutcome, WritePlan, fan_duty_plan, cpu_plans, backend_result, node_result,
};
use tailor_gui::keyboard::KeyboardController;
use tailor_gui::profile::{CpuPerformanceProfile, CpuSettings, Profile, RGBColor};

fn first_writes(plan: &WritePlan) -> Vec<SysfsWrite> {
    plan.backends.iter().map(|b| b.writes[0]).collect()
}

#[test]
fn test_hardware_controller_creation() {
    let _controller = HardwareController::new(None);
    let _with_keyboard = HardwareController::new(Some(KeyboardController::new(255, true)));
}

#[test]
fn test_profile_application() {
    let controller = HardwareController::new(None);
    let profile = Profile::default_profile();
    let application = controller.apply_profile(&profile);
    assert!(application.keyboard.is_empty());
    assert_eq!(application.fans.len(), 2);
    assert_eq!(application.screen.backends.len(), 3);
}

#[test]
fn profile_application_per_category() {
    let controller = HardwareController::new(Some(KeyboardController::new(100, true)));
    let profile = Profile::default_profile();
    let a = controller.apply_profile(&profile);
    assert_eq!(a.keyboard.len(), 2);
    assert_eq!(
        a.keyboard[0].backends[0].writes,
        vec![SysfsWrite {
            node: SysfsNode::KeyboardColor,
            value: SysfsValue::Color(RGBColor { r: 255, g: 255, b: 255 }),
        }]
    );
    assert_eq!(
        a.keyboard[1].backends[0].writes,
        vec![SysfsWrite { node: SysfsNode::KeyboardBrightness, value: SysfsValue::Number(50) }]
    );
    // the vendor interface gets the whole curve, hwmon the middle point's duty
    let fan2 = &a.fans[1];
    assert_eq!(fan2.backends[0].writes.len(), 16);
    assert_eq!(
        fan2.backends[0].writes[2],
        SysfsWrite { node: SysfsNode::TuxedoCurveTemp(2, 1), value: SysfsValue::Number(50) }
    );
    assert_eq!(
        fan2.backends[1].writes,
        vec![
            SysfsWrite { node: SysfsNode::HwmonPwmEnable(2), value: SysfsValue::Number(1) },
            SysfsWrite { node: SysfsNode::HwmonPwm(2), value: SysfsValue::Number(178) },
        ]
    );
    // governor, boost, smt: no frequency bounds in the default profile
    assert_eq!(a.cpu.len(), 3);
    assert_eq!(
        a.screen.backends[2].writes[0],
        SysfsWrite {
            node: SysfsNode::BacklightBrightness(BacklightDevice::AcpiVideo0),
            value: SysfsValue::ScaledPercent(70),
        }
    );
}

#[test]
fn keyboard_skipped_when_refused() {
    let controller = HardwareController::new(Some(KeyboardController::new(255, false)));
    let a = controller.apply_profile(&Profile::default_profile());
    assert!(a.keyboard.is_empty());
}

#[test]
fn cpu_plans_in_order() {
    let s = CpuSettings {
        performance_profile: CpuPerformanceProfile::PowerSave,
        min_freq_mhz: Some(800),
        max_freq_mhz: Some(3200),
        disable_boost: true,
        smt_enabled: false,
    };
    let plans = cpu_plans(&s);
    assert_eq!(plans.len(), 5);
    assert_eq!(
        first_writes(&plans[0]),
        vec![SysfsWrite { node: SysfsNode::CpuGovernor, value: SysfsValue::Word(SysfsWord::Powersave) }]
    );
    assert_eq!(
        first_writes(&plans[1]),
        vec![SysfsWrite { node: SysfsNode::CpuMinFreq, value: SysfsValue::Number(800_000) }]
    );
    assert_eq!(
        first_writes(&plans[2]),
        vec![SysfsWrite { node: SysfsNode::CpuMaxFreq, value: SysfsValue::Number(3_200_000) }]
    );
    assert_eq!(
        first_writes(&plans[4]),
        vec![SysfsWrite { node: SysfsNode::SmtControl, value: SysfsValue::Word(SysfsWord::Off) }]
    );
}

#[test]
fn boost_honours_intel_inverted_polarity() {
    assert_eq!(
        first_writes(&boost_plan(true)),
        vec![
            SysfsWrite { node: SysfsNode::IntelNoTurbo, value: SysfsValue::Number(0) },
            SysfsWrite { node: SysfsNode::AmdBoost, value: SysfsValue::Number(1) },
            SysfsWrite { node: SysfsNode::CoreBoost, value: SysfsValue::Number(1) },
        ]
    );
    assert_eq!(
        first_writes(&boost_plan(false)),
        vec![
            SysfsWrite { node: SysfsNode::IntelNoTurbo, value: SysfsValue::Number(1) },
            SysfsWrite { node: SysfsNode::AmdBoost, value: SysfsValue::Number(0) },
            SysfsWrite { node: SysfsNode::CoreBoost, value: SysfsValue::Number(0) },
        ]
    );
}

#[test]
fn fan_duty_tries_vendor_node_then_pwm() {
    let cmd = FanCommand { fan_id: "fan2".to_string(), fan_number: 2, duty: 50 };
    assert_eq!(
        first_writes(&fan_duty_plan(&cmd)),
        vec![
            SysfsWrite { node: SysfsNode::TuxedoFanSpeed(2), value: SysfsValue::Number(50) },
            SysfsWrite { node: SysfsNode::HwmonPwm(2), value: SysfsValue::Number(127) },
        ]
    );
}

#[test]
fn pwm_and_brightness_scaling() {
    assert_eq!(percent_to_pwm(0), 0);
    assert_eq!(percent_to_pwm(50), 127);
    assert_eq!(percent_to_pwm(100), 255);
    assert_eq!(scale_percent(70, 1000), 700);
    assert_eq!(scale_percent(50, 255), 128);
    assert_eq!(scale_percent(33, 10), 3);
    assert_eq!(scale_percent(100, 96000), 96000);
    assert_eq!(scale_percent(0, 96000), 0);
}

#[test]
fn words_as_written() {
    assert_eq!(word_text(SysfsWord::Powersave), "powersave");
    assert_eq!(word_text(SysfsWord::Schedutil), "schedutil");
    assert_eq!(word_text(SysfsWord::Performance), "performance");
    assert_eq!(word_text(SysfsWord::On), "on");
    assert_eq!(word_text(SysfsWord::Off), "off");
}

#[test]
fn probing_stops_at_first_accepted() {
    assert_eq!(next_probe(&vec![], 3), ProbeStep::Try(0));
    assert_eq!(next_probe(&vec![ProbeResult::Absent], 3), ProbeStep::Try(1));
    assert_eq!(
        next_probe(&vec![ProbeResult::Absent, ProbeResult::Accepted], 3),
        ProbeStep::Done(WriteOutcome::Applied(1))
    );
    assert_eq!(
        next_probe(&vec![ProbeResult::Failed, ProbeResult::Absent], 3),
        ProbeStep::Try(2)
    );
}

#[test]
fn probing_outcomes_when_nothing_accepts() {
    assert_eq!(
        next_probe(&vec![ProbeResult::Absent, ProbeResult::Absent], 2),
        ProbeStep::Done(WriteOutcome::NoBackend)
    );
    assert_eq!(
        next_probe(&vec![ProbeResult::Failed, ProbeResult::PermissionDenied], 2),
        ProbeStep::Done(WriteOutcome::PermissionDenied)
    );
    assert_eq!(
        next_probe(&vec![ProbeResult::Failed, ProbeResult::Absent], 2),
        ProbeStep::Done(WriteOutcome::Failed)
    );
    assert_eq!(next_probe(&vec![], 0), ProbeStep::Done(WriteOutcome::NoBackend));
}

#[test]
fn gpu_switch_argument() {
    let c = HardwareController::new(None);
    assert_eq!(c.switch_gpu(true), "nvidia");
    assert_eq!(c.switch_gpu(false), "intel");
    let plans = c.set_maximum_performance();
    assert_eq!(
        first_writes(&plans[0]),
        vec![SysfsWrite { node: SysfsNode::CpuGovernor, value: SysfsValue::Word(SysfsWord::Performance) }]
    );
    assert_eq!(plans[1].backends.len(), 3);
}

#[test]
fn node_result_is_best_effort_across_files() {
    assert_eq!(node_result(&vec![]), ProbeResult::Absent);
    assert_eq!(node_result(&vec![ProbeResult::Absent, ProbeResult::Absent]), ProbeResult::Absent);
    assert_eq!(node_result(&vec![ProbeResult::Failed, ProbeResult::Accepted, ProbeResult::PermissionDenied]), ProbeResult::Accepted);
    assert_eq!(node_result(&vec![ProbeResult::Failed, ProbeResult::PermissionDenied, ProbeResult::Absent]), ProbeResult::PermissionDenied);
    assert_eq!(node_result(&vec![ProbeResult::Absent, ProbeResult::Failed]), ProbeResult::Failed);
}

#[test]
fn backend_result_needs_every_present_write() {
    assert_eq!(backend_result(&vec![]), ProbeResult::Absent);
    assert_eq!(backend_result(&vec![ProbeResult::Absent, ProbeResult::Absent]), ProbeResult::Absent);
    assert_eq!(backend_result(&vec![ProbeResult::Accepted, ProbeResult::Absent, ProbeResult::Accepted]), ProbeResult::Accepted);
    assert_eq!(backend_result(&vec![ProbeResult::Accepted, ProbeResult::Failed]), ProbeResult::Failed);
    assert_eq!(backend_result(&vec![ProbeResult::Failed, ProbeResult::PermissionDenied, ProbeResult::Accepted]), ProbeResult::PermissionDenied);
}
