use tailor_gui::monitor::{
    active_gpu_from_query, calculate_cpu_load, core_temperatures, gpu_fan_temperature, is_card_entry, classify_amd_gpu, gpu_vendor, khz_to_mhz, millidegrees_to_celsius,
    package_temperature, parse_cpu_stat_line, read_cpu_stats, CpuStats, GpuType, GpuVendor,
    HardwareMonitor, HwmonSensor, TempInput,
};
use tailor_gui::text::{contains_text, parse_number_fields, text_equals, trailing_number};

fn stats(busy: u64, idle: u64) -> CpuStats {
    CpuStats { user: busy, nice: 0, system: 0, idle, iowait: 0, irq: 0, softirq: 0 }
}

#[test]
fn test_hardware_monitor_creation() {
    let _monitor = HardwareMonitor::new();
}

#[test]
fn load_is_zero_without_elapsed_jiffies() {
    let s = stats(100, 200);
    assert_eq!(calculate_cpu_load(&s, &s), 0);
}

#[test]
fn load_is_zero_when_all_idle() {
    assert_eq!(calculate_cpu_load(&stats(100, 200), &stats(100, 300)), 0);
}

#[test]
fn load_is_full_when_never_idle() {
    assert_eq!(calculate_cpu_load(&stats(100, 200), &stats(400, 200)), 100);
}

#[test]
fn load_rounds_to_nearest() {
    assert_eq!(calculate_cpu_load(&stats(0, 0), &stats(1, 2)), 33);
    assert_eq!(calculate_cpu_load(&stats(0, 0), &stats(2, 1)), 67);
    assert_eq!(calculate_cpu_load(&stats(0, 0), &stats(1, 1)), 50);
    // counters that went backwards count as no elapsed time
    assert_eq!(calculate_cpu_load(&stats(500, 500), &stats(1, 1)), 0);
}

#[test]
fn first_sample_gives_zero_loads() {
    let mut m = HardwareMonitor::new();
    assert_eq!(m.core_loads(vec![stats(10, 10), stats(5, 5)]), vec![0, 0]);
    assert_eq!(m.core_loads(vec![stats(20, 10), stats(5, 15), stats(1, 1)]), vec![100, 0, 0]);
}

#[test]
fn proc_stat_lines() {
    assert_eq!(
        parse_cpu_stat_line("cpu0 10 20 30 40 50 60 70 0 0 0"),
        Some(CpuStats { user: 10, nice: 20, system: 30, idle: 40, iowait: 50, irq: 60, softirq: 70 })
    );
    assert_eq!(parse_cpu_stat_line("cpu  1 2 3 4 5 6 7"), None);
    assert_eq!(parse_cpu_stat_line("cpu1 1 2 3"), None);
    assert_eq!(parse_cpu_stat_line("intr 1 2 3 4 5 6 7"), None);
    assert_eq!(
        parse_cpu_stat_line("cpu2 1 x 3 4 5 6 7"),
        Some(CpuStats { user: 1, nice: 0, system: 3, idle: 4, iowait: 5, irq: 6, softirq: 7 })
    );
    let lines = vec![
        "cpu  9 9 9 9 9 9 9".to_string(),
        "cpu0 1 1 1 1 1 1 1".to_string(),
        "cpu1 2 2 2 2 2 2 2".to_string(),
        "ctxt 5".to_string(),
    ];
    let all = read_cpu_stats(&lines);
    assert_eq!(all.len(), 2);
    assert_eq!(all[1].idle, 2);
}

#[test]
fn package_temperature_from_cpu_chip() {
    let sensors = vec![
        HwmonSensor {
            name: "acpitz".to_string(),
            temps: vec![TempInput { label: "Package id 0".to_string(), millidegrees: Some(1) }],
        },
        HwmonSensor {
            name: "coretemp".to_string(),
            temps: vec![
                TempInput { label: "Core 0".to_string(), millidegrees: Some(50_000) },
                TempInput { label: "PACKAGE id 0".to_string(), millidegrees: None },
                TempInput { label: "Package id 0".to_string(), millidegrees: Some(61_000) },
            ],
        },
        HwmonSensor {
            name: "k10temp".to_string(),
            temps: vec![TempInput { label: "Tdie".to_string(), millidegrees: Some(70_000) }],
        },
    ];
    assert_eq!(package_temperature(&sensors), Some(61_000));
    assert_eq!(package_temperature(&sensors[2..].iter().map(|s| HwmonSensor {
        name: s.name.clone(),
        temps: s.temps.iter().map(|t| TempInput { label: t.label.clone(), millidegrees: t.millidegrees }).collect(),
    }).collect()), Some(70_000));
    assert_eq!(package_temperature(&vec![]), None);
}

#[test]
fn unit_conversions() {
    assert_eq!(millidegrees_to_celsius(61_999), 61);
    assert_eq!(millidegrees_to_celsius(-1_500), -1);
    assert_eq!(khz_to_mhz(2_400_000), 2400);
    assert_eq!(khz_to_mhz(999), 0);
}

#[test]
fn gpu_identification() {
    assert_eq!(gpu_vendor("0x1002"), Some(GpuVendor::Amd));
    assert_eq!(gpu_vendor("0x8086"), Some(GpuVendor::Intel));
    assert_eq!(gpu_vendor("0x10de"), None);
    assert_eq!(classify_amd_gpu("AMD Radeon Graphics"), GpuType::Integrated);
    assert_eq!(classify_amd_gpu("RADEON RX 6800M"), GpuType::Discrete);
}

#[test]
fn text_helpers() {
    assert!(contains_text("hello world", "o w"));
    assert!(contains_text("abc", ""));
    assert!(!contains_text("abc", "abcd"));
    assert!(!contains_text("abc", "cb"));
    assert!(text_equals("fan1", "fan1"));
    assert!(!text_equals("fan1", "fan10"));
    assert_eq!(trailing_number("pwm3"), Some(3));
    assert_eq!(trailing_number("pwm"), None);
    assert_eq!(parse_number_fields(" 1  22\tx 18446744073709551616 "), vec![Some(1), Some(22), None, None]);
    assert_eq!(parse_number_fields(""), vec![]);
}

#[test]
fn active_gpu_from_prime_select() {
    assert_eq!(active_gpu_from_query("nvidia\n"), GpuType::Discrete);
    assert_eq!(active_gpu_from_query("intel\n"), GpuType::Integrated);
    assert_eq!(active_gpu_from_query("on-demand"), GpuType::Integrated);
}

#[test]
fn core_temperatures_from_core_labels() {
    let input = |label: &str, t: Option<i64>| TempInput { label: label.to_string(), millidegrees: t };
    let sensors = vec![
        HwmonSensor { name: "nvme".to_string(), temps: vec![input("Core 2", Some(99_000))] },
        HwmonSensor {
            name: "coretemp".to_string(),
            temps: vec![
                input("Package id 0", Some(50_000)),
                input("Core 0", Some(40_000)),
                input("Core 1", Some(45_000)),
                input("CORE 7", Some(47_000)),
                input("Core 0", Some(41_000)),
                input("Core 2", None),
            ],
        },
    ];
    assert_eq!(core_temperatures(&sensors, 3), vec![Some(41_000), Some(45_000), None]);
    assert_eq!(core_temperatures(&sensors, 0), vec![]);
}

#[test]
fn gpu_fan_follows_the_first_amd_card() {
    let amd = Some(GpuVendor::Amd);
    let intel = Some(GpuVendor::Intel);
    assert_eq!(gpu_fan_temperature(&vec![]), None);
    assert_eq!(gpu_fan_temperature(&vec![(intel, Some(30_000)), (amd, Some(55_000))]), Some(55_000));
    assert_eq!(gpu_fan_temperature(&vec![(amd, None), (amd, Some(60_000))]), None);
    assert_eq!(gpu_fan_temperature(&vec![(intel, Some(30_000)), (None, Some(1))]), None);
}

#[test]
fn drm_card_entries() {
    assert!(is_card_entry("card0"));
    assert!(!is_card_entry("card0-eDP-1"));
    assert!(!is_card_entry("renderD128"));
    assert!(!is_card_entry("car"));
}
