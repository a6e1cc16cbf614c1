//! Sensor readings: CPU load from jiffy counters, `/proc/stat` lines, and
//! the CPU package temperature among hwmon sensors.

use vstd::prelude::*;
use vstd::string::StrSliceExecFns;
use crate::text::{
    lower_of, lowercase, contains_text, seq_contains, parse_number_fields, fields,
    parse_decimal_spec,
};

verus! {

#[derive(Debug, Clone, Copy, PartialEq, Eq, Structural)]
pub enum GpuType {
    Integrated,
    Discrete,
}

/// A fan as hwmon reports it.
#[derive(Debug, Clone, PartialEq, Eq)]
pub struct FanInfo {
    pub fan_id: String,
    pub name: String,
    pub speed_rpm: Option<u32>,
    pub speed_percent: Option<u8>,
}

/// Cumulative jiffy counters of one core, as `/proc/stat` lists them.
#[derive(Debug, Clone, Copy, PartialEq, Eq, Structural)]
pub struct CpuStats {
    pub user: u64,
    pub nice: u64,
    pub system: u64,
    pub idle: u64,
    pub iowait: u64,
    pub irq: u64,
    pub softirq: u64,
}

pub open spec fn jiffies_idle(s: CpuStats) -> int {
    s.idle + s.iowait
}

pub open spec fn jiffies_total(s: CpuStats) -> int {
    s.user + s.nice + s.system + s.idle + s.iowait + s.irq + s.softirq
}

/// `a - b`, or 0 when `b` is larger (a counter that went backwards).
pub open spec fn delta(a: int, b: int) -> int {
    if a >= b {
        a - b
    } else {
        0
    }
}

/// Load between two samples in percent: `1 - idle/total` over the deltas,
/// rounded to the nearest integer (halves up) and clamped to 0..=100; 0 when
/// the total did not move.
pub open spec fn cpu_load_spec(prev: CpuStats, curr: CpuStats) -> int {
    let t = delta(jiffies_total(curr), jiffies_total(prev));
    let i = delta(jiffies_idle(curr), jiffies_idle(prev));
    if t == 0 || i >= t {
        0
    } else {
        (200 * (t - i) + t) / (2 * t)
    }
}

/// The load of one core between two samples, in percent.
pub fn calculate_cpu_load(prev: &CpuStats, curr: &CpuStats) -> (r: u8)
    ensures
        r == cpu_load_spec(*prev, *curr),
        r <= 100,
{
    let prev_idle = prev.idle as u128 + prev.iowait as u128;
    let curr_idle = curr.idle as u128 + curr.iowait as u128;
    let prev_total = prev.user as u128 + prev.nice as u128 + prev.system as u128 + prev_idle
        + prev.irq as u128 + prev.softirq as u128;
    let curr_total = curr.user as u128 + curr.nice as u128 + curr.system as u128 + curr_idle
        + curr.irq as u128 + curr.softirq as u128;
    let t: u128 = if curr_total >= prev_total {
        curr_total - prev_total
    } else {
        0
    };
    let i: u128 = if curr_idle >= prev_idle {
        curr_idle - prev_idle
    } else {
        0
    };
    if t == 0 || i >= t {
        return 0;
    }
    proof {
        assert((200 * (t - i) + t) / (2 * t) <= 100) by (nonlinear_arith)
            requires
                0 < t,
                i < t,
        ;
    }
    ((200 * (t - i) + t) / (2 * t)) as u8
}

/// With no jiffies elapsed the load is 0 (no division by zero).
pub proof fn lemma_load_zero_when_stalled(prev: CpuStats, curr: CpuStats)
    requires
        jiffies_total(curr) == jiffies_total(prev),
    ensures
        cpu_load_spec(prev, curr) == 0,
{
}

/// When every elapsed jiffy was idle the load is 0.
pub proof fn lemma_load_zero_when_idle(prev: CpuStats, curr: CpuStats)
    requires
        delta(jiffies_idle(curr), jiffies_idle(prev)) == delta(
            jiffies_total(curr),
            jiffies_total(prev),
        ),
    ensures
        cpu_load_spec(prev, curr) == 0,
{
}

/// When jiffies elapsed and none was idle the load is 100.
pub proof fn lemma_load_full_when_busy(prev: CpuStats, curr: CpuStats)
    requires
        delta(jiffies_idle(curr), jiffies_idle(prev)) == 0,
        delta(jiffies_total(curr), jiffies_total(prev)) > 0,
    ensures
        cpu_load_spec(prev, curr) == 100,
{
    let t = delta(jiffies_total(curr), jiffies_total(prev));
    assert((200 * t + t) / (2 * t) == 100) by (nonlinear_arith)
        requires
            t > 0,
    ;
}

/// A per-core `/proc/stat` line: "cpu" followed by something other than a space.
pub open spec fn is_core_line(line: Seq<char>) -> bool {
    line.len() >= 4 && line[0] == 'c' && line[1] == 'p' && line[2] == 'u' && line[3] != ' '
}

pub open spec fn field_or_zero(f: Seq<Seq<char>>, k: int) -> u64 {
    match parse_decimal_spec(f[k]) {
        Some(v) => v,
        None => 0,
    }
}

/// The counters of a per-core line with at least eight fields; a counter
/// that does not read as a number counts as 0.
pub open spec fn core_stats_spec(line: Seq<char>) -> Option<CpuStats> {
    let f = fields(line);
    if is_core_line(line) && f.len() >= 8 {
        Some(
            CpuStats {
                user: field_or_zero(f, 1),
                nice: field_or_zero(f, 2),
                system: field_or_zero(f, 3),
                idle: field_or_zero(f, 4),
                iowait: field_or_zero(f, 5),
                irq: field_or_zero(f, 6),
                softirq: field_or_zero(f, 7),
            },
        )
    } else {
        None
    }
}

fn or_zero(v: Option<u64>) -> (r: u64)
    ensures
        r == match v {
            Some(x) => x,
            None => 0,
        },
{
    match v {
        Some(x) => x,
        None => 0,
    }
}

/// The counters of one `/proc/stat` line, if it is a per-core line.
pub fn parse_cpu_stat_line(line: &str) -> (r: Option<CpuStats>)
    ensures
        r == core_stats_spec(line@),
{
    let n = line.unicode_len();
    if n < 4 || line.get_char(0) != 'c' || line.get_char(1) != 'p' || line.get_char(2) != 'u'
        || line.get_char(3) == ' ' {
        return None;
    }
    let v = parse_number_fields(line);
    if v.len() < 8 {
        return None;
    }
    Some(
        CpuStats {
            user: or_zero(v[1]),
            nice: or_zero(v[2]),
            system: or_zero(v[3]),
            idle: or_zero(v[4]),
            iowait: or_zero(v[5]),
            irq: or_zero(v[6]),
            softirq: or_zero(v[7]),
        },
    )
}

/// The counters of the per-core lines among `lines`, in order.
pub open spec fn core_stats_of(lines: Seq<Seq<char>>) -> Seq<CpuStats>
    decreases lines.len(),
{
    if lines.len() == 0 {
        seq![]
    } else {
        core_stats_of(lines.drop_last()) + match core_stats_spec(lines.last()) {
            Some(s) => seq![s],
            None => seq![],
        }
    }
}

/// The counters of every per-core line of `/proc/stat`, in order.
pub fn read_cpu_stats(lines: &Vec<String>) -> (r: Vec<CpuStats>)
    ensures
        r@ == core_stats_of(lines@.map_values(|l: String| l@)),
{
    let ghost v = lines@.map_values(|l: String| l@);
    let mut out: Vec<CpuStats> = Vec::new();
    let mut j: usize = 0;
    while j < lines.len()
        invariant
            v == lines@.map_values(|l: String| l@),
            j <= lines@.len(),
            out@ == core_stats_of(v.take(j as int)),
        decreases lines@.len() - j,
    {
        assert(v.take(j as int + 1).drop_last() =~= v.take(j as int));
        assert(v.take(j as int + 1).last() == lines@[j as int]@);
        match parse_cpu_stat_line(lines[j].as_str()) {
            Some(s) => {
                out.push(s);
                assert(out@ =~= core_stats_of(v.take(j as int + 1)));
            },
            None => {
                assert(out@ =~= core_stats_of(v.take(j as int + 1)));
            },
        }
        j = j + 1;
    }
    assert(v.take(j as int) =~= v);
    out
}

/// One `temp{N}` input of an hwmon chip: its label and its reading in millidegrees.
#[derive(Debug)]
pub struct TempInput {
    pub label: String,
    pub millidegrees: Option<i64>,
}

/// An hwmon chip: its `name` and its temperature inputs in index order.
#[derive(Debug)]
pub struct HwmonSensor {
    pub name: String,
    pub temps: Vec<TempInput>,
}

impl View for TempInput {
    type V = (Seq<char>, Option<i64>);

    open spec fn view(&self) -> (Seq<char>, Option<i64>) {
        (self.label@, self.millidegrees)
    }
}

impl View for HwmonSensor {
    type V = (Seq<char>, Seq<(Seq<char>, Option<i64>)>);

    open spec fn view(&self) -> (Seq<char>, Seq<(Seq<char>, Option<i64>)>) {
        (self.name@, self.temps@.map_values(|t: TempInput| t@))
    }
}

/// A CPU temperature chip: coretemp, k10temp or zenpower.
pub open spec fn is_cpu_chip(name: Seq<char>) -> bool {
    seq_contains(name, "coretemp"@) || seq_contains(name, "k10temp"@) || seq_contains(
        name,
        "zenpower"@,
    )
}

/// A package (or AMD die) temperature label, case-insensitively.
pub open spec fn is_package_label(label: Seq<char>) -> bool {
    seq_contains(lower_of(label), "package"@) || seq_contains(lower_of(label), "tdie"@)
}

/// The first reading at position `j` or later under a package label.
pub open spec fn package_input_from(temps: Seq<(Seq<char>, Option<i64>)>, j: int) -> Option<i64>
    decreases temps.len() - j,
{
    if j < 0 || j >= temps.len() {
        None
    } else if is_package_label(temps[j].0) && temps[j].1 is Some {
        temps[j].1
    } else {
        package_input_from(temps, j + 1)
    }
}

/// The package temperature from the first CPU chip, at position `i` or later, that has one.
pub open spec fn package_temperature_from(
    sensors: Seq<(Seq<char>, Seq<(Seq<char>, Option<i64>)>)>,
    i: int,
) -> Option<i64>
    decreases sensors.len() - i,
{
    if i < 0 || i >= sensors.len() {
        None
    } else if is_cpu_chip(sensors[i].0) && package_input_from(sensors[i].1, 0) is Some {
        package_input_from(sensors[i].1, 0)
    } else {
        package_temperature_from(sensors, i + 1)
    }
}

pub open spec fn sensors_view(sensors: Seq<HwmonSensor>) -> Seq<
    (Seq<char>, Seq<(Seq<char>, Option<i64>)>),
> {
    sensors.map_values(|s: HwmonSensor| s@)
}

fn package_input(temps: &Vec<TempInput>) -> (r: Option<i64>)
    ensures
        r == package_input_from(temps@.map_values(|t: TempInput| t@), 0),
{
    let ghost v = temps@.map_values(|t: TempInput| t@);
    let mut j: usize = 0;
    while j < temps.len()
        invariant
            v == temps@.map_values(|t: TempInput| t@),
            j <= temps@.len(),
            package_input_from(v, 0) == package_input_from(v, j as int),
        decreases temps@.len() - j,
    {
        assert(v[j as int] == temps@[j as int]@);
        let label = lowercase(temps[j].label.as_str());
        let package = contains_text(label.as_str(), "package") || contains_text(label.as_str(), "tdie");
        if package && temps[j].millidegrees.is_some() {
            return temps[j].millidegrees;
        }
        j = j + 1;
    }
    None
}

/// The CPU package temperature, in millidegrees: from the first CPU chip
/// (coretemp, k10temp, zenpower) that has a reading under a "package" or
/// "tdie" label.
pub fn package_temperature(sensors: &Vec<HwmonSensor>) -> (r: Option<i64>)
    ensures
        r == package_temperature_from(sensors_view(sensors@), 0),
{
    let ghost v = sensors_view(sensors@);
    let mut i: usize = 0;
    while i < sensors.len()
        invariant
            v == sensors_view(sensors@),
            i <= sensors@.len(),
            package_temperature_from(v, 0) == package_temperature_from(v, i as int),
        decreases sensors@.len() - i,
    {
        assert(v[i as int] == sensors@[i as int]@);
        let name = sensors[i].name.as_str();
        if contains_text(name, "coretemp") || contains_text(name, "k10temp") || contains_text(
            name,
            "zenpower",
        ) {
            let t = package_input(&sensors[i].temps);
            if t.is_some() {
                return t;
            }
        }
        i = i + 1;
    }
    None
}

/// The first entry of `vals`, from position `i` on, that holds a number.
pub open spec fn first_number_from(vals: Seq<Option<u64>>, i: int) -> Option<u64>
    decreases vals.len() - i,
{
    if i < 0 || i >= vals.len() {
        None
    } else if vals[i] is Some {
        vals[i]
    } else {
        first_number_from(vals, i + 1)
    }
}

/// The core a temperature label names: a label mentioning "core" (any
/// case) names the core of its first numeric field ("Core 3" names 3).
pub open spec fn label_core(label: Seq<char>) -> Option<u64> {
    let l = lower_of(label);
    if seq_contains(l, "core"@) {
        first_number_from(fields(l).map_values(|f: Seq<char>| parse_decimal_spec(f)), 0)
    } else {
        None
    }
}

/// The last reading among the first `j` inputs of a chip that belongs to core `k`.
pub open spec fn core_reading_in(temps: Seq<(Seq<char>, Option<i64>)>, k: int, j: int) -> Option<i64>
    decreases j,
{
    if j <= 0 || j > temps.len() {
        None
    } else if temps[j - 1].1 is Some && label_core(temps[j - 1].0) == Some(k as u64) && 0 <= k {
        temps[j - 1].1
    } else {
        core_reading_in(temps, k, j - 1)
    }
}

/// The temperature of core `k` from the first `i` chips: the last reading for
/// it, chips and inputs taken in order, among the CPU chips.
pub open spec fn core_reading(
    sensors: Seq<(Seq<char>, Seq<(Seq<char>, Option<i64>)>)>,
    k: int,
    i: int,
) -> Option<i64>
    decreases i,
{
    if i <= 0 || i > sensors.len() {
        None
    } else if is_cpu_chip(sensors[i - 1].0) && core_reading_in(
        sensors[i - 1].1,
        k,
        sensors[i - 1].1.len() as int,
    ) is Some {
        core_reading_in(sensors[i - 1].1, k, sensors[i - 1].1.len() as int)
    } else {
        core_reading(sensors, k, i - 1)
    }
}

fn label_core_of(label: &str) -> (r: Option<u64>)
    ensures
        r == label_core(label@),
{
    let lower = lowercase(label);
    if !contains_text(lower.as_str(), "core") {
        return None;
    }
    let vals = parse_number_fields(lower.as_str());
    let ghost v = vals@;
    let mut i: usize = 0;
    while i < vals.len()
        invariant
            v == vals@,
            v == fields(lower_of(label@)).map_values(|f: Seq<char>| parse_decimal_spec(f)),
            seq_contains(lower_of(label@), "core"@),
            i <= vals@.len(),
            first_number_from(v, 0) == first_number_from(v, i as int),
        decreases vals@.len() - i,
    {
        if vals[i].is_some() {
            return vals[i];
        }
        i = i + 1;
    }
    None
}

/// The temperature (millidegrees) of each of the first `core_count` cores,
/// from the CPU chips' "Core N" inputs; a later reading for a core replaces
/// an earlier one.
pub fn core_temperatures(sensors: &Vec<HwmonSensor>, core_count: usize) -> (r: Vec<Option<i64>>)
    ensures
        r@.len() == core_count,
        forall|k: int|
            0 <= k < core_count ==> #[trigger] r@[k] == core_reading(
                sensors_view(sensors@),
                k,
                sensors@.len() as int,
            ),
{
    let ghost v = sensors_view(sensors@);
    let mut res: Vec<Option<i64>> = Vec::new();
    let mut c: usize = 0;
    while c < core_count
        invariant
            c <= core_count,
            res@.len() == c,
            forall|k: int| 0 <= k < c ==> #[trigger] res@[k] is None,
        decreases core_count - c,
    {
        res.push(None);
        c = c + 1;
    }
    let mut i: usize = 0;
    while i < sensors.len()
        invariant
            v == sensors_view(sensors@),
            i <= sensors@.len(),
            res@.len() == core_count,
            forall|k: int| 0 <= k < core_count ==> #[trigger] res@[k] == core_reading(v, k, i as int),
        decreases sensors@.len() - i,
    {
        assert(v[i as int] == sensors@[i as int]@);
        let name = sensors[i].name.as_str();
        let cpu_chip = contains_text(name, "coretemp") || contains_text(name, "k10temp")
            || contains_text(name, "zenpower");
        let temps = &sensors[i].temps;
        let ghost tv = v[i as int].1;
        let ghost before = res@;
        if cpu_chip {
            let mut j: usize = 0;
            while j < temps.len()
                invariant
                    v == sensors_view(sensors@),
                    i < sensors@.len(),
                    tv == v[i as int].1,
                    tv == temps@.map_values(|t: TempInput| t@),
                    j <= temps@.len(),
                    res@.len() == core_count,
                    forall|k: int|
                        0 <= k < core_count ==> #[trigger] res@[k] == (if core_reading_in(
                            tv,
                            k,
                            j as int,
                        ) is Some {
                            core_reading_in(tv, k, j as int)
                        } else {
                            before[k]
                        }),
                decreases temps@.len() - j,
            {
                assert(tv[j as int] == temps@[j as int]@);
                match temps[j].millidegrees {
                    Some(t) => {
                        match label_core_of(temps[j].label.as_str()) {
                            Some(n) => {
                                if n < core_count as u64 {
                                    res.set(n as usize, Some(t));
                                }
                            },
                            None => {},
                        }
                    },
                    None => {},
                }
                j = j + 1;
            }
            assert(tv.len() == temps@.len());
        } else {
            assert forall|k: int| 0 <= k < core_count implies #[trigger] res@[k] == core_reading(
                v,
                k,
                i + 1,
            ) by {}
        }
        i = i + 1;
    }
    res
}

/// Whole degrees of a millidegree reading, rounded toward zero.
pub fn millidegrees_to_celsius(m: i64) -> (r: i64)
    ensures
        m >= 0 ==> r == m / 1000,
        m < 0 ==> r == -((-m) / 1000),
{
    if m >= 0 {
        m / 1000
    } else if m == i64::MIN {
        -(i64::MAX / 1000)
    } else {
        -((-m) / 1000)
    }
}

/// A `scaling_cur_freq` value (kHz) in MHz, rounded down.
pub fn khz_to_mhz(khz: u64) -> (r: u64)
    ensures
        r == khz / 1000,
{
    khz / 1000
}

/// The GPU vendor a PCI `vendor` value names.
#[derive(Debug, Clone, Copy, PartialEq, Eq, Structural)]
pub enum GpuVendor {
    Amd,
    Intel,
}

pub fn gpu_vendor(vendor: &str) -> (r: Option<GpuVendor>)
    ensures
        vendor@ == "0x1002"@ ==> r == Some(GpuVendor::Amd),
        vendor@ == "0x8086"@ ==> r == Some(GpuVendor::Intel),
        vendor@ != "0x1002"@ && vendor@ != "0x8086"@ ==> r is None,
{
    proof {
        reveal_strlit("0x1002");
        reveal_strlit("0x8086");
        assert("0x1002"@[2] != "0x8086"@[2]);
    }
    if crate::text::text_equals(vendor, "0x1002") {
        Some(GpuVendor::Amd)
    } else if crate::text::text_equals(vendor, "0x8086") {
        Some(GpuVendor::Intel)
    } else {
        None
    }
}

/// The reading of the first AMD card at position `i` or later.
pub open spec fn first_amd_reading(cards: Seq<(Option<GpuVendor>, Option<i64>)>, i: int) -> Option<
    i64,
>
    decreases cards.len() - i,
{
    if i < 0 || i >= cards.len() {
        None
    } else if cards[i].0 == Some(GpuVendor::Amd) {
        cards[i].1
    } else {
        first_amd_reading(cards, i + 1)
    }
}

/// The GPU temperature that drives a GPU fan, from the DRM cards in order,
/// each with its vendor and the reading of its first hwmon temperature input.
/// The GPUs are listed AMD cards first, then Intel cards, which report no
/// temperature; the first GPU's temperature is used. So: the reading of the
/// first AMD card, or none when there is no AMD card.
pub fn gpu_fan_temperature(cards: &Vec<(Option<GpuVendor>, Option<i64>)>) -> (r: Option<i64>)
    ensures
        r == first_amd_reading(cards@, 0),
{
    let mut i: usize = 0;
    while i < cards.len()
        invariant
            i <= cards@.len(),
            first_amd_reading(cards@, 0) == first_amd_reading(cards@, i as int),
        decreases cards@.len() - i,
    {
        let (vendor, reading) = cards[i];
        match vendor {
            Some(GpuVendor::Amd) => {
                return reading;
            },
            _ => {},
        }
        i = i + 1;
    }
    None
}

/// A DRM entry that is a card itself: its name starts with "card" and holds
/// no '-' (those are the card's connectors).
pub fn is_card_entry(name: &str) -> (r: bool)
    ensures
        r == (name@.len() >= 4 && name@[0] == 'c' && name@[1] == 'a' && name@[2] == 'r'
            && name@[3] == 'd' && !seq_contains(name@, "-"@)),
{
    let n = name.unicode_len();
    if n < 4 || name.get_char(0) != 'c' || name.get_char(1) != 'a' || name.get_char(2) != 'r'
        || name.get_char(3) != 'd' {
        return false;
    }
    !contains_text(name, "-")
}

/// An AMD GPU whose name mentions both "radeon" and "graphics" (any case)
/// is the integrated one; any other is discrete.
pub fn classify_amd_gpu(name: &str) -> (r: GpuType)
    ensures
        r == (if seq_contains(lower_of(name@), "radeon"@) && seq_contains(
            lower_of(name@),
            "graphics"@,
        ) {
            GpuType::Integrated
        } else {
            GpuType::Discrete
        }),
{
    let lower = lowercase(name);
    if contains_text(lower.as_str(), "radeon") && contains_text(lower.as_str(), "graphics") {
        GpuType::Integrated
    } else {
        GpuType::Discrete
    }
}

/// The GPU in use, from the output of `prime-select query`: the discrete
/// one when it names nvidia, else the integrated one (also when the output
/// names neither).
pub fn active_gpu_from_query(output: &str) -> (r: GpuType)
    ensures
        r == (if seq_contains(output@, "nvidia"@) {
            GpuType::Discrete
        } else {
            GpuType::Integrated
        }),
{
    if contains_text(output, "nvidia") {
        GpuType::Discrete
    } else {
        GpuType::Integrated
    }
}

/// Remembers the previous `/proc/stat` sample, which core loads are measured against.
pub struct HardwareMonitor {
    last_cpu_stats: Option<Vec<CpuStats>>,
}

/// The load of each core of `curr` against the previous sample; 0 for a core
/// the previous sample lacks, and for every core on the first sample.
pub open spec fn core_loads_spec(prev: Option<Seq<CpuStats>>, curr: Seq<CpuStats>) -> Seq<int> {
    Seq::new(
        curr.len(),
        |k: int|
            match prev {
                Some(p) => if k < p.len() {
                    cpu_load_spec(p[k], curr[k])
                } else {
                    0
                },
                None => 0,
            },
    )
}

impl View for HardwareMonitor {
    type V = Option<Seq<CpuStats>>;

    closed spec fn view(&self) -> Option<Seq<CpuStats>> {
        match self.last_cpu_stats {
            Some(v) => Some(v@),
            None => None,
        }
    }
}

impl HardwareMonitor {
    /// A monitor with no previous sample.
    pub fn new() -> (r: HardwareMonitor)
        ensures
            r@ is None,
    {
        HardwareMonitor { last_cpu_stats: None }
    }

    /// The per-core loads of a new `/proc/stat` sample, which then becomes
    /// the previous one.
    pub fn core_loads(&mut self, current: Vec<CpuStats>) -> (r: Vec<u8>)
        ensures
            r@.len() == current@.len(),
            forall|k: int| 0 <= k < r@.len() ==> r@[k] == #[trigger] core_loads_spec(old(self)@, current@)[k],
            final(self)@ == Some(current@),
    {
        let mut loads: Vec<u8> = Vec::new();
        let mut k: usize = 0;
        while k < current.len()
            invariant
                k <= current@.len(),
                loads@.len() == k,
                self@ == old(self)@,
                forall|j: int| 0 <= j < k ==> loads@[j] == #[trigger] core_loads_spec(self@, current@)[j],
            decreases current@.len() - k,
        {
            let load = match &self.last_cpu_stats {
                Some(last) => if k < last.len() {
                    calculate_cpu_load(&last[k], &current[k])
                } else {
                    0
                },
                None => 0,
            };
            loads.push(load);
            k = k + 1;
        }
        self.last_cpu_stats = Some(current);
        loads
    }
}

} // verus!
