//! The telemetry snapshot and the extractor that builds it from a sampler report.
//!
//! A report is read line by line; each line is split into blank-separated
//! words and recognised by its leading words:
//!
//! - `<L>-Cluster HW active residency: <pct>%` and
//!   `<L>-Cluster HW active frequency: <f> MHz`, for a label `<L>` that
//!   starts with `E` (efficiency side) or `P` (performance side);
//! - `GPU [HW] active residency: <pct>%` and `GPU [HW] active frequency: <f> MHz`;
//! - `ANE Power: <mw> mW`, `CPU Power: <mw> mW`, `GPU Power: <mw> mW` and
//!   `Combined Power (CPU + GPU + ANE): <mw> mW`;
//! - `out: <p> packets/s, <b> bytes/s`, `in: ...`,
//!   `read: <o> ops/s <k> KBytes/s` and `write: ...`.
//!
//! Cluster percentages keep their whole part; GPU activity and the network
//! and disk rates are kept in hundredths (digits past the second decimal
//! are dropped); percentages are clamped to 100%; power stays in milliwatts. Every extracted field starts
//! at zero in each report and takes the value of the last line that sets it,
//! except the cluster aggregates: activity is the truncated mean over the
//! side's residency lines, frequency the maximum over its frequency lines.
//! A number that does not parse skips that one field.

use crate::text::{
    chars_of, decimal_centi, decimal_value, ends_with, lines_of, parse_decimal,
    parse_decimal_centi, parse_uint, split_pieces,
    uint_value, views, word_is, words_of,
};
use vstd::prelude::*;

verus! {

/// Memory figures in bytes.
#[derive(Clone, Copy, Debug, PartialEq, Eq, Structural)]
pub struct MemoryMetrics {
    pub total: u64,
    pub used: u64,
    pub available: u64,
    pub swap_total: u64,
    pub swap_used: u64,
}

/// Cluster aggregates (percent, MHz) and power draw (milliwatts).
#[derive(Clone, Copy, Debug, PartialEq, Eq, Structural)]
pub struct CPUMetrics {
    pub e_cluster_active: u64,
    pub e_cluster_freq_mhz: u64,
    pub p_cluster_active: u64,
    pub p_cluster_freq_mhz: u64,
    pub ane_mw: u64,
    pub cpu_mw: u64,
    pub gpu_mw: u64,
    pub package_mw: u64,
}

/// GPU frequency (MHz) and activity (hundredths of a percent).
#[derive(Clone, Copy, Debug, PartialEq, Eq, Structural)]
pub struct GPUMetrics {
    pub freq_mhz: u64,
    pub active_centi: u64,
}

/// Network and disk rates, in hundredths of a unit per second.
#[derive(Clone, Copy, Debug, PartialEq, Eq, Structural)]
pub struct NetDiskMetrics {
    pub out_packets_per_sec_centi: u64,
    pub out_bytes_per_sec_centi: u64,
    pub in_packets_per_sec_centi: u64,
    pub in_bytes_per_sec_centi: u64,
    pub read_ops_per_sec_centi: u64,
    pub write_ops_per_sec_centi: u64,
    pub read_k_bytes_per_sec_centi: u64,
    pub write_k_bytes_per_sec_centi: u64,
}

/// One telemetry snapshot.
#[derive(Clone, Copy, Debug, PartialEq, Eq, Structural)]
pub struct Metrics {
    pub mem: MemoryMetrics,
    pub cpu_metrics: CPUMetrics,
    pub gpu_metrics: GPUMetrics,
    pub net_disk_metrics: NetDiskMetrics,
}

/// Side of a processor cluster.
#[derive(Clone, Copy, Debug, PartialEq, Eq, Structural)]
pub enum Side {
    Efficiency,
    Performance,
}

/// What one report line says.
#[derive(Clone, Copy, Debug, PartialEq, Eq, Structural)]
pub enum Reading {
    ClusterActive(Side, u64),
    ClusterFreq(Side, u64),
    GpuActive(u64),
    GpuFreq(u64),
    AnePower(u64),
    CpuPower(u64),
    GpuPower(u64),
    PackagePower(u64),
    NetOut(Option<u64>, Option<u64>),
    NetIn(Option<u64>, Option<u64>),
    DiskRead(Option<u64>, Option<u64>),
    DiskWrite(Option<u64>, Option<u64>),
    Nothing,
}

/// The fields of a snapshot that a report fills.
#[derive(Clone, Copy, Debug, PartialEq, Eq, Structural)]
pub enum Field {
    EActive,
    PActive,
    EFreq,
    PFreq,
    GpuActive,
    GpuFreq,
    AneMw,
    CpuMw,
    GpuMw,
    PackageMw,
    OutPackets,
    OutBytes,
    InPackets,
    InBytes,
    ReadOps,
    ReadKb,
    WriteOps,
    WriteKb,
}

impl MemoryMetrics {
    pub open spec fn zero() -> MemoryMetrics {
        MemoryMetrics { total: 0, used: 0, available: 0, swap_total: 0, swap_used: 0 }
    }

    /// All figures zero.
    pub fn new() -> (r: MemoryMetrics)
        ensures
            r == MemoryMetrics::zero(),
    {
        MemoryMetrics { total: 0, used: 0, available: 0, swap_total: 0, swap_used: 0 }
    }

    /// Replaces every figure with a fresh sample.
    pub fn update(&mut self, total: u64, used: u64, available: u64, swap_total: u64, swap_used: u64)
        ensures
            *final(self) == (MemoryMetrics { total, used, available, swap_total, swap_used }),
    {
        self.total = total;
        self.used = used;
        self.available = available;
        self.swap_total = swap_total;
        self.swap_used = swap_used;
    }
}

/// The side a cluster label belongs to, by its first character.
pub open spec fn side_of(label: Seq<char>) -> Option<Side> {
    if label.len() > 0 && label[0] == 'E' {
        Some(Side::Efficiency)
    } else if label.len() > 0 && label[0] == 'P' {
        Some(Side::Performance)
    } else {
        None
    }
}

pub open spec fn is_cluster_label(w: Seq<char>) -> bool {
    w.len() >= "-Cluster"@.len() && w.subrange(w.len() - "-Cluster"@.len(), w.len() as int)
        == "-Cluster"@
}

/// A percentage word `<decimal>%` in hundredths of a percent, at most 100%.
pub open spec fn percent_centi(w: Seq<char>) -> Option<u64> {
    if w.len() > 0 && w.last() == '%' {
        match decimal_centi(w.drop_last()) {
            Some(v) => Some(if v > 10000 { 10000 } else { v }),
            None => None,
        }
    } else {
        None
    }
}

/// A percentage word `<decimal>%`: its whole part, at most 100.
pub open spec fn percent_value(w: Seq<char>) -> Option<u64> {
    if w.len() > 0 && w.last() == '%' {
        match decimal_value(w.drop_last()) {
            Some(v) => Some(if v > 100 { 100 } else { v }),
            None => None,
        }
    } else {
        None
    }
}

pub open spec fn word_at(w: Seq<Seq<char>>, i: int, lit: &str) -> bool {
    0 <= i < w.len() && w[i] == lit@
}

/// Offset of `active` in a GPU line: `GPU HW active` or `GPU active`.
pub open spec fn gpu_offset(w: Seq<Seq<char>>) -> int {
    if word_at(w, 1, "HW") {
        2
    } else {
        1
    }
}

pub open spec fn cluster_reading(w: Seq<Seq<char>>) -> Reading {
    if word_at(w, 1, "HW") && word_at(w, 2, "active") && word_at(w, 3, "residency:") && w.len()
        >= 5 {
        match (side_of(w[0]), percent_value(w[4])) {
            (Some(s), Some(v)) => Reading::ClusterActive(s, v),
            _ => Reading::Nothing,
        }
    } else if word_at(w, 1, "HW") && word_at(w, 2, "active") && word_at(w, 3, "frequency:")
        && word_at(w, 5, "MHz") {
        match (side_of(w[0]), uint_value(w[4])) {
            (Some(s), Some(v)) => Reading::ClusterFreq(s, v),
            _ => Reading::Nothing,
        }
    } else {
        Reading::Nothing
    }
}

pub open spec fn gpu_reading(w: Seq<Seq<char>>) -> Reading {
    let j = gpu_offset(w);
    if word_at(w, j, "active") && word_at(w, j + 1, "residency:") && w.len() >= j + 3 {
        match percent_centi(w[j + 2]) {
            Some(v) => Reading::GpuActive(v),
            None => Reading::Nothing,
        }
    } else if word_at(w, j, "active") && word_at(w, j + 1, "frequency:") && word_at(
        w,
        j + 3,
        "MHz",
    ) {
        match uint_value(w[j + 2]) {
            Some(v) => Reading::GpuFreq(v),
            None => Reading::Nothing,
        }
    } else {
        Reading::Nothing
    }
}

/// `<name> Power: <mw> mW`: the milliwatts, if they parse.
pub open spec fn power_value(w: Seq<Seq<char>>) -> Option<u64> {
    if word_at(w, 1, "Power:") && word_at(w, 3, "mW") {
        uint_value(w[2])
    } else {
        None
    }
}

pub open spec fn is_combined_power(w: Seq<Seq<char>>) -> bool {
    word_at(w, 0, "Combined") && word_at(w, 1, "Power") && word_at(w, 2, "(CPU") && word_at(
        w,
        3,
        "+",
    ) && word_at(w, 4, "GPU") && word_at(w, 5, "+") && word_at(w, 6, "ANE):") && word_at(
        w,
        8,
        "mW",
    )
}

/// `<lead> <x> <unit1> <y> <unit2>`: both rates, each if it parses.
pub open spec fn rate_pair(w: Seq<Seq<char>>, unit1: &str, unit2: &str) -> Option<
    (Option<u64>, Option<u64>),
> {
    if word_at(w, 2, unit1) && word_at(w, 4, unit2) {
        Some((decimal_centi(w[1]), decimal_centi(w[3])))
    } else {
        None
    }
}

/// What the line with words `w` says.
pub open spec fn classify(w: Seq<Seq<char>>) -> Reading {
    if w.len() == 0 {
        Reading::Nothing
    } else if is_cluster_label(w[0]) {
        cluster_reading(w)
    } else if w[0] == "GPU"@ && !word_at(w, 1, "Power:") {
        gpu_reading(w)
    } else if w[0] == "ANE"@ || w[0] == "CPU"@ || w[0] == "GPU"@ {
        match power_value(w) {
            Some(v) => if w[0] == "ANE"@ {
                Reading::AnePower(v)
            } else if w[0] == "CPU"@ {
                Reading::CpuPower(v)
            } else {
                Reading::GpuPower(v)
            },
            None => Reading::Nothing,
        }
    } else if is_combined_power(w) {
        match uint_value(w[7]) {
            Some(v) => Reading::PackagePower(v),
            None => Reading::Nothing,
        }
    } else if w[0] == "out:"@ || w[0] == "in:"@ {
        match rate_pair(w, "packets/s,", "bytes/s") {
            Some((a, b)) => if w[0] == "out:"@ {
                Reading::NetOut(a, b)
            } else {
                Reading::NetIn(a, b)
            },
            None => Reading::Nothing,
        }
    } else if w[0] == "read:"@ || w[0] == "write:"@ {
        match rate_pair(w, "ops/s", "KBytes/s") {
            Some((a, b)) => if w[0] == "read:"@ {
                Reading::DiskRead(a, b)
            } else {
                Reading::DiskWrite(a, b)
            },
            None => Reading::Nothing,
        }
    } else {
        Reading::Nothing
    }
}

fn side_from(label: &Vec<char>) -> (r: Option<Side>)
    ensures
        r == side_of(label@),
{
    if label.len() > 0 && label[0] == 'E' {
        Some(Side::Efficiency)
    } else if label.len() > 0 && label[0] == 'P' {
        Some(Side::Performance)
    } else {
        None
    }
}

fn uint_word(w: &Vec<char>) -> (r: Option<u64>)
    ensures
        r == uint_value(w@),
{
    assert(w@.subrange(0, w@.len() as int) =~= w@);
    parse_uint(w, 0, w.len())
}

fn centi_word(w: &Vec<char>) -> (r: Option<u64>)
    ensures
        r == decimal_centi(w@),
{
    assert(w@.subrange(0, w@.len() as int) =~= w@);
    parse_decimal_centi(w, 0, w.len())
}

fn percent_centi_word(w: &Vec<char>) -> (r: Option<u64>)
    ensures
        r == percent_centi(w@),
{
    if w.len() > 0 && w[w.len() - 1] == '%' {
        assert(w@.subrange(0, w@.len() - 1) =~= w@.drop_last());
        match parse_decimal_centi(w, 0, w.len() - 1) {
            Some(v) => Some(if v > 10000 { 10000 } else { v }),
            None => None,
        }
    } else {
        None
    }
}

fn percent_word(w: &Vec<char>) -> (r: Option<u64>)
    ensures
        r == percent_value(w@),
{
    if w.len() > 0 && w[w.len() - 1] == '%' {
        assert(w@.subrange(0, w@.len() - 1) =~= w@.drop_last());
        match parse_decimal(w, 0, w.len() - 1) {
            Some(v) => Some(if v > 100 { 100 } else { v }),
            None => None,
        }
    } else {
        None
    }
}

fn cluster_line(w: &Vec<Vec<char>>) -> (r: Reading)
    requires
        w@.len() > 0,
    ensures
        r == cluster_reading(views(w@)),
{
    let ghost v = views(w@);
    if word_is(w, 1, "HW") && word_is(w, 2, "active") && word_is(w, 3, "residency:") && w.len()
        >= 5 {
        match (side_from(&w[0]), percent_word(&w[4])) {
            (Some(s), Some(x)) => Reading::ClusterActive(s, x),
            _ => Reading::Nothing,
        }
    } else if word_is(w, 1, "HW") && word_is(w, 2, "active") && word_is(w, 3, "frequency:")
        && word_is(w, 5, "MHz") {
        match (side_from(&w[0]), uint_word(&w[4])) {
            (Some(s), Some(x)) => Reading::ClusterFreq(s, x),
            _ => Reading::Nothing,
        }
    } else {
        Reading::Nothing
    }
}

fn gpu_line(w: &Vec<Vec<char>>) -> (r: Reading)
    ensures
        r == gpu_reading(views(w@)),
{
    let ghost v = views(w@);
    let j: usize = if word_is(w, 1, "HW") {
        2
    } else {
        1
    };
    assert(j == gpu_offset(v));
    if word_is(w, j, "active") && word_is(w, j + 1, "residency:") && w.len() >= j + 3 {
        match percent_centi_word(&w[j + 2]) {
            Some(x) => Reading::GpuActive(x),
            None => Reading::Nothing,
        }
    } else if word_is(w, j, "active") && word_is(w, j + 1, "frequency:") && word_is(
        w,
        j + 3,
        "MHz",
    ) {
        match uint_word(&w[j + 2]) {
            Some(x) => Reading::GpuFreq(x),
            None => Reading::Nothing,
        }
    } else {
        Reading::Nothing
    }
}

fn power_line(w: &Vec<Vec<char>>) -> (r: Option<u64>)
    ensures
        r == power_value(views(w@)),
{
    if word_is(w, 1, "Power:") && word_is(w, 3, "mW") {
        uint_word(&w[2])
    } else {
        None
    }
}

fn combined_line(w: &Vec<Vec<char>>) -> (r: bool)
    ensures
        r == is_combined_power(views(w@)),
{
    word_is(w, 0, "Combined") && word_is(w, 1, "Power") && word_is(w, 2, "(CPU") && word_is(
        w,
        3,
        "+",
    ) && word_is(w, 4, "GPU") && word_is(w, 5, "+") && word_is(w, 6, "ANE):") && word_is(
        w,
        8,
        "mW",
    )
}

fn rate_line(w: &Vec<Vec<char>>, unit1: &str, unit2: &str) -> (r: Option<
    (Option<u64>, Option<u64>),
>)
    ensures
        r == rate_pair(views(w@), unit1, unit2),
{
    if word_is(w, 2, unit1) && word_is(w, 4, unit2) {
        Some((centi_word(&w[1]), centi_word(&w[3])))
    } else {
        None
    }
}

/// Recognises the line whose words are `w`.
pub fn classify_words(w: &Vec<Vec<char>>) -> (r: Reading)
    ensures
        r == classify(views(w@)),
{
    let ghost v = views(w@);
    if w.len() == 0 {
        return Reading::Nothing;
    }
    let first = &w[0];
    if ends_with(first, "-Cluster") {
        proof {
            reveal_strlit("-Cluster");
        }
        cluster_line(w)
    } else if word_is(w, 0, "GPU") && !word_is(w, 1, "Power:") {
        gpu_line(w)
    } else if word_is(w, 0, "ANE") || word_is(w, 0, "CPU") || word_is(w, 0, "GPU") {
        match power_line(w) {
            Some(x) => if word_is(w, 0, "ANE") {
                Reading::AnePower(x)
            } else if word_is(w, 0, "CPU") {
                Reading::CpuPower(x)
            } else {
                Reading::GpuPower(x)
            },
            None => Reading::Nothing,
        }
    } else if combined_line(w) {
        match uint_word(&w[7]) {
            Some(x) => Reading::PackagePower(x),
            None => Reading::Nothing,
        }
    } else if word_is(w, 0, "out:") || word_is(w, 0, "in:") {
        match rate_line(w, "packets/s,", "bytes/s") {
            Some((a, b)) => if word_is(w, 0, "out:") {
                Reading::NetOut(a, b)
            } else {
                Reading::NetIn(a, b)
            },
            None => Reading::Nothing,
        }
    } else if word_is(w, 0, "read:") || word_is(w, 0, "write:") {
        match rate_line(w, "ops/s", "KBytes/s") {
            Some((a, b)) => if word_is(w, 0, "read:") {
                Reading::DiskRead(a, b)
            } else {
                Reading::DiskWrite(a, b)
            },
            None => Reading::Nothing,
        }
    } else {
        Reading::Nothing
    }
}

/// The value that reading `r` gives to field `f`, if any.
pub open spec fn reading_value(r: Reading, f: Field) -> Option<u64> {
    match (f, r) {
        (Field::EActive, Reading::ClusterActive(Side::Efficiency, v)) => Some(v),
        (Field::PActive, Reading::ClusterActive(Side::Performance, v)) => Some(v),
        (Field::EFreq, Reading::ClusterFreq(Side::Efficiency, v)) => Some(v),
        (Field::PFreq, Reading::ClusterFreq(Side::Performance, v)) => Some(v),
        (Field::GpuActive, Reading::GpuActive(v)) => Some(v),
        (Field::GpuFreq, Reading::GpuFreq(v)) => Some(v),
        (Field::AneMw, Reading::AnePower(v)) => Some(v),
        (Field::CpuMw, Reading::CpuPower(v)) => Some(v),
        (Field::GpuMw, Reading::GpuPower(v)) => Some(v),
        (Field::PackageMw, Reading::PackagePower(v)) => Some(v),
        (Field::OutPackets, Reading::NetOut(a, _)) => a,
        (Field::OutBytes, Reading::NetOut(_, b)) => b,
        (Field::InPackets, Reading::NetIn(a, _)) => a,
        (Field::InBytes, Reading::NetIn(_, b)) => b,
        (Field::ReadOps, Reading::DiskRead(a, _)) => a,
        (Field::ReadKb, Reading::DiskRead(_, b)) => b,
        (Field::WriteOps, Reading::DiskWrite(a, _)) => a,
        (Field::WriteKb, Reading::DiskWrite(_, b)) => b,
        _ => None,
    }
}

/// The values that the readings `rs` give to field `f`, in report order.
pub open spec fn values(rs: Seq<Reading>, f: Field) -> Seq<u64>
    decreases rs.len(),
{
    if rs.len() == 0 {
        seq![]
    } else {
        let before = values(rs.drop_last(), f);
        match reading_value(rs.last(), f) {
            Some(v) => before.push(v),
            None => before,
        }
    }
}

/// The last value given to `f`, or zero when none was.
pub open spec fn latest(rs: Seq<Reading>, f: Field) -> u64 {
    let s = values(rs, f);
    if s.len() == 0 {
        0
    } else {
        s.last()
    }
}

pub open spec fn seq_sum(s: Seq<u64>) -> nat
    decreases s.len(),
{
    if s.len() == 0 {
        0
    } else {
        seq_sum(s.drop_last()) + (s.last() as nat)
    }
}

/// The largest element, or zero for the empty sequence.
pub open spec fn seq_max(s: Seq<u64>) -> u64
    decreases s.len(),
{
    if s.len() == 0 {
        0
    } else if s.last() > seq_max(s.drop_last()) {
        s.last()
    } else {
        seq_max(s.drop_last())
    }
}

/// The truncated arithmetic mean, or zero for the empty sequence.
pub open spec fn seq_mean(s: Seq<u64>) -> u64 {
    if s.len() == 0 {
        0
    } else {
        (seq_sum(s) / s.len()) as u64
    }
}

/// The readings of the lines of a report, in order.
pub open spec fn readings(report: Seq<char>) -> Seq<Reading> {
    lines_of(report).map_values(|l: Seq<char>| classify(words_of(l)))
}

/// The snapshot that readings `rs` describe, with memory figures `mem`.
pub open spec fn metrics_from(rs: Seq<Reading>, mem: MemoryMetrics) -> Metrics {
    Metrics {
        mem,
        cpu_metrics: CPUMetrics {
            e_cluster_active: seq_mean(values(rs, Field::EActive)),
            e_cluster_freq_mhz: seq_max(values(rs, Field::EFreq)),
            p_cluster_active: seq_mean(values(rs, Field::PActive)),
            p_cluster_freq_mhz: seq_max(values(rs, Field::PFreq)),
            ane_mw: latest(rs, Field::AneMw),
            cpu_mw: latest(rs, Field::CpuMw),
            gpu_mw: latest(rs, Field::GpuMw),
            package_mw: latest(rs, Field::PackageMw),
        },
        gpu_metrics: GPUMetrics {
            freq_mhz: latest(rs, Field::GpuFreq),
            active_centi: latest(rs, Field::GpuActive),
        },
        net_disk_metrics: NetDiskMetrics {
            out_packets_per_sec_centi: latest(rs, Field::OutPackets),
            out_bytes_per_sec_centi: latest(rs, Field::OutBytes),
            in_packets_per_sec_centi: latest(rs, Field::InPackets),
            in_bytes_per_sec_centi: latest(rs, Field::InBytes),
            read_ops_per_sec_centi: latest(rs, Field::ReadOps),
            write_ops_per_sec_centi: latest(rs, Field::WriteOps),
            read_k_bytes_per_sec_centi: latest(rs, Field::ReadKb),
            write_k_bytes_per_sec_centi: latest(rs, Field::WriteKb),
        },
    }
}

/// The snapshot of a report, with zero memory figures.
pub open spec fn extract_spec(report: Seq<char>) -> Metrics {
    metrics_from(readings(report), MemoryMetrics::zero())
}

/// Percent readings never exceed 100%.
pub open spec fn bounded(r: Reading) -> bool {
    match r {
        Reading::ClusterActive(_, v) => v <= 100,
        Reading::GpuActive(v) => v <= 10000,
        _ => true,
    }
}

proof fn lemma_values_push(rs: Seq<Reading>, r: Reading)
    ensures
        forall|f: Field|
            #[trigger] values(rs.push(r), f) == match reading_value(r, f) {
                Some(v) => values(rs, f).push(v),
                None => values(rs, f),
            },
{
    assert(rs.push(r).drop_last() =~= rs);
}

proof fn lemma_push_stats(s: Seq<u64>, v: u64)
    ensures
        seq_sum(s.push(v)) == seq_sum(s) + v,
        seq_max(s.push(v)) == if v > seq_max(s) {
            v
        } else {
            seq_max(s)
        },
        s.push(v).last() == v,
{
    assert(s.push(v).drop_last() =~= s);
}

/// Running totals of a scan, one per field.
struct Tally {
    e_sum: u128,
    e_n: usize,
    p_sum: u128,
    p_n: usize,
    e_freq: u64,
    p_freq: u64,
    gpu_active: u64,
    gpu_freq: u64,
    ane: u64,
    cpu: u64,
    gpu: u64,
    package: u64,
    out_p: u64,
    out_b: u64,
    in_p: u64,
    in_b: u64,
    read_ops: u64,
    read_kb: u64,
    write_ops: u64,
    write_kb: u64,
}

spec fn last_or_zero(s: Seq<u64>) -> u64 {
    if s.len() == 0 {
        0
    } else {
        s.last()
    }
}

spec fn tallies(t: Tally, rs: Seq<Reading>) -> bool {
    &&& t.e_sum == seq_sum(values(rs, Field::EActive))
    &&& t.e_n == values(rs, Field::EActive).len()
    &&& t.e_sum <= 100 * t.e_n
    &&& t.e_n <= rs.len()
    &&& t.p_sum == seq_sum(values(rs, Field::PActive))
    &&& t.p_n == values(rs, Field::PActive).len()
    &&& t.p_sum <= 100 * t.p_n
    &&& t.p_n <= rs.len()
    &&& t.e_freq == seq_max(values(rs, Field::EFreq))
    &&& t.p_freq == seq_max(values(rs, Field::PFreq))
    &&& t.gpu_active == latest(rs, Field::GpuActive)
    &&& t.gpu_active <= 10000
    &&& t.gpu_freq == latest(rs, Field::GpuFreq)
    &&& t.ane == latest(rs, Field::AneMw)
    &&& t.cpu == latest(rs, Field::CpuMw)
    &&& t.gpu == latest(rs, Field::GpuMw)
    &&& t.package == latest(rs, Field::PackageMw)
    &&& t.out_p == latest(rs, Field::OutPackets)
    &&& t.out_b == latest(rs, Field::OutBytes)
    &&& t.in_p == latest(rs, Field::InPackets)
    &&& t.in_b == latest(rs, Field::InBytes)
    &&& t.read_ops == latest(rs, Field::ReadOps)
    &&& t.read_kb == latest(rs, Field::ReadKb)
    &&& t.write_ops == latest(rs, Field::WriteOps)
    &&& t.write_kb == latest(rs, Field::WriteKb)
}

fn absorb(t: &mut Tally, r: Reading, Ghost(rs): Ghost<Seq<Reading>>)
    requires
        tallies(*old(t), rs),
        rs.len() < usize::MAX,
        bounded(r),
    ensures
        tallies(*final(t), rs.push(r)),
{
    proof {
        lemma_values_push(rs, r);
    }
    match r {
        Reading::ClusterActive(Side::Efficiency, v) => {
            proof {
                lemma_push_stats(values(rs, Field::EActive), v);
            }
            t.e_sum = t.e_sum + v as u128;
            t.e_n = t.e_n + 1;
        },
        Reading::ClusterActive(Side::Performance, v) => {
            proof {
                lemma_push_stats(values(rs, Field::PActive), v);
            }
            t.p_sum = t.p_sum + v as u128;
            t.p_n = t.p_n + 1;
        },
        Reading::ClusterFreq(Side::Efficiency, v) => {
            proof {
                lemma_push_stats(values(rs, Field::EFreq), v);
            }
            if v > t.e_freq {
                t.e_freq = v;
            }
        },
        Reading::ClusterFreq(Side::Performance, v) => {
            proof {
                lemma_push_stats(values(rs, Field::PFreq), v);
            }
            if v > t.p_freq {
                t.p_freq = v;
            }
        },
        Reading::GpuActive(v) => {
            t.gpu_active = v;
        },
        Reading::GpuFreq(v) => {
            t.gpu_freq = v;
        },
        Reading::AnePower(v) => {
            t.ane = v;
        },
        Reading::CpuPower(v) => {
            t.cpu = v;
        },
        Reading::GpuPower(v) => {
            t.gpu = v;
        },
        Reading::PackagePower(v) => {
            t.package = v;
        },
        Reading::NetOut(a, b) => {
            if let Some(x) = a {
                t.out_p = x;
            }
            if let Some(y) = b {
                t.out_b = y;
            }
        },
        Reading::NetIn(a, b) => {
            if let Some(x) = a {
                t.in_p = x;
            }
            if let Some(y) = b {
                t.in_b = y;
            }
        },
        Reading::DiskRead(a, b) => {
            if let Some(x) = a {
                t.read_ops = x;
            }
            if let Some(y) = b {
                t.read_kb = y;
            }
        },
        Reading::DiskWrite(a, b) => {
            if let Some(x) = a {
                t.write_ops = x;
            }
            if let Some(y) = b {
                t.write_kb = y;
            }
        },
        Reading::Nothing => {},
    }
}

proof fn lemma_classify_bounded(w: Seq<Seq<char>>)
    ensures
        bounded(classify(w)),
{
}

/// Reads a sampler report into a snapshot whose memory figures are zero.
///
/// Every field that no line of the report sets reads zero.
pub fn extract(report: &str) -> (r: Metrics)
    ensures
        r == extract_spec(report@),
        r.cpu_metrics.e_cluster_active <= 100,
        r.cpu_metrics.p_cluster_active <= 100,
        r.gpu_metrics.active_centi <= 10000,
{
    let chars = chars_of(report);
    let lines = split_pieces(&chars, true);
    let ghost rs = readings(report@);
    let mut t = Tally {
        e_sum: 0,
        e_n: 0,
        p_sum: 0,
        p_n: 0,
        e_freq: 0,
        p_freq: 0,
        gpu_active: 0,
        gpu_freq: 0,
        ane: 0,
        cpu: 0,
        gpu: 0,
        package: 0,
        out_p: 0,
        out_b: 0,
        in_p: 0,
        in_b: 0,
        read_ops: 0,
        read_kb: 0,
        write_ops: 0,
        write_kb: 0,
    };
    assert(rs.take(0) =~= Seq::<Reading>::empty());
    let mut i: usize = 0;
    while i < lines.len()
        invariant
            i <= lines@.len(),
            views(lines@) == lines_of(report@),
            rs == readings(report@),
            rs.len() == lines@.len(),
            tallies(t, rs.take(i as int)),
        decreases lines@.len() - i,
    {
        let words = split_pieces(&lines[i], false);
        let r = classify_words(&words);
        proof {
            lemma_classify_bounded(views(words@));
            assert(rs[i as int] == r);
            assert(rs.take(i + 1) =~= rs.take(i as int).push(r));
        }
        absorb(&mut t, r, Ghost(rs.take(i as int)));
        i = i + 1;
    }
    assert(rs.take(lines@.len() as int) =~= rs);
    let e_active: u64 = if t.e_n > 0 {
        let q = t.e_sum / (t.e_n as u128);
        assert(q <= 100) by (nonlinear_arith)
            requires
                q == t.e_sum / (t.e_n as u128),
                t.e_sum <= 100 * t.e_n,
                t.e_n > 0,
        ;
        q as u64
    } else {
        0
    };
    let p_active: u64 = if t.p_n > 0 {
        let q = t.p_sum / (t.p_n as u128);
        assert(q <= 100) by (nonlinear_arith)
            requires
                q == t.p_sum / (t.p_n as u128),
                t.p_sum <= 100 * t.p_n,
                t.p_n > 0,
        ;
        q as u64
    } else {
        0
    };
    Metrics {
        mem: MemoryMetrics::new(),
        cpu_metrics: CPUMetrics {
            e_cluster_active: e_active,
            e_cluster_freq_mhz: t.e_freq,
            p_cluster_active: p_active,
            p_cluster_freq_mhz: t.p_freq,
            ane_mw: t.ane,
            cpu_mw: t.cpu,
            gpu_mw: t.gpu,
            package_mw: t.package,
        },
        gpu_metrics: GPUMetrics { freq_mhz: t.gpu_freq, active_centi: t.gpu_active },
        net_disk_metrics: NetDiskMetrics {
            out_packets_per_sec_centi: t.out_p,
            out_bytes_per_sec_centi: t.out_b,
            in_packets_per_sec_centi: t.in_p,
            in_bytes_per_sec_centi: t.in_b,
            read_ops_per_sec_centi: t.read_ops,
            write_ops_per_sec_centi: t.write_ops,
            read_k_bytes_per_sec_centi: t.read_kb,
            write_k_bytes_per_sec_centi: t.write_kb,
        },
    }
}

impl Metrics {
    pub open spec fn zero() -> Metrics {
        metrics_from(seq![], MemoryMetrics::zero())
    }

    /// A snapshot with every figure zero.
    pub fn new() -> (r: Metrics)
        ensures
            r == Metrics::zero(),
    {
        let e = CPUMetrics {
            e_cluster_active: 0,
            e_cluster_freq_mhz: 0,
            p_cluster_active: 0,
            p_cluster_freq_mhz: 0,
            ane_mw: 0,
            cpu_mw: 0,
            gpu_mw: 0,
            package_mw: 0,
        };
        let n = NetDiskMetrics {
            out_packets_per_sec_centi: 0,
            out_bytes_per_sec_centi: 0,
            in_packets_per_sec_centi: 0,
            in_bytes_per_sec_centi: 0,
            read_ops_per_sec_centi: 0,
            write_ops_per_sec_centi: 0,
            read_k_bytes_per_sec_centi: 0,
            write_k_bytes_per_sec_centi: 0,
        };
        let r = Metrics {
            mem: MemoryMetrics::new(),
            cpu_metrics: e,
            gpu_metrics: GPUMetrics { freq_mhz: 0, active_centi: 0 },
            net_disk_metrics: n,
        };
        assert(forall|f: Field| values(seq![], f) =~= Seq::<u64>::empty());
        r
    }

    /// One sampling cycle: every extracted field takes what `report` says,
    /// those it does not mention reset to zero, and the memory figures take
    /// the readings `mem`.
    pub fn collect_metrics(&mut self, report: &str, mem: MemoryMetrics)
        ensures
            *final(self) == metrics_from(readings(report@), mem),
    {
        let m = extract(report);
        self.mem = mem;
        self.cpu_metrics = m.cpu_metrics;
        self.gpu_metrics = m.gpu_metrics;
        self.net_disk_metrics = m.net_disk_metrics;
    }
}

/// Efficiency-side activity is the truncated mean of its residency lines:
/// two lines at 10% and 30% give 20.
pub proof fn lemma_efficiency_mean(report: Seq<char>)
    requires
        values(readings(report), Field::EActive) == seq![10u64, 30u64],
    ensures
        extract_spec(report).cpu_metrics.e_cluster_active == 20,
{
    let s = values(readings(report), Field::EActive);
    assert(s.drop_last() =~= seq![10u64]);
    assert(s.drop_last().drop_last() =~= Seq::<u64>::empty());
    assert(seq_sum(s) == 40) by {
        reveal_with_fuel(seq_sum, 3);
    }
    assert(seq_mean(s) == 20);
}

/// With a single performance cluster reporting, the side's activity and
/// frequency are that cluster's own.
pub proof fn lemma_single_performance_cluster(report: Seq<char>, freq: u64)
    requires
        values(readings(report), Field::PActive) == seq![41u64],
        values(readings(report), Field::PFreq) == seq![freq],
    ensures
        extract_spec(report).cpu_metrics.p_cluster_active == 41,
        extract_spec(report).cpu_metrics.p_cluster_freq_mhz == freq,
{
    let a = values(readings(report), Field::PActive);
    let f = values(readings(report), Field::PFreq);
    assert(a.drop_last() =~= Seq::<u64>::empty());
    assert(f.drop_last() =~= Seq::<u64>::empty());
    assert(seq_sum(a) == 41) by {
        reveal_with_fuel(seq_sum, 2);
    }
    assert(seq_mean(a) == 41);
    assert(seq_max(f) == freq) by {
        reveal_with_fuel(seq_max, 2);
    }
}

/// Extraction depends on the report text alone: the same text gives the same
/// snapshot, and collecting the same report and readings twice is the same
/// as once.
pub proof fn lemma_extract_idempotent(report: Seq<char>, again: Seq<char>, mem: MemoryMetrics)
    requires
        again == report,
    ensures
        extract_spec(again) == extract_spec(report),
        metrics_from(readings(again), mem) == metrics_from(readings(report), mem),
{
}

/// A report without a GPU residency line leaves GPU activity at zero, since
/// a collected snapshot owes nothing to the one it replaces.
pub proof fn lemma_gpu_activity_resets(report: Seq<char>, mem: MemoryMetrics)
    requires
        forall|i: int|
            0 <= i < readings(report).len() ==> !(#[trigger] readings(report)[i] is GpuActive),
    ensures
        metrics_from(readings(report), mem).gpu_metrics.active_centi == 0,
{
    lemma_no_values(readings(report), Field::GpuActive);
}

proof fn lemma_no_values(rs: Seq<Reading>, f: Field)
    requires
        forall|i: int| 0 <= i < rs.len() ==> (#[trigger] reading_value(rs[i], f)) is None,
    ensures
        values(rs, f).len() == 0,
    decreases rs.len(),
{
    if rs.len() > 0 {
        assert(reading_value(rs[rs.len() - 1], f) is None);
        assert forall|i: int| 0 <= i < rs.drop_last().len() implies (#[trigger] reading_value(
            rs.drop_last()[i],
            f,
        )) is None by {
            assert(rs.drop_last()[i] == rs[i]);
        }
        lemma_no_values(rs.drop_last(), f);
    }
}

} // verus!
