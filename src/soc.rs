//! Machine identity: the system-on-chip's name and core counts, read once
//! from `key: value` reports. A line gives a value for a key when it
//! contains the key and a colon; the value is the trimmed text after the
//! first colon.

use crate::text::{
    chars_of, contains, contains_chars, find_char, first_index, lines_of, split_pieces, string_of,
    trim, trimmed, views,
};
use vstd::prelude::*;

verus! {

/// Identity of the system-on-chip, gathered once at startup.
#[derive(Clone, Debug)]
pub struct SocInfo {
    pub name: Option<String>,
    pub core_count: Option<String>,
    pub e_core_count: Option<String>,
    pub p_core_count: Option<String>,
    pub gpu_core_count: String,
}

pub open spec fn has_colon(line: Seq<char>) -> bool {
    first_index(line, ':') < line.len()
}

/// The trimmed text after the first colon.
pub open spec fn value_of(line: Seq<char>) -> Seq<char> {
    trim(line.subrange(first_index(line, ':') + 1, line.len() as int))
}

/// What a line gives for `key`: when it contains `key` and a colon, its
/// value.
pub open spec fn line_value(line: Seq<char>, key: Seq<char>) -> Option<Seq<char>> {
    if contains(line, key) && has_colon(line) {
        Some(value_of(line))
    } else {
        None
    }
}

/// What the last line that gives something for `key` gives.
pub open spec fn last_value(lines: Seq<Seq<char>>, key: Seq<char>) -> Option<Seq<char>>
    decreases lines.len(),
{
    if lines.len() == 0 {
        None
    } else {
        match line_value(lines.last(), key) {
            Some(v) => Some(v),
            None => last_value(lines.drop_last(), key),
        }
    }
}

/// What the first line that gives something for `key` gives.
pub open spec fn first_value(lines: Seq<Seq<char>>, key: Seq<char>) -> Option<Seq<char>>
    decreases lines.len(),
{
    if lines.len() == 0 {
        None
    } else {
        match line_value(lines[0], key) {
            Some(v) => Some(v),
            None => first_value(lines.drop_first(), key),
        }
    }
}

pub open spec fn text_of(o: Option<String>) -> Option<Seq<char>> {
    match o {
        Some(s) => Some(s@),
        None => None,
    }
}

pub open spec fn chars_opt(o: Option<Vec<char>>) -> Option<Seq<char>> {
    match o {
        Some(s) => Some(s@),
        None => None,
    }
}

fn value_in_line(line: &Vec<char>, key: &Vec<char>) -> (r: Option<Vec<char>>)
    ensures
        chars_opt(r) == line_value(line@, key@),
{
    if !contains_chars(line, key) {
        return None;
    }
    let c = find_char(line, 0, line.len(), ':');
    assert(line@.subrange(0, line@.len() as int) =~= line@);
    if c < line.len() {
        Some(trimmed(line, c + 1, line.len()))
    } else {
        None
    }
}

/// The value of the last line of a report that contains `key` and a colon:
/// its trimmed text after the first colon.
pub fn lookup_last(report: &str, key: &str) -> (r: Option<String>)
    ensures
        text_of(r) == last_value(lines_of(report@), key@),
{
    let chars = chars_of(report);
    let lines = split_pieces(&chars, true);
    let k = chars_of(key);
    let ghost ls = views(lines@);
    assert(ls.take(0) =~= Seq::<Seq<char>>::empty());
    let mut found: Option<Vec<char>> = None;
    let mut i: usize = 0;
    while i < lines.len()
        invariant
            i <= lines@.len(),
            ls == views(lines@),
            ls == lines_of(report@),
            k@ == key@,
            chars_opt(found) == last_value(ls.take(i as int), key@),
        decreases lines@.len() - i,
    {
        let v = value_in_line(&lines[i], &k);
        proof {
            assert(ls.take(i + 1).drop_last() =~= ls.take(i as int));
            assert(ls.take(i + 1).last() == lines@[i as int]@);
        }
        if v.is_some() {
            found = v;
        }
        i = i + 1;
    }
    assert(ls.take(lines@.len() as int) =~= ls);
    match found {
        Some(v) => Some(string_of(&v)),
        None => None,
    }
}

/// The value of the first line of a report that contains `key` and a colon:
/// its trimmed text after the first colon.
pub fn lookup_first(report: &str, key: &str) -> (r: Option<String>)
    ensures
        text_of(r) == first_value(lines_of(report@), key@),
{
    let chars = chars_of(report);
    let lines = split_pieces(&chars, true);
    let k = chars_of(key);
    let ghost ls = views(lines@);
    assert(ls.skip(0) =~= ls);
    let mut i: usize = 0;
    while i < lines.len()
        invariant
            i <= lines@.len(),
            ls == views(lines@),
            ls == lines_of(report@),
            k@ == key@,
            first_value(ls, key@) == first_value(ls.skip(i as int), key@),
        decreases lines@.len() - i,
    {
        proof {
            assert(ls.skip(i as int)[0] == lines@[i as int]@);
            assert(ls.skip(i as int).drop_first() =~= ls.skip(i + 1));
        }
        match value_in_line(&lines[i], &k) {
            Some(v) => {
                return Some(string_of(&v));
            },
            None => {},
        }
        i = i + 1;
    }
    None
}

/// Brand string and physical core count from the processor report: for
/// `machdep.cpu.brand_string` and `machdep.cpu.core_count`, the value of the
/// last line that gives one.
pub fn get_cpu_info(report: &str) -> (r: (Option<String>, Option<String>))
    ensures
        text_of(r.0) == last_value(lines_of(report@), "machdep.cpu.brand_string"@),
        text_of(r.1) == last_value(lines_of(report@), "machdep.cpu.core_count"@),
{
    (
        lookup_last(report, "machdep.cpu.brand_string"),
        lookup_last(report, "machdep.cpu.core_count"),
    )
}

/// Performance and efficiency core counts from the performance-level report:
/// for `hw.perflevel0.logicalcpu` and `hw.perflevel1.logicalcpu`, the value of
/// the last line that gives one.
pub fn get_core_count(report: &str) -> (r: (Option<String>, Option<String>))
    ensures
        text_of(r.0) == last_value(lines_of(report@), "hw.perflevel0.logicalcpu"@),
        text_of(r.1) == last_value(lines_of(report@), "hw.perflevel1.logicalcpu"@),
{
    (
        lookup_last(report, "hw.perflevel0.logicalcpu"),
        lookup_last(report, "hw.perflevel1.logicalcpu"),
    )
}

/// GPU core count from the display report: the value of the first line
/// that contains `Total Number of Cores` and a colon, or the unknown marker
/// `?` when there is none.
pub fn get_gpu_cores(report: &str) -> (r: String)
    ensures
        r@ == match first_value(lines_of(report@), "Total Number of Cores"@) {
            Some(v) => v,
            None => "?"@,
        },
{
    match lookup_first(report, "Total Number of Cores") {
        Some(v) => v,
        None => "?".to_owned(),
    }
}

/// Gathers the machine identity from its three reports.
pub fn get_soc_info(cpu_report: &str, perf_report: &str, gpu_report: &str) -> (r: SocInfo)
    ensures
        text_of(r.name) == last_value(lines_of(cpu_report@), "machdep.cpu.brand_string"@),
        text_of(r.core_count) == last_value(lines_of(cpu_report@), "machdep.cpu.core_count"@),
        text_of(r.p_core_count) == last_value(lines_of(perf_report@), "hw.perflevel0.logicalcpu"@),
        text_of(r.e_core_count) == last_value(lines_of(perf_report@), "hw.perflevel1.logicalcpu"@),
        r.gpu_core_count@ == match first_value(lines_of(gpu_report@), "Total Number of Cores"@) {
            Some(v) => v,
            None => "?"@,
        },
{
    let (name, core_count) = get_cpu_info(cpu_report);
    let (p_core_count, e_core_count) = get_core_count(perf_report);
    SocInfo {
        name,
        core_count,
        e_core_count,
        p_core_count,
        gpu_core_count: get_gpu_cores(gpu_report),
    }
}

} // verus!
