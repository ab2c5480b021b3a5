//! Per-cluster figures of a report: each cluster label met in the report,
//! in order of first appearance, with its latest activity and frequency.

use crate::metrics::{classify, cluster_reading, is_cluster_label, Reading};
use crate::text::{chars_of, lines_of, split_pieces, string_of, views, words_of};
use vstd::prelude::*;

verus! {

/// One cluster: its label (`E0`, `P1`, ...), activity in percent, and
/// frequency in MHz; a figure the report does not give reads zero.
#[derive(Clone, Debug, PartialEq, Eq)]
pub struct Cluster {
    pub label: String,
    pub active: u64,
    pub freq_mhz: u64,
}

/// A row of the table: label, activity, frequency.
pub type Row = (Seq<char>, u64, u64);

/// The label of a cluster word: the word without its `-Cluster` suffix.
pub open spec fn label_of(word: Seq<char>) -> Seq<char> {
    word.subrange(0, word.len() - "-Cluster"@.len())
}

/// Index of the row labelled `label`, or the table's length.
pub open spec fn index_of(t: Seq<Row>, label: Seq<char>) -> int
    decreases t.len(),
{
    if t.len() == 0 {
        0
    } else if t[0].0 == label {
        0
    } else {
        1 + index_of(t.drop_first(), label)
    }
}

/// The table after reading `r` about the cluster labelled `label`.
pub open spec fn upsert(t: Seq<Row>, label: Seq<char>, r: Reading) -> Seq<Row> {
    let i = index_of(t, label);
    let row: Row = if i < t.len() {
        t[i]
    } else {
        (label, 0, 0)
    };
    let next: Row = match r {
        Reading::ClusterActive(_, v) => (row.0, v, row.2),
        Reading::ClusterFreq(_, v) => (row.0, row.1, v),
        _ => row,
    };
    if i < t.len() {
        t.update(i, next)
    } else {
        t.push(next)
    }
}

/// The table after the lines whose words are `ls`.
pub open spec fn table(ls: Seq<Seq<Seq<char>>>) -> Seq<Row>
    decreases ls.len(),
{
    if ls.len() == 0 {
        seq![]
    } else {
        let t = table(ls.drop_last());
        let w = ls.last();
        if w.len() > 0 && is_cluster_label(w[0]) && !(classify(w) is Nothing) {
            upsert(t, label_of(w[0]), classify(w))
        } else {
            t
        }
    }
}

/// The cluster table of a report.
pub open spec fn cluster_table(report: Seq<char>) -> Seq<Row> {
    table(lines_of(report).map_values(|l: Seq<char>| words_of(l)))
}

pub open spec fn row_of(c: Cluster) -> Row {
    (c.label@, c.active, c.freq_mhz)
}

struct Entry {
    label: Vec<char>,
    active: u64,
    freq_mhz: u64,
}

spec fn entry_rows(v: Seq<Entry>) -> Seq<Row> {
    v.map_values(|e: Entry| (e.label@, e.active, e.freq_mhz))
}

fn find_label(v: &Vec<Entry>, label: &Vec<char>) -> (i: usize)
    ensures
        i == index_of(entry_rows(v@), label@),
        i <= v@.len(),
{
    let ghost t = entry_rows(v@);
    assert(t.skip(0) =~= t);
    let mut i: usize = 0;
    while i < v.len()
        invariant
            i <= v@.len(),
            t == entry_rows(v@),
            index_of(t, label@) == i + index_of(t.skip(i as int), label@),
        decreases v@.len() - i,
    {
        assert(t.skip(i as int)[0] == t[i as int]);
        if crate::text::same_chars(&v[i].label, label) {
            return i;
        }
        assert(t.skip(i as int).drop_first() =~= t.skip(i + 1));
        i = i + 1;
    }
    i
}

fn apply(v: &mut Vec<Entry>, label: Vec<char>, r: Reading)
    ensures
        entry_rows(final(v)@) == upsert(entry_rows(old(v)@), label@, r),
{
    let i = find_label(v, &label);
    let ghost t = entry_rows(v@);
    if i < v.len() {
        let (a, f) = match r {
            Reading::ClusterActive(_, x) => (x, v[i].freq_mhz),
            Reading::ClusterFreq(_, x) => (v[i].active, x),
            _ => (v[i].active, v[i].freq_mhz),
        };
        let mut e = v.remove(i);
        e.active = a;
        e.freq_mhz = f;
        v.insert(i, e);
        assert(entry_rows(v@) =~= t.update(i as int, (t[i as int].0, a, f)));
    } else {
        let (a, f) = match r {
            Reading::ClusterActive(_, x) => (x, 0),
            Reading::ClusterFreq(_, x) => (0, x),
            _ => (0, 0),
        };
        let ghost l = label@;
        v.push(Entry { label, active: a, freq_mhz: f });
        assert(entry_rows(v@) =~= t.push((l, a, f)));
    }
}

/// Reads the per-cluster table of a sampler report: one entry per cluster
/// label with a recognised residency or frequency line, in order of first
/// appearance, each holding the last values its lines gave.
pub fn clusters(report: &str) -> (r: Vec<Cluster>)
    ensures
        r@.map_values(|c: Cluster| row_of(c)) == cluster_table(report@),
{
    let chars = chars_of(report);
    let lines = split_pieces(&chars, true);
    let ghost ls = lines_of(report@).map_values(|l: Seq<char>| words_of(l));
    let mut v: Vec<Entry> = Vec::new();
    let mut i: usize = 0;
    assert(ls.take(0) =~= Seq::<Seq<Seq<char>>>::empty());
    while i < lines.len()
        invariant
            i <= lines@.len(),
            views(lines@) == lines_of(report@),
            ls == lines_of(report@).map_values(|l: Seq<char>| words_of(l)),
            entry_rows(v@) == table(ls.take(i as int)),
        decreases lines@.len() - i,
    {
        let words = split_pieces(&lines[i], false);
        let ghost w = views(words@);
        assert(ls[i as int] == w);
        assert(ls.take(i + 1).drop_last() =~= ls.take(i as int));
        if words.len() > 0 && crate::text::ends_with(&words[0], "-Cluster") {
            proof {
                reveal_strlit("-Cluster");
            }
            let r = crate::metrics::classify_words(&words);
            if !matches!(r, Reading::Nothing) {
                let first = &words[0];
                let n = first.len() - 8;
                let mut label: Vec<char> = Vec::new();
                let mut k: usize = 0;
                while k < n
                    invariant
                        k <= n,
                        n + 8 == first@.len(),
                        label@ == first@.take(k as int),
                    decreases n - k,
                {
                    label.push(first[k]);
                    k = k + 1;
                    assert(label@ =~= first@.take(k as int));
                }
                assert(label@ =~= label_of(w[0]));
                apply(&mut v, label, r);
            }
        }
        i = i + 1;
    }
    assert(ls.take(lines@.len() as int) =~= ls);
    let mut out: Vec<Cluster> = Vec::new();
    let mut j: usize = 0;
    while j < v.len()
        invariant
            j <= v@.len(),
            out@.map_values(|c: Cluster| row_of(c)) == entry_rows(v@).take(j as int),
        decreases v@.len() - j,
    {
        let e = &v[j];
        let c = Cluster { label: string_of(&e.label), active: e.active, freq_mhz: e.freq_mhz };
        let ghost row = row_of(c);
        assert(row == entry_rows(v@)[j as int]);
        let ghost prev = out@;
        out.push(c);
        assert(out@.map_values(|c: Cluster| row_of(c)) =~= prev.map_values(|c: Cluster| row_of(c)).push(row));
        j = j + 1;
        assert(out@.map_values(|c: Cluster| row_of(c)) =~= entry_rows(v@).take(j as int));
    }
    assert(entry_rows(v@).take(v@.len() as int) =~= entry_rows(v@));
    out
}

} // verus!
