//! Character-level helpers: splitting a report into lines and words,
//! trimming, and reading decimal numbers.

use vstd::prelude::*;
use vstd::std_specs::iter::IteratorSpec;

verus! {

/// Blanks that separate the words of a line.
pub open spec fn is_blank(c: char) -> bool {
    c == ' ' || c == '\t' || c == '\r'
}

/// Separators: a newline for lines; a blank or a newline for words.
pub open spec fn is_sep(c: char, lines: bool) -> bool {
    if lines {
        c == '\n'
    } else {
        is_blank(c) || c == '\n'
    }
}

/// Scanning state after a prefix: the finished pieces and the current one.
pub open spec fn scan(s: Seq<char>, lines: bool) -> (Seq<Seq<char>>, Seq<char>)
    decreases s.len(),
{
    if s.len() == 0 {
        (seq![], seq![])
    } else {
        let (done, cur) = scan(s.drop_last(), lines);
        let c = s.last();
        if is_sep(c, lines) {
            if cur.len() > 0 {
                (done.push(cur), seq![])
            } else {
                (done, cur)
            }
        } else {
            (done, cur.push(c))
        }
    }
}

/// The maximal non-empty runs of non-separator characters of `s`, in order.
pub open spec fn pieces(s: Seq<char>, lines: bool) -> Seq<Seq<char>> {
    let (done, cur) = scan(s, lines);
    if cur.len() > 0 {
        done.push(cur)
    } else {
        done
    }
}

/// The non-empty lines of a report.
pub open spec fn lines_of(s: Seq<char>) -> Seq<Seq<char>> {
    pieces(s, true)
}

/// The words of a line.
pub open spec fn words_of(s: Seq<char>) -> Seq<Seq<char>> {
    pieces(s, false)
}

pub open spec fn views(v: Seq<Vec<char>>) -> Seq<Seq<char>> {
    v.map_values(|x: Vec<char>| x@)
}

/// The characters of `s`, in order.
pub fn chars_of(s: &str) -> (r: Vec<char>)
    ensures
        r@ == s@,
{
    broadcast use vstd::string::axiom_spec_iter, vstd::string::next_postcondition;

    let mut r: Vec<char> = Vec::new();
    let mut it = s.chars();
    loop
        invariant
            r@ + it.remaining() == s@,
            it.obeys_prophetic_iter_laws(),
        decreases s@.len() - r@.len(),
    {
        match it.next() {
            Some(c) => {
                r.push(c);
            },
            None => {
                assert(r@ =~= s@);
                return r;
            },
        }
    }
}

/// Splits `s` into its non-empty runs of non-separator characters.
pub fn split_pieces(s: &Vec<char>, lines: bool) -> (r: Vec<Vec<char>>)
    ensures
        views(r@) == pieces(s@, lines),
{
    let mut done: Vec<Vec<char>> = Vec::new();
    let mut cur: Vec<char> = Vec::new();
    let mut i: usize = 0;
    while i < s.len()
        invariant
            i <= s@.len(),
            (views(done@), cur@) == scan(s@.take(i as int), lines),
        decreases s@.len() - i,
    {
        let c = s[i];
        assert(s@.take(i + 1).drop_last() =~= s@.take(i as int));
        let sep = if lines {
            c == '\n'
        } else {
            c == ' ' || c == '\t' || c == '\r' || c == '\n'
        };
        if sep {
            if cur.len() > 0 {
                let ghost before = views(done@);
                let piece = cur;
                cur = Vec::new();
                done.push(piece);
                assert(views(done@) =~= before.push(piece@));
            }
        } else {
            cur.push(c);
        }
        i = i + 1;
    }
    assert(s@.take(s@.len() as int) =~= s@);
    if cur.len() > 0 {
        let ghost before = views(done@);
        let ghost last = cur@;
        done.push(cur);
        assert(views(done@) =~= before.push(last));
    }
    done
}

pub open spec fn is_digit(c: char) -> bool {
    '0' <= c && c <= '9'
}

pub open spec fn all_digits(s: Seq<char>) -> bool {
    forall|i: int| 0 <= i < s.len() ==> is_digit(#[trigger] s[i])
}

/// The value of a string of decimal digits.
pub open spec fn digits_value(s: Seq<char>) -> nat
    decreases s.len(),
{
    if s.len() == 0 {
        0
    } else {
        digits_value(s.drop_last()) * 10 + ((s.last() as u32 - '0' as u32) as nat)
    }
}

/// A non-empty run of digits whose value fits in a `u64`.
pub open spec fn uint_value(s: Seq<char>) -> Option<u64> {
    if s.len() > 0 && all_digits(s) && digits_value(s) <= u64::MAX {
        Some(digits_value(s) as u64)
    } else {
        None
    }
}

/// Index of the first `c` in `s`, or its length when there is none.
pub open spec fn first_index(s: Seq<char>, c: char) -> int
    decreases s.len(),
{
    if s.len() == 0 {
        0
    } else if s[0] == c {
        0
    } else {
        1 + first_index(s.drop_first(), c)
    }
}

/// Whole part of a decimal `d+` or `d+.d+`; a fractional part is dropped.
pub open spec fn decimal_value(s: Seq<char>) -> Option<u64> {
    let k = first_index(s, '.');
    if k == s.len() {
        uint_value(s)
    } else if k + 1 < s.len() && all_digits(s.subrange(k + 1, s.len() as int)) {
        uint_value(s.subrange(0, k))
    } else {
        None
    }
}

proof fn lemma_digits_value_grows(s: Seq<char>, i: int)
    requires
        0 <= i <= s.len(),
    ensures
        digits_value(s.take(i)) <= digits_value(s),
    decreases s.len(),
{
    if i < s.len() {
        assert(s.drop_last().take(i) =~= s.take(i));
        lemma_digits_value_grows(s.drop_last(), i);
    } else {
        assert(s.take(i) =~= s);
    }
}

/// Reads `s[a..b]` as an unsigned integer.
pub fn parse_uint(s: &Vec<char>, a: usize, b: usize) -> (r: Option<u64>)
    requires
        a <= b <= s@.len(),
    ensures
        r == uint_value(s@.subrange(a as int, b as int)),
{
    let ghost t = s@.subrange(a as int, b as int);
    if a == b {
        return None;
    }
    let mut v: u64 = 0;
    let mut i: usize = a;
    while i < b
        invariant
            a <= i <= b <= s@.len(),
            t == s@.subrange(a as int, b as int),
            all_digits(t.take(i - a)),
            v as nat == digits_value(t.take(i - a)),
        decreases b - i,
    {
        let c = s[i];
        assert(t.take(i - a + 1).drop_last() =~= t.take(i - a));
        if !('0' <= c && c <= '9') {
            assert(!is_digit(t[i - a]));
            return None;
        }
        let d = (c as u32 - '0' as u32) as u64;
        if v > (u64::MAX - d) / 10 {
            proof {
                lemma_digits_value_grows(t, i - a + 1);
            }
            return None;
        }
        v = v * 10 + d;
        i = i + 1;
        assert(all_digits(t.take(i - a))) by {
            assert forall|j: int| 0 <= j < i - a implies is_digit(#[trigger] t.take(i - a)[j]) by {
                if j < i - a - 1 {
                    assert(t.take(i - a)[j] == t.take(i - a - 1)[j]);
                }
            }
        }
    }
    assert(t.take(b - a) =~= t);
    Some(v)
}

/// First index of `c` in `s[a..b]`, or `b` when there is none.
pub fn find_char(s: &Vec<char>, a: usize, b: usize, c: char) -> (k: usize)
    requires
        a <= b <= s@.len(),
    ensures
        a <= k <= b,
        k - a == first_index(s@.subrange(a as int, b as int), c),
{
    let mut i: usize = a;
    while i < b
        invariant
            a <= i <= b <= s@.len(),
            first_index(s@.subrange(a as int, b as int), c) == (i - a) + first_index(
                s@.subrange(i as int, b as int),
                c,
            ),
        decreases b - i,
    {
        if s[i] == c {
            return i;
        }
        assert(s@.subrange(i as int, b as int).drop_first() =~= s@.subrange(i + 1, b as int));
        i = i + 1;
    }
    i
}

/// Checks that `s[a..b]` holds digits only.
pub fn only_digits(s: &Vec<char>, a: usize, b: usize) -> (r: bool)
    requires
        a <= b <= s@.len(),
    ensures
        r == all_digits(s@.subrange(a as int, b as int)),
{
    let mut i: usize = a;
    while i < b
        invariant
            a <= i <= b <= s@.len(),
            forall|j: int| a <= j < i ==> is_digit(#[trigger] s@[j]),
        decreases b - i,
    {
        let c = s[i];
        if !('0' <= c && c <= '9') {
            assert(!is_digit(s@.subrange(a as int, b as int)[i - a]));
            return false;
        }
        i = i + 1;
    }
    assert forall|j: int| 0 <= j < b - a implies is_digit(#[trigger] s@.subrange(a as int, b as int)[j]) by {
        assert(is_digit(s@[a + j]));
    }
    true
}

/// Reads the whole part of the decimal `s[a..b]`.
pub fn parse_decimal(s: &Vec<char>, a: usize, b: usize) -> (r: Option<u64>)
    requires
        a <= b <= s@.len(),
    ensures
        r == decimal_value(s@.subrange(a as int, b as int)),
{
    let ghost t = s@.subrange(a as int, b as int);
    let k = find_char(s, a, b, '.');
    if k == b {
        parse_uint(s, a, b)
    } else if k + 1 < b && only_digits(s, k + 1, b) {
        assert(s@.subrange(k + 1, b as int) =~= t.subrange(k - a + 1, t.len() as int));
        assert(s@.subrange(a as int, k as int) =~= t.subrange(0, k - a));
        parse_uint(s, a, k)
    } else {
        proof {
            if k + 1 < b {
                assert(s@.subrange(k + 1, b as int) =~= t.subrange(k - a + 1, t.len() as int));
            }
        }
        None
    }
}

/// Checks two character strings for equality.
pub fn same_chars(a: &Vec<char>, b: &Vec<char>) -> (r: bool)
    ensures
        r == (a@ == b@),
{
    if a.len() != b.len() {
        return false;
    }
    let mut i: usize = 0;
    while i < a.len()
        invariant
            a@.len() == b@.len(),
            i <= a@.len(),
            forall|j: int| 0 <= j < i ==> a@[j] == b@[j],
        decreases a@.len() - i,
    {
        if a[i] != b[i] {
            return false;
        }
        i = i + 1;
    }
    assert(a@ =~= b@);
    true
}

/// Checks whether `words[i]` exists and reads `lit`.
pub fn word_is(words: &Vec<Vec<char>>, i: usize, lit: &str) -> (r: bool)
    ensures
        r == (i < words@.len() && words@[i as int]@ == lit@),
{
    if i >= words.len() {
        return false;
    }
    let l = chars_of(lit);
    same_chars(&words[i], &l)
}

/// Checks whether `w` ends with `suffix`.
pub fn ends_with(w: &Vec<char>, suffix: &str) -> (r: bool)
    ensures
        r == (w@.len() >= suffix@.len() && w@.subrange(w@.len() - suffix@.len(), w@.len() as int)
            == suffix@),
{
    let x = chars_of(suffix);
    if w.len() < x.len() {
        return false;
    }
    let off = w.len() - x.len();
    let mut i: usize = 0;
    while i < x.len()
        invariant
            x@ == suffix@,
            off + x@.len() == w@.len(),
            off + x.len() == w.len(),
            i <= x@.len(),
            forall|j: int| 0 <= j < i ==> w@[off + j] == x@[j],
        decreases x@.len() - i,
    {
        let k: usize = off + i;
        if w[k] != x[i] {
            assert(w@.subrange(off as int, w@.len() as int)[i as int] != x@[i as int]);
            return false;
        }
        i = i + 1;
    }
    assert(w@.subrange(off as int, w@.len() as int) =~= x@);
    true
}

pub open spec fn trim_start(s: Seq<char>) -> Seq<char>
    decreases s.len(),
{
    if s.len() > 0 && is_blank(s[0]) {
        trim_start(s.drop_first())
    } else {
        s
    }
}

pub open spec fn trim_end(s: Seq<char>) -> Seq<char>
    decreases s.len(),
{
    if s.len() > 0 && is_blank(s.last()) {
        trim_end(s.drop_last())
    } else {
        s
    }
}

/// `s` without its leading and trailing blanks.
pub open spec fn trim(s: Seq<char>) -> Seq<char> {
    trim_end(trim_start(s))
}

/// Copies `s[a..b]` without its leading and trailing blanks.
pub fn trimmed(s: &Vec<char>, a: usize, b: usize) -> (r: Vec<char>)
    requires
        a <= b <= s@.len(),
    ensures
        r@ == trim(s@.subrange(a as int, b as int)),
{
    let mut i: usize = a;
    while i < b && (s[i] == ' ' || s[i] == '\t' || s[i] == '\r')
        invariant
            a <= i <= b <= s@.len(),
            trim_start(s@.subrange(a as int, b as int)) == trim_start(
                s@.subrange(i as int, b as int),
            ),
        decreases b - i,
    {
        assert(s@.subrange(i as int, b as int).drop_first() =~= s@.subrange(i + 1, b as int));
        i = i + 1;
    }
    let mut j: usize = b;
    while j > i && (s[j - 1] == ' ' || s[j - 1] == '\t' || s[j - 1] == '\r')
        invariant
            a <= i <= j <= b <= s@.len(),
            trim_start(s@.subrange(a as int, b as int)) == s@.subrange(i as int, b as int),
            trim_end(s@.subrange(i as int, b as int)) == trim_end(s@.subrange(i as int, j as int)),
        decreases j - i,
    {
        assert(s@.subrange(i as int, j as int).drop_last() =~= s@.subrange(i as int, j - 1));
        j = j - 1;
    }
    let mut r: Vec<char> = Vec::new();
    let mut k: usize = i;
    while k < j
        invariant
            i <= k <= j <= s@.len(),
            r@ == s@.subrange(i as int, k as int),
        decreases j - k,
    {
        r.push(s[k]);
        k = k + 1;
        assert(r@ =~= s@.subrange(i as int, k as int));
    }
    r
}

/// Relies on `String`'s `FromIterator<char>`: the string holds exactly the
/// given characters, in order.
#[verifier::external_body]
pub(crate) fn string_of(chars: &Vec<char>) -> (r: String)
    ensures
        r@ == chars@,
{
    chars.iter().collect()
}

pub open spec fn digit_of(c: char) -> nat {
    (c as u32 - '0' as u32) as nat
}

/// Hundredths carried by a fraction's digits: its first two, padded with zero.
pub open spec fn fraction_centi(f: Seq<char>) -> nat {
    if f.len() == 0 {
        0
    } else if f.len() == 1 {
        digit_of(f[0]) * 10
    } else {
        digit_of(f[0]) * 10 + digit_of(f[1])
    }
}

/// A decimal `d+` or `d+.d+` in hundredths, digits past the second decimal
/// dropped; `None` when malformed or when it does not fit in a `u64`.
pub open spec fn decimal_centi(s: Seq<char>) -> Option<u64> {
    let k = first_index(s, '.');
    let whole = if k == s.len() {
        uint_value(s)
    } else if k + 1 < s.len() && all_digits(s.subrange(k + 1, s.len() as int)) {
        uint_value(s.subrange(0, k))
    } else {
        None
    };
    let frac = if k == s.len() {
        0
    } else {
        fraction_centi(s.subrange(k + 1, s.len() as int))
    };
    match whole {
        Some(v) => if v * 100 + frac <= u64::MAX {
            Some((v * 100 + frac) as u64)
        } else {
            None
        },
        None => None,
    }
}

/// Reads the decimal `s[a..b]` in hundredths.
pub fn parse_decimal_centi(s: &Vec<char>, a: usize, b: usize) -> (r: Option<u64>)
    requires
        a <= b <= s@.len(),
    ensures
        r == decimal_centi(s@.subrange(a as int, b as int)),
{
    let ghost t = s@.subrange(a as int, b as int);
    let k = find_char(s, a, b, '.');
    let whole: Option<u64>;
    let mut frac: u64 = 0;
    if k == b {
        whole = parse_uint(s, a, b);
    } else if k + 1 < b && only_digits(s, k + 1, b) {
        let ghost f = s@.subrange(k + 1, b as int);
        assert(f =~= t.subrange(k - a + 1, t.len() as int));
        assert(s@.subrange(a as int, k as int) =~= t.subrange(0, k - a));
        assert(is_digit(f[0]));
        frac = (s[k + 1] as u32 - '0' as u32) as u64 * 10;
        if k + 2 < b {
            assert(is_digit(f[1]));
            frac = frac + (s[k + 2] as u32 - '0' as u32) as u64;
        }
        assert(frac == fraction_centi(f));
        whole = parse_uint(s, a, k);
    } else {
        proof {
            if k + 1 < b {
                assert(s@.subrange(k + 1, b as int) =~= t.subrange(k - a + 1, t.len() as int));
            }
        }
        return None;
    }
    match whole {
        Some(v) => {
            if v > (u64::MAX - frac) / 100 {
                assert(v * 100 + frac > u64::MAX) by (nonlinear_arith)
                    requires
                        v > (u64::MAX - frac) / 100,
                        frac <= 99,
                ;
                None
            } else {
                assert(v * 100 + frac <= u64::MAX) by (nonlinear_arith)
                    requires
                        v <= (u64::MAX - frac) / 100,
                        frac <= 99,
                ;
                Some(v * 100 + frac)
            }
        },
        None => None,
    }
}

/// Whether `key` occurs in `s` at index `i`.
pub open spec fn occurs_at(s: Seq<char>, key: Seq<char>, i: int) -> bool {
    0 <= i && i + key.len() <= s.len() && s.subrange(i, i + key.len()) == key
}

/// Whether `key` occurs anywhere in `s`.
pub open spec fn contains(s: Seq<char>, key: Seq<char>) -> bool {
    exists|i: int| occurs_at(s, key, i)
}

/// Checks whether `key` occurs in `s`.
pub fn contains_chars(s: &Vec<char>, key: &Vec<char>) -> (r: bool)
    ensures
        r == contains(s@, key@),
{
    if key.len() > s.len() {
        assert(forall|i: int| !occurs_at(s@, key@, i));
        return false;
    }
    let last = s.len() - key.len();
    let mut i: usize = 0;
    while i <= last
        invariant
            last + key@.len() == s@.len(),
            forall|j: int| 0 <= j < i ==> !occurs_at(s@, key@, j),
        decreases last + 1 - i,
    {
        let mut k: usize = 0;
        let mut same = true;
        while k < key.len()
            invariant
                i <= last,
                last + key@.len() == s@.len(),
                last + key.len() == s.len(),
                k <= key@.len(),
                same == forall|j: int| 0 <= j < k ==> s@[i + j] == key@[j],
            decreases key@.len() - k,
        {
            let c: usize = i + k;
            if s[c] != key[k] {
                same = false;
            }
            k = k + 1;
        }
        if same {
            assert(s@.subrange(i as int, i + key@.len()) =~= key@);
            assert(occurs_at(s@, key@, i as int));
            return true;
        }
        assert(s@.subrange(i as int, i + key@.len()) != key@) by {
            let j = choose|j: int| 0 <= j < key@.len() && s@[i + j] != key@[j];
            assert(s@.subrange(i as int, i + key@.len())[j] != key@[j]);
        }
        if i == last {
            assert forall|j: int| !occurs_at(s@, key@, j) by {
                if occurs_at(s@, key@, j) {
                    assert(0 <= j <= i);
                }
            }
            return false;
        }
        i = i + 1;
    }
    false
}

} // verus!
