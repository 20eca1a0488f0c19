//! Text: decimal numerals, white space, and cutting text at a separator.
use vstd::prelude::*;

verus! {

/// The character of a decimal digit.
pub open spec fn digit_char(d: nat) -> char
    recommends
        d < 10,
{
    if d == 0 { '0' } else if d == 1 { '1' } else if d == 2 { '2' } else if d == 3 { '3' }
    else if d == 4 { '4' } else if d == 5 { '5' } else if d == 6 { '6' } else if d == 7 { '7' }
    else if d == 8 { '8' } else { '9' }
}

/// The decimal numeral of `n`, without sign or leading zeros.
pub open spec fn decimal(n: nat) -> Seq<char>
    decreases n,
{
    if n < 10 {
        seq![digit_char(n)]
    } else {
        decimal(n / 10).push(digit_char(n % 10))
    }
}

fn digit_text(d: u64) -> (s: &'static str)
    requires
        d < 10,
    ensures
        s@ == seq![digit_char(d as nat)],
{
    proof {
        reveal_strlit("0");
        reveal_strlit("1");
        reveal_strlit("2");
        reveal_strlit("3");
        reveal_strlit("4");
        reveal_strlit("5");
        reveal_strlit("6");
        reveal_strlit("7");
        reveal_strlit("8");
        reveal_strlit("9");
    }
    let s = if d == 0 { "0" } else if d == 1 { "1" } else if d == 2 { "2" } else if d == 3 { "3" }
    else if d == 4 { "4" } else if d == 5 { "5" } else if d == 6 { "6" } else if d == 7 { "7" }
    else if d == 8 { "8" } else { "9" };
    assert(s@ =~= seq![digit_char(d as nat)]);
    s
}

/// The decimal numeral of `n`, as `to_string` writes it.
pub fn decimal_text(n: u64) -> (s: String)
    ensures
        s@ == decimal(n as nat),
    decreases n,
{
    if n < 10 {
        String::from_str(digit_text(n))
    } else {
        let mut s = decimal_text(n / 10);
        s.append(digit_text(n % 10));
        assert(s@ =~= decimal(n as nat));
        s
    }
}

/// White space as `char::is_whitespace` knows it (the Unicode `White_Space` property).
pub open spec fn is_white(c: char) -> bool {
    let n: u32 = c as u32;
    (0x09 <= n && n <= 0x0d) || n == 0x20 || n == 0x85 || n == 0xa0 || n == 0x1680 || (0x2000 <= n
        && n <= 0x200a) || n == 0x2028 || n == 0x2029 || n == 0x202f || n == 0x205f || n == 0x3000
}

/// `s` without its leading white space.
pub open spec fn trim_start(s: Seq<char>) -> Seq<char>
    decreases s.len(),
{
    if s.len() > 0 && is_white(s[0]) { trim_start(s.drop_first()) } else { s }
}

/// `s` without its trailing white space.
pub open spec fn trim_end(s: Seq<char>) -> Seq<char>
    decreases s.len(),
{
    if s.len() > 0 && is_white(s.last()) { trim_end(s.drop_last()) } else { s }
}

/// `s` without leading and trailing white space.
pub open spec fn trim(s: Seq<char>) -> Seq<char> {
    trim_end(trim_start(s))
}

/// `sep` occurs in `s` at position `i`.
pub open spec fn matches_at(s: Seq<char>, sep: Seq<char>, i: int) -> bool {
    0 <= i && i + sep.len() <= s.len() && s.subrange(i, i + sep.len()) == sep
}

/// The leftmost occurrence of `sep` in `s` at or after `i`.
pub open spec fn find_from(s: Seq<char>, sep: Seq<char>, i: int) -> Option<int>
    decreases s.len() + 1 - i,
{
    if i < 0 || i + sep.len() > s.len() {
        None
    } else if matches_at(s, sep, i) {
        Some(i)
    } else {
        find_from(s, sep, i + 1)
    }
}

/// An occurrence found from `i` lies at or after `i`, inside `s`.
pub proof fn lemma_find_from_bounds(s: Seq<char>, sep: Seq<char>, i: int)
    ensures
        find_from(s, sep, i) matches Some(j) ==> i <= j && j + sep.len() <= s.len() && matches_at(s, sep, j),
    decreases s.len() + 1 - i,
{
    if !(i < 0 || i + sep.len() > s.len()) && !matches_at(s, sep, i) {
        lemma_find_from_bounds(s, sep, i + 1);
    }
}

/// The pieces of `s` from position `i` on, cut at each leftmost occurrence of
/// the non-empty `sep`, as `str::split` cuts them.
pub open spec fn split_from(s: Seq<char>, sep: Seq<char>, i: int) -> Seq<Seq<char>>
    decreases s.len() - i,
{
    if sep.len() == 0 || i < 0 || i > s.len() {
        seq![s.subrange(i, s.len() as int)]
    } else {
        match find_from(s, sep, i) {
            None => seq![s.subrange(i, s.len() as int)],
            Some(j) => {
                proof {
                    lemma_find_from_bounds(s, sep, i);
                }
                seq![s.subrange(i, j)] + split_from(s, sep, j + sep.len())
            },
        }
    }
}

/// The pieces of `s` cut at each occurrence of `sep`.
pub open spec fn split(s: Seq<char>, sep: Seq<char>) -> Seq<Seq<char>> {
    split_from(s, sep, 0)
}

/// Occurrences found from a position inside a suffix are those of the suffix, shifted.
pub proof fn lemma_find_from_shift(a: Seq<char>, b: Seq<char>, sep: Seq<char>, j: int)
    requires
        j >= 0,
    ensures
        find_from(a + b, sep, a.len() + j) == match find_from(b, sep, j) {
            Some(k) => Some(a.len() + k),
            None => None::<int>,
        },
    decreases b.len() + 1 - j,
{
    let s = a + b;
    let i: int = a.len() + j;
    if !(i + sep.len() > s.len()) {
        assert(s.subrange(i, i + sep.len()) =~= b.subrange(j, j + sep.len()));
        if !matches_at(s, sep, i) {
            lemma_find_from_shift(a, b, sep, j + 1);
        }
    }
}

/// Cutting from a position inside a suffix cuts the suffix alone.
pub proof fn lemma_split_from_shift(a: Seq<char>, b: Seq<char>, sep: Seq<char>, j: int)
    requires
        0 <= j <= b.len(),
        sep.len() > 0,
    ensures
        split_from(a + b, sep, a.len() + j) == split_from(b, sep, j),
    decreases b.len() - j,
{
    let s = a + b;
    let i: int = a.len() + j;
    lemma_find_from_shift(a, b, sep, j);
    lemma_find_from_bounds(b, sep, j);
    assert(s.subrange(i, s.len() as int) =~= b.subrange(j, b.len() as int));
    match find_from(b, sep, j) {
        None => {},
        Some(k) => {
            assert(s.subrange(i, a.len() + k) =~= b.subrange(j, k));
            lemma_split_from_shift(a, b, sep, k + sep.len());
            assert(a.len() + k + sep.len() == a.len() + (k + sep.len()));
        },
    }
}

/// With no character of `s` from `i` up to `p` starting the separator, and the
/// separator at `p`, the next occurrence from `i` is at `p`.
pub proof fn lemma_find_from_first(s: Seq<char>, sep: Seq<char>, i: int, p: int)
    requires
        sep.len() > 0,
        0 <= i <= p,
        matches_at(s, sep, p),
        forall|t: int| i <= t < p ==> s[t] != sep[0],
    ensures
        find_from(s, sep, i) == Some(p),
    decreases p - i,
{
    if i < p {
        assert(s.subrange(i, i + sep.len())[0] == s[i]);
        lemma_find_from_first(s, sep, i + 1, p);
    }
}

/// With no character of `s` from `i` on starting the separator, there is no
/// further occurrence.
pub proof fn lemma_find_from_none(s: Seq<char>, sep: Seq<char>, i: int)
    requires
        sep.len() > 0,
        0 <= i,
        forall|t: int| i <= t < s.len() ==> s[t] != sep[0],
    ensures
        find_from(s, sep, i) == None::<int>,
    decreases s.len() + 1 - i,
{
    if !(i + sep.len() > s.len()) {
        assert(s.subrange(i, i + sep.len())[0] == s[i]);
        lemma_find_from_none(s, sep, i + 1);
    }
}

/// Text in which no character starts the separator is one piece.
pub proof fn lemma_split_single(s: Seq<char>, sep: Seq<char>)
    requires
        sep.len() > 0,
        forall|t: int| 0 <= t < s.len() ==> s[t] != sep[0],
    ensures
        split(s, sep) == seq![s],
{
    lemma_find_from_none(s, sep, 0);
    assert(s.subrange(0, s.len() as int) =~= s);
}

/// A piece in which no character starts the separator, then the separator, then
/// the rest: the piece is cut off first.
pub proof fn lemma_split_prefix(p: Seq<char>, sep: Seq<char>, rest: Seq<char>)
    requires
        sep.len() > 0,
        forall|t: int| 0 <= t < p.len() ==> p[t] != sep[0],
    ensures
        split(p + sep + rest, sep) == seq![p] + split(rest, sep),
{
    let s = p + sep + rest;
    assert(s.subrange(p.len() as int, (p.len() + sep.len()) as int) =~= sep);
    assert forall|t: int| 0 <= t < p.len() implies s[t] != sep[0] by {
        assert(s[t] == p[t]);
    }
    lemma_find_from_first(s, sep, 0, p.len() as int);
    assert(s.subrange(0, p.len() as int) =~= p);
    assert(s =~= (p + sep) + rest);
    lemma_split_from_shift(p + sep, rest, sep, 0);
}

/// With no occurrence of the separator from `i` up to `p`, and one at `p`, the
/// next occurrence from `i` is at `p`.
pub proof fn lemma_find_from_next(s: Seq<char>, sep: Seq<char>, i: int, p: int)
    requires
        0 <= i <= p,
        matches_at(s, sep, p),
        forall|t: int| i <= t < p ==> !#[trigger] matches_at(s, sep, t),
    ensures
        find_from(s, sep, i) == Some(p),
    decreases p - i,
{
    if i < p {
        assert(!matches_at(s, sep, i));
        lemma_find_from_next(s, sep, i + 1, p);
    }
}

/// Text in which the separator occurs nowhere before the text's end, then the
/// separator, then the rest: the text is cut off first.
pub proof fn lemma_split_prefix_free(p: Seq<char>, sep: Seq<char>, rest: Seq<char>)
    requires
        sep.len() > 0,
        forall|t: int| 0 <= t < p.len() ==> !#[trigger] matches_at(p + sep + rest, sep, t),
    ensures
        split(p + sep + rest, sep) == seq![p] + split(rest, sep),
{
    let s = p + sep + rest;
    assert(s.subrange(p.len() as int, (p.len() + sep.len()) as int) =~= sep);
    lemma_find_from_next(s, sep, 0, p.len() as int);
    assert(s.subrange(0, p.len() as int) =~= p);
    assert(s =~= (p + sep) + rest);
    lemma_split_from_shift(p + sep, rest, sep, 0);
}

/// `sep` occurs nowhere in `s`.
pub open spec fn free_of(s: Seq<char>, sep: Seq<char>) -> bool {
    forall|t: int| !#[trigger] matches_at(s, sep, t)
}

/// An occurrence in a part of `s` is an occurrence in `s`, shifted.
pub proof fn lemma_matches_in_subrange(s: Seq<char>, sep: Seq<char>, a: int, b: int, t: int)
    requires
        0 <= a <= b <= s.len(),
        matches_at(s.subrange(a, b), sep, t),
    ensures
        matches_at(s, sep, a + t),
{
    assert(s.subrange(a, b).subrange(t, t + sep.len()) =~= s.subrange(a + t, a + t + sep.len()));
}

/// A part of text free of `sep` is free of it.
pub proof fn lemma_free_subrange(s: Seq<char>, sep: Seq<char>, a: int, b: int)
    requires
        0 <= a <= b <= s.len(),
        free_of(s, sep),
    ensures
        free_of(s.subrange(a, b), sep),
{
    assert forall|t: int| !#[trigger] matches_at(s.subrange(a, b), sep, t) by {
        if matches_at(s.subrange(a, b), sep, t) {
            lemma_matches_in_subrange(s, sep, a, b, t);
        }
    }
}

/// Between `i` and the occurrence found from `i` there is none; when none is
/// found, there is none from `i` on.
pub proof fn lemma_find_from_gap(s: Seq<char>, sep: Seq<char>, i: int)
    requires
        0 <= i,
    ensures
        find_from(s, sep, i) matches Some(j) ==> forall|t: int| i <= t < j ==> !#[trigger] matches_at(s, sep, t),
        find_from(s, sep, i) is None ==> forall|t: int| i <= t ==> !#[trigger] matches_at(s, sep, t),
    decreases s.len() + 1 - i,
{
    if !(i + sep.len() > s.len()) && !matches_at(s, sep, i) {
        lemma_find_from_gap(s, sep, i + 1);
    }
}

/// Each piece cut at `sep` is a part of the text and holds no `sep`.
pub proof fn lemma_split_from_pieces(s: Seq<char>, sep: Seq<char>, i: int)
    requires
        sep.len() > 0,
        0 <= i <= s.len(),
    ensures
        forall|k: int| 0 <= k < split_from(s, sep, i).len() ==> free_of(#[trigger] split_from(s, sep, i)[k], sep)
            && exists|a: int, b: int| 0 <= a <= b <= s.len() && split_from(s, sep, i)[k] == s.subrange(a, b),
    decreases s.len() - i,
{
    let p = split_from(s, sep, i);
    lemma_find_from_gap(s, sep, i);
    lemma_find_from_bounds(s, sep, i);
    match find_from(s, sep, i) {
        None => {
            let piece = s.subrange(i, s.len() as int);
            assert forall|t: int| !#[trigger] matches_at(piece, sep, t) by {
                if matches_at(piece, sep, t) {
                    lemma_matches_in_subrange(s, sep, i, s.len() as int, t);
                }
            }
            assert(p[0] == s.subrange(i, s.len() as int));
        },
        Some(j) => {
            let piece = s.subrange(i, j);
            assert forall|t: int| !#[trigger] matches_at(piece, sep, t) by {
                if matches_at(piece, sep, t) {
                    lemma_matches_in_subrange(s, sep, i, j, t);
                }
            }
            lemma_split_from_pieces(s, sep, j + sep.len());
            let rest = split_from(s, sep, j + sep.len());
            assert(p == seq![piece] + rest);
            assert forall|k: int| 0 <= k < p.len() implies free_of(#[trigger] p[k], sep) && exists|a: int, b: int|
                0 <= a <= b <= s.len() && p[k] == s.subrange(a, b) by {
                if k == 0 {
                    assert(p[0] == s.subrange(i, j));
                } else {
                    assert(p[k] == rest[k - 1]);
                }
            }
        },
    }
}

/// Trimming the start drops exactly the leading white space.
pub proof fn lemma_trim_start_range(x: Seq<char>) -> (a: int)
    ensures
        0 <= a <= x.len(),
        trim_start(x) == x.subrange(a, x.len() as int),
        a < x.len() ==> !is_white(x[a]),
        forall|j: int| 0 <= j < a ==> is_white(#[trigger] x[j]),
    decreases x.len(),
{
    if x.len() > 0 && is_white(x[0]) {
        let a0 = lemma_trim_start_range(x.drop_first());
        assert(x.drop_first().subrange(a0, x.len() - 1) =~= x.subrange(a0 + 1, x.len() as int));
        assert forall|j: int| 0 <= j < a0 + 1 implies is_white(#[trigger] x[j]) by {
            if j > 0 {
                assert(x[j] == x.drop_first()[j - 1]);
            }
        }
        a0 + 1
    } else {
        assert(x.subrange(0, x.len() as int) =~= x);
        0
    }
}

/// Trimming the end drops exactly the trailing white space.
pub proof fn lemma_trim_end_range(x: Seq<char>) -> (b: int)
    ensures
        0 <= b <= x.len(),
        trim_end(x) == x.subrange(0, b),
        b > 0 ==> !is_white(x[b - 1]),
        forall|j: int| b <= j < x.len() ==> is_white(#[trigger] x[j]),
    decreases x.len(),
{
    if x.len() > 0 && is_white(x.last()) {
        let b0 = lemma_trim_end_range(x.drop_last());
        assert(x.drop_last().subrange(0, b0) =~= x.subrange(0, b0));
        assert forall|j: int| b0 <= j < x.len() implies is_white(#[trigger] x[j]) by {
            if j < x.len() - 1 {
                assert(x[j] == x.drop_last()[j]);
            }
        }
        b0
    } else {
        assert(x.subrange(0, x.len() as int) =~= x);
        x.len() as int
    }
}

/// Trimmed text is a part of the text, neither starting nor ending with white space.
pub proof fn lemma_trim_range(x: Seq<char>) -> (r: (int, int))
    ensures
        0 <= r.0 <= r.1 <= x.len(),
        trim(x) == x.subrange(r.0, r.1),
        trim(x).len() > 0 ==> !is_white(trim(x)[0]) && !is_white(trim(x).last()),
        forall|j: int| 0 <= j < r.0 ==> is_white(#[trigger] x[j]),
        forall|j: int| r.1 <= j < x.len() ==> is_white(#[trigger] x[j]),
{
    let a = lemma_trim_start_range(x);
    let y = trim_start(x);
    let b = lemma_trim_end_range(y);
    assert(y.subrange(0, b) =~= x.subrange(a, a + b));
    if b > 0 {
        assert(trim(x)[0] == y[0]);
        assert(y[0] == x[a]);
        assert(trim(x).last() == y[b - 1]);
    }
    assert forall|j: int| a + b <= j < x.len() implies is_white(#[trigger] x[j]) by {
        assert(x[j] == y[j - a]);
    }
    (a, a + b)
}

/// Trimming twice is trimming once.
pub proof fn lemma_trim_idempotent(x: Seq<char>)
    ensures
        trim(trim(x)) == trim(x),
{
    let _ = lemma_trim_range(x);
    let z = trim(x);
    if z.len() > 0 {
        assert(trim_start(z) == z);
        assert(trim_end(z) == z);
    } else {
        assert(trim_start(z) == z);
        assert(trim_end(z) == z);
    }
}

/// Text holding a character that is not white space is not blank once trimmed.
pub proof fn lemma_trim_keeps_solid(x: Seq<char>, j: int)
    requires
        0 <= j < x.len(),
        !is_white(x[j]),
    ensures
        trim(x).len() > 0,
{
    let r = lemma_trim_range(x);
    assert(r.0 <= j < r.1);
}

/// The characters of `s`.
pub(crate) fn chars_of(s: &str) -> (v: Vec<char>)
    ensures
        v@ == s@,
{
    let n: usize = s.unicode_len();
    let mut v: Vec<char> = Vec::new();
    let mut i: usize = 0;
    while i < n
        invariant
            n == s@.len(),
            i <= n,
            v@ == s@.take(i as int),
        decreases n - i,
    {
        v.push(s.get_char(i));
        assert(s@.take(i + 1) =~= s@.take(i as int).push(s@[i as int]));
        i = i + 1;
    }
    assert(s@.take(n as int) =~= s@);
    v
}

/// Whether `sep` occurs in `s` at `k`.
pub(crate) fn matches_here(s: &Vec<char>, sep: &Vec<char>, k: usize) -> (b: bool)
    requires
        k + sep@.len() <= s@.len(),
    ensures
        b == matches_at(s@, sep@, k as int),
{
    let n: usize = s.len();
    let mut j: usize = 0;
    while j < sep.len()
        invariant
            n == s@.len(),
            k + sep@.len() <= s@.len(),
            j <= sep@.len(),
            forall|t: int| 0 <= t < j ==> s@[k + t] == sep@[t],
        decreases sep@.len() - j,
    {
        if s[k + j] != sep[j] {
            assert(s@.subrange(k as int, k + sep@.len())[j as int] != sep@[j as int]);
            return false;
        }
        j = j + 1;
    }
    assert(s@.subrange(k as int, k + sep@.len()) =~= sep@);
    true
}

/// The pieces of `s` cut at `sep`, as index ranges into `s`.
pub(crate) fn split_ranges(s: &Vec<char>, sep: &Vec<char>) -> (r: Vec<(usize, usize)>)
    requires
        sep@.len() > 0,
    ensures
        r@.len() == split(s@, sep@).len(),
        forall|i: int| 0 <= i < r@.len() ==> (#[trigger] r@[i]).0 <= r@[i].1 <= s@.len(),
        forall|i: int| 0 <= i < r@.len() ==> #[trigger] s@.subrange(r@[i].0 as int, r@[i].1 as int) == split(s@, sep@)[i],
{
    let n: usize = s.len();
    let m: usize = sep.len();
    let ghost total = split(s@, sep@);
    let mut out: Vec<(usize, usize)> = Vec::new();
    let mut start: usize = 0;
    let mut k: usize = 0;
    while m <= n - k
        invariant
            n == s@.len(),
            m == sep@.len(),
            m > 0,
            total == split(s@, sep@),
            start <= k <= n,
            find_from(s@, sep@, start as int) == find_from(s@, sep@, k as int),
            forall|i: int| 0 <= i < out@.len() ==> (#[trigger] out@[i]).0 <= out@[i].1 <= n,
            out@.map_values(|r: (usize, usize)| s@.subrange(r.0 as int, r.1 as int)) + split_from(
                s@,
                sep@,
                start as int,
            ) == total,
        decreases n - k,
    {
        let ghost before = out@.map_values(|r: (usize, usize)| s@.subrange(r.0 as int, r.1 as int));
        if matches_here(s, sep, k) {
            assert(find_from(s@, sep@, k as int) == Some(k as int));
            out.push((start, k));
            assert(out@.map_values(|r: (usize, usize)| s@.subrange(r.0 as int, r.1 as int)) + split_from(
                s@,
                sep@,
                (k + m) as int,
            ) =~= before + split_from(s@, sep@, start as int));
            start = k + m;
            k = start;
        } else {
            k = k + 1;
        }
    }
    let ghost before = out@.map_values(|r: (usize, usize)| s@.subrange(r.0 as int, r.1 as int));
    assert(find_from(s@, sep@, k as int) == None::<int>);
    out.push((start, n));
    assert(out@.map_values(|r: (usize, usize)| s@.subrange(r.0 as int, r.1 as int)) =~= before + split_from(
        s@,
        sep@,
        start as int,
    ));
    let ghost fin = out@.map_values(|r: (usize, usize)| s@.subrange(r.0 as int, r.1 as int));
    assert(fin == total);
    assert forall|i: int| 0 <= i < out@.len() implies #[trigger] s@.subrange(out@[i].0 as int, out@[i].1 as int)
        == split(s@, sep@)[i] by {
        assert(fin[i] == s@.subrange(out@[i].0 as int, out@[i].1 as int));
    }
    out
}

/// Whether `c` is white space.
pub(crate) fn is_white_char(c: char) -> (b: bool)
    ensures
        b == is_white(c),
{
    let n: u32 = c as u32;
    (0x09 <= n && n <= 0x0d) || n == 0x20 || n == 0x85 || n == 0xa0 || n == 0x1680 || (0x2000 <= n
        && n <= 0x200a) || n == 0x2028 || n == 0x2029 || n == 0x202f || n == 0x205f || n == 0x3000
}

/// The range of `s[a..b]` without its leading and trailing white space.
pub(crate) fn trim_range(s: &Vec<char>, a: usize, b: usize) -> (r: (usize, usize))
    requires
        a <= b <= s@.len(),
    ensures
        a <= r.0 <= r.1 <= b,
        s@.subrange(r.0 as int, r.1 as int) == trim(s@.subrange(a as int, b as int)),
{
    let mut lo: usize = a;
    while lo < b && is_white_char(s[lo])
        invariant
            a <= lo <= b <= s@.len(),
            trim_start(s@.subrange(a as int, b as int)) == trim_start(s@.subrange(lo as int, b as int)),
        decreases b - lo,
    {
        assert(s@.subrange(lo as int, b as int).drop_first() =~= s@.subrange(lo + 1, b as int));
        lo = lo + 1;
    }
    assert(trim_start(s@.subrange(lo as int, b as int)) == s@.subrange(lo as int, b as int));
    let mut hi: usize = b;
    while hi > lo && is_white_char(s[hi - 1])
        invariant
            a <= lo <= hi <= b <= s@.len(),
            trim_end(s@.subrange(lo as int, b as int)) == trim_end(s@.subrange(lo as int, hi as int)),
        decreases hi - lo,
    {
        assert(s@.subrange(lo as int, hi as int).drop_last() =~= s@.subrange(lo as int, hi - 1));
        hi = hi - 1;
    }
    assert(trim_end(s@.subrange(lo as int, hi as int)) == s@.subrange(lo as int, hi as int));
    (lo, hi)
}

} // verus!
