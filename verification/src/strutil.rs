//! Verified character-level helpers for `&str` and `String`: prefix and
//! suffix tests, equality, decimal formatting, and comma-separated parsing.

use vstd::prelude::*;
use vstd::string::*;

verus! {

/// The characters that count as whitespace when trimming list items
/// (the Unicode `White_Space` set).
pub open spec fn is_space(c: char) -> bool {
    c == ' ' || c == '\t' || c == '\n' || c == '\r' || c == '\u{b}' || c == '\u{c}'
        || c == '\u{85}' || c == '\u{a0}' || c == '\u{1680}' || c == '\u{2000}'
        || c == '\u{2001}' || c == '\u{2002}' || c == '\u{2003}' || c == '\u{2004}'
        || c == '\u{2005}' || c == '\u{2006}' || c == '\u{2007}' || c == '\u{2008}'
        || c == '\u{2009}' || c == '\u{200a}' || c == '\u{2028}' || c == '\u{2029}'
        || c == '\u{202f}' || c == '\u{205f}' || c == '\u{3000}'
}

fn is_space_char(c: char) -> (r: bool)
    ensures
        r == is_space(c),
{
    c == ' ' || c == '\t' || c == '\n' || c == '\r' || c == '\u{b}' || c == '\u{c}'
        || c == '\u{85}' || c == '\u{a0}' || c == '\u{1680}' || c == '\u{2000}'
        || c == '\u{2001}' || c == '\u{2002}' || c == '\u{2003}' || c == '\u{2004}'
        || c == '\u{2005}' || c == '\u{2006}' || c == '\u{2007}' || c == '\u{2008}'
        || c == '\u{2009}' || c == '\u{200a}' || c == '\u{2028}' || c == '\u{2029}'
        || c == '\u{202f}' || c == '\u{205f}' || c == '\u{3000}'
}

/// True when `p` is a prefix of `s`.
pub fn str_starts_with(s: &str, p: &str) -> (r: bool)
    ensures
        r == p@.is_prefix_of(s@),
{
    let n = p.unicode_len();
    let m = s.unicode_len();
    if n > m {
        assert(!p@.is_prefix_of(s@));
        return false;
    }
    let mut i: usize = 0;
    while i < n
        invariant
            i <= n,
            n == p@.len(),
            m == s@.len(),
            n <= m,
            forall|j: int| 0 <= j < i ==> s@[j] == p@[j],
        decreases n - i,
    {
        if s.get_char(i) != p.get_char(i) {
            assert(!p@.is_prefix_of(s@)) by {
                if p@.is_prefix_of(s@) {
                    assert(s@.subrange(0, n as int)[i as int] == s@[i as int]);
                }
            }
            return false;
        }
        i = i + 1;
    }
    assert(p@.is_prefix_of(s@)) by {
        assert(s@.subrange(0, n as int) =~= p@);
    }
    true
}

/// True when `p` is a suffix of `s`.
pub fn str_ends_with(s: &str, p: &str) -> (r: bool)
    ensures
        r == p@.is_suffix_of(s@),
{
    let n = p.unicode_len();
    let m = s.unicode_len();
    if n > m {
        assert(!p@.is_suffix_of(s@));
        return false;
    }
    let off = m - n;
    let mut i: usize = 0;
    while i < n
        invariant
            i <= n,
            n == p@.len(),
            m == s@.len(),
            off == m - n,
            forall|j: int| 0 <= j < i ==> s@[off + j] == p@[j],
        decreases n - i,
    {
        if s.get_char(off + i) != p.get_char(i) {
            assert(!p@.is_suffix_of(s@)) by {
                if p@.is_suffix_of(s@) {
                    assert(s@.subrange(off as int, m as int)[i as int] == s@[off + i]);
                }
            }
            return false;
        }
        i = i + 1;
    }
    assert(p@.is_suffix_of(s@)) by {
        assert(s@.subrange(off as int, m as int) =~= p@);
    }
    true
}

/// True when the two strings hold the same characters.
pub fn str_eq(a: &str, b: &str) -> (r: bool)
    ensures
        r == (a@ == b@),
{
    let n = a.unicode_len();
    if n != b.unicode_len() {
        return false;
    }
    let r = str_starts_with(a, b);
    if r {
        assert(a@ =~= b@);
    }
    r
}

/// The character for one decimal digit.
pub open spec fn digit_char(d: nat) -> char {
    if d == 0 { '0' }
    else if d == 1 { '1' }
    else if d == 2 { '2' }
    else if d == 3 { '3' }
    else if d == 4 { '4' }
    else if d == 5 { '5' }
    else if d == 6 { '6' }
    else if d == 7 { '7' }
    else if d == 8 { '8' }
    else { '9' }
}

/// The decimal rendering of a natural number, most significant digit first.
pub open spec fn dec_digits(n: nat) -> Seq<char>
    decreases n,
{
    if n < 10 {
        seq![digit_char(n)]
    } else {
        dec_digits(n / 10).push(digit_char(n % 10))
    }
}

fn digit_str(d: u64) -> (s: &'static str)
    requires
        d < 10,
    ensures
        s@ =~= seq![digit_char(d as nat)],
{
    proof {
        reveal_strlit("0");
        reveal_strlit("1");
        reveal_strlit("2");
        reveal_strlit("3");
        reveal_strlit("4");
        reveal_strlit("5");
        reveal_strlit("6");
        reveal_strlit("7");
        reveal_strlit("8");
        reveal_strlit("9");
    }
    match d {
        0 => "0",
        1 => "1",
        2 => "2",
        3 => "3",
        4 => "4",
        5 => "5",
        6 => "6",
        7 => "7",
        8 => "8",
        _ => "9",
    }
}

/// Renders a number in decimal.
pub fn fmt_u64(n: u64) -> (s: String)
    ensures
        s@ == dec_digits(n as nat),
    decreases n,
{
    if n < 10 {
        String::from_str(digit_str(n))
    } else {
        let mut s = fmt_u64(n / 10);
        s.append(digit_str(n % 10));
        proof {
            assert(s@ =~= dec_digits((n / 10) as nat).push(digit_char((n % 10) as nat)));
        }
        s
    }
}

/// `s` without its leading whitespace.
pub open spec fn trim_start_spec(s: Seq<char>) -> Seq<char>
    decreases s.len(),
{
    if s.len() > 0 && is_space(s[0]) {
        trim_start_spec(s.drop_first())
    } else {
        s
    }
}

/// `s` without its trailing whitespace.
pub open spec fn trim_end_spec(s: Seq<char>) -> Seq<char>
    decreases s.len(),
{
    if s.len() > 0 && is_space(s.last()) {
        trim_end_spec(s.drop_last())
    } else {
        s
    }
}

/// `s` without leading or trailing whitespace.
pub open spec fn trim_spec(s: Seq<char>) -> Seq<char> {
    trim_end_spec(trim_start_spec(s))
}

/// Returns `s` with leading and trailing whitespace removed.
pub fn trim_str(s: &str) -> (t: String)
    ensures
        t@ == trim_spec(s@),
{
    let n = s.unicode_len();
    proof {
        assert(s@.subrange(0, n as int) =~= s@);
    }
    let mut a: usize = 0;
    while a < n && is_space_char(s.get_char(a))
        invariant
            a <= n,
            n == s@.len(),
            trim_start_spec(s@) == trim_start_spec(s@.subrange(a as int, n as int)),
        decreases n - a,
    {
        proof {
            let rest = s@.subrange(a as int, n as int);
            assert(rest.drop_first() =~= s@.subrange(a + 1, n as int));
        }
        a = a + 1;
    }
    proof {
        let rest = s@.subrange(a as int, n as int);
        assert(trim_start_spec(rest) == rest);
    }
    let mut b: usize = n;
    while b > a && is_space_char(s.get_char(b - 1))
        invariant
            a <= b <= n,
            n == s@.len(),
            a < n ==> !is_space(s@[a as int]),
            trim_start_spec(s@) == s@.subrange(a as int, n as int),
            trim_end_spec(s@.subrange(a as int, n as int)) == trim_end_spec(
                s@.subrange(a as int, b as int),
            ),
        decreases b,
    {
        proof {
            let part = s@.subrange(a as int, b as int);
            assert(part.last() == s@[b - 1]);
            assert(part.drop_last() =~= s@.subrange(a as int, b - 1));
        }
        b = b - 1;
    }
    proof {
        let part = s@.subrange(a as int, b as int);
        if b > a {
            assert(part.last() == s@[b - 1]);
        }
        assert(trim_end_spec(part) == part);
    }
    let t = s.substring_char(a, b);
    String::from_str(t)
}

/// The comma-separated segments of `s`, in order, splits kept verbatim.
pub open spec fn split_commas_acc(s: Seq<char>, cur: Seq<char>) -> Seq<Seq<char>>
    decreases s.len(),
{
    if s.len() == 0 {
        seq![cur]
    } else if s[0] == ',' {
        seq![cur] + split_commas_acc(s.drop_first(), Seq::empty())
    } else {
        split_commas_acc(s.drop_first(), cur.push(s[0]))
    }
}

pub open spec fn split_commas(s: Seq<char>) -> Seq<Seq<char>> {
    split_commas_acc(s, Seq::empty())
}

/// The trimmed, non-empty items among the first `j` segments.
pub open spec fn kept_items(segs: Seq<Seq<char>>, j: int) -> Seq<Seq<char>>
    decreases j,
{
    if j <= 0 {
        Seq::empty()
    } else if trim_spec(segs[j - 1]).len() > 0 {
        kept_items(segs, j - 1).push(trim_spec(segs[j - 1]))
    } else {
        kept_items(segs, j - 1)
    }
}

/// The comma-separated items of `s`: each segment trimmed, empties dropped.
pub open spec fn csv_items(s: Seq<char>) -> Seq<Seq<char>> {
    kept_items(split_commas(s), split_commas(s).len() as int)
}

/// What `parse_csv` returns: `None` gives no items; otherwise the input is
/// split at every comma, each segment is trimmed, and empty segments are
/// dropped.
pub open spec fn parse_csv_spec(input: Option<Seq<char>>) -> Seq<Seq<char>> {
    match input {
        Option::None => Seq::empty(),
        Option::Some(s) => csv_items(s),
    }
}

fn split_commas_exec(s: &str) -> (segs: Vec<String>)
    ensures
        segs.deep_view() == split_commas(s@),
{
    let n = s.unicode_len();
    let mut segs: Vec<String> = Vec::new();
    let mut start: usize = 0;
    let mut i: usize = 0;
    proof {
        assert(s@.subrange(0, 0) =~= Seq::<char>::empty());
        assert(s@.subrange(0, n as int) =~= s@);
        assert(segs.deep_view() + split_commas_acc(s@, Seq::empty()) =~= split_commas(s@));
    }
    while i < n
        invariant
            start <= i <= n,
            n == s@.len(),
            segs.deep_view() + split_commas_acc(
                s@.subrange(i as int, n as int),
                s@.subrange(start as int, i as int),
            ) =~= split_commas(s@),
        decreases n - i,
    {
        let ghost rest = s@.subrange(i as int, n as int);
        proof {
            assert(rest.drop_first() =~= s@.subrange(i + 1, n as int));
            assert(rest[0] == s@[i as int]);
        }
        let c = s.get_char(i);
        if c == ',' {
            let seg = String::from_str(s.substring_char(start, i));
            segs.push(seg);
            start = i + 1;
            proof {
                assert(segs.deep_view() =~= segs.deep_view().drop_last().push(
                    segs@.last()@,
                ));
                assert(s@.subrange(start as int, start as int) =~= Seq::<char>::empty());
                assert(segs.deep_view() + split_commas_acc(
                    s@.subrange(i + 1, n as int),
                    s@.subrange(start as int, start as int),
                ) =~= split_commas(s@));
            }
        } else {
            proof {
                assert(s@.subrange(start as int, i as int).push(s@[i as int]) =~= s@.subrange(
                    start as int,
                    i + 1,
                ));
            }
        }
        i = i + 1;
    }
    proof {
        assert(s@.subrange(n as int, n as int) =~= Seq::<char>::empty());
    }
    let seg = String::from_str(s.substring_char(start, n));
    segs.push(seg);
    proof {
        assert(segs.deep_view() =~= segs.deep_view().drop_last().push(segs@.last()@));
        assert(segs.deep_view() =~= split_commas(s@));
    }
    segs
}

/// Splits a comma-separated list into its trimmed, non-empty items.
pub fn parse_csv(input: Option<&str>) -> (r: Vec<String>)
    ensures
        r.deep_view() == parse_csv_spec(match input {
            Option::Some(s) => Option::Some(s@),
            Option::None => Option::None,
        }),
{
    match input {
        Option::None => Vec::new(),
        Option::Some(s) => {
            let segs = split_commas_exec(s);
            let mut out: Vec<String> = Vec::new();
            let mut j: usize = 0;
            while j < segs.len()
                invariant
                    j <= segs.len(),
                    segs.deep_view() == split_commas(s@),
                    out.deep_view() =~= kept_items(split_commas(s@), j as int),
                decreases segs.len() - j,
            {
                let t = trim_str(segs[j].as_str());
                proof {
                    assert(segs.deep_view()[j as int] == segs@[j as int]@);
                }
                if t.unicode_len() > 0 {
                    out.push(t);
                    proof {
                        assert(out.deep_view() =~= out.deep_view().drop_last().push(
                            out@.last()@,
                        ));
                    }
                }
                j = j + 1;
            }
            proof {
                assert(out.deep_view() =~= csv_items(s@));
            }
            out
        },
    }
}

} // verus!
