//! The textual form of a capture region: `"x,y WxH"` or `"x y w h"`, each
//! number a decimal `i32` with an optional sign.

use vstd::prelude::*;
use vstd::string::StrSliceExecFns;
use crate::backend::CaptureRegion;

verus! {

/// White space in the sense of Unicode's property `White_Space`.
pub open spec fn is_space(c: char) -> bool {
    let n = c as u32;
    ||| 0x09 <= n <= 0x0d
    ||| n == 0x20
    ||| n == 0x85
    ||| n == 0xa0
    ||| n == 0x1680
    ||| 0x2000 <= n <= 0x200a
    ||| n == 0x2028
    ||| n == 0x2029
    ||| n == 0x202f
    ||| n == 0x205f
    ||| n == 0x3000
}

/// `s` without the white space at its start.
pub open spec fn trim_start(s: Seq<char>) -> Seq<char>
    decreases s.len(),
{
    if s.len() > 0 && is_space(s[0]) {
        trim_start(s.skip(1))
    } else {
        s
    }
}

/// `s` without the white space at its end.
pub open spec fn trim_end(s: Seq<char>) -> Seq<char>
    decreases s.len(),
{
    if s.len() > 0 && is_space(s.last()) {
        trim_end(s.drop_last())
    } else {
        s
    }
}

/// `s` without the white space at either end.
pub open spec fn trimmed(s: Seq<char>) -> Seq<char> {
    trim_end(trim_start(s))
}

/// `i` is the place of the first `c` in `s`.
pub open spec fn is_first(s: Seq<char>, c: char, i: int) -> bool {
    &&& 0 <= i < s.len()
    &&& s[i] == c
    &&& forall|j: int| 0 <= j < i ==> s[j] != c
}

/// What stands before and after the first `c` in `s`, if there is one.
pub open spec fn split_once(s: Seq<char>, c: char) -> Option<(Seq<char>, Seq<char>)> {
    if exists|i: int| is_first(s, c, i) {
        let i = choose|i: int| is_first(s, c, i);
        Some((s.take(i), s.skip(i + 1)))
    } else {
        None
    }
}

pub open spec fn is_digit(c: char) -> bool {
    '0' as u32 <= c as u32 <= '9' as u32
}

pub open spec fn all_digits(s: Seq<char>) -> bool {
    forall|i: int| 0 <= i < s.len() ==> is_digit(#[trigger] s[i])
}

/// The number that a run of decimal digits writes.
pub open spec fn decimal_value(s: Seq<char>) -> nat
    decreases s.len(),
{
    if s.len() == 0 {
        0
    } else {
        decimal_value(s.drop_last()) * 10 + ((s.last() as u32 - '0' as u32) as nat)
    }
}

/// The `i32` that `s` writes: an optional `+` or `-`, then at least one
/// decimal digit and nothing else, the value within the range of `i32`.
pub open spec fn parsed_i32(s: Seq<char>) -> Option<i32> {
    let negative = s.len() > 0 && s[0] == '-';
    let digits = if s.len() > 0 && (s[0] == '-' || s[0] == '+') {
        s.skip(1)
    } else {
        s
    };
    let value = if negative {
        -(decimal_value(digits) as int)
    } else {
        decimal_value(digits) as int
    };
    if digits.len() > 0 && all_digits(digits) && i32::MIN <= value <= i32::MAX {
        Some(value as i32)
    } else {
        None
    }
}

/// The four numbers of a region, the first two split off at `first` and
/// `second`, the last two parted by `third`.
pub open spec fn parsed_fields(s: Seq<char>, first: char, second: char, third: char) -> Option<
    CaptureRegion,
> {
    match split_once(s, first) {
        None => None,
        Some((x_text, rest)) => match split_once(rest, second) {
            None => None,
            Some((y_text, rest)) => match split_once(rest, third) {
                None => None,
                Some((width_text, height_text)) => match (
                    parsed_i32(x_text),
                    parsed_i32(y_text),
                    parsed_i32(width_text),
                    parsed_i32(height_text),
                ) {
                    (Some(x), Some(y), Some(width), Some(height)) => Some(
                        CaptureRegion { x_coordinate: x, y_coordinate: y, width, height },
                    ),
                    _ => None,
                },
            },
        },
    }
}

/// The region that `s` writes. Around it white space is ignored. With a
/// comma in it the form is `x,y WxH`, without one `x y w h`.
pub open spec fn parsed_geometry(s: Seq<char>) -> Option<CaptureRegion> {
    let t = trimmed(s);
    if t.contains(',') {
        parsed_fields(t, ',', ' ', 'x')
    } else {
        parsed_fields(t, ' ', ' ', ' ')
    }
}

/// The characters of `s`, one for one.
pub(crate) fn chars_of(s: &str) -> (v: Vec<char>)
    ensures
        v@ == s@,
{
    let n: usize = s.unicode_len();
    let mut v: Vec<char> = Vec::new();
    let mut i: usize = 0;
    while i < n
        invariant
            n == s@.len(),
            i <= n,
            v@ == s@.take(i as int),
        decreases n - i,
    {
        v.push(s.get_char(i));
        i = i + 1;
    }
    v
}

fn is_space_char(c: char) -> (r: bool)
    ensures
        r == is_space(c),
{
    let n: u32 = c as u32;
    (0x09 <= n && n <= 0x0d) || n == 0x20 || n == 0x85 || n == 0xa0 || n == 0x1680 || (0x2000 <= n
        && n <= 0x200a) || n == 0x2028 || n == 0x2029 || n == 0x202f || n == 0x205f || n == 0x3000
}

/// The bounds of `v` without the white space at either end.
pub(crate) fn trim_bounds(v: &Vec<char>) -> (r: (usize, usize))
    ensures
        r.0 <= r.1 <= v@.len(),
        v@.subrange(r.0 as int, r.1 as int) == trimmed(v@),
{
    let mut lo: usize = 0;
    proof {
        assert(v@.skip(0) =~= v@);
    }
    while lo < v.len() && is_space_char(v[lo])
        invariant
            lo <= v@.len(),
            trim_start(v@) == trim_start(v@.skip(lo as int)),
        decreases v@.len() - lo,
    {
        proof {
            assert(v@.skip(lo as int).skip(1) =~= v@.skip(lo + 1));
        }
        lo = lo + 1;
    }
    let mut hi: usize = v.len();
    while hi > lo && is_space_char(v[hi - 1])
        invariant
            lo <= hi <= v@.len(),
            trimmed(v@) == trim_end(v@.subrange(lo as int, hi as int)),
        decreases hi - lo,
    {
        proof {
            assert(v@.subrange(lo as int, hi as int).drop_last() =~= v@.subrange(
                lo as int,
                hi - 1,
            ));
        }
        hi = hi - 1;
    }
    (lo, hi)
}

/// The place of the first `c` in `v` from `lo` up to `hi`.
fn find_first(v: &Vec<char>, lo: usize, hi: usize, c: char) -> (r: Option<usize>)
    requires
        lo <= hi <= v@.len(),
    ensures
        r is None ==> split_once(v@.subrange(lo as int, hi as int), c) is None,
        r is None ==> !v@.subrange(lo as int, hi as int).contains(c),
        r is Some ==> lo <= r.unwrap() < hi && v@.subrange(lo as int, hi as int).contains(c),
        r is Some ==> split_once(v@.subrange(lo as int, hi as int), c) == Some(
            (v@.subrange(lo as int, r.unwrap() as int), v@.subrange(r.unwrap() + 1, hi as int)),
        ),
{
    let ghost s = v@.subrange(lo as int, hi as int);
    let mut i: usize = lo;
    while i < hi
        invariant
            lo <= i <= hi <= v@.len(),
            s == v@.subrange(lo as int, hi as int),
            forall|j: int| 0 <= j < i - lo ==> s[j] != c,
        decreases hi - i,
    {
        if v[i] == c {
            proof {
                let k = i - lo;
                assert(is_first(s, c, k));
                let chosen = choose|i: int| is_first(s, c, i);
                assert(chosen == k);
            }
            return Some(i);
        }
        i = i + 1;
    }
    proof {
        assert forall|k: int| !is_first(s, c, k) by {}
        assert(!s.contains(c));
    }
    None
}

/// The value of a prefix of a run of digits is at most that of the run.
proof fn lemma_decimal_value_grows(s: Seq<char>, k: int)
    requires
        0 <= k <= s.len(),
    ensures
        decimal_value(s.take(k)) <= decimal_value(s),
    decreases s.len(),
{
    if k < s.len() {
        lemma_decimal_value_grows(s.drop_last(), k);
        assert(s.drop_last().take(k) =~= s.take(k));
    } else {
        assert(s.take(k) =~= s);
    }
}

/// The `i32` written in `v` from `lo` up to `hi`.
fn parse_i32(v: &Vec<char>, lo: usize, hi: usize) -> (r: Option<i32>)
    requires
        lo <= hi <= v@.len(),
    ensures
        r == parsed_i32(v@.subrange(lo as int, hi as int)),
{
    let ghost s = v@.subrange(lo as int, hi as int);
    if lo == hi {
        return None;
    }
    let negative: bool = v[lo] == '-';
    let start: usize = if v[lo] == '-' || v[lo] == '+' {
        lo + 1
    } else {
        lo
    };
    let ghost digits = v@.subrange(start as int, hi as int);
    if start == hi {
        return None;
    }
    let mut acc: i64 = 0;
    let mut i: usize = start;
    while i < hi
        invariant
            start <= i <= hi <= v@.len(),
            digits == v@.subrange(start as int, hi as int),
            s == v@.subrange(lo as int, hi as int),
            s.len() > 0,
            negative == (s[0] == '-'),
            digits == (if s[0] == '-' || s[0] == '+' {
                s.skip(1)
            } else {
                s
            }),
            all_digits(digits.take(i - start)),
            acc == decimal_value(digits.take(i - start)),
            0 <= acc <= 0x8000_0000,
        decreases hi - i,
    {
        let c: char = v[i];
        let n: u32 = c as u32;
        if n < 48 || n > 57 {
            proof {
                assert(!is_digit(digits[i - start]));
            }
            return None;
        }
        let d: i64 = (n - 48) as i64;
        proof {
            let next = digits.take(i - start + 1);
            assert(next.drop_last() =~= digits.take(i - start));
            assert forall|j: int| 0 <= j < next.len() implies is_digit(#[trigger] next[j]) by {}
        }
        acc = acc * 10 + d;
        i = i + 1;
        if acc > 0x8000_0000 {
            proof {
                lemma_decimal_value_grows(digits, i - start);
            }
            return None;
        }
    }
    proof {
        assert(digits.take(i - start) =~= digits);
    }
    if negative {
        Some((-acc) as i32)
    } else if acc > 0x7fff_ffff {
        None
    } else {
        Some(acc as i32)
    }
}

/// The number from `lo` up to the first `mark`, and where the rest starts.
fn parse_up_to(v: &Vec<char>, lo: usize, hi: usize, mark: char) -> (r: Option<(Option<i32>, usize)>)
    requires
        lo <= hi <= v@.len(),
    ensures
        r is None <==> split_once(v@.subrange(lo as int, hi as int), mark) is None,
        r is Some ==> lo < r.unwrap().1 <= hi && split_once(v@.subrange(lo as int, hi as int), mark)
            == Some(
            (
                v@.subrange(lo as int, r.unwrap().1 - 1),
                v@.subrange(r.unwrap().1 as int, hi as int),
            ),
        ) && r.unwrap().0 == parsed_i32(v@.subrange(lo as int, r.unwrap().1 - 1)),
{
    match find_first(v, lo, hi, mark) {
        None => None,
        Some(at) => Some((parse_i32(v, lo, at), at + 1)),
    }
}

/// The four numbers in `v` from `lo` up to `hi`, parted by the three marks.
fn parse_fields(v: &Vec<char>, lo: usize, hi: usize, first: char, second: char, third: char) -> (r:
    Option<CaptureRegion>)
    requires
        lo <= hi <= v@.len(),
    ensures
        r == parsed_fields(v@.subrange(lo as int, hi as int), first, second, third),
{
    let (x, at) = match parse_up_to(v, lo, hi, first) {
        None => { return None; },
        Some(p) => p,
    };
    let (y, at) = match parse_up_to(v, at, hi, second) {
        None => { return None; },
        Some(p) => p,
    };
    let (width, at) = match parse_up_to(v, at, hi, third) {
        None => { return None; },
        Some(p) => p,
    };
    let height = parse_i32(v, at, hi);
    match (x, y, width, height) {
        (Some(x), Some(y), Some(width), Some(height)) => Some(
            CaptureRegion { x_coordinate: x, y_coordinate: y, width, height },
        ),
        _ => None,
    }
}

/// Reads a region from its textual form, `"x,y WxH"` or `"x y w h"`.
/// White space around the text is ignored. `None` where the text has
/// neither form or a number does not fit an `i32`.
pub fn parse_geometry(g: &str) -> (r: Option<CaptureRegion>)
    ensures
        r == parsed_geometry(g@),
{
    let v = chars_of(g);
    let (lo, hi) = trim_bounds(&v);
    match find_first(&v, lo, hi, ',') {
        Some(_) => parse_fields(&v, lo, hi, ',', ' ', 'x'),
        None => parse_fields(&v, lo, hi, ' ', ' ', ' '),
    }
}

} // verus!
