//! Text as sequences of characters: trimming, prefixes, decimal numbers and
//! dotted-quad addresses.

use vstd::prelude::*;

verus! {

/// Relies on `str::chars`: the characters of `s`, in order.
#[verifier::external_body]
pub(crate) fn chars_of(s: &str) -> (r: Vec<char>)
    ensures
        r@ == s@,
{
    s.chars().collect()
}

/// Relies on `String`'s `FromIterator<char>`: the string of these characters.
#[verifier::external_body]
pub(crate) fn string_of(v: &Vec<char>) -> (r: String)
    ensures
        r@ == v@,
{
    v.iter().collect()
}

/// Unicode `White_Space`, the set that `char::is_whitespace` and `str::trim` use.
pub open spec fn is_ws(c: char) -> bool {
    ||| ('\u{9}' <= c && c <= '\u{d}')
    ||| c == ' '
    ||| c == '\u{85}'
    ||| c == '\u{a0}'
    ||| c == '\u{1680}'
    ||| ('\u{2000}' <= c && c <= '\u{200a}')
    ||| c == '\u{2028}'
    ||| c == '\u{2029}'
    ||| c == '\u{202f}'
    ||| c == '\u{205f}'
    ||| c == '\u{3000}'
}

pub fn is_whitespace(c: char) -> (r: bool)
    ensures
        r == is_ws(c),
{
    ('\u{9}' <= c && c <= '\u{d}') || c == ' ' || c == '\u{85}' || c == '\u{a0}' || c
        == '\u{1680}' || ('\u{2000}' <= c && c <= '\u{200a}') || c == '\u{2028}' || c
        == '\u{2029}' || c == '\u{202f}' || c == '\u{205f}' || c == '\u{3000}'
}

/// `s` without its leading whitespace.
pub open spec fn trim_start(s: Seq<char>) -> Seq<char>
    decreases s.len(),
{
    if s.len() > 0 && is_ws(s[0]) {
        trim_start(s.drop_first())
    } else {
        s
    }
}

/// `s` without its trailing whitespace.
pub open spec fn trim_end(s: Seq<char>) -> Seq<char>
    decreases s.len(),
{
    if s.len() > 0 && is_ws(s.last()) {
        trim_end(s.drop_last())
    } else {
        s
    }
}

/// `s` without leading and trailing whitespace, as `str::trim` gives it.
pub open spec fn trim(s: Seq<char>) -> Seq<char> {
    trim_end(trim_start(s))
}

pub open spec fn starts_with(s: Seq<char>, p: Seq<char>) -> bool {
    p.len() <= s.len() && s.subrange(0, p.len() as int) == p
}

/// Bounds `(lo, hi)` of the trimmed part of `s`.
pub fn trim_bounds(s: &Vec<char>) -> (r: (usize, usize))
    ensures
        r.0 <= r.1 <= s@.len(),
        trim(s@) == s@.subrange(r.0 as int, r.1 as int),
{
    let n = s.len();
    let mut lo: usize = 0;
    proof {
        assert(s@.subrange(0, n as int) =~= s@);
    }
    while lo < n && is_whitespace(s[lo])
        invariant
            n == s@.len(),
            lo <= n,
            trim_start(s@) == trim_start(s@.subrange(lo as int, n as int)),
        decreases n - lo,
    {
        proof {
            assert(s@.subrange(lo as int, n as int).drop_first() =~= s@.subrange(
                lo + 1,
                n as int,
            ));
        }
        lo = lo + 1;
    }
    let mut hi: usize = n;
    while hi > lo && is_whitespace(s[hi - 1])
        invariant
            n == s@.len(),
            lo <= hi <= n,
            trim_start(s@) == s@.subrange(lo as int, n as int),
            trim(s@) == trim_end(s@.subrange(lo as int, hi as int)),
        decreases hi,
    {
        proof {
            assert(s@.subrange(lo as int, hi as int).drop_last() =~= s@.subrange(
                lo as int,
                hi - 1,
            ));
        }
        hi = hi - 1;
    }
    (lo, hi)
}

/// Whether `s[from..]` begins with `p`.
pub fn has_prefix_at(s: &Vec<char>, from: usize, p: &Vec<char>) -> (r: bool)
    requires
        from <= s@.len(),
    ensures
        r == starts_with(s@.subrange(from as int, s@.len() as int), p@),
{
    if p.len() > s.len() - from {
        return false;
    }
    let n = s.len();
    let mut i: usize = 0;
    while i < p.len()
        invariant
            n == s@.len(),
            from <= s@.len(),
            p@.len() <= s@.len() - from,
            i <= p@.len(),
            forall|j: int| 0 <= j < i ==> s@[from + j] == p@[j],
        decreases p@.len() - i,
    {
        if s[from + i] != p[i] {
            proof {
                assert(s@.subrange(from as int, s@.len() as int).subrange(0, p@.len() as int)[i as int]
                    != p@[i as int]);
            }
            return false;
        }
        i = i + 1;
    }
    proof {
        assert(s@.subrange(from as int, s@.len() as int).subrange(0, p@.len() as int) =~= p@);
    }
    true
}

/// End of the line of `t` that starts at `a`: the next newline, or the end.
pub open spec fn line_end(t: Seq<char>, a: int) -> int
    decreases t.len() - a,
{
    if a >= t.len() || t[a] == '\n' {
        a
    } else {
        line_end(t, a + 1)
    }
}

pub fn line_end_at(t: &Vec<char>, a: usize) -> (r: usize)
    requires
        a <= t@.len(),
    ensures
        r == line_end(t@, a as int),
        a <= r <= t@.len(),
{
    let mut i = a;
    while i < t.len() && t[i] != '\n'
        invariant
            a <= i <= t@.len(),
            line_end(t@, a as int) == line_end(t@, i as int),
        decreases t@.len() - i,
    {
        i = i + 1;
    }
    i
}

/// The characters of `v` from `lo` up to `hi`.
pub fn slice(v: &Vec<char>, lo: usize, hi: usize) -> (r: Vec<char>)
    requires
        lo <= hi <= v@.len(),
    ensures
        r@ == v@.subrange(lo as int, hi as int),
{
    let mut r: Vec<char> = Vec::new();
    let mut i = lo;
    while i < hi
        invariant
            lo <= i <= hi <= v@.len(),
            r@ == v@.subrange(lo as int, i as int),
        decreases hi - i,
    {
        r.push(v[i]);
        i = i + 1;
        proof {
            assert(r@ =~= v@.subrange(lo as int, i as int));
        }
    }
    r
}

/// The lines of `t` from position `a` on, as `BufRead::lines` gives them:
/// split at each newline, a carriage return before a newline dropped, and no
/// empty line after a final newline.
pub open spec fn lines_from(t: Seq<char>, a: int) -> Seq<Seq<char>>
    decreases t.len() - a,
{
    if a < 0 || a >= t.len() {
        Seq::empty()
    } else {
        let e = line_end(t, a);
        let line = if e < t.len() && e > a && t[e - 1] == '\r' {
            t.subrange(a, e - 1)
        } else {
            t.subrange(a, e)
        };
        if e < a || e >= t.len() {
            seq![line]
        } else {
            seq![line] + lines_from(t, e + 1)
        }
    }
}

/// The lines of `text`.
pub fn split_lines(text: &str) -> (r: Vec<String>)
    ensures
        views(r@) == lines_from(text@, 0),
{
    let t = chars_of(text);
    let mut r: Vec<String> = Vec::new();
    let mut a: usize = 0;
    while a < t.len()
        invariant
            t@ == text@,
            a <= t@.len(),
            views(r@) + lines_from(t@, a as int) == lines_from(t@, 0),
        decreases t@.len() - a,
    {
        let e = line_end_at(&t, a);
        let hi = if e < t.len() && e > a && t[e - 1] == '\r' {
            e - 1
        } else {
            e
        };
        let line = slice(&t, a, hi);
        let ghost before = views(r@);
        r.push(string_of(&line));
        proof {
            assert(views(r@) =~= before.push(line@));
        }
        if e >= t.len() {
            proof {
                assert(views(r@) + lines_from(t@, t@.len() as int) =~= before + seq![line@]);
            }
            a = t.len();
        } else {
            proof {
                assert(before.push(line@) + lines_from(t@, e + 1) =~= before + (seq![line@] + lines_from(
                    t@,
                    e + 1,
                )));
            }
            a = e + 1;
        }
    }
    proof {
        assert(views(r@) + lines_from(t@, a as int) =~= views(r@));
    }
    r
}

/// The character of digit `d`.
pub open spec fn digit(d: nat) -> char {
    if d == 0 {
        '0'
    } else if d == 1 {
        '1'
    } else if d == 2 {
        '2'
    } else if d == 3 {
        '3'
    } else if d == 4 {
        '4'
    } else if d == 5 {
        '5'
    } else if d == 6 {
        '6'
    } else if d == 7 {
        '7'
    } else if d == 8 {
        '8'
    } else {
        '9'
    }
}

/// `n` in decimal, without leading zeros.
pub open spec fn decimal(n: nat) -> Seq<char>
    decreases n,
{
    if n < 10 {
        seq![digit(n)]
    } else {
        decimal(n / 10).push(digit(n % 10))
    }
}

/// An address in dotted-quad notation (`10.0.1.3`).
pub open spec fn dotted(a: u32) -> Seq<char> {
    decimal(a as nat / 0x100_0000) + seq!['.'] + decimal((a as nat / 0x1_0000) % 256) + seq!['.']
        + decimal((a as nat / 0x100) % 256) + seq!['.'] + decimal(a as nat % 256)
}

fn digit_char(d: u32) -> (r: char)
    requires
        d < 10,
    ensures
        r == digit(d as nat),
{
    if d == 0 {
        '0'
    } else if d == 1 {
        '1'
    } else if d == 2 {
        '2'
    } else if d == 3 {
        '3'
    } else if d == 4 {
        '4'
    } else if d == 5 {
        '5'
    } else if d == 6 {
        '6'
    } else if d == 7 {
        '7'
    } else if d == 8 {
        '8'
    } else {
        '9'
    }
}

/// Appends `n` (below 256) in decimal.
pub fn push_decimal(out: &mut Vec<char>, n: u32)
    requires
        n < 256,
    ensures
        final(out)@ == old(out)@ + decimal(n as nat),
{
    proof {
        reveal_with_fuel(decimal, 3);
    }
    if n >= 100 {
        out.push(digit_char(n / 100));
        out.push(digit_char((n / 10) % 10));
        out.push(digit_char(n % 10));
        proof {
            assert(decimal(n as nat / 10) == seq![digit(n as nat / 100), digit((n as nat / 10) % 10)]);
        }
    } else if n >= 10 {
        out.push(digit_char(n / 10));
        out.push(digit_char(n % 10));
    } else {
        out.push(digit_char(n));
    }
    proof {
        assert(final(out)@ =~= old(out)@ + decimal(n as nat));
    }
}

/// Appends `n` in decimal.
pub fn push_decimal_u64(out: &mut Vec<char>, n: u64)
    ensures
        final(out)@ == old(out)@ + decimal(n as nat),
    decreases n,
{
    if n >= 10 {
        push_decimal_u64(out, n / 10);
    }
    out.push(digit_char((n % 10) as u32));
    proof {
        assert(final(out)@ =~= old(out)@ + decimal(n as nat));
    }
}

/// `n` in decimal, with a leading '-' when negative.
pub open spec fn signed_decimal(n: int) -> Seq<char> {
    if n < 0 {
        seq!['-'] + decimal((-n) as nat)
    } else {
        decimal(n as nat)
    }
}

/// `n` in decimal, as `i32::to_string` writes it.
pub fn signed_decimal_string(n: i32) -> (r: String)
    ensures
        r@ == signed_decimal(n as int),
{
    let mut v: Vec<char> = Vec::new();
    if n < 0 {
        v.push('-');
        push_decimal_u64(&mut v, (-(n as i64)) as u64);
    } else {
        push_decimal_u64(&mut v, n as u64);
    }
    proof {
        assert(v@ =~= signed_decimal(n as int));
    }
    string_of(&v)
}

/// A copy of the characters of `s`.
pub fn lit(s: &str) -> (r: String)
    ensures
        r@ == s@,
{
    string_of(&chars_of(s))
}

/// A copy of `s`.
pub fn copy(s: &String) -> (r: String)
    ensures
        r@ == s@,
{
    string_of(&chars_of(s.as_str()))
}

/// Whether `a` and `b` hold the same characters.
pub fn same(a: &str, b: &str) -> (r: bool)
    ensures
        r == (a@ == b@),
{
    let x = chars_of(a);
    let y = chars_of(b);
    if x.len() != y.len() {
        return false;
    }
    let mut i: usize = 0;
    while i < x.len()
        invariant
            x@ == a@,
            y@ == b@,
            x@.len() == y@.len(),
            i <= x@.len(),
            forall|j: int| 0 <= j < i ==> x@[j] == y@[j],
        decreases x@.len() - i,
    {
        if x[i] != y[i] {
            proof {
                assert(x@[i as int] != y@[i as int]);
            }
            return false;
        }
        i = i + 1;
    }
    proof {
        assert(x@ =~= y@);
    }
    true
}

/// `a` followed by `b`.
pub fn concat(a: &str, b: &str) -> (r: String)
    ensures
        r@ == a@ + b@,
{
    let mut v = chars_of(a);
    let w = chars_of(b);
    push_all(&mut v, &w);
    string_of(&v)
}

/// The view of an optional string.
pub open spec fn opt_view(o: Option<String>) -> Option<Seq<char>> {
    match o {
        Some(s) => Some(s@),
        None => None,
    }
}

/// The views of a list of strings.
pub open spec fn views(v: Seq<String>) -> Seq<Seq<char>> {
    v.map_values(|s: String| s@)
}

/// Appends all of `s`.
pub fn push_all(out: &mut Vec<char>, s: &Vec<char>)
    ensures
        final(out)@ == old(out)@ + s@,
{
    let mut i: usize = 0;
    while i < s.len()
        invariant
            i <= s@.len(),
            out@ == old(out)@ + s@.subrange(0, i as int),
        decreases s@.len() - i,
    {
        out.push(s[i]);
        i = i + 1;
        proof {
            assert(out@ =~= old(out)@ + s@.subrange(0, i as int));
        }
    }
    proof {
        assert(s@.subrange(0, i as int) =~= s@);
    }
}

/// Appends the dotted-quad form of `a`.
pub fn push_dotted(out: &mut Vec<char>, a: u32)
    ensures
        final(out)@ == old(out)@ + dotted(a),
{
    let ghost start = out@;
    push_decimal(out, a / 0x100_0000);
    out.push('.');
    push_decimal(out, (a / 0x1_0000) % 256);
    out.push('.');
    push_decimal(out, (a / 0x100) % 256);
    out.push('.');
    push_decimal(out, a % 256);
    proof {
        assert(out@ =~= start + dotted(a));
    }
}

/// The dotted-quad form of `a` as a string.
pub fn dotted_string(a: u32) -> (r: String)
    ensures
        r@ == dotted(a),
{
    let mut v: Vec<char> = Vec::new();
    push_dotted(&mut v, a);
    proof {
        assert(v@ =~= dotted(a));
    }
    string_of(&v)
}

} // verus!
