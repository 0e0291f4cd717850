//! Character-level text handling shared by the argument, channel and message parsers.
//!
//! Strings are handled as sequences of `char`s. The functions here follow the
//! documented behaviour of the `std` routines the protocol code relies on
//! (`str::trim`, ASCII case mapping, `u16::from_str`, `u16::from_str_radix`),
//! each stated as a short spec function.
use vstd::prelude::*;

verus! {

/// Appends one character to a `String` (`String::push`).
#[verifier::external_body]
pub(crate) fn push_char(s: &mut String, c: char)
    ensures
        final(s)@ == old(s)@.push(c),
{
    s.push(c);
}

/// The characters of a string slice, in order.
pub fn chars_of(s: &str) -> (v: Vec<char>)
    ensures
        v@ == s@,
{
    let n = s.unicode_len();
    let mut v: Vec<char> = Vec::new();
    let mut i: usize = 0;
    while i < n
        invariant
            n == s@.len(),
            i <= n,
            v@ == s@.subrange(0, i as int),
        decreases n - i,
    {
        let c = s.get_char(i);
        v.push(c);
        i = i + 1;
        assert(v@ =~= s@.subrange(0, i as int));
    }
    assert(v@ =~= s@);
    v
}

/// A `String` holding exactly the given characters.
pub fn string_of(v: &[char]) -> (s: String)
    ensures
        s@ == v@,
{
    let mut s = String::new();
    let mut i: usize = 0;
    while i < v.len()
        invariant
            i <= v@.len(),
            s@ == v@.subrange(0, i as int),
        decreases v@.len() - i,
    {
        push_char(&mut s, v[i]);
        i = i + 1;
        assert(s@ =~= v@.subrange(0, i as int));
    }
    assert(s@ =~= v@);
    s
}

/// The Unicode `White_Space` property, which `char::is_whitespace` (and so `str::trim`) uses.
pub open spec fn is_ws(c: char) -> bool {
    ||| ('\u{9}' <= c && c <= '\u{d}')
    ||| c == ' '
    ||| c == '\u{85}'
    ||| c == '\u{a0}'
    ||| c == '\u{1680}'
    ||| ('\u{2000}' <= c && c <= '\u{200a}')
    ||| c == '\u{2028}'
    ||| c == '\u{2029}'
    ||| c == '\u{202f}'
    ||| c == '\u{205f}'
    ||| c == '\u{3000}'
}

pub fn char_is_ws(c: char) -> (r: bool)
    ensures
        r == is_ws(c),
{
    ('\u{9}' <= c && c <= '\u{d}') || c == ' ' || c == '\u{85}' || c == '\u{a0}' || c == '\u{1680}'
        || ('\u{2000}' <= c && c <= '\u{200a}') || c == '\u{2028}' || c == '\u{2029}' || c
        == '\u{202f}' || c == '\u{205f}' || c == '\u{3000}'
}

/// `s` without its leading white space.
pub open spec fn trim_start(s: Seq<char>) -> Seq<char>
    decreases s.len(),
{
    if s.len() > 0 && is_ws(s[0]) {
        trim_start(s.drop_first())
    } else {
        s
    }
}

/// `s` without its trailing white space.
pub open spec fn trim_end(s: Seq<char>) -> Seq<char>
    decreases s.len(),
{
    if s.len() > 0 && is_ws(s.last()) {
        trim_end(s.drop_last())
    } else {
        s
    }
}

/// `s` without leading and trailing white space (`str::trim`).
pub open spec fn trim(s: Seq<char>) -> Seq<char> {
    trim_end(trim_start(s))
}

proof fn lemma_trim_start_at(s: Seq<char>, i: int)
    requires
        0 <= i <= s.len(),
        forall|k: int| 0 <= k < i ==> is_ws(#[trigger] s[k]),
        i == s.len() || !is_ws(s[i]),
    ensures
        trim_start(s) == s.subrange(i, s.len() as int),
    decreases i,
{
    if i > 0 {
        assert(forall|k: int|
            0 <= k < i - 1 ==> #[trigger] s.drop_first()[k] == s[k + 1]);
        lemma_trim_start_at(s.drop_first(), i - 1);
        assert(s.drop_first().subrange(i - 1, s.len() - 1) =~= s.subrange(i, s.len() as int));
    } else {
        assert(s.subrange(0, s.len() as int) =~= s);
    }
}

/// A text with no white space in it is its own trim.
pub(crate) proof fn lemma_trim_plain(s: Seq<char>)
    requires
        forall|k: int| 0 <= k < s.len() ==> !is_ws(#[trigger] s[k]),
    ensures
        trim(s) == s,
{
    lemma_trim_start_at(s, 0);
    assert(s.subrange(0, s.len() as int) =~= s);
    lemma_trim_end_at(s, s.len() as int);
}

proof fn lemma_trim_end_at(s: Seq<char>, j: int)
    requires
        0 <= j <= s.len(),
        forall|k: int| j <= k < s.len() ==> is_ws(#[trigger] s[k]),
        j == 0 || !is_ws(s[j - 1]),
    ensures
        trim_end(s) == s.subrange(0, j),
    decreases s.len() - j,
{
    if j < s.len() {
        assert(forall|k: int| 0 <= k < s.len() - 1 ==> #[trigger] s.drop_last()[k] == s[k]);
        lemma_trim_end_at(s.drop_last(), j);
        assert(s.drop_last().subrange(0, j) =~= s.subrange(0, j));
    } else {
        assert(s.subrange(0, s.len() as int) =~= s);
    }
}

/// The characters of `v` without leading and trailing white space.
pub fn trim_chars(v: &[char]) -> (r: Vec<char>)
    ensures
        r@ == trim(v@),
{
    let n = v.len();
    let mut i: usize = 0;
    while i < n && char_is_ws(v[i])
        invariant
            n == v@.len(),
            i <= n,
            forall|k: int| 0 <= k < i ==> is_ws(#[trigger] v@[k]),
        decreases n - i,
    {
        i = i + 1;
    }
    proof {
        lemma_trim_start_at(v@, i as int);
    }
    let ghost ts = v@.subrange(i as int, n as int);
    let mut j: usize = n;
    while j > i && char_is_ws(v[j - 1])
        invariant
            n == v@.len(),
            i <= j <= n,
            ts == v@.subrange(i as int, n as int),
            forall|k: int| j <= k < n ==> is_ws(#[trigger] v@[k]),
        decreases j,
    {
        j = j - 1;
    }
    proof {
        assert forall|k: int| (j - i) <= k < ts.len() implies is_ws(#[trigger] ts[k]) by {
            assert(ts[k] == v@[k + i]);
        }
        if j > i {
            assert(ts[j - i - 1] == v@[j - 1]);
        }
        lemma_trim_end_at(ts, j - i);
        assert(ts.subrange(0, j - i) =~= v@.subrange(i as int, j as int));
    }
    slice_range(v, i, j)
}

/// The characters `v[from..to]`.
pub fn slice_range(v: &[char], from: usize, to: usize) -> (r: Vec<char>)
    requires
        from <= to <= v@.len(),
    ensures
        r@ == v@.subrange(from as int, to as int),
{
    let mut r: Vec<char> = Vec::new();
    let mut k = from;
    while k < to
        invariant
            from <= k <= to,
            to <= v@.len(),
            r@ == v@.subrange(from as int, k as int),
        decreases to - k,
    {
        r.push(v[k]);
        k = k + 1;
        assert(r@ =~= v@.subrange(from as int, k as int));
    }
    r
}

/// ASCII upper case letters mapped to lower case (`char::to_ascii_lowercase`).
pub open spec fn lower(c: char) -> char {
    if 'A' <= c && c <= 'Z' {
        ((c as u32) + 32) as char
    } else {
        c
    }
}

/// ASCII lower case letters mapped to upper case (`char::to_ascii_uppercase`).
pub open spec fn upper(c: char) -> char {
    if 'a' <= c && c <= 'z' {
        ((c as u32) - 32) as char
    } else {
        c
    }
}

pub open spec fn lower_seq(s: Seq<char>) -> Seq<char> {
    Seq::new(s.len(), |i: int| lower(s[i]))
}

pub open spec fn upper_seq(s: Seq<char>) -> Seq<char> {
    Seq::new(s.len(), |i: int| upper(s[i]))
}

pub fn char_lower(c: char) -> (r: char)
    ensures
        r == lower(c),
{
    if 'A' <= c && c <= 'Z' {
        let u = (c as u32) + 32;
        proof {
            assert('a' <= u as char && u as char <= 'z');
        }
        char_of_ascii(u)
    } else {
        c
    }
}

pub fn char_upper(c: char) -> (r: char)
    ensures
        r == upper(c),
{
    if 'a' <= c && c <= 'z' {
        let u = (c as u32) - 32;
        char_of_ascii(u)
    } else {
        c
    }
}

/// The character with an ASCII code point.
fn char_of_ascii(u: u32) -> (c: char)
    requires
        u < 128,
    ensures
        c == u as char,
{
    let b = u as u8;
    b as char
}

/// ASCII lower-case copy of `v` (`str::to_ascii_lowercase`).
pub fn to_ascii_lower(v: &[char]) -> (r: Vec<char>)
    ensures
        r@ == lower_seq(v@),
{
    let mut r: Vec<char> = Vec::new();
    let mut i: usize = 0;
    while i < v.len()
        invariant
            i <= v@.len(),
            r@ == lower_seq(v@).subrange(0, i as int),
        decreases v@.len() - i,
    {
        r.push(char_lower(v[i]));
        i = i + 1;
        assert(r@ =~= lower_seq(v@).subrange(0, i as int));
    }
    assert(r@ =~= lower_seq(v@));
    r
}

/// ASCII upper-case copy of `v` (`str::to_ascii_uppercase`).
pub fn to_ascii_upper(v: &[char]) -> (r: Vec<char>)
    ensures
        r@ == upper_seq(v@),
{
    let mut r: Vec<char> = Vec::new();
    let mut i: usize = 0;
    while i < v.len()
        invariant
            i <= v@.len(),
            r@ == upper_seq(v@).subrange(0, i as int),
        decreases v@.len() - i,
    {
        r.push(char_upper(v[i]));
        i = i + 1;
        assert(r@ =~= upper_seq(v@).subrange(0, i as int));
    }
    assert(r@ =~= upper_seq(v@));
    r
}

/// Whether two character sequences are equal.
pub fn chars_eq(a: &[char], b: &[char]) -> (r: bool)
    ensures
        r == (a@ == b@),
{
    if a.len() != b.len() {
        return false;
    }
    let mut i: usize = 0;
    while i < a.len()
        invariant
            a@.len() == b@.len(),
            i <= a@.len(),
            forall|k: int| 0 <= k < i ==> a@[k] == b@[k],
        decreases a@.len() - i,
    {
        if a[i] != b[i] {
            return false;
        }
        i = i + 1;
    }
    assert(a@ =~= b@);
    true
}

/// Whether `p` is a prefix of `s`.
/// Whether the characters `v` spell out `t`.
pub fn is_text(v: &[char], t: &str) -> (r: bool)
    ensures
        r == (v@ == t@),
{
    let w = chars_of(t);
    chars_eq(v, w.as_slice())
}

pub open spec fn has_prefix(s: Seq<char>, p: Seq<char>) -> bool {
    p.len() <= s.len() && s.subrange(0, p.len() as int) == p
}

pub fn starts_with(s: &[char], p: &[char]) -> (r: bool)
    ensures
        r == has_prefix(s@, p@),
{
    if p.len() > s.len() {
        return false;
    }
    let mut i: usize = 0;
    while i < p.len()
        invariant
            p@.len() <= s@.len(),
            i <= p@.len(),
            forall|k: int| 0 <= k < i ==> s@[k] == p@[k],
        decreases p@.len() - i,
    {
        if s[i] != p[i] {
            assert(s@.subrange(0, p@.len() as int)[i as int] != p@[i as int]);
            return false;
        }
        i = i + 1;
    }
    assert(s@.subrange(0, p@.len() as int) =~= p@);
    true
}

/// Whether `p` occurs in `s` at position `i`.
pub open spec fn occurs_at(s: Seq<char>, p: Seq<char>, i: int) -> bool {
    0 <= i && i + p.len() <= s.len() && s.subrange(i, i + p.len()) == p
}

/// Whether `p` occurs anywhere in `s` (`str::contains`).
pub open spec fn contains_seq(s: Seq<char>, p: Seq<char>) -> bool {
    exists|i: int| occurs_at(s, p, i)
}

pub fn contains(s: &[char], p: &[char]) -> (r: bool)
    ensures
        r == contains_seq(s@, p@),
{
    if p.len() > s.len() {
        return false;
    }
    if p.len() == 0 {
        assert(s@.subrange(0, 0) =~= p@);
        assert(occurs_at(s@, p@, 0));
        return true;
    }
    let slen = s.len();
    let last = slen - p.len();
    let mut i: usize = 0;
    while i <= last
        invariant
            last == s@.len() - p@.len(),
            slen == s@.len(),
            0 < p@.len() <= s@.len(),
            i <= last + 1,
            forall|k: int| 0 <= k < i ==> !occurs_at(s@, p@, k),
        decreases last + 1 - i,
    {
        let mut j: usize = 0;
        let mut ok = true;
        while j < p.len()
            invariant
                i <= last,
                last == s@.len() - p@.len(),
                slen == s@.len(),
                0 < p@.len() <= s@.len(),
                j <= p@.len(),
                ok ==> forall|k: int| 0 <= k < j ==> s@[i + k] == p@[k],
                !ok ==> !occurs_at(s@, p@, i as int),
            decreases p@.len() - j,
        {
            if ok && s[i + j] != p[j] {
                ok = false;
                assert(s@.subrange(i as int, i + p@.len())[j as int] == s@[i + j]);
            }
            j = j + 1;
        }
        if ok {
            assert(s@.subrange(i as int, i + p@.len()) =~= p@);
            assert(occurs_at(s@, p@, i as int));
            return true;
        }
        i = i + 1;
    }
    assert forall|k: int| #![trigger occurs_at(s@, p@, k)] true implies !occurs_at(s@, p@, k) by {
        if 0 <= k && k < i {
        }
    }
    false
}

/// Position of the first `c` in `s`, if any.
pub open spec fn first_index_of(s: Seq<char>, c: char) -> Option<int> {
    if exists|i: int| 0 <= i < s.len() && s[i] == c {
        Some(choose|i: int| 0 <= i < s.len() && s[i] == c && forall|k: int| 0 <= k < i ==> s[k] != c)
    } else {
        None
    }
}

pub fn find_char(s: &[char], c: char) -> (r: Option<usize>)
    ensures
        match r {
            Some(i) => i < s@.len() && s@[i as int] == c && forall|k: int| 0 <= k < i ==> s@[k] != c,
            None => forall|k: int| 0 <= k < s@.len() ==> s@[k] != c,
        },
        r matches Some(i) ==> first_index_of(s@, c) == Some(i as int),
        r is None ==> first_index_of(s@, c) is None,
{
    let mut i: usize = 0;
    while i < s.len()
        invariant
            i <= s@.len(),
            forall|k: int| 0 <= k < i ==> s@[k] != c,
        decreases s@.len() - i,
    {
        if s[i] == c {
            proof {
                assert(0 <= i < s@.len() && s@[i as int] == c && forall|k: int|
                    0 <= k < i ==> s@[k] != c);
                let w = choose|w: int|
                    0 <= w < s@.len() && s@[w] == c && forall|k: int| 0 <= k < w ==> s@[k] != c;
                if w > i {
                    assert(s@[i as int] != c);
                }
                assert(w == i);
            }
            return Some(i);
        }
        i = i + 1;
    }
    None
}


/// Why an integer could not be read from a string (`std::num::IntErrorKind`).
#[derive(Clone, Copy, Debug, PartialEq, Eq, Structural)]
pub enum IntErrorKind {
    Empty,
    InvalidDigit,
    PosOverflow,
    NegOverflow,
}

/// Value of a digit in radix 10 or 16 (`char::to_digit`).
pub open spec fn digit_of(c: char, radix: nat) -> Option<nat> {
    if '0' <= c && c <= '9' && (c as u32) - ('0' as u32) < radix {
        Some(((c as u32) - ('0' as u32)) as nat)
    } else if radix == 16 && 'a' <= c && c <= 'f' {
        Some(((c as u32) - ('a' as u32) + 10) as nat)
    } else if radix == 16 && 'A' <= c && c <= 'F' {
        Some(((c as u32) - ('A' as u32) + 10) as nat)
    } else {
        None
    }
}

/// Reads the digits of `s` from left to right; the first invalid digit, or the
/// first step where the running value exceeds `max`, ends the read.
pub open spec fn digits_value(s: Seq<char>, radix: nat, max: int) -> Result<int, IntErrorKind>
    decreases s.len(),
{
    if s.len() == 0 {
        Ok(0)
    } else {
        match digits_value(s.drop_last(), radix, max) {
            Err(k) => Err(k),
            Ok(acc) => match digit_of(s.last(), radix) {
                None => Err(IntErrorKind::InvalidDigit),
                Some(d) => if acc * radix + d > max {
                    Err(IntErrorKind::PosOverflow)
                } else {
                    Ok(acc * radix + d)
                },
            },
        }
    }
}

/// An unsigned integer no larger than `max`, read as `from_str_radix` reads it:
/// an optional `+`, then at least one digit.
pub open spec fn parse_uint(s: Seq<char>, radix: nat, max: int) -> Result<int, IntErrorKind> {
    if s.len() == 0 {
        Err(IntErrorKind::Empty)
    } else if s[0] == '+' {
        if s.len() == 1 {
            Err(IntErrorKind::InvalidDigit)
        } else {
            digits_value(s.drop_first(), radix, max)
        }
    } else {
        digits_value(s, radix, max)
    }
}

fn digit_value(c: char, radix: u32) -> (r: Option<u32>)
    requires
        radix == 10 || radix == 16,
    ensures
        match r {
            Some(d) => digit_of(c, radix as nat) == Some(d as nat) && d < radix,
            None => digit_of(c, radix as nat) is None,
        },
{
    if '0' <= c && c <= '9' {
        let d = (c as u32) - ('0' as u32);
        Some(d)
    } else if radix == 16 && 'a' <= c && c <= 'f' {
        Some((c as u32) - ('a' as u32) + 10)
    } else if radix == 16 && 'A' <= c && c <= 'F' {
        Some((c as u32) - ('A' as u32) + 10)
    } else {
        None
    }
}

proof fn lemma_digits_value_bounds(s: Seq<char>, radix: nat, max: int)
    requires
        0 <= max,
    ensures
        digits_value(s, radix, max) matches Ok(v) ==> 0 <= v <= max,
    decreases s.len(),
{
    if s.len() > 0 {
        lemma_digits_value_bounds(s.drop_last(), radix, max);
    }
}

/// Reads an unsigned integer of at most `max` from `v` in radix 10 or 16.
pub fn parse_uint_chars(v: &[char], radix: u32, max: u64) -> (r: Result<u64, IntErrorKind>)
    requires
        radix == 10 || radix == 16,
    ensures
        match r {
            Ok(n) => parse_uint(v@, radix as nat, max as int) == Ok::<int, IntErrorKind>(n as int),
            Err(k) => parse_uint(v@, radix as nat, max as int) == Err::<int, IntErrorKind>(k),
        },
{
    if v.len() == 0 {
        return Err(IntErrorKind::Empty);
    }
    let mut start: usize = 0;
    if v[0] == '+' {
        if v.len() == 1 {
            return Err(IntErrorKind::InvalidDigit);
        }
        start = 1;
    }
    let ghost body = v@.subrange(start as int, v@.len() as int);
    proof {
        if start == 1 {
            assert(body =~= v@.drop_first());
        } else {
            assert(body =~= v@);
        }
        assert(parse_uint(v@, radix as nat, max as int) == digits_value(body, radix as nat, max as int));
    }
    let mut acc: u64 = 0;
    let mut i: usize = start;
    while i < v.len()
        invariant
            start <= i <= v@.len(),
            radix == 10 || radix == 16,
            body == v@.subrange(start as int, v@.len() as int),
            parse_uint(v@, radix as nat, max as int) == digits_value(body, radix as nat, max as int),
            digits_value(v@.subrange(start as int, i as int), radix as nat, max as int)
                == Ok::<int, IntErrorKind>(acc as int),
            acc <= max,
        decreases v@.len() - i,
    {
        let ghost pre = v@.subrange(start as int, i as int);
        let ghost cur = v@.subrange(start as int, i + 1);
        assert(cur.drop_last() =~= pre);
        assert(cur.last() == v@[i as int]);
        match digit_value(v[i], radix) {
            None => {
                proof {
                    lemma_digits_prefix_err(body, (i - start) as int, radix as nat, max as int);
                    assert(body.subrange(0, i + 1 - start) =~= cur);
                }
                return Err(IntErrorKind::InvalidDigit);
            },
            Some(d) => {
                let wide: u128 = if radix == 10 {
                    (acc as u128) * 10 + (d as u128)
                } else {
                    (acc as u128) * 16 + (d as u128)
                };
                if wide > max as u128 {
                    proof {
                        lemma_digits_prefix_err(body, (i - start) as int, radix as nat, max as int);
                        assert(body.subrange(0, i + 1 - start) =~= cur);
                    }
                    return Err(IntErrorKind::PosOverflow);
                }
                acc = wide as u64;
            },
        }
        i = i + 1;
    }
    assert(v@.subrange(start as int, v@.len() as int) =~= body);
    Ok(acc)
}

/// An `i8` read as `str::parse` reads it: an optional `+` or `-`, then at least one
/// decimal digit; the value must lie in `-128..=127`.
pub open spec fn parse_i8(s: Seq<char>) -> Result<int, IntErrorKind> {
    if s.len() > 0 && s[0] == '-' {
        let body = s.drop_first();
        if body.len() == 0 {
            Err(IntErrorKind::InvalidDigit)
        } else {
            match digits_value(body, 10, 128) {
                Ok(v) => Ok(-v),
                Err(IntErrorKind::PosOverflow) => Err(IntErrorKind::NegOverflow),
                Err(k) => Err(k),
            }
        }
    } else {
        parse_uint(s, 10, 127)
    }
}

pub fn parse_i8_chars(v: &[char]) -> (r: Result<i8, IntErrorKind>)
    ensures
        match r {
            Ok(n) => parse_i8(v@) == Ok::<int, IntErrorKind>(n as int),
            Err(k) => parse_i8(v@) == Err::<int, IntErrorKind>(k),
        },
{
    if v.len() > 0 && v[0] == '-' {
        let body = slice_range(v, 1, v.len());
        assert(body@ =~= v@.drop_first());
        if body.len() == 0 {
            return Err(IntErrorKind::InvalidDigit);
        }
        if body[0] == '+' {
            proof {
                assert(digits_value(body@.subrange(0, 1), 10, 128) == Err::<int, IntErrorKind>(
                    IntErrorKind::InvalidDigit,
                )) by {
                    let one = body@.subrange(0, 1);
                    assert(one.drop_last() =~= Seq::<char>::empty());
                    assert(digits_value(one.drop_last(), 10, 128) == Ok::<int, IntErrorKind>(0));
                    assert(one.last() == '+');
                }
                lemma_digits_prefix_err(body@, 0, 10, 128);
            }
            return Err(IntErrorKind::InvalidDigit);
        }
        proof {
            lemma_digits_value_bounds(body@, 10, 128);
        }
        match parse_uint_chars(body.as_slice(), 10, 128) {
            Ok(n) => {
                let m: i16 = -(n as i16);
                Ok(m as i8)
            },
            Err(IntErrorKind::PosOverflow) => Err(IntErrorKind::NegOverflow),
            Err(k) => Err(k),
        }
    } else {
        match parse_uint_chars(v, 10, 127) {
            Ok(n) => Ok(n as i8),
            Err(k) => Err(k),
        }
    }
}

/// Once a prefix of the digits fails to read, the whole sequence fails the same way.
proof fn lemma_digits_prefix_err(s: Seq<char>, n: int, radix: nat, max: int)
    requires
        0 <= n < s.len(),
    ensures
        digits_value(s.subrange(0, n + 1), radix, max) is Err ==> digits_value(s, radix, max)
            == digits_value(s.subrange(0, n + 1), radix, max),
    decreases s.len() - n,
{
    if n + 1 < s.len() {
        lemma_digits_prefix_err(s.drop_last(), n, radix, max);
        assert(s.drop_last().subrange(0, n + 1) =~= s.subrange(0, n + 1));
    } else {
        assert(s.subrange(0, n + 1) =~= s);
    }
}

/// The text `std` gives for each reason an integer could not be read.
pub open spec fn int_error_text(k: IntErrorKind) -> Seq<char> {
    match k {
        IntErrorKind::Empty => "cannot parse integer from empty string"@,
        IntErrorKind::InvalidDigit => "invalid digit found in string"@,
        IntErrorKind::PosOverflow => "number too large to fit in target type"@,
        IntErrorKind::NegOverflow => "number too small to fit in target type"@,
    }
}

pub fn int_error_message(k: IntErrorKind) -> (s: String)
    ensures
        s@ == int_error_text(k),
{
    match k {
        IntErrorKind::Empty => String::from_str("cannot parse integer from empty string"),
        IntErrorKind::InvalidDigit => String::from_str("invalid digit found in string"),
        IntErrorKind::PosOverflow => String::from_str("number too large to fit in target type"),
        IntErrorKind::NegOverflow => String::from_str("number too small to fit in target type"),
    }
}

/// The digit character for a value below 16 (upper-case letters above 9).
pub open spec fn digit_char(d: nat) -> char {
    if d < 10 {
        (('0' as u32) + d) as char
    } else {
        (('A' as u32) + d - 10) as char
    }
}

/// `n` written in `radix` without leading zeros (`{}` and `{:X}`).
pub open spec fn radix_text(n: nat, radix: nat) -> Seq<char>
    decreases n,
{
    if n < radix || radix < 2 {
        seq![digit_char(n)]
    } else {
        proof {
            assert(n / radix < n) by (nonlinear_arith)
                requires
                    radix >= 2,
                    n >= radix,
            ;
        }
        radix_text(n / radix, radix).push(digit_char(n % radix))
    }
}

/// A digit character reads back as its value.
pub proof fn digit_char_reads_back(d: nat, radix: nat)
    requires
        radix == 10 || radix == 16,
        d < radix,
    ensures
        digit_of(digit_char(d), radix) == Some(d),
        digit_char(d) != '+' && digit_char(d) != 'x',
        radix == 10 ==> '0' <= digit_char(d) <= '9',
{
    if d < 10 {
        assert((('0' as u32) + d) as char as u32 == ('0' as u32) + d);
    } else {
        assert((('A' as u32) + d - 10) as char as u32 == ('A' as u32) + d - 10);
    }
}

/// A number written in radix 10 or 16 reads back as itself, provided it is at most `max`.
pub proof fn radix_text_reads_back(n: nat, radix: nat, max: int)
    requires
        radix == 10 || radix == 16,
        n <= max,
    ensures
        digits_value(radix_text(n, radix), radix, max) == Ok::<int, IntErrorKind>(n as int),
        radix_text(n, radix).len() > 0,
        forall|i: int|
            0 <= i < radix_text(n, radix).len() ==> #[trigger] radix_text(n, radix)[i] != '+'
                && radix_text(n, radix)[i] != 'x' && (radix == 10 ==> '0' <= radix_text(n, radix)[i]
                <= '9'),
    decreases n,
{
    let t = radix_text(n, radix);
    if n < radix {
        digit_char_reads_back(n, radix);
        assert(t.drop_last() =~= Seq::<char>::empty());
        assert(digits_value(t.drop_last(), radix, max) == Ok::<int, IntErrorKind>(0));
        assert(t.last() == digit_char(n));
    } else {
        let q = n / radix;
        let r = n % radix;
        assert(q < n && q * radix + r == n && r < radix) by (nonlinear_arith)
            requires
                radix >= 10,
                n >= radix,
                q == n / radix,
                r == n % radix,
        ;
        radix_text_reads_back(q, radix, max);
        digit_char_reads_back(r, radix);
        let tq = radix_text(q, radix);
        assert(t == tq.push(digit_char(r)));
        assert(t.drop_last() =~= tq);
        assert(t.last() == digit_char(r));
        assert(digits_value(t.drop_last(), radix, max) == Ok::<int, IntErrorKind>(q as int));
        assert forall|i: int| 0 <= i < t.len() implies #[trigger] t[i] != '+' && t[i] != 'x' && (
        radix == 10 ==> '0' <= t[i] <= '9') by {
            if i < tq.len() {
                assert(t[i] == tq[i]);
            }
        }
    }
}

/// `n` in decimal.
pub open spec fn dec_text(n: nat) -> Seq<char> {
    radix_text(n, 10)
}

/// `n` in upper-case hexadecimal, left-padded with zeros to `width` characters (`{:0width$X}`).
pub open spec fn hex_text(n: nat, width: nat) -> Seq<char> {
    let t = radix_text(n, 16);
    if t.len() >= width {
        t
    } else {
        Seq::new((width - t.len()) as nat, |i: int| '0') + t
    }
}

fn digit_to_char(d: u64) -> (c: char)
    requires
        d < 16,
    ensures
        c == digit_char(d as nat),
{
    if d < 10 {
        char_of_ascii(('0' as u32) + (d as u32))
    } else {
        char_of_ascii(('A' as u32) + (d as u32) - 10)
    }
}

/// The digits of `n` in radix 10 or 16.
pub fn radix_chars(n: u64, radix: u64) -> (r: Vec<char>)
    requires
        radix == 10 || radix == 16,
    ensures
        r@ == radix_text(n as nat, radix as nat),
    decreases n,
{
    if n < radix {
        let mut r: Vec<char> = Vec::new();
        r.push(digit_to_char(n));
        assert(r@ =~= seq![digit_char(n as nat)]);
        r
    } else {
        let mut r = radix_chars(n / radix, radix);
        r.push(digit_to_char(n % radix));
        r
    }
}

/// Appends `n` in decimal.
pub fn push_dec(s: &mut String, n: u64)
    ensures
        final(s)@ == old(s)@ + dec_text(n as nat),
{
    let d = radix_chars(n, 10);
    let t = string_of(d.as_slice());
    s.append(t.as_str());
}

/// Appends `n` in upper-case hexadecimal, zero-padded to `width` characters.
pub fn push_hex(s: &mut String, n: u64, width: usize)
    ensures
        final(s)@ == old(s)@ + hex_text(n as nat, width as nat),
{
    let d = radix_chars(n, 16);
    let ghost t = radix_text(n as nat, 16);
    if d.len() < width {
        let pad = width - d.len();
        let mut k: usize = 0;
        let ghost start = s@;
        while k < pad
            invariant
                k <= pad,
                s@ == start + Seq::new(k as nat, |i: int| '0'),
            decreases pad - k,
        {
            push_char(s, '0');
            k = k + 1;
            assert(s@ =~= start + Seq::new(k as nat, |i: int| '0'));
        }
        let tt = string_of(d.as_slice());
        s.append(tt.as_str());
        assert(s@ =~= start + (Seq::new(pad as nat, |i: int| '0') + t));
    } else {
        let tt = string_of(d.as_slice());
        s.append(tt.as_str());
    }
}

/// The Unicode lower-case mapping of a string, as `str::to_lowercase` computes it.
pub uninterp spec fn unicode_lower(s: Seq<char>) -> Seq<char>;

/// `str::to_lowercase`: the string with every character mapped to lower case by
/// Unicode's rules.
#[verifier::external_body]
pub(crate) fn str_to_lowercase(s: &str) -> (r: String)
    ensures
        r@ == unicode_lower(s@),
{
    s.to_lowercase()
}

} // verus!
