//! Character-level text operations used throughout the library, each with a
//! specification over the string's sequence of characters.
use vstd::prelude::*;

verus! {

// ---------------------------------------------------------------------------
// Specifications
// ---------------------------------------------------------------------------

/// `p` is a prefix of `s`.
pub open spec fn seq_starts_with(s: Seq<char>, p: Seq<char>) -> bool {
    p.len() <= s.len() && s.subrange(0, p.len() as int) == p
}

/// `p` occurs in `s` starting at position `i`.
pub open spec fn occurs_at(s: Seq<char>, p: Seq<char>, i: int) -> bool {
    0 <= i && i + p.len() <= s.len() && s.subrange(i, i + p.len()) == p
}

/// `p` occurs somewhere in `s` (the empty pattern occurs in every text).
pub open spec fn seq_contains(s: Seq<char>, p: Seq<char>) -> bool {
    exists|i: int| occurs_at(s, p, i)
}

/// Unicode `White_Space`, the property that `char::is_whitespace` tests.
pub open spec fn is_ws(c: char) -> bool {
    ||| '\u{9}' <= c <= '\u{d}'
    ||| c == ' '
    ||| c == '\u{85}'
    ||| c == '\u{a0}'
    ||| c == '\u{1680}'
    ||| '\u{2000}' <= c <= '\u{200a}'
    ||| c == '\u{2028}'
    ||| c == '\u{2029}'
    ||| c == '\u{202f}'
    ||| c == '\u{205f}'
    ||| c == '\u{3000}'
}

/// `s` without its leading white space.
pub open spec fn trim_start(s: Seq<char>) -> Seq<char>
    decreases s.len(),
{
    if s.len() > 0 && is_ws(s[0]) {
        trim_start(s.drop_first())
    } else {
        s
    }
}

/// `s` without its trailing white space.
pub open spec fn trim_end(s: Seq<char>) -> Seq<char>
    decreases s.len(),
{
    if s.len() > 0 && is_ws(s.last()) {
        trim_end(s.drop_last())
    } else {
        s
    }
}

/// `s` without leading and trailing white space.
pub open spec fn trim(s: Seq<char>) -> Seq<char> {
    trim_end(trim_start(s))
}

pub open spec fn is_ascii_upper(c: char) -> bool {
    'A' <= c <= 'Z'
}

/// ASCII lower-casing of one character.
pub open spec fn ascii_lower(c: char) -> char {
    if is_ascii_upper(c) {
        ((c as u32) + 32) as char
    } else {
        c
    }
}

/// `a` and `b` are equal once ASCII letters are lower-cased.
pub open spec fn eq_ignore_ascii_case(a: Seq<char>, b: Seq<char>) -> bool {
    a.len() == b.len() && forall|i: int| 0 <= i < a.len() ==> ascii_lower(a[i]) == ascii_lower(b[i])
}

pub open spec fn digit_char(d: int) -> char {
    (('0' as int) + d) as char
}

/// Decimal digits of a natural number, most significant first, no leading zero.
pub open spec fn digits(n: nat) -> Seq<char>
    decreases n,
{
    if n < 10 {
        seq![digit_char(n as int)]
    } else {
        digits(n / 10).push(digit_char((n % 10) as int))
    }
}

/// The text that `Display` writes for an integer.
pub open spec fn decimal(n: int) -> Seq<char> {
    if n < 0 {
        seq!['-'] + digits((-n) as nat)
    } else {
        digits(n as nat)
    }
}

/// Why parsing an integer failed (the kinds of std's `ParseIntError`).
#[derive(Debug, Clone, Copy, PartialEq, Eq, Structural)]
pub enum IntErrorKind {
    Empty,
    InvalidDigit,
    PosOverflow,
    NegOverflow,
}

pub open spec fn is_digit(c: char) -> bool {
    '0' <= c <= '9'
}

pub open spec fn digit_value(c: char) -> int {
    (c as int) - ('0' as int)
}

/// Digits of `ds` accumulated onto `acc` left to right, as std's integer
/// parsing does: a non-digit fails first, then leaving `[min, max]` fails.
pub open spec fn accumulate(ds: Seq<char>, acc: int, positive: bool, min: int, max: int) -> Result<
    int,
    IntErrorKind,
>
    decreases ds.len(),
{
    if ds.len() == 0 {
        Ok(acc)
    } else if !is_digit(ds[0]) {
        Err(IntErrorKind::InvalidDigit)
    } else {
        let next = if positive {
            acc * 10 + digit_value(ds[0])
        } else {
            acc * 10 - digit_value(ds[0])
        };
        if positive && next > max {
            Err(IntErrorKind::PosOverflow)
        } else if !positive && next < min {
            Err(IntErrorKind::NegOverflow)
        } else {
            accumulate(ds.drop_first(), next, positive, min, max)
        }
    }
}

/// What std's `str::parse` gives for an integer type with range `[min, max]`;
/// `signed` says whether a leading `-` is accepted.
pub open spec fn parse_int_spec(s: Seq<char>, signed: bool, min: int, max: int) -> Result<
    int,
    IntErrorKind,
> {
    if s.len() == 0 {
        Err(IntErrorKind::Empty)
    } else if (s[0] == '+' || s[0] == '-') && s.len() == 1 {
        Err(IntErrorKind::InvalidDigit)
    } else if s[0] == '+' {
        accumulate(s.drop_first(), 0, true, min, max)
    } else if s[0] == '-' && signed {
        accumulate(s.drop_first(), 0, false, min, max)
    } else {
        accumulate(s, 0, true, min, max)
    }
}

/// The message that std's `ParseIntError` displays for each kind.
pub open spec fn int_error_message(k: IntErrorKind) -> Seq<char> {
    match k {
        IntErrorKind::Empty => "cannot parse integer from empty string"@,
        IntErrorKind::InvalidDigit => "invalid digit found in string"@,
        IntErrorKind::PosOverflow => "number too large to fit in target type"@,
        IntErrorKind::NegOverflow => "number too small to fit in target type"@,
    }
}

// ---------------------------------------------------------------------------
// Building strings
// ---------------------------------------------------------------------------

/// Appends one character to a string (std `String::push`).
#[verifier::external_body]
fn push_char(s: &mut String, c: char)
    ensures
        final(s)@ == old(s)@.push(c),
{
    s.push(c);
}

/// The characters of `s`, in order.
pub fn chars_of(s: &str) -> (v: Vec<char>)
    ensures
        v@ == s@,
{
    let mut v: Vec<char> = Vec::new();
    for c in it: s.chars()
        invariant
            v@ == it.seq().take(it.index() as int),
    {
        v.push(c);
    }
    v
}

/// Builds a string from a sequence of characters.
pub fn string_of(v: &[char]) -> (s: String)
    ensures
        s@ == v@,
{
    let mut s = String::new();
    let mut i: usize = 0;
    while i < v.len()
        invariant
            i <= v.len(),
            s@ == v@.take(i as int),
        decreases v.len() - i,
    {
        push_char(&mut s, v[i]);
        assert(v@.take(i as int + 1) == v@.take(i as int).push(v@[i as int]));
        i += 1;
    }
    assert(v@.take(v.len() as int) == v@);
    s
}

/// A string holding the text of `s`.
pub fn owned(s: &str) -> (r: String)
    ensures
        r@ == s@,
{
    s.to_owned()
}

/// `a` followed by `b`.
pub fn concat(a: &str, b: &str) -> (r: String)
    ensures
        r@ == a@ + b@,
{
    let mut va = chars_of(a);
    let vb = chars_of(b);
    let mut i: usize = 0;
    while i < vb.len()
        invariant
            i <= vb.len(),
            vb@ == b@,
            va@ == a@ + b@.take(i as int),
        decreases vb.len() - i,
    {
        va.push(vb[i]);
        assert(b@.take(i as int + 1) == b@.take(i as int).push(b@[i as int]));
        i += 1;
    }
    assert(b@.take(b@.len() as int) == b@);
    string_of(&va)
}

// ---------------------------------------------------------------------------
// Queries
// ---------------------------------------------------------------------------

/// Whether `p` is a prefix of `s`.
pub fn starts_with(s: &str, p: &str) -> (r: bool)
    ensures
        r == seq_starts_with(s@, p@),
{
    let vs = chars_of(s);
    let vp = chars_of(p);
    if vp.len() > vs.len() {
        return false;
    }
    let mut i: usize = 0;
    while i < vp.len()
        invariant
            vs@ == s@,
            vp@ == p@,
            vp.len() <= vs.len(),
            i <= vp.len(),
            forall|j: int| 0 <= j < i ==> vs@[j] == vp@[j],
        decreases vp.len() - i,
    {
        if vs[i] != vp[i] {
            assert(s@.subrange(0, p@.len() as int)[i as int] != p@[i as int]);
            return false;
        }
        i += 1;
    }
    assert(s@.subrange(0, p@.len() as int) =~= p@);
    true
}

/// Whether `a` and `b` hold the same text.
pub fn same_str(a: &str, b: &str) -> (r: bool)
    ensures
        r == (a@ == b@),
{
    let r = starts_with(a, b) && a.unicode_len() == b.unicode_len();
    proof {
        if r {
            assert(a@ =~= b@);
        }
        if a@ == b@ {
            assert(a@.subrange(0, b@.len() as int) =~= b@);
        }
    }
    r
}

/// Whether `p` occurs in `vs` at position `i`.
fn occurs_at_exec(vs: &Vec<char>, vp: &Vec<char>, i: usize) -> (r: bool)
    requires
        i + vp.len() <= vs.len(),
    ensures
        r == occurs_at(vs@, vp@, i as int),
{
    let mut j: usize = 0;
    while j < vp.len()
        invariant
            i + vp.len() <= vs.len(),
            j <= vp.len(),
            forall|k: int| 0 <= k < j ==> vs@[i + k] == vp@[k],
        decreases vp.len() - j,
    {
        if vs[i + j] != vp[j] {
            assert(vs@.subrange(i as int, i + vp@.len())[j as int] != vp@[j as int]);
            return false;
        }
        j += 1;
    }
    assert(vs@.subrange(i as int, i + vp@.len()) =~= vp@);
    true
}

/// Whether `p` occurs in `s`.
pub fn contains(s: &str, p: &str) -> (r: bool)
    ensures
        r == seq_contains(s@, p@),
{
    let vs = chars_of(s);
    let vp = chars_of(p);
    if vp.len() == 0 {
        assert(s@.subrange(0, 0) =~= p@);
        assert(occurs_at(s@, p@, 0));
        return true;
    }
    if vp.len() > vs.len() {
        return false;
    }
    let last = vs.len() - vp.len();
    let mut i: usize = 0;
    while i <= last
        invariant
            vs@ == s@,
            vp@ == p@,
            last + vp.len() == vs.len(),
            vp.len() > 0,
            forall|k: int| 0 <= k < i ==> !occurs_at(s@, p@, k),
        decreases last + 1 - i,
    {
        if occurs_at_exec(&vs, &vp, i) {
            return true;
        }
        i += 1;
    }
    assert forall|k: int| !occurs_at(s@, p@, k) by {
        if 0 <= k && k + p@.len() <= s@.len() {
            assert(k < i);
        }
    }
    false
}

/// Whether character `c` occurs in `s`.
pub fn contains_char(s: &str, c: char) -> (r: bool)
    ensures
        r == s@.contains(c),
{
    let vs = chars_of(s);
    let mut i: usize = 0;
    while i < vs.len()
        invariant
            vs@ == s@,
            i <= vs.len(),
            forall|k: int| 0 <= k < i ==> vs@[k] != c,
        decreases vs.len() - i,
    {
        if vs[i] == c {
            return true;
        }
        i += 1;
    }
    false
}

/// Whether `c` is white space.
pub fn is_whitespace(c: char) -> (r: bool)
    ensures
        r == is_ws(c),
{
    ('\u{9}' <= c && c <= '\u{d}') || c == ' ' || c == '\u{85}' || c == '\u{a0}' || c
        == '\u{1680}' || ('\u{2000}' <= c && c <= '\u{200a}') || c == '\u{2028}' || c
        == '\u{2029}' || c == '\u{202f}' || c == '\u{205f}' || c == '\u{3000}'
}

proof fn lemma_trim_start_step(s: Seq<char>, lo: int)
    requires
        0 <= lo < s.len(),
        is_ws(s[lo]),
    ensures
        trim_start(s.subrange(lo, s.len() as int)) == trim_start(
            s.subrange(lo + 1, s.len() as int),
        ),
{
    assert(s.subrange(lo, s.len() as int).drop_first() =~= s.subrange(lo + 1, s.len() as int));
}

proof fn lemma_trim_end_step(s: Seq<char>, hi: int)
    requires
        0 < hi <= s.len(),
        is_ws(s[hi - 1]),
    ensures
        trim_end(s.subrange(0, hi)) == trim_end(s.subrange(0, hi - 1)),
{
    assert(s.subrange(0, hi).drop_last() =~= s.subrange(0, hi - 1));
}

/// The characters of `s` without leading and trailing white space.
pub fn trim_chars(s: &str) -> (r: Vec<char>)
    ensures
        r@ == trim(s@),
{
    let vs = chars_of(s);
    let n = vs.len();
    let mut lo: usize = 0;
    assert(s@.subrange(0, n as int) =~= s@);
    while lo < n && is_whitespace(vs[lo])
        invariant
            vs@ == s@,
            n == vs.len(),
            lo <= n,
            trim_start(s@) == trim_start(s@.subrange(lo as int, n as int)),
        decreases n - lo,
    {
        proof {
            lemma_trim_start_step(s@, lo as int);
        }
        lo += 1;
    }
    let ghost mid = s@.subrange(lo as int, n as int);
    assert(trim_start(mid) == mid);
    let mut hi: usize = n;
    assert(mid.subrange(0, (hi - lo) as int) =~= mid);
    while hi > lo && is_whitespace(vs[hi - 1])
        invariant
            vs@ == s@,
            n == vs.len(),
            lo <= hi <= n,
            mid == s@.subrange(lo as int, n as int),
            trim_end(mid) == trim_end(mid.subrange(0, (hi - lo) as int)),
        decreases hi - lo,
    {
        proof {
            lemma_trim_end_step(mid, (hi - lo) as int);
        }
        hi -= 1;
    }
    let ghost fin = mid.subrange(0, (hi - lo) as int);
    assert(trim_end(fin) == fin);
    let mut out: Vec<char> = Vec::new();
    let mut i: usize = lo;
    while i < hi
        invariant
            vs@ == s@,
            lo <= i <= hi <= n,
            n == vs.len(),
            out@ == s@.subrange(lo as int, i as int),
        decreases hi - i,
    {
        out.push(vs[i]);
        assert(s@.subrange(lo as int, i + 1) =~= s@.subrange(lo as int, i as int).push(s@[i as int]));
        i += 1;
    }
    assert(fin =~= s@.subrange(lo as int, hi as int));
    out
}

/// `s` without leading and trailing white space (std `str::trim`).
pub fn trim_str(s: &str) -> (r: String)
    ensures
        r@ == trim(s@),
{
    let v = trim_chars(s);
    string_of(&v)
}

/// Whether `a` and `b` agree once ASCII letters are lower-cased.
pub fn equals_ignore_ascii_case(a: &str, b: &str) -> (r: bool)
    ensures
        r == eq_ignore_ascii_case(a@, b@),
{
    let va = chars_of(a);
    let vb = chars_of(b);
    if va.len() != vb.len() {
        return false;
    }
    let mut i: usize = 0;
    while i < va.len()
        invariant
            va@ == a@,
            vb@ == b@,
            va.len() == vb.len(),
            i <= va.len(),
            forall|k: int| 0 <= k < i ==> ascii_lower(a@[k]) == ascii_lower(b@[k]),
        decreases va.len() - i,
    {
        let x = va[i];
        let y = vb[i];
        let lx = if 'A' <= x && x <= 'Z' {
            ((x as u32) + 32) as u8 as char
        } else {
            x
        };
        let ly = if 'A' <= y && y <= 'Z' {
            ((y as u32) + 32) as u8 as char
        } else {
            y
        };
        assert(lx == ascii_lower(x)) by {
            if is_ascii_upper(x) {
                assert(((x as u32) + 32) < 256);
            }
        }
        assert(ly == ascii_lower(y)) by {
            if is_ascii_upper(y) {
                assert(((y as u32) + 32) < 256);
            }
        }
        if lx != ly {
            return false;
        }
        i += 1;
    }
    true
}

// ---------------------------------------------------------------------------
// Integers
// ---------------------------------------------------------------------------

fn digit_to_char(d: u128) -> (c: char)
    requires
        d < 10,
    ensures
        c == digit_char(d as int),
{
    let b: u8 = 48u8 + (d as u8);
    b as char
}

/// Decimal digits of `n`.
fn digits_exec(n: u128) -> (v: Vec<char>)
    ensures
        v@ == digits(n as nat),
    decreases n,
{
    if n < 10 {
        let mut v = Vec::new();
        v.push(digit_to_char(n));
        assert(v@ =~= seq![digit_char(n as int)]);
        v
    } else {
        let mut v = digits_exec(n / 10);
        v.push(digit_to_char(n % 10));
        v
    }
}

/// The decimal text of `n`, as `Display` writes it.
pub fn format_i128(n: i128) -> (r: String)
    ensures
        r@ == decimal(n as int),
{
    if n < 0 {
        let m: u128 = ((-(n + 1)) as u128) + 1;
        let d = digits_exec(m);
        let mut v: Vec<char> = Vec::new();
        v.push('-');
        let mut i: usize = 0;
        while i < d.len()
            invariant
                i <= d.len(),
                v@ == seq!['-'] + d@.take(i as int),
            decreases d.len() - i,
        {
            v.push(d[i]);
            assert(d@.take(i as int + 1) == d@.take(i as int).push(d@[i as int]));
            i += 1;
        }
        assert(d@.take(d.len() as int) == d@);
        string_of(&v)
    } else {
        let d = digits_exec(n as u128);
        string_of(&d)
    }
}

/// The decimal text of `n`, as `Display` writes it.
pub fn format_i64(n: i64) -> (r: String)
    ensures
        r@ == decimal(n as int),
{
    format_i128(n as i128)
}

/// The decimal text of `n`, as `Display` writes it.
pub fn format_usize(n: usize) -> (r: String)
    ensures
        r@ == decimal(n as int),
{
    let d = digits_exec(n as u128);
    string_of(&d)
}

proof fn lemma_accumulate_bounded(ds: Seq<char>, acc: int, positive: bool, min: int, max: int)
    requires
        min <= acc <= max,
        min <= 0 <= max,
        positive ==> acc >= 0,
        !positive ==> acc <= 0,
    ensures
        accumulate(ds, acc, positive, min, max) matches Ok(v) ==> min <= v <= max,
    decreases ds.len(),
{
    if ds.len() > 0 && is_digit(ds[0]) {
        let next = if positive {
            acc * 10 + digit_value(ds[0])
        } else {
            acc * 10 - digit_value(ds[0])
        };
        if (positive && next > max) || (!positive && next < min) {
        } else {
            if positive {
                assert(next >= min) by (nonlinear_arith)
                    requires
                        next == acc * 10 + digit_value(ds[0]),
                        0 <= digit_value(ds[0]),
                        min <= acc,
                        min <= 0,
                        acc >= 0,
                ;
            } else {
                assert(next <= max) by (nonlinear_arith)
                    requires
                        next == acc * 10 - digit_value(ds[0]),
                        0 <= digit_value(ds[0]),
                        acc <= max,
                        max >= 0,
                        acc <= 0,
                ;
            }
            lemma_accumulate_bounded(ds.drop_first(), next, positive, min, max);
        }
    }
}

/// Parses `s` as an integer in `[min, max]`, as std's `str::parse` does.
fn parse_int(s: &str, signed: bool, min: i128, max: i128) -> (r: Result<i128, IntErrorKind>)
    requires
        -0x8000_0000_0000_0000 <= min <= 0,
        0 <= max <= 0xffff_ffff_ffff_ffff,
    ensures
        match parse_int_spec(s@, signed, min as int, max as int) {
            Ok(v) => r == Ok::<i128, IntErrorKind>(v as i128) && min <= v <= max,
            Err(k) => r == Err::<i128, IntErrorKind>(k),
        },
{
    let v = chars_of(s);
    if v.len() == 0 {
        return Err(IntErrorKind::Empty);
    }
    if (v[0] == '+' || v[0] == '-') && v.len() == 1 {
        return Err(IntErrorKind::InvalidDigit);
    }
    let positive: bool;
    let start: usize;
    if v[0] == '+' {
        positive = true;
        start = 1;
    } else if v[0] == '-' && signed {
        positive = false;
        start = 1;
    } else {
        positive = true;
        start = 0;
    }
    let ghost ds0 = s@.subrange(start as int, s@.len() as int);
    assert(start == 1 ==> ds0 =~= s@.drop_first());
    assert(start == 0 ==> ds0 =~= s@);
    assert(parse_int_spec(s@, signed, min as int, max as int) == accumulate(
        ds0,
        0,
        positive,
        min as int,
        max as int,
    ));
    let mut acc: i128 = 0;
    let mut i: usize = start;
    while i < v.len()
        invariant
            v@ == s@,
            start <= i <= v.len(),
            -0x8000_0000_0000_0000 <= min <= 0,
            0 <= max <= 0xffff_ffff_ffff_ffff,
            min <= acc <= max,
            positive ==> acc >= 0,
            !positive ==> acc <= 0,
            parse_int_spec(s@, signed, min as int, max as int) == accumulate(
                ds0,
                0,
                positive,
                min as int,
                max as int,
            ),
            accumulate(ds0, 0, positive, min as int, max as int) == accumulate(
                s@.subrange(i as int, s@.len() as int),
                acc as int,
                positive,
                min as int,
                max as int,
            ),
            ds0 == s@.subrange(start as int, s@.len() as int),
        decreases v.len() - i,
    {
        let ghost rest = s@.subrange(i as int, s@.len() as int);
        assert(rest[0] == v@[i as int]);
        assert(rest.drop_first() =~= s@.subrange(i + 1, s@.len() as int));
        let c = v[i];
        if !('0' <= c && c <= '9') {
            assert(accumulate(rest, acc as int, positive, min as int, max as int) == Err::<
                int,
                IntErrorKind,
            >(IntErrorKind::InvalidDigit));
            return Err(IntErrorKind::InvalidDigit);
        }
        let d: i128 = (c as u32 - 48) as i128;
        assert(d == digit_value(c));
        let next: i128 = if positive {
            acc * 10 + d
        } else {
            acc * 10 - d
        };
        if positive && next > max {
            return Err(IntErrorKind::PosOverflow);
        }
        if !positive && next < min {
            return Err(IntErrorKind::NegOverflow);
        }
        acc = next;
        i += 1;
    }
    assert(s@.subrange(i as int, s@.len() as int) =~= Seq::<char>::empty());
    proof {
        lemma_accumulate_bounded(ds0, 0, positive, min as int, max as int);
    }
    Ok(acc)
}

/// Parses `s` as an `i64`, as `s.parse::<i64>()` does.
pub fn parse_i64(s: &str) -> (r: Result<i64, IntErrorKind>)
    ensures
        match parse_int_spec(s@, true, i64::MIN as int, i64::MAX as int) {
            Ok(v) => r == Ok::<i64, IntErrorKind>(v as i64),
            Err(k) => r == Err::<i64, IntErrorKind>(k),
        },
{
    match parse_int(s, true, i64::MIN as i128, i64::MAX as i128) {
        Ok(v) => Ok(v as i64),
        Err(k) => Err(k),
    }
}

/// Parses `s` as a `usize`, as `s.parse::<usize>()` does.
pub fn parse_usize(s: &str) -> (r: Result<usize, IntErrorKind>)
    ensures
        match parse_int_spec(s@, false, 0, usize::MAX as int) {
            Ok(v) => r == Ok::<usize, IntErrorKind>(v as usize),
            Err(k) => r == Err::<usize, IntErrorKind>(k),
        },
{
    match parse_int(s, false, 0, usize::MAX as i128) {
        Ok(v) => Ok(v as usize),
        Err(k) => Err(k),
    }
}

/// The message of a parse error of kind `k`.
pub fn int_error_text(k: IntErrorKind) -> (r: String)
    ensures
        r@ == int_error_message(k),
{
    match k {
        IntErrorKind::Empty => owned("cannot parse integer from empty string"),
        IntErrorKind::InvalidDigit => owned("invalid digit found in string"),
        IntErrorKind::PosOverflow => owned("number too large to fit in target type"),
        IntErrorKind::NegOverflow => owned("number too small to fit in target type"),
    }
}

} // verus!

verus! {

// ---------------------------------------------------------------------------
// UTF-8 lengths
// ---------------------------------------------------------------------------

/// How many bytes UTF-8 takes for `c`.
pub open spec fn char_utf8_len(c: char) -> nat {
    if (c as u32) < 0x80 {
        1
    } else if (c as u32) < 0x800 {
        2
    } else if (c as u32) < 0x10000 {
        3
    } else {
        4
    }
}

/// How many bytes UTF-8 takes for `s`: `str::len`.
pub open spec fn utf8_len(s: Seq<char>) -> nat
    decreases s.len(),
{
    if s.len() == 0 {
        0
    } else {
        utf8_len(s.drop_last()) + char_utf8_len(s.last())
    }
}

/// The number of characters of `s` that take exactly `n` bytes, if a
/// character boundary lies at byte `n`.
pub open spec fn byte_cut(s: Seq<char>, n: nat) -> Option<int> {
    if exists|k: int| 0 <= k <= s.len() && utf8_len(#[trigger] s.take(k)) == n {
        Some(choose|k: int| 0 <= k <= s.len() && utf8_len(#[trigger] s.take(k)) == n)
    } else {
        None
    }
}

/// `s` cut to `max` bytes with `...` appended, when it is longer than `max`
/// bytes.
pub open spec fn truncated(s: Seq<char>, max: nat) -> Seq<char> {
    if utf8_len(s) > max {
        s.take(byte_cut(s, max)->0) + "..."@
    } else {
        s
    }
}

/// A cut of `s` at byte `max` lies on a character boundary, or none is needed.
pub open spec fn cuttable(s: Seq<char>, max: nat) -> bool {
    utf8_len(s) > max ==> byte_cut(s, max) is Some
}

fn char_len_exec(c: char) -> (r: u128)
    ensures
        r == char_utf8_len(c),
{
    let u = c as u32;
    if u < 0x80 {
        1
    } else if u < 0x800 {
        2
    } else if u < 0x10000 {
        3
    } else {
        4
    }
}

proof fn lemma_utf8_len_take(s: Seq<char>, i: int, j: int)
    requires
        0 <= i <= j <= s.len(),
    ensures
        utf8_len(s.take(i)) <= utf8_len(s.take(j)),
        i < j ==> utf8_len(s.take(i)) < utf8_len(s.take(j)),
    decreases j - i,
{
    if i < j {
        assert(s.take(j).drop_last() =~= s.take(j - 1));
        lemma_utf8_len_take(s, i, j - 1);
    }
}

/// The byte length of `s` (what `str::len` gives), and, where a character
/// boundary lies at byte `max`, the number of characters before it.
pub fn utf8_cut(s: &str, max: usize) -> (r: (u128, Option<usize>))
    ensures
        r.0 == utf8_len(s@),
        match r.1 {
            Some(k) => byte_cut(s@, max as nat) == Some(k as int),
            None => byte_cut(s@, max as nat) is None,
        },
{
    let v = chars_of(s);
    let mut total: u128 = 0;
    let mut cut: Option<usize> = if max == 0 {
        Some(0)
    } else {
        None
    };
    assert(s@.take(0) =~= Seq::<char>::empty());
    let mut i: usize = 0;
    while i < v.len()
        invariant
            v@ == s@,
            i <= v.len(),
            total == utf8_len(s@.take(i as int)),
            total <= 4 * i,
            match cut {
                Some(k) => k <= i && utf8_len(s@.take(k as int)) == max,
                None => forall|k: int| 0 <= k <= i ==> utf8_len(#[trigger] s@.take(k)) != max,
            },
        decreases v.len() - i,
    {
        assert(s@.take(i as int + 1).drop_last() =~= s@.take(i as int));
        total = total + char_len_exec(v[i]);
        if cut.is_none() && total == max as u128 {
            cut = Some(i + 1);
        }
        proof {
            if cut is None {
                assert forall|k: int| 0 <= k <= i + 1 implies utf8_len(#[trigger] s@.take(k)) != max by {
                    if k == i + 1 {
                    }
                }
            }
        }
        i += 1;
    }
    assert(s@.take(v.len() as int) =~= s@);
    proof {
        match cut {
            Some(k) => {
                let c = choose|c: int| 0 <= c <= s@.len() && utf8_len(#[trigger] s@.take(c)) == max;
                if c < k {
                    lemma_utf8_len_take(s@, c, k as int);
                } else if c > k {
                    lemma_utf8_len_take(s@, k as int, c);
                }
            },
            None => {},
        }
    }
    (total, cut)
}

/// `text` cut to `max_length` bytes with `...` appended, when it is longer.
pub fn truncate_bytes(text: &str, max_length: usize) -> (r: String)
    requires
        cuttable(text@, max_length as nat),
    ensures
        r@ == truncated(text@, max_length as nat),
{
    let (len, cut) = utf8_cut(text, max_length);
    if len > max_length as u128 {
        let k = match cut {
            Some(k) => k,
            None => 0,
        };
        let v = chars_of(text);
        let mut out: Vec<char> = Vec::new();
        let mut i: usize = 0;
        while i < k
            invariant
                v@ == text@,
                k <= v.len(),
                i <= k,
                out@ == text@.take(i as int),
            decreases k - i,
        {
            out.push(v[i]);
            assert(text@.take(i as int + 1) =~= text@.take(i as int).push(text@[i as int]));
            i += 1;
        }
        let prefix = string_of(&out);
        concat(prefix.as_str(), "...")
    } else {
        owned(text)
    }
}

} // verus!
