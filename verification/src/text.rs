//! Character-level helpers: decimal formatting and parsing of integers and
//! building strings character by character.

use vstd::prelude::*;
use vstd::string::*;

verus! {

/// Appends one character to a string (`String::push`).
#[verifier::external_body]
pub fn push_char(s: &mut String, c: char)
    ensures
        final(s)@ == old(s)@.push(c),
{
    s.push(c);
}

/// Whether `c` is an ASCII decimal digit.
pub open spec fn is_digit(c: char) -> bool {
    '0' <= c && c <= '9'
}

/// The value of an ASCII decimal digit.
pub open spec fn digit_value(c: char) -> int {
    (c as int) - ('0' as int)
}

/// The digit character for `d < 10`.
pub open spec fn digit_char(d: int) -> char {
    (d + ('0' as int)) as char
}

/// Whether every character of `s` is a decimal digit.
pub open spec fn all_digits(s: Seq<char>) -> bool {
    forall|i: int| 0 <= i < s.len() ==> is_digit(#[trigger] s[i])
}

/// The number written by a sequence of decimal digits (most significant first).
pub open spec fn digits_value(s: Seq<char>) -> int
    decreases s.len(),
{
    if s.len() == 0 {
        0
    } else {
        digits_value(s.drop_last()) * 10 + digit_value(s.last())
    }
}

/// The shortest decimal rendering of a natural number.
pub open spec fn decimal(n: nat) -> Seq<char>
    decreases n,
{
    if n < 10 {
        seq![digit_char(n as int)]
    } else {
        decimal(n / 10).push(digit_char((n % 10) as int))
    }
}

/// The decimal rendering of an integer, with a leading `-` when negative.
pub open spec fn signed_decimal(n: int) -> Seq<char> {
    if n < 0 {
        seq!['-'] + decimal((-n) as nat)
    } else {
        decimal(n as nat)
    }
}

/// Why Rust's `FromStr` for an integer type refuses a text
/// (`core::num::IntErrorKind`).
#[derive(PartialEq, Eq, Structural, Clone, Copy)]
pub enum IntErrorKind {
    Empty,
    InvalidDigit,
    PosOverflow,
    NegOverflow,
}

/// The number of leading decimal digits of `d`.
pub open spec fn digit_run(d: Seq<char>) -> nat
    decreases d.len(),
{
    if d.len() > 0 && is_digit(d[0]) {
        1 + digit_run(d.drop_first())
    } else {
        0
    }
}

/// Rust's `FromStr` for integers, read left to right: an optional sign
/// (only `+` when `signed` is false), then digits. The digits are taken
/// one by one; the first that is not a digit gives `InvalidDigit`, unless
/// the digits before it already exceed the bound (`max_pos`, or `max_neg`
/// for the magnitude of a negative number), which gives an overflow.
pub open spec fn parse_int(s: Seq<char>, signed: bool, max_pos: int, max_neg: int) -> Result<
    int,
    IntErrorKind,
> {
    if s.len() == 0 {
        Err(IntErrorKind::Empty)
    } else {
        let has_sign = s[0] == '+' || (signed && s[0] == '-');
        let neg = signed && s[0] == '-';
        let d = if has_sign { s.drop_first() } else { s };
        if has_sign && d.len() == 0 {
            Err(IntErrorKind::InvalidDigit)
        } else {
            let k = digit_run(d);
            let v = digits_value(d.take(k as int));
            if neg && v > max_neg {
                Err(IntErrorKind::NegOverflow)
            } else if !neg && v > max_pos {
                Err(IntErrorKind::PosOverflow)
            } else if k < d.len() {
                Err(IntErrorKind::InvalidDigit)
            } else {
                Ok(if neg { -v } else { v })
            }
        }
    }
}

/// `i64::from_str`.
pub open spec fn spec_parse_i64(s: Seq<char>) -> Result<i64, IntErrorKind> {
    match parse_int(s, true, i64::MAX as int, 9223372036854775808) {
        Ok(v) => Ok(v as i64),
        Err(e) => Err(e),
    }
}

/// `u64::from_str`.
pub open spec fn spec_parse_u64(s: Seq<char>) -> Result<u64, IntErrorKind> {
    match parse_int(s, false, u64::MAX as int, 0) {
        Ok(v) => Ok(v as u64),
        Err(e) => Err(e),
    }
}

/// The text of a `ParseIntError` of the given kind.
pub open spec fn int_error_text(k: IntErrorKind) -> Seq<char> {
    match k {
        IntErrorKind::Empty => "cannot parse integer from empty string"@,
        IntErrorKind::InvalidDigit => "invalid digit found in string"@,
        IntErrorKind::PosOverflow => "number too large to fit in target type"@,
        IntErrorKind::NegOverflow => "number too small to fit in target type"@,
    }
}

/// The text of a `ParseIntError` of the given kind.
pub fn int_error_message(k: IntErrorKind) -> (r: String)
    ensures
        r@ == int_error_text(k),
{
    match k {
        IntErrorKind::Empty => String::from_str("cannot parse integer from empty string"),
        IntErrorKind::InvalidDigit => String::from_str("invalid digit found in string"),
        IntErrorKind::PosOverflow => String::from_str("number too large to fit in target type"),
        IntErrorKind::NegOverflow => String::from_str("number too small to fit in target type"),
    }
}

pub proof fn lemma_digit_run(d: Seq<char>)
    ensures
        digit_run(d) <= d.len(),
        all_digits(d.take(digit_run(d) as int)),
        digit_run(d) < d.len() ==> !is_digit(d[digit_run(d) as int]),
    decreases d.len(),
{
    if d.len() > 0 && is_digit(d[0]) {
        let t = d.drop_first();
        lemma_digit_run(t);
        let k = digit_run(d);
        assert forall|i: int| 0 <= i < k implies is_digit(#[trigger] d.take(k as int)[i]) by {
            if i > 0 {
                assert(d.take(k as int)[i] == t.take(k - 1)[i - 1]);
            }
        }
        if k < d.len() {
            assert(d[k as int] == t[k - 1]);
        }
    }
}

/// When all of `d` is digits, its digit run is all of it.
pub proof fn lemma_digit_run_all(d: Seq<char>)
    requires
        all_digits(d),
    ensures
        digit_run(d) == d.len(),
    decreases d.len(),
{
    if d.len() > 0 {
        assert(is_digit(d[0]));
        let t = d.drop_first();
        assert(all_digits(t)) by {
            assert forall|i: int| 0 <= i < t.len() implies is_digit(#[trigger] t[i]) by {
                assert(t[i] == d[i + 1]);
            }
        }
        lemma_digit_run_all(t);
    }
}

pub proof fn lemma_digits_value_nonneg(s: Seq<char>)
    requires
        all_digits(s),
    ensures
        digits_value(s) >= 0,
    decreases s.len(),
{
    if s.len() > 0 {
        assert(all_digits(s.drop_last()));
        lemma_digits_value_nonneg(s.drop_last());
        assert(is_digit(s[s.len() - 1]));
    }
}

pub proof fn lemma_digit_char(d: int)
    requires
        0 <= d < 10,
    ensures
        digit_value(digit_char(d)) == d,
        is_digit(digit_char(d)),
{
    assert((d + 48) as char as int == d + 48);
}

pub proof fn lemma_decimal_props(n: nat)
    ensures
        decimal(n).len() > 0,
        all_digits(decimal(n)),
        digits_value(decimal(n)) == n,
        decimal(n)[0] != '-' && decimal(n)[0] != '+',
    decreases n,
{
    if n < 10 {
        lemma_digit_char(n as int);
        assert(decimal(n) =~= seq![digit_char(n as int)]);
        assert(seq![digit_char(n as int)].drop_last() =~= Seq::<char>::empty());
        assert(digits_value(Seq::<char>::empty()) == 0);
        assert(digits_value(decimal(n)) == digits_value(Seq::<char>::empty()) * 10
            + digit_value(digit_char(n as int)));
    } else {
        lemma_digit_char((n % 10) as int);
        lemma_decimal_props(n / 10);
        let d = decimal(n);
        assert(d.drop_last() =~= decimal(n / 10));
        assert forall|i: int| 0 <= i < d.len() implies is_digit(#[trigger] d[i]) by {
            if i < d.len() - 1 {
                assert(d[i] == decimal(n / 10)[i]);
            }
        }
    }
}

/// Formatting an `i64` in decimal and parsing it back gives the number.
pub proof fn lemma_parse_i64_decimal(n: i64)
    ensures
        spec_parse_i64(signed_decimal(n as int)) == Ok::<i64, IntErrorKind>(n),
{
    if n < 0 {
        let m = (-(n as int)) as nat;
        lemma_decimal_props(m);
        let s = signed_decimal(n as int);
        assert(s.drop_first() =~= decimal(m));
        lemma_digit_run_all(decimal(m));
        assert(decimal(m).take(decimal(m).len() as int) =~= decimal(m));
    } else {
        lemma_decimal_props(n as nat);
        lemma_digit_run_all(decimal(n as nat));
        assert(decimal(n as nat).take(decimal(n as nat).len() as int) =~= decimal(n as nat));
    }
}

/// Formatting a `u64` in decimal and parsing it back gives the number.
pub proof fn lemma_parse_u64_decimal(n: u64)
    ensures
        spec_parse_u64(decimal(n as nat)) == Ok::<u64, IntErrorKind>(n),
{
    lemma_decimal_props(n as nat);
    lemma_digit_run_all(decimal(n as nat));
    assert(decimal(n as nat).take(decimal(n as nat).len() as int) =~= decimal(n as nat));
}

/// The decimal rendering of `n`.
pub fn u64_to_decimal(n: u64) -> (res: String)
    ensures
        res@ == decimal(n as nat),
    decreases n,
{
    if n < 10 {
        let mut s = String::new();
        push_char(&mut s, ((n as u8) + 48u8) as char);
        assert(digit_char(n as int) == (((n as u8) + 48u8) as char));
        s
    } else {
        let mut s = u64_to_decimal(n / 10);
        let d = (n % 10) as u8;
        push_char(&mut s, (d + 48u8) as char);
        s
    }
}

/// The decimal rendering of `n`, with a leading `-` when negative.
pub fn i64_to_decimal(n: i64) -> (res: String)
    ensures
        res@ == signed_decimal(n as int),
{
    if n < 0 {
        let m: u64 = if n == i64::MIN { 9223372036854775808u64 } else { (-n) as u64 };
        let mut s = String::new();
        push_char(&mut s, '-');
        let digits = u64_to_decimal(m);
        s.append(digits.as_str());
        s
    } else {
        u64_to_decimal(n as u64)
    }
}

/// Taking more digits never makes the value smaller.
pub proof fn lemma_digits_prefix_grows(s: Seq<char>, k: int)
    requires
        all_digits(s),
        0 <= k <= s.len(),
    ensures
        digits_value(s.take(k)) <= digits_value(s),
    decreases s.len() - k,
{
    if k < s.len() {
        lemma_digits_prefix_grows(s, k + 1);
        assert(s.take(k + 1).drop_last() =~= s.take(k));
        assert(all_digits(s.take(k)));
        lemma_digits_value_nonneg(s.take(k));
        assert(is_digit(s[k]));
    } else {
        assert(s.take(k) =~= s);
    }
}

/// The leading digit run of `s[start..]`: its length and, when it fits in
/// a `u64`, its value.
fn scan_digits(s: &str, start: usize) -> (res: (usize, Option<u64>))
    requires
        start <= s@.len(),
    ensures
        res.0 as int == start + digit_run(s@.skip(start as int)),
        match res.1 {
            Some(v) => v as int == digits_value(
                s@.skip(start as int).take(digit_run(s@.skip(start as int)) as int),
            ),
            None => digits_value(
                s@.skip(start as int).take(digit_run(s@.skip(start as int)) as int),
            ) > u64::MAX,
        },
{
    let len = s.unicode_len();
    let ghost d = s@.skip(start as int);
    let ghost k = digit_run(d);
    proof {
        lemma_digit_run(d);
    }
    let mut acc: Option<u64> = Some(0);
    let mut i = start;
    while i < len && s.get_char(i) >= '0' && s.get_char(i) <= '9'
        invariant
            start <= i <= len,
            len == s@.len(),
            d == s@.skip(start as int),
            k == digit_run(d),
            k <= d.len(),
            all_digits(d.take(k as int)),
            k < d.len() ==> !is_digit(d[k as int]),
            i - start <= k,
            match acc {
                Some(v) => v as int == digits_value(d.take(i - start)),
                None => digits_value(d.take(i - start)) > u64::MAX,
            },
        decreases len - i,
    {
        let c = s.get_char(i);
        proof {
            assert(d[i - start] == c);
            if i - start == k {
                assert(false);
            }
            assert(d.take(i + 1 - start).drop_last() =~= d.take(i - start));
            assert(d.take(i + 1 - start).last() == c);
            lemma_digits_value_nonneg(d.take(i - start));
        }
        let dgt = (c as u32 - '0' as u32) as u64;
        acc = match acc {
            Some(a) => match a.checked_mul(10) {
                Some(a10) => a10.checked_add(dgt),
                None => None,
            },
            None => None,
        };
        i = i + 1;
    }
    proof {
        if i < len {
            assert(d[i - start] == s@[i as int]);
        }
        if i - start < k {
            assert(is_digit(d.take(k as int)[i - start]));
            assert(d.take(k as int)[i - start] == d[i - start]);
            assert(d[i - start] == s@[i as int]);
        }
        assert(i - start == k);
    }
    (i, acc)
}

/// `i64::from_str`.
pub fn parse_i64(s: &str) -> (res: Result<i64, IntErrorKind>)
    ensures
        res == spec_parse_i64(s@),
{
    let len = s.unicode_len();
    if len == 0 {
        return Err(IntErrorKind::Empty);
    }
    let first = s.get_char(0);
    let has_sign = first == '+' || first == '-';
    let neg = first == '-';
    let start: usize = if has_sign { 1 } else { 0 };
    proof {
        if has_sign {
            assert(s@.skip(1) =~= s@.drop_first());
        } else {
            assert(s@.skip(0) =~= s@);
        }
    }
    if has_sign && len == 1 {
        return Err(IntErrorKind::InvalidDigit);
    }
    let (end, val) = scan_digits(s, start);
    match val {
        None => {
            if neg { Err(IntErrorKind::NegOverflow) } else { Err(IntErrorKind::PosOverflow) }
        },
        Some(m) => {
            if neg && m > 9223372036854775808u64 {
                Err(IntErrorKind::NegOverflow)
            } else if !neg && m > 9223372036854775807u64 {
                Err(IntErrorKind::PosOverflow)
            } else if end < len {
                Err(IntErrorKind::InvalidDigit)
            } else if neg {
                if m == 9223372036854775808u64 {
                    Ok(i64::MIN)
                } else {
                    Ok(-(m as i64))
                }
            } else {
                Ok(m as i64)
            }
        },
    }
}

/// `u64::from_str`.
pub fn parse_u64(s: &str) -> (res: Result<u64, IntErrorKind>)
    ensures
        res == spec_parse_u64(s@),
{
    let len = s.unicode_len();
    if len == 0 {
        return Err(IntErrorKind::Empty);
    }
    let first = s.get_char(0);
    let has_sign = first == '+';
    let start: usize = if has_sign { 1 } else { 0 };
    proof {
        if has_sign {
            assert(s@.skip(1) =~= s@.drop_first());
        } else {
            assert(s@.skip(0) =~= s@);
        }
    }
    if has_sign && len == 1 {
        return Err(IntErrorKind::InvalidDigit);
    }
    let (end, val) = scan_digits(s, start);
    match val {
        None => Err(IntErrorKind::PosOverflow),
        Some(m) => {
            if end < len {
                Err(IntErrorKind::InvalidDigit)
            } else {
                Ok(m)
            }
        },
    }
}

/// Whether `c` is white space in Unicode's sense (`char::is_whitespace`).
pub open spec fn is_space(c: char) -> bool {
    ||| '\t' <= c <= '\r'
    ||| c == ' '
    ||| c == '\u{85}'
    ||| c == '\u{a0}'
    ||| c == '\u{1680}'
    ||| '\u{2000}' <= c <= '\u{200a}'
    ||| c == '\u{2028}'
    ||| c == '\u{2029}'
    ||| c == '\u{202f}'
    ||| c == '\u{205f}'
    ||| c == '\u{3000}'
}

pub fn is_space_exec(c: char) -> (r: bool)
    ensures
        r == is_space(c),
{
    ('\t' <= c && c <= '\r') || c == ' ' || c == '\u{85}' || c == '\u{a0}' || c == '\u{1680}'
        || ('\u{2000}' <= c && c <= '\u{200a}') || c == '\u{2028}' || c == '\u{2029}'
        || c == '\u{202f}' || c == '\u{205f}' || c == '\u{3000}'
}

/// The first position at or after `i` that does not hold white space, or
/// the end.
pub open spec fn skip_spaces(s: Seq<char>, i: int) -> int
    decreases s.len() - i,
{
    if i < 0 || i >= s.len() {
        i
    } else if is_space(s[i]) {
        skip_spaces(s, i + 1)
    } else {
        i
    }
}

/// The first position at or after `i` that holds white space, or the end.
pub open spec fn skip_word(s: Seq<char>, i: int) -> int
    decreases s.len() - i,
{
    if i < 0 || i >= s.len() {
        i
    } else if !is_space(s[i]) {
        skip_word(s, i + 1)
    } else {
        i
    }
}

/// The skips stay within the text.
pub proof fn lemma_skip_bounds(s: Seq<char>, i: int)
    requires
        0 <= i <= s.len(),
    ensures
        i <= skip_spaces(s, i) <= s.len(),
        i <= skip_word(s, i) <= s.len(),
    decreases s.len() - i,
{
    if i < s.len() {
        lemma_skip_bounds(s, i + 1);
    }
}

/// `skip_spaces` (when `spaces`) or `skip_word` from `start`.
pub fn skip_run(s: &str, len: usize, start: usize, spaces: bool) -> (r: usize)
    requires
        len == s@.len(),
        start <= len,
    ensures
        r == if spaces {
            skip_spaces(s@, start as int)
        } else {
            skip_word(s@, start as int)
        },
{
    let mut i = start;
    while i < len
        invariant
            start <= i <= len,
            len == s@.len(),
            (if spaces {
                skip_spaces(s@, start as int)
            } else {
                skip_word(s@, start as int)
            }) == (if spaces {
                skip_spaces(s@, i as int)
            } else {
                skip_word(s@, i as int)
            }),
        decreases len - i,
    {
        let c = s.get_char(i);
        if is_space_exec(c) != spaces {
            return i;
        }
        i = i + 1;
    }
    i
}

/// The last position `p <= j` such that the character before it is not
/// white space, or zero.
pub open spec fn skip_spaces_back(s: Seq<char>, j: int) -> int
    decreases j,
{
    if j <= 0 || j > s.len() {
        j
    } else if is_space(s[j - 1]) {
        skip_spaces_back(s, j - 1)
    } else {
        j
    }
}

/// `s` without leading and trailing white space (`str::trim`).
pub open spec fn trim(s: Seq<char>) -> Seq<char> {
    let a = skip_spaces(s, 0);
    if a >= s.len() {
        Seq::empty()
    } else {
        s.subrange(a, skip_spaces_back(s, s.len() as int))
    }
}

/// Where the skip over white space stops short of the end, the character
/// there is not white space.
pub proof fn lemma_skip_spaces_stops(s: Seq<char>, i: int)
    requires
        0 <= i <= s.len(),
    ensures
        skip_spaces(s, i) < s.len() ==> !is_space(s[skip_spaces(s, i)]),
    decreases s.len() - i,
{
    if i < s.len() {
        lemma_skip_spaces_stops(s, i + 1);
    }
}

proof fn lemma_skip_back_bounds(s: Seq<char>, j: int, a: int)
    requires
        0 <= a < j <= s.len(),
        !is_space(s[a]),
    ensures
        a < skip_spaces_back(s, j) <= j,
    decreases j,
{
    if is_space(s[j - 1]) {
        lemma_skip_back_bounds(s, j - 1, a);
    }
}

/// `s` without leading and trailing white space (`str::trim`).
pub fn trim_text(s: &str) -> (r: String)
    ensures
        r@ == trim(s@),
{
    let len = s.unicode_len();
    proof {
        lemma_skip_bounds(s@, 0);
        lemma_skip_spaces_stops(s@, 0);
    }
    let a = skip_run(s, len, 0, true);
    if a >= len {
        let e = String::new();
        assert(e@ =~= trim(s@));
        return e;
    }
    proof {
        lemma_skip_back_bounds(s@, len as int, a as int);
    }
    let mut b = len;
    while b > a && is_space_exec(s.get_char(b - 1))
        invariant
            a < len,
            len == s@.len(),
            !is_space(s@[a as int]),
            a < b <= len,
            skip_spaces_back(s@, len as int) == skip_spaces_back(s@, b as int),
        decreases b,
    {
        b = b - 1;
    }
    let mut out = String::new();
    let mut i = a;
    while i < b
        invariant
            a <= i <= b <= len,
            len == s@.len(),
            out@ == s@.subrange(a as int, i as int),
        decreases b - i,
    {
        let ch = s.get_char(i);
        push_char(&mut out, ch);
        proof {
            assert(out@ =~= s@.subrange(a as int, i + 1));
        }
        i = i + 1;
    }
    out
}

/// Whether `needle` occurs in `hay` as a run of consecutive characters.
pub open spec fn occurs_in(hay: Seq<char>, needle: Seq<char>) -> bool {
    exists|i: int| 0 <= i && i + needle.len() <= hay.len() && #[trigger] hay.subrange(i, i + needle.len()) == needle
}

/// Whether `hay` contains `needle` (`str::contains`).
pub fn contains_text(hay: &str, needle: &str) -> (r: bool)
    ensures
        r == occurs_in(hay@, needle@),
{
    let n = hay.unicode_len();
    let m = needle.unicode_len();
    if m > n {
        return false;
    }
    let mut i: usize = 0;
    while i <= n - m
        invariant
            n == hay@.len(),
            m == needle@.len(),
            m <= n,
            i <= n - m + 1,
            forall|k: int| 0 <= k < i ==> #[trigger] hay@.subrange(k, k + m) != needle@,
        decreases n - i,
    {
        let mut j: usize = 0;
        let mut same = true;
        while j < m
            invariant
                n == hay@.len(),
                m == needle@.len(),
                i + m <= n,
                j <= m,
                same == (forall|q: int| 0 <= q < j ==> hay@[i + q] == needle@[q]),
            decreases m - j,
        {
            if hay.get_char(i + j) != needle.get_char(j) {
                same = false;
            }
            j = j + 1;
        }
        if same {
            assert(hay@.subrange(i as int, i + m) =~= needle@);
            return true;
        }
        assert(hay@.subrange(i as int, i + m) != needle@) by {
            if hay@.subrange(i as int, i + m) == needle@ {
                assert forall|q: int| 0 <= q < m implies hay@[i + q] == needle@[q] by {
                    assert(hay@.subrange(i as int, i + m)[q] == hay@[i + q]);
                }
            }
        }
        i = i + 1;
    }
    false
}

} // verus!
