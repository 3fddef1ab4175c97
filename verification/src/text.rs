//! Character-level building blocks for the line protocols: decimal and
//! hexadecimal text, whitespace-separated words and small parsers.
use vstd::prelude::*;
use vstd::string::*;

verus! {

/// The decimal digit character for a value below ten.
pub open spec fn digit_char(d: nat) -> char {
    (('0' as nat) + d) as char
}

/// Decimal text of a natural number, without leading zeros.
pub open spec fn dec(n: nat) -> Seq<char>
    decreases n,
{
    if n < 10 {
        seq![digit_char(n)]
    } else {
        dec(n / 10).push(digit_char(n % 10))
    }
}

/// Decimal text of an integer, with a leading minus sign when negative.
pub open spec fn dec_int(v: int) -> Seq<char> {
    if v < 0 {
        seq!['-'] + dec((-v) as nat)
    } else {
        dec(v as nat)
    }
}

/// Exactly `k` decimal digits of `n` (taken modulo `10^k`), most significant first.
pub open spec fn padded(n: nat, k: nat) -> Seq<char>
    decreases k,
{
    if k == 0 {
        seq![]
    } else {
        padded(n / 10, (k - 1) as nat).push(digit_char(n % 10))
    }
}

/// Upper-case hexadecimal digit for a value below sixteen.
pub open spec fn hex_digit(d: nat) -> char {
    if d < 10 {
        digit_char(d)
    } else {
        (('A' as nat) + (d - 10)) as char
    }
}

/// Two upper-case hexadecimal digits of a byte (`{:02X}`).
pub open spec fn hex2(b: u8) -> Seq<char> {
    seq![hex_digit((b / 16) as nat), hex_digit((b % 16) as nat)]
}

/// The characters that Rust's `char::is_whitespace` accepts (Unicode White_Space).
pub open spec fn is_ws(c: char) -> bool {
    ||| c == '\t'
    ||| c == '\n'
    ||| c == '\u{0B}'
    ||| c == '\u{0C}'
    ||| c == '\r'
    ||| c == ' '
    ||| c == '\u{85}'
    ||| c == '\u{A0}'
    ||| c == '\u{1680}'
    ||| ('\u{2000}' <= c && c <= '\u{200A}')
    ||| c == '\u{2028}'
    ||| c == '\u{2029}'
    ||| c == '\u{202F}'
    ||| c == '\u{205F}'
    ||| c == '\u{3000}'
}

/// The maximal runs of non-whitespace characters of `s`, in order
/// (what `str::split_whitespace` yields).
pub open spec fn words(s: Seq<char>) -> Seq<Seq<char>>
    decreases s.len(),
{
    if s.len() == 0 {
        seq![]
    } else {
        let p = words(s.drop_last());
        let c = s.last();
        if is_ws(c) {
            p
        } else if s.len() >= 2 && !is_ws(s[s.len() - 2]) && p.len() > 0 {
            p.drop_last().push(p.last().push(c))
        } else {
            p.push(seq![c])
        }
    }
}

/// An ASCII decimal digit.
pub open spec fn is_digit(c: char) -> bool {
    '0' <= c && c <= '9'
}

/// The value of an ASCII decimal digit.
pub open spec fn digit_value(c: char) -> nat {
    (c as nat - '0' as nat) as nat
}

/// All characters are ASCII decimal digits.
pub open spec fn all_digits(s: Seq<char>) -> bool {
    forall|i: int| 0 <= i < s.len() ==> is_digit(#[trigger] s[i])
}

/// The number that a string of decimal digits denotes.
pub open spec fn digits_value(s: Seq<char>) -> nat
    decreases s.len(),
{
    if s.len() == 0 {
        0
    } else {
        digits_value(s.drop_last()) * 10 + digit_value(s.last())
    }
}

/// What `str::parse::<u8>` accepts: an optional `+`, then one or more
/// decimal digits whose value is at most 255.
pub open spec fn parse_u8_spec(s: Seq<char>) -> Option<u8> {
    let body = if s.len() > 0 && s[0] == '+' { s.drop_first() } else { s };
    if body.len() > 0 && all_digits(body) && digits_value(body) <= 255 {
        Some(digits_value(body) as u8)
    } else {
        None
    }
}

/// The `String` views of a vector of strings.
pub open spec fn views(v: Seq<String>) -> Seq<Seq<char>> {
    v.map_values(|s: String| s@)
}

/// Appends one character to a `String` (`String::push`).
#[verifier::external_body]
pub(crate) fn push_char(s: &mut String, c: char)
    ensures
        final(s)@ == old(s)@.push(c),
{
    s.push(c);
}

pub proof fn lemma_dec_nonempty(n: nat)
    ensures
        dec(n).len() >= 1,
    decreases n,
{
    if n >= 10 {
        lemma_dec_nonempty(n / 10);
    }
}

/// Decimal text is made of digits, does not start with a sign, and denotes its number.
pub proof fn lemma_dec_digits(n: nat)
    ensures
        all_digits(dec(n)),
        digits_value(dec(n)) == n,
        dec(n).len() >= 1,
        is_digit(dec(n)[0]),
    decreases n,
{
    if n >= 10 {
        lemma_dec_digits(n / 10);
        let d = dec(n);
        assert(d.drop_last() == dec(n / 10));
        assert forall|i: int| 0 <= i < d.len() implies is_digit(#[trigger] d[i]) by {
            if i < d.len() - 1 {
                assert(d[i] == dec(n / 10)[i]);
            }
        }
        assert(d[0] == dec(n / 10)[0]);
        let r = n % 10;
        assert(digit_value(digit_char(r)) == r);
        assert(d.last() == digit_char(r));
        assert(digits_value(d) == digits_value(dec(n / 10)) * 10 + digit_value(d.last()));
        assert(n == (n / 10) * 10 + r);
    } else {
        assert(digit_value(digit_char(n)) == n);
        assert(dec(n).drop_last() =~= Seq::<char>::empty());
        assert(digits_value(dec(n)) == digits_value(dec(n).drop_last()) * 10 + digit_value(
            dec(n).last(),
        ));
    }
}

/// Appends the decimal text of `n`.
pub fn push_dec(s: &mut String, n: u64)
    ensures
        final(s)@ == old(s)@ + dec(n as nat),
    decreases n,
{
    if n >= 10 {
        push_dec(s, n / 10);
    }
    push_char(s, digit(n % 10));
}

/// Appends exactly `k` decimal digits of `n`.
pub fn push_padded(s: &mut String, n: u64, k: u32)
    ensures
        final(s)@ == old(s)@ + padded(n as nat, k as nat),
    decreases k,
{
    if k > 0 {
        push_padded(s, n / 10, k - 1);
        push_char(s, digit(n % 10));
    }
}

/// The character of a decimal digit.
pub fn digit(d: u64) -> (c: char)
    requires
        d < 10,
    ensures
        c == digit_char(d as nat),
{
    ((d as u8) + 48u8) as char
}

/// The upper-case hexadecimal character of a value below sixteen.
pub fn hex_char(d: u8) -> (c: char)
    requires
        d < 16,
    ensures
        c == hex_digit(d as nat),
{
    if d < 10 {
        (d + 48u8) as char
    } else {
        (d - 10 + 65u8) as char
    }
}

/// Appends a byte as two upper-case hexadecimal digits.
pub fn push_hex2(s: &mut String, b: u8)
    ensures
        final(s)@ == old(s)@ + hex2(b),
{
    push_char(s, hex_char(b / 16));
    push_char(s, hex_char(b % 16));
}

/// The characters of a string slice.
pub fn chars_of(s: &str) -> (v: Vec<char>)
    ensures
        v@ == s@,
{
    let n = s.unicode_len();
    let mut v: Vec<char> = Vec::new();
    let mut i: usize = 0;
    while i < n
        invariant
            n == s@.len(),
            i <= n,
            v@ == s@.take(i as int),
        decreases n - i,
    {
        v.push(s.get_char(i));
        i = i + 1;
        assert(v@ == s@.take(i as int));
    }
    assert(s@.take(n as int) == s@);
    v
}

/// A `String` holding the given characters.
pub fn string_of(v: &[char]) -> (s: String)
    ensures
        s@ == v@,
{
    let mut s = String::new();
    let mut i: usize = 0;
    while i < v.len()
        invariant
            i <= v@.len(),
            s@ == v@.take(i as int),
        decreases v@.len() - i,
    {
        push_char(&mut s, v[i]);
        i = i + 1;
        assert(s@ == v@.take(i as int));
    }
    assert(v@.take(v@.len() as int) == v@);
    s
}

/// Whether a character is Unicode whitespace (`char::is_whitespace`).
pub fn whitespace(c: char) -> (b: bool)
    ensures
        b == is_ws(c),
{
    c == '\t' || c == '\n' || c == '\u{0B}' || c == '\u{0C}' || c == '\r' || c == ' '
        || c == '\u{85}' || c == '\u{A0}' || c == '\u{1680}' || ('\u{2000}' <= c && c
        <= '\u{200A}') || c == '\u{2028}' || c == '\u{2029}' || c == '\u{202F}' || c
        == '\u{205F}' || c == '\u{3000}'
}

/// The whitespace-separated words of a line (`str::split_whitespace`).
pub fn split_words(line: &[char]) -> (w: Vec<Vec<char>>)
    ensures
        w@.map_values(|x: Vec<char>| x@) == words(line@),
{
    let mut w: Vec<Vec<char>> = Vec::new();
    let mut i: usize = 0;
    while i < line.len()
        invariant
            i <= line@.len(),
            w@.map_values(|x: Vec<char>| x@) == words(line@.take(i as int)),
        decreases line@.len() - i,
    {
        let c = line[i];
        let ghost pre = line@.take(i as int);
        let ghost cur = line@.take(i + 1);
        assert(cur.drop_last() == pre);
        assert(cur.last() == c);
        if whitespace(c) {
        } else if i >= 1 && !whitespace(line[i - 1]) && w.len() > 0 {
            assert(cur[cur.len() - 2] == line@[i - 1]);
            let last_index = w.len() - 1;
            let mut last = w.pop().unwrap();
            last.push(c);
            w.push(last);
            assert(w@.map_values(|x: Vec<char>| x@) =~= words(cur));
        } else {
            let mut single: Vec<char> = Vec::new();
            single.push(c);
            w.push(single);
            if i >= 1 {
                assert(cur[cur.len() - 2] == line@[i - 1]);
            }
            assert(w@.map_values(|x: Vec<char>| x@) =~= words(cur));
        }
        i = i + 1;
    }
    assert(line@.take(line@.len() as int) == line@);
    w
}

/// Whether the characters equal those of a literal.
pub fn chars_eq(v: &[char], lit: &str) -> (b: bool)
    ensures
        b == (v@ == lit@),
{
    let n = lit.unicode_len();
    if v.len() != n {
        return false;
    }
    let mut i: usize = 0;
    while i < n
        invariant
            n == lit@.len(),
            n == v@.len(),
            i <= n,
            forall|j: int| 0 <= j < i ==> v@[j] == lit@[j],
        decreases n - i,
    {
        if v[i] != lit.get_char(i) {
            return false;
        }
        i = i + 1;
    }
    assert(v@ =~= lit@);
    true
}

/// Whether `v` begins with the characters of a literal.
pub fn starts_with(v: &[char], lit: &str) -> (b: bool)
    ensures
        b == (lit@.len() <= v@.len() && v@.take(lit@.len() as int) == lit@),
{
    let n = lit.unicode_len();
    if v.len() < n {
        return false;
    }
    let mut i: usize = 0;
    while i < n
        invariant
            n == lit@.len(),
            n <= v@.len(),
            i <= n,
            forall|j: int| 0 <= j < i ==> v@[j] == lit@[j],
        decreases n - i,
    {
        if v[i] != lit.get_char(i) {
            assert(v@.take(n as int)[i as int] != lit@[i as int]);
            return false;
        }
        i = i + 1;
    }
    assert(v@.take(n as int) =~= lit@);
    true
}

/// The characters of `v` from index `start` on.
pub fn tail(v: &[char], start: usize) -> (t: Vec<char>)
    requires
        start <= v@.len(),
    ensures
        t@ == v@.skip(start as int),
{
    let mut t: Vec<char> = Vec::new();
    let mut i: usize = start;
    while i < v.len()
        invariant
            start <= i <= v@.len(),
            t@ == v@.subrange(start as int, i as int),
        decreases v@.len() - i,
    {
        t.push(v[i]);
        i = i + 1;
        assert(t@ == v@.subrange(start as int, i as int));
    }
    t
}

/// The characters of `v` before index `end`.
pub fn head(v: &[char], end: usize) -> (t: Vec<char>)
    requires
        end <= v@.len(),
    ensures
        t@ == v@.take(end as int),
{
    let mut t: Vec<char> = Vec::new();
    let mut i: usize = 0;
    while i < end
        invariant
            i <= end <= v@.len(),
            t@ == v@.take(i as int),
        decreases end - i,
    {
        t.push(v[i]);
        i = i + 1;
        assert(t@ == v@.take(i as int));
    }
    t
}

proof fn lemma_digits_value_push(s: Seq<char>, c: char)
    ensures
        digits_value(s.push(c)) == digits_value(s) * 10 + digit_value(c),
{
    assert(s.push(c).drop_last() == s);
}

/// Parses the decimal value of a run of digits, failing when it exceeds `limit`.
pub fn digits_upto(v: &[char], limit: u64) -> (r: Option<u64>)
    requires
        limit <= u64::MAX / 10 - 10,
    ensures
        r.is_some() <==> (all_digits(v@) && digits_value(v@) <= limit),
        r.is_some() ==> r.unwrap() == digits_value(v@),
{
    let mut acc: u64 = 0;
    let mut i: usize = 0;
    while i < v.len()
        invariant
            limit <= u64::MAX / 10 - 10,
            i <= v@.len(),
            all_digits(v@.take(i as int)),
            acc == digits_value(v@.take(i as int)),
            acc <= limit,
        decreases v@.len() - i,
    {
        let c = v[i];
        let ghost pre = v@.take(i as int);
        assert(v@.take(i + 1) == pre.push(c));
        proof {
            lemma_digits_value_push(pre, c);
        }
        if !('0' <= c && c <= '9') {
            assert(!is_digit(v@[i as int]));
            return None;
        }
        let d = (c as u32 - 48) as u64;
        assert(d == digit_value(c));
        acc = acc * 10 + d;
        i = i + 1;
        if acc > limit {
            proof {
                if all_digits(v@) {
                    lemma_digits_value_mono(v@, i as int);
                }
            }
            return None;
        }
    }
    assert(v@.take(v@.len() as int) == v@);
    Some(acc)
}

/// Once a digit string's prefix exceeds a bound, so does the whole string.
pub proof fn lemma_digits_value_mono(s: Seq<char>, i: int)
    requires
        0 <= i <= s.len(),
        all_digits(s),
    ensures
        digits_value(s.take(i)) <= digits_value(s),
    decreases s.len() - i,
{
    if i < s.len() {
        lemma_digits_value_mono(s, i + 1);
        assert(s.take(i + 1) == s.take(i).push(s[i]));
        lemma_digits_value_push(s.take(i), s[i]);
    } else {
        assert(s.take(i) == s);
    }
}

/// How `str::parse::<u8>` fails.
#[derive(Clone, Copy, Debug, PartialEq, Eq, Structural)]
pub enum IntError {
    /// Nothing to parse.
    Empty,
    /// A character that is not a decimal digit.
    InvalidDigit,
    /// A value above 255.
    PosOverflow,
}

/// The text of each failure (`ParseIntError`'s).
pub open spec fn int_error_message(e: IntError) -> Seq<char> {
    match e {
        IntError::Empty => "cannot parse integer from empty string"@,
        IntError::InvalidDigit => "invalid digit found in string"@,
        IntError::PosOverflow => "number too large to fit in target type"@,
    }
}

impl IntError {
    /// The message shown to the operator.
    pub fn message(self) -> (text: String)
        ensures
            text@ == int_error_message(self),
    {
        match self {
            IntError::Empty => String::from_str("cannot parse integer from empty string"),
            IntError::InvalidDigit => String::from_str("invalid digit found in string"),
            IntError::PosOverflow => String::from_str("number too large to fit in target type"),
        }
    }
}

/// Digits read from left to right into a `u8`: the first character that is
/// not a digit, or the first digit that takes the value above 255, ends it.
pub open spec fn read_u8_digits(s: Seq<char>) -> Result<nat, IntError>
    decreases s.len(),
{
    if s.len() == 0 {
        Ok(0)
    } else {
        match read_u8_digits(s.drop_last()) {
            Err(e) => Err(e),
            Ok(v) => if !is_digit(s.last()) {
                Err(IntError::InvalidDigit)
            } else if v * 10 + digit_value(s.last()) > 255 {
                Err(IntError::PosOverflow)
            } else {
                Ok(v * 10 + digit_value(s.last()))
            },
        }
    }
}

/// `str::parse::<u8>` with its failure: empty text, a lone sign, a
/// character that is not a digit, or a value above 255, whichever a
/// left-to-right reading meets first.
pub open spec fn parse_u8_result(s: Seq<char>) -> Result<u8, IntError> {
    if s.len() == 0 {
        Err(IntError::Empty)
    } else if s == seq!['+'] {
        Err(IntError::InvalidDigit)
    } else {
        let body = if s[0] == '+' {
            s.drop_first()
        } else {
            s
        };
        match read_u8_digits(body) {
            Ok(v) => Ok(v as u8),
            Err(e) => Err(e),
        }
    }
}

proof fn lemma_read_u8_digits(s: Seq<char>)
    ensures
        read_u8_digits(s) is Ok <==> (all_digits(s) && digits_value(s) <= 255),
        read_u8_digits(s) is Ok ==> read_u8_digits(s) == Ok::<nat, IntError>(digits_value(s)),
    decreases s.len(),
{
    if s.len() > 0 {
        let t = s.drop_last();
        lemma_read_u8_digits(t);
        if all_digits(s) {
            assert forall|i: int| 0 <= i < t.len() implies is_digit(#[trigger] t[i]) by {
                assert(t[i] == s[i]);
            }
        }
        if all_digits(t) && is_digit(s.last()) {
            assert forall|i: int| 0 <= i < s.len() implies is_digit(#[trigger] s[i]) by {
                if i < t.len() {
                    assert(t[i] == s[i]);
                }
            }
        }
        assert(is_digit(s[s.len() - 1]) == is_digit(s.last()));
    }
}

/// The two readings of a `u8` agree: it parses exactly when it reads without failure.
pub proof fn lemma_parse_u8_result(s: Seq<char>)
    ensures
        parse_u8_spec(s) == match parse_u8_result(s) {
            Ok(v) => Some(v),
            Err(_) => None::<u8>,
        },
{
    if s.len() > 0 {
        let body = if s[0] == '+' {
            s.drop_first()
        } else {
            s
        };
        lemma_read_u8_digits(body);
        if s == seq!['+'] {
            assert(body.len() == 0);
        }
        if s != seq!['+'] && body.len() == 0 {
            assert(s.len() == 1 && s[0] == '+');
            assert(s =~= seq!['+']);
        }
    }
}

/// `str::parse::<u8>` on characters, with its failure.
pub fn parse_u8_checked(v: &[char]) -> (r: Result<u8, IntError>)
    ensures
        r == parse_u8_result(v@),
{
    if v.len() == 0 {
        return Err(IntError::Empty);
    }
    if v.len() == 1 && v[0] == '+' {
        assert(v@ =~= seq!['+']);
        return Err(IntError::InvalidDigit);
    }
    assert(v@ != seq!['+']);
    let body = if v[0] == '+' {
        tail(v, 1)
    } else {
        tail(v, 0)
    };
    assert(v@.skip(0) == v@);
    assert(v@.skip(1) == v@.drop_first());
    assert(body@ == if v@[0] == '+' {
        v@.drop_first()
    } else {
        v@
    });
    let mut acc: u16 = 0;
    let mut i: usize = 0;
    while i < body.len()
        invariant
            v@.len() > 0,
            v@ != seq!['+'],
            body@ == if v@[0] == '+' {
                v@.drop_first()
            } else {
                v@
            },
            i <= body@.len(),
            acc <= 255,
            read_u8_digits(body@.take(i as int)) == Ok::<nat, IntError>(acc as nat),
        decreases body@.len() - i,
    {
        let c = body[i];
        assert(body@.take(i as int + 1).drop_last() =~= body@.take(i as int));
        assert(body@.take(i as int + 1).last() == c);
        if !('0' <= c && c <= '9') {
            assert(read_u8_digits(body@) == Err::<nat, IntError>(IntError::InvalidDigit)) by {
                lemma_read_prefix_err(body@, i as int + 1);
            }
            return Err(IntError::InvalidDigit);
        }
        let d = (c as u32 - 48) as u16;
        if acc * 10 + d > 255 {
            assert(read_u8_digits(body@) == Err::<nat, IntError>(IntError::PosOverflow)) by {
                lemma_read_prefix_err(body@, i as int + 1);
            }
            return Err(IntError::PosOverflow);
        }
        acc = acc * 10 + d;
        i = i + 1;
    }
    assert(body@.take(body@.len() as int) =~= body@);
    Ok(acc as u8)
}

proof fn lemma_read_prefix_err(s: Seq<char>, k: int)
    requires
        0 <= k <= s.len(),
        read_u8_digits(s.take(k)) is Err,
    ensures
        read_u8_digits(s) == read_u8_digits(s.take(k)),
    decreases s.len() - k,
{
    if k < s.len() {
        assert(s.take(k + 1).drop_last() =~= s.take(k));
        lemma_read_prefix_err(s, k + 1);
    } else {
        assert(s.take(k) =~= s);
    }
}

/// What `str::parse::<u64>` accepts: an optional `+`, then one or more
/// decimal digits whose value fits in 64 bits.
pub open spec fn parse_u64_spec(s: Seq<char>) -> Option<u64> {
    let body = if s.len() > 0 && s[0] == '+' {
        s.drop_first()
    } else {
        s
    };
    if body.len() > 0 && all_digits(body) && digits_value(body) <= u64::MAX {
        Some(digits_value(body) as u64)
    } else {
        None
    }
}

proof fn lemma_digits_prefix_le(s: Seq<char>, k: int)
    requires
        0 <= k <= s.len(),
    ensures
        digits_value(s.take(k)) <= digits_value(s),
    decreases s.len() - k,
{
    if k < s.len() {
        lemma_digits_prefix_le(s, k + 1);
        assert(s.take(k + 1).drop_last() =~= s.take(k));
    } else {
        assert(s.take(k) =~= s);
    }
}

/// `str::parse::<u64>` on characters.
pub fn parse_u64(v: &[char]) -> (r: Option<u64>)
    ensures
        r == parse_u64_spec(v@),
{
    let body = if v.len() > 0 && v[0] == '+' {
        tail(v, 1)
    } else {
        tail(v, 0)
    };
    assert(v@.skip(0) == v@);
    if v.len() > 0 {
        assert(v@.skip(1) == v@.drop_first());
    }
    assert(body@ == if v@.len() > 0 && v@[0] == '+' {
        v@.drop_first()
    } else {
        v@
    });
    if body.len() == 0 {
        return None;
    }
    let mut acc: u64 = 0;
    let mut i: usize = 0;
    while i < body.len()
        invariant
            body@ == if v@.len() > 0 && v@[0] == '+' {
                v@.drop_first()
            } else {
                v@
            },
            body@.len() > 0,
            i <= body@.len(),
            all_digits(body@.take(i as int)),
            digits_value(body@.take(i as int)) == acc,
        decreases body@.len() - i,
    {
        let c = body[i];
        assert(body@.take(i as int + 1).drop_last() =~= body@.take(i as int));
        assert(body@.take(i as int + 1).last() == c);
        if !('0' <= c && c <= '9') {
            assert(!all_digits(body@)) by {
                assert(body@[i as int] == c);
            }
            return None;
        }
        let d = (c as u32 - 48) as u64;
        if acc > (u64::MAX - d) / 10 {
            proof {
                assert(acc * 10 + d > u64::MAX) by (nonlinear_arith)
                    requires
                        acc > (u64::MAX - d) / 10,
                        d <= 9,
                ;
                if all_digits(body@) {
                    lemma_digits_prefix_le(body@, i as int + 1);
                }
            }
            return None;
        }
        acc = acc * 10 + d;
        i = i + 1;
        assert forall|j: int| 0 <= j < i implies is_digit(#[trigger] body@.take(i as int)[j]) by {
            if j < i - 1 {
                assert(body@.take(i as int)[j] == body@.take(i as int - 1)[j]);
            }
        }
    }
    assert(body@.take(body@.len() as int) =~= body@);
    Some(acc)
}

/// `str::parse::<u8>` on characters.
pub fn parse_u8(v: &[char]) -> (r: Option<u8>)
    ensures
        r == parse_u8_spec(v@),
{
    proof {
        lemma_parse_u8_result(v@);
    }
    match parse_u8_checked(v) {
        Ok(x) => Some(x),
        Err(_) => None,
    }
}

/// The first index at or after `i` where `pat` occurs in `s`, or -1.
pub open spec fn find_from(s: Seq<char>, pat: Seq<char>, i: int) -> int
    decreases s.len() + 1 - i,
{
    if i < 0 || i + pat.len() > s.len() {
        -1
    } else if s.subrange(i, i + pat.len()) == pat {
        i
    } else {
        find_from(s, pat, i + 1)
    }
}

/// The first index where `pat` occurs in `s`, or -1.
pub open spec fn find_sub(s: Seq<char>, pat: Seq<char>) -> int {
    find_from(s, pat, 0)
}

pub proof fn lemma_find_from_range(s: Seq<char>, pat: Seq<char>, i: int)
    ensures
        find_from(s, pat, i) == -1 || (i <= find_from(s, pat, i) && find_from(s, pat, i)
            + pat.len() <= s.len()),
    decreases s.len() + 1 - i,
{
    if !(i < 0 || i + pat.len() > s.len()) && s.subrange(i, i + pat.len()) != pat {
        lemma_find_from_range(s, pat, i + 1);
    }
}

/// Whether `pat` occurs in `v` at index `i`.
pub fn matches_at(v: &[char], pat: &[char], i: usize) -> (b: bool)
    requires
        i + pat@.len() <= v@.len(),
    ensures
        b == (v@.subrange(i as int, i + pat@.len()) == pat@),
{
    let n = v.len();
    let mut k: usize = 0;
    while k < pat.len()
        invariant
            n == v@.len(),
            i + pat@.len() <= v@.len(),
            k <= pat@.len(),
            forall|j: int| 0 <= j < k ==> v@[i + j] == pat@[j],
        decreases pat@.len() - k,
    {
        if v[i + k] != pat[k] {
            assert(v@.subrange(i as int, i + pat@.len())[k as int] != pat@[k as int]);
            return false;
        }
        k = k + 1;
    }
    assert(v@.subrange(i as int, i + pat@.len()) =~= pat@);
    true
}

/// The first index where `pat` occurs in `v`.
pub fn find_sub_exec(v: &[char], pat: &[char]) -> (r: Option<usize>)
    ensures
        r.is_none() <==> find_sub(v@, pat@) == -1,
        r.is_some() ==> r.unwrap() == find_sub(v@, pat@) && r.unwrap() + pat@.len() <= v@.len(),
{
    proof {
        lemma_find_from_range(v@, pat@, 0);
    }
    if pat.len() > v.len() {
        return None;
    }
    let last = v.len() - pat.len();
    let mut i: usize = 0;
    while i <= last
        invariant
            last + pat@.len() == v@.len(),
            find_from(v@, pat@, 0) == find_from(v@, pat@, i as int),
        decreases last + 1 - i,
    {
        if matches_at(v, pat, i) {
            proof {
                lemma_find_from_range(v@, pat@, 0);
            }
            return Some(i);
        }
        if i == last {
            assert(find_from(v@, pat@, i + 1) == -1);
            return None;
        }
        i = i + 1;
    }
    None
}

/// Appends the decimal text of an integer, with a minus sign when negative.
pub fn push_int(s: &mut String, v: i64)
    requires
        v > i64::MIN,
    ensures
        final(s)@ == old(s)@ + dec_int(v as int),
{
    if v < 0 {
        push_char(s, '-');
        push_dec(s, (-v) as u64);
    } else {
        push_dec(s, v as u64);
    }
}

/// The value of a hexadecimal digit.
pub open spec fn hex_value(c: char) -> Option<nat> {
    if '0' <= c && c <= '9' {
        Some((c as nat - '0' as nat) as nat)
    } else if 'a' <= c && c <= 'f' {
        Some((c as nat - 'a' as nat + 10) as nat)
    } else if 'A' <= c && c <= 'F' {
        Some((c as nat - 'A' as nat + 10) as nat)
    } else {
        None
    }
}

/// A byte written as two characters (`u8::from_str_radix(.., 16)` on them).
pub open spec fn hex_byte(a: char, b: char) -> Option<u8> {
    if a == '+' {
        match hex_value(b) {
            Some(v) => Some(v as u8),
            None => None,
        }
    } else {
        match (hex_value(a), hex_value(b)) {
            (Some(x), Some(y)) => Some((x * 16 + y) as u8),
            _ => None,
        }
    }
}

/// All ASCII.
pub open spec fn ascii_chars(s: Seq<char>) -> bool {
    forall|i: int| 0 <= i < s.len() ==> (#[trigger] s[i] as u32) < 128
}

/// The eight bytes of a sixteen-character hexadecimal payload.
pub open spec fn payload_bytes(p: Seq<char>) -> Option<Seq<u8>> {
    if p.len() == 16 && ascii_chars(p) && forall|i: int|
        0 <= i < 8 ==> #[trigger] hex_byte(p[2 * i], p[2 * i + 1]) is Some {
        Some(Seq::new(8, |i: int| hex_byte(p[2 * i], p[2 * i + 1])->Some_0))
    } else {
        None
    }
}

pub fn hex_value_exec(c: char) -> (r: Option<u8>)
    ensures
        match (r, hex_value(c)) {
            (Some(x), Some(y)) => x == y,
            (None, None) => true,
            _ => false,
        },
{
    if '0' <= c && c <= '9' {
        Some((c as u32 - 48) as u8)
    } else if 'a' <= c && c <= 'f' {
        Some((c as u32 - 97 + 10) as u8)
    } else if 'A' <= c && c <= 'F' {
        Some((c as u32 - 65 + 10) as u8)
    } else {
        None
    }
}

pub fn hex_byte_exec(a: char, b: char) -> (r: Option<u8>)
    ensures
        r == hex_byte(a, b),
{
    if a == '+' {
        return hex_value_exec(b);
    }
    match (hex_value_exec(a), hex_value_exec(b)) {
        (Some(x), Some(y)) => Some(x * 16 + y),
        _ => None,
    }
}

/// The eight bytes of a sixteen-character hexadecimal payload.
pub fn parse_payload(p: &[char]) -> (r: Option<Vec<u8>>)
    ensures
        match (r, payload_bytes(p@)) {
            (Some(d), Some(e)) => d@ == e && d@.len() == 8,
            (None, None) => true,
            _ => false,
        },
{
    if p.len() != 16 {
        return None;
    }
    let mut j: usize = 0;
    while j < 16
        invariant
            p@.len() == 16,
            j <= 16,
            forall|m: int| 0 <= m < j ==> (#[trigger] p@[m] as u32) < 128,
        decreases 16 - j,
    {
        if p[j] as u32 >= 128 {
            assert(!ascii_chars(p@));
            return None;
        }
        j = j + 1;
    }
    let mut data: Vec<u8> = Vec::new();
    let mut i: usize = 0;
    while i < 8
        invariant
            p@.len() == 16,
            ascii_chars(p@),
            i <= 8,
            data@.len() == i,
            forall|m: int| 0 <= m < i ==> hex_byte(p@[2 * m], p@[2 * m + 1]) == Some(#[trigger] data@[m]),
        decreases 8 - i,
    {
        match hex_byte_exec(p[2 * i], p[2 * i + 1]) {
            None => {
                assert(!(hex_byte(p@[2 * i as int], p@[2 * i as int + 1]) is Some));
                return None;
            },
            Some(b) => {
                data.push(b);
            },
        }
        i = i + 1;
    }
    assert(payload_bytes(p@) is Some && payload_bytes(p@)->Some_0 =~= data@) by {
        assert forall|m: int| 0 <= m < 8 implies #[trigger] hex_byte(p@[2 * m], p@[2 * m + 1]) is Some by {
            assert(hex_byte(p@[2 * m], p@[2 * m + 1]) == Some(data@[m]));
        }
    }
    Some(data)
}

/// Whether `v` begins with the characters of `pre`.
pub fn starts_with_chars(v: &[char], pre: &[char]) -> (b: bool)
    ensures
        b == (pre@.len() <= v@.len() && v@.take(pre@.len() as int) == pre@),
{
    if v.len() < pre.len() {
        return false;
    }
    let r = matches_at(v, pre, 0);
    assert(v@.subrange(0, pre@.len() as int) == v@.take(pre@.len() as int));
    r
}

/// Index of the first occurrence of `c` in `b`, or -1.
pub open spec fn char_pos(b: Seq<char>, c: char) -> int
    decreases b.len(),
{
    if b.len() == 0 {
        -1
    } else {
        let p = char_pos(b.drop_last(), c);
        if p >= 0 {
            p
        } else if b.last() == c {
            b.len() - 1
        } else {
            -1
        }
    }
}

/// Index of the first occurrence of `c`.
pub fn find_char(b: &[char], c: char) -> (r: Option<usize>)
    ensures
        r.is_none() <==> char_pos(b@, c) < 0,
        r.is_some() ==> r.unwrap() == char_pos(b@, c) && r.unwrap() < b@.len(),
{
    let mut pos: Option<usize> = None;
    let mut i: usize = 0;
    while i < b.len()
        invariant
            i <= b@.len(),
            pos.is_none() <==> char_pos(b@.take(i as int), c) < 0,
            pos.is_some() ==> pos.unwrap() == char_pos(b@.take(i as int), c) && pos.unwrap() < i,
        decreases b@.len() - i,
    {
        assert(b@.take(i + 1).drop_last() == b@.take(i as int));
        if pos.is_none() && b[i] == c {
            pos = Some(i);
        }
        i = i + 1;
    }
    assert(b@.take(b@.len() as int) == b@);
    pos
}

/// A found occurrence really is one.
pub proof fn lemma_find_from_match(s: Seq<char>, pat: Seq<char>, i: int)
    requires
        find_from(s, pat, i) >= 0,
    ensures
        s.subrange(find_from(s, pat, i), find_from(s, pat, i) + pat.len()) == pat,
    decreases s.len() + 1 - i,
{
    if !(i < 0 || i + pat.len() > s.len()) && s.subrange(i, i + pat.len()) != pat {
        lemma_find_from_match(s, pat, i + 1);
    }
}

/// The position of the first `c` is in range, holds `c`, and no earlier character is `c`.
pub proof fn lemma_char_pos(b: Seq<char>, c: char)
    ensures
        -1 <= char_pos(b, c) < b.len(),
        char_pos(b, c) >= 0 ==> b[char_pos(b, c)] == c,
        forall|j: int| 0 <= j < b.len() && (char_pos(b, c) < 0 || j < char_pos(b, c)) ==> b[j] != c,
    decreases b.len(),
{
    if b.len() > 0 {
        let t = b.drop_last();
        lemma_char_pos(t, c);
        assert forall|j: int|
            0 <= j < b.len() && (char_pos(b, c) < 0 || j < char_pos(b, c)) implies b[j] != c by {
            if j < t.len() {
                assert(b[j] == t[j]);
            }
        }
    }
}

} // verus!
