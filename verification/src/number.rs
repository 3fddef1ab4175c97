//! Decimal numbers as typed by an operator: parsing, comparison against
//! limits and the shortest text of the value.
use vstd::prelude::*;
use vstd::string::*;
use crate::text::{
    all_digits, dec, digit_value, digits_upto, digits_value, head, is_digit, lemma_digits_value_mono,
    padded, push_char, push_dec, push_padded, tail,
};

verus! {

/// A finite decimal value `(-1)^negative * mantissa / 10^scale`.
/// The sign is kept apart so that `-0` stays distinguishable.
#[derive(Clone, Copy, Debug, PartialEq, Eq, Structural)]
pub struct Decimal {
    pub negative: bool,
    pub mantissa: u64,
    pub scale: u32,
}

/// The largest mantissa a parsed decimal may have.
pub const MANTISSA_LIMIT: u64 = 999_999_999_999_999_999;

/// The largest number of fraction digits a parsed decimal may have.
pub const SCALE_LIMIT: u32 = 18;

pub open spec fn pow10(n: nat) -> nat
    decreases n,
{
    if n == 0 {
        1
    } else {
        10 * pow10((n - 1) as nat)
    }
}

/// Index of the first `.` in `b`, or -1 when there is none.
pub open spec fn dot_pos(b: Seq<char>) -> int
    decreases b.len(),
{
    if b.len() == 0 {
        -1
    } else {
        let p = dot_pos(b.drop_last());
        if p >= 0 {
            p
        } else if b.last() == '.' {
            b.len() - 1
        } else {
            -1
        }
    }
}

/// Length of the sign prefix (`+` or `-`) of a number.
pub open spec fn sign_len(s: Seq<char>) -> int {
    if s.len() > 0 && (s[0] == '+' || s[0] == '-') {
        1
    } else {
        0
    }
}

impl Decimal {
    /// Well formed: within the limits that parsing guarantees.
    pub open spec fn wf(self) -> bool {
        self.mantissa <= MANTISSA_LIMIT && self.scale <= SCALE_LIMIT
    }

    /// The magnitude is at most `num / den`.
    pub open spec fn abs_at_most(self, num: nat, den: nat) -> bool {
        self.mantissa * den <= num * pow10(self.scale as nat)
    }

    /// The value is a whole number.
    pub open spec fn integral(self) -> bool {
        (self.mantissa as nat) % pow10(self.scale as nat) == 0
    }

    /// The magnitude rounded toward zero.
    pub open spec fn whole(self) -> nat {
        (self.mantissa as nat) / pow10(self.scale as nat)
    }

    /// The value rounded toward zero, with its sign.
    pub open spec fn int_value(self) -> int {
        if self.negative {
            -(self.whole() as int)
        } else {
            self.whole() as int
        }
    }
}

/// The fraction `f / 10^k` with trailing zero digits removed.
pub open spec fn trim(f: nat, k: nat) -> (nat, nat)
    decreases k,
{
    if k > 0 && f % 10 == 0 {
        trim(f / 10, (k - 1) as nat)
    } else {
        (f, k)
    }
}

/// The shortest text of a decimal value, as Rust prints a float: no sign for
/// positive values, no trailing fraction zeros, no point for whole values.
pub open spec fn decimal_text(d: Decimal) -> Seq<char> {
    let p = pow10(d.scale as nat);
    let t = trim(d.mantissa as nat % p, d.scale as nat);
    let sign = if d.negative {
        seq!['-']
    } else {
        seq![]
    };
    let frac = if t.1 > 0 {
        seq!['.'] + padded(t.0, t.1)
    } else {
        seq![]
    };
    sign + dec(d.mantissa as nat / p) + frac
}

/// Index of the first `e` or `E` (the exponent mark), or -1 when there is none.
pub open spec fn exp_pos(b: Seq<char>) -> int
    decreases b.len(),
{
    if b.len() == 0 {
        -1
    } else {
        let p = exp_pos(b.drop_last());
        if p >= 0 {
            p
        } else if b.last() == 'e' || b.last() == 'E' {
            b.len() - 1
        } else {
            -1
        }
    }
}

/// The part of a number before its exponent, without the sign.
pub open spec fn mantissa_text(s: Seq<char>) -> Seq<char> {
    let b = s.skip(sign_len(s));
    if exp_pos(b) < 0 {
        b
    } else {
        b.take(exp_pos(b))
    }
}

/// The exponent text after `e`, if there is an exponent.
pub open spec fn exponent_text(s: Seq<char>) -> Option<Seq<char>> {
    let b = s.skip(sign_len(s));
    if exp_pos(b) < 0 {
        None
    } else {
        Some(b.skip(exp_pos(b) + 1))
    }
}

/// Digits of the mantissa before its point.
pub open spec fn whole_digits(m: Seq<char>) -> Seq<char> {
    if dot_pos(m) < 0 {
        m
    } else {
        m.take(dot_pos(m))
    }
}

/// Digits of the mantissa after its point.
pub open spec fn fraction_digits(m: Seq<char>) -> Seq<char> {
    if dot_pos(m) < 0 {
        seq![]
    } else {
        m.skip(dot_pos(m) + 1)
    }
}

/// The value of an exponent: an optional sign and one or more digits.
pub open spec fn exponent_value(x: Seq<char>) -> Option<int> {
    let body = x.skip(sign_len(x));
    if body.len() > 0 && all_digits(body) {
        Some(
            if sign_len(x) == 1 && x[0] == '-' {
                -(digits_value(body) as int)
            } else {
                digits_value(body) as int
            },
        )
    } else {
        None
    }
}

/// A digit string without its leading zeros.
pub open spec fn significant(g: Seq<char>) -> Seq<char>
    decreases g.len(),
{
    if g.len() > 0 && g[0] == '0' {
        significant(g.drop_first())
    } else {
        g
    }
}

/// The first 39 digits, padded with zeros to 39.
pub open spec fn first39(g: Seq<char>) -> Seq<char> {
    Seq::new(39, |j: int| if j < g.len() { g[j] } else { '0' })
}

/// The least value that an `f32` parse rounds to infinity: halfway between
/// the largest `f32` and 2^128.
pub const F32_OVERFLOW: u128 = 340282356779733661637539395458142568448;

/// What a well-formed number denotes, as far as an exact decimal tells it.
#[derive(Clone, Copy, Debug, PartialEq, Eq, Structural)]
pub enum Reading {
    /// A value that a decimal of at most eighteen digits and eighteen
    /// fraction digits holds exactly.
    Exact(Decimal),
    /// A finite value of at least 10^18 in magnitude.
    Beyond,
    /// A value that an `f32` cannot hold: it rounds to infinity.
    Infinite,
    /// A value below 10^18 in magnitude with more digits than a decimal here holds.
    Unheld,
}

/// The reading of the digits `g` (integer and fraction digits together,
/// `value = digits * 10^k`) with its sign.
/// `n` digits after the leading zeros and exponent `k` put the magnitude in
/// `[10^(n+k-1), 10^(n+k))`; with `n + k` of 39 the first 39 digits, as a
/// whole number, are the integer part, which decides against `F32_OVERFLOW`.
pub open spec fn classify(negative: bool, g: Seq<char>, k: int) -> Reading {
    let n = significant(g).len() as int;
    let d = digits_value(g);
    if n == 0 {
        Reading::Exact(
            Decimal {
                negative,
                mantissa: 0,
                scale: if k < 0 {
                    if -k <= 18 {
                        (-k) as u32
                    } else {
                        18
                    }
                } else {
                    0
                },
            },
        )
    } else if k >= 0 && n + k <= 18 {
        Reading::Exact(Decimal { negative, mantissa: (d * pow10(k as nat)) as u64, scale: 0 })
    } else if k < 0 && -k <= 18 && n <= 18 {
        Reading::Exact(Decimal { negative, mantissa: d as u64, scale: (-k) as u32 })
    } else if n + k >= 40 || (n + k == 39 && digits_value(first39(significant(g))) >= F32_OVERFLOW) {
        Reading::Infinite
    } else if n + k >= 19 {
        Reading::Beyond
    } else {
        Reading::Unheld
    }
}

/// A number as a float parser reads it: an optional sign, digits with an
/// optional point (at least one digit in all), and an optional exponent
/// `e`/`E` with an optional sign and one or more digits. `None` when the
/// token is not one.
pub open spec fn reading_spec(s: Seq<char>) -> Option<Reading> {
    let m = mantissa_text(s);
    let i = whole_digits(m);
    let f = fraction_digits(m);
    let x = exponent_text(s);
    if all_digits(i) && all_digits(f) && i.len() + f.len() >= 1 && (x is None || exponent_value(
        x->0,
    ) is Some) {
        let e: int = match x {
            None => 0,
            Some(t) => exponent_value(t)->0,
        };
        Some(classify(sign_len(s) == 1 && s[0] == '-', i + f, e - f.len()))
    } else {
        None
    }
}

/// The exponents beyond which the reading no longer changes.
pub const EXPONENT_CAP: u128 = 1267650600228229401496703205376;

proof fn lemma_classify_far(negative: bool, g: Seq<char>, k1: int, k2: int)
    requires
        g.len() <= usize::MAX,
        (k1 >= 0x1_0000_0000_0000_0000_0000 && k2 >= 0x1_0000_0000_0000_0000_0000) || (k1
            <= -0x1_0000_0000_0000_0000_0000 && k2 <= -0x1_0000_0000_0000_0000_0000),
    ensures
        classify(negative, g, k1) == classify(negative, g, k2),
{
    lemma_significant_len(g);
}

proof fn lemma_significant_len(g: Seq<char>)
    ensures
        significant(g).len() <= g.len(),
    decreases g.len(),
{
    if g.len() > 0 && g[0] == '0' {
        lemma_significant_len(g.drop_first());
    }
}

proof fn lemma_significant_value(g: Seq<char>)
    requires
        all_digits(g),
    ensures
        all_digits(significant(g)),
        digits_value(significant(g)) == digits_value(g),
        significant(g).len() > 0 ==> significant(g)[0] != '0',
    decreases g.len(),
{
    if g.len() > 0 && g[0] == '0' {
        let t = g.drop_first();
        assert forall|j: int| 0 <= j < t.len() implies is_digit(#[trigger] t[j]) by {
            assert(t[j] == g[j + 1]);
        }
        lemma_significant_value(t);
        lemma_leading_zero(g);
    }
}

proof fn lemma_leading_zero(g: Seq<char>)
    requires
        g.len() > 0,
        g[0] == '0',
    ensures
        digits_value(g) == digits_value(g.drop_first()),
    decreases g.len(),
{
    if g.len() > 1 {
        let h = g.drop_last();
        lemma_leading_zero(h);
        assert(h.drop_first() =~= g.drop_first().drop_last());
        assert(g.drop_first().last() == g.last());
    } else {
        assert(g.drop_first() =~= Seq::<char>::empty());
        assert(g.drop_last() =~= Seq::<char>::empty());
        assert(digit_value('0') == 0);
    }
}

proof fn lemma_digits_below(g: Seq<char>)
    requires
        all_digits(g),
    ensures
        digits_value(g) < pow10(g.len()),
    decreases g.len(),
{
    if g.len() > 0 {
        let h = g.drop_last();
        assert forall|j: int| 0 <= j < h.len() implies is_digit(#[trigger] h[j]) by {
            assert(h[j] == g[j]);
        }
        lemma_digits_below(h);
        assert(is_digit(g[g.len() - 1]));
        assert(digit_value(g.last()) <= 9);
        assert(pow10(g.len()) == 10 * pow10(h.len()));
    }
}

proof fn lemma_pow10_mono(a: nat, b: nat)
    requires
        a <= b,
    ensures
        1 <= pow10(a) <= pow10(b),
    decreases b,
{
    if b > a {
        lemma_pow10_mono(a, (b - 1) as nat);
    } else if a > 0 {
        lemma_pow10_mono((a - 1) as nat, (a - 1) as nat);
    }
}

proof fn lemma_pow10_bound(n: nat)
    requires
        n <= 18,
    ensures
        1 <= pow10(n) <= 1_000_000_000_000_000_000,
{
    lemma_pow10_mono(n, 18);
    assert(pow10(18) == 1_000_000_000_000_000_000) by {
        reveal_with_fuel(pow10, 19);
    }
}

/// `10^n` for a small exponent.
pub fn pow10_exec(n: u32) -> (p: u64)
    requires
        n <= 18,
    ensures
        p == pow10(n as nat),
{
    let mut p: u64 = 1;
    let mut i: u32 = 0;
    while i < n
        invariant
            i <= n <= 18,
            p == pow10(i as nat),
        decreases n - i,
    {
        proof {
            lemma_pow10_bound(i as nat);
            lemma_pow10_bound((i + 1) as nat);
        }
        p = p * 10;
        i = i + 1;
    }
    p
}

/// Index of the first `.`, or `None`.
pub fn find_dot(b: &[char]) -> (r: Option<usize>)
    ensures
        r.is_none() <==> dot_pos(b@) < 0,
        r.is_some() ==> r.unwrap() == dot_pos(b@) && r.unwrap() < b@.len(),
{
    let mut pos: Option<usize> = None;
    let mut i: usize = 0;
    while i < b.len()
        invariant
            i <= b@.len(),
            pos.is_none() <==> dot_pos(b@.take(i as int)) < 0,
            pos.is_some() ==> pos.unwrap() == dot_pos(b@.take(i as int)) && pos.unwrap() < i,
        decreases b@.len() - i,
    {
        assert(b@.take(i + 1).drop_last() == b@.take(i as int));
        if pos.is_none() && b[i] == '.' {
            pos = Some(i);
        }
        i = i + 1;
    }
    assert(b@.take(b@.len() as int) == b@);
    pos
}

impl Decimal {
    /// Whether the magnitude is at most `num / den`.
    pub fn abs_at_most_exec(self, num: u64, den: u64) -> (b: bool)
        requires
            self.wf(),
        ensures
            b == self.abs_at_most(num as nat, den as nat),
    {
        let p = pow10_exec(self.scale);
        let a: u128 = self.mantissa as u128;
        let b: u128 = den as u128;
        let c: u128 = num as u128;
        let e: u128 = p as u128;
        proof {
            assert(a * b <= 0xffff_ffff_ffff_ffff * 0xffff_ffff_ffff_ffff) by (nonlinear_arith)
                requires
                    a <= 0xffff_ffff_ffff_ffff,
                    b <= 0xffff_ffff_ffff_ffff,
            ;
            assert(c * e <= 0xffff_ffff_ffff_ffff * 0xffff_ffff_ffff_ffff) by (nonlinear_arith)
                requires
                    c <= 0xffff_ffff_ffff_ffff,
                    e <= 0xffff_ffff_ffff_ffff,
            ;
        }
        a * b <= c * e
    }

    /// Whether the value is a whole number.
    pub fn is_integral(self) -> (b: bool)
        requires
            self.wf(),
        ensures
            b == self.integral(),
    {
        proof {
            lemma_pow10_bound(self.scale as nat);
        }
        self.mantissa % pow10_exec(self.scale) == 0
    }

    /// The magnitude rounded toward zero.
    pub fn whole_exec(self) -> (w: u64)
        requires
            self.wf(),
        ensures
            w == self.whole(),
            w <= MANTISSA_LIMIT,
    {
        proof {
            lemma_pow10_bound(self.scale as nat);
        }
        self.mantissa / pow10_exec(self.scale)
    }
}

/// A magnitude of at most `n` rounds to at most `n`.
pub proof fn lemma_whole_at_most(d: Decimal, n: nat)
    requires
        d.wf(),
        d.abs_at_most(n, 1),
    ensures
        d.whole() <= n,
{
    lemma_pow10_bound(d.scale as nat);
    let p = pow10(d.scale as nat);
    let m = d.mantissa as nat;
    assert(m / p <= n) by (nonlinear_arith)
        requires
            m * 1 <= n * p,
            p >= 1,
    ;
}

/// An exponent limited to `EXPONENT_CAP` either way.
pub open spec fn capped(e: int) -> int {
    if e > EXPONENT_CAP {
        EXPONENT_CAP as int
    } else if e < -(EXPONENT_CAP as int) {
        -(EXPONENT_CAP as int)
    } else {
        e
    }
}

proof fn lemma_pow10_add(a: nat, b: nat)
    ensures
        pow10(a + b) == pow10(a) * pow10(b),
    decreases b,
{
    if b > 0 {
        lemma_pow10_add(a, (b - 1) as nat);
        assert(pow10(a + b) == 10 * pow10((a + b - 1) as nat));
        assert(pow10(a) * pow10(b) == pow10(a) * (10 * pow10((b - 1) as nat)));
        assert(pow10(a) * (10 * pow10((b - 1) as nat)) == 10 * (pow10(a) * pow10((b - 1) as nat)))
            by (nonlinear_arith);
    } else {
        assert(pow10(0) == 1);
        assert(a + b == a);
    }
}

/// Index of the first exponent mark, or `None`.
fn find_exp(b: &[char]) -> (r: Option<usize>)
    ensures
        r.is_none() <==> exp_pos(b@) < 0,
        r.is_some() ==> r.unwrap() == exp_pos(b@) && r.unwrap() < b@.len(),
{
    let mut pos: Option<usize> = None;
    let mut i: usize = 0;
    while i < b.len()
        invariant
            i <= b@.len(),
            pos.is_none() <==> exp_pos(b@.take(i as int)) < 0,
            pos.is_some() ==> pos.unwrap() == exp_pos(b@.take(i as int)) && pos.unwrap() < i,
        decreases b@.len() - i,
    {
        assert(b@.take(i + 1).drop_last() == b@.take(i as int));
        if pos.is_none() && (b[i] == 'e' || b[i] == 'E') {
            pos = Some(i);
        }
        i = i + 1;
    }
    assert(b@.take(b@.len() as int) == b@);
    pos
}

fn all_digits_exec(v: &[char]) -> (b: bool)
    ensures
        b == all_digits(v@),
{
    let mut i: usize = 0;
    while i < v.len()
        invariant
            i <= v@.len(),
            forall|j: int| 0 <= j < i ==> is_digit(#[trigger] v@[j]),
        decreases v@.len() - i,
    {
        if !('0' <= v[i] && v[i] <= '9') {
            return false;
        }
        i = i + 1;
    }
    true
}

/// How many leading zeros a digit string has.
fn lead_zeros(v: &[char]) -> (r: usize)
    ensures
        r <= v@.len(),
        v@.skip(r as int) == significant(v@),
{
    let mut i: usize = 0;
    assert(v@.skip(0) =~= v@);
    while i < v.len() && v[i] == '0'
        invariant
            i <= v@.len(),
            significant(v@.skip(i as int)) == significant(v@),
        decreases v@.len() - i,
    {
        assert(v@.skip(i as int).drop_first() =~= v@.skip(i as int + 1));
        i = i + 1;
    }
    assert(significant(v@.skip(i as int)) == v@.skip(i as int));
    i
}

/// The value of an exponent, capped at `EXPONENT_CAP` either way.
fn exponent_read(x: &[char]) -> (r: Option<i128>)
    ensures
        r.is_some() == exponent_value(x@).is_some(),
        r.is_some() ==> r.unwrap() == capped(exponent_value(x@)->0),
{
    let signed = x.len() > 0 && (x[0] == '+' || x[0] == '-');
    let negative = x.len() > 0 && x[0] == '-';
    let body = tail(x, if signed { 1 } else { 0 });
    assert(body@ == x@.skip(sign_len(x@)));
    if body.len() == 0 || !all_digits_exec(body.as_slice()) {
        return None;
    }
    let mut acc: u128 = 0;
    let mut i: usize = 0;
    while i < body.len()
        invariant
            i <= body@.len(),
            all_digits(body@),
            acc == if digits_value(body@.take(i as int)) > EXPONENT_CAP {
                EXPONENT_CAP as nat
            } else {
                digits_value(body@.take(i as int))
            },
        decreases body@.len() - i,
    {
        let c = body[i];
        assert(body@.take(i as int + 1).drop_last() =~= body@.take(i as int));
        assert(body@.take(i as int + 1).last() == c);
        assert(is_digit(body@[i as int]));
        let d = (c as u32 - 48) as u128;
        if acc < EXPONENT_CAP {
            acc = acc * 10 + d;
            if acc > EXPONENT_CAP {
                acc = EXPONENT_CAP;
            }
        }
        i = i + 1;
    }
    assert(body@.take(body@.len() as int) =~= body@);
    let v = acc as i128;
    if negative {
        Some(-v)
    } else {
        Some(v)
    }
}

/// Whether the first 39 digits, as a whole number, reach `F32_OVERFLOW`.
fn first39_reaches(g: &[char]) -> (b: bool)
    requires
        all_digits(g@),
    ensures
        b == (digits_value(first39(g@)) >= F32_OVERFLOW),
{
    let ghost f = first39(g@);
    assert(all_digits(f));
    let mut acc: u128 = 0;
    let mut j: usize = 0;
    while j < 39
        invariant
            j <= 39,
            f == first39(g@),
            all_digits(f),
            acc == digits_value(f.take(j as int)),
        decreases 39 - j,
    {
        let c = if j < g.len() {
            g[j]
        } else {
            '0'
        };
        assert(f[j as int] == c);
        assert(f.take(j as int + 1).drop_last() =~= f.take(j as int));
        assert(f.take(j as int + 1).last() == c);
        assert(is_digit(f[j as int]));
        let d = (c as u32 - 48) as u128;
        if acc > (u128::MAX - d) / 10 {
            proof {
                assert(acc * 10 + d > u128::MAX) by (nonlinear_arith)
                    requires
                        acc > (u128::MAX - d) / 10,
                        d <= 9,
                ;
                lemma_digits_value_mono(f, j as int + 1);
            }
            return true;
        }
        acc = acc * 10 + d;
        j = j + 1;
    }
    assert(f.take(39) =~= f);
    acc >= F32_OVERFLOW
}

/// The reading of digits `g`, whose leading zeros end at `lz`, with exponent `k`.
fn classify_exec(negative: bool, g: &[char], lz: usize, k: i128) -> (r: Reading)
    requires
        all_digits(g@),
        lz <= g@.len(),
        g@.skip(lz as int) == significant(g@),
        -0x1_0000_0000_0000_0000_0000_0000_0000 <= k <= 0x1_0000_0000_0000_0000_0000_0000_0000,
    ensures
        r == classify(negative, g@, k as int),
        r matches Reading::Exact(d) ==> d.wf(),
{
    proof {
        lemma_significant_value(g@);
    }
    let sig = tail(g, lz);
    let n = (g.len() - lz) as i128;
    assert(n == significant(g@).len());
    if n == 0 {
        let scale: u32 = if k < 0 {
            if -k <= 18 {
                (-k) as u32
            } else {
                18
            }
        } else {
            0
        };
        return Reading::Exact(Decimal { negative, mantissa: 0, scale });
    }
    if (k >= 0 && n + k <= 18) || (k < 0 && -k <= 18 && n <= 18) {
        proof {
            lemma_digits_below(sig@);
            lemma_pow10_mono(sig@.len(), 18);
            assert(pow10(18) == 1_000_000_000_000_000_000) by {
                reveal_with_fuel(pow10, 19);
            }
        }
        let d = match digits_upto(sig.as_slice(), MANTISSA_LIMIT) {
            Some(d) => d,
            None => {
                assert(false);
                0
            },
        };
        if k >= 0 {
            let kk = k as u32;
            proof {
                lemma_pow10_add(sig@.len(), kk as nat);
                lemma_pow10_mono(sig@.len() + kk as nat, 18);
                lemma_pow10_bound(kk as nat);
                assert(d * pow10(kk as nat) < pow10(sig@.len()) * pow10(kk as nat)) by (
                nonlinear_arith)
                    requires
                        d < pow10(sig@.len()),
                        pow10(kk as nat) >= 1,
                ;
            }
            let p = pow10_exec(kk);
            return Reading::Exact(Decimal { negative, mantissa: d * p, scale: 0 });
        } else {
            return Reading::Exact(Decimal { negative, mantissa: d, scale: (-k) as u32 });
        }
    }
    let mag = n + k;
    if mag >= 40 {
        return Reading::Infinite;
    }
    if mag == 39 && first39_reaches(sig.as_slice()) {
        return Reading::Infinite;
    }
    if mag >= 19 {
        Reading::Beyond
    } else {
        Reading::Unheld
    }
}

/// The sign, digits before and after the point, and exponent text of a token.
fn split_number(s: &[char]) -> (r: (bool, Vec<char>, Vec<char>, Option<Vec<char>>))
    ensures
        r.0 == (sign_len(s@) == 1 && s@[0] == '-'),
        r.1@ == whole_digits(mantissa_text(s@)),
        r.2@ == fraction_digits(mantissa_text(s@)),
        match (r.3, exponent_text(s@)) {
            (Some(x), Some(t)) => x@ == t,
            (None, None) => true,
            _ => false,
        },
{
    let signed = s.len() > 0 && (s[0] == '+' || s[0] == '-');
    let negative = s.len() > 0 && s[0] == '-';
    let b = tail(s, if signed { 1 } else { 0 });
    assert(b@ == s@.skip(sign_len(s@)));
    let ep = find_exp(b.as_slice());
    let (m, x) = match ep {
        None => (head(b.as_slice(), b.len()), None),
        Some(p) => (head(b.as_slice(), p), Some(tail(b.as_slice(), p + 1))),
    };
    assert(b@.take(b@.len() as int) == b@);
    assert(m@ == mantissa_text(s@));
    let dp = find_dot(m.as_slice());
    let (ip, fp) = match dp {
        None => (head(m.as_slice(), m.len()), Vec::new()),
        Some(p) => (head(m.as_slice(), p), tail(m.as_slice(), p + 1)),
    };
    assert(m@.take(m@.len() as int) == m@);
    (negative, ip, fp, x)
}

/// Digits before the point followed by those after it.
fn join_digits(ip: &Vec<char>, fp: &Vec<char>) -> (g: Vec<char>)
    requires
        all_digits(ip@),
        all_digits(fp@),
    ensures
        g@ == ip@ + fp@,
        all_digits(g@),
{
    let mut g = ip.clone();
    assert(g@ == ip@);
    let mut j: usize = 0;
    while j < fp.len()
        invariant
            j <= fp@.len(),
            g@ == ip@ + fp@.take(j as int),
        decreases fp@.len() - j,
    {
        g.push(fp[j]);
        j = j + 1;
        assert(g@ =~= ip@ + fp@.take(j as int));
    }
    assert(fp@.take(fp@.len() as int) =~= fp@);
    assert forall|t: int| 0 <= t < g@.len() implies is_digit(#[trigger] g@[t]) by {
        if t < ip@.len() {
            assert(g@[t] == ip@[t]);
        } else {
            assert(g@[t] == fp@[t - ip@.len()]);
        }
    }
    g
}

/// Reads a token as a float parser does (see `reading_spec`).
pub fn read_number(s: &[char]) -> (r: Option<Reading>)
    ensures
        r == reading_spec(s@),
        r matches Some(Reading::Exact(d)) ==> d.wf(),
{
    let (negative, ip, fp, x) = split_number(s);
    if !(all_digits_exec(ip.as_slice()) && all_digits_exec(fp.as_slice()) && (ip.len() >= 1
        || fp.len() >= 1)) {
        return None;
    }
    let e: i128 = match x {
        None => 0,
        Some(xv) => match exponent_read(xv.as_slice()) {
            None => {
                return None;
            },
            Some(e) => e,
        },
    };
    let g = join_digits(&ip, &fp);
    let lz = lead_zeros(g.as_slice());
    let gl = g.len();
    let k: i128 = e - fp.len() as i128;
    let r = classify_exec(negative, g.as_slice(), lz, k);
    proof {
        let et: int = match exponent_text(s@) {
            None => 0,
            Some(t) => exponent_value(t)->0,
        };
        assert(e == capped(et));
        assert(g@.len() == gl);
        if et != capped(et) {
            lemma_classify_far(negative, g@, et - fp@.len(), k as int);
        }
    }
    Some(r)
}

/// Appends the shortest text of a decimal value.
pub fn push_decimal(s: &mut String, d: Decimal)
    requires
        d.wf(),
    ensures
        final(s)@ == old(s)@ + decimal_text(d),
{
    proof {
        lemma_pow10_bound(d.scale as nat);
    }
    let p = pow10_exec(d.scale);
    let mut f: u64 = d.mantissa % p;
    let mut k: u32 = d.scale;
    while k > 0 && f % 10 == 0
        invariant
            trim(f as nat, k as nat) == trim(d.mantissa as nat % p as nat, d.scale as nat),
        decreases k,
    {
        f = f / 10;
        k = k - 1;
    }
    if d.negative {
        push_char(s, '-');
    }
    push_dec(s, d.mantissa / p);
    if k > 0 {
        push_char(s, '.');
        push_padded(s, f, k);
    }
    assert(trim(f as nat, k as nat) == (f as nat, k as nat));
}

} // verus!
