//! SQL values, their views, and the total order the engine compares them by.
use vstd::arithmetic::mul::*;
use vstd::arithmetic::power2::*;
use vstd::prelude::*;

verus! {

/// A REAL value. The engine never performs floating-point arithmetic itself:
/// a REAL is carried as its IEEE-754 bit pattern together with its canonical
/// decimal rendering, both supplied by whoever produced the value.
#[derive(Debug, Clone, PartialEq)]
pub struct Real {
    pub bits: u64,
    pub text: Vec<char>,
}

/// A SQL value.
#[derive(Debug, Clone, PartialEq)]
pub enum Value {
    Null,
    Integer(i64),
    Float(Real),
    Text(Vec<char>),
    Blob(Vec<u8>),
}

/// The mathematical view of a [`Value`].
pub enum ValueView {
    Null,
    Integer(i64),
    Float(u64, Seq<char>),
    Text(Seq<char>),
    Blob(Seq<u8>),
}

impl View for Value {
    type V = ValueView;

    open spec fn view(&self) -> ValueView {
        match self {
            Value::Null => ValueView::Null,
            Value::Integer(i) => ValueView::Integer(*i),
            Value::Float(r) => ValueView::Float(r.bits, r.text@),
            Value::Text(t) => ValueView::Text(t@),
            Value::Blob(b) => ValueView::Blob(b@),
        }
    }
}

/// The characters of a string slice, in order.
pub fn chars_of(s: &str) -> (r: Vec<char>)
    ensures
        r@ == s@,
{
    let n = s.unicode_len();
    let mut r: Vec<char> = Vec::new();
    let mut i: usize = 0;
    while i < n
        invariant
            n == s@.len(),
            i <= n,
            r@ == s@.subrange(0, i as int),
        decreases n - i,
    {
        r.push(s.get_char(i));
        i = i + 1;
        assert(r@ =~= s@.subrange(0, i as int));
    }
    assert(r@ =~= s@);
    r
}

/// A copy of a character sequence.
pub fn copy_chars(v: &Vec<char>) -> (r: Vec<char>)
    ensures
        r@ == v@,
{
    let mut r: Vec<char> = Vec::new();
    let mut i: usize = 0;
    while i < v.len()
        invariant
            i <= v.len(),
            r@ == v@.subrange(0, i as int),
        decreases v.len() - i,
    {
        r.push(v[i]);
        i = i + 1;
        assert(r@ =~= v@.subrange(0, i as int));
    }
    assert(r@ =~= v@);
    r
}

/// A copy of a byte sequence.
pub fn copy_bytes(v: &Vec<u8>) -> (r: Vec<u8>)
    ensures
        r@ == v@,
{
    let mut r: Vec<u8> = Vec::new();
    let mut i: usize = 0;
    while i < v.len()
        invariant
            i <= v.len(),
            r@ == v@.subrange(0, i as int),
        decreases v.len() - i,
    {
        r.push(v[i]);
        i = i + 1;
        assert(r@ =~= v@.subrange(0, i as int));
    }
    assert(r@ =~= v@);
    r
}


/// -1, 0 or 1 as `a` is below, equal to or above `b`.
pub open spec fn cmp_int(a: int, b: int) -> int {
    if a < b {
        -1
    } else if a == b {
        0
    } else {
        1
    }
}

/// Lexicographic comparison of two character sequences from position `i` on.
pub open spec fn chars_cmp_from(a: Seq<char>, b: Seq<char>, i: int) -> int
    decreases a.len() - i,
{
    if i >= a.len() || i >= b.len() || i < 0 {
        cmp_int(a.len() as int, b.len() as int)
    } else if a[i] != b[i] {
        cmp_int(a[i] as int, b[i] as int)
    } else {
        chars_cmp_from(a, b, i + 1)
    }
}

/// Lexicographic comparison of two byte sequences from position `i` on.
pub open spec fn bytes_cmp_from(a: Seq<u8>, b: Seq<u8>, i: int) -> int
    decreases a.len() - i,
{
    if i >= a.len() || i >= b.len() || i < 0 {
        cmp_int(a.len() as int, b.len() as int)
    } else if a[i] != b[i] {
        cmp_int(a[i] as int, b[i] as int)
    } else {
        bytes_cmp_from(a, b, i + 1)
    }
}

pub open spec fn real_is_neg(b: u64) -> bool {
    (b >> 63u64) == 1
}

pub open spec fn real_exp(b: u64) -> u64 {
    (b >> 52u64) & 0x7ffu64
}

pub open spec fn real_frac(b: u64) -> u64 {
    b & 0xf_ffff_ffff_ffffu64
}

/// The integer significand of a finite REAL.
pub open spec fn real_mant(b: u64) -> int {
    if real_exp(b) == 0 {
        real_frac(b) as int
    } else {
        real_frac(b) + pow2(52)
    }
}

/// The binary exponent of a finite REAL: its value is `real_mant(b) * 2^real_scale(b)`.
pub open spec fn real_scale(b: u64) -> int {
    if real_exp(b) == 0 {
        -1074
    } else {
        real_exp(b) - 1075
    }
}

pub open spec fn real_is_nan(b: u64) -> bool {
    real_exp(b) == 0x7ff && real_frac(b) != 0
}

/// The signed significand of a finite REAL.
pub open spec fn real_signed_mant(b: u64) -> int {
    if real_is_neg(b) {
        -real_mant(b)
    } else {
        real_mant(b)
    }
}

/// Exact comparison of an integer with a REAL. Infinities sit beyond every
/// integer; a NaN sorts above every integer.
pub open spec fn int_real_cmp(i: i64, b: u64) -> int {
    if real_exp(b) == 0x7ff {
        if real_frac(b) == 0 && real_is_neg(b) {
            1
        } else {
            -1
        }
    } else if real_scale(b) >= 0 {
        cmp_int(i as int, real_signed_mant(b) * pow2(real_scale(b) as nat))
    } else {
        cmp_int(i * pow2((-real_scale(b)) as nat), real_signed_mant(b))
    }
}

/// The key by which two REALs are ordered: monotone in the numeric value for
/// non-NaN bit patterns, with both zeros mapped to one key.
pub open spec fn real_key(b: u64) -> u64 {
    if b & 0x7fff_ffff_ffff_ffffu64 == 0 {
        0x8000_0000_0000_0000u64
    } else if real_is_neg(b) {
        !b
    } else {
        b | 0x8000_0000_0000_0000u64
    }
}

/// The storage class rank: NULL, then numbers, then TEXT, then BLOB.
pub open spec fn rank(v: ValueView) -> int {
    match v {
        ValueView::Null => 0,
        ValueView::Integer(_) => 1,
        ValueView::Float(_, _) => 1,
        ValueView::Text(_) => 2,
        ValueView::Blob(_) => 3,
    }
}

/// The total order on values: -1, 0 or 1.
pub open spec fn value_cmp(a: ValueView, b: ValueView) -> int {
    if rank(a) != rank(b) {
        cmp_int(rank(a), rank(b))
    } else {
        match (a, b) {
            (ValueView::Integer(x), ValueView::Integer(y)) => cmp_int(x as int, y as int),
            (ValueView::Integer(x), ValueView::Float(y, _)) => int_real_cmp(x, y),
            (ValueView::Float(x, _), ValueView::Integer(y)) => -int_real_cmp(y, x),
            (ValueView::Float(x, _), ValueView::Float(y, _)) => cmp_int(
                real_key(x) as int,
                real_key(y) as int,
            ),
            (ValueView::Text(x), ValueView::Text(y)) => chars_cmp_from(x, y, 0),
            (ValueView::Blob(x), ValueView::Blob(y)) => bytes_cmp_from(x, y, 0),
            _ => 0,
        }
    }
}

/// Compares two character sequences lexicographically by code point.
pub fn compare_chars(a: &Vec<char>, b: &Vec<char>) -> (r: i8)
    ensures
        r as int == chars_cmp_from(a@, b@, 0),
{
    let mut i: usize = 0;
    while i < a.len() && i < b.len()
        invariant
            i <= a.len(),
            i <= b.len(),
            chars_cmp_from(a@, b@, 0) == chars_cmp_from(a@, b@, i as int),
        decreases a.len() - i,
    {
        if a[i] != b[i] {
            return if a[i] < b[i] {
                -1
            } else {
                1
            };
        }
        i = i + 1;
    }
    if a.len() < b.len() {
        -1
    } else if a.len() == b.len() {
        0
    } else {
        1
    }
}

/// Compares two byte sequences lexicographically.
pub fn compare_bytes(a: &Vec<u8>, b: &Vec<u8>) -> (r: i8)
    ensures
        r as int == bytes_cmp_from(a@, b@, 0),
{
    let mut i: usize = 0;
    while i < a.len() && i < b.len()
        invariant
            i <= a.len(),
            i <= b.len(),
            bytes_cmp_from(a@, b@, 0) == bytes_cmp_from(a@, b@, i as int),
        decreases a.len() - i,
    {
        if a[i] != b[i] {
            return if a[i] < b[i] {
                -1
            } else {
                1
            };
        }
        i = i + 1;
    }
    if a.len() < b.len() {
        -1
    } else if a.len() == b.len() {
        0
    } else {
        1
    }
}

/// `2^k` for small `k`.
pub(crate) fn pow2_of(k: u64) -> (r: i128)
    requires
        k < 64,
    ensures
        r as int == pow2(k as nat),
        r > 0,
{
    let mut p: i128 = 1;
    let mut j: u64 = 0;
    proof {
        lemma2_to64();
    }
    while j < k
        invariant
            j <= k,
            k < 64,
            p as int == pow2(j as nat),
        decreases k - j,
    {
        proof {
            lemma_pow2_unfold((j + 1) as nat);
            lemma_pow2_strictly_increases(j as nat, 64);
            lemma2_to64_rest();
        }
        p = p * 2;
        j = j + 1;
    }
    proof {
        lemma_pow2_pos(k as nat);
    }
    p
}

fn cmp_i128(a: i128, b: i128) -> (r: i8)
    ensures
        r as int == cmp_int(a as int, b as int),
{
    if a < b {
        -1
    } else if a == b {
        0
    } else {
        1
    }
}

pub(crate) proof fn lemma_real_fields(b: u64)
    ensures
        real_frac(b) < 0x10_0000_0000_0000u64,
        real_exp(b) <= 0x7ff,
        real_is_neg(b) || (b >> 63u64) == 0,
{
    assert(b & 0xf_ffff_ffff_ffffu64 < 0x10_0000_0000_0000u64) by (bit_vector);
    assert((b >> 52u64) & 0x7ffu64 <= 0x7ffu64) by (bit_vector);
    assert((b >> 63u64) == 1 || (b >> 63u64) == 0) by (bit_vector);
}

/// Exact comparison of an integer with a REAL, by integer arithmetic on the
/// REAL's bit pattern.
pub fn compare_int_real(i: i64, bits: u64) -> (r: i8)
    ensures
        r as int == int_real_cmp(i, bits),
{
    let e: u64 = (bits >> 52u64) & 0x7ffu64;
    let frac: u64 = bits & 0xf_ffff_ffff_ffffu64;
    let neg: bool = (bits >> 63u64) == 1;
    proof {
        lemma_real_fields(bits);
        lemma2_to64();
        lemma2_to64_rest();
    }
    if e == 0x7ff {
        return if frac == 0 && neg {
            1
        } else {
            -1
        };
    }
    let mant: u64 = if e == 0 {
        frac
    } else {
        frac + 0x10_0000_0000_0000u64
    };
    assert(mant as int == real_mant(bits));
    if e >= 1075 {
        let sh: u64 = e - 1075;
        assert(real_scale(bits) == sh as int);
        if sh >= 11 {
            proof {
                lemma_pow2_adds(52, 11);
                if sh > 11 {
                    lemma_pow2_strictly_increases(11, sh as nat);
                }
                if sh > 11 {
                    lemma_mul_strict_inequality(pow2(11) as int, pow2(sh as nat) as int, pow2(52) as int);
                }
                lemma_mul_inequality(pow2(52) as int, mant as int, pow2(sh as nat) as int);
                lemma_mul_is_commutative(pow2(52) as int, pow2(11) as int);
                lemma_mul_is_commutative(pow2(52) as int, pow2(sh as nat) as int);
                if mant > 0x10_0000_0000_0000u64 {
                    lemma_mul_strict_inequality(pow2(52) as int, mant as int, pow2(sh as nat) as int);
                }
                lemma_mul_unary_negation(mant as int, pow2(sh as nat) as int);
            }
            if !neg {
                return -1;
            }
            return if i == i64::MIN && mant == 0x10_0000_0000_0000u64 && sh == 11 {
                0
            } else {
                1
            };
        }
        let p = pow2_of(sh);
        proof {
            lemma_pow2_strictly_increases(sh as nat, 11);
            lemma_mul_strict_upper_bound(mant as int, 0x20_0000_0000_0000, p as int, pow2(11) as int);
            lemma_mul_unary_negation(mant as int, p as int);
        }
        let mag: i128 = (mant as i128) * p;
        let rhs: i128 = if neg {
            -mag
        } else {
            mag
        };
        cmp_i128(i as i128, rhs)
    } else {
        let k: u64 = if e == 0 {
            1074
        } else {
            1075 - e
        };
        assert(real_scale(bits) == -(k as int));
        if k >= 64 {
            proof {
                lemma_pow2_strictly_increases(53, k as nat);
                let pk = pow2(k as nat) as int;
                assert(mant < pow2(53));
                if i > 0 {
                    lemma_mul_inequality(1, i as int, pk);
                    lemma_mul_basics(pk);
                    assert(i * pk >= pk);
                } else if i < 0 {
                    lemma_mul_inequality(1, -i as int, pk);
                    lemma_mul_basics(pk);
                    lemma_mul_unary_negation(i as int, pk);
                    assert((-i) * pk >= pk);
                    assert(i * pk <= -pk);
                } else {
                    lemma_mul_basics(pk);
                }
            }
            return if i > 0 {
                1
            } else if i < 0 {
                -1
            } else if mant == 0 {
                0
            } else if neg {
                1
            } else {
                -1
            };
        }
        let p = pow2_of(k);
        proof {
            if k < 63 {
                lemma_pow2_strictly_increases(k as nat, 63);
            }
            lemma_mul_upper_bound(
                if i >= 0 { i as int } else { -i as int },
                0x8000_0000_0000_0000,
                p as int,
                pow2(63) as int,
            );
            assert(0x8000_0000_0000_0000int * 0x8000_0000_0000_0000int == 0x4000_0000_0000_0000_0000_0000_0000_0000int);
            lemma_mul_unary_negation(i as int, p as int);
            lemma_mul_nonnegative(if i >= 0 { i as int } else { -i as int }, p as int);
        }
        let lhs: i128 = (i as i128) * p;
        let rhs: i128 = if neg {
            -(mant as i128)
        } else {
            mant as i128
        };
        cmp_i128(lhs, rhs)
    }
}

fn rank_of(v: &Value) -> (r: u8)
    ensures
        r as int == rank(v@),
{
    match v {
        Value::Null => 0,
        Value::Integer(_) => 1,
        Value::Float(_) => 1,
        Value::Text(_) => 2,
        Value::Blob(_) => 3,
    }
}

fn real_order_key(b: u64) -> (r: u64)
    ensures
        r == real_key(b),
{
    if b & 0x7fff_ffff_ffff_ffffu64 == 0 {
        0x8000_0000_0000_0000u64
    } else if (b >> 63u64) == 1 {
        !b
    } else {
        b | 0x8000_0000_0000_0000u64
    }
}

/// Compares two values in the engine's total order: -1, 0 or 1.
pub fn compare_values(a: &Value, b: &Value) -> (r: i8)
    ensures
        r as int == value_cmp(a@, b@),
{
    let ra = rank_of(a);
    let rb = rank_of(b);
    if ra != rb {
        return if ra < rb {
            -1
        } else {
            1
        };
    }
    match (a, b) {
        (Value::Integer(x), Value::Integer(y)) => {
            if *x < *y {
                -1
            } else if *x == *y {
                0
            } else {
                1
            }
        },
        (Value::Integer(x), Value::Float(y)) => compare_int_real(*x, y.bits),
        (Value::Float(x), Value::Integer(y)) => -compare_int_real(*y, x.bits),
        (Value::Float(x), Value::Float(y)) => {
            let kx = real_order_key(x.bits);
            let ky = real_order_key(y.bits);
            if kx < ky {
                -1
            } else if kx == ky {
                0
            } else {
                1
            }
        },
        (Value::Text(x), Value::Text(y)) => compare_chars(x, y),
        (Value::Blob(x), Value::Blob(y)) => compare_bytes(x, y),
        _ => 0,
    }
}

proof fn lemma_chars_cmp_antisym(a: Seq<char>, b: Seq<char>, i: int)
    ensures
        chars_cmp_from(a, b, i) == -chars_cmp_from(b, a, i),
    decreases a.len() - i,
{
    if i >= a.len() || i >= b.len() || i < 0 {
    } else if a[i] != b[i] {
    } else {
        lemma_chars_cmp_antisym(a, b, i + 1);
    }
}

proof fn lemma_bytes_cmp_antisym(a: Seq<u8>, b: Seq<u8>, i: int)
    ensures
        bytes_cmp_from(a, b, i) == -bytes_cmp_from(b, a, i),
    decreases a.len() - i,
{
    if i >= a.len() || i >= b.len() || i < 0 {
    } else if a[i] != b[i] {
    } else {
        lemma_bytes_cmp_antisym(a, b, i + 1);
    }
}

/// The value order is antisymmetric: swapping the operands negates the
/// outcome, so two values compare equal in one order exactly when they do in
/// the other. Across storage classes the order is fixed: NULL below numbers,
/// numbers below TEXT, TEXT below BLOB.
pub proof fn lemma_value_order(a: ValueView, b: ValueView)
    ensures
        value_cmp(a, b) == -value_cmp(b, a),
        value_cmp(a, b) == 0 <==> value_cmp(b, a) == 0,
        -1 <= value_cmp(a, b) <= 1,
        rank(a) < rank(b) ==> value_cmp(a, b) == -1,
        a is Null && b is Null ==> value_cmp(a, b) == 0,
{
    match (a, b) {
        (ValueView::Text(x), ValueView::Text(y)) => {
            lemma_chars_cmp_antisym(x, y, 0);
            lemma_chars_cmp_range(x, y, 0);
        },
        (ValueView::Blob(x), ValueView::Blob(y)) => {
            lemma_bytes_cmp_antisym(x, y, 0);
            lemma_bytes_cmp_range(x, y, 0);
        },
        _ => {},
    }
}

proof fn lemma_chars_cmp_range(a: Seq<char>, b: Seq<char>, i: int)
    ensures
        -1 <= chars_cmp_from(a, b, i) <= 1,
    decreases a.len() - i,
{
    if i >= a.len() || i >= b.len() || i < 0 {
    } else if a[i] != b[i] {
    } else {
        lemma_chars_cmp_range(a, b, i + 1);
    }
}

proof fn lemma_bytes_cmp_range(a: Seq<u8>, b: Seq<u8>, i: int)
    ensures
        -1 <= bytes_cmp_from(a, b, i) <= 1,
    decreases a.len() - i,
{
    if i >= a.len() || i >= b.len() || i < 0 {
    } else if a[i] != b[i] {
    } else {
        lemma_bytes_cmp_range(a, b, i + 1);
    }
}

/// The decimal digit for `d` in `0..10`.
pub open spec fn digit_char(d: int) -> char {
    if d == 0 { '0' } else if d == 1 { '1' } else if d == 2 { '2' } else if d == 3 { '3' }
    else if d == 4 { '4' } else if d == 5 { '5' } else if d == 6 { '6' } else if d == 7 { '7' }
    else if d == 8 { '8' } else { '9' }
}

/// The decimal rendering of a natural number, without leading zeros.
pub open spec fn nat_text(n: nat) -> Seq<char>
    decreases n,
{
    if n < 10 {
        seq![digit_char(n as int)]
    } else {
        nat_text(n / 10).push(digit_char((n % 10) as int))
    }
}

/// The decimal rendering of an integer.
pub open spec fn int_text(i: int) -> Seq<char> {
    if i < 0 {
        seq!['-'] + nat_text((-i) as nat)
    } else {
        nat_text(i as nat)
    }
}

fn digit_of(d: u64) -> (c: char)
    requires
        d < 10,
    ensures
        c == digit_char(d as int),
{
    if d == 0 { '0' } else if d == 1 { '1' } else if d == 2 { '2' } else if d == 3 { '3' }
    else if d == 4 { '4' } else if d == 5 { '5' } else if d == 6 { '6' } else if d == 7 { '7' }
    else if d == 8 { '8' } else { '9' }
}

pub(crate) fn nat_digits(n: u64) -> (r: Vec<char>)
    ensures
        r@ == nat_text(n as nat),
    decreases n,
{
    if n < 10 {
        let mut r: Vec<char> = Vec::new();
        r.push(digit_of(n));
        assert(r@ =~= seq![digit_char(n as int)]);
        r
    } else {
        let mut r = nat_digits(n / 10);
        r.push(digit_of(n % 10));
        r
    }
}

/// The decimal rendering of an integer, as characters.
pub fn int_to_chars(i: i64) -> (r: Vec<char>)
    ensures
        r@ == int_text(i as int),
{
    if i < 0 {
        let mag: u64 = if i == i64::MIN {
            0x8000_0000_0000_0000u64
        } else {
            (-i) as u64
        };
        let digits = nat_digits(mag);
        let mut r: Vec<char> = Vec::new();
        r.push('-');
        let mut k: usize = 0;
        while k < digits.len()
            invariant
                k <= digits.len(),
                r@ == seq!['-'] + digits@.subrange(0, k as int),
            decreases digits.len() - k,
        {
            r.push(digits[k]);
            k = k + 1;
            assert(r@ =~= seq!['-'] + digits@.subrange(0, k as int));
        }
        assert(digits@.subrange(0, digits.len() as int) =~= digits@);
        r
    } else {
        nat_digits(i as u64)
    }
}

/// The text form of a value, as the string functions see it. A BLOB's bytes
/// are decoded as UTF-8 with invalid sequences replaced.
pub open spec fn text_form(v: ValueView) -> Seq<char> {
    match v {
        ValueView::Null => Seq::empty(),
        ValueView::Integer(i) => int_text(i as int),
        ValueView::Float(_, t) => t,
        ValueView::Text(t) => t,
        ValueView::Blob(b) => utf8_lossy(b),
    }
}

/// What `String::from_utf8_lossy` makes of a byte sequence.
pub uninterp spec fn utf8_lossy(b: Seq<u8>) -> Seq<char>;

/// Relies on `String::from_utf8_lossy`: decodes UTF-8, replacing each invalid
/// sequence with U+FFFD; the result depends on the bytes alone, and valid
/// UTF-8 is decoded as it is.
#[verifier::external_body]
fn decode_lossy(b: &Vec<u8>) -> (r: Vec<char>)
    ensures
        r@ == utf8_lossy(b@),
        vstd::utf8::valid_utf8(b@) ==> r@ == vstd::utf8::decode_utf8(b@),
{
    String::from_utf8_lossy(b).chars().collect()
}

/// The integer a REAL converts to: truncated toward zero and clamped to the
/// `i64` range; NaN gives 0.
pub open spec fn real_to_int(b: u64) -> i64 {
    if real_exp(b) == 0x7ff {
        if real_frac(b) != 0 {
            0
        } else if real_is_neg(b) {
            i64::MIN
        } else {
            i64::MAX
        }
    } else {
        let mag = if real_scale(b) >= 0 {
            real_mant(b) * pow2(real_scale(b) as nat)
        } else {
            real_mant(b) / (pow2((-real_scale(b)) as nat) as int)
        };
        let v = if real_is_neg(b) { -mag } else { mag };
        if v < i64::MIN { i64::MIN } else if v > i64::MAX { i64::MAX } else { v as i64 }
    }
}

/// Converts a REAL to an integer by truncation toward zero, clamping to the
/// `i64` range.
pub fn real_to_i64(bits: u64) -> (r: i64)
    ensures
        r == real_to_int(bits),
{
    let e: u64 = (bits >> 52u64) & 0x7ffu64;
    let frac: u64 = bits & 0xf_ffff_ffff_ffffu64;
    let neg: bool = (bits >> 63u64) == 1;
    proof {
        lemma_real_fields(bits);
        lemma2_to64();
        lemma2_to64_rest();
    }
    if e == 0x7ff {
        return if frac != 0 {
            0
        } else if neg {
            i64::MIN
        } else {
            i64::MAX
        };
    }
    let mant: u64 = if e == 0 {
        frac
    } else {
        frac + 0x10_0000_0000_0000u64
    };
    assert(mant as int == real_mant(bits));
    if e >= 1075 {
        let sh: u64 = e - 1075;
        if sh >= 11 {
            proof {
                lemma_pow2_adds(52, 11);
                if sh > 11 {
                    lemma_pow2_strictly_increases(11, sh as nat);
                    lemma_mul_strict_inequality(pow2(11) as int, pow2(sh as nat) as int, pow2(52) as int);
                }
                lemma_mul_inequality(pow2(52) as int, mant as int, pow2(sh as nat) as int);
                lemma_mul_is_commutative(pow2(52) as int, pow2(11) as int);
                lemma_mul_is_commutative(pow2(52) as int, pow2(sh as nat) as int);
            }
            return if neg {
                i64::MIN
            } else {
                i64::MAX
            };
        }
        let p = pow2_of(sh);
        proof {
            if sh < 10 {
                lemma_pow2_strictly_increases(sh as nat, 10);
            }
            lemma_mul_upper_bound(mant as int, 0x1f_ffff_ffff_ffff, p as int, pow2(10) as int);
        }
        let mag: i128 = (mant as i128) * p;
        assert(real_scale(bits) == sh as int);
        assert(mag < 0x8000_0000_0000_0000);
        assert(mag >= 0) by {
            lemma_mul_nonnegative(mant as int, p as int);
        }
        if neg {
            (-mag) as i64
        } else {
            mag as i64
        }
    } else {
        let k: u64 = if e == 0 {
            1074
        } else {
            1075 - e
        };
        if k >= 64 {
            proof {
                lemma_pow2_strictly_increases(53, k as nat);
                vstd::arithmetic::div_mod::lemma_basic_div(mant as int, pow2(k as nat) as int);
            }
            return 0;
        }
        let p = pow2_of(k);
        let q: i128 = (mant as i128) / p;
        proof {
            vstd::arithmetic::div_mod::lemma_div_is_ordered_by_denominator(mant as int, 1, p as int);
            vstd::arithmetic::div_mod::lemma_div_pos_is_pos(mant as int, p as int);
        }
        assert(real_scale(bits) == -(k as int));
        assert(mant as int / 1 == mant as int);
        assert(0 <= q <= mant);
        if neg {
            (-q) as i64
        } else {
            q as i64
        }
    }
}

impl Value {
    /// The text form of this value (see [`text_form`]).
    pub fn to_text(&self) -> (r: Vec<char>)
        ensures
            r@ == text_form(self@),
    {
        match self {
            Value::Null => Vec::new(),
            Value::Integer(i) => int_to_chars(*i),
            Value::Float(x) => copy_chars(&x.text),
            Value::Text(t) => copy_chars(t),
            Value::Blob(b) => decode_lossy(b),
        }
    }
}

impl Value {
    /// A TEXT value holding the characters of `s`.
    pub fn build_text(s: &str) -> (r: Value)
        ensures
            r@ == ValueView::Text(s@),
    {
        Value::Text(chars_of(s))
    }

    /// A copy of this value with the same view.
    pub fn duplicate(&self) -> (r: Value)
        ensures
            r@ == self@,
    {
        match self {
            Value::Null => Value::Null,
            Value::Integer(i) => Value::Integer(*i),
            Value::Float(x) => Value::Float(Real { bits: x.bits, text: copy_chars(&x.text) }),
            Value::Text(t) => Value::Text(copy_chars(t)),
            Value::Blob(b) => Value::Blob(copy_bytes(b)),
        }
    }
}

} // verus!
