//! Conversions between storage classes, and the functions built on them.
use crate::functions::{is_ws_exec, ws_lead};
use crate::text::{chars_to_string, utf8_encode};
use crate::soundex::to_lower_ascii;
use crate::value::{
    Value, ValueView, int_text, int_to_chars, real_is_nan, real_is_neg, real_to_i64, real_to_int,
    text_form,
};
use crate::vm::real_is_zero;
use vstd::utf8::{decode_utf8, valid_utf8};
use vstd::prelude::*;

verus! {

/// The type affinity a CAST converts to.
#[derive(Debug, Clone, Copy, PartialEq, Eq, Structural)]
pub enum Affinity {
    Integer,
    Text,
    Blob,
    Real,
    Numeric,
}

pub open spec fn is_digit(c: char) -> bool {
    '0' <= c && c <= '9'
}

/// The end of the run of digits starting at `i`.
pub open spec fn digits_end(t: Seq<char>, i: int) -> int
    decreases t.len() - i,
{
    if i < 0 || i >= t.len() || !is_digit(t[i]) { i } else { digits_end(t, i + 1) }
}

/// The number written by the digits `t[s..e]`.
pub open spec fn digits_value(t: Seq<char>, s: int, e: int) -> int
    decreases e - s,
{
    if e <= s {
        0
    } else {
        digits_value(t, s, e - 1) * 10 + (t[e - 1] as u32 - 48)
    }
}

pub open spec fn clamp_i64(v: int) -> i64 {
    if v < i64::MIN { i64::MIN } else if v > i64::MAX { i64::MAX } else { v as i64 }
}

/// Where the digits of a leading integer start: after leading whitespace
/// and an optional sign.
pub open spec fn sign_end(t: Seq<char>) -> int {
    let i = ws_lead(t, 0);
    if i < t.len() && (t[i] == '-' || t[i] == '+') { i + 1 } else { i }
}

pub open spec fn lead_neg(t: Seq<char>) -> bool {
    let i = ws_lead(t, 0);
    i < t.len() && t[i] == '-'
}

/// The signed value of the leading integer of a text (0 when there is none).
pub open spec fn lead_value(t: Seq<char>) -> int {
    let v = digits_value(t, sign_end(t), digits_end(t, sign_end(t)));
    if lead_neg(t) { -v } else { v }
}

/// The integer a text casts to: its leading integer, clamped to the `i64`
/// range.
pub open spec fn text_to_int(t: Seq<char>) -> i64 {
    clamp_i64(lead_value(t))
}

const CAP: u128 = 0x8000_0000_0000_0001;

proof fn lemma_digits_nonneg(t: Seq<char>, s: int, e: int)
    requires
        forall|k: int| s <= k < e ==> is_digit(#[trigger] t[k]),
    ensures
        digits_value(t, s, e) >= 0,
    decreases e - s,
{
    if e > s {
        lemma_digits_nonneg(t, s, e - 1);
    }
}

proof fn lemma_cap_step(x: int, d: int)
    requires
        x >= 0,
        0 <= d <= 9,
    ensures
        (if x < CAP { x } else { CAP as int }) * 10 + d >= CAP ==> x * 10 + d >= CAP,
        (if x < CAP { x } else { CAP as int }) * 10 + d < CAP ==> (if x < CAP { x } else { CAP as int }) * 10 + d == x * 10 + d,
{
}

/// Reads digits from `s` up to the end of the run, saturating at `CAP`.
fn read_digits(t: &Vec<char>, s: usize) -> (r: (usize, u128))
    requires
        s <= t@.len(),
    ensures
        s <= r.0 <= t@.len(),
        digits_value(t@, s as int, r.0 as int) >= 0,
        r.0 == digits_end(t@, s as int),
        r.1 == if digits_value(t@, s as int, r.0 as int) < CAP { digits_value(t@, s as int, r.0 as int) } else { CAP as int },
{
    let mut k: usize = s;
    let mut acc: u128 = 0;
    while k < t.len() && '0' <= t[k] && t[k] <= '9'
        invariant
            s <= k <= t@.len(),
            digits_end(t@, s as int) == digits_end(t@, k as int),
            forall|j: int| s <= j < k ==> is_digit(#[trigger] t@[j]),
            acc == if digits_value(t@, s as int, k as int) < CAP { digits_value(t@, s as int, k as int) } else { CAP as int },
        decreases t.len() - k,
    {
        let d = (t[k] as u32 - 48) as u128;
        proof {
            lemma_digits_nonneg(t@, s as int, k as int);
            lemma_cap_step(digits_value(t@, s as int, k as int), d as int);
        }
        let next = acc * 10 + d;
        acc = if next < CAP { next } else { CAP };
        k = k + 1;
    }
    proof {
        lemma_digits_nonneg(t@, s as int, k as int);
    }
    (k, acc)
}

fn ws_lead_exec(t: &Vec<char>) -> (r: usize)
    ensures
        r == ws_lead(t@, 0),
        r <= t@.len(),
{
    let mut i: usize = 0;
    while i < t.len() && is_ws_exec(t[i])
        invariant
            i <= t@.len(),
            ws_lead(t@, 0) == ws_lead(t@, i as int),
        decreases t.len() - i,
    {
        i = i + 1;
    }
    i
}

/// The integer a text casts to.
pub fn cast_text_to_integer(t: &Vec<char>) -> (r: i64)
    ensures
        r == text_to_int(t@),
{
    let i = ws_lead_exec(t);
    let neg = i < t.len() && t[i] == '-';
    let s = if i < t.len() && (t[i] == '-' || t[i] == '+') { i + 1 } else { i };
    let (_e, acc) = read_digits(t, s);
    if neg {
        if acc >= 0x8000_0000_0000_0000u128 { i64::MIN } else { -(acc as i64) }
    } else {
        if acc >= 0x8000_0000_0000_0000u128 { i64::MAX } else { acc as i64 }
    }
}

/// Rust's `i64::from_str`: an optional sign, then one or more digits and
/// nothing else, in range.
pub open spec fn parse_i64(t: Seq<char>) -> Option<i64> {
    let s = if t.len() > 0 && (t[0] == '-' || t[0] == '+') { 1int } else { 0int };
    let v = digits_value(t, s, t.len() as int);
    let sv = if t.len() > 0 && t[0] == '-' { -v } else { v };
    if s >= t.len() || digits_end(t, s) != t.len() || sv < i64::MIN || sv > i64::MAX {
        None
    } else {
        Some(sv as i64)
    }
}

/// Parses a whole text as an `i64`, as `str::parse::<i64>` does.
pub fn parse_i64_exec(t: &Vec<char>) -> (r: Option<i64>)
    ensures
        r == parse_i64(t@),
{
    let s: usize = if t.len() > 0 && (t[0] == '-' || t[0] == '+') { 1 } else { 0 };
    if s >= t.len() {
        return None;
    }
    let (e, acc) = read_digits(t, s);
    if e != t.len() {
        return None;
    }
    if t[0] == '-' {
        if acc > 0x8000_0000_0000_0000u128 { None } else if acc == 0x8000_0000_0000_0000u128 { Some(i64::MIN) } else { Some(-(acc as i64)) }
    } else {
        if acc >= 0x8000_0000_0000_0000u128 { None } else { Some(acc as i64) }
    }
}

/// Whether a numeric text needs a REAL: its leading number goes on with a
/// decimal point or an exponent, or does not fit an INTEGER.
pub open spec fn needs_real(t: Seq<char>) -> bool {
    let e = digits_end(t, sign_end(t));
    (e < t.len() && (t[e] == '.' || t[e] == 'e' || t[e] == 'E'))
        || lead_value(t) < i64::MIN || lead_value(t) > i64::MAX
}

/// Whether a text's leading number needs a REAL (see [`needs_real`]).
pub fn needs_real_exec(t: &Vec<char>) -> (r: bool)
    ensures
        r == needs_real(t@),
{
    let i = ws_lead_exec(t);
    let s = if i < t.len() && (t[i] == '-' || t[i] == '+') { i + 1 } else { i };
    let (e, acc) = read_digits(t, s);
    let neg = i < t.len() && t[i] == '-';
    let out_of_range = if neg { acc > 0x8000_0000_0000_0000u128 } else { acc > 0x7fff_ffff_ffff_ffffu128 };
    (e < t.len() && (t[e] == '.' || t[e] == 'e' || t[e] == 'E')) || out_of_range
}

/// What CAST makes of a value; `None` where the result is a REAL that the
/// engine leaves to the host.
pub open spec fn cast_spec(v: ValueView, a: Affinity) -> Option<ValueView> {
    match v {
        ValueView::Null => Some(ValueView::Null),
        _ => match a {
            Affinity::Blob => Some(ValueView::Blob(vstd::utf8::encode_utf8(text_form(v)))),
            Affinity::Text => Some(ValueView::Text(text_form(v))),
            Affinity::Real => if v is Float { Some(v) } else { None },
            Affinity::Integer => match v {
                ValueView::Integer(_) => Some(v),
                ValueView::Float(b, _) => Some(ValueView::Integer(real_to_int(b))),
                _ => Some(ValueView::Integer(text_to_int(text_form(v)))),
            },
            Affinity::Numeric => match v {
                ValueView::Integer(_) => Some(v),
                ValueView::Float(_, _) => Some(v),
                _ => if needs_real(text_form(v)) {
                    None
                } else {
                    Some(ValueView::Integer(text_to_int(text_form(v))))
                },
            },
        },
    }
}

/// CAST of a value to an affinity. NULL stays NULL; TEXT gives the text
/// form; BLOB its UTF-8 bytes; INTEGER truncates REALs toward zero (clamped)
/// and reads the leading integer of text. `None` when the result is a REAL
/// the engine does not compute (a cast to REAL of a non-REAL, or a NUMERIC
/// cast of text that reads as a real number): the host's numeric library
/// produces it.
pub fn exec_cast(value: &Value, datatype: Affinity) -> (r: Option<Value>)
    ensures
        match r {
            Some(x) => cast_spec(value@, datatype) == Some(x@),
            None => cast_spec(value@, datatype) is None,
        },
{
    if matches!(value, Value::Null) {
        return Some(Value::Null);
    }
    match datatype {
        Affinity::Blob => Some(Value::Blob(utf8_encode(&value.to_text()))),
        Affinity::Text => Some(Value::Text(value.to_text())),
        Affinity::Real => match value {
            Value::Float(_) => Some(value.duplicate()),
            _ => None,
        },
        Affinity::Integer => match value {
            Value::Integer(i) => Some(Value::Integer(*i)),
            Value::Float(f) => Some(Value::Integer(real_to_i64(f.bits))),
            _ => Some(Value::Integer(cast_text_to_integer(&value.to_text()))),
        },
        Affinity::Numeric => match value {
            Value::Integer(_) | Value::Float(_) => Some(value.duplicate()),
            _ => {
                let t = value.to_text();
                if needs_real_exec(&t) {
                    None
                } else {
                    Some(Value::Integer(cast_text_to_integer(&t)))
                }
            },
        },
    }
}

/// Every occurrence of `p` in `s`, scanning from the left without overlap,
/// replaced by `r`. An empty `p` leaves `s` as it is.
pub open spec fn replace_all(s: Seq<char>, p: Seq<char>, r: Seq<char>) -> Seq<char>
    decreases s.len(),
{
    if p.len() == 0 || s.len() < p.len() {
        s
    } else if s.subrange(0, p.len() as int) == p {
        r + replace_all(s.subrange(p.len() as int, s.len() as int), p, r)
    } else {
        seq![s[0]] + replace_all(s.subrange(1, s.len() as int), p, r)
    }
}

fn replace_exec(s: &Vec<char>, p: &Vec<char>, r: &Vec<char>) -> (out: Vec<char>)
    ensures
        out@ == replace_all(s@, p@, r@),
{
    if p.len() == 0 {
        return crate::value::copy_chars(s);
    }
    let mut out: Vec<char> = Vec::new();
    let mut i: usize = 0;
    let n = s.len();
    assert(s@.subrange(0, n as int) =~= s@);
    while i < n && n - i >= p.len()
        invariant
            n == s@.len(),
            i <= n,
            p@.len() > 0,
            out@ + replace_all(s@.subrange(i as int, n as int), p@, r@) == replace_all(s@, p@, r@),
        decreases n - i,
    {
        let ghost rest = s@.subrange(i as int, n as int);
        let hit = find_at(s, p, i);
        assert(rest.subrange(0, p@.len() as int) =~= s@.subrange(i as int, i + p@.len()));
        if hit {
            assert(rest.subrange(p@.len() as int, rest.len() as int) =~= s@.subrange(i + p@.len(), n as int));
            crate::interp::append_chars(&mut out, r);
            i = i + p.len();
        } else {
            assert(rest.subrange(1, rest.len() as int) =~= s@.subrange(i + 1, n as int));
            out.push(s[i]);
            i = i + 1;
        }
    }
    let ghost rest = s@.subrange(i as int, n as int);
    assert(replace_all(rest, p@, r@) == rest);
    let mut k = i;
    while k < n
        invariant
            n == s@.len(),
            i <= k <= n,
            out@ + s@.subrange(k as int, n as int) == replace_all(s@, p@, r@),
        decreases n - k,
    {
        assert(s@.subrange(k as int, n as int) =~= seq![s@[k as int]] + s@.subrange(k + 1, n as int));
        out.push(s[k]);
        k = k + 1;
    }
    assert(s@.subrange(n as int, n as int) =~= Seq::<char>::empty());
    assert(out@ =~= out@ + s@.subrange(n as int, n as int));
    out
}

fn find_at(s: &Vec<char>, p: &Vec<char>, i: usize) -> (r: bool)
    requires
        i + p@.len() <= s@.len(),
    ensures
        r == (s@.subrange(i as int, i + p@.len()) == p@),
{
    let mut k: usize = 0;
    let n = s.len();
    while k < p.len()
        invariant
            n == s@.len(),
            i + p@.len() <= n,
            k <= p@.len(),
            forall|j: int| 0 <= j < k ==> s@[i + j] == p@[j],
        decreases p.len() - k,
    {
        if s[i + k] != p[k] {
            assert(s@.subrange(i as int, i + p@.len())[k as int] != p@[k as int]);
            return false;
        }
        k = k + 1;
    }
    assert(s@.subrange(i as int, i + p@.len()) =~= p@);
    true
}

/// REPLACE(source, pattern, replacement): NULL if any argument is NULL;
/// else every occurrence of the pattern's text form in the source's text
/// form is replaced by the replacement's text form. An empty pattern leaves
/// the source text unchanged.
pub fn exec_replace(source: &Value, pattern: &Value, replacement: &Value) -> (r: Value)
    ensures
        r@ == if source@ is Null || pattern@ is Null || replacement@ is Null {
            ValueView::Null
        } else {
            ValueView::Text(replace_all(text_form(source@), text_form(pattern@), text_form(replacement@)))
        },
        !(source@ is Null || pattern@ is Null || replacement@ is Null) && text_form(pattern@).len() == 0
            ==> r@ == ValueView::Text(text_form(source@)),
{
    if matches!(source, Value::Null) || matches!(pattern, Value::Null) || matches!(replacement, Value::Null) {
        return Value::Null;
    }
    Value::Text(replace_exec(&source.to_text(), &pattern.to_text(), &replacement.to_text()))
}


/// Whether `t[s..]` is `word`, ignoring ASCII case.
pub open spec fn word_at(t: Seq<char>, s: int, word: Seq<char>) -> bool {
    t.len() - s == word.len() && forall|k: int| 0 <= k < word.len() ==> to_lower_ascii(#[trigger] t[s + k]) == word[k]
}

/// A decimal number from position `j` to the end: digits with an optional
/// fraction (at least one digit in all), then an optional exponent.
pub open spec fn decimal_from(t: Seq<char>, j: int) -> bool {
    let a = digits_end(t, j);
    let has_dot = a < t.len() && t[a] == '.';
    let b = if has_dot { digits_end(t, a + 1) } else { a };
    let c0 = b + 1;
    let c = if c0 < t.len() && (t[c0] == '+' || t[c0] == '-') { c0 + 1 } else { c0 };
    (a > j || (has_dot && b > a + 1)) && (b == t.len() || ((t[b] == 'e' || t[b] == 'E') && digits_end(t, c) > c
        && digits_end(t, c) == t.len()))
}

/// Whether a text is a real-number literal as `str::parse::<f64>` reads it:
/// an optional sign, then `inf`, `infinity`, `nan` (any case) or a decimal
/// number.
pub open spec fn is_real_literal(t: Seq<char>) -> bool {
    let j = if t.len() > 0 && (t[0] == '-' || t[0] == '+') { 1int } else { 0int };
    word_at(t, j, seq!['i', 'n', 'f']) || word_at(t, j, seq!['i', 'n', 'f', 'i', 'n', 'i', 't', 'y'])
        || word_at(t, j, seq!['n', 'a', 'n']) || decimal_from(t, j)
}

fn word_at_exec(t: &Vec<char>, s: usize, word: &str) -> (r: bool)
    requires
        s <= t@.len(),
    ensures
        r == word_at(t@, s as int, word@),
{
    let w = crate::value::chars_of(word);
    let n = t.len();
    if t.len() - s != w.len() {
        return false;
    }
    let mut k: usize = 0;
    while k < w.len()
        invariant
            n == t@.len(),
            s <= t@.len(),
            t@.len() - s == w@.len(),
            w@ == word@,
            k <= w@.len(),
            forall|i: int| 0 <= i < k ==> to_lower_ascii(#[trigger] t@[s + i]) == w@[i],
        decreases w.len() - k,
    {
        let c = t[s + k];
        let lc = if 'A' <= c && c <= 'Z' { ((c as u8) + 32u8) as char } else { c };
        if lc != w[k] {
            assert(to_lower_ascii(t@[s + k]) != w@[k as int]);
            return false;
        }
        k = k + 1;
    }
    true
}

fn is_real_literal_exec(t: &Vec<char>) -> (r: bool)
    ensures
        r == is_real_literal(t@),
{
    let j: usize = if t.len() > 0 && (t[0] == '-' || t[0] == '+') { 1 } else { 0 };
    if j > t.len() {
        return false;
    }
    let inf = word_at_exec(t, j, "inf");
    let infinity = word_at_exec(t, j, "infinity");
    let nan = word_at_exec(t, j, "nan");
    proof {
        reveal_strlit("inf");
        reveal_strlit("infinity");
        reveal_strlit("nan");
        assert("inf"@ =~= seq!['i', 'n', 'f']);
        assert("infinity"@ =~= seq!['i', 'n', 'f', 'i', 'n', 'i', 't', 'y']);
        assert("nan"@ =~= seq!['n', 'a', 'n']);
    }
    if inf || infinity || nan {
        return true;
    }
    let (a, _) = read_digits(t, j);
    let has_dot = a < t.len() && t[a] == '.';
    let b = if has_dot { read_digits(t, a + 1).0 } else { a };
    if !(a > j || (has_dot && b > a + 1)) {
        return false;
    }
    if b == t.len() {
        return true;
    }
    if !(t[b] == 'e' || t[b] == 'E') {
        return false;
    }
    let c0 = b + 1;
    let c = if c0 < t.len() && (t[c0] == '+' || t[c0] == '-') { c0 + 1 } else { c0 };
    let (d, _) = read_digits(t, c);
    d > c && d == t.len()
}

/// Relies on `std::str::from_utf8`: the characters of valid UTF-8, `None`
/// for anything else.
#[verifier::external_body]
fn utf8_decode(b: &Vec<u8>) -> (r: Option<Vec<char>>)
    ensures
        match r {
            Some(v) => valid_utf8(b@) && v@ == decode_utf8(b@),
            None => !valid_utf8(b@),
        },
{
    std::str::from_utf8(b).ok().map(|s| s.chars().collect())
}

pub open spec fn sign_int(x: int) -> i64 {
    if x > 0 { 1i64 } else if x < 0 { -1i64 } else { 0i64 }
}

/// The sign of a text: from its integer when it is one, `None` when it is a
/// real-number literal, NULL otherwise.
pub open spec fn text_sign(t: Seq<char>) -> Option<ValueView> {
    match parse_i64(t) {
        Some(i) => Some(ValueView::Integer(sign_int(i as int))),
        None => if is_real_literal(t) { None } else { Some(ValueView::Null) },
    }
}

pub open spec fn sign_spec(v: ValueView) -> Option<ValueView> {
    match v {
        ValueView::Integer(i) => Some(ValueView::Integer(sign_int(i as int))),
        ValueView::Float(b, _) => Some(ValueView::Integer(
            if real_is_nan(b) || real_is_zero(b) { 0i64 } else if real_is_neg(b) { -1i64 } else { 1i64 },
        )),
        ValueView::Text(t) => text_sign(t),
        ValueView::Blob(b) => if valid_utf8(b) { text_sign(decode_utf8(b)) } else { Some(ValueView::Null) },
        ValueView::Null => Some(ValueView::Null),
    }
}

fn text_sign_exec(t: &Vec<char>) -> (r: Option<Value>)
    ensures
        match r {
            Some(x) => text_sign(t@) == Some(x@),
            None => text_sign(t@) is None,
        },
{
    match parse_i64_exec(t) {
        Some(i) => Some(Value::Integer(if i > 0 { 1 } else if i < 0 { -1 } else { 0 })),
        None => if is_real_literal_exec(t) { None } else { Some(Value::Null) },
    }
}

/// The sign of a number: -1, 0 or 1. TEXT (and BLOB holding UTF-8) is read
/// as an integer; text that is not a number, and NULL, give NULL. `None`
/// when the text is a real-number literal, whose sign the host's numeric
/// library decides.
pub fn exec_sign(reg: &Value) -> (r: Option<Value>)
    ensures
        match r {
            Some(x) => sign_spec(reg@) == Some(x@),
            None => sign_spec(reg@) is None,
        },
{
    match reg {
        Value::Integer(i) => Some(Value::Integer(if *i > 0 { 1 } else if *i < 0 { -1 } else { 0 })),
        Value::Float(f) => {
            let b = f.bits;
            let nan = (b >> 52u64) & 0x7ffu64 == 0x7ff && b & 0xf_ffff_ffff_ffffu64 != 0;
            let zero = b & 0x7fff_ffff_ffff_ffffu64 == 0;
            Some(Value::Integer(if nan || zero { 0 } else if (b >> 63u64) == 1 { -1 } else { 1 }))
        },
        Value::Text(t) => text_sign_exec(t),
        Value::Blob(b) => match utf8_decode(b) {
            Some(t) => text_sign_exec(&t),
            None => Some(Value::Null),
        },
        Value::Null => Some(Value::Null),
    }
}

/// The length a ZEROBLOB or RANDOMBLOB argument asks for, before bounds:
/// an INTEGER, a REAL truncated, a TEXT read as an integer (`dflt` if it is
/// not one), else `dflt`.
pub open spec fn blob_len_arg(v: ValueView, dflt: i64) -> i64 {
    match v {
        ValueView::Integer(i) => i,
        ValueView::Float(b, _) => real_to_int(b),
        ValueView::Text(t) => match parse_i64(t) {
            Some(i) => i,
            None => dflt,
        },
        _ => dflt,
    }
}

fn blob_len_arg_exec(v: &Value, dflt: i64) -> (r: i64)
    ensures
        r == blob_len_arg(v@, dflt),
{
    match v {
        Value::Integer(i) => *i,
        Value::Float(f) => real_to_i64(f.bits),
        Value::Text(t) => match parse_i64_exec(t) {
            Some(i) => i,
            None => dflt,
        },
        _ => dflt,
    }
}

/// What ZEROBLOB returns.
pub open spec fn zeroblob_value(v: ValueView) -> ValueView {
    ValueView::Blob(Seq::new(
        (if blob_len_arg(v, 0) < 0 { 0 } else { blob_len_arg(v, 0) }) as nat,
        |i: int| 0u8,
    ))
}

/// A BLOB of as many zero bytes as the argument asks for (none if it asks
/// for a negative number).
pub fn exec_zeroblob(req: &Value) -> (r: Value)
    ensures
        r@ == zeroblob_value(req@),
{
    let n = blob_len_arg_exec(req, 0);
    let n: u64 = if n < 0 { 0 } else { n as u64 };
    let mut v: Vec<u8> = Vec::new();
    let mut k: u64 = 0;
    while k < n
        invariant
            k <= n,
            v@ =~= Seq::new(k as nat, |i: int| 0u8),
        decreases n - k,
    {
        v.push(0);
        k = k + 1;
    }
    Value::Blob(v)
}

/// Division rounding toward zero, by a positive divisor.
pub open spec fn tdiv(a: int, b: int) -> int {
    if a >= 0 { a / b } else { -((-a) / b) }
}

/// The remainder that goes with [`tdiv`]: it has the sign of `a`.
pub open spec fn trem(a: int, b: int) -> int {
    a - b * tdiv(a, b)
}

fn tdivrem(a: i64, b: i64) -> (r: (i64, i64))
    requires
        b > 0,
    ensures
        r.0 == tdiv(a as int, b as int),
        r.1 == trem(a as int, b as int),
{
    let m: u64 = if a == i64::MIN { 0x8000_0000_0000_0000u64 } else if a < 0 { (-a) as u64 } else { a as u64 };
    let q: u64 = m / (b as u64);
    let rm: u64 = m % (b as u64);
    proof {
        vstd::arithmetic::div_mod::lemma_fundamental_div_mod(m as int, b as int);
        vstd::arithmetic::div_mod::lemma_div_is_ordered_by_denominator(m as int, 1, b as int);
        assert(m as int / 1 == m as int);
        vstd::arithmetic::mul::lemma_mul_unary_negation(b as int, m as int / b as int);
    }
    if a < 0 {
        (-(q as i128) as i64, -(rm as i128) as i64)
    } else {
        (q as i64, rm as i64)
    }
}

/// The dotted version `major.minor.release` of a version number such as
/// 3046001 (rounding toward zero, so negative parts keep their minus sign).
pub fn execute_sqlite_version(version_integer: i64) -> (r: String)
    ensures
        r@ == int_text(tdiv(version_integer as int, 1_000_000)) + seq!['.']
            + int_text(tdiv(trem(version_integer as int, 1_000_000), 1000)) + seq!['.']
            + int_text(trem(version_integer as int, 1000)),
{
    let (major, rest) = tdivrem(version_integer, 1_000_000);
    let (minor, _) = tdivrem(rest, 1000);
    let (_, release) = tdivrem(version_integer, 1000);
    let mut out = int_to_chars(major);
    out.push('.');
    crate::interp::append_chars(&mut out, &int_to_chars(minor));
    out.push('.');
    crate::interp::append_chars(&mut out, &int_to_chars(release));
    chars_to_string(&out)
}

/// Relies on `getrandom::getrandom`: fills `n` bytes from the operating
/// system's source of randomness, `None` if it fails.
#[verifier::external_body]
fn random_bytes(n: usize) -> (r: Option<Vec<u8>>)
    ensures
        match r {
            Some(v) => v@.len() == n,
            None => true,
        },
{
    let mut v = vec![0u8; n];
    getrandom::getrandom(&mut v).ok().map(|_| v)
}

/// A random INTEGER; `None` if the system gives no randomness.
pub fn exec_random() -> (r: Option<Value>)
    ensures
        match r {
            Some(v) => v@ is Integer,
            None => true,
        },
{
    match random_bytes(8) {
        Some(b) => {
            let mut acc: u64 = 0;
            let mut i: usize = 0;
            while i < 8
                invariant
                    b@.len() == 8,
                    i <= 8,
                decreases 8 - i,
            {
                acc = (acc << 8u64) | (b[i] as u64);
                i = i + 1;
            }
            Some(Value::Integer(acc as i64))
        },
        None => None,
    }
}

/// A BLOB of random bytes, as many as the argument asks for and at least
/// one; `None` if the system gives no randomness, or if that many bytes do
/// not fit in memory addresses (more than `usize::MAX`).
pub fn exec_randomblob(reg: &Value) -> (r: Option<Value>)
    ensures
        match r {
            Some(v) => v@ is Blob && v@->Blob_0.len() == (if blob_len_arg(reg@, 1) < 1 { 1 } else { blob_len_arg(reg@, 1) }),
            None => true,
        },
{
    let n = blob_len_arg_exec(reg, 1);
    let n: u64 = if n < 1 { 1 } else { n as u64 };
    if n > usize::MAX as u64 {
        return None;
    }
    match random_bytes(n as usize) {
        Some(b) => Some(Value::Blob(b)),
        None => None,
    }
}

/// Relies on `rand::rngs::StdRng::from_rng(OsRng)` and
/// `rand::distributions::Uniform::new_inclusive(lo, hi)`: `None` when the
/// operating system gives no seed, else a value in `lo..=hi` (which
/// `new_inclusive` needs non-empty).
#[verifier::external_body]
fn random_in(lo: i64, hi: i64) -> (r: Option<i64>)
    requires
        lo <= hi,
    ensures
        match r {
            Some(x) => lo <= x <= hi,
            None => true,
        },
{
    match <rand::rngs::StdRng as rand::SeedableRng>::from_rng(rand::rngs::OsRng) {
        Ok(mut rng) => Some(rand::distributions::Distribution::sample(
            &rand::distributions::Uniform::new_inclusive(lo, hi),
            &mut rng,
        )),
        Err(_) => None,
    }
}

/// A random positive rowid; `None` if the system gives no randomness.
pub fn random_rowid() -> (r: Option<i64>)
    ensures
        match r {
            Some(x) => 1 <= x,
            None => true,
        },
{
    random_in(1, i64::MAX)
}

/// The rowid after the largest one in a table (`None` for an empty table):
/// one past it, or `None` when that would overflow and a free rowid must be
/// searched for at random (see `Insn::NewRowid`).
pub fn next_rowid(last: Option<i64>) -> (r: Option<i64>)
    ensures
        match last {
            None => r == Some(1i64),
            Some(l) => if l < i64::MAX { r == Some((l + 1) as i64) } else { r is None },
        },
{
    match last {
        None => Some(1),
        Some(l) => if l < i64::MAX { Some(l + 1) } else { None },
    }
}

} // verus!
