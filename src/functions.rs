//! Scalar SQL functions on values.
use crate::hexcodec::{decode, encode_upper, hex_decoded, hex_upper};
use crate::state::Register;
use crate::text::{
    find_bytes, find_chars, find_from, lower_of, lowercase, upper_of, uppercase, utf8_encode,
    utf8_len,
};
use crate::value::{
    Real, Value, ValueView, chars_of, copy_chars, real_is_nan, real_is_neg, text_form, value_cmp,
};
use crate::vm::{VmError, real_is_zero};
use vstd::prelude::*;

verus! {

/// The characters of a string literal.
fn lit(s: &str) -> (r: Vec<char>)
    ensures
        r@ == s@,
{
    chars_of(s)
}

pub open spec fn typeof_name(v: ValueView) -> Seq<char> {
    match v {
        ValueView::Null => seq!['n', 'u', 'l', 'l'],
        ValueView::Integer(_) => seq!['i', 'n', 't', 'e', 'g', 'e', 'r'],
        ValueView::Float(_, _) => seq!['r', 'e', 'a', 'l'],
        ValueView::Text(_) => seq!['t', 'e', 'x', 't'],
        ValueView::Blob(_) => seq!['b', 'l', 'o', 'b'],
    }
}

/// The name of the value's storage class.
pub fn exec_typeof(reg: &Value) -> (r: Value)
    ensures
        r@ == ValueView::Text(typeof_name(reg@)),
{
    let t = match reg {
        Value::Null => {
            let t = lit("null");
            proof { reveal_strlit("null"); }
            t
        },
        Value::Integer(_) => {
            let t = lit("integer");
            proof { reveal_strlit("integer"); }
            t
        },
        Value::Float(_) => {
            let t = lit("real");
            proof { reveal_strlit("real"); }
            t
        },
        Value::Text(_) => {
            let t = lit("text");
            proof { reveal_strlit("text"); }
            t
        },
        Value::Blob(_) => {
            let t = lit("blob");
            proof { reveal_strlit("blob"); }
            t
        },
    };
    assert(t@ =~= typeof_name(reg@));
    Value::Text(t)
}

fn chars_eq(a: &Vec<char>, b: &Vec<char>) -> (r: bool)
    ensures
        r == (a@ == b@),
{
    if a.len() != b.len() {
        return false;
    }
    let mut i: usize = 0;
    while i < a.len()
        invariant
            a@.len() == b@.len(),
            i <= a@.len(),
            forall|j: int| 0 <= j < i ==> a@[j] == b@[j],
        decreases a.len() - i,
    {
        if a[i] != b[i] {
            return false;
        }
        i = i + 1;
    }
    assert(a@ =~= b@);
    true
}

fn bytes_eq(a: &Vec<u8>, b: &Vec<u8>) -> (r: bool)
    ensures
        r == (a@ == b@),
{
    if a.len() != b.len() {
        return false;
    }
    let mut i: usize = 0;
    while i < a.len()
        invariant
            a@.len() == b@.len(),
            i <= a@.len(),
            forall|j: int| 0 <= j < i ==> a@[j] == b@[j],
        decreases a.len() - i,
    {
        if a[i] != b[i] {
            return false;
        }
        i = i + 1;
    }
    assert(a@ =~= b@);
    true
}

/// Whether two values are the same value.
pub fn values_equal(a: &Value, b: &Value) -> (r: bool)
    ensures
        r == (a@ == b@),
{
    match (a, b) {
        (Value::Null, Value::Null) => true,
        (Value::Integer(x), Value::Integer(y)) => *x == *y,
        (Value::Float(x), Value::Float(y)) => x.bits == y.bits && chars_eq(&x.text, &y.text),
        (Value::Text(x), Value::Text(y)) => chars_eq(x, y),
        (Value::Blob(x), Value::Blob(y)) => bytes_eq(x, y),
        _ => false,
    }
}

/// What NULLIF returns.
pub open spec fn nullif_value(v0: ValueView, v1: ValueView) -> ValueView {
    if v0 == v1 { ValueView::Null } else { v0 }
}

/// NULL when the two values are equal, else the first.
pub fn exec_nullif(first_value: &Value, second_value: &Value) -> (r: Value)
    ensures
        r@ == nullif_value(first_value@, second_value@),
{
    if values_equal(first_value, second_value) {
        Value::Null
    } else {
        first_value.duplicate()
    }
}

/// What LENGTH returns.
pub open spec fn length_value(v0: ValueView) -> ValueView {
    match v0 {
        ValueView::Null => ValueView::Null,
        ValueView::Blob(b) => ValueView::Integer(b.len() as i64),
        v => ValueView::Integer(text_form(v).len() as i64),
    }
}

/// The number of characters of a value's text form (of bytes, for a BLOB);
/// NULL stays NULL.
pub fn exec_length(reg: &Value) -> (r: Value)
    ensures
        r@ == length_value(reg@),
{
    match reg {
        Value::Null => Value::Null,
        Value::Blob(b) => Value::Integer(b.len() as i64),
        _ => Value::Integer(reg.to_text().len() as i64),
    }
}

/// The number of UTF-8 bytes of a character sequence.
pub fn utf8_length(t: &Vec<char>) -> (r: u128)
    ensures
        r == utf8_len(t@),
{
    let mut n: u128 = 0;
    let mut i: usize = 0;
    while i < t.len()
        invariant
            i <= t@.len(),
            n == utf8_len(t@.subrange(0, i as int)),
            n <= 4 * i,
        decreases t.len() - i,
    {
        let c = t[i];
        let w: u128 = if (c as u32) < 0x80 { 1 } else if (c as u32) < 0x800 { 2 } else if (c as u32) < 0x10000 { 3 } else { 4 };
        assert(t@.subrange(0, i + 1).drop_last() =~= t@.subrange(0, i as int));
        n = n + w;
        i = i + 1;
    }
    assert(t@.subrange(0, t@.len() as int) =~= t@);
    n
}

/// What OCTET_LENGTH returns.
pub open spec fn octet_length_value(v0: ValueView) -> ValueView {
    match v0 {
        ValueView::Null => ValueView::Null,
        ValueView::Blob(b) => ValueView::Integer(b.len() as i64),
        v => ValueView::Integer(utf8_len(text_form(v)) as i64),
    }
}

/// The number of bytes of a value's text form in UTF-8 (of a BLOB, its
/// length); NULL stays NULL.
pub fn exec_octet_length(reg: &Value) -> (r: Value)
    ensures
        r@ == octet_length_value(reg@),
{
    match reg {
        Value::Null => Value::Null,
        Value::Blob(b) => Value::Integer(b.len() as i64),
        _ => Value::Integer(utf8_length(&reg.to_text()) as i64),
    }
}

/// What UNICODE returns.
pub open spec fn unicode_value(v0: ValueView) -> ValueView {
    match v0 {
        ValueView::Null => ValueView::Null,
        v => if text_form(v).len() == 0 {
            ValueView::Null
        } else {
            ValueView::Integer(text_form(v)[0] as u32 as i64)
        },
    }
}

/// The code point of the first character of the value's text form; NULL for
/// NULL or an empty text.
pub fn exec_unicode(reg: &Value) -> (r: Value)
    ensures
        r@ == unicode_value(reg@),
{
    match reg {
        Value::Null => Value::Null,
        _ => {
            let t = reg.to_text();
            if t.len() == 0 {
                Value::Null
            } else {
                Value::Integer(t[0] as u32 as i64)
            }
        },
    }
}

/// Upper-cases TEXT; other values come back unchanged.
pub fn exec_upper(reg: &Value) -> (r: Option<Value>)
    ensures
        r is Some,
        r->0@ == match reg@ {
            ValueView::Text(t) => ValueView::Text(upper_of(t)),
            v => v,
        },
{
    match reg {
        Value::Text(t) => Some(Value::Text(uppercase(t))),
        _ => Some(reg.duplicate()),
    }
}

/// Lower-cases TEXT; other values come back unchanged.
pub fn exec_lower(reg: &Value) -> (r: Option<Value>)
    ensures
        r is Some,
        r->0@ == match reg@ {
            ValueView::Text(t) => ValueView::Text(lower_of(t)),
            v => v,
        },
{
    match reg {
        Value::Text(t) => Some(Value::Text(lowercase(t))),
        _ => Some(reg.duplicate()),
    }
}

/// Whether a REAL is below zero.
pub open spec fn real_below_zero(b: u64) -> bool {
    real_is_neg(b) && !real_is_zero(b) && !real_is_nan(b)
}

/// The rendering of a REAL's negation, for a negative one.
pub open spec fn drop_minus(t: Seq<char>) -> Seq<char> {
    if t.len() > 0 && t[0] == '-' { t.subrange(1, t.len() as int) } else { t }
}

/// The absolute value: an error for the least INTEGER, whose absolute value
/// does not fit; 0.0 for TEXT and BLOB; NULL stays NULL.
pub fn exec_abs(reg: &Value) -> (r: Result<Value, VmError>)
    ensures
        match reg@ {
            ValueView::Integer(x) => if x == i64::MIN {
                r == Err::<Value, VmError>(VmError::IntegerOverflow)
            } else {
                r is Ok && r->Ok_0@ == ValueView::Integer((if x < 0 { -x } else { x as int }) as i64)
            },
            ValueView::Float(b, t) => r is Ok && r->Ok_0@ == if real_below_zero(b) {
                ValueView::Float(b ^ 0x8000_0000_0000_0000u64, drop_minus(t))
            } else {
                ValueView::Float(b, t)
            },
            ValueView::Null => r is Ok && r->Ok_0@ == ValueView::Null,
            _ => r is Ok && r->Ok_0@ == crate::vm::real_zero(),
        },
{
    match reg {
        Value::Integer(x) => {
            if *x == i64::MIN {
                Err(VmError::IntegerOverflow)
            } else if *x < 0 {
                Ok(Value::Integer(-*x))
            } else {
                Ok(Value::Integer(*x))
            }
        },
        Value::Float(f) => {
            let b = f.bits;
            let e = (b >> 52u64) & 0x7ffu64;
            let frac = b & 0xf_ffff_ffff_ffffu64;
            let nan = e == 0x7ff && frac != 0;
            if (b >> 63u64) == 1 && b & 0x7fff_ffff_ffff_ffffu64 != 0 && !nan {
                let t = &f.text;
                let text = if t.len() > 0 && t[0] == '-' {
                    let mut out: Vec<char> = Vec::new();
                    let mut i: usize = 1;
                    while i < t.len()
                        invariant
                            1 <= i <= t@.len(),
                            out@ == t@.subrange(1, i as int),
                        decreases t.len() - i,
                    {
                        out.push(t[i]);
                        i = i + 1;
                        assert(out@ =~= t@.subrange(1, i as int));
                    }
                    out
                } else {
                    copy_chars(t)
                };
                Ok(Value::Float(Real { bits: b ^ 0x8000_0000_0000_0000u64, text }))
            } else {
                Ok(reg.duplicate())
            }
        },
        Value::Null => Ok(Value::Null),
        _ => Ok(crate::interp::real_zero_value()),
    }
}

/// The position of the first NUL character, or the length.
pub open spec fn nul_cut(t: Seq<char>) -> int {
    match find_from(t, seq!['\0'], 0) {
        Some(i) => i,
        None => t.len() as int,
    }
}

/// The characters with each single quote doubled.
pub open spec fn double_quotes(t: Seq<char>) -> Seq<char>
    decreases t.len(),
{
    if t.len() == 0 {
        t
    } else if t.last() == '\'' {
        double_quotes(t.drop_last()) + seq!['\'', '\'']
    } else {
        double_quotes(t.drop_last()).push(t.last())
    }
}

/// What QUOTE returns.
pub open spec fn quote_value(v0: ValueView) -> ValueView {
    match v0 {
        ValueView::Null => ValueView::Text(seq!['N', 'U', 'L', 'L']),
        ValueView::Text(t) => ValueView::Text(
            seq!['\''] + double_quotes(t.subrange(0, nul_cut(t))) + seq!['\''],
        ),
        ValueView::Blob(b) => ValueView::Text(seq!['X', '\''] + hex_upper(b) + seq!['\'']),
        v => v,
    }
}

/// The SQL literal for a value: NULL as `NULL`, TEXT up to its first NUL in
/// single quotes with quotes doubled, BLOB as `X'..'` in hex; numbers are
/// returned unchanged.
pub fn exec_quote(value: &Value) -> (r: Value)
    ensures
        r@ == quote_value(value@),
{
    match value {
        Value::Null => {
            let t = lit("NULL");
            proof { reveal_strlit("NULL"); }
            assert(t@ =~= seq!['N', 'U', 'L', 'L']);
            Value::Text(t)
        },
        Value::Integer(_) | Value::Float(_) => value.duplicate(),
        Value::Blob(b) => {
            let mut out: Vec<char> = Vec::new();
            out.push('X');
            out.push('\'');
            crate::interp::append_chars(&mut out, &encode_upper(b));
            out.push('\'');
            assert(out@ =~= seq!['X', '\''] + hex_upper(b@) + seq!['\'']);
            Value::Text(out)
        },
        Value::Text(t) => {
            let mut nul: Vec<char> = Vec::new();
            nul.push('\0');
            assert(nul@ =~= seq!['\0']);
            proof {
                crate::text::lemma_find_from_bound(t@, nul@, 0);
            }
            let cut = match find_chars(t, &nul) {
                Some(i) => i,
                None => t.len(),
            };
            let mut body: Vec<char> = Vec::new();
            let mut i: usize = 0;
            while i < cut
                invariant
                    cut <= t@.len(),
                    cut == nul_cut(t@),
                    i <= cut,
                    body@ == double_quotes(t@.subrange(0, i as int)),
                decreases cut - i,
            {
                let c = t[i];
                assert(t@.subrange(0, i + 1).drop_last() =~= t@.subrange(0, i as int));
                if c == '\'' {
                    body.push('\'');
                    body.push('\'');
                    assert(body@ =~= double_quotes(t@.subrange(0, i as int)) + seq!['\'', '\'']);
                } else {
                    body.push(c);
                }
                i = i + 1;
            }
            let mut out: Vec<char> = Vec::new();
            out.push('\'');
            crate::interp::append_chars(&mut out, &body);
            out.push('\'');
            assert(out@ =~= seq!['\''] + double_quotes(t@.subrange(0, nul_cut(t@))) + seq!['\'']);
            Value::Text(out)
        },
    }
}

/// What HEX returns.
pub open spec fn hex_value(v0: ValueView) -> ValueView {
    match v0 {
        ValueView::Null => ValueView::Null,
        v => ValueView::Text(hex_upper(vstd::utf8::encode_utf8(text_form(v)))),
    }
}

/// The hex rendering of the UTF-8 bytes of a value's text form; NULL stays
/// NULL.
pub fn exec_hex(reg: &Value) -> (r: Value)
    ensures
        r@ == hex_value(reg@),
{
    match reg {
        Value::Null => Value::Null,
        _ => Value::Text(encode_upper(&utf8_encode(&reg.to_text()))),
    }
}

/// Whether `c` occurs in `set`.
pub open spec fn in_set(set: Seq<char>, c: char) -> bool {
    exists|i: int| 0 <= i < set.len() && set[i] == c
}

fn in_set_exec(set: &Vec<char>, c: char) -> (r: bool)
    ensures
        r == in_set(set@, c),
{
    let mut i: usize = 0;
    while i < set.len()
        invariant
            i <= set@.len(),
            forall|j: int| 0 <= j < i ==> set@[j] != c,
        decreases set.len() - i,
    {
        if set[i] == c {
            return true;
        }
        i = i + 1;
    }
    false
}

/// The number of leading characters of `t` that are in `set`.
pub open spec fn lead_in(t: Seq<char>, set: Seq<char>, i: int) -> int
    decreases t.len() - i,
{
    if i < 0 || i >= t.len() || !in_set(set, t[i]) { i } else { lead_in(t, set, i + 1) }
}

/// The end of `t` once trailing characters in `set` are removed, not going
/// below `lo`.
pub open spec fn trail_out(t: Seq<char>, set: Seq<char>, lo: int, e: int) -> int
    decreases e - lo,
{
    if e <= lo || e > t.len() || !in_set(set, t[e - 1]) { e } else { trail_out(t, set, lo, e - 1) }
}

/// `t` without the leading and/or trailing characters that are in `set`.
pub open spec fn strip(t: Seq<char>, set: Seq<char>, left: bool, right: bool) -> Seq<char> {
    let s = if left { lead_in(t, set, 0) } else { 0 };
    let e = if right { trail_out(t, set, s, t.len() as int) } else { t.len() as int };
    t.subrange(s, e)
}

/// Strips characters of `set` from the ends of `t`.
pub fn strip_chars(t: &Vec<char>, set: &Vec<char>, left: bool, right: bool) -> (r: Vec<char>)
    ensures
        r@ == strip(t@, set@, left, right),
{
    let mut s: usize = 0;
    if left {
        while s < t.len() && in_set_exec(set, t[s])
            invariant
                s <= t@.len(),
                lead_in(t@, set@, 0) == lead_in(t@, set@, s as int),
            decreases t.len() - s,
        {
            s = s + 1;
        }
    }
    let mut e: usize = t.len();
    if right {
        while e > s && in_set_exec(set, t[e - 1])
            invariant
                s <= e <= t@.len(),
                trail_out(t@, set@, s as int, t@.len() as int) == trail_out(t@, set@, s as int, e as int),
            decreases e - s,
        {
            e = e - 1;
        }
    }
    let mut out: Vec<char> = Vec::new();
    let mut k: usize = s;
    while k < e
        invariant
            s <= k <= e,
            e <= t@.len(),
            out@ == t@.subrange(s as int, k as int),
        decreases e - k,
    {
        out.push(t[k]);
        k = k + 1;
        assert(out@ =~= t@.subrange(s as int, k as int));
    }
    out
}

/// What UNHEX returns.
pub open spec fn unhex_value(v: ValueView, ignored: Option<ValueView>) -> ValueView {
    match v {
        ValueView::Null => ValueView::Null,
        v => {
            let t = match ignored {
                None => Some(text_form(v)),
                Some(ValueView::Text(set)) => Some(strip(text_form(v), set, true, true)),
                Some(_) => None,
            };
            match t {
                None => ValueView::Null,
                Some(t) => match hex_decoded(vstd::utf8::encode_utf8(t)) {
                    Some(b) => ValueView::Blob(b),
                    None => ValueView::Null,
                },
            }
        },
    }
}

/// The bytes a hex text stands for, as a BLOB; NULL when the text is not
/// hex. With `ignored`, the characters it holds are first stripped from both
/// ends; an `ignored` that is not TEXT gives NULL.
pub fn exec_unhex(reg: &Value, ignored_chars: Option<&Value>) -> (r: Value)
    ensures
        r@ == unhex_value(reg@, opt_value_view(ignored_chars)),
{
    match reg {
        Value::Null => Value::Null,
        _ => {
            let t = match ignored_chars {
                None => reg.to_text(),
                Some(ig) => match ig {
                    Value::Text(set) => strip_chars(&reg.to_text(), set, true, true),
                    _ => {
                        return Value::Null;
                    },
                },
            };
            match decode(&utf8_encode(&t)) {
                Some(b) => Value::Blob(b),
                None => Value::Null,
            }
        },
    }
}

/// What INSTR returns.
pub open spec fn instr_value(v0: ValueView, v1: ValueView) -> ValueView {
    match (v0, v1) {
        (ValueView::Null, _) => ValueView::Null,
        (_, ValueView::Null) => ValueView::Null,
        (ValueView::Blob(a), ValueView::Blob(b)) => ValueView::Integer(match find_from(a, b, 0) {
            Some(i) => (i + 1) as i64,
            None => 0,
        }),
        (a, b) => ValueView::Integer(match find_from(text_form(a), text_form(b), 0) {
            Some(i) => (i + 1) as i64,
            None => 0,
        }),
    }
}

/// The 1-based position of the first occurrence of `pattern` in `reg`, 0 if
/// none: byte positions between two BLOBs, else character positions in the
/// text forms. NULL if either is NULL.
pub fn exec_instr(reg: &Value, pattern: &Value) -> (r: Value)
    ensures
        r@ == instr_value(reg@, pattern@),
{
    match (reg, pattern) {
        (Value::Null, _) | (_, Value::Null) => Value::Null,
        (Value::Blob(a), Value::Blob(b)) => Value::Integer(match find_bytes(a, b) {
            Some(i) => #[verifier::truncate] ((i as u128 + 1) as i64),
            None => 0,
        }),
        _ => Value::Integer(match find_chars(&reg.to_text(), &pattern.to_text()) {
            Some(i) => #[verifier::truncate] ((i as u128 + 1) as i64),
            None => 0,
        }),
    }
}


/// The values of a list of registers that all hold values.
pub open spec fn reg_values(regs: Seq<Register>) -> Seq<ValueView> {
    regs.map_values(|r: Register| r->OwnedValue_0@)
}

pub open spec fn all_values(regs: Seq<Register>) -> bool {
    forall|i: int| 0 <= i < regs.len() ==> #[trigger] regs[i] is OwnedValue
}

/// The first least value (`want == -1`) or the last greatest one
/// (`want == 1`); `None` for an empty list.
pub open spec fn extreme_of(vs: Seq<ValueView>, want: int) -> Option<ValueView>
    decreases vs.len(),
{
    if vs.len() == 0 {
        None
    } else {
        match extreme_of(vs.drop_last(), want) {
            None => Some(vs.last()),
            Some(m) => if (want < 0 && value_cmp(vs.last(), m) < 0) || (want > 0 && value_cmp(vs.last(), m) >= 0) {
                Some(vs.last())
            } else {
                Some(m)
            },
        }
    }
}

fn extreme_exec(regs: &[Register], want_max: bool) -> (r: Value)
    requires
        all_values(regs@),
    ensures
        r@ == match extreme_of(reg_values(regs@), if want_max { 1 } else { -1 }) {
            Some(v) => v,
            None => ValueView::Null,
        },
{
    let ghost want: int = if want_max { 1 } else { -1 };
    let ghost vs = reg_values(regs@);
    let mut best: Option<usize> = None;
    let mut i: usize = 0;
    while i < regs.len()
        invariant
            all_values(regs@),
            vs == reg_values(regs@),
            i <= regs@.len(),
            want == if want_max { 1int } else { -1int },
            match best {
                None => extreme_of(vs.subrange(0, i as int), want) is None,
                Some(b) => b < i && extreme_of(vs.subrange(0, i as int), want) == Some(vs[b as int]),
            },
        decreases regs.len() - i,
    {
        assert(vs.subrange(0, i + 1).drop_last() =~= vs.subrange(0, i as int));
        assert(regs@[i as int] is OwnedValue);
        let v = regs[i].get_owned_value();
        match best {
            None => {
                best = Some(i);
            },
            Some(b) => {
                assert(regs@[b as int] is OwnedValue);
                let m = regs[b].get_owned_value();
                let c = crate::value::compare_values(v, m);
                if (!want_max && c < 0) || (want_max && c >= 0) {
                    best = Some(i);
                }
            },
        }
        i = i + 1;
    }
    assert(vs.subrange(0, regs@.len() as int) =~= vs);
    match best {
        None => Value::Null,
        Some(b) => {
            assert(regs@[b as int] is OwnedValue);
            regs[b].get_owned_value().duplicate()
        },
    }
}

/// The least of the values (the first one among equals); NULL for none.
pub fn exec_min(regs: &[Register]) -> (r: Value)
    requires
        all_values(regs@),
    ensures
        r@ == match extreme_of(reg_values(regs@), -1) {
            Some(v) => v,
            None => ValueView::Null,
        },
{
    extreme_exec(regs, false)
}

/// The greatest of the values (the last one among equals); NULL for none.
pub fn exec_max(regs: &[Register]) -> (r: Value)
    requires
        all_values(regs@),
    ensures
        r@ == match extreme_of(reg_values(regs@), 1) {
            Some(v) => v,
            None => ValueView::Null,
        },
{
    extreme_exec(regs, true)
}

/// The characters whose codes are the low bytes of the INTEGER values, in
/// order; other values are skipped.
pub open spec fn char_codes(vs: Seq<ValueView>) -> Seq<char>
    decreases vs.len(),
{
    if vs.len() == 0 {
        Seq::empty()
    } else {
        match vs.last() {
            ValueView::Integer(i) => char_codes(vs.drop_last()).push((i as u8) as char),
            _ => char_codes(vs.drop_last()),
        }
    }
}

/// The text made of the characters with the given codes.
pub fn exec_char(values: &[Register]) -> (r: Value)
    requires
        all_values(values@),
    ensures
        r@ == ValueView::Text(char_codes(reg_values(values@))),
{
    let ghost vs = reg_values(values@);
    let mut out: Vec<char> = Vec::new();
    let mut i: usize = 0;
    while i < values.len()
        invariant
            all_values(values@),
            vs == reg_values(values@),
            i <= values@.len(),
            out@ == char_codes(vs.subrange(0, i as int)),
        decreases values.len() - i,
    {
        assert(vs.subrange(0, i + 1).drop_last() =~= vs.subrange(0, i as int));
        assert(values@[i as int] is OwnedValue);
        match values[i].get_owned_value() {
            Value::Integer(x) => out.push((*x as u8) as char),
            _ => {},
        }
        i = i + 1;
    }
    assert(vs.subrange(0, values@.len() as int) =~= vs);
    Value::Text(out)
}

/// The concatenated text forms of the values; NULLs add nothing.
pub open spec fn concat_texts(vs: Seq<ValueView>) -> Seq<char>
    decreases vs.len(),
{
    if vs.len() == 0 {
        Seq::empty()
    } else {
        concat_texts(vs.drop_last()) + text_form(vs.last())
    }
}

/// The concatenation of the values' text forms.
pub fn exec_concat_strings(registers: &[Register]) -> (r: Value)
    requires
        all_values(registers@),
    ensures
        r@ == ValueView::Text(concat_texts(reg_values(registers@))),
{
    let ghost vs = reg_values(registers@);
    let mut out: Vec<char> = Vec::new();
    let mut i: usize = 0;
    while i < registers.len()
        invariant
            all_values(registers@),
            vs == reg_values(registers@),
            i <= registers@.len(),
            out@ == concat_texts(vs.subrange(0, i as int)),
        decreases registers.len() - i,
    {
        assert(vs.subrange(0, i + 1).drop_last() =~= vs.subrange(0, i as int));
        assert(registers@[i as int] is OwnedValue);
        crate::interp::append_chars(&mut out, &registers[i].get_owned_value().to_text());
        i = i + 1;
    }
    assert(vs.subrange(0, registers@.len() as int) =~= vs);
    Value::Text(out)
}

/// `concat_ws`: the text forms of the TEXT and numeric values after the
/// first, with the separator written before every argument after the second
/// (also where that argument is skipped).
pub open spec fn join_ws(vs: Seq<ValueView>, sep: Seq<char>) -> Seq<char>
    decreases vs.len(),
{
    if vs.len() <= 1 {
        Seq::empty()
    } else {
        let prev = join_ws(vs.drop_last(), sep);
        let with_sep = if vs.len() > 2 { prev + sep } else { prev };
        let v = vs.last();
        if v is Text || v is Integer || v is Float { with_sep + text_form(v) } else { with_sep }
    }
}

/// Joins the values after the first with the first as separator; NULL when
/// there are no values or the separator is NULL or a BLOB.
pub fn exec_concat_ws(registers: &[Register]) -> (r: Value)
    requires
        all_values(registers@),
    ensures
        r@ == ({
            let vs = reg_values(registers@);
            if vs.len() == 0 || vs[0] is Null || vs[0] is Blob {
                ValueView::Null
            } else {
                ValueView::Text(join_ws(vs, text_form(vs[0])))
            }
        }),
{
    let ghost vs = reg_values(registers@);
    if registers.len() == 0 {
        return Value::Null;
    }
    assert(registers@[0] is OwnedValue);
    let first = registers[0].get_owned_value();
    if matches!(first, Value::Null) || matches!(first, Value::Blob(_)) {
        return Value::Null;
    }
    let sep = first.to_text();
    let mut out: Vec<char> = Vec::new();
    let mut i: usize = 1;
    assert(vs.subrange(0, 1).len() == 1);
    while i < registers.len()
        invariant
            all_values(registers@),
            vs == reg_values(registers@),
            1 <= i <= registers@.len(),
            out@ == join_ws(vs.subrange(0, i as int), sep@),
        decreases registers.len() - i,
    {
        assert(vs.subrange(0, i + 1).drop_last() =~= vs.subrange(0, i as int));
        if i > 1 {
            crate::interp::append_chars(&mut out, &sep);
        }
        assert(registers@[i as int] is OwnedValue);
        let v = registers[i].get_owned_value();
        if matches!(v, Value::Text(_)) || matches!(v, Value::Integer(_)) || matches!(v, Value::Float(_)) {
            crate::interp::append_chars(&mut out, &v.to_text());
        }
        i = i + 1;
    }
    assert(vs.subrange(0, registers@.len() as int) =~= vs);
    Value::Text(out)
}

/// Rust's `char::is_whitespace`: the Unicode White_Space characters.
pub open spec fn is_ws(c: char) -> bool {
    let u = c as u32;
    (0x09 <= u <= 0x0d) || u == 0x20 || u == 0x85 || u == 0xa0 || u == 0x1680
        || (0x2000 <= u <= 0x200a) || u == 0x2028 || u == 0x2029 || u == 0x202f
        || u == 0x205f || u == 0x3000
}

pub(crate) fn is_ws_exec(c: char) -> (r: bool)
    ensures
        r == is_ws(c),
{
    let u = c as u32;
    (0x09 <= u && u <= 0x0d) || u == 0x20 || u == 0x85 || u == 0xa0 || u == 0x1680
        || (0x2000 <= u && u <= 0x200a) || u == 0x2028 || u == 0x2029 || u == 0x202f
        || u == 0x205f || u == 0x3000
}

pub open spec fn ws_lead(t: Seq<char>, i: int) -> int
    decreases t.len() - i,
{
    if i < 0 || i >= t.len() || !is_ws(t[i]) { i } else { ws_lead(t, i + 1) }
}

pub open spec fn ws_trail(t: Seq<char>, lo: int, e: int) -> int
    decreases e - lo,
{
    if e <= lo || e > t.len() || !is_ws(t[e - 1]) { e } else { ws_trail(t, lo, e - 1) }
}

/// `t` without leading and/or trailing whitespace.
pub open spec fn strip_ws(t: Seq<char>, left: bool, right: bool) -> Seq<char> {
    let s = if left { ws_lead(t, 0) } else { 0 };
    let e = if right { ws_trail(t, s, t.len() as int) } else { t.len() as int };
    t.subrange(s, e)
}

fn strip_ws_exec(t: &Vec<char>, left: bool, right: bool) -> (r: Vec<char>)
    ensures
        r@ == strip_ws(t@, left, right),
{
    let mut s: usize = 0;
    if left {
        while s < t.len() && is_ws_exec(t[s])
            invariant
                s <= t@.len(),
                ws_lead(t@, 0) == ws_lead(t@, s as int),
            decreases t.len() - s,
        {
            s = s + 1;
        }
    }
    let mut e: usize = t.len();
    if right {
        while e > s && is_ws_exec(t[e - 1])
            invariant
                s <= e <= t@.len(),
                ws_trail(t@, s as int, t@.len() as int) == ws_trail(t@, s as int, e as int),
            decreases e - s,
        {
            e = e - 1;
        }
    }
    let mut out: Vec<char> = Vec::new();
    let mut k: usize = s;
    while k < e
        invariant
            s <= k <= e,
            e <= t@.len(),
            out@ == t@.subrange(s as int, k as int),
        decreases e - k,
    {
        out.push(t[k]);
        k = k + 1;
        assert(out@ =~= t@.subrange(s as int, k as int));
    }
    out
}

/// The trim family: with a pattern, the characters of the pattern's text
/// form are stripped from a TEXT or numeric value's text form (other values
/// come back unchanged); without one, whitespace is stripped from TEXT.
pub open spec fn trim_spec(v: ValueView, pattern: Option<ValueView>, left: bool, right: bool) -> ValueView {
    match pattern {
        Some(p) => if v is Text || v is Integer || v is Float {
            ValueView::Text(strip(text_form(v), text_form(p), left, right))
        } else {
            v
        },
        None => match v {
            ValueView::Text(t) => ValueView::Text(strip_ws(t, left, right)),
            _ => v,
        },
    }
}

pub open spec fn opt_value_view(p: Option<&Value>) -> Option<ValueView> {
    match p {
        Some(v) => Some(v@),
        None => None,
    }
}

fn trim_exec(reg: &Value, pattern: Option<&Value>, left: bool, right: bool) -> (r: Value)
    ensures
        r@ == trim_spec(reg@, opt_value_view(pattern), left, right),
{
    match pattern {
        Some(p) => {
            if matches!(reg, Value::Text(_)) || matches!(reg, Value::Integer(_)) || matches!(reg, Value::Float(_)) {
                Value::Text(strip_chars(&reg.to_text(), &p.to_text(), left, right))
            } else {
                reg.duplicate()
            }
        },
        None => match reg {
            Value::Text(t) => Value::Text(strip_ws_exec(t, left, right)),
            _ => reg.duplicate(),
        },
    }
}

/// TRIM: strips both ends.
pub fn exec_trim(reg: &Value, pattern: Option<&Value>) -> (r: Value)
    ensures
        r@ == trim_spec(reg@, opt_value_view(pattern), true, true),
{
    trim_exec(reg, pattern, true, true)
}

/// LTRIM: strips the start.
pub fn exec_ltrim(reg: &Value, pattern: Option<&Value>) -> (r: Value)
    ensures
        r@ == trim_spec(reg@, opt_value_view(pattern), true, false),
{
    trim_exec(reg, pattern, true, false)
}

/// RTRIM: strips the end.
pub fn exec_rtrim(reg: &Value, pattern: Option<&Value>) -> (r: Value)
    ensures
        r@ == trim_spec(reg@, opt_value_view(pattern), false, true),
{
    trim_exec(reg, pattern, false, true)
}

pub open spec fn clamp(x: int, lo: int, hi: int) -> int {
    if x < lo { lo } else if x > hi { hi } else { x }
}

/// The character range `substr(X, start, length)` selects in a text of
/// `len` characters: 1-based `start`, counted from the end when negative; a
/// negative length selects the characters before `start`.
pub open spec fn substr_range(len: int, start: int, length: Option<int>) -> (int, int) {
    let first = if start < 0 { len - (-start) } else { start - 1 };
    let last = match length {
        Some(l) => first + l,
        None => len,
    };
    let (s, e) = if first <= last { (first, last) } else { (last, first) };
    (clamp(s, 0, len), clamp(e, 0, len))
}

/// What SUBSTR returns.
pub open spec fn substr_value(v: ValueView, start: ValueView, length: Option<ValueView>) -> ValueView {
    match (v, start) {
        (ValueView::Text(t), ValueView::Integer(st)) => {
            let len = match length {
                Some(ValueView::Integer(n)) => Some(n as int),
                _ => None,
            };
            let (s, e) = substr_range(t.len() as int, st as int, len);
            ValueView::Text(t.subrange(s, e))
        },
        _ => ValueView::Null,
    }
}

/// SUBSTR on TEXT with an INTEGER start (anything else gives NULL); a length
/// that is not an INTEGER means "to the end".
pub fn exec_substring(str_value: &Value, start_value: &Value, length_value: Option<&Value>) -> (r: Value)
    ensures
        r@ == substr_value(str_value@, start_value@, opt_value_view(length_value)),
{
    match (str_value, start_value) {
        (Value::Text(t), Value::Integer(st)) => {
            let len = t.len() as i128;
            let st = *st as i128;
            let first: i128 = if st < 0 { len + st } else { st - 1 };
            let last: i128 = match length_value {
                Some(Value::Integer(n)) => first + (*n as i128),
                _ => len,
            };
            let (s, e) = if first <= last { (first, last) } else { (last, first) };
            let s = if s < 0 { 0 } else if s > len { len } else { s };
            let e = if e < 0 { 0 } else if e > len { len } else { e };
            let s = s as usize;
            let e = e as usize;
            let mut out: Vec<char> = Vec::new();
            let mut k: usize = s;
            while k < e
                invariant
                    s <= k <= e,
                    e <= t@.len(),
                    out@ == t@.subrange(s as int, k as int),
                decreases e - k,
            {
                out.push(t[k]);
                k = k + 1;
                assert(out@ =~= t@.subrange(s as int, k as int));
            }
            Value::Text(out)
        },
        _ => Value::Null,
    }
}

} // verus!
