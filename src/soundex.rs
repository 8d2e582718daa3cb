//! The Soundex phonetic code.
use crate::value::{Value, ValueView};
use vstd::prelude::*;

verus! {

pub open spec fn is_ascii_alpha(c: char) -> bool {
    ('a' <= c && c <= 'z') || ('A' <= c && c <= 'Z')
}

pub open spec fn to_lower_ascii(c: char) -> char {
    if 'A' <= c && c <= 'Z' { ((c as u8) + 32u8) as char } else { c }
}

pub open spec fn to_upper_ascii(c: char) -> char {
    if 'a' <= c && c <= 'z' { ((c as u8) - 32u8) as char } else { c }
}

/// The Soundex digit of a lowercase letter, or the letter itself.
pub open spec fn sx_code(c: char) -> char {
    if c == 'b' || c == 'f' || c == 'p' || c == 'v' {
        '1'
    } else if c == 'c' || c == 'g' || c == 'j' || c == 'k' || c == 'q' || c == 's' || c == 'x' || c == 'z' {
        '2'
    } else if c == 'd' || c == 't' {
        '3'
    } else if c == 'l' {
        '4'
    } else if c == 'm' || c == 'n' {
        '5'
    } else if c == 'r' {
        '6'
    } else {
        c
    }
}

pub open spec fn is_sx_vowel(c: char) -> bool {
    c == 'a' || c == 'e' || c == 'i' || c == 'o' || c == 'u' || c == 'y'
}

/// The letters other than `h` and `w`.
pub open spec fn drop_hw(s: Seq<char>) -> Seq<char>
    decreases s.len(),
{
    if s.len() == 0 {
        s
    } else {
        let r = drop_hw(s.drop_last());
        if s.last() == 'h' || s.last() == 'w' { r } else { r.push(s.last()) }
    }
}

/// The sequence with each run of equal characters cut to one.
pub open spec fn squeeze(s: Seq<char>) -> Seq<char>
    decreases s.len(),
{
    if s.len() == 0 {
        s
    } else {
        let r = squeeze(s.drop_last());
        if r.len() > 0 && r.last() == s.last() { r } else { r.push(s.last()) }
    }
}

/// The sequence without vowels, except in first place.
pub open spec fn drop_vowels(s: Seq<char>) -> Seq<char>
    decreases s.len(),
{
    if s.len() <= 1 {
        s
    } else {
        let r = drop_vowels(s.drop_last());
        if is_sx_vowel(s.last()) { r } else { r.push(s.last()) }
    }
}

/// Exactly four characters: cut, or padded with `'0'`.
pub open spec fn pad4(s: Seq<char>) -> Seq<char> {
    if s.len() >= 4 {
        s.subrange(0, 4)
    } else {
        s + Seq::new((4 - s.len()) as nat, |i: int| '0')
    }
}

pub open spec fn is_digit_char(c: char) -> bool {
    '0' <= c && c <= '9'
}

/// The Soundex code of a word.
pub open spec fn soundex_of(t: Seq<char>) -> Seq<char> {
    if !(forall|i: int| 0 <= i < t.len() ==> is_ascii_alpha(#[trigger] t[i])) {
        seq!['?', '0', '0', '0']
    } else if t.len() == 0 {
        seq!['0', '0', '0', '0']
    } else {
        let w = t.map_values(|c: char| to_lower_ascii(c));
        let first = w[0];
        let code = seq![first] + drop_hw(w.subrange(1, w.len() as int));
        let v = drop_vowels(squeeze(code.map_values(|c: char| sx_code(c))));
        let v2 = if v.len() > 0 && is_digit_char(v[0]) { v.update(0, first) } else { v };
        pad4(v2).map_values(|c: char| to_upper_ascii(c))
    }
}

fn lower_char(c: char) -> (r: char)
    ensures
        r == to_lower_ascii(c),
{
    if 'A' <= c && c <= 'Z' {
        ((c as u8) + 32u8) as char
    } else {
        c
    }
}

fn upper_char(c: char) -> (r: char)
    ensures
        r == to_upper_ascii(c),
{
    if 'a' <= c && c <= 'z' {
        ((c as u8) - 32u8) as char
    } else {
        c
    }
}

fn code_char(c: char) -> (r: char)
    ensures
        r == sx_code(c),
{
    if c == 'b' || c == 'f' || c == 'p' || c == 'v' {
        '1'
    } else if c == 'c' || c == 'g' || c == 'j' || c == 'k' || c == 'q' || c == 's' || c == 'x' || c == 'z' {
        '2'
    } else if c == 'd' || c == 't' {
        '3'
    } else if c == 'l' {
        '4'
    } else if c == 'm' || c == 'n' {
        '5'
    } else if c == 'r' {
        '6'
    } else {
        c
    }
}

fn text_0000(q: char) -> (r: Vec<char>)
    ensures
        r@ == seq![q, '0', '0', '0'],
{
    let mut r: Vec<char> = Vec::new();
    r.push(q);
    r.push('0');
    r.push('0');
    r.push('0');
    assert(r@ =~= seq![q, '0', '0', '0']);
    r
}

/// Generates the Soundex code of a word: NULL, non-text values and text
/// with anything but ASCII letters give `"?000"`.
pub fn exec_soundex(reg: &Value) -> (r: Value)
    ensures
        r@ == ValueView::Text(match reg@ {
            ValueView::Text(t) => soundex_of(t),
            _ => seq!['?', '0', '0', '0'],
        }),
        match reg@ {
            ValueView::Text(t) => (exists|i: int| 0 <= i < t.len() && !is_ascii_alpha(t[i]))
                ==> r@ == ValueView::Text(seq!['?', '0', '0', '0']),
            _ => true,
        },
{
    let t = match reg {
        Value::Text(t) => t,
        _ => {
            return Value::Text(text_0000('?'));
        },
    };
    let n = t.len();
    let mut i: usize = 0;
    while i < n
        invariant
            reg@ == ValueView::Text(t@),
            n == t@.len(),
            i <= n,
            forall|j: int| 0 <= j < i ==> is_ascii_alpha(#[trigger] t@[j]),
        decreases n - i,
    {
        let c = t[i];
        if !(('a' <= c && c <= 'z') || ('A' <= c && c <= 'Z')) {
            assert(!is_ascii_alpha(t@[i as int]));
            return Value::Text(text_0000('?'));
        }
        i = i + 1;
    }
    if n == 0 {
        return Value::Text(text_0000('0'));
    }
    let ghost w = t@.map_values(|c: char| to_lower_ascii(c));
    let first = lower_char(t[0]);
    // the first letter, then the others but h and w
    let mut code: Vec<char> = Vec::new();
    code.push(first);
    let mut k: usize = 1;
    while k < n
        invariant
            n == t@.len(),
            1 <= k <= n,
            w == t@.map_values(|c: char| to_lower_ascii(c)),
            code@ == seq![first] + drop_hw(w.subrange(1, k as int)),
        decreases n - k,
    {
        let c = lower_char(t[k]);
        assert(w.subrange(1, k + 1).drop_last() =~= w.subrange(1, k as int));
        if c != 'h' && c != 'w' {
            code.push(c);
        }
        k = k + 1;
        assert(code@ =~= seq![first] + drop_hw(w.subrange(1, k as int)));
    }
    assert(w.subrange(1, n as int) =~= w.subrange(1, w.len() as int));
    let ghost codes = code@.map_values(|c: char| sx_code(c));
    // digits for consonants, runs squeezed
    let mut sq: Vec<char> = Vec::new();
    let mut k: usize = 0;
    while k < code.len()
        invariant
            k <= code@.len(),
            codes == code@.map_values(|c: char| sx_code(c)),
            sq@ == squeeze(codes.subrange(0, k as int)),
        decreases code.len() - k,
    {
        let d = code_char(code[k]);
        assert(codes.subrange(0, k + 1).drop_last() =~= codes.subrange(0, k as int));
        if sq.len() == 0 || sq[sq.len() - 1] != d {
            sq.push(d);
        }
        k = k + 1;
    }
    assert(codes.subrange(0, code@.len() as int) =~= codes);
    // vowels dropped but in first place
    let mut v: Vec<char> = Vec::new();
    let mut k: usize = 0;
    while k < sq.len()
        invariant
            k <= sq@.len(),
            v@ == drop_vowels(sq@.subrange(0, k as int)),
        decreases sq.len() - k,
    {
        let c = sq[k];
        assert(sq@.subrange(0, k + 1).drop_last() =~= sq@.subrange(0, k as int));
        if k == 0 || !(c == 'a' || c == 'e' || c == 'i' || c == 'o' || c == 'u' || c == 'y') {
            v.push(c);
        }
        k = k + 1;
        proof {
            if k == 1 {
                assert(sq@.subrange(0, 1) =~= seq![c]);
                assert(v@ =~= seq![c]);
            }
        }
    }
    assert(sq@.subrange(0, sq@.len() as int) =~= sq@);
    let ghost v0 = v@;
    if v.len() > 0 && '0' <= v[0] && v[0] <= '9' {
        v.set(0, first);
    }
    let ghost v2 = v@;
    assert(v2 == (if v0.len() > 0 && is_digit_char(v0[0]) { v0.update(0, first) } else { v0 }));
    // four characters, upper case
    let mut out: Vec<char> = Vec::new();
    let mut k: usize = 0;
    while k < 4
        invariant
            k <= 4,
            v@ == v2,
            out@ == pad4(v2).map_values(|c: char| to_upper_ascii(c)).subrange(0, k as int),
        decreases 4 - k,
    {
        let c = if k < v.len() { v[k] } else { '0' };
        out.push(upper_char(c));
        k = k + 1;
        assert(out@ =~= pad4(v2).map_values(|c: char| to_upper_ascii(c)).subrange(0, k as int));
    }
    assert(out@ =~= pad4(v2).map_values(|c: char| to_upper_ascii(c)));
    Value::Text(out)
}

} // verus!
