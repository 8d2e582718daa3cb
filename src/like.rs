//! SQL LIKE, through a case-insensitive regular expression.
use crate::interp::append_chars;
use crate::value::chars_of;
use vstd::prelude::*;

verus! {

/// The characters that `regex_syntax::is_meta_character` reports.
pub open spec fn regex_meta(c: char) -> bool {
    c == '\\' || c == '.' || c == '+' || c == '*' || c == '?' || c == '(' || c == ')' || c == '|'
        || c == '[' || c == ']' || c == '{' || c == '}' || c == '^' || c == '$' || c == '#'
        || c == '&' || c == '-' || c == '~'
}

/// Relies on `regex_syntax::is_meta_character`: true exactly for the
/// characters listed in [`regex_meta`].
#[verifier::external_body]
fn is_meta(c: char) -> (r: bool)
    ensures
        r == regex_meta(c),
{
    regex_syntax::is_meta_character(c)
}

/// Whether the regular expression `re`, compiled case-insensitively with `.`
/// matching newlines, matches somewhere in `text`.
pub uninterp spec fn regex_ci_matches(re: Seq<char>, text: Seq<char>) -> bool;

/// Whether the regular expression `re` compiles (case-insensitively, with
/// `.` matching newlines, under the builder's default size limits).
pub uninterp spec fn regex_ci_compiles(re: Seq<char>) -> bool;

/// Relies on `regex::RegexBuilder` (case-insensitive, `.` matching newlines)
/// and `Regex::is_match`: `None` exactly when the expression does not
/// compile, which depends on the expression alone; else whether it matches,
/// a function of the two texts alone.
#[verifier::external_body]
fn regex_match(re: &Vec<char>, text: &str) -> (r: Option<bool>)
    ensures
        r is Some <==> regex_ci_compiles(re@),
        match r {
            Some(b) => b == regex_ci_matches(re@, text@),
            None => true,
        },
{
    let src: String = re.iter().collect();
    regex::RegexBuilder::new(&src)
        .case_insensitive(true)
        .dot_matches_new_line(true)
        .build()
        .ok()
        .map(|compiled| compiled.is_match(text))
}

/// The regular expression for one LIKE pattern character: `%` any run,
/// `_` any character, everything else itself (escaped where it is special).
pub open spec fn like_piece(c: char) -> Seq<char> {
    if c == '\\' {
        seq!['\\', '\\']
    } else if c == '%' {
        seq!['.', '*']
    } else if c == '_' {
        seq!['.']
    } else if regex_meta(c) {
        seq!['\\', c]
    } else {
        seq![c]
    }
}

pub open spec fn like_body(p: Seq<char>) -> Seq<char>
    decreases p.len(),
{
    if p.len() == 0 {
        Seq::empty()
    } else {
        like_body(p.drop_last()) + like_piece(p.last())
    }
}

/// The anchored regular expression a LIKE pattern stands for.
pub open spec fn like_regex(p: Seq<char>) -> Seq<char> {
    seq!['^'] + like_body(p) + seq!['$']
}

/// Builds the regular expression for a LIKE pattern.
pub fn construct_like_regex(pattern: &str) -> (r: Vec<char>)
    ensures
        r@ == like_regex(pattern@),
{
    let p = chars_of(pattern);
    let mut body: Vec<char> = Vec::new();
    let mut i: usize = 0;
    while i < p.len()
        invariant
            i <= p@.len(),
            body@ == like_body(p@.subrange(0, i as int)),
        decreases p.len() - i,
    {
        let c = p[i];
        assert(p@.subrange(0, i + 1).drop_last() =~= p@.subrange(0, i as int));
        let ghost before = body@;
        if c == '\\' {
            body.push('\\');
            body.push('\\');
        } else if c == '%' {
            body.push('.');
            body.push('*');
        } else if c == '_' {
            body.push('.');
        } else {
            if is_meta(c) {
                body.push('\\');
            }
            body.push(c);
        }
        assert(body@ =~= before + like_piece(c));
        i = i + 1;
    }
    assert(p@.subrange(0, p@.len() as int) =~= p@);
    let mut out: Vec<char> = Vec::new();
    out.push('^');
    append_chars(&mut out, &body);
    out.push('$');
    assert(out@ =~= like_regex(pattern@));
    out
}

/// LIKE: whether `text` matches `pattern`, ignoring case. `None` exactly
/// when the pattern's regular expression cannot be compiled.
pub fn exec_like(pattern: &str, text: &str) -> (r: Option<bool>)
    ensures
        r is Some <==> regex_ci_compiles(like_regex(pattern@)),
        match r {
            Some(b) => b == regex_ci_matches(like_regex(pattern@), text@),
            None => true,
        },
{
    let re = construct_like_regex(pattern);
    regex_match(&re, text)
}

} // verus!
