//! Text typed into a form.
use vstd::prelude::*;
use vstd::string::StrSliceExecFns;

use crate::codec::chars_of;
use crate::return_to::push_char;

verus! {

/// Whether `c` has the Unicode `White_Space` property, as
/// `char::is_whitespace` tests.
pub open spec fn is_white_space(c: char) -> bool {
    ('\u{9}' <= c && c <= '\u{d}') || c == ' ' || c == '\u{85}' || c == '\u{a0}' || c == '\u{1680}'
        || ('\u{2000}' <= c && c <= '\u{200a}') || c == '\u{2028}' || c == '\u{2029}'
        || c == '\u{202f}' || c == '\u{205f}' || c == '\u{3000}'
}

/// `s` without its leading whitespace.
pub open spec fn trim_start(s: Seq<char>) -> Seq<char>
    decreases s.len(),
{
    if s.len() > 0 && is_white_space(s[0]) {
        trim_start(s.drop_first())
    } else {
        s
    }
}

/// `s` without its trailing whitespace.
pub open spec fn trim_end(s: Seq<char>) -> Seq<char>
    decreases s.len(),
{
    if s.len() > 0 && is_white_space(s.last()) {
        trim_end(s.drop_last())
    } else {
        s
    }
}

/// `s` without its leading and trailing whitespace.
pub open spec fn trimmed(s: Seq<char>) -> Seq<char> {
    trim_end(trim_start(s))
}

/// Relies on `str::trim`: `s` without leading and trailing characters that
/// have the Unicode `White_Space` property.
#[verifier::external_body]
fn trim(s: &str) -> (r: &str)
    ensures
        r@ == trimmed(s@),
{
    s.trim()
}

/// `s` with each `\r\n` replaced by `\n`, matched from the left.
pub open spec fn crlf_to_lf(s: Seq<char>) -> Seq<char>
    decreases s.len(),
{
    if s.len() == 0 {
        s
    } else if s.len() >= 2 && s[0] == '\r' && s[1] == '\n' {
        seq!['\n'] + crlf_to_lf(s.skip(2))
    } else {
        seq![s[0]] + crlf_to_lf(s.drop_first())
    }
}

/// Line endings made `\n`, and a final one added to text that lacks it.
pub open spec fn lines_normalized(s: Seq<char>) -> Seq<char> {
    let t = crlf_to_lf(s);
    if t.len() > 0 && t.last() != '\n' {
        t.push('\n')
    } else {
        t
    }
}

/// Text as a text area holds it: trimmed, with `\n` line endings, and ending
/// with a line break unless empty.
pub open spec fn textarea_value(s: Seq<char>) -> Seq<char> {
    lines_normalized(trimmed(s))
}

/// `t` with `\n` line endings, ending with a line break unless empty.
pub fn normalize_lines(t: &str) -> (r: String)
    ensures
        r@ == lines_normalized(t@),
{
    let v = chars_of(t);
    let n = v.len();
    let mut out = String::new();
    let mut i: usize = 0;
    assert(v@.skip(0) =~= v@);
    assert(out@ + crlf_to_lf(v@) =~= crlf_to_lf(v@));
    while i < n
        invariant
            n == v@.len(),
            v@ == t@,
            i <= n,
            crlf_to_lf(t@) == out@ + crlf_to_lf(v@.skip(i as int)),
        decreases n - i,
    {
        let ghost rest = v@.skip(i as int);
        let ghost before = out@;
        if i + 1 < n && v[i] == '\r' && v[i + 1] == '\n' {
            push_char(&mut out, '\n');
            assert(rest.skip(2) =~= v@.skip(i + 2));
            assert(before + (seq!['\n'] + crlf_to_lf(rest.skip(2))) =~= out@ + crlf_to_lf(
                v@.skip(i + 2),
            ));
            i = i + 2;
        } else {
            push_char(&mut out, v[i]);
            assert(rest.drop_first() =~= v@.skip(i + 1));
            assert(rest[0] == v@[i as int]);
            assert(before + (seq![rest[0]] + crlf_to_lf(rest.drop_first())) =~= out@ + crlf_to_lf(
                v@.skip(i + 1),
            ));
            i = i + 1;
        }
    }
    assert(v@.skip(n as int) =~= Seq::<char>::empty());
    assert(out@ + Seq::<char>::empty() =~= out@);
    let len = out.as_str().unicode_len();
    if len > 0 && out.as_str().get_char(len - 1) != '\n' {
        push_char(&mut out, '\n');
    }
    out
}

/// What a text area submitted as `v` holds.
pub fn textarea(v: &str) -> (r: String)
    ensures
        r@ == textarea_value(v@),
{
    normalize_lines(trim(v))
}

/// What an optional text area submitted as `v` holds; `None` when that is
/// empty.
pub fn optional_textarea(v: &str) -> (r: Option<String>)
    ensures
        match r {
            Some(s) => s@ == textarea_value(v@) && s@.len() > 0,
            None => textarea_value(v@).len() == 0,
        },
{
    let s = textarea(v);
    if s.as_str().unicode_len() == 0 {
        None
    } else {
        Some(s)
    }
}

/// A problem as submitted in the form that creates or edits it.
#[derive(Debug, Clone, PartialEq, Eq)]
pub struct Problem {
    pub name: String,
    pub description: String,
    /// In milliseconds.
    pub time_limit: u32,
    pub visible: bool,
    pub tests: String,
    pub custom_judger: Option<String>,
}

impl Problem {
    /// The problem submitted with these field values; the text areas are
    /// normalized and an empty custom judger is none.
    pub fn from_form(
        name: String,
        description: &str,
        time_limit: u32,
        visible: bool,
        tests: &str,
        custom_judger: &str,
    ) -> (r: Problem)
        ensures
            r.name@ == name@,
            r.description@ == textarea_value(description@),
            r.time_limit == time_limit,
            r.visible == visible,
            r.tests@ == textarea_value(tests@),
            match r.custom_judger {
                Some(j) => j@ == textarea_value(custom_judger@) && j@.len() > 0,
                None => textarea_value(custom_judger@).len() == 0,
            },
    {
        Problem {
            name,
            description: textarea(description),
            time_limit,
            visible,
            tests: textarea(tests),
            custom_judger: optional_textarea(custom_judger),
        }
    }
}

} // verus!
