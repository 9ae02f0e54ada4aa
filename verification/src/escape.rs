//! Escape-sequence processing for string literals, shared with the external
//! lexer: a backslash followed by an escape letter becomes the control
//! character it names; an unrecognized escape keeps the backslash and drops
//! the letter.

use vstd::prelude::*;
use vstd::string::StrSliceExecFns;

verus! {

/// Relies on String::push: appends one character to the string.
#[verifier::external_body]
pub(crate) fn string_push_char(s: &mut String, c: char)
    ensures
        final(s)@ == old(s)@.push(c),
{
    s.push(c)
}

/// The character an escape letter stands for; unrecognized letters map back
/// to the backslash itself.
pub open spec fn esc_char_spec(c: char) -> char {
    match c {
        '0' => '\u{0000}',
        'a' => '\u{0007}',
        'b' => '\u{0008}',
        't' => '\u{0009}',
        'n' => '\u{000a}',
        'v' => '\u{000b}',
        'f' => '\u{000c}',
        'r' => '\u{000d}',
        _ => '\\',
    }
}

/// Executable form of `esc_char_spec`.
fn esc_char(c: char) -> (r: char)
    ensures
        r == esc_char_spec(c),
{
    match c {
        '0' => '\u{0000}',
        'a' => '\u{0007}',
        'b' => '\u{0008}',
        't' => '\u{0009}',
        'n' => '\u{000a}',
        'v' => '\u{000b}',
        'f' => '\u{000c}',
        'r' => '\u{000d}',
        _ => '\\',
    }
}

/// Every backslash from position `i` on is followed by another character:
/// the shape `fmt_escape` accepts (a trailing lone backslash has no escape
/// character to read).
pub open spec fn escape_ok(s: Seq<char>, i: int) -> bool
    decreases s.len() - i,
{
    if i < 0 || i >= s.len() {
        true
    } else if s[i] == '\\' {
        i + 1 < s.len() && escape_ok(s, i + 2)
    } else {
        escape_ok(s, i + 1)
    }
}

/// What processing the escapes from position `i` on yields.
pub open spec fn unescape(s: Seq<char>, i: int) -> Seq<char>
    decreases s.len() - i,
{
    if i < 0 || i >= s.len() {
        Seq::empty()
    } else if s[i] == '\\' && i + 1 < s.len() {
        seq![esc_char_spec(s[i + 1])] + unescape(s, i + 2)
    } else {
        seq![s[i]] + unescape(s, i + 1)
    }
}

/// Replaces every escape sequence in the string by the character it names.
pub fn fmt_escape(string: String) -> (r: String)
    requires
        escape_ok(string@, 0),
    ensures
        r@ == unescape(string@, 0),
{
    let mut s = String::new();
    let sv = string.as_str();
    let len = sv.unicode_len();
    let mut i: usize = 0;
    while i < len
        invariant
            len == string@.len(),
            sv@ == string@,
            i <= len,
            s@ + unescape(string@, i as int) == unescape(string@, 0),
        decreases len - i,
    {
        let c = sv.get_char(i);
        let ghost prev = s@;
        if c == '\\' && i + 1 < len {
            let e = sv.get_char(i + 1);
            string_push_char(&mut s, esc_char(e));
            proof {
                assert(prev + (seq![esc_char_spec(string@[i as int + 1])] + unescape(
                    string@,
                    i as int + 2,
                )) =~= s@ + unescape(string@, i as int + 2));
            }
            i = i + 2;
        } else {
            string_push_char(&mut s, c);
            proof {
                assert(prev + (seq![string@[i as int]] + unescape(string@, i as int + 1)) =~= s@
                    + unescape(string@, i as int + 1));
            }
            i = i + 1;
        }
    }
    proof {
        assert(s@ + unescape(string@, len as int) =~= s@);
    }
    s
}

} // verus!
