//! Line classifiers of the INI format: pure predicates over a single
//! line that the parser state machine uses to pick its transitions.

use vstd::prelude::*;

use crate::text::{is_space, space_char};

verus! {

/// The line is empty or all whitespace.
pub open spec fn spec_is_blank(s: Seq<char>) -> bool {
    forall|i: int| 0 <= i < s.len() ==> is_space(s[i])
}

/// The line is a comment: its first character is `;` or `#`.
pub open spec fn spec_is_comment(s: Seq<char>) -> bool {
    s.len() > 0 && (s[0] == ';' || s[0] == '#')
}

/// The line is a section header: it starts with `[` and ends with `]`
/// (the line is assumed non-empty).
pub open spec fn spec_is_section(s: Seq<char>) -> bool {
    s[0] == '[' && s[s.len() - 1] == ']'
}

/// The value is complete: the line does not end with a backslash
/// (the line is assumed non-empty).
pub open spec fn spec_is_value_end(s: Seq<char>) -> bool {
    s[s.len() - 1] != '\\'
}

/// The raw line starts with a whitespace character.
pub open spec fn spec_start_with_blank(s: Seq<char>) -> bool {
    s.len() > 0 && is_space(s[0])
}

/// The line is empty or all whitespace.
pub fn is_blank(s: &str) -> (r: bool)
    ensures
        r == spec_is_blank(s@),
{
    let n = s.unicode_len();
    if n == 0 {
        return true;
    }
    let mut i: usize = 0;
    while i < n
        invariant
            0 <= i <= n,
            n == s@.len(),
            forall|k: int| 0 <= k < i ==> is_space(s@[k]),
        decreases n - i,
    {
        if !space_char(s.get_char(i)) {
            return false;
        }
        i = i + 1;
    }
    true
}

/// The line is a comment: its first character is `;` or `#`.
pub fn is_comment(s: &str) -> (r: bool)
    ensures
        r == spec_is_comment(s@),
{
    if s.unicode_len() == 0 {
        false
    } else {
        let c = s.get_char(0);
        c == ';' || c == '#'
    }
}

/// The line is a section header.
pub fn is_section(tl: &str) -> (r: bool)
    requires
        tl@.len() > 0,
    ensures
        r == spec_is_section(tl@),
{
    let n = tl.unicode_len();
    tl.get_char(0) == '[' && tl.get_char(n - 1) == ']'
}

/// The value on this line is complete (no trailing backslash).
pub fn is_value_end(tl: &str) -> (r: bool)
    requires
        tl@.len() > 0,
    ensures
        r == spec_is_value_end(tl@),
{
    let n = tl.unicode_len();
    tl.get_char(n - 1) != '\\'
}

/// The raw line starts with a whitespace character.
pub fn start_with_blank(line: &str) -> (r: bool)
    ensures
        r == spec_start_with_blank(line@),
{
    if line.unicode_len() == 0 {
        false
    } else {
        space_char(line.get_char(0))
    }
}

} // verus!
