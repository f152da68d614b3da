//! The rule for names used as a single file or folder name.

use vstd::prelude::*;

use crate::text::{chars_of, char_is_whitespace, contains_seq, is_blank, is_white_space};

verus! {

/// Why a name cannot be used as a file or folder name.
#[derive(Debug, Clone, Copy, PartialEq, Eq, Structural)]
pub enum NameError {
    Empty,
    DotSegment,
    ContainsDotDot,
    PathSeparator,
    NullByte,
}

impl NameError {
    pub open spec fn spec_message(self) -> &'static str {
        match self {
            NameError::Empty => "storage name must not be empty",
            NameError::DotSegment => "storage name must not be '.' or '..'",
            NameError::ContainsDotDot => "storage name must not contain '..'",
            NameError::PathSeparator => "storage name must not contain path separators",
            NameError::NullByte => "storage name must not contain null bytes",
        }
    }

    /// A one-line description of the refusal.
    pub fn message(self) -> (r: &'static str)
        ensures
            r == self.spec_message(),
    {
        match self {
            NameError::Empty => "storage name must not be empty",
            NameError::DotSegment => "storage name must not be '.' or '..'",
            NameError::ContainsDotDot => "storage name must not contain '..'",
            NameError::PathSeparator => "storage name must not contain path separators",
            NameError::NullByte => "storage name must not contain null bytes",
        }
    }
}

/// Two dots.
pub open spec fn dot_dot() -> Seq<char> {
    seq!['.', '.']
}

/// The verdict on a name: empty or blank names, `.` and `..`, names that
/// contain `..`, a slash or backslash, or a NUL character are refused, in
/// that order.
pub open spec fn name_verdict(s: Seq<char>) -> Result<(), NameError> {
    if s.len() == 0 || is_blank(s) {
        Err(NameError::Empty)
    } else if s == seq!['.'] || s == dot_dot() {
        Err(NameError::DotSegment)
    } else if contains_seq(s, dot_dot()) {
        Err(NameError::ContainsDotDot)
    } else if s.contains('/') || s.contains('\\') {
        Err(NameError::PathSeparator)
    } else if s.contains('\0') {
        Err(NameError::NullByte)
    } else {
        Ok(())
    }
}

fn has_char(v: &Vec<char>, c: char) -> (r: bool)
    ensures
        r == v@.contains(c),
{
    let mut i: usize = 0;
    while i < v.len()
        invariant
            i <= v@.len(),
            forall|k: int| 0 <= k < i ==> v@[k] != c,
        decreases v.len() - i,
    {
        if v[i] == c {
            assert(v@[i as int] == c);
            return true;
        }
        i = i + 1;
    }
    false
}

fn has_dot_dot(v: &Vec<char>) -> (r: bool)
    ensures
        r == contains_seq(v@, dot_dot()),
{
    let mut i: usize = 0;
    while i < v.len() && i + 1 < v.len()
        invariant
            i <= v@.len(),
            forall|k: int| 0 <= k < i ==> !crate::text::occurs_at(v@, dot_dot(), k),
        decreases v.len() - i,
    {
        if v[i] == '.' && v[i + 1] == '.' {
            assert(v@.subrange(i as int, i + 2) =~= dot_dot());
            assert(crate::text::occurs_at(v@, dot_dot(), i as int));
            return true;
        }
        proof {
            if crate::text::occurs_at(v@, dot_dot(), i as int) {
                assert(v@.subrange(i as int, i + 2)[0] == v@[i as int]);
                assert(v@.subrange(i as int, i + 2)[1] == v@[i + 1]);
            }
        }
        i = i + 1;
    }
    assert forall|k: int| #![trigger crate::text::occurs_at(v@, dot_dot(), k)] !crate::text::occurs_at(v@, dot_dot(), k) by {
        if 0 <= k < i {
        }
    }
    false
}

fn chars_blank(v: &Vec<char>) -> (r: bool)
    ensures
        r == is_blank(v@),
{
    let mut i: usize = 0;
    while i < v.len()
        invariant
            i <= v@.len(),
            forall|k: int| 0 <= k < i ==> is_white_space(#[trigger] v@[k]),
        decreases v.len() - i,
    {
        if !char_is_whitespace(v[i]) {
            return false;
        }
        i = i + 1;
    }
    true
}

/// Checks a string used as one file or folder name (project title, outline
/// key, chapter or folder name).
pub fn validate_storage_name(name: &str) -> (r: Result<(), NameError>)
    ensures
        r == name_verdict(name@),
{
    let v = chars_of(name);
    check_name_chars(&v)
}

/// `validate_storage_name` on a character sequence.
pub fn check_name_chars(v: &Vec<char>) -> (r: Result<(), NameError>)
    ensures
        r == name_verdict(v@),
{
    if v.len() == 0 || chars_blank(v) {
        return Err(NameError::Empty);
    }
    if (v.len() == 1 && v[0] == '.') || (v.len() == 2 && v[0] == '.' && v[1] == '.') {
        proof {
            if v@.len() == 1 {
                assert(v@ =~= seq!['.']);
            } else {
                assert(v@ =~= dot_dot());
            }
        }
        return Err(NameError::DotSegment);
    }
    proof {
        if v@ == seq!['.'] {
            assert(v@[0] == '.');
        }
        if v@ == dot_dot() {
            assert(v@[0] == '.' && v@[1] == '.');
        }
    }
    if has_dot_dot(v) {
        return Err(NameError::ContainsDotDot);
    }
    if has_char(v, '/') || has_char(v, '\\') {
        return Err(NameError::PathSeparator);
    }
    if has_char(v, '\0') {
        return Err(NameError::NullByte);
    }
    Ok(())
}

} // verus!
