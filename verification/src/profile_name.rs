//! Validated profile names.

use vstd::prelude::*;
use vstd::string::*;

verus! {

/// Why a candidate was refused as a profile name.
#[derive(Clone, Copy, Debug, PartialEq, Eq, Structural)]
pub enum NameError {
    /// The candidate has no characters.
    Empty,
    /// The candidate holds `/` or `\`.
    PathSeparator,
    /// The candidate is `.` or holds `..`.
    ParentReference,
    /// The candidate holds a character that common filesystems forbid.
    ReservedCharacter,
}

/// `/` and `\` part the segments of a path.
pub open spec fn is_separator(c: char) -> bool {
    c == '/' || c == '\\'
}

/// Characters that no file name may hold on some common filesystem:
/// `< > : " | ? *` and the control characters.
pub open spec fn is_reserved(c: char) -> bool {
    c == '<' || c == '>' || c == ':' || c == '"' || c == '|' || c == '?' || c == '*' || (c as u32)
        < 32
}

/// Some character of `s` is a path separator.
pub open spec fn has_separator(s: Seq<char>) -> bool {
    exists|i: int| 0 <= i < s.len() && is_separator(#[trigger] s[i])
}

/// Some character of `s` is reserved.
pub open spec fn has_reserved(s: Seq<char>) -> bool {
    exists|i: int| 0 <= i < s.len() && is_reserved(#[trigger] s[i])
}

/// Two dots in a row at position `i`.
pub open spec fn dots_at(s: Seq<char>, i: int) -> bool {
    0 <= i && i + 1 < s.len() && s[i] == '.' && s[i + 1] == '.'
}

/// The candidate is the current-directory segment, or holds a
/// parent-directory reference.
pub open spec fn has_parent_reference(s: Seq<char>) -> bool {
    (s.len() == 1 && s[0] == '.') || exists|i: int| #[trigger] dots_at(s, i)
}

/// A name that is safe as exactly one path segment.
pub open spec fn valid_name(s: Seq<char>) -> bool {
    &&& s.len() > 0
    &&& !has_separator(s)
    &&& !has_parent_reference(s)
    &&& !has_reserved(s)
}

/// The first rule that `s` breaks, if any.
pub open spec fn name_fault(s: Seq<char>) -> Option<NameError> {
    if s.len() == 0 {
        Some(NameError::Empty)
    } else if has_separator(s) {
        Some(NameError::PathSeparator)
    } else if has_parent_reference(s) {
        Some(NameError::ParentReference)
    } else if has_reserved(s) {
        Some(NameError::ReservedCharacter)
    } else {
        None
    }
}

/// An ASCII letter, a digit or a hyphen.
pub open spec fn is_plain(c: char) -> bool {
    ('a' <= c && c <= 'z') || ('A' <= c && c <= 'Z') || ('0' <= c && c <= '9') || c == '-'
}

/// A profile name: a string that passed validation.
#[derive(Debug)]
pub struct ProfileName {
    name: String,
}

impl View for ProfileName {
    type V = Seq<char>;

    closed spec fn view(&self) -> Seq<char> {
        self.name@
    }
}

impl Clone for ProfileName {
    fn clone(&self) -> (r: Self)
        ensures
            r@ == self@,
    {
        proof {
            use_type_invariant(self);
        }
        ProfileName { name: self.name.clone() }
    }
}

fn is_separator_char(c: char) -> (b: bool)
    ensures
        b == is_separator(c),
{
    c == '/' || c == '\\'
}

fn is_reserved_char(c: char) -> (b: bool)
    ensures
        b == is_reserved(c),
{
    c == '<' || c == '>' || c == ':' || c == '"' || c == '|' || c == '?' || c == '*' || (c as u32)
        < 32
}

fn find_separator(s: &str) -> (b: bool)
    ensures
        b == has_separator(s@),
{
    let n: usize = s.unicode_len();
    let mut i: usize = 0;
    while i < n
        invariant
            n == s@.len(),
            i <= n,
            forall|j: int| 0 <= j < i ==> !is_separator(#[trigger] s@[j]),
        decreases n - i,
    {
        if is_separator_char(s.get_char(i)) {
            return true;
        }
        i += 1;
    }
    false
}

fn find_reserved(s: &str) -> (b: bool)
    ensures
        b == has_reserved(s@),
{
    let n: usize = s.unicode_len();
    let mut i: usize = 0;
    while i < n
        invariant
            n == s@.len(),
            i <= n,
            forall|j: int| 0 <= j < i ==> !is_reserved(#[trigger] s@[j]),
        decreases n - i,
    {
        if is_reserved_char(s.get_char(i)) {
            return true;
        }
        i += 1;
    }
    false
}

fn find_parent_reference(s: &str) -> (b: bool)
    ensures
        b == has_parent_reference(s@),
{
    let n: usize = s.unicode_len();
    if n == 0 {
        return false;
    }
    if n == 1 {
        return s.get_char(0) == '.';
    }
    let mut i: usize = 0;
    while i + 1 < n
        invariant
            n == s@.len(),
            n >= 2,
            i + 1 <= n,
            forall|j: int| 0 <= j < i ==> !dots_at(s@, j),
        decreases n - i,
    {
        if s.get_char(i) == '.' && s.get_char(i + 1) == '.' {
            assert(dots_at(s@, i as int));
            return true;
        }
        i += 1;
    }
    false
}

impl ProfileName {
    #[verifier::type_invariant]
    spec fn well_formed(&self) -> bool {
        valid_name(self.name@)
    }

    /// Validates `candidate`. Succeeds exactly on the valid names, and
    /// otherwise reports the first rule that the candidate breaks.
    pub fn new(candidate: &str) -> (r: Result<ProfileName, NameError>)
        ensures
            r is Ok <==> valid_name(candidate@),
            r matches Ok(n) ==> n@ == candidate@,
            r matches Err(e) ==> name_fault(candidate@) == Some(e),
    {
        if candidate.unicode_len() == 0 {
            return Err(NameError::Empty);
        }
        if find_separator(candidate) {
            return Err(NameError::PathSeparator);
        }
        if find_parent_reference(candidate) {
            return Err(NameError::ParentReference);
        }
        if find_reserved(candidate) {
            return Err(NameError::ReservedCharacter);
        }
        Ok(ProfileName { name: String::from_str(candidate) })
    }

    /// The validated string.
    pub fn as_str(&self) -> (r: &str)
        ensures
            r@ == self@,
            valid_name(r@),
    {
        proof {
            use_type_invariant(self);
        }
        self.name.as_str()
    }
}

/// A candidate is valid exactly when it breaks no rule. The empty
/// candidate is not valid, nor is any that holds a path separator or a
/// parent-directory reference.
pub proof fn law_name_rejections(s: Seq<char>)
    ensures
        s.len() == 0 ==> !valid_name(s),
        has_separator(s) ==> !valid_name(s),
        has_parent_reference(s) ==> !valid_name(s),
        valid_name(s) <==> name_fault(s).is_none(),
{
}

/// Every non-empty name made of ASCII letters, digits and hyphens is valid.
pub proof fn law_plain_names_valid(s: Seq<char>)
    requires
        s.len() > 0,
        forall|i: int| 0 <= i < s.len() ==> is_plain(#[trigger] s[i]),
    ensures
        valid_name(s),
{
    assert(!has_separator(s));
    assert(!has_reserved(s)) by {
        assert forall|i: int| 0 <= i < s.len() implies !is_reserved(#[trigger] s[i]) by {
            assert(is_plain(s[i]));
        }
    }
    assert(!has_parent_reference(s)) by {
        assert forall|i: int| !#[trigger] dots_at(s, i) by {
            if 0 <= i && i + 1 < s.len() {
                assert(is_plain(s[i]));
            }
        }
        if s.len() == 1 {
            assert(is_plain(s[0]));
        }
    }
}

} // verus!
