//! Glyph and layer names.

use vstd::prelude::*;

use crate::error::NamingError;

verus! {

/// True when `c` is one of the control characters that a name may not hold:
/// `0x00..=0x1F`, `0x7F` and `0x80..=0x9F`.
pub open spec fn is_control_char(c: char) -> bool {
    (c as u32) <= 0x1f || (c as u32) == 0x7f || (0x80 <= (c as u32) && (c as u32) <= 0x9f)
}

/// A name is valid when it is non-empty and holds no control character.
pub open spec fn spec_is_valid_name(s: Seq<char>) -> bool {
    s.len() > 0 && forall|i: int| 0 <= i < s.len() ==> !is_control_char(#[trigger] s[i])
}

/// Returns whether `name` may be used as a glyph or layer name.
pub fn is_valid(name: &str) -> (res: bool)
    ensures
        res == spec_is_valid_name(name@),
{
    let n = name.unicode_len();
    if n == 0 {
        return false;
    }
    let mut i: usize = 0;
    while i < n
        invariant
            n == name@.len(),
            0 <= i <= n,
            forall|j: int| 0 <= j < i ==> !is_control_char(#[trigger] name@[j]),
        decreases n - i,
    {
        let c = name.get_char(i);
        let v = c as u32;
        if v <= 0x1f || v == 0x7f || (0x80 <= v && v <= 0x9f) {
            return false;
        }
        i += 1;
    }
    true
}

/// A name used to identify a glyph or a layer.
///
/// A name is at least one character long and holds no control characters
/// (`0x00..=0x1F`, `0x7F` and `0x80..=0x9F`).
#[derive(Debug, PartialEq, Eq, PartialOrd, Ord, Hash)]
pub struct Name {
    inner: String,
}

impl View for Name {
    type V = Seq<char>;

    closed spec fn view(&self) -> Seq<char> {
        self.inner@
    }
}

impl PartialEq<&str> for Name {
    fn eq(&self, other: &&str) -> (res: bool) {
        crate::text::str_eq(self.as_str(), *other)
    }
}

impl vstd::std_specs::cmp::PartialEqSpecImpl<&str> for Name {
    open spec fn obeys_eq_spec() -> bool {
        true
    }

    open spec fn eq_spec(&self, other: &&str) -> bool {
        self@ == (*other)@
    }
}

impl PartialEq<Name> for &str {
    fn eq(&self, other: &Name) -> (res: bool) {
        crate::text::str_eq(*self, other.as_str())
    }
}

impl vstd::std_specs::cmp::PartialEqSpecImpl<Name> for &str {
    open spec fn obeys_eq_spec() -> bool {
        true
    }

    open spec fn eq_spec(&self, other: &Name) -> bool {
        (*self)@ == other@
    }
}

impl Clone for Name {
    fn clone(&self) -> (res: Self)
        ensures
            res@ == self@,
    {
        proof {
            use_type_invariant(self);
        }
        Name { inner: self.inner.clone() }
    }
}

impl Name {
    #[verifier::type_invariant]
    closed spec fn inv(self) -> bool {
        spec_is_valid_name(self.inner@)
    }

    /// Creates a new `Name` if the given value isn't empty and contains no control characters.
    pub fn new(name: &str) -> (res: Result<Name, NamingError>)
        ensures
            spec_is_valid_name(name@) ==> (res matches Ok(n) && n@ == name@),
            !spec_is_valid_name(name@) ==> (res matches Err(NamingError::Invalid(s)) && s@ == name@),
    {
        if is_valid(name) {
            Ok(Name { inner: name.to_owned() })
        } else {
            Err(NamingError::Invalid(name.to_owned()))
        }
    }

    /// Creates a new `Name` from a string known to be valid.
    pub fn new_raw(name: &str) -> (res: Name)
        requires
            spec_is_valid_name(name@),
        ensures
            res@ == name@,
    {
        Name { inner: name.to_owned() }
    }

    /// Returns a string slice containing the name.
    pub fn as_str(&self) -> (res: &str)
        ensures
            res@ == self@,
            spec_is_valid_name(res@),
    {
        proof {
            use_type_invariant(self);
        }
        self.inner.as_str()
    }
}

} // verus!
