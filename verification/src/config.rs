//! Validated configuration values for a renaming run.

use vstd::prelude::*;

verus! {

/// The delimiter placed between the numeric prefix and the original file
/// name. It is always non-empty: an empty delimiter is rejected when the
/// configuration is built.
pub struct Delim {
    s: String,
}

impl View for Delim {
    type V = Seq<char>;

    closed spec fn view(&self) -> Seq<char> {
        self.s@
    }
}

impl Delim {
    /// Accepts any non-empty delimiter string and rejects the empty one.
    pub fn new(s: String) -> (r: Option<Delim>)
        ensures
            r is Some <==> s@.len() > 0,
            r matches Some(d) ==> d@ == s@,
    {
        if s.as_str().unicode_len() == 0 {
            None
        } else {
            Some(Delim { s })
        }
    }

    /// The delimiter itself.
    pub fn as_str(&self) -> (r: &str)
        ensures
            r@ == self@,
    {
        self.s.as_str()
    }
}

} // verus!
