//! Identifiers of objects.
use vstd::prelude::*;

verus! {

/// The unique identifier given to an object upon creation.
#[derive(Debug, Clone, PartialEq, Eq, PartialOrd)]
pub struct Id(String);

impl View for Id {
    type V = Seq<char>;

    closed spec fn view(&self) -> Seq<char> {
        self.0@
    }
}

impl Id {
    /// An identifier with the given text.
    pub fn from_text(s: &str) -> (r: Id)
        ensures
            r@ == s@,
    {
        Id(String::from_str(s))
    }

    /// The identifier as text.
    pub fn as_str(&self) -> (r: &str)
        ensures
            r@ == self@,
    {
        self.0.as_str()
    }

    /// The identifier as an owned string.
    pub fn to_string(&self) -> (r: String)
        ensures
            r@ == self@,
    {
        String::from_str(self.0.as_str())
    }
}

impl From<String> for Id {
    fn from(s: String) -> (r: Id) {
        Id(s)
    }
}

impl vstd::std_specs::convert::FromSpecImpl<String> for Id {
    open spec fn obeys_from_spec() -> bool {
        true
    }

    closed spec fn from_spec(s: String) -> Id {
        Id(s)
    }
}

impl From<&String> for Id {
    fn from(s: &String) -> (r: Id) {
        Id(s.clone())
    }
}

impl vstd::std_specs::convert::FromSpecImpl<&String> for Id {
    open spec fn obeys_from_spec() -> bool {
        true
    }

    closed spec fn from_spec(s: &String) -> Id {
        Id(*s)
    }
}

impl From<&str> for Id {
    fn from(s: &str) -> (r: Id) {
        Id::from_text(s)
    }
}

impl vstd::std_specs::convert::FromSpecImpl<&str> for Id {
    /// Two strings with the same text are not known to be the same value, so nothing is
    /// claimed of `from` here beyond what `Id::from_text` states.
    open spec fn obeys_from_spec() -> bool {
        false
    }

    closed spec fn from_spec(s: &str) -> Id {
        arbitrary()
    }
}

impl AsRef<str> for Id {
    fn as_ref(&self) -> (r: &str) {
        self.0.as_str()
    }
}

} // verus!
