//! Items of filter queries.
use vstd::prelude::*;

verus! {

/// Types that implement `Filter` can be used in filter queries.
pub trait Filter {
    fn query_item(&self) -> FilterItem;
}

/// One item of a filter query: a key and a value.
#[derive(Debug, Clone)]
pub struct FilterItem {
    key: &'static str,
    value: String,
}

impl FilterItem {
    pub closed spec fn key_view(&self) -> Seq<char> {
        self.key@
    }

    pub closed spec fn value_view(&self) -> Seq<char> {
        self.value@
    }

    pub fn new(key: &'static str, value: String) -> (r: FilterItem)
        ensures
            r.key_view() == key@,
            r.value_view() == value@,
    {
        FilterItem { key, value }
    }

    pub fn key(&self) -> (r: &'static str)
        ensures
            r@ == self.key_view(),
    {
        self.key
    }

    /// The value as text.
    pub fn to_string(&self) -> (r: String)
        ensures
            r@ == self.value_view(),
    {
        String::from_str(self.value.as_str())
    }
}

impl From<(&'static str, String)> for FilterItem {
    fn from(it: (&'static str, String)) -> (r: FilterItem) {
        FilterItem { key: it.0, value: it.1 }
    }
}

impl vstd::std_specs::convert::FromSpecImpl<(&'static str, String)> for FilterItem {
    open spec fn obeys_from_spec() -> bool {
        true
    }

    closed spec fn from_spec(it: (&'static str, String)) -> FilterItem {
        FilterItem { key: it.0, value: it.1 }
    }
}

} // verus!
