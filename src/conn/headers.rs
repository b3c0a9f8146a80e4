//! Headers passed to a request.
use vstd::prelude::*;

verus! {

/// An ordered list of header pairs; a key may occur more than once.
#[derive(Debug, Clone)]
pub struct Headers(Vec<(&'static str, String)>);

/// The view of a header pair.
pub open spec fn pair_view(p: (&'static str, String)) -> (Seq<char>, Seq<char>) {
    (p.0@, p.1@)
}

impl View for Headers {
    type V = Seq<(Seq<char>, Seq<char>)>;

    closed spec fn view(&self) -> Seq<(Seq<char>, Seq<char>)> {
        self.0@.map_values(|p: (&'static str, String)| pair_view(p))
    }
}

impl Headers {
    /// Shortcut for a request without headers.
    pub fn none() -> (r: Option<Headers>)
        ensures
            r is None,
    {
        None
    }

    /// An empty list of headers.
    pub fn new() -> (r: Headers)
        ensures
            r@ == Seq::<(Seq<char>, Seq<char>)>::empty(),
    {
        let r = Headers(Vec::new());
        assert(r@ =~= Seq::<(Seq<char>, Seq<char>)>::empty());
        r
    }

    /// Adds a key=value pair after those already there.
    pub fn add(&mut self, key: &'static str, val: &str)
        ensures
            final(self)@ == old(self)@.push((key@, val@)),
    {
        let v = String::from_str(val);
        self.0.push((key, v));
        assert(self@ =~= old(self)@.push((key@, val@)));
    }

    /// Headers made of one pair.
    pub fn single(key: &'static str, val: &str) -> (r: Headers)
        ensures
            r@ == seq![(key@, val@)],
    {
        let mut h = Headers::new();
        h.add(key, val);
        assert(h@ =~= seq![(key@, val@)]);
        h
    }

    /// The number of pairs.
    pub fn len(&self) -> (r: usize)
        ensures
            r == self@.len(),
    {
        self.0.len()
    }

    /// The key of the pair at `i`.
    pub fn key(&self, i: usize) -> (r: &'static str)
        requires
            i < self@.len(),
        ensures
            r@ == self@[i as int].0,
    {
        self.0[i].0
    }

    /// The value of the pair at `i`.
    pub fn value(&self, i: usize) -> (r: &str)
        requires
            i < self@.len(),
        ensures
            r@ == self@[i as int].1,
    {
        self.0[i].1.as_str()
    }

    /// Appends all the pairs of `other`, in order.
    pub fn extend(&mut self, other: &Headers)
        ensures
            final(self)@ == old(self)@ + other@,
    {
        let mut i: usize = 0;
        while i < other.len()
            invariant
                i <= other@.len(),
                self@ == old(self)@ + other@.subrange(0, i as int),
            decreases other@.len() - i,
        {
            self.add(other.key(i), other.value(i));
            assert(other@.subrange(0, i + 1 as int) =~= other@.subrange(0, i as int).push(
                other@[i as int],
            ));
            i += 1;
        }
        assert(other@.subrange(0, other@.len() as int) =~= other@);
    }
}

impl Default for Headers {
    fn default() -> (r: Headers)
        ensures
            r@ == Seq::<(Seq<char>, Seq<char>)>::empty(),
    {
        Headers::new()
    }
}

impl IntoIterator for Headers {
    type Item = (&'static str, String);
    type IntoIter = std::vec::IntoIter<(&'static str, String)>;

    fn into_iter(self) -> Self::IntoIter {
        self.0.into_iter()
    }
}

} // verus!
