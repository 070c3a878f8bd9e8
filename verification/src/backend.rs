//! The flat key-value store that programs are persisted into.

use vstd::prelude::*;

verus! {

/// Whether the enumeration order `keys` lists exactly the keys that `map`
/// holds, each once.
pub open spec fn consistent(map: Map<Seq<char>, Seq<char>>, keys: Seq<Seq<char>>) -> bool {
    &&& keys.no_duplicates()
    &&& forall|k: Seq<char>| map.contains_key(k) <==> keys.contains(k)
}

/// A flat mapping from string keys to string values, such as a browser's
/// local storage, a directory of files or a map in memory.
///
/// A backend that is [`faithful`](Backend::faithful) behaves as the mapping
/// that its view gives: that is what the clauses below say, and what the
/// program store on top of it is proved from.  An operation on it may still
/// fail, with the backend's own diagnostic text, unless the backend is also
/// [`reliable`](Backend::reliable); a failed operation leaves it as it was.
///
/// An implementation that leaves `faithful` at its default vouches for
/// nothing, and nothing is claimed of the program store on top of it but what
/// holds of every backend.
pub trait Backend: Sized {
    /// Whether this backend vouches for behaving as the mapping that
    /// [`view`](Backend::view) and [`keys`](Backend::keys) give.
    open spec fn faithful(&self) -> bool {
        false
    }

    /// The mapping that the backend holds.
    open spec fn view(&self) -> Map<Seq<char>, Seq<char>> {
        Map::empty()
    }

    /// The keys that the backend holds, in the order in which
    /// [`key`](Backend::key) enumerates them.
    open spec fn keys(&self) -> Seq<Seq<char>> {
        Seq::empty()
    }

    /// Whether no operation on this backend ever fails.
    open spec fn reliable(&self) -> bool {
        false
    }

    /// Returns the number of keys in the backend.
    fn length(&self) -> (r: Result<usize, String>)
        requires
            self.faithful() ==> consistent(self@, self.keys()),
        ensures
            self.faithful() ==> (r matches Ok(n) ==> n == self.keys().len()),
            self.faithful() && self.reliable() ==> r is Ok,
    ;

    /// Returns the key at position `index` of the enumeration, or `None`
    /// past its end.
    fn key(&self, index: usize) -> (r: Result<Option<String>, String>)
        requires
            self.faithful() ==> consistent(self@, self.keys()),
        ensures
            self.faithful() ==> (r matches Ok(Some(k)) ==> index < self.keys().len() && k@
                == self.keys()[index as int]),
            self.faithful() ==> (r matches Ok(None) ==> index >= self.keys().len()),
            self.faithful() && self.reliable() ==> r is Ok,
    ;

    /// Returns the value stored under `key`, or `None` if there is none.
    fn get(&self, key: &str) -> (r: Result<Option<String>, String>)
        requires
            self.faithful() ==> consistent(self@, self.keys()),
        ensures
            self.faithful() ==> (r matches Ok(Some(v)) ==> self@.contains_key(key@) && v@
                == self@[key@]),
            self.faithful() ==> (r matches Ok(None) ==> !self@.contains_key(key@)),
            self.faithful() && self.reliable() ==> r is Ok,
    ;

    /// Stores `value` under `key`, replacing any previous value.
    fn set(&mut self, key: &str, value: &str) -> (r: Result<(), String>)
        requires
            old(self).faithful() ==> consistent(old(self)@, old(self).keys()),
        ensures
            final(self).faithful() == old(self).faithful(),
            final(self).reliable() == old(self).reliable(),
            final(self).faithful() ==> consistent(final(self)@, final(self).keys()),
            final(self).faithful() ==> (r is Ok ==> final(self)@ == old(self)@.insert(
                key@,
                value@,
            )),
            final(self).faithful() ==> (r is Err ==> final(self)@ == old(self)@
                && final(self).keys() == old(self).keys()),
            old(self).faithful() && old(self).reliable() ==> r is Ok,
    ;

    /// Removes `key` and its value, if the backend holds it.
    fn delete(&mut self, key: &str) -> (r: Result<(), String>)
        requires
            old(self).faithful() ==> consistent(old(self)@, old(self).keys()),
        ensures
            final(self).faithful() == old(self).faithful(),
            final(self).reliable() == old(self).reliable(),
            final(self).faithful() ==> consistent(final(self)@, final(self).keys()),
            final(self).faithful() ==> (r is Ok ==> final(self)@ == old(self)@.remove(key@)),
            final(self).faithful() ==> (r is Err ==> final(self)@ == old(self)@
                && final(self).keys() == old(self).keys()),
            old(self).faithful() && old(self).reliable() ==> r is Ok,
    ;
}

} // verus!
