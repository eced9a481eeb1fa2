//! The table of globals.

use vstd::prelude::*;
use vstd::hash_map::StringHashMap;
use crate::value::{Value, ValueView};

verus! {

/// The globals of a machine: a value for each defined name.
pub struct NameSpace {
    table: StringHashMap<Value>,
}

impl View for NameSpace {
    type V = Map<Seq<char>, ValueView>;

    closed spec fn view(&self) -> Map<Seq<char>, ValueView> {
        self.table@.map_values(|v: Value| v@)
    }
}

impl NameSpace {
    pub fn new() -> (r: NameSpace)
        ensures
            r@ == Map::<Seq<char>, ValueView>::empty(),
    {
        let r = Self { table: StringHashMap::new() };
        assert(r@ =~= Map::<Seq<char>, ValueView>::empty());
        r
    }

    /// Binds `key` to `value`, whether or not it was bound before.
    pub fn insert(&mut self, key: String, value: Value)
        ensures
            final(self)@ == old(self)@.insert(key@, value@),
    {
        self.table.insert(key, value);
        assert(self@ =~= old(self)@.insert(key@, value@));
    }

    /// Whether `key` is bound.
    pub fn contains(&self, key: &str) -> (r: bool)
        ensures
            r == self@.contains_key(key@),
    {
        self.table.contains_key(key)
    }

    /// A copy of the value bound to `key`, if any.
    pub fn get(&self, key: &str) -> (r: Option<Value>)
        ensures
            self@.contains_key(key@) ==> r.is_some() && r.unwrap()@ == self@[key@],
            !self@.contains_key(key@) ==> r.is_none(),
    {
        match self.table.get(key) {
            Some(v) => Some(v.copy()),
            None => None,
        }
    }
}

} // verus!
