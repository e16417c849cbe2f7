//! The variable store: the shell's own map from names to values.

use vstd::hash_map::StringHashMap;
use vstd::prelude::*;

verus! {

/// The variables of a shell. Each name holds one value.
pub struct Variable(StringHashMap<String>);

/// What `old` becomes with `val` appended to it behind a colon.
pub open spec fn appended(old: Seq<char>, val: Seq<char>) -> Seq<char> {
    old.push(':') + val
}

impl View for Variable {
    type V = Map<Seq<char>, Seq<char>>;

    /// The store as a map from names to values.
    closed spec fn view(&self) -> Map<Seq<char>, Seq<char>> {
        self.0@.map_values(|val: String| val@)
    }
}

impl Variable {
    /// A store without variables.
    pub fn new() -> (store: Self)
        ensures
            store@ == Map::<Seq<char>, Seq<char>>::empty(),
    {
        let store = Self(StringHashMap::new());
        assert(store@ =~= Map::<Seq<char>, Seq<char>>::empty());
        store
    }

    /// Forgets `key`, whatever it held.
    pub fn remove(&mut self, key: String)
        ensures
            final(self)@ == old(self)@.remove(key@),
    {
        self.0.remove(key.as_str());
        assert(self@ =~= old(self)@.remove(key@));
    }

    /// Adds `val` to what `key` holds, behind a colon; a `key` that holds
    /// nothing gets `val` alone.
    pub fn append(&mut self, key: String, val: String)
        ensures
            final(self)@ == old(self)@.insert(
                key@,
                if old(self)@.contains_key(key@) {
                    appended(old(self)@[key@], val@)
                } else {
                    val@
                },
            ),
    {
        let joined = match self.0.get(key.as_str()) {
            Some(string) => {
                let mut joined = string.clone();
                joined.push(':');
                joined.append(val.as_str());
                joined
            },
            None => val,
        };
        self.insert(key, joined);
    }

    /// Gives `key` the value `val`, in place of what it held.
    pub fn insert(&mut self, key: String, val: String)
        ensures
            final(self)@ == old(self)@.insert(key@, val@),
    {
        self.0.insert(key, val);
        assert(self@ =~= old(self)@.insert(key@, val@));
    }

    /// What `key` holds, if it holds anything.
    pub fn get(&self, key: String) -> (val: Option<&str>)
        ensures
            match val {
                Some(string) => self@.contains_key(key@) && string@ == self@[key@],
                None => !self@.contains_key(key@),
            },
    {
        match self.0.get(key.as_str()) {
            Some(string) => Some(string.as_str()),
            None => None,
        }
    }
}

} // verus!
