//! The scope: the one table of variables that a run of a program has.
use crate::analisador_semantico::value::{
    copy_value, entries_view, find_entry, lookup, lookup_with_entry, put_entry, Val, Value,
};
use vstd::prelude::*;

verus! {

/// The variables of a run, each with its value.
#[derive(Debug)]
pub struct Scope {
    entries: Vec<(String, Value)>,
}

/// The map that a list of entries stands for: each key leads to the value of
/// the first entry that has it.
pub open spec fn map_of(e: Seq<(Seq<char>, Val)>) -> Map<Seq<char>, Val> {
    Map::new(|k: Seq<char>| lookup(e, k) is Some, |k: Seq<char>| lookup(e, k)->0)
}

impl View for Scope {
    type V = Map<Seq<char>, Val>;

    closed spec fn view(&self) -> Map<Seq<char>, Val> {
        map_of(entries_view(self.entries@))
    }
}

impl Scope {
    /// The scope in which no variable is bound.
    pub fn new() -> (r: Scope)
        ensures
            r@ == Map::<Seq<char>, Val>::empty(),
    {
        let r = Scope { entries: Vec::new() };
        assert(r@ =~= Map::<Seq<char>, Val>::empty());
        r
    }

    /// A copy of the value bound to `name`, if one is.
    pub fn get(&self, name: &str) -> (r: Option<Value>)
        ensures
            match r {
                Some(v) => self@.contains_key(name@) && v@ == self@[name@],
                None => !self@.contains_key(name@),
            },
    {
        let key = name.to_owned();
        let at = find_entry(&self.entries, &key);
        if at < self.entries.len() {
            Some(copy_value(&self.entries[at].1))
        } else {
            None
        }
    }

    /// Binds `name` to `value`, whether or not it was bound before.
    pub fn set(&mut self, name: String, value: Value)
        ensures
            final(self)@ == old(self)@.insert(name@, value@),
    {
        put_entry(&mut self.entries, name, value);
        proof {
            let before = entries_view(old(self).entries@);
            let after = entries_view(self.entries@);
            assert forall|k: Seq<char>| lookup(after, k) == (if k == name@ {
                Some(value@)
            } else {
                lookup(before, k)
            }) by {
                lookup_with_entry(before, name@, value@, k);
            }
            assert(self@ =~= old(self)@.insert(name@, value@));
        }
    }
}

} // verus!
