//! Configuration bags passed to host operations.
//!
//! A bag is an ordered list of string keys and boundary values; a later
//! write to a key overwrites an earlier one when the bag is read.

use vstd::prelude::*;

verus! {

/// A value that may cross the host boundary inside a configuration bag.
#[derive(Debug, PartialEq, Eq)]
pub enum ConfigValue {
    Boolean(bool),
    Number(i64),
    Text(String),
    TextList(Vec<String>),
}

/// A property bag handed to host operations: string keys mapped to
/// boundary values, built incrementally.
#[derive(Debug)]
pub struct ConfigObject {
    pub entries: Vec<(String, ConfigValue)>,
}

/// The mapping that an entry list denotes: a later entry for a key wins.
pub open spec fn map_of_entries(s: Seq<(String, ConfigValue)>) -> Map<Seq<char>, ConfigValue>
    decreases s.len(),
{
    if s.len() == 0 {
        Map::empty()
    } else {
        map_of_entries(s.drop_last()).insert(s.last().0@, s.last().1)
    }
}

proof fn lemma_map_of_last_match(s: Seq<(String, ConfigValue)>, k: Seq<char>, i: int)
    requires
        0 <= i < s.len(),
        s[i].0@ == k,
        forall|j: int| i < j < s.len() ==> s[j].0@ != k,
    ensures
        map_of_entries(s).contains_key(k),
        map_of_entries(s)[k] == s[i].1,
    decreases s.len(),
{
    if i < s.len() - 1 {
        lemma_map_of_last_match(s.drop_last(), k, i);
    }
}

proof fn lemma_map_of_no_match(s: Seq<(String, ConfigValue)>, k: Seq<char>)
    requires
        forall|j: int| 0 <= j < s.len() ==> s[j].0@ != k,
    ensures
        !map_of_entries(s).contains_key(k),
    decreases s.len(),
{
    if s.len() > 0 {
        lemma_map_of_no_match(s.drop_last(), k);
    }
}

impl ConfigObject {
    /// The mapping this bag denotes.
    pub open spec fn as_map(&self) -> Map<Seq<char>, ConfigValue> {
        map_of_entries(self.entries@)
    }

    /// The empty bag.
    pub fn new() -> (bag: Self)
        ensures
            bag.entries@ == Seq::<(String, ConfigValue)>::empty(),
            bag.as_map() == Map::<Seq<char>, ConfigValue>::empty(),
    {
        ConfigObject { entries: Vec::new() }
    }

    /// Write `key`; a later write to the same key overwrites this one.
    pub fn set(&mut self, key: String, value: ConfigValue)
        ensures
            final(self).entries@ == old(self).entries@.push((key, value)),
            final(self).as_map() == old(self).as_map().insert(key@, value),
    {
        self.entries.push((key, value));
        proof {
            assert(self.entries@.drop_last() =~= old(self).entries@);
        }
    }

    /// Build a bag by writing each pair in argument order.
    pub fn from_pairs(pairs: Vec<(String, ConfigValue)>) -> (bag: Self)
        ensures
            bag.entries@ == pairs@,
            bag.as_map() == map_of_entries(pairs@),
    {
        let mut rest = pairs;
        let mut bag = ConfigObject::new();
        let ghost all = rest@;
        while rest.len() > 0
            invariant
                bag.entries@ + rest@ == all,
            decreases rest.len(),
        {
            let pair = rest.remove(0);
            bag.entries.push(pair);
            proof {
                assert(bag.entries@ + rest@ =~= all);
            }
        }
        proof {
            assert(bag.entries@ =~= all);
        }
        bag
    }

    /// Read a key: the value of the last write to it, if any.
    pub fn get(&self, key: &String) -> (r: Option<&ConfigValue>)
        ensures
            match r {
                Some(v) => self.as_map().contains_key(key@) && *v == self.as_map()[key@],
                None => !self.as_map().contains_key(key@),
            },
    {
        let mut i: usize = self.entries.len();
        while i > 0
            invariant
                i <= self.entries@.len(),
                forall|j: int| i <= j < self.entries@.len() ==> self.entries@[j].0@ != key@,
            decreases i,
        {
            i = i - 1;
            if self.entries[i].0 == *key {
                proof {
                    lemma_map_of_last_match(self.entries@, key@, i as int);
                }
                return Some(&self.entries[i].1);
            }
        }
        proof {
            lemma_map_of_no_match(self.entries@, key@);
        }
        None
    }
}

} // verus!
