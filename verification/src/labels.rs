//! The label table: a mapping from label names to instruction indices, built
//! by the assembler's first pass and immutable during resolution.

use vstd::prelude::*;

use crate::strnum::str_eq;

verus! {

/// The mapping denoted by a sequence of (name, index) entries, where a later
/// entry for the same name shadows an earlier one.
pub open spec fn entries_map(s: Seq<(String, usize)>) -> Map<Seq<char>, usize>
    decreases s.len(),
{
    if s.len() == 0 {
        Map::empty()
    } else {
        entries_map(s.drop_last()).insert(s.last().0@, s.last().1)
    }
}

/// A table of declared labels, viewed as a map from label name to the index
/// of the instruction that follows the declaration. A later declaration of
/// the same name replaces the earlier one.
#[derive(Debug, PartialEq)]
pub struct LabelTable {
    entries: Vec<(String, usize)>,
}

impl View for LabelTable {
    type V = Map<Seq<char>, usize>;

    closed spec fn view(&self) -> Map<Seq<char>, usize> {
        entries_map(self.entries@)
    }
}

impl LabelTable {
    /// An empty table.
    pub fn new() -> (t: LabelTable)
        ensures
            t@ == Map::<Seq<char>, usize>::empty(),
    {
        LabelTable { entries: Vec::new() }
    }

    /// Records `name` as declared at instruction index `index`, replacing any
    /// earlier declaration of the same name.
    pub fn insert(&mut self, name: String, index: usize)
        ensures
            final(self)@ == old(self)@.insert(name@, index),
    {
        let ghost before = self.entries@;
        self.entries.push((name, index));
        proof {
            assert(self.entries@.drop_last() =~= before);
        }
    }

    /// Looks a label up by name.
    pub fn lookup(&self, name: &str) -> (r: Option<usize>)
        ensures
            match r {
                Some(index) => self@.contains_key(name@) && self@[name@] == index,
                None => !self@.contains_key(name@),
            },
    {
        let mut i = self.entries.len();
        proof {
            assert(self.entries@.take(i as int) =~= self.entries@);
        }
        while i > 0
            invariant
                i <= self.entries@.len(),
                self@.contains_key(name@) == entries_map(self.entries@.take(i as int)).contains_key(
                    name@,
                ),
                self@.contains_key(name@) ==> self@[name@] == entries_map(
                    self.entries@.take(i as int),
                )[name@],
            decreases i,
        {
            let entry = &self.entries[i - 1];
            proof {
                assert(self.entries@.take(i as int).drop_last() =~= self.entries@.take(i - 1));
                assert(self.entries@.take(i as int).last() == self.entries@[i - 1]);
            }
            if str_eq(entry.0.as_str(), name) {
                return Some(entry.1);
            }
            i = i - 1;
        }
        proof {
            assert(self.entries@.take(0) =~= Seq::<(String, usize)>::empty());
        }
        None
    }
}

} // verus!
