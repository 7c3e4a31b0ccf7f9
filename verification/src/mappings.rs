//! A key→command table, one per mode.

use crate::command::{clone_command, CmdView, Command};
use crate::input::Key;
use vstd::prelude::*;

verus! {

/// The map an entry list denotes: later entries shadow earlier ones.
pub open spec fn assoc_map(s: Seq<(Key, Command)>) -> Map<Key, CmdView>
    decreases s.len(),
{
    if s.len() == 0 {
        Map::empty()
    } else {
        assoc_map(s.drop_last()).insert(s.last().0, s.last().1@)
    }
}

/// A key→command table.
pub struct Mappings {
    entries: Vec<(Key, Command)>,
}

impl View for Mappings {
    type V = Map<Key, CmdView>;

    closed spec fn view(&self) -> Map<Key, CmdView> {
        assoc_map(self.entries@)
    }
}

/// In an entry list, the last entry for a key decides its binding.
proof fn lemma_assoc_found(s: Seq<(Key, Command)>, k: Key, i: int)
    requires
        0 <= i < s.len(),
        s[i].0 == k,
        forall|j: int| i < j < s.len() ==> (#[trigger] s[j]).0 != k,
    ensures
        assoc_map(s).contains_key(k),
        assoc_map(s)[k] == s[i].1@,
    decreases s.len(),
{
    if i < s.len() - 1 {
        lemma_assoc_found(s.drop_last(), k, i);
    }
}

/// A key no entry holds is not in the map.
proof fn lemma_assoc_absent(s: Seq<(Key, Command)>, k: Key)
    requires
        forall|j: int| 0 <= j < s.len() ==> (#[trigger] s[j]).0 != k,
    ensures
        !assoc_map(s).contains_key(k),
    decreases s.len(),
{
    if s.len() > 0 {
        lemma_assoc_absent(s.drop_last(), k);
    }
}

impl Mappings {
    /// An empty table.
    pub fn new() -> (m: Mappings)
        ensures
            m@ == Map::<Key, CmdView>::empty(),
    {
        Mappings { entries: Vec::new() }
    }

    /// Binds `key` to `command`, replacing any earlier binding.
    pub fn insert(&mut self, key: Key, command: Command)
        ensures
            final(self)@ == old(self)@.insert(key, command@),
    {
        let ghost s0 = self.entries@;
        let ghost cv = command@;
        self.entries.push((key, command));
        proof {
            assert(self.entries@.drop_last() =~= s0);
            assert(self.entries@.last().0 == key);
            assert(self.entries@.last().1@ == cv);
        }
    }

    /// The command bound to `key`, if any.
    pub fn get(&self, key: &Key) -> (r: Option<Command>)
        ensures
            match r {
                Some(c) => self@.contains_key(*key) && self@[*key] == c@,
                None => !self@.contains_key(*key),
            },
    {
        let mut i: usize = self.entries.len();
        while i > 0
            invariant
                i <= self.entries@.len(),
                forall|j: int| i <= j < self.entries@.len() ==> (#[trigger] self.entries@[j]).0
                    != *key,
            decreases i,
        {
            i = i - 1;
            if self.entries[i].0 == *key {
                proof {
                    lemma_assoc_found(self.entries@, *key, i as int);
                }
                return Some(clone_command(&self.entries[i].1));
            }
        }
        proof {
            lemma_assoc_absent(self.entries@, *key);
        }
        None
    }
}

} // verus!
