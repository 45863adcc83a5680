use vstd::prelude::*;
use crate::ids::TypeId;
use crate::ir::TypeName;

verus! {

/// The map denoted by an association list: later entries win.
pub open spec fn id_map_of<V>(s: Seq<(u64, V)>) -> Map<u64, V>
    decreases s.len(),
{
    if s.len() == 0 {
        Map::empty()
    } else {
        id_map_of(s.drop_last()).insert(s.last().0, s.last().1)
    }
}

proof fn lemma_id_map_of_last<V>(s: Seq<(u64, V)>, j: int)
    requires
        0 <= j < s.len(),
        forall|l: int| j < l < s.len() ==> (#[trigger] s[l]).0 != s[j].0,
    ensures
        id_map_of(s).contains_key(s[j].0),
        id_map_of(s)[s[j].0] == s[j].1,
    decreases s.len(),
{
    if j == s.len() - 1 {
    } else {
        lemma_id_map_of_last(s.drop_last(), j);
    }
}

proof fn lemma_id_map_of_absent<V>(s: Seq<(u64, V)>, k: u64)
    requires
        forall|l: int| 0 <= l < s.len() ==> (#[trigger] s[l]).0 != k,
    ensures
        !id_map_of(s).contains_key(k),
    decreases s.len(),
{
    if s.len() > 0 {
        lemma_id_map_of_absent(s.drop_last(), k);
    }
}

/// An append-only table from `u64` handles to copies of `V`, with the
/// semantics of a map in which the latest insertion for a key wins.
#[derive(Debug)]
pub struct IdTable<V> {
    entries: Vec<(u64, V)>,
}

impl<V: Copy> IdTable<V> {
    pub closed spec fn view(&self) -> Map<u64, V> {
        id_map_of(self.entries@)
    }

    pub fn new() -> (r: Self)
        ensures
            r@ == Map::<u64, V>::empty(),
    {
        IdTable { entries: Vec::new() }
    }

    pub fn get(&self, k: u64) -> (r: Option<V>)
        ensures
            r == (if self@.contains_key(k) {
                Some(self@[k])
            } else {
                None::<V>
            }),
    {
        let mut j: usize = self.entries.len();
        while j > 0
            invariant
                j <= self.entries.len(),
                forall|l: int|
                    j <= l < self.entries@.len() ==> (#[trigger] self.entries@[l]).0 != k,
            decreases j,
        {
            j = j - 1;
            if self.entries[j].0 == k {
                proof {
                    lemma_id_map_of_last(self.entries@, j as int);
                }
                return Some(self.entries[j].1);
            }
        }
        proof {
            lemma_id_map_of_absent(self.entries@, k);
        }
        None
    }

    pub fn insert(&mut self, k: u64, v: V)
        ensures
            final(self)@ == old(self)@.insert(k, v),
    {
        self.entries.push((k, v));
        proof {
            assert(self.entries@.drop_last() =~= old(self).entries@);
        }
    }

    /// An independent deep copy: the original and the copy never share state.
    pub fn duplicate(&self) -> (r: Self)
        ensures
            r@ == self@,
    {
        let mut entries: Vec<(u64, V)> = Vec::new();
        let mut i: usize = 0;
        while i < self.entries.len()
            invariant
                i <= self.entries.len(),
                entries@ == self.entries@.take(i as int),
            decreases self.entries.len() - i,
        {
            entries.push(self.entries[i]);
            proof {
                assert(entries@ =~= self.entries@.take(i + 1));
            }
            i = i + 1;
        }
        proof {
            assert(entries@ =~= self.entries@);
        }
        IdTable { entries }
    }
}

/// The map denoted by a name association list: later entries win.
pub open spec fn name_map_of(s: Seq<(TypeName, TypeId)>) -> Map<TypeName, TypeId>
    decreases s.len(),
{
    if s.len() == 0 {
        Map::empty()
    } else {
        name_map_of(s.drop_last()).insert(s.last().0, s.last().1)
    }
}

proof fn lemma_name_map_of_last(s: Seq<(TypeName, TypeId)>, j: int)
    requires
        0 <= j < s.len(),
        forall|l: int| j < l < s.len() ==> (#[trigger] s[l]).0 != s[j].0,
    ensures
        name_map_of(s).contains_key(s[j].0),
        name_map_of(s)[s[j].0] == s[j].1,
    decreases s.len(),
{
    if j == s.len() - 1 {
    } else {
        lemma_name_map_of_last(s.drop_last(), j);
    }
}

proof fn lemma_name_map_of_absent(s: Seq<(TypeName, TypeId)>, k: TypeName)
    requires
        forall|l: int| 0 <= l < s.len() ==> (#[trigger] s[l]).0 != k,
    ensures
        !name_map_of(s).contains_key(k),
    decreases s.len(),
{
    if s.len() > 0 {
        lemma_name_map_of_absent(s.drop_last(), k);
    }
}

/// The name-resolution table of one scope: syntactic type name to the type
/// identity most recently declared under it (redeclaration overwrites).
#[derive(Debug)]
pub struct NameTable {
    entries: Vec<(TypeName, TypeId)>,
}

impl NameTable {
    pub closed spec fn view(&self) -> Map<TypeName, TypeId> {
        name_map_of(self.entries@)
    }

    pub fn new() -> (r: Self)
        ensures
            r@ == Map::<TypeName, TypeId>::empty(),
    {
        NameTable { entries: Vec::new() }
    }

    pub fn get(&self, k: TypeName) -> (r: Option<TypeId>)
        ensures
            r == (if self@.contains_key(k) {
                Some(self@[k])
            } else {
                None::<TypeId>
            }),
    {
        let mut j: usize = self.entries.len();
        while j > 0
            invariant
                j <= self.entries.len(),
                forall|l: int|
                    j <= l < self.entries@.len() ==> (#[trigger] self.entries@[l]).0 != k,
            decreases j,
        {
            j = j - 1;
            if self.entries[j].0 == k {
                proof {
                    lemma_name_map_of_last(self.entries@, j as int);
                }
                return Some(self.entries[j].1);
            }
        }
        proof {
            lemma_name_map_of_absent(self.entries@, k);
        }
        None
    }

    pub fn insert(&mut self, k: TypeName, v: TypeId)
        ensures
            final(self)@ == old(self)@.insert(k, v),
    {
        self.entries.push((k, v));
        proof {
            assert(self.entries@.drop_last() =~= old(self).entries@);
        }
    }

    /// An independent deep copy: the original and the copy never share state.
    pub fn duplicate(&self) -> (r: Self)
        ensures
            r@ == self@,
    {
        let mut entries: Vec<(TypeName, TypeId)> = Vec::new();
        let mut i: usize = 0;
        while i < self.entries.len()
            invariant
                i <= self.entries.len(),
                entries@ == self.entries@.take(i as int),
            decreases self.entries.len() - i,
        {
            entries.push(self.entries[i]);
            proof {
                assert(entries@ =~= self.entries@.take(i + 1));
            }
            i = i + 1;
        }
        proof {
            assert(entries@ =~= self.entries@);
        }
        NameTable { entries }
    }
}

} // verus!
