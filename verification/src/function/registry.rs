//! A table of named entries in which no two entries share a name.
use vstd::prelude::*;

verus! {

/// A value that carries its own name.
pub trait Named {
    spec fn key(&self) -> Seq<char>;

    fn name(&self) -> (r: &String)
        ensures
            r@ == self.key(),
    ;
}

/// Whether no two entries of `s` share a name.
pub open spec fn keys_unique<T: Named>(s: Seq<T>) -> bool {
    forall|i: int, j: int|
        0 <= i < s.len() && 0 <= j < s.len() && i != j ==> (#[trigger] s[i]).key() != (#[trigger] s[j]).key()
}

/// The entry of `s` named `name`, if there is one.
pub open spec fn seq_lookup<T: Named>(s: Seq<T>, name: Seq<char>) -> Option<T> {
    if exists|i: int| 0 <= i < s.len() && (#[trigger] s[i]).key() == name {
        Some(s[choose|i: int| 0 <= i < s.len() && (#[trigger] s[i]).key() == name])
    } else {
        None
    }
}

proof fn lemma_lookup_at<T: Named>(s: Seq<T>, k: int)
    requires
        keys_unique(s),
        0 <= k < s.len(),
    ensures
        seq_lookup(s, s[k].key()) == Some(s[k]),
{
    let name = s[k].key();
    assert(0 <= k < s.len() && s[k].key() == name);
    let c = choose|i: int| 0 <= i < s.len() && (#[trigger] s[i]).key() == name;
    assert(c == k);
}

proof fn lemma_replace<T: Named>(before: Seq<T>, i: int, item: T)
    requires
        keys_unique(before),
        0 <= i < before.len(),
        before[i].key() == item.key(),
    ensures
        keys_unique(before.update(i, item)),
        seq_lookup(before.update(i, item), item.key()) == Some(item),
        forall|name: Seq<char>|
            name != item.key() ==> #[trigger] seq_lookup(before.update(i, item), name) == seq_lookup(before, name),
{
    let after = before.update(i, item);
    assert forall|a: int, b: int|
        0 <= a < after.len() && 0 <= b < after.len() && a != b implies (#[trigger] after[a]).key() != (
        #[trigger] after[b]).key() by {
        assert(before[a].key() != before[b].key());
    }
    lemma_lookup_at(after, i);
    assert forall|name: Seq<char>| name != item.key() implies #[trigger] seq_lookup(after, name) == seq_lookup(
        before,
        name,
    ) by {
        if exists|k: int| 0 <= k < before.len() && (#[trigger] before[k]).key() == name {
            let k = choose|k: int| 0 <= k < before.len() && (#[trigger] before[k]).key() == name;
            lemma_lookup_at(before, k);
            lemma_lookup_at(after, k);
        } else {
            assert forall|k: int| 0 <= k < after.len() implies (#[trigger] after[k]).key() != name by {
                if k != i {
                    assert(before[k].key() != name);
                }
            }
        }
    }
}

/// Entries kept in insertion order, one per name.
pub struct NameTable<T: Named> {
    entries: Vec<T>,
}

impl<T: Named> NameTable<T> {
    pub closed spec fn wf(&self) -> bool {
        keys_unique(self.entries@)
    }

    /// The entry named `name`, if any.
    pub closed spec fn lookup(&self, name: Seq<char>) -> Option<T> {
        seq_lookup(self.entries@, name)
    }

    pub fn new() -> (r: NameTable<T>)
        ensures
            r.wf(),
            forall|name: Seq<char>| r.lookup(name) is None,
    {
        NameTable { entries: Vec::new() }
    }

    /// Adds `item`, replacing the entry of the same name if there is one.
    pub fn insert(&mut self, item: T)
        requires
            old(self).wf(),
        ensures
            final(self).wf(),
            final(self).lookup(item.key()) == Some(item),
            forall|name: Seq<char>| #![trigger final(self).lookup(name)] #![trigger old(self).lookup(name)] name != item.key() ==> final(self).lookup(name) == old(self).lookup(name),
    {
        let ghost before = self.entries@;
        let mut i: usize = 0;
        while i < self.entries.len()
            invariant
                i <= self.entries@.len(),
                self.entries@ == before,
                before == old(self).entries@,
                keys_unique(before),
                forall|k: int| 0 <= k < i ==> (#[trigger] before[k]).key() != item.key(),
            decreases self.entries@.len() - i,
        {
            if *self.entries[i].name() == *item.name() {
                self.entries.set(i, item);
                proof {
                    lemma_replace(before, i as int, item);
                }
                return;
            }
            i = i + 1;
        }
        self.entries.push(item);
        proof {
            let after = self.entries@;
            let n = before.len() as int;
            assert forall|a: int, b: int|
                0 <= a < after.len() && 0 <= b < after.len() && a != b implies (#[trigger] after[a]).key()
                != (#[trigger] after[b]).key() by {
                if a < n && b < n {
                    assert(before[a].key() != before[b].key());
                } else if a < n {
                    assert(before[a].key() != item.key());
                } else {
                    assert(before[b].key() != item.key());
                }
            }
            lemma_lookup_at(after, n);
            assert(after[n] == item);
            assert forall|name: Seq<char>| name != item.key() implies seq_lookup(after, name) == seq_lookup(
                before,
                name,
            ) by {
                if exists|k: int| 0 <= k < before.len() && (#[trigger] before[k]).key() == name {
                    let k = choose|k: int| 0 <= k < before.len() && (#[trigger] before[k]).key() == name;
                    lemma_lookup_at(before, k);
                    lemma_lookup_at(after, k);
                } else {
                    assert forall|k: int| 0 <= k < after.len() implies (#[trigger] after[k]).key() != name by {
                        if k < n {
                            assert(before[k].key() != name);
                        }
                    }
                }
            }
        }
    }

    /// The entry named `name`, if any.
    pub fn get(&self, name: &String) -> (r: Option<&T>)
        requires
            self.wf(),
        ensures
            match self.lookup(name@) {
                Some(e) => r is Some && *r.unwrap() == e,
                None => r is None,
            },
    {
        let mut i: usize = 0;
        while i < self.entries.len()
            invariant
                i <= self.entries@.len(),
                keys_unique(self.entries@),
                forall|k: int| 0 <= k < i ==> (#[trigger] self.entries@[k]).key() != name@,
            decreases self.entries@.len() - i,
        {
            if *self.entries[i].name() == *name {
                proof {
                    lemma_lookup_at(self.entries@, i as int);
                }
                return Some(&self.entries[i]);
            }
            i = i + 1;
        }
        None
    }
}

} // verus!
