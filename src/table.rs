use crate::identity::Identity;
use vstd::prelude::*;

verus! {

/// The map that a sequence of (address, record) entries stands for.
pub open spec fn map_of<T>(s: Seq<(Identity, T)>) -> Map<Seq<u8>, T>
    decreases s.len(),
{
    if s.len() == 0 {
        Map::empty()
    } else {
        map_of(s.drop_last()).insert(s.last().0@, s.last().1)
    }
}

/// No two entries share an address.
pub open spec fn addresses_distinct<T>(s: Seq<(Identity, T)>) -> bool {
    forall|i: int, j: int| 0 <= i < j < s.len() ==> s[i].0@ != s[j].0@
}

proof fn lemma_entry_in_map<T>(s: Seq<(Identity, T)>, i: int)
    requires
        addresses_distinct(s),
        0 <= i < s.len(),
    ensures
        map_of(s).contains_key(s[i].0@),
        map_of(s)[s[i].0@] == s[i].1,
    decreases s.len(),
{
    if i < s.len() - 1 {
        let d = s.drop_last();
        assert(addresses_distinct(d));
        lemma_entry_in_map(d, i);
        assert(d[i] == s[i]);
    }
}

proof fn lemma_absent_from_map<T>(s: Seq<(Identity, T)>, k: Seq<u8>)
    requires
        forall|i: int| 0 <= i < s.len() ==> s[i].0@ != k,
    ensures
        !map_of(s).contains_key(k),
    decreases s.len(),
{
    if s.len() > 0 {
        let d = s.drop_last();
        assert forall|i: int| 0 <= i < d.len() implies d[i].0@ != k by {
            assert(d[i] == s[i]);
        }
        lemma_absent_from_map(d, k);
    }
}

proof fn lemma_update_in_map<T>(s: Seq<(Identity, T)>, i: int, v: T)
    requires
        addresses_distinct(s),
        0 <= i < s.len(),
    ensures
        map_of(s.update(i, (s[i].0, v))) == map_of(s).insert(s[i].0@, v),
    decreases s.len(),
{
    let u = s.update(i, (s[i].0, v));
    if i == s.len() - 1 {
        assert(u.drop_last() =~= s.drop_last());
        assert(map_of(u) =~= map_of(s).insert(s[i].0@, v));
    } else {
        let d = s.drop_last();
        assert(addresses_distinct(d));
        assert(u.drop_last() =~= d.update(i, (d[i].0, v)));
        lemma_update_in_map(d, i, v);
        assert(s[i].0@ != s.last().0@);
        assert(map_of(u) =~= map_of(s).insert(s[i].0@, v));
    }
}

/// Records keyed by their address, each address at most once.
pub struct Table<T> {
    entries: Vec<(Identity, T)>,
}

impl<T> Table<T> {
    /// The records, by address.
    pub closed spec fn view(&self) -> Map<Seq<u8>, T> {
        map_of(self.entries@)
    }

    pub closed spec fn wf(&self) -> bool {
        addresses_distinct(self.entries@)
    }

    pub fn new() -> (r: Table<T>)
        ensures
            r.wf(),
            r.view() == Map::<Seq<u8>, T>::empty(),
    {
        Table { entries: Vec::new() }
    }

    fn position(&self, key: &Identity) -> (r: Option<usize>)
        ensures
            match r {
                Some(i) => i < self.entries@.len() && self.entries@[i as int].0@ == key@,
                None => forall|i: int| 0 <= i < self.entries@.len() ==> self.entries@[i].0@ != key@,
            },
    {
        let mut i: usize = 0;
        while i < self.entries.len()
            invariant
                i <= self.entries@.len(),
                forall|j: int| 0 <= j < i ==> self.entries@[j].0@ != key@,
            decreases self.entries@.len() - i,
        {
            if self.entries[i].0.same_as(key) {
                return Some(i);
            }
            i = i + 1;
        }
        None
    }

    /// Whether a record is stored at `key`.
    pub fn contains(&self, key: &Identity) -> (r: bool)
        requires
            self.wf(),
        ensures
            r == self.view().contains_key(key@),
    {
        match self.position(key) {
            Some(i) => {
                proof {
                    lemma_entry_in_map(self.entries@, i as int);
                }
                true
            },
            None => {
                proof {
                    lemma_absent_from_map(self.entries@, key@);
                }
                false
            },
        }
    }

    /// The record stored at `key`, if any.
    pub fn get(&self, key: &Identity) -> (r: Option<&T>)
        requires
            self.wf(),
        ensures
            match r {
                Some(v) => self.view().contains_key(key@) && *v == self.view()[key@],
                None => !self.view().contains_key(key@),
            },
    {
        match self.position(key) {
            Some(i) => {
                proof {
                    lemma_entry_in_map(self.entries@, i as int);
                }
                Some(&self.entries[i].1)
            },
            None => {
                proof {
                    lemma_absent_from_map(self.entries@, key@);
                }
                None
            },
        }
    }

    /// Stores `value` at `key`, replacing the record that was there.
    pub fn insert(&mut self, key: Identity, value: T)
        requires
            old(self).wf(),
        ensures
            final(self).wf(),
            final(self).view() == old(self).view().insert(key@, value),
    {
        match self.position(&key) {
            Some(i) => {
                proof {
                    lemma_update_in_map(self.entries@, i as int, value);
                }
                let ghost s = self.entries@;
                let k = self.entries[i].0;
                self.entries.set(i, (k, value));
                assert(self.entries@ == s.update(i as int, (s[i as int].0, value)));
            },
            None => {
                let ghost s = self.entries@;
                self.entries.push((key, value));
                assert(self.entries@.drop_last() =~= s);
                assert(addresses_distinct(self.entries@));
            },
        }
    }
}

} // verus!
