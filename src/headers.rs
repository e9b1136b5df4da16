use vstd::prelude::*;

use crate::text::owned;

verus! {

/// Header fields: each key at most once, a later value for a key replacing
/// the earlier one. Keys are compared exactly, case included. The fields keep
/// the order in which their keys first came.
#[derive(Clone)]
pub struct HeaderMap {
    entries: Vec<(String, String)>,
    fields: Ghost<Map<Seq<char>, Seq<char>>>,
}

impl View for HeaderMap {
    type V = Map<Seq<char>, Seq<char>>;

    closed spec fn view(&self) -> Map<Seq<char>, Seq<char>> {
        self.fields@
    }
}

impl HeaderMap {
    /// The fields in the order in which they are written out.
    pub closed spec fn entries(&self) -> Seq<(Seq<char>, Seq<char>)> {
        self.entries@.map_values(|e: (String, String)| (e.0@, e.1@))
    }

    /// The fields in order hold each key of the map once, with its value.
    pub open spec fn wf(&self) -> bool {
        &&& forall|i: int|
            0 <= i < self.entries().len() ==> self@.contains_key(#[trigger] self.entries()[i].0)
                && self@[self.entries()[i].0] == self.entries()[i].1
        &&& forall|k: Seq<char>|
            #[trigger] self@.contains_key(k) ==> exists|i: int|
                0 <= i < self.entries().len() && self.entries()[i].0 == k
        &&& forall|i: int, j: int|
            0 <= i < self.entries().len() && 0 <= j < self.entries().len() && i != j
                ==> self.entries()[i].0 != self.entries()[j].0
    }

    pub fn new() -> (r: HeaderMap)
        ensures
            r.wf(),
            r@ == Map::<Seq<char>, Seq<char>>::empty(),
            r.entries().len() == 0,
    {
        let r = HeaderMap { entries: Vec::new(), fields: Ghost(Map::empty()) };
        proof {
            assert(r.entries() =~= Seq::<(Seq<char>, Seq<char>)>::empty());
        }
        r
    }

    /// Sets the value of `key`, replacing any earlier one.
    pub fn insert(&mut self, key: String, value: String)
        requires
            old(self).wf(),
        ensures
            final(self).wf(),
            final(self)@ == old(self)@.insert(key@, value@),
    {
        let n = self.entries.len();
        let mut i: usize = 0;
        while i < n
            invariant
                n == self.entries@.len(),
                i <= n,
                self.wf(),
                self.entries@ == old(self).entries@,
                self.fields@ == old(self).fields@,
                forall|j: int| 0 <= j < i ==> self.entries@[j].0@ != key@,
            decreases n - i,
        {
            if self.entries[i].0 == key {
                let ghost old_entries = self.entries();
                let ghost old_fields = self@;
                let ghost k = key@;
                let ghost v = value@;
                proof {
                    assert(forall|kk: Seq<char>| #[trigger] old_fields.contains_key(kk) ==> exists|j: int|
                        0 <= j < old_entries.len() && old_entries[j].0 == kk);
                }
                self.entries.set(i, (key, value));
                proof {
                    self.fields@ = self.fields@.insert(k, v);
                    assert(old_entries[i as int].0 == k);
                    assert(self.entries() =~= old_entries.update(i as int, (k, v)));
                    assert forall|j: int| 0 <= j < self.entries().len() implies self@.contains_key(
                        #[trigger] self.entries()[j].0,
                    ) && self@[self.entries()[j].0] == self.entries()[j].1 by {
                        if j != i {
                            assert(old_entries[j].0 != k);
                            assert(old_fields.contains_key(old_entries[j].0));
                        }
                    }
                    assert forall|kk: Seq<char>| #[trigger] self@.contains_key(kk) implies exists|
                        j: int,
                    |
                        0 <= j < self.entries().len() && self.entries()[j].0 == kk by {
                        if kk != k {
                            assert(old_fields.contains_key(kk));
                            let j = choose|j: int|
                                0 <= j < old_entries.len() && old_entries[j].0 == kk;
                            assert(self.entries()[j].0 == kk);
                        } else {
                            assert(self.entries()[i as int].0 == kk);
                        }
                    }
                }
                return;
            }
            i = i + 1;
        }
        let ghost old_entries = self.entries();
        let ghost old_fields = self@;
        proof {
            assert(forall|kk: Seq<char>| #[trigger] old_fields.contains_key(kk) ==> exists|j: int|
                0 <= j < old_entries.len() && old_entries[j].0 == kk);
        }
        let ghost k = key@;
        let ghost v = value@;
        self.entries.push((key, value));
        proof {
            self.fields@ = self.fields@.insert(k, v);
            assert(self.entries() =~= old_entries.push((k, v)));
            assert forall|kk: Seq<char>| #[trigger] self@.contains_key(kk) implies exists|j: int|
                0 <= j < self.entries().len() && self.entries()[j].0 == kk by {
                if kk != k {
                    assert(old_fields.contains_key(kk));
                    let j = choose|j: int| 0 <= j < old_entries.len() && old_entries[j].0 == kk;
                    assert(self.entries()[j].0 == kk);
                } else {
                    assert(self.entries()[n as int].0 == kk);
                }
            }
        }
    }

    /// The value of `key`, if the map holds that key.
    pub fn get(&self, key: &str) -> (r: Option<&String>)
        requires
            self.wf(),
        ensures
            match r {
                Some(v) => self@.contains_key(key@) && v@ == self@[key@],
                None => !self@.contains_key(key@),
            },
    {
        let k = owned(key);
        let n = self.entries.len();
        let mut i: usize = 0;
        while i < n
            invariant
                n == self.entries@.len(),
                i <= n,
                k@ == key@,
                self.wf(),
                forall|j: int| 0 <= j < i ==> self.entries@[j].0@ != key@,
            decreases n - i,
        {
            if self.entries[i].0 == k {
                proof {
                    assert(self.entries()[i as int] == (self.entries@[i as int].0@,
                        self.entries@[i as int].1@));
                    assert(self.entries()[i as int].0 == key@);
                    assert(self@.contains_key(key@));
                    assert(self@[key@] == self.entries@[i as int].1@);
                }
                return Some(&self.entries[i].1);
            }
            i = i + 1;
        }
        proof {
            if self@.contains_key(key@) {
                let j = choose|j: int|
                    0 <= j < self.entries().len() && self.entries()[j].0 == key@;
                assert(self.entries@[j].0@ == key@);
            }
        }
        None
    }

    /// How many fields there are.
    pub fn len(&self) -> (r: usize)
        ensures
            r == self.entries().len(),
    {
        self.entries.len()
    }

    pub fn is_empty(&self) -> (r: bool)
        ensures
            r == (self.entries().len() == 0),
    {
        self.entries.len() == 0
    }

    /// The key of the field at `i`, in written order.
    pub fn key_at(&self, i: usize) -> (r: &String)
        requires
            i < self.entries().len(),
        ensures
            r@ == self.entries()[i as int].0,
    {
        &self.entries[i].0
    }

    /// The value of the field at `i`, in written order.
    pub fn value_at(&self, i: usize) -> (r: &String)
        requires
            i < self.entries().len(),
        ensures
            r@ == self.entries()[i as int].1,
    {
        &self.entries[i].1
    }

    /// Removes every field.
    pub fn clear(&mut self)
        ensures
            final(self).wf(),
            final(self)@ == Map::<Seq<char>, Seq<char>>::empty(),
            final(self).entries().len() == 0,
    {
        self.entries.clear();
        proof {
            self.fields@ = Map::empty();
            assert(self.entries() =~= Seq::<(Seq<char>, Seq<char>)>::empty());
        }
    }

    /// A copy with the same fields in the same order.
    pub fn duplicate(&self) -> (r: HeaderMap)
        ensures
            r@ == self@,
            r.entries() == self.entries(),
            r.wf() == self.wf(),
    {
        let mut entries: Vec<(String, String)> = Vec::new();
        let n = self.entries.len();
        let mut i: usize = 0;
        while i < n
            invariant
                n == self.entries@.len(),
                i <= n,
                entries@.len() == i,
                forall|j: int| 0 <= j < i ==> (#[trigger] entries@[j]).0@ == self.entries@[j].0@
                    && entries@[j].1@ == self.entries@[j].1@,
            decreases n - i,
        {
            let k = self.entries[i].0.clone();
            let v = self.entries[i].1.clone();
            entries.push((k, v));
            i = i + 1;
        }
        let r = HeaderMap { entries, fields: Ghost(self.fields@) };
        proof {
            assert(r.entries() =~= self.entries());
        }
        r
    }
}

} // verus!
