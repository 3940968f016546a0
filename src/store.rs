//! The session store: which user subject each live session key belongs to.
use vstd::prelude::*;

verus! {

/// Maps session keys to the subject of the user who logged in. It lives as
/// long as the process does; sessions are never removed from it.
pub struct SessionStore {
    entries: Vec<(String, String)>,
    map: Ghost<Map<Seq<char>, Seq<char>>>,
}

impl View for SessionStore {
    type V = Map<Seq<char>, Seq<char>>;

    closed spec fn view(&self) -> Map<Seq<char>, Seq<char>> {
        self.map@
    }
}

impl SessionStore {
    /// The entries and the map agree.
    pub closed spec fn wf(&self) -> bool {
        &&& forall|i: int|
            0 <= i < self.entries@.len() ==> self.map@.contains_key(#[trigger] self.entries@[i].0@)
                && self.map@[self.entries@[i].0@] == self.entries@[i].1@
        &&& forall|k: Seq<char>|
            #[trigger] self.map@.contains_key(k) ==> exists|i: int|
                0 <= i < self.entries@.len() && #[trigger] self.entries@[i].0@ == k
        &&& forall|i: int, j: int|
            0 <= i < j < self.entries@.len() ==> #[trigger] self.entries@[i].0@
                != #[trigger] self.entries@[j].0@
    }

    /// An empty store.
    pub fn new() -> (r: SessionStore)
        ensures
            r.wf(),
            r@ == Map::<Seq<char>, Seq<char>>::empty(),
    {
        SessionStore { entries: Vec::new(), map: Ghost(Map::empty()) }
    }

    /// Records that `key` belongs to `subject`, replacing what it held before.
    pub fn put(&mut self, key: String, subject: String)
        requires
            old(self).wf(),
        ensures
            final(self).wf(),
            final(self)@ == old(self)@.insert(key@, subject@),
    {
        let ghost m = self.map@.insert(key@, subject@);
        let mut i: usize = 0;
        while i < self.entries.len()
            invariant
                i <= self.entries@.len(),
                self.wf(),
                self.map@ == old(self).map@,
                self.entries@ == old(self).entries@,
                m == old(self).map@.insert(key@, subject@),
                forall|j: int| 0 <= j < i ==> self.entries@[j].0@ != key@,
            decreases self.entries@.len() - i,
        {
            if self.entries[i].0 == key {
                let ghost before = self.entries@;
                let ghost before_map = self.map@;
                proof {
                    assert(before[i as int].0@ == key@);
                    assert(forall|j: int|
                        0 <= j < before.len() ==> before_map.contains_key(#[trigger] before[j].0@)
                            && before_map[before[j].0@] == before[j].1@);
                    assert(forall|k: Seq<char>|
                        #[trigger] before_map.contains_key(k) ==> exists|j: int|
                            0 <= j < before.len() && #[trigger] before[j].0@ == k);
                    assert(forall|j: int|
                        0 <= j < before.len() && j != i ==> #[trigger] before[j].0@ != key@);
                }
                self.entries.set(i, (key, subject));
                self.map = Ghost(m);
                proof {
                    assert forall|j: int| 0 <= j < self.entries@.len() implies self.map@.contains_key(
                        #[trigger] self.entries@[j].0@,
                    ) && self.map@[self.entries@[j].0@] == self.entries@[j].1@ by {
                        if j != i {
                            assert(self.entries@[j] == before[j]);
                        }
                    }
                    assert forall|k: Seq<char>| #[trigger] self.map@.contains_key(k) implies exists|
                        j: int,
                    | 0 <= j < self.entries@.len() && #[trigger] self.entries@[j].0@ == k by {
                        if k != before[i as int].0@ {
                            assert(before_map.contains_key(k));
                            let j = choose|j: int|
                                0 <= j < before.len() && #[trigger] before[j].0@ == k;
                            assert(self.entries@[j] == before[j]);
                        } else {
                            assert(self.entries@[i as int].0@ == k);
                        }
                    }
                    assert forall|a: int, b: int|
                        0 <= a < b < self.entries@.len() implies #[trigger] self.entries@[a].0@
                        != #[trigger] self.entries@[b].0@ by {
                        if a != i {
                            assert(self.entries@[a] == before[a]);
                        }
                        if b != i {
                            assert(self.entries@[b] == before[b]);
                        }
                    }
                }
                return;
            }
            i = i + 1;
        }
        let ghost before = self.entries@;
        let ghost before_map = self.map@;
        proof {
            assert(forall|j: int|
                0 <= j < before.len() ==> before_map.contains_key(#[trigger] before[j].0@)
                    && before_map[before[j].0@] == before[j].1@);
            assert(forall|k: Seq<char>|
                #[trigger] before_map.contains_key(k) ==> exists|j: int|
                    0 <= j < before.len() && #[trigger] before[j].0@ == k);
        }
        self.entries.push((key, subject));
        self.map = Ghost(m);
        proof {
            let n = before.len() as int;
            assert(self.entries@[n].0@ == key@);
            assert forall|j: int| 0 <= j < self.entries@.len() implies self.map@.contains_key(
                #[trigger] self.entries@[j].0@,
            ) && self.map@[self.entries@[j].0@] == self.entries@[j].1@ by {
                if j < n {
                    assert(self.entries@[j] == before[j]);
                }
            }
            assert forall|k: Seq<char>| #[trigger] self.map@.contains_key(k) implies exists|j: int|
                0 <= j < self.entries@.len() && #[trigger] self.entries@[j].0@ == k by {
                if k != key@ {
                    assert(before_map.contains_key(k));
                    let j = choose|j: int| 0 <= j < before.len() && #[trigger] before[j].0@ == k;
                    assert(self.entries@[j] == before[j]);
                }
            }
            assert forall|a: int, b: int|
                0 <= a < b < self.entries@.len() implies #[trigger] self.entries@[a].0@
                != #[trigger] self.entries@[b].0@ by {
                assert(self.entries@[a] == before[a]);
                if b < n {
                    assert(self.entries@[b] == before[b]);
                }
            }
        }
    }

    /// The subject that `key` belongs to; `None` when no session has it.
    pub fn get(&self, key: &String) -> (r: Option<String>)
        requires
            self.wf(),
        ensures
            r is Some <==> self@.contains_key(key@),
            r matches Some(s) ==> s@ == self@[key@],
    {
        let mut i: usize = 0;
        while i < self.entries.len()
            invariant
                i <= self.entries@.len(),
                self.wf(),
                forall|j: int| 0 <= j < i ==> self.entries@[j].0@ != key@,
            decreases self.entries@.len() - i,
        {
            if self.entries[i].0 == *key {
                return Some(self.entries[i].1.clone());
            }
            i = i + 1;
        }
        proof {
            if self@.contains_key(key@) {
                let j = choose|j: int|
                    0 <= j < self.entries@.len() && #[trigger] self.entries@[j].0@ == key@;
                assert(self.entries@[j].0@ == key@);
            }
        }
        None
    }
}

} // verus!
