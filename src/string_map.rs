use vstd::prelude::*;

verus! {

/// A map from strings to strings that keeps its keys in the order in which
/// they were first set.
///
/// Each key occurs at most once; setting a key that is already present
/// replaces its value in place.
pub struct StringMap {
    entries: Vec<(String, String)>,
    model: Ghost<Map<Seq<char>, Seq<char>>>,
}

impl View for StringMap {
    type V = Map<Seq<char>, Seq<char>>;

    closed spec fn view(&self) -> Map<Seq<char>, Seq<char>> {
        self.model@
    }
}

impl StringMap {
    /// The entries agree with the model, and no name occurs twice.
    pub closed spec fn wf(&self) -> bool {
        &&& self.model@.dom().finite()
        &&& self.model@.dom().len() == self.entries@.len()
        &&& forall|i: int|
            0 <= i < self.entries@.len() ==> {
                &&& #[trigger] self.model@.contains_key(self.entries@[i].0@)
                &&& self.model@[self.entries@[i].0@] == self.entries@[i].1@
            }
        &&& forall|k: Seq<char>|
            #[trigger] self.model@.contains_key(k) ==> exists|i: int|
                0 <= i < self.entries@.len() && #[trigger] self.entries@[i].0@ == k
        &&& forall|i: int, j: int|
            0 <= i < j < self.entries@.len() ==> #[trigger] self.entries@[i].0@
                != #[trigger] self.entries@[j].0@
    }

    pub fn new() -> (r: StringMap)
        ensures
            r.wf(),
            r@ == Map::<Seq<char>, Seq<char>>::empty(),
    {
        StringMap { entries: Vec::new(), model: Ghost(Map::empty()) }
    }

    /// Number of keys.
    pub fn len(&self) -> (r: usize)
        requires
            self.wf(),
        ensures
            r == self@.len(),
    {
        self.entries.len()
    }

    /// Sets `name` to `value`, replacing an earlier value of `name`.
    pub fn insert(&mut self, name: String, value: String)
        requires
            old(self).wf(),
        ensures
            final(self).wf(),
            final(self)@ == old(self)@.insert(name@, value@),
    {
        let ghost k = name@;
        let ghost v = value@;
        let n = self.entries.len();
        let mut i: usize = 0;
        while i < n
            invariant
                n == self.entries@.len(),
                self.wf(),
                *self == *old(self),
                k == name@,
                v == value@,
                0 <= i <= n,
                forall|j: int| 0 <= j < i ==> self.entries@[j].0@ != k,
            decreases n - i,
        {
            if self.entries[i].0 == name {
                let ghost old_entries = self.entries@;
                let ghost old_model = self.model@;
                self.entries.set(i, (name, value));
                self.model = Ghost(self.model@.insert(k, v));
                proof {
                    assert(old_entries[i as int].0@ == k);
                    assert(self.model@.dom() =~= old(self).model@.dom());
                    assert forall|a: int|
                        0 <= a < self.entries@.len() implies {
                        &&& #[trigger] self.model@.contains_key(self.entries@[a].0@)
                        &&& self.model@[self.entries@[a].0@] == self.entries@[a].1@
                    } by {
                        if a != i {
                            assert(self.entries@[a] == old_entries[a]);
                            assert(old_model.contains_key(old_entries[a].0@));
                            assert(old_entries[a].0@ != old_entries[i as int].0@);
                        } else {
                            assert(self.entries@[a].0@ == k && self.entries@[a].1@ == v);
                        }
                    }
                    assert forall|kk: Seq<char>| #[trigger]
                        self.model@.contains_key(kk) implies exists|a: int|
                        0 <= a < self.entries@.len() && #[trigger] self.entries@[a].0@ == kk by {
                        let a = choose|a: int|
                            0 <= a < old_entries.len() && #[trigger] old_entries[a].0@ == kk;
                        assert(self.entries@[a].0@ == kk);
                    }
                    assert forall|a: int, b: int|
                        0 <= a < b < self.entries@.len() implies #[trigger] self.entries@[a].0@
                        != #[trigger] self.entries@[b].0@ by {
                        assert(old_entries[a].0@ != old_entries[b].0@);
                    }
                }
                return;
            }
            i = i + 1;
        }
        let ghost old_entries = self.entries@;
        proof {
            assert(!self.model@.contains_key(k)) by {
                if self.model@.contains_key(k) {
                    let a = choose|a: int|
                        0 <= a < old_entries.len() && #[trigger] old_entries[a].0@ == k;
                    assert(old_entries[a].0@ != k);
                }
            }
        }
        self.entries.push((name, value));
        self.model = Ghost(self.model@.insert(k, v));
        proof {
            assert(self.model@.dom() =~= old(self).model@.dom().insert(k));
            assert forall|a: int|
                0 <= a < self.entries@.len() implies {
                &&& #[trigger] self.model@.contains_key(self.entries@[a].0@)
                &&& self.model@[self.entries@[a].0@] == self.entries@[a].1@
            } by {
                if a < n {
                    assert(self.entries@[a] == old_entries[a]);
                    assert(old_entries[a].0@ != k);
                }
            }
            assert forall|kk: Seq<char>| #[trigger]
                self.model@.contains_key(kk) implies exists|a: int|
                0 <= a < self.entries@.len() && #[trigger] self.entries@[a].0@ == kk by {
                if kk == k {
                    assert(self.entries@[n as int].0@ == kk);
                } else {
                    let a = choose|a: int|
                        0 <= a < old_entries.len() && #[trigger] old_entries[a].0@ == kk;
                    assert(self.entries@[a].0@ == kk);
                }
            }
            assert forall|a: int, b: int|
                0 <= a < b < self.entries@.len() implies #[trigger] self.entries@[a].0@
                != #[trigger] self.entries@[b].0@ by {
                if b < n {
                    assert(old_entries[a].0@ != old_entries[b].0@);
                } else {
                    assert(old_entries[a].0@ != k);
                }
            }
        }
    }

    /// The value of `name`, if it is set.
    pub fn get(&self, name: &str) -> (r: Option<&String>)
        requires
            self.wf(),
        ensures
            r matches Some(v) ==> self@.contains_key(name@) && v@ == self@[name@],
            r is None ==> !self@.contains_key(name@),
    {
        let key = name.to_string();
        let n = self.entries.len();
        let mut i: usize = 0;
        while i < n
            invariant
                n == self.entries@.len(),
                self.wf(),
                key@ == name@,
                0 <= i <= n,
                forall|j: int| 0 <= j < i ==> self.entries@[j].0@ != name@,
            decreases n - i,
        {
            if self.entries[i].0 == key {
                return Some(&self.entries[i].1);
            }
            i = i + 1;
        }
        proof {
            if self@.contains_key(name@) {
                let a = choose|a: int|
                    0 <= a < self.entries@.len() && #[trigger] self.entries@[a].0@ == name@;
                assert(self.entries@[a].0@ != name@);
            }
        }
        None
    }

    /// The entries in the order in which their keys were first set.
    pub fn entries(&self) -> (r: &Vec<(String, String)>)
        requires
            self.wf(),
        ensures
            r@.len() == self@.len(),
            forall|i: int|
                0 <= i < r@.len() ==> #[trigger] self@.contains_key(r@[i].0@) && self@[r@[i].0@]
                    == r@[i].1@,
            forall|k: Seq<char>|
                #[trigger] self@.contains_key(k) ==> exists|i: int|
                    0 <= i < r@.len() && #[trigger] r@[i].0@ == k,
    {
        assert forall|i: int| 0 <= i < self.entries@.len() implies #[trigger] self@.contains_key(
            self.entries@[i].0@,
        ) && self@[self.entries@[i].0@] == self.entries@[i].1@ by {
            assert(self.model@.contains_key(self.entries@[i].0@));
        }
        &self.entries
    }
}

} // verus!
