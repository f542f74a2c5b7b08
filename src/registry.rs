//! The cancellation registry: for each live task, by its identifier, the
//! handle that stops it.
use vstd::prelude::*;

verus! {

/// Handles keyed by task identifier, at most one per identifier.
pub struct Registry<S> {
    entries: Vec<(String, S)>,
    map: Ghost<Map<Seq<char>, S>>,
}

impl<S> View for Registry<S> {
    type V = Map<Seq<char>, S>;

    closed spec fn view(&self) -> Map<Seq<char>, S> {
        self.map@
    }
}

impl<S> Registry<S> {
    /// The entries hold exactly the map, one entry per identifier.
    pub closed spec fn wf(&self) -> bool {
        &&& forall|i: int|
            0 <= i < self.entries@.len() ==> {
                &&& self.map@.contains_key(#[trigger] self.entries@[i].0@)
                &&& self.map@[self.entries@[i].0@] == self.entries@[i].1
            }
        &&& forall|k: Seq<char>|
            #[trigger] self.map@.contains_key(k) ==> exists|i: int|
                0 <= i < self.entries@.len() && #[trigger] self.entries@[i].0@ == k
        &&& forall|i: int, j: int|
            0 <= i < j < self.entries@.len() ==> #[trigger] self.entries@[i].0@
                != #[trigger] self.entries@[j].0@
    }

    /// An empty registry.
    pub fn new() -> (r: Registry<S>)
        ensures
            r.wf(),
            r@ == Map::<Seq<char>, S>::empty(),
    {
        Registry { entries: Vec::new(), map: Ghost(Map::empty()) }
    }

    /// Where the entry for `id` stands, if there is one.
    fn find(&self, id: &String) -> (r: Option<usize>)
        requires
            self.wf(),
        ensures
            r is Some ==> r->Some_0 < self.entries@.len() && self.entries@[r->Some_0 as int].0@
                == id@,
            r is None <==> !self@.contains_key(id@),
    {
        let mut i: usize = 0;
        while i < self.entries.len()
            invariant
                self.wf(),
                i <= self.entries@.len(),
                forall|j: int| 0 <= j < i ==> #[trigger] self.entries@[j].0@ != id@,
            decreases self.entries@.len() - i,
        {
            if self.entries[i].0 == *id {
                return Some(i);
            }
            i += 1;
        }
        None
    }

    /// Whether `id` has an entry.
    pub fn contains(&self, id: &String) -> (r: bool)
        requires
            self.wf(),
        ensures
            r == self@.contains_key(id@),
    {
        self.find(id).is_some()
    }

    /// Sets the handle for `id`, in place of any earlier one.
    pub fn insert(&mut self, id: String, handle: S)
        requires
            old(self).wf(),
        ensures
            final(self).wf(),
            final(self)@ == old(self)@.insert(id@, handle),
    {
        let ghost k = id@;
        let ghost m = self.map@.insert(k, handle);
        match self.find(&id) {
            Some(i) => {
                self.entries.set(i, (id, handle));
                self.map = Ghost(m);
                assert forall|q: Seq<char>| #[trigger] m.contains_key(q) implies exists|j: int|
                    0 <= j < self.entries@.len() && #[trigger] self.entries@[j].0@ == q by {
                    if q == k {
                        assert(self.entries@[i as int].0@ == q);
                    } else {
                        let j = choose|j: int|
                            0 <= j < old(self).entries@.len() && #[trigger] old(
                                self,
                            ).entries@[j].0@ == q;
                        assert(self.entries@[j].0@ == q);
                    }
                }
            },
            None => {
                self.entries.push((id, handle));
                self.map = Ghost(m);
                assert forall|q: Seq<char>| #[trigger] m.contains_key(q) implies exists|j: int|
                    0 <= j < self.entries@.len() && #[trigger] self.entries@[j].0@ == q by {
                    if q == k {
                        assert(self.entries@[self.entries@.len() - 1].0@ == q);
                    } else {
                        let j = choose|j: int|
                            0 <= j < old(self).entries@.len() && #[trigger] old(
                                self,
                            ).entries@[j].0@ == q;
                        assert(self.entries@[j].0@ == q);
                    }
                }
            },
        }
    }

    /// Takes out the handle for `id`, if there is one.
    pub fn remove(&mut self, id: &String) -> (r: Option<S>)
        requires
            old(self).wf(),
        ensures
            final(self).wf(),
            final(self)@ == old(self)@.remove(id@),
            r == (if old(self)@.contains_key(id@) {
                Some(old(self)@[id@])
            } else {
                None::<S>
            }),
    {
        match self.find(id) {
            Some(i) => {
                let ghost k = id@;
                let ghost m = self.map@.remove(k);
                let ghost old_entries = self.entries@;
                let (_, handle) = self.entries.remove(i);
                self.map = Ghost(m);
                assert forall|j: int| 0 <= j < self.entries@.len() implies #[trigger] self.entries@[j]
                    == (if j < i {
                    old_entries[j]
                } else {
                    old_entries[j + 1]
                }) by {}
                assert forall|q: Seq<char>| #[trigger] m.contains_key(q) implies exists|j: int|
                    0 <= j < self.entries@.len() && #[trigger] self.entries@[j].0@ == q by {
                    let j = choose|j: int|
                        0 <= j < old_entries.len() && #[trigger] old_entries[j].0@ == q;
                    assert(j != i);
                    if j < i {
                        assert(self.entries@[j].0@ == q);
                    } else {
                        assert(self.entries@[j - 1].0@ == q);
                    }
                }
                assert forall|a: int, b: int|
                    0 <= a < b < self.entries@.len() implies #[trigger] self.entries@[a].0@
                    != #[trigger] self.entries@[b].0@ by {
                    let a2 = if a < i {
                        a
                    } else {
                        a + 1
                    };
                    let b2 = if b < i {
                        b
                    } else {
                        b + 1
                    };
                    assert(old_entries[a2].0@ != old_entries[b2].0@);
                }
                assert forall|j: int| 0 <= j < self.entries@.len() implies {
                    &&& m.contains_key(#[trigger] self.entries@[j].0@)
                    &&& m[self.entries@[j].0@] == self.entries@[j].1
                } by {
                    let j2 = if j < i {
                        j
                    } else {
                        j + 1
                    };
                    assert(old_entries[j2].0@ != old_entries[i as int].0@);
                    assert(old_entries[j2] == self.entries@[j]);
                }
                Some(handle)
            },
            None => None,
        }
    }
}

} // verus!
