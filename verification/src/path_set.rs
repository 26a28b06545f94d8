use vstd::prelude::*;

verus! {

/// A set of paths, kept as a list in which no path occurs twice.
#[derive(Debug, Clone)]
pub struct PathSet {
    items: Vec<String>,
}

impl View for PathSet {
    type V = Set<Seq<char>>;

    closed spec fn view(&self) -> Set<Seq<char>> {
        self.items.deep_view().to_set()
    }
}

impl PathSet {
    /// No path is held twice.
    pub closed spec fn wf(&self) -> bool {
        self.items.deep_view().no_duplicates()
    }

    /// The empty set.
    pub fn new() -> (s: Self)
        ensures
            s.wf(),
            s@ == Set::<Seq<char>>::empty(),
    {
        let s = PathSet { items: Vec::new() };
        assert(s.items.deep_view() =~= Seq::<Seq<char>>::empty());
        assert(s@ =~= Set::<Seq<char>>::empty());
        s
    }

    /// The number of paths held.
    pub fn len(&self) -> (n: usize)
        requires
            self.wf(),
        ensures
            n == self@.len(),
            self@.finite(),
    {
        proof {
            self.items.deep_view().unique_seq_to_set();
        }
        self.items.len()
    }

    /// The position of `path` in the list, if it is held.
    fn position(&self, path: &String) -> (r: Option<usize>)
        ensures
            match r {
                Some(i) => i < self.items.len() && self.items.deep_view()[i as int] == path@,
                None => !self.items.deep_view().contains(path@),
            },
    {
        let mut i: usize = 0;
        while i < self.items.len()
            invariant
                i <= self.items.len(),
                forall|j: int| 0 <= j < i ==> self.items.deep_view()[j] != path@,
            decreases self.items.len() - i,
        {
            if self.items[i] == *path {
                return Some(i);
            }
            i += 1;
        }
        None
    }

    /// Whether the path is in the set.
    pub fn contains(&self, path: &String) -> (b: bool)
        ensures
            b == self@.contains(path@),
    {
        let found = self.position(path);
        proof {
            if let Some(i) = found {
                assert(self.items.deep_view()[i as int] == path@);
            }
        }
        found.is_some()
    }

    /// Adds a path; a path that is already held stays once.
    pub fn insert(&mut self, path: String)
        requires
            old(self).wf(),
        ensures
            final(self).wf(),
            final(self)@ == old(self)@.insert(path@),
    {
        if self.position(&path).is_none() {
            let ghost before = self.items.deep_view();
            self.items.push(path);
            assert(self.items.deep_view() =~= before.push(path@));
            proof {
                before.lemma_push_to_set_commute(path@);
            }
        } else {
            assert(self.items.deep_view().contains(path@));
            assert(self@ =~= self@.insert(path@));
        }
    }

    /// Takes a path out; other paths stay.
    pub fn remove(&mut self, path: &String)
        requires
            old(self).wf(),
        ensures
            final(self).wf(),
            final(self)@ == old(self)@.remove(path@),
    {
        match self.position(path) {
            Some(i) => {
                let ghost before = self.items.deep_view();
                self.items.remove(i);
                assert(self.items.deep_view() =~= before.remove(i as int));
                assert(self@ =~= old(self)@.remove(path@)) by {
                    let after = self.items.deep_view();
                    assert forall|p: Seq<char>| after.contains(p) <==> (before.contains(p) && p
                        != path@) by {
                        assert(before[i as int] == path@);
                        if after.contains(p) {
                            let k = choose|k: int| 0 <= k < after.len() && after[k] == p;
                            if k < i {
                                assert(before[k] == p);
                            } else {
                                assert(before[k + 1] == p);
                            }
                        }
                        if before.contains(p) && p != path@ {
                            let k = choose|k: int| 0 <= k < before.len() && before[k] == p;
                            if k < i {
                                assert(after[k] == p);
                            } else {
                                assert(after[k - 1] == p);
                            }
                        }
                    }
                }
            },
            None => {
                assert(self@ =~= self@.remove(path@));
            },
        }
    }

    /// Takes every path out.
    pub fn clear(&mut self)
        ensures
            final(self).wf(),
            final(self)@ == Set::<Seq<char>>::empty(),
    {
        self.items = Vec::new();
        assert(self.items.deep_view() =~= Seq::<Seq<char>>::empty());
        assert(self@ =~= Set::<Seq<char>>::empty());
    }
}

} // verus!
