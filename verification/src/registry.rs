//! The clip registry: symbolic clip names and the paths that back them.

use vstd::prelude::*;

verus! {

/// What the audio service reports to a caller.
#[derive(PartialEq, Eq, Clone, Copy, Debug, Structural)]
pub enum AudioError {
    /// The clip name was never registered.
    UnknownClip,
}

/// Mapping from clip name to path. Names are unique: registering a name
/// again replaces its path.
pub struct ClipRegistry {
    names: Vec<String>,
    paths: Vec<String>,
}

impl ClipRegistry {
    /// Every name has one path, and no name is stored twice.
    pub closed spec fn wf(&self) -> bool {
        &&& self.names.len() == self.paths.len()
        &&& forall|i: int, j: int|
            0 <= i < j < self.names.len() ==> self.names[i]@ != self.names[j]@
    }

    spec fn holds(&self, name: Seq<char>) -> bool {
        exists|i: int| 0 <= i < self.names.len() && #[trigger] self.names[i]@ == name
    }

    spec fn slot(&self, name: Seq<char>) -> int {
        choose|i: int| 0 <= i < self.names.len() && #[trigger] self.names[i]@ == name
    }

    /// The registry as a map from name to path.
    pub closed spec fn view(&self) -> Map<Seq<char>, Seq<char>> {
        Map::new(|k: Seq<char>| self.holds(k), |k: Seq<char>| self.paths[self.slot(k)]@)
    }

    proof fn lemma_slot(&self, i: int)
        requires
            self.wf(),
            0 <= i < self.names.len(),
        ensures
            self.holds(self.names[i]@),
            self.slot(self.names[i]@) == i,
    {
        let k = self.names[i]@;
        assert(self.names[i]@ == k);
        let s = self.slot(k);
        assert(0 <= s < self.names.len() && self.names[s]@ == k);
        if s < i {
            assert(self.names[s]@ != self.names[i]@);
        } else if i < s {
            assert(self.names[i]@ != self.names[s]@);
        }
    }

    /// An empty registry.
    pub fn new() -> (r: Self)
        ensures
            r.wf(),
            r@ == Map::<Seq<char>, Seq<char>>::empty(),
    {
        let r = ClipRegistry { names: Vec::new(), paths: Vec::new() };
        assert(r@ =~= Map::<Seq<char>, Seq<char>>::empty());
        r
    }

    fn find(&self, name: &String) -> (r: Option<usize>)
        requires
            self.wf(),
        ensures
            match r {
                Some(i) => i < self.names.len() && self.names[i as int]@ == name@,
                None => !self.holds(name@),
            },
    {
        let mut i: usize = 0;
        while i < self.names.len()
            invariant
                i <= self.names.len(),
                forall|j: int| 0 <= j < i ==> (#[trigger] self.names[j])@ != name@,
            decreases self.names.len() - i,
        {
            if self.names[i] == *name {
                return Some(i);
            }
            i += 1;
        }
        None
    }

    /// Number of registered names.
    pub fn len(&self) -> (n: usize)
        requires
            self.wf(),
        ensures
            n == self@.dom().len(),
            self@.dom().finite(),
    {
        proof {
            self.lemma_dom_len(self.names.len() as int);
            assert(self.prefix_dom(self.names.len() as int) =~= self@.dom());
        }
        self.names.len()
    }

    spec fn prefix_dom(&self, n: int) -> Set<Seq<char>> {
        Set::new(|k: Seq<char>| exists|i: int| 0 <= i < n && #[trigger] self.names[i]@ == k)
    }

    proof fn lemma_dom_len(&self, n: int)
        requires
            self.wf(),
            0 <= n <= self.names.len(),
        ensures
            self.prefix_dom(n).finite(),
            self.prefix_dom(n).len() == n,
        decreases n,
    {
        if n == 0 {
            assert(self.prefix_dom(0) =~= Set::<Seq<char>>::empty());
        } else {
            self.lemma_dom_len(n - 1);
            let k = self.names[n - 1]@;
            assert(self.prefix_dom(n) =~= self.prefix_dom(n - 1).insert(k)) by {
                assert forall|x: Seq<char>| self.prefix_dom(n - 1).insert(k).contains(x)
                    implies self.prefix_dom(n).contains(x) by {
                    if x == k {
                        assert(self.names[n - 1]@ == x);
                    } else {
                        let i = choose|i: int| 0 <= i < n - 1 && #[trigger] self.names[i]@ == x;
                        assert(0 <= i < n && self.names[i]@ == x);
                    }
                }
            }
            if self.prefix_dom(n - 1).contains(k) {
                let i = choose|i: int| 0 <= i < n - 1 && #[trigger] self.names[i]@ == k;
                assert(self.names[i]@ != self.names[n - 1]@);
            }
        }
    }

    /// Inserts the mapping from `name` to `path`, replacing the path of a
    /// name that is already registered. Nothing else changes.
    pub fn register(&mut self, name: &str, path: &str)
        requires
            old(self).wf(),
        ensures
            final(self).wf(),
            final(self)@ == old(self)@.insert(name@, path@),
    {
        let key = name.to_owned();
        let value = path.to_owned();
        match self.find(&key) {
            Some(i) => {
                self.paths.set(i, value);
                proof {
                    assert forall|k: Seq<char>| old(self).holds(k) implies self.holds(k) by {
                        let j = old(self).slot(k);
                        assert(self.names[j]@ == k);
                    }
                    assert forall|k: Seq<char>| self.holds(k) implies old(self).holds(k) by {
                        let j = self.slot(k);
                        assert(old(self).names[j]@ == k);
                    }
                    old(self).lemma_slot(i as int);
                    assert forall|k: Seq<char>| self.holds(k) implies #[trigger] self@[k] == old(
                        self,
                    )@.insert(name@, path@)[k] by {
                        let j = self.slot(k);
                        self.lemma_slot(j);
                        old(self).lemma_slot(j);
                    }
                    assert(self@ =~= old(self)@.insert(name@, path@));
                }
            },
            None => {
                self.names.push(key);
                self.paths.push(value);
                proof {
                    let n = old(self).names.len() as int;
                    assert forall|a: int, b: int| 0 <= a < b < self.names.len() implies self.names[a]@
                        != self.names[b]@ by {
                        if b == n {
                            assert(old(self).names[a]@ == self.names[a]@);
                        } else {
                            assert(old(self).names[a]@ == self.names[a]@);
                            assert(old(self).names[b]@ == self.names[b]@);
                        }
                    }
                    self.lemma_slot(n);
                    assert forall|k: Seq<char>| old(self).holds(k) implies self.holds(k) by {
                        let j = old(self).slot(k);
                        assert(self.names[j]@ == k);
                    }
                    assert forall|k: Seq<char>| self.holds(k) && k != name@ implies old(self).holds(
                        k,
                    ) by {
                        let j = self.slot(k);
                        assert(j != n);
                        assert(old(self).names[j]@ == k);
                    }
                    assert forall|k: Seq<char>| self.holds(k) implies #[trigger] self@[k] == old(
                        self,
                    )@.insert(name@, path@)[k] by {
                        let j = self.slot(k);
                        self.lemma_slot(j);
                        if j != n {
                            assert(old(self).names[j]@ == k);
                            old(self).lemma_slot(j);
                        }
                    }
                    assert(self@ =~= old(self)@.insert(name@, path@));
                }
            },
        }
    }

    /// Looks `name` up. A registered name gives its path; any other name is
    /// reported as unknown. The registry is not changed.
    pub fn resolve(&self, name: &str) -> (r: Result<String, AudioError>)
        requires
            self.wf(),
        ensures
            match r {
                Ok(path) => self@.contains_key(name@) && path@ == self@[name@],
                Err(e) => !self@.contains_key(name@) && e == AudioError::UnknownClip,
            },
    {
        let key = name.to_owned();
        match self.find(&key) {
            Some(i) => {
                proof {
                    self.lemma_slot(i as int);
                }
                Ok(self.paths[i].clone())
            },
            None => Err(AudioError::UnknownClip),
        }
    }
}

} // verus!
