use vstd::prelude::*;

verus! {

/// A logical key. Only `Up` and `Down` steer the game; any other key is
/// carried by its code.
#[derive(Clone, Copy, Debug, PartialEq, Eq, Structural)]
pub enum Key {
    Up,
    Down,
    Other(u32),
}

/// The set of keys currently held down.
pub struct KeySet {
    held: Vec<Key>,
}

impl View for KeySet {
    type V = Set<Key>;

    closed spec fn view(&self) -> Set<Key> {
        self.held@.to_set()
    }
}

impl KeySet {
    /// No key is stored twice.
    pub closed spec fn wf(&self) -> bool {
        self.held@.no_duplicates()
    }

    /// An empty set: no key is held.
    pub fn new() -> (r: KeySet)
        ensures
            r.wf(),
            r@ == Set::<Key>::empty(),
    {
        let r = KeySet { held: Vec::new() };
        assert(r@ =~= Set::<Key>::empty());
        r
    }

    fn position(&self, key: Key) -> (r: Option<usize>)
        ensures
            match r {
                Some(i) => i < self.held@.len() && self.held@[i as int] == key,
                None => !self.held@.contains(key),
            },
    {
        let mut i: usize = 0;
        while i < self.held.len()
            invariant
                i <= self.held@.len(),
                forall|j: int| 0 <= j < i ==> self.held@[j] != key,
            decreases self.held@.len() - i,
        {
            if self.held[i] == key {
                return Some(i);
            }
            i = i + 1;
        }
        None
    }

    /// Whether `key` is held.
    pub fn is_held(&self, key: Key) -> (r: bool)
        ensures
            r == self@.contains(key),
    {
        match self.position(key) {
            Some(_) => true,
            None => false,
        }
    }

    /// Records that `key` went down.
    pub fn press(&mut self, key: Key)
        requires
            old(self).wf(),
        ensures
            final(self).wf(),
            final(self)@ == old(self)@.insert(key),
    {
        match self.position(key) {
            Some(_) => {
                assert(self@ =~= self@.insert(key));
            },
            None => {
                let ghost before = self.held@;
                self.held.push(key);
                proof {
                    assert(self.held@ =~= before.push(key));
                    before.lemma_push_to_set_commute(key);
                }
                assert forall|a: int, b: int|
                    0 <= a < b < self.held@.len() implies self.held@[a] != self.held@[b] by {
                    if b == before.len() {
                        assert(before.contains(before[a]));
                    }
                }
            },
        }
    }

    /// Records that `key` went up.
    pub fn release(&mut self, key: Key)
        requires
            old(self).wf(),
        ensures
            final(self).wf(),
            final(self)@ == old(self)@.remove(key),
    {
        match self.position(key) {
            Some(i) => {
                let ghost before = self.held@;
                self.held.remove(i);
                assert(self.held@ =~= before.remove(i as int));
                assert(self@ =~= before.to_set().remove(key)) by {
                    assert forall|k: Key| self@.contains(k) <==> before.to_set().remove(key).contains(k) by {
                        if self@.contains(k) {
                            let j = choose|j: int| 0 <= j < self.held@.len() && self.held@[j] == k;
                            if j < i {
                                assert(before[j] == k);
                            } else {
                                assert(before[j + 1] == k);
                            }
                        }
                        if before.to_set().remove(key).contains(k) {
                            let j = choose|j: int| 0 <= j < before.len() && before[j] == k;
                            if j < i {
                                assert(self.held@[j] == k);
                            } else {
                                assert(self.held@[j - 1] == k);
                            }
                        }
                    }
                }
            },
            None => {
                assert(self@ =~= self@.remove(key));
            },
        }
    }
}

} // verus!
