use vstd::prelude::*;

verus! {

/// The names of the agents that are alive, each at most once.
pub struct Players {
    names: Vec<String>,
}

impl Players {
    /// The names, in the order they joined.
    pub closed spec fn name_seq(&self) -> Seq<Seq<char>> {
        self.names@.map_values(|s: String| s@)
    }

    /// No name is held twice.
    pub open spec fn wf(&self) -> bool {
        self.name_seq().no_duplicates()
    }

    /// The set of living names.
    pub open spec fn view(&self) -> Set<Seq<char>> {
        self.name_seq().to_set()
    }

    /// An empty registry.
    pub fn new() -> (r: Players)
        ensures
            r.wf(),
            r@ == Set::<Seq<char>>::empty(),
    {
        let r = Players { names: Vec::new() };
        assert(r.name_seq() == Seq::<Seq<char>>::empty());
        r
    }

    fn index_of(&self, name: &String) -> (r: Option<usize>)
        ensures
            match r {
                Some(i) => i < self.names@.len() && self.name_seq()[i as int] == name@,
                None => !self@.contains(name@),
            },
    {
        let mut i: usize = 0;
        while i < self.names.len()
            invariant
                i <= self.names@.len(),
                forall|k: int| 0 <= k < i ==> self.name_seq()[k] != name@,
            decreases self.names@.len() - i,
        {
            if self.names[i] == *name {
                return Some(i);
            }
            i = i + 1;
        }
        proof {
            if self@.contains(name@) {
                let k = choose|k: int| 0 <= k < self.name_seq().len() && self.name_seq()[k] == name@;
                assert(self.name_seq()[k] == name@);
            }
        }
        None
    }

    /// Whether `name` is alive.
    pub fn contains(&self, name: &String) -> (r: bool)
        ensures
            r == self@.contains(name@),
    {
        match self.index_of(name) {
            Some(i) => {
                assert(self.name_seq().contains(name@)) by {
                    assert(self.name_seq()[i as int] == name@);
                }
                true
            },
            None => false,
        }
    }

    /// Adds `name`; returns whether it was new.
    pub fn insert(&mut self, name: String) -> (r: bool)
        requires
            old(self).wf(),
        ensures
            final(self).wf(),
            r == !old(self)@.contains(name@),
            final(self)@ == old(self)@.insert(name@),
    {
        if self.contains(&name) {
            assert(self@.insert(name@) == self@);
            return false;
        }
        let ghost before = self.name_seq();
        let ghost n = name@;
        self.names.push(name);
        assert(self.name_seq() == before.push(n));
        assert(self.name_seq().no_duplicates()) by {
            assert forall|a: int, b: int| 0 <= a < b < self.name_seq().len() implies
                self.name_seq()[a] != self.name_seq()[b] by {
                if b == before.len() {
                    assert(before.contains(before[a]));
                }
            }
        }
        assert(self@ == before.to_set().insert(n)) by {
            assert forall|x: Seq<char>| self@.contains(x) <==> before.to_set().insert(n).contains(x) by {
                if self.name_seq().contains(x) {
                    let k = choose|k: int| 0 <= k < self.name_seq().len() && self.name_seq()[k] == x;
                    if k < before.len() {
                        assert(before[k] == x);
                    }
                }
                if before.contains(x) {
                    let k = choose|k: int| 0 <= k < before.len() && before[k] == x;
                    assert(self.name_seq()[k] == x);
                }
                if x == n {
                    assert(self.name_seq()[before.len() as int] == x);
                }
            }
        }
        true
    }

    /// Removes `name`; returns whether it was alive.
    pub fn remove(&mut self, name: &String) -> (r: bool)
        requires
            old(self).wf(),
        ensures
            final(self).wf(),
            r == old(self)@.contains(name@),
            final(self)@ == old(self)@.remove(name@),
    {
        match self.index_of(name) {
            None => {
                assert(self@.remove(name@) == self@);
                false
            },
            Some(i) => {
                let ghost before = self.name_seq();
                let ghost n = name@;
                assert(before.contains(n)) by {
                    assert(before[i as int] == n);
                }
                self.names.remove(i);
                assert(self.name_seq() == before.remove(i as int));
                assert(self.name_seq().no_duplicates()) by {
                    assert forall|a: int, b: int| 0 <= a < b < self.name_seq().len() implies
                        self.name_seq()[a] != self.name_seq()[b] by {
                        let a0 = if a < i { a } else { a + 1 };
                        let b0 = if b < i { b } else { b + 1 };
                        assert(self.name_seq()[a] == before[a0]);
                        assert(self.name_seq()[b] == before[b0]);
                    }
                }
                assert(self@ == before.to_set().remove(n)) by {
                    assert forall|x: Seq<char>| self@.contains(x) <==> before.to_set().remove(n).contains(x) by {
                        if self.name_seq().contains(x) {
                            let k = choose|k: int| 0 <= k < self.name_seq().len() && self.name_seq()[k] == x;
                            let k0 = if k < i { k } else { k + 1 };
                            assert(before[k0] == x);
                            assert(k0 != i);
                        }
                        if before.contains(x) && x != n {
                            let k = choose|k: int| 0 <= k < before.len() && before[k] == x;
                            assert(k != i);
                            if k < i {
                                assert(self.name_seq()[k] == x);
                            } else {
                                assert(self.name_seq()[k - 1] == x);
                            }
                        }
                    }
                }
                true
            },
        }
    }

    /// How many agents are alive.
    pub fn len(&self) -> (r: usize)
        requires
            self.wf(),
        ensures
            r == self@.len(),
    {
        proof {
            self.name_seq().unique_seq_to_set();
        }
        self.names.len()
    }

    /// The sole survivor, when exactly one agent is alive.
    pub fn winner(&self) -> (r: Option<String>)
        requires
            self.wf(),
        ensures
            self@.len() == 1 <==> r.is_some(),
            r matches Some(w) ==> self@ == set![w@],
    {
        proof {
            self.name_seq().unique_seq_to_set();
        }
        if self.names.len() == 1 {
            let w = self.names[0].clone();
            assert(self@ == set![w@]) by {
                assert(self.name_seq() == seq![w@]);
                assert forall|x: Seq<char>| self@.contains(x) <==> set![w@].contains(x) by {
                    if x == w@ {
                        assert(self.name_seq()[0] == x);
                    }
                }
            }
            Some(w)
        } else {
            None
        }
    }

    /// The living names, in the order they joined.
    pub fn names(&self) -> (r: Vec<String>)
        requires
            self.wf(),
        ensures
            r@.map_values(|s: String| s@).to_set() == self@,
            r@.len() == self@.len(),
    {
        proof {
            self.name_seq().unique_seq_to_set();
        }
        self.names.clone()
    }
}

} // verus!
