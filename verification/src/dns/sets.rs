//! A set of domain names without duplicates.
use vstd::prelude::*;
use crate::text::{eq_chars, names_of};

verus! {

/// A set of domain names, each held as its characters.
pub struct DomainSet {
    pub items: Vec<Vec<char>>,
}

impl View for DomainSet {
    type V = Set<Seq<char>>;

    open spec fn view(&self) -> Set<Seq<char>> {
        names_of(self.items@).to_set()
    }
}

impl DomainSet {
    /// No name is held twice.
    pub open spec fn wf(&self) -> bool {
        names_of(self.items@).no_duplicates()
    }

    /// The empty set.
    pub fn new() -> (r: Self)
        ensures
            r.wf(),
            r@ == Set::<Seq<char>>::empty(),
    {
        let r = DomainSet { items: Vec::new() };
        assert(names_of(r.items@) =~= Seq::<Seq<char>>::empty());
        r
    }

    /// Index of `name` in the backing list, if held.
    fn position(&self, name: &[char]) -> (r: Option<usize>)
        ensures
            match r {
                Some(i) => i < self.items@.len() && self.items@[i as int]@ == name@,
                None => !self@.contains(name@),
            },
    {
        let mut i: usize = 0;
        while i < self.items.len()
            invariant
                i <= self.items@.len(),
                forall|j: int| 0 <= j < i ==> self.items@[j]@ != name@,
            decreases self.items@.len() - i,
        {
            if eq_chars(self.items[i].as_slice(), name) {
                return Some(i);
            }
            i += 1;
        }
        proof {
            if names_of(self.items@).to_set().contains(name@) {
                let k = choose|k: int| 0 <= k < names_of(self.items@).len() && names_of(self.items@)[k] == name@;
                assert(self.items@[k]@ == name@);
            }
        }
        None
    }

    /// Whether `name` is held.
    pub fn contains(&self, name: &[char]) -> (r: bool)
        ensures
            r == self@.contains(name@),
    {
        match self.position(name) {
            Some(i) => {
                assert(names_of(self.items@)[i as int] == name@);
                true
            },
            None => false,
        }
    }

    /// Number of names held.
    pub fn len(&self) -> (r: usize)
        requires
            self.wf(),
        ensures
            r == self@.len(),
    {
        proof {
            names_of(self.items@).unique_seq_to_set();
        }
        self.items.len()
    }

    /// Adds `name`; a name already held is left as it is.
    pub fn insert(&mut self, name: Vec<char>)
        requires
            old(self).wf(),
        ensures
            final(self).wf(),
            final(self)@ == old(self)@.insert(name@),
    {
        if self.contains(name.as_slice()) {
            assert(old(self)@.insert(name@) =~= old(self)@);
            return;
        }
        let ghost old_names = names_of(self.items@);
        self.items.push(name);
        proof {
            let nn = names_of(self.items@);
            assert(nn =~= old_names.push(name@));
            assert(!old_names.contains(name@)) by {
                if old_names.contains(name@) {
                    let k = choose|k: int| 0 <= k < old_names.len() && old_names[k] == name@;
                    assert(old_names.to_set().contains(name@));
                }
            }
            assert forall|a: int, b: int| 0 <= a < b < nn.len() implies nn[a] != nn[b] by {
                if b == nn.len() - 1 {
                    assert(old_names.contains(nn[a]) || nn[a] != name@);
                }
            }
            assert(nn.to_set() =~= old_names.to_set().insert(name@)) by {
                assert forall|x: Seq<char>| nn.to_set().contains(x) implies old_names.to_set().insert(name@).contains(x) by {
                    let k = choose|k: int| 0 <= k < nn.len() && nn[k] == x;
                    if k < old_names.len() {
                        assert(old_names[k] == x);
                    }
                }
                assert forall|x: Seq<char>| old_names.to_set().insert(name@).contains(x) implies nn.to_set().contains(x) by {
                    if x == name@ {
                        assert(nn[nn.len() - 1] == x);
                    } else {
                        let k = choose|k: int| 0 <= k < old_names.len() && old_names[k] == x;
                        assert(nn[k] == x);
                    }
                }
            }
        }
    }

    /// Removes `name` if held.
    pub fn remove(&mut self, name: &[char])
        requires
            old(self).wf(),
        ensures
            final(self).wf(),
            final(self)@ == old(self)@.remove(name@),
    {
        match self.position(name) {
            None => {
                assert(old(self)@.remove(name@) =~= old(self)@);
            },
            Some(i) => {
                let ghost old_names = names_of(self.items@);
                self.items.remove(i);
                proof {
                    let nn = names_of(self.items@);
                    assert(nn =~= old_names.remove(i as int));
                    assert forall|a: int, b: int| 0 <= a < b < nn.len() implies nn[a] != nn[b] by {
                        let a2 = if a < i { a } else { a + 1 };
                        let b2 = if b < i { b } else { b + 1 };
                        assert(nn[a] == old_names[a2] && nn[b] == old_names[b2]);
                    }
                    assert(nn.to_set() =~= old_names.to_set().remove(name@)) by {
                        assert forall|x: Seq<char>| nn.to_set().contains(x) implies old_names.to_set().remove(name@).contains(x) by {
                            let k = choose|k: int| 0 <= k < nn.len() && nn[k] == x;
                            let k2 = if k < i { k } else { k + 1 };
                            assert(old_names[k2] == x);
                            assert(k2 != i);
                            assert(old_names[i as int] == name@);
                            assert(x != name@);
                            assert(old_names.to_set().contains(x));
                        }
                        assert forall|x: Seq<char>| old_names.to_set().remove(name@).contains(x) implies nn.to_set().contains(x) by {
                            let k = choose|k: int| 0 <= k < old_names.len() && old_names[k] == x;
                            assert(k != i);
                            if k < i {
                                assert(nn[k] == x);
                            } else {
                                assert(nn[k - 1] == x);
                            }
                        }
                    }
                }
            },
        }
    }

    /// Replaces the contents by the given names; repeated names are held once.
    pub fn from_names(names: Vec<Vec<char>>) -> (r: Self)
        ensures
            r.wf(),
            r@ == names_of(names@).to_set(),
    {
        let mut r = Self::new();
        let mut i: usize = 0;
        while i < names.len()
            invariant
                i <= names@.len(),
                r.wf(),
                r@ == names_of(names@.subrange(0, i as int)).to_set(),
            decreases names@.len() - i,
        {
            let ghost before = r@;
            r.insert(names[i].clone());
            proof {
                assert(names_of(names@.subrange(0, i + 1)) =~= names_of(names@.subrange(0, i as int)).push(names@[i as int]@));
                assert(names_of(names@.subrange(0, i + 1)).to_set() =~= names_of(names@.subrange(0, i as int)).to_set().insert(names@[i as int]@)) by {
                    let a = names_of(names@.subrange(0, i as int));
                    let b = names_of(names@.subrange(0, i + 1));
                    assert forall|x: Seq<char>| b.to_set().contains(x) implies a.to_set().insert(names@[i as int]@).contains(x) by {
                        let k = choose|k: int| 0 <= k < b.len() && b[k] == x;
                        if k < a.len() {
                            assert(a[k] == x);
                        }
                    }
                    assert forall|x: Seq<char>| a.to_set().insert(names@[i as int]@).contains(x) implies b.to_set().contains(x) by {
                        if x == names@[i as int]@ {
                            assert(b[i as int] == x);
                        } else {
                            let k = choose|k: int| 0 <= k < a.len() && a[k] == x;
                            assert(b[k] == x);
                        }
                    }
                }
            }
            i += 1;
        }
        assert(names@.subrange(0, names@.len() as int) =~= names@);
        r
    }
}

} // verus!
