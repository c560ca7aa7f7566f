//! Sets of names (collection names, document identifiers) and of
//! (peer, collection) pairs, held in vectors and seen as mathematical sets.
use vstd::prelude::*;

verus! {

/// The names held in `v`, as a set.
pub open spec fn set_of(v: Seq<String>) -> Set<Seq<char>> {
    Set::new(|x: Seq<char>| exists|i: int| 0 <= i < v.len() && #[trigger] v[i]@ == x)
}

/// The pairs that enroll `peer` for each name in `v`.
pub open spec fn pairs_for(peer: Seq<char>, v: Seq<String>) -> Set<(Seq<char>, Seq<char>)> {
    Set::new(|p: (Seq<char>, Seq<char>)| p.0 == peer && set_of(v).contains(p.1))
}

/// Whether `x` is one of `v`.
pub fn holds(v: &Vec<String>, x: &String) -> (r: bool)
    ensures
        r == set_of(v@).contains(x@),
{
    let mut i: usize = 0;
    while i < v.len()
        invariant
            i <= v@.len(),
            forall|j: int| 0 <= j < i ==> v@[j]@ != x@,
        decreases v@.len() - i,
    {
        if v[i] == *x {
            assert(v@[i as int]@ == x@);
            return true;
        }
        i = i + 1;
    }
    false
}

/// A set of names.
#[derive(Debug, Clone)]
pub struct NameSet {
    items: Vec<String>,
}

impl View for NameSet {
    type V = Set<Seq<char>>;

    closed spec fn view(&self) -> Set<Seq<char>> {
        set_of(self.items@)
    }
}

impl NameSet {
    /// The empty set.
    pub fn new() -> (r: NameSet)
        ensures
            r@ == Set::<Seq<char>>::empty(),
    {
        let r = NameSet { items: Vec::new() };
        assert(r@ =~= Set::<Seq<char>>::empty());
        r
    }

    /// The set of the names in `v`.
    pub fn from_vec(v: &Vec<String>) -> (r: NameSet)
        ensures
            r@ == set_of(v@),
    {
        let mut r = NameSet::new();
        r.insert_all(v);
        assert(r@ =~= set_of(v@));
        r
    }

    /// Whether `x` is in the set.
    pub fn contains(&self, x: &String) -> (r: bool)
        ensures
            r == self@.contains(x@),
    {
        holds(&self.items, x)
    }

    /// Adds `x`.
    pub fn insert(&mut self, x: String)
        ensures
            final(self)@ == old(self)@.insert(x@),
    {
        if !holds(&self.items, &x) {
            let ghost before = self.items@;
            self.items.push(x);
            assert forall|y: Seq<char>| #[trigger] set_of(self.items@).contains(y) implies set_of(
                before,
            ).insert(x@).contains(y) by {
                let i = choose|i: int| 0 <= i < self.items@.len() && #[trigger] self.items@[i]@ == y;
                if i < before.len() {
                    assert(before[i] == self.items@[i]);
                }
            }
            assert forall|y: Seq<char>| #[trigger] set_of(before).insert(x@).contains(y) implies set_of(
                self.items@,
            ).contains(y) by {
                if y == x@ {
                    assert(self.items@[before.len() as int]@ == y);
                } else {
                    let i = choose|i: int| 0 <= i < before.len() && #[trigger] before[i]@ == y;
                    assert(self.items@[i] == before[i]);
                }
            }
        }
        assert(final(self)@ =~= old(self)@.insert(x@));
    }

    /// Adds every name of `v`.
    pub fn insert_all(&mut self, v: &Vec<String>)
        ensures
            final(self)@ == old(self)@.union(set_of(v@)),
    {
        let ghost start = self@;
        let mut k: usize = 0;
        while k < v.len()
            invariant
                k <= v@.len(),
                self@ == start.union(set_of(v@.subrange(0, k as int))),
            decreases v@.len() - k,
        {
            self.insert(v[k].clone());
            proof {
                let a = v@.subrange(0, k as int);
                let b = v@.subrange(0, k + 1);
                assert forall|y: Seq<char>| #[trigger] set_of(b).contains(y) == (set_of(a).contains(
                    y,
                ) || y == v@[k as int]@) by {
                    if set_of(b).contains(y) {
                        let i = choose|i: int| 0 <= i < b.len() && #[trigger] b[i]@ == y;
                        if i < k {
                            assert(a[i] == b[i]);
                        }
                    }
                    if set_of(a).contains(y) {
                        let i = choose|i: int| 0 <= i < a.len() && #[trigger] a[i]@ == y;
                        assert(b[i] == a[i]);
                    }
                    if y == v@[k as int]@ {
                        assert(b[k as int] == v@[k as int]);
                    }
                }
                assert(self@ =~= start.union(set_of(b)));
            }
            k = k + 1;
        }
        assert(v@.subrange(0, k as int) == v@);
    }

    /// Removes every name of `v`.
    pub fn remove_all(&mut self, v: &Vec<String>)
        ensures
            final(self)@ == old(self)@.difference(set_of(v@)),
    {
        let ghost before = self.items@;
        let mut kept: Vec<String> = Vec::new();
        let mut k: usize = 0;
        while k < self.items.len()
            invariant
                before == self.items@,
                k <= before.len(),
                forall|y: Seq<char>| #[trigger]
                    set_of(kept@).contains(y) == (set_of(before.subrange(0, k as int)).contains(y)
                        && !set_of(v@).contains(y)),
            decreases before.len() - k,
        {
            let ghost a = before.subrange(0, k as int);
            let ghost b = before.subrange(0, k + 1);
            let item = self.items[k].clone();
            let drop = holds(v, &item);
            let ghost kept_before = kept@;
            if !drop {
                kept.push(item);
            }
            proof {
                assert forall|y: Seq<char>| #[trigger] set_of(kept@).contains(y) == (set_of(
                    b,
                ).contains(y) && !set_of(v@).contains(y)) by {
                    if set_of(b).contains(y) {
                        let i = choose|i: int| 0 <= i < b.len() && #[trigger] b[i]@ == y;
                        if i < k {
                            assert(a[i] == b[i]);
                            assert(set_of(a).contains(y));
                        }
                    }
                    if set_of(a).contains(y) {
                        let i = choose|i: int| 0 <= i < a.len() && #[trigger] a[i]@ == y;
                        assert(b[i] == a[i]);
                    }
                    assert(b[k as int] == before[k as int]);
                    if set_of(kept@).contains(y) {
                        let i = choose|i: int| 0 <= i < kept@.len() && #[trigger] kept@[i]@ == y;
                        if i < kept_before.len() {
                            assert(kept_before[i] == kept@[i]);
                            assert(set_of(kept_before).contains(y));
                        }
                    }
                    if set_of(kept_before).contains(y) {
                        let i = choose|i: int|
                            0 <= i < kept_before.len() && #[trigger] kept_before[i]@ == y;
                        assert(kept@[i] == kept_before[i]);
                    }
                    if !drop && y == item@ {
                        assert(kept@[kept_before.len() as int]@ == y);
                    }
                }
            }
            k = k + 1;
        }
        assert(before.subrange(0, k as int) == before);
        self.items = kept;
        assert(final(self)@ =~= old(self)@.difference(set_of(v@)));
    }

    /// The names of the set.
    pub fn to_vec(&self) -> (r: Vec<String>)
        ensures
            set_of(r@) == self@,
    {
        self.items.clone()
    }
}

} // verus!
