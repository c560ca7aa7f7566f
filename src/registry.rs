//! A client-side record of one node's three synchronization mechanisms:
//! replicators (peer and collection), collection gating and document gating.
//! Each mechanism is added to and removed from on its own.
use vstd::prelude::*;
use crate::peer::PeerIdentity;
use crate::sets::{holds, pairs_for, set_of, NameSet};

verus! {

/// One collection that a replicator keeps in sync with one peer.
#[derive(Debug, Clone)]
struct Enrollment {
    peer_id: String,
    collection: String,
}

/// The (peer, collection) pairs held in `v`.
spec fn pair_set(v: Seq<Enrollment>) -> Set<(Seq<char>, Seq<char>)> {
    Set::new(
        |p: (Seq<char>, Seq<char>)|
            exists|i: int|
                0 <= i < v.len() && #[trigger] v[i].peer_id@ == p.0 && v[i].collection@ == p.1,
    )
}

/// The mathematical value of a [`SyncRegistry`].
pub struct RegistryView {
    /// (peer, collection) pairs that some replicator covers.
    pub replicated: Set<(Seq<char>, Seq<char>)>,
    /// Collections gated into peer synchronization.
    pub collections: Set<Seq<char>>,
    /// Documents gated into peer synchronization.
    pub documents: Set<Seq<char>>,
}

/// Which mechanisms cover one document.
#[derive(Debug, Clone, Copy, PartialEq, Eq)]
pub struct Coverage {
    /// A replicator covers the document's collection, for some peer.
    pub by_replicator: bool,
    /// The document's collection is gated.
    pub by_collection: bool,
    /// The document itself is gated.
    pub by_document: bool,
}

pub open spec fn add_replicator_spec(v: RegistryView, peer: Seq<char>, cols: Seq<String>) -> RegistryView {
    RegistryView { replicated: v.replicated.union(pairs_for(peer, cols)), ..v }
}

pub open spec fn remove_replicator_spec(v: RegistryView, peer: Seq<char>, cols: Seq<String>) -> RegistryView {
    RegistryView { replicated: v.replicated.difference(pairs_for(peer, cols)), ..v }
}

pub open spec fn add_collections_spec(v: RegistryView, names: Seq<String>) -> RegistryView {
    RegistryView { collections: v.collections.union(set_of(names)), ..v }
}

pub open spec fn remove_collections_spec(v: RegistryView, names: Seq<String>) -> RegistryView {
    RegistryView { collections: v.collections.difference(set_of(names)), ..v }
}

pub open spec fn add_documents_spec(v: RegistryView, ids: Seq<String>) -> RegistryView {
    RegistryView { documents: v.documents.union(set_of(ids)), ..v }
}

pub open spec fn remove_documents_spec(v: RegistryView, ids: Seq<String>) -> RegistryView {
    RegistryView { documents: v.documents.difference(set_of(ids)), ..v }
}

/// Whether some peer replicates `collection`.
pub open spec fn replicated_somewhere(v: RegistryView, collection: Seq<char>) -> bool {
    exists|peer: Seq<char>| #[trigger] v.replicated.contains((peer, collection))
}

/// The client's record of one node's synchronization set-up.
#[derive(Debug, Clone)]
pub struct SyncRegistry {
    replicators: Vec<Enrollment>,
    collections: NameSet,
    documents: NameSet,
}

impl View for SyncRegistry {
    type V = RegistryView;

    closed spec fn view(&self) -> RegistryView {
        RegistryView {
            replicated: pair_set(self.replicators@),
            collections: self.collections@,
            documents: self.documents@,
        }
    }
}

fn enrolled(v: &Vec<Enrollment>, peer_id: &String, collection: &String) -> (r: bool)
    ensures
        r == pair_set(v@).contains((peer_id@, collection@)),
{
    let mut i: usize = 0;
    while i < v.len()
        invariant
            i <= v@.len(),
            forall|j: int|
                0 <= j < i ==> !(v@[j].peer_id@ == peer_id@ && v@[j].collection@ == collection@),
        decreases v@.len() - i,
    {
        if v[i].peer_id == *peer_id && v[i].collection == *collection {
            return true;
        }
        i = i + 1;
    }
    assert(!pair_set(v@).contains((peer_id@, collection@)));
    false
}

impl SyncRegistry {
    /// A node with no mechanism configured.
    pub fn new() -> (r: SyncRegistry)
        ensures
            r@.replicated == Set::<(Seq<char>, Seq<char>)>::empty(),
            r@.collections == Set::<Seq<char>>::empty(),
            r@.documents == Set::<Seq<char>>::empty(),
    {
        let r = SyncRegistry {
            replicators: Vec::new(),
            collections: NameSet::new(),
            documents: NameSet::new(),
        };
        assert(pair_set(r.replicators@) =~= Set::<(Seq<char>, Seq<char>)>::empty());
        r
    }

    /// Records a replicator that keeps `collections` in sync with `peer`; a
    /// second one for the same peer adds to what the first covers.
    pub fn add_replicator(&mut self, peer: &PeerIdentity, collections: &Vec<String>)
        ensures
            final(self)@ == add_replicator_spec(old(self)@, peer.id@, collections@),
    {
        let ghost start = pair_set(self.replicators@);
        let mut k: usize = 0;
        while k < collections.len()
            invariant
                k <= collections@.len(),
                pair_set(self.replicators@) == start.union(
                    pairs_for(peer.id@, collections@.subrange(0, k as int)),
                ),
                self.collections == old(self).collections,
                self.documents == old(self).documents,
            decreases collections@.len() - k,
        {
            let ghost a = collections@.subrange(0, k as int);
            let ghost b = collections@.subrange(0, k + 1);
            let ghost before = self.replicators@;
            if !enrolled(&self.replicators, &peer.id, &collections[k]) {
                self.replicators.push(
                    Enrollment { peer_id: peer.id.clone(), collection: collections[k].clone() },
                );
            }
            proof {
                let c = collections@[k as int]@;
                assert forall|p: (Seq<char>, Seq<char>)| #[trigger]
                    pair_set(self.replicators@).contains(p) == pair_set(before).insert(
                        (peer.id@, c),
                    ).contains(p) by {
                    if pair_set(self.replicators@).contains(p) {
                        let i = choose|i: int|
                            0 <= i < self.replicators@.len() && #[trigger] self.replicators@[i].peer_id@
                                == p.0 && self.replicators@[i].collection@ == p.1;
                        if i < before.len() {
                            assert(before[i] == self.replicators@[i]);
                        }
                    }
                    if pair_set(before).contains(p) {
                        let i = choose|i: int|
                            0 <= i < before.len() && #[trigger] before[i].peer_id@ == p.0
                                && before[i].collection@ == p.1;
                        assert(self.replicators@[i] == before[i]);
                    }
                    if p == (peer.id@, c) && self.replicators@.len() > before.len() {
                        assert(self.replicators@[before.len() as int].peer_id@ == p.0);
                    }
                }
                assert forall|y: Seq<char>| #[trigger] set_of(b).contains(y) == (set_of(a).contains(
                    y,
                ) || y == c) by {
                    if set_of(b).contains(y) {
                        let i = choose|i: int| 0 <= i < b.len() && #[trigger] b[i]@ == y;
                        if i < k {
                            assert(a[i] == b[i]);
                        }
                    }
                    if set_of(a).contains(y) {
                        let i = choose|i: int| 0 <= i < a.len() && #[trigger] a[i]@ == y;
                        assert(b[i] == a[i]);
                    }
                    if y == c {
                        assert(b[k as int] == collections@[k as int]);
                    }
                }
                assert(pair_set(self.replicators@) =~= start.union(pairs_for(peer.id@, b)));
            }
            k = k + 1;
        }
        assert(collections@.subrange(0, k as int) == collections@);
        assert(final(self)@ == add_replicator_spec(old(self)@, peer.id@, collections@));
    }

    /// Records that the replicator for `peer` no longer covers `collections`.
    /// Removing what is not there changes nothing.
    pub fn remove_replicator(&mut self, peer: &PeerIdentity, collections: &Vec<String>)
        ensures
            final(self)@ == remove_replicator_spec(old(self)@, peer.id@, collections@),
    {
        let ghost before = self.replicators@;
        let mut kept: Vec<Enrollment> = Vec::new();
        let mut k: usize = 0;
        while k < self.replicators.len()
            invariant
                before == self.replicators@,
                k <= before.len(),
                self.collections == old(self).collections,
                self.documents == old(self).documents,
                before == old(self).replicators@,
                forall|p: (Seq<char>, Seq<char>)| #[trigger]
                    pair_set(kept@).contains(p) == (pair_set(before.subrange(0, k as int)).contains(
                        p,
                    ) && !pairs_for(peer.id@, collections@).contains(p)),
            decreases before.len() - k,
        {
            let ghost a = before.subrange(0, k as int);
            let ghost b = before.subrange(0, k + 1);
            let ghost kept_before = kept@;
            let e = &self.replicators[k];
            let drop = e.peer_id == peer.id && holds(collections, &e.collection);
            if !drop {
                kept.push(Enrollment { peer_id: e.peer_id.clone(), collection: e.collection.clone() });
            }
            proof {
                assert forall|p: (Seq<char>, Seq<char>)| #[trigger]
                    pair_set(kept@).contains(p) == (pair_set(b).contains(p) && !pairs_for(
                        peer.id@,
                        collections@,
                    ).contains(p)) by {
                    if pair_set(b).contains(p) {
                        let i = choose|i: int|
                            0 <= i < b.len() && #[trigger] b[i].peer_id@ == p.0 && b[i].collection@
                                == p.1;
                        if i < k {
                            assert(a[i] == b[i]);
                            assert(pair_set(a).contains(p));
                        }
                    }
                    if pair_set(a).contains(p) {
                        let i = choose|i: int|
                            0 <= i < a.len() && #[trigger] a[i].peer_id@ == p.0 && a[i].collection@
                                == p.1;
                        assert(b[i] == a[i]);
                    }
                    assert(b[k as int] == before[k as int]);
                    if pair_set(kept@).contains(p) {
                        let i = choose|i: int|
                            0 <= i < kept@.len() && #[trigger] kept@[i].peer_id@ == p.0
                                && kept@[i].collection@ == p.1;
                        if i < kept_before.len() {
                            assert(kept_before[i] == kept@[i]);
                            assert(pair_set(kept_before).contains(p));
                        }
                    }
                    if pair_set(kept_before).contains(p) {
                        let i = choose|i: int|
                            0 <= i < kept_before.len() && #[trigger] kept_before[i].peer_id@ == p.0
                                && kept_before[i].collection@ == p.1;
                        assert(kept@[i] == kept_before[i]);
                    }
                    if !drop && p == (before[k as int].peer_id@, before[k as int].collection@) {
                        assert(kept@[kept_before.len() as int].peer_id@ == p.0);
                    }
                }
            }
            k = k + 1;
        }
        assert(before.subrange(0, k as int) == before);
        self.replicators = kept;
        assert(pair_set(self.replicators@) =~= pair_set(before).difference(
            pairs_for(peer.id@, collections@),
        ));
        assert(final(self)@ == remove_replicator_spec(old(self)@, peer.id@, collections@));
    }

    /// Gates `names` into peer synchronization.
    pub fn add_peer_collections(&mut self, names: &Vec<String>)
        ensures
            final(self)@ == add_collections_spec(old(self)@, names@),
    {
        self.collections.insert_all(names);
    }

    /// Takes `names` out of peer synchronization.
    pub fn remove_peer_collections(&mut self, names: &Vec<String>)
        ensures
            final(self)@ == remove_collections_spec(old(self)@, names@),
    {
        self.collections.remove_all(names);
    }

    /// Gates the documents `ids` into peer synchronization.
    pub fn add_peer_documents(&mut self, ids: &Vec<String>)
        ensures
            final(self)@ == add_documents_spec(old(self)@, ids@),
    {
        self.documents.insert_all(ids);
    }

    /// Takes the documents `ids` out of peer synchronization.
    pub fn remove_peer_documents(&mut self, ids: &Vec<String>)
        ensures
            final(self)@ == remove_documents_spec(old(self)@, ids@),
    {
        self.documents.remove_all(ids);
    }

    /// Replaces the gated collections with what a node listed.
    pub fn set_peer_collections(&mut self, names: &Vec<String>)
        ensures
            final(self)@ == (RegistryView { collections: set_of(names@), ..old(self)@ }),
    {
        self.collections = NameSet::from_vec(names);
    }

    /// Replaces the gated documents with what a node listed.
    pub fn set_peer_documents(&mut self, ids: &Vec<String>)
        ensures
            final(self)@ == (RegistryView { documents: set_of(ids@), ..old(self)@ }),
    {
        self.documents = NameSet::from_vec(ids);
    }

    /// Whether a replicator keeps `collection` in sync with the peer `peer_id`.
    pub fn replicates(&self, peer_id: &String, collection: &String) -> (r: bool)
        ensures
            r == self@.replicated.contains((peer_id@, collection@)),
    {
        enrolled(&self.replicators, peer_id, collection)
    }

    /// Whether the collection `name` is gated.
    pub fn gates_collection(&self, name: &String) -> (r: bool)
        ensures
            r == self@.collections.contains(name@),
    {
        self.collections.contains(name)
    }

    /// Whether the document `id` is gated.
    pub fn gates_document(&self, id: &String) -> (r: bool)
        ensures
            r == self@.documents.contains(id@),
    {
        self.documents.contains(id)
    }

    /// The gated collections.
    pub fn peer_collections(&self) -> (r: Vec<String>)
        ensures
            set_of(r@) == self@.collections,
    {
        self.collections.to_vec()
    }

    /// The gated documents.
    pub fn peer_documents(&self) -> (r: Vec<String>)
        ensures
            set_of(r@) == self@.documents,
    {
        self.documents.to_vec()
    }

    /// Which mechanisms cover the document `doc_id` of `collection`; any
    /// number of them may at once.
    pub fn coverage(&self, collection: &String, doc_id: &String) -> (r: Coverage)
        ensures
            r.by_replicator == replicated_somewhere(self@, collection@),
            r.by_collection == self@.collections.contains(collection@),
            r.by_document == self@.documents.contains(doc_id@),
    {
        let mut by_replicator = false;
        let mut i: usize = 0;
        while i < self.replicators.len()
            invariant
                i <= self.replicators@.len(),
                by_replicator == exists|j: int|
                    0 <= j < i && #[trigger] self.replicators@[j].collection@ == collection@,
            decreases self.replicators@.len() - i,
        {
            if self.replicators[i].collection == *collection {
                by_replicator = true;
            }
            i = i + 1;
        }
        proof {
            if by_replicator {
                let j = choose|j: int|
                    0 <= j < i && #[trigger] self.replicators@[j].collection@ == collection@;
                assert(self@.replicated.contains((self.replicators@[j].peer_id@, collection@)));
            }
            if replicated_somewhere(self@, collection@) {
                let peer = choose|peer: Seq<char>| #[trigger]
                    self@.replicated.contains((peer, collection@));
                let j = choose|j: int|
                    0 <= j < self.replicators@.len() && #[trigger] self.replicators@[j].peer_id@
                        == peer && self.replicators@[j].collection@ == collection@;
                assert(self.replicators@[j].collection@ == collection@);
            }
        }
        Coverage {
            by_replicator,
            by_collection: self.collections.contains(collection),
            by_document: self.documents.contains(doc_id),
        }
    }
}

/// The three mechanisms are independent: adding to or removing from any one of
/// them leaves the other two exactly as they were.
pub proof fn mechanisms_are_independent(
    v: RegistryView,
    peer: Seq<char>,
    cols: Seq<String>,
    names: Seq<String>,
    ids: Seq<String>,
)
    ensures
        add_replicator_spec(v, peer, cols).collections == v.collections,
        add_replicator_spec(v, peer, cols).documents == v.documents,
        remove_replicator_spec(v, peer, cols).collections == v.collections,
        remove_replicator_spec(v, peer, cols).documents == v.documents,
        add_collections_spec(v, names).replicated == v.replicated,
        add_collections_spec(v, names).documents == v.documents,
        remove_collections_spec(v, names).replicated == v.replicated,
        remove_collections_spec(v, names).documents == v.documents,
        add_documents_spec(v, ids).replicated == v.replicated,
        add_documents_spec(v, ids).collections == v.collections,
        remove_documents_spec(v, ids).replicated == v.replicated,
        remove_documents_spec(v, ids).collections == v.collections,
{
}

} // verus!
