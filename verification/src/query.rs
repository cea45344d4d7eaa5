//! The query engine: resolving the set of entities whose stored
//! components match a capability pattern.
//!
//! A query names a fetch list of (type key, access kind) signatures and a
//! filter list of `With` / `Without` markers. It selects the entities
//! whose stored type set is a superset of the required types — the
//! non-optional fetch types together with the `With` types — and disjoint
//! from the `Without` types; optional fetch types take no part in the
//! superset test. The entity set is recomputed from the world's live
//! index on every resolution, never cached, so results always reflect the
//! current world state. Result order is unspecified.

use vstd::prelude::*;

use crate::ecs::{BorrowSignature, RefType};
use crate::entity::Entity;
use crate::keymap::KeySet;
use crate::world::{World, WorldView};

verus! {

/// A filter marker: matched entities must hold a component of this type,
/// though the query borrows no value of it.
pub struct With(pub u64);

/// A filter marker: matched entities must hold no component of this
/// type.
pub struct Without(pub u64);

/// A query parameter that contributes filter types but borrows nothing.
pub trait ReadOnlyQueryParam {
    /// Adds this filter's type keys to the required and excluded sets.
    fn get_components(&self, with_set: &mut KeySet, without_set: &mut KeySet);
}

impl ReadOnlyQueryParam for With {
    fn get_components(&self, with_set: &mut KeySet, without_set: &mut KeySet)
        ensures
            final(with_set)@ == old(with_set)@.insert(self.0),
            final(without_set)@ == old(without_set)@,
    {
        with_set.insert(self.0);
    }
}

impl ReadOnlyQueryParam for Without {
    fn get_components(&self, with_set: &mut KeySet, without_set: &mut KeySet)
        ensures
            final(with_set)@ == old(with_set)@,
            final(without_set)@ == old(without_set)@.insert(self.0),
    {
        without_set.insert(self.0);
    }
}

/// A capability pattern over entities: what to fetch and how to filter.
pub struct Query {
    /// The component types the query borrows, with their access kinds.
    pub fetch: Vec<BorrowSignature>,
    /// Types a matched entity must hold.
    pub with: Vec<With>,
    /// Types a matched entity must not hold.
    pub without: Vec<Without>,
}

impl Query {
    /// The non-optional fetch types: they seed resolution and join the
    /// superset test.
    pub open spec fn required_fetch_keys(self) -> Set<u64> {
        Set::new(
            |k: u64|
                exists|i: int|
                    0 <= i < self.fetch@.len() && self.fetch@[i].0 == k && !self.fetch@[i].1.is_optional(),
        )
    }

    /// The types the `With` filters demand.
    pub open spec fn with_keys(self) -> Set<u64> {
        Set::new(|k: u64| exists|i: int| 0 <= i < self.with@.len() && self.with@[i].0 == k)
    }

    /// Everything a matched entity must hold.
    pub open spec fn required_keys(self) -> Set<u64> {
        self.required_fetch_keys().union(self.with_keys())
    }

    /// The types the `Without` filters exclude.
    pub open spec fn without_keys(self) -> Set<u64> {
        Set::new(|k: u64| exists|i: int| 0 <= i < self.without@.len() && self.without@[i].0 == k)
    }

    /// Whether the fetch list names at least one non-optional type:
    /// without one there is nothing to seed resolution from, and the
    /// query matches no entity.
    pub open spec fn has_required_fetch(self) -> bool {
        exists|i: int| 0 <= i < self.fetch@.len() && !(#[trigger] self.fetch@[i]).1.is_optional()
    }

    /// Whether entity `e` matches this query in world state `w`.
    pub open spec fn matches_entity<V>(self, w: WorldView<V>, e: Entity) -> bool {
        &&& self.has_required_fetch()
        &&& w.typesets.contains_key(e)
        &&& self.required_keys().subset_of(w.typesets[e])
        &&& w.typesets[e].disjoint(self.without_keys())
    }

    /// Resolves the set of matching entities from the world's live
    /// index: each matching entity exactly once, in no promised order.
    /// Candidates are seeded from the per-type index of a required fetch
    /// type; the seed loses nothing, since a matching entity holds every
    /// required type, and the candidates are then filtered against the
    /// full required and excluded sets.
    pub fn fetch_entities<V>(&self, world: &World<V>) -> (r: Vec<Entity>)
        requires
            world.wf(),
        ensures
            r@.no_duplicates(),
            forall|e: Entity| r@.contains(e) <==> self.matches_entity(world@, e),
    {
        let mut required = KeySet::new();
        let mut without = KeySet::new();
        let mut seed: Option<u64> = None;

        let nf = self.fetch.len();
        let mut i: usize = 0;
        while i < nf
            invariant
                nf == self.fetch@.len(),
                0 <= i <= nf,
                forall|k: u64|
                    required@.contains(k) <==> exists|j: int|
                        0 <= j < i && self.fetch@[j].0 == k && !(#[trigger] self.fetch@[j]).1.is_optional(),
                without@ == Set::<u64>::empty(),
                match seed {
                    Some(k) => required@.contains(k),
                    None => required@ == Set::<u64>::empty(),
                },
            decreases nf - i,
        {
            let sig = self.fetch[i];
            let optional = matches!(sig.1, RefType::OptionalImmutable | RefType::OptionalMutable);
            if !optional {
                required.insert(sig.0);
                if seed.is_none() {
                    seed = Some(sig.0);
                }
                proof {
                    assert forall|k: u64|
                        required@.contains(k) <==> exists|j: int|
                            0 <= j < i + 1 && self.fetch@[j].0 == k && !(
                            #[trigger] self.fetch@[j]).1.is_optional() by {
                        if required@.contains(k) && k != sig.0 {
                            assert(exists|j: int|
                                0 <= j < i && self.fetch@[j].0 == k && !(
                                #[trigger] self.fetch@[j]).1.is_optional());
                        }
                        if k == sig.0 {
                            assert(self.fetch@[i as int].0 == k);
                        }
                    }
                }
            } else {
                proof {
                    assert forall|k: u64|
                        required@.contains(k) <==> exists|j: int|
                            0 <= j < i + 1 && self.fetch@[j].0 == k && !(
                            #[trigger] self.fetch@[j]).1.is_optional() by {
                        if exists|j: int|
                            0 <= j < i + 1 && self.fetch@[j].0 == k && !(
                            #[trigger] self.fetch@[j]).1.is_optional() {
                            let j = choose|j: int|
                                0 <= j < i + 1 && self.fetch@[j].0 == k && !(
                                #[trigger] self.fetch@[j]).1.is_optional();
                            assert(j < i);
                        }
                    }
                }
            }
            i += 1;
        }

        proof {
            assert forall|k: u64|
                required@.contains(k) <==> self.required_fetch_keys().contains(k) by {}
            if seed is None {
                assert(!self.has_required_fetch()) by {
                    if self.has_required_fetch() {
                        let j = choose|j: int|
                            0 <= j < self.fetch@.len() && !(#[trigger] self.fetch@[j]).1.is_optional();
                        assert(required@.contains(self.fetch@[j].0));
                    }
                }
            }
        }

        let nw = self.with.len();
        let mut iw: usize = 0;
        while iw < nw
            invariant
                nw == self.with@.len(),
                0 <= iw <= nw,
                forall|k: u64|
                    required@.contains(k) <==> self.required_fetch_keys().contains(k) || exists|
                        j: int,
                    | 0 <= j < iw && #[trigger] self.with@[j].0 == k,
                without@ == Set::<u64>::empty(),
                match seed {
                    Some(k) => required@.contains(k) && self.required_fetch_keys().contains(k),
                    None => !self.has_required_fetch(),
                },
            decreases nw - iw,
        {
            self.with[iw].get_components(&mut required, &mut without);
            proof {
                assert forall|k: u64|
                    required@.contains(k) <==> self.required_fetch_keys().contains(k) || exists|
                        j: int,
                    | 0 <= j < iw + 1 && #[trigger] self.with@[j].0 == k by {
                    if k == self.with@[iw as int].0 {
                        assert(self.with@[iw as int].0 == k);
                    } else if exists|j: int| 0 <= j < iw + 1 && #[trigger] self.with@[j].0 == k {
                        let j = choose|j: int| 0 <= j < iw + 1 && #[trigger] self.with@[j].0 == k;
                        assert(j < iw);
                    }
                }
            }
            iw += 1;
        }

        let nwo = self.without.len();
        let mut io: usize = 0;
        while io < nwo
            invariant
                nwo == self.without@.len(),
                0 <= io <= nwo,
                forall|k: u64| required@.contains(k) <==> self.required_keys().contains(k),
                forall|k: u64|
                    without@.contains(k) <==> exists|j: int|
                        0 <= j < io && #[trigger] self.without@[j].0 == k,
                match seed {
                    Some(k) => required@.contains(k) && self.required_fetch_keys().contains(k),
                    None => !self.has_required_fetch(),
                },
            decreases nwo - io,
        {
            self.without[io].get_components(&mut required, &mut without);
            proof {
                assert forall|k: u64|
                    without@.contains(k) <==> exists|j: int|
                        0 <= j < io + 1 && #[trigger] self.without@[j].0 == k by {
                    if k == self.without@[io as int].0 {
                        assert(self.without@[io as int].0 == k);
                    } else if exists|j: int| 0 <= j < io + 1 && #[trigger] self.without@[j].0 == k {
                        let j = choose|j: int|
                            0 <= j < io + 1 && #[trigger] self.without@[j].0 == k;
                        assert(j < io);
                    }
                }
            }
            io += 1;
        }

        proof {
            assert(required@ =~= self.required_keys());
            assert(without@ =~= self.without_keys());
        }

        let seed_key = match seed {
            Some(k) => k,
            None => {
                let r: Vec<Entity> = Vec::new();
                return r;
            },
        };

        let candidates = world.get_entities_with_component(seed_key);
        proof {
            world.lemma_index_agreement();
        }
        let n = candidates.len();
        let mut r: Vec<Entity> = Vec::new();
        let mut ic: usize = 0;
        while ic < n
            invariant
                world.wf(),
                n == candidates@.len(),
                0 <= ic <= n,
                candidates@.no_duplicates(),
                required@ == self.required_keys(),
                without@ == self.without_keys(),
                self.has_required_fetch(),
                r@.no_duplicates(),
                forall|e: Entity|
                    r@.contains(e) <==> exists|j: int|
                        0 <= j < ic && candidates@[j] == e && self.matches_entity(world@, e),
                forall|e: Entity| candidates@.contains(e) <==> world@.has_component(seed_key, e),
            decreases n - ic,
        {
            let e = candidates[ic];
            let ghost r0 = r@;
            proof {
                world.lemma_index_agreement();
                assert(candidates@[ic as int] == e);
                assert(candidates@.contains(e));
                assert(world@.has_component(seed_key, e));
                assert(world@.in_index(seed_key, e));
            }
            let types = world.get_entity_components(&e);
            let selected = types.contains_all(&required) && types.is_disjoint(&without);
            if selected {
                proof {
                    assert(self.matches_entity(world@, e));
                    if r0.contains(e) {
                        let j = choose|j: int|
                            0 <= j < ic && candidates@[j] == e && self.matches_entity(world@, e);
                        assert(candidates@[j] == candidates@[ic as int]);
                        assert(false);
                    }
                }
                r.push(e);
                proof {
                    assert forall|e2: Entity| r@.contains(e2) <==> (r0.contains(e2) || e2
                        == e) by {
                        if r@.contains(e2) {
                            let j = choose|j: int| 0 <= j < r@.len() && r@[j] == e2;
                            if j < r0.len() {
                                assert(r0[j] == e2);
                            }
                        }
                        if r0.contains(e2) {
                            let j = choose|j: int| 0 <= j < r0.len() && r0[j] == e2;
                            assert(r@[j] == e2);
                        }
                        if e2 == e {
                            assert(r@[r@.len() - 1] == e2);
                        }
                    }
                    assert(r@.no_duplicates()) by {
                        assert forall|m: int, n2: int|
                            0 <= m < n2 < r@.len() implies r@[m] != r@[n2] by {
                            if n2 < r0.len() {
                                assert(r0[m] == r@[m] && r0[n2] == r@[n2]);
                            } else {
                                if r@[m] == r@[n2] {
                                    assert(r0[m] == e);
                                    assert(r0.contains(e));
                                }
                            }
                        }
                    }
                    assert forall|e2: Entity|
                        r@.contains(e2) <==> exists|j: int|
                            0 <= j < ic + 1 && candidates@[j] == e2 && self.matches_entity(
                            world@,
                            e2,
                        ) by {
                        if r@.contains(e2) {
                            if e2 == e {
                                assert(0 <= ic < ic + 1 && candidates@[ic as int] == e2
                                    && self.matches_entity(world@, e2));
                            } else {
                                assert(r0.contains(e2));
                                let j = choose|j: int|
                                    0 <= j < ic && candidates@[j] == e2 && self.matches_entity(
                                    world@,
                                    e2,
                                );
                                assert(0 <= j < ic + 1 && candidates@[j] == e2
                                    && self.matches_entity(world@, e2));
                            }
                        }
                        if exists|j: int|
                            0 <= j < ic + 1 && candidates@[j] == e2 && self.matches_entity(
                            world@,
                            e2,
                        ) {
                            let j = choose|j: int|
                                0 <= j < ic + 1 && candidates@[j] == e2 && self.matches_entity(
                                world@,
                                e2,
                            );
                            if j == ic {
                                assert(e2 == e);
                            } else {
                                assert(r0.contains(e2));
                            }
                        }
                    }
                }
            } else {
                proof {
                    assert(!self.matches_entity(world@, e));
                    assert forall|e2: Entity|
                        r@.contains(e2) <==> exists|j: int|
                            0 <= j < ic + 1 && candidates@[j] == e2 && self.matches_entity(
                            world@,
                            e2,
                        ) by {
                        if exists|j: int|
                            0 <= j < ic + 1 && candidates@[j] == e2 && self.matches_entity(
                            world@,
                            e2,
                        ) {
                            let j = choose|j: int|
                                0 <= j < ic + 1 && candidates@[j] == e2 && self.matches_entity(
                                world@,
                                e2,
                            );
                            assert(j != ic);
                        }
                    }
                }
            }
            ic += 1;
        }
        proof {
            world.lemma_index_agreement();
            assert forall|e: Entity| r@.contains(e) <==> self.matches_entity(world@, e) by {
                if self.matches_entity(world@, e) {
                    assert(self.required_keys().contains(seed_key));
                    assert(world@.typesets[e].contains(seed_key));
                    assert(world@.in_index(seed_key, e));
                    assert(world@.has_component(seed_key, e));
                    assert(candidates@.contains(e));
                    let j = choose|j: int| 0 <= j < candidates@.len() && candidates@[j] == e;
                }
            }
        }
        r
    }
}

} // verus!
