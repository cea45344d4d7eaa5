//! Declared access signatures, borrow-conflict bookkeeping, and the
//! system protocol.
//!
//! A system declares, at registration time, which type keys it reads or
//! writes. Registration collides any two declarations of the same type —
//! whatever the mix of access kinds — so that a type accessed twice by
//! one system is surfaced once, when the system is registered, rather
//! than on every tick.

use vstd::prelude::*;

use crate::world::World;

verus! {

/// How a declared parameter touches its type: shared or exclusive, and
/// either required or optional.
#[derive(Debug, Clone, Copy, PartialEq, Eq, Hash, Structural)]
pub enum RefType {
    /// Shared access; the value must be present.
    Immutable,
    /// Exclusive access; the value must be present.
    Mutable,
    /// Shared access; absence is tolerated.
    OptionalImmutable,
    /// Exclusive access; absence is tolerated.
    OptionalMutable,
}

impl RefType {
    /// Whether this access kind tolerates an absent value.
    pub open spec fn is_optional(self) -> bool {
        self == RefType::OptionalImmutable || self == RefType::OptionalMutable
    }

    /// The optional counterpart of an access kind.
    pub open spec fn spec_make_optional(self) -> RefType {
        match self {
            RefType::Immutable => RefType::OptionalImmutable,
            RefType::Mutable => RefType::OptionalMutable,
            _ => self,
        }
    }

    /// Turns a required access kind into its optional counterpart; an
    /// already optional kind is unchanged.
    pub fn make_optional(self) -> (r: Self)
        ensures
            r == self.spec_make_optional(),
    {
        match self {
            RefType::Immutable => RefType::OptionalImmutable,
            RefType::Mutable => RefType::OptionalMutable,
            _ => self,
        }
    }
}

/// One declared access: a type key and the access kind. Equality is
/// defined on the type key alone — the access kind is metadata, not part
/// of the identity — so that two signatures for the same type collide in
/// conflict detection even when their access kinds differ.
#[derive(Debug, Clone, Copy)]
pub struct BorrowSignature(pub u64, pub RefType);

impl PartialEq for BorrowSignature {
    fn eq(&self, other: &Self) -> bool {
        self.0 == other.0
    }
}

impl vstd::std_specs::cmp::PartialEqSpecImpl for BorrowSignature {
    open spec fn obeys_eq_spec() -> bool {
        true
    }

    open spec fn eq_spec(&self, other: &BorrowSignature) -> bool {
        self.0 == other.0
    }
}

/// The type keys of a list of signatures.
pub open spec fn signature_keys(s: Seq<BorrowSignature>) -> Set<u64> {
    Set::new(|k: u64| exists|i: int| 0 <= i < s.len() && s[i].0 == k)
}

/// No two signatures in the list declare the same type.
pub open spec fn distinct_signatures(s: Seq<BorrowSignature>) -> bool {
    forall|i: int, j: int| 0 <= i < j < s.len() ==> s[i].0 != s[j].0
}

/// A collection of declared types that collides on type identity alone.
pub trait TypeSet {
    /// The set of type keys declared so far.
    spec fn declared(&self) -> Set<u64>;

    /// Declares an access to `type_key` and reports whether that type
    /// was fresh; a repeated type is the collision the conflict check
    /// looks for.
    fn insert_type(&mut self, type_key: u64, ref_type: RefType) -> (fresh: bool)
        ensures
            fresh <==> !old(self).declared().contains(type_key),
            final(self).declared() == old(self).declared().insert(type_key),
    ;
}

/// The borrow signatures one system declares, kept in declaration order.
pub struct SignatureSet {
    sigs: Vec<BorrowSignature>,
}

impl View for SignatureSet {
    type V = Seq<BorrowSignature>;

    closed spec fn view(&self) -> Seq<BorrowSignature> {
        self.sigs@
    }
}

impl SignatureSet {
    /// No declarations yet.
    pub fn new() -> (r: Self)
        ensures
            r@ == Seq::<BorrowSignature>::empty(),
    {
        SignatureSet { sigs: Vec::new() }
    }

    /// Whether some signature declares `type_key`.
    pub fn contains_type(&self, type_key: u64) -> (r: bool)
        ensures
            r == signature_keys(self@).contains(type_key),
    {
        let n = self.sigs.len();
        let mut i: usize = 0;
        while i < n
            invariant
                n == self@.len(),
                0 <= i <= n,
                forall|j: int| 0 <= j < i ==> self@[j].0 != type_key,
            decreases n - i,
        {
            if self.sigs[i].0 == type_key {
                return true;
            }
            i += 1;
        }
        false
    }
}

impl TypeSet for SignatureSet {
    closed spec fn declared(&self) -> Set<u64> {
        signature_keys(self.sigs@)
    }

    fn insert_type(&mut self, type_key: u64, ref_type: RefType) -> (fresh: bool)
        ensures
            fresh <==> !old(self).declared().contains(type_key),
            final(self).declared() == old(self).declared().insert(type_key),
    {
        let fresh = !self.contains_type(type_key);
        if fresh {
            self.sigs.push(BorrowSignature(type_key, ref_type));
        }
        proof {
            let s0 = old(self).sigs@;
            let s1 = self.sigs@;
            assert forall|k: u64|
                signature_keys(s1).contains(k) <==> signature_keys(s0).insert(
                    type_key,
                ).contains(k) by {
                if signature_keys(s1).contains(k) {
                    let i = choose|i: int| 0 <= i < s1.len() && s1[i].0 == k;
                    if i < s0.len() {
                        assert(s0[i].0 == k);
                    }
                }
                if k == type_key {
                    if fresh {
                        assert(s1[s1.len() - 1].0 == k);
                    }
                }
                if signature_keys(s0).contains(k) {
                    let i = choose|i: int| 0 <= i < s0.len() && s0[i].0 == k;
                    assert(s1[i].0 == k);
                }
            }
            assert(signature_keys(s1) =~= signature_keys(s0).insert(type_key));
        }
        fresh
    }
}

/// Searches a declared parameter list for two signatures naming the same
/// type, whatever their access kinds: the registration-time conflict
/// check. Reports the first doubled type key, or nothing when every
/// declared type is distinct.
pub fn find_conflict(signatures: &Vec<BorrowSignature>) -> (r: Option<u64>)
    ensures
        match r {
            Some(k) => exists|i: int, j: int|
                0 <= i < j < signatures@.len() && #[trigger] signatures@[i].0 == #[trigger]
                signatures@[j].0 && signatures@[j].0 == k,
            None => distinct_signatures(signatures@),
        },
{
    let mut seen = SignatureSet::new();
    let n = signatures.len();
    let mut i: usize = 0;
    while i < n
        invariant
            n == signatures@.len(),
            0 <= i <= n,
            seen.declared() =~= signature_keys(signatures@.subrange(0, i as int)),
            forall|m: int, j: int| 0 <= m < j < i ==> signatures@[m].0 != signatures@[j].0,
        decreases n - i,
    {
        let sig = signatures[i];
        let fresh = seen.insert_type(sig.0, sig.1);
        if !fresh {
            proof {
                let prefix = signatures@.subrange(0, i as int);
                assert(signature_keys(prefix).contains(sig.0));
                let m = choose|m: int| 0 <= m < prefix.len() && prefix[m].0 == sig.0;
                assert(signatures@[m].0 == sig.0);
                assert(signatures@[i as int].0 == sig.0);
            }
            return Some(sig.0);
        }
        proof {
            let pre = signatures@.subrange(0, i as int);
            let post = signatures@.subrange(0, i + 1);
            assert forall|k: u64|
                signature_keys(post).contains(k) <==> signature_keys(pre).insert(
                    sig.0,
                ).contains(k) by {
                if signature_keys(post).contains(k) {
                    let m = choose|m: int| 0 <= m < post.len() && post[m].0 == k;
                    if m < pre.len() {
                        assert(pre[m].0 == k);
                    } else {
                        assert(post[m] == sig);
                    }
                }
                if signature_keys(pre).contains(k) {
                    let m = choose|m: int| 0 <= m < pre.len() && pre[m].0 == k;
                    assert(post[m].0 == k);
                }
                if k == sig.0 {
                    assert(post[i as int].0 == k);
                }
            }
            assert(signature_keys(post) =~= signature_keys(pre).insert(sig.0));
            assert forall|m: int, j: int|
                0 <= m < j < i + 1 implies signatures@[m].0 != signatures@[j].0 by {
                if j == i {
                    if signatures@[m].0 == sig.0 {
                        assert(pre[m].0 == sig.0);
                        assert(signature_keys(pre).contains(sig.0));
                    }
                }
            }
        }
        i += 1;
    }
    proof {
        assert(signatures@.subrange(0, n as int) =~= signatures@);
    }
    None
}

/// A shared read of the resource stored under a type key.
pub struct Res(pub u64);

impl Res {
    /// The access this parameter declares.
    pub fn signature(&self) -> (r: BorrowSignature)
        ensures
            r == BorrowSignature(self.0, RefType::Immutable),
    {
        BorrowSignature(self.0, RefType::Immutable)
    }

    /// The access an `Option`-wrapped read declares: the same type,
    /// absence tolerated.
    pub fn optional_signature(&self) -> (r: BorrowSignature)
        ensures
            r == BorrowSignature(self.0, RefType::OptionalImmutable),
    {
        BorrowSignature(self.0, RefType::Immutable.make_optional())
    }

    /// The borrowed view this parameter materializes from the world: the
    /// resource, or nothing when a resource of this type was never
    /// stored — the caller that declared the access as required treats
    /// that absence as fatal.
    pub fn fetch<'w, V>(&self, world: &'w World<V>) -> (r: Option<&'w V>)
        requires
            world.wf(),
        ensures
            match r {
                Some(v) => world@.resources.contains_key(self.0) && *v
                    == world@.resources[self.0],
                None => !world@.resources.contains_key(self.0),
            },
    {
        world.get_resource(self.0)
    }
}

/// An exclusive write handle on the resource stored under a type key.
pub struct ResMut(pub u64);

impl ResMut {
    /// The access this parameter declares.
    pub fn signature(&self) -> (r: BorrowSignature)
        ensures
            r == BorrowSignature(self.0, RefType::Mutable),
    {
        BorrowSignature(self.0, RefType::Mutable)
    }

    /// The access an `Option`-wrapped write declares: the same type,
    /// absence tolerated.
    pub fn optional_signature(&self) -> (r: BorrowSignature)
        ensures
            r == BorrowSignature(self.0, RefType::OptionalMutable),
    {
        BorrowSignature(self.0, RefType::Mutable.make_optional())
    }

    /// The exclusive view this parameter materializes from the world:
    /// the world afterwards holds whatever the caller leaves behind the
    /// returned handle.
    pub fn fetch_mut<'w, V>(&self, world: &'w mut World<V>) -> (r: Option<&'w mut V>)
        requires
            old(world).wf(),
        ensures
            final(world).wf(),
            match r {
                Some(v) => old(world)@.resources.contains_key(self.0) && *v == old(
                    world,
                )@.resources[self.0] && final(world)@ == old(world)@.with_resource(
                    self.0,
                    *final(v),
                ),
                None => !old(world)@.resources.contains_key(self.0) && final(world)@ == old(
                    world,
                )@,
            },
    {
        world.get_resource_mut(self.0)
    }
}

/// A runnable unit: a function over declared parameters, wrapped with
/// whatever state it keeps between ticks.
pub trait System<V> {
    /// One invocation against the world. The world handed in is
    /// well-formed and stays so; what the system does with its declared
    /// access is its own business.
    fn run(&mut self, world: &mut World<V>)
        requires
            old(world).wf(),
        ensures
            final(world).wf(),
    ;
}

/// An ordered list of registered systems, addressable by index; systems
/// run in registration order.
pub struct SystemSet<S> {
    systems: Vec<S>,
}

impl<S> View for SystemSet<S> {
    type V = Seq<S>;

    closed spec fn view(&self) -> Seq<S> {
        self.systems@
    }
}

impl<S> SystemSet<S> {
    /// No systems registered yet.
    pub fn new() -> (r: Self)
        ensures
            r@ == Seq::<S>::empty(),
    {
        SystemSet { systems: Vec::new() }
    }

    /// How many systems are registered.
    pub fn len(&self) -> (r: usize)
        ensures
            r == self@.len(),
    {
        self.systems.len()
    }

    /// Registers a system under the access list it declares. Succeeds
    /// exactly when no two declared signatures name the same type;
    /// otherwise reports a doubled type key and registers nothing — the
    /// conflict is caught here, once, not at use time.
    pub fn add_system(&mut self, system: S, signatures: Vec<BorrowSignature>) -> (r: Result<
        (),
        u64,
    >)
        ensures
            match r {
                Ok(_) => distinct_signatures(signatures@) && final(self)@ == old(self)@.push(
                    system,
                ),
                Err(k) => final(self)@ == old(self)@ && exists|i: int, j: int|
                    0 <= i < j < signatures@.len() && #[trigger] signatures@[i].0 == #[trigger]
                    signatures@[j].0 && signatures@[j].0 == k,
            },
    {
        match crate::ecs::find_conflict(&signatures) {
            Some(k) => Err(k),
            None => {
                self.systems.push(system);
                Ok(())
            },
        }
    }

    /// The indices a schedule hands to the executor, in registration
    /// order.
    pub fn get_system_ids(&self) -> (r: Vec<usize>)
        ensures
            r@.len() == self@.len(),
            forall|i: int| 0 <= i < r@.len() ==> r@[i] == i,
    {
        let n = self.systems.len();
        let mut r: Vec<usize> = Vec::new();
        let mut i: usize = 0;
        while i < n
            invariant
                0 <= i <= n,
                r@.len() == i,
                forall|j: int| 0 <= j < i ==> r@[j] == j,
            decreases n - i,
        {
            r.push(i);
            i += 1;
        }
        r
    }

    /// Runs the system registered under `id` against the world. Only
    /// that system's own state can change: every other registered
    /// system is untouched.
    pub fn run_system_by_id<V>(&mut self, id: usize, world: &mut World<V>) where S: System<V>
        requires
            id < old(self)@.len(),
            old(world).wf(),
        ensures
            final(world).wf(),
            final(self)@.len() == old(self)@.len(),
            forall|j: int| 0 <= j < old(self)@.len() && j != id ==> final(self)@[j] == old(
                self,
            )@[j],
    {
        let system = &mut self.systems[id];
        system.run(world);
    }
}

} // verus!
