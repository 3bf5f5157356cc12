use vstd::prelude::*;

use crate::component::{
    kind_at, kind_index, kind_index_bijection, Component, ComponentKind, ComponentValue,
    KIND_COUNT,
};
use crate::entity::Entity;

verus! {

/// Number of `true` entries in a sequence of flags.
pub open spec fn count_true(s: Seq<bool>) -> nat
    decreases s.len(),
{
    if s.len() == 0 {
        0
    } else {
        count_true(s.drop_last()) + (if s.last() {
            1nat
        } else {
            0nat
        })
    }
}

/// Appending a flag adds one to the count exactly when the flag is set.
pub proof fn lemma_count_true_push(s: Seq<bool>, b: bool)
    ensures
        count_true(s.push(b)) == count_true(s) + (if b {
            1nat
        } else {
            0nat
        }),
{
    assert(s.push(b).drop_last() =~= s);
}

/// Overwriting one flag changes the count by the difference of the flags.
pub proof fn lemma_count_true_update(s: Seq<bool>, i: int, b: bool)
    requires
        0 <= i < s.len(),
    ensures
        count_true(s.update(i, b)) + (if s[i] {
            1nat
        } else {
            0nat
        }) == count_true(s) + (if b {
            1nat
        } else {
            0nat
        }),
    decreases s.len(),
{
    if i == s.len() - 1 {
        assert(s.update(i, b).drop_last() =~= s.drop_last());
    } else {
        lemma_count_true_update(s.drop_last(), i, b);
        assert(s.update(i, b).drop_last() =~= s.drop_last().update(i, b));
    }
}

/// The count never exceeds the length.
pub proof fn lemma_count_true_bound(s: Seq<bool>)
    ensures
        count_true(s) <= s.len(),
    decreases s.len(),
{
    if s.len() > 0 {
        lemma_count_true_bound(s.drop_last());
    }
}

/// A set flag makes the count positive.
pub proof fn lemma_count_true_positive(s: Seq<bool>, i: int)
    requires
        0 <= i < s.len(),
        s[i],
    ensures
        count_true(s) > 0,
    decreases s.len(),
{
    if i < s.len() - 1 {
        lemma_count_true_positive(s.drop_last(), i);
    }
}

/// The entity-component store.
///
/// Entities are generational handles over reusable slots. A slot's
/// generation is bumped every time its entity is destroyed, so a handle that
/// was destroyed never refers to a live entity again. A slot whose
/// generation has reached `u32::MAX` is retired after its last entity dies.
/// Each live slot holds at most one component of every [`ComponentKind`].
pub struct World {
    generations: Vec<u32>,
    alive: Vec<bool>,
    free: Vec<u32>,
    components: Vec<Option<ComponentValue>>,
    live: usize,
}

impl World {
    /// Number of slots ever allocated.
    pub closed spec fn slot_count(&self) -> nat {
        self.generations@.len()
    }

    /// Generation currently stored in slot `i`.
    pub closed spec fn generation_of(&self, i: int) -> u32 {
        self.generations@[i]
    }

    /// Whether slot `i` holds a live entity.
    pub closed spec fn slot_alive(&self, i: int) -> bool {
        self.alive@[i]
    }

    /// Whether slot `i` can be handed out again by `create_entity`.
    pub closed spec fn slot_free(&self, i: int) -> bool {
        self.free@.contains(i as u32)
    }

    /// Whether `e` names a live entity.
    pub open spec fn is_alive(&self, e: Entity) -> bool {
        &&& (e.spec_index() as int) < self.slot_count()
        &&& self.slot_alive(e.spec_index() as int)
        &&& self.generation_of(e.spec_index() as int) == e.spec_generation()
    }

    /// Whether `e` can never name a live entity again: its slot moved on to a
    /// newer generation, or the slot is retired for good.
    pub open spec fn is_stale(&self, e: Entity) -> bool {
        let i = e.spec_index() as int;
        &&& i < self.slot_count()
        &&& {
            ||| e.spec_generation() < self.generation_of(i)
            ||| (e.spec_generation() == self.generation_of(i) && self.generation_of(i)
                == u32::MAX && !self.slot_alive(i) && !self.slot_free(i))
        }
    }

    /// Raw component cell of slot `i` and kind `k`.
    pub closed spec fn cell(&self, i: int, k: ComponentKind) -> Option<ComponentValue> {
        self.components@[i * KIND_COUNT + kind_index(k)]
    }

    /// The component of kind `k` attached to `e`, if `e` is alive and has one.
    pub open spec fn component(&self, e: Entity, k: ComponentKind) -> Option<ComponentValue> {
        if self.is_alive(e) {
            self.cell(e.spec_index() as int, k)
        } else {
            None
        }
    }

    /// The component of type `T` attached to `e`, typed.
    pub open spec fn typed<T: Component>(&self, e: Entity) -> Option<T> {
        match self.component(e, T::spec_kind()) {
            Some(v) => T::spec_unwrap(v),
            None => None,
        }
    }

    /// Number of live entities.
    pub closed spec fn live_count(&self) -> nat {
        self.live as nat
    }

    /// Internal consistency of the store.
    pub closed spec fn wf(&self) -> bool {
        let n = self.generations@.len();
        &&& self.alive@.len() == n
        &&& self.components@.len() == n * KIND_COUNT
        &&& n <= u32::MAX
        &&& self.live as nat == count_true(self.alive@)
        &&& forall|j: int|
            0 <= j < self.free@.len() ==> {
                let s = #[trigger] self.free@[j] as int;
                &&& s < n
                &&& !self.alive@[s]
                &&& self.generations@[s] < u32::MAX
            }
        &&& forall|j1: int, j2: int|
            0 <= j1 < j2 < self.free@.len() ==> self.free@[j1] != self.free@[j2]
        &&& forall|i: int| 0 <= i < n && #[trigger] self.alive@[i] ==> self.generations@[i] < u32::MAX
        &&& forall|i: int, k: int|
            0 <= i < n && 0 <= k < KIND_COUNT && !self.alive@[i] ==> #[trigger] self.components@[i
                * KIND_COUNT + k] is None
        &&& forall|i: int, k: int|
            0 <= i < n && 0 <= k < KIND_COUNT ==> (#[trigger] self.components@[i * KIND_COUNT
                + k] matches Some(v) ==> kind_index(v.spec_kind()) == k)
    }

    /// Whether one more entity can be created without exhausting the
    /// `u32` index space.
    pub closed spec fn has_room(&self) -> bool {
        self.free@.len() > 0 || self.generations@.len() < u32::MAX
    }

    /// `other` has the same entities (slots, generations, liveness and free
    /// list) as `self`.
    pub closed spec fn same_entities(&self, other: &World) -> bool {
        &&& self.generations@ == other.generations@
        &&& self.alive@ == other.alive@
        &&& self.free@ == other.free@
        &&& self.live == other.live
    }

    /// Worlds with the same entities agree on liveness, staleness, counts
    /// and room.
    pub proof fn lemma_same_entities(&self, other: &World)
        requires
            self.same_entities(other),
        ensures
            other.same_entities(self),
            forall|e: Entity| self.is_alive(e) == other.is_alive(e),
            forall|e: Entity| self.is_stale(e) == other.is_stale(e),
            self.live_count() == other.live_count(),
            self.slot_count() == other.slot_count(),
            self.has_room() == other.has_room(),
    {
    }

    /// Slot indices always fit in `u32`.
    pub proof fn lemma_slot_bound(&self)
        requires
            self.wf(),
        ensures
            self.slot_count() <= u32::MAX,
    {
    }

    /// Every world has the same entities as itself.
    pub proof fn lemma_same_entities_refl(&self)
        ensures
            self.same_entities(self),
    {
    }

    /// Having the same entities is transitive.
    pub proof fn lemma_same_entities_trans(&self, b: &World, c: &World)
        requires
            self.same_entities(b),
            b.same_entities(c),
        ensures
            self.same_entities(c),
    {
    }

    /// A world with fewer than `u32::MAX` slots has room for one more entity.
    pub proof fn lemma_room_below_max_slots(&self)
        requires
            self.slot_count() < u32::MAX,
        ensures
            self.has_room(),
    {
    }

    /// Create an empty world.
    pub fn new() -> (w: Self)
        ensures
            w.wf(),
            w.has_room(),
            w.slot_count() == 0,
            w.live_count() == 0,
            forall|e: Entity| !w.is_alive(e),
    {
        World {
            generations: Vec::new(),
            alive: Vec::new(),
            free: Vec::new(),
            components: Vec::new(),
            live: 0,
        }
    }

    /// Whether `entity` names a live entity.
    pub fn entity_exists(&self, entity: Entity) -> (b: bool)
        requires
            self.wf(),
        ensures
            b == self.is_alive(entity),
    {
        let i = entity.index() as usize;
        i < self.generations.len() && self.alive[i] && self.generations[i] == entity.generation()
    }

    /// Number of live entities.
    pub fn entity_count(&self) -> (n: usize)
        requires
            self.wf(),
        ensures
            n == self.live_count(),
    {
        self.live
    }

    /// Number of slots ever allocated (live or not).
    pub fn entity_capacity(&self) -> (n: usize)
        requires
            self.wf(),
        ensures
            n == self.slot_count(),
    {
        self.generations.len()
    }

    /// The handle of slot `index` at its current generation.
    ///
    /// For an index past the allocated slots the handle has generation 0 and
    /// is not alive.
    pub fn entity_from_index(&self, index: u32) -> (e: Entity)
        requires
            self.wf(),
        ensures
            e.spec_index() == index,
            (index as int) < self.slot_count() ==> e.spec_generation() == self.generation_of(
                index as int,
            ),
            (index as int) >= self.slot_count() ==> e.spec_generation() == 0 && !self.is_alive(e),
    {
        let i = index as usize;
        if i < self.generations.len() {
            Entity::new(index, self.generations[i])
        } else {
            Entity::new(index, 0)
        }
    }

    /// Whether one more entity can be created.
    pub fn has_room_for_entity(&self) -> (b: bool)
        requires
            self.wf(),
        ensures
            b == self.has_room(),
    {
        self.free.len() > 0 || self.generations.len() < 0xFFFF_FFFF
    }

    /// Every live entity, in slot order.
    pub fn all_entities(&self) -> (v: Vec<Entity>)
        requires
            self.wf(),
        ensures
            forall|k: int| 0 <= k < v@.len() ==> self.is_alive(#[trigger] v@[k]),
            forall|a: int, b: int| 0 <= a < b < v@.len() ==> v@[a].spec_index() < v@[b].spec_index(),
            forall|e: Entity| self.is_alive(e) ==> v@.contains(e),
    {
        let mut v: Vec<Entity> = Vec::new();
        let n = self.generations.len();
        let mut i: usize = 0;
        while i < n
            invariant
                self.wf(),
                n == self.slot_count(),
                i <= n,
                forall|k: int| 0 <= k < v@.len() ==> self.is_alive(#[trigger] v@[k]),
                forall|k: int| 0 <= k < v@.len() ==> (#[trigger] v@[k]).spec_index() < i,
                forall|a: int, b: int| 0 <= a < b < v@.len() ==> v@[a].spec_index() < v@[b].spec_index(),
                forall|e: Entity| self.is_alive(e) && (e.spec_index() as int) < i ==> v@.contains(e),
            decreases n - i,
        {
            proof {
                self.lemma_slot_bound();
            }
            if self.alive[i] {
                let e = Entity::new(i as u32, self.generations[i]);
                let ghost before = v@;
                v.push(e);
                proof {
                    assert forall|e2: Entity| self.is_alive(e2) && (e2.spec_index() as int) < i + 1 implies v@.contains(e2) by {
                        if (e2.spec_index() as int) == i {
                            crate::entity::entity_equality(e2, e);
                            assert(v@[before.len() as int] == e);
                        } else {
                            let w = choose|w: int| 0 <= w < before.len() && before[w] == e2;
                            assert(v@[w] == before[w]);
                        }
                    }
                }
            }
            i = i + 1;
        }
        v
    }

    /// Create a new entity with no components.
    ///
    /// A freed slot is reused (with its bumped generation) when one exists;
    /// otherwise a new slot is appended.
    #[verifier::loop_isolation(false)]
    pub fn create_entity(&mut self) -> (e: Entity)
        requires
            old(self).wf(),
            old(self).has_room(),
        ensures
            final(self).wf(),
            !old(self).is_alive(e),
            final(self).is_alive(e),
            final(self).live_count() == old(self).live_count() + 1,
            forall|k: ComponentKind| final(self).component(e, k) is None,
            forall|e2: Entity|
                e2 != e ==> (final(self).is_alive(e2) == old(self).is_alive(e2)),
            forall|e2: Entity, k: ComponentKind|
                e2 != e ==> final(self).component(e2, k) == old(self).component(e2, k),
            forall|e2: Entity| old(self).is_stale(e2) ==> final(self).is_stale(e2),
            !old(self).is_stale(e),
            old(self).slot_count() <= final(self).slot_count(),
            final(self).slot_count() <= old(self).slot_count() + 1,
            forall|i: int|
                0 <= i < old(self).slot_count() ==> old(self).generation_of(i) == final(self).generation_of(i),
    {
        proof {
            lemma_count_true_bound(self.alive@);
        }
        let ghost n = self.generations@.len();
        if let Some(slot) = self.free.pop() {
            let ghost old_free = old(self).free@;
            proof {
                assert(old_free[old_free.len() - 1] == slot);
                assert(self.free@ =~= old_free.subrange(0, old_free.len() - 1));
            }
            let s = slot as usize;
            self.alive.set(s, true);
            proof {
                lemma_count_true_update(old(self).alive@, s as int, true);
                lemma_count_true_bound(self.alive@);
            }
            self.live = self.live + 1;
            let e = Entity::new(slot, self.generations[s]);
            proof {
                assert forall|j1: int, j2: int|
                    0 <= j1 < j2 < self.free@.len() implies self.free@[j1] != self.free@[j2] by {
                    assert(self.free@[j1] == old_free[j1]);
                    assert(self.free@[j2] == old_free[j2]);
                }
                assert forall|j: int| 0 <= j < self.free@.len() implies {
                    let t = #[trigger] self.free@[j] as int;
                    &&& t < n
                    &&& !self.alive@[t]
                    &&& self.generations@[t] < u32::MAX
                } by {
                    assert(self.free@[j] == old_free[j]);
                    assert(old_free[j] != old_free[old_free.len() - 1]);
                }
                assert forall|i: int, k: int|
                    0 <= i < n && 0 <= k < KIND_COUNT && !self.alive@[i] implies #[trigger] self.components@[i
                    * KIND_COUNT + k] is None by {
                    assert(i != s);
                }
                assert forall|e2: Entity| old(self).is_stale(e2) implies self.is_stale(e2) by {
                    if e2.spec_index() as int == s as int && e2.spec_generation() == old(self).generations@[s as int] {
                        assert(old(self).free@.contains(slot));
                    }
                }
                assert(old(self).free@.contains(slot));
                assert forall|e2: Entity| e2 != e implies (self.is_alive(e2) == old(self).is_alive(e2)) by {
                    crate::entity::entity_equality(e2, e);
                }
                assert forall|e2: Entity, kk: ComponentKind|
                    e2 != e implies self.component(e2, kk) == old(self).component(e2, kk) by {
                    kind_index_bijection(kk, 0);
                }
                assert forall|kk: ComponentKind| self.component(e, kk) is None by {
                    kind_index_bijection(kk, 0);
                }
            }
            e
        } else {
            let slot = self.generations.len() as u32;
            self.generations.push(0);
            self.alive.push(true);
            proof {
                lemma_count_true_push(old(self).alive@, true);
            }
            self.live = self.live + 1;
            let ghost gens = self.generations@;
            let ghost alv = self.alive@;
            let ghost fr = self.free@;
            let ghost lv = self.live;
            let mut k: usize = 0;
            while k < KIND_COUNT
                invariant
                    k <= KIND_COUNT,
                    self.generations@ == gens,
                    self.alive@ == alv,
                    self.free@ == fr,
                    self.live == lv,
                    self.components@.len() == n * KIND_COUNT + k,
                    forall|j: int|
                        0 <= j < n * KIND_COUNT ==> self.components@[j] == old(self).components@[j],
                    forall|j: int| n * KIND_COUNT <= j < n * KIND_COUNT + k ==> self.components@[j] is None,
                decreases KIND_COUNT - k,
            {
                self.components.push(None);
                k = k + 1;
            }
            let e = Entity::new(slot, 0);
            proof {
                assert forall|i: int, kk: int|
                    0 <= i < n + 1 && 0 <= kk < KIND_COUNT && !self.alive@[i] implies #[trigger] self.components@[i
                    * KIND_COUNT + kk] is None by {
                    assert(self.alive@[n as int]);
                    assert(i < n);
                    assert(i * KIND_COUNT + kk < n * KIND_COUNT);
                }
                assert forall|i: int, kk: int|
                    0 <= i < n + 1 && 0 <= kk < KIND_COUNT implies (#[trigger] self.components@[i
                    * KIND_COUNT + kk] matches Some(v) ==> kind_index(v.spec_kind()) == kk) by {
                    if i < n {
                        assert(i * KIND_COUNT + kk < n * KIND_COUNT);
                    }
                }
                assert forall|kk: ComponentKind| self.component(e, kk) is None by {
                    kind_index_bijection(kk, 0);
                }
                assert forall|e2: Entity| e2 != e implies (self.is_alive(e2) == old(self).is_alive(e2)) by {
                    crate::entity::entity_equality(e2, e);
                }
                assert forall|e2: Entity, kk: ComponentKind|
                    e2 != e implies self.component(e2, kk) == old(self).component(e2, kk) by {
                    kind_index_bijection(kk, 0);
                    crate::entity::entity_equality(e2, e);
                    if self.is_alive(e2) {
                        assert((e2.spec_index() as int) < n);
                        assert((e2.spec_index() as int) * KIND_COUNT + kind_index(kk) < n
                            * KIND_COUNT);
                    }
                }
                assert forall|j: int| 0 <= j < self.free@.len() implies {
                    let t = #[trigger] self.free@[j] as int;
                    &&& t < n + 1
                    &&& !self.alive@[t]
                    &&& self.generations@[t] < u32::MAX
                } by {
                    assert(self.free@[j] == old(self).free@[j]);
                }
            }
            e
        }
    }

    /// Destroy `entity` and all its components. No-op if it is not alive.
    ///
    /// The slot's generation is bumped so the handle becomes stale; a slot
    /// already at the last generation is retired instead of reused.
    #[verifier::loop_isolation(false)]
    pub fn destroy_entity(&mut self, entity: Entity)
        requires
            old(self).wf(),
        ensures
            final(self).wf(),
            !old(self).is_alive(entity) ==> *final(self) == *old(self),
            old(self).is_alive(entity) ==> final(self).live_count() + 1 == old(self).live_count(),
            !final(self).is_alive(entity),
            old(self).is_alive(entity) ==> final(self).is_stale(entity),
            forall|e2: Entity|
                e2 != entity ==> (final(self).is_alive(e2) == old(self).is_alive(e2)),
            forall|e2: Entity, k: ComponentKind|
                e2 != entity ==> final(self).component(e2, k) == old(self).component(e2, k),
            forall|e2: Entity| old(self).is_stale(e2) ==> final(self).is_stale(e2),
            final(self).slot_count() == old(self).slot_count(),
            final(self).has_room() || !old(self).has_room() || old(self).is_alive(entity),
            old(self).has_room() ==> final(self).has_room(),
    {
        if !self.entity_exists(entity) {
            return;
        }
        let s = entity.index() as usize;
        let ghost n = self.generations@.len();
        let clen = self.components.len();
        proof {
            lemma_count_true_positive(self.alive@, s as int);
        }
        self.alive.set(s, false);
        proof {
            lemma_count_true_update(old(self).alive@, s as int, false);
        }
        self.live = self.live - 1;
        let ghost gens = self.generations@;
        let ghost alv = self.alive@;
        let ghost fr = self.free@;
        let ghost lv = self.live;
        let mut k: usize = 0;
        while k < KIND_COUNT
            invariant
                k <= KIND_COUNT,
                self.generations@ == gens,
                self.alive@ == alv,
                self.free@ == fr,
                self.live == lv,
                s < n,
                self.components@.len() == n * KIND_COUNT,
                forall|j: int|
                    0 <= j < n * KIND_COUNT && !(s * KIND_COUNT <= j < s * KIND_COUNT + k)
                        ==> self.components@[j] == old(self).components@[j],
                forall|j: int| s * KIND_COUNT <= j < s * KIND_COUNT + k ==> self.components@[j] is None,
            decreases KIND_COUNT - k,
        {
            assert(s * KIND_COUNT + k < n * KIND_COUNT);
            self.components.set(s * KIND_COUNT + k, None);
            k = k + 1;
        }
        let g = self.generations[s];
        self.generations.set(s, g + 1);
        if g + 1 < u32::MAX {
            proof {
                assert(!old(self).free@.contains(s as u32));
            }
            self.free.push(s as u32);
        }
        proof {
            let ghost of = old(self).free@;
            assert(!old(self).free@.contains(s as u32));
            assert forall|e2: Entity| e2 != entity implies (self.is_alive(e2) == old(self).is_alive(e2)) by {
                crate::entity::entity_equality(e2, entity);
            }
            assert forall|i: int, kk: int|
                0 <= i < n && 0 <= kk < KIND_COUNT && !self.alive@[i] implies #[trigger] self.components@[i
                * KIND_COUNT + kk] is None by {
                if i != s {
                    assert(i * KIND_COUNT + kk < s * KIND_COUNT || i * KIND_COUNT + kk >= s
                        * KIND_COUNT + KIND_COUNT);
                }
            }
            assert forall|i: int, kk: int|
                0 <= i < n && 0 <= kk < KIND_COUNT implies (#[trigger] self.components@[i
                * KIND_COUNT + kk] matches Some(v) ==> kind_index(v.spec_kind()) == kk) by {
                if i != s {
                    assert(i * KIND_COUNT + kk < s * KIND_COUNT || i * KIND_COUNT + kk >= s
                        * KIND_COUNT + KIND_COUNT);
                }
            }
            assert forall|j: int| 0 <= j < self.free@.len() implies {
                let t = #[trigger] self.free@[j] as int;
                &&& t < n
                &&& !self.alive@[t]
                &&& self.generations@[t] < u32::MAX
            } by {
                if j < of.len() {
                    assert(self.free@[j] == of[j]);
                    assert(of[j] as int != s as int);
                }
            }
            assert forall|j1: int, j2: int|
                0 <= j1 < j2 < self.free@.len() implies self.free@[j1] != self.free@[j2] by {
                if j2 < of.len() {
                    assert(self.free@[j1] == of[j1]);
                    assert(self.free@[j2] == of[j2]);
                } else {
                    assert(self.free@[j1] == of[j1]);
                    assert(of[j1] as int != s as int);
                }
            }
            assert forall|i: int| 0 <= i < n && #[trigger] self.alive@[i] implies self.generations@[i] < u32::MAX by {
                assert(i != s);
            }
            assert forall|e2: Entity, kk: ComponentKind|
                e2 != entity implies self.component(e2, kk) == old(self).component(e2, kk) by {
                kind_index_bijection(kk, 0);
                crate::entity::entity_equality(e2, entity);
                if self.is_alive(e2) {
                    let i = e2.spec_index() as int;
                    assert(i != s);
                    assert(i * KIND_COUNT + kind_index(kk) < s * KIND_COUNT || i * KIND_COUNT
                        + kind_index(kk) >= s * KIND_COUNT + KIND_COUNT);
                }
            }
            assert forall|e2: Entity| old(self).is_stale(e2) implies self.is_stale(e2) by {
                if e2.spec_index() as int == s as int {
                    assert(self.generations@[s as int] >= old(self).generations@[s as int]);
                }
            }
        }
    }

    /// Attach `value` to `entity`, replacing any component of the same kind.
    /// No-op if the entity is not alive.
    pub fn add_value(&mut self, entity: Entity, value: ComponentValue)
        requires
            old(self).wf(),
        ensures
            final(self).wf(),
            final(self).same_entities(old(self)),
            old(self).is_alive(entity) ==> final(self).component(entity, value.spec_kind())
                == Some(value),
            !old(self).is_alive(entity) ==> *final(self) == *old(self),
            forall|e2: Entity, k: ComponentKind|
                !(e2 == entity && k == value.spec_kind()) ==> final(self).component(e2, k) == old(self).component(e2, k),
    {
        if !self.entity_exists(entity) {
            return;
        }
        let s = entity.index() as usize;
        let clen = self.components.len();
        let k = value.kind().index();
        proof {
            kind_index_bijection(value.spec_kind(), 0);
        }
        self.components.set(s * KIND_COUNT + k, Some(value));
        proof {
            assert forall|e2: Entity, kk: ComponentKind|
                !(e2 == entity && kk == value.spec_kind()) implies self.component(e2, kk) == old(self).component(e2, kk) by {
                kind_index_bijection(kk, 0);
                if self.is_alive(e2) {
                    let i = e2.spec_index() as int;
                    if i == s as int {
                        crate::entity::entity_equality(e2, entity);
                        assert(e2 == entity);
                        assert(kind_index(kk) != kind_index(value.spec_kind()));
                    } else {
                        assert(i * KIND_COUNT + kind_index(kk) < s * KIND_COUNT || i * KIND_COUNT
                            + kind_index(kk) >= s * KIND_COUNT + KIND_COUNT);
                    }
                }
            }
            assert forall|i: int, kk: int|
                0 <= i < self.slot_count() && 0 <= kk < KIND_COUNT && !self.alive@[i] implies #[trigger] self.components@[i
                * KIND_COUNT + kk] is None by {
                if i != s {
                    assert(i * KIND_COUNT + kk < s * KIND_COUNT || i * KIND_COUNT + kk >= s
                        * KIND_COUNT + KIND_COUNT);
                }
            }
            assert forall|i: int, kk: int|
                0 <= i < self.slot_count() && 0 <= kk < KIND_COUNT implies (#[trigger] self.components@[i
                * KIND_COUNT + kk] matches Some(v) ==> kind_index(v.spec_kind()) == kk) by {
                if i != s {
                    assert(i * KIND_COUNT + kk < s * KIND_COUNT || i * KIND_COUNT + kk >= s
                        * KIND_COUNT + KIND_COUNT);
                } else if kk != k {
                    assert(i * KIND_COUNT + kk != s * KIND_COUNT + k);
                }
            }
        }
    }

    /// Detach and return the component of kind `kind` from `entity`.
    pub fn remove_value(&mut self, entity: Entity, kind: ComponentKind) -> (r: Option<
        ComponentValue,
    >)
        requires
            old(self).wf(),
        ensures
            final(self).wf(),
            final(self).same_entities(old(self)),
            r == old(self).component(entity, kind),
            final(self).component(entity, kind) is None,
            forall|e2: Entity, k: ComponentKind|
                !(e2 == entity && k == kind) ==> final(self).component(e2, k) == old(self).component(e2, k),
    {
        if !self.entity_exists(entity) {
            return None;
        }
        let s = entity.index() as usize;
        let clen = self.components.len();
        let k = kind.index();
        proof {
            kind_index_bijection(kind, 0);
        }
        let r = self.components[s * KIND_COUNT + k];
        self.components.set(s * KIND_COUNT + k, None);
        proof {
            assert forall|e2: Entity, kk: ComponentKind|
                !(e2 == entity && kk == kind) implies self.component(e2, kk) == old(self).component(e2, kk) by {
                kind_index_bijection(kk, 0);
                if self.is_alive(e2) {
                    let i = e2.spec_index() as int;
                    if i == s as int {
                        crate::entity::entity_equality(e2, entity);
                        assert(e2 == entity);
                        assert(kind_index(kk) != kind_index(kind));
                    } else {
                        assert(i * KIND_COUNT + kind_index(kk) < s * KIND_COUNT || i * KIND_COUNT
                            + kind_index(kk) >= s * KIND_COUNT + KIND_COUNT);
                    }
                }
            }
            assert forall|i: int, kk: int|
                0 <= i < self.slot_count() && 0 <= kk < KIND_COUNT && !self.alive@[i] implies #[trigger] self.components@[i
                * KIND_COUNT + kk] is None by {
                if i != s {
                    assert(i * KIND_COUNT + kk < s * KIND_COUNT || i * KIND_COUNT + kk >= s
                        * KIND_COUNT + KIND_COUNT);
                }
            }
            assert forall|i: int, kk: int|
                0 <= i < self.slot_count() && 0 <= kk < KIND_COUNT implies (#[trigger] self.components@[i
                * KIND_COUNT + kk] matches Some(v) ==> kind_index(v.spec_kind()) == kk) by {
                if i != s {
                    assert(i * KIND_COUNT + kk < s * KIND_COUNT || i * KIND_COUNT + kk >= s
                        * KIND_COUNT + KIND_COUNT);
                }
            }
        }
        r
    }

    /// The component of kind `kind` attached to `entity`, type-erased.
    pub fn get_value(&self, entity: Entity, kind: ComponentKind) -> (r: Option<ComponentValue>)
        requires
            self.wf(),
        ensures
            r == self.component(entity, kind),
    {
        if !self.entity_exists(entity) {
            return None;
        }
        let s = entity.index() as usize;
        let clen = self.components.len();
        let k = kind.index();
        proof {
            kind_index_bijection(kind, 0);
        }
        self.components[s * KIND_COUNT + k]
    }

    /// Whether `entity` has a component of kind `kind`.
    pub fn has_kind(&self, entity: Entity, kind: ComponentKind) -> (b: bool)
        requires
            self.wf(),
        ensures
            b == self.component(entity, kind) is Some,
    {
        self.get_value(entity, kind).is_some()
    }

    /// Attach a typed component to `entity`, replacing any previous one of
    /// the same type. No-op if the entity is not alive.
    pub fn add_component<T: Component>(&mut self, entity: Entity, value: T)
        requires
            old(self).wf(),
        ensures
            final(self).wf(),
            final(self).same_entities(old(self)),
            old(self).is_alive(entity) ==> final(self).typed::<T>(entity) == Some(value),
            old(self).is_alive(entity) ==> final(self).component(entity, T::spec_kind()) == Some(
                value.spec_wrap(),
            ),
            !old(self).is_alive(entity) ==> *final(self) == *old(self),
            forall|e2: Entity, k: ComponentKind|
                !(e2 == entity && k == T::spec_kind()) ==> final(self).component(e2, k) == old(self).component(e2, k),
    {
        proof {
            T::lemma_wrap_unwrap(value);
        }
        self.add_value(entity, value.wrap());
    }

    /// The typed component attached to `entity`, if any.
    pub fn get_component<T: Component>(&self, entity: Entity) -> (r: Option<T>)
        requires
            self.wf(),
        ensures
            r == self.typed::<T>(entity),
    {
        match self.get_value(entity, T::kind()) {
            Some(v) => T::unwrap(v),
            None => None,
        }
    }

    /// Whether `entity` has a component of type `T`.
    pub fn has_component<T: Component>(&self, entity: Entity) -> (b: bool)
        requires
            self.wf(),
        ensures
            b == self.component(entity, T::spec_kind()) is Some,
            b == self.typed::<T>(entity) is Some,
    {
        let r = self.get_value(entity, T::kind());
        proof {
            if let Some(v) = r {
                self.lemma_stored_kind(entity, T::spec_kind());
                T::lemma_unwrap(v);
            }
        }
        r.is_some()
    }

    /// Detach and return the typed component of `entity`.
    pub fn remove_component<T: Component>(&mut self, entity: Entity) -> (r: Option<T>)
        requires
            old(self).wf(),
        ensures
            final(self).wf(),
            final(self).same_entities(old(self)),
            r == old(self).typed::<T>(entity),
            final(self).component(entity, T::spec_kind()) is None,
            forall|e2: Entity, k: ComponentKind|
                !(e2 == entity && k == T::spec_kind()) ==> final(self).component(e2, k) == old(self).component(e2, k),
    {
        match self.remove_value(entity, T::kind()) {
            Some(v) => T::unwrap(v),
            None => None,
        }
    }

    /// A stored component always has the kind of the cell it sits in.
    pub proof fn lemma_stored_kind(&self, e: Entity, k: ComponentKind)
        requires
            self.wf(),
        ensures
            self.component(e, k) matches Some(v) ==> v.spec_kind() == k,
    {
        if self.is_alive(e) {
            kind_index_bijection(k, 0);
            let i = e.spec_index() as int;
            assert(self.components@[i * KIND_COUNT + kind_index(k)] == self.cell(i, k));
            if let Some(v) = self.cell(i, k) {
                kind_index_bijection(v.spec_kind(), 0);
                assert(kind_index(v.spec_kind()) == kind_index(k));
                assert(kind_at(kind_index(v.spec_kind())) == v.spec_kind());
            }
        }
    }
}

/// A stale handle never names a live entity: once an entity is destroyed
/// its handle stays dead, whatever is created afterwards.
pub proof fn stale_handle_is_never_alive(w: World, e: Entity)
    requires
        w.wf(),
        w.is_stale(e),
    ensures
        !w.is_alive(e),
{
}

} // verus!
