//! Undo/Redo command system for the editor.
//!
//! Implements the Command pattern with a dual-stack architecture. Each
//! editor operation (move, create, destroy, modify) is captured as a command
//! that can reverse and replay its effect on the [`World`].
//!
//! Pushing a new command clears the redo stack (standard editor convention).
//! Oldest entries are trimmed when `max_history` is exceeded to bound memory
//! usage.

use std::any::TypeId;

use vstd::prelude::*;

use crate::component::{kind_name, Component, ComponentKind, ComponentValue, Position};
use crate::entity::Entity;
use crate::float_text::{fixed_text, push_fixed};
use crate::text::{decimal, push_decimal};
use crate::world::World;

verus! {

#[verifier::external_type_specification]
#[verifier::external_body]
pub struct ExTypeId(TypeId);

/// `TypeId::of::<T>()`: the process-wide identifier of type `T`.
#[verifier::external_body]
fn type_id_of<T: 'static>() -> TypeId {
    TypeId::of::<T>()
}


// ── UndoAction ───────────────────────────────────────────────────

/// Describes the category of an undo/redo operation.
///
/// Lightweight descriptor for UI display and logging. The actual undo data
/// lives in the concrete command types.
#[derive(Debug, Clone)]
pub enum UndoAction {
    /// An entity was created.
    CreateEntity { entity: Entity },
    /// An entity was destroyed.
    DestroyEntity { entity: Entity },
    /// An entity was repositioned.
    MoveEntity { entity: Entity, from: Position, to: Position },
    /// A component was modified.
    ModifyComponent { entity: Entity, component_type: String },
}

// ── EditorCommand Trait ─────────────────────────────────────────

/// Trait for editor operations that can be undone and redone.
///
/// Each command captures enough state to reverse and replay its effect.
pub trait EditorCommand {
    /// The text `describe` returns.
    spec fn description(&self) -> Seq<char>;

    /// Human-readable description of this command.
    fn describe(&self) -> (s: String)
        ensures
            s@ == self.description(),
    ;

    /// Whether undoing this command takes the world from `before` to
    /// `after` and leaves the command as `next`.
    spec fn undone(&self, next: &Self, before: World, after: World) -> bool;

    /// Whether redoing this command takes the world from `before` to
    /// `after` and leaves the command as `next`.
    spec fn redone(&self, next: &Self, before: World, after: World) -> bool;

    /// Reverse the effect of this command on the world.
    fn undo(&mut self, world: &mut World)
        requires
            old(world).wf(),
            old(world).has_room(),
        ensures
            final(world).wf(),
            old(self).undone(&*final(self), *old(world), *final(world)),
            final(world).slot_count() <= old(world).slot_count() + 1,
    ;

    /// Re-apply the effect of this command on the world.
    fn redo(&mut self, world: &mut World)
        requires
            old(world).wf(),
            old(world).has_room(),
        ensures
            final(world).wf(),
            old(self).redone(&*final(self), *old(world), *final(world)),
            final(world).slot_count() <= old(world).slot_count() + 1,
    ;
}

// ── Shared world-state relations ────────────────────────────────

/// `after` is `before` with the component of kind `k` on `e` set to `v`
/// (`None` removes it), when `e` is alive; otherwise nothing changed.
pub open spec fn set_component_effect(
    before: World,
    after: World,
    e: Entity,
    k: ComponentKind,
    v: Option<ComponentValue>,
) -> bool {
    &&& after.same_entities(&before)
    &&& before.is_alive(e) ==> after.component(e, k) == v
    &&& forall|e2: Entity, k2: ComponentKind|
        !(e2 == e && k2 == k) ==> after.component(e2, k2) == before.component(e2, k2)
    &&& !before.is_alive(e) ==> after == before
}

/// `after` is `before` plus one fresh, live entity `e`, whose components are
/// exactly `comps`; every other entity keeps its liveness and components.
pub open spec fn spawn_effect(
    before: World,
    after: World,
    e: Entity,
    comps: spec_fn(ComponentKind) -> Option<ComponentValue>,
) -> bool {
    &&& !before.is_alive(e)
    &&& !before.is_stale(e)
    &&& after.is_alive(e)
    &&& after.live_count() == before.live_count() + 1
    &&& forall|k: ComponentKind| after.component(e, k) == comps(k)
    &&& forall|e2: Entity| e2 != e ==> after.is_alive(e2) == before.is_alive(e2)
    &&& forall|e2: Entity, k: ComponentKind|
        e2 != e ==> after.component(e2, k) == before.component(e2, k)
    &&& forall|e2: Entity| before.is_stale(e2) ==> after.is_stale(e2)
}

/// `after` is `before` with `e` destroyed when it was alive; otherwise
/// nothing changed.
pub open spec fn despawn_effect(before: World, after: World, e: Entity) -> bool {
    &&& !after.is_alive(e)
    &&& before.is_alive(e) ==> after.is_stale(e) && after.live_count() + 1
        == before.live_count()
    &&& !before.is_alive(e) ==> after == before
    &&& forall|e2: Entity| e2 != e ==> after.is_alive(e2) == before.is_alive(e2)
    &&& forall|e2: Entity, k: ComponentKind|
        e2 != e ==> after.component(e2, k) == before.component(e2, k)
    &&& forall|e2: Entity| before.is_stale(e2) ==> after.is_stale(e2)
}

// ── Description helpers ─────────────────────────────────────────

/// `"(x, y)"` with one decimal each, or `"none"`.
pub open spec fn position_text(p: Option<Position>) -> Seq<char> {
    match p {
        Some(p) => seq!['('] + fixed_text(p.x, 1) + seq![',', ' '] + fixed_text(p.y, 1) + seq![
            ')',
        ],
        None => seq!['n', 'o', 'n', 'e'],
    }
}

fn push_position(s: &mut String, p: Option<Position>)
    ensures
        final(s)@ == old(s)@ + position_text(p),
{
    match p {
        Some(p) => {
            crate::text::push_char(s, '(');
            push_fixed(s, p.x, 1);
            crate::text::push_char(s, ',');
            crate::text::push_char(s, ' ');
            push_fixed(s, p.y, 1);
            crate::text::push_char(s, ')');
        },
        None => {
            crate::text::push_char(s, 'n');
            crate::text::push_char(s, 'o');
            crate::text::push_char(s, 'n');
            crate::text::push_char(s, 'e');
        },
    }
    proof {
        assert(final(s)@ =~= old(s)@ + position_text(p));
    }
}

// ── MoveEntityCommand ───────────────────────────────────────────

/// Command to change an entity's [`Position`] component.
///
/// Stores both old and new positions. If the entity had no `Position`
/// before the move, `old_position` is `None` and undo will remove it.
#[derive(Debug, Clone, Copy)]
pub struct MoveEntityCommand {
    entity: Entity,
    old_position: Option<Position>,
    new_position: Option<Position>,
}

/// The type-erased form of an optional position.
pub open spec fn wrap_position(p: Option<Position>) -> Option<ComponentValue> {
    match p {
        Some(p) => Some(ComponentValue::Position(p)),
        None => None,
    }
}

impl MoveEntityCommand {
    pub closed spec fn spec_entity(&self) -> Entity {
        self.entity
    }

    pub closed spec fn spec_old_position(&self) -> Option<Position> {
        self.old_position
    }

    pub closed spec fn spec_new_position(&self) -> Option<Position> {
        self.new_position
    }

    /// Create a new move command.
    ///
    /// `old_position`: the position before the move (`None` if absent).
    /// `new_position`: the position after the move (`None` to remove).
    pub fn new(entity: Entity, old_position: Option<Position>, new_position: Option<Position>) -> (c: Self)
        ensures
            c.spec_entity() == entity,
            c.spec_old_position() == old_position,
            c.spec_new_position() == new_position,
    {
        MoveEntityCommand { entity, old_position, new_position }
    }

    fn set_position(&self, world: &mut World, target: Option<Position>)
        requires
            old(world).wf(),
        ensures
            final(world).wf(),
            final(world).slot_count() <= old(world).slot_count() + 1,
            set_component_effect(
                *old(world),
                *final(world),
                self.entity,
                ComponentKind::Position,
                wrap_position(target),
            ),
    {
        if !world.entity_exists(self.entity) {
            proof {
                world.lemma_same_entities_refl();
            }
            return;
        }
        match target {
            Some(pos) => {
                world.add_component(self.entity, pos);
            },
            None => {
                let _ = world.remove_component::<Position>(self.entity);
            },
        }
        proof {
            world.lemma_same_entities(&*old(world));
        }
    }

    /// Put the entity back at `old_position` (removing the component when
    /// it had none). No-op on a dead entity.
    pub fn undo_move(&self, world: &mut World)
        requires
            old(world).wf(),
        ensures
            final(world).wf(),
            final(world).slot_count() <= old(world).slot_count() + 1,
            set_component_effect(
                *old(world),
                *final(world),
                self.spec_entity(),
                ComponentKind::Position,
                wrap_position(self.spec_old_position()),
            ),
    {
        self.set_position(world, self.old_position);
    }

    /// Put the entity at `new_position` again (removing the component when
    /// it is `None`). No-op on a dead entity.
    pub fn redo_move(&self, world: &mut World)
        requires
            old(world).wf(),
        ensures
            final(world).wf(),
            final(world).slot_count() <= old(world).slot_count() + 1,
            set_component_effect(
                *old(world),
                *final(world),
                self.spec_entity(),
                ComponentKind::Position,
                wrap_position(self.spec_new_position()),
            ),
    {
        self.set_position(world, self.new_position);
    }
}

impl EditorCommand for MoveEntityCommand {
    open spec fn undone(&self, next: &Self, before: World, after: World) -> bool {
        *next == *self && set_component_effect(
            before,
            after,
            self.spec_entity(),
            ComponentKind::Position,
            wrap_position(self.spec_old_position()),
        )
    }

    open spec fn redone(&self, next: &Self, before: World, after: World) -> bool {
        *next == *self && set_component_effect(
            before,
            after,
            self.spec_entity(),
            ComponentKind::Position,
            wrap_position(self.spec_new_position()),
        )
    }

    open spec fn description(&self) -> Seq<char> {
        "Move entity "@ + decimal(self.spec_entity().spec_index() as nat) + " from "@
            + position_text(self.spec_old_position()) + " to "@ + position_text(
            self.spec_new_position(),
        )
    }

    fn describe(&self) -> (s: String) {
        let mut s = String::new();
        s.append("Move entity ");
        push_decimal(&mut s, self.entity.index() as u128);
        s.append(" from ");
        push_position(&mut s, self.old_position);
        s.append(" to ");
        push_position(&mut s, self.new_position);
        proof {
            assert(s@ =~= self.description());
        }
        s
    }

    /// Put the entity back at `old_position`; the command itself is unchanged.
    fn undo(&mut self, world: &mut World)
        ensures
            *final(self) == *old(self),
            set_component_effect(
                *old(world),
                *final(world),
                old(self).spec_entity(),
                ComponentKind::Position,
                wrap_position(old(self).spec_old_position()),
            ),
    {
        self.undo_move(world);
    }

    /// Put the entity at `new_position` again; the command itself is unchanged.
    fn redo(&mut self, world: &mut World)
        ensures
            *final(self) == *old(self),
            set_component_effect(
                *old(world),
                *final(world),
                old(self).spec_entity(),
                ComponentKind::Position,
                wrap_position(old(self).spec_new_position()),
            ),
    {
        self.redo_move(world);
    }
}

// ── CreateEntityCommand ─────────────────────────────────────────

/// Command to create a new entity.
///
/// Tracks the entity handle, which changes after redo because a fresh
/// entity is created.
#[derive(Debug, Clone, Copy)]
pub struct CreateEntityCommand {
    entity: Entity,
}

/// No components at all.
pub open spec fn no_components() -> spec_fn(ComponentKind) -> Option<ComponentValue> {
    |k: ComponentKind| None::<ComponentValue>
}

impl CreateEntityCommand {
    pub closed spec fn spec_entity(&self) -> Entity {
        self.entity
    }

    /// Wrap an already-created entity into a command.
    ///
    /// Call this *after* `world.create_entity()` so the command knows which
    /// entity to destroy on undo.
    pub fn new(entity: Entity) -> (c: Self)
        ensures
            c.spec_entity() == entity,
    {
        CreateEntityCommand { entity }
    }

    /// The current entity handle (may differ from the original after redo).
    pub fn entity(&self) -> (e: Entity)
        ensures
            e == self.spec_entity(),
    {
        self.entity
    }

    /// Destroy the tracked entity if it is still alive.
    pub fn undo_create(&mut self, world: &mut World)
        requires
            old(world).wf(),
        ensures
            final(world).wf(),
            final(world).slot_count() <= old(world).slot_count() + 1,
            final(self).spec_entity() == old(self).spec_entity(),
            despawn_effect(*old(world), *final(world), old(self).spec_entity()),
    {
        if world.entity_exists(self.entity) {
            world.destroy_entity(self.entity);
        }
    }

    /// Create a fresh entity and track it.
    pub fn redo_create(&mut self, world: &mut World)
        requires
            old(world).wf(),
            old(world).has_room(),
        ensures
            final(world).wf(),
            final(world).slot_count() <= old(world).slot_count() + 1,
            spawn_effect(*old(world), *final(world), final(self).spec_entity(), no_components()),
    {
        let new_entity = world.create_entity();
        self.entity = new_entity;
    }
}

impl EditorCommand for CreateEntityCommand {
    open spec fn undone(&self, next: &Self, before: World, after: World) -> bool {
        *next == *self && despawn_effect(before, after, self.spec_entity())
    }

    open spec fn redone(&self, next: &Self, before: World, after: World) -> bool {
        spawn_effect(before, after, next.spec_entity(), no_components())
    }

    open spec fn description(&self) -> Seq<char> {
        "Create entity (index "@ + decimal(self.spec_entity().spec_index() as nat) + ", gen "@
            + decimal(self.spec_entity().spec_generation() as nat) + ")"@
    }

    fn describe(&self) -> (s: String) {
        let mut s = String::new();
        s.append("Create entity (index ");
        push_decimal(&mut s, self.entity.index() as u128);
        s.append(", gen ");
        push_decimal(&mut s, self.entity.generation() as u128);
        s.append(")");
        proof {
            assert(s@ =~= self.description());
        }
        s
    }

    /// Destroy the tracked entity if it is still alive.
    fn undo(&mut self, world: &mut World)
        ensures
            *final(self) == *old(self),
            despawn_effect(*old(world), *final(world), old(self).spec_entity()),
    {
        self.undo_create(world);
    }

    /// Create a fresh entity without components and track it.
    fn redo(&mut self, world: &mut World)
        ensures
            spawn_effect(*old(world), *final(world), final(self).spec_entity(), no_components()),
    {
        self.redo_create(world);
    }
}

// ── DestroyEntityCommand ────────────────────────────────────────

/// The value of kind `k` that restoring `snaps` in order leaves behind: the
/// last snapshot of that kind, if any.
pub open spec fn restored(snaps: Seq<ComponentValue>, k: ComponentKind) -> Option<ComponentValue>
    decreases snaps.len(),
{
    if snaps.len() == 0 {
        None
    } else if snaps.last().spec_kind() == k {
        Some(snaps.last())
    } else {
        restored(snaps.drop_last(), k)
    }
}

/// Command to destroy an entity and all its components.
///
/// Snapshots component data as type-erased values. On undo, a new entity is
/// created and all components are restored, tracking the new handle.
#[derive(Debug, Clone)]
pub struct DestroyEntityCommand {
    entity: Entity,
    snapshots: Vec<ComponentValue>,
}

impl DestroyEntityCommand {
    pub closed spec fn spec_entity(&self) -> Entity {
        self.entity
    }

    pub closed spec fn spec_snapshots(&self) -> Seq<ComponentValue> {
        self.snapshots@
    }

    /// Begin building a destroy command for `entity` (no snapshots yet).
    pub fn new(entity: Entity) -> (c: Self)
        ensures
            c.spec_entity() == entity,
            c.spec_snapshots() == Seq::<ComponentValue>::empty(),
    {
        DestroyEntityCommand { entity, snapshots: Vec::new() }
    }

    /// Attach a component snapshot to be restored on undo.
    pub fn with_snapshot<T: Component>(self, value: T) -> (c: Self)
        ensures
            c.spec_entity() == self.spec_entity(),
            c.spec_snapshots() == self.spec_snapshots().push(value.spec_wrap()),
    {
        let mut c = self;
        c.snapshots.push(value.wrap());
        c
    }

    /// Capture the entity's component of type `T` from the world, if present.
    pub fn with_world_snapshot<T: Component>(self, world: &World) -> (c: Self)
        requires
            world.wf(),
        ensures
            c.spec_entity() == self.spec_entity(),
            c.spec_snapshots() == (match world.typed::<T>(self.spec_entity()) {
                Some(v) => self.spec_snapshots().push(v.spec_wrap()),
                None => self.spec_snapshots(),
            }),
    {
        let mut c = self;
        if let Some(comp) = world.get_component::<T>(c.entity) {
            c.snapshots.push(comp.wrap());
        }
        c
    }

    /// The current entity handle.
    pub fn entity(&self) -> (e: Entity)
        ensures
            e == self.spec_entity(),
    {
        self.entity
    }

    /// Number of component snapshots stored.
    pub fn snapshot_count(&self) -> (n: usize)
        ensures
            n == self.spec_snapshots().len(),
    {
        self.snapshots.len()
    }

    /// Recreate the entity (as a fresh handle) with every snapshot restored.
    pub fn undo_destroy(&mut self, world: &mut World)
        requires
            old(world).wf(),
            old(world).has_room(),
        ensures
            final(world).wf(),
            final(world).slot_count() <= old(world).slot_count() + 1,
            final(self).spec_snapshots() == old(self).spec_snapshots(),
            spawn_effect(
                *old(world),
                *final(world),
                final(self).spec_entity(),
                |k: ComponentKind| restored(old(self).spec_snapshots(), k),
            ),
    {
        let new_entity = world.create_entity();
        self.entity = new_entity;
        let ghost w0 = *world;
        proof {
            w0.lemma_same_entities_refl();
        }
        let mut i: usize = 0;
        while i < self.snapshots.len()
            invariant
                i <= self.snapshots@.len(),
                self.snapshots@ == old(self).snapshots@,
                self.entity == new_entity,
                world.wf(),
                world.same_entities(&w0),
                w0.is_alive(new_entity),
                forall|k: ComponentKind|
                    world.component(new_entity, k) == restored(
                        self.snapshots@.subrange(0, i as int),
                        k,
                    ),
                forall|e2: Entity, k: ComponentKind|
                    e2 != new_entity ==> world.component(e2, k) == w0.component(e2, k),
            decreases self.snapshots@.len() - i,
        {
            let v = self.snapshots[i];
            let ghost wb = *world;
            proof {
                wb.lemma_same_entities(&w0);
            }
            world.add_value(new_entity, v);
            proof {
                world.lemma_same_entities_trans(&wb, &w0);
                world.lemma_same_entities(&w0);
                let pre = self.snapshots@.subrange(0, i as int);
                let post = self.snapshots@.subrange(0, i + 1);
                assert(post.drop_last() =~= pre);
                assert(post.last() == v);
                assert forall|k: ComponentKind|
                    world.component(new_entity, k) == restored(post, k) by {}
            }
            i = i + 1;
        }
        proof {
            assert(self.snapshots@.subrange(0, self.snapshots@.len() as int) =~= self.snapshots@);
            world.lemma_same_entities(&w0);
        }
    }

    /// Destroy the tracked entity again if it is alive.
    pub fn redo_destroy(&mut self, world: &mut World)
        requires
            old(world).wf(),
        ensures
            final(world).wf(),
            final(world).slot_count() <= old(world).slot_count() + 1,
            *final(self) == *old(self),
            despawn_effect(*old(world), *final(world), old(self).spec_entity()),
    {
        if world.entity_exists(self.entity) {
            world.destroy_entity(self.entity);
        }
    }
}

impl EditorCommand for DestroyEntityCommand {
    open spec fn undone(&self, next: &Self, before: World, after: World) -> bool {
        &&& next.spec_snapshots() == self.spec_snapshots()
        &&& spawn_effect(
            before,
            after,
            next.spec_entity(),
            |k: ComponentKind| restored(self.spec_snapshots(), k),
        )
    }

    open spec fn redone(&self, next: &Self, before: World, after: World) -> bool {
        *next == *self && despawn_effect(before, after, self.spec_entity())
    }

    open spec fn description(&self) -> Seq<char> {
        "Destroy entity (index "@ + decimal(self.spec_entity().spec_index() as nat) + ", gen "@
            + decimal(self.spec_entity().spec_generation() as nat) + ") with "@ + decimal(
            self.spec_snapshots().len(),
        ) + " component(s)"@
    }

    fn describe(&self) -> (s: String) {
        let mut s = String::new();
        s.append("Destroy entity (index ");
        push_decimal(&mut s, self.entity.index() as u128);
        s.append(", gen ");
        push_decimal(&mut s, self.entity.generation() as u128);
        s.append(") with ");
        push_decimal(&mut s, self.snapshots.len() as u128);
        s.append(" component(s)");
        proof {
            assert(s@ =~= self.description());
        }
        s
    }

    /// Recreate the entity under a fresh handle with every snapshot restored.
    fn undo(&mut self, world: &mut World)
        ensures
            final(self).spec_snapshots() == old(self).spec_snapshots(),
            spawn_effect(
                *old(world),
                *final(world),
                final(self).spec_entity(),
                |k: ComponentKind| restored(old(self).spec_snapshots(), k),
            ),
    {
        self.undo_destroy(world);
    }

    /// Destroy the tracked entity again if it is alive.
    fn redo(&mut self, world: &mut World)
        ensures
            *final(self) == *old(self),
            despawn_effect(*old(world), *final(world), old(self).spec_entity()),
    {
        self.redo_destroy(world);
    }
}

// ── ModifyComponentCommand ──────────────────────────────────────

/// Generic command for modifying a component of type `T`.
///
/// Stores old and new values for precise undo/redo. Undo and redo only
/// overwrite a component that is still present on a live entity.
#[derive(Debug)]
pub struct ModifyComponentCommand<T> {
    entity: Entity,
    old_value: T,
    new_value: T,
    component_type_id: TypeId,
}

/// `after` is `before` with `e`'s component of type `T` overwritten by
/// `v` when `e` is alive and has one; otherwise nothing changed.
pub open spec fn overwrite_effect<T: Component>(before: World, after: World, e: Entity, v: T) -> bool {
    if before.typed::<T>(e) is Some {
        set_component_effect(before, after, e, T::spec_kind(), Some(v.spec_wrap()))
    } else {
        after == before
    }
}

impl<T: Component + 'static> ModifyComponentCommand<T> {
    pub closed spec fn spec_entity(&self) -> Entity {
        self.entity
    }

    pub closed spec fn spec_old_value(&self) -> T {
        self.old_value
    }

    pub closed spec fn spec_new_value(&self) -> T {
        self.new_value
    }


    /// Create a new modify command.
    pub fn new(entity: Entity, old_value: T, new_value: T) -> (c: Self)
        ensures
            c.spec_entity() == entity,
            c.spec_old_value() == old_value,
            c.spec_new_value() == new_value,
    {
        ModifyComponentCommand {
            entity,
            old_value,
            new_value,
            component_type_id: type_id_of::<T>(),
        }
    }

    /// The `TypeId` of the modified component.
    pub fn component_type_id(&self) -> TypeId {
        self.component_type_id
    }

    fn overwrite(&self, world: &mut World, v: T)
        requires
            old(world).wf(),
        ensures
            final(world).wf(),
            final(world).slot_count() <= old(world).slot_count() + 1,
            overwrite_effect(*old(world), *final(world), self.entity, v),
    {
        if !world.entity_exists(self.entity) {
            return;
        }
        if world.has_component::<T>(self.entity) {
            world.add_component(self.entity, v);
            proof {
                world.lemma_same_entities(&*old(world));
            }
        }
    }

    /// Restore the old value if the component is still present.
    pub fn undo_modify(&self, world: &mut World)
        requires
            old(world).wf(),
        ensures
            final(world).wf(),
            final(world).slot_count() <= old(world).slot_count() + 1,
            overwrite_effect(*old(world), *final(world), self.spec_entity(), self.spec_old_value()),
    {
        self.overwrite(world, self.old_value);
    }

    /// Apply the new value again if the component is still present.
    pub fn redo_modify(&self, world: &mut World)
        requires
            old(world).wf(),
        ensures
            final(world).wf(),
            final(world).slot_count() <= old(world).slot_count() + 1,
            overwrite_effect(*old(world), *final(world), self.spec_entity(), self.spec_new_value()),
    {
        self.overwrite(world, self.new_value);
    }

    /// The type-erased form of this command, for a heterogeneous history.
    pub fn into_command(self) -> (c: Command)
        ensures
            c == Command::Modify(
                ModifyValueCommand {
                    entity: self.spec_entity(),
                    kind: T::spec_kind(),
                    old_value: self.spec_old_value().spec_wrap(),
                    new_value: self.spec_new_value().spec_wrap(),
                },
            ),
    {
        Command::Modify(
            ModifyValueCommand {
                entity: self.entity,
                kind: T::kind(),
                old_value: self.old_value.wrap(),
                new_value: self.new_value.wrap(),
            },
        )
    }
}

/// Full path of a component type, as Rust names it.
pub open spec fn component_path(k: ComponentKind) -> Seq<char> {
    "chronos_engine::component::"@ + kind_name(k)
}

/// `"Modify <component type path> on entity <index>"`.
pub open spec fn modify_text(k: ComponentKind, e: Entity) -> Seq<char> {
    "Modify "@ + component_path(k) + " on entity "@ + decimal(e.spec_index() as nat)
}

fn modify_describe(k: ComponentKind, e: Entity) -> (s: String)
    ensures
        s@ == modify_text(k, e),
{
    let mut s = String::new();
    s.append("Modify ");
    s.append("chronos_engine::component::");
    s.append(k.name());
    s.append(" on entity ");
    push_decimal(&mut s, e.index() as u128);
    proof {
        assert(s@ =~= modify_text(k, e));
    }
    s
}

impl<T: Component + 'static> EditorCommand for ModifyComponentCommand<T> {
    open spec fn undone(&self, next: &Self, before: World, after: World) -> bool {
        *next == *self && overwrite_effect(before, after, self.spec_entity(), self.spec_old_value())
    }

    open spec fn redone(&self, next: &Self, before: World, after: World) -> bool {
        *next == *self && overwrite_effect(before, after, self.spec_entity(), self.spec_new_value())
    }

    open spec fn description(&self) -> Seq<char> {
        modify_text(T::spec_kind(), self.spec_entity())
    }

    fn describe(&self) -> (s: String) {
        modify_describe(T::kind(), self.entity)
    }

    /// Restore the old value if the component is still present.
    fn undo(&mut self, world: &mut World)
        ensures
            *final(self) == *old(self),
            overwrite_effect(*old(world), *final(world), old(self).spec_entity(), old(self).spec_old_value()),
    {
        self.undo_modify(world);
    }

    /// Apply the new value again if the component is still present.
    fn redo(&mut self, world: &mut World)
        ensures
            *final(self) == *old(self),
            overwrite_effect(*old(world), *final(world), old(self).spec_entity(), old(self).spec_new_value()),
    {
        self.redo_modify(world);
    }
}

/// A [`ModifyComponentCommand`] with its component type erased.
#[derive(Debug, Clone, Copy)]
pub struct ModifyValueCommand {
    pub entity: Entity,
    pub kind: ComponentKind,
    pub old_value: ComponentValue,
    pub new_value: ComponentValue,
}

/// `after` is `before` with `c.entity`'s component of kind `c.kind` set to
/// `v`, when `v` is of that kind and the entity has such a component;
/// otherwise nothing changed.
pub open spec fn value_overwrite_effect(
    before: World,
    after: World,
    c: ModifyValueCommand,
    v: ComponentValue,
) -> bool {
    if v.spec_kind() == c.kind && before.component(c.entity, c.kind) is Some {
        set_component_effect(before, after, c.entity, c.kind, Some(v))
    } else {
        after == before
    }
}

/// What undoing `cmd` (now `next`) did to the world.
pub open spec fn command_undone(cmd: Command, next: Command, before: World, after: World) -> bool {
    match cmd {
        Command::Move(c) => next == cmd && set_component_effect(
            before,
            after,
            c.spec_entity(),
            ComponentKind::Position,
            wrap_position(c.spec_old_position()),
        ),
        Command::Create(c) => next == cmd && despawn_effect(before, after, c.spec_entity()),
        Command::Destroy(c) => next matches Command::Destroy(d) && d.spec_snapshots()
            == c.spec_snapshots() && spawn_effect(
            before,
            after,
            d.spec_entity(),
            |k: ComponentKind| restored(c.spec_snapshots(), k),
        ),
        Command::Modify(c) => next == cmd && value_overwrite_effect(before, after, c, c.old_value),
    }
}

/// What redoing `cmd` (now `next`) did to the world.
pub open spec fn command_redone(cmd: Command, next: Command, before: World, after: World) -> bool {
    match cmd {
        Command::Move(c) => next == cmd && set_component_effect(
            before,
            after,
            c.spec_entity(),
            ComponentKind::Position,
            wrap_position(c.spec_new_position()),
        ),
        Command::Create(c) => next matches Command::Create(d) && spawn_effect(
            before,
            after,
            d.spec_entity(),
            no_components(),
        ),
        Command::Destroy(c) => next == cmd && despawn_effect(before, after, c.spec_entity()),
        Command::Modify(c) => next == cmd && value_overwrite_effect(before, after, c, c.new_value),
    }
}

impl ModifyValueCommand {
    fn overwrite(&self, world: &mut World, v: ComponentValue)
        requires
            old(world).wf(),
            v.spec_kind() == self.kind,
        ensures
            final(world).wf(),
            final(world).slot_count() <= old(world).slot_count() + 1,
            if old(world).component(self.entity, self.kind) is Some {
                set_component_effect(*old(world), *final(world), self.entity, self.kind, Some(v))
            } else {
                *final(world) == *old(world)
            },
    {
        if world.has_kind(self.entity, self.kind) {
            world.add_value(self.entity, v);
            proof {
                world.lemma_same_entities(&*old(world));
            }
        }
    }
}

// ── Command ─────────────────────────────────────────────────────

/// Any of the editor's built-in commands, as stored in an [`UndoStack`].
#[derive(Debug, Clone)]
pub enum Command {
    Move(MoveEntityCommand),
    Create(CreateEntityCommand),
    Destroy(DestroyEntityCommand),
    Modify(ModifyValueCommand),
}

impl EditorCommand for Command {
    open spec fn undone(&self, next: &Self, before: World, after: World) -> bool {
        command_undone(*self, *next, before, after)
    }

    open spec fn redone(&self, next: &Self, before: World, after: World) -> bool {
        command_redone(*self, *next, before, after)
    }

    open spec fn description(&self) -> Seq<char> {
        match self {
            Command::Move(c) => c.description(),
            Command::Create(c) => c.description(),
            Command::Destroy(c) => c.description(),
            Command::Modify(c) => modify_text(c.kind, c.entity),
        }
    }

    fn describe(&self) -> (s: String) {
        match self {
            Command::Move(c) => c.describe(),
            Command::Create(c) => c.describe(),
            Command::Destroy(c) => c.describe(),
            Command::Modify(c) => modify_describe(c.kind, c.entity),
        }
    }

    /// Reverse the wrapped command.
    fn undo(&mut self, world: &mut World)
        ensures
            command_undone(*old(self), *final(self), *old(world), *final(world)),
    {
        match self {
            Command::Move(c) => c.undo_move(world),
            Command::Create(c) => c.undo_create(world),
            Command::Destroy(c) => c.undo_destroy(world),
            Command::Modify(c) => {
                if c.old_value.kind() == c.kind {
                    c.overwrite(world, c.old_value);
                }
            },
        }
    }

    /// Re-apply the wrapped command.
    fn redo(&mut self, world: &mut World)
        ensures
            command_redone(*old(self), *final(self), *old(world), *final(world)),
    {
        match self {
            Command::Move(c) => c.redo_move(world),
            Command::Create(c) => c.redo_create(world),
            Command::Destroy(c) => c.redo_destroy(world),
            Command::Modify(c) => {
                if c.new_value.kind() == c.kind {
                    c.overwrite(world, c.new_value);
                }
            },
        }
    }
}

// ── UndoStack ───────────────────────────────────────────────────

/// `s` cut down to its newest `max` entries.
pub open spec fn keep_newest<C>(s: Seq<C>, max: nat) -> Seq<C> {
    if s.len() > max {
        s.subrange(s.len() - max, s.len() as int)
    } else {
        s
    }
}

/// Dual-stack undo/redo history for editor commands.
///
/// Pushing a new command clears the redo stack. Oldest entries are trimmed
/// when `max_history` is exceeded to bound memory usage.
pub struct UndoStack<C = Command> {
    undo_stack: Vec<C>,
    redo_stack: Vec<C>,
    max_history: usize,
}

impl UndoStack<Command> {
    /// Create a new stack with a default history limit of 100.
    pub fn new() -> (s: Self)
        ensures
            s.undo_seq() == Seq::<Command>::empty(),
            s.redo_seq() == Seq::<Command>::empty(),
            s.max_history() == 100,
    {
        UndoStack { undo_stack: Vec::new(), redo_stack: Vec::new(), max_history: 100 }
    }
}

impl<C> UndoStack<C> {
    /// Commands that can be undone, oldest first (the last is undone next).
    pub closed spec fn undo_seq(&self) -> Seq<C> {
        self.undo_stack@
    }

    /// Commands that can be redone, oldest first (the last is redone next).
    pub closed spec fn redo_seq(&self) -> Seq<C> {
        self.redo_stack@
    }

    /// The history limit.
    pub closed spec fn max_history(&self) -> nat {
        self.max_history as nat
    }

    /// An empty stack with the given history limit.
    pub fn empty(max_history: usize) -> (s: Self)
        ensures
            s.undo_seq() == Seq::<C>::empty(),
            s.redo_seq() == Seq::<C>::empty(),
            s.max_history() == if max_history >= 1 { max_history as nat } else { 1 },
    {
        let m = if max_history >= 1 {
            max_history
        } else {
            1
        };
        UndoStack { undo_stack: Vec::new(), redo_stack: Vec::new(), max_history: m }
    }

    /// Set a custom history limit (at least 1). Oldest commands are trimmed
    /// on the next push.
    pub fn with_max_history(self, max: usize) -> (s: Self)
        ensures
            s.undo_seq() == self.undo_seq(),
            s.redo_seq() == self.redo_seq(),
            s.max_history() == if max >= 1 { max as nat } else { 1 },
    {
        let mut s = self;
        s.max_history = if max >= 1 {
            max
        } else {
            1
        };
        s
    }

    /// Trim oldest entries while the undo stack exceeds `max_history`.
    fn trim(&mut self)
        ensures
            final(self).undo_seq() == keep_newest(old(self).undo_seq(), old(self).max_history()),
            final(self).redo_seq() == old(self).redo_seq(),
            final(self).max_history() == old(self).max_history(),
    {
        let ghost orig = self.undo_stack@;
        while self.undo_stack.len() > self.max_history
            invariant
                self.max_history == old(self).max_history,
                self.redo_stack@ == old(self).redo_stack@,
                orig == old(self).undo_stack@,
                self.undo_stack@.len() >= self.max_history ==> self.undo_stack@ == orig.subrange(
                    orig.len() - self.undo_stack@.len(),
                    orig.len() as int,
                ),
                self.undo_stack@.len() < self.max_history ==> self.undo_stack@ == orig,
                self.undo_stack@.len() <= orig.len(),
            decreases self.undo_stack@.len(),
        {
            let ghost before = self.undo_stack@;
            self.undo_stack.remove(0);
            proof {
                assert(self.undo_stack@ =~= orig.subrange(
                    orig.len() - self.undo_stack@.len(),
                    orig.len() as int,
                ));
            }
        }
        proof {
            if orig.len() > self.max_history {
                assert(self.undo_stack@.len() == self.max_history);
            } else {
                assert(self.undo_stack@ =~= orig);
            }
        }
    }

    /// Whether there are commands available to undo.
    pub fn can_undo(&self) -> (b: bool)
        ensures
            b == (self.undo_seq().len() > 0),
    {
        self.undo_stack.len() > 0
    }

    /// Whether there are commands available to redo.
    pub fn can_redo(&self) -> (b: bool)
        ensures
            b == (self.redo_seq().len() > 0),
    {
        self.redo_stack.len() > 0
    }

    /// Clear all undo and redo history.
    pub fn clear(&mut self)
        ensures
            final(self).undo_seq() == Seq::<C>::empty(),
            final(self).redo_seq() == Seq::<C>::empty(),
            final(self).max_history() == old(self).max_history(),
    {
        self.undo_stack.clear();
        self.redo_stack.clear();
    }

    /// Number of commands on the undo stack.
    pub fn undo_count(&self) -> (n: usize)
        ensures
            n == self.undo_seq().len(),
    {
        self.undo_stack.len()
    }

    /// Number of commands on the redo stack.
    pub fn redo_count(&self) -> (n: usize)
        ensures
            n == self.redo_seq().len(),
    {
        self.redo_stack.len()
    }
}

/// The stack relation of `push(cmd)`.
pub open spec fn push_step<C>(before: UndoStack<C>, after: UndoStack<C>, cmd: C) -> bool {
    &&& after.undo_seq() == keep_newest(before.undo_seq().push(cmd), before.max_history())
    &&& after.redo_seq() == Seq::<C>::empty()
    &&& after.max_history() == before.max_history()
}

/// The stack relation of a successful `undo`: the newest undoable command
/// (as changed by undoing it) moves onto the redo stack.
pub open spec fn undo_step<C>(before: UndoStack<C>, after: UndoStack<C>) -> bool {
    &&& before.undo_seq().len() > 0
    &&& after.undo_seq() == before.undo_seq().drop_last()
    &&& after.redo_seq().len() == before.redo_seq().len() + 1
    &&& after.redo_seq().drop_last() == before.redo_seq()
    &&& after.max_history() == before.max_history()
}

/// The stack relation of a successful `redo`: the newest redoable command
/// (as changed by redoing it) moves back onto the undo stack.
pub open spec fn redo_step<C>(before: UndoStack<C>, after: UndoStack<C>) -> bool {
    &&& before.redo_seq().len() > 0
    &&& after.redo_seq() == before.redo_seq().drop_last()
    &&& after.undo_seq().len() == before.undo_seq().len() + 1
    &&& after.undo_seq().drop_last() == before.undo_seq()
    &&& after.max_history() == before.max_history()
}

impl<C: EditorCommand> UndoStack<C> {
    /// Record a new command. Clears the redo stack.
    pub fn push(&mut self, cmd: C)
        ensures
            push_step(*old(self), *final(self), cmd),
    {
        self.redo_stack.clear();
        self.undo_stack.push(cmd);
        self.trim();
    }

    /// Undo the most recent command.
    ///
    /// Returns the command description if there was one to undo.
    pub fn undo(&mut self, world: &mut World) -> (r: Option<String>)
        requires
            old(world).wf(),
            old(world).has_room(),
        ensures
            final(world).wf(),
            final(world).slot_count() <= old(world).slot_count() + 1,
            old(self).undo_seq().len() == 0 ==> r is None && *final(self) == *old(self)
                && *final(world) == *old(world),
            old(self).undo_seq().len() > 0 ==> undo_step(*old(self), *final(self)) && r == Some(
                r.unwrap(),
            ) && r.unwrap()@ == old(self).undo_seq().last().description(),
            old(self).undo_seq().len() > 0 ==> old(self).undo_seq().last().undone(
                &final(self).redo_seq().last(),
                *old(world),
                *final(world),
            ),
    {
        if self.undo_stack.len() == 0 {
            return None;
        }
        match self.undo_stack.pop() {
            None => None,
            Some(cmd) => {
                let mut cmd = cmd;
                let desc = cmd.describe();
                cmd.undo(world);
                self.redo_stack.push(cmd);
                proof {
                    assert(self.redo_stack@.drop_last() =~= old(self).redo_stack@);
                }
                Some(desc)
            },
        }
    }

    /// Redo the most recently undone command.
    ///
    /// Returns the command description if there was one to redo.
    pub fn redo(&mut self, world: &mut World) -> (r: Option<String>)
        requires
            old(world).wf(),
            old(world).has_room(),
        ensures
            final(world).wf(),
            final(world).slot_count() <= old(world).slot_count() + 1,
            old(self).redo_seq().len() == 0 ==> r is None && *final(self) == *old(self)
                && *final(world) == *old(world),
            old(self).redo_seq().len() > 0 ==> redo_step(*old(self), *final(self)) && r == Some(
                r.unwrap(),
            ) && r.unwrap()@ == old(self).redo_seq().last().description(),
            old(self).redo_seq().len() > 0 ==> old(self).redo_seq().last().redone(
                &final(self).undo_seq().last(),
                *old(world),
                *final(world),
            ),
    {
        if self.redo_stack.len() == 0 {
            return None;
        }
        match self.redo_stack.pop() {
            None => None,
            Some(cmd) => {
                let mut cmd = cmd;
                let desc = cmd.describe();
                cmd.redo(world);
                self.undo_stack.push(cmd);
                proof {
                    assert(self.undo_stack@.drop_last() =~= old(self).undo_stack@);
                }
                Some(desc)
            },
        }
    }

    /// Description of the top-most undo command, if any.
    pub fn description(&self) -> (r: Option<String>)
        ensures
            self.undo_seq().len() == 0 ==> r is None,
            self.undo_seq().len() > 0 ==> r is Some && r.unwrap()@ == self.undo_seq().last().description(),
    {
        let n = self.undo_stack.len();
        if n == 0 {
            None
        } else {
            Some(self.undo_stack[n - 1].describe())
        }
    }
}

/// Undoing and then redoing leaves the redo stack exactly as it was and the
/// undo stack as long as it was, with everything below its top unchanged.
pub proof fn undo_then_redo<C>(s0: UndoStack<C>, s1: UndoStack<C>, s2: UndoStack<C>)
    requires
        undo_step(s0, s1),
        redo_step(s1, s2),
    ensures
        s2.redo_seq() == s0.redo_seq(),
        s2.undo_seq().len() == s0.undo_seq().len(),
        s2.undo_seq().drop_last() == s0.undo_seq().drop_last(),
{
}

/// An undo or redo adds at most one slot to the world, so a world that had
/// two slots of address space to spare still has room for the next redo or
/// undo afterwards.
pub proof fn room_remains_after_history_step(before: World, after: World)
    requires
        before.slot_count() + 1 < u32::MAX,
        after.slot_count() <= before.slot_count() + 1,
    ensures
        after.has_room(),
{
    after.lemma_room_below_max_slots();
}

/// Redoing and then undoing leaves the undo stack exactly as it was and the
/// redo stack as long as it was, with everything below its top unchanged.
pub proof fn redo_then_undo<C>(s0: UndoStack<C>, s1: UndoStack<C>, s2: UndoStack<C>)
    requires
        redo_step(s0, s1),
        undo_step(s1, s2),
    ensures
        s2.undo_seq() == s0.undo_seq(),
        s2.redo_seq().len() == s0.redo_seq().len(),
        s2.redo_seq().drop_last() == s0.redo_seq().drop_last(),
{
}

/// Undo and redo move commands between the stacks without losing any: the
/// total number of commands is unchanged.
pub proof fn undo_redo_conserve_commands<C>(s0: UndoStack<C>, s1: UndoStack<C>)
    requires
        undo_step(s0, s1) || redo_step(s0, s1),
    ensures
        s1.undo_seq().len() + s1.redo_seq().len() == s0.undo_seq().len() + s0.redo_seq().len(),
{
}

/// After a push nothing can be redone, the pushed command is the next to be
/// undone, and the history never exceeds its limit.
pub proof fn push_bounds_history<C>(s0: UndoStack<C>, s1: UndoStack<C>, cmd: C)
    requires
        push_step(s0, s1, cmd),
        s0.max_history() >= 1,
    ensures
        s1.redo_seq().len() == 0,
        s1.undo_seq().len() > 0,
        s1.undo_seq().last() == cmd,
        s1.undo_seq().len() <= s1.max_history(),
        s1.undo_seq().len() == if s0.undo_seq().len() + 1 <= s0.max_history() {
            s0.undo_seq().len() + 1
        } else {
            s0.max_history()
        },
{
}

/// Redoing a move and then undoing it puts back the position the entity had
/// before, when the command's old position is that position: every
/// component of every entity is as it was, and so are the entities.
pub proof fn move_redo_then_undo_restores(
    w0: World,
    w1: World,
    w2: World,
    e: Entity,
    old_pos: Option<Position>,
    new_pos: Option<Position>,
)
    requires
        set_component_effect(w0, w1, e, ComponentKind::Position, wrap_position(new_pos)),
        set_component_effect(w1, w2, e, ComponentKind::Position, wrap_position(old_pos)),
        w0.component(e, ComponentKind::Position) == wrap_position(old_pos),
    ensures
        w2.same_entities(&w0),
        forall|e2: Entity, k: ComponentKind| w2.component(e2, k) == w0.component(e2, k),
{
    w1.lemma_same_entities(&w0);
    w2.lemma_same_entities(&w1);
    w2.lemma_same_entities_trans(&w1, &w0);
    assert forall|e2: Entity, k: ComponentKind| w2.component(e2, k) == w0.component(e2, k) by {
        if !w0.is_alive(e) {
            assert(w1 == w0);
        }
    }
}

/// Redoing a component modification and then undoing it restores the world's
/// components, when the command's old value is the value the entity had.
pub proof fn modify_redo_then_undo_restores<T: Component>(
    w0: World,
    w1: World,
    w2: World,
    e: Entity,
    old_value: T,
    new_value: T,
)
    requires
        overwrite_effect(w0, w1, e, new_value),
        overwrite_effect(w1, w2, e, old_value),
        w0.typed::<T>(e) == Some(old_value),
    ensures
        w2.same_entities(&w0),
        forall|e2: Entity, k: ComponentKind| w2.component(e2, k) == w0.component(e2, k),
{
    let v = w0.component(e, T::spec_kind()).unwrap();
    T::lemma_unwrap(v);
    T::lemma_wrap_unwrap(new_value);
    w1.lemma_same_entities(&w0);
    assert(w1.typed::<T>(e) == Some(new_value));
    w2.lemma_same_entities(&w1);
    w2.lemma_same_entities_trans(&w1, &w0);
}

} // verus!
