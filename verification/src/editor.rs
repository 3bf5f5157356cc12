//! Developer tools: entity inspector, scene tree, stats panel, dev console
//! and the overlay that drives them.
//!
//! The inspector reflects every known component type on one entity into a
//! textual report; the scene tree lists the living entities with a summary
//! of their components.

use vstd::prelude::*;

use crate::component::{kind_at, kind_index, kind_index_bijection, kind_name, ComponentKind, ComponentValue, KIND_COUNT};
use crate::entity::Entity;
use crate::float_text::{fixed_text, push_fixed};
use crate::text::{decimal, push_char, push_decimal, push_signed_decimal, signed_decimal, string_from};
use crate::world::World;

verus! {

/// Severity level for console log messages.
#[derive(Debug, Clone, Copy, PartialEq, Eq, Structural)]
pub enum LogLevel {
    Info,
    Warn,
    Error,
    Debug,
}

/// Describes one component attached to an entity.
#[derive(Debug, Clone)]
pub struct ComponentInfo {
    pub name: String,
    pub fields: Vec<(String, String)>,
}

/// Full inspection report for a single entity.
#[derive(Debug, Clone)]
pub struct InspectionReport {
    pub entity: Entity,
    pub components: Vec<ComponentInfo>,
}

/// One row in the scene tree.
#[derive(Debug, Clone)]
pub struct SceneEntry {
    pub entity: Entity,
    pub component_summary: String,
}

// ── Field rendering ──────────────────────────────────────────────

/// A float field with two decimals.
pub open spec fn f2(bits: u32) -> Seq<char> {
    fixed_text(bits, 2)
}

/// Field names and values the inspector shows for a component value.
pub open spec fn value_fields(v: ComponentValue) -> Seq<(Seq<char>, Seq<char>)> {
    match v {
        ComponentValue::Position(p) => seq![("x"@, f2(p.x)), ("y"@, f2(p.y))],
        ComponentValue::Velocity(p) => seq![("x"@, f2(p.x)), ("y"@, f2(p.y))],
        ComponentValue::Health(h) => seq![
            ("current"@, decimal(h.current as nat)),
            ("max"@, decimal(h.max as nat)),
        ],
        ComponentValue::Damage(d) => seq![("value"@, decimal(d.0 as nat))],
        ComponentValue::Dead(_) => seq![("marker"@, "true"@)],
        ComponentValue::Transform(t) => seq![
            ("x"@, f2(t.x)),
            ("y"@, f2(t.y)),
            ("z"@, f2(t.z)),
            ("rotation"@, f2(t.rotation)),
            ("scale"@, f2(t.scale)),
        ],
        ComponentValue::Sprite(s) => seq![
            ("symbol"@, seq![s.symbol]),
            ("color_r"@, decimal(s.color.0 as nat)),
            ("color_g"@, decimal(s.color.1 as nat)),
            ("color_b"@, decimal(s.color.2 as nat)),
            ("layer"@, signed_decimal(s.layer as int)),
        ],
        ComponentValue::CircleRadius(c) => seq![("radius"@, f2(c.0))],
        ComponentValue::RigidBody(r) => seq![
            ("mass"@, f2(r.mass)),
            ("damping"@, f2(r.damping)),
            ("restitution"@, f2(r.restitution)),
        ],
        ComponentValue::Grounded(_) => seq![("marker"@, "true"@)],
        ComponentValue::Gravity(g) => seq![("x"@, f2(g.x)), ("y"@, f2(g.y))],
    }
}

/// The value shown for the field named `name`: the first field with that
/// name, if any.
pub open spec fn field_value(fields: Seq<(Seq<char>, Seq<char>)>, name: Seq<char>) -> Option<Seq<char>>
    decreases fields.len(),
{
    if fields.len() == 0 {
        None
    } else if fields[0].0 == name {
        Some(fields[0].1)
    } else {
        field_value(fields.drop_first(), name)
    }
}

/// Every field the inspector shows carries the value of the component
/// field it names: a health's `current` shows its current points and `max`
/// its maximum, a position's `x` and `y` its coordinates, and so on for
/// every kind of component.
pub proof fn inspector_fields_show_named_values(v: ComponentValue)
    ensures
        v matches ComponentValue::Health(h) ==> field_value(value_fields(v), "current"@) == Some(decimal(h.current as nat))
            && field_value(value_fields(v), "max"@) == Some(decimal(h.max as nat)),
        v matches ComponentValue::Position(p) ==> field_value(value_fields(v), "x"@) == Some(f2(p.x))
            && field_value(value_fields(v), "y"@) == Some(f2(p.y)),
        v matches ComponentValue::Velocity(p) ==> field_value(value_fields(v), "x"@) == Some(f2(p.x))
            && field_value(value_fields(v), "y"@) == Some(f2(p.y)),
        v matches ComponentValue::Damage(d) ==> field_value(value_fields(v), "value"@) == Some(decimal(d.0 as nat)),
        v matches ComponentValue::Transform(t) ==> field_value(value_fields(v), "x"@) == Some(f2(t.x))
            && field_value(value_fields(v), "y"@) == Some(f2(t.y))
            && field_value(value_fields(v), "z"@) == Some(f2(t.z))
            && field_value(value_fields(v), "rotation"@) == Some(f2(t.rotation))
            && field_value(value_fields(v), "scale"@) == Some(f2(t.scale)),
        v matches ComponentValue::Sprite(sp) ==> field_value(value_fields(v), "symbol"@) == Some(seq![sp.symbol])
            && field_value(value_fields(v), "color_r"@) == Some(decimal(sp.color.0 as nat))
            && field_value(value_fields(v), "color_g"@) == Some(decimal(sp.color.1 as nat))
            && field_value(value_fields(v), "color_b"@) == Some(decimal(sp.color.2 as nat))
            && field_value(value_fields(v), "layer"@) == Some(signed_decimal(sp.layer as int)),
        v matches ComponentValue::CircleRadius(c) ==> field_value(value_fields(v), "radius"@) == Some(f2(c.0)),
        v matches ComponentValue::RigidBody(r) ==> field_value(value_fields(v), "mass"@) == Some(f2(r.mass))
            && field_value(value_fields(v), "damping"@) == Some(f2(r.damping))
            && field_value(value_fields(v), "restitution"@) == Some(f2(r.restitution)),
        v matches ComponentValue::Gravity(g) ==> field_value(value_fields(v), "x"@) == Some(f2(g.x))
            && field_value(value_fields(v), "y"@) == Some(f2(g.y)),
{
    let f = value_fields(v);
    match v {
        ComponentValue::Health(h) => {
            reveal_strlit("current");
            reveal_strlit("max");
            assert("current"@.len() == 7 && "max"@.len() == 3);
            lemma_field_at(f, 0);
            lemma_field_at(f, 1);
        },
        ComponentValue::Position(p) => {
            lemma_x_y_differ();
            lemma_field_at(f, 0);
            lemma_field_at(f, 1);
        },
        ComponentValue::Velocity(p) => {
            lemma_x_y_differ();
            lemma_field_at(f, 0);
            lemma_field_at(f, 1);
        },
        ComponentValue::Gravity(g) => {
            lemma_x_y_differ();
            lemma_field_at(f, 0);
            lemma_field_at(f, 1);
        },
        ComponentValue::Damage(d) => {
            lemma_field_at(f, 0);
        },
        ComponentValue::CircleRadius(c) => {
            lemma_field_at(f, 0);
        },
        ComponentValue::Transform(t) => {
            lemma_x_y_differ();
            reveal_strlit("x");
            reveal_strlit("y");
            reveal_strlit("z");
            reveal_strlit("rotation");
            reveal_strlit("scale");
            assert("x"@ != "z"@) by {
                assert("x"@[0] != "z"@[0]);
            }
            assert("y"@ != "z"@) by {
                assert("y"@[0] != "z"@[0]);
            }
            assert("x"@.len() == 1 && "y"@.len() == 1 && "z"@.len() == 1);
            assert("rotation"@.len() == 8 && "scale"@.len() == 5);
            lemma_field_at(f, 0);
            lemma_field_at(f, 1);
            lemma_field_at(f, 2);
            lemma_field_at(f, 3);
            lemma_field_at(f, 4);
        },
        ComponentValue::Sprite(sp) => {
            reveal_strlit("symbol");
            reveal_strlit("color_r");
            reveal_strlit("color_g");
            reveal_strlit("color_b");
            reveal_strlit("layer");
            assert("symbol"@.len() == 6 && "layer"@.len() == 5);
            assert("color_r"@.len() == 7 && "color_g"@.len() == 7 && "color_b"@.len() == 7);
            assert("color_r"@ != "color_g"@) by {
                assert("color_r"@[6] != "color_g"@[6]);
            }
            assert("color_r"@ != "color_b"@) by {
                assert("color_r"@[6] != "color_b"@[6]);
            }
            assert("color_g"@ != "color_b"@) by {
                assert("color_g"@[6] != "color_b"@[6]);
            }
            lemma_field_at(f, 0);
            lemma_field_at(f, 1);
            lemma_field_at(f, 2);
            lemma_field_at(f, 3);
            lemma_field_at(f, 4);
        },
        ComponentValue::RigidBody(r) => {
            reveal_strlit("mass");
            reveal_strlit("damping");
            reveal_strlit("restitution");
            assert("mass"@.len() == 4 && "damping"@.len() == 7 && "restitution"@.len() == 11);
            lemma_field_at(f, 0);
            lemma_field_at(f, 1);
            lemma_field_at(f, 2);
        },
        _ => {},
    }
}

proof fn lemma_x_y_differ()
    ensures
        "x"@ != "y"@,
{
    reveal_strlit("x");
    reveal_strlit("y");
    assert("x"@[0] != "y"@[0]);
}

/// A field whose name no earlier field has is found by that name.
proof fn lemma_field_at(f: Seq<(Seq<char>, Seq<char>)>, k: int)
    requires
        0 <= k < f.len(),
        forall|j: int| 0 <= j < k ==> (#[trigger] f[j]).0 != f[k].0,
    ensures
        field_value(f, f[k].0) == Some(f[k].1),
    decreases k,
{
    if k > 0 {
        let g = f.drop_first();
        assert(g[k - 1] == f[k]);
        assert forall|j: int| 0 <= j < k - 1 implies (#[trigger] g[j]).0 != g[k - 1].0 by {
            assert(g[j] == f[j + 1]);
        }
        lemma_field_at(g, k - 1);
    }
}

/// The view of a `ComponentInfo`: its name and its fields.
pub open spec fn info_view(c: ComponentInfo) -> (Seq<char>, Seq<(Seq<char>, Seq<char>)>) {
    (c.name@, c.fields@.map_values(|f: (String, String)| (f.0@, f.1@)))
}

/// The info for every component `e` has among the kinds at positions
/// `0..upto` of the canonical order, in that order.
pub open spec fn infos_upto(world: World, e: Entity, upto: nat) -> Seq<(Seq<char>, Seq<(Seq<char>, Seq<char>)>)>
    decreases upto,
{
    if upto == 0 {
        Seq::empty()
    } else {
        let rest = infos_upto(world, e, (upto - 1) as nat);
        let k = kind_at(upto - 1);
        match world.component(e, k) {
            Some(v) => rest.push((kind_name(k), value_fields(v))),
            None => rest,
        }
    }
}

/// The names of the components `e` has among the first `upto` kinds.
pub open spec fn names_upto(world: World, e: Entity, upto: nat) -> Seq<Seq<char>>
    decreases upto,
{
    if upto == 0 {
        Seq::empty()
    } else {
        let rest = names_upto(world, e, (upto - 1) as nat);
        let k = kind_at(upto - 1);
        if world.component(e, k) is Some {
            rest.push(kind_name(k))
        } else {
            rest
        }
    }
}

/// Names joined with `", "`.
pub open spec fn join_names(names: Seq<Seq<char>>) -> Seq<char>
    decreases names.len(),
{
    if names.len() == 0 {
        Seq::empty()
    } else if names.len() == 1 {
        names[0]
    } else {
        join_names(names.drop_last()) + ", "@ + names.last()
    }
}

/// The summary line of an entity: its component names in canonical order,
/// joined with `", "`, or `"(empty)"`.
pub open spec fn summary_text(world: World, e: Entity) -> Seq<char> {
    if names_upto(world, e, KIND_COUNT as nat).len() == 0 {
        "(empty)"@
    } else {
        join_names(names_upto(world, e, KIND_COUNT as nat))
    }
}

fn field(name: &str, value: String) -> (f: (String, String))
    ensures
        f.0@ == name@,
        f.1@ == value@,
{
    (string_from(name), value)
}

fn fixed2(bits: u32) -> (s: String)
    ensures
        s@ == f2(bits),
{
    let mut s = String::new();
    push_fixed(&mut s, bits, 2);
    proof {
        assert(s@ =~= f2(bits));
    }
    s
}

fn dec(n: u128) -> (s: String)
    ensures
        s@ == decimal(n as nat),
{
    crate::text::decimal_string(n)
}

/// The inspector's field list for one component value.
pub fn fields_of(v: ComponentValue) -> (r: Vec<(String, String)>)
    ensures
        r@.map_values(|f: (String, String)| (f.0@, f.1@)) == value_fields(v),
{
    let mut r: Vec<(String, String)> = Vec::new();
    match v {
        ComponentValue::Position(p) => {
            r.push(field("x", fixed2(p.x)));
            r.push(field("y", fixed2(p.y)));
        },
        ComponentValue::Velocity(p) => {
            r.push(field("x", fixed2(p.x)));
            r.push(field("y", fixed2(p.y)));
        },
        ComponentValue::Health(h) => {
            r.push(field("current", dec(h.current as u128)));
            r.push(field("max", dec(h.max as u128)));
        },
        ComponentValue::Damage(d) => {
            r.push(field("value", dec(d.0 as u128)));
        },
        ComponentValue::Dead(_) => {
            r.push(field("marker", string_from("true")));
        },
        ComponentValue::Transform(t) => {
            r.push(field("x", fixed2(t.x)));
            r.push(field("y", fixed2(t.y)));
            r.push(field("z", fixed2(t.z)));
            r.push(field("rotation", fixed2(t.rotation)));
            r.push(field("scale", fixed2(t.scale)));
        },
        ComponentValue::Sprite(s) => {
            let mut sym = String::new();
            push_char(&mut sym, s.symbol);
            r.push(field("symbol", sym));
            r.push(field("color_r", dec(s.color.0 as u128)));
            r.push(field("color_g", dec(s.color.1 as u128)));
            r.push(field("color_b", dec(s.color.2 as u128)));
            let mut layer = String::new();
            push_signed_decimal(&mut layer, s.layer as i64);
            proof {
                assert(layer@ =~= signed_decimal(s.layer as int));
            }
            r.push(field("layer", layer));
        },
        ComponentValue::CircleRadius(c) => {
            r.push(field("radius", fixed2(c.0)));
        },
        ComponentValue::RigidBody(b) => {
            r.push(field("mass", fixed2(b.mass)));
            r.push(field("damping", fixed2(b.damping)));
            r.push(field("restitution", fixed2(b.restitution)));
        },
        ComponentValue::Grounded(_) => {
            r.push(field("marker", string_from("true")));
        },
        ComponentValue::Gravity(g) => {
            r.push(field("x", fixed2(g.x)));
            r.push(field("y", fixed2(g.y)));
        },
    }
    proof {
        assert(r@.map_values(|f: (String, String)| (f.0@, f.1@)) =~= value_fields(v));
    }
    r
}

// ──────────────────────────────────────────────
// EntityInspector
// ──────────────────────────────────────────────

/// Reflects all known component types on a single entity.
#[derive(Debug)]
pub struct EntityInspector {
    report: Option<InspectionReport>,
}

impl EntityInspector {
    pub closed spec fn spec_report(&self) -> Option<InspectionReport> {
        self.report
    }

    pub fn new() -> (i: Self)
        ensures
            i.spec_report() is None,
    {
        EntityInspector { report: None }
    }

    /// Scan `entity` for every known component type and build a report:
    /// one entry per component present, in canonical kind order, with the
    /// component's name and field values.
    pub fn inspect(&mut self, world: &World, entity: Entity)
        requires
            world.wf(),
        ensures
            final(self).spec_report() matches Some(r) && r.entity == entity && r.components@.map_values(
                |c: ComponentInfo| info_view(c),
            ) == infos_upto(*world, entity, KIND_COUNT as nat),
    {
        let mut components: Vec<ComponentInfo> = Vec::new();
        let mut i: usize = 0;
        while i < KIND_COUNT
            invariant
                i <= KIND_COUNT,
                world.wf(),
                components@.map_values(|c: ComponentInfo| info_view(c)) == infos_upto(
                    *world,
                    entity,
                    i as nat,
                ),
            decreases KIND_COUNT - i,
        {
            let k = ComponentKind::from_index(i);
            let ghost before = components@;
            match world.get_value(entity, k) {
                Some(v) => {
                    proof {
                        world.lemma_stored_kind(entity, k);
                    }
                    let info = ComponentInfo { name: string_from(k.name()), fields: fields_of(v) };
                    components.push(info);
                    proof {
                        assert(components@.map_values(|c: ComponentInfo| info_view(c)) =~= before.map_values(
                            |c: ComponentInfo| info_view(c),
                        ).push(info_view(info)));
                    }
                },
                None => {},
            }
            i = i + 1;
        }
        self.report = Some(InspectionReport { entity, components });
    }

    pub fn get_report(&self) -> (r: Option<&InspectionReport>)
        ensures
            r matches Some(x) ==> self.spec_report() == Some(*x),
            r is None ==> self.spec_report() is None,
    {
        self.report.as_ref()
    }
}

// ──────────────────────────────────────────────
// SceneTree
// ──────────────────────────────────────────────

/// Maintains a flat list of entities with a summary of their components.
#[derive(Debug)]
pub struct SceneTree {
    entries: Vec<SceneEntry>,
    selected: Option<usize>,
}

impl SceneTree {
    pub closed spec fn spec_entries(&self) -> Seq<SceneEntry> {
        self.entries@
    }

    pub closed spec fn spec_selected(&self) -> Option<usize> {
        self.selected
    }

    pub fn new() -> (t: Self)
        ensures
            t.spec_entries().len() == 0,
            t.spec_selected() is None,
    {
        SceneTree { entries: Vec::new(), selected: None }
    }

    /// Rebuild the tree by scanning all living entities in `world`, in slot
    /// order; the selection is cleared.
    pub fn rebuild(&mut self, world: &World)
        requires
            world.wf(),
        ensures
            final(self).spec_selected() is None,
            forall|j: int| 0 <= j < final(self).spec_entries().len() ==> world.is_alive(#[trigger] final(self).spec_entries()[j].entity)
                && final(self).spec_entries()[j].component_summary@ == summary_text(*world, final(self).spec_entries()[j].entity),
            forall|j1: int, j2: int| 0 <= j1 < j2 < final(self).spec_entries().len() ==>
                final(self).spec_entries()[j1].entity.spec_index() < final(self).spec_entries()[j2].entity.spec_index(),
            forall|e: Entity| world.is_alive(e) ==> exists|j: int| 0 <= j < final(self).spec_entries().len() && #[trigger] final(self).spec_entries()[j].entity == e,
    {
        self.entries.clear();
        self.selected = None;
        let cap = world.entity_capacity();
        proof {
            world.lemma_slot_bound();
        }
        let mut i: usize = 0;
        while i < cap
            invariant
                i <= cap,
                cap == world.slot_count(),
                cap <= u32::MAX,
                world.wf(),
                self.selected is None,
                forall|j: int| 0 <= j < self.entries@.len() ==> world.is_alive(#[trigger] self.entries@[j].entity)
                    && self.entries@[j].component_summary@ == summary_text(*world, self.entries@[j].entity)
                    && (self.entries@[j].entity.spec_index() as int) < i,
                forall|j1: int, j2: int| 0 <= j1 < j2 < self.entries@.len() ==>
                    self.entries@[j1].entity.spec_index() < self.entries@[j2].entity.spec_index(),
                forall|e: Entity| world.is_alive(e) && (e.spec_index() as int) < i ==> exists|j: int| 0 <= j < self.entries@.len() && #[trigger] self.entries@[j].entity == e,
            decreases cap - i,
        {
            let entity = world.entity_from_index(i as u32);
            if world.entity_exists(entity) {
                let summary = build_component_summary(world, entity);
                let ghost before = self.entries@;
                self.entries.push(SceneEntry { entity, component_summary: summary });
                proof {
                    assert forall|e: Entity| world.is_alive(e) && (e.spec_index() as int) < i + 1 implies exists|j: int| 0 <= j < self.entries@.len() && #[trigger] self.entries@[j].entity == e by {
                        if (e.spec_index() as int) == i as int {
                            crate::entity::entity_equality(e, entity);
                            assert(self.entries@[before.len() as int].entity == e);
                        } else {
                            let j = choose|j: int| 0 <= j < before.len() && #[trigger] before[j].entity == e;
                            assert(self.entries@[j].entity == e);
                        }
                    }
                }
            } else {
                proof {
                    assert forall|e: Entity| world.is_alive(e) && (e.spec_index() as int) < i + 1 implies exists|j: int| 0 <= j < self.entries@.len() && #[trigger] self.entries@[j].entity == e by {
                        if (e.spec_index() as int) == i as int {
                            crate::entity::entity_equality(e, entity);
                        }
                    }
                }
            }
            i = i + 1;
        }
        proof {
            assert forall|e: Entity| world.is_alive(e) implies exists|j: int| 0 <= j < self.spec_entries().len() && #[trigger] self.spec_entries()[j].entity == e by {
                assert((e.spec_index() as int) < cap);
                let j = choose|j: int| 0 <= j < self.entries@.len() && #[trigger] self.entries@[j].entity == e;
                assert(self.spec_entries()[j].entity == e);
            }
        }
    }

    /// Select the entry at `index`; out-of-range indices are ignored.
    pub fn select(&mut self, index: usize)
        ensures
            final(self).spec_entries() == old(self).spec_entries(),
            index < old(self).spec_entries().len() ==> final(self).spec_selected() == Some(index),
            index >= old(self).spec_entries().len() ==> final(self).spec_selected() == old(self).spec_selected(),
    {
        if index < self.entries.len() {
            self.selected = Some(index);
        }
    }

    /// The selected entity, if the selection is set and in range.
    pub fn get_selected(&self) -> (r: Option<Entity>)
        ensures
            r == match self.spec_selected() {
                Some(i) => if (i as int) < self.spec_entries().len() {
                    Some(self.spec_entries()[i as int].entity)
                } else {
                    None
                },
                None => None,
            },
    {
        match self.selected {
            Some(i) => {
                if i < self.entries.len() {
                    Some(self.entries[i].entity)
                } else {
                    None
                }
            },
            None => None,
        }
    }

    pub fn entries(&self) -> (r: &[SceneEntry])
        ensures
            r@ == self.spec_entries(),
    {
        self.entries.as_slice()
    }
}

/// A call that changes a scene tree: rebuilding it, or selecting an index.
pub enum SceneTreeCall {
    Rebuild,
    Select { index: usize },
}

/// Whether `call` takes `before` to `after`, as `rebuild` and `select`
/// state of the selection.
pub open spec fn tree_step(before: SceneTree, after: SceneTree, call: SceneTreeCall) -> bool {
    match call {
        SceneTreeCall::Rebuild => after.spec_selected() is None,
        SceneTreeCall::Select { index } => {
            &&& after.spec_entries() == before.spec_entries()
            &&& index < before.spec_entries().len() ==> after.spec_selected() == Some(index)
            &&& index >= before.spec_entries().len() ==> after.spec_selected() == before.spec_selected()
        },
    }
}

/// The last index that a `select` among the first `n` calls accepted
/// (it was in range for the tree it was made on) since the last rebuild.
pub open spec fn last_accepted(trees: Seq<SceneTree>, calls: Seq<SceneTreeCall>, n: int) -> Option<usize>
    decreases n,
{
    if n <= 0 {
        None
    } else {
        match calls[n - 1] {
            SceneTreeCall::Rebuild => None,
            SceneTreeCall::Select { index } => if index < trees[n - 1].spec_entries().len() {
                Some(index)
            } else {
                last_accepted(trees, calls, n - 1)
            },
        }
    }
}

proof fn lemma_selection_prefix(trees: Seq<SceneTree>, calls: Seq<SceneTreeCall>, n: int)
    requires
        trees.len() == calls.len() + 1,
        0 <= n <= calls.len(),
        trees[0].spec_selected() is None,
        forall|i: int| 0 <= i < calls.len() ==> #[trigger] tree_step(trees[i], trees[i + 1], calls[i]),
    ensures
        trees[n].spec_selected() == last_accepted(trees, calls, n),
        trees[n].spec_selected() matches Some(k) ==> k < trees[n].spec_entries().len(),
    decreases n,
{
    if n > 0 {
        lemma_selection_prefix(trees, calls, n - 1);
        let i = n - 1;
        assert(tree_step(trees[i], trees[i + 1], calls[i]));
    }
}

/// In a tree that started with nothing selected, the selection is the last
/// index a `select` accepted since the last rebuild, it is always in range,
/// and `get_selected` gives the entity of that entry.
pub proof fn selection_follows_calls(trees: Seq<SceneTree>, calls: Seq<SceneTreeCall>)
    requires
        trees.len() == calls.len() + 1,
        trees[0].spec_selected() is None,
        forall|i: int| 0 <= i < calls.len() ==> #[trigger] tree_step(trees[i], trees[i + 1], calls[i]),
    ensures
        trees.last().spec_selected() == last_accepted(trees, calls, calls.len() as int),
        trees.last().spec_selected() matches Some(k) ==> k < trees.last().spec_entries().len(),
{
    lemma_selection_prefix(trees, calls, calls.len() as int);
}

/// Build a comma-separated summary of which known components exist on
/// `entity`, or `"(empty)"` when it has none.
pub fn build_component_summary(world: &World, entity: Entity) -> (s: String)
    requires
        world.wf(),
    ensures
        s@ == summary_text(*world, entity),
{
    let mut s = String::new();
    let mut count: usize = 0;
    let mut i: usize = 0;
    while i < KIND_COUNT
        invariant
            i <= KIND_COUNT,
            count <= i,
            world.wf(),
            count == names_upto(*world, entity, i as nat).len(),
            s@ == join_names(names_upto(*world, entity, i as nat)),
        decreases KIND_COUNT - i,
    {
        let k = ComponentKind::from_index(i);
        if world.has_kind(entity, k) {
            let ghost names = names_upto(*world, entity, i as nat);
            if count > 0 {
                s.append(", ");
            }
            s.append(k.name());
            count = count + 1;
            proof {
                let next = names_upto(*world, entity, (i + 1) as nat);
                assert(next == names.push(kind_name(k)));
                assert(next.drop_last() =~= names);
                if names.len() == 0 {
                    assert(s@ =~= join_names(next));
                } else {
                    assert(s@ =~= join_names(next));
                }
            }
        }
        i = i + 1;
    }
    if count == 0 {
        s = string_from("(empty)");
    }
    s
}

// ──────────────────────────────────────────────
// Stats, the stats panel and the dev console
// ──────────────────────────────────────────────

/// A single timestamped log entry.
#[derive(Debug, Clone)]
pub struct LogEntry {
    /// Seconds since the console was created (bit pattern of an `f64`).
    pub timestamp: u64,
    pub level: LogLevel,
    pub message: String,
}

/// Snapshot of engine performance stats.
#[derive(Debug, Clone, Copy)]
pub struct Stats {
    /// Frames per second (bit pattern of an `f32`).
    pub fps: u32,
    pub entity_count: usize,
    pub draw_calls: u32,
    /// Average frame time in milliseconds (bit pattern of an `f32`).
    pub frame_time_ms: u32,
}

impl Stats {
    /// All zeros.
    pub fn zero() -> (s: Self)
        ensures
            s.fps == 0 && s.entity_count == 0 && s.draw_calls == 0 && s.frame_time_ms == 0,
    {
        Stats { fps: 0, entity_count: 0, draw_calls: 0, frame_time_ms: 0 }
    }
}

/// Frame-time samples kept by a new stats panel.
pub const STATS_CAPACITY: usize = 60;

/// Tracks frame times in a ring buffer, with the entity and draw-call
/// counts. The averages over the buffer are computed by the caller.
#[derive(Debug)]
pub struct StatsPanel {
    frame_times: Vec<u32>,
    cursor: usize,
    sample_count: usize,
    capacity: usize,
    entity_count: usize,
    draw_calls: u32,
}

impl StatsPanel {
    /// The ring buffer holds `capacity` slots, the cursor is in range and
    /// at most `capacity` of them hold samples.
    pub closed spec fn wf(&self) -> bool {
        &&& self.capacity > 0
        &&& self.frame_times@.len() == self.capacity
        &&& self.cursor < self.capacity
        &&& self.sample_count <= self.capacity
    }

    /// The frame-time slots (bit patterns of `f32` milliseconds).
    pub closed spec fn slots(&self) -> Seq<u32> {
        self.frame_times@
    }

    /// Where the next sample goes.
    pub closed spec fn next_slot(&self) -> int {
        self.cursor as int
    }

    /// How many slots hold samples.
    pub closed spec fn samples(&self) -> nat {
        self.sample_count as nat
    }

    /// The entity count last reported.
    pub closed spec fn spec_entity_count(&self) -> usize {
        self.entity_count
    }

    /// The draw-call count last reported.
    pub closed spec fn spec_draw_calls(&self) -> u32 {
        self.draw_calls
    }

    /// An empty panel with 60 zeroed slots.
    pub fn new() -> (p: Self)
        ensures
            p.wf(),
            p.slots() == Seq::new(STATS_CAPACITY as nat, |i: int| 0u32),
            p.next_slot() == 0,
            p.samples() == 0,
            p.spec_entity_count() == 0,
            p.spec_draw_calls() == 0,
    {
        let mut frame_times: Vec<u32> = Vec::new();
        let mut i: usize = 0;
        while i < STATS_CAPACITY
            invariant
                i <= STATS_CAPACITY,
                frame_times@ == Seq::new(i as nat, |j: int| 0u32),
            decreases STATS_CAPACITY - i,
        {
            frame_times.push(0);
            proof {
                assert(frame_times@ =~= Seq::new((i + 1) as nat, |j: int| 0u32));
            }
            i = i + 1;
        }
        StatsPanel {
            frame_times,
            cursor: 0,
            sample_count: 0,
            capacity: STATS_CAPACITY,
            entity_count: 0,
            draw_calls: 0,
        }
    }

    /// Record a frame delta (milliseconds, bit pattern of an `f32`): it
    /// overwrites the slot under the cursor, the cursor moves on round the
    /// ring and the sample count grows up to the capacity.
    pub fn update_fps(&mut self, dt: u32)
        requires
            old(self).wf(),
        ensures
            final(self).wf(),
            final(self).slots() == old(self).slots().update(old(self).next_slot(), dt),
            final(self).next_slot() == (old(self).next_slot() + 1) % (old(self).slots().len() as int),
            final(self).samples() == if old(self).samples() < old(self).slots().len() {
                old(self).samples() + 1
            } else {
                old(self).samples()
            },
            final(self).spec_entity_count() == old(self).spec_entity_count(),
            final(self).spec_draw_calls() == old(self).spec_draw_calls(),
    {
        self.frame_times.set(self.cursor, dt);
        self.cursor = (self.cursor + 1) % self.capacity;
        if self.sample_count < self.capacity {
            self.sample_count = self.sample_count + 1;
        }
    }

    pub fn set_entity_count(&mut self, count: usize)
        ensures
            final(self).spec_entity_count() == count,
            final(self).spec_draw_calls() == old(self).spec_draw_calls(),
            final(self).slots() == old(self).slots(),
            final(self).next_slot() == old(self).next_slot(),
            final(self).samples() == old(self).samples(),
            old(self).wf() ==> final(self).wf(),
    {
        self.entity_count = count;
    }

    pub fn set_draw_calls(&mut self, count: u32)
        ensures
            final(self).spec_draw_calls() == count,
            final(self).spec_entity_count() == old(self).spec_entity_count(),
            final(self).slots() == old(self).slots(),
            final(self).next_slot() == old(self).next_slot(),
            final(self).samples() == old(self).samples(),
            old(self).wf() ==> final(self).wf(),
    {
        self.draw_calls = count;
    }

    /// The recorded frame times: the first `samples()` slots.
    pub fn recent_frame_times(&self) -> (v: &[u32])
        requires
            self.wf(),
        ensures
            v@ == self.slots().take(self.samples() as int),
    {
        let r = vstd::slice::slice_subrange(self.frame_times.as_slice(), 0, self.sample_count);
        proof {
            assert(r@ =~= self.slots().take(self.samples() as int));
        }
        r
    }

    /// The entity count last reported.
    pub fn entity_count(&self) -> (n: usize)
        ensures
            n == self.spec_entity_count(),
    {
        self.entity_count
    }

    /// The draw-call count last reported.
    pub fn draw_calls(&self) -> (n: u32)
        ensures
            n == self.spec_draw_calls(),
    {
        self.draw_calls
    }
}

impl Default for StatsPanel {
    fn default() -> (p: Self)
        ensures
            p.wf(),
            p.samples() == 0,
    {
        Self::new()
    }
}

/// Entries a new console keeps before dropping the oldest.
pub const CONSOLE_CAPACITY: usize = 1000;

/// `"FPS: <fps, one decimal> | frame time: <ms, two decimals>ms"`.
pub open spec fn fps_text(s: Stats) -> Seq<char> {
    "FPS: "@ + fixed_text(s.fps, 1) + " | frame time: "@ + fixed_text(s.frame_time_ms, 2) + "ms"@
}

/// What the console logs in reply to a trimmed command other than `clear`.
pub open spec fn console_reply(cmd: Seq<char>, s: Stats) -> (LogLevel, Seq<char>) {
    if cmd == "help"@ {
        (LogLevel::Info, "Available commands: help, clear, entities, fps"@)
    } else if cmd == "entities"@ {
        (LogLevel::Info, "Entity count: "@ + decimal(s.entity_count as nat))
    } else if cmd == "fps"@ {
        (LogLevel::Info, fps_text(s))
    } else {
        (LogLevel::Warn, "Unknown command: "@ + cmd)
    }
}

/// In-engine console with command parsing and a capped log buffer.
#[derive(Debug)]
pub struct DevConsole {
    /// The entries, oldest first.
    pub log: Vec<LogEntry>,
    /// Entries kept before the oldest is dropped.
    pub max_entries: usize,
    /// When the console was created; entries are stamped relative to it.
    pub epoch: std::time::Instant,
    /// The stats that `fps` and `entities` report.
    pub stats: Stats,
}

impl DevConsole {
    /// The entries, oldest first.
    pub open spec fn entries(&self) -> Seq<LogEntry> {
        self.log@
    }

    /// The stats the console reports.
    pub open spec fn spec_stats(&self) -> Stats {
        self.stats
    }

    /// `log` after appending one entry: the oldest goes first when the log
    /// is at capacity.
    pub open spec fn room_for_one(&self) -> Seq<LogEntry> {
        if self.entries().len() >= self.max_entries {
            self.entries().drop_first()
        } else {
            self.entries()
        }
    }

    /// An empty console keeping up to 1000 entries.
    pub fn new() -> (c: Self)
        ensures
            c.entries().len() == 0,
            c.max_entries == CONSOLE_CAPACITY,
            c.spec_stats() == (Stats { fps: 0, entity_count: 0, draw_calls: 0, frame_time_ms: 0 }),
    {
        DevConsole {
            log: Vec::new(),
            max_entries: CONSOLE_CAPACITY,
            epoch: crate::io_support::instant_now(),
            stats: Stats::zero(),
        }
    }

    /// Log an informational message.
    pub fn log(&mut self, message: &str)
        requires
            old(self).max_entries > 0 || old(self).entries().len() > 0,
        ensures
            final(self).entries().drop_last() == old(self).room_for_one(),
            final(self).entries().len() == old(self).room_for_one().len() + 1,
            final(self).entries().last().level == LogLevel::Info,
            final(self).entries().last().message@ == message@,
            final(self).max_entries == old(self).max_entries,
            final(self).spec_stats() == old(self).spec_stats(),
    {
        self.log_with_level(LogLevel::Info, message);
    }

    /// Log a message: when the log holds `max_entries` or more, the oldest
    /// entry is dropped first.
    pub fn log_with_level(&mut self, level: LogLevel, message: &str)
        requires
            old(self).max_entries > 0 || old(self).entries().len() > 0,
        ensures
            final(self).entries().drop_last() == old(self).room_for_one(),
            final(self).entries().len() == old(self).room_for_one().len() + 1,
            final(self).entries().last().level == level,
            final(self).entries().last().message@ == message@,
            final(self).max_entries == old(self).max_entries,
            final(self).spec_stats() == old(self).spec_stats(),
    {
        let elapsed = crate::io_support::seconds_since_bits(&self.epoch);
        if self.log.len() >= self.max_entries {
            self.log.remove(0);
        }
        self.log.push(LogEntry { timestamp: elapsed, level, message: string_from(message) });
        proof {
            assert(self.log@.drop_last() =~= old(self).room_for_one());
        }
    }

    /// Run a console command. The trimmed input is echoed as `"> cmd"`;
    /// `clear` then empties the log, any other command logs its
    /// [`console_reply`]. Blank input does nothing.
    pub fn submit(&mut self, input: &str)
        requires
            old(self).max_entries > 0 || old(self).entries().len() > 0,
        ensures
            ({
                let t = crate::text::trim_seq(input@);
                &&& t.len() == 0 ==> final(self).entries() == old(self).entries()
                &&& t.len() > 0 && t == "clear"@ ==> final(self).entries().len() == 0
                &&& t.len() > 0 && t != "clear"@ ==> {
                    let n = final(self).entries().len();
                    &&& n >= 1
                    &&& final(self).entries()[n - 1].level == console_reply(t, old(self).spec_stats()).0
                    &&& final(self).entries()[n - 1].message@ == console_reply(t, old(self).spec_stats()).1
                    &&& old(self).max_entries >= 2 ==> n >= 2 && final(self).entries()[n - 2].level
                        == LogLevel::Info && final(self).entries()[n - 2].message@ == "> "@ + t
                }
            }),
            final(self).max_entries == old(self).max_entries,
            final(self).spec_stats() == old(self).spec_stats(),
    {
        let chars = crate::text::chars_of(input);
        let t = crate::text::trim_chars(&chars);
        if t.len() == 0 {
            return;
        }
        let trimmed = crate::text::string_from_chars(&t);
        let mut echo = string_from("> ");
        echo.append(trimmed.as_str());
        self.log_with_level(LogLevel::Info, echo.as_str());
        let cmd = trimmed.as_str();
        if crate::text::str_equal(cmd, "clear") {
            self.log.clear();
            return;
        }
        let level: LogLevel;
        let msg: String;
        if crate::text::str_equal(cmd, "help") {
            level = LogLevel::Info;
            msg = string_from("Available commands: help, clear, entities, fps");
        } else if crate::text::str_equal(cmd, "entities") {
            level = LogLevel::Info;
            let mut m = string_from("Entity count: ");
            push_decimal(&mut m, self.stats.entity_count as u128);
            msg = m;
        } else if crate::text::str_equal(cmd, "fps") {
            level = LogLevel::Info;
            let mut m = string_from("FPS: ");
            push_fixed(&mut m, self.stats.fps, 1);
            m.append(" | frame time: ");
            push_fixed(&mut m, self.stats.frame_time_ms, 2);
            m.append("ms");
            proof {
                assert(m@ =~= fps_text(self.stats));
            }
            msg = m;
        } else {
            level = LogLevel::Warn;
            let mut m = string_from("Unknown command: ");
            m.append(cmd);
            msg = m;
        }
        let ghost mid = self.log@;
        self.log_with_level(level, msg.as_str());
        proof {
            if self.max_entries >= 2 {
                lemma_second_last(mid, self.log@, self.max_entries);
            }
        }
    }

    /// The log, oldest first.
    pub fn get_log(&self) -> (r: &[LogEntry])
        ensures
            r@ == self.entries(),
    {
        self.log.as_slice()
    }

    /// The entries of one level, oldest first.
    pub fn get_log_filtered(&self, level: LogLevel) -> (r: Vec<&LogEntry>)
        ensures
            r@.len() == self.entries().filter(|e: LogEntry| e.level == level).len(),
            forall|i: int|
                0 <= i < r@.len() ==> *r@[i] == self.entries().filter(|e: LogEntry| e.level == level)[i],
    {
        let mut r: Vec<&LogEntry> = Vec::new();
        let mut i: usize = 0;
        while i < self.log.len()
            invariant
                i <= self.log@.len(),
                r@.len() == self.log@.take(i as int).filter(|e: LogEntry| e.level == level).len(),
                forall|k: int|
                    0 <= k < r@.len() ==> *r@[k] == self.log@.take(i as int).filter(
                        |e: LogEntry| e.level == level,
                    )[k],
            decreases self.log.len() - i,
        {
            proof {
                assert(self.log@.take(i + 1).drop_last() =~= self.log@.take(i as int));
                reveal(Seq::filter);
            }
            if self.log[i].level == level {
                r.push(&self.log[i]);
            }
            i = i + 1;
        }
        proof {
            assert(self.log@.take(self.log@.len() as int) =~= self.log@);
        }
        r
    }

    /// Empty the log.
    pub fn clear(&mut self)
        ensures
            final(self).entries().len() == 0,
            final(self).max_entries == old(self).max_entries,
            final(self).spec_stats() == old(self).spec_stats(),
    {
        self.log.clear();
    }

    /// Feed the console the stats that `fps` and `entities` report.
    pub fn update_stats(&mut self, stats: Stats)
        ensures
            final(self).spec_stats() == stats,
            final(self).entries() == old(self).entries(),
            final(self).max_entries == old(self).max_entries,
    {
        self.stats = stats;
    }
}

proof fn lemma_second_last(mid: Seq<LogEntry>, fin: Seq<LogEntry>, max: usize)
    requires
        mid.len() >= 1,
        max >= 2,
        fin.drop_last() == (if mid.len() >= max {
            mid.drop_first()
        } else {
            mid
        }),
        fin.len() == fin.drop_last().len() + 1,
    ensures
        fin.len() >= 2,
        fin[fin.len() - 2] == mid.last(),
{
    assert(fin[fin.len() - 2] == fin.drop_last().last());
}

/// A console within its capacity stays within it when it logs: the oldest
/// entry makes room for the new one.
pub proof fn logging_keeps_console_within_capacity(c: DevConsole)
    requires
        c.max_entries > 0,
        c.entries().len() <= c.max_entries,
    ensures
        c.room_for_one().len() + 1 <= c.max_entries,
{
}

impl Default for DevConsole {
    fn default() -> (c: Self)
        ensures
            c.entries().len() == 0,
            c.max_entries == CONSOLE_CAPACITY,
    {
        Self::new()
    }
}

// ──────────────────────────────────────────────
// DevOverlay
// ──────────────────────────────────────────────

/// Top-level container that owns and drives all dev-tool subsystems.
#[derive(Debug)]
pub struct DevOverlay {
    pub entity_inspector: EntityInspector,
    pub stats_panel: StatsPanel,
    pub console: DevConsole,
    pub scene_tree: SceneTree,
    pub visible: bool,
    pub selected_entity: Option<Entity>,
}

/// Borrowed snapshot of everything the renderer needs to draw for one frame.
#[derive(Debug)]
pub struct OverlayRenderData<'a> {
    pub stats: Stats,
    pub inspection: Option<&'a InspectionReport>,
    pub log: &'a [LogEntry],
    pub scene_entries: &'a [SceneEntry],
    pub selected_entity: Option<Entity>,
}

impl DevOverlay {
    /// A hidden overlay with fresh subsystems and nothing selected.
    pub fn new() -> (o: Self)
        ensures
            !o.visible,
            o.selected_entity is None,
            o.stats_panel.wf(),
            o.stats_panel.slots() == Seq::new(STATS_CAPACITY as nat, |i: int| 0u32),
            o.stats_panel.next_slot() == 0,
            o.stats_panel.samples() == 0,
            o.stats_panel.spec_entity_count() == 0,
            o.stats_panel.spec_draw_calls() == 0,
            o.console.entries().len() == 0,
            o.console.max_entries == CONSOLE_CAPACITY,
            o.console.spec_stats() == (Stats { fps: 0, entity_count: 0, draw_calls: 0, frame_time_ms: 0 }),
            o.scene_tree.spec_entries().len() == 0,
            o.scene_tree.spec_selected() is None,
            o.entity_inspector.spec_report() is None,
    {
        DevOverlay {
            entity_inspector: EntityInspector::new(),
            stats_panel: StatsPanel::new(),
            console: DevConsole::new(),
            scene_tree: SceneTree::new(),
            visible: false,
            selected_entity: None,
        }
    }

    pub fn toggle(&mut self)
        ensures
            final(self).visible == !old(self).visible,
            final(self).selected_entity == old(self).selected_entity,
    {
        self.visible = !self.visible;
    }

    pub fn is_visible(&self) -> (b: bool)
        ensures
            b == self.visible,
    {
        self.visible
    }

    /// First half of a frame: record the frame time (milliseconds, bit
    /// pattern of an `f32`) and the world's entity count in the stats panel.
    pub fn record_frame(&mut self, world: &World, dt: u32)
        requires
            world.wf(),
            old(self).stats_panel.wf(),
        ensures
            final(self).stats_panel.wf(),
            final(self).stats_panel.slots() == old(self).stats_panel.slots().update(
                old(self).stats_panel.next_slot(),
                dt,
            ),
            final(self).stats_panel.spec_entity_count() == world.live_count(),
            final(self).visible == old(self).visible,
            final(self).selected_entity == old(self).selected_entity,
    {
        self.stats_panel.update_fps(dt);
        self.stats_panel.set_entity_count(world.entity_count());
    }

    /// Second half of a frame: hand the console the stats computed from the
    /// panel, re-inspect the selected entity while it lives and drop the
    /// selection once it is gone.
    pub fn finish_frame(&mut self, world: &World, stats: Stats)
        requires
            world.wf(),
        ensures
            final(self).console.spec_stats() == stats,
            final(self).console.entries() == old(self).console.entries(),
            final(self).visible == old(self).visible,
            match old(self).selected_entity {
                Some(e) => if world.is_alive(e) {
                    final(self).selected_entity == Some(e) && (final(self).entity_inspector.spec_report() matches Some(r) && r.entity == e)
                } else {
                    final(self).selected_entity is None
                },
                None => final(self).selected_entity is None,
            },
    {
        self.console.update_stats(stats);
        match self.selected_entity {
            Some(entity) => {
                if world.entity_exists(entity) {
                    self.entity_inspector.inspect(world, entity);
                } else {
                    self.selected_entity = None;
                }
            },
            None => {},
        }
    }

    /// What the renderer draws this frame, with the given stats; `None`
    /// while the overlay is hidden.
    pub fn render(&self, stats: Stats) -> (r: Option<OverlayRenderData<'_>>)
        ensures
            r is Some == self.visible,
            r matches Some(d) ==> d.log@ == self.console.entries() && d.selected_entity
                == self.selected_entity,
    {
        if !self.visible {
            return None;
        }
        Some(OverlayRenderData {
            stats,
            inspection: self.entity_inspector.get_report(),
            log: self.console.get_log(),
            scene_entries: self.scene_tree.entries(),
            selected_entity: self.selected_entity,
        })
    }
}

impl Default for DevOverlay {
    fn default() -> (o: Self)
        ensures
            !o.visible,
            o.selected_entity is None,
    {
        Self::new()
    }
}

} // verus!
