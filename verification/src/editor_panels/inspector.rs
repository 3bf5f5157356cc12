//! Component inspector panel: which component sections are expanded, what
//! the panel shows for the current selection, and the components its Add
//! menu creates.

use vstd::prelude::*;

use crate::component::{
    CircleRadius, ComponentKind, ComponentValue, Damage, Dead, F32_0_99, F32_HALF, F32_ONE, F32_ZERO,
    Gravity, Grounded, Health, Position, RigidBody, Sprite, Transform, Velocity,
};
use crate::editor_panels::EditorState;
use crate::entity::Entity;
use crate::text::{push_char, str_equal, string_from};

verus! {

/// The component sections the inspector knows, in display order.
pub const KNOWN_COMPONENTS: [&'static str; 11] = [
    "Position",
    "Velocity",
    "Health",
    "Transform",
    "Sprite",
    "RigidBody",
    "CircleRadius",
    "Gravity",
    "Damage",
    "Dead",
    "Grounded",
];

/// The names of the known component sections.
pub open spec fn known_names() -> Seq<Seq<char>> {
    seq!["Position"@, "Velocity"@, "Health"@, "Transform"@, "Sprite"@, "RigidBody"@, "CircleRadius"@, "Gravity"@, "Damage"@, "Dead"@, "Grounded"@]
}

/// The names of a list of strings.
pub open spec fn names_of(v: Seq<String>) -> Seq<Seq<char>> {
    v.map_values(|s: String| s@)
}

/// `s` without any occurrence of `name`, in order.
pub open spec fn without_name(s: Seq<Seq<char>>, name: Seq<char>) -> Seq<Seq<char>> {
    s.filter(|x: Seq<char>| x != name)
}

/// No name occurs twice.
pub open spec fn no_duplicate_names(v: Seq<Seq<char>>) -> bool {
    forall|i: int, j: int| 0 <= i < j < v.len() ==> v[i] != v[j]
}

/// Per-entity component inspector state.
pub struct InspectorPanel {
    /// Names of the component sections currently expanded.
    pub expanded_components: Vec<String>,
}

impl InspectorPanel {
    /// A panel with every known component section expanded.
    pub fn new() -> (p: Self)
        ensures
            names_of(p.expanded_components@) == known_names(),
    {
        let mut v: Vec<String> = Vec::new();
        v.push(string_from("Position"));
        v.push(string_from("Velocity"));
        v.push(string_from("Health"));
        v.push(string_from("Transform"));
        v.push(string_from("Sprite"));
        v.push(string_from("RigidBody"));
        v.push(string_from("CircleRadius"));
        v.push(string_from("Gravity"));
        v.push(string_from("Damage"));
        v.push(string_from("Dead"));
        v.push(string_from("Grounded"));
        proof {
            assert(names_of(v@) =~= known_names());
        }
        Self { expanded_components: v }
    }

    /// Panel title.
    pub fn title(&self) -> (s: &'static str)
        ensures
            s@ == "Inspector"@,
    {
        "Inspector"
    }

    /// Whether the section `name` is expanded.
    pub fn is_expanded(&self, name: &str) -> (b: bool)
        ensures
            b == names_of(self.expanded_components@).contains(name@),
    {
        let mut i: usize = 0;
        while i < self.expanded_components.len()
            invariant
                i <= self.expanded_components@.len(),
                forall|k: int| 0 <= k < i ==> self.expanded_components@[k]@ != name@,
            decreases self.expanded_components@.len() - i,
        {
            if str_equal(self.expanded_components[i].as_str(), name) {
                proof {
                    assert(names_of(self.expanded_components@)[i as int] == name@);
                }
                return true;
            }
            i = i + 1;
        }
        proof {
            if names_of(self.expanded_components@).contains(name@) {
                let w = choose|w: int| 0 <= w < names_of(self.expanded_components@).len() && names_of(self.expanded_components@)[w] == name@;
                assert(self.expanded_components@[w]@ == name@);
            }
        }
        false
    }

    /// Collapse the section `name` if it is expanded, else expand it.
    pub fn toggle_expanded(&mut self, name: &str)
        ensures
            names_of(old(self).expanded_components@).contains(name@) ==> names_of(final(self).expanded_components@)
                == without_name(names_of(old(self).expanded_components@), name@),
            !names_of(old(self).expanded_components@).contains(name@) ==> names_of(final(self).expanded_components@)
                == names_of(old(self).expanded_components@).push(name@),
    {
        if self.is_expanded(name) {
            let ghost orig = self.expanded_components@;
            let mut src: Vec<String> = Vec::new();
            std::mem::swap(&mut src, &mut self.expanded_components);
            let n0 = src.len();
            let mut kept: Vec<String> = Vec::new();
            let mut k: usize = 0;
            proof {
                assert(names_of(orig).subrange(0, 0) =~= Seq::<Seq<char>>::empty());
            }
            while src.len() > 0
                invariant
                    n0 == orig.len(),
                    k <= n0,
                    src@ == orig.subrange(k as int, n0 as int),
                    names_of(kept@) == without_name(names_of(orig).subrange(0, k as int), name@),
                decreases src@.len(),
            {
                let x = src.remove(0);
                proof {
                    assert(x == orig[k as int]);
                    let post = names_of(orig).subrange(0, k + 1);
                    assert(post.drop_last() =~= names_of(orig).subrange(0, k as int));
                    assert(post.last() == x@);
                    assert(src@ =~= orig.subrange(k + 1, n0 as int));
                    reveal(Seq::filter);
                }
                let keep = !str_equal(x.as_str(), name);
                let ghost kb = kept@;
                if keep {
                    kept.push(x);
                    proof {
                        assert(names_of(kept@) =~= names_of(kb).push(x@));
                    }
                }
                k = k + 1;
            }
            proof {
                assert(names_of(orig).subrange(0, n0 as int) =~= names_of(orig));
            }
            self.expanded_components = kept;
        } else {
            let ghost before = self.expanded_components@;
            self.expanded_components.push(string_from(name));
            proof {
                assert(names_of(self.expanded_components@) =~= names_of(before).push(name@));
            }
        }
    }
}

/// Toggling a section never lists a name twice.
pub proof fn toggle_keeps_names_unique(before: Seq<Seq<char>>, name: Seq<char>)
    requires
        no_duplicate_names(before),
    ensures
        before.contains(name) ==> no_duplicate_names(without_name(before, name)),
        !before.contains(name) ==> no_duplicate_names(before.push(name)),
    decreases before.len(),
{
    reveal(Seq::filter);
    if before.len() > 0 {
        let d = before.drop_last();
        assert forall|i: int, j: int| 0 <= i < j < d.len() implies d[i] != d[j] by {
            assert(d[i] == before[i] && d[j] == before[j]);
        }
        toggle_keeps_names_unique(d, name);
        if before.contains(name) {
            let f = without_name(before, name);
            let fd = without_name(d, name);
            if before.last() != name {
                assert(f == fd.push(before.last()));
                assert(d.contains(name)) by {
                    let w = choose|w: int| 0 <= w < before.len() && before[w] == name;
                    assert(w < before.len() - 1);
                    assert(d[w] == name);
                }
                lemma_filter_subset(d, name);
                assert forall|i: int| 0 <= i < fd.len() implies fd[i] != before.last() by {
                    let w = choose|w: int| 0 <= w < d.len() && d[w] == fd[i];
                    assert(before[w] == d[w]);
                }
            } else {
                assert(f == fd);
                if d.contains(name) {
                    let w = choose|w: int| 0 <= w < d.len() && d[w] == name;
                    assert(before[w] == name);
                    assert(false);
                }
                lemma_filter_all_kept(d, name);
            }
        }
    }
    if !before.contains(name) {
        let p = before.push(name);
        assert forall|i: int, j: int| 0 <= i < j < p.len() implies p[i] != p[j] by {
            if j == before.len() {
                assert(p[i] == before[i]);
            } else {
                assert(p[i] == before[i] && p[j] == before[j]);
            }
        }
    }
}

/// Every kept element comes from the sequence.
proof fn lemma_filter_subset(s: Seq<Seq<char>>, name: Seq<char>)
    ensures
        forall|i: int| 0 <= i < without_name(s, name).len() ==> exists|w: int| 0 <= w < s.len() && s[w] == #[trigger] without_name(s, name)[i],
    decreases s.len(),
{
    reveal(Seq::filter);
    if s.len() > 0 {
        let d = s.drop_last();
        lemma_filter_subset(d, name);
        let f = without_name(s, name);
        let fd = without_name(d, name);
        assert forall|i: int| 0 <= i < f.len() implies exists|w: int| 0 <= w < s.len() && s[w] == #[trigger] f[i] by {
            if i < fd.len() {
                assert(f[i] == fd[i]);
                let w = choose|w: int| 0 <= w < d.len() && d[w] == fd[i];
                assert(s[w] == d[w]);
            } else {
                assert(f[i] == s.last());
                assert(s[s.len() - 1] == f[i]);
            }
        }
    }
}

/// Without any occurrence of `name`, filtering keeps everything.
proof fn lemma_filter_all_kept(s: Seq<Seq<char>>, name: Seq<char>)
    requires
        !s.contains(name),
    ensures
        without_name(s, name) == s,
    decreases s.len(),
{
    reveal(Seq::filter);
    if s.len() > 0 {
        let d = s.drop_last();
        assert(!d.contains(name)) by {
            if d.contains(name) {
                let w = choose|w: int| 0 <= w < d.len() && d[w] == name;
                assert(s[w] == name);
            }
        }
        lemma_filter_all_kept(d, name);
        assert(s.last() != name) by {
            assert(s[s.len() - 1] == s.last());
        }
        assert(s =~= d.push(s.last()));
    }
}

impl Default for InspectorPanel {
    fn default() -> (p: Self)
        ensures
            names_of(p.expanded_components@) == known_names(),
    {
        Self::new()
    }
}

/// `9.81`, the gravity of a newly added Gravity component.
pub const F32_STANDARD_GRAVITY: u32 = 0x411c_f5c3u32;

/// What the inspector shows for the current selection.
#[derive(Debug, Clone, Copy, PartialEq, Eq)]
pub enum InspectorTarget {
    /// Nothing is selected.
    Nothing,
    /// Several entities are selected (multi-edit is not supported).
    Many(usize),
    /// The one selected entity no longer exists; the selection was cleared.
    Gone,
    /// The one selected entity, alive.
    Single(Entity),
}

impl InspectorPanel {
    /// Decide what the panel shows: nothing, a count, or the one selected
    /// entity. A single selected entity that died is reported as gone and
    /// the selection is cleared.
    pub fn target(state: &mut EditorState) -> (t: InspectorTarget)
        requires
            old(state).world.wf(),
        ensures
            final(state).world == old(state).world,
            final(state).console_log == old(state).console_log,
            old(state).selected_entities@.len() == 0 ==> t == InspectorTarget::Nothing,
            old(state).selected_entities@.len() > 1 ==> t == InspectorTarget::Many(
                old(state).selected_entities@.len() as usize,
            ),
            old(state).selected_entities@.len() == 1 && old(state).world.is_alive(
                old(state).selected_entities@[0],
            ) ==> t == InspectorTarget::Single(old(state).selected_entities@[0]),
            old(state).selected_entities@.len() == 1 && !old(state).world.is_alive(
                old(state).selected_entities@[0],
            ) ==> t == InspectorTarget::Gone && final(state).selected_entities@.len() == 0,
            t != InspectorTarget::Gone ==> final(state).selected_entities == old(state).selected_entities,
    {
        let n = state.selected_entities.len();
        if n == 0 {
            return InspectorTarget::Nothing;
        }
        if n > 1 {
            return InspectorTarget::Many(n);
        }
        let entity = state.selected_entities[0];
        if !state.world.entity_exists(entity) {
            state.clear_selection();
            return InspectorTarget::Gone;
        }
        InspectorTarget::Single(entity)
    }

    /// Add the Add-menu default of `kind` to `entity` unless it already has
    /// a component of that kind. Returns whether one was added.
    pub fn add_default_component(state: &mut EditorState, entity: Entity, kind: ComponentKind) -> (added: bool)
        requires
            old(state).world.wf(),
        ensures
            final(state).world.wf(),
            added == (old(state).world.is_alive(entity) && old(state).world.component(entity, kind) is None),
            added ==> final(state).world.component(entity, kind) == Some(default_component(kind)),
            !added ==> final(state).world == old(state).world,
            forall|e2: Entity, k: ComponentKind|
                !(e2 == entity && k == kind) ==> final(state).world.component(e2, k) == old(
                    state,
                ).world.component(e2, k),
            final(state).selected_entities == old(state).selected_entities,
            final(state).console_log == old(state).console_log,
    {
        if state.world.has_kind(entity, kind) || !state.world.entity_exists(entity) {
            return false;
        }
        let value = make_default_component(kind);
        state.world.add_value(entity, value);
        true
    }
}

/// The value the Add menu creates for each kind: zero position and
/// velocity, 100 health, the identity transform, a white `?` sprite, a
/// dynamic body of mass 1, radius 1, gravity 9.81 downwards, 1 damage and
/// the two tags.
pub open spec fn default_component(kind: ComponentKind) -> ComponentValue {
    match kind {
        ComponentKind::Position => ComponentValue::Position(Position { x: F32_ZERO, y: F32_ZERO }),
        ComponentKind::Velocity => ComponentValue::Velocity(Velocity { x: F32_ZERO, y: F32_ZERO }),
        ComponentKind::Health => ComponentValue::Health(Health { current: 100, max: 100 }),
        ComponentKind::Damage => ComponentValue::Damage(Damage(1)),
        ComponentKind::Dead => ComponentValue::Dead(Dead),
        ComponentKind::Transform => ComponentValue::Transform(
            Transform { x: F32_ZERO, y: F32_ZERO, z: F32_ZERO, rotation: F32_ZERO, scale: F32_ONE },
        ),
        ComponentKind::Sprite => ComponentValue::Sprite(Sprite { symbol: '?', color: (255, 255, 255), layer: 0 }),
        ComponentKind::CircleRadius => ComponentValue::CircleRadius(CircleRadius(F32_ONE)),
        ComponentKind::RigidBody => ComponentValue::RigidBody(
            RigidBody { mass: F32_ONE, damping: F32_0_99, restitution: F32_HALF },
        ),
        ComponentKind::Grounded => ComponentValue::Grounded(Grounded),
        ComponentKind::Gravity => ComponentValue::Gravity(Gravity { x: F32_ZERO, y: F32_STANDARD_GRAVITY }),
    }
}

/// The Add-menu default of a kind.
pub fn make_default_component(kind: ComponentKind) -> (v: ComponentValue)
    ensures
        v == default_component(kind),
        v.spec_kind() == kind,
{
    match kind {
        ComponentKind::Position => ComponentValue::Position(Position::new(F32_ZERO, F32_ZERO)),
        ComponentKind::Velocity => ComponentValue::Velocity(Velocity::new(F32_ZERO, F32_ZERO)),
        ComponentKind::Health => ComponentValue::Health(Health::new(100)),
        ComponentKind::Damage => ComponentValue::Damage(Damage(1)),
        ComponentKind::Dead => ComponentValue::Dead(Dead),
        ComponentKind::Transform => ComponentValue::Transform(Transform::new(F32_ZERO, F32_ZERO, F32_ZERO)),
        ComponentKind::Sprite => ComponentValue::Sprite(Sprite::new('?', 255, 255, 255)),
        ComponentKind::CircleRadius => ComponentValue::CircleRadius(CircleRadius::new(F32_ONE)),
        ComponentKind::RigidBody => ComponentValue::RigidBody(RigidBody::dynamic(F32_ONE)),
        ComponentKind::Grounded => ComponentValue::Grounded(Grounded),
        ComponentKind::Gravity => ComponentValue::Gravity(Gravity::down(F32_STANDARD_GRAVITY)),
    }
}

/// The upper-case hexadecimal digit of `d` (`0 <= d < 16`).
pub open spec fn hex_digit(d: nat) -> char {
    if d < 10 {
        ((d + 48) as u8) as char
    } else {
        ((d + 55) as u8) as char
    }
}

/// `"#RRGGBB"` in upper-case hexadecimal.
pub open spec fn hex_color_text(r: u8, g: u8, b: u8) -> Seq<char> {
    seq![
        '#',
        hex_digit((r / 16) as nat),
        hex_digit((r % 16) as nat),
        hex_digit((g / 16) as nat),
        hex_digit((g % 16) as nat),
        hex_digit((b / 16) as nat),
        hex_digit((b % 16) as nat),
    ]
}

fn hex_digit_char(d: u8) -> (c: char)
    requires
        d < 16,
    ensures
        c == hex_digit(d as nat),
{
    if d < 10 {
        (d + 48) as char
    } else {
        (d + 55) as char
    }
}

/// Format a colour as a hex string like `#FF8000`.
pub fn color_to_hex(r: u8, g: u8, b: u8) -> (s: String)
    ensures
        s@ == hex_color_text(r, g, b),
{
    let mut s = string_from("#");
    push_char(&mut s, hex_digit_char(r / 16));
    push_char(&mut s, hex_digit_char(r % 16));
    push_char(&mut s, hex_digit_char(g / 16));
    push_char(&mut s, hex_digit_char(g % 16));
    push_char(&mut s, hex_digit_char(b / 16));
    push_char(&mut s, hex_digit_char(b % 16));
    proof {
        reveal_strlit("#");
        assert(s@ =~= hex_color_text(r, g, b));
    }
    s
}

} // verus!
