use vstd::prelude::*;

verus! {

// Components whose original fields are floating-point values hold those
// fields as IEEE-754 single-precision bit patterns (`f32::to_bits`). The
// library stores, copies and restores such values but never computes with
// them, so the bit pattern carries everything it needs.

/// Bit pattern of the single-precision value `0.0`.
pub const F32_ZERO: u32 = 0x0000_0000u32;

/// Bit pattern of the single-precision value `0.5`.
pub const F32_HALF: u32 = 0x3F00_0000u32;

/// Bit pattern of the single-precision value `0.99`.
pub const F32_0_99: u32 = 0x3F7D_70A4u32;

/// Bit pattern of the single-precision value `1.0`.
pub const F32_ONE: u32 = 0x3F80_0000u32;

/// Example: a 2D position component (coordinates as `f32` bit patterns).
#[derive(Debug, Clone, Copy, Default, PartialEq, Eq, Structural)]
pub struct Position {
    pub x: u32,
    pub y: u32,
}

impl Position {
    pub fn new(x: u32, y: u32) -> (p: Self)
        ensures
            p == (Position { x, y }),
    {
        Position { x, y }
    }
}

/// Example: a velocity component (as `f32` bit patterns).
#[derive(Debug, Clone, Copy, Default, PartialEq, Eq, Structural)]
pub struct Velocity {
    pub x: u32,
    pub y: u32,
}

impl Velocity {
    pub fn new(x: u32, y: u32) -> (v: Self)
        ensures
            v == (Velocity { x, y }),
    {
        Velocity { x, y }
    }
}

/// Example: a health component.
#[derive(Debug, Clone, Copy, Default, PartialEq, Eq, Structural)]
pub struct Health {
    pub current: u32,
    pub max: u32,
}

impl Health {
    /// Full health: `current == max`.
    pub fn new(max: u32) -> (h: Self)
        ensures
            h == (Health { current: max, max }),
    {
        Health { current: max, max }
    }

    /// Dead exactly when no health is left.
    pub fn is_dead(&self) -> (b: bool)
        ensures
            b <==> self.current == 0,
    {
        self.current == 0
    }

    /// Subtract `amount`, stopping at zero; `max` is untouched.
    pub fn take_damage(&mut self, amount: u32)
        ensures
            final(self).current == (if old(self).current >= amount {
                (old(self).current - amount) as u32
            } else {
                0u32
            }),
            final(self).max == old(self).max,
    {
        self.current = self.current.saturating_sub(amount);
    }
}

/// A tag component for damage dealing.
#[derive(Debug, Clone, Copy, Default, PartialEq, Eq, Structural)]
pub struct Damage(pub u32);

/// A tag component to mark entities as dead.
#[derive(Debug, Clone, Copy, Default, PartialEq, Eq, Structural)]
pub struct Dead;

/// A transform component (position + rotation + scale, as `f32` bit patterns).
#[derive(Debug, Clone, Copy, Default, PartialEq, Eq, Structural)]
pub struct Transform {
    pub x: u32,
    pub y: u32,
    pub z: u32,
    pub rotation: u32,
    pub scale: u32,
}

impl Transform {
    /// A transform at `(x, y, z)` with rotation `0.0` and scale `1.0`.
    pub fn new(x: u32, y: u32, z: u32) -> (t: Self)
        ensures
            t == (Transform { x, y, z, rotation: F32_ZERO, scale: F32_ONE }),
    {
        Transform { x, y, z, rotation: F32_ZERO, scale: F32_ONE }
    }
}

/// A visual representation component (sprite/render hint).
#[derive(Debug, Clone, Copy, Default, PartialEq, Eq)]
pub struct Sprite {
    pub symbol: char,
    pub color: (u8, u8, u8),
    pub layer: i32,
}

impl Sprite {
    /// A sprite on layer 0.
    pub fn new(symbol: char, r: u8, g: u8, b: u8) -> (s: Self)
        ensures
            s == (Sprite { symbol, color: (r, g, b), layer: 0 }),
    {
        Sprite { symbol, color: (r, g, b), layer: 0 }
    }
}

/// Circle collision radius for narrow-phase checks (as an `f32` bit pattern).
#[derive(Debug, Clone, Copy, Default, PartialEq, Eq, Structural)]
pub struct CircleRadius(pub u32);

impl CircleRadius {
    pub fn new(radius: u32) -> (c: Self)
        ensures
            c == CircleRadius(radius),
    {
        CircleRadius(radius)
    }
}

/// Rigid body with mass and restitution (as `f32` bit patterns).
#[derive(Debug, Clone, Copy, Default, PartialEq, Eq, Structural)]
pub struct RigidBody {
    pub mass: u32,
    pub damping: u32,
    pub restitution: u32,
}

/// Whether a bit pattern encodes `+0.0` or `-0.0`, i.e. compares equal to
/// `0.0` under floating-point equality.
pub open spec fn is_float_zero(bits: u32) -> bool {
    bits == 0u32 || bits == 0x8000_0000u32
}

impl RigidBody {
    pub fn new(mass: u32, damping: u32, restitution: u32) -> (r: Self)
        ensures
            r == (RigidBody { mass, damping, restitution }),
    {
        RigidBody { mass, damping, restitution }
    }

    /// A body with zero mass, damping and restitution.
    pub fn static_body() -> (r: Self)
        ensures
            r == (RigidBody { mass: F32_ZERO, damping: F32_ZERO, restitution: F32_ZERO }),
    {
        RigidBody { mass: F32_ZERO, damping: F32_ZERO, restitution: F32_ZERO }
    }

    /// A kinematic body: zero mass, damping and restitution.
    pub fn kinematic() -> (r: Self)
        ensures
            r == (RigidBody { mass: F32_ZERO, damping: F32_ZERO, restitution: F32_ZERO }),
    {
        RigidBody { mass: F32_ZERO, damping: F32_ZERO, restitution: F32_ZERO }
    }

    /// A dynamic body with the given mass, damping `0.99` and restitution `0.5`.
    pub fn dynamic(mass: u32) -> (r: Self)
        ensures
            r == (RigidBody { mass, damping: F32_0_99, restitution: F32_HALF }),
    {
        RigidBody { mass, damping: F32_0_99, restitution: F32_HALF }
    }

    /// Static exactly when the mass compares equal to `0.0`.
    pub fn is_static(&self) -> (b: bool)
        ensures
            b <==> is_float_zero(self.mass),
    {
        self.mass == 0u32 || self.mass == 0x8000_0000u32
    }
}

/// Tag for entities on the ground.
#[derive(Debug, Clone, Copy, Default, PartialEq, Eq, Structural)]
pub struct Grounded;

/// Gravity direction component (as `f32` bit patterns).
#[derive(Debug, Clone, Copy, Default, PartialEq, Eq, Structural)]
pub struct Gravity {
    pub x: u32,
    pub y: u32,
}

impl Gravity {
    pub fn new(x: u32, y: u32) -> (g: Self)
        ensures
            g == (Gravity { x, y }),
    {
        Gravity { x, y }
    }

    /// Gravity pointing along +y with the given acceleration.
    pub fn down(acceleration: u32) -> (g: Self)
        ensures
            g == (Gravity { x: F32_ZERO, y: acceleration }),
    {
        Gravity { x: F32_ZERO, y: acceleration }
    }
}

// ── Component kinds and type-erased values ─────────────────────

/// Every component type the world knows how to store, in canonical order.
#[derive(Debug, Clone, Copy, PartialEq, Eq, Structural, Hash)]
pub enum ComponentKind {
    Position,
    Velocity,
    Health,
    Damage,
    Dead,
    Transform,
    Sprite,
    CircleRadius,
    RigidBody,
    Grounded,
    Gravity,
}

/// Number of component kinds.
pub const KIND_COUNT: usize = 11usize;

/// Position of a kind in the canonical order.
pub open spec fn kind_index(k: ComponentKind) -> int {
    match k {
        ComponentKind::Position => 0,
        ComponentKind::Velocity => 1,
        ComponentKind::Health => 2,
        ComponentKind::Damage => 3,
        ComponentKind::Dead => 4,
        ComponentKind::Transform => 5,
        ComponentKind::Sprite => 6,
        ComponentKind::CircleRadius => 7,
        ComponentKind::RigidBody => 8,
        ComponentKind::Grounded => 9,
        ComponentKind::Gravity => 10,
    }
}

/// The kind at a position of the canonical order.
pub open spec fn kind_at(i: int) -> ComponentKind {
    if i == 0 {
        ComponentKind::Position
    } else if i == 1 {
        ComponentKind::Velocity
    } else if i == 2 {
        ComponentKind::Health
    } else if i == 3 {
        ComponentKind::Damage
    } else if i == 4 {
        ComponentKind::Dead
    } else if i == 5 {
        ComponentKind::Transform
    } else if i == 6 {
        ComponentKind::Sprite
    } else if i == 7 {
        ComponentKind::CircleRadius
    } else if i == 8 {
        ComponentKind::RigidBody
    } else if i == 9 {
        ComponentKind::Grounded
    } else {
        ComponentKind::Gravity
    }
}

/// The canonical order is a bijection between kinds and `0..KIND_COUNT`.
pub proof fn kind_index_bijection(k: ComponentKind, i: int)
    ensures
        0 <= kind_index(k) < KIND_COUNT,
        kind_at(kind_index(k)) == k,
        0 <= i < KIND_COUNT ==> kind_index(kind_at(i)) == i,
{
}

impl ComponentKind {
    /// The position of this kind in the canonical order.
    pub fn index(&self) -> (i: usize)
        ensures
            i == kind_index(*self),
    {
        match self {
            ComponentKind::Position => 0,
            ComponentKind::Velocity => 1,
            ComponentKind::Health => 2,
            ComponentKind::Damage => 3,
            ComponentKind::Dead => 4,
            ComponentKind::Transform => 5,
            ComponentKind::Sprite => 6,
            ComponentKind::CircleRadius => 7,
            ComponentKind::RigidBody => 8,
            ComponentKind::Grounded => 9,
            ComponentKind::Gravity => 10,
        }
    }

    /// The kind at position `i` of the canonical order.
    pub fn from_index(i: usize) -> (k: ComponentKind)
        requires
            i < KIND_COUNT,
        ensures
            k == kind_at(i as int),
    {
        if i == 0 {
            ComponentKind::Position
        } else if i == 1 {
            ComponentKind::Velocity
        } else if i == 2 {
            ComponentKind::Health
        } else if i == 3 {
            ComponentKind::Damage
        } else if i == 4 {
            ComponentKind::Dead
        } else if i == 5 {
            ComponentKind::Transform
        } else if i == 6 {
            ComponentKind::Sprite
        } else if i == 7 {
            ComponentKind::CircleRadius
        } else if i == 8 {
            ComponentKind::RigidBody
        } else if i == 9 {
            ComponentKind::Grounded
        } else {
            ComponentKind::Gravity
        }
    }

    /// The component's type name as shown in editor UIs.
    pub fn name(&self) -> (s: &'static str)
        ensures
            s@ == kind_name(*self),
    {
        match self {
            ComponentKind::Position => "Position",
            ComponentKind::Velocity => "Velocity",
            ComponentKind::Health => "Health",
            ComponentKind::Damage => "Damage",
            ComponentKind::Dead => "Dead",
            ComponentKind::Transform => "Transform",
            ComponentKind::Sprite => "Sprite",
            ComponentKind::CircleRadius => "CircleRadius",
            ComponentKind::RigidBody => "RigidBody",
            ComponentKind::Grounded => "Grounded",
            ComponentKind::Gravity => "Gravity",
        }
    }
}

/// Display name of a component kind.
pub open spec fn kind_name(k: ComponentKind) -> Seq<char> {
    match k {
        ComponentKind::Position => "Position"@,
        ComponentKind::Velocity => "Velocity"@,
        ComponentKind::Health => "Health"@,
        ComponentKind::Damage => "Damage"@,
        ComponentKind::Dead => "Dead"@,
        ComponentKind::Transform => "Transform"@,
        ComponentKind::Sprite => "Sprite"@,
        ComponentKind::CircleRadius => "CircleRadius"@,
        ComponentKind::RigidBody => "RigidBody"@,
        ComponentKind::Grounded => "Grounded"@,
        ComponentKind::Gravity => "Gravity"@,
    }
}

/// A component value of any known kind.
#[derive(Debug, Clone, Copy, PartialEq, Eq)]
pub enum ComponentValue {
    Position(Position),
    Velocity(Velocity),
    Health(Health),
    Damage(Damage),
    Dead(Dead),
    Transform(Transform),
    Sprite(Sprite),
    CircleRadius(CircleRadius),
    RigidBody(RigidBody),
    Grounded(Grounded),
    Gravity(Gravity),
}

impl ComponentValue {
    pub open spec fn spec_kind(self) -> ComponentKind {
        match self {
            ComponentValue::Position(_) => ComponentKind::Position,
            ComponentValue::Velocity(_) => ComponentKind::Velocity,
            ComponentValue::Health(_) => ComponentKind::Health,
            ComponentValue::Damage(_) => ComponentKind::Damage,
            ComponentValue::Dead(_) => ComponentKind::Dead,
            ComponentValue::Transform(_) => ComponentKind::Transform,
            ComponentValue::Sprite(_) => ComponentKind::Sprite,
            ComponentValue::CircleRadius(_) => ComponentKind::CircleRadius,
            ComponentValue::RigidBody(_) => ComponentKind::RigidBody,
            ComponentValue::Grounded(_) => ComponentKind::Grounded,
            ComponentValue::Gravity(_) => ComponentKind::Gravity,
        }
    }

    /// The kind of this value.
    pub fn kind(&self) -> (k: ComponentKind)
        ensures
            k == self.spec_kind(),
    {
        match self {
            ComponentValue::Position(_) => ComponentKind::Position,
            ComponentValue::Velocity(_) => ComponentKind::Velocity,
            ComponentValue::Health(_) => ComponentKind::Health,
            ComponentValue::Damage(_) => ComponentKind::Damage,
            ComponentValue::Dead(_) => ComponentKind::Dead,
            ComponentValue::Transform(_) => ComponentKind::Transform,
            ComponentValue::Sprite(_) => ComponentKind::Sprite,
            ComponentValue::CircleRadius(_) => ComponentKind::CircleRadius,
            ComponentValue::RigidBody(_) => ComponentKind::RigidBody,
            ComponentValue::Grounded(_) => ComponentKind::Grounded,
            ComponentValue::Gravity(_) => ComponentKind::Gravity,
        }
    }
}

/// A component type that the ECS world can store.
///
/// Every component type maps to one [`ComponentKind`] and converts to and
/// from the type-erased [`ComponentValue`] without loss.
pub trait Component: Sized + Copy {
    spec fn spec_kind() -> ComponentKind;

    spec fn spec_wrap(self) -> ComponentValue;

    spec fn spec_unwrap(v: ComponentValue) -> Option<Self>;

    proof fn lemma_wrap_unwrap(x: Self)
        ensures
            x.spec_wrap().spec_kind() == Self::spec_kind(),
            Self::spec_unwrap(x.spec_wrap()) == Some(x),
    ;

    proof fn lemma_unwrap(v: ComponentValue)
        ensures
            Self::spec_unwrap(v) is Some <==> v.spec_kind() == Self::spec_kind(),
            Self::spec_unwrap(v) matches Some(x) ==> x.spec_wrap() == v,
    ;

    fn kind() -> (k: ComponentKind)
        ensures
            k == Self::spec_kind(),
    ;

    fn wrap(self) -> (v: ComponentValue)
        ensures
            v == self.spec_wrap(),
    ;

    fn unwrap(v: ComponentValue) -> (r: Option<Self>)
        ensures
            r == Self::spec_unwrap(v),
    ;
}

impl Component for Position {
    open spec fn spec_kind() -> ComponentKind {
        ComponentKind::Position
    }

    open spec fn spec_wrap(self) -> ComponentValue {
        ComponentValue::Position(self)
    }

    open spec fn spec_unwrap(v: ComponentValue) -> Option<Self> {
        match v {
            ComponentValue::Position(x) => Some(x),
            _ => None,
        }
    }

    proof fn lemma_wrap_unwrap(x: Self) {
    }

    proof fn lemma_unwrap(v: ComponentValue) {
    }

    fn kind() -> (k: ComponentKind) {
        ComponentKind::Position
    }

    fn wrap(self) -> (v: ComponentValue) {
        ComponentValue::Position(self)
    }

    fn unwrap(v: ComponentValue) -> (r: Option<Self>) {
        match v {
            ComponentValue::Position(x) => Some(x),
            _ => None,
        }
    }
}

impl Component for Velocity {
    open spec fn spec_kind() -> ComponentKind {
        ComponentKind::Velocity
    }

    open spec fn spec_wrap(self) -> ComponentValue {
        ComponentValue::Velocity(self)
    }

    open spec fn spec_unwrap(v: ComponentValue) -> Option<Self> {
        match v {
            ComponentValue::Velocity(x) => Some(x),
            _ => None,
        }
    }

    proof fn lemma_wrap_unwrap(x: Self) {
    }

    proof fn lemma_unwrap(v: ComponentValue) {
    }

    fn kind() -> (k: ComponentKind) {
        ComponentKind::Velocity
    }

    fn wrap(self) -> (v: ComponentValue) {
        ComponentValue::Velocity(self)
    }

    fn unwrap(v: ComponentValue) -> (r: Option<Self>) {
        match v {
            ComponentValue::Velocity(x) => Some(x),
            _ => None,
        }
    }
}

impl Component for Health {
    open spec fn spec_kind() -> ComponentKind {
        ComponentKind::Health
    }

    open spec fn spec_wrap(self) -> ComponentValue {
        ComponentValue::Health(self)
    }

    open spec fn spec_unwrap(v: ComponentValue) -> Option<Self> {
        match v {
            ComponentValue::Health(x) => Some(x),
            _ => None,
        }
    }

    proof fn lemma_wrap_unwrap(x: Self) {
    }

    proof fn lemma_unwrap(v: ComponentValue) {
    }

    fn kind() -> (k: ComponentKind) {
        ComponentKind::Health
    }

    fn wrap(self) -> (v: ComponentValue) {
        ComponentValue::Health(self)
    }

    fn unwrap(v: ComponentValue) -> (r: Option<Self>) {
        match v {
            ComponentValue::Health(x) => Some(x),
            _ => None,
        }
    }
}

impl Component for Damage {
    open spec fn spec_kind() -> ComponentKind {
        ComponentKind::Damage
    }

    open spec fn spec_wrap(self) -> ComponentValue {
        ComponentValue::Damage(self)
    }

    open spec fn spec_unwrap(v: ComponentValue) -> Option<Self> {
        match v {
            ComponentValue::Damage(x) => Some(x),
            _ => None,
        }
    }

    proof fn lemma_wrap_unwrap(x: Self) {
    }

    proof fn lemma_unwrap(v: ComponentValue) {
    }

    fn kind() -> (k: ComponentKind) {
        ComponentKind::Damage
    }

    fn wrap(self) -> (v: ComponentValue) {
        ComponentValue::Damage(self)
    }

    fn unwrap(v: ComponentValue) -> (r: Option<Self>) {
        match v {
            ComponentValue::Damage(x) => Some(x),
            _ => None,
        }
    }
}

impl Component for Dead {
    open spec fn spec_kind() -> ComponentKind {
        ComponentKind::Dead
    }

    open spec fn spec_wrap(self) -> ComponentValue {
        ComponentValue::Dead(self)
    }

    open spec fn spec_unwrap(v: ComponentValue) -> Option<Self> {
        match v {
            ComponentValue::Dead(x) => Some(x),
            _ => None,
        }
    }

    proof fn lemma_wrap_unwrap(x: Self) {
    }

    proof fn lemma_unwrap(v: ComponentValue) {
    }

    fn kind() -> (k: ComponentKind) {
        ComponentKind::Dead
    }

    fn wrap(self) -> (v: ComponentValue) {
        ComponentValue::Dead(self)
    }

    fn unwrap(v: ComponentValue) -> (r: Option<Self>) {
        match v {
            ComponentValue::Dead(x) => Some(x),
            _ => None,
        }
    }
}

impl Component for Transform {
    open spec fn spec_kind() -> ComponentKind {
        ComponentKind::Transform
    }

    open spec fn spec_wrap(self) -> ComponentValue {
        ComponentValue::Transform(self)
    }

    open spec fn spec_unwrap(v: ComponentValue) -> Option<Self> {
        match v {
            ComponentValue::Transform(x) => Some(x),
            _ => None,
        }
    }

    proof fn lemma_wrap_unwrap(x: Self) {
    }

    proof fn lemma_unwrap(v: ComponentValue) {
    }

    fn kind() -> (k: ComponentKind) {
        ComponentKind::Transform
    }

    fn wrap(self) -> (v: ComponentValue) {
        ComponentValue::Transform(self)
    }

    fn unwrap(v: ComponentValue) -> (r: Option<Self>) {
        match v {
            ComponentValue::Transform(x) => Some(x),
            _ => None,
        }
    }
}

impl Component for Sprite {
    open spec fn spec_kind() -> ComponentKind {
        ComponentKind::Sprite
    }

    open spec fn spec_wrap(self) -> ComponentValue {
        ComponentValue::Sprite(self)
    }

    open spec fn spec_unwrap(v: ComponentValue) -> Option<Self> {
        match v {
            ComponentValue::Sprite(x) => Some(x),
            _ => None,
        }
    }

    proof fn lemma_wrap_unwrap(x: Self) {
    }

    proof fn lemma_unwrap(v: ComponentValue) {
    }

    fn kind() -> (k: ComponentKind) {
        ComponentKind::Sprite
    }

    fn wrap(self) -> (v: ComponentValue) {
        ComponentValue::Sprite(self)
    }

    fn unwrap(v: ComponentValue) -> (r: Option<Self>) {
        match v {
            ComponentValue::Sprite(x) => Some(x),
            _ => None,
        }
    }
}

impl Component for CircleRadius {
    open spec fn spec_kind() -> ComponentKind {
        ComponentKind::CircleRadius
    }

    open spec fn spec_wrap(self) -> ComponentValue {
        ComponentValue::CircleRadius(self)
    }

    open spec fn spec_unwrap(v: ComponentValue) -> Option<Self> {
        match v {
            ComponentValue::CircleRadius(x) => Some(x),
            _ => None,
        }
    }

    proof fn lemma_wrap_unwrap(x: Self) {
    }

    proof fn lemma_unwrap(v: ComponentValue) {
    }

    fn kind() -> (k: ComponentKind) {
        ComponentKind::CircleRadius
    }

    fn wrap(self) -> (v: ComponentValue) {
        ComponentValue::CircleRadius(self)
    }

    fn unwrap(v: ComponentValue) -> (r: Option<Self>) {
        match v {
            ComponentValue::CircleRadius(x) => Some(x),
            _ => None,
        }
    }
}

impl Component for RigidBody {
    open spec fn spec_kind() -> ComponentKind {
        ComponentKind::RigidBody
    }

    open spec fn spec_wrap(self) -> ComponentValue {
        ComponentValue::RigidBody(self)
    }

    open spec fn spec_unwrap(v: ComponentValue) -> Option<Self> {
        match v {
            ComponentValue::RigidBody(x) => Some(x),
            _ => None,
        }
    }

    proof fn lemma_wrap_unwrap(x: Self) {
    }

    proof fn lemma_unwrap(v: ComponentValue) {
    }

    fn kind() -> (k: ComponentKind) {
        ComponentKind::RigidBody
    }

    fn wrap(self) -> (v: ComponentValue) {
        ComponentValue::RigidBody(self)
    }

    fn unwrap(v: ComponentValue) -> (r: Option<Self>) {
        match v {
            ComponentValue::RigidBody(x) => Some(x),
            _ => None,
        }
    }
}

impl Component for Grounded {
    open spec fn spec_kind() -> ComponentKind {
        ComponentKind::Grounded
    }

    open spec fn spec_wrap(self) -> ComponentValue {
        ComponentValue::Grounded(self)
    }

    open spec fn spec_unwrap(v: ComponentValue) -> Option<Self> {
        match v {
            ComponentValue::Grounded(x) => Some(x),
            _ => None,
        }
    }

    proof fn lemma_wrap_unwrap(x: Self) {
    }

    proof fn lemma_unwrap(v: ComponentValue) {
    }

    fn kind() -> (k: ComponentKind) {
        ComponentKind::Grounded
    }

    fn wrap(self) -> (v: ComponentValue) {
        ComponentValue::Grounded(self)
    }

    fn unwrap(v: ComponentValue) -> (r: Option<Self>) {
        match v {
            ComponentValue::Grounded(x) => Some(x),
            _ => None,
        }
    }
}

impl Component for Gravity {
    open spec fn spec_kind() -> ComponentKind {
        ComponentKind::Gravity
    }

    open spec fn spec_wrap(self) -> ComponentValue {
        ComponentValue::Gravity(self)
    }

    open spec fn spec_unwrap(v: ComponentValue) -> Option<Self> {
        match v {
            ComponentValue::Gravity(x) => Some(x),
            _ => None,
        }
    }

    proof fn lemma_wrap_unwrap(x: Self) {
    }

    proof fn lemma_unwrap(v: ComponentValue) {
    }

    fn kind() -> (k: ComponentKind) {
        ComponentKind::Gravity
    }

    fn wrap(self) -> (v: ComponentValue) {
        ComponentValue::Gravity(self)
    }

    fn unwrap(v: ComponentValue) -> (r: Option<Self>) {
        match v {
            ComponentValue::Gravity(x) => Some(x),
            _ => None,
        }
    }
}

} // verus!
