//! Animation data kinds: state-machine parameters and the conditions on
//! them, blend spaces, sprite animation events, and keyframe interpolation
//! modes.

use vstd::prelude::*;

use crate::editor_workspace::docking::{f32_lt, f32_lt_exec};
use crate::text::str_equal;

verus! {

/// A named parameter that drives animation state machine transitions.
/// Float values are `f32` bit patterns.
#[derive(Debug, Clone)]
pub enum AnimParam {
    /// A boolean parameter (e.g., "is_grounded", "is_attacking").
    Bool { name: String, value: bool },
    /// A float parameter (e.g., "speed", "health").
    Float { name: String, value: u32 },
    /// A trigger parameter that fires once and resets (e.g., "jump", "shoot").
    Trigger { name: String, triggered: bool },
    /// An integer parameter (e.g., "combo_count", "weapon_type").
    Int { name: String, value: i32 },
}

/// The name of a parameter.
pub open spec fn param_name(p: AnimParam) -> Seq<char> {
    match p {
        AnimParam::Bool { name, .. } => name@,
        AnimParam::Float { name, .. } => name@,
        AnimParam::Trigger { name, .. } => name@,
        AnimParam::Int { name, .. } => name@,
    }
}

impl AnimParam {
    /// Returns the parameter name.
    pub fn name(&self) -> (s: &str)
        ensures
            s@ == param_name(*self),
    {
        match self {
            AnimParam::Bool { name, .. } => name.as_str(),
            AnimParam::Float { name, .. } => name.as_str(),
            AnimParam::Trigger { name, .. } => name.as_str(),
            AnimParam::Int { name, .. } => name.as_str(),
        }
    }
}

/// A condition that must be satisfied for a transition to fire. Float
/// thresholds are `f32` bit patterns.
#[derive(Debug, Clone)]
pub enum AnimCondition {
    /// True when the named bool parameter equals the given value.
    BoolEquals { param: String, value: bool },
    /// True when the named float parameter exceeds the threshold.
    FloatGreaterThan { param: String, threshold: u32 },
    /// True when the named float parameter is below the threshold.
    FloatLessThan { param: String, threshold: u32 },
    /// True when the named trigger parameter has been activated.
    TriggerActive { param: String },
    /// True when the named int parameter equals the given value.
    IntEquals { param: String, value: i32 },
}

/// Whether the single parameter `p` satisfies the condition `c`: it has the
/// condition's name and kind, and its value passes the condition's test
/// (floats compare as `f32`, so a NaN passes neither test).
pub open spec fn satisfies(c: AnimCondition, p: AnimParam) -> bool {
    match c {
        AnimCondition::BoolEquals { param, value } => p matches AnimParam::Bool { name, value: v }
            && name@ == param@ && v == value,
        AnimCondition::FloatGreaterThan { param, threshold } => p matches AnimParam::Float {
            name,
            value,
        } && name@ == param@ && f32_lt(threshold, value),
        AnimCondition::FloatLessThan { param, threshold } => p matches AnimParam::Float {
            name,
            value,
        } && name@ == param@ && f32_lt(value, threshold),
        AnimCondition::TriggerActive { param } => p matches AnimParam::Trigger { name, triggered }
            && name@ == param@ && triggered,
        AnimCondition::IntEquals { param, value } => p matches AnimParam::Int { name, value: v }
            && name@ == param@ && v == value,
    }
}

impl AnimCondition {
    /// Whether one parameter satisfies this condition.
    pub fn holds_for(&self, p: &AnimParam) -> (b: bool)
        ensures
            b == satisfies(*self, *p),
    {
        match self {
            AnimCondition::BoolEquals { param, value } => match p {
                AnimParam::Bool { name, value: v } => str_equal(name.as_str(), param.as_str()) && *v == *value,
                _ => false,
            },
            AnimCondition::FloatGreaterThan { param, threshold } => match p {
                AnimParam::Float { name, value } => str_equal(name.as_str(), param.as_str())
                    && f32_lt_exec(*threshold, *value),
                _ => false,
            },
            AnimCondition::FloatLessThan { param, threshold } => match p {
                AnimParam::Float { name, value } => str_equal(name.as_str(), param.as_str())
                    && f32_lt_exec(*value, *threshold),
                _ => false,
            },
            AnimCondition::TriggerActive { param } => match p {
                AnimParam::Trigger { name, triggered } => str_equal(name.as_str(), param.as_str())
                    && *triggered,
                _ => false,
            },
            AnimCondition::IntEquals { param, value } => match p {
                AnimParam::Int { name, value: v } => str_equal(name.as_str(), param.as_str()) && *v == *value,
                _ => false,
            },
        }
    }

    /// Evaluate this condition against a set of parameters: true when some
    /// parameter satisfies it.
    pub fn evaluate(&self, params: &[AnimParam]) -> (b: bool)
        ensures
            b == exists|i: int| 0 <= i < params@.len() && #[trigger] satisfies(*self, params@[i]),
    {
        let mut i: usize = 0;
        while i < params.len()
            invariant
                i <= params@.len(),
                forall|j: int| 0 <= j < i ==> !#[trigger] satisfies(*self, params@[j]),
            decreases params@.len() - i,
        {
            if self.holds_for(&params[i]) {
                return true;
            }
            i = i + 1;
        }
        false
    }
}

/// Blend-space dimensionality.
#[derive(Debug, Clone)]
pub enum BlendType {
    /// 1D blending along a single parameter (e.g., speed: idle → walk → run).
    Blend1D { parameter: String },
    /// 2D blending along two parameters (e.g., speed + direction).
    Blend2D { param_x: String, param_y: String },
}

/// Events emitted by a sprite animation as it advances.
#[derive(Debug, Clone, Copy, PartialEq, Eq, Structural)]
pub enum SpriteAnimationEvent {
    /// The frame changed to the given index.
    FrameChanged(usize),
    /// The animation finished (non-looping).
    Finished,
    /// The animation looped back to the start.
    Looped,
}

/// How a track moves between keyframes.
#[derive(Debug, Clone, Copy, PartialEq, Eq, Structural)]
pub enum Interpolation {
    /// No interpolation — hold value until next keyframe.
    Step,
    /// Linear interpolation between keyframes.
    Linear,
    /// Smooth Hermite interpolation (ease in/out).
    Smoothstep,
}


/// The name of the parameter a condition reads.
pub open spec fn condition_param(c: AnimCondition) -> Seq<char> {
    match c {
        AnimCondition::BoolEquals { param, .. } => param@,
        AnimCondition::FloatGreaterThan { param, .. } => param@,
        AnimCondition::FloatLessThan { param, .. } => param@,
        AnimCondition::TriggerActive { param } => param@,
        AnimCondition::IntEquals { param, .. } => param@,
    }
}

/// A condition only ever reads the parameter it names: a parameter with
/// another name never satisfies it, so changing or adding parameters of
/// other names never changes what `evaluate` answers. A trigger condition
/// holds exactly when a trigger of its name is set; a bool or int condition
/// exactly when a parameter of its name and kind has the expected value.
pub proof fn conditions_read_only_their_parameter(c: AnimCondition, p: AnimParam, params: Seq<AnimParam>)
    ensures
        satisfies(c, p) ==> param_name(p) == condition_param(c),
        c matches AnimCondition::TriggerActive { param } ==> (satisfies(c, p) <==> (
            p matches AnimParam::Trigger { name, triggered } && name@ == param@ && triggered)),
        c matches AnimCondition::BoolEquals { param, value } ==> (satisfies(c, p) <==> (
            p matches AnimParam::Bool { name, value: v } && name@ == param@ && v == value)),
        c matches AnimCondition::IntEquals { param, value } ==> (satisfies(c, p) <==> (
            p matches AnimParam::Int { name, value: v } && name@ == param@ && v == value)),
        (exists|i: int| 0 <= i < params.len() && #[trigger] satisfies(c, params[i]))
            <==> (exists|i: int| 0 <= i < params.len() && param_name(params[i]) == condition_param(c)
                && #[trigger] satisfies(c, params[i])),
        param_name(p) != condition_param(c) ==> ((exists|i: int| 0 <= i < params.len() && #[trigger] satisfies(c, params[i]))
            <==> (exists|i: int| 0 <= i < params.push(p).len() && #[trigger] satisfies(c, params.push(p)[i]))),
{
    if param_name(p) != condition_param(c) {
        let q = params.push(p);
        if exists|i: int| 0 <= i < q.len() && #[trigger] satisfies(c, q[i]) {
            let i = choose|i: int| 0 <= i < q.len() && #[trigger] satisfies(c, q[i]);
            assert(i < params.len());
            assert(q[i] == params[i]);
        }
        if exists|i: int| 0 <= i < params.len() && #[trigger] satisfies(c, params[i]) {
            let i = choose|i: int| 0 <= i < params.len() && #[trigger] satisfies(c, params[i]);
            assert(q[i] == params[i]);
        }
    }
}


/// A float parameter is never both above and below one threshold, and a
/// value equal to the threshold is neither; above and below swap when the
/// threshold and the value swap roles.
pub proof fn float_conditions_are_strict_and_opposite(param: String, threshold: u32, p: AnimParam)
    ensures
        !(satisfies(AnimCondition::FloatGreaterThan { param, threshold }, p)
            && satisfies(AnimCondition::FloatLessThan { param, threshold }, p)),
        p matches AnimParam::Float { value, .. } && value == threshold ==> !satisfies(
            AnimCondition::FloatGreaterThan { param, threshold },
            p,
        ) && !satisfies(AnimCondition::FloatLessThan { param, threshold }, p),
        satisfies(AnimCondition::FloatGreaterThan { param, threshold }, p) ==> p is Float && param_name(p) == param@,
        satisfies(AnimCondition::FloatLessThan { param, threshold }, p) ==> p is Float && param_name(p) == param@,
{
}

} // verus!
