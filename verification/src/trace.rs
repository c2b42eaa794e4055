//! The decisions of the recursive ray trace: what a ray contributes when it
//! hits nothing, when a hit sends out a reflected ray, and which lights
//! reach a point.
use vstd::prelude::*;

verus! {

/// Reflections that a ray from the eye may go through.
pub const NUM_BOUNCES: i32 = 3;

/// What the tracer does with a ray once it knows whether the ray hit a shape.
#[derive(Debug, Clone, Copy, PartialEq, Eq, Structural)]
pub enum TraceStep {
    /// The ray left the scene straight from the eye: the background colour.
    Background,
    /// A reflected ray left the scene: it adds nothing.
    Black,
    /// The ray hit a shape and its budget is spent: the light at the hit.
    Shade,
    /// The ray hit a shape: the light at the hit, and the colour of the
    /// reflected ray, traced with the budget `bounce_ct`.
    ShadeAndReflect { bounce_ct: i32 },
}

/// The step for a ray with the budget `bounce_ct`.
pub open spec fn step_of(hit: bool, bounce_ct: int) -> TraceStep {
    if !hit {
        if bounce_ct == NUM_BOUNCES {
            TraceStep::Background
        } else {
            TraceStep::Black
        }
    } else if bounce_ct > 0 {
        TraceStep::ShadeAndReflect { bounce_ct: (bounce_ct - 1) as i32 }
    } else {
        TraceStep::Shade
    }
}

/// The most searches for a nearest hit that one ray with the budget
/// `bounce_ct` can cause in a scene with `lights` lights: one for the ray
/// itself, one shadow ray for each light, and those of its reflection.
pub open spec fn most_searches(bounce_ct: int, lights: nat) -> nat
    decreases bounce_ct,
{
    if bounce_ct <= 0 {
        1 + lights
    } else {
        1 + lights + most_searches(bounce_ct - 1, lights)
    }
}

/// Decides what the tracer does with a ray of budget `bounce_ct`.
pub fn trace_step(hit: bool, bounce_ct: i32) -> (step: TraceStep)
    ensures
        step == step_of(hit, bounce_ct as int),
{
    if !hit {
        if bounce_ct == NUM_BOUNCES {
            TraceStep::Background
        } else {
            TraceStep::Black
        }
    } else if bounce_ct > 0 {
        TraceStep::ShadeAndReflect { bounce_ct: bounce_ct - 1 }
    } else {
        TraceStep::Shade
    }
}

/// A reflected ray has a smaller budget than the ray it came from, and none
/// is sent once the budget is spent: the recursion ends.
pub proof fn lemma_budget_decreases(hit: bool, bounce_ct: int)
    requires
        i32::MIN <= bounce_ct <= i32::MAX,
    ensures
        match step_of(hit, bounce_ct) {
            TraceStep::ShadeAndReflect { bounce_ct: next } => hit && 0 <= next && next
                == bounce_ct - 1,
            TraceStep::Shade => hit && bounce_ct <= 0,
            TraceStep::Background => !hit && bounce_ct == NUM_BOUNCES,
            TraceStep::Black => !hit && bounce_ct != NUM_BOUNCES,
        },
{
}

/// A ray with the budget `bounce_ct` causes at most `bounce_ct + 1` times
/// one search and one shadow ray for each light.
pub proof fn lemma_most_searches(bounce_ct: int, lights: nat)
    requires
        0 <= bounce_ct,
    ensures
        most_searches(bounce_ct, lights) == (bounce_ct + 1) * (1 + lights),
    decreases bounce_ct,
{
    if bounce_ct > 0 {
        lemma_most_searches(bounce_ct - 1, lights);
        assert(1 + lights + bounce_ct * (1 + lights) == (bounce_ct + 1) * (1 + lights))
            by (nonlinear_arith);
    } else {
        assert(1 * (1 + lights) == 1 + lights);
    }
}

/// What a light adds to the colour of a point on a surface.
#[derive(Debug, Clone, Copy, PartialEq, Eq, Structural)]
pub enum LightTerms {
    /// Nothing: the light is behind the surface, or a shape stands between.
    Nothing,
    /// Diffuse light only.
    Diffuse,
    /// Diffuse light and a highlight.
    DiffuseAndSpecular,
}

/// What a light adds: nothing where it is behind the surface (`behind`) or
/// in shadow (`occluded`); else diffuse light, and a highlight where the
/// mirrored light points to the viewer and the surface shines (`glint`).
pub open spec fn terms_of(behind: bool, occluded: bool, glint: bool) -> LightTerms {
    if behind || occluded {
        LightTerms::Nothing
    } else if glint {
        LightTerms::DiffuseAndSpecular
    } else {
        LightTerms::Diffuse
    }
}

/// Decides what a light adds to the colour of a point. A light in shadow
/// adds neither diffuse light nor a highlight.
pub fn light_terms(behind: bool, occluded: bool, glint: bool) -> (terms: LightTerms)
    ensures
        terms == terms_of(behind, occluded, glint),
        occluded ==> terms == LightTerms::Nothing,
{
    if behind || occluded {
        LightTerms::Nothing
    } else if glint {
        LightTerms::DiffuseAndSpecular
    } else {
        LightTerms::Diffuse
    }
}

} // verus!
