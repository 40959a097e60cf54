//! The decisions of the radiance estimate. The estimate of one ray is made up
//! by recursion: a ray that a surface scatters hands on the estimate of the
//! scattered ray, weakened by the surface's attenuation. What the scene and
//! the materials compute is not decided here; this module says what follows
//! from their answer, and how deep the recursion goes.

use vstd::prelude::*;

verus! {

/// The number of bounces after which a ray contributes nothing.
pub const MAX_DEPTH: u32 = 50;

/// What became of a ray in the scene. `S` is what a material hands out for a
/// scattered ray.
#[derive(Debug)]
pub enum Fate<S> {
    /// The ray met no surface.
    Escaped,
    /// A surface swallowed the ray.
    Absorbed,
    /// A surface sent the ray on.
    Scattered(S),
}

/// What the estimate of a ray is made of.
#[derive(Debug)]
pub enum Outcome<S> {
    /// No light at all.
    Black,
    /// The light of the background in the ray's direction.
    Background,
    /// The estimate of the scattered ray, traced at `depth`, times the
    /// attenuation.
    Attenuated { scattered: S, depth: u32 },
}

/// Whether a ray at `depth` is followed into the scene at all.
pub open spec fn traced(depth: u32) -> bool {
    depth < MAX_DEPTH
}

/// What the estimate of a ray at `depth` is made of, given its fate: black
/// from `MAX_DEPTH` on; before that the background for a ray that escaped,
/// black for an absorbed one, and for a scattered one the estimate one level
/// deeper.
pub open spec fn outcome_of<S>(depth: u32, fate: Fate<S>) -> Outcome<S> {
    if !traced(depth) {
        Outcome::Black
    } else {
        match fate {
            Fate::Escaped => Outcome::Background,
            Fate::Absorbed => Outcome::Black,
            Fate::Scattered(scattered) => Outcome::Attenuated {
                scattered,
                depth: (depth + 1) as u32,
            },
        }
    }
}

/// Whether a ray at `depth` is followed into the scene at all. Where it is
/// not, the scene need not be asked: see [`lemma_depth_cap`].
pub fn is_traced(depth: u32) -> (answer: bool)
    ensures
        answer == traced(depth),
{
    depth < MAX_DEPTH
}

/// What the estimate of a ray at `depth` is made of, given its fate.
pub fn outcome<S>(depth: u32, fate: Fate<S>) -> (outcome: Outcome<S>)
    ensures
        outcome == outcome_of(depth, fate),
{
    if depth >= MAX_DEPTH {
        Outcome::Black
    } else {
        match fate {
            Fate::Escaped => Outcome::Background,
            Fate::Absorbed => Outcome::Black,
            Fate::Scattered(scattered) => Outcome::Attenuated { scattered, depth: depth + 1 },
        }
    }
}

/// The depth cap: a ray at `MAX_DEPTH` or deeper is black, whatever the scene
/// holds and whatever became of the ray in it.
pub proof fn lemma_depth_cap<S>(depth: u32, fate: Fate<S>)
    requires
        depth >= MAX_DEPTH,
    ensures
        !traced(depth),
        outcome_of(depth, fate) == Outcome::<S>::Black,
{
}

/// The recursion ends: the ray that an estimate goes on with lies exactly one
/// level deeper, and never beyond `MAX_DEPTH`, where every estimate is black.
pub proof fn lemma_recursion_ends<S>(depth: u32, fate: Fate<S>)
    ensures
        match outcome_of(depth, fate) {
            Outcome::Attenuated { scattered, depth: next } => {
                &&& fate == Fate::Scattered(scattered)
                &&& next == depth + 1
                &&& next <= MAX_DEPTH
            },
            _ => true,
        },
{
}

} // verus!
