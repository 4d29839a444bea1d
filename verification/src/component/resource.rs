use vstd::prelude::*;
use crate::geometry::Rect;
use crate::store::Entity;

verus! {

/// The current score. Penalties can take it below zero.
#[derive(Clone, Copy, Debug, PartialEq, Eq, Structural)]
pub struct Score(pub i32);

/// The time since the previous frame, in ticks.
#[derive(Clone, Copy, Debug, PartialEq, Eq, Structural)]
pub struct Time(pub u32);

/// The static colliders of the current frame: each entity that does not
/// move, with its bounding box in world space.
#[derive(Debug)]
pub struct ColliderResource(pub Vec<(Entity, Rect)>);

/// What the player does in the current frame.
#[derive(Clone, Copy, Debug, PartialEq, Eq, Structural)]
pub struct Input {
    /// Whether the key that moves the paddle to the left is down.
    pub left: bool,
    /// Whether the key that moves the paddle to the right is down.
    pub right: bool,
    /// Whether the pause key was pressed in this frame.
    pub pause: bool,
    /// Whether the confirm key was pressed in this frame.
    pub confirm: bool,
}

} // verus!
