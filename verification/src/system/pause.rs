use vstd::prelude::*;
use crate::game::States;
use crate::world::{World, WorldView};

verus! {

/// The state after the pause key was pressed: a game that is played is
/// paused, a paused game is played again, and any other state stays.
pub open spec fn toggled(state: States) -> States {
    match state {
        States::Playing => States::Paused,
        States::Paused => States::Playing,
        other => other,
    }
}

/// The pause system: toggles between `Playing` and `Paused` in a frame in
/// which the pause key was pressed.
pub fn system(world: &mut World)
    ensures
        final(world)@ == (WorldView {
            state: if old(world)@.input.pause {
                toggled(old(world)@.state)
            } else {
                old(world)@.state
            },
            ..old(world)@
        }),
{
    if !world.input.pause {
        return ;
    }
    world.state = match world.state {
        States::Playing => States::Paused,
        States::Paused => States::Playing,
        other => other,
    };
}

} // verus!
