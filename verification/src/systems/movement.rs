//! The player's moves.

use vstd::prelude::*;
use crate::components::Direction;
use crate::state::GameState;

verus! {

/// Moves the entity with the given id one cell in the given direction, if
/// the rules allow it.
pub fn process_movement(game_state: &mut GameState, entity_id: usize, direction: Direction)
    requires
        old(game_state).wf(),
    ensures
        final(game_state).wf(),
        final(game_state)@ == old(game_state)@.moved(entity_id as int, direction),
{
    game_state.move_entity(entity_id, direction);
}

} // verus!
