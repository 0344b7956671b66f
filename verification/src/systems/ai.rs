//! The enemies: a random walk, and what happens when one of them meets the
//! player.

use vstd::prelude::*;
use crate::chance::random_below;
use crate::components::Direction;
use crate::entity::EntityType;
use crate::state::GameState;

verus! {

/// The direction that a roll of a four-sided die stands for.
pub open spec fn direction_of(roll: u32) -> Direction {
    if roll == 0 {
        Direction::Up
    } else if roll == 1 {
        Direction::Down
    } else if roll == 2 {
        Direction::Left
    } else {
        Direction::Right
    }
}

/// The direction that a roll of a four-sided die stands for.
pub fn direction_for(roll: u32) -> (direction: Direction)
    ensures
        direction == direction_of(roll),
{
    match roll {
        0 => Direction::Up,
        1 => Direction::Down,
        2 => Direction::Left,
        _ => Direction::Right,
    }
}

/// Lets one enemy try a step in a direction that the dice choose.
fn random_walk_ai(game_state: &mut GameState, enemy_id: usize) -> (direction: Direction)
    requires
        old(game_state).wf(),
    ensures
        final(game_state).wf(),
        final(game_state)@ == old(game_state)@.moved(enemy_id as int, direction),
{
    let direction = direction_for(random_below(4));
    game_state.move_entity(enemy_id, direction);
    direction
}

/// Lets every live enemy try one step, each in a direction of its own that
/// the dice choose. Whatever the dice show, the state afterwards is the one
/// that the enemies' steps leave for some choice of directions.
pub fn update_enemy_ai(game_state: &mut GameState)
    requires
        old(game_state).wf(),
    ensures
        final(game_state).wf(),
        exists|steps: Seq<Direction>|
            final(game_state)@ == #[trigger] old(game_state)@.enemies_walked(steps),
{
    let ghost before = game_state@;
    let ghost mut steps: Seq<Direction> = Seq::empty();
    let mut i: usize = 0;
    while i < game_state.entities.len()
        invariant
            i <= game_state.entities@.len(),
            game_state.wf(),
            game_state.entities@.len() == before.entities.len(),
            steps.len() == i,
            game_state@ == before.walked_upto(steps, i as nat),
        decreases game_state.entities@.len() - i,
    {
        let e = game_state.entities[i];
        let ghost mut step = Direction::Up;
        if e.is_alive && e.entity_type() == EntityType::Enemy {
            let taken = random_walk_ai(game_state, e.id);
            proof {
                step = taken;
            }
        }
        proof {
            before.lemma_walked_steps(steps, steps.push(step), i as nat);
            steps = steps.push(step);
        }
        i += 1;
    }
    assert(game_state@ == before.enemies_walked(steps));
}

/// Destroys a live player who shares a cell with a live enemy.
pub fn check_player_enemy_collision(game_state: &mut GameState)
    requires
        old(game_state).wf(),
    ensures
        final(game_state).wf(),
        final(game_state)@ == old(game_state)@.caught(),
{
    let (at, id) = match game_state.get_player() {
        Some(player) => {
            if !player.is_alive {
                return ;
            }
            (player.position, player.id)
        },
        None => {
            return ;
        },
    };
    if game_state.has_live_at(EntityType::Enemy, at.x, at.y) {
        proof {
            game_state@.lemma_update_wf(id as int, game_state@.entities[id as int].dead());
        }
        game_state.entities[id].is_alive = false;
        assert(game_state@.entities =~= old(game_state)@.caught().entities);
    }
}

} // verus!
