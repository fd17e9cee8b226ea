//! The states of the obstacle-jump mini-game. The physics, timers and random
//! jumps run outside the library (they are floating point); the order of the
//! states is fixed here.
use vstd::prelude::*;

verus! {

/// The state of the obstacle-jump game.
#[derive(Debug, Clone, Copy, PartialEq, Eq, Structural)]
pub enum ObstacleJumpState {
    Playing,
    Dead,
    Respawning,
}

/// The state after a tick: a collision ends `Playing` in `Dead`; `Dead` turns
/// to `Respawning` and `Respawning` back to `Playing` when their timer ran out.
pub fn next_game_state(s: ObstacleJumpState, collided: bool, timer_done: bool) -> (r: ObstacleJumpState)
    ensures
        r == (match s {
            ObstacleJumpState::Playing => if collided {
                ObstacleJumpState::Dead
            } else {
                ObstacleJumpState::Playing
            },
            ObstacleJumpState::Dead => if timer_done {
                ObstacleJumpState::Respawning
            } else {
                ObstacleJumpState::Dead
            },
            ObstacleJumpState::Respawning => if timer_done {
                ObstacleJumpState::Playing
            } else {
                ObstacleJumpState::Respawning
            },
        }),
{
    match s {
        ObstacleJumpState::Playing => if collided {
            ObstacleJumpState::Dead
        } else {
            ObstacleJumpState::Playing
        },
        ObstacleJumpState::Dead => if timer_done {
            ObstacleJumpState::Respawning
        } else {
            ObstacleJumpState::Dead
        },
        ObstacleJumpState::Respawning => if timer_done {
            ObstacleJumpState::Playing
        } else {
            ObstacleJumpState::Respawning
        },
    }
}

/// The best score after a respawn: the higher of the best so far and the
/// score of the run that ended.
pub fn best_after_respawn(best: usize, score: usize) -> (r: usize)
    ensures
        r == (if score > best { score } else { best }),
        r >= best,
        r >= score,
{
    if score > best {
        score
    } else {
        best
    }
}

/// The points a tick of play scores: one when the obstacle was passed, two
/// for a manual jump.
pub open spec fn tick_points(passed_obstacle: bool, manual_jump: bool) -> nat {
    (if passed_obstacle { 1nat } else { 0nat }) + (if manual_jump { 2nat } else { 0nat })
}

/// The score after a tick of play, or none where it would not fit in a
/// `usize` (where the game's own addition overflows).
pub fn score_after_tick(score: usize, passed_obstacle: bool, manual_jump: bool) -> (r: Option<usize>)
    ensures
        score + tick_points(passed_obstacle, manual_jump) <= usize::MAX ==> r == Some(
            (score + tick_points(passed_obstacle, manual_jump)) as usize,
        ),
        score + tick_points(passed_obstacle, manual_jump) > usize::MAX ==> r is None,
{
    let mut points: usize = 0;
    if passed_obstacle {
        points = points + 1;
    }
    if manual_jump {
        points = points + 2;
    }
    score.checked_add(points)
}

} // verus!
