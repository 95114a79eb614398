use vstd::prelude::*;

use crate::components::ComponentKind;
use crate::game::{input_step, Input};
use crate::systems::{drift_step, MAX_X, MAX_Y};
use crate::world::WorldModel;

verus! {

/// A drift pass moves each entity with a left-mover marker and a position one
/// column left, to column 79 where that would be negative, and keeps its
/// row; an entity without the marker keeps its position.
pub proof fn lemma_drift_pass(m: WorldModel, id: nat)
    requires
        m.registered.contains(ComponentKind::LeftMover),
        m.registered.contains(ComponentKind::Position),
        m.positions.contains_key(id),
    ensures
        drift_step(m).0 is Ok,
        drift_step(m).1.positions.contains_key(id),
        m.left_movers.contains_key(id) ==> drift_step(m).1.positions[id].x == (if m.positions[id].x
            - 1 >= 0 {
            m.positions[id].x - 1
        } else {
            79
        }) && drift_step(m).1.positions[id].y == m.positions[id].y,
        !m.left_movers.contains_key(id) ==> drift_step(m).1.positions[id] == m.positions[id],
{
}

/// On the grid, a player moved by a key steps one cell that way and stops at
/// the edges; any other key leaves it where it is.
pub proof fn lemma_player_input(m: WorldModel, id: nat, input: Input)
    requires
        m.registered.contains(ComponentKind::Player),
        m.registered.contains(ComponentKind::Position),
        m.positions.contains_key(id),
        m.players.contains_key(id),
        0 <= m.positions[id].x <= 79,
        0 <= m.positions[id].y <= 49,
    ensures
        input_step(m, input).0 is Ok,
        ({
            let p = m.positions[id];
            let q = input_step(m, input).1.positions[id];
            match input {
                Input::Left => q.x == (if p.x - 1 > 0 {
                    p.x - 1
                } else {
                    0
                }) && q.y == p.y,
                Input::Right => q.x == (if p.x + 1 < 79 {
                    p.x + 1
                } else {
                    79
                }) && q.y == p.y,
                Input::Up => q.y == (if p.y - 1 > 0 {
                    p.y - 1
                } else {
                    0
                }) && q.x == p.x,
                Input::Down => q.y == (if p.y + 1 < 49 {
                    p.y + 1
                } else {
                    49
                }) && q.x == p.x,
                Input::Other => q == p,
            }
        }),
{
}

/// At column 0 the two boundary policies part: a drifting entity wraps to
/// column 79, a player moved left stays at column 0.
pub proof fn lemma_wrap_versus_clamp(m: WorldModel, mover: nat, player: nat)
    requires
        m.registered.contains(ComponentKind::LeftMover),
        m.registered.contains(ComponentKind::Player),
        m.registered.contains(ComponentKind::Position),
        m.left_movers.contains_key(mover),
        m.positions.contains_key(mover),
        m.positions[mover].x == 0,
        m.players.contains_key(player),
        m.positions.contains_key(player),
        m.positions[player].x == 0,
    ensures
        drift_step(m).1.positions[mover].x == 79,
        input_step(m, Input::Left).1.positions[player].x == 0,
{
}

/// Every position lies on the grid.
pub open spec fn on_grid(m: WorldModel) -> bool {
    forall|id: nat|
        #[trigger] m.positions.contains_key(id) ==> 0 <= m.positions[id].x <= MAX_X && 0
            <= m.positions[id].y <= MAX_Y
}

/// Neither a drift pass nor an input takes a position off the grid.
pub proof fn lemma_steps_stay_on_grid(m: WorldModel, input: Input)
    requires
        on_grid(m),
    ensures
        on_grid(drift_step(m).1),
        on_grid(input_step(m, input).1),
{
}

/// Registering a type twice leaves the world as registering it once.
pub proof fn lemma_register_idempotent(m: WorldModel, k: ComponentKind)
    ensures
        m.register(k).register(k) == m.register(k),
{
    assert(m.register(k).registered.insert(k) =~= m.register(k).registered);
}

} // verus!
