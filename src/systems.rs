use vstd::prelude::*;

use crate::components::{ComponentKind, ConfigurationError, Entity, LeftMover, Player, Position};
use crate::storage::join;
use crate::world::{World, WorldModel};

verus! {

/// The largest column index of the grid.
pub const MAX_X: i32 = 79;

/// The largest row index of the grid.
pub const MAX_Y: i32 = 49;

/// A column after one leftward drift: wraps to the last column below zero.
pub open spec fn drifted(x: int) -> int {
    if x - 1 >= 0 {
        x - 1
    } else {
        MAX_X as int
    }
}

/// `v` clamped into `[0, hi]`.
pub open spec fn clamped(v: int, hi: int) -> int {
    if v < 0 {
        0
    } else if v > hi {
        hi
    } else {
        v
    }
}

/// How a pass over positions changes one position.
#[derive(Clone, Copy, Debug, PartialEq, Eq, Structural)]
pub enum Motion {
    /// One column leftward, wrapping.
    Drift,
    /// A step by the given deltas, clamped to the grid.
    Step(i32, i32),
}

pub open spec fn moved(m: Motion, p: Position) -> Position {
    match m {
        Motion::Drift => Position { x: drifted(p.x as int) as i32, y: p.y },
        Motion::Step(dx, dy) => Position {
            x: clamped(p.x + dx, MAX_X as int) as i32,
            y: clamped(p.y + dy, MAX_Y as int) as i32,
        },
    }
}

/// The positions after moving every entity that is also in `movers`.
pub open spec fn pass<C>(positions: Map<nat, Position>, movers: Map<nat, C>, m: Motion) -> Map<
    nat,
    Position,
> {
    Map::new(
        |id: nat| positions.contains_key(id),
        |id: nat|
            if movers.contains_key(id) {
                moved(m, positions[id])
            } else {
                positions[id]
            },
    )
}

/// What one pass of the drift system returns, and the world it leaves.
pub open spec fn drift_step(m: WorldModel) -> (Result<(), ConfigurationError>, WorldModel) {
    if !m.registered.contains(ComponentKind::LeftMover) {
        (Err(ConfigurationError::Unregistered(ComponentKind::LeftMover)), m)
    } else if !m.registered.contains(ComponentKind::Position) {
        (Err(ConfigurationError::Unregistered(ComponentKind::Position)), m)
    } else {
        (Ok(()), WorldModel { positions: pass(m.positions, m.left_movers, Motion::Drift), ..m })
    }
}

/// What moving the players by `(dx, dy)` returns, and the world it leaves.
pub open spec fn player_step(m: WorldModel, dx: i32, dy: i32) -> (
    Result<(), ConfigurationError>,
    WorldModel,
) {
    if !m.registered.contains(ComponentKind::Position) {
        (Err(ConfigurationError::Unregistered(ComponentKind::Position)), m)
    } else if !m.registered.contains(ComponentKind::Player) {
        (Err(ConfigurationError::Unregistered(ComponentKind::Player)), m)
    } else {
        (Ok(()), WorldModel { positions: pass(m.positions, m.players, Motion::Step(dx, dy)), ..m })
    }
}

/// One column leftward; below zero it wraps to the last column.
pub fn drift_x(x: i32) -> (r: i32)
    ensures
        r == drifted(x as int),
{
    if x <= 0 {
        MAX_X
    } else {
        x - 1
    }
}

/// `v + d` clamped into `[0, hi]`.
pub fn clamp_step(v: i32, d: i32, hi: i32) -> (r: i32)
    requires
        0 <= hi,
    ensures
        r == clamped(v + d, hi as int),
{
    let s: i64 = v as i64 + d as i64;
    if s < 0 {
        0
    } else if s > hi as i64 {
        hi
    } else {
        s as i32
    }
}

pub fn move_one(m: Motion, p: Position) -> (r: Position)
    ensures
        r == moved(m, p),
{
    match m {
        Motion::Drift => Position { x: drift_x(p.x), y: p.y },
        Motion::Step(dx, dy) => Position {
            x: clamp_step(p.x, dx, MAX_X),
            y: clamp_step(p.y, dy, MAX_Y),
        },
    }
}

/// Moves every entity of `ents`, which all have a position, once.
fn move_all(world: &mut World, ents: &Vec<Entity>, m: Motion)
    requires
        forall|k: int| 0 <= k < ents@.len() ==> old(world)@.positions.contains_key(#[trigger] ents@[k].id as nat),
        forall|k: int, l: int| 0 <= k < l < ents@.len() ==> ents@[k].id < ents@[l].id,
    ensures
        final(world)@ == (WorldModel {
            positions: Map::new(
                |id: nat| old(world)@.positions.contains_key(id),
                |id: nat|
                    if exists|k: int| 0 <= k < ents@.len() && ents@[k].id == id {
                        moved(m, old(world)@.positions[id])
                    } else {
                        old(world)@.positions[id]
                    },
            ),
            ..old(world)@
        }),
{
    let ghost start = world@;
    let n = ents.len();
    let mut i: usize = 0;
    while i < n
        invariant
            n == ents@.len(),
            i <= n,
            start == old(world)@,
            forall|k: int| 0 <= k < ents@.len() ==> start.positions.contains_key(#[trigger] ents@[k].id as nat),
            forall|k: int, l: int| 0 <= k < l < ents@.len() ==> ents@[k].id < ents@[l].id,
            world@ == (WorldModel { positions: world@.positions, ..start }),
            world@.positions.dom() == start.positions.dom(),
            forall|id: nat| #[trigger] world@.positions.contains_key(id) ==> world@.positions[id] == if exists|k: int|
                0 <= k < i && ents@[k].id == id {
                moved(m, start.positions[id])
            } else {
                start.positions[id]
            },
        decreases n - i,
    {
        let e = ents[i];
        let ghost before = world@.positions;
        assert(start.positions.contains_key(e.id as nat));
        assert forall|k: int| 0 <= k < i implies ents@[k].id != e.id by {
            assert(ents@[k].id < ents@[i as int].id);
        }
        let p = world.position_of(e).unwrap();
        world.replace_position(e, move_one(m, p));
        assert forall|id: nat| #[trigger] world@.positions.contains_key(id) implies world@.positions[id]
            == if exists|k: int| 0 <= k < i + 1 && ents@[k].id == id {
            moved(m, start.positions[id])
        } else {
            start.positions[id]
        } by {
            if id != e.id {
                if exists|k: int| 0 <= k < i + 1 && ents@[k].id == id {
                    let k = choose|k: int| 0 <= k < i + 1 && ents@[k].id == id;
                    assert(k < i);
                }
            } else {
                assert(ents@[i as int].id == id);
            }
        }
        assert(world@.positions.dom() =~= start.positions.dom());
        i = i + 1;
    }
    assert(world@.positions =~= Map::new(
        |id: nat| old(world)@.positions.contains_key(id),
        |id: nat|
            if exists|k: int| 0 <= k < ents@.len() && ents@[k].id == id {
                moved(m, old(world)@.positions[id])
            } else {
                old(world)@.positions[id]
            },
    ));
}

/// Moves every entity that has both a position and a component in
/// `movers`; the result says which entities the join produced.
fn move_joined<C>(world: &mut World, ents: &Vec<Entity>, m: Motion, movers: Ghost<Map<nat, C>>)
    requires
        forall|k: int| 0 <= k < ents@.len() ==> movers@.contains_key(ents@[k].id as nat)
            && old(world)@.positions.contains_key(ents@[k].id as nat),
        forall|id: nat| movers@.contains_key(id) && old(world)@.positions.contains_key(id) ==> exists|k: int|
            0 <= k < ents@.len() && ents@[k].id == id,
        forall|k: int, l: int| 0 <= k < l < ents@.len() ==> ents@[k].id < ents@[l].id,
    ensures
        final(world)@ == (WorldModel {
            positions: pass(old(world)@.positions, movers@, m),
            ..old(world)@
        }),
{
    move_all(world, ents, m);
    assert(world@.positions =~= pass(old(world)@.positions, movers@, m));
}

/// The drift system: every entity with a left-mover marker and a position
/// moves one column leftward, wrapping to the last column.
#[derive(Clone, Copy, Debug, PartialEq, Eq, Structural)]
pub struct LeftWalker {}

impl LeftWalker {
    /// One pass of the system over the world.
    pub fn run(&mut self, world: &mut World) -> (r: Result<(), ConfigurationError>)
        ensures
            *final(self) == *old(self),
            (r, final(world)@) == drift_step(old(world)@),
    {
        let ents = match world.read_left_movers() {
            Err(err) => {
                return Err(err);
            },
            Ok(left) => match world.read_positions() {
                Err(err) => {
                    return Err(err);
                },
                Ok(pos) => join(left, pos),
            },
        };
        move_joined::<LeftMover>(world, &ents, Motion::Drift, Ghost(world@.left_movers));
        Ok(())
    }
}

/// Moves every player by `(dx, dy)`, clamping both axes to the grid.
pub fn try_move_player(dx: i32, dy: i32, world: &mut World) -> (r: Result<(), ConfigurationError>)
    ensures
        (r, final(world)@) == player_step(old(world)@, dx, dy),
{
    let ents = match world.read_positions() {
        Err(err) => {
            return Err(err);
        },
        Ok(pos) => match world.read_players() {
            Err(err) => {
                return Err(err);
            },
            Ok(players) => join(players, pos),
        },
    };
    move_joined::<Player>(world, &ents, Motion::Step(dx, dy), Ghost(world@.players));
    Ok(())
}

} // verus!
