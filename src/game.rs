use vstd::prelude::*;

use crate::components::{
    ComponentKind, ComponentValue, ConfigurationError, Entity, LeftMover, Player, Position,
    Renderable, Rgb,
};
use crate::glyphs::{black, cp437_of, glyph_of, red, yellow};
use crate::storage::join;
use crate::systems::{drift_step, player_step, try_move_player, LeftWalker};
use crate::world::{World, WorldModel};

verus! {

/// The key event of a frame.
#[derive(Clone, Copy, Debug, PartialEq, Eq, Structural)]
pub enum Input {
    Left,
    Right,
    Up,
    Down,
    /// No key, or one that moves nothing.
    Other,
}

/// One glyph to draw at a cell.
#[derive(Clone, Copy, Debug, PartialEq, Eq, Structural)]
pub struct DrawCall {
    pub entity: Entity,
    pub x: i32,
    pub y: i32,
    pub fg: Rgb,
    pub bg: Rgb,
    pub glyph: u16,
}

pub open spec fn draw_of(e: Entity, p: Position, rd: Renderable) -> DrawCall {
    DrawCall { entity: e, x: p.x, y: p.y, fg: rd.fg, bg: rd.bg, glyph: rd.glyph }
}

/// What an input does to the world, and what it returns.
pub open spec fn input_step(m: WorldModel, input: Input) -> (
    Result<(), ConfigurationError>,
    WorldModel,
) {
    match input {
        Input::Left => player_step(m, -1i32, 0i32),
        Input::Right => player_step(m, 1i32, 0i32),
        Input::Up => player_step(m, 0i32, -1i32),
        Input::Down => player_step(m, 0i32, 1i32),
        Input::Other => (Ok(()), m),
    }
}

/// The systems of a frame followed by the commit of queued changes.
pub open spec fn systems_step(m: WorldModel) -> (Result<(), ConfigurationError>, WorldModel) {
    let (r, m1) = drift_step(m);
    if r is Err {
        (r, m1)
    } else {
        (r, m1.flushed())
    }
}

/// Input, then systems: the world a frame leaves before drawing.
pub open spec fn frame_step(m: WorldModel, input: Input) -> (
    Result<(), ConfigurationError>,
    WorldModel,
) {
    let (r, m1) = input_step(m, input);
    if r is Err {
        (r, m1)
    } else {
        systems_step(m1)
    }
}

/// Why drawing fails, if it does.
pub open spec fn render_error(m: WorldModel) -> Option<ConfigurationError> {
    if !m.registered.contains(ComponentKind::Position) {
        Some(ConfigurationError::Unregistered(ComponentKind::Position))
    } else if !m.registered.contains(ComponentKind::Renderable) {
        Some(ConfigurationError::Unregistered(ComponentKind::Renderable))
    } else {
        None
    }
}

/// `d` draws each entity with a position and a renderable once, by
/// increasing identifier.
pub open spec fn draws_all(m: WorldModel, d: Seq<DrawCall>) -> bool {
    &&& forall|k: int|
        0 <= k < d.len() ==> m.positions.contains_key(#[trigger] d[k].entity.id as nat)
            && m.renderables.contains_key(d[k].entity.id as nat) && d[k] == draw_of(
            d[k].entity,
            m.positions[d[k].entity.id as nat],
            m.renderables[d[k].entity.id as nat],
        )
    &&& forall|id: nat|
        m.positions.contains_key(id) && m.renderables.contains_key(id) ==> exists|k: int|
            0 <= k < d.len() && d[k].entity.id == id
    &&& forall|k: int, l: int| 0 <= k < l < d.len() ==> d[k].entity.id < d[l].entity.id
}

/// One draw call for each entity that has a position and a renderable.
pub fn render(world: &World) -> (r: Result<Vec<DrawCall>, ConfigurationError>)
    ensures
        match render_error(world@) {
            Some(err) => r == Err::<Vec<DrawCall>, ConfigurationError>(err),
            None => r is Ok && draws_all(world@, r->Ok_0@),
        },
{
    let positions = match world.read_positions() {
        Err(err) => {
            return Err(err);
        },
        Ok(s) => s,
    };
    let renderables = match world.read_renderables() {
        Err(err) => {
            return Err(err);
        },
        Ok(s) => s,
    };
    let ents = join(positions, renderables);
    let mut draws: Vec<DrawCall> = Vec::new();
    let n = ents.len();
    let mut i: usize = 0;
    while i < n
        invariant
            n == ents@.len(),
            i <= n,
            draws@.len() == i,
            positions@ == world@.positions,
            renderables@ == world@.renderables,
            forall|k: int|
                0 <= k < ents@.len() ==> positions@.contains_key(#[trigger] ents@[k].id as nat)
                    && renderables@.contains_key(ents@[k].id as nat),
            forall|k: int|
                0 <= k < i ==> #[trigger] draws@[k] == draw_of(
                    ents@[k],
                    positions@[ents@[k].id as nat],
                    renderables@[ents@[k].id as nat],
                ),
        decreases n - i,
    {
        let e = ents[i];
        let p = positions.get(e).unwrap();
        let rd = renderables.get(e).unwrap();
        draws.push(DrawCall { entity: e, x: p.x, y: p.y, fg: rd.fg, bg: rd.bg, glyph: rd.glyph });
        i = i + 1;
    }
    proof {
        assert forall|id: nat|
            world@.positions.contains_key(id) && world@.renderables.contains_key(
                id,
            ) implies exists|k: int| 0 <= k < draws@.len() && draws@[k].entity.id == id by {
            let k = choose|k: int| 0 <= k < ents@.len() && ents@[k].id == id;
            assert(draws@[k].entity.id == id);
        }
        assert forall|k: int, l: int| 0 <= k < l < draws@.len() implies draws@[k].entity.id
            < draws@[l].entity.id by {
            assert(draws@[k].entity == ents@[k]);
            assert(draws@[l].entity == ents@[l]);
        }
    }
    Ok(draws)
}

/// The number of drifting entities at the start.
pub const MOVERS: u64 = 10;

/// The starting world with the player and the first `n` drifting entities:
/// the player is entity 0 at (40, 25); drifter `i` is entity `i + 1` at
/// (7 i, 20).
pub open spec fn start_model(n: nat, player: Renderable, mover: Renderable) -> WorldModel {
    WorldModel {
        alive: Seq::new(n + 1, |i: int| true),
        registered: set![
            ComponentKind::LeftMover,
            ComponentKind::Player,
            ComponentKind::Position,
            ComponentKind::Renderable,
        ],
        players: map![0nat => Player {}],
        positions: Map::new(
            |id: nat| id <= n,
            |id: nat|
                if id == 0 {
                    Position { x: 40, y: 25 }
                } else {
                    Position { x: (7 * (id - 1)) as i32, y: 20 }
                },
        ),
        left_movers: Map::new(|id: nat| 1 <= id <= n, |id: nat| LeftMover {}),
        renderables: Map::new(
            |id: nat| id <= n,
            |id: nat|
                if id == 0 {
                    player
                } else {
                    mover
                },
        ),
        pending: Seq::empty(),
    }
}

/// The whole simulation: a world that persists from frame to frame.
pub struct State {
    pub world: World,
}

impl State {
    /// The starting world: all four types registered, the player drawn as
    /// `player`, and the drifting entities drawn as `mover`.
    pub fn populate(player: Renderable, mover: Renderable) -> (r: State)
        ensures
            r.world@ == start_model(MOVERS as nat, player, mover),
    {
        let mut world = World::new();
        world.register_component_type(ComponentKind::LeftMover);
        world.register_component_type(ComponentKind::Player);
        world.register_component_type(ComponentKind::Position);
        world.register_component_type(ComponentKind::Renderable);
        let e = world.create_entity();
        let _ = world.attach(e, ComponentValue::Position(Position { x: 40, y: 25 }));
        let _ = world.attach(e, ComponentValue::Renderable(player));
        let _ = world.attach(e, ComponentValue::Player(Player {}));
        proof {
            assert(world@.alive =~= start_model(0, player, mover).alive);
            assert(world@.registered =~= start_model(0, player, mover).registered);
            assert(world@.players =~= start_model(0, player, mover).players);
            assert(world@.positions =~= start_model(0, player, mover).positions);
            assert(world@.left_movers =~= start_model(0, player, mover).left_movers);
            assert(world@.renderables =~= start_model(0, player, mover).renderables);
        }
        let mut i: u64 = 0;
        while i < MOVERS
            invariant
                i <= MOVERS,
                world@ == start_model(i as nat, player, mover),
            decreases MOVERS - i,
        {
            let e = world.create_entity();
            let ghost w0 = world@;
            let _ = world.attach(e, ComponentValue::Position(Position { x: (i * 7) as i32, y: 20 }));
            let _ = world.attach(e, ComponentValue::Renderable(mover));
            let _ = world.attach(e, ComponentValue::LeftMover(LeftMover {}));
            proof {
                let next = start_model((i + 1) as nat, player, mover);
                assert(world@.alive =~= next.alive);
                assert(world@.positions =~= next.positions);
                assert(world@.left_movers =~= next.left_movers);
                assert(world@.renderables =~= next.renderables);
            }
            i = i + 1;
        }
        State { world }
    }

    /// The starting world, with the player as a yellow `@` and the drifting
    /// entities as red smiling faces, all on black.
    pub fn new_game() -> (r: State)
        ensures
            r.world@ == start_model(
                MOVERS as nat,
                Renderable { glyph: cp437_of('@'), fg: Rgb { r: 255, g: 255, b: 0 }, bg: Rgb { r: 0, g: 0, b: 0 } },
                Renderable { glyph: cp437_of('\u{263A}'), fg: Rgb { r: 255, g: 0, b: 0 }, bg: Rgb { r: 0, g: 0, b: 0 } },
            ),
    {
        let player = Renderable { glyph: glyph_of('@'), fg: yellow(), bg: black() };
        let mover = Renderable { glyph: glyph_of('\u{263A}'), fg: red(), bg: black() };
        State::populate(player, mover)
    }

    /// Runs every system once, then commits queued structural changes.
    pub fn run_systems(&mut self) -> (r: Result<(), ConfigurationError>)
        ensures
            (r, final(self).world@) == systems_step(old(self).world@),
    {
        let mut lw = LeftWalker {};
        let r = lw.run(&mut self.world);
        if r.is_err() {
            return r;
        }
        self.world.maintain();
        Ok(())
    }

    /// One frame: apply the input, run the systems, commit, and return what
    /// to draw (the caller clears the display first).
    pub fn tick(&mut self, input: Input) -> (r: Result<Vec<DrawCall>, ConfigurationError>)
        ensures
            final(self).world@ == frame_step(old(self).world@, input).1,
            match frame_step(old(self).world@, input).0 {
                Err(err) => r == Err::<Vec<DrawCall>, ConfigurationError>(err),
                Ok(_) => match render_error(final(self).world@) {
                    Some(err) => r == Err::<Vec<DrawCall>, ConfigurationError>(err),
                    None => r is Ok && draws_all(final(self).world@, r->Ok_0@),
                },
            },
    {
        if let Err(err) = player_input(self, input) {
            return Err(err);
        }
        if let Err(err) = self.run_systems() {
            return Err(err);
        }
        render(&self.world)
    }
}

/// Moves the player entities as the key of the frame says; other keys
/// change nothing.
pub fn player_input(state: &mut State, input: Input) -> (r: Result<(), ConfigurationError>)
    ensures
        (r, final(state).world@) == input_step(old(state).world@, input),
{
    match input {
        Input::Left => try_move_player(-1, 0, &mut state.world),
        Input::Right => try_move_player(1, 0, &mut state.world),
        Input::Up => try_move_player(0, -1, &mut state.world),
        Input::Down => try_move_player(0, 1, &mut state.world),
        Input::Other => Ok(()),
    }
}

} // verus!
