//! A small entity/component core for a grid-based simulation: per-type
//! component storages, a world that owns them, a drift system, clamped
//! player movement and a frame driver that yields draw calls.

mod components;
mod game;
mod glyphs;
mod laws;
mod storage;
mod systems;
mod world;

pub use components::{
    ComponentKind, ComponentValue, ConfigurationError, Deferred, Entity, LeftMover, Player,
    Position, Renderable, Rgb,
};
pub use game::{
    draw_of, draws_all, frame_step, input_step, player_input, render, render_error, start_model,
    systems_step, DrawCall, Input, State, MOVERS,
};
pub use glyphs::cp437_of;
pub use storage::{join, slot_of, Storage};
pub use systems::{
    clamp_step, clamped, drift_step, drift_x, drifted, move_one, moved, pass, player_step,
    try_move_player, LeftWalker, Motion, MAX_X, MAX_Y,
};
pub use world::{EntityBuilder, World, WorldModel};
pub use laws::{
    lemma_drift_pass, lemma_player_input, lemma_register_idempotent, lemma_steps_stay_on_grid,
    lemma_wrap_versus_clamp, on_grid,
};
