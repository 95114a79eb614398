use vstd::prelude::*;

verus! {

/// An opaque entity identifier; identifiers are handed out in creation order.
#[derive(Clone, Copy, Debug, PartialEq, Eq, Structural)]
pub struct Entity {
    pub id: u64,
}

/// Marker for the entity under keyboard control.
#[derive(Clone, Copy, Debug, PartialEq, Eq, Structural)]
pub struct Player {}

/// Marker for entities that drift one cell leftward every frame.
#[derive(Clone, Copy, Debug, PartialEq, Eq, Structural)]
pub struct LeftMover {}

/// A cell of the grid.
#[derive(Clone, Copy, Debug, PartialEq, Eq, Structural)]
pub struct Position {
    pub x: i32,
    pub y: i32,
}

/// A colour as three 8-bit channels.
#[derive(Clone, Copy, Debug, PartialEq, Eq, Structural)]
pub struct Rgb {
    pub r: u8,
    pub g: u8,
    pub b: u8,
}

/// What is drawn for an entity: a code-page glyph and its two colours.
#[derive(Clone, Copy, Debug, PartialEq, Eq, Structural)]
pub struct Renderable {
    pub glyph: u16,
    pub fg: Rgb,
    pub bg: Rgb,
}

/// The four component types the world knows.
#[derive(Clone, Copy, Debug, PartialEq, Eq, Structural)]
pub enum ComponentKind {
    Player,
    Position,
    LeftMover,
    Renderable,
}

/// A component value of any of the four types.
#[derive(Clone, Copy, Debug, PartialEq, Eq, Structural)]
pub enum ComponentValue {
    Player(Player),
    Position(Position),
    LeftMover(LeftMover),
    Renderable(Renderable),
}

impl ComponentValue {
    pub open spec fn kind_of(self) -> ComponentKind {
        match self {
            ComponentValue::Player(_) => ComponentKind::Player,
            ComponentValue::Position(_) => ComponentKind::Position,
            ComponentValue::LeftMover(_) => ComponentKind::LeftMover,
            ComponentValue::Renderable(_) => ComponentKind::Renderable,
        }
    }

    pub fn kind(&self) -> (r: ComponentKind)
        ensures
            r == self.kind_of(),
    {
        match self {
            ComponentValue::Player(_) => ComponentKind::Player,
            ComponentValue::Position(_) => ComponentKind::Position,
            ComponentValue::LeftMover(_) => ComponentKind::LeftMover,
            ComponentValue::Renderable(_) => ComponentKind::Renderable,
        }
    }
}

/// A structural change queued during a frame and applied by `maintain`.
#[derive(Clone, Copy, Debug, PartialEq, Eq, Structural)]
pub enum Deferred {
    Attach(Entity, ComponentValue),
    Detach(Entity, ComponentKind),
    Delete(Entity),
}

/// A misuse of the world by its programmer.
#[derive(Clone, Copy, Debug, PartialEq, Eq, Structural)]
pub enum ConfigurationError {
    /// The component type was used before it was registered.
    Unregistered(ComponentKind),
    /// The entity was never created, or has been deleted.
    DeadEntity(Entity),
}

} // verus!
