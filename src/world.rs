use vstd::prelude::*;

use crate::components::{
    ComponentKind, ComponentValue, ConfigurationError, Deferred, Entity, LeftMover, Player,
    Position, Renderable,
};
use crate::storage::Storage;

verus! {

/// What a world holds, as mathematical values.
pub ghost struct WorldModel {
    /// One flag per entity ever created, in creation order.
    pub alive: Seq<bool>,
    pub registered: Set<ComponentKind>,
    pub players: Map<nat, Player>,
    pub positions: Map<nat, Position>,
    pub left_movers: Map<nat, LeftMover>,
    pub renderables: Map<nat, Renderable>,
    /// Structural changes waiting for the next `maintain`.
    pub pending: Seq<Deferred>,
}

impl WorldModel {
    pub open spec fn empty() -> Self {
        WorldModel {
            alive: Seq::empty(),
            registered: Set::empty(),
            players: Map::empty(),
            positions: Map::empty(),
            left_movers: Map::empty(),
            renderables: Map::empty(),
            pending: Seq::empty(),
        }
    }

    pub open spec fn is_alive(self, e: Entity) -> bool {
        e.id < self.alive.len() && self.alive[e.id as int]
    }

    pub open spec fn register(self, k: ComponentKind) -> Self {
        WorldModel { registered: self.registered.insert(k), ..self }
    }

    pub open spec fn spawn(self) -> Self {
        WorldModel { alive: self.alive.push(true), ..self }
    }

    pub open spec fn attach(self, e: Entity, v: ComponentValue) -> Self {
        let id = e.id as nat;
        match v {
            ComponentValue::Player(c) => WorldModel { players: self.players.insert(id, c), ..self },
            ComponentValue::Position(c) => WorldModel {
                positions: self.positions.insert(id, c),
                ..self
            },
            ComponentValue::LeftMover(c) => WorldModel {
                left_movers: self.left_movers.insert(id, c),
                ..self
            },
            ComponentValue::Renderable(c) => WorldModel {
                renderables: self.renderables.insert(id, c),
                ..self
            },
        }
    }

    pub open spec fn detach(self, e: Entity, k: ComponentKind) -> Self {
        let id = e.id as nat;
        match k {
            ComponentKind::Player => WorldModel { players: self.players.remove(id), ..self },
            ComponentKind::Position => WorldModel { positions: self.positions.remove(id), ..self },
            ComponentKind::LeftMover => WorldModel {
                left_movers: self.left_movers.remove(id),
                ..self
            },
            ComponentKind::Renderable => WorldModel {
                renderables: self.renderables.remove(id),
                ..self
            },
        }
    }

    pub open spec fn delete(self, e: Entity) -> Self {
        let id = e.id as nat;
        WorldModel {
            alive: self.alive.update(e.id as int, false),
            players: self.players.remove(id),
            positions: self.positions.remove(id),
            left_movers: self.left_movers.remove(id),
            renderables: self.renderables.remove(id),
            ..self
        }
    }

    /// The error, if any, with which a structural change is refused.
    pub open spec fn refusal(self, c: Deferred) -> Option<ConfigurationError> {
        match c {
            Deferred::Attach(e, v) => if !self.registered.contains(v.kind_of()) {
                Some(ConfigurationError::Unregistered(v.kind_of()))
            } else if !self.is_alive(e) {
                Some(ConfigurationError::DeadEntity(e))
            } else {
                None
            },
            Deferred::Detach(e, k) => if !self.registered.contains(k) {
                Some(ConfigurationError::Unregistered(k))
            } else if !self.is_alive(e) {
                Some(ConfigurationError::DeadEntity(e))
            } else {
                None
            },
            Deferred::Delete(e) => if !self.is_alive(e) {
                Some(ConfigurationError::DeadEntity(e))
            } else {
                None
            },
        }
    }

    /// A structural change applied, or nothing where it is refused.
    pub open spec fn apply(self, c: Deferred) -> Self {
        if self.refusal(c) is Some {
            self
        } else {
            match c {
                Deferred::Attach(e, v) => self.attach(e, v),
                Deferred::Detach(e, k) => self.detach(e, k),
                Deferred::Delete(e) => self.delete(e),
            }
        }
    }

    /// Changes applied one after the other, first to last.
    pub open spec fn apply_all(self, cs: Seq<Deferred>) -> Self
        decreases cs.len(),
    {
        if cs.len() == 0 {
            self
        } else {
            self.apply_all(cs.drop_last()).apply(cs.last())
        }
    }

    /// Components attached to `e` one after the other, first to last.
    pub open spec fn attach_all(self, e: Entity, vs: Seq<ComponentValue>) -> Self
        decreases vs.len(),
    {
        if vs.len() == 0 {
            self
        } else {
            self.attach_all(e, vs.drop_last()).attach(e, vs.last())
        }
    }

    /// The first type among `vs` that is not registered, if any.
    pub open spec fn first_unregistered(self, vs: Seq<ComponentValue>) -> Option<ComponentKind>
        decreases vs.len(),
    {
        if vs.len() == 0 {
            None
        } else if !self.registered.contains(vs[0].kind_of()) {
            Some(vs[0].kind_of())
        } else {
            self.first_unregistered(vs.drop_first())
        }
    }

    /// Where no type among `vs` is unregistered, each of them is registered.
    pub proof fn lemma_all_registered(self, vs: Seq<ComponentValue>)
        requires
            self.first_unregistered(vs) is None,
        ensures
            forall|m: int| 0 <= m < vs.len() ==> self.registered.contains(#[trigger] vs[m].kind_of()),
        decreases vs.len(),
    {
        if vs.len() > 0 {
            self.lemma_all_registered(vs.drop_first());
            assert forall|m: int| 0 <= m < vs.len() implies self.registered.contains(
                #[trigger] vs[m].kind_of(),
            ) by {
                if m > 0 {
                    assert(vs[m] == vs.drop_first()[m - 1]);
                }
            }
        }
    }

    /// The world after `maintain`: every queued change applied, the queue empty.
    pub open spec fn flushed(self) -> Self {
        WorldModel { pending: Seq::empty(), ..self }.apply_all(self.pending)
    }
}

/// Owns every entity and every component storage.
pub struct World {
    alive: Vec<bool>,
    players: Storage<Player>,
    positions: Storage<Position>,
    left_movers: Storage<LeftMover>,
    renderables: Storage<Renderable>,
    pending: Vec<Deferred>,
}

impl World {
    pub closed spec fn registered_kinds(&self) -> Set<ComponentKind> {
        Set::new(
            |k: ComponentKind|
                match k {
                    ComponentKind::Player => self.players.registered(),
                    ComponentKind::Position => self.positions.registered(),
                    ComponentKind::LeftMover => self.left_movers.registered(),
                    ComponentKind::Renderable => self.renderables.registered(),
                },
        )
    }

    pub closed spec fn view(&self) -> WorldModel {
        WorldModel {
            alive: self.alive@,
            registered: self.registered_kinds(),
            players: self.players@,
            positions: self.positions@,
            left_movers: self.left_movers@,
            renderables: self.renderables@,
            pending: self.pending@,
        }
    }

    /// A world with no entity and no registered type.
    pub fn new() -> (r: World)
        ensures
            r@ == WorldModel::empty(),
    {
        let r = World {
            alive: Vec::new(),
            players: Storage::new(),
            positions: Storage::new(),
            left_movers: Storage::new(),
            renderables: Storage::new(),
            pending: Vec::new(),
        };
        assert(r.registered_kinds() =~= Set::empty());
        r
    }

    /// Declares a component type; registering it again changes nothing.
    pub fn register_component_type(&mut self, k: ComponentKind)
        ensures
            final(self)@ == old(self)@.register(k),
    {
        match k {
            ComponentKind::Player => self.players.register(),
            ComponentKind::Position => self.positions.register(),
            ComponentKind::LeftMover => self.left_movers.register(),
            ComponentKind::Renderable => self.renderables.register(),
        }
        assert(self.registered_kinds() =~= old(self).registered_kinds().insert(k));
    }

    pub fn is_registered(&self, k: ComponentKind) -> (r: bool)
        ensures
            r == self@.registered.contains(k),
    {
        match k {
            ComponentKind::Player => self.players.is_registered(),
            ComponentKind::Position => self.positions.is_registered(),
            ComponentKind::LeftMover => self.left_movers.is_registered(),
            ComponentKind::Renderable => self.renderables.is_registered(),
        }
    }

    pub fn is_alive(&self, e: Entity) -> (r: bool)
        ensures
            r == self@.is_alive(e),
    {
        e.id < self.alive.len() as u64 && self.alive[e.id as usize]
    }

    /// Allocates a fresh entity, with no component, after all earlier ones.
    pub fn create_entity(&mut self) -> (r: Entity)
        requires
            old(self)@.alive.len() < usize::MAX,
        ensures
            r.id == old(self)@.alive.len(),
            final(self)@ == old(self)@.spawn(),
    {
        let r = Entity { id: self.alive.len() as u64 };
        self.alive.push(true);
        r
    }

    /// The error, if any, with which a structural change would be refused now.
    pub fn check(&self, c: Deferred) -> (r: Option<ConfigurationError>)
        ensures
            r == self@.refusal(c),
    {
        match c {
            Deferred::Attach(e, v) => {
                let k = v.kind();
                if !self.is_registered(k) {
                    Some(ConfigurationError::Unregistered(k))
                } else if !self.is_alive(e) {
                    Some(ConfigurationError::DeadEntity(e))
                } else {
                    None
                }
            },
            Deferred::Detach(e, k) => {
                if !self.is_registered(k) {
                    Some(ConfigurationError::Unregistered(k))
                } else if !self.is_alive(e) {
                    Some(ConfigurationError::DeadEntity(e))
                } else {
                    None
                }
            },
            Deferred::Delete(e) => {
                if !self.is_alive(e) {
                    Some(ConfigurationError::DeadEntity(e))
                } else {
                    None
                }
            },
        }
    }

    /// Applies a structural change at once; a refused one changes nothing.
    pub fn apply(&mut self, c: Deferred) -> (r: Result<(), ConfigurationError>)
        ensures
            final(self)@ == old(self)@.apply(c),
            r == (match old(self)@.refusal(c) {
                Some(err) => Err(err),
                None => Ok(()),
            }),
    {
        if let Some(err) = self.check(c) {
            return Err(err);
        }
        let ghost kinds = self.registered_kinds();
        let n_alive = self.alive.len();
        assert(n_alive == self.alive@.len());
        match c {
            Deferred::Attach(e, v) => match v {
                ComponentValue::Player(p) => self.players.insert(e, p),
                ComponentValue::Position(p) => self.positions.insert(e, p),
                ComponentValue::LeftMover(p) => self.left_movers.insert(e, p),
                ComponentValue::Renderable(p) => self.renderables.insert(e, p),
            },
            Deferred::Detach(e, k) => match k {
                ComponentKind::Player => self.players.remove(e),
                ComponentKind::Position => self.positions.remove(e),
                ComponentKind::LeftMover => self.left_movers.remove(e),
                ComponentKind::Renderable => self.renderables.remove(e),
            },
            Deferred::Delete(e) => {
                self.alive.set(e.id as usize, false);
                self.players.remove(e);
                self.positions.remove(e);
                self.left_movers.remove(e);
                self.renderables.remove(e);
            },
        }
        assert(self.registered_kinds() =~= kinds);
        Ok(())
    }

    /// Attaches a component to a living entity, overwriting any value of
    /// its type.
    pub fn attach(&mut self, e: Entity, v: ComponentValue) -> (r: Result<(), ConfigurationError>)
        ensures
            final(self)@ == old(self)@.apply(Deferred::Attach(e, v)),
            r == (match old(self)@.refusal(Deferred::Attach(e, v)) {
                Some(err) => Err(err),
                None => Ok(()),
            }),
    {
        self.apply(Deferred::Attach(e, v))
    }

    /// Gives `e`, which already has a position, the position `p`.
    pub fn replace_position(&mut self, e: Entity, p: Position)
        requires
            old(self)@.positions.contains_key(e.id as nat),
        ensures
            final(self)@ == (WorldModel {
                positions: old(self)@.positions.insert(e.id as nat, p),
                ..old(self)@
            }),
    {
        let ghost kinds = self.registered_kinds();
        self.positions.replace(e, p);
        assert(self.registered_kinds() =~= kinds);
    }

    /// The position of `e`, if it has one.
    pub fn position_of(&self, e: Entity) -> (r: Option<Position>)
        ensures
            r == (if self@.positions.contains_key(e.id as nat) {
                Some(self@.positions[e.id as nat])
            } else {
                None
            }),
    {
        self.positions.get(e)
    }

    /// Read access to the players, once their type is registered.
    pub fn read_players(&self) -> (r: Result<&Storage<Player>, ConfigurationError>)
        ensures
            match r {
                Ok(s) => self@.registered.contains(ComponentKind::Player) && s@ == self@.players,
                Err(err) => !self@.registered.contains(ComponentKind::Player) && err
                    == ConfigurationError::Unregistered(ComponentKind::Player),
            },
    {
        if self.players.is_registered() {
            Ok(&self.players)
        } else {
            Err(ConfigurationError::Unregistered(ComponentKind::Player))
        }
    }

    /// Read access to the positions, once their type is registered.
    pub fn read_positions(&self) -> (r: Result<&Storage<Position>, ConfigurationError>)
        ensures
            match r {
                Ok(s) => self@.registered.contains(ComponentKind::Position) && s@
                    == self@.positions,
                Err(err) => !self@.registered.contains(ComponentKind::Position) && err
                    == ConfigurationError::Unregistered(ComponentKind::Position),
            },
    {
        if self.positions.is_registered() {
            Ok(&self.positions)
        } else {
            Err(ConfigurationError::Unregistered(ComponentKind::Position))
        }
    }

    /// Read access to the left movers, once their type is registered.
    pub fn read_left_movers(&self) -> (r: Result<&Storage<LeftMover>, ConfigurationError>)
        ensures
            match r {
                Ok(s) => self@.registered.contains(ComponentKind::LeftMover) && s@
                    == self@.left_movers,
                Err(err) => !self@.registered.contains(ComponentKind::LeftMover) && err
                    == ConfigurationError::Unregistered(ComponentKind::LeftMover),
            },
    {
        if self.left_movers.is_registered() {
            Ok(&self.left_movers)
        } else {
            Err(ConfigurationError::Unregistered(ComponentKind::LeftMover))
        }
    }

    /// Read access to the renderables, once their type is registered.
    pub fn read_renderables(&self) -> (r: Result<&Storage<Renderable>, ConfigurationError>)
        ensures
            match r {
                Ok(s) => self@.registered.contains(ComponentKind::Renderable) && s@
                    == self@.renderables,
                Err(err) => !self@.registered.contains(ComponentKind::Renderable) && err
                    == ConfigurationError::Unregistered(ComponentKind::Renderable),
            },
    {
        if self.renderables.is_registered() {
            Ok(&self.renderables)
        } else {
            Err(ConfigurationError::Unregistered(ComponentKind::Renderable))
        }
    }

    /// Queues a structural change for the next `maintain`.
    pub fn defer(&mut self, c: Deferred)
        ensures
            final(self)@ == (WorldModel { pending: old(self)@.pending.push(c), ..old(self)@ }),
    {
        self.pending.push(c);
    }

    /// Applies every queued change in order and empties the queue.
    pub fn maintain(&mut self)
        ensures
            final(self)@ == old(self)@.flushed(),
    {
        let mut cmds: Vec<Deferred> = Vec::new();
        std::mem::swap(&mut cmds, &mut self.pending);
        let ghost start = self@;
        assert(start == WorldModel { pending: Seq::empty(), ..old(self)@ });
        let n = cmds.len();
        let mut k: usize = 0;
        while k < n
            invariant
                n == cmds@.len(),
                k <= n,
                cmds@ == old(self)@.pending,
                self@ == start.apply_all(cmds@.subrange(0, k as int)),
            decreases n - k,
        {
            let _ = self.apply(cmds[k]);
            assert(cmds@.subrange(0, k + 1).drop_last() =~= cmds@.subrange(0, k as int));
            k = k + 1;
        }
        assert(cmds@.subrange(0, n as int) =~= cmds@);
    }
}

/// The components of an entity under construction.
pub struct EntityBuilder {
    components: Vec<ComponentValue>,
}

impl EntityBuilder {
    pub closed spec fn view(&self) -> Seq<ComponentValue> {
        self.components@
    }

    pub fn new() -> (r: EntityBuilder)
        ensures
            r@ == Seq::<ComponentValue>::empty(),
    {
        EntityBuilder { components: Vec::new() }
    }

    /// Adds a component; a later one of the same type overrides it.
    pub fn with(self, v: ComponentValue) -> (r: EntityBuilder)
        ensures
            r@ == self@.push(v),
    {
        let mut components = self.components;
        components.push(v);
        EntityBuilder { components }
    }

    /// Creates the entity with its components, all visible from then on. Fails,
    /// leaving the world as it was, where a component's type is unregistered.
    pub fn build(self, world: &mut World) -> (r: Result<Entity, ConfigurationError>)
        requires
            old(world)@.alive.len() < usize::MAX,
        ensures
            match old(world)@.first_unregistered(self@) {
                Some(k) => r == Err::<Entity, ConfigurationError>(
                    ConfigurationError::Unregistered(k),
                ) && *final(world) == *old(world),
                None => r == Ok::<Entity, ConfigurationError>(Entity { id: old(world)@.alive.len() as u64 })
                    && final(world)@ == old(world)@.spawn().attach_all(
                    Entity { id: old(world)@.alive.len() as u64 },
                    self@,
                ),
            },
    {
        let n = self.components.len();
        assert(self@.subrange(0, n as int) =~= self@);
        let mut i: usize = 0;
        while i < n
            invariant
                n == self@.len(),
                i <= n,
                world@.first_unregistered(self@) == world@.first_unregistered(
                    self@.subrange(i as int, n as int),
                ),
            decreases n - i,
        {
            let k = self.components[i].kind();
            assert(self@.subrange(i as int, n as int).drop_first() =~= self@.subrange(
                i + 1,
                n as int,
            ));
            if !world.is_registered(k) {
                return Err(ConfigurationError::Unregistered(k));
            }
            i = i + 1;
        }
        proof {
            old(world)@.lemma_all_registered(self@);
        }
        let e = world.create_entity();
        let ghost spawned = world@;
        assert(spawned.attach_all(e, self@.subrange(0, 0)) == spawned);
        let mut j: usize = 0;
        while j < n
            invariant
                n == self@.len(),
                j <= n,
                e.id == old(world)@.alive.len(),
                spawned == old(world)@.spawn(),
                old(world)@.first_unregistered(self@) is None,
                forall|m: int| 0 <= m < n ==> old(world)@.registered.contains(#[trigger] self@[m].kind_of()),
                world@ == spawned.attach_all(e, self@.subrange(0, j as int)),
                world@.alive == spawned.alive,
                world@.registered == spawned.registered,
            decreases n - j,
        {
            let _ = world.attach(e, self.components[j]);
            assert(self@.subrange(0, j + 1).drop_last() =~= self@.subrange(0, j as int));
            j = j + 1;
        }
        assert(self@.subrange(0, n as int) =~= self@);
        Ok(e)
    }
}

} // verus!
