//! The component store and the per-session resources.
//!
//! Components live in parallel arenas indexed by a dense entity index,
//! one optional slot per kind. Structural mutation during a frame is
//! recorded as deferred commands and applied atomically by `maintain`,
//! so every stage of a frame sees a stable entity set.

use vstd::prelude::*;

use crate::components::{
    shape_wf, AngularVelocity, Acceleration, Camera, Clock, Entity, Input, Player, Position,
    Rotation, Shape, Vector, Velocity, SHAPE_DEPTH,
};

verus! {

/// One component value, tagged by kind.
pub enum Component {
    Position(Position),
    Rotation(Rotation),
    Velocity(Velocity),
    Acceleration(Acceleration),
    AngularVelocity(AngularVelocity),
    Shape(Shape),
}

/// The kind of a component, for lookups and joins.
#[derive(Clone, Copy, Debug, PartialEq, Eq, Structural)]
pub enum ComponentKind {
    Position,
    Rotation,
    Velocity,
    Acceleration,
    AngularVelocity,
    Shape,
}

/// The full component bundle of one entity; absent kinds are `None`.
/// Used both as a spawn request and as the abstract value of a live
/// entity.
#[derive(Debug)]
pub struct EntityRecord {
    pub position: Option<Position>,
    pub rotation: Option<Rotation>,
    pub velocity: Option<Velocity>,
    pub acceleration: Option<Acceleration>,
    pub angular_velocity: Option<AngularVelocity>,
    pub shape: Option<Shape>,
}

impl Default for EntityRecord {
    fn default() -> (r: EntityRecord)
        ensures
            r.position is None,
            r.rotation is None,
            r.velocity is None,
            r.acceleration is None,
            r.angular_velocity is None,
            r.shape is None,
    {
        EntityRecord {
            position: None,
            rotation: None,
            velocity: None,
            acceleration: None,
            angular_velocity: None,
            shape: None,
        }
    }
}

/// A deferred structural mutation, collected during a frame and applied
/// by the maintain step.
pub enum Command {
    Spawn(EntityRecord),
    Despawn(Entity),
    Insert(Entity, Component),
}

/// Every shape a record carries stays within the nesting bound.
pub open spec fn record_wf(r: EntityRecord) -> bool {
    r.shape matches Some(s) ==> shape_wf(s, SHAPE_DEPTH as nat)
}

pub open spec fn component_wf(c: Component) -> bool {
    c matches Component::Shape(s) ==> shape_wf(s, SHAPE_DEPTH as nat)
}

pub open spec fn command_wf(c: Command) -> bool {
    match c {
        Command::Spawn(r) => record_wf(r),
        Command::Despawn(_) => true,
        Command::Insert(_, comp) => component_wf(comp),
    }
}

/// The whole simulation context: the per-session resources and the
/// component arenas, with the deferred command buffer and the log of
/// inserts that were dropped because their target had been destroyed.
pub struct World {
    pub clock: Clock,
    pub camera: Camera,
    pub input: Input,
    pub player: Option<Player>,
    pub alive: Vec<bool>,
    pub positions: Vec<Option<Position>>,
    pub rotations: Vec<Option<Rotation>>,
    pub velocities: Vec<Option<Velocity>>,
    pub accelerations: Vec<Option<Acceleration>>,
    pub angular_velocities: Vec<Option<AngularVelocity>>,
    pub shapes: Vec<Option<Shape>>,
    pub commands: Vec<Command>,
    pub warnings: Vec<Entity>,
}

impl World {
    /// Number of entity slots, live or dead.
    pub open spec fn slot_count(self) -> nat {
        self.alive@.len()
    }

    /// All arenas cover the same dense index range, dead slots carry no
    /// components, and every stored shape and queued command is within
    /// the nesting bound.
    pub open spec fn wf(self) -> bool {
        &&& self.positions@.len() == self.slot_count()
        &&& self.rotations@.len() == self.slot_count()
        &&& self.velocities@.len() == self.slot_count()
        &&& self.accelerations@.len() == self.slot_count()
        &&& self.angular_velocities@.len() == self.slot_count()
        &&& self.shapes@.len() == self.slot_count()
        &&& forall|i: int|
            0 <= i < self.slot_count() && !self.alive@[i] ==> #[trigger] self.slot_record(
                i,
            ) == empty_record()
        &&& forall|i: int|
            0 <= i < self.slot_count() ==> record_wf(#[trigger] self.slot_record(i))
        &&& forall|i: int|
            0 <= i < self.commands@.len() ==> command_wf(#[trigger] self.commands@[i])
    }

    /// The component bundle sitting in slot `i`.
    pub open spec fn slot_record(self, i: int) -> EntityRecord {
        EntityRecord {
            position: self.positions@[i],
            rotation: self.rotations@[i],
            velocity: self.velocities@[i],
            acceleration: self.accelerations@[i],
            angular_velocity: self.angular_velocities@[i],
            shape: self.shapes@[i],
        }
    }

    /// The abstract entity set: one optional record per slot.
    pub open spec fn ents(self) -> Seq<Option<EntityRecord>> {
        Seq::new(self.slot_count(), |i: int|
            if self.alive@[i] {
                Some(self.slot_record(i))
            } else {
                None
            })
    }

    /// Entity `i` exists and has not been destroyed.
    pub open spec fn live(self, i: int) -> bool {
        0 <= i < self.slot_count() && self.alive@[i]
    }

    /// Entity `i` currently holds a component of kind `k`.
    pub open spec fn has_kind(self, i: int, k: ComponentKind) -> bool {
        self.live(i) && match k {
            ComponentKind::Position => self.positions@[i] is Some,
            ComponentKind::Rotation => self.rotations@[i] is Some,
            ComponentKind::Velocity => self.velocities@[i] is Some,
            ComponentKind::Acceleration => self.accelerations@[i] is Some,
            ComponentKind::AngularVelocity => self.angular_velocities@[i] is Some,
            ComponentKind::Shape => self.shapes@[i] is Some,
        }
    }

    pub open spec fn has_all(self, i: int, kinds: Seq<ComponentKind>) -> bool {
        forall|k: int| 0 <= k < kinds.len() ==> self.has_kind(i, #[trigger] kinds[k])
    }

    /// The resources and the command buffer, untouched by a store
    /// operation.
    pub open spec fn same_resources(self, other: World) -> bool {
        &&& self.clock == other.clock
        &&& self.camera == other.camera
        &&& self.input == other.input
        &&& self.player == other.player
    }
}

pub open spec fn empty_record() -> EntityRecord {
    EntityRecord {
        position: None,
        rotation: None,
        velocity: None,
        acceleration: None,
        angular_velocity: None,
        shape: None,
    }
}

/// The input snapshot before the boundary has reported anything: no
/// key or button held, the pointer at the origin, no scroll.
pub open spec fn idle_input() -> Input {
    Input {
        left: false,
        right: false,
        up: false,
        down: false,
        mouse_left: false,
        mouse_scroll: Vector { dx: 0i64, dy: 0i64 },
        mouse_position: crate::components::Point { x: 0i64, y: 0i64 },
    }
}

/// A fresh world: default resources, no entities, no pending commands.
pub fn create_world() -> (w: World)
    ensures
        w.wf(),
        w.slot_count() == 0,
        w.commands@.len() == 0,
        w.warnings@.len() == 0,
        w.clock.last_delta is None,
        w.clock.total_time == 0,
        w.clock.simulation_speed == crate::fixed::SCALE,
        w.camera.zoom_steps == 0,
        w.camera.center == (crate::components::Point { x: 0i64, y: 0i64 }),
        w.input == idle_input(),
        w.player is None,
{
    World {
        clock: Clock::default(),
        camera: Camera::default(),
        input: Input::default(),
        player: None,
        alive: Vec::new(),
        positions: Vec::new(),
        rotations: Vec::new(),
        velocities: Vec::new(),
        accelerations: Vec::new(),
        angular_velocities: Vec::new(),
        shapes: Vec::new(),
        commands: Vec::new(),
        warnings: Vec::new(),
    }
}

impl World {
    /// Create an entity immediately, outside the frame's stages, and
    /// hand back its identifier.
    pub fn spawn(&mut self, r: EntityRecord) -> (e: Entity)
        requires
            old(self).wf(),
            record_wf(r),
        ensures
            final(self).wf(),
            e.id == old(self).slot_count(),
            final(self).ents() == old(self).ents().push(Some(r)),
            final(self).live(e.id as int),
            final(self).commands@ == old(self).commands@,
            final(self).warnings@ == old(self).warnings@,
            final(self).same_resources(*old(self)),
    {
        let id = self.alive.len();
        self.alive.push(true);
        self.positions.push(r.position);
        self.rotations.push(r.rotation);
        self.velocities.push(r.velocity);
        self.accelerations.push(r.acceleration);
        self.angular_velocities.push(r.angular_velocity);
        self.shapes.push(r.shape);
        proof {
            assert forall|i: int| 0 <= i < old(self).slot_count() implies self.slot_record(i)
                == old(self).slot_record(i) by {}
            assert(self.ents() =~= old(self).ents().push(Some(r)));
        }
        Entity { id }
    }

    /// Record a spawn to be applied at this frame's maintain step.
    pub fn queue_spawn(&mut self, r: EntityRecord)
        requires
            old(self).wf(),
            record_wf(r),
        ensures
            final(self).wf(),
            final(self).commands@ == old(self).commands@.push(Command::Spawn(r)),
            final(self).ents() == old(self).ents(),
            final(self).warnings@ == old(self).warnings@,
            final(self).same_resources(*old(self)),
    {
        self.commands.push(Command::Spawn(r));
        proof {
            assert forall|i: int| 0 <= i < self.commands@.len() implies command_wf(
                #[trigger] self.commands@[i],
            ) by {
                if i < old(self).commands@.len() {
                    assert(command_wf(old(self).commands@[i]));
                }
            }
            assert forall|i: int| 0 <= i < self.slot_count() implies self.slot_record(i) == old(
                self,
            ).slot_record(i) by {}
            assert(self.ents() =~= old(self).ents());
        }
    }

    /// Record a destruction to be applied at this frame's maintain step.
    pub fn queue_despawn(&mut self, e: Entity)
        requires
            old(self).wf(),
        ensures
            final(self).wf(),
            final(self).commands@ == old(self).commands@.push(Command::Despawn(e)),
            final(self).ents() == old(self).ents(),
            final(self).warnings@ == old(self).warnings@,
            final(self).same_resources(*old(self)),
    {
        self.commands.push(Command::Despawn(e));
        proof {
            assert forall|i: int| 0 <= i < self.commands@.len() implies command_wf(
                #[trigger] self.commands@[i],
            ) by {
                if i < old(self).commands@.len() {
                    assert(command_wf(old(self).commands@[i]));
                }
            }
            assert forall|i: int| 0 <= i < self.slot_count() implies self.slot_record(i) == old(
                self,
            ).slot_record(i) by {}
            assert(self.ents() =~= old(self).ents());
        }
    }

    /// Record a component insertion to be applied at this frame's
    /// maintain step. If the target is destroyed first, the insertion is
    /// dropped with a warning, never an abort.
    pub fn queue_insert(&mut self, e: Entity, c: Component)
        requires
            old(self).wf(),
            component_wf(c),
        ensures
            final(self).wf(),
            final(self).commands@ == old(self).commands@.push(Command::Insert(e, c)),
            final(self).ents() == old(self).ents(),
            final(self).warnings@ == old(self).warnings@,
            final(self).same_resources(*old(self)),
    {
        self.commands.push(Command::Insert(e, c));
        proof {
            assert forall|i: int| 0 <= i < self.commands@.len() implies command_wf(
                #[trigger] self.commands@[i],
            ) by {
                if i < old(self).commands@.len() {
                    assert(command_wf(old(self).commands@[i]));
                }
            }
            assert forall|i: int| 0 <= i < self.slot_count() implies self.slot_record(i) == old(
                self,
            ).slot_record(i) by {}
            assert(self.ents() =~= old(self).ents());
        }
    }

    pub fn get_position(&self, e: Entity) -> (r: Option<Position>)
        requires
            self.wf(),
        ensures
            r == if self.live(e.id as int) {
                self.positions@[e.id as int]
            } else {
                None::<Position>
            },
    {
        if e.id < self.alive.len() && self.alive[e.id] {
            self.positions[e.id]
        } else {
            None
        }
    }

    pub fn get_rotation(&self, e: Entity) -> (r: Option<Rotation>)
        requires
            self.wf(),
        ensures
            r == if self.live(e.id as int) {
                self.rotations@[e.id as int]
            } else {
                None::<Rotation>
            },
    {
        if e.id < self.alive.len() && self.alive[e.id] {
            self.rotations[e.id]
        } else {
            None
        }
    }

    pub fn get_velocity(&self, e: Entity) -> (r: Option<Velocity>)
        requires
            self.wf(),
        ensures
            r == if self.live(e.id as int) {
                self.velocities@[e.id as int]
            } else {
                None::<Velocity>
            },
    {
        if e.id < self.alive.len() && self.alive[e.id] {
            self.velocities[e.id]
        } else {
            None
        }
    }

    pub fn get_acceleration(&self, e: Entity) -> (r: Option<Acceleration>)
        requires
            self.wf(),
        ensures
            r == if self.live(e.id as int) {
                self.accelerations@[e.id as int]
            } else {
                None::<Acceleration>
            },
    {
        if e.id < self.alive.len() && self.alive[e.id] {
            self.accelerations[e.id]
        } else {
            None
        }
    }

    pub fn get_angular_velocity(&self, e: Entity) -> (r: Option<AngularVelocity>)
        requires
            self.wf(),
        ensures
            r == if self.live(e.id as int) {
                self.angular_velocities@[e.id as int]
            } else {
                None::<AngularVelocity>
            },
    {
        if e.id < self.alive.len() && self.alive[e.id] {
            self.angular_velocities[e.id]
        } else {
            None
        }
    }

    pub fn get_shape(&self, e: Entity) -> (r: Option<&Shape>)
        requires
            self.wf(),
        ensures
            match r {
                Some(s) => self.live(e.id as int) && self.shapes@[e.id as int] == Some(*s),
                None => !self.live(e.id as int) || self.shapes@[e.id as int] is None,
            },
    {
        if e.id < self.alive.len() && self.alive[e.id] {
            self.shapes[e.id].as_ref()
        } else {
            None
        }
    }

    /// Replace (or add) one component of a live entity, immediately.
    /// Returns whether the entity was live; a dead target is left
    /// untouched.
    pub fn insert(&mut self, e: Entity, c: Component) -> (ok: bool)
        requires
            old(self).wf(),
            component_wf(c),
        ensures
            final(self).wf(),
            ok == old(self).live(e.id as int),
            final(self).ents() == if old(self).live(e.id as int) {
                old(self).ents().update(
                    e.id as int,
                    Some(set_component(old(self).slot_record(e.id as int), c)),
                )
            } else {
                old(self).ents()
            },
            final(self).commands@ == old(self).commands@,
            final(self).warnings@ == old(self).warnings@,
            final(self).same_resources(*old(self)),
    {
        if e.id < self.alive.len() && self.alive[e.id] {
            let ghost prev = *self;
            match c {
                Component::Position(v) => self.positions.set(e.id, Some(v)),
                Component::Rotation(v) => self.rotations.set(e.id, Some(v)),
                Component::Velocity(v) => self.velocities.set(e.id, Some(v)),
                Component::Acceleration(v) => self.accelerations.set(e.id, Some(v)),
                Component::AngularVelocity(v) => self.angular_velocities.set(e.id, Some(v)),
                Component::Shape(v) => self.shapes.set(e.id, Some(v)),
            }
            proof {
                assert(self.slot_record(e.id as int) == set_component(
                    prev.slot_record(e.id as int),
                    c,
                ));
                assert forall|i: int|
                    0 <= i < self.slot_count() && !self.alive@[i] implies #[trigger] self
                    .slot_record(i) == empty_record() by {
                    assert(prev.slot_record(i) == empty_record());
                    assert(self.slot_record(i) == prev.slot_record(i));
                }
                assert forall|i: int| 0 <= i < self.slot_count() implies record_wf(
                    #[trigger] self.slot_record(i),
                ) by {
                    assert(record_wf(prev.slot_record(i)));
                    if i != e.id as int {
                        assert(self.slot_record(i) == prev.slot_record(i));
                    }
                }
                assert(self.ents() =~= prev.ents().update(
                    e.id as int,
                    Some(set_component(prev.slot_record(e.id as int), c)),
                ));
            }
            true
        } else {
            false
        }
    }

    /// Remove one component kind from a live entity, immediately.
    pub fn remove(&mut self, e: Entity, k: ComponentKind) -> (ok: bool)
        requires
            old(self).wf(),
        ensures
            final(self).wf(),
            ok == old(self).live(e.id as int),
            final(self).ents() == if old(self).live(e.id as int) {
                old(self).ents().update(
                    e.id as int,
                    Some(clear_component(old(self).slot_record(e.id as int), k)),
                )
            } else {
                old(self).ents()
            },
            final(self).commands@ == old(self).commands@,
            final(self).warnings@ == old(self).warnings@,
            final(self).same_resources(*old(self)),
    {
        if e.id < self.alive.len() && self.alive[e.id] {
            let ghost prev = *self;
            match k {
                ComponentKind::Position => self.positions.set(e.id, None),
                ComponentKind::Rotation => self.rotations.set(e.id, None),
                ComponentKind::Velocity => self.velocities.set(e.id, None),
                ComponentKind::Acceleration => self.accelerations.set(e.id, None),
                ComponentKind::AngularVelocity => self.angular_velocities.set(e.id, None),
                ComponentKind::Shape => self.shapes.set(e.id, None),
            }
            proof {
                assert(self.slot_record(e.id as int) == clear_component(
                    prev.slot_record(e.id as int),
                    k,
                ));
                assert forall|i: int|
                    0 <= i < self.slot_count() && !self.alive@[i] implies #[trigger] self
                    .slot_record(i) == empty_record() by {
                    assert(prev.slot_record(i) == empty_record());
                    assert(self.slot_record(i) == prev.slot_record(i));
                }
                assert forall|i: int| 0 <= i < self.slot_count() implies record_wf(
                    #[trigger] self.slot_record(i),
                ) by {
                    assert(record_wf(prev.slot_record(i)));
                    if i != e.id as int {
                        assert(self.slot_record(i) == prev.slot_record(i));
                    }
                }
                assert(self.ents() =~= prev.ents().update(
                    e.id as int,
                    Some(clear_component(prev.slot_record(e.id as int), k)),
                ));
            }
            true
        } else {
            false
        }
    }
}

/// The record with one component set to the given value.
pub open spec fn set_component(r: EntityRecord, c: Component) -> EntityRecord {
    match c {
        Component::Position(v) => EntityRecord { position: Some(v), ..r },
        Component::Rotation(v) => EntityRecord { rotation: Some(v), ..r },
        Component::Velocity(v) => EntityRecord { velocity: Some(v), ..r },
        Component::Acceleration(v) => EntityRecord { acceleration: Some(v), ..r },
        Component::AngularVelocity(v) => EntityRecord { angular_velocity: Some(v), ..r },
        Component::Shape(v) => EntityRecord { shape: Some(v), ..r },
    }
}

/// The record with one component kind cleared.
pub open spec fn clear_component(r: EntityRecord, k: ComponentKind) -> EntityRecord {
    match k {
        ComponentKind::Position => EntityRecord { position: None, ..r },
        ComponentKind::Rotation => EntityRecord { rotation: None, ..r },
        ComponentKind::Velocity => EntityRecord { velocity: None, ..r },
        ComponentKind::Acceleration => EntityRecord { acceleration: None, ..r },
        ComponentKind::AngularVelocity => EntityRecord { angular_velocity: None, ..r },
        ComponentKind::Shape => EntityRecord { shape: None, ..r },
    }
}


/// Effect of one deferred command on the abstract entity set, together
/// with the targets of inserts that had to be dropped because their
/// entity was destroyed first.
pub open spec fn apply_command(
    ents: Seq<Option<EntityRecord>>,
    c: Command,
) -> (Seq<Option<EntityRecord>>, Seq<Entity>) {
    match c {
        Command::Spawn(r) => (ents.push(Some(r)), Seq::empty()),
        Command::Despawn(e) => if 0 <= e.id < ents.len() && ents[e.id as int] is Some {
            (ents.update(e.id as int, None), Seq::empty())
        } else {
            (ents, Seq::empty())
        },
        Command::Insert(e, comp) => if 0 <= e.id < ents.len() && ents[e.id as int] is Some {
            (
                ents.update(e.id as int, Some(set_component(ents[e.id as int].unwrap(), comp))),
                Seq::empty(),
            )
        } else {
            (ents, seq![e])
        },
    }
}

/// Effect of a whole command buffer, applied in order.
pub open spec fn apply_commands(
    ents: Seq<Option<EntityRecord>>,
    cmds: Seq<Command>,
) -> (Seq<Option<EntityRecord>>, Seq<Entity>)
    decreases cmds.len(),
{
    if cmds.len() == 0 {
        (ents, Seq::empty())
    } else {
        let prev = apply_commands(ents, cmds.drop_last());
        let step = apply_command(prev.0, cmds.last());
        (step.0, prev.1 + step.1)
    }
}

proof fn lemma_apply_commands_step(ents: Seq<Option<EntityRecord>>, cmds: Seq<Command>, j: int)
    requires
        0 <= j < cmds.len(),
    ensures
        apply_commands(ents, cmds.take(j + 1)).0 == apply_command(
            apply_commands(ents, cmds.take(j)).0,
            cmds[j],
        ).0,
        apply_commands(ents, cmds.take(j + 1)).1 == apply_commands(ents, cmds.take(j)).1
            + apply_command(apply_commands(ents, cmds.take(j)).0, cmds[j]).1,
{
    assert(cmds.take(j + 1).drop_last() =~= cmds.take(j));
    assert(cmds.take(j + 1).last() == cmds[j]);
    assert(cmds.take(j + 1).len() == j + 1);
}

impl World {
    /// Destroy an entity immediately, clearing its slot; a dead or
    /// unknown target is left untouched.
    fn kill(&mut self, e: Entity)
        requires
            old(self).wf(),
        ensures
            final(self).wf(),
            final(self).ents() == if old(self).live(e.id as int) {
                old(self).ents().update(e.id as int, None)
            } else {
                old(self).ents()
            },
            final(self).commands@ == old(self).commands@,
            final(self).warnings@ == old(self).warnings@,
            final(self).same_resources(*old(self)),
    {
        if e.id < self.alive.len() && self.alive[e.id] {
            let ghost prev = *self;
            self.alive.set(e.id, false);
            self.positions.set(e.id, None);
            self.rotations.set(e.id, None);
            self.velocities.set(e.id, None);
            self.accelerations.set(e.id, None);
            self.angular_velocities.set(e.id, None);
            self.shapes.set(e.id, None);
            proof {
                assert(self.slot_record(e.id as int) == empty_record());
                assert forall|i: int|
                    0 <= i < self.slot_count() && !self.alive@[i] implies #[trigger] self
                    .slot_record(i) == empty_record() by {
                    if i != e.id as int {
                        assert(prev.slot_record(i) == empty_record());
                        assert(self.slot_record(i) == prev.slot_record(i));
                    }
                }
                assert forall|i: int| 0 <= i < self.slot_count() implies record_wf(
                    #[trigger] self.slot_record(i),
                ) by {
                    assert(record_wf(prev.slot_record(i)));
                    if i != e.id as int {
                        assert(self.slot_record(i) == prev.slot_record(i));
                    }
                }
                assert(self.ents() =~= prev.ents().update(e.id as int, None));
            }
        }
    }

    /// Apply all deferred commands, in the order they were queued, in
    /// one atomic commit between frames: spawns append fresh entities,
    /// despawns clear their slot, and an insert whose target was
    /// destroyed earlier in the same buffer is dropped and logged as a
    /// warning, never an abort.
    pub fn maintain(&mut self)
        requires
            old(self).wf(),
        ensures
            final(self).wf(),
            final(self).commands@.len() == 0,
            final(self).ents() == apply_commands(old(self).ents(), old(self).commands@).0,
            final(self).warnings@ == old(self).warnings@ + apply_commands(
                old(self).ents(),
                old(self).commands@,
            ).1,
            final(self).same_resources(*old(self)),
    {
        let ghost allcmds = old(self).commands@;
        let ghost mut j: int = 0;
        proof {
            assert(allcmds.take(0) =~= Seq::<Command>::empty());
        }
        while self.commands.len() > 0
            invariant
                self.wf(),
                0 <= j <= allcmds.len(),
                self.commands@ == allcmds.skip(j),
                self.ents() == apply_commands(old(self).ents(), allcmds.take(j)).0,
                self.warnings@ == old(self).warnings@ + apply_commands(
                    old(self).ents(),
                    allcmds.take(j),
                ).1,
                self.same_resources(*old(self)),
            decreases self.commands@.len(),
        {
            let ghost mid = *self;
            let c = self.commands.remove(0);
            proof {
                assert(c == allcmds[j]);
                assert(command_wf(mid.commands@[0]));
                assert(self.commands@ =~= allcmds.skip(j + 1));
                assert forall|i: int| 0 <= i < self.commands@.len() implies command_wf(
                    #[trigger] self.commands@[i],
                ) by {
                    assert(command_wf(mid.commands@[i + 1]));
                }
                assert forall|i: int|
                    0 <= i < self.slot_count() && !self.alive@[i] implies #[trigger] self
                    .slot_record(i) == empty_record() by {
                    assert(mid.slot_record(i) == empty_record());
                    assert(self.slot_record(i) == mid.slot_record(i));
                }
                assert forall|i: int| 0 <= i < self.slot_count() implies record_wf(
                    #[trigger] self.slot_record(i),
                ) by {
                    assert(record_wf(mid.slot_record(i)));
                    assert(self.slot_record(i) == mid.slot_record(i));
                }
                assert(self.wf());
                assert(self.ents() =~= mid.ents());
                lemma_apply_commands_step(old(self).ents(), allcmds, j);
            }
            let ghost before = *self;
            match c {
                Command::Spawn(r) => {
                    self.spawn(r);
                },
                Command::Despawn(e) => {
                    self.kill(e);
                    proof {
                        assert(before.live(e.id as int) <==> (0 <= e.id < before.ents().len()
                            && before.ents()[e.id as int] is Some));
                    }
                },
                Command::Insert(e, comp) => {
                    let ghost target = e;
                    if e.id < self.alive.len() && self.alive[e.id] {
                        proof {
                            assert(before.ents()[e.id as int].unwrap() == before.slot_record(
                                e.id as int,
                            ));
                        }
                        self.insert(e, comp);
                    } else {
                        self.warnings.push(e);
                        proof {
                            assert forall|i: int|
                                0 <= i < self.slot_count() && !self.alive@[i] implies #[trigger] self
                                .slot_record(i) == empty_record() by {
                                assert(before.slot_record(i) == empty_record());
                                assert(self.slot_record(i) == before.slot_record(i));
                            }
                            assert forall|i: int| 0 <= i < self.slot_count() implies record_wf(
                                #[trigger] self.slot_record(i),
                            ) by {
                                assert(record_wf(before.slot_record(i)));
                                assert(self.slot_record(i) == before.slot_record(i));
                            }
                            assert forall|i: int|
                                0 <= i < self.commands@.len() implies command_wf(
                                #[trigger] self.commands@[i],
                            ) by {
                                assert(command_wf(before.commands@[i]));
                            }
                            assert(self.wf());
                            assert(!(0 <= e.id < before.ents().len() && before.ents()[e.id as int]
                                is Some));
                            assert(self.ents() =~= before.ents());
                            assert(self.warnings@ =~= old(self).warnings@ + apply_commands(
                                old(self).ents(),
                                allcmds.take(j + 1),
                            ).1);
                        }
                    }
                },
            }
            proof {
                j = j + 1;
                assert(self.warnings@ =~= old(self).warnings@ + apply_commands(
                    old(self).ents(),
                    allcmds.take(j),
                ).1);
            }
        }
        proof {
            assert(allcmds.take(j) =~= allcmds);
        }
    }
}

/// The entities among the first `n` slots that are live and hold every
/// kind in `kinds`, in ascending identifier order.
pub open spec fn join_upto(w: World, kinds: Seq<ComponentKind>, n: int) -> Seq<Entity>
    decreases n,
{
    if n <= 0 {
        Seq::empty()
    } else {
        let prefix = join_upto(w, kinds, n - 1);
        if w.live(n - 1) && w.has_all(n - 1, kinds) {
            prefix.push(Entity { id: (n - 1) as usize })
        } else {
            prefix
        }
    }
}

impl World {
    fn has_kind_exec(&self, i: usize, k: ComponentKind) -> (b: bool)
        requires
            self.wf(),
            i < self.slot_count(),
            self.alive@[i as int],
        ensures
            b == self.has_kind(i as int, k),
    {
        match k {
            ComponentKind::Position => self.positions[i].is_some(),
            ComponentKind::Rotation => self.rotations[i].is_some(),
            ComponentKind::Velocity => self.velocities[i].is_some(),
            ComponentKind::Acceleration => self.accelerations[i].is_some(),
            ComponentKind::AngularVelocity => self.angular_velocities[i].is_some(),
            ComponentKind::Shape => self.shapes[i].is_some(),
        }
    }

    /// The iteration-by-intersection primitive: the entities holding
    /// every requested component kind, in a stable (ascending) order.
    pub fn join(&self, kinds: &Vec<ComponentKind>) -> (r: Vec<Entity>)
        requires
            self.wf(),
        ensures
            r@ == join_upto(*self, kinds@, self.slot_count() as int),
    {
        let mut r: Vec<Entity> = Vec::new();
        let n = self.alive.len();
        let mut i: usize = 0;
        while i < n
            invariant
                self.wf(),
                n == self.slot_count(),
                0 <= i <= n,
                r@ == join_upto(*self, kinds@, i as int),
            decreases n - i,
        {
            if self.alive[i] {
                let mut all: bool = true;
                let mut k: usize = 0;
                while k < kinds.len()
                    invariant
                        self.wf(),
                        i < self.slot_count(),
                        self.alive@[i as int],
                        0 <= k <= kinds@.len(),
                        all == forall|m: int|
                            0 <= m < k ==> self.has_kind(i as int, #[trigger] kinds@[m]),
                    decreases kinds@.len() - k,
                {
                    if !self.has_kind_exec(i, kinds[k]) {
                        all = false;
                    }
                    k = k + 1;
                }
                if all {
                    r.push(Entity { id: i });
                    proof {
                        assert(self.has_all(i as int, kinds@));
                    }
                } else {
                    proof {
                        assert(!self.has_all(i as int, kinds@));
                    }
                }
            }
            i = i + 1;
        }
        r
    }
}



/// Two worlds with the same arenas and the same command buffer have
/// the same entity set, and well-formedness carries over: the per-frame
/// resources (clock, camera, input, player) and the warning log play no
/// part in either.
pub proof fn lemma_same_store(a: World, b: World)
    requires
        b.alive@ == a.alive@,
        b.positions@ == a.positions@,
        b.rotations@ == a.rotations@,
        b.velocities@ == a.velocities@,
        b.accelerations@ == a.accelerations@,
        b.angular_velocities@ == a.angular_velocities@,
        b.shapes@ == a.shapes@,
        b.commands@ == a.commands@,
        a.wf(),
    ensures
        b.wf(),
        b.ents() == a.ents(),
{
    assert forall|i: int|
        0 <= i < b.slot_count() && !b.alive@[i] implies #[trigger] b.slot_record(i)
        == empty_record() by {
        assert(a.slot_record(i) == empty_record());
        assert(b.slot_record(i) == a.slot_record(i));
    }
    assert forall|i: int| 0 <= i < b.slot_count() implies record_wf(#[trigger] b.slot_record(i)) by {
        assert(record_wf(a.slot_record(i)));
        assert(b.slot_record(i) == a.slot_record(i));
    }
    assert forall|i: int| 0 <= i < b.commands@.len() implies command_wf(
        #[trigger] b.commands@[i],
    ) by {
        assert(command_wf(a.commands@[i]));
    }
    assert forall|i: int| 0 <= i < b.slot_count() implies b.ents()[i] == a.ents()[i] by {
        assert(b.slot_record(i) == a.slot_record(i));
    }
    assert(b.ents() =~= a.ents());
}

} // verus!
