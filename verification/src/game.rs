//! The game facade: the simulation context plus the stage order, with
//! the once-per-tick `update` entry point and the boundary-facing input
//! event API.

use vstd::prelude::*;

use crate::components::{
    Acceleration, AngularVelocity, Clock, Entity, Input, Player, Point, Position, Rotation, Shape,
    Vector, Velocity, SHAPE_DEPTH,
};
use crate::fixed::{fmul, iabs, in64, SCALE};
use crate::systems::{
    accel_ents, accel_fits, add_systems, angular_fits, input_camera_center,
    input_ents, linear_ents, linear_fits, particle_record, physics_ents, player_shape,
    process_input, process_physics, Scheduler, Stage,
};
use crate::world::{create_world, lemma_same_store, Command, EntityRecord, World};

verus! {

/// The whole running simulation: the world and the declared stage
/// order.
pub struct Game {
    pub world: World,
    pub scheduler: Scheduler,
}

/// The clock after one tick's advance.
pub open spec fn clock_advanced(c: Clock, raw_dt: Option<i64>) -> Clock {
    match raw_dt {
        Some(dt) => Clock {
            last_delta: Some(fmul(dt as int, c.simulation_speed as int) as i64),
            total_time: (c.total_time + fmul(dt as int, c.simulation_speed as int)) as i64,
            simulation_speed: c.simulation_speed,
        },
        None => Clock { last_delta: None, ..c },
    }
}

/// The bounds a tick must respect so that no update of the frame can
/// overflow 64 bits.
pub open spec fn tick_fits(w: World, raw_dt: Option<i64>) -> bool {
    let c2 = clock_advanced(w.clock, raw_dt);
    &&& (raw_dt matches Some(dt) ==> in64(fmul(dt as int, w.clock.simulation_speed as int)) && in64(
        w.clock.total_time + fmul(dt as int, w.clock.simulation_speed as int),
    ))
    &&& in64(w.camera.zoom_steps + w.input.mouse_scroll.dy)
    &&& iabs(w.input.mouse_position.x as int) <= 1_000_000_000_000
    &&& iabs(w.input.mouse_position.y as int) <= 1_000_000_000_000
    &&& accel_fits(input_ents(w), c2.last_delta)
    &&& linear_fits(accel_ents(input_ents(w), c2.last_delta), c2.last_delta)
    &&& angular_fits(
        linear_ents(accel_ents(input_ents(w), c2.last_delta), c2.last_delta),
        c2.last_delta,
    )
}

impl Game {
    /// A fresh game: an empty world and the fixed frame pipeline,
    /// Input-Handling, then Acceleration-Integration, then the two
    /// movement integrations.
    pub fn new() -> (g: Game)
        ensures
            g.world.wf(),
            g.world.slot_count() == 0,
            g.world.commands@.len() == 0,
            g.world.warnings@.len() == 0,
            g.world.clock.last_delta is None,
            g.world.clock.total_time == 0,
            g.world.clock.simulation_speed == SCALE,
            g.world.camera.zoom_steps == 0,
            g.world.camera.center == (Point { x: 0i64, y: 0i64 }),
            g.world.input == crate::world::idle_input(),
            g.world.player is None,
            g.scheduler.stages@ == seq![
                Stage::InputHandling,
                Stage::AccelerationIntegration,
                Stage::LinearMovementIntegration,
                Stage::AngularMovementIntegration,
            ],
    {
        let mut scheduler = Scheduler::new();
        scheduler.stages.push(Stage::InputHandling);
        scheduler.stages.push(Stage::AccelerationIntegration);
        add_systems(&mut scheduler);
        proof {
            assert(scheduler.stages@ =~= seq![
                Stage::InputHandling,
                Stage::AccelerationIntegration,
                Stage::LinearMovementIntegration,
                Stage::AngularMovementIntegration,
            ]);
        }
        Game { world: create_world(), scheduler }
    }

    /// One frame: advance the clock by the boundary-supplied wall-time
    /// delta (or none), run the stages in their declared order, then
    /// commit the deferred commands in one maintain step. A spawn
    /// queued by the input stage becomes a live entity only here, never
    /// mid-stage.
    pub fn update(&mut self, raw_dt: Option<i64>)
        requires
            old(self).world.wf(),
            tick_fits(old(self).world, raw_dt),
        ensures
            final(self).world.wf(),
            final(self).scheduler == old(self).scheduler,
            final(self).world.clock == clock_advanced(old(self).world.clock, raw_dt),
            final(self).world.commands@.len() == 0,
            final(self).world.input == old(self).world.input,
            final(self).world.player == old(self).world.player,
            final(self).world.camera.zoom_steps == old(self).world.camera.zoom_steps + old(
                self,
            ).world.input.mouse_scroll.dy,
            final(self).world.camera.center == input_camera_center(old(self).world),
            ({
                let moved = physics_ents(
                    input_ents(old(self).world),
                    clock_advanced(old(self).world.clock, raw_dt).last_delta,
                );
                if old(self).world.input.mouse_left {
                    exists|r: EntityRecord|
                        {
                            let cmds = old(self).world.commands@.push(Command::Spawn(r));
                            &&& #[trigger] particle_record(r)
                            &&& final(self).world.ents() == crate::world::apply_commands(
                                moved,
                                cmds,
                            ).0
                            &&& final(self).world.warnings@ == old(self).world.warnings@
                                + crate::world::apply_commands(moved, cmds).1
                        }
                } else {
                    &&& final(self).world.ents() == crate::world::apply_commands(
                        moved,
                        old(self).world.commands@,
                    ).0
                    &&& final(self).world.warnings@ == old(self).world.warnings@
                        + crate::world::apply_commands(moved, old(self).world.commands@).1
                }
            }),
    {
        let ghost w0 = self.world;
        self.world.clock.advance(raw_dt);
        proof {
            lemma_same_store(w0, self.world);
            assert(self.world.clock == clock_advanced(w0.clock, raw_dt));
            crate::systems::lemma_input_stage_same(w0, self.world);
        }
        process_input(&mut self.world);
        let ghost wi = self.world;
        proof {
            assert(wi.ents() == input_ents(w0));
        }
        process_physics(&mut self.world);
        let ghost wp = self.world;
        self.world.maintain();
        proof {
            assert(wp.ents() == physics_ents(input_ents(w0), clock_advanced(
                w0.clock,
                raw_dt,
            ).last_delta));
            let cmds = wp.commands@;
            if w0.input.mouse_left {
                assert(cmds.last() matches Command::Spawn(r) && particle_record(r));
                let r = cmds.last()->Spawn_0;
                assert(cmds =~= w0.commands@.push(Command::Spawn(r)));
                assert(particle_record(r) && self.world.ents() == crate::world::apply_commands(
                    wp.ents(),
                    w0.commands@.push(Command::Spawn(r)),
                ).0 && self.world.warnings@ == w0.warnings@ + crate::world::apply_commands(
                    wp.ents(),
                    w0.commands@.push(Command::Spawn(r)),
                ).1);
            } else {
                assert(cmds =~= w0.commands@);
            }
        }
    }

    /// Create the player entity at the world origin, at rest, with the
    /// fixed player silhouette, and track it.
    pub fn create_player(&mut self)
        requires
            old(self).world.wf(),
        ensures
            final(self).world.wf(),
            final(self).scheduler == old(self).scheduler,
            final(self).world.ents().len() == old(self).world.ents().len() + 1,
            exists|r: EntityRecord|
                #[trigger] player_start_record(r) && final(self).world.ents() == old(
                    self,
                ).world.ents().push(Some(r)),
            final(self).world.player == Some(
                Player(Entity { id: old(self).world.slot_count() as usize }),
            ),
            final(self).world.commands@ == old(self).world.commands@,
            final(self).world.warnings@ == old(self).world.warnings@,
            final(self).world.clock == old(self).world.clock,
            final(self).world.camera == old(self).world.camera,
            final(self).world.input == old(self).world.input,
    {
        let shape = player_shape();
        let rec = EntityRecord {
            position: Some(Position { x: 0, y: 0 }),
            rotation: Some(Rotation { angle: 0 }),
            velocity: Some(Velocity { dx: 0, dy: 0 }),
            acceleration: Some(Acceleration { dx: 0, dy: 0 }),
            angular_velocity: Some(AngularVelocity { r: 0 }),
            shape: Some(shape),
        };
        let ghost grec = rec;
        let e = self.world.spawn(rec);
        let ghost w1 = self.world;
        self.world.player = Some(Player(e));
        proof {
            lemma_same_store(w1, self.world);
            assert(player_start_record(grec) && self.world.ents() == old(
                self,
            ).world.ents().push(Some(grec)));
        }
    }

    /// Fold one boundary event into the input snapshot; nothing else in
    /// the world moves.
    pub fn handle_input_event(&mut self, e: &InputEvent)
        requires
            old(self).world.wf(),
        ensures
            final(self).world.wf(),
            final(self).scheduler == old(self).scheduler,
            final(self).world.input == input_after_event(old(self).world.input, *e),
            final(self).world.ents() == old(self).world.ents(),
            final(self).world.commands@ == old(self).world.commands@,
            final(self).world.warnings@ == old(self).world.warnings@,
            final(self).world.clock == old(self).world.clock,
            final(self).world.camera == old(self).world.camera,
            final(self).world.player == old(self).world.player,
    {
        let ghost w0 = self.world;
        match *e {
            InputEvent::MouseCursor(x, y) => {
                self.world.input.mouse_position = Point { x, y };
            },
            InputEvent::MouseScroll(x, y) => {
                self.world.input.mouse_scroll = Vector { dx: x, dy: y };
            },
            InputEvent::Press(b) => {
                match b {
                    Button::MouseLeft => self.world.input.mouse_left = true,
                    Button::KeyW => self.world.input.up = true,
                    Button::KeyS => self.world.input.down = true,
                    Button::KeyA => self.world.input.left = true,
                    Button::KeyD => self.world.input.right = true,
                    Button::Other => {},
                }
            },
            InputEvent::Release(b) => {
                match b {
                    Button::MouseLeft => self.world.input.mouse_left = false,
                    Button::KeyW => self.world.input.up = false,
                    Button::KeyS => self.world.input.down = false,
                    Button::KeyA => self.world.input.left = false,
                    Button::KeyD => self.world.input.right = false,
                    Button::Other => {},
                }
            },
        }
        proof {
            lemma_same_store(w0, self.world);
            assert(self.world.input =~= input_after_event(w0.input, *e));
        }
    }

    /// Move the pointer, as the boundary reports it, in micro-pixels.
    pub fn handle_mouse_move(&mut self, pos: Point)
        requires
            old(self).world.wf(),
        ensures
            final(self).world.wf(),
            final(self).world.input.mouse_position == pos,
            input_otherwise_same(old(self).world.input, final(self).world.input),
            final(self).world.ents() == old(self).world.ents(),
            final(self).world.commands@ == old(self).world.commands@,
            final(self).scheduler == old(self).scheduler,
    {
        let ghost w0 = self.world;
        self.world.input.mouse_position = pos;
        proof {
            lemma_same_store(w0, self.world);
        }
    }

    /// Record a click of the left mouse button.
    pub fn handle_mouse_left_click(&mut self)
        requires
            old(self).world.wf(),
        ensures
            final(self).world.wf(),
            final(self).world.input.mouse_left,
            final(self).world.input.mouse_position == old(self).world.input.mouse_position,
            final(self).world.input.mouse_scroll == old(self).world.input.mouse_scroll,
            final(self).world.ents() == old(self).world.ents(),
            final(self).world.commands@ == old(self).world.commands@,
            final(self).scheduler == old(self).scheduler,
    {
        let ghost w0 = self.world;
        self.world.input.mouse_left = true;
        proof {
            lemma_same_store(w0, self.world);
        }
    }
}

/// What the player entity is born as: at the origin, at rest, facing
/// angle zero, bearing exactly the four-part player silhouette.
pub open spec fn player_start_record(r: EntityRecord) -> bool {
    &&& r.position == Some(Position { x: 0i64, y: 0i64 })
    &&& r.rotation == Some(Rotation { angle: 0i64 })
    &&& r.velocity == Some(Velocity { dx: 0i64, dy: 0i64 })
    &&& r.acceleration == Some(Acceleration { dx: 0i64, dy: 0i64 })
    &&& r.angular_velocity == Some(AngularVelocity { r: 0i64 })
    &&& r.shape matches Some(s) && s matches Shape::Compound(subs) && subs@
        == crate::systems::player_shape_subs()
    &&& r.shape matches Some(s) && crate::components::shape_wf(s, SHAPE_DEPTH as nat)
}

/// The keys and buttons the simulation distinguishes.
#[derive(Clone, Copy, Debug, PartialEq, Eq, Structural)]
pub enum Button {
    MouseLeft,
    KeyW,
    KeyA,
    KeyS,
    KeyD,
    Other,
}

/// One event from the boundary's event loop, reduced to plain values.
#[derive(Clone, Copy, Debug)]
pub enum InputEvent {
    MouseCursor(i64, i64),
    MouseScroll(i64, i64),
    Press(Button),
    Release(Button),
}

/// The input snapshot after folding in one event.
pub open spec fn input_after_event(inp: Input, e: InputEvent) -> Input {
    match e {
        InputEvent::MouseCursor(x, y) => Input { mouse_position: Point { x, y }, ..inp },
        InputEvent::MouseScroll(x, y) => Input { mouse_scroll: Vector { dx: x, dy: y }, ..inp },
        InputEvent::Press(b) => match b {
            Button::MouseLeft => Input { mouse_left: true, ..inp },
            Button::KeyW => Input { up: true, ..inp },
            Button::KeyS => Input { down: true, ..inp },
            Button::KeyA => Input { left: true, ..inp },
            Button::KeyD => Input { right: true, ..inp },
            Button::Other => inp,
        },
        InputEvent::Release(b) => match b {
            Button::MouseLeft => Input { mouse_left: false, ..inp },
            Button::KeyW => Input { up: false, ..inp },
            Button::KeyS => Input { down: false, ..inp },
            Button::KeyA => Input { left: false, ..inp },
            Button::KeyD => Input { right: false, ..inp },
            Button::Other => inp,
        },
    }
}

/// Every field of the snapshot but the pointer position is unchanged.
pub open spec fn input_otherwise_same(a: Input, b: Input) -> bool {
    &&& b.left == a.left
    &&& b.right == a.right
    &&& b.up == a.up
    &&& b.down == a.down
    &&& b.mouse_left == a.mouse_left
    &&& b.mouse_scroll == a.mouse_scroll
}

} // verus!
