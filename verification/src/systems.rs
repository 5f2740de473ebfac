//! The per-frame update stages and their scheduler.
//!
//! Each integration stage is a pure map over the entity set: it reads
//! one rate component and writes one target component, using the
//! clock's current delta, and skips the frame entirely when no time
//! passed. The stage order is fixed and load-bearing: acceleration must
//! integrate into velocity strictly before velocity integrates into
//! position within the same frame.

use vstd::prelude::*;

use crate::components::{
    keyboard_direction_spec, shape_wf, Acceleration, AngularVelocity, Input, Point, Position,
    Rotation, Shape, SubShape, Vector, Velocity, SHAPE_DEPTH,
};
use crate::consts::{
    BASE_ACC, MAX_PARTICLE_ANG_M, MAX_PARTICLE_V_M, SHAPE_SIZE_M, WINDOW_HALF_H_M, WINDOW_HALF_W_M,
};
use crate::fixed::{fmul, iabs, in64, SCALE};
use crate::trig::{atan2_approx, atan2_fixed, HALF_PI_M};
use crate::world::{
    lemma_same_store, record_wf, Command, Component, EntityRecord, World,
};

verus! {

/// One stage of the fixed frame pipeline.
#[derive(Clone, Copy, Debug, PartialEq, Eq, Structural)]
pub enum Stage {
    InputHandling,
    AccelerationIntegration,
    LinearMovementIntegration,
    AngularMovementIntegration,
}

/// The ordered list of stages run once per frame. The order is declared
/// explicitly, never inferred.
pub struct Scheduler {
    pub stages: Vec<Stage>,
}

impl Scheduler {
    pub fn new() -> (s: Scheduler)
        ensures
            s.stages@ == Seq::<Stage>::empty(),
    {
        Scheduler { stages: Vec::new() }
    }
}

/// Register the movement stages, in their load-bearing order: linear
/// movement first, angular movement after it.
pub fn add_systems(dispatcher_builder: &mut Scheduler)
    ensures
        final(dispatcher_builder).stages@ == old(dispatcher_builder).stages@.push(
            Stage::LinearMovementIntegration,
        ).push(Stage::AngularMovementIntegration),
{
    dispatcher_builder.stages.push(Stage::LinearMovementIntegration);
    dispatcher_builder.stages.push(Stage::AngularMovementIntegration);
}

/// Velocity after one acceleration step: `v + a * dt` on each axis,
/// untouched when either component is absent or no time passed.
pub open spec fn accel_step_rec(r: EntityRecord, dopt: Option<i64>) -> EntityRecord {
    match (r.velocity, r.acceleration, dopt) {
        (Some(v), Some(a), Some(d)) => EntityRecord {
            velocity: Some(
                Velocity {
                    dx: (v.dx + fmul(a.dx as int, d as int)) as i64,
                    dy: (v.dy + fmul(a.dy as int, d as int)) as i64,
                },
            ),
            ..r
        },
        _ => r,
    }
}

/// Position after one velocity step: `p + v * dt` on each axis.
pub open spec fn linear_step_rec(r: EntityRecord, dopt: Option<i64>) -> EntityRecord {
    match (r.position, r.velocity, dopt) {
        (Some(p), Some(v), Some(d)) => EntityRecord {
            position: Some(
                Position {
                    x: (p.x + fmul(v.dx as int, d as int)) as i64,
                    y: (p.y + fmul(v.dy as int, d as int)) as i64,
                },
            ),
            ..r
        },
        _ => r,
    }
}

/// Rotation after one angular step: `angle + omega * dt`.
pub open spec fn angular_step_rec(r: EntityRecord, dopt: Option<i64>) -> EntityRecord {
    match (r.rotation, r.angular_velocity, dopt) {
        (Some(rot), Some(av), Some(d)) => EntityRecord {
            rotation: Some(Rotation { angle: (rot.angle + fmul(av.r as int, d as int)) as i64 }),
            ..r
        },
        _ => r,
    }
}

pub open spec fn step_ents(
    ents: Seq<Option<EntityRecord>>,
    dopt: Option<i64>,
    step: spec_fn(EntityRecord, Option<i64>) -> EntityRecord,
) -> Seq<Option<EntityRecord>> {
    ents.map_values(
        |e: Option<EntityRecord>|
            match e {
                Some(r) => Some(step(r, dopt)),
                None => None,
            },
    )
}

pub open spec fn accel_ents(ents: Seq<Option<EntityRecord>>, dopt: Option<i64>) -> Seq<
    Option<EntityRecord>,
> {
    step_ents(ents, dopt, |r: EntityRecord, d: Option<i64>| accel_step_rec(r, d))
}

pub open spec fn linear_ents(ents: Seq<Option<EntityRecord>>, dopt: Option<i64>) -> Seq<
    Option<EntityRecord>,
> {
    step_ents(ents, dopt, |r: EntityRecord, d: Option<i64>| linear_step_rec(r, d))
}

pub open spec fn angular_ents(ents: Seq<Option<EntityRecord>>, dopt: Option<i64>) -> Seq<
    Option<EntityRecord>,
> {
    step_ents(ents, dopt, |r: EntityRecord, d: Option<i64>| angular_step_rec(r, d))
}

/// One whole physics frame over the entity set: acceleration into
/// velocity, then velocity into position, then angular velocity into
/// rotation.
pub open spec fn physics_ents(ents: Seq<Option<EntityRecord>>, dopt: Option<i64>) -> Seq<
    Option<EntityRecord>,
> {
    angular_ents(linear_ents(accel_ents(ents, dopt), dopt), dopt)
}

/// Every acceleration step of the frame stays within 64 bits.
pub open spec fn accel_fits(ents: Seq<Option<EntityRecord>>, dopt: Option<i64>) -> bool {
    forall|i: int|
        0 <= i < ents.len() ==> match (#[trigger] ents[i], dopt) {
            (Some(r), Some(d)) => match (r.velocity, r.acceleration) {
                (Some(v), Some(a)) => in64(fmul(a.dx as int, d as int)) && in64(
                    fmul(a.dy as int, d as int),
                ) && in64(v.dx + fmul(a.dx as int, d as int)) && in64(
                    v.dy + fmul(a.dy as int, d as int),
                ),
                _ => true,
            },
            _ => true,
        }
}

/// Every linear movement step of the frame stays within 64 bits.
pub open spec fn linear_fits(ents: Seq<Option<EntityRecord>>, dopt: Option<i64>) -> bool {
    forall|i: int|
        0 <= i < ents.len() ==> match (#[trigger] ents[i], dopt) {
            (Some(r), Some(d)) => match (r.position, r.velocity) {
                (Some(p), Some(v)) => in64(fmul(v.dx as int, d as int)) && in64(
                    fmul(v.dy as int, d as int),
                ) && in64(p.x + fmul(v.dx as int, d as int)) && in64(
                    p.y + fmul(v.dy as int, d as int),
                ),
                _ => true,
            },
            _ => true,
        }
}

/// Every angular movement step of the frame stays within 64 bits.
pub open spec fn angular_fits(ents: Seq<Option<EntityRecord>>, dopt: Option<i64>) -> bool {
    forall|i: int|
        0 <= i < ents.len() ==> match (#[trigger] ents[i], dopt) {
            (Some(r), Some(d)) => match (r.rotation, r.angular_velocity) {
                (Some(rot), Some(av)) => in64(fmul(av.r as int, d as int)) && in64(
                    rot.angle + fmul(av.r as int, d as int),
                ),
                _ => true,
            },
            _ => true,
        }
}

/// Acceleration-Integration: for every entity with both Velocity and
/// Acceleration, `velocity' = velocity + acceleration * dt` exactly;
/// skipped entirely when the clock reports no delta.
pub fn integrate_acceleration(w: &mut World)
    requires
        old(w).wf(),
        accel_fits(old(w).ents(), old(w).clock.last_delta),
    ensures
        final(w).wf(),
        final(w).ents() == accel_ents(old(w).ents(), old(w).clock.last_delta),
        final(w).commands@ == old(w).commands@,
        final(w).warnings@ == old(w).warnings@,
        final(w).same_resources(*old(w)),
{
    let dopt = w.clock.dt();
    match dopt {
        None => {
            proof {
                assert(w.ents() =~= accel_ents(w.ents(), w.clock.last_delta));
            }
        },
        Some(d) => {
            let ghost orig = *w;
            let n = w.alive.len();
            let mut i: usize = 0;
            while i < n
                invariant
                    orig.wf(),
                    accel_fits(orig.ents(), orig.clock.last_delta),
                    orig.clock.last_delta == Some(d),
                    n == orig.slot_count(),
                    0 <= i <= n,
                    w.alive@ == orig.alive@,
                    w.positions@ == orig.positions@,
                    w.rotations@ == orig.rotations@,
                    w.accelerations@ == orig.accelerations@,
                    w.angular_velocities@ == orig.angular_velocities@,
                    w.shapes@ == orig.shapes@,
                    w.commands@ == orig.commands@,
                    w.warnings@ == orig.warnings@,
                    w.clock == orig.clock,
                    w.camera == orig.camera,
                    w.input == orig.input,
                    w.player == orig.player,
                    w.velocities@.len() == n,
                    forall|k: int|
                        0 <= k < i ==> #[trigger] w.velocities@[k] == accel_step_rec(
                            orig.slot_record(k),
                            Some(d),
                        ).velocity,
                    forall|k: int| i <= k < n ==> #[trigger] w.velocities@[k]
                        == orig.velocities@[k],
                decreases n - i,
            {
                proof {
                    assert(orig.ents()[i as int] == if orig.alive@[i as int] {
                        Some(orig.slot_record(i as int))
                    } else {
                        None::<EntityRecord>
                    });
                }
                let v_opt = w.velocities[i];
                let a_opt = w.accelerations[i];
                match (v_opt, a_opt) {
                    (Some(v), Some(a)) => {
                        proof {
                            assert(orig.alive@[i as int]) by {
                                if !orig.alive@[i as int] {
                                    assert(orig.slot_record(i as int) == crate::world::empty_record());
                                }
                            }
                        }
                        let ndx = v.dx + crate::fixed::fmul64(a.dx, d);
                        let ndy = v.dy + crate::fixed::fmul64(a.dy, d);
                        w.velocities.set(i, Some(Velocity { dx: ndx, dy: ndy }));
                    },
                    _ => {},
                }
                i = i + 1;
            }
            proof {
                assert forall|k: int|
                    0 <= k < n && !w.alive@[k] implies #[trigger] w.slot_record(k)
                    == crate::world::empty_record() by {
                    assert(orig.slot_record(k) == crate::world::empty_record());
                    assert(accel_step_rec(orig.slot_record(k), Some(d)).velocity
                        == orig.slot_record(k).velocity);
                }
                assert forall|k: int| 0 <= k < n implies crate::world::record_wf(
                    #[trigger] w.slot_record(k),
                ) by {
                    assert(crate::world::record_wf(orig.slot_record(k)));
                }
                assert(w.wf());
                assert forall|k: int| 0 <= k < n implies w.ents()[k] == accel_ents(
                    orig.ents(),
                    Some(d),
                )[k] by {
                    if w.alive@[k] {
                        assert(w.slot_record(k) == accel_step_rec(orig.slot_record(k), Some(d)));
                    }
                }
                assert(w.ents() =~= accel_ents(orig.ents(), Some(d)));
            }
        },
    }
}

/// Linear-Movement-Integration: for every entity with both Position and
/// Velocity, `position' = position + velocity * dt` exactly; skipped
/// entirely when the clock reports no delta.
pub fn integrate_linear_movement(w: &mut World)
    requires
        old(w).wf(),
        linear_fits(old(w).ents(), old(w).clock.last_delta),
    ensures
        final(w).wf(),
        final(w).ents() == linear_ents(old(w).ents(), old(w).clock.last_delta),
        final(w).commands@ == old(w).commands@,
        final(w).warnings@ == old(w).warnings@,
        final(w).same_resources(*old(w)),
{
    let dopt = w.clock.dt();
    match dopt {
        None => {
            proof {
                assert(w.ents() =~= linear_ents(w.ents(), w.clock.last_delta));
            }
        },
        Some(d) => {
            let ghost orig = *w;
            let n = w.alive.len();
            let mut i: usize = 0;
            while i < n
                invariant
                    orig.wf(),
                    linear_fits(orig.ents(), orig.clock.last_delta),
                    orig.clock.last_delta == Some(d),
                    n == orig.slot_count(),
                    0 <= i <= n,
                    w.alive@ == orig.alive@,
                    w.velocities@ == orig.velocities@,
                    w.rotations@ == orig.rotations@,
                    w.accelerations@ == orig.accelerations@,
                    w.angular_velocities@ == orig.angular_velocities@,
                    w.shapes@ == orig.shapes@,
                    w.commands@ == orig.commands@,
                    w.warnings@ == orig.warnings@,
                    w.clock == orig.clock,
                    w.camera == orig.camera,
                    w.input == orig.input,
                    w.player == orig.player,
                    w.positions@.len() == n,
                    forall|k: int|
                        0 <= k < i ==> #[trigger] w.positions@[k] == linear_step_rec(
                            orig.slot_record(k),
                            Some(d),
                        ).position,
                    forall|k: int| i <= k < n ==> #[trigger] w.positions@[k]
                        == orig.positions@[k],
                decreases n - i,
            {
                proof {
                    assert(orig.ents()[i as int] == if orig.alive@[i as int] {
                        Some(orig.slot_record(i as int))
                    } else {
                        None::<EntityRecord>
                    });
                }
                let p_opt = w.positions[i];
                let v_opt = w.velocities[i];
                match (p_opt, v_opt) {
                    (Some(p), Some(v)) => {
                        proof {
                            assert(orig.alive@[i as int]) by {
                                if !orig.alive@[i as int] {
                                    assert(orig.slot_record(i as int) == crate::world::empty_record());
                                }
                            }
                        }
                        let nx = p.x + crate::fixed::fmul64(v.dx, d);
                        let ny = p.y + crate::fixed::fmul64(v.dy, d);
                        w.positions.set(i, Some(Position { x: nx, y: ny }));
                    },
                    _ => {},
                }
                i = i + 1;
            }
            proof {
                assert forall|k: int|
                    0 <= k < n && !w.alive@[k] implies #[trigger] w.slot_record(k)
                    == crate::world::empty_record() by {
                    assert(orig.slot_record(k) == crate::world::empty_record());
                }
                assert forall|k: int| 0 <= k < n implies crate::world::record_wf(
                    #[trigger] w.slot_record(k),
                ) by {
                    assert(crate::world::record_wf(orig.slot_record(k)));
                }
                assert(w.wf());
                assert forall|k: int| 0 <= k < n implies w.ents()[k] == linear_ents(
                    orig.ents(),
                    Some(d),
                )[k] by {
                    if w.alive@[k] {
                        assert(w.slot_record(k) == linear_step_rec(orig.slot_record(k), Some(d)));
                    }
                }
                assert(w.ents() =~= linear_ents(orig.ents(), Some(d)));
            }
        },
    }
}

/// Angular-Movement-Integration: for every entity with both Rotation and
/// AngularVelocity, `rotation' = rotation + angular_velocity * dt`
/// exactly; skipped entirely when the clock reports no delta.
pub fn integrate_angular_movement(w: &mut World)
    requires
        old(w).wf(),
        angular_fits(old(w).ents(), old(w).clock.last_delta),
    ensures
        final(w).wf(),
        final(w).ents() == angular_ents(old(w).ents(), old(w).clock.last_delta),
        final(w).commands@ == old(w).commands@,
        final(w).warnings@ == old(w).warnings@,
        final(w).same_resources(*old(w)),
{
    let dopt = w.clock.dt();
    match dopt {
        None => {
            proof {
                assert(w.ents() =~= angular_ents(w.ents(), w.clock.last_delta));
            }
        },
        Some(d) => {
            let ghost orig = *w;
            let n = w.alive.len();
            let mut i: usize = 0;
            while i < n
                invariant
                    orig.wf(),
                    angular_fits(orig.ents(), orig.clock.last_delta),
                    orig.clock.last_delta == Some(d),
                    n == orig.slot_count(),
                    0 <= i <= n,
                    w.alive@ == orig.alive@,
                    w.velocities@ == orig.velocities@,
                    w.positions@ == orig.positions@,
                    w.accelerations@ == orig.accelerations@,
                    w.angular_velocities@ == orig.angular_velocities@,
                    w.shapes@ == orig.shapes@,
                    w.commands@ == orig.commands@,
                    w.warnings@ == orig.warnings@,
                    w.clock == orig.clock,
                    w.camera == orig.camera,
                    w.input == orig.input,
                    w.player == orig.player,
                    w.rotations@.len() == n,
                    forall|k: int|
                        0 <= k < i ==> #[trigger] w.rotations@[k] == angular_step_rec(
                            orig.slot_record(k),
                            Some(d),
                        ).rotation,
                    forall|k: int| i <= k < n ==> #[trigger] w.rotations@[k]
                        == orig.rotations@[k],
                decreases n - i,
            {
                proof {
                    assert(orig.ents()[i as int] == if orig.alive@[i as int] {
                        Some(orig.slot_record(i as int))
                    } else {
                        None::<EntityRecord>
                    });
                }
                let r_opt = w.rotations[i];
                let av_opt = w.angular_velocities[i];
                match (r_opt, av_opt) {
                    (Some(rot), Some(av)) => {
                        proof {
                            assert(orig.alive@[i as int]) by {
                                if !orig.alive@[i as int] {
                                    assert(orig.slot_record(i as int) == crate::world::empty_record());
                                }
                            }
                        }
                        let na = rot.angle + crate::fixed::fmul64(av.r, d);
                        w.rotations.set(i, Some(Rotation { angle: na }));
                    },
                    _ => {},
                }
                i = i + 1;
            }
            proof {
                assert forall|k: int|
                    0 <= k < n && !w.alive@[k] implies #[trigger] w.slot_record(k)
                    == crate::world::empty_record() by {
                    assert(orig.slot_record(k) == crate::world::empty_record());
                }
                assert forall|k: int| 0 <= k < n implies crate::world::record_wf(
                    #[trigger] w.slot_record(k),
                ) by {
                    assert(crate::world::record_wf(orig.slot_record(k)));
                }
                assert(w.wf());
                assert forall|k: int| 0 <= k < n implies w.ents()[k] == angular_ents(
                    orig.ents(),
                    Some(d),
                )[k] by {
                    if w.alive@[k] {
                        assert(w.slot_record(k) == angular_step_rec(orig.slot_record(k), Some(d)));
                    }
                }
                assert(w.ents() =~= angular_ents(orig.ents(), Some(d)));
            }
        },
    }
}

/// One whole physics frame, in the load-bearing order: acceleration
/// into velocity first, so that the position update of the same frame
/// uses the post-acceleration velocity, then velocity into position,
/// then angular velocity into rotation.
pub fn process_physics(w: &mut World)
    requires
        old(w).wf(),
        accel_fits(old(w).ents(), old(w).clock.last_delta),
        linear_fits(accel_ents(old(w).ents(), old(w).clock.last_delta), old(w).clock.last_delta),
        angular_fits(
            linear_ents(accel_ents(old(w).ents(), old(w).clock.last_delta), old(w).clock.last_delta),
            old(w).clock.last_delta,
        ),
    ensures
        final(w).wf(),
        final(w).ents() == physics_ents(old(w).ents(), old(w).clock.last_delta),
        final(w).commands@ == old(w).commands@,
        final(w).warnings@ == old(w).warnings@,
        final(w).same_resources(*old(w)),
{
    integrate_acceleration(w);
    integrate_linear_movement(w);
    integrate_angular_movement(w);
}

/// The no-delta law: advancing the clock without a delta leaves the
/// total time unchanged and reports no delta, and a physics frame
/// without a delta moves nothing: every entity of the set, and so
/// every position, rotation and velocity, is exactly as it was.
pub proof fn lemma_no_delta_no_movement(ents: Seq<Option<EntityRecord>>)
    ensures
        physics_ents(ents, None) == ents,
        accel_ents(ents, None) == ents,
        linear_ents(ents, None) == ents,
        angular_ents(ents, None) == ents,
{
    assert(accel_ents(ents, None) =~= ents);
    assert(linear_ents(ents, None) =~= ents);
    assert(angular_ents(ents, None) =~= ents);
    assert(physics_ents(ents, None) =~= ents);
}

/// The ordering law of a frame: an entity carrying position, velocity
/// and acceleration has its position advanced with the
/// post-acceleration velocity `v + a * dt`, never with the stale
/// pre-frame velocity.
pub proof fn lemma_position_uses_fresh_velocity(r: EntityRecord, d: i64)
    requires
        r.position matches Some(p),
        r.velocity matches Some(v),
        r.acceleration matches Some(a),
        in64(r.velocity.unwrap().dx + fmul(r.acceleration.unwrap().dx as int, d as int)),
        in64(r.velocity.unwrap().dy + fmul(r.acceleration.unwrap().dy as int, d as int)),
    ensures
        linear_step_rec(accel_step_rec(r, Some(d)), Some(d)).position == Some(
            Position {
                x: (r.position.unwrap().x + fmul(
                    r.velocity.unwrap().dx + fmul(r.acceleration.unwrap().dx as int, d as int),
                    d as int,
                )) as i64,
                y: (r.position.unwrap().y + fmul(
                    r.velocity.unwrap().dy + fmul(r.acceleration.unwrap().dy as int, d as int),
                    d as int,
                )) as i64,
            },
        ),
{
}


/// Relies on rand::random: an independently drawn 64-bit word; nothing
/// is promised of the value. The thread-local generator's first
/// seeding aborts if the operating system's entropy source fails, an
/// environmental fault of the same kind as allocation failure.
#[verifier::external_body]
fn random_u64() -> u64 {
    rand::random::<u64>()
}

/// Map a random word onto an inclusive range: the word taken modulo
/// the range's width, offset from the lower bound.
pub fn random_range(r: u64, lo: i64, hi: i64) -> (v: i64)
    requires
        lo <= hi,
    ensures
        v == lo + ((r as int) % (hi - lo + 1)),
        lo <= v <= hi,
{
    let width: u128 = ((hi as i128) - (lo as i128) + 1) as u128;
    let off: u128 = (r as u128) % width;
    proof {
        assert(width as int == hi - lo + 1);
        assert(off as int == (r as int) % (hi - lo + 1));
    }
    ((lo as i128) + (off as i128)) as i64
}

/// A shape within some nesting bound stays within every larger bound.
pub proof fn lemma_shape_wf_widen(s: Shape, d1: nat, d2: nat)
    requires
        shape_wf(s, d1),
        d1 <= d2,
    ensures
        shape_wf(s, d2),
    decreases d1,
{
    match s {
        Shape::Compound(subs) => {
            assert forall|i: int| 0 <= i < subs@.len() implies shape_wf(
                #[trigger] subs@[i].shape,
                (d2 - 1) as nat,
            ) by {
                assert(shape_wf(subs@[i].shape, (d1 - 1) as nat));
                lemma_shape_wf_widen(subs@[i].shape, (d1 - 1) as nat, (d2 - 1) as nat);
            }
        },
        _ => {},
    }
}

/// The closed support of `random_shape`: a circle of half the authored
/// size, a square or sprite tile of the authored size, or, while the
/// depth budget lasts, a compound of exactly three children, each
/// offset by at most three quarters of the authored size per axis,
/// rotated within a half turn, and drawn from the same support.
pub open spec fn generated_shape(s: Shape, depth: nat) -> bool
    decreases depth,
{
    match s {
        Shape::Circle(r) => r == SHAPE_SIZE_M / 2,
        Shape::Rectangle(v) => v == (Vector { dx: SHAPE_SIZE_M, dy: SHAPE_SIZE_M }),
        Shape::Sprite(_, v) => v == (Vector { dx: SHAPE_SIZE_M, dy: SHAPE_SIZE_M }),
        Shape::Compound(subs) => {
            &&& depth > 0
            &&& subs@.len() == 3
            &&& forall|i: int|
                0 <= i < subs@.len() ==> {
                    let sub = #[trigger] subs@[i];
                    &&& -(SHAPE_SIZE_M / 4 * 3) <= sub.offset.dx <= SHAPE_SIZE_M / 4 * 3
                    &&& -(SHAPE_SIZE_M / 4 * 3) <= sub.offset.dy <= SHAPE_SIZE_M / 4 * 3
                    &&& 0 <= sub.rotation <= MAX_PARTICLE_ANG_M
                    &&& generated_shape(sub.shape, (depth - 1) as nat)
                }
        },
    }
}

/// Draw one random shape variant: a circle, a rectangle, a named
/// sprite tile, or, while the depth budget lasts, a compound of three
/// randomly placed children.
pub fn random_shape(depth: u64) -> (s: Shape)
    ensures
        generated_shape(s, depth as nat),
        shape_wf(s, (depth + 1) as nat),
    decreases depth,
{
    proof {
        assert((SHAPE_SIZE_M as int) / 2int == 500_000int) by (nonlinear_arith);
        assert((SHAPE_SIZE_M as int) / 4int == 250_000int) by (nonlinear_arith);
    }
    let r = random_u64();
    let pick_leaf = r % 4;
    if pick_leaf == 0 {
        Shape::Circle(SHAPE_SIZE_M / 2)
    } else if pick_leaf == 1 {
        Shape::Rectangle(Vector { dx: SHAPE_SIZE_M, dy: SHAPE_SIZE_M })
    } else if pick_leaf == 2 {
        Shape::Sprite("sprite".to_string(), Vector { dx: SHAPE_SIZE_M, dy: SHAPE_SIZE_M })
    } else if depth == 0 {
        Shape::Circle(SHAPE_SIZE_M / 2)
    } else {
        let mut subshapes: Vec<SubShape> = Vec::new();
        let mut k: usize = 0;
        while k < 3
            invariant
                depth >= 1,
                0 <= k <= 3,
                subshapes@.len() == k,
                forall|i: int|
                    0 <= i < subshapes@.len() ==> shape_wf(
                        #[trigger] subshapes@[i].shape,
                        depth as nat,
                    ),
                forall|i: int|
                    0 <= i < subshapes@.len() ==> {
                        let sub = #[trigger] subshapes@[i];
                        &&& -(SHAPE_SIZE_M / 4 * 3) <= sub.offset.dx <= SHAPE_SIZE_M / 4 * 3
                        &&& -(SHAPE_SIZE_M / 4 * 3) <= sub.offset.dy <= SHAPE_SIZE_M / 4 * 3
                        &&& 0 <= sub.rotation <= MAX_PARTICLE_ANG_M
                        &&& generated_shape(sub.shape, (depth - 1) as nat)
                    },
            decreases 3 - k,
        {
            let off_limit: i64 = SHAPE_SIZE_M / 4 * 3;
            let sub = SubShape {
                offset: Vector {
                    dx: random_range(random_u64(), -off_limit, off_limit),
                    dy: random_range(random_u64(), -off_limit, off_limit),
                },
                rotation: random_range(random_u64(), 0, MAX_PARTICLE_ANG_M),
                shape: random_shape(depth - 1),
            };
            subshapes.push(sub);
            k = k + 1;
        }
        Shape::Compound(subshapes)
    }
}

/// The parts of the player silhouette: a circular hull, a nose block,
/// and two wing blocks angled an eighth turn.
pub open spec fn player_shape_subs() -> Seq<SubShape> {
    seq![
        SubShape {
            offset: Vector { dx: 0i64, dy: 0i64 },
            rotation: 0i64,
            shape: Shape::Circle(SCALE),
        },
        SubShape {
            offset: Vector { dx: 750_000i64, dy: 0i64 },
            rotation: 0i64,
            shape: Shape::Rectangle(Vector { dx: 750_000i64, dy: 500_000i64 }),
        },
        SubShape {
            offset: Vector { dx: -750_000i64, dy: 750_000i64 },
            rotation: 785_000i64,
            shape: Shape::Rectangle(Vector { dx: 500_000i64, dy: 500_000i64 }),
        },
        SubShape {
            offset: Vector { dx: -750_000i64, dy: -750_000i64 },
            rotation: 785_000i64,
            shape: Shape::Rectangle(Vector { dx: 500_000i64, dy: 500_000i64 }),
        },
    ]
}

/// The fixed compound silhouette of the player.
pub fn player_shape() -> (s: Shape)
    ensures
        s matches Shape::Compound(subs) && subs@ == player_shape_subs(),
        shape_wf(s, SHAPE_DEPTH as nat),
{
    let mut subshapes: Vec<SubShape> = Vec::new();
    subshapes.push(
        SubShape {
            offset: Vector { dx: 0, dy: 0 },
            rotation: 0,
            shape: Shape::Circle(SCALE),
        },
    );
    subshapes.push(
        SubShape {
            offset: Vector { dx: 750_000, dy: 0 },
            rotation: 0,
            shape: Shape::Rectangle(Vector { dx: 750_000, dy: 500_000 }),
        },
    );
    subshapes.push(
        SubShape {
            offset: Vector { dx: -750_000, dy: 750_000 },
            rotation: 785_000,
            shape: Shape::Rectangle(Vector { dx: 500_000, dy: 500_000 }),
        },
    );
    subshapes.push(
        SubShape {
            offset: Vector { dx: -750_000, dy: -750_000 },
            rotation: 785_000,
            shape: Shape::Rectangle(Vector { dx: 500_000, dy: 500_000 }),
        },
    );
    proof {
        assert(subshapes@ =~= player_shape_subs());
        assert forall|i: int| 0 <= i < subshapes@.len() implies shape_wf(
            #[trigger] subshapes@[i].shape,
            (SHAPE_DEPTH - 1) as nat,
        ) by {
            assert(subshapes@.len() == 4);
            if i == 0 {
                assert(subshapes@[0].shape is Circle);
            } else if i == 1 {
                assert(subshapes@[1].shape is Rectangle);
            } else if i == 2 {
                assert(subshapes@[2].shape is Rectangle);
            } else {
                assert(subshapes@[3].shape is Rectangle);
            }
        }
    }
    Shape::Compound(subshapes)
}

/// What every spawned particle looks like: at the world origin, not
/// rotated, unaccelerated, with bounded random rates and a well-formed
/// random shape.
pub open spec fn particle_record(r: EntityRecord) -> bool {
    &&& r.position == Some(Position { x: 0i64, y: 0i64 })
    &&& r.rotation == Some(Rotation { angle: 0i64 })
    &&& r.acceleration == Some(Acceleration { dx: 0i64, dy: 0i64 })
    &&& r.velocity matches Some(v) && -MAX_PARTICLE_V_M <= v.dx <= MAX_PARTICLE_V_M
        && -MAX_PARTICLE_V_M <= v.dy <= MAX_PARTICLE_V_M
    &&& r.angular_velocity matches Some(av) && -MAX_PARTICLE_ANG_M <= av.r <= MAX_PARTICLE_ANG_M
    &&& r.shape matches Some(sh) && generated_shape(sh, 2) && shape_wf(sh, SHAPE_DEPTH as nat)
}

/// Queue the spawn of one particle entity with randomized velocity,
/// angular velocity and shape, applied at this frame's maintain step.
pub fn create_dummy_entity(w: &mut World)
    requires
        old(w).wf(),
    ensures
        final(w).wf(),
        final(w).commands@.len() == old(w).commands@.len() + 1,
        final(w).commands@.subrange(0, old(w).commands@.len() as int) == old(w).commands@,
        final(w).commands@.last() matches Command::Spawn(r) && particle_record(r),
        final(w).ents() == old(w).ents(),
        final(w).warnings@ == old(w).warnings@,
        final(w).same_resources(*old(w)),
{
    let shape = random_shape(2);
    proof {
        lemma_shape_wf_widen(shape, 3nat, SHAPE_DEPTH as nat);
    }
    let rec = EntityRecord {
        position: Some(Position { x: 0, y: 0 }),
        rotation: Some(Rotation { angle: 0 }),
        velocity: Some(
            Velocity {
                dx: random_range(random_u64(), -MAX_PARTICLE_V_M, MAX_PARTICLE_V_M),
                dy: random_range(random_u64(), -MAX_PARTICLE_V_M, MAX_PARTICLE_V_M),
            },
        ),
        acceleration: Some(Acceleration { dx: 0, dy: 0 }),
        angular_velocity: Some(
            AngularVelocity { r: random_range(random_u64(), -MAX_PARTICLE_ANG_M, MAX_PARTICLE_ANG_M) },
        ),
        shape: Some(shape),
    };
    w.queue_spawn(rec);
    proof {
        assert(final(w).commands@.subrange(0, old(w).commands@.len() as int) =~= old(w).commands@);
    }
}

/// The aiming angle the input snapshot asks for: the direction of the
/// cursor offset from the screen center, in the convention where
/// positive screen y points down and the facing axis is a quarter turn
/// from the raw angle.
pub open spec fn aim_angle_spec(inp: Input) -> int {
    atan2_approx(
        inp.mouse_position.x - WINDOW_HALF_W_M,
        -(inp.mouse_position.y - WINDOW_HALF_H_M),
    ) - HALF_PI_M
}

/// The tracked entity and its position, when one exists, is live, and
/// holds a Position.
pub open spec fn tracked_target(w: World) -> Option<(int, Position)> {
    match w.player {
        Some(p) => if w.live(p.0.id as int) {
            match w.positions@[p.0.id as int] {
                Some(pos) => Some((p.0.id as int, pos)),
                None => None,
            }
        } else {
            None
        },
        None => None,
    }
}

/// The tracked entity's record after the input stage: the keys steer
/// its acceleration and the cursor aims its rotation, instantaneously.
pub open spec fn input_player_rec(pre: World, pid: int) -> EntityRecord {
    let dir = keyboard_direction_spec(pre.input);
    EntityRecord {
        acceleration: Some(
            Acceleration { dx: (dir.dx * BASE_ACC) as i64, dy: (dir.dy * BASE_ACC) as i64 },
        ),
        rotation: Some(Rotation { angle: aim_angle_spec(pre.input) as i64 }),
        ..pre.slot_record(pid)
    }
}

/// The entity set after the input stage: only the tracked entity is
/// touched.
pub open spec fn input_ents(pre: World) -> Seq<Option<EntityRecord>> {
    match tracked_target(pre) {
        Some((pid, _pos)) => pre.ents().update(pid, Some(input_player_rec(pre, pid))),
        None => pre.ents(),
    }
}

/// Where the camera looks after the input stage: at the tracked
/// entity, or at the raw cursor when none is tracked.
pub open spec fn input_camera_center(pre: World) -> Point {
    match tracked_target(pre) {
        Some((_pid, pos)) => Point { x: pos.x, y: pos.y },
        None => pre.input.mouse_position,
    }
}

/// Everything the Input-Handling stage does to the world, given the
/// snapshot it read: the camera zoom absorbs the scroll delta; with a
/// tracked entity the keys steer its acceleration, the cursor aims its
/// rotation, and the camera follows it, while without one the camera
/// follows the raw cursor; and a held left mouse button queues exactly
/// one particle spawn.
pub open spec fn input_applied(pre: World, post: World) -> bool {
    &&& post.input == pre.input
    &&& post.clock == pre.clock
    &&& post.player == pre.player
    &&& post.warnings@ == pre.warnings@
    &&& post.camera.zoom_steps == pre.camera.zoom_steps + pre.input.mouse_scroll.dy
    &&& post.ents() == input_ents(pre)
    &&& post.camera.center == input_camera_center(pre)
    &&& if pre.input.mouse_left {
        &&& post.commands@.len() == pre.commands@.len() + 1
        &&& post.commands@.subrange(0, pre.commands@.len() as int) == pre.commands@
        &&& (post.commands@.last() matches Command::Spawn(r) && particle_record(r))
    } else {
        post.commands@ == pre.commands@
    }
}

/// Input-Handling: translate the latest input snapshot into a queued
/// particle spawn, a camera zoom and center update, and the tracked
/// entity's acceleration and aim.
pub fn process_input(w: &mut World)
    requires
        old(w).wf(),
        in64(old(w).camera.zoom_steps + old(w).input.mouse_scroll.dy),
        iabs(old(w).input.mouse_position.x as int) <= 1_000_000_000_000,
        iabs(old(w).input.mouse_position.y as int) <= 1_000_000_000_000,
    ensures
        final(w).wf(),
        input_applied(*old(w), *final(w)),
{
    if w.input.mouse_left {
        create_dummy_entity(w);
    }
    let scroll_y = w.input.mouse_scroll.dy;
    let ghost w1 = *w;
    w.camera.adjust_zoom(scroll_y);
    proof {
        lemma_same_store(w1, *w);
    }
    let ghost w2 = *w;
    let dir = w.input.keyboard_direction();
    proof {
        assert(iabs(dir.dx as int) <= SCALE as int);
        assert(iabs(dir.dy as int) <= SCALE as int);
    }
    let mx = w.input.mouse_position.x;
    let my = w.input.mouse_position.y;
    let target = match w.player {
        Some(p) => Some(p.0),
        None => None,
    };
    match target {
        Some(pe) => {
            let pos_opt = w.get_position(pe);
            match pos_opt {
                Some(pos) => {
                    let aim = atan2_fixed(mx - WINDOW_HALF_W_M, -(my - WINDOW_HALF_H_M));
                    let aim_angle = aim - HALF_PI_M;
                    let ghost pid = pe.id as int;
                    let ghost acc_comp = Component::Acceleration(
                        Acceleration { dx: (dir.dx * BASE_ACC) as i64, dy: (dir.dy * BASE_ACC) as i64 },
                    );
                    proof {
                        assert(w2.live(pid));
                        assert(w2.ents().len() == w2.slot_count());
                        assert(w2.ents()[pid] == Some(w2.slot_record(pid)));
                        assert(old(w).ents()[pid] == Some(old(w).slot_record(pid)));
                        assert(w2.slot_record(pid) == old(w).slot_record(pid));
                    }
                    w.insert(
                        pe,
                        Component::Acceleration(
                            Acceleration { dx: dir.dx * BASE_ACC, dy: dir.dy * BASE_ACC },
                        ),
                    );
                    let ghost w3 = *w;
                    let ghost r1 = crate::world::set_component(w2.slot_record(pid), acc_comp);
                    proof {
                        assert(w3.ents() == w2.ents().update(pid, Some(r1)));
                        assert(w3.ents().len() == w3.slot_count());
                        assert(w3.slot_count() == w2.slot_count());
                        assert(w3.ents()[pid] == Some(r1));
                        assert(w3.live(pid)) by {
                            if !w3.alive@[pid] {
                                assert(w3.ents()[pid] is None);
                            }
                        }
                        assert(w3.ents()[pid] == Some(w3.slot_record(pid)));
                        assert(w3.slot_record(pid) == r1);
                    }
                    w.insert(pe, Component::Rotation(Rotation { angle: aim_angle }));
                    let ghost w4 = *w;
                    w.camera.center_at(Point { x: pos.x, y: pos.y });
                    proof {
                        lemma_same_store(w4, *w);
                        let goal = EntityRecord {
                            acceleration: Some(
                                Acceleration {
                                    dx: (dir.dx * BASE_ACC) as i64,
                                    dy: (dir.dy * BASE_ACC) as i64,
                                },
                            ),
                            rotation: Some(Rotation { angle: aim_angle_spec(old(w).input) as i64 }),
                            ..old(w).slot_record(pid)
                        };
                        assert(w4.ents() == w3.ents().update(
                            pid,
                            Some(
                                crate::world::set_component(
                                    r1,
                                    Component::Rotation(Rotation { angle: aim_angle }),
                                ),
                            ),
                        ));
                        assert(crate::world::set_component(
                            r1,
                            Component::Rotation(Rotation { angle: aim_angle }),
                        ) == goal);
                        assert(w4.ents() =~= old(w).ents().update(pid, Some(goal)));
                        assert(w.ents() == old(w).ents().update(pid, Some(goal)));
                        assert(tracked_target(*old(w)) == Some((pid, pos)));
                        assert(input_applied(*old(w), *w));
                    }
                },
                None => {
                    let ghost w4 = *w;
                    w.camera.center_at(Point { x: mx, y: my });
                    proof {
                        lemma_same_store(w4, *w);
                        let pid = pe.id as int;
                        if old(w).live(pid) && old(w).positions@[pid] is Some {
                            assert(old(w).ents()[pid] == Some(old(w).slot_record(pid)));
                            assert(w2.ents().len() == w2.slot_count());
                            assert(old(w).ents().len() == old(w).slot_count());
                            assert(w2.ents()[pid] == Some(old(w).slot_record(pid)));
                            assert(w2.alive@[pid]) by {
                                if !w2.alive@[pid] {
                                    assert(w2.ents()[pid] is None);
                                }
                            }
                            assert(w2.ents()[pid] == Some(w2.slot_record(pid)));
                            assert(w2.slot_record(pid) == old(w).slot_record(pid));
                            assert(w2.positions@[pid] is Some);
                            assert(false);
                        }
                        assert(tracked_target(*old(w)) is None);
                        assert(input_applied(*old(w), *w));
                    }
                },
            }
        },
        None => {
            let ghost w4 = *w;
            w.camera.center_at(Point { x: mx, y: my });
            proof {
                lemma_same_store(w4, *w);
            }
        },
    }
}


/// Two worlds that agree on the player, the input snapshot and the
/// arenas are steered identically by the input stage; the clock, the
/// camera and the buffers play no part in what it computes.
pub proof fn lemma_input_stage_same(a: World, b: World)
    requires
        b.player == a.player,
        b.input == a.input,
        b.alive@ == a.alive@,
        b.positions@ == a.positions@,
        b.rotations@ == a.rotations@,
        b.velocities@ == a.velocities@,
        b.accelerations@ == a.accelerations@,
        b.angular_velocities@ == a.angular_velocities@,
        b.shapes@ == a.shapes@,
    ensures
        tracked_target(b) == tracked_target(a),
        input_ents(b) == input_ents(a),
        input_camera_center(b) == input_camera_center(a),
{
    assert forall|i: int| 0 <= i < b.slot_count() implies #[trigger] b.slot_record(i)
        == a.slot_record(i) by {}
    assert(b.ents() =~= a.ents());
    match tracked_target(a) {
        Some((pid, _pos)) => {
            assert(b.slot_record(pid) == a.slot_record(pid));
            assert(input_player_rec(b, pid) == input_player_rec(a, pid));
            assert(input_ents(b) =~= input_ents(a));
        },
        None => {
            assert(input_ents(b) =~= input_ents(a));
        },
    }
}

} // verus!
