//! Core value types of the simulation: geometric points and vectors,
//! per-entity component records, the input snapshot, the clock and the
//! camera. All coordinates, rates, times and angles are fixed-point
//! micro-units (see `fixed`).

use vstd::prelude::*;

use crate::fixed::{fmul, SCALE};

verus! {

/// Horizontal component of a unit diagonal (1 / sqrt(2)) in micro-units.
pub const DIAG: i64 = 707_107;

/// A point in world coordinates.
#[derive(Clone, Copy, Debug, PartialEq, Eq, Structural)]
pub struct Point {
    pub x: i64,
    pub y: i64,
}

impl Point {
    pub fn new(x: i64, y: i64) -> (p: Point)
        ensures
            p == (Point { x, y }),
    {
        Point { x, y }
    }
}

impl Default for Point {
    fn default() -> (p: Point)
        ensures
            p == (Point { x: 0i64, y: 0i64 }),
    {
        Point { x: 0, y: 0 }
    }
}

/// A displacement or rate in world coordinates.
#[derive(Clone, Copy, Debug, PartialEq, Eq, Structural)]
pub struct Vector {
    pub dx: i64,
    pub dy: i64,
}

impl Vector {
    pub fn new(dx: i64, dy: i64) -> (v: Vector)
        ensures
            v == (Vector { dx, dy }),
    {
        Vector { dx, dy }
    }
}

impl Default for Vector {
    fn default() -> (v: Vector)
        ensures
            v == (Vector { dx: 0i64, dy: 0i64 }),
    {
        Vector { dx: 0, dy: 0 }
    }
}

/// An opaque entity identifier: an index into the component store.
#[derive(Clone, Copy, Debug, PartialEq, Eq, Structural)]
pub struct Entity {
    pub id: usize,
}

/// Resource naming the tracked (player-controlled) entity.
#[derive(Clone, Copy, Debug, PartialEq, Eq, Structural)]
pub struct Player(pub Entity);

/// World-space location of an entity.
#[derive(Clone, Copy, Debug, PartialEq, Eq, Structural)]
pub struct Position {
    pub x: i64,
    pub y: i64,
}

impl Position {
    pub fn new(x: i64, y: i64) -> (p: Position)
        ensures
            p == (Position { x, y }),
    {
        Position { x, y }
    }
}

/// Orientation of an entity, in micro-radians, unbounded and not wrapped.
#[derive(Clone, Copy, Debug, PartialEq, Eq, Structural)]
pub struct Rotation {
    pub angle: i64,
}

impl Rotation {
    pub fn new(angle: i64) -> (r: Rotation)
        ensures
            r == (Rotation { angle }),
    {
        Rotation { angle }
    }
}

/// Rate of change of position, in micro-units per second.
#[derive(Clone, Copy, Debug, PartialEq, Eq, Structural)]
pub struct Velocity {
    pub dx: i64,
    pub dy: i64,
}

impl Velocity {
    pub fn new(dx: i64, dy: i64) -> (v: Velocity)
        ensures
            v == (Velocity { dx, dy }),
    {
        Velocity { dx, dy }
    }
}

/// Applied force over mass, overwritten wholesale by the input stage.
#[derive(Clone, Copy, Debug, PartialEq, Eq, Structural)]
pub struct Acceleration {
    pub dx: i64,
    pub dy: i64,
}

impl Acceleration {
    pub fn new(dx: i64, dy: i64) -> (a: Acceleration)
        ensures
            a == (Acceleration { dx, dy }),
    {
        Acceleration { dx, dy }
    }
}

/// Rate of change of rotation, in micro-radians per second.
#[derive(Clone, Copy, Debug, PartialEq, Eq, Structural)]
pub struct AngularVelocity {
    pub r: i64,
}

impl AngularVelocity {
    pub fn new(r: i64) -> (v: AngularVelocity)
        ensures
            v == (AngularVelocity { r }),
    {
        AngularVelocity { r }
    }
}

/// A drawable outline: a closed variant set, with the compound case
/// owning its children by value, so the tree is finite and acyclic by
/// construction.
#[derive(Debug)]
pub enum Shape {
    Circle(i64),
    Rectangle(Vector),
    Sprite(String, Vector),
    Compound(Vec<SubShape>),
}

/// One child of a compound shape, placed at an offset and rotated
/// relative to its parent.
#[derive(Debug)]
pub struct SubShape {
    pub offset: Vector,
    pub rotation: i64,
    pub shape: Shape,
}

/// The shape tree nests compounds at most `d` levels deep. Authored and
/// generated shapes are shallow; the bound keeps every walk of the tree
/// terminating.
pub open spec fn shape_wf(s: Shape, d: nat) -> bool
    decreases d,
{
    match s {
        Shape::Compound(subs) => d > 0 && forall|i: int|
            0 <= i < subs@.len() ==> shape_wf(#[trigger] subs@[i].shape, (d - 1) as nat),
        _ => true,
    }
}

/// Largest compound nesting depth the store accepts.
pub const SHAPE_DEPTH: u64 = 8;

impl Default for Shape {
    fn default() -> (s: Shape)
        ensures
            s == Shape::Circle(SCALE),
            shape_wf(s, SHAPE_DEPTH as nat),
    {
        Shape::Circle(SCALE)
    }
}

/// Latest aggregated keyboard and mouse state, written by the boundary
/// before each frame, read by the input stage.
#[derive(Clone, Copy, Debug, PartialEq, Eq, Structural)]
pub struct Input {
    pub left: bool,
    pub right: bool,
    pub up: bool,
    pub down: bool,
    pub mouse_left: bool,
    pub mouse_scroll: Vector,
    pub mouse_position: Point,
}

impl Default for Input {
    fn default() -> (inp: Input)
        ensures
            !inp.left,
            !inp.right,
            !inp.up,
            !inp.down,
            !inp.mouse_left,
            inp.mouse_scroll == (Vector { dx: 0i64, dy: 0i64 }),
            inp.mouse_position == (Point { x: 0i64, y: 0i64 }),
    {
        Input {
            left: false,
            right: false,
            up: false,
            down: false,
            mouse_left: false,
            mouse_scroll: Vector { dx: 0, dy: 0 },
            mouse_position: Point { x: 0, y: 0 },
        }
    }
}

/// Direction the held keys ask for: each axis is -1, 0 or +1 world
/// units, except that a diagonal is normalized to unit length, 1/sqrt(2)
/// per axis, so diagonal speed equals axial speed.
pub open spec fn keyboard_direction_spec(inp: Input) -> Vector {
    if (inp.left || inp.right) && (inp.up || inp.down) {
        Vector {
            dx: if inp.left {
                (-DIAG) as i64
            } else {
                DIAG
            },
            dy: if inp.up {
                (-DIAG) as i64
            } else {
                DIAG
            },
        }
    } else if inp.left || inp.right {
        Vector {
            dx: if inp.left {
                (-SCALE) as i64
            } else {
                SCALE
            },
            dy: 0i64,
        }
    } else if inp.up || inp.down {
        Vector {
            dx: 0i64,
            dy: if inp.up {
                (-SCALE) as i64
            } else {
                SCALE
            },
        }
    } else {
        Vector { dx: 0i64, dy: 0i64 }
    }
}

impl Input {
    pub fn keyboard_direction(&self) -> (v: Vector)
        ensures
            v == keyboard_direction_spec(*self),
    {
        if (self.left || self.right) && (self.up || self.down) {
            Vector::new(if self.left { -DIAG } else { DIAG }, if self.up { -DIAG } else { DIAG })
        } else if self.left || self.right {
            Vector::new(if self.left { -SCALE } else { SCALE }, 0)
        } else if self.up || self.down {
            Vector::new(0, if self.up { -SCALE } else { SCALE })
        } else {
            Vector::new(0, 0)
        }
    }
}

/// Simulation time: the last scaled frame delta (or none, when no time
/// passed), the accumulated total, and a speed multiplier. All three in
/// micro-units; a negative speed reverses time flow by design.
#[derive(Clone, Copy, Debug)]
pub struct Clock {
    pub last_delta: Option<i64>,
    pub total_time: i64,
    pub simulation_speed: i64,
}

impl Default for Clock {
    fn default() -> (c: Clock)
        ensures
            c.last_delta is None,
            c.total_time == 0,
            c.simulation_speed == SCALE,
    {
        Clock { last_delta: None, total_time: 0, simulation_speed: SCALE }
    }
}

impl Clock {
    /// Scale the raw wall-time delta by the simulation speed and
    /// accumulate it; an absent delta marks the tick as "no time
    /// passed", which the movement stages skip entirely.
    pub fn advance(&mut self, raw_dt: Option<i64>)
        requires
            raw_dt matches Some(dt) ==> {
                &&& i64::MIN <= fmul(dt as int, old(self).simulation_speed as int) <= i64::MAX
                &&& i64::MIN <= old(self).total_time + fmul(
                    dt as int,
                    old(self).simulation_speed as int,
                ) <= i64::MAX
            },
        ensures
            final(self).simulation_speed == old(self).simulation_speed,
            match raw_dt {
                Some(dt) => {
                    &&& final(self).last_delta == Some(
                        fmul(dt as int, old(self).simulation_speed as int) as i64,
                    )
                    &&& final(self).total_time == old(self).total_time + fmul(
                        dt as int,
                        old(self).simulation_speed as int,
                    )
                },
                None => {
                    &&& final(self).last_delta is None
                    &&& final(self).total_time == old(self).total_time
                },
            },
    {
        match raw_dt {
            Some(dt) => {
                let d = crate::fixed::fmul64(dt, self.simulation_speed);
                self.total_time = self.total_time + d;
                self.last_delta = Some(d);
            },
            None => {
                self.last_delta = None;
            },
        }
    }

    /// The current frame's scaled delta.
    pub fn dt(&self) -> (d: Option<i64>)
        ensures
            d == self.last_delta,
    {
        self.last_delta
    }
}

/// The camera: a world-space center and a zoom level. The zoom is kept
/// in log scale, as the accumulated scroll exponent of a fixed base in
/// micro-steps, so the represented zoom `base ^ (zoom_steps / SCALE)` is
/// strictly positive by construction and composes exactly.
#[derive(Clone, Copy, Debug)]
pub struct Camera {
    pub center: Point,
    pub zoom_steps: i64,
}

impl Default for Camera {
    fn default() -> (c: Camera)
        ensures
            c.center == (Point { x: 0i64, y: 0i64 }),
            c.zoom_steps == 0,
    {
        Camera { center: Point { x: 0, y: 0 }, zoom_steps: 0 }
    }
}

impl Camera {
    pub fn get_center_point(&self) -> (p: Point)
        ensures
            p == self.center,
    {
        self.center
    }

    /// The zoom level in log scale: micro-steps of the zoom base.
    pub fn get_zoom(&self) -> (z: i64)
        ensures
            z == self.zoom_steps,
    {
        self.zoom_steps
    }

    pub fn center_at(&mut self, p: Point)
        ensures
            final(self).center == p,
            final(self).zoom_steps == old(self).zoom_steps,
    {
        self.center = p;
    }

    /// Apply a scroll delta: in log scale, multiplying by
    /// `base ^ (steps / SCALE)` is adding `steps`.
    pub fn adjust_zoom(&mut self, steps: i64)
        requires
            i64::MIN <= old(self).zoom_steps + steps <= i64::MAX,
        ensures
            final(self).zoom_steps == old(self).zoom_steps + steps,
            final(self).center == old(self).center,
    {
        self.zoom_steps = self.zoom_steps + steps;
    }
}

/// Zoom adjustment is multiplicative and composes exactly: scrolling
/// `s1` and then `s2` yields the same zoom as scrolling `s1 + s2` at
/// once, because in log scale `base^s1 * base^s2 = base^(s1+s2)` is
/// `(z + s1) + s2 == z + (s1 + s2)`.
pub proof fn lemma_adjust_zoom_aggregates(z: i64, s1: i64, s2: i64)
    ensures
        (z + s1) + s2 == z + (s1 + s2),
        (z + s1) + s2 == (z + s2) + s1,
{
}

} // verus!
