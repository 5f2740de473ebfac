//! The render boundary's verified half: turn the world into plain draw
//! data. Nothing here touches a canvas; the output is a list of star
//! fields, a camera transform, and per-entity poses and flattened
//! shape primitives, which an unverified backend turns into draw
//! calls.

use vstd::prelude::*;

use crate::components::{shape_wf, Entity, Shape, Vector, SHAPE_DEPTH};
use crate::consts::DEFAULT_ZOOM_M;
use crate::fixed::{fdiv, fmul, iabs, tdiv, SCALE};
use crate::game::Game;
use crate::consts::ZOOM_FACTOR_M;
use crate::parallax::{
    compose_fits, composed_transform, fpow, plane_field_matches, Parallax, PlaneField, Transform2,
    PLANES,
};
use crate::world::World;

verus! {

/// One step of a pose chain: translate by an offset, then rotate.
#[derive(Clone, Copy, Debug, PartialEq, Eq, Structural)]
pub struct PoseStep {
    pub offset: Vector,
    pub rotation: i64,
}

/// A drawable primitive, reached through its chain of pose steps.
#[derive(Debug)]
pub enum Primitive {
    Circle(i64),
    Rectangle(Vector),
    Sprite(String, Vector),
}

/// One flattened draw command: apply the pose steps root to leaf, then
/// draw the primitive.
#[derive(Debug)]
pub struct DrawCmd {
    pub steps: Vec<PoseStep>,
    pub prim: Primitive,
}

/// The abstract value of a primitive.
pub enum PrimSpec {
    Circle(i64),
    Rectangle(Vector),
    Sprite(Seq<char>, Vector),
}

/// The abstract value of a draw command.
pub struct CmdSpec {
    pub steps: Seq<PoseStep>,
    pub prim: PrimSpec,
}

pub open spec fn cmd_view(c: DrawCmd) -> CmdSpec {
    CmdSpec {
        steps: c.steps@,
        prim: match c.prim {
            Primitive::Circle(r) => PrimSpec::Circle(r),
            Primitive::Rectangle(v) => PrimSpec::Rectangle(v),
            Primitive::Sprite(n, v) => PrimSpec::Sprite(n@, v),
        },
    }
}

/// The draw commands of a shape: a leaf is one primitive under the
/// accumulated pose chain; a compound contributes each child's
/// commands under the chain extended by the child's own offset and
/// rotation, in order.
pub open spec fn flatten_spec(s: Shape, prefix: Seq<PoseStep>, d: nat) -> Seq<CmdSpec>
    decreases d, 0int,
{
    match s {
        Shape::Circle(r) => seq![CmdSpec { steps: prefix, prim: PrimSpec::Circle(r) }],
        Shape::Rectangle(v) => seq![CmdSpec { steps: prefix, prim: PrimSpec::Rectangle(v) }],
        Shape::Sprite(n, v) => seq![CmdSpec { steps: prefix, prim: PrimSpec::Sprite(n@, v) }],
        Shape::Compound(subs) => if d > 0 {
            flatten_subs_spec(subs@, 0, prefix, (d - 1) as nat)
        } else {
            Seq::empty()
        },
    }
}

pub open spec fn flatten_subs_spec(
    subs: Seq<crate::components::SubShape>,
    i: int,
    prefix: Seq<PoseStep>,
    d: nat,
) -> Seq<CmdSpec>
    decreases d, subs.len() - i + 1,
{
    if i < 0 || i >= subs.len() {
        Seq::empty()
    } else {
        flatten_spec(
            subs[i].shape,
            prefix.push(PoseStep { offset: subs[i].offset, rotation: subs[i].rotation }),
            d,
        ) + flatten_subs_spec(subs, i + 1, prefix, d)
    }
}

fn copy_steps(v: &Vec<PoseStep>) -> (r: Vec<PoseStep>)
    ensures
        r@ == v@,
{
    let mut r: Vec<PoseStep> = Vec::new();
    let mut i: usize = 0;
    while i < v.len()
        invariant
            0 <= i <= v@.len(),
            r@ == v@.take(i as int),
        decreases v@.len() - i,
    {
        r.push(v[i]);
        proof {
            assert(r@ =~= v@.take(i + 1));
        }
        i = i + 1;
    }
    proof {
        assert(r@ =~= v@);
    }
    r
}

fn flatten_into(s: &Shape, prefix: &Vec<PoseStep>, depth: u64, out: &mut Vec<DrawCmd>)
    requires
        shape_wf(*s, depth as nat),
    ensures
        final(out)@.len() == old(out)@.len() + flatten_spec(*s, prefix@, depth as nat).len(),
        final(out)@.map_values(|c: DrawCmd| cmd_view(c)) == old(out)@.map_values(
            |c: DrawCmd| cmd_view(c),
        ) + flatten_spec(*s, prefix@, depth as nat),
    decreases depth, 1int,
{
    match s {
        Shape::Circle(r) => {
            out.push(DrawCmd { steps: copy_steps(prefix), prim: Primitive::Circle(*r) });
            proof {
                assert(final(out)@.map_values(|c: DrawCmd| cmd_view(c)) =~= old(out)@.map_values(
                    |c: DrawCmd| cmd_view(c),
                ) + flatten_spec(*s, prefix@, depth as nat));
            }
        },
        Shape::Rectangle(v) => {
            out.push(DrawCmd { steps: copy_steps(prefix), prim: Primitive::Rectangle(*v) });
            proof {
                assert(final(out)@.map_values(|c: DrawCmd| cmd_view(c)) =~= old(out)@.map_values(
                    |c: DrawCmd| cmd_view(c),
                ) + flatten_spec(*s, prefix@, depth as nat));
            }
        },
        Shape::Sprite(n, v) => {
            out.push(
                DrawCmd { steps: copy_steps(prefix), prim: Primitive::Sprite(n.clone(), *v) },
            );
            proof {
                assert(final(out)@.map_values(|c: DrawCmd| cmd_view(c)) =~= old(out)@.map_values(
                    |c: DrawCmd| cmd_view(c),
                ) + flatten_spec(*s, prefix@, depth as nat));
            }
        },
        Shape::Compound(subs) => {
            let ghost base = out@.map_values(|c: DrawCmd| cmd_view(c));
            let mut i: usize = 0;
            while i < subs.len()
                invariant
                    shape_wf(*s, depth as nat),
                    s matches Shape::Compound(ss) && ss@ == subs@,
                    depth >= 1,
                    0 <= i <= subs@.len(),
                    out@.map_values(|c: DrawCmd| cmd_view(c)) == base + flatten_subs_upto(
                        subs@,
                        i as int,
                        prefix@,
                        (depth - 1) as nat,
                    ),
                decreases subs@.len() - i,
            {
                let mut p2 = copy_steps(prefix);
                p2.push(PoseStep { offset: subs[i].offset, rotation: subs[i].rotation });
                proof {
                    assert(shape_wf(subs@[i as int].shape, (depth - 1) as nat));
                }
                flatten_into(&subs[i].shape, &p2, depth - 1, out);
                proof {
                    lemma_flatten_subs_upto_step(subs@, i as int, prefix@, (depth - 1) as nat);
                    assert(out@.map_values(|c: DrawCmd| cmd_view(c)) =~= base
                        + flatten_subs_upto(subs@, i + 1, prefix@, (depth - 1) as nat));
                }
                i = i + 1;
            }
            proof {
                lemma_flatten_subs_upto_all(subs@, prefix@, (depth - 1) as nat);
            }
        },
    }
}

/// The draw commands of the children before index `i`.
pub open spec fn flatten_subs_upto(
    subs: Seq<crate::components::SubShape>,
    i: int,
    prefix: Seq<PoseStep>,
    d: nat,
) -> Seq<CmdSpec>
    decreases i,
{
    if i <= 0 {
        Seq::empty()
    } else {
        flatten_subs_upto(subs, i - 1, prefix, d) + flatten_spec(
            subs[i - 1].shape,
            prefix.push(
                PoseStep { offset: subs[i - 1].offset, rotation: subs[i - 1].rotation },
            ),
            d,
        )
    }
}

proof fn lemma_flatten_subs_upto_step(
    subs: Seq<crate::components::SubShape>,
    i: int,
    prefix: Seq<PoseStep>,
    d: nat,
)
    requires
        0 <= i < subs.len(),
    ensures
        flatten_subs_upto(subs, i + 1, prefix, d) == flatten_subs_upto(subs, i, prefix, d)
            + flatten_spec(
            subs[i].shape,
            prefix.push(PoseStep { offset: subs[i].offset, rotation: subs[i].rotation }),
            d,
        ),
{
}

proof fn lemma_flatten_subs_upto_all(
    subs: Seq<crate::components::SubShape>,
    prefix: Seq<PoseStep>,
    d: nat,
)
    ensures
        flatten_subs_upto(subs, subs.len() as int, prefix, d) == flatten_subs_spec(
            subs,
            0,
            prefix,
            d,
        ),
{
    lemma_flatten_agree(subs, 0, prefix, d);
}

proof fn lemma_flatten_agree(
    subs: Seq<crate::components::SubShape>,
    i: int,
    prefix: Seq<PoseStep>,
    d: nat,
)
    requires
        0 <= i <= subs.len(),
    ensures
        flatten_subs_upto(subs, subs.len() as int, prefix, d) == flatten_subs_upto(
            subs,
            i,
            prefix,
            d,
        ) + flatten_subs_spec(subs, i, prefix, d),
    decreases subs.len() - i,
{
    if i == subs.len() {
        assert(flatten_subs_spec(subs, i, prefix, d) =~= Seq::<CmdSpec>::empty());
        assert(flatten_subs_upto(subs, subs.len() as int, prefix, d) =~= flatten_subs_upto(
            subs,
            i,
            prefix,
            d,
        ) + Seq::<CmdSpec>::empty());
    } else {
        lemma_flatten_agree(subs, i + 1, prefix, d);
        lemma_flatten_subs_upto_step(subs, i, prefix, d);
        assert(flatten_subs_upto(subs, subs.len() as int, prefix, d) =~= flatten_subs_upto(
            subs,
            i,
            prefix,
            d,
        ) + flatten_subs_spec(subs, i, prefix, d));
    }
}

/// Flatten a shape tree into draw commands: one per primitive, each
/// under its chain of pose steps from the root, children in order.
pub fn draw_shape(shape: &Shape) -> (cmds: Vec<DrawCmd>)
    requires
        shape_wf(*shape, SHAPE_DEPTH as nat),
    ensures
        cmds@.map_values(|c: DrawCmd| cmd_view(c)) == flatten_spec(
            *shape,
            Seq::empty(),
            SHAPE_DEPTH as nat,
        ),
{
    let prefix: Vec<PoseStep> = Vec::new();
    let mut out: Vec<DrawCmd> = Vec::new();
    proof {
        assert(out@.map_values(|c: DrawCmd| cmd_view(c)) =~= Seq::<CmdSpec>::empty());
    }
    flatten_into(shape, &prefix, SHAPE_DEPTH, &mut out);
    proof {
        assert(out@.map_values(|c: DrawCmd| cmd_view(c)) =~= flatten_spec(
            *shape,
            Seq::empty(),
            SHAPE_DEPTH as nat,
        ));
    }
    out
}

/// The camera zoom value represented by a log-scale step count, at
/// whole-notch granularity: the default zoom times the zoom base
/// raised to the floor of the notch count.
pub open spec fn zoom_value_spec(steps: int) -> int {
    let n = steps / (SCALE as int);
    if n >= 0 {
        fmul(DEFAULT_ZOOM_M as int, fpow(ZOOM_FACTOR_M as int, n as nat))
    } else {
        fdiv(DEFAULT_ZOOM_M as int, fpow(ZOOM_FACTOR_M as int, (-n) as nat))
    }
}

/// Compute the zoom value of a step count.
pub fn zoom_value(steps: i64) -> (z: i64)
    requires
        iabs(steps as int) <= 30 * (SCALE as int),
    ensures
        z == zoom_value_spec(steps as int),
{
    let n: i64 = if steps >= 0 {
        steps / SCALE
    } else {
        -((-steps + SCALE - 1) / SCALE)
    };
    proof {
        assert(n == steps as int / (SCALE as int)) by (nonlinear_arith)
            requires
                n == (if steps >= 0 {
                    tdiv(steps as int, SCALE as int)
                } else {
                    -tdiv(-(steps as int) + (SCALE as int) - 1, SCALE as int)
                }),
                iabs(steps as int) <= 30 * (SCALE as int),
    }
    if n >= 0 {
        proof {
            crate::parallax::lemma_fpow_zf_grows(n as nat);
            crate::parallax::lemma_fpow_zf_capped(n as nat);
            vstd::arithmetic::power2::lemma2_to64();
            assert(vstd::arithmetic::power2::pow2(n as nat) <= vstd::arithmetic::power2::pow2(
                30,
            )) by {
                vstd::arithmetic::power::lemma_pow_increases(2, n as nat, 30nat);
            }
            assert(vstd::arithmetic::power2::pow2(n as nat) * (SCALE as int)
                <= vstd::arithmetic::power2::pow2(30) * (SCALE as int)) by (nonlinear_arith)
                requires
                    vstd::arithmetic::power2::pow2(n as nat) <= vstd::arithmetic::power2::pow2(30),
            ;
            crate::fixed::lemma_fmul_mag(
                DEFAULT_ZOOM_M as int,
                crate::parallax::fpow(ZOOM_FACTOR_M as int, n as nat),
                50_000_000,
                1_073_741_824_000_000,
            );
        }
        let zc = crate::parallax::zf_power(n as u64);
        crate::fixed::fmul64(DEFAULT_ZOOM_M, zc)
    } else {
        proof {
            crate::parallax::lemma_fpow_zf_grows((-(n as int)) as nat);
            crate::fixed::lemma_fdiv_shrinks(
                DEFAULT_ZOOM_M as int,
                crate::parallax::fpow(ZOOM_FACTOR_M as int, (-(n as int)) as nat),
            );
        }
        let zc = crate::parallax::zf_power((-n) as u64);
        crate::fixed::fdiv64(DEFAULT_ZOOM_M, zc)
    }
}

/// The zoom used for drawing, kept within the range the star field
/// generator accepts.
pub open spec fn clamped_zoom(z: int) -> int {
    if z < 1000 {
        1000
    } else if z > 1_000_000_000 {
        1_000_000_000
    } else {
        z
    }
}

/// The pose of one drawable entity: its identifier, world position and
/// facing angle. The boundary fetches the shape by the identifier.
#[derive(Clone, Copy, Debug, PartialEq, Eq, Structural)]
pub struct EntityPose {
    pub entity: Entity,
    pub x: i64,
    pub y: i64,
    pub angle: i64,
}

/// The drawable entities of the first `n` slots: those live with both
/// a position and a shape, in ascending identifier order; a missing
/// rotation draws at angle zero.
pub open spec fn poses_upto(w: World, n: int) -> Seq<EntityPose>
    decreases n,
{
    if n <= 0 {
        Seq::empty()
    } else {
        let prefix = poses_upto(w, n - 1);
        let i = n - 1;
        if w.live(i) && w.positions@[i] is Some && w.shapes@[i] is Some {
            prefix.push(
                EntityPose {
                    entity: Entity { id: i as usize },
                    x: w.positions@[i].unwrap().x,
                    y: w.positions@[i].unwrap().y,
                    angle: match w.rotations@[i] {
                        Some(r) => r.angle,
                        None => 0i64,
                    },
                },
            )
        } else {
            prefix
        }
    }
}

/// Everything one frame draws: the star fields back to front, the
/// composed camera transform, and the poses of the drawable entities.
pub struct RenderOutput {
    pub camera_transform: Transform2,
    pub stars: Vec<PlaneField>,
    pub entities: Vec<EntityPose>,
}

/// The render stage: reads positions, rotations, shapes and the
/// camera, and writes nothing.
pub struct RenderSys {
    pub parallax: Parallax,
}

impl RenderSys {
    pub fn new() -> (r: RenderSys) {
        RenderSys { parallax: Parallax::new() }
    }

    /// Turn the world into one frame of draw data: the camera
    /// transform at the camera's (clamped) zoom value, the star fields
    /// of every plane, and the pose of every drawable entity.
    pub fn render(&self, game: &Game, base_transform: Transform2) -> (r: RenderOutput)
        requires
            game.world.wf(),
            iabs(game.world.camera.zoom_steps as int) <= 30 * (SCALE as int),
            iabs(game.world.camera.center.x as int) <= 1_000_000_000_000,
            iabs(game.world.camera.center.y as int) <= 1_000_000_000_000,
            iabs(base_transform.sx as int) <= 100_000_000,
            iabs(base_transform.sy as int) <= 100_000_000,
            iabs(base_transform.tx as int) <= 1_000_000_000_000,
            iabs(base_transform.ty as int) <= 1_000_000_000_000,
        ensures
            ({
                let zv = clamped_zoom(zoom_value_spec(game.world.camera.zoom_steps as int));
                let t = composed_transform(base_transform, game.world.camera.center, zv);
                &&& r.camera_transform.sx == t.0
                &&& r.camera_transform.sy == t.1
                &&& r.camera_transform.tx == t.2
                &&& r.camera_transform.ty == t.3
                &&& r.stars@.len() == PLANES
                &&& forall|p: int|
                    0 <= p < PLANES ==> plane_field_matches(
                        #[trigger] r.stars@[p],
                        base_transform,
                        game.world.camera.center,
                        zv,
                        p as u64,
                    )
                &&& r.entities@ == poses_upto(game.world, game.world.slot_count() as int)
            }),
    {
        let center = game.world.camera.get_center_point();
        let zv0 = zoom_value(game.world.camera.get_zoom());
        let zv: i64 = if zv0 < 1000 {
            1000
        } else if zv0 > 1_000_000_000 {
            1_000_000_000
        } else {
            zv0
        };
        let stars = self.parallax.draw(center, zv, base_transform);
        proof {
            let pz1 = fdiv(zv as int, crate::parallax::plane_zoom_change(0));
            crate::fixed::lemma_fdiv_shrinks(zv as int, crate::parallax::plane_zoom_change(0));
            let s2x = fmul(base_transform.sx as int, zv as int);
            let s2y = fmul(base_transform.sy as int, zv as int);
            crate::fixed::lemma_fmul_mag(
                base_transform.sx as int,
                zv as int,
                100_000_000,
                1_000_000_000,
            );
            crate::fixed::lemma_fmul_mag(
                base_transform.sy as int,
                zv as int,
                100_000_000,
                1_000_000_000,
            );
            crate::fixed::lemma_fmul_mag(
                base_transform.sx as int,
                crate::consts::WINDOW_HALF_W_M as int,
                100_000_000,
                400_000_000,
            );
            crate::fixed::lemma_fmul_mag(
                base_transform.sy as int,
                crate::consts::WINDOW_HALF_H_M as int,
                100_000_000,
                400_000_000,
            );
            crate::fixed::lemma_fmul_mag(s2x, -(center.x as int), 100_000_000_000, 1_000_000_000_000);
            crate::fixed::lemma_fmul_mag(s2y, -(center.y as int), 100_000_000_000, 1_000_000_000_000);
            assert(compose_fits(base_transform, center, zv as int));
        }
        let camera_transform = crate::parallax::transform_with_center_and_zoom(
            base_transform,
            center,
            zv,
        );
        let n = game.world.alive.len();
        let mut entities: Vec<EntityPose> = Vec::new();
        let mut i: usize = 0;
        while i < n
            invariant
                game.world.wf(),
                n == game.world.slot_count(),
                0 <= i <= n,
                entities@ == poses_upto(game.world, i as int),
            decreases n - i,
        {
            if game.world.alive[i] {
                let pos_opt = game.world.positions[i];
                let has_shape = game.world.shapes[i].is_some();
                match pos_opt {
                    Some(pos) => {
                        if has_shape {
                            let angle: i64 = match game.world.rotations[i] {
                                Some(rot) => rot.angle,
                                None => 0,
                            };
                            entities.push(
                                EntityPose { entity: Entity { id: i }, x: pos.x, y: pos.y, angle },
                            );
                        }
                    },
                    None => {},
                }
            }
            i = i + 1;
        }
        RenderOutput { camera_transform, stars, entities }
    }
}

impl Game {
    /// Run the render stage against this game, as the frame loop does
    /// once per frame after `update`.
    pub fn render(&self, rendering_sys: &RenderSys, base_transform: Transform2) -> (r:
        RenderOutput)
        requires
            self.world.wf(),
            iabs(self.world.camera.zoom_steps as int) <= 30 * (SCALE as int),
            iabs(self.world.camera.center.x as int) <= 1_000_000_000_000,
            iabs(self.world.camera.center.y as int) <= 1_000_000_000_000,
            iabs(base_transform.sx as int) <= 100_000_000,
            iabs(base_transform.sy as int) <= 100_000_000,
            iabs(base_transform.tx as int) <= 1_000_000_000_000,
            iabs(base_transform.ty as int) <= 1_000_000_000_000,
        ensures
            ({
                let zv = clamped_zoom(zoom_value_spec(self.world.camera.zoom_steps as int));
                let t = composed_transform(base_transform, self.world.camera.center, zv);
                &&& r.camera_transform.sx == t.0
                &&& r.camera_transform.sy == t.1
                &&& r.camera_transform.tx == t.2
                &&& r.camera_transform.ty == t.3
                &&& r.stars@.len() == PLANES
                &&& forall|p: int|
                    0 <= p < PLANES ==> plane_field_matches(
                        #[trigger] r.stars@[p],
                        base_transform,
                        self.world.camera.center,
                        zv,
                        p as u64,
                    )
                &&& r.entities@ == poses_upto(self.world, self.world.slot_count() as int)
            }),
    {
        rendering_sys.render(self, base_transform)
    }
}

} // verus!
