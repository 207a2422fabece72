//! The player: a fixed-point position and heading on the grid, four
//! independent movement intents, a rotation step of a fixed angle, and an
//! axis-independent move with wall-sliding collision.

use vstd::prelude::*;
use crate::fixed::{SCALE, iabs, tdiv, fp_mul, fp_dot, fp_floor, lemma_mul_le, lemma_tdiv_abs_le,
    lemma_tdiv_sq_le};
use crate::grid::GridMap;

verus! {

/// Cosine of the rotation angle of one tick (pi/30 radians), in raw
/// fixed-point steps, rounded toward zero.
pub const ROT_COS: i64 = 994_521;

/// Sine of the rotation angle of one tick, in raw fixed-point steps, rounded
/// toward zero, so that `ROT_COS^2 + ROT_SIN^2 <= SCALE^2` and a rotation
/// never grows the heading.
pub const ROT_SIN: i64 = 104_528;

/// Movement speed: 0.05 map units per tick, in raw fixed-point steps.
pub const SPEED: i64 = 50_000;

/// Bound on either heading component: 16 map units, far beyond any sensible
/// field of view, and small enough that every product in the raycaster fits.
pub const DIR_BOUND: i64 = 16_000_000;

/// A movement intent, one per arrow key.
#[derive(Clone, Copy)]
pub enum Action {
    Forward,
    Backward,
    RotateLeft,
    RotateRight,
}

/// The player: continuous position and heading (fixed-point map coordinates),
/// plus one independent held/released flag per action.
pub struct Player {
    pub pos_x: i64,
    pub pos_y: i64,
    pub dir_x: i64,
    pub dir_y: i64,
    pub forward: bool,
    pub backward: bool,
    pub rotate_left: bool,
    pub rotate_right: bool,
}

/// First component of a vector rotated by coefficients `(c, s)`, in fixed
/// point with a single truncating division.
pub open spec fn spec_rot_x(x: int, y: int, c: int, s: int) -> int {
    tdiv(x * c - y * s, SCALE as int)
}

/// Second component of a vector rotated by coefficients `(c, s)`.
pub open spec fn spec_rot_y(x: int, y: int, c: int, s: int) -> int {
    tdiv(x * s + y * c, SCALE as int)
}

proof fn lemma_sq_sub(u: int, v: int)
    by (nonlinear_arith)
    ensures
        (u - v) * (u - v) == u * u - 2 * (u * v) + v * v,
{
}

proof fn lemma_sq_add(u: int, v: int)
    by (nonlinear_arith)
    ensures
        (u + v) * (u + v) == u * u + 2 * (u * v) + v * v,
{
}

proof fn lemma_mul_dist2(a: int, b: int, c: int, d: int)
    by (nonlinear_arith)
    ensures
        (a + b) * (c + d) == a * c + a * d + b * c + b * d,
{
}

proof fn lemma_mul_reassoc(x: int, y: int, c: int, s: int)
    by (nonlinear_arith)
    ensures
        (x * c) * (y * s) == (x * s) * (y * c),
        (x * c) * (x * c) == (x * x) * (c * c),
        (y * s) * (y * s) == (y * y) * (s * s),
        (x * s) * (x * s) == (x * x) * (s * s),
        (y * c) * (y * c) == (y * y) * (c * c),
{
}

/// The rotation identity: for any coefficients `(c, s)`, the squared
/// magnitude of the exactly rotated vector is the original squared magnitude
/// scaled by `c^2 + s^2`. With coefficients on the circle `c^2 + s^2 == r^2`,
/// rotation preserves magnitude (scaled by `r`); the tick's coefficients
/// satisfy `ROT_COS^2 + ROT_SIN^2 <= SCALE^2`, so a heading never grows.
pub proof fn lemma_rotation_preserves_sq_magnitude(x: int, y: int, c: int, s: int)
    ensures
        (x * c - y * s) * (x * c - y * s) + (x * s + y * c) * (x * s + y * c) == (x * x + y * y) * (
        c * c + s * s),
{
    lemma_sq_sub(x * c, y * s);
    lemma_sq_add(x * s, y * c);
    lemma_mul_dist2(x * x, y * y, c * c, s * s);
    lemma_mul_reassoc(x, y, c, s);
}

/// The fixed-point rotation never grows the squared magnitude, because its
/// truncating divisions only shrink each component and the coefficients lie
/// inside the unit circle.
pub proof fn lemma_rot_norm_bound(x: int, y: int, c: int, s: int, b: int)
    requires
        0 <= b,
        x * x + y * y <= b,
        0 <= c * c + s * s <= SCALE as int * SCALE as int,
    ensures
        spec_rot_x(x, y, c, s) * spec_rot_x(x, y, c, s) + spec_rot_y(x, y, c, s) * spec_rot_y(
            x,
            y,
            c,
            s,
        ) <= b,
{
    let sc = SCALE as int;
    let u = x * c - y * s;
    let v = x * s + y * c;
    let qx = spec_rot_x(x, y, c, s);
    let qy = spec_rot_y(x, y, c, s);
    lemma_rotation_preserves_sq_magnitude(x, y, c, s);
    assert((x * x + y * y) * (c * c + s * s) <= b * (sc * sc)) by (nonlinear_arith)
        requires
            x * x + y * y <= b,
            0 <= c * c + s * s <= sc * sc,
            0 <= b,
    ;
    lemma_tdiv_sq_le(u, sc);
    lemma_tdiv_sq_le(v, sc);
    assert((qx * qx + qy * qy) * (sc * sc) == qx * qx * (sc * sc) + qy * qy * (sc * sc))
        by (nonlinear_arith);
    assert(qx * qx + qy * qy <= b) by (nonlinear_arith)
        requires
            (qx * qx + qy * qy) * (sc * sc) <= b * (sc * sc),
            sc * sc > 0,
    ;
}

/// A squared-magnitude bound caps each component.
pub proof fn lemma_norm_component_bound(x: int, y: int, b: int)
    by (nonlinear_arith)
    requires
        0 <= b,
        x * x + y * y <= b * b,
    ensures
        -b <= x <= b,
        -b <= y <= b,
{
}

/// Rotates a fixed-point vector by the tick angle, counterclockwise
/// (`ccw == true`, the rotate-left intent) or clockwise.
pub fn rotate_step(x: i64, y: i64, ccw: bool) -> (r: (i64, i64))
    requires
        x * x + y * y <= DIR_BOUND as int * DIR_BOUND as int,
    ensures
        r.0 == spec_rot_x(x as int, y as int, ROT_COS as int, rot_sin_of(ccw)),
        r.1 == spec_rot_y(x as int, y as int, ROT_COS as int, rot_sin_of(ccw)),
        r.0 * r.0 + r.1 * r.1 <= DIR_BOUND as int * DIR_BOUND as int,
{
    let s: i64 = if ccw {
        ROT_SIN
    } else {
        -ROT_SIN
    };
    proof {
        lemma_norm_component_bound(x as int, y as int, DIR_BOUND as int);
        lemma_mul_le(x as int, ROT_COS as int, DIR_BOUND as int, SCALE as int);
        lemma_mul_le(y as int, s as int, DIR_BOUND as int, SCALE as int);
        lemma_mul_le(x as int, s as int, DIR_BOUND as int, SCALE as int);
        lemma_mul_le(y as int, ROT_COS as int, DIR_BOUND as int, SCALE as int);
        lemma_tdiv_abs_le(x as int * ROT_COS as int - y as int * s as int, SCALE as int);
        lemma_tdiv_abs_le(x as int * s as int + y as int * ROT_COS as int, SCALE as int);
        lemma_rot_norm_bound(
            x as int,
            y as int,
            ROT_COS as int,
            s as int,
            DIR_BOUND as int * DIR_BOUND as int,
        );
    }
    let nx: i64 = fp_dot(x, ROT_COS, y, -s);
    let ny: i64 = fp_dot(x, s, y, ROT_COS);
    (nx, ny)
}

/// Sine coefficient of one rotation tick: positive counterclockwise,
/// negated clockwise.
pub open spec fn rot_sin_of(ccw: bool) -> int {
    if ccw {
        ROT_SIN as int
    } else {
        -(ROT_SIN as int)
    }
}

impl Player {
    /// Well-formed player on a grid: position inside the grid, heading of
    /// bounded magnitude.
    pub open spec fn wf(self, m: GridMap) -> bool {
        &&& 0 <= self.pos_x < m.width * SCALE
        &&& 0 <= self.pos_y < m.height * SCALE
        &&& self.dir_x * self.dir_x + self.dir_y * self.dir_y <= DIR_BOUND as int * DIR_BOUND as int
    }

    /// Records a held or released intent; the other flags and the pose are
    /// untouched, last writer wins per flag.
    pub open spec fn spec_set_intent(self, a: Action, active: bool) -> Player {
        match a {
            Action::Forward => Player { forward: active, ..self },
            Action::Backward => Player { backward: active, ..self },
            Action::RotateLeft => Player { rotate_left: active, ..self },
            Action::RotateRight => Player { rotate_right: active, ..self },
        }
    }

    /// The heading after the rotation intents of one tick: rotate-left turns
    /// counterclockwise by the tick angle, rotate-right clockwise.
    pub open spec fn spec_rotated(self) -> Player {
        let p1 = if self.rotate_left {
            Player {
                dir_x: spec_rot_x(
                    self.dir_x as int,
                    self.dir_y as int,
                    ROT_COS as int,
                    rot_sin_of(true),
                ) as i64,
                dir_y: spec_rot_y(
                    self.dir_x as int,
                    self.dir_y as int,
                    ROT_COS as int,
                    rot_sin_of(true),
                ) as i64,
                ..self
            }
        } else {
            self
        };
        if p1.rotate_right {
            Player {
                dir_x: spec_rot_x(
                    p1.dir_x as int,
                    p1.dir_y as int,
                    ROT_COS as int,
                    rot_sin_of(false),
                ) as i64,
                dir_y: spec_rot_y(
                    p1.dir_x as int,
                    p1.dir_y as int,
                    ROT_COS as int,
                    rot_sin_of(false),
                ) as i64,
                ..p1
            }
        } else {
            p1
        }
    }

    /// Displacement of one tick along the y axis: `dir_y * SPEED`, truncated.
    pub open spec fn spec_dy(self) -> int {
        tdiv(self.dir_y * SPEED, SCALE as int)
    }

    /// Displacement of one tick along the x axis.
    pub open spec fn spec_dx(self) -> int {
        tdiv(self.dir_x * SPEED, SCALE as int)
    }

    /// The y-axis half of a move: the candidate position is tested against
    /// the grid (floored to cell coordinates) and committed only if the
    /// target cell is passable.
    pub open spec fn spec_move_y(self, m: GridMap, sgn: int) -> Player {
        let ny = self.pos_y + sgn * self.spec_dy();
        if !m.spec_is_wall(self.pos_x as int / (SCALE as int), ny / (SCALE as int)) {
            Player { pos_y: ny as i64, ..self }
        } else {
            self
        }
    }

    /// The x-axis half of a move, tested against the y position the y half
    /// produced; blocking one axis never blocks the other (wall sliding).
    pub open spec fn spec_move_x(self, m: GridMap, sgn: int) -> Player {
        let nx = self.pos_x + sgn * self.spec_dx();
        if !m.spec_is_wall(nx / (SCALE as int), self.pos_y as int / (SCALE as int)) {
            Player { pos_x: nx as i64, ..self }
        } else {
            self
        }
    }

    /// One whole update tick: rotation intents first, then the forward move,
    /// then the backward move, y axis before x axis within each move.
    pub open spec fn spec_tick(self, m: GridMap) -> Player {
        let p1 = self.spec_rotated();
        let p2 = if p1.forward {
            p1.spec_move_y(m, 1).spec_move_x(m, 1)
        } else {
            p1
        };
        if p2.backward {
            p2.spec_move_y(m, -1).spec_move_x(m, -1)
        } else {
            p2
        }
    }

    /// Builds a player with all intents released, rejecting a pose that is
    /// not well-formed on the given grid.
    pub fn new(pos_x: i64, pos_y: i64, dir_x: i64, dir_y: i64, m: &GridMap) -> (p: Option<Player>)
        requires
            m.wf(),
        ensures
            match p {
                Some(q) => q == (Player {
                    pos_x,
                    pos_y,
                    dir_x,
                    dir_y,
                    forward: false,
                    backward: false,
                    rotate_left: false,
                    rotate_right: false,
                }) && q.wf(*m),
                None => !(Player {
                    pos_x,
                    pos_y,
                    dir_x,
                    dir_y,
                    forward: false,
                    backward: false,
                    rotate_left: false,
                    rotate_right: false,
                }).wf(*m),
            },
    {
        proof {
            if dir_x as int * dir_x as int + dir_y as int * dir_y as int <= DIR_BOUND as int
                * DIR_BOUND as int {
                lemma_norm_component_bound(dir_x as int, dir_y as int, DIR_BOUND as int);
            }
        }
        if 0 <= pos_x && pos_x < (m.width as i64) * SCALE && 0 <= pos_y && pos_y < (m.height as i64)
            * SCALE && -DIR_BOUND <= dir_x && dir_x <= DIR_BOUND && -DIR_BOUND <= dir_y && dir_y
            <= DIR_BOUND {
            proof {
                lemma_mul_le(dir_x as int, dir_x as int, DIR_BOUND as int, DIR_BOUND as int);
                lemma_mul_le(dir_y as int, dir_y as int, DIR_BOUND as int, DIR_BOUND as int);
            }
            let nsq: i64 = dir_x * dir_x + dir_y * dir_y;
            if nsq <= DIR_BOUND * DIR_BOUND {
                Some(
                    Player {
                        pos_x,
                        pos_y,
                        dir_x,
                        dir_y,
                        forward: false,
                        backward: false,
                        rotate_left: false,
                        rotate_right: false,
                    },
                )
            } else {
                None
            }
        } else {
            None
        }
    }

    /// Records a held (`active == true`) or released intent.
    pub fn set_intent(&mut self, a: Action, active: bool)
        ensures
            *final(self) == old(self).spec_set_intent(a, active),
    {
        match a {
            Action::Forward => self.forward = active,
            Action::Backward => self.backward = active,
            Action::RotateLeft => self.rotate_left = active,
            Action::RotateRight => self.rotate_right = active,
        }
    }

    /// One move (forward or backward): the y axis is tried first, then the x
    /// axis against the y position that resulted, each axis committed only if
    /// its target cell is passable (wall sliding).
    fn move_axes(&mut self, m: &GridMap, fwd: bool)
        requires
            m.wf(),
            old(self).wf(*m),
        ensures
            *final(self) == old(self).spec_move_y(
                *m,
                if fwd {
                    1int
                } else {
                    -1int
                },
            ).spec_move_x(
                *m,
                if fwd {
                    1int
                } else {
                    -1int
                },
            ),
            final(self).wf(*m),
    {
        proof {
            lemma_norm_component_bound(self.dir_x as int, self.dir_y as int, DIR_BOUND as int);
            lemma_mul_le(self.dir_y as int, SPEED as int, DIR_BOUND as int, SPEED as int);
            lemma_tdiv_abs_le(self.dir_y as int * SPEED as int, SCALE as int);
            lemma_mul_le(self.dir_x as int, SPEED as int, DIR_BOUND as int, SPEED as int);
            lemma_tdiv_abs_le(self.dir_x as int * SPEED as int, SCALE as int);
        }
        let dy: i64 = fp_mul(self.dir_y, SPEED);
        let ny: i64 = if fwd {
            self.pos_y + dy
        } else {
            self.pos_y - dy
        };
        let cy: i64 = fp_floor(ny);
        let cx: i64 = fp_floor(self.pos_x);
        if !m.is_wall(cx, cy) {
            proof {
                crate::fixed::lemma_floor_range(ny as int, SCALE as int, m.height as int);
            }
            self.pos_y = ny;
        }
        let dx: i64 = fp_mul(self.dir_x, SPEED);
        let nx: i64 = if fwd {
            self.pos_x + dx
        } else {
            self.pos_x - dx
        };
        let cx2: i64 = fp_floor(nx);
        let cy2: i64 = fp_floor(self.pos_y);
        if !m.is_wall(cx2, cy2) {
            proof {
                crate::fixed::lemma_floor_range(nx as int, SCALE as int, m.width as int);
            }
            self.pos_x = nx;
        }
    }

    /// One update tick: rotation intents first (left, then right), then the
    /// forward move, then the backward move. With no intent held, the tick is
    /// a no-op.
    pub fn tick(&mut self, m: &GridMap)
        requires
            m.wf(),
            old(self).wf(*m),
        ensures
            *final(self) == old(self).spec_tick(*m),
            final(self).wf(*m),
    {
        if self.rotate_left {
            let r: (i64, i64) = rotate_step(self.dir_x, self.dir_y, true);
            self.dir_x = r.0;
            self.dir_y = r.1;
        }
        if self.rotate_right {
            let r: (i64, i64) = rotate_step(self.dir_x, self.dir_y, false);
            self.dir_x = r.0;
            self.dir_y = r.1;
        }
        assert(*self == old(self).spec_rotated());
        if self.forward {
            self.move_axes(m, true);
        }
        if self.backward {
            self.move_axes(m, false);
        }
    }
}

/// Collision holds on the y axis alone: with only the forward intent held and
/// a wall in the y target cell, a tick leaves the y position unchanged
/// (whatever happens on the x axis).
pub proof fn lemma_wall_blocks_forward_y(p: Player, m: GridMap)
    requires
        p.forward,
        !p.backward,
        !p.rotate_left,
        !p.rotate_right,
        m.spec_is_wall(p.pos_x as int / (SCALE as int), (p.pos_y + p.spec_dy()) / (SCALE as int)),
    ensures
        p.spec_tick(m).pos_y == p.pos_y,
{
}

/// Collision holds on the x axis alone: with only the forward intent held and
/// a wall in the x target cell (tested against the y position the y half of
/// the move produced), a tick leaves the x position unchanged.
pub proof fn lemma_wall_blocks_forward_x(p: Player, m: GridMap)
    requires
        p.forward,
        !p.backward,
        !p.rotate_left,
        !p.rotate_right,
        m.spec_is_wall(
            (p.spec_move_y(m, 1).pos_x + p.spec_move_y(m, 1).spec_dx()) / (SCALE as int),
            p.spec_move_y(m, 1).pos_y as int / (SCALE as int),
        ),
    ensures
        p.spec_tick(m).pos_x == p.pos_x,
{
}

/// Pressing and then releasing the same intent with no tick between them
/// leaves position and heading untouched: intents only take effect at tick
/// time, they are not integrated over the event history.
pub proof fn lemma_press_release_is_inert(p: Player, a: Action)
    ensures
        p.spec_set_intent(a, true).spec_set_intent(a, false).pos_x == p.pos_x,
        p.spec_set_intent(a, true).spec_set_intent(a, false).pos_y == p.pos_y,
        p.spec_set_intent(a, true).spec_set_intent(a, false).dir_x == p.dir_x,
        p.spec_set_intent(a, true).spec_set_intent(a, false).dir_y == p.dir_y,
{
}

} // verus!
