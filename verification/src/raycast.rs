//! The raycaster: one ray per screen column, DDA (digital differential
//! analysis) traversal of the grid to the first solid cell, perpendicular
//! wall distance, and the projected wall slice for the drawing surface.
//!
//! The traversal is modeled by the recursive `spec_dda_run`, which applies
//! `spec_dda_step` a bounded number of times and stutters once a wall is hit;
//! the executable loop is proved to compute exactly that state.

use vstd::prelude::*;
use crate::fixed::{SCALE, iabs, tdiv, fp_mul, fp_div, fp_floor, div_trunc, lemma_mul_le,
    lemma_tdiv_abs_le, lemma_tdiv_scaled_le, lemma_floor_range_converse};
use crate::grid::{GridMap, wrap_step};
use crate::player::{Player, DIR_BOUND, rotate_step, rot_sin_of, spec_rot_x, spec_rot_y,
    lemma_norm_component_bound};

verus! {

/// Bound on a ray direction component: heading plus at most the full camera
/// plane, each bounded by `player::DIR_BOUND`.
pub const RAY_BOUND: i64 = 32_000_000;

/// Bound on a per-axis delta distance: `SCALE * SCALE`, reached when a ray
/// component is a single raw step.
pub const DELTA_MAX: i64 = 1_000_000_000_000;

/// The per-ray DDA stepping parameters, fixed before the traversal starts.
/// An axis with a zero ray component is inactive: the ray never crosses its
/// grid lines, so the traversal never steps it.
pub struct RayParams {
    pub step_x: int,
    pub step_y: int,
    pub delta_x: int,
    pub delta_y: int,
    pub active_x: bool,
    pub active_y: bool,
}

/// The DDA traversal state: current cell, accumulated side distances, which
/// axis the last step crossed, and the cell value found there.
pub struct Dda {
    pub map_x: int,
    pub map_y: int,
    pub side_x: int,
    pub side_y: int,
    pub side_on_y: bool,
    pub value: int,
    pub hit: bool,
}

/// Sign of a ray component as the DDA steps it: zero counts as negative,
/// matching a strict `> 0` test.
pub open spec fn spec_sign(v: int) -> int {
    if v > 0 {
        1
    } else {
        -1
    }
}

/// Delta distance along one axis: the ray length between two successive grid
/// lines of that axis, `|1 / r|` in fixed point with truncation.
pub open spec fn spec_delta(r: int) -> int {
    tdiv(spec_sign(r) * SCALE * SCALE, r)
}

/// Initial side distance along one axis: the ray length from the start
/// position to the first grid line of that axis, the partial-step scaling of
/// the delta distance.
pub open spec fn spec_side_init(pos: int, r: int) -> int {
    let step = spec_sign(r);
    let cell = pos / (SCALE as int);
    let inner = step * (cell * SCALE) + (if step > 0 {
        SCALE as int
    } else {
        0
    }) - step * pos;
    tdiv(inner * spec_delta(r), SCALE as int)
}

/// The stepping parameters of a ray.
pub open spec fn spec_ray_params(rx: int, ry: int) -> RayParams {
    RayParams {
        step_x: spec_sign(rx),
        step_y: spec_sign(ry),
        delta_x: if rx == 0 {
            0
        } else {
            spec_delta(rx)
        },
        delta_y: if ry == 0 {
            0
        } else {
            spec_delta(ry)
        },
        active_x: rx != 0,
        active_y: ry != 0,
    }
}

/// The DDA state before the first step.
pub open spec fn spec_dda_init(pos_x: int, pos_y: int, rx: int, ry: int) -> Dda {
    Dda {
        map_x: pos_x / (SCALE as int),
        map_y: pos_y / (SCALE as int),
        side_x: if rx == 0 {
            0
        } else {
            spec_side_init(pos_x, rx)
        },
        side_y: if ry == 0 {
            0
        } else {
            spec_side_init(pos_y, ry)
        },
        side_on_y: false,
        value: 0,
        hit: false,
    }
}

/// One DDA step: advance along the axis with the smaller accumulated side
/// distance (ties and an inactive y axis favor x), wrap the stepped map
/// coordinate toroidally, and read the cell landed on; a nonzero cell is a
/// hit and freezes the state.
pub open spec fn spec_dda_step(m: GridMap, r: RayParams, d: Dda) -> Dda {
    if d.hit {
        d
    } else {
        let go_y = r.active_y && (!r.active_x || d.side_y < d.side_x);
        let nmx = if go_y {
            d.map_x
        } else {
            (d.map_x + r.step_x) % (m.width as int)
        };
        let nmy = if go_y {
            (d.map_y + r.step_y) % (m.height as int)
        } else {
            d.map_y
        };
        let nsx = if go_y {
            d.side_x
        } else {
            d.side_x + r.delta_x
        };
        let nsy = if go_y {
            d.side_y + r.delta_y
        } else {
            d.side_y
        };
        let v = m.spec_cell(nmx, nmy);
        Dda {
            map_x: nmx,
            map_y: nmy,
            side_x: nsx,
            side_y: nsy,
            side_on_y: go_y,
            value: v,
            hit: v != 0,
        }
    }
}

/// The DDA state after at most `n` steps (the traversal stutters on a hit).
pub open spec fn spec_dda_run(m: GridMap, r: RayParams, d: Dda, n: nat) -> Dda
    decreases n,
{
    if n == 0 {
        d
    } else {
        spec_dda_step(m, r, spec_dda_run(m, r, d, (n - 1) as nat))
    }
}

/// Once the traversal has hit, running it longer changes nothing.
pub proof fn lemma_dda_run_stutter(m: GridMap, r: RayParams, d: Dda, n1: nat, n2: nat)
    requires
        n1 <= n2,
        spec_dda_run(m, r, d, n1).hit,
    ensures
        spec_dda_run(m, r, d, n2) == spec_dda_run(m, r, d, n1),
    decreases n2,
{
    if n1 < n2 {
        lemma_dda_run_stutter(m, r, d, n1, (n2 - 1) as nat);
    }
}

/// Perpendicular distance from the start position to the wall face crossed
/// by the last step on the axis of ray component `r`: measured along the
/// camera's forward axis, which removes the fisheye distortion of raw
/// Euclidean ray length.
pub open spec fn spec_perp_dist(pos: int, r: int, cell: int) -> int {
    let step = spec_sign(r);
    tdiv(
        (cell * SCALE + (if step < 0 {
            SCALE as int
        } else {
            0
        }) - pos) * SCALE,
        r,
    )
}

/// A wall hit reported by `cast_ray`.
#[derive(Clone, Copy, Debug, PartialEq, Eq, Structural)]
pub struct RayHit {
    pub map_x: usize,
    pub map_y: usize,
    pub side_on_y: bool,
    pub value: i32,
    pub perp_dist: i64,
}

/// Casts one ray from a fixed-point position along `(raydir_x, raydir_y)`,
/// stepping the grid toroidally for at most `max_dof` DDA steps, and reports
/// the first solid cell with its perpendicular distance, or `None` if the
/// depth budget runs out first. An axis with a zero ray component is simply
/// never stepped; at least one component must be nonzero.
#[verifier::loop_isolation(false)]
pub fn cast_ray(m: &GridMap, pos_x: i64, pos_y: i64, raydir_x: i64, raydir_y: i64, max_dof: u8) -> (res:
    Option<RayHit>)
    requires
        m.wf(),
        0 <= pos_x < m.width * SCALE,
        0 <= pos_y < m.height * SCALE,
        -RAY_BOUND <= raydir_x <= RAY_BOUND,
        -RAY_BOUND <= raydir_y <= RAY_BOUND,
        raydir_x != 0 || raydir_y != 0,
    ensures
        ({
            let d = spec_dda_run(
                *m,
                spec_ray_params(raydir_x as int, raydir_y as int),
                spec_dda_init(pos_x as int, pos_y as int, raydir_x as int, raydir_y as int),
                max_dof as nat,
            );
            match res {
                None => !d.hit,
                Some(h) => d.hit && h.map_x == d.map_x && h.map_y == d.map_y && h.side_on_y
                    == d.side_on_y && h.value == d.value && h.perp_dist == (if d.side_on_y {
                    spec_perp_dist(pos_y as int, raydir_y as int, d.map_y)
                } else {
                    spec_perp_dist(pos_x as int, raydir_x as int, d.map_x)
                }),
            }
        }),
{
    let ghost rp = spec_ray_params(raydir_x as int, raydir_y as int);
    let ghost d0 = spec_dda_init(pos_x as int, pos_y as int, raydir_x as int, raydir_y as int);
    let active_x: bool = raydir_x != 0;
    let active_y: bool = raydir_y != 0;
    let step_up_x: bool = raydir_x > 0;
    let step_up_y: bool = raydir_y > 0;
    let delta_x: i64 = if active_x {
        proof {
            lemma_tdiv_abs_le(
                (if raydir_x > 0 {
                    SCALE as int
                } else {
                    -(SCALE as int)
                }) * SCALE as int,
                raydir_x as int,
            );
        }
        fp_div(
            if raydir_x > 0 {
                SCALE
            } else {
                -SCALE
            },
            raydir_x,
        )
    } else {
        0
    };
    let delta_y: i64 = if active_y {
        proof {
            lemma_tdiv_abs_le(
                (if raydir_y > 0 {
                    SCALE as int
                } else {
                    -(SCALE as int)
                }) * SCALE as int,
                raydir_y as int,
            );
        }
        fp_div(
            if raydir_y > 0 {
                SCALE
            } else {
                -SCALE
            },
            raydir_y,
        )
    } else {
        0
    };
    proof {
        lemma_floor_range_converse(pos_x as int, SCALE as int, m.width as int);
        lemma_floor_range_converse(pos_y as int, SCALE as int, m.height as int);
    }
    let mx0: i64 = fp_floor(pos_x);
    let my0: i64 = fp_floor(pos_y);
    let sdx0: i64 = if active_x {
        let inner: i64 = if raydir_x > 0 {
            (mx0 * SCALE + SCALE) - pos_x
        } else {
            pos_x - mx0 * SCALE
        };
        proof {
            let q: int = pos_x as int / (SCALE as int);
            let sg: int = spec_sign(raydir_x as int);
            if raydir_x > 0 {
                assert(inner as int == q * SCALE + SCALE - pos_x);
                assert(inner as int == sg * (q * SCALE) + SCALE - sg * pos_x) by (nonlinear_arith)
                    requires
                        sg == 1,
                        inner as int == q * SCALE + SCALE - pos_x,
                ;
            } else {
                assert(inner as int == pos_x as int - q * SCALE);
                assert(inner as int == sg * (q * SCALE) + 0 - sg * pos_x) by (nonlinear_arith)
                    requires
                        sg == -1,
                        inner as int == pos_x as int - q * SCALE,
                ;
            }
            assert(delta_x as int == spec_delta(raydir_x as int));
            assert(spec_side_init(pos_x as int, raydir_x as int) == tdiv(
                inner as int * spec_delta(raydir_x as int),
                SCALE as int,
            ));
            lemma_mul_le(inner as int, delta_x as int, SCALE as int, DELTA_MAX as int);
            lemma_tdiv_abs_le(inner as int * delta_x as int, SCALE as int);
            lemma_tdiv_scaled_le(inner as int * delta_x as int, SCALE as int, DELTA_MAX as int);
        }
        fp_mul(inner, delta_x)
    } else {
        0
    };
    let sdy0: i64 = if active_y {
        let inner: i64 = if raydir_y > 0 {
            (my0 * SCALE + SCALE) - pos_y
        } else {
            pos_y - my0 * SCALE
        };
        proof {
            let q: int = pos_y as int / (SCALE as int);
            let sg: int = spec_sign(raydir_y as int);
            if raydir_y > 0 {
                assert(inner as int == q * SCALE + SCALE - pos_y);
                assert(inner as int == sg * (q * SCALE) + SCALE - sg * pos_y) by (nonlinear_arith)
                    requires
                        sg == 1,
                        inner as int == q * SCALE + SCALE - pos_y,
                ;
            } else {
                assert(inner as int == pos_y as int - q * SCALE);
                assert(inner as int == sg * (q * SCALE) + 0 - sg * pos_y) by (nonlinear_arith)
                    requires
                        sg == -1,
                        inner as int == pos_y as int - q * SCALE,
                ;
            }
            assert(delta_y as int == spec_delta(raydir_y as int));
            assert(spec_side_init(pos_y as int, raydir_y as int) == tdiv(
                inner as int * spec_delta(raydir_y as int),
                SCALE as int,
            ));
            lemma_mul_le(inner as int, delta_y as int, SCALE as int, DELTA_MAX as int);
            lemma_tdiv_abs_le(inner as int * delta_y as int, SCALE as int);
            lemma_tdiv_scaled_le(inner as int * delta_y as int, SCALE as int, DELTA_MAX as int);
        }
        fp_mul(inner, delta_y)
    } else {
        0
    };
    let mut mx: usize = mx0 as usize;
    let mut my: usize = my0 as usize;
    let mut sdx: i64 = sdx0;
    let mut sdy: i64 = sdy0;
    let mut side_on_y: bool = false;
    let mut value: i32 = 0;
    let mut hit: bool = false;
    let mut dof: u8 = 0;
    while !hit && dof < max_dof
        invariant
            dof <= max_dof,
            mx < m.width,
            my < m.height,
            iabs(sdx as int) <= DELTA_MAX as int * (1 + dof as int),
            iabs(sdy as int) <= DELTA_MAX as int * (1 + dof as int),
            spec_dda_run(*m, rp, d0, dof as nat) == (Dda {
                map_x: mx as int,
                map_y: my as int,
                side_x: sdx as int,
                side_y: sdy as int,
                side_on_y: side_on_y,
                value: value as int,
                hit: hit,
            }),
            hit ==> (side_on_y ==> raydir_y != 0) && (!side_on_y ==> raydir_x != 0),
        decreases max_dof - dof,
    {
        let go_y: bool = active_y && (!active_x || sdy < sdx);
        if go_y {
            my = wrap_step(my, step_up_y, m.height);
            sdy = sdy + delta_y;
            side_on_y = true;
        } else {
            mx = wrap_step(mx, step_up_x, m.width);
            sdx = sdx + delta_x;
            side_on_y = false;
        }
        let v: i32 = m.cell_at(mx as i64, my as i64);
        value = v;
        hit = v != 0;
        dof = dof + 1;
        proof {
            assert(spec_dda_run(*m, rp, d0, dof as nat) == spec_dda_step(
                *m,
                rp,
                spec_dda_run(*m, rp, d0, (dof - 1) as nat),
            ));
        }
    }
    if hit {
        proof {
            lemma_dda_run_stutter(*m, rp, d0, dof as nat, max_dof as nat);
        }
        let perp: i64 = if side_on_y {
            let num: i64 = (my as i64) * SCALE + (if step_up_y {
                0
            } else {
                SCALE
            }) - pos_y;
            proof {
                lemma_mul_le(num as int, SCALE as int, 0x7470_0000_0000, SCALE as int);
                lemma_tdiv_abs_le(num as int * SCALE as int, raydir_y as int);
            }
            fp_div(num, raydir_y)
        } else {
            let num: i64 = (mx as i64) * SCALE + (if step_up_x {
                0
            } else {
                SCALE
            }) - pos_x;
            proof {
                lemma_mul_le(num as int, SCALE as int, 0x7470_0000_0000, SCALE as int);
                lemma_tdiv_abs_le(num as int * SCALE as int, raydir_x as int);
            }
            fp_div(num, raydir_x)
        };
        Some(RayHit { map_x: mx, map_y: my, side_on_y, value, perp_dist: perp })
    } else {
        None
    }
}

/// A per-column draw command: a filled slice rectangle. Horizontal extents
/// are whole pixels; the vertical top and the height are fixed-point pixel
/// values (`SCALE` raw steps per pixel). `dim` asks for the two-tone shading
/// of a wall face crossed on the y axis (alpha reduced by 30%).
#[derive(Clone, Copy, Debug, PartialEq, Eq, Structural)]
pub struct ColumnRect {
    pub x_px: i64,
    pub y_fp: i64,
    pub w_px: i64,
    pub h_fp: i64,
    pub dim: bool,
}

/// Normalized camera-plane coordinate of column `x`: `2 * x / (width * rays) - 1`
/// in fixed point, ranging over (-1, 1) across the fan of rays.
pub open spec fn spec_camera_x(x: int, width: int, rays: int) -> int {
    tdiv(2 * x * SCALE, width * rays) - SCALE
}

/// The camera: screen extents in pixels, the camera plane vector that
/// spans the field of view, samples per map-width unit, and the DDA depth
/// budget.
pub struct Camera {
    pub screen_width: i64,
    pub screen_height: i64,
    pub plane_x: i64,
    pub plane_y: i64,
    pub max_dof: u8,
    pub rays: i64,
}

impl Camera {
    /// Well-formed view: positive bounded screen, bounded plane magnitude,
    /// positive bounded ray count.
    pub open spec fn wf(self) -> bool {
        &&& 0 < self.screen_width <= 65536
        &&& 0 < self.screen_height <= 65536
        &&& self.plane_x * self.plane_x + self.plane_y * self.plane_y <= DIR_BOUND as int
            * DIR_BOUND as int
        &&& 0 < self.rays <= 4096
    }

    /// Builds a view, rejecting parameters that are not well-formed.
    pub fn new(
        screen_width: i64,
        screen_height: i64,
        plane_x: i64,
        plane_y: i64,
        max_dof: u8,
        rays: i64,
    ) -> (v: Option<Camera>)
        ensures
            match v {
                Some(w) => w == (Camera { screen_width, screen_height, plane_x, plane_y, max_dof, rays })
                    && w.wf(),
                None => !(Camera { screen_width, screen_height, plane_x, plane_y, max_dof, rays }).wf(),
            },
    {
        proof {
            if plane_x as int * plane_x as int + plane_y as int * plane_y as int <= DIR_BOUND as int
                * DIR_BOUND as int {
                lemma_norm_component_bound(plane_x as int, plane_y as int, DIR_BOUND as int);
            }
        }
        if 0 < screen_width && screen_width <= 65536 && 0 < screen_height && screen_height <= 65536
            && 0 < rays && rays <= 4096 && -DIR_BOUND <= plane_x && plane_x <= DIR_BOUND
            && -DIR_BOUND <= plane_y && plane_y <= DIR_BOUND {
            proof {
                lemma_mul_le(plane_x as int, plane_x as int, DIR_BOUND as int, DIR_BOUND as int);
                lemma_mul_le(plane_y as int, plane_y as int, DIR_BOUND as int, DIR_BOUND as int);
            }
            let nsq: i64 = plane_x * plane_x + plane_y * plane_y;
            if nsq <= DIR_BOUND * DIR_BOUND {
                Some(Camera { screen_width, screen_height, plane_x, plane_y, max_dof, rays })
            } else {
                None
            }
        } else {
            None
        }
    }

    /// The camera plane after the rotation intents of one tick, in lockstep
    /// with the player's heading: the same coefficients, the same order.
    pub open spec fn spec_update(self, rotate_left: bool, rotate_right: bool) -> Camera {
        let v1 = if rotate_left {
            Camera {
                plane_x: spec_rot_x(
                    self.plane_x as int,
                    self.plane_y as int,
                    crate::player::ROT_COS as int,
                    rot_sin_of(true),
                ) as i64,
                plane_y: spec_rot_y(
                    self.plane_x as int,
                    self.plane_y as int,
                    crate::player::ROT_COS as int,
                    rot_sin_of(true),
                ) as i64,
                ..self
            }
        } else {
            self
        };
        if rotate_right {
            Camera {
                plane_x: spec_rot_x(
                    v1.plane_x as int,
                    v1.plane_y as int,
                    crate::player::ROT_COS as int,
                    rot_sin_of(false),
                ) as i64,
                plane_y: spec_rot_y(
                    v1.plane_x as int,
                    v1.plane_y as int,
                    crate::player::ROT_COS as int,
                    rot_sin_of(false),
                ) as i64,
                ..v1
            }
        } else {
            v1
        }
    }

    /// Rotates the camera plane exactly as the player's heading rotates this
    /// tick, keeping the projection plane perpendicular to the heading.
    pub fn update(&mut self, p: &Player)
        requires
            old(self).wf(),
        ensures
            *final(self) == old(self).spec_update(p.rotate_left, p.rotate_right),
            final(self).wf(),
    {
        if p.rotate_left {
            let r: (i64, i64) = rotate_step(self.plane_x, self.plane_y, true);
            self.plane_x = r.0;
            self.plane_y = r.1;
        }
        if p.rotate_right {
            let r: (i64, i64) = rotate_step(self.plane_x, self.plane_y, false);
            self.plane_x = r.0;
            self.plane_y = r.1;
        }
    }

    /// The draw command of screen column `x`, or `None` for a skipped column:
    /// a ray direction with an exactly zero component, or a traversal that
    /// exhausts the depth budget without a hit.
    pub open spec fn spec_column(self, p: Player, m: GridMap, x: int) -> Option<ColumnRect> {
        let sc = SCALE as int;
        let cam = spec_camera_x(x, m.width as int, self.rays as int);
        let rdx = p.dir_x + tdiv(self.plane_x * cam, sc);
        let rdy = p.dir_y + tdiv(self.plane_y * cam, sc);
        if rdx == 0 || rdy == 0 {
            None
        } else {
            let d = spec_dda_run(
                m,
                spec_ray_params(rdx, rdy),
                spec_dda_init(p.pos_x as int, p.pos_y as int, rdx, rdy),
                self.max_dof as nat,
            );
            if !d.hit {
                None
            } else {
                let perp = if d.side_on_y {
                    spec_perp_dist(p.pos_y as int, rdy, d.map_y)
                } else {
                    spec_perp_dist(p.pos_x as int, rdx, d.map_x)
                };
                let full = self.screen_height * sc;
                let lh = if perp > 0 {
                    tdiv(full * sc, perp)
                } else {
                    full
                };
                let lw = tdiv(self.screen_width as int, m.width * self.rays);
                Some(
                    ColumnRect {
                        x_px: (x * lw) as i64,
                        y_fp: tdiv(full - lh, 2) as i64,
                        w_px: lw as i64,
                        h_fp: lh as i64,
                        dim: d.side_on_y,
                    },
                )
            }
        }
    }

    /// Renders one screen column: casts the column's ray and projects the hit
    /// into a wall-slice rectangle, two-tone shaded by the wall orientation.
    pub fn render_column(&self, x: i64, p: &Player, m: &GridMap) -> (r: Option<ColumnRect>)
        requires
            self.wf(),
            m.wf(),
            p.wf(*m),
            1 <= x < m.width * self.rays,
        ensures
            r == self.spec_column(*p, *m, x as int),
    {
        proof {
            lemma_mul_le(m.width as int, self.rays as int, 1024, 4096);
        }
        let w: i64 = (m.width as i64) * self.rays;
        let num: i64 = 2 * x * SCALE;
        proof {
            lemma_floor_range_converse(num as int, w as int, 2 * SCALE as int);
        }
        let cam: i64 = div_trunc(num, w) - SCALE;
        proof {
            lemma_norm_component_bound(p.dir_x as int, p.dir_y as int, DIR_BOUND as int);
            lemma_norm_component_bound(self.plane_x as int, self.plane_y as int, DIR_BOUND as int);
            lemma_mul_le(self.plane_x as int, cam as int, DIR_BOUND as int, SCALE as int);
            lemma_mul_le(self.plane_y as int, cam as int, DIR_BOUND as int, SCALE as int);
            lemma_tdiv_scaled_le(self.plane_x as int * cam as int, SCALE as int, DIR_BOUND as int);
            lemma_tdiv_scaled_le(self.plane_y as int * cam as int, SCALE as int, DIR_BOUND as int);
        }
        let rdx: i64 = p.dir_x + fp_mul(self.plane_x, cam);
        let rdy: i64 = p.dir_y + fp_mul(self.plane_y, cam);
        if rdx == 0 || rdy == 0 {
            return None;
        }
        let hit: Option<RayHit> = cast_ray(m, p.pos_x, p.pos_y, rdx, rdy, self.max_dof);
        match hit {
            None => None,
            Some(h) => {
                let full: i64 = self.screen_height * SCALE;
                let lh: i64 = if h.perp_dist > 0 {
                    proof {
                        lemma_mul_le(full as int, SCALE as int, 65536 * SCALE as int, SCALE as int);
                        lemma_tdiv_abs_le(full as int * SCALE as int, h.perp_dist as int);
                    }
                    fp_div(full, h.perp_dist)
                } else {
                    full
                };
                proof {
                    lemma_tdiv_abs_le(self.screen_width as int, w as int);
                }
                let lw: i64 = div_trunc(self.screen_width, w);
                proof {
                    lemma_mul_le(x as int, lw as int, 4194304, 65536);
                    lemma_tdiv_abs_le(full as int - lh as int, 2);
                }
                let xlw: i64 = x * lw;
                let ytop: i64 = div_trunc(full - lh, 2);
                Some(ColumnRect { x_px: xlw, y_fp: ytop, w_px: lw, h_fp: lh, dim: h.side_on_y })
            },
        }
    }

    /// Renders a whole frame: one entry per screen column `x` in
    /// `[1, width * rays)`, in order; `None` entries are skipped columns that
    /// leave the background visible.
    #[verifier::loop_isolation(false)]
    pub fn render(&self, p: &Player, m: &GridMap) -> (frame: Vec<Option<ColumnRect>>)
        requires
            self.wf(),
            m.wf(),
            p.wf(*m),
        ensures
            frame@.len() == m.width * self.rays - 1,
            forall|i: int| 0 <= i < frame@.len() ==> frame@[i] == self.spec_column(*p, *m, i + 1),
    {
        proof {
            lemma_mul_le(m.width as int, self.rays as int, 1024, 4096);
            assert(m.width as int * self.rays as int >= 1 * 1) by (nonlinear_arith)
                requires
                    m.width as int >= 1,
                    self.rays as int >= 1,
            ;
        }
        let w: i64 = (m.width as i64) * self.rays;
        let mut frame: Vec<Option<ColumnRect>> = Vec::new();
        let mut x: i64 = 1;
        while x < w
            invariant
                1 <= x <= w,
                frame@.len() == x - 1,
                forall|i: int| 0 <= i < frame@.len() ==> frame@[i] == self.spec_column(*p, *m, i + 1),
            decreases w - x,
        {
            let c: Option<ColumnRect> = self.render_column(x, p, m);
            frame.push(c);
            x = x + 1;
        }
        frame
    }
}

/// The depth budget is a hard bound: the traversal of a column's ray takes at
/// most `max_dof` steps (`spec_dda_run` applies `spec_dda_step` exactly that
/// often), and a column whose traversal ends without a hit emits no
/// rectangle.
pub proof fn lemma_dof_exhausted_skips_column(v: Camera, p: Player, m: GridMap, x: int)
    ensures
        ({
            let sc = SCALE as int;
            let cam = spec_camera_x(x, m.width as int, v.rays as int);
            let rdx = p.dir_x + tdiv(v.plane_x * cam, sc);
            let rdy = p.dir_y + tdiv(v.plane_y * cam, sc);
            (rdx != 0 && rdy != 0 && !spec_dda_run(
                m,
                spec_ray_params(rdx, rdy),
                spec_dda_init(p.pos_x as int, p.pos_y as int, rdx, rdy),
                v.max_dof as nat,
            ).hit) ==> v.spec_column(p, m, x) is None
        }),
{
}

/// Fisheye-correction sanity: a ray fired straight along the x axis with a
/// unit component (`raydir == SCALE` or `-SCALE`) gets a perpendicular
/// distance equal to the exact axis distance from the position to the wall
/// face it hits (the face at `cell` stepping up, at `cell + 1` stepping
/// down), with no truncation error. By symmetry of `spec_perp_dist`, the same
/// holds along the y axis.
pub proof fn lemma_axis_ray_exact_distance(pos: int, cell: int)
    ensures
        spec_perp_dist(pos, SCALE as int, cell) == cell * SCALE - pos,
        spec_perp_dist(pos, -(SCALE as int), cell) == pos - (cell + 1) * SCALE,
{
    let sc = SCALE as int;
    let k1 = cell * sc - pos;
    let k2 = cell * sc + sc - pos;
    vstd::arithmetic::div_mod::lemma_div_by_multiple(iabs(k1), sc);
    vstd::arithmetic::div_mod::lemma_div_by_multiple(iabs(k2), sc);
    assert(iabs(k1 * sc) == iabs(k1) * sc) by (nonlinear_arith)
        requires
            sc > 0,
    ;
    assert(iabs(k2 * sc) == iabs(k2) * sc) by (nonlinear_arith)
        requires
            sc > 0,
    ;
    assert(spec_perp_dist(pos, sc, cell) == tdiv(k1 * sc, sc));
    assert(spec_perp_dist(pos, -sc, cell) == tdiv(k2 * sc, -sc));
}

} // verus!
