//! One ray cast through the grid with the DDA traversal: from the start
//! tile, repeatedly step to whichever grid line (vertical or horizontal)
//! the ray crosses next, until a solid tile or the edge of the map.

use vstd::prelude::*;
use crate::FP_ONE;
use crate::map::TileMap;
use crate::num::spec_max;
use crate::num::spec_min;
use crate::num::floor_div;
use crate::num::min;
use crate::vec2::Vector2;

verus! {

/// Stands in for an infinite per-unit ray distance on an axis the ray
/// never crosses (direction component zero).  It equals the saturation
/// bound of the side distances, so the degenerate axis can never hold the
/// strictly smaller side distance and never steps.
pub const DELTA_SENTINEL: i64 = 0x2000_0000_0000_0000;

/// Accumulated side distances saturate here, far beyond any distance a
/// ray can accumulate while still inside a map.
pub const SIDE_LIMIT: i64 = 0x2000_0000_0000_0000;

/// Largest tile coordinate magnitude a ray may start from.
pub const MAP_LIMIT: i64 = 0x1_0000_0000_0000;

/// Largest ray start coordinate, in fixed-point world units.
pub const POS_LIMIT: i64 = 0x100_0000_0000_0000;

/// Largest ray direction component magnitude.
pub const RAY_DIR_LIMIT: i64 = 0x8000_0000;

/// What a successful cast returns.
#[derive(Clone, Copy, Debug, PartialEq, Eq, Structural)]
pub struct CastResult {
    /// Perpendicular distance from the camera plane to the hit, in
    /// fixed-point world units (not the Euclidean hit distance).
    pub distance: i64,
    /// The non-zero tile value that was hit.
    pub wall_value: u8,
    /// True when the last DDA step crossed a vertical grid line (a step
    /// along the x axis).
    pub hit_vertical: bool,
}

/// A single ray being cast from a position into the map grid.
pub struct Ray {
    /// The ray direction (need not be unit length).
    pub dir: Vector2,
    /// Fixed-point distance along the ray between consecutive vertical
    /// grid lines (x) and horizontal grid lines (y).
    pub delta_dist: Vector2,
    /// Distance along the ray from the start to the next vertical (x) and
    /// horizontal (y) grid line.
    pub side_dist: Vector2,
    /// Tile step per DDA iteration on the x axis: -1 or +1.
    pub step_x: i64,
    /// Tile step per DDA iteration on the y axis: -1 or +1.
    pub step_y: i64,
    /// Tile currently under traversal, x coordinate.
    pub map_x: i64,
    /// Tile currently under traversal, y coordinate.
    pub map_y: i64,
}

/// Per-unit ray distance along one axis: `|FP_ONE / d|` in fixed-point,
/// with the sentinel for a degenerate axis.
pub open spec fn spec_delta(d: int) -> int {
    if d == 0 {
        DELTA_SENTINEL as int
    } else if d < 0 {
        (FP_ONE * FP_ONE) / (-d)
    } else {
        (FP_ONE * FP_ONE) / d
    }
}

/// Initial side distance: the sub-tile fraction times the per-unit
/// distance, saturated on a degenerate axis.
pub open spec fn spec_init_side(frac: int, delta: int) -> int {
    if delta >= DELTA_SENTINEL {
        DELTA_SENTINEL as int
    } else {
        (frac * delta) / (FP_ONE as int)
    }
}

/// The ray state the DDA starts from, given a position and direction.
pub open spec fn spec_ray_init(pos: Vector2, rd: Vector2) -> Ray {
    let dx = spec_delta(rd.x as int);
    let dy = spec_delta(rd.y as int);
    let mx = pos.x as int / (FP_ONE as int);
    let my = pos.y as int / (FP_ONE as int);
    let fx = if rd.x < 0 {
        pos.x - mx * FP_ONE
    } else {
        mx * FP_ONE + FP_ONE - pos.x
    };
    let fy = if rd.y < 0 {
        pos.y - my * FP_ONE
    } else {
        my * FP_ONE + FP_ONE - pos.y
    };
    Ray {
        dir: rd,
        delta_dist: Vector2 { x: dx as i64, y: dy as i64 },
        side_dist: Vector2 {
            x: spec_init_side(fx, dx) as i64,
            y: spec_init_side(fy, dy) as i64,
        },
        step_x: if rd.x < 0 {
            -1i64
        } else {
            1i64
        },
        step_y: if rd.y < 0 {
            -1i64
        } else {
            1i64
        },
        map_x: mx as i64,
        map_y: my as i64,
    }
}

/// How many more DDA steps the x axis can take before leaving the map.
pub open spec fn spec_rem_x(m: TileMap, mx: int, stx: int) -> int {
    if stx == 1 {
        spec_max(0, m.width - mx)
    } else {
        spec_max(0, mx + 1)
    }
}

/// How many more DDA steps the y axis can take before leaving the map.
pub open spec fn spec_rem_y(m: TileMap, my: int, sty: int) -> int {
    if sty == 1 {
        spec_max(0, m.height - my)
    } else {
        spec_max(0, my + 1)
    }
}

/// Saturating accumulation of a side distance.
pub open spec fn spec_add_side(s: int, d: int) -> int {
    spec_min(s + d, SIDE_LIMIT as int)
}

/// The DDA traversal itself, one recursive unfolding per step.  Ties
/// between the two side distances break to the x axis.
pub open spec fn spec_cast(
    m: TileMap,
    mx: int,
    my: int,
    sx: int,
    sy: int,
    stx: int,
    sty: int,
    dx: int,
    dy: int,
) -> Option<CastResult>
    decreases spec_rem_x(m, mx, stx) + spec_rem_y(m, my, sty),
        when (stx == 1 || stx == -1) && (sty == 1 || sty == -1)
{
    let go_x = sx <= sy;
    let mx1 = if go_x {
        mx + stx
    } else {
        mx
    };
    let my1 = if go_x {
        my
    } else {
        my + sty
    };
    let sx1 = if go_x {
        spec_add_side(sx, dx)
    } else {
        sx
    };
    let sy1 = if go_x {
        sy
    } else {
        spec_add_side(sy, dy)
    };
    if mx1 < 0 || my1 < 0 || mx1 >= m.width || my1 >= m.height {
        None
    } else if m.tile_at(mx1, my1) != 0 {
        Some(
            CastResult {
                distance: (if go_x {
                    sx1 - dx
                } else {
                    sy1 - dy
                }) as i64,
                wall_value: m.tile_at(mx1, my1),
                hit_vertical: go_x,
            },
        )
    } else {
        spec_cast(m, mx1, my1, sx1, sy1, stx, sty, dx, dy)
    }
}

impl Ray {
    /// Bounds under which every cast computation stays within `i64`.
    pub open spec fn wf(self) -> bool {
        &&& (self.step_x == 1 || self.step_x == -1)
        &&& (self.step_y == 1 || self.step_y == -1)
        &&& 1 <= self.delta_dist.x <= DELTA_SENTINEL
        &&& 1 <= self.delta_dist.y <= DELTA_SENTINEL
        &&& 0 <= self.side_dist.x <= SIDE_LIMIT
        &&& 0 <= self.side_dist.y <= SIDE_LIMIT
        &&& -MAP_LIMIT <= self.map_x <= MAP_LIMIT
        &&& -MAP_LIMIT <= self.map_y <= MAP_LIMIT
    }

    /// Sets up the DDA state for a ray from `player_pos` toward `ray_dir`.
    pub fn new(player_pos: Vector2, ray_dir: Vector2) -> (r: Ray)
        requires
            -POS_LIMIT <= player_pos.x <= POS_LIMIT,
            -POS_LIMIT <= player_pos.y <= POS_LIMIT,
            -RAY_DIR_LIMIT <= ray_dir.x <= RAY_DIR_LIMIT,
            -RAY_DIR_LIMIT <= ray_dir.y <= RAY_DIR_LIMIT,
        ensures
            r == spec_ray_init(player_pos, ray_dir),
            r.wf(),
    {
        let delta_dist_x = Self::delta_axis(ray_dir.x);
        let delta_dist_y = Self::delta_axis(ray_dir.y);

        let map_x = floor_div(player_pos.x, FP_ONE);
        let map_y = floor_div(player_pos.y, FP_ONE);
        proof {
            lemma_floor_bounds(player_pos.x as int, map_x as int);
            lemma_floor_bounds(player_pos.y as int, map_y as int);
        }

        let (step_x, side_dist_x) = if ray_dir.x < 0 {
            (-1i64, Self::init_side(player_pos.x - map_x * FP_ONE, delta_dist_x))
        } else {
            (1i64, Self::init_side(map_x * FP_ONE + FP_ONE - player_pos.x, delta_dist_x))
        };
        let (step_y, side_dist_y) = if ray_dir.y < 0 {
            (-1i64, Self::init_side(player_pos.y - map_y * FP_ONE, delta_dist_y))
        } else {
            (1i64, Self::init_side(map_y * FP_ONE + FP_ONE - player_pos.y, delta_dist_y))
        };

        Ray {
            dir: ray_dir,
            delta_dist: Vector2 { x: delta_dist_x, y: delta_dist_y },
            side_dist: Vector2 { x: side_dist_x, y: side_dist_y },
            step_x,
            step_y,
            map_x,
            map_y,
        }
    }

    /// Per-unit ray distance for one axis of the direction.
    fn delta_axis(d: i64) -> (r: i64)
        requires
            -RAY_DIR_LIMIT <= d <= RAY_DIR_LIMIT,
        ensures
            r == spec_delta(d as int),
            1 <= r <= FP_ONE * FP_ONE || r == DELTA_SENTINEL,
            1 <= r <= DELTA_SENTINEL,
    {
        if d == 0 {
            DELTA_SENTINEL
        } else {
            let ad = if d < 0 {
                -d
            } else {
                d
            };
            let r = (FP_ONE * FP_ONE) / ad;
            proof {
                lemma_div_pos_range(FP_ONE * FP_ONE, ad as int);
                vstd::arithmetic::div_mod::lemma_div_non_zero(FP_ONE * FP_ONE, ad as int);
            }
            r
        }
    }

    /// Initial side distance for one axis.
    fn init_side(frac: i64, delta: i64) -> (r: i64)
        requires
            0 <= frac <= FP_ONE,
            1 <= delta <= FP_ONE * FP_ONE || delta == DELTA_SENTINEL,
        ensures
            r == spec_init_side(frac as int, delta as int),
            0 <= r <= SIDE_LIMIT,
    {
        if delta >= DELTA_SENTINEL {
            DELTA_SENTINEL
        } else {
            proof {
                assert(0 <= frac * delta <= 0x1_0000_0000_0000) by (nonlinear_arith)
                    requires
                        0 <= frac <= 0x1_0000,
                        1 <= delta <= 0x1_0000_0000,
                ;
                lemma_div_pos_range(frac * delta, FP_ONE as int);
            }
            (frac * delta) / FP_ONE
        }
    }

    /// Walks the grid until a solid tile is hit (the result holds its
    /// perpendicular distance, value and face orientation) or the ray
    /// leaves the map (`None`).  The loop takes at most one step per tile
    /// row and column between the start tile and the map edge.
    pub fn cast(&mut self, map: &TileMap) -> (res: Option<CastResult>)
        requires
            map.wf(),
            old(self).wf(),
        ensures
            res == spec_cast(
                *map,
                old(self).map_x as int,
                old(self).map_y as int,
                old(self).side_dist.x as int,
                old(self).side_dist.y as int,
                old(self).step_x as int,
                old(self).step_y as int,
                old(self).delta_dist.x as int,
                old(self).delta_dist.y as int,
            ),
            final(self).dir == old(self).dir,
            final(self).delta_dist == old(self).delta_dist,
            final(self).step_x == old(self).step_x,
            final(self).step_y == old(self).step_y,
            res is None ==> !(0 <= final(self).map_x < map.width
                && 0 <= final(self).map_y < map.height),
            res matches Some(r) ==> {
                &&& 0 <= final(self).map_x < map.width
                &&& 0 <= final(self).map_y < map.height
                &&& map.tile_at(final(self).map_x as int, final(self).map_y as int)
                    == r.wall_value
                &&& r.wall_value != 0
                &&& r.distance >= 0
            },
    {
        loop
            invariant
                map.wf(),
                self.wf(),
                self.dir == old(self).dir,
                self.delta_dist == old(self).delta_dist,
                self.step_x == old(self).step_x,
                self.step_y == old(self).step_y,
                (self.map_x == old(self).map_x && self.map_y == old(self).map_y
                    && self.side_dist.x == old(self).side_dist.x && self.side_dist.y
                    == old(self).side_dist.y) || (0 <= self.map_x < map.width && 0
                    <= self.map_y < map.height),
                spec_cast(
                    *map,
                    self.map_x as int,
                    self.map_y as int,
                    self.side_dist.x as int,
                    self.side_dist.y as int,
                    self.step_x as int,
                    self.step_y as int,
                    self.delta_dist.x as int,
                    self.delta_dist.y as int,
                ) == spec_cast(
                    *map,
                    old(self).map_x as int,
                    old(self).map_y as int,
                    old(self).side_dist.x as int,
                    old(self).side_dist.y as int,
                    old(self).step_x as int,
                    old(self).step_y as int,
                    old(self).delta_dist.x as int,
                    old(self).delta_dist.y as int,
                ),
            decreases spec_rem_x(*map, self.map_x as int, self.step_x as int) + spec_rem_y(
                *map,
                self.map_y as int,
                self.step_y as int,
            ),
        {
            let ghost pre = *self;
            let hit_vertical: bool;
            if self.side_dist.x <= self.side_dist.y {
                self.side_dist.x = min(self.side_dist.x + self.delta_dist.x, SIDE_LIMIT);
                self.map_x = self.map_x + self.step_x;
                hit_vertical = true;
            } else {
                self.side_dist.y = min(self.side_dist.y + self.delta_dist.y, SIDE_LIMIT);
                self.map_y = self.map_y + self.step_y;
                hit_vertical = false;
            }

            proof {
                reveal_with_fuel(spec_cast, 2);
            }
            if self.map_x < 0 || self.map_y < 0 || self.map_x >= map.width as i64
                || self.map_y >= map.height as i64 {
                return None;
            }

            let tile = match map.get_tile(self.map_x as u32, self.map_y as u32) {
                Some(t) => t,
                None => {
                    return None;
                },
            };
            if tile > 0 {
                let dist = if hit_vertical {
                    self.side_dist.x - self.delta_dist.x
                } else {
                    self.side_dist.y - self.delta_dist.y
                };
                return Some(
                    CastResult { distance: dist, wall_value: tile, hit_vertical },
                );
            }
        }
    }
}

/// Law: pulling the camera straight back along a ray that only ever
/// steps on the x axis adds exactly the pull-back to the reported
/// perpendicular distance, and changes nothing else about the hit.  The
/// pull-back appears as `delta` added to the initial x side distance,
/// which is how moving the start backward inside its tile enters the DDA
/// state; the slack hypothesis keeps the y axis out of the walk for both
/// starts, which is the "no new tile boundary" proviso of the law.
pub proof fn lemma_cast_distance_shift(
    m: TileMap,
    mx: int,
    my: int,
    sx: int,
    sy: int,
    sty: int,
    dx: int,
    dy: int,
    delta: int,
)
    requires
        0 <= sx,
        0 <= delta,
        1 <= dx,
        sty == 1 || sty == -1,
        sx + delta + (spec_rem_x(m, mx, 1) + 1) * dx <= sy,
        sy <= SIDE_LIMIT,
        spec_cast(m, mx, my, sx, sy, 1, sty, dx, dy) is Some,
    ensures
        ({
            let r = spec_cast(m, mx, my, sx, sy, 1, sty, dx, dy).unwrap();
            spec_cast(m, mx, my, sx + delta, sy, 1, sty, dx, dy) == Some(
                CastResult {
                    distance: (r.distance + delta) as i64,
                    wall_value: r.wall_value,
                    hit_vertical: r.hit_vertical,
                },
            )
        }),
    decreases spec_rem_x(m, mx, 1) + spec_rem_y(m, my, sty),
{
    let rem = spec_rem_x(m, mx, 1);
    assert((rem + 1) * dx >= 1 * dx) by (nonlinear_arith)
        requires
            rem >= 0,
            dx >= 1,
    ;
    let mx1 = mx + 1;
    if 0 <= mx1 < m.width && 0 <= my < m.height && m.tile_at(mx1, my) == 0 {
        let rem1 = spec_rem_x(m, mx1, 1);
        assert(rem == rem1 + 1);
        assert((rem + 1) * dx == (rem1 + 1) * dx + dx) by (nonlinear_arith)
            requires
                rem == rem1 + 1,
        ;
        lemma_cast_distance_shift(m, mx1, my, sx + dx, sy, sty, dx, dy, delta);
    }
}

/// Floor division by `FP_ONE` brackets the dividend within one tile.
proof fn lemma_floor_bounds(p: int, m: int)
    requires
        m == p / (FP_ONE as int),
        -POS_LIMIT <= p <= POS_LIMIT,
    ensures
        m * FP_ONE <= p < m * FP_ONE + FP_ONE,
        0 <= p - m * FP_ONE < FP_ONE,
        0 < m * FP_ONE + FP_ONE - p <= FP_ONE,
        -MAP_LIMIT <= m <= MAP_LIMIT,
        -POS_LIMIT <= m * FP_ONE <= POS_LIMIT + FP_ONE,
{
    vstd::arithmetic::div_mod::lemma_fundamental_div_mod(p, FP_ONE as int);
    assert(m * FP_ONE == FP_ONE * m) by (nonlinear_arith);
    assert(-MAP_LIMIT <= m <= MAP_LIMIT && -POS_LIMIT <= m * FP_ONE <= POS_LIMIT + FP_ONE)
        by (nonlinear_arith)
        requires
            m * FP_ONE <= p < m * FP_ONE + FP_ONE,
            -POS_LIMIT <= p <= POS_LIMIT,
    ;
}

/// A quotient of nonnegative values by a positive divisor is bounded by
/// the dividend.
proof fn lemma_div_pos_range(a: int, b: int)
    requires
        0 <= a,
        0 < b,
    ensures
        0 <= a / b <= a,
{
    vstd::arithmetic::div_mod::lemma_div_is_ordered_by_denominator(a, 1, b);
    vstd::arithmetic::div_mod::lemma_div_pos_is_pos(a, b);
    assert(a / 1 == a);
}

} // verus!
