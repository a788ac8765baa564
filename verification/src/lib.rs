//! A software raycasting renderer over a 2D tile grid.
//!
//! World coordinates are fixed-point numbers: an `i64` holding the value
//! scaled by `FP_ONE` (65536), so one tile is `FP_ONE` units wide.  The
//! renderer casts one ray per framebuffer column with a grid DDA walk and
//! draws a vertical wall slice whose height is inversely proportional to
//! the perpendicular distance of the hit.

use vstd::prelude::*;
use vstd::arithmetic::div_mod::lemma_fundamental_div_mod;
use vstd::arithmetic::div_mod::lemma_fundamental_div_mod_converse;
use vstd::arithmetic::div_mod::lemma_div_pos_is_pos;
use vstd::arithmetic::div_mod::lemma_div_is_ordered;
use vstd::arithmetic::mul::lemma_mul_inequality;

pub mod color;
pub mod map;
pub mod num;
pub mod player;
pub mod ray;
pub mod texture;
pub mod vec2;

use crate::map::TileMap;
use crate::map::lemma_tile_index_in_range;
use crate::num::clamp;
use crate::num::floor_div;
use crate::num::spec_clamp;
use crate::player::Player;
use crate::player::DIR_LIMIT;
use crate::ray::CastResult;
use crate::ray::Ray;
use crate::ray::spec_cast;
use crate::ray::spec_ray_init;
use crate::vec2::Vector2;

verus! {

/// One whole world unit (one tile) in fixed-point coordinates.
pub const FP_ONE: i64 = 65536;

/// Packed `0xAARRGGBB` framebuffer word for the ceiling fill.
pub const CEILING_WORD: u32 = 0xFF333333;

/// Packed framebuffer word for the floor fill.
pub const FLOOR_WORD: u32 = 0xFF111111;

/// Wall color for hits on a horizontal grid line (north/south face).
pub const WALL_WORD: u32 = 0xFFCC0000;

/// Darker wall color for hits on a vertical grid line (east/west face).
pub const WALL_DARK_WORD: u32 = 0xFF880000;

/// The ceiling-or-floor word a pixel gets before any wall is drawn: the
/// top half of the framebuffer is ceiling, the rest floor.
pub open spec fn spec_base_pixel(w: int, h: int, i: int) -> u32 {
    if i < (w * h) / 2 {
        CEILING_WORD
    } else {
        FLOOR_WORD
    }
}

/// Horizontal camera-space coordinate of column `x`, in `[-FP_ONE,
/// FP_ONE)`.
pub open spec fn spec_camera_x(w: int, x: int) -> int {
    (2 * x * FP_ONE) / w - FP_ONE
}

/// Direction of the ray for column `x`: the forward direction plus the
/// camera plane scaled by the camera-space coordinate.
pub open spec fn spec_ray_dir(p: Player, w: int, x: int) -> Vector2 {
    let cam = spec_camera_x(w, x);
    Vector2 {
        x: (p.dir.x + (p.plane.x * cam) / (FP_ONE as int)) as i64,
        y: (p.dir.y + (p.plane.y * cam) / (FP_ONE as int)) as i64,
    }
}

/// What the DDA returns for column `x`.
pub open spec fn spec_column(p: Player, m: TileMap, w: int, x: int) -> Option<CastResult> {
    let r = spec_ray_init(p.pos, spec_ray_dir(p, w, x));
    spec_cast(
        m,
        r.map_x as int,
        r.map_y as int,
        r.side_dist.x as int,
        r.side_dist.y as int,
        r.step_x as int,
        r.step_y as int,
        r.delta_dist.x as int,
        r.delta_dist.y as int,
    )
}

/// Height in pixels of the wall slice for a hit at perpendicular distance
/// `d`; a hit at distance zero covers the whole column.
pub open spec fn spec_line_height(h: int, d: int) -> int {
    if d == 0 {
        h * FP_ONE
    } else {
        (h * FP_ONE) / d
    }
}

/// First row of the wall slice (inclusive).
pub open spec fn spec_span_start(h: int, d: int) -> int {
    spec_clamp(h / 2 - spec_line_height(h, d) / 2, 0, h - 1)
}

/// One past the last row of the wall slice (the interval is half-open).
pub open spec fn spec_span_end(h: int, d: int) -> int {
    spec_clamp(h / 2 + spec_line_height(h, d) / 2, 0, h - 1)
}

/// Side shading: hits that crossed a vertical grid line are drawn darker.
pub open spec fn spec_wall_color(hit_vertical: bool) -> u32 {
    if hit_vertical {
        WALL_DARK_WORD
    } else {
        WALL_WORD
    }
}

/// The final value of framebuffer index `i`: the wall slice color of its
/// column where the slice covers its row, the ceiling or floor word
/// everywhere else.  This pins every pixel of one `render` call.
pub open spec fn spec_pixel(p: Player, m: TileMap, w: int, h: int, i: int) -> u32 {
    let x = i % w;
    let y = i / w;
    match spec_column(p, m, w, x) {
        Option::None => spec_base_pixel(w, h, i),
        Option::Some(res) => if spec_span_start(h, res.distance as int) <= y
            < spec_span_end(h, res.distance as int) {
            spec_wall_color(res.hit_vertical)
        } else {
            spec_base_pixel(w, h, i)
        },
    }
}

/// Renders one frame: fills the ceiling and floor halves, then casts one
/// ray per column and draws its wall slice.  Every framebuffer word is
/// written by the fill and columns write disjoint indices, so each pixel
/// ends up exactly as `spec_pixel` says.
pub fn render(
    player: &Player,
    map: &TileMap,
    buffer: &mut Vec<u32>,
    width: usize,
    height: usize,
)
    requires
        map.wf(),
        player.wf(),
        old(buffer)@.len() == width * height,
        width <= u32::MAX,
        height <= u32::MAX,
    ensures
        final(buffer)@.len() == width * height,
        forall|i: int|
            0 <= i < width * height ==> final(buffer)@[i] == spec_pixel(
                *player,
                *map,
                width as int,
                height as int,
                i,
            ),
{
    if height == 0 {
        return;
    }
    let total: usize = buffer.len();
    let half: usize = total / 2;

    let mut i: usize = 0;
    while i < total
        invariant
            buffer@.len() == total,
            total == width * height,
            half == total / 2,
            i <= total,
            forall|j: int|
                0 <= j < i ==> buffer@[j] == spec_base_pixel(
                    width as int,
                    height as int,
                    j,
                ),
        decreases total - i,
    {
        if i < half {
            buffer[i] = CEILING_WORD;
        } else {
            buffer[i] = FLOOR_WORD;
        }
        i += 1;
    }

    let mut x: usize = 0;
    while x < width
        invariant
            map.wf(),
            player.wf(),
            buffer@.len() == total,
            total == width * height,
            width <= u32::MAX,
            height <= u32::MAX,
            0 < height,
            x <= width,
            forall|i: int|
                0 <= i < total && i % (width as int) < x ==> buffer@[i] == spec_pixel(
                    *player,
                    *map,
                    width as int,
                    height as int,
                    i,
                ),
            forall|i: int|
                0 <= i < total && i % (width as int) >= x ==> buffer@[i] == spec_base_pixel(
                    width as int,
                    height as int,
                    i,
                ),
        decreases width - x,
    {
        let camera_x: i64 = floor_div(2 * (x as i64) * FP_ONE, width as i64) - FP_ONE;
        proof {
            lemma_camera_bounds(width as int, x as int);
            lemma_dir_component_bounds(player.plane.x as int, camera_x as int);
            lemma_dir_component_bounds(player.plane.y as int, camera_x as int);
        }
        let ray_dir = player.dir.add(&player.plane.scale(camera_x));
        proof {
            assert(ray_dir == spec_ray_dir(*player, width as int, x as int));
        }
        let mut ray = Ray::new(player.pos, ray_dir);
        let res = ray.cast(map);
        proof {
            assert(res == spec_column(*player, *map, width as int, x as int));
        }

        match res {
            None => {
                proof {
                    assert forall|i: int|
                        0 <= i < total && i % (width as int) < x + 1 implies buffer@[i]
                        == spec_pixel(*player, *map, width as int, height as int, i) by {
                        if i % (width as int) == x {
                            assert(spec_pixel(*player, *map, width as int, height as int, i)
                                == spec_base_pixel(width as int, height as int, i));
                        }
                    }
                }
            },
            Some(r) => {
                let lh: i64 = if r.distance == 0 {
                    (height as i64) * FP_ONE
                } else {
                    floor_div((height as i64) * FP_ONE, r.distance)
                };
                proof {
                    if r.distance != 0 {
                        lemma_div_pos_is_pos((height as i64) * FP_ONE, r.distance as int);
                    }
                }
                let half_h: i64 = (height as i64) / 2;
                let start_y: i64 = clamp(half_h - lh / 2, 0, height as i64 - 1);
                let end_y: i64 = clamp(half_h + lh / 2, 0, height as i64 - 1);
                let wall: u32 = if r.hit_vertical {
                    WALL_DARK_WORD
                } else {
                    WALL_WORD
                };
                proof {
                    assert(start_y == spec_span_start(height as int, r.distance as int));
                    assert(end_y == spec_span_end(height as int, r.distance as int));
                }
                draw_column(buffer, width, height, x, start_y, end_y, wall);
                proof {
                    assert forall|i: int|
                        0 <= i < total && i % (width as int) < x + 1 implies buffer@[i]
                        == spec_pixel(*player, *map, width as int, height as int, i) by {
                        lemma_index_decomp(width as int, height as int, i);
                    }
                }
            },
        }
        x += 1;
    }
}

/// Writes `color` to the rows `[start_y, end_y)` of column `x` and to
/// nothing else.
fn draw_column(
    buffer: &mut Vec<u32>,
    width: usize,
    height: usize,
    x: usize,
    start_y: i64,
    end_y: i64,
    color: u32,
)
    requires
        0 < width,
        x < width,
        old(buffer)@.len() == width * height,
        width * height <= usize::MAX,
        0 <= start_y,
        end_y <= height,
    ensures
        final(buffer)@.len() == width * height,
        forall|i: int|
            0 <= i < width * height ==> final(buffer)@[i] == (if i % (width as int) == x
                && start_y <= i / (width as int) < end_y {
                color
            } else {
                old(buffer)@[i]
            }),
{
    let mut y: i64 = start_y;
    while y < end_y
        invariant
            0 < width,
            x < width,
            buffer@.len() == width * height,
            width * height <= usize::MAX,
            end_y <= height,
            0 <= start_y,
            start_y <= y,
            y <= end_y || y == start_y,
            forall|i: int|
                0 <= i < width * height ==> buffer@[i] == (if i % (width as int) == x
                    && start_y <= i / (width as int) < y {
                    color
                } else {
                    old(buffer)@[i]
                }),
        decreases end_y - y,
    {
        proof {
            lemma_tile_index_in_range(width as int, height as int, x as int, y as int);
        }
        let idx: usize = (y as usize) * width + x;
        buffer[idx] = color;
        proof {
            lemma_fundamental_div_mod_converse(
                idx as int,
                width as int,
                y as int,
                x as int,
            );
            assert forall|i: int|
                0 <= i < width * height implies buffer@[i] == (if i % (width as int) == x
                && start_y <= i / (width as int) < y + 1 {
                color
            } else {
                old(buffer)@[i]
            }) by {
                if i != idx && i % (width as int) == x && i / (width as int) == y {
                    lemma_fundamental_div_mod(i, width as int);
                    assert((width as int) * (i / (width as int)) == (i / (width as int)) * (
                    width as int)) by (nonlinear_arith);
                    assert(i == idx);
                }
            }
        }
        y += 1;
    }
}

/// The camera-space coordinate of an on-screen column lies in
/// `[-FP_ONE, FP_ONE)`.
proof fn lemma_camera_bounds(w: int, x: int)
    requires
        0 <= x < w,
        w <= u32::MAX,
    ensures
        -FP_ONE <= spec_camera_x(w, x) < FP_ONE,
{
    lemma_div_pos_is_pos(2 * x * FP_ONE, w);
    assert(2 * x * FP_ONE <= 2 * FP_ONE * w - 1) by (nonlinear_arith)
        requires
            0 <= x < w,
    ;
    lemma_div_is_ordered(2 * x * FP_ONE, 2 * FP_ONE * w - 1, w);
    assert((2 * FP_ONE - 1) * w + (w - 1) == 2 * FP_ONE * w - 1) by (nonlinear_arith);
    lemma_fundamental_div_mod_converse(2 * FP_ONE * w - 1, w, 2 * FP_ONE - 1, w - 1);
}

/// A plane component scaled by an on-screen camera coordinate stays within
/// the direction bound.
proof fn lemma_dir_component_bounds(p: int, cam: int)
    requires
        -DIR_LIMIT <= p <= DIR_LIMIT,
        -FP_ONE <= cam <= FP_ONE,
    ensures
        -DIR_LIMIT * FP_ONE <= p * cam <= DIR_LIMIT * FP_ONE,
        -DIR_LIMIT <= (p * cam) / (FP_ONE as int) <= DIR_LIMIT,
{
    assert(-DIR_LIMIT * FP_ONE <= p * cam <= DIR_LIMIT * FP_ONE) by (nonlinear_arith)
        requires
            -DIR_LIMIT <= p <= DIR_LIMIT,
            -FP_ONE <= cam <= FP_ONE,
    ;
    lemma_div_is_ordered(-DIR_LIMIT * FP_ONE, p * cam, FP_ONE as int);
    lemma_div_is_ordered(p * cam, DIR_LIMIT * FP_ONE, FP_ONE as int);
    assert(-DIR_LIMIT * FP_ONE / (FP_ONE as int) == -DIR_LIMIT);
    assert(DIR_LIMIT * FP_ONE / (FP_ONE as int) == DIR_LIMIT);
}

/// An index inside the framebuffer decomposes into a column inside the
/// width and a row inside the height.
proof fn lemma_index_decomp(w: int, h: int, i: int)
    requires
        0 < w,
        0 <= i < w * h,
    ensures
        0 <= i % w < w,
        0 <= i / w < h,
        i == (i / w) * w + (i % w),
{
    lemma_fundamental_div_mod(i, w);
    lemma_div_pos_is_pos(i, w);
    assert(w * (i / w) == (i / w) * w) by (nonlinear_arith);
    if i / w >= h {
        lemma_mul_inequality(h, i / w, w);
        assert(h * w == w * h) by (nonlinear_arith);
        assert(false);
    }
}

} // verus!
