//! The level-bounds / camera-follow director.
//!
//! Given the player's position and the loaded level partitions (each with
//! pixel-space bounds), this module picks the active level — the first whose
//! bounds strictly contain the player — and fits a fixed-aspect viewport to
//! it: the viewport is sized from the level's shorter dimension, and the
//! camera's scroll offset is clamped so that the viewport never shows area
//! outside the level; the non-scrolling axis is pinned to the level's edge.
//! All geometry is in integer pixels; rendering itself is external.

use vstd::prelude::*;
use vstd::arithmetic::div_mod::lemma_fundamental_div_mod;
use vstd::arithmetic::div_mod::lemma_mod_division_less_than_divisor;

use crate::movement::spec_clamp;

verus! {

/// The pixel-space bounds of one loaded level partition: the world position
/// of its bottom-left corner, and its size.
#[derive(Clone, Copy, Debug, PartialEq, Eq, Structural)]
pub struct LevelBox {
    pub x: i64,
    pub y: i64,
    pub width: i64,
    pub height: i64,
}

/// The computed camera state: the world position of the viewport's
/// bottom-left corner and the fixed viewport size.
#[derive(Clone, Copy, Debug, PartialEq, Eq, Structural)]
pub struct CameraView {
    pub x: i64,
    pub y: i64,
    pub width: i64,
    pub height: i64,
}

/// Coordinate bound under which the director's arithmetic cannot overflow.
pub const WORLD_COORD_LIMIT: i64 = 0x2000000000000000;

/// Size bound (pixels) under which the director's arithmetic cannot
/// overflow.
pub const LEVEL_SIZE_LIMIT: i64 = 0x40000000;

/// Whether the level's bounds strictly contain the point.
pub open spec fn level_contains(level: LevelBox, px: int, py: int) -> bool {
    level.x < px < level.x + level.width && level.y < py < level.y + level.height
}

/// Selects the active level: the first partition in iteration order whose
/// bounds strictly contain the player's position, or none when the player
/// stands in no partition (at level seams the first match wins).
pub fn update_level_selection(levels: &Vec<LevelBox>, player_x: i64, player_y: i64) -> (r: Option<
    usize,
>)
    requires
        forall|i: int|
            0 <= i < levels@.len() ==> 0 <= (#[trigger] levels@[i]).width <= LEVEL_SIZE_LIMIT
                && 0 <= levels@[i].height <= LEVEL_SIZE_LIMIT
                && -WORLD_COORD_LIMIT <= levels@[i].x <= WORLD_COORD_LIMIT
                && -WORLD_COORD_LIMIT <= levels@[i].y <= WORLD_COORD_LIMIT,
    ensures
        match r {
            Option::Some(i) => i < levels@.len() && level_contains(
                levels@[i as int],
                player_x as int,
                player_y as int,
            ) && forall|j: int|
                0 <= j < i ==> !level_contains(
                    #[trigger] levels@[j],
                    player_x as int,
                    player_y as int,
                ),
            Option::None => forall|j: int|
                0 <= j < levels@.len() ==> !level_contains(
                    #[trigger] levels@[j],
                    player_x as int,
                    player_y as int,
                ),
        },
{
    let mut i: usize = 0;
    while i < levels.len()
        invariant
            i <= levels@.len(),
            forall|i: int|
                0 <= i < levels@.len() ==> 0 <= (#[trigger] levels@[i]).width <= LEVEL_SIZE_LIMIT
                    && 0 <= levels@[i].height <= LEVEL_SIZE_LIMIT
                    && -WORLD_COORD_LIMIT <= levels@[i].x <= WORLD_COORD_LIMIT
                    && -WORLD_COORD_LIMIT <= levels@[i].y <= WORLD_COORD_LIMIT,
            forall|j: int|
                0 <= j < i ==> !level_contains(
                    #[trigger] levels@[j],
                    player_x as int,
                    player_y as int,
                ),
        decreases levels@.len() - i,
    {
        let level = levels[i];
        if level.x < player_x && player_x < level.x + level.width && level.y < player_y
            && player_y < level.y + level.height {
            return Some(i);
        }
        i = i + 1;
    }
    None
}

/// The nearest multiple of `m` to `v`, halves rounded away from zero.
pub open spec fn round_to_multiple(v: int, m: int) -> int
    recommends
        v >= 0,
        m > 0,
{
    ((2 * v + m) / (2 * m)) * m
}

/// Whether the level is wider than the window, by cross-multiplied aspect
/// ratios.
pub open spec fn level_is_wider(level: LevelBox, win_w: int, win_h: int) -> bool {
    level.width * win_h > win_w * level.height
}

/// Viewport height for a level wider than the window: the level height
/// rounded to the sprite-row multiple of nine.
pub open spec fn wide_viewport_height(level: LevelBox) -> int {
    round_to_multiple(level.height as int, 9)
}

/// Viewport width for a level wider than the window: the height scaled by
/// the window's aspect ratio, truncated.
pub open spec fn wide_viewport_width(level: LevelBox, win_w: int, win_h: int) -> int {
    wide_viewport_height(level) * win_w / win_h
}

/// Viewport width for a level taller than the window: the level width
/// rounded to the tile multiple of sixteen.
pub open spec fn tall_viewport_width(level: LevelBox) -> int {
    round_to_multiple(level.width as int, 16)
}

/// Viewport height for a level taller than the window: the width scaled by
/// the inverse of the window's aspect ratio, truncated.
pub open spec fn tall_viewport_height(level: LevelBox, win_w: int, win_h: int) -> int {
    tall_viewport_width(level) * win_h / win_w
}

/// Rounds a non-negative size to the nearest multiple of `m`.
fn round_size_to_multiple(v: i64, m: i64) -> (r: i64)
    requires
        0 <= v <= LEVEL_SIZE_LIMIT,
        0 < m <= 16,
    ensures
        r == round_to_multiple(v as int, m as int),
        0 <= r <= v + m,
{
    let vu: u64 = v as u64;
    let mu: u64 = m as u64;
    let q: u64 = (2 * vu + mu) / (2 * mu);
    proof {
        lemma_fundamental_div_mod((2 * vu + mu) as int, (2 * mu) as int);
        lemma_mod_division_less_than_divisor((2 * vu + mu) as int, (2 * mu) as int);
        assert(q * mu <= vu + mu) by (nonlinear_arith)
            requires
                2 * mu * q + ((2 * vu + mu) as int % (2 * mu) as int) == 2 * vu + mu,
                0 <= (2 * vu + mu) as int % (2 * mu) as int,
                0 < mu,
                q == ((2 * vu + mu) as int) / ((2 * mu) as int),
        ;
    }
    let r: u64 = q * mu;
    r as i64
}

/// Truncated scale of a size by the window aspect ratio.
fn scale_by_ratio(size: i64, num: i64, den: i64) -> (r: i64)
    requires
        0 <= size,
        size <= 2 * LEVEL_SIZE_LIMIT,
        0 < num <= LEVEL_SIZE_LIMIT,
        0 < den <= LEVEL_SIZE_LIMIT,
    ensures
        r == (size as int) * (num as int) / (den as int),
        r >= 0,
{
    proof {
        assert((size as int) * (num as int) <= 2 * 0x40000000 * 0x40000000) by (nonlinear_arith)
            requires
                0 <= size <= 2 * 0x40000000,
                0 < num <= 0x40000000,
        ;
        lemma_fundamental_div_mod(size as int * num as int, den as int);
        lemma_mod_division_less_than_divisor(size as int * num as int, den as int);
        assert(0 <= (size as int) * (num as int)) by (nonlinear_arith)
            requires
                0 <= size,
                0 <= num,
        ;
        let p = (size as int) * (num as int);
        let q = p / (den as int);
        assert(0 <= q && q <= p) by (nonlinear_arith)
            requires
                den as int * q + (p % (den as int)) == p,
                0 <= p % (den as int) < den as int,
                0 < den,
                0 <= p,
        ;
    }
    let su: u64 = size as u64;
    let nu: u64 = num as u64;
    let du: u64 = den as u64;
    let r: u64 = su * nu / du;
    r as i64
}

/// Clamps a scroll offset into `[lo, hi]`.
fn clamp_offset(v: i64, lo: i64, hi: i64) -> (r: i64)
    requires
        lo <= hi,
    ensures
        r == spec_clamp(v as int, lo as int, hi as int),
{
    if v < lo {
        lo
    } else if v > hi {
        hi
    } else {
        v
    }
}

/// Fits the camera viewport inside the active level.
///
/// A level wider than the window scrolls only horizontally: the viewport
/// height is the level height rounded to a multiple of nine, the width
/// follows the window's aspect ratio, the vertical position is pinned to
/// the level's edge, and the horizontal scroll offset — the player centered
/// where possible — is clamped to `[0, level.width - viewport.width]`, so
/// the viewport never leaves the level no matter where the player stands.
/// A taller level is the mirror image, scrolling only vertically. The
/// preconditions reject a viewport larger than its level, for which no
/// in-bounds scroll offset exists.
pub fn camera_fit_inside_current_level(
    player_x: i64,
    player_y: i64,
    level: &LevelBox,
    win_w: i64,
    win_h: i64,
) -> (cam: CameraView)
    requires
        0 < win_w <= LEVEL_SIZE_LIMIT,
        0 < win_h <= LEVEL_SIZE_LIMIT,
        0 <= level.width <= LEVEL_SIZE_LIMIT,
        0 <= level.height <= LEVEL_SIZE_LIMIT,
        -WORLD_COORD_LIMIT <= level.x <= WORLD_COORD_LIMIT,
        -WORLD_COORD_LIMIT <= level.y <= WORLD_COORD_LIMIT,
        -WORLD_COORD_LIMIT <= player_x <= WORLD_COORD_LIMIT,
        -WORLD_COORD_LIMIT <= player_y <= WORLD_COORD_LIMIT,
        level_is_wider(*level, win_w as int, win_h as int) ==> wide_viewport_width(
            *level,
            win_w as int,
            win_h as int,
        ) <= level.width,
        !level_is_wider(*level, win_w as int, win_h as int) ==> tall_viewport_height(
            *level,
            win_w as int,
            win_h as int,
        ) <= level.height,
    ensures
        level_is_wider(*level, win_w as int, win_h as int) ==> {
            &&& cam.height == wide_viewport_height(*level)
            &&& cam.width == wide_viewport_width(*level, win_w as int, win_h as int)
            &&& cam.y == level.y
            &&& cam.x == level.x + spec_clamp(
                player_x - level.x - cam.width / 2,
                0,
                level.width - cam.width,
            )
            &&& level.x <= cam.x <= level.x + level.width - cam.width
        },
        !level_is_wider(*level, win_w as int, win_h as int) ==> {
            &&& cam.width == tall_viewport_width(*level)
            &&& cam.height == tall_viewport_height(*level, win_w as int, win_h as int)
            &&& cam.x == level.x
            &&& cam.y == level.y + spec_clamp(
                player_y - level.y - cam.height / 2,
                0,
                level.height - cam.height,
            )
            &&& level.y <= cam.y <= level.y + level.height - cam.height
        },
{
    proof {
        assert(0 <= level.width * win_h <= 0x40000000 * 0x40000000) by (nonlinear_arith)
            requires
                0 <= level.width <= 0x40000000,
                0 < win_h <= 0x40000000,
        ;
        assert(0 <= win_w * level.height <= 0x40000000 * 0x40000000) by (nonlinear_arith)
            requires
                0 <= level.height <= 0x40000000,
                0 < win_w <= 0x40000000,
        ;
    }
    let wide = level.width * win_h > win_w * level.height;
    if wide {
        let vh = round_size_to_multiple(level.height, 9);
        let vw = scale_by_ratio(vh, win_w, win_h);
        let half: i64 = (vw as u64 / 2) as i64;
        let offset = clamp_offset(player_x - level.x - half, 0, level.width - vw);
        CameraView { x: level.x + offset, y: level.y, width: vw, height: vh }
    } else {
        let vw = round_size_to_multiple(level.width, 16);
        let vh = scale_by_ratio(vw, win_h, win_w);
        let half: i64 = (vh as u64 / 2) as i64;
        let offset = clamp_offset(player_y - level.y - half, 0, level.height - vh);
        CameraView { x: level.x, y: level.y + offset, width: vw, height: vh }
    }
}

} // verus!
