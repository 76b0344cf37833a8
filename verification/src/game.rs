//! The occupancy field and the raycasting renderer.
//!
//! The field is a rectangular grid of byte tags (`b'#'` wall, anything
//! else empty) indexed `blocks[x][y]`, owning the single player. Positions
//! are fixed-point: `POS_ONE` units per cell, so truncating a coordinate
//! toward minus infinity by `POS_ONE` yields the containing cell index.

use vstd::prelude::*;

verus! {

use crate::fixed::FULL_TURN;
use crate::fixed::POS_ONE;
use crate::fixed::cos_md;
use crate::fixed::cos_mfp;
use crate::fixed::div_floor;
use crate::fixed::sin_md;
use crate::fixed::sin_mfp;

/// The byte tag of a wall cell.
pub const WALL_TAG: u8 = 35;

/// Distance at which a ray gives up, in position units (6 cells).
pub const TOO_FAR_WALL: i64 = 6_000_000;

/// One ray-marching step, in position units (0.02 cells).
pub const RAY_STEP: i64 = 20_000;

/// Largest grid side the field accepts.
pub const GRID_MAX: usize = 4096;

/// Largest magnitude of a player coordinate the renderer accepts.
pub const POS_LIMIT: i64 = 100_000_000_000_000_000;

/// The player pose: position and velocity in position units, heading in
/// millidegrees, kept normalized to `[0, FULL_TURN)`.
pub struct Player {
    pub x: i64,
    pub y: i64,
    pub angle: i64,
    pub vel_x: i64,
    pub vel_y: i64,
}

/// The player pose as unbounded integers, for specifications.
pub ghost struct PlayerModel {
    pub x: int,
    pub y: int,
    pub angle: int,
    pub vel_x: int,
    pub vel_y: int,
}

impl View for Player {
    type V = PlayerModel;

    open spec fn view(&self) -> PlayerModel {
        PlayerModel {
            x: self.x as int,
            y: self.y as int,
            angle: self.angle as int,
            vel_x: self.vel_x as int,
            vel_y: self.vel_y as int,
        }
    }
}

/// The static occupancy grid plus the one moving player.
pub struct Field {
    pub blocks: Vec<Vec<u8>>,
    pub player: Player,
}

impl Field {
    /// The grid as a sequence of columns of byte tags.
    pub open spec fn grid(&self) -> Seq<Seq<u8>> {
        self.blocks@.map_values(|row: Vec<u8>| row@)
    }

    /// Cells along the first grid axis (the `x` of `blocks[x][y]`).
    pub open spec fn width(&self) -> int {
        self.blocks@.len() as int
    }

    /// Cells along the second grid axis.
    pub open spec fn height(&self) -> int {
        if self.blocks@.len() == 0 {
            0
        } else {
            self.blocks@[0]@.len() as int
        }
    }

    /// The grid is rectangular, non-empty and of bounded size, and the
    /// player's heading is normalized.
    pub open spec fn wf(&self) -> bool {
        &&& 0 < self.width() <= GRID_MAX as int
        &&& 0 < self.height() <= GRID_MAX as int
        &&& forall|i: int|
            0 <= i < self.blocks@.len() ==> (#[trigger] self.blocks@[i])@.len() == self.height()
        &&& 0 <= self.player.angle < FULL_TURN
    }
}

/// The cell index holding a position coordinate (truncation toward minus
/// infinity).
pub open spec fn cell_at(p: int) -> int {
    p / (POS_ONE as int)
}

/// Negative cell indices saturate to zero when a position is turned into a
/// grid index, as a float-to-unsigned cast would.
pub open spec fn clamp0(c: int) -> int {
    if c < 0 {
        0
    } else {
        c
    }
}

/// Whether the cell holding position `(x, y)` is a wall, with negative
/// indices saturated to zero.
pub open spec fn in_wall_spec(grid: Seq<Seq<u8>>, x: int, y: int) -> bool {
    grid[clamp0(cell_at(x))][clamp0(cell_at(y))] == WALL_TAG
}

/// Whether the player's own cell is a wall cell.
pub fn player_in_wall(field: &Field) -> (r: bool)
    requires
        field.wf(),
        -POS_LIMIT <= field.player.x <= POS_LIMIT,
        -POS_LIMIT <= field.player.y <= POS_LIMIT,
        clamp0(cell_at(field.player.x as int)) < field.width(),
        clamp0(cell_at(field.player.y as int)) < field.height(),
    ensures
        r == in_wall_spec(field.grid(), field.player.x as int, field.player.y as int),
{
    let cx: i64 = div_floor(field.player.x, POS_ONE);
    let cy: i64 = div_floor(field.player.y, POS_ONE);
    let ux: usize = if cx < 0 {
        0
    } else {
        cx as usize
    };
    let uy: usize = if cy < 0 {
        0
    } else {
        cy as usize
    };
    field.blocks[ux][uy] == WALL_TAG
}

/// Whether a field is well formed, decided at run time: the grid is
/// rectangular, non-empty, within `GRID_MAX`, and the heading normalized.
pub fn check_wf(field: &Field) -> (ok: bool)
    ensures
        ok == field.wf(),
{
    let n: usize = field.blocks.len();
    if n == 0 || n > GRID_MAX {
        return false;
    }
    let h: usize = field.blocks[0].len();
    if h == 0 || h > GRID_MAX {
        return false;
    }
    let mut i: usize = 0;
    while i < n
        invariant
            i <= n,
            n == field.blocks@.len(),
            h == field.height(),
            forall|j: int| 0 <= j < i ==> (#[trigger] field.blocks@[j])@.len() == h,
        decreases n - i,
    {
        if field.blocks[i].len() != h {
            return false;
        }
        i = i + 1;
    }
    0 <= field.player.angle && field.player.angle < crate::fixed::FULL_TURN
}

/// One ray march, mirrored step by step: stop as a miss when the stepped
/// position leaves the grid, stop on a wall cell with the accumulated
/// distance, and stop as soon as the distance reaches `TOO_FAR_WALL`.
/// `fuel` only bounds the recursion; 300 steps of `RAY_STEP` always reach
/// `TOO_FAR_WALL` first.
pub open spec fn march(
    grid: Seq<Seq<u8>>,
    gw: int,
    gh: int,
    x: int,
    y: int,
    dx: int,
    dy: int,
    dist: int,
    fuel: nat,
) -> int
    decreases fuel,
{
    let cx = cell_at(x);
    let cy = cell_at(y);
    if cx < 0 || cy < 0 || cx >= gw || cy >= gh {
        TOO_FAR_WALL as int
    } else if grid[cx][cy] == WALL_TAG {
        dist
    } else if fuel == 0 {
        dist
    } else {
        let nd = dist + RAY_STEP;
        if nd >= TOO_FAR_WALL {
            nd
        } else {
            march(grid, gw, gh, x + dx, y + dy, dx, dy, nd, (fuel - 1) as nat)
        }
    }
}

/// The distance a ray cast from `(px, py)` at heading `a` travels before
/// hitting a wall or giving up. One step is 0.02 cells, so the per-step
/// advance along each axis is the heading fraction divided by 50.
pub open spec fn ray_distance(grid: Seq<Seq<u8>>, gw: int, gh: int, px: int, py: int, a: int) -> int {
    march(grid, gw, gh, px, py, cos_md(a) / 50, sin_md(a) / 50, 0, 300)
}

/// Trace one ray from the player's position at the given heading and
/// report the distance marched, in position units.
pub fn trace_ray(field: &Field, angle: i64) -> (dist: i64)
    requires
        field.wf(),
        -0x1000_0000_0000_0000 <= angle <= 0x1000_0000_0000_0000,
        -POS_LIMIT <= field.player.x <= POS_LIMIT,
        -POS_LIMIT <= field.player.y <= POS_LIMIT,
    ensures
        dist == ray_distance(
            field.grid(),
            field.width(),
            field.height(),
            field.player.x as int,
            field.player.y as int,
            angle as int,
        ),
        0 <= dist <= TOO_FAR_WALL,
{
    let c: i64 = cos_mfp(angle);
    let s: i64 = sin_mfp(angle);
    let dx: i64 = div_floor(c, 50);
    let dy: i64 = div_floor(s, 50);
    proof {
        vstd::arithmetic::div_mod::lemma_div_multiples_vanish(20_000, 50);
        vstd::arithmetic::div_mod::lemma_div_multiples_vanish(-20_000, 50);
        vstd::arithmetic::div_mod::lemma_div_is_ordered(c as int, 1_000_000, 50);
        vstd::arithmetic::div_mod::lemma_div_is_ordered(-1_000_000, c as int, 50);
        vstd::arithmetic::div_mod::lemma_div_is_ordered(s as int, 1_000_000, 50);
        vstd::arithmetic::div_mod::lemma_div_is_ordered(-1_000_000, s as int, 50);
    }
    let gw: i64 = field.blocks.len() as i64;
    let gh: i64 = field.blocks[0].len() as i64;
    let mut x: i64 = field.player.x;
    let mut y: i64 = field.player.y;
    let mut dist: i64 = 0;
    let ghost mut fuel: nat = 300;
    loop
        invariant_except_break
            dist == RAY_STEP * (300 - fuel as int),
            0 <= dist < TOO_FAR_WALL,
        invariant
            field.wf(),
            gw == field.width(),
            gh == field.height(),
            -POS_LIMIT <= field.player.x <= POS_LIMIT,
            -POS_LIMIT <= field.player.y <= POS_LIMIT,
            fuel <= 300,
            -20_000 <= dx <= 20_000,
            -20_000 <= dy <= 20_000,
            -POS_LIMIT - RAY_STEP * (300 - fuel as int) <= x
                <= POS_LIMIT + RAY_STEP * (300 - fuel as int),
            -POS_LIMIT - RAY_STEP * (300 - fuel as int) <= y
                <= POS_LIMIT + RAY_STEP * (300 - fuel as int),
            march(
                field.grid(),
                field.width(),
                field.height(),
                field.player.x as int,
                field.player.y as int,
                dx as int,
                dy as int,
                0,
                300,
            ) == march(
                field.grid(),
                field.width(),
                field.height(),
                x as int,
                y as int,
                dx as int,
                dy as int,
                dist as int,
                fuel,
            ),
        ensures
            0 <= dist <= TOO_FAR_WALL,
            dist as int == march(
                field.grid(),
                field.width(),
                field.height(),
                field.player.x as int,
                field.player.y as int,
                dx as int,
                dy as int,
                0,
                300,
            ),
        decreases fuel,
    {
        let cx: i64 = div_floor(x, POS_ONE);
        let cy: i64 = div_floor(y, POS_ONE);
        if cx < 0 || cy < 0 || cx >= gw || cy >= gh {
            dist = TOO_FAR_WALL;
            break ;
        }
        if field.blocks[cx as usize][cy as usize] == WALL_TAG {
            break ;
        }
        dist = dist + RAY_STEP;
        x = x + dx;
        y = y + dy;
        proof {
            fuel = (fuel - 1) as nat;
        }
        if dist >= TOO_FAR_WALL {
            break ;
        }
    }
    dist
}

/// Height of the wall band for a ray of length `dist`, in position units
/// of a row: `h / (dist + 1)` scaled by `POS_ONE` twice.
pub open spec fn wall_size_of(dist: int, h: int) -> int {
    h * 1_000_000_000_000 / (dist + 1_000_000)
}

/// First row of the wall band (the band is vertically centered and both
/// bounds truncate to row indices).
pub open spec fn wall_top_of(dist: int, h: int) -> int {
    (h * 1_000_000 - wall_size_of(dist, h)) / 2_000_000
}

/// First row below the wall band.
pub open spec fn wall_bot_of(dist: int, h: int) -> int {
    (h * 1_000_000 + wall_size_of(dist, h)) / 2_000_000
}

/// Three-level distance fog: the thresholds are one third and two thirds
/// of `TOO_FAR_WALL`.
pub open spec fn glyph_of(dist: int) -> char {
    if dist <= 2_000_000 {
        '▓'
    } else if dist <= 4_000_000 {
        '▒'
    } else {
        '░'
    }
}

/// Heading of the ray for screen column `c`: the field of view is 80
/// degrees per 200 columns, so each column steps 400 millidegrees and the
/// first column starts half the view (200 millidegrees per column of
/// width) above the player's heading.
pub open spec fn column_angle(angle: int, w: int, c: int) -> int {
    angle + 200 * w - 400 * c
}

/// The character of framebuffer cell `(c, r)`: ceiling above the wall
/// band, the fog glyph inside it, floor below it.
pub open spec fn scene_char(
    grid: Seq<Seq<u8>>,
    gw: int,
    gh: int,
    m: PlayerModel,
    w: int,
    h: int,
    c: int,
    r: int,
) -> char {
    let dist = ray_distance(grid, gw, gh, m.x, m.y, column_angle(m.angle, w, c));
    if r < wall_top_of(dist, h) {
        ' '
    } else if r < wall_bot_of(dist, h) {
        glyph_of(dist)
    } else {
        '.'
    }
}

/// The whole framebuffer as a flat sequence addressed `c + w * r`.
pub open spec fn scene_seq(
    grid: Seq<Seq<u8>>,
    gw: int,
    gh: int,
    m: PlayerModel,
    w: int,
    h: int,
) -> Seq<char> {
    Seq::new((w * h) as nat, |i: int| scene_char(grid, gw, gh, m, w, h, i % w, i / w))
}

/// Flat-index bookkeeping for a `w`-column grid: `c + w * r` stays in
/// range and decomposes back into its column and row.
pub proof fn lemma_grid_cell_index(w: int, h: int, c: int, r: int)
    requires
        0 <= c < w,
        0 <= r < h,
    ensures
        0 <= c + w * r < w * h,
        (c + w * r) % w == c,
        (c + w * r) / w == r,
{
    assert(0 <= c + w * r < w * h) by (nonlinear_arith)
        requires
            0 <= c < w,
            0 <= r < h,
    ;
    assert(c + w * r == r * w + c) by (nonlinear_arith);
    vstd::arithmetic::div_mod::lemma_fundamental_div_mod_converse(c + w * r, w, r, c);
}

/// Write one framebuffer cell.
fn put_cell(buffer: &mut Vec<char>, w: usize, h: usize, c: usize, r: usize, ch: char)
    requires
        old(buffer)@.len() == w * h,
        c < w,
        r < h,
    ensures
        final(buffer)@ == old(buffer)@.update(c as int + w as int * r as int, ch),
        final(buffer)@.len() == w * h,
{
    let n: usize = buffer.len();
    proof {
        lemma_grid_cell_index(w as int, h as int, c as int, r as int);
        assert(c + w * r < n);
    }
    let idx: usize = c + w * r;
    buffer[idx] = ch;
}

/// Render the field into the caller's framebuffer, one ray per column,
/// reusing the buffer's storage and overwriting every cell. The result is
/// exactly `scene_seq` of the field and the player's pose.
#[verifier::loop_isolation(false)]
#[verifier::rlimit(60)]
pub fn draw_scene(field: &Field, width: usize, height: usize, buffer: &mut Vec<char>)
    requires
        field.wf(),
        width < 65536,
        height < 65536,
        -POS_LIMIT <= field.player.x <= POS_LIMIT,
        -POS_LIMIT <= field.player.y <= POS_LIMIT,
    ensures
        final(buffer)@ == scene_seq(
            field.grid(),
            field.width(),
            field.height(),
            field.player@,
            width as int,
            height as int,
        ),
        final(buffer)@.len() == width * height,
{
    proof {
        assert(width * height < 0x1_0000_0000) by (nonlinear_arith)
            requires
                width < 65536,
                height < 65536,
        ;
    }
    let total: usize = width * height;
    buffer.resize(total, ' ');
    let ghost grid = field.grid();
    let ghost gw = field.width();
    let ghost gh = field.height();
    let ghost pm = field.player@;
    let ghost wi = width as int;
    let ghost hi = height as int;
    let mut c: usize = 0;
    while c < width
        invariant
            c <= width,
            buffer@.len() == width * height,
            forall|cc: int, rr: int|
                0 <= cc < c && 0 <= rr < hi ==> #[trigger] buffer@[cc + wi * rr] == scene_char(
                    grid,
                    gw,
                    gh,
                    pm,
                    wi,
                    hi,
                    cc,
                    rr,
                ),
        decreases width - c,
    {
        let a: i64 = field.player.angle + 200 * (width as i64) - 400 * (c as i64);
        proof {
            assert(a as int == column_angle(pm.angle, wi, c as int));
        }
        let dist: i64 = trace_ray(field, a);
        let ghost sd = dist as int;
        proof {
            assert(sd == ray_distance(grid, gw, gh, pm.x, pm.y, column_angle(pm.angle, wi, c as int)));
        }
        let hs: i64 = height as i64;
        let num: i64 = hs * 1_000_000_000_000;
        let den: i64 = dist + 1_000_000;
        let ws: i64 = ((num as u64) / (den as u64)) as i64;
        proof {
            vstd::arithmetic::div_mod::lemma_div_pos_is_pos(num as int, den as int);
            vstd::arithmetic::div_mod::lemma_div_is_ordered_by_denominator(
                num as int,
                1_000_000,
                den as int,
            );
            assert(num as int == 1_000_000 * ((hs as int) * 1_000_000));
            vstd::arithmetic::div_mod::lemma_div_multiples_vanish(
                (hs as int) * 1_000_000,
                1_000_000,
            );
            assert(ws as int == wall_size_of(sd, hi));
            assert(0 <= ws <= hs as int * 1_000_000);
        }
        let top_num: i64 = hs * 1_000_000 - ws;
        let bot_num: i64 = hs * 1_000_000 + ws;
        let top_i: i64 = ((top_num as u64) / 2_000_000u64) as i64;
        let bot_i: i64 = ((bot_num as u64) / 2_000_000u64) as i64;
        proof {
            vstd::arithmetic::div_mod::lemma_div_pos_is_pos(top_num as int, 2_000_000);
            vstd::arithmetic::div_mod::lemma_div_is_ordered(top_num as int, bot_num as int, 2_000_000);
            vstd::arithmetic::div_mod::lemma_div_is_ordered(
                bot_num as int,
                2_000_000 * (hs as int),
                2_000_000,
            );
            vstd::arithmetic::div_mod::lemma_div_multiples_vanish(hs as int, 2_000_000);
            assert(top_i as int == wall_top_of(sd, hi));
            assert(bot_i as int == wall_bot_of(sd, hi));
            assert(0 <= top_i <= bot_i <= hs);
        }
        let top_u: usize = top_i as usize;
        let bot_u: usize = bot_i as usize;
        let glyph: char = if dist <= 2_000_000 {
            '▓'
        } else if dist <= 4_000_000 {
            '▒'
        } else {
            '░'
        };
        proof {
            assert(glyph == glyph_of(sd));
        }
        let mut r: usize = 0;
        while r < top_u
            invariant
                r <= top_u,
                buffer@.len() == width * height,
                forall|cc: int, rr: int|
                    0 <= cc < c && 0 <= rr < hi ==> #[trigger] buffer@[cc + wi * rr]
                        == scene_char(grid, gw, gh, pm, wi, hi, cc, rr),
                forall|rr: int|
                    0 <= rr < r ==> #[trigger] buffer@[c + wi * rr] == scene_char(
                        grid,
                        gw,
                        gh,
                        pm,
                        wi,
                        hi,
                        c as int,
                        rr,
                    ),
            decreases top_u - r,
        {
            put_cell(buffer, width, height, c, r, ' ');
            proof {
                assert(scene_char(grid, gw, gh, pm, wi, hi, c as int, r as int) == ' ');
                lemma_grid_cell_index(wi, hi, c as int, r as int);
                assert forall|cc: int, rr: int| 0 <= cc < c && 0 <= rr < hi implies #[trigger] buffer@[cc
                    + wi * rr] == scene_char(grid, gw, gh, pm, wi, hi, cc, rr) by {
                    lemma_grid_cell_index(wi, hi, cc, rr);
                }
                assert forall|rr: int| 0 <= rr < r + 1 implies #[trigger] buffer@[c + wi * rr]
                    == scene_char(grid, gw, gh, pm, wi, hi, c as int, rr) by {
                    lemma_grid_cell_index(wi, hi, c as int, rr);
                }
            }
            r = r + 1;
        }
        while r < bot_u
            invariant
                top_u <= r <= bot_u,
                buffer@.len() == width * height,
                forall|cc: int, rr: int|
                    0 <= cc < c && 0 <= rr < hi ==> #[trigger] buffer@[cc + wi * rr]
                        == scene_char(grid, gw, gh, pm, wi, hi, cc, rr),
                forall|rr: int|
                    0 <= rr < r ==> #[trigger] buffer@[c + wi * rr] == scene_char(
                        grid,
                        gw,
                        gh,
                        pm,
                        wi,
                        hi,
                        c as int,
                        rr,
                    ),
            decreases bot_u - r,
        {
            put_cell(buffer, width, height, c, r, glyph);
            proof {
                assert(scene_char(grid, gw, gh, pm, wi, hi, c as int, r as int) == glyph);
                lemma_grid_cell_index(wi, hi, c as int, r as int);
                assert forall|cc: int, rr: int| 0 <= cc < c && 0 <= rr < hi implies #[trigger] buffer@[cc
                    + wi * rr] == scene_char(grid, gw, gh, pm, wi, hi, cc, rr) by {
                    lemma_grid_cell_index(wi, hi, cc, rr);
                }
                assert forall|rr: int| 0 <= rr < r + 1 implies #[trigger] buffer@[c + wi * rr]
                    == scene_char(grid, gw, gh, pm, wi, hi, c as int, rr) by {
                    lemma_grid_cell_index(wi, hi, c as int, rr);
                }
            }
            r = r + 1;
        }
        while r < height
            invariant
                bot_u <= r <= height,
                buffer@.len() == width * height,
                forall|cc: int, rr: int|
                    0 <= cc < c && 0 <= rr < hi ==> #[trigger] buffer@[cc + wi * rr]
                        == scene_char(grid, gw, gh, pm, wi, hi, cc, rr),
                forall|rr: int|
                    0 <= rr < r ==> #[trigger] buffer@[c + wi * rr] == scene_char(
                        grid,
                        gw,
                        gh,
                        pm,
                        wi,
                        hi,
                        c as int,
                        rr,
                    ),
            decreases height - r,
        {
            put_cell(buffer, width, height, c, r, '.');
            proof {
                assert(scene_char(grid, gw, gh, pm, wi, hi, c as int, r as int) == '.');
                lemma_grid_cell_index(wi, hi, c as int, r as int);
                assert forall|cc: int, rr: int| 0 <= cc < c && 0 <= rr < hi implies #[trigger] buffer@[cc
                    + wi * rr] == scene_char(grid, gw, gh, pm, wi, hi, cc, rr) by {
                    lemma_grid_cell_index(wi, hi, cc, rr);
                }
                assert forall|rr: int| 0 <= rr < r + 1 implies #[trigger] buffer@[c + wi * rr]
                    == scene_char(grid, gw, gh, pm, wi, hi, c as int, rr) by {
                    lemma_grid_cell_index(wi, hi, c as int, rr);
                }
            }
            r = r + 1;
        }
        proof {
            assert forall|cc: int, rr: int| 0 <= cc < c + 1 && 0 <= rr < hi implies #[trigger] buffer@[cc
                + wi * rr] == scene_char(grid, gw, gh, pm, wi, hi, cc, rr) by {
                if cc == c as int {
                    assert(buffer@[c + wi * rr] == scene_char(grid, gw, gh, pm, wi, hi, c as int, rr));
                }
            }
        }
        c = c + 1;
    }
    proof {
        let target = scene_seq(grid, gw, gh, pm, wi, hi);
        assert forall|i: int| 0 <= i < buffer@.len() implies buffer@[i] == target[i] by {
            let cc = i % wi;
            let rr = i / wi;
            vstd::arithmetic::div_mod::lemma_fundamental_div_mod(i, wi);
            vstd::arithmetic::div_mod::lemma_mod_division_less_than_divisor(i, wi);
            vstd::arithmetic::div_mod::lemma_div_pos_is_pos(i, wi);
            vstd::arithmetic::div_mod::lemma_multiply_divide_lt(i, wi, hi);
            assert(buffer@[cc + wi * rr] == scene_char(grid, gw, gh, pm, wi, hi, cc, rr));
        }
        assert(buffer@ =~= scene_seq(grid, gw, gh, pm, wi, hi));
    }
}

/// The framebuffer always holds exactly `w * h` cells — and so is empty
/// whenever either viewport dimension is zero.
pub proof fn lemma_scene_len(
    grid: Seq<Seq<u8>>,
    gw: int,
    gh: int,
    m: PlayerModel,
    w: int,
    h: int,
)
    requires
        0 <= w,
        0 <= h,
    ensures
        scene_seq(grid, gw, gh, m, w, h).len() == w * h,
{
}

/// Rendering is a function of the field, the pose and the viewport alone:
/// two framebuffers drawn from the same state are identical.
pub proof fn lemma_render_deterministic(
    grid: Seq<Seq<u8>>,
    gw: int,
    gh: int,
    m: PlayerModel,
    w: int,
    h: int,
    b1: Seq<char>,
    b2: Seq<char>,
)
    requires
        b1 == scene_seq(grid, gw, gh, m, w, h),
        b2 == scene_seq(grid, gw, gh, m, w, h),
    ensures
        b1 == b2,
{
}

/// Step `j` of a ray is still inside the grid and not in a wall cell.
pub open spec fn ray_clear_at(
    grid: Seq<Seq<u8>>,
    gw: int,
    gh: int,
    x: int,
    y: int,
    dx: int,
    dy: int,
    j: int,
) -> bool {
    let cx = cell_at(x + j * dx);
    let cy = cell_at(y + j * dy);
    &&& 0 <= cx < gw
    &&& 0 <= cy < gh
    &&& grid[cx][cy] != WALL_TAG
}

/// Step `j` of a ray has left the grid.
pub open spec fn ray_oob_at(gw: int, gh: int, x: int, y: int, dx: int, dy: int, j: int) -> bool {
    let cx = cell_at(x + j * dx);
    let cy = cell_at(y + j * dy);
    cx < 0 || cy < 0 || cx >= gw || cy >= gh
}

proof fn lemma_ray_exit_aux(
    grid: Seq<Seq<u8>>,
    gw: int,
    gh: int,
    x: int,
    y: int,
    dx: int,
    dy: int,
    k: int,
    j: int,
)
    requires
        0 <= j <= k <= 299,
        forall|i: int| 0 <= i < k ==> #[trigger] ray_clear_at(grid, gw, gh, x, y, dx, dy, i),
        ray_oob_at(gw, gh, x, y, dx, dy, k),
    ensures
        march(grid, gw, gh, x + j * dx, y + j * dy, dx, dy, 20_000 * j, (300 - j) as nat)
            == TOO_FAR_WALL as int,
    decreases k - j,
{
    if j == k {
    } else {
        assert(ray_clear_at(grid, gw, gh, x, y, dx, dy, j));
        assert(x + j * dx + dx == x + (j + 1) * dx) by (nonlinear_arith);
        assert(y + j * dy + dy == y + (j + 1) * dy) by (nonlinear_arith);
        lemma_ray_exit_aux(grid, gw, gh, x, y, dx, dy, k, j + 1);
    }
}

/// A ray that never meets a wall cell and leaves the grid within range
/// reports exactly the maximum distance.
pub proof fn lemma_ray_exit_is_max(
    grid: Seq<Seq<u8>>,
    gw: int,
    gh: int,
    px: int,
    py: int,
    a: int,
    k: int,
)
    requires
        0 <= k <= 299,
        forall|j: int|
            0 <= j < k ==> #[trigger] ray_clear_at(
                grid,
                gw,
                gh,
                px,
                py,
                cos_md(a) / 50,
                sin_md(a) / 50,
                j,
            ),
        ray_oob_at(gw, gh, px, py, cos_md(a) / 50, sin_md(a) / 50, k),
    ensures
        ray_distance(grid, gw, gh, px, py, a) == TOO_FAR_WALL as int,
{
    let dx = cos_md(a) / 50;
    let dy = sin_md(a) / 50;
    assert(px + 0 * dx == px) by (nonlinear_arith);
    assert(py + 0 * dy == py) by (nonlinear_arith);
    lemma_ray_exit_aux(grid, gw, gh, px, py, dx, dy, k, 0);
}

/// At the maximum distance the wall band is `h / 7` of the viewport, in
/// position units of a row.
pub proof fn lemma_miss_band_height(h: int)
    requires
        0 <= h,
    ensures
        wall_size_of(TOO_FAR_WALL as int, h) == h * 1_000_000 / 7,
{
    vstd::arithmetic::div_mod::lemma_div_denominator(h * 1_000_000_000_000, 1_000_000, 7);
    assert(h * 1_000_000_000_000 == 1_000_000 * (h * 1_000_000));
    vstd::arithmetic::div_mod::lemma_div_multiples_vanish(h * 1_000_000, 1_000_000);
}

} // verus!
