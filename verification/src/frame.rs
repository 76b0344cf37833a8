//! The per-frame state machine: key handling, physics integration,
//! collision resolution, friction, and rendering.
//!
//! One call of [`curse_main`] is one iteration of the real-time loop: it
//! folds the pending input bytes into the player pose and the loop flags,
//! and, unless the loop is paused, integrates the player's motion over the
//! elapsed time, resolves a collision by re-applying the same step and
//! zeroing the velocity, applies heading-aligned deceleration, and renders
//! the scene. The caller performs the surrounding I/O and timing.

use vstd::prelude::*;

verus! {

use crate::fixed::FULL_TURN;
use crate::fixed::cos_md;
use crate::fixed::cos_mfp;
use crate::fixed::div_floor;
use crate::fixed::norm_md;
use crate::fixed::norm_turn;
use crate::fixed::sin_md;
use crate::fixed::sin_mfp;
use crate::game::Field;
use crate::game::Player;
use crate::game::PlayerModel;
use crate::game::cell_at;
use crate::game::clamp0;
use crate::game::draw_scene;
use crate::game::in_wall_spec;
use crate::game::player_in_wall;
use crate::game::scene_seq;

/// Speed set by a movement key, in position units per second (0.4 cells).
pub const MOVE_SPEED: i64 = 400_000;

/// Heading change of one rotation key, in millidegrees (2 degrees).
pub const ROT_STEP: i64 = 2_000;

/// Velocity components at or below this snap to zero (0.0001 cells/s).
pub const VEL_EPS: i64 = 100;

/// Largest elapsed time one step accepts, in microseconds (one second).
pub const DT_MAX: u64 = 1_000_000;

/// Largest player coordinate magnitude one step accepts.
pub const STEP_POS_MAX: i64 = 10_000_000_000_000_000;

/// Largest velocity magnitude one step accepts.
pub const STEP_VEL_MAX: i64 = 1_000_000_000_000;


/// The recognized key bytes: quit, pause, the two rotation pairs, forward
/// and backward (which share one velocity), the two strafes, and stop.
pub const KEY_QUIT: u8 = 113;

pub const KEY_PAUSE: u8 = 112;

pub const KEY_ROT_A1: u8 = 104;

pub const KEY_ROT_A2: u8 = 106;

pub const KEY_ROT_B1: u8 = 108;

pub const KEY_ROT_B2: u8 = 107;

pub const KEY_FWD: u8 = 119;

pub const KEY_BACK: u8 = 115;

pub const KEY_STRAFE_D: u8 = 100;

pub const KEY_STRAFE_A: u8 = 97;

pub const KEY_STOP: u8 = 32;

/// A movement-key speed scaled by a heading fraction.
pub open spec fn speed_scale(f: int) -> int {
    f * 400_000 / 1_000_000
}

/// The effect of one input byte on the player pose. Unrecognized bytes do
/// nothing; the quit and pause bytes are handled by the fold itself. By
/// the key map's design the forward and backward keys compute one and the
/// same velocity.
pub open spec fn apply_key(m: PlayerModel, k: u8) -> PlayerModel {
    if k == KEY_ROT_A1 || k == KEY_ROT_A2 {
        PlayerModel { angle: norm_md(m.angle + 2_000), ..m }
    } else if k == KEY_ROT_B1 || k == KEY_ROT_B2 {
        PlayerModel { angle: norm_md(m.angle - 2_000), ..m }
    } else if k == KEY_FWD || k == KEY_BACK {
        PlayerModel {
            vel_x: speed_scale(cos_md(m.angle)),
            vel_y: speed_scale(sin_md(m.angle)),
            ..m
        }
    } else if k == KEY_STRAFE_D {
        PlayerModel {
            vel_x: speed_scale(sin_md(m.angle)),
            vel_y: -speed_scale(cos_md(m.angle)),
            ..m
        }
    } else if k == KEY_STRAFE_A {
        PlayerModel {
            vel_x: -speed_scale(sin_md(m.angle)),
            vel_y: speed_scale(cos_md(m.angle)),
            ..m
        }
    } else if k == KEY_STOP {
        PlayerModel { vel_x: 0, vel_y: 0, ..m }
    } else {
        m
    }
}

/// Folding a batch of input bytes over the pose and the loop flags, in
/// order: the pause byte toggles, the quit byte latches, every other byte
/// goes through [`apply_key`].
pub open spec fn fold_input(m: PlayerModel, pause: bool, quit: bool, s: Seq<u8>) -> (
    PlayerModel,
    bool,
    bool,
)
    decreases s.len(),
{
    if s.len() == 0 {
        (m, pause, quit)
    } else {
        let k = s[0];
        fold_input(
            apply_key(m, k),
            if k == KEY_PAUSE {
                !pause
            } else {
                pause
            },
            quit || k == KEY_QUIT,
            s.subrange(1, s.len() as int),
        )
    }
}

/// Position integration over `dt` microseconds.
pub open spec fn integrate(m: PlayerModel, dt: int) -> PlayerModel {
    PlayerModel {
        x: m.x + m.vel_x * dt / 1_000_000,
        y: m.y + m.vel_y * dt / 1_000_000,
        ..m
    }
}

/// Integration plus collision resolution: if the integrated position
/// lands in a wall cell, the same step is applied once more and the
/// velocity is zeroed.
pub open spec fn resolve(grid: Seq<Seq<u8>>, m: PlayerModel, dt: int) -> PlayerModel {
    let m1 = integrate(m, dt);
    if in_wall_spec(grid, m1.x, m1.y) {
        PlayerModel { vel_x: 0, vel_y: 0, ..integrate(m1, dt) }
    } else {
        m1
    }
}

/// Heading-aligned deceleration: when both velocity components are at or
/// below the snap threshold the velocity becomes exactly zero; otherwise
/// both components lose the heading vector times the movement speed over
/// `dt`.
pub open spec fn friction(m: PlayerModel, dt: int) -> PlayerModel {
    if m.vel_x <= 100 && m.vel_y <= 100 {
        PlayerModel { vel_x: 0, vel_y: 0, ..m }
    } else {
        PlayerModel {
            vel_x: m.vel_x - speed_scale(cos_md(m.angle)) * dt / 1_000_000,
            vel_y: m.vel_y - speed_scale(sin_md(m.angle)) * dt / 1_000_000,
            ..m
        }
    }
}

/// One whole physics step: integrate, resolve the collision, decelerate.
pub open spec fn physics_step(grid: Seq<Seq<u8>>, m: PlayerModel, dt: int) -> PlayerModel {
    friction(resolve(grid, m, dt), dt)
}

/// The loop state that outlives one iteration.
pub struct FrameLoop {
    pub pause: bool,
    pub frame_num: u64,
    pub last_input: Vec<u8>,
}

/// What one iteration reports back to the caller.
pub struct StepResult {
    pub quit: bool,
    pub rendered: bool,
    pub fps: u64,
}

impl FrameLoop {
    /// A fresh loop: running, frame zero, no input seen.
    pub fn new() -> (r: FrameLoop)
        ensures
            !r.pause,
            r.frame_num == 0,
            r.last_input@.len() == 0,
    {
        FrameLoop { pause: false, frame_num: 0, last_input: Vec::new() }
    }
}

/// A scaled heading fraction stays within the movement speed.
proof fn lemma_speed_scale_bound(f: int)
    requires
        -1_000_000 <= f <= 1_000_000,
    ensures
        -400_000 <= speed_scale(f) <= 400_000,
{
    vstd::arithmetic::div_mod::lemma_div_is_ordered(f * 400_000, 400_000_000_000, 1_000_000);
    vstd::arithmetic::div_mod::lemma_div_is_ordered(-400_000_000_000, f * 400_000, 1_000_000);
    vstd::arithmetic::div_mod::lemma_div_multiples_vanish(400_000, 1_000_000);
    vstd::arithmetic::div_mod::lemma_div_multiples_vanish(-400_000, 1_000_000);
}

/// A product divided by `1_000_000` keeps the bound `|a| <= b` when the
/// other factor is at most `1_000_000`.
proof fn lemma_scaled_product_bound(a: int, d: int, b: int)
    requires
        -b <= a <= b,
        0 <= d <= 1_000_000,
        0 <= b,
    ensures
        -b <= a * d / 1_000_000 <= b,
{
    assert(-(b * 1_000_000) <= a * d <= b * 1_000_000) by (nonlinear_arith)
        requires
            -b <= a <= b,
            0 <= d <= 1_000_000,
            0 <= b,
    ;
    vstd::arithmetic::div_mod::lemma_div_is_ordered(a * d, b * 1_000_000, 1_000_000);
    vstd::arithmetic::div_mod::lemma_div_is_ordered(-(b * 1_000_000), a * d, 1_000_000);
    vstd::arithmetic::div_mod::lemma_div_multiples_vanish(b, 1_000_000);
    vstd::arithmetic::div_mod::lemma_div_multiples_vanish(-b, 1_000_000);
}

/// The movement speed scaled by a heading fraction, as a value.
fn speed_of(f: i64) -> (v: i64)
    requires
        -1_000_000 <= f <= 1_000_000,
    ensures
        v == speed_scale(f as int),
        -400_000 <= v <= 400_000,
{
    proof {
        lemma_speed_scale_bound(f as int);
    }
    div_floor(f * MOVE_SPEED, 1_000_000)
}

/// Apply one input byte to the player pose.
fn apply_key_exec(p: &mut Player, k: u8)
    requires
        0 <= old(p).angle < FULL_TURN,
        -STEP_VEL_MAX <= old(p).vel_x <= STEP_VEL_MAX,
        -STEP_VEL_MAX <= old(p).vel_y <= STEP_VEL_MAX,
    ensures
        final(p)@ == apply_key(old(p)@, k),
        final(p).x == old(p).x,
        final(p).y == old(p).y,
        0 <= final(p).angle < FULL_TURN,
        -STEP_VEL_MAX <= final(p).vel_x <= STEP_VEL_MAX,
        -STEP_VEL_MAX <= final(p).vel_y <= STEP_VEL_MAX,
{
    if k == KEY_ROT_A1 || k == KEY_ROT_A2 {
        p.angle = norm_turn(p.angle + ROT_STEP);
    } else if k == KEY_ROT_B1 || k == KEY_ROT_B2 {
        let shifted: i64 = p.angle + FULL_TURN - ROT_STEP;
        p.angle = norm_turn(shifted);
        proof {
            vstd::arithmetic::div_mod::lemma_mod_multiples_vanish(
                1,
                old(p).angle - 2_000,
                360_000,
            );
        }
    } else if k == KEY_FWD || k == KEY_BACK {
        let c: i64 = cos_mfp(p.angle);
        let s: i64 = sin_mfp(p.angle);
        p.vel_x = speed_of(c);
        p.vel_y = speed_of(s);
    } else if k == KEY_STRAFE_D {
        let c: i64 = cos_mfp(p.angle);
        let s: i64 = sin_mfp(p.angle);
        p.vel_x = speed_of(s);
        p.vel_y = -speed_of(c);
    } else if k == KEY_STRAFE_A {
        let c: i64 = cos_mfp(p.angle);
        let s: i64 = sin_mfp(p.angle);
        p.vel_x = -speed_of(s);
        p.vel_y = speed_of(c);
    } else if k == KEY_STOP {
        p.vel_x = 0;
        p.vel_y = 0;
    }
}

/// A byte-for-byte copy of an input batch.
pub fn copy_bytes(src: &Vec<u8>) -> (out: Vec<u8>)
    ensures
        out@ == src@,
{
    let mut out: Vec<u8> = Vec::new();
    let mut i: usize = 0;
    while i < src.len()
        invariant
            i <= src.len(),
            out@ == src@.subrange(0, i as int),
        decreases src.len() - i,
    {
        out.push(src[i]);
        proof {
            assert(out@ =~= src@.subrange(0, i as int + 1));
        }
        i = i + 1;
    }
    proof {
        assert(out@ =~= src@);
    }
    out
}

/// One iteration of the frame loop. The input bytes are folded into the
/// pose and the flags first; when the fold leaves the loop unpaused, the
/// player's motion is integrated over `dt` microseconds, a collision is
/// resolved by re-applying the step and zeroing the velocity, the
/// heading-aligned deceleration runs, the scene is rendered into
/// `buffer`, and the frame counter advances. The quit flag is reported
/// but the iteration still finishes, as the loop condition is only read
/// between iterations.
#[verifier::loop_isolation(false)]
#[verifier::rlimit(60)]
pub fn curse_main(
    st: &mut FrameLoop,
    field: &mut Field,
    buffer: &mut Vec<char>,
    input: &Vec<u8>,
    dt: u64,
    width: usize,
    height: usize,
) -> (r: StepResult)
    requires
        old(field).wf(),
        width < 65536,
        height < 65536,
        1 <= dt <= DT_MAX,
        old(st).frame_num < u64::MAX,
        -STEP_POS_MAX <= old(field).player.x <= STEP_POS_MAX,
        -STEP_POS_MAX <= old(field).player.y <= STEP_POS_MAX,
        -STEP_VEL_MAX <= old(field).player.vel_x <= STEP_VEL_MAX,
        -STEP_VEL_MAX <= old(field).player.vel_y <= STEP_VEL_MAX,
        ({
            let t = fold_input(old(field).player@, old(st).pause, false, input@);
            !t.1 ==> {
                let mi = integrate(t.0, dt as int);
                clamp0(cell_at(mi.x)) < old(field).width() && clamp0(cell_at(mi.y))
                    < old(field).height()
            }
        }),
    ensures
        ({
            let t = fold_input(old(field).player@, old(st).pause, false, input@);
            &&& r.quit == t.2
            &&& final(st).pause == t.1
            &&& r.rendered == !t.1
            &&& final(field).blocks == old(field).blocks
            &&& final(field).wf()
            &&& final(st).last_input@ == if input@.len() > 0 {
                input@
            } else {
                old(st).last_input@
            }
            &&& (t.1 ==> final(field).player@ == t.0 && final(buffer)@ == old(buffer)@
                && final(st).frame_num == old(st).frame_num && r.fps == 0)
            &&& (!t.1 ==> final(field).player@ == physics_step(
                old(field).grid(),
                t.0,
                dt as int,
            ) && final(buffer)@ == scene_seq(
                old(field).grid(),
                old(field).width(),
                old(field).height(),
                final(field).player@,
                width as int,
                height as int,
            ) && final(st).frame_num == old(st).frame_num + 1 && r.fps == 1_000_000u64 / dt)
        }),
{
    let ghost t = fold_input(old(field).player@, old(st).pause, false, input@);
    let ghost n = input@.len() as int;
    let mut pause: bool = st.pause;
    let mut quit: bool = false;
    let mut i: usize = 0;
    proof {
        assert(input@.subrange(0, n) =~= input@);
    }
    while i < input.len()
        invariant
            i <= input.len(),
            field.wf(),
            field.blocks == old(field).blocks,
            field.player.x == old(field).player.x,
            field.player.y == old(field).player.y,
            -STEP_VEL_MAX <= field.player.vel_x <= STEP_VEL_MAX,
            -STEP_VEL_MAX <= field.player.vel_y <= STEP_VEL_MAX,
            st == old(st),
            buffer == old(buffer),
            t == fold_input(
                field.player@,
                pause,
                quit,
                input@.subrange(i as int, n),
            ),
        decreases input.len() - i,
    {
        let k: u8 = input[i];
        proof {
            assert(input@.subrange(i as int, n).subrange(1, n - i) =~= input@.subrange(
                i as int + 1,
                n,
            ));
        }
        apply_key_exec(&mut field.player, k);
        if k == KEY_PAUSE {
            pause = !pause;
        }
        if k == KEY_QUIT {
            quit = true;
        }
        i = i + 1;
    }
    proof {
        assert(input@.subrange(n, n).len() == 0);
        assert(t == (field.player@, pause, quit));
    }
    if input.len() > 0 {
        st.last_input = copy_bytes(input);
    }
    st.pause = pause;
    if pause {
        return StepResult { quit, rendered: false, fps: 0 };
    }
    let dt_i: i64 = dt as i64;
    let ghost m1 = t.0;
    proof {
        lemma_scaled_product_bound(field.player.vel_x as int, dt_i as int, STEP_VEL_MAX as int);
        lemma_scaled_product_bound(field.player.vel_y as int, dt_i as int, STEP_VEL_MAX as int);
    }
    let mvx: i64 = div_floor(field.player.vel_x * dt_i, 1_000_000);
    let mvy: i64 = div_floor(field.player.vel_y * dt_i, 1_000_000);
    field.player.x = field.player.x + mvx;
    field.player.y = field.player.y + mvy;
    proof {
        assert(field.player@ == integrate(m1, dt as int));
    }
    if player_in_wall(field) {
        field.player.x = field.player.x + mvx;
        field.player.y = field.player.y + mvy;
        field.player.vel_x = 0;
        field.player.vel_y = 0;
    }
    proof {
        assert(field.player@ == resolve(old(field).grid(), m1, dt as int));
    }
    if field.player.vel_x <= VEL_EPS && field.player.vel_y <= VEL_EPS {
        field.player.vel_x = 0;
        field.player.vel_y = 0;
    } else {
        let c: i64 = cos_mfp(field.player.angle);
        let s: i64 = sin_mfp(field.player.angle);
        let ax: i64 = speed_of(c);
        let ay: i64 = speed_of(s);
        proof {
            lemma_scaled_product_bound(ax as int, dt_i as int, 400_000);
            lemma_scaled_product_bound(ay as int, dt_i as int, 400_000);
        }
        field.player.vel_x = field.player.vel_x - div_floor(ax * dt_i, 1_000_000);
        field.player.vel_y = field.player.vel_y - div_floor(ay * dt_i, 1_000_000);
    }
    proof {
        assert(field.player@ == physics_step(old(field).grid(), m1, dt as int));
    }
    draw_scene(field, width, height, buffer);
    st.frame_num = st.frame_num + 1;
    StepResult { quit, rendered: true, fps: 1_000_000u64 / dt }
}

/// When one physics step runs into a wall cell, the step leaves the
/// velocity exactly zero: the collision zeroes it and the deceleration
/// keeps a zero velocity at zero.
pub proof fn lemma_collision_zeroes_velocity(grid: Seq<Seq<u8>>, m: PlayerModel, dt: int)
    requires
        in_wall_spec(grid, integrate(m, dt).x, integrate(m, dt).y),
    ensures
        physics_step(grid, m, dt).vel_x == 0,
        physics_step(grid, m, dt).vel_y == 0,
{
}

/// The collision resolution re-applies the step instead of reverting it.
/// Whenever the colliding step advances by at least one whole cell, the
/// player therefore ends past the wall cell it stepped into, not inside
/// it: the resolved cell is strictly beyond the collision cell.
pub proof fn lemma_collision_overshoots(grid: Seq<Seq<u8>>, m: PlayerModel, dt: int)
    requires
        in_wall_spec(grid, integrate(m, dt).x, integrate(m, dt).y),
        m.vel_x * dt / 1_000_000 >= 1_000_000,
    ensures
        cell_at(physics_step(grid, m, dt).x) > cell_at(integrate(m, dt).x),
{
    let x1 = integrate(m, dt).x;
    let mv = m.vel_x * dt / 1_000_000;
    vstd::arithmetic::div_mod::lemma_div_plus_one(x1, 1_000_000);
    vstd::arithmetic::div_mod::lemma_div_is_ordered(x1 + 1_000_000, x1 + mv, 1_000_000);
}

/// Whether one call of [`curse_main`] with these arguments is within the
/// step's envelope: the field well formed, the timing and state bounds
/// met, and — unless the fold of the input leaves the loop paused — the
/// integrated position's cell still inside the grid. A caller that
/// cannot prove the envelope tests it with this and treats a refusal as
/// the fatal invariant violation it is.
pub fn curse_main_ready(st: &FrameLoop, field: &Field, input: &Vec<u8>, dt: u64) -> (ok: bool)
    ensures
        ok == ({
            let t = fold_input(field.player@, st.pause, false, input@);
            &&& field.wf()
            &&& 1 <= dt <= DT_MAX
            &&& st.frame_num < u64::MAX
            &&& -STEP_POS_MAX <= field.player.x <= STEP_POS_MAX
            &&& -STEP_POS_MAX <= field.player.y <= STEP_POS_MAX
            &&& -STEP_VEL_MAX <= field.player.vel_x <= STEP_VEL_MAX
            &&& -STEP_VEL_MAX <= field.player.vel_y <= STEP_VEL_MAX
            &&& (!t.1 ==> {
                let mi = integrate(t.0, dt as int);
                clamp0(cell_at(mi.x)) < field.width() && clamp0(cell_at(mi.y)) < field.height()
            })
        }),
{
    if !crate::game::check_wf(field) {
        return false;
    }
    if dt < 1 || dt > DT_MAX {
        return false;
    }
    if st.frame_num == u64::MAX {
        return false;
    }
    if field.player.x < -STEP_POS_MAX || field.player.x > STEP_POS_MAX {
        return false;
    }
    if field.player.y < -STEP_POS_MAX || field.player.y > STEP_POS_MAX {
        return false;
    }
    if field.player.vel_x < -STEP_VEL_MAX || field.player.vel_x > STEP_VEL_MAX {
        return false;
    }
    if field.player.vel_y < -STEP_VEL_MAX || field.player.vel_y > STEP_VEL_MAX {
        return false;
    }
    let mut sim: Player = Player {
        x: field.player.x,
        y: field.player.y,
        angle: field.player.angle,
        vel_x: field.player.vel_x,
        vel_y: field.player.vel_y,
    };
    let mut pause: bool = st.pause;
    let mut quit: bool = false;
    let mut i: usize = 0;
    let ghost t = fold_input(field.player@, st.pause, false, input@);
    let ghost n = input@.len() as int;
    proof {
        assert(input@.subrange(0, n) =~= input@);
    }
    while i < input.len()
        invariant
            i <= input.len(),
            n == input@.len() as int,
            0 <= sim.angle < FULL_TURN,
            -STEP_VEL_MAX <= sim.vel_x <= STEP_VEL_MAX,
            -STEP_VEL_MAX <= sim.vel_y <= STEP_VEL_MAX,
            -STEP_POS_MAX <= sim.x <= STEP_POS_MAX,
            -STEP_POS_MAX <= sim.y <= STEP_POS_MAX,
            t == fold_input(sim@, pause, quit, input@.subrange(i as int, n)),
        decreases input.len() - i,
    {
        let k: u8 = input[i];
        proof {
            assert(input@.subrange(i as int, n).subrange(1, n - i) =~= input@.subrange(
                i as int + 1,
                n,
            ));
        }
        apply_key_exec(&mut sim, k);
        if k == KEY_PAUSE {
            pause = !pause;
        }
        if k == KEY_QUIT {
            quit = true;
        }
        i = i + 1;
    }
    proof {
        assert(input@.subrange(n, n).len() == 0);
        assert(t == (sim@, pause, quit));
    }
    if pause {
        return true;
    }
    let dt_i: i64 = dt as i64;
    proof {
        lemma_scaled_product_bound(sim.vel_x as int, dt_i as int, STEP_VEL_MAX as int);
        lemma_scaled_product_bound(sim.vel_y as int, dt_i as int, STEP_VEL_MAX as int);
    }
    let x1: i64 = sim.x + div_floor(sim.vel_x * dt_i, 1_000_000);
    let y1: i64 = sim.y + div_floor(sim.vel_y * dt_i, 1_000_000);
    let cx: i64 = div_floor(x1, crate::fixed::POS_ONE);
    let cy: i64 = div_floor(y1, crate::fixed::POS_ONE);
    let gx: i64 = if cx < 0 {
        0
    } else {
        cx
    };
    let gy: i64 = if cy < 0 {
        0
    } else {
        cy
    };
    gx < field.blocks.len() as i64 && gy < field.blocks[0].len() as i64
}

} // verus!
