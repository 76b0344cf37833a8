use rayterm::frame::{curse_main, curse_main_ready, FrameLoop};
use rayterm::game::{draw_scene, Field, Player};

fn corridor(x: i64, vel_x: i64) -> Field {
    Field {
        blocks: vec![vec![b' '], vec![b' '], vec![b'#']],
        player: Player {
            x,
            y: 500_000,
            angle: 0,
            vel_x,
            vel_y: 0,
        },
    }
}

fn step(
    st: &mut FrameLoop,
    field: &mut Field,
    buffer: &mut Vec<char>,
    input: &[u8],
    dt: u64,
) -> rayterm::frame::StepResult {
    let input = input.to_vec();
    assert!(curse_main_ready(st, field, &input, dt));
    curse_main(st, field, buffer, &input, dt, 8, 6)
}

#[test]
fn collision_stops_and_overshoots() {
    // One whole-second step carries the player into the wall cell; the
    // resolution re-applies the step and zeroes the velocity, so the
    // player ends with velocity zero and in a cell past the wall cell.
    let mut st = FrameLoop::new();
    let mut field = corridor(1_400_000, 1_200_000);
    let mut buffer = Vec::new();
    let r = step(&mut st, &mut field, &mut buffer, b"", 1_000_000);
    assert!(!r.quit);
    assert!(r.rendered);
    assert_eq!(field.player.vel_x, 0);
    assert_eq!(field.player.vel_y, 0);
    assert_eq!(field.player.x, 3_800_000);
    // The cell the player ends in is not the wall cell it would have
    // entered.
    assert_ne!(field.player.x / 1_000_000, 2);
    assert_eq!(st.frame_num, 1);
}

#[test]
fn forward_key_sets_velocity_from_heading() {
    let mut st = FrameLoop::new();
    let mut field = corridor(500_000, 0);
    let mut buffer = Vec::new();
    // With a one-microsecond frame the deceleration rounds to nothing.
    step(&mut st, &mut field, &mut buffer, b"w", 1);
    assert_eq!(field.player.vel_x, 400_000);
    assert_eq!(field.player.vel_y, 0);
    // The backward key computes the same velocity as the forward key.
    let mut st2 = FrameLoop::new();
    let mut field2 = corridor(500_000, 0);
    step(&mut st2, &mut field2, &mut buffer, b"s", 1);
    assert_eq!(field2.player.vel_x, 400_000);
    assert_eq!(field2.player.vel_y, 0);
}

#[test]
fn strafe_at_zero_heading_snaps_in_same_frame() {
    // Strafing right at heading zero sets velocity (0, -0.4); the snap
    // test reads each component as a signed value, so both sit at or
    // below the threshold and friction zeroes the velocity in the very
    // same frame.
    let mut st = FrameLoop::new();
    let mut field = corridor(500_000, 0);
    let mut buffer = Vec::new();
    step(&mut st, &mut field, &mut buffer, b"d", 1);
    assert_eq!(field.player.vel_x, 0);
    assert_eq!(field.player.vel_y, 0);
}

#[test]
fn rotation_keys_step_the_heading() {
    let mut st = FrameLoop::new();
    let mut field = corridor(500_000, 0);
    let mut buffer = Vec::new();
    step(&mut st, &mut field, &mut buffer, b"h", 1);
    assert_eq!(field.player.angle, 2_000);
    step(&mut st, &mut field, &mut buffer, b"j", 1);
    assert_eq!(field.player.angle, 4_000);
    step(&mut st, &mut field, &mut buffer, b"lkl", 1);
    assert_eq!(field.player.angle, 358_000);
}

#[test]
fn pause_skips_physics_and_render() {
    let mut st = FrameLoop::new();
    let mut field = corridor(500_000, 300_000);
    let mut buffer = vec!['x'; 4];
    let r = step(&mut st, &mut field, &mut buffer, b"p", 1_000_000);
    assert!(!r.rendered);
    assert!(!r.quit);
    assert_eq!(r.fps, 0);
    assert!(st.pause);
    assert_eq!(st.frame_num, 0);
    assert_eq!(field.player.x, 500_000);
    assert_eq!(buffer, vec!['x'; 4]);
    // A second pause byte resumes; physics and render run again.
    let r = step(&mut st, &mut field, &mut buffer, b"p", 1_000_000);
    assert!(r.rendered);
    assert!(!st.pause);
    assert_eq!(st.frame_num, 1);
    assert_eq!(buffer.len(), 48);
}

#[test]
fn quit_key_finishes_the_frame() {
    let mut st = FrameLoop::new();
    let mut field = corridor(500_000, 0);
    let mut buffer = Vec::new();
    let r = step(&mut st, &mut field, &mut buffer, b"q", 250_000);
    assert!(r.quit);
    assert!(r.rendered);
    assert_eq!(r.fps, 4);
    assert_eq!(st.frame_num, 1);
}

#[test]
fn last_input_is_latched() {
    let mut st = FrameLoop::new();
    let mut field = corridor(500_000, 0);
    let mut buffer = Vec::new();
    step(&mut st, &mut field, &mut buffer, b"hj", 1);
    assert_eq!(st.last_input, b"hj".to_vec());
    step(&mut st, &mut field, &mut buffer, b"", 1);
    assert_eq!(st.last_input, b"hj".to_vec());
    step(&mut st, &mut field, &mut buffer, b"z", 1);
    assert_eq!(st.last_input, b"z".to_vec());
}

#[test]
fn space_zeroes_velocity() {
    let mut st = FrameLoop::new();
    let mut field = corridor(500_000, 300_000);
    let mut buffer = Vec::new();
    step(&mut st, &mut field, &mut buffer, b" ", 1);
    assert_eq!(field.player.vel_x, 0);
    assert_eq!(field.player.vel_y, 0);
}

#[test]
fn readiness_refuses_bad_arguments() {
    let st = FrameLoop::new();
    let field = corridor(500_000, 0);
    let input = Vec::new();
    assert!(!curse_main_ready(&st, &field, &input, 0));
    assert!(!curse_main_ready(&st, &field, &input, 2_000_000));
    let far = corridor(20_000_000_000_000_000, 0);
    assert!(!curse_main_ready(&st, &far, &input, 1));
    let ragged = Field {
        blocks: vec![vec![b' ', b' '], vec![b' ']],
        player: Player {
            x: 0,
            y: 0,
            angle: 0,
            vel_x: 0,
            vel_y: 0,
        },
    };
    assert!(!curse_main_ready(&st, &ragged, &input, 1));
}

#[test]
fn render_inside_step_matches_direct_render() {
    let mut st = FrameLoop::new();
    let mut field = corridor(500_000, 0);
    let mut buffer = Vec::new();
    step(&mut st, &mut field, &mut buffer, b"", 1);
    let mut direct = Vec::new();
    draw_scene(&field, 8, 6, &mut direct);
    assert_eq!(buffer, direct);
}
