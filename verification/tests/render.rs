use rayterm::fixed::{cos_mfp, div_floor, norm_turn, sin_mfp};
use rayterm::game::{check_wf, draw_scene, player_in_wall, trace_ray, Field, Player};

fn room_field(x: i64, y: i64, angle: i64) -> Field {
    Field {
        blocks: vec![
            vec![b'#', b'#', b'#', b'#', b'#'],
            vec![b'#', b' ', b' ', b' ', b'#'],
            vec![b'#', b' ', b'#', b' ', b'#'],
            vec![b'#', b' ', b' ', b' ', b'#'],
            vec![b'#', b' ', b'#', b'#', b'#'],
        ],
        player: Player {
            x,
            y,
            angle,
            vel_x: 0,
            vel_y: 0,
        },
    }
}

#[test]
fn trig_exact_values() {
    assert_eq!(sin_mfp(0), 0);
    assert_eq!(sin_mfp(30_000), 500_000);
    assert_eq!(sin_mfp(90_000), 1_000_000);
    assert_eq!(sin_mfp(150_000), 500_000);
    assert_eq!(sin_mfp(180_000), 0);
    assert_eq!(sin_mfp(270_000), -1_000_000);
    assert_eq!(cos_mfp(0), 1_000_000);
    assert_eq!(cos_mfp(90_000), 0);
    assert_eq!(cos_mfp(180_000), -1_000_000);
    assert_eq!(sin_mfp(360_000 + 30_000), 500_000);
    assert_eq!(sin_mfp(-90_000), -1_000_000);
    assert_eq!(sin_mfp(-330_000), 500_000);
    assert_eq!(cos_mfp(-90_000), 0);
}

#[test]
fn floor_division() {
    assert_eq!(div_floor(7, 2), 3);
    assert_eq!(div_floor(-7, 2), -4);
    assert_eq!(div_floor(-6, 2), -3);
    assert_eq!(div_floor(0, 5), 0);
    assert_eq!(norm_turn(360_000), 0);
    assert_eq!(norm_turn(725_000), 5_000);
    assert_eq!(norm_turn(-2_000), 358_000);
}

#[test]
fn framebuffer_has_viewport_size() {
    let field = room_field(1_500_000, 1_500_000, 0);
    let mut buffer = Vec::new();
    draw_scene(&field, 7, 3, &mut buffer);
    assert_eq!(buffer.len(), 21);
    draw_scene(&field, 0, 9, &mut buffer);
    assert_eq!(buffer.len(), 0);
    draw_scene(&field, 9, 0, &mut buffer);
    assert_eq!(buffer.len(), 0);
    draw_scene(&field, 1, 1, &mut buffer);
    assert_eq!(buffer.len(), 1);
}

#[test]
fn render_is_idempotent() {
    let field = room_field(1_500_000, 1_500_000, 45_000);
    let mut first = Vec::new();
    let mut second = vec!['x'; 3];
    draw_scene(&field, 40, 10, &mut first);
    draw_scene(&field, 40, 10, &mut second);
    assert_eq!(first, second);
}

#[test]
fn ray_that_exits_reports_max_distance() {
    // A grid with no walls at all: every ray leaves the grid.
    let field = Field {
        blocks: vec![vec![b' ', b' '], vec![b' ', b' ']],
        player: Player {
            x: 500_000,
            y: 500_000,
            angle: 0,
            vel_x: 0,
            vel_y: 0,
        },
    };
    assert_eq!(trace_ray(&field, 0), 6_000_000);
    assert_eq!(trace_ray(&field, 90_000), 6_000_000);
    // The miss band: height 10 gives a band of 10/7 ~ 1.43 rows, rows 4..5.
    let mut buffer = Vec::new();
    draw_scene(&field, 1, 10, &mut buffer);
    let expect: Vec<char> = vec![' ', ' ', ' ', ' ', '░', '.', '.', '.', '.', '.'];
    assert_eq!(buffer, expect);
}

#[test]
fn wall_one_unit_ahead() {
    // Player exactly one cell in front of a wall cell, looking at it.
    let field = Field {
        blocks: vec![vec![b' '], vec![b' '], vec![b'#']],
        player: Player {
            x: 1_000_000,
            y: 500_000,
            angle: 0,
            vel_x: 0,
            vel_y: 0,
        },
    };
    let d = trace_ray(&field, 0);
    assert_eq!(d, 1_000_000);
    assert!((980_000..=1_020_000).contains(&d));
    // Rendered through the single-column viewport the hit sits in the
    // densest fog band.
    let mut buffer = Vec::new();
    draw_scene(&field, 1, 5, &mut buffer);
    let expect: Vec<char> = vec![' ', '▓', '▓', '.', '.'];
    assert_eq!(buffer, expect);
}

#[test]
fn room_scenario_east_and_north() {
    // Facing the open side of the room: every column's ray leaves through
    // the gap, so only the far miss band remains.
    let field = room_field(1_500_000, 1_500_000, 0);
    let mut buffer = Vec::new();
    draw_scene(&field, 40, 10, &mut buffer);
    assert_eq!(buffer.len(), 400);
    for c in 0..40 {
        for r in 0..10 {
            let got = buffer[c + 40 * r];
            let want = if r < 4 {
                ' '
            } else if r == 4 {
                '░'
            } else {
                '.'
            };
            assert_eq!(got, want, "column {} row {}", c, r);
        }
    }
    // Facing a solid room wall 2.5 cells away: a near band, vertically
    // centered, flanked by ceiling above and floor below.
    let field = room_field(1_500_000, 1_500_000, 90_000);
    draw_scene(&field, 40, 10, &mut buffer);
    for c in 0..40 {
        let mut top = 10;
        let mut bot = 10;
        for r in 0..10 {
            if buffer[c + 40 * r] != ' ' {
                top = r;
                break;
            }
        }
        for r in top..10 {
            if buffer[c + 40 * r] == '.' {
                bot = r;
                break;
            }
        }
        assert_eq!(top, 3, "column {}", c);
        assert_eq!(bot, 6, "column {}", c);
        for r in 0..top {
            assert_eq!(buffer[c + 40 * r], ' ');
        }
        for r in top..bot {
            assert_eq!(buffer[c + 40 * r], '▒');
        }
        for r in bot..10 {
            assert_eq!(buffer[c + 40 * r], '.');
        }
        // The band is vertically centered: as much ceiling as floor,
        // within a row.
        assert!((top as i32 - (10 - bot) as i32).abs() <= 1);
    }
}

#[test]
fn well_formedness_is_decided() {
    let good = room_field(1_500_000, 1_500_000, 0);
    assert!(check_wf(&good));
    let ragged = Field {
        blocks: vec![vec![b' ', b' '], vec![b' ']],
        player: Player {
            x: 0,
            y: 0,
            angle: 0,
            vel_x: 0,
            vel_y: 0,
        },
    };
    assert!(!check_wf(&ragged));
    let empty = Field {
        blocks: vec![],
        player: Player {
            x: 0,
            y: 0,
            angle: 0,
            vel_x: 0,
            vel_y: 0,
        },
    };
    assert!(!check_wf(&empty));
    let spun = room_field(1_500_000, 1_500_000, 360_000);
    assert!(!check_wf(&spun));
}

#[test]
fn wall_cell_detection() {
    let field = room_field(500_000, 500_000, 0);
    assert!(player_in_wall(&field));
    let field = room_field(1_500_000, 1_500_000, 0);
    assert!(!player_in_wall(&field));
    // A negative coordinate saturates to the first cell.
    let field = room_field(-500_000, 500_000, 0);
    assert!(player_in_wall(&field));
}
