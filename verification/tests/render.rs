use spinning_cube::fixed::ONE;
use spinning_cube::frame::Frame;
use spinning_cube::frame::BAR;
use spinning_cube::frame::BLANK;
use spinning_cube::frame::DASH;
use spinning_cube::projection::cube_to_world;
use spinning_cube::projection::project_vertices;
use spinning_cube::raster::draw_line;
use spinning_cube::raster::Point;
use spinning_cube::render::draw_cube;
use spinning_cube::render::draw_face;
use spinning_cube::render::render;
use spinning_cube::render::Animation;
use spinning_cube::visibility::cull;

/// The fixed-point value nearest to `v`.
fn to_fixed(v: f32) -> i32 {
    (v * 65536.0).round() as i32
}

fn lines(frame: &Frame) -> Vec<String> {
    frame
        .to_rows()
        .into_iter()
        .map(|row| String::from_utf8(row).unwrap())
        .collect()
}

fn count(frame: &Frame, mark: u8) -> usize {
    frame
        .to_rows()
        .iter()
        .map(|row| row.iter().filter(|&&cell| cell == mark).count())
        .sum()
}

/// The cube seen head-on: only the near side is drawn.
fn head_on() -> Vec<&'static str> {
    vec![
        "                                                                                ",
        "                                                                                ",
        "                                                                                ",
        "                                                                                ",
        "                                                                                ",
        "                                                                                ",
        "              -----------------------------------------------------             ",
        "             |                                                    |             ",
        "             |                                                    |             ",
        "             |                                                    |             ",
        "             |                                                    |             ",
        "             |                                                    |             ",
        "             |                                                    |             ",
        "             |                                                    |             ",
        "             |                                                    |             ",
        "             |                                                    |             ",
        "             |                                                    |             ",
        "             |                                                    |             ",
        "             |                                                    |             ",
        "             |                                                    |             ",
        "             |                                                    |             ",
        "             |                                                    |             ",
        "             |                                                    |             ",
        "             |                                                    |             ",
        "             |                                                    |             ",
        "             |                                                    |             ",
        "             |                                                    |             ",
        "             |                                                    |             ",
        "             |                                                    |             ",
        "             |                                                    |             ",
        "             |                                                    |             ",
        "             |                                                    |             ",
        "             |                                                    |             ",
        "             |----------------------------------------------------|             ",
        "                                                                                ",
        "                                                                                ",
        "                                                                                ",
        "                                                                                ",
        "                                                                                ",
        "                                                                                ",
    ]
}

/// The cube turned by half a radian.
fn turned_half_a_radian() -> Vec<&'static str> {
    vec![
        "                                                                                ",
        "                                                                                ",
        "                           --                                                   ",
        "                         ||  -----                                              ",
        "                         ||       -----                                         ",
        "                        | |            -----                                    ",
        "                        | |                 -----                               ",
        "                        | |                      -----                          ",
        "                       |  |                           -----                     ",
        "                       |  |                                -----                ",
        "                      |   |                                     --              ",
        "                      |   |                                      |              ",
        "                     |    |                                      |              ",
        "                     |    |                                      |              ",
        "                     |    |                                      |              ",
        "                     |    |                                      |              ",
        "                     |    |                                      |              ",
        "                     |    |                                      |              ",
        "                     |    |                                      |              ",
        "                     |    |                                      |              ",
        "                     |    |                                      |              ",
        "                     |    |                                      |              ",
        "                     |    |                                      |              ",
        "                     |    |                                      |              ",
        "                     |    |                                      |              ",
        "                     |    |                                      |              ",
        "                     |    |                                      |              ",
        "                     |    |                                      |              ",
        "                     |    |                                      |              ",
        "                      |   |                                     -|              ",
        "                      |   |                                -----                ",
        "                       |  |                           -----                     ",
        "                       |  |                      -----                          ",
        "                        | |                 -----                               ",
        "                        | |            -----                                    ",
        "                        | |       -----                                         ",
        "                         ||  -----                                              ",
        "                         ||--                                                   ",
        "                                                                                ",
        "                                                                                ",
    ]
}

/// The cube turned by three quarters of a half turn.
fn turned_three_eighths() -> Vec<&'static str> {
    vec![
        "                                                                                ",
        "                                        -                                       ",
        "                                     ---|---                                    ",
        "                                   --   |   --                                  ",
        "                                 --     |     --                                ",
        "                               --       |       --                              ",
        "                             --         |         --                            ",
        "                           --           |           --                          ",
        "                        ---             |             ---                       ",
        "                      --                |                --                     ",
        "                    --                  |                  --                   ",
        "                  --                    |                    --                 ",
        "                 |                      |                     |                 ",
        "                 |                      |                     |                 ",
        "                 |                      |                     |                 ",
        "                 |                      |                     |                 ",
        "                 |                      |                     |                 ",
        "                 |                      |                     |                 ",
        "                 |                      |                     |                 ",
        "                 |                      |                     |                 ",
        "                 |                      |                     |                 ",
        "                 |                      |                     |                 ",
        "                 |                      |                     |                 ",
        "                 |                      |                     |                 ",
        "                 |                      |                     |                 ",
        "                 |                      |                     |                 ",
        "                 |                      |                     |                 ",
        "                 |                      |                     |                 ",
        "                  --                    |                    --                 ",
        "                    --                  |                  --                   ",
        "                      --                |                --                     ",
        "                        ---             |             ---                       ",
        "                           --           |           --                          ",
        "                             --         |         --                            ",
        "                               --       |       --                              ",
        "                                 --     |     --                                ",
        "                                   --   |   --                                  ",
        "                                     ---|---                                    ",
        "                                        |                                       ",
        "                                                                                ",
    ]
}

#[test]
fn the_first_frame_shows_the_near_side() {
    let frame = render(ONE, 0).unwrap();
    assert_eq!(lines(&frame), head_on());
    assert_eq!(count(&frame, BAR), 54);
    assert_eq!(count(&frame, DASH), 105);
    assert_eq!(count(&frame, BLANK), 3200 - 159);
}

#[test]
fn the_frame_at_half_a_radian() {
    let frame = render(57513, 31420).unwrap();
    assert_eq!(lines(&frame), turned_half_a_radian());
    assert_eq!(count(&frame, BAR), 89);
    assert_eq!(count(&frame, DASH), 77);
}

#[test]
fn the_frame_at_three_eighths_of_a_turn() {
    let frame = render(-46341, 46341).unwrap();
    assert_eq!(lines(&frame), turned_three_eighths());
}

#[test]
fn quarter_turns_show_the_same_picture() {
    let first = lines(&render(ONE, 0).unwrap());
    assert_eq!(lines(&render(0, ONE).unwrap()), first);
    assert_eq!(lines(&render(-ONE, 0).unwrap()), first);
    assert_eq!(lines(&render(0, -ONE).unwrap()), first);
}

#[test]
fn rendering_is_repeatable() {
    let first = render(57513, 31420).unwrap();
    let second = render(57513, 31420).unwrap();
    assert_eq!(first.to_text(), second.to_text());
}

#[test]
fn values_outside_the_unit_range_give_no_frame() {
    assert!(render(ONE + 1, 0).is_none());
    assert!(render(0, ONE + 1).is_none());
    assert!(render(-ONE - 1, 0).is_none());
    assert!(render(0, -ONE - 1).is_none());
    assert!(render(i32::MIN, i32::MAX).is_none());
    assert!(render(ONE, ONE).is_some());
    assert!(render(-ONE, -ONE).is_some());
    assert!(render(0, 0).is_some());
}

#[test]
fn render_is_projection_followed_by_drawing() {
    for (cos, sin) in [(ONE, 0), (57513, 31420), (-46341, 46341), (123, -65500)] {
        let screen = project_vertices(&cube_to_world(cos, sin).unwrap()).unwrap();
        assert_eq!(
            lines(&draw_cube(&screen)),
            lines(&render(cos, sin).unwrap())
        );
    }
}

#[test]
fn only_the_near_side_is_seen_head_on() {
    let screen = project_vertices(&cube_to_world(ONE, 0).unwrap()).unwrap();
    let mut seen = Vec::new();
    for face in 0..6 {
        let mut frame = Frame::new();
        draw_face(&mut frame, &screen, face);
        if count(&frame, BLANK) != 3200 {
            seen.push(face);
        }
    }
    assert_eq!(seen, vec![0]);
}

#[test]
fn two_sides_are_seen_at_half_a_radian() {
    let screen = project_vertices(&cube_to_world(57513, 31420).unwrap()).unwrap();
    let mut seen = Vec::new();
    for face in 0..6 {
        let mut frame = Frame::new();
        draw_face(&mut frame, &screen, face);
        if count(&frame, BLANK) != 3200 {
            seen.push(face);
        }
    }
    assert_eq!(seen, vec![0, 1]);
}

#[test]
fn a_face_is_its_four_edges_drawn_in_order() {
    let stray = Point { x: 10 * ONE, y: 30 * ONE };
    let screen = [
        stray,
        Point { x: 30 * ONE + ONE / 2, y: 30 * ONE + ONE / 2 },
        stray,
        Point { x: 10 * ONE, y: 30 * ONE },
        stray,
        Point { x: 30 * ONE + ONE / 2, y: 10 * ONE + ONE / 2 },
        stray,
        Point { x: 10 * ONE + ONE / 2, y: 10 * ONE + ONE / 2 },
    ];
    // the near side joins the corners 1, 5, 7 and 3
    let (p1, p5, p7, p3) = (screen[1], screen[5], screen[7], screen[3]);
    assert!(!cull(p1, p5, p7));
    let mut expected = Frame::new();
    draw_line(&mut expected, p1, p3);
    draw_line(&mut expected, p5, p1);
    draw_line(&mut expected, p7, p5);
    draw_line(&mut expected, p3, p7);
    let mut frame = Frame::new();
    draw_face(&mut frame, &screen, 0);
    assert_eq!(lines(&frame), lines(&expected));
    assert_eq!(count(&frame, BAR), 39);
    assert_eq!(count(&frame, DASH), 40);
}

#[test]
fn a_culled_face_leaves_the_frame_as_it_was() {
    let screen = project_vertices(&cube_to_world(ONE, 0).unwrap()).unwrap();
    let mut frame = Frame::new();
    draw_line(&mut frame, Point { x: 0, y: 0 }, Point { x: 9 * ONE, y: 3 * ONE });
    let before = lines(&frame);
    for face in 1..6 {
        draw_face(&mut frame, &screen, face);
        assert_eq!(lines(&frame), before);
    }
}

#[test]
fn the_animation_starts_at_frame_zero() {
    assert_eq!(Animation::new().frame_number, 0);
}

#[test]
fn each_frame_steps_the_animation_by_one() {
    let mut animation = Animation::new();
    for expected in 0..5 {
        assert_eq!(animation.frame_number, expected);
        let t = animation.frame_number as f32 * 0.01;
        let frame = animation.render_next(to_fixed(t.cos()), to_fixed(t.sin()));
        assert!(frame.is_some());
    }
    assert_eq!(animation.frame_number, 5);
}

#[test]
fn the_animation_renders_what_render_does() {
    let mut animation = Animation::new();
    let frame = animation.render_next(ONE, 0).unwrap();
    assert_eq!(lines(&frame), head_on());
    let frame = animation.render_next(57513, 31420).unwrap();
    assert_eq!(lines(&frame), turned_half_a_radian());
    assert_eq!(animation.frame_number, 2);
}

#[test]
fn the_first_frames_from_frame_zero() {
    let mut animation = Animation::new();
    let mut frames = Vec::new();
    for _ in 0..3 {
        let t = animation.frame_number as f32 * 0.01;
        frames.push(animation.render_next(to_fixed(t.cos()), to_fixed(t.sin())).unwrap());
    }
    assert_eq!(lines(&frames[0]), head_on());
    for frame in &frames {
        // every frame is forty lines of eighty printable characters
        for line in lines(frame) {
            assert_eq!(line.len(), 80);
            assert!(line.bytes().all(|b| b == BLANK || b == BAR || b == DASH));
        }
    }
}

#[test]
fn a_refused_frame_does_not_step_the_animation() {
    let mut animation = Animation::new();
    animation.render_next(ONE, 0).unwrap();
    assert!(animation.render_next(ONE + 1, 0).is_none());
    assert!(animation.render_next(0, i32::MIN).is_none());
    assert_eq!(animation.frame_number, 1);
}

#[test]
fn the_count_starts_again_after_the_largest_number() {
    let mut animation = Animation { frame_number: u64::MAX - 1 };
    animation.render_next(ONE, 0).unwrap();
    assert_eq!(animation.frame_number, u64::MAX);
    animation.render_next(ONE, 0).unwrap();
    assert_eq!(animation.frame_number, 0);
    animation.render_next(ONE, 0).unwrap();
    assert_eq!(animation.frame_number, 1);
}
