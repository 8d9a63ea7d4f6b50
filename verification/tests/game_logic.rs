use falling_squares::frame::playing_frame;
use falling_squares::frame::FrameInput;
use falling_squares::frame::SpawnDraws;
use falling_squares::GameMode;
use falling_squares::Session;
use falling_squares::Shape;

const W: i64 = 800_000;
const H: i64 = 600_000;

fn idle_input() -> FrameInput {
    FrameInput {
        left: false,
        right: false,
        up: false,
        down: false,
        space_pressed: false,
        escape_pressed: false,
    }
}

fn no_spawn() -> SpawnDraws {
    SpawnDraws { roll: 0, size: 16_000, speed: 50, x: 8_000 }
}

fn shape_at(x: i64, y: i64, size: i64) -> Shape {
    Shape { size, speed: 100, x, y, collided: false }
}

#[test]
fn overlap_is_symmetric() {
    let a = shape_at(100_000, 100_000, 20_000);
    let b = shape_at(110_000, 95_000, 40_000);
    assert_eq!(a.collide_with(&b), b.collide_with(&a));
    assert!(a.collide_with(&b));
    let far = shape_at(500_000, 100_000, 20_000);
    assert_eq!(a.collide_with(&far), far.collide_with(&a));
    assert!(!a.collide_with(&far));
}

#[test]
fn edge_touch_is_not_overlap() {
    // Boxes of sizes 20 and 40 pixels with centers 30 pixels apart share
    // exactly one vertical edge: not an overlap.
    let a = shape_at(100_000, 100_000, 20_000);
    let b = shape_at(130_000, 100_000, 40_000);
    assert!(!a.collide_with(&b));
    assert!(!b.collide_with(&a));
    // One subpixel closer and the boxes properly overlap.
    let c = shape_at(129_999, 100_000, 40_000);
    assert!(a.collide_with(&c));
    // The same along the vertical axis.
    let d = shape_at(100_000, 130_000, 40_000);
    assert!(!a.collide_with(&d));
}

#[test]
fn odd_sizes_keep_exact_centered_boundary() {
    // Sizes 3 and 2 subpixels with centers 2 apart: 2*2 < 3+2, a strict
    // overlap of the centered boxes, with nothing lost to rounding the
    // odd size's half.
    let a = Shape { size: 3, speed: 0, x: 1_000, y: 1_000, collided: false };
    let b = Shape { size: 2, speed: 0, x: 1_002, y: 1_000, collided: false };
    assert!(a.collide_with(&b));
    assert!(b.collide_with(&a));
    // One subpixel further apart: 2*3 > 3+2, no overlap.
    let c = Shape { size: 2, speed: 0, x: 1_003, y: 1_000, collided: false };
    assert!(!a.collide_with(&c));
    assert!(!c.collide_with(&a));
}

#[test]
fn rect_of_shape() {
    let a = shape_at(100_000, 80_000, 20_000);
    let r = a.rect();
    assert_eq!(r.x, 90_000);
    assert_eq!(r.y, 70_000);
    assert_eq!(r.w, 20_000);
    assert_eq!(r.h, 20_000);
}

#[test]
fn rect_overlap_is_strict() {
    // Even-size rects whose edges meet at x = 110_000: strict intersection
    // says no; one subpixel closer says yes.
    let a = shape_at(100_000, 100_000, 20_000);
    let b = shape_at(120_000, 100_000, 20_000);
    assert!(!a.rect().overlaps(&b.rect()));
    let c = shape_at(119_999, 100_000, 20_000);
    assert!(a.rect().overlaps(&c.rect()));
}

#[test]
fn idle_frame_keeps_player_put() {
    let mut sess = Session::new(W, H, 0);
    playing_frame(&mut sess, &idle_input(), 16, &no_spawn(), W, H);
    assert_eq!(sess.player.x, W / 2);
    assert_eq!(sess.player.y, H / 2);
}

#[test]
fn opposite_keys_cancel() {
    let mut sess = Session::new(W, H, 0);
    let inp = FrameInput { left: true, right: true, up: true, down: true, ..idle_input() };
    playing_frame(&mut sess, &inp, 16, &no_spawn(), W, H);
    assert_eq!(sess.player.x, W / 2);
    assert_eq!(sess.player.y, H / 2);
}

#[test]
fn movement_scales_with_dt() {
    let mut sess = Session::new(W, H, 0);
    let inp = FrameInput { right: true, down: true, ..idle_input() };
    // 200 subpixels per millisecond for 16 ms: 3200 subpixels.
    playing_frame(&mut sess, &inp, 16, &no_spawn(), W, H);
    assert_eq!(sess.player.x, W / 2 + 3_200);
    assert_eq!(sess.player.y, H / 2 + 3_200);
}

#[test]
fn player_is_clamped_to_screen() {
    let mut sess = Session::new(W, H, 0);
    sess.player.x = 1;
    sess.player.y = H - 1;
    playing_frame(&mut sess, &idle_input(), 0, &no_spawn(), W, H);
    assert_eq!(sess.player.x, sess.player.size / 2);
    assert_eq!(sess.player.y, H - sess.player.size / 2);
    // A second clamping frame changes nothing: the clamp is idempotent.
    let (x, y) = (sess.player.x, sess.player.y);
    playing_frame(&mut sess, &idle_input(), 0, &no_spawn(), W, H);
    assert_eq!(sess.player.x, x);
    assert_eq!(sess.player.y, y);
}

#[test]
fn fire_appends_bullet_at_player() {
    let mut sess = Session::new(W, H, 0);
    let inp = FrameInput { space_pressed: true, ..idle_input() };
    playing_frame(&mut sess, &inp, 0, &no_spawn(), W, H);
    assert_eq!(sess.bullets.len(), 1);
    let b = &sess.bullets[0];
    assert_eq!(b.size, 5_000);
    assert_eq!(b.speed, 2 * sess.player.speed);
    assert_eq!(b.x, W / 2);
    assert_eq!(b.y, H / 2);
    assert!(!b.collided);
}

#[test]
fn spawn_roll_creates_obstacle() {
    // A roll of 96 reaches the threshold; size 40 pixels on an 800-pixel
    // screen starts at y = -size with x inside the half-size margins,
    // that is in [20, 780] pixels.
    let mut sess = Session::new(W, H, 0);
    let draws = SpawnDraws { roll: 96, size: 40_000, speed: 120, x: 400_000 };
    playing_frame(&mut sess, &idle_input(), 0, &draws, W, H);
    assert_eq!(sess.squares.len(), 1);
    let s = &sess.squares[0];
    assert_eq!(s.y, -40_000);
    assert!(s.x >= 20_000 && s.x <= 780_000);
    assert!(s.speed >= 50 && s.speed <= 150);
    assert_eq!(s.size, 40_000);
    assert!(!s.collided);
}

#[test]
fn spawn_roll_below_threshold_spawns_nothing() {
    let mut sess = Session::new(W, H, 0);
    let draws = SpawnDraws { roll: 94, size: 40_000, speed: 120, x: 400_000 };
    playing_frame(&mut sess, &idle_input(), 0, &draws, W, H);
    assert!(sess.squares.is_empty());
}

#[test]
fn obstacles_fall_and_bullets_rise() {
    let mut sess = Session::new(W, H, 0);
    sess.squares.push(shape_at(100_000, 50_000, 20_000));
    sess.bullets.push(Shape { size: 5_000, speed: 400, x: 700_000, y: 300_000, collided: false });
    playing_frame(&mut sess, &idle_input(), 100, &no_spawn(), W, H);
    assert_eq!(sess.squares[0].y, 50_000 + 100 * 100);
    assert_eq!(sess.bullets[0].y, 300_000 - 400 * 100);
}

#[test]
fn offscreen_obstacle_is_removed() {
    let mut sess = Session::new(W, H, 0);
    // Already at the bottom boundary plus its size: gone after the frame.
    sess.squares.push(shape_at(100_000, H + 20_000, 20_000));
    // Still above the boundary: stays.
    sess.squares.push(shape_at(100_000, H + 19_999, 20_000));
    playing_frame(&mut sess, &idle_input(), 0, &no_spawn(), W, H);
    assert_eq!(sess.squares.len(), 1);
    assert_eq!(sess.squares[0].y, H + 19_999);
}

#[test]
fn offscreen_bullet_is_removed() {
    let mut sess = Session::new(W, H, 0);
    sess.bullets.push(Shape { size: 5_000, speed: 400, x: 100_000, y: 5_000, collided: false });
    sess.bullets.push(Shape { size: 5_000, speed: 400, x: 100_000, y: 5_001, collided: false });
    playing_frame(&mut sess, &idle_input(), 0, &no_spawn(), W, H);
    assert_eq!(sess.bullets.len(), 1);
    assert_eq!(sess.bullets[0].y, 5_001);
}

#[test]
fn collided_residue_is_removed() {
    let mut sess = Session::new(W, H, 0);
    let mut s = shape_at(100_000, 50_000, 20_000);
    s.collided = true;
    sess.squares.push(s);
    let mut b = Shape { size: 5_000, speed: 400, x: 700_000, y: 300_000, collided: true };
    sess.bullets.push(b);
    b.collided = false;
    sess.bullets.push(b);
    playing_frame(&mut sess, &idle_input(), 0, &no_spawn(), W, H);
    assert!(sess.squares.is_empty());
    assert_eq!(sess.bullets.len(), 1);
    assert!(!sess.bullets[0].collided);
}

#[test]
fn bullet_hit_marks_and_scores() {
    // Bullet at (50, 50) of size 5 and an uncollided obstacle at (50, 50)
    // of size 30: the pass marks both and scores the rounded obstacle size.
    let mut sess = Session::new(W, H, 7);
    sess.squares.push(shape_at(50_000, 50_000, 30_000));
    sess.bullets.push(Shape { size: 5_000, speed: 400, x: 50_000, y: 50_000, collided: false });
    playing_frame(&mut sess, &idle_input(), 0, &no_spawn(), W, H);
    assert!(sess.squares[0].collided);
    assert!(sess.bullets[0].collided);
    assert_eq!(sess.score, 30);
    assert_eq!(sess.high_score, 30);
}

#[test]
fn score_rounds_obstacle_size_to_nearest_pixel() {
    let mut sess = Session::new(W, H, 0);
    sess.squares.push(shape_at(50_000, 50_000, 30_500));
    sess.squares.push(shape_at(200_000, 50_000, 30_499));
    sess.bullets.push(Shape { size: 5_000, speed: 400, x: 50_000, y: 50_000, collided: false });
    sess.bullets.push(Shape { size: 5_000, speed: 400, x: 200_000, y: 50_000, collided: false });
    playing_frame(&mut sess, &idle_input(), 0, &no_spawn(), W, H);
    // Halves round up: 30.5 scores 31; 30.499 scores 30.
    assert_eq!(sess.score, 61);
}

#[test]
fn one_obstacle_two_bullets_scores_twice() {
    // The pass applies no early exit: an obstacle overlapping two bullets in
    // the same frame awards its score once per bullet.
    let mut sess = Session::new(W, H, 0);
    sess.squares.push(shape_at(50_000, 50_000, 30_000));
    sess.bullets.push(Shape { size: 5_000, speed: 400, x: 45_000, y: 50_000, collided: false });
    sess.bullets.push(Shape { size: 5_000, speed: 400, x: 55_000, y: 50_000, collided: false });
    playing_frame(&mut sess, &idle_input(), 0, &no_spawn(), W, H);
    assert_eq!(sess.score, 60);
    assert!(sess.squares[0].collided);
    assert!(sess.bullets[0].collided);
    assert!(sess.bullets[1].collided);
}

#[test]
fn high_score_keeps_maximum() {
    let mut sess = Session::new(W, H, 100);
    sess.squares.push(shape_at(50_000, 50_000, 30_000));
    sess.bullets.push(Shape { size: 5_000, speed: 400, x: 50_000, y: 50_000, collided: false });
    playing_frame(&mut sess, &idle_input(), 0, &no_spawn(), W, H);
    assert_eq!(sess.score, 30);
    assert_eq!(sess.high_score, 100);
}

#[test]
fn player_death_at_high_score_requests_save() {
    // Player and obstacle both at (100, 100), obstacle size 20: overlap,
    // so the frame ends in GameOver; score equals the high score, so the
    // save is requested with exactly that value.
    let mut sess = Session::new(W, H, 5);
    sess.score = 5;
    sess.player.x = 100_000;
    sess.player.y = 100_000;
    sess.squares.push(shape_at(100_000, 100_000, 20_000));
    let out = playing_frame(&mut sess, &idle_input(), 0, &no_spawn(), W, H);
    assert_eq!(out.next_mode, GameMode::GameOver);
    assert_eq!(out.save, Some(5));
}

#[test]
fn player_death_below_high_score_saves_nothing() {
    let mut sess = Session::new(W, H, 9);
    sess.score = 5;
    sess.player.x = 100_000;
    sess.player.y = 100_000;
    sess.squares.push(shape_at(100_000, 100_000, 20_000));
    let out = playing_frame(&mut sess, &idle_input(), 0, &no_spawn(), W, H);
    assert_eq!(out.next_mode, GameMode::GameOver);
    assert_eq!(out.save, None);
}

#[test]
fn survival_requests_no_save() {
    let mut sess = Session::new(W, H, 0);
    let out = playing_frame(&mut sess, &idle_input(), 16, &no_spawn(), W, H);
    assert_eq!(out.next_mode, GameMode::Playing);
    assert_eq!(out.save, None);
}

#[test]
fn pause_takes_effect_next_frame() {
    let mut sess = Session::new(W, H, 0);
    let inp = FrameInput { escape_pressed: true, ..idle_input() };
    let out = playing_frame(&mut sess, &inp, 16, &no_spawn(), W, H);
    assert_eq!(out.next_mode, GameMode::Paused);
}

#[test]
fn death_wins_over_pause() {
    let mut sess = Session::new(W, H, 0);
    sess.player.x = 100_000;
    sess.player.y = 100_000;
    sess.squares.push(shape_at(100_000, 100_000, 20_000));
    let inp = FrameInput { escape_pressed: true, ..idle_input() };
    let out = playing_frame(&mut sess, &inp, 0, &no_spawn(), W, H);
    assert_eq!(out.next_mode, GameMode::GameOver);
}
