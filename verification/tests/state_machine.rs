use falling_squares::frame::FrameInput;
use falling_squares::frame::SpawnDraws;
use falling_squares::machine::Game;
use falling_squares::GameMode;
use falling_squares::Shape;

const W: i64 = 800_000;
const H: i64 = 600_000;

fn idle_input() -> FrameInput {
    FrameInput {
        left: false,
        right: false,
        up: false,
        down: false,
        space_pressed: false,
        escape_pressed: false,
    }
}

fn space() -> FrameInput {
    FrameInput { space_pressed: true, ..idle_input() }
}

fn escape() -> FrameInput {
    FrameInput { escape_pressed: true, ..idle_input() }
}

fn no_spawn() -> SpawnDraws {
    SpawnDraws { roll: 0, size: 16_000, speed: 50, x: 8_000 }
}

#[test]
fn new_game_starts_at_main_menu() {
    let g = Game::new(W, H, 42);
    assert_eq!(g.mode, GameMode::MainMenu);
    assert_eq!(g.session.high_score, 42);
    assert_eq!(g.session.score, 0);
    assert_eq!(g.session.player.x, W / 2);
    assert_eq!(g.session.player.y, H / 2);
}

#[test]
fn escape_at_main_menu_quits() {
    let mut g = Game::new(W, H, 0);
    let out = g.step(&escape(), 16, &no_spawn(), W, H);
    assert!(out.quit);
    assert_eq!(g.mode, GameMode::MainMenu);
}

#[test]
fn space_at_main_menu_starts_fresh_session() {
    let mut g = Game::new(W, H, 42);
    // Leave stale session state behind, as a finished play-through would.
    g.session.score = 17;
    g.session.player.x = 99_000;
    g.session.squares.push(Shape { size: 20_000, speed: 100, x: 50_000, y: 50_000, collided: false });
    g.session.bullets.push(Shape { size: 5_000, speed: 400, x: 50_000, y: 50_000, collided: false });
    let out = g.step(&space(), 16, &no_spawn(), W, H);
    assert!(!out.quit);
    assert_eq!(out.save, None);
    assert_eq!(g.mode, GameMode::Playing);
    assert!(g.session.squares.is_empty());
    assert!(g.session.bullets.is_empty());
    assert_eq!(g.session.score, 0);
    assert_eq!(g.session.high_score, 42);
    assert_eq!(g.session.player.x, W / 2);
    assert_eq!(g.session.player.y, H / 2);
}

#[test]
fn other_input_at_main_menu_is_a_no_op() {
    let mut g = Game::new(W, H, 0);
    let inp = FrameInput { left: true, up: true, ..idle_input() };
    let out = g.step(&inp, 16, &no_spawn(), W, H);
    assert!(!out.quit);
    assert_eq!(g.mode, GameMode::MainMenu);
}

#[test]
fn playing_escape_pauses_then_space_resumes() {
    let mut g = Game::new(W, H, 0);
    g.step(&space(), 16, &no_spawn(), W, H);
    assert_eq!(g.mode, GameMode::Playing);
    g.step(&escape(), 16, &no_spawn(), W, H);
    assert_eq!(g.mode, GameMode::Paused);
    // The session is untouched while paused.
    let score_before = g.session.score;
    g.step(&idle_input(), 16, &no_spawn(), W, H);
    assert_eq!(g.mode, GameMode::Paused);
    g.step(&space(), 16, &no_spawn(), W, H);
    assert_eq!(g.mode, GameMode::Playing);
    assert_eq!(g.session.score, score_before);
}

#[test]
fn death_moves_to_game_over_then_space_to_menu() {
    let mut g = Game::new(W, H, 5);
    g.step(&space(), 16, &no_spawn(), W, H);
    g.session.score = 5;
    g.session.squares.push(Shape {
        size: 20_000,
        speed: 100,
        x: W / 2,
        y: H / 2,
        collided: false,
    });
    let out = g.step(&idle_input(), 0, &no_spawn(), W, H);
    assert_eq!(g.mode, GameMode::GameOver);
    assert_eq!(out.save, Some(5));
    let out2 = g.step(&idle_input(), 16, &no_spawn(), W, H);
    assert_eq!(g.mode, GameMode::GameOver);
    assert_eq!(out2.save, None);
    g.step(&space(), 16, &no_spawn(), W, H);
    assert_eq!(g.mode, GameMode::MainMenu);
}
