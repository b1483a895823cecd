use flappy::bird::Bird;
use flappy::game::{DrawCommand, GameState, Key, Status};
use flappy::pipes::PairOfPipes;
use flappy::{BIRD_START_X, BIRD_START_Y, GAP_MAX, GAP_MIN, JUMP_FORCE, PIPE_SPACING, SCREEN_HEIGHT, SPAWN_X};

/// Plays one frame, jumping whenever the bird is below mid-screen, so that
/// it stays on screen.
fn play_frame(g: &mut GameState) {
    if g.bird.y > 20000 {
        assert!(!g.handle_input(Key::Jump));
    }
    g.update_with_gap(20000);
}

#[test]
fn out_of_bounds_edges() {
    let at = |y: i64| Bird { x: BIRD_START_X, y, velocity: 0 };
    assert!(at(-1).is_out_of_bounds());
    assert!(at(SCREEN_HEIGHT + 1).is_out_of_bounds());
    assert!(!at(0).is_out_of_bounds());
    assert!(!at(SCREEN_HEIGHT).is_out_of_bounds());
}

#[test]
fn bird_falls_one_frame_from_start() {
    let mut b = Bird::new();
    assert_eq!((b.x, b.y, b.velocity), (10000, 20000, 0));
    b.update();
    assert_eq!((b.x, b.y, b.velocity), (10000, 20050, 50));
}

#[test]
fn velocity_updates_before_position() {
    let mut b = Bird { x: 10000, y: 30000, velocity: 120 };
    b.update();
    assert_eq!(b.velocity, 170);
    assert_eq!(b.y, 30170);
}

#[test]
fn jump_then_update() {
    let mut b = Bird { x: 10000, y: 30000, velocity: 730 };
    b.jump();
    b.update();
    assert_eq!(b.velocity, -950);
    assert_eq!(b.y, 30000 - 950);
}

#[test]
fn jump_overwrites_velocity() {
    for v in [-5000, -1000, 0, 1, 2500] {
        let mut b = Bird { x: 10000, y: 15000, velocity: v };
        b.jump();
        assert_eq!(b.velocity, JUMP_FORCE);
        b.jump();
        assert_eq!(b, Bird { x: 10000, y: 15000, velocity: JUMP_FORCE });
    }
}

#[test]
fn pipe_scrolls_left() {
    let mut p = PairOfPipes::with_gap(SPAWN_X, 20000);
    p.update();
    assert_eq!(p.x, SPAWN_X - 500);
    assert_eq!(p.gap_y, 20000);
    p.update();
    assert_eq!(p.x, SPAWN_X - 1000);
}

#[test]
fn pipe_off_screen_threshold() {
    assert!(!PairOfPipes::with_gap(-5200, 20000).is_off_screen());
    assert!(PairOfPipes::with_gap(-5201, 20000).is_off_screen());
}

#[test]
fn pipe_draw_positions() {
    let p = PairOfPipes::with_gap(1000, 20000);
    assert_eq!(p.top_y(), 20000 - 10000 - 22000);
    assert_eq!(p.bottom_y(), 30000);
}

#[test]
fn random_gaps_in_range_and_varied() {
    let gaps: Vec<i64> = (0..64).map(|_| PairOfPipes::new(500).gap_y).collect();
    assert!(gaps.iter().all(|g| GAP_MIN <= *g && *g < GAP_MAX));
    assert!(gaps.iter().any(|g| *g != gaps[0]));
}

#[test]
fn first_frame_spawns_a_pair() {
    let mut g = GameState::new();
    assert!(g.pipes.is_empty());
    g.update_with_gap(17000);
    assert_eq!(g.pipes, vec![PairOfPipes::with_gap(SPAWN_X, 17000)]);
    assert_eq!((g.bird.x, g.bird.y, g.bird.velocity), (BIRD_START_X, BIRD_START_Y + 50, 50));
    assert_eq!(g.status, Status::Playing);
}

#[test]
fn random_update_spawns_in_range() {
    let mut g = GameState::new();
    g.update();
    assert_eq!(g.pipes.len(), 1);
    assert_eq!(g.pipes[0].x, SPAWN_X);
    assert!(GAP_MIN <= g.pipes[0].gap_y && g.pipes[0].gap_y < GAP_MAX);
}

#[test]
fn second_pair_spawns_at_spacing() {
    let mut g = GameState::new();
    for _ in 0..60 {
        play_frame(&mut g);
    }
    assert_eq!(g.pipes.len(), 1);
    assert_eq!(g.pipes[0].x, SPAWN_X - 59 * 500);
    play_frame(&mut g);
    assert_eq!(g.status, Status::Playing);
    assert_eq!(g.pipes.len(), 2);
    assert_eq!(g.pipes[1].x, SPAWN_X);
    assert_eq!(g.pipes[1].x - g.pipes[0].x, PIPE_SPACING);
}

#[test]
fn pair_removed_once_off_screen() {
    let mut g = GameState::new();
    for _ in 0..64 {
        play_frame(&mut g);
    }
    assert_eq!(g.pipes.len(), 2);
    assert_eq!(g.pipes[0].x, -4800);
    play_frame(&mut g);
    assert_eq!(g.status, Status::Playing);
    assert_eq!(g.pipes.len(), 1);
    assert_eq!(g.pipes[0].x, SPAWN_X - 4 * 500);
    assert!(g.pipes.iter().all(|p| !p.is_off_screen()));
}

#[test]
fn score_counts_pairs_passing_the_bird() {
    let mut g = GameState::new();
    for _ in 0..34 {
        play_frame(&mut g);
    }
    assert_eq!(g.score, 0);
    assert_eq!(g.pipes[0].x, 10200);
    play_frame(&mut g);
    assert_eq!(g.score, 1);
    for _ in 0..20 {
        play_frame(&mut g);
    }
    assert_eq!(g.score, 1);
    assert_eq!(g.status, Status::Playing);
}

#[test]
fn falling_bird_ends_the_game() {
    let mut g = GameState::new();
    let mut frames = 0;
    while g.status == Status::Playing {
        g.update_with_gap(20000);
        frames += 1;
    }
    // y after n frames is 20000 + 50 * n * (n + 1) / 2, first above 40000 at n = 28.
    assert_eq!(frames, 28);
    assert_eq!(g.bird.y, 40300);
    let frozen = (g.bird, g.pipes.clone(), g.score);
    g.update_with_gap(20000);
    assert!(!g.handle_input(Key::Jump));
    assert_eq!((g.bird, g.pipes.clone(), g.score), frozen);
    assert_eq!(g.status, Status::GameOver);
}

#[test]
fn restart_after_game_over() {
    let mut g = GameState::new();
    while g.status == Status::Playing {
        g.update_with_gap(25000);
    }
    g.score = 7;
    assert!(!g.handle_input(Key::Restart));
    assert_eq!(g.status, Status::Playing);
    assert_eq!(g.score, 0);
    assert_eq!(g.bird, Bird::new());
    assert!(g.pipes.is_empty());
}

#[test]
fn restart_ignored_while_playing() {
    let mut g = GameState::new();
    g.update_with_gap(25000);
    assert!(!g.handle_input(Key::Restart));
    assert_eq!(g.pipes.len(), 1);
    assert_eq!(g.bird.y, 20050);
}

#[test]
fn quit_key_asks_to_stop() {
    let mut g = GameState::new();
    assert!(g.handle_input(Key::Quit));
    assert_eq!(g.bird, Bird::new());
}

#[test]
fn draw_order() {
    let mut g = GameState::new();
    g.update_with_gap(20000);
    assert_eq!(
        g.draw_commands(),
        vec![
            DrawCommand::Background,
            DrawCommand::TopPipe { x: SPAWN_X, y: -12000 },
            DrawCommand::BottomPipe { x: SPAWN_X, y: 30000 },
            DrawCommand::Bird { x: 10000, y: 20050 },
            DrawCommand::Score { value: 0 },
        ]
    );
    while g.status == Status::Playing {
        g.update_with_gap(20000);
    }
    assert_eq!(g.draw_commands().last(), Some(&DrawCommand::GameOverBanner));
}
