use flappy::config::{
    MAX_OBSTACLE_GAP, MAX_OBSTACLE_GAP_Y, MAX_SPACE_BETWEEN_OBSTACLE, MIN_OBSTACLE_GAP,
    MIN_OBSTACLE_GAP_Y, MIN_SPACE_BETWEEN_OBSTACLE, PLAYER_START_X, PLAYER_START_Y,
    SCREEN_HEIGHT, SCREEN_WIDTH,
};
use flappy::{GameMode, Key, Obstacle, Player, State};

fn obstacle(x: i32, gap_y: i32, gap_size: i32) -> Obstacle {
    Obstacle { x, gap_y, gap_size }
}

fn playing_state(player: Player, obstacles: Vec<Obstacle>, score: i32) -> State {
    State { mode: GameMode::Playing, player, accumulator_us: 0, obstacles, score }
}

fn assert_fresh_course(obstacles: &[Obstacle]) {
    assert!(!obstacles.is_empty());
    let first = obstacles[0].x;
    assert!(MIN_SPACE_BETWEEN_OBSTACLE <= first && first <= MAX_SPACE_BETWEEN_OBSTACLE);
    for w in obstacles.windows(2) {
        let d = w[1].x - w[0].x;
        assert!(MIN_SPACE_BETWEEN_OBSTACLE <= d && d <= MAX_SPACE_BETWEEN_OBSTACLE);
    }
    for o in obstacles {
        assert!(MIN_OBSTACLE_GAP_Y <= o.gap_y && o.gap_y <= MAX_OBSTACLE_GAP_Y);
        assert!(MIN_OBSTACLE_GAP <= o.gap_size && o.gap_size <= MAX_OBSTACLE_GAP);
    }
    let last = obstacles[obstacles.len() - 1].x;
    assert!(last >= 2 * SCREEN_WIDTH);
    for o in &obstacles[..obstacles.len() - 1] {
        assert!(o.x < 2 * SCREEN_WIDTH);
    }
}

#[test]
fn new_state_waits_in_menu() {
    let s = State::new();
    assert_eq!(s.mode, GameMode::Menu);
    assert_eq!(s.player, Player { x: PLAYER_START_X, y: PLAYER_START_Y, speed_y: 0 });
    assert_eq!(s.accumulator_us, 0);
    assert!(s.obstacles.is_empty());
    assert_eq!(s.score, 0);
}

#[test]
fn press_play_starts_a_round() {
    let mut s = State::new();
    let frame = s.tick(Some(Key::Play), 16_000);
    assert_eq!(frame.shown, GameMode::Menu);
    assert!(!frame.quit);
    assert_eq!(s.mode, GameMode::Playing);
    assert_eq!(s.score, 0);
    assert_eq!(s.accumulator_us, 0);
    assert_eq!((s.player.x, s.player.y), (5, 25));
    assert_eq!(s.player.speed_y, 0);
    assert_fresh_course(&s.obstacles);
}

#[test]
fn quit_key_in_menu_asks_to_quit() {
    let mut s = State::new();
    let frame = s.tick(Some(Key::Quit), 16_000);
    assert!(frame.quit);
    assert_eq!(frame.shown, GameMode::Menu);
    assert_eq!(s.mode, GameMode::Menu);
}

#[test]
fn other_keys_in_menu_change_nothing() {
    let mut s = State::new();
    for key in [None, Some(Key::Flap), Some(Key::Other)] {
        let frame = s.tick(key, 16_000);
        assert!(!frame.quit);
        assert_eq!(s.mode, GameMode::Menu);
        assert!(s.obstacles.is_empty());
    }
}

#[test]
fn restart_twice_is_like_once() {
    let mut s = State::new();
    s.restart();
    s.score = 7;
    s.player.y = 40;
    s.restart();
    let once_player = s.player;
    s.restart();
    assert_eq!(s.mode, GameMode::Playing);
    assert_eq!(s.player, once_player);
    assert_eq!(s.score, 0);
    assert_eq!(s.accumulator_us, 0);
    assert_fresh_course(&s.obstacles);
}

#[test]
fn sixty_one_ms_runs_exactly_one_step() {
    let mut s = State::new();
    s.restart();
    let before = s.obstacles.clone();
    let frame = s.tick(None, 61_000);
    assert_eq!(frame.shown, GameMode::Playing);
    assert_eq!(s.accumulator_us, 0);
    assert_eq!(s.player, Player { x: 5, y: 26, speed_y: 1 });
    assert_eq!(s.obstacles.len(), before.len());
    for (a, b) in s.obstacles.iter().zip(before.iter()) {
        assert_eq!(a.x, b.x - 1);
        assert_eq!((a.gap_y, a.gap_size), (b.gap_y, b.gap_size));
    }
}

#[test]
fn time_gathers_until_a_tick_has_passed() {
    let mut s = State::new();
    s.restart();
    s.tick(None, 30_000);
    assert_eq!(s.accumulator_us, 30_000);
    s.tick(None, 30_000);
    // Exactly one tick of time does not exceed the tick: no step yet.
    assert_eq!(s.accumulator_us, 60_000);
    assert_eq!(s.player.y, 25);
    s.tick(None, 1);
    assert_eq!(s.accumulator_us, 0);
    assert_eq!(s.player.y, 26);
}

#[test]
fn sixty_and_a_half_ms_runs_a_step() {
    let mut s = State::new();
    s.restart();
    s.tick(None, 60_500);
    assert_eq!(s.accumulator_us, 0);
    assert_eq!(s.player, Player { x: 5, y: 26, speed_y: 1 });
}

#[test]
fn flap_key_sets_upward_speed() {
    let mut s = State::new();
    s.restart();
    s.tick(Some(Key::Flap), 1_000);
    assert_eq!(s.player.speed_y, -4);
    assert_eq!(s.player.y, 25);
    s.tick(None, 61_000);
    assert_eq!(s.player, Player { x: 5, y: 22, speed_y: -3 });
}

#[test]
fn player_in_gap_scores_one() {
    let mut s = playing_state(
        Player { x: 5, y: 24, speed_y: 0 },
        vec![obstacle(6, 20, 10), obstacle(30, 20, 10)],
        3,
    );
    s.fixed_update();
    assert_eq!(s.obstacles[0].x, 5);
    assert_eq!(s.player.y, 25);
    assert_eq!(s.score, 4);
    assert_eq!(s.mode, GameMode::Playing);
}

#[test]
fn bottom_row_of_gap_lets_through() {
    // Row gap_y + gap_size is inside the passable range.
    let mut s = playing_state(
        Player { x: 5, y: 29, speed_y: 0 },
        vec![obstacle(6, 20, 10), obstacle(30, 20, 10)],
        0,
    );
    s.fixed_update();
    assert_eq!(s.player.y, 30);
    assert_eq!(s.score, 1);
    assert_eq!(s.mode, GameMode::Playing);
}

#[test]
fn top_row_of_gap_stops_the_player() {
    // Row gap_y itself is outside the passable range.
    let mut s = playing_state(
        Player { x: 5, y: 19, speed_y: 0 },
        vec![obstacle(6, 20, 10), obstacle(30, 20, 10)],
        2,
    );
    s.fixed_update();
    assert_eq!(s.player.y, 20);
    assert_eq!(s.score, 2);
    assert_eq!(s.mode, GameMode::End);
}

#[test]
fn player_outside_gap_ends_round() {
    let mut s = playing_state(
        Player { x: 5, y: 40, speed_y: 0 },
        vec![obstacle(6, 20, 10), obstacle(30, 20, 10)],
        5,
    );
    s.fixed_update();
    assert_eq!(s.mode, GameMode::End);
    assert_eq!(s.score, 5);
    let frame = s.tick(None, 61_000);
    assert_eq!(frame.shown, GameMode::End);
    assert!(!frame.quit);
    assert_eq!(s.mode, GameMode::End);
    assert_eq!(s.score, 5);
}

#[test]
fn obstacle_not_in_column_does_nothing() {
    let mut s = playing_state(
        Player { x: 5, y: 40, speed_y: 0 },
        vec![obstacle(8, 20, 10), obstacle(30, 20, 10)],
        0,
    );
    s.fixed_update();
    assert_eq!(s.mode, GameMode::Playing);
    assert_eq!(s.score, 0);
}

#[test]
fn any_key_in_end_returns_to_menu() {
    for key in [Key::Flap, Key::Play, Key::Quit, Key::Other] {
        let mut s = playing_state(Player::new(5, 60), vec![obstacle(10, 20, 10)], 9);
        s.mode = GameMode::End;
        let frame = s.tick(Some(key), 16_000);
        assert_eq!(frame.shown, GameMode::End);
        assert!(!frame.quit);
        assert_eq!(s.mode, GameMode::Menu);
        assert_eq!(s.score, 9);
    }
}

#[test]
fn no_key_in_end_stays() {
    let mut s = State::new();
    s.mode = GameMode::End;
    s.tick(None, 16_000);
    assert_eq!(s.mode, GameMode::End);
}

#[test]
fn falling_one_row_below_screen_ends_round() {
    let mut s = playing_state(
        Player { x: 5, y: SCREEN_HEIGHT - 1, speed_y: 2 },
        vec![obstacle(20, 20, 10), obstacle(40, 20, 10)],
        0,
    );
    s.fixed_update();
    assert_eq!(s.player.y, SCREEN_HEIGHT + 1);
    assert_eq!(s.mode, GameMode::End);
}

#[test]
fn bottom_row_of_screen_is_still_in_play() {
    let mut s = playing_state(
        Player { x: 5, y: SCREEN_HEIGHT - 2, speed_y: 2 },
        vec![obstacle(20, 20, 10), obstacle(40, 20, 10)],
        0,
    );
    s.fixed_update();
    assert_eq!(s.player.y, SCREEN_HEIGHT);
    assert_eq!(s.mode, GameMode::Playing);
}

#[test]
fn player_step_is_clamped_at_top() {
    let mut p = Player { x: 5, y: 1, speed_y: -4 };
    p.fixed_update();
    assert_eq!(p, Player { x: 5, y: 0, speed_y: -3 });
    p.fixed_update();
    assert_eq!(p, Player { x: 5, y: 0, speed_y: -2 });
}

#[test]
fn player_fall_speed_is_capped() {
    let mut p = Player::new(5, 10);
    p.fixed_update();
    assert_eq!(p, Player { x: 5, y: 11, speed_y: 1 });
    p.fixed_update();
    assert_eq!(p, Player { x: 5, y: 13, speed_y: 2 });
    p.fixed_update();
    assert_eq!(p, Player { x: 5, y: 15, speed_y: 2 });
}

#[test]
fn player_flap() {
    let mut p = Player::new(5, 10);
    p.flap();
    assert_eq!(p, Player { x: 5, y: 10, speed_y: -4 });
}

#[test]
fn front_obstacle_leaving_screen_is_replaced() {
    let mut s = playing_state(
        Player { x: 5, y: 24, speed_y: 0 },
        vec![obstacle(0, 20, 10), obstacle(25, 15, 8), obstacle(60, 30, 12)],
        0,
    );
    s.fixed_update();
    assert_eq!(s.obstacles.len(), 3);
    assert_eq!(s.obstacles[0], obstacle(24, 15, 8));
    assert_eq!(s.obstacles[1], obstacle(59, 30, 12));
    let new = s.obstacles[2];
    let d = new.x - 59;
    assert!(MIN_SPACE_BETWEEN_OBSTACLE <= d && d <= MAX_SPACE_BETWEEN_OBSTACLE);
}

#[test]
fn recycle_front_appends_after_last() {
    let mut s = playing_state(
        Player::new(5, 25),
        vec![obstacle(-1, 20, 10), obstacle(19, 15, 8)],
        0,
    );
    s.recycle_front(33);
    assert_eq!(s.obstacles.len(), 2);
    assert_eq!(s.obstacles[0], obstacle(19, 15, 8));
    assert_eq!(s.obstacles[1].x, 52);
}

#[test]
fn append_obstacle_measures_from_last() {
    let mut s = State::new();
    s.append_obstacle(25);
    assert_eq!(s.obstacles.len(), 1);
    assert_eq!(s.obstacles[0].x, 25);
    s.append_obstacle(MAX_SPACE_BETWEEN_OBSTACLE);
    assert_eq!(s.obstacles[1].x, 65);
    s.append_obstacle(MIN_SPACE_BETWEEN_OBSTACLE);
    assert_eq!(s.obstacles[2].x, 85);
    assert_eq!(s.next_position(), 85);
    for o in &s.obstacles {
        assert!(MIN_OBSTACLE_GAP_Y <= o.gap_y && o.gap_y <= MAX_OBSTACLE_GAP_Y);
        assert!(MIN_OBSTACLE_GAP <= o.gap_size && o.gap_size <= MAX_OBSTACLE_GAP);
    }
}

#[test]
fn next_position_of_empty_course_is_left_edge() {
    assert_eq!(State::new().next_position(), 0);
}

#[test]
fn new_obstacle_draws_gap_in_range() {
    let mut sizes = std::collections::BTreeSet::new();
    for _ in 0..200 {
        let o = Obstacle::new(77);
        assert_eq!(o.x, 77);
        assert!(MIN_OBSTACLE_GAP_Y <= o.gap_y && o.gap_y <= MAX_OBSTACLE_GAP_Y);
        assert!(MIN_OBSTACLE_GAP <= o.gap_size && o.gap_size <= MAX_OBSTACLE_GAP);
        sizes.insert(o.gap_size);
    }
    // Drawn, not fixed: two hundred draws give more than one gap size.
    assert!(sizes.len() > 1);
}

#[test]
fn obstacle_moves_left() {
    let mut o = obstacle(10, 20, 10);
    o.fixed_update();
    assert_eq!(o, obstacle(9, 20, 10));
}

#[test]
fn passes_is_exclusive_at_top_inclusive_at_bottom() {
    let o = obstacle(5, 20, 10);
    assert!(!o.passes(20));
    assert!(o.passes(21));
    assert!(o.passes(30));
    assert!(!o.passes(31));
}

#[test]
fn wall_rows_skip_the_gap() {
    let o = obstacle(5, 10, 7);
    let rows = o.wall_rows();
    assert_eq!(rows.len(), (SCREEN_HEIGHT - 7) as usize);
    let expected: Vec<i32> = (0..10).chain(17..SCREEN_HEIGHT).collect();
    assert_eq!(rows, expected);
}

#[test]
fn score_survives_until_restart() {
    let mut s = playing_state(
        Player { x: 5, y: 24, speed_y: 0 },
        vec![obstacle(6, 20, 10), obstacle(30, 20, 10)],
        0,
    );
    s.fixed_update();
    assert_eq!(s.score, 1);
    s.mode = GameMode::End;
    s.tick(Some(Key::Other), 0);
    assert_eq!(s.mode, GameMode::Menu);
    s.tick(Some(Key::Play), 0);
    assert_eq!(s.score, 0);
    assert_eq!(s.mode, GameMode::Playing);
}

#[test]
fn obstacle_from_draws_keeps_the_drawn_gap() {
    let o = Obstacle::from_draws(33, MAX_OBSTACLE_GAP_Y, MIN_OBSTACLE_GAP);
    assert_eq!(o, obstacle(33, 40, 7));
}
