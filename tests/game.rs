use pong::{Game, Key, KeySet, LIMIT, PADDLE_SPEED, SERVE_DX, SERVE_DY, UNIT};

#[test]
fn player_holding_down_moves_then_clamps() {
    let mut game = Game::new();
    let mut keys = KeySet::new();
    keys.press(Key::Down);
    assert_eq!(game.player.y, 50 * UNIT);
    for n in 1..=120i64 {
        game.tick(&keys);
        assert_eq!(game.player.y, (50 + n).min(140) * UNIT);
    }
    assert_eq!(game.player.y, (200 - 60) * UNIT);
}

#[test]
fn player_holding_up_clamps_at_top() {
    let mut game = Game::new();
    let mut keys = KeySet::new();
    keys.press(Key::Up);
    for n in 1..=60i64 {
        game.tick(&keys);
        assert_eq!(game.player.y, (50 - n).max(0) * UNIT);
    }
}

#[test]
fn ball_bounces_off_bottom_wall() {
    let mut game = Game::new();
    let keys = KeySet::new();
    assert_eq!((game.ball.x, game.ball.y), (200 * UNIT, 100 * UNIT));
    assert_eq!((game.ball.dx, game.ball.dy), (UNIT, 700));
    let mut ticks = 0;
    let mut before = game.ball;
    while game.ball.dy > 0 && ticks < 1000 {
        before = game.ball;
        game.tick(&keys);
        ticks += 1;
    }
    assert_eq!(ticks, 132);
    assert!(before.y + before.dy >= (200 - 8) * UNIT);
    assert_eq!(game.ball.dy, -700);
    assert_eq!(game.ball.dx, UNIT);
    assert_eq!((game.ball.x, game.ball.y), (before.x, before.y));
}

#[test]
fn both_keys_held_moves_down() {
    let mut game = Game::new();
    let mut keys = KeySet::new();
    keys.press(Key::Up);
    keys.press(Key::Down);
    game.tick(&keys);
    assert_eq!(game.player.dy, PADDLE_SPEED);
    assert_eq!(game.player.y, 51 * UNIT);
}

#[test]
fn idle_player_stays_put() {
    let mut game = Game::new();
    let mut keys = KeySet::new();
    keys.press(Key::Other(7));
    game.tick(&keys);
    assert_eq!(game.player.dy, 0);
    assert_eq!(game.player.y, 50 * UNIT);
}

#[test]
fn enemy_follows_ball_with_dead_zone() {
    let keys = KeySet::new();
    let mut game = Game::new();
    game.tick(&keys);
    assert_eq!((game.enemy.dy, game.enemy.y), (PADDLE_SPEED, 51 * UNIT));

    let mut game = Game::new();
    game.ball.y = 20 * UNIT;
    game.tick(&keys);
    assert_eq!((game.enemy.dy, game.enemy.y), (-PADDLE_SPEED, 49 * UNIT));

    let mut game = Game::new();
    game.ball.y = 80 * UNIT;
    game.tick(&keys);
    assert_eq!((game.enemy.dy, game.enemy.y), (0, 50 * UNIT));
}

#[test]
fn paddle_bounce_flips_and_scales() {
    let keys = KeySet::new();
    let mut game = Game::new();
    game.ball.x = 391 * UNIT + 500;
    game.ball.y = 90 * UNIT;
    game.tick(&keys);
    assert_eq!((game.ball.x, game.ball.y), (391 * UNIT + 500, 90 * UNIT));
    assert_eq!((game.ball.dx, game.ball.dy), (-1200, 840));
    game.tick(&keys);
    assert_eq!((game.ball.x, game.ball.y), (390 * UNIT + 300, 90 * UNIT + 840));
}

#[test]
fn paddle_bounce_rounds_toward_zero() {
    let keys = KeySet::new();
    let mut game = Game::new();
    game.ball.x = 21 * UNIT;
    game.ball.y = 70 * UNIT;
    game.ball.dx = -1001;
    game.ball.dy = -7;
    game.tick(&keys);
    assert_eq!((game.ball.x, game.ball.y), (21 * UNIT, 70 * UNIT));
    assert_eq!((game.ball.dx, game.ball.dy), (1201, -8));
}

#[test]
fn goal_serves_ball_from_center() {
    let keys = KeySet::new();
    let mut game = Game::new();
    game.ball.x = 438 * UNIT;
    game.ball.y = 10 * UNIT;
    game.ball.dx = 3 * UNIT;
    game.ball.dy = -2 * UNIT;
    game.tick(&keys);
    assert_eq!((game.ball.x, game.ball.y), (221 * UNIT, 96 * UNIT));
    assert_eq!((game.ball.dx, game.ball.dy), (SERVE_DX, SERVE_DY));
}

#[test]
fn goal_on_player_side_serves_ball() {
    let keys = KeySet::new();
    let mut game = Game::new();
    game.ball.x = 6 * UNIT;
    game.ball.y = 150 * UNIT;
    game.ball.dx = -2 * UNIT;
    game.ball.dy = 0;
    game.tick(&keys);
    assert_eq!((game.ball.x, game.ball.y), (221 * UNIT, 96 * UNIT));
    assert_eq!((game.ball.dx, game.ball.dy), (UNIT, 700));
}

#[test]
fn top_wall_bounce_keeps_dx() {
    let keys = KeySet::new();
    let mut game = Game::new();
    game.ball.x = 100 * UNIT;
    game.ball.y = 500;
    game.ball.dx = -UNIT;
    game.ball.dy = -700;
    game.tick(&keys);
    assert_eq!((game.ball.x, game.ball.y), (100 * UNIT, 500));
    assert_eq!((game.ball.dx, game.ball.dy), (-UNIT, 700));
}

#[test]
fn frame_lists_entities_back_to_front() {
    let game = Game::new();
    let frame = game.frame();
    assert_eq!(frame.len(), 6);
    assert_eq!(frame[0].width, 450 * UNIT);
    assert_eq!(frame[1].x, 0);
    assert_eq!(frame[2].x, 445 * UNIT);
    assert_eq!(frame[3].color, [255, 0, 0, 255]);
    assert_eq!(frame[4].color, [0, 0, 255, 255]);
    assert_eq!(frame[5].width, 8 * UNIT);
}

#[test]
fn try_tick_refuses_ball_out_of_range() {
    let keys = KeySet::new();
    let mut game = Game::new();
    game.ball.dx = LIMIT + 1;
    assert!(!game.ball_in_range());
    assert!(!game.try_tick(&keys));
    assert_eq!(game.ball.x, 200 * UNIT);
    assert_eq!(game.player.y, 50 * UNIT);

    let mut game = Game::new();
    assert!(game.try_tick(&keys));
    assert_eq!(game.ball.x, 201 * UNIT);
}
