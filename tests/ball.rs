use matrix_pong::ball::{Ball, FAR_PAD, FAR_WALL, MAX_SPEED, NEAR_WALL, PIXEL};
use matrix_pong::dot_matrix::DotMatrix;
use matrix_pong::pad::{Pad, PadPosition, PadState};

#[test]
fn ball_bounces_off_undefended_left_wall_and_scores() {
    let mut ball = Ball::with_velocity(2 * PIXEL, 3 * PIXEL, -PIXEL, 0, false);
    let mut pad = Pad::new(PadPosition::Bottom(1000));
    let mut score: u32 = 0;
    ball.update(&mut pad, 1, &mut score);
    assert_eq!(ball.x, PIXEL);
    assert_eq!(ball.x_speed, -PIXEL);
    assert_eq!(score, 0);
    ball.update(&mut pad, 1, &mut score);
    assert_eq!(ball.x, 0);
    assert_eq!(score, 0);
    ball.update(&mut pad, 0, &mut score);
    assert_eq!(ball.x, NEAR_WALL);
    assert_eq!(ball.x_speed, PIXEL);
    assert_eq!(score, 1);
    assert_eq!(pad, Pad::new(PadPosition::Bottom(1000)));
}

#[test]
fn ball_hitting_defended_edge_damages_pad() {
    let mut ball = Ball::with_velocity(3 * PIXEL, 6_600_000_000, 0, 4_000_000, false);
    let mut pad = Pad::new(PadPosition::Bottom(1000));
    let mut score: u32 = 7;
    ball.update(&mut pad, 16, &mut score);
    assert_eq!(score, 7);
    assert_eq!(ball.y_speed, -4_000_000);
    assert_eq!(ball.y, FAR_PAD - 64_000_000);
    assert_eq!(pad, Pad::Alive { state: PadState::Hurting(160), position: PadPosition::Bottom(1000), health: 3 });
}

#[test]
fn ball_speeds_up_and_moves() {
    let mut ball = Ball::new(3, 3);
    let mut pad = Pad::new(PadPosition::Bottom(1000));
    let mut score: u32 = 0;
    ball.update(&mut pad, 16, &mut score);
    assert_eq!(ball.x_speed, 5_400_864);
    assert_eq!(ball.y_speed, -4_000_640);
    assert_eq!(ball.x, 3_086_413_824);
    assert_eq!(ball.y, 2_935_989_760);
    assert_eq!(score, 0);
}

#[test]
fn ball_speed_saturates_only_at_the_integer_limit() {
    let mut ball = Ball::with_velocity(3 * PIXEL, 3 * PIXEL, PIXEL, -PIXEL, true);
    let mut pad = Pad::new(PadPosition::Bottom(1000));
    let mut score: u32 = 0;
    ball.update(&mut pad, 100_000, &mut score);
    assert_eq!(ball.x_speed, 2 * PIXEL);
    assert_eq!(ball.y_speed, -2 * PIXEL);
    let mut fast = Ball::with_velocity(3 * PIXEL, 3 * PIXEL, MAX_SPEED / 2, -MAX_SPEED / 2, true);
    fast.update(&mut pad, 1_000_000, &mut score);
    assert_eq!(fast.x_speed, MAX_SPEED);
    assert_eq!(fast.y_speed, -MAX_SPEED);
    assert_eq!(fast.x, i64::MAX);
    assert_eq!(fast.y, i64::MIN);
}

#[test]
fn ball_moves_freely_past_the_display() {
    let mut ball = Ball::with_velocity(600_000_000, 3 * PIXEL, -PIXEL, 0, false);
    let mut pad = Pad::new(PadPosition::Bottom(1000));
    let mut score: u32 = 0;
    ball.update(&mut pad, 100, &mut score);
    assert_eq!(ball.x, -99_400_000_000);
    assert_eq!(score, 0);
    ball.update(&mut pad, 0, &mut score);
    assert_eq!(ball.x, NEAR_WALL);
    assert_eq!(ball.x_speed, PIXEL);
    assert_eq!(score, 1);
}

#[test]
fn defended_edge_clamps_to_the_pad_line() {
    let mut ball = Ball::with_velocity(3 * PIXEL, 6_600_000_000, 0, PIXEL, false);
    let mut pad = Pad::new(PadPosition::Bottom(1000));
    let mut score: u32 = 0;
    ball.update(&mut pad, 100, &mut score);
    assert_eq!(ball.y_speed, -PIXEL);
    assert_eq!(ball.y - ball.y_speed * 100, FAR_PAD);
    assert_eq!(ball.y, FAR_PAD - 100 * PIXEL);
    assert_eq!(score, 0);
}

#[test]
fn ball_freezes_while_pad_is_not_normal() {
    let start = Ball::with_velocity(PIXEL / 10, 3 * PIXEL, -PIXEL, 0, true);
    let mut ball = start;
    let mut pad = Pad::Alive { state: PadState::Hurting(100), position: PadPosition::Left(1000), health: 3 };
    let mut score: u32 = 2;
    ball.update(&mut pad, 16, &mut score);
    assert_eq!(ball, start);
    assert_eq!(score, 2);
    let mut dead = Pad::Dead;
    ball.update(&mut dead, 16, &mut score);
    assert_eq!(ball, start);
}

#[test]
fn ball_stays_inside_walls_after_bounce() {
    // Far outside on the right while moving right: put back on the wall.
    let mut ball = Ball::with_velocity(7_900_000_000, 7_900_000_000, 500, 500, false);
    let mut pad = Pad::new(PadPosition::Left(1000));
    let mut score: u32 = 0;
    ball.update(&mut pad, 0, &mut score);
    assert_eq!(ball.x, FAR_WALL);
    assert_eq!(ball.y, FAR_WALL);
    assert_eq!(ball.x_speed, -500);
    assert_eq!(ball.y_speed, -500);
    // Two undefended walls in one tick still score one point.
    assert_eq!(score, 1);
}

#[test]
fn y_hit_decides_whether_the_pad_was_hit() {
    // The ball hits the defended left edge and the undefended bottom edge at once.
    let mut ball = Ball::with_velocity(PIXEL, 7_600_000_000, -1, 1, false);
    let mut pad = Pad::new(PadPosition::Left(1000));
    let mut score: u32 = 0;
    ball.update(&mut pad, 0, &mut score);
    assert_eq!(score, 1);
    assert_eq!(pad, Pad::new(PadPosition::Left(1000)));
}

#[test]
fn score_saturates() {
    let mut ball = Ball::with_velocity(0, 3 * PIXEL, -1, 0, false);
    let mut pad = Pad::new(PadPosition::Bottom(1000));
    let mut score: u32 = u32::MAX;
    ball.update(&mut pad, 0, &mut score);
    assert_eq!(score, u32::MAX);
}

#[test]
fn ball_draws_its_pixel() {
    let mut d = DotMatrix::new();
    Ball::new(3, 3).draw(&mut d);
    assert_eq!(d.rows(), [0, 0, 0, 0x10, 0, 0, 0, 0]);
    let mut e = DotMatrix::new();
    Ball::with_velocity(7_999_999_999, 0, 0, 0, false).draw(&mut e);
    assert_eq!(e.rows(), [0x01, 0, 0, 0, 0, 0, 0, 0]);
    // Off the display the ball shows on the nearest edge pixel.
    let mut f = DotMatrix::new();
    Ball::with_velocity(-5 * PIXEL, 20 * PIXEL, 0, 0, false).draw(&mut f);
    assert_eq!(f.rows(), [0, 0, 0, 0, 0, 0, 0, 0x80]);
}
