use matrix_pong::ball::{Ball, PIXEL};
use matrix_pong::dot_matrix::DotMatrix;
use matrix_pong::game_state::{highscore_text, result_text, GameState, COUNTDOWN_MS};
use matrix_pong::pad::{Pad, PadPosition, PadState};
use matrix_pong::text_ticker::{Font, Glyph};

fn digit_font() -> Font {
    Font::new(vec![
        Glyph { ch: '1', rows: [0x20, 0x60, 0x20, 0x20, 0x20, 0x20, 0x70] },
        Glyph { ch: '2', rows: [0x70, 0x88, 0x08, 0x10, 0x20, 0x40, 0xf8] },
        Glyph { ch: '3', rows: [0xf8, 0x08, 0x08, 0x78, 0x08, 0x08, 0xf8] },
    ])
}

fn text(s: &str) -> heapless::String<100> {
    heapless::String::try_from(s).unwrap()
}

#[test]
fn countdown_reaches_a_fresh_game_after_three_seconds() {
    let font = digit_font();
    let mut d = DotMatrix::new();
    let mut g = GameState::new(0);
    g.button_click();
    assert!(matches!(g, GameState::Countdown(COUNTDOWN_MS)));
    let mut elapsed: u64 = 0;
    while elapsed + 16 < 3000 {
        assert_eq!(g.advance(16, 0, &font, &mut d), None);
        elapsed += 16;
        assert!(matches!(g, GameState::Countdown(_)));
    }
    assert!(matches!(g, GameState::Countdown(8)));
    assert_eq!(g.advance(3000 - elapsed, 0, &font, &mut d), None);
    match g {
        GameState::Playing { ball, pad, score } => {
            assert_eq!(score, 0);
            assert_eq!(pad, Pad::new(PadPosition::Bottom(1000)));
            assert_eq!(ball, Ball::new(3, 3));
            assert_eq!(ball.x, 3 * PIXEL);
            assert_eq!(ball.y, 3 * PIXEL);
        }
        _ => panic!("expected a game in play"),
    }
}

#[test]
fn countdown_draws_its_digit_shifted() {
    let font = digit_font();
    let mut d = DotMatrix::new();
    let mut g = GameState::Countdown(COUNTDOWN_MS);
    g.advance(16, 0, &font, &mut d);
    // 2984 ms left shows '3', moved two columns right and one row down.
    assert_eq!(d.rows(), [0, 0x3e, 0x02, 0x02, 0x1e, 0x02, 0x02, 0x3e]);
    assert!(matches!(g, GameState::Countdown(2984)));
}

#[test]
fn countdown_digit_rounds_seconds_up() {
    let font = digit_font();
    let mut d = DotMatrix::new();
    let mut g = GameState::Countdown(COUNTDOWN_MS);
    g.advance(1000, 0, &font, &mut d);
    // 2000 ms left shows '2'.
    assert_eq!(d.rows(), [0, 0x1c, 0x22, 0x02, 0x04, 0x08, 0x10, 0x3e]);
    let mut e = DotMatrix::new();
    let mut h = GameState::Countdown(COUNTDOWN_MS);
    h.advance(0, 0, &font, &mut e);
    // 3000 ms left shows '3'.
    assert_eq!(e.rows(), [0, 0x3e, 0x02, 0x02, 0x1e, 0x02, 0x02, 0x3e]);
}

#[test]
fn button_moves_the_pad_while_playing() {
    let mut g = GameState::Playing { ball: Ball::new(3, 3), pad: Pad::new(PadPosition::Bottom(1000)), score: 4 };
    g.button_click();
    match g {
        GameState::Playing { pad, score, .. } => {
            assert_eq!(pad, Pad::new(PadPosition::Left(0)));
            assert_eq!(score, 4);
        }
        _ => panic!("expected a game in play"),
    }
    let mut c = GameState::Countdown(100);
    c.button_click();
    assert!(matches!(c, GameState::Countdown(100)));
}

#[test]
fn dead_pad_ends_the_game_with_new_highscore() {
    let font = digit_font();
    let mut d = DotMatrix::new();
    d.fill();
    let mut g = GameState::Playing { ball: Ball::new(3, 3), pad: Pad::Dead, score: 12 };
    assert_eq!(g.advance(16, 9, &font, &mut d), Some(12));
    assert_eq!(d.rows(), [0; 8]);
    match g {
        GameState::GameOver(t) => {
            assert_eq!(t.text.as_str(), " New highscore! 12");
            assert_eq!(t.scroll_position, 0);
        }
        _ => panic!("expected game over"),
    }
    let mut h = GameState::Playing { ball: Ball::new(3, 3), pad: Pad::Dead, score: 9 };
    assert_eq!(h.advance(16, 9, &font, &mut d), None);
    match h {
        GameState::GameOver(t) => assert_eq!(t.text.as_str(), " Score 9"),
        _ => panic!("expected game over"),
    }
}

#[test]
fn game_over_click_starts_countdown() {
    let mut g = GameState::GameOver(matrix_pong::text_ticker::TextTicker::new(text(" Score 1"), 14));
    g.button_click();
    assert!(matches!(g, GameState::Countdown(COUNTDOWN_MS)));
}

#[test]
fn playing_tick_updates_and_draws() {
    let font = digit_font();
    let mut d = DotMatrix::new();
    let mut g = GameState::Playing { ball: Ball::new(3, 3), pad: Pad::new(PadPosition::Bottom(1000)), score: 0 };
    g.advance(16, 0, &font, &mut d);
    assert_eq!(d.rows(), [0, 0, 0x10, 0, 0, 0, 0, 0xff]);
    match g {
        GameState::Playing { ball, .. } => assert_eq!(ball.x, 3_086_413_824),
        _ => panic!("expected a game in play"),
    }
}

#[test]
fn dying_pad_ends_game_on_next_tick() {
    let font = digit_font();
    let mut d = DotMatrix::new();
    let pad = Pad::Alive { state: PadState::Dying(10), position: PadPosition::Top(1000), health: 0 };
    let mut g = GameState::Playing { ball: Ball::new(3, 3), pad, score: 2 };
    g.advance(16, 5, &font, &mut d);
    assert!(matches!(g, GameState::Playing { pad: Pad::Dead, score: 2, .. }));
    assert_eq!(g.advance(16, 5, &font, &mut d), None);
    assert!(matches!(g, GameState::GameOver(_)));
}

#[test]
fn ticker_texts() {
    assert_eq!(highscore_text(42).as_str(), " Highscore:42");
    assert_eq!(highscore_text(0).as_str(), " Highscore:0");
    assert_eq!(result_text(4294967295, false).as_str(), " Score 4294967295");
    assert_eq!(result_text(0, true).as_str(), " New highscore! 0");
    match GameState::new(305) {
        GameState::Intro(t) => {
            assert_eq!(t.text.as_str(), " Highscore:305");
            assert_eq!(t.scroll_speed, 8);
        }
        _ => panic!("expected intro"),
    }
}
