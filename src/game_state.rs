use vstd::prelude::*;

use crate::ball::{pixel_of, tick_outcome, Ball, START_X_SPEED, START_Y_SPEED, PIXEL};
use crate::dot_matrix::{column_bit, shifted_row, DotMatrix};
use crate::pad::{pad_after, pad_frame, total_ms, Pad, PadPosition, PadState, SLIDE_FULL};
use crate::text_ticker::{
    glyph_rows, text_chars, text_new, text_push, ticker_frame, utf8_len, utf8_size, Font, Glyph, TextTicker, FONT_HEIGHT,
    TEXT_CAPACITY,
};

verus! {

/// Length of the countdown before a game, in milliseconds.
pub const COUNTDOWN_MS: i64 = 3000;
/// Scroll speed of the intro ticker, thousandths of a pixel per millisecond.
pub const INTRO_SCROLL_SPEED: u64 = 8;
/// Scroll speed of the game-over ticker, thousandths of a pixel per millisecond.
pub const GAME_OVER_SCROLL_SPEED: u64 = 14;
/// Pixel column and row where every game's ball starts.
pub const BALL_START: u8 = 3;

/// The phases of the game.
pub enum GameState {
    /// Attract mode: a scrolling text until the button is pressed.
    Intro(TextTicker),
    /// Milliseconds left before the game starts.
    Countdown(i64),
    Playing { ball: Ball, pad: Pad, score: u32 },
    /// The result scrolls by until the button is pressed.
    GameOver(TextTicker),
}

/// The decimal digits of `n`, most significant first.
pub open spec fn decimal(n: nat) -> Seq<char>
    decreases n,
{
    if n < 10 {
        seq![digit_char(n)]
    } else {
        decimal(n / 10).push(digit_char(n % 10))
    }
}

/// The character of decimal digit `d`.
pub open spec fn digit_char(d: nat) -> char {
    ((48 + d) as u8) as char
}

pub open spec fn highscore_label() -> Seq<char> {
    seq![' ', 'H', 'i', 'g', 'h', 's', 'c', 'o', 'r', 'e', ':']
}

pub open spec fn new_highscore_label() -> Seq<char> {
    seq![' ', 'N', 'e', 'w', ' ', 'h', 'i', 'g', 'h', 's', 'c', 'o', 'r', 'e', '!', ' ']
}

pub open spec fn score_label() -> Seq<char> {
    seq![' ', 'S', 'c', 'o', 'r', 'e', ' ']
}

/// Text of the intro ticker: the high score.
pub open spec fn intro_text(highscore: u32) -> Seq<char> {
    highscore_label() + decimal(highscore as nat)
}

/// Text of the game-over ticker: the score, announced as a new high score when it is one.
pub open spec fn game_over_text(score: u32, new_high: bool) -> Seq<char> {
    (if new_high { new_highscore_label() } else { score_label() }) + decimal(score as nat)
}

/// Countdown left after `dt` ms, or 0 once it has run out.
pub open spec fn countdown_left(c: int, dt: int) -> int {
    if dt >= c {
        0
    } else {
        c - dt
    }
}

/// The digit shown with `left` ms of countdown left: the seconds left, rounded up.
pub open spec fn countdown_char(left: int) -> char {
    digit_char(((left + 999) / 1000) as nat)
}

/// The countdown frame: the digit's glyph drawn at the top of a blank frame,
/// then moved two columns right and one row down.
pub open spec fn countdown_frame(glyphs: Seq<Glyph>, left: int) -> Seq<u8> {
    let g = glyph_rows(glyphs, countdown_char(left));
    let drawn = Seq::new(8, |i: int| if i < FONT_HEIGHT { g[i] } else { 0u8 });
    Seq::new(8, |i: int| shifted_row(drawn, 2, 1, i))
}

/// `rows` with the ball plotted.
pub open spec fn ball_frame(rows: Seq<u8>, b: Ball) -> Seq<u8> {
    rows.update(pixel_of(b.y as int), rows[pixel_of(b.y as int)] | column_bit(pixel_of(b.x as int)))
}

pub open spec fn blank_frame() -> Seq<u8> {
    Seq::new(8, |i: int| 0u8)
}

/// The state every game starts in.
pub open spec fn fresh_game() -> GameState {
    GameState::Playing {
        ball: Ball {
            x: (BALL_START * PIXEL) as i64,
            y: (BALL_START * PIXEL) as i64,
            x_speed: START_X_SPEED,
            y_speed: START_Y_SPEED,
            speed_up: true,
        },
        pad: Pad::Alive { state: PadState::Normal, position: PadPosition::Bottom(SLIDE_FULL), health: 4 },
        score: 0,
    }
}

/// The state after the countdown `c` runs through the steps `dts`, as
/// `advance` takes it: each step counts the countdown down, a fresh game
/// starts when it runs out, and the later steps leave that game alone here.
pub open spec fn countdown_run(c: int, dts: Seq<u64>) -> GameState
    decreases dts.len(),
{
    if dts.len() == 0 {
        GameState::Countdown(c as i64)
    } else {
        match countdown_run(c, dts.drop_last()) {
            GameState::Countdown(c2) => {
                let left = countdown_left(c2 as int, dts.last() as int);
                if left == 0 {
                    fresh_game()
                } else {
                    GameState::Countdown(left as i64)
                }
            },
            g => g,
        }
    }
}

/// A countdown of `c` ms ends in a fresh game exactly when the steps add up
/// to at least `c`; before that it has `c` minus the elapsed time left.
pub proof fn lemma_countdown_starts_game(c: i64, dts: Seq<u64>)
    requires
        0 < c <= COUNTDOWN_MS,
    ensures
        total_ms(dts) >= c ==> countdown_run(c as int, dts) == fresh_game(),
        total_ms(dts) < c ==> countdown_run(c as int, dts) == GameState::Countdown((c - total_ms(dts)) as i64),
    decreases dts.len(),
{
    if dts.len() > 0 {
        lemma_countdown_starts_game(c, dts.drop_last());
        crate::pad::lemma_total_monotone(dts);
    }
}

/// The state after a button press: intro and game over start the countdown,
/// a living paddle moves to the next edge, anything else is unchanged.
pub open spec fn clicked(g: GameState) -> GameState {
    match g {
        GameState::Intro(_) => GameState::Countdown(COUNTDOWN_MS),
        GameState::GameOver(_) => GameState::Countdown(COUNTDOWN_MS),
        GameState::Playing { ball, pad, score } => match pad {
            Pad::Alive { state, position, health } => GameState::Playing {
                ball,
                pad: Pad::Alive { state, position: crate::pad::next_position(position), health },
                score,
            },
            Pad::Dead => g,
        },
        GameState::Countdown(_) => g,
    }
}

/// A ticker that has scrolled `dt` ms on from `t`.
pub open spec fn ticker_scrolled(t: TextTicker, t2: TextTicker, dt: int) -> bool {
    &&& t2.text == t.text
    &&& t2.scroll_speed == t.scroll_speed
    &&& t2.scroll_position == crate::text_ticker::scrolled(t.scroll_position as int, dt, t.scroll_speed as int)
}

/// The frame a ticker shows over a blank frame.
pub open spec fn ticker_shown(glyphs: Seq<Glyph>, t: TextTicker) -> Seq<u8> {
    if utf8_len(text_chars(t.text)) == 0 {
        blank_frame()
    } else {
        ticker_frame(glyphs, text_chars(t.text), t.scroll_position as int)
    }
}

/// `10^k`.
pub open spec fn ten_pow(k: nat) -> nat
    decreases k,
{
    if k == 0 {
        1
    } else {
        10 * ten_pow((k - 1) as nat)
    }
}

/// A number below `10^k` has at most `k` digits.
proof fn lemma_decimal_len(n: nat, k: nat)
    requires
        n < ten_pow(k),
        k >= 1,
    ensures
        decimal(n).len() <= k,
    decreases k,
{
    if n >= 10 {
        if k == 1 {
            assert(ten_pow(1) == 10) by {
                reveal_with_fuel(ten_pow, 2);
            }
        } else {
            lemma_decimal_len(n / 10, (k - 1) as nat);
        }
    }
}

/// A `u32` has at most ten digits.
proof fn lemma_u32_digits(n: u32)
    ensures
        decimal(n as nat).len() <= 10,
{
    assert(ten_pow(10) == 10_000_000_000) by {
        reveal_with_fuel(ten_pow, 11);
    }
    lemma_decimal_len(n as nat, 10);
}

/// The UTF-8 length grows by the size of each character appended.
proof fn lemma_utf8_len_push(s: Seq<char>, c: char)
    ensures
        utf8_len(s.push(c)) == utf8_len(s) + utf8_size(c),
{
    assert(s.push(c).drop_last() =~= s);
}

/// Appends the ASCII characters `s` to `out`, which has room for them.
fn append(out: &mut heapless::String<TEXT_CAPACITY>, s: &[char])
    requires
        utf8_len(text_chars(*old(out))) + s@.len() <= TEXT_CAPACITY,
        forall|i: int| 0 <= i < s@.len() ==> (#[trigger] s@[i] as u32) < 0x80,
    ensures
        text_chars(*final(out)) == text_chars(*old(out)) + s@,
        utf8_len(text_chars(*final(out))) == utf8_len(text_chars(*old(out))) + s@.len(),
{
    let mut i: usize = 0;
    while i < s.len()
        invariant
            0 <= i <= s@.len(),
            utf8_len(text_chars(*old(out))) + s@.len() <= TEXT_CAPACITY,
            forall|j: int| 0 <= j < s@.len() ==> (#[trigger] s@[j] as u32) < 0x80,
            text_chars(*out) == text_chars(*old(out)) + s@.subrange(0, i as int),
            utf8_len(text_chars(*out)) == utf8_len(text_chars(*old(out))) + i,
        decreases s@.len() - i,
    {
        proof {
            lemma_utf8_len_push(text_chars(*out), s@[i as int]);
        }
        text_push(out, s[i]);
        i += 1;
        assert(text_chars(*out) =~= text_chars(*old(out)) + s@.subrange(0, i as int));
    }
    assert(s@.subrange(0, s@.len() as int) =~= s@);
}

/// Appends the decimal digits of `n` to `out`, which has room for them.
fn append_decimal(out: &mut heapless::String<TEXT_CAPACITY>, n: u32)
    requires
        utf8_len(text_chars(*old(out))) + decimal(n as nat).len() <= TEXT_CAPACITY,
    ensures
        text_chars(*final(out)) == text_chars(*old(out)) + decimal(n as nat),
        utf8_len(text_chars(*final(out))) == utf8_len(text_chars(*old(out))) + decimal(n as nat).len(),
    decreases n,
{
    if n >= 10 {
        append_decimal(out, n / 10);
    }
    let d = (n % 10) as u8;
    let c = (48u8 + d) as char;
    proof {
        assert(c as u32 == 48 + d);
        lemma_utf8_len_push(text_chars(*out), c);
    }
    text_push(out, c);
    assert(text_chars(*final(out)) =~= text_chars(*old(out)) + decimal(n as nat));
}

impl GameState {
    /// Countdowns are positive and at most `COUNTDOWN_MS`; ball and paddle are well formed.
    pub open spec fn wf(&self) -> bool {
        match *self {
            GameState::Countdown(c) => 0 < c <= COUNTDOWN_MS,
            GameState::Playing { ball, pad, .. } => ball.wf() && pad.wf(),
            _ => true,
        }
    }
}

/// Text of the intro ticker for `highscore`.
pub fn highscore_text(highscore: u32) -> (r: heapless::String<TEXT_CAPACITY>)
    ensures
        text_chars(r) == intro_text(highscore),
{
    let mut out = text_new();
    let label: [char; 11] = [' ', 'H', 'i', 'g', 'h', 's', 'c', 'o', 'r', 'e', ':'];
    assert(label@ =~= highscore_label());
    proof {
        lemma_u32_digits(highscore);
    }
    append(&mut out, &label);
    append_decimal(&mut out, highscore);
    out
}

/// Text of the game-over ticker for `score`.
pub fn result_text(score: u32, new_high: bool) -> (r: heapless::String<TEXT_CAPACITY>)
    ensures
        text_chars(r) == game_over_text(score, new_high),
{
    let mut out = text_new();
    proof {
        lemma_u32_digits(score);
    }
    if new_high {
        let label: [char; 16] = [' ', 'N', 'e', 'w', ' ', 'h', 'i', 'g', 'h', 's', 'c', 'o', 'r', 'e', '!', ' '];
        assert(label@ =~= new_highscore_label());
        append(&mut out, &label);
    } else {
        let label: [char; 7] = [' ', 'S', 'c', 'o', 'r', 'e', ' '];
        assert(label@ =~= score_label());
        append(&mut out, &label);
    }
    append_decimal(&mut out, score);
    out
}

/// Draws the countdown digit for `left` ms over a blank frame.
fn draw_countdown(font: &Font, left: i64, dot_matrix: &mut DotMatrix)
    requires
        0 <= left <= COUNTDOWN_MS,
        old(dot_matrix)@ == blank_frame(),
    ensures
        final(dot_matrix)@ == countdown_frame(font.glyphs@, left as int),
        final(dot_matrix).intensity_spec() == old(dot_matrix).intensity_spec(),
{
    let secs = ((left + 999) / 1000) as u8;
    let bitmap = font.glyph_or_blank((48u8 + secs) as char);
    dot_matrix.draw(&bitmap);
    dot_matrix.shift(2, 1);
    proof {
        let g = glyph_rows(font.glyphs@, countdown_char(left as int));
        let drawn = Seq::new(8, |i: int| if i < FONT_HEIGHT { g[i] } else { 0u8 });
        dot_matrix.lemma_rows_len();
        assert forall|i: int| 0 <= i < 8 implies dot_matrix@[i] == shifted_row(drawn, 2, 1, i) by {
            assert(shifted_row(drawn, 2, 1, i) == drawn[(i - 1) % 8] >> 2u8);
        }
        assert(dot_matrix@ =~= countdown_frame(font.glyphs@, left as int));
    }
}

impl GameState {
    /// Whether the state is well formed.
    pub fn is_valid(&self) -> (r: bool)
        ensures
            r == self.wf(),
    {
        match self {
            GameState::Countdown(c) => 0 < *c && *c <= COUNTDOWN_MS,
            GameState::Playing { ball, pad, .. } => ball.is_valid() && pad.is_valid(),
            _ => true,
        }
    }

    /// The intro showing `highscore`.
    pub fn new(highscore: u32) -> (r: GameState)
        ensures
            r.wf(),
            r is Intro,
            text_chars(r->Intro_0.text) == intro_text(highscore),
            r->Intro_0.scroll_position == 0,
            r->Intro_0.scroll_speed == INTRO_SCROLL_SPEED,
    {
        GameState::Intro(TextTicker::new(highscore_text(highscore), INTRO_SCROLL_SPEED))
    }

    /// Handles a press of the button.
    pub fn button_click(&mut self)
        requires
            old(self).wf(),
        ensures
            final(self).wf(),
            *final(self) == clicked(*old(self)),
    {
        match self {
            GameState::Intro(_) => {
                *self = GameState::Countdown(COUNTDOWN_MS);
            },
            GameState::GameOver(_) => {
                *self = GameState::Countdown(COUNTDOWN_MS);
            },
            GameState::Playing { pad, .. } => {
                match pad {
                    Pad::Alive { position, .. } => {
                        position.next();
                    },
                    Pad::Dead => {},
                }
            },
            GameState::Countdown(_) => {},
        }
    }

    /// Advances the game by `delta_time_ms` and renders the new frame, given
    /// the stored high score. Returns the score to store as the new high score
    /// when a game has just ended above it.
    ///
    /// A ticker scrolls on and is drawn. The countdown runs down with its digit
    /// drawn, and a fresh game starts when it runs out. A game in play updates
    /// the paddle, then the ball, and draws both; once the paddle is dead, the
    /// game is over and the result scrolls by.
    pub fn advance(&mut self, delta_time_ms: u64, highscore: u32, font: &Font, dot_matrix: &mut DotMatrix) -> (r:
        Option<u32>)
        requires
            old(self).wf(),
        ensures
            final(self).wf(),
            final(dot_matrix).intensity_spec() == old(dot_matrix).intensity_spec(),
            match *old(self) {
                GameState::Intro(t) => {
                    &&& *final(self) is Intro
                    &&& ticker_scrolled(t, (*final(self))->Intro_0, delta_time_ms as int)
                    &&& final(dot_matrix)@ == ticker_shown(font.glyphs@, (*final(self))->Intro_0)
                    &&& r is None
                },
                GameState::GameOver(t) => {
                    &&& *final(self) is GameOver
                    &&& ticker_scrolled(t, (*final(self))->GameOver_0, delta_time_ms as int)
                    &&& final(dot_matrix)@ == ticker_shown(font.glyphs@, (*final(self))->GameOver_0)
                    &&& r is None
                },
                GameState::Countdown(c) => {
                    let left = countdown_left(c as int, delta_time_ms as int);
                    &&& final(dot_matrix)@ == countdown_frame(font.glyphs@, left)
                    &&& left == 0 ==> *final(self) == fresh_game()
                    &&& left > 0 ==> *final(self) == GameState::Countdown(left as i64)
                    &&& r is None
                },
                GameState::Playing { ball, pad, score } => match pad {
                    Pad::Dead => {
                        &&& *final(self) is GameOver
                        &&& text_chars((*final(self))->GameOver_0.text) == game_over_text(score, score > highscore)
                        &&& (*final(self))->GameOver_0.scroll_position == 0
                        &&& (*final(self))->GameOver_0.scroll_speed == GAME_OVER_SCROLL_SPEED
                        &&& r == if score > highscore { Some(score) } else { None }
                        &&& final(dot_matrix)@ == blank_frame()
                    },
                    _ => {
                        let out = tick_outcome(ball, pad_after(pad, delta_time_ms as int), score, delta_time_ms as int);
                        &&& *final(self) == GameState::Playing { ball: out.0, pad: out.1, score: out.2 }
                        &&& final(dot_matrix)@ == ball_frame(pad_frame(blank_frame(), out.1), out.0)
                        &&& r is None
                    },
                },
            },
    {
        dot_matrix.clear();
        let mut next: Option<GameState> = None;
        let mut stored: Option<u32> = None;
        match self {
            GameState::Intro(text) => {
                text.update(delta_time_ms);
                text.draw(font, dot_matrix);
            },
            GameState::GameOver(text) => {
                text.update(delta_time_ms);
                text.draw(font, dot_matrix);
            },
            GameState::Countdown(countdown) => {
                let c = *countdown;
                let left: i64 = if delta_time_ms as i128 >= c as i128 {
                    0
                } else {
                    c - delta_time_ms as i64
                };
                draw_countdown(font, left, dot_matrix);
                if left == 0 {
                    next = Some(
                        GameState::Playing {
                            ball: Ball::new(BALL_START, BALL_START),
                            pad: Pad::new(PadPosition::Bottom(SLIDE_FULL)),
                            score: 0,
                        },
                    );
                } else {
                    *countdown = left;
                }
            },
            GameState::Playing { ball, pad, score } => {
                match *pad {
                    Pad::Dead => {
                        let sc = *score;
                        let new_high = sc > highscore;
                        if new_high {
                            stored = Some(sc);
                        }
                        next = Some(GameState::GameOver(TextTicker::new(result_text(sc, new_high), GAME_OVER_SCROLL_SPEED)));
                    },
                    _ => {
                        pad.update(delta_time_ms);
                        ball.update(pad, delta_time_ms, score);
                        pad.draw(dot_matrix);
                        ball.draw(dot_matrix);
                    },
                }
            },
        }
        match next {
            Some(n) => {
                *self = n;
            },
            None => {},
        }
        stored
    }
}

} // verus!