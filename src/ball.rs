use vstd::prelude::*;

use crate::dot_matrix::{column_bit, DotMatrix};
use crate::pad::{damaged, Pad, PadPosition, PadState};

verus! {

/// Fixed-point scale of ball coordinates and speeds: one pixel is this many units.
pub const PIXEL: i64 = 1_000_000_000;
/// Largest speed on either axis, in units per millisecond: the `i64` limit,
/// kept symmetric so that reversing a speed never overflows.
pub const MAX_SPEED: i64 = 9_223_372_036_854_775_807;
/// Wall the ball bounces off on the low side of an axis: half a pixel in.
pub const NEAR_WALL: i64 = 500_000_000;
/// Wall on the low side of an axis when the paddle defends that edge.
pub const NEAR_PAD: i64 = 1_500_000_000;
/// Wall on the high side of an axis when the paddle defends that edge.
pub const FAR_PAD: i64 = 6_500_000_000;
/// Wall the ball bounces off on the high side of an axis.
pub const FAR_WALL: i64 = 7_500_000_000;
/// Speed-up of the progressive difficulty: speed grows by `dt / SPEED_UP_DIVISOR` per tick.
pub const SPEED_UP_DIVISOR: i64 = 100_000;
/// Speed of a new ball along x, units per millisecond (0.0054 pixels).
pub const START_X_SPEED: i64 = 5_400_000;
/// Speed of a new ball along y, units per millisecond (-0.004 pixels).
pub const START_Y_SPEED: i64 = -4_000_000;

/// The ball: position and velocity in fixed point, `PIXEL` units to a pixel.
#[derive(Clone, Copy, Debug, PartialEq, Eq, Structural)]
pub struct Ball {
    pub x: i64,
    pub y: i64,
    pub x_speed: i64,
    pub y_speed: i64,
    /// Whether the ball speeds up over time (progressive difficulty).
    pub speed_up: bool,
}

/// `a / b` rounded towards zero, for `b > 0`.
pub open spec fn div_trunc(a: int, b: int) -> int {
    if a >= 0 {
        a / b
    } else {
        -((-a) / b)
    }
}

/// `v` limited to `[lo, hi]`.
pub open spec fn clamp(v: int, lo: int, hi: int) -> int {
    if v < lo {
        lo
    } else if v > hi {
        hi
    } else {
        v
    }
}

/// Speed after the difficulty ramp of one tick of `dt` ms: multiplied by
/// `1 + dt / SPEED_UP_DIVISOR`, rounded towards zero; only the `i64` limit
/// `MAX_SPEED` holds it.
pub open spec fn ramped(v: int, dt: int, speed_up: bool) -> int {
    if speed_up {
        clamp(v + div_trunc(v * dt, SPEED_UP_DIVISOR as int), -MAX_SPEED, MAX_SPEED as int)
    } else {
        v
    }
}

/// Low wall of an axis, further in when the paddle defends that edge.
pub open spec fn near_wall(defended: bool) -> int {
    if defended { NEAR_PAD as int } else { NEAR_WALL as int }
}

/// High wall of an axis, further in when the paddle defends that edge.
pub open spec fn far_wall(defended: bool) -> int {
    if defended { FAR_PAD as int } else { FAR_WALL as int }
}

/// Whether a ball at `p` moving at `v` hits a wall of the axis: below the low
/// wall while moving down the axis, or at or past the high wall otherwise.
pub open spec fn axis_hit(p: int, v: int, near_defended: bool, far_defended: bool) -> bool {
    if v < 0 {
        p < near_wall(near_defended)
    } else {
        p >= far_wall(far_defended)
    }
}

/// Whether that hit is on the edge the paddle defends.
pub open spec fn axis_pad_hit(p: int, v: int, near_defended: bool, far_defended: bool) -> bool {
    axis_hit(p, v, near_defended, far_defended) && if v < 0 {
        near_defended
    } else {
        far_defended
    }
}

/// Coordinate after the wall check: put back onto the wall that was hit.
pub open spec fn axis_pos(p: int, v: int, near_defended: bool, far_defended: bool) -> int {
    if !axis_hit(p, v, near_defended, far_defended) {
        p
    } else if v < 0 {
        near_wall(near_defended)
    } else {
        far_wall(far_defended)
    }
}

/// Speed after the wall check: reversed by a hit.
pub open spec fn axis_speed(p: int, v: int, near_defended: bool, far_defended: bool) -> int {
    if axis_hit(p, v, near_defended, far_defended) {
        -v
    } else {
        v
    }
}

/// Coordinate after moving at `v` for `dt` ms: `p + v * dt`, held only at
/// the `i64` limits.
pub open spec fn moved(p: int, v: int, dt: int) -> int {
    clamp(p + v * dt, i64::MIN as int, i64::MAX as int)
}

pub open spec fn is_left(p: PadPosition) -> bool {
    p is Left
}

pub open spec fn is_right(p: PadPosition) -> bool {
    p is Right
}

pub open spec fn is_top(p: PadPosition) -> bool {
    p is Top
}

pub open spec fn is_bottom(p: PadPosition) -> bool {
    p is Bottom
}

/// Whether the tick of `dt` ms hits any wall, for a paddle at `pos`.
pub open spec fn tick_hit(b: Ball, pos: PadPosition, dt: int) -> bool {
    axis_hit(b.x as int, ramped(b.x_speed as int, dt, b.speed_up), is_left(pos), is_right(pos))
        || axis_hit(b.y as int, ramped(b.y_speed as int, dt, b.speed_up), is_top(pos), is_bottom(pos))
}

/// Whether the hit of the tick counts against the paddle: the y axis decides
/// when it was hit, else the x axis.
pub open spec fn tick_pad_hit(b: Ball, pos: PadPosition, dt: int) -> bool {
    let vx = ramped(b.x_speed as int, dt, b.speed_up);
    let vy = ramped(b.y_speed as int, dt, b.speed_up);
    if axis_hit(b.y as int, vy, is_top(pos), is_bottom(pos)) {
        axis_pad_hit(b.y as int, vy, is_top(pos), is_bottom(pos))
    } else {
        axis_pad_hit(b.x as int, vx, is_left(pos), is_right(pos))
    }
}

/// The ball after one tick of `dt` ms against a paddle at `pos`: speed ramp,
/// wall checks on both axes, then motion.
pub open spec fn ball_after(b: Ball, pos: PadPosition, dt: int) -> Ball {
    let vx = ramped(b.x_speed as int, dt, b.speed_up);
    let vy = ramped(b.y_speed as int, dt, b.speed_up);
    let x1 = axis_pos(b.x as int, vx, is_left(pos), is_right(pos));
    let y1 = axis_pos(b.y as int, vy, is_top(pos), is_bottom(pos));
    let vx1 = axis_speed(b.x as int, vx, is_left(pos), is_right(pos));
    let vy1 = axis_speed(b.y as int, vy, is_top(pos), is_bottom(pos));
    Ball {
        x: moved(x1, vx1, dt) as i64,
        y: moved(y1, vy1, dt) as i64,
        x_speed: vx1 as i64,
        y_speed: vy1 as i64,
        speed_up: b.speed_up,
    }
}

/// `s + 1`, held at `u32::MAX`.
pub open spec fn score_plus_one(s: u32) -> u32 {
    if s < u32::MAX {
        (s + 1) as u32
    } else {
        s
    }
}

/// Ball, paddle and score after one tick of `dt` ms. Only a paddle that is
/// alive and in its normal state plays: the ball moves as `ball_after` says, a
/// hit on the defended edge damages the paddle and a hit on any other edge
/// scores one point. Otherwise nothing changes.
pub open spec fn tick_outcome(b: Ball, p: Pad, s: u32, dt: int) -> (Ball, Pad, u32) {
    match p {
        Pad::Alive { state: PadState::Normal, position, .. } => {
            let hit = tick_hit(b, position, dt);
            let pad_hit = tick_pad_hit(b, position, dt);
            (
                ball_after(b, position, dt),
                if hit && pad_hit { damaged(p) } else { p },
                if hit && !pad_hit { score_plus_one(s) } else { s },
            )
        },
        _ => (b, p, s),
    }
}

/// Display pixel of a coordinate: the whole pixels, truncated, and held on
/// the display, so that a ball off the display shows on its nearest edge.
pub open spec fn pixel_of(p: int) -> int {
    if p < 0 {
        0
    } else if p / PIXEL as int > 7 {
        7
    } else {
        p / PIXEL as int
    }
}

/// Display pixel of a coordinate.
fn pixel(p: i64) -> (r: u8)
    ensures
        r as int == pixel_of(p as int),
        r < 8,
{
    if p < 0 {
        0
    } else if p / PIXEL > 7 {
        7
    } else {
        (p / PIXEL) as u8
    }
}

impl Ball {
    /// Speeds within `MAX_SPEED` (any `i64` but `i64::MIN`); coordinates are free.
    pub open spec fn wf(&self) -> bool {
        &&& -MAX_SPEED <= self.x_speed <= MAX_SPEED
        &&& -MAX_SPEED <= self.y_speed <= MAX_SPEED
    }

    /// Whether the ball is well formed.
    pub fn is_valid(&self) -> (r: bool)
        ensures
            r == self.wf(),
    {
        -MAX_SPEED <= self.x_speed && self.x_speed <= MAX_SPEED && -MAX_SPEED <= self.y_speed && self.y_speed <= MAX_SPEED
    }

    /// A ball at pixel `(initial_x, initial_y)` with the start velocity, speeding up over time.
    pub fn new(initial_x: u8, initial_y: u8) -> (r: Ball)
        ensures
            r.wf(),
            r == (Ball {
                x: (initial_x * PIXEL) as i64,
                y: (initial_y * PIXEL) as i64,
                x_speed: START_X_SPEED,
                y_speed: START_Y_SPEED,
                speed_up: true,
            }),
    {
        Ball {
            x: initial_x as i64 * PIXEL,
            y: initial_y as i64 * PIXEL,
            x_speed: START_X_SPEED,
            y_speed: START_Y_SPEED,
            speed_up: true,
        }
    }

    /// A ball at `(x, y)` with the given velocity, all in `PIXEL` units;
    /// `speed_up` turns the progressive difficulty on.
    pub fn with_velocity(x: i64, y: i64, x_speed: i64, y_speed: i64, speed_up: bool) -> (r: Ball)
        requires
            -MAX_SPEED <= x_speed <= MAX_SPEED,
            -MAX_SPEED <= y_speed <= MAX_SPEED,
        ensures
            r.wf(),
            r == (Ball { x, y, x_speed, y_speed, speed_up }),
    {
        Ball { x, y, x_speed, y_speed, speed_up }
    }
}

impl Ball {
    /// One tick of `delta_time_ms` against the paddle. Only while the paddle is
    /// alive and in its normal state: the speed ramps up, a wall that is hit
    /// puts the ball back on it and reverses that axis, a hit on the edge the
    /// paddle defends damages the paddle and a hit on any other edge scores a
    /// point; then the ball moves. Otherwise nothing changes.
    pub fn update(&mut self, pad: &mut Pad, delta_time_ms: u64, score: &mut u32)
        requires
            old(self).wf(),
            old(pad).wf(),
        ensures
            final(self).wf(),
            final(pad).wf(),
            (*final(self), *final(pad), *final(score)) == tick_outcome(*old(self), *old(pad), *old(score), delta_time_ms as int),
    {
        let position = match *pad {
            Pad::Alive { state: PadState::Normal, position, .. } => position,
            _ => {
                return;
            },
        };
        let dt = delta_time_ms;
        let vx = ramp_speed(self.x_speed, dt, self.speed_up);
        let vy = ramp_speed(self.y_speed, dt, self.speed_up);
        let left = matches!(position, PadPosition::Left(_));
        let right = matches!(position, PadPosition::Right(_));
        let top = matches!(position, PadPosition::Top(_));
        let bottom = matches!(position, PadPosition::Bottom(_));
        let (x1, vx1, hit_x, pad_hit_x) = bounce_axis(self.x, vx, left, right);
        let (y1, vy1, hit_y, pad_hit_y) = bounce_axis(self.y, vy, top, bottom);
        let hit = hit_x || hit_y;
        let pad_hit = if hit_y { pad_hit_y } else { pad_hit_x };
        if hit {
            if pad_hit {
                pad.take_damage();
            } else if *score < u32::MAX {
                *score = *score + 1;
            }
        }
        self.x = move_coord(x1, vx1, dt);
        self.y = move_coord(y1, vy1, dt);
        self.x_speed = vx1;
        self.y_speed = vy1;
    }

    /// Plots the ball at its pixel.
    pub fn draw(&self, dot_matrix: &mut DotMatrix)
        ensures
            final(dot_matrix)@ == old(dot_matrix)@.update(
                pixel_of(self.y as int),
                old(dot_matrix)@[pixel_of(self.y as int)] | column_bit(pixel_of(self.x as int)),
            ),
            final(dot_matrix).intensity_spec() == old(dot_matrix).intensity_spec(),
    {
        dot_matrix.put(pixel(self.x), pixel(self.y));
    }
}

/// Wall check on one axis: the new coordinate and speed, whether a wall was
/// hit, and whether it was the edge the paddle defends.
fn bounce_axis(p: i64, v: i64, near_defended: bool, far_defended: bool) -> (r: (i64, i64, bool, bool))
    requires
        -MAX_SPEED <= v <= MAX_SPEED,
    ensures
        r.0 as int == axis_pos(p as int, v as int, near_defended, far_defended),
        r.1 as int == axis_speed(p as int, v as int, near_defended, far_defended),
        r.2 == axis_hit(p as int, v as int, near_defended, far_defended),
        r.3 == axis_pad_hit(p as int, v as int, near_defended, far_defended),
        -MAX_SPEED <= r.1 <= MAX_SPEED,
{
    if v < 0 {
        let min = if near_defended { NEAR_PAD } else { NEAR_WALL };
        if p < min {
            (min, -v, true, near_defended)
        } else {
            (p, v, false, false)
        }
    } else {
        let max = if far_defended { FAR_PAD } else { FAR_WALL };
        if p >= max {
            (max, -v, true, far_defended)
        } else {
            (p, v, false, false)
        }
    }
}

/// Whatever the paddle's edge and the ball's velocity, the wall check leaves a
/// ball that was within the walls, `[0.5, 7.5]` pixels on both axes, within them.
pub proof fn lemma_bounce_stays_inside(b: Ball, pos: PadPosition, dt: int)
    requires
        NEAR_WALL <= b.x <= FAR_WALL,
        NEAR_WALL <= b.y <= FAR_WALL,
    ensures
        NEAR_WALL <= axis_pos(b.x as int, ramped(b.x_speed as int, dt, b.speed_up), is_left(pos), is_right(pos)) <= FAR_WALL,
        NEAR_WALL <= axis_pos(b.y as int, ramped(b.y_speed as int, dt, b.speed_up), is_top(pos), is_bottom(pos)) <= FAR_WALL,
{
}

/// Whether a tick of `dt` ms scores: the paddle plays and the ball hits an
/// edge that does not count against it.
pub open spec fn tick_scores(b: Ball, p: Pad, dt: int) -> bool {
    match p {
        Pad::Alive { state: PadState::Normal, position, .. } => tick_hit(b, position, dt) && !tick_pad_hit(
            b,
            position,
            dt,
        ),
        _ => false,
    }
}

/// Ball, paddle and score after a run of ticks, one per element of `dts`.
pub open spec fn run_ticks(b: Ball, p: Pad, s: u32, dts: Seq<u64>) -> (Ball, Pad, u32)
    decreases dts.len(),
{
    if dts.len() == 0 {
        (b, p, s)
    } else {
        let prev = run_ticks(b, p, s, dts.drop_last());
        tick_outcome(prev.0, prev.1, prev.2, dts.last() as int)
    }
}

/// Ticks of the run that hit an undefended edge.
pub open spec fn undefended_hits(b: Ball, p: Pad, s: u32, dts: Seq<u64>) -> nat
    decreases dts.len(),
{
    if dts.len() == 0 {
        0
    } else {
        let prev = run_ticks(b, p, s, dts.drop_last());
        undefended_hits(b, p, s, dts.drop_last()) + if tick_scores(prev.0, prev.1, dts.last() as int) {
            1nat
        } else {
            0nat
        }
    }
}

/// Over any run of ticks the score grows by exactly the number of hits on
/// undefended edges: one per such hit, none per hit on the defended edge.
pub proof fn lemma_score_counts_undefended_hits(b: Ball, p: Pad, s: u32, dts: Seq<u64>)
    requires
        s + dts.len() <= u32::MAX,
    ensures
        run_ticks(b, p, s, dts).2 == s + undefended_hits(b, p, s, dts),
        undefended_hits(b, p, s, dts) <= dts.len(),
    decreases dts.len(),
{
    if dts.len() > 0 {
        lemma_score_counts_undefended_hits(b, p, s, dts.drop_last());
    }
}

/// The ball is on the inner side of the wall it moves away from on each
/// axis: moving down an axis it is not past the far wall, otherwise not short
/// of the near wall. A new ball is so, and every tick keeps it so.
pub open spec fn heading_inside(b: Ball) -> bool {
    &&& b.x_speed < 0 ==> b.x <= FAR_WALL
    &&& b.x_speed >= 0 ==> b.x >= NEAR_WALL
    &&& b.y_speed < 0 ==> b.y <= FAR_WALL
    &&& b.y_speed >= 0 ==> b.y >= NEAR_WALL
}

/// The speed ramp never changes the direction of motion.
proof fn lemma_ramp_keeps_sign(v: int, dt: int, speed_up: bool)
    requires
        dt >= 0,
        -MAX_SPEED <= v <= MAX_SPEED,
    ensures
        v < 0 ==> ramped(v, dt, speed_up) < 0,
        v >= 0 ==> ramped(v, dt, speed_up) >= 0,
        -MAX_SPEED <= ramped(v, dt, speed_up) <= MAX_SPEED,
{
    if v >= 0 {
        assert(v * dt >= 0) by (nonlinear_arith)
            requires v >= 0, dt >= 0;
    } else {
        assert(v * dt <= 0) by (nonlinear_arith)
            requires v < 0, dt >= 0;
    }
}

/// For a ball heading inside, whatever the paddle's edge, the velocity and
/// the tick, the coordinates after the wall check are within the walls,
/// `[0.5, 7.5]` pixels.
pub proof fn lemma_heading_inside_bounce(b: Ball, pos: PadPosition, dt: int)
    requires
        b.wf(),
        heading_inside(b),
        dt >= 0,
    ensures
        NEAR_WALL <= axis_pos(b.x as int, ramped(b.x_speed as int, dt, b.speed_up), is_left(pos), is_right(pos)) <= FAR_WALL,
        NEAR_WALL <= axis_pos(b.y as int, ramped(b.y_speed as int, dt, b.speed_up), is_top(pos), is_bottom(pos)) <= FAR_WALL,
{
    lemma_ramp_keeps_sign(b.x_speed as int, dt, b.speed_up);
    lemma_ramp_keeps_sign(b.y_speed as int, dt, b.speed_up);
}

/// A tick keeps a ball heading inside.
pub proof fn lemma_tick_keeps_heading_inside(b: Ball, pos: PadPosition, dt: int)
    requires
        b.wf(),
        heading_inside(b),
        dt >= 0,
    ensures
        ball_after(b, pos, dt).wf(),
        heading_inside(ball_after(b, pos, dt)),
{
    lemma_heading_inside_bounce(b, pos, dt);
    let vx = ramped(b.x_speed as int, dt, b.speed_up);
    let vy = ramped(b.y_speed as int, dt, b.speed_up);
    lemma_ramp_keeps_sign(b.x_speed as int, dt, b.speed_up);
    lemma_ramp_keeps_sign(b.y_speed as int, dt, b.speed_up);
    let vx1 = axis_speed(b.x as int, vx, is_left(pos), is_right(pos));
    let vy1 = axis_speed(b.y as int, vy, is_top(pos), is_bottom(pos));
    assert(vx1 < 0 ==> vx1 * dt <= 0) by (nonlinear_arith)
        requires dt >= 0;
    assert(vx1 >= 0 ==> vx1 * dt >= 0) by (nonlinear_arith)
        requires dt >= 0;
    assert(vy1 < 0 ==> vy1 * dt <= 0) by (nonlinear_arith)
        requires dt >= 0;
    assert(vy1 >= 0 ==> vy1 * dt >= 0) by (nonlinear_arith)
        requires dt >= 0;
}

/// Speed after the difficulty ramp.
fn ramp_speed(v: i64, dt: u64, speed_up: bool) -> (r: i64)
    requires
        -MAX_SPEED <= v <= MAX_SPEED,
    ensures
        r as int == ramped(v as int, dt as int, speed_up),
        -MAX_SPEED <= r <= MAX_SPEED,
{
    if !speed_up {
        return v;
    }
    let d = dt as i128;
    let r: i128 = if v >= 0 {
        let m = v as i128;
        proof {
            assert(m * d <= 9_223_372_036_854_775_807 * 18446744073709551615) by (nonlinear_arith)
                requires 0 <= m <= 9_223_372_036_854_775_807, 0 <= d <= 18446744073709551615;
            assert(m * d >= 0) by (nonlinear_arith)
                requires 0 <= m, 0 <= d;
        }
        m + m * d / 100_000
    } else {
        let m = -(v as i128);
        proof {
            assert(m * d <= 9_223_372_036_854_775_807 * 18446744073709551615) by (nonlinear_arith)
                requires 0 <= m <= 9_223_372_036_854_775_807, 0 <= d <= 18446744073709551615;
            assert(m * d >= 0) by (nonlinear_arith)
                requires 0 <= m, 0 <= d;
            assert(v * d == -(m * d)) by (nonlinear_arith)
                requires m == -v;
        }
        v as i128 - m * d / 100_000
    };
    if r > MAX_SPEED as i128 {
        MAX_SPEED
    } else if r < -(MAX_SPEED as i128) {
        -MAX_SPEED
    } else {
        r as i64
    }
}

/// Coordinate after moving at `v` for `dt` ms.
fn move_coord(p: i64, v: i64, dt: u64) -> (r: i64)
    requires
        -MAX_SPEED <= v <= MAX_SPEED,
    ensures
        r as int == moved(p as int, v as int, dt as int),
{
    let d = dt as i128;
    let vv = v as i128;
    proof {
        assert(-9_223_372_036_854_775_807 * 18446744073709551615 <= vv * d <= 9_223_372_036_854_775_807 * 18446744073709551615)
            by (nonlinear_arith)
            requires
                -9_223_372_036_854_775_807 <= vv <= 9_223_372_036_854_775_807,
                0 <= d <= 18446744073709551615;
    }
    let n = p as i128 + vv * d;
    if n < i64::MIN as i128 {
        i64::MIN
    } else if n > i64::MAX as i128 {
        i64::MAX
    } else {
        n as i64
    }
}

} // verus!
