use vstd::prelude::*;

use crate::dot_matrix::{column_bit, DotMatrix};

verus! {

/// Health of a fresh paddle.
pub const MAX_HEALTH: u8 = 4;
/// How long, in milliseconds, a hit paddle blinks before it is back to normal.
pub const HURT_DURATION_MS: i64 = 160;
/// How long, in milliseconds, the dying animation lasts before the paddle is dead.
pub const DEATH_DURATION_MS: i64 = 1120;
/// Length, in milliseconds, of one blink of a hurt or dying paddle.
pub const BLINK_PERIOD_MS: i64 = 80;
/// Within a blink period the paddle is lit while the countdown's phase is above this.
pub const BLINK_THRESHOLD_MS: i64 = 48;
/// Slide progress of a paddle that is fully in place (slide is kept in thousandths).
pub const SLIDE_FULL: u16 = 1000;
/// Slide progress gained per millisecond, in thousandths.
pub const SLIDE_RATE: u64 = 9;

/// The edge the paddle defends, with the progress of its slide-in animation
/// in thousandths (0 = just moved, `SLIDE_FULL` = in place).
#[derive(Clone, Copy, Debug, PartialEq, Eq, Structural)]
pub enum PadPosition {
    Left(u16),
    Right(u16),
    Top(u16),
    Bottom(u16),
}

/// What a living paddle is doing; the payload is the milliseconds left.
#[derive(Clone, Copy, Debug, PartialEq, Eq, Structural)]
pub enum PadState {
    Normal,
    Hurting(i64),
    Dying(i64),
}

/// The player's paddle.
#[derive(Clone, Copy, Debug, PartialEq, Eq, Structural)]
pub enum Pad {
    Alive { state: PadState, position: PadPosition, health: u8 },
    Dead,
}

/// Slide progress of a position.
pub open spec fn slide_of(p: PadPosition) -> int {
    match p {
        PadPosition::Left(s) => s as int,
        PadPosition::Right(s) => s as int,
        PadPosition::Top(s) => s as int,
        PadPosition::Bottom(s) => s as int,
    }
}

/// The position that follows `p` in the rotation Left, Top, Right, Bottom.
pub open spec fn next_position(p: PadPosition) -> PadPosition {
    match p {
        PadPosition::Left(_) => PadPosition::Top(0),
        PadPosition::Top(_) => PadPosition::Right(0),
        PadPosition::Right(_) => PadPosition::Bottom(0),
        PadPosition::Bottom(_) => PadPosition::Left(0),
    }
}

/// Two positions on the same edge, whatever their slide.
pub open spec fn same_edge(p: PadPosition, q: PadPosition) -> bool {
    match (p, q) {
        (PadPosition::Left(_), PadPosition::Left(_)) => true,
        (PadPosition::Right(_), PadPosition::Right(_)) => true,
        (PadPosition::Top(_), PadPosition::Top(_)) => true,
        (PadPosition::Bottom(_), PadPosition::Bottom(_)) => true,
        _ => false,
    }
}

/// `p` on the same edge with its slide set to `s`.
pub open spec fn with_slide(p: PadPosition, s: u16) -> PadPosition {
    match p {
        PadPosition::Left(_) => PadPosition::Left(s),
        PadPosition::Right(_) => PadPosition::Right(s),
        PadPosition::Top(_) => PadPosition::Top(s),
        PadPosition::Bottom(_) => PadPosition::Bottom(s),
    }
}

/// Slide after `dt_ms` milliseconds: it grows at `SLIDE_RATE` and stops at `SLIDE_FULL`.
pub open spec fn slide_after(s: int, dt_ms: int) -> int {
    if s + SLIDE_RATE * dt_ms >= SLIDE_FULL {
        SLIDE_FULL as int
    } else {
        s + SLIDE_RATE * dt_ms
    }
}

/// Extent of the paddle, in pixels, at slide `s`: `floor(7 * (s / 1000)^3)`.
pub open spec fn pixels_of(s: int) -> int {
    (7 * s * s * s) / 1_000_000_000
}

/// `rows` with `bit` set in every row from `lo` to `hi`, both included.
pub open spec fn or_rows(rows: Seq<u8>, bit: u8, lo: int, hi: int) -> Seq<u8> {
    Seq::new(rows.len(), |i: int| if lo <= i <= hi { rows[i] | bit } else { rows[i] })
}

/// The frame after drawing the paddle bar of position `p` over `rows`: the bar
/// slides from the previous edge of the rotation onto the edge of `p`.
pub open spec fn position_frame(rows: Seq<u8>, p: PadPosition) -> Seq<u8> {
    let n = pixels_of(slide_of(p));
    match p {
        PadPosition::Top(_) => or_rows(rows.update(0, 0xffu8 << ((7 - n) as u8)), column_bit(0), 0, 7 - n),
        PadPosition::Right(_) => or_rows(rows.update(0, 0xffu8 >> (n as u8)), column_bit(7), 0, n),
        PadPosition::Bottom(_) => or_rows(rows.update(7, 0xffu8 >> ((7 - n) as u8)), column_bit(7), n, 7),
        PadPosition::Left(_) => or_rows(rows, column_bit(0), 7 - n, 7).update(7, 0xffu8 << (n as u8)),
    }
}

impl PadPosition {
    /// The slide never exceeds `SLIDE_FULL`.
    pub open spec fn wf(&self) -> bool {
        slide_of(*self) <= SLIDE_FULL
    }

    /// Whether the slide is in range.
    pub fn is_valid(&self) -> (r: bool)
        ensures
            r == self.wf(),
    {
        match *self {
            PadPosition::Left(s) => s <= SLIDE_FULL,
            PadPosition::Right(s) => s <= SLIDE_FULL,
            PadPosition::Top(s) => s <= SLIDE_FULL,
            PadPosition::Bottom(s) => s <= SLIDE_FULL,
        }
    }

    /// Moves to the next edge of the rotation Left, Top, Right, Bottom, with the
    /// slide started again.
    pub fn next(&mut self)
        ensures
            *final(self) == next_position(*old(self)),
    {
        *self = match *self {
            PadPosition::Left(_) => PadPosition::Top(0),
            PadPosition::Right(_) => PadPosition::Bottom(0),
            PadPosition::Top(_) => PadPosition::Right(0),
            PadPosition::Bottom(_) => PadPosition::Left(0),
        };
    }

    /// Extent of the bar in pixels at slide `slide_amount`, on a cubic ease-in.
    pub fn to_pixels(slide_amount: u16) -> (r: u8)
        requires
            slide_amount <= SLIDE_FULL,
        ensures
            r as int == pixels_of(slide_amount as int),
            r <= 7,
    {
        let s = slide_amount as u64;
        proof {
            assert(s * s <= 1_000_000) by (nonlinear_arith)
                requires s <= 1000;
            assert(s * s * s <= 1_000_000_000) by (nonlinear_arith)
                requires s <= 1000, s * s <= 1_000_000;
        }
        let r = (7 * (s * s * s)) / 1_000_000_000;
        assert(7 * s * s * s == 7 * (s * s * s)) by (nonlinear_arith);
        r as u8
    }

    /// Advances the slide animation by `delta_time_ms`.
    pub fn update(&mut self, delta_time_ms: u64)
        requires
            old(self).wf(),
        ensures
            final(self).wf(),
            *final(self) == with_slide(*old(self), slide_after(slide_of(*old(self)), delta_time_ms as int) as u16),
    {
        let s: u16 = match *self {
            PadPosition::Left(s) => s,
            PadPosition::Right(s) => s,
            PadPosition::Top(s) => s,
            PadPosition::Bottom(s) => s,
        };
        let ns: u16 = if delta_time_ms >= SLIDE_FULL as u64 {
            SLIDE_FULL
        } else if s as u64 + SLIDE_RATE * delta_time_ms >= SLIDE_FULL as u64 {
            SLIDE_FULL
        } else {
            (s as u64 + SLIDE_RATE * delta_time_ms) as u16
        };
        *self = match *self {
            PadPosition::Left(_) => PadPosition::Left(ns),
            PadPosition::Right(_) => PadPosition::Right(ns),
            PadPosition::Top(_) => PadPosition::Top(ns),
            PadPosition::Bottom(_) => PadPosition::Bottom(ns),
        };
    }

    /// Draws the paddle bar over the frame.
    pub fn draw(&self, dot_matrix: &mut DotMatrix)
        requires
            self.wf(),
        ensures
            final(dot_matrix)@ == position_frame(old(dot_matrix)@, *self),
            final(dot_matrix).intensity_spec() == old(dot_matrix).intensity_spec(),
    {
        proof {
            old(dot_matrix).lemma_rows_len();
        }
        match *self {
            PadPosition::Top(slide_amount) => {
                let pixels = Self::to_pixels(slide_amount);
                dot_matrix.set_row(0, 0b11111111u8 << (7 - pixels));
                put_column(dot_matrix, 0, 0, 7 - pixels);
            },
            PadPosition::Right(slide_amount) => {
                let pixels = Self::to_pixels(slide_amount);
                dot_matrix.set_row(0, 0b11111111u8 >> pixels);
                put_column(dot_matrix, 7, 0, pixels);
            },
            PadPosition::Bottom(slide_amount) => {
                let pixels = Self::to_pixels(slide_amount);
                dot_matrix.set_row(7, 0b11111111u8 >> (7 - pixels));
                put_column(dot_matrix, 7, pixels, 7);
            },
            PadPosition::Left(slide_amount) => {
                let pixels = Self::to_pixels(slide_amount);
                put_column(dot_matrix, 0, 7 - pixels, 7);
                dot_matrix.set_row(7, 0b11111111u8 << pixels);
            },
        }
        assert(final(dot_matrix)@ =~= position_frame(old(dot_matrix)@, *self));
    }
}

/// Lights column `x` in every row from `lo` to `hi`.
fn put_column(dot_matrix: &mut DotMatrix, x: u8, lo: u8, hi: u8)
    requires
        x < 8,
        lo <= hi < 8,
    ensures
        final(dot_matrix)@ == or_rows(old(dot_matrix)@, column_bit(x as int), lo as int, hi as int),
        final(dot_matrix).intensity_spec() == old(dot_matrix).intensity_spec(),
{
    proof {
        old(dot_matrix).lemma_rows_len();
    }
    let mut y: u8 = lo;
    while y <= hi
        invariant
            x < 8,
            lo <= y <= hi + 1,
            hi < 8,
            dot_matrix@ == or_rows(old(dot_matrix)@, column_bit(x as int), lo as int, y as int - 1),
            dot_matrix.intensity_spec() == old(dot_matrix).intensity_spec(),
        decreases hi + 1 - y,
    {
        proof {
            dot_matrix.lemma_rows_len();
        }
        dot_matrix.put(x, y);
        assert(dot_matrix@ =~= or_rows(old(dot_matrix)@, column_bit(x as int), lo as int, y as int));
        y += 1;
    }
}

/// The paddle after one hit: a living paddle with health left loses one
/// point of it and starts to die when none is left, else to blink; a dead or
/// dying one is unchanged.
pub open spec fn damaged(p: Pad) -> Pad {
    match p {
        Pad::Alive { state, position, health } => if health > 0 {
            Pad::Alive {
                state: if health - 1 == 0 {
                    PadState::Dying(DEATH_DURATION_MS)
                } else {
                    PadState::Hurting(HURT_DURATION_MS)
                },
                position,
                health: (health - 1) as u8,
            }
        } else {
            p
        },
        Pad::Dead => p,
    }
}

/// The paddle after `dt_ms` milliseconds.
pub open spec fn pad_after(p: Pad, dt_ms: int) -> Pad {
    match p {
        Pad::Alive { state, position, health } => match state {
            PadState::Normal => Pad::Alive {
                state,
                position: with_slide(position, slide_after(slide_of(position), dt_ms) as u16),
                health,
            },
            PadState::Hurting(t) => if dt_ms >= t {
                Pad::Alive { state: PadState::Normal, position, health }
            } else {
                Pad::Alive { state: PadState::Hurting((t - dt_ms) as i64), position, health }
            },
            PadState::Dying(t) => if dt_ms >= t {
                Pad::Dead
            } else {
                Pad::Alive { state: PadState::Dying((t - dt_ms) as i64), position, health }
            },
        },
        Pad::Dead => Pad::Dead,
    }
}

/// The paddle after a run of updates, one per element of `dts`, in order.
pub open spec fn pad_after_all(p: Pad, dts: Seq<u64>) -> Pad
    decreases dts.len(),
{
    if dts.len() == 0 {
        p
    } else {
        pad_after(pad_after_all(p, dts.drop_last()), dts.last() as int)
    }
}

/// Sum of a run of time steps.
pub open spec fn total_ms(dts: Seq<u64>) -> int
    decreases dts.len(),
{
    if dts.len() == 0 {
        0
    } else {
        total_ms(dts.drop_last()) + dts.last()
    }
}

/// The frame after drawing the paddle over `rows`: a normal paddle draws its
/// bar; a hurt or dying one lights the whole frame during the lit part of
/// each blink period, counted on its countdown; a dead one draws nothing.
pub open spec fn pad_frame(rows: Seq<u8>, p: Pad) -> Seq<u8> {
    match p {
        Pad::Alive { state, position, .. } => match state {
            PadState::Normal => position_frame(rows, position),
            PadState::Hurting(t) => if t % BLINK_PERIOD_MS > BLINK_THRESHOLD_MS {
                Seq::new(8, |i: int| 0xffu8)
            } else {
                rows
            },
            PadState::Dying(t) => if t % BLINK_PERIOD_MS > BLINK_THRESHOLD_MS {
                Seq::new(8, |i: int| 0xffu8)
            } else {
                rows
            },
        },
        Pad::Dead => rows,
    }
}

impl Pad {
    /// Health stays within `[0, MAX_HEALTH]`, a paddle without health is dying
    /// and only then, countdowns are positive, and the slide is in range.
    pub open spec fn wf(&self) -> bool {
        match *self {
            Pad::Alive { state, position, health } => {
                &&& health <= MAX_HEALTH
                &&& position.wf()
                &&& (health == 0 <==> state is Dying)
                &&& match state {
                    PadState::Normal => true,
                    PadState::Hurting(t) => t > 0,
                    PadState::Dying(t) => t > 0,
                }
            },
            Pad::Dead => true,
        }
    }

    /// Whether the paddle is well formed.
    pub fn is_valid(&self) -> (r: bool)
        ensures
            r == self.wf(),
    {
        match *self {
            Pad::Alive { state, position, health } => {
                health <= MAX_HEALTH && position.is_valid() && match state {
                    PadState::Normal => health > 0,
                    PadState::Hurting(t) => health > 0 && t > 0,
                    PadState::Dying(t) => health == 0 && t > 0,
                }
            },
            Pad::Dead => true,
        }
    }

    /// A healthy paddle at `initial_position`.
    pub fn new(initial_position: PadPosition) -> (r: Pad)
        ensures
            r == (Pad::Alive { state: PadState::Normal, position: initial_position, health: MAX_HEALTH }),
    {
        Pad::Alive { state: PadState::Normal, position: initial_position, health: MAX_HEALTH }
    }

    /// Takes one hit.
    pub fn take_damage(&mut self)
        requires
            old(self).wf(),
        ensures
            final(self).wf(),
            *final(self) == damaged(*old(self)),
            match (*old(self), *final(self)) {
                (
                    Pad::Alive { state: s0, health: h0, position: p0 },
                    Pad::Alive { state: s1, health: h1, position: p1 },
                ) => {
                    &&& p1 == p0
                    &&& !(s0 is Dying) ==> h1 == h0 - 1
                    &&& h1 == 0 ==> s1 is Dying
                    &&& h1 > 0 ==> s1 == PadState::Hurting(HURT_DURATION_MS)
                },
                (Pad::Dead, Pad::Dead) => true,
                _ => false,
            },
    {
        match *self {
            Pad::Alive { state, position, health } => {
                if health > 0 {
                    let h = health - 1;
                    let next_state = if h == 0 {
                        PadState::Dying(DEATH_DURATION_MS)
                    } else {
                        PadState::Hurting(HURT_DURATION_MS)
                    };
                    *self = Pad::Alive { state: next_state, position, health: h };
                }
            },
            Pad::Dead => {},
        }
    }

    /// Advances the paddle by `delta_time_ms`: a normal paddle slides on, a
    /// hurt one counts down to normal, a dying one counts down to dead.
    pub fn update(&mut self, delta_time_ms: u64)
        requires
            old(self).wf(),
        ensures
            final(self).wf(),
            *final(self) == pad_after(*old(self), delta_time_ms as int),
    {
        match *self {
            Pad::Alive { state, mut position, health } => {
                match state {
                    PadState::Hurting(countdown) => {
                        if delta_time_ms as i128 >= countdown as i128 {
                            *self = Pad::Alive { state: PadState::Normal, position, health };
                        } else {
                            let left = countdown - delta_time_ms as i64;
                            *self = Pad::Alive { state: PadState::Hurting(left), position, health };
                        }
                    },
                    PadState::Dying(countdown) => {
                        if delta_time_ms as i128 >= countdown as i128 {
                            *self = Pad::Dead;
                        } else {
                            let left = countdown - delta_time_ms as i64;
                            *self = Pad::Alive { state: PadState::Dying(left), position, health };
                        }
                    },
                    PadState::Normal => {
                        position.update(delta_time_ms);
                        *self = Pad::Alive { state, position, health };
                    },
                }
            },
            Pad::Dead => {},
        }
    }

    /// Draws the paddle over the frame.
    pub fn draw(&self, dot_matrix: &mut DotMatrix)
        requires
            self.wf(),
        ensures
            final(dot_matrix)@ == pad_frame(old(dot_matrix)@, *self),
            final(dot_matrix).intensity_spec() == old(dot_matrix).intensity_spec(),
    {
        match *self {
            Pad::Alive { state, position, .. } => {
                match state {
                    PadState::Normal => position.draw(dot_matrix),
                    PadState::Hurting(countdown) => {
                        if countdown % BLINK_PERIOD_MS > BLINK_THRESHOLD_MS {
                            dot_matrix.fill();
                        }
                    },
                    PadState::Dying(countdown) => {
                        if countdown % BLINK_PERIOD_MS > BLINK_THRESHOLD_MS {
                            dot_matrix.fill();
                        }
                    },
                }
            },
            Pad::Dead => {},
        }
    }
}

/// Cycling the paddle position four times comes back to the same edge with the
/// slide started again, and the four positions on the way are on four
/// different edges.
pub proof fn lemma_next_cycles(p: PadPosition)
    ensures
        same_edge(next_position(next_position(next_position(next_position(p)))), p),
        slide_of(next_position(next_position(next_position(next_position(p))))) == 0,
        slide_of(next_position(p)) == 0,
        !same_edge(next_position(p), p),
        !same_edge(next_position(next_position(p)), p),
        !same_edge(next_position(next_position(next_position(p))), p),
        !same_edge(next_position(next_position(p)), next_position(p)),
        !same_edge(next_position(next_position(next_position(p))), next_position(p)),
        !same_edge(next_position(next_position(next_position(p))), next_position(next_position(p))),
{
}

/// A dying paddle with `t` milliseconds left is dead after a run of updates
/// exactly when the run adds up to at least `t`; before that it is still dying,
/// with `t` minus the elapsed time left.
pub proof fn lemma_dying_ends_on_time(t: i64, position: PadPosition, health: u8, dts: Seq<u64>)
    requires
        t > 0,
    ensures
        (pad_after_all(Pad::Alive { state: PadState::Dying(t), position, health }, dts) is Dead)
            <==> total_ms(dts) >= t,
        total_ms(dts) < t ==> pad_after_all(Pad::Alive { state: PadState::Dying(t), position, health }, dts)
            == (Pad::Alive { state: PadState::Dying((t - total_ms(dts)) as i64), position, health }),
    decreases dts.len(),
{
    let p0 = Pad::Alive { state: PadState::Dying(t), position, health };
    if dts.len() > 0 {
        let rest = dts.drop_last();
        lemma_dying_ends_on_time(t, position, health, rest);
        lemma_total_monotone(dts);
    }
}

/// Adding a step never shortens the total.
pub proof fn lemma_total_monotone(dts: Seq<u64>)
    requires
        dts.len() > 0,
    ensures
        total_ms(dts) >= total_ms(dts.drop_last()),
        total_ms(dts.drop_last()) >= 0,
    decreases dts.len(),
{
    if dts.len() > 1 {
        lemma_total_monotone(dts.drop_last());
    }
}

} // verus!
