use matrix_pong::dot_matrix::DotMatrix;
use matrix_pong::pad::{Pad, PadPosition, PadState, DEATH_DURATION_MS, HURT_DURATION_MS, MAX_HEALTH};

fn edge(p: &PadPosition) -> u8 {
    match p {
        PadPosition::Left(_) => 0,
        PadPosition::Top(_) => 1,
        PadPosition::Right(_) => 2,
        PadPosition::Bottom(_) => 3,
    }
}

#[test]
fn next_cycles_through_four_edges() {
    let start = PadPosition::Left(700);
    let mut p = start;
    let mut seen = Vec::new();
    for _ in 0..4 {
        p.next();
        seen.push(edge(&p));
        match p {
            PadPosition::Left(s) | PadPosition::Right(s) | PadPosition::Top(s) | PadPosition::Bottom(s) => {
                assert_eq!(s, 0)
            }
        }
    }
    assert_eq!(seen, vec![1, 2, 3, 0]);
    assert_eq!(p, PadPosition::Left(0));
}

#[test]
fn take_damage_counts_down_to_dying() {
    let mut pad = Pad::new(PadPosition::Bottom(1000));
    for expected in (1..MAX_HEALTH).rev() {
        pad.take_damage();
        match pad {
            Pad::Alive { state, health, .. } => {
                assert_eq!(health, expected);
                assert_eq!(state, PadState::Hurting(HURT_DURATION_MS));
            }
            Pad::Dead => panic!("dead too early"),
        }
    }
    pad.take_damage();
    assert_eq!(
        pad,
        Pad::Alive { state: PadState::Dying(DEATH_DURATION_MS), position: PadPosition::Bottom(1000), health: 0 }
    );
    // A dying paddle takes no more damage.
    pad.take_damage();
    assert_eq!(
        pad,
        Pad::Alive { state: PadState::Dying(DEATH_DURATION_MS), position: PadPosition::Bottom(1000), health: 0 }
    );
}

#[test]
fn dead_pad_ignores_damage() {
    let mut pad = Pad::Dead;
    pad.take_damage();
    assert_eq!(pad, Pad::Dead);
}

#[test]
fn dying_ends_exactly_on_time() {
    let mut pad = Pad::Alive { state: PadState::Dying(1120), position: PadPosition::Top(1000), health: 0 };
    for _ in 0..69 {
        pad.update(16);
    }
    assert_eq!(pad, Pad::Alive { state: PadState::Dying(16), position: PadPosition::Top(1000), health: 0 });
    pad.update(15);
    assert_eq!(pad, Pad::Alive { state: PadState::Dying(1), position: PadPosition::Top(1000), health: 0 });
    pad.update(1);
    assert_eq!(pad, Pad::Dead);
    pad.update(100);
    assert_eq!(pad, Pad::Dead);
}

#[test]
fn hurting_returns_to_normal() {
    let mut pad = Pad::Alive { state: PadState::Hurting(160), position: PadPosition::Left(1000), health: 2 };
    pad.update(100);
    assert_eq!(pad, Pad::Alive { state: PadState::Hurting(60), position: PadPosition::Left(1000), health: 2 });
    pad.update(u64::MAX);
    assert_eq!(pad, Pad::Alive { state: PadState::Normal, position: PadPosition::Left(1000), health: 2 });
}

#[test]
fn slide_grows_and_stops_at_full() {
    let mut p = PadPosition::Right(0);
    p.update(16);
    assert_eq!(p, PadPosition::Right(144));
    p.update(100);
    assert_eq!(p, PadPosition::Right(1000));
    let mut q = PadPosition::Top(10);
    q.update(u64::MAX);
    assert_eq!(q, PadPosition::Top(1000));
}

#[test]
fn normal_pad_update_advances_slide() {
    let mut pad = Pad::new(PadPosition::Bottom(0));
    pad.update(10);
    assert_eq!(pad, Pad::new(PadPosition::Bottom(90)));
}

#[test]
fn to_pixels_is_cubic() {
    assert_eq!(PadPosition::to_pixels(0), 0);
    assert_eq!(PadPosition::to_pixels(500), 0);
    assert_eq!(PadPosition::to_pixels(800), 3);
    assert_eq!(PadPosition::to_pixels(900), 5);
    assert_eq!(PadPosition::to_pixels(1000), 7);
}

#[test]
fn bottom_bar_in_place_fills_last_row() {
    let mut d = DotMatrix::new();
    PadPosition::Bottom(1000).draw(&mut d);
    assert_eq!(d.rows(), [0, 0, 0, 0, 0, 0, 0, 0xff]);
}

#[test]
fn top_bar_just_moved_is_the_left_column() {
    let mut d = DotMatrix::new();
    PadPosition::Top(0).draw(&mut d);
    assert_eq!(d.rows(), [0x80; 8]);
}

#[test]
fn left_bar_halfway() {
    // slide 800 gives 3 pixels: rows 4 to 7 of column 0, and 0xff << 3 on row 7.
    let mut d = DotMatrix::new();
    PadPosition::Left(800).draw(&mut d);
    assert_eq!(d.rows(), [0, 0, 0, 0, 0x80, 0x80, 0x80, 0xf8]);
}

#[test]
fn right_bar_halfway() {
    // 3 pixels: row 0 is 0xff >> 3, column 7 lit on rows 0 to 3.
    let mut d = DotMatrix::new();
    PadPosition::Right(800).draw(&mut d);
    assert_eq!(d.rows(), [0x1f, 0x01, 0x01, 0x01, 0, 0, 0, 0]);
}

#[test]
fn hurt_pad_blinks_on_countdown() {
    let mut d = DotMatrix::new();
    Pad::Alive { state: PadState::Hurting(160), position: PadPosition::Bottom(1000), health: 3 }.draw(&mut d);
    assert_eq!(d.rows(), [0; 8]);
    Pad::Alive { state: PadState::Hurting(130), position: PadPosition::Bottom(1000), health: 3 }.draw(&mut d);
    assert_eq!(d.rows(), [0xff; 8]);
    let mut e = DotMatrix::new();
    Pad::Dead.draw(&mut e);
    assert_eq!(e.rows(), [0; 8]);
}
