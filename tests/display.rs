use matrix_pong::dot_matrix::{init_commands, DotMatrix, INITIAL_INTENSITY};

#[test]
fn put_fill_clear() {
    let mut d = DotMatrix::new();
    d.put(0, 0);
    d.put(7, 0);
    d.put(3, 5);
    assert_eq!(d.rows(), [0x81, 0, 0, 0, 0, 0x10, 0, 0]);
    d.fill();
    assert_eq!(d.rows(), [0xff; 8]);
    d.clear();
    assert_eq!(d.rows(), [0; 8]);
}

#[test]
fn draw_and_set_row() {
    let mut d = DotMatrix::new();
    d.fill();
    d.draw(&[1u8, 2, 3]);
    d.set_row(7, 0x42);
    assert_eq!(d.rows(), [1, 2, 3, 0xff, 0xff, 0xff, 0xff, 0x42]);
}

#[test]
fn shift_moves_right_and_rotates_down() {
    let mut d = DotMatrix::new();
    d.draw(&[0xf0u8, 0x0f, 0, 0, 0, 0, 0, 0x80]);
    d.shift(2, 1);
    assert_eq!(d.rows(), [0x20, 0x3c, 0x03, 0, 0, 0, 0, 0]);
    d.shift(0, 8);
    assert_eq!(d.rows(), [0x20, 0x3c, 0x03, 0, 0, 0, 0, 0]);
}

#[test]
fn flush_commands_address_rows_from_one() {
    let mut d = DotMatrix::new();
    d.set_row(0, 0xaa);
    d.set_row(7, 0x55);
    let cmds = d.flush_commands();
    assert_eq!(cmds.len(), 8);
    assert_eq!(cmds[0], [1, 0xaa]);
    assert_eq!(cmds[3], [4, 0]);
    assert_eq!(cmds[7], [8, 0x55]);
}

#[test]
fn intensity_is_sent_only_when_changed() {
    let mut d = DotMatrix::new();
    assert_eq!(d.intensity(), INITIAL_INTENSITY);
    assert_eq!(d.set_intensity(INITIAL_INTENSITY), None);
    assert_eq!(d.set_intensity(3), Some([0x0a, 3]));
    assert_eq!(d.intensity(), 3);
}

#[test]
fn init_sequence() {
    let cmds = init_commands(0x0f);
    assert_eq!(cmds.len(), 20);
    assert_eq!(cmds[0], [0, 0]);
    assert_eq!(cmds[15], [15, 0]);
    assert_eq!(cmds[16], [0x0c, 0x01]);
    assert_eq!(cmds[17], [0x09, 0x00]);
    assert_eq!(cmds[18], [0x0b, 0x07]);
    assert_eq!(cmds[19], [0x0a, 0x0f]);
}
