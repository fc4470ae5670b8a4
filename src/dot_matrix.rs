use vstd::prelude::*;

verus! {

/// Number of rows and columns of the LED matrix.
pub const MATRIX_SIZE: usize = 8;

/// Register address of the intensity setting of the display driver.
pub const REG_INTENSITY: u8 = 0x0A;
/// Register address of the shutdown (power) setting.
pub const REG_SHUTDOWN: u8 = 0x0C;
/// Register address of the digit decode mode.
pub const REG_DECODE_MODE: u8 = 0x09;
/// Register address of the scan limit.
pub const REG_SCAN_LIMIT: u8 = 0x0B;
/// Intensity the display starts with (the driver's maximum).
pub const INITIAL_INTENSITY: u8 = 0x0F;

/// The bit of a row byte that lights column `x` (column 0 is the most significant bit).
pub open spec fn column_bit(x: int) -> u8 {
    (0x80u8 >> (x as u8))
}

/// Row `i` of `rows` after shifting every row right by `dx` bits and rotating
/// the rows down by `dy`.
pub open spec fn shifted_row(rows: Seq<u8>, dx: int, dy: int, i: int) -> u8 {
    rows[(i - dy) % 8] >> (dx as u8)
}

/// The 8x8 frame that is sent to the LED matrix, one byte per row.
pub struct DotMatrix {
    buffer: [u8; 8],
    intensity: u8,
}

impl View for DotMatrix {
    type V = Seq<u8>;

    closed spec fn view(&self) -> Seq<u8> {
        self.buffer@
    }
}

impl DotMatrix {
    pub closed spec fn intensity_spec(&self) -> u8 {
        self.intensity
    }

    /// A blank frame at the initial intensity.
    pub fn new() -> (r: DotMatrix)
        ensures
            r@ == Seq::new(8, |i: int| 0u8),
            r.intensity_spec() == INITIAL_INTENSITY,
    {
        let r = DotMatrix { buffer: [0u8; 8], intensity: INITIAL_INTENSITY };
        assert(r@ =~= Seq::new(8, |i: int| 0u8));
        r
    }

    /// The current rows of the frame.
    pub fn rows(&self) -> (r: [u8; 8])
        ensures
            r@ == self@,
    {
        self.buffer
    }

    /// The current intensity setting.
    pub fn intensity(&self) -> (r: u8)
        ensures
            r == self.intensity_spec(),
    {
        self.intensity
    }

    /// Lights every pixel.
    pub fn fill(&mut self)
        ensures
            final(self)@ == Seq::new(8, |i: int| 0xffu8),
            final(self).intensity_spec() == old(self).intensity_spec(),
    {
        let mut i: usize = 0;
        while i < 8
            invariant
                0 <= i <= 8,
                self.buffer@.len() == 8,
                self.intensity == old(self).intensity,
                forall|j: int| 0 <= j < i ==> self.buffer@[j] == 0xffu8,
            decreases 8 - i,
        {
            self.buffer[i] = 0xff;
            i += 1;
        }
        assert(self@ =~= Seq::new(8, |i: int| 0xffu8));
    }

    /// Switches every pixel off.
    pub fn clear(&mut self)
        ensures
            final(self)@ == Seq::new(8, |i: int| 0u8),
            final(self).intensity_spec() == old(self).intensity_spec(),
    {
        let mut i: usize = 0;
        while i < 8
            invariant
                0 <= i <= 8,
                self.buffer@.len() == 8,
                self.intensity == old(self).intensity,
                forall|j: int| 0 <= j < i ==> self.buffer@[j] == 0u8,
            decreases 8 - i,
        {
            self.buffer[i] = 0;
            i += 1;
        }
        assert(self@ =~= Seq::new(8, |i: int| 0u8));
    }

    /// Lights the pixel in column `x` of row `y`.
    pub fn put(&mut self, x: u8, y: u8)
        requires
            x < 8,
            y < 8,
        ensures
            final(self)@ == old(self)@.update(y as int, old(self)@[y as int] | column_bit(x as int)),
            final(self).intensity_spec() == old(self).intensity_spec(),
    {
        let yi = y as usize;
        self.buffer[yi] = self.buffer[yi] | (0x80u8 >> x);
    }

    /// Replaces row `row` with `row_data`.
    pub fn set_row(&mut self, row: u8, row_data: u8)
        requires
            row < 8,
        ensures
            final(self)@ == old(self)@.update(row as int, row_data),
            final(self).intensity_spec() == old(self).intensity_spec(),
    {
        self.buffer[row as usize] = row_data;
    }

    /// Copies `bitmap` over the first rows of the frame.
    pub fn draw<const ROWS: usize>(&mut self, bitmap: &[u8; ROWS])
        requires
            ROWS <= 8,
        ensures
            final(self)@.len() == 8,
            forall|i: int| 0 <= i < ROWS ==> final(self)@[i] == bitmap@[i],
            forall|i: int| ROWS <= i < 8 ==> final(self)@[i] == old(self)@[i],
            final(self).intensity_spec() == old(self).intensity_spec(),
    {
        let mut i: usize = 0;
        while i < ROWS
            invariant
                0 <= i <= ROWS,
                ROWS <= 8,
                bitmap@.len() == ROWS,
                self.buffer@.len() == 8,
                self.intensity == old(self).intensity,
                forall|j: int| 0 <= j < i ==> self.buffer@[j] == bitmap@[j],
                forall|j: int| i <= j < 8 ==> self.buffer@[j] == old(self).buffer@[j],
            decreases ROWS - i,
        {
            self.buffer[i] = bitmap[i];
            i += 1;
        }
    }

    /// Every frame has eight rows.
    pub proof fn lemma_rows_len(&self)
        ensures
            self@.len() == 8,
    {
    }

    /// Shifts every row right by `x` bits (pixels move towards higher columns and
    /// fall off the edge) and rotates the rows down by `y`.
    pub fn shift(&mut self, x: u8, y: u8)
        requires
            x < 8,
            y <= 8,
        ensures
            final(self)@.len() == 8,
            forall|i: int|
                0 <= i < 8 ==> #[trigger] final(self)@[i] == shifted_row(old(self)@, x as int, y as int, i),
            final(self).intensity_spec() == old(self).intensity_spec(),
    {
        let old_rows = self.buffer;
        let mut i: usize = 0;
        while i < 8
            invariant
                0 <= i <= 8,
                x < 8,
                y <= 8,
                old_rows@ == old(self)@,
                self.buffer@.len() == 8,
                self.intensity == old(self).intensity,
                forall|j: int| 0 <= j < i ==> #[trigger] self.buffer@[j] == shifted_row(old_rows@, x as int, y as int, j),
            decreases 8 - i,
        {
            let src: usize = (i + 8 - y as usize) % 8;
            assert(src as int == (i as int - y as int) % 8);
            self.buffer[i] = old_rows[src] >> x;
            i += 1;
        }
    }

    /// The register writes that transmit the frame: row `i` goes to digit register `i + 1`.
    pub fn flush_commands(&self) -> (r: Vec<[u8; 2]>)
        ensures
            r@.len() == 8,
            forall|i: int| 0 <= i < 8 ==> #[trigger] r@[i]@ == seq![(i + 1) as u8, self@[i]],
    {
        let mut r: Vec<[u8; 2]> = Vec::new();
        let mut i: u8 = 0;
        while i < 8
            invariant
                0 <= i <= 8,
                self.buffer@.len() == 8,
                r@.len() == i,
                forall|j: int| 0 <= j < i ==> #[trigger] r@[j]@ == seq![(j + 1) as u8, self@[j]],
            decreases 8 - i,
        {
            let cmd: [u8; 2] = [i + 1, self.buffer[i as usize]];
            assert(cmd@ =~= seq![(i + 1) as u8, self@[i as int]]);
            r.push(cmd);
            i += 1;
        }
        r
    }

    /// Records a new intensity; returns the register write to send when it changed.
    pub fn set_intensity(&mut self, intensity: u8) -> (r: Option<[u8; 2]>)
        ensures
            final(self)@ == old(self)@,
            final(self).intensity_spec() == intensity,
            old(self).intensity_spec() == intensity ==> r.is_none(),
            old(self).intensity_spec() != intensity ==> r.is_some() && r.unwrap()@ == seq![REG_INTENSITY, intensity],
    {
        if self.intensity != intensity {
            self.intensity = intensity;
            let cmd: [u8; 2] = [REG_INTENSITY, intensity];
            assert(cmd@ =~= seq![REG_INTENSITY, intensity]);
            Some(cmd)
        } else {
            None
        }
    }
}

/// The register writes that bring the display up: every register from 0 to 15
/// cleared, then power up, no digit decoding, all eight rows scanned, and the
/// given intensity.
pub fn init_commands(initial_intensity: u8) -> (r: Vec<[u8; 2]>)
    ensures
        r@.len() == 20,
        forall|i: int| 0 <= i < 16 ==> #[trigger] r@[i]@ == seq![i as u8, 0u8],
        r@[16]@ == seq![REG_SHUTDOWN, 0x01u8],
        r@[17]@ == seq![REG_DECODE_MODE, 0x00u8],
        r@[18]@ == seq![REG_SCAN_LIMIT, 0x07u8],
        r@[19]@ == seq![REG_INTENSITY, initial_intensity],
{
    let mut r: Vec<[u8; 2]> = Vec::new();
    let mut cmd: u8 = 0;
    while cmd < 16
        invariant
            0 <= cmd <= 16,
            r@.len() == cmd,
            forall|i: int| 0 <= i < cmd ==> #[trigger] r@[i]@ == seq![i as u8, 0u8],
        decreases 16 - cmd,
    {
        let c: [u8; 2] = [cmd, 0x00];
        assert(c@ =~= seq![cmd, 0u8]);
        r.push(c);
        cmd += 1;
    }
    let c0: [u8; 2] = [REG_SHUTDOWN, 0x01];
    let c1: [u8; 2] = [REG_DECODE_MODE, 0x00];
    let c2: [u8; 2] = [REG_SCAN_LIMIT, 0x07];
    let c3: [u8; 2] = [REG_INTENSITY, initial_intensity];
    assert(c0@ =~= seq![REG_SHUTDOWN, 0x01u8]);
    assert(c1@ =~= seq![REG_DECODE_MODE, 0x00u8]);
    assert(c2@ =~= seq![REG_SCAN_LIMIT, 0x07u8]);
    assert(c3@ =~= seq![REG_INTENSITY, initial_intensity]);
    r.push(c0);
    r.push(c1);
    r.push(c2);
    r.push(c3);
    r
}

} // verus!
