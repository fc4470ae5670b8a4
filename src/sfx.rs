use vstd::prelude::*;

verus! {

/// Sample rate of the audio output, in frames per second.
pub const SAMPLE_RATE: u32 = 8000;
/// Frames rendered per chunk of a tone.
pub const CHUNK_FRAMES: usize = 128;
/// Full scale of a Q15 gain (1.0).
pub const Q15_ONE: u16 = 0x7FFF;
/// Multiplier of the noise generator.
pub const LCG_MUL: u32 = 1664525;
/// Increment of the noise generator.
pub const LCG_INC: u32 = 1013904223;
/// Seed of the noise generator of every tone.
pub const NOISE_SEED: u32 = 0xC0FFEE;

/// `x` limited to the signed 16-bit range.
pub open spec fn clamp_i16(x: int) -> int {
    if x < -32768 {
        -32768
    } else if x > 32767 {
        32767
    } else {
        x
    }
}

/// Q15 product: `a * b / 2^15`, rounded down (an arithmetic shift right by 15).
pub open spec fn q15(a: int, b: int) -> int {
    (a * b) / 32768
}

/// Saturates a 32-bit value to the signed 16-bit range.
pub fn sat_i16(x: i32) -> (r: i16)
    ensures
        r as int == clamp_i16(x as int),
{
    if x < -32768 {
        -32768
    } else if x > 32767 {
        32767
    } else {
        x as i16
    }
}

/// `(a * b) >> 15`.
fn q15_mul(a: i64, b: i64) -> (r: i64)
    requires
        -0x8000_0000 <= a <= 0x8000_0000,
        -0x8000_0000 <= b <= 0x8000_0000,
    ensures
        r as int == q15(a as int, b as int),
{
    proof {
        assert(-0x4000_0000_0000_0000 <= a * b <= 0x4000_0000_0000_0000) by (nonlinear_arith)
            requires
                -0x8000_0000 <= a <= 0x8000_0000,
                -0x8000_0000 <= b <= 0x8000_0000;
    }
    let p = a * b;
    assert((p >> 15u64) == p / 32768) by (bit_vector);
    p >> 15u64
}

/// Shape of a tone.
#[derive(Clone, Copy, Debug, PartialEq, Eq, Structural)]
pub enum Wave {
    Sine,
    Square,
    Saw,
    Tri,
    Noise,
}

/// An amplitude envelope: attack, decay and release times in milliseconds,
/// and the sustain level in Q15.
#[derive(Clone, Copy, Debug, PartialEq, Eq, Structural)]
pub struct Adsrs {
    pub a_ms: u32,
    pub d_ms: u32,
    pub s_lvl_q15: u16,
    pub r_ms: u32,
}

impl Adsrs {
    /// The short envelope of a beep.
    pub fn beep() -> (r: Adsrs)
        ensures
            r == (Adsrs { a_ms: 4, d_ms: 30, s_lvl_q15: 0x6000, r_ms: 60 }),
    {
        Adsrs { a_ms: 4, d_ms: 30, s_lvl_q15: 0x6000, r_ms: 60 }
    }

    /// The envelope of a noise burst.
    pub fn burst() -> (r: Adsrs)
        ensures
            r == (Adsrs { a_ms: 1, d_ms: 30, s_lvl_q15: 0x3000, r_ms: 60 }),
    {
        Adsrs { a_ms: 1, d_ms: 30, s_lvl_q15: 0x3000, r_ms: 60 }
    }

    /// The envelope of a plucked note.
    pub fn pluck() -> (r: Adsrs)
        ensures
            r == (Adsrs { a_ms: 1, d_ms: 80, s_lvl_q15: 0x2000, r_ms: 40 }),
    {
        Adsrs { a_ms: 1, d_ms: 80, s_lvl_q15: 0x2000, r_ms: 40 }
    }
}

/// One step of the noise generator, modulo 2^32.
pub open spec fn lcg_step(s: u32) -> u32 {
    ((s * LCG_MUL + LCG_INC) % 0x1_0000_0000) as u32
}

/// State of the noise generator after `k` steps from `s`.
pub open spec fn lcg_nth(s: u32, k: nat) -> u32
    decreases k,
{
    if k == 0 {
        s
    } else {
        lcg_step(lcg_nth(s, (k - 1) as nat))
    }
}

/// A linear congruential generator for noise.
#[derive(Clone, Copy, Debug)]
pub struct Lcg(pub u32);

impl Lcg {
    /// A generator seeded with `seed`, made odd.
    pub fn new(seed: u32) -> (r: Lcg)
        ensures
            r.0 == (seed | 1),
    {
        Lcg(seed | 1)
    }

    /// Steps the generator and returns its new state.
    pub fn next(&mut self) -> (r: u32)
        ensures
            r == lcg_step(old(self).0),
            final(self).0 == r,
    {
        let s = self.0 as u64;
        proof {
            assert(s * 1664525 <= 0xffff_ffff * 1664525) by (nonlinear_arith)
                requires s <= 0xffff_ffff;
        }
        let n = ((self.0 as u64) * (LCG_MUL as u64) + (LCG_INC as u64)) % 0x1_0000_0000u64;
        self.0 = n as u32;
        self.0
    }
}

/// Left and right gains in Q15 for a pan position (`-32768` full left,
/// `32767` full right): a linear crossfade.
pub open spec fn pan_left(pan: int) -> int {
    (65535 - (pan + 32768)) / 2
}

pub open spec fn pan_right(pan: int) -> int {
    (pan + 32768) / 2
}

/// Left and right Q15 gains for `pan_q15`.
pub fn pan_gains_q15(pan_q15: i16) -> (r: (u16, u16))
    ensures
        r.0 as int == pan_left(pan_q15 as int),
        r.1 as int == pan_right(pan_q15 as int),
{
    let p = (pan_q15 as i32 + 32768) as u32;
    let l = 65535u32 - p;
    ((l / 2) as u16, (p / 2) as u16)
}

/// Frames in `ms` milliseconds at the sample rate.
pub open spec fn frames_in(ms: int) -> int {
    ms * SAMPLE_RATE / 1000
}

/// Frames in `ms` milliseconds.
pub fn frames_for_ms(ms: u32) -> (r: u64)
    ensures
        r as int == frames_in(ms as int),
{
    proof {
        assert(ms * 8000 <= 0xffff_ffff * 8000) by (nonlinear_arith)
            requires ms <= 0xffff_ffff;
    }
    (ms as u64 * SAMPLE_RATE as u64) / 1000
}

/// One note of a sequence: what `Tone::new` needs, plus the pitch.
#[derive(Clone, Copy, Debug, PartialEq, Eq, Structural)]
pub struct Note {
    pub wave: Wave,
    pub freq_hz: u32,
    pub duration_ms: u32,
    pub gain_q15: u16,
    pub pan_q15: i16,
    pub env: Option<Adsrs>,
}

/// Gain of the background pattern.
pub const PATTERN_GAIN: u16 = 0x1000;

/// The envelope of a note of the background pattern, with release `r_ms`.
pub open spec fn pad_env(r_ms: u32) -> Adsrs {
    Adsrs { a_ms: 80, d_ms: 600, s_lvl_q15: 0, r_ms }
}

/// The background pattern: three soft triangle notes of 1.2 s each, rising
/// from 220 Hz through 247 Hz to 262 Hz, centred.
pub fn pattern_demo_notes() -> (r: Vec<Note>)
    ensures
        r@ == seq![
            Note { wave: Wave::Tri, freq_hz: 220, duration_ms: 1200, gain_q15: PATTERN_GAIN, pan_q15: 0, env: Some(pad_env(100)) },
            Note { wave: Wave::Tri, freq_hz: 247, duration_ms: 1200, gain_q15: PATTERN_GAIN, pan_q15: 0, env: Some(pad_env(300)) },
            Note { wave: Wave::Tri, freq_hz: 262, duration_ms: 1200, gain_q15: PATTERN_GAIN, pan_q15: 0, env: Some(pad_env(300)) },
        ],
{
    let mut r: Vec<Note> = Vec::new();
    r.push(
        Note {
            wave: Wave::Tri,
            freq_hz: 220,
            duration_ms: 1200,
            gain_q15: PATTERN_GAIN,
            pan_q15: 0,
            env: Some(Adsrs { a_ms: 80, d_ms: 600, s_lvl_q15: 0, r_ms: 100 }),
        },
    );
    r.push(
        Note {
            wave: Wave::Tri,
            freq_hz: 247,
            duration_ms: 1200,
            gain_q15: PATTERN_GAIN,
            pan_q15: 0,
            env: Some(Adsrs { a_ms: 80, d_ms: 600, s_lvl_q15: 0, r_ms: 300 }),
        },
    );
    r.push(
        Note {
            wave: Wave::Tri,
            freq_hz: 262,
            duration_ms: 1200,
            gain_q15: PATTERN_GAIN,
            pan_q15: 0,
            env: Some(Adsrs { a_ms: 80, d_ms: 600, s_lvl_q15: 0, r_ms: 300 }),
        },
    );
    r
}

/// `a - b`, or 0 when `b > a`.
pub open spec fn sat_sub(a: int, b: int) -> int {
    if a >= b {
        a - b
    } else {
        0
    }
}

/// Q15 level of the envelope at frame `idx` of a tone of `total` frames.
/// Without an envelope the level is full scale. With one, it ramps linearly
/// from 0 to full scale over the attack, down to the sustain level over the
/// decay, holds until the release starts `r` frames before the end, then
/// ramps from the sustain level towards 0.
pub open spec fn envelope(env: Option<Adsrs>, idx: int, total: int) -> int {
    match env {
        None => Q15_ONE as int,
        Some(e) => {
            let a = frames_in(e.a_ms as int);
            let d = frames_in(e.d_ms as int);
            let r = frames_in(e.r_ms as int);
            let s = e.s_lvl_q15 as int;
            if idx < a {
                idx * Q15_ONE / a
            } else if idx < a + d {
                Q15_ONE - (Q15_ONE - s) * (idx - a) / d
            } else if idx < sat_sub(total, r) {
                s
            } else {
                let t = idx - sat_sub(total, r);
                let rr = if r == 0 { 1 } else { r };
                if s * t / rr >= s {
                    0
                } else {
                    s - s * t / rr
                }
            }
        },
    }
}

/// The envelope's sustain level is at most full scale.
pub open spec fn env_ok(env: Option<Adsrs>) -> bool {
    match env {
        Some(e) => e.s_lvl_q15 <= Q15_ONE,
        None => true,
    }
}

/// Q15 envelope level at frame `idx` of a tone of `total_frames` frames.
pub fn envelope_q15(env: Option<Adsrs>, idx: u64, total_frames: u64) -> (r: u16)
    requires
        env_ok(env),
        idx < total_frames,
    ensures
        r as int == envelope(env, idx as int, total_frames as int),
        r <= Q15_ONE,
{
    match env {
        None => Q15_ONE,
        Some(e) => {
            let a = frames_for_ms(e.a_ms);
            let d = frames_for_ms(e.d_ms);
            let r = frames_for_ms(e.r_ms);
            let s = e.s_lvl_q15 as u64;
            let rel_start = if total_frames >= r { total_frames - r } else { 0 };
            if idx < a {
                proof {
                    assert(idx * 0x7FFF <= a * 0x7FFF) by (nonlinear_arith)
                        requires idx < a;
                    assert(idx * 0x7FFF / (a as int) < 0x7FFF) by (nonlinear_arith)
                        requires idx < a;
                }
                (idx * 0x7FFF / a) as u16
            } else if idx < a + d {
                let t = idx - a;
                proof {
                    assert((0x7FFF - s) * t <= 0x7FFF * t) by (nonlinear_arith)
                        requires s <= 0x7FFF;
                    assert(0x7FFF * t <= 0x7FFF * 0x1_0000_0000_0000) by (nonlinear_arith)
                        requires t <= 0x1_0000_0000_0000;
                    assert((0x7FFF - s) * t / (d as int) <= 0x7FFF - s) by (nonlinear_arith)
                        requires t < d, s <= 0x7FFF;
                }
                (0x7FFF - (0x7FFF - s) * t / d) as u16
            } else if idx < rel_start {
                s as u16
            } else {
                let t = idx - rel_start;
                let rr = if r == 0 { 1 } else { r };
                proof {
                    assert(s * t <= 0x7FFF * 0x1_0000_0000_0000) by (nonlinear_arith)
                        requires s <= 0x7FFF, t <= 0x1_0000_0000_0000;
                }
                let dec = s * t / rr;
                if dec >= s {
                    0
                } else {
                    (s - dec) as u16
                }
            }
        },
    }
}

/// The noise sample of generator state `st`: bits 9 to 24 of the state as a
/// signed 16-bit value, scaled by `32767 / 32768` and rounded towards zero.
pub open spec fn noise_value(st: u32) -> int {
    let u = (st as int / 512) % 65536;
    let v = if u >= 32768 { u - 65536 } else { u };
    if v >= 0 {
        v * 32767 / 32768
    } else {
        -((-v) * 32767 / 32768)
    }
}

/// Noise sample of generator state `st`.
pub fn noise_sample(st: u32) -> (r: i32)
    ensures
        r as int == noise_value(st),
        -32767 <= r <= 32767,
{
    let u = (st / 512) % 65536;
    let v: i32 = if u >= 32768 { u as i32 - 65536 } else { u as i32 };
    if v >= 0 {
        v * 32767 / 32768
    } else {
        -((-v) * 32767 / 32768)
    }
}

/// Left and right output of one frame: the oscillator value `x` (full scale
/// 32767) scaled by the tone's gain and the envelope level, then by each
/// side's pan gain, each saturated to 16 bits.
pub open spec fn frame_out(x: int, gain: int, env_q15: int, gl: int, gr: int) -> (int, int) {
    let s = q15(q15(x, gain), env_q15);
    (clamp_i16(q15(s, gl)), clamp_i16(q15(s, gr)))
}

/// One output frame.
pub fn render_frame(x: i32, gain_q15: u16, env_q15: u16, left_gain: u16, right_gain: u16) -> (r: (i16, i16))
    requires
        -32768 <= x <= 32768,
    ensures
        (r.0 as int, r.1 as int) == frame_out(
            x as int,
            gain_q15 as int,
            env_q15 as int,
            left_gain as int,
            right_gain as int,
        ),
{
    let a = q15_mul(x as i64, gain_q15 as i64);
    proof {
        assert(-0x8000 * 0x10000 <= x * gain_q15 <= 0x8000 * 0x10000) by (nonlinear_arith)
            requires -32768 <= x <= 32768, 0 <= gain_q15 <= 0xffff;
    }
    let s = q15_mul(a, env_q15 as i64);
    proof {
        assert(-0x10000 * 0x10000 <= a * env_q15 <= 0x10000 * 0x10000) by (nonlinear_arith)
            requires -0x10000 <= a <= 0x10000, 0 <= env_q15 <= 0xffff;
    }
    let l = q15_mul(s, left_gain as i64);
    let r = q15_mul(s, right_gain as i64);
    proof {
        assert(-0x20000 * 0x10000 <= s * left_gain <= 0x20000 * 0x10000) by (nonlinear_arith)
            requires -0x20000 <= s <= 0x20000, 0 <= left_gain <= 0xffff;
        assert(-0x20000 * 0x10000 <= s * right_gain <= 0x20000 * 0x10000) by (nonlinear_arith)
            requires -0x20000 <= s <= 0x20000, 0 <= right_gain <= 0xffff;
    }
    (sat_i16(l as i32), sat_i16(r as i32))
}

/// Oscillator value of frame `i` of a chunk: the noise generator for noise,
/// else the value handed in.
pub open spec fn chunk_input(wave: Wave, noise0: u32, osc: Seq<i32>, i: int) -> int {
    if wave is Noise {
        noise_value(lcg_nth(noise0, (i + 1) as nat))
    } else {
        osc[i] as int
    }
}

/// A tone being rendered: its parameters and how many frames are done.
#[derive(Clone, Copy, Debug)]
pub struct Tone {
    pub wave: Wave,
    pub gain_q15: u16,
    pub left_gain: u16,
    pub right_gain: u16,
    pub env: Option<Adsrs>,
    pub total_frames: u64,
    pub done: u64,
    pub noise: Lcg,
}

impl Tone {
    pub open spec fn wf(&self) -> bool {
        self.done <= self.total_frames && env_ok(self.env)
    }

    /// Frames of the next chunk.
    pub open spec fn chunk_spec(&self) -> int {
        if self.total_frames - self.done < CHUNK_FRAMES {
            self.total_frames - self.done
        } else {
            CHUNK_FRAMES as int
        }
    }

    /// A tone of `duration_ms` with the given gain, pan and optional envelope,
    /// at its first frame.
    pub fn new(wave: Wave, duration_ms: u32, gain_q15: u16, pan_q15: i16, env: Option<Adsrs>) -> (r: Tone)
        requires
            env_ok(env),
        ensures
            r.wf(),
            r.wave == wave,
            r.gain_q15 == gain_q15,
            r.left_gain == pan_left(pan_q15 as int),
            r.right_gain == pan_right(pan_q15 as int),
            r.env == env,
            r.total_frames == frames_in(duration_ms as int),
            r.done == 0,
            r.noise.0 == (NOISE_SEED | 1),
    {
        let (gl, gr) = pan_gains_q15(pan_q15);
        Tone {
            wave,
            gain_q15,
            left_gain: gl,
            right_gain: gr,
            env,
            total_frames: frames_for_ms(duration_ms),
            done: 0,
            noise: Lcg::new(NOISE_SEED),
        }
    }

    /// Whether every frame has been rendered.
    pub fn is_done(&self) -> (r: bool)
        ensures
            r == (self.done >= self.total_frames),
    {
        self.done >= self.total_frames
    }

    /// Frames of the next chunk: `CHUNK_FRAMES`, or what is left if that is less.
    pub fn chunk_len(&self) -> (r: usize)
        requires
            self.wf(),
        ensures
            r as int == self.chunk_spec(),
    {
        let left = self.total_frames - self.done;
        if left < CHUNK_FRAMES as u64 {
            left as usize
        } else {
            CHUNK_FRAMES
        }
    }

    /// Renders the next chunk. `osc` holds the oscillator value of each of its
    /// frames (full scale 32767); a noise tone draws them from its own generator.
    pub fn render_chunk(&mut self, osc: &[i32]) -> (r: Vec<(i16, i16)>)
        requires
            old(self).wf(),
            old(self).wave is Noise || osc@.len() == old(self).chunk_spec(),
            forall|i: int| 0 <= i < osc@.len() ==> -32767 <= #[trigger] osc@[i] <= 32767,
        ensures
            final(self).wf(),
            r@.len() == old(self).chunk_spec(),
            final(self).done == old(self).done + old(self).chunk_spec(),
            final(self).noise.0 == if old(self).wave is Noise {
                lcg_nth(old(self).noise.0, old(self).chunk_spec() as nat)
            } else {
                old(self).noise.0
            },
            final(self).wave == old(self).wave,
            final(self).gain_q15 == old(self).gain_q15,
            final(self).left_gain == old(self).left_gain,
            final(self).right_gain == old(self).right_gain,
            final(self).env == old(self).env,
            final(self).total_frames == old(self).total_frames,
            forall|i: int|
                0 <= i < r@.len() ==> ((#[trigger] r@[i]).0 as int, r@[i].1 as int) == frame_out(
                    chunk_input(old(self).wave, old(self).noise.0, osc@, i),
                    old(self).gain_q15 as int,
                    envelope(old(self).env, old(self).done + i, old(self).total_frames as int),
                    old(self).left_gain as int,
                    old(self).right_gain as int,
                ),
    {
        let n = self.chunk_len();
        let noise0 = self.noise.0;
        let mut out: Vec<(i16, i16)> = Vec::new();
        let mut i: usize = 0;
        while i < n
            invariant
                0 <= i <= n,
                n as int == old(self).chunk_spec(),
                old(self).wf(),
                old(self).wave is Noise || osc@.len() == n,
                forall|k: int| 0 <= k < osc@.len() ==> -32767 <= #[trigger] osc@[k] <= 32767,
                noise0 == old(self).noise.0,
                self.noise.0 == if old(self).wave is Noise { lcg_nth(noise0, i as nat) } else { noise0 },
                self.wave == old(self).wave,
                self.gain_q15 == old(self).gain_q15,
                self.left_gain == old(self).left_gain,
                self.right_gain == old(self).right_gain,
                self.env == old(self).env,
                self.total_frames == old(self).total_frames,
                self.done == old(self).done,
                out@.len() == i,
                forall|k: int|
                    0 <= k < i ==> ((#[trigger] out@[k]).0 as int, out@[k].1 as int) == frame_out(
                        chunk_input(old(self).wave, noise0, osc@, k),
                        old(self).gain_q15 as int,
                        envelope(old(self).env, old(self).done + k, old(self).total_frames as int),
                        old(self).left_gain as int,
                        old(self).right_gain as int,
                    ),
            decreases n - i,
        {
            let x: i32 = match self.wave {
                Wave::Noise => {
                    let st = self.noise.next();
                    noise_sample(st)
                },
                _ => osc[i],
            };
            let idx = self.done + i as u64;
            let env_q15 = envelope_q15(self.env, idx, self.total_frames);
            let frame = render_frame(x, self.gain_q15, env_q15, self.left_gain, self.right_gain);
            out.push(frame);
            i += 1;
        }
        self.done = self.done + n as u64;
        out
    }
}

/// Little-endian bytes of a 16-bit sample.
pub open spec fn le_lo(v: int) -> u8 {
    ((if v < 0 { v + 65536 } else { v }) % 256) as u8
}

pub open spec fn le_hi(v: int) -> u8 {
    ((if v < 0 { v + 65536 } else { v }) / 256) as u8
}

/// Interleaved little-endian bytes of stereo frames, four per frame: left, then right.
pub fn encode_frames(frames: &[(i16, i16)]) -> (r: Vec<u8>)
    requires
        frames@.len() * 4 <= usize::MAX,
    ensures
        r@.len() == 4 * frames@.len(),
        forall|i: int|
            0 <= i < frames@.len() ==> {
                &&& r@[4 * i] == le_lo((#[trigger] frames@[i]).0 as int)
                &&& r@[4 * i + 1] == le_hi(frames@[i].0 as int)
                &&& r@[4 * i + 2] == le_lo(frames@[i].1 as int)
                &&& r@[4 * i + 3] == le_hi(frames@[i].1 as int)
            },
{
    let mut out: Vec<u8> = Vec::new();
    let mut i: usize = 0;
    while i < frames.len()
        invariant
            0 <= i <= frames@.len(),
            frames@.len() * 4 <= usize::MAX,
            out@.len() == 4 * i,
            forall|k: int|
                0 <= k < i ==> {
                    &&& out@[4 * k] == le_lo((#[trigger] frames@[k]).0 as int)
                    &&& out@[4 * k + 1] == le_hi(frames@[k].0 as int)
                    &&& out@[4 * k + 2] == le_lo(frames@[k].1 as int)
                    &&& out@[4 * k + 3] == le_hi(frames@[k].1 as int)
                },
        decreases frames@.len() - i,
    {
        let (l, r) = frames[i];
        let lb = le_bytes(l);
        let rb = le_bytes(r);
        out.push(lb.0);
        out.push(lb.1);
        out.push(rb.0);
        out.push(rb.1);
        i += 1;
    }
    out
}

/// Fills `buf` with whole stereo frames: frame `i` in bytes `4 i .. 4 i + 4`,
/// little-endian, left then right; the bytes after the last whole frame are
/// zeroed. Returns the bytes of whole frames written.
pub fn fill_frames(buf: &mut Vec<u8>, frames: &[(i16, i16)]) -> (r: usize)
    requires
        frames@.len() == old(buf)@.len() / 4,
    ensures
        r == 4 * frames@.len(),
        final(buf)@.len() == old(buf)@.len(),
        forall|i: int|
            0 <= i < frames@.len() ==> {
                &&& final(buf)@[4 * i] == le_lo((#[trigger] frames@[i]).0 as int)
                &&& final(buf)@[4 * i + 1] == le_hi(frames@[i].0 as int)
                &&& final(buf)@[4 * i + 2] == le_lo(frames@[i].1 as int)
                &&& final(buf)@[4 * i + 3] == le_hi(frames@[i].1 as int)
            },
        forall|j: int| r <= j < final(buf)@.len() ==> #[trigger] final(buf)@[j] == 0,
{
    let len = buf.len();
    let full = len - len % 4;
    let n = frames.len();
    let mut i: usize = 0;
    while i < n
        invariant
            0 <= i <= n,
            n == frames@.len(),
            n == len / 4,
            full == 4 * n,
            full <= len,
            len == buf@.len(),
            buf@.len() == old(buf)@.len(),
            forall|k: int|
                0 <= k < i ==> {
                    &&& buf@[4 * k] == le_lo((#[trigger] frames@[k]).0 as int)
                    &&& buf@[4 * k + 1] == le_hi(frames@[k].0 as int)
                    &&& buf@[4 * k + 2] == le_lo(frames@[k].1 as int)
                    &&& buf@[4 * k + 3] == le_hi(frames@[k].1 as int)
                },
        decreases n - i,
    {
        let (l, r) = frames[i];
        let lb = le_bytes(l);
        let rb = le_bytes(r);
        buf.set(4 * i, lb.0);
        buf.set(4 * i + 1, lb.1);
        buf.set(4 * i + 2, rb.0);
        buf.set(4 * i + 3, rb.1);
        i += 1;
    }
    let mut j: usize = full;
    while j < len
        invariant
            full <= j <= len,
            len == buf@.len(),
            full == 4 * frames@.len(),
            buf@.len() == old(buf)@.len(),
            forall|k: int|
                0 <= k < frames@.len() ==> {
                    &&& buf@[4 * k] == le_lo((#[trigger] frames@[k]).0 as int)
                    &&& buf@[4 * k + 1] == le_hi(frames@[k].0 as int)
                    &&& buf@[4 * k + 2] == le_lo(frames@[k].1 as int)
                    &&& buf@[4 * k + 3] == le_hi(frames@[k].1 as int)
                },
            forall|k: int| full <= k < j ==> #[trigger] buf@[k] == 0,
        decreases len - j,
    {
        buf.set(j, 0);
        j += 1;
    }
    full
}

/// Low and high byte of a sample.
pub fn le_bytes(v: i16) -> (r: (u8, u8))
    ensures
        r.0 == le_lo(v as int),
        r.1 == le_hi(v as int),
{
    let u: u32 = if v < 0 { (v as i32 + 65536) as u32 } else { v as u32 };
    ((u % 256) as u8, (u / 256) as u8)
}

/// The sample stored little-endian in bytes `lo` and `hi`.
pub open spec fn le_value(lo: u8, hi: u8) -> int {
    let u = hi * 256 + lo;
    if u >= 32768 { u - 65536 } else { u }
}

/// Reads a little-endian sample.
pub fn le_sample(lo: u8, hi: u8) -> (r: i16)
    ensures
        r as int == le_value(lo, hi),
{
    let u: i32 = hi as i32 * 256 + lo as i32;
    if u >= 32768 {
        (u - 65536) as i16
    } else {
        u as i16
    }
}

/// Encoding a sample and reading it back gives the sample.
pub proof fn lemma_le_round_trip(v: i16)
    ensures
        le_value(le_lo(v as int), le_hi(v as int)) == v,
{
}

/// A tone with an attack starts silent: its first frame is `(0, 0)`, whatever
/// the oscillator value, gain and pan.
pub proof fn lemma_attack_starts_silent(e: Adsrs, total: int, x: int, gain: int, gl: int, gr: int)
    requires
        frames_in(e.a_ms as int) > 0,
    ensures
        envelope(Some(e), 0, total) == 0,
        frame_out(x, gain, envelope(Some(e), 0, total), gl, gr) == (0int, 0int),
{
    let a = q15(x, gain);
    assert(a * 0 == 0);
    assert(q15(a, 0) == 0);
    assert(0 * gl == 0 && 0 * gr == 0);
    assert(q15(0, gl) == 0 && q15(0, gr) == 0);
}

/// At the first frame the envelope is silent when there is an attack, full
/// scale when there is none but a decay, and the sustain level when there is
/// neither; at the end of the attack it is full scale; in the last frame of a
/// released tone it is down to about `sustain / release_frames`.
pub proof fn lemma_envelope_shape(e: Adsrs, total: int)
    requires
        e.s_lvl_q15 <= Q15_ONE,
        frames_in(e.a_ms as int) + frames_in(e.d_ms as int) < total - frames_in(e.r_ms as int),
    ensures
        frames_in(e.a_ms as int) > 0 ==> envelope(Some(e), 0, total) == 0,
        frames_in(e.a_ms as int) == 0 && frames_in(e.d_ms as int) > 0 ==> envelope(Some(e), 0, total) == Q15_ONE,
        frames_in(e.a_ms as int) == 0 && frames_in(e.d_ms as int) == 0 ==> envelope(Some(e), 0, total)
            == e.s_lvl_q15,
        frames_in(e.d_ms as int) > 0 ==> envelope(Some(e), frames_in(e.a_ms as int), total) == Q15_ONE,
        frames_in(e.r_ms as int) > 0 ==> envelope(Some(e), total - 1, total) <= (e.s_lvl_q15 as int) / frames_in(
            e.r_ms as int,
        ) + 1,
{
    let a = frames_in(e.a_ms as int);
    let d = frames_in(e.d_ms as int);
    let r = frames_in(e.r_ms as int);
    let s = e.s_lvl_q15 as int;
    assert(a >= 0 && d >= 0 && r >= 0) by (nonlinear_arith)
        requires
            a == e.a_ms * 8000 / 1000,
            d == e.d_ms * 8000 / 1000,
            r == e.r_ms * 8000 / 1000,
            e.a_ms >= 0,
            e.d_ms >= 0,
            e.r_ms >= 0;
    if r > 0 {
        let t = r - 1;
        assert(s - s * t / r <= s / r + 1) by (nonlinear_arith)
            requires r > 0, t == r - 1, s >= 0;
    }
}

} // verus!
