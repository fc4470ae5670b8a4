use vstd::prelude::*;

use crate::sfx::{clamp_i16, lemma_le_round_trip, le_bytes, le_sample, le_value, q15, sat_i16, Q15_ONE};

verus! {

/// Most channels a mixer can have.
pub const MAX_CHANS: usize = 8;
/// Bytes of one stereo frame of 16-bit samples.
pub const BYTES_PER_FRAME: usize = 4;

/// What channel bytes `bytes` add to output sample `k` at gain `gain`: the
/// sample scaled in Q15, or silence where the channel fell short.
pub open spec fn contribution(bytes: Seq<u8>, gain: int, k: int) -> int {
    if 2 * k + 1 < bytes.len() {
        q15(le_value(bytes[2 * k], bytes[2 * k + 1]), gain)
    } else {
        0
    }
}

/// Output sample `k` after the first `c` channels, added in order with
/// saturation, starting from silence.
pub open spec fn mixed(inputs: Seq<Seq<u8>>, gains: Seq<u16>, k: int, c: int) -> int
    decreases c,
{
    if c <= 0 {
        0
    } else {
        clamp_i16(mixed(inputs, gains, k, c - 1) + contribution(inputs[c - 1], gains[c - 1] as int, k))
    }
}

/// The byte views of channel buffers.
pub open spec fn views(inputs: Seq<Vec<u8>>) -> Seq<Seq<u8>> {
    inputs.map_values(|v: Vec<u8>| v@)
}

/// Mixes `N` channels into stereo 16-bit output, each with its own Q15 gain.
pub struct Mixer<const N: usize> {
    gains_q15: Vec<u16>,
}

impl<const N: usize> Mixer<N> {
    /// Gain of each channel.
    pub closed spec fn gains(&self) -> Seq<u16> {
        self.gains_q15@
    }

    /// One gain per channel, each a Q15 value from 0 to full scale.
    pub closed spec fn wf(&self) -> bool {
        &&& self.gains_q15@.len() == N
        &&& forall|i: int| 0 <= i < N ==> #[trigger] self.gains_q15@[i] <= Q15_ONE
    }

    /// A well-formed mixer has one Q15 gain, at most full scale, per channel.
    pub proof fn lemma_gains(&self)
        requires
            self.wf(),
        ensures
            self.gains().len() == N,
            forall|i: int| 0 <= i < N ==> #[trigger] self.gains()[i] <= Q15_ONE,
    {
    }

    /// A mixer with every channel at full gain.
    pub fn new() -> (r: Self)
        requires
            0 < N <= MAX_CHANS,
        ensures
            r.wf(),
            r.gains() == Seq::new(N as nat, |i: int| Q15_ONE),
            r.gains().len() == N,
    {
        let mut gains_q15: Vec<u16> = Vec::new();
        let mut i: usize = 0;
        while i < N
            invariant
                0 <= i <= N,
                gains_q15@ == Seq::new(i as nat, |j: int| Q15_ONE),
            decreases N - i,
        {
            gains_q15.push(Q15_ONE);
            i += 1;
            assert(gains_q15@ =~= Seq::new(i as nat, |j: int| Q15_ONE));
        }
        Mixer { gains_q15 }
    }

    /// Sets the gain of channel `idx` to a Q15 value from 0 to full scale;
    /// the next mix uses it, and the other channels keep theirs.
    pub fn set_gain_q15(&mut self, idx: usize, q15: u16)
        requires
            old(self).wf(),
            idx < N,
            q15 <= Q15_ONE,
        ensures
            final(self).wf(),
            final(self).gains() == old(self).gains().update(idx as int, q15),
            final(self).gains().len() == N,
            forall|i: int| 0 <= i < N && i != idx ==> #[trigger] final(self).gains()[i] == old(self).gains()[i],
    {
        self.gains_q15.set(idx, q15);
    }

    /// The gain of channel `idx`.
    pub fn gain_q15(&self, idx: usize) -> (r: u16)
        requires
            self.wf(),
            idx < N,
        ensures
            r == self.gains()[idx as int],
            r <= Q15_ONE,
    {
        self.gains_q15[idx]
    }

    /// Mixes into `dst` what each channel delivered for it: `inputs[c]` holds
    /// channel `c`'s little-endian samples, and where it is shorter than `dst`
    /// the rest of that channel is silence. Each output sample starts silent
    /// and each channel's sample, scaled by its gain, is added in channel
    /// order with saturation.
    pub fn mix_into(&self, dst: &mut Vec<u8>, inputs: &Vec<Vec<u8>>)
        requires
            self.wf(),
            old(dst)@.len() % (BYTES_PER_FRAME as nat) == 0,
            inputs@.len() == N,
            forall|c: int| 0 <= c < N ==> (#[trigger] inputs@[c])@.len() <= old(dst)@.len(),
        ensures
            final(dst)@.len() == old(dst)@.len(),
            forall|k: int|
                0 <= k < old(dst)@.len() / 2 ==> le_value(final(dst)@[2 * k], final(dst)@[2 * k + 1])
                    == #[trigger] mixed(views(inputs@), self.gains(), k, N as int),
    {
        let dlen = dst.len();
        let half = dlen / 2;
        let ghost ins = views(inputs@);
        let mut acc: Vec<i16> = Vec::new();
        let mut k: usize = 0;
        while k < half
            invariant
                0 <= k <= half,
                acc@.len() == k,
                forall|j: int| 0 <= j < k ==> #[trigger] acc@[j] == 0,
            decreases half - k,
        {
            acc.push(0);
            k += 1;
        }
        let mut c: usize = 0;
        while c < N
            invariant
                0 <= c <= N,
                self.wf(),
                inputs@.len() == N,
                ins == views(inputs@),
                half == old(dst)@.len() / 2,
                forall|j: int| 0 <= j < N ==> (#[trigger] inputs@[j])@.len() <= old(dst)@.len(),
                acc@.len() == half,
                forall|j: int| 0 <= j < half ==> #[trigger] acc@[j] as int == mixed(ins, self.gains(), j, c as int),
            decreases N - c,
        {
            let gain = self.gains_q15[c] as i64;
            let input = &inputs[c];
            assert(ins[c as int] == input@);
            let len = input.len();
            let m = len / 2;
            let mut j: usize = 0;
            while j < m
                invariant
                    0 <= j <= m,
                    c < N,
                    self.wf(),
                    ins == views(inputs@),
                    ins[c as int] == input@,
                    m == input@.len() / 2,
                    2 * m <= input@.len(),
                    len == input@.len(),
                    m <= half,
                    gain == self.gains()[c as int],
                    acc@.len() == half,
                    forall|i: int| 0 <= i < j ==> #[trigger] acc@[i] as int == mixed(ins, self.gains(), i, c + 1),
                    forall|i: int| j <= i < half ==> #[trigger] acc@[i] as int == mixed(ins, self.gains(), i, c as int),
                decreases m - j,
            {
                let x = le_sample(input[2 * j], input[2 * j + 1]);
                let scaled = mul_q15(x as i64, gain);
                let w = scaled as i32;
                let sum = acc[j] as i32 + w;
                let v = sat_i16(sum);
                acc.set(j, v);
                j += 1;
            }
            proof {
                assert forall|i: int| m <= i < half implies #[trigger] acc@[i] as int == mixed(
                    ins,
                    self.gains(),
                    i,
                    c + 1,
                ) by {
                    lemma_mixed_range(ins, self.gains(), i, c as int);
                }
            }
            c += 1;
        }
        let mut i: usize = 0;
        while i < half
            invariant
                0 <= i <= half,
                half == old(dst)@.len() / 2,
                2 * half <= dst@.len(),
                dlen == dst@.len(),
                dst@.len() == old(dst)@.len(),
                acc@.len() == half,
                forall|j: int| 0 <= j < half ==> #[trigger] acc@[j] as int == mixed(ins, self.gains(), j, N as int),
                forall|j: int| 0 <= j < i ==> le_value(dst@[2 * j], dst@[2 * j + 1]) == #[trigger] mixed(ins, self.gains(), j, N as int),
            decreases half - i,
        {
            let (lo, hi) = le_bytes(acc[i]);
            dst.set(2 * i, lo);
            dst.set(2 * i + 1, hi);
            proof {
                lemma_le_round_trip(acc@[i as int]);
            }
            i += 1;
        }
    }
}

/// `(a * b) >> 15` for a sample and a gain.
fn mul_q15(a: i64, b: i64) -> (r: i64)
    requires
        -32768 <= a <= 32767,
        0 <= b <= 0x7fff,
    ensures
        r as int == q15(a as int, b as int),
        -32768 <= r <= 32767,
{
    proof {
        assert(-32768 * 0x7fff <= a * b <= 32767 * 0x7fff) by (nonlinear_arith)
            requires -32768 <= a <= 32767, 0 <= b <= 0x7fff;
        assert(-32768 <= (a * b) / 32768 <= 32767) by (nonlinear_arith)
            requires -32768 * 0x7fff <= a * b <= 32767 * 0x7fff;
    }
    let p = a * b;
    assert((p >> 15u64) == p / 32768) by (bit_vector);
    p >> 15u64
}

/// A mixed sample is always within the signed 16-bit range.
pub proof fn lemma_mixed_range(inputs: Seq<Seq<u8>>, gains: Seq<u16>, k: int, c: int)
    ensures
        -32768 <= mixed(inputs, gains, k, c) <= 32767,
{
}

/// A channel that delivered no sample `k` leaves output sample `k` as the
/// channels before it made it: its missing tail is silence.
pub proof fn lemma_short_channel_adds_silence(inputs: Seq<Seq<u8>>, gains: Seq<u16>, k: int, c: int)
    requires
        0 <= c,
        2 * k + 1 >= inputs[c].len(),
    ensures
        mixed(inputs, gains, k, c + 1) == mixed(inputs, gains, k, c),
{
    lemma_mixed_range(inputs, gains, k, c);
}

/// An output sample that no channel delivered is silent.
pub proof fn lemma_undelivered_sample_is_silent(inputs: Seq<Seq<u8>>, gains: Seq<u16>, k: int, n: int)
    requires
        0 <= n <= inputs.len(),
        forall|c: int| 0 <= c < n ==> 2 * k + 1 >= (#[trigger] inputs[c]).len(),
    ensures
        mixed(inputs, gains, k, n) == 0,
    decreases n,
{
    if n > 0 {
        lemma_undelivered_sample_is_silent(inputs, gains, k, n - 1);
        lemma_short_channel_adds_silence(inputs, gains, k, n - 1);
    }
}

} // verus!
