use vstd::prelude::*;

verus! {

/// Flash address of the high-score record.
pub const FLASH_ADDR: u32 = 0x9000;
/// Length of the record's header.
pub const HEADER_LEN: usize = 5;
/// Flash address of the score, right after the header.
pub const SCORE_ADDR: u32 = 0x9005;

/// The header that marks a valid record: the bytes of "m3rra".
pub open spec fn header_spec() -> Seq<u8> {
    seq![0x6du8, 0x33u8, 0x72u8, 0x72u8, 0x61u8]
}

/// The header bytes.
pub fn header() -> (r: [u8; HEADER_LEN])
    ensures
        r@ == header_spec(),
{
    let r: [u8; HEADER_LEN] = [0x6d, 0x33, 0x72, 0x72, 0x61];
    assert(r@ =~= header_spec());
    r
}

/// Whether the bytes read from the start of the record are the header. Only
/// as many bytes as both have are compared.
pub fn header_matches(buf: &[u8]) -> (r: bool)
    ensures
        r == (forall|i: int| 0 <= i < buf@.len() && i < HEADER_LEN ==> buf@[i] == #[trigger] header_spec()[i]),
{
    let h = header();
    let mut i: usize = 0;
    while i < buf.len() && i < HEADER_LEN
        invariant
            0 <= i <= HEADER_LEN,
            i <= buf@.len(),
            h@ == header_spec(),
            forall|j: int| 0 <= j < i ==> buf@[j] == #[trigger] header_spec()[j],
        decreases HEADER_LEN - i,
    {
        if buf[i] != h[i] {
            return false;
        }
        i += 1;
    }
    true
}

/// The number stored big-endian in four bytes.
pub open spec fn be_value(b: Seq<u8>) -> int {
    ((b[0] * 256 + b[1]) * 256 + b[2]) * 256 + b[3]
}

/// Reads a big-endian score.
pub fn score_from_be(bytes: [u8; 4]) -> (r: u32)
    ensures
        r as int == be_value(bytes@),
{
    ((bytes[0] as u32 * 256 + bytes[1] as u32) * 256 + bytes[2] as u32) * 256 + bytes[3] as u32
}

/// The big-endian bytes of a score.
pub fn score_to_be(score: u32) -> (r: [u8; 4])
    ensures
        be_value(r@) == score,
        r@[0] == score / 0x100_0000,
        r@[1] == (score / 0x1_0000) % 256,
        r@[2] == (score / 256) % 256,
        r@[3] == score % 256,
{
    [
        (score / 0x100_0000) as u8,
        ((score / 0x1_0000) % 256) as u8,
        ((score / 256) % 256) as u8,
        (score % 256) as u8,
    ]
}

} // verus!
