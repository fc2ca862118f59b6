//! The frame integrity word: CRC-32C (Castagnoli), computed bit by bit
//! over the reflected polynomial 0x82F63B78, with the conventional
//! all-ones initial state and final complement.
//!
//! When the handshake negotiates checksummed framing, every frame
//! carries this word over its token and payload.

use vstd::prelude::*;

use crate::errors::FlowError;

verus! {

/// One shift-and-conditional-xor step of the reflected CRC-32C
/// polynomial.
pub open spec fn spec_crc_bit(crc: u32) -> u32 {
    if crc & 1 == 1 {
        (crc >> 1) ^ 0x82f6_3b78
    } else {
        crc >> 1
    }
}

/// `k` polynomial steps.
pub open spec fn spec_crc_bits(crc: u32, k: nat) -> u32
    decreases k,
{
    if k == 0 {
        crc
    } else {
        spec_crc_bit(spec_crc_bits(crc, (k - 1) as nat))
    }
}

/// The running CRC state after absorbing `s`, starting from all ones.
pub open spec fn spec_crc_state(s: Seq<u8>) -> u32
    decreases s.len(),
{
    if s.len() == 0 {
        0xffff_ffffu32
    } else {
        spec_crc_bits(spec_crc_state(s.drop_last()) ^ (s.last() as u32), 8)
    }
}

/// The CRC-32C of a byte sequence: the final state, complemented.
pub open spec fn spec_crc32c(s: Seq<u8>) -> u32 {
    spec_crc_state(s) ^ 0xffff_ffffu32
}

/// CRC-32C of a byte slice.
pub fn crc32c(data: &[u8]) -> (r: u32)
    ensures
        r == spec_crc32c(data@),
{
    let n: usize = data.len();
    let mut crc: u32 = 0xffff_ffff;
    let mut i: usize = 0;
    while i < n
        invariant
            i <= n,
            n == data@.len(),
            crc == spec_crc_state(data@.subrange(0, i as int)),
        decreases n - i,
    {
        let ghost prev = crc;
        crc = crc ^ (data[i] as u32);
        let mut k: usize = 0;
        while k < 8
            invariant
                k <= 8,
                crc == spec_crc_bits(prev ^ (data@[i as int] as u32), k as nat),
            decreases 8 - k,
        {
            if crc & 1 == 1 {
                crc = (crc >> 1) ^ 0x82f6_3b78;
            } else {
                crc = crc >> 1;
            }
            k += 1;
        }
        proof {
            let sub1 = data@.subrange(0, i as int + 1);
            assert(sub1.drop_last() =~= data@.subrange(0, i as int));
            assert(sub1.last() == data@[i as int]);
        }
        i += 1;
    }
    proof {
        assert(data@.subrange(0, n as int) =~= data@);
    }
    crc ^ 0xffff_ffff
}

/// Verify a received integrity word; a mismatch is the fatal
/// `ChecksumMismatch`.
pub fn check_crc32c(data: &[u8], expected: u32) -> (r: Result<(), FlowError>)
    ensures
        r is Ok <==> expected == spec_crc32c(data@),
        r is Err ==> r == Err::<(), FlowError>(FlowError::ChecksumMismatch),
{
    let actual = crc32c(data);
    if actual == expected {
        Ok(())
    } else {
        Err(FlowError::ChecksumMismatch)
    }
}

} // verus!
