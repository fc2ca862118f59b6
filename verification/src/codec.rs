//! The length-delimited frame codec.
//!
//! A frame on the wire is a 4-byte little-endian length word, an
//! optional 4-byte checksum when the handshake negotiated checksummed
//! framing, 16 bytes of token (each 64-bit word little-endian, first
//! word first), and the payload. The length word counts the token and
//! the payload, so its smallest legal value is 16; zero, any value
//! below 16, and any value whose payload share exceeds the configured
//! maximum are fatal codec errors, as is a stream that ends in the
//! middle of a frame. The end of the stream at a frame boundary is a
//! clean shutdown.

use vstd::prelude::*;
use vstd::bytes::{
    lemma_auto_spec_u32_to_from_le_bytes, lemma_auto_spec_u64_to_from_le_bytes,
    spec_u32_from_le_bytes, spec_u32_to_le_bytes, spec_u64_from_le_bytes, spec_u64_to_le_bytes,
    u32_from_le_bytes, u32_to_le_bytes, u64_from_le_bytes, u64_to_le_bytes,
};
use vstd::assert_seqs_equal;
use vstd::slice::{slice_subrange, slice_to_vec};

use crate::checksum::{check_crc32c, crc32c, spec_crc32c};
use crate::errors::FlowError;
use crate::frame::{Frame, FrameView};
use crate::uid::UID;

verus! {

/// Bytes of token in every frame: two little-endian 64-bit words.
pub const TOKEN_BYTES: usize = 16;

/// Configured maximum payload length of a single frame.
pub const MAX_PAYLOAD_BYTES: usize = 0x0400_0000;

/// The 16 token bytes: first word, then second, each little-endian.
pub open spec fn spec_token_bytes(t: UID) -> Seq<u8> {
    spec_u64_to_le_bytes(t.first) + spec_u64_to_le_bytes(t.second)
}

/// A frame the codec can put on the wire: its payload respects the
/// configured maximum.
pub open spec fn spec_frame_wf(f: FrameView) -> bool {
    f.payload.len() <= MAX_PAYLOAD_BYTES
}

/// Bytes of header before the token: the length word, and the
/// checksum word when negotiated.
pub open spec fn spec_header_len(with_checksum: bool) -> int {
    if with_checksum {
        8
    } else {
        4
    }
}

/// Token and payload: the part the length word counts and the
/// checksum covers.
pub open spec fn spec_frame_body(f: FrameView) -> Seq<u8> {
    spec_token_bytes(f.token) + f.payload
}

/// The exact bytes `write_frame` puts on the wire for a frame.
pub open spec fn spec_encode_frame(f: FrameView, with_checksum: bool) -> Seq<u8> {
    let body = spec_frame_body(f);
    spec_u32_to_le_bytes((TOKEN_BYTES + f.payload.len()) as u32) + (if with_checksum {
        spec_u32_to_le_bytes(spec_crc32c(body))
    } else {
        Seq::<u8>::empty()
    }) + body
}

/// What reading one frame at `pos` yields: `Ok(None)` for a clean end
/// of stream at a frame boundary, `Ok(Some((frame, end)))` for a
/// well-formed frame ending at `end`, or the fatal codec error the
/// bytes force, checked in this order: truncated length word, length
/// zero, length below the token size, payload share over the maximum,
/// truncated frame, checksum mismatch.
pub open spec fn spec_read_frame(bytes: Seq<u8>, pos: int, with_checksum: bool) -> Result<
    Option<(FrameView, int)>,
    FlowError,
>
    recommends
        0 <= pos <= bytes.len(),
{
    let n = bytes.len() as int;
    let hl = spec_header_len(with_checksum);
    if pos == n {
        Ok(None)
    } else if pos + 4 > n {
        Err(FlowError::Truncated)
    } else {
        let lf = spec_u32_from_le_bytes(bytes.subrange(pos, pos + 4)) as int;
        if lf == 0 {
            Err(FlowError::LengthZero)
        } else if lf < TOKEN_BYTES {
            Err(FlowError::LengthUnderMin)
        } else if lf - TOKEN_BYTES > MAX_PAYLOAD_BYTES {
            Err(FlowError::LengthOverMax)
        } else if pos + hl + lf > n {
            Err(FlowError::Truncated)
        } else {
            let body = bytes.subrange(pos + hl, pos + hl + lf);
            if with_checksum && spec_u32_from_le_bytes(bytes.subrange(pos + 4, pos + 8))
                != spec_crc32c(body) {
                Err(FlowError::ChecksumMismatch)
            } else {
                let token = UID {
                    first: spec_u64_from_le_bytes(body.subrange(0, 8)),
                    second: spec_u64_from_le_bytes(body.subrange(8, 16)),
                };
                Ok(
                    Some(
                        (
                            FrameView { token, payload: body.subrange(TOKEN_BYTES as int, lf) },
                            pos + hl + lf,
                        ),
                    ),
                )
            }
        }
    }
}

/// The model of an executable read result.
pub open spec fn read_result_view(r: Result<Option<(Frame, usize)>, FlowError>) -> Result<
    Option<(FrameView, int)>,
    FlowError,
> {
    match r {
        Ok(None) => Ok(None),
        Ok(Some((f, p))) => Ok(Some((f@, p as int))),
        Err(e) => Err(e),
    }
}

/// Serialize one frame into the write buffer; an explicit flush
/// boundary downstream commits the buffer to the stream.
pub fn write_frame(out: &mut Vec<u8>, frame: &Frame, with_checksum: bool)
    requires
        spec_frame_wf(frame@),
    ensures
        final(out)@ == old(out)@ + spec_encode_frame(frame@, with_checksum),
{
    proof {
        lemma_auto_spec_u64_to_from_le_bytes();
        lemma_auto_spec_u32_to_from_le_bytes();
    }
    let mut body: Vec<u8> = u64_to_le_bytes(frame.token.first);
    let mut second_bytes: Vec<u8> = u64_to_le_bytes(frame.token.second);
    body.append(&mut second_bytes);
    body.extend_from_slice(frame.payload.as_slice());
    proof {
        assert(body@ =~= spec_frame_body(frame@));
    }
    let len_word: u32 = (TOKEN_BYTES + frame.payload.len()) as u32;
    let mut len_bytes: Vec<u8> = u32_to_le_bytes(len_word);
    out.append(&mut len_bytes);
    if with_checksum {
        let crc = crc32c(body.as_slice());
        let mut crc_bytes: Vec<u8> = u32_to_le_bytes(crc);
        out.append(&mut crc_bytes);
    }
    out.extend_from_slice(body.as_slice());
    proof {
        assert(final(out)@ =~= old(out)@ + spec_encode_frame(frame@, with_checksum));
    }
}

/// Read one frame from the buffered stream bytes, starting at `pos`.
/// Yields the frame and the position just past it, `None` at a clean
/// end of stream, or the fatal codec error; the outcome is exactly
/// `spec_read_frame` on the buffer.
pub fn read_frame(buf: &[u8], pos: usize, with_checksum: bool) -> (r: Result<
    Option<(Frame, usize)>,
    FlowError,
>)
    requires
        pos <= buf@.len(),
    ensures
        read_result_view(r) == spec_read_frame(buf@, pos as int, with_checksum),
        r matches Ok(Some((f, end))) ==> spec_frame_wf(f@) && pos < end <= buf@.len(),
{
    proof {
        lemma_auto_spec_u64_to_from_le_bytes();
        lemma_auto_spec_u32_to_from_le_bytes();
    }
    let n: usize = buf.len();
    let hl: usize = if with_checksum {
        8
    } else {
        4
    };
    if pos == n {
        return Ok(None);
    }
    if n - pos < 4 {
        return Err(FlowError::Truncated);
    }
    let lf_word = u32_from_le_bytes(slice_subrange(buf, pos, pos + 4));
    let lf = lf_word as usize;
    if lf == 0 {
        return Err(FlowError::LengthZero);
    }
    if lf < TOKEN_BYTES {
        return Err(FlowError::LengthUnderMin);
    }
    if lf - TOKEN_BYTES > MAX_PAYLOAD_BYTES {
        return Err(FlowError::LengthOverMax);
    }
    if n - pos < hl || n - pos - hl < lf {
        return Err(FlowError::Truncated);
    }
    let body = slice_subrange(buf, pos + hl, pos + hl + lf);
    if with_checksum {
        let crc_word = u32_from_le_bytes(slice_subrange(buf, pos + 4, pos + 8));
        match check_crc32c(body, crc_word) {
            Ok(()) => (),
            Err(e) => {
                return Err(e);
            },
        }
    }
    let first = u64_from_le_bytes(slice_subrange(body, 0, 8));
    let second = u64_from_le_bytes(slice_subrange(body, 8, 16));
    let payload = slice_to_vec(slice_subrange(body, TOKEN_BYTES, lf));
    let frame = Frame { token: UID { first, second }, payload };
    proof {
        let bv = buf@;
        let p = pos as int;
        let hli = spec_header_len(with_checksum);
        let lfi = lf as int;
        let spec_body = bv.subrange(p + hli, p + hli + lfi);
        assert(body@ =~= spec_body);
        assert(body@.subrange(0, 8) =~= spec_body.subrange(0, 8));
        assert(body@.subrange(8, 16) =~= spec_body.subrange(8, 16));
        assert(frame@.payload =~= spec_body.subrange(TOKEN_BYTES as int, lfi));
    }
    Ok(Some((frame, pos + hl + lf)))
}

/// Round trip: the byte stream produced by writing a frame (and
/// flushing it unchanged) reads back as exactly that frame, consuming
/// the whole stream.
pub proof fn lemma_frame_round_trip(f: FrameView, with_checksum: bool)
    requires
        spec_frame_wf(f),
    ensures
        spec_read_frame(spec_encode_frame(f, with_checksum), 0, with_checksum)
            == Ok::<Option<(FrameView, int)>, FlowError>(
            Some((f, spec_encode_frame(f, with_checksum).len() as int)),
        ),
{
    lemma_auto_spec_u64_to_from_le_bytes();
    lemma_auto_spec_u32_to_from_le_bytes();
    let e = spec_encode_frame(f, with_checksum);
    let body = spec_frame_body(f);
    let hl = spec_header_len(with_checksum);
    let lf = TOKEN_BYTES + f.payload.len();
    assert(body.len() == lf);
    assert(e.len() == hl + lf);
    assert(e.subrange(0, 4) =~= spec_u32_to_le_bytes(lf as u32));
    assert(spec_u32_from_le_bytes(e.subrange(0, 4)) == lf as u32);
    if with_checksum {
        assert(e.subrange(4, 8) =~= spec_u32_to_le_bytes(spec_crc32c(body)));
        assert(spec_u32_from_le_bytes(e.subrange(4, 8)) == spec_crc32c(body));
    }
    assert(e.subrange(hl, hl + lf as int) =~= body);
    assert(body.subrange(0, 8) =~= spec_u64_to_le_bytes(f.token.first));
    assert(body.subrange(8, 16) =~= spec_u64_to_le_bytes(f.token.second));
    assert(body.subrange(TOKEN_BYTES as int, lf as int) =~= f.payload);
    let r = spec_read_frame(e, 0, with_checksum);
    assert(r matches Ok(g) && g matches Some(pair) && pair.0.token == f.token && pair.0.payload
        =~= f.payload && pair.1 == e.len());
    assert(r matches Ok(g) && g matches Some(pair) && pair.0 == f);
}

} // verus!
