//! Decoding of frames from a buffer that is still being filled.

use crate::compression::{outcome, Compressor};
use crate::cursor::Cursor;
use crate::error::{Error, ErrorView, ServerError};
use crate::frame::flag::Flag;
use crate::frame::frame_error::parse_server_error;
use crate::frame::frame_layout::{
    assemble, frame_from, frame_of, parse_header, raw_frame, read_header, unpack_body, unpacked,
    Frame, FrameView, HEADER_LEN,
};
use crate::frame::opcode::Opcode;
use vstd::prelude::*;
use vstd::slice::{slice_subrange, slice_to_vec};

verus! {

/// The decoder answered with the frame `want`, or failed for the reason `want`.
pub open spec fn answers(r: Result<Option<Frame>, Error>, want: Result<FrameView, ErrorView>) -> bool {
    match want {
        Ok(f) => r matches Ok(Some(x)) && x@ == f,
        Err(w) => r matches Err(e) && e@ == w,
    }
}

/// What becomes of a decoded frame when failures that the server reports are
/// told from answers: a frame of kind `Error` is a failure, with the report that
/// its body holds, or with the reason why the body holds none; any other frame
/// is handed on as it is.
pub open spec fn classified(f: FrameView) -> Result<FrameView, ErrorView> {
    if f.opcode == Opcode::Error {
        match parse_server_error(f.body, 0) {
            Ok((report, _)) => Err(ErrorView::Server(report)),
            Err(e) => Err(e),
        }
    } else {
        Ok(f)
    }
}

/// Reads the frame at the cursor, if all of it is in the buffer.
///
/// Where the header or the body as the header declares it is not all there yet,
/// the answer is `Ok(None)` and the cursor stays where it was, so that the call
/// can be made again when more bytes have come. Otherwise the cursor moves
/// behind the frame, whether or not its content is accepted. A body whose
/// compression flag is down is taken as it is; where the flag is raised, the
/// frame is built from what the compressor returns for exactly the body on the
/// wire.
///
/// The frame is handed on whatever its kind: [`convert_frame_into_result`] tells
/// failures that the server reports from answers.
pub fn parse_frame_async<C: Compressor>(cursor: &mut Cursor, compressor: &C) -> (r: Result<
    Option<Frame>,
    Error,
>)
    ensures
        final(cursor).data() == old(cursor).data(),
        match raw_frame(old(cursor).data(), old(cursor).pos()) {
            None => r matches Ok(None) && final(cursor).pos() == old(cursor).pos(),
            Some((h, raw)) => {
                &&& final(cursor).pos() == old(cursor).pos() + 9 + h.length
                &&& !Flag::Compression.is_set(h.flags) ==> answers(r, frame_of(h, raw))
                &&& Flag::Compression.is_set(h.flags) ==> exists|
                    body: Vec<u8>,
                    d: Result<Vec<u8>, String>,
                |
                    body@ == raw && #[trigger] call_ensures(C::decode, (compressor, body), d)
                        && answers(r, frame_from(h, unpacked(outcome(d))))
            },
        },
{
    let bytes = cursor.get_ref();
    let start: usize = cursor.position();
    let header = match read_header(bytes, start) {
        Some(header) => header,
        None => {
            return Ok(None);
        },
    };
    let length: usize = header.length as usize;
    if bytes.len() - start - HEADER_LEN < length {
        return Ok(None);
    }
    let body_start: usize = start + HEADER_LEN;
    let raw = slice_to_vec(slice_subrange(bytes, body_start, body_start + length));
    cursor.set_position(body_start + length);
    let full = unpack_body(header.flags, raw, compressor)?;
    let frame = assemble(header, full)?;
    Ok(Some(frame))
}

/// Tells failures that the server reports from answers: a frame of kind `Error`
/// becomes a failure that carries the report of the server, or the reason why its
/// body holds no report; any other frame is handed back as it is.
pub fn convert_frame_into_result(frame: Frame) -> (r: Result<Frame, Error>)
    ensures
        match classified(frame@) {
            Ok(f) => r == Ok::<Frame, Error>(frame),
            Err(w) => r matches Err(e) && e@ == w,
        },
        r is Ok <==> frame.opcode != Opcode::Error,
{
    match frame.opcode {
        Opcode::Error => {
            let (report, _) = ServerError::decode(frame.body.as_slice(), 0)?;
            Err(Error::Server(report))
        },
        _ => Ok(frame),
    }
}

/// Feeding a buffer byte by byte: as long as fewer bytes are there than the frame
/// at `pos` has, no frame is seen; from then on the same header and the same body
/// are seen, however many bytes follow.
pub proof fn lemma_partial_reads(s: Seq<u8>, pos: int, k: int)
    requires
        0 <= pos <= k <= s.len(),
        raw_frame(s, pos) is Some,
    ensures
        raw_frame(s, pos) matches Some((h, raw)) && if k < pos + 9 + h.length {
            raw_frame(s.take(k), pos) is None
        } else {
            raw_frame(s.take(k), pos) == raw_frame(s, pos)
        },
{
    let t = s.take(k);
    if k >= pos + 9 {
        assert(t.subrange(pos + 2, pos + 4) =~= s.subrange(pos + 2, pos + 4));
        assert(t.subrange(pos + 5, pos + 9) =~= s.subrange(pos + 5, pos + 9));
        assert(parse_header(t, pos) == parse_header(s, pos));
        let h = parse_header(s, pos)->0;
        if k >= pos + 9 + h.length {
            assert(t.subrange(pos + 9, pos + 9 + h.length) =~= s.subrange(
                pos + 9,
                pos + 9 + h.length,
            ));
        }
    }
}

} // verus!
