//! Decoding of frames from a source that delivers every byte it is asked for.

use crate::compression::{outcome, Compressor};
use crate::cursor::Cursor;
use crate::error::{Error, ErrorView};
use crate::frame::flag::Flag;
use crate::frame::frame_layout::{
    frame_from, frame_of, raw_frame, unpacked, Frame, FrameView,
};
use crate::frame::parser_async::{classified, convert_frame_into_result, parse_frame_async};
use vstd::prelude::*;

verus! {

/// The decoder answered with the frame `want`, or failed for the reason `want`.
pub open spec fn delivers(r: Result<Frame, Error>, want: Result<FrameView, ErrorView>) -> bool {
    match want {
        Ok(f) => r matches Ok(x) && x@ == f,
        Err(w) => r matches Err(e) && e@ == w,
    }
}

/// What becomes of the outcome of decoding when failures that the server
/// reports are told from answers.
pub open spec fn classified_outcome(decoded: Result<FrameView, ErrorView>) -> Result<
    FrameView,
    ErrorView,
> {
    match decoded {
        Ok(f) => classified(f),
        Err(e) => Err(e),
    }
}

/// Reads the frame at the cursor from a buffer that holds all that the source
/// will deliver.
///
/// A header or a body that ends before the declared length is a failure of the
/// stream, and the cursor stays where it was. Otherwise the cursor moves behind
/// the frame, the body is unpacked as the compression flag asks, and a frame by
/// which the server reports a failure is turned into that failure.
pub fn parse_frame<C: Compressor>(cursor: &mut Cursor, compressor: &C) -> (r: Result<Frame, Error>)
    ensures
        final(cursor).data() == old(cursor).data(),
        match raw_frame(old(cursor).data(), old(cursor).pos()) {
            None => r matches Err(e) && e@ == ErrorView::UnexpectedEof && final(cursor).pos()
                == old(cursor).pos(),
            Some((h, raw)) => {
                &&& final(cursor).pos() == old(cursor).pos() + 9 + h.length
                &&& !Flag::Compression.is_set(h.flags) ==> delivers(
                    r,
                    classified_outcome(frame_of(h, raw)),
                )
                &&& Flag::Compression.is_set(h.flags) ==> exists|
                    body: Vec<u8>,
                    d: Result<Vec<u8>, String>,
                |
                    body@ == raw && #[trigger] call_ensures(C::decode, (compressor, body), d)
                        && delivers(r, classified_outcome(frame_from(h, unpacked(outcome(d)))))
            },
        },
{
    match parse_frame_async(cursor, compressor)? {
        Some(frame) => convert_frame_into_result(frame),
        None => Err(Error::UnexpectedEof),
    }
}

} // verus!
