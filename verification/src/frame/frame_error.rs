//! The body of a frame by which the server reports a failure.

use crate::error::{Error, ServerError, ServerErrorView};
use crate::types::{parse_i32, parse_string, read_int, read_string, Parsed};
use vstd::prelude::*;

verus! {

/// The report at `pos`: the code in four bytes, then the message as a text.
pub open spec fn parse_server_error(s: Seq<u8>, pos: int) -> Parsed<ServerErrorView> {
    match parse_i32(s, pos) {
        Ok((error_code, at)) => match parse_string(s, at) {
            Ok((message, end)) => Ok((ServerErrorView { error_code, message }, end)),
            Err(e) => Err(e),
        },
        Err(e) => Err(e),
    }
}

impl ServerError {
    /// Reads the report at `pos`.
    pub fn decode(bytes: &[u8], pos: usize) -> (r: Result<(ServerError, usize), Error>)
        ensures
            match parse_server_error(bytes@, pos as int) {
                Ok((v, end)) => r matches Ok((x, e)) && x@ == v && e == end,
                Err(w) => r matches Err(e) && e@ == w,
            },
    {
        let (error_code, at) = read_int(bytes, pos)?;
        let (message, end) = read_string(bytes, at)?;
        Ok((ServerError { error_code, message }, end))
    }
}

} // verus!
