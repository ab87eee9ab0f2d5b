//! The boundary to whatever packs and unpacks frame bodies.

use vstd::prelude::*;

verus! {

/// Packs and unpacks frame bodies. Each direction may fail, with a description of
/// the failure. No algorithm is fixed here: an implementation states what its
/// methods return, and the frame decoder hands on what `decode` gives it.
pub trait Compressor {
    /// Packs `bytes`.
    fn encode(&self, bytes: Vec<u8>) -> Result<Vec<u8>, String>;

    /// Unpacks `bytes`.
    fn decode(&self, bytes: Vec<u8>) -> Result<Vec<u8>, String>;
}

/// The compressor that leaves every body as it is.
#[derive(Debug, Clone, Copy, PartialEq, Eq)]
pub struct NoCompression;

impl Compressor for NoCompression {
    fn encode(&self, bytes: Vec<u8>) -> (r: Result<Vec<u8>, String>)
        ensures
            r == Ok::<Vec<u8>, String>(bytes),
    {
        Ok(bytes)
    }

    fn decode(&self, bytes: Vec<u8>) -> (r: Result<Vec<u8>, String>)
        ensures
            r == Ok::<Vec<u8>, String>(bytes),
    {
        Ok(bytes)
    }
}

/// Mathematical content of what a compressor returned.
pub open spec fn outcome(r: Result<Vec<u8>, String>) -> Result<Seq<u8>, Seq<char>> {
    match r {
        Ok(bytes) => Ok(bytes@),
        Err(text) => Err(text@),
    }
}

/// Whatever [`NoCompression`] is asked to unpack or pack comes back unchanged.
pub proof fn lemma_no_compression_is_identity(
    c: &NoCompression,
    bytes: Vec<u8>,
    r: Result<Vec<u8>, String>,
)
    requires
        call_ensures(NoCompression::decode, (c, bytes), r) || call_ensures(
            NoCompression::encode,
            (c, bytes),
            r,
        ),
    ensures
        outcome(r) == Ok::<Seq<u8>, Seq<char>>(bytes@),
{
}

} // verus!
