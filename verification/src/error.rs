//! Failures of the codec.

use vstd::prelude::*;

verus! {

/// Error payload of a frame by which the server reports a failed request.
#[derive(Debug, Clone, PartialEq, Eq)]
pub struct ServerError {
    /// Code by which the server classifies the failure.
    pub error_code: i32,
    /// Explanation for a human reader.
    pub message: String,
}

/// Mathematical content of a [`ServerError`].
pub struct ServerErrorView {
    pub error_code: i32,
    pub message: Seq<char>,
}

impl View for ServerError {
    type V = ServerErrorView;

    open spec fn view(&self) -> ServerErrorView {
        ServerErrorView { error_code: self.error_code, message: self.message@ }
    }
}

/// Why a decoding attempt was given up.
#[derive(Debug, Clone, PartialEq, Eq)]
pub enum Error {
    /// The source ended inside a field that had to be read whole.
    UnexpectedEof,
    /// A length-prefixed string did not hold UTF-8 text.
    Utf8,
    /// A section was malformed; the text names it.
    General(String),
    /// The compressor rejected a frame body; the text is its description.
    Compression(String),
    /// The frame was well formed and carried the server's report of a failure.
    Server(ServerError),
}

/// Mathematical content of an [`Error`].
pub enum ErrorView {
    UnexpectedEof,
    Utf8,
    General(Seq<char>),
    Compression(Seq<char>),
    Server(ServerErrorView),
}

impl View for Error {
    type V = ErrorView;

    open spec fn view(&self) -> ErrorView {
        match *self {
            Error::UnexpectedEof => ErrorView::UnexpectedEof,
            Error::Utf8 => ErrorView::Utf8,
            Error::General(s) => ErrorView::General(s@),
            Error::Compression(s) => ErrorView::Compression(s@),
            Error::Server(e) => ErrorView::Server(e@),
        }
    }
}

/// Text of the failure raised for a value whose length field is neither positive
/// nor one of the two reserved markers.
pub open spec fn bad_value_message() -> Seq<char> {
    "Could not decode query values"@
}

impl Error {
    /// The failure raised for a value whose length field is neither positive
    /// nor one of the two reserved markers.
    pub fn bad_value() -> (e: Error)
        ensures
            e@ == ErrorView::General(bad_value_message()),
    {
        Error::General("Could not decode query values".to_owned())
    }

    /// A short text for a human reader.
    pub fn description(&self) -> (text: String)
        ensures
            text@ == match self@ {
                ErrorView::UnexpectedEof => "unexpected end of input"@,
                ErrorView::Utf8 => "invalid UTF-8 in a string"@,
                ErrorView::General(s) => s,
                ErrorView::Compression(s) => s,
                ErrorView::Server(e) => e.message,
            },
    {
        match self {
            Error::UnexpectedEof => "unexpected end of input".to_owned(),
            Error::Utf8 => "invalid UTF-8 in a string".to_owned(),
            Error::General(s) => s.clone(),
            Error::Compression(s) => s.clone(),
            Error::Server(e) => e.message.clone(),
        }
    }
}

} // verus!
