//! The failures that the client reports.
//!
//! Nothing here is ever swallowed or retried by the library: every operation that can
//! fail returns one of these values, and a value that is merely absent (an unset storage
//! item) is never reported through them.

use vstd::prelude::*;

verus! {

/// What kind of name a lookup was made for.
#[derive(Debug, Clone, Copy, PartialEq, Eq, Structural)]
pub enum Lookup {
    /// A module of the runtime.
    Module,
    /// A call of a module.
    Call,
    /// A storage item of a module.
    Storage,
}

/// Why a metadata blob was refused.
#[derive(Debug, Clone, Copy, PartialEq, Eq, Structural)]
pub enum MetadataError {
    /// The blob does not begin with the four bytes `meta`.
    InvalidPrefix,
    /// The blob announces a layout version other than the supported one.
    InvalidVersion(u8),
    /// The blob ends early, or holds a field that cannot be read.
    Malformed,
    /// The blob lists more modules than a one-byte module index can tell apart.
    TooManyModules,
    /// A module lists more calls than a one-byte call index can tell apart.
    TooManyCalls,
}

/// Why a call or a storage key could not be encoded.
#[derive(Debug, Clone, Copy, PartialEq, Eq, Structural)]
pub enum EncodingError {
    /// The number of arguments handed in differs from the number the call declares.
    ArgumentCount { expected: usize, found: usize },
    /// The storage item declares a hashing strategy that the library does not know.
    UnsupportedHasher(u8),
    /// A map key was derived for an item that is not a map.
    NotAMap,
    /// A plain key was derived for an item that is not a plain value.
    NotPlain,
    /// The builder's nonce is the largest there is; no extrinsic can follow it.
    NonceExhausted,
    /// The extrinsic is longer than its length prefix can say.
    TooLong,
}

/// Every failure of the library.
#[derive(Debug, Clone, PartialEq, Eq)]
pub enum Error {
    /// The connection or the node reported a failure; the text is the transport's own.
    Transport(String),
    /// The metadata blob could not be parsed.
    Metadata(MetadataError),
    /// The current metadata has no module, call or storage item of this name.
    NotFound(Lookup, String),
    /// Arguments or a storage key could not be encoded.
    Encoding(EncodingError),
    /// Bytes returned by the node do not have the expected shape.
    Decoding,
    /// The endpoint text is not a URL.
    InvalidUrl,
}

/// An [`Error`] as contracts speak of it: the texts it carries are sequences of
/// characters.
pub enum ErrorView {
    Transport(Seq<char>),
    Metadata(MetadataError),
    NotFound(Lookup, Seq<char>),
    Encoding(EncodingError),
    Decoding,
    InvalidUrl,
}

impl View for Error {
    type V = ErrorView;

    open spec fn view(&self) -> ErrorView {
        match self {
            Error::Transport(text) => ErrorView::Transport(text@),
            Error::Metadata(e) => ErrorView::Metadata(*e),
            Error::NotFound(kind, name) => ErrorView::NotFound(*kind, name@),
            Error::Encoding(e) => ErrorView::Encoding(*e),
            Error::Decoding => ErrorView::Decoding,
            Error::InvalidUrl => ErrorView::InvalidUrl,
        }
    }
}

} // verus!
