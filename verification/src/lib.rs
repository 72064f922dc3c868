//! A client-side runtime for submitting extrinsics to a node whose calls and storage are
//! described by metadata that is only known once a connection is made.
//!
//! The library holds the logic: the metadata registry, call encoding, storage key
//! derivation, nonce handling and the assembly of signed extrinsics. It performs no
//! input or output; a transport hands it the bytes that a node returned and sends the
//! bytes that it produces.

pub mod client;
pub mod codec;
pub mod error;
pub mod extrinsic;
pub mod grammar;
pub mod hashing;
pub mod metadata;
pub mod parse;
pub mod srml;

pub use client::{Client, ClientBuilder, Endpoint};
pub use error::{EncodingError, Error, Lookup, MetadataError};
pub use extrinsic::{
    EventRecord, ExtrinsicSuccess, Phase, Progress, SignedExtrinsic, Signer, Submitted,
    TransactionStatus, Watched, XtBuilder,
};
pub use hashing::StorageHasher;
pub use metadata::{Encoded, Metadata, StorageKey};
