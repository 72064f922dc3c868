//! The hashing strategies that storage items declare.
//!
//! The digests themselves come from `sp_crypto_hashing`; this module names each of them
//! and dispatches on the strategy, which is data read from the metadata.

use vstd::prelude::*;

verus! {

/// The digest that `sp_crypto_hashing::blake2_128` computes of `data`.
pub uninterp spec fn blake2_128_digest(data: Seq<u8>) -> Seq<u8>;

/// The digest that `sp_crypto_hashing::blake2_256` computes of `data`.
pub uninterp spec fn blake2_256_digest(data: Seq<u8>) -> Seq<u8>;

/// The digest that `sp_crypto_hashing::twox_64` computes of `data`.
pub uninterp spec fn twox_64_digest(data: Seq<u8>) -> Seq<u8>;

/// The digest that `sp_crypto_hashing::twox_128` computes of `data`.
pub uninterp spec fn twox_128_digest(data: Seq<u8>) -> Seq<u8>;

/// The digest that `sp_crypto_hashing::twox_256` computes of `data`.
pub uninterp spec fn twox_256_digest(data: Seq<u8>) -> Seq<u8>;

/// Calls `sp_crypto_hashing::blake2_128`. Trusted: the result is the 16-byte array that
/// the function returns, which depends on `data` alone.
#[verifier::external_body]
pub(crate) fn blake2_128(data: &[u8]) -> (digest: Vec<u8>)
    ensures
        digest@ == blake2_128_digest(data@),
        digest@.len() == 16,
{
    sp_crypto_hashing::blake2_128(data).to_vec()
}

/// Calls `sp_crypto_hashing::blake2_256`. Trusted: the result is the 32-byte array that
/// the function returns, which depends on `data` alone.
#[verifier::external_body]
pub(crate) fn blake2_256(data: &[u8]) -> (digest: Vec<u8>)
    ensures
        digest@ == blake2_256_digest(data@),
        digest@.len() == 32,
{
    sp_crypto_hashing::blake2_256(data).to_vec()
}

/// Calls `sp_crypto_hashing::twox_64`. Trusted: the result is the 8-byte array that the
/// function returns, which depends on `data` alone.
#[verifier::external_body]
pub(crate) fn twox_64(data: &[u8]) -> (digest: Vec<u8>)
    ensures
        digest@ == twox_64_digest(data@),
        digest@.len() == 8,
{
    sp_crypto_hashing::twox_64(data).to_vec()
}

/// Calls `sp_crypto_hashing::twox_128`. Trusted: the result is the 16-byte array that
/// the function returns, which depends on `data` alone.
#[verifier::external_body]
pub(crate) fn twox_128(data: &[u8]) -> (digest: Vec<u8>)
    ensures
        digest@ == twox_128_digest(data@),
        digest@.len() == 16,
{
    sp_crypto_hashing::twox_128(data).to_vec()
}

/// Calls `sp_crypto_hashing::twox_256`. Trusted: the result is the 32-byte array that
/// the function returns, which depends on `data` alone.
#[verifier::external_body]
pub(crate) fn twox_256(data: &[u8]) -> (digest: Vec<u8>)
    ensures
        digest@ == twox_256_digest(data@),
        digest@.len() == 32,
{
    sp_crypto_hashing::twox_256(data).to_vec()
}

/// A hashing strategy for storage keys.
#[allow(non_camel_case_types)]
#[derive(Debug, Clone, Copy, PartialEq, Eq, Structural)]
pub enum StorageHasher {
    /// Blake2b with a 128-bit digest.
    Blake2_128,
    /// Blake2b with a 256-bit digest.
    Blake2_256,
    /// Two rounds of xxHash, 128 bits in all.
    Twox128,
    /// Four rounds of xxHash, 256 bits in all.
    Twox256,
    /// One round of xxHash followed by the hashed bytes themselves.
    Twox64Concat,
}

impl StorageHasher {
    /// The strategy that the identifier `id` stands for in metadata, if there is one.
    pub open spec fn of_id(id: u8) -> Option<StorageHasher> {
        if id == 0 {
            Some(StorageHasher::Blake2_128)
        } else if id == 1 {
            Some(StorageHasher::Blake2_256)
        } else if id == 2 {
            Some(StorageHasher::Twox128)
        } else if id == 3 {
            Some(StorageHasher::Twox256)
        } else if id == 4 {
            Some(StorageHasher::Twox64Concat)
        } else {
            None
        }
    }

    /// The identifier under which metadata declares this strategy.
    pub open spec fn spec_id(self) -> u8 {
        match self {
            StorageHasher::Blake2_128 => 0,
            StorageHasher::Blake2_256 => 1,
            StorageHasher::Twox128 => 2,
            StorageHasher::Twox256 => 3,
            StorageHasher::Twox64Concat => 4,
        }
    }

    /// What this strategy makes of `data`.
    pub open spec fn digest(self, data: Seq<u8>) -> Seq<u8> {
        match self {
            StorageHasher::Blake2_128 => blake2_128_digest(data),
            StorageHasher::Blake2_256 => blake2_256_digest(data),
            StorageHasher::Twox128 => twox_128_digest(data),
            StorageHasher::Twox256 => twox_256_digest(data),
            StorageHasher::Twox64Concat => twox_64_digest(data) + data,
        }
    }

    /// Reads a strategy identifier. Identifiers that the library does not know give
    /// `None`; no strategy stands in for them.
    pub fn from_id(id: u8) -> (r: Option<StorageHasher>)
        ensures
            r == Self::of_id(id),
    {
        if id == 0 {
            Some(StorageHasher::Blake2_128)
        } else if id == 1 {
            Some(StorageHasher::Blake2_256)
        } else if id == 2 {
            Some(StorageHasher::Twox128)
        } else if id == 3 {
            Some(StorageHasher::Twox256)
        } else if id == 4 {
            Some(StorageHasher::Twox64Concat)
        } else {
            None
        }
    }

    /// The identifier of this strategy.
    pub fn id(&self) -> (r: u8)
        ensures
            r == self.spec_id(),
            Self::of_id(r) == Some(*self),
    {
        match self {
            StorageHasher::Blake2_128 => 0,
            StorageHasher::Blake2_256 => 1,
            StorageHasher::Twox128 => 2,
            StorageHasher::Twox256 => 3,
            StorageHasher::Twox64Concat => 4,
        }
    }

    /// Hashes `data` with this strategy.
    pub fn hash(&self, data: &[u8]) -> (r: Vec<u8>)
        ensures
            r@ == self.digest(data@),
    {
        match self {
            StorageHasher::Blake2_128 => blake2_128(data),
            StorageHasher::Blake2_256 => blake2_256(data),
            StorageHasher::Twox128 => twox_128(data),
            StorageHasher::Twox256 => twox_256(data),
            StorageHasher::Twox64Concat => {
                let mut out = twox_64(data);
                out.extend_from_slice(data);
                out
            },
        }
    }
}

} // verus!
