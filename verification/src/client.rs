//! The client: one view of a connected node, made of the node's genesis hash and the
//! metadata it returned when the connection was made.
//!
//! Both are fixed for the life of the client. Clones of a client share them; none of
//! them fetches anything again. The library does not talk to the node: where an
//! operation needs the node, the client says what to ask for and takes what the node
//! returned.

use crate::codec::Decode;
use crate::error::{Error, ErrorView};
use crate::grammar;
use crate::hashing::StorageHasher;
use crate::metadata::{plain_key, storage_prefix, Metadata, MetadataView, StorageKey};
use std::sync::Arc;
use vstd::prelude::*;

verus! {

/// The serialization that `url::Url::parse` gives the URL it reads from `text`, or
/// `None` where it reports an error.
pub uninterp spec fn url_serialization(text: Seq<char>) -> Option<Seq<char>>;

/// Calls `url::Url::parse` and takes the URL's serialization. Trusted: the outcome
/// depends on `text` alone.
#[verifier::external_body]
fn parse_url(text: &str) -> (r: Option<String>)
    ensures
        url_serialization(text@) == match r {
            Some(s) => Some(s@),
            None => None,
        },
{
    match url::Url::parse(text) {
        Ok(url) => Some(url.into_string()),
        Err(_) => None,
    }
}

/// Calls `Arc::clone`. Trusted: the new handle points to the value that the old one
/// points to.
#[verifier::external_body]
fn share<T>(handle: &Arc<T>) -> (r: Arc<T>)
    ensures
        *r == **handle,
{
    Arc::clone(handle)
}

/// The address of a node when none is given.
pub const DEFAULT_URL: &'static str = "ws://127.0.0.1:9944";

/// The address of a node: a URL as the `url` crate writes it.
#[derive(Debug, Clone, PartialEq, Eq)]
pub struct Endpoint {
    text: String,
}

impl View for Endpoint {
    type V = Seq<char>;

    closed spec fn view(&self) -> Seq<char> {
        self.text@
    }
}

impl Endpoint {
    /// Reads a URL. Text that is not a URL is refused.
    pub fn parse(text: &str) -> (r: Result<Endpoint, Error>)
        ensures
            match url_serialization(text@) {
                Some(s) => r matches Ok(e) && e@ == s,
                None => r matches Err(e) && e@ == ErrorView::InvalidUrl,
            },
    {
        match parse_url(text) {
            Some(text) => Ok(Endpoint { text }),
            None => Err(Error::InvalidUrl),
        }
    }

    /// The URL as text.
    pub fn as_str(&self) -> (r: &str)
        ensures
            r@ == self@,
    {
        self.text.as_str()
    }
}

/// Collects what a client is made of.
#[derive(Debug)]
pub struct ClientBuilder {
    url: Option<Endpoint>,
}

impl ClientBuilder {
    /// The address that was set, if one was.
    pub closed spec fn spec_url(&self) -> Option<Endpoint> {
        self.url
    }

    /// The address at which the client will look for its node: the one that was set,
    /// else the one that [`DEFAULT_URL`] reads as.
    pub open spec fn spec_endpoint(&self) -> Option<Seq<char>> {
        match self.spec_url() {
            Some(url) => Some(url@),
            None => url_serialization(DEFAULT_URL@),
        }
    }

    /// A builder with no address set.
    pub fn new() -> (r: ClientBuilder)
        ensures
            r.spec_url() is None,
    {
        ClientBuilder { url: None }
    }

    /// Sets the address of the node.
    pub fn set_url(self, url: Endpoint) -> (r: ClientBuilder)
        ensures
            r.spec_url() == Some(url),
    {
        ClientBuilder { url: Some(url) }
    }

    /// The address to connect to.
    pub fn endpoint(&self) -> (r: Result<Endpoint, Error>)
        ensures
            match self.spec_endpoint() {
                Some(s) => r matches Ok(e) && e@ == s,
                None => r matches Err(e) && e@ == ErrorView::InvalidUrl,
            },
    {
        match &self.url {
            Some(url) => Ok(Endpoint { text: url.text.clone() }),
            None => Endpoint::parse(DEFAULT_URL),
        }
    }

    /// Makes the client from what the node at the builder's address returned: its
    /// genesis hash and its metadata blob. The address is settled first, then the blob
    /// is parsed; the first failure is the one reported.
    pub fn build(self, genesis_hash: Vec<u8>, metadata: &[u8]) -> (r: Result<Client, Error>)
        ensures
            match self.spec_endpoint() {
                None => r matches Err(e) && e@ == ErrorView::InvalidUrl,
                Some(url) => match grammar::metadata(metadata@) {
                    Err(e) => r matches Err(err) && err@ == ErrorView::Metadata(e),
                    Ok(registry) => r matches Ok(client) && client.spec_url() == url
                        && client.spec_genesis_hash() == genesis_hash@ && client.spec_metadata()
                        == registry && registry.wf(),
                },
            },
    {
        let url = match self.endpoint() {
            Ok(url) => url,
            Err(e) => {
                return Err(e);
            },
        };
        let metadata = match Metadata::parse(metadata) {
            Ok(m) => m,
            Err(e) => {
                return Err(e);
            },
        };
        Ok(Client { shared: Arc::new(ClientState { url, genesis_hash, metadata }) })
    }
}

/// What the clones of a client share.
#[derive(Debug)]
struct ClientState {
    url: Endpoint,
    genesis_hash: Vec<u8>,
    metadata: Metadata,
}

/// A client of one node.
#[derive(Debug)]
pub struct Client {
    shared: Arc<ClientState>,
}

impl Clone for Client {
    /// A second handle to the same genesis hash and metadata.
    fn clone(&self) -> (r: Client)
        ensures
            r == *self,
    {
        Client { shared: share(&self.shared) }
    }
}

impl Client {
    /// The address of the node, as text.
    pub closed spec fn spec_url(&self) -> Seq<char> {
        self.shared.url@
    }

    /// The hash of the node's genesis block.
    pub closed spec fn spec_genesis_hash(&self) -> Seq<u8> {
        self.shared.genesis_hash@
    }

    /// The registry that was read from the node's metadata.
    pub closed spec fn spec_metadata(&self) -> MetadataView {
        self.shared.metadata@
    }

    /// The address of the node.
    pub fn url(&self) -> (r: &Endpoint)
        ensures
            r@ == self.spec_url(),
    {
        &self.shared.url
    }

    /// The hash of the node's genesis block.
    pub fn genesis_hash(&self) -> (r: &[u8])
        ensures
            r@ == self.spec_genesis_hash(),
    {
        self.shared.genesis_hash.as_slice()
    }

    /// The metadata of the node.
    pub fn metadata(&self) -> (r: &Metadata)
        ensures
            r@ == self.spec_metadata(),
    {
        &self.shared.metadata
    }

    /// Decodes what the node returned for a storage key. A key that holds nothing gives
    /// `None`, which is no error; bytes that do not decode are one.
    pub fn fetch<V: Decode>(&self, stored: Option<&[u8]>) -> (r: Result<Option<V>, Error>)
        ensures
            r == fetched::<V>(stored),
    {
        match stored {
            None => Ok(None),
            Some(bytes) => match V::decode(bytes) {
                Some(v) => Ok(Some(v)),
                None => Err(Error::Decoding),
            },
        }
    }

    /// As [`Client::fetch`], with `default` for a key that holds nothing.
    pub fn fetch_or<V: Decode>(&self, stored: Option<&[u8]>, default: V) -> (r: Result<V, Error>)
        ensures
            r == match fetched::<V>(stored) {
                Ok(Some(v)) => Ok(v),
                Ok(None) => Ok(default),
                Err(e) => Err(e),
            },
    {
        match self.fetch(stored) {
            Ok(Some(v)) => Ok(v),
            Ok(None) => Ok(default),
            Err(e) => Err(e),
        }
    }

    /// As [`Client::fetch`], with the type's default value for a key that holds nothing.
    /// A key that holds something gives the decoded value.
    pub fn fetch_or_default<V: Decode + Default>(&self, stored: Option<&[u8]>) -> (r: Result<
        V,
        Error,
    >)
        ensures
            match fetched::<V>(stored) {
                Ok(Some(v)) => r == Ok::<V, Error>(v),
                Ok(None) => r matches Ok(v) && V::default.ensures((), v),
                Err(e) => r == Err::<V, Error>(e),
            },
    {
        match self.fetch(stored) {
            Ok(Some(v)) => Ok(v),
            Ok(None) => Ok(V::default()),
            Err(e) => Err(e),
        }
    }

    /// The key under which the node keeps the events of the current block. A
    /// subscription to the changes of this key yields the events of every block.
    pub fn events_key(&self) -> (r: StorageKey)
        ensures
            r@ == plain_key(storage_prefix("System"@, "Events"@)),
    {
        let mut prefix: Vec<u8> = Vec::new();
        prefix.extend_from_slice("System".as_bytes());
        prefix.push(0x20u8);
        prefix.extend_from_slice("Events".as_bytes());
        assert(prefix@ =~= storage_prefix("System"@, "Events"@));
        StorageKey(StorageHasher::Twox128.hash(prefix.as_slice()))
    }

    /// The key under which the node keeps the nonce of the account whose encoded
    /// identity is `account`.
    pub fn account_nonce_key(&self, account: &[u8]) -> (r: Result<StorageKey, Error>)
        ensures
            match self.spec_metadata().storage_key("System"@, "AccountNonce"@, Some(account@)) {
                Ok(bytes) => r matches Ok(k) && k@ == bytes,
                Err(e) => r matches Err(err) && err@ == e,
            },
    {
        self.shared.metadata.storage_key("System", "AccountNonce", Some(account))
    }
}

/// What a storage key holds, decoded: nothing for a key that holds nothing, an error
/// for bytes that do not begin with a value.
pub open spec fn fetched<V: Decode>(stored: Option<&[u8]>) -> Result<Option<V>, Error> {
    match stored {
        None => Ok(None),
        Some(bytes) => match V::decoding(bytes@) {
            Some(v) => Ok(Some(v)),
            None => Err(Error::Decoding),
        },
    }
}

} // verus!
