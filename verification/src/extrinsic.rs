//! Building signed extrinsics and following them to their confirmation.
//!
//! A builder owns one signer and one nonce. Each submission resolves and encodes its
//! call, has the signer sign the payload, assembles the extrinsic and then advances the
//! nonce by one, before anything is sent. What the transport reports afterwards never
//! changes the nonce again: a submission that fails on the wire has used its nonce.
//! A submission that fails before that, because a name is unknown or the arguments do
//! not fit, leaves the builder as it was and asks nothing of the transport.
//!
//! The layout of an extrinsic with its signed extras:
//!
//! ```text
//! extra      := 0x00 (immortal era)  compact(nonce)  0x00 (no tip)
//! payload    := call  extra  genesis  genesis
//! message    := payload                where it has at most 256 bytes
//!             | blake2_256(payload)    where it has more
//! extrinsic  := compact(length of body)  body
//! body       := 0x83  address  signature  extra  call
//! ```

use crate::client::{fetched, Client};
use crate::codec::{
    bytes_eq, compact_u32_encoding, compact_u64_encoding, encode_compact_u32, encode_compact_u64,
};
use crate::error::{EncodingError, Error, ErrorView};
use crate::hashing::{blake2_256, blake2_256_digest};
use crate::metadata::{views, Encoded, Metadata, StorageKey};
use vstd::prelude::*;

verus! {

/// The first byte of the body of a signed extrinsic: the signed bit and the format
/// version.
pub const SIGNED_VERSION: u8 = 0x83;

/// The longest payload that is signed as it is; a longer one is hashed first.
pub const LONGEST_PLAIN_PAYLOAD: usize = 256;

/// The extras that are part of the extrinsic: an immortal era, the nonce, no tip.
pub open spec fn signed_extra(nonce: u64) -> Seq<u8> {
    seq![0u8] + compact_u64_encoding(nonce) + seq![0u8]
}

/// The extras that are signed but not sent: the genesis hash, once for the chain and
/// once as the block that an immortal era counts from.
pub open spec fn additional_signed(genesis: Seq<u8>) -> Seq<u8> {
    genesis + genesis
}

/// What the signature covers: the call, the extras, and the additional extras.
pub open spec fn signing_payload(call: Seq<u8>, nonce: u64, genesis: Seq<u8>) -> Seq<u8> {
    call + signed_extra(nonce) + additional_signed(genesis)
}

/// What is handed to the signer: the payload, or its hash where it is long.
pub open spec fn signed_message(payload: Seq<u8>) -> Seq<u8> {
    if payload.len() > LONGEST_PLAIN_PAYLOAD {
        blake2_256_digest(payload)
    } else {
        payload
    }
}

/// An extrinsic without its length prefix.
pub open spec fn extrinsic_body(
    address: Seq<u8>,
    signature: Seq<u8>,
    nonce: u64,
    call: Seq<u8>,
) -> Seq<u8> {
    seq![SIGNED_VERSION] + address + signature + signed_extra(nonce) + call
}

/// The bytes of a signed extrinsic, where its body is short enough for a length prefix.
pub open spec fn extrinsic_bytes(
    address: Seq<u8>,
    signature: Seq<u8>,
    nonce: u64,
    call: Seq<u8>,
) -> Option<Seq<u8>> {
    let body = extrinsic_body(address, signature, nonce, call);
    if body.len() > u32::MAX {
        None
    } else {
        Some(compact_u32_encoding(body.len() as u32) + body)
    }
}

/// Encodes the extras that are part of the extrinsic.
pub fn encode_extra(nonce: u64) -> (r: Vec<u8>)
    ensures
        r@ == signed_extra(nonce),
{
    let mut out: Vec<u8> = Vec::new();
    out.push(0u8);
    let encoded = encode_compact_u64(nonce);
    out.extend_from_slice(encoded.as_slice());
    out.push(0u8);
    assert(out@ =~= signed_extra(nonce));
    out
}

/// Puts together what the signature covers.
pub fn encode_payload(call: &[u8], nonce: u64, genesis: &[u8]) -> (r: Vec<u8>)
    ensures
        r@ == signing_payload(call@, nonce, genesis@),
{
    let mut out: Vec<u8> = Vec::new();
    out.extend_from_slice(call);
    let extra = encode_extra(nonce);
    out.extend_from_slice(extra.as_slice());
    out.extend_from_slice(genesis);
    out.extend_from_slice(genesis);
    assert(out@ =~= signing_payload(call@, nonce, genesis@));
    out
}

/// Turns a payload into what the signer signs.
pub fn message_to_sign(payload: Vec<u8>) -> (r: Vec<u8>)
    ensures
        r@ == signed_message(payload@),
{
    if payload.len() > LONGEST_PLAIN_PAYLOAD {
        blake2_256(payload.as_slice())
    } else {
        payload
    }
}

/// Assembles a signed extrinsic from the sender's address, the signature, the nonce
/// that was signed and the call.
pub fn assemble_extrinsic(address: &[u8], signature: &[u8], nonce: u64, call: &[u8]) -> (r: Result<
    Vec<u8>,
    Error,
>)
    ensures
        match extrinsic_bytes(address@, signature@, nonce, call@) {
            Some(bytes) => r matches Ok(v) && v@ == bytes,
            None => r matches Err(e) && e@ == ErrorView::Encoding(EncodingError::TooLong),
        },
{
    let mut body: Vec<u8> = Vec::new();
    body.push(SIGNED_VERSION);
    body.extend_from_slice(address);
    body.extend_from_slice(signature);
    let extra = encode_extra(nonce);
    body.extend_from_slice(extra.as_slice());
    body.extend_from_slice(call);
    assert(body@ =~= extrinsic_body(address@, signature@, nonce, call@));
    if body.len() > u32::MAX as usize {
        return Err(Error::Encoding(EncodingError::TooLong));
    }
    let mut out = encode_compact_u32(body.len() as u32);
    out.extend_from_slice(body.as_slice());
    Ok(out)
}

/// Someone who can sign: a key pair of one of the supported schemes. The library never
/// sees the key.
pub trait Signer {
    /// The signer's public identity, encoded as the chain writes the sender of an
    /// extrinsic.
    fn address(&self) -> Vec<u8>;

    /// The encoded signature of `message`.
    fn sign(&self, message: &[u8]) -> Vec<u8>;
}

/// An extrinsic that has been signed, with what went into it.
#[derive(Debug, Clone, PartialEq, Eq)]
pub struct SignedExtrinsic {
    /// The payload of the call.
    pub call: Encoded,
    /// The nonce that the extrinsic carries.
    pub nonce: u64,
    /// The sender's address, as the signer gave it.
    pub address: Vec<u8>,
    /// The bytes that were handed to the signer.
    pub message: Vec<u8>,
    /// The signature, as the signer gave it.
    pub signature: Vec<u8>,
    /// The extrinsic as it goes to the node.
    pub bytes: Vec<u8>,
}

impl SignedExtrinsic {
    /// The extrinsic carries `call` under `nonce` for the chain that begins at
    /// `genesis`: the signer was handed the message made of them, and the bytes are
    /// assembled from the call, the nonce and what the signer returned.
    pub open spec fn carries(&self, call: Seq<u8>, nonce: u64, genesis: Seq<u8>) -> bool {
        &&& self.call@ == call
        &&& self.nonce == nonce
        &&& self.message@ == signed_message(signing_payload(call, nonce, genesis))
        &&& extrinsic_bytes(self.address@, self.signature@, nonce, call) == Some(self.bytes@)
    }

    /// The hash by which the node knows the extrinsic.
    pub fn hash(&self) -> (r: Vec<u8>)
        ensures
            r@ == blake2_256_digest(self.bytes@),
    {
        blake2_256(self.bytes.as_slice())
    }
}

/// Builds and signs the extrinsics of one signer.
///
/// The nonce belongs to the builder alone. A submission takes the builder by exclusive
/// reference, so two submissions of one builder cannot read the same nonce.
#[derive(Debug)]
pub struct XtBuilder<P> {
    client: Client,
    nonce: u64,
    signer: P,
}

impl<P: Signer> XtBuilder<P> {
    /// The client that the builder submits through.
    pub closed spec fn spec_client(&self) -> Client {
        self.client
    }

    /// The nonce that the next extrinsic will carry.
    pub closed spec fn spec_nonce(&self) -> u64 {
        self.nonce
    }

    /// The signer that the builder owns.
    pub closed spec fn spec_signer(&self) -> P {
        self.signer
    }

    /// What a submission of the call does to a builder: an error that leaves it as it
    /// was, or the call's payload, after which the nonce is one higher.
    pub open spec fn outcome(&self, module: Seq<char>, function: Seq<char>, args: Seq<Seq<u8>>) -> Result<
        Seq<u8>,
        ErrorView,
    > {
        match self.spec_client().spec_metadata().encode_call(module, function, args) {
            Err(e) => Err(e),
            Ok(call) => if self.spec_nonce() == u64::MAX {
                Err(ErrorView::Encoding(EncodingError::NonceExhausted))
            } else {
                Ok(call)
            },
        }
    }

    /// The address of the extrinsic is one that `signer` gave, and its signature is one
    /// that `signer` gave for the extrinsic's message.
    pub open spec fn signed_by(signer: P, xt: SignedExtrinsic) -> bool {
        &&& call_ensures(P::address, (&signer,), xt.address)
        &&& exists|message: &[u8]|
            message@ == xt.message@ && #[trigger] call_ensures(
                P::sign,
                (&signer, message),
                xt.signature,
            )
    }

    /// What holds of a submission, whatever the signer returned.
    pub open spec fn submitted(
        before: &Self,
        after: &Self,
        module: Seq<char>,
        function: Seq<char>,
        args: Seq<Seq<u8>>,
        r: Result<SignedExtrinsic, Error>,
    ) -> bool {
        &&& after.spec_client() == before.spec_client()
        &&& after.spec_signer() == before.spec_signer()
        &&& match before.outcome(module, function, args) {
            Err(e) => r matches Err(err) && err@ == e,
            Ok(call) => match r {
                Ok(xt) => {
                    &&& xt.carries(
                        call,
                        before.spec_nonce(),
                        before.spec_client().spec_genesis_hash(),
                    )
                    &&& Self::signed_by(before.spec_signer(), xt)
                },
                Err(err) => err@ == ErrorView::Encoding(EncodingError::TooLong),
            },
        }
        &&& after.spec_nonce() == if r is Ok {
            before.spec_nonce() + 1
        } else {
            before.spec_nonce() as int
        }
    }

    /// A builder for `signer` on `client` whose first extrinsic carries `nonce`.
    pub fn new(client: Client, signer: P, nonce: u64) -> (r: Self)
        ensures
            r.spec_client() == client,
            r.spec_signer() == signer,
            r.spec_nonce() == nonce,
    {
        XtBuilder { client, nonce, signer }
    }

    /// The client that the builder submits through.
    pub fn client(&self) -> (r: &Client)
        ensures
            *r == self.spec_client(),
    {
        &self.client
    }

    /// The metadata of the node.
    pub fn metadata(&self) -> (r: &Metadata)
        ensures
            r@ == self.spec_client().spec_metadata(),
    {
        self.client.metadata()
    }

    /// The signer.
    pub fn signer(&self) -> (r: &P)
        ensures
            *r == self.spec_signer(),
    {
        &self.signer
    }

    /// The nonce that the next extrinsic will carry.
    pub fn nonce(&self) -> (r: u64)
        ensures
            r == self.spec_nonce(),
    {
        self.nonce
    }

    /// Sets the nonce that the next extrinsic will carry.
    pub fn set_nonce(&mut self, nonce: u64)
        ensures
            final(self).spec_nonce() == nonce,
            final(self).spec_client() == old(self).spec_client(),
            final(self).spec_signer() == old(self).spec_signer(),
    {
        self.nonce = nonce;
    }

    /// Resolves, encodes and signs a call, and advances the nonce.
    fn sign_next(&mut self, module: &str, function: &str, args: &[Vec<u8>]) -> (r: Result<
        SignedExtrinsic,
        Error,
    >)
        ensures
            Self::submitted(old(self), final(self), module@, function@, views(args@), r),
    {
        let call = match self.client.metadata().encode_call(module, function, args) {
            Ok(call) => call,
            Err(e) => {
                return Err(e);
            },
        };
        if self.nonce == u64::MAX {
            return Err(Error::Encoding(EncodingError::NonceExhausted));
        }
        let nonce = self.nonce;
        let payload = encode_payload(call.0.as_slice(), nonce, self.client.genesis_hash());
        let message = message_to_sign(payload);
        let address = self.signer.address();
        let handed = message.as_slice();
        let signature = self.signer.sign(handed);
        assert(call_ensures(P::sign, (&self.signer, handed), signature));
        let bytes = match assemble_extrinsic(
            address.as_slice(),
            signature.as_slice(),
            nonce,
            call.0.as_slice(),
        ) {
            Ok(bytes) => bytes,
            Err(e) => {
                return Err(e);
            },
        };
        self.nonce = nonce + 1;
        Ok(SignedExtrinsic { call, nonce, address, message, signature, bytes })
    }

    /// Signs the call `function` of `module` for submission without waiting: the
    /// transport is to send the extrinsic and report the hash under which the node
    /// took it.
    ///
    /// A name that the metadata does not hold, a wrong number of arguments or an
    /// exhausted nonce is reported and changes nothing. Otherwise the nonce is one
    /// higher afterwards, whatever becomes of the extrinsic on the wire.
    pub fn submit(&mut self, module: &str, function: &str, args: &[Vec<u8>]) -> (r: Result<
        Submitted,
        Error,
    >)
        ensures
            Self::submitted(
                old(self),
                final(self),
                module@,
                function@,
                views(args@),
                match r {
                    Ok(s) => Ok(s.extrinsic),
                    Err(e) => Err(e),
                },
            ),
    {
        match self.sign_next(module, function, args) {
            Ok(extrinsic) => Ok(Submitted { extrinsic }),
            Err(e) => Err(e),
        }
    }

    /// Signs the call `function` of `module` for submission with confirmation: the
    /// transport is to send the extrinsic and follow it until a block includes it.
    ///
    /// The extrinsic is built as [`XtBuilder::submit`] builds it, and failures are the
    /// same.
    pub fn submit_and_watch(&mut self, module: &str, function: &str, args: &[Vec<u8>]) -> (r:
        Result<Watched, Error>)
        ensures
            Self::submitted(
                old(self),
                final(self),
                module@,
                function@,
                views(args@),
                match r {
                    Ok(w) => Ok(w.extrinsic),
                    Err(e) => Err(e),
                },
            ),
    {
        match self.sign_next(module, function, args) {
            Ok(extrinsic) => Ok(Watched { extrinsic }),
            Err(e) => Err(e),
        }
    }
}

/// The nonce that a builder starts from: the one that the caller gives, else the one
/// that the node stores for the account, which is zero where the node stores none.
pub open spec fn seed(nonce: Option<u64>, stored: Option<&[u8]>) -> Result<u64, Error> {
    match nonce {
        Some(n) => Ok(n),
        None => match fetched::<u64>(stored) {
            Ok(Some(n)) => Ok(n),
            Ok(None) => Ok(0),
            Err(e) => Err(e),
        },
    }
}

impl Client {
    /// What the node must be asked before a builder can be made: nothing where the
    /// caller gives the nonce, else the storage key that holds the nonce of the account
    /// whose encoded identity is `account`.
    pub fn nonce_query(&self, account: &[u8], nonce: Option<u64>) -> (r: Result<
        Option<StorageKey>,
        Error,
    >)
        ensures
            match nonce {
                Some(_) => r matches Ok(None),
                None => match self.spec_metadata().storage_key(
                    "System"@,
                    "AccountNonce"@,
                    Some(account@),
                ) {
                    Ok(bytes) => r matches Ok(Some(k)) && k@ == bytes,
                    Err(e) => r matches Err(err) && err@ == e,
                },
            },
    {
        match nonce {
            Some(_) => Ok(None),
            None => match self.account_nonce_key(account) {
                Ok(key) => Ok(Some(key)),
                Err(e) => Err(e),
            },
        }
    }

    /// Makes a builder for `signer`. Its first nonce is `nonce` where the caller gives
    /// one; else it is read from `stored`, the bytes that the node holds under the key
    /// of [`Client::nonce_query`], and is zero where the node holds none.
    pub fn xt<P: Signer>(&self, signer: P, nonce: Option<u64>, stored: Option<&[u8]>) -> (r:
        Result<XtBuilder<P>, Error>)
        ensures
            match seed(nonce, stored) {
                Ok(n) => r matches Ok(b) && b.spec_client() == *self && b.spec_signer() == signer
                    && b.spec_nonce() == n,
                Err(e) => r matches Err(err) && err == e,
            },
    {
        let first = match nonce {
            Some(n) => n,
            None => match self.fetch_or_default::<u64>(stored) {
                Ok(n) => n,
                Err(e) => {
                    return Err(e);
                },
            },
        };
        Ok(XtBuilder::new(self.clone(), signer, first))
    }
}

/// An extrinsic that is to be sent without waiting for its block.
#[derive(Debug, Clone, PartialEq, Eq)]
pub struct Submitted {
    pub extrinsic: SignedExtrinsic,
}

impl Submitted {
    /// Concludes the submission with what the transport reported: the hash under which
    /// the node took the extrinsic, or the failure in the transport's words.
    pub fn acknowledged(self, reply: Result<Vec<u8>, String>) -> (r: Result<Vec<u8>, Error>)
        ensures
            r == match reply {
                Ok(hash) => Ok::<Vec<u8>, Error>(hash),
                Err(text) => Err(Error::Transport(text)),
            },
    {
        match reply {
            Ok(hash) => Ok(hash),
            Err(text) => Err(Error::Transport(text)),
        }
    }
}

/// Where in a block an event was emitted.
#[derive(Debug, Clone, Copy, PartialEq, Eq, Structural)]
pub enum Phase {
    /// While the extrinsic at this position was applied.
    ApplyExtrinsic(u32),
    /// While the block was finalized.
    Finalization,
}

/// An event of a block, still encoded, with its phase.
#[derive(Debug, Clone, PartialEq, Eq)]
pub struct EventRecord {
    pub phase: Phase,
    pub event: Vec<u8>,
}

/// What is known of an extrinsic once a block includes it.
#[derive(Debug, Clone, PartialEq, Eq)]
pub struct ExtrinsicSuccess {
    /// Block hash.
    pub block: Vec<u8>,
    /// Extrinsic hash.
    pub extrinsic: Vec<u8>,
    /// The events that the extrinsic emitted, in the order of the block.
    pub events: Vec<Vec<u8>>,
}

/// The position of the first of `extrinsics` whose hash is `hash`.
pub open spec fn position_by_hash(extrinsics: Seq<Seq<u8>>, hash: Seq<u8>) -> Option<int>
    decreases extrinsics.len(),
{
    if extrinsics.len() == 0 {
        None
    } else {
        match position_by_hash(extrinsics.drop_last(), hash) {
            Some(i) => Some(i),
            None => if blake2_256_digest(extrinsics.last()) == hash {
                Some(extrinsics.len() - 1)
            } else {
                None
            },
        }
    }
}

/// The events among `records` that were emitted while the extrinsic at position `index`
/// was applied, in their order.
pub open spec fn attributed(records: Seq<EventRecord>, index: int) -> Seq<Seq<u8>>
    decreases records.len(),
{
    if records.len() == 0 {
        Seq::empty()
    } else {
        let before = attributed(records.drop_last(), index);
        match records.last().phase {
            Phase::ApplyExtrinsic(i) => if i == index {
                before.push(records.last().event@)
            } else {
                before
            },
            Phase::Finalization => before,
        }
    }
}

/// An extrinsic that is to be sent and followed until a block includes it.
#[derive(Debug, Clone, PartialEq, Eq)]
pub struct Watched {
    pub extrinsic: SignedExtrinsic,
}

/// What a node reports of an extrinsic that it was asked to follow.
#[derive(Debug, Clone, PartialEq, Eq)]
pub enum TransactionStatus {
    /// The extrinsic waits in the pool for an earlier nonce.
    Future,
    /// The extrinsic is ready to go into a block.
    Ready,
    /// The extrinsic has been passed on to other nodes.
    Broadcast,
    /// A block with this hash includes the extrinsic.
    Finalized(Vec<u8>),
    /// Another extrinsic with the same nonce took its place.
    Usurped(Vec<u8>),
    /// The pool dropped the extrinsic.
    Dropped,
    /// The extrinsic is no longer valid.
    Invalid,
}

/// Where a followed extrinsic stands after a report of the node.
#[derive(Debug, Clone, PartialEq, Eq)]
pub enum Progress {
    /// Nothing is decided; the next report is awaited.
    Pending,
    /// The block with this hash includes the extrinsic.
    Included(Vec<u8>),
    /// The extrinsic will not be included.
    Failed(Error),
}

/// The text for an extrinsic whose place another one took. This and the two texts
/// below are how the library words a node's giving an extrinsic up.
pub const USURPED: &'static str = "extrinsic usurped";

/// The text for an extrinsic that the pool dropped.
pub const DROPPED: &'static str = "extrinsic dropped";

/// The text for an extrinsic that is no longer valid.
pub const INVALID: &'static str = "extrinsic invalid";

impl Watched {
    /// Takes a report of the node: the extrinsic stays pending until a block includes
    /// it or the node gives it up, which is reported as a failure of the transport.
    pub fn observe(&self, status: TransactionStatus) -> (r: Progress)
        ensures
            match status {
                TransactionStatus::Future => r == Progress::Pending,
                TransactionStatus::Ready => r == Progress::Pending,
                TransactionStatus::Broadcast => r == Progress::Pending,
                TransactionStatus::Finalized(block) => r == Progress::Included(block),
                TransactionStatus::Usurped(_) => r matches Progress::Failed(e) && e@
                    == ErrorView::Transport(USURPED@),
                TransactionStatus::Dropped => r matches Progress::Failed(e) && e@
                    == ErrorView::Transport(DROPPED@),
                TransactionStatus::Invalid => r matches Progress::Failed(e) && e@
                    == ErrorView::Transport(INVALID@),
            },
    {
        match status {
            TransactionStatus::Future => Progress::Pending,
            TransactionStatus::Ready => Progress::Pending,
            TransactionStatus::Broadcast => Progress::Pending,
            TransactionStatus::Finalized(block) => Progress::Included(block),
            TransactionStatus::Usurped(_) => Progress::Failed(Error::Transport(USURPED.to_owned())),
            TransactionStatus::Dropped => Progress::Failed(Error::Transport(DROPPED.to_owned())),
            TransactionStatus::Invalid => Progress::Failed(Error::Transport(INVALID.to_owned())),
        }
    }

    /// Concludes the submission with a failure that the transport reported.
    pub fn failed(self, text: String) -> (r: Error)
        ensures
            r == Error::Transport(text),
    {
        Error::Transport(text)
    }

    /// Concludes the submission with the block that includes the extrinsic: the
    /// block's hash, its extrinsics as they are encoded, and the records of its events.
    ///
    /// The extrinsic is found in the block by its hash. The events of the result are
    /// those that the block emitted while it applied the extrinsic, in the block's
    /// order. A block that does not hold the extrinsic is refused.
    pub fn included(self, block: Vec<u8>, extrinsics: &[Vec<u8>], records: &[EventRecord]) -> (r:
        Result<ExtrinsicSuccess, Error>)
        ensures
            match position_by_hash(views(extrinsics@), blake2_256_digest(self.extrinsic.bytes@)) {
                None => r matches Err(e) && e@ == ErrorView::Decoding,
                Some(index) => r matches Ok(success) && success.block == block
                    && success.extrinsic@ == blake2_256_digest(self.extrinsic.bytes@)
                    && views(success.events@) == attributed(records@, index),
            },
    {
        let hash = self.extrinsic.hash();
        let ghost all = views(extrinsics@);
        let mut found: Option<usize> = None;
        let mut i: usize = 0;
        while i < extrinsics.len() && found.is_none()
            invariant
                i <= extrinsics@.len(),
                all == views(extrinsics@),
                hash@ == blake2_256_digest(self.extrinsic.bytes@),
                position_by_hash(all.take(i as int), hash@) == match found {
                    Some(k) => Some(k as int),
                    None => None,
                },
                found matches Some(k) ==> k < extrinsics@.len(),
            decreases extrinsics@.len() - i, found.is_none() as int,
        {
            let digest = blake2_256(extrinsics[i].as_slice());
            proof {
                assert(all.take(i + 1).drop_last() =~= all.take(i as int));
                assert(all.take(i + 1).last() == extrinsics@[i as int]@);
            }
            if bytes_eq(digest.as_slice(), hash.as_slice()) {
                found = Some(i);
            }
            i += 1;
        }
        proof {
            lemma_position_stays(all, i as int, hash@);
        }
        let index = match found {
            Some(index) => index,
            None => {
                return Err(Error::Decoding);
            },
        };
        let mut events: Vec<Vec<u8>> = Vec::new();
        let mut j: usize = 0;
        assert(views(events@) =~= attributed(records@.take(0), index as int));
        while j < records.len()
            invariant
                j <= records@.len(),
                views(events@) == attributed(records@.take(j as int), index as int),
            decreases records@.len() - j,
        {
            proof {
                assert(records@.take(j + 1).drop_last() =~= records@.take(j as int));
                assert(records@.take(j + 1).last() == records@[j as int]);
            }
            match records[j].phase {
                Phase::ApplyExtrinsic(k) => {
                    if k as usize == index {
                        let mut event: Vec<u8> = Vec::new();
                        event.extend_from_slice(records[j].event.as_slice());
                        assert(event@ =~= records@[j as int].event@);
                        assert(views(events@.push(event)) =~= views(events@).push(
                            records@[j as int].event@,
                        ));
                        events.push(event);
                    }
                },
                Phase::Finalization => {},
            }
            j += 1;
        }
        assert(records@.take(j as int) =~= records@);
        Ok(ExtrinsicSuccess { block, extrinsic: hash, events })
    }
}

/// Once a position is found among the first `i` extrinsics, it is the position among
/// all of them.
proof fn lemma_position_stays(all: Seq<Seq<u8>>, i: int, hash: Seq<u8>)
    requires
        0 <= i <= all.len(),
        position_by_hash(all.take(i), hash) is Some || i == all.len(),
    ensures
        position_by_hash(all, hash) == position_by_hash(all.take(i), hash),
    decreases all.len() - i,
{
    if i == all.len() {
        assert(all.take(i) =~= all);
    } else {
        assert(all.take(i + 1).drop_last() =~= all.take(i));
        lemma_position_stays(all, i + 1, hash);
    }
}

/// In a row of numbers that each exceed the one before by one, the last exceeds the
/// first by the number of steps.
proof fn lemma_counting(nonces: Seq<u64>)
    requires
        nonces.len() > 0,
        forall|i: int| 0 <= i < nonces.len() - 1 ==> #[trigger] nonces[i + 1] == nonces[i] + 1,
    ensures
        nonces.last() == nonces.first() + (nonces.len() - 1),
    decreases nonces.len(),
{
    if nonces.len() > 1 {
        let init = nonces.drop_last();
        assert forall|i: int| 0 <= i < init.len() - 1 implies #[trigger] init[i + 1] == init[i]
            + 1 by {
            assert(nonces[i + 1] == nonces[i] + 1);
        }
        lemma_counting(init);
        assert(nonces[nonces.len() - 2 + 1] == nonces[nonces.len() - 2] + 1);
    }
}

/// After a row of successful submissions, the builder's nonce is the nonce it began
/// with plus the number of submissions.
///
/// `builders` holds the builder before the first submission and after each one, and
/// `results` what each submission returned; the submissions are of any calls.
pub proof fn lemma_nonce_counts_submissions<P: Signer>(
    builders: Seq<XtBuilder<P>>,
    modules: Seq<Seq<char>>,
    functions: Seq<Seq<char>>,
    args: Seq<Seq<Seq<u8>>>,
    results: Seq<Result<SignedExtrinsic, Error>>,
)
    requires
        builders.len() == results.len() + 1,
        forall|i: int|
            0 <= i < results.len() ==> (#[trigger] results[i]) is Ok && XtBuilder::submitted(
                &builders[i],
                &builders[i + 1],
                modules[i],
                functions[i],
                args[i],
                results[i],
            ),
    ensures
        builders.last().spec_nonce() == builders.first().spec_nonce() + results.len(),
{
    let nonces = Seq::new(builders.len(), |i: int| builders[i].spec_nonce());
    assert forall|i: int| 0 <= i < nonces.len() - 1 implies #[trigger] nonces[i + 1] == nonces[i]
        + 1 by {
        assert(results[i] is Ok);
    }
    lemma_counting(nonces);
}

} // verus!
