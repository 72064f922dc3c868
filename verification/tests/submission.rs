use parity_scale_codec::{Compact, Encode};
use std::cell::Cell;
use std::rc::Rc;
use substrate_subxt::client::{Client, ClientBuilder, Endpoint, DEFAULT_URL};
use substrate_subxt::error::{EncodingError, Error, Lookup, MetadataError};
use substrate_subxt::extrinsic::{
    assemble_extrinsic, encode_extra, encode_payload, message_to_sign, EventRecord, Phase,
    Progress, Signer, TransactionStatus, XtBuilder,
};
use substrate_subxt::srml::litentry::{Litentry, LitentryCalls};

fn text(s: &str) -> Vec<u8> {
    s.encode()
}

fn list(items: &[Vec<u8>]) -> Vec<u8> {
    let mut out = Compact(items.len() as u32).encode();
    for item in items {
        out.extend_from_slice(item);
    }
    out
}

fn call(name: &str, arity: usize) -> Vec<u8> {
    let mut out = text(name);
    let args: Vec<Vec<u8>> = (0..arity)
        .map(|i| {
            let mut a = text(&format!("arg{}", i));
            a.extend(text("T"));
            a
        })
        .collect();
    out.extend(list(&args));
    out.extend(list(&[]));
    out
}

fn nonce_entry() -> Vec<u8> {
    let mut out = text("AccountNonce");
    out.push(1);
    out.push(1);
    out.push(1);
    out.extend(text("T::AccountId"));
    out.extend(text("T::Index"));
    out.push(0);
    out.extend(vec![0u8; 8].encode());
    out.extend(list(&[]));
    out
}

fn module(name: &str, storage: Vec<Vec<u8>>, calls: Vec<Vec<u8>>) -> Vec<u8> {
    let mut out = text(name);
    if storage.is_empty() {
        out.push(0);
    } else {
        out.push(1);
        out.extend(text(name));
        out.extend(list(&storage));
    }
    out.push(1);
    out.extend(list(&calls));
    out.push(0);
    out.extend(list(&[]));
    out
}

fn blob() -> Vec<u8> {
    let mut out = b"meta".to_vec();
    out.push(7);
    out.extend(list(&[
        module("System", vec![nonce_entry()], vec![call("remark", 1)]),
        module("Balances", vec![], vec![call("set_balance", 3), call("transfer", 2)]),
        module("Litentry", vec![], vec![call("register_identity", 0)]),
    ]));
    out
}

fn genesis() -> Vec<u8> {
    vec![0x11u8; 32]
}

fn client() -> Client {
    ClientBuilder::new().build(genesis(), &blob()).unwrap()
}

#[derive(Debug)]
struct Stub {
    signed: Rc<Cell<usize>>,
}

impl Stub {
    fn new() -> (Stub, Rc<Cell<usize>>) {
        let signed = Rc::new(Cell::new(0));
        (Stub { signed: signed.clone() }, signed)
    }
}

fn stub_address() -> Vec<u8> {
    let mut address = vec![0xffu8];
    address.extend_from_slice(&[0xaa; 32]);
    address
}

fn stub_signature(message: &[u8]) -> Vec<u8> {
    let mut signature = sp_crypto_hashing::blake2_256(message).to_vec();
    signature.extend_from_slice(&sp_crypto_hashing::twox_256(message));
    signature
}

impl Signer for Stub {
    fn address(&self) -> Vec<u8> {
        stub_address()
    }

    fn sign(&self, message: &[u8]) -> Vec<u8> {
        self.signed.set(self.signed.get() + 1);
        stub_signature(message)
    }
}

fn builder(nonce: u64) -> (XtBuilder<Stub>, Rc<Cell<usize>>) {
    let (stub, signed) = Stub::new();
    (client().xt(stub, Some(nonce), None).unwrap(), signed)
}

#[test]
fn default_endpoint_is_the_local_node() {
    assert_eq!(DEFAULT_URL, "ws://127.0.0.1:9944");
    let url = ClientBuilder::new().endpoint().unwrap();
    assert_eq!(url.as_str(), "ws://127.0.0.1:9944/");
    assert_eq!(client().url().as_str(), "ws://127.0.0.1:9944/");
}

#[test]
fn endpoint_is_the_one_that_was_set() {
    let url = Endpoint::parse("wss://node.example.org:443/rpc").unwrap();
    let builder = ClientBuilder::new().set_url(url.clone());
    assert_eq!(builder.endpoint().unwrap(), url);
    let client = builder.build(genesis(), &blob()).unwrap();
    assert_eq!(client.url().as_str(), url.as_str());
    assert_eq!(url.as_str(), "wss://node.example.org/rpc");
}

#[test]
fn endpoint_refuses_text_that_is_no_url() {
    assert_eq!(Endpoint::parse("not a url").unwrap_err(), Error::InvalidUrl);
    assert_eq!(Endpoint::parse("").unwrap_err(), Error::InvalidUrl);
}

#[test]
fn build_refuses_bad_metadata() {
    let err = ClientBuilder::new().build(genesis(), b"nope!").unwrap_err();
    assert_eq!(err, Error::Metadata(MetadataError::InvalidPrefix));
    let err = ClientBuilder::new().build(genesis(), b"meta\x07").unwrap_err();
    assert_eq!(err, Error::Metadata(MetadataError::Malformed));
}

#[test]
fn clones_share_genesis_and_metadata() {
    let a = client();
    let b = a.clone();
    assert_eq!(a.genesis_hash(), b.genesis_hash());
    assert_eq!(b.genesis_hash(), &genesis()[..]);
    assert!(std::ptr::eq(a.metadata(), b.metadata()));
    assert_eq!(b.metadata().modules().len(), 3);
}

#[test]
fn fetch_tells_absent_from_undecodable() {
    let c = client();
    assert_eq!(c.fetch::<u64>(None), Ok(None));
    assert_eq!(c.fetch::<u64>(Some(&[0x10, 0x27, 0, 0, 0, 0, 0, 0])), Ok(Some(10_000)));
    assert_eq!(c.fetch::<u64>(Some(&[1, 0, 0, 0, 0, 0, 0, 0, 9, 9])), Ok(Some(1)));
    assert_eq!(c.fetch::<u64>(Some(&[1, 2, 3])), Err(Error::Decoding));
    assert_eq!(c.fetch::<u32>(Some(&[1, 2, 3, 4])), Ok(Some(0x04030201)));
    assert_eq!(c.fetch::<u32>(Some(&[])), Err(Error::Decoding));
    let mut wide = vec![0u8; 16];
    wide[15] = 0x80;
    assert_eq!(c.fetch::<u128>(Some(&wide)), Ok(Some(1u128 << 127)));
    assert_eq!(c.fetch::<u128>(Some(&wide[..15])), Err(Error::Decoding));
}

#[test]
fn fetch_or_uses_the_default_only_for_an_absent_value() {
    let c = client();
    assert_eq!(c.fetch_or::<u64>(None, 42), Ok(42));
    assert_eq!(c.fetch_or::<u64>(Some(&[7, 0, 0, 0, 0, 0, 0, 0]), 42), Ok(7));
    assert_eq!(c.fetch_or::<u64>(Some(&[7]), 42), Err(Error::Decoding));
}

#[test]
fn fetch_or_default_uses_the_default_only_for_an_absent_value() {
    let c = client();
    assert_eq!(c.fetch_or_default::<u64>(None), Ok(0));
    assert_eq!(c.fetch_or_default::<u128>(None), Ok(0));
    assert_eq!(c.fetch_or_default::<u64>(Some(&[5, 0, 0, 0, 0, 0, 0, 0])), Ok(5));
    assert_eq!(c.fetch_or_default::<u64>(Some(&[0, 0, 0, 0, 0, 0, 0, 0])), Ok(0));
    assert_eq!(c.fetch_or_default::<u64>(Some(&[5, 0])), Err(Error::Decoding));
}

#[test]
fn events_are_kept_under_a_plain_key() {
    let c = client();
    assert_eq!(c.events_key().0, sp_crypto_hashing::twox_128(b"System Events").to_vec());
}

#[test]
fn reports_of_the_node_decide_a_watched_extrinsic() {
    let (mut xt, _) = builder(0);
    let watched = xt.submit_and_watch("Litentry", "register_identity", &[]).unwrap();
    assert_eq!(watched.observe(TransactionStatus::Future), Progress::Pending);
    assert_eq!(watched.observe(TransactionStatus::Ready), Progress::Pending);
    assert_eq!(watched.observe(TransactionStatus::Broadcast), Progress::Pending);
    assert_eq!(
        watched.observe(TransactionStatus::Finalized(vec![7; 32])),
        Progress::Included(vec![7; 32])
    );
    assert_eq!(
        watched.observe(TransactionStatus::Usurped(vec![1])),
        Progress::Failed(Error::Transport("extrinsic usurped".to_string()))
    );
    assert_eq!(
        watched.observe(TransactionStatus::Dropped),
        Progress::Failed(Error::Transport("extrinsic dropped".to_string()))
    );
    assert_eq!(
        watched.observe(TransactionStatus::Invalid),
        Progress::Failed(Error::Transport("extrinsic invalid".to_string()))
    );
}

#[test]
fn nonce_is_asked_for_only_where_none_is_given() {
    let c = client();
    let account = [0xaau8; 32];
    assert_eq!(c.nonce_query(&account, Some(3)), Ok(None));
    let key = c.nonce_query(&account, None).unwrap().unwrap();
    let mut expected = sp_crypto_hashing::blake2_256(b"System AccountNonce").to_vec();
    expected.extend_from_slice(&sp_crypto_hashing::blake2_256(&account));
    assert_eq!(key.0, expected);
    assert_eq!(c.account_nonce_key(&account).unwrap(), key);
}

#[test]
fn builder_is_seeded_by_the_caller_or_the_node() {
    let c = client();
    assert_eq!(c.xt(Stub::new().0, Some(5), None).unwrap().nonce(), 5);
    assert_eq!(c.xt(Stub::new().0, Some(5), Some(&[9, 0, 0, 0, 0, 0, 0, 0])).unwrap().nonce(), 5);
    assert_eq!(c.xt(Stub::new().0, None, None).unwrap().nonce(), 0);
    assert_eq!(c.xt(Stub::new().0, None, Some(&[9, 0, 0, 0, 0, 0, 0, 0])).unwrap().nonce(), 9);
    assert_eq!(c.xt(Stub::new().0, None, Some(&[9, 0])).unwrap_err(), Error::Decoding);
}

#[test]
fn nonce_can_be_read_and_set() {
    let (mut xt, _) = builder(7);
    assert_eq!(xt.nonce(), 7);
    xt.set_nonce(100);
    assert_eq!(xt.nonce(), 100);
    assert_eq!(xt.metadata().modules().len(), 3);
    assert_eq!(xt.client().genesis_hash(), &genesis()[..]);
    assert_eq!(xt.signer().address(), stub_address());
}

#[test]
fn extras_are_era_nonce_and_tip() {
    assert_eq!(encode_extra(0), vec![0, 0, 0]);
    assert_eq!(encode_extra(1), vec![0, 4, 0]);
    assert_eq!(encode_extra(64), vec![0, 0x01, 0x01, 0]);
    assert_eq!(encode_extra(u64::MAX), vec![0, 0x13, 255, 255, 255, 255, 255, 255, 255, 255, 0]);
}

#[test]
fn payload_is_call_extras_and_genesis_twice() {
    let payload = encode_payload(&[2, 1, 9], 1, &[0x11, 0x22]);
    assert_eq!(payload, vec![2, 1, 9, 0, 4, 0, 0x11, 0x22, 0x11, 0x22]);
}

#[test]
fn long_payloads_are_hashed_before_signing() {
    let short = vec![1u8; 256];
    assert_eq!(message_to_sign(short.clone()), short);
    let long = vec![1u8; 257];
    assert_eq!(message_to_sign(long.clone()), sp_crypto_hashing::blake2_256(&long).to_vec());
}

#[test]
fn extrinsic_is_length_version_address_signature_extras_call() {
    let bytes = assemble_extrinsic(&[0xff, 1], &[2, 3, 4], 1, &[5, 6]).unwrap();
    assert_eq!(bytes, vec![11 << 2, 0x83, 0xff, 1, 2, 3, 4, 0, 4, 0, 5, 6]);
}

#[test]
fn submit_signs_and_advances_the_nonce() {
    let (mut xt, signed) = builder(0);
    let sent = xt.submit("Litentry", "register_identity", &[]).unwrap().extrinsic;
    assert_eq!(xt.nonce(), 1);
    assert_eq!(signed.get(), 1);
    assert_eq!(sent.nonce, 0);
    assert_eq!(sent.call.0, vec![2, 0]);
    let mut payload = vec![2u8, 0, 0, 0, 0];
    payload.extend(genesis());
    payload.extend(genesis());
    assert_eq!(sent.message, payload);
    assert_eq!(sent.address, stub_address());
    assert_eq!(sent.signature, stub_signature(&payload));
    let mut expected = vec![0x9du8, 0x01, 0x83];
    expected.extend(stub_address());
    expected.extend(stub_signature(&payload));
    expected.extend_from_slice(&[0, 0, 0, 2, 0]);
    assert_eq!(sent.bytes, expected);
    assert_eq!(sent.hash(), sp_crypto_hashing::blake2_256(&expected).to_vec());
}

#[test]
fn submit_hashes_a_long_payload() {
    let (mut xt, _) = builder(3);
    let sent = xt.submit("System", "remark", &[vec![0x5a; 300]]).unwrap().extrinsic;
    let mut payload = vec![0u8, 0];
    payload.extend_from_slice(&[0x5a; 300]);
    payload.extend_from_slice(&[0, 12, 0]);
    payload.extend(genesis());
    payload.extend(genesis());
    assert_eq!(sent.message, sp_crypto_hashing::blake2_256(&payload).to_vec());
    assert_eq!(xt.nonce(), 4);
}

#[test]
fn nonce_counts_the_submissions() {
    let (mut xt, signed) = builder(40);
    for n in 0..5u64 {
        assert_eq!(xt.nonce(), 40 + n);
        let sent = xt.submit("Balances", "transfer", &[vec![1], vec![2]]).unwrap();
        assert_eq!(sent.extrinsic.nonce, 40 + n);
    }
    let watched = xt.submit_and_watch("Balances", "transfer", &[vec![1], vec![2]]).unwrap();
    assert_eq!(watched.extrinsic.nonce, 45);
    assert_eq!(xt.nonce(), 46);
    assert_eq!(signed.get(), 6);
}

#[test]
fn transport_failure_does_not_give_the_nonce_back() {
    let (mut xt, _) = builder(9);
    let sent = xt.submit("Litentry", "register_identity", &[]).unwrap();
    assert_eq!(
        sent.acknowledged(Err("connection reset".to_string())),
        Err(Error::Transport("connection reset".to_string()))
    );
    assert_eq!(xt.nonce(), 10);
    let sent = xt.submit("Litentry", "register_identity", &[]).unwrap();
    assert_eq!(sent.acknowledged(Ok(vec![1, 2, 3])), Ok(vec![1, 2, 3]));
    assert_eq!(xt.nonce(), 11);
    let watched = xt.submit_and_watch("Litentry", "register_identity", &[]).unwrap();
    assert_eq!(watched.failed("gone".to_string()), Error::Transport("gone".to_string()));
    assert_eq!(xt.nonce(), 12);
}

#[test]
fn unknown_module_fails_before_anything_is_signed() {
    let (mut xt, signed) = builder(9);
    let err = xt.submit_and_watch("UnknownModule", "transfer", &[]).unwrap_err();
    assert_eq!(err, Error::NotFound(Lookup::Module, "UnknownModule".to_string()));
    assert_eq!(xt.nonce(), 9);
    assert_eq!(signed.get(), 0);
    let err = xt.submit("Balances", "burn", &[]).unwrap_err();
    assert_eq!(err, Error::NotFound(Lookup::Call, "burn".to_string()));
    let err = xt.submit("Balances", "transfer", &[vec![1]]).unwrap_err();
    assert_eq!(err, Error::Encoding(EncodingError::ArgumentCount { expected: 2, found: 1 }));
    assert_eq!(xt.nonce(), 9);
    assert_eq!(signed.get(), 0);
}

#[test]
fn the_last_nonce_cannot_be_used() {
    let (mut xt, signed) = builder(u64::MAX - 1);
    assert!(xt.submit("Litentry", "register_identity", &[]).is_ok());
    assert_eq!(xt.nonce(), u64::MAX);
    let err = xt.submit("Litentry", "register_identity", &[]).unwrap_err();
    assert_eq!(err, Error::Encoding(EncodingError::NonceExhausted));
    assert_eq!(xt.nonce(), u64::MAX);
    assert_eq!(signed.get(), 1);
}

#[test]
fn inclusion_keeps_the_events_of_the_extrinsic() {
    let (mut xt, _) = builder(0);
    let watched = xt.submit_and_watch("Balances", "transfer", &[vec![1], vec![2]]).unwrap();
    let own = watched.extrinsic.bytes.clone();
    let hash = watched.extrinsic.hash();
    let extrinsics = vec![vec![1u8, 2, 3], own.clone(), vec![9u8], own.clone()];
    let records = vec![
        EventRecord { phase: Phase::ApplyExtrinsic(0), event: vec![0] },
        EventRecord { phase: Phase::ApplyExtrinsic(1), event: vec![1, 1] },
        EventRecord { phase: Phase::Finalization, event: vec![2] },
        EventRecord { phase: Phase::ApplyExtrinsic(3), event: vec![3] },
        EventRecord { phase: Phase::ApplyExtrinsic(1), event: vec![] },
        EventRecord { phase: Phase::ApplyExtrinsic(2), event: vec![5] },
        EventRecord { phase: Phase::ApplyExtrinsic(1), event: vec![6] },
    ];
    let success = watched.included(vec![0xb1; 32], &extrinsics, &records).unwrap();
    assert_eq!(success.block, vec![0xb1; 32]);
    assert_eq!(success.extrinsic, hash);
    assert_eq!(success.events, vec![vec![1, 1], vec![], vec![6]]);
}

#[test]
fn inclusion_without_events_is_a_success_without_events() {
    let (mut xt, _) = builder(0);
    let watched = xt.submit_and_watch("Litentry", "register_identity", &[]).unwrap();
    let own = watched.extrinsic.bytes.clone();
    let success = watched.included(vec![1], &[own], &[]).unwrap();
    assert!(success.events.is_empty());
}

#[test]
fn a_block_without_the_extrinsic_is_refused() {
    let (mut xt, _) = builder(0);
    let watched = xt.submit_and_watch("Litentry", "register_identity", &[]).unwrap();
    let records = vec![EventRecord { phase: Phase::ApplyExtrinsic(0), event: vec![0] }];
    assert_eq!(
        watched.clone().included(vec![1], &[vec![1u8, 2, 3]], &records),
        Err(Error::Decoding)
    );
    assert_eq!(watched.included(vec![1], &[], &records), Err(Error::Decoding));
}

#[test]
fn register_identity_submits_the_call_of_the_module() {
    let (mut xt, _) = builder(2);
    let sent = xt.register_identity().unwrap();
    assert_eq!(sent.extrinsic.call.0, vec![2, 0]);
    assert_eq!(sent.extrinsic.nonce, 2);
    assert_eq!(xt.nonce(), 3);
    assert_eq!(client().metadata().register_identity_call().unwrap().0, vec![2, 0]);
}

#[test]
fn register_identity_needs_the_module() {
    let mut blob = b"meta".to_vec();
    blob.push(7);
    blob.extend(list(&[module("System", vec![], vec![call("remark", 1)])]));
    let client = ClientBuilder::new().build(genesis(), &blob).unwrap();
    let (stub, signed) = Stub::new();
    let mut xt = client.xt(stub, Some(1), None).unwrap();
    assert_eq!(
        xt.register_identity().unwrap_err(),
        Error::NotFound(Lookup::Module, "Litentry".to_string())
    );
    assert_eq!(xt.nonce(), 1);
    assert_eq!(signed.get(), 0);
    assert_eq!(
        client.nonce_query(&[1], None).unwrap_err(),
        Error::NotFound(Lookup::Storage, "AccountNonce".to_string())
    );
}
