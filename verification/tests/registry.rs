use parity_scale_codec::{Compact, Encode};
use substrate_subxt::error::{EncodingError, Error, Lookup, MetadataError};
use substrate_subxt::metadata::{Metadata, StorageEntryModifier, StorageEntryType};
use substrate_subxt::StorageHasher;

fn text(s: &str) -> Vec<u8> {
    s.encode()
}

fn list(items: &[Vec<u8>]) -> Vec<u8> {
    let mut out = Compact(items.len() as u32).encode();
    for item in items {
        out.extend_from_slice(item);
    }
    out
}

fn some(inner: Vec<u8>) -> Vec<u8> {
    let mut out = vec![1u8];
    out.extend(inner);
    out
}

fn none() -> Vec<u8> {
    vec![0u8]
}

fn docs() -> Vec<u8> {
    list(&[text(" Some documentation."), text(" More of it.")])
}

fn call(name: &str, args: &[(&str, &str)]) -> Vec<u8> {
    let mut out = text(name);
    let args: Vec<Vec<u8>> = args
        .iter()
        .map(|(n, t)| {
            let mut a = text(n);
            a.extend(text(t));
            a
        })
        .collect();
    out.extend(list(&args));
    out.extend(docs());
    out
}

fn plain_entry(name: &str, value: &str, default: &[u8]) -> Vec<u8> {
    let mut out = text(name);
    out.push(1);
    out.push(0);
    out.extend(text(value));
    out.extend(default.to_vec().encode());
    out.extend(docs());
    out
}

fn map_entry(name: &str, hasher: u8, key: &str, value: &str, default: &[u8]) -> Vec<u8> {
    let mut out = text(name);
    out.push(1);
    out.push(1);
    out.push(hasher);
    out.extend(text(key));
    out.extend(text(value));
    out.push(0);
    out.extend(default.to_vec().encode());
    out.extend(docs());
    out
}

fn double_map_entry(name: &str) -> Vec<u8> {
    let mut out = text(name);
    out.push(0);
    out.push(2);
    out.push(1);
    out.extend(text("AccountId"));
    out.extend(text("u32"));
    out.extend(text("Balance"));
    out.push(2);
    out.extend(Vec::<u8>::new().encode());
    out.extend(list(&[]));
    out
}

fn event(name: &str) -> Vec<u8> {
    let mut out = text(name);
    out.extend(list(&[text("AccountId"), text("Balance")]));
    out.extend(docs());
    out
}

fn constant(name: &str) -> Vec<u8> {
    let mut out = text(name);
    out.extend(text("u32"));
    out.extend(vec![7u8, 0, 0, 0].encode());
    out.extend(docs());
    out
}

fn module(name: &str, storage: Option<Vec<Vec<u8>>>, calls: Option<Vec<Vec<u8>>>) -> Vec<u8> {
    let mut out = text(name);
    match storage {
        Some(entries) => {
            let mut s = text(name);
            s.extend(list(&entries));
            out.extend(some(s));
        }
        None => out.extend(none()),
    }
    match calls {
        Some(calls) => out.extend(some(list(&calls))),
        None => out.extend(none()),
    }
    out.extend(some(list(&[event("Transfer")])));
    out.extend(list(&[constant("ExistentialDeposit")]));
    out
}

fn blob_of(modules: &[Vec<u8>]) -> Vec<u8> {
    let mut out = b"meta".to_vec();
    out.push(7);
    out.extend(list(modules));
    out
}

fn sample_blob() -> Vec<u8> {
    blob_of(&[
        module(
            "System",
            Some(vec![
                map_entry("AccountNonce", 1, "T::AccountId", "T::Index", &[0, 0, 0, 0, 0, 0, 0, 0]),
                plain_entry("ExtrinsicCount", "u32", &[]),
            ]),
            Some(vec![call("remark", &[("_remark", "Vec<u8>")])]),
        ),
        module("Timestamp", None, Some(vec![call("set", &[("now", "Compact<T::Moment>")])])),
        module(
            "Balances",
            Some(vec![
                plain_entry("TotalIssuance", "T::Balance", &[0; 16]),
                map_entry("FreeBalance", 1, "T::AccountId", "T::Balance", &[0; 16]),
                map_entry("Locks", 9, "T::AccountId", "Vec<BalanceLock>", &[0]),
                map_entry("ReservedBalance", 4, "T::AccountId", "T::Balance", &[0; 16]),
                double_map_entry("Vesting"),
            ]),
            Some(vec![
                call("set_balance", &[("who", "Address"), ("free", "Compact<T::Balance>"), ("reserved", "Compact<T::Balance>")]),
                call("transfer", &[("dest", "Address"), ("value", "Compact<T::Balance>")]),
            ]),
        ),
        module("Litentry", None, Some(vec![call("register_identity", &[])])),
    ])
}

fn sample() -> Metadata {
    Metadata::parse(&sample_blob()).unwrap()
}

#[test]
fn parse_reads_modules_in_index_order() {
    let m = sample();
    let names: Vec<&str> = m.modules().iter().map(|m| m.name()).collect();
    assert_eq!(names, vec!["System", "Timestamp", "Balances", "Litentry"]);
    let indices: Vec<u8> = m.modules().iter().map(|m| m.index()).collect();
    assert_eq!(indices, vec![0, 1, 2, 3]);
}

#[test]
fn parse_keeps_calls_and_storage() {
    let m = sample();
    let balances = m.module("Balances").unwrap();
    assert_eq!(balances.index(), 2);
    assert_eq!(balances.calls().len(), 2);
    assert_eq!(balances.calls()[1].name(), "transfer");
    assert_eq!(balances.calls()[1].arity(), 2);
    assert_eq!(balances.calls()[1].arguments()[0].name(), "dest");
    assert_eq!(balances.calls()[1].arguments()[1].ty(), "Compact<T::Balance>");
    let free = balances.storage("FreeBalance").unwrap();
    assert_eq!(free.name(), "FreeBalance");
    assert_eq!(free.prefix(), b"Balances FreeBalance");
    assert_eq!(free.modifier(), StorageEntryModifier::Default);
    assert_eq!(free.default_bytes(), &[0u8; 16][..]);
    assert_eq!(balances.storage_items().len(), 5);
    assert_eq!(m.module("Timestamp").unwrap().storage_items().len(), 0);
}

#[test]
fn parse_refuses_a_wrong_prefix() {
    let mut blob = sample_blob();
    blob[0] = b'M';
    assert_eq!(Metadata::parse(&blob).unwrap_err(), Error::Metadata(MetadataError::InvalidPrefix));
}

#[test]
fn parse_refuses_another_version() {
    let mut blob = sample_blob();
    blob[4] = 8;
    assert_eq!(Metadata::parse(&blob).unwrap_err(), Error::Metadata(MetadataError::InvalidVersion(8)));
}

#[test]
fn parse_refuses_short_input() {
    assert_eq!(Metadata::parse(b"met").unwrap_err(), Error::Metadata(MetadataError::Malformed));
    assert_eq!(Metadata::parse(b"meta").unwrap_err(), Error::Metadata(MetadataError::Malformed));
    assert_eq!(Metadata::parse(b"meta\x07").unwrap_err(), Error::Metadata(MetadataError::Malformed));
}

#[test]
fn parse_refuses_every_truncation() {
    let blob = sample_blob();
    for cut in 0..blob.len() {
        assert!(Metadata::parse(&blob[..cut]).is_err(), "cut at {}", cut);
    }
    assert!(Metadata::parse(&blob).is_ok());
}

#[test]
fn parse_ignores_trailing_bytes() {
    let mut blob = sample_blob();
    blob.extend_from_slice(&[1, 2, 3]);
    let m = Metadata::parse(&blob).unwrap();
    assert_eq!(m.modules().len(), 4);
}

#[test]
fn parse_refuses_text_that_is_not_utf8() {
    let mut bad = Compact(2u32).encode();
    bad.extend_from_slice(&[0xff, 0xfe]);
    let mut module = bad;
    module.extend(none());
    module.extend(none());
    module.extend(none());
    module.extend(list(&[]));
    assert_eq!(
        Metadata::parse(&blob_of(&[module])).unwrap_err(),
        Error::Metadata(MetadataError::Malformed)
    );
}

#[test]
fn parse_refuses_a_flag_that_is_neither_zero_nor_one() {
    let mut module = text("System");
    module.push(2);
    assert_eq!(
        Metadata::parse(&blob_of(&[module])).unwrap_err(),
        Error::Metadata(MetadataError::Malformed)
    );
}

#[test]
fn parse_accepts_an_empty_registry() {
    let m = Metadata::parse(&blob_of(&[])).unwrap();
    assert_eq!(m.modules().len(), 0);
    assert_eq!(
        m.module("System").unwrap_err(),
        Error::NotFound(Lookup::Module, "System".to_string())
    );
}

#[test]
fn parse_refuses_more_than_256_modules() {
    let modules: Vec<Vec<u8>> = (0..257).map(|i| module(&format!("M{}", i), None, None)).collect();
    assert_eq!(
        Metadata::parse(&blob_of(&modules)).unwrap_err(),
        Error::Metadata(MetadataError::TooManyModules)
    );
    let m = Metadata::parse(&blob_of(&modules[..256])).unwrap();
    assert_eq!(m.module("M255").unwrap().index(), 255);
}

#[test]
fn parse_refuses_more_than_256_calls() {
    let calls: Vec<Vec<u8>> = (0..257).map(|i| call(&format!("c{}", i), &[])).collect();
    assert_eq!(
        Metadata::parse(&blob_of(&[module("Big", None, Some(calls.clone()))])).unwrap_err(),
        Error::Metadata(MetadataError::TooManyCalls)
    );
    let m = Metadata::parse(&blob_of(&[module("Big", None, Some(calls[..256].to_vec()))])).unwrap();
    assert_eq!(m.encode_call("Big", "c255", &[]).unwrap().0, vec![0, 255]);
}

#[test]
fn transfer_payload_is_indices_then_arguments() {
    let m = sample();
    let addr = vec![0xffu8, 1, 2, 3, 4];
    let amount = Compact(10_000u128).encode();
    let call = m
        .module("Balances")
        .unwrap()
        .call("transfer", &[addr.clone(), amount.clone()])
        .unwrap();
    let mut expected = vec![2u8, 1u8];
    expected.extend(addr);
    expected.extend(amount);
    assert_eq!(call.0, expected);
}

#[test]
fn call_without_arguments_is_two_bytes() {
    let m = sample();
    assert_eq!(m.encode_call("Litentry", "register_identity", &[]).unwrap().0, vec![3, 0]);
}

#[test]
fn call_checks_the_number_of_arguments() {
    let m = sample();
    let err = m.encode_call("Balances", "transfer", &[vec![1]]).unwrap_err();
    assert_eq!(err, Error::Encoding(EncodingError::ArgumentCount { expected: 2, found: 1 }));
    let err = m.encode_call("Litentry", "register_identity", &[vec![]]).unwrap_err();
    assert_eq!(err, Error::Encoding(EncodingError::ArgumentCount { expected: 0, found: 1 }));
}

#[test]
fn lookups_report_the_missing_name() {
    let m = sample();
    assert_eq!(
        m.encode_call("UnknownModule", "transfer", &[]).unwrap_err(),
        Error::NotFound(Lookup::Module, "UnknownModule".to_string())
    );
    assert_eq!(
        m.encode_call("Balances", "burn", &[]).unwrap_err(),
        Error::NotFound(Lookup::Call, "burn".to_string())
    );
    assert_eq!(
        m.module("Balances").unwrap().storage("Nothing").unwrap_err(),
        Error::NotFound(Lookup::Storage, "Nothing".to_string())
    );
    assert_eq!(
        m.storage_key("System", "Nothing", None).unwrap_err(),
        Error::NotFound(Lookup::Storage, "Nothing".to_string())
    );
}

#[test]
fn a_later_module_of_the_same_name_is_the_one_found() {
    let blob = blob_of(&[
        module("Twice", None, Some(vec![call("a", &[])])),
        module("Twice", None, Some(vec![call("b", &[]), call("a", &[]), call("a", &[])])),
    ]);
    let m = Metadata::parse(&blob).unwrap();
    assert_eq!(m.module("Twice").unwrap().index(), 1);
    assert_eq!(m.encode_call("Twice", "a", &[]).unwrap().0, vec![1, 2]);
    assert_eq!(m.encode_call("Twice", "b", &[]).unwrap().0, vec![1, 0]);
}

#[test]
fn decode_call_recovers_the_names() {
    let m = sample();
    let args = vec![vec![9u8, 8, 7], vec![6u8]];
    let payload = m.encode_call("Balances", "transfer", &args).unwrap();
    let back = m.decode_call(&payload.0).unwrap();
    assert_eq!(back.module, "Balances");
    assert_eq!(back.function, "transfer");
    assert_eq!(back.arguments, vec![9, 8, 7, 6]);
}

#[test]
fn decode_call_refuses_unknown_indices() {
    let m = sample();
    assert_eq!(m.decode_call(&[]).unwrap_err(), Error::Decoding);
    assert_eq!(m.decode_call(&[2]).unwrap_err(), Error::Decoding);
    assert_eq!(m.decode_call(&[4, 0]).unwrap_err(), Error::Decoding);
    assert_eq!(m.decode_call(&[2, 2]).unwrap_err(), Error::Decoding);
    let ok = m.decode_call(&[1, 0]).unwrap();
    assert_eq!((ok.module.as_str(), ok.function.as_str()), ("Timestamp", "set"));
    assert!(ok.arguments.is_empty());
}

#[test]
fn free_balance_key_is_hashed_prefix_then_hashed_key() {
    let m = sample();
    let x = [7u8; 32];
    let y = [8u8; 32];
    let first = m.storage_key("Balances", "FreeBalance", Some(&x[..])).unwrap();
    let again = m.storage_key("Balances", "FreeBalance", Some(&x[..])).unwrap();
    let other = m.storage_key("Balances", "FreeBalance", Some(&y[..])).unwrap();
    assert_eq!(first, again);
    assert_ne!(first, other);
    let mut expected = sp_crypto_hashing::blake2_256(b"Balances FreeBalance").to_vec();
    expected.extend_from_slice(&sp_crypto_hashing::blake2_256(&x));
    assert_eq!(first.0, expected);
    assert_eq!(first.0.len(), 64);
}

#[test]
fn map_handle_derives_the_same_key() {
    let m = sample();
    let item = m.module("Balances").unwrap().storage("FreeBalance").unwrap();
    let map = item.get_map().unwrap();
    assert_eq!(map.hasher(), StorageHasher::Blake2_256);
    let key = [1u8, 2, 3];
    assert_eq!(map.key(&key), item.key(Some(&key[..])).unwrap());
    assert_eq!(map.default::<u128>().unwrap(), 0);
    assert_eq!(map.default::<u64>().unwrap(), 0);
}

#[test]
fn plain_key_is_twox_128_of_the_prefix() {
    let m = sample();
    let key = m.storage_key("Balances", "TotalIssuance", None).unwrap();
    assert_eq!(key.0, sp_crypto_hashing::twox_128(b"Balances TotalIssuance").to_vec());
    assert_eq!(key.0.len(), 16);
}

#[test]
fn concat_strategy_keeps_the_hashed_bytes() {
    let m = sample();
    let account = [5u8; 32];
    let key = m.storage_key("Balances", "ReservedBalance", Some(&account[..])).unwrap();
    let prefix = b"Balances ReservedBalance";
    let mut expected = sp_crypto_hashing::twox_64(prefix).to_vec();
    expected.extend_from_slice(prefix);
    expected.extend_from_slice(&sp_crypto_hashing::twox_64(&account));
    expected.extend_from_slice(&account);
    assert_eq!(key.0, expected);
}

#[test]
fn an_unknown_strategy_is_an_error() {
    let m = sample();
    let item = m.module("Balances").unwrap().storage("Locks").unwrap();
    assert_eq!(
        item.key(Some(&[1u8][..])).unwrap_err(),
        Error::Encoding(EncodingError::UnsupportedHasher(9))
    );
    assert_eq!(
        item.get_map().unwrap_err(),
        Error::Encoding(EncodingError::UnsupportedHasher(9))
    );
    assert_eq!(
        m.storage_key("Balances", "Locks", Some(&[1u8][..])).unwrap_err(),
        Error::Encoding(EncodingError::UnsupportedHasher(9))
    );
}

#[test]
fn keys_follow_the_kind_of_the_item() {
    let m = sample();
    let balances = m.module("Balances").unwrap();
    let plain = balances.storage("TotalIssuance").unwrap();
    assert_eq!(plain.key(Some(&[1u8][..])).unwrap_err(), Error::Encoding(EncodingError::NotAMap));
    assert_eq!(plain.get_map().unwrap_err(), Error::Encoding(EncodingError::NotAMap));
    let map = balances.storage("FreeBalance").unwrap();
    assert_eq!(map.key(None).unwrap_err(), Error::Encoding(EncodingError::NotPlain));
    let double = balances.storage("Vesting").unwrap();
    assert_eq!(double.key(None).unwrap_err(), Error::Encoding(EncodingError::NotPlain));
    assert_eq!(double.key(Some(&[1u8][..])).unwrap_err(), Error::Encoding(EncodingError::NotAMap));
    assert_eq!(double.get_map().unwrap_err(), Error::Encoding(EncodingError::NotAMap));
    assert_eq!(double.modifier(), StorageEntryModifier::Optional);
}

#[test]
fn defaults_decode_from_the_declared_bytes() {
    let m = sample();
    let nonce = m.module("System").unwrap().storage("AccountNonce").unwrap();
    assert_eq!(nonce.default::<u64>().unwrap(), 0);
    assert_eq!(nonce.default::<u32>().unwrap(), 0);
    assert_eq!(nonce.default::<u128>().unwrap_err(), Error::Decoding);
    let count = m.module("System").unwrap().storage("ExtrinsicCount").unwrap();
    assert_eq!(count.default::<u32>().unwrap_err(), Error::Decoding);
}

#[test]
fn hashers_have_the_ids_of_the_metadata() {
    let all = [
        StorageHasher::Blake2_128,
        StorageHasher::Blake2_256,
        StorageHasher::Twox128,
        StorageHasher::Twox256,
        StorageHasher::Twox64Concat,
    ];
    for (id, hasher) in all.iter().enumerate() {
        assert_eq!(StorageHasher::from_id(id as u8), Some(*hasher));
        assert_eq!(hasher.id(), id as u8);
    }
    for id in 5..=255u8 {
        assert_eq!(StorageHasher::from_id(id), None);
    }
}

#[test]
fn hashers_give_the_digests_of_their_names() {
    assert_eq!(
        StorageHasher::Twox64Concat.hash(b""),
        vec![0x99, 0xe9, 0xd8, 0x51, 0x37, 0xdb, 0x46, 0xef]
    );
    assert_eq!(
        StorageHasher::Twox64Concat.hash(b"ab"),
        [&sp_crypto_hashing::twox_64(b"ab")[..], &b"ab"[..]].concat()
    );
    assert_eq!(
        StorageHasher::Blake2_256.hash(b""),
        vec![
            0x0e, 0x57, 0x51, 0xc0, 0x26, 0xe5, 0x43, 0xb2, 0xe8, 0xab, 0x2e, 0xb0, 0x60, 0x99,
            0xda, 0xa1, 0xd1, 0xe5, 0xdf, 0x47, 0x77, 0x8f, 0x77, 0x87, 0xfa, 0xab, 0x45, 0xcd,
            0xf1, 0x2f, 0xe3, 0xa8
        ]
    );
    assert_eq!(StorageHasher::Blake2_128.hash(b"abc"), sp_crypto_hashing::blake2_128(b"abc").to_vec());
    assert_eq!(StorageHasher::Twox128.hash(b"abc"), sp_crypto_hashing::twox_128(b"abc").to_vec());
    assert_eq!(StorageHasher::Twox256.hash(b"abc"), sp_crypto_hashing::twox_256(b"abc").to_vec());
    assert_eq!(StorageHasher::Blake2_128.hash(b"abc").len(), 16);
    assert_eq!(StorageHasher::Twox256.hash(b"abc").len(), 32);
}

#[test]
fn names_are_compared_as_text() {
    let blob = blob_of(&[module("Ünïcode", None, Some(vec![call("grüße", &[])]))]);
    let m = Metadata::parse(&blob).unwrap();
    assert_eq!(m.encode_call("Ünïcode", "grüße", &[]).unwrap().0, vec![0, 0]);
    assert_eq!(
        m.encode_call("Unicode", "grüße", &[]).unwrap_err(),
        Error::NotFound(Lookup::Module, "Unicode".to_string())
    );
    assert!(substrate_subxt::metadata::str_eq("grüße", "grüße"));
    assert!(!substrate_subxt::metadata::str_eq("grüße", "grüsse"));
    assert!(substrate_subxt::codec::bytes_eq(&[1, 2], &[1, 2]));
    assert!(!substrate_subxt::codec::bytes_eq(&[1, 2], &[1, 3]));
    assert!(!substrate_subxt::codec::bytes_eq(&[1, 2], &[1]));
}

#[test]
fn parse_refuses_an_unknown_kind_of_storage_item() {
    let mut entry = text("Odd");
    entry.push(0);
    entry.push(3);
    entry.extend(text("u32"));
    entry.extend(Vec::<u8>::new().encode());
    entry.extend(list(&[]));
    let blob = blob_of(&[module("System", Some(vec![entry]), None)]);
    assert_eq!(Metadata::parse(&blob).unwrap_err(), Error::Metadata(MetadataError::Malformed));
}

#[test]
fn parse_reads_long_texts_and_lists() {
    let long_name = "N".repeat(300);
    let calls: Vec<Vec<u8>> = (0..100).map(|i| call(&format!("call_{}", i), &[("a", "u8")])).collect();
    let blob = blob_of(&[module(&long_name, None, Some(calls))]);
    let m = Metadata::parse(&blob).unwrap();
    let found = m.module(&long_name).unwrap();
    assert_eq!(found.name(), long_name);
    assert_eq!(found.calls().len(), 100);
    assert_eq!(m.encode_call(&long_name, "call_99", &[vec![7]]).unwrap().0, vec![0, 99, 7]);
}

#[test]
fn a_module_without_calls_has_none_to_encode() {
    let blob = blob_of(&[module("Quiet", None, None)]);
    let m = Metadata::parse(&blob).unwrap();
    assert_eq!(m.module("Quiet").unwrap().calls().len(), 0);
    assert_eq!(
        m.encode_call("Quiet", "anything", &[]).unwrap_err(),
        Error::NotFound(Lookup::Call, "anything".to_string())
    );
    assert_eq!(m.decode_call(&[0, 0]).unwrap_err(), Error::Decoding);
}

#[test]
fn storage_kinds_keep_their_type_names() {
    let m = sample();
    let balances = m.module("Balances").unwrap();
    match balances.storage("FreeBalance").unwrap().ty() {
        StorageEntryType::Mapping { hasher, key, value, linked } => {
            assert_eq!((*hasher, key.as_str(), value.as_str(), *linked), (1, "T::AccountId", "T::Balance", false));
        }
        other => panic!("unexpected kind {:?}", other),
    }
    match balances.storage("TotalIssuance").unwrap().ty() {
        StorageEntryType::Plain { value } => assert_eq!(value, "T::Balance"),
        other => panic!("unexpected kind {:?}", other),
    }
    match balances.storage("Vesting").unwrap().ty() {
        StorageEntryType::DoubleMapping { hasher, key1, key2, value, key2_hasher } => {
            assert_eq!((*hasher, *key2_hasher), (1, 2));
            assert_eq!((key1.as_str(), key2.as_str(), value.as_str()), ("AccountId", "u32", "Balance"));
        }
        other => panic!("unexpected kind {:?}", other),
    }
}
