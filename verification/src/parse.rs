//! Reading a metadata blob into a registry.
//!
//! Each function here reads what the function of the same name in [`crate::grammar`]
//! describes, and is proved to agree with it: it fails exactly where the description
//! has no reading, with the same error, and otherwise returns what the description
//! names together with the unread rest of the input.

use crate::codec::decode_compact_u32;
use crate::error::{Error, MetadataError};
use crate::grammar;
use crate::metadata::{
    argument_views, call_views, module_views, storage_prefix, storage_views, Argument,
    CallMetadata, Metadata, MetadataView, ModuleMetadata, StorageEntryModifier, StorageEntryType,
    StorageMetadata,
};
use vstd::prelude::*;
use vstd::slice::slice_subrange;
use vstd::utf8::{decode_utf8, valid_utf8};

verus! {

/// The views of `items`, in order.
pub open spec fn text_views(items: Seq<String>) -> Seq<Seq<char>> {
    items.map_values(|t: String| t@)
}

/// Calls `String::from_utf8`. Trusted: the call succeeds exactly on bytes that are
/// valid UTF-8, and the text it returns is the one that the bytes encode.
#[verifier::external_body]
fn text_from_utf8(bytes: Vec<u8>) -> (r: Option<String>)
    ensures
        match r {
            Some(text) => valid_utf8(bytes@) && text@ == decode_utf8(bytes@),
            None => !valid_utf8(bytes@),
        },
{
    match String::from_utf8(bytes) {
        Ok(text) => Some(text),
        Err(_) => None,
    }
}

fn read_byte<'a>(input: &'a [u8]) -> (r: Result<(u8, &'a [u8]), MetadataError>)
    ensures
        grammar::byte(input@) == match r {
            Ok((b, rest)) => Ok((b, rest@)),
            Err(e) => Err(e),
        },
{
    if input.len() >= 1 {
        let rest = slice_subrange(input, 1, input.len());
        assert(rest@ =~= input@.skip(1));
        Ok((input[0], rest))
    } else {
        Err(MetadataError::Malformed)
    }
}

fn read_flag<'a>(input: &'a [u8]) -> (r: Result<(bool, &'a [u8]), MetadataError>)
    ensures
        grammar::flag(input@) == match r {
            Ok((b, rest)) => Ok((b, rest@)),
            Err(e) => Err(e),
        },
{
    let (b, rest) = read_byte(input)?;
    if b == 0 {
        Ok((false, rest))
    } else if b == 1 {
        Ok((true, rest))
    } else {
        Err(MetadataError::Malformed)
    }
}

fn read_length<'a>(input: &'a [u8]) -> (r: Result<(u32, &'a [u8]), MetadataError>)
    ensures
        grammar::length(input@) == match r {
            Ok((n, rest)) => Ok((n, rest@)),
            Err(e) => Err(e),
        },
{
    match decode_compact_u32(input) {
        Some((n, rest)) => Ok((n, rest)),
        None => Err(MetadataError::Malformed),
    }
}

fn read_bytes<'a>(input: &'a [u8]) -> (r: Result<(Vec<u8>, &'a [u8]), MetadataError>)
    ensures
        grammar::bytes(input@) == match r {
            Ok((v, rest)) => Ok((v@, rest@)),
            Err(e) => Err(e),
        },
{
    let (n, rest) = read_length(input)?;
    let n = n as usize;
    if rest.len() < n {
        return Err(MetadataError::Malformed);
    }
    let mut v: Vec<u8> = Vec::new();
    v.extend_from_slice(slice_subrange(rest, 0, n));
    let end = slice_subrange(rest, n, rest.len());
    assert(v@ =~= rest@.take(n as int));
    assert(end@ =~= rest@.skip(n as int));
    Ok((v, end))
}

fn read_text<'a>(input: &'a [u8]) -> (r: Result<(String, &'a [u8]), MetadataError>)
    ensures
        grammar::text(input@) == match r {
            Ok((t, rest)) => Ok((t@, rest@)),
            Err(e) => Err(e),
        },
{
    let (v, rest) = read_bytes(input)?;
    match text_from_utf8(v) {
        Some(t) => Ok((t, rest)),
        None => Err(MetadataError::Malformed),
    }
}

fn read_texts<'a>(input: &'a [u8]) -> (r: Result<(Vec<String>, &'a [u8]), MetadataError>)
    ensures
        grammar::texts(input@) == match r {
            Ok((v, rest)) => Ok((text_views(v@), rest@)),
            Err(e) => Err(e),
        },
{
    let (n, start) = read_length(input)?;
    let mut out: Vec<String> = Vec::new();
    let mut rest = start;
    let mut i: u32 = 0;
    proof {
        assert(text_views(out@) =~= Seq::empty());
        grammar::lemma_repeat_begin(grammar::repeat(grammar::text_item(), start@, 0, n as nat));
    }
    while i < n
        invariant
            i <= n,
            grammar::texts(input@) == grammar::after(
                text_views(out@),
                grammar::repeat(grammar::text_item(), rest@, i as int, (n - i) as nat),
            ),
        decreases n - i,
    {
        proof {
            grammar::lemma_repeat_step(
                grammar::text_item(),
                rest@,
                i as int,
                (n - i) as nat,
                text_views(out@),
            );
        }
        match read_text(rest) {
            Err(e) => {
                return Err(e);
            },
            Ok((t, next)) => {
                assert(text_views(out@.push(t)) =~= text_views(out@).push(t@));
                out.push(t);
                rest = next;
            },
        }
        i += 1;
    }
    proof {
        grammar::lemma_repeat_end(grammar::text_item(), rest@, i as int, text_views(out@));
    }
    Ok((out, rest))
}

fn read_argument<'a>(input: &'a [u8]) -> (r: Result<(Argument, &'a [u8]), MetadataError>)
    ensures
        grammar::argument(input@) == match r {
            Ok((a, rest)) => Ok((a@, rest@)),
            Err(e) => Err(e),
        },
{
    let (name, s1) = read_text(input)?;
    let (ty, s2) = read_text(s1)?;
    Ok((Argument::new(name, ty), s2))
}

fn read_arguments<'a>(input: &'a [u8]) -> (r: Result<(Vec<Argument>, &'a [u8]), MetadataError>)
    ensures
        grammar::list(grammar::argument_item(), input@) == match r {
            Ok((v, rest)) => Ok((argument_views(v@), rest@)),
            Err(e) => Err(e),
        },
{
    let (n, start) = read_length(input)?;
    let mut out: Vec<Argument> = Vec::new();
    let mut rest = start;
    let mut i: u32 = 0;
    proof {
        assert(argument_views(out@) =~= Seq::empty());
        grammar::lemma_repeat_begin(grammar::repeat(grammar::argument_item(), start@, 0, n as nat));
    }
    while i < n
        invariant
            i <= n,
            grammar::list(grammar::argument_item(), input@) == grammar::after(
                argument_views(out@),
                grammar::repeat(grammar::argument_item(), rest@, i as int, (n - i) as nat),
            ),
        decreases n - i,
    {
        proof {
            grammar::lemma_repeat_step(
                grammar::argument_item(),
                rest@,
                i as int,
                (n - i) as nat,
                argument_views(out@),
            );
        }
        match read_argument(rest) {
            Err(e) => {
                return Err(e);
            },
            Ok((a, next)) => {
                assert(argument_views(out@.push(a)) =~= argument_views(out@).push(a@));
                out.push(a);
                rest = next;
            },
        }
        i += 1;
    }
    proof {
        grammar::lemma_repeat_end(grammar::argument_item(), rest@, i as int, argument_views(out@));
    }
    Ok((out, rest))
}

fn read_call<'a>(input: &'a [u8]) -> (r: Result<(CallMetadata, &'a [u8]), MetadataError>)
    ensures
        grammar::call(input@) == match r {
            Ok((c, rest)) => Ok((c@, rest@)),
            Err(e) => Err(e),
        },
{
    let (name, s1) = read_text(input)?;
    let (arguments, s2) = read_arguments(s1)?;
    let (_, s3) = read_texts(s2)?;
    Ok((CallMetadata::new(name, arguments), s3))
}

fn read_calls<'a>(input: &'a [u8]) -> (r: Result<(Vec<CallMetadata>, &'a [u8]), MetadataError>)
    ensures
        grammar::calls(input@) == match r {
            Ok((v, rest)) => Ok((call_views(v@), rest@)),
            Err(e) => Err(e),
        },
        r matches Ok((v, _)) ==> v@.len() <= 256,
{
    let (present, s1) = read_flag(input)?;
    let mut out: Vec<CallMetadata> = Vec::new();
    assert(call_views(out@) =~= Seq::empty());
    if !present {
        return Ok((out, s1));
    }
    let (n, start) = read_length(s1)?;
    if n > 256 {
        return Err(MetadataError::TooManyCalls);
    }
    let mut rest = start;
    let mut i: u32 = 0;
    proof {
        grammar::lemma_repeat_begin(grammar::repeat(grammar::call_item(), start@, 0, n as nat));
    }
    while i < n
        invariant
            i <= n <= 256,
            out@.len() == i,
            grammar::calls(input@) == grammar::after(
                call_views(out@),
                grammar::repeat(grammar::call_item(), rest@, i as int, (n - i) as nat),
            ),
        decreases n - i,
    {
        proof {
            grammar::lemma_repeat_step(
                grammar::call_item(),
                rest@,
                i as int,
                (n - i) as nat,
                call_views(out@),
            );
        }
        match read_call(rest) {
            Err(e) => {
                return Err(e);
            },
            Ok((c, next)) => {
                assert(call_views(out@.push(c)) =~= call_views(out@).push(c@));
                out.push(c);
                rest = next;
            },
        }
        i += 1;
    }
    proof {
        grammar::lemma_repeat_end(grammar::call_item(), rest@, i as int, call_views(out@));
    }
    Ok((out, rest))
}

fn read_modifier<'a>(input: &'a [u8]) -> (r: Result<(StorageEntryModifier, &'a [u8]), MetadataError>)
    ensures
        grammar::modifier(input@) == match r {
            Ok((m, rest)) => Ok((m, rest@)),
            Err(e) => Err(e),
        },
{
    let (b, rest) = read_flag(input)?;
    if b {
        Ok((StorageEntryModifier::Default, rest))
    } else {
        Ok((StorageEntryModifier::Optional, rest))
    }
}

fn read_storage_type<'a>(input: &'a [u8]) -> (r: Result<(StorageEntryType, &'a [u8]), MetadataError>)
    ensures
        grammar::storage_type(input@) == match r {
            Ok((t, rest)) => Ok((t@, rest@)),
            Err(e) => Err(e),
        },
{
    let (tag, s1) = read_byte(input)?;
    if tag == 0 {
        let (value, s2) = read_text(s1)?;
        Ok((StorageEntryType::Plain { value }, s2))
    } else if tag == 1 {
        let (hasher, s2) = read_byte(s1)?;
        let (key, s3) = read_text(s2)?;
        let (value, s4) = read_text(s3)?;
        let (linked, s5) = read_flag(s4)?;
        Ok((StorageEntryType::Mapping { hasher, key, value, linked }, s5))
    } else if tag == 2 {
        let (hasher, s2) = read_byte(s1)?;
        let (key1, s3) = read_text(s2)?;
        let (key2, s4) = read_text(s3)?;
        let (value, s5) = read_text(s4)?;
        let (key2_hasher, s6) = read_byte(s5)?;
        Ok((StorageEntryType::DoubleMapping { hasher, key1, key2, value, key2_hasher }, s6))
    } else {
        Err(MetadataError::Malformed)
    }
}

fn read_storage_entry<'a>(module: &str, input: &'a [u8]) -> (r: Result<
    (StorageMetadata, &'a [u8]),
    MetadataError,
>)
    ensures
        grammar::storage_entry(module@, input@) == match r {
            Ok((s, rest)) => Ok((s@, rest@)),
            Err(e) => Err(e),
        },
        r matches Ok((s, _)) ==> s@.prefix == storage_prefix(module@, s@.name),
{
    let (name, s1) = read_text(input)?;
    let (modifier, s2) = read_modifier(s1)?;
    let (ty, s3) = read_storage_type(s2)?;
    let (default, s4) = read_bytes(s3)?;
    let (_, s5) = read_texts(s4)?;
    Ok((StorageMetadata::new(module, name, modifier, ty, default), s5))
}

fn read_storage<'a>(module: &str, input: &'a [u8]) -> (r: Result<
    (Vec<StorageMetadata>, &'a [u8]),
    MetadataError,
>)
    ensures
        grammar::storage(module@, input@) == match r {
            Ok((v, rest)) => Ok((storage_views(v@), rest@)),
            Err(e) => Err(e),
        },
        r matches Ok((v, _)) ==> forall|j: int|
            0 <= j < v@.len() ==> (#[trigger] v@[j])@.prefix == storage_prefix(
                module@,
                v@[j]@.name,
            ),
{
    let (present, s1) = read_flag(input)?;
    let mut out: Vec<StorageMetadata> = Vec::new();
    assert(storage_views(out@) =~= Seq::empty());
    if !present {
        return Ok((out, s1));
    }
    let (_, s2) = read_text(s1)?;
    let (n, start) = read_length(s2)?;
    let mut rest = start;
    let mut i: u32 = 0;
    proof {
        grammar::lemma_repeat_begin(
            grammar::repeat(grammar::storage_entry_item(module@), start@, 0, n as nat),
        );
    }
    while i < n
        invariant
            i <= n,
            grammar::storage(module@, input@) == grammar::after(
                storage_views(out@),
                grammar::repeat(
                    grammar::storage_entry_item(module@),
                    rest@,
                    i as int,
                    (n - i) as nat,
                ),
            ),
            forall|j: int|
                0 <= j < out@.len() ==> (#[trigger] out@[j])@.prefix == storage_prefix(
                    module@,
                    out@[j]@.name,
                ),
        decreases n - i,
    {
        proof {
            grammar::lemma_repeat_step(
                grammar::storage_entry_item(module@),
                rest@,
                i as int,
                (n - i) as nat,
                storage_views(out@),
            );
        }
        match read_storage_entry(module, rest) {
            Err(e) => {
                return Err(e);
            },
            Ok((s, next)) => {
                assert(storage_views(out@.push(s)) =~= storage_views(out@).push(s@));
                out.push(s);
                rest = next;
            },
        }
        i += 1;
    }
    proof {
        grammar::lemma_repeat_end(
            grammar::storage_entry_item(module@),
            rest@,
            i as int,
            storage_views(out@),
        );
    }
    Ok((out, rest))
}

fn skip_event<'a>(input: &'a [u8]) -> (r: Result<&'a [u8], MetadataError>)
    ensures
        grammar::event(input@) == match r {
            Ok(rest) => Ok(((), rest@)),
            Err(e) => Err(e),
        },
{
    let (_, s1) = read_text(input)?;
    let (_, s2) = read_texts(s1)?;
    let (_, s3) = read_texts(s2)?;
    Ok(s3)
}

fn skip_events<'a>(input: &'a [u8]) -> (r: Result<&'a [u8], MetadataError>)
    ensures
        grammar::events(input@) == match r {
            Ok(rest) => Ok(((), rest@)),
            Err(e) => Err(e),
        },
{
    let (present, s1) = read_flag(input)?;
    if !present {
        return Ok(s1);
    }
    let (n, start) = read_length(s1)?;
    let mut rest = start;
    let mut i: u32 = 0;
    let ghost found: Seq<()> = Seq::empty();
    proof {
        grammar::lemma_repeat_begin(grammar::repeat(grammar::event_item(), start@, 0, n as nat));
    }
    while i < n
        invariant
            i <= n,
            grammar::list(grammar::event_item(), s1@) == grammar::after(
                found,
                grammar::repeat(grammar::event_item(), rest@, i as int, (n - i) as nat),
            ),
            grammar::flag(input@) == Ok::<(bool, Seq<u8>), MetadataError>((true, s1@)),
        decreases n - i,
    {
        proof {
            grammar::lemma_repeat_step(
                grammar::event_item(),
                rest@,
                i as int,
                (n - i) as nat,
                found,
            );
        }
        match skip_event(rest) {
            Err(e) => {
                return Err(e);
            },
            Ok(next) => {
                proof {
                    found = found.push(());
                }
                rest = next;
            },
        }
        i += 1;
    }
    proof {
        grammar::lemma_repeat_end(grammar::event_item(), rest@, i as int, found);
    }
    Ok(rest)
}

fn skip_constant<'a>(input: &'a [u8]) -> (r: Result<&'a [u8], MetadataError>)
    ensures
        grammar::constant(input@) == match r {
            Ok(rest) => Ok(((), rest@)),
            Err(e) => Err(e),
        },
{
    let (_, s1) = read_text(input)?;
    let (_, s2) = read_text(s1)?;
    let (_, s3) = read_bytes(s2)?;
    let (_, s4) = read_texts(s3)?;
    Ok(s4)
}

fn skip_constants<'a>(input: &'a [u8]) -> (r: Result<&'a [u8], MetadataError>)
    ensures
        grammar::constants(input@) == match r {
            Ok(rest) => Ok(((), rest@)),
            Err(e) => Err(e),
        },
{
    let (n, start) = read_length(input)?;
    let mut rest = start;
    let mut i: u32 = 0;
    let ghost found: Seq<()> = Seq::empty();
    proof {
        grammar::lemma_repeat_begin(grammar::repeat(grammar::constant_item(), start@, 0, n as nat));
    }
    while i < n
        invariant
            i <= n,
            grammar::list(grammar::constant_item(), input@) == grammar::after(
                found,
                grammar::repeat(grammar::constant_item(), rest@, i as int, (n - i) as nat),
            ),
        decreases n - i,
    {
        proof {
            grammar::lemma_repeat_step(
                grammar::constant_item(),
                rest@,
                i as int,
                (n - i) as nat,
                found,
            );
        }
        match skip_constant(rest) {
            Err(e) => {
                return Err(e);
            },
            Ok(next) => {
                proof {
                    found = found.push(());
                }
                rest = next;
            },
        }
        i += 1;
    }
    proof {
        grammar::lemma_repeat_end(grammar::constant_item(), rest@, i as int, found);
    }
    Ok(rest)
}

fn read_module<'a>(index: u8, input: &'a [u8]) -> (r: Result<
    (ModuleMetadata, &'a [u8]),
    MetadataError,
>)
    ensures
        grammar::module(index as int, input@) == match r {
            Ok((m, rest)) => Ok((m@, rest@)),
            Err(e) => Err(e),
        },
        r matches Ok((m, _)) ==> m@.index == index && m@.wf(),
{
    let (name, s1) = read_text(input)?;
    let (storage, s2) = read_storage(name.as_str(), s1)?;
    let (calls, s3) = read_calls(s2)?;
    let s4 = skip_events(s3)?;
    let s5 = skip_constants(s4)?;
    Ok((ModuleMetadata::new(name, index, storage, calls), s5))
}

impl Metadata {
    /// Reads the registry from the blob that a node returns for its metadata. Either the
    /// whole blob is understood and a registry is returned, or an error says why it was
    /// not; nothing is returned of a blob that is understood in part.
    pub fn parse(blob: &[u8]) -> (r: Result<Metadata, Error>)
        ensures
            match grammar::metadata(blob@) {
                Ok(registry) => r matches Ok(m) && m@ == registry && registry.wf(),
                Err(e) => r matches Err(err) && err == Error::Metadata(e),
            },
    {
        match parse_modules(blob) {
            Ok(m) => Ok(m),
            Err(e) => Err(Error::Metadata(e)),
        }
    }
}

fn parse_modules(blob: &[u8]) -> (r: Result<Metadata, MetadataError>)
    ensures
        match grammar::metadata(blob@) {
            Ok(registry) => r matches Ok(m) && m@ == registry && registry.wf(),
            Err(e) => r == Err::<Metadata, MetadataError>(e),
        },
{
    if blob.len() < 4 {
        return Err(MetadataError::Malformed);
    }
    if blob[0] != 0x6d || blob[1] != 0x65 || blob[2] != 0x74 || blob[3] != 0x61 {
        assert(blob@.take(4) != grammar::magic()) by {
            if blob@.take(4) == grammar::magic() {
                assert(blob@.take(4)[0] == 0x6d);
                assert(blob@.take(4)[1] == 0x65);
                assert(blob@.take(4)[2] == 0x74);
                assert(blob@.take(4)[3] == 0x61);
            }
        }
        return Err(MetadataError::InvalidPrefix);
    }
    assert(blob@.take(4) =~= grammar::magic());
    let body = slice_subrange(blob, 4, blob.len());
    assert(body@ =~= blob@.skip(4));
    let (version, s1) = read_byte(body)?;
    if version != grammar::SUPPORTED_VERSION {
        return Err(MetadataError::InvalidVersion(version));
    }
    let (n, start) = read_length(s1)?;
    if n > 256 {
        return Err(MetadataError::TooManyModules);
    }
    let mut out: Vec<ModuleMetadata> = Vec::new();
    let mut rest = start;
    let mut i: u32 = 0;
    let ghost whole = grammar::repeat(grammar::module_item(), start@, 0, n as nat);
    proof {
        assert(module_views(out@) =~= Seq::empty());
        grammar::lemma_repeat_begin(whole);
    }
    while i < n
        invariant
            i <= n <= 256,
            out@.len() == i,
            grammar::metadata(blob@) == match whole {
                Err(e) => Err(e),
                Ok((modules, _)) => Ok(MetadataView { modules }),
            },
            whole == grammar::after(
                module_views(out@),
                grammar::repeat(grammar::module_item(), rest@, i as int, (n - i) as nat),
            ),
            forall|j: int|
                0 <= j < out@.len() ==> {
                    &&& (#[trigger] out@[j])@.index == j
                    &&& out@[j]@.wf()
                },
        decreases n - i,
    {
        proof {
            grammar::lemma_repeat_step(
                grammar::module_item(),
                rest@,
                i as int,
                (n - i) as nat,
                module_views(out@),
            );
        }
        match read_module(i as u8, rest) {
            Err(e) => {
                return Err(e);
            },
            Ok((m, next)) => {
                assert(module_views(out@.push(m)) =~= module_views(out@).push(m@));
                out.push(m);
                rest = next;
            },
        }
        i += 1;
    }
    proof {
        grammar::lemma_repeat_end(grammar::module_item(), rest@, i as int, module_views(out@));
    }
    Ok(Metadata::new(out))
}

} // verus!
