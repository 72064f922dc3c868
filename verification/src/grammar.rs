//! The layout of a metadata blob, written as functions from bytes to what they hold.
//!
//! Every function reads one element from the front of its input and gives the element
//! together with the bytes that follow it. Lengths are compact integers as the codec
//! reads them; texts are UTF-8 behind their length in bytes.
//!
//! ```text
//! metadata  := "meta" version(=7) list(module)
//! module    := text option(storage) option(list(call)) option(list(event)) list(constant)
//! storage   := text(prefix) list(entry)
//! entry     := text(name) modifier type bytes(default) list(text)
//! type      := 0 text(value)
//!            | 1 hasher text(key) text(value) flag(linked)
//!            | 2 hasher text(key1) text(key2) text(value) hasher(key2)
//! call      := text(name) list(argument) list(text)
//! argument  := text(name) text(type)
//! event     := text(name) list(text) list(text)
//! constant  := text(name) text(type) bytes(value) list(text)
//! list(x)   := length x*          option(x) := 0 | 1 x
//! ```
//!
//! Documentation texts, events and constants are read, so that what follows them is
//! found, and then dropped. The prefix that a module's storage declares is dropped too:
//! items are identified by the module's name.

use crate::codec::compact_u32_decoding;
use crate::error::MetadataError;
use crate::metadata::{
    storage_prefix, ArgumentView, CallView, MetadataView, ModuleView, StorageEntryModifier,
    StorageEntryTypeView, StorageView,
};
use vstd::prelude::*;
use vstd::utf8::{decode_utf8, valid_utf8};

verus! {

/// The layout version that the library reads.
pub const SUPPORTED_VERSION: u8 = 7;

/// The four bytes that a blob begins with.
pub open spec fn magic() -> Seq<u8> {
    seq![0x6du8, 0x65u8, 0x74u8, 0x61u8]
}

/// One byte.
pub open spec fn byte(s: Seq<u8>) -> Result<(u8, Seq<u8>), MetadataError> {
    if s.len() >= 1 {
        Ok((s[0], s.skip(1)))
    } else {
        Err(MetadataError::Malformed)
    }
}

/// A byte that is 0 for `false` or 1 for `true`.
pub open spec fn flag(s: Seq<u8>) -> Result<(bool, Seq<u8>), MetadataError> {
    match byte(s) {
        Ok((b, rest)) => if b == 0 {
            Ok((false, rest))
        } else if b == 1 {
            Ok((true, rest))
        } else {
            Err(MetadataError::Malformed)
        },
        Err(e) => Err(e),
    }
}

/// A compact length.
pub open spec fn length(s: Seq<u8>) -> Result<(u32, Seq<u8>), MetadataError> {
    match compact_u32_decoding(s) {
        Some((n, rest)) => Ok((n, rest)),
        None => Err(MetadataError::Malformed),
    }
}

/// A byte string behind its length.
pub open spec fn bytes(s: Seq<u8>) -> Result<(Seq<u8>, Seq<u8>), MetadataError> {
    match length(s) {
        Ok((n, rest)) => if rest.len() >= n {
            Ok((rest.take(n as int), rest.skip(n as int)))
        } else {
            Err(MetadataError::Malformed)
        },
        Err(e) => Err(e),
    }
}

/// A text: a byte string that is valid UTF-8.
pub open spec fn text(s: Seq<u8>) -> Result<(Seq<char>, Seq<u8>), MetadataError> {
    match bytes(s) {
        Ok((b, rest)) => if valid_utf8(b) {
            Ok((decode_utf8(b), rest))
        } else {
            Err(MetadataError::Malformed)
        },
        Err(e) => Err(e),
    }
}

/// `n` elements in a row, the first of them at position `from`. Each element is read by
/// `item`, which is told the element's position.
pub open spec fn repeat<T>(
    item: spec_fn(int, Seq<u8>) -> Result<(T, Seq<u8>), MetadataError>,
    s: Seq<u8>,
    from: int,
    n: nat,
) -> Result<(Seq<T>, Seq<u8>), MetadataError>
    decreases n,
{
    if n == 0 {
        Ok((Seq::empty(), s))
    } else {
        match item(from, s) {
            Err(e) => Err(e),
            Ok((first, rest)) => match repeat(item, rest, from + 1, (n - 1) as nat) {
                Err(e) => Err(e),
                Ok((others, end)) => Ok((seq![first] + others, end)),
            },
        }
    }
}

/// The elements `found` followed by those of `more`.
pub open spec fn after<T>(found: Seq<T>, more: Result<(Seq<T>, Seq<u8>), MetadataError>) -> Result<
    (Seq<T>, Seq<u8>),
    MetadataError,
> {
    match more {
        Err(e) => Err(e),
        Ok((others, end)) => Ok((found + others, end)),
    }
}

/// A list: a length and that many elements.
pub open spec fn list<T>(
    item: spec_fn(int, Seq<u8>) -> Result<(T, Seq<u8>), MetadataError>,
    s: Seq<u8>,
) -> Result<(Seq<T>, Seq<u8>), MetadataError> {
    match length(s) {
        Ok((n, rest)) => repeat(item, rest, 0, n as nat),
        Err(e) => Err(e),
    }
}

/// A text as an element of a list.
pub open spec fn text_item() -> spec_fn(int, Seq<u8>) -> Result<(Seq<char>, Seq<u8>), MetadataError> {
    |i: int, s: Seq<u8>| text(s)
}

/// A list of texts.
pub open spec fn texts(s: Seq<u8>) -> Result<(Seq<Seq<char>>, Seq<u8>), MetadataError> {
    list(text_item(), s)
}

/// An argument of a call: its name and the name of its type.
pub open spec fn argument(s: Seq<u8>) -> Result<(ArgumentView, Seq<u8>), MetadataError> {
    match text(s) {
        Err(e) => Err(e),
        Ok((name, s1)) => match text(s1) {
            Err(e) => Err(e),
            Ok((ty, s2)) => Ok((ArgumentView { name, ty }, s2)),
        },
    }
}

/// An argument as an element of a list.
pub open spec fn argument_item() -> spec_fn(int, Seq<u8>) -> Result<
    (ArgumentView, Seq<u8>),
    MetadataError,
> {
    |i: int, s: Seq<u8>| argument(s)
}

/// A call: its name, its arguments and its documentation.
pub open spec fn call(s: Seq<u8>) -> Result<(CallView, Seq<u8>), MetadataError> {
    match text(s) {
        Err(e) => Err(e),
        Ok((name, s1)) => match list(argument_item(), s1) {
            Err(e) => Err(e),
            Ok((arguments, s2)) => match texts(s2) {
                Err(e) => Err(e),
                Ok((_, s3)) => Ok((CallView { name, arguments }, s3)),
            },
        },
    }
}

/// A call as an element of a list.
pub open spec fn call_item() -> spec_fn(int, Seq<u8>) -> Result<(CallView, Seq<u8>), MetadataError> {
    |i: int, s: Seq<u8>| call(s)
}

/// The calls of a module, where it has any: at most 256 of them, so that each has an
/// index of one byte.
pub open spec fn calls(s: Seq<u8>) -> Result<(Seq<CallView>, Seq<u8>), MetadataError> {
    match flag(s) {
        Err(e) => Err(e),
        Ok((present, s1)) => if !present {
            Ok((Seq::empty(), s1))
        } else {
            match length(s1) {
                Err(e) => Err(e),
                Ok((n, s2)) => if n > 256 {
                    Err(MetadataError::TooManyCalls)
                } else {
                    repeat(call_item(), s2, 0, n as nat)
                },
            }
        },
    }
}

/// Whether an unset item reads as absent (0) or as its default (1).
pub open spec fn modifier(s: Seq<u8>) -> Result<(StorageEntryModifier, Seq<u8>), MetadataError> {
    match flag(s) {
        Err(e) => Err(e),
        Ok((b, rest)) => Ok(
            (if b {
                StorageEntryModifier::Default
            } else {
                StorageEntryModifier::Optional
            }, rest),
        ),
    }
}

/// The kind of a storage item.
pub open spec fn storage_type(s: Seq<u8>) -> Result<(StorageEntryTypeView, Seq<u8>), MetadataError> {
    match byte(s) {
        Err(e) => Err(e),
        Ok((tag, s1)) => if tag == 0 {
            match text(s1) {
                Err(e) => Err(e),
                Ok((value, s2)) => Ok((StorageEntryTypeView::Plain { value }, s2)),
            }
        } else if tag == 1 {
            match byte(s1) {
                Err(e) => Err(e),
                Ok((hasher, s2)) => match text(s2) {
                    Err(e) => Err(e),
                    Ok((key, s3)) => match text(s3) {
                        Err(e) => Err(e),
                        Ok((value, s4)) => match flag(s4) {
                            Err(e) => Err(e),
                            Ok((linked, s5)) => Ok(
                                (StorageEntryTypeView::Mapping { hasher, key, value, linked }, s5),
                            ),
                        },
                    },
                },
            }
        } else if tag == 2 {
            match byte(s1) {
                Err(e) => Err(e),
                Ok((hasher, s2)) => match text(s2) {
                    Err(e) => Err(e),
                    Ok((key1, s3)) => match text(s3) {
                        Err(e) => Err(e),
                        Ok((key2, s4)) => match text(s4) {
                            Err(e) => Err(e),
                            Ok((value, s5)) => match byte(s5) {
                                Err(e) => Err(e),
                                Ok((key2_hasher, s6)) => Ok(
                                    (
                                        StorageEntryTypeView::DoubleMapping {
                                            hasher,
                                            key1,
                                            key2,
                                            value,
                                            key2_hasher,
                                        },
                                        s6,
                                    ),
                                ),
                            },
                        },
                    },
                },
            }
        } else {
            Err(MetadataError::Malformed)
        },
    }
}

/// A storage item of the module called `module`.
pub open spec fn storage_entry(module: Seq<char>, s: Seq<u8>) -> Result<
    (StorageView, Seq<u8>),
    MetadataError,
> {
    match text(s) {
        Err(e) => Err(e),
        Ok((name, s1)) => match modifier(s1) {
            Err(e) => Err(e),
            Ok((modifier, s2)) => match storage_type(s2) {
                Err(e) => Err(e),
                Ok((ty, s3)) => match bytes(s3) {
                    Err(e) => Err(e),
                    Ok((default, s4)) => match texts(s4) {
                        Err(e) => Err(e),
                        Ok((_, s5)) => Ok(
                            (
                                StorageView {
                                    name,
                                    prefix: storage_prefix(module, name),
                                    modifier,
                                    ty,
                                    default,
                                },
                                s5,
                            ),
                        ),
                    },
                },
            },
        },
    }
}

/// A storage item of the module called `module` as an element of a list.
pub open spec fn storage_entry_item(module: Seq<char>) -> spec_fn(int, Seq<u8>) -> Result<
    (StorageView, Seq<u8>),
    MetadataError,
> {
    |i: int, s: Seq<u8>| storage_entry(module, s)
}

/// The storage items of the module called `module`, where it has any.
pub open spec fn storage(module: Seq<char>, s: Seq<u8>) -> Result<
    (Seq<StorageView>, Seq<u8>),
    MetadataError,
> {
    match flag(s) {
        Err(e) => Err(e),
        Ok((present, s1)) => if !present {
            Ok((Seq::empty(), s1))
        } else {
            match text(s1) {
                Err(e) => Err(e),
                Ok((_, s2)) => list(storage_entry_item(module), s2),
            }
        },
    }
}

/// An event: its name, the names of the types of its arguments, its documentation.
pub open spec fn event(s: Seq<u8>) -> Result<((), Seq<u8>), MetadataError> {
    match text(s) {
        Err(e) => Err(e),
        Ok((_, s1)) => match texts(s1) {
            Err(e) => Err(e),
            Ok((_, s2)) => match texts(s2) {
                Err(e) => Err(e),
                Ok((_, s3)) => Ok(((), s3)),
            },
        },
    }
}

/// An event as an element of a list.
pub open spec fn event_item() -> spec_fn(int, Seq<u8>) -> Result<((), Seq<u8>), MetadataError> {
    |i: int, s: Seq<u8>| event(s)
}

/// The events of a module, where it has any.
pub open spec fn events(s: Seq<u8>) -> Result<((), Seq<u8>), MetadataError> {
    match flag(s) {
        Err(e) => Err(e),
        Ok((present, s1)) => if !present {
            Ok(((), s1))
        } else {
            match list(event_item(), s1) {
                Err(e) => Err(e),
                Ok((_, s2)) => Ok(((), s2)),
            }
        },
    }
}

/// A constant: its name, the name of its type, its encoded value, its documentation.
pub open spec fn constant(s: Seq<u8>) -> Result<((), Seq<u8>), MetadataError> {
    match text(s) {
        Err(e) => Err(e),
        Ok((_, s1)) => match text(s1) {
            Err(e) => Err(e),
            Ok((_, s2)) => match bytes(s2) {
                Err(e) => Err(e),
                Ok((_, s3)) => match texts(s3) {
                    Err(e) => Err(e),
                    Ok((_, s4)) => Ok(((), s4)),
                },
            },
        },
    }
}

/// A constant as an element of a list.
pub open spec fn constant_item() -> spec_fn(int, Seq<u8>) -> Result<((), Seq<u8>), MetadataError> {
    |i: int, s: Seq<u8>| constant(s)
}

/// The constants of a module.
pub open spec fn constants(s: Seq<u8>) -> Result<((), Seq<u8>), MetadataError> {
    match list(constant_item(), s) {
        Err(e) => Err(e),
        Ok((_, rest)) => Ok(((), rest)),
    }
}

/// The module at position `index`.
pub open spec fn module(index: int, s: Seq<u8>) -> Result<(ModuleView, Seq<u8>), MetadataError> {
    match text(s) {
        Err(e) => Err(e),
        Ok((name, s1)) => match storage(name, s1) {
            Err(e) => Err(e),
            Ok((storage, s2)) => match calls(s2) {
                Err(e) => Err(e),
                Ok((calls, s3)) => match events(s3) {
                    Err(e) => Err(e),
                    Ok((_, s4)) => match constants(s4) {
                        Err(e) => Err(e),
                        Ok((_, s5)) => Ok(
                            (ModuleView { name, index: index as u8, storage, calls }, s5),
                        ),
                    },
                },
            },
        },
    }
}

/// A module as an element of a list; its index is its position.
pub open spec fn module_item() -> spec_fn(int, Seq<u8>) -> Result<(ModuleView, Seq<u8>), MetadataError> {
    |i: int, s: Seq<u8>| module(i, s)
}

/// A whole blob: the magic bytes, the version, and at most 256 modules, so that each has
/// an index of one byte. Bytes that follow the last module are not looked at.
pub open spec fn metadata(s: Seq<u8>) -> Result<MetadataView, MetadataError> {
    if s.len() < 4 {
        Err(MetadataError::Malformed)
    } else if s.take(4) != magic() {
        Err(MetadataError::InvalidPrefix)
    } else {
        match byte(s.skip(4)) {
            Err(e) => Err(e),
            Ok((version, s1)) => if version != SUPPORTED_VERSION {
                Err(MetadataError::InvalidVersion(version))
            } else {
                match length(s1) {
                    Err(e) => Err(e),
                    Ok((n, s2)) => if n > 256 {
                        Err(MetadataError::TooManyModules)
                    } else {
                        match repeat(module_item(), s2, 0, n as nat) {
                            Err(e) => Err(e),
                            Ok((modules, _)) => Ok(MetadataView { modules }),
                        }
                    },
                }
            },
        }
    }
}

/// Reading `k` elements after `found` is reading one and then the `k - 1` others after
/// `found` and that one.
pub proof fn lemma_repeat_step<T>(
    item: spec_fn(int, Seq<u8>) -> Result<(T, Seq<u8>), MetadataError>,
    s: Seq<u8>,
    from: int,
    k: nat,
    found: Seq<T>,
)
    requires
        k > 0,
    ensures
        after(found, repeat(item, s, from, k)) == match item(from, s) {
            Err(e) => Err(e),
            Ok((x, rest)) => after(found.push(x), repeat(item, rest, from + 1, (k - 1) as nat)),
        },
{
    match item(from, s) {
        Err(e) => {},
        Ok((x, rest)) => {
            match repeat(item, rest, from + 1, (k - 1) as nat) {
                Err(e) => {},
                Ok((others, end)) => {
                    assert(found + (seq![x] + others) =~= found.push(x) + others);
                },
            }
        },
    }
}

/// Reading no element after `found` gives `found` and leaves the input as it is.
pub proof fn lemma_repeat_end<T>(
    item: spec_fn(int, Seq<u8>) -> Result<(T, Seq<u8>), MetadataError>,
    s: Seq<u8>,
    from: int,
    found: Seq<T>,
)
    ensures
        after(found, repeat(item, s, from, 0)) == Ok::<(Seq<T>, Seq<u8>), MetadataError>((found, s)),
{
    assert(found + Seq::<T>::empty() =~= found);
}

/// Reading elements after none is reading them.
pub proof fn lemma_repeat_begin<T>(more: Result<(Seq<T>, Seq<u8>), MetadataError>)
    ensures
        after(Seq::<T>::empty(), more) == more,
{
    match more {
        Err(e) => {},
        Ok((others, end)) => {
            assert(Seq::<T>::empty() + others =~= others);
        },
    }
}

/// Where every element that `item` reads at a position has the property `holds` for
/// that position, `n` elements read in a row are `n` elements that have it, each for
/// its own position.
pub proof fn lemma_repeat_all<T>(
    item: spec_fn(int, Seq<u8>) -> Result<(T, Seq<u8>), MetadataError>,
    s: Seq<u8>,
    from: int,
    n: nat,
    holds: spec_fn(int, T) -> bool,
)
    requires
        forall|i: int, input: Seq<u8>| #[trigger]
            item(i, input) matches Ok((x, _)) ==> holds(i, x),
    ensures
        repeat(item, s, from, n) matches Ok((xs, _)) ==> xs.len() == n && forall|k: int|
            0 <= k < n ==> holds(from + k, #[trigger] xs[k]),
    decreases n,
{
    if n > 0 {
        if let Ok((first, rest)) = item(from, s) {
            lemma_repeat_all(item, rest, from + 1, (n - 1) as nat, holds);
            if let Ok((others, _)) = repeat(item, rest, from + 1, (n - 1) as nat) {
                let xs = seq![first] + others;
                assert forall|k: int| 0 <= k < n implies holds(from + k, #[trigger] xs[k]) by {
                    if k > 0 {
                        assert(xs[k] == others[k - 1]);
                        assert(holds(from + 1 + (k - 1), others[k - 1]));
                    }
                }
            }
        }
    }
}

/// Every module that the layout describes is well formed and has the index it was read
/// for.
pub proof fn lemma_module_is_well_formed(index: int, s: Seq<u8>)
    requires
        0 <= index < 256,
    ensures
        module(index, s) matches Ok((m, _)) ==> m.index == index && m.wf(),
{
    if let Ok((m, _)) = module(index, s) {
        let name = text(s)->Ok_0.0;
        let s1 = text(s)->Ok_0.1;
        let s2 = storage(name, s1)->Ok_0.1;
        assert(m.storage == storage(name, s1)->Ok_0.0);
        assert(m.calls == calls(s2)->Ok_0.0);
        let present = flag(s1)->Ok_0.0;
        if present {
            let after_flag = flag(s1)->Ok_0.1;
            let after_prefix = text(after_flag)->Ok_0.1;
            let n = length(after_prefix)->Ok_0.0;
            let start = length(after_prefix)->Ok_0.1;
            let holds = |i: int, x: StorageView| x.prefix == storage_prefix(name, x.name);
            lemma_repeat_all(storage_entry_item(name), start, 0, n as nat, holds);
            assert forall|i: int| 0 <= i < m.storage.len() implies (#[trigger] m.storage[i]).prefix
                == storage_prefix(m.name, m.storage[i].name) by {
                assert(holds(0 + i, m.storage[i]));
            }
        }
        let has_calls = flag(s2)->Ok_0.0;
        if has_calls {
            let after_flag = flag(s2)->Ok_0.1;
            let n = length(after_flag)->Ok_0.0;
            let start = length(after_flag)->Ok_0.1;
            let any = |i: int, x: CallView| true;
            lemma_repeat_all(call_item(), start, 0, n as nat, any);
        }
    }
}

/// Every registry that the layout describes is well formed: its modules and their
/// calls have indices of one byte, which are their positions.
pub proof fn lemma_metadata_is_well_formed(s: Seq<u8>)
    ensures
        metadata(s) matches Ok(registry) ==> registry.wf(),
{
    if let Ok(registry) = metadata(s) {
        let s1 = byte(s.skip(4))->Ok_0.1;
        let n = length(s1)->Ok_0.0;
        let s2 = length(s1)->Ok_0.1;
        let holds = |i: int, m: ModuleView| 0 <= i < 256 ==> m.index == i && m.wf();
        assert forall|i: int, input: Seq<u8>| (#[trigger] module_item()(i, input)) is Ok implies holds(
            i,
            module_item()(i, input)->Ok_0.0,
        ) by {
            if 0 <= i < 256 {
                lemma_module_is_well_formed(i, input);
            }
        }
        lemma_repeat_all(module_item(), s2, 0, n as nat, holds);
        assert forall|i: int| 0 <= i < registry.modules.len() implies {
            &&& (#[trigger] registry.modules[i]).index == i
            &&& registry.modules[i].wf()
        } by {
            assert(holds(0 + i, registry.modules[i]));
        }
    }
}

} // verus!
