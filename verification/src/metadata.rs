//! The metadata registry: the modules of a runtime with their calls and storage items,
//! looked up by name.
//!
//! A registry is obtained by parsing the blob that a node returns. Module and call
//! indices are positions in that blob; they are fixed when the registry is built and are
//! never derived from names. Where a blob declares one name twice, the later
//! declaration is the one that lookups find.

use crate::codec::{bytes_eq, Decode};
use crate::error::{EncodingError, Error, ErrorView, Lookup};
use crate::hashing::StorageHasher;
use vstd::prelude::*;
use vstd::utf8::{encode_utf8, encode_utf8_decode_utf8};

verus! {

/// The position of the last of `names` that equals `name`.
pub open spec fn find_last(names: Seq<Seq<char>>, name: Seq<char>) -> Option<int>
    decreases names.len(),
{
    if names.len() == 0 {
        None
    } else if names.last() == name {
        Some(names.len() - 1)
    } else {
        find_last(names.drop_last(), name)
    }
}

/// The byte strings of `parts`, one after the other.
pub open spec fn concat(parts: Seq<Seq<u8>>) -> Seq<u8>
    decreases parts.len(),
{
    if parts.len() == 0 {
        Seq::empty()
    } else {
        concat(parts.drop_last()) + parts.last()
    }
}

/// The payload of a call: module index, call index, then the encoded arguments in the
/// order given.
pub open spec fn call_payload(module: u8, call: u8, args: Seq<Seq<u8>>) -> Seq<u8> {
    seq![module, call] + concat(args)
}

/// The text that identifies a storage item: module name, a space, item name, in UTF-8.
pub open spec fn storage_prefix(module: Seq<char>, item: Seq<char>) -> Seq<u8> {
    encode_utf8(module) + seq![0x20u8] + encode_utf8(item)
}

/// The key of a plain storage item: its prefix, hashed. The layout lets a plain item
/// declare no strategy; its strategy is `Twox128`.
pub open spec fn plain_key(prefix: Seq<u8>) -> Seq<u8> {
    StorageHasher::Twox128.digest(prefix)
}

/// The key of one entry of a storage map: the hashed prefix followed by the hashed key.
pub open spec fn map_key(hasher: StorageHasher, prefix: Seq<u8>, key: Seq<u8>) -> Seq<u8> {
    hasher.digest(prefix) + hasher.digest(key)
}

/// An argument that a call declares.
pub struct ArgumentView {
    pub name: Seq<char>,
    pub ty: Seq<char>,
}

/// A call that a module declares.
pub struct CallView {
    pub name: Seq<char>,
    pub arguments: Seq<ArgumentView>,
}

/// Whether an unset storage item reads as absent or as its default.
#[derive(Debug, Clone, Copy, PartialEq, Eq, Structural)]
pub enum StorageEntryModifier {
    Optional,
    Default,
}

/// What kind of storage item a module declares.
pub enum StorageEntryTypeView {
    Plain { value: Seq<char> },
    Mapping { hasher: u8, key: Seq<char>, value: Seq<char>, linked: bool },
    DoubleMapping { hasher: u8, key1: Seq<char>, key2: Seq<char>, value: Seq<char>, key2_hasher: u8 },
}

/// A storage item that a module declares.
pub struct StorageView {
    pub name: Seq<char>,
    pub prefix: Seq<u8>,
    pub modifier: StorageEntryModifier,
    pub ty: StorageEntryTypeView,
    pub default: Seq<u8>,
}

/// A module of the runtime.
pub struct ModuleView {
    pub name: Seq<char>,
    pub index: u8,
    pub storage: Seq<StorageView>,
    pub calls: Seq<CallView>,
}

/// The registry as contracts speak of it.
pub struct MetadataView {
    pub modules: Seq<ModuleView>,
}

/// A call as it is recovered from a payload.
pub struct DecodedCallView {
    pub module: Seq<char>,
    pub function: Seq<char>,
    pub arguments: Seq<u8>,
}

impl StorageView {
    /// The key of this item: for a plain value the hashed prefix, for a map the hashed
    /// prefix followed by the hashed `key`. The strategy is the one the item declares;
    /// an identifier that names no known strategy is an error.
    pub open spec fn key(self, key: Option<Seq<u8>>) -> Result<Seq<u8>, ErrorView> {
        match self.ty {
            StorageEntryTypeView::Plain { .. } => match key {
                None => Ok(plain_key(self.prefix)),
                Some(_) => Err(ErrorView::Encoding(EncodingError::NotAMap)),
            },
            StorageEntryTypeView::Mapping { hasher, .. } => match key {
                None => Err(ErrorView::Encoding(EncodingError::NotPlain)),
                Some(k) => match StorageHasher::of_id(hasher) {
                    None => Err(ErrorView::Encoding(EncodingError::UnsupportedHasher(hasher))),
                    Some(h) => Ok(map_key(h, self.prefix, k)),
                },
            },
            StorageEntryTypeView::DoubleMapping { .. } => match key {
                None => Err(ErrorView::Encoding(EncodingError::NotPlain)),
                Some(_) => Err(ErrorView::Encoding(EncodingError::NotAMap)),
            },
        }
    }
}

impl ModuleView {
    /// The calls fit a one-byte index, and every storage item carries the prefix made of
    /// this module's name and its own.
    pub open spec fn wf(self) -> bool {
        &&& self.calls.len() <= 256
        &&& forall|i: int|
            0 <= i < self.storage.len() ==> (#[trigger] self.storage[i]).prefix == storage_prefix(
                self.name,
                self.storage[i].name,
            )
    }

    /// The names of the calls, in the order of their indices.
    pub open spec fn call_names(self) -> Seq<Seq<char>> {
        self.calls.map_values(|c: CallView| c.name)
    }

    /// The names of the storage items, in the order in which they are declared.
    pub open spec fn storage_names(self) -> Seq<Seq<char>> {
        self.storage.map_values(|s: StorageView| s.name)
    }

    /// The payload of a call of this module, or why there is none.
    pub open spec fn call(self, function: Seq<char>, args: Seq<Seq<u8>>) -> Result<
        Seq<u8>,
        ErrorView,
    > {
        match find_last(self.call_names(), function) {
            None => Err(ErrorView::NotFound(Lookup::Call, function)),
            Some(i) => if self.calls[i].arguments.len() != args.len() {
                Err(
                    ErrorView::Encoding(
                        EncodingError::ArgumentCount {
                            expected: self.calls[i].arguments.len() as usize,
                            found: args.len() as usize,
                        },
                    ),
                )
            } else {
                Ok(call_payload(self.index, i as u8, args))
            },
        }
    }

    /// The storage item of this name, or why there is none.
    pub open spec fn storage(self, name: Seq<char>) -> Result<StorageView, ErrorView> {
        match find_last(self.storage_names(), name) {
            None => Err(ErrorView::NotFound(Lookup::Storage, name)),
            Some(i) => Ok(self.storage[i]),
        }
    }
}

impl MetadataView {
    /// The modules fit a one-byte index, each module's index is its position, and each
    /// module is well formed.
    pub open spec fn wf(self) -> bool {
        &&& self.modules.len() <= 256
        &&& forall|i: int|
            0 <= i < self.modules.len() ==> {
                &&& (#[trigger] self.modules[i]).index == i
                &&& self.modules[i].wf()
            }
    }

    /// The names of the modules, in the order of their indices.
    pub open spec fn module_names(self) -> Seq<Seq<char>> {
        self.modules.map_values(|m: ModuleView| m.name)
    }

    /// The module of this name, or why there is none.
    pub open spec fn module(self, name: Seq<char>) -> Result<ModuleView, ErrorView> {
        match find_last(self.module_names(), name) {
            None => Err(ErrorView::NotFound(Lookup::Module, name)),
            Some(i) => Ok(self.modules[i]),
        }
    }

    /// The payload of the call `function` of `module` with the encoded arguments `args`.
    pub open spec fn encode_call(
        self,
        module: Seq<char>,
        function: Seq<char>,
        args: Seq<Seq<u8>>,
    ) -> Result<Seq<u8>, ErrorView> {
        match self.module(module) {
            Err(e) => Err(e),
            Ok(m) => m.call(function, args),
        }
    }

    /// The names that the two leading indices of `payload` stand for, and the bytes that
    /// follow them.
    pub open spec fn decode_call(self, payload: Seq<u8>) -> Result<DecodedCallView, ErrorView> {
        if payload.len() < 2 || payload[0] >= self.modules.len() || payload[1]
            >= self.modules[payload[0] as int].calls.len() {
            Err(ErrorView::Decoding)
        } else {
            let m = self.modules[payload[0] as int];
            Ok(
                DecodedCallView {
                    module: m.name,
                    function: m.calls[payload[1] as int].name,
                    arguments: payload.skip(2),
                },
            )
        }
    }

    /// The storage key of `item` of `module`, for the map key `key` where the item is a
    /// map.
    pub open spec fn storage_key(
        self,
        module: Seq<char>,
        item: Seq<char>,
        key: Option<Seq<u8>>,
    ) -> Result<Seq<u8>, ErrorView> {
        match self.module(module) {
            Err(e) => Err(e),
            Ok(m) => match m.storage(item) {
                Err(e) => Err(e),
                Ok(s) => s.key(key),
            },
        }
    }
}

/// What `find_last` finds is a position of `name`, and no later position holds it.
pub proof fn lemma_find_last(names: Seq<Seq<char>>, name: Seq<char>)
    ensures
        match find_last(names, name) {
            Some(i) => {
                &&& 0 <= i < names.len()
                &&& names[i] == name
                &&& forall|j: int| i < j < names.len() ==> names[j] != name
            },
            None => forall|j: int| 0 <= j < names.len() ==> names[j] != name,
        },
    decreases names.len(),
{
    if names.len() > 0 && names.last() != name {
        let init = names.drop_last();
        lemma_find_last(init, name);
        assert forall|j: int| 0 <= j < init.len() implies init[j] == names[j] by {}
        match find_last(init, name) {
            Some(i) => {
                assert(names[i] == init[i]);
                assert forall|j: int| i < j < names.len() implies names[j] != name by {
                    if j < init.len() {
                        assert(init[j] != name);
                    }
                }
            },
            None => {
                assert forall|j: int| 0 <= j < names.len() implies names[j] != name by {
                    if j < init.len() {
                        assert(init[j] != name);
                    }
                }
            },
        }
    }
}

/// A call whose module and name the registry holds, made with as many arguments as the
/// call declares, is encoded, and its payload begins with the position of the module
/// and the position of the call, followed by the arguments. `i` and `c` are the
/// positions at which the registry declares the module and the call.
pub proof fn lemma_call_begins_with_indices(
    m: MetadataView,
    module: Seq<char>,
    function: Seq<char>,
    args: Seq<Seq<u8>>,
    i: int,
    c: int,
)
    requires
        m.wf(),
        find_last(m.module_names(), module) == Some(i),
        find_last(m.modules[i].call_names(), function) == Some(c),
        m.modules[i].calls[c].arguments.len() == args.len(),
    ensures
        m.encode_call(module, function, args) matches Ok(payload) && payload.len() >= 2
            && payload[0] == i && payload[1] == c && payload.skip(2) == concat(args),
{
    lemma_find_last(m.module_names(), module);
    lemma_find_last(m.modules[i].call_names(), function);
    assert(m.modules[i].wf());
    let payload = call_payload(m.modules[i].index, c as u8, args);
    assert(payload.skip(2) =~= concat(args));
}

/// Reading back the payload of an encoded call, with the registry that encoded it,
/// gives the names that were encoded and the bytes of the arguments.
pub proof fn lemma_decode_call_inverts_encode_call(
    m: MetadataView,
    module: Seq<char>,
    function: Seq<char>,
    args: Seq<Seq<u8>>,
)
    requires
        m.wf(),
    ensures
        m.encode_call(module, function, args) matches Ok(payload) ==> m.decode_call(payload) == Ok::<
            DecodedCallView,
            ErrorView,
        >(DecodedCallView { module, function, arguments: concat(args) }),
{
    if let Ok(payload) = m.encode_call(module, function, args) {
        lemma_find_last(m.module_names(), module);
        let i = find_last(m.module_names(), module)->Some_0;
        let found = m.modules[i];
        assert(found.wf());
        lemma_find_last(found.call_names(), function);
        let c = find_last(found.call_names(), function)->Some_0;
        assert(payload == call_payload(found.index, c as u8, args));
        assert(payload[0] == i);
        assert(payload[1] == c);
        assert(m.module_names()[i] == found.name);
        assert(found.call_names()[c] == found.calls[c].name);
        assert(payload.skip(2) =~= concat(args));
    }
}

/// The storage key is a function of the registry, the names and the map key: two
/// derivations from the same of each give the same bytes, or fail alike.
pub proof fn lemma_storage_key_is_deterministic(
    first: MetadataView,
    second: MetadataView,
    module: Seq<char>,
    item: Seq<char>,
    key: Option<Seq<u8>>,
)
    requires
        first == second,
    ensures
        first.storage_key(module, item, key) == second.storage_key(module, item, key),
{
}

/// The views of `items`, in order.
pub open spec fn argument_views(items: Seq<Argument>) -> Seq<ArgumentView> {
    items.map_values(|a: Argument| a@)
}

/// The views of `items`, in order.
pub open spec fn call_views(items: Seq<CallMetadata>) -> Seq<CallView> {
    items.map_values(|c: CallMetadata| c@)
}

/// The views of `items`, in order.
pub open spec fn storage_views(items: Seq<StorageMetadata>) -> Seq<StorageView> {
    items.map_values(|s: StorageMetadata| s@)
}

/// The views of `items`, in order.
pub open spec fn module_views(items: Seq<ModuleMetadata>) -> Seq<ModuleView> {
    items.map_values(|m: ModuleMetadata| m@)
}

/// The views of the byte strings of `args`, in order.
pub open spec fn views(args: Seq<Vec<u8>>) -> Seq<Seq<u8>> {
    args.map_values(|a: Vec<u8>| a@)
}

/// Whether two texts are the same.
pub fn str_eq(a: &str, b: &str) -> (r: bool)
    ensures
        r == (a@ == b@),
{
    let r = bytes_eq(a.as_bytes(), b.as_bytes());
    proof {
        encode_utf8_decode_utf8(a@);
        encode_utf8_decode_utf8(b@);
    }
    r
}

/// An entry of the registry that is found by its name.
trait Named {
    spec fn label(&self) -> Seq<char>;

    fn label_text(&self) -> (r: &str)
        ensures
            r@ == self.label(),
    ;
}

spec fn labels<T: Named>(items: Seq<T>) -> Seq<Seq<char>> {
    items.map_values(|t: T| t.label())
}

/// The position of the last of `items` that is called `name`.
fn position<T: Named>(items: &Vec<T>, name: &str) -> (r: Option<usize>)
    ensures
        find_last(labels(items@), name@) == match r {
            Some(i) => Some(i as int),
            None => None,
        },
        r matches Some(i) ==> i < items@.len(),
{
    let ghost all = labels(items@);
    let mut i = items.len();
    assert(all.take(i as int) =~= all);
    while i > 0
        invariant
            i <= items@.len(),
            all == labels(items@),
            find_last(all, name@) == find_last(all.take(i as int), name@),
        decreases i,
    {
        i -= 1;
        let ghost upto = all.take(i + 1);
        assert(upto.last() == items@[i as int].label());
        if str_eq(items[i].label_text(), name) {
            return Some(i);
        }
        assert(upto.drop_last() =~= all.take(i as int));
    }
    None
}

/// An argument that a call declares: its name and the name of its type.
#[derive(Debug)]
pub struct Argument {
    name: String,
    ty: String,
}

impl View for Argument {
    type V = ArgumentView;

    closed spec fn view(&self) -> ArgumentView {
        ArgumentView { name: self.name@, ty: self.ty@ }
    }
}

impl Argument {
    pub(crate) fn new(name: String, ty: String) -> (r: Argument)
        ensures
            r@ == (ArgumentView { name: name@, ty: ty@ }),
    {
        Argument { name, ty }
    }

    /// The name of the argument.
    pub fn name(&self) -> (r: &str)
        ensures
            r@ == self@.name,
    {
        self.name.as_str()
    }

    /// The name of the argument's type.
    pub fn ty(&self) -> (r: &str)
        ensures
            r@ == self@.ty,
    {
        self.ty.as_str()
    }
}

/// A call that a module declares. Its index is its position among the module's calls.
#[derive(Debug)]
pub struct CallMetadata {
    name: String,
    arguments: Vec<Argument>,
}

impl View for CallMetadata {
    type V = CallView;

    closed spec fn view(&self) -> CallView {
        CallView { name: self.name@, arguments: argument_views(self.arguments@) }
    }
}

impl Named for CallMetadata {
    closed spec fn label(&self) -> Seq<char> {
        self.name@
    }

    fn label_text(&self) -> (r: &str) {
        self.name.as_str()
    }
}

impl CallMetadata {
    pub(crate) fn new(name: String, arguments: Vec<Argument>) -> (r: CallMetadata)
        ensures
            r@ == (CallView { name: name@, arguments: argument_views(arguments@) }),
    {
        CallMetadata { name, arguments }
    }

    /// The name of the call.
    pub fn name(&self) -> (r: &str)
        ensures
            r@ == self@.name,
    {
        self.name.as_str()
    }

    /// The number of arguments that the call takes.
    pub fn arity(&self) -> (r: usize)
        ensures
            r == self@.arguments.len(),
    {
        self.arguments.len()
    }

    /// The arguments that the call declares, in their order.
    pub fn arguments(&self) -> (r: &Vec<Argument>)
        ensures
            argument_views(r@) == self@.arguments,
    {
        &self.arguments
    }
}

/// What kind of storage item a module declares, with the names of the types it holds
/// and, for maps, the identifier of its hashing strategy.
#[derive(Debug)]
pub enum StorageEntryType {
    Plain { value: String },
    Mapping { hasher: u8, key: String, value: String, linked: bool },
    DoubleMapping { hasher: u8, key1: String, key2: String, value: String, key2_hasher: u8 },
}

impl View for StorageEntryType {
    type V = StorageEntryTypeView;

    open spec fn view(&self) -> StorageEntryTypeView {
        match self {
            StorageEntryType::Plain { value } => StorageEntryTypeView::Plain { value: value@ },
            StorageEntryType::Mapping { hasher, key, value, linked } => StorageEntryTypeView::Mapping {
                hasher: *hasher,
                key: key@,
                value: value@,
                linked: *linked,
            },
            StorageEntryType::DoubleMapping {
                hasher,
                key1,
                key2,
                value,
                key2_hasher,
            } => StorageEntryTypeView::DoubleMapping {
                hasher: *hasher,
                key1: key1@,
                key2: key2@,
                value: value@,
                key2_hasher: *key2_hasher,
            },
        }
    }
}

/// An opaque key of the node's storage.
#[derive(Debug, Clone, PartialEq, Eq)]
pub struct StorageKey(pub Vec<u8>);

impl View for StorageKey {
    type V = Seq<u8>;

    open spec fn view(&self) -> Seq<u8> {
        self.0@
    }
}

/// The payload of a call: two index bytes and the encoded arguments.
#[derive(Debug, Clone, PartialEq, Eq)]
pub struct Encoded(pub Vec<u8>);

impl View for Encoded {
    type V = Seq<u8>;

    open spec fn view(&self) -> Seq<u8> {
        self.0@
    }
}

/// A storage map whose hashing strategy is known to the library.
#[derive(Debug)]
pub struct StorageMap {
    prefix: Vec<u8>,
    hasher: StorageHasher,
    default: Vec<u8>,
}

impl StorageMap {
    /// The text that identifies the map, as it is hashed into its keys.
    pub closed spec fn spec_prefix(&self) -> Seq<u8> {
        self.prefix@
    }

    /// The hashing strategy of the map.
    pub closed spec fn spec_hasher(&self) -> StorageHasher {
        self.hasher
    }

    /// The encoded value that an unset entry reads as.
    pub closed spec fn spec_default(&self) -> Seq<u8> {
        self.default@
    }

    /// The hashing strategy of the map.
    pub fn hasher(&self) -> (r: StorageHasher)
        ensures
            r == self.spec_hasher(),
    {
        self.hasher
    }

    /// The storage key of the entry whose encoded map key is `key`.
    pub fn key(&self, key: &[u8]) -> (r: StorageKey)
        ensures
            r@ == map_key(self.spec_hasher(), self.spec_prefix(), key@),
    {
        let mut bytes = self.hasher.hash(self.prefix.as_slice());
        let hashed = self.hasher.hash(key);
        bytes.extend_from_slice(hashed.as_slice());
        StorageKey(bytes)
    }

    /// The value that an unset entry reads as, decoded from the bytes the item declares.
    pub fn default<V: Decode>(&self) -> (r: Result<V, Error>)
        ensures
            match V::decoding(self.spec_default()) {
                Some(v) => r == Ok::<V, Error>(v),
                None => r == Err::<V, Error>(Error::Decoding),
            },
    {
        match V::decode(self.default.as_slice()) {
            Some(v) => Ok(v),
            None => Err(Error::Decoding),
        }
    }
}

/// Copies a byte string.
fn copy_bytes(bytes: &[u8]) -> (r: Vec<u8>)
    ensures
        r@ == bytes@,
{
    let mut out: Vec<u8> = Vec::new();
    out.extend_from_slice(bytes);
    out
}

/// A storage item that a module declares.
#[derive(Debug)]
pub struct StorageMetadata {
    name: String,
    prefix: Vec<u8>,
    modifier: StorageEntryModifier,
    ty: StorageEntryType,
    default: Vec<u8>,
}

impl View for StorageMetadata {
    type V = StorageView;

    closed spec fn view(&self) -> StorageView {
        StorageView {
            name: self.name@,
            prefix: self.prefix@,
            modifier: self.modifier,
            ty: self.ty@,
            default: self.default@,
        }
    }
}

impl Named for StorageMetadata {
    closed spec fn label(&self) -> Seq<char> {
        self.name@
    }

    fn label_text(&self) -> (r: &str) {
        self.name.as_str()
    }
}

impl StorageMetadata {
    /// Describes the item `name` of the module called `module`.
    pub(crate) fn new(
        module: &str,
        name: String,
        modifier: StorageEntryModifier,
        ty: StorageEntryType,
        default: Vec<u8>,
    ) -> (r: StorageMetadata)
        ensures
            r@ == (StorageView {
                name: name@,
                prefix: storage_prefix(module@, name@),
                modifier,
                ty: ty@,
                default: default@,
            }),
    {
        let mut prefix = copy_bytes(module.as_bytes());
        prefix.push(0x20u8);
        prefix.extend_from_slice(name.as_str().as_bytes());
        assert(prefix@ =~= storage_prefix(module@, name@));
        StorageMetadata { name, prefix, modifier, ty, default }
    }

    /// The name of the storage item.
    pub fn name(&self) -> (r: &str)
        ensures
            r@ == self@.name,
    {
        self.name.as_str()
    }

    /// The text that identifies the item, as it is hashed into storage keys.
    pub fn prefix(&self) -> (r: &[u8])
        ensures
            r@ == self@.prefix,
    {
        self.prefix.as_slice()
    }

    /// Whether the unset item reads as absent or as its default.
    pub fn modifier(&self) -> (r: StorageEntryModifier)
        ensures
            r == self@.modifier,
    {
        self.modifier
    }

    /// The kind of the item.
    pub fn ty(&self) -> (r: &StorageEntryType)
        ensures
            r@ == self@.ty,
    {
        &self.ty
    }

    /// The encoded value that the item declares for entries that are not set.
    pub fn default_bytes(&self) -> (r: &[u8])
        ensures
            r@ == self@.default,
    {
        self.default.as_slice()
    }

    /// The storage key of this item: without a map key for a plain value, with the
    /// encoded map key for a map.
    pub fn key(&self, key: Option<&[u8]>) -> (r: Result<StorageKey, Error>)
        ensures
            match self@.key(
                match key {
                    Some(k) => Some(k@),
                    None => None,
                },
            ) {
                Ok(bytes) => r matches Ok(k) && k@ == bytes,
                Err(e) => r matches Err(err) && err@ == e,
            },
    {
        match &self.ty {
            StorageEntryType::Plain { .. } => match key {
                None => Ok(StorageKey(StorageHasher::Twox128.hash(self.prefix.as_slice()))),
                Some(_) => Err(Error::Encoding(EncodingError::NotAMap)),
            },
            StorageEntryType::Mapping { hasher, .. } => match key {
                None => Err(Error::Encoding(EncodingError::NotPlain)),
                Some(k) => match StorageHasher::from_id(*hasher) {
                    None => Err(Error::Encoding(EncodingError::UnsupportedHasher(*hasher))),
                    Some(h) => {
                        let mut bytes = h.hash(self.prefix.as_slice());
                        let hashed = h.hash(k);
                        bytes.extend_from_slice(hashed.as_slice());
                        Ok(StorageKey(bytes))
                    },
                },
            },
            StorageEntryType::DoubleMapping { .. } => match key {
                None => Err(Error::Encoding(EncodingError::NotPlain)),
                Some(_) => Err(Error::Encoding(EncodingError::NotAMap)),
            },
        }
    }

    /// This item as a map, where it is one and its hashing strategy is known.
    pub fn get_map(&self) -> (r: Result<StorageMap, Error>)
        ensures
            match self@.ty {
                StorageEntryTypeView::Mapping { hasher, .. } => match StorageHasher::of_id(hasher) {
                    Some(h) => r matches Ok(m) && m.spec_hasher() == h && m.spec_prefix()
                        == self@.prefix && m.spec_default() == self@.default,
                    None => r == Err::<StorageMap, Error>(
                        Error::Encoding(EncodingError::UnsupportedHasher(hasher)),
                    ),
                },
                _ => r == Err::<StorageMap, Error>(Error::Encoding(EncodingError::NotAMap)),
            },
    {
        match &self.ty {
            StorageEntryType::Mapping { hasher, .. } => match StorageHasher::from_id(*hasher) {
                Some(h) => Ok(
                    StorageMap {
                        prefix: copy_bytes(self.prefix.as_slice()),
                        hasher: h,
                        default: copy_bytes(self.default.as_slice()),
                    },
                ),
                None => Err(Error::Encoding(EncodingError::UnsupportedHasher(*hasher))),
            },
            _ => Err(Error::Encoding(EncodingError::NotAMap)),
        }
    }

    /// The value that the unset item reads as, decoded from the bytes the item declares.
    pub fn default<V: Decode>(&self) -> (r: Result<V, Error>)
        ensures
            match V::decoding(self@.default) {
                Some(v) => r == Ok::<V, Error>(v),
                None => r == Err::<V, Error>(Error::Decoding),
            },
    {
        match V::decode(self.default.as_slice()) {
            Some(v) => Ok(v),
            None => Err(Error::Decoding),
        }
    }
}

/// A call as it is recovered from a payload: the names that its two index bytes stand
/// for, and the bytes of its arguments.
#[derive(Debug, Clone, PartialEq, Eq)]
pub struct DecodedCall {
    pub module: String,
    pub function: String,
    pub arguments: Vec<u8>,
}

impl View for DecodedCall {
    type V = DecodedCallView;

    open spec fn view(&self) -> DecodedCallView {
        DecodedCallView {
            module: self.module@,
            function: self.function@,
            arguments: self.arguments@,
        }
    }
}

/// A module of the runtime: its name, its index, its calls and its storage items.
#[derive(Debug)]
pub struct ModuleMetadata {
    name: String,
    index: u8,
    storage: Vec<StorageMetadata>,
    calls: Vec<CallMetadata>,
}

impl View for ModuleMetadata {
    type V = ModuleView;

    closed spec fn view(&self) -> ModuleView {
        ModuleView {
            name: self.name@,
            index: self.index,
            storage: storage_views(self.storage@),
            calls: call_views(self.calls@),
        }
    }
}

impl Named for ModuleMetadata {
    closed spec fn label(&self) -> Seq<char> {
        self.name@
    }

    fn label_text(&self) -> (r: &str) {
        self.name.as_str()
    }
}

impl ModuleMetadata {
    #[verifier::type_invariant]
    spec fn inv(&self) -> bool {
        self@.wf()
    }

    /// Describes the module at position `index`.
    pub(crate) fn new(name: String, index: u8, storage: Vec<StorageMetadata>, calls: Vec<CallMetadata>) -> (r:
        ModuleMetadata)
        requires
            calls@.len() <= 256,
            forall|i: int|
                0 <= i < storage@.len() ==> (#[trigger] storage@[i])@.prefix == storage_prefix(
                    name@,
                    storage@[i]@.name,
                ),
        ensures
            r@ == (ModuleView {
                name: name@,
                index,
                storage: storage_views(storage@),
                calls: call_views(calls@),
            }),
            r@.wf(),
    {
        ModuleMetadata { name, index, storage, calls }
    }

    /// The name of the module.
    pub fn name(&self) -> (r: &str)
        ensures
            r@ == self@.name,
    {
        self.name.as_str()
    }

    /// The module's index: its position in the metadata, and the first byte of the
    /// payload of each of its calls.
    pub fn index(&self) -> (r: u8)
        ensures
            r == self@.index,
    {
        self.index
    }

    /// The calls of the module, in the order of their indices.
    pub fn calls(&self) -> (r: &Vec<CallMetadata>)
        ensures
            call_views(r@) == self@.calls,
            self@.wf(),
    {
        proof {
            use_type_invariant(self);
        }
        &self.calls
    }

    /// The storage items of the module, in the order in which they are declared.
    pub fn storage_items(&self) -> (r: &Vec<StorageMetadata>)
        ensures
            storage_views(r@) == self@.storage,
            self@.wf(),
    {
        proof {
            use_type_invariant(self);
        }
        &self.storage
    }

    /// Encodes a call of this module: the module's index, the call's index, then the
    /// already encoded arguments in the order given. The number of arguments must be
    /// the number that the call declares; their types are not looked at.
    pub fn call(&self, function: &str, args: &[Vec<u8>]) -> (r: Result<Encoded, Error>)
        ensures
            match self@.call(function@, views(args@)) {
                Ok(payload) => r matches Ok(e) && e@ == payload,
                Err(e) => r matches Err(err) && err@ == e,
            },
            self@.wf(),
    {
        proof {
            use_type_invariant(self);
        }
        assert(labels(self.calls@) =~= self@.call_names());
        match position(&self.calls, function) {
            None => Err(Error::NotFound(Lookup::Call, function.to_owned())),
            Some(i) => {
                let expected = self.calls[i].arguments.len();
                if expected != args.len() {
                    return Err(
                        Error::Encoding(
                            EncodingError::ArgumentCount { expected, found: args.len() },
                        ),
                    );
                }
                let mut bytes: Vec<u8> = Vec::new();
                bytes.push(self.index);
                bytes.push(i as u8);
                let ghost parts = views(args@);
                let mut j: usize = 0;
                assert(concat(parts.take(0)) =~= Seq::<u8>::empty());
                while j < args.len()
                    invariant
                        j <= args@.len(),
                        parts == views(args@),
                        bytes@ == seq![self.index, i as u8] + concat(parts.take(j as int)),
                    decreases args@.len() - j,
                {
                    bytes.extend_from_slice(args[j].as_slice());
                    proof {
                        let next = parts.take(j + 1);
                        assert(next.drop_last() =~= parts.take(j as int));
                        assert(next.last() == args@[j as int]@);
                    }
                    j += 1;
                }
                assert(parts.take(j as int) =~= parts);
                Ok(Encoded(bytes))
            },
        }
    }

    /// The storage item of this name.
    pub fn storage(&self, name: &str) -> (r: Result<&StorageMetadata, Error>)
        ensures
            match self@.storage(name@) {
                Ok(item) => r matches Ok(s) && s@ == item,
                Err(e) => r matches Err(err) && err@ == e,
            },
            self@.wf(),
    {
        proof {
            use_type_invariant(self);
        }
        assert(labels(self.storage@) =~= self@.storage_names());
        match position(&self.storage, name) {
            None => Err(Error::NotFound(Lookup::Storage, name.to_owned())),
            Some(i) => Ok(&self.storage[i]),
        }
    }
}

/// The registry: the modules of a runtime in the order of their indices.
#[derive(Debug)]
pub struct Metadata {
    modules: Vec<ModuleMetadata>,
}

impl View for Metadata {
    type V = MetadataView;

    closed spec fn view(&self) -> MetadataView {
        MetadataView { modules: module_views(self.modules@) }
    }
}

impl Metadata {
    #[verifier::type_invariant]
    spec fn inv(&self) -> bool {
        self@.wf()
    }

    /// A registry of the given modules, each at the position that is its index.
    pub(crate) fn new(modules: Vec<ModuleMetadata>) -> (r: Metadata)
        requires
            modules@.len() <= 256,
            forall|i: int|
                0 <= i < modules@.len() ==> {
                    &&& (#[trigger] modules@[i])@.index == i
                    &&& modules@[i]@.wf()
                },
        ensures
            r@ == (MetadataView { modules: module_views(modules@) }),
            r@.wf(),
    {
        Metadata { modules }
    }

    /// The modules in the order of their indices.
    pub fn modules(&self) -> (r: &Vec<ModuleMetadata>)
        ensures
            module_views(r@) == self@.modules,
            self@.wf(),
    {
        proof {
            use_type_invariant(self);
        }
        &self.modules
    }

    /// The module of this name.
    pub fn module(&self, name: &str) -> (r: Result<&ModuleMetadata, Error>)
        ensures
            match self@.module(name@) {
                Ok(module) => r matches Ok(m) && m@ == module,
                Err(e) => r matches Err(err) && err@ == e,
            },
            self@.wf(),
    {
        proof {
            use_type_invariant(self);
        }
        assert(labels(self.modules@) =~= self@.module_names());
        match position(&self.modules, name) {
            None => Err(Error::NotFound(Lookup::Module, name.to_owned())),
            Some(i) => Ok(&self.modules[i]),
        }
    }

    /// Encodes the call `function` of `module` with the already encoded arguments
    /// `args`. Names are resolved before anything else happens: a name that the
    /// metadata does not hold is reported, and nothing is encoded.
    pub fn encode_call(&self, module: &str, function: &str, args: &[Vec<u8>]) -> (r: Result<
        Encoded,
        Error,
    >)
        ensures
            match self@.encode_call(module@, function@, views(args@)) {
                Ok(payload) => r matches Ok(e) && e@ == payload,
                Err(e) => r matches Err(err) && err@ == e,
            },
            self@.wf(),
    {
        proof {
            use_type_invariant(self);
        }
        match self.module(module) {
            Err(e) => Err(e),
            Ok(m) => m.call(function, args),
        }
    }

    /// Reads a call payload back: resolves its two index bytes to the names of the
    /// module and the call, and hands out the argument bytes that follow.
    pub fn decode_call(&self, payload: &[u8]) -> (r: Result<DecodedCall, Error>)
        ensures
            match self@.decode_call(payload@) {
                Ok(call) => r matches Ok(c) && c@ == call,
                Err(e) => r matches Err(err) && err@ == e,
            },
            self@.wf(),
    {
        proof {
            use_type_invariant(self);
        }
        if payload.len() < 2 {
            return Err(Error::Decoding);
        }
        let module_index = payload[0] as usize;
        if module_index >= self.modules.len() {
            return Err(Error::Decoding);
        }
        let module = &self.modules[module_index];
        let call_index = payload[1] as usize;
        if call_index >= module.calls.len() {
            return Err(Error::Decoding);
        }
        let mut arguments: Vec<u8> = Vec::new();
        arguments.extend_from_slice(vstd::slice::slice_subrange(payload, 2, payload.len()));
        assert(arguments@ =~= payload@.skip(2));
        Ok(
            DecodedCall {
                module: module.name.clone(),
                function: module.calls[call_index].name.clone(),
                arguments,
            },
        )
    }

    /// Derives the storage key of `item` of `module`. A plain value takes no map key; a
    /// map takes the already encoded key of the entry. The result depends on the
    /// metadata and the arguments alone.
    pub fn storage_key(&self, module: &str, item: &str, key: Option<&[u8]>) -> (r: Result<
        StorageKey,
        Error,
    >)
        ensures
            match self@.storage_key(
                module@,
                item@,
                match key {
                    Some(k) => Some(k@),
                    None => None,
                },
            ) {
                Ok(bytes) => r matches Ok(k) && k@ == bytes,
                Err(e) => r matches Err(err) && err@ == e,
            },
            self@.wf(),
    {
        proof {
            use_type_invariant(self);
        }
        match self.module(module) {
            Err(e) => Err(e),
            Ok(m) => match m.storage(item) {
                Err(e) => Err(e),
                Ok(s) => s.key(key),
            },
        }
    }
}

} // verus!
