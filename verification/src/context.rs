//! What all connections share: the cache of file contents and the cache of
//! parsed data documents, each bounded in size and with a lifetime per entry.

use vstd::prelude::*;
use vstd::string::*;
use vstd::utf8::{decode_utf8, valid_utf8};
use crate::files::{front_matter, split_front_matter};
use crate::json::{json_text, Json, JsonValue};
use crate::protocol::Protocol;
use crate::templates::{member_flag, member_text};
use crate::text::{
    chars_range, chars_rfind, ends_with, from_chars, rfind_before, starts_with,
    str_concat, str_ends_with, str_eq, str_starts_with, to_chars, utf8_to_string,
};

verus! {

broadcast use vstd::string::group_string_axioms;

/// The most files the file cache holds.
pub const MAX_FS_CACHE_ENTRIES: usize = 512;

/// How long, in milliseconds, a cached file is served before it is read again.
pub const MAX_FS_CACHE_LONG_TTL_MS: u64 = 14_400_000;

/// How long, in milliseconds, a cached file whose extension marks it as
/// content under edit is served before it is read again.
pub const MAX_FS_CACHE_SHORT_TTL_MS: u64 = 10_000;

/// The most documents the data cache holds.
pub const MAX_DATA_CACHE_ENTRIES: usize = 512;

/// How long, in milliseconds, a cached data document is served before it is
/// read again.
pub const MAX_DATA_CACHE_TTL_MS: u64 = 10_000;

/// An instant, as seconds and nanoseconds since the start of 1970 in UTC.
#[derive(Copy, Clone, Debug, PartialEq, Eq, Structural)]
pub struct Timestamp {
    pub seconds: i64,
    pub nanos: u32,
}

/// The instant as a UTC date and time in the RFC 3339 form that the date
/// library prints; `None` where the library cannot represent the instant.
pub uninterp spec fn rfc3339_text(seconds: i64, nanos: u32) -> Option<Seq<char>>;

/// Prints an instant as the date library serialises a UTC date and time
/// (`chrono::DateTime::from_timestamp`, `DateTime::to_rfc3339_opts` with
/// automatic sub-second digits and `Z`).
#[verifier::external_body]
pub(crate) fn format_timestamp(seconds: i64, nanos: u32) -> (r: Option<String>)
    ensures
        r is Some <==> rfc3339_text(seconds, nanos) is Some,
        r matches Some(text) ==> Some(text@) == rfc3339_text(seconds, nanos),
{
    chrono::DateTime::<chrono::Utc>::from_timestamp(seconds, nanos).map(
        |d| d.to_rfc3339_opts(chrono::SecondsFormat::AutoSi, true),
    )
}

/// The instant that an RFC 3339 date and time names, as the date library
/// reads it; `None` where the text is no such date and time.
pub uninterp spec fn rfc3339_instant(text: Seq<char>) -> Option<Timestamp>;

/// Reads an RFC 3339 date and time (`chrono::DateTime::parse_from_rfc3339`)
/// and gives the instant it names (`DateTime::timestamp`,
/// `DateTime::timestamp_subsec_nanos`).
#[verifier::external_body]
pub(crate) fn parse_timestamp(text: &str) -> (r: Option<Timestamp>)
    ensures
        r == rfc3339_instant(text@),
{
    match chrono::DateTime::parse_from_rfc3339(text) {
        Ok(d) => Some(Timestamp { seconds: d.timestamp(), nanos: d.timestamp_subsec_nanos() }),
        Err(_) => None,
    }
}

/// A file as it was read: its bytes and, where the file system tells them,
/// the instants of its creation and of its last change.
#[derive(Debug, PartialEq, Eq)]
pub struct CachedFile {
    data: Vec<u8>,
    created: Option<Timestamp>,
    modified: Option<Timestamp>,
}

/// The mathematical value of a `CachedFile`.
pub ghost struct CachedFileView {
    pub data: Seq<u8>,
    pub created: Option<Timestamp>,
    pub modified: Option<Timestamp>,
}

impl View for CachedFile {
    type V = CachedFileView;

    closed spec fn view(&self) -> CachedFileView {
        CachedFileView { data: self.data@, created: self.created, modified: self.modified }
    }
}

impl CachedFile {
    pub fn new(data: Vec<u8>, created: Option<Timestamp>, modified: Option<Timestamp>) -> (r:
        CachedFile)
        ensures
            r@ == (CachedFileView { data: data@, created, modified }),
    {
        CachedFile { data, created, modified }
    }

    pub fn data(&self) -> (r: &Vec<u8>)
        ensures
            r@ == self@.data,
    {
        &self.data
    }

    pub fn created(&self) -> (r: Option<Timestamp>)
        ensures
            r == self@.created,
    {
        self.created
    }

    pub fn modified(&self) -> (r: Option<Timestamp>)
        ensures
            r == self@.modified,
    {
        self.modified
    }

    /// A copy of this file.
    pub fn duplicate(&self) -> (r: CachedFile)
        ensures
            r@ == self@,
    {
        CachedFile { data: self.data.clone(), created: self.created, modified: self.modified }
    }
}

/// What a cache holds under a key: a file or a parsed data document.
#[derive(Debug, PartialEq, Eq)]
pub enum CacheEntry {
    File(CachedFile),
    Data(Json),
}

impl CacheEntry {
    /// The file that this entry holds, if it holds one.
    pub open spec fn spec_file(self) -> Option<CachedFile> {
        match self {
            CacheEntry::File(file) => Some(file),
            CacheEntry::Data(_) => None,
        }
    }

    /// The document that this entry holds, if it holds one.
    pub open spec fn spec_document(self) -> Option<Json> {
        match self {
            CacheEntry::File(_) => None,
            CacheEntry::Data(doc) => Some(doc),
        }
    }
}

/// The file that the answer of a store stands for: a copy of the file in
/// the entry that the store answered with, and nothing where the store
/// answered with nothing or with an entry that is no file.
pub open spec fn answered_file(answer: Option<&CacheEntry>) -> Option<CachedFileView> {
    match answer {
        Some(entry) => match entry.spec_file() {
            Some(file) => Some(file@),
            None => None,
        },
        None => None,
    }
}

/// The document that the answer of a store stands for: a copy of the
/// document in the entry that the store answered with, and nothing where the
/// store answered with nothing or with an entry that is no document.
pub open spec fn answered_document(answer: Option<&CacheEntry>) -> Option<JsonValue> {
    match answer {
        Some(entry) => match entry.spec_document() {
            Some(doc) => Some(doc@),
            None => None,
        },
        None => None,
    }
}

/// Makes the answer of a store into the file that a lookup gives (see
/// `answered_file`).
pub fn file_of_answer(answer: Option<&CacheEntry>) -> (r: Option<CachedFile>)
    ensures
        file_view(r) == answered_file(answer),
{
    match answer {
        Some(entry) => match entry {
            CacheEntry::File(file) => Some(file.duplicate()),
            CacheEntry::Data(_) => None,
        },
        None => None,
    }
}

/// Makes the answer of a store into the document that a lookup gives (see
/// `answered_document`); the copy is well-formed where the entry's document
/// is.
pub fn document_of_answer(answer: Option<&CacheEntry>) -> (r: Option<Json>)
    ensures
        json_view(r) == answered_document(answer),
        r matches Some(doc) ==> answer matches Some(entry) && entry.spec_document() matches Some(
            held,
        ) && doc.wf() == held.wf(),
{
    match answer {
        Some(entry) => match entry {
            CacheEntry::Data(doc) => Some(doc.duplicate()),
            CacheEntry::File(_) => None,
        },
        None => None,
    }
}

/// A store with a size limit in which every entry expires on its own.
#[verifier::external_type_specification]
#[verifier::external_body]
#[verifier::reject_recursive_types(K)]
#[verifier::reject_recursive_types(V)]
pub struct ExExpiringStore<K, V>(cached::stores::ExpiringSizedCache<K, V>);

/// The entries that a store holds, expired or not, each under its key.
pub uninterp spec fn store_entries(
    store: cached::stores::ExpiringSizedCache<String, CacheEntry>,
) -> Map<Seq<char>, CacheEntry>;

/// The size limit that a store was given, if any.
pub uninterp spec fn store_limit(
    store: cached::stores::ExpiringSizedCache<String, CacheEntry>,
) -> Option<usize>;

/// Makes an empty store without a size limit
/// (`ExpiringSizedCache::with_capacity`); the capacity only reserves room,
/// and is kept small enough for the reservation to succeed.
#[verifier::external_body]
fn store_with_capacity(ttl_millis: u64, capacity: usize) -> (r: cached::stores::ExpiringSizedCache<String, CacheEntry>)
    requires
        capacity <= 65_536,
    ensures
        store_entries(r).dom() == Set::<Seq<char>>::empty(),
        store_limit(r) is None,
{
    cached::stores::ExpiringSizedCache::with_capacity(ttl_millis, capacity)
}

/// Gives a store a size limit (`ExpiringSizedCache::size_limit`). The
/// entries stay as they are.
#[verifier::external_body]
fn store_set_limit(
    store: &mut cached::stores::ExpiringSizedCache<String, CacheEntry>,
    limit: usize,
)
    ensures
        store_entries(*final(store)) == store_entries(*old(store)),
        store_limit(*final(store)) == Some(limit),
{
    store.size_limit(limit);
}

/// Looks a key up (`ExpiringSizedCache::get`). The store answers with the
/// entry it holds under the key unless that entry has expired; whether it
/// has depends on the clock, so a held entry may or may not come back.
#[verifier::external_body]
fn store_get<'a>(
    store: &'a cached::stores::ExpiringSizedCache<String, CacheEntry>,
    key: &String,
) -> (r: Option<&'a CacheEntry>)
    ensures
        r matches Some(entry) ==> store_entries(*store).dom().contains(key@) && store_entries(
            *store,
        )[key@] == *entry,
{
    store.get(key)
}

/// What `store_insert` leaves of the entries `before`: none but `key` is
/// new or changed; after a successful insert `key` holds `entry`, and every
/// other entry is still there unless the size limit was reached, in which
/// case the store dropped as many as it took to stay within the limit.
pub open spec fn inserted(
    before: Map<Seq<char>, CacheEntry>,
    limit: Option<usize>,
    after: Map<Seq<char>, CacheEntry>,
    key: Seq<char>,
    entry: CacheEntry,
    done: bool,
) -> bool {
    &&& forall|k: Seq<char>|
        k != key && #[trigger] after.dom().contains(k) ==> before.dom().contains(k) && after[k]
            == before[k]
    &&& done ==> after.dom().contains(key) && after[key] == entry
    &&& !done && after.dom().contains(key) ==> before.dom().contains(key) && after[key]
        == before[key]
    &&& after.dom().finite()
    &&& match limit {
        Some(most) => (done ==> after.dom().len() <= most) && (before.dom().len() < most
            ==> forall|k: Seq<char>| #[trigger]
            before.dom().contains(k) ==> after.dom().contains(k)),
        None => forall|k: Seq<char>| #[trigger] before.dom().contains(k) ==> after.dom().contains(k),
    }
}

/// Puts an entry under a key with a lifetime of its own
/// (`ExpiringSizedCache::insert_ttl`). A store with a size limit first drops
/// the entries that expire next until there is room for one more. The insert
/// fails only where the expiry instant cannot be represented; the store may
/// then already have made room.
#[verifier::external_body]
fn store_insert(
    store: &mut cached::stores::ExpiringSizedCache<String, CacheEntry>,
    key: String,
    entry: CacheEntry,
    ttl_millis: u64,
) -> (done: bool)
    requires
        store_limit(*old(store)) matches Some(most) ==> most >= 1,
        store_entries(*old(store)).dom().finite(),
    ensures
        store_limit(*final(store)) == store_limit(*old(store)),
        inserted(
            store_entries(*old(store)),
            store_limit(*old(store)),
            store_entries(*final(store)),
            key@,
            entry,
            done,
        ),
{
    store.insert_ttl(key, entry, ttl_millis).is_ok()
}

/// The last component of a path: what follows its last slash.
pub open spec fn file_name(path: Seq<char>) -> Seq<char> {
    path.skip(rfind_before(path, '/', path.len() as int) + 1)
}

/// The extension of a path: what follows the last dot of its last component,
/// where that component has a dot that is not its first character.
pub open spec fn extension(path: Seq<char>) -> Option<Seq<char>> {
    let name = file_name(path);
    let dot = rfind_before(name, '.', name.len() as int);
    if dot <= 0 {
        None
    } else {
        Some(name.skip(dot + 1))
    }
}

/// Whether a file is content under edit, which is cached for a short time
/// only: its extension is `hbs`, `html`, `gmi`, `md` or `json`.
pub open spec fn short_lived(path: Seq<char>) -> bool {
    match extension(path) {
        Some(ext) => ext == "hbs"@ || ext == "html"@ || ext == "gmi"@ || ext == "md"@ || ext
            == "json"@,
        None => false,
    }
}

/// The lifetime, in milliseconds, of a cached file.
pub open spec fn file_ttl(path: Seq<char>) -> u64 {
    if short_lived(path) {
        MAX_FS_CACHE_SHORT_TTL_MS
    } else {
        MAX_FS_CACHE_LONG_TTL_MS
    }
}

/// The extension of a path (see `extension`).
pub fn extension_of(path: &str) -> (r: Option<String>)
    ensures
        match r {
            Some(ext) => extension(path@) == Some(ext@),
            None => extension(path@) is None,
        },
{
    let chars = to_chars(path);
    let start: usize = match chars_rfind(chars.as_slice(), '/') {
        Some(p) => p + 1,
        None => 0,
    };
    let name = chars_range(chars.as_slice(), start, chars.len());
    assert(name@ =~= file_name(path@));
    match chars_rfind(name.as_slice(), '.') {
        Some(dot) => {
            if dot == 0 {
                None
            } else {
                let ext = chars_range(name.as_slice(), dot + 1, name.len());
                assert(ext@ =~= name@.skip(dot + 1));
                Some(from_chars(ext.as_slice()))
            }
        },
        None => None,
    }
}

/// The lifetime, in milliseconds, of a cached file (see `file_ttl`).
pub fn ttl_for_path(path: &str) -> (ttl: u64)
    ensures
        ttl == file_ttl(path@),
{
    match extension_of(path) {
        Some(ext) => {
            let e = ext.as_str();
            if str_eq(e, "hbs") || str_eq(e, "html") || str_eq(e, "gmi") || str_eq(e, "md")
                || str_eq(e, "json") {
                MAX_FS_CACHE_SHORT_TTL_MS
            } else {
                MAX_FS_CACHE_LONG_TTL_MS
            }
        },
        None => MAX_FS_CACHE_LONG_TTL_MS,
    }
}

/// What storing `value` under `key` leaves of the entries `before`. No entry
/// but that of `key` is new or changed. After a store that was done, `key`
/// holds `value` and there are at most `most` entries; where there were
/// fewer than `most` before, none was dropped.
pub open spec fn stored<V>(
    before: Map<Seq<char>, V>,
    after: Map<Seq<char>, V>,
    most: usize,
    key: Seq<char>,
    value: V,
    done: bool,
) -> bool {
    &&& forall|k: Seq<char>|
        k != key && #[trigger] after.dom().contains(k) ==> before.dom().contains(k) && after[k]
            == before[k]
    &&& done ==> after.dom().contains(key) && after[key] == value
    &&& !done && after.dom().contains(key) ==> before.dom().contains(key) && after[key]
        == before[key]
    &&& done ==> after.dom().len() <= most
    &&& before.dom().len() < most ==> forall|k: Seq<char>| #[trigger]
        before.dom().contains(k) ==> after.dom().contains(k)
}

/// What a lookup of `key` may answer when the cache holds `entries`: nothing
/// (the key is not held, or its entry has expired), or the value held under
/// the key.
pub open spec fn looked_up<V>(entries: Map<Seq<char>, V>, key: Seq<char>, hit: Option<V>) -> bool {
    hit matches Some(value) ==> entries.dom().contains(key) && entries[key] == value
}

/// A file that was stored and is looked up again comes back unchanged, byte
/// for byte, as long as the cache answers at all; the lookup reads no file.
pub proof fn lemma_cache_round_trip<V>(
    before: Map<Seq<char>, V>,
    after: Map<Seq<char>, V>,
    most: usize,
    key: Seq<char>,
    value: V,
    hit: Option<V>,
)
    requires
        stored(before, after, most, key, value, true),
        looked_up(after, key, hit),
    ensures
        hit matches Some(found) ==> found == value,
{
}

/// Storing under one key leaves what a lookup of another key can answer
/// among what it could answer before.
pub proof fn lemma_cache_store_keeps_others<V>(
    before: Map<Seq<char>, V>,
    after: Map<Seq<char>, V>,
    most: usize,
    key: Seq<char>,
    value: V,
    done: bool,
    other: Seq<char>,
    hit: Option<V>,
)
    requires
        stored(before, after, most, key, value, done),
        other != key,
        looked_up(after, other, hit),
    ensures
        looked_up(before, other, hit),
{
}

/// The cache of file contents, keyed by canonical path.
pub struct FileCache {
    store: cached::stores::ExpiringSizedCache<String, CacheEntry>,
}

impl FileCache {
    /// The files that the cache holds, expired or not, each under its path.
    pub closed spec fn entries(&self) -> Map<Seq<char>, CachedFileView> {
        Map::new(
            |k: Seq<char>| store_entries(self.store).dom().contains(k),
            |k: Seq<char>| store_entries(self.store)[k]->File_0@,
        )
    }

    /// The cache holds files only, no more than its size limit allows.
    pub closed spec fn wf(&self) -> bool {
        &&& store_limit(self.store) == Some(MAX_FS_CACHE_ENTRIES)
        &&& store_entries(self.store).dom().finite()
        &&& store_entries(self.store).dom().len() <= MAX_FS_CACHE_ENTRIES
        &&& forall|k: Seq<char>| #[trigger]
            store_entries(self.store).dom().contains(k) ==> store_entries(self.store)[k] is File
    }

    /// A cache never holds more than `MAX_FS_CACHE_ENTRIES` files.
    pub proof fn lemma_bounded(&self)
        requires
            self.wf(),
        ensures
            self.entries().dom().finite(),
            self.entries().dom().len() <= MAX_FS_CACHE_ENTRIES,
    {
        assert(self.entries().dom() =~= store_entries(self.store).dom());
    }

    /// An empty cache for at most `MAX_FS_CACHE_ENTRIES` files.
    pub fn new() -> (r: FileCache)
        ensures
            r.wf(),
            r.entries() == Map::<Seq<char>, CachedFileView>::empty(),
    {
        let mut store = store_with_capacity(MAX_FS_CACHE_LONG_TTL_MS, MAX_FS_CACHE_ENTRIES);
        store_set_limit(&mut store, MAX_FS_CACHE_ENTRIES);
        let r = FileCache { store };
        assert(r.entries() =~= Map::<Seq<char>, CachedFileView>::empty());
        r
    }

    /// Looks a file up by its canonical path. A hit is the file that is held
    /// under the path; a miss means that the path is not held or that its
    /// entry has expired, and the file is then to be read from disk.
    pub fn lookup(&self, path: &str) -> (r: Option<CachedFile>)
        requires
            self.wf(),
        ensures
            looked_up(self.entries(), path@, crate::context::file_view(r)),
    {
        let key = path.to_owned();
        file_of_answer(store_get(&self.store, &key))
    }

    /// Stores a file that was read from disk under its canonical path, for
    /// the lifetime that its extension asks for (see `file_ttl`).
    pub fn store(&mut self, path: &str, file: &CachedFile) -> (done: bool)
        requires
            old(self).wf(),
        ensures
            final(self).wf(),
            stored(
                old(self).entries(),
                final(self).entries(),
                MAX_FS_CACHE_ENTRIES,
                path@,
                file@,
                done,
            ),
    {
        let ttl = ttl_for_path(path);
        let ghost before = store_entries(self.store);
        let done = store_insert(
            &mut self.store,
            path.to_owned(),
            CacheEntry::File(file.duplicate()),
            ttl,
        );
        proof {
            let after = store_entries(self.store);
            assert(final(self).entries().dom() =~= after.dom());
            assert(old(self).entries().dom() =~= before.dom());
            if !done {
                assert(after.dom().subset_of(before.dom()));
                vstd::set_lib::lemma_len_subset(after.dom(), before.dom());
            }
        }
        done
    }
}

/// The value of an optional file.
pub open spec fn file_view(file: Option<CachedFile>) -> Option<CachedFileView> {
    match file {
        Some(f) => Some(f@),
        None => None,
    }
}

/// The cache of parsed data documents, keyed by canonical path.
pub struct DataCache {
    store: cached::stores::ExpiringSizedCache<String, CacheEntry>,
}

impl DataCache {
    /// The documents that the cache holds, expired or not, each under its
    /// path.
    pub closed spec fn entries(&self) -> Map<Seq<char>, JsonValue> {
        Map::new(
            |k: Seq<char>| store_entries(self.store).dom().contains(k),
            |k: Seq<char>| store_entries(self.store)[k]->Data_0@,
        )
    }

    /// The cache holds well-formed documents only, no more than its size
    /// limit allows.
    pub closed spec fn wf(&self) -> bool {
        &&& store_limit(self.store) == Some(MAX_DATA_CACHE_ENTRIES)
        &&& store_entries(self.store).dom().finite()
        &&& store_entries(self.store).dom().len() <= MAX_DATA_CACHE_ENTRIES
        &&& forall|k: Seq<char>| #[trigger]
            store_entries(self.store).dom().contains(k) ==> store_entries(self.store)[k] is Data
                && store_entries(self.store)[k]->Data_0.wf()
    }

    /// A cache never holds more than `MAX_DATA_CACHE_ENTRIES` documents.
    pub proof fn lemma_bounded(&self)
        requires
            self.wf(),
        ensures
            self.entries().dom().finite(),
            self.entries().dom().len() <= MAX_DATA_CACHE_ENTRIES,
    {
        assert(self.entries().dom() =~= store_entries(self.store).dom());
    }

    /// An empty cache for at most `MAX_DATA_CACHE_ENTRIES` documents.
    pub fn new() -> (r: DataCache)
        ensures
            r.wf(),
            r.entries() == Map::<Seq<char>, JsonValue>::empty(),
    {
        let mut store = store_with_capacity(MAX_DATA_CACHE_TTL_MS, MAX_DATA_CACHE_ENTRIES);
        store_set_limit(&mut store, MAX_DATA_CACHE_ENTRIES);
        let r = DataCache { store };
        assert(r.entries() =~= Map::<Seq<char>, JsonValue>::empty());
        r
    }

    /// Looks a document up by the canonical path of its file. A hit is the
    /// document that is held under the path; after a miss the file is to be
    /// read and parsed.
    pub fn lookup(&self, path: &str) -> (r: Option<Json>)
        requires
            self.wf(),
        ensures
            looked_up(self.entries(), path@, crate::context::json_view(r)),
            r matches Some(doc) ==> doc.wf(),
    {
        let key = path.to_owned();
        document_of_answer(store_get(&self.store, &key))
    }

    /// Stores a parsed document under the canonical path of its file, for
    /// `MAX_DATA_CACHE_TTL_MS`.
    pub fn store(&mut self, path: &str, doc: &Json) -> (done: bool)
        requires
            old(self).wf(),
            doc.wf(),
        ensures
            final(self).wf(),
            stored(
                old(self).entries(),
                final(self).entries(),
                MAX_DATA_CACHE_ENTRIES,
                path@,
                doc@,
                done,
            ),
    {
        let ghost before = store_entries(self.store);
        let done = store_insert(
            &mut self.store,
            path.to_owned(),
            CacheEntry::Data(doc.duplicate()),
            MAX_DATA_CACHE_TTL_MS,
        );
        proof {
            let after = store_entries(self.store);
            assert(final(self).entries().dom() =~= after.dom());
            assert(old(self).entries().dom() =~= before.dom());
            if !done {
                assert(after.dom().subset_of(before.dom()));
                vstd::set_lib::lemma_len_subset(after.dom(), before.dom());
            }
        }
        done
    }
}

/// The value of an optional document.
pub open spec fn json_view(doc: Option<Json>) -> Option<JsonValue> {
    match doc {
        Some(d) => Some(d@),
        None => None,
    }
}

/// What the listing of pages says of one page under one protocol.
#[derive(Clone, Debug, PartialEq, Eq)]
pub struct PageMetadata {
    pub path: String,
    pub protocol: Protocol,
    pub title: String,
    pub description: Option<String>,
    pub date: Timestamp,
    pub is_post: bool,
}

/// The mathematical value of a `PageMetadata`.
pub ghost struct PageMetadataView {
    pub path: Seq<char>,
    pub protocol: Protocol,
    pub title: Seq<char>,
    pub description: Option<Seq<char>>,
    pub date: Timestamp,
    pub is_post: bool,
}

impl View for PageMetadata {
    type V = PageMetadataView;

    open spec fn view(&self) -> PageMetadataView {
        PageMetadataView {
            path: self.path@,
            protocol: self.protocol,
            title: self.title@,
            description: match self.description {
                Some(d) => Some(d@),
                None => None,
            },
            date: self.date,
            is_post: self.is_post,
        }
    }
}

impl PageMetadata {
    /// The document that stands for this entry in the template context. The
    /// date is put in RFC 3339 form, and is null where it cannot be printed.
    pub open spec fn document(&self) -> JsonValue {
        JsonValue::Object(
            Map::<Seq<char>, JsonValue>::empty().insert("path"@, JsonValue::String(self.path@)).insert(
                "protocol"@,
                JsonValue::String(self.protocol.name()),
            ).insert("title"@, JsonValue::String(self.title@)).insert(
                "description"@,
                match self.description {
                    Some(d) => JsonValue::String(d@),
                    None => JsonValue::Null,
                },
            ).insert(
                "date"@,
                match rfc3339_text(self.date.seconds, self.date.nanos) {
                    Some(text) => JsonValue::String(text),
                    None => JsonValue::Null,
                },
            ).insert("is_post"@, JsonValue::Bool(self.is_post)),
        )
    }

    /// This entry as a document (see `document`).
    pub fn to_json(&self) -> (r: Json)
        ensures
            r.wf(),
            r@ == self.document(),
    {
        let mut doc = Json::new_object();
        doc.set_member("path", Json::new_string(self.path.as_str()));
        doc.set_member("protocol", Json::new_string(self.protocol.to_string().as_str()));
        doc.set_member("title", Json::new_string(self.title.as_str()));
        doc.set_member(
            "description",
            match &self.description {
                Some(d) => Json::new_string(d.as_str()),
                None => Json::Null,
            },
        );
        doc.set_member(
            "date",
            match format_timestamp(self.date.seconds, self.date.nanos) {
                Some(text) => Json::new_string(text.as_str()),
                None => Json::Null,
            },
        );
        doc.set_member("is_post", Json::Bool(self.is_post));
        doc
    }

    /// A copy of this entry.
    pub fn duplicate(&self) -> (r: PageMetadata)
        ensures
            r@ == self@,
    {
        PageMetadata {
            path: self.path.clone(),
            protocol: self.protocol,
            title: self.title.clone(),
            description: self.description.clone(),
            date: self.date,
            is_post: self.is_post,
        }
    }
}

/// The values of a list of pages.
pub open spec fn page_views(pages: Seq<PageMetadata>) -> Seq<PageMetadataView> {
    Seq::new(pages.len(), |i: int| pages[i]@)
}

/// The protocols under which a template file is listed, by its double
/// extension: `.html.hbs` for the header protocol, `.gmi.hbs` for the line
/// protocol, `.md.hbs` for both, the header protocol first. Any other file
/// is listed under none.
pub open spec fn page_protocols(path: Seq<char>) -> Seq<Protocol> {
    if ends_with(path, ".html.hbs"@) {
        seq![Protocol::Https]
    } else if ends_with(path, ".gmi.hbs"@) {
        seq![Protocol::Gemini]
    } else if ends_with(path, ".md.hbs"@) {
        seq![Protocol::Https, Protocol::Gemini]
    } else {
        Seq::empty()
    }
}

/// A listed template file without its double extension.
pub open spec fn page_stem(path: Seq<char>) -> Seq<char> {
    if ends_with(path, ".html.hbs"@) {
        path.take(path.len() - ".html.hbs"@.len())
    } else if ends_with(path, ".gmi.hbs"@) {
        path.take(path.len() - ".gmi.hbs"@.len())
    } else if ends_with(path, ".md.hbs"@) {
        path.take(path.len() - ".md.hbs"@.len())
    } else {
        Seq::empty()
    }
}

/// The URL path under which the page with the file stem `stem` is served:
/// the stem without the public root, and without a final `/index`, where the
/// index page of the root itself is `/`. A stem outside the public root has
/// no URL path.
pub open spec fn page_uri_path(stem: Seq<char>, public_root: Seq<char>) -> Option<Seq<char>> {
    if !starts_with(stem, public_root) {
        None
    } else {
        let base = stem.skip(public_root.len() as int);
        if ends_with(base, "/index"@) {
            let parent = base.take(base.len() - "/index"@.len());
            if parent.len() == 0 {
                Some("/"@)
            } else {
                Some(parent)
            }
        } else {
            Some(base)
        }
    }
}

/// The date of a page: the one its front matter names in RFC 3339 form, or
/// else the instant of the file's last change, or else `now`.
pub open spec fn page_date(
    matter: Map<Seq<char>, JsonValue>,
    modified: Option<Timestamp>,
    now: Timestamp,
) -> Timestamp {
    let named = match member_text(matter, "date"@) {
        Some(text) => rfc3339_instant(text),
        None => None,
    };
    match named {
        Some(instant) => instant,
        None => match modified {
            Some(instant) => instant,
            None => now,
        },
    }
}

/// Whether the front matter sets the flag `key`.
pub open spec fn page_flag(matter: Map<Seq<char>, JsonValue>, key: Seq<char>) -> bool {
    member_flag(matter, key) == Some(true)
}

/// The one entry of the listing for a page under `protocol`.
pub open spec fn page_entry(
    matter: Map<Seq<char>, JsonValue>,
    uri_path: Seq<char>,
    protocol: Protocol,
    modified: Option<Timestamp>,
    now: Timestamp,
) -> PageMetadataView {
    PageMetadataView {
        path: uri_path,
        protocol,
        title: match member_text(matter, "title"@) {
            Some(title) => title,
            None => "Untitled page"@,
        },
        description: member_text(matter, "description"@),
        date: page_date(matter, modified, now),
        is_post: page_flag(matter, "post"@),
    }
}

/// The entries of the listing that a template file with the front matter
/// `matter` contributes. Only a file whose front matter is a mapping that
/// does not set `unlisted`, and that lies under the public root, is listed:
/// once for each protocol that its double extension names.
pub open spec fn page_entries_for_matter(
    path: Seq<char>,
    public_root: Seq<char>,
    matter: JsonValue,
    modified: Option<Timestamp>,
    now: Timestamp,
) -> Seq<PageMetadataView> {
    match matter {
        JsonValue::Object(members) => if page_flag(members, "unlisted"@) {
            Seq::empty()
        } else {
            match page_uri_path(page_stem(path), public_root) {
                Some(uri_path) => page_protocols(path).map_values(
                    |protocol: Protocol| page_entry(members, uri_path, protocol, modified, now),
                ),
                None => Seq::empty(),
            }
        },
        _ => Seq::empty(),
    }
}

/// The entries of the listing that one file contributes: those of its front
/// matter (see `page_entries_for_matter`), where the file is a template
/// (`.hbs`) that is UTF-8 and has front matter.
pub open spec fn page_entries(
    path: Seq<char>,
    public_root: Seq<char>,
    file: CachedFileView,
    now: Timestamp,
) -> Seq<PageMetadataView> {
    if !ends_with(path, ".hbs"@) || !valid_utf8(file.data) {
        Seq::empty()
    } else {
        match front_matter(decode_utf8(file.data)).0 {
            Some(matter) => page_entries_for_matter(path, public_root, matter, file.modified, now),
            None => Seq::empty(),
        }
    }
}

/// The text under `key` of an object, if the member is there and is a string.
fn text_member(doc: &Json, key: &str) -> (r: Option<String>)
    requires
        doc.wf(),
        doc@ is Object,
    ensures
        crate::templates::text_view(r) == member_text(doc@->Object_0, key@),
{
    match doc.get(key) {
        Some(value) => match value.as_str() {
            Some(s) => Some(s.to_owned()),
            None => None,
        },
        None => None,
    }
}

/// Whether an object sets the flag `key`.
fn flag_member(doc: &Json, key: &str) -> (r: bool)
    requires
        doc.wf(),
        doc@ is Object,
    ensures
        r == page_flag(doc@->Object_0, key@),
{
    match doc.get(key) {
        Some(value) => match value.as_bool() {
            Some(b) => b,
            None => false,
        },
        None => false,
    }
}

/// `s` without its last `n` characters.
fn drop_tail(s: &str, n: usize) -> (r: String)
    requires
        n <= s@.len(),
    ensures
        r@ == s@.take(s@.len() - n),
{
    let chars = to_chars(s);
    let kept = chars_range(chars.as_slice(), 0, chars.len() - n);
    from_chars(kept.as_slice())
}

/// `s` without its first `n` characters.
fn drop_head(s: &str, n: usize) -> (r: String)
    requires
        n <= s@.len(),
    ensures
        r@ == s@.skip(n as int),
{
    let chars = to_chars(s);
    let kept = chars_range(chars.as_slice(), n, chars.len());
    from_chars(kept.as_slice())
}

/// The number of characters of `s`.
fn char_count(s: &str) -> (n: usize)
    ensures
        n == s@.len(),
{
    to_chars(s).len()
}

/// The URL path of a page (see `page_uri_path`).
pub fn uri_path_of_page(stem: &str, public_root: &str) -> (r: Option<String>)
    ensures
        crate::templates::text_view(r) == page_uri_path(stem@, public_root@),
{
    if !str_starts_with(stem, public_root) {
        return None;
    }
    let base = drop_head(stem, char_count(public_root));
    if str_ends_with(base.as_str(), "/index") {
        let parent = drop_tail(base.as_str(), char_count("/index"));
        if char_count(parent.as_str()) == 0 {
            Some("/".to_owned())
        } else {
            Some(parent)
        }
    } else {
        Some(base)
    }
}

/// The entries of the page listing that one file of the public tree
/// contributes (see `page_entries`). `path` is the file's path, `file` what
/// was read of it, and `now` the instant that dates a page without a date of
/// its own.
pub fn page_metadata_for_file(path: &str, public_root: &str, file: &CachedFile, now: Timestamp) -> (r:
    Vec<PageMetadata>)
    ensures
        page_views(r@) == page_entries(path@, public_root@, file@, now),
{
    if !str_ends_with(path, ".hbs") {
        let out: Vec<PageMetadata> = Vec::new();
        assert(page_views(out@) =~= Seq::<PageMetadataView>::empty());
        return out;
    }
    let text = match utf8_to_string(file.data().as_slice()) {
        Some(text) => text,
        None => {
            let out: Vec<PageMetadata> = Vec::new();
            assert(page_views(out@) =~= Seq::<PageMetadataView>::empty());
            return out;
        },
    };
    let (matter, _) = split_front_matter(text.as_str());
    match matter {
        Some(doc) => page_metadata_for_matter(path, public_root, &doc, file.modified(), now),
        None => {
            let out: Vec<PageMetadata> = Vec::new();
            assert(page_views(out@) =~= Seq::<PageMetadataView>::empty());
            out
        },
    }
}

/// The entries of the page listing that a template file with the front
/// matter `matter` contributes (see `page_entries_for_matter`).
pub fn page_metadata_for_matter(
    path: &str,
    public_root: &str,
    matter: &Json,
    modified: Option<Timestamp>,
    now: Timestamp,
) -> (r: Vec<PageMetadata>)
    requires
        matter.wf(),
    ensures
        page_views(r@) == page_entries_for_matter(path@, public_root@, matter@, modified, now),
{
    let mut out: Vec<PageMetadata> = Vec::new();
    let doc = matter;
    if !doc.is_object() || flag_member(doc, "unlisted") {
        assert(page_views(out@) =~= Seq::<PageMetadataView>::empty());
        return out;
    }
    let ghost members = doc@->Object_0;
    let mut protocols: Vec<Protocol> = Vec::new();
    let stem = if str_ends_with(path, ".html.hbs") {
        protocols.push(Protocol::Https);
        drop_tail(path, char_count(".html.hbs"))
    } else if str_ends_with(path, ".gmi.hbs") {
        protocols.push(Protocol::Gemini);
        drop_tail(path, char_count(".gmi.hbs"))
    } else if str_ends_with(path, ".md.hbs") {
        protocols.push(Protocol::Https);
        protocols.push(Protocol::Gemini);
        drop_tail(path, char_count(".md.hbs"))
    } else {
        String::new()
    };
    assert(protocols@ =~= page_protocols(path@));
    assert(stem@ == page_stem(path@));
    let uri_path = match uri_path_of_page(stem.as_str(), public_root) {
        Some(uri_path) => uri_path,
        None => {
            assert(page_views(out@) =~= Seq::<PageMetadataView>::empty());
            return out;
        },
    };
    let title = match text_member(doc, "title") {
        Some(title) => title,
        None => "Untitled page".to_owned(),
    };
    let description = text_member(doc, "description");
    let named = match text_member(doc, "date") {
        Some(text) => parse_timestamp(text.as_str()),
        None => None,
    };
    let date = match named {
        Some(instant) => instant,
        None => match modified {
            Some(instant) => instant,
            None => now,
        },
    };
    let is_post = flag_member(doc, "post");
    let mut i: usize = 0;
    while i < protocols.len()
        invariant
            i <= protocols.len(),
            out.len() == i,
            forall|t: int|
                0 <= t < i ==> (#[trigger] out@[t])@ == page_entry(
                    members,
                    uri_path@,
                    protocols@[t],
                    modified,
                    now,
                ),
            title@ == page_entry(members, uri_path@, Protocol::Https, modified, now).title,
            crate::templates::text_view(description) == member_text(members, "description"@),
            date == page_date(members, modified, now),
            is_post == page_flag(members, "post"@),
        decreases protocols.len() - i,
    {
        out.push(
            PageMetadata {
                path: uri_path.clone(),
                protocol: protocols[i],
                title: title.clone(),
                description: description.clone(),
                date,
                is_post,
            },
        );
        i += 1;
    }
    assert(page_views(out@) =~= page_entries_for_matter(
        path@,
        public_root@,
        matter@,
        modified,
        now,
    ));
    out
}

/// Why a data document could not be had.
#[derive(Copy, Clone, Debug, PartialEq, Eq, Structural)]
pub enum DataReadErr {
    /// The file is not JSON.
    JsonError,
    /// The file is not UTF-8.
    Utf8Error,
    /// The file could not be read.
    IoError,
}

/// The document that the bytes of a data file hold.
pub open spec fn data_document(data: Seq<u8>) -> Result<JsonValue, DataReadErr> {
    if !valid_utf8(data) {
        Err(DataReadErr::Utf8Error)
    } else {
        match json_text(decode_utf8(data)) {
            Some(doc) => Ok(doc),
            None => Err(DataReadErr::JsonError),
        }
    }
}

/// Parses the bytes of a data file (see `data_document`).
pub fn parse_data_document(data: &[u8]) -> (r: Result<Json, DataReadErr>)
    ensures
        match r {
            Ok(doc) => doc.wf() && data_document(data@) == Ok::<JsonValue, DataReadErr>(doc@),
            Err(e) => data_document(data@) == Err::<JsonValue, DataReadErr>(e),
        },
{
    match utf8_to_string(data) {
        None => Err(DataReadErr::Utf8Error),
        Some(text) => match Json::parse(text.as_str()) {
            Some(doc) => Ok(doc),
            None => Err(DataReadErr::JsonError),
        },
    }
}

/// The name under which a file below a root is known: its path without the
/// root, the slash behind it and the suffix. A path that does not end with
/// the suffix, or does not lie below the root, has no name.
pub open spec fn relative_stem(path: Seq<char>, root: Seq<char>, suffix: Seq<char>) -> Option<
    Seq<char>,
> {
    if ends_with(path, suffix) && starts_with(path, root + "/"@) && root.len() + 1 + suffix.len()
        <= path.len() {
        Some(path.subrange((root.len() + 1) as int, path.len() - suffix.len()))
    } else {
        None
    }
}

/// The name of a file below a root (see `relative_stem`).
pub fn relative_stem_of(path: &str, root: &str, suffix: &str) -> (r: Option<String>)
    ensures
        crate::templates::text_view(r) == relative_stem(path@, root@, suffix@),
{
    let prefix = str_concat(root, "/");
    let p = to_chars(path);
    proof {
        reveal_strlit("/");
    }
    let lead = char_count(prefix.as_str());
    let tail = char_count(suffix);
    if str_ends_with(path, suffix) && str_starts_with(path, prefix.as_str()) && tail <= p.len()
        && lead <= p.len() - tail {
        let kept = chars_range(p.as_slice(), lead, p.len() - tail);
        Some(from_chars(kept.as_slice()))
    } else {
        None
    }
}

/// The key of the global data under which the document of a data file is
/// put: its path below the data root, without `.json`.
pub fn data_key_for_path(path: &str, data_root: &str) -> (r: Option<String>)
    ensures
        crate::templates::text_view(r) == relative_stem(path@, data_root@, ".json"@),
{
    relative_stem_of(path, data_root, ".json")
}

/// The name under which the template of a partial file is registered: its
/// path below the root of the partials, without `.hbs`.
pub fn partial_name_for_path(path: &str, partials_root: &str) -> (r: Option<String>)
    ensures
        crate::templates::text_view(r) == relative_stem(path@, partials_root@, ".hbs"@),
{
    relative_stem_of(path, partials_root, ".hbs")
}

/// Whether the instant `a` is later than the instant `b`.
pub open spec fn later(a: Timestamp, b: Timestamp) -> bool {
    a.seconds > b.seconds || (a.seconds == b.seconds && a.nanos > b.nanos)
}

/// A list of pages with one more page put in by its date: behind every page
/// that is not older than it, in front of all that are.
pub open spec fn with_page(sorted: Seq<PageMetadataView>, page: PageMetadataView, n: nat) -> Seq<
    PageMetadataView,
>
    decreases n,
{
    if n == 0 || n > sorted.len() {
        seq![page] + sorted
    } else if later(page.date, sorted[n - 1].date) {
        with_page(sorted, page, (n - 1) as nat)
    } else {
        sorted.take(n as int) + seq![page] + sorted.skip(n as int)
    }
}

/// The listing for a protocol of the first `n` pages: the pages of that
/// protocol, the newest first, pages of the same date in their given order.
pub open spec fn listing(pages: Seq<PageMetadataView>, protocol: Protocol, n: nat) -> Seq<
    PageMetadataView,
>
    decreases n,
{
    if n == 0 || n > pages.len() {
        Seq::empty()
    } else {
        let before = listing(pages, protocol, (n - 1) as nat);
        if pages[n - 1].protocol == protocol {
            with_page(before, pages[n - 1], before.len())
        } else {
            before
        }
    }
}

/// Whether no page of a list stands in front of a newer one.
pub open spec fn newest_first(pages: Seq<PageMetadataView>) -> bool {
    forall|i: int, j: int| 0 <= i < j < pages.len() ==> !later(pages[j].date, pages[i].date)
}

/// Putting a page into a list that has the newest first leaves a list that
/// has the newest first.
pub proof fn lemma_with_page_sorted(sorted: Seq<PageMetadataView>, page: PageMetadataView, n: nat)
    requires
        newest_first(sorted),
        n <= sorted.len(),
        forall|k: int| n <= k < sorted.len() ==> later(page.date, sorted[k].date),
    ensures
        newest_first(with_page(sorted, page, n)),
        with_page(sorted, page, n).len() == sorted.len() + 1,
        with_page(sorted, page, n).to_multiset() == sorted.to_multiset().insert(page),
    decreases n,
{
    broadcast use vstd::seq_lib::group_to_multiset_ensures;

    if n > 0 && later(page.date, sorted[n - 1].date) {
        lemma_with_page_sorted(sorted, page, (n - 1) as nat);
    } else {
        let out = sorted.take(n as int) + seq![page] + sorted.skip(n as int);
        assert(with_page(sorted, page, n) =~= out);
        assert forall|i: int, j: int| 0 <= i < j < out.len() implies !later(
            out[j].date,
            out[i].date,
        ) by {
            if j < n {
                assert(out[i] == sorted[i] && out[j] == sorted[j]);
            } else if j == n {
                assert(out[i] == sorted[i]);
                if i < n - 1 {
                    assert(!later(sorted[n - 1].date, sorted[i].date));
                }
            } else if i < n {
                assert(out[i] == sorted[i] && out[j] == sorted[j - 1]);
            } else if i == n {
                assert(out[j] == sorted[j - 1]);
            } else {
                assert(out[i] == sorted[i - 1] && out[j] == sorted[j - 1]);
            }
        }
        assert(sorted =~= sorted.take(n as int) + sorted.skip(n as int));
        vstd::seq_lib::lemma_multiset_commutative(sorted.take(n as int), sorted.skip(n as int));
        vstd::seq_lib::lemma_multiset_commutative(
            sorted.take(n as int) + seq![page],
            sorted.skip(n as int),
        );
        vstd::seq_lib::lemma_multiset_commutative(sorted.take(n as int), seq![page]);
        assert(seq![page].to_multiset() =~= vstd::multiset::Multiset::empty().insert(page)) by {
            assert(seq![page] =~= Seq::<PageMetadataView>::empty().push(page));
        }
    }
}

/// A listing has the newest page first and holds nothing but pages of its
/// protocol.
pub proof fn lemma_listing_sorted(pages: Seq<PageMetadataView>, protocol: Protocol, n: nat)
    requires
        n <= pages.len(),
    ensures
        newest_first(listing(pages, protocol, n)),
        listing(pages, protocol, n).len() <= n,
        forall|i: int|
            0 <= i < listing(pages, protocol, n).len() ==> (#[trigger] listing(
                pages,
                protocol,
                n,
            )[i]).protocol == protocol,
    decreases n,
{
    if n > 0 {
        lemma_listing_sorted(pages, protocol, (n - 1) as nat);
        let before = listing(pages, protocol, (n - 1) as nat);
        if pages[n - 1].protocol == protocol {
            lemma_with_page_sorted(before, pages[n - 1], before.len());
            let after = with_page(before, pages[n - 1], before.len());
            assert forall|i: int| 0 <= i < after.len() implies (#[trigger] after[i]).protocol
                == protocol by {
                assert(after.to_multiset().count(after[i]) > 0) by {
                    broadcast use vstd::seq_lib::group_to_multiset_ensures;

                }
                if after[i] != pages[n - 1] {
                    assert(before.to_multiset().count(after[i]) > 0);
                    broadcast use vstd::seq_lib::group_to_multiset_ensures;

                    assert(before.contains(after[i]));
                }
            }
        }
    }
}

/// Whether the instant `a` is later than the instant `b`.
pub fn is_later(a: Timestamp, b: Timestamp) -> (r: bool)
    ensures
        r == later(a, b),
{
    a.seconds > b.seconds || (a.seconds == b.seconds && a.nanos > b.nanos)
}

/// The listing of pages for a protocol (see `listing`): the pages of that
/// protocol, the newest first, pages of the same date in their given order.
pub fn get_sorted_posts_for_protocol(pages: &Vec<PageMetadata>, protocol: Protocol) -> (r: Vec<
    PageMetadata,
>)
    ensures
        page_views(r@) == listing(page_views(pages@), protocol, pages@.len()),
        newest_first(page_views(r@)),
{
    let mut out: Vec<PageMetadata> = Vec::new();
    let mut i: usize = 0;
    assert(page_views(out@) =~= listing(page_views(pages@), protocol, 0));
    while i < pages.len()
        invariant
            i <= pages.len(),
            page_views(out@) == listing(page_views(pages@), protocol, i as nat),
        decreases pages.len() - i,
    {
        if pages[i].protocol == protocol {
            let ghost before = page_views(out@);
            let ghost page = pages@[i as int]@;
            let mut n: usize = out.len();
            while n > 0 && is_later(pages[i].date, out[n - 1].date)
                invariant
                    n <= out.len(),
                    i < pages.len(),
                    before == page_views(out@),
                    page == pages@[i as int]@,
                    with_page(before, page, before.len()) == with_page(before, page, n as nat),
                decreases n,
            {
                n -= 1;
            }
            out.insert(n, pages[i].duplicate());
            assert(page_views(out@) =~= before.take(n as int) + seq![page] + before.skip(n as int));
            assert(before.take(0) + seq![page] + before.skip(0) =~= seq![page] + before);
        }
        i += 1;
    }
    proof {
        lemma_listing_sorted(page_views(pages@), protocol, pages@.len());
    }
    out
}

} // verus!
