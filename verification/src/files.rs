//! Loading one file for a request: which paths may be read, what a loaded
//! file contributes to the template context, and the response it makes.

use vstd::prelude::*;
use vstd::string::*;
use vstd::utf8::{decode_utf8, valid_utf8};
use crate::context::{format_timestamp, rfc3339_text, CachedFile, CachedFileView, Timestamp};
use crate::json::{merge, Json, JsonValue};
use crate::protocol::Protocol;
use crate::response::{Response, ResponseView, Status};
use crate::text::{ends_with, starts_with, str_concat, str_ends_with, str_starts_with, to_chars};

verus! {

broadcast use vstd::string::group_string_axioms;

/// The media type that the table of extensions gives for a path; `None`
/// where the path has no extension or the table does not know it.
pub uninterp spec fn guessed_media_type(path: Seq<char>) -> Option<Seq<char>>;

/// The front matter of a text as a document, where the text starts with a
/// YAML block between `---` lines, and the text without that block.
pub uninterp spec fn front_matter(text: Seq<char>) -> (Option<JsonValue>, Seq<char>);

/// Guesses the media type of a path from its extension
/// (`mime_guess::from_path`, `MimeGuess::first_raw`). The guess reads the
/// path only, never the disk.
#[verifier::external_body]
fn guess_media_type(path: &str) -> (r: Option<String>)
    ensures
        r is Some <==> guessed_media_type(path@) is Some,
        r matches Some(media_type) ==> Some(media_type@) == guessed_media_type(path@),
{
    mime_guess::from_path(path).first_raw().map(|m| m.to_string())
}

/// Splits a text into its YAML front matter and the rest
/// (`gray_matter::Matter::<YAML>::parse`); the front matter is handed over
/// as a copy of the JSON value that `gray_matter` converts it to
/// (`Pod::into`). The parser reads nothing but the text.
#[verifier::external_body]
pub(crate) fn split_front_matter(text: &str) -> (r: (Option<Json>, String))
    ensures
        r.0 is Some <==> front_matter(text@).0 is Some,
        r.0 matches Some(doc) ==> doc.wf() && Some(doc@) == front_matter(text@).0,
        r.1@ == front_matter(text@).1,
{
    let parsed = gray_matter::Matter::<gray_matter::engine::YAML>::new().parse(text);
    match parsed.data {
        Some(pod) => (Some(crate::json::json_from_value(&pod.into())), parsed.content),
        None => (None, parsed.content),
    }
}

/// What the file system says of a path that is to be loaded.
#[derive(Clone, Debug)]
pub struct FileProbe {
    /// The path with every link and every `.` and `..` resolved, where the
    /// path leads to something.
    pub canonical: Option<String>,
    /// Whether it leads to a regular file.
    pub is_file: bool,
}

/// The mathematical value of a `FileProbe`.
pub ghost struct FileProbeView {
    pub canonical: Option<Seq<char>>,
    pub is_file: bool,
}

impl View for FileProbe {
    type V = FileProbeView;

    open spec fn view(&self) -> FileProbeView {
        FileProbeView {
            canonical: match self.canonical {
                Some(p) => Some(p@),
                None => None,
            },
            is_file: self.is_file,
        }
    }
}

/// A root with the slash that separates it from what lies below it.
pub open spec fn root_prefix(root: Seq<char>) -> Seq<char> {
    if ends_with(root, "/"@) {
        root
    } else {
        root + "/"@
    }
}

/// Whether the canonical path `path` lies strictly below the canonical
/// directory `root`.
pub open spec fn is_strict_descendant(path: Seq<char>, root: Seq<char>) -> bool {
    starts_with(path, root_prefix(root)) && path.len() > root_prefix(root).len()
}

/// Whether a canonical path may be served: it lies strictly below the
/// public root or below the root of the error documents.
pub open spec fn may_serve(path: Seq<char>, public_root: Seq<char>, errdocs_root: Seq<char>)
    -> bool {
    is_strict_descendant(path, public_root) || is_strict_descendant(path, errdocs_root)
}

/// What is to be done with a probed path: read the canonical file, or
/// answer with a status. A path that leads nowhere is not found; one that
/// leads outside both roots is a client error, whatever it leads to; one
/// that leads to something other than a regular file is not found.
pub open spec fn probe_verdict(
    probe: FileProbeView,
    public_root: Seq<char>,
    errdocs_root: Seq<char>,
) -> Result<Seq<char>, Status> {
    match probe.canonical {
        None => Err(Status::NotFound),
        Some(path) => if !may_serve(path, public_root, errdocs_root) {
            Err(Status::OtherClientError)
        } else if !probe.is_file {
            Err(Status::NotFound)
        } else {
            Ok(path)
        },
    }
}

/// Whether the canonical path `path` lies strictly below the canonical
/// directory `root`.
pub fn path_is_below(path: &str, root: &str) -> (r: bool)
    ensures
        r == is_strict_descendant(path@, root@),
{
    let prefix = if str_ends_with(root, "/") {
        root.to_owned()
    } else {
        str_concat(root, "/")
    };
    let p = to_chars(path);
    let q = to_chars(prefix.as_str());
    str_starts_with(path, prefix.as_str()) && p.len() > q.len()
}

/// Decides what is to be done with a probed path (see `probe_verdict`).
pub fn judge_probe(probe: &FileProbe, public_root: &str, errdocs_root: &str) -> (r: Result<
    String,
    Status,
>)
    ensures
        match r {
            Ok(path) => probe_verdict(probe@, public_root@, errdocs_root@) == Ok::<
                Seq<char>,
                Status,
            >(path@),
            Err(status) => probe_verdict(probe@, public_root@, errdocs_root@) == Err::<
                Seq<char>,
                Status,
            >(status),
        },
{
    match &probe.canonical {
        None => Err(Status::NotFound),
        Some(path) => {
            if !path_is_below(path.as_str(), public_root) && !path_is_below(
                path.as_str(),
                errdocs_root,
            ) {
                Err(Status::OtherClientError)
            } else if !probe.is_file {
                Err(Status::NotFound)
            } else {
                Ok(path.clone())
            }
        },
    }
}

/// A path outside both roots is refused as a client error and is never
/// handed on to be read, whatever else the probe says.
pub proof fn lemma_outside_is_refused(
    probe: FileProbeView,
    public_root: Seq<char>,
    errdocs_root: Seq<char>,
)
    requires
        probe.canonical matches Some(path) && !is_strict_descendant(path, public_root)
            && !is_strict_descendant(path, errdocs_root),
    ensures
        probe_verdict(probe, public_root, errdocs_root) == Err::<Seq<char>, Status>(
            Status::OtherClientError,
        ),
{
}

/// `meta` with the member `key` set to the text of `instant`, where `meta`
/// is an object that lacks the key and the instant can be printed.
pub open spec fn with_instant(meta: JsonValue, key: Seq<char>, instant: Timestamp) -> JsonValue {
    match meta {
        JsonValue::Object(m) => if m.dom().contains(key) {
            meta
        } else {
            match rfc3339_text(instant.seconds, instant.nanos) {
                Some(text) => JsonValue::Object(m.insert(key, JsonValue::String(text))),
                None => meta,
            }
        },
        _ => meta,
    }
}

/// The metadata after a file was loaded. Where the file system told both
/// instants of the file, `created_at` and `updated_at` are set to them,
/// each only if the metadata does not hold it yet.
pub open spec fn stamped_meta(meta: JsonValue, file: CachedFileView) -> JsonValue {
    match (file.created, file.modified) {
        (Some(created), Some(modified)) => with_instant(
            with_instant(meta, "created_at"@, created),
            "updated_at"@,
            modified,
        ),
        _ => meta,
    }
}

/// Sets one instant in the metadata (see `with_instant`).
fn set_instant(meta: &mut Json, key: &str, instant: Timestamp)
    requires
        old(meta).wf(),
    ensures
        final(meta).wf(),
        final(meta)@ == with_instant(old(meta)@, key@, instant),
{
    if meta.is_object() {
        let held = meta.get(key).is_some();
        if !held {
            match format_timestamp(instant.seconds, instant.nanos) {
                Some(text) => {
                    meta.set_member(key, Json::new_string(text.as_str()));
                },
                None => {},
            }
        }
    }
}

/// Records the instants of a loaded file in the metadata (see
/// `stamped_meta`).
pub fn stamp_meta(meta: &mut Json, file: &CachedFile)
    requires
        old(meta).wf(),
    ensures
        final(meta).wf(),
        final(meta)@ == stamped_meta(old(meta)@, file@),
{
    match (file.created(), file.modified()) {
        (Some(created), Some(modified)) => {
            set_instant(meta, "created_at", created);
            set_instant(meta, "updated_at", modified);
        },
        _ => {},
    }
}

/// The response that a file read under `path` makes: a cacheable success
/// with the file's bytes, under the media type that the path's extension
/// stands for or, where it stands for none, that of the protocol.
pub open spec fn loaded_response(path: Seq<char>, data: Seq<u8>, protocol: Protocol)
    -> ResponseView {
    ResponseView {
        status: Status::Success,
        media_type: match guessed_media_type(path) {
            Some(media_type) => media_type,
            None => protocol.spec_media_type(),
        },
        redirect_uri: Seq::empty(),
        body: data,
        cacheable: true,
    }
}

/// Makes the response of a file that was read (see `loaded_response`).
pub fn respond_with_file(path: &str, file: &CachedFile, protocol: Protocol) -> (r: Response)
    ensures
        r@ == loaded_response(path@, file@.data, protocol),
{
    let media_type = match guess_media_type(path) {
        Some(media_type) => media_type,
        None => protocol.media_type(),
    };
    Response::new(Status::Success, media_type.as_str(), file.data().as_slice(), true)
}

/// What the bytes of a template file yield: the template source without its
/// front matter, and the metadata with the front matter merged into it.
/// Bytes that are not UTF-8 yield nothing.
pub open spec fn template_parts(data: Seq<u8>, meta: JsonValue) -> Option<(Seq<char>, JsonValue)> {
    if !valid_utf8(data) {
        None
    } else {
        let (matter, content) = front_matter(decode_utf8(data));
        Some(
            (
                content,
                match matter {
                    Some(doc) => merge(meta, doc),
                    None => meta,
                },
            ),
        )
    }
}

/// Takes the bytes of a template file apart (see `template_parts`): merges
/// the front matter into the metadata and gives the template source.
pub fn open_template(data: &[u8], meta: &mut Json) -> (r: Option<String>)
    requires
        old(meta).wf(),
    ensures
        final(meta).wf(),
        match r {
            Some(source) => template_parts(data@, old(meta)@) == Some((source@, final(meta)@)),
            None => template_parts(data@, old(meta)@) is None && final(meta)@ == old(meta)@,
        },
{
    match crate::text::utf8_to_string(data) {
        None => None,
        Some(text) => {
            let (matter, content) = split_front_matter(text.as_str());
            match matter {
                Some(doc) => {
                    meta.merge_from(&doc);
                },
                None => {},
            }
            Some(content)
        },
    }
}

} // verus!
