//! The resolution of a request: which files are tried, in which order, and
//! what each answer of the file system and of the template engine leads to.
//!
//! The resolution itself touches neither the disk nor the engine. It names
//! the next thing to be done as an `Action`; whoever drives it does that and
//! hands back what came of it as an `Answer`.

use vstd::prelude::*;
use vstd::string::*;
use crate::config::Config;
use crate::context::{CachedFile, CachedFileView};
use crate::files::{
    is_strict_descendant, judge_probe, loaded_response, may_serve, open_template, probe_verdict,
    respond_with_file, stamp_meta, stamped_meta, template_parts, FileProbe, FileProbeView,
};
use crate::json::JsonValue;
use crate::protocol::Protocol;
use crate::request::Request;
use crate::response::{Response, ResponseView, Status};
use crate::templates::{
    markdown_template, markdown_template_for_response, respond_to_rendered, response_for_rendered,
    text_view, Markup,
};
use crate::text::{ends_with, str_concat, str_ends_with, str_strip_suffix, strip_suffix};

verus! {

broadcast use vstd::string::group_string_axioms;

/// One path that is tried for a request.
#[derive(Clone, Debug, PartialEq, Eq)]
pub struct Candidate {
    pub path: String,
    /// Whether what is loaded is Markdown that is converted before it is
    /// rendered.
    pub markdown: bool,
}

/// The mathematical value of a `Candidate`.
pub ghost struct CandidateView {
    pub path: Seq<char>,
    pub markdown: bool,
}

impl View for Candidate {
    type V = CandidateView;

    open spec fn view(&self) -> CandidateView {
        CandidateView { path: self.path@, markdown: self.markdown }
    }
}

/// The values of a list of candidates.
pub open spec fn candidate_views(candidates: Seq<Candidate>) -> Seq<CandidateView> {
    Seq::new(candidates.len(), |i: int| candidates[i]@)
}

/// A candidate that is served as it is loaded.
pub open spec fn plain(path: Seq<char>) -> CandidateView {
    CandidateView { path, markdown: false }
}

/// One candidate for each extension, in their order: `base`, a dot and the
/// extension.
pub open spec fn with_extensions(base: Seq<char>, extensions: Seq<Seq<char>>) -> Seq<
    CandidateView,
> {
    Seq::new(extensions.len(), |i: int| plain(base + "."@ + extensions[i]))
}

/// The markup that a requested path asks for by its extension: HTML for
/// `.html` and `.htm`, Gemtext for `.gmi`, Markdown for `.md`, and the given
/// markup for any other path.
pub open spec fn markup_for_path(path: Seq<char>, markup: Markup) -> Markup {
    if ends_with(path, ".html"@) || ends_with(path, ".htm"@) {
        Markup::Html
    } else if ends_with(path, ".gmi"@) {
        Markup::Gemtext
    } else if ends_with(path, ".md"@) {
        Markup::Markdown
    } else {
        markup
    }
}

/// A requested path without its markup extensions: `.md`, `.gmi`, `.html`
/// and `.htm` are taken off its end, one after the other in this order.
pub open spec fn without_markup_extension(path: Seq<char>) -> Seq<char> {
    strip_suffix(
        strip_suffix(strip_suffix(strip_suffix(path, ".md"@), ".gmi"@), ".html"@),
        ".htm"@,
    )
}

/// A directory path that ends in a slash.
pub open spec fn with_slash(path: Seq<char>) -> Seq<char> {
    if ends_with(path, "/"@) {
        path
    } else {
        path + "/"@
    }
}

/// The candidates for a requested path, in the order in which they are
/// tried. For a directory: its `index.hbs`, then its `index` with each
/// extension of the protocol. For any other path: the path itself, unless
/// it ends in `.md`; then the path with each extension of the protocol; then,
/// as Markdown, the path without its markup extensions and with `.md`.
pub open spec fn route_candidates(os_path: Seq<char>, is_directory: bool, protocol: Protocol)
    -> Seq<CandidateView> {
    if is_directory {
        seq![plain(with_slash(os_path) + "index.hbs"@)] + with_extensions(
            with_slash(os_path) + "index"@,
            protocol.spec_extensions(),
        )
    } else {
        (if ends_with(os_path, ".md"@) {
            Seq::<CandidateView>::empty()
        } else {
            seq![plain(os_path)]
        }) + with_extensions(os_path, protocol.spec_extensions()) + seq![
            CandidateView { path: without_markup_extension(os_path) + ".md"@, markdown: true },
        ]
    }
}

/// The candidates for the error document of a status: under the root of the
/// error documents, the token of the status with each extension of the
/// protocol.
pub open spec fn error_candidates(errdocs_root: Seq<char>, status: Status, protocol: Protocol)
    -> Seq<CandidateView> {
    with_extensions(errdocs_root + "/"@ + status.token(), protocol.spec_extensions())
}

/// What a resolution works on: a request, or the error document of a status.
#[derive(Copy, Clone, Debug, PartialEq, Eq, Structural)]
pub enum Mode {
    Routing,
    ErrorDocument(Status),
}

/// How a candidate is tried: as the file it names, or as the template that
/// stands for it.
#[derive(Copy, Clone, Debug, PartialEq, Eq, Structural)]
pub enum Pass {
    Exact,
    Template,
}

/// What a resolution waits for.
#[derive(Copy, Clone, Debug, PartialEq, Eq, Structural)]
pub enum Pending {
    /// Whether the requested path is a directory.
    Stat,
    /// What the file system says of the path that is tried.
    Probe,
    /// What was read of the file that is tried.
    Contents,
    /// What the engine made of the template that is tried.
    TemplateOutput,
    /// What the engine made of the converted Markdown.
    MarkdownOutput,
    /// Nothing: the response is made.
    Nothing,
}

/// What is to be done next for a resolution.
#[derive(Debug)]
pub enum Action {
    /// Find out whether the path is a directory; answer with `Answer::Stat`.
    Stat(String),
    /// Resolve the path and find out whether it leads to a regular file,
    /// without reading it; answer with `Answer::Probed`.
    Probe(String),
    /// Read the file at the canonical path, from the cache where it holds
    /// it; answer with `Answer::Read`.
    Read(String),
    /// Render the template with the context of the request; answer with
    /// `Answer::Rendered`.
    Render(String),
    /// Send the response: the resolution is over.
    Respond(Response),
}

/// The mathematical value of an `Action`.
pub ghost enum ActionView {
    Stat(Seq<char>),
    Probe(Seq<char>),
    Read(Seq<char>),
    Render(Seq<char>),
    Respond(ResponseView),
}

impl View for Action {
    type V = ActionView;

    open spec fn view(&self) -> ActionView {
        match self {
            Action::Stat(path) => ActionView::Stat(path@),
            Action::Probe(path) => ActionView::Probe(path@),
            Action::Read(path) => ActionView::Read(path@),
            Action::Render(source) => ActionView::Render(source@),
            Action::Respond(response) => ActionView::Respond(response@),
        }
    }
}

/// The answer to an action.
#[derive(Debug)]
pub enum Answer {
    /// Whether the path is a directory.
    Stat(bool),
    /// What the file system says of the path.
    Probed(FileProbe),
    /// The file, or nothing where it could not be read.
    Read(Option<CachedFile>),
    /// The output of the engine, or nothing where rendering failed.
    Rendered(Option<String>),
}

/// The mathematical value of an `Answer`.
pub ghost enum AnswerView {
    Stat(bool),
    Probed(FileProbeView),
    Read(Option<CachedFileView>),
    Rendered(Option<Seq<char>>),
}

impl View for Answer {
    type V = AnswerView;

    open spec fn view(&self) -> AnswerView {
        match self {
            Answer::Stat(is_directory) => AnswerView::Stat(*is_directory),
            Answer::Probed(probe) => AnswerView::Probed(probe@),
            Answer::Read(file) => AnswerView::Read(
                match file {
                    Some(f) => Some(f@),
                    None => None,
                },
            ),
            Answer::Rendered(output) => AnswerView::Rendered(text_view(*output)),
        }
    }
}

/// The state of a resolution.
pub ghost struct ResolutionView {
    /// The metadata of the template context.
    pub meta: JsonValue,
    /// The markup of the template context.
    pub markup: Markup,
    pub protocol: Protocol,
    pub public_root: Seq<char>,
    pub errdocs_root: Seq<char>,
    /// The requested path below the public root.
    pub os_path: Seq<char>,
    pub mode: Mode,
    /// The candidates of the current mode, in the order of trial.
    pub candidates: Seq<CandidateView>,
    /// The position of the candidate that is tried.
    pub index: int,
    pub pass: Pass,
    pub pending: Pending,
}

/// The pass with which a candidate starts: a path that names a template is
/// tried as a template at once.
pub open spec fn first_pass(path: Seq<char>) -> Pass {
    if ends_with(path, ".hbs"@) {
        Pass::Template
    } else {
        Pass::Exact
    }
}

/// The path that is probed and read for a candidate in a pass: the
/// candidate's own path, or for the template pass of a path that names no
/// template, the path with `.hbs`.
pub open spec fn attempt_path(candidate: CandidateView, pass: Pass) -> Seq<char> {
    if pass == Pass::Exact || ends_with(candidate.path, ".hbs"@) {
        candidate.path
    } else {
        candidate.path + ".hbs"@
    }
}

/// The resolution ends with a response.
pub open spec fn finish(s: ResolutionView, response: ResponseView) -> (ResolutionView, ActionView) {
    (ResolutionView { pending: Pending::Nothing, ..s }, ActionView::Respond(response))
}

/// The current candidate is probed in the current pass.
pub open spec fn probe_current(s: ResolutionView) -> (ResolutionView, ActionView) {
    (
        ResolutionView { pending: Pending::Probe, ..s },
        ActionView::Probe(attempt_path(s.candidates[s.index], s.pass)),
    )
}

/// The candidate at `index` is tried from its first pass on.
pub open spec fn try_candidate(s: ResolutionView, index: int) -> (ResolutionView, ActionView) {
    probe_current(ResolutionView { index, pass: first_pass(s.candidates[index].path), ..s })
}

/// The resolution turns to the error document of `status`: its candidates
/// are tried from the first on; without candidates the plain-text response
/// of the status is sent.
pub open spec fn enter_error_document(s: ResolutionView, status: Status) -> (
    ResolutionView,
    ActionView,
) {
    let turned = ResolutionView {
        mode: Mode::ErrorDocument(status),
        candidates: error_candidates(s.errdocs_root, status, s.protocol),
        index: 0,
        ..s
    };
    if turned.candidates.len() == 0 {
        finish(turned, Response::fallback_view(status))
    } else {
        try_candidate(turned, 0)
    }
}

/// The next candidate is tried. After the last candidate of a request comes
/// the error document for "not found"; after the last candidate of an error
/// document, the plain-text response of its status.
pub open spec fn next_candidate(s: ResolutionView) -> (ResolutionView, ActionView) {
    if s.index + 1 < s.candidates.len() {
        try_candidate(s, s.index + 1)
    } else {
        match s.mode {
            Mode::Routing => enter_error_document(s, Status::NotFound),
            Mode::ErrorDocument(status) => finish(s, Response::fallback_view(status)),
        }
    }
}

/// The current attempt failed with `status`. A file that is not found as it
/// is named is tried as a template; a template that is not found gives way
/// to the next candidate. Any other failure ends a request with the error
/// document of the status, and makes an error document give way to its next
/// candidate: an error document never asks for another.
pub open spec fn attempt_failed(s: ResolutionView, status: Status) -> (ResolutionView, ActionView) {
    if status == Status::NotFound {
        if s.pass == Pass::Exact {
            probe_current(ResolutionView { pass: Pass::Template, ..s })
        } else {
            next_candidate(s)
        }
    } else {
        match s.mode {
            Mode::Routing => enter_error_document(s, status),
            Mode::ErrorDocument(_) => next_candidate(s),
        }
    }
}

/// The current candidate made a response. An error document sends it under
/// its own status. A request sends it as it is, unless the candidate is
/// Markdown: then its body is converted and rendered once more, and a body
/// that cannot be converted ends the request with the error document of a
/// server error.
pub open spec fn candidate_loaded(s: ResolutionView, response: ResponseView) -> (
    ResolutionView,
    ActionView,
) {
    match s.mode {
        Mode::ErrorDocument(status) => finish(s, Response::error_document_view(status, response)),
        Mode::Routing => if !s.candidates[s.index].markdown {
            finish(s, response)
        } else {
            match markdown_template(response.body, s.markup) {
                Some(source) => (
                    ResolutionView { pending: Pending::MarkdownOutput, ..s },
                    ActionView::Render(source),
                ),
                None => enter_error_document(s, Status::OtherServerError),
            }
        },
    }
}

/// The file of the current attempt was read. Its instants are recorded in
/// the metadata. In the exact pass the file makes the response of the
/// candidate. In the template pass its front matter is merged into the
/// metadata and the rest is rendered; a template that is not UTF-8 fails the
/// attempt with a server error.
pub open spec fn file_read(s: ResolutionView, file: CachedFileView) -> (ResolutionView, ActionView) {
    let stamped = ResolutionView { meta: stamped_meta(s.meta, file), ..s };
    if s.pass == Pass::Exact {
        candidate_loaded(
            stamped,
            loaded_response(attempt_path(s.candidates[s.index], s.pass), file.data, s.protocol),
        )
    } else {
        match template_parts(file.data, stamped.meta) {
            Some((source, meta)) => (
                ResolutionView { meta, pending: Pending::TemplateOutput, ..stamped },
                ActionView::Render(source),
            ),
            None => attempt_failed(stamped, Status::OtherServerError),
        }
    }
}

/// The requested path is known to be a directory or not: the markup that
/// its extension asks for is set, and its candidates are tried from the
/// first on.
pub open spec fn path_known(s: ResolutionView, is_directory: bool) -> (ResolutionView, ActionView) {
    let routed = ResolutionView {
        markup: markup_for_path(s.os_path, s.markup),
        mode: Mode::Routing,
        candidates: route_candidates(s.os_path, is_directory, s.protocol),
        index: 0,
        ..s
    };
    if routed.candidates.len() == 0 {
        enter_error_document(routed, Status::NotFound)
    } else {
        try_candidate(routed, 0)
    }
}

/// Whether an answer is one to what a resolution waits for.
pub open spec fn answers(pending: Pending, answer: AnswerView) -> bool {
    match (pending, answer) {
        (Pending::Stat, AnswerView::Stat(_)) => true,
        (Pending::Probe, AnswerView::Probed(_)) => true,
        (Pending::Contents, AnswerView::Read(_)) => true,
        (Pending::TemplateOutput, AnswerView::Rendered(_)) => true,
        (Pending::MarkdownOutput, AnswerView::Rendered(_)) => true,
        _ => false,
    }
}

/// One step of a resolution: the state and the action that follow from a
/// state and an answer. An answer to something that the resolution does not
/// wait for ends it with the plain-text response of a server error.
pub open spec fn step(s: ResolutionView, answer: AnswerView) -> (ResolutionView, ActionView) {
    match (s.pending, answer) {
        (Pending::Stat, AnswerView::Stat(is_directory)) => path_known(s, is_directory),
        (Pending::Probe, AnswerView::Probed(probe)) => match probe_verdict(
            probe,
            s.public_root,
            s.errdocs_root,
        ) {
            Ok(path) => (ResolutionView { pending: Pending::Contents, ..s }, ActionView::Read(path)),
            Err(status) => attempt_failed(s, status),
        },
        (Pending::Contents, AnswerView::Read(file)) => match file {
            Some(file) => file_read(s, file),
            None => attempt_failed(s, Status::Unauthorized),
        },
        (Pending::TemplateOutput, AnswerView::Rendered(output)) => match response_for_rendered(
            output,
            s.markup,
        ) {
            Ok(response) => candidate_loaded(s, response),
            Err(status) => attempt_failed(s, status),
        },
        (Pending::MarkdownOutput, AnswerView::Rendered(output)) => match response_for_rendered(
            output,
            s.markup,
        ) {
            Ok(response) => finish(s, response),
            Err(status) => enter_error_document(s, status),
        },
        _ => finish(s, Response::fallback_view(Status::OtherServerError)),
    }
}

/// Whether a state is one that a resolution can be in: while a candidate is
/// tried, there is such a candidate.
pub open spec fn state_wf(s: ResolutionView) -> bool {
    s.pending != Pending::Stat && s.pending != Pending::Nothing ==> 0 <= s.index
        < s.candidates.len()
}

/// The state in which the resolution of a request starts, and its first
/// action: to find out whether the requested path, below the public root, is
/// a directory.
pub open spec fn route_start(
    meta: JsonValue,
    markup: Markup,
    protocol: Protocol,
    public_root: Seq<char>,
    errdocs_root: Seq<char>,
    url_path: Seq<char>,
) -> (ResolutionView, ActionView) {
    (
        ResolutionView {
            meta,
            markup,
            protocol,
            public_root,
            errdocs_root,
            os_path: public_root + url_path,
            mode: Mode::Routing,
            candidates: Seq::empty(),
            index: 0,
            pass: Pass::Exact,
            pending: Pending::Stat,
        },
        ActionView::Stat(public_root + url_path),
    )
}

/// The state in which the making of the error document of a status starts,
/// and its first action.
pub open spec fn error_start(
    meta: JsonValue,
    markup: Markup,
    protocol: Protocol,
    public_root: Seq<char>,
    errdocs_root: Seq<char>,
    url_path: Seq<char>,
    status: Status,
) -> (ResolutionView, ActionView) {
    enter_error_document(
        ResolutionView {
            meta,
            markup,
            protocol,
            public_root,
            errdocs_root,
            os_path: public_root + url_path,
            mode: Mode::Routing,
            candidates: Seq::empty(),
            index: 0,
            pass: Pass::Exact,
            pending: Pending::Nothing,
        },
        status,
    )
}

/// Every step leads from a state that a resolution can be in to another.
pub proof fn lemma_step_keeps_wf(s: ResolutionView, answer: AnswerView)
    requires
        state_wf(s),
    ensures
        state_wf(step(s, answer).0),
{
}

/// A file is read only where its canonical path lies strictly below the
/// public root or the root of the error documents: whatever the state and
/// whatever the answer, no other path is ever handed out to be read.
pub proof fn lemma_reads_only_what_may_be_served(s: ResolutionView, answer: AnswerView)
    ensures
        step(s, answer).1 matches ActionView::Read(path) ==> may_serve(
            path,
            s.public_root,
            s.errdocs_root,
        ),
{
}

/// A path that leads outside both roots is never read. While a request is
/// routed, it ends the routing: the resolution turns to the error document
/// of a client error.
pub proof fn lemma_traversal_is_refused(s: ResolutionView, probe: FileProbeView)
    requires
        s.pending == Pending::Probe,
        probe.canonical matches Some(path) && !is_strict_descendant(path, s.public_root)
            && !is_strict_descendant(path, s.errdocs_root),
    ensures
        !(step(s, AnswerView::Probed(probe)).1 is Read),
        s.mode == Mode::Routing ==> step(s, AnswerView::Probed(probe)).0.mode
            == Mode::ErrorDocument(Status::OtherClientError),
{
}

/// Once a resolution has turned to the error document of a status, it stays
/// with it, and whatever it sends in the end carries that status: an error
/// document that fails to load never leads to another error document.
pub proof fn lemma_error_document_keeps_status(s: ResolutionView, answer: AnswerView, status: Status)
    requires
        s.mode == Mode::ErrorDocument(status),
        answers(s.pending, answer),
        s.pending != Pending::Stat,
        s.pending != Pending::MarkdownOutput,
    ensures
        step(s, answer).0.mode == Mode::ErrorDocument(status),
        step(s, answer).1 matches ActionView::Respond(response) ==> response.status == status,
{
}

/// A directory is resolved in the same way with and without the slash at
/// the end of the requested path: the candidates are the same.
pub proof fn lemma_directory_slash(path: Seq<char>, protocol: Protocol)
    requires
        !ends_with(path, "/"@),
    ensures
        route_candidates(path, true, protocol) == route_candidates(path + "/"@, true, protocol),
{
    reveal_strlit("/");
    let slashed = path + "/"@;
    assert(slashed.subrange(slashed.len() - 1, slashed.len() as int) =~= "/"@);
}

/// Whether two requests differ at most in the metadata and the markup of
/// their template contexts, which are what a resolution fills in.
pub open spec fn same_frame(a: Request, b: Request) -> bool {
    &&& a.peer_addr == b.peer_addr
    &&& a.url == b.url
    &&& a.client_certificate_details == b.client_certificate_details
    &&& a.protocol == b.protocol
    &&& a.template_context.data == b.template_context.data
    &&& a.template_context.posts == b.template_context.posts
    &&& a.template_context.peer_addr == b.template_context.peer_addr
    &&& a.template_context.path == b.template_context.path
    &&& a.template_context.is_authenticated == b.template_context.is_authenticated
    &&& a.template_context.is_anonymous == b.template_context.is_anonymous
    &&& a.template_context.common_name == b.template_context.common_name
    &&& a.template_context.protocol == b.template_context.protocol
    &&& a.template_context.is_gemini == b.template_context.is_gemini
    &&& a.template_context.is_https == b.template_context.is_https
    &&& a.template_context.os_platform == b.template_context.os_platform
}

/// The resolution of one request, between two actions.
pub struct Resolution {
    request: Request,
    public_root: String,
    errdocs_root: String,
    os_path: String,
    mode: Mode,
    candidates: Vec<Candidate>,
    index: usize,
    pass: Pass,
    pending: Pending,
}

impl View for Resolution {
    type V = ResolutionView;

    closed spec fn view(&self) -> ResolutionView {
        ResolutionView {
            meta: self.request.template_context.meta@,
            markup: self.request.template_context.markup,
            protocol: self.request.protocol,
            public_root: self.public_root@,
            errdocs_root: self.errdocs_root@,
            os_path: self.os_path@,
            mode: self.mode,
            candidates: candidate_views(self.candidates@),
            index: self.index as int,
            pass: self.pass,
            pending: self.pending,
        }
    }
}

/// Puts one candidate for each extension of the protocol behind `out`.
fn push_with_extensions(out: &mut Vec<Candidate>, base: &str, protocol: Protocol)
    ensures
        candidate_views(final(out)@) == candidate_views(old(out)@) + with_extensions(
            base@,
            protocol.spec_extensions(),
        ),
{
    let extensions = protocol.media_type_file_extensions();
    let ghost start = candidate_views(out@);
    let ghost all = with_extensions(base@, protocol.spec_extensions());
    let mut i: usize = 0;
    assert(candidate_views(out@) =~= start + all.take(0));
    while i < extensions.len()
        invariant
            i <= extensions.len(),
            extensions.deep_view() == protocol.spec_extensions(),
            all == with_extensions(base@, protocol.spec_extensions()),
            candidate_views(out@) == start + all.take(i as int),
        decreases extensions.len() - i,
    {
        let ghost so_far = out@;
        assert(extensions.deep_view()[i as int] == extensions@[i as int]@);
        let path = str_concat(str_concat(base, ".").as_str(), extensions[i].as_str());
        out.push(Candidate { path, markdown: false });
        i += 1;
        assert(candidate_views(out@) =~= candidate_views(so_far).push(all[i - 1]));
        assert(all.take(i as int) =~= all.take(i - 1).push(all[i - 1]));
        assert(candidate_views(out@) =~= start + all.take(i as int));
    }
    assert(all.take(all.len() as int) =~= all);
}

/// The candidates for a requested path (see `route_candidates`).
pub fn candidates_for_path(os_path: &str, is_directory: bool, protocol: Protocol) -> (r: Vec<
    Candidate,
>)
    ensures
        candidate_views(r@) == route_candidates(os_path@, is_directory, protocol),
{
    let mut out: Vec<Candidate> = Vec::new();
    if is_directory {
        let dir = if str_ends_with(os_path, "/") {
            os_path.to_owned()
        } else {
            str_concat(os_path, "/")
        };
        out.push(Candidate { path: str_concat(dir.as_str(), "index.hbs"), markdown: false });
        assert(candidate_views(out@) =~= seq![plain(with_slash(os_path@) + "index.hbs"@)]);
        push_with_extensions(&mut out, str_concat(dir.as_str(), "index").as_str(), protocol);
    } else {
        if !str_ends_with(os_path, ".md") {
            out.push(Candidate { path: os_path.to_owned(), markdown: false });
            assert(candidate_views(out@) =~= seq![plain(os_path@)]);
        } else {
            assert(candidate_views(out@) =~= Seq::<CandidateView>::empty());
        }
        push_with_extensions(&mut out, os_path, protocol);
        let a = str_strip_suffix(os_path, ".md");
        let b = str_strip_suffix(a.as_str(), ".gmi");
        let c = str_strip_suffix(b.as_str(), ".html");
        let stripped = str_strip_suffix(c.as_str(), ".htm");
        let ghost before = out@;
        out.push(Candidate { path: str_concat(stripped.as_str(), ".md"), markdown: true });
        assert(candidate_views(out@) =~= candidate_views(before) + seq![
            CandidateView { path: without_markup_extension(os_path@) + ".md"@, markdown: true },
        ]);
    }
    out
}

/// The candidates for the error document of a status (see
/// `error_candidates`).
pub fn candidates_for_status(errdocs_root: &str, status: Status, protocol: Protocol) -> (r: Vec<
    Candidate,
>)
    ensures
        candidate_views(r@) == error_candidates(errdocs_root@, status, protocol),
{
    let mut out: Vec<Candidate> = Vec::new();
    let base = str_concat(str_concat(errdocs_root, "/").as_str(), status.token_str());
    assert(candidate_views(out@) =~= Seq::<CandidateView>::empty());
    push_with_extensions(&mut out, base.as_str(), protocol);
    assert(candidate_views(out@) =~= error_candidates(errdocs_root@, status, protocol));
    out
}

/// The markup that a requested path asks for (see `markup_for_path`).
pub fn markup_of_path(path: &str, markup: Markup) -> (r: Markup)
    ensures
        r == markup_for_path(path@, markup),
{
    if str_ends_with(path, ".html") || str_ends_with(path, ".htm") {
        Markup::Html
    } else if str_ends_with(path, ".gmi") {
        Markup::Gemtext
    } else if str_ends_with(path, ".md") {
        Markup::Markdown
    } else {
        markup
    }
}

/// Whether a resolution went from `before` to `after` with `action` as the
/// model says: the state and the action are the expected ones, and the
/// request is the same but for what a resolution fills in.
pub open spec fn advanced(
    before: Resolution,
    after: Resolution,
    action: Action,
    expected: (ResolutionView, ActionView),
) -> bool {
    &&& after.spec_request().wf()
    &&& same_frame(after.spec_request(), before.spec_request())
    &&& after@ == expected.0
    &&& action@ == expected.1
}

impl Resolution {
    /// The request that is resolved.
    pub closed spec fn spec_request(&self) -> Request {
        self.request
    }

    /// The resolution is in a state it can be in, and its request is
    /// well-formed.
    pub open spec fn wf(&self) -> bool {
        self.spec_request().wf() && state_wf(self@)
    }

    /// The request that is resolved, with its template context as the
    /// resolution has filled it so far.
    pub fn request(&self) -> (r: &Request)
        ensures
            *r == self.spec_request(),
    {
        &self.request
    }

    /// Whether the response is made.
    pub fn is_finished(&self) -> (r: bool)
        ensures
            r == (self@.pending == Pending::Nothing),
    {
        self.pending == Pending::Nothing
    }

    fn finish(self, response: Response) -> (r: (Resolution, Action))
        requires
            self.request.wf(),
        ensures
            advanced(self, r.0, r.1, finish(self@, response@)),
    {
        let mut next = self;
        next.pending = Pending::Nothing;
        (next, Action::Respond(response))
    }

    fn probe_current(self) -> (r: (Resolution, Action))
        requires
            self.request.wf(),
            self.index < self.candidates.len(),
        ensures
            advanced(self, r.0, r.1, probe_current(self@)),
    {
        let mut next = self;
        let candidate = &next.candidates[next.index];
        let path = if next.pass == Pass::Exact || str_ends_with(candidate.path.as_str(), ".hbs") {
            candidate.path.clone()
        } else {
            str_concat(candidate.path.as_str(), ".hbs")
        };
        next.pending = Pending::Probe;
        (next, Action::Probe(path))
    }

    fn try_candidate(self, index: usize) -> (r: (Resolution, Action))
        requires
            self.request.wf(),
            index < self.candidates.len(),
        ensures
            advanced(self, r.0, r.1, try_candidate(self@, index as int)),
    {
        let mut next = self;
        next.index = index;
        next.pass = if str_ends_with(next.candidates[index].path.as_str(), ".hbs") {
            Pass::Template
        } else {
            Pass::Exact
        };
        next.probe_current()
    }

    fn enter_error_document(self, status: Status) -> (r: (Resolution, Action))
        requires
            self.request.wf(),
        ensures
            advanced(self, r.0, r.1, enter_error_document(self@, status)),
    {
        let mut next = self;
        next.mode = Mode::ErrorDocument(status);
        next.candidates = candidates_for_status(
            next.errdocs_root.as_str(),
            status,
            next.request.protocol,
        );
        next.index = 0;
        if next.candidates.len() == 0 {
            next.finish(Response::fallback_for_status(status))
        } else {
            next.try_candidate(0)
        }
    }

    fn next_candidate(self) -> (r: (Resolution, Action))
        requires
            self.request.wf(),
            self.index < self.candidates.len(),
        ensures
            advanced(self, r.0, r.1, next_candidate(self@)),
    {
        if self.index + 1 < self.candidates.len() {
            let index = self.index + 1;
            self.try_candidate(index)
        } else {
            match self.mode {
                Mode::Routing => self.enter_error_document(Status::NotFound),
                Mode::ErrorDocument(status) => self.finish(Response::fallback_for_status(status)),
            }
        }
    }

    fn attempt_failed(self, status: Status) -> (r: (Resolution, Action))
        requires
            self.request.wf(),
            self.index < self.candidates.len(),
        ensures
            advanced(self, r.0, r.1, attempt_failed(self@, status)),
    {
        if status == Status::NotFound {
            if self.pass == Pass::Exact {
                let mut next = self;
                next.pass = Pass::Template;
                next.probe_current()
            } else {
                self.next_candidate()
            }
        } else {
            match self.mode {
                Mode::Routing => self.enter_error_document(status),
                Mode::ErrorDocument(_) => self.next_candidate(),
            }
        }
    }

    fn candidate_loaded(self, response: Response) -> (r: (Resolution, Action))
        requires
            self.request.wf(),
            self.index < self.candidates.len(),
        ensures
            advanced(self, r.0, r.1, candidate_loaded(self@, response@)),
    {
        match self.mode {
            Mode::ErrorDocument(status) => {
                let document = Response::error_document(status, &response);
                self.finish(document)
            },
            Mode::Routing => {
                if !self.candidates[self.index].markdown {
                    self.finish(response)
                } else {
                    match markdown_template_for_response(
                        &response,
                        self.request.template_context.markup,
                    ) {
                        Some(source) => {
                            let mut next = self;
                            next.pending = Pending::MarkdownOutput;
                            (next, Action::Render(source))
                        },
                        None => self.enter_error_document(Status::OtherServerError),
                    }
                }
            },
        }
    }

    fn file_read(self, file: CachedFile) -> (r: (Resolution, Action))
        requires
            self.request.wf(),
            self.index < self.candidates.len(),
        ensures
            advanced(self, r.0, r.1, file_read(self@, file@)),
    {
        let mut next = self;
        stamp_meta(&mut next.request.template_context.meta, &file);
        if next.pass == Pass::Exact {
            let response = respond_with_file(
                next.candidates[next.index].path.as_str(),
                &file,
                next.request.protocol,
            );
            next.candidate_loaded(response)
        } else {
            match open_template(file.data().as_slice(), &mut next.request.template_context.meta) {
                Some(source) => {
                    next.pending = Pending::TemplateOutput;
                    (next, Action::Render(source))
                },
                None => next.attempt_failed(Status::OtherServerError),
            }
        }
    }

    fn path_known(self, is_directory: bool) -> (r: (Resolution, Action))
        requires
            self.request.wf(),
        ensures
            advanced(self, r.0, r.1, path_known(self@, is_directory)),
    {
        let mut next = self;
        next.request.template_context.markup = markup_of_path(
            next.os_path.as_str(),
            next.request.template_context.markup,
        );
        next.mode = Mode::Routing;
        next.candidates = candidates_for_path(
            next.os_path.as_str(),
            is_directory,
            next.request.protocol,
        );
        next.index = 0;
        if next.candidates.len() == 0 {
            next.enter_error_document(Status::NotFound)
        } else {
            next.try_candidate(0)
        }
    }

    /// Takes the answer to the last action and names the next one (see
    /// `step`). The request stays as it is but for the metadata and the
    /// markup of its template context.
    pub fn step(self, answer: Answer) -> (r: (Resolution, Action))
        requires
            self.wf(),
        ensures
            r.0.wf(),
            advanced(self, r.0, r.1, step(self@, answer@)),
    {
        proof {
            lemma_step_keeps_wf(self@, answer@);
        }
        match (self.pending, answer) {
            (Pending::Stat, Answer::Stat(is_directory)) => self.path_known(is_directory),
            (Pending::Probe, Answer::Probed(probe)) => match judge_probe(
                &probe,
                self.public_root.as_str(),
                self.errdocs_root.as_str(),
            ) {
                Ok(path) => {
                    let mut next = self;
                    next.pending = Pending::Contents;
                    (next, Action::Read(path))
                },
                Err(status) => self.attempt_failed(status),
            },
            (Pending::Contents, Answer::Read(file)) => match file {
                Some(file) => self.file_read(file),
                None => self.attempt_failed(Status::Unauthorized),
            },
            (Pending::TemplateOutput, Answer::Rendered(output)) => {
                let rendered = match &output {
                    Some(raw) => Some(raw.as_str()),
                    None => None,
                };
                match respond_to_rendered(rendered, self.request.template_context.markup) {
                    Ok(response) => self.candidate_loaded(response),
                    Err(status) => self.attempt_failed(status),
                }
            },
            (Pending::MarkdownOutput, Answer::Rendered(output)) => {
                let rendered = match &output {
                    Some(raw) => Some(raw.as_str()),
                    None => None,
                };
                match respond_to_rendered(rendered, self.request.template_context.markup) {
                    Ok(response) => self.finish(response),
                    Err(status) => self.enter_error_document(status),
                }
            },
            _ => self.finish(Response::fallback_for_status(Status::OtherServerError)),
        }
    }
}

/// A resolution in the state before its first action.
fn new_resolution(request: Request, config: &Config) -> (r: Resolution)
    requires
        request.wf(),
    ensures
        r.spec_request() == request,
        r@ == (ResolutionView {
            meta: request.template_context.meta@,
            markup: request.template_context.markup,
            protocol: request.protocol,
            public_root: config@.public_root_path,
            errdocs_root: config@.errdocs_path,
            os_path: config@.public_root_path + request.url.path@,
            mode: Mode::Routing,
            candidates: Seq::empty(),
            index: 0,
            pass: Pass::Exact,
            pending: Pending::Nothing,
        }),
{
    let os_path = str_concat(config.public_root_path(), request.url.path.as_str());
    let r = Resolution {
        request,
        public_root: config.public_root_path().to_owned(),
        errdocs_root: config.errdocs_path().to_owned(),
        os_path,
        mode: Mode::Routing,
        candidates: Vec::new(),
        index: 0,
        pass: Pass::Exact,
        pending: Pending::Nothing,
    };
    assert(r@.candidates =~= Seq::<CandidateView>::empty());
    r
}

/// Starts the resolution of a request (see `route_start`): the first action
/// is to find out whether the requested path, below the public root, is a
/// directory. From then on `Resolution::step` leads to the response.
pub fn route_request(request: Request, config: &Config) -> (r: (Resolution, Action))
    requires
        request.wf(),
    ensures
        r.0.wf(),
        r.0.spec_request() == request,
        (r.0@, r.1@) == route_start(
            request.template_context.meta@,
            request.template_context.markup,
            request.protocol,
            config@.public_root_path,
            config@.errdocs_path,
            request.url.path@,
        ),
{
    let mut resolution = new_resolution(request, config);
    resolution.pending = Pending::Stat;
    let path = resolution.os_path.clone();
    (resolution, Action::Stat(path))
}

impl Response {
    /// Starts the making of the response for a status (see `error_start`):
    /// the error document of the status is looked for, one extension of the
    /// request's protocol after the other, and where none loads the response
    /// is the plain text of the status. No error document leads to another.
    /// From the first action on `Resolution::step` leads to the response.
    pub fn new_for_request_and_status(request: Request, config: &Config, status: Status) -> (r: (
        Resolution,
        Action,
    ))
        requires
            request.wf(),
        ensures
            r.0.wf(),
            same_frame(r.0.spec_request(), request),
            (r.0@, r.1@) == error_start(
                request.template_context.meta@,
                request.template_context.markup,
                request.protocol,
                config@.public_root_path,
                config@.errdocs_path,
                request.url.path@,
                status,
            ),
    {
        let resolution = new_resolution(request, config);
        resolution.enter_error_document(status)
    }
}

/// Among the candidates for a path that is no directory, the path as it is
/// named goes first, unless it ends in `.md`, and the Markdown source goes
/// last: a file that is there as named is served before any file that only
/// its extension or its conversion makes.
pub proof fn lemma_exact_goes_first(os_path: Seq<char>, protocol: Protocol)
    ensures
        !ends_with(os_path, ".md"@) ==> route_candidates(os_path, false, protocol)[0] == plain(
            os_path,
        ),
        route_candidates(os_path, false, protocol).last().markdown,
        forall|i: int|
            0 <= i < route_candidates(os_path, false, protocol).len() - 1 ==> !(
            #[trigger] route_candidates(os_path, false, protocol)[i]).markdown,
        route_candidates(os_path, false, protocol).len() == protocol.spec_extensions().len() + (
        if ends_with(os_path, ".md"@) {
            1nat
        } else {
            2nat
        }),
{
}

/// The candidates for a directory are its `index.hbs` first, then one index
/// file for each extension of the protocol; none of them is Markdown.
pub proof fn lemma_directory_index_goes_first(os_path: Seq<char>, protocol: Protocol)
    ensures
        route_candidates(os_path, true, protocol)[0] == plain(
            with_slash(os_path) + "index.hbs"@,
        ),
        route_candidates(os_path, true, protocol).len() == protocol.spec_extensions().len() + 1,
        forall|i: int|
            0 <= i < route_candidates(os_path, true, protocol).len() ==> !(
            #[trigger] route_candidates(os_path, true, protocol)[i]).markdown,
{
}

/// How many steps the making of an error document takes at most.
pub open spec fn error_document_steps(protocol: Protocol) -> int {
    8 * (protocol.spec_extensions().len() as int) + 1
}

/// How many steps a resolution has at most before it once the current
/// attempt is over: those of the template pass that may follow an exact
/// pass, of the candidates that follow, and, while a request is routed, of
/// the error document that may follow.
pub open spec fn steps_after_attempt(s: ResolutionView) -> int {
    (if s.pass == Pass::Exact {
        4int
    } else {
        0int
    }) + 8 * (s.candidates.len() - s.index - 1) + (match s.mode {
        Mode::Routing => error_document_steps(s.protocol),
        Mode::ErrorDocument(_) => 0,
    })
}

/// How many steps a resolution has at most before it: the steps of the
/// current attempt and those after it.
pub open spec fn steps_left(s: ResolutionView) -> int {
    match s.pending {
        Pending::Nothing => 0,
        Pending::Stat => 8 * (s.protocol.spec_extensions().len() as int + 2)
            + error_document_steps(s.protocol) + 1,
        Pending::MarkdownOutput => 1 + error_document_steps(s.protocol),
        Pending::Probe => 4 + steps_after_attempt(s),
        Pending::Contents => 3 + steps_after_attempt(s),
        Pending::TemplateOutput => 2 + steps_after_attempt(s),
    }
}

/// Whether a state has no more candidates than its mode allows: two more
/// than the protocol has extensions for a request, as many as the protocol
/// has extensions for an error document.
pub open spec fn candidates_bounded(s: ResolutionView) -> bool {
    match s.mode {
        Mode::Routing => s.candidates.len() <= s.protocol.spec_extensions().len() + 2,
        Mode::ErrorDocument(_) => s.candidates.len() <= s.protocol.spec_extensions().len(),
    }
}

/// Turning to an error document leaves fewer steps than an error document
/// takes at most.
proof fn lemma_error_document_is_short(s: ResolutionView, status: Status)
    ensures
        0 <= steps_left(enter_error_document(s, status).0) < error_document_steps(s.protocol),
        candidates_bounded(enter_error_document(s, status).0),
        enter_error_document(s, status).0.protocol == s.protocol,
{
}

/// Going on to the next candidate leaves no more steps than there are after
/// the candidates that follow.
proof fn lemma_next_candidate_is_shorter(s: ResolutionView)
    requires
        0 <= s.index < s.candidates.len(),
        candidates_bounded(s),
    ensures
        0 <= steps_left(next_candidate(s).0) <= steps_after_attempt(
            ResolutionView { pass: Pass::Template, ..s },
        ),
        candidates_bounded(next_candidate(s).0),
        next_candidate(s).0.protocol == s.protocol,
{
    if s.index + 1 >= s.candidates.len() && s.mode is Routing {
        lemma_error_document_is_short(s, Status::NotFound);
    }
}

/// A failed attempt leaves no more steps than there are after the attempt.
proof fn lemma_attempt_failed_is_shorter(s: ResolutionView, status: Status)
    requires
        0 <= s.index < s.candidates.len(),
        candidates_bounded(s),
    ensures
        0 <= steps_left(attempt_failed(s, status).0) <= steps_after_attempt(s),
        candidates_bounded(attempt_failed(s, status).0),
        attempt_failed(s, status).0.protocol == s.protocol,
{
    lemma_next_candidate_is_shorter(s);
    lemma_error_document_is_short(s, status);
}

/// A loaded candidate leaves at most the one step of rendering converted
/// Markdown and the steps of an error document.
proof fn lemma_candidate_loaded_is_shorter(s: ResolutionView, response: ResponseView)
    requires
        0 <= s.index < s.candidates.len(),
        candidates_bounded(s),
    ensures
        0 <= steps_left(candidate_loaded(s, response).0) <= 1 + (match s.mode {
            Mode::Routing => error_document_steps(s.protocol),
            Mode::ErrorDocument(_) => 0,
        }),
        candidates_bounded(candidate_loaded(s, response).0),
        candidate_loaded(s, response).0.protocol == s.protocol,
{
    lemma_error_document_is_short(s, Status::OtherServerError);
}

/// A file that was read leaves fewer steps than there were while it was
/// waited for.
proof fn lemma_file_read_is_shorter(s: ResolutionView, file: CachedFileView)
    requires
        0 <= s.index < s.candidates.len(),
        candidates_bounded(s),
    ensures
        0 <= steps_left(file_read(s, file).0) < 3 + steps_after_attempt(s),
        candidates_bounded(file_read(s, file).0),
        file_read(s, file).0.protocol == s.protocol,
{
    let stamped = ResolutionView { meta: stamped_meta(s.meta, file), ..s };
    lemma_candidate_loaded_is_shorter(
        stamped,
        loaded_response(attempt_path(s.candidates[s.index], s.pass), file.data, s.protocol),
    );
    lemma_attempt_failed_is_shorter(stamped, Status::OtherServerError);
}

/// The candidates of a requested path are at most two more than the
/// protocol has extensions.
proof fn lemma_path_known_is_shorter(s: ResolutionView, is_directory: bool)
    ensures
        0 <= steps_left(path_known(s, is_directory).0) <= 8 * (
        s.protocol.spec_extensions().len() as int + 2) + error_document_steps(s.protocol),
        candidates_bounded(path_known(s, is_directory).0),
        path_known(s, is_directory).0.protocol == s.protocol,
{
    let routed = ResolutionView {
        markup: markup_for_path(s.os_path, s.markup),
        mode: Mode::Routing,
        candidates: route_candidates(s.os_path, is_directory, s.protocol),
        index: 0,
        ..s
    };
    lemma_error_document_is_short(routed, Status::NotFound);
}

/// Every resolution ends: each step leaves fewer steps to go, of which there
/// are never more than fifty, so that after a bounded number of actions the
/// response is made. In particular the making of an error document never
/// starts the making of another.
pub proof fn lemma_resolution_ends(s: ResolutionView, answer: AnswerView)
    requires
        state_wf(s),
        s.pending != Pending::Nothing,
        candidates_bounded(s),
    ensures
        0 <= steps_left(step(s, answer).0) < steps_left(s),
        candidates_bounded(step(s, answer).0),
        step(s, answer).0.protocol == s.protocol,
        steps_left(s) <= 50,
{
    match (s.pending, answer) {
        (Pending::Stat, AnswerView::Stat(is_directory)) => {
            lemma_path_known_is_shorter(s, is_directory);
        },
        (Pending::Probe, AnswerView::Probed(probe)) => {
            match probe_verdict(probe, s.public_root, s.errdocs_root) {
                Ok(_) => {},
                Err(status) => {
                    lemma_attempt_failed_is_shorter(s, status);
                },
            }
        },
        (Pending::Contents, AnswerView::Read(file)) => {
            match file {
                Some(file) => {
                    lemma_file_read_is_shorter(s, file);
                },
                None => {
                    lemma_attempt_failed_is_shorter(s, Status::Unauthorized);
                },
            }
        },
        (Pending::TemplateOutput, AnswerView::Rendered(output)) => {
            match response_for_rendered(output, s.markup) {
                Ok(response) => {
                    lemma_candidate_loaded_is_shorter(s, response);
                },
                Err(status) => {
                    lemma_attempt_failed_is_shorter(s, status);
                },
            }
        },
        (Pending::MarkdownOutput, AnswerView::Rendered(output)) => {
            match response_for_rendered(output, s.markup) {
                Ok(_) => {},
                Err(status) => {
                    lemma_error_document_is_short(s, status);
                },
            }
        },
        _ => {},
    }
}

/// Whether every answer of a list is one to what the resolution waits for
/// when it gets that answer, as long as the resolution goes on.
pub open spec fn answered_in_turn(s: ResolutionView, given: Seq<AnswerView>) -> bool
    decreases given.len(),
{
    if given.len() == 0 || s.pending == Pending::Nothing {
        true
    } else {
        self::answers(s.pending, given[0]) && answered_in_turn(
            step(s, given[0]).0,
            given.drop_first(),
        )
    }
}

/// The response that a resolution sends when it gets the given answers one
/// after the other; `None` where the answers run out before.
pub open spec fn response_after(s: ResolutionView, given: Seq<AnswerView>) -> Option<
    ResponseView,
>
    decreases given.len(),
{
    if given.len() == 0 {
        None
    } else {
        match step(s, given[0]).1 {
            ActionView::Respond(response) => Some(response),
            _ => response_after(step(s, given[0]).0, given.drop_first()),
        }
    }
}

/// Whatever the file system and the engine answer, the making of the error
/// document of a status ends, if it ends, with a response of that status.
pub proof fn lemma_error_document_responds_with_status(
    s: ResolutionView,
    given: Seq<AnswerView>,
    status: Status,
)
    requires
        s.mode == Mode::ErrorDocument(status),
        s.pending == Pending::Probe || s.pending == Pending::Contents || s.pending
            == Pending::TemplateOutput,
        answered_in_turn(s, given),
    ensures
        response_after(s, given) matches Some(response) ==> response.status == status,
    decreases given.len(),
{
    if given.len() > 0 {
        lemma_error_document_keeps_status(s, given[0], status);
        let next = step(s, given[0]).0;
        if !(step(s, given[0]).1 is Respond) {
            lemma_error_document_responds_with_status(next, given.drop_first(), status);
        }
    }
}

/// A request whose path leads outside both roots is answered with a client
/// error: once the probe of a routed request shows such a path, whatever is
/// answered from then on, the response that is sent in the end has the
/// status of a client error, and the path is never handed out to be read
/// (see `lemma_reads_only_what_may_be_served`).
pub proof fn lemma_traversal_responds_with_client_error(
    s: ResolutionView,
    probe: FileProbeView,
    given: Seq<AnswerView>,
)
    requires
        s.mode == Mode::Routing,
        s.pending == Pending::Probe,
        probe.canonical matches Some(path) && !is_strict_descendant(path, s.public_root)
            && !is_strict_descendant(path, s.errdocs_root),
        answered_in_turn(s, seq![AnswerView::Probed(probe)] + given),
    ensures
        response_after(s, seq![AnswerView::Probed(probe)] + given) matches Some(response)
            ==> response.status == Status::OtherClientError,
{
    let all = seq![AnswerView::Probed(probe)] + given;
    assert(all[0] == AnswerView::Probed(probe));
    assert(all.drop_first() =~= given);
    lemma_traversal_is_refused(s, probe);
    let next = step(s, all[0]).0;
    if !(step(s, all[0]).1 is Respond) {
        lemma_error_document_responds_with_status(next, given, Status::OtherClientError);
    }
}

} // verus!
