//! Markup modes, and the control block by which rendered output sets the
//! status, the media type or a redirect of the response.

use vstd::prelude::*;
use vstd::string::*;
use vstd::utf8::{decode_utf8, encode_utf8, valid_utf8};
use crate::context::PageMetadata;
use crate::json::{
    elements_view, json_text, json_to_value, lemma_elements_index, Json, JsonValue,
};
use crate::protocol::Protocol;
use crate::request::Request;
use crate::response::{Response, ResponseView, Status, UnknownStatusError};
use crate::md2gemtext::{convert, gemtext_of};
use crate::text::{
    ends_with, remove_all, split_last_line, str_concat, str_eq, str_remove_all,
    str_split_last_line, utf8_to_string,
};

verus! {

broadcast use vstd::string::group_string_axioms;

/// The name of the partial that renders to nothing.
pub const DEFAULT_BLANK_PARTIAL_NAME: &'static str = "blank";

/// The directive put behind every template: it makes the engine print the
/// control block as the last line of its output.
pub const CONTROL_DIRECTIVE: &'static str = "\n{{private-context-serialize}}";

/// The text format of a response body.
#[derive(Copy, Clone, Debug, PartialEq, Eq, Structural)]
pub enum Markup {
    Html,
    Gemtext,
    Markdown,
}

/// A text that names no markup.
#[derive(Copy, Clone, Debug, PartialEq, Eq, Structural)]
pub struct ParseMarkupError;

impl ParseMarkupError {
    /// The error's name.
    pub fn to_string(&self) -> (s: String)
        ensures
            s@ == "ParseMarkupError"@,
    {
        "ParseMarkupError".to_owned()
    }
}

impl Markup {
    /// The name of the markup.
    pub open spec fn name(self) -> Seq<char> {
        match self {
            Markup::Gemtext => "Gemtext"@,
            Markup::Html => "HTML"@,
            Markup::Markdown => "Markdown"@,
        }
    }

    /// The markup that a name stands for.
    pub open spec fn from_name(s: Seq<char>) -> Option<Markup> {
        if s == "Gemtext"@ {
            Some(Markup::Gemtext)
        } else if s == "HTML"@ {
            Some(Markup::Html)
        } else if s == "Markdown"@ {
            Some(Markup::Markdown)
        } else {
            None
        }
    }

    /// The markup in which a protocol's clients read.
    pub open spec fn spec_default_for_protocol(protocol: Protocol) -> Markup {
        match protocol {
            Protocol::Gemini => Markup::Gemtext,
            Protocol::Https => Markup::Html,
        }
    }

    /// The media type under which a body in this markup is sent.
    pub open spec fn spec_media_type(self) -> Seq<char> {
        match self {
            Markup::Gemtext => Protocol::Gemini.spec_media_type(),
            Markup::Html => Protocol::Https.spec_media_type(),
            Markup::Markdown => "text/markdown; charset=utf-8"@,
        }
    }

    /// The name of the markup as a string.
    pub fn to_string(&self) -> (s: String)
        ensures
            s@ == self.name(),
    {
        match self {
            Markup::Gemtext => "Gemtext".to_owned(),
            Markup::Html => "HTML".to_owned(),
            Markup::Markdown => "Markdown".to_owned(),
        }
    }

    /// Reads the name of a markup.
    pub fn from_str(s: &str) -> (r: Result<Markup, ParseMarkupError>)
        ensures
            r == match Markup::from_name(s@) {
                Some(m) => Ok::<Markup, ParseMarkupError>(m),
                None => Err(ParseMarkupError),
            },
    {
        if str_eq(s, "Gemtext") {
            Ok(Markup::Gemtext)
        } else if str_eq(s, "HTML") {
            Ok(Markup::Html)
        } else if str_eq(s, "Markdown") {
            Ok(Markup::Markdown)
        } else {
            Err(ParseMarkupError)
        }
    }

    /// The markup in which a protocol's clients read.
    pub fn default_for_protocol(protocol: Protocol) -> (m: Markup)
        ensures
            m == Markup::spec_default_for_protocol(protocol),
    {
        match protocol {
            Protocol::Gemini => Markup::Gemtext,
            Protocol::Https => Markup::Html,
        }
    }

    /// The media type under which a body in this markup is sent.
    pub fn media_type(&self) -> (s: String)
        ensures
            s@ == self.spec_media_type(),
    {
        match self {
            Markup::Gemtext => Protocol::Gemini.media_type(),
            Markup::Html => Protocol::Https.media_type(),
            Markup::Markdown => "text/markdown; charset=utf-8".to_owned(),
        }
    }

    /// Reading the name of a markup gives that markup back.
    pub proof fn lemma_name_round_trip(self)
        ensures
            Markup::from_name(self.name()) == Some(self),
    {
        reveal_strlit("Gemtext");
        reveal_strlit("HTML");
        reveal_strlit("Markdown");
        assert("Gemtext"@.len() == 7);
        assert("HTML"@.len() == 4);
        assert("Markdown"@.len() == 8);
    }
}

/// What rendered output may set of the response. Every field may be absent.
#[derive(Clone, Debug, PartialEq, Eq)]
pub struct TemplateResponseContext {
    pub status: Option<String>,
    pub media_type: Option<String>,
    pub redirect_uri: Option<String>,
    pub redirect_permanent: Option<bool>,
}

/// The mathematical value of a `TemplateResponseContext`.
pub ghost struct ControlView {
    pub status: Option<Seq<char>>,
    pub media_type: Option<Seq<char>>,
    pub redirect_uri: Option<Seq<char>>,
    pub redirect_permanent: Option<bool>,
}

/// The value of an optional text.
pub open spec fn text_view(t: Option<String>) -> Option<Seq<char>> {
    match t {
        Some(s) => Some(s@),
        None => None,
    }
}

impl View for TemplateResponseContext {
    type V = ControlView;

    open spec fn view(&self) -> ControlView {
        ControlView {
            status: text_view(self.status),
            media_type: text_view(self.media_type),
            redirect_uri: text_view(self.redirect_uri),
            redirect_permanent: self.redirect_permanent,
        }
    }
}

/// The control block that sets nothing.
pub open spec fn control_absent() -> ControlView {
    ControlView { status: None, media_type: None, redirect_uri: None, redirect_permanent: None }
}

/// Whether a member of a control block may be read as an optional value of
/// the kind `is_kind` accepts: it is missing, null, or of that kind.
pub open spec fn member_fits(
    m: Map<Seq<char>, JsonValue>,
    key: Seq<char>,
    is_kind: spec_fn(JsonValue) -> bool,
) -> bool {
    !m.dom().contains(key) || m[key] is Null || is_kind(m[key])
}

/// The text under `key`, if the member is there and is a string.
pub open spec fn member_text(m: Map<Seq<char>, JsonValue>, key: Seq<char>) -> Option<Seq<char>> {
    if m.dom().contains(key) && m[key] is String {
        Some(m[key]->String_0)
    } else {
        None
    }
}

/// The truth value under `key`, if the member is there and is a boolean.
pub open spec fn member_flag(m: Map<Seq<char>, JsonValue>, key: Seq<char>) -> Option<bool> {
    if m.dom().contains(key) && m[key] is Bool {
        Some(m[key]->Bool_0)
    } else {
        None
    }
}

/// The control block that a document holds. The document must be an
/// object; of its members `status`, `media_type` and `redirect_uri` each is a
/// string, null or missing, and `redirect_permanent` is a boolean, null or
/// missing. Any other document sets nothing at all.
pub open spec fn control_of(doc: JsonValue) -> ControlView {
    match doc {
        JsonValue::Object(m) => if member_fits(m, "status"@, |v: JsonValue| v is String)
            && member_fits(m, "media_type"@, |v: JsonValue| v is String) && member_fits(
            m,
            "redirect_uri"@,
            |v: JsonValue| v is String,
        ) && member_fits(m, "redirect_permanent"@, |v: JsonValue| v is Bool) {
            ControlView {
                status: member_text(m, "status"@),
                media_type: member_text(m, "media_type"@),
                redirect_uri: member_text(m, "redirect_uri"@),
                redirect_permanent: member_flag(m, "redirect_permanent"@),
            }
        } else {
            control_absent()
        },
        _ => control_absent(),
    }
}

/// The body of rendered output: everything before its last line feed, or
/// all of it where it holds none.
pub open spec fn rendered_body(raw: Seq<char>) -> Seq<char> {
    match split_last_line(raw) {
        Some((head, _)) => head,
        None => raw,
    }
}

/// The control block of rendered output: what its last line holds where that
/// line is JSON. Output without a line feed, and a last line that is not
/// JSON, set nothing.
pub open spec fn rendered_control(raw: Seq<char>) -> ControlView {
    match split_last_line(raw) {
        Some((_, tail)) => match json_text(tail) {
            Some(doc) => control_of(doc),
            None => control_absent(),
        },
        None => control_absent(),
    }
}

/// The status that a control block asks for. With a redirect target it is a
/// redirect: permanent where the permanence flag is set, temporary
/// otherwise. Without a target it is the status that the status token names,
/// success for a token that names none; without a token, the redirect that
/// the permanence flag names; success otherwise.
pub open spec fn control_status(control: ControlView) -> Status {
    match control.redirect_uri {
        Some(_) => match control.redirect_permanent {
            Some(true) => Status::PermanentRedirect,
            _ => Status::TemporaryRedirect,
        },
        None => match control.status {
            Some(token) => match Status::from_token(token) {
                Some(status) => status,
                None => Status::Success,
            },
            None => match control.redirect_permanent {
                Some(true) => Status::PermanentRedirect,
                Some(false) => Status::TemporaryRedirect,
                None => Status::Success,
            },
        },
    }
}

/// The response that rendered output stands for. With a redirect target in
/// the control block it is a redirect to that target, without body and media
/// type. Otherwise it carries the body under the media type that the
/// control block names or, failing that, the one of the markup. It is never
/// cacheable.
pub open spec fn rendered_response(body: Seq<char>, control: ControlView, markup: Markup)
    -> ResponseView {
    match control.redirect_uri {
        Some(target) => ResponseView {
            status: control_status(control),
            media_type: Seq::empty(),
            redirect_uri: target,
            body: Seq::empty(),
            cacheable: false,
        },
        None => ResponseView {
            status: control_status(control),
            media_type: match control.media_type {
                Some(media_type) => media_type,
                None => markup.spec_media_type(),
            },
            redirect_uri: Seq::empty(),
            body: encode_utf8(body),
            cacheable: false,
        },
    }
}

impl TemplateResponseContext {
    /// The control block that sets nothing.
    pub fn absent() -> (r: TemplateResponseContext)
        ensures
            r@ == control_absent(),
    {
        TemplateResponseContext {
            status: None,
            media_type: None,
            redirect_uri: None,
            redirect_permanent: None,
        }
    }

    /// The control block that a document holds (see `control_of`).
    pub fn from_json(doc: &Json) -> (r: TemplateResponseContext)
        requires
            doc.wf(),
        ensures
            r@ == control_of(doc@),
    {
        if !doc.is_object() {
            return TemplateResponseContext::absent();
        }
        let status = match read_text(doc, "status") {
            Ok(v) => v,
            Err(_) => {
                return TemplateResponseContext::absent();
            },
        };
        let media_type = match read_text(doc, "media_type") {
            Ok(v) => v,
            Err(_) => {
                return TemplateResponseContext::absent();
            },
        };
        let redirect_uri = match read_text(doc, "redirect_uri") {
            Ok(v) => v,
            Err(_) => {
                return TemplateResponseContext::absent();
            },
        };
        let redirect_permanent = match doc.get("redirect_permanent") {
            None => None,
            Some(value) => match value {
                Json::Null => None,
                Json::Bool(b) => Some(*b),
                _ => {
                    return TemplateResponseContext::absent();
                },
            },
        };
        TemplateResponseContext { status, media_type, redirect_uri, redirect_permanent }
    }

    /// The status that this control block asks for (see `control_status`).
    pub fn status(&self) -> (s: Status)
        ensures
            s == control_status(self@),
    {
        match &self.redirect_uri {
            Some(_) => match self.redirect_permanent {
                Some(true) => Status::PermanentRedirect,
                _ => Status::TemporaryRedirect,
            },
            None => match &self.status {
                Some(token) => match Status::from_str(token.as_str()) {
                    Ok(status) => status,
                    Err(_) => Status::Success,
                },
                None => match self.redirect_permanent {
                    Some(true) => Status::PermanentRedirect,
                    Some(false) => Status::TemporaryRedirect,
                    None => Status::Success,
                },
            },
        }
    }

    /// The response for a rendered body under this control block (see
    /// `rendered_response`).
    pub fn respond(&self, body: &str, markup: Markup) -> (r: Response)
        ensures
            r@ == rendered_response(body@, self@, markup),
    {
        let status = self.status();
        match &self.redirect_uri {
            Some(target) => Response::new_with_redirect_uri(status, target.as_str()),
            None => {
                let media_type = match &self.media_type {
                    Some(media_type) => media_type.clone(),
                    None => markup.media_type(),
                };
                Response::new(status, media_type.as_str(), body.as_bytes(), false)
            },
        }
    }
}

/// The optional text under `key` of an object; an error where the member is
/// neither a string nor null.
fn read_text(doc: &Json, key: &str) -> (r: Result<Option<String>, UnknownStatusError>)
    requires
        doc.wf(),
        doc@ is Object,
    ensures
        r is Ok <==> member_fits(doc@->Object_0, key@, |v: JsonValue| v is String),
        r matches Ok(t) ==> text_view(t) == member_text(doc@->Object_0, key@),
{
    match doc.get(key) {
        None => Ok(None),
        Some(value) => match value {
            Json::Null => Ok(None),
            Json::String(s) => Ok(Some(s.clone())),
            _ => Err(UnknownStatusError),
        },
    }
}

/// Splits rendered output into its body and its control block.
pub fn split_rendered(raw: &str) -> (r: (String, TemplateResponseContext))
    ensures
        r.0@ == rendered_body(raw@),
        r.1@ == rendered_control(raw@),
{
    match str_split_last_line(raw) {
        Some((head, tail)) => {
            let control = match Json::parse(tail.as_str()) {
                Some(doc) => TemplateResponseContext::from_json(&doc),
                None => TemplateResponseContext::absent(),
            };
            (head, control)
        },
        None => (raw.to_owned(), TemplateResponseContext::absent()),
    }
}

/// The response for what the engine made of a template: for rendered output
/// the response that its body and control block stand for, for a failed
/// rendering the status of a server error.
pub open spec fn response_for_rendered(rendered: Option<Seq<char>>, markup: Markup) -> Result<
    ResponseView,
    Status,
> {
    match rendered {
        Some(raw) => Ok(rendered_response(rendered_body(raw), rendered_control(raw), markup)),
        None => Err(Status::OtherServerError),
    }
}

/// Turns what the engine made of a template into a response (see
/// `response_for_rendered`).
pub fn respond_to_rendered(rendered: Option<&str>, markup: Markup) -> (r: Result<Response, Status>)
    ensures
        response_result_view(r) == response_for_rendered(text_view_ref(rendered), markup),
{
    match rendered {
        Some(raw) => {
            let (body, control) = split_rendered(raw);
            Ok(control.respond(body.as_str(), markup))
        },
        None => Err(Status::OtherServerError),
    }
}

/// The value of an optional borrowed text.
pub open spec fn text_view_ref(t: Option<&str>) -> Option<Seq<char>> {
    match t {
        Some(s) => Some(s@),
        None => None,
    }
}

/// The values that a template can read of the request it is rendered for.
#[derive(Debug)]
pub struct TemplateRequestContext {
    pub meta: Json,
    pub data: Json,
    pub posts: Vec<PageMetadata>,
    pub peer_addr: String,
    pub path: String,
    pub is_authenticated: bool,
    pub is_anonymous: bool,
    pub common_name: String,
    pub protocol: Protocol,
    pub markup: Markup,
    pub is_gemini: bool,
    pub is_https: bool,
    pub os_platform: String,
}

/// The documents of a list of pages.
pub open spec fn post_documents(posts: Seq<PageMetadata>) -> Seq<JsonValue> {
    Seq::new(posts.len(), |i: int| posts[i].document())
}

impl TemplateRequestContext {
    /// Metadata and data are well-formed documents.
    pub open spec fn wf(&self) -> bool {
        self.meta.wf() && self.data.wf()
    }

    /// The document that is handed to the engine: one member for each value
    /// of the context, protocol and markup by their names.
    pub open spec fn document(&self) -> JsonValue {
        JsonValue::Object(
            Map::<Seq<char>, JsonValue>::empty().insert("meta"@, self.meta@).insert(
                "data"@,
                self.data@,
            ).insert("posts"@, JsonValue::Array(post_documents(self.posts@))).insert(
                "peer_addr"@,
                JsonValue::String(self.peer_addr@),
            ).insert("path"@, JsonValue::String(self.path@)).insert(
                "is_authenticated"@,
                JsonValue::Bool(self.is_authenticated),
            ).insert("is_anonymous"@, JsonValue::Bool(self.is_anonymous)).insert(
                "common_name"@,
                JsonValue::String(self.common_name@),
            ).insert("protocol"@, JsonValue::String(self.protocol.name())).insert(
                "markup"@,
                JsonValue::String(self.markup.name()),
            ).insert("is_gemini"@, JsonValue::Bool(self.is_gemini)).insert(
                "is_https"@,
                JsonValue::Bool(self.is_https),
            ).insert("os_platform"@, JsonValue::String(self.os_platform@)),
        )
    }

    /// The context as the document that is handed to the engine (see
    /// `document`).
    pub fn to_json(&self) -> (r: Json)
        requires
            self.wf(),
        ensures
            r.wf(),
            r@ == self.document(),
    {
        let mut posts: Vec<Json> = Vec::new();
        let mut i: usize = 0;
        while i < self.posts.len()
            invariant
                i <= self.posts.len(),
                posts.len() == i,
                forall|t: int|
                    0 <= t < i ==> (#[trigger] posts@[t]).wf() && posts@[t]@
                        == self.posts@[t].document(),
            decreases self.posts.len() - i,
        {
            posts.push(self.posts[i].to_json());
            i += 1;
        }
        proof {
            lemma_elements_index(posts@, posts@.len());
            assert(elements_view(posts@, posts@.len()) =~= post_documents(self.posts@));
        }
        let mut doc = Json::new_object();
        doc.set_member("meta", self.meta.duplicate());
        doc.set_member("data", self.data.duplicate());
        doc.set_member("posts", Json::Array(posts));
        doc.set_member("peer_addr", Json::new_string(self.peer_addr.as_str()));
        doc.set_member("path", Json::new_string(self.path.as_str()));
        doc.set_member("is_authenticated", Json::Bool(self.is_authenticated));
        doc.set_member("is_anonymous", Json::Bool(self.is_anonymous));
        doc.set_member("common_name", Json::new_string(self.common_name.as_str()));
        doc.set_member("protocol", Json::new_string(self.protocol.to_string().as_str()));
        doc.set_member("markup", Json::new_string(self.markup.to_string().as_str()));
        doc.set_member("is_gemini", Json::Bool(self.is_gemini));
        doc.set_member("is_https", Json::Bool(self.is_https));
        doc.set_member("os_platform", Json::new_string(self.os_platform.as_str()));
        doc
    }
}

/// The registry of templates, helpers and decorators that renders.
#[verifier::external_type_specification]
#[verifier::external_body]
pub struct ExTemplateEngine<'reg>(handlebars::Handlebars<'reg>);

/// Renders a template with a context document
/// (`Handlebars::render_template`). The output depends on what is registered
/// with the engine, and helpers may read the clock or draw random numbers:
/// nothing is claimed of it. `None` stands for a failed rendering.
#[verifier::external_body]
fn engine_render(
    engine: &handlebars::Handlebars<'static>,
    template: &str,
    context: &serde_json::Value,
) -> (r: Option<String>)
    requires
        ends_with(template@, CONTROL_DIRECTIVE@),
{
    engine.render_template(template, context).ok()
}

/// The names under which an engine holds a template.
pub uninterp spec fn engine_templates(engine: handlebars::Handlebars<'static>) -> Set<Seq<char>>;

/// Whether the engine's compiler accepts a text as the source of a template,
/// which it does unless the text has a syntax error.
pub uninterp spec fn template_accepted(source: Seq<char>) -> bool;

/// Registers the source of a template under a name
/// (`Handlebars::register_template_string`); tells whether the engine took
/// it. The engine compiles the source first, and the compiler reads nothing
/// but the source: where it accepts the source, the engine holds the
/// template under the name from then on, in place of what it held under that
/// name; where the source has a syntax error, the engine holds what it held.
#[verifier::external_body]
fn engine_register(engine: &mut handlebars::Handlebars<'static>, name: &str, source: &str) -> (r:
    bool)
    ensures
        r == template_accepted(source@),
        r ==> engine_templates(*final(engine)) == engine_templates(*old(engine)).insert(name@),
        !r ==> engine_templates(*final(engine)) == engine_templates(*old(engine)),
{
    engine.register_template_string(name, source).is_ok()
}

/// Renders a template for a request. The control directive is put behind
/// the template, so that the output ends with the line of the control block;
/// the context is handed over as its document. `None` stands for a failed
/// rendering. What the engine prints is not known here: `respond_to_rendered`
/// says what response each output makes.
pub fn render_template(
    engine: &handlebars::Handlebars<'static>,
    context: &TemplateRequestContext,
    template_string: &str,
) -> (r: Option<String>)
    requires
        context.wf(),
{
    let template = str_concat(template_string, CONTROL_DIRECTIVE);
    proof {
        assert(template@.subrange(
            template@.len() - CONTROL_DIRECTIVE@.len(),
            template@.len() as int,
        ) =~= CONTROL_DIRECTIVE@);
    }
    let document = context.to_json();
    let value = json_to_value(&document);
    engine_render(engine, template.as_str(), &value)
}

/// What became of a partial file.
#[derive(Copy, Clone, Debug, PartialEq, Eq, Structural)]
pub enum PartialOutcome {
    /// The file is no partial: it does not end in `.hbs` or lies outside the
    /// root of the partials.
    Skipped,
    /// The file is not UTF-8.
    NotUtf8,
    /// The engine refused the source.
    Refused,
    /// The partial is registered under its name.
    Registered,
}

/// What becomes of a partial file: a file that is no partial is skipped, a
/// partial that is not UTF-8 is not handed to the engine, and any other is
/// registered where the engine's compiler accepts its text and refused where
/// it does not.
pub open spec fn partial_outcome(path: Seq<char>, partials_root: Seq<char>, data: Seq<u8>)
    -> PartialOutcome {
    if crate::context::relative_stem(path, partials_root, ".hbs"@) is None {
        PartialOutcome::Skipped
    } else if !valid_utf8(data) {
        PartialOutcome::NotUtf8
    } else if template_accepted(decode_utf8(data)) {
        PartialOutcome::Registered
    } else {
        PartialOutcome::Refused
    }
}

/// Registers the template of one partial file with the engine, under the
/// file's path below the root of the partials without `.hbs` (see
/// `partial_outcome`). Only a registered partial changes the engine, which
/// holds a template under the partial's name from then on.
pub fn register_partial_file(
    engine: &mut handlebars::Handlebars<'static>,
    path: &str,
    partials_root: &str,
    data: &[u8],
) -> (r: PartialOutcome)
    ensures
        r == partial_outcome(path@, partials_root@, data@),
        r == PartialOutcome::Registered ==> engine_templates(*final(engine)) == engine_templates(
            *old(engine),
        ).insert(crate::context::relative_stem(path@, partials_root@, ".hbs"@)->Some_0),
        r != PartialOutcome::Registered ==> engine_templates(*final(engine)) == engine_templates(
            *old(engine),
        ),
{
    match crate::context::partial_name_for_path(path, partials_root) {
        None => PartialOutcome::Skipped,
        Some(name) => match utf8_to_string(data) {
            None => PartialOutcome::NotUtf8,
            Some(source) => {
                if engine_register(engine, name.as_str(), source.as_str()) {
                    PartialOutcome::Registered
                } else {
                    PartialOutcome::Refused
                }
            },
        },
    }
}

/// Registers the partial that renders to nothing, under
/// `DEFAULT_BLANK_PARTIAL_NAME`; tells whether the engine took it, which it
/// does where its compiler accepts the empty text. Where it did, the engine
/// holds a template under that name from then on; where it did not, it holds
/// what it held.
pub fn register_blank_partial(engine: &mut handlebars::Handlebars<'static>) -> (r: bool)
    ensures
        r == template_accepted(""@),
        r ==> engine_templates(*final(engine)) == engine_templates(*old(engine)).insert(
            DEFAULT_BLANK_PARTIAL_NAME@,
        ),
        !r ==> engine_templates(*final(engine)) == engine_templates(*old(engine)),
{
    engine_register(engine, DEFAULT_BLANK_PARTIAL_NAME, "")
}

/// The name of the partial that a template asks for by a base name, under
/// the markup with the given name: the base name with `.gmi` for Gemtext,
/// with `.html` for HTML, and the blank partial for any other markup.
pub open spec fn partial_for_markup(markup_name: Seq<char>, base: Seq<char>) -> Seq<char> {
    if markup_name == "Gemtext"@ {
        base + ".gmi"@
    } else if markup_name == "HTML"@ {
        base + ".html"@
    } else {
        DEFAULT_BLANK_PARTIAL_NAME@
    }
}

/// The name of the partial for a base name under a markup (see
/// `partial_for_markup`).
pub fn partial_name_for_markup(markup_name: &str, base: &str) -> (r: String)
    ensures
        r@ == partial_for_markup(markup_name@, base@),
{
    if str_eq(markup_name, "Gemtext") {
        str_concat(base, ".gmi")
    } else if str_eq(markup_name, "HTML") {
        str_concat(base, ".html")
    } else {
        DEFAULT_BLANK_PARTIAL_NAME.to_owned()
    }
}

/// The HTML that the Markdown library makes of a text, with the HTML in the
/// text let through; `None` where the library refuses the text.
pub uninterp spec fn markdown_html(text: Seq<char>) -> Option<Seq<char>>;

/// Converts Markdown to HTML (`markdown::to_html_with_options`, with
/// `allow_dangerous_html` set in otherwise default options). The library
/// reads nothing but the text.
#[verifier::external_body]
fn markdown_to_html(text: &str) -> (r: Option<String>)
    ensures
        text_view(r) == markdown_html(text@),
{
    let mut options = markdown::Options::default();
    options.compile.allow_dangerous_html = true;
    markdown::to_html_with_options(text, &options).ok()
}

/// A text without the tags that shield template directives from a markup
/// converter: every `<?POSTPROCESS` and every `POSTPROCESS?>` is taken out,
/// together with the one space inside it, if there is one.
pub open spec fn without_postprocess_tags(text: Seq<char>) -> Seq<char> {
    remove_all(
        remove_all(
            remove_all(remove_all(text, "<?POSTPROCESS "@), "<?POSTPROCESS"@),
            " POSTPROCESS?>"@,
        ),
        "POSTPROCESS?>"@,
    )
}

/// Takes the shielding tags out of a text (see `without_postprocess_tags`).
pub fn strip_postprocess_tags(text: &str) -> (r: String)
    ensures
        r@ == without_postprocess_tags(text@),
{
    let a = str_remove_all(text, "<?POSTPROCESS ");
    let b = str_remove_all(a.as_str(), "<?POSTPROCESS");
    let c = str_remove_all(b.as_str(), " POSTPROCESS?>");
    str_remove_all(c.as_str(), "POSTPROCESS?>")
}

/// The template that a Markdown text makes under a markup: the text
/// converted to Gemtext or to HTML, or left as it is for Markdown, in each
/// case without the shielding tags. `None` where the conversion fails.
pub open spec fn markdown_rendered(text: Seq<char>, markup: Markup) -> Option<Seq<char>> {
    let converted = match markup {
        Markup::Gemtext => gemtext_of(text),
        Markup::Html => markdown_html(text),
        Markup::Markdown => Some(text),
    };
    match converted {
        Some(out) => Some(without_postprocess_tags(out)),
        None => None,
    }
}

/// The template that the body of a loaded Markdown document makes under a
/// markup (see `markdown_rendered`); `None` where the body is not UTF-8 or
/// the conversion fails.
pub open spec fn markdown_template(body: Seq<u8>, markup: Markup) -> Option<Seq<char>> {
    if !valid_utf8(body) {
        None
    } else {
        markdown_rendered(decode_utf8(body), markup)
    }
}

/// Converts a Markdown text for a markup (see `markdown_rendered`).
pub fn render_markdown(text: &str, markup: Markup) -> (r: Option<String>)
    ensures
        text_view(r) == markdown_rendered(text@, markup),
{
    let converted = match markup {
        Markup::Gemtext => convert(text),
        Markup::Html => markdown_to_html(text),
        Markup::Markdown => Some(text.to_owned()),
    };
    match converted {
        Some(out) => Some(strip_postprocess_tags(out.as_str())),
        None => None,
    }
}

/// Makes the template of a loaded Markdown document (see
/// `markdown_template`). The template is then rendered like any other, and
/// its output makes the response.
pub fn markdown_template_for_response(response: &Response, markup: Markup) -> (r: Option<String>)
    ensures
        text_view(r) == markdown_template(response@.body, markup),
{
    match utf8_to_string(response.body()) {
        Some(text) => render_markdown(text.as_str(), markup),
        None => None,
    }
}

/// Without a redirect target, a status that the control block names by its
/// token is the status of the response, whatever the body, the markup and
/// the other fields are.
pub proof fn lemma_control_status_decides(
    body: Seq<char>,
    control: ControlView,
    markup: Markup,
    status: Status,
)
    requires
        control.redirect_uri is None,
        control.status == Some(status.token()),
    ensures
        rendered_response(body, control, markup).status == status,
{
    status.lemma_token_round_trip();
}

/// A redirect target in the control block makes a redirect, whatever else
/// the control block and the body hold: the response carries the target, a
/// redirect status, and neither body nor media type.
pub proof fn lemma_redirect_target_decides(
    body: Seq<char>,
    control: ControlView,
    markup: Markup,
    target: Seq<char>,
)
    requires
        control.redirect_uri == Some(target),
    ensures
        rendered_response(body, control, markup).status.is_redirect(),
        rendered_response(body, control, markup).redirect_uri == target,
        rendered_response(body, control, markup).body.len() == 0,
        rendered_response(body, control, markup).media_type.len() == 0,
{
}

/// Rendered output whose last line is not JSON, or holds none of the four
/// fields, makes a plain success in the media type of the markup: reading
/// the control block never fails a request.
pub proof fn lemma_missing_control_is_success(raw: Seq<char>, markup: Markup)
    requires
        rendered_control(raw) == control_absent(),
    ensures
        response_for_rendered(Some(raw), markup) == Ok::<ResponseView, Status>(
            ResponseView {
                status: Status::Success,
                media_type: markup.spec_media_type(),
                redirect_uri: Seq::empty(),
                body: encode_utf8(rendered_body(raw)),
                cacheable: false,
            },
        ),
{
}

/// The value of a response or a status.
pub open spec fn response_result_view(r: Result<Response, Status>) -> Result<ResponseView, Status> {
    match r {
        Ok(response) => Ok(response@),
        Err(status) => Err(status),
    }
}

/// Renders the body of a loaded response as a template for a request and
/// makes the response of the output. A body that is not UTF-8 is a server
/// error. Otherwise the engine decides: the result is what
/// `response_for_rendered` gives for its output, or for its failure, under
/// the markup of the request.
pub fn render_response_body_for_request(
    engine: &handlebars::Handlebars<'static>,
    request: &Request,
    response: &Response,
) -> (r: Result<Response, Status>)
    requires
        request.wf(),
    ensures
        !valid_utf8(response@.body) ==> response_result_view(r) == Err::<ResponseView, Status>(
            Status::OtherServerError,
        ),
        valid_utf8(response@.body) ==> exists|rendered: Option<Seq<char>>|
            response_result_view(r) == #[trigger] response_for_rendered(
                rendered,
                request.template_context.markup,
            ),
{
    match utf8_to_string(response.body()) {
        None => Err(Status::OtherServerError),
        Some(source) => {
            let output = render_template(engine, &request.template_context, source.as_str());
            let rendered = match &output {
                Some(raw) => Some(raw.as_str()),
                None => None,
            };
            let r = respond_to_rendered(rendered, request.template_context.markup);
            assert(response_result_view(r) == response_for_rendered(
                text_view_ref(rendered),
                request.template_context.markup,
            ));
            r
        },
    }
}

/// Converts the Markdown body of a loaded response for the markup of a
/// request, renders the outcome as a template and makes the response of the
/// output. A body that cannot be converted (see `markdown_template`) is a
/// server error. Otherwise the engine decides, as in
/// `render_response_body_for_request`.
pub fn render_markdown_response_for_request(
    engine: &handlebars::Handlebars<'static>,
    request: &Request,
    response: &Response,
) -> (r: Result<Response, Status>)
    requires
        request.wf(),
    ensures
        markdown_template(response@.body, request.template_context.markup) is None
            ==> response_result_view(r) == Err::<ResponseView, Status>(Status::OtherServerError),
        markdown_template(response@.body, request.template_context.markup) is Some
            ==> exists|rendered: Option<Seq<char>>|
            response_result_view(r) == #[trigger] response_for_rendered(
                rendered,
                request.template_context.markup,
            ),
{
    match markdown_template_for_response(response, request.template_context.markup) {
        None => Err(Status::OtherServerError),
        Some(source) => {
            let output = render_template(engine, &request.template_context, source.as_str());
            let rendered = match &output {
                Some(raw) => Some(raw.as_str()),
                None => None,
            };
            let r = respond_to_rendered(rendered, request.template_context.markup);
            assert(response_result_view(r) == response_for_rendered(
                text_view_ref(rendered),
                request.template_context.markup,
            ));
            r
        },
    }
}

} // verus!
