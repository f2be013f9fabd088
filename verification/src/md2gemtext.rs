//! Conversion of Markdown to Gemtext: the events of a Markdown parser are
//! folded into lines of Gemtext, with the links of a paragraph put on lines
//! of their own behind it.

use vstd::prelude::*;
use vstd::string::*;
use pulldown_cmark::{Event, Tag, TagEnd};
use crate::text::{chars_range, from_chars, starts_with, str_concat, str_eq, to_chars};

verus! {

broadcast use vstd::string::group_string_axioms;

/// One line of a Gemtext document.
#[derive(Clone, Debug, PartialEq, Eq)]
pub enum Node {
    Text(String),
    Link { to: String, name: Option<String> },
    Preformatted(String),
    Heading { level: u8, body: String },
    ListItem(String),
    Quote(String),
}

/// The mathematical value of a `Node`.
pub ghost enum NodeView {
    Text(Seq<char>),
    Link { to: Seq<char>, name: Option<Seq<char>> },
    Preformatted(Seq<char>),
    Heading { level: u8, body: Seq<char> },
    ListItem(Seq<char>),
    Quote(Seq<char>),
}

impl View for Node {
    type V = NodeView;

    open spec fn view(&self) -> NodeView {
        match self {
            Node::Text(body) => NodeView::Text(body@),
            Node::Link { to, name } => NodeView::Link {
                to: to@,
                name: match name {
                    Some(n) => Some(n@),
                    None => None,
                },
            },
            Node::Preformatted(body) => NodeView::Preformatted(body@),
            Node::Heading { level, body } => NodeView::Heading { level: *level, body: body@ },
            Node::ListItem(body) => NodeView::ListItem(body@),
            Node::Quote(body) => NodeView::Quote(body@),
        }
    }
}

/// The values of a list of lines.
pub open spec fn nodes_view(nodes: Seq<Node>) -> Seq<NodeView> {
    Seq::new(nodes.len(), |i: int| nodes[i]@)
}

/// The values of a list of clusters of lines.
pub open spec fn clusters_view(clusters: Seq<Vec<Node>>) -> Seq<Seq<NodeView>> {
    Seq::new(clusters.len(), |i: int| nodes_view(clusters[i]@))
}

/// The values of a list of texts.
pub open spec fn texts_view(texts: Seq<String>) -> Seq<Seq<char>> {
    Seq::new(texts.len(), |i: int| texts[i]@)
}

/// The opening of a Markdown element.
#[derive(Clone, Debug, PartialEq, Eq)]
pub enum MdTag {
    Paragraph,
    /// A heading of the given level, 1 to 6.
    Heading(u8),
    BlockQuote,
    CodeBlock,
    HtmlBlock,
    List,
    Item,
    Emphasis,
    Strong,
    /// A link to the given target.
    Link(String),
    /// An image at the given address.
    Image(String),
    /// An element that is not converted.
    Other,
}

/// The closing of a Markdown element.
#[derive(Copy, Clone, Debug, PartialEq, Eq, Structural)]
pub enum MdTagEnd {
    Paragraph,
    Heading,
    BlockQuote,
    CodeBlock,
    HtmlBlock,
    List,
    Item,
    Emphasis,
    Strong,
    Link,
    Image,
    /// An element that is not converted.
    Other,
}

/// One event of a Markdown parser.
#[derive(Clone, Debug, PartialEq, Eq)]
pub enum MdEvent {
    Start(MdTag),
    End(MdTagEnd),
    Text(String),
    Code(String),
    Html(String),
    SoftBreak,
    HardBreak,
    Rule,
    /// An event that is not converted.
    Other,
}

/// The mathematical value of an `MdTag`.
pub ghost enum MdTagView {
    Paragraph,
    Heading(u8),
    BlockQuote,
    CodeBlock,
    HtmlBlock,
    List,
    Item,
    Emphasis,
    Strong,
    Link(Seq<char>),
    Image(Seq<char>),
    Other,
}

/// The mathematical value of an `MdEvent`.
pub ghost enum MdEventView {
    Start(MdTagView),
    End(MdTagEnd),
    Text(Seq<char>),
    Code(Seq<char>),
    Html(Seq<char>),
    SoftBreak,
    HardBreak,
    Rule,
    Other,
}

impl View for MdTag {
    type V = MdTagView;

    open spec fn view(&self) -> MdTagView {
        match self {
            MdTag::Paragraph => MdTagView::Paragraph,
            MdTag::Heading(level) => MdTagView::Heading(*level),
            MdTag::BlockQuote => MdTagView::BlockQuote,
            MdTag::CodeBlock => MdTagView::CodeBlock,
            MdTag::HtmlBlock => MdTagView::HtmlBlock,
            MdTag::List => MdTagView::List,
            MdTag::Item => MdTagView::Item,
            MdTag::Emphasis => MdTagView::Emphasis,
            MdTag::Strong => MdTagView::Strong,
            MdTag::Link(to) => MdTagView::Link(to@),
            MdTag::Image(to) => MdTagView::Image(to@),
            MdTag::Other => MdTagView::Other,
        }
    }
}

impl View for MdEvent {
    type V = MdEventView;

    open spec fn view(&self) -> MdEventView {
        match self {
            MdEvent::Start(tag) => MdEventView::Start(tag@),
            MdEvent::End(tag) => MdEventView::End(*tag),
            MdEvent::Text(text) => MdEventView::Text(text@),
            MdEvent::Code(code) => MdEventView::Code(code@),
            MdEvent::Html(html) => MdEventView::Html(html@),
            MdEvent::SoftBreak => MdEventView::SoftBreak,
            MdEvent::HardBreak => MdEventView::HardBreak,
            MdEvent::Rule => MdEventView::Rule,
            MdEvent::Other => MdEventView::Other,
        }
    }
}

/// The values of a list of events.
pub open spec fn events_view(events: Seq<MdEvent>) -> Seq<MdEventView> {
    Seq::new(events.len(), |i: int| events[i]@)
}

/// The kind of line that the pending text will make.
#[derive(Copy, Clone, Debug, PartialEq, Eq, Structural)]
pub enum NodeType {
    Text,
    Preformatted,
    Heading { level: u8 },
    ListItem,
    Quote,
}

impl NodeType {
    /// Hands the kind out and leaves plain text behind.
    pub fn take(&mut self) -> (r: NodeType)
        ensures
            r == *old(self),
            *final(self) == NodeType::Text,
    {
        let taken = *self;
        *self = NodeType::Text;
        taken
    }

    /// The line of this kind with the given body.
    pub open spec fn spec_construct(self, body: Seq<char>) -> NodeView {
        match self {
            NodeType::Text => NodeView::Text(body),
            NodeType::Preformatted => NodeView::Preformatted(body),
            NodeType::Heading { level } => NodeView::Heading { level, body },
            NodeType::ListItem => NodeView::ListItem(body),
            NodeType::Quote => NodeView::Quote(body),
        }
    }

    /// The line of this kind with the given body.
    pub fn construct(self, body: String) -> (r: Node)
        ensures
            r@ == self.spec_construct(body@),
    {
        match self {
            NodeType::Text => Node::Text(body),
            NodeType::Preformatted => Node::Preformatted(body),
            NodeType::Heading { level } => Node::Heading { level, body },
            NodeType::ListItem => Node::ListItem(body),
            NodeType::Quote => Node::Quote(body),
        }
    }
}

/// Whether a character is white space: one of the characters with the
/// Unicode property `White_Space`.
pub open spec fn is_white_space(c: char) -> bool {
    let u = c as u32;
    (0x09 <= u <= 0x0d) || u == 0x20 || u == 0x85 || u == 0xa0 || u == 0x1680 || (0x2000 <= u
        <= 0x200a) || u == 0x2028 || u == 0x2029 || u == 0x202f || u == 0x205f || u == 0x3000
}

/// Position of the first character at or after `from` that is not white
/// space, or the length of `s`.
pub open spec fn skip_white(s: Seq<char>, from: int) -> int
    decreases s.len() - from,
{
    if from < 0 || from >= s.len() {
        s.len() as int
    } else if !is_white_space(s[from]) {
        from
    } else {
        skip_white(s, from + 1)
    }
}

/// Position behind the last character before `before` that is not white
/// space, or 0.
pub open spec fn back_white(s: Seq<char>, before: int) -> int
    decreases before,
{
    if before <= 0 || before > s.len() {
        0
    } else if !is_white_space(s[before - 1]) {
        before
    } else {
        back_white(s, before - 1)
    }
}

/// `s` without the white space at its start and at its end.
pub open spec fn trimmed(s: Seq<char>) -> Seq<char> {
    let start = skip_white(s, 0);
    let end = back_white(s, s.len() as int);
    if start >= end {
        Seq::empty()
    } else {
        s.subrange(start, end)
    }
}

/// Whether a character is white space.
pub fn char_is_white_space(c: char) -> (r: bool)
    ensures
        r == is_white_space(c),
{
    let u: u32 = c as u32;
    (0x09 <= u && u <= 0x0d) || u == 0x20 || u == 0x85 || u == 0xa0 || u == 0x1680 || (0x2000 <= u
        && u <= 0x200a) || u == 0x2028 || u == 0x2029 || u == 0x202f || u == 0x205f || u == 0x3000
}

/// `s` without the white space at its start and at its end.
pub fn trim(s: &str) -> (r: String)
    ensures
        r@ == trimmed(s@),
{
    let chars = to_chars(s);
    let mut start: usize = 0;
    while start < chars.len() && char_is_white_space(chars[start])
        invariant
            start <= chars.len(),
            skip_white(chars@, 0) == skip_white(chars@, start as int),
        decreases chars.len() - start,
    {
        start += 1;
    }
    let mut end: usize = chars.len();
    while end > 0 && char_is_white_space(chars[end - 1])
        invariant
            end <= chars.len(),
            back_white(chars@, chars@.len() as int) == back_white(chars@, end as int),
        decreases end,
    {
        end -= 1;
    }
    if start >= end {
        String::new()
    } else {
        let kept = chars_range(chars.as_slice(), start, end);
        from_chars(kept.as_slice())
    }
}

/// The state of a conversion.
pub ghost struct StateView {
    /// The lines made so far, in clusters that an empty line will separate.
    pub nodes: Seq<Seq<NodeView>>,
    /// The text of the line in the making.
    pub content: Seq<char>,
    /// The kind of the line in the making.
    pub node_type: NodeType,
    /// The links met in the line in the making.
    pub links: Seq<NodeView>,
    /// The texts of the links that are open, the innermost last.
    pub link_texts: Seq<Seq<char>>,
}

/// The state before the first event.
pub open spec fn initial_state() -> StateView {
    StateView {
        nodes: Seq::empty(),
        content: Seq::empty(),
        node_type: NodeType::Text,
        links: Seq::empty(),
        link_texts: Seq::empty(),
    }
}

/// The heading level of Gemtext for a heading level of Markdown: levels
/// beyond the third count as the third.
pub open spec fn heading_level(level: u8) -> u8 {
    if level == 1 {
        1
    } else if level == 2 {
        2
    } else {
        3
    }
}

/// Text is added to the line in the making and to every open link.
pub open spec fn add_text(s: StateView, text: Seq<char>) -> StateView {
    StateView {
        content: s.content + text,
        link_texts: Seq::new(s.link_texts.len(), |i: int| s.link_texts[i] + text),
        ..s
    }
}

/// Inline code is added to the line in the making between backticks.
pub open spec fn add_inline_code(s: StateView, code: Seq<char>) -> StateView {
    StateView { content: s.content + "`"@ + code + "`"@, ..s }
}

/// A link opens: until it closes it is named by its target.
pub open spec fn start_link(s: StateView, to: Seq<char>) -> StateView {
    StateView {
        link_texts: s.link_texts.push(Seq::empty()),
        links: s.links.push(NodeView::Link { to, name: Some(to) }),
        ..s
    }
}

/// An image opens like a link, and is announced in the line in the making.
pub open spec fn start_image(s: StateView, to: Seq<char>) -> StateView {
    StateView { content: s.content + "[image: "@, ..start_link(s, to) }
}

/// The innermost open link closes and takes the name `name(text)`, where
/// `text` is what was added while it was open. Without an open link nothing
/// happens; an open text without a link is dropped.
pub open spec fn close_link(s: StateView, name: spec_fn(Seq<char>) -> Seq<char>) -> StateView {
    if s.link_texts.len() == 0 {
        s
    } else {
        let text = s.link_texts.last();
        let texts = s.link_texts.drop_last();
        if s.links.len() == 0 {
            StateView { link_texts: texts, ..s }
        } else {
            match s.links.last() {
                NodeView::Link { to, name: _ } => StateView {
                    link_texts: texts,
                    links: s.links.drop_last().push(NodeView::Link { to, name: Some(name(text)) }),
                    ..s
                },
                _ => StateView { link_texts: texts, links: s.links.drop_last(), ..s },
            }
        }
    }
}

/// A link closes and is named by its text.
pub open spec fn finish_link(s: StateView) -> StateView {
    close_link(s, |text: Seq<char>| text)
}

/// An image closes and is named by its text in brackets.
pub open spec fn finish_image(s: StateView) -> StateView {
    let closed = close_link(s, |text: Seq<char>| "[image: "@ + text + "]"@);
    StateView { content: closed.content + "]"@, ..closed }
}

/// A list ends: what follows starts a new cluster.
pub open spec fn finish_list(s: StateView) -> StateView {
    StateView { nodes: s.nodes.push(Seq::empty()), ..s }
}

/// Whether the line in the making joins the last cluster: it is a list item
/// and so is the last line made.
pub open spec fn joins_last_cluster(s: StateView) -> bool {
    s.node_type == NodeType::ListItem && s.nodes.len() > 0 && s.nodes.last().len() > 0
        && s.nodes.last().last() is ListItem
}

/// The line in the making is made: its trimmed text as a line of its kind,
/// followed by its links, in the last cluster if it joins it and in a new
/// cluster otherwise.
pub open spec fn finish_node(s: StateView) -> StateView {
    let line = s.node_type.spec_construct(trimmed(s.content));
    let nodes = if joins_last_cluster(s) {
        s.nodes
    } else {
        s.nodes.push(Seq::empty())
    };
    StateView {
        nodes: nodes.drop_last().push(nodes.last().push(line) + s.links),
        content: Seq::empty(),
        node_type: NodeType::Text,
        links: Seq::empty(),
        link_texts: s.link_texts,
    }
}

/// A rule is a line of five dashes.
pub open spec fn add_rule(s: StateView) -> StateView {
    finish_node(add_text(s, "-----"@))
}

/// The state after one event; `None` for an event that is not converted.
pub open spec fn apply(s: StateView, event: MdEventView) -> Option<StateView> {
    match event {
        MdEventView::Start(tag) => match tag {
            MdTagView::Paragraph => Some(s),
            MdTagView::Heading(level) => Some(
                StateView { node_type: NodeType::Heading { level: heading_level(level) }, ..s },
            ),
            MdTagView::BlockQuote => Some(StateView { node_type: NodeType::Quote, ..s }),
            MdTagView::CodeBlock => Some(StateView { node_type: NodeType::Preformatted, ..s }),
            MdTagView::HtmlBlock => Some(s),
            MdTagView::List => Some(s),
            MdTagView::Item => Some(StateView { node_type: NodeType::ListItem, ..s }),
            MdTagView::Emphasis => Some(add_text(s, "_"@)),
            MdTagView::Strong => Some(add_text(s, "**"@)),
            MdTagView::Link(to) => Some(start_link(s, to)),
            MdTagView::Image(to) => Some(start_image(s, to)),
            MdTagView::Other => None,
        },
        MdEventView::End(tag) => match tag {
            MdTagEnd::Paragraph => Some(finish_node(s)),
            MdTagEnd::Heading => Some(finish_node(s)),
            MdTagEnd::BlockQuote => Some(s),
            MdTagEnd::CodeBlock => Some(finish_node(s)),
            MdTagEnd::HtmlBlock => Some(finish_node(s)),
            MdTagEnd::List => Some(finish_list(s)),
            MdTagEnd::Item => Some(finish_node(s)),
            MdTagEnd::Emphasis => Some(add_text(s, "_"@)),
            MdTagEnd::Strong => Some(add_text(s, "**"@)),
            MdTagEnd::Link => Some(finish_link(s)),
            MdTagEnd::Image => Some(finish_image(s)),
            MdTagEnd::Other => None,
        },
        MdEventView::Text(text) => Some(add_text(s, text)),
        MdEventView::Code(code) => Some(add_inline_code(s, code)),
        MdEventView::Html(html) => Some(add_text(s, html)),
        MdEventView::SoftBreak => Some(add_text(s, " "@)),
        MdEventView::HardBreak => Some(finish_node(s)),
        MdEventView::Rule => Some(add_rule(s)),
        MdEventView::Other => None,
    }
}

/// The state after the first `n` events; `None` once an event among them is
/// not converted.
pub open spec fn run(events: Seq<MdEventView>, n: nat) -> Option<StateView>
    decreases n,
{
    if n == 0 || n > events.len() {
        Some(initial_state())
    } else {
        match run(events, (n - 1) as nat) {
            Some(s) => apply(s, events[n - 1]),
            None => None,
        }
    }
}

/// A cluster of a text line and a link with that very text as its name is
/// the link alone.
pub open spec fn condensed(cluster: Seq<NodeView>) -> Seq<NodeView> {
    if cluster.len() == 2 && cluster[0] is Text && cluster[1] is Link && cluster[1]->name == Some(
        cluster[0]->Text_0,
    ) {
        seq![cluster[1]]
    } else {
        cluster
    }
}

/// The empty line of text.
pub open spec fn blank() -> NodeView {
    NodeView::Text(Seq::empty())
}

/// The lines of the first `n` clusters: the clusters that are not empty,
/// each condensed, with an empty line between one and the next.
pub open spec fn assembled(clusters: Seq<Seq<NodeView>>, n: nat) -> Seq<NodeView>
    decreases n,
{
    if n == 0 || n > clusters.len() {
        Seq::empty()
    } else {
        let before = assembled(clusters, (n - 1) as nat);
        let cluster = clusters[n - 1];
        if cluster.len() == 0 {
            before
        } else if before.len() == 0 {
            condensed(cluster)
        } else {
            before + seq![blank()] + condensed(cluster)
        }
    }
}

/// Whether a text line needs a space in front, so that it is not read as a
/// line of another kind.
pub open spec fn starts_like_markup(body: Seq<char>) -> bool {
    starts_with(body, "=>"@) || starts_with(body, "```"@) || starts_with(body, "#"@)
        || starts_with(body, "*"@) || starts_with(body, ">"@)
}

/// `n` number signs.
pub open spec fn number_signs(n: nat) -> Seq<char> {
    Seq::new(n, |i: int| '#')
}

/// One line of Gemtext as text.
pub open spec fn rendered_node(node: NodeView) -> Seq<char> {
    match node {
        NodeView::Text(body) => (if starts_like_markup(body) {
            " "@
        } else {
            Seq::empty()
        }) + body + "\n"@,
        NodeView::Link { to, name } => match name {
            Some(name) => "=> "@ + to + " "@ + name + "\n"@,
            None => "=> "@ + to + "\n"@,
        },
        NodeView::Preformatted(body) => "```\n"@ + body + "\n```\n"@,
        NodeView::Heading { level, body } => number_signs(level as nat) + " "@ + body + "\n"@,
        NodeView::ListItem(body) => "* "@ + body + "\n"@,
        NodeView::Quote(body) => "> "@ + body + "\n"@,
    }
}

/// The first `n` lines of a Gemtext document as text.
pub open spec fn rendered_nodes(nodes: Seq<NodeView>, n: nat) -> Seq<char>
    decreases n,
{
    if n == 0 || n > nodes.len() {
        Seq::empty()
    } else {
        rendered_nodes(nodes, (n - 1) as nat) + rendered_node(nodes[n - 1])
    }
}

/// The Gemtext that a list of Markdown events converts to; `None` where an
/// event among them is not converted.
pub open spec fn gemtext_of_events(events: Seq<MdEventView>) -> Option<Seq<char>> {
    match run(events, events.len()) {
        Some(s) => {
            let lines = assembled(s.nodes, s.nodes.len());
            Some(rendered_nodes(lines, lines.len()))
        },
        None => None,
    }
}

/// The events that the Markdown parser reads in a text, without any of its
/// extensions.
pub uninterp spec fn markdown_events(text: Seq<char>) -> Seq<MdEventView>;

/// The Gemtext that a Markdown text converts to; `None` where the text
/// holds what is not converted, such as HTML within a line.
pub open spec fn gemtext_of(text: Seq<char>) -> Option<Seq<char>> {
    gemtext_of_events(markdown_events(text))
}

/// The opening of a Markdown element as the parser hands it out.
#[verifier::external_type_specification]
#[verifier::external_body]
pub struct ExParserTag<'a>(pulldown_cmark::Tag<'a>);

/// The closing of a Markdown element as the parser hands it out.
#[verifier::external_type_specification]
#[verifier::external_body]
pub struct ExParserTagEnd(pulldown_cmark::TagEnd);

/// An event as the parser hands it out.
#[verifier::external_type_specification]
#[verifier::external_body]
pub struct ExParserEvent<'a>(pulldown_cmark::Event<'a>);

/// Copies an opening tag of the parser (`pulldown_cmark::Tag`): the elements
/// that are converted keep their kind, a heading its level, a link or an
/// image its target; every other element is `Other`.
#[verifier::external_body]
fn tag_of(tag: &Tag<'_>) -> MdTag {
    match tag {
        Tag::Paragraph => MdTag::Paragraph,
        Tag::Heading { level, .. } => MdTag::Heading(*level as u8),
        Tag::BlockQuote(_) => MdTag::BlockQuote,
        Tag::CodeBlock(_) => MdTag::CodeBlock,
        Tag::HtmlBlock => MdTag::HtmlBlock,
        Tag::List(_) => MdTag::List,
        Tag::Item => MdTag::Item,
        Tag::Emphasis => MdTag::Emphasis,
        Tag::Strong => MdTag::Strong,
        Tag::Link { dest_url, .. } => MdTag::Link(dest_url.to_string()),
        Tag::Image { dest_url, .. } => MdTag::Image(dest_url.to_string()),
        _ => MdTag::Other,
    }
}

/// Copies a closing tag of the parser (`pulldown_cmark::TagEnd`): the
/// elements that are converted keep their kind, every other is `Other`.
#[verifier::external_body]
fn tag_end_of(tag: &TagEnd) -> MdTagEnd {
    match tag {
        TagEnd::Paragraph => MdTagEnd::Paragraph,
        TagEnd::Heading(_) => MdTagEnd::Heading,
        TagEnd::BlockQuote(_) => MdTagEnd::BlockQuote,
        TagEnd::CodeBlock => MdTagEnd::CodeBlock,
        TagEnd::HtmlBlock => MdTagEnd::HtmlBlock,
        TagEnd::List(_) => MdTagEnd::List,
        TagEnd::Item => MdTagEnd::Item,
        TagEnd::Emphasis => MdTagEnd::Emphasis,
        TagEnd::Strong => MdTagEnd::Strong,
        TagEnd::Link => MdTagEnd::Link,
        TagEnd::Image => MdTagEnd::Image,
        _ => MdTagEnd::Other,
    }
}

/// Copies an event of the parser (`pulldown_cmark::Event`): the events that
/// are converted keep their kind and their text, every other is `Other`.
#[verifier::external_body]
fn event_of(event: &Event<'_>) -> MdEvent {
    match event {
        Event::Start(tag) => MdEvent::Start(tag_of(tag)),
        Event::End(tag) => MdEvent::End(tag_end_of(tag)),
        Event::Text(text) => MdEvent::Text(text.to_string()),
        Event::Code(code) => MdEvent::Code(code.to_string()),
        Event::Html(html) => MdEvent::Html(html.to_string()),
        Event::SoftBreak => MdEvent::SoftBreak,
        Event::HardBreak => MdEvent::HardBreak,
        Event::Rule => MdEvent::Rule,
        _ => MdEvent::Other,
    }
}

/// Parses a Markdown text without extensions
/// (`pulldown_cmark::Parser::new_ext` with empty options) and hands out its
/// events in order. The parser reads nothing but the text.
#[verifier::external_body]
fn parse_markdown(text: &str) -> (r: Vec<MdEvent>)
    ensures
        events_view(r@) == markdown_events(text@),
{
    let parser = pulldown_cmark::Parser::new_ext(text, pulldown_cmark::Options::empty());
    parser.map(|event| event_of(&event)).collect()
}

/// Writes lines of Gemtext as text (`gemtext::render`): each line in the
/// form of its kind and closed by a line feed, a text line that starts like
/// another kind with a space in front.
#[verifier::external_body]
fn render_gemtext(nodes: &Vec<Node>) -> (r: String)
    ensures
        r@ == rendered_nodes(nodes_view(nodes@), nodes@.len()),
{
    let mut out: Vec<u8> = Vec::new();
    let lines = nodes.iter().cloned().map(|node| match node {
        Node::Text(body) => gemtext::Node::Text(body),
        Node::Link { to, name } => gemtext::Node::Link { to, name },
        Node::Preformatted(body) => gemtext::Node::Preformatted(body),
        Node::Heading { level, body } => gemtext::Node::Heading { level, body },
        Node::ListItem(body) => gemtext::Node::ListItem(body),
        Node::Quote(body) => gemtext::Node::Quote(body),
    }).collect();
    let _ = gemtext::render(lines, &mut out);
    String::from_utf8(out).unwrap_or_default()
}

/// The state of a conversion.
pub struct State {
    nodes: Vec<Vec<Node>>,
    pending_node_content: String,
    pending_node_type: NodeType,
    pending_links: Vec<Node>,
    link_text_stack: Vec<String>,
}

impl View for State {
    type V = StateView;

    closed spec fn view(&self) -> StateView {
        StateView {
            nodes: clusters_view(self.nodes@),
            content: self.pending_node_content@,
            node_type: self.pending_node_type,
            links: nodes_view(self.pending_links@),
            link_texts: texts_view(self.link_text_stack@),
        }
    }
}

/// A copy of a line.
fn copy_node(node: &Node) -> (r: Node)
    ensures
        r@ == node@,
{
    match node {
        Node::Text(body) => Node::Text(body.clone()),
        Node::Link { to, name } => Node::Link { to: to.clone(), name: name.clone() },
        Node::Preformatted(body) => Node::Preformatted(body.clone()),
        Node::Heading { level, body } => Node::Heading { level: *level, body: body.clone() },
        Node::ListItem(body) => Node::ListItem(body.clone()),
        Node::Quote(body) => Node::Quote(body.clone()),
    }
}

impl State {
    /// The state before the first event.
    pub fn new() -> (r: State)
        ensures
            r@ == initial_state(),
    {
        let r = State {
            nodes: Vec::new(),
            pending_node_content: String::new(),
            pending_node_type: NodeType::Text,
            pending_links: Vec::new(),
            link_text_stack: Vec::new(),
        };
        assert(r@.nodes =~= Seq::<Seq<NodeView>>::empty());
        assert(r@.links =~= Seq::<NodeView>::empty());
        assert(r@.link_texts =~= Seq::<Seq<char>>::empty());
        r
    }

    fn start_heading(&mut self, level: u8)
        ensures
            final(self)@ == (StateView {
                node_type: NodeType::Heading { level: heading_level(level) },
                ..old(self)@
            }),
    {
        let level: u8 = if level == 1 {
            1
        } else if level == 2 {
            2
        } else {
            3
        };
        self.pending_node_type = NodeType::Heading { level };
    }

    fn start(&mut self, node_type: NodeType)
        ensures
            final(self)@ == (StateView { node_type, ..old(self)@ }),
    {
        self.pending_node_type = node_type;
    }

    fn add_text(&mut self, text: &str)
        ensures
            final(self)@ == add_text(old(self)@, text@),
    {
        let mut i: usize = 0;
        let mut texts: Vec<String> = Vec::new();
        while i < self.link_text_stack.len()
            invariant
                i <= self.link_text_stack.len(),
                texts.len() == i,
                *self == *old(self),
                forall|t: int|
                    0 <= t < i ==> (#[trigger] texts@[t])@ == self.link_text_stack@[t]@ + text@,
            decreases self.link_text_stack.len() - i,
        {
            texts.push(str_concat(self.link_text_stack[i].as_str(), text));
            i += 1;
        }
        self.link_text_stack = texts;
        self.pending_node_content.append(text);
        assert(final(self)@.link_texts =~= add_text(old(self)@, text@).link_texts);
    }

    fn add_inline_code(&mut self, code: &str)
        ensures
            final(self)@ == add_inline_code(old(self)@, code@),
    {
        self.pending_node_content.append("`");
        self.pending_node_content.append(code);
        self.pending_node_content.append("`");
    }

    fn start_link(&mut self, dest_url: &str)
        ensures
            final(self)@ == start_link(old(self)@, dest_url@),
    {
        self.link_text_stack.push(String::new());
        self.pending_links.push(
            Node::Link { to: dest_url.to_owned(), name: Some(dest_url.to_owned()) },
        );
        assert(final(self)@.link_texts =~= start_link(old(self)@, dest_url@).link_texts);
        assert(final(self)@.links =~= start_link(old(self)@, dest_url@).links);
    }

    fn start_image(&mut self, dest_url: &str)
        ensures
            final(self)@ == start_image(old(self)@, dest_url@),
    {
        self.start_link(dest_url);
        self.pending_node_content.append("[image: ");
    }

    /// Closes the innermost open link, named by its text, in brackets for
    /// an image.
    fn close_link(&mut self, image: bool)
        ensures
            final(self)@ == if image {
                close_link(old(self)@, |text: Seq<char>| "[image: "@ + text + "]"@)
            } else {
                close_link(old(self)@, |text: Seq<char>| text)
            },
    {
        let ghost before = self@;
        match self.link_text_stack.pop() {
            None => {
                assert(before.link_texts.len() == 0);
            },
            Some(text) => {
                assert(texts_view(self.link_text_stack@) =~= before.link_texts.drop_last());
                assert(text@ == before.link_texts.last());
                match self.pending_links.pop() {
                    None => {
                        assert(before.links.len() == 0);
                    },
                    Some(link) => {
                        assert(nodes_view(self.pending_links@) =~= before.links.drop_last());
                        assert(link@ == before.links.last());
                        match link {
                            Node::Link { to, name: _ } => {
                                let name = if image {
                                    str_concat(str_concat("[image: ", text.as_str()).as_str(), "]")
                                } else {
                                    text
                                };
                                let ghost shorter = self.pending_links@;
                                self.pending_links.push(Node::Link { to, name: Some(name) });
                                assert(nodes_view(self.pending_links@) =~= nodes_view(shorter).push(
                                    NodeView::Link { to: to@, name: Some(name@) },
                                ));
                            },
                            _ => {},
                        }
                    },
                }
            },
        }
    }

    fn finish_link(&mut self)
        ensures
            final(self)@ == finish_link(old(self)@),
    {
        self.close_link(false);
    }

    fn finish_image(&mut self)
        ensures
            final(self)@ == finish_image(old(self)@),
    {
        self.close_link(true);
        self.pending_node_content.append("]");
    }

    fn finish_list(&mut self)
        ensures
            final(self)@ == finish_list(old(self)@),
    {
        let fresh: Vec<Node> = Vec::new();
        assert(nodes_view(fresh@) =~= Seq::<NodeView>::empty());
        self.nodes.push(fresh);
        assert(final(self)@.nodes =~= finish_list(old(self)@).nodes);
    }

    /// Whether the line in the making joins the last cluster.
    fn joins_last(&self) -> (r: bool)
        ensures
            r == joins_last_cluster(self@),
    {
        match self.pending_node_type {
            NodeType::ListItem => {
                if self.nodes.len() == 0 {
                    return false;
                }
                let cluster = &self.nodes[self.nodes.len() - 1];
                if cluster.len() == 0 {
                    return false;
                }
                match &cluster[cluster.len() - 1] {
                    Node::ListItem(_) => true,
                    _ => false,
                }
            },
            _ => false,
        }
    }

    fn finish_node(&mut self)
        ensures
            final(self)@ == finish_node(old(self)@),
    {
        let ghost before = self@;
        let joins = self.joins_last();
        let mut cluster: Vec<Node> = if joins {
            match self.nodes.pop() {
                Some(cluster) => cluster,
                None => Vec::new(),
            }
        } else {
            Vec::new()
        };
        let ghost rest = self.nodes@;
        let ghost start = cluster@;
        proof {
            if joins {
                assert(clusters_view(rest) =~= before.nodes.drop_last());
                assert(nodes_view(start) == before.nodes.last());
            } else {
                assert(clusters_view(rest) =~= before.nodes.push(Seq::empty()).drop_last());
                assert(nodes_view(start) =~= before.nodes.push(Seq::empty()).last());
            }
        }
        let node_text = trim(self.pending_node_content.as_str());
        let new_node = self.pending_node_type.take().construct(node_text);
        cluster.push(new_node);
        let mut i: usize = 0;
        while i < self.pending_links.len()
            invariant
                i <= self.pending_links.len(),
                nodes_view(self.pending_links@) == before.links,
                self.nodes@ == rest,
                nodes_view(cluster@) == nodes_view(start).push(
                    before.node_type.spec_construct(trimmed(before.content)),
                ) + before.links.take(i as int),
            decreases self.pending_links.len() - i,
        {
            let ghost so_far = cluster@;
            cluster.push(copy_node(&self.pending_links[i]));
            i += 1;
            assert(nodes_view(cluster@) =~= nodes_view(so_far).push(before.links[i - 1]));
            assert(before.links.take(i as int) =~= before.links.take(i - 1).push(
                before.links[i - 1],
            ));
            assert(nodes_view(cluster@) =~= nodes_view(start).push(
                before.node_type.spec_construct(trimmed(before.content)),
            ) + before.links.take(i as int));
        }
        assert(before.links.take(before.links.len() as int) =~= before.links);
        self.pending_links = Vec::new();
        self.nodes.push(cluster);
        self.pending_node_content = String::new();
        assert(final(self)@.nodes =~= finish_node(before).nodes);
        assert(final(self)@.links =~= finish_node(before).links);
    }

    fn add_rule(&mut self)
        ensures
            final(self)@ == add_rule(old(self)@),
    {
        self.add_text("-----");
        self.finish_node();
    }

    /// Takes one event in; tells whether the event is converted. An event
    /// that is not leaves the state as it is.
    pub fn apply(&mut self, event: &MdEvent) -> (r: bool)
        ensures
            match apply(old(self)@, event@) {
                Some(s) => r && final(self)@ == s,
                None => !r && final(self)@ == old(self)@,
            },
    {
        match event {
            MdEvent::Start(tag) => match tag {
                MdTag::Paragraph => true,
                MdTag::Heading(level) => {
                    self.start_heading(*level);
                    true
                },
                MdTag::BlockQuote => {
                    self.start(NodeType::Quote);
                    true
                },
                MdTag::CodeBlock => {
                    self.start(NodeType::Preformatted);
                    true
                },
                MdTag::HtmlBlock => true,
                MdTag::List => true,
                MdTag::Item => {
                    self.start(NodeType::ListItem);
                    true
                },
                MdTag::Emphasis => {
                    self.add_text("_");
                    true
                },
                MdTag::Strong => {
                    self.add_text("**");
                    true
                },
                MdTag::Link(to) => {
                    self.start_link(to.as_str());
                    true
                },
                MdTag::Image(to) => {
                    self.start_image(to.as_str());
                    true
                },
                MdTag::Other => false,
            },
            MdEvent::End(tag) => match tag {
                MdTagEnd::Paragraph => {
                    self.finish_node();
                    true
                },
                MdTagEnd::Heading => {
                    self.finish_node();
                    true
                },
                MdTagEnd::BlockQuote => true,
                MdTagEnd::CodeBlock => {
                    self.finish_node();
                    true
                },
                MdTagEnd::HtmlBlock => {
                    self.finish_node();
                    true
                },
                MdTagEnd::List => {
                    self.finish_list();
                    true
                },
                MdTagEnd::Item => {
                    self.finish_node();
                    true
                },
                MdTagEnd::Emphasis => {
                    self.add_text("_");
                    true
                },
                MdTagEnd::Strong => {
                    self.add_text("**");
                    true
                },
                MdTagEnd::Link => {
                    self.finish_link();
                    true
                },
                MdTagEnd::Image => {
                    self.finish_image();
                    true
                },
                MdTagEnd::Other => false,
            },
            MdEvent::Text(text) => {
                self.add_text(text.as_str());
                true
            },
            MdEvent::Code(code) => {
                self.add_inline_code(code.as_str());
                true
            },
            MdEvent::Html(html) => {
                self.add_text(html.as_str());
                true
            },
            MdEvent::SoftBreak => {
                self.add_text(" ");
                true
            },
            MdEvent::HardBreak => {
                self.finish_node();
                true
            },
            MdEvent::Rule => {
                self.add_rule();
                true
            },
            MdEvent::Other => false,
        }
    }

    /// The lines made: the clusters that are not empty, each condensed, with
    /// an empty line between one and the next.
    pub fn into_nodes(self) -> (r: Vec<Node>)
        ensures
            nodes_view(r@) == assembled(self@.nodes, self@.nodes.len()),
    {
        let mut out: Vec<Node> = Vec::new();
        let mut i: usize = 0;
        assert(nodes_view(out@) =~= assembled(self@.nodes, 0));
        while i < self.nodes.len()
            invariant
                i <= self.nodes.len(),
                nodes_view(out@) == assembled(self@.nodes, i as nat),
            decreases self.nodes.len() - i,
        {
            let cluster = &self.nodes[i];
            let ghost before = out@;
            let ghost c = nodes_view(cluster@);
            assert(c == self@.nodes[i as int]);
            if cluster.len() > 0 {
                if out.len() > 0 {
                    out.push(Node::Text(String::new()));
                }
                let ghost joined = out@;
                assert(nodes_view(joined) =~= if before.len() > 0 {
                    nodes_view(before).push(blank())
                } else {
                    nodes_view(before)
                });
                let condense = cluster.len() == 2 && match (&cluster[0], &cluster[1]) {
                    (Node::Text(text), Node::Link { to: _, name: Some(name) }) => str_eq(
                        text.as_str(),
                        name.as_str(),
                    ),
                    _ => false,
                };
                if condense {
                    out.push(copy_node(&cluster[1]));
                    assert(condensed(c) =~= seq![c[1]]);
                    assert(nodes_view(out@) =~= nodes_view(joined) + condensed(c));
                } else {
                    assert(condensed(c) == c);
                    let mut j: usize = 0;
                    while j < cluster.len()
                        invariant
                            j <= cluster.len(),
                            c == nodes_view(cluster@),
                            nodes_view(out@) == nodes_view(joined) + c.take(j as int),
                        decreases cluster.len() - j,
                    {
                        let ghost so_far = out@;
                        out.push(copy_node(&cluster[j]));
                        j += 1;
                        assert(nodes_view(out@) =~= nodes_view(so_far).push(c[j - 1]));
                        assert(c.take(j as int) =~= c.take(j - 1).push(c[j - 1]));
                        assert(nodes_view(out@) =~= nodes_view(joined) + c.take(j as int));
                    }
                    assert(c.take(c.len() as int) =~= c);
                }
                assert(nodes_view(out@) =~= assembled(self@.nodes, (i + 1) as nat));
            }
            i += 1;
        }
        out
    }
}

/// Converts the events of a Markdown text to Gemtext. Nothing comes back
/// where an event among them is not converted.
pub fn convert_events(events: &Vec<MdEvent>) -> (r: Option<String>)
    ensures
        crate::templates::text_view(r) == gemtext_of_events(events_view(events@)),
{
    let mut state = State::new();
    let mut i: usize = 0;
    while i < events.len()
        invariant
            i <= events.len(),
            run(events_view(events@), i as nat) == Some(state@),
        decreases events.len() - i,
    {
        if !state.apply(&events[i]) {
            proof {
                lemma_run_stays_failed(events_view(events@), (i + 1) as nat, events@.len() as nat);
            }
            return None;
        }
        i += 1;
    }
    let nodes = state.into_nodes();
    Some(render_gemtext(&nodes))
}

/// Once an event is not converted, no later event changes that.
pub proof fn lemma_run_stays_failed(events: Seq<MdEventView>, failed: nat, n: nat)
    requires
        failed <= n <= events.len(),
        run(events, failed) is None,
    ensures
        run(events, n) is None,
    decreases n,
{
    if failed < n {
        lemma_run_stays_failed(events, failed, (n - 1) as nat);
    }
}

/// Converts a Markdown text to semi-equivalent Gemtext. Nothing comes back
/// where the text holds what is not converted, such as HTML within a line.
pub fn convert(markdown_text: &str) -> (r: Option<String>)
    ensures
        crate::templates::text_view(r) == gemtext_of(markdown_text@),
{
    let events = parse_markdown(markdown_text);
    convert_events(&events)
}

} // verus!
