//! What to do with the events of a page of Markdown as they come by.
//!
//! Reading the Markdown, highlighting code and turning the events into HTML
//! is done elsewhere. This module decides, event by event, what becomes of
//! each: fenced code is gathered and handed out to be highlighted, the
//! metadata block gives the page its title, and a link whose address begins
//! with `::` becomes a link to the page of the symbol it names.

use crate::index::{SymbolIndex, SymbolKind};
use crate::render::{get_path_for_name, path_for_name};
use crate::text::{
    has_prefix, owned, same_text, split, split_on, starts_with, strip_leading, texts, trim, trimmed,
    without_leading, CharClass,
};
use vstd::prelude::*;
use vstd::string::StringExecFns;

verus! {

/// An event of the Markdown reader, as far as the decisions depend on it.
#[derive(Debug, Clone, PartialEq, Eq)]
pub enum MarkdownEvent {
    /// A fenced code block begins; `language` is what stands behind the
    /// fence.
    CodeBlockStart { language: String },
    /// A code block ends.
    CodeBlockEnd,
    /// A run of text.
    Text { text: String },
    /// The metadata block at the head of the page begins.
    MetadataStart,
    /// The metadata block ends.
    MetadataEnd,
    /// A link begins; `documented` says that its address may name a symbol,
    /// that is, that it stands in the page as it was written.
    LinkStart { url: String, documented: bool },
    /// A link ends.
    LinkEnd,
    /// Any other event.
    Other,
}

/// What becomes of an event.
#[derive(Debug, Clone, PartialEq, Eq)]
pub enum MarkdownAction {
    /// The event is left out.
    Drop,
    /// The event goes on as it is.
    Keep,
    /// This HTML goes on in place of the event.
    Html { html: String },
    /// The code is to be highlighted as `language`, and what comes of it
    /// goes on in place of the event. Where `sample` is set the code is a
    /// sample that is tried out: with a `main` of its own around it where
    /// the flag holds, as it stands where it does not.
    Highlight { code: String, language: String, sample: Option<bool> },
}

/// What is remembered between the events of one page.
#[derive(Debug, Clone, PartialEq, Eq)]
pub struct MarkdownState {
    /// The code gathered since the last code block was highlighted.
    pub code: String,
    /// Whether a fenced code block has begun.
    pub in_code_block: bool,
    /// The language of the code block.
    pub code_lang: String,
    /// Whether the metadata block is being read.
    pub in_metadata: bool,
    /// The text of the metadata block so far.
    pub metadata: String,
    /// The title of the page.
    pub title: String,
}

/// An event as contracts see it.
pub enum MarkdownEventView {
    CodeBlockStart { language: Seq<char> },
    CodeBlockEnd,
    Text { text: Seq<char> },
    MetadataStart,
    MetadataEnd,
    LinkStart { url: Seq<char>, documented: bool },
    LinkEnd,
    Other,
}

/// What becomes of an event, as contracts see it.
pub enum MarkdownActionView {
    Drop,
    Keep,
    Html { html: Seq<char> },
    Highlight { code: Seq<char>, language: Seq<char>, sample: Option<bool> },
}

/// What is remembered between events, as contracts see it.
pub struct MarkdownStateView {
    pub code: Seq<char>,
    pub in_code_block: bool,
    pub code_lang: Seq<char>,
    pub in_metadata: bool,
    pub metadata: Seq<char>,
    pub title: Seq<char>,
}

impl View for MarkdownEvent {
    type V = MarkdownEventView;

    open spec fn view(&self) -> MarkdownEventView {
        match *self {
            MarkdownEvent::CodeBlockStart { language } => MarkdownEventView::CodeBlockStart {
                language: language@,
            },
            MarkdownEvent::CodeBlockEnd => MarkdownEventView::CodeBlockEnd,
            MarkdownEvent::Text { text } => MarkdownEventView::Text { text: text@ },
            MarkdownEvent::MetadataStart => MarkdownEventView::MetadataStart,
            MarkdownEvent::MetadataEnd => MarkdownEventView::MetadataEnd,
            MarkdownEvent::LinkStart { url, documented } => MarkdownEventView::LinkStart {
                url: url@,
                documented,
            },
            MarkdownEvent::LinkEnd => MarkdownEventView::LinkEnd,
            MarkdownEvent::Other => MarkdownEventView::Other,
        }
    }
}

impl View for MarkdownAction {
    type V = MarkdownActionView;

    open spec fn view(&self) -> MarkdownActionView {
        match *self {
            MarkdownAction::Drop => MarkdownActionView::Drop,
            MarkdownAction::Keep => MarkdownActionView::Keep,
            MarkdownAction::Html { html } => MarkdownActionView::Html { html: html@ },
            MarkdownAction::Highlight { code, language, sample } => MarkdownActionView::Highlight {
                code: code@,
                language: language@,
                sample,
            },
        }
    }
}

impl View for MarkdownState {
    type V = MarkdownStateView;

    open spec fn view(&self) -> MarkdownStateView {
        MarkdownStateView {
            code: self.code@,
            in_code_block: self.in_code_block,
            code_lang: self.code_lang@,
            in_metadata: self.in_metadata,
            metadata: self.metadata@,
            title: self.title@,
        }
    }
}

/// The first of `lines` that begins with `title:`.
pub open spec fn title_line(lines: Seq<Seq<char>>) -> Option<Seq<char>>
    decreases lines.len(),
{
    if lines.len() == 0 {
        None
    } else if has_prefix(lines[0], "title:"@) {
        Some(lines[0])
    } else {
        title_line(lines.skip(1))
    }
}

/// The title that the metadata of a page gives it: what follows `title:` on
/// the first line that begins so, without white space at either end; empty
/// where no line begins so.
pub open spec fn title_of(metadata: Seq<char>) -> Seq<char> {
    match title_line(split_on(metadata, "\n"@)) {
        Some(line) => trimmed(without_leading(line, "title:"@), CharClass::Whitespace),
        None => Seq::<char>::empty(),
    }
}

/// Whether code in this language is a sample with a `main` of its own
/// around it: C++, named or unnamed.
pub open spec fn is_sample_with_main(language: Seq<char>) -> bool {
    language == "cpp"@ || language == "c++"@ || language.len() == 0
}

/// Whether code in this language is a sample that stands as it is.
pub open spec fn is_sample_without_main(language: Seq<char>) -> bool {
    language == "nomain"@ || language == "c++-nomain"@ || language == "cpp-nomain"@
}

/// The HTML that opens a link to the page at `path`.
pub open spec fn link_opening(base: Seq<char>, path: Seq<char>) -> Seq<char> {
    "<a href=\""@ + base + "/"@ + path + ".html\">"@
}

/// The state at the head of a page.
pub open spec fn initial_state() -> MarkdownStateView {
    MarkdownStateView {
        code: Seq::<char>::empty(),
        in_code_block: false,
        code_lang: Seq::<char>::empty(),
        in_metadata: false,
        metadata: Seq::<char>::empty(),
        title: Seq::<char>::empty(),
    }
}

/// The state after `event`, and what becomes of the event.
///
/// A fenced code block sets the language, and from then on text is gathered
/// as code and left out. At the end of a code block, a diagram in `mermaid`
/// goes on as it is, in a block of its own; any other code is handed out to
/// be highlighted, C++ samples as `cpp`, and the gathered code is emptied.
/// Inside the metadata block text is gathered as metadata and left out; the
/// end of the block sets the title. A link that may name a symbol and whose
/// address begins with `::` opens a link to the page of the name behind the
/// `::`, where that name is registered. The end of a link closes it.
pub open spec fn stepped(
    st: MarkdownStateView,
    event: MarkdownEventView,
    index: Map<Seq<char>, SymbolKind>,
    base: Seq<char>,
) -> (MarkdownStateView, MarkdownActionView) {
    match event {
        MarkdownEventView::CodeBlockStart { language } => (
            MarkdownStateView { code_lang: language, in_code_block: true, ..st },
            MarkdownActionView::Drop,
        ),
        MarkdownEventView::CodeBlockEnd => if st.code_lang == "mermaid"@ {
            (
                st,
                MarkdownActionView::Html {
                    html: "<div class=\"mermaid\">"@ + st.code + "</div>"@,
                },
            )
        } else if is_sample_with_main(st.code_lang) {
            (
                MarkdownStateView { code: Seq::<char>::empty(), code_lang: "cpp"@, ..st },
                MarkdownActionView::Highlight {
                    code: st.code,
                    language: "cpp"@,
                    sample: Some(true),
                },
            )
        } else if is_sample_without_main(st.code_lang) {
            (
                MarkdownStateView { code: Seq::<char>::empty(), code_lang: "cpp"@, ..st },
                MarkdownActionView::Highlight {
                    code: st.code,
                    language: "cpp"@,
                    sample: Some(false),
                },
            )
        } else {
            (
                MarkdownStateView { code: Seq::<char>::empty(), ..st },
                MarkdownActionView::Highlight {
                    code: st.code,
                    language: st.code_lang,
                    sample: None,
                },
            )
        },
        MarkdownEventView::Text { text } => if st.in_code_block {
            (MarkdownStateView { code: st.code + text, ..st }, MarkdownActionView::Drop)
        } else if st.in_metadata {
            (MarkdownStateView { metadata: st.metadata + text, ..st }, MarkdownActionView::Drop)
        } else {
            (st, MarkdownActionView::Keep)
        },
        MarkdownEventView::MetadataStart => (
            MarkdownStateView { in_metadata: true, ..st },
            MarkdownActionView::Drop,
        ),
        MarkdownEventView::MetadataEnd => (
            MarkdownStateView {
                in_metadata: false,
                title: title_of(st.metadata),
                metadata: Seq::<char>::empty(),
                ..st
            },
            MarkdownActionView::Drop,
        ),
        MarkdownEventView::LinkStart { url, documented } => if documented && has_prefix(
            url,
            "::"@,
        ) {
            match path_for_name(index, without_leading(url, "::"@)) {
                Some(path) => (st, MarkdownActionView::Html { html: link_opening(base, path) }),
                None => (st, MarkdownActionView::Keep),
            }
        } else {
            (st, MarkdownActionView::Keep)
        },
        MarkdownEventView::LinkEnd => (st, MarkdownActionView::Html { html: "</a>"@ }),
        MarkdownEventView::Other => (st, MarkdownActionView::Keep),
    }
}

/// The title that the metadata of a page gives it.
pub fn page_title(metadata: &str) -> (r: String)
    ensures
        r@ == title_of(metadata@),
{
    let lines = split(metadata, "\n");
    let ghost all = texts(lines@);
    let mut i: usize = 0;
    assert(all.skip(0) =~= all);
    while i < lines.len()
        invariant
            i <= lines@.len(),
            all == texts(lines@),
            all == split_on(metadata@, "\n"@),
            title_line(all) == title_line(all.skip(i as int)),
        decreases lines@.len() - i,
    {
        let line = lines[i].as_str();
        assert(all.skip(i as int)[0] == line@);
        if starts_with(line, "title:") {
            let rest = strip_leading(line, "title:");
            return trim(rest.as_str(), CharClass::Whitespace);
        }
        assert(all.skip(i as int).skip(1) =~= all.skip(i + 1));
        i = i + 1;
    }
    String::new()
}

impl MarkdownState {
    /// The state at the head of a page.
    pub fn new() -> (r: Self)
        ensures
            r@ == initial_state(),
    {
        MarkdownState {
            code: String::new(),
            in_code_block: false,
            code_lang: String::new(),
            in_metadata: false,
            metadata: String::new(),
            title: String::new(),
        }
    }

    /// Takes in one event and says what becomes of it. `base_url` is the
    /// address of the site.
    pub fn step(&mut self, event: &MarkdownEvent, index: &SymbolIndex, base_url: &str) -> (r:
        MarkdownAction)
        ensures
            (final(self)@, r@) == stepped(old(self)@, event@, index@, base_url@),
    {
        match event {
            MarkdownEvent::CodeBlockStart { language } => {
                self.code_lang = language.clone();
                self.in_code_block = true;
                MarkdownAction::Drop
            },
            MarkdownEvent::CodeBlockEnd => {
                let lang = self.code_lang.as_str();
                if same_text(lang, "mermaid") {
                    let mut html = owned("<div class=\"mermaid\">");
                    html.append(self.code.as_str());
                    html.append("</div>");
                    MarkdownAction::Html { html }
                } else {
                    let with_main = same_text(lang, "cpp") || same_text(lang, "c++")
                        || lang.is_empty();
                    let without_main = same_text(lang, "nomain") || same_text(lang, "c++-nomain")
                        || same_text(lang, "cpp-nomain");
                    let code = self.code.clone();
                    self.code = String::new();
                    if with_main {
                        self.code_lang = owned("cpp");
                        MarkdownAction::Highlight {
                            code,
                            language: owned("cpp"),
                            sample: Some(true),
                        }
                    } else if without_main {
                        self.code_lang = owned("cpp");
                        MarkdownAction::Highlight {
                            code,
                            language: owned("cpp"),
                            sample: Some(false),
                        }
                    } else {
                        MarkdownAction::Highlight {
                            code,
                            language: self.code_lang.clone(),
                            sample: None,
                        }
                    }
                }
            },
            MarkdownEvent::Text { text } => {
                if self.in_code_block {
                    self.code.append(text.as_str());
                    MarkdownAction::Drop
                } else if self.in_metadata {
                    self.metadata.append(text.as_str());
                    MarkdownAction::Drop
                } else {
                    MarkdownAction::Keep
                }
            },
            MarkdownEvent::MetadataStart => {
                self.in_metadata = true;
                MarkdownAction::Drop
            },
            MarkdownEvent::MetadataEnd => {
                self.in_metadata = false;
                self.title = page_title(self.metadata.as_str());
                self.metadata = String::new();
                MarkdownAction::Drop
            },
            MarkdownEvent::LinkStart { url, documented } => {
                if *documented && starts_with(url.as_str(), "::") {
                    let name = strip_leading(url.as_str(), "::");
                    match get_path_for_name(name.as_str(), index) {
                        Some(path) => {
                            let mut html = owned("<a href=\"");
                            html.append(base_url);
                            html.append("/");
                            html.append(path.as_str());
                            html.append(".html\">");
                            MarkdownAction::Html { html }
                        },
                        None => MarkdownAction::Keep,
                    }
                } else {
                    MarkdownAction::Keep
                }
            },
            MarkdownEvent::LinkEnd => MarkdownAction::Html { html: owned("</a>") },
            MarkdownEvent::Other => MarkdownAction::Keep,
        }
    }
}

} // verus!
