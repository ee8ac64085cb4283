use cppdoc::index::{SymbolIndex, SymbolKind};
use cppdoc::markdown::{page_title, MarkdownAction, MarkdownEvent, MarkdownState};

fn text(s: &str) -> MarkdownEvent {
    MarkdownEvent::Text { text: s.to_string() }
}

fn fence(language: &str) -> MarkdownEvent {
    MarkdownEvent::CodeBlockStart { language: language.to_string() }
}

fn run_block(language: &str, code: &str) -> (MarkdownState, MarkdownAction) {
    let index = SymbolIndex::new();
    let mut st = MarkdownState::new();
    assert_eq!(st.step(&fence(language), &index, ""), MarkdownAction::Drop);
    assert_eq!(st.step(&text(code), &index, ""), MarkdownAction::Drop);
    let action = st.step(&MarkdownEvent::CodeBlockEnd, &index, "");
    (st, action)
}

#[test]
fn titles() {
    assert_eq!(page_title("title: Guide\nauthor: me"), "Guide");
    assert_eq!(page_title("author: me\r\ntitle:title:  Two words \r\ntitle: later"), "Two words");
    assert_eq!(page_title("author: me"), "");
    assert_eq!(page_title(" title: indented"), "");
    assert_eq!(page_title(""), "");
    assert_eq!(page_title("title:"), "");
}

#[test]
fn text_outside_blocks_goes_on() {
    let index = SymbolIndex::new();
    let mut st = MarkdownState::new();
    assert_eq!(st, MarkdownState {
        code: String::new(),
        in_code_block: false,
        code_lang: String::new(),
        in_metadata: false,
        metadata: String::new(),
        title: String::new(),
    });
    assert_eq!(st.step(&text("hello"), &index, ""), MarkdownAction::Keep);
    assert_eq!(st.step(&MarkdownEvent::Other, &index, ""), MarkdownAction::Keep);
    assert_eq!(st, MarkdownState::new());
}

#[test]
fn metadata_gives_the_title() {
    let index = SymbolIndex::new();
    let mut st = MarkdownState::new();
    assert_eq!(st.step(&MarkdownEvent::MetadataStart, &index, ""), MarkdownAction::Drop);
    assert!(st.in_metadata);
    assert_eq!(st.step(&text("title: My "), &index, ""), MarkdownAction::Drop);
    assert_eq!(st.step(&text("page\nother: x"), &index, ""), MarkdownAction::Drop);
    assert_eq!(st.metadata, "title: My page\nother: x");
    assert_eq!(st.step(&MarkdownEvent::MetadataEnd, &index, ""), MarkdownAction::Drop);
    assert_eq!(st.title, "My page");
    assert_eq!(st.metadata, "");
    assert!(!st.in_metadata);
    assert_eq!(st.step(&text("body"), &index, ""), MarkdownAction::Keep);
}

#[test]
fn mermaid_goes_on_as_it_is() {
    let (st, action) = run_block("mermaid", "graph TD;");
    assert_eq!(
        action,
        MarkdownAction::Html { html: "<div class=\"mermaid\">graph TD;</div>".to_string() }
    );
    assert_eq!(st.code, "graph TD;");
    assert_eq!(st.code_lang, "mermaid");
}

#[test]
fn code_is_handed_out_to_be_highlighted() {
    for language in ["cpp", "c++", ""] {
        let (st, action) = run_block(language, "int x;");
        assert_eq!(
            action,
            MarkdownAction::Highlight {
                code: "int x;".to_string(),
                language: "cpp".to_string(),
                sample: Some(true),
            }
        );
        assert_eq!(st.code, "");
        assert_eq!(st.code_lang, "cpp");
        assert!(st.in_code_block);
    }
    for language in ["nomain", "c++-nomain", "cpp-nomain"] {
        let (st, action) = run_block(language, "int main() {}");
        assert_eq!(
            action,
            MarkdownAction::Highlight {
                code: "int main() {}".to_string(),
                language: "cpp".to_string(),
                sample: Some(false),
            }
        );
        assert_eq!(st.code_lang, "cpp");
    }
    let (st, action) = run_block("rust", "fn main() {}");
    assert_eq!(
        action,
        MarkdownAction::Highlight {
            code: "fn main() {}".to_string(),
            language: "rust".to_string(),
            sample: None,
        }
    );
    assert_eq!(st.code, "");
    assert_eq!(st.code_lang, "rust");
}

#[test]
fn links_to_symbols() {
    let mut index = SymbolIndex::new();
    index.insert("a::S".to_string(), SymbolKind::Record);
    index.insert("a".to_string(), SymbolKind::Namespace);
    let mut st = MarkdownState::new();
    let link = |url: &str, documented: bool| MarkdownEvent::LinkStart {
        url: url.to_string(),
        documented,
    };
    assert_eq!(
        st.step(&link("::a::S", true), &index, "http://x"),
        MarkdownAction::Html { html: "<a href=\"http://x/a/record.S.html\">".to_string() }
    );
    assert_eq!(
        st.step(&link("::a", true), &index, ""),
        MarkdownAction::Html { html: "<a href=\"/a/index.html\">".to_string() }
    );
    assert_eq!(st.step(&link("::a::S", false), &index, ""), MarkdownAction::Keep);
    assert_eq!(st.step(&link("::missing", true), &index, ""), MarkdownAction::Keep);
    assert_eq!(st.step(&link("a::S", true), &index, ""), MarkdownAction::Keep);
    assert_eq!(st.step(&link("https://example.org", true), &index, ""), MarkdownAction::Keep);
    assert_eq!(
        st.step(&MarkdownEvent::LinkEnd, &index, ""),
        MarkdownAction::Html { html: "</a>".to_string() }
    );
    assert_eq!(st, MarkdownState::new());
}
