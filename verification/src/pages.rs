//! Where the pages of the site go: for every declaration the file of its
//! page and what heads the page, the trail of links that leads to a
//! namespace, and the entries of the search index.

use crate::index::{IndexEntry, SymbolIndex, SymbolKind};
use crate::listing::{
    alias_listing, enum_listing, namespace_of, namespace_or_global, output_alias_listing,
    output_enum_listing, output_record_listing, record_listing, show_type, type_shown,
};
use crate::model::{
    lemma_namespace_view, lemma_record_view, text_of, Alias, AliasView, Enum, EnumView, Function,
    FunctionView, Namespace, NamespaceView, Record, RecordView,
};
use crate::render::{get_namespace_path, namespace_path, page_path, path_of_page, Page};
use crate::templates::{get_link_for_type, type_link};
use crate::text::{
    has_prefix, join_first, joined, lemma_split_nonempty, owned, replace, replaced, same_text,
    split, split_on, starts_with, texts,
};
use vstd::prelude::*;
use vstd::string::StringExecFns;

verus! {

/// What is to be written for one declaration.
#[derive(Debug, Clone, PartialEq, Eq)]
pub struct PageFile {
    /// The name of the template that renders the page.
    pub template: String,
    /// The path of the file of the page.
    pub file: String,
    /// The listing at the head of the page, for the kinds that have one.
    pub listing: Option<String>,
    /// The directory that has to be there for what is declared inside.
    pub directory: Option<String>,
}

/// What is to be written, as contracts see it.
pub struct PageFileView {
    pub template: Seq<char>,
    pub file: Seq<char>,
    pub listing: Option<Seq<char>>,
    pub directory: Option<Seq<char>>,
}

impl View for PageFile {
    type V = PageFileView;

    open spec fn view(&self) -> PageFileView {
        PageFileView {
            template: self.template@,
            file: self.file@,
            listing: text_of(self.listing),
            directory: text_of(self.directory),
        }
    }
}

/// The directory, below the root of the site, of what is declared in
/// `namespace`: none for the global namespace, else a `/` and the path of
/// the namespace.
pub open spec fn directory_of(namespace: Option<Seq<char>>) -> Seq<char> {
    match namespace {
        Some(n) => if n.len() == 0 {
            Seq::<char>::empty()
        } else {
            "/"@ + namespace_path(n)
        },
        None => Seq::<char>::empty(),
    }
}

/// The file of the page of a declaration of the kind `kind` that is called
/// `name`, in the directory `directory` below the output directory `out`.
pub open spec fn file_of(
    out: Seq<char>,
    directory: Seq<char>,
    kind: Seq<char>,
    name: Seq<char>,
) -> Seq<char> {
    out + "/"@ + directory + "/"@ + kind + "."@ + name + ".html"@
}

/// What is written for a function: the page of its name, where a `/` is
/// written `slash`.
pub open spec fn function_page(f: FunctionView, out: Seq<char>) -> PageFileView {
    PageFileView {
        template: "function"@,
        file: file_of(out, directory_of(f.namespace), "function"@, replaced(f.name, "/"@, "slash"@)),
        listing: None,
        directory: None,
    }
}

/// What is written for a record, or nothing for the unnamed struct that is
/// the type of a field: the page with its listing, and the directory for
/// its nested declarations where it has any.
pub open spec fn record_page(
    index: Map<Seq<char>, SymbolKind>,
    r: RecordView,
    out: Seq<char>,
    base: Seq<char>,
) -> Option<PageFileView> {
    if has_prefix(r.name, "(unnamed struct"@) {
        None
    } else {
        Some(
            PageFileView {
                template: "record"@,
                file: file_of(out, directory_of(r.namespace), "record"@, r.name),
                listing: Some(record_listing(index, r, base)),
                directory: match r.nested {
                    Some(list) => if list.len() != 0 {
                        Some(
                            out + "/"@ + namespace_path(namespace_or_global(r.namespace)) + "/"@
                                + r.name,
                        )
                    } else {
                        None
                    },
                    None => None,
                },
            },
        )
    }
}

/// The namespace that the declarations nested in a record are written
/// under: the record's name, scoped by the record's namespace.
pub open spec fn nested_scope(r: RecordView) -> Seq<char> {
    let namespace = namespace_or_global(r.namespace);
    if namespace.len() == 0 {
        r.name
    } else {
        namespace + "::"@ + r.name
    }
}

/// What is written for an alias.
pub open spec fn alias_page(
    index: Map<Seq<char>, SymbolKind>,
    a: AliasView,
    out: Seq<char>,
    base: Seq<char>,
) -> PageFileView {
    PageFileView {
        template: "alias"@,
        file: file_of(out, directory_of(a.namespace), "alias"@, a.name),
        listing: Some(alias_listing(index, a, base)),
        directory: None,
    }
}

/// What is written for an enum, or nothing for the unnamed enum that is the
/// type of a field.
pub open spec fn enum_page(e: EnumView, out: Seq<char>) -> Option<PageFileView> {
    if has_prefix(e.name, "(unnamed enum"@) {
        None
    } else {
        Some(
            PageFileView {
                template: "enum"@,
                file: file_of(out, directory_of(e.namespace), "enum"@, e.name),
                listing: Some(enum_listing(e)),
                directory: None,
            },
        )
    }
}

/// Whether a namespace is the root of the site: the global namespace, or
/// the namespace that was chosen as the root.
pub open spec fn is_root(name: Seq<char>, root: Seq<char>) -> bool {
    name.len() == 0 || name == root
}

/// What is written for a namespace. The root of the site is the index page
/// in the output directory itself; any other namespace is the index page of
/// a directory of its own, below the directory of the namespace around it.
pub open spec fn namespace_page(n: NamespaceView, out: Seq<char>, root: Seq<char>) -> PageFileView {
    let base = out + "/"@ + if is_root(n.name, root) {
        Seq::<char>::empty()
    } else {
        directory_of(n.namespace)
    };
    PageFileView {
        template: if is_root(n.name, root) {
            "index"@
        } else {
            "namespace"@
        },
        file: base + "/"@ + if is_root(n.name, root) {
            Seq::<char>::empty()
        } else {
            n.name
        } + "/index.html"@,
        listing: None,
        directory: Some(base + "/"@ + n.name),
    }
}

/// The directory of what is declared in `namespace`.
fn directory(namespace: &Option<String>) -> (r: String)
    ensures
        r@ == directory_of(text_of(*namespace)),
{
    match namespace {
        Some(n) => if n.as_str().is_empty() {
            String::new()
        } else {
            let mut out = owned("/");
            out.append(get_namespace_path(n.as_str()).as_str());
            out
        },
        None => String::new(),
    }
}

/// The file of the page of a declaration.
fn file(out: &str, directory: &str, kind: &str, name: &str) -> (r: String)
    ensures
        r@ == file_of(out@, directory@, kind@, name@),
{
    let mut path = owned(out);
    path.append("/");
    path.append(directory);
    path.append("/");
    path.append(kind);
    path.append(".");
    path.append(name);
    path.append(".html");
    path
}

/// What is to be written for a function, below the output directory
/// `output_path`.
pub fn output_function(function: &Function, output_path: &str) -> (r: PageFile)
    ensures
        r@ == function_page(function@, output_path@),
{
    proof {
        crate::model::lemma_function_view(*function);
    }
    let name = replace(function.name.as_str(), "/", "slash");
    PageFile {
        template: owned("function"),
        file: file(
            output_path,
            directory(&function.namespace).as_str(),
            "function",
            name.as_str(),
        ),
        listing: None,
        directory: None,
    }
}

/// What is to be written for a record, below the output directory
/// `output_path`, for a site at the address `base_url`.
pub fn output_record(record: &Record, output_path: &str, base_url: &str, index: &SymbolIndex) -> (r:
    Option<PageFile>)
    ensures
        record_page(index@, record@, output_path@, base_url@) == match r {
            Some(p) => Some(p@),
            None => None::<PageFileView>,
        },
{
    proof {
        lemma_record_view(*record);
    }
    if starts_with(record.name.as_str(), "(unnamed struct") {
        return None;
    }
    let has_nested = match &record.nested {
        Some(list) => {
            assert(crate::model::nesteds_view(list@).len() == list@.len());
            list.len() != 0
        },
        None => false,
    };
    let directory_for_nested = if has_nested {
        let mut d = owned(output_path);
        d.append("/");
        d.append(get_namespace_path(namespace_of(&record.namespace).as_str()).as_str());
        d.append("/");
        d.append(record.name.as_str());
        Some(d)
    } else {
        None
    };
    Some(
        PageFile {
            template: owned("record"),
            file: file(
                output_path,
                directory(&record.namespace).as_str(),
                "record",
                record.name.as_str(),
            ),
            listing: Some(output_record_listing(record, base_url, index)),
            directory: directory_for_nested,
        },
    )
}

/// The namespace that the declarations nested in `record` are written
/// under.
pub fn nested_namespace(record: &Record) -> (r: String)
    ensures
        r@ == nested_scope(record@),
{
    proof {
        lemma_record_view(*record);
    }
    let namespace = namespace_of(&record.namespace);
    if namespace.as_str().is_empty() {
        record.name.clone()
    } else {
        let mut out = namespace;
        out.append("::");
        out.append(record.name.as_str());
        out
    }
}

/// What is to be written for an alias.
pub fn output_alias(alias: &Alias, output_path: &str, base_url: &str, index: &SymbolIndex) -> (r:
    PageFile)
    ensures
        r@ == alias_page(index@, alias@, output_path@, base_url@),
{
    PageFile {
        template: owned("alias"),
        file: file(
            output_path,
            directory(&alias.namespace).as_str(),
            "alias",
            alias.name.as_str(),
        ),
        listing: Some(output_alias_listing(alias, base_url, index)),
        directory: None,
    }
}

/// What is to be written for an enum.
pub fn output_enum(e: &Enum, output_path: &str) -> (r: Option<PageFile>)
    ensures
        enum_page(e@, output_path@) == match r {
            Some(p) => Some(p@),
            None => None::<PageFileView>,
        },
{
    if starts_with(e.name.as_str(), "(unnamed enum") {
        return None;
    }
    Some(
        PageFile {
            template: owned("enum"),
            file: file(output_path, directory(&e.namespace).as_str(), "enum", e.name.as_str()),
            listing: Some(output_enum_listing(e)),
            directory: None,
        },
    )
}

/// What is to be written for a namespace itself. `root_namespace` is the
/// name of the namespace that was chosen as the root of the site, or empty
/// where none was.
pub fn output_namespace(namespace: &Namespace, output_path: &str, root_namespace: &str) -> (r:
    PageFile)
    ensures
        r@ == namespace_page(namespace@, output_path@, root_namespace@),
{
    proof {
        lemma_namespace_view(*namespace);
    }
    let root = namespace.name.as_str().is_empty() || same_text(
        namespace.name.as_str(),
        root_namespace,
    );
    let mut base = owned(output_path);
    base.append("/");
    if !root {
        base.append(directory(&namespace.namespace).as_str());
    }
    let mut dir = base.clone();
    dir.append("/");
    dir.append(namespace.name.as_str());
    let mut path = base;
    path.append("/");
    if !root {
        path.append(namespace.name.as_str());
    }
    path.append("/index.html");
    PageFile {
        template: if root {
            owned("index")
        } else {
            owned("namespace")
        },
        file: path,
        listing: None,
        directory: Some(dir),
    }
}

/// One link of the trail: to the index page of the directory `path`,
/// showing `part`.
pub open spec fn crumb(path: Seq<char>, part: Seq<char>) -> Seq<char> {
    "<a href=\"/"@ + path + "/index.html\"><span class=\"kt\">"@ + part + "</span></a>"@
}

/// The last link of the trail where it leads to a record: to the page of
/// the record `part` in the directory that `parts` name.
pub open spec fn record_crumb(parts: Seq<Seq<char>>, part: Seq<char>) -> Seq<char> {
    "<a href=\""@ + if parts.len() == 0 {
        Seq::<char>::empty()
    } else {
        "/"@ + joined(parts, "/"@) + "/"@
    } + "/record."@ + part + ".html\"><span class=\"kt\">"@ + part + "</span></a>"@
}

/// The first `k` links of the trail that leads to the symbol registered as
/// `kind` under the name whose components are `parts`.
///
/// Every component but the last links to the namespace that the components
/// up to it name, and ` :: ` follows it. The last links to the record page
/// where the name is a record, to the namespace where it is a namespace,
/// and is left out otherwise.
pub open spec fn trail(parts: Seq<Seq<char>>, kind: SymbolKind, k: nat) -> Seq<char>
    decreases k,
{
    if k == 0 || k > parts.len() {
        Seq::<char>::empty()
    } else {
        trail(parts, kind, (k - 1) as nat) + if k < parts.len() {
            crumb(joined(parts.take(k as int), "/"@), parts[k - 1]) + " :: "@
        } else if kind == SymbolKind::Record {
            record_crumb(parts.take(k - 1), parts[k - 1])
        } else if kind == SymbolKind::Namespace {
            crumb(joined(parts.take(k as int), "/"@), parts[k - 1])
        } else {
            Seq::<char>::empty()
        }
    }
}

/// The trail of links that leads to `namespace`: empty where `namespace` is
/// not registered.
pub open spec fn namespace_trail(index: Map<Seq<char>, SymbolKind>, namespace: Seq<char>) -> Seq<
    char,
> {
    if index.contains_key(namespace) {
        let parts = split_on(namespace, "::"@);
        trail(parts, index[namespace], parts.len())
    } else {
        Seq::<char>::empty()
    }
}

/// The trail of links that leads to `namespace`, which may name a namespace
/// or, for what is nested in a record, a record.
pub fn get_link_for_namespace(namespace: &str, index: &SymbolIndex) -> (r: String)
    ensures
        r@ == namespace_trail(index@, namespace@),
{
    let kind = match index.get(namespace) {
        Some(k) => k,
        None => {
            return String::new();
        },
    };
    let parts = split(namespace, "::");
    proof {
        lemma_split_nonempty(namespace@, "::"@);
    }
    let count = parts.len();
    let mut link = String::new();
    let mut k: usize = 0;
    while k < count
        invariant
            k <= count == parts@.len(),
            link@ == trail(texts(parts@), kind, k as nat),
        decreases count - k,
    {
        let part = parts[k].as_str();
        let ghost all = texts(parts@);
        proof {
            assert(all[k as int] == part@);
        }
        if k < count - 1 || kind == SymbolKind::Namespace {
            let acc = join_first(&parts, k + 1, "/");
            link.append("<a href=\"/");
            link.append(acc.as_str());
            link.append("/index.html\"><span class=\"kt\">");
            link.append(part);
            link.append("</span></a>");
            if k < count - 1 {
                link.append(" :: ");
            }
        } else if kind == SymbolKind::Record {
            link.append("<a href=\"");
            if k != 0 {
                link.append("/");
                link.append(join_first(&parts, k, "/").as_str());
                link.append("/");
            }
            link.append("/record.");
            link.append(part);
            link.append(".html\"><span class=\"kt\">");
            link.append(part);
            link.append("</span></a>");
        }
        k = k + 1;
    }
    link
}

/// The namespace in which the types of a member of `parent_name` are looked
/// up first: `parent_name` scoped by the namespace of its parent and by the
/// namespace of the page.
pub open spec fn member_scope(
    namespace: Seq<char>,
    parent_namespace: Seq<char>,
    parent_name: Seq<char>,
) -> Seq<char> {
    (if namespace.len() == 0 {
        Seq::<char>::empty()
    } else {
        namespace + "::"@
    }) + (if parent_namespace.len() == 0 {
        Seq::<char>::empty()
    } else {
        parent_namespace + "::"@
    }) + parent_name
}

/// The text of a type as a page shows it: its link as seen from inside the
/// declaration `parent` that it belongs to, where that gives one, else as a
/// listing shows it. `parent` is the namespace and the name of the
/// declaration.
pub open spec fn url_for(
    index: Map<Seq<char>, SymbolKind>,
    t: Seq<char>,
    namespace: Seq<char>,
    parent: Option<(Seq<char>, Seq<char>)>,
    base: Seq<char>,
) -> Seq<char> {
    match parent {
        Some((parent_namespace, parent_name)) => match type_link(
            index,
            t,
            member_scope(namespace, parent_namespace, parent_name),
            base,
        ) {
            Some(l) => l,
            None => type_shown(index, t, namespace, base),
        },
        None => type_shown(index, t, namespace, base),
    }
}

/// The text of the type `type_` as a page shows it. `parent_namespace` and
/// `parent_name` name the declaration that the type belongs to, if it
/// belongs to one.
pub fn get_url_for(
    type_: &str,
    namespace: &str,
    parent: Option<(&str, &str)>,
    base_url: &str,
    index: &SymbolIndex,
) -> (r: String)
    ensures
        r@ == url_for(
            index@,
            type_@,
            namespace@,
            match parent {
                Some((a, b)) => Some((a@, b@)),
                None => None,
            },
            base_url@,
        ),
{
    match parent {
        Some((parent_namespace, parent_name)) => {
            let mut scope = String::new();
            if !namespace.is_empty() {
                scope.append(namespace);
                scope.append("::");
            }
            if !parent_namespace.is_empty() {
                scope.append(parent_namespace);
                scope.append("::");
            }
            scope.append(parent_name);
            assert(scope@ =~= member_scope(namespace@, parent_namespace@, parent_name@));
            match get_link_for_type(type_, scope.as_str(), base_url, index) {
                Some(l) => {
                    return l;
                },
                None => {},
            }
        },
        None => {},
    }
    show_type(type_, namespace, base_url, index)
}

/// One entry of the search index.
#[derive(Debug, Clone, PartialEq, Eq)]
pub struct SearchEntry {
    pub id: u64,
    pub name: String,
    pub link: String,
    pub kind: String,
}

/// An entry of the search index as contracts see it.
pub struct SearchEntryView {
    pub id: u64,
    pub name: Seq<char>,
    pub link: Seq<char>,
    pub kind: Seq<char>,
}

impl View for SearchEntry {
    type V = SearchEntryView;

    open spec fn view(&self) -> SearchEntryView {
        SearchEntryView { id: self.id, name: self.name@, link: self.link@, kind: self.kind@ }
    }
}

/// The entry of the search index for a registered symbol: its name, the
/// path of its page and its kind, with every double quote written `&quot;`.
pub open spec fn symbol_entry(id: u64, name: Seq<char>, kind: SymbolKind) -> SearchEntryView {
    SearchEntryView {
        id,
        name: replaced(name, "\""@, "&quot;"@),
        link: replaced(page_path(name, kind), "\""@, "&quot;"@),
        kind: kind.text(),
    }
}

/// The entry of the search index for a page written by hand: its title and
/// the path of its file.
pub open spec fn page_entry(id: u64, page: Page) -> SearchEntryView {
    SearchEntryView { id, name: page.title@, link: page.path@, kind: "page"@ }
}

/// The search index: an entry for every symbol of `symbols`, then one for
/// every page of `pages`, numbered from zero in that order.
pub fn search_entries(symbols: &Vec<IndexEntry>, pages: &Vec<Page>) -> (r: Vec<SearchEntry>)
    ensures
        r@.len() == symbols@.len() + pages@.len(),
        forall|i: int|
            0 <= i < symbols@.len() ==> (#[trigger] r@[i])@ == symbol_entry(
                i as u64,
                symbols@[i].name@,
                symbols@[i].kind,
            ),
        forall|i: int|
            0 <= i < pages@.len() ==> (#[trigger] r@[symbols@.len() + i])@ == page_entry(
                (symbols@.len() + i) as u64,
                pages@[i],
            ),
{
    let mut out: Vec<SearchEntry> = Vec::new();
    let mut i: usize = 0;
    while i < symbols.len()
        invariant
            i <= symbols@.len(),
            out@.len() == i,
            forall|j: int|
                0 <= j < i ==> (#[trigger] out@[j])@ == symbol_entry(
                    j as u64,
                    symbols@[j].name@,
                    symbols@[j].kind,
                ),
        decreases symbols@.len() - i,
    {
        let s = &symbols[i];
        let path = path_of_page(s.name.as_str(), s.kind);
        out.push(
            SearchEntry {
                id: i as u64,
                name: replace(s.name.as_str(), "\"", "&quot;"),
                link: replace(path.as_str(), "\"", "&quot;"),
                kind: owned(s.kind.as_str()),
            },
        );
        i = i + 1;
    }
    let mut k: usize = 0;
    while k < pages.len()
        invariant
            k <= pages@.len(),
            out@.len() == symbols@.len() + k,
            forall|j: int|
                0 <= j < symbols@.len() ==> (#[trigger] out@[j])@ == symbol_entry(
                    j as u64,
                    symbols@[j].name@,
                    symbols@[j].kind,
                ),
            forall|j: int|
                0 <= j < k ==> (#[trigger] out@[symbols@.len() + j])@ == page_entry(
                    (symbols@.len() + j) as u64,
                    pages@[j],
                ),
        decreases pages@.len() - k,
    {
        let p = &pages[k];
        let id: u64 = out.len() as u64;
        out.push(
            SearchEntry { id, name: p.title.clone(), link: p.path.clone(), kind: owned("page") },
        );
        k = k + 1;
    }
    out
}

} // verus!
