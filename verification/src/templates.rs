//! The cross-reference resolution engine: from the text of a type, as it
//! stands in a declaration, to a link to the page of the symbol it names.

use crate::index::{SymbolIndex, SymbolKind};
use crate::render::{get_path_for_name, page_path};
use crate::text::{
    after_last, after_last_start, chars_of, find_char, has_prefix, is_decoration, join_first,
    joined, lemma_split_nonempty, lemma_trimmed_len, owned, position_of, replace, replaced, split,
    split_on, starts_with, strip_leading, texts, trim, trimmed, trimmed_range, without_leading,
    CharClass,
};
use vstd::prelude::*;
use vstd::string::StringExecFns;

verus! {

/// The text of a type as it is shown where nothing links it: the space
/// before a `&` or a `*` gives way to the end of the highlighted span.
pub open spec fn cleaned_type(t: Seq<char>) -> Seq<char> {
    replaced(replaced(t, " &"@, "</span>&"@), " *"@, "</span>*"@)
}

/// The text of a type that resolves to nothing, highlighted as a type.
pub open spec fn plain_type(t: Seq<char>) -> Seq<char> {
    "<span class=\"kt\">"@ + cleaned_type(t) + "</span>"@
}

/// The part of a type's text that a link shows: the text without `&`, `*`
/// and spaces at either end.
pub open spec fn link_text(name: Seq<char>) -> Seq<char> {
    trimmed(name, CharClass::Decoration)
}

/// The name that is looked up for a type's text: the text without the
/// `const ` that it begins with and without `&`, `*` and spaces at either
/// end.
pub open spec fn bare_name(name: Seq<char>) -> Seq<char> {
    trimmed(without_leading(name, "const "@), CharClass::Decoration)
}

/// The decoration that follows a link: what is left of the text once the
/// shown part is taken from its start, without white space at either end.
pub open spec fn decoration_of(name: Seq<char>) -> Seq<char> {
    trimmed(without_leading(name, link_text(name)), CharClass::Whitespace)
}

/// The names that `candidate` may stand for in the namespaces around
/// `namespace`, from the innermost to the outermost: `candidate` scoped by
/// `namespace` without its last component, without its last two, and so on.
pub open spec fn ancestor_names(parts: Seq<Seq<char>>, candidate: Seq<char>) -> Seq<Seq<char>> {
    Seq::new(
        if parts.len() >= 1 {
            (parts.len() - 1) as nat
        } else {
            0
        },
        |j: int| joined(parts.take(parts.len() - 1 - j), "::"@) + "::"@ + candidate,
    )
}

/// The names under which `candidate`, met in `namespace`, is looked up, in
/// order: in `namespace` itself, in the global namespace, and in the
/// namespaces around `namespace` from the innermost to the outermost.
pub open spec fn candidates(candidate: Seq<char>, namespace: Seq<char>) -> Seq<Seq<char>> {
    seq![namespace + "::"@ + candidate, candidate] + ancestor_names(
        split_on(namespace, "::"@),
        candidate,
    )
}

/// The first of `names` that is registered.
pub open spec fn first_registered(
    index: Map<Seq<char>, SymbolKind>,
    names: Seq<Seq<char>>,
) -> Option<Seq<char>>
    decreases names.len(),
{
    if names.len() == 0 {
        None
    } else if index.contains_key(names[0]) {
        Some(names[0])
    } else {
        first_registered(index, names.skip(1))
    }
}

/// The registered name that `candidate`, met in `namespace`, stands for.
///
/// A candidate that begins with `::` is absolute: it stands for the name
/// behind the `::`, and for nothing where that name is not registered. Any
/// other candidate stands for the first of its candidate names that is
/// registered.
pub open spec fn resolved_name(
    index: Map<Seq<char>, SymbolKind>,
    candidate: Seq<char>,
    namespace: Seq<char>,
) -> Option<Seq<char>> {
    if has_prefix(candidate, "::"@) {
        let global = without_leading(candidate, "::"@);
        if index.contains_key(global) {
            Some(global)
        } else {
            None
        }
    } else {
        first_registered(index, candidates(candidate, namespace))
    }
}

/// Where a type expression leads: the kind of the symbol and the path of its
/// page.
#[derive(Debug, Clone, PartialEq, Eq)]
pub struct Target {
    pub kind: SymbolKind,
    pub path: String,
}

/// A target as contracts see it.
pub struct TargetView {
    pub kind: SymbolKind,
    pub path: Seq<char>,
}

impl View for Target {
    type V = TargetView;

    open spec fn view(&self) -> TargetView {
        TargetView { kind: self.kind, path: self.path@ }
    }
}

/// Where the type expression `type_expr`, met in `namespace`, leads: to the
/// page of the registered name that its bare name stands for.
pub open spec fn resolved(
    index: Map<Seq<char>, SymbolKind>,
    type_expr: Seq<char>,
    namespace: Seq<char>,
) -> Option<TargetView> {
    match resolved_name(index, bare_name(type_expr), namespace) {
        Some(name) => Some(TargetView { kind: index[name], path: page_path(name, index[name]) }),
        None => None,
    }
}

/// The arguments of a template instantiation read from position `i` of `s`
/// on, and the position of the `>` that closes the list, if one does.
///
/// `depth` counts the `<` that are open, `start` is where the argument
/// under way began, and `args` holds the arguments before it. A comma ends
/// an argument only where one `<` is open, so an argument that is a
/// template instantiation itself stays whole. The `>` that closes the first
/// `<` ends the last argument and the list. Every argument is taken without
/// white space at either end.
pub open spec fn template_scan(
    s: Seq<char>,
    i: int,
    depth: int,
    start: int,
    args: Seq<Seq<char>>,
) -> (Seq<Seq<char>>, Option<int>)
    decreases s.len() - i,
{
    if i < 0 || i >= s.len() {
        (args, None)
    } else if s[i] == '<' {
        template_scan(s, i + 1, depth + 1, start, args)
    } else if s[i] == ',' && depth == 1 {
        template_scan(
            s,
            i + 1,
            depth,
            i + 1,
            args.push(trimmed(s.subrange(start, i), CharClass::Whitespace)),
        )
    } else if s[i] == '>' {
        if depth == 1 {
            (args.push(trimmed(s.subrange(start, i), CharClass::Whitespace)), Some(i))
        } else {
            template_scan(s, i + 1, depth - 1, start, args)
        }
    } else {
        template_scan(s, i + 1, depth, start, args)
    }
}

/// The parts of a template instantiation.
#[derive(Debug, Clone, PartialEq, Eq)]
pub struct TemplateParts {
    /// The name of the template: what stands before the first `<`.
    pub outer: String,
    /// The arguments at the top level, in order.
    pub arguments: Vec<String>,
    /// What follows the `>` that closes the argument list.
    pub suffix: String,
}

/// The parts of a template instantiation as contracts see them.
pub struct TemplatePartsView {
    pub outer: Seq<char>,
    pub arguments: Seq<Seq<char>>,
    pub suffix: Seq<char>,
}

impl View for TemplateParts {
    type V = TemplatePartsView;

    open spec fn view(&self) -> TemplatePartsView {
        TemplatePartsView {
            outer: self.outer@,
            arguments: texts(self.arguments@),
            suffix: self.suffix@,
        }
    }
}

/// The parts of the template instantiation `s`: the name before the first
/// `<`, the arguments up to the `>` that closes it, and what follows that
/// `>`, each without white space at either end. Where no `>` closes the
/// list, the arguments are those that a comma ended, and the suffix is what
/// follows the last `>` of `s`.
pub open spec fn template_parts(s: Seq<char>) -> TemplatePartsView {
    let open = position_of(s, '<');
    let scanned = template_scan(s, open + 1, 1, open + 1, Seq::<Seq<char>>::empty());
    TemplatePartsView {
        outer: trimmed(s.take(open), CharClass::Whitespace),
        arguments: scanned.0,
        suffix: match scanned.1 {
            Some(close) => trimmed(s.skip(close + 1), CharClass::Whitespace),
            None => trimmed(after_last(s, '>'), CharClass::Whitespace),
        },
    }
}

/// Every argument that a scan adds is shorter than the text that is
/// scanned, and the scan keeps the arguments that it began with.
pub proof fn lemma_template_scan(s: Seq<char>, i: int, depth: int, start: int, args: Seq<Seq<char>>)
    requires
        0 <= start <= i,
    ensures
        ({
            let r = template_scan(s, i, depth, start, args);
            &&& r.0.len() >= args.len()
            &&& forall|k: int| 0 <= k < args.len() ==> #[trigger] r.0[k] == args[k]
            &&& forall|k: int| args.len() <= k < r.0.len() ==> (#[trigger] r.0[k]).len() < s.len()
            &&& r.1 matches Some(q) ==> i <= q < s.len()
        }),
    decreases s.len() - i,
{
    let r = template_scan(s, i, depth, start, args);
    if i >= s.len() {
    } else if s[i] == '<' {
        lemma_template_scan(s, i + 1, depth + 1, start, args);
    } else if s[i] == ',' && depth == 1 {
        let piece = trimmed(s.subrange(start, i), CharClass::Whitespace);
        let more = args.push(piece);
        lemma_trimmed_len(s.subrange(start, i), CharClass::Whitespace);
        lemma_template_scan(s, i + 1, depth, i + 1, more);
        assert forall|k: int| 0 <= k < args.len() implies #[trigger] r.0[k] == args[k] by {
            assert(r.0[k] == more[k]);
        }
        assert forall|k: int| args.len() <= k < r.0.len() implies (#[trigger] r.0[k]).len()
            < s.len() by {
            if k == args.len() {
                assert(r.0[k] == more[k]);
            }
        }
    } else if s[i] == '>' {
        if depth == 1 {
            lemma_trimmed_len(s.subrange(start, i), CharClass::Whitespace);
        } else {
            lemma_template_scan(s, i + 1, depth - 1, start, args);
        }
    } else {
        lemma_template_scan(s, i + 1, depth, start, args);
    }
}

/// Every argument of a template instantiation is shorter than the
/// instantiation.
pub proof fn lemma_argument_shorter(s: Seq<char>, k: int)
    requires
        0 <= k < template_parts(s).arguments.len(),
    ensures
        template_parts(s).arguments[k].len() < s.len(),
{
    let open = position_of(s, '<');
    lemma_position_bounds(s, '<');
    lemma_template_scan(s, open + 1, 1, open + 1, Seq::<Seq<char>>::empty());
}

/// The position of the first `c` lies within the text or at its end.
pub proof fn lemma_position_bounds(s: Seq<char>, c: char)
    ensures
        0 <= position_of(s, c) <= s.len(),
    decreases s.len(),
{
    if s.len() != 0 && s[0] != c {
        lemma_position_bounds(s.skip(1), c);
    }
}

/// The link to the page at `path`, below the address `base` of the site,
/// that shows `text` highlighted as a type.
pub open spec fn anchor(base: Seq<char>, path: Seq<char>, text: Seq<char>) -> Seq<char> {
    "<a href=\""@ + base + "/"@ + path + ".html\"><span class=\"kt\">"@ + text + "</span></a>"@
}

/// The link for the text `name` of a type that is no template
/// instantiation, met in `namespace`: a link to where it leads, followed by
/// its decoration, or nothing where it leads nowhere.
pub open spec fn name_link(
    index: Map<Seq<char>, SymbolKind>,
    name: Seq<char>,
    namespace: Seq<char>,
    base: Seq<char>,
) -> Option<Seq<char>> {
    match resolved(index, name, namespace) {
        Some(target) => Some(anchor(base, target.path, link_text(name)) + decoration_of(name)),
        None => None,
    }
}

/// The link where there is one, the plain text of the type otherwise.
pub open spec fn link_or_plain(link: Option<Seq<char>>, t: Seq<char>) -> Seq<char> {
    match link {
        Some(l) => l,
        None => plain_type(t),
    }
}

/// The link for the text `name` of a type met in `namespace`.
///
/// A template instantiation always has one: the link of its outer name or,
/// where that resolves to nothing, its plain text, then the links or plain
/// texts of its arguments between `&lt;` and `&gt;`, and its suffix. Any
/// other text has the link of the name it stands for, if it stands for one.
pub open spec fn type_link(
    index: Map<Seq<char>, SymbolKind>,
    name: Seq<char>,
    namespace: Seq<char>,
    base: Seq<char>,
) -> Option<Seq<char>>
    decreases name.len(), template_parts(name).arguments.len() + 1,
{
    if name.contains('<') {
        let parts = template_parts(name);
        Some(
            link_or_plain(name_link(index, parts.outer, namespace, base), parts.outer) + "&lt;"@
                + arguments_link(index, name, namespace, base, parts.arguments.len()) + "&gt;"@
                + parts.suffix,
        )
    } else {
        name_link(index, name, namespace, base)
    }
}

/// The links or plain texts of the first `k` arguments of the template
/// instantiation `name`, with `, ` between each two neighbours.
pub open spec fn arguments_link(
    index: Map<Seq<char>, SymbolKind>,
    name: Seq<char>,
    namespace: Seq<char>,
    base: Seq<char>,
    k: nat,
) -> Seq<char>
    decreases name.len(), k,
{
    if k == 0 || k > template_parts(name).arguments.len() {
        Seq::<char>::empty()
    } else {
        let argument = template_parts(name).arguments[k - 1];
        let before = arguments_link(index, name, namespace, base, (k - 1) as nat);
        let separator = if k > 1 {
            ", "@
        } else {
            Seq::<char>::empty()
        };
        proof {
            lemma_argument_shorter(name, k - 1);
        }
        before + separator + link_or_plain(type_link(index, argument, namespace, base), argument)
    }
}

/// Where none of the first `k` names is registered, the first registered
/// name is the first among the rest.
pub proof fn lemma_first_registered(index: Map<Seq<char>, SymbolKind>, names: Seq<Seq<char>>, k: int)
    requires
        0 <= k <= names.len(),
        forall|j: int| 0 <= j < k ==> !index.contains_key(#[trigger] names[j]),
    ensures
        first_registered(index, names) == first_registered(index, names.skip(k)),
    decreases k,
{
    if k > 0 {
        assert(!index.contains_key(names[0]));
        assert forall|j: int| 0 <= j < k - 1 implies !index.contains_key(
            #[trigger] names.skip(1)[j],
        ) by {
            assert(names.skip(1)[j] == names[j + 1]);
        }
        lemma_first_registered(index, names.skip(1), k - 1);
        assert(names.skip(1).skip(k - 1) =~= names.skip(k));
    } else {
        assert(names.skip(0) =~= names);
    }
}

/// The text of a type as it is shown where nothing links it.
pub fn cleanup_type(type_: &str) -> (r: String)
    ensures
        r@ == cleaned_type(type_@),
{
    let first = replace(type_, " &", "</span>&");
    replace(first.as_str(), " *", "</span>*")
}

/// The text of a type that resolves to nothing, highlighted as a type.
pub fn plain(type_: &str) -> (r: String)
    ensures
        r@ == plain_type(type_@),
{
    let mut out = owned("<span class=\"kt\">");
    out.append(cleanup_type(type_).as_str());
    out.append("</span>");
    out
}

/// The registered name that `candidate`, met in `namespace`, stands for.
pub fn resolve_name(candidate: &str, namespace: &str, index: &SymbolIndex) -> (r: Option<String>)
    ensures
        resolved_name(index@, candidate@, namespace@) == match r {
            Some(n) => Some(n@),
            None => None::<Seq<char>>,
        },
        r matches Some(n) ==> index@.contains_key(n@),
{
    if starts_with(candidate, "::") {
        let global = strip_leading(candidate, "::");
        if index.contains(global.as_str()) {
            Some(global)
        } else {
            None
        }
    } else {
        let ghost names = candidates(candidate@, namespace@);
        let mut first = owned(namespace);
        first.append("::");
        first.append(candidate);
        if index.contains(first.as_str()) {
            return Some(first);
        }
        if index.contains(candidate) {
            proof {
                lemma_first_registered(index@, names, 1);
            }
            return Some(owned(candidate));
        }
        let parts = split(namespace, "::");
        proof {
            lemma_split_nonempty(namespace@, "::"@);
        }
        let total = parts.len();
        let mut count: usize = total - 1;
        while count >= 1
            invariant
                total == parts@.len(),
                total >= 1,
                count <= total - 1,
                names == candidates(candidate@, namespace@),
                !has_prefix(candidate@, "::"@),
                texts(parts@) == split_on(namespace@, "::"@),
                names.len() == total + 1,
                forall|t: int| 0 <= t < total + 1 - count ==> !index@.contains_key(#[trigger] names[t]),
            decreases count,
        {
            let mut key = join_first(&parts, count, "::");
            key.append("::");
            key.append(candidate);
            let ghost at = total + 1 - count;
            proof {
                assert(names[at] == ancestor_names(texts(parts@), candidate@)[at - 2]);
                assert(names[at] == key@);
            }
            if index.contains(key.as_str()) {
                proof {
                    lemma_first_registered(index@, names, at);
                    assert(names.skip(at)[0] == names[at]);
                }
                return Some(key);
            }
            count = count - 1;
        }
        proof {
            lemma_first_registered(index@, names, names.len() as int);
        }
        None
    }
}

/// Where the type expression `type_expr`, met in `namespace`, leads, or
/// `None` where it names nothing that is registered.
pub fn resolve(type_expr: &str, namespace: &str, index: &SymbolIndex) -> (r: Option<Target>)
    ensures
        resolved(index@, type_expr@, namespace@) == match r {
            Some(t) => Some(t@),
            None => None::<TargetView>,
        },
{
    let stripped = strip_leading(type_expr, "const ");
    let bare = trim(stripped.as_str(), CharClass::Decoration);
    match resolve_name(bare.as_str(), namespace, index) {
        Some(name) => {
            let kind = index.get(name.as_str());
            let path = get_path_for_name(name.as_str(), index);
            match (kind, path) {
                (Some(kind), Some(path)) => Some(Target { kind, path }),
                _ => None,
            }
        },
        None => None,
    }
}

/// The parts of the template instantiation whose characters are `chars` and
/// whose first `<` stands at `open`.
fn split_at_open(chars: &Vec<char>, open: usize) -> (r: TemplateParts)
    requires
        open < chars@.len(),
        open == position_of(chars@, '<'),
    ensures
        r@ == template_parts(chars@),
{
    let len = chars.len();
    let ghost s = chars@;
    let outer = trimmed_range(chars, 0, open, CharClass::Whitespace);
    let mut arguments: Vec<String> = Vec::new();
    let mut depth: usize = 1;
    let mut start: usize = open + 1;
    let mut i: usize = open + 1;
    let ghost whole = template_scan(s, open + 1, 1, open + 1, Seq::<Seq<char>>::empty());
    proof {
        assert(texts(arguments@) =~= Seq::<Seq<char>>::empty());
        assert(s.take(open as int) =~= s.subrange(0, open as int));
    }
    while i < len
        invariant
            len == chars@.len(),
            s == chars@,
            open < start <= i <= len,
            1 <= depth <= i,
            open == position_of(s, '<'),
            outer@ == trimmed(s.take(open as int), CharClass::Whitespace),
            whole == template_scan(s, open + 1, 1, open + 1, Seq::<Seq<char>>::empty()),
            template_scan(s, i as int, depth as int, start as int, texts(arguments@)) == whole,
        decreases len - i,
    {
        let c = chars[i];
        let ghost before = texts(arguments@);
        if c == '<' {
            depth = depth + 1;
        } else if c == ',' && depth == 1 {
            let piece = trimmed_range(chars, start, i, CharClass::Whitespace);
            arguments.push(piece);
            assert(texts(arguments@) =~= before.push(piece@));
            start = i + 1;
        } else if c == '>' {
            if depth == 1 {
                let piece = trimmed_range(chars, start, i, CharClass::Whitespace);
                arguments.push(piece);
                assert(texts(arguments@) =~= before.push(piece@));
                let suffix = trimmed_range(chars, i + 1, len, CharClass::Whitespace);
                assert(s.skip(i + 1) =~= s.subrange(i + 1, len as int));
                return TemplateParts { outer, arguments, suffix };
            }
            depth = depth - 1;
        }
        i = i + 1;
    }
    let from = after_last_start(chars, '>');
    let suffix = trimmed_range(chars, from, len, CharClass::Whitespace);
    assert(s.skip(from as int) =~= s.subrange(from as int, len as int));
    TemplateParts { outer, arguments, suffix }
}

/// The parts of `name` where `name` is a template instantiation, that is,
/// where it holds a `<`.
pub fn split_template(name: &str) -> (r: Option<TemplateParts>)
    ensures
        r is Some <==> name@.contains('<'),
        r matches Some(parts) ==> parts@ == template_parts(name@),
{
    let chars = chars_of(name);
    let open = find_char(&chars, '<');
    if open < chars.len() {
        Some(split_at_open(&chars, open))
    } else {
        None
    }
}

/// The link for the text `name` of a type that is no template
/// instantiation.
pub fn link_name(name: &str, curr_namespace: &str, base_url: &str, index: &SymbolIndex) -> (r:
    Option<String>)
    ensures
        name_link(index@, name@, curr_namespace@, base_url@) == match r {
            Some(l) => Some(l@),
            None => None::<Seq<char>>,
        },
{
    match resolve(name, curr_namespace, index) {
        Some(target) => {
            let shown = trim(name, CharClass::Decoration);
            let rest = strip_leading(name, shown.as_str());
            let decoration = trim(rest.as_str(), CharClass::Whitespace);
            let mut out = owned("<a href=\"");
            out.append(base_url);
            out.append("/");
            out.append(target.path.as_str());
            out.append(".html\"><span class=\"kt\">");
            out.append(shown.as_str());
            out.append("</span></a>");
            out.append(decoration.as_str());
            Some(out)
        },
        None => None,
    }
}

/// The link for the text `name` of a type met in the namespace
/// `curr_namespace`, for a site at the address `base_url`; `None` where
/// `name` is no template instantiation and names nothing that is
/// registered.
pub fn get_link_for_type(
    name: &str,
    curr_namespace: &str,
    base_url: &str,
    index: &SymbolIndex,
) -> (r: Option<String>)
    ensures
        type_link(index@, name@, curr_namespace@, base_url@) == match r {
            Some(l) => Some(l@),
            None => None::<Seq<char>>,
        },
    decreases name@.len(),
{
    match split_template(name) {
        Some(parts) => {
            let mut out = match link_name(parts.outer.as_str(), curr_namespace, base_url, index) {
                Some(l) => l,
                None => plain(parts.outer.as_str()),
            };
            out.append("&lt;");
            let ghost head = out@;
            let mut k: usize = 0;
            let mut list = String::new();
            while k < parts.arguments.len()
                invariant
                    k <= parts.arguments@.len(),
                    parts@ == template_parts(name@),
                    list@ == arguments_link(
                        index@,
                        name@,
                        curr_namespace@,
                        base_url@,
                        k as nat,
                    ),
                decreases parts.arguments@.len() - k,
            {
                let argument = parts.arguments[k].as_str();
                proof {
                    lemma_argument_shorter(name@, k as int);
                    assert(texts(parts.arguments@)[k as int] == argument@);
                }
                if k > 0 {
                    list.append(", ");
                }
                match get_link_for_type(argument, curr_namespace, base_url, index) {
                    Some(l) => {
                        list.append(l.as_str());
                    },
                    None => {
                        list.append(plain(argument).as_str());
                    },
                }
                k = k + 1;
            }
            out.append(list.as_str());
            out.append("&gt;");
            out.append(parts.suffix.as_str());
            Some(out)
        },
        None => link_name(name, curr_namespace, base_url, index),
    }
}

/// A text without `&`, `*` and spaces is its own bare name and is shown
/// whole.
pub proof fn lemma_undecorated(s: Seq<char>)
    requires
        forall|i: int| 0 <= i < s.len() ==> !is_decoration(#[trigger] s[i]),
    ensures
        bare_name(s) == s,
        link_text(s) == s,
{
    reveal_strlit("const ");
    if has_prefix(s, "const "@) {
        assert(s.take(6)[5] == ' ');
        assert(is_decoration(s[5]));
    }
    if s.len() > 0 {
        assert(!is_decoration(s[0]));
        assert(!is_decoration(s[s.len() - 1]));
    }
}

/// A registered name that is written absolutely leads, from any namespace,
/// where its last part leads from the namespace that the rest of it names:
/// for a registered `namespace::last`, resolving `::namespace::last`
/// anywhere and resolving `last` in `namespace` both succeed and agree.
///
/// The name has to be a plain qualified name: it holds no `&`, `*` or
/// space, and neither the name nor its last part begins with `::`.
pub proof fn lemma_absolute_agrees_with_scoped(
    index: Map<Seq<char>, SymbolKind>,
    namespace: Seq<char>,
    last: Seq<char>,
    elsewhere: Seq<char>,
)
    requires
        index.contains_key(namespace + "::"@ + last),
        forall|i: int|
            0 <= i < (namespace + "::"@ + last).len() ==> !is_decoration(
                #[trigger] (namespace + "::"@ + last)[i],
            ),
        !has_prefix(last, "::"@),
        !has_prefix(namespace + "::"@ + last, "::"@),
    ensures
        resolved(index, last, namespace) is Some,
        resolved(index, "::"@ + (namespace + "::"@ + last), elsewhere) == resolved(
            index,
            last,
            namespace,
        ),
{
    reveal_strlit("::");
    let name = namespace + "::"@ + last;
    let absolute = "::"@ + name;
    assert forall|i: int| 0 <= i < last.len() implies !is_decoration(#[trigger] last[i]) by {
        assert(last[i] == name[namespace.len() + 2 + i]);
    }
    assert forall|i: int| 0 <= i < absolute.len() implies !is_decoration(
        #[trigger] absolute[i],
    ) by {
        if i >= 2 {
            assert(absolute[i] == name[i - 2]);
        }
    }
    lemma_undecorated(last);
    lemma_undecorated(absolute);
    assert(absolute.take(2) =~= "::"@);
    assert(absolute.skip(2) =~= name);
    assert(without_leading(absolute, "::"@) == without_leading(name, "::"@));
    assert(candidates(last, namespace)[0] == name);
}

/// A name that is registered in a namespace around `namespace`, and nowhere
/// nearer, is found there: where `candidate` is registered neither in
/// `namespace` nor globally nor in any namespace between, it stands for
/// its name in the nearest namespace around in which it is registered.
///
/// `depth` is the number of components of `namespace` that name that
/// namespace.
pub proof fn lemma_found_in_ancestor(
    index: Map<Seq<char>, SymbolKind>,
    candidate: Seq<char>,
    namespace: Seq<char>,
    depth: int,
)
    requires
        !has_prefix(candidate, "::"@),
        1 <= depth < split_on(namespace, "::"@).len(),
        index.contains_key(
            joined(split_on(namespace, "::"@).take(depth), "::"@) + "::"@ + candidate,
        ),
        !index.contains_key(namespace + "::"@ + candidate),
        !index.contains_key(candidate),
        forall|nearer: int|
            depth < nearer < split_on(namespace, "::"@).len() ==> !index.contains_key(
                #[trigger] joined(split_on(namespace, "::"@).take(nearer), "::"@) + "::"@
                    + candidate,
            ),
    ensures
        resolved_name(index, candidate, namespace) == Some(
            joined(split_on(namespace, "::"@).take(depth), "::"@) + "::"@ + candidate,
        ),
{
    let parts = split_on(namespace, "::"@);
    let names = candidates(candidate, namespace);
    let at = parts.len() + 1 - depth;
    assert forall|t: int| 0 <= t < at implies !index.contains_key(#[trigger] names[t]) by {
        if t >= 2 {
            let nearer = parts.len() - 1 - (t - 2);
            assert(names[t] == ancestor_names(parts, candidate)[t - 2]);
            assert(names[t] == joined(parts.take(nearer), "::"@) + "::"@ + candidate);
        }
    }
    assert(names[at] == ancestor_names(parts, candidate)[at - 2]);
    lemma_first_registered(index, names, at);
    assert(names.skip(at)[0] == names[at]);
}

/// Resolution is a function of what the index holds and of the characters
/// of the type expression and of the namespace: it depends on nothing else,
/// and so gives the same answer whenever it is asked the same question.
pub proof fn lemma_resolution_is_pure(
    index: SymbolIndex,
    type_expr: String,
    namespace: String,
    same_index: SymbolIndex,
    same_type_expr: String,
    same_namespace: String,
    base: String,
    same_base: String,
)
    requires
        index@ == same_index@,
        type_expr@ == same_type_expr@,
        namespace@ == same_namespace@,
        base@ == same_base@,
    ensures
        resolved(index@, type_expr@, namespace@) == resolved(
            same_index@,
            same_type_expr@,
            same_namespace@,
        ),
        type_link(index@, type_expr@, namespace@, base@) == type_link(
            same_index@,
            same_type_expr@,
            same_namespace@,
            same_base@,
        ),
{
}

} // verus!
