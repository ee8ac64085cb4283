//! Where the page of a symbol stands in the site, and the rendering of the
//! comments of the model.

use crate::index::{SymbolIndex, SymbolKind};
use crate::model::{Comment, Enum, Function, Namespace, Record};
use crate::text::{
    join_first, joined, replace, replaced, split, split_on, strip_leading, texts, without_leading,
};
use vstd::prelude::*;
use vstd::string::StringExecFns;

verus! {

/// The path of the directory that stands for the namespace `name`: its
/// components, with `/` in the place of `::`.
pub open spec fn namespace_path(name: Seq<char>) -> Seq<char> {
    replaced(name, "::"@, "/"@)
}

/// The path, below the root of the site and without its extension, of the
/// page of the symbol that is registered as `name` with the kind `kind`.
///
/// The page of a namespace is the `index` of its directory. The page of any
/// other symbol is named by the kind, a dot and the last component of the
/// name, where a `/` is written `slash`; it stands in the directory that the
/// components before the last one name.
pub open spec fn page_path(name: Seq<char>, kind: SymbolKind) -> Seq<char> {
    if kind == SymbolKind::Namespace {
        namespace_path(name) + "/index"@
    } else {
        let parts = split_on(without_leading(name, "::"@), "::"@);
        if parts.len() > 1 {
            joined(parts.drop_last(), "/"@) + "/"@ + kind.text() + "."@ + replaced(
                parts.last(),
                "/"@,
                "slash"@,
            )
        } else {
            kind.text() + "."@ + replaced(parts.last(), "/"@, "slash"@)
        }
    }
}

/// The path of the page of `name`, where `name` is registered.
pub open spec fn path_for_name(index: Map<Seq<char>, SymbolKind>, name: Seq<char>) -> Option<
    Seq<char>,
> {
    if index.contains_key(name) {
        Some(page_path(name, index[name]))
    } else {
        None
    }
}

/// The path of the page of the symbol that is registered as `name` with the
/// kind `kind`.
pub fn path_of_page(name: &str, kind: SymbolKind) -> (r: String)
    ensures
        r@ == page_path(name@, kind),
{
    if kind == SymbolKind::Namespace {
        let mut out = get_namespace_path(name);
        out.append("/index");
        return out;
    }
    let bare = strip_leading(name, "::");
    let parts = split(bare.as_str(), "::");
    proof {
        crate::text::lemma_split_nonempty(bare@, "::"@);
    }
    let last = replace(parts[parts.len() - 1].as_str(), "/", "slash");
    let mut out = String::new();
    if parts.len() > 1 {
        out = join_first(&parts, parts.len() - 1, "/");
        out.append("/");
        proof {
            assert(texts(parts@).take(parts@.len() - 1) =~= texts(parts@).drop_last());
        }
    }
    out.append(kind.as_str());
    out.append(".");
    out.append(last.as_str());
    proof {
        assert(texts(parts@).last() == parts@[parts@.len() - 1]@);
        if parts@.len() <= 1 {
            assert(out@ =~= kind.text() + "."@ + last@);
        }
    }
    out
}

/// The path of the page of the symbol that is registered as `name`, or
/// `None` where no symbol is.
pub fn get_path_for_name(name: &str, index: &SymbolIndex) -> (r: Option<String>)
    ensures
        path_for_name(index@, name@) == match r {
            Some(p) => Some(p@),
            None => None::<Seq<char>>,
        },
{
    match index.get(name) {
        Some(kind) => Some(path_of_page(name, kind)),
        None => None,
    }
}

/// The path of the directory that stands for the namespace `name`.
pub fn get_namespace_path(name: &str) -> (r: String)
    ensures
        r@ == namespace_path(name@),
{
    replace(name, "::", "/")
}

/// A page of the site that is written by hand: its title, its rendered
/// content, and the path of the file it was read from.
#[derive(Debug, Clone, PartialEq, Eq)]
pub struct Page {
    pub title: String,
    pub content: String,
    pub path: String,
}

/// `after` is the comment `before` with its brief and its description put
/// through `render`, and with everything else as it was.
pub open spec fn comment_rendered<F: Fn(&String) -> String>(
    render: F,
    before: Comment,
    after: Comment,
) -> bool {
    &&& render.ensures((&before.brief,), after.brief)
    &&& render.ensures((&before.description,), after.description)
    &&& after.impl_ == before.impl_
}

/// `after` is the comment `before`, if there is one, put through `render`.
pub open spec fn optional_comment_rendered<F: Fn(&String) -> String>(
    render: F,
    before: Option<Comment>,
    after: Option<Comment>,
) -> bool {
    match before {
        Some(b) => after matches Some(a) && comment_rendered(render, b, a),
        None => after is None,
    }
}

/// `after` is the function `before` with its comment put through `render`.
pub open spec fn function_rendered<F: Fn(&String) -> String>(
    render: F,
    before: Function,
    after: Function,
) -> bool {
    &&& optional_comment_rendered(render, before.comment, after.comment)
    &&& after == (Function { comment: after.comment, ..before })
}

/// `after` holds the functions of `before`, each with its comment put
/// through `render`.
pub open spec fn functions_rendered<F: Fn(&String) -> String>(
    render: F,
    before: Seq<Function>,
    after: Seq<Function>,
) -> bool {
    &&& after.len() == before.len()
    &&& forall|i: int|
        0 <= i < before.len() ==> function_rendered(render, before[i], #[trigger] after[i])
}

/// `after` is the enum `before` with its comment put through `render`.
pub open spec fn enum_rendered<F: Fn(&String) -> String>(
    render: F,
    before: Enum,
    after: Enum,
) -> bool {
    &&& optional_comment_rendered(render, before.comment, after.comment)
    &&& after == (Enum { comment: after.comment, ..before })
}

/// `after` is the record `before` with its own comment and the comments of
/// its methods and constructors put through `render`.
pub open spec fn record_rendered<F: Fn(&String) -> String>(
    render: F,
    before: Record,
    after: Record,
) -> bool {
    &&& optional_comment_rendered(render, before.comment, after.comment)
    &&& functions_rendered(render, before.methods@, after.methods@)
    &&& functions_rendered(render, before.ctor@, after.ctor@)
    &&& after == (Record {
        comment: after.comment,
        methods: after.methods,
        ctor: after.ctor,
        ..before
    })
}

/// `after` is the namespace `before` with its own comment and the comments
/// of its functions, records, enums and namespaces, all the way down, put
/// through `render`. Its aliases are as they were.
pub open spec fn namespace_rendered<F: Fn(&String) -> String>(
    render: F,
    before: Namespace,
    after: Namespace,
) -> bool
    decreases before,
{
    &&& optional_comment_rendered(render, before.comment, after.comment)
    &&& functions_rendered(render, before.functions@, after.functions@)
    &&& after.records@.len() == before.records@.len()
    &&& forall|i: int|
        0 <= i < before.records@.len() ==> record_rendered(
            render,
            before.records@[i],
            #[trigger] after.records@[i],
        )
    &&& after.enums@.len() == before.enums@.len()
    &&& forall|i: int|
        0 <= i < before.enums@.len() ==> enum_rendered(
            render,
            before.enums@[i],
            #[trigger] after.enums@[i],
        )
    &&& after.namespaces@.len() == before.namespaces@.len()
    &&& forall|i: int|
        0 <= i < before.namespaces@.len() ==> namespace_rendered(
            render,
            before.namespaces@[i],
            #[trigger] after.namespaces@[i],
        )
    &&& after == (Namespace {
        comment: after.comment,
        functions: after.functions,
        records: after.records,
        enums: after.enums,
        namespaces: after.namespaces,
        ..before
    })
}

/// Puts the brief and the description of a comment through `render`, the
/// brief first.
fn process_comment<F: Fn(&String) -> String>(comment: &mut Option<Comment>, render: &F)
    requires
        forall|s: &String| render.requires((s,)),
    ensures
        optional_comment_rendered(*render, *old(comment), *final(comment)),
{
    match comment {
        Some(c) => {
            let brief = render(&c.brief);
            let description = render(&c.description);
            c.brief = brief;
            c.description = description;
        },
        None => {},
    }
}

/// Puts the comments of every function of `functions` through `render`.
fn process_functions<F: Fn(&String) -> String>(functions: &mut Vec<Function>, render: &F)
    requires
        forall|s: &String| render.requires((s,)),
    ensures
        functions_rendered(*render, old(functions)@, final(functions)@),
{
    let ghost before = functions@;
    let mut i: usize = 0;
    while i < functions.len()
        invariant
            forall|s: &String| render.requires((s,)),
            functions@.len() == before.len(),
            i <= before.len(),
            forall|j: int|
                0 <= j < i ==> function_rendered(*render, before[j], #[trigger] functions@[j]),
            forall|j: int| i <= j < before.len() ==> functions@[j] == before[j],
        decreases before.len() - i,
    {
        process_function(&mut functions[i], render);
        i = i + 1;
    }
}

/// Puts the comment of a function through `render`.
pub fn process_function<F: Fn(&String) -> String>(func: &mut Function, render: &F)
    requires
        forall|s: &String| render.requires((s,)),
    ensures
        function_rendered(*render, *old(func), *final(func)),
{
    process_comment(&mut func.comment, render);
}

/// Puts the comment of an enum through `render`.
pub fn process_enum<F: Fn(&String) -> String>(enm: &mut Enum, render: &F)
    requires
        forall|s: &String| render.requires((s,)),
    ensures
        enum_rendered(*render, *old(enm), *final(enm)),
{
    process_comment(&mut enm.comment, render);
}

/// Puts the comment of a record, and then the comments of its methods and
/// of its constructors, through `render`.
pub fn process_record<F: Fn(&String) -> String>(record: &mut Record, render: &F)
    requires
        forall|s: &String| render.requires((s,)),
    ensures
        record_rendered(*render, *old(record), *final(record)),
{
    process_comment(&mut record.comment, render);
    process_functions(&mut record.methods, render);
    process_functions(&mut record.ctor, render);
}

/// Puts the comment of a namespace, and then the comments of its functions,
/// records, enums and namespaces, through `render`.
pub fn process_namespace<F: Fn(&String) -> String>(namespace: &mut Namespace, render: &F)
    requires
        forall|s: &String| render.requires((s,)),
    ensures
        namespace_rendered(*render, *old(namespace), *final(namespace)),
    decreases *old(namespace),
{
    let ghost before = *namespace;
    process_comment(&mut namespace.comment, render);
    process_functions(&mut namespace.functions, render);
    let mut i: usize = 0;
    while i < namespace.records.len()
        invariant
            forall|s: &String| render.requires((s,)),
            namespace.records@.len() == before.records@.len(),
            i <= before.records@.len(),
            forall|j: int|
                0 <= j < i ==> record_rendered(
                    *render,
                    before.records@[j],
                    #[trigger] namespace.records@[j],
                ),
            forall|j: int| i <= j < before.records@.len() ==> namespace.records@[j] == before.records@[j],
            *namespace == (Namespace { records: namespace.records, ..*namespace }),
            optional_comment_rendered(*render, before.comment, namespace.comment),
            functions_rendered(*render, before.functions@, namespace.functions@),
            namespace.enums == before.enums,
            namespace.namespaces == before.namespaces,
            namespace.aliases == before.aliases,
            namespace.name == before.name,
            namespace.namespace == before.namespace,
        decreases before.records@.len() - i,
    {
        process_record(&mut namespace.records[i], render);
        i = i + 1;
    }
    let mut i: usize = 0;
    while i < namespace.enums.len()
        invariant
            forall|s: &String| render.requires((s,)),
            namespace.enums@.len() == before.enums@.len(),
            i <= before.enums@.len(),
            forall|j: int|
                0 <= j < i ==> enum_rendered(
                    *render,
                    before.enums@[j],
                    #[trigger] namespace.enums@[j],
                ),
            forall|j: int| i <= j < before.enums@.len() ==> namespace.enums@[j] == before.enums@[j],
            optional_comment_rendered(*render, before.comment, namespace.comment),
            functions_rendered(*render, before.functions@, namespace.functions@),
            namespace.records@.len() == before.records@.len(),
            forall|j: int|
                0 <= j < before.records@.len() ==> record_rendered(
                    *render,
                    before.records@[j],
                    #[trigger] namespace.records@[j],
                ),
            namespace.namespaces == before.namespaces,
            namespace.aliases == before.aliases,
            namespace.name == before.name,
            namespace.namespace == before.namespace,
        decreases before.enums@.len() - i,
    {
        process_enum(&mut namespace.enums[i], render);
        i = i + 1;
    }
    let mut i: usize = 0;
    while i < namespace.namespaces.len()
        invariant
            forall|s: &String| render.requires((s,)),
            before == *old(namespace),
            namespace.namespaces@.len() == before.namespaces@.len(),
            i <= before.namespaces@.len(),
            forall|j: int|
                0 <= j < i ==> namespace_rendered(
                    *render,
                    before.namespaces@[j],
                    #[trigger] namespace.namespaces@[j],
                ),
            forall|j: int|
                i <= j < before.namespaces@.len() ==> namespace.namespaces@[j]
                    == before.namespaces@[j],
            optional_comment_rendered(*render, before.comment, namespace.comment),
            functions_rendered(*render, before.functions@, namespace.functions@),
            namespace.records@.len() == before.records@.len(),
            forall|j: int|
                0 <= j < before.records@.len() ==> record_rendered(
                    *render,
                    before.records@[j],
                    #[trigger] namespace.records@[j],
                ),
            namespace.enums@.len() == before.enums@.len(),
            forall|j: int|
                0 <= j < before.enums@.len() ==> enum_rendered(
                    *render,
                    before.enums@[j],
                    #[trigger] namespace.enums@[j],
                ),
            namespace.aliases == before.aliases,
            namespace.name == before.name,
            namespace.namespace == before.namespace,
        decreases before.namespaces@.len() - i,
    {
        proof {
            assert(namespace.namespaces@[i as int] == before.namespaces@[i as int]);
            assert(decreases_to!(before => before.namespaces@[i as int]));
        }
        process_namespace(&mut namespace.namespaces[i], render);
        i = i + 1;
    }
}

} // verus!
