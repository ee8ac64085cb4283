//! The model builder: one walk over the declarations of a parsed file that
//! fills the tree of namespaces and the symbol index.
//!
//! Every building function has a spec function beside it that says what it
//! builds, and when: a declaration is complete when it holds every name and
//! type that building reads. A declaration that is not complete is never
//! built in part: the functions that build one value return `None`, and the
//! walk records a diagnostic and goes on.

use crate::entity::{Entity, EntityKind};
use crate::index::{SymbolIndex, SymbolKind};
use crate::model::{
    aliases_view, comment_of, empty_namespace, enum_values_view, enums_view, fields_view,
    functions_view, lemma_function_view, lemma_namespace_view, lemma_record_view, namespaces_view,
    nesteds_of, nesteds_view, records_view, template_of, template_parameters_view, text_of, Alias,
    AliasView, Enum, EnumValue, EnumValueView, EnumView, Field, FieldView, Function, FunctionProps,
    FunctionView, Namespace, NamespaceView, NestedField, NestedFieldView, Output, Record,
    RecordView, Template, TemplateParameter, TemplateParameterView, TemplateView,
};
use crate::text::{
    contains, has_prefix, occurs_in, owned, push_char, replace, replaced, starts_with,
    strip_leading, without_leading,
};
use vstd::prelude::*;
use vstd::string::StringExecFns;

verus! {

/// The template parameter that the declaration `c` stands for: its name, and
/// `typename` for a type, the text of its own type for a value, `template`
/// for a template.
pub open spec fn template_parameter_of(c: Entity) -> TemplateParameterView {
    TemplateParameterView {
        name: c.name_text(),
        type_: match c.kind {
            EntityKind::TemplateTypeParameter => "typename"@,
            EntityKind::NonTypeTemplateParameter => c.type_characters(),
            _ => "template"@,
        },
    }
}

/// The template parameters among `children`, in declaration order.
pub open spec fn template_parameters_of(children: Seq<Entity>) -> Seq<TemplateParameterView>
    decreases children.len(),
{
    if children.len() == 0 {
        Seq::<TemplateParameterView>::empty()
    } else {
        let before = template_parameters_of(children.drop_last());
        if children.last().kind.is_template_parameter() {
            before.push(template_parameter_of(children.last()))
        } else {
            before
        }
    }
}

/// Every value parameter among the children of `node` has a type.
pub open spec fn complete_template(node: Entity) -> bool {
    forall|i: int|
        0 <= i < node.children@.len() && (#[trigger] node.children@[i]).kind
            == EntityKind::NonTypeTemplateParameter ==> node.children@[i].type_text is Some
}

/// The parameter list of the template that `node` declares.
pub open spec fn template_of_entity(node: Entity) -> TemplateView {
    TemplateView { parameters: template_parameters_of(node.children@) }
}

/// The parameter of a function that the declaration `c` stands for.
pub open spec fn parameter_of(c: Entity) -> FieldView {
    FieldView { name: c.name_text(), type_: c.type_characters(), comment: None, struct_: None }
}

/// The parameters of a function among `children`, in declaration order.
pub open spec fn parameters_of(children: Seq<Entity>) -> Seq<FieldView>
    decreases children.len(),
{
    if children.len() == 0 {
        Seq::<FieldView>::empty()
    } else {
        let before = parameters_of(children.drop_last());
        if children.last().kind == EntityKind::ParmDecl {
            before.push(parameter_of(children.last()))
        } else {
            before
        }
    }
}

/// `node` has a name and a result type, each of its parameters has a type,
/// and, where it is a template, its template parameters are complete.
pub open spec fn complete_function(node: Entity) -> bool {
    &&& node.name is Some
    &&& node.result_type is Some
    &&& forall|i: int|
        0 <= i < node.children@.len() && (#[trigger] node.children@[i]).kind
            == EntityKind::ParmDecl ==> node.children@[i].type_text is Some
    &&& node.kind == EntityKind::FunctionTemplate ==> complete_template(node)
}

/// The function that `node` declares. A double quote in its name is written
/// `&quot`, so that the name can stand inside a link. It belongs to no
/// namespace yet and has no overloads.
pub open spec fn function_of(node: Entity) -> FunctionView {
    FunctionView {
        name: replaced(node.name_text(), "\""@, "&quot"@),
        return_type: match node.result_type {
            Some(t) => t@,
            None => Seq::<char>::empty(),
        },
        parameters: parameters_of(node.children@),
        comment: comment_of(node.comment),
        props: FunctionProps {
            const_: node.is_const_method,
            static_: node.is_static_method,
            virtual_: node.is_virtual_method,
        },
        namespace: None,
        template: if node.kind == EntityKind::FunctionTemplate {
            Some(template_of_entity(node))
        } else {
            None
        },
        overloads: None,
    }
}

/// The value of an enum that the declaration `c` stands for.
pub open spec fn enum_value_of(c: Entity) -> EnumValueView {
    EnumValueView { name: c.name_text(), comment: comment_of(c.comment) }
}

/// The values of an enum among `children`, in declaration order.
pub open spec fn enum_values_of(children: Seq<Entity>) -> Seq<EnumValueView>
    decreases children.len(),
{
    if children.len() == 0 {
        Seq::<EnumValueView>::empty()
    } else {
        let before = enum_values_of(children.drop_last());
        if children.last().kind == EntityKind::EnumConstantDecl {
            before.push(enum_value_of(children.last()))
        } else {
            before
        }
    }
}

/// `node` has a name.
pub open spec fn complete_enum(node: Entity) -> bool {
    node.name is Some
}

/// The enum that `node` declares. It belongs to no namespace yet.
pub open spec fn enum_of(node: Entity) -> EnumView {
    EnumView {
        name: node.name_text(),
        comment: comment_of(node.comment),
        namespace: None,
        values: enum_values_of(node.children@),
    }
}

/// The word for the kind of record that a declaration of kind `kind` makes.
pub open spec fn record_kind_text(kind: EntityKind) -> Seq<char> {
    match kind {
        EntityKind::StructDecl => "struct"@,
        EntityKind::UnionDecl => "union"@,
        _ => "class"@,
    }
}

/// Whether a nested declaration of this name is a declaration of its own,
/// rather than the unnamed type of a field.
pub open spec fn is_named(name: Seq<char>) -> bool {
    !has_prefix(name, "(anonymous"@) && !has_prefix(name, "(unnamed"@)
}

/// The position of the first of `children` that has the kind `kind`.
pub open spec fn first_of_kind(children: Seq<Entity>, kind: EntityKind) -> Option<int>
    decreases children.len(),
{
    if children.len() == 0 {
        None
    } else {
        match first_of_kind(children.drop_last(), kind) {
            Some(i) => Some(i),
            None => if children.last().kind == kind {
                Some(children.len() - 1)
            } else {
                None
            },
        }
    }
}

/// `list` with `x` at its end; a list that was absent begins with `x`.
pub open spec fn nested_added(
    list: Option<Seq<NestedFieldView>>,
    x: NestedFieldView,
) -> Option<Seq<NestedFieldView>> {
    match list {
        Some(v) => Some(v.push(x)),
        None => Some(seq![x]),
    }
}

/// The record that `node` declares, or `None` where `node` or a declaration
/// inside it that the record is built from is not complete.
///
/// The record has the public fields, the constructors and the public methods
/// among the children of `node`, and its named nested records and enums. It
/// belongs to no namespace yet.
pub open spec fn record_of(node: Entity) -> Option<RecordView>
    decreases node, 0nat, node.children@.len() + 1,
{
    record_upto(node, node.children@.len())
}

/// The record that `node` declares, built from its first `n` children only.
pub open spec fn record_upto(node: Entity, n: nat) -> Option<RecordView>
    decreases node, 0nat, n,
{
    if n == 0 || n > node.children@.len() {
        if node.name is Some && node.kind.is_record() && (node.kind == EntityKind::ClassTemplate
            ==> complete_template(node)) {
            Some(
                RecordView {
                    name: node.name_text(),
                    fields: Seq::<FieldView>::empty(),
                    comment: comment_of(node.comment),
                    kind: record_kind_text(node.kind),
                    namespace: None,
                    ctor: Seq::<FunctionView>::empty(),
                    methods: Seq::<FunctionView>::empty(),
                    template: if node.kind == EntityKind::ClassTemplate {
                        Some(template_of_entity(node))
                    } else {
                        None
                    },
                    nested: None,
                },
            )
        } else {
            None
        }
    } else {
        match record_upto(node, (n - 1) as nat) {
            Some(r) => with_member(r, node.children@[n - 1]),
            None => None,
        }
    }
}

/// The record `r` after the declaration `c` inside it has been read.
///
/// A public field is added to the fields. A constructor is added to the
/// constructors, with no return type. A public method is added to the
/// methods, with the record's name as its namespace. A named nested record
/// or enum is added to the nested declarations, with the record's name as
/// its namespace; one without a name of its own is read and left out. Every
/// other declaration is passed over.
pub open spec fn with_member(r: RecordView, c: Entity) -> Option<RecordView>
    decreases c, 2nat, 0nat,
{
    match c.kind {
        EntityKind::FieldDecl => if c.is_public() {
            match field_of(c) {
                Some(f) => Some(RecordView { fields: r.fields.push(f), ..r }),
                None => None,
            }
        } else {
            Some(r)
        },
        EntityKind::Constructor => if complete_function(c) {
            Some(
                RecordView {
                    ctor: r.ctor.push(
                        FunctionView { return_type: Seq::<char>::empty(), ..function_of(c) },
                    ),
                    ..r
                },
            )
        } else {
            None
        },
        EntityKind::Method | EntityKind::FunctionTemplate => if c.is_public() {
            if complete_function(c) {
                Some(
                    RecordView {
                        methods: r.methods.push(
                            FunctionView { namespace: Some(r.name), ..function_of(c) },
                        ),
                        ..r
                    },
                )
            } else {
                None
            }
        } else {
            Some(r)
        },
        EntityKind::StructDecl | EntityKind::ClassDecl | EntityKind::UnionDecl | EntityKind::ClassTemplate => {
            match record_of(c) {
                Some(inner) => if is_named(inner.name) {
                    Some(
                        RecordView {
                            nested: nested_added(
                                r.nested,
                                NestedFieldView::Record(
                                    RecordView { namespace: Some(r.name), ..inner },
                                ),
                            ),
                            ..r
                        },
                    )
                } else {
                    Some(r)
                },
                None => None,
            }
        },
        EntityKind::EnumDecl => if complete_enum(c) {
            if is_named(enum_of(c).name) {
                Some(
                    RecordView {
                        nested: nested_added(
                            r.nested,
                            NestedFieldView::Enum(EnumView { namespace: Some(r.name), ..enum_of(c) }),
                        ),
                        ..r
                    },
                )
            } else {
                Some(r)
            }
        } else {
            None
        },
        _ => Some(r),
    }
}

/// The record that the first child of kind `kind` of the field `c` declares.
pub open spec fn inline_record_of(c: Entity, kind: EntityKind) -> Option<RecordView>
    decreases c, 0nat, 0nat,
{
    match first_of_kind(c.children@, kind) {
        Some(j) => if 0 <= j < c.children@.len() {
            record_of(c.children@[j])
        } else {
            None
        },
        None => None,
    }
}

/// The enum that the first child of kind `EnumDecl` of the field `c`
/// declares.
pub open spec fn inline_enum_of(c: Entity) -> Option<EnumView> {
    match first_of_kind(c.children@, EntityKind::EnumDecl) {
        Some(j) => if complete_enum(c.children@[j]) {
            Some(enum_of(c.children@[j]))
        } else {
            None
        },
        None => None,
    }
}

/// The field that `c` declares, or `None` where `c` has no type or the
/// unnamed declaration that is its type is missing or not complete.
///
/// Where the text of the type says that it is an unnamed struct, union or
/// enum, the field holds that declaration inline, and the text of its type
/// is the bare word `struct`, `union` or `enum`.
pub open spec fn field_of(c: Entity) -> Option<FieldView>
    decreases c, 1nat, 0nat,
{
    match c.type_text {
        None => None,
        Some(t) => {
            let plain = FieldView {
                name: c.name_text(),
                type_: t@,
                comment: comment_of(c.comment),
                struct_: None,
            };
            if occurs_in(t@, "(unnamed struct"@) {
                match inline_record_of(c, EntityKind::StructDecl) {
                    Some(inner) => Some(
                        FieldView {
                            type_: "struct"@,
                            struct_: Some(NestedFieldView::Record(inner)),
                            ..plain
                        },
                    ),
                    None => None,
                }
            } else if occurs_in(t@, "(unnamed union"@) {
                match inline_record_of(c, EntityKind::UnionDecl) {
                    Some(inner) => Some(
                        FieldView {
                            type_: "union"@,
                            struct_: Some(NestedFieldView::Record(inner)),
                            ..plain
                        },
                    ),
                    None => None,
                }
            } else if occurs_in(t@, "(unnamed enum"@) {
                match inline_enum_of(c) {
                    Some(inner) => Some(
                        FieldView {
                            type_: "enum"@,
                            struct_: Some(NestedFieldView::Enum(inner)),
                            ..plain
                        },
                    ),
                    None => None,
                }
            } else {
                Some(plain)
            }
        },
    }
}

/// `name` as it is known inside the scope `prefix`: behind `prefix` and `::`,
/// or bare where the scope is the global one.
pub open spec fn scoped(prefix: Seq<char>, name: Seq<char>) -> Seq<char> {
    if prefix.len() > 0 {
        prefix + "::"@ + name
    } else {
        name
    }
}

/// The fully-qualified name of a declaration called `name`: scoped by the
/// qualified name `full` of the namespace it stands in or, where that is
/// empty, by the short name `short` of that namespace.
pub open spec fn qualified(name: Seq<char>, short: Seq<char>, full: Seq<char>) -> Seq<char> {
    if full.len() > 0 {
        scoped(full, name)
    } else {
        scoped(short, name)
    }
}

/// The position of the first of `names` that equals `name`.
pub open spec fn first_named(names: Seq<Seq<char>>, name: Seq<char>) -> Option<int>
    decreases names.len(),
{
    if names.len() == 0 {
        None
    } else {
        match first_named(names.drop_last(), name) {
            Some(i) => Some(i),
            None => if names.last() == name {
                Some(names.len() - 1)
            } else {
                None
            },
        }
    }
}

/// The names of a sequence of functions.
pub open spec fn function_names(v: Seq<FunctionView>) -> Seq<Seq<char>> {
    Seq::new(v.len(), |i: int| v[i].name)
}

/// The names of a sequence of records.
pub open spec fn record_names(v: Seq<RecordView>) -> Seq<Seq<char>> {
    Seq::new(v.len(), |i: int| v[i].name)
}

/// The names of a sequence of namespaces.
pub open spec fn namespace_names(v: Seq<NamespaceView>) -> Seq<Seq<char>> {
    Seq::new(v.len(), |i: int| v[i].name)
}

/// The name of an inline declaration.
pub open spec fn nested_name(n: NestedFieldView) -> Seq<char> {
    match n {
        NestedFieldView::Record(r) => r.name,
        NestedFieldView::Enum(e) => e.name,
    }
}

/// What the index holds as the walk sees it: the kind of every registered
/// name, and the names in the order in which they first came in.
pub struct Registry {
    pub kinds: Map<Seq<char>, SymbolKind>,
    pub order: Seq<Seq<char>>,
}

/// The registry with `name` registered as `kind`. A name that is there
/// already keeps its place and takes the kind.
pub open spec fn registered(r: Registry, name: Seq<char>, kind: SymbolKind) -> Registry {
    Registry {
        kinds: r.kinds.insert(name, kind),
        order: if r.kinds.contains_key(name) {
            r.order
        } else {
            r.order.push(name)
        },
    }
}

/// A declaration nested in a record as it stands once the record stands in
/// its namespace: with `owner`, the qualified name of the record, as its
/// namespace, and, where it is a record itself, with what is nested in it
/// settled in the same way.
pub open spec fn settled_item(item: NestedFieldView, owner: Seq<char>) -> NestedFieldView
    decreases item, 0nat, 0nat,
{
    match item {
        NestedFieldView::Record(inner) => NestedFieldView::Record(settled(inner, owner)),
        NestedFieldView::Enum(e) => NestedFieldView::Enum(EnumView { namespace: Some(owner), ..e }),
    }
}

/// The record `r` as it stands in the namespace `namespace`: with
/// `namespace` as its namespace, and with every declaration nested in it,
/// all the way down, having the qualified name of the record around it as
/// its namespace.
pub open spec fn settled(r: RecordView, namespace: Seq<char>) -> RecordView
    decreases r, 1nat, 0nat,
{
    RecordView {
        namespace: Some(namespace),
        nested: match r.nested {
            Some(list) => Some(
                Seq::new(
                    list.len(),
                    |i: int|
                        if 0 <= i < list.len() {
                            settled_item(list[i], scoped(namespace, r.name))
                        } else {
                            arbitrary()
                        },
                ),
            ),
            None => None,
        },
        ..r
    }
}

/// The registry with a declaration nested in the record `owner` registered
/// under its name scoped by `owner`, after everything nested in it.
pub open spec fn registered_item(reg: Registry, item: NestedFieldView, owner: Seq<char>) -> Registry
    decreases item, 0nat, 0nat,
{
    match item {
        NestedFieldView::Record(inner) => registered(
            registered_deep(reg, inner, scoped(owner, inner.name)),
            scoped(owner, inner.name),
            SymbolKind::Record,
        ),
        NestedFieldView::Enum(e) => registered(reg, scoped(owner, e.name), SymbolKind::Enum),
    }
}

/// The registry with the first `n` declarations nested in `r` registered,
/// in order; `name` is the qualified name of `r`.
pub open spec fn registered_nested(reg: Registry, r: RecordView, name: Seq<char>, n: nat) -> Registry
    decreases r, 0nat, n,
{
    match r.nested {
        Some(list) => if n == 0 || n > list.len() {
            reg
        } else {
            registered_item(registered_nested(reg, r, name, (n - 1) as nat), list[n - 1], name)
        },
        None => reg,
    }
}

/// The registry with every declaration nested in `r`, all the way down,
/// registered; `name` is the qualified name of `r`.
pub open spec fn registered_deep(reg: Registry, r: RecordView, name: Seq<char>) -> Registry
    decreases r, 1nat, 0nat,
{
    match r.nested {
        Some(list) => registered_nested(reg, r, name, list.len()),
        None => reg,
    }
}

/// `key` is the name under which `item`, nested in the record `owner`, or
/// something nested in `item` is registered.
pub open spec fn names_item(item: NestedFieldView, owner: Seq<char>, key: Seq<char>) -> bool
    decreases item, 0nat, 0nat,
{
    key == scoped(owner, nested_name(item)) || match item {
        NestedFieldView::Record(inner) => match inner.nested {
            Some(list) => names_nested(inner, scoped(owner, inner.name), key, list.len()),
            None => false,
        },
        NestedFieldView::Enum(_) => false,
    }
}

/// `key` is the name under which one of the first `n` declarations nested
/// in `r`, or something nested in one of them, is registered; `name` is the
/// qualified name of `r`.
pub open spec fn names_nested(r: RecordView, name: Seq<char>, key: Seq<char>, n: nat) -> bool
    decreases r, 0nat, n,
{
    match r.nested {
        Some(list) => if n == 0 || n > list.len() {
            false
        } else {
            names_nested(r, name, key, (n - 1) as nat) || names_item(list[n - 1], name, key)
        },
        None => false,
    }
}

/// The function `e` with `f` as its last overload.
pub open spec fn with_overload(e: FunctionView, f: FunctionView) -> FunctionView {
    FunctionView {
        overloads: Some(
            match e.overloads {
                Some(v) => v.push(f),
                None => seq![f],
            },
        ),
        ..e
    }
}

/// What reading the first `n` children of a type alias gives: the text of
/// the aliased type so far, and whether a template has been named. `None`
/// where a child lacks the name that is read from it.
///
/// A reference to a type adds the type it stands for, or its displayed name
/// without a leading `struct `. A reference to a template begins the text
/// anew with the template's name and `<`. Once a template has been named, a
/// comma follows every child but the first and the last.
pub open spec fn alias_scan(children: Seq<Entity>, n: nat) -> Option<(Seq<char>, bool)>
    decreases n,
{
    if n == 0 || n > children.len() {
        Some((Seq::<char>::empty(), false))
    } else {
        match alias_scan(children, (n - 1) as nat) {
            None => None,
            Some((text, templated)) => {
                let c = children[n - 1];
                let read: Option<(Seq<char>, bool)> = if c.kind == EntityKind::TypeRef {
                    match c.underlying_type {
                        Some(u) => Some((text + u@, templated)),
                        None => match c.display_name {
                            Some(d) => Some((text + without_leading(d@, "struct "@), templated)),
                            None => None,
                        },
                    }
                } else if c.kind == EntityKind::TemplateRef {
                    match c.display_name {
                        Some(d) => Some((d@.push('<'), true)),
                        None => None,
                    }
                } else {
                    Some((text, templated))
                };
                match read {
                    None => None,
                    Some((t, templated)) => if templated && n < children.len() && n != 1 {
                        Some((t.push(','), templated))
                    } else {
                        Some((t, templated))
                    },
                }
            },
        }
    }
}

/// The text of the type that the alias `node` stands for: what its children
/// spell, closed with `>` where a template was named, and `unknown` where
/// they spell nothing.
pub open spec fn alias_type_of(node: Entity) -> Option<Seq<char>> {
    match alias_scan(node.children@, node.children@.len()) {
        None => None,
        Some((text, templated)) => {
            let closed = if templated {
                text.push('>')
            } else {
                text
            };
            if closed.len() == 0 {
                Some("unknown"@)
            } else {
                Some(closed)
            }
        },
    }
}

/// `node` has a name, and its children have the names that the text of the
/// aliased type is read from.
pub open spec fn complete_alias(node: Entity) -> bool {
    node.name is Some && alias_type_of(node) is Some
}

/// What a walk has built so far: the namespace that the declarations go
/// into, the index, and the diagnostics.
pub struct BuildState {
    pub namespace: NamespaceView,
    pub index: Registry,
    pub diagnostics: Seq<DiagnosticView>,
}

/// The state with one more diagnostic, for the declaration `node` found in
/// the namespace `path`.
pub open spec fn with_diagnostic(st: BuildState, node: Entity, path: Seq<char>) -> BuildState {
    BuildState {
        diagnostics: st.diagnostics.push(
            DiagnosticView { kind: node.kind, name: text_of(node.name), namespace: path },
        ),
        ..st
    }
}

/// The state after the function `f`, declared under the qualified name
/// `name`, has been taken in. A function whose name says that it is a
/// deduction guide is left out. A function whose name is already there
/// becomes the last overload of the first function of that name, and the
/// index stays as it is. Any other function is registered and becomes the
/// last function of the namespace.
pub open spec fn with_function(st: BuildState, f: FunctionView, name: Seq<char>) -> BuildState {
    if occurs_in(f.name, "deduction guide"@) {
        st
    } else {
        match first_named(function_names(st.namespace.functions), f.name) {
            Some(p) => BuildState {
                namespace: NamespaceView {
                    functions: st.namespace.functions.update(
                        p,
                        with_overload(st.namespace.functions[p], f),
                    ),
                    ..st.namespace
                },
                ..st
            },
            None => BuildState {
                namespace: NamespaceView {
                    functions: st.namespace.functions.push(f),
                    ..st.namespace
                },
                index: registered(st.index, name, SymbolKind::Function),
                ..st
            },
        }
    }
}

/// The state after the record `r`, declared under the qualified name `name`
/// in the namespace `path`, has been taken in. Where a record of its name is
/// already there, the first such record gets the methods of `r` behind its
/// own, and nothing else changes. Otherwise `r` is settled in `path`, the
/// declarations nested in it are registered, all the way down, then `r` is
/// registered, and `r` becomes the last record of the namespace.
pub open spec fn with_record(
    st: BuildState,
    r: RecordView,
    name: Seq<char>,
    path: Seq<char>,
) -> BuildState {
    match first_named(record_names(st.namespace.records), r.name) {
        Some(p) => BuildState {
            namespace: NamespaceView {
                records: st.namespace.records.update(
                    p,
                    RecordView {
                        methods: st.namespace.records[p].methods + r.methods,
                        ..st.namespace.records[p]
                    },
                ),
                ..st.namespace
            },
            ..st
        },
        None => BuildState {
            namespace: NamespaceView {
                records: st.namespace.records.push(settled(r, path)),
                ..st.namespace
            },
            index: registered(
                registered_deep(st.index, r, scoped(path, r.name)),
                name,
                SymbolKind::Record,
            ),
            ..st
        },
    }
}

/// The namespace that `node` opens where none of its name is open yet.
pub open spec fn fresh_namespace(node: Entity, path: Seq<char>) -> NamespaceView {
    NamespaceView {
        name: node.name_text(),
        comment: comment_of(node.comment),
        namespace: Some(path),
        ..empty_namespace()
    }
}

/// The state after the declaration `node`, found in the namespace whose
/// qualified name is `path`, has been taken in.
///
/// A function, record, enum or alias goes into the namespace of the state
/// and into the index. A namespace is opened, or opened again where one of
/// its name is there already, registered, and what it declares is taken in
/// under its own qualified name. A declaration that is not complete leaves
/// a diagnostic and nothing else. Every other kind of declaration changes
/// nothing.
pub open spec fn node_applied(node: Entity, st: BuildState, path: Seq<char>) -> BuildState
    decreases node, 1nat, 0nat,
{
    let name = qualified(node.name_text(), st.namespace.name, path);
    match node.kind {
        EntityKind::FunctionDecl | EntityKind::FunctionTemplate => if complete_function(node) {
            with_function(st, FunctionView { namespace: Some(path), ..function_of(node) }, name)
        } else {
            with_diagnostic(st, node, path)
        },
        EntityKind::StructDecl | EntityKind::ClassDecl | EntityKind::UnionDecl | EntityKind::ClassTemplate => {
            match record_of(node) {
                Some(r) => with_record(st, r, name, path),
                None => with_diagnostic(st, node, path),
            }
        },
        EntityKind::EnumDecl => if complete_enum(node) {
            BuildState {
                namespace: NamespaceView {
                    enums: st.namespace.enums.push(
                        EnumView { namespace: Some(path), ..enum_of(node) },
                    ),
                    ..st.namespace
                },
                index: registered(st.index, name, SymbolKind::Enum),
                ..st
            }
        } else {
            with_diagnostic(st, node, path)
        },
        EntityKind::Namespace => if node.name is Some {
            let place = first_named(namespace_names(st.namespace.namespaces), node.name_text());
            let opened = match place {
                Some(p) => st.namespace.namespaces[p],
                None => fresh_namespace(node, path),
            };
            let inner = children_applied(
                node,
                node.children@.len(),
                BuildState {
                    namespace: opened,
                    index: registered(st.index, name, SymbolKind::Namespace),
                    diagnostics: st.diagnostics,
                },
                scoped(path, node.name_text()),
            );
            BuildState {
                namespace: NamespaceView {
                    namespaces: match place {
                        Some(p) => st.namespace.namespaces.update(p, inner.namespace),
                        None => st.namespace.namespaces.push(inner.namespace),
                    },
                    ..st.namespace
                },
                index: inner.index,
                diagnostics: inner.diagnostics,
            }
        } else {
            with_diagnostic(st, node, path)
        },
        EntityKind::TypeAliasDecl => if complete_alias(node) {
            BuildState {
                namespace: NamespaceView {
                    aliases: st.namespace.aliases.push(
                        AliasView {
                            namespace: Some(path),
                            name: node.name_text(),
                            type_: alias_type_of(node)->0,
                            comment: comment_of(node.comment),
                        },
                    ),
                    ..st.namespace
                },
                index: registered(st.index, name, SymbolKind::Alias),
                ..st
            }
        } else {
            with_diagnostic(st, node, path)
        },
        _ => st,
    }
}

/// The state after the first `n` children of `node` have been taken in, one
/// after the other, as declarations of the namespace `path`.
pub open spec fn children_applied(node: Entity, n: nat, st: BuildState, path: Seq<char>) -> BuildState
    decreases node, 0nat, n,
{
    if n == 0 || n > node.children@.len() {
        st
    } else {
        node_applied(node.children@[n - 1], children_applied(node, (n - 1) as nat, st, path), path)
    }
}

/// The state after the declarations of one parsed file have been taken in:
/// of the first `n` children of `unit`, those that stand in the parsed file
/// itself, as declarations of the global namespace.
pub open spec fn unit_applied(unit: Entity, n: nat, st: BuildState) -> BuildState
    decreases n,
{
    if n == 0 || n > unit.children@.len() {
        st
    } else {
        let before = unit_applied(unit, (n - 1) as nat, st);
        if unit.children@[n - 1].in_main_file {
            node_applied(unit.children@[n - 1], before, Seq::<char>::empty())
        } else {
            before
        }
    }
}

/// Once a child of the kind is found with none before it, it stays the first
/// however many children follow.
pub proof fn lemma_first_of_kind_found(children: Seq<Entity>, kind: EntityKind, i: int, n: int)
    requires
        0 <= i < n <= children.len(),
        first_of_kind(children.take(i), kind) is None,
        children[i].kind == kind,
    ensures
        first_of_kind(children.take(n), kind) == Some(i),
    decreases n,
{
    if n == i + 1 {
        assert(children.take(n).drop_last() =~= children.take(i));
    } else {
        lemma_first_of_kind_found(children, kind, i, n - 1);
        assert(children.take(n).drop_last() =~= children.take(n - 1));
    }
}

/// A record that cannot be built from some of the children of `node` cannot
/// be built from more of them.
pub proof fn lemma_record_stays_none(node: Entity, m: nat, n: nat)
    requires
        m <= n <= node.children@.len(),
        record_upto(node, m) is None,
    ensures
        record_upto(node, n) is None,
    decreases n,
{
    if n > m {
        lemma_record_stays_none(node, m, (n - 1) as nat);
    }
}

/// Once the name is found with none like it before, it stays the first
/// however many names follow.
pub proof fn lemma_first_named_found(names: Seq<Seq<char>>, name: Seq<char>, i: int, n: int)
    requires
        0 <= i < n <= names.len(),
        first_named(names.take(i), name) is None,
        names[i] == name,
    ensures
        first_named(names.take(n), name) == Some(i),
    decreases n,
{
    if n == i + 1 {
        assert(names.take(n).drop_last() =~= names.take(i));
    } else {
        lemma_first_named_found(names, name, i, n - 1);
        assert(names.take(n).drop_last() =~= names.take(n - 1));
    }
}

/// The state that a namespace, an index and a list of diagnostics stand for.
pub open spec fn state_of(
    namespace: Namespace,
    index: SymbolIndex,
    diagnostics: Seq<Diagnostic>,
) -> BuildState {
    BuildState {
        namespace: namespace@,
        index: registry_of(index),
        diagnostics: diagnostics_view(diagnostics),
    }
}

/// The registry that an index stands for.
pub open spec fn registry_of(index: SymbolIndex) -> Registry {
    Registry { kinds: index@, order: index.order() }
}

/// Settles a declaration that is nested in the record `owner`, and
/// registers it after everything nested in it.
fn settle_item(item: &mut NestedField, owner: &str, index: &mut SymbolIndex)
    ensures
        final(item)@ == settled_item(old(item)@, owner@),
        registry_of(*final(index)) == registered_item(
            registry_of(*old(index)),
            old(item)@,
            owner@,
        ),
    decreases *old(item),
{
    match item {
        NestedField::Record(inner) => {
            let key = Parser::scope(owner, inner.name.as_str());
            settle(inner, owned(owner), index);
            index.insert(key, SymbolKind::Record);
        },
        NestedField::Enum(e) => {
            let key = Parser::scope(owner, e.name.as_str());
            e.namespace = Some(owned(owner));
            index.insert(key, SymbolKind::Enum);
        },
    }
}

/// Settles `record` in `namespace`, and registers what is nested in it, all
/// the way down.
fn settle(record: &mut Record, namespace: String, index: &mut SymbolIndex)
    ensures
        final(record)@ == settled(old(record)@, namespace@),
        registry_of(*final(index)) == registered_deep(
            registry_of(*old(index)),
            old(record)@,
            scoped(namespace@, old(record)@.name),
        ),
    decreases *old(record),
{
    let ghost before = *record;
    let ghost start = registry_of(*index);
    proof {
        lemma_record_view(*record);
    }
    let owner = Parser::scope(namespace.as_str(), record.name.as_str());
    record.namespace = Some(namespace);
    if record.nested.is_some() {
        let mut taken: Option<Vec<NestedField>> = None;
        std::mem::swap(&mut record.nested, &mut taken);
        let mut list = taken.unwrap();
        let ghost listed = list@;
        let mut i: usize = 0;
        while i < list.len()
            invariant
                i <= list@.len(),
                list@.len() == listed.len(),
                before.nested is Some,
                before.nested->0@ == listed,
                before@.nested == Some(nesteds_view(listed)),
                before == *old(record),
                forall|j: int|
                    0 <= j < i ==> (#[trigger] list@[j])@ == settled_item(listed[j]@, owner@),
                forall|j: int| i <= j < list@.len() ==> #[trigger] list@[j] == listed[j],
                registry_of(*index) == registered_nested(start, before@, owner@, i as nat),
            decreases list@.len() - i,
        {
            let ghost items = list@;
            proof {
                assert(list@[i as int] == listed[i as int]);
                assert(nesteds_view(listed)[i as int] == listed[i as int]@);
                assert(decreases_to!(before => listed[i as int]));
            }
            settle_item(&mut list[i], owner.as_str(), index);
            proof {
                assert(list@.len() == items.len());
                assert(forall|j: int| 0 <= j < items.len() && j != i ==> list@[j] == items[j]);
            }
            i = i + 1;
        }
        record.nested = Some(list);
        proof {
            lemma_record_view(*record);
            assert(nesteds_view(list@) =~= settled(before@, namespace@).nested->0);
        }
    } else {
        proof {
            lemma_record_view(*record);
        }
    }
}

/// Makes `f` the last overload of `e`.
fn add_overload(e: &mut Function, f: Function)
    ensures
        final(e)@ == with_overload(old(e)@, f@),
{
    proof {
        lemma_function_view(*e);
    }
    let mut list: Vec<Function> = Vec::new();
    let ghost had = e.overloads;
    if e.overloads.is_some() {
        let mut taken: Option<Vec<Function>> = None;
        std::mem::swap(&mut e.overloads, &mut taken);
        list = taken.unwrap();
    }
    let ghost before = list@;
    list.push(f);
    e.overloads = Some(list);
    proof {
        lemma_function_view(*e);
        assert(functions_view(list@) =~= functions_view(before).push(f@));
        if had is None {
            assert(functions_view(list@) =~= seq![f@]);
        }
    }
}

/// Puts `methods` behind the methods of `e`.
fn add_methods(e: &mut Record, methods: Vec<Function>)
    ensures
        final(e)@ == (RecordView { methods: old(e)@.methods + functions_view(methods@), ..old(e)@ }),
{
    proof {
        lemma_record_view(*e);
    }
    let ghost before = e.methods@;
    let mut more = methods;
    e.methods.append(&mut more);
    proof {
        lemma_record_view(*e);
        assert(functions_view(e.methods@) =~= functions_view(before) + functions_view(methods@));
    }
}

/// The position of the first function that is called `name`.
fn find_function(v: &Vec<Function>, name: &String) -> (r: Option<usize>)
    ensures
        match r {
            Some(p) => p < v@.len() && first_named(function_names(functions_view(v@)), name@)
                == Some(p as int),
            None => first_named(function_names(functions_view(v@)), name@) is None,
        },
{
    let ghost names = function_names(functions_view(v@));
    let mut i: usize = 0;
    while i < v.len()
        invariant
            i <= v@.len(),
            names == function_names(functions_view(v@)),
            first_named(names.take(i as int), name@) is None,
        decreases v@.len() - i,
    {
        if v[i].name == *name {
            proof {
                lemma_first_named_found(names, name@, i as int, names.len() as int);
                assert(names.take(names.len() as int) =~= names);
            }
            return Some(i);
        }
        proof {
            assert(names.take(i + 1).drop_last() =~= names.take(i as int));
        }
        i = i + 1;
    }
    assert(names.take(names.len() as int) =~= names);
    None
}

/// The position of the first record that is called `name`.
fn find_record(v: &Vec<Record>, name: &String) -> (r: Option<usize>)
    ensures
        match r {
            Some(p) => p < v@.len() && first_named(record_names(records_view(v@)), name@) == Some(
                p as int,
            ),
            None => first_named(record_names(records_view(v@)), name@) is None,
        },
{
    let ghost names = record_names(records_view(v@));
    let mut i: usize = 0;
    while i < v.len()
        invariant
            i <= v@.len(),
            names == record_names(records_view(v@)),
            first_named(names.take(i as int), name@) is None,
        decreases v@.len() - i,
    {
        if v[i].name == *name {
            proof {
                lemma_first_named_found(names, name@, i as int, names.len() as int);
                assert(names.take(names.len() as int) =~= names);
            }
            return Some(i);
        }
        proof {
            assert(names.take(i + 1).drop_last() =~= names.take(i as int));
        }
        i = i + 1;
    }
    assert(names.take(names.len() as int) =~= names);
    None
}

/// The position of the first namespace that is called `name`.
fn find_namespace(v: &Vec<Namespace>, name: &String) -> (r: Option<usize>)
    ensures
        match r {
            Some(p) => p < v@.len() && first_named(namespace_names(namespaces_view(v@)), name@)
                == Some(p as int),
            None => first_named(namespace_names(namespaces_view(v@)), name@) is None,
        },
{
    let ghost names = namespace_names(namespaces_view(v@));
    let mut i: usize = 0;
    while i < v.len()
        invariant
            i <= v@.len(),
            names == namespace_names(namespaces_view(v@)),
            first_named(names.take(i as int), name@) is None,
        decreases v@.len() - i,
    {
        if v[i].name == *name {
            proof {
                lemma_first_named_found(names, name@, i as int, names.len() as int);
                assert(names.take(names.len() as int) =~= names);
            }
            return Some(i);
        }
        proof {
            assert(names.take(i + 1).drop_last() =~= names.take(i as int));
        }
        i = i + 1;
    }
    assert(names.take(names.len() as int) =~= names);
    None
}

/// An alias whose text cannot be read from some of its children cannot be
/// read from more of them.
pub proof fn lemma_alias_stays_none(children: Seq<Entity>, m: nat, n: nat)
    requires
        m <= n <= children.len(),
        alias_scan(children, m) is None,
    ensures
        alias_scan(children, n) is None,
    decreases n,
{
    if n > m {
        lemma_alias_stays_none(children, m, (n - 1) as nat);
    }
}

/// Two functions of one name that are declared in the same namespace, where
/// no function of that name stands yet, make one function of the namespace:
/// the first, with the second as its only overload. The index gains the one
/// name under which the first is registered, and nothing is reported.
///
/// This holds of every function but one whose name says that it is a
/// deduction guide, which is left out altogether.
pub proof fn lemma_overloads_collapse(first: Entity, second: Entity, st: BuildState, path: Seq<char>)
    requires
        first.kind.is_function(),
        second.kind.is_function(),
        complete_function(first),
        complete_function(second),
        function_of(first).name == function_of(second).name,
        !occurs_in(function_of(first).name, "deduction guide"@),
        first_named(function_names(st.namespace.functions), function_of(first).name) is None,
    ensures
        ({
            let after = node_applied(second, node_applied(first, st, path), path);
            let one = FunctionView { namespace: Some(path), ..function_of(first) };
            let other = FunctionView { namespace: Some(path), ..function_of(second) };
            &&& after.namespace.functions == st.namespace.functions.push(
                FunctionView { overloads: Some(seq![other]), ..one },
            )
            &&& after.index == registered(
                st.index,
                qualified(first.name_text(), st.namespace.name, path),
                SymbolKind::Function,
            )
            &&& after.diagnostics == st.diagnostics
            &&& after.namespace == (NamespaceView {
                functions: after.namespace.functions,
                ..st.namespace
            })
        }),
{
    let one = FunctionView { namespace: Some(path), ..function_of(first) };
    let other = FunctionView { namespace: Some(path), ..function_of(second) };
    let before = st.namespace.functions;
    let middle = node_applied(first, st, path);
    let names = function_names(middle.namespace.functions);
    assert(middle.namespace.functions == before.push(one));
    assert(names.take(before.len() as int) =~= function_names(before));
    lemma_first_named_found(names, one.name, before.len() as int, names.len() as int);
    assert(names.take(names.len() as int) =~= names);
    let after = node_applied(second, middle, path);
    assert(after.namespace.functions =~= before.push(
        FunctionView { overloads: Some(seq![other]), ..one },
    ));
}

/// Registering a declaration nested in a record adds no name but its own
/// and those of what is nested in it.
pub proof fn lemma_registered_item(
    reg: Registry,
    item: NestedFieldView,
    owner: Seq<char>,
    key: Seq<char>,
)
    requires
        registered_item(reg, item, owner).kinds.contains_key(key),
        !reg.kinds.contains_key(key),
    ensures
        names_item(item, owner, key),
    decreases item, 0nat, 0nat,
{
    match item {
        NestedFieldView::Record(inner) => {
            if key != scoped(owner, inner.name) {
                match inner.nested {
                    Some(list) => {
                        lemma_registered_nested(
                            reg,
                            inner,
                            scoped(owner, inner.name),
                            key,
                            list.len(),
                        );
                    },
                    None => {},
                }
            }
        },
        NestedFieldView::Enum(_) => {},
    }
}

/// Registering the declarations nested in a record adds no name but theirs
/// and those of what is nested in them.
pub proof fn lemma_registered_nested(
    reg: Registry,
    r: RecordView,
    name: Seq<char>,
    key: Seq<char>,
    n: nat,
)
    requires
        registered_nested(reg, r, name, n).kinds.contains_key(key),
        !reg.kinds.contains_key(key),
    ensures
        names_nested(r, name, key, n),
    decreases r, 0nat, n,
{
    match r.nested {
        Some(list) => {
            if n != 0 && n <= list.len() {
                let before = registered_nested(reg, r, name, (n - 1) as nat);
                if before.kinds.contains_key(key) {
                    lemma_registered_nested(reg, r, name, key, (n - 1) as nat);
                } else {
                    lemma_registered_item(before, list[n - 1], name, key);
                }
            }
        },
        None => {},
    }
}

/// A field whose type is an unnamed struct holds the struct inline, under
/// the bare word `struct`, and the struct is never registered: taking in a
/// record adds to the index no name but the record's own and those of the
/// named declarations nested in it, all the way down.
pub proof fn lemma_inline_declarations_stay_out(
    node: Entity,
    field: Entity,
    st: BuildState,
    path: Seq<char>,
    key: Seq<char>,
)
    requires
        node.kind.is_record(),
    ensures
        field.type_text is Some && occurs_in(field.type_characters(), "(unnamed struct"@)
            ==> match field_of(field) {
            Some(f) => f.type_ == "struct"@ && f.struct_ == Some(
                NestedFieldView::Record(inline_record_of(field, EntityKind::StructDecl)->0),
            ),
            None => inline_record_of(field, EntityKind::StructDecl) is None,
        },
        node_applied(node, st, path).index.kinds.contains_key(key) && !st.index.kinds.contains_key(
            key,
        ) ==> match record_of(node) {
            Some(r) => key == qualified(node.name_text(), st.namespace.name, path) || (
            r.nested matches Some(list) && names_nested(
                r,
                scoped(path, r.name),
                key,
                list.len(),
            )),
            None => false,
        },
{
    if node_applied(node, st, path).index.kinds.contains_key(key) && !st.index.kinds.contains_key(
        key,
    ) {
        match record_of(node) {
            Some(r) => {
                if key != qualified(node.name_text(), st.namespace.name, path) {
                    match first_named(record_names(st.namespace.records), r.name) {
                        Some(_) => {},
                        None => {
                            match r.nested {
                                Some(list) => {
                                    lemma_registered_nested(
                                        st.index,
                                        r,
                                        scoped(path, r.name),
                                        key,
                                        list.len(),
                                    );
                                },
                                None => {},
                            }
                        },
                    }
                }
            },
            None => {},
        }
    }
}

/// No two of `names` are the same.
pub open spec fn distinct(names: Seq<Seq<char>>) -> bool {
    forall|i: int, j: int| 0 <= i < j < names.len() ==> names[i] != names[j]
}

/// A name that has no first place among `names` is none of them, and a name
/// that has one stands there.
pub proof fn lemma_first_named(names: Seq<Seq<char>>, name: Seq<char>)
    ensures
        match first_named(names, name) {
            Some(p) => 0 <= p < names.len() && names[p] == name,
            None => forall|i: int| 0 <= i < names.len() ==> names[i] != name,
        },
    decreases names.len(),
{
    if names.len() > 0 {
        lemma_first_named(names.drop_last(), name);
        match first_named(names.drop_last(), name) {
            Some(p) => {
                assert(names.drop_last()[p] == names[p]);
            },
            None => {
                assert forall|i: int| 0 <= i < names.len() implies names[i] != name
                    || first_named(names, name) is Some by {
                    if i < names.len() - 1 {
                        assert(names.drop_last()[i] == names[i]);
                    }
                }
            },
        }
    }
}

/// Taking in a declaration leaves the name of the namespace as it is.
pub proof fn lemma_namespace_keeps_its_name(node: Entity, st: BuildState, path: Seq<char>)
    ensures
        node_applied(node, st, path).namespace.name == st.namespace.name,
{
}

/// A namespace that is opened, or opened again, keeps its name however many
/// declarations are taken into it.
pub proof fn lemma_children_keep_the_name(node: Entity, n: nat, st: BuildState, path: Seq<char>)
    ensures
        children_applied(node, n, st, path).namespace.name == st.namespace.name,
    decreases n,
{
    if n != 0 && n <= node.children@.len() {
        lemma_children_keep_the_name(node, (n - 1) as nat, st, path);
        lemma_namespace_keeps_its_name(
            node.children@[n - 1],
            children_applied(node, (n - 1) as nat, st, path),
            path,
        );
    }
}

/// Nothing is duplicated: in a namespace whose functions, whose records and
/// whose namespaces each have names of their own, they still have after a
/// declaration has been taken in. A function met again joins its overloads,
/// a record met again gives its methods away, and a namespace opened again
/// is the one that is there.
pub proof fn lemma_names_stay_distinct(node: Entity, st: BuildState, path: Seq<char>)
    requires
        distinct(function_names(st.namespace.functions)),
        distinct(record_names(st.namespace.records)),
        distinct(namespace_names(st.namespace.namespaces)),
    ensures
        distinct(function_names(node_applied(node, st, path).namespace.functions)),
        distinct(record_names(node_applied(node, st, path).namespace.records)),
        distinct(namespace_names(node_applied(node, st, path).namespace.namespaces)),
{
    let after = node_applied(node, st, path);
    match node.kind {
        EntityKind::FunctionDecl | EntityKind::FunctionTemplate => {
            if complete_function(node) {
                let f = FunctionView { namespace: Some(path), ..function_of(node) };
                let names = function_names(st.namespace.functions);
                lemma_first_named(names, f.name);
                assert forall|i: int, j: int|
                    0 <= i < j < function_names(after.namespace.functions).len() implies function_names(
                    after.namespace.functions,
                )[i] != function_names(after.namespace.functions)[j] by {
                    if j < names.len() {
                        assert(names[i] != names[j]);
                    } else {
                        assert(names[i] != f.name);
                    }
                }
            }
        },
        EntityKind::StructDecl | EntityKind::ClassDecl | EntityKind::UnionDecl | EntityKind::ClassTemplate => {
            match record_of(node) {
                Some(r) => {
                    let names = record_names(st.namespace.records);
                    lemma_first_named(names, r.name);
                    assert forall|i: int, j: int|
                        0 <= i < j < record_names(after.namespace.records).len() implies record_names(
                        after.namespace.records,
                    )[i] != record_names(after.namespace.records)[j] by {
                        if j < names.len() {
                            assert(names[i] != names[j]);
                        } else {
                            assert(names[i] != r.name);
                        }
                    }
                },
                None => {},
            }
        },
        EntityKind::Namespace => {
            if node.name is Some {
                let names = namespace_names(st.namespace.namespaces);
                let name = node.name_text();
                lemma_first_named(names, name);
                let place = first_named(names, name);
                let opened = match place {
                    Some(p) => st.namespace.namespaces[p],
                    None => fresh_namespace(node, path),
                };
                lemma_children_keep_the_name(
                    node,
                    node.children@.len(),
                    BuildState {
                        namespace: opened,
                        index: registered(
                            st.index,
                            qualified(node.name_text(), st.namespace.name, path),
                            SymbolKind::Namespace,
                        ),
                        diagnostics: st.diagnostics,
                    },
                    scoped(path, node.name_text()),
                );
                assert forall|i: int, j: int|
                    0 <= i < j < namespace_names(after.namespace.namespaces).len() implies namespace_names(
                    after.namespace.namespaces,
                )[i] != namespace_names(after.namespace.namespaces)[j] by {
                    if j < names.len() {
                        assert(names[i] != names[j]);
                    } else {
                        assert(names[i] != name);
                    }
                }
            }
        },
        _ => {},
    }
}

/// The builder. It holds what went wrong on the way: one diagnostic for each
/// declaration that was left out because it was not complete.
pub struct Parser {
    pub diagnostics: Vec<Diagnostic>,
}

/// A declaration that was left out of the model.
#[derive(Debug, Clone, PartialEq, Eq)]
pub struct Diagnostic {
    /// The kind of the declaration.
    pub kind: EntityKind,
    /// Its name, where it has one.
    pub name: Option<String>,
    /// The qualified name of the namespace in which it stands.
    pub namespace: String,
}

/// A diagnostic as contracts see it.
pub struct DiagnosticView {
    pub kind: EntityKind,
    pub name: Option<Seq<char>>,
    pub namespace: Seq<char>,
}

impl View for Diagnostic {
    type V = DiagnosticView;

    open spec fn view(&self) -> DiagnosticView {
        DiagnosticView {
            kind: self.kind,
            name: text_of(self.name),
            namespace: self.namespace@,
        }
    }
}

/// The views of a sequence of diagnostics.
pub open spec fn diagnostics_view(v: Seq<Diagnostic>) -> Seq<DiagnosticView> {
    Seq::new(v.len(), |i: int| v[i]@)
}

/// A copy of an optional comment.
fn copy_comment(comment: &Option<crate::model::Comment>) -> (r: Option<crate::model::Comment>)
    ensures
        comment_of(r) == comment_of(*comment),
{
    match comment {
        Some(c) => Some(c.clone()),
        None => None,
    }
}

impl Parser {
    /// A builder that has recorded nothing yet.
    pub fn new() -> (r: Self)
        ensures
            r.diagnostics@.len() == 0,
    {
        Parser { diagnostics: Vec::new() }
    }

    /// Builds the parameter list of the template that `node` declares.
    pub fn parse_template(node: &Entity) -> (r: Option<Template>)
        ensures
            r is Some <==> complete_template(*node),
            r matches Some(t) ==> t@ == template_of_entity(*node),
    {
        let mut parameters: Vec<TemplateParameter> = Vec::new();
        let mut i: usize = 0;
        while i < node.children.len()
            invariant
                i <= node.children@.len(),
                template_parameters_view(parameters@) == template_parameters_of(
                    node.children@.take(i as int),
                ),
                forall|j: int|
                    0 <= j < i && (#[trigger] node.children@[j]).kind
                        == EntityKind::NonTypeTemplateParameter
                        ==> node.children@[j].type_text is Some,
            decreases node.children@.len() - i,
        {
            let c = &node.children[i];
            let ghost before = template_parameters_view(parameters@);
            proof {
                assert(node.children@.take(i + 1).drop_last() =~= node.children@.take(i as int));
            }
            match c.kind {
                EntityKind::TemplateTypeParameter => {
                    parameters.push(
                        TemplateParameter { name: c.name_or_empty(), type_: owned("typename") },
                    );
                },
                EntityKind::NonTypeTemplateParameter => {
                    match &c.type_text {
                        Some(t) => {
                            parameters.push(
                                TemplateParameter { name: c.name_or_empty(), type_: t.clone() },
                            );
                        },
                        None => {
                            return None;
                        },
                    }
                },
                EntityKind::TemplateTemplateParameter => {
                    parameters.push(
                        TemplateParameter { name: c.name_or_empty(), type_: owned("template") },
                    );
                },
                _ => {},
            }
            proof {
                if c.kind.is_template_parameter() {
                    assert(template_parameters_view(parameters@) =~= before.push(
                        template_parameter_of(*c),
                    ));
                }
            }
            i = i + 1;
        }
        assert(node.children@.take(node.children@.len() as int) =~= node.children@);
        Some(Template { parameters })
    }

    /// Builds the function that `node` declares.
    pub fn parse_function(node: &Entity) -> (r: Option<Function>)
        ensures
            r is Some <==> complete_function(*node),
            r matches Some(f) ==> f@ == function_of(*node),
    {
        let name = match &node.name {
            Some(n) => replace(n.as_str(), "\"", "&quot"),
            None => {
                return None;
            },
        };
        let return_type = match &node.result_type {
            Some(t) => t.clone(),
            None => {
                return None;
            },
        };
        let mut parameters: Vec<Field> = Vec::new();
        let mut i: usize = 0;
        while i < node.children.len()
            invariant
                i <= node.children@.len(),
                fields_view(parameters@) == parameters_of(node.children@.take(i as int)),
                forall|j: int|
                    0 <= j < i && (#[trigger] node.children@[j]).kind == EntityKind::ParmDecl
                        ==> node.children@[j].type_text is Some,
            decreases node.children@.len() - i,
        {
            let c = &node.children[i];
            let ghost before = fields_view(parameters@);
            proof {
                assert(node.children@.take(i + 1).drop_last() =~= node.children@.take(i as int));
            }
            if c.kind == EntityKind::ParmDecl {
                match &c.type_text {
                    Some(t) => {
                        parameters.push(
                            Field {
                                name: c.name_or_empty(),
                                type_: t.clone(),
                                comment: None,
                                struct_: None,
                            },
                        );
                        assert(fields_view(parameters@) =~= before.push(parameter_of(*c)));
                    },
                    None => {
                        return None;
                    },
                }
            }
            i = i + 1;
        }
        assert(node.children@.take(node.children@.len() as int) =~= node.children@);
        let template = if node.kind == EntityKind::FunctionTemplate {
            match Parser::parse_template(node) {
                Some(t) => Some(t),
                None => {
                    return None;
                },
            }
        } else {
            None
        };
        let f = Function {
            name,
            return_type,
            parameters,
            comment: copy_comment(&node.comment),
            props: FunctionProps {
                const_: node.is_const_method,
                static_: node.is_static_method,
                virtual_: node.is_virtual_method,
            },
            namespace: None,
            template,
            overloads: None,
        };
        proof {
            lemma_function_view(f);
        }
        Some(f)
    }

    /// Builds the enum that `node` declares.
    pub fn parse_enum(node: &Entity) -> (r: Option<Enum>)
        ensures
            r is Some <==> complete_enum(*node),
            r matches Some(e) ==> e@ == enum_of(*node),
    {
        let name = match &node.name {
            Some(n) => n.clone(),
            None => {
                return None;
            },
        };
        let mut values: Vec<EnumValue> = Vec::new();
        let mut i: usize = 0;
        while i < node.children.len()
            invariant
                i <= node.children@.len(),
                enum_values_view(values@) == enum_values_of(node.children@.take(i as int)),
            decreases node.children@.len() - i,
        {
            let c = &node.children[i];
            let ghost before = enum_values_view(values@);
            proof {
                assert(node.children@.take(i + 1).drop_last() =~= node.children@.take(i as int));
            }
            if c.kind == EntityKind::EnumConstantDecl {
                values.push(
                    EnumValue { name: c.name_or_empty(), comment: copy_comment(&c.comment) },
                );
                assert(enum_values_view(values@) =~= before.push(enum_value_of(*c)));
            }
            i = i + 1;
        }
        assert(node.children@.take(node.children@.len() as int) =~= node.children@);
        Some(Enum { name, comment: copy_comment(&node.comment), namespace: None, values })
    }
    /// The position of the first child of `node` that has the kind `kind`.
    pub fn first_child(node: &Entity, kind: EntityKind) -> (r: Option<usize>)
        ensures
            match r {
                Some(j) => j < node.children@.len() && first_of_kind(node.children@, kind) == Some(
                    j as int,
                ),
                None => first_of_kind(node.children@, kind) is None,
            },
    {
        let mut i: usize = 0;
        while i < node.children.len()
            invariant
                i <= node.children@.len(),
                first_of_kind(node.children@.take(i as int), kind) is None,
            decreases node.children@.len() - i,
        {
            if node.children[i].kind == kind {
                proof {
                    lemma_first_of_kind_found(
                        node.children@,
                        kind,
                        i as int,
                        node.children@.len() as int,
                    );
                    assert(node.children@.take(node.children@.len() as int) =~= node.children@);
                }
                return Some(i);
            }
            proof {
                assert(node.children@.take(i + 1).drop_last() =~= node.children@.take(i as int));
            }
            i = i + 1;
        }
        assert(node.children@.take(node.children@.len() as int) =~= node.children@);
        None
    }

    /// Builds the field that `c` declares, with the unnamed struct, union or
    /// enum that is its type held inline.
    pub fn parse_field(c: &Entity) -> (r: Option<Field>)
        ensures
            field_of(*c) == match r {
                Some(f) => Some(f@),
                None => None::<FieldView>,
            },
        decreases *c,
    {
        let type_ = match &c.type_text {
            Some(t) => t.clone(),
            None => {
                return None;
            },
        };
        let name = c.name_or_empty();
        let comment = copy_comment(&c.comment);
        if contains(type_.as_str(), "(unnamed struct") {
            match Parser::first_child(c, EntityKind::StructDecl) {
                Some(j) => match Parser::parse_record(&c.children[j]) {
                    Some(inner) => Some(
                        Field {
                            name,
                            type_: owned("struct"),
                            comment,
                            struct_: Some(NestedField::Record(inner)),
                        },
                    ),
                    None => None,
                },
                None => None,
            }
        } else if contains(type_.as_str(), "(unnamed union") {
            match Parser::first_child(c, EntityKind::UnionDecl) {
                Some(j) => match Parser::parse_record(&c.children[j]) {
                    Some(inner) => Some(
                        Field {
                            name,
                            type_: owned("union"),
                            comment,
                            struct_: Some(NestedField::Record(inner)),
                        },
                    ),
                    None => None,
                },
                None => None,
            }
        } else if contains(type_.as_str(), "(unnamed enum") {
            match Parser::first_child(c, EntityKind::EnumDecl) {
                Some(j) => match Parser::parse_enum(&c.children[j]) {
                    Some(inner) => Some(
                        Field {
                            name,
                            type_: owned("enum"),
                            comment,
                            struct_: Some(NestedField::Enum(inner)),
                        },
                    ),
                    None => None,
                },
                None => None,
            }
        } else {
            Some(Field { name, type_, comment, struct_: None })
        }
    }

    /// Builds the record that `node` declares.
    pub fn parse_record(node: &Entity) -> (r: Option<Record>)
        ensures
            record_of(*node) == match r {
                Some(x) => Some(x@),
                None => None::<RecordView>,
            },
        decreases *node,
    {
        proof {
            if record_upto(*node, 0) is None {
                lemma_record_stays_none(*node, 0, node.children@.len());
            }
        }
        let name = match &node.name {
            Some(n) => n.clone(),
            None => {
                return None;
            },
        };
        let kind = match node.kind {
            EntityKind::StructDecl => owned("struct"),
            EntityKind::ClassDecl => owned("class"),
            EntityKind::ClassTemplate => owned("class"),
            EntityKind::UnionDecl => owned("union"),
            _ => {
                return None;
            },
        };
        let template = if node.kind == EntityKind::ClassTemplate {
            match Parser::parse_template(node) {
                Some(t) => Some(t),
                None => {
                    return None;
                },
            }
        } else {
            None
        };
        let comment = copy_comment(&node.comment);
        let mut fields: Vec<Field> = Vec::new();
        let mut ctor: Vec<Function> = Vec::new();
        let mut methods: Vec<Function> = Vec::new();
        let mut nested: Option<Vec<NestedField>> = None;
        let mut i: usize = 0;
        proof {
            assert(fields_view(fields@) =~= Seq::<FieldView>::empty());
            assert(functions_view(ctor@) =~= Seq::<FunctionView>::empty());
            assert(functions_view(methods@) =~= Seq::<FunctionView>::empty());
        }
        while i < node.children.len()
            invariant
                i <= node.children@.len(),
                record_upto(*node, i as nat) == Some(
                    RecordView {
                        name: name@,
                        fields: fields_view(fields@),
                        comment: comment_of(comment),
                        kind: kind@,
                        namespace: None,
                        ctor: functions_view(ctor@),
                        methods: functions_view(methods@),
                        template: template_of(template),
                        nested: nesteds_of(nested),
                    },
                ),
            decreases node.children@.len() - i,
        {
            let c = &node.children[i];
            let ghost before = record_upto(*node, i as nat)->0;
            let ghost old_fields = fields@;
            let ghost old_ctor = ctor@;
            let ghost old_methods = methods@;
            let ghost old_nested = nested;
            assert(record_upto(*node, (i + 1) as nat) == with_member(before, *c));
            match c.kind {
                EntityKind::FieldDecl => {
                    if c.public() {
                        match Parser::parse_field(c) {
                            Some(f) => {
                                fields.push(f);
                                assert(fields_view(fields@) =~= fields_view(old_fields).push(f@));
                            },
                            None => {
                                proof {
                                    lemma_record_stays_none(
                                        *node,
                                        (i + 1) as nat,
                                        node.children@.len(),
                                    );
                                }
                                return None;
                            },
                        }
                    }
                },
                EntityKind::Constructor => {
                    match Parser::parse_function(c) {
                        Some(built) => {
                            let mut f = built;
                            f.return_type = String::new();
                            proof {
                                lemma_function_view(built);
                                lemma_function_view(f);
                            }
                            ctor.push(f);
                            assert(functions_view(ctor@) =~= functions_view(old_ctor).push(f@));
                        },
                        None => {
                            proof {
                                lemma_record_stays_none(
                                    *node,
                                    (i + 1) as nat,
                                    node.children@.len(),
                                );
                            }
                            return None;
                        },
                    }
                },
                EntityKind::Method | EntityKind::FunctionTemplate => {
                    if c.public() {
                        match Parser::parse_function(c) {
                            Some(built) => {
                                let mut f = built;
                                f.namespace = Some(name.clone());
                                proof {
                                    lemma_function_view(built);
                                    lemma_function_view(f);
                                }
                                methods.push(f);
                                assert(functions_view(methods@) =~= functions_view(
                                    old_methods,
                                ).push(f@));
                            },
                            None => {
                                proof {
                                    lemma_record_stays_none(
                                        *node,
                                        (i + 1) as nat,
                                        node.children@.len(),
                                    );
                                }
                                return None;
                            },
                        }
                    }
                },
                EntityKind::StructDecl | EntityKind::ClassDecl | EntityKind::UnionDecl | EntityKind::ClassTemplate => {
                    match Parser::parse_record(c) {
                        Some(built) => {
                            if !starts_with(built.name.as_str(), "(anonymous") && !starts_with(
                                built.name.as_str(),
                                "(unnamed",
                            ) {
                                let mut inner = built;
                                inner.namespace = Some(name.clone());
                                proof {
                                    lemma_record_view(built);
                                    lemma_record_view(inner);
                                }
                                let item = NestedField::Record(inner);
                                let mut list = match nested {
                                    Some(v) => v,
                                    None => Vec::new(),
                                };
                                let ghost old_list = list@;
                                list.push(item);
                                proof {
                                    assert(nesteds_view(list@) =~= nesteds_view(old_list).push(
                                        item@,
                                    ));
                                    if old_nested is None {
                                        assert(nesteds_view(list@) =~= seq![item@]);
                                    }
                                }
                                nested = Some(list);
                            }
                        },
                        None => {
                            proof {
                                lemma_record_stays_none(
                                    *node,
                                    (i + 1) as nat,
                                    node.children@.len(),
                                );
                            }
                            return None;
                        },
                    }
                },
                EntityKind::EnumDecl => {
                    match Parser::parse_enum(c) {
                        Some(built) => {
                            if !starts_with(built.name.as_str(), "(anonymous") && !starts_with(
                                built.name.as_str(),
                                "(unnamed",
                            ) {
                                let mut inner = built;
                                inner.namespace = Some(name.clone());
                                let item = NestedField::Enum(inner);
                                let mut list = match nested {
                                    Some(v) => v,
                                    None => Vec::new(),
                                };
                                let ghost old_list = list@;
                                list.push(item);
                                proof {
                                    assert(nesteds_view(list@) =~= nesteds_view(old_list).push(
                                        item@,
                                    ));
                                    if old_nested is None {
                                        assert(nesteds_view(list@) =~= seq![item@]);
                                    }
                                }
                                nested = Some(list);
                            }
                        },
                        None => {
                            proof {
                                lemma_record_stays_none(
                                    *node,
                                    (i + 1) as nat,
                                    node.children@.len(),
                                );
                            }
                            return None;
                        },
                    }
                },
                _ => {},
            }
            i = i + 1;
        }
        let r = Record { name, fields, comment, kind, namespace: None, ctor, methods, template, nested };
        proof {
            lemma_record_view(r);
        }
        Some(r)
    }
    /// `name` scoped by `prefix`: behind `prefix` and `::`, or bare where
    /// `prefix` is empty.
    pub fn scope(prefix: &str, name: &str) -> (r: String)
        ensures
            r@ == scoped(prefix@, name@),
    {
        if !prefix.is_empty() {
            let mut out = owned(prefix);
            out.append("::");
            out.append(name);
            out
        } else {
            owned(name)
        }
    }

    /// The fully-qualified name of a declaration called `name` that stands in
    /// the namespace with the short name `namespace_name` and the qualified
    /// name `ns_name_full`.
    pub fn get_name_for_namespace(name: &str, namespace_name: &str, ns_name_full: &str) -> (r:
        String)
        ensures
            r@ == qualified(name@, namespace_name@, ns_name_full@),
    {
        if !ns_name_full.is_empty() {
            Parser::scope(ns_name_full, name)
        } else {
            Parser::scope(namespace_name, name)
        }
    }

    /// Reads the text of the type that the alias `node` stands for.
    pub fn alias_type(node: &Entity) -> (r: Option<String>)
        ensures
            alias_type_of(*node) == match r {
                Some(t) => Some(t@),
                None => None::<Seq<char>>,
            },
    {
        let mut text = String::new();
        let mut templated = false;
        let count = node.children.len();
        let mut i: usize = 0;
        while i < count
            invariant
                i <= count == node.children@.len(),
                alias_scan(node.children@, i as nat) == Some((text@, templated)),
            decreases count - i,
        {
            let c = &node.children[i];
            if c.kind == EntityKind::TypeRef {
                match &c.underlying_type {
                    Some(u) => {
                        text.append(u.as_str());
                    },
                    None => match &c.display_name {
                        Some(d) => {
                            let shown = strip_leading(d.as_str(), "struct ");
                            text.append(shown.as_str());
                        },
                        None => {
                            proof {
                                lemma_alias_stays_none(node.children@, (i + 1) as nat, count as nat);
                            }
                            return None;
                        },
                    },
                }
            } else if c.kind == EntityKind::TemplateRef {
                match &c.display_name {
                    Some(d) => {
                        templated = true;
                        text = d.clone();
                        push_char(&mut text, '<');
                    },
                    None => {
                        proof {
                            lemma_alias_stays_none(node.children@, (i + 1) as nat, count as nat);
                        }
                        return None;
                    },
                }
            }
            if templated && i < count - 1 && i != 0 {
                push_char(&mut text, ',');
            }
            i = i + 1;
        }
        if templated {
            push_char(&mut text, '>');
        }
        if text.as_str().is_empty() {
            text = owned("unknown");
        }
        Some(text)
    }

    /// Records that `node`, found in the namespace `path`, was left out.
    pub fn report(&mut self, node: &Entity, path: &str)
        ensures
            diagnostics_view(final(self).diagnostics@) == diagnostics_view(
                old(self).diagnostics@,
            ).push(DiagnosticView { kind: node.kind, name: text_of(node.name), namespace: path@ }),
    {
        let name = match &node.name {
            Some(n) => Some(n.clone()),
            None => None,
        };
        let ghost before = self.diagnostics@;
        let d = Diagnostic { kind: node.kind, name, namespace: owned(path) };
        self.diagnostics.push(d);
        assert(diagnostics_view(self.diagnostics@) =~= diagnostics_view(before).push(d@));
    }

    /// Takes the declaration `node` into the namespace `ns` and the index.
    /// `current_namespace_name` is the qualified name of `ns`.
    pub fn parse_node(
        &mut self,
        node: &Entity,
        ns: &mut Namespace,
        index: &mut SymbolIndex,
        current_namespace_name: &str,
    )
        ensures
            state_of(*final(ns), *final(index), final(self).diagnostics@) == node_applied(
                *node,
                state_of(*old(ns), *old(index), old(self).diagnostics@),
                current_namespace_name@,
            ),
        decreases *node, 1nat,
    {
        let ghost st = state_of(*ns, *index, self.diagnostics@);
        let ghost before = *ns;
        proof {
            lemma_namespace_view(*ns);
        }
        let absolute_name = Parser::get_name_for_namespace(
            node.name_or_empty().as_str(),
            ns.name.as_str(),
            current_namespace_name,
        );
        match node.kind {
            EntityKind::FunctionDecl | EntityKind::FunctionTemplate => {
                match Parser::parse_function(node) {
                    Some(built) => {
                        let mut function = built;
                        function.namespace = Some(owned(current_namespace_name));
                        proof {
                            lemma_function_view(built);
                            lemma_function_view(function);
                        }
                        if contains(function.name.as_str(), "deduction guide") {
                            return ;
                        }
                        match find_function(&ns.functions, &function.name) {
                            Some(p) => {
                                add_overload(&mut ns.functions[p], function);
                                proof {
                                    lemma_namespace_view(*ns);
                                    assert(functions_view(ns.functions@) =~= functions_view(
                                        before.functions@,
                                    ).update(p as int, ns.functions@[p as int]@));
                                }
                            },
                            None => {
                                index.insert(absolute_name, SymbolKind::Function);
                                ns.functions.push(function);
                                proof {
                                    lemma_namespace_view(*ns);
                                    assert(functions_view(ns.functions@) =~= functions_view(
                                        before.functions@,
                                    ).push(function@));
                                }
                            },
                        }
                    },
                    None => {
                        self.report(node, current_namespace_name);
                    },
                }
            },
            EntityKind::StructDecl | EntityKind::ClassDecl | EntityKind::UnionDecl | EntityKind::ClassTemplate => {
                match Parser::parse_record(node) {
                    Some(built) => {
                        let mut record = built;
                        proof {
                            lemma_record_view(built);
                        }
                        match find_record(&ns.records, &record.name) {
                            Some(p) => {
                                add_methods(&mut ns.records[p], record.methods);
                                proof {
                                    lemma_namespace_view(*ns);
                                    assert(records_view(ns.records@) =~= records_view(
                                        before.records@,
                                    ).update(p as int, ns.records@[p as int]@));
                                }
                            },
                            None => {
                                settle(&mut record, owned(current_namespace_name), index);
                                index.insert(absolute_name, SymbolKind::Record);
                                ns.records.push(record);
                                proof {
                                    lemma_namespace_view(*ns);
                                    assert(records_view(ns.records@) =~= records_view(
                                        before.records@,
                                    ).push(record@));
                                }
                            },
                        }
                    },
                    None => {
                        self.report(node, current_namespace_name);
                    },
                }
            },
            EntityKind::EnumDecl => {
                match Parser::parse_enum(node) {
                    Some(built) => {
                        let mut item = built;
                        item.namespace = Some(owned(current_namespace_name));
                        index.insert(absolute_name, SymbolKind::Enum);
                        ns.enums.push(item);
                        proof {
                            lemma_namespace_view(*ns);
                            assert(enums_view(ns.enums@) =~= enums_view(before.enums@).push(item@));
                        }
                    },
                    None => {
                        self.report(node, current_namespace_name);
                    },
                }
            },
            EntityKind::Namespace => {
                match &node.name {
                    Some(n) => {
                        let name = n.clone();
                        let path = Parser::scope(current_namespace_name, name.as_str());
                        match find_namespace(&ns.namespaces, &name) {
                            Some(p) => {
                                index.insert(absolute_name, SymbolKind::Namespace);
                                self.parse_children(
                                    node,
                                    &mut ns.namespaces[p],
                                    index,
                                    path.as_str(),
                                );
                                proof {
                                    lemma_namespace_view(*ns);
                                    assert(namespaces_view(ns.namespaces@) =~= namespaces_view(
                                        before.namespaces@,
                                    ).update(p as int, ns.namespaces@[p as int]@));
                                }
                            },
                            None => {
                                let mut fresh = Namespace::new(
                                    name,
                                    Some(owned(current_namespace_name)),
                                );
                                fresh.comment = copy_comment(&node.comment);
                                proof {
                                    lemma_namespace_view(fresh);
                                    assert(fresh@ =~= fresh_namespace(
                                        *node,
                                        current_namespace_name@,
                                    )) by {
                                        assert(records_view(fresh.records@) =~= Seq::<
                                            RecordView,
                                        >::empty());
                                        assert(functions_view(fresh.functions@) =~= Seq::<
                                            FunctionView,
                                        >::empty());
                                        assert(namespaces_view(fresh.namespaces@) =~= Seq::<
                                            NamespaceView,
                                        >::empty());
                                        assert(enums_view(fresh.enums@) =~= Seq::<
                                            EnumView,
                                        >::empty());
                                        assert(aliases_view(fresh.aliases@) =~= Seq::<
                                            AliasView,
                                        >::empty());
                                    }
                                }
                                index.insert(absolute_name, SymbolKind::Namespace);
                                self.parse_children(node, &mut fresh, index, path.as_str());
                                ns.namespaces.push(fresh);
                                proof {
                                    lemma_namespace_view(*ns);
                                    assert(namespaces_view(ns.namespaces@) =~= namespaces_view(
                                        before.namespaces@,
                                    ).push(fresh@));
                                }
                            },
                        }
                    },
                    None => {
                        self.report(node, current_namespace_name);
                    },
                }
            },
            EntityKind::TypeAliasDecl => {
                match &node.name {
                    Some(n) => match Parser::alias_type(node) {
                        Some(type_) => {
                            let alias = Alias {
                                namespace: Some(owned(current_namespace_name)),
                                name: n.clone(),
                                type_,
                                comment: copy_comment(&node.comment),
                            };
                            index.insert(absolute_name, SymbolKind::Alias);
                            ns.aliases.push(alias);
                            proof {
                                lemma_namespace_view(*ns);
                                assert(aliases_view(ns.aliases@) =~= aliases_view(
                                    before.aliases@,
                                ).push(alias@));
                            }
                        },
                        None => {
                            self.report(node, current_namespace_name);
                        },
                    },
                    None => {
                        self.report(node, current_namespace_name);
                    },
                }
            },
            _ => {},
        }
    }

    /// Takes the children of `node`, one after the other, into the namespace
    /// `ns`, whose qualified name is `path`.
    pub fn parse_children(
        &mut self,
        node: &Entity,
        ns: &mut Namespace,
        index: &mut SymbolIndex,
        path: &str,
    )
        ensures
            state_of(*final(ns), *final(index), final(self).diagnostics@) == children_applied(
                *node,
                node.children@.len(),
                state_of(*old(ns), *old(index), old(self).diagnostics@),
                path@,
            ),
        decreases *node, 0nat,
    {
        let ghost st = state_of(*ns, *index, self.diagnostics@);
        let mut i: usize = 0;
        while i < node.children.len()
            invariant
                i <= node.children@.len(),
                state_of(*ns, *index, self.diagnostics@) == children_applied(
                    *node,
                    i as nat,
                    st,
                    path@,
                ),
            decreases node.children@.len() - i,
        {
            self.parse_node(&node.children[i], ns, index, path);
            i = i + 1;
        }
    }

    /// Takes the declarations of one parsed file into `out`: the children of
    /// `unit` that stand in the file itself, as declarations of the global
    /// namespace. Declarations that the file only includes are passed over.
    pub fn parse(&mut self, unit: &Entity, out: &mut Output)
        ensures
            state_of(final(out).root, final(out).index, final(self).diagnostics@) == unit_applied(
                *unit,
                unit.children@.len(),
                state_of(old(out).root, old(out).index, old(self).diagnostics@),
            ),
    {
        let ghost st = state_of(out.root, out.index, self.diagnostics@);
        let mut i: usize = 0;
        proof {
            reveal_strlit("");
            assert(""@ =~= Seq::<char>::empty());
        }
        while i < unit.children.len()
            invariant
                i <= unit.children@.len(),
                ""@ == Seq::<char>::empty(),
                state_of(out.root, out.index, self.diagnostics@) == unit_applied(
                    *unit,
                    i as nat,
                    st,
                ),
            decreases unit.children@.len() - i,
        {
            if unit.children[i].in_main_file {
                self.parse_node(&unit.children[i], &mut out.root, &mut out.index, "");
            }
            i = i + 1;
        }
    }
}

} // verus!
