//! The documentation model: a tree of namespaces that holds records,
//! functions, enums and aliases.
//!
//! Each type has a view that replaces every `String` by its characters and
//! every `Vec` by a `Seq`; contracts speak of the views.

use crate::index::SymbolIndex;
use crate::text::texts;
use vstd::prelude::*;

verus! {

/// A documentation comment, already cut into its parts.
#[derive(Debug, PartialEq, Eq)]
pub struct Comment {
    pub description: String,
    pub brief: String,
    pub impl_: Option<Vec<String>>,
}

/// A struct, union or enum that is declared inline as the type of a field.
#[derive(Debug, PartialEq, Eq)]
pub enum NestedField {
    Record(Record),
    Enum(Enum),
}

/// A data member of a record, or a parameter of a function.
#[derive(Debug, PartialEq, Eq)]
pub struct Field {
    pub name: String,
    pub type_: String,
    pub comment: Option<Comment>,
    pub struct_: Option<NestedField>,
}

/// A struct, class or union.
#[derive(Debug, PartialEq, Eq)]
pub struct Record {
    pub name: String,
    pub fields: Vec<Field>,
    pub comment: Option<Comment>,
    pub kind: String,
    pub namespace: Option<String>,
    pub ctor: Vec<Function>,
    pub methods: Vec<Function>,
    pub template: Option<Template>,
    pub nested: Option<Vec<NestedField>>,
}

/// One named value of an enum.
#[derive(Debug, Clone, PartialEq, Eq)]
pub struct EnumValue {
    pub name: String,
    pub comment: Option<Comment>,
}

/// An enum with its values in declaration order.
#[derive(Debug, Clone, PartialEq, Eq)]
pub struct Enum {
    pub name: String,
    pub comment: Option<Comment>,
    pub namespace: Option<String>,
    pub values: Vec<EnumValue>,
}

/// The qualifiers of a function.
#[derive(Debug, Clone, Copy, PartialEq, Eq)]
pub struct FunctionProps {
    pub const_: bool,
    pub static_: bool,
    pub virtual_: bool,
}

/// One parameter of a template: its name and a word for its type.
#[derive(Debug, Clone, PartialEq, Eq)]
pub struct TemplateParameter {
    pub name: String,
    pub type_: String,
}

/// The parameter list of a template.
#[derive(Debug, Clone, PartialEq, Eq)]
pub struct Template {
    pub parameters: Vec<TemplateParameter>,
}

/// A function, with the later functions of the same name as its overloads.
#[derive(Debug, PartialEq, Eq)]
pub struct Function {
    pub name: String,
    pub return_type: String,
    pub parameters: Vec<Field>,
    pub comment: Option<Comment>,
    pub props: FunctionProps,
    pub namespace: Option<String>,
    pub template: Option<Template>,
    pub overloads: Option<Vec<Function>>,
}

/// A type alias.
#[derive(Debug, Clone, PartialEq, Eq)]
pub struct Alias {
    pub namespace: Option<String>,
    pub name: String,
    pub type_: String,
    pub comment: Option<Comment>,
}

/// A namespace with everything declared in it.
#[derive(Debug, PartialEq, Eq)]
pub struct Namespace {
    pub name: String,
    pub comment: Option<Comment>,
    pub records: Vec<Record>,
    pub functions: Vec<Function>,
    pub namespaces: Vec<Namespace>,
    pub enums: Vec<Enum>,
    pub aliases: Vec<Alias>,
    pub namespace: Option<String>,
}

/// What a build produces: the tree of namespaces under the global namespace,
/// and the index of every registered name.
pub struct Output {
    pub root: Namespace,
    pub index: SymbolIndex,
}

/// A comment as contracts see it.
pub struct CommentView {
    pub description: Seq<char>,
    pub brief: Seq<char>,
    pub impl_: Option<Seq<Seq<char>>>,
}

/// An inline declaration as contracts see it.
pub enum NestedFieldView {
    Record(RecordView),
    Enum(EnumView),
}

/// A field as contracts see it.
pub struct FieldView {
    pub name: Seq<char>,
    pub type_: Seq<char>,
    pub comment: Option<CommentView>,
    pub struct_: Option<NestedFieldView>,
}

/// A record as contracts see it.
pub struct RecordView {
    pub name: Seq<char>,
    pub fields: Seq<FieldView>,
    pub comment: Option<CommentView>,
    pub kind: Seq<char>,
    pub namespace: Option<Seq<char>>,
    pub ctor: Seq<FunctionView>,
    pub methods: Seq<FunctionView>,
    pub template: Option<TemplateView>,
    pub nested: Option<Seq<NestedFieldView>>,
}

/// A value of an enum as contracts see it.
pub struct EnumValueView {
    pub name: Seq<char>,
    pub comment: Option<CommentView>,
}

/// An enum as contracts see it.
pub struct EnumView {
    pub name: Seq<char>,
    pub comment: Option<CommentView>,
    pub namespace: Option<Seq<char>>,
    pub values: Seq<EnumValueView>,
}

/// A parameter of a template as contracts see it.
pub struct TemplateParameterView {
    pub name: Seq<char>,
    pub type_: Seq<char>,
}

/// The parameter list of a template as contracts see it.
pub struct TemplateView {
    pub parameters: Seq<TemplateParameterView>,
}

/// A function as contracts see it.
pub struct FunctionView {
    pub name: Seq<char>,
    pub return_type: Seq<char>,
    pub parameters: Seq<FieldView>,
    pub comment: Option<CommentView>,
    pub props: FunctionProps,
    pub namespace: Option<Seq<char>>,
    pub template: Option<TemplateView>,
    pub overloads: Option<Seq<FunctionView>>,
}

/// An alias as contracts see it.
pub struct AliasView {
    pub namespace: Option<Seq<char>>,
    pub name: Seq<char>,
    pub type_: Seq<char>,
    pub comment: Option<CommentView>,
}

/// A namespace as contracts see it.
pub struct NamespaceView {
    pub name: Seq<char>,
    pub comment: Option<CommentView>,
    pub records: Seq<RecordView>,
    pub functions: Seq<FunctionView>,
    pub namespaces: Seq<NamespaceView>,
    pub enums: Seq<EnumView>,
    pub aliases: Seq<AliasView>,
    pub namespace: Option<Seq<char>>,
}

/// The characters of an optional string.
pub open spec fn text_of(s: Option<String>) -> Option<Seq<char>> {
    match s {
        Some(x) => Some(x@),
        None => None,
    }
}

/// The view of an optional comment.
pub open spec fn comment_of(c: Option<Comment>) -> Option<CommentView> {
    match c {
        Some(x) => Some(x@),
        None => None,
    }
}

impl View for Comment {
    type V = CommentView;

    open spec fn view(&self) -> CommentView {
        CommentView {
            description: self.description@,
            brief: self.brief@,
            impl_: match self.impl_ {
                Some(lines) => Some(texts(lines@)),
                None => None,
            },
        }
    }
}

impl Clone for Comment {
    fn clone(&self) -> (r: Self)
        ensures
            r@ == self@,
    {
        let impl_ = match &self.impl_ {
            Some(lines) => {
                let mut copy: Vec<String> = Vec::new();
                let mut i: usize = 0;
                while i < lines.len()
                    invariant
                        i <= lines@.len(),
                        copy@.len() == i,
                        forall|j: int| 0 <= j < i ==> copy@[j]@ == lines@[j]@,
                    decreases lines@.len() - i,
                {
                    copy.push(lines[i].clone());
                    i = i + 1;
                }
                assert(texts(copy@) =~= texts(lines@));
                Some(copy)
            },
            None => None,
        };
        Comment { description: self.description.clone(), brief: self.brief.clone(), impl_ }
    }
}

impl View for EnumValue {
    type V = EnumValueView;

    open spec fn view(&self) -> EnumValueView {
        EnumValueView { name: self.name@, comment: comment_of(self.comment) }
    }
}

/// The views of a sequence of enum values.
pub open spec fn enum_values_view(v: Seq<EnumValue>) -> Seq<EnumValueView> {
    Seq::new(v.len(), |i: int| v[i]@)
}

impl View for Enum {
    type V = EnumView;

    open spec fn view(&self) -> EnumView {
        EnumView {
            name: self.name@,
            comment: comment_of(self.comment),
            namespace: text_of(self.namespace),
            values: enum_values_view(self.values@),
        }
    }
}

impl View for TemplateParameter {
    type V = TemplateParameterView;

    open spec fn view(&self) -> TemplateParameterView {
        TemplateParameterView { name: self.name@, type_: self.type_@ }
    }
}

/// The views of a sequence of template parameters.
pub open spec fn template_parameters_view(v: Seq<TemplateParameter>) -> Seq<TemplateParameterView> {
    Seq::new(v.len(), |i: int| v[i]@)
}

impl View for Template {
    type V = TemplateView;

    open spec fn view(&self) -> TemplateView {
        TemplateView { parameters: template_parameters_view(self.parameters@) }
    }
}

/// The view of an optional template.
pub open spec fn template_of(t: Option<Template>) -> Option<TemplateView> {
    match t {
        Some(x) => Some(x@),
        None => None,
    }
}

impl View for Alias {
    type V = AliasView;

    open spec fn view(&self) -> AliasView {
        AliasView {
            namespace: text_of(self.namespace),
            name: self.name@,
            type_: self.type_@,
            comment: comment_of(self.comment),
        }
    }
}

/// The views of a sequence of aliases.
pub open spec fn aliases_view(v: Seq<Alias>) -> Seq<AliasView> {
    Seq::new(v.len(), |i: int| v[i]@)
}

/// The views of a sequence of enums.
pub open spec fn enums_view(v: Seq<Enum>) -> Seq<EnumView> {
    Seq::new(v.len(), |i: int| v[i]@)
}

/// The view of a field. Fields, inline declarations, records and functions
/// hold one another, so their views are defined together.
pub open spec fn field_view(f: Field) -> FieldView
    decreases f,
{
    FieldView {
        name: f.name@,
        type_: f.type_@,
        comment: comment_of(f.comment),
        struct_: match f.struct_ {
            Some(n) => Some(nested_view(n)),
            None => None,
        },
    }
}

/// The view of an inline declaration.
pub open spec fn nested_view(n: NestedField) -> NestedFieldView
    decreases n,
{
    match n {
        NestedField::Record(r) => NestedFieldView::Record(record_view(r)),
        NestedField::Enum(e) => NestedFieldView::Enum(e@),
    }
}

/// The view of a function.
pub open spec fn function_view(f: Function) -> FunctionView
    decreases f,
{
    FunctionView {
        name: f.name@,
        return_type: f.return_type@,
        parameters: Seq::new(
            f.parameters@.len(),
            |i: int|
                if 0 <= i < f.parameters@.len() {
                    field_view(f.parameters@[i])
                } else {
                    arbitrary()
                },
        ),
        comment: comment_of(f.comment),
        props: f.props,
        namespace: text_of(f.namespace),
        template: template_of(f.template),
        overloads: match f.overloads {
            Some(v) => Some(
                Seq::new(
                    v@.len(),
                    |i: int|
                        if 0 <= i < v@.len() {
                            function_view(v@[i])
                        } else {
                            arbitrary()
                        },
                ),
            ),
            None => None,
        },
    }
}

/// The view of a record.
pub open spec fn record_view(r: Record) -> RecordView
    decreases r,
{
    RecordView {
        name: r.name@,
        fields: Seq::new(
            r.fields@.len(),
            |i: int|
                if 0 <= i < r.fields@.len() {
                    field_view(r.fields@[i])
                } else {
                    arbitrary()
                },
        ),
        comment: comment_of(r.comment),
        kind: r.kind@,
        namespace: text_of(r.namespace),
        ctor: Seq::new(
            r.ctor@.len(),
            |i: int|
                if 0 <= i < r.ctor@.len() {
                    function_view(r.ctor@[i])
                } else {
                    arbitrary()
                },
        ),
        methods: Seq::new(
            r.methods@.len(),
            |i: int|
                if 0 <= i < r.methods@.len() {
                    function_view(r.methods@[i])
                } else {
                    arbitrary()
                },
        ),
        template: template_of(r.template),
        nested: match r.nested {
            Some(v) => Some(
                Seq::new(
                    v@.len(),
                    |i: int|
                        if 0 <= i < v@.len() {
                            nested_view(v@[i])
                        } else {
                            arbitrary()
                        },
                ),
            ),
            None => None,
        },
    }
}

/// The view of a namespace.
pub open spec fn namespace_view(n: Namespace) -> NamespaceView
    decreases n,
{
    NamespaceView {
        name: n.name@,
        comment: comment_of(n.comment),
        records: records_view(n.records@),
        functions: functions_view(n.functions@),
        namespaces: Seq::new(
            n.namespaces@.len(),
            |i: int|
                if 0 <= i < n.namespaces@.len() {
                    namespace_view(n.namespaces@[i])
                } else {
                    arbitrary()
                },
        ),
        enums: enums_view(n.enums@),
        aliases: aliases_view(n.aliases@),
        namespace: text_of(n.namespace),
    }
}

/// The views of a sequence of fields.
pub open spec fn fields_view(v: Seq<Field>) -> Seq<FieldView> {
    Seq::new(v.len(), |i: int| field_view(v[i]))
}

/// The views of a sequence of functions.
pub open spec fn functions_view(v: Seq<Function>) -> Seq<FunctionView> {
    Seq::new(v.len(), |i: int| function_view(v[i]))
}

/// The views of a sequence of inline declarations.
pub open spec fn nesteds_view(v: Seq<NestedField>) -> Seq<NestedFieldView> {
    Seq::new(v.len(), |i: int| nested_view(v[i]))
}

/// The views of a sequence of records.
pub open spec fn records_view(v: Seq<Record>) -> Seq<RecordView> {
    Seq::new(v.len(), |i: int| record_view(v[i]))
}

/// The views of a sequence of namespaces.
pub open spec fn namespaces_view(v: Seq<Namespace>) -> Seq<NamespaceView> {
    Seq::new(v.len(), |i: int| namespace_view(v[i]))
}

/// The views of an optional sequence of functions.
pub open spec fn functions_of(v: Option<Vec<Function>>) -> Option<Seq<FunctionView>> {
    match v {
        Some(x) => Some(functions_view(x@)),
        None => None,
    }
}

/// The views of an optional sequence of inline declarations.
pub open spec fn nesteds_of(v: Option<Vec<NestedField>>) -> Option<Seq<NestedFieldView>> {
    match v {
        Some(x) => Some(nesteds_view(x@)),
        None => None,
    }
}

impl View for Field {
    type V = FieldView;

    open spec fn view(&self) -> FieldView {
        field_view(*self)
    }
}

impl View for NestedField {
    type V = NestedFieldView;

    open spec fn view(&self) -> NestedFieldView {
        nested_view(*self)
    }
}

impl View for Function {
    type V = FunctionView;

    open spec fn view(&self) -> FunctionView {
        function_view(*self)
    }
}

impl View for Record {
    type V = RecordView;

    open spec fn view(&self) -> RecordView {
        record_view(*self)
    }
}

impl View for Namespace {
    type V = NamespaceView;

    open spec fn view(&self) -> NamespaceView {
        namespace_view(*self)
    }
}

/// The view of a function, field by field.
pub proof fn lemma_function_view(f: Function)
    ensures
        f@ == (FunctionView {
            name: f.name@,
            return_type: f.return_type@,
            parameters: fields_view(f.parameters@),
            comment: comment_of(f.comment),
            props: f.props,
            namespace: text_of(f.namespace),
            template: template_of(f.template),
            overloads: functions_of(f.overloads),
        }),
{
    assert(f@.parameters =~= fields_view(f.parameters@));
    match f.overloads {
        Some(v) => {
            assert(f@.overloads->0 =~= functions_view(v@));
        },
        None => {},
    }
}

/// The view of a record, field by field.
pub proof fn lemma_record_view(r: Record)
    ensures
        r@ == (RecordView {
            name: r.name@,
            fields: fields_view(r.fields@),
            comment: comment_of(r.comment),
            kind: r.kind@,
            namespace: text_of(r.namespace),
            ctor: functions_view(r.ctor@),
            methods: functions_view(r.methods@),
            template: template_of(r.template),
            nested: nesteds_of(r.nested),
        }),
{
    assert(r@.fields =~= fields_view(r.fields@));
    assert(r@.ctor =~= functions_view(r.ctor@));
    assert(r@.methods =~= functions_view(r.methods@));
    match r.nested {
        Some(v) => {
            assert(r@.nested->0 =~= nesteds_view(v@));
        },
        None => {},
    }
}

/// The view of a namespace, field by field.
pub proof fn lemma_namespace_view(n: Namespace)
    ensures
        n@ == (NamespaceView {
            name: n.name@,
            comment: comment_of(n.comment),
            records: records_view(n.records@),
            functions: functions_view(n.functions@),
            namespaces: namespaces_view(n.namespaces@),
            enums: enums_view(n.enums@),
            aliases: aliases_view(n.aliases@),
            namespace: text_of(n.namespace),
        }),
{
    assert(n@.namespaces =~= namespaces_view(n.namespaces@));
}

impl Namespace {
    /// The namespace of the given name with nothing in it.
    pub fn new(name: String, namespace: Option<String>) -> (r: Self)
        ensures
            r.name == name,
            r.namespace == namespace,
            r.comment is None,
            r.records@.len() == 0,
            r.functions@.len() == 0,
            r.namespaces@.len() == 0,
            r.enums@.len() == 0,
            r.aliases@.len() == 0,
    {
        Namespace {
            name,
            comment: None,
            records: Vec::new(),
            functions: Vec::new(),
            namespaces: Vec::new(),
            enums: Vec::new(),
            aliases: Vec::new(),
            namespace,
        }
    }
}

/// The global namespace before anything is declared: no name, no parent and
/// nothing in it.
pub open spec fn empty_namespace() -> NamespaceView {
    NamespaceView {
        name: Seq::<char>::empty(),
        comment: None,
        records: Seq::<RecordView>::empty(),
        functions: Seq::<FunctionView>::empty(),
        namespaces: Seq::<NamespaceView>::empty(),
        enums: Seq::<EnumView>::empty(),
        aliases: Seq::<AliasView>::empty(),
        namespace: None,
    }
}

impl Default for Namespace {
    fn default() -> (r: Self)
        ensures
            r@ == empty_namespace(),
    {
        let r = Namespace::new(String::new(), None);
        proof {
            lemma_namespace_view(r);
            assert(records_view(r.records@) =~= Seq::<RecordView>::empty());
            assert(functions_view(r.functions@) =~= Seq::<FunctionView>::empty());
            assert(namespaces_view(r.namespaces@) =~= Seq::<NamespaceView>::empty());
            assert(enums_view(r.enums@) =~= Seq::<EnumView>::empty());
            assert(aliases_view(r.aliases@) =~= Seq::<AliasView>::empty());
        }
        r
    }
}

impl Default for Output {
    fn default() -> (r: Self)
        ensures
            r.root@ == empty_namespace(),
            r.index@ == Map::<Seq<char>, crate::index::SymbolKind>::empty(),
            r.index.order() == Seq::<Seq<char>>::empty(),
    {
        Output { root: Namespace::default(), index: SymbolIndex::new() }
    }
}

} // verus!
