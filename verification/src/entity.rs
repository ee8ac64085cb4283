//! What the C++ front-end hands over: a tree of declarations, each with its
//! kind, its names, the text of its types, its comment and its children.

use crate::model::Comment;
use vstd::prelude::*;

verus! {

/// The kinds of declaration that the model is built from. Every kind that
/// the builder has no use for is `Other`.
#[derive(Clone, Copy, Debug, PartialEq, Eq, Structural)]
pub enum EntityKind {
    Namespace,
    StructDecl,
    ClassDecl,
    UnionDecl,
    ClassTemplate,
    EnumDecl,
    EnumConstantDecl,
    FieldDecl,
    Constructor,
    Method,
    FunctionDecl,
    FunctionTemplate,
    ParmDecl,
    TemplateTypeParameter,
    NonTypeTemplateParameter,
    TemplateTemplateParameter,
    TypeAliasDecl,
    TypeRef,
    TemplateRef,
    Other,
}

/// Who may reach a member of a record.
#[derive(Clone, Copy, Debug, PartialEq, Eq, Structural)]
pub enum Accessibility {
    Public,
    Protected,
    Private,
}

/// One declaration of the parsed source, with the declarations inside it.
#[derive(Debug, PartialEq, Eq)]
pub struct Entity {
    pub kind: EntityKind,
    /// The name of the declaration, where it has one.
    pub name: Option<String>,
    /// The name as it is displayed, with template arguments.
    pub display_name: Option<String>,
    /// The text of the declaration's type.
    pub type_text: Option<String>,
    /// The text of the type that a function returns.
    pub result_type: Option<String>,
    /// The text of the type that a type definition stands for.
    pub underlying_type: Option<String>,
    pub comment: Option<Comment>,
    pub accessibility: Option<Accessibility>,
    pub is_const_method: bool,
    pub is_static_method: bool,
    pub is_virtual_method: bool,
    /// Whether the declaration stands in the file that was parsed, rather
    /// than in a file that it includes.
    pub in_main_file: bool,
    pub children: Vec<Entity>,
}

impl EntityKind {
    /// The kinds that declare a record.
    pub open spec fn is_record(self) -> bool {
        self == EntityKind::StructDecl || self == EntityKind::ClassDecl || self
            == EntityKind::UnionDecl || self == EntityKind::ClassTemplate
    }

    /// The kinds that declare a function outside a record.
    pub open spec fn is_function(self) -> bool {
        self == EntityKind::FunctionDecl || self == EntityKind::FunctionTemplate
    }

    /// The kinds that declare a parameter of a template.
    pub open spec fn is_template_parameter(self) -> bool {
        self == EntityKind::TemplateTypeParameter || self == EntityKind::NonTypeTemplateParameter
            || self == EntityKind::TemplateTemplateParameter
    }
}

impl Entity {
    /// A declaration of the given kind that has nothing else: no name, no
    /// type, no comment, no children, and it stands in the parsed file.
    pub fn new(kind: EntityKind) -> (r: Self)
        ensures
            r.kind == kind,
            r.name is None,
            r.display_name is None,
            r.type_text is None,
            r.result_type is None,
            r.underlying_type is None,
            r.comment is None,
            r.accessibility is None,
            !r.is_const_method,
            !r.is_static_method,
            !r.is_virtual_method,
            r.in_main_file,
            r.children@.len() == 0,
    {
        Entity {
            kind,
            name: None,
            display_name: None,
            type_text: None,
            result_type: None,
            underlying_type: None,
            comment: None,
            accessibility: None,
            is_const_method: false,
            is_static_method: false,
            is_virtual_method: false,
            in_main_file: true,
            children: Vec::new(),
        }
    }

    /// The characters of the name, none where there is no name.
    pub open spec fn name_text(self) -> Seq<char> {
        match self.name {
            Some(n) => n@,
            None => Seq::<char>::empty(),
        }
    }

    /// The characters of the type's text, none where there is no type.
    pub open spec fn type_characters(self) -> Seq<char> {
        match self.type_text {
            Some(t) => t@,
            None => Seq::<char>::empty(),
        }
    }

    /// Whether the declaration is a public member.
    pub open spec fn is_public(self) -> bool {
        self.accessibility == Some(Accessibility::Public)
    }

    /// The name, or the empty string where there is none.
    pub fn name_or_empty(&self) -> (r: String)
        ensures
            r@ == self.name_text(),
    {
        match &self.name {
            Some(n) => n.clone(),
            None => String::new(),
        }
    }

    /// Whether the declaration is a public member.
    pub fn public(&self) -> (r: bool)
        ensures
            r == self.is_public(),
    {
        match self.accessibility {
            Some(Accessibility::Public) => true,
            _ => false,
        }
    }
}

} // verus!
