//! What the formatters read of a parsed C++ code base, held as plain values.
//!
//! A front end (libclang and the project configuration) fills these in; the
//! formatters only read them.

use vstd::prelude::*;
use crate::html::Html;

verus! {

/// The kinds of declarations that the formatters tell apart.
#[derive(PartialEq, Eq, Structural, Clone, Copy, Debug)]
pub enum EntityKind {
    Namespace,
    ClassDecl,
    ClassTemplate,
    StructDecl,
    FunctionDecl,
    TypedefDecl,
    UsingDeclaration,
    TypeAliasDecl,
    EnumDecl,
    TemplateTypeParameter,
    BaseSpecifier,
    FieldDecl,
    UnexposedDecl,
    Other,
}

/// The kinds of types that the formatters tell apart.
#[derive(PartialEq, Eq, Structural, Clone, Copy, Debug)]
pub enum TypeKind {
    Void,
    Bool,
    Long,
    Auto,
    Int,
    Short,
    SChar,
    CharS,
    UChar,
    CharU,
    Float,
    Double,
    UInt,
    LongLong,
    Unexposed,
    LValueReference,
    RValueReference,
    Pointer,
    Other,
}

/// C++ member access.
#[derive(PartialEq, Eq, Structural, Clone, Copy, Debug)]
pub enum Accessibility {
    Public,
    Private,
    Protected,
}

/// One declaration on the path from the outermost scope to a declaration,
/// the declaration itself last.
pub struct Ancestor {
    pub kind: EntityKind,
    pub name: Option<String>,
}

/// The declaration that a type names.
pub struct TypeDecl {
    pub kind: EntityKind,
    /// The absolute URL of the declaration's documentation page, if it has one.
    pub docs_url: Option<String>,
    /// The declaration's unified symbol resolution.
    pub usr: Option<String>,
    /// The declaration's scopes, outermost first, ending with the declaration.
    pub ancestors: Vec<Ancestor>,
}

/// A C++ type as the formatters read it.
pub struct CType {
    pub kind: TypeKind,
    pub is_pod: bool,
    pub is_const_qualified: bool,
    pub display_name: String,
    pub declaration: Option<TypeDecl>,
    /// The template arguments, where the type is a template specialisation;
    /// an argument that is not a type is `None`.
    pub template_args: Option<Vec<Option<CType>>>,
    /// The type pointed or referred to, for pointers and references.
    pub pointee: Option<Box<CType>>,
}

/// A documentation comment, already rendered.
pub struct DocComment {
    /// The comment as it is shown inside a member's description.
    pub member_html: Html,
    /// The comment as it is shown at the top of the entity's own page.
    pub page_html: Html,
    /// The comment's examples, rendered.
    pub examples: Vec<Html>,
}

/// A C++ declaration as the formatters read it.
pub struct Entity {
    pub kind: EntityKind,
    pub name: Option<String>,
    pub display_name: Option<String>,
    pub usr: Option<String>,
    pub comment: Option<DocComment>,
    /// The declared type (of a variable, field, parameter or base specifier).
    pub ty: Option<CType>,
    /// The result type of a function.
    pub result_type: Option<CType>,
    /// The parameters of a function.
    pub arguments: Option<Vec<Entity>>,
    pub is_static_method: bool,
    pub is_virtual_method: bool,
    pub is_const_method: bool,
    pub is_pure_virtual_method: bool,
    pub accessibility: Option<Accessibility>,
    pub is_virtual_base: bool,
    /// The declaration's source text, cleaned up for display.
    pub source_string: Option<String>,
    /// The absolute URL of the entity's documentation page.
    pub docs_url: Option<String>,
    /// The URL of the entity's header on GitHub.
    pub github_url: Option<String>,
    /// The path by which the entity's header is included.
    pub include_path: Option<String>,
    /// Whether the source tree that holds the entity is published online.
    pub exists_online: Option<bool>,
    pub children: Vec<Entity>,
    pub public_static_methods: Vec<Entity>,
    pub public_methods: Vec<Entity>,
    pub protected_methods: Vec<Entity>,
}

/// A documented item: its display name, its category ("class", "struct",
/// "function", "namespace", ...) and its declaration.
pub struct Entry {
    pub name: String,
    pub category: String,
    pub entity: Entity,
}

/// A namespace and what it holds.
pub struct Namespace {
    pub entry: Entry,
    pub entries: Vec<CppItem>,
}

/// An item of a namespace.
pub enum CppItem {
    Namespace(Namespace),
    Entry(Entry),
}

/// The value of an optional string, or a default.
pub open spec fn str_or(s: Option<String>, default: Seq<char>) -> Seq<char> {
    match s {
        Some(s) => s@,
        None => default,
    }
}

/// The view of an optional string.
pub open spec fn opt_str_view(s: Option<String>) -> Option<Seq<char>> {
    match s {
        Some(s) => Some(s@),
        None => None,
    }
}

} // verus!
