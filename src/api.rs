use vstd::prelude::*;

use crate::names::{clone_string, QualName, QualifiedName};

verus! {

/// A type argument of a generic instantiation, or the target of a pointer.
#[derive(Debug)]
pub enum TypeArg {
    /// A built-in scalar such as `uint32_t`.
    Primitive(String),
    /// A named declaration.
    Named(QualifiedName),
}

/// One occurrence of a foreign type reference, as a field's type.
#[derive(Debug)]
pub enum TypeRef {
    /// A built-in scalar: always flat.
    Primitive(String),
    /// A named declaration, by fully qualified name.
    Named(QualifiedName),
    /// A pointer or reference: flat itself, whatever it points at.
    Pointer(TypeArg),
    /// A template instantiated with concrete arguments, such as `std::pair<int, Foo>`.
    Generic(QualifiedName, Vec<TypeArg>),
    /// A pointer to a function, which the converter does not support.
    FunctionPointer,
}

/// Mathematical model of a `TypeArg`.
pub enum ArgV {
    Primitive(Seq<char>),
    Named(QualName),
}

/// Mathematical model of a `TypeRef`.
pub enum TypeV {
    Primitive(Seq<char>),
    Named(QualName),
    Pointer(ArgV),
    Generic(QualName, Seq<ArgV>),
    FunctionPointer,
}

pub open spec fn arg_views(v: Seq<TypeArg>) -> Seq<ArgV> {
    v.map_values(|a: TypeArg| a@)
}

impl View for TypeArg {
    type V = ArgV;

    open spec fn view(&self) -> ArgV {
        match self {
            TypeArg::Primitive(s) => ArgV::Primitive(s@),
            TypeArg::Named(q) => ArgV::Named(q@),
        }
    }
}

impl View for TypeRef {
    type V = TypeV;

    open spec fn view(&self) -> TypeV {
        match self {
            TypeRef::Primitive(s) => TypeV::Primitive(s@),
            TypeRef::Named(q) => TypeV::Named(q@),
            TypeRef::Pointer(a) => TypeV::Pointer(a@),
            TypeRef::Generic(tm, args) => TypeV::Generic(tm@, arg_views(args@)),
            TypeRef::FunctionPointer => TypeV::FunctionPointer,
        }
    }
}

impl TypeArg {
    pub fn clone_arg(&self) -> (r: TypeArg)
        ensures
            r@ == self@,
    {
        match self {
            TypeArg::Primitive(s) => TypeArg::Primitive(clone_string(s)),
            TypeArg::Named(q) => TypeArg::Named(q.clone_name()),
        }
    }
}

#[derive(Debug)]
pub struct Field {
    pub ident: String,
    pub ty: TypeRef,
}

/// The raw syntax of a struct declaration.
#[derive(Debug)]
pub struct StructItem {
    pub attrs: Vec<String>,
    pub fields: Vec<Field>,
    /// Declares a destructor, copy constructor or move constructor.
    pub has_lifecycle: bool,
    /// Opaque, unsized or reference-only: never held as a value.
    pub opaque: bool,
}

/// The raw syntax of an enumeration.
#[derive(Debug)]
pub struct EnumItem {
    pub attrs: Vec<String>,
    pub variants: Vec<String>,
}

/// A declaration's identity.
#[derive(Debug)]
pub struct ApiName {
    pub name: QualifiedName,
    /// Declared inside another type.
    pub nested: bool,
}

#[derive(Debug, Clone, Copy, PartialEq, Eq, Structural)]
pub enum TypeKind {
    Pod,
    NonPodNested,
    NonPod,
}

/// What the by-value analysis attaches to a struct.
#[derive(Debug)]
pub struct PodAnalysis {
    pub kind: TypeKind,
    pub bases: Vec<QualifiedName>,
    pub field_deps: Vec<QualifiedName>,
}

#[derive(Debug)]
pub enum ConvertError {
    /// A by-value request names a type that cannot be held by value.
    UnsafePodType(String),
    /// A field is a pointer to a function.
    UnsupportedFunctionPointer,
}

#[derive(Debug)]
pub enum ErrorContext {
    Item(String),
}

#[derive(Debug)]
pub struct ConvertErrorWithContext(pub ConvertError, pub Option<ErrorContext>);

/// A declaration, tagged with what the current phase knows of a struct.
///
/// `S` is `()` before the by-value analysis and `PodAnalysis` after it.
#[derive(Debug)]
pub enum Api<S> {
    Function { name: ApiName },
    Typedef { name: ApiName, target: TypeRef },
    Struct { name: ApiName, item: StructItem, analysis: S },
    Enum { name: ApiName, item: EnumItem },
    /// A declaration whose analysis failed, kept so the failure can be reported.
    IgnoredItem { name: ApiName, err: ConvertError, ctx: Option<ErrorContext> },
}

/// A declaration as it comes from the earlier phases.
pub type UnanalyzedApi = Api<()>;

/// A declaration after the by-value analysis.
pub type PodApi = Api<PodAnalysis>;

impl<S> Api<S> {
    pub open spec fn spec_name(&self) -> QualName {
        match self {
            Api::Function { name } => name.name@,
            Api::Typedef { name, .. } => name.name@,
            Api::Struct { name, .. } => name.name@,
            Api::Enum { name, .. } => name.name@,
            Api::IgnoredItem { name, .. } => name.name@,
        }
    }

    pub fn name(&self) -> (r: &ApiName)
        ensures
            r.name@ == self.spec_name(),
    {
        match self {
            Api::Function { name } => name,
            Api::Typedef { name, .. } => name,
            Api::Struct { name, .. } => name,
            Api::Enum { name, .. } => name,
            Api::IgnoredItem { name, .. } => name,
        }
    }
}

} // verus!
