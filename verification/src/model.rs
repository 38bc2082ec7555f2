//! The declaration model: the typed, in-memory description of one binding
//! unit — an optional name prefix and an ordered list of declarations
//! (functions, structures, and method blocks) — from which the generator
//! derives trampolines and the registration table.
//!
//! All names and native type expressions are carried as UTF-8 byte strings
//! (`Vec<u8>`), viewed as `Seq<u8>` in specifications.

use vstd::prelude::*;

verus! {

/// The marshalling category a native type expression resolves to.
///
/// Every parameter, field, and return type is classified into exactly one
/// category; the category alone decides which check, extraction, and
/// conversion code a trampoline performs for that position.
#[derive(Clone, Copy, PartialEq, Eq, Structural, Debug)]
pub enum TypeCategory {
    /// Fixed-width integer: `bits` is the width, `signed` its signedness.
    Integer { bits: u32, signed: bool },
    /// Floating-point number of width `bits`.
    Float { bits: u32 },
    /// Truth value, carried by the runtime as a number (zero is false).
    Boolean,
    /// Owned or borrowed textual string.
    Text,
    /// A boxed structure handle; used only for receivers, never produced by
    /// the classifier for a parameter, field, or return type.
    Opaque,
}

impl TypeCategory {
    /// The widths a category may carry.  The classifier only produces
    /// categories satisfying this.
    pub open spec fn wf(self) -> bool {
        match self {
            TypeCategory::Integer { bits, signed } =>
                bits == 8 || bits == 16 || bits == 32 || bits == 64 || bits == 128,
            TypeCategory::Float { bits } => bits == 32 || bits == 64,
            TypeCategory::Boolean => true,
            TypeCategory::Text => true,
            TypeCategory::Opaque => true,
        }
    }
}

/// One declared parameter: its name and its native type expression.
pub struct Param {
    pub name: Vec<u8>,
    pub ty: Vec<u8>,
}

/// One structure field: name, visibility, and native type expression.
/// Accessor trampolines are generated only for public fields.
pub struct Field {
    pub name: Vec<u8>,
    pub public: bool,
    pub ty: Vec<u8>,
}

/// A free function exposed to the host runtime.
/// `ret` is `None` for functions that declare no return type.
pub struct FunctionDecl {
    pub name: Vec<u8>,
    pub params: Vec<Param>,
    pub ret: Option<Vec<u8>>,
}

/// A structure exposed as an opaque handle type.
pub struct Structure {
    pub name: Vec<u8>,
    pub fields: Vec<Field>,
}

/// One method in a method block.  `has_receiver` is true when the method
/// takes the structure itself as its first (receiver) argument.  Only
/// public methods are exposed as trampolines; non-public methods still
/// feed the shadow resolver, so a private `new` or a private same-named
/// method suppresses the default constructor or an accessor without
/// putting anything in the table.
pub struct Method {
    pub name: Vec<u8>,
    pub public: bool,
    pub has_receiver: bool,
    pub params: Vec<Param>,
    pub ret: Option<Vec<u8>>,
}

/// A block of methods belonging to the structure named `owner`.
pub struct MethodBlock {
    pub owner: Vec<u8>,
    pub methods: Vec<Method>,
}

/// One item of a binding unit.
pub enum Declaration {
    Function(FunctionDecl),
    Structure(Structure),
    Methods(MethodBlock),
}

/// One generation request: an optional name prefix plus an ordered list of
/// declarations.  An absent prefix and an empty prefix behave alike: no
/// prefix segment is prepended to external names.
pub struct BindingUnit {
    pub prefix: Option<Vec<u8>>,
    pub declarations: Vec<Declaration>,
}

impl BindingUnit {
    /// The prefix bytes this unit derives external names with (empty when
    /// the prefix is absent).
    pub open spec fn spec_prefix(self) -> Seq<u8> {
        match self.prefix {
            Some(p) => p@,
            None => Seq::empty(),
        }
    }
}

} // verus!
