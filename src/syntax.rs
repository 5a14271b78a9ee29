//! The parts of Rust syntax that option parsing and signature inspection read,
//! held as plain values.
use vstd::prelude::*;

verus! {

/// One segment of a path, such as `ExternRef` in `crate::ExternRef`.
pub struct PathSegment {
    pub ident: String,
    /// Whether the segment carries generic arguments (`Box<T>`).
    pub has_arguments: bool,
}

/// A path such as `name`, `::std::string::String` or `Option<u32>`.
pub struct SynPath {
    /// Whether the path starts with `::`.
    pub leading_colon: bool,
    pub segments: Vec<PathSegment>,
}

/// The identifier that a path consists of, if it is a single bare identifier:
/// no leading `::`, one segment, and no generic arguments.
pub open spec fn path_ident(p: SynPath) -> Option<Seq<char>> {
    if !p.leading_colon && p.segments@.len() == 1 && !p.segments@[0].has_arguments {
        Some(p.segments@[0].ident@)
    } else {
        None
    }
}

impl SynPath {
    /// Returns the identifier this path consists of, if it is a single bare
    /// identifier.
    pub fn get_ident(&self) -> (r: Option<&String>)
        ensures
            match r {
                Some(id) => path_ident(*self) == Some(id@),
                None => path_ident(*self) is None,
            },
    {
        if !self.leading_colon && self.segments.len() == 1 && !self.segments[0].has_arguments {
            Some(&self.segments[0].ident)
        } else {
            None
        }
    }
}

/// A type as written in a signature.
pub enum TypeSyntax {
    /// A path type (`ExternRef`, `crate::ExternRef`, `Vec<u8>`).
    Path(SynPath),
    /// Any other form of type: references, tuples, arrays, ...
    Other,
}

/// A literal in an attribute argument.
pub enum Lit {
    /// A string literal, holding its value without quotes or escapes.
    Str(String),
    /// Any other kind of literal.
    Other,
}

/// A `key = literal` pair of an attribute argument list.
pub struct MetaNameValue {
    pub path: SynPath,
    pub lit: Lit,
}

/// One item of an attribute argument list.
pub enum NestedMeta {
    NameValue(MetaNameValue),
    /// A bare path, a nested list or a bare literal.
    Other,
}

/// An outer attribute such as `#[externref(name = "log")]`.
pub struct Attribute {
    pub path: SynPath,
    /// The attribute's arguments read as a comma separated list of metas, or
    /// `None` where its tokens do not form such a list.
    pub args: Option<Vec<NestedMeta>>,
}

/// One parameter of a function signature.
pub enum FnArg {
    /// `self`, `&self` or `&mut self`.
    Receiver,
    /// A typed parameter `pattern: Type`.
    Typed(TypeSyntax),
}

/// A function signature: its identifier, parameters and return type.
pub struct Signature {
    pub ident: String,
    pub inputs: Vec<FnArg>,
    /// The declared return type; `None` where the function declares none.
    pub output: Option<TypeSyntax>,
}

/// A function declared inside an `extern` block, with its own attributes.
pub struct ForeignFn {
    pub attrs: Vec<Attribute>,
    pub sig: Signature,
}

/// One item of an `extern` block.
pub enum ForeignItem {
    Fn(ForeignFn),
    /// A foreign static, type or macro invocation.
    Other,
}

} // verus!
