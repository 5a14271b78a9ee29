//! Metadata for functions that pass host-managed `externref` values.
//!
//! The library inspects function signatures, resolves the `externref`
//! options attached to them, and produces the named data blocks that a
//! post-compilation rewriter reads to change the functions' calling
//! convention.
pub mod driver;
pub mod func;
pub mod options;
pub mod section;
pub mod syntax;

pub use driver::{process_fn, process_foreign_fn, process_foreign_mod, ForeignFnData, ForeignModData};
pub use func::{type_is_extern_ref, AttributesOrOptions, FunctionData};
pub use options::{ExternRefError, ExternRefOptions};
pub use section::{find_duplicate_identifier, DataSection};
pub use syntax::{
    Attribute, FnArg, ForeignFn, ForeignItem, Lit, MetaNameValue, NestedMeta, PathSegment,
    Signature, SynPath, TypeSyntax,
};

use vstd::prelude::*;

verus! {

/// A Rust stand-in for a Wasm `externref`.
///
/// At compile time the value is a plain machine word; a rewriter of the
/// compiled module later turns it into a real reference type. Until then the
/// zero word plays the part of the null reference.
#[derive(Debug, Copy, Clone)]
pub struct ExternRef {
    inner: usize,
}

impl ExternRef {
    /// The raw word carried by this reference.
    pub closed spec fn raw(self) -> usize {
        self.inner
    }

    /// Creates a new [ExternRef] with the value of `null`.
    pub fn null() -> (r: Self)
        ensures
            r.raw() == 0,
    {
        ExternRef { inner: 0 }
    }

    /// Checks if this ref is null.
    pub fn is_null(&self) -> (r: bool)
        ensures
            r == (self.raw() == 0),
    {
        self.inner == 0
    }

    /// Converts a [usize] into a [ExternRef].
    ///
    /// The word should come from the host: any other value does not name a
    /// live reference once the module is rewritten.
    pub fn from_usize(raw_ref: usize) -> (r: Self)
        ensures
            r.raw() == raw_ref,
    {
        ExternRef { inner: raw_ref }
    }
}

impl From<ExternRef> for usize {
    fn from(val: ExternRef) -> (r: usize)
        ensures
            r == val.raw(),
    {
        val.inner
    }
}

impl vstd::std_specs::convert::FromSpecImpl<ExternRef> for usize {
    open spec fn obeys_from_spec() -> bool {
        true
    }

    open spec fn from_spec(v: ExternRef) -> usize {
        v.raw()
    }
}

} // verus!
