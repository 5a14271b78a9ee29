//! The metadata of a function: its resolved name and which of its parameters
//! and its return value are `ExternRef`s.
use vstd::prelude::*;

use crate::options::{options_of, options_result_matches, ErrorModel, ExternRefError, ExternRefOptions};
use crate::syntax::{path_ident, Attribute, FnArg, Signature, TypeSyntax};

verus! {

/// The identifier of the marker type, `ExternRef`.
pub open spec fn marker_ident() -> Seq<char> {
    seq!['E', 'x', 't', 'e', 'r', 'n', 'R', 'e', 'f']
}

/// The identifier of the attribute that carries options, `externref`.
pub open spec fn attribute_ident() -> Seq<char> {
    seq!['e', 'x', 't', 'e', 'r', 'n', 'r', 'e', 'f']
}

/// Whether a type is written as the bare identifier `ExternRef`. Qualified
/// paths, aliases and generic wrappers are not recognised.
pub open spec fn type_is_marker(ty: TypeSyntax) -> bool {
    match ty {
        TypeSyntax::Path(p) => path_ident(p) == Some(marker_ident()),
        TypeSyntax::Other => false,
    }
}

/// Whether a parameter is a typed parameter whose type is the marker.
pub open spec fn arg_is_marker(arg: FnArg) -> bool {
    match arg {
        FnArg::Typed(ty) => type_is_marker(ty),
        FnArg::Receiver => false,
    }
}

/// The positions of the marker parameters, in declaration order.
pub open spec fn marked_positions(inputs: Seq<FnArg>) -> Seq<usize>
    decreases inputs.len(),
{
    if inputs.len() == 0 {
        Seq::empty()
    } else {
        let before = marked_positions(inputs.drop_last());
        if arg_is_marker(inputs.last()) {
            before.push((inputs.len() - 1) as usize)
        } else {
            before
        }
    }
}

/// Whether a declared return type is the marker; `false` where none is
/// declared.
pub open spec fn returns_marker(output: Option<TypeSyntax>) -> bool {
    match output {
        Some(ty) => type_is_marker(ty),
        None => false,
    }
}

/// The metadata of a function, as values.
pub struct FunctionMetadata {
    pub name: Seq<char>,
    pub arg_indicies: Seq<usize>,
    pub ret_is_extern_ref: bool,
}

/// The metadata of a signature under a resolved `name` option.
pub open spec fn metadata_of(sig: Signature, name: Option<Seq<char>>) -> FunctionMetadata {
    FunctionMetadata {
        name: match name {
            Some(n) => n,
            None => sig.ident@,
        },
        arg_indicies: marked_positions(sig.inputs@),
        ret_is_extern_ref: returns_marker(sig.output),
    }
}

/// The marker positions increase strictly, each names a marker parameter, and
/// every marker parameter is listed.
pub proof fn lemma_marked_positions_exact(inputs: Seq<FnArg>)
    requires
        inputs.len() <= usize::MAX,
    ensures
        forall|a: int, b: int|
            0 <= a < b < marked_positions(inputs).len() ==> marked_positions(inputs)[a]
                < marked_positions(inputs)[b],
        forall|k: int|
            0 <= k < marked_positions(inputs).len() ==> marked_positions(inputs)[k] < inputs.len()
                && arg_is_marker(inputs[marked_positions(inputs)[k] as int]),
        forall|i: int|
            0 <= i < inputs.len() && arg_is_marker(inputs[i]) ==> marked_positions(
                inputs,
            ).contains(i as usize),
    decreases inputs.len(),
{
    if inputs.len() > 0 {
        let before = inputs.drop_last();
        lemma_marked_positions_exact(before);
        let pos = marked_positions(inputs);
        assert forall|i: int| 0 <= i < inputs.len() && arg_is_marker(inputs[i]) implies pos.contains(
            i as usize,
        ) by {
            if i < inputs.len() - 1 {
                assert(before[i] == inputs[i]);
                let k = choose|k: int| 0 <= k < marked_positions(before).len() && marked_positions(before)[k] == i as usize;
                assert(pos[k] == i as usize);
            } else {
                assert(pos[pos.len() - 1] == i as usize);
            }
        }
        assert forall|k: int| 0 <= k < pos.len() implies pos[k] < inputs.len() && arg_is_marker(
            inputs[pos[k] as int],
        ) by {
            if k < marked_positions(before).len() {
                assert(before[pos[k] as int] == inputs[pos[k] as int]);
            }
        }
    }
}

/// A function none of whose parameters is an `ExternRef`, and which returns
/// none, has no marked positions and no marked return, whatever its name.
pub proof fn lemma_unmarked_signature(sig: Signature, name: Option<Seq<char>>)
    requires
        forall|i: int| 0 <= i < sig.inputs@.len() ==> !arg_is_marker(#[trigger] sig.inputs@[i]),
        !returns_marker(sig.output),
    ensures
        metadata_of(sig, name).arg_indicies.len() == 0,
        !metadata_of(sig, name).ret_is_extern_ref,
{
    lemma_no_markers_no_positions(sig.inputs@);
}

proof fn lemma_no_markers_no_positions(inputs: Seq<FnArg>)
    requires
        forall|i: int| 0 <= i < inputs.len() ==> !arg_is_marker(#[trigger] inputs[i]),
    ensures
        marked_positions(inputs).len() == 0,
    decreases inputs.len(),
{
    if inputs.len() > 0 {
        let before = inputs.drop_last();
        assert forall|i: int| 0 <= i < before.len() implies !arg_is_marker(#[trigger] before[i]) by {
            assert(before[i] == inputs[i]);
        }
        lemma_no_markers_no_positions(before);
    }
}

/// A function taking two `ExternRef`s and returning one has the marked
/// positions `[0, 1]` and a marked return, whatever its name.
pub proof fn lemma_two_marked_args_and_return(sig: Signature, name: Option<Seq<char>>)
    requires
        sig.inputs@.len() == 2,
        arg_is_marker(sig.inputs@[0]),
        arg_is_marker(sig.inputs@[1]),
        returns_marker(sig.output),
    ensures
        metadata_of(sig, name).arg_indicies == seq![0usize, 1usize],
        metadata_of(sig, name).ret_is_extern_ref,
{
    let inputs = sig.inputs@;
    assert(inputs.drop_last().drop_last().len() == 0);
    assert(marked_positions(inputs.drop_last().drop_last()) == Seq::<usize>::empty());
    assert(inputs.drop_last().last() == inputs[0]);
    assert(marked_positions(inputs.drop_last()) == Seq::<usize>::empty().push(0usize));
    assert(Seq::<usize>::empty().push(0usize) == seq![0usize]);
    assert(marked_positions(inputs) == seq![0usize, 1usize]);
}

/// Whether an attribute is an `externref` attribute.
pub open spec fn is_options_attribute(attr: Attribute) -> bool {
    path_ident(attr.path) == Some(attribute_ident())
}

/// The options that a list of attributes gives: those of the first
/// `externref` attribute, or no options where there is none.
pub open spec fn attributes_options(attrs: Seq<Attribute>) -> Result<Option<Seq<char>>, ErrorModel>
    decreases attrs.len(),
{
    if attrs.len() == 0 {
        Ok(None)
    } else if is_options_attribute(attrs[0]) {
        match attrs[0].args {
            Some(metas) => options_of(metas@),
            None => Err(ErrorModel::MalformedAttribute),
        }
    } else {
        attributes_options(attrs.drop_first())
    }
}

/// Options given directly, or the attributes of a function to read them from.
pub enum AttributesOrOptions<'a> {
    Options(ExternRefOptions),
    Attributes(&'a [Attribute]),
}

/// The options that an [AttributesOrOptions] resolves to.
pub open spec fn resolved_options(src: AttributesOrOptions) -> Result<Option<Seq<char>>, ErrorModel> {
    match src {
        AttributesOrOptions::Options(o) => Ok(o@),
        AttributesOrOptions::Attributes(attrs) => attributes_options(attrs@),
    }
}

impl<'a> From<ExternRefOptions> for AttributesOrOptions<'a> {
    fn from(value: ExternRefOptions) -> (r: Self)
        ensures
            r == AttributesOrOptions::Options(value),
    {
        AttributesOrOptions::Options(value)
    }
}

impl<'a> vstd::std_specs::convert::FromSpecImpl<ExternRefOptions> for AttributesOrOptions<'a> {
    open spec fn obeys_from_spec() -> bool {
        true
    }

    open spec fn from_spec(v: ExternRefOptions) -> Self {
        AttributesOrOptions::Options(v)
    }
}

impl<'a> From<&'a [Attribute]> for AttributesOrOptions<'a> {
    fn from(value: &'a [Attribute]) -> (r: Self)
        ensures
            r == AttributesOrOptions::Attributes(value),
    {
        AttributesOrOptions::Attributes(value)
    }
}

impl<'a> vstd::std_specs::convert::FromSpecImpl<&'a [Attribute]> for AttributesOrOptions<'a> {
    open spec fn obeys_from_spec() -> bool {
        true
    }

    open spec fn from_spec(v: &'a [Attribute]) -> Self {
        AttributesOrOptions::Attributes(v)
    }
}

impl<'a> AttributesOrOptions<'a> {
    /// Resolves the options: given ones as they are; else those of the first
    /// `externref` attribute, or the default options where there is none.
    pub fn into_options(self) -> (r: Result<ExternRefOptions, ExternRefError>)
        ensures
            options_result_matches(r, resolved_options(self)),
    {
        let attrs = match self {
            AttributesOrOptions::Options(opts) => {
                return Ok(opts);
            },
            AttributesOrOptions::Attributes(attrs) => attrs,
        };
        let wanted = String::from_str("externref");
        proof {
            reveal_strlit("externref");
        }
        assert(attrs@.subrange(0, attrs@.len() as int) == attrs@);
        let mut i: usize = 0;
        while i < attrs.len()
            invariant
                i <= attrs@.len(),
                wanted@ == attribute_ident(),
                resolved_options(self) == attributes_options(attrs@),
                attributes_options(attrs@) == attributes_options(
                    attrs@.subrange(i as int, attrs@.len() as int),
                ),
            decreases attrs@.len() - i,
        {
            let ghost rest = attrs@.subrange(i as int, attrs@.len() as int);
            assert(rest[0] == attrs@[i as int]);
            assert(rest.drop_first() == attrs@.subrange(i + 1, attrs@.len() as int));
            let attr = &attrs[i];
            if let Some(ident) = attr.path.get_ident() {
                if *ident == wanted {
                    assert(is_options_attribute(rest[0]));
                    match &attr.args {
                        Some(metas) => {
                            let parsed = ExternRefOptions::parse(metas);
                            assert(attributes_options(attrs@) == options_of(metas@));
                            return parsed;
                        },
                        None => {
                            return Err(ExternRefError::MalformedAttribute);
                        },
                    }
                }
            }
            i = i + 1;
        }
        Ok(ExternRefOptions { name: None })
    }
}

/// Whether a type is written as the bare identifier `ExternRef`.
pub fn type_is_extern_ref(ty: &TypeSyntax) -> (r: bool)
    ensures
        r == type_is_marker(*ty),
{
    match ty {
        TypeSyntax::Path(p) => match p.get_ident() {
            Some(ident) => {
                let marker = String::from_str("ExternRef");
                proof {
                    reveal_strlit("ExternRef");
                }
                assert(marker@ == marker_ident());
                *ident == marker
            },
            None => false,
        },
        TypeSyntax::Other => false,
    }
}

/// The data a rewriter needs to transform one function.
#[derive(Debug)]
pub struct FunctionData {
    /// The name of the function as it appears in the transformed Wasm binary.
    pub name: String,
    /// The indicies of arguments that should have the type `externref`.
    pub arg_indicies: Vec<usize>,
    /// If the return type is an `externref`.
    pub ret_is_extern_ref: bool,
}

impl View for FunctionData {
    type V = FunctionMetadata;

    open spec fn view(&self) -> FunctionMetadata {
        FunctionMetadata {
            name: self.name@,
            arg_indicies: self.arg_indicies@,
            ret_is_extern_ref: self.ret_is_extern_ref,
        }
    }
}

impl FunctionData {
    /// Parses the data needed for a function's transformation from its
    /// signature and options.
    pub fn parse(sig: &Signature, attrs_or_opts: AttributesOrOptions) -> (r: Result<
        Self,
        ExternRefError,
    >)
        ensures
            match r {
                Ok(data) => resolved_options(attrs_or_opts) is Ok && data@ == metadata_of(
                    *sig,
                    resolved_options(attrs_or_opts)->Ok_0,
                ),
                Err(e) => resolved_options(attrs_or_opts) == Err::<Option<Seq<char>>, ErrorModel>(
                    e@,
                ),
            },
            r is Ok ==> forall|a: int, b: int|
                0 <= a < b < r->Ok_0.arg_indicies@.len() ==> r->Ok_0.arg_indicies@[a]
                    < r->Ok_0.arg_indicies@[b],
    {
        let opts = match attrs_or_opts.into_options() {
            Ok(opts) => opts,
            Err(e) => {
                return Err(e);
            },
        };
        let name = match opts.name {
            Some(n) => n,
            None => sig.ident.clone(),
        };
        let mut arg_indicies: Vec<usize> = Vec::new();
        let mut i: usize = 0;
        while i < sig.inputs.len()
            invariant
                i <= sig.inputs@.len(),
                arg_indicies@ == marked_positions(sig.inputs@.subrange(0, i as int)),
            decreases sig.inputs@.len() - i,
        {
            let ghost next = sig.inputs@.subrange(0, i + 1);
            assert(next.drop_last() == sig.inputs@.subrange(0, i as int));
            assert(next.last() == sig.inputs@[i as int]);
            let marked = match &sig.inputs[i] {
                FnArg::Typed(ty) => type_is_extern_ref(ty),
                FnArg::Receiver => false,
            };
            if marked {
                arg_indicies.push(i);
            }
            i = i + 1;
        }
        assert(sig.inputs@.subrange(0, i as int) == sig.inputs@);
        proof {
            lemma_marked_positions_exact(sig.inputs@);
        }
        let ret_is_extern_ref = match &sig.output {
            Some(ty) => type_is_extern_ref(ty),
            None => false,
        };
        Ok(FunctionData { name, arg_indicies, ret_is_extern_ref })
    }
}

} // verus!
