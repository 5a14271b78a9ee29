//! Processing of declaration sites: a single function, or an `extern` block
//! whose functions are imported from one module.
use vstd::prelude::*;

use crate::func::{attributes_options, metadata_of, AttributesOrOptions, FunctionData, FunctionMetadata};
use crate::options::{ErrorModel, ExternRefError, ExternRefOptions};
use crate::section::{block_of, json_string_of, needs_no_escape, quoted, DataSection};
use crate::syntax::{ForeignFn, ForeignItem, Signature};

verus! {

/// Builds the data block of a function declared with the given options. The
/// block is not placed in any module.
pub fn process_fn(sig: &Signature, opts: ExternRefOptions) -> (r: Result<DataSection, ExternRefError>)
    ensures
        r is Ok,
        r is Ok ==> r->Ok_0@ == block_of(
            metadata_of(*sig, opts@),
            None,
            json_string_of(metadata_of(*sig, opts@).name),
        ),
        r is Ok && needs_no_escape(metadata_of(*sig, opts@).name) ==> r->Ok_0@ == block_of(
            metadata_of(*sig, opts@),
            None,
            quoted(metadata_of(*sig, opts@).name),
        ),
{
    let data = match FunctionData::parse(sig, AttributesOrOptions::Options(opts)) {
        Ok(data) => data,
        Err(e) => {
            return Err(e);
        },
    };
    data.to_data_section(None)
}

/// Parses the data of a function of an `extern` block from its own
/// attributes. Its resolved name becomes its link name.
pub fn process_foreign_fn(func: &ForeignFn) -> (r: Result<FunctionData, ExternRefError>)
    ensures
        match r {
            Ok(data) => attributes_options(func.attrs@) is Ok && data@ == metadata_of(
                func.sig,
                attributes_options(func.attrs@)->Ok_0,
            ),
            Err(e) => attributes_options(func.attrs@) == Err::<Option<Seq<char>>, ErrorModel>(e@),
        },
{
    FunctionData::parse(&func.sig, AttributesOrOptions::Attributes(func.attrs.as_slice()))
}

/// The metadata of the functions among `items`, in order, each under the
/// options of its own attributes; or the error of the first function whose
/// attributes do not resolve.
pub open spec fn members_outcome(items: Seq<ForeignItem>) -> Result<Seq<FunctionMetadata>, ErrorModel>
    decreases items.len(),
{
    if items.len() == 0 {
        Ok(Seq::empty())
    } else {
        match members_outcome(items.drop_last()) {
            Err(e) => Err(e),
            Ok(before) => match items.last() {
                ForeignItem::Fn(f) => match attributes_options(f.attrs@) {
                    Err(e) => Err(e),
                    Ok(name) => Ok(before.push(metadata_of(f.sig, name))),
                },
                ForeignItem::Other => Ok(before),
            },
        }
    }
}

proof fn lemma_members_error_persists(items: Seq<ForeignItem>, n: int)
    requires
        0 <= n <= items.len(),
        members_outcome(items.subrange(0, n)) is Err,
    ensures
        members_outcome(items) == members_outcome(items.subrange(0, n)),
    decreases items.len(),
{
    if n < items.len() {
        let shorter = items.drop_last();
        assert(shorter.subrange(0, n) == items.subrange(0, n));
        lemma_members_error_persists(shorter, n);
    } else {
        assert(items.subrange(0, n) == items);
    }
}

/// One function of an `extern` block: its metadata, whose name becomes its
/// link name, and its data block.
#[derive(Debug)]
pub struct ForeignFnData {
    pub data: FunctionData,
    pub section: DataSection,
}

/// What an `extern` block yields: its module name and, for each of its
/// functions in order, the metadata and the data block.
#[derive(Debug)]
pub struct ForeignModData {
    pub module: String,
    pub functions: Vec<ForeignFnData>,
}

/// Processes an `extern` block whose module is named by `opts`. Each function
/// takes its options from its own attributes, and its data block is placed in
/// the module.
pub fn process_foreign_mod(opts: ExternRefOptions, items: &Vec<ForeignItem>) -> (r: Result<
    ForeignModData,
    ExternRefError,
>)
    ensures
        opts@ is None ==> r is Err && r->Err_0@ == ErrorModel::MissingModuleName,
        opts@ is Some && members_outcome(items@) is Err ==> r is Err && r->Err_0@ == members_outcome(
            items@,
        )->Err_0,
        opts@ is Some && members_outcome(items@) is Ok ==> r is Ok,
        r is Ok ==> ({
            let module = opts@->Some_0;
            let ms = members_outcome(items@)->Ok_0;
            &&& opts@ is Some
            &&& members_outcome(items@) is Ok
            &&& r->Ok_0.module@ == module
            &&& r->Ok_0.functions@.len() == ms.len()
            &&& forall|k: int|
                0 <= k < ms.len() ==> {
                    let f = #[trigger] r->Ok_0.functions@[k];
                    &&& f.data@ == ms[k]
                    &&& f.section@ == block_of(ms[k], Some(module), json_string_of(ms[k].name))
                    &&& needs_no_escape(ms[k].name) ==> f.section@ == block_of(
                        ms[k],
                        Some(module),
                        quoted(ms[k].name),
                    )
                }
        }),
{
    let ghost given = opts@;
    let module = match opts.name {
        Some(name) => name,
        None => {
            return Err(ExternRefError::MissingModuleName);
        },
    };
    let mut datas: Vec<FunctionData> = Vec::new();
    let mut i: usize = 0;
    while i < items.len()
        invariant
            given == opts@,
            given == Some(module@),
            i <= items@.len(),
            members_outcome(items@.subrange(0, i as int)) is Ok,
            datas@.len() == members_outcome(items@.subrange(0, i as int))->Ok_0.len(),
            forall|k: int|
                0 <= k < datas@.len() ==> (#[trigger] datas@[k])@ == members_outcome(
                    items@.subrange(0, i as int),
                )->Ok_0[k],
        decreases items@.len() - i,
    {
        let ghost next = items@.subrange(0, i + 1);
        assert(next.drop_last() == items@.subrange(0, i as int));
        assert(next.last() == items@[i as int]);
        match &items[i] {
            ForeignItem::Fn(f) => {
                match process_foreign_fn(f) {
                    Ok(data) => {
                        datas.push(data);
                    },
                    Err(e) => {
                        proof {
                            lemma_members_error_persists(items@, i + 1);
                        }
                        return Err(e);
                    },
                }
            },
            ForeignItem::Other => {},
        }
        i = i + 1;
    }
    assert(items@.subrange(0, i as int) == items@);
    let ghost ms = members_outcome(items@)->Ok_0;
    let mut functions: Vec<ForeignFnData> = Vec::new();
    while datas.len() > 0
        invariant
            given == opts@,
            given == Some(module@),
            members_outcome(items@) is Ok,
            ms == members_outcome(items@)->Ok_0,
            datas@.len() + functions@.len() == ms.len(),
            forall|k: int|
                0 <= k < datas@.len() ==> (#[trigger] datas@[k])@ == ms[functions@.len() + k],
            forall|k: int|
                0 <= k < functions@.len() ==> {
                    let f = #[trigger] functions@[k];
                    &&& f.data@ == ms[k]
                    &&& f.section@ == block_of(ms[k], Some(module@), json_string_of(ms[k].name))
                    &&& needs_no_escape(ms[k].name) ==> f.section@ == block_of(
                        ms[k],
                        Some(module@),
                        quoted(ms[k].name),
                    )
                },
        decreases datas@.len(),
    {
        let data = datas.remove(0);
        let section = match data.to_data_section(Some(module.as_str())) {
            Ok(section) => section,
            Err(e) => {
                return Err(e);
            },
        };
        functions.push(ForeignFnData { data, section });
    }
    Ok(ForeignModData { module, functions })
}

} // verus!
