//! The options of the `externref` attribute, and the errors of this library.
use vstd::prelude::*;

use crate::syntax::{path_ident, Lit, NestedMeta};

verus! {

/// Why a declaration site could not be processed.
#[derive(Debug)]
pub enum ExternRefError {
    /// An option that is not a `key = value` pair.
    NotNameValue,
    /// An option key that is not a single bare identifier.
    InvalidIdentifier,
    /// An option value that is not a string literal.
    NotStringLiteral,
    /// An option key other than `name`; holds the key.
    InvalidOption(String),
    /// An `externref` attribute whose arguments are not a list of metas.
    MalformedAttribute,
    /// An `extern` block without the `name` of its module.
    MissingModuleName,
    /// The JSON encoder reported an error; it never does on a name.
    Serialization,
}

/// [ExternRefError] with its key as a sequence of characters.
pub enum ErrorModel {
    NotNameValue,
    InvalidIdentifier,
    NotStringLiteral,
    InvalidOption(Seq<char>),
    MalformedAttribute,
    MissingModuleName,
    Serialization,
}

impl View for ExternRefError {
    type V = ErrorModel;

    open spec fn view(&self) -> ErrorModel {
        match self {
            ExternRefError::NotNameValue => ErrorModel::NotNameValue,
            ExternRefError::InvalidIdentifier => ErrorModel::InvalidIdentifier,
            ExternRefError::NotStringLiteral => ErrorModel::NotStringLiteral,
            ExternRefError::InvalidOption(k) => ErrorModel::InvalidOption(k@),
            ExternRefError::MalformedAttribute => ErrorModel::MalformedAttribute,
            ExternRefError::MissingModuleName => ErrorModel::MissingModuleName,
            ExternRefError::Serialization => ErrorModel::Serialization,
        }
    }
}

/// The one recognised option key.
pub open spec fn name_key() -> Seq<char> {
    seq!['n', 'a', 'm', 'e']
}

/// Options of the `externref` attribute.
#[derive(Debug)]
pub struct ExternRefOptions {
    /// Overrides the name of a function, or names the module of an `extern`
    /// block.
    pub name: Option<String>,
}

impl View for ExternRefOptions {
    type V = Option<Seq<char>>;

    open spec fn view(&self) -> Option<Seq<char>> {
        match self.name {
            Some(n) => Some(n@),
            None => None,
        }
    }
}

impl Default for ExternRefOptions {
    fn default() -> (r: Self)
        ensures
            r@ is None,
    {
        ExternRefOptions { name: None }
    }
}

/// The value that one option sets for `name`, or the error it raises.
pub open spec fn option_value(m: NestedMeta) -> Result<Seq<char>, ErrorModel> {
    match m {
        NestedMeta::NameValue(pair) => match path_ident(pair.path) {
            None => Err(ErrorModel::InvalidIdentifier),
            Some(key) => match pair.lit {
                Lit::Str(v) => if key == name_key() {
                    Ok(v@)
                } else {
                    Err(ErrorModel::InvalidOption(key))
                },
                Lit::Other => Err(ErrorModel::NotStringLiteral),
            },
        },
        NestedMeta::Other => Err(ErrorModel::NotNameValue),
    }
}

/// The options that a list of metas sets: the first error in list order, or
/// else the value of the last `name` (`None` where there is none).
pub open spec fn options_of(metas: Seq<NestedMeta>) -> Result<Option<Seq<char>>, ErrorModel>
    decreases metas.len(),
{
    if metas.len() == 0 {
        Ok(None)
    } else {
        match options_of(metas.drop_last()) {
            Err(e) => Err(e),
            Ok(_) => match option_value(metas.last()) {
                Err(e) => Err(e),
                Ok(v) => Ok(Some(v)),
            },
        }
    }
}

/// Relates an outcome of option parsing to its model.
pub open spec fn options_result_matches(
    r: Result<ExternRefOptions, ExternRefError>,
    model: Result<Option<Seq<char>>, ErrorModel>,
) -> bool {
    match r {
        Ok(o) => model == Ok::<Option<Seq<char>>, ErrorModel>(o@),
        Err(e) => model == Err::<Option<Seq<char>>, ErrorModel>(e@),
    }
}

/// An error in the first `n` metas is the error of the whole list.
proof fn lemma_options_error_persists(metas: Seq<NestedMeta>, n: int)
    requires
        0 <= n <= metas.len(),
        options_of(metas.subrange(0, n)) is Err,
    ensures
        options_of(metas) == options_of(metas.subrange(0, n)),
    decreases metas.len(),
{
    if n < metas.len() {
        let shorter = metas.drop_last();
        assert(shorter.subrange(0, n) == metas.subrange(0, n));
        lemma_options_error_persists(shorter, n);
    } else {
        assert(metas.subrange(0, n) == metas);
    }
}

fn copy_string(s: &String) -> (r: String)
    ensures
        r@ == s@,
{
    s.clone()
}

impl ExternRefOptions {
    /// Parses options for the `externref` attribute from the metas in its
    /// argument list.
    pub fn parse(metas: &Vec<NestedMeta>) -> (r: Result<Self, ExternRefError>)
        ensures
            options_result_matches(r, options_of(metas@)),
    {
        let mut options = ExternRefOptions { name: None };
        let key = String::from_str("name");
        proof {
            reveal_strlit("name");
        }
        let mut i: usize = 0;
        while i < metas.len()
            invariant
                i <= metas@.len(),
                key@ == name_key(),
                options_of(metas@.subrange(0, i as int)) == Ok::<Option<Seq<char>>, ErrorModel>(
                    options@,
                ),
            decreases metas@.len() - i,
        {
            assert(metas@.subrange(0, i + 1).drop_last() == metas@.subrange(0, i as int));
            let pair = match &metas[i] {
                NestedMeta::NameValue(pair) => pair,
                NestedMeta::Other => {
                    proof {
                        lemma_options_error_persists(metas@, i + 1);
                    }
                    return Err(ExternRefError::NotNameValue);
                },
            };
            let name = match pair.path.get_ident() {
                Some(id) => id,
                None => {
                    proof {
                        lemma_options_error_persists(metas@, i + 1);
                    }
                    return Err(ExternRefError::InvalidIdentifier);
                },
            };
            let value = match &pair.lit {
                Lit::Str(v) => copy_string(v),
                Lit::Other => {
                    proof {
                        lemma_options_error_persists(metas@, i + 1);
                    }
                    return Err(ExternRefError::NotStringLiteral);
                },
            };
            if *name == key {
                options.name = Some(value);
            } else {
                proof {
                    lemma_options_error_persists(metas@, i + 1);
                }
                return Err(ExternRefError::InvalidOption(copy_string(name)));
            }
            i = i + 1;
        }
        assert(metas@.subrange(0, i as int) == metas@);
        Ok(options)
    }
}

} // verus!
