//! The error type of plan computation and config-pack rendering.

use vstd::prelude::*;

use crate::text::{join_seqs, views};

verus! {

/// Why a render plan or a config pack could not be produced.
#[derive(Debug, Clone, PartialEq, Eq)]
pub enum YaziConfigPackError {
    /// The requested `yazi.sort_by` is not one of the allowed values.
    InvalidSortBy { sort_by: String, allowed: Vec<String> },
    /// A bundled TOML asset did not parse.
    InvalidEmbeddedToml { asset: &'static str, message: String },
    /// A generated TOML document could not be serialized.
    SerializeToml { message: String },
}

/// The text that `{:?}` gives for a string: the string quoted, with its special
/// characters escaped.
pub uninterp spec fn debug_quoted(s: Seq<char>) -> Seq<char>;

/// `{:?}` of a string (`<str as Debug>::fmt`).
#[verifier::external_body]
fn debug_quote(s: &str) -> (r: String)
    ensures
        r@ == debug_quoted(s@),
{
    format!("{s:?}")
}

/// `{:?}` of a list of strings: each element quoted, separated by `", "`, in brackets.
pub open spec fn debug_list(items: Seq<Seq<char>>) -> Seq<char> {
    "["@ + join_seqs(items.map_values(|s: Seq<char>| debug_quoted(s)), ", "@) + "]"@
}

/// The human-readable message of an error.
pub open spec fn error_message(e: YaziConfigPackError) -> Seq<char> {
    match e {
        YaziConfigPackError::InvalidSortBy { sort_by, allowed } => "yazi.sort_by must be one of "@
            + debug_list(views(allowed@)) + " (got "@ + debug_quoted(sort_by@) + ")"@,
        YaziConfigPackError::InvalidEmbeddedToml { asset, message } => "could not parse embedded "@
            + asset@ + ": "@ + message@,
        YaziConfigPackError::SerializeToml { message } => "could not serialize generated Yazi TOML: "@
            + message@,
    }
}

impl YaziConfigPackError {
    /// The human-readable message of this error.
    pub fn message(&self) -> (r: String)
        ensures
            r@ == error_message(*self),
    {
        match self {
            YaziConfigPackError::InvalidSortBy { sort_by, allowed } => {
                let mut r = String::from_str("yazi.sort_by must be one of ");
                r.append("[");
                let mut i: usize = 0;
                let ghost quoted = views(allowed@).map_values(|s: Seq<char>| debug_quoted(s));
                while i < allowed.len()
                    invariant
                        i <= allowed.len(),
                        quoted == views(allowed@).map_values(|s: Seq<char>| debug_quoted(s)),
                        r@ == "yazi.sort_by must be one of "@ + "["@ + join_seqs(
                            quoted.take(i as int),
                            ", "@,
                        ),
                    decreases allowed.len() - i,
                {
                    if i > 0 {
                        r.append(", ");
                    }
                    let q = debug_quote(allowed[i].as_str());
                    r.append(q.as_str());
                    i = i + 1;
                    assert(quoted.take(i as int).drop_last() =~= quoted.take(i - 1));
                    if i == 1 {
                        assert(quoted.take(0) =~= Seq::<Seq<char>>::empty());
                    }
                    assert(r@ =~= "yazi.sort_by must be one of "@ + "["@ + join_seqs(
                        quoted.take(i as int),
                        ", "@,
                    ));
                }
                assert(quoted.take(allowed.len() as int) =~= quoted);
                r.append("]");
                r.append(" (got ");
                let q = debug_quote(sort_by.as_str());
                r.append(q.as_str());
                r.append(")");
                assert(r@ =~= error_message(*self));
                r
            },
            YaziConfigPackError::InvalidEmbeddedToml { asset, message } => {
                let mut r = String::from_str("could not parse embedded ");
                r.append(asset);
                r.append(": ");
                r.append(message.as_str());
                assert(r@ =~= error_message(*self));
                r
            },
            YaziConfigPackError::SerializeToml { message } => {
                let mut r = String::from_str("could not serialize generated Yazi TOML: ");
                r.append(message.as_str());
                assert(r@ =~= error_message(*self));
                r
            },
        }
    }
}

} // verus!
