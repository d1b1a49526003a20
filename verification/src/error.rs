//! The execution error taxonomy: validation failures, collection failures,
//! and aggregated per-field resolver failures.
use vstd::prelude::*;
use vstd::string::StringExecFns;

verus! {

/// Everything that can go wrong while building a schema view or executing an
/// operation against it.
#[derive(Debug)]
pub enum Error {
    /// The schema text failed validation (raised by the embedding, not here).
    SchemaValidation(Vec<String>),
    /// The executable document failed validation (raised by the embedding).
    QueryValidation(Vec<String>),
    /// No operation with the requested name (or no anonymous operation).
    OperationNotFound(Option<String>),
    /// A fragment spread names a fragment the document does not define.
    FragmentNotFound(String),
    /// A type condition or field type names a type the schema does not define.
    TypeNotFound(String),
    /// A fragment's type condition is not an object, interface or union type.
    InvalidFragmentTypeCondition(String),
    /// A `@skip` / `@include` argument was missing or not a boolean.
    DirectiveArgumentInvalid(String, String),
    /// A resolver produced a shape inconsistent with the declared field type.
    TypeMismatch,
    /// An interface- or union-typed field could not be resolved to a known
    /// concrete object type.
    AbstractTypeUnresolved(String),
    /// A user resolver failed; carries its message verbatim.
    FieldResolverError(String),
    /// Per-key failures aggregated over one selection set.
    FieldErrors(Vec<(String, Error)>),
    /// An argument read through `Ctx` was absent or of the wrong shape.
    ArgumentInvalid(String),
    /// The recursion budget ran out; only documents whose fragments spread
    /// into themselves can reach this.
    RecursionLimit,
}

impl Error {
    /// A human-readable account of the error, in place of `Display`; for
    /// aggregated field errors, each key with its own error's account.
    pub fn message(&self) -> String
        decreases *self,
    {
        match self {
            Error::SchemaValidation(_) => "schema had validation errors".to_owned(),
            Error::QueryValidation(_) => "query had validation errors".to_owned(),
            Error::OperationNotFound(name) => match name {
                Some(n) => "operation not found: ".to_owned().concat(n.as_str()),
                None => "operation not found".to_owned(),
            },
            Error::FragmentNotFound(n) => "fragment definition not found: ".to_owned().concat(
                n.as_str(),
            ),
            Error::TypeNotFound(n) => "type definition not found: ".to_owned().concat(n.as_str()),
            Error::InvalidFragmentTypeCondition(n) => {
                "invalid type in fragment type condition: ".to_owned().concat(n.as_str())
            },
            Error::DirectiveArgumentInvalid(d, a) => "invalid directive argument: @".to_owned()
                .concat(d.as_str()).concat(" (").concat(a.as_str()).concat(")"),
            Error::TypeMismatch => "type mismatch: resolver output does not fit the declared type"
                .to_owned(),
            Error::AbstractTypeUnresolved(n) => {
                "resolver did not return a concrete type for ".to_owned().concat(n.as_str())
            },
            Error::FieldResolverError(m) => "field resolver error: ".to_owned().concat(m.as_str()),
            Error::FieldErrors(entries) => {
                let mut out = "field errors:".to_owned();
                let mut i: usize = 0;
                while i < entries.len()
                    invariant
                        *self is FieldErrors,
                        (*self)->FieldErrors_0 == *entries,
                        i <= entries@.len(),
                    decreases entries@.len() - i,
                {
                    proof {
                        assert(decreases_to!(*self => (*self)->FieldErrors_0));
                        assert(decreases_to!(*entries => entries@));
                        assert(decreases_to!(entries@ => entries@[i as int]));
                        assert(decreases_to!(entries@[i as int] => entries@[i as int].1));
                    }
                    let sub = entries[i].1.message();
                    out = out.concat(" ").concat(entries[i].0.as_str()).concat(": ").concat(
                        sub.as_str(),
                    );
                    i = i + 1;
                }
                out
            },
            Error::ArgumentInvalid(m) => "argument error: ".to_owned().concat(m.as_str()),
            Error::RecursionLimit => "selection sets nested beyond the recursion budget".to_owned(),
        }
    }
}

} // verus!
