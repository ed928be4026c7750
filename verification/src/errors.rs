//! Error taxonomy: storage-level failures surfaced by the association store,
//! and the domain-level validation failure from language checking.

use vstd::prelude::*;

verus! {

/// A failure of the backing association store. Integrity violations are
/// surfaced as errors rather than pre-validated away, mirroring a relational
/// store's constraint checks.
#[derive(Clone, Copy, PartialEq, Eq, Structural, Debug)]
pub enum StorageError {
    /// A required row (for instance the local Site) does not exist.
    NotFound,
    /// A duplicate (owner, language) pair or duplicate entity was submitted.
    UniqueViolation,
    /// A language id that is not part of the catalog was submitted.
    ForeignKeyViolation,
}

/// A domain-level validation failure: the language is not among the
/// community's configured languages.
#[derive(Clone, Copy, PartialEq, Eq, Structural, Debug)]
pub enum LanguageError {
    LanguageNotAllowed,
}

} // verus!
