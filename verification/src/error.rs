//! Errors raised while loading the embedded datasets. A load failure is
//! fatal: a process that cannot load its catalogs must not serve requests.

use vstd::prelude::*;

verus! {

/// Why a dataset was rejected at load time.
#[derive(Clone, Copy, Debug, PartialEq, Eq)]
pub enum LoadError {
    /// The dataset text is not well-formed JSON of the expected shape.
    Malformed,
    /// Two records carry the same id (or two detail entries the same key).
    DuplicateId,
}

} // verus!
