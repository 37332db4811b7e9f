//! Why a conversion can fail.

use vstd::prelude::*;

verus! {

/// The ways in which converting a page can fail.
#[derive(Clone, Copy, Debug, PartialEq, Eq, Structural)]
pub enum ConvertError {
    /// The markup holds no `<title>` that is followed by a `</title>`.
    MissingTitle,
    /// The regular-expression engine refused one of the pipeline's patterns.
    RejectedPattern,
}

} // verus!
