//! What a subscriber answers when `tracing` registers a call site.

use tracing::subscriber::Interest;
use vstd::prelude::*;

verus! {

/// `tracing::subscriber::Interest`, carried through without looking inside.
#[verifier::external_type_specification]
#[verifier::external_body]
pub struct ExInterest(tracing::subscriber::Interest);

/// Whether an interest says that the call site is always wanted: what
/// `Interest::is_always` answers for it.
pub uninterp spec fn always_interested(interest: Interest) -> bool;

/// `Interest::always` is the interest that always wants the call site.
pub assume_specification[ tracing::subscriber::Interest::always ]() -> (interest: Interest)
    ensures
        always_interested(interest),
;

} // verus!
