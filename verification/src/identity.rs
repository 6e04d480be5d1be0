//! Span identities, as `tracing` hands them around.

use tracing::Id;
use vstd::prelude::*;

verus! {

/// `tracing::Id`, carried through without looking inside.
#[verifier::external_type_specification]
#[verifier::external_body]
pub struct ExId(tracing::Id);

/// The number that a span identity carries: what `Id::into_u64` returns for it.
pub uninterp spec fn id_value(id: Id) -> u64;

/// `Id::from_u64` builds the identity that carries `u`. It panics on zero,
/// which the precondition leaves out.
pub assume_specification[ tracing::Id::from_u64 ](u: u64) -> (id: Id)
    requires
        u != 0,
    ensures
        id_value(id) == u,
;

/// `Id::into_u64` reads the number back; no identity carries zero.
pub assume_specification[ tracing::Id::into_u64 ](id: &Id) -> (u: u64)
    ensures
        u == id_value(*id),
        u != 0,
;

/// Cloning an identity keeps the number it carries.
pub assume_specification[ <tracing::Id as Clone>::clone ](id: &Id) -> (copy: Id)
    ensures
        id_value(copy) == id_value(*id),
;

} // verus!
