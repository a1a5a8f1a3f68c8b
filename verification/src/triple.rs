//! The Beaver triple supply: a single trusted dealer produces each triple in
//! the clear, once per multiplication gate; the delegator secret-shares the
//! three components before any worker sees them.
use vstd::prelude::*;

use crate::field::{fmul, Scalar61};
use crate::{BeaverTripleGeneratoor, FiniteField};

verus! {

/// The trusted dealer.  A fully decentralized system would replace it with a
/// distributed triple-generation sub-protocol; the rest of the protocol only
/// depends on the contract of `generate`.
pub struct TrustedDealer;

impl BeaverTripleGeneratoor<Scalar61> for TrustedDealer {
    /// One triple `(alpha, beta, gamma)`: `alpha` and `beta` are drawn
    /// independently from the field's random generator, and
    /// `gamma == alpha * beta`.
    fn generate() -> (r: (Scalar61, Scalar61, Scalar61))
        ensures
            r.2@ == fmul(r.0@, r.1@),
    {
        let alpha = Scalar61::random();
        let beta = Scalar61::random();
        let gamma = alpha.mul(&beta);
        (alpha, beta, gamma)
    }
}

} // verus!
