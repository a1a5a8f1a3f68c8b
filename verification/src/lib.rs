//! A secure multi-party computation (MPC) delegation library.
//!
//! A delegator splits a secret input into threshold secret shares, hands one
//! share to each of `n` worker parties, and the workers jointly evaluate a
//! fixed arithmetic circuit over the shared data.  Multiplication gates use
//! Beaver-triple-assisted secure multiplication, so no party ever observes
//! another party's intermediate values; the delegator reconstructs the final
//! result from the workers' output shares.
//!
//! The traits below describe the pluggable capabilities: the finite-field
//! backend, the sharing engine, the triple source, and the worker/delegator
//! runtimes.  Concrete verified implementations live in the submodules; a
//! distributed deployment supplies its own transport by implementing
//! [`WorkerClient`] over a real network.
use vstd::prelude::*;

pub mod delegator;
pub mod field;
pub mod secret_sharing;
pub mod triple;
pub mod worker;

verus! {

/// Finite-field arithmetic capability.
///
/// Values have value semantics (independent copies); `add`, `sub`, `mul` and
/// `div` are total operations of the field, `div` being undefined at a zero
/// divisor.
pub trait FiniteField: Sized + Send + Sync {
    /// A uniformly random field element.
    fn random() -> Self;

    /// The additive identity.
    fn zero() -> Self;

    /// The multiplicative identity.
    fn one() -> Self;

    /// The field element congruent to `n`.
    fn from_usize(n: usize) -> Self;

    /// Returns `partial * point + coef`, the step of Horner's method.
    fn horner_fold(partial: &Self, coef: &Self, point: &Self) -> Self;

    fn mul(self, other: &Self) -> Self;

    fn sub(self, other: &Self) -> Self;

    fn add(self, other: &Self) -> Self;

    /// Field division; the result is unspecified when `other` is zero.
    fn div(self, other: &Self) -> Self;
}

/// Shamir-style threshold sharing and reconstruction over field elements.
pub trait SecretSharing<T: FiniteField> {
    /// Splits `secret` into `n` shares: evaluations, at the public points
    /// `1..=n`, of a uniformly random polynomial of degree `t - 1` whose
    /// constant term is `secret`.
    fn share(secret: T, n: usize, t: usize) -> (shares: Vec<T>)
        requires
            1 <= t <= n,
        ensures
            shares.len() == n,
    ;

    /// Reconstructs the secret from at least `t` `(index, share)` pairs by
    /// polynomial interpolation at the point `0`.  Supplying fewer than `t`
    /// pairs, a repeated index, or an index of `0` yields an undefined
    /// result: these are caller preconditions, not runtime-checked errors.
    fn recover(shares: Vec<T>, indexes: Vec<usize>, n: usize, t: usize) -> T
        requires
            shares.len() == indexes.len(),
            1 <= t <= shares.len(),
    ;
}

/// A source of Beaver triples `(alpha, beta, gamma)` with
/// `gamma == alpha * beta`, `alpha` and `beta` independently random.
pub trait BeaverTripleGeneratoor<T> {
    fn generate() -> (T, T, T);
}

/// The party that distributes input shares and correlated randomness to the
/// workers and reconstructs the final output from their output shares.
pub trait Delegator<T: FiniteField> {
    /// Whether this delegator is ready for one circuit evaluation: its
    /// cohort is wired and no stage store holds traffic from an earlier run.
    spec fn ready(&self) -> bool;

    /// Evaluates the fixed circuit on `inputs` (exactly one secret scalar in
    /// this protocol) and returns the reconstructed outputs.
    fn delegate(&mut self, inputs: Vec<T>) -> (out: Vec<T>)
        requires
            old(self).ready(),
            inputs@.len() == 1,
        ensures
            out@.len() == 1,
    ;
}

/// What every protocol party exposes: a stable 1-based identity within the
/// cohort, and the circuit entry point.
pub trait Base<T: FiniteField> {
    fn index(&self) -> usize;

    /// Runs the fixed circuit end to end on this party's triple shares and
    /// input shares, returning its output shares.  Blocks at every
    /// multiplication gate until all peers' broadcasts for that stage have
    /// arrived, so the cohort must run concurrently.
    fn work(&self, beaver_triple_shares: Vec<(T, T, T)>, input_shares: Vec<T>) -> Vec<T>;
}

/// The per-party protocol runtime of the staged multiplication sub-protocol.
pub trait Worker<T: FiniteField>: Base<T> {
    /// Records this party's masked pair for `stage` and forwards it to every
    /// peer's inbound handler.
    fn broadcast(&self, a_b_share_shifted: (T, T), stage: usize);

    /// Blocks until self and all peers have a recorded value for `stage`,
    /// then reconstructs and returns both masked components.
    fn wait_for_broadcast(&self, stage: usize) -> (T, T);

    /// One secure multiplication gate: broadcasts the masked operand shares
    /// for `stage`, waits for the cohort, and combines the reconstructed
    /// masks with the triple share `r` into this party's product share.
    fn multiply(&self, stage: usize, a_share: T, b_share: T, r: &(T, T, T)) -> T;
}

/// The externally addressable facade of a worker, used by its peers and by
/// the delegator; it decouples "how to reach a worker" from its state.
pub trait WorkerClient<T: FiniteField>: Base<T> + Send + Sync {
    /// Installs the peer set (the 1-based indexes of every cohort member but
    /// this one); called exactly once, before any protocol traffic.
    fn set_peer_workers(&self, peer_workers: Vec<usize>);

    /// Delivers the pair broadcast by `from_worker` for `stage` into this
    /// worker's stage store.
    fn send_share(&self, from_worker: usize, a_b_share_shifted: (T, T), stage: usize);

    /// Returns this worker's own recorded pair for `stage`, blocking until
    /// the record exists.
    fn receive_share(&self, stage: usize) -> (T, T);
}

} // verus!
