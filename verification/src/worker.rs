//! The per-party protocol runtime: the append-only stage store, the
//! broadcast bookkeeping, and the staged secure-multiplication sub-protocol.
//!
//! A worker's store is written both by the worker itself (its own broadcast)
//! and by every peer (inbound share delivery).  The methods here are the
//! sequential core of that exchange: they record and query stage data and
//! combine a completed stage into a product share.  Blocking — waiting for a
//! peer that has not yet deposited its pair — is the transport's duty: an
//! in-process deployment polls `wait_for_broadcast` until it returns a value.
use vstd::prelude::*;

use crate::field::{fadd, fmul, fsub, Scalar61, MODULUS};
use crate::secret_sharing::{eval_points, index_vals, lagrange_zero, values, Shamir};
use crate::{FiniteField, SecretSharing};

verus! {

/// A protocol fault.  Every variant signals an implementation bug in a
/// party, not a recoverable condition.
#[derive(Clone, Copy, Debug, PartialEq, Eq, Structural)]
pub enum ProtocolError {
    /// A stage record was created out of sequence: record `s` may only be
    /// created once records `0..s-1` exist.
    InvalidStage,
}

/// One party of the cohort: its 1-based identity, the cohort size, the peer
/// indexes installed by the delegator, and the per-stage broadcast store.
pub struct ExampleWorker {
    index: usize,
    n: usize,
    peer_workers: Vec<usize>,
    /// `stage_shares[s][w - 1]` is the masked pair broadcast by worker `w`
    /// for stage `s`, once it has arrived.
    stage_shares: Vec<Vec<Option<(Scalar61, Scalar61)>>>,
}

impl ExampleWorker {
    /// Structural well-formedness: a valid identity and full-width stage
    /// records.
    pub closed spec fn wf(&self) -> bool {
        &&& 1 <= self.index <= self.n
        &&& forall|s: int|
            0 <= s < self.stage_shares@.len() ==> (#[trigger] self.stage_shares@[s])@.len()
                == self.n
    }

    /// This worker's 1-based index.
    pub closed spec fn index_spec(&self) -> int {
        self.index as int
    }

    /// The cohort size `n`.
    pub closed spec fn cohort_size(&self) -> int {
        self.n as int
    }

    /// How many stage records exist so far.
    pub closed spec fn num_stages(&self) -> int {
        self.stage_shares@.len() as int
    }

    /// The installed peer indexes.
    pub closed spec fn peers(&self) -> Seq<usize> {
        self.peer_workers@
    }

    /// The recorded pair of worker `w` (1-based) for stage `s`, if any.
    pub closed spec fn entry(&self, s: int, w: int) -> Option<(Scalar61, Scalar61)> {
        self.stage_shares@[s]@[w - 1]
    }

    /// Whether every party's pair for stage `s` has arrived.
    pub open spec fn stage_full(&self, s: int) -> bool {
        &&& 0 <= s < self.num_stages()
        &&& forall|w: int| 1 <= w <= self.cohort_size() ==> (#[trigger] self.entry(s, w)) is Some
    }

    /// The first components recorded for stage `s`, by worker order.
    pub open spec fn stage_a_vals(&self, s: int) -> Seq<int> {
        Seq::new(self.cohort_size() as nat, |j: int| self.entry(s, j + 1).unwrap().0@)
    }

    /// The second components recorded for stage `s`, by worker order.
    pub open spec fn stage_b_vals(&self, s: int) -> Seq<int> {
        Seq::new(self.cohort_size() as nat, |j: int| self.entry(s, j + 1).unwrap().1@)
    }

    /// A fresh worker: no peers installed, no stage records.
    pub fn new(index: usize, n: usize) -> (w: Self)
        requires
            1 <= index <= n,
        ensures
            w.wf(),
            w.index_spec() == index,
            w.cohort_size() == n,
            w.num_stages() == 0,
            w.peers() == Seq::<usize>::empty(),
    {
        let w = ExampleWorker { index, n, peer_workers: Vec::new(), stage_shares: Vec::new() };
        proof {
            assert(w.peers() =~= Seq::<usize>::empty());
        }
        w
    }

    /// This worker's 1-based index.
    pub fn index(&self) -> (r: usize)
        ensures
            r == self.index_spec(),
    {
        self.index
    }

    /// How many stage records exist so far.
    pub fn stage_count(&self) -> (r: usize)
        ensures
            r == self.num_stages(),
    {
        self.stage_shares.len()
    }

    /// The cohort size `n`.
    pub fn cohort_len(&self) -> (r: usize)
        ensures
            r == self.cohort_size(),
    {
        self.n
    }

    /// Installs the peer set; called exactly once, before any protocol
    /// traffic.
    pub fn set_peer_workers(&mut self, peer_workers: Vec<usize>)
        ensures
            final(self).peers() == peer_workers@,
            final(self).index_spec() == old(self).index_spec(),
            final(self).cohort_size() == old(self).cohort_size(),
            final(self).num_stages() == old(self).num_stages(),
            final(self).wf() == old(self).wf(),
            forall|s: int, w: int| #[trigger]
                final(self).entry(s, w) == old(self).entry(s, w),
    {
        self.peer_workers = peer_workers;
    }

    /// Records the pair broadcast by `from_worker` for `stage`.
    ///
    /// A new record is created when `stage` equals the current record count;
    /// an existing record is updated in place.  Any later `stage` is an
    /// invalid-stage fault and leaves the store untouched.
    pub fn insert_share(
        &mut self,
        stage: usize,
        from_worker: usize,
        a_b_share_shifted: (Scalar61, Scalar61),
    ) -> (res: Result<(), ProtocolError>)
        requires
            old(self).wf(),
            1 <= from_worker <= old(self).cohort_size(),
        ensures
            final(self).wf(),
            final(self).index_spec() == old(self).index_spec(),
            final(self).cohort_size() == old(self).cohort_size(),
            final(self).peers() == old(self).peers(),
            res is Ok <==> stage <= old(self).num_stages(),
            res is Err ==> *final(self) == *old(self) && res == Err::<(), ProtocolError>(
                ProtocolError::InvalidStage,
            ),
            res is Ok ==> {
                &&& final(self).num_stages() == (if stage == old(self).num_stages() {
                    old(self).num_stages() + 1
                } else {
                    old(self).num_stages()
                })
                &&& final(self).entry(stage as int, from_worker as int) == Some(a_b_share_shifted)
                &&& forall|s: int, w: int|
                    0 <= s < old(self).num_stages() && 1 <= w <= old(self).cohort_size() && !(s
                        == stage && w == from_worker) ==> #[trigger] final(self).entry(s, w) == old(
                        self,
                    ).entry(s, w)
                &&& (stage == old(self).num_stages() ==> forall|w: int|
                    1 <= w <= old(self).cohort_size() && w != from_worker
                        ==> #[trigger] final(self).entry(stage as int, w) is None)
            },
    {
        let count = self.stage_shares.len();
        if stage > count {
            return Err(ProtocolError::InvalidStage);
        }
        if stage == count {
            let mut row: Vec<Option<(Scalar61, Scalar61)>> = Vec::new();
            let mut j: usize = 0;
            while j < self.n
                invariant
                    j <= self.n,
                    row@.len() == j,
                    forall|k: int| 0 <= k < j ==> #[trigger] row@[k] is None,
                decreases self.n - j,
            {
                row.push(None);
                j = j + 1;
            }
            self.stage_shares.push(row);
        }
        self.stage_shares[stage][from_worker - 1] = Some(a_b_share_shifted);
        Ok(())
    }

    /// The recorded pair of `from_worker` for `stage`, or nothing while it
    /// has not arrived (or the record does not exist yet).
    pub fn get_share(&self, stage: usize, from_worker: usize) -> (r: Option<(Scalar61, Scalar61)>)
        requires
            self.wf(),
            1 <= from_worker <= self.cohort_size(),
        ensures
            r == (if stage < self.num_stages() {
                self.entry(stage as int, from_worker as int)
            } else {
                None::<(Scalar61, Scalar61)>
            }),
    {
        if stage >= self.stage_shares.len() {
            return None;
        }
        self.stage_shares[stage][from_worker - 1]
    }

    /// Records this worker's own masked pair for `stage`.  Forwarding the
    /// pair to every peer is the transport's duty: in-process, the delegator
    /// delivers it into each peer's store; a distributed deployment sends it
    /// to each peer's inbound handler.
    pub fn broadcast(&mut self, a_b_share_shifted: (Scalar61, Scalar61), stage: usize) -> (res:
        Result<(), ProtocolError>)
        requires
            old(self).wf(),
        ensures
            final(self).wf(),
            final(self).index_spec() == old(self).index_spec(),
            final(self).cohort_size() == old(self).cohort_size(),
            final(self).peers() == old(self).peers(),
            res is Ok <==> stage <= old(self).num_stages(),
            res is Err ==> *final(self) == *old(self),
            res is Ok ==> {
                &&& final(self).num_stages() == (if stage == old(self).num_stages() {
                    old(self).num_stages() + 1
                } else {
                    old(self).num_stages()
                })
                &&& final(self).entry(stage as int, old(self).index_spec()) == Some(
                    a_b_share_shifted,
                )
                &&& forall|s: int, w: int|
                    0 <= s < old(self).num_stages() && 1 <= w <= old(self).cohort_size() && !(s
                        == stage && w == old(self).index_spec()) ==> #[trigger] final(self).entry(
                        s,
                        w,
                    ) == old(self).entry(s, w)
            },
    {
        let own = self.index;
        self.insert_share(stage, own, a_b_share_shifted)
    }

    /// Returns the reconstructed masked components for `stage` once self and
    /// every peer have a recorded value, and nothing while one is missing.
    /// The reconstruction interpolates all `n` recorded pairs at the public
    /// points `1..=n`.
    pub fn wait_for_broadcast(&self, stage: usize) -> (r: Option<(Scalar61, Scalar61)>)
        requires
            self.wf(),
        ensures
            r is Some <==> self.stage_full(stage as int),
            r is Some ==> r.unwrap().0@ == lagrange_zero(
                self.stage_a_vals(stage as int),
                eval_points(self.cohort_size() as nat),
            ) && r.unwrap().1@ == lagrange_zero(
                self.stage_b_vals(stage as int),
                eval_points(self.cohort_size() as nat),
            ),
    {
        if stage >= self.stage_shares.len() {
            return None;
        }
        let mut a_shares: Vec<Scalar61> = Vec::new();
        let mut b_shares: Vec<Scalar61> = Vec::new();
        let mut indexes: Vec<usize> = Vec::new();
        let mut k: usize = 0;
        while k < self.n
            invariant
                self.wf(),
                stage < self.num_stages(),
                k <= self.cohort_size(),
                a_shares@.len() == k,
                b_shares@.len() == k,
                indexes@.len() == k,
                forall|j: int| 0 <= j < k ==> #[trigger] self.entry(stage as int, j + 1) is Some,
                forall|j: int|
                    0 <= j < k ==> #[trigger] a_shares@[j]@ == self.stage_a_vals(stage as int)[j],
                forall|j: int|
                    0 <= j < k ==> #[trigger] b_shares@[j]@ == self.stage_b_vals(stage as int)[j],
                forall|j: int| 0 <= j < k ==> #[trigger] indexes@[j] == j + 1,
            decreases self.cohort_size() - k,
        {
            let w = k + 1;
            match self.get_share(stage, w) {
                None => {
                    return None;
                },
                Some(pair) => {
                    a_shares.push(pair.0);
                    b_shares.push(pair.1);
                    indexes.push(w);
                },
            }
            k = k + 1;
        }
        let indexes_b = indexes.clone();
        proof {
            assert forall|w2: int| 1 <= w2 <= self.cohort_size() implies self.entry(
                stage as int,
                w2,
            ) is Some by {
                assert(self.entry(stage as int, (w2 - 1) + 1) is Some);
            }
            assert(indexes_b@ =~= indexes@);
            assert(values(a_shares@) =~= self.stage_a_vals(stage as int));
            assert(values(b_shares@) =~= self.stage_b_vals(stage as int));
            assert(index_vals(indexes@) =~= eval_points(self.cohort_size() as nat));
        }
        let n = self.n;
        let d = Shamir::recover(a_shares, indexes, n, n);
        let e = Shamir::recover(b_shares, indexes_b, n, n);
        Some((d, e))
    }

    /// One secure multiplication gate.  With local operand shares `a_share`,
    /// `b_share` and the triple share `r = (alpha_i, beta_i, gamma_i)` for
    /// `stage`, the worker records and (via the transport) broadcasts the
    /// masked pair `(a_share - alpha_i, b_share - beta_i)`; once every
    /// party's pair is in, it reconstructs the masks `d` and `e` and returns
    /// its share `gamma_i + d*beta_i + e*alpha_i + d*e` of the product.
    /// While a peer's pair is missing it returns nothing, and the caller
    /// retries after more deliveries: that retry is the blocking wait of the
    /// protocol.
    pub fn multiply(
        &mut self,
        stage: usize,
        a_share: Scalar61,
        b_share: Scalar61,
        r: &(Scalar61, Scalar61, Scalar61),
    ) -> (c: Option<Scalar61>)
        requires
            old(self).wf(),
            stage <= old(self).num_stages(),
        ensures
            final(self).wf(),
            final(self).index_spec() == old(self).index_spec(),
            final(self).cohort_size() == old(self).cohort_size(),
            final(self).peers() == old(self).peers(),
            final(self).num_stages() == (if stage == old(self).num_stages() {
                old(self).num_stages() + 1
            } else {
                old(self).num_stages()
            }),
            final(self).entry(stage as int, old(self).index_spec()).unwrap().0@ == fsub(
                a_share@,
                r.0@,
            ),
            final(self).entry(stage as int, old(self).index_spec()).unwrap().1@ == fsub(
                b_share@,
                r.1@,
            ),
            final(self).entry(stage as int, old(self).index_spec()) is Some,
            forall|s: int, w: int|
                0 <= s < old(self).num_stages() && 1 <= w <= old(self).cohort_size() && !(s == stage
                    && w == old(self).index_spec()) ==> #[trigger] final(self).entry(s, w) == old(
                    self,
                ).entry(s, w),
            c is Some <==> final(self).stage_full(stage as int),
            c is Some ==> c.unwrap()@ == fadd(
                fadd(
                    fadd(
                        r.2@,
                        fmul(
                            lagrange_zero(
                                final(self).stage_a_vals(stage as int),
                                eval_points(final(self).cohort_size() as nat),
                            ),
                            r.1@,
                        ),
                    ),
                    fmul(
                        lagrange_zero(
                            final(self).stage_b_vals(stage as int),
                            eval_points(final(self).cohort_size() as nat),
                        ),
                        r.0@,
                    ),
                ),
                fmul(
                    lagrange_zero(
                        final(self).stage_a_vals(stage as int),
                        eval_points(final(self).cohort_size() as nat),
                    ),
                    lagrange_zero(
                        final(self).stage_b_vals(stage as int),
                        eval_points(final(self).cohort_size() as nat),
                    ),
                ),
            ),
    {
        let a_share_shifted = a_share.sub(&r.0);
        let b_share_shifted = b_share.sub(&r.1);
        match self.broadcast((a_share_shifted, b_share_shifted), stage) {
            Ok(()) => {},
            Err(_) => {
                proof {
                    assert(false);
                }
            },
        }
        match self.wait_for_broadcast(stage) {
            None => None,
            Some((sum_a_shifted, sum_b_shifted)) => Some(
                beaver_combine(r, sum_a_shifted, sum_b_shifted),
            ),
        }
    }
}

/// This party's product share from its triple share and the reconstructed
/// masks: `gamma + d*beta + e*alpha + d*e`.
pub fn beaver_combine(
    r: &(Scalar61, Scalar61, Scalar61),
    sum_a_shifted: Scalar61,
    sum_b_shifted: Scalar61,
) -> (c: Scalar61)
    ensures
        c@ == fadd(
            fadd(fadd(r.2@, fmul(sum_a_shifted@, r.1@)), fmul(sum_b_shifted@, r.0@)),
            fmul(sum_a_shifted@, sum_b_shifted@),
        ),
{
    r.2.add(&sum_a_shifted.mul(&r.1)).add(&sum_b_shifted.mul(&r.0)).add(
        &sum_a_shifted.mul(&sum_b_shifted),
    )
}

/// The linear tail of the fixed circuit: given a party's shares of `x^3`,
/// `x^2` and `x`, its output share is `x3 + 5*x2 + 3*x + 2`.  Adding public
/// constants and scaling by public constants act share-wise, so no
/// communication is needed.
pub fn circuit_output_share(x3_share: Scalar61, x2_share: Scalar61, x_share: Scalar61) -> (c:
    Scalar61)
    ensures
        c@ == fadd(fadd(fadd(x3_share@, fmul(x2_share@, 5)), fmul(x_share@, 3)), 2),
{
    let five = Scalar61::from_usize(5);
    let three = Scalar61::from_usize(3);
    let two = Scalar61::from_usize(2);
    x3_share.add(&x2_share.mul(&five)).add(&x_share.mul(&three)).add(&two)
}

/// The algebraic heart of Beaver multiplication: for operands `a`, `b`
/// masked by a triple `(alpha, beta, alpha*beta)`, the published differences
/// `d = a - alpha` and `e = b - beta` recombine to the exact product:
/// `alpha*beta + d*beta + e*alpha + d*e == a*b` in the field.  Every party's
/// product share is this combination of its own shares, so the output shares
/// encode `a*b` whenever the input shares encode `a` and `b`.
pub proof fn lemma_beaver_identity(a: int, b: int, alpha: int, beta: int)
    requires
        0 <= a < MODULUS as int,
        0 <= b < MODULUS as int,
        0 <= alpha < MODULUS as int,
        0 <= beta < MODULUS as int,
    ensures
        fadd(
            fadd(fadd(fmul(alpha, beta), fmul(fsub(a, alpha), beta)), fmul(fsub(b, beta), alpha)),
            fmul(fsub(a, alpha), fsub(b, beta)),
        ) == fmul(a, b),
{
    let m = MODULUS as int;
    vstd::arithmetic::div_mod::lemma_mul_mod_noop_left(a - alpha, beta, m);
    vstd::arithmetic::div_mod::lemma_mul_mod_noop_left(b - beta, alpha, m);
    vstd::arithmetic::div_mod::lemma_mul_mod_noop_general(a - alpha, b - beta, m);
    vstd::arithmetic::div_mod::lemma_add_mod_noop(alpha * beta, (a - alpha) * beta, m);
    vstd::arithmetic::div_mod::lemma_add_mod_noop(
        alpha * beta + (a - alpha) * beta,
        (b - beta) * alpha,
        m,
    );
    vstd::arithmetic::div_mod::lemma_add_mod_noop(
        alpha * beta + (a - alpha) * beta + (b - beta) * alpha,
        (a - alpha) * (b - beta),
        m,
    );
    assert(alpha * beta + (a - alpha) * beta + (b - beta) * alpha + (a - alpha) * (b - beta) == a
        * b) by (nonlinear_arith);
    vstd::arithmetic::div_mod::lemma_mod_twice(alpha * beta, m);
}

} // verus!
