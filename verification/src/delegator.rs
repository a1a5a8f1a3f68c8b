//! The delegator: it owns the cohort, wires every worker's peer list to
//! "all others" exactly once, secret-shares the input and the Beaver
//! triples, runs the fixed circuit `x^3 + 5x^2 + 3x + 2` stage by stage, and
//! reconstructs the final value from the workers' output shares.
//!
//! The in-process scheduler here is round-based: within one multiplication
//! stage every party first announces its masked pair, then the pairs are
//! delivered to every peer's store, then every party combines the completed
//! stage.  A distributed deployment runs the parties concurrently instead
//! and lets each one block in its own wait; both schedules satisfy the same
//! stage-store contracts.
use vstd::prelude::*;

use crate::field::{fadd, fmul, fsub, Scalar61};
use crate::field::MODULUS;
use crate::secret_sharing::{
    eval_points, is_sharing, lagrange_zero, lemma_lagrange_zero_additive,
    lemma_lagrange_zero_scales, values, Shamir,
};
use crate::triple::TrustedDealer;
use crate::worker::{beaver_combine, circuit_output_share, ExampleWorker};
use crate::{BeaverTripleGeneratoor, Delegator, FiniteField, SecretSharing};

verus! {

/// The number of multiplication gates in the fixed circuit: gate 0 computes
/// `x^2`, gate 1 computes `x^3 = x^2 * x`.
pub const NUM_GATES: usize = 2;

/// The peer list of worker `w` (1-based) in a cohort of `n`: every other
/// member's index, in increasing order.
pub open spec fn peer_indexes(w: int, n: int) -> Seq<usize> {
    Seq::new(
        (n - 1) as nat,
        |k: int|
            if k + 1 < w {
                (k + 1) as usize
            } else {
                (k + 2) as usize
            },
    )
}

/// The plain field values of a sequence of triple shares.
pub open spec fn triple_vals(s: Seq<(Scalar61, Scalar61, Scalar61)>) -> Seq<(int, int, int)> {
    s.map_values(|t: (Scalar61, Scalar61, Scalar61)| (t.0@, t.1@, t.2@))
}

/// `tr` is a correctly formed shared Beaver triple: party `i` holds the
/// `i`-th share of `alpha`, of `beta` and of `gamma`, for some `alpha` and
/// `beta` with `gamma == alpha * beta`.
pub open spec fn is_triple_sharing(tr: Seq<(int, int, int)>, n: nat) -> bool {
    exists|alpha: int, beta: int|
        #![auto]
        {
            &&& is_sharing(Seq::new(n, |i: int| tr[i].0), alpha, n)
            &&& is_sharing(Seq::new(n, |i: int| tr[i].1), beta, n)
            &&& is_sharing(Seq::new(n, |i: int| tr[i].2), fmul(alpha, beta), n)
        }
}

/// The output shares of one Beaver multiplication stage: party `i` combines
/// its triple share with the masks `d` and `e` that the full broadcast
/// record reconstructs.
pub open spec fn mul_stage_outputs(a: Seq<int>, b: Seq<int>, tr: Seq<(int, int, int)>) -> Seq<
    int,
> {
    let d = lagrange_zero(Seq::new(a.len(), |j: int| fsub(a[j], tr[j].0)), eval_points(a.len()));
    let e = lagrange_zero(Seq::new(a.len(), |j: int| fsub(b[j], tr[j].1)), eval_points(a.len()));
    Seq::new(
        a.len(),
        |i: int| fadd(fadd(fadd(tr[i].2, fmul(d, tr[i].1)), fmul(e, tr[i].0)), fmul(d, e)),
    )
}

/// The cohort's output shares for the whole circuit: the two multiplication
/// stages compute `x^2` and `x^3`, and each party takes the local linear
/// combination `x^3 + 5x^2 + 3x + 2` of its shares.
pub open spec fn circuit_outputs(
    x: Seq<int>,
    t0: Seq<(int, int, int)>,
    t1: Seq<(int, int, int)>,
) -> Seq<int> {
    let x2 = mul_stage_outputs(x, x, t0);
    let x3 = mul_stage_outputs(x2, x, t1);
    Seq::new(x.len(), |i: int| fadd(fadd(fadd(x3[i], fmul(x2[i], 5)), fmul(x[i], 3)), 2))
}

/// What the output shares of one multiplication stage reconstruct to, for
/// any interpolation points: the reconstruction of the gamma shares, plus
/// `d` times that of the beta shares, plus `e` times that of the alpha
/// shares, plus `d*e` times that of the all-ones vector, where `d` and `e`
/// are the reconstructed masks.  When each share vector reconstructs to its
/// shared value (gamma to `alpha*beta`, the masks to `a - alpha` and
/// `b - beta`, the all-ones vector to `1`), this combination is
/// `alpha*beta + d*beta + e*alpha + d*e`, which `lemma_beaver_identity`
/// shows equal to `a*b`.
pub proof fn lemma_stage_reconstruction(
    a: Seq<int>,
    b: Seq<int>,
    tr: Seq<(int, int, int)>,
    xs: Seq<int>,
)
    requires
        a.len() == b.len(),
        a.len() == tr.len(),
    ensures
        ({
            let n = a.len();
            let d = lagrange_zero(Seq::new(n, |j: int| fsub(a[j], tr[j].0)), eval_points(n));
            let e = lagrange_zero(Seq::new(n, |j: int| fsub(b[j], tr[j].1)), eval_points(n));
            lagrange_zero(mul_stage_outputs(a, b, tr), xs) == fadd(
                fadd(
                    fadd(
                        lagrange_zero(Seq::new(n, |i: int| tr[i].2), xs),
                        fmul(d, lagrange_zero(Seq::new(n, |i: int| tr[i].1), xs)),
                    ),
                    fmul(e, lagrange_zero(Seq::new(n, |i: int| tr[i].0), xs)),
                ),
                fmul(fmul(d, e), lagrange_zero(Seq::new(n, |i: int| 1int), xs)),
            )
        }),
{
    let n = a.len();
    let d = lagrange_zero(Seq::new(n, |j: int| fsub(a[j], tr[j].0)), eval_points(n));
    let e = lagrange_zero(Seq::new(n, |j: int| fsub(b[j], tr[j].1)), eval_points(n));
    let alphas = Seq::new(n, |i: int| tr[i].0);
    let betas = Seq::new(n, |i: int| tr[i].1);
    let gammas = Seq::new(n, |i: int| tr[i].2);
    let ones = Seq::new(n, |i: int| 1int);
    let de = fmul(d, e);
    let s_db = Seq::new(n, |i: int| fmul(d, betas[i]));
    let s_ea = Seq::new(n, |i: int| fmul(e, alphas[i]));
    let s_de = Seq::new(n, |i: int| fmul(de, ones[i]));
    let t2 = Seq::new(gammas.len(), |i: int| fadd(gammas[i], s_db[i]));
    let t3 = Seq::new(t2.len(), |i: int| fadd(t2[i], s_ea[i]));
    let t4 = Seq::new(t3.len(), |i: int| fadd(t3[i], s_de[i]));
    assert forall|i: int| 0 <= i < n implies s_de[i] == de by {
        let m = MODULUS as int;
        vstd::arithmetic::mul::lemma_mul_basics(de);
        vstd::arithmetic::div_mod::lemma_mod_twice(d * e, m);
    }
    assert(mul_stage_outputs(a, b, tr) =~= t4);
    lemma_lagrange_zero_additive(t3, s_de, xs);
    lemma_lagrange_zero_additive(t2, s_ea, xs);
    lemma_lagrange_zero_additive(gammas, s_db, xs);
    lemma_lagrange_zero_scales(d, betas, xs);
    lemma_lagrange_zero_scales(e, alphas, xs);
    lemma_lagrange_zero_scales(de, ones, xs);
}

/// Generates one Beaver triple and secret-shares each component separately:
/// entry `i` is worker `i + 1`'s share triple `(alpha_i, beta_i, gamma_i)`.
fn share_one_triple(n: usize) -> (row: Vec<(Scalar61, Scalar61, Scalar61)>)
    requires
        1 <= n,
    ensures
        row@.len() == n,
        is_triple_sharing(triple_vals(row@), n as nat),
{
    let r = TrustedDealer::generate();
    let alpha_shares = Shamir::share(r.0, n, n);
    let beta_shares = Shamir::share(r.1, n, n);
    let gama_shares = Shamir::share(r.2, n, n);
    let mut row: Vec<(Scalar61, Scalar61, Scalar61)> = Vec::new();
    let mut k: usize = 0;
    while k < n
        invariant
            k <= n,
            row@.len() == k,
            alpha_shares@.len() == n,
            beta_shares@.len() == n,
            gama_shares@.len() == n,
            forall|j: int|
                0 <= j < k ==> #[trigger] row@[j] == (
                    alpha_shares@[j],
                    beta_shares@[j],
                    gama_shares@[j],
                ),
        decreases n - k,
    {
        row.push((alpha_shares[k], beta_shares[k], gama_shares[k]));
        k = k + 1;
    }
    proof {
        let tv = triple_vals(row@);
        assert(Seq::new(n as nat, |i: int| tv[i].0) =~= values(alpha_shares@));
        assert(Seq::new(n as nat, |i: int| tv[i].1) =~= values(beta_shares@));
        assert(Seq::new(n as nat, |i: int| tv[i].2) =~= values(gama_shares@));
        assert(is_sharing(Seq::new(n as nat, |i: int| tv[i].2), fmul(r.0@, r.1@), n as nat));
    }
    row
}

/// Generates one Beaver triple per multiplication gate and secret-shares
/// each component across all `n` parties: entry `i` of the result is worker
/// `i + 1`'s list of per-gate triple shares `(alpha_i, beta_i, gamma_i)`.
/// No party ever sees a plaintext component.
pub fn setup_random_shares(n: usize) -> (result: Vec<Vec<(Scalar61, Scalar61, Scalar61)>>)
    requires
        1 <= n,
    ensures
        result@.len() == n,
        forall|i: int| 0 <= i < n ==> (#[trigger] result@[i])@.len() == NUM_GATES,
        is_triple_sharing(
            Seq::new(
                n as nat,
                |i: int| ((result@[i]@[0]).0@, (result@[i]@[0]).1@, (result@[i]@[0]).2@),
            ),
            n as nat,
        ),
        is_triple_sharing(
            Seq::new(
                n as nat,
                |i: int| ((result@[i]@[1]).0@, (result@[i]@[1]).1@, (result@[i]@[1]).2@),
            ),
            n as nat,
        ),
{
    let row0 = share_one_triple(n);
    let row1 = share_one_triple(n);

    let mut result: Vec<Vec<(Scalar61, Scalar61, Scalar61)>> = Vec::new();
    let mut i: usize = 0;
    while i < n
        invariant
            i <= n,
            result@.len() == i,
            row0@.len() == n,
            row1@.len() == n,
            forall|j: int|
                0 <= j < i ==> {
                    &&& (#[trigger] result@[j])@.len() == NUM_GATES
                    &&& result@[j]@[0] == row0@[j]
                    &&& result@[j]@[1] == row1@[j]
                },
        decreases n - i,
    {
        let mut per_worker: Vec<(Scalar61, Scalar61, Scalar61)> = Vec::new();
        per_worker.push(row0[i]);
        per_worker.push(row1[i]);
        result.push(per_worker);
        i = i + 1;
    }
    proof {
        assert(Seq::new(
            n as nat,
            |i: int| ((result@[i]@[0]).0@, (result@[i]@[0]).1@, (result@[i]@[0]).2@),
        ) =~= triple_vals(row0@));
        assert(Seq::new(
            n as nat,
            |i: int| ((result@[i]@[1]).0@, (result@[i]@[1]).1@, (result@[i]@[1]).2@),
        ) =~= triple_vals(row1@));
    }
    result
}

/// The orchestrator of one circuit evaluation over an owned cohort of
/// workers.
pub struct ExampleDelegator {
    workers: Vec<ExampleWorker>,
}

impl ExampleDelegator {
    /// The cohort is wired: each worker carries its 1-based index and the
    /// cohort size.
    pub closed spec fn wf(&self) -> bool {
        &&& 1 <= self.workers@.len()
        &&& forall|i: int|
            0 <= i < self.workers@.len() ==> {
                &&& (#[trigger] self.workers@[i]).wf()
                &&& self.workers@[i].index_spec() == i + 1
                &&& self.workers@[i].cohort_size() == self.workers@.len()
            }
    }

    /// No stage store holds traffic yet: the cohort is good for exactly one
    /// evaluation.
    pub closed spec fn fresh(&self) -> bool {
        forall|i: int|
            0 <= i < self.workers@.len() ==> (#[trigger] self.workers@[i]).num_stages() == 0
    }

    /// The cohort size `n`.
    pub closed spec fn cohort(&self) -> int {
        self.workers@.len() as int
    }

    /// Every worker's stage store holds exactly `g` records: one broadcast
    /// round ran for each of `g` multiplication gates.
    pub closed spec fn rounds_run(&self, g: int) -> bool {
        forall|i: int|
            0 <= i < self.workers@.len() ==> (#[trigger] self.workers@[i]).num_stages() == g
    }

    /// Every worker's installed peer list is exactly the other cohort
    /// members' indexes, in increasing order: the wiring `new` performs,
    /// exactly once, before any protocol traffic.
    pub closed spec fn peers_wired(&self) -> bool {
        forall|i: int|
            0 <= i < self.workers@.len() ==> (#[trigger] self.workers@[i]).peers() == peer_indexes(
                i + 1,
                self.workers@.len() as int,
            )
    }

    /// Builds the cohort of `n` workers and installs every worker's peer
    /// list — all cohort members except itself — exactly once, before any
    /// protocol traffic.
    pub fn new(n: usize) -> (d: Self)
        requires
            1 <= n,
        ensures
            d.wf(),
            d.fresh(),
            d.cohort() == n,
            d.peers_wired(),
    {
        let mut workers: Vec<ExampleWorker> = Vec::new();
        let mut i: usize = 0;
        while i < n
            invariant
                i <= n,
                workers@.len() == i,
                forall|k: int|
                    0 <= k < i ==> {
                        &&& (#[trigger] workers@[k]).wf()
                        &&& workers@[k].index_spec() == k + 1
                        &&& workers@[k].cohort_size() == n
                        &&& workers@[k].num_stages() == 0
                        &&& workers@[k].peers() == peer_indexes(k + 1, n as int)
                    },
            decreases n - i,
        {
            let mut w = ExampleWorker::new(i + 1, n);
            let mut peer_workers: Vec<usize> = Vec::new();
            let mut j: usize = 0;
            while j < n
                invariant
                    j <= n,
                    i < n,
                    w.wf(),
                    w.index_spec() == i + 1,
                    w.cohort_size() == n,
                    w.num_stages() == 0,
                    peer_workers@.len() == (if j <= i {
                        j as int
                    } else {
                        j - 1
                    }),
                    forall|k: int|
                        0 <= k < peer_workers@.len() ==> #[trigger] peer_workers@[k] == (if k + 1
                            < i + 1 {
                            (k + 1) as usize
                        } else {
                            (k + 2) as usize
                        }),
                decreases n - j,
            {
                if j != i {
                    peer_workers.push(j + 1);
                }
                j = j + 1;
            }
            proof {
                assert(peer_workers@ =~= peer_indexes(i + 1, n as int));
            }
            w.set_peer_workers(peer_workers);
            workers.push(w);
            i = i + 1;
        }
        ExampleDelegator { workers }
    }

    /// Runs one multiplication stage across the whole cohort: every party
    /// announces its masked pair, the pairs are delivered to every peer, and
    /// every party combines the completed stage into its product share.
    ///
    /// Party `i`'s product share is exactly the Beaver combination of its
    /// triple share with the two masks `d` and `e` that every party
    /// reconstructs from the full broadcast record:
    /// `gamma_i + d*beta_i + e*alpha_i + d*e`.
    pub fn run_stage(
        &mut self,
        stage: usize,
        a_shares: &Vec<Scalar61>,
        b_shares: &Vec<Scalar61>,
        triples: &Vec<(Scalar61, Scalar61, Scalar61)>,
    ) -> (prod: Vec<Scalar61>)
        requires
            old(self).wf(),
            a_shares@.len() == old(self).cohort(),
            b_shares@.len() == old(self).cohort(),
            triples@.len() == old(self).cohort(),
            stage < usize::MAX,
            old(self).rounds_run(stage as int),
        ensures
            final(self).wf(),
            final(self).cohort() == old(self).cohort(),
            final(self).rounds_run(stage + 1),
            old(self).peers_wired() ==> final(self).peers_wired(),
            prod@.len() == old(self).cohort(),
            values(prod@) == mul_stage_outputs(
                values(a_shares@),
                values(b_shares@),
                triple_vals(triples@),
            ),
    {
        let n = self.workers.len();
        let ghost dvals = Seq::new(n as nat, |j: int| fsub(a_shares@[j]@, triples@[j].0@));
        let ghost evals = Seq::new(n as nat, |j: int| fsub(b_shares@[j]@, triples@[j].1@));
        // Step 1 (local): every party masks its operand shares with its
        // triple share.
        let mut pairs: Vec<(Scalar61, Scalar61)> = Vec::new();
        let mut i: usize = 0;
        while i < n
            invariant
                i <= n,
                pairs@.len() == i,
                a_shares@.len() == n,
                b_shares@.len() == n,
                triples@.len() == n,
                dvals == Seq::new(n as nat, |j: int| fsub(a_shares@[j]@, triples@[j].0@)),
                evals == Seq::new(n as nat, |j: int| fsub(b_shares@[j]@, triples@[j].1@)),
                forall|k: int|
                    0 <= k < i ==> (#[trigger] pairs@[k]).0@ == dvals[k] && pairs@[k].1@
                        == evals[k],
            decreases n - i,
        {
            let d_i = a_shares[i].sub(&triples[i].0);
            let e_i = b_shares[i].sub(&triples[i].1);
            pairs.push((d_i, e_i));
            i = i + 1;
        }
        // Step 2 (announce): every party records its own pair, creating the
        // stage record.
        let mut i: usize = 0;
        while i < n
            invariant
                i <= n,
                self.workers@.len() == n,
                pairs@.len() == n,
                forall|k: int|
                    0 <= k < n ==> {
                        &&& (#[trigger] self.workers@[k]).wf()
                        &&& self.workers@[k].index_spec() == k + 1
                        &&& self.workers@[k].cohort_size() == n
                        &&& self.workers@[k].peers() == old(self).workers@[k].peers()
                    },
                forall|k: int|
                    i <= k < n ==> (#[trigger] self.workers@[k]).num_stages() == stage,
                forall|k: int|
                    0 <= k < i ==> {
                        &&& (#[trigger] self.workers@[k]).num_stages() == stage + 1
                        &&& self.workers@[k].entry(stage as int, k + 1) == Some(pairs@[k])
                    },
            decreases n - i,
        {
            match self.workers[i].broadcast(pairs[i], stage) {
                Ok(()) => {},
                Err(_) => {
                    proof {
                        assert(false);
                    }
                },
            }
            i = i + 1;
        }
        // Step 3 (deliver): each party's pair reaches every peer's store.
        let mut i: usize = 0;
        while i < n
            invariant
                i <= n,
                self.workers@.len() == n,
                pairs@.len() == n,
                forall|k: int|
                    0 <= k < n ==> {
                        &&& (#[trigger] self.workers@[k]).wf()
                        &&& self.workers@[k].index_spec() == k + 1
                        &&& self.workers@[k].cohort_size() == n
                        &&& self.workers@[k].num_stages() == stage + 1
                        &&& self.workers@[k].entry(stage as int, k + 1) == Some(pairs@[k])
                        &&& self.workers@[k].peers() == old(self).workers@[k].peers()
                    },
                forall|k: int, w: int|
                    0 <= k < i && 1 <= w <= n ==> (#[trigger] self.workers@[k].entry(
                        stage as int,
                        w,
                    )) == Some(pairs@[w - 1]),
            decreases n - i,
        {
            let mut j: usize = 0;
            while j < n
                invariant
                    j <= n,
                    i < n,
                    self.workers@.len() == n,
                    pairs@.len() == n,
                    forall|k: int|
                        0 <= k < n ==> {
                            &&& (#[trigger] self.workers@[k]).wf()
                            &&& self.workers@[k].index_spec() == k + 1
                            &&& self.workers@[k].cohort_size() == n
                            &&& self.workers@[k].num_stages() == stage + 1
                            &&& self.workers@[k].entry(stage as int, k + 1) == Some(pairs@[k])
                            &&& self.workers@[k].peers() == old(self).workers@[k].peers()
                        },
                    forall|k: int, w: int|
                        0 <= k < i && 1 <= w <= n ==> (#[trigger] self.workers@[k].entry(
                            stage as int,
                            w,
                        )) == Some(pairs@[w - 1]),
                    forall|w: int|
                        1 <= w <= j || w == i + 1 ==> (#[trigger] self.workers@[i as int].entry(
                            stage as int,
                            w,
                        )) == Some(pairs@[w - 1]),
                decreases n - j,
            {
                if j != i {
                    match self.workers[i].insert_share(stage, j + 1, pairs[j]) {
                        Ok(()) => {},
                        Err(_) => {
                            proof {
                                assert(false);
                            }
                        },
                    }
                }
                j = j + 1;
            }
            i = i + 1;
        }
        // Step 4 (combine): every stage record is full, so each party's wait
        // returns the reconstructed masks, and the party combines them with
        // its triple share.
        let mut prod: Vec<Scalar61> = Vec::new();
        let mut i: usize = 0;
        while i < n
            invariant
                i <= n,
                self.workers@.len() == n,
                pairs@.len() == n,
                triples@.len() == n,
                prod@.len() == i,
                dvals.len() == n,
                evals.len() == n,
                forall|k: int|
                    0 <= k < n ==> (#[trigger] pairs@[k]).0@ == dvals[k] && pairs@[k].1@
                        == evals[k],
                forall|k: int|
                    0 <= k < n ==> {
                        &&& (#[trigger] self.workers@[k]).wf()
                        &&& self.workers@[k].index_spec() == k + 1
                        &&& self.workers@[k].cohort_size() == n
                        &&& self.workers@[k].num_stages() == stage + 1
                        &&& self.workers@[k].peers() == old(self).workers@[k].peers()
                    },
                forall|k: int, w: int|
                    0 <= k < n && 1 <= w <= n ==> (#[trigger] self.workers@[k].entry(
                        stage as int,
                        w,
                    )) == Some(pairs@[w - 1]),
                forall|k: int|
                    0 <= k < i ==> (#[trigger] prod@[k])@ == fadd(
                        fadd(
                            fadd(
                                triples@[k].2@,
                                fmul(lagrange_zero(dvals, eval_points(n as nat)), triples@[k].1@),
                            ),
                            fmul(lagrange_zero(evals, eval_points(n as nat)), triples@[k].0@),
                        ),
                        fmul(
                            lagrange_zero(dvals, eval_points(n as nat)),
                            lagrange_zero(evals, eval_points(n as nat)),
                        ),
                    ),
            decreases n - i,
        {
            proof {
                let wi = self.workers@[i as int];
                assert forall|w: int| 1 <= w <= n implies (#[trigger] wi.entry(
                    stage as int,
                    w,
                )) is Some by {
                    assert(wi.entry(stage as int, w) == Some(pairs@[w - 1]));
                }
                assert(self.workers@[i as int].stage_full(stage as int));
                assert(self.workers@[i as int].stage_a_vals(stage as int) =~= dvals);
                assert(self.workers@[i as int].stage_b_vals(stage as int) =~= evals);
            }
            let de = self.workers[i].wait_for_broadcast(stage);
            let (d, e) = match de {
                Some(p) => p,
                None => {
                    proof {
                        assert(false);
                    }
                    (Scalar61::zero(), Scalar61::zero())
                },
            };
            prod.push(beaver_combine(&triples[i], d, e));
            i = i + 1;
        }
        proof {
            let av = values(a_shares@);
            let bv = values(b_shares@);
            let tv = triple_vals(triples@);
            assert(Seq::new(av.len(), |j: int| fsub(av[j], tv[j].0)) =~= dvals);
            assert(Seq::new(av.len(), |j: int| fsub(bv[j], tv[j].1)) =~= evals);
            assert(values(prod@) =~= mul_stage_outputs(av, bv, tv));
            if old(self).peers_wired() {
                let m = self.workers@.len() as int;
                assert forall|k: int| 0 <= k < m implies (#[trigger] self.workers@[k]).peers()
                    == peer_indexes(k + 1, m) by {
                    assert(old(self).workers@[k].peers() == peer_indexes(k + 1, m));
                }
                assert(self.peers_wired());
            }
        }
        prod
    }
}

impl Delegator<Scalar61> for ExampleDelegator {
    /// Ready means wired and unused: every worker's peer list holds all the
    /// other cohort members, and every stage store is empty.
    open spec fn ready(&self) -> bool {
        self.wf() && self.fresh() && self.peers_wired()
    }

    /// One full evaluation of `x^3 + 5x^2 + 3x + 2` on the single secret
    /// input: share the input, share the triples, run the two multiplication
    /// stages, take the local linear combination, and reconstruct the result
    /// from the cohort's output shares.
    #[verifier::rlimit(50)]
    fn delegate(&mut self, inputs: Vec<Scalar61>) -> (out: Vec<Scalar61>)
        ensures
            final(self).wf(),
            final(self).cohort() == old(self).cohort(),
            final(self).rounds_run(NUM_GATES as int),
            final(self).peers_wired(),
            exists|x_sh: Seq<int>, t0: Seq<(int, int, int)>, t1: Seq<(int, int, int)>|
                #![auto]
                {
                    &&& x_sh.len() == old(self).cohort()
                    &&& t0.len() == old(self).cohort()
                    &&& t1.len() == old(self).cohort()
                    &&& is_sharing(x_sh, inputs@[0]@, old(self).cohort() as nat)
                    &&& is_triple_sharing(t0, old(self).cohort() as nat)
                    &&& is_triple_sharing(t1, old(self).cohort() as nat)
                    &&& out@[0]@ == lagrange_zero(
                        circuit_outputs(x_sh, t0, t1),
                        eval_points(old(self).cohort() as nat),
                    )
                },
    {
        let n = self.workers.len();
        let random_shares = setup_random_shares(n);
        let input_shares = Shamir::share(inputs[0], n, n);

        // Transpose the per-worker triple lists into per-gate cohort rows.
        let mut gate0: Vec<(Scalar61, Scalar61, Scalar61)> = Vec::new();
        let mut gate1: Vec<(Scalar61, Scalar61, Scalar61)> = Vec::new();
        let mut i: usize = 0;
        while i < n
            invariant
                i <= n,
                random_shares@.len() == n,
                forall|k: int| 0 <= k < n ==> (#[trigger] random_shares@[k])@.len() == NUM_GATES,
                gate0@.len() == i,
                gate1@.len() == i,
                forall|k: int| 0 <= k < i ==> #[trigger] gate0@[k] == random_shares@[k]@[0],
                forall|k: int| 0 <= k < i ==> #[trigger] gate1@[k] == random_shares@[k]@[1],
            decreases n - i,
        {
            gate0.push(random_shares[i][0]);
            gate1.push(random_shares[i][1]);
            i = i + 1;
        }
        proof {
            assert(triple_vals(gate0@) =~= Seq::new(
                n as nat,
                |k: int| ((random_shares@[k]@[0]).0@, (random_shares@[k]@[0]).1@, (
                random_shares@[k]@[0]).2@),
            ));
            assert(triple_vals(gate1@) =~= Seq::new(
                n as nat,
                |k: int| ((random_shares@[k]@[1]).0@, (random_shares@[k]@[1]).1@, (
                random_shares@[k]@[1]).2@),
            ));
        }

        // Gate 0: x^2 = x * x.  Gate 1: x^3 = x^2 * x.
        let x2_shares = self.run_stage(0, &input_shares, &input_shares, &gate0);
        let x3_shares = self.run_stage(1, &x2_shares, &input_shares, &gate1);

        // The remaining terms are local linear combinations: no
        // communication.
        let mut output_shares: Vec<Scalar61> = Vec::new();
        let mut indexes: Vec<usize> = Vec::new();
        let mut i: usize = 0;
        while i < n
            invariant
                i <= n,
                x2_shares@.len() == n,
                x3_shares@.len() == n,
                input_shares@.len() == n,
                output_shares@.len() == i,
                indexes@.len() == i,
                forall|k: int|
                    0 <= k < i ==> #[trigger] output_shares@[k]@ == fadd(
                        fadd(fadd(x3_shares@[k]@, fmul(x2_shares@[k]@, 5)), fmul(
                            input_shares@[k]@,
                            3,
                        )),
                        2,
                    ),
                forall|k: int| 0 <= k < i ==> #[trigger] indexes@[k] == k + 1,
            decreases n - i,
        {
            let target = circuit_output_share(x3_shares[i], x2_shares[i], input_shares[i]);
            output_shares.push(target);
            indexes.push(i + 1);
            i = i + 1;
        }
        let ghost x_sh = values(input_shares@);
        let ghost tv0 = triple_vals(gate0@);
        let ghost tv1 = triple_vals(gate1@);
        proof {
            assert(values(x2_shares@) == mul_stage_outputs(x_sh, x_sh, tv0));
            assert(values(x3_shares@) == mul_stage_outputs(values(x2_shares@), x_sh, tv1));
            assert(values(output_shares@) =~= circuit_outputs(x_sh, tv0, tv1));
            assert(crate::secret_sharing::index_vals(indexes@) =~= eval_points(n as nat));
        }
        let result = Shamir::recover(output_shares, indexes, n, n);
        let mut out: Vec<Scalar61> = Vec::new();
        out.push(result);
        proof {
            assert(out@[0]@ == lagrange_zero(circuit_outputs(x_sh, tv0, tv1), eval_points(n as nat)));
        }
        out
    }
}

} // verus!
