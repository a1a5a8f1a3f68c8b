//! End-to-end delegated evaluation of the fixed circuit
//! `x^3 + 5x^2 + 3x + 2`.
use zkpd::delegator::{setup_random_shares, ExampleDelegator, NUM_GATES};
use zkpd::field::Scalar61;
use zkpd::secret_sharing::Shamir;
use zkpd::triple::TrustedDealer;
use zkpd::{BeaverTripleGeneratoor, Delegator, FiniteField, SecretSharing};

#[test]
fn delegated_cubic_on_three_parties() {
    let x = Scalar61::from_usize(100);
    let mut d = ExampleDelegator::new(3);
    let result = d.delegate(vec![x]);
    assert_eq!(result.len(), 1);
    assert_eq!(result[0], Scalar61::from_usize(1_050_302));
}

#[test]
fn delegated_result_matches_a_local_evaluation() {
    let x = Scalar61::from_usize(31);
    let expected = x.mul(&x).mul(&x).add(&x.mul(&x).mul(&Scalar61::from_usize(5))).add(
        &x.mul(&Scalar61::from_usize(3)),
    ).add(&Scalar61::from_usize(2));
    let mut d = ExampleDelegator::new(4);
    let result = d.delegate(vec![x]);
    assert_eq!(result, vec![expected]);
}

#[test]
fn delegation_works_for_a_cohort_of_one() {
    let x = Scalar61::from_usize(2);
    let mut d = ExampleDelegator::new(1);
    let result = d.delegate(vec![x]);
    assert_eq!(result, vec![Scalar61::from_usize(36)]);
}

#[test]
fn one_staged_round_multiplies_shared_values() {
    let n: usize = 2;
    let a = Scalar61::from_usize(12);
    let b = Scalar61::from_usize(34);
    let a_shares = Shamir::share(a, n, n);
    let b_shares = Shamir::share(b, n, n);
    let (alpha, beta, gamma) = TrustedDealer::generate();
    let alpha_shares = Shamir::share(alpha, n, n);
    let beta_shares = Shamir::share(beta, n, n);
    let gamma_shares = Shamir::share(gamma, n, n);
    let triples: Vec<(Scalar61, Scalar61, Scalar61)> = (0..n)
        .map(|i| (alpha_shares[i], beta_shares[i], gamma_shares[i]))
        .collect();

    let mut d = ExampleDelegator::new(n);
    let prod_shares = d.run_stage(0, &a_shares, &b_shares, &triples);
    let product = Shamir::recover(prod_shares, vec![1, 2], n, n);
    assert_eq!(product, a.mul(&b));
}

#[test]
fn setup_distributes_one_triple_share_list_per_worker() {
    let shares = setup_random_shares(3);
    assert_eq!(shares.len(), 3);
    for per_worker in shares.iter() {
        assert_eq!(per_worker.len(), NUM_GATES);
    }
}
