//! The stage store's append-only discipline, the broadcast wait, and the
//! Beaver multiplication sub-protocol.
use zkpd::field::Scalar61;
use zkpd::secret_sharing::Shamir;
use zkpd::triple::TrustedDealer;
use zkpd::worker::{ExampleWorker, ProtocolError};
use zkpd::{BeaverTripleGeneratoor, FiniteField, SecretSharing};

fn pair(a: usize, b: usize) -> (Scalar61, Scalar61) {
    (Scalar61::from_usize(a), Scalar61::from_usize(b))
}

#[test]
fn stages_insert_in_order() {
    let mut w = ExampleWorker::new(2, 3);
    assert!(w.insert_share(0, 1, pair(1, 2)).is_ok());
    assert!(w.insert_share(1, 1, pair(3, 4)).is_ok());
    assert_eq!(w.stage_count(), 2);
}

#[test]
fn skipping_a_stage_is_an_invalid_stage_fault() {
    let mut w = ExampleWorker::new(1, 3);
    assert!(w.insert_share(0, 1, pair(1, 2)).is_ok());
    assert_eq!(w.insert_share(2, 1, pair(3, 4)), Err(ProtocolError::InvalidStage));
    assert_eq!(w.stage_count(), 1);
}

#[test]
fn existing_stages_can_be_updated() {
    let mut w = ExampleWorker::new(1, 3);
    assert!(w.insert_share(0, 1, pair(1, 2)).is_ok());
    assert!(w.insert_share(1, 1, pair(3, 4)).is_ok());
    assert!(w.insert_share(0, 2, pair(5, 6)).is_ok());
    assert_eq!(w.get_share(0, 2), Some(pair(5, 6)));
}

#[test]
fn get_share_reports_presence() {
    let mut w = ExampleWorker::new(1, 3);
    w.insert_share(0, 2, pair(8, 9)).unwrap();
    assert_eq!(w.get_share(0, 2), Some(pair(8, 9)));
    assert_eq!(w.get_share(0, 3), None);
    assert_eq!(w.get_share(5, 1), None);
}

#[test]
fn wait_for_broadcast_needs_every_party() {
    let mut w = ExampleWorker::new(1, 3);
    w.broadcast(pair(1, 2), 0).unwrap();
    assert!(w.wait_for_broadcast(0).is_none());
    w.insert_share(0, 2, pair(3, 4)).unwrap();
    assert!(w.wait_for_broadcast(0).is_none());
    w.insert_share(0, 3, pair(5, 6)).unwrap();
    assert!(w.wait_for_broadcast(0).is_some());
}

#[test]
fn broadcast_records_under_own_index() {
    let mut w = ExampleWorker::new(2, 3);
    w.broadcast(pair(7, 8), 0).unwrap();
    assert_eq!(w.get_share(0, 2), Some(pair(7, 8)));
    assert_eq!(w.get_share(0, 1), None);
}

#[test]
fn generated_triples_satisfy_gamma_is_alpha_times_beta() {
    for _ in 0..8 {
        let (alpha, beta, gamma) = TrustedDealer::generate();
        assert_eq!(gamma, alpha.mul(&beta));
    }
}

#[test]
fn beaver_multiplication_reconstructs_the_product() {
    let n: usize = 3;
    let a = Scalar61::from_usize(6);
    let b = Scalar61::from_usize(7);
    let a_shares = Shamir::share(a, n, n);
    let b_shares = Shamir::share(b, n, n);
    let (alpha, beta, gamma) = TrustedDealer::generate();
    let alpha_shares = Shamir::share(alpha, n, n);
    let beta_shares = Shamir::share(beta, n, n);
    let gamma_shares = Shamir::share(gamma, n, n);

    // Every party's masked pair, as its broadcast would carry it.
    let mut pairs = Vec::new();
    for i in 0..n {
        pairs.push((a_shares[i].sub(&alpha_shares[i]), b_shares[i].sub(&beta_shares[i])));
    }

    let mut c_shares = Vec::new();
    for i in 0..n {
        let mut w = ExampleWorker::new(i + 1, n);
        for j in 0..n {
            if j != i {
                w.insert_share(0, j + 1, pairs[j]).unwrap();
            }
        }
        let triple_i = (alpha_shares[i], beta_shares[i], gamma_shares[i]);
        let c = w.multiply(0, a_shares[i], b_shares[i], &triple_i);
        c_shares.push(c.expect("stage is complete once the last pair is in"));
    }

    let product = Shamir::recover(c_shares, vec![1, 2, 3], n, n);
    assert_eq!(product, a.mul(&b));
}

#[test]
fn multiply_withholds_its_share_while_a_peer_is_missing() {
    let n: usize = 2;
    let mut w = ExampleWorker::new(1, n);
    let triple = (Scalar61::from_usize(1), Scalar61::from_usize(2), Scalar61::from_usize(2));
    let c = w.multiply(0, Scalar61::from_usize(5), Scalar61::from_usize(4), &triple);
    assert!(c.is_none());
}
