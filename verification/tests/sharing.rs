//! The secret-sharing round trip and its basic shape.
use zkpd::field::Scalar61;
use zkpd::secret_sharing::Shamir;
use zkpd::{FiniteField, SecretSharing};

#[test]
fn share_then_recover_round_trip() {
    let secret = Scalar61::from_usize(123_456_789);
    let shares = Shamir::share(secret, 3, 3);
    let recovered = Shamir::recover(shares, vec![1, 2, 3], 3, 3);
    assert_eq!(recovered, secret);
}

#[test]
fn share_then_recover_five_parties() {
    let secret = Scalar61::from_usize(42);
    let shares = Shamir::share(secret, 5, 5);
    let recovered = Shamir::recover(shares, vec![1, 2, 3, 4, 5], 5, 5);
    assert_eq!(recovered, secret);
}

#[test]
fn share_then_recover_one_party() {
    let secret = Scalar61::from_usize(9);
    let shares = Shamir::share(secret, 1, 1);
    let recovered = Shamir::recover(shares, vec![1], 1, 1);
    assert_eq!(recovered, secret);
}

#[test]
fn share_returns_one_share_per_party() {
    let secret = Scalar61::from_usize(5);
    assert_eq!(Shamir::share(secret, 4, 4).len(), 4);
}

#[test]
fn recover_is_order_independent() {
    let secret = Scalar61::from_usize(777);
    let shares = Shamir::share(secret, 3, 3);
    let permuted = vec![shares[2], shares[0], shares[1]];
    let recovered = Shamir::recover(permuted, vec![3, 1, 2], 3, 3);
    assert_eq!(recovered, secret);
}

#[test]
fn shares_are_masked_by_randomness() {
    // With t >= 2 a share is the secret plus a random multiple of the
    // evaluation point, so across repeated sharings the first share almost
    // surely takes a value other than the secret itself.
    let secret = Scalar61::zero();
    let mut saw_masked = false;
    for _ in 0..64 {
        let shares = Shamir::share(secret, 2, 2);
        if shares[0] != secret {
            saw_masked = true;
        }
    }
    assert!(saw_masked);
}

#[test]
fn distinct_secrets_give_distinct_reconstructions() {
    let s1 = Scalar61::from_usize(1);
    let s2 = Scalar61::from_usize(2);
    let r1 = Shamir::recover(Shamir::share(s1, 3, 3), vec![1, 2, 3], 3, 3);
    let r2 = Shamir::recover(Shamir::share(s2, 3, 3), vec![1, 2, 3], 3, 3);
    assert_ne!(r1, r2);
}
