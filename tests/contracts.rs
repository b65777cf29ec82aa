use license_ledger::contracts::{Contract, PrivateKey};
use license_ledger::digest::Hashable;
use license_ledger::license::{license_id, UnsignedLicenseCreation};

#[test]
fn test_correct_contract() {
    let private = PrivateKey::generate();
    let message: u64 = 123;

    let contract = private.sign(message);

    assert!(contract.verify());
}

#[test]
fn test_tampered_content() {
    let private = PrivateKey::generate();
    let message: u64 = 123;
    let mut contract = private.sign(message);

    contract.content = 321;

    assert!(!contract.verify());
}

#[test]
fn test_tampered_signee() {
    let private = PrivateKey::generate();
    let message: u64 = 123;
    let mut contract = private.sign(message);

    contract.signee = PrivateKey::generate().get_public();

    assert!(!contract.verify());
}

#[test]
fn signed_creation_verifies() {
    let private = PrivateKey::generate();
    let contract = private.sign(UnsignedLicenseCreation { seed: 7 });
    assert!(contract.verify());
    assert!(contract.signee == private.get_public());
}

#[test]
fn tampered_timestamp_fails() {
    let private = PrivateKey::generate();
    let mut contract: Contract<u64> = private.sign_at(123, 5);
    assert!(contract.verify());
    contract.timestamp = 6;
    assert!(!contract.verify());
}

#[test]
fn tampered_signature_fails() {
    let private = PrivateKey::generate();
    let mut contract: Contract<u64> = private.sign_at(123, 5);
    assert_eq!(contract.signature().len(), 64);
    contract.signature[0] ^= 1;
    assert!(!contract.verify());
}

#[test]
fn license_id_depends_on_signer() {
    let a = PrivateKey::generate().sign_at(UnsignedLicenseCreation { seed: 1 }, 10);
    let b = PrivateKey::generate().sign_at(UnsignedLicenseCreation { seed: 1 }, 10);
    assert!(license_id(&a) != license_id(&b));
    assert!(license_id(&a) == a.hash());
    let seed_digest = UnsignedLicenseCreation { seed: 1 }.hash();
    assert!(license_id(&a).get_bytes() != seed_digest.get_bytes());
}

#[test]
fn license_id_depends_on_timestamp() {
    let private = PrivateKey::generate();
    let a = private.sign_at(UnsignedLicenseCreation { seed: 1 }, 10);
    let b = private.sign_at(UnsignedLicenseCreation { seed: 1 }, 11);
    assert!(license_id(&a) != license_id(&b));
}

#[test]
fn public_key_digest_is_stable() {
    let private = PrivateKey::generate();
    assert!(private.get_public().hash() == private.get_public().hash());
    assert_eq!(private.get_public().hash().get_bytes().len(), 32);
}
