use license_ledger::contracts::{Contract, PrivateKey, PublicKey, UserId};
use license_ledger::digest::{Digest, Hashable};
use license_ledger::license::{
    LicenseCreation, LicenseId, LicenseTransfer, UnsignedLicenseCreation, UnsignedLicenseTransfer,
};
use license_ledger::serialize::Serializable;
use license_ledger::transaction::Transaction;

fn compare_deserialization<T: Serializable + Eq>(value: T) {
    let string = value.serialize();
    let deserialized = T::deserialize(string);
    assert!(deserialized == Some(value));
}

/// For types without `==`: the decoded value has the same text and the same digest.
fn compare_by_text<T: Serializable + Hashable>(value: T) {
    let string = value.serialize();
    let deserialized = T::deserialize(string.clone()).expect("decodes");
    assert_eq!(deserialized.serialize(), string);
    assert!(deserialized.hash() == value.hash());
}

fn dummy_unsigned_creation() -> UnsignedLicenseCreation {
    UnsignedLicenseCreation { seed: 123 }
}

fn dummy_unsigned_transfer() -> UnsignedLicenseTransfer {
    let license: LicenseId = 123u64.hash().cast();
    let recipient: UserId = 321u64.hash().cast();
    UnsignedLicenseTransfer { license, recipient }
}

#[test]
fn serialize_u64() {
    let value: u64 = 123;
    compare_deserialization(value);
}

#[test]
fn serialize_u128() {
    let value: u128 = 123;
    compare_deserialization(value);
}

#[test]
fn serialize_hash() {
    let number: u128 = 123;
    let value: Digest<u128> = number.hash();
    compare_deserialization(value);
}

#[test]
fn serialize_contract() {
    let private = PrivateKey::generate();
    let contract: Contract<u64> = private.sign(123);
    let decoded = Contract::<u64>::deserialize(contract.serialize()).expect("decodes");
    assert!(decoded.signee == contract.signee);
    assert_eq!(decoded.signature, contract.signature);
    assert_eq!(decoded.timestamp, contract.timestamp);
    assert_eq!(decoded.content, contract.content);
    assert!(decoded.verify());
}

#[test]
fn serialize_unsigned_creation() {
    let creation = dummy_unsigned_creation();
    compare_deserialization(creation);
}

#[test]
fn serialize_unsigned_transfer() {
    let transfer = dummy_unsigned_transfer();
    let decoded = UnsignedLicenseTransfer::deserialize(transfer.serialize()).expect("decodes");
    assert!(decoded.license == transfer.license);
    assert!(decoded.recipient == transfer.recipient);
}

#[test]
fn serialize_creation() {
    let private = PrivateKey::generate();
    let unsigned_creation = dummy_unsigned_creation();
    let creation: LicenseCreation = private.sign(unsigned_creation);
    compare_by_text(creation);
}

#[test]
fn serialize_transfer() {
    let private = PrivateKey::generate();
    let unsigned_transfer = dummy_unsigned_transfer();
    let transfer: LicenseTransfer = private.sign(unsigned_transfer);
    compare_by_text(transfer);
}

#[test]
fn serialize_transaction() {
    let private = PrivateKey::generate();
    let unsigned_creation = dummy_unsigned_creation();
    let unsigned_transfer = dummy_unsigned_transfer();

    let creation = Transaction::LicenseCreation(private.sign(unsigned_creation));
    let transfer = Transaction::LicenseTransfer(private.sign(unsigned_transfer));

    let text = creation.serialize();
    match Transaction::deserialize(text.clone()) {
        Some(Transaction::LicenseCreation(c)) => assert_eq!(c.serialize(), text),
        _ => panic!("creation did not come back"),
    }
    let text = transfer.serialize();
    match Transaction::deserialize(text.clone()) {
        Some(Transaction::LicenseTransfer(t)) => assert_eq!(t.serialize(), text),
        _ => panic!("transfer did not come back"),
    }
}

#[test]
fn u64_text_is_base58_of_big_endian_bytes() {
    assert_eq!(123u64.serialize(), "111111138");
    assert_eq!(u64::deserialize("111111138".to_string()), Some(123));
    assert_eq!(0u64.serialize(), "11111111");
}

#[test]
fn u128_text_has_sixteen_bytes() {
    assert_eq!(123u128.serialize(), "11111111111111138");
    assert_eq!(u128::deserialize("11111111111111138".to_string()), Some(123));
}

#[test]
fn bytes_round_trip_and_empty() {
    compare_deserialization(vec![0u8, 1, 2, 255]);
    compare_deserialization(Vec::<u8>::new());
    assert_eq!(vec![0u8, 0, 1].serialize(), "112");
}

#[test]
fn wrong_width_is_rejected() {
    assert_eq!(u64::deserialize(123u128.serialize()), None);
    assert_eq!(u128::deserialize(123u64.serialize()), None);
    assert!(Digest::<u64>::deserialize(123u64.serialize()).is_none());
}

#[test]
fn bad_alphabet_is_rejected() {
    assert_eq!(u64::deserialize("0OIl".to_string()), None);
    assert_eq!(Vec::<u8>::deserialize("abc def".to_string()), None);
    assert!(PublicKey::deserialize("111".to_string()).is_none());
}

#[test]
fn creation_text_has_tag() {
    assert_eq!(dummy_unsigned_creation().serialize(), "CRT 111111138");
    let spaced = UnsignedLicenseCreation::deserialize("  CRT \t 111111138 ".to_string());
    assert!(spaced == Some(dummy_unsigned_creation()));
    assert!(UnsignedLicenseCreation::deserialize("TSF 111111138".to_string()).is_none());
    assert!(UnsignedLicenseCreation::deserialize("CRT".to_string()).is_none());
}

#[test]
fn transfer_text_has_tag() {
    let text = dummy_unsigned_transfer().serialize();
    assert!(text.starts_with("TSF "));
    assert!(UnsignedLicenseCreation::deserialize(text.clone()).is_none());
    let untagged = text.replacen("TSF", "CRT", 1);
    assert!(UnsignedLicenseTransfer::deserialize(untagged).is_none());
}

#[test]
fn malformed_transaction_is_rejected() {
    let private = PrivateKey::generate();
    let creation = private.sign(dummy_unsigned_creation()).serialize();
    let bad = creation.replace(" CRT ", " XYZ ");
    assert!(LicenseCreation::deserialize(bad.clone()).is_none());
    assert!(LicenseTransfer::deserialize(bad.clone()).is_none());
    assert!(Transaction::deserialize(bad).is_none());
    assert!(Transaction::deserialize("not a transaction".to_string()).is_none());
    assert!(Transaction::deserialize(String::new()).is_none());
}

#[test]
fn contract_with_missing_field_is_rejected() {
    let private = PrivateKey::generate();
    let contract: Contract<u64> = private.sign_at(9, 3);
    let text = contract.serialize();
    let words: Vec<&str> = text.split(' ').collect();
    let short = words[..3].join(" ");
    assert!(Contract::<u64>::deserialize(short).is_none());
}
