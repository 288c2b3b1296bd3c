use blockchain::error::{
    GetLastBlockHashError, ValidateTransactionPreviousBlockHashError,
    ValidateTransactionRecipientError, ValidateTransactionSenderSignatureError,
    ValidateUserSignatureError,
};
use blockchain::transaction::Transaction;
use blockchain::user::User;
use sha2::Digest;
use base58::FromBase58;

#[test]
fn transaction_test_sign() {
    let user = User::generate();
    let mut transaction = Transaction::new(user.address(), "recipient", 50, "");
    transaction.sign(&user).unwrap();
    transaction.validate_sender_signature().unwrap();
}

#[test]
fn amount_threshold() {
    let nine = Transaction::new("a", "b", 9, "");
    assert_eq!(nine.amount_to_storage(), 0);
    let ten = Transaction::new("a", "b", 10, "");
    assert_eq!(ten.amount_to_storage(), 1);
    assert_eq!(Transaction::new("a", "b", 1, "").amount_to_storage(), 0);
    assert_eq!(Transaction::new("a", "b", u64::MAX, "").amount_to_storage(), 1);
}

#[test]
fn new_transaction_is_unsigned_and_has_a_fresh_random_string() {
    let first = Transaction::new("sender", "recipient", 5, "hash");
    let second = Transaction::new("sender", "recipient", 5, "hash");
    assert_eq!(first.sender(), "sender");
    assert_eq!(first.recipient(), "recipient");
    assert_eq!(first.amount(), 5);
    assert_eq!(first.previous_block_hash(), "hash");
    assert_eq!(first.sender_signature(), None);
    assert_ne!(first.random_string(), second.random_string());
    assert_eq!(first.random_string().from_base58().unwrap().len(), 32);
}

#[test]
fn body_json_is_what_serde_json_writes_for_the_sorted_object() {
    let transaction = Transaction::from_parts(
        "se\"nd\\er".to_owned(),
        "recipient \u{1F600} \n".to_owned(),
        50,
        1,
        "00ab".to_owned(),
        "random".to_owned(),
        Some("signature".to_owned()),
    )
    .unwrap();
    let mut object = serde_json::Map::new();
    object.insert("sender".to_owned(), serde_json::Value::from("se\"nd\\er"));
    object.insert("recipient".to_owned(), serde_json::Value::from("recipient \u{1F600} \n"));
    object.insert("amount".to_owned(), serde_json::Value::from(50u64));
    object.insert("amount_to_storage".to_owned(), serde_json::Value::from(1u64));
    object.insert("previous_block_hash".to_owned(), serde_json::Value::from("00ab"));
    object.insert("random_string".to_owned(), serde_json::Value::from("random"));
    assert_eq!(transaction.body_json(), serde_json::Value::Object(object).to_string());
}

#[test]
fn body_json_exact_text() {
    let transaction = Transaction::from_parts(
        "alice".to_owned(),
        "bob".to_owned(),
        15,
        1,
        "prev".to_owned(),
        "rnd".to_owned(),
        None,
    )
    .unwrap();
    assert_eq!(
        transaction.body_json(),
        "{\"amount\":15,\"amount_to_storage\":1,\"previous_block_hash\":\"prev\",\
         \"random_string\":\"rnd\",\"recipient\":\"bob\",\"sender\":\"alice\"}"
    );
    assert_eq!(
        transaction.to_json(),
        "{\"sender\":\"alice\",\"recipient\":\"bob\",\"amount\":15,\"amount_to_storage\":1,\
         \"previous_block_hash\":\"prev\",\"random_string\":\"rnd\",\"sender_signature\":null}"
    );
}

#[test]
fn hash_is_sha256_of_the_body_in_hex() {
    let transaction = Transaction::new("a", "b", 12, "c");
    let expected = hex::encode(sha2::Sha256::digest(transaction.body_json().as_bytes()));
    assert_eq!(transaction.compute_hash(), expected);
    assert_eq!(expected.len(), 64);
}

#[test]
fn hash_does_not_depend_on_the_signature() {
    let user = User::generate();
    let mut transaction = Transaction::new(user.address(), "recipient", 50, "");
    let before = transaction.compute_hash();
    transaction.sign(&user).unwrap();
    assert!(transaction.sender_signature().is_some());
    assert_eq!(transaction.compute_hash(), before);
}

#[test]
fn from_parts_refuses_the_amount_zero() {
    assert!(Transaction::from_parts(
        "a".to_owned(),
        "b".to_owned(),
        0,
        0,
        "".to_owned(),
        "r".to_owned(),
        None
    )
    .is_none());
}

#[test]
fn recipient_must_not_be_the_storage() {
    let to_storage = Transaction::new("a", "STORAGE", 5, "");
    assert_eq!(to_storage.validate_recipient(), Err(ValidateTransactionRecipientError::IsStorage));
    assert_eq!(Transaction::new("a", "STORAGE ", 5, "").validate_recipient(), Ok(()));
    assert_eq!(Transaction::new("STORAGE", "a", 5, "").validate_recipient(), Ok(()));
}

#[test]
fn sender_signature_rules() {
    let user = User::generate();
    let unsigned = Transaction::new(user.address(), "recipient", 5, "");
    assert_eq!(
        unsigned.validate_sender_signature(),
        Err(ValidateTransactionSenderSignatureError::IsEmpty)
    );
    // The storage's transactions carry no signature.
    let from_storage = Transaction::new("STORAGE", "recipient", 1, "");
    assert_eq!(from_storage.validate_sender_signature(), Ok(()));
    // Signed by another user than the sender.
    let other = User::generate();
    let mut forged = Transaction::new(user.address(), "recipient", 5, "");
    forged.sign(&other).unwrap();
    assert_eq!(
        forged.validate_sender_signature(),
        Err(ValidateTransactionSenderSignatureError::Validate(
            ValidateUserSignatureError::AddressesNotEquals
        ))
    );
}

#[test]
fn tampering_with_a_signed_transaction_is_found() {
    let user = User::generate();
    let mut signed = Transaction::new(user.address(), "recipient", 50, "");
    signed.sign(&user).unwrap();
    let tampered = Transaction::from_parts(
        signed.sender().to_owned(),
        "recipienu".to_owned(),
        signed.amount(),
        signed.amount_to_storage(),
        signed.previous_block_hash().to_owned(),
        signed.random_string().to_owned(),
        signed.sender_signature().map(str::to_owned),
    )
    .unwrap();
    assert!(matches!(
        tampered.validate_sender_signature(),
        Err(ValidateTransactionSenderSignatureError::Validate(_))
    ));
    let same = Transaction::from_parts(
        signed.sender().to_owned(),
        signed.recipient().to_owned(),
        signed.amount(),
        signed.amount_to_storage(),
        signed.previous_block_hash().to_owned(),
        signed.random_string().to_owned(),
        signed.sender_signature().map(str::to_owned),
    )
    .unwrap();
    assert_eq!(same.validate_sender_signature(), Ok(()));
    assert_eq!(same.compute_hash(), signed.compute_hash());
}

#[test]
fn previous_block_hash_must_be_the_last() {
    let transaction = Transaction::new("a", "b", 1, "the hash");
    assert_eq!(transaction.validate_previous_block_hash_with(&Ok("the hash".to_owned())), Ok(()));
    assert_eq!(
        transaction.validate_previous_block_hash_with(&Ok("another".to_owned())),
        Err(ValidateTransactionPreviousBlockHashError::HashesNotEquals)
    );
    assert_eq!(
        transaction.validate_previous_block_hash_with(&Err(GetLastBlockHashError::NoBlocks)),
        Err(ValidateTransactionPreviousBlockHashError::GetLastBlockHash(
            GetLastBlockHashError::NoBlocks
        ))
    );
    let empty = blockchain::blockchain::Blockchain::new(User::generate());
    assert_eq!(
        transaction.validate_previous_block_hash(&empty),
        Err(ValidateTransactionPreviousBlockHashError::GetLastBlockHash(
            GetLastBlockHashError::NoBlocks
        ))
    );
    // The recipient is looked at first, the signature second, the hash last.
    let from_storage = Transaction::new("STORAGE", "b", 1, "the hash");
    assert_eq!(
        from_storage.validate_integrity_with(&Ok("the hash".to_owned())),
        Ok(())
    );
    assert!(matches!(
        from_storage.validate_integrity(&empty),
        Err(blockchain::error::ValidateTransactionIntegrityError::PreviousBlockHash(_))
    ));
    let to_storage = Transaction::new("a", "STORAGE", 1, "x");
    assert!(matches!(
        to_storage.validate_integrity(&empty),
        Err(blockchain::error::ValidateTransactionIntegrityError::Recipient(_))
    ));
    assert!(matches!(
        transaction.validate_integrity(&empty),
        Err(blockchain::error::ValidateTransactionIntegrityError::SenderSignature(_))
    ));
}
