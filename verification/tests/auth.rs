use direct_computing::auth::{
    proof_for, proof_for_derivation, proof_for_password, proof_input, PasswordVerifier,
    Permissions,
};
use direct_computing::error::DcError;
use direct_computing::protocol::WireMessage;

#[test]
fn challenge_proof_authenticates_the_password() {
    let verifier = PasswordVerifier::from_password("correct horse").unwrap();
    let (nonce, _) = verifier.challenge();
    let proof = proof_for_password("correct horse", verifier.salt(), &nonce).unwrap();
    assert!(verifier.verify(&nonce, &proof));
    let wrong = proof_for_password("wrong", verifier.salt(), &nonce).unwrap();
    assert!(!verifier.verify(&nonce, &wrong));
}

const SALT: &str = "c29tZXNhbHRzb21lc2FsdA";

/// A well-formed verifier under the salt above.
fn encoded() -> String {
    "$argon2id$v=19$m=19456,t=2,p=1$c29tZXNhbHRzb21lc2FsdA$".to_owned()
        + "AAAAAAAAAAAAAAAAAAAAAAAAAAAAAAAAAAAAAAAAAAA"
}

#[test]
fn salts_of_verifiers_are_random_and_suitable() {
    let first = PasswordVerifier::from_password("password").unwrap();
    let second = PasswordVerifier::from_password("password").unwrap();
    assert_ne!(first.salt(), second.salt());
    assert_eq!(first.salt().len(), 22);
    let nonce = [7; 32];
    let proof = proof_for_password("password", first.salt(), &nonce).unwrap();
    assert!(first.verify(&nonce, &proof));
    assert!(!second.verify(&nonce, &proof));
    assert!(!first.verify(&[8; 32], &proof));
}

#[test]
fn nonces_are_random_and_sent_with_the_salt() {
    let verifier = PasswordVerifier::from_password("password").unwrap();
    let (first, message) = verifier.challenge();
    let (second, _) = verifier.challenge();
    assert_ne!(first, second);
    assert_eq!(
        message,
        WireMessage::Challenge {
            nonce: first,
            salt: verifier.salt().to_owned()
        }
    );
    assert_eq!(verifier.challenge_with(first), message);
}

#[test]
fn empty_passwords_are_refused() {
    assert!(matches!(
        PasswordVerifier::from_password(""),
        Err(DcError::InvalidInput(_))
    ));
}

#[test]
fn unsuitable_salts_are_refused() {
    let message = |salt: &str| {
        proof_for_password("password", salt, &[0; 32])
            .unwrap_err()
            .description()
    };
    assert_eq!(
        message("abc"),
        "invalid input: invalid challenge salt: salt invalid: value to short"
    );
    assert_eq!(
        message(&"a".repeat(65)),
        "invalid input: invalid challenge salt: salt invalid: value to long"
    );
    assert_eq!(
        message("abcd!"),
        "invalid input: invalid challenge salt: salt invalid: contains invalid character: '!'"
    );
    assert!(proof_for_password("password", SALT, &[0; 32]).is_ok());
}

#[test]
fn encoded_verifiers_are_checked() {
    let verifier = PasswordVerifier::from_encoded(encoded(), SALT.to_owned()).unwrap();
    assert_eq!(verifier.salt(), SALT);
    let nonce = [3; 32];
    assert!(verifier.verify(&nonce, &proof_for(&encoded(), &nonce)));
    assert!(PasswordVerifier::from_encoded("not a verifier".to_owned(), SALT.to_owned()).is_err());
    assert!(PasswordVerifier::from_checked(
        Some("damaged".to_owned()),
        encoded(),
        SALT.to_owned()
    )
    .is_err());
    assert!(PasswordVerifier::from_derivation(Err("no".to_owned()), SALT.to_owned()).is_err());
}

#[test]
fn proofs_digest_the_verifier_and_the_nonce() {
    let mut expected = b"abc".to_vec();
    expected.extend([9; 32]);
    assert_eq!(proof_input("abc", &[9; 32]), expected);
    assert_eq!(
        proof_for_derivation(Ok("abc".to_owned()), &[9; 32]).unwrap(),
        proof_for("abc", &[9; 32])
    );
    assert_eq!(
        proof_for_derivation(Err("broken".to_owned()), &[9; 32])
            .unwrap_err()
            .description(),
        "codec error: derive challenge verifier: broken"
    );
    // The digest of the nonce alone: 32 zero bytes.
    assert_eq!(
        proof_for("", &[0; 32])[..4],
        [0x66, 0x68, 0x7a, 0xad]
    );
}

#[test]
fn permissions_become_capabilities() {
    let viewer = Permissions::desktop_viewer();
    assert!(viewer.view_desktop);
    let capabilities = viewer.to_capabilities();
    assert!(capabilities.desktop);
    assert!(!capabilities.file_transfer);
    assert_eq!(Permissions::empty(), Permissions::default());
}
