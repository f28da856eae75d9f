use direct_computing::protocol::WireMessage;
use direct_computing::transport::fingerprint::certificate_fingerprint;
use direct_computing::transport::framing::{frame_length, frame_message, unframe_message};
use direct_computing::transport::state::PinningPolicy;
use direct_computing::transport::{format_fingerprint, parse_fingerprint, CertificatePinStore};

#[test]
fn certificate_pin_store_requires_confirmation_for_new_hosts() {
    let mut store = CertificatePinStore::load("").unwrap();
    let fingerprint = [0xabu8; 32];
    assert!(store
        .verify_or_record("127.0.0.1:22100", fingerprint, false)
        .is_err());
    assert!(store
        .verify_or_record("127.0.0.1:22100", fingerprint, true)
        .unwrap());
    let loaded = CertificatePinStore::load(&store.file_text()).unwrap();
    assert_eq!(loaded.fingerprint("127.0.0.1:22100"), Some(fingerprint));
    assert!(loaded
        .clone()
        .verify_or_record("127.0.0.1:22100", [0x11; 32], false)
        .is_err());
}

#[test]
fn fingerprint_format_is_stable() {
    let value = [0xabu8; 32];
    assert_eq!(format_fingerprint(value).len(), 64);
    assert_eq!(
        parse_fingerprint(&format_fingerprint(value)).unwrap(),
        value
    );
}

#[test]
fn fingerprints_are_digests_in_hex() {
    let text = format_fingerprint(certificate_fingerprint(b"abc"));
    assert_eq!(
        text,
        "ba7816bf8f01cfea414140de5dae2223b00361a396177a9cb410ff61f20015ad"
    );
    assert_eq!(
        parse_fingerprint(&text.to_uppercase()).unwrap(),
        certificate_fingerprint(b"abc")
    );
}

#[test]
fn faulty_fingerprints_are_refused() {
    let message = |text: &str| parse_fingerprint(text).unwrap_err().description();
    assert_eq!(
        message("ab"),
        "invalid input: certificate fingerprint must contain 64 hex characters"
    );
    assert_eq!(
        message(&"g".repeat(64)),
        "invalid input: certificate fingerprint is not valid hex"
    );
    assert!(parse_fingerprint(&"\u{e9}".repeat(32)).is_err());
    assert_eq!(
        message(&"+a".repeat(32)),
        "invalid input: certificate fingerprint is not valid hex"
    );
}

#[test]
fn pins_survive_their_file() {
    let mut store = CertificatePinStore::load("").unwrap();
    assert!(store.verify_or_record("b:1", [2; 32], true).unwrap());
    assert!(store.verify_or_record("a:1", [1; 32], true).unwrap());
    assert!(!store.verify_or_record("a:1", [1; 32], false).unwrap());
    let text = store.file_text();
    let endpoints: Vec<_> = text
        .lines()
        .map(|line| line.split_whitespace().next().unwrap())
        .collect();
    assert_eq!(endpoints, ["a:1", "b:1"]);
    let loaded = CertificatePinStore::load(&text).unwrap();
    assert_eq!(loaded.fingerprint("a:1"), Some([1; 32]));
    assert_eq!(loaded.fingerprint("b:1"), Some([2; 32]));
    assert_eq!(loaded.fingerprint("c:1"), None);
    assert_eq!(loaded.file_text(), text);
}

#[test]
fn pin_failures_name_the_endpoint_or_the_line() {
    let mut store = CertificatePinStore::load("").unwrap();
    let untrusted = store.verify_or_record("a:1", [0xab; 32], false).unwrap_err();
    assert_eq!(
        untrusted.description(),
        format!(
            "invalid input: untrusted new certificate for a:1; fingerprint={}",
            "ab".repeat(32)
        )
    );
    store.verify_or_record("a:1", [0xab; 32], true).unwrap();
    assert_eq!(
        store
            .verify_or_record("a:1", [0xac; 32], true)
            .unwrap_err()
            .description(),
        "invalid input: certificate fingerprint changed for a:1"
    );
    assert!(CertificatePinStore::load("one-word\n").is_err());
}

#[test]
fn pinned_policies_see_only_their_pin() {
    let mut pinned = PinningPolicy::pinned(certificate_fingerprint(b"right"));
    assert_eq!(
        pinned.verify_server_cert(b"wrong").unwrap_err(),
        "server certificate fingerprint mismatch"
    );
    assert_eq!(pinned.server_certificate_fingerprint(), None);
    assert!(pinned.verify_server_cert(b"right").is_ok());
    assert_eq!(
        pinned.server_certificate_fingerprint(),
        Some(certificate_fingerprint(b"right"))
    );
    for mut policy in [PinningPolicy::accept_any(), PinningPolicy::tofu()] {
        assert!(policy.verify_server_cert(b"any").is_ok());
        assert_eq!(
            policy.server_certificate_fingerprint(),
            Some(certificate_fingerprint(b"any"))
        );
    }
}

#[test]
fn frames_read_back() {
    let message = WireMessage::Rejected {
        reason: "no".to_owned(),
    };
    let frame = frame_message(&message).unwrap();
    let prefix: [u8; 4] = frame[..4].try_into().unwrap();
    let length = frame_length(&prefix).unwrap();
    assert_eq!(length, frame.len() - 4);
    assert_eq!(unframe_message(&frame[4..]).unwrap(), message);
    for prefix in [[0; 4], [0xff; 4]] {
        assert_eq!(
            frame_length(&prefix).unwrap_err().description(),
            "codec error: invalid QUIC message length"
        );
    }
}
