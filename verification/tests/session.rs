use direct_computing::auth::{PasswordVerifier, Permissions};
use direct_computing::error::DcError;
use direct_computing::protocol::{Capabilities, Hello, ProtocolVersion, WireMessage};
use direct_computing::session::handshake::{
    accept_greeting, accept_verdict, answer_challenge, greet, judge_answer,
};

fn desktop_only() -> Capabilities {
    Capabilities {
        desktop: true,
        hybrid_video: true,
        ..Capabilities::default()
    }
}

#[test]
fn greetings_announce_capabilities() {
    let message = greet(desktop_only());
    assert_eq!(
        accept_greeting(&message).expect("same version"),
        desktop_only()
    );
}

#[test]
fn another_major_version_is_refused() {
    let message = WireMessage::Hello(Hello {
        protocol_version: ProtocolVersion { major: 9, minor: 1 },
        capabilities: desktop_only(),
    });
    assert!(matches!(
        accept_greeting(&message),
        Err(DcError::Unsupported(text)) if text == "protocol version 9.1 (expected major 2)"
    ));
    assert!(matches!(
        accept_greeting(&WireMessage::OpenDesktop),
        Err(DcError::Codec(text)) if text == "expected hello message"
    ));
}

#[test]
fn right_password_is_admitted_and_wrong_one_refused() {
    let verifier = PasswordVerifier::from_password("correct horse").expect("verifier");
    let permissions = Permissions::desktop_viewer();
    let (nonce, challenge) = verifier.challenge();
    let reply = answer_challenge("correct horse", &challenge).expect("answer");
    let verdict = judge_answer(&verifier, &nonce, permissions, &reply).expect("verdict");
    assert_eq!(accept_verdict(verdict).expect("admitted"), permissions);

    let reply = answer_challenge("battery staple", &challenge).expect("answer");
    let verdict = judge_answer(&verifier, &nonce, permissions, &reply).expect("verdict");
    assert!(matches!(
        accept_verdict(verdict),
        Err(DcError::InvalidInput(text)) if text == "authentication failed"
    ));
}

#[test]
fn unexpected_handshake_messages_are_refused() {
    let verifier = PasswordVerifier::from_password("secret").expect("verifier");
    assert!(matches!(
        answer_challenge("secret", &WireMessage::Close),
        Err(DcError::Codec(text)) if text == "expected challenge message"
    ));
    assert!(matches!(
        judge_answer(&verifier, &[0; 32], Permissions::empty(), &WireMessage::Close),
        Err(DcError::Codec(text)) if text == "expected authenticate message"
    ));
    assert!(matches!(
        accept_verdict(WireMessage::Close),
        Err(DcError::Codec(text)) if text == "expected authentication result message"
    ));
}
