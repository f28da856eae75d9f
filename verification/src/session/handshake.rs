//! The messages that open a session: both ends greet each other, then the viewer proves that it
//! knows the password.
use crate::auth::{
    granted, password_proof, proof_for_password, PasswordVerifier, Permissions, VerifierView,
};
use crate::digest::sha256;
use crate::error::{DcError, DcErrorView};
use crate::protocol::types::{this_version, unsupported_version, MessageView};
use crate::protocol::{validate_version, Capabilities, Hello, ProtocolVersion, WireMessage};
use crate::text::owned;
use vstd::prelude::*;
use vstd::utf8::encode_utf8;

verus! {

/// The greeting of an end with the given capabilities.
pub open spec fn greeting(capabilities: Capabilities) -> MessageView {
    MessageView::Hello(Hello { protocol_version: this_version(), capabilities })
}

/// The message that each end sends first.
pub fn greet(capabilities: Capabilities) -> (message: WireMessage)
    ensures
        message@ == greeting(capabilities),
{
    WireMessage::Hello(Hello { protocol_version: ProtocolVersion::current(), capabilities })
}

/// The capabilities that a peer announces, unless it speaks another protocol.
pub open spec fn announced(message: MessageView) -> Result<Capabilities, DcErrorView> {
    match message {
        MessageView::Hello(peer) => if this_version().compatible(peer.protocol_version) {
            Ok(peer.capabilities)
        } else {
            Err(unsupported_version(peer.protocol_version))
        },
        _ => Err(DcErrorView::Codec("expected hello message"@)),
    }
}

/// Takes the greeting of the peer.
pub fn accept_greeting(message: &WireMessage) -> (result: Result<Capabilities, DcError>)
    ensures
        match result {
            Ok(capabilities) => announced(message@) == Ok::<Capabilities, DcErrorView>(
                capabilities,
            ),
            Err(error) => announced(message@) == Err::<Capabilities, DcErrorView>(error@),
        },
{
    match message {
        WireMessage::Hello(peer) => {
            validate_version(peer.protocol_version)?;
            Ok(peer.capabilities)
        },
        _ => Err(DcError::codec("expected hello message")),
    }
}

/// What a viewer that was given a password answers to a challenge.
pub open spec fn answer(password: Seq<char>, message: MessageView) -> Result<
    MessageView,
    DcErrorView,
> {
    match message {
        MessageView::Challenge { nonce, salt } => match password_proof(password, salt, nonce) {
            Ok(proof_bytes) => Ok(MessageView::Authenticate { proof: proof_bytes }),
            Err(error) => Err(error),
        },
        _ => Err(DcErrorView::Codec("expected challenge message"@)),
    }
}

/// Answers the challenge of the host.
pub fn answer_challenge(password: &str, message: &WireMessage) -> (result: Result<
    WireMessage,
    DcError,
>)
    ensures
        match result {
            Ok(reply) => answer(password@, message@) == Ok::<MessageView, DcErrorView>(reply@),
            Err(error) => answer(password@, message@) == Err::<MessageView, DcErrorView>(error@),
        },
{
    match message {
        WireMessage::Challenge { nonce, salt } => {
            let proof_bytes = proof_for_password(password, salt.as_str(), nonce)?;
            Ok(WireMessage::Authenticate { proof: proof_bytes })
        },
        _ => Err(DcError::codec("expected challenge message")),
    }
}

/// What a host tells a viewer that answered its challenge.
pub open spec fn verdict(
    verifier: VerifierView,
    nonce: Seq<u8>,
    permissions: Permissions,
    message: MessageView,
) -> Result<MessageView, DcErrorView> {
    match message {
        MessageView::Authenticate { proof: proof_bytes } => Ok(
            if verifier.accepts(nonce, proof_bytes) {
                MessageView::Authenticated { permissions: granted(permissions) }
            } else {
                MessageView::Rejected { reason: "authentication failed"@ }
            },
        ),
        _ => Err(DcErrorView::Codec("expected authenticate message"@)),
    }
}

/// Judges the answer to the challenge with the given nonce.
pub fn judge_answer(
    verifier: &PasswordVerifier,
    nonce: &[u8; 32],
    permissions: Permissions,
    message: &WireMessage,
) -> (result: Result<WireMessage, DcError>)
    ensures
        match result {
            Ok(reply) => verdict(verifier@, nonce@, permissions, message@) == Ok::<
                MessageView,
                DcErrorView,
            >(reply@),
            Err(error) => verdict(verifier@, nonce@, permissions, message@) == Err::<
                MessageView,
                DcErrorView,
            >(error@),
        },
{
    match message {
        WireMessage::Authenticate { proof: proof_bytes } => {
            if verifier.verify(nonce, proof_bytes) {
                Ok(WireMessage::Authenticated { permissions: permissions.to_capabilities() })
            } else {
                Ok(WireMessage::Rejected { reason: owned("authentication failed") })
            }
        },
        _ => Err(DcError::codec("expected authenticate message")),
    }
}

/// The permissions that capabilities stand for.
pub open spec fn permitted(capabilities: Capabilities) -> Permissions {
    Permissions {
        view_desktop: capabilities.desktop,
        control_input: capabilities.control_input,
        open_terminal: capabilities.terminal,
        execute_command: capabilities.command_execution,
        transfer_files: capabilities.file_transfer,
        ssh_access: capabilities.ssh_compatibility,
    }
}

/// What the host allows, or why it refuses.
pub open spec fn admission(message: MessageView) -> Result<Permissions, DcErrorView> {
    match message {
        MessageView::Authenticated { permissions } => Ok(permitted(permissions)),
        MessageView::Rejected { reason } => Err(DcErrorView::InvalidInput(reason)),
        _ => Err(DcErrorView::Codec("expected authentication result message"@)),
    }
}

/// Takes the verdict of the host.
pub fn accept_verdict(message: WireMessage) -> (result: Result<Permissions, DcError>)
    ensures
        match result {
            Ok(permissions) => admission(message@) == Ok::<Permissions, DcErrorView>(permissions),
            Err(error) => admission(message@) == Err::<Permissions, DcErrorView>(error@),
        },
{
    match message {
        WireMessage::Authenticated { permissions } => Ok(
            Permissions {
                view_desktop: permissions.desktop,
                control_input: permissions.control_input,
                open_terminal: permissions.terminal,
                execute_command: permissions.command_execution,
                transfer_files: permissions.file_transfer,
                ssh_access: permissions.ssh_compatibility,
            },
        ),
        WireMessage::Rejected { reason } => Err(DcError::InvalidInput(reason)),
        _ => Err(DcError::codec("expected authentication result message")),
    }
}

/// Two ends of this protocol learn each other's capabilities.
pub proof fn law_greeting_is_accepted(capabilities: Capabilities)
    ensures
        announced(greeting(capabilities)) == Ok::<Capabilities, DcErrorView>(capabilities),
{
}

/// A viewer with the right password is admitted with the permissions that the host gives,
/// whatever the nonce is.
pub proof fn law_right_password_is_admitted(
    verifier: VerifierView,
    password: Seq<char>,
    nonce: Seq<u8>,
    permissions: Permissions,
)
    requires
        verifier.belongs_to(password),
    ensures
        ({
            let challenge = MessageView::Challenge { nonce, salt: verifier.salt };
            let reply = answer(password, challenge);
            &&& reply is Ok
            &&& verdict(verifier, nonce, permissions, reply->Ok_0) matches Ok(told)
            &&& admission(told) == Ok::<Permissions, DcErrorView>(permissions)
        }),
{
}

/// A viewer whose proof is not the one of the verifier is refused.
pub proof fn law_wrong_proof_is_refused(
    verifier: VerifierView,
    nonce: Seq<u8>,
    permissions: Permissions,
    proof_bytes: Seq<u8>,
)
    requires
        !verifier.accepts(nonce, proof_bytes),
    ensures
        ({
            let message = MessageView::Authenticate { proof: proof_bytes };
            &&& verdict(verifier, nonce, permissions, message) matches Ok(told)
            &&& admission(told) == Err::<Permissions, DcErrorView>(
                DcErrorView::InvalidInput("authentication failed"@),
            )
        }),
{
}

/// A viewer is admitted exactly where its proof is that of the verifier for this nonce, with the
/// permissions that were asked about; every other proof is rejected, and no other message judged.
pub proof fn law_only_the_right_proof_is_admitted(
    verifier: VerifierView,
    nonce: Seq<u8>,
    permissions: Permissions,
    message: MessageView,
)
    ensures
        message is Authenticate && message->proof == sha256(encode_utf8(verifier.encoded) + nonce)
            ==> verdict(verifier, nonce, permissions, message) == Ok::<MessageView, DcErrorView>(
            MessageView::Authenticated { permissions: granted(permissions) },
        ),
        message is Authenticate && message->proof != sha256(encode_utf8(verifier.encoded) + nonce)
            ==> verdict(verifier, nonce, permissions, message) is Ok && verdict(
            verifier,
            nonce,
            permissions,
            message,
        )->Ok_0 is Rejected,
        !(message is Authenticate) ==> verdict(verifier, nonce, permissions, message) is Err,
{
}

/// What a host permits is what a viewer takes itself to be permitted.
pub proof fn law_verdict_is_understood(message: MessageView)
    ensures
        message matches MessageView::Authenticated { permissions } ==> {
            let told = admission(message);
            &&& told is Ok
            &&& told->Ok_0.view_desktop == permissions.desktop
            &&& told->Ok_0.control_input == permissions.control_input
            &&& told->Ok_0.open_terminal == permissions.terminal
            &&& told->Ok_0.execute_command == permissions.command_execution
            &&& told->Ok_0.transfer_files == permissions.file_transfer
            &&& told->Ok_0.ssh_access == permissions.ssh_compatibility
        },
        !(message is Authenticated) ==> admission(message) is Err,
        message matches MessageView::Rejected { reason } ==> admission(message) == Err::<
            Permissions,
            DcErrorView,
        >(DcErrorView::InvalidInput(reason)),
{
}

/// A greeting is taken from every peer of the same major version, and from no other, with what it can
/// do; and only a challenge is answered, with the proof for its salt and nonce.
pub proof fn law_greetings_and_challenges(password: Seq<char>, message: MessageView)
    ensures
        message matches MessageView::Hello(peer) ==> (announced(message) is Ok
            <==> peer.protocol_version.major == 2) && (announced(message) is Ok ==> announced(
            message,
        )->Ok_0 == peer.capabilities),
        !(message is Hello) ==> announced(message) is Err,
        message matches MessageView::Challenge { nonce, salt } ==> match password_proof(
            password,
            salt,
            nonce,
        ) {
            Ok(bytes) => answer(password, message) == Ok::<MessageView, DcErrorView>(
                MessageView::Authenticate { proof: bytes },
            ),
            Err(error) => answer(password, message) == Err::<MessageView, DcErrorView>(error),
        },
        !(message is Challenge) ==> answer(password, message) is Err,
{
}

} // verus!
