//! Authentication and authorization primitives.
use crate::digest::{constant_time_equal, sha256, sha256_digest};
use crate::error::{DcError, DcErrorView};
use crate::protocol::types::{no_capabilities, MessageView};
use crate::protocol::{Capabilities, WireMessage};
use crate::text::{joined, owned};
use argon2::password_hash::{PasswordHash, PasswordHasher, Salt, SaltString};
use argon2::Argon2;
use rand::rngs::OsRng;
use rand::RngCore;
use vstd::prelude::*;
use vstd::utf8::{encode_utf8, is_ascii_chars, is_ascii_chars_encode_utf8};

verus! {

/// What an authenticated peer may do.
#[derive(Clone, Copy, Debug, Eq, PartialEq, Structural)]
pub struct Permissions {
    pub view_desktop: bool,
    pub control_input: bool,
    pub open_terminal: bool,
    pub execute_command: bool,
    pub transfer_files: bool,
    pub ssh_access: bool,
}

/// No permission at all.
pub open spec fn no_permissions() -> Permissions {
    Permissions {
        view_desktop: false,
        control_input: false,
        open_terminal: false,
        execute_command: false,
        transfer_files: false,
        ssh_access: false,
    }
}

/// The capabilities that permissions grant: the clipboard and the video options are not a matter
/// of permission.
pub open spec fn granted(permissions: Permissions) -> Capabilities {
    Capabilities {
        desktop: permissions.view_desktop,
        control_input: permissions.control_input,
        terminal: permissions.open_terminal,
        command_execution: permissions.execute_command,
        file_transfer: permissions.transfer_files,
        clipboard: false,
        ssh_compatibility: permissions.ssh_access,
        hybrid_video: false,
        desktop_optimizations: false,
        h264_nal_datagrams: false,
    }
}

impl Default for Permissions {
    fn default() -> (permissions: Permissions)
        ensures
            permissions == no_permissions(),
    {
        Permissions::empty()
    }
}

impl Permissions {
    /// Only the desktop may be viewed.
    pub fn desktop_viewer() -> (permissions: Permissions)
        ensures
            permissions == (Permissions { view_desktop: true, ..no_permissions() }),
    {
        let mut permissions = Permissions::empty();
        permissions.view_desktop = true;
        permissions
    }

    /// No permission at all.
    pub fn empty() -> (permissions: Permissions)
        ensures
            permissions == no_permissions(),
    {
        Permissions {
            view_desktop: false,
            control_input: false,
            open_terminal: false,
            execute_command: false,
            transfer_files: false,
            ssh_access: false,
        }
    }

    /// The capabilities that these permissions grant.
    pub fn to_capabilities(self) -> (capabilities: Capabilities)
        ensures
            capabilities == granted(self),
    {
        Capabilities {
            desktop: self.view_desktop,
            control_input: self.control_input,
            terminal: self.open_terminal,
            command_execution: self.execute_command,
            file_transfer: self.transfer_files,
            clipboard: false,
            ssh_compatibility: self.ssh_access,
            hybrid_video: false,
            desktop_optimizations: false,
            h264_nal_datagrams: false,
        }
    }
}

/// Whether a character may occur in Base64 text without padding.
pub open spec fn base64_char(c: char) -> bool {
    'a' <= c <= 'z' || 'A' <= c <= 'Z' || '0' <= c <= '9' || c == '/' || c == '+'
}

/// Whether a character may occur in a salt.
pub open spec fn salt_char(c: char) -> bool {
    base64_char(c) || c == '.' || c == '-'
}

/// The first character that may not occur in a salt.
pub open spec fn first_unsuitable(text: Seq<char>) -> Option<char>
    decreases text.len(),
{
    if text.len() == 0 {
        None
    } else if !salt_char(text[0]) {
        Some(text[0])
    } else {
        first_unsuitable(text.drop_first())
    }
}

/// What is wrong with a text as a salt.
pub open spec fn salt_failure(text: Seq<char>) -> Option<Seq<char>> {
    if encode_utf8(text).len() < 4 {
        Some("salt invalid: value to short"@)
    } else if encode_utf8(text).len() > 64 {
        Some("salt invalid: value to long"@)
    } else {
        match first_unsuitable(text) {
            Some(c) => Some("salt invalid: contains invalid character: '"@ + seq![c] + "'"@),
            None => None,
        }
    }
}

/// Whether a text is the Base64 form of sixteen bytes: 22 characters, of which the last carries
/// two bits only.
pub open spec fn sixteen_byte_salt(text: Seq<char>) -> bool {
    &&& text.len() == 22
    &&& forall|i: int| 0 <= i < 22 ==> base64_char(#[trigger] text[i])
    &&& text[21] == 'A' || text[21] == 'Q' || text[21] == 'g' || text[21] == 'w'
}

/// The Argon2id verifier that the default parameters give for a password and a salt, or what
/// kept it from being derived.
pub uninterp spec fn argon2_verifier(
    password: Seq<u8>,
    salt: Seq<char>,
) -> Result<Seq<char>, Seq<char>>;

/// What is wrong with a text as an encoded password verifier.
pub uninterp spec fn encoded_failure(encoded: Seq<char>) -> Option<Seq<char>>;

/// The view of a derivation: the verifier, or the text of the failure.
pub open spec fn derivation(derived: Result<String, String>) -> Result<Seq<char>, Seq<char>> {
    match derived {
        Ok(encoded) => Ok(encoded@),
        Err(failure) => Err(failure@),
    }
}

/// The view of a failure that may be absent.
pub open spec fn failure_view(failure: Option<String>) -> Option<Seq<char>> {
    match failure {
        Some(text) => Some(text@),
        None => None,
    }
}

proof fn lemma_suitable(text: Seq<char>)
    requires
        forall|i: int| 0 <= i < text.len() ==> salt_char(#[trigger] text[i]),
    ensures
        first_unsuitable(text) is None,
    decreases text.len(),
{
    if text.len() > 0 {
        assert(salt_char(text[0]));
        assert forall|i: int| 0 <= i < text.drop_first().len() implies salt_char(
            #[trigger] text.drop_first()[i],
        ) by {
            assert(text.drop_first()[i] == text[i + 1]);
        }
        lemma_suitable(text.drop_first());
    }
}

/// A salt that was made from sixteen bytes is a suitable salt.
pub proof fn law_generated_salts_are_suitable(text: Seq<char>)
    requires
        sixteen_byte_salt(text),
    ensures
        salt_failure(text) is None,
{
    assert(is_ascii_chars(text)) by {
        assert forall|i: int| 0 <= i < text.len() implies '\0' <= #[trigger] text[i] <= '\u{7f}' by {
            assert(base64_char(text[i]));
        }
    }
    is_ascii_chars_encode_utf8(text);
    assert(encode_utf8(text).len() == 22);
    assert forall|i: int| 0 <= i < text.len() implies salt_char(#[trigger] text[i]) by {
        assert(base64_char(text[i]));
    }
    lemma_suitable(text);
}

/// Calls `SaltString::generate` of `password_hash` with the random numbers of the operating
/// system. The contract claims of every outcome that it is the Base64 form of sixteen bytes.
#[verifier::external_body]
fn random_salt() -> (salt: String)
    ensures
        sixteen_byte_salt(salt@),
{
    SaltString::generate(&mut OsRng).as_str().to_owned()
}

/// Calls `SaltString::from_b64` of `password_hash`. The contract claims that a salt is refused
/// exactly when it has fewer than 4 or more than 64 bytes or a character outside the alphabet,
/// in this order, and with which text.
#[verifier::external_body]
fn check_salt(salt: &str) -> (failure: Option<String>)
    ensures
        failure_view(failure) == salt_failure(salt@),
{
    SaltString::from_b64(salt).err().map(|error| error.to_string())
}

/// Calls `Argon2::hash_password` with the default parameters. The contract claims that the
/// outcome depends on the password bytes and the salt text alone, and that the derivation
/// succeeds for the Base64 form of sixteen bytes and a password of less than 2^32 bytes.
#[verifier::external_body]
fn hash_password(password: &[u8], salt: &str) -> (derived: Result<String, String>)
    requires
        salt_failure(salt@) is None,
    ensures
        derivation(derived) == argon2_verifier(password@, salt@),
        sixteen_byte_salt(salt@) && password@.len() <= u32::MAX ==> derived is Ok,
{
    let salt = Salt::from_b64(salt).unwrap();
    match Argon2::default().hash_password(password, salt) {
        Ok(hash) => Ok(hash.to_string()),
        Err(error) => Err(error.to_string()),
    }
}

/// Calls `PasswordHash::new` of `password_hash`. The contract claims that the text alone decides
/// whether it is accepted, and with which text it is refused.
#[verifier::external_body]
fn check_encoded(encoded: &str) -> (failure: Option<String>)
    ensures
        failure_view(failure) == encoded_failure(encoded@),
{
    PasswordHash::new(encoded).err().map(|error| error.to_string())
}

/// Calls `RngCore::fill_bytes` of `rand` on the random numbers of the operating system. Nothing
/// is claimed of the bytes.
#[verifier::external_body]
fn random_nonce() -> (nonce: [u8; 32]) {
    let mut nonce = [0u8; 32];
    OsRng.fill_bytes(&mut nonce);
    nonce
}

/// The bytes whose digest proves knowledge of a verifier: the encoded verifier, then the nonce.
pub open spec fn challenge_bytes(encoded: Seq<char>, nonce: Seq<u8>) -> Seq<u8> {
    encode_utf8(encoded) + nonce
}

/// The proof that answers a challenge.
pub open spec fn challenge_proof(encoded: Seq<char>, nonce: Seq<u8>) -> Seq<u8> {
    sha256(challenge_bytes(encoded, nonce))
}

/// A password verifier: its encoded Argon2id form and its salt.
pub struct VerifierView {
    pub encoded: Seq<char>,
    pub salt: Seq<char>,
}

impl VerifierView {
    /// Whether the verifier is the one of a password.
    pub open spec fn belongs_to(self, password: Seq<char>) -> bool {
        &&& salt_failure(self.salt) is None
        &&& argon2_verifier(encode_utf8(password), self.salt) == Ok::<Seq<char>, Seq<char>>(
            self.encoded,
        )
    }

    /// Whether a proof answers the challenge with the given nonce.
    pub open spec fn accepts(self, nonce: Seq<u8>, proof_bytes: Seq<u8>) -> bool {
        challenge_proof(self.encoded, nonce) == proof_bytes
    }
}

/// Whether an error says that no verifier could be derived from a password under a salt.
pub open spec fn underivable(password: Seq<char>, salt: Seq<char>, error: DcErrorView) -> bool {
    argon2_verifier(encode_utf8(password), salt) matches Err(failure) && error
        == DcErrorView::Codec("derive password verifier: "@ + failure)
}

/// The outcome of answering a challenge: the proof, or the reason why there is none.
pub open spec fn password_proof(
    password: Seq<char>,
    salt: Seq<char>,
    nonce: Seq<u8>,
) -> Result<Seq<u8>, DcErrorView> {
    match salt_failure(salt) {
        Some(failure) => Err(DcErrorView::InvalidInput("invalid challenge salt: "@ + failure)),
        None => proof_of_derivation(argon2_verifier(encode_utf8(password), salt), nonce),
    }
}

/// The proof that a derived verifier gives.
pub open spec fn proof_of_derivation(
    derived: Result<Seq<char>, Seq<char>>,
    nonce: Seq<u8>,
) -> Result<Seq<u8>, DcErrorView> {
    match derived {
        Ok(encoded) => Ok(challenge_proof(encoded, nonce)),
        Err(failure) => Err(DcErrorView::Codec("derive challenge verifier: "@ + failure)),
    }
}

/// The stored value is an Argon2id password verifier.  The verifier itself is never sent over
/// the wire; the challenge proof binds it to a fresh nonce for every connection.
#[derive(Clone, Debug, Eq, PartialEq)]
pub struct PasswordVerifier {
    encoded: String,
    salt: String,
}

impl View for PasswordVerifier {
    type V = VerifierView;

    closed spec fn view(&self) -> VerifierView {
        VerifierView { encoded: self.encoded@, salt: self.salt@ }
    }
}

impl PasswordVerifier {
    /// The verifier of a password, under a fresh random salt.
    pub fn from_password(password: &str) -> (result: Result<PasswordVerifier, DcError>)
        ensures
            match result {
                Ok(verifier) => {
                    &&& password@.len() > 0
                    &&& sixteen_byte_salt(verifier@.salt)
                    &&& verifier@.belongs_to(password@)
                },
                Err(error) => {
                    ||| password@.len() == 0 && error@ == DcErrorView::InvalidInput(
                        "password must not be empty"@,
                    )
                    ||| {
                        &&& encode_utf8(password@).len() > u32::MAX
                        &&& exists|salt: Seq<char>| #[trigger]
                            sixteen_byte_salt(salt) && underivable(password@, salt, error@)
                    }
                },
            },
    {
        if password.is_empty() {
            return Err(DcError::invalid_input("password must not be empty"));
        }
        let salt = random_salt();
        proof {
            law_generated_salts_are_suitable(salt@);
        }
        let derived = hash_password(password.as_bytes(), salt.as_str());
        let result = PasswordVerifier::from_derivation(derived, salt);
        proof {
            if result is Err {
                assert(underivable(password@, salt@, result->Err_0@));
            }
        }
        result
    }

    /// The verifier that a derivation under a salt gave.
    pub fn from_derivation(derived: Result<String, String>, salt: String) -> (result: Result<
        PasswordVerifier,
        DcError,
    >)
        ensures
            match derived {
                Ok(encoded) => result matches Ok(verifier) && verifier@ == (VerifierView {
                    encoded: encoded@,
                    salt: salt@,
                }),
                Err(failure) => result matches Err(error) && error@ == DcErrorView::Codec(
                    "derive password verifier: "@ + failure@,
                ),
            },
    {
        match derived {
            Ok(encoded) => Ok(PasswordVerifier { encoded, salt }),
            Err(failure) => Err(
                DcError::Codec(joined("derive password verifier: ", failure.as_str())),
            ),
        }
    }

    /// The verifier with the given encoded form.
    pub fn from_encoded(encoded: String, salt: String) -> (result: Result<
        PasswordVerifier,
        DcError,
    >)
        ensures
            match encoded_failure(encoded@) {
                None => result matches Ok(verifier) && verifier@ == (VerifierView {
                    encoded: encoded@,
                    salt: salt@,
                }),
                Some(failure) => result matches Err(error) && error@ == DcErrorView::InvalidInput(
                    "invalid Argon2 verifier: "@ + failure,
                ),
            },
    {
        let failure = check_encoded(encoded.as_str());
        PasswordVerifier::from_checked(failure, encoded, salt)
    }

    /// The verifier with the given encoded form, unless something is wrong with it.
    pub fn from_checked(failure: Option<String>, encoded: String, salt: String) -> (result: Result<
        PasswordVerifier,
        DcError,
    >)
        ensures
            match failure {
                None => result matches Ok(verifier) && verifier@ == (VerifierView {
                    encoded: encoded@,
                    salt: salt@,
                }),
                Some(text) => result matches Err(error) && error@ == DcErrorView::InvalidInput(
                    "invalid Argon2 verifier: "@ + text@,
                ),
            },
    {
        match failure {
            Some(text) => Err(
                DcError::InvalidInput(joined("invalid Argon2 verifier: ", text.as_str())),
            ),
            None => Ok(PasswordVerifier { encoded, salt }),
        }
    }

    /// The salt under which a peer derives the same verifier.
    pub fn salt(&self) -> (salt: &str)
        ensures
            salt@ == self@.salt,
    {
        self.salt.as_str()
    }

    /// A fresh nonce, and the message that sends it to the peer together with the salt.
    pub fn challenge(&self) -> (result: ([u8; 32], WireMessage))
        ensures
            result.1@ == (MessageView::Challenge { nonce: result.0@, salt: self@.salt }),
    {
        let nonce = random_nonce();
        let message = self.challenge_with(nonce);
        (nonce, message)
    }

    /// The challenge with the given nonce.
    pub fn challenge_with(&self, nonce: [u8; 32]) -> (message: WireMessage)
        ensures
            message@ == (MessageView::Challenge { nonce: nonce@, salt: self@.salt }),
    {
        WireMessage::Challenge { nonce, salt: owned(self.salt.as_str()) }
    }

    /// Whether a proof answers the challenge with the given nonce.
    pub fn verify(&self, nonce: &[u8; 32], proof_bytes: &[u8; 32]) -> (accepted: bool)
        ensures
            accepted == self@.accepts(nonce@, proof_bytes@),
    {
        let expected = proof_for(self.encoded.as_str(), nonce);
        constant_time_equal(&expected, proof_bytes)
    }
}

/// Answers a challenge with the proof that a password gives.
pub fn proof_for_password(password: &str, salt: &str, nonce: &[u8; 32]) -> (result: Result<
    [u8; 32],
    DcError,
>)
    ensures
        match result {
            Ok(proof_bytes) => password_proof(password@, salt@, nonce@) == Ok::<
                Seq<u8>,
                DcErrorView,
            >(proof_bytes@),
            Err(error) => password_proof(password@, salt@, nonce@) == Err::<Seq<u8>, DcErrorView>(
                error@,
            ),
        },
{
    match check_salt(salt) {
        Some(failure) => Err(
            DcError::InvalidInput(joined("invalid challenge salt: ", failure.as_str())),
        ),
        None => {
            let derived = hash_password(password.as_bytes(), salt);
            proof_for_derivation(derived, nonce)
        },
    }
}

/// The proof that a derived verifier gives.
pub fn proof_for_derivation(derived: Result<String, String>, nonce: &[u8; 32]) -> (result: Result<
    [u8; 32],
    DcError,
>)
    ensures
        match result {
            Ok(proof_bytes) => proof_of_derivation(derivation(derived), nonce@) == Ok::<
                Seq<u8>,
                DcErrorView,
            >(proof_bytes@),
            Err(error) => proof_of_derivation(derivation(derived), nonce@) == Err::<
                Seq<u8>,
                DcErrorView,
            >(error@),
        },
{
    match derived {
        Ok(encoded) => Ok(proof_for(encoded.as_str(), nonce)),
        Err(failure) => Err(
            DcError::Codec(joined("derive challenge verifier: ", failure.as_str())),
        ),
    }
}

/// The digest of an encoded verifier and a nonce.
pub fn proof_for(encoded: &str, nonce: &[u8; 32]) -> (proof_bytes: [u8; 32])
    ensures
        proof_bytes@ == challenge_proof(encoded@, nonce@),
{
    let input = proof_input(encoded, nonce);
    sha256_digest(input.as_slice())
}

/// The bytes whose digest answers a challenge.
pub fn proof_input(encoded: &str, nonce: &[u8; 32]) -> (input: Vec<u8>)
    ensures
        input@ == challenge_bytes(encoded@, nonce@),
{
    let mut input: Vec<u8> = Vec::new();
    input.extend_from_slice(encoded.as_bytes());
    input.extend_from_slice(nonce);
    assert(input@ =~= challenge_bytes(encoded@, nonce@));
    input
}

/// A verifier accepts what its own password answers to any challenge under its salt.
pub proof fn law_right_password_is_accepted(
    verifier: VerifierView,
    password: Seq<char>,
    nonce: Seq<u8>,
)
    requires
        verifier.belongs_to(password),
    ensures
        password_proof(password, verifier.salt, nonce) is Ok,
        verifier.accepts(nonce, password_proof(password, verifier.salt, nonce)->Ok_0),
{
}

/// A verifier accepts exactly one proof for each nonce.
pub proof fn law_one_proof_per_nonce(
    verifier: VerifierView,
    nonce: Seq<u8>,
    first: Seq<u8>,
    second: Seq<u8>,
)
    requires
        verifier.accepts(nonce, first),
        verifier.accepts(nonce, second),
    ensures
        first == second,
{
}

/// A proof is the hash of the encoded verifier and the nonce behind it, and no other is accepted: it
/// is bound to both. A password gives the proof of the verifier that is derived from it and the salt.
pub proof fn law_proof_binds_verifier_and_nonce(
    verifier: VerifierView,
    nonce: Seq<u8>,
    proof_bytes: Seq<u8>,
    password: Seq<char>,
    encoded: Seq<char>,
)
    ensures
        verifier.accepts(nonce, proof_bytes) <==> proof_bytes == sha256(
            encode_utf8(verifier.encoded) + nonce,
        ),
        salt_failure(verifier.salt) is None && argon2_verifier(
            encode_utf8(password),
            verifier.salt,
        ) == Ok::<Seq<char>, Seq<char>>(encoded) ==> password_proof(
            password,
            verifier.salt,
            nonce,
        ) == Ok::<Seq<u8>, DcErrorView>(sha256(encode_utf8(encoded) + nonce)),
        salt_failure(verifier.salt) is Some || argon2_verifier(
            encode_utf8(password),
            verifier.salt,
        ) is Err ==> password_proof(password, verifier.salt, nonce) is Err,
{
}

proof fn lemma_unsuitable(text: Seq<char>)
    ensures
        first_unsuitable(text) is None <==> forall|i: int|
            0 <= i < text.len() ==> salt_char(#[trigger] text[i]),
    decreases text.len(),
{
    if text.len() > 0 {
        let rest = text.drop_first();
        lemma_unsuitable(rest);
        if salt_char(text[0]) {
            if forall|i: int| 0 <= i < text.len() ==> salt_char(#[trigger] text[i]) {
                assert forall|i: int| 0 <= i < rest.len() implies salt_char(
                    #[trigger] rest[i],
                ) by {
                    assert(rest[i] == text[i + 1]);
                }
            } else {
                let i = choose|i: int| 0 <= i < text.len() && !salt_char(#[trigger] text[i]);
                assert(rest[i - 1] == text[i]);
            }
        }
    }
}

/// A salt is taken exactly where it has from four to sixty-four bytes and is made of letters, digits
/// and the signs slash, plus, dot and minus.
pub proof fn law_salts_of_plain_signs_are_taken(text: Seq<char>)
    ensures
        salt_failure(text) is None <==> {
            &&& 4 <= encode_utf8(text).len() <= 64
            &&& forall|i: int|
                0 <= i < text.len() ==> {
                    let c = #[trigger] text[i];
                    ||| 'a' <= c <= 'z'
                    ||| 'A' <= c <= 'Z'
                    ||| '0' <= c <= '9'
                    ||| c == '/'
                    ||| c == '+'
                    ||| c == '.'
                    ||| c == '-'
                }
        },
{
    lemma_unsuitable(text);
}

/// What a session is permitted is told capability by capability, and nothing else is.
pub proof fn law_permissions_are_told(permissions: Permissions)
    ensures
        granted(permissions).desktop == permissions.view_desktop,
        granted(permissions).control_input == permissions.control_input,
        granted(permissions).terminal == permissions.open_terminal,
        granted(permissions).command_execution == permissions.execute_command,
        granted(permissions).file_transfer == permissions.transfer_files,
        granted(permissions).ssh_compatibility == permissions.ssh_access,
        !granted(permissions).clipboard,
        !granted(permissions).hybrid_video,
        !granted(permissions).desktop_optimizations,
        !granted(permissions).h264_nal_datagrams,
        granted(no_permissions()) == no_capabilities(),
{
}

} // verus!
