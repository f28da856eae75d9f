//! Connection states and the certificate policy of a client.
use crate::digest::sha256;
use crate::text::owned;
use crate::transport::fingerprint::certificate_fingerprint;
use vstd::prelude::*;

verus! {

/// The stages of a connection.
#[derive(Clone, Copy, Debug, Eq, PartialEq, Structural)]
pub enum ConnectionState {
    Disconnected,
    Connecting,
    Authenticating,
    Connected,
    Closing,
}

/// Which server certificates a client accepts, and the last one that it accepted.
#[derive(Clone, Copy, Debug)]
pub struct PinningPolicy {
    pub expected: Option<[u8; 32]>,
    pub tofu: bool,
    pub seen: Option<[u8; 32]>,
}

/// The bytes of a fingerprint that may be absent.
pub open spec fn bytes_of(fingerprint: Option<[u8; 32]>) -> Option<Seq<u8>> {
    match fingerprint {
        Some(value) => Some(value@),
        None => None,
    }
}

/// A policy: the one accepted fingerprint if it is pinned, whether the first certificate waits
/// for confirmation, and the last accepted fingerprint.
pub struct PolicyView {
    pub expected: Option<Seq<u8>>,
    pub tofu: bool,
    pub seen: Option<Seq<u8>>,
}

impl PolicyView {
    /// Whether a certificate with the given fingerprint is accepted.
    pub open spec fn accepts(self, actual: Seq<u8>) -> bool {
        self.expected is None || self.expected == Some(actual)
    }

    /// The policy after a certificate was shown: only an accepted one is remembered.
    pub open spec fn after(self, actual: Seq<u8>) -> PolicyView {
        if self.accepts(actual) {
            PolicyView { seen: Some(actual), ..self }
        } else {
            self
        }
    }
}

impl View for PinningPolicy {
    type V = PolicyView;

    open spec fn view(&self) -> PolicyView {
        PolicyView {
            expected: bytes_of(self.expected),
            tofu: self.tofu,
            seen: bytes_of(self.seen),
        }
    }
}

impl PinningPolicy {
    /// Every certificate is accepted.
    pub fn accept_any() -> (policy: PinningPolicy)
        ensures
            policy@ == (PolicyView { expected: None, tofu: false, seen: None }),
    {
        PinningPolicy { expected: None, tofu: false, seen: None }
    }

    /// Only the certificate with the given fingerprint is accepted.
    pub fn pinned(expected: [u8; 32]) -> (policy: PinningPolicy)
        ensures
            policy@ == (PolicyView { expected: Some(expected@), tofu: false, seen: None }),
    {
        PinningPolicy { expected: Some(expected), tofu: false, seen: None }
    }

    /// Every certificate is accepted; the caller asks for confirmation of what was seen.
    pub fn tofu() -> (policy: PinningPolicy)
        ensures
            policy@ == (PolicyView { expected: None, tofu: true, seen: None }),
    {
        PinningPolicy { expected: None, tofu: true, seen: None }
    }

    /// The fingerprint of the last accepted certificate.
    pub fn server_certificate_fingerprint(&self) -> (seen: Option<[u8; 32]>)
        ensures
            bytes_of(seen) == self@.seen,
    {
        self.seen
    }

    /// Decides on a certificate and remembers the fingerprint of an accepted one.
    pub fn verify_server_cert(&mut self, certificate: &[u8]) -> (result: Result<(), String>)
        ensures
            final(self)@ == old(self)@.after(sha256(certificate@)),
            match result {
                Ok(_) => old(self)@.accepts(sha256(certificate@)),
                Err(reason) => !old(self)@.accepts(sha256(certificate@)) && reason@
                    == "server certificate fingerprint mismatch"@,
            },
    {
        let actual = certificate_fingerprint(certificate);
        self.verify_fingerprint(actual)
    }

    /// Decides on a certificate with the given fingerprint.
    pub fn verify_fingerprint(&mut self, actual: [u8; 32]) -> (result: Result<(), String>)
        ensures
            final(self)@ == old(self)@.after(actual@),
            match result {
                Ok(_) => old(self)@.accepts(actual@),
                Err(reason) => !old(self)@.accepts(actual@) && reason@
                    == "server certificate fingerprint mismatch"@,
            },
    {
        if let Some(expected) = self.expected {
            if !same_fingerprint(&actual, &expected) {
                return Err(owned("server certificate fingerprint mismatch"));
            }
        }
        self.seen = Some(actual);
        Ok(())
    }
}

/// Whether two fingerprints are equal.
pub(crate) fn same_fingerprint(first: &[u8; 32], second: &[u8; 32]) -> (same: bool)
    ensures
        same == (first@ == second@),
{
    let mut index: usize = 0;
    while index < 32
        invariant
            index <= 32,
            forall|i: int| 0 <= i < index ==> first@[i] == second@[i],
        decreases 32 - index,
    {
        if first[index] != second[index] {
            return false;
        }
        index = index + 1;
    }
    assert(first@ =~= second@);
    true
}

/// A pinned client never remembers another certificate than the pinned one.
pub proof fn law_pinned_policy_sees_only_the_pin(policy: PolicyView, pin: Seq<u8>, actual: Seq<u8>)
    requires
        policy.expected == Some(pin),
        policy.seen is None || policy.seen == Some(pin),
    ensures
        policy.after(actual).expected == Some(pin),
        policy.after(actual).seen is None || policy.after(actual).seen == Some(pin),
        policy.accepts(actual) <==> actual == pin,
{
}

/// Without a pin every certificate is accepted, and the one that was accepted is the one that was
/// seen; one that is refused leaves no trace.
pub proof fn law_accepted_certificates_are_seen(policy: PolicyView, actual: Seq<u8>)
    ensures
        policy.expected is None ==> policy.accepts(actual),
        policy.accepts(actual) ==> policy.after(actual).seen == Some(actual),
        !policy.accepts(actual) ==> policy.after(actual) == policy,
        policy.after(actual).expected == policy.expected,
        policy.after(actual).tofu == policy.tofu,
{
}

} // verus!
