//! The SHA-256 digest.
use sha2::Digest;
use vstd::prelude::*;

verus! {

/// The SHA-256 digest of a byte string.
pub uninterp spec fn sha256(data: Seq<u8>) -> Seq<u8>;

/// Calls `sha2::Sha256::digest`. The contract claims that the 32 bytes returned depend on the
/// input bytes alone; it does not say which bytes they are.
#[verifier::external_body]
pub(crate) fn sha256_digest(data: &[u8]) -> (digest: [u8; 32])
    ensures
        digest@ == sha256(data@),
{
    sha2::Sha256::digest(data).into()
}

/// The running state of `sha2::Sha256`.
#[verifier::external_body]
#[derive(Debug)]
pub struct Hasher {
    inner: sha2::Sha256,
}

/// The bytes that a running digest has taken.
pub uninterp spec fn taken_bytes(hasher: Hasher) -> Seq<u8>;

/// Calls `sha2::Sha256::new`. The contract claims that nothing has been taken.
#[verifier::external_body]
fn start_hasher() -> (hasher: Hasher)
    ensures
        taken_bytes(hasher) == Seq::<u8>::empty(),
{
    Hasher { inner: sha2::Sha256::new() }
}

/// Calls `Digest::update` of `sha2`. The contract claims that the bytes are taken behind those
/// taken before.
#[verifier::external_body]
fn feed_hasher(hasher: &mut Hasher, bytes: &[u8])
    ensures
        taken_bytes(*final(hasher)) == taken_bytes(*old(hasher)) + bytes@,
{
    hasher.inner.update(bytes);
}

/// Calls `Digest::finalize` of `sha2`. The contract claims that the digest is the one of all bytes
/// taken.
#[verifier::external_body]
fn close_hasher(hasher: Hasher) -> (digest: [u8; 32])
    ensures
        digest@ == sha256(taken_bytes(hasher)),
{
    hasher.inner.finalize().into()
}

/// The digest of a byte string that comes in parts. Its view is what has come so far.
#[derive(Debug)]
pub struct StreamDigest {
    hasher: Hasher,
}

impl View for StreamDigest {
    type V = Seq<u8>;

    closed spec fn view(&self) -> Seq<u8> {
        taken_bytes(self.hasher)
    }
}

impl StreamDigest {
    /// The digest of a byte string of which nothing has come.
    pub fn new() -> (digest: StreamDigest)
        ensures
            digest@ == Seq::<u8>::empty(),
    {
        StreamDigest { hasher: start_hasher() }
    }

    /// Takes the next part.
    pub fn update(&mut self, bytes: &[u8])
        ensures
            final(self)@ == old(self)@ + bytes@,
    {
        feed_hasher(&mut self.hasher, bytes);
    }

    /// The digest of all that has come.
    pub fn finish(self) -> (digest: [u8; 32])
        ensures
            digest@ == sha256(self@),
    {
        close_hasher(self.hasher)
    }
}

impl Default for StreamDigest {
    fn default() -> (digest: StreamDigest)
        ensures
            digest@ == Seq::<u8>::empty(),
    {
        StreamDigest::new()
    }
}

/// Whether two digests are equal. Every byte is looked at, wherever the first difference is.
pub fn constant_time_equal(left: &[u8; 32], right: &[u8; 32]) -> (equal: bool)
    ensures
        equal == (left@ == right@),
{
    let mut difference: u8 = 0;
    let mut index: usize = 0;
    while index < 32
        invariant
            index <= 32,
            difference == 0 <==> (forall|i: int| 0 <= i < index ==> left@[i] == right@[i]),
        decreases 32 - index,
    {
        let a: u8 = left[index];
        let b: u8 = right[index];
        assert((difference | (a ^ b)) == 0 <==> difference == 0 && a == b) by (bit_vector);
        difference = difference | (a ^ b);
        index = index + 1;
    }
    assert(difference == 0 ==> left@ =~= right@);
    difference == 0
}

} // verus!
