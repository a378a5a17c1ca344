//! SHA-256 content digests, computed incrementally as a file is read.

use vstd::prelude::*;
use sha2::Digest;

verus! {

/// The SHA-256 digest of `data`.
pub uninterp spec fn sha256_of(data: Seq<u8>) -> Seq<u8>;

/// The bytes a running SHA-256 computation has absorbed so far.
pub uninterp spec fn absorbed(state: Sha256State) -> Seq<u8>;

/// A running SHA-256 computation.
#[verifier::external_body]
pub struct Sha256State {
    inner: sha2::Sha256,
}

/// Relies on `sha2::Sha256::new`: a fresh hasher has absorbed nothing.
#[verifier::external_body]
fn sha256_start() -> (r: Sha256State)
    ensures
        absorbed(r) == Seq::<u8>::empty(),
{
    Sha256State { inner: sha2::Sha256::new() }
}

/// Relies on `sha2::Digest::update`: `data` is absorbed after what came before.
#[verifier::external_body]
fn sha256_absorb(state: &mut Sha256State, data: &[u8])
    ensures
        absorbed(*final(state)) == absorbed(*old(state)) + data@,
{
    state.inner.update(data);
}

/// Relies on `sha2::Digest::finalize`: the 32-byte SHA-256 digest of all
/// bytes absorbed.
#[verifier::external_body]
fn sha256_finish(state: Sha256State) -> (r: [u8; 32])
    ensures
        r@ == sha256_of(absorbed(state)),
{
    state.inner.finalize().into()
}

/// Digest of a byte stream fed in pieces, as they are read.
pub struct FileHasher {
    state: Sha256State,
    seen: Ghost<Seq<u8>>,
}

impl View for FileHasher {
    type V = Seq<u8>;

    /// All bytes fed so far, in order.
    closed spec fn view(&self) -> Seq<u8> {
        self.seen@
    }
}

impl FileHasher {
    /// Internal consistency: the running computation has absorbed exactly the bytes fed.
    pub closed spec fn wf(&self) -> bool {
        absorbed(self.state) == self.seen@
    }

    /// A hasher that has been fed nothing.
    pub fn new() -> (r: FileHasher)
        ensures
            r.wf(),
            r@ == Seq::<u8>::empty(),
    {
        FileHasher { state: sha256_start(), seen: Ghost(Seq::empty()) }
    }

    /// Feeds the next bytes.
    pub fn update(&mut self, data: &[u8])
        requires
            old(self).wf(),
        ensures
            final(self).wf(),
            final(self)@ == old(self)@ + data@,
    {
        sha256_absorb(&mut self.state, data);
        self.seen = Ghost(self.seen@ + data@);
    }

    /// The SHA-256 digest of everything fed.
    pub fn finish(self) -> (r: [u8; 32])
        requires
            self.wf(),
        ensures
            r@ == sha256_of(self@),
    {
        sha256_finish(self.state)
    }
}

/// Whether two digests are equal, byte for byte.
pub fn digests_match(a: &[u8; 32], b: &[u8; 32]) -> (r: bool)
    ensures
        r == (a@ == b@),
{
    let mut i: usize = 0;
    while i < 32
        invariant
            0 <= i <= 32,
            a@.len() == 32,
            b@.len() == 32,
            forall|j: int| 0 <= j < i ==> a@[j] == b@[j],
        decreases 32 - i,
    {
        if a[i] != b[i] {
            return false;
        }
        i = i + 1;
    }
    assert(a@ =~= b@);
    true
}

} // verus!
