//! SHA-256 of downloaded files, computed incrementally by the sha2 crate.
use vstd::prelude::*;

verus! {

/// A SHA-256 computation in progress, kept by sha2's `Sha256` hasher in a private
/// field.
#[verifier::external_body]
pub struct Sha256Hasher {
    inner: sha2::Sha256,
}

/// The bytes fed so far to a hasher.
pub uninterp spec fn hashed_input(h: Sha256Hasher) -> Seq<u8>;

/// The SHA-256 digest of `data`, as sha2 computes it.
pub uninterp spec fn sha256(data: Seq<u8>) -> Seq<u8>;

impl Sha256Hasher {
    /// sha2's `Digest::new` for `Sha256`: a hasher that has been fed nothing.
    #[verifier::external_body]
    pub fn new() -> (r: Sha256Hasher)
        ensures
            hashed_input(r) == Seq::<u8>::empty(),
    {
        Sha256Hasher { inner: <sha2::Sha256 as sha2::Digest>::new() }
    }

    /// sha2's `Digest::update`: feeds `data` after what the hasher has been fed.
    #[verifier::external_body]
    pub fn update(&mut self, data: &[u8])
        ensures
            hashed_input(*final(self)) == hashed_input(*old(self)) + data@,
    {
        sha2::Digest::update(&mut self.inner, data)
    }

    /// sha2's `Digest::finalize`: the 32-byte SHA-256 digest of everything fed.
    #[verifier::external_body]
    pub fn finalize(self) -> (r: Vec<u8>)
        ensures
            r@ == sha256(hashed_input(self)),
            r@.len() == 32,
    {
        sha2::Digest::finalize(self.inner).to_vec()
    }
}

} // verus!
