//! The hashing workload: one worker feeds a run of consecutive numbers, each
//! as decimal text, into a SHA-256 hasher and reports the length of the
//! digest's hexadecimal form.

use vstd::prelude::*;
use sha2::Digest;
use crate::encoding::{decimal_bytes, decimal_digits, hex_lower, lemma_hex_lower_shape, to_hex};

verus! {

/// The number of workers of the fixed workload.
pub const NUM_WORKERS: usize = 8;

/// The number of values that one worker hashes.
pub const WORK_PER_WORKER: usize = 50000;

/// The length of a SHA-256 digest in hexadecimal digits.
pub const DIGEST_HEX_LEN: usize = 64;

/// A running SHA-256 computation of the `sha2` crate. The hasher's type is an
/// instance of generic types bounded by that crate's own traits, so it is held
/// here behind a private field and nothing of its state is visible to proofs
/// but `absorbed`.
#[verifier::external_body]
pub struct Sha256Stream {
    inner: sha2::Sha256,
}

/// The bytes that a hasher has been fed so far, in the order they came.
pub uninterp spec fn absorbed(stream: Sha256Stream) -> Seq<u8>;

/// The SHA-256 digest of a byte string, as `sha2` computes it.
pub uninterp spec fn sha256(data: Seq<u8>) -> Seq<u8>;

/// `sha2::Sha256::new` (`Digest::new`): a fresh hasher, which has been fed
/// nothing.
#[verifier::external_body]
fn stream_new() -> (stream: Sha256Stream)
    ensures
        absorbed(stream) == Seq::<u8>::empty(),
{
    Sha256Stream { inner: sha2::Sha256::new() }
}

/// `Digest::update` on `sha2::Sha256`: feeds `data` to the hasher, after what
/// it was fed before.
#[verifier::external_body]
fn stream_update(stream: &mut Sha256Stream, data: &[u8])
    ensures
        absorbed(*final(stream)) == absorbed(*old(stream)) + data@,
{
    stream.inner.update(data);
}

/// `Digest::finalize` on `sha2::Sha256`: the 32-byte digest of everything the
/// hasher was fed.
#[verifier::external_body]
fn stream_finalize(stream: Sha256Stream) -> (digest: [u8; 32])
    ensures
        digest@ == sha256(absorbed(stream)),
{
    stream.inner.finalize().into()
}

/// What worker `worker_id` hashes in `iterations` rounds: the decimal digits
/// of `worker_id`, `worker_id + 1`, ..., `worker_id + iterations - 1`, one
/// number after the other with nothing between them.
pub open spec fn work_input(worker_id: nat, iterations: nat) -> Seq<u8>
    decreases iterations,
{
    if iterations == 0 {
        Seq::empty()
    } else {
        work_input(worker_id, (iterations - 1) as nat) + decimal_digits(
            (worker_id + iterations - 1) as nat,
        )
    }
}

/// The SHA-256 digest of a worker's input. The hasher takes the numbers one
/// at a time; the largest of them has to fit in a `usize`.
pub fn work_digest(worker_id: usize, iterations: usize) -> (digest: [u8; 32])
    requires
        iterations > 0 ==> worker_id + iterations - 1 <= usize::MAX,
    ensures
        digest@ == sha256(work_input(worker_id as nat, iterations as nat)),
{
    let mut hasher = stream_new();
    let mut i: usize = 0;
    while i < iterations
        invariant
            i <= iterations,
            iterations > 0 ==> worker_id + iterations - 1 <= usize::MAX,
            absorbed(hasher) == work_input(worker_id as nat, i as nat),
        decreases iterations - i,
    {
        let text = decimal_bytes(worker_id + i);
        stream_update(&mut hasher, text.as_slice());
        i += 1;
    }
    stream_finalize(hasher)
}

/// The work of one worker: hashes its input and returns the length of the
/// digest in lower-case hexadecimal, which is 64 whatever was hashed.
pub fn do_work(worker_id: usize, iterations: usize) -> (len: usize)
    requires
        iterations > 0 ==> worker_id + iterations - 1 <= usize::MAX,
    ensures
        len == DIGEST_HEX_LEN,
{
    let digest = work_digest(worker_id, iterations);
    let hex = to_hex(digest.as_slice());
    let text = hex.as_str();
    proof {
        lemma_hex_lower_shape(digest@);
        vstd::string::is_ascii_spec_bytes(text);
    }
    text.len()
}

} // verus!
