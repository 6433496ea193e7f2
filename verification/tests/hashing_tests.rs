use bench_workloads::encoding::to_hex;
use bench_workloads::hashing::{do_work, work_digest, DIGEST_HEX_LEN, NUM_WORKERS, WORK_PER_WORKER};
use sha2::{Digest, Sha256};

fn one_shot(data: &[u8]) -> [u8; 32] {
    Sha256::digest(data).into()
}

#[test]
fn hashing_workload_sizes() {
    assert_eq!(NUM_WORKERS, 8);
    assert_eq!(WORK_PER_WORKER, 50000);
    assert_eq!(DIGEST_HEX_LEN, 64);
}

#[test]
fn do_work_returns_the_length_of_the_hex_digest() {
    assert_eq!(do_work(0, 0), 64);
    assert_eq!(do_work(0, 1), 64);
    assert_eq!(do_work(3, 100), 64);
    assert_eq!(do_work(7, 5000), 64);
}

#[test]
fn do_work_at_the_end_of_the_range() {
    assert_eq!(do_work(usize::MAX, 1), 64);
    assert_eq!(do_work(usize::MAX - 2, 3), 64);
    assert_eq!(do_work(usize::MAX, 0), 64);
}

#[test]
fn parallel_hashing_total() {
    let total: usize = (0..NUM_WORKERS).map(|id| do_work(id, 200)).sum();
    assert_eq!(total, 512);
}

#[test]
fn digest_of_no_rounds_is_the_digest_of_nothing() {
    assert_eq!(
        to_hex(&work_digest(7, 0)),
        "e3b0c44298fc1c149afbf4c8996fb92427ae41e4649b934ca495991b7852b855"
    );
}

#[test]
fn digest_of_one_round() {
    // one round of worker 0 hashes the text "0"
    assert_eq!(
        to_hex(&work_digest(0, 1)),
        "5feceb66ffc86f38d952786c6d696c79c2dbc239dd4e91b46729d73a27fb57e9"
    );
}

#[test]
fn digest_of_several_rounds() {
    // worker 0, twelve rounds: "0", "1", ..., "11" one after the other
    assert_eq!(
        to_hex(&work_digest(0, 12)),
        "a4db0c7ff2e3fe06e133001dd94a0103eab3ad780b4314f21b9ab3a134c12544"
    );
    // worker 9, three rounds: "9", "10", "11"
    assert_eq!(
        to_hex(&work_digest(9, 3)),
        "d9be0b2eeb1835bb0baea45b3356f18fb97a180315c1b97ad34ae2f656b4efc0"
    );
    // worker 7, three rounds: "7", "8", "9"
    assert_eq!(
        to_hex(&work_digest(7, 3)),
        "35a9e381b1a27567549b5f8a6f783c167ebf809f1c4d6a9e367240484d8ce281"
    );
}

#[test]
fn digest_agrees_with_hashing_the_whole_input_at_once() {
    for (worker_id, iterations) in [(0usize, 0usize), (0, 1), (1, 50), (8, 1000), (99_990, 25)] {
        let mut input: Vec<u8> = Vec::new();
        for i in 0..iterations {
            input.extend_from_slice((worker_id + i).to_string().as_bytes());
        }
        assert_eq!(work_digest(worker_id, iterations), one_shot(&input));
    }
}

#[test]
fn digest_depends_on_the_worker() {
    assert_ne!(work_digest(0, 10), work_digest(1, 10));
    assert_ne!(work_digest(0, 10), work_digest(0, 11));
}

#[test]
fn hex_agrees_with_the_digest_crate_formatting() {
    let mut hasher = Sha256::new();
    hasher.update(b"0");
    hasher.update(b"1");
    let result = hasher.finalize();
    let formatted = format!("{:x}", result);
    assert_eq!(to_hex(&work_digest(0, 2)), formatted);
    assert_eq!(formatted.len(), do_work(0, 2));
}
