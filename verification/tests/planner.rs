use lading::block::{chunk_bytes, ChunkError, Error};
use rand::SeedableRng;

fn seeded(byte: u8) -> rand::rngs::StdRng {
    rand::rngs::StdRng::from_seed([byte; 32])
}

#[test]
fn chunk_never_size_zero() {
    for seed in 0u8..8 {
        let mut rng = seeded(seed);
        let sizes = vec![50usize, 100, 250];
        let chunks = chunk_bytes(&mut rng, 10_000, &sizes).unwrap();
        for chunk in chunks {
            assert!(chunk > 0);
            assert!(sizes.contains(&chunk));
        }
    }
}

#[test]
fn chunks_never_empty() {
    for seed in 0u8..8 {
        let mut rng = seeded(seed);
        let sizes = vec![50usize];
        let chunks = chunk_bytes(&mut rng, 10_000, &sizes).unwrap();
        assert!(!chunks.is_empty());
    }
}

#[test]
fn chunks_consume_budget() {
    for seed in 0u8..8 {
        let mut rng = seeded(seed);
        let sizes = vec![33usize, 77, 512];
        let total: usize = 40_000;
        let chunks = chunk_bytes(&mut rng, total, &sizes).unwrap();
        let sum: usize = chunks.iter().sum();
        assert!(sum <= total);
        assert!(total - sum <= 33);
    }
}

#[test]
fn chunks_empty_trigger_error() {
    let mut rng = seeded(3);
    let sizes: Vec<usize> = vec![];
    assert_eq!(
        Err(Error::Chunk(ChunkError::EmptyBlockBytes)),
        chunk_bytes(&mut rng, 10_000, &sizes)
    );
}

#[test]
fn chunks_oversize_trigger_error() {
    let mut rng = seeded(4);
    let sizes = vec![128usize, 20_001];
    assert_eq!(
        Err(Error::Chunk(ChunkError::InsufficientTotalBytes)),
        chunk_bytes(&mut rng, 20_000, &sizes)
    );
}

#[test]
fn budget_equal_to_only_size_gives_empty_plan() {
    // The loop stops as soon as the remainder is no larger than the smallest
    // size, so a budget equal to every palette member plans nothing.
    let mut rng = seeded(5);
    let sizes = vec![5usize];
    let chunks = chunk_bytes(&mut rng, 5, &sizes).unwrap();
    assert!(chunks.is_empty());
}

#[test]
fn chunks_are_deterministic_per_seed() {
    let sizes = vec![64usize, 256, 1024];
    let mut rng_a = seeded(9);
    let mut rng_b = seeded(9);
    let a = chunk_bytes(&mut rng_a, 100_000, &sizes).unwrap();
    let b = chunk_bytes(&mut rng_b, 100_000, &sizes).unwrap();
    assert_eq!(a, b);
}
