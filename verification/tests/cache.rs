use lading::block::{construct_block_cache, Error};
use lading::payload::{Fluent, Static, Syslog5424};
use rand::SeedableRng;

fn rng_from_seed(seed: [u8; 32]) -> rand::rngs::StdRng {
    rand::rngs::StdRng::from_seed(seed)
}

fn count_newlines(bytes: &[u8]) -> u64 {
    bytes.iter().filter(|b| **b == b'\n').count() as u64
}

#[test]
fn syslog_cache_blocks_are_well_formed() {
    let mut rng = rng_from_seed([7; 32]);
    let chunks = vec![1024usize, 64, 2048];
    let cache = construct_block_cache(&mut rng, &Syslog5424::default(), &chunks).unwrap();
    assert!(!cache.is_empty());
    for block in &cache {
        assert!(block.total_bytes > 0);
        assert_eq!(block.total_bytes as usize, block.bytes.len());
        assert_eq!(block.lines, count_newlines(&block.bytes));
        assert_eq!(*block.bytes.last().unwrap(), b'\n');
    }
}

#[test]
fn syslog_records_carry_the_envelope() {
    let mut rng = rng_from_seed([8; 32]);
    let chunks = vec![1024usize];
    let cache = construct_block_cache(&mut rng, &Syslog5424::default(), &chunks).unwrap();
    let text = String::from_utf8(cache[0].bytes.clone()).unwrap();
    for line in text.lines() {
        assert!(line.starts_with("<13>1 "));
        assert!(line.len() > 68);
    }
}

#[test]
fn undersized_hints_leave_the_cache_empty() {
    let mut rng = rng_from_seed([9; 32]);
    // Below the smallest record either text renderer can emit.
    let chunks = vec![10usize, 20];
    assert!(matches!(
        construct_block_cache(&mut rng, &Syslog5424::default(), &chunks),
        Err(Error::EmptyCache)
    ));
    let mut rng = rng_from_seed([9; 32]);
    assert!(matches!(
        construct_block_cache(&mut rng, &Fluent::default(), &chunks),
        Err(Error::EmptyCache)
    ));
}

#[test]
fn no_chunks_leave_the_cache_empty() {
    let mut rng = rng_from_seed([9; 32]);
    let chunks: Vec<usize> = vec![];
    assert!(matches!(
        construct_block_cache(&mut rng, &Syslog5424::default(), &chunks),
        Err(Error::EmptyCache)
    ));
}

#[test]
fn fluent_blocks_are_messagepack_framed() {
    let mut rng = rng_from_seed([11; 32]);
    let chunks = vec![512usize];
    let cache = construct_block_cache(&mut rng, &Fluent::default(), &chunks).unwrap();
    let bytes = &cache[0].bytes;
    // Every record opens with a three-element array holding the fixstr tag.
    assert_eq!(bytes[0], 0x93);
    assert_eq!(bytes[1], 0xa6);
    assert_eq!(&bytes[2..8], b"lading");
    assert_eq!(cache[0].total_bytes as usize, bytes.len());
}

#[test]
fn static_blocks_cut_at_line_boundaries() {
    let mut rng = rng_from_seed([12; 32]);
    let content = b"alpha\nbeta\ngamma\ndelta\n".to_vec();
    let chunks = vec![13usize];
    let cache = construct_block_cache(&mut rng, &Static::new(content), &chunks).unwrap();
    // 13 bytes reach into "gamma"; the cut falls back to the end of "beta".
    assert_eq!(cache[0].bytes, b"alpha\nbeta\n".to_vec());
    assert_eq!(cache[0].lines, 2);
}

#[test]
fn static_without_newlines_takes_the_plain_prefix() {
    let mut rng = rng_from_seed([13; 32]);
    let content = b"abcdefgh".to_vec();
    let chunks = vec![4usize];
    let cache = construct_block_cache(&mut rng, &Static::new(content), &chunks).unwrap();
    assert_eq!(cache[0].bytes, b"abcd".to_vec());
    assert_eq!(cache[0].lines, 0);
}
