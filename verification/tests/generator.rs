use lading::block;
use lading::generator::tcp::{
    Config, Connection, Error, Event, GeneratorVariant, MetricAction, Tcp,
};

fn base_config() -> Config {
    Config {
        seed: [42; 32],
        addr: String::from("127.0.0.1:8080"),
        variant: GeneratorVariant::Syslog5424,
        bytes_per_second: 1_048_576,
        block_sizes: Some(vec![1024]),
        maximum_prebuild_cache_size_bytes: 8192,
    }
}

#[test]
fn new_builds_a_non_empty_cache() {
    let tcp = Tcp::new(base_config()).unwrap();
    assert!(!tcp.block_cache.is_empty());
    assert_eq!(tcp.addr, "127.0.0.1:8080");
    assert_eq!(tcp.bytes_per_second, 1_048_576);
    assert!(tcp.metric_labels.is_empty());
    for blk in &tcp.block_cache {
        assert!(blk.total_bytes > 0);
        assert_eq!(blk.total_bytes as usize, blk.bytes.len());
    }
}

#[test]
fn zero_rate_is_refused() {
    let mut config = base_config();
    config.bytes_per_second = 0;
    assert_eq!(Err(Error::Governor), Tcp::new(config).map(|_| ()));
}

#[test]
fn oversized_rate_is_refused() {
    let mut config = base_config();
    config.bytes_per_second = 5_000_000_000;
    assert_eq!(Err(Error::Governor), Tcp::new(config).map(|_| ()));
}

#[test]
fn empty_palette_is_refused() {
    let mut config = base_config();
    config.block_sizes = Some(vec![]);
    assert_eq!(
        Err(Error::Block(block::Error::Chunk(block::ChunkError::EmptyBlockBytes))),
        Tcp::new(config).map(|_| ())
    );
}

#[test]
fn oversized_palette_member_is_refused() {
    let mut config = base_config();
    config.block_sizes = Some(vec![1024, 16_384]);
    assert_eq!(
        Err(Error::Block(block::Error::Chunk(block::ChunkError::InsufficientTotalBytes))),
        Tcp::new(config).map(|_| ())
    );
}

#[test]
fn same_seed_builds_identical_caches() {
    let a = Tcp::new(base_config()).unwrap();
    let b = Tcp::new(base_config()).unwrap();
    assert_eq!(a.block_cache.len(), b.block_cache.len());
    for (x, y) in a.block_cache.iter().zip(b.block_cache.iter()) {
        assert_eq!(x.total_bytes, y.total_bytes);
        assert_eq!(x.lines, y.lines);
        assert_eq!(x.bytes, y.bytes);
    }
}

#[test]
fn same_seed_builds_identical_static_caches() {
    let content = b"one\ntwo\nthree\nfour\nfive\nsix\n".to_vec();
    let mut config_a = base_config();
    config_a.variant = GeneratorVariant::Static { content: content.clone() };
    config_a.block_sizes = Some(vec![8, 16]);
    config_a.maximum_prebuild_cache_size_bytes = 128;
    let mut config_b = base_config();
    config_b.variant = GeneratorVariant::Static { content };
    config_b.block_sizes = Some(vec![8, 16]);
    config_b.maximum_prebuild_cache_size_bytes = 128;
    let a = Tcp::new(config_a).unwrap();
    let b = Tcp::new(config_b).unwrap();
    assert_eq!(a.block_cache.len(), b.block_cache.len());
    for (x, y) in a.block_cache.iter().zip(b.block_cache.iter()) {
        assert_eq!(x.bytes, y.bytes);
        assert_eq!(x.lines, y.lines);
    }
}

#[test]
fn guards_are_mutually_exclusive() {
    assert!(Connection::Absent.may_connect());
    assert!(!Connection::Absent.may_send());
    assert!(Connection::Present.may_send());
    assert!(!Connection::Present.may_connect());
}

#[test]
fn target_down_counts_connection_failures() {
    let tcp = Tcp::new(base_config()).unwrap();
    let mut state = tcp.initial_state();
    assert!(state.connection.may_connect());
    let mut failures = 0u64;
    let bytes_written = 0u64;
    for _ in 0..3 {
        let (next, action) = tcp.on_event(&state, Event::ConnectFailed);
        match action {
            MetricAction::CountConnectionFailure => failures += 1,
            _ => panic!("unexpected action"),
        }
        state = next;
        assert_eq!(state.connection, Connection::Absent);
        assert_eq!(state.cursor, 0);
    }
    assert!(failures >= 1);
    assert_eq!(bytes_written, 0);
    let (_, action) = tcp.on_event(&state, Event::ShutdownReceived);
    assert_eq!(action, MetricAction::Stop);
}

#[test]
fn writes_pace_through_the_cache_in_order() {
    let mut config = base_config();
    config.block_sizes = Some(vec![256, 512]);
    config.maximum_prebuild_cache_size_bytes = 4096;
    let tcp = Tcp::new(config).unwrap();
    let n = tcp.block_cache.len();
    let mut state = tcp.initial_state();
    let (next, action) = tcp.on_event(&state, Event::ConnectSucceeded);
    assert_eq!(action, MetricAction::StoreConnection);
    state = next;
    assert_eq!(state.connection, Connection::Present);

    let mut bytes_written = 0u64;
    let mut last = 0u64;
    for step in 0..(2 * n) {
        assert_eq!(state.cursor, step % n);
        let expected = tcp.block_at(&state).total_bytes;
        let (next, action) = tcp.on_event(&state, Event::WriteSucceeded);
        assert_eq!(action, MetricAction::CountBytesWritten(expected));
        bytes_written += u64::from(expected);
        assert!(bytes_written > last);
        last = bytes_written;
        state = next;
        assert_eq!(state.connection, Connection::Present);
    }
    assert_eq!(state.cursor, 0);
}

#[test]
fn a_failed_write_drops_the_stream_and_keeps_the_cursor_moving() {
    let mut config = base_config();
    config.block_sizes = Some(vec![256]);
    config.maximum_prebuild_cache_size_bytes = 2048;
    let tcp = Tcp::new(config).unwrap();
    let n = tcp.block_cache.len();
    let mut state = tcp.initial_state();
    state = tcp.on_event(&state, Event::ConnectSucceeded).0;
    state = tcp.on_event(&state, Event::WriteSucceeded).0;
    let before = state.cursor;
    let (next, action) = tcp.on_event(&state, Event::WriteFailed);
    assert_eq!(action, MetricAction::CountRequestFailure);
    assert_eq!(next.connection, Connection::Absent);
    assert_eq!(next.cursor, (before + 1) % n);
    // The reconnect does not rewind the cursor.
    let (after, action) = tcp.on_event(&next, Event::ConnectSucceeded);
    assert_eq!(action, MetricAction::StoreConnection);
    assert_eq!(after.cursor, (before + 1) % n);
    assert_eq!(after.connection, Connection::Present);
}

#[test]
fn shutdown_stops_in_any_state() {
    let tcp = Tcp::new(base_config()).unwrap();
    let absent = tcp.initial_state();
    assert_eq!(tcp.on_event(&absent, Event::ShutdownReceived).1, MetricAction::Stop);
    let present = tcp.on_event(&absent, Event::ConnectSucceeded).0;
    assert_eq!(tcp.on_event(&present, Event::ShutdownReceived).1, MetricAction::Stop);
}

#[test]
fn missing_block_sizes_fall_back_to_the_defaults() {
    let mut config = base_config();
    config.block_sizes = None;
    config.maximum_prebuild_cache_size_bytes = 8_000_000;
    let tcp = Tcp::new(config).unwrap();
    assert!(!tcp.block_cache.is_empty());
    for blk in &tcp.block_cache {
        // No default size exceeds 4 MB, so no block can.
        assert!(blk.bytes.len() <= 4_000_000);
    }
}

#[test]
fn errors_convert_through_from() {
    let chunk = block::ChunkError::EmptyBlockBytes;
    assert_eq!(block::Error::from(chunk), block::Error::Chunk(chunk));
    let inner = block::Error::Chunk(block::ChunkError::InsufficientTotalBytes);
    assert_eq!(Error::from(inner), Error::Block(inner));
}

#[test]
fn the_cache_never_exceeds_the_configured_budget() {
    let mut config = base_config();
    config.block_sizes = Some(vec![512, 1024, 2048]);
    config.maximum_prebuild_cache_size_bytes = 10_000;
    let tcp = Tcp::new(config).unwrap();
    let total: usize = tcp.block_cache.iter().map(|b| b.bytes.len()).sum();
    assert!(total <= 10_000);
}
