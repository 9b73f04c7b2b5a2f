//! The TCP protocol speaking generator.
//!
//! The generator pre-builds an immutable cache of payload blocks and then
//! cycles it forever toward the target, pacing itself with a byte-denominated
//! token bucket. The cache construction and the decisions of the emission
//! loop live here; the sockets, the token bucket and the shutdown broadcast
//! are run by the caller, which reports each outcome back as an [`Event`].

use vstd::prelude::*;
use crate::block::{self, chunk_bytes, construct_block_cache, rng_from_seed, Block, ChunkError};
use crate::payload::{Fluent, Static, Syslog5424};

verus! {

/// Configuration of this generator.
#[derive(Debug)]
pub struct Config {
    /// The seed for random operations against this target.
    pub seed: [u8; 32],
    /// The address for the target, a host:port pair.
    pub addr: String,
    /// The payload variant.
    pub variant: GeneratorVariant,
    /// The bytes per second to send to the target.
    pub bytes_per_second: u64,
    /// The block sizes for messages to this target.
    pub block_sizes: Option<Vec<usize>>,
    /// The maximum size in bytes of the cache of prebuilt messages.
    pub maximum_prebuild_cache_size_bytes: usize,
}

/// Variants supported by this generator.
#[derive(Debug)]
pub enum GeneratorVariant {
    /// Generates Fluent messages.
    Fluent,
    /// Generates syslog5424 messages.
    Syslog5424,
    /// Generates static, user supplied data. The content is assumed to be
    /// line-oriented but no other claim is made on it; the caller loads it
    /// from disk before construction.
    Static {
        /// The bytes the static payload reproduces.
        content: Vec<u8>,
    },
}

/// Errors produced by [`Tcp`].
#[derive(Debug, PartialEq, Eq, Clone, Copy, Structural)]
pub enum Error {
    /// The configured rate does not fit the governor's 32-bit capacity.
    Governor,
    /// Creation of payload blocks failed.
    Block(block::Error),
}

impl core::convert::From<block::Error> for Error {
    fn from(error: block::Error) -> Self {
        Error::Block(error)
    }
}

impl vstd::std_specs::convert::FromSpecImpl<block::Error> for Error {
    open spec fn obeys_from_spec() -> bool {
        true
    }

    open spec fn from_spec(error: block::Error) -> Self {
        Error::Block(error)
    }
}

/// The block sizes used when the configuration names none: from 1/32 MB up
/// to 4 MB, in powers of two.
pub open spec fn spec_default_block_sizes() -> Seq<usize> {
    seq![
        31250usize,
        62500usize,
        125000usize,
        250000usize,
        500000usize,
        1000000usize,
        2000000usize,
        4000000usize,
    ]
}

fn default_block_sizes() -> (v: Vec<usize>)
    ensures
        v@ == spec_default_block_sizes(),
{
    let mut v: Vec<usize> = Vec::new();
    v.push(31250);
    v.push(62500);
    v.push(125000);
    v.push(250000);
    v.push(500000);
    v.push(1000000);
    v.push(2000000);
    v.push(4000000);
    proof {
        assert(v@ =~= spec_default_block_sizes());
    }
    v
}

/// The block sizes a configuration stands for: its own, or the defaults.
pub open spec fn effective_block_sizes(c: Config) -> Seq<usize> {
    match c.block_sizes {
        Some(v) => v@,
        None => spec_default_block_sizes(),
    }
}

/// The hint size from which on a variant's renderer always emits at least
/// one byte; nothing for a static variant with no content.
pub open spec fn variant_min_fill(v: GeneratorVariant) -> Option<int> {
    match v {
        GeneratorVariant::Syslog5424 => Some(crate::payload::syslog_max_record_len()),
        GeneratorVariant::Fluent => Some(crate::payload::fluent_max_record_len()),
        GeneratorVariant::Static { content } => if content@.len() > 0 {
            Some(1)
        } else {
            None
        },
    }
}

/// The TCP generator.
///
/// This generator is responsible for connecting to the target via TCP.
#[derive(Debug)]
pub struct Tcp {
    /// The unresolved address of the target.
    pub addr: String,
    /// The token-bucket rate, in bytes per second.
    pub bytes_per_second: u32,
    /// The pre-built payload blocks, cycled forever during emission.
    pub block_cache: Vec<Block>,
    /// Labels attached to every metric this generator emits.
    pub metric_labels: Vec<(String, String)>,
}

impl Tcp {
    /// A generator ready to run: a positive rate and a non-empty cache of
    /// well-formed blocks.
    pub open spec fn well_formed(&self) -> bool {
        &&& 0 < self.bytes_per_second
        &&& 1 <= self.block_cache@.len()
        &&& forall|i: int| 0 <= i < self.block_cache@.len()
            ==> (#[trigger] self.block_cache@[i]).well_formed()
    }

    /// Create a new [`Tcp`] instance: plan the chunk sizes and pre-build the
    /// block cache for the configured payload variant.
    ///
    /// # Errors
    ///
    /// Creation fails if the configured rate does not fit the governor's
    /// 32-bit capacity, if the block sizes cannot be planned, or if no chunk
    /// serialized into a non-empty block.
    pub fn new(config: Config) -> (r: Result<Tcp, Error>)
        requires
            0 < config.maximum_prebuild_cache_size_bytes,
            forall|i: int| 0 <= i < effective_block_sizes(config).len()
                ==> 0 < #[trigger] effective_block_sizes(config)[i] <= u32::MAX,
        ensures
            r == Err::<Tcp, Error>(Error::Governor) <==> (config.bytes_per_second == 0
                || config.bytes_per_second > u32::MAX),
            (0 < config.bytes_per_second <= u32::MAX && effective_block_sizes(config).len() == 0)
                <==> r == Err::<Tcp, Error>(Error::Block(block::Error::Chunk(
                ChunkError::EmptyBlockBytes,
            ))),
            (0 < config.bytes_per_second <= u32::MAX && effective_block_sizes(config).len() > 0
                && exists|i: int|
                0 <= i < effective_block_sizes(config).len()
                    && #[trigger] effective_block_sizes(config)[i]
                    > config.maximum_prebuild_cache_size_bytes) <==> r == Err::<Tcp, Error>(
                Error::Block(block::Error::Chunk(ChunkError::InsufficientTotalBytes)),
            ),
            r is Err ==> (r == Err::<Tcp, Error>(Error::Governor) || (r matches Err(
                Error::Block(e),
            ) && (e is Chunk || e is SerializerFailure || e is EmptyCache))),
            (0 < config.bytes_per_second <= u32::MAX && effective_block_sizes(config).len() > 0
                && variant_min_fill(config.variant) is Some && (forall|i: int|
                0 <= i < effective_block_sizes(config).len()
                    ==> variant_min_fill(config.variant)->Some_0
                    <= #[trigger] effective_block_sizes(config)[i]
                    <= config.maximum_prebuild_cache_size_bytes) && (exists|i: int|
                0 <= i < effective_block_sizes(config).len()
                    && #[trigger] effective_block_sizes(config)[i]
                    < config.maximum_prebuild_cache_size_bytes)) ==> r is Ok,
            r matches Ok(t) ==> {
                &&& t.well_formed()
                &&& t.addr@ == config.addr@
                &&& t.bytes_per_second == config.bytes_per_second
                &&& t.metric_labels@.len() == 0
                &&& block::cache_bytes(t.block_cache@) <= config.maximum_prebuild_cache_size_bytes
            },
    {
        let mut rng = rng_from_seed(config.seed);
        if config.bytes_per_second == 0 || config.bytes_per_second > 0xffff_ffff {
            return Err(Error::Governor);
        }
        let bytes_per_second = config.bytes_per_second as u32;
        let block_sizes: Vec<usize> = match config.block_sizes {
            Some(v) => v,
            None => default_block_sizes(),
        };
        proof {
            assert(block_sizes@ == effective_block_sizes(config));
        }
        let labels: Vec<(String, String)> = Vec::new();
        let block_chunks = match chunk_bytes(
            &mut rng,
            config.maximum_prebuild_cache_size_bytes,
            &block_sizes,
        ) {
            Ok(chunks) => chunks,
            Err(e) => {
                return Err(Error::Block(e));
            }
        };
        proof {
            assert forall|i: int| 0 <= i < block_chunks@.len() implies #[trigger] block_chunks@[i]
                <= u32::MAX by {
                let j = choose|j: int|
                    0 <= j < block_sizes@.len() && block_chunks@[i] == block_sizes@[j];
                assert(effective_block_sizes(config)[j] <= u32::MAX);
            }
            // When every allowed size reaches the variant's minimum fill, the
            // first planned chunk does too.
            if variant_min_fill(config.variant) is Some {
                let m = variant_min_fill(config.variant)->Some_0;
                if (forall|i: int| 0 <= i < block_sizes@.len() ==> m <= #[trigger] block_sizes@[i])
                    && block_chunks@.len() > 0 {
                    let j = choose|j: int|
                        0 <= j < block_sizes@.len() && block_chunks@[0] == block_sizes@[j];
                    assert(m <= block_chunks@[0]);
                    assert(exists|i: int|
                        0 <= i < block_chunks@.len() && #[trigger] block_chunks@[i] >= m);
                }
            }
        }
        let built = match config.variant {
            GeneratorVariant::Syslog5424 => {
                let serializer = Syslog5424::default();
                construct_block_cache(&mut rng, &serializer, &block_chunks)
            }
            GeneratorVariant::Fluent => {
                let serializer = Fluent::default();
                construct_block_cache(&mut rng, &serializer, &block_chunks)
            }
            GeneratorVariant::Static { content } => {
                let serializer = Static::new(content);
                construct_block_cache(&mut rng, &serializer, &block_chunks)
            }
        };
        let block_cache = match built {
            Ok(cache) => cache,
            Err(e) => {
                return Err(Error::Block(e));
            }
        };
        Ok(
            Tcp {
                addr: config.addr,
                bytes_per_second,
                block_cache,
                metric_labels: labels,
            },
        )
    }
}

/// The connection slot of the emission loop: a TCP stream is either held or
/// absent. The stream itself stays with the caller; the loop's decisions
/// depend only on whether one is held.
#[derive(Debug, PartialEq, Eq, Clone, Copy, Structural)]
pub enum Connection {
    /// No stream is held; the loop re-arms the connect attempt.
    Absent,
    /// A stream is held; the loop paces and sends blocks.
    Present,
}

impl Connection {
    /// The connect event may be polled exactly when no stream is held.
    pub fn may_connect(&self) -> (r: bool)
        ensures
            r <==> self is Absent,
    {
        matches!(self, Connection::Absent)
    }

    /// The paced send may be polled exactly when a stream is held.
    pub fn may_send(&self) -> (r: bool)
        ensures
            r <==> self is Present,
    {
        matches!(self, Connection::Present)
    }
}

/// What the caller observed while running one iteration of the emission
/// loop.
#[derive(Debug, PartialEq, Eq, Clone, Copy, Structural)]
pub enum Event {
    /// The connect attempt returned a stream.
    ConnectSucceeded,
    /// The connect attempt failed.
    ConnectFailed,
    /// The whole current block was written to the stream.
    WriteSucceeded,
    /// Writing the current block failed.
    WriteFailed,
    /// The shutdown broadcast was observed.
    ShutdownReceived,
}

/// What the caller must do after an event is folded into the state.
#[derive(Debug, PartialEq, Eq, Clone, Copy, Structural)]
pub enum MetricAction {
    /// Keep the stream just obtained; nothing to record.
    StoreConnection,
    /// Increment `connection_failure` by one, with the error's label.
    CountConnectionFailure,
    /// Increment `bytes_written` by the given block size.
    CountBytesWritten(u32),
    /// Increment `request_failure` by one, with the error's label, and drop
    /// the stream.
    CountRequestFailure,
    /// Log and return: the loop is over.
    Stop,
}

/// The caller-held state of the emission loop: the connection slot and the
/// cyclic cursor into the block cache.
#[derive(Debug, PartialEq, Eq, Clone, Copy, Structural)]
pub struct EmissionState {
    /// Whether a stream is held.
    pub connection: Connection,
    /// Index of the next block to send.
    pub cursor: usize,
}

impl Tcp {
    /// The state the emission loop starts in: no stream, cursor at the first
    /// block.
    pub fn initial_state(&self) -> (s: EmissionState)
        ensures
            s.connection is Absent,
            s.cursor == 0,
    {
        EmissionState { connection: Connection::Absent, cursor: 0 }
    }

    /// The block the cursor points at: the one the next send attempt writes.
    pub fn block_at(&self, s: &EmissionState) -> (b: &Block)
        requires
            self.well_formed(),
            s.cursor < self.block_cache@.len(),
        ensures
            b == self.block_cache@[s.cursor as int],
            b.well_formed(),
    {
        &self.block_cache[s.cursor]
    }

    /// Fold one observed event into the emission state and say what the
    /// caller must do: store or drop the stream, bump the right counter, or
    /// stop. The cursor advances on each attempted send, successful or not,
    /// cycling through the cache; it never rewinds on reconnect.
    pub fn on_event(&self, s: &EmissionState, event: Event) -> (r: (EmissionState, MetricAction))
        requires
            self.well_formed(),
            s.cursor < self.block_cache@.len(),
            (event is ConnectSucceeded || event is ConnectFailed) ==> s.connection is Absent,
            (event is WriteSucceeded || event is WriteFailed) ==> s.connection is Present,
        ensures
            r.0.cursor < self.block_cache@.len(),
            event is ConnectSucceeded ==> r.0 == (EmissionState {
                connection: Connection::Present,
                cursor: s.cursor,
            }) && r.1 == MetricAction::StoreConnection,
            event is ConnectFailed ==> r.0 == *s && r.1 == MetricAction::CountConnectionFailure,
            event is WriteSucceeded ==> r.0 == (EmissionState {
                connection: Connection::Present,
                cursor: (((s.cursor + 1) % (self.block_cache@.len() as int)) as usize),
            }) && r.1 == MetricAction::CountBytesWritten(
                self.block_cache@[s.cursor as int].total_bytes,
            ),
            event is WriteSucceeded ==> (r.1 matches MetricAction::CountBytesWritten(written)
                && 0 < written),
            event is WriteFailed ==> r.0 == (EmissionState {
                connection: Connection::Absent,
                cursor: (((s.cursor + 1) % (self.block_cache@.len() as int)) as usize),
            }) && r.1 == MetricAction::CountRequestFailure,
            event is ShutdownReceived ==> r.0 == *s && r.1 == MetricAction::Stop,
    {
        match event {
            Event::ConnectSucceeded => (
                EmissionState { connection: Connection::Present, cursor: s.cursor },
                MetricAction::StoreConnection,
            ),
            Event::ConnectFailed => (*s, MetricAction::CountConnectionFailure),
            Event::WriteSucceeded => {
                let total_bytes = self.block_cache[s.cursor].total_bytes;
                (
                    EmissionState {
                        connection: Connection::Present,
                        cursor: self.advance(s.cursor),
                    },
                    MetricAction::CountBytesWritten(total_bytes),
                )
            }
            Event::WriteFailed => (
                EmissionState { connection: Connection::Absent, cursor: self.advance(s.cursor) },
                MetricAction::CountRequestFailure,
            ),
            Event::ShutdownReceived => (*s, MetricAction::Stop),
        }
    }

    /// The cursor after one attempted send: the next block, wrapping back to
    /// the first at the end of the cache.
    fn advance(&self, cursor: usize) -> (c: usize)
        requires
            self.well_formed(),
            cursor < self.block_cache@.len(),
        ensures
            c == (cursor + 1) % (self.block_cache@.len() as int),
            c < self.block_cache@.len(),
    {
        let len = self.block_cache.len();
        if cursor + 1 == len {
            proof {
                assert(len as int % len as int == 0) by (nonlinear_arith)
                    requires
                        len > 0,
                ;
            }
            0
        } else {
            proof {
                assert((cursor + 1) % (len as int) == cursor + 1) by (nonlinear_arith)
                    requires
                        0 <= cursor + 1 < len,
                ;
            }
            cursor + 1
        }
    }
}

} // verus!
