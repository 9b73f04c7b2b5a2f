//! Pre-serialized payload blocks and the chunk planner that parcels a byte
//! budget into block sizes.

use vstd::prelude::*;
use crate::count_newlines;
use rand::seq::SliceRandom;

verus! {

/// Errors of the chunk planner.
#[derive(Debug, PartialEq, Eq, Clone, Copy, Structural)]
pub enum ChunkError {
    /// The slice of byte sizes given to the planner was empty.
    EmptyBlockBytes,
    /// The `total_bytes` parameter is insufficient: some block size exceeds it.
    InsufficientTotalBytes,
}

/// Errors of block-cache construction.
#[derive(Debug, PartialEq, Eq, Clone, Copy, Structural)]
pub enum Error {
    /// Planning the chunk sizes failed.
    Chunk(ChunkError),
    /// A serializer reported an error while rendering a block.
    SerializerFailure,
    /// Every serialized block came out empty: the cache would be empty.
    EmptyCache,
}

impl core::convert::From<ChunkError> for Error {
    fn from(error: ChunkError) -> Self {
        Error::Chunk(error)
    }
}

impl vstd::std_specs::convert::FromSpecImpl<ChunkError> for Error {
    open spec fn obeys_from_spec() -> bool {
        true
    }

    open spec fn from_spec(error: ChunkError) -> Self {
        Error::Chunk(error)
    }
}

/// Sum of a sequence of sizes.
pub open spec fn sum_of(s: Seq<usize>) -> int
    decreases s.len(),
{
    if s.len() == 0 {
        0
    } else {
        sum_of(s.drop_last()) + s.last()
    }
}

/// rand's standard random number generator, opaque to the verifier.
#[verifier::external_type_specification]
#[verifier::external_body]
pub struct ExStdRng(rand::rngs::StdRng);

/// Relies on rand's `SeedableRng::from_seed`: builds a generator whose draws
/// are a deterministic function of the 32-byte seed.
#[verifier::external_body]
pub(crate) fn rng_from_seed(seed: [u8; 32]) -> rand::rngs::StdRng {
    <rand::rngs::StdRng as rand::SeedableRng>::from_seed(seed)
}

/// Relies on rand's `SliceRandom::choose`: for a non-empty slice it returns
/// `Some` of one element, picked uniformly at random.
#[verifier::external_body]
fn choose_size(rng: &mut rand::rngs::StdRng, sizes: &Vec<usize>) -> (r: usize)
    requires
        sizes@.len() > 0,
    ensures
        sizes@.contains(r),
{
    *sizes.as_slice().choose(rng).expect("sizes is non-empty")
}

/// Smallest element of a non-empty list of sizes.
fn min_size(sizes: &Vec<usize>) -> (m: usize)
    requires
        sizes@.len() > 0,
    ensures
        exists|i: int| 0 <= i < sizes@.len() && sizes@[i] == m,
        forall|i: int| 0 <= i < sizes@.len() ==> m <= #[trigger] sizes@[i],
{
    let mut m = sizes[0];
    let mut k: usize = 1;
    while k < sizes.len()
        invariant
            1 <= k <= sizes@.len(),
            exists|i: int| 0 <= i < sizes@.len() && sizes@[i] == m,
            forall|i: int| 0 <= i < k ==> m <= #[trigger] sizes@[i],
        decreases sizes@.len() - k,
    {
        if sizes[k] < m {
            m = sizes[k];
        }
        k += 1;
    }
    m
}

/// Largest element of a non-empty list of sizes.
fn max_size(sizes: &Vec<usize>) -> (m: usize)
    requires
        sizes@.len() > 0,
    ensures
        exists|i: int| 0 <= i < sizes@.len() && sizes@[i] == m,
        forall|i: int| 0 <= i < sizes@.len() ==> #[trigger] sizes@[i] <= m,
{
    let mut m = sizes[0];
    let mut k: usize = 1;
    while k < sizes.len()
        invariant
            1 <= k <= sizes@.len(),
            exists|i: int| 0 <= i < sizes@.len() && sizes@[i] == m,
            forall|i: int| 0 <= i < k ==> #[trigger] sizes@[i] <= m,
        decreases sizes@.len() - k,
    {
        if sizes[k] > m {
            m = sizes[k];
        }
        k += 1;
    }
    m
}

/// Construct a vec of block sizes that fit into `total_bytes`.
///
/// From the allowable block sizes a random member no larger than the bytes
/// still unspent is chosen and deducted from the total bytes remaining. This
/// continues until the total bytes remaining falls below the smallest block
/// size. The planner never emits a zero-sized block, every planned size is a
/// member of `block_byte_sizes`, and the unspent remainder never exceeds the
/// smallest allowed size.
///
/// # Errors
///
/// Returns an error if `block_byte_sizes` is empty or if a member of
/// `block_byte_sizes` is larger than `total_bytes`.
pub fn chunk_bytes(
    rng: &mut rand::rngs::StdRng,
    total_bytes: usize,
    block_byte_sizes: &Vec<usize>,
) -> (r: Result<Vec<usize>, Error>)
    requires
        0 < total_bytes,
        forall|i: int| 0 <= i < block_byte_sizes@.len() ==> 0 < #[trigger] block_byte_sizes@[i],
    ensures
        r is Err <==> (block_byte_sizes@.len() == 0 || exists|i: int|
            0 <= i < block_byte_sizes@.len() && #[trigger] block_byte_sizes@[i] > total_bytes),
        block_byte_sizes@.len() == 0 ==> r == Err::<Vec<usize>, Error>(
            Error::Chunk(ChunkError::EmptyBlockBytes),
        ),
        (block_byte_sizes@.len() > 0 && exists|i: int|
            0 <= i < block_byte_sizes@.len() && #[trigger] block_byte_sizes@[i] > total_bytes)
            ==> r == Err::<Vec<usize>, Error>(Error::Chunk(ChunkError::InsufficientTotalBytes)),
        r matches Ok(chunks) ==> {
            &&& forall|i: int| 0 <= i < chunks@.len() ==> 0 < #[trigger] chunks@[i]
            &&& forall|i: int| 0 <= i < chunks@.len() ==> exists|j: int|
                0 <= j < block_byte_sizes@.len() && #[trigger] chunks@[i] == block_byte_sizes@[j]
            &&& sum_of(chunks@) <= total_bytes
            &&& forall|i: int| 0 <= i < block_byte_sizes@.len()
                ==> total_bytes - sum_of(chunks@) <= #[trigger] block_byte_sizes@[i]
            &&& (exists|i: int| 0 <= i < block_byte_sizes@.len()
                && #[trigger] block_byte_sizes@[i] < total_bytes) ==> chunks@.len() > 0
        },
{
    if block_byte_sizes.len() == 0 {
        return Err(Error::Chunk(ChunkError::EmptyBlockBytes));
    }
    let mut k: usize = 0;
    while k < block_byte_sizes.len()
        invariant
            k <= block_byte_sizes@.len(),
            forall|j: int| 0 <= j < k ==> #[trigger] block_byte_sizes@[j] <= total_bytes,
        decreases block_byte_sizes@.len() - k,
    {
        if block_byte_sizes[k] > total_bytes {
            return Err(Error::Chunk(ChunkError::InsufficientTotalBytes));
        }
        k += 1;
    }

    let minimum = min_size(block_byte_sizes);
    let maximum = max_size(block_byte_sizes);

    let mut chunks: Vec<usize> = Vec::new();
    let mut bytes_remaining: usize = total_bytes;
    while bytes_remaining > minimum
        invariant
            0 < total_bytes,
            block_byte_sizes@.len() > 0,
            forall|i: int| 0 <= i < block_byte_sizes@.len() ==> 0 < #[trigger] block_byte_sizes@[i],
            exists|i: int| 0 <= i < block_byte_sizes@.len() && block_byte_sizes@[i] == minimum,
            forall|i: int| 0 <= i < block_byte_sizes@.len() ==> minimum <= #[trigger] block_byte_sizes@[i],
            forall|i: int| 0 <= i < block_byte_sizes@.len() ==> #[trigger] block_byte_sizes@[i] <= maximum,
            sum_of(chunks@) + bytes_remaining == total_bytes,
            bytes_remaining <= total_bytes,
            forall|i: int| 0 <= i < chunks@.len() ==> 0 < #[trigger] chunks@[i],
            forall|i: int| 0 <= i < chunks@.len() ==> exists|j: int|
                0 <= j < block_byte_sizes@.len() && #[trigger] chunks@[i] == block_byte_sizes@[j],
            chunks@.len() == 0 ==> bytes_remaining == total_bytes,
        decreases bytes_remaining,
    {
        let bytes_max = if maximum < bytes_remaining {
            maximum
        } else {
            bytes_remaining
        };

        let mut eligible: Vec<usize> = Vec::new();
        let mut j: usize = 0;
        while j < block_byte_sizes.len()
            invariant
                j <= block_byte_sizes@.len(),
                forall|t: int| 0 <= t < eligible@.len() ==> #[trigger] eligible@[t] <= bytes_max,
                forall|t: int| 0 <= t < eligible@.len() ==> exists|u: int|
                    0 <= u < block_byte_sizes@.len() && #[trigger] eligible@[t] == block_byte_sizes@[u],
                forall|u: int| 0 <= u < j && #[trigger] block_byte_sizes@[u] <= bytes_max
                    ==> eligible@.contains(block_byte_sizes@[u]),
            decreases block_byte_sizes@.len() - j,
        {
            let ghost prior = eligible@;
            if block_byte_sizes[j] <= bytes_max {
                eligible.push(block_byte_sizes[j]);
            }
            proof {
                assert forall|u: int|
                    0 <= u < j + 1 && #[trigger] block_byte_sizes@[u] <= bytes_max
                    implies eligible@.contains(block_byte_sizes@[u]) by {
                    if u < j {
                        let t = choose|t: int|
                            0 <= t < prior.len() && prior[t] == block_byte_sizes@[u];
                        assert(eligible@[t] == block_byte_sizes@[u]);
                    } else {
                        assert(eligible@[prior.len() as int] == block_byte_sizes@[u]);
                    }
                }
            }
            j += 1;
        }

        proof {
            // The smallest allowed size is always eligible, so a draw exists.
            let i = choose|i: int|
                0 <= i < block_byte_sizes@.len() && block_byte_sizes@[i] == minimum;
            assert(block_byte_sizes@[i] <= bytes_max);
            assert(eligible@.contains(block_byte_sizes@[i]));
        }
        let block_bytes = choose_size(rng, &eligible);

        proof {
            assert(sum_of(chunks@.push(block_bytes)) == sum_of(chunks@) + block_bytes) by {
                assert(chunks@.push(block_bytes).drop_last() =~= chunks@);
            }
        }
        chunks.push(block_bytes);
        bytes_remaining = bytes_remaining - block_bytes;
    }
    Ok(chunks)
}

/// A pre-serialized, immutable payload ready to write to the wire.
#[derive(Debug)]
pub struct Block {
    /// Length of `bytes`; always positive.
    pub total_bytes: u32,
    /// Count of newline bytes in `bytes`.
    pub lines: u64,
    /// The payload itself.
    pub bytes: Vec<u8>,
}

impl Block {
    /// The metadata of a block agrees with its payload: the size is the
    /// payload's true, positive length and the line count is the true count
    /// of newline bytes.
    pub open spec fn well_formed(&self) -> bool {
        &&& 0 < self.total_bytes
        &&& self.total_bytes == self.bytes@.len()
        &&& self.lines == count_newlines(self.bytes@)
    }
}

/// Total payload bytes the blocks of a cache hold.
pub open spec fn cache_bytes(s: Seq<Block>) -> int
    decreases s.len(),
{
    if s.len() == 0 {
        0
    } else {
        cache_bytes(s.drop_last()) + s.last().bytes@.len()
    }
}

/// Whether some order-preserving assignment ties every cache position to a
/// chunk position (see [`cache_from_chunks`]).
pub open spec fn cache_covered_by_chunks(cache: Seq<Block>, chunks: Seq<usize>) -> bool {
    exists|f: Seq<int>| cache_from_chunks(cache, chunks, f)
}

/// An order-preserving assignment of cache positions to chunk positions:
/// the blocks stand in chunk order, each later than the one before it, and
/// each fits the size of the chunk it was rendered for.
pub open spec fn cache_from_chunks(cache: Seq<Block>, chunks: Seq<usize>, f: Seq<int>) -> bool {
    &&& f.len() == cache.len()
    &&& forall|k: int| 0 <= k < f.len() ==> 0 <= #[trigger] f[k] < chunks.len()
    &&& forall|k: int| 0 < k < f.len() ==> #[trigger] f[k - 1] < f[k]
    &&& forall|k: int| 0 <= k < f.len() ==> cache[k].bytes@.len() <= chunks[#[trigger] f[k]]
}

/// Error reported by a payload serializer.
#[derive(Debug, PartialEq, Eq, Clone, Copy, Structural)]
pub struct SerializeError;

/// A wire-format renderer: one of the payload variants the generator can
/// speak.
pub trait Serialize {
    /// A hint size from which on this renderer always appends at least one
    /// byte; nothing when no such bound is known.
    spec fn min_fill(&self) -> Option<int>;

    /// Whether this renderer never reports an error.
    spec fn infallible(&self) -> bool;

    /// Whether this renderer appends nothing, whatever the hint.
    spec fn renders_empty(&self) -> bool;

    /// Append at most `max_bytes` bytes of wire content to `writer`; what was
    /// already in `writer` is kept. Appending nothing is legal: the hint may
    /// be below the smallest representable record.
    fn to_bytes(
        &self,
        rng: &mut rand::rngs::StdRng,
        max_bytes: usize,
        writer: &mut Vec<u8>,
    ) -> (r: Result<(), SerializeError>)
        ensures
            final(writer)@.len() <= old(writer)@.len() + max_bytes,
            final(writer)@.subrange(0, old(writer)@.len() as int) == old(writer)@,
            self.infallible() ==> r is Ok,
            (r is Ok && self.min_fill() is Some && max_bytes >= self.min_fill()->Some_0)
                ==> final(writer)@.len() > old(writer)@.len(),
            self.renders_empty() ==> final(writer)@.len() == old(writer)@.len(),
    ;
}

/// Relies on bytecount::count: the number of occurrences of the needle byte
/// in the slice, here the newline byte.
#[verifier::external_body]
fn total_newlines(input: &Vec<u8>) -> (r: u64)
    ensures
        r == count_newlines(input@),
{
    bytecount::count(input.as_slice(), b'\n') as u64
}

/// Construct a new block cache of the form defined by `serializer`.
///
/// A "block cache" is a pre-made vec of serialized payloads. Serializing on
/// the fly is not cheap, so it is done once, ahead of time. Block sizes vary
/// as `block_chunks` dictates. Chunks whose render comes out empty are
/// skipped; if every chunk does, construction fails, as it does when the
/// serializer itself reports an error.
pub fn construct_block_cache<S: Serialize>(
    rng: &mut rand::rngs::StdRng,
    serializer: &S,
    block_chunks: &Vec<usize>,
) -> (r: Result<Vec<Block>, Error>)
    requires
        forall|i: int| 0 <= i < block_chunks@.len() ==> #[trigger] block_chunks@[i] <= u32::MAX,
    ensures
        r matches Ok(cache) ==> 1 <= cache@.len() <= block_chunks@.len(),
        r matches Ok(cache) ==> forall|i: int|
            0 <= i < cache@.len() ==> (#[trigger] cache@[i]).well_formed(),
        r matches Err(e) ==> (e == Error::SerializerFailure || e == Error::EmptyCache),
        block_chunks@.len() == 0 ==> r == Err::<Vec<Block>, Error>(Error::EmptyCache),
        (serializer.infallible() && serializer.min_fill() is Some && exists|i: int|
            0 <= i < block_chunks@.len() && #[trigger] block_chunks@[i]
                >= serializer.min_fill()->Some_0) ==> r is Ok,
        r matches Ok(cache) ==> cache_bytes(cache@) <= sum_of(block_chunks@),
        r matches Ok(cache) ==> cache_covered_by_chunks(cache@, block_chunks@),
        serializer.renders_empty() ==> r is Err,
        (serializer.renders_empty() && serializer.infallible()) ==> r == Err::<Vec<Block>, Error>(
            Error::EmptyCache,
        ),
{
    let mut block_cache: Vec<Block> = Vec::new();
    let ghost mut origin: Seq<int> = Seq::empty();
    let mut idx: usize = 0;
    while idx < block_chunks.len()
        invariant
            forall|i: int| 0 <= i < block_chunks@.len() ==> #[trigger] block_chunks@[i] <= u32::MAX,
            idx <= block_chunks@.len(),
            block_cache@.len() <= idx,
            forall|i: int| 0 <= i < block_cache@.len() ==> (#[trigger] block_cache@[i]).well_formed(),
            (serializer.min_fill() is Some && exists|i: int|
                0 <= i < idx && #[trigger] block_chunks@[i] >= serializer.min_fill()->Some_0)
                ==> block_cache@.len() > 0,
            serializer.renders_empty() ==> block_cache@.len() == 0,
            cache_bytes(block_cache@) <= sum_of(block_chunks@.take(idx as int)),
            origin.len() == block_cache@.len(),
            forall|k: int| 0 <= k < origin.len() ==> 0 <= #[trigger] origin[k] < idx,
            forall|k: int| 0 < k < origin.len() ==> #[trigger] origin[k - 1] < origin[k],
            forall|k: int| 0 <= k < origin.len() ==> block_cache@[k].bytes@.len()
                <= block_chunks@[#[trigger] origin[k]],
        decreases block_chunks@.len() - idx,
    {
        let block_size = block_chunks[idx];
        let mut block: Vec<u8> = Vec::new();
        match serializer.to_bytes(rng, block_size, &mut block) {
            Ok(()) => {}
            Err(_) => {
                return Err(Error::SerializerFailure);
            }
        }
        proof {
            assert(block_chunks@.take(idx + 1).drop_last() =~= block_chunks@.take(idx as int));
        }
        if block.len() > 0 {
            let total_bytes: u32 = block.len() as u32;
            let lines = total_newlines(&block);
            let ghost prior = block_cache@;
            block_cache.push(Block { total_bytes, lines, bytes: block });
            proof {
                origin = origin.push(idx as int);
                assert(block_cache@.drop_last() =~= prior);
            }
        }
        idx += 1;
    }
    proof {
        assert(block_chunks@.take(block_chunks@.len() as int) =~= block_chunks@);
        assert(cache_covered_by_chunks(block_cache@, block_chunks@)) by {
            assert(cache_from_chunks(block_cache@, block_chunks@, origin));
        }
    }
    if block_cache.len() == 0 {
        return Err(Error::EmptyCache);
    }
    Ok(block_cache)
}

} // verus!
