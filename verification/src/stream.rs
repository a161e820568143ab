//! Binary chunking for streamed delivery: chunk types with fixed
//! priorities, and a streamer that hands chunks out in priority order.

use vstd::prelude::*;

verus! {

/// The chunk types of a streamed response, in the order a client needs
/// them.
#[derive(Debug, Clone, Copy, PartialEq, Eq, Structural)]
pub enum ChunkType {
    Templates,
    BaseMemory,
    PageData,
}

/// The streaming priority of each chunk type; 0 streams first.
pub open spec fn chunk_priority(t: ChunkType) -> u8 {
    match t {
        ChunkType::Templates => 0,
        ChunkType::BaseMemory => 1,
        ChunkType::PageData => 2,
    }
}

/// A chunk of binary data to stream.
#[derive(Debug, Clone, PartialEq, Eq)]
pub struct BinaryChunk {
    pub chunk_type: ChunkType,
    pub data: Vec<u8>,
    pub priority: u8,
}

impl BinaryChunk {
    /// A chunk with the fixed priority of its type.
    pub fn new(chunk_type: ChunkType, data: Vec<u8>) -> (r: Self)
        ensures
            r.chunk_type == chunk_type,
            r.data@ == data@,
            r.priority == chunk_priority(chunk_type),
    {
        let priority: u8 = match chunk_type {
            ChunkType::Templates => 0,
            ChunkType::BaseMemory => 1,
            ChunkType::PageData => 2,
        };
        BinaryChunk { chunk_type, data, priority }
    }
}

/// A stream of chunks, handed out lowest priority value first, stably.
#[derive(Debug)]
pub struct BinaryStreamer {
    pub chunks: Vec<BinaryChunk>,
}

/// The indices of the first `n` chunks with a given priority, in
/// insertion order.
pub open spec fn indices_upto(chunks: Seq<BinaryChunk>, p: u8, n: int) -> Seq<usize>
    decreases n,
{
    if n <= 0 {
        Seq::empty()
    } else if chunks[n - 1].priority == p {
        indices_upto(chunks, p, n - 1).push((n - 1) as usize)
    } else {
        indices_upto(chunks, p, n - 1)
    }
}

/// The indices of chunks with a given priority, in insertion order.
pub open spec fn indices_with_priority(chunks: Seq<BinaryChunk>, p: u8) -> Seq<usize> {
    indices_upto(chunks, p, chunks.len() as int)
}

impl BinaryStreamer {
    /// An empty streamer.
    pub fn new() -> (r: Self)
        ensures
            r.chunks@ == Seq::<BinaryChunk>::empty(),
    {
        BinaryStreamer { chunks: Vec::new() }
    }

    /// Add a chunk to the stream.
    pub fn add_chunk(&mut self, chunk: BinaryChunk)
        ensures
            final(self).chunks@ == old(self).chunks@.push(chunk),
    {
        self.chunks.push(chunk);
    }

    /// The chunk indices in optimal streaming order: all priority-0
    /// chunks, then priority 1, then priority 2, each group in insertion
    /// order.
    pub fn ordered_indices(&self) -> (r: Vec<usize>)
        ensures
            r@ == indices_with_priority(self.chunks@, 0)
                + indices_with_priority(self.chunks@, 1) + indices_with_priority(self.chunks@, 2),
            forall|k: int| 0 <= k < r@.len() ==> (#[trigger] r@[k]) < self.chunks@.len(),
    {
        let mut out: Vec<usize> = Vec::new();
        let mut p: u8 = 0;
        proof {
            assert(out@ =~= Seq::<usize>::empty());
        }
        while p < 3
            invariant
                p <= 3,
                forall|k: int| 0 <= k < out@.len() ==> (#[trigger] out@[k]) < self.chunks@.len(),
                out@ == prefix_groups(self.chunks@, p as int),
            decreases 3 - p,
        {
            let ghost before = out@;
            let mut j: usize = 0;
            while j < self.chunks.len()
                invariant
                    j <= self.chunks@.len(),
                    forall|k: int|
                        0 <= k < out@.len() ==> (#[trigger] out@[k]) < self.chunks@.len(),
                    out@ == before
                        + indices_upto(self.chunks@, p, j as int),
                decreases self.chunks@.len() - j,
            {
                if self.chunks[j].priority == p {
                    out.push(j);
                    proof {
                        assert(indices_upto(self.chunks@, p, j as int + 1) == indices_upto(
                            self.chunks@,
                            p,
                            j as int,
                        ).push(j));
                        assert(out@ =~= before + indices_upto(self.chunks@, p, j as int + 1));
                    }
                } else {
                    proof {
                        assert(indices_upto(self.chunks@, p, j as int + 1) == indices_upto(
                            self.chunks@,
                            p,
                            j as int,
                        ));
                    }
                }
                j = j + 1;
            }
            proof {
                assert(prefix_groups(self.chunks@, p as int + 1) =~= prefix_groups(
                    self.chunks@,
                    p as int,
                ) + indices_with_priority(self.chunks@, p));
            }
            p = p + 1;
        }
        proof {
            assert(prefix_groups(self.chunks@, 0) == Seq::<usize>::empty());
            assert(prefix_groups(self.chunks@, 1) == prefix_groups(self.chunks@, 0)
                + indices_with_priority(self.chunks@, 0));
            assert(prefix_groups(self.chunks@, 2) == prefix_groups(self.chunks@, 1)
                + indices_with_priority(self.chunks@, 1));
            assert(prefix_groups(self.chunks@, 3) == prefix_groups(self.chunks@, 2)
                + indices_with_priority(self.chunks@, 2));
            assert(prefix_groups(self.chunks@, 3) =~= indices_with_priority(self.chunks@, 0)
                + indices_with_priority(self.chunks@, 1) + indices_with_priority(
                self.chunks@,
                2,
            ));
        }
        out
    }
}

/// The concatenated index groups of priorities below `p`.
pub open spec fn prefix_groups(chunks: Seq<BinaryChunk>, p: int) -> Seq<usize>
    decreases p,
{
    if p <= 0 {
        Seq::empty()
    } else {
        prefix_groups(chunks, p - 1) + indices_with_priority(chunks, (p - 1) as u8)
    }
}

} // verus!
