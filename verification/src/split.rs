//! Splitting an image into sparse images that each fit a device's download
//! limit.
//!
//! A split is written out as its file header followed by each chunk header
//! and, for chunks that carry data, `size` bytes of the input file from
//! `offset` on. Every split after the first starts with a don't-care chunk
//! that skips the blocks already written by the splits before it.

use vstd::prelude::*;
use crate::sparse::{
    ChunkHeader, ChunkType, FileHeader, CHUNK_HEADER_BYTES_LEN, DEFAULT_BLOCKSIZE,
    FILE_HEADER_BYTES_LEN,
};

verus! {

/// One chunk of a split: its header, then `size` bytes of the input from
/// `offset` on.
#[derive(Clone, Copy, Debug, PartialEq, Eq, Structural)]
pub struct SplitChunk {
    /// Chunk header.
    pub header: ChunkHeader,
    /// Offset in the input file of the chunk data.
    pub offset: usize,
    /// Number of data bytes copied from the input file.
    pub size: usize,
}

/// One split sparse image: a file header and its chunks.
#[derive(Clone, Debug, PartialEq, Eq)]
pub struct Split {
    /// Global file header.
    pub header: FileHeader,
    /// Data chunks.
    pub chunks: Vec<SplitChunk>,
}

/// Errors when splitting an image for a download size.
#[derive(Clone, Copy, Debug, PartialEq, Eq, Structural)]
pub enum SplitError {
    /// The download size cannot hold the headers and the data that must go
    /// together.
    TooSmall,
}

/// A split as a value: its header and its chunks.
pub type SplitV = (FileHeader, Seq<SplitChunk>);

/// The state of a split being filled: bytes of room left and chunks so far.
pub struct PackState {
    pub space: int,
    pub chunks: Seq<SplitChunk>,
}

/// The state after some input chunks: blocks and input bytes passed, the
/// split being filled, the splits finished, and whether a chunk could not be
/// placed.
pub struct FoldState {
    pub block_offset: int,
    pub image_offset: int,
    pub builder: PackState,
    pub splits: Seq<SplitV>,
    pub failed: bool,
}

impl Split {
    /// This split as a value.
    pub open spec fn view_split(&self) -> SplitV {
        (self.header, self.chunks@)
    }
}

/// The splits as values.
pub open spec fn splits_view(s: Seq<Split>) -> Seq<SplitV> {
    s.map_values(|x: Split| x.view_split())
}

/// Sum of the output blocks of the chunks.
pub open spec fn sum_blocks(s: Seq<SplitChunk>) -> int
    decreases s.len(),
{
    if s.len() == 0 {
        0
    } else {
        sum_blocks(s.drop_last()) + s.last().header.chunk_size
    }
}

/// Sum of the sparse sizes of the chunks.
pub open spec fn sum_totals(s: Seq<SplitChunk>) -> int
    decreases s.len(),
{
    if s.len() == 0 {
        0
    } else {
        sum_totals(s.drop_last()) + s.last().header.total_size
    }
}

/// Sum of the output blocks of input chunk headers.
pub open spec fn input_blocks(c: Seq<ChunkHeader>) -> int
    decreases c.len(),
{
    if c.len() == 0 {
        0
    } else {
        input_blocks(c.drop_last()) + c.last().chunk_size
    }
}

/// Sum of the sparse sizes of input chunk headers.
pub open spec fn input_totals(c: Seq<ChunkHeader>) -> int
    decreases c.len(),
{
    if c.len() == 0 {
        0
    } else {
        input_totals(c.drop_last()) + c.last().total_size
    }
}

/// Size in bytes of a split written out: file header plus all chunks.
pub open spec fn split_sparse_size(s: SplitV) -> int {
    FILE_HEADER_BYTES_LEN + sum_totals(s.1)
}

/// Data bytes after a chunk header.
pub open spec fn data_size_of(h: ChunkHeader) -> int {
    if h.total_size >= 12 {
        h.total_size - 12
    } else {
        0
    }
}

/// A fresh split for `size` bytes that first skips `blocks_offset` blocks.
pub open spec fn sb_new(size: int, blocks_offset: int) -> PackState {
    if blocks_offset == 0 {
        PackState { space: size - 28, chunks: seq![] }
    } else {
        PackState {
            space: size - 28 - 12,
            chunks: seq![
                SplitChunk {
                    header: ChunkHeader {
                        chunk_type: ChunkType::DontCare,
                        chunk_size: blocks_offset as u32,
                        total_size: 12,
                    },
                    offset: 0,
                    size: 0,
                },
            ],
        }
    }
}

/// The split after adding a whole chunk, if it has more room than the chunk
/// takes.
pub open spec fn sb_try_add(s: PackState, chunk: ChunkHeader, image_offset: int) -> Option<
    PackState,
> {
    if s.space > chunk.total_size {
        Some(
            PackState {
                space: s.space - chunk.total_size,
                chunks: s.chunks.push(
                    SplitChunk {
                        header: chunk,
                        offset: image_offset as usize,
                        size: data_size_of(chunk) as usize,
                    },
                ),
            },
        )
    } else {
        None
    }
}

/// How many whole blocks of raw data still fit behind one more chunk header.
pub open spec fn raw_room(s: PackState, bs: int) -> int {
    if s.space > 12 {
        (s.space - 12) / bs
    } else {
        0
    }
}

/// How many of `blocks` raw blocks go into the split.
pub open spec fn raw_take(s: PackState, bs: int, blocks: int) -> int {
    let room = raw_room(s, bs);
    if room > 0 {
        if blocks < room {
            blocks
        } else {
            room
        }
    } else {
        0
    }
}

/// The split after adding as many of `blocks` raw blocks as fit.
pub open spec fn sb_add_raw(s: PackState, bs: int, image_offset: int, blocks: int) -> PackState {
    let n = raw_take(s, bs, blocks);
    if raw_room(s, bs) > 0 {
        PackState {
            space: s.space - (12 + n * bs),
            chunks: s.chunks.push(
                SplitChunk {
                    header: ChunkHeader {
                        chunk_type: ChunkType::Raw,
                        chunk_size: n as u32,
                        total_size: (12 + n * bs) as u32,
                    },
                    offset: image_offset as usize,
                    size: (n * bs) as usize,
                },
            ),
        }
    } else {
        s
    }
}

/// The finished split: a file header that counts its blocks and chunks.
pub open spec fn sb_finish(s: PackState, bs: int) -> SplitV {
    (
        FileHeader {
            block_size: bs as u32,
            blocks: sum_blocks(s.chunks) as u32,
            chunks: s.chunks.len() as u32,
            checksum: 0,
        },
        s.chunks,
    )
}

/// Packs the raw blocks of one chunk from block `done` on, finishing splits
/// and starting new ones as they fill.
pub open spec fn raw_pack(
    bs: int,
    size: int,
    block_offset: int,
    image_offset: int,
    chunk_size: int,
    b: PackState,
    splits: Seq<SplitV>,
    done: int,
) -> (PackState, Seq<SplitV>)
    decreases chunk_size - done, (if raw_room(b, bs) > 0 {
            0int
        } else {
            1int
        }),
{
    let n = raw_take(b, bs, chunk_size - done);
    let b2 = sb_add_raw(b, bs, image_offset + done * bs, chunk_size - done);
    let d2 = done + n;
    if d2 >= chunk_size || bs <= 0 || size < 52 + bs || n < 0 {
        (b2, splits)
    } else {
        proof {
            lemma_fresh_room(size, bs, block_offset + d2);
        }
        raw_pack(
            bs,
            size,
            block_offset,
            image_offset,
            chunk_size,
            sb_new(size, block_offset + d2),
            splits.push(sb_finish(b2, bs)),
            d2,
        )
    }
}

/// The state after placing `chunk` in the split being filled.
pub open spec fn fold_advance(
    st: FoldState,
    chunk: ChunkHeader,
    b: PackState,
    sp: Seq<SplitV>,
) -> FoldState {
    FoldState {
        block_offset: st.block_offset + chunk.chunk_size,
        image_offset: st.image_offset + chunk.total_size,
        builder: b,
        splits: sp,
        failed: false,
    }
}

/// One step of the packing: place one input chunk.
pub open spec fn fold_step(st: FoldState, chunk: ChunkHeader, bs: int, size: int) -> FoldState {
    if st.failed {
        st
    } else {
        match sb_try_add(st.builder, chunk, st.image_offset) {
            Some(b) => fold_advance(st, chunk, b, st.splits),
            None => {
                if chunk.chunk_type == ChunkType::Raw {
                    let r = raw_pack(
                        bs,
                        size,
                        st.block_offset,
                        st.image_offset,
                        chunk.chunk_size as int,
                        st.builder,
                        st.splits,
                        0,
                    );
                    fold_advance(st, chunk, r.0, r.1)
                } else {
                    let sp = st.splits.push(sb_finish(st.builder, bs));
                    match sb_try_add(sb_new(size, st.block_offset), chunk, st.image_offset) {
                        Some(b) => fold_advance(st, chunk, b, sp),
                        None => FoldState { failed: true, ..st },
                    }
                }
            },
        }
    }
}

/// The state after placing all of `chunks`, the first one's data starting at
/// `start`.
pub open spec fn fold_chunks(c: Seq<ChunkHeader>, bs: int, size: int, start: int) -> FoldState
    decreases c.len(),
{
    if c.len() == 0 {
        FoldState {
            block_offset: 0,
            image_offset: start,
            builder: sb_new(size, 0),
            splits: seq![],
            failed: false,
        }
    } else {
        fold_step(fold_chunks(c.drop_last(), bs, size, start), c.last(), bs, size)
    }
}

/// Smallest download size that can hold a file header, two chunk headers and
/// one block.
pub open spec fn minimal_size(bs: int) -> int {
    FILE_HEADER_BYTES_LEN + 2 * CHUNK_HEADER_BYTES_LEN + bs
}

/// The splits of a sparse image with chunks `c` for download size `size`.
pub open spec fn spec_split_image(bs: int, c: Seq<ChunkHeader>, size: int) -> Result<
    Seq<SplitV>,
    SplitError,
> {
    if size < minimal_size(bs) {
        Err(SplitError::TooSmall)
    } else {
        let st = fold_chunks(c, bs, size, 40);
        if st.failed {
            Err(SplitError::TooSmall)
        } else {
            Ok(st.splits.push(sb_finish(st.builder, bs)))
        }
    }
}

/// The splits of a raw image of `raw_blocks` blocks, from block `offset` on.
pub open spec fn raw_splits(raw_blocks: int, size: int, offset: int) -> Seq<SplitV>
    decreases raw_blocks - offset,
{
    if offset >= raw_blocks || size < minimal_size(4096) {
        seq![]
    } else {
        let b = sb_add_raw(sb_new(size, offset), 4096, offset * 4096, raw_blocks - offset);
        let n = raw_take(sb_new(size, offset), 4096, raw_blocks - offset);
        proof {
            lemma_fresh_room(size, 4096, offset);
        }
        seq![sb_finish(b, 4096)] + raw_splits(raw_blocks, size, offset + n)
    }
}

/// Whether every split of a raw image of `raw_blocks` blocks, from block
/// `offset` on, starts below block 2^20, so that its byte offset fits in 32
/// bits.
pub open spec fn raw_starts_fit(raw_blocks: int, size: int, offset: int) -> bool
    decreases raw_blocks - offset,
{
    if offset >= raw_blocks || size < minimal_size(4096) {
        true
    } else {
        let n = raw_take(sb_new(size, offset), 4096, raw_blocks - offset);
        proof {
            lemma_fresh_room(size, 4096, offset);
        }
        offset < 0x100000 && raw_starts_fit(raw_blocks, size, offset + n)
    }
}

/// An image of at most 2^20 blocks has every split start below block 2^20.
pub proof fn lemma_small_raw_starts_fit(raw_blocks: int, size: int, offset: int)
    requires
        raw_blocks <= 0x100000,
        0 <= offset,
    ensures
        raw_starts_fit(raw_blocks, size, offset),
    decreases raw_blocks - offset,
{
    if offset < raw_blocks && size >= minimal_size(4096) {
        let s0 = sb_new(size, offset);
        lemma_fresh_room(size, 4096, offset);
        lemma_raw_take_fits(s0, 4096, raw_blocks - offset);
        lemma_small_raw_starts_fit(raw_blocks, size, offset + raw_take(s0, 4096, raw_blocks - offset));
    }
}

/// The splits of a raw image of `raw_size` bytes for download size `size`.
pub open spec fn spec_split_raw(raw_size: int, size: int) -> Result<Seq<SplitV>, SplitError> {
    if size < minimal_size(4096) {
        Err(SplitError::TooSmall)
    } else {
        Ok(raw_splits(blocks_for_bytes(raw_size), size, 0))
    }
}

/// The raw splits from block `offset` on carry the image's blocks in order:
/// each split ends with one raw chunk of at least one block, starting at the
/// byte where the one before stopped, and together they reach block `end`.
pub open spec fn raw_chunks_cover(sv: Seq<SplitV>, offset: int, end: int) -> bool
    decreases sv.len(),
{
    if sv.len() == 0 {
        offset == end
    } else {
        let c = sv[0].1.last();
        &&& sv[0].1.len() > 0
        &&& c.header.chunk_type == ChunkType::Raw
        &&& c.header.chunk_size >= 1
        &&& c.offset == offset * 4096
        &&& c.size == c.header.chunk_size * 4096
        &&& raw_chunks_cover(sv.drop_first(), offset + c.header.chunk_size, end)
    }
}

/// Raw splitting law: the splits of a raw image of `raw_blocks` blocks,
/// from block `offset` on, carry every block from `offset` to the end
/// exactly once and in order, each split's data right after the previous
/// split's.
pub proof fn lemma_raw_splits_cover(raw_blocks: int, size: int, offset: int)
    requires
        size >= minimal_size(4096),
        size <= u32::MAX,
        0 <= offset <= raw_blocks,
        raw_starts_fit(raw_blocks, size, offset),
    ensures
        raw_chunks_cover(raw_splits(raw_blocks, size, offset), offset, raw_blocks),
    decreases raw_blocks - offset,
{
    let sv = raw_splits(raw_blocks, size, offset);
    if offset < raw_blocks {
        let s0 = sb_new(size, offset);
        lemma_fresh_room(size, 4096, offset);
        lemma_raw_take_fits(s0, 4096, raw_blocks - offset);
        let n = raw_take(s0, 4096, raw_blocks - offset);
        let b = sb_add_raw(s0, 4096, offset * 4096, raw_blocks - offset);
        assert(sv[0] == sb_finish(b, 4096));
        assert(sv.drop_first() =~= raw_splits(raw_blocks, size, offset + n));
        assert(n * 4096 <= size) by (nonlinear_arith)
            requires
                12 + n * 4096 <= s0.space,
                s0.space <= size,
        ;
        assert(offset * 4096 < 0x100000 * 4096) by (nonlinear_arith)
            requires
                offset < 0x100000,
        ;
        lemma_raw_splits_cover(raw_blocks, size, offset + n);
    }
}

/// Whether each chunk carries its data: its header's total size is the
/// header's 12 bytes and the bytes the chunk copies.
pub open spec fn chunks_carry_data(cs: Seq<SplitChunk>) -> bool {
    forall|k: int| 0 <= k < cs.len() ==> (#[trigger] cs[k]).header.total_size == 12 + cs[k].size
}

/// The splits of a raw image carry their data in every chunk.
pub proof fn lemma_raw_splits_carry_data(raw_blocks: int, size: int, offset: int)
    requires
        size <= u32::MAX,
        0 <= offset,
    ensures
        forall|i: int| 0 <= i < raw_splits(raw_blocks, size, offset).len()
            ==> chunks_carry_data((#[trigger] raw_splits(raw_blocks, size, offset)[i]).1),
    decreases raw_blocks - offset,
{
    if offset < raw_blocks && size >= minimal_size(4096) {
        let s0 = sb_new(size, offset);
        lemma_fresh_room(size, 4096, offset);
        lemma_raw_take_fits(s0, 4096, raw_blocks - offset);
        let n = raw_take(s0, 4096, raw_blocks - offset);
        let b = sb_add_raw(s0, 4096, offset * 4096, raw_blocks - offset);
        let sv = raw_splits(raw_blocks, size, offset);
        lemma_raw_splits_carry_data(raw_blocks, size, offset + n);
        assert(s0.space <= size);
        assert(chunks_carry_data(b.chunks)) by {
            assert forall|k: int| 0 <= k < b.chunks.len() implies (#[trigger] b.chunks[k]).header.total_size
                == 12 + b.chunks[k].size by {
                if k < s0.chunks.len() {
                    assert(b.chunks[k] == s0.chunks[k]);
                }
            }
        }
        assert forall|i: int| 0 <= i < sv.len() implies chunks_carry_data((#[trigger] sv[i]).1) by {
            if i > 0 {
                assert(sv[i] == raw_splits(raw_blocks, size, offset + n)[i - 1]);
            }
        }
    }
}

/// Number of whole 4096-byte blocks that hold `bytes` bytes.
pub open spec fn blocks_for_bytes(bytes: int) -> int {
    (bytes + 4095) / 4096
}

/// A fresh split has room for at least one raw block.
pub proof fn lemma_fresh_room(size: int, bs: int, offset: int)
    requires
        bs > 0,
        size >= 52 + bs,
    ensures
        raw_room(sb_new(size, offset), bs) >= 1,
{
    let s = sb_new(size, offset);
    assert(s.space - 12 >= bs);
    assert((s.space - 12) / bs >= 1) by (nonlinear_arith)
        requires
            s.space - 12 >= bs,
            bs > 0,
    ;
}

proof fn lemma_raw_take_fits(s: PackState, bs: int, blocks: int)
    requires
        bs > 0,
        blocks >= 0,
        s.space >= 0,
    ensures
        0 <= raw_take(s, bs, blocks) <= blocks,
        raw_room(s, bs) > 0 ==> 12 + raw_take(s, bs, blocks) * bs <= s.space,
        raw_room(s, bs) > 0 && blocks > 0 ==> raw_take(s, bs, blocks) >= 1,
{
    let room = raw_room(s, bs);
    if room > 0 {
        let n = raw_take(s, bs, blocks);
        assert(room * bs <= s.space - 12) by (nonlinear_arith)
            requires
                room == (s.space - 12) / bs,
                bs > 0,
                s.space > 12,
        ;
        assert(n * bs <= room * bs) by (nonlinear_arith)
            requires
                0 <= n <= room,
                bs > 0,
        ;
    }
}

/// Whether every input chunk's total size covers at least its header.
pub open spec fn headers_complete(c: Seq<ChunkHeader>) -> bool {
    forall|j: int| 0 <= j < c.len() ==> (#[trigger] c[j]).total_size >= 12
}

/// A split being filled whose room is within the download size and whose
/// chunks carry their data.
spec fn pack_carries(s: PackState, size: int) -> bool {
    &&& 0 <= s.space <= size
    &&& chunks_carry_data(s.chunks)
}

/// Whether every split's chunks carry their data.
spec fn splits_carry(sv: Seq<SplitV>) -> bool {
    forall|i: int| 0 <= i < sv.len() ==> chunks_carry_data((#[trigger] sv[i]).1)
}

proof fn lemma_push_carries(cs: Seq<SplitChunk>, c: SplitChunk)
    requires
        chunks_carry_data(cs),
        c.header.total_size == 12 + c.size,
    ensures
        chunks_carry_data(cs.push(c)),
{
    assert forall|k: int| 0 <= k < cs.push(c).len() implies (#[trigger] cs.push(c)[k]).header.total_size
        == 12 + cs.push(c)[k].size by {
        if k < cs.len() {
            assert(cs.push(c)[k] == cs[k]);
        }
    }
}

proof fn lemma_new_carries(size: int, offset: int)
    requires
        40 <= size,
    ensures
        pack_carries(sb_new(size, offset), size),
{
    let s = sb_new(size, offset);
    if offset != 0 {
        assert(s.chunks[0].header.total_size == 12 + s.chunks[0].size);
    }
}

proof fn lemma_finish_carries(sv: Seq<SplitV>, b: PackState, bs: int)
    requires
        splits_carry(sv),
        chunks_carry_data(b.chunks),
    ensures
        splits_carry(sv.push(sb_finish(b, bs))),
{
    let t = sv.push(sb_finish(b, bs));
    assert forall|i: int| 0 <= i < t.len() implies chunks_carry_data((#[trigger] t[i]).1) by {
        if i < sv.len() {
            assert(t[i] == sv[i]);
        }
    }
}

proof fn lemma_try_add_carries(s: PackState, chunk: ChunkHeader, image_offset: int, size: int)
    requires
        pack_carries(s, size),
        chunk.total_size >= 12,
    ensures
        sb_try_add(s, chunk, image_offset) matches Some(b) ==> pack_carries(b, size),
{
    if s.space > chunk.total_size {
        let c = SplitChunk { header: chunk, offset: image_offset as usize, size: data_size_of(chunk) as usize };
        assert(c.size == chunk.total_size - 12);
        lemma_push_carries(s.chunks, c);
    }
}

proof fn lemma_add_raw_carries(s: PackState, bs: int, image_offset: int, blocks: int, size: int)
    requires
        pack_carries(s, size),
        size <= u32::MAX,
        bs > 0,
        blocks >= 0,
    ensures
        pack_carries(sb_add_raw(s, bs, image_offset, blocks), size),
{
    lemma_raw_take_fits(s, bs, blocks);
    if raw_room(s, bs) > 0 {
        let n = raw_take(s, bs, blocks);
        assert(0 <= n * bs) by (nonlinear_arith)
            requires
                0 <= n,
                bs > 0,
        ;
        let c = sb_add_raw(s, bs, image_offset, blocks).chunks.last();
        assert(c.header.total_size == 12 + n * bs);
        assert(c.size == n * bs);
        lemma_push_carries(s.chunks, c);
        assert(sb_add_raw(s, bs, image_offset, blocks).chunks == s.chunks.push(c));
    }
}

proof fn lemma_raw_pack_carries(
    bs: int,
    size: int,
    block_offset: int,
    image_offset: int,
    chunk_size: int,
    b: PackState,
    splits: Seq<SplitV>,
    done: int,
)
    requires
        bs > 0,
        40 <= size <= u32::MAX,
        0 <= done <= chunk_size,
        pack_carries(b, size),
        splits_carry(splits),
    ensures
        pack_carries(raw_pack(bs, size, block_offset, image_offset, chunk_size, b, splits, done).0, size),
        splits_carry(raw_pack(bs, size, block_offset, image_offset, chunk_size, b, splits, done).1),
    decreases chunk_size - done, (if raw_room(b, bs) > 0 {
            0int
        } else {
            1int
        }),
{
    lemma_raw_take_fits(b, bs, chunk_size - done);
    let n = raw_take(b, bs, chunk_size - done);
    let b2 = sb_add_raw(b, bs, image_offset + done * bs, chunk_size - done);
    let d2 = done + n;
    lemma_add_raw_carries(b, bs, image_offset + done * bs, chunk_size - done, size);
    if !(d2 >= chunk_size || bs <= 0 || size < 52 + bs || n < 0) {
        lemma_fresh_room(size, bs, block_offset + d2);
        lemma_new_carries(size, block_offset + d2);
        lemma_finish_carries(splits, b2, bs);
        lemma_raw_pack_carries(
            bs,
            size,
            block_offset,
            image_offset,
            chunk_size,
            sb_new(size, block_offset + d2),
            splits.push(sb_finish(b2, bs)),
            d2,
        );
    }
}

proof fn lemma_fold_carries(c: Seq<ChunkHeader>, bs: int, size: int, start: int)
    requires
        headers_complete(c),
        bs > 0,
        40 <= size <= u32::MAX,
    ensures
        pack_carries(fold_chunks(c, bs, size, start).builder, size),
        splits_carry(fold_chunks(c, bs, size, start).splits),
    decreases c.len(),
{
    if c.len() == 0 {
        lemma_new_carries(size, 0);
    } else {
        let rest = c.drop_last();
        assert(headers_complete(rest)) by {
            assert forall|j: int| 0 <= j < rest.len() implies (#[trigger] rest[j]).total_size >= 12 by {
                assert(rest[j] == c[j]);
            }
        }
        lemma_fold_carries(rest, bs, size, start);
        let st = fold_chunks(rest, bs, size, start);
        let chunk = c.last();
        assert(chunk == c[c.len() - 1]);
        if !st.failed {
            lemma_try_add_carries(st.builder, chunk, st.image_offset, size);
            if sb_try_add(st.builder, chunk, st.image_offset) is None {
                if chunk.chunk_type == ChunkType::Raw {
                    lemma_raw_pack_carries(
                        bs,
                        size,
                        st.block_offset,
                        st.image_offset,
                        chunk.chunk_size as int,
                        st.builder,
                        st.splits,
                        0,
                    );
                } else {
                    lemma_finish_carries(st.splits, st.builder, bs);
                    lemma_new_carries(size, st.block_offset);
                    lemma_try_add_carries(sb_new(size, st.block_offset), chunk, st.image_offset, size);
                }
            }
        }
    }
}

/// The splits of a sparse image whose chunk headers each count at least
/// their own 12 bytes carry their data in every chunk: each chunk's total
/// size is its header and the bytes it copies.
pub proof fn lemma_sparse_splits_carry_data(bs: int, c: Seq<ChunkHeader>, size: int)
    requires
        bs > 0,
        size <= u32::MAX,
        headers_complete(c),
    ensures
        spec_split_image(bs, c, size) matches Ok(sv) ==> forall|i: int|
            0 <= i < sv.len() ==> chunks_carry_data((#[trigger] sv[i]).1),
{
    if size >= minimal_size(bs) {
        lemma_fold_carries(c, bs, size, 40);
        let st = fold_chunks(c, bs, size, 40);
        if !st.failed {
            lemma_finish_carries(st.splits, st.builder, bs);
        }
    }
}

proof fn lemma_sum_push(s: Seq<SplitChunk>, c: SplitChunk)
    ensures
        sum_blocks(s.push(c)) == sum_blocks(s) + c.header.chunk_size,
        sum_totals(s.push(c)) == sum_totals(s) + c.header.total_size,
{
    assert(s.push(c).drop_last() =~= s);
}

proof fn lemma_input_take(c: Seq<ChunkHeader>, j: int)
    requires
        0 <= j < c.len(),
    ensures
        input_blocks(c.take(j + 1)) == input_blocks(c.take(j)) + c[j].chunk_size,
        input_totals(c.take(j + 1)) == input_totals(c.take(j)) + c[j].total_size,
        c.take(j + 1).drop_last() == c.take(j),
        c.take(j + 1).last() == c[j],
{
    assert(c.take(j + 1).drop_last() =~= c.take(j));
}

proof fn lemma_input_prefix_le(c: Seq<ChunkHeader>, j: int)
    requires
        0 <= j <= c.len(),
    ensures
        input_blocks(c.take(j)) <= input_blocks(c),
        input_totals(c.take(j)) <= input_totals(c),
        input_blocks(c.take(j)) >= 0,
        input_totals(c.take(j)) >= 0,
    decreases c.len() - j,
{
    if j == c.len() {
        assert(c.take(j) =~= c);
        lemma_input_nonneg(c);
    } else {
        lemma_input_take(c, j);
        lemma_input_prefix_le(c, j + 1);
        lemma_input_nonneg(c.take(j));
    }
}

proof fn lemma_input_nonneg(c: Seq<ChunkHeader>)
    ensures
        input_blocks(c) >= 0,
        input_totals(c) >= 0,
    decreases c.len(),
{
    if c.len() > 0 {
        lemma_input_nonneg(c.drop_last());
    }
}

/// Input chunks whose block counts and offsets fit the integer types used:
/// the blocks sum within `u32`, every chunk's data lies within `usize`, and a
/// raw chunk's data size is its blocks times the block size within `u32`.
pub open spec fn chunks_in_range(c: Seq<ChunkHeader>, bs: int) -> bool {
    &&& input_blocks(c) <= u32::MAX
    &&& 40 + input_totals(c) <= usize::MAX
    &&& forall|j: int|
        #![trigger c[j]]
        0 <= j < c.len() && c[j].chunk_type == ChunkType::Raw ==> {
            &&& c[j].chunk_size * bs <= u32::MAX
            &&& 40 + input_totals(c.take(j)) + c[j].chunk_size * bs <= usize::MAX
        }
}

/// The split being filled, with the facts that hold of every one: its room
/// plus what its chunks take is the download size less the file header, and
/// its chunks cover `covered` blocks.
pub open spec fn builder_ok(b: PackState, size: int, covered: int) -> bool {
    &&& b.space >= 0
    &&& b.space + sum_totals(b.chunks) == size - 28
    &&& sum_blocks(b.chunks) == covered
}

/// A finished split of the right block size that fits the download size.
pub open spec fn split_ok(s: SplitV, bs: int, size: int) -> bool {
    &&& split_sparse_size(s) <= size
    &&& s.0.block_size == bs
    &&& s.0.checksum == 0
    &&& s.0.blocks == sum_blocks(s.1)
    &&& s.0.chunks == s.1.len() as u32
}

struct SplitBuilder {
    space: u32,
    block_size: u32,
    chunks: Vec<SplitChunk>,
}

impl SplitBuilder {
    spec fn state(&self) -> PackState {
        PackState { space: self.space as int, chunks: self.chunks@ }
    }

    fn new(block_size: u32, space: u32, blocks_offset: u32) -> (r: SplitBuilder)
        requires
            space >= 40,
        ensures
            r.state() == sb_new(space as int, blocks_offset as int),
            r.block_size == block_size,
            builder_ok(r.state(), space as int, blocks_offset as int),
    {
        let mut space = space - 28;
        let mut chunks: Vec<SplitChunk> = Vec::new();
        if blocks_offset != 0 {
            let header = ChunkHeader::new_dontcare(blocks_offset);
            space = space - header.total_size;
            chunks.push(SplitChunk { header, offset: 0, size: 0 });
        }
        let r = SplitBuilder { space, block_size, chunks };
        proof {
            assert(r.state().chunks =~= sb_new(space as int + 28, blocks_offset as int).chunks);
            if blocks_offset != 0 {
                lemma_sum_push(seq![], r.chunks@[0]);
                assert(seq![r.chunks@[0]] =~= Seq::<SplitChunk>::empty().push(r.chunks@[0]));
            }
        }
        r
    }

    fn try_add_chunk(&mut self, chunk: &ChunkHeader, image_offset: usize) -> (added: bool)
        ensures
            match sb_try_add(old(self).state(), *chunk, image_offset as int) {
                Some(b) => added && final(self).state() == b,
                None => !added && final(self).state() == old(self).state(),
            },
            final(self).block_size == old(self).block_size,
    {
        if self.space > chunk.total_size {
            let split = SplitChunk {
                header: *chunk,
                offset: image_offset,
                size: chunk.data_size(),
            };
            self.chunks.push(split);
            self.space = self.space - chunk.total_size;
            true
        } else {
            false
        }
    }

    fn add_raw(&mut self, image_offset: usize, blocks: u32) -> (taken: u32)
        requires
            old(self).block_size > 0,
            old(self).space >= 0,
        ensures
            taken == raw_take(old(self).state(), old(self).block_size as int, blocks as int),
            final(self).state() == sb_add_raw(
                old(self).state(),
                old(self).block_size as int,
                image_offset as int,
                blocks as int,
            ),
            final(self).block_size == old(self).block_size,
    {
        let left: u32 = if self.space > 12 {
            self.space - 12
        } else {
            0
        };
        let blocks_left = left / self.block_size;
        proof {
            lemma_raw_take_fits(self.state(), self.block_size as int, blocks as int);
        }
        if blocks_left > 0 {
            let n = if blocks < blocks_left {
                blocks
            } else {
                blocks_left
            };
            let header = ChunkHeader::new_raw(n, self.block_size);
            self.space = self.space - header.total_size;
            let size = header.data_size();
            self.chunks.push(SplitChunk { size, offset: image_offset, header });
            n
        } else {
            0
        }
    }

    fn finish(self) -> (s: Split)
        requires
            sum_blocks(self.chunks@) <= u32::MAX,
        ensures
            s.view_split() == sb_finish(self.state(), self.block_size as int),
    {
        let n_chunks = self.chunks.len() as u32;
        let mut blocks: u32 = 0;
        let mut i: usize = 0;
        while i < self.chunks.len()
            invariant
                0 <= i <= self.chunks@.len(),
                blocks == sum_blocks(self.chunks@.take(i as int)),
                sum_blocks(self.chunks@) <= u32::MAX,
            decreases self.chunks@.len() - i,
        {
            proof {
                assert(self.chunks@.take(i + 1).drop_last() =~= self.chunks@.take(i as int));
                lemma_sum_prefix_le(self.chunks@, i + 1);
            }
            blocks = blocks + self.chunks[i].header.chunk_size;
            i = i + 1;
        }
        assert(self.chunks@.take(i as int) =~= self.chunks@);
        let header = FileHeader { block_size: self.block_size, blocks, chunks: n_chunks, checksum: 0 };
        Split { header, chunks: self.chunks }
    }
}

proof fn lemma_sum_prefix_le(s: Seq<SplitChunk>, j: int)
    requires
        0 <= j <= s.len(),
    ensures
        sum_blocks(s.take(j)) <= sum_blocks(s),
        sum_totals(s.take(j)) <= sum_totals(s),
    decreases s.len() - j,
{
    if j < s.len() {
        assert(s.take(j + 1).drop_last() =~= s.take(j));
        lemma_sum_prefix_le(s, j + 1);
    } else {
        assert(s.take(j) =~= s);
    }
}

/// Checks that a download size can hold a file header, two chunk headers and
/// one block.
fn check_minimal_size(size: u32, block_size: u32) -> (r: Result<(), SplitError>)
    requires
        block_size <= u32::MAX - 52,
    ensures
        r is Ok <==> size >= minimal_size(block_size as int),
{
    if size < 28 + 2 * 12 + block_size {
        return Err(SplitError::TooSmall);
    }
    Ok(())
}

impl Split {
    /// Total size of the sparse image that writing out this split produces.
    pub fn sparse_size(&self) -> (n: usize)
        requires
            split_sparse_size(self.view_split()) <= usize::MAX,
        ensures
            n == split_sparse_size(self.view_split()),
    {
        let mut total: usize = FILE_HEADER_BYTES_LEN;
        let mut i: usize = 0;
        while i < self.chunks.len()
            invariant
                0 <= i <= self.chunks@.len(),
                total == 28 + sum_totals(self.chunks@.take(i as int)),
                28 + sum_totals(self.chunks@) <= usize::MAX,
            decreases self.chunks@.len() - i,
        {
            proof {
                assert(self.chunks@.take(i + 1).drop_last() =~= self.chunks@.take(i as int));
                lemma_sum_prefix_le(self.chunks@, i + 1);
            }
            total = total + self.chunks[i].header.total_size as usize;
            i = i + 1;
        }
        assert(self.chunks@.take(i as int) =~= self.chunks@);
        total
    }
}

proof fn lemma_try_add_ok(b: PackState, chunk: ChunkHeader, image_offset: int, size: int, covered: int)
    requires
        builder_ok(b, size, covered),
        sb_try_add(b, chunk, image_offset) is Some,
    ensures
        builder_ok(
            sb_try_add(b, chunk, image_offset)->Some_0,
            size,
            covered + chunk.chunk_size,
        ),
{
    let c = SplitChunk {
        header: chunk,
        offset: image_offset as usize,
        size: data_size_of(chunk) as usize,
    };
    lemma_sum_push(b.chunks, c);
}

proof fn lemma_sum_nonneg(s: Seq<SplitChunk>)
    ensures
        sum_totals(s) >= 0,
        sum_blocks(s) >= 0,
    decreases s.len(),
{
    if s.len() > 0 {
        lemma_sum_nonneg(s.drop_last());
    }
}

proof fn lemma_add_raw_ok(b: PackState, bs: int, image_offset: int, blocks: int, size: int, covered: int)
    requires
        builder_ok(b, size, covered),
        size <= u32::MAX,
        0 <= image_offset <= usize::MAX,
        bs > 0,
        blocks >= 0,
    ensures
        builder_ok(
            sb_add_raw(b, bs, image_offset, blocks),
            size,
            covered + raw_take(b, bs, blocks),
        ),
        0 <= raw_take(b, bs, blocks) <= blocks,
{
    lemma_raw_take_fits(b, bs, blocks);
    let n = raw_take(b, bs, blocks);
    if raw_room(b, bs) > 0 {
        lemma_sum_nonneg(b.chunks);
        assert(n * bs >= n) by (nonlinear_arith)
            requires
                n >= 0,
                bs > 0,
        ;
        let c = SplitChunk {
            header: ChunkHeader {
                chunk_type: ChunkType::Raw,
                chunk_size: n as u32,
                total_size: (12 + n * bs) as u32,
            },
            offset: image_offset as usize,
            size: (n * bs) as usize,
        };
        lemma_sum_push(b.chunks, c);
    }
}

proof fn lemma_finish_ok(b: PackState, bs: int, size: int, covered: int)
    requires
        builder_ok(b, size, covered),
        0 <= covered <= u32::MAX,
        0 < bs <= u32::MAX,
    ensures
        split_ok(sb_finish(b, bs), bs, size),
        sb_finish(b, bs).0.blocks == covered,
{
}

proof fn lemma_fold_take_step(c: Seq<ChunkHeader>, j: int, bs: int, size: int, start: int)
    requires
        0 <= j < c.len(),
    ensures
        fold_chunks(c.take(j + 1), bs, size, start) == fold_step(
            fold_chunks(c.take(j), bs, size, start),
            c[j],
            bs,
            size,
        ),
{
    lemma_input_take(c, j);
}

proof fn lemma_fold_failed_stays(c: Seq<ChunkHeader>, j: int, bs: int, size: int, start: int)
    requires
        0 <= j <= c.len(),
        fold_chunks(c.take(j), bs, size, start).failed,
    ensures
        fold_chunks(c, bs, size, start).failed,
    decreases c.len() - j,
{
    if j == c.len() {
        assert(c.take(j) =~= c);
    } else {
        lemma_fold_take_step(c, j, bs, size, start);
        lemma_fold_failed_stays(c, j + 1, bs, size, start);
    }
}

/// Chunks that begin by skipping `o` blocks where `o` is not 0.
pub open spec fn starts_at(chunks: Seq<SplitChunk>, o: u32) -> bool {
    o > 0 ==> chunks.len() > 0 && chunks[0].header == (ChunkHeader {
        chunk_type: ChunkType::DontCare,
        chunk_size: o,
        total_size: 12,
    })
}

/// Each split after the first begins by skipping exactly the blocks that
/// the split before it reaches, so it continues where that one stopped.
pub open spec fn splits_chained(sv: Seq<SplitV>) -> bool {
    forall|k: int| 1 <= k < sv.len() ==> starts_at(#[trigger] sv[k].1, sv[k - 1].0.blocks)
}

/// The finished splits are chained, and the split being filled continues
/// the last of them.
pub open spec fn chained_with(sv: Seq<SplitV>, b: PackState) -> bool {
    &&& splits_chained(sv)
    &&& sv.len() > 0 ==> starts_at(b.chunks, sv.last().0.blocks)
}

proof fn lemma_chain_grow(sv: Seq<SplitV>, b: PackState, b2: PackState)
    requires
        chained_with(sv, b),
        b2.chunks.len() >= b.chunks.len(),
        b.chunks.len() > 0 ==> b2.chunks[0] == b.chunks[0],
    ensures
        chained_with(sv, b2),
{
}

proof fn lemma_chain_finish(sv: Seq<SplitV>, b: PackState, bs: int, size: int, x: int)
    requires
        chained_with(sv, b),
        sum_blocks(b.chunks) == x,
        x >= 0,
    ensures
        chained_with(sv.push(sb_finish(b, bs)), sb_new(size, x)),
{
    let t = sv.push(sb_finish(b, bs));
    assert forall|k: int| 1 <= k < t.len() implies starts_at(#[trigger] t[k].1, t[k - 1].0.blocks) by {
        if k < sv.len() {
            assert(t[k] == sv[k] && t[k - 1] == sv[k - 1]);
        } else {
            assert(t[k] == sb_finish(b, bs));
            assert(t[k - 1] == sv.last());
        }
    }
    assert(t.last() == sb_finish(b, bs));
}

/// Finished splits that each fit the download size, whose block counts
/// never go down from one split to the next and stay within `bound`.
pub open spec fn splits_good(sv: Seq<SplitV>, bs: int, size: int, bound: int) -> bool {
    &&& forall|i: int| 0 <= i < sv.len() ==> split_ok(#[trigger] sv[i], bs, size)
    &&& forall|i: int, k: int|
        0 <= i <= k < sv.len() ==> #[trigger] sv[i].0.blocks <= #[trigger] sv[k].0.blocks
    &&& forall|i: int| 0 <= i < sv.len() ==> #[trigger] sv[i].0.blocks <= bound
}

proof fn lemma_good_push(sv: Seq<SplitV>, s: SplitV, bs: int, size: int, bound: int, new_bound: int)
    requires
        splits_good(sv, bs, size, bound),
        split_ok(s, bs, size),
        bound <= s.0.blocks <= new_bound,
    ensures
        splits_good(sv.push(s), bs, size, new_bound),
{
    let t = sv.push(s);
    assert forall|i: int, k: int| 0 <= i <= k < t.len() implies #[trigger] t[i].0.blocks
        <= #[trigger] t[k].0.blocks by {
        if k < sv.len() {
            assert(t[i] == sv[i] && t[k] == sv[k]);
        } else if i < sv.len() {
            assert(t[i] == sv[i]);
        }
    }
    assert forall|i: int| 0 <= i < t.len() implies split_ok(#[trigger] t[i], bs, size) by {
        if i < sv.len() {
            assert(t[i] == sv[i]);
        }
    }
    assert forall|i: int| 0 <= i < t.len() implies #[trigger] t[i].0.blocks <= new_bound by {
        if i < sv.len() {
            assert(t[i] == sv[i]);
        }
    }
}

proof fn lemma_good_weaken(sv: Seq<SplitV>, bs: int, size: int, bound: int, new_bound: int)
    requires
        splits_good(sv, bs, size, bound),
        bound <= new_bound,
    ensures
        splits_good(sv, bs, size, new_bound),
{
}

/// Finishes the split being filled and appends it to `splits`.
fn push_finished(splits: &mut Vec<Split>, builder: SplitBuilder, Ghost(size): Ghost<int>, Ghost(covered): Ghost<int>)
    requires
        0 < builder.block_size <= u32::MAX,
        0 <= covered <= u32::MAX,
        builder_ok(builder.state(), size, covered),
        splits_good(splits_view(old(splits)@), builder.block_size as int, size, covered),
    ensures
        splits_view(final(splits)@) == splits_view(old(splits)@).push(
            sb_finish(builder.state(), builder.block_size as int),
        ),
        splits_good(splits_view(final(splits)@), builder.block_size as int, size, covered),
{
    let ghost bs = builder.block_size as int;
    let ghost st = builder.state();
    proof {
        lemma_finish_ok(st, bs, size, covered);
    }
    let finished = builder.finish();
    let ghost prev = splits@;
    splits.push(finished);
    proof {
        assert(splits_view(splits@) =~= splits_view(prev).push(finished.view_split()));
        lemma_good_push(splits_view(prev), finished.view_split(), bs, size, covered, covered);
    }
}

/// Packs the `chunk_size` raw blocks of one chunk into the split being
/// filled and into new splits as each fills up.
fn pack_raw_chunk(
    builder: &mut SplitBuilder,
    splits: &mut Vec<Split>,
    size: u32,
    block_offset: u32,
    image_offset: usize,
    chunk_size: u32,
)
    requires
        0 < old(builder).block_size <= u32::MAX - 52,
        size >= minimal_size(old(builder).block_size as int),
        builder_ok(old(builder).state(), size as int, block_offset as int),
        block_offset + chunk_size <= u32::MAX,
        chunk_size * old(builder).block_size <= u32::MAX,
        image_offset + chunk_size * old(builder).block_size <= usize::MAX,
        splits_good(
            splits_view(old(splits)@),
            old(builder).block_size as int,
            size as int,
            block_offset as int,
        ),
        chained_with(splits_view(old(splits)@), old(builder).state()),
    ensures
        chained_with(splits_view(final(splits)@), final(builder).state()),
        raw_pack(
            old(builder).block_size as int,
            size as int,
            block_offset as int,
            image_offset as int,
            chunk_size as int,
            old(builder).state(),
            splits_view(old(splits)@),
            0,
        ) == (final(builder).state(), splits_view(final(splits)@)),
        final(builder).block_size == old(builder).block_size,
        builder_ok(final(builder).state(), size as int, block_offset + chunk_size),
        splits_good(
            splits_view(final(splits)@),
            old(builder).block_size as int,
            size as int,
            block_offset + chunk_size,
        ),
{
    let bs = builder.block_size;
    let ghost target = raw_pack(
        bs as int,
        size as int,
        block_offset as int,
        image_offset as int,
        chunk_size as int,
        builder.state(),
        splits_view(splits@),
        0,
    );
    let mut blocks: u32 = 0;
    loop
        invariant_except_break
            0 < bs <= u32::MAX - 52,
            size >= minimal_size(bs as int),
            builder.block_size == bs,
            block_offset + chunk_size <= u32::MAX,
            chunk_size * bs <= u32::MAX,
            image_offset + chunk_size * bs <= usize::MAX,
            blocks <= chunk_size,
            raw_pack(
                bs as int,
                size as int,
                block_offset as int,
                image_offset as int,
                chunk_size as int,
                builder.state(),
                splits_view(splits@),
                blocks as int,
            ) == target,
            builder_ok(builder.state(), size as int, block_offset + blocks),
            splits_good(splits_view(splits@), bs as int, size as int, block_offset + blocks),
            chained_with(splits_view(splits@), builder.state()),
        ensures
            chained_with(splits_view(splits@), builder.state()),
            target == (builder.state(), splits_view(splits@)),
            builder.block_size == bs,
            builder_ok(builder.state(), size as int, block_offset + chunk_size),
            splits_good(splits_view(splits@), bs as int, size as int, block_offset + chunk_size),
        decreases chunk_size - blocks, (if raw_room(builder.state(), bs as int) > 0 {
            0int
        } else {
            1int
        }),
    {
        assert(blocks * bs <= chunk_size * bs) by (nonlinear_arith)
            requires
                blocks <= chunk_size,
                bs > 0,
        ;
        let piece_offset = image_offset + (blocks * bs) as usize;
        let ghost before = builder.state();
        let ghost before_blocks = blocks;
        proof {
            lemma_add_raw_ok(
                before,
                bs as int,
                piece_offset as int,
                (chunk_size - blocks) as int,
                size as int,
                block_offset + blocks,
            );
        }
        let n = builder.add_raw(piece_offset, chunk_size - blocks);
        proof {
            lemma_chain_grow(splits_view(splits@), before, builder.state());
        }
        blocks = blocks + n;
        proof {
            lemma_good_weaken(
                splits_view(splits@),
                bs as int,
                size as int,
                block_offset + before_blocks,
                block_offset + blocks,
            );
        }
        if blocks >= chunk_size {
            break;
        }
        proof {
            lemma_fresh_room(size as int, bs as int, block_offset + blocks);
        }
        let ghost b2 = builder.state();
        let ghost sv0 = splits_view(splits@);
        let mut full = SplitBuilder::new(bs, size, block_offset + blocks);
        std::mem::swap(builder, &mut full);
        push_finished(splits, full, Ghost(size as int), Ghost(block_offset + blocks));
        proof {
            assert(b2 == full.state());
            lemma_chain_finish(sv0, b2, bs as int, size as int, block_offset + blocks);
        }
    }
}

/// Splits a sparse image, given its file header and chunk headers, into
/// sparse images that each fit in `size` bytes.
///
/// Chunks go whole into the split being filled while they fit; a raw chunk
/// that does not fit is cut at block boundaries across as many splits as it
/// needs; another chunk that does not fit starts a new split, and the result
/// is `TooSmall` where it does not fit a new split either.
pub fn split_image(header: &FileHeader, chunks: &[ChunkHeader], size: u32) -> (r: Result<
    Vec<Split>,
    SplitError,
>)
    requires
        header.block_size > 0,
        header.block_size <= u32::MAX - 52,
        chunks_in_range(chunks@, header.block_size as int),
    ensures
        match r {
            Ok(splits) => spec_split_image(header.block_size as int, chunks@, size as int) == Ok::<
                Seq<SplitV>,
                SplitError,
            >(splits_view(splits@)),
            Err(e) => spec_split_image(header.block_size as int, chunks@, size as int) == Err::<
                Seq<SplitV>,
                SplitError,
            >(e),
        },
        r matches Ok(splits) ==> {
            &&& splits@.len() >= 1
            &&& splits_good(
                splits_view(splits@),
                header.block_size as int,
                size as int,
                input_blocks(chunks@),
            )
            &&& splits@.last().header.blocks == input_blocks(chunks@)
            &&& splits_chained(splits_view(splits@))
        },
{
    let bs = header.block_size;
    check_minimal_size(size, bs)?;
    let ghost c = chunks@;
    let mut block_offset: u32 = 0;
    let mut image_offset: usize = 40;
    let mut builder = SplitBuilder::new(bs, size, 0);
    let mut splits: Vec<Split> = Vec::new();
    let mut j: usize = 0;
    proof {
        assert(c.take(0) =~= Seq::<ChunkHeader>::empty());
        assert(splits_view(splits@) =~= Seq::<SplitV>::empty());
        lemma_input_nonneg(c);
    }
    while j < chunks.len()
        invariant
            c == chunks@,
            0 <= j <= c.len(),
            size >= minimal_size(bs as int),
            bs == header.block_size,
            0 < bs <= u32::MAX - 52,
            chunks_in_range(c, bs as int),
            builder.block_size == bs,
            block_offset == input_blocks(c.take(j as int)),
            image_offset == 40 + input_totals(c.take(j as int)),
            fold_chunks(c.take(j as int), bs as int, size as int, 40) == (FoldState {
                block_offset: block_offset as int,
                image_offset: image_offset as int,
                builder: builder.state(),
                splits: splits_view(splits@),
                failed: false,
            }),
            builder_ok(builder.state(), size as int, block_offset as int),
            splits_good(splits_view(splits@), bs as int, size as int, block_offset as int),
            chained_with(splits_view(splits@), builder.state()),
        decreases c.len() - j,
    {
        let chunk = &chunks[j];
        proof {
            lemma_fold_take_step(c, j as int, bs as int, size as int, 40);
            lemma_input_take(c, j as int);
            lemma_input_prefix_le(c, j as int + 1);
        }
        let ghost old_builder = builder.state();
        let added = builder.try_add_chunk(chunk, image_offset);
        if !added {
            if chunk.chunk_type == ChunkType::Raw {
                assert(c[j as int] == *chunk);
                pack_raw_chunk(
                    &mut builder,
                    &mut splits,
                    size,
                    block_offset,
                    image_offset,
                    chunk.chunk_size,
                );
            } else {
                let ghost sv0 = splits_view(splits@);
                let mut full = SplitBuilder::new(bs, size, block_offset);
                std::mem::swap(&mut builder, &mut full);
                push_finished(&mut splits, full, Ghost(size as int), Ghost(block_offset as int));
                let ghost fresh = builder.state();
                proof {
                    assert(old_builder == full.state());
                    lemma_chain_finish(sv0, old_builder, bs as int, size as int, block_offset as int);
                }
                if !builder.try_add_chunk(chunk, image_offset) {
                    proof {
                        assert(fold_chunks(c.take(j + 1), bs as int, size as int, 40).failed);
                        lemma_fold_failed_stays(c, j + 1, bs as int, size as int, 40);
                    }
                    return Err(SplitError::TooSmall);
                }
                proof {
                    lemma_chain_grow(splits_view(splits@), fresh, builder.state());
                    lemma_try_add_ok(fresh, *chunk, image_offset as int, size as int, block_offset as int);
                    lemma_good_weaken(
                        splits_view(splits@),
                        bs as int,
                        size as int,
                        block_offset as int,
                        block_offset + chunk.chunk_size,
                    );
                }
            }
        } else {
            proof {
                lemma_chain_grow(splits_view(splits@), old_builder, builder.state());
                lemma_try_add_ok(old_builder, *chunk, image_offset as int, size as int, block_offset as int);
                lemma_good_weaken(
                    splits_view(splits@),
                    bs as int,
                    size as int,
                    block_offset as int,
                    block_offset + chunk.chunk_size,
                );
            }
        }
        block_offset = block_offset + chunk.chunk_size;
        image_offset = image_offset + chunk.total_size as usize;
        j = j + 1;
    }
    proof {
        assert(c.take(j as int) =~= c);
        lemma_finish_ok(builder.state(), bs as int, size as int, block_offset as int);
    }
    let ghost last_state = builder.state();
    let ghost sv_before = splits_view(splits@);
    push_finished(&mut splits, builder, Ghost(size as int), Ghost(block_offset as int));
    proof {
        lemma_chain_finish(sv_before, last_state, bs as int, size as int, block_offset as int);
        let sv = splits_view(splits@);
        assert(sv.last() == sb_finish(last_state, bs as int));
        assert(sv[sv.len() - 1] == splits@.last().view_split());
    }
    Ok(splits)
}

/// Splits a raw image of `raw_size` bytes into sparse images of raw chunks
/// that each fit in `size` bytes. The size is rounded up to whole blocks of
/// the default block size; the data is padded when written out.
pub fn split_raw(raw_size: usize, size: u32) -> (r: Result<Vec<Split>, SplitError>)
    requires
        blocks_for_bytes(raw_size as int) <= u32::MAX,
        raw_starts_fit(blocks_for_bytes(raw_size as int), size as int, 0),
    ensures
        match r {
            Ok(splits) => spec_split_raw(raw_size as int, size as int) == Ok::<
                Seq<SplitV>,
                SplitError,
            >(splits_view(splits@)),
            Err(e) => spec_split_raw(raw_size as int, size as int) == Err::<
                Seq<SplitV>,
                SplitError,
            >(e),
        },
        r matches Ok(splits) ==> {
            &&& splits_good(
                splits_view(splits@),
                DEFAULT_BLOCKSIZE as int,
                size as int,
                blocks_for_bytes(raw_size as int),
            )
            &&& splits@.len() > 0 ==> splits@.last().header.blocks == blocks_for_bytes(
                raw_size as int,
            )
            &&& splits@.len() == 0 <==> raw_size == 0
            &&& raw_chunks_cover(splits_view(splits@), 0, blocks_for_bytes(raw_size as int))
        },
{
    check_minimal_size(size, DEFAULT_BLOCKSIZE)?;
    let rem: usize = if raw_size % 4096 != 0 {
        1
    } else {
        0
    };
    let raw_blocks: u32 = (raw_size / 4096 + rem) as u32;
    assert(raw_blocks == blocks_for_bytes(raw_size as int));
    let mut block_offset: u32 = 0;
    let mut splits: Vec<Split> = Vec::new();
    proof {
        assert(splits_view(splits@) =~= Seq::<SplitV>::empty());
        assert(splits_view(splits@) + raw_splits(raw_blocks as int, size as int, 0) =~= raw_splits(
            raw_blocks as int,
            size as int,
            0,
        ));
    }
    while block_offset < raw_blocks
        invariant
            raw_blocks == blocks_for_bytes(raw_size as int),
            raw_starts_fit(raw_blocks as int, size as int, block_offset as int),
            size >= minimal_size(4096),
            block_offset <= raw_blocks,
            splits_view(splits@) + raw_splits(raw_blocks as int, size as int, block_offset as int)
                == raw_splits(raw_blocks as int, size as int, 0),
            splits_good(splits_view(splits@), 4096, size as int, block_offset as int),
            splits@.len() > 0 ==> splits@.last().header.blocks == block_offset,
            splits@.len() == 0 <==> block_offset == 0,
        decreases raw_blocks - block_offset,
    {
        proof {
            lemma_fresh_room(size as int, 4096, block_offset as int);
        }
        let mut builder = SplitBuilder::new(DEFAULT_BLOCKSIZE, size, block_offset);
        let ghost fresh = builder.state();
        proof {
            lemma_add_raw_ok(
                fresh,
                4096,
                block_offset * 4096,
                (raw_blocks - block_offset) as int,
                size as int,
                block_offset as int,
            );
            lemma_raw_take_fits(fresh, 4096, (raw_blocks - block_offset) as int);
        }
        let n = builder.add_raw((block_offset * DEFAULT_BLOCKSIZE) as usize, raw_blocks - block_offset);
        let ghost prev = splits_view(splits@);
        let ghost done = builder.state();
        proof {
            lemma_good_weaken(prev, 4096, size as int, block_offset as int, block_offset + n);
        }
        push_finished(&mut splits, builder, Ghost(size as int), Ghost(block_offset + n));
        proof {
            let x = sb_finish(done, 4096);
            assert(raw_splits(raw_blocks as int, size as int, block_offset as int) == seq![x]
                + raw_splits(raw_blocks as int, size as int, block_offset + n));
            assert(prev.push(x) + raw_splits(raw_blocks as int, size as int, block_offset + n)
                =~= prev + (seq![x] + raw_splits(raw_blocks as int, size as int, block_offset + n)));
            assert(splits_view(splits@)[splits@.len() - 1] == splits@.last().view_split());
        }
        block_offset = block_offset + n;
    }
    proof {
        assert(raw_splits(raw_blocks as int, size as int, block_offset as int) =~= Seq::<SplitV>::empty());
        assert(splits_view(splits@) + Seq::<SplitV>::empty() =~= splits_view(splits@));
        lemma_raw_splits_cover(raw_blocks as int, size as int, 0);
    }
    Ok(splits)
}

} // verus!
