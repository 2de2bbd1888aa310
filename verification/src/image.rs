//! Planning how an image goes to a device in downloads that each fit the
//! device's `max-download-size`, and the bytes each download carries.

use vstd::prelude::*;
use crate::sparse::{
    chunk_header_bytes, file_header_bytes, parse_chunk_header, parse_file_header, ChunkHeader,
    ChunkHeaderBytes, FileHeader, FileHeaderBytes, ParseError, DEFAULT_BLOCKSIZE,
};
use crate::split::{
    chunks_in_range, input_blocks, input_totals, split_image, split_raw, splits_view,
    spec_split_image, spec_split_raw, split_sparse_size, Split, SplitChunk, SplitError, SplitV,
    splits_good, blocks_for_bytes, lemma_small_raw_starts_fit, chunks_carry_data, lemma_raw_splits_carry_data,
    headers_complete, lemma_sparse_splits_carry_data,
    sum_totals, raw_splits,
};
use crate::text::owned;

verus! {

/// The encoding of an image, from its file header.
#[derive(Clone, Copy, Debug, PartialEq, Eq, Structural)]
pub enum ImageKind {
    /// A plain raw partition image.
    Raw,
    /// An Android sparse image.
    AndroidSparse,
}

/// A contiguous range of the source image.
#[derive(Clone, Copy, Debug, PartialEq, Eq, Structural)]
pub struct RawRange {
    /// Offset in bytes.
    pub offset: u64,
    /// Number of bytes.
    pub size: u64,
}

/// One download planned for an image.
#[derive(Clone, Debug, PartialEq, Eq)]
pub enum ImageTransfer {
    /// A range of the source file, sent as it is.
    Raw {
        /// Source range.
        range: RawRange,
        /// Number of bytes announced with `download:`.
        download_size: u32,
    },
    /// A sparse image built from a split.
    Sparse {
        /// The split.
        split: Split,
        /// Number of bytes announced with `download:`.
        download_size: u32,
    },
}

/// The byte count a transfer announces with `download:`.
pub open spec fn transfer_download_size(t: ImageTransfer) -> u32 {
    match t {
        ImageTransfer::Raw { download_size, .. } => download_size,
        ImageTransfer::Sparse { download_size, .. } => download_size,
    }
}

impl ImageTransfer {
    /// Number of bytes announced with `download:`.
    pub fn download_size(&self) -> (n: u32)
        ensures
            n == transfer_download_size(*self),
    {
        match self {
            ImageTransfer::Raw { download_size, .. } => *download_size,
            ImageTransfer::Sparse { download_size, .. } => *download_size,
        }
    }
}

/// An image with its download plan.
#[derive(Clone, Debug, PartialEq, Eq)]
pub struct PreparedImage {
    /// Source file path.
    pub path: String,
    /// Source file size in bytes.
    pub file_size: u64,
    /// Detected encoding.
    pub kind: ImageKind,
    /// Bytes the partition receives: the expanded size of a sparse image, the
    /// file size of a raw one.
    pub expanded_size: u64,
    /// The downloads that flash the image.
    pub transfers: Vec<ImageTransfer>,
}

/// The bytes of all downloads of a plan.
pub open spec fn downloads_total(ts: Seq<ImageTransfer>) -> int
    decreases ts.len(),
{
    if ts.len() == 0 {
        0
    } else {
        downloads_total(ts.drop_last()) + transfer_download_size(ts.last())
    }
}

impl PreparedImage {
    /// The bytes a flash of the image downloads, at least one, as the length
    /// of its progress bar; a sum past `u64::MAX` counts as `u64::MAX`.
    pub fn total_download_bytes(&self) -> (n: u64)
        ensures
            n == (if downloads_total(self.transfers@) < 1 {
                1
            } else if downloads_total(self.transfers@) > u64::MAX {
                u64::MAX as int
            } else {
                downloads_total(self.transfers@)
            }),
    {
        let mut sum: u64 = 0;
        let mut overflow = false;
        let mut i: usize = 0;
        while i < self.transfers.len()
            invariant
                0 <= i <= self.transfers@.len(),
                overflow <==> downloads_total(self.transfers@.take(i as int)) > u64::MAX,
                !overflow ==> sum == downloads_total(self.transfers@.take(i as int)),
            decreases self.transfers@.len() - i,
        {
            proof {
                assert(self.transfers@.take(i + 1).drop_last() =~= self.transfers@.take(i as int));
                lemma_downloads_total_nonneg(self.transfers@.take(i as int));
            }
            let d = self.transfers[i].download_size();
            if !overflow {
                match sum.checked_add(d as u64) {
                    Some(v) => sum = v,
                    None => overflow = true,
                }
            }
            i = i + 1;
        }
        assert(self.transfers@.take(i as int) =~= self.transfers@);
        if overflow {
            u64::MAX
        } else if sum < 1 {
            1
        } else {
            sum
        }
    }

    /// Number of download and flash rounds.
    pub fn transfer_count(&self) -> (n: usize)
        ensures
            n == self.transfers@.len(),
    {
        self.transfers.len()
    }
}

proof fn lemma_downloads_total_nonneg(ts: Seq<ImageTransfer>)
    ensures
        downloads_total(ts) >= 0,
    decreases ts.len(),
{
    if ts.len() > 0 {
        lemma_downloads_total_nonneg(ts.drop_last());
    }
}

/// Errors when planning an image's downloads.
#[derive(Clone, Copy, Debug, PartialEq, Eq, Structural)]
pub enum ImagePreparationError {
    /// The sparse image could not be parsed.
    SparseParse(ParseError),
    /// The image could not be split for the download size.
    Split(SplitError),
    /// A download larger than the protocol can announce.
    SizeTooLarge {
        /// The size.
        size: u64,
        /// The largest size allowed.
        limit: u64,
    },
    /// The image ends inside the chunk header that starts at `offset`.
    UnexpectedEof {
        /// Where the header starts.
        offset: u64,
    },
}

/// Errors when producing a download's bytes.
#[derive(Clone, Copy, Debug, PartialEq, Eq, Structural)]
pub enum ImagePayloadError {
    /// The source ended before the range that a raw download sends.
    UnexpectedEof {
        /// Bytes the range asks for.
        expected: u64,
        /// Bytes the source had.
        copied: u64,
    },
}

/// Where an image comes from, for operation planning.
#[derive(Clone, Debug, PartialEq, Eq)]
pub struct ImageSource {
    /// Path to the image file.
    pub path: String,
    /// Known size in bytes of the target partition.
    pub partition_size: Option<u64>,
}

impl ImageSource {
    /// An image source for a path, with no partition size.
    pub fn new(path: &str) -> (s: ImageSource)
        ensures
            s.path@ == path@,
            s.partition_size is None,
    {
        ImageSource { path: owned(path), partition_size: None }
    }

    /// This source with the target partition's size.
    pub fn with_partition_size(self, partition_size: u64) -> (s: ImageSource)
        ensures
            s.path == self.path,
            s.partition_size == Some(partition_size),
    {
        ImageSource { path: self.path, partition_size: Some(partition_size) }
    }
}

/// A sparse transfer of split `s` that announces its sparse size.
pub open spec fn sparse_transfer_for(t: ImageTransfer, s: SplitV) -> bool {
    match t {
        ImageTransfer::Sparse { split, download_size } => split.view_split() == s && download_size
            == split_sparse_size(s),
        ImageTransfer::Raw { .. } => false,
    }
}

/// Sparse transfers for splits, each announcing its split's sparse size.
pub open spec fn sparse_transfers_ok(ts: Seq<ImageTransfer>, sv: Seq<SplitV>) -> bool {
    &&& ts.len() == sv.len()
    &&& forall|i: int| 0 <= i < ts.len() ==> sparse_transfer_for(#[trigger] ts[i], sv[i])
}

fn sparse_transfers(splits: Vec<Split>, Ghost(bs): Ghost<int>, Ghost(size): Ghost<int>, Ghost(bound): Ghost<int>) -> (ts: Vec<ImageTransfer>)
    requires
        size <= u32::MAX,
        splits_good(splits_view(splits@), bs, size, bound),
    ensures
        sparse_transfers_ok(ts@, splits_view(splits@)),
{
    let ghost sv = splits_view(splits@);
    let mut ts: Vec<ImageTransfer> = Vec::new();
    let mut rest = splits;
    let ghost all = rest@;
    let mut i: usize = 0;
    let n = rest.len();
    let mut kept: Vec<Split> = Vec::new();
    while kept.len() < n
        invariant
            n == all.len(),
            sv == splits_view(all),
            splits_good(sv, bs, size, bound),
            size <= u32::MAX,
            kept@.len() <= n,
            rest@ == all.skip(kept@.len() as int),
            ts@.len() == kept@.len(),
            forall|j: int| 0 <= j < ts@.len() ==> sparse_transfer_for(#[trigger] ts@[j], sv[j]),
        decreases n - kept@.len(),
    {
        let k = kept.len();
        let split = rest.remove(0);
        proof {
            assert(split == all[k as int]);
            assert(sv[k as int] == split.view_split());
            assert(rest@ =~= all.skip(k + 1));
        }
        let total = split.sparse_size();
        let download_size = total as u32;
        kept.push(split.clone());
        ts.push(ImageTransfer::Sparse { split, download_size });
    }
    ts
}

/// The download plan of a raw image of `file_size` bytes: one raw download
/// of the whole file where it fits, else the splits of the raw data.
pub open spec fn raw_plan_ok(file_size: u64, max_download_size: u32, r: Result<Seq<ImageTransfer>, ImagePreparationError>) -> bool {
    if file_size <= max_download_size {
        r == Ok::<Seq<ImageTransfer>, ImagePreparationError>(
            seq![
                ImageTransfer::Raw {
                    range: RawRange { offset: 0, size: file_size },
                    download_size: file_size as u32,
                },
            ],
        )
    } else if file_size > usize::MAX {
        r == Err::<Seq<ImageTransfer>, ImagePreparationError>(
            ImagePreparationError::SizeTooLarge { size: file_size, limit: usize::MAX as u64 },
        )
    } else {
        match spec_split_raw(file_size as int, max_download_size as int) {
            Err(e) => r == Err::<Seq<ImageTransfer>, ImagePreparationError>(
                ImagePreparationError::Split(e),
            ),
            Ok(sv) => r matches Ok(ts) && sparse_transfers_ok(ts, sv),
        }
    }
}

/// Plans the downloads of a raw image of `file_size` bytes: one raw
/// download where the file fits `max_download_size`, else sparse images of
/// raw chunks that each fit.
pub fn prepare_raw(path: &str, file_size: u64, max_download_size: u32) -> (r: Result<
    PreparedImage,
    ImagePreparationError,
>)
    requires
        file_size <= u32::MAX + 1,
    ensures
        raw_plan_ok(
            file_size,
            max_download_size,
            match r {
                Ok(p) => Ok(p.transfers@),
                Err(e) => Err(e),
            },
        ),
        r matches Ok(p) ==> p.path@ == path@ && p.file_size == file_size && p.kind
            == ImageKind::Raw && p.expanded_size == file_size,
        r matches Ok(p) ==> forall|i: int|
            0 <= i < p.transfers@.len() ==> transfer_download_size(#[trigger] p.transfers@[i])
                <= max_download_size,
{
    let transfers = if file_size <= max_download_size as u64 {
        let mut v: Vec<ImageTransfer> = Vec::new();
        v.push(
            ImageTransfer::Raw {
                range: RawRange { offset: 0, size: file_size },
                download_size: file_size as u32,
            },
        );
        proof {
            assert(v@ =~= seq![
                ImageTransfer::Raw {
                    range: RawRange { offset: 0, size: file_size },
                    download_size: file_size as u32,
                },
            ]);
        }
        v
    } else {
        if file_size > usize::MAX as u64 {
            return Err(
                ImagePreparationError::SizeTooLarge { size: file_size, limit: usize::MAX as u64 },
            );
        }
        proof {
            lemma_small_raw_starts_fit(blocks_for_bytes(file_size as int), max_download_size as int, 0);
        }
        let splits = match split_raw(file_size as usize, max_download_size) {
            Ok(s) => s,
            Err(e) => {
                return Err(ImagePreparationError::Split(e));
            },
        };
        let ghost sv = splits_view(splits@);
        let ts = sparse_transfers(
            splits,
            Ghost(DEFAULT_BLOCKSIZE as int),
            Ghost(max_download_size as int),
            Ghost(blocks_for_bytes(file_size as int)),
        );
        proof {
            assert forall|i: int| 0 <= i < ts@.len() implies transfer_download_size(#[trigger] ts@[i])
                <= max_download_size by {
                assert(crate::split::split_ok(sv[i], DEFAULT_BLOCKSIZE as int, max_download_size as int));
            }
        }
        ts
    };
    Ok(
        PreparedImage {
            path: owned(path),
            file_size,
            kind: ImageKind::Raw,
            expanded_size: file_size,
            transfers,
        },
    )
}

/// Plans the downloads of an Android sparse image from its file header and
/// chunk headers: the splits of the image, each sent as one download.
pub fn prepare_sparse(
    path: &str,
    file_size: u64,
    header: &FileHeader,
    chunks: &[ChunkHeader],
    max_download_size: u32,
) -> (r: Result<PreparedImage, ImagePreparationError>)
    requires
        header.block_size > 0,
        header.block_size <= u32::MAX - 52,
        chunks_in_range(chunks@, header.block_size as int),
    ensures
        match spec_split_image(header.block_size as int, chunks@, max_download_size as int) {
            Err(e) => r == Err::<PreparedImage, ImagePreparationError>(
                ImagePreparationError::Split(e),
            ),
            Ok(sv) => r matches Ok(p) && sparse_transfers_ok(p.transfers@, sv) && p.path@ == path@
                && p.file_size == file_size && p.kind == ImageKind::AndroidSparse && p.expanded_size
                == header.blocks * header.block_size,
        },
        r matches Ok(p) ==> forall|i: int|
            0 <= i < p.transfers@.len() ==> transfer_download_size(#[trigger] p.transfers@[i])
                <= max_download_size,
{
    let splits = match split_image(header, chunks, max_download_size) {
        Ok(s) => s,
        Err(e) => {
            return Err(ImagePreparationError::Split(e));
        },
    };
    let ghost sv = splits_view(splits@);
    let ts = sparse_transfers(
        splits,
        Ghost(header.block_size as int),
        Ghost(max_download_size as int),
        Ghost(input_blocks(chunks@)),
    );
    proof {
        assert forall|i: int| 0 <= i < ts@.len() implies transfer_download_size(#[trigger] ts@[i])
            <= max_download_size by {
            assert(crate::split::split_ok(sv[i], header.block_size as int, max_download_size as int));
        }
    }
    assert((header.blocks as u64) * (header.block_size as u64) <= u64::MAX) by (nonlinear_arith)
        requires
            header.blocks <= u32::MAX,
            header.block_size <= u32::MAX,
    ;
    let expanded_size = (header.blocks as u64) * (header.block_size as u64);
    Ok(
        PreparedImage {
            path: owned(path),
            file_size,
            kind: ImageKind::AndroidSparse,
            expanded_size,
            transfers: ts,
        },
    )
}

/// Whether chunk headers fit the integer ranges that splitting works in.
pub fn check_chunks_in_range(chunks: &[ChunkHeader], block_size: u32) -> (b: bool)
    ensures
        b == chunks_in_range(chunks@, block_size as int),
{
    let ghost c = chunks@;
    let bs = block_size as u64;
    let mut blocks: u64 = 0;
    let mut totals: u64 = 0;
    let mut j: usize = 0;
    let mut ok = true;
    proof {
        assert(c.take(0) =~= Seq::<ChunkHeader>::empty());
    }
    while j < chunks.len()
        invariant
            c == chunks@,
            0 <= j <= c.len(),
            bs == block_size,
            ok ==> blocks == input_blocks(c.take(j as int)) && blocks <= u32::MAX,
            ok ==> totals == input_totals(c.take(j as int)) && 40 + totals <= usize::MAX,
            ok ==> forall|k: int|
                #![trigger c[k]]
                0 <= k < j && c[k].chunk_type == crate::sparse::ChunkType::Raw ==> {
                    &&& c[k].chunk_size * block_size <= u32::MAX
                    &&& 40 + input_totals(c.take(k)) + c[k].chunk_size * block_size <= usize::MAX
                },
            !ok ==> !chunks_in_range(c, block_size as int),
        decreases c.len() - j,
    {
        if !ok {
            j = j + 1;
            continue;
        }
        let ch = chunks[j];
        proof {
            assert(c.take(j + 1).drop_last() =~= c.take(j as int));
            lemma_prefix_sums_le(c, j as int + 1);
        }
        assert((ch.chunk_size as u64) * bs <= u64::MAX) by (nonlinear_arith)
            requires
                ch.chunk_size <= u32::MAX,
                bs <= u32::MAX,
        ;
        let raw_bytes = (ch.chunk_size as u64) * bs;
        if ch.chunk_type == crate::sparse::ChunkType::Raw && (raw_bytes > u32::MAX as u64 || (40
            + totals as u128 + raw_bytes as u128) > usize::MAX as u128) {
            ok = false;
        } else if blocks + ch.chunk_size as u64 > u32::MAX as u64 || (40 + totals as u128
            + ch.total_size as u128) > usize::MAX as u128 {
            ok = false;
        } else {
            blocks = blocks + ch.chunk_size as u64;
            totals = totals + ch.total_size as u64;
        }
        j = j + 1;
    }
    proof {
        if ok {
            assert(c.take(j as int) =~= c);
        }
    }
    ok
}

proof fn lemma_prefix_sums_le(c: Seq<ChunkHeader>, j: int)
    requires
        0 <= j <= c.len(),
    ensures
        input_blocks(c.take(j)) <= input_blocks(c),
        input_totals(c.take(j)) <= input_totals(c),
    decreases c.len() - j,
{
    if j < c.len() {
        assert(c.take(j + 1).drop_last() =~= c.take(j));
        lemma_prefix_sums_le(c, j + 1);
    } else {
        assert(c.take(j) =~= c);
    }
}

/// `size` bytes of `image` from `offset` on, zero where the image has
/// ended.
pub open spec fn padded_range(image: Seq<u8>, offset: int, size: int) -> Seq<u8> {
    Seq::new(size as nat, |i: int| if offset + i < image.len() { image[offset + i] } else { 0u8 })
}

/// The bytes of a split's chunks: each chunk header, followed by its data
/// where it has any.
pub open spec fn chunks_payload(image: Seq<u8>, cs: Seq<SplitChunk>) -> Seq<u8>
    decreases cs.len(),
{
    if cs.len() == 0 {
        seq![]
    } else {
        let c = cs.last();
        chunks_payload(image, cs.drop_last()) + chunk_header_bytes(c.header) + if c.size == 0 {
            Seq::<u8>::empty()
        } else {
            padded_range(image, c.offset as int, c.size as int)
        }
    }
}

/// The bytes a transfer sends for a source image: a raw range exactly, where
/// the image holds it; a split as a sparse image.
pub open spec fn transfer_payload(image: Seq<u8>, t: ImageTransfer) -> Result<Seq<u8>, ImagePayloadError> {
    match t {
        ImageTransfer::Raw { range, .. } => if range.size == 0 {
            Ok(Seq::<u8>::empty())
        } else if range.offset + range.size <= image.len() {
            Ok(image.subrange(range.offset as int, range.offset + range.size))
        } else {
            Err(
                ImagePayloadError::UnexpectedEof {
                    expected: range.size,
                    copied: if range.offset < image.len() {
                        (image.len() - range.offset) as u64
                    } else {
                        0
                    },
                },
            )
        },
        ImageTransfer::Sparse { split, .. } => Ok(
            file_header_bytes(split.header) + chunks_payload(image, split.chunks@),
        ),
    }
}

proof fn lemma_chunks_payload_len(image: Seq<u8>, cs: Seq<SplitChunk>)
    requires
        chunks_carry_data(cs),
    ensures
        chunks_payload(image, cs).len() == sum_totals(cs),
    decreases cs.len(),
{
    if cs.len() > 0 {
        let rest = cs.drop_last();
        assert(chunks_carry_data(rest)) by {
            assert forall|k: int| 0 <= k < rest.len() implies (#[trigger] rest[k]).header.total_size
                == 12 + rest[k].size by {
                assert(rest[k] == cs[k]);
            }
        }
        lemma_chunks_payload_len(image, rest);
        assert(cs.last() == cs[cs.len() - 1]);
        assert(chunk_header_bytes(cs.last().header).len() == 12);
    }
}

/// A transfer sends exactly the bytes it announces: a raw range that the
/// image holds, announced at its size, and a split whose chunks carry their
/// data, announced at its sparse size.
pub proof fn lemma_transfer_payload_length(image: Seq<u8>, t: ImageTransfer)
    requires
        t matches ImageTransfer::Raw { range, download_size } ==> download_size == range.size
            && range.offset + range.size <= image.len(),
        t matches ImageTransfer::Sparse { split, download_size } ==> download_size == split_sparse_size(split.view_split())
            && chunks_carry_data(split.chunks@),
    ensures
        transfer_payload(image, t) matches Ok(b) && b.len() == transfer_download_size(t),
{
    match t {
        ImageTransfer::Raw { .. } => {},
        ImageTransfer::Sparse { split, .. } => {
            lemma_chunks_payload_len(image, split.chunks@);
            assert(file_header_bytes(split.header).len() == 28);
        },
    }
}

/// Every transfer of a raw image's download plan sends exactly the bytes it
/// announces.
pub proof fn lemma_raw_plan_payloads(image: Seq<u8>, max_download_size: u32, ts: Seq<ImageTransfer>)
    requires
        raw_plan_ok(image.len() as u64, max_download_size, Ok(ts)),
        image.len() <= u64::MAX,
    ensures
        forall|i: int| 0 <= i < ts.len() ==> (transfer_payload(image, #[trigger] ts[i]) matches Ok(b)
            && b.len() == transfer_download_size(ts[i])),
{
    let file_size = image.len() as u64;
    if file_size <= max_download_size {
        lemma_transfer_payload_length(image, ts[0]);
    } else if file_size <= usize::MAX {
        let sv = raw_splits(blocks_for_bytes(file_size as int), max_download_size as int, 0);
        lemma_raw_splits_carry_data(blocks_for_bytes(file_size as int), max_download_size as int, 0);
        assert forall|i: int| 0 <= i < ts.len() implies (transfer_payload(image, #[trigger] ts[i]) matches Ok(b)
            && b.len() == transfer_download_size(ts[i])) by {
            assert(sparse_transfer_for(ts[i], sv[i]));
            assert(chunks_carry_data(sv[i].1));
            lemma_transfer_payload_length(image, ts[i]);
        }
    }
}

/// Every transfer of an image's download plan sends exactly the bytes it
/// announces, for a raw image and for a sparse image whose chunk headers
/// each count at least their own 12 bytes.
pub proof fn lemma_plan_payloads(path: Seq<char>, image: Seq<u8>, max_download_size: u32, p: PreparedImage)
    requires
        image_supported(image),
        prepared_ok(path, image, max_download_size, Ok(p)),
        image.len() <= u64::MAX,
        image_layout(image) matches ImageLayout::Sparse(_, cs) ==> headers_complete(cs),
    ensures
        forall|i: int| 0 <= i < p.transfers@.len() ==> (transfer_payload(image, #[trigger] p.transfers@[i]) matches Ok(b)
            && b.len() == transfer_download_size(p.transfers@[i])),
{
    match image_layout(image) {
        ImageLayout::Raw => {
            lemma_raw_plan_payloads(image, max_download_size, p.transfers@);
        },
        ImageLayout::Sparse(h, cs) => {
            lemma_sparse_splits_carry_data(h.block_size as int, cs, max_download_size as int);
            let sv = spec_split_image(h.block_size as int, cs, max_download_size as int)->Ok_0;
            let ts = p.transfers@;
            assert forall|i: int| 0 <= i < ts.len() implies (transfer_payload(image, #[trigger] ts[i]) matches Ok(b)
                && b.len() == transfer_download_size(ts[i])) by {
                assert(sparse_transfer_for(ts[i], sv[i]));
                assert(chunks_carry_data(sv[i].1));
                lemma_transfer_payload_length(image, ts[i]);
            }
        },
        ImageLayout::Invalid(_) => {},
    }
}

fn append_bytes(out: &mut Vec<u8>, bytes: &[u8])
    ensures
        final(out)@ == old(out)@ + bytes@,
{
    let ghost start = out@;
    let mut i: usize = 0;
    while i < bytes.len()
        invariant
            0 <= i <= bytes@.len(),
            out@ == start + bytes@.take(i as int),
        decreases bytes@.len() - i,
    {
        out.push(bytes[i]);
        assert(bytes@.take(i + 1) =~= bytes@.take(i as int).push(bytes@[i as int]));
        i = i + 1;
    }
    assert(bytes@.take(i as int) =~= bytes@);
}

fn append_padded(out: &mut Vec<u8>, image: &[u8], offset: usize, size: usize)
    ensures
        final(out)@ == old(out)@ + padded_range(image@, offset as int, size as int),
{
    let ghost start = out@;
    let mut i: usize = 0;
    while i < size
        invariant
            0 <= i <= size,
            out@ == start + padded_range(image@, offset as int, size as int).take(i as int),
        decreases size - i,
    {
        let b: u8 = if offset < image.len() && i < image.len() - offset {
            image[offset + i]
        } else {
            0
        };
        out.push(b);
        assert(padded_range(image@, offset as int, size as int).take(i + 1) =~= padded_range(
            image@,
            offset as int,
            size as int,
        ).take(i as int).push(b));
        i = i + 1;
    }
    assert(padded_range(image@, offset as int, size as int).take(i as int) =~= padded_range(
        image@,
        offset as int,
        size as int,
    ));
}

/// Appends to `out` the bytes that `transfer` sends for the source image
/// `image`: a raw range exactly, failing where the image ends before it; a
/// split as its file header, then each chunk header followed by its data,
/// padded with zeros past the end of the image.
pub fn write_transfer_payload(image: &[u8], transfer: &ImageTransfer, out: &mut Vec<u8>) -> (r:
    Result<(), ImagePayloadError>)
    ensures
        match transfer_payload(image@, *transfer) {
            Ok(bytes) => r is Ok && final(out)@ == old(out)@ + bytes,
            Err(e) => r == Err::<(), ImagePayloadError>(e) && final(out)@ == old(out)@,
        },
{
    match transfer {
        ImageTransfer::Raw { range, .. } => {
            let len = image.len() as u64;
            if range.size == 0 {
                return Ok(());
            }
            if range.offset <= len && range.size <= len - range.offset {
                let off = range.offset as usize;
                let end = (range.offset + range.size) as usize;
                let ghost start = out@;
                let mut i: usize = off;
                while i < end
                    invariant
                        off <= i <= end,
                        end <= image@.len(),
                        out@ == start + image@.subrange(off as int, i as int),
                    decreases end - i,
                {
                    out.push(image[i]);
                    assert(image@.subrange(off as int, i + 1) =~= image@.subrange(
                        off as int,
                        i as int,
                    ).push(image@[i as int]));
                    i = i + 1;
                }
                Ok(())
            } else {
                let copied: u64 = if range.offset < len {
                    len - range.offset
                } else {
                    0
                };
                Err(ImagePayloadError::UnexpectedEof { expected: range.size, copied })
            }
        },
        ImageTransfer::Sparse { split, .. } => {
            let h = split.header.to_bytes();
            append_bytes(out, h.as_slice());
            let ghost after_header = out@;
            let ghost cs = split.chunks@;
            let mut i: usize = 0;
            while i < split.chunks.len()
                invariant
                    cs == split.chunks@,
                    0 <= i <= cs.len(),
                    out@ == after_header + chunks_payload(image@, cs.take(i as int)),
                decreases cs.len() - i,
            {
                let c = split.chunks[i];
                let ghost before = out@;
                let hb = c.header.to_bytes();
                append_bytes(out, hb.as_slice());
                if c.size != 0 {
                    append_padded(out, image, c.offset, c.size);
                }
                proof {
                    assert(cs.take(i + 1).drop_last() =~= cs.take(i as int));
                    assert(cs.take(i + 1).last() == c);
                    if c.size == 0 {
                        assert(out@ =~= before + chunk_header_bytes(c.header) + Seq::<u8>::empty());
                    }
                }
                i = i + 1;
            }
            proof {
                assert(cs.take(i as int) =~= cs);
            }
            Ok(())
        },
    }
}

/// The bytes after a chunk header: its total size less the header, or none.
pub open spec fn chunk_data_len(c: ChunkHeader) -> int {
    if c.total_size >= 12 { c.total_size - 12 } else { 0 }
}

/// The `count` chunk headers of a sparse image from byte `off` on, each
/// followed by its data; an error where a header does not fit in the image
/// or does not parse.
pub open spec fn walk_chunks(image: Seq<u8>, off: int, count: nat) -> Result<Seq<ChunkHeader>, ImagePreparationError>
    decreases count,
{
    if count == 0 {
        Ok(seq![])
    } else if off + 12 > image.len() {
        Err(ImagePreparationError::UnexpectedEof { offset: off as u64 })
    } else {
        match parse_chunk_header(image.subrange(off, off + 12)) {
            Err(e) => Err(ImagePreparationError::SparseParse(e)),
            Ok(c) => match walk_chunks(image, off + 12 + chunk_data_len(c), (count - 1) as nat) {
                Ok(rest) => Ok(seq![c] + rest),
                Err(e) => Err(e),
            },
        }
    }
}

/// How an image is read: as a sparse image with its file header and chunk
/// headers, as raw data where it does not start with the sparse magic, or
/// not at all.
pub enum ImageLayout {
    Raw,
    Sparse(FileHeader, Seq<ChunkHeader>),
    Invalid(ImagePreparationError),
}

/// The layout of an image's bytes.
pub open spec fn image_layout(image: Seq<u8>) -> ImageLayout {
    if image.len() < 28 {
        ImageLayout::Raw
    } else {
        match parse_file_header(image.take(28)) {
            Err(ParseError::UnknownMagic) => ImageLayout::Raw,
            Err(e) => ImageLayout::Invalid(ImagePreparationError::SparseParse(e)),
            Ok(h) => match walk_chunks(image, 28, h.chunks as nat) {
                Ok(cs) => ImageLayout::Sparse(h, cs),
                Err(e) => ImageLayout::Invalid(e),
            },
        }
    }
}

/// Whether an image is within what planning handles: raw data of at most
/// 2^32 bytes; sparse images with a block size that leaves room for the
/// headers and chunk sizes whose sums fit the integer types.
pub open spec fn image_supported(image: Seq<u8>) -> bool {
    match image_layout(image) {
        ImageLayout::Raw => image.len() <= u32::MAX + 1,
        ImageLayout::Sparse(h, cs) => h.block_size > 0 && h.block_size <= u32::MAX - 52 && chunks_in_range(cs, h.block_size as int),
        ImageLayout::Invalid(_) => true,
    }
}

fn header_at(image: &[u8]) -> (h: FileHeaderBytes)
    requires
        image@.len() >= 28,
    ensures
        h@ == image@.take(28),
{
    let h: FileHeaderBytes = [
        image[0], image[1], image[2], image[3], image[4], image[5], image[6], image[7],
        image[8], image[9], image[10], image[11], image[12], image[13], image[14], image[15],
        image[16], image[17], image[18], image[19], image[20], image[21], image[22], image[23],
        image[24], image[25], image[26], image[27],
    ];
    assert(h@ =~= image@.take(28));
    h
}

fn chunk_bytes_at(image: &[u8], off: usize) -> (h: ChunkHeaderBytes)
    requires
        off + 12 <= image@.len(),
    ensures
        h@ == image@.subrange(off as int, off + 12),
{
    let h: ChunkHeaderBytes = [
        image[off], image[off + 1], image[off + 2], image[off + 3], image[off + 4], image[off + 5],
        image[off + 6], image[off + 7], image[off + 8], image[off + 9], image[off + 10], image[off + 11],
    ];
    assert(h@ =~= image@.subrange(off as int, off + 12));
    h
}

/// The chunk headers of a sparse image whose file header is `header`.
pub fn read_chunk_headers(image: &[u8], header: &FileHeader) -> (r: Result<Vec<ChunkHeader>, ImagePreparationError>)
    ensures
        match walk_chunks(image@, 28, header.chunks as nat) {
            Ok(cs) => r matches Ok(v) && v@ == cs,
            Err(e) => r == Err::<Vec<ChunkHeader>, ImagePreparationError>(e),
        },
{
    let ghost target = walk_chunks(image@, 28, header.chunks as nat);
    let mut out: Vec<ChunkHeader> = Vec::new();
    let mut off: u64 = 28;
    let mut left: u32 = header.chunks;
    while left > 0
        invariant
            target == walk_chunks(image@, 28, header.chunks as nat),
            match walk_chunks(image@, off as int, left as nat) {
                Ok(rest) => target == Ok::<Seq<ChunkHeader>, ImagePreparationError>(out@ + rest),
                Err(e) => target == Err::<Seq<ChunkHeader>, ImagePreparationError>(e),
            },
            off <= 28 + (header.chunks - left) * (u32::MAX as int),
            left <= header.chunks,
        decreases left,
    {
        if off + 12 > image.len() as u64 {
            return Err(ImagePreparationError::UnexpectedEof { offset: off });
        }
        let bytes = chunk_bytes_at(image, off as usize);
        match ChunkHeader::from_bytes(&bytes) {
            Err(e) => {
                return Err(ImagePreparationError::SparseParse(e));
            },
            Ok(c) => {
                let ghost before = out@;
                out.push(c);
                proof {
                    match walk_chunks(image@, off + 12 + chunk_data_len(c), (left - 1) as nat) {
                        Ok(rest) => {
                            assert(before + (seq![c] + rest) =~= out@ + rest);
                        },
                        Err(_) => {},
                    }
                }
                let skip: u64 = if c.total_size >= 12 { (c.total_size - 12) as u64 } else { 0 };
                off = off + 12 + skip;
                left = left - 1;
            },
        }
    }
    assert(out@ + seq![] =~= out@);
    Ok(out)
}

/// Whether planning handles the image; see [`image_supported`].
pub fn check_image_supported(image: &[u8]) -> (b: bool)
    ensures
        b == image_supported(image@),
{
    if image.len() < 28 {
        return image.len() as u64 <= u32::MAX as u64 + 1;
    }
    let hb = header_at(image);
    match FileHeader::from_bytes(&hb) {
        Err(ParseError::UnknownMagic) => image.len() as u64 <= u32::MAX as u64 + 1,
        Err(_) => true,
        Ok(h) => match read_chunk_headers(image, &h) {
            Ok(cs) => h.block_size > 0 && h.block_size <= u32::MAX - 52 && check_chunks_in_range(cs.as_slice(), h.block_size),
            Err(_) => true,
        },
    }
}

/// Whether `r` is the download plan of the image `image` at `path` for a
/// download limit of `max_download_size`: a raw plan of the file for raw
/// data, the transfers of the image's splits for a sparse image, and the
/// layout's error where it is invalid or does not split; every download
/// within the limit.
pub open spec fn prepared_ok(
    path: Seq<char>,
    image: Seq<u8>,
    max_download_size: u32,
    r: Result<PreparedImage, ImagePreparationError>,
) -> bool {
    &&& match image_layout(image) {
        ImageLayout::Invalid(e) => r == Err::<PreparedImage, ImagePreparationError>(e),
        ImageLayout::Raw => raw_plan_ok(
            image.len() as u64,
            max_download_size,
            match r {
                Ok(p) => Ok(p.transfers@),
                Err(e) => Err(e),
            },
        ) && (r matches Ok(p) ==> p.path@ == path && p.file_size == image.len() && p.kind == ImageKind::Raw
            && p.expanded_size == image.len()),
        ImageLayout::Sparse(h, cs) => match spec_split_image(h.block_size as int, cs, max_download_size as int) {
            Err(e) => r == Err::<PreparedImage, ImagePreparationError>(ImagePreparationError::Split(e)),
            Ok(sv) => r matches Ok(p) && sparse_transfers_ok(p.transfers@, sv) && p.path@ == path
                && p.file_size == image.len() && p.kind == ImageKind::AndroidSparse
                && p.expanded_size == h.blocks * h.block_size,
        },
    }
    &&& r matches Ok(p) ==> forall|i: int|
        0 <= i < p.transfers@.len() ==> transfer_download_size(#[trigger] p.transfers@[i]) <= max_download_size
}

/// Plans the downloads of the image whose bytes are `image`: an Android
/// sparse image where it starts with the sparse magic, else raw data.
pub fn prepare_image(path: &str, image: &[u8], max_download_size: u32) -> (r: Result<PreparedImage, ImagePreparationError>)
    requires
        image_supported(image@),
    ensures
        prepared_ok(path@, image@, max_download_size, r),
{
    let file_size = image.len() as u64;
    if image.len() < 28 {
        return prepare_raw(path, file_size, max_download_size);
    }
    let hb = header_at(image);
    match FileHeader::from_bytes(&hb) {
        Err(ParseError::UnknownMagic) => prepare_raw(path, file_size, max_download_size),
        Err(e) => Err(ImagePreparationError::SparseParse(e)),
        Ok(h) => match read_chunk_headers(image, &h) {
            Err(e) => Err(e),
            Ok(cs) => prepare_sparse(path, file_size, &h, cs.as_slice(), max_download_size),
        },
    }
}

} // verus!
