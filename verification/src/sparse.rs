//! Android sparse image headers: parsing and serialising the file header and
//! the chunk headers, little-endian on the wire.

use vstd::prelude::*;

verus! {

/// Length of the file header in bytes.
pub const FILE_HEADER_BYTES_LEN: usize = 28;
/// Length of a chunk header in bytes.
pub const CHUNK_HEADER_BYTES_LEN: usize = 12;
/// File magic; the first four bytes of a sparse image, little-endian.
pub const HEADER_MAGIC: u32 = 0xed26ff3a;
/// Block size used when a raw image is described as a sparse one.
pub const DEFAULT_BLOCKSIZE: u32 = 4096;

/// Byte array that holds a file header.
pub type FileHeaderBytes = [u8; 28];
/// Byte array that holds a chunk header.
pub type ChunkHeaderBytes = [u8; 12];

/// Errors when parsing header bytes.
#[derive(Clone, Copy, Debug, PartialEq, Eq, Structural)]
pub enum ParseError {
    /// The header does not start with the sparse magic.
    UnknownMagic,
    /// The header carries a version other than 1.0.
    UnknownVersion,
    /// The header declares an unexpected header or chunk header size.
    UnexpectedSize,
    /// The chunk type is none of the four known ones.
    UnknownChunkType,
    /// A chunk's output size does not fit in `usize`.
    ChunkOutputSizeOverflow,
}

/// Global file header of a sparse image.
#[derive(Clone, Copy, Debug, PartialEq, Eq, Structural)]
pub struct FileHeader {
    /// Block size in bytes.
    pub block_size: u32,
    /// Number of blocks in the expanded image.
    pub blocks: u32,
    /// Number of chunks in the sparse image.
    pub chunks: u32,
    /// Optional CRC32 checksum.
    pub checksum: u32,
}

/// Type of a chunk.
#[derive(Clone, Copy, Debug, PartialEq, Eq, Structural)]
pub enum ChunkType {
    /// Followed by raw content that is copied to the output.
    Raw,
    /// Followed by four bytes that fill the output.
    Fill,
    /// No data; the output may hold anything.
    DontCare,
    /// Followed by a CRC32 checksum.
    Crc32,
}

/// Header of one chunk.
#[derive(Clone, Copy, Debug, PartialEq, Eq, Structural)]
pub struct ChunkHeader {
    /// The type of the chunk.
    pub chunk_type: ChunkType,
    /// Output size of the chunk in blocks.
    pub chunk_size: u32,
    /// Size of the chunk in the sparse image, header included.
    pub total_size: u32,
}

/// The value of two bytes read little-endian.
pub open spec fn le_u16(b0: u8, b1: u8) -> int {
    b0 + 256 * b1
}

/// The value of four bytes read little-endian.
pub open spec fn le_u32(b0: u8, b1: u8, b2: u8, b3: u8) -> int {
    b0 + 256 * b1 + 65536 * b2 + 16777216 * b3
}

/// The two bytes of `v`, least significant first.
pub open spec fn u16_le_bytes(v: u16) -> Seq<u8> {
    seq![(v % 256) as u8, (v / 256) as u8]
}

/// The four bytes of `v`, least significant first.
pub open spec fn u32_le_bytes(v: u32) -> Seq<u8> {
    seq![
        (v % 256) as u8,
        ((v / 256) % 256) as u8,
        ((v / 65536) % 256) as u8,
        (v / 16777216) as u8,
    ]
}

/// The 16-bit field at `off` of `b`.
pub open spec fn field_u16(b: Seq<u8>, off: int) -> int {
    le_u16(b[off], b[off + 1])
}

/// The 32-bit field at `off` of `b`.
pub open spec fn field_u32(b: Seq<u8>, off: int) -> int {
    le_u32(b[off], b[off + 1], b[off + 2], b[off + 3])
}

/// The wire code of a chunk type.
pub open spec fn chunk_type_code(t: ChunkType) -> u16 {
    match t {
        ChunkType::Raw => 0xcac1,
        ChunkType::Fill => 0xcac2,
        ChunkType::DontCare => 0xcac3,
        ChunkType::Crc32 => 0xcac4,
    }
}

/// The chunk type with the given wire code, if there is one.
pub open spec fn chunk_type_from_code(code: int) -> Option<ChunkType> {
    if code == 0xcac1 {
        Some(ChunkType::Raw)
    } else if code == 0xcac2 {
        Some(ChunkType::Fill)
    } else if code == 0xcac3 {
        Some(ChunkType::DontCare)
    } else if code == 0xcac4 {
        Some(ChunkType::Crc32)
    } else {
        None
    }
}

/// What a file header of 28 bytes parses to.
pub open spec fn parse_file_header(b: Seq<u8>) -> Result<FileHeader, ParseError> {
    if field_u32(b, 0) != HEADER_MAGIC {
        Err(ParseError::UnknownMagic)
    } else if field_u16(b, 4) != 1 || field_u16(b, 6) != 0 {
        Err(ParseError::UnknownVersion)
    } else if field_u16(b, 8) != FILE_HEADER_BYTES_LEN || field_u16(b, 10) != CHUNK_HEADER_BYTES_LEN {
        Err(ParseError::UnexpectedSize)
    } else {
        Ok(
            FileHeader {
                block_size: field_u32(b, 12) as u32,
                blocks: field_u32(b, 16) as u32,
                chunks: field_u32(b, 20) as u32,
                checksum: field_u32(b, 24) as u32,
            },
        )
    }
}

/// The 28 bytes of a file header: magic, version 1.0, the two header sizes,
/// then block size, blocks, chunks and checksum.
pub open spec fn file_header_bytes(h: FileHeader) -> Seq<u8> {
    u32_le_bytes(HEADER_MAGIC) + u16_le_bytes(1) + u16_le_bytes(0) + u16_le_bytes(28)
        + u16_le_bytes(12) + u32_le_bytes(h.block_size) + u32_le_bytes(h.blocks)
        + u32_le_bytes(h.chunks) + u32_le_bytes(h.checksum)
}

/// What a chunk header of 12 bytes parses to; bytes 2 and 3 are reserved and
/// ignored.
pub open spec fn parse_chunk_header(b: Seq<u8>) -> Result<ChunkHeader, ParseError> {
    match chunk_type_from_code(field_u16(b, 0)) {
        None => Err(ParseError::UnknownChunkType),
        Some(t) => Ok(
            ChunkHeader {
                chunk_type: t,
                chunk_size: field_u32(b, 4) as u32,
                total_size: field_u32(b, 8) as u32,
            },
        ),
    }
}

/// The 12 bytes of a chunk header: type code, two zero bytes, chunk size and
/// total size.
pub open spec fn chunk_header_bytes(h: ChunkHeader) -> Seq<u8> {
    u16_le_bytes(chunk_type_code(h.chunk_type)) + u16_le_bytes(0) + u32_le_bytes(h.chunk_size)
        + u32_le_bytes(h.total_size)
}

proof fn lemma_u16_roundtrip(v: u16)
    ensures
        le_u16(u16_le_bytes(v)[0], u16_le_bytes(v)[1]) == v,
{
}

proof fn lemma_u32_roundtrip(v: u32)
    ensures
        le_u32(u32_le_bytes(v)[0], u32_le_bytes(v)[1], u32_le_bytes(v)[2], u32_le_bytes(v)[3])
            == v,
{
    let b0 = v % 256;
    let b1 = (v / 256) % 256;
    let b2 = (v / 65536) % 256;
    let b3 = v / 16777216;
    assert(b0 + 256 * b1 + 65536 * b2 + 16777216 * b3 == v) by (nonlinear_arith)
        requires
            b0 == v % 256,
            b1 == (v / 256) % 256,
            b2 == (v / 65536) % 256,
            b3 == v / 16777216,
            0 <= v,
    {
        assert(v == 256 * (v / 256) + v % 256);
        assert(v / 256 == 256 * (v / 65536) + (v / 256) % 256);
        assert(v / 65536 == 256 * (v / 16777216) + (v / 65536) % 256);
    }
}

proof fn lemma_u16_bytes_of_value(b0: u8, b1: u8)
    ensures
        u16_le_bytes(le_u16(b0, b1) as u16) == seq![b0, b1],
{
    let v = le_u16(b0, b1);
    assert(v % 256 == b0 && v / 256 == b1) by (nonlinear_arith)
        requires
            v == b0 + 256 * b1,
            0 <= b0 < 256,
            0 <= b1 < 256,
    ;
    assert(u16_le_bytes(v as u16) =~= seq![b0, b1]);
}

proof fn lemma_u32_bytes_of_value(b0: u8, b1: u8, b2: u8, b3: u8)
    ensures
        u32_le_bytes(le_u32(b0, b1, b2, b3) as u32) == seq![b0, b1, b2, b3],
{
    let v = le_u32(b0, b1, b2, b3);
    assert(v % 256 == b0 && (v / 256) % 256 == b1 && (v / 65536) % 256 == b2 && v / 16777216
        == b3) by (nonlinear_arith)
        requires
            v == b0 + 256 * b1 + 65536 * b2 + 16777216 * b3,
            0 <= b0 < 256,
            0 <= b1 < 256,
            0 <= b2 < 256,
            0 <= b3 < 256,
    {
        assert(v / 256 == b1 + 256 * b2 + 65536 * b3);
        assert(v / 65536 == b2 + 256 * b3);
    }
    assert(u32_le_bytes(v as u32) =~= seq![b0, b1, b2, b3]);
}

/// Reads the little-endian 16-bit field at `off`.
fn read_u16_le(b: &[u8], off: usize) -> (v: u16)
    requires
        off + 2 <= b@.len(),
    ensures
        v == field_u16(b@, off as int),
{
    (b[off] as u16) + 256 * (b[off + 1] as u16)
}

/// Reads the little-endian 32-bit field at `off`.
fn read_u32_le(b: &[u8], off: usize) -> (v: u32)
    requires
        off + 4 <= b@.len(),
    ensures
        v == field_u32(b@, off as int),
{
    let b0 = b[off] as u32;
    let b1 = b[off + 1] as u32;
    let b2 = b[off + 2] as u32;
    let b3 = b[off + 3] as u32;
    assert(b0 + 256 * b1 + 65536 * b2 + 16777216 * b3 <= u32::MAX) by (nonlinear_arith)
        requires
            b0 < 256,
            b1 < 256,
            b2 < 256,
            b3 < 256,
    ;
    b0 + 256 * b1 + 65536 * b2 + 16777216 * b3
}

/// The two bytes of `v`, least significant first.
fn u16_bytes(v: u16) -> (r: (u8, u8))
    ensures
        seq![r.0, r.1] == u16_le_bytes(v),
{
    ((v % 256) as u8, (v / 256) as u8)
}

/// The four bytes of `v`, least significant first.
fn u32_bytes(v: u32) -> (r: (u8, u8, u8, u8))
    ensures
        seq![r.0, r.1, r.2, r.3] == u32_le_bytes(v),
{
    ((v % 256) as u8, ((v / 256) % 256) as u8, ((v / 65536) % 256) as u8, (v / 16777216) as u8)
}

impl ChunkType {
    /// The wire code of this chunk type.
    pub fn code(self) -> (c: u16)
        ensures
            c == chunk_type_code(self),
    {
        match self {
            ChunkType::Raw => 0xcac1,
            ChunkType::Fill => 0xcac2,
            ChunkType::DontCare => 0xcac3,
            ChunkType::Crc32 => 0xcac4,
        }
    }

    /// The chunk type with the given wire code, if there is one.
    pub fn from_code(code: u16) -> (t: Option<ChunkType>)
        ensures
            t == chunk_type_from_code(code as int),
    {
        if code == 0xcac1 {
            Some(ChunkType::Raw)
        } else if code == 0xcac2 {
            Some(ChunkType::Fill)
        } else if code == 0xcac3 {
            Some(ChunkType::DontCare)
        } else if code == 0xcac4 {
            Some(ChunkType::Crc32)
        } else {
            None
        }
    }
}

impl FileHeader {
    /// Parses a raw file header.
    pub fn from_bytes(bytes: &FileHeaderBytes) -> (r: Result<FileHeader, ParseError>)
        ensures
            r == parse_file_header(bytes@),
    {
        let b: &[u8] = bytes.as_slice();
        assert(b@ == bytes@);
        let magic = read_u32_le(b, 0);
        if magic != HEADER_MAGIC {
            return Err(ParseError::UnknownMagic);
        }
        let major = read_u16_le(b, 4);
        let minor = read_u16_le(b, 6);
        if major != 1 || minor != 0 {
            return Err(ParseError::UnknownVersion);
        }
        let header_len = read_u16_le(b, 8);
        let chunk_header_len = read_u16_le(b, 10);
        if header_len != 28 || chunk_header_len != 12 {
            return Err(ParseError::UnexpectedSize);
        }
        Ok(
            FileHeader {
                block_size: read_u32_le(b, 12),
                blocks: read_u32_le(b, 16),
                chunks: read_u32_le(b, 20),
                checksum: read_u32_le(b, 24),
            },
        )
    }

    /// Serialises this header.
    pub fn to_bytes(&self) -> (out: FileHeaderBytes)
        ensures
            out@ == file_header_bytes(*self),
    {
        let m = u32_bytes(HEADER_MAGIC);
        let v1 = u16_bytes(1);
        let v0 = u16_bytes(0);
        let hl = u16_bytes(28);
        let cl = u16_bytes(12);
        let bs = u32_bytes(self.block_size);
        let bl = u32_bytes(self.blocks);
        let ch = u32_bytes(self.chunks);
        let cs = u32_bytes(self.checksum);
        let out: FileHeaderBytes = [
            m.0, m.1, m.2, m.3, v1.0, v1.1, v0.0, v0.1, hl.0, hl.1, cl.0, cl.1,
            bs.0, bs.1, bs.2, bs.3, bl.0, bl.1, bl.2, bl.3, ch.0, ch.1, ch.2, ch.3,
            cs.0, cs.1, cs.2, cs.3,
        ];
        assert(out@ =~= file_header_bytes(*self));
        out
    }

    /// Size in bytes of the expanded image: blocks times block size.
    pub fn total_size(&self) -> (s: usize)
        requires
            self.blocks * self.block_size <= usize::MAX,
        ensures
            s == self.blocks * self.block_size,
    {
        (self.blocks as usize) * (self.block_size as usize)
    }
}

impl ChunkHeader {
    /// A don't-care chunk of `blocks` blocks.
    pub fn new_dontcare(blocks: u32) -> (h: ChunkHeader)
        ensures
            h == (ChunkHeader {
                chunk_type: ChunkType::DontCare,
                chunk_size: blocks,
                total_size: 12,
            }),
    {
        ChunkHeader { chunk_type: ChunkType::DontCare, chunk_size: blocks, total_size: 12 }
    }

    /// A raw chunk of `blocks` blocks of `block_size` bytes; its total size
    /// saturates at `u32::MAX`.
    pub fn new_raw(blocks: u32, block_size: u32) -> (h: ChunkHeader)
        ensures
            h.chunk_type == ChunkType::Raw,
            h.chunk_size == blocks,
            h.total_size == (if 12 + blocks * block_size <= u32::MAX {
                12 + blocks * block_size
            } else {
                u32::MAX as int
            }),
    {
        assert((blocks as u64) * (block_size as u64) <= u64::MAX) by (nonlinear_arith)
            requires
                blocks <= u32::MAX,
                block_size <= u32::MAX,
        ;
        let product = (blocks as u64) * (block_size as u64);
        let total: u32 = if product <= (u32::MAX - 12) as u64 {
            (12 + product) as u32
        } else {
            u32::MAX
        };
        ChunkHeader { chunk_type: ChunkType::Raw, chunk_size: blocks, total_size: total }
    }

    /// A fill chunk of `blocks` blocks; the four fill bytes follow it.
    pub fn new_fill(blocks: u32) -> (h: ChunkHeader)
        ensures
            h == (ChunkHeader { chunk_type: ChunkType::Fill, chunk_size: blocks, total_size: 16 }),
    {
        ChunkHeader { chunk_type: ChunkType::Fill, chunk_size: blocks, total_size: 16 }
    }

    /// Parses a raw chunk header.
    pub fn from_bytes(bytes: &ChunkHeaderBytes) -> (r: Result<ChunkHeader, ParseError>)
        ensures
            r == parse_chunk_header(bytes@),
    {
        let b: &[u8] = bytes.as_slice();
        assert(b@ == bytes@);
        let code = read_u16_le(b, 0);
        match ChunkType::from_code(code) {
            None => Err(ParseError::UnknownChunkType),
            Some(t) => Ok(
                ChunkHeader {
                    chunk_type: t,
                    chunk_size: read_u32_le(b, 4),
                    total_size: read_u32_le(b, 8),
                },
            ),
        }
    }

    /// Serialises this header.
    pub fn to_bytes(&self) -> (out: ChunkHeaderBytes)
        ensures
            out@ == chunk_header_bytes(*self),
    {
        let t = u16_bytes(self.chunk_type.code());
        let z = u16_bytes(0);
        let c = u32_bytes(self.chunk_size);
        let s = u32_bytes(self.total_size);
        let out: ChunkHeaderBytes = [t.0, t.1, z.0, z.1, c.0, c.1, c.2, c.3, s.0, s.1, s.2, s.3];
        assert(out@ =~= chunk_header_bytes(*self));
        out
    }

    /// Size in bytes of this chunk's output for the image's block size, or an
    /// error where it does not fit in `usize`.
    pub fn out_size(&self, header: &FileHeader) -> (r: Result<usize, ParseError>)
        ensures
            r == (if self.chunk_size * header.block_size <= usize::MAX {
                Ok::<usize, ParseError>((self.chunk_size * header.block_size) as usize)
            } else {
                Err(ParseError::ChunkOutputSizeOverflow)
            }),
    {
        let a = self.chunk_size as u64;
        let b = header.block_size as u64;
        assert(a * b <= u64::MAX) by (nonlinear_arith)
            requires
                a <= u32::MAX,
                b <= u32::MAX,
        ;
        let product = a * b;
        if product <= usize::MAX as u64 {
            Ok(product as usize)
        } else {
            Err(ParseError::ChunkOutputSizeOverflow)
        }
    }

    /// Number of data bytes that follow the header in the sparse image.
    pub fn data_size(&self) -> (s: usize)
        ensures
            s == (if self.total_size >= 12 {
                self.total_size - 12
            } else {
                0
            }),
    {
        (self.total_size as usize).saturating_sub(12)
    }
}

/// Parsing what `to_bytes` wrote gives back the header that was written.
pub proof fn lemma_file_header_roundtrip(h: FileHeader)
    ensures
        parse_file_header(file_header_bytes(h)) == Ok::<FileHeader, ParseError>(h),
{
    let b = file_header_bytes(h);
    lemma_u32_roundtrip(HEADER_MAGIC);
    lemma_u16_roundtrip(1);
    lemma_u16_roundtrip(0);
    lemma_u16_roundtrip(28);
    lemma_u16_roundtrip(12);
    lemma_u32_roundtrip(h.block_size);
    lemma_u32_roundtrip(h.blocks);
    lemma_u32_roundtrip(h.chunks);
    lemma_u32_roundtrip(h.checksum);
    assert(field_u32(b, 0) == HEADER_MAGIC);
    assert(field_u16(b, 4) == 1);
    assert(field_u16(b, 6) == 0);
    assert(field_u16(b, 8) == 28);
    assert(field_u16(b, 10) == 12);
    assert(field_u32(b, 12) == h.block_size);
    assert(field_u32(b, 16) == h.blocks);
    assert(field_u32(b, 20) == h.chunks);
    assert(field_u32(b, 24) == h.checksum);
}

/// Bytes that parse as a file header are exactly the bytes that `to_bytes`
/// writes for it.
pub proof fn lemma_file_header_bytes_canonical(b: Seq<u8>)
    requires
        b.len() == FILE_HEADER_BYTES_LEN,
        parse_file_header(b) is Ok,
    ensures
        file_header_bytes(parse_file_header(b)->Ok_0) == b,
{
    let h = parse_file_header(b)->Ok_0;
    lemma_u32_bytes_of_value(b[0], b[1], b[2], b[3]);
    lemma_u16_bytes_of_value(b[4], b[5]);
    lemma_u16_bytes_of_value(b[6], b[7]);
    lemma_u16_bytes_of_value(b[8], b[9]);
    lemma_u16_bytes_of_value(b[10], b[11]);
    lemma_u32_bytes_of_value(b[12], b[13], b[14], b[15]);
    lemma_u32_bytes_of_value(b[16], b[17], b[18], b[19]);
    lemma_u32_bytes_of_value(b[20], b[21], b[22], b[23]);
    lemma_u32_bytes_of_value(b[24], b[25], b[26], b[27]);
    assert(file_header_bytes(h) =~= b);
}

/// Parsing what `to_bytes` wrote gives back the chunk header that was written.
pub proof fn lemma_chunk_header_roundtrip(h: ChunkHeader)
    ensures
        parse_chunk_header(chunk_header_bytes(h)) == Ok::<ChunkHeader, ParseError>(h),
{
    let b = chunk_header_bytes(h);
    lemma_u16_roundtrip(chunk_type_code(h.chunk_type));
    lemma_u16_roundtrip(0);
    lemma_u32_roundtrip(h.chunk_size);
    lemma_u32_roundtrip(h.total_size);
    assert(field_u16(b, 0) == chunk_type_code(h.chunk_type));
    assert(field_u32(b, 4) == h.chunk_size);
    assert(field_u32(b, 8) == h.total_size);
}

/// Bytes that parse as a chunk header come back from `to_bytes` unchanged but
/// for the two reserved bytes, which it writes as zero.
pub proof fn lemma_chunk_header_bytes_canonical(b: Seq<u8>)
    requires
        b.len() == CHUNK_HEADER_BYTES_LEN,
        parse_chunk_header(b) is Ok,
    ensures
        chunk_header_bytes(parse_chunk_header(b)->Ok_0) == b.update(2, 0u8).update(3, 0u8),
{
    let h = parse_chunk_header(b)->Ok_0;
    lemma_u16_bytes_of_value(b[0], b[1]);
    lemma_u32_bytes_of_value(b[4], b[5], b[6], b[7]);
    lemma_u32_bytes_of_value(b[8], b[9], b[10], b[11]);
    assert(chunk_type_code(h.chunk_type) == field_u16(b, 0));
    assert(u16_le_bytes(0) =~= seq![0u8, 0u8]);
    assert(chunk_header_bytes(h) =~= b.update(2, 0u8).update(3, 0u8));
}

/// The Android sparse format's chunk type codes: a chunk header whose first
/// two bytes are `c1 ca` is raw data, `c2 ca` a fill, `c3 ca` a don't-care
/// and `c4 ca` a CRC32; any other code is refused. Writing a header puts the
/// same code in those bytes.
pub proof fn lemma_chunk_type_wire_codes(b: Seq<u8>, h: ChunkHeader)
    requires
        b.len() == CHUNK_HEADER_BYTES_LEN,
    ensures
        b[0] == 0xc1 && b[1] == 0xca ==> (parse_chunk_header(b) matches Ok(p) && p.chunk_type == ChunkType::Raw),
        b[0] == 0xc2 && b[1] == 0xca ==> (parse_chunk_header(b) matches Ok(p) && p.chunk_type == ChunkType::Fill),
        b[0] == 0xc3 && b[1] == 0xca ==> (parse_chunk_header(b) matches Ok(p) && p.chunk_type == ChunkType::DontCare),
        b[0] == 0xc4 && b[1] == 0xca ==> (parse_chunk_header(b) matches Ok(p) && p.chunk_type == ChunkType::Crc32),
        !(b[1] == 0xca && 0xc1 <= b[0] <= 0xc4) ==> parse_chunk_header(b) == Err::<ChunkHeader, ParseError>(
            ParseError::UnknownChunkType,
        ),
        h.chunk_type == ChunkType::Raw ==> chunk_header_bytes(h)[0] == 0xc1 && chunk_header_bytes(h)[1] == 0xca,
        h.chunk_type == ChunkType::Fill ==> chunk_header_bytes(h)[0] == 0xc2 && chunk_header_bytes(h)[1] == 0xca,
        h.chunk_type == ChunkType::DontCare ==> chunk_header_bytes(h)[0] == 0xc3 && chunk_header_bytes(h)[1] == 0xca,
        h.chunk_type == ChunkType::Crc32 ==> chunk_header_bytes(h)[0] == 0xc4 && chunk_header_bytes(h)[1] == 0xca,
        chunk_type_code(ChunkType::Raw) == 0xcac1 && chunk_type_from_code(0xcac1) == Some(ChunkType::Raw),
        chunk_type_code(ChunkType::Fill) == 0xcac2 && chunk_type_from_code(0xcac2) == Some(ChunkType::Fill),
        chunk_type_code(ChunkType::DontCare) == 0xcac3 && chunk_type_from_code(0xcac3) == Some(ChunkType::DontCare),
        chunk_type_code(ChunkType::Crc32) == 0xcac4 && chunk_type_from_code(0xcac4) == Some(ChunkType::Crc32),
{
    assert(0 <= field_u16(b, 0) < 65536);
    assert(field_u16(b, 0) == b[0] + 256 * b[1]);
    assert((field_u16(b, 0) == 0xcac1) == (b[0] == 0xc1 && b[1] == 0xca));
    assert((field_u16(b, 0) == 0xcac2) == (b[0] == 0xc2 && b[1] == 0xca));
    assert((field_u16(b, 0) == 0xcac3) == (b[0] == 0xc3 && b[1] == 0xca));
    assert((field_u16(b, 0) == 0xcac4) == (b[0] == 0xc4 && b[1] == 0xca));
    let w = chunk_header_bytes(h);
    let c = chunk_type_code(h.chunk_type);
    assert(w[0] == u16_le_bytes(c)[0] && w[1] == u16_le_bytes(c)[1]);
}

} // verus!
