use fastboot_flasher::image::{check_image_supported, prepare_image, ImageKind, ImagePreparationError};
use fastboot_flasher::sparse::{
    ChunkHeader, ChunkType, FileHeader, ParseError, CHUNK_HEADER_BYTES_LEN, DEFAULT_BLOCKSIZE,
    FILE_HEADER_BYTES_LEN,
};
use fastboot_flasher::split::{split_image, split_raw, Split, SplitChunk, SplitError};

#[test]
fn file_header_parse() {
    let data = [
        0x3au8, 0xff, 0x26, 0xed, 0x01, 0x00, 0x00, 0x00, 0x1c, 0x00, 0x0c, 0x00, 0x00, 0x10,
        0x00, 0x00, 0x77, 0x39, 0x14, 0x00, 0xb1, 0x00, 0x00, 0x00, 0xaa, 0x00, 0x00, 0xcc,
    ];

    let h = FileHeader::from_bytes(&data).unwrap();
    assert_eq!(
        h,
        FileHeader {
            block_size: 4096,
            blocks: 1325431,
            chunks: 177,
            checksum: 0xcc0000aa,
        }
    );
}

#[test]
fn file_header_roundtrip() {
    let orig = FileHeader {
        block_size: 4096,
        blocks: 1024,
        chunks: 42,
        checksum: 0xabcd,
    };

    let b = orig.to_bytes();
    let echo = FileHeader::from_bytes(&b).unwrap();

    assert_eq!(orig, echo);
}

#[test]
fn chunk_header_parse() {
    let data = [
        0xc3u8, 0xca, 0x0, 0x0, 0x1f, 0xf1, 0xaa, 0xbb, 0x0c, 0x00, 0x00, 0x00,
    ];

    let h = ChunkHeader::from_bytes(&data).unwrap();
    assert_eq!(
        h,
        ChunkHeader {
            chunk_type: ChunkType::DontCare,
            chunk_size: 0xbbaaf11f,
            total_size: CHUNK_HEADER_BYTES_LEN as u32,
        }
    );
}

#[test]
fn chunk_header_roundtrip() {
    let orig = ChunkHeader {
        chunk_type: ChunkType::Fill,
        chunk_size: 8,
        total_size: (CHUNK_HEADER_BYTES_LEN + 4) as u32,
    };

    let b = orig.to_bytes();
    let echo = ChunkHeader::from_bytes(&b).unwrap();

    assert_eq!(orig, echo);
}

#[test]
fn file_header_rejects_unknown_magic_version_and_sizes() {
    let good = FileHeader { block_size: 4096, blocks: 8, chunks: 1, checksum: 0 }.to_bytes();

    let mut bad_magic = good;
    bad_magic[0] = 0;
    assert_eq!(FileHeader::from_bytes(&bad_magic), Err(ParseError::UnknownMagic));

    let mut bad_version = good;
    bad_version[4] = 2;
    assert_eq!(FileHeader::from_bytes(&bad_version), Err(ParseError::UnknownVersion));

    let mut bad_size = good;
    bad_size[8] = 27;
    assert_eq!(FileHeader::from_bytes(&bad_size), Err(ParseError::UnexpectedSize));
}

#[test]
fn chunk_header_rejects_unknown_type() {
    let data = [0x00u8, 0xca, 0, 0, 1, 0, 0, 0, 12, 0, 0, 0];
    assert_eq!(ChunkHeader::from_bytes(&data), Err(ParseError::UnknownChunkType));
}

#[test]
fn chunk_constructors_and_sizes() {
    assert_eq!(ChunkHeader::new_raw(2, 4096).total_size, 12 + 8192);
    assert_eq!(ChunkHeader::new_raw(2, 4096).data_size(), 8192);
    assert_eq!(ChunkHeader::new_fill(9).data_size(), 4);
    assert_eq!(ChunkHeader::new_dontcare(9).data_size(), 0);
    assert_eq!(ChunkHeader::new_raw(u32::MAX, 4096).total_size, u32::MAX);
    let header = FileHeader { block_size: 4096, blocks: 3, chunks: 1, checksum: 0 };
    assert_eq!(header.total_size(), 3 * 4096);
}

#[test]
fn chunk_out_size_should_error_on_overflow() {
    let header = FileHeader {
        block_size: u32::MAX,
        blocks: 0,
        chunks: 0,
        checksum: 0,
    };
    let chunk = ChunkHeader {
        chunk_type: ChunkType::Raw,
        chunk_size: u32::MAX,
        total_size: 0,
    };
    let out_size = chunk.out_size(&header);

    if usize::BITS == 32 {
        assert_eq!(out_size.unwrap_err(), ParseError::ChunkOutputSizeOverflow);
    } else {
        assert_eq!(out_size.unwrap(), u64::from(u32::MAX).pow(2) as usize);
    }
}

#[test]
fn split_simple() {
    let header = FileHeader {
        block_size: 4096,
        blocks: 1024,
        chunks: 2,
        checksum: 0,
    };
    let chunks = [ChunkHeader::new_fill(8), ChunkHeader::new_raw(1024 - 8, 4096)];

    let split = split_image(&header, &chunks, 1024 * 4096).unwrap();
    assert_eq!(split.len(), 1);
    let split = &split[0];

    assert_eq!(split.header, header);
    assert_eq!(split.chunks.len(), 2);
    assert_eq!(
        &split.chunks[0],
        &SplitChunk {
            header: chunks[0].clone(),
            offset: FILE_HEADER_BYTES_LEN + CHUNK_HEADER_BYTES_LEN,
            size: chunks[0].data_size()
        }
    );
    assert_eq!(
        &split.chunks[1],
        &SplitChunk {
            header: chunks[1].clone(),
            offset: FILE_HEADER_BYTES_LEN + 2 * CHUNK_HEADER_BYTES_LEN + 4,
            size: chunks[1].data_size(),
        }
    );
}

#[test]
fn split_multiple() {
    let header = FileHeader {
        block_size: 4096,
        blocks: 2048,
        chunks: 2,
        checksum: 0,
    };
    let chunks = [
        ChunkHeader::new_fill(8),
        ChunkHeader::new_raw(1024 - 8, 4096),
        ChunkHeader::new_raw(1024 - 8, 4096),
        ChunkHeader::new_fill(8),
    ];
    let expected = [
        Split {
            header: FileHeader { block_size: 4096, blocks: 519, chunks: 2, checksum: 0 },
            chunks: vec![
                SplitChunk {
                    header: ChunkHeader::new_fill(8),
                    offset: FILE_HEADER_BYTES_LEN + CHUNK_HEADER_BYTES_LEN,
                    size: 4,
                },
                SplitChunk {
                    header: ChunkHeader::new_raw(511, 4096),
                    offset: FILE_HEADER_BYTES_LEN + 2 * CHUNK_HEADER_BYTES_LEN + 4,
                    size: 511 * 4096,
                },
            ],
        },
        Split {
            header: FileHeader { block_size: 4096, blocks: 519 + 511, chunks: 3, checksum: 0 },
            chunks: vec![
                SplitChunk { header: ChunkHeader::new_dontcare(519), offset: 0, size: 0 },
                SplitChunk {
                    header: ChunkHeader::new_raw(505, 4096),
                    offset: FILE_HEADER_BYTES_LEN + 2 * CHUNK_HEADER_BYTES_LEN + 4 + 511 * 4096,
                    size: 505 * 4096,
                },
                SplitChunk {
                    header: ChunkHeader::new_raw(6, 4096),
                    offset: FILE_HEADER_BYTES_LEN + 3 * CHUNK_HEADER_BYTES_LEN + 4 + 1016 * 4096,
                    size: 6 * 4096,
                },
            ],
        },
        Split {
            header: FileHeader { block_size: 4096, blocks: 519 + 511 + 511, chunks: 2, checksum: 0 },
            chunks: vec![
                SplitChunk { header: ChunkHeader::new_dontcare(519 + 511), offset: 0, size: 0 },
                SplitChunk {
                    header: ChunkHeader::new_raw(511, 4096),
                    offset: FILE_HEADER_BYTES_LEN
                        + 3 * CHUNK_HEADER_BYTES_LEN
                        + 4
                        + 1016 * 4096
                        + 6 * 4096,
                    size: 511 * 4096,
                },
            ],
        },
        Split {
            header: FileHeader { block_size: 4096, blocks: 2048, chunks: 3, checksum: 0 },
            chunks: vec![
                SplitChunk {
                    header: ChunkHeader::new_dontcare(519 + 511 + 511),
                    offset: 0,
                    size: 0,
                },
                SplitChunk {
                    header: ChunkHeader::new_raw(499, 4096),
                    offset: FILE_HEADER_BYTES_LEN
                        + 3 * CHUNK_HEADER_BYTES_LEN
                        + 4
                        + 1016 * 4096
                        + 517 * 4096,
                    size: 499 * 4096,
                },
                SplitChunk {
                    header: ChunkHeader::new_fill(8),
                    offset: FILE_HEADER_BYTES_LEN
                        + 4 * CHUNK_HEADER_BYTES_LEN
                        + 4
                        + 1016 * 4096
                        + 1016 * 4096,
                    size: 4,
                },
            ],
        },
    ];

    let splits = split_image(&header, &chunks, 512 * 4096).unwrap();
    for (i, (split, expected)) in splits.iter().zip(expected.iter()).enumerate() {
        assert_eq!(split, expected, "split {i} mismatch");
    }
    assert_eq!(splits.len(), expected.len());
}

#[test]
fn test_split_raw() {
    let splits = split_raw(8 * DEFAULT_BLOCKSIZE as usize, 3 * DEFAULT_BLOCKSIZE).unwrap();
    assert_eq!(splits.len(), 4, "Incorrect parts: {splits:?}");
    for (i, split) in splits.iter().enumerate() {
        assert_eq!(split.header.block_size, 4096);
        assert_eq!(split.header.checksum, 0);
        let raw = if i == 0 {
            assert_eq!(split.header.chunks, 1);
            assert_eq!(split.chunks.len(), 1);
            &split.chunks[0]
        } else {
            assert_eq!(split.header.chunks, 2);
            assert_eq!(split.chunks.len(), 2);
            assert_eq!(
                split.chunks[0],
                SplitChunk {
                    header: ChunkHeader {
                        chunk_type: ChunkType::DontCare,
                        chunk_size: 2 * i as u32,
                        total_size: CHUNK_HEADER_BYTES_LEN as u32
                    },
                    offset: 0,
                    size: 0
                },
                "chunk {i}"
            );
            &split.chunks[1]
        };
        assert_eq!(
            raw,
            &SplitChunk {
                header: ChunkHeader {
                    chunk_type: ChunkType::Raw,
                    chunk_size: 2,
                    total_size: 2 * DEFAULT_BLOCKSIZE + CHUNK_HEADER_BYTES_LEN as u32
                },
                offset: 2 * i * DEFAULT_BLOCKSIZE as usize,
                size: 2 * DEFAULT_BLOCKSIZE as usize
            },
            "chunk {i}"
        );
    }
}

#[test]
fn split_image_rejects_too_small_download_size() {
    let header = FileHeader { block_size: 4096, blocks: 8, chunks: 1, checksum: 0 };
    let chunks = [ChunkHeader::new_raw(8, 4096)];
    assert_eq!(split_image(&header, &chunks, 28 + 24 + 4095), Err(SplitError::TooSmall));
    assert_eq!(split_raw(4096, 100), Err(SplitError::TooSmall));
}

#[test]
fn split_image_rejects_chunk_that_fits_no_split() {
    let header = FileHeader { block_size: 4096, blocks: 8, chunks: 1, checksum: 0 };
    let chunks = [ChunkHeader { chunk_type: ChunkType::Fill, chunk_size: 8, total_size: 9000 }];
    assert_eq!(split_image(&header, &chunks, 28 + 24 + 4096), Err(SplitError::TooSmall));
}

#[test]
fn splits_fit_and_cover_every_block() {
    let header = FileHeader { block_size: 4096, blocks: 3000, chunks: 3, checksum: 0 };
    let chunks = [
        ChunkHeader::new_raw(1000, 4096),
        ChunkHeader::new_dontcare(1000),
        ChunkHeader::new_raw(1000, 4096),
    ];
    let size = 300 * 4096;
    let splits = split_image(&header, &chunks, size).unwrap();
    for split in &splits {
        assert!(split.sparse_size() <= size as usize);
    }
    assert_eq!(splits.last().unwrap().header.blocks, 3000);
    let raw = split_raw(10 * 4096 + 1, 4 * 4096).unwrap();
    assert_eq!(raw.last().unwrap().header.blocks, 11);
    assert!(split_raw(0, 4 * 4096).unwrap().is_empty());
}

fn sparse_image(chunks: &[(ChunkHeader, usize)]) -> Vec<u8> {
    let blocks: u32 = chunks.iter().map(|(c, _)| c.chunk_size).sum();
    let header = FileHeader { block_size: 4096, blocks, chunks: chunks.len() as u32, checksum: 0 };
    let mut bytes = header.to_bytes().to_vec();
    for (c, data) in chunks {
        bytes.extend_from_slice(&c.to_bytes());
        bytes.extend(std::iter::repeat(0xabu8).take(*data));
    }
    bytes
}

#[test]
fn prepare_image_reads_raw_and_sparse_images() {

    let raw = vec![7u8; 100];
    assert!(check_image_supported(&raw));
    let plan = prepare_image("raw.img", &raw, 4096).unwrap();
    assert_eq!(plan.kind, ImageKind::Raw);
    assert_eq!(plan.file_size, 100);
    assert_eq!(plan.transfer_count(), 1);

    let image = sparse_image(&[
        (ChunkHeader::new_raw(2, 4096), 8192),
        (ChunkHeader::new_dontcare(3), 0),
    ]);
    assert!(check_image_supported(&image));
    let plan = prepare_image("system.img", &image, 64 * 1024 * 1024).unwrap();
    assert_eq!(plan.kind, ImageKind::AndroidSparse);
    assert_eq!(plan.expanded_size, 5 * 4096);
    assert_eq!(plan.transfer_count(), 1);

    let mut truncated = sparse_image(&[(ChunkHeader::new_raw(1, 4096), 4096)]);
    let header = FileHeader { block_size: 4096, blocks: 1, chunks: 2, checksum: 0 };
    truncated[..FILE_HEADER_BYTES_LEN].copy_from_slice(&header.to_bytes());
    assert_eq!(
        prepare_image("t.img", &truncated, 1 << 20).unwrap_err(),
        ImagePreparationError::UnexpectedEof { offset: (FILE_HEADER_BYTES_LEN + CHUNK_HEADER_BYTES_LEN + 4096) as u64 }
    );

    let mut wrong_version = sparse_image(&[]);
    wrong_version[4] = 2;
    assert_eq!(
        prepare_image("v.img", &wrong_version, 1 << 20).unwrap_err(),
        ImagePreparationError::SparseParse(ParseError::UnknownVersion)
    );
    let _ = ChunkType::Raw;
}

#[test]
fn inspect_gsi_image_reports_the_expanded_size() {
    let image = sparse_image(&[
        (ChunkHeader::new_raw(1, 4096), 4096),
        (ChunkHeader::new_dontcare(9), 0),
    ]);
    let inspected = fastboot_flasher::gsi::inspect_gsi_image("system.img", &image).unwrap();
    assert_eq!(inspected.expanded_size, 10 * 4096);
    assert_eq!(inspected.file_size, image.len() as u64);
    let raw = vec![1u8; 5000];
    assert_eq!(fastboot_flasher::gsi::inspect_gsi_image("raw.img", &raw).unwrap().expanded_size, 5000);
}

#[test]
fn each_split_continues_where_the_previous_stopped() {
    let header = FileHeader { block_size: 4096, blocks: 3000, chunks: 3, checksum: 0 };
    let chunks = [
        ChunkHeader::new_raw(1000, 4096),
        ChunkHeader::new_dontcare(1000),
        ChunkHeader::new_raw(1000, 4096),
    ];
    let splits = split_image(&header, &chunks, 300 * 4096).unwrap();
    assert!(splits.len() > 1);
    for k in 1..splits.len() {
        let skip = &splits[k].chunks[0];
        assert_eq!(skip.header.chunk_type, ChunkType::DontCare);
        assert_eq!(skip.header.chunk_size, splits[k - 1].header.blocks);
    }

    let raw = split_raw(10 * 4096 + 1, 4 * 4096).unwrap();
    let mut next = 0u64;
    for split in &raw {
        let data = split.chunks.last().unwrap();
        assert_eq!(data.header.chunk_type, ChunkType::Raw);
        assert_eq!(data.offset as u64, next * 4096);
        assert_eq!(data.size as u64, data.header.chunk_size as u64 * 4096);
        next += data.header.chunk_size as u64;
    }
    assert_eq!(next, 11);
}

#[test]
fn raw_images_past_four_gib_split_while_each_split_starts_below_block_2_pow_20() {
    let splits = split_raw(4294967296 + 4096, u32::MAX).unwrap();
    assert_eq!(splits.len(), 2);
    assert_eq!(splits[1].header.blocks, 1048577);
    assert!(splits.iter().all(|s| s.sparse_size() <= u32::MAX as usize));
}

#[test]
fn inspect_gsi_image_failure_names_the_image() {
    let mut wrong_version = sparse_image(&[]);
    wrong_version[4] = 2;
    let err = fastboot_flasher::gsi::inspect_gsi_image("broken.img", &wrong_version).unwrap_err();
    assert_eq!(err.path, "broken.img");
    assert_eq!(err.message(), "inspect GSI image broken.img");
    assert_eq!(err.error, ImagePreparationError::SparseParse(ParseError::UnknownVersion));
}

#[test]
fn every_transfer_of_a_sparse_plan_writes_its_announced_size() {
    let image = sparse_image(&[
        (ChunkHeader::new_raw(5, 4096), 5 * 4096),
        (ChunkHeader::new_dontcare(7), 0),
        (ChunkHeader::new_fill(2), 4),
        (ChunkHeader::new_raw(1, 4096), 4096),
    ]);
    assert!(check_image_supported(&image));
    let plan = prepare_image("system.img", &image, 3 * 4096).unwrap();
    assert_eq!(plan.kind, ImageKind::AndroidSparse);
    assert!(plan.transfers.len() > 1);
    for transfer in &plan.transfers {
        let mut out = vec![1u8, 2];
        fastboot_flasher::image::write_transfer_payload(&image, transfer, &mut out).unwrap();
        assert_eq!(out.len(), 2 + transfer.download_size() as usize);
        assert_eq!(&out[..2], &[1, 2]);
    }
}
