use fastboot_flasher::image::{
    prepare_raw, prepare_sparse, write_transfer_payload, ImageKind, ImagePayloadError,
    ImageSource, ImageTransfer, PreparedImage, RawRange,
};
use fastboot_flasher::operation::{
    current_slot, erase_operation, flash_operation, is_logical_var_name, logical_resize_command,
    normalize_slot, parse_max_download_size,
    partition_with_slot, resolve_slot_suffix, OperationKind, OperationSequence, OperationStep,
    PartitionTarget, SlotResolutionError, SlotSelection,
};
use fastboot_flasher::protocol::{
    command_reply_step, download_reply_step, getvar_all_step, parse_u32, parse_var_line,
    DownloadStep, FastBootCommand, FastBootResponse, FastBootResponseParseError, ReplyStep,
    VarsStep,
};
use fastboot_flasher::sparse::{ChunkHeader, FileHeader};
use fastboot_flasher::transport::{
    alternate_backend_kind, backend_attempt_order, find_fastboot_interface,
    is_missing_variable_message, parse_is_logical_value, select_bulk_endpoints,
    should_skip_failed_partition, failed_erase_choice, failed_partition_choice,
    skip_partition_question, progress_advance, BackendKind, DownloadBuffer, FailedStepChoice, FlashProgress, DownloadAccount, DownloadError, EndpointDirection,
    FastbootError, FastbootExecutionError, NusbFastBootError, UsbEndpoint, UsbInterface,
};
use fastboot_flasher::vars::FastbootVars;

fn vars_of(pairs: &[(&str, &str)]) -> FastbootVars {
    let mut vars = FastbootVars::new();
    for (k, v) in pairs {
        vars.insert(k.to_string(), v.to_string());
    }
    vars
}

#[test]
fn command_format_should_match_fastboot_wire_strings() {
    assert_eq!(FastBootCommand::Download(0x1000).to_string(), "download:00001000");
    assert_eq!(FastBootCommand::Flash("boot_a".to_string()).to_string(), "flash:boot_a");
    assert_eq!(FastBootCommand::SetActive("a".to_string()).to_string(), "set_active:a");
    assert_eq!(FastBootCommand::FlashingUnlock.to_string(), "flashing unlock");
    assert_eq!(FastBootCommand::FlashingLock.to_string(), "flashing lock");
    assert_eq!(FastBootCommand::Verify(4096).to_string(), "verify:4096");
}

#[test]
fn other_commands_have_their_wire_strings() {
    assert_eq!(FastBootCommand::GetVar("all".to_string()).to_string(), "getvar:all");
    assert_eq!(FastBootCommand::Erase("userdata".to_string()).to_string(), "erase:userdata");
    assert_eq!(FastBootCommand::RebootTo("fastboot".to_string()).to_string(), "reboot-fastboot");
    assert_eq!(FastBootCommand::RebootBootloader.to_string(), "reboot-bootloader");
    assert_eq!(
        FastBootCommand::ResizeLogicalPartition { partition: "system_a".to_string(), size: 4096 }
            .to_string(),
        "resize-logical-partition:system_a:4096"
    );
    assert_eq!(FastBootCommand::Download(0xdeadbeef).to_string(), "download:deadbeef");
}

#[test]
fn response_parse_should_trim_after_null_byte() {
    let response = FastBootResponse::from_bytes(b"OKAYdone\0ignored").unwrap();

    assert_eq!(response, FastBootResponse::Okay("done".to_string()));
}

#[test]
fn response_parse_reads_every_kind() {
    assert_eq!(
        FastBootResponse::from_bytes(b"INFOhello").unwrap(),
        FastBootResponse::Info("hello".to_string())
    );
    assert_eq!(
        FastBootResponse::from_bytes(b"FAILnope").unwrap(),
        FastBootResponse::Fail("nope".to_string())
    );
    assert_eq!(
        FastBootResponse::from_bytes(b"TEXTx").unwrap(),
        FastBootResponse::Text("x".to_string())
    );
    assert_eq!(
        FastBootResponse::from_bytes(b"DATA00001000").unwrap(),
        FastBootResponse::Data(0x1000)
    );
    assert_eq!(FastBootResponse::from_bytes(b"OK"), Err(FastBootResponseParseError::TooShort));
    assert_eq!(
        FastBootResponse::from_bytes(b"WHAT"),
        Err(FastBootResponseParseError::UnknownKind)
    );
    assert_eq!(
        FastBootResponse::from_bytes(b"DATAzz"),
        Err(FastBootResponseParseError::InvalidDataSize)
    );
    assert_eq!(
        FastBootResponse::from_bytes(&[b'O', b'K', b'A', b'Y', 0xff]),
        Err(FastBootResponseParseError::NotUtf8)
    );
}

#[test]
fn reply_steps_follow_the_reply_kind() {
    assert_eq!(command_reply_step(FastBootResponse::Info("x".to_string())), ReplyStep::Wait);
    assert_eq!(
        command_reply_step(FastBootResponse::Okay("v".to_string())),
        ReplyStep::Done("v".to_string())
    );
    assert_eq!(command_reply_step(FastBootResponse::Data(4)), ReplyStep::Unexpected);
    assert_eq!(download_reply_step(FastBootResponse::Data(4)), DownloadStep::Ready(4));
    assert_eq!(
        download_reply_step(FastBootResponse::Okay(String::new())),
        DownloadStep::Unexpected
    );
}

#[test]
fn getvar_all_collects_variables() {
    let mut vars = FastbootVars::new();
    assert_eq!(
        getvar_all_step(&mut vars, FastBootResponse::Info("partition-size:boot_a: 0x4000".to_string())),
        VarsStep::Wait
    );
    assert_eq!(
        getvar_all_step(&mut vars, FastBootResponse::Info("no colon here".to_string())),
        VarsStep::Wait
    );
    assert_eq!(getvar_all_step(&mut vars, FastBootResponse::Okay(String::new())), VarsStep::Done);
    assert_eq!(vars.get("partition-size:boot_a"), Some("0x4000".to_string()));
    assert_eq!(vars.len(), 1);
    assert_eq!(
        parse_var_line(" product : tb8781 "),
        Some(("product".to_string(), "tb8781".to_string()))
    );
}

#[test]
fn max_download_size_should_accept_decimal_and_hex_values() {
    assert_eq!(parse_max_download_size("4096").unwrap(), 4096);
    assert_eq!(parse_max_download_size("0x1000").unwrap(), 4096);
}

#[test]
fn parse_u32_rejects_garbage_and_overflow() {
    assert!(parse_u32("").is_err());
    assert!(parse_u32("0x").is_err());
    assert!(parse_u32("12a").is_err());
    assert!(parse_u32("4294967296").is_err());
    assert_eq!(parse_u32("4294967295").unwrap(), u32::MAX);
    assert_eq!(parse_u32("+7").unwrap(), 7);
}

#[test]
fn slot_helpers_should_resolve_active_and_inactive_suffixes() {
    let vars = vars_of(&[("current-slot", "_a")]);

    assert_eq!(current_slot(&vars).unwrap(), "a");
    assert_eq!(resolve_slot_suffix(SlotSelection::Inactive, &vars).unwrap(), "b");
    assert_eq!(partition_with_slot("boot", "b"), "boot_b");
}

#[test]
fn slot_resolution_reports_missing_and_unsupported_slots() {
    let empty = FastbootVars::new();
    assert_eq!(current_slot(&empty), Err(SlotResolutionError::MissingCurrentSlot));
    assert_eq!(resolve_slot_suffix(SlotSelection::B, &empty).unwrap(), "b");
    let odd = vars_of(&[("current-slot", " Other ")]);
    let err = resolve_slot_suffix(SlotSelection::Active, &odd).unwrap_err();
    assert_eq!(err, SlotResolutionError::UnsupportedSlot("other".to_string()));
    assert_eq!(err.message(), "unsupported slot value: other");
    assert_eq!(normalize_slot(" __B ").unwrap(), "b");
}

#[test]
fn operation_plans_name_their_partitions() {
    let flash = flash_operation("boot_a", "boot.img", Some(4096));
    assert_eq!(flash.kind, OperationKind::Flash);
    assert_eq!(flash.target, PartitionTarget::exact("boot_a"));
    assert_eq!(flash.image, Some(ImageSource::new("boot.img").with_partition_size(4096)));
    let erase = erase_operation("cache");
    assert_eq!(erase.kind, OperationKind::Erase);
    assert!(erase.image.is_none());
    assert_eq!(
        OperationSequence::for_erase("cache").steps,
        vec![OperationStep::Erase { partition: "cache".to_string() }]
    );
}

#[test]
fn operation_sequence_should_flash_once_per_prepared_transfer() {
    let prepared = prepare_raw("system.img", 12 * 1024, 8192).unwrap();

    let sequence = OperationSequence::for_prepared_flash("system_a", &prepared);

    assert_eq!(sequence.steps.len(), prepared.transfer_count() * 2);
    assert_eq!(
        sequence.steps.last(),
        Some(&OperationStep::Flash { partition: "system_a".to_string() })
    );
}

#[test]
fn prepare_image_should_plan_single_raw_download_when_file_fits() {
    let prepared = prepare_raw("boot.img", 512, 4096).unwrap();

    assert_eq!(prepared.kind, ImageKind::Raw);
    assert_eq!(prepared.file_size, 512);
    assert_eq!(prepared.expanded_size, 512);
    assert_eq!(
        prepared.transfers,
        vec![ImageTransfer::Raw { range: RawRange { offset: 0, size: 512 }, download_size: 512 }]
    );
}

#[test]
fn prepare_image_should_split_large_raw_file_as_sparse_downloads() {
    let prepared = prepare_raw("system.img", 12 * 1024, 8192).unwrap();

    assert_eq!(prepared.kind, ImageKind::Raw);
    assert!(prepared.transfers.len() > 1);
    assert!(prepared.transfers.iter().all(|transfer| transfer.download_size() <= 8192));
}

#[test]
fn prepare_image_should_detect_and_split_android_sparse_images() {
    let header = FileHeader { block_size: 4096, blocks: 2, chunks: 1, checksum: 0 };
    let chunks = [ChunkHeader::new_raw(2, 4096)];

    let prepared = prepare_sparse("vendor.img", 40 + 8192, &header, &chunks, 5000).unwrap();

    assert_eq!(prepared.kind, ImageKind::AndroidSparse);
    assert_eq!(prepared.expanded_size, 8192);
    assert!(prepared.transfer_count() > 1);
}

#[test]
fn write_transfer_payload_should_emit_direct_raw_range() {
    let image = [1u8, 2, 3, 4, 5];
    let prepared = prepare_raw("boot.img", image.len() as u64, 4096).unwrap();
    let mut out = Vec::new();

    write_transfer_payload(&image, &prepared.transfers[0], &mut out).unwrap();

    assert_eq!(out, vec![1, 2, 3, 4, 5]);
}

#[test]
fn write_transfer_payload_reports_short_source() {
    let transfer =
        ImageTransfer::Raw { range: RawRange { offset: 3, size: 4 }, download_size: 4 };
    let mut out = Vec::new();
    assert_eq!(
        write_transfer_payload(&[1, 2, 3, 4, 5], &transfer, &mut out),
        Err(ImagePayloadError::UnexpectedEof { expected: 4, copied: 2 })
    );
    assert!(out.is_empty());
}

#[test]
fn write_transfer_payload_should_emit_sparse_split_payload() {
    let image = vec![0x33u8; 12 * 1024];
    let prepared = prepare_raw("system.img", image.len() as u64, 8192).unwrap();
    let sparse = prepared
        .transfers
        .iter()
        .find(|transfer| matches!(transfer, ImageTransfer::Sparse { .. }))
        .unwrap();
    let mut out = Vec::new();

    write_transfer_payload(&image, sparse, &mut out).unwrap();

    assert_eq!(out.len(), sparse.download_size() as usize);
    assert_eq!(&out[0..4], &[0x3a, 0xff, 0x26, 0xed]);
}

#[test]
fn backend_attempt_order_defaults_to_nusb() {
    assert_eq!(backend_attempt_order(None), vec![BackendKind::Nusb]);
    assert_eq!(backend_attempt_order(Some(BackendKind::Nusb)), vec![BackendKind::Nusb]);
}

#[test]
fn alternate_backend_kind_is_unavailable() {
    assert_eq!(alternate_backend_kind(BackendKind::Nusb), None);
}

#[test]
fn parse_is_logical_value_accepts_yes_and_no() {
    assert_eq!(parse_is_logical_value("yes").unwrap(), true);
    assert_eq!(parse_is_logical_value("no").unwrap(), false);
    assert_eq!(parse_is_logical_value(" YES ").unwrap(), true);
}

#[test]
fn parse_is_logical_value_rejects_unknown_values() {
    let error = parse_is_logical_value("maybe").unwrap_err();
    assert!(error.contains("unsupported logical partition value"));
}

#[test]
fn missing_variable_messages_are_recognised() {
    assert!(is_missing_variable_message("GetVar Variable Not Found"));
    assert!(!is_missing_variable_message("flashing is not allowed"));
}

#[test]
fn fastboot_interface_and_bulk_endpoints_are_found() {
    let interfaces = [
        UsbInterface { class: 8, subclass: 6, protocol: 0x50, number: 0 },
        UsbInterface { class: 0xff, subclass: 0x42, protocol: 3, number: 1 },
    ];
    assert_eq!(find_fastboot_interface(&interfaces), Some(1));
    assert_eq!(find_fastboot_interface(&interfaces[..1]), None);
    let alts = vec![
        vec![UsbEndpoint { bulk: true, direction: EndpointDirection::Out, address: 1, max_packet_size: 512 }],
        vec![
            UsbEndpoint { bulk: false, direction: EndpointDirection::In, address: 0x83, max_packet_size: 64 },
            UsbEndpoint { bulk: true, direction: EndpointDirection::In, address: 0x81, max_packet_size: 512 },
            UsbEndpoint { bulk: true, direction: EndpointDirection::Out, address: 2, max_packet_size: 512 },
        ],
    ];
    assert_eq!(select_bulk_endpoints(&alts).unwrap(), (2, 512, 0x81, 512));
    assert!(select_bulk_endpoints(&alts[..1].to_vec()).is_err());
}

#[test]
fn download_accounting_tracks_bytes_left() {
    let mut account = DownloadAccount::new(10);
    assert!(account.update_size(4).is_ok());
    assert_eq!(account.left(), 6);
    assert!(matches!(
        account.check_complete(),
        Err(DownloadError::IncorrectDataLength { actual: 4, expected: 10 })
    ));
    assert!(matches!(
        account.update_size(8),
        Err(DownloadError::IncorrectDataLength { actual: 12, expected: 10 })
    ));
    assert!(account.update_size(6).is_ok());
    assert!(account.check_complete().is_ok());
}

#[test]
fn should_skip_failed_partition_should_match_fastboot_failures_only() {
    let err = FastbootExecutionError::Fastboot(FastbootError::Nusb(
        NusbFastBootError::FastbootFailed("flashing is not allowed".to_string()),
    ));

    assert!(should_skip_failed_partition(&err));
    let other = FastbootExecutionError::Fastboot(FastbootError::Download("boom".to_string()));
    assert!(!should_skip_failed_partition(&other));
}

#[test]
fn failed_flashes_are_skipped_only_when_the_device_answered_fail() {
    let fail = || FastbootExecutionError::Fastboot(FastbootError::Nusb(NusbFastBootError::FastbootFailed(
        "partition not found".to_string(),
    )));
    assert_eq!(failed_partition_choice(&fail(), true), FailedStepChoice::Skip);
    assert_eq!(failed_partition_choice(&fail(), false), FailedStepChoice::AskUser);
    let other = FastbootExecutionError::Download(DownloadError::NothingQueued);
    assert_eq!(failed_partition_choice(&other, true), FailedStepChoice::Abort);
}

#[test]
fn failed_erases_are_skipped_only_when_the_device_answered_fail() {
    let fail = FastbootError::Nusb(NusbFastBootError::FastbootFailed("no".to_string()));
    assert_eq!(failed_erase_choice(&fail, true), FailedStepChoice::Skip);
    assert_eq!(failed_erase_choice(&fail, false), FailedStepChoice::AskUser);
    let other = FastbootError::Download("short".to_string());
    assert_eq!(failed_erase_choice(&other, false), FailedStepChoice::Abort);
    assert_eq!(skip_partition_question("boot_a"), "Skip boot_a and continue?");
}

#[test]
fn download_total_adds_every_transfer_and_is_at_least_one() {
    let image = |transfers: Vec<ImageTransfer>| PreparedImage {
        path: "x.img".to_string(),
        file_size: 0,
        kind: ImageKind::Raw,
        expanded_size: 0,
        transfers,
    };
    assert_eq!(image(Vec::new()).total_download_bytes(), 1);
    let two = image(vec![
        ImageTransfer::Raw { range: RawRange { offset: 0, size: 4096 }, download_size: 4096 },
        ImageTransfer::Raw { range: RawRange { offset: 4096, size: 100 }, download_size: 512 },
    ]);
    assert_eq!(two.total_download_bytes(), 4608);
}

#[test]
fn download_buffers_fill_up_before_they_are_sent() {
    let mut buffer = DownloadBuffer::new(4);
    assert_eq!(buffer.extend(10), vec![4, 4, 2]);
    assert_eq!(buffer.len, 2);
    assert_eq!(buffer.extend(1), vec![1]);
    assert_eq!(buffer.extend(3), vec![1, 2]);
    assert_eq!(buffer.len, 2);
    assert_eq!(buffer.extend(0), vec![0]);
}

#[test]
fn reserving_sends_a_full_buffer_first_and_takes_what_fits() {
    let mut buffer = DownloadBuffer::new(4);
    assert_eq!(buffer.reserve(3), (false, 3));
    assert_eq!(buffer.reserve(3), (false, 1));
    assert_eq!(buffer.len, 4);
    assert_eq!(buffer.reserve(3), (true, 3));
    assert_eq!(buffer.len, 3);
}

#[test]
fn logical_partitions_are_resized_to_the_expanded_image_first() {
    let prepared = PreparedImage {
        path: "system.img".to_string(),
        file_size: 100,
        kind: ImageKind::AndroidSparse,
        expanded_size: 8192,
        transfers: Vec::new(),
    };
    assert_eq!(
        logical_resize_command("system_a", &prepared, true),
        Some(FastBootCommand::ResizeLogicalPartition { partition: "system_a".to_string(), size: 8192 })
    );
    assert_eq!(logical_resize_command("system_a", &prepared, false), None);
    assert_eq!(is_logical_var_name("system_a"), "is-logical:system_a");
}

#[test]
fn update_flash_progress_should_advance_partition_and_total_bytes() {
    let event = FlashProgress::DownloadBytes { transfer_index: 1, transfer_count: 2, bytes: 512 };
    // The partition's row and the total row both move by the chunk's bytes.
    assert_eq!(progress_advance(event), 512);
    assert_eq!(progress_advance(FlashProgress::FlashStarted { transfer_index: 1, transfer_count: 2 }), 0);
}

#[test]
fn every_transfer_of_a_raw_plan_writes_its_announced_size() {
    let image: Vec<u8> = (0..20000u32).map(|i| (i % 251) as u8).collect();
    let prepared = prepare_raw("big.img", image.len() as u64, 8192).unwrap();
    assert!(prepared.transfers.len() > 1);
    for transfer in &prepared.transfers {
        let mut out = vec![7u8];
        write_transfer_payload(&image, transfer, &mut out).unwrap();
        assert_eq!(out.len(), 1 + transfer.download_size() as usize);
        assert_eq!(out[0], 7);
    }
}
