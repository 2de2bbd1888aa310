use fastboot_flasher::ui::{gsi_worker_outcome, FlashSummaryDto};
use fastboot_flasher::format::{optional_erase_status, StatusTone};
use fastboot_flasher::gsi::partition_candidates;
use fastboot_flasher::format::userdata_info_from_values;
use fastboot_flasher::cli::{FlashMode, SlotArg};
use fastboot_flasher::force::{
    candidate_for_device, find_new_port, force_fastboot, handshake_action, is_permission_error, open_recovery,
    should_try, OpenRecovery,
    is_permission_message,
    render_udev_rules, udev_rules_need_install, wait_step, HandshakeAction, OpenFailure,
    PortCandidate, PortDiscovery, PortSearchResult, SerialIo, WaitAction,
};
use fastboot_flasher::format::{
    ext4_image_plan, parse_fastboot_u64, userdata_fs, FormatTools, HostOs, UserdataFs,
    UserdataInfo, WipeDataOptions,
};
use fastboot_flasher::gsi::{
    available_partitions, build_gsi_execution_plan, check_gsi_dry_run, detect_fastboot_mode, fixed_product_gsi_spec,
    transition_timed_out,
    gsi_phases, normalize_slot, resolve_target_partition, should_flash_product_gsi,
    transition_action, userdata_wipe, FastbootMode, GsiEvent, GsiFlashOptions, GsiPhase, GsiStep,
    TransitionAction, UserdataWipe, MODE_TRANSITION_TIMEOUT_SECS, PRODUCT_GSI_BLOCKS,
    PRODUCT_GSI_BLOCK_SIZE, PRODUCT_GSI_SIZE_BYTES,
};
use fastboot_flasher::manual::{
    disable_vbmeta_actions, manual_flash_action, manual_flash_actions, manual_target,
};
use fastboot_flasher::ui::{
    display_safety_class, is_gsi_worker_invocation, normalize_storage_label, parse_flash_mode,
    parse_plan_request, session_policy_for_flash_run, session_policy_for_mutating_command,
    session_policy_for_read_only_command, update_overall_progress, build_format_tools, build_worker_format_tools, format_tools_platform,
    gsi_worker_connect_retry_delay_ms, DeviceSessionPolicy,
    FlashEvent, ForceFastbootSessions, GsiWorkerProgressMapper,
};
use fastboot_flasher::vars::FastbootVars;

fn vars_of(pairs: &[(&str, &str)]) -> FastbootVars {
    let mut vars = FastbootVars::new();
    for (k, v) in pairs {
        vars.insert(k.to_string(), v.to_string());
    }
    vars
}

fn default_gsi_options() -> GsiFlashOptions {
    GsiFlashOptions { wipe_data: WipeDataOptions::default_options() }
}

#[test]
fn gsi_fixed_product_gsi_spec_matches_expected_recipe() {
    let spec = fixed_product_gsi_spec();

    assert_eq!(spec.size_bytes, PRODUCT_GSI_SIZE_BYTES);
    assert_eq!(spec.block_size, PRODUCT_GSI_BLOCK_SIZE);
    assert_eq!(spec.blocks, PRODUCT_GSI_BLOCKS);
    assert_eq!(spec.label, "product");
    assert_eq!(spec.uuid, "cdd462dd-8dd0-4006-8a5a-94e5a70c2bc3");
}

#[test]
fn gsi_resolve_target_partition_prefers_active_slot_partition() {
    let available = ["system_a".to_string(), "system_b".to_string(), "system".to_string()];

    let resolved = resolve_target_partition("system", "a", &available).unwrap();

    assert_eq!(resolved, "system_a");
}

#[test]
fn gsi_resolve_target_partition_falls_back_to_unsuffixed_partition() {
    let available = ["vbmeta".to_string()];

    let resolved = resolve_target_partition("vbmeta", "b", &available).unwrap();

    assert_eq!(resolved, "vbmeta");
}

#[test]
fn resolve_target_partition_reports_missing_partition() {
    let error = resolve_target_partition("product", "a", &[]).unwrap_err();
    assert_eq!(error, "missing fastboot partition for `product` on slot `a`");
}

#[test]
fn gsi_should_flash_product_gsi_when_gsi_exceeds_system_partition_size() {
    assert!(should_flash_product_gsi(128, 256));
    assert!(!should_flash_product_gsi(256, 128));
}

#[test]
fn gsi_detect_fastboot_mode_treats_is_userspace_yes_as_fastbootd() {
    let vars = vars_of(&[("is-userspace", "yes")]);

    assert_eq!(detect_fastboot_mode(&vars), FastbootMode::Fastbootd);
}

#[test]
fn gsi_detect_fastboot_mode_treats_missing_or_non_yes_as_bootloader() {
    let missing = FastbootVars::new();
    let no = vars_of(&[("is-userspace", "no")]);

    assert_eq!(detect_fastboot_mode(&missing), FastbootMode::Bootloader);
    assert_eq!(detect_fastboot_mode(&no), FastbootMode::Bootloader);
}

#[test]
fn gsi_normalize_slot_only_accepts_a_and_b() {
    assert_eq!(normalize_slot(Some(&"a".to_string())).as_deref(), Some("a"));
    assert_eq!(normalize_slot(Some(&"B".to_string())).as_deref(), Some("b"));
    assert_eq!(normalize_slot(Some(&"other".to_string())), None);
}

#[test]
fn gsi_build_gsi_execution_plan_counts_known_flashes_and_wipes() {
    let plan = build_gsi_execution_plan(
        FastbootMode::Bootloader,
        1_000,
        4,
        &UserdataInfo {
            fs_type: "raw".to_string(),
            size: 8_192,
            max_download_size: None,
            erase_block_size: None,
            logical_block_size: None,
        },
        &default_gsi_options(),
        Some(true),
    );

    assert_eq!(plan.start_mode, FastbootMode::Bootloader);
    assert_eq!(plan.summary.flash_count, 3);
    assert_eq!(plan.summary.wipe_count, 3);
    assert_eq!(plan.summary.skipped_count, 0);
    assert_eq!(plan.summary.total_bytes, 1_000 + 4 + 1 + PRODUCT_GSI_SIZE_BYTES + 1 + 1);
}

#[test]
fn gsi_build_gsi_execution_plan_does_not_use_full_userdata_partition_size_for_non_raw_wipe() {
    let plan = build_gsi_execution_plan(
        FastbootMode::Fastbootd,
        2_048,
        8,
        &UserdataInfo {
            fs_type: "ext4".to_string(),
            size: 256 * 1024 * 1024 * 1024,
            max_download_size: None,
            erase_block_size: None,
            logical_block_size: None,
        },
        &default_gsi_options(),
        Some(false),
    );

    assert_eq!(plan.summary.flash_count, 2);
    assert_eq!(plan.summary.wipe_count, 3);
    assert_eq!(plan.summary.skipped_count, 0);
    assert_eq!(plan.summary.total_bytes, 2_048 + 8 + 1 + 1 + 1);
}

#[test]
fn gsi_mode_transition_timeout_is_two_minutes() {
    assert_eq!(MODE_TRANSITION_TIMEOUT_SECS, 120);
}

#[test]
fn gsi_phases_end_in_fastbootd_with_one_vbmeta_and_system_flash() {
    for start in [FastbootMode::Bootloader, FastbootMode::Fastbootd] {
        let phases = gsi_phases(start);
        assert_eq!(phases.iter().filter(|p| **p == GsiPhase::FlashVbmeta).count(), 1);
        assert_eq!(phases.iter().filter(|p| **p == GsiPhase::FlashSystemGsi).count(), 1);
        assert_eq!(phases.last(), Some(&GsiPhase::ReportModeReady(FastbootMode::Fastbootd)));
    }
    assert_eq!(
        transition_action(FastbootMode::Bootloader, FastbootMode::Fastbootd, 2),
        TransitionAction::GiveUp
    );
    assert_eq!(
        transition_action(FastbootMode::Bootloader, FastbootMode::Fastbootd, 1),
        TransitionAction::Reboot(FastbootMode::Fastbootd)
    );
}

#[test]
fn userdata_wipe_falls_back_to_erase_for_raw_partitions() {
    let options = WipeDataOptions::default_options();
    assert_eq!(userdata_wipe(true, &options, "ext4"), UserdataWipe::FlashImage);
    assert_eq!(userdata_wipe(false, &options, "RAW"), UserdataWipe::EraseFallback);
    assert_eq!(userdata_wipe(false, &options, "ext4"), UserdataWipe::Fail);
}

#[test]
fn available_partitions_strips_the_size_prefix() {
    let vars = vars_of(&[("partition-size:boot_a", "0x1000"), ("product", "x")]);
    assert_eq!(available_partitions(&vars), vec!["boot_a".to_string()]);
}

#[test]
fn parse_fastboot_u64_should_accept_decimal() {
    assert_eq!(parse_fastboot_u64("4096").unwrap(), 4096);
}

#[test]
fn parse_fastboot_u64_should_accept_hex() {
    assert_eq!(parse_fastboot_u64("0x1000").unwrap(), 4096);
}

#[test]
fn parse_fastboot_u64_should_accept_uppercase_hex_prefix() {
    assert_eq!(parse_fastboot_u64("0X1000").unwrap(), 4096);
}

#[test]
fn parse_fastboot_u64_should_accept_unprefixed_hex_values() {
    assert_eq!(parse_fastboot_u64("7f000000").unwrap(), 0x7f000000);
    assert_eq!(parse_fastboot_u64("ABCDEF").unwrap(), 0xabcdef);
}

#[test]
fn parse_fastboot_u64_rejects_garbage() {
    assert!(parse_fastboot_u64("").is_err());
    assert!(parse_fastboot_u64("12xyz").is_err());
    assert_eq!(parse_fastboot_u64(" 42 ").unwrap(), 42);
}

#[test]
fn format_tools_should_build_linux_layout() {
    let tools = FormatTools::from_platform_root("/tmp/format-bin", "linux");

    assert_eq!(tools.dir, "/tmp/format-bin/linux");
    assert_eq!(tools.mke2fs, "/tmp/format-bin/linux/mke2fs");
    assert_eq!(tools.make_f2fs, "/tmp/format-bin/linux/make_f2fs");
    assert_eq!(tools.make_f2fs_casefold, "/tmp/format-bin/linux/make_f2fs_casefold");
}

#[test]
fn format_tools_should_build_windows_layout() {
    let tools = FormatTools::from_platform_root("C:/format-bin", "windows");

    assert_eq!(tools.dir, "C:/format-bin/windows");
    assert_eq!(tools.mke2fs, "C:/format-bin/windows/mke2fs.exe");
    assert_eq!(tools.make_f2fs, "C:/format-bin/windows/make_f2fs.exe");
    assert_eq!(tools.make_f2fs_casefold, "C:/format-bin/windows/make_f2fs_casefold.exe");
}

#[test]
fn format_tools_validate_and_host_support() {
    let tools = FormatTools::from_bin_root("/opt/bin", HostOs::Linux).unwrap();
    assert_eq!(tools.mke2fs_conf, "/opt/bin/linux/mke2fs.conf");
    assert!(FormatTools::from_bin_root("/opt/bin", HostOs::Other).is_err());
    assert_eq!(
        tools.validate(true, false, true).unwrap_err(),
        "missing make_f2fs at /opt/bin/linux/make_f2fs"
    );
    assert!(tools.validate(true, true, true).is_ok());
}

#[test]
fn ext4_plan_uses_block_count_and_stride() {
    let (opts, blocks) = ext4_image_plan(8 * 4096, Some(4 * 4096), Some(4096)).unwrap();
    assert_eq!(opts, "android_sparse,stride=4,stripe-width=1");
    assert_eq!(blocks, 8);
    assert!(ext4_image_plan(4095, None, None).is_err());
    assert_eq!(userdata_fs("f2fs"), Ok(UserdataFs::F2fs));
    assert_eq!(userdata_fs("xfs").unwrap_err(), "unsupported userdata filesystem type: xfs");
}

#[test]
fn manual_target_should_render_active_placeholder() {
    let (partition, _) = manual_target("boot", Some(SlotArg::Active)).unwrap();

    assert_eq!(partition, "boot_<active>");
}

#[test]
fn manual_flash_action_should_accept_exact_partition_names() {
    let action = manual_flash_action("nvram", "/tmp/nvram.bin", 16, None).unwrap();

    assert_eq!(action.partition, "nvram");
    assert_eq!(action.image, "/tmp/nvram.bin");
    assert_eq!(action.size, 16);
    assert_eq!(action.reason, "manual image");
}

#[test]
fn manual_flash_action_should_apply_explicit_slot_suffix() {
    let action = manual_flash_action("boot", "/tmp/boot.img", 16, Some(SlotArg::B)).unwrap();

    assert_eq!(action.partition, "boot_b");
}

#[test]
fn manual_flash_actions_should_expand_slot_all_to_both_slots() {
    let actions = manual_flash_actions("boot", "/tmp/boot.img", 16, Some(SlotArg::All)).unwrap();

    assert_eq!(actions.len(), 2);
    assert_eq!(actions[0].partition, "boot_a");
    assert_eq!(actions[1].partition, "boot_b");
}

#[test]
fn manual_flash_action_should_reject_suffix_override() {
    let error = manual_flash_action("boot_b", "/tmp/boot.img", 16, Some(SlotArg::A)).unwrap_err();

    assert!(error.contains("already has a slot suffix"));
}

#[test]
fn disable_vbmeta_actions_should_target_both_slots() {
    let actions = disable_vbmeta_actions("/tmp/empty_vbmeta.img", 4);

    assert_eq!(actions.len(), 2);
    assert_eq!(actions[0].partition, "vbmeta_a");
    assert_eq!(actions[1].partition, "vbmeta_b");
    assert!(actions.iter().all(|action| action.image == "/tmp/empty_vbmeta.img"));
    assert!(actions.iter().all(|action| action.reason == "disable-vbmeta empty image"));
}

#[test]
fn resolved_partition_uses_device_slot() {
    let (_, target) = manual_target("boot", Some(SlotArg::Inactive)).unwrap();
    let action = fastboot_flasher::manual::ManualFlashAction {
        partition: "boot_<inactive>".to_string(),
        image: "boot.img".to_string(),
        size: 1,
        reason: "manual image".to_string(),
        target,
    };
    let vars = vars_of(&[("current-slot", "a")]);
    assert_eq!(action.resolved_partition(&vars).unwrap(), "boot_b");
    assert!(action.resolved_partition(&FastbootVars::new()).is_err());
}

struct FakeSerial {
    reads: Vec<u8>,
    writes: Vec<u8>,
    flushed: bool,
}

impl FakeSerial {
    fn new(reads: Vec<u8>) -> Self {
        Self { reads: reads.into_iter().rev().collect(), writes: Vec::new(), flushed: false }
    }
}

impl SerialIo for FakeSerial {
    fn read_byte(&mut self) -> std::io::Result<Option<u8>> {
        Ok(self.reads.pop())
    }

    fn flush_input(&mut self) -> std::io::Result<()> {
        self.flushed = true;
        Ok(())
    }

    fn write_all(&mut self, buf: &[u8]) -> std::io::Result<()> {
        self.writes.extend_from_slice(buf);
        Ok(())
    }
}

#[test]
fn handshake_sends_only_fastboot_after_start_byte() {
    let mut port = FakeSerial::new(vec![0x00, b'Y']);

    force_fastboot(&mut port).unwrap();

    assert!(port.flushed);
    assert_eq!(port.writes, b"FASTBOOT");
}

#[test]
fn handshake_waits_for_the_start_byte() {
    assert_eq!(handshake_action(Some(b'Y')), HandshakeAction::SendFastboot);
    assert_eq!(handshake_action(Some(b'y')), HandshakeAction::KeepReading);
    assert_eq!(handshake_action(None), HandshakeAction::KeepReading);
}

struct FakeDiscovery {
    ports: Vec<PortCandidate>,
    permission_denied: Vec<String>,
}

impl FakeDiscovery {
    fn new(ports: Vec<PortCandidate>) -> Self {
        Self { ports, permission_denied: Vec::new() }
    }

    fn with_permission_denied(mut self, devices: &[&str]) -> Self {
        for d in devices {
            self.permission_denied.push(d.to_string());
        }
        self
    }
}

impl PortDiscovery for FakeDiscovery {
    fn list_candidates(&self) -> Vec<PortCandidate> {
        self.ports.clone()
    }

    fn try_open(&self, device: &str) -> Result<(), OpenFailure> {
        if self.permission_denied.iter().any(|d| d == device) {
            return Err(OpenFailure {
                permission_denied: true,
                message: "Permission denied".to_string(),
            });
        }
        Ok(())
    }
}

fn preloader(vid: Option<u16>, pid: Option<u16>) -> PortCandidate {
    PortCandidate {
        device: "/dev/ttyACM0".into(),
        description: "Preloader".into(),
        hwid: "USB".into(),
        vid,
        pid,
    }
}

#[test]
fn find_new_port_finds_new_device() {
    let candidate = preloader(Some(0x0E8D), Some(0x2000));
    let discovery = FakeDiscovery::new(vec![candidate.clone()]);

    let result = find_new_port(&[], &discovery);

    match result {
        PortSearchResult::Openable(c) => assert_eq!(c, candidate),
        _ => panic!("expected Openable"),
    }
}

#[test]
fn find_new_port_skips_known_devices() {
    let discovery = FakeDiscovery::new(vec![preloader(None, None)]);
    let previous = ["/dev/ttyACM0".to_string()];

    let result = find_new_port(&previous, &discovery);

    match result {
        PortSearchResult::NothingFound { permission_denied: None } => {}
        _ => panic!("expected NothingFound"),
    }
}

#[test]
fn find_new_port_reports_permission_candidate() {
    let candidate = preloader(Some(0x0E8D), Some(0x2000));
    let discovery =
        FakeDiscovery::new(vec![candidate.clone()]).with_permission_denied(&["/dev/ttyACM0"]);

    let result = find_new_port(&[], &discovery);

    match result {
        PortSearchResult::NothingFound { permission_denied: Some(denied) } => {
            assert_eq!(denied, candidate)
        }
        _ => panic!("expected NothingFound with permission_denied"),
    }
}

#[test]
fn candidate_for_device_returns_fallback_when_not_listed() {
    let discovery = FakeDiscovery::new(vec![]);
    let candidate = candidate_for_device("/dev/ttyUSB0", &discovery);

    assert_eq!(candidate.device, "/dev/ttyUSB0");
    assert_eq!(candidate.description, "selected by --port");
}

#[test]
fn waiting_handles_each_refused_port_once() {
    let mut tried = Vec::new();
    let refused = PortSearchResult::NothingFound { permission_denied: Some(preloader(None, None)) };
    assert_eq!(
        wait_step(&mut tried, refused.clone(), true),
        WaitAction::InstallUdev(preloader(None, None))
    );
    assert_eq!(wait_step(&mut tried, refused, true), WaitAction::KeepWaiting);
    assert!(is_permission_message("could not open port: Permission denied"));
    assert!(is_permission_message("Access is denied"));
    assert!(!is_permission_message("device busy"));
}

#[test]
fn render_udev_rules_includes_mediatek_ids() {
    let rules = render_udev_rules();

    assert!(rules.contains("MediaTek Preloader / BROM / Download Agent"));
    assert!(rules.contains(r#"SUBSYSTEM=="usb""#));
    assert!(rules.contains(r#"ATTR{idVendor}=="0e8d""#));
    assert!(rules.contains(r#"SUBSYSTEM=="tty""#));
    assert!(rules.contains(r#"ATTRS{idVendor}=="0e8d""#));
    assert!(rules.contains(r#"MODE="0666""#));
    assert!(rules.contains(r#"TAG+="uaccess""#));
}

#[test]
fn install_udev_rule_skips_when_content_matches() {
    assert!(!udev_rules_need_install(Some(render_udev_rules())));
    assert!(udev_rules_need_install(None));
}

#[test]
fn parse_flash_mode_rejects_unknown_modes() {
    let error = parse_flash_mode("not-a-real-mode").unwrap_err();
    assert_eq!(error, "unknown flash mode: not-a-real-mode");
}

#[test]
fn parse_plan_request_maps_all_slot_to_both_slot_policy() {
    let request = parse_plan_request("dry_run", Some("all")).unwrap();
    assert_eq!(request.mode, FlashMode::DryRun);
    assert_eq!(request.slot, Some(SlotArg::All));
}

#[test]
fn flash_runs_always_use_fresh_device_sessions() {
    assert_eq!(session_policy_for_flash_run(), DeviceSessionPolicy::Fresh);
}

#[test]
fn mutating_commands_always_use_fresh_device_sessions() {
    assert_eq!(session_policy_for_mutating_command(), DeviceSessionPolicy::Fresh);
}

#[test]
fn read_only_commands_may_reuse_cached_device_sessions() {
    assert_eq!(session_policy_for_read_only_command(), DeviceSessionPolicy::ReuseCached);
}

#[test]
fn update_overall_progress_caps_bytes_at_total() {
    let (bytes, total) = update_overall_progress(2048, 1024, 2500);

    assert_eq!(bytes, 2500);
    assert_eq!(total, 2500);
}

#[test]
fn normalize_storage_label_prefers_emmc_and_ufs() {
    assert_eq!(normalize_storage_label("auto", &[]), "auto");
    assert_eq!(normalize_storage_label("UFS", &[]), "UFS");
    assert_eq!(normalize_storage_label("EMMC", &[]), "EMMC");
    assert_eq!(normalize_storage_label("ufs_auto", &[]), "UFS");
    assert_eq!(normalize_storage_label("mmc_user", &[]), "EMMC");
    assert_eq!(normalize_storage_label("auto", &["UFS".to_string()]), "UFS");
}

#[test]
fn lib_normalize_slot_only_accepts_a_and_b() {
    assert_eq!(normalize_slot(Some(&"a".to_string())).as_deref(), Some("a"));
    assert_eq!(normalize_slot(Some(&"B".to_string())).as_deref(), Some("b"));
    assert_eq!(normalize_slot(Some(&"other".to_string())), None);
}

#[test]
fn lib_detect_fastboot_mode_treats_is_userspace_yes_as_fastbootd() {
    let vars = vars_of(&[("is-userspace", "yes")]);

    assert_eq!(detect_fastboot_mode(&vars), FastbootMode::Fastbootd);
}

#[test]
fn lib_detect_fastboot_mode_treats_missing_or_non_yes_as_bootloader() {
    let missing = FastbootVars::new();
    let no = vars_of(&[("is-userspace", "no")]);
    let upper = vars_of(&[("is-userspace", "YES")]);

    assert_eq!(detect_fastboot_mode(&missing), FastbootMode::Bootloader);
    assert_eq!(detect_fastboot_mode(&no), FastbootMode::Bootloader);
    assert_eq!(detect_fastboot_mode(&upper), FastbootMode::Bootloader);
}

#[test]
fn unknown_safety_class_displays_as_other() {
    assert_eq!(display_safety_class("unknown"), "other");
    assert_eq!(display_safety_class("boot_critical"), "boot_critical");
}

#[test]
fn force_fastboot_sessions_are_replaced_and_cancellable() {
    let mut state = ForceFastbootSessions::new();

    let first = state.start();
    let second = state.start();

    assert_eq!(first, 1);
    assert_eq!(second, 2);
    assert!(!state.cancel(first));
    assert!(state.cancel(second));
    assert!(!state.cancel(second));
}

#[test]
fn gsi_worker_invocation_is_detected_by_argument() {
    assert!(is_gsi_worker_invocation(&["app".to_string(), "--gsi-worker".to_string()]));
    assert!(!is_gsi_worker_invocation(&["app".to_string()]));
}

#[test]
fn gsi_worker_progress_mapper_converts_flash_progress_and_completion() {
    let mut mapper = GsiWorkerProgressMapper::new(1000);

    let started = mapper.map_event(GsiEvent::Flashing {
        partition: "system_a".to_string(),
        image: "/tmp/system.img".into(),
        size_bytes: 1000,
    });
    assert_eq!(
        started,
        vec![
            FlashEvent::PreparingImage { partition: "system_a".to_string() },
            FlashEvent::Overall { bytes: 0, total: 1000 },
            FlashEvent::Flashing {
                partition: "system_a".to_string(),
                bytes: 0,
                total: 1000,
                speed_bps: 0,
            }
        ]
    );

    let progressed = mapper.map_event(GsiEvent::FlashProgress {
        partition: "system_a".to_string(),
        bytes: 400,
        total_bytes: 1000,
        speed_bps: 55,
    });
    assert_eq!(
        progressed,
        vec![
            FlashEvent::Flashing {
                partition: "system_a".to_string(),
                bytes: 400,
                total: 1000,
                speed_bps: 55,
            },
            FlashEvent::Overall { bytes: 400, total: 1000 }
        ]
    );

    let finished = mapper.map_event(GsiEvent::FlashFinished {
        partition: "system_a".to_string(),
        size_bytes: 1000,
    });
    assert_eq!(
        finished,
        vec![
            FlashEvent::Overall { bytes: 1000, total: 1000 },
            FlashEvent::PartitionComplete { partition: "system_a".to_string() }
        ]
    );
}

#[test]
fn gsi_worker_progress_mapper_converts_status_steps() {
    let mut mapper = GsiWorkerProgressMapper::new(10);

    let events = mapper.map_event(GsiEvent::Step(GsiStep::FlashingSystemGsi));

    assert_eq!(events, vec![FlashEvent::GsiStatus { status: "flashing_system_gsi".to_string() }]);
}

#[test]
fn partition_candidates_try_the_slotted_name_first() {
    assert_eq!(partition_candidates("system", Some("b")), vec!["system_b".to_string(), "system".to_string()]);
    assert_eq!(partition_candidates("vbmeta", None), vec!["vbmeta".to_string()]);
}

#[test]
fn userdata_info_reads_device_answers() {
    let info = userdata_info_from_values(" F2FS ", "0x1000", Some("0x4000000"), Some("bogus"), None).unwrap();
    assert_eq!(info.fs_type, "f2fs");
    assert_eq!(info.size, 4096);
    assert_eq!(info.max_download_size, Some(0x4000000));
    assert_eq!(info.erase_block_size, None);
    assert_eq!(info.logical_block_size, None);
    let error = userdata_info_from_values("ext4", "lots", None, None, None).unwrap_err();
    assert_eq!(error, "parse partition-size:userdata (lots)");
}

#[test]
fn storage_label_from_capitalised_texts() {
    assert_eq!(fastboot_flasher::ui::storage_label_from_upper("UFS_LU0", "AUTO", "auto"), "UFS");
    assert_eq!(fastboot_flasher::ui::storage_label_from_upper("", "EMMC_USER", "emmc_user"), "EMMC");
    assert_eq!(fastboot_flasher::ui::storage_label_from_upper("", "AUTO", "auto"), "auto");
}

#[test]
fn permission_denied_via_errorkind() {
    assert!(is_permission_error(true, "nope"));
}

#[test]
fn permission_denied_via_message() {
    assert!(is_permission_error(false, "could not open port: Permission denied"));
}

#[test]
fn permission_denied_via_access_is_denied() {
    assert!(is_permission_error(false, "Access is denied"));
}

#[test]
fn not_permission_error() {
    assert!(!is_permission_error(false, "device busy"));
}

#[test]
fn gsi_worker_connect_retry_delay_matches_platform_policy() {
    assert_eq!(gsi_worker_connect_retry_delay_ms(HostOs::Windows), 250);
    assert_eq!(gsi_worker_connect_retry_delay_ms(HostOs::Linux), 0);
    assert_eq!(gsi_worker_connect_retry_delay_ms(HostOs::Other), 0);
}

#[test]
fn resolve_format_tools_uses_current_platform_directory() {
    let platform = format_tools_platform(HostOs::Linux).unwrap();
    let root = "/tmp/format-bin";
    let tools = build_format_tools(root, platform);
    let dir = std::path::Path::new(&tools.dir);

    assert_eq!(dir.parent(), Some(std::path::Path::new(root)));
    assert_eq!(dir.file_name().and_then(|name| name.to_str()), Some(platform));
}

#[test]
fn format_tools_from_the_host_name_every_tool() {
    let tools = FormatTools::from_bin_root("/tmp/format-bin", HostOs::Linux).unwrap();
    assert_eq!(tools.root, "/tmp/format-bin");
    assert_eq!(tools.dir, "/tmp/format-bin/linux");
    assert_eq!(tools.mke2fs, "/tmp/format-bin/linux/mke2fs");
    assert_eq!(tools.make_f2fs, "/tmp/format-bin/linux/make_f2fs");
    assert_eq!(tools.make_f2fs_casefold, "/tmp/format-bin/linux/make_f2fs_casefold");
    assert_eq!(tools.mke2fs_conf, "/tmp/format-bin/linux/mke2fs.conf");
    let windows = FormatTools::from_cli_assets("C:/pkg", HostOs::Windows).unwrap();
    assert_eq!(windows.root, "C:/pkg\\assets\\bin");
    assert_eq!(windows.mke2fs, "C:/pkg\\assets\\bin\\windows\\mke2fs.exe");
    let linux = FormatTools::from_cli_assets("/opt/pkg/", HostOs::Linux).unwrap();
    assert_eq!(linux.mke2fs_conf, "/opt/pkg/assets/bin/linux/mke2fs.conf");
}

#[test]
fn format_tools_on_a_windows_host_join_with_backslashes() {
    let tools = FormatTools::from_bin_root("C:\\tools\\", HostOs::Windows).unwrap();
    assert_eq!(tools.dir, "C:\\tools\\windows");
    assert_eq!(tools.make_f2fs_casefold, "C:\\tools\\windows\\make_f2fs_casefold.exe");
    assert_eq!(tools.mke2fs_conf, "C:\\tools\\windows\\mke2fs.conf");
    let drive = FormatTools::for_host("D:", "windows", HostOs::Windows);
    assert_eq!(drive.dir, "D:windows");
    let worker = build_worker_format_tools("/srv/bin", HostOs::Windows).unwrap();
    assert_eq!(worker.mke2fs, "/srv/bin\\windows\\mke2fs.exe");
}

#[test]
fn manual_flash_actions_for_all_slots_carry_image_size_and_target() {
    let actions = manual_flash_actions("boot", "/tmp/boot.img", 16, Some(SlotArg::All)).unwrap();
    assert_eq!(actions.len(), 2);
    for (action, name) in actions.iter().zip(["boot_a", "boot_b"]) {
        assert_eq!(action.partition, name);
        assert_eq!(action.image, "/tmp/boot.img");
        assert_eq!(action.size, 16);
        assert_eq!(action.reason, "manual image");
        assert_eq!(action.target, fastboot_flasher::manual::ManualTarget::Exact(name.to_string()));
    }
}

#[test]
fn only_new_ports_are_tried_until_one_opens() {
    let previous = vec!["/dev/ttyACM0".to_string()];
    assert!(should_try(&previous, "/dev/ttyACM1", false));
    assert!(!should_try(&previous, "/dev/ttyACM0", false));
    assert!(!should_try(&previous, "/dev/ttyACM1", true));
}

#[test]
fn only_permission_refusals_are_recovered_from() {
    assert_eq!(open_recovery(false, true), OpenRecovery::Fail);
    assert_eq!(open_recovery(true, true), OpenRecovery::InstallUdevAndRetry);
    assert_eq!(open_recovery(true, false), OpenRecovery::ShowGuidanceAndFail);
}

#[test]
fn gsi_flow_refuses_a_dry_run() {
    assert_eq!(
        check_gsi_dry_run(true),
        Err("--dry-run is not supported for the gsi subcommand".to_string())
    );
    assert_eq!(check_gsi_dry_run(false), Ok(()));
}

#[test]
fn mode_changes_time_out_after_two_minutes() {
    assert_eq!(transition_timed_out(119), None);
    assert_eq!(transition_timed_out(120), Some("mode transition timed out after 120s".to_string()));
}

#[test]
fn mapper_counts_the_finished_bytes_of_a_whole_history() {
    let mut mapper = GsiWorkerProgressMapper::new(100);
    mapper.map_event(GsiEvent::FlashFinished { partition: "vbmeta_a".to_string(), size_bytes: 40 });
    mapper.map_event(GsiEvent::EraseFinished { partition: "metadata" });
    mapper.map_event(GsiEvent::PartitionSkipped { partition: "cache", reason: "missing".to_string() });
    mapper.map_event(GsiEvent::Erasing { partition: "cache" });
    assert_eq!(mapper.completed_before, 42);
    let out = mapper.map_event(GsiEvent::FlashFinished { partition: "system_a".to_string(), size_bytes: 90 });
    assert_eq!(mapper.completed_before, 132);
    assert_eq!(out[0], FlashEvent::Overall { bytes: 100, total: 100 });
}

#[test]
fn optional_erase_status_reads_disabled_erased_or_skipped() {
    assert_eq!(optional_erase_status("metadata", true, false), (StatusTone::Info, "metadata erase disabled".to_string()));
    assert_eq!(optional_erase_status("metadata", true, true), (StatusTone::Info, "metadata erase disabled".to_string()));
    assert_eq!(optional_erase_status("cache", false, true), (StatusTone::Success, "cache erased".to_string()));
    assert_eq!(optional_erase_status("cache", false, false), (StatusTone::Warning, "cache erase skipped".to_string()));
}

#[test]
fn gsi_worker_outcome_prefers_cancel_then_worker_error_then_exit_status() {
    let summary = FlashSummaryDto { flash_count: 3, wipe_count: 1, skipped_count: 0, total_bytes: 4096 };
    assert_eq!(
        gsi_worker_outcome(true, Some("boom".to_string()), false, "exit status: 1", Some(summary)),
        Err("cancelled by user".to_string())
    );
    assert_eq!(
        gsi_worker_outcome(false, Some("boom".to_string()), false, "exit status: 1", Some(summary)),
        Err("boom".to_string())
    );
    assert_eq!(
        gsi_worker_outcome(false, None, false, "exit status: 1", Some(summary)),
        Err("GSI worker exited with status exit status: 1".to_string())
    );
    assert_eq!(gsi_worker_outcome(false, None, true, "exit status: 0", Some(summary)), Ok(summary));
    assert_eq!(
        gsi_worker_outcome(false, None, true, "exit status: 0", None),
        Err("GSI worker completed without summary".to_string())
    );
}
