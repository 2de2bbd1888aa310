use fastboot_flasher::progress::completion_rows;
use fastboot_flasher::manual::{manual_plan_line, manual_plan_rows, ManualFlashAction, ManualTarget};
use fastboot_flasher::cli::{
    active_slot_value, collect_actions, flash_mode_from_flags, flash_modifier_without_flash,
    validate_args, Action, Args, Command, FlashMode, SlotArg,
};
use fastboot_flasher::device::{mock_device_info, resolve_max_download_size_from_vars};
use fastboot_flasher::progress::{
    action_summary, active_action_label, centered_prefix, dry_run_steps, erase_history_message,
    fit_width, fixed_bar_width, flash_history_message, format_byte_pair, format_mm_ss,
    max_visible_width, progress_header, selective_option_label, should_confirm_before_simulation,
    skipped_erase_history_message, skipped_flash_history_message, visible_width, ActionSummary,
};
use fastboot_flasher::vars::FastbootVars;

fn bare_args() -> Args {
    Args {
        command: None,
        force_fastboot: false,
        flash: None,
        dry_run: false,
        firmware_upgrade: false,
        clean_flash: false,
        selective: false,
        slot: None,
        include_preloader: false,
        yes: false,
        set_active: None,
        reboot: false,
        reboot_bootloader: false,
        getvar: None,
        getvar_all: false,
    }
}

#[test]
fn flash_mode_follows_the_mode_flags() {
    let mut args = bare_args();
    args.flash = Some("scatter.xml".to_string());
    assert_eq!(args.flash_mode(), FlashMode::DryRun);
    args.clean_flash = true;
    assert_eq!(args.flash_mode(), FlashMode::CleanFlash);
    args.firmware_upgrade = true;
    assert_eq!(args.flash_mode(), FlashMode::FirmwareUpgrade);
}

#[test]
fn modifiers_without_flash_name_every_flag() {
    let mut args = bare_args();
    args.dry_run = true;
    args.slot = Some(SlotArg::All);
    let error = flash_modifier_without_flash(&args).unwrap_err();
    assert!(error.starts_with("--dry-run --slot requires --flash <scatter>"));
    assert!(error.contains("fastboot-flasher disable-vbmeta"));
    args.flash = Some("x.xml".to_string());
    assert!(flash_modifier_without_flash(&args).is_ok());
}

#[test]
fn validate_args_rejects_legacy_flags_with_subcommands() {
    let mut args = bare_args();
    args.command = Some(Command::Reboot);
    assert!(validate_args(&args).is_ok());
    args.reboot = true;
    assert_eq!(validate_args(&args).unwrap_err(), "cannot combine a subcommand with --reboot");
    let mut args = bare_args();
    args.command = Some(Command::Format { partition: "cache".to_string(), erase_fallback: false });
    assert_eq!(validate_args(&args).unwrap_err(), "format currently only supports `userdata`");
    let mut args = bare_args();
    args.dry_run = true;
    args.command = Some(Command::Scatter {
        scatter: "s.xml".to_string(),
        firmware_upgrade: true,
        clean_flash: false,
        selective: false,
        slot: None,
        include_preloader: false,
    });
    assert!(validate_args(&args).unwrap_err().contains("mutually exclusive"));
}

#[test]
fn flash_mode_from_flags_allows_at_most_one() {
    assert_eq!(flash_mode_from_flags(false, false, true, false), Ok(FlashMode::CleanFlash));
    assert!(flash_mode_from_flags(true, false, true, false).is_err());
}

#[test]
fn collect_actions_orders_flag_actions() {
    let mut args = bare_args();
    args.reboot = true;
    args.getvar = Some("product".to_string());
    args.force_fastboot = true;
    args.flash = Some("s.xml".to_string());
    args.selective = true;
    let actions = collect_actions(&args).unwrap();
    assert_eq!(
        actions,
        vec![
            Action::ForceFastboot,
            Action::GetVar("product".to_string()),
            Action::Scatter {
                scatter: "s.xml".to_string(),
                mode: FlashMode::Selective,
                slot: None,
                include_preloader: false
            },
            Action::Reboot,
        ]
    );
    assert!(collect_actions(&bare_args()).unwrap().is_empty());
    assert_eq!(active_slot_value(SlotArg::B).unwrap(), "b");
    assert!(active_slot_value(SlotArg::All).is_err());
}

#[test]
fn dry_run_steps_should_use_byte_totals() {
    let steps = dry_run_steps(9 * 1024 * 1024 * 1024, 1024);

    assert_eq!(steps.iter().map(|step| step.bytes).sum::<u64>(), 9 * 1024 * 1024 * 1024);
    assert!(steps.len() > 10);
}

#[test]
fn dry_run_steps_should_keep_tiny_partitions_visible() {
    let steps = dry_run_steps(1024 * 1024, 1024);

    assert!(steps.len() >= 12);
}

#[test]
fn dry_run_steps_of_nothing_is_one_byte() {
    let steps = dry_run_steps(0, 1024);
    assert_eq!(steps.len(), 1);
    assert_eq!(steps[0].bytes, 1);
}

#[test]
fn fixed_bar_width_should_be_clamped_from_terminal_width() {
    assert_eq!(fixed_bar_width(80), 13);
    assert_eq!(fixed_bar_width(120), 15);
    assert_eq!(fixed_bar_width(220), 15);
    assert_eq!(fixed_bar_width(70), 10);
}

#[test]
fn fit_width_should_shrink_to_available_space() {
    assert_eq!(fit_width(8, 10, 28), 8);
    assert_eq!(fit_width(12, 10, 28), 12);
    assert_eq!(fit_width(40, 10, 28), 28);
}

#[test]
fn centered_prefix_should_pad_labels_by_visible_width() {
    let prefix = centered_prefix("1/20", 20, 40);

    assert_eq!(visible_width(&prefix), 14);
    assert_eq!(prefix, "          1/20");
}

#[test]
fn max_visible_width_should_pick_the_longest_progress_message() {
    let width = max_visible_width(&[
        "flash vbmeta_a",
        "| flash vbmeta_system_a",
        "skipped flash vendor_boot_a",
    ]);

    assert_eq!(width, visible_width("skipped flash vendor_boot_a"));
}

#[test]
fn format_mm_ss_should_use_minutes_and_seconds_only() {
    assert_eq!(format_mm_ss(1), "00:01");
    assert_eq!(format_mm_ss(65), "01:05");
    assert_eq!(format_mm_ss(3660), "61:00");
}

#[test]
fn dry_run_confirmation_should_be_skipped_only_by_yes_flag() {
    assert!(should_confirm_before_simulation(false));
    assert!(!should_confirm_before_simulation(true));
}

#[test]
fn action_summary_should_count_flash_wipe_and_bytes() {
    let summary = action_summary(&[("flash", 1024), ("wipe", 2048), ("skip", 4096)]);

    assert_eq!(summary.flash_count, 1);
    assert_eq!(summary.wipe_count, 1);
    assert_eq!(summary.skipped_count, 1);
    assert_eq!(summary.action_count(), 3);
    assert_eq!(summary.total_bytes, 3 * 1024);
}

#[test]
fn action_summary_should_preserve_large_u64_sizes() {
    let summary = action_summary(&[("flash", u64::MAX - 1), ("wipe", 1), ("skip", 4096)]);

    assert_eq!(summary.flash_count, 1);
    assert_eq!(summary.wipe_count, 1);
    assert_eq!(summary.total_bytes, u64::MAX);
}

#[test]
fn selective_option_label_should_not_leak_dry_run_reason() {
    let label = selective_option_label("boot_a", "boot_critical", "64.00 MiB");

    assert_eq!(label, "boot_a [boot_critical] 64.00 MiB");
    assert!(!label.contains("dry-run"));
}

#[test]
fn progress_header_should_promote_mode_and_summary() {
    let header = progress_header(
        ActionSummary { flash_count: 20, wipe_count: 0, skipped_count: 0, total_bytes: 12_430_000_000 },
        true,
    );

    assert_eq!(header, "20 actions 11.58 GiB");
}

#[test]
fn active_action_label_should_call_out_current_step() {
    assert_eq!(active_action_label(12, 20), "13/20");
}

#[test]
fn flash_history_message_should_render_success_compactly() {
    let message = flash_history_message(0, 20, "boot_a", 64 * 1024 * 1024, 25);

    assert_eq!(message, " 1/20 boot_a -- 64.00 MiB");
}

#[test]
fn skipped_flash_history_message_should_render_explicitly() {
    let message = skipped_flash_history_message(0, 20, "boot_a", 64 * 1024 * 1024, 38);

    assert_eq!(message, " 1/20 skipped flash boot_a - 64.00 MiB");
}

#[test]
fn erase_history_message_should_render_without_size() {
    let message = erase_history_message(0, 20, "metadata");

    assert_eq!(message, " 1/20 erase metadata");
}

#[test]
fn skipped_erase_history_message_should_render_without_size() {
    let message = skipped_erase_history_message(0, 20, "metadata");

    assert_eq!(message, " 1/20 skipped erase metadata");
}

#[test]
fn flash_history_message_should_render_actual_large_sizes() {
    let rendered = flash_history_message(0, 20, "super", 9 * 1024 * 1024 * 1024, 25);

    assert_eq!(rendered, " 1/20 super ---- 9.00 GiB");
}

#[test]
fn flash_history_message_should_keep_at_least_one_separator_dash() {
    let rendered = flash_history_message(19, 20, "userdata", 3 * 1024 * 1024 * 1024, 25);

    assert_eq!(rendered, "20/20 userdata - 3.00 GiB");
}

#[test]
fn compact_history_message_should_be_single_line_summary() {
    let message = fastboot_flasher::progress::compact_history_message(
        0,
        20,
        "flash",
        "vbmeta_a",
        8 * 1024 * 1024,
        27,
    );

    assert_eq!(message, " 1/20 vbmeta_a --- 8.00 MiB");
    assert!(!message.contains('['));
}

#[test]
fn format_byte_pair_should_use_fixed_width() {
    let tiny = format_byte_pair(1024 * 1024, 1024 * 1024);
    let large = format_byte_pair(9 * 1024 * 1024 * 1024, 9 * 1024 * 1024 * 1024);

    assert_eq!(tiny.len(), large.len());
    assert_eq!(tiny.trim(), "1.00 MiB/1.00 MiB");
    assert_eq!(large.trim(), "9.00 GiB/9.00 GiB");
}

#[test]
fn mock_device_info_should_be_marked_as_mocked() {
    let info = mock_device_info();

    assert!(info.contains("mocked"));
    assert!(info.contains("product"));
    assert!(info.contains("tb8781p1_64"));
}

#[test]
fn compact_device_info_should_include_useful_fields_only() {
    let mut vars = FastbootVars::new();
    for (k, v) in [
        ("serialno", "123"),
        ("product", "tb8781p1_64"),
        ("current-slot", "a"),
        ("unlocked", "yes"),
        ("secure", "no"),
        ("is-userspace", "no"),
        ("slot-count", "2"),
        ("max-download-size", "0x4000000"),
        ("version-bootloader", "tb8781p1_64_20250305"),
        ("partition-size:boot_a", "4000000"),
    ] {
        vars.insert(k.to_string(), v.to_string());
    }
    let info = fastboot_flasher::device::compact_device_info(&vars);

    assert!(info.contains("FASTBOOT DEVICE"));
    assert!(info.contains("Field"));
    assert!(info.contains("product"));
    assert!(info.contains("tb8781p1_64"));
    assert!(info.contains("current slot"));
    assert!(!info.contains("partition-size"));
}

fn max_download_vars(value: Option<&str>) -> FastbootVars {
    let mut vars = FastbootVars::new();
    if let Some(v) = value {
        vars.insert("max-download-size".to_string(), v.to_string());
    }
    vars
}

#[test]
fn device_resolve_max_download_size_from_vars_accepts_hex_values() {
    let vars = max_download_vars(Some("0x4000000"));

    let max_download = resolve_max_download_size_from_vars(&vars).unwrap();

    assert_eq!(max_download, 0x4000000);
}

#[test]
fn device_resolve_max_download_size_from_vars_rejects_zero() {
    let vars = max_download_vars(Some("0"));

    let error = resolve_max_download_size_from_vars(&vars).unwrap_err();

    assert!(error.message().contains("max-download-size=0"));
}

#[test]
fn device_resolve_max_download_size_from_vars_requires_variable() {
    let error = resolve_max_download_size_from_vars(&max_download_vars(None)).unwrap_err();

    assert!(error.message().contains("max-download-size"));
}

#[test]
fn lib_resolve_max_download_size_from_vars_accepts_hex_values() {
    let vars = max_download_vars(Some("0x4000000"));

    assert_eq!(resolve_max_download_size_from_vars(&vars).unwrap(), 0x4000000);
}

#[test]
fn lib_resolve_max_download_size_from_vars_rejects_zero() {
    let vars = max_download_vars(Some("0"));

    assert!(resolve_max_download_size_from_vars(&vars)
        .unwrap_err()
        .message()
        .contains("max-download-size=0"));
}

#[test]
fn lib_resolve_max_download_size_from_vars_requires_variable() {
    assert!(resolve_max_download_size_from_vars(&max_download_vars(None))
        .unwrap_err()
        .message()
        .contains("max-download-size"));
}

#[test]
fn max_download_size_rejects_non_numbers() {
    let error = resolve_max_download_size_from_vars(&max_download_vars(Some("lots"))).unwrap_err();
    assert_eq!(error.message(), "parse max-download-size `lots`");
}

#[test]
fn history_with_size_fills_the_target_width_with_dashes() {
    assert_eq!(fastboot_flasher::progress::history_with_size("1/2 boot", "4 KiB", 20), "1/2 boot ----- 4 KiB");
    assert_eq!(fastboot_flasher::progress::history_with_size("1/2 boot", "4 KiB", 0), "1/2 boot - 4 KiB");
}

fn pair(a: &str, b: &str) -> (String, String) {
    (a.to_string(), b.to_string())
}

#[test]
fn completion_table_counts_actions_and_bytes() {
    let summary = ActionSummary { flash_count: 2, wipe_count: 1, skipped_count: 1, total_bytes: 3 * 1024 * 1024 };
    assert_eq!(
        completion_rows(summary),
        vec![
            pair("Actions", "4"),
            pair("Flash", "2"),
            pair("Wipe", "1"),
            pair("Skipped", "1"),
            pair("Bytes", "3.00 MiB"),
        ]
    );
}

#[test]
fn manual_plan_lists_each_flash_with_its_size() {
    let action = ManualFlashAction {
        partition: "boot_a".to_string(),
        image: "boot.img".to_string(),
        size: 2048,
        reason: "manual".to_string(),
        target: ManualTarget::Exact("boot_a".to_string()),
    };
    assert_eq!(manual_plan_line(0, &action), "1. flash boot_a (2.00 KiB) - boot.img");
    assert_eq!(
        manual_plan_rows(&[action.clone(), action]),
        vec![
            pair("Mode", "manual"),
            pair("Flash", "2"),
            pair("Wipe", "0"),
            pair("Skipped", "0"),
            pair("Bytes", "4.00 KiB"),
        ]
    );
}

#[test]
fn flash_history_lines_fill_their_width_between_label_and_size() {
    let line = flash_history_message(0, 20, "vbmeta_a", 8 * 1024 * 1024, 40);
    assert_eq!(visible_width(&line), 40);
    assert!(line.starts_with(" 1/20 vbmeta_a -"));
    assert!(line.ends_with("- 8.00 MiB"));
    let narrow = flash_history_message(0, 20, "vbmeta_a", 8 * 1024 * 1024, 5);
    assert_eq!(narrow, " 1/20 vbmeta_a - 8.00 MiB");
}
