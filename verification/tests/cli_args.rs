use fastboot_flasher::argv::ArgvError;
use fastboot_flasher::cli::{flash_modifier_without_flash, validate_args, Args, Command, FlashMode, SlotArg};

#[test]
fn bare_flash_defaults_to_dry_run_mode() {
    let args = Args::parse_from(&["fastboot-flasher", "--flash", "scatter.xml"]);

    assert_eq!(args.flash_mode(), FlashMode::DryRun);
}

#[test]
fn clean_install_flag_should_no_longer_be_accepted() {
    let result = Args::try_parse_from(&["fastboot-flasher", "--flash", "scatter.xml", "--clean-install"]);

    assert!(result.is_err());
}

#[test]
fn include_preloader_flag_should_remain_supported() {
    let args = Args::parse_from(&[
        "fastboot-flasher",
        "--flash",
        "scatter.xml",
        "--dry-run",
        "--include-preloader",
    ]);

    assert!(args.include_preloader);
}

#[test]
fn flash_modifiers_without_flash_should_report_clear_error() {
    let args = Args::parse_from(&["fastboot-flasher", "--dry-run"]);
    let error = flash_modifier_without_flash(&args).unwrap_err();

    assert!(error.contains("--flash <scatter>"));
    assert!(error.contains("--dry-run"));
    assert!(error.contains("fastboot-flasher disable-vbmeta"));
}

#[test]
fn firmware_upgrade_without_flash_should_be_rejected_by_clap() {
    let result = Args::try_parse_from(&["fastboot-flasher", "--firmware-upgrade"]);

    assert!(result.is_err());
}

#[test]
fn clean_flash_without_flash_should_be_rejected_by_clap() {
    let result = Args::try_parse_from(&["fastboot-flasher", "--clean-flash"]);

    assert!(result.is_err());
}

#[test]
fn selective_without_flash_should_be_rejected_by_clap() {
    let result = Args::try_parse_from(&["fastboot-flasher", "--selective"]);

    assert!(result.is_err());
}

#[test]
fn slot_without_flash_should_be_rejected_by_clap() {
    let result = Args::try_parse_from(&["fastboot-flasher", "--slot", "all"]);

    assert!(result.is_err());
}

#[test]
fn include_preloader_without_flash_should_be_rejected_by_clap() {
    let result = Args::try_parse_from(&["fastboot-flasher", "--include-preloader"]);

    assert!(result.is_err());
}

#[test]
fn disable_vbmeta_subcommand_should_parse() {
    let args = Args::parse_from(&["fastboot-flasher", "disable-vbmeta"]);

    assert!(matches!(args.command, Some(Command::DisableVbmeta)));
}

#[test]
fn gsi_subcommand_should_parse_image_path() {
    let args = Args::parse_from(&["fastboot-flasher", "gsi", "system.img"]);

    assert!(matches!(
        args.command,
        Some(Command::Gsi { ref image }) if image == "system.img"
    ));
}

#[test]
fn scatter_subcommand_should_parse_clean_flash() {
    let args = Args::parse_from(&["fastboot-flasher", "scatter", "scatter.xml", "--clean-flash"]);

    assert!(matches!(
        args.command,
        Some(Command::Scatter {
            ref scatter,
            clean_flash: true,
            ..
        }) if scatter == "scatter.xml"
    ));
}

#[test]
fn manual_flash_subcommand_should_parse_partition_and_image() {
    let args = Args::parse_from(&["fastboot-flasher", "flash", "boot", "boot.img"]);

    assert!(matches!(
        args.command,
        Some(Command::Flash {
            ref partition,
            ref image,
            ..
        })
            if partition == "boot" && image == "boot.img"
    ));
}

#[test]
fn manual_flash_subcommand_should_allow_nvram() {
    let args = Args::parse_from(&["fastboot-flasher", "flash", "nvram", "nvram.bin"]);

    assert!(matches!(
        args.command,
        Some(Command::Flash {
            ref partition,
            ref image,
            ..
        })
            if partition == "nvram" && image == "nvram.bin"
    ));
}

#[test]
fn manual_flash_subcommand_should_parse_slot_b() {
    let args = Args::parse_from(&["fastboot-flasher", "flash", "boot", "boot.img", "--slot", "b"]);

    assert!(matches!(
        args.command,
        Some(Command::Flash {
            slot: Some(SlotArg::B),
            ..
        })
    ));
}

#[test]
fn reboot_subcommand_should_parse() {
    let args = Args::parse_from(&["fastboot-flasher", "reboot"]);

    assert!(matches!(args.command, Some(Command::Reboot)));
}

#[test]
fn getvar_subcommand_should_parse() {
    let args = Args::parse_from(&["fastboot-flasher", "getvar", "current-slot"]);

    assert!(matches!(
        args.command,
        Some(Command::Getvar { ref var }) if var == "current-slot"
    ));
}

#[test]
fn unlock_bootloader_subcommand_should_parse() {
    let args = Args::parse_from(&["fastboot-flasher", "unlock-bootloader"]);

    assert!(matches!(args.command, Some(Command::UnlockBootloader)));
}

#[test]
fn lock_bootloader_subcommand_should_parse() {
    let args = Args::parse_from(&["fastboot-flasher", "lock-bootloader"]);

    assert!(matches!(args.command, Some(Command::LockBootloader)));
}

#[test]
fn wipe_data_subcommand_should_parse_defaults() {
    let args = Args::parse_from(&["fastboot-flasher", "wipe-data"]);

    assert!(matches!(
        args.command,
        Some(Command::WipeData {
            no_metadata: false,
            no_cache: false,
            erase_fallback: false,
        })
    ));
}

#[test]
fn wipe_data_subcommand_should_parse_optional_flags() {
    let args = Args::parse_from(&[
        "fastboot-flasher",
        "wipe-data",
        "--no-metadata",
        "--no-cache",
        "--erase-fallback",
    ]);

    assert!(matches!(
        args.command,
        Some(Command::WipeData {
            no_metadata: true,
            no_cache: true,
            erase_fallback: true,
        })
    ));
}

#[test]
fn format_userdata_subcommand_should_parse() {
    let args = Args::parse_from(&["fastboot-flasher", "format", "userdata"]);

    assert!(matches!(
        args.command,
        Some(Command::Format {
            partition: ref target,
            erase_fallback: false,
        }) if target == "userdata"
    ));
}

#[test]
fn format_userdata_subcommand_should_allow_erase_fallback() {
    let args = Args::parse_from(&["fastboot-flasher", "format", "userdata", "--erase-fallback"]);

    assert!(matches!(
        args.command,
        Some(Command::Format {
            partition: ref target,
            erase_fallback: true,
        }) if target == "userdata"
    ));
}

#[test]
fn global_dry_run_and_yes_should_work_after_subcommands() {
    let args = Args::parse_from(&["fastboot-flasher", "flash", "boot", "boot.img", "--dry-run", "--yes"]);

    assert!(args.dry_run);
    assert!(args.yes);
}

#[test]
fn mode_flags_are_mutually_exclusive() {
    let result = Args::try_parse_from(&["fastboot-flasher", "--flash", "scatter.xml", "--dry-run", "--clean-flash"]);

    assert!(result.is_err());
}

#[test]
fn dry_run_speed_mib_flag_should_be_rejected() {
    let result = Args::try_parse_from(&[
        "fastboot-flasher",
        "--flash",
        "scatter.xml",
        "--dry-run",
        "--dry-run-speed-mib",
        "1",
    ]);

    assert!(result.is_err());
}

#[test]
fn reboot_subcommand_should_conflict_with_legacy_reboot_flag() {
    let args = Args::parse_from(&["fastboot-flasher", "--reboot", "reboot"]);

    assert!(validate_args(&args).is_err());
}

#[test]
fn getvar_subcommand_should_conflict_with_legacy_getvar_flag() {
    let args = Args::parse_from(&["fastboot-flasher", "--getvar", "product", "getvar", "current-slot"]);

    assert!(validate_args(&args).is_err());
}

#[test]
fn scatter_subcommand_should_conflict_with_legacy_flash_flag() {
    let args = Args::parse_from(&["fastboot-flasher", "--flash", "legacy.xml", "scatter", "next.xml"]);

    assert!(validate_args(&args).is_err());
}

#[test]
fn argv_errors_name_their_cause() {
    assert_eq!(
        Args::try_parse_from(&["fastboot-flasher", "--clean-install"]).unwrap_err(),
        ArgvError::UnknownArgument
    );
    assert_eq!(
        Args::try_parse_from(&["fastboot-flasher", "--flash"]).unwrap_err(),
        ArgvError::MissingValue
    );
    assert_eq!(
        Args::try_parse_from(&["fastboot-flasher", "--flash", "x.xml", "--slot", "c"]).unwrap_err(),
        ArgvError::InvalidValue
    );
    assert_eq!(
        Args::try_parse_from(&["fastboot-flasher", "--dry-run=yes"]).unwrap_err(),
        ArgvError::UnexpectedValue
    );
    assert_eq!(
        Args::try_parse_from(&["fastboot-flasher", "--yes", "--yes"]).unwrap_err(),
        ArgvError::RepeatedArgument
    );
    assert_eq!(
        Args::try_parse_from(&["fastboot-flasher", "flash", "boot"]).unwrap_err(),
        ArgvError::MissingPositional
    );
    assert_eq!(
        Args::try_parse_from(&["fastboot-flasher", "-h"]).unwrap_err(),
        ArgvError::HelpRequested
    );
    assert_eq!(
        Args::try_parse_from(&["fastboot-flasher", "help"]).unwrap_err(),
        ArgvError::HelpRequested
    );
    assert_eq!(
        Args::try_parse_from(&["fastboot-flasher", "--slot", "a"]).unwrap_err(),
        ArgvError::MissingFlash
    );
    assert_eq!(
        Args::try_parse_from(&["fastboot-flasher", "--flash", "x", "--selective", "--dry-run"]).unwrap_err(),
        ArgvError::ConflictingModes
    );
}

#[test]
fn argv_accepts_inline_values_and_double_dash() {
    let args = Args::parse_from(&["fastboot-flasher", "--flash=pkg/scatter.xml", "--slot=all"]);
    assert_eq!(args.flash.as_deref(), Some("pkg/scatter.xml"));
    assert_eq!(args.slot, Some(SlotArg::All));

    let args = Args::parse_from(&["fastboot-flasher", "getvar", "--", "-odd-name"]);
    assert!(matches!(args.command, Some(Command::Getvar { ref var }) if var == "-odd-name"));

    let args = Args::parse_from(&["fastboot-flasher"]);
    assert!(args.command.is_none());
    assert!(args.flash.is_none());
}

#[test]
fn argv_rejects_top_level_options_after_a_subcommand() {
    assert_eq!(
        Args::try_parse_from(&["fastboot-flasher", "reboot", "--flash", "x.xml"]).unwrap_err(),
        ArgvError::UnknownArgument
    );
    assert_eq!(
        Args::try_parse_from(&["fastboot-flasher", "reboot", "extra"]).unwrap_err(),
        ArgvError::UnknownArgument
    );
    let args = Args::parse_from(&["fastboot-flasher", "--yes", "scatter", "s.xml", "--slot", "active", "--dry-run"]);
    assert!(args.yes && args.dry_run);
    assert!(matches!(args.command, Some(Command::Scatter { slot: Some(SlotArg::Active), .. })));
}

#[test]
fn argv_error_messages_are_fixed_texts() {
    assert_eq!(ArgvError::MissingFlash.message(), "the option requires --flash <scatter>");
    assert_eq!(
        ArgvError::ConflictingModes.message(),
        "--dry-run, --firmware-upgrade, --clean-flash, and --selective are mutually exclusive"
    );
}

#[test]
fn empty_paths_are_refused() {
    assert_eq!(
        Args::try_parse_from(&["fastboot-flasher", "--flash", ""]).unwrap_err(),
        ArgvError::MissingValue
    );
    assert_eq!(
        Args::try_parse_from(&["fastboot-flasher", "--flash="]).unwrap_err(),
        ArgvError::MissingValue
    );
    assert_eq!(Args::try_parse_from(&["fastboot-flasher", "gsi", ""]).unwrap_err(), ArgvError::MissingValue);
    assert_eq!(
        Args::try_parse_from(&["fastboot-flasher", "flash", "boot", ""]).unwrap_err(),
        ArgvError::MissingValue
    );
    assert!(Args::try_parse_from(&["fastboot-flasher", "getvar", ""]).is_ok());
}
