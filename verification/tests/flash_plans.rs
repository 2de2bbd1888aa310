use fastboot_flasher::plan::{action_progress_bytes, plan_step, PlanStep};
use fastboot_flasher::progress::flash_history_message;
use fastboot_flasher::plan::{
    default_partition_selected, filter_actions, partitions_from_labels, plan_action_line,
    plan_action_summary, plan_completed_message, plan_item_message_width, resolve_image_path_for_action,
    selectable_partition_labels,
    plan_partitions, plan_requires_connected_device, plan_to_dto, total_bytes_for_actions,
    FlashPlanView, PlanAction,
};

fn flash_action(partition: &str, action: &str) -> PlanAction {
    PlanAction {
        action: action.to_string(),
        partition: partition.to_string(),
        size: 1024,
        size_human: "1 KiB".to_string(),
        safety_class: "boot_critical".to_string(),
        reason: "test".to_string(),
        image_path: Some(format!("/tmp/{partition}.img")),
        image_exists: None,
    }
}

fn flash_plan(actions: Vec<PlanAction>) -> FlashPlanView {
    let flash_count = actions.iter().filter(|a| a.action == "flash").count();
    let wipe_count = actions.iter().filter(|a| a.action == "wipe").count();
    FlashPlanView {
        mode: "dry-run".to_string(),
        storage_selection: "EMMC".to_string(),
        selected_layouts: vec!["DEFAULT".to_string()],
        slot_policy_effective: "none".to_string(),
        flash_count,
        wipe_count,
        skipped_count: 0,
        actions,
        warnings: Vec::new(),
        errors: Vec::new(),
    }
}

fn image_names(plan: &FlashPlanView) -> Vec<Option<String>> {
    plan.actions
        .iter()
        .map(|a| a.image_path.as_ref().map(|p| p.rsplit('/').next().unwrap_or("").to_string()))
        .collect()
}

#[test]
fn filter_actions_returns_all_actions_when_no_partitions_are_selected() {
    let plan = flash_plan(vec![flash_action("boot", "flash"), flash_action("userdata", "wipe")]);

    let filtered = filter_actions(&plan.actions, &[]);

    assert_eq!(filtered.len(), 2);
    assert_eq!(filtered[0].partition, "boot");
    assert_eq!(filtered[1].partition, "userdata");
}

#[test]
fn filter_actions_only_keeps_selected_partitions() {
    let plan = flash_plan(vec![
        flash_action("boot", "flash"),
        flash_action("vendor", "flash"),
        flash_action("userdata", "wipe"),
    ]);

    let filtered = filter_actions(&plan.actions, &["vendor".to_string()]);

    assert_eq!(filtered.len(), 1);
    assert_eq!(filtered[0].partition, "vendor");
}

#[test]
fn filter_actions_keeps_plan_order_for_several_selected_partitions() {
    let plan = flash_plan(vec![
        flash_action("boot", "flash"),
        flash_action("vendor", "flash"),
        flash_action("userdata", "wipe"),
    ]);

    let filtered = filter_actions(&plan.actions, &["userdata".to_string(), "boot".to_string()]);

    assert_eq!(filtered.len(), 2);
    assert_eq!(filtered[0].partition, "boot");
    assert_eq!(filtered[1].partition, "userdata");
}

#[test]
fn dry_run_plan_does_not_require_a_connected_device() {
    let plan = flash_plan(vec![flash_action("boot", "flash")]);

    assert!(!plan_requires_connected_device(&plan.mode));
}

#[test]
fn underscored_dry_run_plan_does_not_require_a_connected_device() {
    let mut plan = flash_plan(vec![flash_action("boot", "flash")]);
    plan.mode = "dry_run".to_string();

    assert!(!plan_requires_connected_device(&plan.mode));
}

#[test]
fn live_flash_plan_requires_a_connected_device() {
    let mut plan = flash_plan(vec![flash_action("boot", "flash")]);
    plan.mode = "clean_flash".to_string();

    assert!(plan_requires_connected_device(&plan.mode));
}

#[test]
fn plan_to_dto_exposes_resolved_image_metadata() {
    let plan = flash_plan(vec![flash_action("boot", "flash")]);
    let names = image_names(&plan);
    let dto = plan_to_dto(&plan, Some("mt6789".to_string()), &names);
    let partition = &dto.partitions[0];

    assert_eq!(partition.image_path.as_deref(), Some("/tmp/boot.img"));
    assert_eq!(partition.image_name.as_deref(), Some("boot.img"));
    assert_eq!(dto.chipset.as_deref(), Some("mt6789"));
}

#[test]
fn plan_to_dto_only_selects_flash_actions_with_existing_images_by_default() {
    let mut flash_with_existing = flash_action("boot", "flash");
    flash_with_existing.image_exists = Some(true);
    let mut flash_missing_image = flash_action("vendor", "flash");
    flash_missing_image.image_exists = Some(false);
    let wipe_action = flash_action("userdata", "wipe");

    let plan = flash_plan(vec![flash_with_existing, flash_missing_image, wipe_action]);
    let names = image_names(&plan);
    let dto = plan_to_dto(&plan, None, &names);

    assert!(dto.partitions[0].selected);
    assert!(!dto.partitions[1].selected);
    assert!(dto.partitions[2].selected);
}

#[test]
fn plan_to_dto_carries_counts_bytes_and_storage() {
    let mut wipe = flash_action("userdata", "wipe");
    wipe.size = 4096;
    let mut plan = flash_plan(vec![flash_action("boot", "flash"), wipe]);
    plan.warnings = vec!["careful".to_string()];
    let names = image_names(&plan);
    let dto = plan_to_dto(&plan, None, &names);

    assert_eq!(dto.mode, "dry-run");
    assert_eq!(dto.storage, "EMMC");
    assert_eq!(dto.slot_policy, "none");
    assert_eq!(dto.summary.flash_count, 1);
    assert_eq!(dto.summary.wipe_count, 1);
    assert_eq!(dto.summary.total_bytes, 5120);
    assert_eq!(dto.partitions.len(), 2);
    assert_eq!(dto.partitions[1].index, 1);
    assert_eq!(dto.warnings, vec!["careful".to_string()]);
    assert!(dto.errors.is_empty());
}

#[test]
fn unknown_safety_class_is_shown_as_other() {
    let mut action = flash_action("boot", "flash");
    action.safety_class = "unknown".to_string();
    let rows = plan_partitions(&[action], &[None]);

    assert_eq!(rows[0].safety_class, "other");
    assert_eq!(rows[0].image_name, None);
    assert_eq!(rows[0].source, "test");
}

#[test]
fn negative_sizes_count_as_zero_bytes() {
    let mut a = flash_action("boot", "flash");
    a.size = -5;
    let b = flash_action("vendor", "flash");
    let refs = vec![&a, &b];

    assert_eq!(total_bytes_for_actions(&refs), 1024);
}

#[test]
fn default_selection_needs_a_known_image_only_for_flashes() {
    let mut flash = flash_action("boot", "flash");
    assert!(!default_partition_selected(&flash));
    flash.image_exists = Some(true);
    assert!(default_partition_selected(&flash));
    let skip = flash_action("boot", "skip");
    assert!(default_partition_selected(&skip));
}

#[test]
fn plan_summary_counts_verbs_and_adds_flash_and_wipe_bytes() {
    let mut wipe = flash_action("userdata", "wipe");
    wipe.size = 2048;
    let mut skip = flash_action("cache", "skip");
    skip.size = 4096;
    let other = flash_action("misc", "erase");
    let summary = plan_action_summary(&[flash_action("boot", "flash"), wipe, skip, other]);

    assert_eq!(summary.flash_count, 1);
    assert_eq!(summary.wipe_count, 1);
    assert_eq!(summary.skipped_count, 1);
    assert_eq!(summary.total_bytes, 3072);
}

#[test]
fn plan_message_width_covers_every_row_text() {
    let actions = vec![flash_action("boot", "flash"), flash_action("userdata", "wipe")];
    let width = plan_item_message_width(&actions);

    assert!(width >= "skipped erase userdata".len());
    assert!(width >= "flash boot".len());
    assert!(plan_item_message_width(&[]) == 0);
}

#[test]
fn completed_dry_run_rows_keep_their_history_line() {
    let wipe = flash_action("userdata", "wipe");
    assert_eq!(plan_completed_message(0, 3, &wipe, 40), " 1/3 erase userdata");

    let other = flash_action("cache", "erase");
    assert_eq!(plan_completed_message(1, 3, &other, 40), "2/3 erase cache");

    let mut empty = flash_action("boot", "flash");
    empty.size = 0;
    assert_eq!(plan_completed_message(2, 3, &empty, 40), flash_history_message(2, 3, "boot", 1, 40));
    assert!(plan_completed_message(2, 3, &empty, 40).ends_with("1 B"));
}

#[test]
fn selection_offers_one_label_per_flash() {
    let mut boot = flash_action("boot_a", "flash");
    boot.size_human = "64.00 MiB".to_string();
    let plan = vec![boot, flash_action("userdata", "wipe"), flash_action("vendor_a", "flash")];
    let labels = selectable_partition_labels(&plan).unwrap();
    assert_eq!(
        labels,
        vec!["boot_a [boot_critical] 64.00 MiB".to_string(), "vendor_a [boot_critical] 1 KiB".to_string()]
    );
    assert_eq!(partitions_from_labels(&labels), Ok(vec!["boot_a".to_string(), "vendor_a".to_string()]));
}

#[test]
fn selection_needs_flashes_and_a_pick() {
    assert_eq!(
        selectable_partition_labels(&[flash_action("userdata", "wipe")]),
        Err("no selectable flash actions found".to_string())
    );
    assert_eq!(partitions_from_labels(&[]), Err("no partitions selected".to_string()));
    assert_eq!(
        partitions_from_labels(&["nospace".to_string()]),
        Err("no partitions selected".to_string())
    );
}

#[test]
fn plan_listing_lines_show_every_field() {
    assert_eq!(
        plan_action_line(0, &flash_action("boot", "flash")),
        "1. flash boot (1 KiB) [boot_critical] - test"
    );
}

#[test]
fn image_override_path_takes_precedence_for_flash_actions() {
    let action = flash_action("boot", "flash");
    let overrides = vec![("boot".to_string(), "/custom/boot_patched.img".to_string())];

    let resolved = resolve_image_path_for_action(&action, &overrides).unwrap();

    assert_eq!(resolved, "/custom/boot_patched.img");
}

#[test]
fn images_come_from_the_plan_without_an_override() {
    let action = flash_action("vendor", "flash");
    let overrides = vec![("boot".to_string(), "/custom/boot_patched.img".to_string())];
    assert_eq!(resolve_image_path_for_action(&action, &overrides), Ok("/tmp/vendor.img".to_string()));

    let mut bare = flash_action("vendor", "flash");
    bare.image_path = None;
    assert_eq!(
        resolve_image_path_for_action(&bare, &[]),
        Err("missing image path for vendor".to_string())
    );
}

#[test]
fn plan_step_flashes_erases_or_refuses() {
    assert_eq!(
        plan_step(&flash_action("boot_a", "flash")),
        Ok(PlanStep::Flash { image: "/tmp/boot_a.img".to_string() })
    );
    let mut missing = flash_action("vendor", "flash");
    missing.image_path = None;
    assert_eq!(plan_step(&missing), Err("missing image path for vendor".to_string()));
    assert_eq!(plan_step(&flash_action("userdata", "wipe")), Ok(PlanStep::Erase));
    assert_eq!(plan_step(&flash_action("misc", "format")), Err("unsupported plan action: format".to_string()));
    let mut negative = flash_action("cache", "wipe");
    negative.size = -5;
    assert_eq!(action_progress_bytes(&negative), 0);
    assert_eq!(action_progress_bytes(&flash_action("cache", "wipe")), 1024);
}
