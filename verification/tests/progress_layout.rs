use fastboot_flasher::layout::{
    action_row_placement, active_byte_template, active_total_template, completed_total_template,
    flash_row_prefix_and_bar, history_row_template, manual_action_summary, row_bar_width,
    spinner_row_template, total_row_prefix_and_bar, ActionRowPlacement, ProgressLayout, BAR_MAX_WIDTH,
    BAR_MIN_WIDTH, TOTAL_LABEL,
};
use fastboot_flasher::manual::manual_flash_actions;
use fastboot_flasher::cli::SlotArg;
use fastboot_flasher::progress::{format_byte_pair, skipped_flash_history_min_width};
use fastboot_flasher::layout::manual_item_message_width;

#[test]
fn active_total_row_should_not_reserve_elapsed_message_space() {
    let (prefix, bar_width) = total_row_prefix_and_bar(
        &ProgressLayout { terminal_width: 100 },
        TOTAL_LABEL,
        &format_byte_pair(0, 12_430_000_000),
        false,
    );

    assert_eq!(prefix, TOTAL_LABEL);
    assert!(bar_width >= BAR_MIN_WIDTH);
}

#[test]
fn active_total_template_should_render_eta_without_elapsed_timer() {
    let template = active_total_template(12);

    assert!(template.contains("eta {eta_mmss}"));
    assert!(!template.contains("elapsed_mmss"));
    assert!(!template.contains("{msg}"));
}

#[test]
fn completed_total_template_should_drop_eta_field() {
    let template = completed_total_template(12);

    assert!(!template.contains("eta"));
    assert!(!template.contains("elapsed_mmss"));
}

#[test]
fn action_rows_should_insert_before_total() {
    assert_eq!(action_row_placement(), ActionRowPlacement::BeforeTotal);
}

#[test]
fn row_bar_width_is_clamped_to_the_terminal() {
    let sample = "x".repeat(40);
    assert_eq!(row_bar_width(&ProgressLayout { terminal_width: 200 }, &sample), BAR_MAX_WIDTH);
    assert_eq!(row_bar_width(&ProgressLayout { terminal_width: 50 }, &sample), 12);
    assert_eq!(row_bar_width(&ProgressLayout { terminal_width: 20 }, &sample), 0);
}

#[test]
fn templates_carry_their_widths() {
    assert_eq!(
        active_total_template(12),
        "{prefix} {spinner:.green} [{bar:12.blue/black}] {byte_pair} eta {eta_mmss}"
    );
    assert_eq!(completed_total_template(7), "{prefix} {spinner:.green} [{bar:7.green/green}] {byte_pair}");
    assert_eq!(
        active_byte_template(10, 30),
        "{prefix} {spinner:.green} [{bar:10.cyan/blue}] {byte_pair} {msg:<30}"
    );
    assert_eq!(history_row_template(5), "{msg:<5}");
    assert_eq!(spinner_row_template(9), "{prefix} {spinner:.green} {msg:<9}");
}

#[test]
fn flash_row_is_measured_with_its_message() {
    let (prefix, bar) = flash_row_prefix_and_bar(&ProgressLayout { terminal_width: 60 }, "1/2", "1/2", 20, "ab");
    assert_eq!(prefix, "1/2");
    // "1/2 " + 5 + " [] " + "ab" + " " + 20 x's = 36 columns, 34 without the bar
    assert_eq!(bar, 26);
}

#[test]
fn manual_summary_counts_each_flash() {
    let actions = manual_flash_actions("boot", "boot.img", 100, Some(SlotArg::All)).unwrap();
    let summary = manual_action_summary(&actions);
    assert_eq!(summary.flash_count, 2);
    assert_eq!(summary.total_bytes, 200);
}

#[test]
fn manual_message_width_covers_the_skipped_history_line() {
    assert_eq!(skipped_flash_history_min_width(0, 1, "boot_a", 100), 33);
    let actions = manual_flash_actions("boot", "boot.img", 100, Some(SlotArg::A)).unwrap();
    assert_eq!(manual_item_message_width(&actions), 33);
    assert_eq!(manual_item_message_width(&[]), 0);
}
