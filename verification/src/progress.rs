//! Progress accounting and the text of progress rows: dry-run byte steps,
//! action summaries, history lines, byte and time labels, and the layout of
//! the progress bars.

use vstd::prelude::*;
use crate::text::{
    concat, dec_str, format_u64, owned, pad_left, pad_left_seq, pad_right, pad_right_seq,
    repeat_char, repeat_seq, str_eq,
};

verus! {

/// What `indicatif::HumanBytes` displays for a byte count: the count scaled
/// by powers of 1024 with two decimals and a binary unit, or whole bytes.
pub uninterp spec fn human_bytes_text(bytes: u64) -> Seq<char>;

/// A byte count for people, such as `64.00 MiB`.
///
/// Displays `indicatif::HumanBytes`, which writes `{n:.0} B` below 1024
/// bytes and otherwise `{n:.2} {prefix}B` with the binary prefix that fits;
/// the text is a function of the count alone.
#[verifier::external_body]
pub(crate) fn human_bytes(bytes: u64) -> (s: String)
    ensures
        s@ == human_bytes_text(bytes),
{
    indicatif::HumanBytes(bytes).to_string()
}

/// The number of columns a text takes: its number of characters.
pub open spec fn width_of(s: Seq<char>) -> nat {
    s.len()
}

/// The number of columns `s` takes.
pub fn visible_width(s: &str) -> (w: usize)
    ensures
        w == width_of(s@),
{
    s.unicode_len()
}

/// The widest of the texts, 0 for none.
pub open spec fn max_width(items: Seq<&str>) -> nat
    decreases items.len(),
{
    if items.len() == 0 {
        0
    } else {
        let rest = max_width(items.drop_last());
        let w = width_of(items.last()@);
        if w > rest {
            w
        } else {
            rest
        }
    }
}

/// The width of the widest of the texts.
pub fn max_visible_width(items: &[&str]) -> (w: usize)
    ensures
        w == max_width(items@),
{
    let mut best: usize = 0;
    let mut i: usize = 0;
    while i < items.len()
        invariant
            0 <= i <= items@.len(),
            best == max_width(items@.take(i as int)),
        decreases items@.len() - i,
    {
        let w = visible_width(items[i]);
        assert(items@.take(i + 1).drop_last() =~= items@.take(i as int));
        if w > best {
            best = w;
        }
        i = i + 1;
    }
    assert(items@.take(i as int) =~= items@);
    best
}

/// One increment of a dry-run transfer simulation.
#[derive(Clone, Copy, Debug, PartialEq, Eq, Structural)]
pub struct DryRunStep {
    /// Bytes in this increment.
    pub bytes: u64,
}

/// Sum of the bytes of the steps.
pub open spec fn steps_total(s: Seq<DryRunStep>) -> int
    decreases s.len(),
{
    if s.len() == 0 {
        0
    } else {
        steps_total(s.drop_last()) + s.last().bytes
    }
}

/// The size of each dry-run increment: a tenth of a second at
/// `speed_mib` MiB/s, but small enough that a nonempty transfer shows at
/// least twelve increments, and at least one byte.
pub open spec fn dry_run_step_size(total_bytes: u64, speed_mib: u64) -> int {
    let bps = if speed_mib * 1048576 > u64::MAX {
        u64::MAX as int
    } else if speed_mib * 1048576 < 1 {
        1
    } else {
        speed_mib * 1048576
    };
    let step = if bps / 10 < 1 {
        1
    } else {
        bps / 10
    };
    if total_bytes > 0 {
        let cap: int = if total_bytes / 12 < 1 {
            1
        } else {
            (total_bytes / 12) as int
        };
        if step < cap {
            step
        } else {
            cap
        }
    } else {
        1
    }
}

/// The increments of a dry-run transfer of `total_bytes` (at least one
/// byte) at `speed_mib` MiB/s: equal steps, the last one what remains.
pub fn dry_run_steps(total_bytes: u64, speed_mib: u64) -> (out: Vec<DryRunStep>)
    ensures
        steps_total(out@) == if total_bytes > 0 {
            total_bytes as int
        } else {
            1
        },
        out@.len() > 0,
        forall|i: int|
            0 <= i < out@.len() ==> 1 <= (#[trigger] out@[i]).bytes <= dry_run_step_size(
                total_bytes,
                speed_mib,
            ),
        forall|i: int|
            0 <= i < out@.len() - 1 ==> (#[trigger] out@[i]).bytes == dry_run_step_size(
                total_bytes,
                speed_mib,
            ),
{
    let bytes_per_second = match speed_mib.checked_mul(1024 * 1024) {
        Some(v) => v,
        None => u64::MAX,
    };
    let bytes_per_second = if bytes_per_second < 1 {
        1
    } else {
        bytes_per_second
    };
    let target_frames: u64 = 10;
    let step = bytes_per_second / target_frames;
    let step = if step < 1 {
        1
    } else {
        step
    };
    let visible_min_steps: u64 = 12;
    let step = if total_bytes > 0 {
        let cap = total_bytes / visible_min_steps;
        let cap = if cap < 1 {
            1
        } else {
            cap
        };
        if step < cap {
            step
        } else {
            cap
        }
    } else {
        1
    };
    let ghost target: int = if total_bytes > 0 {
        total_bytes as int
    } else {
        1
    };
    let mut remaining: u64 = if total_bytes < 1 {
        1
    } else {
        total_bytes
    };
    let mut out: Vec<DryRunStep> = Vec::new();
    while remaining > 0
        invariant
            step == dry_run_step_size(total_bytes, speed_mib),
            step >= 1,
            steps_total(out@) + remaining == target,
            out@.len() > 0 || remaining == target,
            target >= 1,
            forall|i: int| 0 <= i < out@.len() ==> 1 <= (#[trigger] out@[i]).bytes <= step,
            forall|i: int| 0 <= i < out@.len() ==> (#[trigger] out@[i]).bytes == step || (i
                == out@.len() - 1 && remaining == 0),
        decreases remaining,
    {
        let bytes = if remaining < step {
            remaining
        } else {
            step
        };
        let ghost before = out@;
        out.push(DryRunStep { bytes });
        assert(out@.drop_last() =~= before);
        remaining = remaining - bytes;
    }
    out
}

/// Whether a dry run asks for confirmation first: unless `--yes` was given.
pub fn should_confirm_before_simulation(yes: bool) -> (b: bool)
    ensures
        b == !yes,
{
    !yes
}

/// A selection label: `<partition> [<safety class>] <size>`.
pub fn selective_option_label(partition: &str, safety_class: &str, size_human: &str) -> (s: String)
    ensures
        s@ == partition@ + " ["@ + safety_class@ + "] "@ + size_human@,
{
    let a = concat(partition, " [");
    let b = concat(a.as_str(), safety_class);
    let c = concat(b.as_str(), "] ");
    concat(c.as_str(), size_human)
}

/// `<index + 1>/<total>`, the first number right-aligned to the width of
/// the second and at least two columns.
pub open spec fn action_label_text(index: nat, total: nat) -> Seq<char> {
    let w = if dec_str(total).len() < 2 {
        2
    } else {
        dec_str(total).len()
    };
    pad_left_seq(dec_str(index + 1), w) + seq!['/'] + dec_str(total)
}

/// The label of the action at `index` of `total_count`.
pub fn action_label(index: usize, total_count: usize) -> (s: String)
    requires
        index < usize::MAX,
    ensures
        s@ == action_label_text(index as nat, total_count as nat),
{
    let total = format_u64(total_count as u64);
    let tw = total.unicode_len();
    let w = if tw < 2 {
        2
    } else {
        tw
    };
    let n = format_u64((index + 1) as u64);
    let left = pad_left(n.as_str(), w);
    let with_slash = concat(left.as_str(), "/");
    proof {
        reveal_strlit("/");
    }
    concat(with_slash.as_str(), total.as_str())
}

/// The label of the step in progress.
pub fn active_action_label(index: usize, total_count: usize) -> (s: String)
    requires
        index < usize::MAX,
    ensures
        s@ == action_label_text(index as nat, total_count as nat),
{
    action_label(index, total_count)
}

/// The dashes between a history line's left text and its size: as many as
/// fill `target_width`, at least one.
pub open spec fn fill_width(left: Seq<char>, right: Seq<char>, target: nat) -> nat {
    let used = width_of(left) + width_of(right) + 2;
    if target > used + 1 {
        (target - used) as nat
    } else {
        1
    }
}

/// `<left> <dashes> <right>`, the dashes filling `target` columns.
pub open spec fn history_with_size_text(left: Seq<char>, right: Seq<char>, target: nat) -> Seq<char> {
    left + seq![' '] + repeat_seq('-', fill_width(left, right, target)) + seq![' '] + right
}

/// `<left> <dashes> <right>` for a history line of `target_width` columns.
pub fn history_with_size(left: &str, right: &str, target_width: usize) -> (s: String)
    ensures
        s@ == history_with_size_text(left@, right@, target_width as nat),
{
    let used = visible_width(left).saturating_add(visible_width(right)).saturating_add(2);
    let fill = target_width.saturating_sub(used);
    let fill = if fill < 1 {
        1
    } else {
        fill
    };
    let dashes = repeat_char('-', fill);
    let a = concat(left, " ");
    let b = concat(a.as_str(), dashes.as_str());
    let c = concat(b.as_str(), " ");
    proof {
        reveal_strlit(" ");
    }
    concat(c.as_str(), right)
}

/// The text of a history line for an action on a partition: flashes show
/// their size after dashes that fill `target_width`; other actions show it
/// after a space, or not at all for zero bytes.
pub open spec fn history_text(
    index: nat,
    total: nat,
    action: Seq<char>,
    partition: Seq<char>,
    bytes: u64,
    target: nat,
) -> Seq<char> {
    let label = action_label_text(index, total);
    if action == "flash"@ {
        history_with_size_text(label + seq![' '] + partition, human_bytes_text(bytes), target)
    } else if action == "skipped flash"@ {
        history_with_size_text(
            label + " skipped flash "@ + partition,
            human_bytes_text(bytes),
            target,
        )
    } else if bytes == 0 {
        label + seq![' '] + action + seq![' '] + partition
    } else {
        label + seq![' '] + action + seq![' '] + partition + seq![' '] + human_bytes_text(bytes)
    }
}

/// A history line with its size is exactly as wide as asked, or as its
/// least width where more is asked for than fits: it begins with the left
/// text, a space and a dash, and ends with a dash, a space and the size.
pub proof fn lemma_history_line_shape(left: Seq<char>, right: Seq<char>, target: nat)
    ensures
        ({
            let s = history_with_size_text(left, right, target);
            let least = history_min_width_of(left, right);
            &&& width_of(s) == (if target > least { target as int } else { least })
            &&& s.take(left.len() as int + 2) == left + seq![' ', '-']
            &&& s.skip(s.len() - right.len() - 2) == seq!['-', ' '] + right
        }),
{
    let s = history_with_size_text(left, right, target);
    let fill = fill_width(left, right, target);
    let dashes = repeat_seq('-', fill);
    assert(fill >= 1);
    assert(dashes.len() == fill);
    assert(s == left + seq![' '] + dashes + seq![' '] + right);
    assert(s.take(left.len() as int + 2) =~= left + seq![' ', '-']) by {
        assert(dashes[0] == '-');
    }
    assert(s.skip(s.len() - right.len() - 2) =~= seq!['-', ' '] + right) by {
        assert(dashes[fill - 1] == '-');
    }
}

/// A one-line history entry for an action on a partition.
pub fn compact_history_message(
    index: usize,
    total_count: usize,
    action: &str,
    partition: &str,
    bytes: u64,
    target_width: usize,
) -> (s: String)
    requires
        index < usize::MAX,
    ensures
        s@ == history_text(index as nat, total_count as nat, action@, partition@, bytes, target_width as nat),
{
    let label = action_label(index, total_count);
    proof {
        reveal_strlit(" ");
    }
    if str_eq(action, "flash") {
        let a = concat(label.as_str(), " ");
        let left = concat(a.as_str(), partition);
        let right = human_bytes(bytes);
        history_with_size(left.as_str(), right.as_str(), target_width)
    } else if str_eq(action, "skipped flash") {
        let a = concat(label.as_str(), " skipped flash ");
        let left = concat(a.as_str(), partition);
        let right = human_bytes(bytes);
        history_with_size(left.as_str(), right.as_str(), target_width)
    } else {
        let a = concat(label.as_str(), " ");
        let b = concat(a.as_str(), action);
        let c = concat(b.as_str(), " ");
        let d = concat(c.as_str(), partition);
        if bytes == 0 {
            d
        } else {
            let e = concat(d.as_str(), " ");
            let h = human_bytes(bytes);
            concat(e.as_str(), h.as_str())
        }
    }
}

/// The history line of a finished flash.
pub fn flash_history_message(
    index: usize,
    total_count: usize,
    partition: &str,
    bytes: u64,
    target_width: usize,
) -> (s: String)
    requires
        index < usize::MAX,
    ensures
        s@ == history_text(index as nat, total_count as nat, "flash"@, partition@, bytes, target_width as nat),
{
    compact_history_message(index, total_count, "flash", partition, bytes, target_width)
}

/// The history line of a skipped flash.
pub fn skipped_flash_history_message(
    index: usize,
    total_count: usize,
    partition: &str,
    bytes: u64,
    target_width: usize,
) -> (s: String)
    requires
        index < usize::MAX,
    ensures
        s@ == history_text(
            index as nat,
            total_count as nat,
            "skipped flash"@,
            partition@,
            bytes,
            target_width as nat,
        ),
{
    compact_history_message(index, total_count, "skipped flash", partition, bytes, target_width)
}

/// The history line of a finished erase: `<label> erase <partition>`.
pub fn erase_history_message(index: usize, total_count: usize, partition: &str) -> (s: String)
    requires
        index < usize::MAX,
    ensures
        s@ == action_label_text(index as nat, total_count as nat) + " erase "@ + partition@,
{
    let s = compact_history_message(index, total_count, "erase", partition, 0, 0);
    proof {
        reveal_strlit("erase");
        reveal_strlit("flash");
        reveal_strlit("skipped flash");
        reveal_strlit(" erase ");
        let l = action_label_text(index as nat, total_count as nat);
        assert("erase"@ != "flash"@) by {
            assert("erase"@[0] != "flash"@[0]);
        }
        assert("erase"@ != "skipped flash"@) by {
            assert("erase"@.len() != "skipped flash"@.len());
        }
        assert(l + seq![' '] + "erase"@ + seq![' '] + partition@ =~= l + " erase "@ + partition@);
    }
    s
}

/// The history line of a skipped erase: `<label> skipped erase <partition>`.
pub fn skipped_erase_history_message(index: usize, total_count: usize, partition: &str) -> (s: String)
    requires
        index < usize::MAX,
    ensures
        s@ == action_label_text(index as nat, total_count as nat) + " skipped erase "@ + partition@,
{
    let s = compact_history_message(index, total_count, "skipped erase", partition, 0, 0);
    proof {
        reveal_strlit("skipped erase");
        reveal_strlit("flash");
        reveal_strlit("skipped flash");
        reveal_strlit(" skipped erase ");
        let l = action_label_text(index as nat, total_count as nat);
        assert("skipped erase"@ != "flash"@) by {
            assert("skipped erase"@.len() != "flash"@.len());
        }
        assert("skipped erase"@ != "skipped flash"@) by {
            assert("skipped erase"@[8] != "skipped flash"@[8]);
        }
        assert(l + seq![' '] + "skipped erase"@ + seq![' '] + partition@ =~= l
            + " skipped erase "@ + partition@);
    }
    s
}

/// The least width of a flash history line: its texts and three columns.
pub open spec fn history_min_width_of(left: Seq<char>, right: Seq<char>) -> int {
    (width_of(left) + width_of(right) + 3) as int
}

/// The least width of a finished flash's history line, at most
/// `usize::MAX`.
pub fn flash_history_min_width(index: usize, total_count: usize, partition: &str, bytes: u64) -> (w: usize)
    requires
        index < usize::MAX,
    ensures
        w == (if history_min_width_of(
            action_label_text(index as nat, total_count as nat) + seq![' '] + partition@,
            human_bytes_text(bytes),
        ) > usize::MAX {
            usize::MAX as int
        } else {
            history_min_width_of(
                action_label_text(index as nat, total_count as nat) + seq![' '] + partition@,
                human_bytes_text(bytes),
            )
        }),
{
    let label = action_label(index, total_count);
    let a = concat(label.as_str(), " ");
    let left = concat(a.as_str(), partition);
    let right = human_bytes(bytes);
    proof {
        reveal_strlit(" ");
    }
    let l = visible_width(left.as_str()) as u128;
    let r = visible_width(right.as_str()) as u128;
    let total = l + r + 3;
    if total > usize::MAX as u128 {
        usize::MAX
    } else {
        total as usize
    }
}

/// `w` capped at `usize::MAX`.
pub open spec fn capped(w: int) -> int {
    if w > usize::MAX { usize::MAX as int } else { w }
}

/// The least width of a skipped flash's history line, at most
/// `usize::MAX`.
pub fn skipped_flash_history_min_width(index: usize, total_count: usize, partition: &str, bytes: u64) -> (w: usize)
    requires
        index < usize::MAX,
    ensures
        w == capped(history_min_width_of(
            action_label_text(index as nat, total_count as nat) + " skipped flash "@ + partition@,
            human_bytes_text(bytes),
        )),
{
    let label = action_label(index, total_count);
    let a = concat(label.as_str(), " skipped flash ");
    let left = concat(a.as_str(), partition);
    let right = human_bytes(bytes);
    let l = visible_width(left.as_str()) as u128;
    let r = visible_width(right.as_str()) as u128;
    let total = l + r + 3;
    if total > usize::MAX as u128 {
        usize::MAX
    } else {
        total as usize
    }
}

/// Counts and bytes of a plan's actions.
#[derive(Clone, Copy, Debug, PartialEq, Eq, Structural)]
pub struct ActionSummary {
    /// Flash actions.
    pub flash_count: usize,
    /// Wipe actions.
    pub wipe_count: usize,
    /// Skipped actions.
    pub skipped_count: usize,
    /// Bytes of the flash and wipe actions, saturating at `u64::MAX`.
    pub total_bytes: u64,
}

impl ActionSummary {
    /// Number of actions counted.
    pub fn action_count(self) -> (n: usize)
        requires
            self.flash_count + self.wipe_count + self.skipped_count <= usize::MAX,
        ensures
            n == self.flash_count + self.wipe_count + self.skipped_count,
    {
        self.flash_count + self.wipe_count + self.skipped_count
    }
}

/// The summary of `(action, size)` pairs: flashes and wipes are counted and
/// their sizes added (saturating), skips counted, anything else ignored.
pub open spec fn summary_of(actions: Seq<(&str, u64)>) -> ActionSummary
    decreases actions.len(),
{
    if actions.len() == 0 {
        ActionSummary { flash_count: 0, wipe_count: 0, skipped_count: 0, total_bytes: 0 }
    } else {
        let s = summary_of(actions.drop_last());
        let (a, size) = actions.last();
        let added = if s.total_bytes + size > u64::MAX {
            u64::MAX
        } else {
            (s.total_bytes + size) as u64
        };
        if a@ == "flash"@ {
            ActionSummary { flash_count: (s.flash_count + 1) as usize, total_bytes: added, ..s }
        } else if a@ == "wipe"@ {
            ActionSummary { wipe_count: (s.wipe_count + 1) as usize, total_bytes: added, ..s }
        } else if a@ == "skip"@ {
            ActionSummary { skipped_count: (s.skipped_count + 1) as usize, ..s }
        } else {
            s
        }
    }
}

proof fn lemma_summary_counts(actions: Seq<(&str, u64)>)
    ensures
        summary_of(actions).flash_count + summary_of(actions).wipe_count + summary_of(
            actions,
        ).skipped_count <= actions.len(),
    decreases actions.len(),
{
    if actions.len() > 0 {
        lemma_summary_counts(actions.drop_last());
    }
}

/// Summarises `(action, size)` pairs.
pub fn action_summary(actions: &[(&str, u64)]) -> (s: ActionSummary)
    ensures
        s == summary_of(actions@),
        s.flash_count + s.wipe_count + s.skipped_count <= actions@.len(),
{
    let mut s = ActionSummary { flash_count: 0, wipe_count: 0, skipped_count: 0, total_bytes: 0 };
    let mut i: usize = 0;
    while i < actions.len()
        invariant
            0 <= i <= actions@.len(),
            s == summary_of(actions@.take(i as int)),
        decreases actions@.len() - i,
    {
        let (a, size) = actions[i];
        proof {
            assert(actions@.take(i + 1).drop_last() =~= actions@.take(i as int));
            lemma_summary_counts(actions@.take(i as int));
        }
        if str_eq(a, "flash") {
            s.flash_count = s.flash_count + 1;
            s.total_bytes = s.total_bytes.saturating_add(size);
        } else if str_eq(a, "wipe") {
            s.wipe_count = s.wipe_count + 1;
            s.total_bytes = s.total_bytes.saturating_add(size);
        } else if str_eq(a, "skip") {
            s.skipped_count = s.skipped_count + 1;
        }
        i = i + 1;
    }
    proof {
        assert(actions@.take(i as int) =~= actions@);
        lemma_summary_counts(actions@);
    }
    s
}

/// The progress header: `<count> action(s) <bytes>`.
pub fn progress_header(summary: ActionSummary, dry_run: bool) -> (s: String)
    requires
        summary.flash_count + summary.wipe_count + summary.skipped_count <= usize::MAX,
    ensures
        s@ == dec_str((summary.flash_count + summary.wipe_count + summary.skipped_count) as nat)
            + seq![' '] + (if summary.flash_count + summary.wipe_count + summary.skipped_count == 1 {
            "action"@
        } else {
            "actions"@
        }) + seq![' '] + human_bytes_text(summary.total_bytes),
{
    let count = summary.action_count();
    let noun = if count == 1 {
        "action"
    } else {
        "actions"
    };
    let n = format_u64(count as u64);
    let a = concat(n.as_str(), " ");
    let b = concat(a.as_str(), noun);
    let c = concat(b.as_str(), " ");
    let h = human_bytes(summary.total_bytes);
    proof {
        reveal_strlit(" ");
    }
    concat(c.as_str(), h.as_str())
}

/// A terminal width made into a bar width: half of what is left after 54
/// columns, between 10 and 15.
pub open spec fn fixed_bar_width_of(columns: nat) -> nat {
    let w = if columns > 54 {
        ((columns - 54) / 2) as nat
    } else {
        0
    };
    if w < 10 {
        10
    } else if w > 15 {
        15
    } else {
        w
    }
}

/// The width of a bar for a terminal of `columns` columns.
pub fn fixed_bar_width(columns: usize) -> (w: usize)
    ensures
        w == fixed_bar_width_of(columns as nat),
{
    let w = columns.saturating_sub(54) / 2;
    if w < 10 {
        10
    } else if w > 15 {
        15
    } else {
        w
    }
}

/// `desired` columns, no more than `available` unless `available` is below
/// `min`, in which case no more than `min`.
pub fn fit_width(desired: usize, min: usize, available: usize) -> (w: usize)
    ensures
        w == (if available < min {
            if desired < min {
                desired
            } else {
                min
            }
        } else if desired < available {
            desired
        } else {
            available
        }),
{
    let cap = if available < min {
        min
    } else {
        available
    };
    if desired < cap {
        desired
    } else {
        cap
    }
}

/// Spaces that centre `content_width` columns in `total_width` columns.
pub fn centered_padding(content_width: usize, total_width: usize) -> (n: usize)
    ensures
        n == (if total_width > content_width {
            (total_width - content_width) / 2
        } else {
            0
        }),
{
    total_width.saturating_sub(content_width) / 2
}

/// `label` after the spaces that centre `content_width` columns in
/// `total_width` columns.
pub fn centered_prefix(label: &str, content_width: usize, total_width: usize) -> (s: String)
    ensures
        s@ == repeat_seq(
            ' ',
            (if total_width > content_width {
                (total_width - content_width) / 2
            } else {
                0
            }) as nat,
        ) + label@,
{
    let pad = repeat_char(' ', centered_padding(content_width, total_width));
    concat(pad.as_str(), label)
}

/// Two digits of a number below 100, zero-padded.
pub open spec fn two_digits(n: nat) -> Seq<char> {
    if n < 10 {
        seq!['0'] + dec_str(n)
    } else {
        dec_str(n)
    }
}

/// `mm:ss` for a number of seconds, the minutes not wrapping at an hour.
pub fn format_mm_ss(secs: u64) -> (s: String)
    ensures
        s@ == (if secs / 60 < 10 {
            seq!['0'] + dec_str((secs / 60) as nat)
        } else {
            dec_str((secs / 60) as nat)
        }) + seq![':'] + two_digits((secs % 60) as nat),
{
    let minutes = secs / 60;
    let seconds = secs % 60;
    let m = format_u64(minutes);
    let m = if minutes < 10 {
        concat("0", m.as_str())
    } else {
        m
    };
    let sec = format_u64(seconds);
    let sec = if seconds < 10 {
        concat("0", sec.as_str())
    } else {
        sec
    };
    let with_colon = concat(m.as_str(), ":");
    proof {
        reveal_strlit("0");
        reveal_strlit(":");
    }
    concat(with_colon.as_str(), sec.as_str())
}

/// `<current>/<total>` in human units, each part padded to ten columns so
/// that the text keeps its width as the numbers change.
pub fn format_byte_pair(current: u64, total: u64) -> (s: String)
    ensures
        s@ == pad_left_seq(human_bytes_text(current), 10) + seq!['/'] + pad_right_seq(
            human_bytes_text(total),
            10,
        ),
{
    let c = human_bytes(current);
    let t = human_bytes(total);
    let left = pad_left(c.as_str(), 10);
    let right = pad_right(t.as_str(), 10);
    let with_slash = concat(left.as_str(), "/");
    proof {
        reveal_strlit("/");
    }
    concat(with_slash.as_str(), right.as_str())
}

/// The rows of a run's closing table: actions, flashes, wipes, skips and
/// bytes.
pub open spec fn completion_table(summary: ActionSummary) -> Seq<(Seq<char>, Seq<char>)> {
    seq![
        ("Actions"@, dec_str((summary.flash_count + summary.wipe_count + summary.skipped_count) as nat)),
        ("Flash"@, dec_str(summary.flash_count as nat)),
        ("Wipe"@, dec_str(summary.wipe_count as nat)),
        ("Skipped"@, dec_str(summary.skipped_count as nat)),
        ("Bytes"@, human_bytes_text(summary.total_bytes)),
    ]
}

/// The rows of a pair table as texts.
pub open spec fn rows_view(rows: Seq<(String, String)>) -> Seq<(Seq<char>, Seq<char>)> {
    rows.map_values(|r: (String, String)| (r.0@, r.1@))
}

/// The rows of a run's closing table.
pub fn completion_rows(summary: ActionSummary) -> (rows: Vec<(String, String)>)
    requires
        summary.flash_count + summary.wipe_count + summary.skipped_count <= usize::MAX,
    ensures
        rows_view(rows@) == completion_table(summary),
{
    let mut rows: Vec<(String, String)> = Vec::new();
    rows.push((owned("Actions"), format_u64(summary.action_count() as u64)));
    rows.push((owned("Flash"), format_u64(summary.flash_count as u64)));
    rows.push((owned("Wipe"), format_u64(summary.wipe_count as u64)));
    rows.push((owned("Skipped"), format_u64(summary.skipped_count as u64)));
    rows.push((owned("Bytes"), human_bytes(summary.total_bytes)));
    assert(rows_view(rows@) =~= completion_table(summary));
    rows
}

} // verus!
