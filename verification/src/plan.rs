//! Flash plans as the front ends show and run them: which actions a
//! selection keeps, the bytes they move, which rows start selected, the
//! summary and the rows handed to the front end, and how wide the progress
//! messages of a plan get.

use vstd::prelude::*;
use crate::gsi::holds;
use crate::layout::{lemma_max_width_views, max_text_width};
use crate::progress::{
    action_label_text, action_summary, capped, erase_history_message, flash_history_message,
    flash_history_min_width, history_min_width_of, history_text, human_bytes_text, max_visible_width,
    skipped_erase_history_message, skipped_flash_history_message, skipped_flash_history_min_width,
    selective_option_label, summary_of, ActionSummary,
};
use crate::text::{chars_of, concat, dec_str, format_u64, owned, str_eq, string_from_chars};
use crate::ui::{display_safety_class, normalize_storage_label, FlashPlanDto, FlashSummaryDto, PartitionDto};

verus! {

/// One action of a flash plan, with what the front ends read of it.
#[derive(Clone, Debug, PartialEq, Eq)]
pub struct PlanAction {
    /// `flash`, `wipe` or another verb.
    pub action: String,
    /// Partition name.
    pub partition: String,
    /// Size in bytes; a negative size counts as 0.
    pub size: i64,
    /// Size for humans.
    pub size_human: String,
    /// Safety class.
    pub safety_class: String,
    /// Why the action is in the plan.
    pub reason: String,
    /// The resolved image path, where there is one.
    pub image_path: Option<String>,
    /// Whether the image file exists, where it was checked.
    pub image_exists: Option<bool>,
}

/// A flash plan, with what the front ends read of it.
#[derive(Clone, Debug, PartialEq, Eq)]
pub struct FlashPlanView {
    /// Mode name.
    pub mode: String,
    /// The storage the plan was made for.
    pub storage_selection: String,
    /// The chosen partition layouts.
    pub selected_layouts: Vec<String>,
    /// The slot policy in force.
    pub slot_policy_effective: String,
    /// Flash actions counted by the planner.
    pub flash_count: usize,
    /// Wipe actions counted by the planner.
    pub wipe_count: usize,
    /// Skipped partitions counted by the planner.
    pub skipped_count: usize,
    /// The actions.
    pub actions: Vec<PlanAction>,
    /// Warnings.
    pub warnings: Vec<String>,
    /// Errors.
    pub errors: Vec<String>,
}

/// Whether an action is kept by a selection of partitions: every action
/// where none is selected, else those of a selected partition.
pub open spec fn is_selected(a: PlanAction, partitions: Seq<String>) -> bool {
    partitions.len() == 0 || holds(partitions, a.partition@)
}

/// The actions a selection keeps, in plan order.
pub open spec fn kept(actions: Seq<PlanAction>, partitions: Seq<String>) -> Seq<PlanAction>
    decreases actions.len(),
{
    if actions.len() == 0 {
        seq![]
    } else {
        kept(actions.drop_last(), partitions) + (if is_selected(actions.last(), partitions) {
            seq![actions.last()]
        } else {
            seq![]
        })
    }
}

/// The actions of the selected partitions, or all where none is selected.
pub fn filter_actions<'a>(actions: &'a [PlanAction], partitions: &[String]) -> (r: Vec<&'a PlanAction>)
    ensures
        r@.len() == kept(actions@, partitions@).len(),
        forall|k: int| 0 <= k < r@.len() ==> *(#[trigger] r@[k]) == kept(actions@, partitions@)[k],
{
    let mut r: Vec<&'a PlanAction> = Vec::new();
    let mut i: usize = 0;
    while i < actions.len()
        invariant
            0 <= i <= actions@.len(),
            r@.len() == kept(actions@.take(i as int), partitions@).len(),
            forall|k: int| 0 <= k < r@.len() ==> *(#[trigger] r@[k]) == kept(actions@.take(i as int), partitions@)[k],
        decreases actions@.len() - i,
    {
        let a = &actions[i];
        let keep = partitions.len() == 0 || crate::gsi::contains_string(partitions, a.partition.as_str());
        let ghost before = kept(actions@.take(i as int), partitions@);
        proof {
            assert(actions@.take(i + 1).drop_last() =~= actions@.take(i as int));
            assert(actions@.take(i + 1).last() == actions@[i as int]);
        }
        if keep {
            r.push(a);
        }
        proof {
            let now = kept(actions@.take(i + 1), partitions@);
            if keep {
                assert(now =~= before.push(actions@[i as int]));
            } else {
                assert(now =~= before);
            }
        }
        i = i + 1;
    }
    assert(actions@.take(i as int) =~= actions@);
    r
}

/// Whether running a plan in this mode needs a device: every mode but a
/// dry run.
pub fn plan_requires_connected_device(mode: &str) -> (b: bool)
    ensures
        b == !(mode@ == "dry_run"@ || mode@ == "dry-run"@),
{
    !(str_eq(mode, "dry_run") || str_eq(mode, "dry-run"))
}

/// An action's size in bytes, a negative size counting as 0.
pub open spec fn action_bytes(a: PlanAction) -> int {
    if a.size < 0 { 0 } else { a.size as int }
}

/// The bytes of the actions.
pub open spec fn bytes_total(actions: Seq<PlanAction>) -> int
    decreases actions.len(),
{
    if actions.len() == 0 {
        0
    } else {
        bytes_total(actions.drop_last()) + action_bytes(actions.last())
    }
}

proof fn lemma_bytes_total_prefix(actions: Seq<PlanAction>, i: int)
    requires
        0 <= i <= actions.len(),
    ensures
        0 <= bytes_total(actions.take(i)) <= bytes_total(actions),
    decreases actions.len() - i,
{
    if i < actions.len() {
        lemma_bytes_total_prefix(actions, i + 1);
        assert(actions.take(i + 1).drop_last() =~= actions.take(i));
        lemma_bytes_total_nonneg(actions.take(i));
    } else {
        assert(actions.take(i) =~= actions);
        lemma_bytes_total_nonneg(actions);
    }
}

proof fn lemma_bytes_total_nonneg(actions: Seq<PlanAction>)
    ensures
        bytes_total(actions) >= 0,
    decreases actions.len(),
{
    if actions.len() > 0 {
        lemma_bytes_total_nonneg(actions.drop_last());
    }
}

/// An optional text by its view.
pub open spec fn text_view(o: Option<String>) -> Option<Seq<char>> {
    match o {
        Some(t) => Some(t@),
        None => None,
    }
}

/// The actions behind references.
pub open spec fn derefs(actions: Seq<&PlanAction>) -> Seq<PlanAction> {
    actions.map_values(|a: &PlanAction| *a)
}

/// The bytes the actions move, where their sum fits in 64 bits.
pub fn total_bytes_for_actions(actions: &[&PlanAction]) -> (n: u64)
    requires
        bytes_total(derefs(actions@)) <= u64::MAX,
    ensures
        n == bytes_total(derefs(actions@)),
{
    let ghost all = derefs(actions@);
    let mut n: u64 = 0;
    let mut i: usize = 0;
    while i < actions.len()
        invariant
            0 <= i <= actions@.len(),
            all == derefs(actions@),
            bytes_total(all) <= u64::MAX,
            n == bytes_total(all.take(i as int)),
        decreases actions@.len() - i,
    {
        proof {
            assert(all.take(i + 1).drop_last() =~= all.take(i as int));
            assert(all.take(i + 1).last() == *actions@[i as int]);
            lemma_bytes_total_prefix(all, i + 1);
        }
        let size = actions[i].size;
        let add: u64 = if size < 0 { 0 } else { size as u64 };
        n = n + add;
        i = i + 1;
    }
    assert(all.take(i as int) =~= all);
    n
}

/// Whether a row starts selected: every action but a flash, and a flash
/// whose image is known to exist.
pub fn default_partition_selected(action: &PlanAction) -> (b: bool)
    ensures
        b == (action.action@ != "flash"@ || action.image_exists == Some(true)),
{
    if !str_eq(action.action.as_str(), "flash") {
        return true;
    }
    match action.image_exists {
        Some(e) => e,
        None => false,
    }
}

/// The summary of plan actions: flashes and wipes counted and their sizes
/// added (saturating), skips counted, other verbs ignored.
pub open spec fn plan_summary_of(actions: Seq<PlanAction>) -> ActionSummary
    decreases actions.len(),
{
    if actions.len() == 0 {
        ActionSummary { flash_count: 0, wipe_count: 0, skipped_count: 0, total_bytes: 0 }
    } else {
        let s = plan_summary_of(actions.drop_last());
        let a = actions.last();
        let added = if s.total_bytes + action_bytes(a) > u64::MAX {
            u64::MAX
        } else {
            (s.total_bytes + action_bytes(a)) as u64
        };
        if a.action@ == "flash"@ {
            ActionSummary { flash_count: (s.flash_count + 1) as usize, total_bytes: added, ..s }
        } else if a.action@ == "wipe"@ {
            ActionSummary { wipe_count: (s.wipe_count + 1) as usize, total_bytes: added, ..s }
        } else if a.action@ == "skip"@ {
            ActionSummary { skipped_count: (s.skipped_count + 1) as usize, ..s }
        } else {
            s
        }
    }
}

proof fn lemma_pairs_summary(pairs: Seq<(&str, u64)>, actions: Seq<PlanAction>)
    requires
        pairs.len() == actions.len(),
        forall|k: int| 0 <= k < pairs.len() ==> (#[trigger] pairs[k]).0@ == actions[k].action@
            && pairs[k].1 == action_bytes(actions[k]),
    ensures
        summary_of(pairs) == plan_summary_of(actions),
    decreases pairs.len(),
{
    if pairs.len() > 0 {
        let p = pairs.drop_last();
        let q = actions.drop_last();
        assert forall|k: int| 0 <= k < p.len() implies (#[trigger] p[k]).0@ == q[k].action@
            && p[k].1 == action_bytes(q[k]) by {
            assert(p[k] == pairs[k] && q[k] == actions[k]);
        }
        lemma_pairs_summary(p, q);
        assert(pairs.last() == pairs[pairs.len() - 1]);
    }
}

/// The summary of a plan's actions.
pub fn plan_action_summary(actions: &[PlanAction]) -> (s: ActionSummary)
    ensures
        s == plan_summary_of(actions@),
{
    let mut pairs: Vec<(&str, u64)> = Vec::new();
    let mut i: usize = 0;
    while i < actions.len()
        invariant
            0 <= i <= actions@.len(),
            pairs@.len() == i,
            forall|k: int| 0 <= k < i ==> (#[trigger] pairs@[k]).0@ == actions@[k].action@
                && pairs@[k].1 == action_bytes(actions@[k]),
        decreases actions@.len() - i,
    {
        let a = &actions[i];
        let size: u64 = if a.size < 0 { 0 } else { a.size as u64 };
        pairs.push((a.action.as_str(), size));
        i = i + 1;
    }
    let s = action_summary(pairs.as_slice());
    proof {
        lemma_pairs_summary(pairs@, actions@);
    }
    s
}

/// Whether `d` is the front end's row for action number `index`, `a`, with
/// the image file name `image_name`: its verb, partition, sizes, shown
/// safety class (`unknown` shown as `other`), source, image path and name,
/// and whether it starts selected.
pub open spec fn row_ok(d: PartitionDto, index: int, a: PlanAction, image_name: Option<Seq<char>>) -> bool {
    &&& d.index == index
    &&& d.action@ == a.action@
    &&& d.partition@ == a.partition@
    &&& d.size_human@ == a.size_human@
    &&& d.size_bytes == action_bytes(a)
    &&& d.safety_class@ == (if a.safety_class@ == "unknown"@ { "other"@ } else { a.safety_class@ })
    &&& d.source@ == a.reason@
    &&& text_view(d.image_path) == text_view(a.image_path)
    &&& text_view(d.image_name) == image_name
    &&& d.selected == (a.action@ != "flash"@ || a.image_exists == Some(true))
}

/// The front end's row for action number `index`, whose image file name is
/// `image_name`.
pub fn partition_dto(index: usize, action: &PlanAction, image_name: Option<String>) -> (d: PartitionDto)
    ensures
        row_ok(d, index as int, *action, text_view(image_name)),
        d.image_name == image_name,
{
    let image_path = match &action.image_path {
        Some(p) => Some(owned(p.as_str())),
        None => None,
    };
    PartitionDto {
        index,
        action: owned(action.action.as_str()),
        partition: owned(action.partition.as_str()),
        size_human: owned(action.size_human.as_str()),
        size_bytes: if action.size < 0 { 0 } else { action.size as u64 },
        safety_class: display_safety_class(action.safety_class.as_str()),
        source: owned(action.reason.as_str()),
        image_path,
        image_name,
        selected: default_partition_selected(action),
    }
}

/// The rows of a plan for the front end, the image file name of row `i`
/// being `image_names[i]`.
pub fn plan_partitions(actions: &[PlanAction], image_names: &[Option<String>]) -> (v: Vec<PartitionDto>)
    requires
        image_names@.len() == actions@.len(),
    ensures
        v@.len() == actions@.len(),
        forall|i: int| 0 <= i < v@.len() ==> row_ok(#[trigger] v@[i], i, actions@[i], text_view(image_names@[i])),
{
    let mut v: Vec<PartitionDto> = Vec::new();
    let mut i: usize = 0;
    while i < actions.len()
        invariant
            0 <= i <= actions@.len(),
            image_names@.len() == actions@.len(),
            v@.len() == i,
            forall|k: int| 0 <= k < i ==> row_ok(#[trigger] v@[k], k, actions@[k], text_view(image_names@[k])),
        decreases actions@.len() - i,
    {
        let name = match &image_names[i] {
            Some(n) => Some(owned(n.as_str())),
            None => None,
        };
        proof {
            match image_names@[i as int] {
                Some(n) => {
                    assert(name matches Some(m) && m@ == n@);
                },
                None => {},
            }
        }
        let d = partition_dto(i, &actions[i], name);
        v.push(d);
        proof {
            assert(v@[i as int] == d);
        }
        i = i + 1;
    }
    v
}

/// Copies of strings.
fn copy_strings(v: &Vec<String>) -> (r: Vec<String>)
    ensures
        r@.len() == v@.len(),
        forall|i: int| 0 <= i < r@.len() ==> (#[trigger] r@[i])@ == v@[i]@,
{
    let mut r: Vec<String> = Vec::new();
    let mut i: usize = 0;
    while i < v.len()
        invariant
            0 <= i <= v@.len(),
            r@.len() == i,
            forall|k: int| 0 <= k < i ==> (#[trigger] r@[k])@ == v@[k]@,
        decreases v@.len() - i,
    {
        r.push(owned(v[i].as_str()));
        i = i + 1;
    }
    r
}

/// A plan as the front end shows it: mode, storage label, slot policy,
/// chipset, the planner's counts with the bytes of all actions, the rows,
/// warnings and errors.
pub fn plan_to_dto(plan: &FlashPlanView, chipset: Option<String>, image_names: &[Option<String>]) -> (d: FlashPlanDto)
    requires
        image_names@.len() == plan.actions@.len(),
        bytes_total(plan.actions@) <= u64::MAX,
    ensures
        d.mode@ == plan.mode@,
        d.storage@ == crate::ui::storage_label_text(plan.storage_selection@, plan.selected_layouts@),
        d.slot_policy@ == plan.slot_policy_effective@,
        d.chipset == chipset,
        d.summary == (FlashSummaryDto {
            flash_count: plan.flash_count,
            wipe_count: plan.wipe_count,
            skipped_count: plan.skipped_count,
            total_bytes: bytes_total(plan.actions@) as u64,
        }),
        d.partitions@.len() == plan.actions@.len(),
        forall|i: int| 0 <= i < d.partitions@.len() ==> row_ok(#[trigger] d.partitions@[i], i, plan.actions@[i],
            text_view(image_names@[i])),
        d.warnings@.len() == plan.warnings@.len(),
        forall|i: int| 0 <= i < d.warnings@.len() ==> (#[trigger] d.warnings@[i])@ == plan.warnings@[i]@,
        d.errors@.len() == plan.errors@.len(),
        forall|i: int| 0 <= i < d.errors@.len() ==> (#[trigger] d.errors@[i])@ == plan.errors@[i]@,
{
    let partitions = plan_partitions(plan.actions.as_slice(), image_names);
    let mut refs: Vec<&PlanAction> = Vec::new();
    let mut i: usize = 0;
    while i < plan.actions.len()
        invariant
            0 <= i <= plan.actions@.len(),
            refs@.len() == i,
            forall|k: int| 0 <= k < i ==> *(#[trigger] refs@[k]) == plan.actions@[k],
        decreases plan.actions@.len() - i,
    {
        refs.push(&plan.actions[i]);
        i = i + 1;
    }
    assert(derefs(refs@) =~= plan.actions@);
    let total_bytes = total_bytes_for_actions(refs.as_slice());
    FlashPlanDto {
        mode: owned(plan.mode.as_str()),
        storage: normalize_storage_label(plan.storage_selection.as_str(), plan.selected_layouts.as_slice()),
        slot_policy: owned(plan.slot_policy_effective.as_str()),
        chipset,
        summary: FlashSummaryDto {
            flash_count: plan.flash_count,
            wipe_count: plan.wipe_count,
            skipped_count: plan.skipped_count,
            total_bytes,
        },
        partitions,
        warnings: copy_strings(&plan.warnings),
        errors: copy_strings(&plan.errors),
    }
}

/// `<verb> <partition>`.
fn verb_partition(verb: &str, partition: &str) -> (s: String)
    ensures
        s@ == verb@ + " "@ + partition@,
{
    let a = concat(verb, " ");
    concat(a.as_str(), partition)
}

/// The texts a plan row may show, for a row among `count`: for a flash its
/// action text and its history lines at their least widths, for a wipe its
/// action text and erase lines, for another verb its action text twice and
/// `skipped <verb> <partition>`.
pub open spec fn plan_item_texts(count: nat, a: PlanAction) -> Seq<Seq<char>> {
    let p = a.partition@;
    let head = a.action@ + " "@ + p;
    let label = action_label_text(0, count);
    let size = action_bytes(a) as u64;
    if a.action@ == "flash"@ {
        seq![
            head,
            history_text(0, count, "flash"@, p, size,
                capped(history_min_width_of(label + seq![' '] + p, human_bytes_text(size))) as nat),
            history_text(0, count, "skipped flash"@, p, size,
                capped(history_min_width_of(label + " skipped flash "@ + p, human_bytes_text(size))) as nat),
        ]
    } else if a.action@ == "wipe"@ {
        seq![head, label + " erase "@ + p, label + " skipped erase "@ + p]
    } else {
        seq![head, head, "skipped "@ + a.action@ + " "@ + p]
    }
}

/// The row texts of the first `actions.len()` of `count` plan rows.
pub open spec fn plan_row_texts(actions: Seq<PlanAction>, count: nat) -> Seq<Seq<char>>
    decreases actions.len(),
{
    if actions.len() == 0 {
        seq![]
    } else {
        plan_row_texts(actions.drop_last(), count) + plan_item_texts(count, actions.last())
    }
}

/// The widest message a plan's rows may show, each measured as the first
/// of the plan's rows.
pub fn plan_item_message_width(actions: &[PlanAction]) -> (w: usize)
    ensures
        w == max_text_width(plan_row_texts(actions@, actions@.len())),
{
    let count = actions.len();
    let mut texts: Vec<String> = Vec::new();
    let mut i: usize = 0;
    while i < actions.len()
        invariant
            0 <= i <= actions@.len(),
            count == actions@.len(),
            texts@.map_values(|t: String| t@) == plan_row_texts(actions@.take(i as int), count as nat),
        decreases actions@.len() - i,
    {
        let a = &actions[i];
        let p = a.partition.as_str();
        let size: u64 = if a.size < 0 { 0 } else { a.size as u64 };
        let ghost before = texts@.map_values(|t: String| t@);
        let head = verb_partition(a.action.as_str(), p);
        let (t1, t2) = if str_eq(a.action.as_str(), "flash") {
            let w1 = flash_history_min_width(0, count, p, size);
            let w2 = skipped_flash_history_min_width(0, count, p, size);
            (flash_history_message(0, count, p, size, w1), skipped_flash_history_message(0, count, p, size, w2))
        } else if str_eq(a.action.as_str(), "wipe") {
            (erase_history_message(0, count, p), skipped_erase_history_message(0, count, p))
        } else {
            let skipped = concat("skipped ", a.action.as_str());
            (verb_partition(a.action.as_str(), p), verb_partition(skipped.as_str(), p))
        };
        texts.push(head);
        texts.push(t1);
        texts.push(t2);
        proof {
            assert(actions@.take(i + 1).drop_last() =~= actions@.take(i as int));
            assert(actions@.take(i + 1).last() == actions@[i as int]);
            assert(texts@.map_values(|t: String| t@) =~= before + plan_item_texts(count as nat, actions@[i as int]));
        }
        i = i + 1;
    }
    assert(actions@.take(i as int) =~= actions@);
    let mut refs: Vec<&str> = Vec::new();
    let mut k: usize = 0;
    while k < texts.len()
        invariant
            0 <= k <= texts@.len(),
            refs@.len() == k,
            forall|j: int| 0 <= j < k ==> (#[trigger] refs@[j])@ == texts@[j]@,
        decreases texts@.len() - k,
    {
        refs.push(texts[k].as_str());
        k = k + 1;
    }
    let w = max_visible_width(refs.as_slice());
    proof {
        let tv = texts@.map_values(|t: String| t@);
        assert forall|j: int| 0 <= j < refs@.len() implies (#[trigger] refs@[j])@ == tv[j] by {}
        lemma_max_width_views(refs@, tv);
    }
    w
}

/// The line a finished dry-run row of a plan keeps, for action number
/// `index` of `count`: a flash's history line at `width` with its size (at
/// least one byte), a wipe's erase line, and for another verb
/// `<index + 1>/<count> <verb> <partition>`.
pub open spec fn completed_row_text(index: nat, count: nat, a: PlanAction, width: nat) -> Seq<char> {
    let size = if action_bytes(a) < 1 { 1u64 } else { action_bytes(a) as u64 };
    if a.action@ == "flash"@ {
        history_text(index, count, "flash"@, a.partition@, size, width)
    } else if a.action@ == "wipe"@ {
        action_label_text(index, count) + " erase "@ + a.partition@
    } else {
        dec_str(index + 1) + "/"@ + dec_str(count) + " "@ + a.action@ + " "@ + a.partition@
    }
}

/// The line a finished dry-run row keeps.
pub fn plan_completed_message(index: usize, count: usize, action: &PlanAction, item_message_width: usize) -> (s: String)
    requires
        index < usize::MAX,
    ensures
        s@ == completed_row_text(index as nat, count as nat, *action, item_message_width as nat),
{
    let p = action.partition.as_str();
    if str_eq(action.action.as_str(), "flash") {
        let total: u64 = if action.size < 1 { 1 } else { action.size as u64 };
        flash_history_message(index, count, p, total, item_message_width)
    } else if str_eq(action.action.as_str(), "wipe") {
        erase_history_message(index, count, p)
    } else {
        let n = format_u64((index + 1) as u64);
        let a = concat(n.as_str(), "/");
        let c = format_u64(count as u64);
        let b = concat(a.as_str(), c.as_str());
        let v = verb_partition(action.action.as_str(), p);
        proof {
            reveal_strlit("/");
            reveal_strlit(" ");
        }
        let r = concat(b.as_str(), " ");
        let out = concat(r.as_str(), v.as_str());
        proof {
            assert(out@ =~= dec_str((index + 1) as nat) + "/"@ + dec_str(count as nat) + " "@ + action.action@
                + " "@ + action.partition@);
        }
        out
    }
}

/// The selection labels of a plan's flash actions, in plan order.
pub open spec fn flash_labels(actions: Seq<PlanAction>) -> Seq<Seq<char>>
    decreases actions.len(),
{
    if actions.len() == 0 {
        seq![]
    } else {
        let a = actions.last();
        flash_labels(actions.drop_last()) + (if a.action@ == "flash"@ {
            seq![a.partition@ + " ["@ + a.safety_class@ + "] "@ + a.size_human@]
        } else {
            seq![]
        })
    }
}

/// The message when a plan has no flash to select.
pub open spec fn nothing_selectable_message() -> Seq<char> {
    "no selectable flash actions found"@
}

/// The labels a user picks partitions by: one per flash action, in plan
/// order; refused where the plan has no flash.
pub fn selectable_partition_labels(actions: &[PlanAction]) -> (r: Result<Vec<String>, String>)
    ensures
        flash_labels(actions@).len() == 0 ==> (r matches Err(m) && m@ == nothing_selectable_message()),
        flash_labels(actions@).len() > 0 ==> (r matches Ok(v) && v@.map_values(|t: String| t@) == flash_labels(actions@)),
{
    let mut labels: Vec<String> = Vec::new();
    let mut i: usize = 0;
    while i < actions.len()
        invariant
            0 <= i <= actions@.len(),
            labels@.map_values(|t: String| t@) == flash_labels(actions@.take(i as int)),
        decreases actions@.len() - i,
    {
        let a = &actions[i];
        let ghost before = labels@.map_values(|t: String| t@);
        proof {
            assert(actions@.take(i + 1).drop_last() =~= actions@.take(i as int));
            assert(actions@.take(i + 1).last() == actions@[i as int]);
        }
        if str_eq(a.action.as_str(), "flash") {
            labels.push(selective_option_label(a.partition.as_str(), a.safety_class.as_str(), a.size_human.as_str()));
            assert(labels@.map_values(|t: String| t@) =~= flash_labels(actions@.take(i + 1)));
        } else {
            assert(labels@.map_values(|t: String| t@) =~= flash_labels(actions@.take(i + 1)));
        }
        i = i + 1;
    }
    assert(actions@.take(i as int) =~= actions@);
    if labels.len() == 0 {
        return Err(owned("no selectable flash actions found"));
    }
    Ok(labels)
}

/// The index of the first space in a text.
pub open spec fn first_space(s: Seq<char>, k: int) -> Option<int>
    decreases s.len() - k,
{
    if k < 0 || k >= s.len() {
        None
    } else if s[k] == ' ' {
        Some(k)
    } else {
        first_space(s, k + 1)
    }
}

/// The partitions of picked labels: of each label with a space, the text
/// before its first space.
pub open spec fn picked_partitions(labels: Seq<Seq<char>>) -> Seq<Seq<char>>
    decreases labels.len(),
{
    if labels.len() == 0 {
        seq![]
    } else {
        picked_partitions(labels.drop_last()) + match first_space(labels.last(), 0) {
            Some(k) => seq![labels.last().take(k)],
            None => seq![],
        }
    }
}

/// The message when no partition was picked.
pub open spec fn nothing_selected_message() -> Seq<char> {
    "no partitions selected"@
}

fn text_before_space(s: &str) -> (r: Option<String>)
    ensures
        match first_space(s@, 0) {
            Some(k) => r matches Some(t) && t@ == s@.take(k),
            None => r is None,
        },
{
    let cs = chars_of(s);
    let mut head: Vec<char> = Vec::new();
    let mut i: usize = 0;
    while i < cs.len()
        invariant
            0 <= i <= cs@.len(),
            cs@ == s@,
            head@ == s@.take(i as int),
            first_space(s@, 0) == first_space(s@, i as int),
        decreases cs@.len() - i,
    {
        if cs[i] == ' ' {
            return Some(string_from_chars(&head));
        }
        head.push(cs[i]);
        assert(s@.take(i + 1) =~= s@.take(i as int).push(s@[i as int]));
        i = i + 1;
    }
    None
}

/// The partitions the picked labels name; refused where none does.
pub fn partitions_from_labels(labels: &[String]) -> (r: Result<Vec<String>, String>)
    ensures
        ({
            let picked = picked_partitions(labels@.map_values(|t: String| t@));
            &&& picked.len() == 0 ==> (r matches Err(m) && m@ == nothing_selected_message())
            &&& picked.len() > 0 ==> (r matches Ok(v) && v@.map_values(|t: String| t@) == picked)
        }),
{
    let ghost all = labels@.map_values(|t: String| t@);
    let mut parts: Vec<String> = Vec::new();
    let mut i: usize = 0;
    while i < labels.len()
        invariant
            0 <= i <= labels@.len(),
            all == labels@.map_values(|t: String| t@),
            parts@.map_values(|t: String| t@) == picked_partitions(all.take(i as int)),
        decreases labels@.len() - i,
    {
        proof {
            assert(all.take(i + 1).drop_last() =~= all.take(i as int));
            assert(all.take(i + 1).last() == labels@[i as int]@);
        }
        match text_before_space(labels[i].as_str()) {
            Some(p) => {
                parts.push(p);
            },
            None => {},
        }
        assert(parts@.map_values(|t: String| t@) =~= picked_partitions(all.take(i + 1)));
        i = i + 1;
    }
    assert(all.take(i as int) =~= all);
    if parts.len() == 0 {
        return Err(owned("no partitions selected"));
    }
    Ok(parts)
}

/// A plan's listing line for action number `index`:
/// `<index + 1>. <verb> <partition> (<size>) [<safety class>] - <reason>`.
pub open spec fn plan_line_text(index: nat, a: PlanAction) -> Seq<char> {
    dec_str(index + 1) + ". "@ + a.action@ + " "@ + a.partition@ + " ("@ + a.size_human@ + ") ["@
        + a.safety_class@ + "] - "@ + a.reason@
}

/// A plan's listing line.
pub fn plan_action_line(index: usize, action: &PlanAction) -> (s: String)
    requires
        index < usize::MAX,
    ensures
        s@ == plan_line_text(index as nat, *action),
{
    let n = format_u64((index + 1) as u64);
    let a = concat(n.as_str(), ". ");
    let b = concat(a.as_str(), action.action.as_str());
    let c = concat(b.as_str(), " ");
    let d = concat(c.as_str(), action.partition.as_str());
    let e = concat(d.as_str(), " (");
    let f = concat(e.as_str(), action.size_human.as_str());
    let g = concat(f.as_str(), ") [");
    let h = concat(g.as_str(), action.safety_class.as_str());
    let k = concat(h.as_str(), "] - ");
    concat(k.as_str(), action.reason.as_str())
}

/// The partitions of a plan's flash actions, in plan order.
pub open spec fn flash_partitions(actions: Seq<PlanAction>) -> Seq<Seq<char>>
    decreases actions.len(),
{
    if actions.len() == 0 {
        seq![]
    } else {
        flash_partitions(actions.drop_last()) + (if actions.last().action@ == "flash"@ {
            seq![actions.last().partition@]
        } else {
            seq![]
        })
    }
}

proof fn lemma_first_space_after(s: Seq<char>, p: Seq<char>, k: int)
    requires
        0 <= k <= p.len(),
        p.len() < s.len(),
        s.take(p.len() as int) == p,
        s[p.len() as int] == ' ',
        forall|j: int| 0 <= j < p.len() ==> p[j] != ' ',
    ensures
        first_space(s, k) == Some(p.len() as int),
    decreases p.len() - k,
{
    if k < p.len() {
        assert(s[k] == p[k]);
        lemma_first_space_after(s, p, k + 1);
    }
}

/// Picking every selection label of a plan names exactly its flash
/// partitions, in plan order, where no partition name holds a space.
pub proof fn lemma_labels_name_their_partitions(actions: Seq<PlanAction>)
    requires
        forall|i: int, j: int| 0 <= i < actions.len() && 0 <= j < actions[i].partition@.len()
            ==> #[trigger] actions[i].partition@[j] != ' ',
    ensures
        picked_partitions(flash_labels(actions)) == flash_partitions(actions),
    decreases actions.len(),
{
    if actions.len() > 0 {
        let rest = actions.drop_last();
        assert forall|i: int, j: int| 0 <= i < rest.len() && 0 <= j < rest[i].partition@.len()
            implies #[trigger] rest[i].partition@[j] != ' ' by {
            assert(rest[i] == actions[i]);
        }
        lemma_labels_name_their_partitions(rest);
        let a = actions.last();
        let labels = flash_labels(actions);
        if a.action@ == "flash"@ {
            let label = a.partition@ + " ["@ + a.safety_class@ + "] "@ + a.size_human@;
            assert(labels == flash_labels(rest).push(label));
            assert(labels.drop_last() =~= flash_labels(rest));
            assert(labels.last() == label);
            reveal_strlit(" [");
            assert(label.take(a.partition@.len() as int) =~= a.partition@);
            assert(label[a.partition@.len() as int] == ' ');
            assert forall|j: int| 0 <= j < a.partition@.len() implies a.partition@[j] != ' ' by {
                assert(actions[actions.len() - 1].partition@[j] != ' ');
            }
            lemma_first_space_after(label, a.partition@, 0);
            assert(picked_partitions(labels) =~= picked_partitions(flash_labels(rest)).push(a.partition@));
        } else {
            assert(labels =~= flash_labels(rest));
        }
    }
}

/// The image a partition is overridden with: the value of the first pair
/// whose key is the partition (the keys of an override map are distinct).
pub open spec fn override_for(o: Seq<(String, String)>, partition: Seq<char>) -> Option<Seq<char>>
    decreases o.len(),
{
    if o.len() == 0 {
        None
    } else if o[0].0@ == partition {
        Some(o[0].1@)
    } else {
        override_for(o.drop_first(), partition)
    }
}

/// The message for a flash action without an image.
pub open spec fn missing_image_message(partition: Seq<char>) -> Seq<char> {
    "missing image path for "@ + partition
}

/// The image to flash for an action: an override for its partition first,
/// else its resolved image path; refused where it has neither.
pub fn resolve_image_path_for_action(action: &PlanAction, image_overrides: &[(String, String)]) -> (r: Result<String, String>)
    ensures
        match override_for(image_overrides@, action.partition@) {
            Some(v) => r matches Ok(t) && t@ == v,
            None => match action.image_path {
                Some(q) => r matches Ok(t) && t@ == q@,
                None => r matches Err(m) && m@ == missing_image_message(action.partition@),
            },
        },
{
    let mut i: usize = 0;
    assert(image_overrides@.skip(0) =~= image_overrides@);
    while i < image_overrides.len()
        invariant
            0 <= i <= image_overrides@.len(),
            override_for(image_overrides@, action.partition@) == override_for(image_overrides@.skip(i as int), action.partition@),
        decreases image_overrides@.len() - i,
    {
        proof {
            assert(image_overrides@.skip(i as int)[0] == image_overrides@[i as int]);
            assert(image_overrides@.skip(i as int).drop_first() =~= image_overrides@.skip(i + 1));
        }
        if str_eq(image_overrides[i].0.as_str(), action.partition.as_str()) {
            return Ok(owned(image_overrides[i].1.as_str()));
        }
        i = i + 1;
    }
    proof {
        assert(image_overrides@.skip(i as int).len() == 0);
    }
    match &action.image_path {
        Some(q) => Ok(owned(q.as_str())),
        None => Err(concat("missing image path for ", action.partition.as_str())),
    }
}

/// The device work for one action of a plan being run.
#[derive(Clone, Debug, PartialEq, Eq)]
pub enum PlanStep {
    /// Flash the partition from this image.
    Flash {
        /// The image's path.
        image: String,
    },
    /// Erase the partition.
    Erase,
}

/// What running an action does: a `flash` flashes its resolved image and is
/// refused where it has none; a `wipe` erases; any other verb is refused.
pub fn plan_step(action: &PlanAction) -> (r: Result<PlanStep, String>)
    ensures
        action.action@ == "flash"@ ==> match action.image_path {
            Some(q) => r matches Ok(PlanStep::Flash { image }) && image@ == q@,
            None => r matches Err(m) && m@ == missing_image_message(action.partition@),
        },
        action.action@ == "wipe"@ ==> r matches Ok(PlanStep::Erase),
        !(action.action@ == "flash"@ || action.action@ == "wipe"@) ==> (r matches Err(m)
            && m@ == crate::simulate::unsupported_action_message(action.action@)),
{
    proof {
        reveal_strlit("flash");
        reveal_strlit("wipe");
        assert("wipe"@.len() != "flash"@.len());
    }
    if str_eq(action.action.as_str(), "flash") {
        match &action.image_path {
            Some(q) => Ok(PlanStep::Flash { image: owned(q.as_str()) }),
            None => Err(concat("missing image path for ", action.partition.as_str())),
        }
    } else if str_eq(action.action.as_str(), "wipe") {
        Ok(PlanStep::Erase)
    } else {
        Err(concat("unsupported plan action: ", action.action.as_str()))
    }
}

/// The bytes the overall progress moves by when an erase finishes or is
/// skipped: the action's size, a negative size counting as 0.
pub fn action_progress_bytes(action: &PlanAction) -> (n: u64)
    ensures
        n == action_bytes(*action),
{
    if action.size < 0 {
        0
    } else {
        action.size as u64
    }
}

} // verus!
