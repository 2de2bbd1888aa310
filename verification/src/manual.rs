//! Manual flashes of one image to one partition, and the disable-vbmeta
//! flow.

use vstd::prelude::*;
use crate::cli::SlotArg;
use crate::operation::{
    partition_with_slot, resolve_slot_suffix, spec_resolve_slot_suffix, SlotSelection,
};
use crate::progress::{human_bytes, human_bytes_text, rows_view};
use crate::text::{concat, dec_str, format_u64, owned};
use crate::vars::FastbootVars;

verus! {

/// Where a manual flash goes.
#[derive(Clone, Debug, PartialEq, Eq)]
pub enum ManualTarget {
    /// Exactly this partition.
    Exact(String),
    /// A base name with a slot resolved from the device.
    Slotted {
        /// Base name.
        base: String,
        /// Slot.
        slot: SlotSelection,
    },
}

/// One manual flash.
#[derive(Clone, Debug, PartialEq, Eq)]
pub struct ManualFlashAction {
    /// Partition name, or a placeholder for a slot resolved later.
    pub partition: String,
    /// Image path.
    pub image: String,
    /// Image size in bytes.
    pub size: u64,
    /// Why it is flashed.
    pub reason: String,
    /// Where it goes.
    pub target: ManualTarget,
}

/// Whether `s` ends with `_a` or `_b`.
pub open spec fn has_slot_suffix(s: Seq<char>) -> bool {
    s.len() >= 2 && s[s.len() - 2] == '_' && (s[s.len() - 1] == 'a' || s[s.len() - 1] == 'b')
}

/// The manual target of a partition and slot: no slot is the partition
/// itself; a partition that already ends in `_a` or `_b` takes no slot; `a`
/// and `b` are appended; active and inactive are resolved later; `all` is
/// refused.
pub open spec fn spec_manual_target(partition: Seq<char>, slot: Option<SlotArg>) -> Result<(Seq<char>, Option<SlotSelection>), Seq<char>> {
    match slot {
        None => Ok((partition, None)),
        Some(s) => if has_slot_suffix(partition) {
            Err(partition + " already has a slot suffix"@)
        } else {
            match s {
                SlotArg::A => Ok((partition + seq!['_'] + seq!['a'], None)),
                SlotArg::B => Ok((partition + seq!['_'] + seq!['b'], None)),
                SlotArg::Active => Ok((partition + "_<active>"@, Some(SlotSelection::Active))),
                SlotArg::Inactive => Ok((partition + "_<inactive>"@, Some(SlotSelection::Inactive))),
                SlotArg::All => Err("manual flash --slot only accepts a, b, active, or inactive"@),
            }
        },
    }
}

/// A manual flash with a slot goes to that slot: for a partition without a
/// slot suffix, `a` and `b` flash `<partition>_a` and `<partition>_b`
/// directly; `active` is resolved later with the active selection, so it
/// flashes the device's current slot; `inactive` with the inactive
/// selection, so it flashes the other slot, never the current one.
pub proof fn lemma_manual_slot_targets(partition: Seq<char>, vars: Map<Seq<char>, Seq<char>>)
    requires
        !has_slot_suffix(partition),
    ensures
        spec_manual_target(partition, Some(SlotArg::A)) == Ok::<(Seq<char>, Option<SlotSelection>), Seq<char>>(
            (partition + "_a"@, None),
        ),
        spec_manual_target(partition, Some(SlotArg::B)) == Ok::<(Seq<char>, Option<SlotSelection>), Seq<char>>(
            (partition + "_b"@, None),
        ),
        spec_manual_target(partition, Some(SlotArg::Active)) matches Ok((_, Some(sel)))
            && sel == SlotSelection::Active
            && spec_resolve_slot_suffix(sel, vars) == crate::operation::spec_current_slot(vars),
        spec_manual_target(partition, Some(SlotArg::Inactive)) matches Ok((_, Some(sel)))
            && sel == SlotSelection::Inactive
            && (crate::operation::spec_current_slot(vars) matches Some(Ok(cur)) ==> (spec_resolve_slot_suffix(
                sel,
                vars,
            ) matches Some(Ok(other)) && other != cur)),
{
    crate::operation::lemma_inactive_is_the_other_slot(vars);
    reveal_strlit("_a");
    reveal_strlit("_b");
    assert(partition + seq!['_'] + seq!['a'] =~= partition + "_a"@);
    assert(partition + seq!['_'] + seq!['b'] =~= partition + "_b"@);
}

/// Whether a target matches a name and resolution.
pub open spec fn target_is(t: ManualTarget, name: Seq<char>, base: Seq<char>, sel: Option<SlotSelection>) -> bool {
    match sel {
        None => t matches ManualTarget::Exact(p) && p@ == name,
        Some(s) => t matches ManualTarget::Slotted { base: b, slot } && b@ == base && slot == s,
    }
}

/// The partition label and target of a manual flash.
pub fn manual_target(partition: &str, slot: Option<SlotArg>) -> (r: Result<(String, ManualTarget), String>)
    ensures
        match spec_manual_target(partition@, slot) {
            Ok((name, sel)) => r matches Ok((p, t)) && p@ == name && target_is(t, name, partition@, sel),
            Err(m) => r matches Err(e) && e@ == m,
        },
{
    let slot = match slot {
        None => {
            return Ok((owned(partition), ManualTarget::Exact(owned(partition))));
        },
        Some(s) => s,
    };
    let n = partition.unicode_len();
    if n >= 2 && partition.get_char(n - 2) == '_' && (partition.get_char(n - 1) == 'a' || partition.get_char(n - 1) == 'b') {
        return Err(concat(partition, " already has a slot suffix"));
    }
    match slot {
        SlotArg::A => {
            let resolved = partition_with_slot(partition, "a");
            proof {
                reveal_strlit("a");
                assert("a"@ =~= seq!['a']);
            }
            Ok((resolved.clone(), ManualTarget::Exact(resolved)))
        },
        SlotArg::B => {
            let resolved = partition_with_slot(partition, "b");
            proof {
                reveal_strlit("b");
                assert("b"@ =~= seq!['b']);
            }
            Ok((resolved.clone(), ManualTarget::Exact(resolved)))
        },
        SlotArg::Active => Ok((concat(partition, "_<active>"), ManualTarget::Slotted { base: owned(partition), slot: SlotSelection::Active })),
        SlotArg::Inactive => Ok((concat(partition, "_<inactive>"), ManualTarget::Slotted { base: owned(partition), slot: SlotSelection::Inactive })),
        SlotArg::All => Err(owned("manual flash --slot only accepts a, b, active, or inactive")),
    }
}

/// Whether `a` is the manual flash of `image` (`size` bytes) to the
/// partition labelled `name`, targeted as `sel` resolves for `base`.
pub open spec fn manual_action_is(
    a: ManualFlashAction,
    name: Seq<char>,
    base: Seq<char>,
    sel: Option<SlotSelection>,
    image: Seq<char>,
    size: u64,
) -> bool {
    &&& a.partition@ == name
    &&& target_is(a.target, name, base, sel)
    &&& a.image@ == image
    &&& a.size == size
    &&& a.reason@ == "manual image"@
}

/// One manual flash of an image of `image_size` bytes, whose path the
/// caller has checked is a regular file.
pub fn manual_flash_action(partition: &str, image: &str, image_size: u64, slot: Option<SlotArg>) -> (r: Result<ManualFlashAction, String>)
    ensures
        match spec_manual_target(partition@, slot) {
            Ok((name, sel)) => r matches Ok(a) && manual_action_is(a, name, partition@, sel, image@, image_size),
            Err(m) => r matches Err(e) && e@ == m,
        },
{
    let (name, target) = manual_target(partition, slot)?;
    Ok(ManualFlashAction { partition: name, image: owned(image), size: image_size, reason: owned("manual image"), target })
}

/// The manual flashes of an image: `all` slots become one flash to slot A
/// and one to slot B.
pub fn manual_flash_actions(partition: &str, image: &str, image_size: u64, slot: Option<SlotArg>) -> (r: Result<Vec<ManualFlashAction>, String>)
    ensures
        slot == Some(SlotArg::All) ==> match (spec_manual_target(partition@, Some(SlotArg::A)), spec_manual_target(partition@, Some(SlotArg::B))) {
            (Ok((na, sa)), Ok((nb, sb))) => r matches Ok(v) && v@.len() == 2
                && manual_action_is(v@[0], na, partition@, sa, image@, image_size)
                && manual_action_is(v@[1], nb, partition@, sb, image@, image_size),
            (Err(m), _) => r matches Err(e) && e@ == m,
            (Ok(_), Err(m)) => r matches Err(e) && e@ == m,
        },
        slot != Some(SlotArg::All) ==> match spec_manual_target(partition@, slot) {
            Ok((name, sel)) => r matches Ok(v) && v@.len() == 1
                && manual_action_is(v@[0], name, partition@, sel, image@, image_size),
            Err(m) => r matches Err(e) && e@ == m,
        },
{
    let mut v: Vec<ManualFlashAction> = Vec::new();
    if slot == Some(SlotArg::All) {
        let a = manual_flash_action(partition, image, image_size, Some(SlotArg::A))?;
        let b = manual_flash_action(partition, image, image_size, Some(SlotArg::B))?;
        v.push(a);
        v.push(b);
        return Ok(v);
    }
    let a = manual_flash_action(partition, image, image_size, slot)?;
    v.push(a);
    Ok(v)
}

/// The disable-vbmeta flashes: the empty vbmeta image to `vbmeta_a` and to
/// `vbmeta_b`.
pub fn disable_vbmeta_actions(empty_image: &str, image_size: u64) -> (v: Vec<ManualFlashAction>)
    ensures
        v@.len() == 2,
        v@[0].partition@ == "vbmeta_a"@ && target_is(v@[0].target, "vbmeta_a"@, "vbmeta_a"@, None),
        v@[1].partition@ == "vbmeta_b"@ && target_is(v@[1].target, "vbmeta_b"@, "vbmeta_b"@, None),
        forall|i: int| 0 <= i < 2 ==> (#[trigger] v@[i]).image@ == empty_image@ && v@[i].size == image_size
            && v@[i].reason@ == "disable-vbmeta empty image"@,
{
    let mut v: Vec<ManualFlashAction> = Vec::new();
    v.push(ManualFlashAction {
        partition: owned("vbmeta_a"),
        image: owned(empty_image),
        size: image_size,
        reason: owned("disable-vbmeta empty image"),
        target: ManualTarget::Exact(owned("vbmeta_a")),
    });
    v.push(ManualFlashAction {
        partition: owned("vbmeta_b"),
        image: owned(empty_image),
        size: image_size,
        reason: owned("disable-vbmeta empty image"),
        target: ManualTarget::Exact(owned("vbmeta_b")),
    });
    v
}

impl ManualFlashAction {
    /// The partition this flash goes to: its exact name, or its base with
    /// the slot that the device variables resolve.
    pub fn resolved_partition(&self, vars: &FastbootVars) -> (r: Result<String, String>)
        ensures
            match self.target {
                ManualTarget::Exact(p) => r matches Ok(s) && s@ == p@,
                ManualTarget::Slotted { base, slot } => match spec_resolve_slot_suffix(slot, vars@) {
                    Some(Ok(suffix)) => r matches Ok(s) && s@ == base@ + seq!['_'] + suffix,
                    _ => r matches Err(m) && m@ == "resolve slot for "@ + base@,
                },
            },
    {
        match &self.target {
            ManualTarget::Exact(p) => Ok(p.clone()),
            ManualTarget::Slotted { base, slot } => match resolve_slot_suffix(*slot, vars) {
                Ok(suffix) => Ok(partition_with_slot(base.as_str(), suffix.as_str())),
                Err(_) => Err(concat("resolve slot for ", base.as_str())),
            },
        }
    }
}

/// The bytes of manual flashes.
pub open spec fn manual_bytes(actions: Seq<ManualFlashAction>) -> int
    decreases actions.len(),
{
    if actions.len() == 0 {
        0
    } else {
        manual_bytes(actions.drop_last()) + actions.last().size
    }
}

/// The summary table of manual flashes: the mode, the flashes, no wipe and
/// no skip, and their bytes.
pub open spec fn manual_plan_table(actions: Seq<ManualFlashAction>) -> Seq<(Seq<char>, Seq<char>)> {
    seq![
        ("Mode"@, "manual"@),
        ("Flash"@, dec_str(actions.len())),
        ("Wipe"@, "0"@),
        ("Skipped"@, "0"@),
        ("Bytes"@, human_bytes_text(manual_bytes(actions) as u64)),
    ]
}

/// The summary table of manual flashes, whose bytes fit in 64 bits.
pub fn manual_plan_rows(actions: &[ManualFlashAction]) -> (rows: Vec<(String, String)>)
    requires
        manual_bytes(actions@) <= u64::MAX,
    ensures
        rows_view(rows@) == manual_plan_table(actions@),
{
    let mut total: u64 = 0;
    let mut i: usize = 0;
    while i < actions.len()
        invariant
            0 <= i <= actions@.len(),
            manual_bytes(actions@) <= u64::MAX,
            total == manual_bytes(actions@.take(i as int)),
        decreases actions@.len() - i,
    {
        proof {
            assert(actions@.take(i + 1).drop_last() =~= actions@.take(i as int));
            lemma_manual_bytes_prefix(actions@, i + 1);
        }
        total = total + actions[i].size;
        i = i + 1;
    }
    assert(actions@.take(i as int) =~= actions@);
    let mut rows: Vec<(String, String)> = Vec::new();
    rows.push((owned("Mode"), owned("manual")));
    rows.push((owned("Flash"), format_u64(actions.len() as u64)));
    rows.push((owned("Wipe"), owned("0")));
    rows.push((owned("Skipped"), owned("0")));
    rows.push((owned("Bytes"), human_bytes(total)));
    assert(rows_view(rows@) =~= manual_plan_table(actions@));
    rows
}

proof fn lemma_manual_bytes_prefix(actions: Seq<ManualFlashAction>, i: int)
    requires
        0 <= i <= actions.len(),
    ensures
        manual_bytes(actions.take(i)) <= manual_bytes(actions),
    decreases actions.len() - i,
{
    if i < actions.len() {
        lemma_manual_bytes_prefix(actions, i + 1);
        assert(actions.take(i + 1).drop_last() =~= actions.take(i));
    } else {
        assert(actions.take(i) =~= actions);
    }
}

/// A manual plan's listing line for flash number `index`:
/// `<index + 1>. flash <partition> (<size>) - <image>`.
pub open spec fn manual_line_text(index: nat, a: ManualFlashAction) -> Seq<char> {
    dec_str(index + 1) + ". flash "@ + a.partition@ + " ("@ + human_bytes_text(a.size) + ") - "@ + a.image@
}

/// A manual plan's listing line.
pub fn manual_plan_line(index: usize, action: &ManualFlashAction) -> (s: String)
    requires
        index < usize::MAX,
    ensures
        s@ == manual_line_text(index as nat, *action),
{
    let n = format_u64((index + 1) as u64);
    let a = concat(n.as_str(), ". flash ");
    let b = concat(a.as_str(), action.partition.as_str());
    let c = concat(b.as_str(), " (");
    let h = human_bytes(action.size);
    let d = concat(c.as_str(), h.as_str());
    let e = concat(d.as_str(), ") - ");
    concat(e.as_str(), action.image.as_str())
}

} // verus!
