//! Device-independent fastboot operations: flash and erase plans, the
//! protocol steps they turn into, and slot resolution from device variables.

use vstd::prelude::*;
use crate::image::{ImageSource, ImageTransfer, PreparedImage, transfer_download_size};
use crate::protocol::{parse_u32, spec_parse_u32, FastBootCommand, ParseNumberError};
use crate::text::{
    concat, is_single_char_ignoring_ascii_case, lower_ascii_seq, lowercase_text, owned,
    strip_underscores, to_lowercase, trim, trim_start_underscores, trimmed,
};
use crate::vars::FastbootVars;

verus! {

/// A partition target: the partition name as fastboot expects it.
#[derive(Clone, Debug, PartialEq, Eq)]
pub struct PartitionTarget {
    /// Partition name as fastboot expects it.
    pub name: String,
}

impl PartitionTarget {
    /// A partition target with exactly this name.
    pub fn exact(name: &str) -> (t: PartitionTarget)
        ensures
            t.name@ == name@,
    {
        PartitionTarget { name: owned(name) }
    }
}

/// A planned operation kind.
#[derive(Clone, Copy, Debug, PartialEq, Eq, Structural)]
pub enum OperationKind {
    /// Download image data, then flash the target partition.
    Flash,
    /// Erase the target partition.
    Erase,
}

/// A device-independent operation.
#[derive(Clone, Debug, PartialEq, Eq)]
pub struct PlannedOperation {
    /// Operation kind.
    pub kind: OperationKind,
    /// Target partition.
    pub target: PartitionTarget,
    /// Image source for flash operations.
    pub image: Option<ImageSource>,
}

/// A flash operation of the image at `image_path` onto `partition`.
pub fn flash_operation(partition: &str, image_path: &str, partition_size: Option<u64>) -> (op:
    PlannedOperation)
    ensures
        op.kind == OperationKind::Flash,
        op.target.name@ == partition@,
        op.image matches Some(img) && img.path@ == image_path@ && img.partition_size
            == partition_size,
{
    let mut image = ImageSource::new(image_path);
    image.partition_size = partition_size;
    PlannedOperation {
        kind: OperationKind::Flash,
        target: PartitionTarget::exact(partition),
        image: Some(image),
    }
}

/// An erase operation of `partition`.
pub fn erase_operation(partition: &str) -> (op: PlannedOperation)
    ensures
        op.kind == OperationKind::Erase,
        op.target.name@ == partition@,
        op.image is None,
{
    PlannedOperation {
        kind: OperationKind::Erase,
        target: PartitionTarget::exact(partition),
        image: None,
    }
}

/// One fastboot protocol step.
#[derive(Clone, Debug, PartialEq, Eq)]
pub enum OperationStep {
    /// Send `download:` with this byte count.
    Download {
        /// Number of bytes to download.
        bytes: u32,
    },
    /// Send `flash:` for this partition.
    Flash {
        /// Partition name to flash.
        partition: String,
    },
    /// Send `erase:` for this partition.
    Erase {
        /// Partition name to erase.
        partition: String,
    },
}

/// A sequence of fastboot protocol steps.
#[derive(Clone, Debug, PartialEq, Eq)]
pub struct OperationSequence {
    /// Ordered steps.
    pub steps: Vec<OperationStep>,
}

/// Step `k` of flashing `partition` with transfers `ts`: a download of
/// transfer `k / 2` at even `k`, a flash of `partition` at odd `k`.
pub open spec fn flash_step_ok(s: OperationStep, k: int, partition: Seq<char>, ts: Seq<ImageTransfer>) -> bool {
    if k % 2 == 0 {
        s == OperationStep::Download { bytes: transfer_download_size(ts[k / 2]) }
    } else {
        s matches OperationStep::Flash { partition: p } && p@ == partition
    }
}

impl OperationSequence {
    /// The download and flash steps for a prepared image: for each transfer,
    /// a download of its size, then a flash of `partition`.
    pub fn for_prepared_flash(partition: &str, image: &PreparedImage) -> (seq: OperationSequence)
        requires
            image.transfers@.len() * 2 <= usize::MAX,
        ensures
            seq.steps@.len() == 2 * image.transfers@.len(),
            forall|k: int|
                0 <= k < seq.steps@.len() ==> flash_step_ok(
                    #[trigger] seq.steps@[k],
                    k,
                    partition@,
                    image.transfers@,
                ),
    {
        let mut steps: Vec<OperationStep> = Vec::new();
        let mut i: usize = 0;
        while i < image.transfers.len()
            invariant
                0 <= i <= image.transfers@.len(),
                steps@.len() == 2 * i,
                forall|k: int|
                    0 <= k < steps@.len() ==> flash_step_ok(
                        #[trigger] steps@[k],
                        k,
                        partition@,
                        image.transfers@,
                    ),
            decreases image.transfers@.len() - i,
        {
            let bytes = image.transfers[i].download_size();
            steps.push(OperationStep::Download { bytes });
            steps.push(OperationStep::Flash { partition: owned(partition) });
            proof {
                assert forall|k: int| 0 <= k < steps@.len() implies flash_step_ok(
                    #[trigger] steps@[k],
                    k,
                    partition@,
                    image.transfers@,
                ) by {
                    if k == 2 * i {
                        assert(k / 2 == i);
                    }
                }
            }
            i = i + 1;
        }
        OperationSequence { steps }
    }

    /// The erase sequence for a partition: one erase step.
    pub fn for_erase(partition: &str) -> (seq: OperationSequence)
        ensures
            seq.steps@.len() == 1,
            seq.steps@[0] matches OperationStep::Erase { partition: p } && p@ == partition@,
    {
        let mut steps: Vec<OperationStep> = Vec::new();
        steps.push(OperationStep::Erase { partition: owned(partition) });
        OperationSequence { steps }
    }
}

/// A slot selection.
#[derive(Clone, Copy, Debug, PartialEq, Eq, Structural)]
pub enum SlotSelection {
    /// Slot A.
    A,
    /// Slot B.
    B,
    /// The currently active slot.
    Active,
    /// The currently inactive slot.
    Inactive,
}

/// Errors when resolving a slot.
#[derive(Clone, Debug, PartialEq, Eq)]
pub enum SlotResolutionError {
    /// The variables hold no `current-slot`.
    MissingCurrentSlot,
    /// A slot value that is neither `a` nor `b`.
    UnsupportedSlot(String),
}

impl SlotResolutionError {
    /// The error's message.
    pub fn message(&self) -> (s: String)
        ensures
            match self {
                SlotResolutionError::MissingCurrentSlot => s@
                    == "missing current-slot fastboot variable"@,
                SlotResolutionError::UnsupportedSlot(v) => s@ == "unsupported slot value: "@ + v@,
            },
    {
        match self {
            SlotResolutionError::MissingCurrentSlot => owned(
                "missing current-slot fastboot variable",
            ),
            SlotResolutionError::UnsupportedSlot(v) => concat("unsupported slot value: ", v.as_str()),
        }
    }
}

/// Parses the `max-download-size` variable: decimal, or hexadecimal after
/// `0x`.
pub fn parse_max_download_size(value: &str) -> (r: Result<u32, ParseNumberError>)
    ensures
        match spec_parse_u32(value@) {
            Some(n) => r == Ok::<u32, ParseNumberError>(n as u32),
            None => r == Err::<u32, ParseNumberError>(ParseNumberError::Invalid),
        },
{
    parse_u32(value)
}

/// A slot value with surrounding white space and leading `_` removed.
pub open spec fn slot_core(s: Seq<char>) -> Seq<char> {
    strip_underscores(trimmed(s))
}

/// What a slot value names: `a` or `b` in either case, after white space
/// and leading `_` are removed; otherwise the lowercased remainder as the
/// error.
pub open spec fn spec_normalize_slot(s: Seq<char>) -> Result<Seq<char>, Seq<char>> {
    if lower_ascii_seq(slot_core(s)) == seq!['a'] {
        Ok(seq!['a'])
    } else if lower_ascii_seq(slot_core(s)) == seq!['b'] {
        Ok(seq!['b'])
    } else {
        Err(lowercase_text(slot_core(s)))
    }
}

/// The slot a value names, `a` or `b`.
pub fn normalize_slot(slot: &str) -> (r: Result<String, SlotResolutionError>)
    ensures
        match spec_normalize_slot(slot@) {
            Ok(v) => r matches Ok(s) && s@ == v,
            Err(e) => r matches Err(SlotResolutionError::UnsupportedSlot(o)) && o@ == e,
        },
{
    let t = trim(slot);
    let core = trim_start_underscores(t.as_str());
    if is_single_char_ignoring_ascii_case(core.as_str(), 'a') {
        let a = owned("a");
        proof {
            reveal_strlit("a");
        }
        Ok(a)
    } else if is_single_char_ignoring_ascii_case(core.as_str(), 'b') {
        let b = owned("b");
        proof {
            reveal_strlit("b");
        }
        Ok(b)
    } else {
        Err(SlotResolutionError::UnsupportedSlot(to_lowercase(core.as_str())))
    }
}

/// The current slot that the variables name.
pub open spec fn spec_current_slot(vars: Map<Seq<char>, Seq<char>>) -> Option<Result<Seq<char>, Seq<char>>> {
    if vars.dom().contains("current-slot"@) {
        Some(spec_normalize_slot(vars["current-slot"@]))
    } else {
        None
    }
}

/// The current slot, `a` or `b`, from the `current-slot` variable.
pub fn current_slot(vars: &FastbootVars) -> (r: Result<String, SlotResolutionError>)
    ensures
        match spec_current_slot(vars@) {
            None => r == Err::<String, SlotResolutionError>(SlotResolutionError::MissingCurrentSlot),
            Some(Ok(v)) => r matches Ok(s) && s@ == v,
            Some(Err(e)) => r matches Err(SlotResolutionError::UnsupportedSlot(o)) && o@ == e,
        },
{
    match vars.get("current-slot") {
        None => Err(SlotResolutionError::MissingCurrentSlot),
        Some(v) => normalize_slot(v.as_str()),
    }
}

/// The partition suffix a selection resolves to, given the device
/// variables.
pub open spec fn spec_resolve_slot_suffix(
    sel: SlotSelection,
    vars: Map<Seq<char>, Seq<char>>,
) -> Option<Result<Seq<char>, Seq<char>>> {
    match sel {
        SlotSelection::A => Some(Ok(seq!['a'])),
        SlotSelection::B => Some(Ok(seq!['b'])),
        SlotSelection::Active => spec_current_slot(vars),
        SlotSelection::Inactive => match spec_current_slot(vars) {
            Some(Ok(s)) => if s == seq!['a'] {
                Some(Ok(seq!['b']))
            } else {
                Some(Ok(seq!['a']))
            },
            other => other,
        },
    }
}

/// The partition suffix (`a` or `b`) a slot selection resolves to.
pub fn resolve_slot_suffix(selection: SlotSelection, vars: &FastbootVars) -> (r: Result<
    String,
    SlotResolutionError,
>)
    ensures
        match spec_resolve_slot_suffix(selection, vars@) {
            None => r == Err::<String, SlotResolutionError>(SlotResolutionError::MissingCurrentSlot),
            Some(Ok(v)) => r matches Ok(s) && s@ == v,
            Some(Err(e)) => r matches Err(SlotResolutionError::UnsupportedSlot(o)) && o@ == e,
        },
{
    proof {
        reveal_strlit("a");
        reveal_strlit("b");
    }
    match selection {
        SlotSelection::A => Ok(owned("a")),
        SlotSelection::B => Ok(owned("b")),
        SlotSelection::Active => current_slot(vars),
        SlotSelection::Inactive => {
            let active = current_slot(vars)?;
            if active.unicode_len() == 1 && active.get_char(0) == 'a' {
                assert(active@ =~= seq!['a']);
                Ok(owned("b"))
            } else {
                assert(active@ == seq!['a'] || active@ == seq!['b']);
                assert(active@ != seq!['a']) by {
                    if active@ == seq!['a'] {
                        assert(active@[0] == 'a');
                    }
                }
                Ok(owned("a"))
            }
        },
    }
}

/// A slot value normalizes to `a` or `b` or not at all: the one named by
/// its trimmed, underscore-stripped core in either case.
pub proof fn lemma_normalized_slot_is_a_or_b(s: Seq<char>)
    ensures
        spec_normalize_slot(s) matches Ok(v) ==> (v == "a"@ || v == "b"@) && v == lower_ascii_seq(slot_core(s)),
{
    reveal_strlit("a");
    reveal_strlit("b");
    assert("a"@ =~= seq!['a']);
    assert("b"@ =~= seq!['b']);
}

/// Slot resolution: `a` and `b` name themselves; the active slot is the
/// device's current slot; the inactive slot is the other one of `a` and
/// `b` (current `a` gives `b`, current `b` gives `a`), so it never equals
/// the active slot; where the current slot is missing or not a slot, the
/// inactive slot fails exactly as the active one does.
pub proof fn lemma_inactive_is_the_other_slot(vars: Map<Seq<char>, Seq<char>>)
    ensures
        spec_resolve_slot_suffix(SlotSelection::A, vars) == Some(Ok::<Seq<char>, Seq<char>>("a"@)),
        spec_resolve_slot_suffix(SlotSelection::B, vars) == Some(Ok::<Seq<char>, Seq<char>>("b"@)),
        spec_resolve_slot_suffix(SlotSelection::Active, vars) == spec_current_slot(vars),
        spec_current_slot(vars) == Some(Ok::<Seq<char>, Seq<char>>("a"@)) ==> spec_resolve_slot_suffix(
            SlotSelection::Inactive,
            vars,
        ) == Some(Ok::<Seq<char>, Seq<char>>("b"@)),
        spec_current_slot(vars) == Some(Ok::<Seq<char>, Seq<char>>("b"@)) ==> spec_resolve_slot_suffix(
            SlotSelection::Inactive,
            vars,
        ) == Some(Ok::<Seq<char>, Seq<char>>("a"@)),
        spec_resolve_slot_suffix(SlotSelection::Active, vars) matches Some(Ok(cur)) ==> {
            &&& cur == "a"@ || cur == "b"@
            &&& spec_resolve_slot_suffix(SlotSelection::Inactive, vars) matches Some(Ok(other))
            &&& other == "a"@ || other == "b"@
            &&& other != cur
        },
        !(spec_current_slot(vars) matches Some(Ok(_))) ==> spec_resolve_slot_suffix(SlotSelection::Inactive, vars)
            == spec_current_slot(vars),
{
    reveal_strlit("a");
    reveal_strlit("b");
    assert("a"@ =~= seq!['a']);
    assert("b"@ =~= seq!['b']);
    assert("a"@ != "b"@) by {
        assert("a"@[0] != "b"@[0]);
    }
    if vars.dom().contains("current-slot"@) {
        lemma_normalized_slot_is_a_or_b(vars["current-slot"@]);
    }
}

/// A base partition name with a slot suffix: `<base>_<suffix>`.
pub fn partition_with_slot(base: &str, suffix: &str) -> (r: String)
    ensures
        r@ == base@ + seq!['_'] + suffix@,
{
    let head = concat(base, "_");
    proof {
        reveal_strlit("_");
    }
    concat(head.as_str(), suffix)
}

/// The message when a device's download limit is 0.
pub open spec fn zero_download_limit_message(partition: Seq<char>) -> Seq<char> {
    "device reported max-download-size=0, cannot flash "@ + partition
}

/// Refuses to flash a partition when the device's download limit is 0.
pub fn check_download_limit(partition: &str, max_download: u32) -> (r: Result<(), String>)
    ensures
        max_download == 0 ==> (r matches Err(m) && m@ == zero_download_limit_message(partition@)),
        max_download != 0 ==> r is Ok,
{
    if max_download == 0 {
        Err(concat("device reported max-download-size=0, cannot flash ", partition))
    } else {
        Ok(())
    }
}

/// The variable that says whether a partition is logical.
pub fn is_logical_var_name(partition: &str) -> (s: String)
    ensures
        s@ == "is-logical:"@ + partition@,
{
    concat("is-logical:", partition)
}

/// The command sent before flashing a logical partition: resize it to the
/// bytes the image expands to. A physical partition needs none.
pub fn logical_resize_command(partition: &str, image: &PreparedImage, is_logical: bool) -> (c: Option<FastBootCommand>)
    ensures
        is_logical ==> (c matches Some(FastBootCommand::ResizeLogicalPartition { partition: p, size })
            && p@ == partition@ && size == image.expanded_size),
        !is_logical ==> c is None,
{
    if is_logical {
        Some(FastBootCommand::ResizeLogicalPartition { partition: owned(partition), size: image.expanded_size })
    } else {
        None
    }
}

} // verus!
