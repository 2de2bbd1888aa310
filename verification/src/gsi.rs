//! Flashing a Generic System Image: the fastboot modes, the steps and events
//! of the flow, the plan of its phases, partition resolution and the
//! bookkeeping of what was flashed and wiped.

use vstd::prelude::*;
use crate::device::{resolve_max_download_size_from_vars, MaxDownloadSizeError};
use crate::format::{OptionalEraseOutcome, UserdataInfo, WipeDataOptions};
use crate::protocol::spec_parse_u32;
use crate::text::{
    concat, eq_ignore_ascii_case, has_prefix, lower_ascii_seq, owned, str_eq, strip_prefix, to_ascii_lowercase, trim,
    trimmed,
};
use crate::vars::FastbootVars;
use crate::image::{image_layout, image_supported, prepared_ok, raw_plan_ok, prepare_image, ImageKind, ImageLayout, ImagePreparationError, PreparedImage};
use crate::split::spec_split_image;

verus! {

/// Size in bytes of the product_gsi fallback image.
pub const PRODUCT_GSI_SIZE_BYTES: u64 = 335872;
/// Block size of the product_gsi image.
pub const PRODUCT_GSI_BLOCK_SIZE: u64 = 4096;
/// Number of blocks of the product_gsi image.
pub const PRODUCT_GSI_BLOCKS: u64 = 82;
/// Seconds a mode transition may take.
pub const MODE_TRANSITION_TIMEOUT_SECS: u64 = 120;
/// Attempts at reading a device's variables after a reboot.
pub const MODE_WAIT_ATTEMPTS: usize = 20;
/// Milliseconds between those attempts.
pub const MODE_WAIT_DELAY_MS: u64 = 250;
/// Reboots tried to reach a mode.
pub const MODE_TRANSITION_ATTEMPTS: usize = 2;

/// The label of the product_gsi filesystem.
pub fn product_gsi_label() -> (s: &'static str)
    ensures
        s@ == "product"@,
{
    "product"
}

/// The UUID of the product_gsi filesystem.
pub fn product_gsi_uuid() -> (s: &'static str)
    ensures
        s@ == "cdd462dd-8dd0-4006-8a5a-94e5a70c2bc3"@,
{
    "cdd462dd-8dd0-4006-8a5a-94e5a70c2bc3"
}

/// The fastboot mode a device is in.
#[derive(Clone, Copy, Debug, PartialEq, Eq, Structural)]
pub enum FastbootMode {
    /// The bootloader's fastboot.
    Bootloader,
    /// Userspace fastboot.
    Fastbootd,
}

impl FastbootMode {
    /// The mode's name.
    pub fn as_str(self) -> (s: &'static str)
        ensures
            self == FastbootMode::Bootloader ==> s@ == "bootloader"@,
            self == FastbootMode::Fastbootd ==> s@ == "fastbootd"@,
    {
        match self {
            FastbootMode::Bootloader => "bootloader",
            FastbootMode::Fastbootd => "fastbootd",
        }
    }
}

/// A step of the GSI flow.
#[derive(Clone, Copy, Debug, PartialEq, Eq, Structural)]
pub enum GsiStep {
    /// Rebooting into the bootloader.
    RebootingToBootloader,
    /// Rebooting into fastbootd.
    RebootingToFastbootd,
    /// Preparing the vbmeta flash.
    PreparingVbmetaFlash,
    /// Flashing vbmeta.
    FlashingVbmeta,
    /// Checking the system partition.
    CheckingSystemPartition,
    /// Checking whether product_gsi is needed.
    CheckingProductGsiFallback,
    /// Generating the product_gsi image.
    GeneratingProductGsiImage,
    /// Flashing product_gsi.
    FlashingProductGsi,
    /// product_gsi is not needed.
    ProductGsiFallbackNotNeeded,
    /// Flashing the system GSI.
    FlashingSystemGsi,
    /// Wiping userdata.
    WipingUserdata,
    /// Starting the bootloader phase.
    StartingBootloaderPhase,
    /// Starting the fastbootd phase.
    StartingFastbootdPhase,
    /// The flow is complete.
    GsiFlowComplete,
}

impl GsiStep {
    /// The step's label.
    pub fn as_str(self) -> (s: &'static str)
        ensures
            self == GsiStep::RebootingToBootloader ==> s@ == "rebooting to bootloader"@,
            self == GsiStep::RebootingToFastbootd ==> s@ == "rebooting to fastbootd"@,
            self == GsiStep::PreparingVbmetaFlash ==> s@ == "preparing vbmeta flash"@,
            self == GsiStep::FlashingVbmeta ==> s@ == "flashing vbmeta"@,
            self == GsiStep::CheckingSystemPartition ==> s@ == "checking system partition"@,
            self == GsiStep::CheckingProductGsiFallback ==> s@ == "checking product_gsi fallback"@,
            self == GsiStep::GeneratingProductGsiImage ==> s@ == "generating product_gsi image"@,
            self == GsiStep::FlashingProductGsi ==> s@ == "flashing product_gsi"@,
            self == GsiStep::ProductGsiFallbackNotNeeded ==> s@ == "product_gsi fallback not needed"@,
            self == GsiStep::FlashingSystemGsi ==> s@ == "flashing system GSI"@,
            self == GsiStep::WipingUserdata ==> s@ == "wiping userdata"@,
            self == GsiStep::StartingBootloaderPhase ==> s@ == "starting bootloader phase"@,
            self == GsiStep::StartingFastbootdPhase ==> s@ == "starting fastbootd phase"@,
            self == GsiStep::GsiFlowComplete ==> s@ == "gsi flow complete"@,
    {
        match self {
            GsiStep::RebootingToBootloader => "rebooting to bootloader",
            GsiStep::RebootingToFastbootd => "rebooting to fastbootd",
            GsiStep::PreparingVbmetaFlash => "preparing vbmeta flash",
            GsiStep::FlashingVbmeta => "flashing vbmeta",
            GsiStep::CheckingSystemPartition => "checking system partition",
            GsiStep::CheckingProductGsiFallback => "checking product_gsi fallback",
            GsiStep::GeneratingProductGsiImage => "generating product_gsi image",
            GsiStep::FlashingProductGsi => "flashing product_gsi",
            GsiStep::ProductGsiFallbackNotNeeded => "product_gsi fallback not needed",
            GsiStep::FlashingSystemGsi => "flashing system GSI",
            GsiStep::WipingUserdata => "wiping userdata",
            GsiStep::StartingBootloaderPhase => "starting bootloader phase",
            GsiStep::StartingFastbootdPhase => "starting fastbootd phase",
            GsiStep::GsiFlowComplete => "gsi flow complete",
        }
    }
}

/// An event of the GSI flow.
#[derive(Clone, Debug, PartialEq, Eq)]
pub enum GsiEvent {
    /// A step.
    Step(GsiStep),
    /// The mode the device was found in.
    ModeDetected(FastbootMode),
    /// The device is in the mode asked for.
    ModeReady(FastbootMode),
    /// Userdata was erased because no image could be built.
    UserdataEraseFallback {
        /// The filesystem type.
        fs_type: String,
    },
    /// A partition was resolved.
    ResolvedPartition {
        /// Base name.
        base: &'static str,
        /// Resolved name.
        partition: String,
        /// Size in bytes.
        size_bytes: u64,
    },
    /// A flash is starting.
    Flashing {
        /// Partition.
        partition: String,
        /// Image path.
        image: String,
        /// Bytes.
        size_bytes: u64,
    },
    /// Flash progress.
    FlashProgress {
        /// Partition.
        partition: String,
        /// Bytes done.
        bytes: u64,
        /// Bytes in all.
        total_bytes: u64,
        /// Bytes per second.
        speed_bps: u64,
    },
    /// A flash finished.
    FlashFinished {
        /// Partition.
        partition: String,
        /// Bytes.
        size_bytes: u64,
    },
    /// An erase is starting.
    Erasing {
        /// Partition.
        partition: &'static str,
    },
    /// An erase finished.
    EraseFinished {
        /// Partition.
        partition: &'static str,
    },
    /// A partition was skipped.
    PartitionSkipped {
        /// Partition.
        partition: &'static str,
        /// Why.
        reason: String,
    },
}

/// Options of the GSI flow.
#[derive(Clone, Copy, Debug, PartialEq, Eq, Structural)]
pub struct GsiFlashOptions {
    /// How userdata is wiped.
    pub wipe_data: WipeDataOptions,
}

/// Counts and bytes of a GSI flow.
#[derive(Clone, Copy, Debug, PartialEq, Eq, Structural)]
pub struct GsiFlashSummary {
    /// Partitions flashed.
    pub flash_count: usize,
    /// Partitions wiped.
    pub wipe_count: usize,
    /// Partitions skipped.
    pub skipped_count: usize,
    /// Bytes, saturating.
    pub total_bytes: u64,
}

impl GsiFlashSummary {
    /// Nothing done yet.
    pub fn new() -> (s: GsiFlashSummary)
        ensures
            s == (GsiFlashSummary { flash_count: 0, wipe_count: 0, skipped_count: 0, total_bytes: 0 }),
    {
        GsiFlashSummary { flash_count: 0, wipe_count: 0, skipped_count: 0, total_bytes: 0 }
    }
}

/// The plan of a GSI flow, before it runs.
#[derive(Clone, Copy, Debug, PartialEq, Eq, Structural)]
pub struct GsiExecutionPlan {
    /// What the flow is expected to do.
    pub summary: GsiFlashSummary,
    /// The mode it starts in.
    pub start_mode: FastbootMode,
    /// Whether product_gsi is needed, where known.
    pub needs_product_gsi: Option<bool>,
}

/// How the product_gsi image is made.
#[derive(Clone, Copy, Debug, PartialEq, Eq)]
pub struct FixedProductGsiSpec {
    /// Size in bytes.
    pub size_bytes: u64,
    /// Block size.
    pub block_size: u64,
    /// Blocks.
    pub blocks: u64,
    /// Filesystem label.
    pub label: &'static str,
    /// Filesystem UUID.
    pub uuid: &'static str,
}

/// The product_gsi recipe.
pub fn fixed_product_gsi_spec() -> (s: FixedProductGsiSpec)
    ensures
        s.size_bytes == PRODUCT_GSI_SIZE_BYTES,
        s.block_size == PRODUCT_GSI_BLOCK_SIZE,
        s.blocks == PRODUCT_GSI_BLOCKS,
        s.label@ == "product"@,
        s.uuid@ == "cdd462dd-8dd0-4006-8a5a-94e5a70c2bc3"@,
        s.block_size * s.blocks == s.size_bytes,
{
    FixedProductGsiSpec {
        size_bytes: PRODUCT_GSI_SIZE_BYTES,
        block_size: PRODUCT_GSI_BLOCK_SIZE,
        blocks: PRODUCT_GSI_BLOCKS,
        label: product_gsi_label(),
        uuid: product_gsi_uuid(),
    }
}

/// Whether a list holds a string with the text `s`.
pub open spec fn holds(v: Seq<String>, s: Seq<char>) -> bool {
    exists|i: int| 0 <= i < v.len() && #[trigger] v[i]@ == s
}

/// Whether a list holds a string with the text `s`.
pub fn contains_string(v: &[String], s: &str) -> (b: bool)
    ensures
        b == holds(v@, s@),
{
    let key = owned(s);
    let mut i: usize = 0;
    while i < v.len()
        invariant
            key@ == s@,
            0 <= i <= v@.len(),
            forall|k: int| 0 <= k < i ==> #[trigger] v@[k]@ != s@,
        decreases v@.len() - i,
    {
        if v[i] == key {
            return true;
        }
        i = i + 1;
    }
    false
}

/// The partition a base name resolves to: the active slot's partition where
/// the device has it, else the unsuffixed one, else none.
pub fn resolve_target_partition(base: &str, current_slot: &str, available: &[String]) -> (r: Result<String, String>)
    ensures
        holds(available@, base@ + seq!['_'] + current_slot@) ==> (r matches Ok(p) && p@ == base@ + seq!['_'] + current_slot@),
        !holds(available@, base@ + seq!['_'] + current_slot@) && holds(available@, base@) ==> (r matches Ok(p) && p@ == base@),
        !holds(available@, base@ + seq!['_'] + current_slot@) && !holds(available@, base@) ==> (r matches Err(m)
            && m@ == "missing fastboot partition for `"@ + base@ + "` on slot `"@ + current_slot@ + "`"@),
{
    let active = crate::operation::partition_with_slot(base, current_slot);
    if contains_string(available, active.as_str()) {
        return Ok(active);
    }
    if contains_string(available, base) {
        return Ok(owned(base));
    }
    let a = concat("missing fastboot partition for `", base);
    let b = concat(a.as_str(), "` on slot `");
    let c = concat(b.as_str(), current_slot);
    Err(concat(c.as_str(), "`"))
}

/// Whether the product_gsi fallback is needed: the GSI is larger than the
/// system partition.
pub fn should_flash_product_gsi(system_partition_size: u64, gsi_expanded_size: u64) -> (b: bool)
    ensures
        b == (gsi_expanded_size > system_partition_size),
{
    gsi_expanded_size > system_partition_size
}

/// `a + b`, saturating at `u64::MAX`.
pub open spec fn sat_add(a: int, b: int) -> int {
    if a + b > u64::MAX {
        u64::MAX as int
    } else {
        a + b
    }
}

fn add_sat(a: u64, b: u64) -> (r: u64)
    ensures
        r == sat_add(a as int, b as int),
{
    match a.checked_add(b) {
        Some(v) => v,
        None => u64::MAX,
    }
}

/// The summary a GSI flow is expected to end with: vbmeta and system
/// flashed, userdata wiped (counted as one byte), metadata and cache wiped
/// as asked (one byte each), and product_gsi flashed where needed.
pub open spec fn planned_summary(image_size: u64, vbmeta_size: u64, wipe: WipeDataOptions, needs_product_gsi: Option<bool>) -> GsiFlashSummary {
    let t0 = sat_add(sat_add(image_size as int, vbmeta_size as int), 1);
    let t1 = if wipe.erase_metadata { sat_add(t0, 1) } else { t0 };
    let t2 = if wipe.erase_cache { sat_add(t1, 1) } else { t1 };
    let t3 = if needs_product_gsi == Some(true) { sat_add(t2, PRODUCT_GSI_SIZE_BYTES as int) } else { t2 };
    GsiFlashSummary {
        flash_count: if needs_product_gsi == Some(true) { 3 } else { 2 },
        wipe_count: (1 + (if wipe.erase_metadata { 1int } else { 0 }) + (if wipe.erase_cache { 1int } else { 0 })) as usize,
        skipped_count: 0,
        total_bytes: t3 as u64,
    }
}

/// The plan of a GSI flow.
pub fn build_gsi_execution_plan(
    start_mode: FastbootMode,
    image_size: u64,
    vbmeta_size: u64,
    userdata: &UserdataInfo,
    options: &GsiFlashOptions,
    needs_product_gsi: Option<bool>,
) -> (p: GsiExecutionPlan)
    ensures
        p.start_mode == start_mode,
        p.needs_product_gsi == needs_product_gsi,
        p.summary == planned_summary(image_size, vbmeta_size, options.wipe_data, needs_product_gsi),
{
    let userdata_bytes: u64 = 1;
    let mut summary = GsiFlashSummary {
        flash_count: 2,
        wipe_count: 1,
        skipped_count: 0,
        total_bytes: add_sat(add_sat(image_size, vbmeta_size), userdata_bytes),
    };
    if options.wipe_data.erase_metadata {
        summary.wipe_count = summary.wipe_count + 1;
        summary.total_bytes = add_sat(summary.total_bytes, 1);
    }
    if options.wipe_data.erase_cache {
        summary.wipe_count = summary.wipe_count + 1;
        summary.total_bytes = add_sat(summary.total_bytes, 1);
    }
    if needs_product_gsi == Some(true) {
        summary.flash_count = summary.flash_count + 1;
        summary.total_bytes = add_sat(summary.total_bytes, PRODUCT_GSI_SIZE_BYTES);
    }
    GsiExecutionPlan { summary, start_mode, needs_product_gsi }
}

/// The mode the variables say a device is in: fastbootd where
/// `is-userspace` is exactly `yes`.
pub open spec fn spec_detect_mode(vars: Map<Seq<char>, Seq<char>>) -> FastbootMode {
    if vars.dom().contains("is-userspace"@) && vars["is-userspace"@] == "yes"@ {
        FastbootMode::Fastbootd
    } else {
        FastbootMode::Bootloader
    }
}

/// The mode a device is in, from its variables.
pub fn detect_fastboot_mode(vars: &FastbootVars) -> (m: FastbootMode)
    ensures
        m == spec_detect_mode(vars@),
{
    match vars.get("is-userspace") {
        Some(v) => if str_eq(v.as_str(), "yes") {
            FastbootMode::Fastbootd
        } else {
            FastbootMode::Bootloader
        },
        None => FastbootMode::Bootloader,
    }
}

/// A slot value as `a` or `b`: trimmed and in small letters; anything else
/// is none.
pub fn normalize_slot(slot: Option<&String>) -> (r: Option<String>)
    ensures
        match slot {
            None => r is None,
            Some(s) => if lower_ascii_seq(trimmed(s@)) == "a"@ || lower_ascii_seq(trimmed(s@)) == "b"@ {
                r matches Some(t) && t@ == lower_ascii_seq(trimmed(s@))
            } else {
                r is None
            },
        },
{
    match slot {
        None => None,
        Some(s) => {
            let t = trim(s.as_str());
            let value = to_ascii_lowercase(t.as_str());
            if str_eq(value.as_str(), "a") || str_eq(value.as_str(), "b") {
                Some(value)
            } else {
                None
            }
        },
    }
}

/// The name of the variable with a partition's size.
pub fn partition_var_name(partition: &str) -> (s: String)
    ensures
        s@ == "partition-size:"@ + partition@,
{
    concat("partition-size:", partition)
}

/// Reading a GSI image's layout failed: the image, and why.
#[derive(Clone, Debug, PartialEq, Eq)]
pub struct GsiImageError {
    /// The image's path.
    pub path: String,
    /// Why planning its downloads failed.
    pub error: ImagePreparationError,
}

impl GsiImageError {
    /// `inspect GSI image <path>`: what failed, naming the image.
    pub fn message(&self) -> (m: String)
        ensures
            m@ == "inspect GSI image "@ + self.path@,
    {
        concat("inspect GSI image ", self.path.as_str())
    }
}

/// Reads a GSI image's layout: its download plan with no download limit,
/// which gives its expanded size. A failure names the image and carries
/// the planning error.
pub fn inspect_gsi_image(path: &str, image: &[u8]) -> (r: Result<PreparedImage, GsiImageError>)
    requires
        image_supported(image@),
    ensures
        prepared_ok(path@, image@, u32::MAX, match r {
            Ok(p) => Ok(p),
            Err(e) => Err(e.error),
        }),
        r matches Err(e) ==> e.path@ == path@,
{
    match prepare_image(path, image, u32::MAX) {
        Ok(p) => Ok(p),
        Err(error) => Err(GsiImageError { path: owned(path), error }),
    }
}

/// The partitions whose size is asked for, in order, when resolving `base`:
/// the slotted name for the current slot where there is one, then `base`.
pub open spec fn spec_partition_candidates(base: Seq<char>, current_slot: Option<Seq<char>>) -> Seq<Seq<char>> {
    match current_slot {
        Some(slot) => seq![base + "_"@ + slot, base],
        None => seq![base],
    }
}

/// The partitions whose size is asked for when resolving `base`.
pub fn partition_candidates(base: &str, current_slot: Option<&str>) -> (v: Vec<String>)
    ensures
        v@.map_values(|s: String| s@) == spec_partition_candidates(base@, match current_slot {
            Some(s) => Some(s@),
            None => None,
        }),
{
    let mut v: Vec<String> = Vec::new();
    match current_slot {
        Some(slot) => {
            let with_sep = concat(base, "_");
            v.push(concat(with_sep.as_str(), slot));
            v.push(owned(base));
        },
        None => {
            v.push(owned(base));
        },
    }
    assert(v@.map_values(|s: String| s@) =~= spec_partition_candidates(base@, match current_slot {
        Some(s) => Some(s@),
        None => None,
    }));
    v
}

/// The partitions the variables report sizes of.
pub fn available_partitions(vars: &FastbootVars) -> (r: Vec<String>)
    ensures
        forall|p: Seq<char>| holds(r@, p) <==> vars@.dom().contains("partition-size:"@ + p),
{
    let pairs = vars.pairs();
    let mut out: Vec<String> = Vec::new();
    let mut i: usize = 0;
    proof {
        reveal_strlit("partition-size:");
    }
    while i < pairs.len()
        invariant
            0 <= i <= pairs@.len(),
            pairs@.len() == vars@.dom().len(),
            forall|k: int| 0 <= k < pairs@.len() ==> vars@.dom().contains(#[trigger] pairs@[k].0@) && vars@[pairs@[k].0@] == pairs@[k].1@,
            forall|key: Seq<char>| #[trigger] vars@.dom().contains(key) ==> exists|j: int| 0 <= j < pairs@.len() && #[trigger] pairs@[j].0@ == key,
            forall|p: Seq<char>| holds(out@, p) ==> vars@.dom().contains("partition-size:"@ + p),
            forall|k: int| 0 <= k < i && has_prefix(#[trigger] pairs@[k].0@, "partition-size:"@) ==> holds(out@, pairs@[k].0@.skip(15)),
        decreases pairs@.len() - i,
    {
        let ghost before = out@;
        match strip_prefix(pairs[i].0.as_str(), "partition-size:") {
            Some(name) => {
                proof {
                    assert("partition-size:"@ + name@ =~= pairs@[i as int].0@);
                }
                out.push(name);
                proof {
                    assert forall|p: Seq<char>| holds(out@, p) implies vars@.dom().contains("partition-size:"@ + p) by {
                        let j = choose|j: int| 0 <= j < out@.len() && #[trigger] out@[j]@ == p;
                        if j < before.len() {
                            assert(before[j] == out@[j]);
                            assert(holds(before, p));
                        }
                    }
                    assert forall|k: int| 0 <= k < i + 1 && has_prefix(#[trigger] pairs@[k].0@, "partition-size:"@) implies holds(out@, pairs@[k].0@.skip(15)) by {
                        if k < i {
                            let j = choose|j: int| 0 <= j < before.len() && #[trigger] before[j]@ == pairs@[k].0@.skip(15);
                            assert(out@[j] == before[j]);
                        } else {
                            reveal_strlit("partition-size:");
                            assert("partition-size:"@.len() == 15);
                            assert(k == i);
                            assert(out@[before.len() as int] == name);
                            assert(out@[before.len() as int]@ == pairs@[k].0@.skip(15));
                        }
                    }
                }
            },
            None => {},
        }
        i = i + 1;
    }
    proof {
        assert forall|p: Seq<char>| vars@.dom().contains("partition-size:"@ + p) implies holds(out@, p) by {
            let key = "partition-size:"@ + p;
            let k = choose|k: int| 0 <= k < pairs@.len() && #[trigger] pairs@[k].0@ == key;
            assert(key.take(15) =~= "partition-size:"@);
            assert(key.skip(15) =~= p);
        }
    }
    out
}

/// The download limit of the device in a mode, from its variables.
pub fn resolve_fastboot_capabilities(vars: &FastbootVars) -> (r: Result<u32, MaxDownloadSizeError>)
    ensures
        !vars@.dom().contains("max-download-size"@) ==> r == Err::<u32, MaxDownloadSizeError>(MaxDownloadSizeError::Missing),
        vars@.dom().contains("max-download-size"@) ==> match spec_parse_u32(vars@["max-download-size"@]) {
            None => r matches Err(MaxDownloadSizeError::Invalid(v)) && v@ == vars@["max-download-size"@],
            Some(n) => if n == 0 {
                r == Err::<u32, MaxDownloadSizeError>(MaxDownloadSizeError::Zero)
            } else {
                r == Ok::<u32, MaxDownloadSizeError>(n as u32)
            },
        },
{
    resolve_max_download_size_from_vars(vars)
}

/// A phase of the GSI flow.
#[derive(Clone, Copy, Debug, PartialEq, Eq, Structural)]
pub enum GsiPhase {
    /// Report a step.
    Report(GsiStep),
    /// Flash the empty vbmeta image.
    FlashVbmeta,
    /// Wipe userdata, then metadata and cache as asked.
    WipeUserdata,
    /// Reboot into a mode and wait for it.
    TransitionTo(FastbootMode),
    /// Flash the system GSI, with product_gsi where needed.
    FlashSystemGsi,
    /// Report that the device is in a mode.
    ReportModeReady(FastbootMode),
}

/// The phases of a GSI flow from the mode it starts in: vbmeta and wiping
/// in the bootloader, the system in fastbootd, ending in fastbootd.
pub open spec fn spec_gsi_phases(start: FastbootMode) -> Seq<GsiPhase> {
    match start {
        FastbootMode::Bootloader => seq![
            GsiPhase::Report(GsiStep::StartingBootloaderPhase),
            GsiPhase::FlashVbmeta,
            GsiPhase::WipeUserdata,
            GsiPhase::TransitionTo(FastbootMode::Fastbootd),
            GsiPhase::FlashSystemGsi,
            GsiPhase::Report(GsiStep::GsiFlowComplete),
            GsiPhase::ReportModeReady(FastbootMode::Fastbootd),
        ],
        FastbootMode::Fastbootd => seq![
            GsiPhase::Report(GsiStep::StartingFastbootdPhase),
            GsiPhase::FlashSystemGsi,
            GsiPhase::TransitionTo(FastbootMode::Bootloader),
            GsiPhase::FlashVbmeta,
            GsiPhase::WipeUserdata,
            GsiPhase::TransitionTo(FastbootMode::Fastbootd),
            GsiPhase::Report(GsiStep::GsiFlowComplete),
            GsiPhase::ReportModeReady(FastbootMode::Fastbootd),
        ],
    }
}

/// The phases of a GSI flow from the mode it starts in.
pub fn gsi_phases(start: FastbootMode) -> (v: Vec<GsiPhase>)
    ensures
        v@ == spec_gsi_phases(start),
{
    let mut v: Vec<GsiPhase> = Vec::new();
    match start {
        FastbootMode::Bootloader => {
            v.push(GsiPhase::Report(GsiStep::StartingBootloaderPhase));
            v.push(GsiPhase::FlashVbmeta);
            v.push(GsiPhase::WipeUserdata);
            v.push(GsiPhase::TransitionTo(FastbootMode::Fastbootd));
            v.push(GsiPhase::FlashSystemGsi);
        },
        FastbootMode::Fastbootd => {
            v.push(GsiPhase::Report(GsiStep::StartingFastbootdPhase));
            v.push(GsiPhase::FlashSystemGsi);
            v.push(GsiPhase::TransitionTo(FastbootMode::Bootloader));
            v.push(GsiPhase::FlashVbmeta);
            v.push(GsiPhase::WipeUserdata);
            v.push(GsiPhase::TransitionTo(FastbootMode::Fastbootd));
        },
    }
    v.push(GsiPhase::Report(GsiStep::GsiFlowComplete));
    v.push(GsiPhase::ReportModeReady(FastbootMode::Fastbootd));
    assert(v@ =~= spec_gsi_phases(start));
    v
}

/// The mode a device is in after the first `k` phases, from `start`.
pub open spec fn mode_after(phases: Seq<GsiPhase>, start: FastbootMode, k: int) -> FastbootMode
    decreases k,
{
    if k <= 0 {
        start
    } else {
        match phases[k - 1] {
            GsiPhase::TransitionTo(m) => m,
            _ => mode_after(phases, start, k - 1),
        }
    }
}

/// Number of phases equal to `p`.
pub open spec fn count_phase(phases: Seq<GsiPhase>, p: GsiPhase) -> nat
    decreases phases.len(),
{
    if phases.len() == 0 {
        0
    } else {
        count_phase(phases.drop_last(), p) + if phases.last() == p { 1nat } else { 0nat }
    }
}

/// The GSI flow, from either mode, flashes vbmeta once and wipes userdata
/// once, both in the bootloader; flashes the system once, in fastbootd; and
/// leaves the device in fastbootd.
pub proof fn lemma_gsi_phases_sound(start: FastbootMode)
    ensures
        count_phase(spec_gsi_phases(start), GsiPhase::FlashVbmeta) == 1,
        count_phase(spec_gsi_phases(start), GsiPhase::WipeUserdata) == 1,
        count_phase(spec_gsi_phases(start), GsiPhase::FlashSystemGsi) == 1,
        forall|k: int| 0 <= k < spec_gsi_phases(start).len() ==> (spec_gsi_phases(start)[k] == GsiPhase::FlashVbmeta
            || spec_gsi_phases(start)[k] == GsiPhase::WipeUserdata) ==> mode_after(spec_gsi_phases(start), start, k) == FastbootMode::Bootloader,
        forall|k: int| 0 <= k < spec_gsi_phases(start).len() ==> spec_gsi_phases(start)[k] == GsiPhase::FlashSystemGsi
            ==> mode_after(spec_gsi_phases(start), start, k) == FastbootMode::Fastbootd,
        mode_after(spec_gsi_phases(start), start, spec_gsi_phases(start).len() as int) == FastbootMode::Fastbootd,
{
    let ph = spec_gsi_phases(start);
    reveal_with_fuel(count_phase, 9);
    reveal_with_fuel(mode_after, 9);
    match start {
        FastbootMode::Bootloader => {
            assert(ph.drop_last() =~= ph.take(6));
            assert(ph.take(6).drop_last() =~= ph.take(5));
            assert(ph.take(5).drop_last() =~= ph.take(4));
            assert(ph.take(4).drop_last() =~= ph.take(3));
            assert(ph.take(3).drop_last() =~= ph.take(2));
            assert(ph.take(2).drop_last() =~= ph.take(1));
            assert(ph.take(1).drop_last() =~= ph.take(0));
        },
        FastbootMode::Fastbootd => {
            assert(ph.drop_last() =~= ph.take(7));
            assert(ph.take(7).drop_last() =~= ph.take(6));
            assert(ph.take(6).drop_last() =~= ph.take(5));
            assert(ph.take(5).drop_last() =~= ph.take(4));
            assert(ph.take(4).drop_last() =~= ph.take(3));
            assert(ph.take(3).drop_last() =~= ph.take(2));
            assert(ph.take(2).drop_last() =~= ph.take(1));
            assert(ph.take(1).drop_last() =~= ph.take(0));
        },
    }
}

/// What to do in a mode transition.
#[derive(Clone, Copy, Debug, PartialEq, Eq, Structural)]
pub enum TransitionAction {
    /// The device is in the target mode.
    Ready,
    /// Reboot into the target mode and wait.
    Reboot(FastbootMode),
    /// Give up: the device did not switch.
    GiveUp,
}

/// The next transition action: ready where the device is in the target
/// mode, else reboot while reboots remain.
pub fn transition_action(current: FastbootMode, target: FastbootMode, reboots_done: usize) -> (a: TransitionAction)
    ensures
        current == target ==> a == TransitionAction::Ready,
        current != target && reboots_done < MODE_TRANSITION_ATTEMPTS ==> a == TransitionAction::Reboot(target),
        current != target && reboots_done >= MODE_TRANSITION_ATTEMPTS ==> a == TransitionAction::GiveUp,
{
    if current == target {
        TransitionAction::Ready
    } else if reboots_done < MODE_TRANSITION_ATTEMPTS {
        TransitionAction::Reboot(target)
    } else {
        TransitionAction::GiveUp
    }
}

/// The step reported when rebooting into a mode.
pub fn reboot_step(target: FastbootMode) -> (s: GsiStep)
    ensures
        target == FastbootMode::Bootloader ==> s == GsiStep::RebootingToBootloader,
        target == FastbootMode::Fastbootd ==> s == GsiStep::RebootingToFastbootd,
{
    match target {
        FastbootMode::Bootloader => GsiStep::RebootingToBootloader,
        FastbootMode::Fastbootd => GsiStep::RebootingToFastbootd,
    }
}

/// The message when a device does not switch modes.
pub fn transition_failure_message(target: FastbootMode) -> (s: String)
    ensures
        target == FastbootMode::Bootloader ==> s@ == "GSI flow required "@ + "bootloader"@ + ", but the device did not switch modes after retry"@,
        target == FastbootMode::Fastbootd ==> s@ == "GSI flow required "@ + "fastbootd"@ + ", but the device did not switch modes after retry"@,
{
    let a = concat("GSI flow required ", target.as_str());
    concat(a.as_str(), ", but the device did not switch modes after retry")
}

/// Records a finished flash.
pub fn record_flash(summary: &mut GsiFlashSummary, size_bytes: u64)
    requires
        old(summary).flash_count < usize::MAX,
    ensures
        *final(summary) == (GsiFlashSummary {
            flash_count: (old(summary).flash_count + 1) as usize,
            total_bytes: sat_add(old(summary).total_bytes as int, size_bytes as int) as u64,
            ..*old(summary)
        }),
{
    summary.flash_count = summary.flash_count + 1;
    summary.total_bytes = add_sat(summary.total_bytes, size_bytes);
}

/// Records erasing an optional partition: erased counts as a wipe, refused
/// as skipped; either adds one byte.
pub fn record_optional_erase(summary: &mut GsiFlashSummary, outcome: &OptionalEraseOutcome)
    requires
        old(summary).wipe_count < usize::MAX,
        old(summary).skipped_count < usize::MAX,
    ensures
        outcome is Erased ==> *final(summary) == (GsiFlashSummary {
            wipe_count: (old(summary).wipe_count + 1) as usize,
            total_bytes: sat_add(old(summary).total_bytes as int, 1) as u64,
            ..*old(summary)
        }),
        outcome is Skipped ==> *final(summary) == (GsiFlashSummary {
            skipped_count: (old(summary).skipped_count + 1) as usize,
            total_bytes: sat_add(old(summary).total_bytes as int, 1) as u64,
            ..*old(summary)
        }),
{
    match outcome {
        OptionalEraseOutcome::Erased => {
            summary.wipe_count = summary.wipe_count + 1;
        },
        OptionalEraseOutcome::Skipped { .. } => {
            summary.skipped_count = summary.skipped_count + 1;
        },
    }
    summary.total_bytes = add_sat(summary.total_bytes, 1);
}

/// How userdata is wiped in the GSI flow.
#[derive(Clone, Copy, Debug, PartialEq, Eq, Structural)]
pub enum UserdataWipe {
    /// Flash the built image.
    FlashImage,
    /// Erase userdata instead.
    EraseFallback,
    /// Fail.
    Fail,
}

/// The userdata wipe: flash the built image; where none could be built,
/// erase instead if the fallback was asked for or the partition is raw.
pub fn userdata_wipe(image_built: bool, wipe: &WipeDataOptions, fs_type: &str) -> (w: UserdataWipe)
    ensures
        image_built ==> w == UserdataWipe::FlashImage,
        !image_built && (wipe.erase_fallback || lower_ascii_seq(fs_type@) == lower_ascii_seq("raw"@)) ==> w == UserdataWipe::EraseFallback,
        !image_built && !(wipe.erase_fallback || lower_ascii_seq(fs_type@) == lower_ascii_seq("raw"@)) ==> w == UserdataWipe::Fail,
{
    if image_built {
        UserdataWipe::FlashImage
    } else if wipe.erase_fallback || eq_ignore_ascii_case(fs_type, "raw") {
        UserdataWipe::EraseFallback
    } else {
        UserdataWipe::Fail
    }
}

/// The GSI flow has no dry run: `--dry-run` is refused with this message.
pub fn check_gsi_dry_run(dry_run: bool) -> (r: Result<(), String>)
    ensures
        dry_run ==> (r matches Err(m) && m@ == "--dry-run is not supported for the gsi subcommand"@),
        !dry_run ==> r is Ok,
{
    if dry_run {
        Err(owned("--dry-run is not supported for the gsi subcommand"))
    } else {
        Ok(())
    }
}

/// The message of a mode change that took too long.
pub open spec fn transition_timeout_text() -> Seq<char> {
    "mode transition timed out after 120s"@
}

/// Whether a mode change has taken too long after `elapsed_secs` seconds:
/// the message once [`MODE_TRANSITION_TIMEOUT_SECS`] have passed.
pub fn transition_timed_out(elapsed_secs: u64) -> (r: Option<String>)
    ensures
        elapsed_secs >= MODE_TRANSITION_TIMEOUT_SECS ==> (r matches Some(m) && m@ == transition_timeout_text()),
        elapsed_secs < MODE_TRANSITION_TIMEOUT_SECS ==> r is None,
{
    if elapsed_secs >= MODE_TRANSITION_TIMEOUT_SECS {
        Some(owned("mode transition timed out after 120s"))
    } else {
        None
    }
}

} // verus!
