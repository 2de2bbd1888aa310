//! The desktop front end's decisions: events shown to the user, overall
//! progress, device session policies, force-fastboot sessions, request
//! parsing and labels, and the mapping of GSI flow events to progress.

use vstd::prelude::*;
use crate::cli::{FlashMode, SlotArg};
use crate::format::{FormatTools, HostOs};
use crate::gsi::{FastbootMode, GsiEvent, GsiFlashSummary, GsiStep};
use crate::text::{concat, has_substring, owned, str_eq, contains};
use crate::vars::FastbootVars;

verus! {

/// Whether a device session may be reused.
#[derive(Clone, Copy, Debug, PartialEq, Eq, Structural)]
pub enum DeviceSessionPolicy {
    /// Reuse a connected device.
    ReuseCached,
    /// Connect afresh.
    Fresh,
}

/// Flash runs always connect afresh.
pub fn session_policy_for_flash_run() -> (p: DeviceSessionPolicy)
    ensures
        p == DeviceSessionPolicy::Fresh,
{
    DeviceSessionPolicy::Fresh
}

/// Commands that only read may reuse a connected device.
pub fn session_policy_for_read_only_command() -> (p: DeviceSessionPolicy)
    ensures
        p == DeviceSessionPolicy::ReuseCached,
{
    DeviceSessionPolicy::ReuseCached
}

/// Commands that change the device always connect afresh.
pub fn session_policy_for_mutating_command() -> (p: DeviceSessionPolicy)
    ensures
        p == DeviceSessionPolicy::Fresh,
{
    DeviceSessionPolicy::Fresh
}

/// Counts and bytes of a finished run.
#[derive(Clone, Copy, Debug, PartialEq, Eq, Structural)]
pub struct FlashSummaryDto {
    /// Partitions flashed.
    pub flash_count: usize,
    /// Partitions wiped.
    pub wipe_count: usize,
    /// Partitions skipped.
    pub skipped_count: usize,
    /// Bytes.
    pub total_bytes: u64,
}

/// The summary of a GSI flow for the front end.
pub fn flash_summary_from_gsi(summary: GsiFlashSummary) -> (d: FlashSummaryDto)
    ensures
        d.flash_count == summary.flash_count,
        d.wipe_count == summary.wipe_count,
        d.skipped_count == summary.skipped_count,
        d.total_bytes == summary.total_bytes,
{
    FlashSummaryDto {
        flash_count: summary.flash_count,
        wipe_count: summary.wipe_count,
        skipped_count: summary.skipped_count,
        total_bytes: summary.total_bytes,
    }
}

/// Progress events shown to the user.
#[derive(Clone, Debug, PartialEq, Eq)]
pub enum FlashEvent {
    /// Waiting for a device.
    WaitingForDevice,
    /// A GSI status.
    GsiStatus {
        /// Status key.
        status: String,
    },
    /// A plan was built.
    PlanBuilt {
        /// Actions.
        actions: usize,
        /// Bytes.
        total_bytes: u64,
    },
    /// An image is being prepared.
    PreparingImage {
        /// Partition.
        partition: String,
    },
    /// Flash progress.
    Flashing {
        /// Partition.
        partition: String,
        /// Bytes done.
        bytes: u64,
        /// Bytes in all.
        total: u64,
        /// Bytes per second.
        speed_bps: u64,
    },
    /// Dry-run progress.
    Simulating {
        /// Partition.
        partition: String,
        /// Action.
        action: String,
        /// Bytes done.
        bytes: u64,
        /// Bytes in all.
        total: u64,
        /// Bytes per second.
        speed_bps: u64,
    },
    /// A partition is done.
    PartitionComplete {
        /// Partition.
        partition: String,
    },
    /// A partition was skipped.
    PartitionSkipped {
        /// Partition.
        partition: String,
        /// Why.
        reason: String,
    },
    /// A partition failed.
    PartitionFailed {
        /// Partition.
        partition: String,
        /// Error.
        error: String,
    },
    /// An erase is starting.
    Erasing {
        /// Partition.
        partition: String,
    },
    /// An erase is done.
    EraseComplete {
        /// Partition.
        partition: String,
    },
    /// Overall progress.
    Overall {
        /// Bytes done.
        bytes: u64,
        /// Bytes in all.
        total: u64,
    },
    /// The run is done.
    Complete {
        /// Its summary.
        summary: FlashSummaryDto,
    },
    /// The run was cancelled.
    Cancelled {
        /// Message.
        message: String,
    },
    /// The run failed.
    Error {
        /// Message.
        message: String,
    },
}

/// Force-fastboot events shown to the user.
#[derive(Clone, Debug, PartialEq, Eq)]
pub enum ForceFastbootEvent {
    /// A session started.
    Started {
        /// Session.
        session_id: u64,
    },
    /// Waiting for the preloader.
    WaitingForPreloader {
        /// Session.
        session_id: u64,
    },
    /// Done.
    Complete {
        /// Session.
        session_id: u64,
    },
    /// Cancelled.
    Cancelled {
        /// Session.
        session_id: u64,
    },
    /// Failed.
    Error {
        /// Session.
        session_id: u64,
        /// Message.
        message: String,
    },
}

/// The smaller of two numbers.
pub open spec fn min_u64(a: int, b: int) -> int {
    if a < b { a } else { b }
}

/// Overall progress: bytes of finished items plus the current one's,
/// saturating, never above the total; and the total.
pub fn update_overall_progress(completed_before: u64, current_bytes: u64, total_bytes: u64) -> (r: (u64, u64))
    ensures
        r.0 == min_u64(crate::gsi::sat_add(completed_before as int, current_bytes as int), total_bytes as int),
        r.0 <= total_bytes,
        r.1 == total_bytes,
{
    let sum = match completed_before.checked_add(current_bytes) {
        Some(v) => v,
        None => u64::MAX,
    };
    let bytes = if sum < total_bytes { sum } else { total_bytes };
    (bytes, total_bytes)
}

/// The message of a cancelled run.
pub open spec fn cancelled_message() -> Seq<char> {
    "cancelled by user"@
}

/// Fails with the cancel message once a cancel was requested.
pub fn ensure_not_cancelled(cancel_requested: bool) -> (r: Result<(), String>)
    ensures
        cancel_requested ==> (r matches Err(m) && m@ == cancelled_message()),
        !cancel_requested ==> r is Ok,
{
    if cancel_requested {
        Err(owned("cancelled by user"))
    } else {
        Ok(())
    }
}

/// How a GSI worker run ends once the worker process has exited: the cancel
/// message where a cancel was requested; else the worker's own failure
/// message where it sent one; else, where the process did not exit
/// successfully, `GSI worker exited with status <status>`; else the summary
/// the worker sent, and an error where it sent none.
pub fn gsi_worker_outcome(
    cancel_requested: bool,
    worker_error: Option<String>,
    exit_success: bool,
    exit_status: &str,
    summary: Option<FlashSummaryDto>,
) -> (r: Result<FlashSummaryDto, String>)
    ensures
        cancel_requested ==> (r matches Err(m) && m@ == cancelled_message()),
        !cancel_requested && worker_error is Some ==> (r matches Err(m) && m@ == worker_error->0@),
        !cancel_requested && worker_error is None && !exit_success ==> (r matches Err(m)
            && m@ == "GSI worker exited with status "@ + exit_status@),
        !cancel_requested && worker_error is None && exit_success ==> match summary {
            Some(s) => r == Ok::<FlashSummaryDto, String>(s),
            None => r matches Err(m) && m@ == "GSI worker completed without summary"@,
        },
{
    ensure_not_cancelled(cancel_requested)?;
    if let Some(message) = worker_error {
        return Err(message);
    }
    if !exit_success {
        return Err(concat("GSI worker exited with status ", exit_status));
    }
    match summary {
        Some(s) => Ok(s),
        None => Err(owned("GSI worker completed without summary")),
    }
}

/// Force-fastboot sessions: the next id and the one active, if any.
#[derive(Clone, Copy, Debug, PartialEq, Eq, Structural)]
pub struct ForceFastbootSessions {
    /// The next session id to hand out.
    pub next_session_id: u64,
    /// The active session.
    pub active_session_id: Option<u64>,
}

/// The id the next session gets: the next id, at least 1.
pub open spec fn started_id(s: ForceFastbootSessions) -> u64 {
    if s.next_session_id < 1 { 1 } else { s.next_session_id }
}

/// The sessions once a new one is started: it is the active one, and the
/// next id is one past it (saturating).
pub open spec fn started(s: ForceFastbootSessions) -> ForceFastbootSessions {
    ForceFastbootSessions {
        next_session_id: crate::gsi::sat_add(started_id(s) as int, 1) as u64,
        active_session_id: Some(started_id(s)),
    }
}

/// Whether cancelling `id` succeeds: only the active session can be
/// cancelled.
pub open spec fn cancels(s: ForceFastbootSessions, id: u64) -> bool {
    s.active_session_id == Some(id)
}

/// The sessions once `id` is cancelled.
pub open spec fn cancelled(s: ForceFastbootSessions, id: u64) -> ForceFastbootSessions {
    if cancels(s, id) { ForceFastbootSessions { active_session_id: None, ..s } } else { s }
}

impl ForceFastbootSessions {
    /// No session yet.
    pub fn new() -> (s: ForceFastbootSessions)
        ensures
            s.next_session_id == 0,
            s.active_session_id is None,
    {
        ForceFastbootSessions { next_session_id: 0, active_session_id: None }
    }

    /// Starts a session, which replaces any active one: its id is the next
    /// id, at least 1.
    pub fn start(&mut self) -> (id: u64)
        ensures
            id == started_id(*old(self)),
            *final(self) == started(*old(self)),
    {
        let id = if self.next_session_id < 1 { 1 } else { self.next_session_id };
        self.next_session_id = match id.checked_add(1) {
            Some(v) => v,
            None => u64::MAX,
        };
        self.active_session_id = Some(id);
        id
    }

    /// Cancels a session: only the active one can be, and only once.
    pub fn cancel(&mut self, session_id: u64) -> (c: bool)
        ensures
            c == cancels(*old(self), session_id),
            *final(self) == cancelled(*old(self), session_id),
    {
        if self.active_session_id == Some(session_id) {
            self.active_session_id = None;
            true
        } else {
            false
        }
    }

    /// Whether a session is the active one.
    pub fn is_active(&self, session_id: u64) -> (b: bool)
        ensures
            b == (self.active_session_id == Some(session_id)),
    {
        self.active_session_id == Some(session_id)
    }
}

/// Session law: starting a session while one runs replaces it. The new
/// session has another id; the one before can no longer be cancelled; the
/// new one can be cancelled exactly once, after which none is active.
pub proof fn lemma_sessions_replace(s: ForceFastbootSessions)
    requires
        s.next_session_id < u64::MAX,
    ensures
        ({
            let first = started_id(s);
            let second = started_id(started(s));
            let both = started(started(s));
            &&& first != second
            &&& !cancels(both, first)
            &&& cancels(both, second)
            &&& cancelled(both, second).active_session_id is None
            &&& !cancels(cancelled(both, second), second)
        }),
{
}

/// The mode a front end request names.
pub fn parse_flash_mode(mode: &str) -> (r: Result<FlashMode, String>)
    ensures
        mode@ == "dry_run"@ ==> r == Ok::<FlashMode, String>(FlashMode::DryRun),
        mode@ == "firmware_upgrade"@ ==> r == Ok::<FlashMode, String>(FlashMode::FirmwareUpgrade),
        mode@ == "clean_flash"@ ==> r == Ok::<FlashMode, String>(FlashMode::CleanFlash),
        mode@ == "selective"@ ==> r == Ok::<FlashMode, String>(FlashMode::Selective),
        mode@ != "dry_run"@ && mode@ != "firmware_upgrade"@ && mode@ != "clean_flash"@ && mode@ != "selective"@
            ==> (r matches Err(m) && m@ == "unknown flash mode: "@ + mode@),
{
    proof {
        reveal_strlit("dry_run");
        reveal_strlit("firmware_upgrade");
        reveal_strlit("clean_flash");
        reveal_strlit("selective");
        assert("dry_run"@.len() != "firmware_upgrade"@.len());
        assert("dry_run"@[0] != "clean_flash"@[0]);
        assert("dry_run"@[0] != "selective"@[0]);
        assert("firmware_upgrade"@.len() != "clean_flash"@.len());
        assert("firmware_upgrade"@[0] != "selective"@[0]);
        assert("clean_flash"@[0] != "selective"@[0]);
    }
    if str_eq(mode, "dry_run") {
        Ok(FlashMode::DryRun)
    } else if str_eq(mode, "firmware_upgrade") {
        Ok(FlashMode::FirmwareUpgrade)
    } else if str_eq(mode, "clean_flash") {
        Ok(FlashMode::CleanFlash)
    } else if str_eq(mode, "selective") {
        Ok(FlashMode::Selective)
    } else {
        Err(concat("unknown flash mode: ", mode))
    }
}

/// The slot a front end request names: `a`, `b` or `all`; anything else is
/// none.
pub fn parse_slot(slot: Option<&str>) -> (r: Option<SlotArg>)
    ensures
        slot matches Some(s) && s@ == "a"@ ==> r == Some(SlotArg::A),
        slot matches Some(s) && s@ == "b"@ ==> r == Some(SlotArg::B),
        slot matches Some(s) && s@ == "all"@ ==> r == Some(SlotArg::All),
        !(slot matches Some(s) && (s@ == "a"@ || s@ == "b"@ || s@ == "all"@)) ==> r is None,
{
    proof {
        reveal_strlit("a");
        reveal_strlit("b");
        reveal_strlit("all");
        assert("a"@[0] != "b"@[0]);
        assert("a"@.len() != "all"@.len());
        assert("b"@.len() != "all"@.len());
    }
    match slot {
        Some(s) => if str_eq(s, "a") {
            Some(SlotArg::A)
        } else if str_eq(s, "b") {
            Some(SlotArg::B)
        } else if str_eq(s, "all") {
            Some(SlotArg::All)
        } else {
            None
        },
        None => None,
    }
}

/// A parsed plan request.
#[derive(Clone, Copy, Debug, PartialEq, Eq, Structural)]
pub struct ParsedPlanRequest {
    /// Mode.
    pub mode: FlashMode,
    /// Slot.
    pub slot: Option<SlotArg>,
}

/// Parses the mode and slot of a plan request.
pub fn parse_plan_request(mode: &str, slot: Option<&str>) -> (r: Result<ParsedPlanRequest, String>)
    ensures
        r matches Ok(p) ==> (p.slot == (if slot matches Some(s) && s@ == "a"@ { Some(SlotArg::A) } else if slot matches Some(s) && s@ == "b"@ {
            Some(SlotArg::B)
        } else if slot matches Some(s) && s@ == "all"@ { Some(SlotArg::All) } else { None })),
        mode@ == "dry_run"@ ==> (r matches Ok(p) && p.mode == FlashMode::DryRun),
        mode@ == "firmware_upgrade"@ ==> (r matches Ok(p) && p.mode == FlashMode::FirmwareUpgrade),
        mode@ == "clean_flash"@ ==> (r matches Ok(p) && p.mode == FlashMode::CleanFlash),
        mode@ == "selective"@ ==> (r matches Ok(p) && p.mode == FlashMode::Selective),
        mode@ != "dry_run"@ && mode@ != "firmware_upgrade"@ && mode@ != "clean_flash"@ && mode@ != "selective"@
            ==> (r matches Err(m) && m@ == "unknown flash mode: "@ + mode@),
{
    let m = parse_flash_mode(mode)?;
    Ok(ParsedPlanRequest { mode: m, slot: parse_slot(slot) })
}

/// What `str::to_uppercase` gives for `s`: each character by its Unicode
/// uppercase mapping.
pub uninterp spec fn uppercase_text(s: Seq<char>) -> Seq<char>;

/// `s` in capitals.
///
/// Calls `str::to_uppercase`, whose result the standard library defines
/// from the characters of its argument alone, by the Unicode uppercase
/// mapping.
#[verifier::external_body]
fn to_uppercase(s: &str) -> (r: String)
    ensures
        r@ == uppercase_text(s@),
{
    s.to_uppercase()
}

/// The words joined with single spaces.
pub open spec fn join_words(w: Seq<String>) -> Seq<char>
    decreases w.len(),
{
    if w.len() == 0 {
        seq![]
    } else if w.len() == 1 {
        w[0]@
    } else {
        join_words(w.drop_last()) + seq![' '] + w.last()@
    }
}

/// The storage that capitalised texts name: `UFS` or `EMMC` where the
/// layouts' text, then the label's, mention one; else the label as given.
pub open spec fn storage_from_upper(selected_upper: Seq<char>, storage_upper: Seq<char>, storage: Seq<char>) -> Seq<char> {
    if has_substring(selected_upper, "UFS"@) {
        "UFS"@
    } else if has_substring(selected_upper, "EMMC"@) || has_substring(selected_upper, "MMC"@) {
        "EMMC"@
    } else if has_substring(storage_upper, "UFS"@) {
        "UFS"@
    } else if has_substring(storage_upper, "EMMC"@) || has_substring(storage_upper, "MMC"@) {
        "EMMC"@
    } else {
        storage
    }
}

/// The storage a label and the chosen layouts name, by their capitalised
/// texts.
pub open spec fn storage_label_text(storage: Seq<char>, layouts: Seq<String>) -> Seq<char> {
    storage_from_upper(uppercase_text(join_words(layouts)), uppercase_text(storage), storage)
}

/// The storage label from the capitalised layouts text and label: `UFS`,
/// `EMMC`, or the label as given.
pub fn storage_label_from_upper(selected_upper: &str, storage_upper: &str, storage: &str) -> (r: String)
    ensures
        r@ == storage_from_upper(selected_upper@, storage_upper@, storage@),
{
    if contains(selected_upper, "UFS") {
        return owned("UFS");
    }
    if contains(selected_upper, "EMMC") || contains(selected_upper, "MMC") {
        return owned("EMMC");
    }
    if contains(storage_upper, "UFS") {
        owned("UFS")
    } else if contains(storage_upper, "EMMC") || contains(storage_upper, "MMC") {
        owned("EMMC")
    } else {
        owned(storage)
    }
}

/// The storage label shown: `UFS`, `EMMC`, or the label as given.
pub fn normalize_storage_label(storage: &str, selected_layouts: &[String]) -> (r: String)
    ensures
        r@ == storage_label_text(storage@, selected_layouts@),
{
    let mut joined = String::new();
    let mut i: usize = 0;
    while i < selected_layouts.len()
        invariant
            0 <= i <= selected_layouts@.len(),
            joined@ == join_words(selected_layouts@.take(i as int)),
        decreases selected_layouts@.len() - i,
    {
        proof {
            assert(selected_layouts@.take(i + 1).drop_last() =~= selected_layouts@.take(i as int));
        }
        if i == 0 {
            joined = selected_layouts[0].clone();
        } else {
            let a = concat(joined.as_str(), " ");
            proof {
                reveal_strlit(" ");
            }
            joined = concat(a.as_str(), selected_layouts[i].as_str());
        }
        i = i + 1;
    }
    assert(selected_layouts@.take(i as int) =~= selected_layouts@);
    let selected = to_uppercase(joined.as_str());
    let upper = to_uppercase(storage);
    storage_label_from_upper(selected.as_str(), upper.as_str(), storage)
}

/// The safety class shown: `unknown` is shown as `other`, every other class
/// as it is.
pub fn display_safety_class(safety_class: &str) -> (r: String)
    ensures
        safety_class@ == "unknown"@ ==> r@ == "other"@,
        safety_class@ != "unknown"@ ==> r@ == safety_class@,
{
    if str_eq(safety_class, "unknown") {
        owned("other")
    } else {
        owned(safety_class)
    }
}

/// The status key of a mode, pending or ready.
pub fn gsi_mode_status(mode: FastbootMode, ready: bool) -> (s: &'static str)
    ensures
        mode == FastbootMode::Bootloader && !ready ==> s@ == "bootloader_pending"@,
        mode == FastbootMode::Bootloader && ready ==> s@ == "bootloader_ready"@,
        mode == FastbootMode::Fastbootd && !ready ==> s@ == "fastbootd_pending"@,
        mode == FastbootMode::Fastbootd && ready ==> s@ == "fastbootd_ready"@,
{
    match (mode, ready) {
        (FastbootMode::Bootloader, false) => "bootloader_pending",
        (FastbootMode::Bootloader, true) => "bootloader_ready",
        (FastbootMode::Fastbootd, false) => "fastbootd_pending",
        (FastbootMode::Fastbootd, true) => "fastbootd_ready",
    }
}

/// The status key of a GSI step.
pub open spec fn step_status_text(step: GsiStep) -> Seq<char> {
    match step {
        GsiStep::RebootingToBootloader => "rebooting_bootloader"@,
        GsiStep::RebootingToFastbootd => "rebooting_fastbootd"@,
        GsiStep::PreparingVbmetaFlash => "preparing_vbmeta"@,
        GsiStep::FlashingVbmeta => "flashing_vbmeta"@,
        GsiStep::CheckingSystemPartition => "checking_system_partition"@,
        GsiStep::CheckingProductGsiFallback => "checking_product_gsi"@,
        GsiStep::GeneratingProductGsiImage => "generating_product_gsi"@,
        GsiStep::FlashingProductGsi => "flashing_product_gsi"@,
        GsiStep::ProductGsiFallbackNotNeeded => "product_gsi_not_needed"@,
        GsiStep::FlashingSystemGsi => "flashing_system_gsi"@,
        GsiStep::WipingUserdata => "wiping_userdata"@,
        GsiStep::StartingBootloaderPhase => "bootloader_phase"@,
        GsiStep::StartingFastbootdPhase => "fastbootd_phase"@,
        GsiStep::GsiFlowComplete => "gsi_complete"@,
    }
}

/// The status key of a GSI step.
pub fn gsi_step_status(step: GsiStep) -> (s: &'static str)
    ensures
        s@ == step_status_text(step),
{
    match step {
        GsiStep::RebootingToBootloader => "rebooting_bootloader",
        GsiStep::RebootingToFastbootd => "rebooting_fastbootd",
        GsiStep::PreparingVbmetaFlash => "preparing_vbmeta",
        GsiStep::FlashingVbmeta => "flashing_vbmeta",
        GsiStep::CheckingSystemPartition => "checking_system_partition",
        GsiStep::CheckingProductGsiFallback => "checking_product_gsi",
        GsiStep::GeneratingProductGsiImage => "generating_product_gsi",
        GsiStep::FlashingProductGsi => "flashing_product_gsi",
        GsiStep::ProductGsiFallbackNotNeeded => "product_gsi_not_needed",
        GsiStep::FlashingSystemGsi => "flashing_system_gsi",
        GsiStep::WipingUserdata => "wiping_userdata",
        GsiStep::StartingBootloaderPhase => "bootloader_phase",
        GsiStep::StartingFastbootdPhase => "fastbootd_phase",
        GsiStep::GsiFlowComplete => "gsi_complete",
    }
}

/// The argument that runs the program as a GSI worker.
pub fn gsi_worker_arg() -> (s: &'static str)
    ensures
        s@ == "--gsi-worker"@,
{
    "--gsi-worker"
}

/// Whether the program was started as a GSI worker: its first argument
/// after the program name is `--gsi-worker`.
pub fn is_gsi_worker_invocation(args: &[String]) -> (b: bool)
    ensures
        b == (args@.len() > 1 && args@[1]@ == "--gsi-worker"@),
{
    if args.len() > 1 {
        str_eq(args[1].as_str(), "--gsi-worker")
    } else {
        false
    }
}

/// Milliseconds a GSI worker waits before connecting: a quarter second on
/// Windows, none elsewhere.
pub fn gsi_worker_connect_retry_delay_ms(os: HostOs) -> (ms: u64)
    ensures
        ms == (if os == HostOs::Windows { 250u64 } else { 0u64 }),
{
    if os == HostOs::Windows { 250 } else { 0 }
}

/// The platform directory of the format tools on a host.
pub fn format_tools_platform(os: HostOs) -> (r: Result<&'static str, String>)
    ensures
        os == HostOs::Linux ==> (r matches Ok(p) && p@ == "linux"@),
        os == HostOs::Windows ==> (r matches Ok(p) && p@ == "windows"@),
        os == HostOs::Other ==> (r matches Err(m) && m@ == "format tools are only supported on Linux and Windows hosts"@),
{
    match os {
        HostOs::Linux => Ok("linux"),
        HostOs::Windows => Ok("windows"),
        HostOs::Other => Err(owned("format tools are only supported on Linux and Windows hosts")),
    }
}

/// The format tools under a root for a platform, joined as on a Unix host.
pub fn build_format_tools(root: &str, platform: &str) -> (t: FormatTools)
    ensures
        crate::format::tools_layout(t, root@, platform@, false),
{
    FormatTools::from_platform_root(root, platform)
}

/// The format tools a GSI worker uses: those under `root` for the host.
pub fn build_worker_format_tools(root: &str, os: HostOs) -> (r: Result<FormatTools, String>)
    ensures
        os == HostOs::Linux ==> (r matches Ok(t) && crate::format::tools_layout(t, root@, "linux"@, false)),
        os == HostOs::Windows ==> (r matches Ok(t) && crate::format::tools_layout(t, root@, "windows"@, true)),
        os == HostOs::Other ==> (r matches Err(m) && m@ == crate::format::unsupported_host_message()),
{
    let platform = format_tools_platform(os)?;
    Ok(FormatTools::for_host(root, platform, os))
}

/// Turns GSI flow events into progress events, keeping the bytes of the
/// items finished so far.
pub struct GsiWorkerProgressMapper {
    /// Bytes of finished items.
    pub completed_before: u64,
    /// Bytes of the whole flow.
    pub total_bytes: u64,
}

/// Whether an event is overall progress of `bytes` out of `total`.
pub open spec fn is_overall(e: FlashEvent, bytes: int, total: int) -> bool {
    e matches FlashEvent::Overall { bytes: b, total: t } && b == bytes && t == total
}

/// The larger of a number and 1.
pub open spec fn at_least_one(n: u64) -> u64 {
    if n < 1 { 1 } else { n }
}

/// The bytes a flow event finishes: a finished flash its size, a finished
/// or skipped erase one byte, any other event none.
pub open spec fn event_weight(e: GsiEvent) -> int {
    match e {
        GsiEvent::FlashFinished { size_bytes, .. } => size_bytes as int,
        GsiEvent::EraseFinished { .. } => 1,
        GsiEvent::PartitionSkipped { .. } => 1,
        _ => 0,
    }
}

/// The finished bytes after an event, counted up to `u64::MAX`.
pub open spec fn next_completed(c: int, e: GsiEvent) -> int {
    crate::gsi::sat_add(c, event_weight(e))
}

/// The finished bytes a mapper counts after a history of events, from none.
pub open spec fn completed_after(es: Seq<GsiEvent>) -> int
    decreases es.len(),
{
    if es.len() == 0 {
        0
    } else {
        next_completed(completed_after(es.drop_last()), es.last())
    }
}

/// The bytes a history of events finishes.
pub open spec fn history_weight(es: Seq<GsiEvent>) -> int
    decreases es.len(),
{
    if es.len() == 0 {
        0
    } else {
        history_weight(es.drop_last()) + event_weight(es.last())
    }
}

/// Over a whole history, a mapper's finished bytes are the bytes the events
/// finish, capped at `u64::MAX`.
pub proof fn lemma_completed_history(es: Seq<GsiEvent>)
    ensures
        completed_after(es) == min_u64(history_weight(es), u64::MAX as int),
        history_weight(es) >= 0,
    decreases es.len(),
{
    if es.len() > 0 {
        lemma_completed_history(es.drop_last());
    }
}

impl GsiWorkerProgressMapper {
    /// A mapper for a flow of `total_bytes`, nothing finished.
    pub fn new(total_bytes: u64) -> (m: GsiWorkerProgressMapper)
        ensures
            m.completed_before == 0,
            m.total_bytes == total_bytes,
    {
        GsiWorkerProgressMapper { completed_before: 0, total_bytes }
    }

    /// The progress events of one flow event. Finished flashes add their
    /// bytes, finished or skipped erases one byte; overall progress never
    /// exceeds the total.
    pub fn map_event(&mut self, event: GsiEvent) -> (out: Vec<FlashEvent>)
        ensures
            final(self).total_bytes == old(self).total_bytes,
            final(self).completed_before >= old(self).completed_before,
            final(self).completed_before == next_completed(old(self).completed_before as int, event),
            forall|i: int| 0 <= i < out@.len() ==> (#[trigger] out@[i] matches FlashEvent::Overall { bytes, total } ==> bytes <= total && total == old(self).total_bytes),
            match event {
                GsiEvent::Step(step) => out@.len() == 1 && (out@[0] matches FlashEvent::GsiStatus { status } && status@ == step_status_text(step))
                    && final(self).completed_before == old(self).completed_before,
                GsiEvent::ModeDetected(mode) => out@.len() == 1 && (out@[0] matches FlashEvent::GsiStatus { status } && status@ == (if mode == FastbootMode::Bootloader { "bootloader_pending"@ } else { "fastbootd_pending"@ }))
                    && final(self).completed_before == old(self).completed_before,
                GsiEvent::ModeReady(mode) => out@.len() == 1 && (out@[0] matches FlashEvent::GsiStatus { status } && status@ == (if mode == FastbootMode::Bootloader { "bootloader_ready"@ } else { "fastbootd_ready"@ }))
                    && final(self).completed_before == old(self).completed_before,
                GsiEvent::UserdataEraseFallback { .. } => out@.len() == 1 && (out@[0] matches FlashEvent::GsiStatus { status } && status@ == "userdata_erase_fallback"@)
                    && final(self).completed_before == old(self).completed_before,
                GsiEvent::ResolvedPartition { .. } => out@.len() == 0 && final(self).completed_before == old(self).completed_before,
                GsiEvent::Flashing { partition, size_bytes, .. } => out@.len() == 3
                    && (out@[0] matches FlashEvent::PreparingImage { partition: p } && p@ == partition@)
                    && is_overall(out@[1], min_u64(old(self).completed_before as int, old(self).total_bytes as int), old(self).total_bytes as int)
                    && (out@[2] matches FlashEvent::Flashing { partition: p, bytes, total, speed_bps } && p@ == partition@ && bytes == 0 && total == at_least_one(size_bytes) && speed_bps == 0)
                    && final(self).completed_before == old(self).completed_before,
                GsiEvent::FlashProgress { partition, bytes, total_bytes, speed_bps } => out@.len() == 2
                    && (out@[0] matches FlashEvent::Flashing { partition: p, bytes: b, total, speed_bps: s } && p@ == partition@ && b == bytes && total == at_least_one(total_bytes) && s == speed_bps)
                    && is_overall(out@[1], min_u64(crate::gsi::sat_add(old(self).completed_before as int, bytes as int), old(self).total_bytes as int), old(self).total_bytes as int)
                    && final(self).completed_before == old(self).completed_before,
                GsiEvent::FlashFinished { partition, size_bytes } => final(self).completed_before == crate::gsi::sat_add(old(self).completed_before as int, size_bytes as int)
                    && out@.len() == 2
                    && is_overall(out@[0], min_u64(final(self).completed_before as int, old(self).total_bytes as int), old(self).total_bytes as int)
                    && (out@[1] matches FlashEvent::PartitionComplete { partition: p } && p@ == partition@),
                GsiEvent::Erasing { partition } => out@.len() == 2
                    && (out@[0] matches FlashEvent::Erasing { partition: p } && p@ == partition@)
                    && is_overall(out@[1], min_u64(old(self).completed_before as int, old(self).total_bytes as int), old(self).total_bytes as int)
                    && final(self).completed_before == old(self).completed_before,
                GsiEvent::EraseFinished { partition } => final(self).completed_before == crate::gsi::sat_add(old(self).completed_before as int, 1)
                    && out@.len() == 2
                    && is_overall(out@[0], min_u64(final(self).completed_before as int, old(self).total_bytes as int), old(self).total_bytes as int)
                    && (out@[1] matches FlashEvent::EraseComplete { partition: p } && p@ == partition@),
                GsiEvent::PartitionSkipped { partition, reason } => final(self).completed_before == crate::gsi::sat_add(old(self).completed_before as int, 1)
                    && out@.len() == 2
                    && is_overall(out@[0], min_u64(final(self).completed_before as int, old(self).total_bytes as int), old(self).total_bytes as int)
                    && (out@[1] matches FlashEvent::PartitionSkipped { partition: p, reason: r } && p@ == partition@ && r == reason),
            },
    {
        let total = self.total_bytes;
        let mut out: Vec<FlashEvent> = Vec::new();
        match event {
            GsiEvent::Step(step) => {
                out.push(FlashEvent::GsiStatus { status: owned(gsi_step_status(step)) });
            },
            GsiEvent::ModeDetected(mode) => {
                out.push(FlashEvent::GsiStatus { status: owned(gsi_mode_status(mode, false)) });
            },
            GsiEvent::ModeReady(mode) => {
                out.push(FlashEvent::GsiStatus { status: owned(gsi_mode_status(mode, true)) });
            },
            GsiEvent::UserdataEraseFallback { .. } => {
                out.push(FlashEvent::GsiStatus { status: owned("userdata_erase_fallback") });
            },
            GsiEvent::ResolvedPartition { .. } => {},
            GsiEvent::Flashing { partition, size_bytes, .. } => {
                let (bytes, t) = update_overall_progress(self.completed_before, 0, total);
                out.push(FlashEvent::PreparingImage { partition: partition.clone() });
                out.push(FlashEvent::Overall { bytes, total: t });
                out.push(FlashEvent::Flashing {
                    partition,
                    bytes: 0,
                    total: if size_bytes < 1 { 1 } else { size_bytes },
                    speed_bps: 0,
                });
            },
            GsiEvent::FlashProgress { partition, bytes, total_bytes, speed_bps } => {
                let (overall, t) = update_overall_progress(self.completed_before, bytes, total);
                out.push(FlashEvent::Flashing {
                    partition,
                    bytes,
                    total: if total_bytes < 1 { 1 } else { total_bytes },
                    speed_bps,
                });
                out.push(FlashEvent::Overall { bytes: overall, total: t });
            },
            GsiEvent::FlashFinished { partition, size_bytes } => {
                self.completed_before = match self.completed_before.checked_add(size_bytes) {
                    Some(v) => v,
                    None => u64::MAX,
                };
                let (bytes, t) = update_overall_progress(self.completed_before, 0, total);
                out.push(FlashEvent::Overall { bytes, total: t });
                out.push(FlashEvent::PartitionComplete { partition });
            },
            GsiEvent::Erasing { partition } => {
                let (bytes, t) = update_overall_progress(self.completed_before, 0, total);
                out.push(FlashEvent::Erasing { partition: owned(partition) });
                out.push(FlashEvent::Overall { bytes, total: t });
            },
            GsiEvent::EraseFinished { partition } => {
                self.completed_before = match self.completed_before.checked_add(1) {
                    Some(v) => v,
                    None => u64::MAX,
                };
                let (bytes, t) = update_overall_progress(self.completed_before, 0, total);
                out.push(FlashEvent::Overall { bytes, total: t });
                out.push(FlashEvent::EraseComplete { partition: owned(partition) });
            },
            GsiEvent::PartitionSkipped { partition, reason } => {
                self.completed_before = match self.completed_before.checked_add(1) {
                    Some(v) => v,
                    None => u64::MAX,
                };
                let (bytes, t) = update_overall_progress(self.completed_before, 0, total);
                out.push(FlashEvent::Overall { bytes, total: t });
                out.push(FlashEvent::PartitionSkipped { partition: owned(partition), reason });
            },
        }
        out
    }
}

/// What the front end shows of a device.
pub struct DeviceInfo {
    /// `serialno`, or empty.
    pub serial: String,
    /// `product`, or empty.
    pub product: String,
    /// `current-slot`, or `unknown`.
    pub slot: String,
    /// `secure`, or empty.
    pub secure: String,
    /// `unlocked`, or empty.
    pub unlocked: String,
    /// `version-bootloader`, or empty.
    pub version: String,
    /// Every variable.
    pub all_vars: FastbootVars,
}

/// A variable's value, or `default` where it is missing.
pub open spec fn var_or(vars: Map<Seq<char>, Seq<char>>, name: Seq<char>, default: Seq<char>) -> Seq<char> {
    if vars.dom().contains(name) { vars[name] } else { default }
}

fn var_or_default(vars: &FastbootVars, name: &str, default: &str) -> (r: String)
    ensures
        r@ == var_or(vars@, name@, default@),
{
    match vars.get(name) {
        Some(v) => v,
        None => owned(default),
    }
}

/// The device information that the variables give.
pub fn device_info_from_vars(vars: FastbootVars) -> (d: DeviceInfo)
    ensures
        d.serial@ == var_or(vars@, "serialno"@, seq![]),
        d.product@ == var_or(vars@, "product"@, seq![]),
        d.slot@ == var_or(vars@, "current-slot"@, "unknown"@),
        d.secure@ == var_or(vars@, "secure"@, seq![]),
        d.unlocked@ == var_or(vars@, "unlocked"@, seq![]),
        d.version@ == var_or(vars@, "version-bootloader"@, seq![]),
        d.all_vars@ == vars@,
{
    proof {
        reveal_strlit("");
    }
    let serial = var_or_default(&vars, "serialno", "");
    let product = var_or_default(&vars, "product", "");
    let slot = var_or_default(&vars, "current-slot", "unknown");
    let secure = var_or_default(&vars, "secure", "");
    let unlocked = var_or_default(&vars, "unlocked", "");
    let version = var_or_default(&vars, "version-bootloader", "");
    DeviceInfo { serial, product, slot, secure, unlocked, version, all_vars: vars }
}

/// One partition row of a flash plan for the front end.
#[derive(Clone, Debug, PartialEq, Eq)]
pub struct PartitionDto {
    /// Position in the plan.
    pub index: usize,
    /// `flash`, `wipe` or `skip`.
    pub action: String,
    /// Partition name.
    pub partition: String,
    /// Size for humans.
    pub size_human: String,
    /// Size in bytes.
    pub size_bytes: u64,
    /// Safety class as shown.
    pub safety_class: String,
    /// Where the action comes from.
    pub source: String,
    /// Image path, where there is one.
    pub image_path: Option<String>,
    /// Image file name, where there is one.
    pub image_name: Option<String>,
    /// Whether it is selected.
    pub selected: bool,
}

/// A flash plan for the front end.
#[derive(Clone, Debug, PartialEq, Eq)]
pub struct FlashPlanDto {
    /// Mode name.
    pub mode: String,
    /// Storage label.
    pub storage: String,
    /// Slot policy name.
    pub slot_policy: String,
    /// Chipset, where known.
    pub chipset: Option<String>,
    /// Counts and bytes.
    pub summary: FlashSummaryDto,
    /// The rows.
    pub partitions: Vec<PartitionDto>,
    /// Warnings.
    pub warnings: Vec<String>,
    /// Errors.
    pub errors: Vec<String>,
}

/// A parsed scatter plan and the id it is stored under.
#[derive(Clone, Debug, PartialEq, Eq)]
pub struct ParseScatterResponseDto {
    /// The stored plan's id.
    pub plan_id: u64,
    /// The plan.
    pub plan: FlashPlanDto,
}

/// The answer to starting a force-fastboot session.
#[derive(Clone, Copy, Debug, PartialEq, Eq, Structural)]
pub struct ForceFastbootStartDto {
    /// The session's id.
    pub session_id: u64,
}

/// How a wipe run clears userdata.
#[derive(Clone, Copy, Debug, PartialEq, Eq, Structural)]
pub enum UserdataClear {
    /// Flash the built image, counted as `bytes` (at least one).
    FlashImage {
        /// Bytes the step counts for.
        bytes: u64,
    },
    /// Erase userdata, counted as one byte.
    Erase,
}

/// The plan of a wipe run in the front end.
#[derive(Clone, Copy, Debug, PartialEq, Eq, Structural)]
pub struct WipeRunPlan {
    /// How userdata is cleared.
    pub userdata: UserdataClear,
    /// Whether metadata is erased afterwards.
    pub erase_metadata: bool,
    /// Whether cache is erased afterwards.
    pub erase_cache: bool,
    /// Actions announced.
    pub action_count: usize,
    /// Bytes announced: the image's, or one for an erase fallback, and one
    /// per further erase.
    pub total_bytes: u64,
    /// Where the total row stands when metadata is erased.
    pub metadata_before: u64,
    /// Where the total row stands when cache is erased.
    pub cache_before: u64,
}

/// The plan of a wipe run: with a built image of `image_len` bytes the
/// image is flashed; without one, userdata is erased where the fallback is
/// allowed, and otherwise there is no plan (the build's error stands).
/// Metadata and cache are erased unless left out, each counted as a byte.
pub open spec fn spec_wipe_run_plan(
    no_metadata: bool,
    no_cache: bool,
    erase_fallback: bool,
    image_len: Option<u64>,
) -> Option<WipeRunPlan> {
    let steps: int = (if no_metadata { 0int } else { 1int }) + (if no_cache { 0int } else { 1int });
    let base: int = match image_len {
        Some(n) => n as int,
        None => 1,
    };
    let first: int = if base < 1 { 1 } else { base };
    if image_len is None && !erase_fallback {
        None
    } else {
        Some(WipeRunPlan {
            userdata: match image_len {
                Some(_) => UserdataClear::FlashImage { bytes: first as u64 },
                None => UserdataClear::Erase,
            },
            erase_metadata: !no_metadata,
            erase_cache: !no_cache,
            action_count: (1 + steps) as usize,
            total_bytes: (base + steps) as u64,
            metadata_before: first as u64,
            cache_before: (if no_metadata { first } else { crate::gsi::sat_add(first, 1) }) as u64,
        })
    }
}

/// The plan of a wipe run, for an image whose length leaves room for the
/// two erase bytes.
pub fn wipe_run_plan(no_metadata: bool, no_cache: bool, erase_fallback: bool, image_len: Option<u64>) -> (r: Option<WipeRunPlan>)
    requires
        image_len matches Some(n) ==> n + 2 <= u64::MAX,
    ensures
        r == spec_wipe_run_plan(no_metadata, no_cache, erase_fallback, image_len),
{
    let steps: u64 = (if no_metadata { 0 } else { 1 }) + (if no_cache { 0 } else { 1 });
    let (userdata, base) = match image_len {
        Some(n) => (UserdataClear::FlashImage { bytes: if n < 1 { 1 } else { n } }, n),
        None => {
            if !erase_fallback {
                return None;
            }
            (UserdataClear::Erase, 1)
        },
    };
    let first: u64 = if base < 1 { 1 } else { base };
    let cache_before: u64 = if no_metadata {
        first
    } else {
        match first.checked_add(1) {
            Some(v) => v,
            None => u64::MAX,
        }
    };
    Some(WipeRunPlan {
        userdata,
        erase_metadata: !no_metadata,
        erase_cache: !no_cache,
        action_count: (1 + steps) as usize,
        total_bytes: base + steps,
        metadata_before: first,
        cache_before,
    })
}

} // verus!
