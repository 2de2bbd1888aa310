//! The decisions of the USB fastboot transport: which backends to try, how
//! to find the fastboot interface and its bulk endpoints among the USB
//! descriptors, how a download's byte count is accounted, and how replies
//! to particular variables are read.

use vstd::prelude::*;
use crate::image::ImagePayloadError;
use crate::operation::{normalize_slot, spec_normalize_slot, SlotResolutionError};
use crate::protocol::{parse_u32, spec_parse_u32, FastBootResponseParseError};
use crate::text::{
    concat, contains, has_substring, lower_ascii_seq, owned, to_ascii_lowercase, trim, trimmed,
    is_single_char_ignoring_ascii_case, eq_ignore_ascii_case,
};

verus! {

/// A USB transfer error.
#[verifier::external_type_specification]
#[verifier::external_body]
pub struct ExTransferError(nusb::transfer::TransferError);

/// A USB error from opening a device or claiming an interface.
#[verifier::external_type_specification]
#[verifier::external_body]
pub struct ExNusbError(nusb::Error);

/// A fastboot transport backend.
#[derive(Clone, Copy, Debug, PartialEq, Eq, Structural)]
pub enum BackendKind {
    /// The nusb backend.
    Nusb,
}

impl BackendKind {
    /// The backend's name.
    pub fn as_str(self) -> (s: &'static str)
        ensures
            s@ == "nusb"@,
    {
        "nusb"
    }
}

/// Severity of a probe event.
#[derive(Clone, Copy, Debug, PartialEq, Eq, Structural)]
pub enum ProbeLogLevel {
    /// Information.
    Info,
    /// A warning.
    Warning,
    /// An error.
    Error,
}

/// An event while probing for a device.
#[derive(Clone, Debug, PartialEq, Eq)]
pub struct ProbeEvent {
    /// The backend.
    pub backend: BackendKind,
    /// Severity.
    pub level: ProbeLogLevel,
    /// Probe stage, such as `backend_attempt`.
    pub stage: &'static str,
    /// Description.
    pub message: String,
}

/// The event before trying a backend: `Trying <backend> backend`.
pub fn probe_attempt_event(backend: BackendKind) -> (e: ProbeEvent)
    ensures
        e.backend == backend,
        e.level == ProbeLogLevel::Info,
        e.stage@ == "backend_attempt"@,
        e.message@ == "Trying "@ + "nusb"@ + " backend"@,
{
    let a = concat("Trying ", backend.as_str());
    ProbeEvent {
        backend,
        level: ProbeLogLevel::Info,
        stage: "backend_attempt",
        message: concat(a.as_str(), " backend"),
    }
}

/// The event after a backend opened a device.
pub fn probe_success_event(backend: BackendKind) -> (e: ProbeEvent)
    ensures
        e.backend == backend,
        e.level == ProbeLogLevel::Info,
        e.stage@ == "backend_success"@,
        e.message@ == "Opened fastboot device with nusb"@,
{
    ProbeEvent {
        backend,
        level: ProbeLogLevel::Info,
        stage: "backend_success",
        message: owned("Opened fastboot device with nusb"),
    }
}

/// The event after a backend failed, carrying the failure's message.
pub fn probe_failure_event(backend: BackendKind, message: String) -> (e: ProbeEvent)
    ensures
        e.backend == backend,
        e.level == ProbeLogLevel::Warning,
        e.stage@ == "backend_failed"@,
        e.message == message,
{
    ProbeEvent { backend, level: ProbeLogLevel::Warning, stage: "backend_failed", message }
}

/// The backends to try, in order: nusb is the only one.
pub fn backend_attempt_order(preferred_backend: Option<BackendKind>) -> (v: Vec<BackendKind>)
    ensures
        v@ == seq![BackendKind::Nusb],
{
    let mut v: Vec<BackendKind> = Vec::new();
    v.push(BackendKind::Nusb);
    v
}

/// The backend to fall back to: there is none.
pub fn alternate_backend_kind(kind: BackendKind) -> (r: Option<BackendKind>)
    ensures
        r is None,
{
    None
}

/// Errors of the nusb fastboot client.
#[derive(Debug)]
pub enum NusbFastBootError {
    /// A USB transfer failed.
    Transfer(nusb::transfer::TransferError),
    /// The device answered `FAIL` with this reason.
    FastbootFailed(String),
    /// A reply the command does not expect.
    FastbootUnexpectedReply,
    /// A reply that could not be parsed.
    FastbootParseError(FastBootResponseParseError),
    /// A variable with a value that could not be used.
    InvalidVariable {
        /// The variable.
        name: &'static str,
        /// Its value.
        value: String,
        /// What is wrong with it.
        reason: String,
    },
}

/// Errors when opening the nusb fastboot client.
#[derive(Debug)]
pub enum NusbFastBootOpenError {
    /// The device could not be opened.
    Device(nusb::Error),
    /// The interface could not be claimed.
    Interface(nusb::Error),
    /// The device has no fastboot interface.
    MissingInterface,
    /// The interface lacks a bulk IN or bulk OUT endpoint.
    MissingEndpoints,
    /// A reply that could not be parsed.
    FastbootParseError(FastBootResponseParseError),
}

impl NusbFastBootOpenError {
    /// Whether trying again may help: device, interface and endpoint
    /// failures, not a parse failure.
    pub fn is_retryable(&self) -> (b: bool)
        ensures
            b == !(*self is FastbootParseError),
    {
        match self {
            NusbFastBootOpenError::Device(_) => true,
            NusbFastBootOpenError::Interface(_) => true,
            NusbFastBootOpenError::MissingInterface => true,
            NusbFastBootOpenError::MissingEndpoints => true,
            NusbFastBootOpenError::FastbootParseError(_) => false,
        }
    }
}

/// Errors of a fastboot device.
#[derive(Debug)]
pub enum FastbootError {
    /// An nusb backend error.
    Nusb(NusbFastBootError),
    /// A download failed.
    Download(String),
}

/// Errors when opening a fastboot device.
#[derive(Debug)]
pub enum FastbootOpenError {
    /// An nusb backend error.
    Nusb(NusbFastBootOpenError),
}

/// Errors while streaming a download.
#[derive(Debug)]
pub enum DownloadError {
    /// Finishing with nothing queued.
    NothingQueued,
    /// More or fewer bytes than announced.
    IncorrectDataLength {
        /// Bytes given.
        actual: u32,
        /// Bytes announced.
        expected: u32,
    },
    /// An nusb backend error.
    Nusb(NusbFastBootError),
}

/// Progress while flashing a prepared image.
#[allow(inconsistent_fields)]
#[derive(Clone, Copy, Debug, PartialEq, Eq, Structural)]
pub enum FlashProgress {
    /// A download is about to start.
    DownloadStarted {
        /// One-based transfer index.
        transfer_index: usize,
        /// Number of transfers.
        transfer_count: usize,
        /// Bytes of the download.
        bytes: u32,
    },
    /// A download's bytes have been queued.
    DownloadFinished {
        /// One-based transfer index.
        transfer_index: usize,
        /// Number of transfers.
        transfer_count: usize,
        /// Bytes of the download.
        bytes: u32,
    },
    /// Download bytes have been produced.
    DownloadBytes {
        /// One-based transfer index.
        transfer_index: usize,
        /// Number of transfers.
        transfer_count: usize,
        /// Bytes produced.
        bytes: u64,
    },
    /// The flash command is about to run.
    FlashStarted {
        /// One-based transfer index.
        transfer_index: usize,
        /// Number of transfers.
        transfer_count: usize,
    },
    /// The flash command finished.
    FlashFinished {
        /// One-based transfer index.
        transfer_index: usize,
        /// Number of transfers.
        transfer_count: usize,
    },
}

/// How far a progress event moves the partition's row and the total row:
/// the bytes of a download chunk, nothing for the other events.
pub fn progress_advance(event: FlashProgress) -> (n: u64)
    ensures
        n == (match event {
            FlashProgress::DownloadBytes { bytes, .. } => bytes,
            _ => 0u64,
        }),
{
    match event {
        FlashProgress::DownloadBytes { bytes, .. } => bytes,
        _ => 0,
    }
}

/// Errors while flashing a prepared image.
#[derive(Debug)]
pub enum FastbootExecutionError {
    /// A fastboot error.
    Fastboot(FastbootError),
    /// A download error.
    Download(DownloadError),
    /// The payload could not be produced.
    Payload(ImagePayloadError),
}

/// Whether a fastboot error is the device answering `FAIL`.
pub open spec fn is_failed_reply(err: FastbootError) -> bool {
    err matches FastbootError::Nusb(NusbFastBootError::FastbootFailed(_))
}

/// Whether a fastboot error is the device answering `FAIL`.
pub fn is_fastboot_failed(err: &FastbootError) -> (b: bool)
    ensures
        b == is_failed_reply(*err),
{
    match err {
        FastbootError::Nusb(NusbFastBootError::FastbootFailed(_)) => true,
        _ => false,
    }
}

/// Whether a failed flash may be skipped: the device answered `FAIL`.
pub fn should_skip_failed_partition(err: &FastbootExecutionError) -> (b: bool)
    ensures
        b == (*err matches FastbootExecutionError::Fastboot(e) && is_failed_reply(e)),
{
    match err {
        FastbootExecutionError::Fastboot(error) => is_fastboot_failed(error),
        _ => false,
    }
}

/// What to do after a partition's step failed.
#[derive(Clone, Copy, Debug, PartialEq, Eq, Structural)]
pub enum FailedStepChoice {
    /// Stop the run with the error.
    Abort,
    /// Skip the partition and go on.
    Skip,
    /// Ask the user whether to skip it (the default answer is yes).
    AskUser,
}

/// The choice for a failed step: a failure other than the device answering
/// `FAIL` stops the run; a `FAIL` is skipped under `--yes` and asked about
/// otherwise.
pub open spec fn failed_step_choice(skippable: bool, yes: bool) -> FailedStepChoice {
    if !skippable {
        FailedStepChoice::Abort
    } else if yes {
        FailedStepChoice::Skip
    } else {
        FailedStepChoice::AskUser
    }
}

/// What to do after flashing a partition failed.
pub fn failed_partition_choice(err: &FastbootExecutionError, yes: bool) -> (c: FailedStepChoice)
    ensures
        c == failed_step_choice(*err matches FastbootExecutionError::Fastboot(e) && is_failed_reply(e), yes),
{
    if !should_skip_failed_partition(err) {
        FailedStepChoice::Abort
    } else if yes {
        FailedStepChoice::Skip
    } else {
        FailedStepChoice::AskUser
    }
}

/// What to do after erasing a partition failed.
pub fn failed_erase_choice(err: &FastbootError, yes: bool) -> (c: FailedStepChoice)
    ensures
        c == failed_step_choice(is_failed_reply(*err), yes),
{
    if !is_fastboot_failed(err) {
        FailedStepChoice::Abort
    } else if yes {
        FailedStepChoice::Skip
    } else {
        FailedStepChoice::AskUser
    }
}

/// The question asked before skipping a failed partition.
pub fn skip_partition_question(partition: &str) -> (s: String)
    ensures
        s@ == "Skip "@ + partition@ + " and continue?"@,
{
    let a = concat("Skip ", partition);
    concat(a.as_str(), " and continue?")
}

/// Whether a `FAIL` reason says the variable does not exist.
pub fn is_missing_variable_message(message: &str) -> (b: bool)
    ensures
        b == has_substring(lower_ascii_seq(message@), "variable not found"@),
{
    let lower = to_ascii_lowercase(message);
    contains(lower.as_str(), "variable not found")
}

/// The value of `is-logical:<partition>`: `yes` or `no` in any ASCII case,
/// around white space.
pub fn parse_is_logical_value(value: &str) -> (r: Result<bool, String>)
    ensures
        lower_ascii_seq(trimmed(value@)) == "yes"@ ==> r == Ok::<bool, String>(true),
        lower_ascii_seq(trimmed(value@)) == "no"@ ==> r == Ok::<bool, String>(false),
        lower_ascii_seq(trimmed(value@)) != "yes"@ && lower_ascii_seq(trimmed(value@)) != "no"@
            ==> (r matches Err(m) && m@ == "unsupported logical partition value: "@
            + lower_ascii_seq(trimmed(value@))),
{
    let t = trim(value);
    let lower = to_ascii_lowercase(t.as_str());
    proof {
        reveal_strlit("yes");
        reveal_strlit("no");
        assert("yes"@ != "no"@) by {
            assert("yes"@.len() != "no"@.len());
        }
    }
    if crate::text::str_eq(lower.as_str(), "yes") {
        Ok(true)
    } else if crate::text::str_eq(lower.as_str(), "no") {
        Ok(false)
    } else {
        Err(concat("unsupported logical partition value: ", lower.as_str()))
    }
}

/// The answer to `is-logical:<partition>`: a missing variable means not
/// logical; other failures pass through; a value must be `yes` or `no`.
pub fn is_logical_from_reply(reply: Result<String, NusbFastBootError>) -> (r: Result<bool, NusbFastBootError>)
    ensures
        match reply {
            Err(NusbFastBootError::FastbootFailed(m)) => if has_substring(lower_ascii_seq(m@), "variable not found"@) {
                r == Ok::<bool, NusbFastBootError>(false)
            } else {
                r matches Err(NusbFastBootError::FastbootFailed(m2)) && m2 == m
            },
            Err(_) => r is Err,
            Ok(v) => if lower_ascii_seq(trimmed(v@)) == "yes"@ {
                r == Ok::<bool, NusbFastBootError>(true)
            } else if lower_ascii_seq(trimmed(v@)) == "no"@ {
                r == Ok::<bool, NusbFastBootError>(false)
            } else {
                r matches Err(NusbFastBootError::InvalidVariable { name, value, reason }) && name@ == "is-logical"@ && value == v
                    && reason@ == "unsupported logical partition value: "@ + lower_ascii_seq(trimmed(v@))
            },
        },
{
    let value = match reply {
        Ok(value) => value,
        Err(NusbFastBootError::FastbootFailed(message)) => {
            if is_missing_variable_message(message.as_str()) {
                return Ok(false);
            }
            return Err(NusbFastBootError::FastbootFailed(message));
        },
        Err(error) => {
            return Err(error);
        },
    };
    match parse_is_logical_value(value.as_str()) {
        Ok(b) => Ok(b),
        Err(reason) => Err(NusbFastBootError::InvalidVariable { name: "is-logical", value, reason }),
    }
}

/// The answer to an optional variable: a missing variable is `None`.
pub fn optional_var_from_reply(reply: Result<String, NusbFastBootError>) -> (r: Result<Option<String>, NusbFastBootError>)
    ensures
        match reply {
            Ok(v) => r == Ok::<Option<String>, NusbFastBootError>(Some(v)),
            Err(NusbFastBootError::FastbootFailed(m)) => if has_substring(lower_ascii_seq(m@), "variable not found"@) {
                r == Ok::<Option<String>, NusbFastBootError>(None)
            } else {
                r matches Err(NusbFastBootError::FastbootFailed(m2)) && m2 == m
            },
            Err(_) => r is Err,
        },
{
    match reply {
        Ok(v) => Ok(Some(v)),
        Err(NusbFastBootError::FastbootFailed(message)) => {
            if is_missing_variable_message(message.as_str()) {
                Ok(None)
            } else {
                Err(NusbFastBootError::FastbootFailed(message))
            }
        },
        Err(e) => Err(e),
    }
}

/// The value of `max-download-size`, or why it cannot be used.
pub fn max_download_size_from_value(value: String) -> (r: Result<u32, NusbFastBootError>)
    ensures
        match spec_parse_u32(value@) {
            Some(n) => r matches Ok(m) && m == n,
            None => r matches Err(NusbFastBootError::InvalidVariable { name, value: v, .. }) && name@ == "max-download-size"@ && v == value,
        },
{
    match parse_u32(value.as_str()) {
        Ok(n) => Ok(n),
        Err(_) => Err(
            NusbFastBootError::InvalidVariable {
                name: "max-download-size",
                value,
                reason: owned("invalid digit found in string"),
            },
        ),
    }
}

/// The value of `current-slot`, `a` or `b`, or why it cannot be used.
pub fn current_slot_from_value(value: String) -> (r: Result<String, NusbFastBootError>)
    ensures
        match spec_normalize_slot(value@) {
            Ok(s) => r matches Ok(t) && t@ == s,
            Err(o) => r matches Err(NusbFastBootError::InvalidVariable { name, value: v, reason }) && name@ == "current-slot"@ && v == value
                && reason@ == "unsupported slot value: "@ + o,
        },
{
    match normalize_slot(value.as_str()) {
        Ok(s) => Ok(s),
        Err(e) => {
            let reason = e.message();
            Err(NusbFastBootError::InvalidVariable { name: "current-slot", value, reason })
        },
    }
}

/// A USB interface as its descriptor describes it.
#[derive(Clone, Copy, Debug, PartialEq, Eq, Structural)]
pub struct UsbInterface {
    /// Interface class.
    pub class: u8,
    /// Interface subclass.
    pub subclass: u8,
    /// Interface protocol.
    pub protocol: u8,
    /// Interface number.
    pub number: u8,
}

/// Whether an interface is a fastboot one: class 0xff, subclass 0x42,
/// protocol 3.
pub open spec fn is_fastboot_interface_spec(i: UsbInterface) -> bool {
    i.class == 0xff && i.subclass == 0x42 && i.protocol == 3
}

/// The number of the first fastboot interface.
pub fn find_fastboot_interface(interfaces: &[UsbInterface]) -> (r: Option<u8>)
    ensures
        r is None <==> forall|k: int| 0 <= k < interfaces@.len() ==> !is_fastboot_interface_spec(#[trigger] interfaces@[k]),
        r matches Some(n) ==> exists|k: int| 0 <= k < interfaces@.len() && is_fastboot_interface_spec(interfaces@[k])
            && interfaces@[k].number == n && forall|j: int| 0 <= j < k ==> !is_fastboot_interface_spec(#[trigger] interfaces@[j]),
{
    let mut i: usize = 0;
    while i < interfaces.len()
        invariant
            0 <= i <= interfaces@.len(),
            forall|j: int| 0 <= j < i ==> !is_fastboot_interface_spec(#[trigger] interfaces@[j]),
        decreases interfaces@.len() - i,
    {
        let it = interfaces[i];
        if it.class == 0xff && it.subclass == 0x42 && it.protocol == 3 {
            return Some(it.number);
        }
        i = i + 1;
    }
    None
}

/// Direction of a USB endpoint.
#[derive(Clone, Copy, Debug, PartialEq, Eq, Structural)]
pub enum EndpointDirection {
    /// Host to device.
    Out,
    /// Device to host.
    In,
}

/// A USB endpoint as its descriptor describes it.
#[derive(Clone, Copy, Debug, PartialEq, Eq, Structural)]
pub struct UsbEndpoint {
    /// Whether it is a bulk endpoint.
    pub bulk: bool,
    /// Direction.
    pub direction: EndpointDirection,
    /// Endpoint address.
    pub address: u8,
    /// Largest packet size.
    pub max_packet_size: usize,
}

/// The address and packet size of the first bulk endpoint in direction `d`.
pub open spec fn first_bulk(eps: Seq<UsbEndpoint>, d: EndpointDirection) -> Option<(u8, usize)>
    decreases eps.len(),
{
    if eps.len() == 0 {
        None
    } else if eps[0].bulk && eps[0].direction == d {
        Some((eps[0].address, eps[0].max_packet_size))
    } else {
        first_bulk(eps.drop_first(), d)
    }
}

fn find_bulk(eps: &Vec<UsbEndpoint>, d: EndpointDirection) -> (r: Option<(u8, usize)>)
    ensures
        r == first_bulk(eps@, d),
{
    let mut i: usize = 0;
    assert(eps@.skip(0) =~= eps@);
    while i < eps.len()
        invariant
            0 <= i <= eps@.len(),
            first_bulk(eps@.skip(i as int), d) == first_bulk(eps@, d),
        decreases eps@.len() - i,
    {
        let e = eps[i];
        if e.bulk && e.direction == d {
            assert(eps@.skip(i as int)[0] == e);
            return Some((e.address, e.max_packet_size));
        }
        assert(eps@.skip(i as int).drop_first() =~= eps@.skip(i + 1));
        i = i + 1;
    }
    assert(eps@.skip(i as int) =~= Seq::<UsbEndpoint>::empty());
    None
}

/// The endpoints of the first alternate setting with a bulk OUT and a bulk
/// IN endpoint: OUT address and packet size, then IN address and size.
pub open spec fn first_bulk_pair(alts: Seq<Vec<UsbEndpoint>>) -> Option<(u8, usize, u8, usize)>
    decreases alts.len(),
{
    if alts.len() == 0 {
        None
    } else {
        match (first_bulk(alts[0]@, EndpointDirection::Out), first_bulk(alts[0]@, EndpointDirection::In)) {
            (Some(o), Some(i)) => Some((o.0, o.1, i.0, i.1)),
            _ => first_bulk_pair(alts.drop_first()),
        }
    }
}

/// The bulk endpoints fastboot talks over: those of the first alternate
/// setting that has both a bulk OUT and a bulk IN endpoint.
pub fn select_bulk_endpoints(alts: &Vec<Vec<UsbEndpoint>>) -> (r: Result<(u8, usize, u8, usize), NusbFastBootOpenError>)
    ensures
        match first_bulk_pair(alts@) {
            Some(p) => r matches Ok(q) && q == p,
            None => r matches Err(NusbFastBootOpenError::MissingEndpoints),
        },
{
    let mut k: usize = 0;
    assert(alts@.skip(0) =~= alts@);
    while k < alts.len()
        invariant
            0 <= k <= alts@.len(),
            first_bulk_pair(alts@.skip(k as int)) == first_bulk_pair(alts@),
        decreases alts@.len() - k,
    {
        let o = find_bulk(&alts[k], EndpointDirection::Out);
        let i = find_bulk(&alts[k], EndpointDirection::In);
        assert(alts@.skip(k as int)[0] == alts@[k as int]);
        match (o, i) {
            (Some(o), Some(i)) => {
                return Ok((o.0, o.1, i.0, i.1));
            },
            _ => {},
        }
        assert(alts@.skip(k as int).drop_first() =~= alts@.skip(k + 1));
        k = k + 1;
    }
    assert(alts@.skip(k as int) =~= Seq::<Vec<UsbEndpoint>>::empty());
    Err(NusbFastBootOpenError::MissingEndpoints)
}

/// The size of a download buffer: 1 MiB rounded up to a multiple of the
/// OUT endpoint's packet size.
pub fn download_buffer_size(max_out: usize) -> (n: usize)
    requires
        0 < max_out <= 1048576,
    ensures
        n % max_out == 0,
        1048576 <= n < 1048576 + max_out,
{
    let r = 1048576 % max_out;
    proof {
        let m = max_out as int;
        let q = 1048576int / m;
        vstd::arithmetic::div_mod::lemma_fundamental_div_mod(1048576, m);
        vstd::arithmetic::div_mod::lemma_mod_multiples_basic(q, m);
        vstd::arithmetic::div_mod::lemma_mod_multiples_basic(q + 1, m);
        assert(m * q == q * m) by (nonlinear_arith);
        assert((q + 1) * m == q * m + m) by (nonlinear_arith);
    }
    if r == 0 {
        1048576
    } else {
        1048576 - r + max_out
    }
}

/// Byte accounting of a download: announced size and bytes still owed.
pub struct DownloadAccount {
    size: u32,
    left: u32,
}

impl DownloadAccount {
    /// Announced size.
    pub closed spec fn spec_size(&self) -> u32 {
        self.size
    }

    /// Bytes still owed.
    pub closed spec fn spec_left(&self) -> u32 {
        self.left
    }

    /// Left never exceeds the size.
    pub closed spec fn wf(&self) -> bool {
        self.left <= self.size
    }

    /// A download of `size` bytes, none given yet.
    pub fn new(size: u32) -> (a: DownloadAccount)
        ensures
            a.wf(),
            a.spec_size() == size,
            a.spec_left() == size,
    {
        DownloadAccount { size, left: size }
    }

    /// Announced size.
    pub fn size(&self) -> (n: u32)
        ensures
            n == self.spec_size(),
    {
        self.size
    }

    /// Bytes still owed.
    pub fn left(&self) -> (n: u32)
        ensures
            n == self.spec_left(),
    {
        self.left
    }

    /// Takes `n` more bytes; more than are owed is an error that counts what
    /// the download would then have been given.
    pub fn update_size(&mut self, n: u32) -> (r: Result<(), DownloadError>)
        requires
            old(self).wf(),
            n > old(self).spec_left() ==> n - old(self).spec_left() + old(self).spec_size() <= u32::MAX,
        ensures
            final(self).wf(),
            final(self).spec_size() == old(self).spec_size(),
            n <= old(self).spec_left() ==> r is Ok && final(self).spec_left() == old(self).spec_left() - n,
            n > old(self).spec_left() ==> final(self).spec_left() == old(self).spec_left() && (r matches Err(DownloadError::IncorrectDataLength { actual, expected })
                && expected == old(self).spec_size() && actual == n - old(self).spec_left() + old(self).spec_size()),
    {
        if n > self.left {
            return Err(DownloadError::IncorrectDataLength { expected: self.size, actual: n - self.left + self.size });
        }
        self.left = self.left - n;
        Ok(())
    }

    /// Checks that all announced bytes were given.
    pub fn check_complete(&self) -> (r: Result<(), DownloadError>)
        requires
            self.wf(),
        ensures
            self.spec_left() == 0 ==> r is Ok,
            self.spec_left() != 0 ==> (r matches Err(DownloadError::IncorrectDataLength { actual, expected })
                && expected == self.spec_size() && actual == self.spec_size() - self.spec_left()),
    {
        if self.left != 0 {
            return Err(DownloadError::IncorrectDataLength { expected: self.size, actual: self.size - self.left });
        }
        Ok(())
    }
}

/// How data is laid into download buffers of `capacity` bytes when the
/// current buffer holds `len`: the pieces that go into successive buffers
/// (every buffer but the last is full and sent before the next begins),
/// and how much the last buffer then holds.
pub open spec fn fill_pieces(capacity: int, len: int, n: int) -> (Seq<int>, int)
    decreases n, (if len >= capacity { 1int } else { 0int }),
{
    if capacity <= 0 || len < 0 || len > capacity || n < 0 {
        (seq![], len)
    } else if capacity - len >= n {
        (seq![n], len + n)
    } else {
        let rest = fill_pieces(capacity, 0, n - (capacity - len));
        (seq![capacity - len] + rest.0, rest.1)
    }
}

/// The sum of pieces.
pub open spec fn pieces_total(p: Seq<int>) -> int
    decreases p.len(),
{
    if p.len() == 0 { 0 } else { pieces_total(p.drop_last()) + p.last() }
}

/// The buffer being filled for a download.
#[derive(Clone, Copy, Debug, PartialEq, Eq, Structural)]
pub struct DownloadBuffer {
    /// Bytes a buffer holds when full.
    pub capacity: usize,
    /// Bytes in the current buffer.
    pub len: usize,
}

impl DownloadBuffer {
    /// Whether the buffer is coherent: a positive capacity, not exceeded.
    pub open spec fn wf(self) -> bool {
        0 < self.capacity && self.len <= self.capacity
    }

    /// An empty buffer of `capacity` bytes.
    pub fn new(capacity: usize) -> (b: DownloadBuffer)
        requires
            capacity > 0,
        ensures
            b.wf(),
            b.capacity == capacity,
            b.len == 0,
    {
        DownloadBuffer { capacity, len: 0 }
    }

    /// Lays `n` bytes into the buffers: the pieces for successive buffers,
    /// where every buffer before the last is full and sent.
    pub fn extend(&mut self, n: usize) -> (pieces: Vec<usize>)
        requires
            old(self).wf(),
        ensures
            final(self).wf(),
            final(self).capacity == old(self).capacity,
            pieces@.map_values(|k: usize| k as int) == fill_pieces(old(self).capacity as int, old(self).len as int, n as int).0,
            final(self).len == fill_pieces(old(self).capacity as int, old(self).len as int, n as int).1,
    {
        let ghost cap = self.capacity as int;
        let ghost start = self.len as int;
        let mut pieces: Vec<usize> = Vec::new();
        let mut rest = n;
        proof {
            assert(pieces@.map_values(|k: usize| k as int) + fill_pieces(cap, start, n as int).0 =~= fill_pieces(cap, start, n as int).0);
        }
        loop
            invariant
                self.wf(),
                self.capacity == cap,
                cap == old(self).capacity,
                start == old(self).len,
                pieces@.map_values(|k: usize| k as int) + fill_pieces(cap, self.len as int, rest as int).0
                    == fill_pieces(cap, start, n as int).0,
                fill_pieces(cap, self.len as int, rest as int).1 == fill_pieces(cap, start, n as int).1,
            decreases rest, (if self.len >= self.capacity { 1int } else { 0int }),
        {
            let left = self.capacity - self.len;
            let ghost before = pieces@.map_values(|k: usize| k as int);
            if left >= rest {
                pieces.push(rest);
                self.len = self.len + rest;
                proof {
                    assert(pieces@.map_values(|k: usize| k as int) =~= before.push(rest as int));
                    assert(before + seq![rest as int] =~= before.push(rest as int));
                }
                return pieces;
            }
            pieces.push(left);
            proof {
                let r = fill_pieces(cap, 0, rest - left);
                assert(fill_pieces(cap, self.len as int, rest as int).0 == seq![left as int] + r.0);
                assert(pieces@.map_values(|k: usize| k as int) =~= before.push(left as int));
                assert(before.push(left as int) + r.0 =~= before + (seq![left as int] + r.0));
            }
            self.len = 0;
            rest = rest - left;
        }
    }

    /// Makes room for at most `max` bytes: a full buffer is sent first (the
    /// first result says so), then as many bytes as fit, up to `max`, are
    /// taken in the current buffer (the second result).
    pub fn reserve(&mut self, max: usize) -> (r: (bool, usize))
        requires
            old(self).wf(),
        ensures
            final(self).wf(),
            final(self).capacity == old(self).capacity,
            r.0 == (old(self).len == old(self).capacity),
            ({
                let start: int = if r.0 { 0 } else { old(self).len as int };
                let room: int = old(self).capacity - start;
                &&& r.1 == (if room < max { room } else { max as int })
                &&& final(self).len == start + r.1
            }),
    {
        let flushed = self.len == self.capacity;
        if flushed {
            self.len = 0;
        }
        let left = self.capacity - self.len;
        let size = if left < max { left } else { max };
        self.len = self.len + size;
        (flushed, size)
    }
}

/// The pieces of a fill add up to the bytes laid in.
pub proof fn lemma_fill_pieces_total(capacity: int, len: int, n: int)
    requires
        0 < capacity,
        0 <= len <= capacity,
        0 <= n,
    ensures
        pieces_total(fill_pieces(capacity, len, n).0) == n,
        forall|k: int| 0 <= k < fill_pieces(capacity, len, n).0.len() ==> 0 <= #[trigger] fill_pieces(capacity, len, n).0[k] <= capacity,
        0 <= fill_pieces(capacity, len, n).1 <= capacity,
    decreases n, (if len >= capacity { 1int } else { 0int }),
{
    if capacity - len < n {
        lemma_fill_pieces_total(capacity, 0, n - (capacity - len));
        let r = fill_pieces(capacity, 0, n - (capacity - len)).0;
        let p = seq![capacity - len] + r;
        lemma_pieces_total_prepend(capacity - len, r);
        assert(fill_pieces(capacity, len, n).0 == p);
        assert forall|k: int| 0 <= k < p.len() implies 0 <= #[trigger] p[k] <= capacity by {
            if k > 0 {
                assert(p[k] == r[k - 1]);
            }
        }
    } else {
        assert(pieces_total(seq![n]) == pieces_total(seq![n].drop_last()) + n);
        assert(seq![n].drop_last() =~= Seq::<int>::empty());
    }
}

proof fn lemma_pieces_total_prepend(a: int, r: Seq<int>)
    ensures
        pieces_total(seq![a] + r) == a + pieces_total(r),
    decreases r.len(),
{
    if r.len() == 0 {
        assert(seq![a] + r =~= seq![a]);
        assert(seq![a].drop_last() =~= Seq::<int>::empty());
        assert(pieces_total(Seq::<int>::empty()) == 0);
        assert(seq![a].last() == a);
    } else {
        assert((seq![a] + r).drop_last() =~= seq![a] + r.drop_last());
        assert((seq![a] + r).last() == r.last());
        lemma_pieces_total_prepend(a, r.drop_last());
    }
}

} // verus!
