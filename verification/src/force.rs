//! Forcing a MediaTek preloader into fastboot mode: finding its serial
//! port, deciding what to do about permissions, and the handshake.

use vstd::prelude::*;
use crate::gsi::holds;
use crate::text::{concat, contains, has_substring, lowercase_text, owned, str_eq, to_lowercase};

verus! {

/// An I/O error.
#[verifier::external_type_specification]
#[verifier::external_body]
pub struct ExIoError(std::io::Error);

/// Errors of forcing fastboot mode.
#[derive(Clone, Debug, PartialEq, Eq)]
pub enum ForceFastbootError {
    /// No preloader device was found.
    NoDevice(String),
    /// The port could not be opened for lack of permission.
    PermissionDenied(String),
    /// The serial port failed.
    Serial(String),
    /// The handshake failed.
    Protocol(String),
    /// Installing udev rules failed.
    Udev(String),
}

impl ForceFastbootError {
    /// The error's message.
    pub fn message(&self) -> (s: String)
        ensures
            match self {
                ForceFastbootError::NoDevice(m) => s@ == "no MTK preloader device found: "@ + m@,
                ForceFastbootError::PermissionDenied(m) => s@ == "permission denied: "@ + m@,
                ForceFastbootError::Serial(m) => s@ == "serial port error: "@ + m@,
                ForceFastbootError::Protocol(m) => s@ == "protocol handshake failed: "@ + m@,
                ForceFastbootError::Udev(m) => s@ == "udev setup failed: "@ + m@,
            },
    {
        match self {
            ForceFastbootError::NoDevice(m) => concat("no MTK preloader device found: ", m.as_str()),
            ForceFastbootError::PermissionDenied(m) => concat("permission denied: ", m.as_str()),
            ForceFastbootError::Serial(m) => concat("serial port error: ", m.as_str()),
            ForceFastbootError::Protocol(m) => concat("protocol handshake failed: ", m.as_str()),
            ForceFastbootError::Udev(m) => concat("udev setup failed: ", m.as_str()),
        }
    }
}

/// Options of forcing fastboot mode.
#[derive(Clone, Debug, PartialEq, Eq)]
pub struct ForceFastbootOptions {
    /// A serial port to use instead of waiting for a new one.
    pub port: Option<String>,
    /// Do not install udev rules when permission is denied.
    pub no_auto_udev: bool,
}

impl ForceFastbootOptions {
    /// Wait for a new port and install udev rules where needed.
    pub fn default_options() -> (o: ForceFastbootOptions)
        ensures
            o.port is None,
            !o.no_auto_udev,
    {
        ForceFastbootOptions { port: None, no_auto_udev: false }
    }
}

/// What happened on a serial port, in order.
pub enum SerialEvent {
    /// A byte was read, or nothing before the timeout.
    Read(Option<u8>),
    /// A read failed.
    ReadFailed,
    /// Buffered input was discarded.
    Flush,
    /// Discarding buffered input failed.
    FlushFailed,
    /// Bytes were written and flushed.
    Write(Seq<u8>),
    /// Writing these bytes failed.
    WriteFailed(Seq<u8>),
}

/// Byte I/O on a serial port.
pub trait SerialIo {
    /// What has happened on the port so far: each call of the methods below
    /// adds one event. The default, an empty record that never grows, makes
    /// those contracts unmeetable: a port that keeps it (as the ports outside
    /// the library do, since they cannot define a spec function) is not
    /// covered by what is proved here; only a port that defines its record is.
    closed spec fn io_log(&self) -> Seq<SerialEvent> {
        Seq::empty()
    }

    /// Reads one byte; `None` on timeout or end of stream.
    fn read_byte(&mut self) -> (r: std::io::Result<Option<u8>>)
        ensures
            final(self).io_log() == old(self).io_log().push(match r {
                Ok(b) => SerialEvent::Read(b),
                Err(_) => SerialEvent::ReadFailed,
            });

    /// Discards buffered input.
    fn flush_input(&mut self) -> (r: std::io::Result<()>)
        ensures
            final(self).io_log() == old(self).io_log().push(if r is Ok {
                SerialEvent::Flush
            } else {
                SerialEvent::FlushFailed
            });

    /// Writes all of `buf` and flushes.
    fn write_all(&mut self, buf: &[u8]) -> (r: std::io::Result<()>)
        ensures
            final(self).io_log() == old(self).io_log().push(if r is Ok {
                SerialEvent::Write(buf@)
            } else {
                SerialEvent::WriteFailed(buf@)
            });
}

/// The log of reading `rs`, in order.
pub open spec fn reads_log(rs: Seq<Option<u8>>) -> Seq<SerialEvent> {
    rs.map_values(|b: Option<u8>| SerialEvent::Read(b))
}

/// Whether none of the bytes read is `Y`.
pub open spec fn no_start_byte(rs: Seq<Option<u8>>) -> bool {
    forall|j: int| 0 <= j < rs.len() ==> rs[j] != Some(0x59u8)
}

/// The reads of a completed handshake: bytes up to and including the first
/// `Y`.
pub open spec fn handshake_log(rs: Seq<Option<u8>>) -> bool {
    &&& rs.len() >= 1
    &&& rs.last() == Some(0x59u8)
    &&& no_start_byte(rs.drop_last())
}

/// What the handshake did on the port when it failed: a read failed before
/// any `Y`; or `u64::MAX` reads brought no `Y`; or after the `Y` the flush
/// failed, or the flush worked and writing `FASTBOOT` failed.
pub open spec fn handshake_failure(added: Seq<SerialEvent>) -> bool {
    exists|rs: Seq<Option<u8>>| #![trigger reads_log(rs)] {
        ||| no_start_byte(rs) && added == reads_log(rs).push(SerialEvent::ReadFailed)
        ||| no_start_byte(rs) && rs.len() == u64::MAX && added == reads_log(rs)
        ||| handshake_log(rs) && added == reads_log(rs).push(SerialEvent::FlushFailed)
        ||| handshake_log(rs) && added == reads_log(rs) + seq![SerialEvent::Flush, SerialEvent::WriteFailed(fastboot_bytes())]
    }
}

/// What to do with a byte read while waiting for the preloader.
#[derive(Clone, Copy, Debug, PartialEq, Eq, Structural)]
pub enum HandshakeAction {
    /// Keep reading.
    KeepReading,
    /// Discard input and send `FASTBOOT`.
    SendFastboot,
}

/// The handshake decision: the preloader's `Y` starts it; anything else,
/// or nothing, is read past.
pub fn handshake_action(byte: Option<u8>) -> (a: HandshakeAction)
    ensures
        a == (if byte == Some(0x59u8) { HandshakeAction::SendFastboot } else { HandshakeAction::KeepReading }),
{
    match byte {
        Some(b) => if b == 0x59 {
            HandshakeAction::SendFastboot
        } else {
            HandshakeAction::KeepReading
        },
        None => HandshakeAction::KeepReading,
    }
}

/// The bytes of the `FASTBOOT` command.
pub open spec fn fastboot_bytes() -> Seq<u8> {
    seq![0x46u8, 0x41, 0x53, 0x54, 0x42, 0x4f, 0x4f, 0x54]
}

/// The `FASTBOOT` command bytes.
pub fn fastboot_command() -> (v: Vec<u8>)
    ensures
        v@ == fastboot_bytes(),
{
    let v: Vec<u8> = vec![0x46u8, 0x41, 0x53, 0x54, 0x42, 0x4f, 0x4f, 0x54];
    assert(v@ =~= fastboot_bytes());
    v
}

/// An error for a handshake that never saw the start byte.
///
/// Calls `std::io::Error::new` with `ErrorKind::TimedOut`.
#[verifier::external_body]
fn handshake_timed_out() -> std::io::Error {
    std::io::Error::new(std::io::ErrorKind::TimedOut, "no preloader start byte")
}

/// The preloader handshake: read bytes until `Y`, then discard input and
/// send `FASTBOOT`. Gives up with a timeout error only after `u64::MAX`
/// reads. On success the port has seen exactly the reads up to the first
/// `Y`, a flush and the `FASTBOOT` write, in that order; on failure, what
/// [`handshake_failure`] describes.
pub fn force_fastboot<P: SerialIo>(port: &mut P) -> (r: std::io::Result<()>)
    ensures
        r is Ok ==> exists|rs: Seq<Option<u8>>| #![trigger reads_log(rs)] handshake_log(rs) && final(port).io_log()
            == old(port).io_log() + reads_log(rs) + seq![SerialEvent::Flush, SerialEvent::Write(fastboot_bytes())],
        r is Err ==> exists|added: Seq<SerialEvent>| #![trigger handshake_failure(added)] handshake_failure(added)
            && final(port).io_log() == old(port).io_log() + added,
{
    let ghost start = port.io_log();
    let ghost mut rs: Seq<Option<u8>> = Seq::empty();
    let mut budget: u64 = u64::MAX;
    while budget > 0
        invariant
            start == old(port).io_log(),
            port.io_log() == start + reads_log(rs),
            no_start_byte(rs),
            rs.len() == u64::MAX - budget,
        decreases budget,
    {
        let ghost before = rs;
        let read = port.read_byte();
        let byte = match read {
            Ok(b) => b,
            Err(e) => {
                proof {
                    let added = reads_log(rs).push(SerialEvent::ReadFailed);
                    assert(handshake_failure(added));
                    assert(port.io_log() =~= start + added);
                }
                return Err(e);
            },
        };
        proof {
            rs = rs.push(byte);
            assert(reads_log(rs) =~= reads_log(before).push(SerialEvent::Read(byte)));
            assert(rs.drop_last() =~= before);
        }
        match handshake_action(byte) {
            HandshakeAction::SendFastboot => {
                let flushed = port.flush_input();
                if let Err(e) = flushed {
                    proof {
                        let added = reads_log(rs).push(SerialEvent::FlushFailed);
                        assert(handshake_failure(added));
                        assert(port.io_log() =~= start + added);
                    }
                    return Err(e);
                }
                let cmd = fastboot_command();
                let written = port.write_all(cmd.as_slice());
                if let Err(e) = written {
                    proof {
                        let added = reads_log(rs) + seq![SerialEvent::Flush, SerialEvent::WriteFailed(fastboot_bytes())];
                        assert(port.io_log() =~= start + added);
                        assert(handshake_failure(added));
                    }
                    return Err(e);
                }
                proof {
                    assert(handshake_log(rs));
                    assert(port.io_log() =~= start + reads_log(rs) + seq![SerialEvent::Flush, SerialEvent::Write(fastboot_bytes())]);
                }
                return Ok(());
            },
            HandshakeAction::KeepReading => {},
        }
        budget = budget - 1;
    }
    proof {
        assert(handshake_failure(reads_log(rs)));
        assert(port.io_log() =~= start + reads_log(rs));
    }
    Err(handshake_timed_out())
}

/// A serial port that may be the preloader.
#[derive(Clone, Debug, PartialEq, Eq)]
pub struct PortCandidate {
    /// Device path.
    pub device: String,
    /// USB product description.
    pub description: String,
    /// USB serial number.
    pub hwid: String,
    /// USB vendor id.
    pub vid: Option<u16>,
    /// USB product id.
    pub pid: Option<u16>,
}

/// Whether two candidates have the same fields, strings compared by text.
pub open spec fn same_candidate(a: PortCandidate, b: PortCandidate) -> bool {
    a.device@ == b.device@ && a.description@ == b.description@ && a.hwid@ == b.hwid@ && a.vid == b.vid && a.pid == b.pid
}

/// A copy of a candidate.
pub fn copy_candidate(c: &PortCandidate) -> (r: PortCandidate)
    ensures
        same_candidate(r, *c),
{
    PortCandidate { device: c.device.clone(), description: c.description.clone(), hwid: c.hwid.clone(), vid: c.vid, pid: c.pid }
}

/// Why a port could not be opened.
#[derive(Clone, Debug, PartialEq, Eq)]
pub struct OpenFailure {
    /// Whether it was for lack of permission.
    pub permission_denied: bool,
    /// What went wrong.
    pub message: String,
}

/// Whether an error message says permission was denied, in any case.
pub open spec fn is_permission_text(m: Seq<char>) -> bool {
    has_substring(lowercase_text(m), "permission denied"@) || has_substring(lowercase_text(m), "access is denied"@)
        || has_substring(lowercase_text(m), "access denied"@)
}

/// Whether an error message says permission was denied.
pub fn is_permission_message(message: &str) -> (b: bool)
    ensures
        b == is_permission_text(message@),
{
    let lower = to_lowercase(message);
    contains(lower.as_str(), "permission denied") || contains(lower.as_str(), "access is denied") || contains(
        lower.as_str(),
        "access denied",
    )
}

/// Whether an error is for lack of permission: its kind says so (the I/O
/// kind `PermissionDenied` or an `EACCES`/`EPERM` code, as the caller reads
/// it), or its message does.
pub fn is_permission_error(kind_denied: bool, message: &str) -> (b: bool)
    ensures
        b == (kind_denied || is_permission_text(message@)),
{
    kind_denied || is_permission_message(message)
}

/// A source of serial ports.
pub trait PortDiscovery {
    /// The ports now present.
    fn list_candidates(&self) -> Vec<PortCandidate>;

    /// Tries to open a port.
    fn try_open(&self, device: &str) -> Result<(), OpenFailure>;
}

/// The result of looking for a new port.
#[derive(Clone, Debug, PartialEq, Eq)]
pub enum PortSearchResult {
    /// A new port that opened.
    Openable(PortCandidate),
    /// None opened; the last new port refused for lack of permission, if any.
    NothingFound {
        /// That port.
        permission_denied: Option<PortCandidate>,
    },
}

/// Whether two search results agree, candidates compared by their fields.
pub open spec fn same_result(a: PortSearchResult, b: PortSearchResult) -> bool {
    match (a, b) {
        (PortSearchResult::Openable(x), PortSearchResult::Openable(y)) => same_candidate(x, y),
        (PortSearchResult::NothingFound { permission_denied: None }, PortSearchResult::NothingFound { permission_denied: None }) => true,
        (PortSearchResult::NothingFound { permission_denied: Some(x) }, PortSearchResult::NothingFound { permission_denied: Some(y) }) => same_candidate(x, y),
        _ => false,
    }
}

/// How opening a port went.
#[derive(Clone, Copy, Debug, PartialEq, Eq, Structural)]
pub enum OpenOutcome {
    /// It opened.
    Opened,
    /// Permission was denied.
    Denied,
    /// It failed otherwise.
    Failed,
}

/// The result of looking at candidates `c` from index `i` on, skipping the
/// devices in `prev`, with `outs[k]` how opening `c[k]` went and `denied`
/// the last refused one so far.
pub open spec fn spec_search(c: Seq<PortCandidate>, prev: Seq<String>, outs: Seq<OpenOutcome>, i: int, denied: Option<PortCandidate>) -> PortSearchResult
    decreases c.len() - i,
{
    if i >= c.len() || i < 0 {
        PortSearchResult::NothingFound { permission_denied: denied }
    } else if holds(prev, c[i].device@) {
        spec_search(c, prev, outs, i + 1, denied)
    } else if outs[i] == OpenOutcome::Opened {
        PortSearchResult::Openable(c[i])
    } else if outs[i] == OpenOutcome::Denied {
        spec_search(c, prev, outs, i + 1, Some(c[i]))
    } else {
        spec_search(c, prev, outs, i + 1, denied)
    }
}

fn outcome_of(r: &Result<(), OpenFailure>) -> (o: OpenOutcome)
    ensures
        match r {
            Ok(_) => o == OpenOutcome::Opened,
            Err(f) => o == (if f.permission_denied { OpenOutcome::Denied } else { OpenOutcome::Failed }),
        },
{
    match r {
        Ok(()) => OpenOutcome::Opened,
        Err(f) => if f.permission_denied {
            OpenOutcome::Denied
        } else {
            OpenOutcome::Failed
        },
    }
}

/// The port search over candidates `c`, given how opening each went:
/// skip known devices; the first new one that opens is found; otherwise
/// report the last new one refused for permission.
pub fn select_new_port(c: &Vec<PortCandidate>, previous: &[String], outs: &Vec<OpenOutcome>) -> (r: PortSearchResult)
    requires
        outs@.len() == c@.len(),
    ensures
        same_result(r, spec_search(c@, previous@, outs@, 0, None)),
{
    let mut denied: Option<PortCandidate> = None;
    let ghost mut gdenied: Option<PortCandidate> = None;
    let mut i: usize = 0;
    while i < c.len()
        invariant
            0 <= i <= c@.len(),
            outs@.len() == c@.len(),
            spec_search(c@, previous@, outs@, i as int, gdenied) == spec_search(c@, previous@, outs@, 0, None),
            match (denied, gdenied) {
                (None, None) => true,
                (Some(x), Some(y)) => same_candidate(x, y),
                _ => false,
            },
        decreases c@.len() - i,
    {
        let known = crate::gsi::contains_string(previous, c[i].device.as_str());
        if !known {
            if outs[i] == OpenOutcome::Opened {
                return PortSearchResult::Openable(copy_candidate(&c[i]));
            } else if outs[i] == OpenOutcome::Denied {
                denied = Some(copy_candidate(&c[i]));
                proof {
                    gdenied = Some(c@[i as int]);
                }
            }
        }
        i = i + 1;
    }
    PortSearchResult::NothingFound { permission_denied: denied }
}

/// Whether the search tries to open a listed device: not once a port has
/// opened, and never one that was present before.
pub fn should_try(previous: &[String], device: &str, found: bool) -> (b: bool)
    ensures
        b == (!found && !holds(previous@, device@)),
{
    !found && !crate::gsi::contains_string(previous, device)
}

proof fn lemma_search_is_new(c: Seq<PortCandidate>, prev: Seq<String>, outs: Seq<OpenOutcome>, i: int, denied: Option<PortCandidate>)
    requires
        denied matches Some(d) ==> !holds(prev, d.device@),
    ensures
        ({
            let r = spec_search(c, prev, outs, i, denied);
            &&& r matches PortSearchResult::Openable(x) ==> !holds(prev, x.device@)
            &&& r matches PortSearchResult::NothingFound { permission_denied: Some(x) } ==> !holds(prev, x.device@)
        }),
    decreases c.len() - i,
{
    if 0 <= i < c.len() {
        if holds(prev, c[i].device@) {
            lemma_search_is_new(c, prev, outs, i + 1, denied);
        } else if outs[i] == OpenOutcome::Opened {
        } else if outs[i] == OpenOutcome::Denied {
            lemma_search_is_new(c, prev, outs, i + 1, Some(c[i]));
        } else {
            lemma_search_is_new(c, prev, outs, i + 1, denied);
        }
    }
}

/// Looks for a new port that opens: lists the ports present, tries to open
/// each one that [`should_try`] allows, in order, and reports as
/// [`select_new_port`] does for what the opens gave. A port found, or the
/// port reported as refused for permission, was not present before.
pub fn find_new_port<D: PortDiscovery>(previous: &[String], discovery: &D) -> (r: PortSearchResult)
    ensures
        exists|c: Seq<PortCandidate>, outs: Seq<OpenOutcome>| outs.len() == c.len() && same_result(r, spec_search(c, previous@, outs, 0, None)),
        r matches PortSearchResult::Openable(x) ==> !holds(previous@, x.device@),
        r matches PortSearchResult::NothingFound { permission_denied: Some(x) } ==> !holds(previous@, x.device@),
{
    let c = discovery.list_candidates();
    let mut outs: Vec<OpenOutcome> = Vec::new();
    let mut found = false;
    let mut i: usize = 0;
    while i < c.len()
        invariant
            0 <= i <= c@.len(),
            outs@.len() == i,
        decreases c@.len() - i,
    {
        if should_try(previous, c[i].device.as_str(), found) {
            let tried = discovery.try_open(c[i].device.as_str());
            let o = outcome_of(&tried);
            outs.push(o);
            if o == OpenOutcome::Opened {
                found = true;
            }
        } else {
            outs.push(OpenOutcome::Failed);
        }
        i = i + 1;
    }
    let r = select_new_port(&c, previous, &outs);
    proof {
        lemma_search_is_new(c@, previous@, outs@, 0, None);
    }
    r
}

/// The candidate for an explicitly chosen device: the listed one with that
/// path, else one marked as chosen by `--port`.
pub fn candidate_from_list(c: &Vec<PortCandidate>, device: &str) -> (r: PortCandidate)
    ensures
        r.device@ == device@,
        (exists|i: int| 0 <= i < c@.len() && #[trigger] c@[i].device@ == device@) ==> exists|i: int| 0 <= i < c@.len() && same_candidate(c@[i], r) && forall|k: int| 0 <= k < i ==> #[trigger] c@[k].device@ != device@,
        (forall|i: int| 0 <= i < c@.len() ==> #[trigger] c@[i].device@ != device@) ==> r.description@ == "selected by --port"@ && r.hwid@ == Seq::<char>::empty() && r.vid is None && r.pid is None,
{
    let mut i: usize = 0;
    while i < c.len()
        invariant
            0 <= i <= c@.len(),
            forall|k: int| 0 <= k < i ==> #[trigger] c@[k].device@ != device@,
        decreases c@.len() - i,
    {
        if str_eq(c[i].device.as_str(), device) {
            let r = copy_candidate(&c[i]);
            assert(same_candidate(c@[i as int], r));
            return r;
        }
        i = i + 1;
    }
    PortCandidate { device: owned(device), description: owned("selected by --port"), hwid: String::new(), vid: None, pid: None }
}

/// The candidate for an explicitly chosen device, from the ports present.
pub fn candidate_for_device<D: PortDiscovery>(device: &str, discovery: &D) -> (r: PortCandidate)
    ensures
        r.device@ == device@,
{
    let c = discovery.list_candidates();
    candidate_from_list(&c, device)
}

/// What to do after a search while waiting for a port.
#[derive(Clone, Debug, PartialEq, Eq)]
pub enum WaitAction {
    /// Use this port.
    Found(PortCandidate),
    /// Install udev rules for this refused port, then keep waiting.
    InstallUdev(PortCandidate),
    /// Show how to fix permissions for this refused port, then keep waiting.
    ShowGuidance(PortCandidate),
    /// Keep waiting.
    KeepWaiting,
}

/// The decision after a search: use a port that opened; for a refused port
/// not handled before, install rules or show guidance once; else wait.
pub fn wait_step(tried: &mut Vec<String>, result: PortSearchResult, auto_udev: bool) -> (a: WaitAction)
    ensures
        match result {
            PortSearchResult::Openable(c) => a == WaitAction::Found(c) && final(tried)@ == old(tried)@,
            PortSearchResult::NothingFound { permission_denied: None } => a == WaitAction::KeepWaiting && final(tried)@ == old(tried)@,
            PortSearchResult::NothingFound { permission_denied: Some(d) } => if holds(old(tried)@, d.device@) {
                a == WaitAction::KeepWaiting && final(tried)@ == old(tried)@
            } else {
                final(tried)@.len() == old(tried)@.len() + 1 && final(tried)@.last()@ == d.device@
                    && (forall|k: int| 0 <= k < old(tried)@.len() ==> final(tried)@[k] == old(tried)@[k])
                    && a == (if auto_udev { WaitAction::InstallUdev(d) } else { WaitAction::ShowGuidance(d) })
            },
        },
{
    match result {
        PortSearchResult::Openable(c) => WaitAction::Found(c),
        PortSearchResult::NothingFound { permission_denied: None } => WaitAction::KeepWaiting,
        PortSearchResult::NothingFound { permission_denied: Some(d) } => {
            if crate::gsi::contains_string(tried.as_slice(), d.device.as_str()) {
                WaitAction::KeepWaiting
            } else {
                tried.push(d.device.clone());
                if auto_udev {
                    WaitAction::InstallUdev(d)
                } else {
                    WaitAction::ShowGuidance(d)
                }
            }
        },
    }
}

/// The error for a port that did not open: a permission error or a serial
/// one, carrying the failure's message.
pub fn open_error(failure: OpenFailure) -> (e: ForceFastbootError)
    ensures
        failure.permission_denied ==> e == ForceFastbootError::PermissionDenied(failure.message),
        !failure.permission_denied ==> e == ForceFastbootError::Serial(failure.message),
{
    if failure.permission_denied {
        ForceFastbootError::PermissionDenied(failure.message)
    } else {
        ForceFastbootError::Serial(failure.message)
    }
}

/// The udev rules that give users access to MediaTek preloader ports.
pub fn render_udev_rules() -> (s: &'static str)
    ensures
        s@ == "# MediaTek Preloader / BROM / Download Agent\n# Common IDs: 0e8d:2000 preloader, 0e8d:0003 DA/BROM\n\nSUBSYSTEM==\"usb\", ATTR{idVendor}==\"0e8d\", MODE=\"0666\", TAG+=\"uaccess\"\nSUBSYSTEM==\"tty\", ATTRS{idVendor}==\"0e8d\", MODE=\"0666\", TAG+=\"uaccess\"\n"@,
{
    "# MediaTek Preloader / BROM / Download Agent\n# Common IDs: 0e8d:2000 preloader, 0e8d:0003 DA/BROM\n\nSUBSYSTEM==\"usb\", ATTR{idVendor}==\"0e8d\", MODE=\"0666\", TAG+=\"uaccess\"\nSUBSYSTEM==\"tty\", ATTRS{idVendor}==\"0e8d\", MODE=\"0666\", TAG+=\"uaccess\"\n"
}

/// Where the udev rules are installed.
pub fn udev_rule_path() -> (s: &'static str)
    ensures
        s@ == "/etc/udev/rules.d/99-mediatek-preloader.rules"@,
{
    "/etc/udev/rules.d/99-mediatek-preloader.rules"
}

/// Whether installed rules need writing: unless they already read exactly
/// as rendered.
pub fn udev_rules_need_install(existing: Option<&str>) -> (b: bool)
    ensures
        b == !(existing matches Some(e) && e@ == render_udev_rules_text()),
{
    match existing {
        Some(e) => !str_eq(e, render_udev_rules()),
        None => true,
    }
}

/// The rendered udev rules.
pub open spec fn render_udev_rules_text() -> Seq<char> {
    "# MediaTek Preloader / BROM / Download Agent\n# Common IDs: 0e8d:2000 preloader, 0e8d:0003 DA/BROM\n\nSUBSYSTEM==\"usb\", ATTR{idVendor}==\"0e8d\", MODE=\"0666\", TAG+=\"uaccess\"\nSUBSYSTEM==\"tty\", ATTRS{idVendor}==\"0e8d\", MODE=\"0666\", TAG+=\"uaccess\"\n"@
}

/// What to do after a port failed to open.
#[derive(Clone, Copy, Debug, PartialEq, Eq, Structural)]
pub enum OpenRecovery {
    /// Give up with the failure.
    Fail,
    /// Install the udev rules; where that worked, open the port once more,
    /// else give up with the failure.
    InstallUdevAndRetry,
    /// Show how to grant access, then give up with the failure.
    ShowGuidanceAndFail,
}

/// The recovery from a failed open: only a refusal for permission is
/// recovered from, by installing udev rules where that is allowed and by
/// showing guidance otherwise.
pub fn open_recovery(permission_denied: bool, auto_udev: bool) -> (a: OpenRecovery)
    ensures
        !permission_denied ==> a == OpenRecovery::Fail,
        permission_denied && auto_udev ==> a == OpenRecovery::InstallUdevAndRetry,
        permission_denied && !auto_udev ==> a == OpenRecovery::ShowGuidanceAndFail,
{
    if !permission_denied {
        OpenRecovery::Fail
    } else if auto_udev {
        OpenRecovery::InstallUdevAndRetry
    } else {
        OpenRecovery::ShowGuidanceAndFail
    }
}

} // verus!
