//! The fastboot wire protocol: the text of each host command, the parsing
//! of device replies, and what a host does with each reply while it waits
//! for a command to finish.

use vstd::prelude::*;
use vstd::utf8::{decode_utf8, valid_utf8};
use crate::text::{
    concat, format_hex8, format_u64, hex_digits, dec_str, parse_radix, parse_radix_bounded,
    trimmed, trim,
};
use crate::vars::FastbootVars;

verus! {

/// A command sent from the host to a fastboot device.
#[derive(Clone, Debug, PartialEq, Eq)]
pub enum FastBootCommand {
    /// `getvar:<name>`: read a variable.
    GetVar(String),
    /// `download:<size as 8 hex digits>`: announce a data download.
    Download(u32),
    /// `verify:<size>`: verify a download.
    Verify(u32),
    /// `flash:<partition>`: write the downloaded data.
    Flash(String),
    /// `erase:<partition>`: erase a partition.
    Erase(String),
    /// `boot`: boot the downloaded image.
    Boot,
    /// `continue`: continue booting.
    Continue,
    /// `reboot`: reboot the device.
    Reboot,
    /// `reboot-bootloader`: reboot into the bootloader.
    RebootBootloader,
    /// `reboot-<mode>`: reboot into the given mode.
    RebootTo(String),
    /// `powerdown`: power the device off.
    Powerdown,
    /// `set_active:<slot>`: set the active slot.
    SetActive(String),
    /// `resize-logical-partition:<partition>:<size>`: resize a logical
    /// partition.
    ResizeLogicalPartition {
        /// The logical partition.
        partition: String,
        /// Its new size in bytes.
        size: u64,
    },
    /// `flashing unlock`: unlock the bootloader.
    FlashingUnlock,
    /// `flashing lock`: lock the bootloader.
    FlashingLock,
}

/// The text a command is sent as.
pub open spec fn command_text(c: FastBootCommand) -> Seq<char> {
    match c {
        FastBootCommand::GetVar(v) => "getvar:"@ + v@,
        FastBootCommand::Download(n) => "download:"@ + hex_digits(n as nat, 8),
        FastBootCommand::Verify(n) => "verify:"@ + dec_str(n as nat),
        FastBootCommand::Flash(p) => "flash:"@ + p@,
        FastBootCommand::Erase(p) => "erase:"@ + p@,
        FastBootCommand::Boot => "boot"@,
        FastBootCommand::Continue => "continue"@,
        FastBootCommand::Reboot => "reboot"@,
        FastBootCommand::RebootBootloader => "reboot-bootloader"@,
        FastBootCommand::RebootTo(m) => "reboot-"@ + m@,
        FastBootCommand::Powerdown => "powerdown"@,
        FastBootCommand::SetActive(s) => "set_active:"@ + s@,
        FastBootCommand::ResizeLogicalPartition { partition, size } => "resize-logical-partition:"@
            + partition@ + ":"@ + dec_str(size as nat),
        FastBootCommand::FlashingUnlock => "flashing unlock"@,
        FastBootCommand::FlashingLock => "flashing lock"@,
    }
}

impl FastBootCommand {
    /// The text this command is sent as.
    pub fn to_string(&self) -> (s: String)
        ensures
            s@ == command_text(*self),
    {
        match self {
            FastBootCommand::GetVar(v) => concat("getvar:", v.as_str()),
            FastBootCommand::Download(n) => {
                let h = format_hex8(*n);
                concat("download:", h.as_str())
            },
            FastBootCommand::Verify(n) => {
                let d = format_u64(*n as u64);
                concat("verify:", d.as_str())
            },
            FastBootCommand::Flash(p) => concat("flash:", p.as_str()),
            FastBootCommand::Erase(p) => concat("erase:", p.as_str()),
            FastBootCommand::Boot => String::from_str("boot"),
            FastBootCommand::Continue => String::from_str("continue"),
            FastBootCommand::Reboot => String::from_str("reboot"),
            FastBootCommand::RebootBootloader => String::from_str("reboot-bootloader"),
            FastBootCommand::RebootTo(m) => concat("reboot-", m.as_str()),
            FastBootCommand::Powerdown => String::from_str("powerdown"),
            FastBootCommand::SetActive(s) => concat("set_active:", s.as_str()),
            FastBootCommand::ResizeLogicalPartition { partition, size } => {
                let head = concat("resize-logical-partition:", partition.as_str());
                let head = concat(head.as_str(), ":");
                let d = format_u64(*size);
                concat(head.as_str(), d.as_str())
            },
            FastBootCommand::FlashingUnlock => String::from_str("flashing unlock"),
            FastBootCommand::FlashingLock => String::from_str("flashing lock"),
        }
    }
}

/// Whether a command takes no argument.
pub open spec fn is_bare_command(c: FastBootCommand) -> bool {
    c is Boot || c is Continue || c is Reboot || c is RebootBootloader || c is Powerdown
        || c is FlashingUnlock || c is FlashingLock
}

/// The wire words of the commands without arguments: `reboot` reboots,
/// `reboot-bootloader` reboots into the bootloader, and so on; no two of
/// them are sent as the same text, so the device is never asked for one
/// when another was meant.
pub proof fn lemma_bare_command_texts(c: FastBootCommand, d: FastBootCommand)
    ensures
        command_text(FastBootCommand::Boot) == "boot"@,
        command_text(FastBootCommand::Continue) == "continue"@,
        command_text(FastBootCommand::Reboot) == "reboot"@,
        command_text(FastBootCommand::RebootBootloader) == "reboot-bootloader"@,
        command_text(FastBootCommand::Powerdown) == "powerdown"@,
        command_text(FastBootCommand::FlashingUnlock) == "flashing unlock"@,
        command_text(FastBootCommand::FlashingLock) == "flashing lock"@,
        is_bare_command(c) && is_bare_command(d) && c != d ==> command_text(c) != command_text(d),
{
    reveal_strlit("boot");
    reveal_strlit("continue");
    reveal_strlit("reboot");
    reveal_strlit("reboot-bootloader");
    reveal_strlit("powerdown");
    reveal_strlit("flashing unlock");
    reveal_strlit("flashing lock");
    assert("boot"@.len() == 4);
    assert("continue"@.len() == 8);
    assert("reboot"@.len() == 6);
    assert("reboot-bootloader"@.len() == 17);
    assert("powerdown"@.len() == 9);
    assert("flashing unlock"@.len() == 15);
    assert("flashing lock"@.len() == 13);
    if is_bare_command(c) && is_bare_command(d) && c != d {
        assert(command_text(c).len() != command_text(d).len());
    }
}

/// A reply from a fastboot device.
#[derive(Clone, Debug, PartialEq, Eq)]
pub enum FastBootResponse {
    /// `OKAY`: the command finished; its text.
    Okay(String),
    /// `INFO`: an informational line.
    Info(String),
    /// `TEXT`: text to show to the user.
    Text(String),
    /// `FAIL`: the command failed; the reason.
    Fail(String),
    /// `DATA`: the device is ready for this many bytes.
    Data(u32),
}

/// Errors when parsing a device reply.
#[derive(Clone, Copy, Debug, PartialEq, Eq, Structural)]
pub enum FastBootResponseParseError {
    /// The reply is shorter than its four-byte kind.
    TooShort,
    /// The four-byte kind is none of `OKAY`, `INFO`, `TEXT`, `FAIL`, `DATA`.
    UnknownKind,
    /// The reply text is not UTF-8.
    NotUtf8,
    /// A `DATA` reply whose size is not a 32-bit hexadecimal number.
    InvalidDataSize,
}

/// The kind of a reply.
#[derive(Clone, Copy, Debug, PartialEq, Eq, Structural)]
pub enum ReplyKind {
    /// `OKAY`
    Okay,
    /// `INFO`
    Info,
    /// `TEXT`
    Text,
    /// `FAIL`
    Fail,
    /// `DATA`
    Data,
}

/// Whether four bytes spell the four ASCII letters given.
pub open spec fn spells(b: Seq<u8>, c0: u8, c1: u8, c2: u8, c3: u8) -> bool {
    b[0] == c0 && b[1] == c1 && b[2] == c2 && b[3] == c3
}

/// The kind a reply's first four bytes name.
pub open spec fn reply_kind(b: Seq<u8>) -> Option<ReplyKind> {
    if b.len() < 4 {
        None
    } else if spells(b, 0x4f, 0x4b, 0x41, 0x59) {
        Some(ReplyKind::Okay)
    } else if spells(b, 0x49, 0x4e, 0x46, 0x4f) {
        Some(ReplyKind::Info)
    } else if spells(b, 0x54, 0x45, 0x58, 0x54) {
        Some(ReplyKind::Text)
    } else if spells(b, 0x46, 0x41, 0x49, 0x4c) {
        Some(ReplyKind::Fail)
    } else if spells(b, 0x44, 0x41, 0x54, 0x41) {
        Some(ReplyKind::Data)
    } else {
        None
    }
}

/// Number of bytes of `s` before its first zero byte (all of it if none).
pub open spec fn nul_index(s: Seq<u8>) -> nat
    decreases s.len(),
{
    if s.len() == 0 || s[0] == 0 {
        0
    } else {
        1 + nul_index(s.drop_first())
    }
}

/// The text bytes of a reply: after the kind, up to the first zero byte.
pub open spec fn reply_payload(b: Seq<u8>) -> Seq<u8> {
    let rest = b.skip(4);
    rest.take(nul_index(rest) as int)
}

proof fn lemma_nul_index(s: Seq<u8>, k: int)
    requires
        0 <= k <= s.len(),
        forall|i: int| 0 <= i < k ==> #[trigger] s[i] != 0,
        k == s.len() || s[k] == 0,
    ensures
        nul_index(s) == k,
    decreases k,
{
    if k > 0 {
        let t = s.drop_first();
        assert forall|i: int| 0 <= i < k - 1 implies #[trigger] t[i] != 0 by {
            assert(t[i] == s[i + 1]);
        }
        if k - 1 < t.len() {
            assert(t[k - 1] == s[k]);
        }
        lemma_nul_index(t, k - 1);
    }
}

/// Decodes UTF-8 text.
///
/// Calls `String::from_utf8`, which the standard library documents as
/// succeeding exactly when the bytes are valid UTF-8, giving the string they
/// encode.
#[verifier::external_body]
fn utf8_text(bytes: Vec<u8>) -> (r: Option<String>)
    ensures
        r is Some <==> valid_utf8(bytes@),
        r matches Some(s) ==> s@ == decode_utf8(bytes@),
{
    String::from_utf8(bytes).ok()
}

/// The reply that the bytes `b` parse to, its text given as characters.
pub open spec fn parse_reply(b: Seq<u8>) -> Result<(ReplyKind, Seq<char>), FastBootResponseParseError> {
    if b.len() < 4 {
        Err(FastBootResponseParseError::TooShort)
    } else if reply_kind(b) is None {
        Err(FastBootResponseParseError::UnknownKind)
    } else if !valid_utf8(reply_payload(b)) {
        Err(FastBootResponseParseError::NotUtf8)
    } else {
        Ok((reply_kind(b)->Some_0, decode_utf8(reply_payload(b))))
    }
}

/// The data size a `DATA` reply's text gives, where it is a 32-bit
/// hexadecimal number.
pub open spec fn data_size_of_text(t: Seq<char>) -> Option<nat> {
    match parse_radix(t, 16) {
        Some(v) => if v <= u32::MAX {
            Some(v)
        } else {
            None
        },
        None => None,
    }
}

/// A reply as its kind and text; a `DATA` reply's text is its size.
pub open spec fn response_parts(r: FastBootResponse) -> (ReplyKind, Seq<char>) {
    match r {
        FastBootResponse::Okay(s) => (ReplyKind::Okay, s@),
        FastBootResponse::Info(s) => (ReplyKind::Info, s@),
        FastBootResponse::Text(s) => (ReplyKind::Text, s@),
        FastBootResponse::Fail(s) => (ReplyKind::Fail, s@),
        FastBootResponse::Data(n) => (ReplyKind::Data, seq![]),
    }
}

impl FastBootResponse {
    /// Parses a device reply: four bytes of kind, then text up to the first
    /// zero byte; a `DATA` reply's text is the size in hexadecimal.
    pub fn from_bytes(bytes: &[u8]) -> (r: Result<FastBootResponse, FastBootResponseParseError>)
        ensures
            match parse_reply(bytes@) {
                Err(e) => r == Err::<FastBootResponse, FastBootResponseParseError>(e),
                Ok((kind, text)) => if kind == ReplyKind::Data {
                    match data_size_of_text(text) {
                        Some(n) => r == Ok::<FastBootResponse, FastBootResponseParseError>(
                            FastBootResponse::Data(n as u32),
                        ),
                        None => r == Err::<FastBootResponse, FastBootResponseParseError>(
                            FastBootResponseParseError::InvalidDataSize,
                        ),
                    }
                } else {
                    r matches Ok(resp) && response_parts(resp) == (kind, text)
                },
            },
    {
        if bytes.len() < 4 {
            return Err(FastBootResponseParseError::TooShort);
        }
        let b0 = bytes[0];
        let b1 = bytes[1];
        let b2 = bytes[2];
        let b3 = bytes[3];
        let kind = if b0 == 0x4f && b1 == 0x4b && b2 == 0x41 && b3 == 0x59 {
            ReplyKind::Okay
        } else if b0 == 0x49 && b1 == 0x4e && b2 == 0x46 && b3 == 0x4f {
            ReplyKind::Info
        } else if b0 == 0x54 && b1 == 0x45 && b2 == 0x58 && b3 == 0x54 {
            ReplyKind::Text
        } else if b0 == 0x46 && b1 == 0x41 && b2 == 0x49 && b3 == 0x4c {
            ReplyKind::Fail
        } else if b0 == 0x44 && b1 == 0x41 && b2 == 0x54 && b3 == 0x41 {
            ReplyKind::Data
        } else {
            return Err(FastBootResponseParseError::UnknownKind);
        };
        let mut payload: Vec<u8> = Vec::new();
        let mut i: usize = 4;
        while i < bytes.len() && bytes[i] != 0
            invariant
                4 <= i <= bytes@.len(),
                payload@ == bytes@.subrange(4, i as int),
                forall|j: int| 4 <= j < i ==> #[trigger] bytes@[j] != 0,
            decreases bytes@.len() - i,
        {
            payload.push(bytes[i]);
            assert(bytes@.subrange(4, i + 1) =~= bytes@.subrange(4, i as int).push(bytes@[i as int]));
            i = i + 1;
        }
        proof {
            let rest = bytes@.skip(4);
            assert forall|j: int| 0 <= j < i - 4 implies #[trigger] rest[j] != 0 by {
                assert(rest[j] == bytes@[j + 4]);
            }
            if i < bytes@.len() {
                assert(rest[i - 4] == bytes@[i as int]);
            }
            lemma_nul_index(rest, i - 4);
            assert(rest.take(i - 4) =~= bytes@.subrange(4, i as int));
        }
        let text = match utf8_text(payload) {
            Some(t) => t,
            None => {
                return Err(FastBootResponseParseError::NotUtf8);
            },
        };
        match kind {
            ReplyKind::Okay => Ok(FastBootResponse::Okay(text)),
            ReplyKind::Info => Ok(FastBootResponse::Info(text)),
            ReplyKind::Text => Ok(FastBootResponse::Text(text)),
            ReplyKind::Fail => Ok(FastBootResponse::Fail(text)),
            ReplyKind::Data => match parse_radix_bounded(text.as_str(), 16, 0xffff_ffff) {
                Some(n) => Ok(FastBootResponse::Data(n as u32)),
                None => Err(FastBootResponseParseError::InvalidDataSize),
            },
        }
    }
}

/// What a host does with a reply while it waits for a command to finish.
#[derive(Clone, Debug, PartialEq, Eq)]
pub enum ReplyStep {
    /// Keep reading replies.
    Wait,
    /// The command finished with this text.
    Done(String),
    /// The command failed with this reason.
    Failed(String),
    /// A reply that this command never expects.
    Unexpected,
}

/// The step for a reply to an ordinary command: `INFO` and `TEXT` are read
/// past, `OKAY` ends it, `FAIL` fails it, and `DATA` is unexpected.
pub fn command_reply_step(resp: FastBootResponse) -> (s: ReplyStep)
    ensures
        match resp {
            FastBootResponse::Info(_) | FastBootResponse::Text(_) => s == ReplyStep::Wait,
            FastBootResponse::Okay(v) => s == ReplyStep::Done(v),
            FastBootResponse::Fail(f) => s == ReplyStep::Failed(f),
            FastBootResponse::Data(_) => s == ReplyStep::Unexpected,
        },
{
    match resp {
        FastBootResponse::Info(_) => ReplyStep::Wait,
        FastBootResponse::Text(_) => ReplyStep::Wait,
        FastBootResponse::Data(_) => ReplyStep::Unexpected,
        FastBootResponse::Okay(v) => ReplyStep::Done(v),
        FastBootResponse::Fail(f) => ReplyStep::Failed(f),
    }
}

/// What a host does with a reply after announcing a download.
#[derive(Clone, Debug, PartialEq, Eq)]
pub enum DownloadStep {
    /// Keep reading replies.
    Wait,
    /// The device takes this many bytes.
    Ready(u32),
    /// The download was refused with this reason.
    Failed(String),
    /// A reply that a download never expects.
    Unexpected,
}

/// The step for a reply to `download:`: `DATA` says how many bytes to send,
/// `OKAY` is unexpected.
pub fn download_reply_step(resp: FastBootResponse) -> (s: DownloadStep)
    ensures
        match resp {
            FastBootResponse::Info(_) | FastBootResponse::Text(_) => s == DownloadStep::Wait,
            FastBootResponse::Data(n) => s == DownloadStep::Ready(n),
            FastBootResponse::Fail(f) => s == DownloadStep::Failed(f),
            FastBootResponse::Okay(_) => s == DownloadStep::Unexpected,
        },
{
    match resp {
        FastBootResponse::Info(_) => DownloadStep::Wait,
        FastBootResponse::Text(_) => DownloadStep::Wait,
        FastBootResponse::Data(n) => DownloadStep::Ready(n),
        FastBootResponse::Okay(_) => DownloadStep::Unexpected,
        FastBootResponse::Fail(f) => DownloadStep::Failed(f),
    }
}

/// The name and value in an `INFO` line of `getvar:all`: split at the last
/// `:`, each side trimmed.
pub fn parse_var_line(line: &str) -> (r: Option<(String, String)>)
    ensures
        r is None <==> forall|k: int| 0 <= k < line@.len() ==> line@[k] != ':',
        r matches Some((name, value)) ==> exists|j: int|
            0 <= j < line@.len() && line@[j] == ':' && (forall|k: int|
                j < k < line@.len() ==> line@[k] != ':') && name@ == trimmed(line@.take(j))
                && value@ == trimmed(line@.skip(j + 1)),
{
    let n = line.unicode_len();
    let mut j: usize = n;
    while j > 0 && line.get_char(j - 1) != ':'
        invariant
            n == line@.len(),
            0 <= j <= n,
            forall|k: int| j <= k < n ==> line@[k] != ':',
        decreases j,
    {
        j = j - 1;
    }
    if j == 0 {
        return None;
    }
    let c = j - 1;
    let name = trim(line.substring_char(0, c));
    let value = trim(line.substring_char(c + 1, n));
    proof {
        assert(line@.subrange(0, c as int) =~= line@.take(c as int));
        assert(line@.subrange(c + 1, n as int) =~= line@.skip(c + 1));
    }
    Some((name, value))
}

/// What a host does with a reply to `getvar:all`.
#[derive(Clone, Debug, PartialEq, Eq)]
pub enum VarsStep {
    /// Keep reading replies.
    Wait,
    /// All variables have been read.
    Done,
    /// The command failed with this reason.
    Failed(String),
    /// A reply that `getvar:all` never expects.
    Unexpected,
}

/// Takes one reply to `getvar:all`: an `INFO` line with a `:` adds a
/// variable, other `INFO` lines and `TEXT` are read past, `OKAY` ends it.
pub fn getvar_all_step(vars: &mut FastbootVars, resp: FastBootResponse) -> (s: VarsStep)
    ensures
        match resp {
            FastBootResponse::Info(line) => s == VarsStep::Wait && ((forall|k: int|
                0 <= k < line@.len() ==> line@[k] != ':') ==> final(vars)@ == old(vars)@)
                && (!(forall|k: int| 0 <= k < line@.len() ==> line@[k] != ':') ==> exists|
                j: int|
                0 <= j < line@.len() && line@[j] == ':' && (forall|k: int|
                    j < k < line@.len() ==> line@[k] != ':') && final(vars)@ == old(vars)@.insert(
                    trimmed(line@.take(j)),
                    trimmed(line@.skip(j + 1)),
                )),
            FastBootResponse::Text(_) => s == VarsStep::Wait && final(vars)@ == old(vars)@,
            FastBootResponse::Okay(_) => s == VarsStep::Done && final(vars)@ == old(vars)@,
            FastBootResponse::Fail(f) => s == VarsStep::Failed(f) && final(vars)@ == old(vars)@,
            FastBootResponse::Data(_) => s == VarsStep::Unexpected && final(vars)@ == old(vars)@,
        },
{
    match resp {
        FastBootResponse::Info(line) => {
            match parse_var_line(line.as_str()) {
                Some((name, value)) => {
                    vars.insert(name, value);
                },
                None => {},
            }
            VarsStep::Wait
        },
        FastBootResponse::Text(_) => VarsStep::Wait,
        FastBootResponse::Data(_) => VarsStep::Unexpected,
        FastBootResponse::Okay(_) => VarsStep::Done,
        FastBootResponse::Fail(f) => VarsStep::Failed(f),
    }
}

/// Errors when parsing a 32-bit number.
#[derive(Clone, Copy, Debug, PartialEq, Eq, Structural)]
pub enum ParseNumberError {
    /// The text is no number, or the number does not fit.
    Invalid,
}

/// Whether `s` starts with `0x` or `0X`.
pub open spec fn has_hex_prefix(s: Seq<char>) -> bool {
    s.len() >= 2 && s[0] == '0' && (s[1] == 'x' || s[1] == 'X')
}

/// The value of a 32-bit number written in decimal or, after `0x` or `0X`,
/// in hexadecimal.
pub open spec fn spec_parse_u32(s: Seq<char>) -> Option<nat> {
    let v = if has_hex_prefix(s) {
        parse_radix(s.skip(2), 16)
    } else {
        parse_radix(s, 10)
    };
    match v {
        Some(n) => if n <= u32::MAX {
            Some(n)
        } else {
            None
        },
        None => None,
    }
}

/// Parses a 32-bit number given in decimal or, after `0x` or `0X`, in
/// hexadecimal.
pub fn parse_u32(value: &str) -> (r: Result<u32, ParseNumberError>)
    ensures
        match spec_parse_u32(value@) {
            Some(n) => r == Ok::<u32, ParseNumberError>(n as u32),
            None => r == Err::<u32, ParseNumberError>(ParseNumberError::Invalid),
        },
{
    let n = value.unicode_len();
    let parsed = if n >= 2 && value.get_char(0) == '0' && (value.get_char(1) == 'x' || value.get_char(
        1,
    ) == 'X') {
        let digits = value.substring_char(2, n);
        assert(digits@ =~= value@.skip(2));
        parse_radix_bounded(digits, 16, 0xffff_ffff)
    } else {
        parse_radix_bounded(value, 10, 0xffff_ffff)
    };
    match parsed {
        Some(v) => Ok(v as u32),
        None => Err(ParseNumberError::Invalid),
    }
}

} // verus!
