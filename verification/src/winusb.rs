//! The pure parts of the Windows AdbWinApi backend: recognising the fastboot
//! interface by its descriptor, decoding the NUL-terminated UTF-16 names the
//! DLL hands out, reading `current-slot`, and the backend's errors and probe
//! details with their messages.

use vstd::prelude::*;
use crate::operation::slot_core;
use crate::protocol::FastBootResponseParseError;
use crate::text::{concat, dec_str, format_u64, lower_ascii_seq, owned, trim, trim_start_underscores, is_single_char_ignoring_ascii_case};

verus! {

/// A USB interface descriptor as the DLL reports it.
#[derive(Clone, Copy, Debug, PartialEq, Eq, Structural)]
pub struct UsbInterfaceDescriptor {
    pub b_length: u8,
    pub b_descriptor_type: u8,
    pub b_interface_number: u8,
    pub b_alternate_setting: u8,
    pub b_num_endpoints: u8,
    pub b_interface_class: u8,
    pub b_interface_sub_class: u8,
    pub b_interface_protocol: u8,
    pub i_interface: u8,
}

/// Whether the descriptor is that of a fastboot interface: class 0xff,
/// subclass 0x42, protocol 3 and two endpoints.
pub fn is_fastboot_interface(desc: &UsbInterfaceDescriptor) -> (b: bool)
    ensures
        b == (desc.b_interface_class == 0xff && desc.b_interface_sub_class == 0x42
            && desc.b_interface_protocol == 0x03 && desc.b_num_endpoints == 2),
{
    desc.b_interface_class == 0xff && desc.b_interface_sub_class == 0x42 && desc.b_interface_protocol == 0x03
        && desc.b_num_endpoints == 2
}

/// A UTF-16 high surrogate.
pub open spec fn is_high_surrogate(w: u16) -> bool {
    0xD800 <= w <= 0xDBFF
}

/// A UTF-16 low surrogate.
pub open spec fn is_low_surrogate(w: u16) -> bool {
    0xDC00 <= w <= 0xDFFF
}

/// The character a surrogate pair encodes.
pub open spec fn pair_char(high: u16, low: u16) -> char {
    (0x10000 + (high - 0xD800) * 0x400 + (low - 0xDC00)) as char
}

/// The text that UTF-16 code units encode, or `None` where a surrogate
/// stands alone.
pub open spec fn decode_utf16(ws: Seq<u16>) -> Option<Seq<char>>
    decreases ws.len(),
{
    if ws.len() == 0 {
        Some(seq![])
    } else if is_high_surrogate(ws[0]) {
        if ws.len() >= 2 && is_low_surrogate(ws[1]) {
            match decode_utf16(ws.skip(2)) {
                Some(rest) => Some(seq![pair_char(ws[0], ws[1])] + rest),
                None => None,
            }
        } else {
            None
        }
    } else if is_low_surrogate(ws[0]) {
        None
    } else {
        match decode_utf16(ws.skip(1)) {
            Some(rest) => Some(seq![ws[0] as char] + rest),
            None => None,
        }
    }
}

/// Decodes UTF-16 code units.
///
/// Calls `String::from_utf16`, which the standard library documents as
/// decoding UTF-16 and failing where the input holds invalid data, that is a
/// surrogate that is not part of a high-then-low pair.
#[verifier::external_body]
fn utf16_text(words: &[u16]) -> (r: Option<String>)
    ensures
        match decode_utf16(words@) {
            Some(s) => r matches Some(t) && t@ == s,
            None => r is None,
        },
{
    String::from_utf16(words).ok()
}

/// The index of the first zero code unit at or after `k`.
pub open spec fn first_zero(ws: Seq<u16>, k: int) -> Option<int>
    decreases ws.len() - k,
{
    if k < 0 || k >= ws.len() {
        None
    } else if ws[k] == 0 {
        Some(k)
    } else {
        first_zero(ws, k + 1)
    }
}

/// The message for a name without its terminating zero.
pub open spec fn unterminated_message() -> Seq<char> {
    "unterminated UTF-16 string"@
}

/// The message for a name that is not valid UTF-16.
pub open spec fn invalid_utf16_message() -> Seq<char> {
    "invalid utf-16: lone surrogate found"@
}

/// The text before the first zero code unit; an error where there is no
/// zero or the text is not valid UTF-16.
pub fn wide_slice_to_string(words: &[u16]) -> (r: Result<String, String>)
    ensures
        match first_zero(words@, 0) {
            None => r matches Err(m) && m@ == unterminated_message(),
            Some(k) => match decode_utf16(words@.take(k)) {
                Some(s) => r matches Ok(t) && t@ == s,
                None => r matches Err(m) && m@ == invalid_utf16_message(),
            },
        },
{
    let mut prefix: Vec<u16> = Vec::new();
    let mut i: usize = 0;
    while i < words.len()
        invariant
            0 <= i <= words@.len(),
            prefix@ == words@.take(i as int),
            first_zero(words@, 0) == first_zero(words@, i as int),
        decreases words@.len() - i,
    {
        if words[i] == 0 {
            return match utf16_text(prefix.as_slice()) {
                Some(s) => Ok(s),
                None => Err(owned("invalid utf-16: lone surrogate found")),
            };
        }
        prefix.push(words[i]);
        assert(words@.take(i + 1) =~= words@.take(i as int).push(words@[i as int]));
        i = i + 1;
    }
    Err(owned("unterminated UTF-16 string"))
}

/// Bytes of an interface record before its name: the class GUID (16) and
/// the flags (4).
pub const INTERFACE_NAME_OFFSET: usize = 20;

/// The least size of an interface record: GUID, flags and one name code
/// unit, padded to a multiple of four.
pub const INTERFACE_INFO_MIN_SIZE: usize = 24;

/// Little-endian code units of bytes, two bytes each.
pub open spec fn le_words(bytes: Seq<u8>) -> Seq<u16> {
    Seq::new(bytes.len() / 2, |k: int| (bytes[2 * k] + 256 * bytes[2 * k + 1]) as u16)
}

/// The message for an interface name without its terminating zero.
pub open spec fn unterminated_name_message() -> Seq<char> {
    "unterminated UTF-16 interface name"@
}

/// The name in an interface record: after the GUID and the flags, in
/// little-endian UTF-16 up to the first zero code unit. A record shorter
/// than the least size, a name part of odd length, a name with no zero and
/// a name that is not valid UTF-16 are refused with their messages.
pub open spec fn spec_interface_name(entry: Seq<u8>) -> Result<Seq<char>, Seq<char>> {
    let name = entry.skip(INTERFACE_NAME_OFFSET as int);
    if entry.len() < INTERFACE_INFO_MIN_SIZE {
        Err("interface info shorter than minimum size: "@ + dec_str(entry.len()) + " bytes"@)
    } else if name.len() % 2 != 0 {
        Err("interface name buffer had odd length: "@ + dec_str(name.len()) + " bytes"@)
    } else {
        let words = le_words(name);
        match first_zero(words, 0) {
            None => Err(unterminated_name_message()),
            Some(k) => match decode_utf16(words.take(k)) {
                Some(s) => Ok(s),
                None => Err(invalid_utf16_message()),
            },
        }
    }
}

proof fn lemma_first_zero_none_before(ws: Seq<u16>, k: int)
    requires
        0 <= k <= ws.len(),
        forall|j: int| 0 <= j < k ==> ws[j] != 0,
    ensures
        first_zero(ws, 0) == first_zero(ws, k),
    decreases k,
{
    if k > 0 {
        lemma_first_zero_none_before(ws, k - 1);
    }
}

/// The name in an interface record the DLL hands out.
pub fn interface_name_from_entry(entry: &[u8]) -> (r: Result<String, String>)
    ensures
        match spec_interface_name(entry@) {
            Ok(s) => r matches Ok(t) && t@ == s,
            Err(m) => r matches Err(e) && e@ == m,
        },
{
    if entry.len() < INTERFACE_INFO_MIN_SIZE {
        let n = format_u64(entry.len() as u64);
        let a = concat("interface info shorter than minimum size: ", n.as_str());
        return Err(concat(a.as_str(), " bytes"));
    }
    let name_len = entry.len() - INTERFACE_NAME_OFFSET;
    let ghost name = entry@.skip(INTERFACE_NAME_OFFSET as int);
    if name_len % 2 != 0 {
        let n = format_u64(name_len as u64);
        let a = concat("interface name buffer had odd length: ", n.as_str());
        return Err(concat(a.as_str(), " bytes"));
    }
    let ghost words = le_words(name);
    let count = name_len / 2;
    let mut prefix: Vec<u16> = Vec::new();
    let mut i: usize = 0;
    while i < count
        invariant
            0 <= i <= count,
            count == words.len(),
            count == name_len / 2,
            name_len == name.len(),
            name_len % 2 == 0,
            entry@.len() == name_len + INTERFACE_NAME_OFFSET,
            entry@.len() <= usize::MAX,
            entry@.len() >= INTERFACE_INFO_MIN_SIZE,
            name == entry@.skip(INTERFACE_NAME_OFFSET as int),
            words == le_words(name),
            prefix@ == words.take(i as int),
            forall|j: int| 0 <= j < i ==> words[j] != 0,
        decreases count - i,
    {
        let at: usize = INTERFACE_NAME_OFFSET + 2 * i;
        let b0 = entry[at];
        let b1 = entry[at + 1];
        let value: u16 = (b0 as u16) + (b1 as u16) * 256;
        proof {
            assert(name[2 * i] == b0 && name[2 * i + 1] == b1);
            assert(words[i as int] == value);
        }
        if value == 0 {
            proof {
                lemma_first_zero_none_before(words, i as int);
                assert(first_zero(words, 0) == Some(i as int));
            }
            return match utf16_text(prefix.as_slice()) {
                Some(s) => Ok(s),
                None => Err(owned("invalid utf-16: lone surrogate found")),
            };
        }
        prefix.push(value);
        assert(words.take(i + 1) =~= words.take(i as int).push(value));
        i = i + 1;
    }
    proof {
        lemma_first_zero_none_before(words, count as int);
    }
    Err(owned("unterminated UTF-16 interface name"))
}

/// What a `current-slot` value names, `a` or `b`; otherwise the message
/// naming the value without white space and leading `_`.
pub open spec fn spec_current_slot_value(v: Seq<char>) -> Result<Seq<char>, Seq<char>> {
    if lower_ascii_seq(slot_core(v)) == seq!['a'] {
        Ok("a"@)
    } else if lower_ascii_seq(slot_core(v)) == seq!['b'] {
        Ok("b"@)
    } else {
        Err("unsupported slot value: "@ + slot_core(v))
    }
}

/// Reads a `current-slot` value: `a` or `b` in either case, after white
/// space and leading `_` are removed.
pub fn parse_current_slot_value(value: &str) -> (r: Result<&'static str, String>)
    ensures
        match spec_current_slot_value(value@) {
            Ok(s) => r matches Ok(t) && t@ == s,
            Err(m) => r matches Err(e) && e@ == m,
        },
{
    let t = trim(value);
    let core = trim_start_underscores(t.as_str());
    if is_single_char_ignoring_ascii_case(core.as_str(), 'a') {
        Ok("a")
    } else if is_single_char_ignoring_ascii_case(core.as_str(), 'b') {
        Ok("b")
    } else {
        Err(concat("unsupported slot value: ", core.as_str()))
    }
}

/// Views of a list of strings.
pub open spec fn texts(v: Seq<String>) -> Seq<Seq<char>> {
    v.map_values(|s: String| s@)
}

/// The parts joined with `, `.
pub open spec fn join_comma(parts: Seq<Seq<char>>) -> Seq<char>
    decreases parts.len(),
{
    if parts.len() == 0 {
        seq![]
    } else if parts.len() == 1 {
        parts[0]
    } else {
        join_comma(parts.drop_last()) + ", "@ + parts.last()
    }
}

fn join_paths(parts: &Vec<String>) -> (r: String)
    ensures
        r@ == join_comma(texts(parts@)),
{
    let mut r = String::new();
    let mut i: usize = 0;
    while i < parts.len()
        invariant
            0 <= i <= parts@.len(),
            r@ == join_comma(texts(parts@).take(i as int)),
        decreases parts@.len() - i,
    {
        let ghost before = texts(parts@).take(i as int);
        assert(texts(parts@).take(i + 1).drop_last() =~= before);
        if i > 0 {
            let sep = concat(r.as_str(), ", ");
            r = concat(sep.as_str(), parts[i].as_str());
        } else {
            r = owned(parts[i].as_str());
        }
        i = i + 1;
    }
    assert(texts(parts@).take(parts@.len() as int) =~= texts(parts@));
    r
}

fn copy_paths(parts: &Vec<String>) -> (r: Vec<String>)
    ensures
        texts(r@) == texts(parts@),
{
    let mut r: Vec<String> = Vec::new();
    let mut i: usize = 0;
    while i < parts.len()
        invariant
            0 <= i <= parts@.len(),
            r@.len() == i,
            texts(r@) == texts(parts@).take(i as int),
        decreases parts@.len() - i,
    {
        let ghost old_r = r@;
        let c = owned(parts[i].as_str());
        r.push(c);
        assert forall|j: int| 0 <= j < i + 1 implies #[trigger] texts(r@)[j] == texts(parts@).take(i + 1)[j] by {
            if j < i {
                assert(r@[j] == old_r[j]);
                assert(texts(old_r)[j] == texts(parts@).take(i as int)[j]);
            }
        }
        assert(texts(r@) =~= texts(parts@).take(i + 1));
        i = i + 1;
    }
    assert(texts(parts@).take(parts@.len() as int) =~= texts(parts@));
    r
}

/// A step of discovering the AdbWinApi backend, for logging.
#[derive(Clone, Debug, PartialEq, Eq)]
pub enum AdbWinApiProbeDetail {
    /// No `AdbWinApi.dll` in the searched places.
    DllMissing {
        /// The paths checked.
        searched: Vec<String>,
    },
    /// Loading `AdbWinApi.dll` failed.
    DllLoadFailed {
        /// The DLL's path.
        path: String,
        /// The loader's error.
        error: String,
    },
    /// Android USB interfaces are being enumerated.
    EnumeratingInterfaces {
        /// The DLL's path.
        source: String,
    },
    /// An Android USB interface was found.
    AndroidInterfaceFound {
        /// Its name.
        name: String,
    },
    /// A fastboot interface was found.
    FastbootInterfaceFound {
        /// Its name.
        name: String,
    },
    /// An interface could not be opened.
    OpenInterfaceFailed {
        /// Its name.
        name: String,
        /// The error.
        error: String,
    },
    /// No Android USB interface was reported.
    NoAndroidInterface,
    /// Android interfaces were found but none is a fastboot one.
    NoFastbootInterface,
}

/// The message of a probe detail.
pub open spec fn probe_detail_text(d: AdbWinApiProbeDetail) -> Seq<char> {
    match d {
        AdbWinApiProbeDetail::DllMissing { searched } => "AdbWinApi.dll not found; searched "@ + join_comma(texts(searched@)),
        AdbWinApiProbeDetail::DllLoadFailed { path, error } => "failed to load "@ + path@ + ": "@ + error@,
        AdbWinApiProbeDetail::EnumeratingInterfaces { source } => "enumerating Android USB interfaces via "@ + source@,
        AdbWinApiProbeDetail::AndroidInterfaceFound { name } => "found Android USB interface "@ + name@,
        AdbWinApiProbeDetail::FastbootInterfaceFound { name } => "found fastboot interface "@ + name@,
        AdbWinApiProbeDetail::OpenInterfaceFailed { name, error } => "failed to open Android USB interface "@ + name@ + ": "@ + error@,
        AdbWinApiProbeDetail::NoAndroidInterface => "AdbWinApi enumerated no Android USB interfaces"@,
        AdbWinApiProbeDetail::NoFastbootInterface => "AdbWinApi found Android USB interfaces but none matched fastboot"@,
    }
}

fn three(a: &str, b: &str, c: &str) -> (r: String)
    ensures
        r@ == a@ + b@ + c@,
{
    let ab = concat(a, b);
    concat(ab.as_str(), c)
}

fn four(a: &str, b: &str, c: &str, d: &str) -> (r: String)
    ensures
        r@ == a@ + b@ + c@ + d@,
{
    let abc = three(a, b, c);
    concat(abc.as_str(), d)
}

impl AdbWinApiProbeDetail {
    /// The detail as one line of text.
    pub fn message(&self) -> (m: String)
        ensures
            m@ == probe_detail_text(*self),
    {
        match self {
            AdbWinApiProbeDetail::DllMissing { searched } => {
                let list = join_paths(searched);
                concat("AdbWinApi.dll not found; searched ", list.as_str())
            },
            AdbWinApiProbeDetail::DllLoadFailed { path, error } =>
                four("failed to load ", path.as_str(), ": ", error.as_str()),
            AdbWinApiProbeDetail::EnumeratingInterfaces { source } =>
                concat("enumerating Android USB interfaces via ", source.as_str()),
            AdbWinApiProbeDetail::AndroidInterfaceFound { name } =>
                concat("found Android USB interface ", name.as_str()),
            AdbWinApiProbeDetail::FastbootInterfaceFound { name } =>
                concat("found fastboot interface ", name.as_str()),
            AdbWinApiProbeDetail::OpenInterfaceFailed { name, error } =>
                four("failed to open Android USB interface ", name.as_str(), ": ", error.as_str()),
            AdbWinApiProbeDetail::NoAndroidInterface => owned("AdbWinApi enumerated no Android USB interfaces"),
            AdbWinApiProbeDetail::NoFastbootInterface =>
                owned("AdbWinApi found Android USB interfaces but none matched fastboot"),
        }
    }
}

/// Errors of the AdbWinApi backend while it runs commands.
#[derive(Debug)]
pub enum AdbWinApiFastbootError {
    /// A Windows I/O failure.
    Io(std::io::Error),
    /// The device answered `FAIL` with this reason.
    FastbootFailed(String),
    /// A reply the command does not expect.
    FastbootUnexpectedReply,
    /// A reply that could not be parsed.
    FastbootParseError(FastBootResponseParseError),
    /// A variable with a value that could not be used.
    InvalidVariable {
        /// The variable.
        name: &'static str,
        /// Its value.
        value: String,
        /// What is wrong with it.
        reason: String,
    },
    /// The device moved another number of bytes than expected.
    IncorrectDataLength {
        /// Bytes moved.
        actual: u32,
        /// Bytes expected.
        expected: u32,
    },
}

/// Errors while opening the AdbWinApi backend.
#[derive(Clone, Debug, PartialEq, Eq)]
pub enum AdbWinApiFastbootOpenError {
    /// No `AdbWinApi.dll` was found.
    DllMissing {
        /// The paths checked.
        searched: Vec<String>,
    },
    /// `AdbWinApi.dll` failed to load.
    DllLoadFailed {
        /// The DLL's path.
        path: String,
        /// The loader's error.
        error: String,
    },
    /// Enumerating interfaces failed.
    InterfaceEnumerationFailed {
        /// The DLL's path.
        path: String,
        /// The error.
        error: String,
    },
    /// No Android USB interface was reported.
    NoAndroidInterface,
    /// No Android interface is a fastboot one.
    NoFastbootInterface,
    /// An interface could not be opened.
    OpenInterfaceFailed {
        /// Its name.
        name: String,
        /// The error.
        error: String,
    },
    /// Its descriptors could not be read.
    DescriptorReadFailed {
        /// Its name.
        name: String,
        /// The error.
        error: String,
    },
    /// Its endpoints could not be opened.
    EndpointOpenFailed {
        /// Its name.
        name: String,
        /// The error.
        error: String,
    },
}

/// The message of an open error.
pub open spec fn open_error_text(e: AdbWinApiFastbootOpenError) -> Seq<char> {
    match e {
        AdbWinApiFastbootOpenError::DllMissing { .. } => "AdbWinApi.dll not found"@,
        AdbWinApiFastbootOpenError::DllLoadFailed { path, error } => "failed to load "@ + path@ + ": "@ + error@,
        AdbWinApiFastbootOpenError::InterfaceEnumerationFailed { path, error } =>
            "failed to enumerate Android USB interfaces from "@ + path@ + ": "@ + error@,
        AdbWinApiFastbootOpenError::NoAndroidInterface => "no Android USB interfaces reported by AdbWinApi"@,
        AdbWinApiFastbootOpenError::NoFastbootInterface => "no fastboot interface matched Android USB interfaces"@,
        AdbWinApiFastbootOpenError::OpenInterfaceFailed { name, error } => "failed to open interface "@ + name@ + ": "@ + error@,
        AdbWinApiFastbootOpenError::DescriptorReadFailed { name, error } =>
            "failed to read USB descriptors for "@ + name@ + ": "@ + error@,
        AdbWinApiFastbootOpenError::EndpointOpenFailed { name, error } => "failed to open endpoints for "@ + name@ + ": "@ + error@,
    }
}

impl AdbWinApiFastbootOpenError {
    /// The error's message.
    pub fn message(&self) -> (m: String)
        ensures
            m@ == open_error_text(*self),
    {
        match self {
            AdbWinApiFastbootOpenError::DllMissing { .. } => owned("AdbWinApi.dll not found"),
            AdbWinApiFastbootOpenError::DllLoadFailed { path, error } =>
                four("failed to load ", path.as_str(), ": ", error.as_str()),
            AdbWinApiFastbootOpenError::InterfaceEnumerationFailed { path, error } =>
                four("failed to enumerate Android USB interfaces from ", path.as_str(), ": ", error.as_str()),
            AdbWinApiFastbootOpenError::NoAndroidInterface => owned("no Android USB interfaces reported by AdbWinApi"),
            AdbWinApiFastbootOpenError::NoFastbootInterface => owned("no fastboot interface matched Android USB interfaces"),
            AdbWinApiFastbootOpenError::OpenInterfaceFailed { name, error } =>
                four("failed to open interface ", name.as_str(), ": ", error.as_str()),
            AdbWinApiFastbootOpenError::DescriptorReadFailed { name, error } =>
                four("failed to read USB descriptors for ", name.as_str(), ": ", error.as_str()),
            AdbWinApiFastbootOpenError::EndpointOpenFailed { name, error } =>
                four("failed to open endpoints for ", name.as_str(), ": ", error.as_str()),
        }
    }

    /// The probe detail that the error corresponds to, where one does:
    /// descriptor and endpoint failures have none.
    pub fn detail(&self) -> (r: Option<AdbWinApiProbeDetail>)
        ensures
            match *self {
                AdbWinApiFastbootOpenError::DllMissing { searched } =>
                    r matches Some(AdbWinApiProbeDetail::DllMissing { searched: s }) && texts(s@) == texts(searched@),
                AdbWinApiFastbootOpenError::DllLoadFailed { path, error } =>
                    r matches Some(AdbWinApiProbeDetail::DllLoadFailed { path: p, error: e }) && p@ == path@ && e@ == error@,
                AdbWinApiFastbootOpenError::InterfaceEnumerationFailed { path, .. } =>
                    r matches Some(AdbWinApiProbeDetail::EnumeratingInterfaces { source }) && source@ == path@,
                AdbWinApiFastbootOpenError::NoAndroidInterface => r matches Some(AdbWinApiProbeDetail::NoAndroidInterface),
                AdbWinApiFastbootOpenError::NoFastbootInterface => r matches Some(AdbWinApiProbeDetail::NoFastbootInterface),
                AdbWinApiFastbootOpenError::OpenInterfaceFailed { name, error } =>
                    r matches Some(AdbWinApiProbeDetail::OpenInterfaceFailed { name: n, error: e }) && n@ == name@ && e@ == error@,
                AdbWinApiFastbootOpenError::DescriptorReadFailed { .. } => r is None,
                AdbWinApiFastbootOpenError::EndpointOpenFailed { .. } => r is None,
            },
    {
        match self {
            AdbWinApiFastbootOpenError::DllMissing { searched } =>
                Some(AdbWinApiProbeDetail::DllMissing { searched: copy_paths(searched) }),
            AdbWinApiFastbootOpenError::DllLoadFailed { path, error } =>
                Some(AdbWinApiProbeDetail::DllLoadFailed { path: owned(path.as_str()), error: owned(error.as_str()) }),
            AdbWinApiFastbootOpenError::InterfaceEnumerationFailed { path, .. } =>
                Some(AdbWinApiProbeDetail::EnumeratingInterfaces { source: owned(path.as_str()) }),
            AdbWinApiFastbootOpenError::NoAndroidInterface => Some(AdbWinApiProbeDetail::NoAndroidInterface),
            AdbWinApiFastbootOpenError::NoFastbootInterface => Some(AdbWinApiProbeDetail::NoFastbootInterface),
            AdbWinApiFastbootOpenError::OpenInterfaceFailed { name, error } =>
                Some(AdbWinApiProbeDetail::OpenInterfaceFailed { name: owned(name.as_str()), error: owned(error.as_str()) }),
            AdbWinApiFastbootOpenError::DescriptorReadFailed { .. } => None,
            AdbWinApiFastbootOpenError::EndpointOpenFailed { .. } => None,
        }
    }
}

} // verus!
