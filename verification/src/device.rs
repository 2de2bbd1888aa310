//! What the tools read from a device's variables: the download limit and a
//! compact summary of the device.

use vstd::prelude::*;
use crate::protocol::spec_parse_u32;
use crate::operation::parse_max_download_size;
use crate::text::{concat, contains, has_substring, lower_ascii_seq, owned, str_eq, to_ascii_lowercase, trim, trimmed};
use crate::vars::FastbootVars;

verus! {

/// Errors when reading the download limit from device variables.
#[derive(Clone, Debug, PartialEq, Eq)]
pub enum MaxDownloadSizeError {
    /// The device reported no `max-download-size`.
    Missing,
    /// The value is no 32-bit number.
    Invalid(String),
    /// The device reported zero.
    Zero,
}

impl MaxDownloadSizeError {
    /// The error's message.
    pub fn message(&self) -> (s: String)
        ensures
            match self {
                MaxDownloadSizeError::Missing => s@ == "missing fastboot variable max-download-size"@,
                MaxDownloadSizeError::Invalid(v) => s@ == "parse max-download-size `"@ + v@ + "`"@,
                MaxDownloadSizeError::Zero => s@ == "device reported max-download-size=0"@,
            },
    {
        match self {
            MaxDownloadSizeError::Missing => owned("missing fastboot variable max-download-size"),
            MaxDownloadSizeError::Invalid(v) => {
                let a = concat("parse max-download-size `", v.as_str());
                concat(a.as_str(), "`")
            },
            MaxDownloadSizeError::Zero => owned("device reported max-download-size=0"),
        }
    }
}

/// Reads `max-download-size` from the variables: it must be present, a
/// 32-bit number in decimal or `0x` hexadecimal, and not zero.
pub fn resolve_max_download_size_from_vars(vars: &FastbootVars) -> (r: Result<u32, MaxDownloadSizeError>)
    ensures
        !vars@.dom().contains("max-download-size"@) ==> r == Err::<u32, MaxDownloadSizeError>(MaxDownloadSizeError::Missing),
        vars@.dom().contains("max-download-size"@) ==> match spec_parse_u32(vars@["max-download-size"@]) {
            None => r matches Err(MaxDownloadSizeError::Invalid(v)) && v@ == vars@["max-download-size"@],
            Some(n) => if n == 0 {
                r == Err::<u32, MaxDownloadSizeError>(MaxDownloadSizeError::Zero)
            } else {
                r == Ok::<u32, MaxDownloadSizeError>(n as u32)
            },
        },
{
    let raw = match vars.get("max-download-size") {
        Some(v) => v,
        None => {
            return Err(MaxDownloadSizeError::Missing);
        },
    };
    let n = match parse_max_download_size(raw.as_str()) {
        Ok(n) => n,
        Err(_) => {
            return Err(MaxDownloadSizeError::Invalid(raw));
        },
    };
    if n == 0 {
        return Err(MaxDownloadSizeError::Zero);
    }
    Ok(n)
}

/// The variables shown in the device summary, with their labels.
pub open spec fn summary_key(i: int) -> (Seq<char>, Seq<char>) {
    if i == 0 { ("serialno"@, "serial"@) }
    else if i == 1 { ("product"@, "product"@) }
    else if i == 2 { ("current-slot"@, "current slot"@) }
    else if i == 3 { ("unlocked"@, "unlocked"@) }
    else if i == 4 { ("secure"@, "secure"@) }
    else if i == 5 { ("is-userspace"@, "userspace fastboot"@) }
    else if i == 6 { ("slot-count"@, "slot count"@) }
    else if i == 7 { ("max-download-size"@, "max download"@) }
    else if i == 8 { ("version-bootloader"@, "bootloader"@) }
    else { ("version-baseband"@, "baseband"@) }
}

fn summary_key_exec(i: usize) -> (r: (&'static str, &'static str))
    requires
        i < 10,
    ensures
        r.0@ == summary_key(i as int).0,
        r.1@ == summary_key(i as int).1,
{
    if i == 0 { ("serialno", "serial") }
    else if i == 1 { ("product", "product") }
    else if i == 2 { ("current-slot", "current slot") }
    else if i == 3 { ("unlocked", "unlocked") }
    else if i == 4 { ("secure", "secure") }
    else if i == 5 { ("is-userspace", "userspace fastboot") }
    else if i == 6 { ("slot-count", "slot count") }
    else if i == 7 { ("max-download-size", "max download") }
    else if i == 8 { ("version-bootloader", "bootloader") }
    else { ("version-baseband", "baseband") }
}

/// The summary rows of the first `n` shown variables: `label: value` for
/// each present with a value that is not blank.
pub open spec fn summary_rows(vars: Map<Seq<char>, Seq<char>>, n: int) -> Seq<char>
    decreases n,
{
    if n <= 0 {
        seq![]
    } else {
        let (key, label) = summary_key(n - 1);
        summary_rows(vars, n - 1) + if vars.dom().contains(key) && trimmed(vars[key]).len() > 0 {
            label + ": "@ + trimmed(vars[key]) + seq!['\n']
        } else {
            seq![]
        }
    }
}

/// The slot rows: for slots `a` and `b` with any slot variable,
/// `slot <s>: retry=<r> successful=<s> unbootable=<u>`, `?` for the missing.
pub open spec fn slot_row(vars: Map<Seq<char>, Seq<char>>, slot: Seq<char>) -> Seq<char> {
    let r = "slot-retry-count:"@ + slot;
    let s = "slot-successful:"@ + slot;
    let u = "slot-unbootable:"@ + slot;
    if vars.dom().contains(r) || vars.dom().contains(s) || vars.dom().contains(u) {
        "slot "@ + slot + ": retry="@ + (if vars.dom().contains(r) { vars[r] } else { "?"@ })
            + " successful="@ + (if vars.dom().contains(s) { vars[s] } else { "?"@ })
            + " unbootable="@ + (if vars.dom().contains(u) { vars[u] } else { "?"@ }) + seq!['\n']
    } else {
        seq![]
    }
}

/// The device summary: a title, a header row and a row per shown variable,
/// then the slot rows.
pub open spec fn device_info_text(vars: Map<Seq<char>, Seq<char>>) -> Seq<char> {
    "\nFASTBOOT DEVICE\n\nField: Value\n"@ + summary_rows(vars, 10) + slot_row(vars, "a"@) + slot_row(vars, "b"@)
}

fn value_or_unknown(vars: &FastbootVars, key: &str) -> (s: String)
    ensures
        vars@.dom().contains(key@) ==> s@ == vars@[key@],
        !vars@.dom().contains(key@) ==> s@ == "?"@,
{
    match vars.get(key) {
        Some(v) => v,
        None => owned("?"),
    }
}

fn slot_row_exec(vars: &FastbootVars, slot: &str) -> (s: String)
    ensures
        s@ == slot_row(vars@, slot@),
{
    let r = concat("slot-retry-count:", slot);
    let sk = concat("slot-successful:", slot);
    let u = concat("slot-unbootable:", slot);
    let present = vars.get(r.as_str()).is_some() || vars.get(sk.as_str()).is_some() || vars.get(u.as_str()).is_some();
    if !present {
        return String::new();
    }
    let rv = value_or_unknown(vars, r.as_str());
    let sv = value_or_unknown(vars, sk.as_str());
    let uv = value_or_unknown(vars, u.as_str());
    let a = concat("slot ", slot);
    let a = concat(a.as_str(), ": retry=");
    let a = concat(a.as_str(), rv.as_str());
    let a = concat(a.as_str(), " successful=");
    let a = concat(a.as_str(), sv.as_str());
    let a = concat(a.as_str(), " unbootable=");
    let a = concat(a.as_str(), uv.as_str());
    let out = concat(a.as_str(), "\n");
    proof {
        reveal_strlit("\n");
    }
    out
}

/// A compact summary of a device from its variables.
pub fn compact_device_info(vars: &FastbootVars) -> (s: String)
    ensures
        s@ == device_info_text(vars@),
{
    let mut rows = String::new();
    let mut i: usize = 0;
    while i < 10
        invariant
            0 <= i <= 10,
            rows@ == summary_rows(vars@, i as int),
        decreases 10 - i,
    {
        let (key, label) = summary_key_exec(i);
        match vars.get(key) {
            Some(v) => {
                let t = trim(v.as_str());
                if t.unicode_len() > 0 {
                    let a = concat(label, ": ");
                    let b = concat(a.as_str(), t.as_str());
                    let c = concat(b.as_str(), "\n");
                    proof {
                        reveal_strlit("\n");
                    }
                    rows = concat(rows.as_str(), c.as_str());
                } else {
                    assert(rows@ =~= rows@ + Seq::<char>::empty());
                }
            },
            None => {
                assert(rows@ =~= rows@ + Seq::<char>::empty());
            },
        }
        i = i + 1;
    }
    let a = slot_row_exec(vars, "a");
    let b = slot_row_exec(vars, "b");
    let head = concat("\nFASTBOOT DEVICE\n\nField: Value\n", rows.as_str());
    let head = concat(head.as_str(), a.as_str());
    concat(head.as_str(), b.as_str())
}

/// The made-up variables of the demonstration device.
pub open spec fn mock_vars() -> Map<Seq<char>, Seq<char>> {
    Map::empty().insert("serialno"@, "mocked"@).insert("product"@, "tb8781p1_64"@).insert(
        "current-slot"@,
        "a"@,
    ).insert("unlocked"@, "yes"@).insert("secure"@, "no"@).insert("is-userspace"@, "no"@).insert(
        "slot-count"@,
        "2"@,
    ).insert("max-download-size"@, "0x4000000"@).insert("version-bootloader"@, "mocked"@).insert(
        "version-baseband"@,
        "mocked"@,
    ).insert("slot-retry-count:a"@, "1"@).insert("slot-successful:a"@, "yes"@).insert(
        "slot-unbootable:a"@,
        "no"@,
    ).insert("slot-retry-count:b"@, "7"@).insert("slot-successful:b"@, "no"@).insert(
        "slot-unbootable:b"@,
        "no"@,
    )
}

/// A device summary for demonstrations, from made-up variables.
pub fn mock_device_info() -> (s: String)
    ensures
        s@ == device_info_text(mock_vars()),
{
    let mut vars = FastbootVars::new();
    vars.insert(owned("serialno"), owned("mocked"));
    vars.insert(owned("product"), owned("tb8781p1_64"));
    vars.insert(owned("current-slot"), owned("a"));
    vars.insert(owned("unlocked"), owned("yes"));
    vars.insert(owned("secure"), owned("no"));
    vars.insert(owned("is-userspace"), owned("no"));
    vars.insert(owned("slot-count"), owned("2"));
    vars.insert(owned("max-download-size"), owned("0x4000000"));
    vars.insert(owned("version-bootloader"), owned("mocked"));
    vars.insert(owned("version-baseband"), owned("mocked"));
    vars.insert(owned("slot-retry-count:a"), owned("1"));
    vars.insert(owned("slot-successful:a"), owned("yes"));
    vars.insert(owned("slot-unbootable:a"), owned("no"));
    vars.insert(owned("slot-retry-count:b"), owned("7"));
    vars.insert(owned("slot-successful:b"), owned("no"));
    vars.insert(owned("slot-unbootable:b"), owned("no"));
    compact_device_info(&vars)
}

/// The colour a device-info value is shown in.
#[derive(Clone, Copy, Debug, PartialEq, Eq, Structural)]
pub enum ValueColor {
    Green,
    Yellow,
    Red,
    Cyan,
    Grey,
}

/// The colour of a value by its row's label, comparing the value without
/// regard to ASCII case: an unlocked bootloader, secure boot off and a
/// bootloader-mode device are green; a locked one yellow; secure boot red;
/// an unbootable slot red and a successful one green; slot, product and
/// serial green; the download limit cyan; anything else grey.
pub open spec fn value_color_of(label: Seq<char>, value: Seq<char>) -> ValueColor {
    let v = lower_ascii_seq(value);
    if label == "unlocked"@ {
        if v == "yes"@ { ValueColor::Green } else { ValueColor::Yellow }
    } else if label == "secure"@ {
        if v == "no"@ { ValueColor::Green } else { ValueColor::Red }
    } else if label == "userspace fastboot"@ && v == "no"@ {
        ValueColor::Green
    } else if label == "slot"@ && has_substring(v, "unbootable=yes"@) {
        ValueColor::Red
    } else if label == "slot"@ && has_substring(v, "successful=yes"@) {
        ValueColor::Green
    } else if label == "current slot"@ || label == "product"@ || label == "serial"@ {
        ValueColor::Green
    } else if label == "max download"@ {
        ValueColor::Cyan
    } else {
        ValueColor::Grey
    }
}

/// The colour of a device-info value.
pub fn value_color(label: &str, value: &str) -> (c: ValueColor)
    ensures
        c == value_color_of(label@, value@),
{
    let lowered = to_ascii_lowercase(value);
    let v = lowered.as_str();
    if str_eq(label, "unlocked") {
        if str_eq(v, "yes") { ValueColor::Green } else { ValueColor::Yellow }
    } else if str_eq(label, "secure") {
        if str_eq(v, "no") { ValueColor::Green } else { ValueColor::Red }
    } else if str_eq(label, "userspace fastboot") && str_eq(v, "no") {
        ValueColor::Green
    } else if str_eq(label, "slot") && contains(v, "unbootable=yes") {
        ValueColor::Red
    } else if str_eq(label, "slot") && contains(v, "successful=yes") {
        ValueColor::Green
    } else if str_eq(label, "current slot") || str_eq(label, "product") || str_eq(label, "serial") {
        ValueColor::Green
    } else if str_eq(label, "max download") {
        ValueColor::Cyan
    } else {
        ValueColor::Grey
    }
}

} // verus!
