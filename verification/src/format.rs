//! Formatting userdata: where the image tools are, the numbers a device
//! reports about userdata, the options of `mke2fs` and `make_f2fs`, and the
//! decisions of formatting and wiping.

use vstd::prelude::*;
use crate::protocol::has_hex_prefix;
use crate::text::{
    concat, format_u64, dec_str, has_prefix, lower_ascii_seq, owned, to_ascii_lowercase, parse_radix, parse_radix_bounded, str_eq, trim,
    trimmed,
};

verus! {

/// Operating system of the host the tools run on.
#[derive(Clone, Copy, Debug, PartialEq, Eq, Structural)]
pub enum HostOs {
    /// Linux.
    Linux,
    /// Windows.
    Windows,
    /// Any other system; the tools are not bundled for it.
    Other,
}

/// Paths of the bundled image tools.
#[derive(Clone, Debug, PartialEq, Eq)]
pub struct FormatTools {
    /// Root of the tool tree.
    pub root: String,
    /// Directory of this platform's tools.
    pub dir: String,
    /// `mke2fs`.
    pub mke2fs: String,
    /// `make_f2fs`.
    pub make_f2fs: String,
    /// `make_f2fs_casefold`.
    pub make_f2fs_casefold: String,
    /// `mke2fs.conf`.
    pub mke2fs_conf: String,
}

/// Whether `c` separates path components: `/`, and on Windows `\` too.
pub open spec fn is_separator(c: char, windows: bool) -> bool {
    c == '/' || (windows && c == '\\')
}

/// Whether `base` is a bare Windows drive such as `C:`, which `Path::join`
/// extends without a separator.
pub open spec fn is_bare_drive(base: Seq<char>) -> bool {
    &&& base.len() == 2
    &&& base[1] == ':'
    &&& (('a' <= base[0] && base[0] <= 'z') || ('A' <= base[0] && base[0] <= 'Z'))
}

/// `name` under `base`, as `Path::join` gives it for a relative name on a
/// Unix host (`windows` false) or a Windows host (`windows` true): the host's
/// separator (`/`, or `\` on Windows) between them, unless `base` is empty,
/// already ends with a separator, or is a bare Windows drive.
pub open spec fn join_path(base: Seq<char>, name: Seq<char>, windows: bool) -> Seq<char> {
    if base.len() == 0 || is_separator(base.last(), windows) || (windows && is_bare_drive(base)) {
        base + name
    } else {
        base + seq![if windows { '\\' } else { '/' }] + name
    }
}

/// `name` under `base`, joined as on a Windows host when `windows` holds and
/// as on a Unix host otherwise.
pub fn path_join(base: &str, name: &str, windows: bool) -> (r: String)
    ensures
        r@ == join_path(base@, name@, windows),
{
    let n = base.unicode_len();
    if n == 0 {
        return concat(base, name);
    }
    let last = base.get_char(n - 1);
    let first = base.get_char(0);
    let bare_drive = windows && n == 2 && last == ':'
        && (('a' <= first && first <= 'z') || ('A' <= first && first <= 'Z'));
    if last == '/' || (windows && last == '\\') || bare_drive {
        concat(base, name)
    } else if windows {
        let with = concat(base, "\\");
        proof {
            reveal_strlit("\\");
        }
        concat(with.as_str(), name)
    } else {
        let with = concat(base, "/");
        proof {
            reveal_strlit("/");
        }
        concat(with.as_str(), name)
    }
}

/// The program suffix on a platform: `.exe` on Windows, none elsewhere.
pub open spec fn exe_suffix(platform: Seq<char>) -> Seq<char> {
    if platform == "windows"@ { ".exe"@ } else { seq![] }
}

/// Whether `t` is the tool layout under `root` for `platform`, with paths
/// joined as on a Windows host when `windows` holds: the root, the platform
/// directory under it, and each tool in that directory.
pub open spec fn tools_layout(t: FormatTools, root: Seq<char>, platform: Seq<char>, windows: bool) -> bool {
    &&& t.root@ == root
    &&& t.dir@ == join_path(root, platform, windows)
    &&& t.mke2fs@ == join_path(t.dir@, "mke2fs"@ + exe_suffix(platform), windows)
    &&& t.make_f2fs@ == join_path(t.dir@, "make_f2fs"@ + exe_suffix(platform), windows)
    &&& t.make_f2fs_casefold@ == join_path(t.dir@, "make_f2fs_casefold"@ + exe_suffix(platform), windows)
    &&& t.mke2fs_conf@ == join_path(t.dir@, "mke2fs.conf"@, windows)
}

/// The message for a host without bundled tools.
pub open spec fn unsupported_host_message() -> Seq<char> {
    "format tools are only supported on Linux and Windows hosts"@
}

impl FormatTools {
    /// The tool paths under `root` for `platform`, joined as on a Unix host;
    /// for the `windows` platform the programs end in `.exe`.
    pub fn from_platform_root(root: &str, platform: &str) -> (t: FormatTools)
        ensures
            tools_layout(t, root@, platform@, false),
    {
        FormatTools::for_host(root, platform, HostOs::Linux)
    }

    /// The tool paths under `root` for `platform`, joined as on the host
    /// `os`; for the `windows` platform the programs end in `.exe`.
    pub fn for_host(root: &str, platform: &str, os: HostOs) -> (t: FormatTools)
        ensures
            tools_layout(t, root@, platform@, os == HostOs::Windows),
    {
        let win = os == HostOs::Windows;
        let dir = path_join(root, platform, win);
        let windows = str_eq(platform, "windows");
        let exe = if windows { ".exe" } else { "" };
        proof {
            reveal_strlit("");
        }
        let a = concat("mke2fs", exe);
        let b = concat("make_f2fs", exe);
        let c = concat("make_f2fs_casefold", exe);
        let mke2fs = path_join(dir.as_str(), a.as_str(), win);
        let make_f2fs = path_join(dir.as_str(), b.as_str(), win);
        let make_f2fs_casefold = path_join(dir.as_str(), c.as_str(), win);
        let mke2fs_conf = path_join(dir.as_str(), "mke2fs.conf", win);
        proof {
            if !windows {
                assert("mke2fs"@ + ""@ =~= "mke2fs"@ + Seq::<char>::empty());
                assert("make_f2fs"@ + ""@ =~= "make_f2fs"@ + Seq::<char>::empty());
                assert("make_f2fs_casefold"@ + ""@ =~= "make_f2fs_casefold"@ + Seq::<char>::empty());
            }
        }
        FormatTools { root: owned(root), mke2fs, make_f2fs, make_f2fs_casefold, mke2fs_conf, dir }
    }

    /// The tool paths under `root` for the host: `linux` or `windows`, joined
    /// as that host joins paths; other hosts have no bundled tools.
    pub fn from_bin_root(root: &str, os: HostOs) -> (r: Result<FormatTools, String>)
        ensures
            os == HostOs::Linux ==> (r matches Ok(t) && tools_layout(t, root@, "linux"@, false)),
            os == HostOs::Windows ==> (r matches Ok(t) && tools_layout(t, root@, "windows"@, true)),
            os == HostOs::Other ==> (r matches Err(m) && m@ == unsupported_host_message()),
    {
        match os {
            HostOs::Linux => Ok(FormatTools::for_host(root, "linux", os)),
            HostOs::Windows => Ok(FormatTools::for_host(root, "windows", os)),
            HostOs::Other => Err(owned("format tools are only supported on Linux and Windows hosts")),
        }
    }

    /// The tools bundled with the command-line program: `assets/bin` under
    /// the package directory, joined as the host joins paths.
    pub fn from_cli_assets(package_dir: &str, os: HostOs) -> (r: Result<FormatTools, String>)
        ensures
            os == HostOs::Linux ==> (r matches Ok(t)
                && tools_layout(t, join_path(join_path(package_dir@, "assets"@, false), "bin"@, false), "linux"@, false)),
            os == HostOs::Windows ==> (r matches Ok(t)
                && tools_layout(t, join_path(join_path(package_dir@, "assets"@, true), "bin"@, true), "windows"@, true)),
            os == HostOs::Other ==> (r matches Err(m) && m@ == unsupported_host_message()),
    {
        let win = os == HostOs::Windows;
        let a = path_join(package_dir, "assets", win);
        let root = path_join(a.as_str(), "bin", win);
        FormatTools::from_bin_root(root.as_str(), os)
    }

    /// Checks that the tools are there, given whether each file exists:
    /// `mke2fs`, `make_f2fs` and `mke2fs.conf`, in that order.
    pub fn validate(&self, mke2fs_is_file: bool, make_f2fs_is_file: bool, conf_is_file: bool) -> (r: Result<(), String>)
        ensures
            !mke2fs_is_file ==> (r matches Err(m) && m@ == "missing mke2fs at "@ + self.mke2fs@),
            mke2fs_is_file && !make_f2fs_is_file ==> (r matches Err(m) && m@ == "missing make_f2fs at "@ + self.make_f2fs@),
            mke2fs_is_file && make_f2fs_is_file && !conf_is_file ==> (r matches Err(m) && m@ == "missing mke2fs.conf at "@ + self.mke2fs_conf@),
            mke2fs_is_file && make_f2fs_is_file && conf_is_file ==> r is Ok,
    {
        if !mke2fs_is_file {
            return Err(concat("missing mke2fs at ", self.mke2fs.as_str()));
        }
        if !make_f2fs_is_file {
            return Err(concat("missing make_f2fs at ", self.make_f2fs.as_str()));
        }
        if !conf_is_file {
            return Err(concat("missing mke2fs.conf at ", self.mke2fs_conf.as_str()));
        }
        Ok(())
    }
}

/// Whether `c` is an ASCII hexadecimal digit.
pub open spec fn is_hex_char(c: char) -> bool {
    ('0' <= c && c <= '9') || ('a' <= c && c <= 'f') || ('A' <= c && c <= 'F')
}

/// Whether `c` is an ASCII letter.
pub open spec fn is_alpha_char(c: char) -> bool {
    ('a' <= c && c <= 'z') || ('A' <= c && c <= 'Z')
}

/// The value of a 64-bit number as devices report them: trimmed; hex after
/// `0x` or `0X`; hex when every character is a hex digit and one is a
/// letter; decimal otherwise.
pub open spec fn spec_parse_fastboot_u64(s: Seq<char>) -> Option<nat> {
    let t = trimmed(s);
    let v = if has_hex_prefix(t) {
        parse_radix(t.skip(2), 16)
    } else if (forall|i: int| 0 <= i < t.len() ==> #[trigger] is_hex_char(t[i])) && (exists|i: int| 0 <= i < t.len() && #[trigger] is_alpha_char(t[i])) {
        parse_radix(t, 16)
    } else {
        parse_radix(t, 10)
    };
    match v {
        Some(n) => if n <= u64::MAX { Some(n) } else { None },
        None => None,
    }
}

/// Errors when parsing a device number.
#[derive(Clone, Copy, Debug, PartialEq, Eq, Structural)]
pub enum ParseU64Error {
    /// No number, or one that does not fit in 64 bits.
    Invalid,
}

/// Parses a number as devices report sizes: decimal, or hexadecimal with or
/// without `0x`.
pub fn parse_fastboot_u64(value: &str) -> (r: Result<u64, ParseU64Error>)
    ensures
        match spec_parse_fastboot_u64(value@) {
            Some(n) => r == Ok::<u64, ParseU64Error>(n as u64),
            None => r == Err::<u64, ParseU64Error>(ParseU64Error::Invalid),
        },
{
    let t = trim(value);
    let n = t.unicode_len();
    let parsed = if n >= 2 && t.get_char(0) == '0' && (t.get_char(1) == 'x' || t.get_char(1) == 'X') {
        let digits = t.as_str().substring_char(2, n);
        assert(digits@ =~= t@.skip(2));
        parse_radix_bounded(digits, 16, u64::MAX)
    } else {
        let mut all_hex = true;
        let mut any_alpha = false;
        let mut i: usize = 0;
        while i < n
            invariant
                n == t@.len(),
                0 <= i <= n,
                all_hex == (forall|k: int| 0 <= k < i ==> #[trigger] is_hex_char(t@[k])),
                any_alpha == (exists|k: int| 0 <= k < i && #[trigger] is_alpha_char(t@[k])),
            decreases n - i,
        {
            let c = t.as_str().get_char(i);
            let hex = ('0' <= c && c <= '9') || ('a' <= c && c <= 'f') || ('A' <= c && c <= 'F');
            let alpha = ('a' <= c && c <= 'z') || ('A' <= c && c <= 'Z');
            proof {
                if !hex {
                    assert(!is_hex_char(t@[i as int]));
                }
                if alpha {
                    assert(is_alpha_char(t@[i as int]));
                }
            }
            all_hex = all_hex && hex;
            any_alpha = any_alpha || alpha;
            i = i + 1;
        }
        if all_hex && any_alpha {
            parse_radix_bounded(t.as_str(), 16, u64::MAX)
        } else {
            parse_radix_bounded(t.as_str(), 10, u64::MAX)
        }
    };
    match parsed {
        Some(v) => Ok(v),
        None => Err(ParseU64Error::Invalid),
    }
}

/// What a device reports about its userdata partition.
#[derive(Clone, Debug, PartialEq, Eq)]
pub struct UserdataInfo {
    /// Filesystem type, lowercase.
    pub fs_type: String,
    /// Partition size in bytes.
    pub size: u64,
    /// The device's `max-download-size`.
    pub max_download_size: Option<u64>,
    /// The device's `erase-block-size`.
    pub erase_block_size: Option<u64>,
    /// The device's `logical-block-size`.
    pub logical_block_size: Option<u64>,
}

/// Options of formatting userdata.
#[derive(Clone, Copy, Debug, PartialEq, Eq, Structural)]
pub struct FormatUserdataOptions {
    /// Fall back to erasing where no image can be built.
    pub erase_fallback: bool,
    /// Build an f2fs image with casefolding.
    pub casefold: bool,
}

/// Options of wiping data.
#[derive(Clone, Copy, Debug, PartialEq, Eq, Structural)]
pub struct WipeDataOptions {
    /// Erase the metadata partition.
    pub erase_metadata: bool,
    /// Erase the cache partition.
    pub erase_cache: bool,
    /// Fall back to erasing userdata where no image can be built.
    pub erase_fallback: bool,
    /// Build an f2fs image with casefolding.
    pub casefold: bool,
}

impl WipeDataOptions {
    /// The default: erase metadata and cache, no erase fallback, no
    /// casefolding.
    pub fn default_options() -> (o: WipeDataOptions)
        ensures
            o == (WipeDataOptions { erase_metadata: true, erase_cache: true, erase_fallback: false, casefold: false }),
    {
        WipeDataOptions { erase_metadata: true, erase_cache: true, erase_fallback: false, casefold: false }
    }

    /// The format options of a wipe: its fallback and casefolding.
    pub fn format_options(&self) -> (o: FormatUserdataOptions)
        ensures
            o == (FormatUserdataOptions { erase_fallback: self.erase_fallback, casefold: self.casefold }),
    {
        FormatUserdataOptions { erase_fallback: self.erase_fallback, casefold: self.casefold }
    }
}

/// How userdata was formatted.
#[derive(Clone, Debug, PartialEq, Eq)]
pub struct FormatUserdataOutcome {
    /// What the device reported.
    pub info: UserdataInfo,
    /// Whether it was erased instead of flashed with an image.
    pub used_erase_fallback: bool,
}

/// How data was wiped.
#[derive(Clone, Debug, PartialEq, Eq)]
pub struct WipeDataOutcome {
    /// How userdata was formatted.
    pub format: FormatUserdataOutcome,
    /// Whether metadata was erased.
    pub metadata_erased: bool,
    /// Whether cache was erased.
    pub cache_erased: bool,
}

/// What came of erasing a partition that may not exist.
#[derive(Clone, Debug, PartialEq, Eq)]
pub enum OptionalEraseOutcome {
    /// It was erased.
    Erased,
    /// The device refused, with this reason.
    Skipped {
        /// The device's reason.
        reason: String,
    },
}

/// The filesystem an image is built for.
#[derive(Clone, Copy, Debug, PartialEq, Eq, Structural)]
pub enum UserdataFs {
    /// ext4, built with `mke2fs`.
    Ext4,
    /// f2fs, built with `make_f2fs`.
    F2fs,
}

/// The filesystem of a userdata image, by the reported type.
pub fn userdata_fs(fs_type: &str) -> (r: Result<UserdataFs, String>)
    ensures
        fs_type@ == "ext4"@ ==> r == Ok::<UserdataFs, String>(UserdataFs::Ext4),
        fs_type@ == "f2fs"@ ==> r == Ok::<UserdataFs, String>(UserdataFs::F2fs),
        fs_type@ != "ext4"@ && fs_type@ != "f2fs"@ ==> (r matches Err(m) && m@ == "unsupported userdata filesystem type: "@ + fs_type@),
{
    proof {
        reveal_strlit("ext4");
        reveal_strlit("f2fs");
        assert("ext4"@[0] != "f2fs"@[0]);
    }
    if str_eq(fs_type, "ext4") {
        Ok(UserdataFs::Ext4)
    } else if str_eq(fs_type, "f2fs") {
        Ok(UserdataFs::F2fs)
    } else {
        Err(concat("unsupported userdata filesystem type: ", fs_type))
    }
}

/// The `mke2fs` extended options for userdata: `android_sparse`, then the
/// stride from the erase block size and the stripe width from the logical
/// block size, in 4 KiB blocks, where they are nonzero.
pub open spec fn ext4_options_text(erase_block_size: Option<u64>, logical_block_size: Option<u64>) -> Seq<char> {
    "android_sparse"@ + (match erase_block_size {
        Some(e) => if e / 4096 > 0 { ",stride="@ + dec_str((e / 4096) as nat) } else { seq![] },
        None => seq![],
    }) + (match logical_block_size {
        Some(l) => if l / 4096 > 0 { ",stripe-width="@ + dec_str((l / 4096) as nat) } else { seq![] },
        None => seq![],
    })
}

/// The options and block count of the ext4 userdata image: an error where
/// the partition holds no whole 4 KiB block.
pub fn ext4_image_plan(userdata_size: u64, erase_block_size: Option<u64>, logical_block_size: Option<u64>) -> (r: Result<(String, u64), String>)
    ensures
        userdata_size / 4096 == 0 ==> (r matches Err(m) && m@ == "userdata partition is too small for ext4"@),
        userdata_size / 4096 > 0 ==> (r matches Ok((opts, count)) && count == userdata_size / 4096 && opts@ == ext4_options_text(erase_block_size, logical_block_size)),
{
    let block_count = userdata_size / 4096;
    if block_count == 0 {
        return Err(owned("userdata partition is too small for ext4"));
    }
    let mut opts = owned("android_sparse");
    if let Some(erase) = erase_block_size {
        let stride = erase / 4096;
        if stride > 0 {
            let d = format_u64(stride);
            let part = concat(",stride=", d.as_str());
            opts = concat(opts.as_str(), part.as_str());
        }
    }
    let ghost mid = opts@;
    if let Some(logical) = logical_block_size {
        let width = logical / 4096;
        if width > 0 {
            let d = format_u64(width);
            let part = concat(",stripe-width=", d.as_str());
            opts = concat(opts.as_str(), part.as_str());
        }
    }
    proof {
        let e_part = match erase_block_size {
            Some(e) => if e / 4096 > 0 { ",stride="@ + dec_str((e / 4096) as nat) } else { Seq::<char>::empty() },
            None => Seq::<char>::empty(),
        };
        let l_part = match logical_block_size {
            Some(l) => if l / 4096 > 0 { ",stripe-width="@ + dec_str((l / 4096) as nat) } else { Seq::<char>::empty() },
            None => Seq::<char>::empty(),
        };
        assert(mid =~= "android_sparse"@ + e_part);
        assert(opts@ =~= "android_sparse"@ + e_part + l_part);
    }
    Ok((opts, block_count))
}

/// Which `make_f2fs` builds the image: the casefolding one where asked for
/// and present.
pub fn f2fs_binary(tools: &FormatTools, casefold: bool, casefold_is_file: bool) -> (r: String)
    ensures
        casefold && casefold_is_file ==> r@ == tools.make_f2fs_casefold@,
        !(casefold && casefold_is_file) ==> r@ == tools.make_f2fs@,
{
    if casefold && casefold_is_file {
        tools.make_f2fs_casefold.clone()
    } else {
        tools.make_f2fs.clone()
    }
}

/// What a failed image build leads to.
#[derive(Clone, Copy, Debug, PartialEq, Eq, Structural)]
pub enum BuildFailureAction {
    /// Erase userdata instead.
    EraseInstead,
    /// Fail the format.
    Fail,
}

/// After an image could not be built: erase instead where the fallback was
/// asked for.
pub fn on_build_failure(options: &FormatUserdataOptions) -> (a: BuildFailureAction)
    ensures
        a == (if options.erase_fallback { BuildFailureAction::EraseInstead } else { BuildFailureAction::Fail }),
{
    if options.erase_fallback {
        BuildFailureAction::EraseInstead
    } else {
        BuildFailureAction::Fail
    }
}

/// The download size for flashing a built userdata image: the device's
/// `max-download-size`, which must be known and fit in 32 bits.
pub fn userdata_max_download(info: &UserdataInfo) -> (r: Result<u32, String>)
    ensures
        info.max_download_size is None ==> (r matches Err(m) && m@ == "missing userdata max-download-size"@),
        match info.max_download_size {
            Some(v) => if v > u32::MAX {
                r matches Err(m) && m@ == "userdata max-download-size exceeds supported range"@
            } else {
                r == Ok::<u32, String>(v as u32)
            },
            None => true,
        },
{
    match info.max_download_size {
        None => Err(owned("missing userdata max-download-size")),
        Some(v) => if v > u32::MAX as u64 {
            Err(owned("userdata max-download-size exceeds supported range"))
        } else {
            Ok(v as u32)
        },
    }
}

/// The outcome of erasing an optional partition from the device's answer:
/// a `FAIL` reason means it was skipped.
pub fn optional_erase_outcome(failed_reason: Option<String>) -> (o: OptionalEraseOutcome)
    ensures
        match failed_reason {
            None => o == OptionalEraseOutcome::Erased,
            Some(r) => o == (OptionalEraseOutcome::Skipped { reason: r }),
        },
{
    match failed_reason {
        None => OptionalEraseOutcome::Erased,
        Some(reason) => OptionalEraseOutcome::Skipped { reason },
    }
}

/// How a status line reads: a success, plain information, or a warning.
#[derive(Clone, Copy, Debug, PartialEq, Eq, Structural)]
pub enum StatusTone {
    /// Something was done.
    Success,
    /// Nothing to report beyond the fact.
    Info,
    /// Something the user asked for did not happen.
    Warning,
}

/// The status line after a wipe for an optional partition (`metadata` or
/// `cache`): `<partition> erase disabled` as information when its erase was
/// turned off, else `<partition> erased` as a success when it was erased,
/// else `<partition> erase skipped` as a warning.
pub fn optional_erase_status(partition: &str, disabled: bool, erased: bool) -> (r: (StatusTone, String))
    ensures
        disabled ==> r.0 == StatusTone::Info && r.1@ == partition@ + " erase disabled"@,
        !disabled && erased ==> r.0 == StatusTone::Success && r.1@ == partition@ + " erased"@,
        !disabled && !erased ==> r.0 == StatusTone::Warning && r.1@ == partition@ + " erase skipped"@,
{
    if disabled {
        (StatusTone::Info, concat(partition, " erase disabled"))
    } else if erased {
        (StatusTone::Success, concat(partition, " erased"))
    } else {
        (StatusTone::Warning, concat(partition, " erase skipped"))
    }
}

/// An optional device number: the value where it parses.
pub open spec fn optional_number(value: Option<Seq<char>>) -> Option<u64> {
    match value {
        Some(v) => match spec_parse_fastboot_u64(v) {
            Some(n) => Some(n as u64),
            None => None,
        },
        None => None,
    }
}

fn parse_optional(value: Option<&str>) -> (r: Option<u64>)
    ensures
        r == optional_number(match value {
            Some(v) => Some(v@),
            None => None,
        }),
{
    match value {
        Some(v) => match parse_fastboot_u64(v) {
            Ok(n) => Some(n),
            Err(_) => None,
        },
        None => None,
    }
}

/// The userdata facts from the device's answers: the filesystem type trimmed
/// and lowercased, the size (an error where it does not parse), and the
/// optional download limit and block sizes where they parse.
pub fn userdata_info_from_values(
    partition_type: &str,
    partition_size: &str,
    max_download_size: Option<&str>,
    erase_block_size: Option<&str>,
    logical_block_size: Option<&str>,
) -> (r: Result<UserdataInfo, String>)
    ensures
        match spec_parse_fastboot_u64(partition_size@) {
            None => r matches Err(m) && m@ == "parse partition-size:userdata ("@ + partition_size@ + ")"@,
            Some(n) => r matches Ok(info) && info.fs_type@ == lower_ascii_seq(trimmed(partition_type@))
                && info.size == n
                && info.max_download_size == optional_number(match max_download_size { Some(v) => Some(v@), None => None })
                && info.erase_block_size == optional_number(match erase_block_size { Some(v) => Some(v@), None => None })
                && info.logical_block_size == optional_number(match logical_block_size { Some(v) => Some(v@), None => None }),
        },
{
    let size = match parse_fastboot_u64(partition_size) {
        Ok(n) => n,
        Err(_) => {
            let head = concat("parse partition-size:userdata (", partition_size);
            return Err(concat(head.as_str(), ")"));
        },
    };
    let t = trim(partition_type);
    let fs_type = to_ascii_lowercase(t.as_str());
    Ok(UserdataInfo {
        fs_type,
        size,
        max_download_size: parse_optional(max_download_size),
        erase_block_size: parse_optional(erase_block_size),
        logical_block_size: parse_optional(logical_block_size),
    })
}

} // verus!
