//! The command-line grammar: how a list of words becomes [`Args`].
//!
//! Long options are written `--name` or `--name=value`; an option that takes
//! a value takes the next word where no `=` gives it one. The first bare word
//! names a subcommand, whose positional arguments follow; after a subcommand
//! only its own options and the global `--dry-run` and `--yes` are accepted.
//! A word `--` makes every later word positional. No option may be given
//! twice, the scatter modifiers need `--flash`, and at most one of the four
//! mode flags may be set.

use vstd::prelude::*;
use crate::cli::{mode_flag_count, Args, Command, SlotArg};
use crate::text::{has_prefix, owned, starts_with, str_eq};

verus! {

/// Why a command line was refused.
#[derive(Clone, Copy, Debug, PartialEq, Eq, Structural)]
pub enum ArgvError {
    /// An option or word that the grammar does not know at that place.
    UnknownArgument,
    /// An option that needs a value was given none, or a path was given
    /// empty.
    MissingValue,
    /// A slot value other than `a`, `b`, `active`, `inactive` or `all`.
    InvalidValue,
    /// An option without a value was given one with `=`.
    UnexpectedValue,
    /// An option was given twice.
    RepeatedArgument,
    /// A subcommand lacks one of its positional arguments.
    MissingPositional,
    /// `--help`, `-h` or the `help` subcommand.
    HelpRequested,
    /// A scatter modifier was given without `--flash`.
    MissingFlash,
    /// More than one of `--dry-run`, `--firmware-upgrade`, `--clean-flash`
    /// and `--selective`.
    ConflictingModes,
}

impl ArgvError {
    /// A one-line description of the refusal.
    pub fn message(&self) -> (m: String)
        ensures
            m@ == argv_error_text(*self),
    {
        match self {
            ArgvError::UnknownArgument => owned("unexpected argument"),
            ArgvError::MissingValue => owned("a value is required for the option"),
            ArgvError::InvalidValue => owned("invalid value; possible values: a, b, active, inactive, all"),
            ArgvError::UnexpectedValue => owned("the option takes no value"),
            ArgvError::RepeatedArgument => owned("the argument cannot be used multiple times"),
            ArgvError::MissingPositional => owned("the subcommand is missing a required argument"),
            ArgvError::HelpRequested => owned("help requested"),
            ArgvError::MissingFlash => owned("the option requires --flash <scatter>"),
            ArgvError::ConflictingModes => owned("--dry-run, --firmware-upgrade, --clean-flash, and --selective are mutually exclusive"),
        }
    }
}

/// The text of [`ArgvError::message`].
pub open spec fn argv_error_text(e: ArgvError) -> Seq<char> {
    match e {
        ArgvError::UnknownArgument => "unexpected argument"@,
        ArgvError::MissingValue => "a value is required for the option"@,
        ArgvError::InvalidValue => "invalid value; possible values: a, b, active, inactive, all"@,
        ArgvError::UnexpectedValue => "the option takes no value"@,
        ArgvError::RepeatedArgument => "the argument cannot be used multiple times"@,
        ArgvError::MissingPositional => "the subcommand is missing a required argument"@,
        ArgvError::HelpRequested => "help requested"@,
        ArgvError::MissingFlash => "the option requires --flash <scatter>"@,
        ArgvError::ConflictingModes => "--dry-run, --firmware-upgrade, --clean-flash, and --selective are mutually exclusive"@,
    }
}

/// A subcommand as character sequences.
pub enum CommandModel {
    DisableVbmeta,
    Gsi { image: Seq<char> },
    Format { partition: Seq<char>, erase_fallback: bool },
    Scatter {
        scatter: Seq<char>,
        firmware_upgrade: bool,
        clean_flash: bool,
        selective: bool,
        slot: Option<SlotArg>,
        include_preloader: bool,
    },
    Flash { partition: Seq<char>, image: Seq<char>, slot: Option<SlotArg> },
    Reboot,
    Getvar { var: Seq<char> },
    UnlockBootloader,
    LockBootloader,
    WipeData { no_metadata: bool, no_cache: bool, erase_fallback: bool },
}

/// The top-level arguments as character sequences.
pub struct ArgsModel {
    pub command: Option<CommandModel>,
    pub force_fastboot: bool,
    pub flash: Option<Seq<char>>,
    pub dry_run: bool,
    pub firmware_upgrade: bool,
    pub clean_flash: bool,
    pub selective: bool,
    pub slot: Option<SlotArg>,
    pub include_preloader: bool,
    pub yes: bool,
    pub set_active: Option<SlotArg>,
    pub reboot: bool,
    pub reboot_bootloader: bool,
    pub getvar: Option<Seq<char>>,
    pub getvar_all: bool,
}

impl View for Command {
    type V = CommandModel;

    open spec fn view(&self) -> CommandModel {
        match *self {
            Command::DisableVbmeta => CommandModel::DisableVbmeta,
            Command::Gsi { image } => CommandModel::Gsi { image: image@ },
            Command::Format { partition, erase_fallback } => CommandModel::Format {
                partition: partition@,
                erase_fallback,
            },
            Command::Scatter { scatter, firmware_upgrade, clean_flash, selective, slot, include_preloader } =>
                CommandModel::Scatter {
                    scatter: scatter@,
                    firmware_upgrade,
                    clean_flash,
                    selective,
                    slot,
                    include_preloader,
                },
            Command::Flash { partition, image, slot } => CommandModel::Flash {
                partition: partition@,
                image: image@,
                slot,
            },
            Command::Reboot => CommandModel::Reboot,
            Command::Getvar { var } => CommandModel::Getvar { var: var@ },
            Command::UnlockBootloader => CommandModel::UnlockBootloader,
            Command::LockBootloader => CommandModel::LockBootloader,
            Command::WipeData { no_metadata, no_cache, erase_fallback } => CommandModel::WipeData {
                no_metadata,
                no_cache,
                erase_fallback,
            },
        }
    }
}

/// The view of an optional string.
pub open spec fn opt_text(s: Option<String>) -> Option<Seq<char>> {
    match s {
        Some(t) => Some(t@),
        None => None,
    }
}

/// The view of an optional subcommand.
pub open spec fn opt_command(c: Option<Command>) -> Option<CommandModel> {
    match c {
        Some(k) => Some(k@),
        None => None,
    }
}

impl View for Args {
    type V = ArgsModel;

    open spec fn view(&self) -> ArgsModel {
        ArgsModel {
            command: opt_command(self.command),
            force_fastboot: self.force_fastboot,
            flash: opt_text(self.flash),
            dry_run: self.dry_run,
            firmware_upgrade: self.firmware_upgrade,
            clean_flash: self.clean_flash,
            selective: self.selective,
            slot: self.slot,
            include_preloader: self.include_preloader,
            yes: self.yes,
            set_active: self.set_active,
            reboot: self.reboot,
            reboot_bootloader: self.reboot_bootloader,
            getvar: opt_text(self.getvar),
            getvar_all: self.getvar_all,
        }
    }
}

/// The long options the grammar knows, at any place.
#[derive(Clone, Copy, Debug, PartialEq, Eq, Structural)]
pub enum LongOpt {
    ForceFastboot,
    Flash,
    DryRun,
    FirmwareUpgrade,
    CleanFlash,
    Selective,
    Slot,
    IncludePreloader,
    Yes,
    SetActive,
    Reboot,
    RebootBootloader,
    Getvar,
    GetvarAll,
    Help,
    EraseFallback,
    NoMetadata,
    NoCache,
}

/// The option a long name (without its dashes) names.
pub open spec fn long_opt(name: Seq<char>) -> Option<LongOpt> {
    if name == "force-fastboot"@ { Some(LongOpt::ForceFastboot) }
    else if name == "flash"@ { Some(LongOpt::Flash) }
    else if name == "dry-run"@ { Some(LongOpt::DryRun) }
    else if name == "firmware-upgrade"@ { Some(LongOpt::FirmwareUpgrade) }
    else if name == "clean-flash"@ { Some(LongOpt::CleanFlash) }
    else if name == "selective"@ { Some(LongOpt::Selective) }
    else if name == "slot"@ { Some(LongOpt::Slot) }
    else if name == "include-preloader"@ { Some(LongOpt::IncludePreloader) }
    else if name == "yes"@ { Some(LongOpt::Yes) }
    else if name == "set-active"@ { Some(LongOpt::SetActive) }
    else if name == "reboot"@ { Some(LongOpt::Reboot) }
    else if name == "reboot-bootloader"@ { Some(LongOpt::RebootBootloader) }
    else if name == "getvar"@ { Some(LongOpt::Getvar) }
    else if name == "getvar-all"@ { Some(LongOpt::GetvarAll) }
    else if name == "help"@ { Some(LongOpt::Help) }
    else if name == "erase-fallback"@ { Some(LongOpt::EraseFallback) }
    else if name == "no-metadata"@ { Some(LongOpt::NoMetadata) }
    else if name == "no-cache"@ { Some(LongOpt::NoCache) }
    else { None }
}

fn long_opt_of(name: &str) -> (r: Option<LongOpt>)
    ensures
        r == long_opt(name@),
{
    if str_eq(name, "force-fastboot") { Some(LongOpt::ForceFastboot) }
    else if str_eq(name, "flash") { Some(LongOpt::Flash) }
    else if str_eq(name, "dry-run") { Some(LongOpt::DryRun) }
    else if str_eq(name, "firmware-upgrade") { Some(LongOpt::FirmwareUpgrade) }
    else if str_eq(name, "clean-flash") { Some(LongOpt::CleanFlash) }
    else if str_eq(name, "selective") { Some(LongOpt::Selective) }
    else if str_eq(name, "slot") { Some(LongOpt::Slot) }
    else if str_eq(name, "include-preloader") { Some(LongOpt::IncludePreloader) }
    else if str_eq(name, "yes") { Some(LongOpt::Yes) }
    else if str_eq(name, "set-active") { Some(LongOpt::SetActive) }
    else if str_eq(name, "reboot") { Some(LongOpt::Reboot) }
    else if str_eq(name, "reboot-bootloader") { Some(LongOpt::RebootBootloader) }
    else if str_eq(name, "getvar") { Some(LongOpt::Getvar) }
    else if str_eq(name, "getvar-all") { Some(LongOpt::GetvarAll) }
    else if str_eq(name, "help") { Some(LongOpt::Help) }
    else if str_eq(name, "erase-fallback") { Some(LongOpt::EraseFallback) }
    else if str_eq(name, "no-metadata") { Some(LongOpt::NoMetadata) }
    else if str_eq(name, "no-cache") { Some(LongOpt::NoCache) }
    else { None }
}

/// Whether the option takes a value.
pub open spec fn takes_value(o: LongOpt) -> bool {
    o == LongOpt::Flash || o == LongOpt::Slot || o == LongOpt::SetActive || o == LongOpt::Getvar
}

/// The slot a value names.
pub open spec fn slot_value(v: Seq<char>) -> Option<SlotArg> {
    if v == "a"@ { Some(SlotArg::A) }
    else if v == "b"@ { Some(SlotArg::B) }
    else if v == "active"@ { Some(SlotArg::Active) }
    else if v == "inactive"@ { Some(SlotArg::Inactive) }
    else if v == "all"@ { Some(SlotArg::All) }
    else { None }
}

/// Each `--slot` word names the slot of the same name (`a`, `b`, `active`,
/// `inactive`, `all`), no two words name the same slot, and any other word
/// names none; so `--slot <word>` at the top level sets exactly that slot.
pub proof fn lemma_slot_words(v: Seq<char>, w: Seq<char>, a: ArgsModel)
    requires
        a.slot is None,
    ensures
        slot_value("a"@) == Some(SlotArg::A),
        slot_value("b"@) == Some(SlotArg::B),
        slot_value("active"@) == Some(SlotArg::Active),
        slot_value("inactive"@) == Some(SlotArg::Inactive),
        slot_value("all"@) == Some(SlotArg::All),
        slot_value(v) is Some && slot_value(v) == slot_value(w) ==> v == w,
        !(v == "a"@ || v == "b"@ || v == "active"@ || v == "inactive"@ || v == "all"@) ==> slot_value(v) is None,
        apply_top(a, LongOpt::Slot, "inactive"@) == Ok::<ArgsModel, ArgvError>(ArgsModel { slot: Some(SlotArg::Inactive), ..a }),
        apply_top(a, LongOpt::Slot, "active"@) == Ok::<ArgsModel, ArgvError>(ArgsModel { slot: Some(SlotArg::Active), ..a }),
{
    reveal_strlit("a");
    reveal_strlit("b");
    reveal_strlit("active");
    reveal_strlit("inactive");
    reveal_strlit("all");
    assert("a"@ != "b"@) by { assert("a"@[0] != "b"@[0]); }
    assert("active"@ != "inactive"@) by { assert("active"@.len() != "inactive"@.len()); }
    assert("a"@ != "all"@) by { assert("a"@.len() != "all"@.len()); }
    assert("a"@ != "active"@) by { assert("a"@.len() != "active"@.len()); }
    assert("a"@ != "inactive"@) by { assert("a"@.len() != "inactive"@.len()); }
    assert("b"@ != "active"@) by { assert("b"@.len() != "active"@.len()); }
    assert("b"@ != "inactive"@) by { assert("b"@.len() != "inactive"@.len()); }
    assert("b"@ != "all"@) by { assert("b"@.len() != "all"@.len()); }
    assert("active"@ != "all"@) by { assert("active"@.len() != "all"@.len()); }
    assert("inactive"@ != "all"@) by { assert("inactive"@.len() != "all"@.len()); }
}

fn slot_of(v: &str) -> (r: Option<SlotArg>)
    ensures
        r == slot_value(v@),
{
    if str_eq(v, "a") { Some(SlotArg::A) }
    else if str_eq(v, "b") { Some(SlotArg::B) }
    else if str_eq(v, "active") { Some(SlotArg::Active) }
    else if str_eq(v, "inactive") { Some(SlotArg::Inactive) }
    else if str_eq(v, "all") { Some(SlotArg::All) }
    else { None }
}

/// The subcommand a bare word names, with its positional arguments still
/// empty; `None` where the word names none. `help` is answered apart.
pub open spec fn subcommand_named(name: Seq<char>) -> Option<CommandModel> {
    if name == "disable-vbmeta"@ { Some(CommandModel::DisableVbmeta) }
    else if name == "gsi"@ { Some(CommandModel::Gsi { image: Seq::empty() }) }
    else if name == "format"@ { Some(CommandModel::Format { partition: Seq::empty(), erase_fallback: false }) }
    else if name == "scatter"@ {
        Some(CommandModel::Scatter {
            scatter: Seq::empty(),
            firmware_upgrade: false,
            clean_flash: false,
            selective: false,
            slot: None,
            include_preloader: false,
        })
    }
    else if name == "flash"@ { Some(CommandModel::Flash { partition: Seq::empty(), image: Seq::empty(), slot: None }) }
    else if name == "reboot"@ { Some(CommandModel::Reboot) }
    else if name == "getvar"@ { Some(CommandModel::Getvar { var: Seq::empty() }) }
    else if name == "unlock-bootloader"@ { Some(CommandModel::UnlockBootloader) }
    else if name == "lock-bootloader"@ { Some(CommandModel::LockBootloader) }
    else if name == "wipe-data"@ { Some(CommandModel::WipeData { no_metadata: false, no_cache: false, erase_fallback: false }) }
    else { None }
}

fn subcommand_of(name: &str) -> (r: Option<Command>)
    ensures
        opt_command(r) == subcommand_named(name@),
{
    if str_eq(name, "disable-vbmeta") { Some(Command::DisableVbmeta) }
    else if str_eq(name, "gsi") { Some(Command::Gsi { image: String::new() }) }
    else if str_eq(name, "format") { Some(Command::Format { partition: String::new(), erase_fallback: false }) }
    else if str_eq(name, "scatter") {
        Some(Command::Scatter {
            scatter: String::new(),
            firmware_upgrade: false,
            clean_flash: false,
            selective: false,
            slot: None,
            include_preloader: false,
        })
    }
    else if str_eq(name, "flash") { Some(Command::Flash { partition: String::new(), image: String::new(), slot: None }) }
    else if str_eq(name, "reboot") { Some(Command::Reboot) }
    else if str_eq(name, "getvar") { Some(Command::Getvar { var: String::new() }) }
    else if str_eq(name, "unlock-bootloader") { Some(Command::UnlockBootloader) }
    else if str_eq(name, "lock-bootloader") { Some(Command::LockBootloader) }
    else if str_eq(name, "wipe-data") {
        Some(Command::WipeData { no_metadata: false, no_cache: false, erase_fallback: false })
    }
    else { None }
}

/// How many positional arguments a subcommand takes.
pub open spec fn positional_count(c: CommandModel) -> nat {
    match c {
        CommandModel::Gsi { .. } => 1,
        CommandModel::Format { .. } => 1,
        CommandModel::Scatter { .. } => 1,
        CommandModel::Flash { .. } => 2,
        CommandModel::Getvar { .. } => 1,
        _ => 0,
    }
}

/// The subcommand with its positional argument number `k` set to `v`.
pub open spec fn fill_positional(c: CommandModel, k: nat, v: Seq<char>) -> CommandModel {
    match c {
        CommandModel::Gsi { .. } => CommandModel::Gsi { image: v },
        CommandModel::Format { erase_fallback, .. } => CommandModel::Format { partition: v, erase_fallback },
        CommandModel::Scatter { firmware_upgrade, clean_flash, selective, slot, include_preloader, .. } =>
            CommandModel::Scatter { scatter: v, firmware_upgrade, clean_flash, selective, slot, include_preloader },
        CommandModel::Flash { partition, image, slot } => if k == 0 {
            CommandModel::Flash { partition: v, image, slot }
        } else {
            CommandModel::Flash { partition, image: v, slot }
        },
        CommandModel::Getvar { .. } => CommandModel::Getvar { var: v },
        _ => c,
    }
}

/// Whether positional argument number `k` of a subcommand is a path, which
/// may not be empty.
pub open spec fn is_path_positional(c: CommandModel, k: nat) -> bool {
    match c {
        CommandModel::Gsi { .. } => k == 0,
        CommandModel::Scatter { .. } => k == 0,
        CommandModel::Flash { .. } => k == 1,
        _ => false,
    }
}

/// Where the parse stands: the arguments so far, how many positional
/// arguments of the subcommand are filled, and whether `--` was seen.
pub struct ParseModel {
    pub args: ArgsModel,
    pub filled: nat,
    pub raw: bool,
}

/// The arguments before any word is read.
pub open spec fn empty_args() -> ArgsModel {
    ArgsModel {
        command: None,
        force_fastboot: false,
        flash: None,
        dry_run: false,
        firmware_upgrade: false,
        clean_flash: false,
        selective: false,
        slot: None,
        include_preloader: false,
        yes: false,
        set_active: None,
        reboot: false,
        reboot_bootloader: false,
        getvar: None,
        getvar_all: false,
    }
}

/// Sets a flag that may be given once.
pub open spec fn set_once(already: bool) -> Result<bool, ArgvError> {
    if already { Err(ArgvError::RepeatedArgument) } else { Ok(true) }
}

/// Reading a bare word.
pub open spec fn read_positional(st: ParseModel, w: Seq<char>) -> Result<ParseModel, ArgvError> {
    match st.args.command {
        None => if st.raw {
            Err(ArgvError::UnknownArgument)
        } else if w == "help"@ {
            Err(ArgvError::HelpRequested)
        } else {
            match subcommand_named(w) {
                Some(c) => Ok(ParseModel { args: ArgsModel { command: Some(c), ..st.args }, filled: 0, raw: st.raw }),
                None => Err(ArgvError::UnknownArgument),
            }
        },
        Some(c) => if st.filled < positional_count(c) && is_path_positional(c, st.filled) && w.len() == 0 {
            Err(ArgvError::MissingValue)
        } else if st.filled < positional_count(c) {
            Ok(ParseModel {
                args: ArgsModel { command: Some(fill_positional(c, st.filled, w)), ..st.args },
                filled: st.filled + 1,
                raw: st.raw,
            })
        } else {
            Err(ArgvError::UnknownArgument)
        },
    }
}

/// Applying an option outside any subcommand; `v` is its value where it
/// takes one.
pub open spec fn apply_top(a: ArgsModel, o: LongOpt, v: Seq<char>) -> Result<ArgsModel, ArgvError> {
    match o {
        LongOpt::ForceFastboot => if a.force_fastboot { Err(ArgvError::RepeatedArgument) } else { Ok(ArgsModel { force_fastboot: true, ..a }) },
        LongOpt::Flash => if a.flash is Some {
            Err(ArgvError::RepeatedArgument)
        } else if v.len() == 0 {
            Err(ArgvError::MissingValue)
        } else {
            Ok(ArgsModel { flash: Some(v), ..a })
        },
        LongOpt::DryRun => if a.dry_run { Err(ArgvError::RepeatedArgument) } else { Ok(ArgsModel { dry_run: true, ..a }) },
        LongOpt::FirmwareUpgrade => if a.firmware_upgrade { Err(ArgvError::RepeatedArgument) } else { Ok(ArgsModel { firmware_upgrade: true, ..a }) },
        LongOpt::CleanFlash => if a.clean_flash { Err(ArgvError::RepeatedArgument) } else { Ok(ArgsModel { clean_flash: true, ..a }) },
        LongOpt::Selective => if a.selective { Err(ArgvError::RepeatedArgument) } else { Ok(ArgsModel { selective: true, ..a }) },
        LongOpt::Slot => if a.slot is Some { Err(ArgvError::RepeatedArgument) } else {
            match slot_value(v) { Some(s) => Ok(ArgsModel { slot: Some(s), ..a }), None => Err(ArgvError::InvalidValue) }
        },
        LongOpt::IncludePreloader => if a.include_preloader { Err(ArgvError::RepeatedArgument) } else { Ok(ArgsModel { include_preloader: true, ..a }) },
        LongOpt::Yes => if a.yes { Err(ArgvError::RepeatedArgument) } else { Ok(ArgsModel { yes: true, ..a }) },
        LongOpt::SetActive => if a.set_active is Some { Err(ArgvError::RepeatedArgument) } else {
            match slot_value(v) { Some(s) => Ok(ArgsModel { set_active: Some(s), ..a }), None => Err(ArgvError::InvalidValue) }
        },
        LongOpt::Reboot => if a.reboot { Err(ArgvError::RepeatedArgument) } else { Ok(ArgsModel { reboot: true, ..a }) },
        LongOpt::RebootBootloader => if a.reboot_bootloader { Err(ArgvError::RepeatedArgument) } else { Ok(ArgsModel { reboot_bootloader: true, ..a }) },
        LongOpt::Getvar => if a.getvar is Some { Err(ArgvError::RepeatedArgument) } else { Ok(ArgsModel { getvar: Some(v), ..a }) },
        LongOpt::GetvarAll => if a.getvar_all { Err(ArgvError::RepeatedArgument) } else { Ok(ArgsModel { getvar_all: true, ..a }) },
        LongOpt::Help => Err(ArgvError::HelpRequested),
        _ => Err(ArgvError::UnknownArgument),
    }
}

/// A subcommand's own option applied to it.
pub open spec fn apply_to_command(c: CommandModel, o: LongOpt, v: Seq<char>) -> Result<CommandModel, ArgvError> {
    match c {
        CommandModel::Format { partition, erase_fallback } => match o {
            LongOpt::EraseFallback => if erase_fallback { Err(ArgvError::RepeatedArgument) } else {
                Ok(CommandModel::Format { partition, erase_fallback: true })
            },
            _ => Err(ArgvError::UnknownArgument),
        },
        CommandModel::Scatter { scatter, firmware_upgrade, clean_flash, selective, slot, include_preloader } => match o {
            LongOpt::FirmwareUpgrade => if firmware_upgrade { Err(ArgvError::RepeatedArgument) } else {
                Ok(CommandModel::Scatter { scatter, firmware_upgrade: true, clean_flash, selective, slot, include_preloader })
            },
            LongOpt::CleanFlash => if clean_flash { Err(ArgvError::RepeatedArgument) } else {
                Ok(CommandModel::Scatter { scatter, firmware_upgrade, clean_flash: true, selective, slot, include_preloader })
            },
            LongOpt::Selective => if selective { Err(ArgvError::RepeatedArgument) } else {
                Ok(CommandModel::Scatter { scatter, firmware_upgrade, clean_flash, selective: true, slot, include_preloader })
            },
            LongOpt::Slot => if slot is Some { Err(ArgvError::RepeatedArgument) } else {
                match slot_value(v) {
                    Some(s) => Ok(CommandModel::Scatter { scatter, firmware_upgrade, clean_flash, selective, slot: Some(s), include_preloader }),
                    None => Err(ArgvError::InvalidValue),
                }
            },
            LongOpt::IncludePreloader => if include_preloader { Err(ArgvError::RepeatedArgument) } else {
                Ok(CommandModel::Scatter { scatter, firmware_upgrade, clean_flash, selective, slot, include_preloader: true })
            },
            _ => Err(ArgvError::UnknownArgument),
        },
        CommandModel::Flash { partition, image, slot } => match o {
            LongOpt::Slot => if slot is Some { Err(ArgvError::RepeatedArgument) } else {
                match slot_value(v) {
                    Some(s) => Ok(CommandModel::Flash { partition, image, slot: Some(s) }),
                    None => Err(ArgvError::InvalidValue),
                }
            },
            _ => Err(ArgvError::UnknownArgument),
        },
        CommandModel::WipeData { no_metadata, no_cache, erase_fallback } => match o {
            LongOpt::NoMetadata => if no_metadata { Err(ArgvError::RepeatedArgument) } else {
                Ok(CommandModel::WipeData { no_metadata: true, no_cache, erase_fallback })
            },
            LongOpt::NoCache => if no_cache { Err(ArgvError::RepeatedArgument) } else {
                Ok(CommandModel::WipeData { no_metadata, no_cache: true, erase_fallback })
            },
            LongOpt::EraseFallback => if erase_fallback { Err(ArgvError::RepeatedArgument) } else {
                Ok(CommandModel::WipeData { no_metadata, no_cache, erase_fallback: true })
            },
            _ => Err(ArgvError::UnknownArgument),
        },
        _ => Err(ArgvError::UnknownArgument),
    }
}

/// Applying an option after the subcommand `c`: its own options, and the
/// global `--dry-run` and `--yes`.
pub open spec fn apply_sub(a: ArgsModel, c: CommandModel, o: LongOpt, v: Seq<char>) -> Result<ArgsModel, ArgvError> {
    if o == LongOpt::DryRun || o == LongOpt::Yes || o == LongOpt::Help {
        apply_top(a, o, v)
    } else {
        match apply_to_command(c, o, v) {
            Ok(k) => Ok(ArgsModel { command: Some(k), ..a }),
            Err(e) => Err(e),
        }
    }
}

/// Applying an option where the parse stands.
pub open spec fn apply_opt(st: ParseModel, o: LongOpt, v: Seq<char>) -> Result<ParseModel, ArgvError> {
    let r = match st.args.command {
        None => apply_top(st.args, o, v),
        Some(c) => apply_sub(st.args, c, o, v),
    };
    match r {
        Ok(a) => Ok(ParseModel { args: a, ..st }),
        Err(e) => Err(e),
    }
}

/// The index of the first `=` in `s` at or after `k`, or the length of `s`.
pub open spec fn first_eq(s: Seq<char>, k: int) -> int
    decreases s.len() - k,
{
    if k >= s.len() {
        s.len() as int
    } else if s[k] == '=' {
        k
    } else {
        first_eq(s, k + 1)
    }
}

/// Whether a word reads as an option rather than a value.
pub open spec fn looks_like_option(w: Seq<char>) -> bool {
    w.len() > 1 && w[0] == '-'
}

/// Reading the word at `i`: the new state, and whether the next word was
/// taken as a value.
pub open spec fn read_word(t: Seq<Seq<char>>, i: int, st: ParseModel) -> Result<(ParseModel, bool), ArgvError> {
    let w = t[i];
    if st.raw {
        match read_positional(st, w) { Ok(s) => Ok((s, false)), Err(e) => Err(e) }
    } else if w == "--"@ {
        Ok((ParseModel { raw: true, ..st }, false))
    } else if has_prefix(w, "--"@) {
        let p = first_eq(w, 2);
        let name = w.subrange(2, p);
        match long_opt(name) {
            None => Err(ArgvError::UnknownArgument),
            Some(o) => if o == LongOpt::Help {
                Err(ArgvError::HelpRequested)
            } else if takes_value(o) {
                if p < w.len() {
                    match apply_opt(st, o, w.subrange(p + 1, w.len() as int)) { Ok(s) => Ok((s, false)), Err(e) => Err(e) }
                } else if i + 1 < t.len() && !looks_like_option(t[i + 1]) {
                    match apply_opt(st, o, t[i + 1]) { Ok(s) => Ok((s, true)), Err(e) => Err(e) }
                } else {
                    Err(ArgvError::MissingValue)
                }
            } else if p < w.len() {
                Err(ArgvError::UnexpectedValue)
            } else {
                match apply_opt(st, o, Seq::empty()) { Ok(s) => Ok((s, false)), Err(e) => Err(e) }
            },
        }
    } else if looks_like_option(w) {
        if w == "-h"@ { Err(ArgvError::HelpRequested) } else { Err(ArgvError::UnknownArgument) }
    } else {
        match read_positional(st, w) { Ok(s) => Ok((s, false)), Err(e) => Err(e) }
    }
}

/// Reading the words from `i` on.
pub open spec fn read_words(t: Seq<Seq<char>>, i: int, st: ParseModel) -> Result<ParseModel, ArgvError>
    decreases t.len() - i,
{
    if i < 1 || i >= t.len() {
        Ok(st)
    } else {
        match read_word(t, i, st) {
            Ok((s, took)) => if took { read_words(t, i + 2, s) } else { read_words(t, i + 1, s) },
            Err(e) => Err(e),
        }
    }
}

/// The checks made once every word is read.
pub open spec fn finish(st: ParseModel) -> Result<ArgsModel, ArgvError> {
    let a = st.args;
    if a.command matches Some(c) && st.filled < positional_count(c) {
        Err(ArgvError::MissingPositional)
    } else if mode_flag_count(a.dry_run, a.firmware_upgrade, a.clean_flash, a.selective) > 1 {
        Err(ArgvError::ConflictingModes)
    } else if (a.firmware_upgrade || a.clean_flash || a.selective || a.slot is Some || a.include_preloader)
        && a.flash is None {
        Err(ArgvError::MissingFlash)
    } else {
        Ok(a)
    }
}

/// What a command line means: the word at index 0 names the program and is
/// skipped.
pub open spec fn parse_argv(t: Seq<Seq<char>>) -> Result<ArgsModel, ArgvError> {
    match read_words(t, 1, ParseModel { args: empty_args(), filled: 0, raw: false }) {
        Ok(st) => finish(st),
        Err(e) => Err(e),
    }
}

/// The words of a command line as character sequences.
pub open spec fn words(argv: &[&str]) -> Seq<Seq<char>> {
    argv@.map_values(|w: &str| w@)
}

/// A result with its success value taken by its view.
pub open spec fn res_view<T: View>(r: Result<T, ArgvError>) -> Result<T::V, ArgvError> {
    match r {
        Ok(x) => Ok(x@),
        Err(e) => Err(e),
    }
}

struct ParseState {
    args: Args,
    filled: usize,
    raw: bool,
}

impl View for ParseState {
    type V = ParseModel;

    closed spec fn view(&self) -> ParseModel {
        ParseModel { args: self.args@, filled: self.filled as nat, raw: self.raw }
    }
}

fn first_eq_index(w: &str, k: usize) -> (p: usize)
    requires
        k <= w@.len(),
    ensures
        p == first_eq(w@, k as int),
        k <= p <= w@.len(),
{
    let n = w.unicode_len();
    let mut j = k;
    while j < n
        invariant
            n == w@.len(),
            k <= j <= n,
            first_eq(w@, k as int) == first_eq(w@, j as int),
        decreases n - j,
    {
        if w.get_char(j) == '=' {
            return j;
        }
        j = j + 1;
    }
    j
}

#[verifier::rlimit(60)]
fn read_positional_exec(st: ParseState, w: &str) -> (r: Result<ParseState, ArgvError>)
    requires
        st.filled < usize::MAX,
    ensures
        res_view(r) == read_positional(st@, w@),
        r matches Ok(s) ==> s.filled <= st.filled + 1,
{
    let mut st = st;
    let c = st.args.command.take();
    match c {
        None => {
            if st.raw {
                Err(ArgvError::UnknownArgument)
            } else if str_eq(w, "help") {
                Err(ArgvError::HelpRequested)
            } else {
                match subcommand_of(w) {
                    Some(k) => {
                        st.args.command = Some(k);
                        st.filled = 0;
                        Ok(st)
                    },
                    None => Err(ArgvError::UnknownArgument),
                }
            }
        },
        Some(k) => {
            let f = st.filled;
            let is_path = match &k {
                Command::Gsi { .. } => f == 0,
                Command::Scatter { .. } => f == 0,
                Command::Flash { .. } => f == 1,
                _ => false,
            };
            if is_path && w.unicode_len() == 0 {
                return Err(ArgvError::MissingValue);
            }
            let filled: Command = match k {
                Command::Gsi { .. } if f == 0 => Command::Gsi { image: owned(w) },
                Command::Format { erase_fallback, .. } if f == 0 => Command::Format { partition: owned(w), erase_fallback },
                Command::Scatter { firmware_upgrade, clean_flash, selective, slot, include_preloader, .. } if f == 0 =>
                    Command::Scatter { scatter: owned(w), firmware_upgrade, clean_flash, selective, slot, include_preloader },
                Command::Flash { image, slot, .. } if f == 0 => Command::Flash { partition: owned(w), image, slot },
                Command::Flash { partition, slot, .. } if f == 1 => Command::Flash { partition, image: owned(w), slot },
                Command::Getvar { .. } if f == 0 => Command::Getvar { var: owned(w) },
                _ => {
                    return Err(ArgvError::UnknownArgument);
                },
            };
            st.args.command = Some(filled);
            st.filled = f + 1;
            Ok(st)
        },
    }
}

fn set_slot(current: Option<SlotArg>, v: &str) -> (r: Result<SlotArg, ArgvError>)
    ensures
        current is Some ==> r == Err::<SlotArg, ArgvError>(ArgvError::RepeatedArgument),
        current is None ==> (match slot_value(v@) {
            Some(s) => r == Ok::<SlotArg, ArgvError>(s),
            None => r == Err::<SlotArg, ArgvError>(ArgvError::InvalidValue),
        }),
{
    if current.is_some() {
        return Err(ArgvError::RepeatedArgument);
    }
    match slot_of(v) {
        Some(s) => Ok(s),
        None => Err(ArgvError::InvalidValue),
    }
}

fn apply_top_exec(a: Args, o: LongOpt, v: &str) -> (r: Result<Args, ArgvError>)
    ensures
        res_view(r) == apply_top(a@, o, v@),
{
    let mut a = a;
    match o {
        LongOpt::ForceFastboot => {
            if a.force_fastboot { return Err(ArgvError::RepeatedArgument); }
            a.force_fastboot = true;
        },
        LongOpt::Flash => {
            if a.flash.is_some() { return Err(ArgvError::RepeatedArgument); }
            if v.unicode_len() == 0 { return Err(ArgvError::MissingValue); }
            a.flash = Some(owned(v));
        },
        LongOpt::DryRun => {
            if a.dry_run { return Err(ArgvError::RepeatedArgument); }
            a.dry_run = true;
        },
        LongOpt::FirmwareUpgrade => {
            if a.firmware_upgrade { return Err(ArgvError::RepeatedArgument); }
            a.firmware_upgrade = true;
        },
        LongOpt::CleanFlash => {
            if a.clean_flash { return Err(ArgvError::RepeatedArgument); }
            a.clean_flash = true;
        },
        LongOpt::Selective => {
            if a.selective { return Err(ArgvError::RepeatedArgument); }
            a.selective = true;
        },
        LongOpt::Slot => {
            match set_slot(a.slot, v) {
                Ok(s) => { a.slot = Some(s); },
                Err(e) => { return Err(e); },
            }
        },
        LongOpt::IncludePreloader => {
            if a.include_preloader { return Err(ArgvError::RepeatedArgument); }
            a.include_preloader = true;
        },
        LongOpt::Yes => {
            if a.yes { return Err(ArgvError::RepeatedArgument); }
            a.yes = true;
        },
        LongOpt::SetActive => {
            match set_slot(a.set_active, v) {
                Ok(s) => { a.set_active = Some(s); },
                Err(e) => { return Err(e); },
            }
        },
        LongOpt::Reboot => {
            if a.reboot { return Err(ArgvError::RepeatedArgument); }
            a.reboot = true;
        },
        LongOpt::RebootBootloader => {
            if a.reboot_bootloader { return Err(ArgvError::RepeatedArgument); }
            a.reboot_bootloader = true;
        },
        LongOpt::Getvar => {
            if a.getvar.is_some() { return Err(ArgvError::RepeatedArgument); }
            a.getvar = Some(owned(v));
        },
        LongOpt::GetvarAll => {
            if a.getvar_all { return Err(ArgvError::RepeatedArgument); }
            a.getvar_all = true;
        },
        LongOpt::Help => {
            return Err(ArgvError::HelpRequested);
        },
        _ => {
            return Err(ArgvError::UnknownArgument);
        },
    }
    Ok(a)
}

#[verifier::rlimit(60)]
fn apply_to_command_exec(c: Command, o: LongOpt, v: &str) -> (r: Result<Command, ArgvError>)
    ensures
        res_view(r) == apply_to_command(c@, o, v@),
{
    match c {
        Command::Format { partition, erase_fallback } => match o {
            LongOpt::EraseFallback => {
                if erase_fallback { return Err(ArgvError::RepeatedArgument); }
                Ok(Command::Format { partition, erase_fallback: true })
            },
            _ => Err(ArgvError::UnknownArgument),
        },
        Command::Scatter { scatter, firmware_upgrade, clean_flash, selective, slot, include_preloader } => match o {
            LongOpt::FirmwareUpgrade => {
                if firmware_upgrade { return Err(ArgvError::RepeatedArgument); }
                Ok(Command::Scatter { scatter, firmware_upgrade: true, clean_flash, selective, slot, include_preloader })
            },
            LongOpt::CleanFlash => {
                if clean_flash { return Err(ArgvError::RepeatedArgument); }
                Ok(Command::Scatter { scatter, firmware_upgrade, clean_flash: true, selective, slot, include_preloader })
            },
            LongOpt::Selective => {
                if selective { return Err(ArgvError::RepeatedArgument); }
                Ok(Command::Scatter { scatter, firmware_upgrade, clean_flash, selective: true, slot, include_preloader })
            },
            LongOpt::Slot => match set_slot(slot, v) {
                Ok(s) => Ok(Command::Scatter { scatter, firmware_upgrade, clean_flash, selective, slot: Some(s), include_preloader }),
                Err(e) => Err(e),
            },
            LongOpt::IncludePreloader => {
                if include_preloader { return Err(ArgvError::RepeatedArgument); }
                Ok(Command::Scatter { scatter, firmware_upgrade, clean_flash, selective, slot, include_preloader: true })
            },
            _ => Err(ArgvError::UnknownArgument),
        },
        Command::Flash { partition, image, slot } => match o {
            LongOpt::Slot => match set_slot(slot, v) {
                Ok(s) => Ok(Command::Flash { partition, image, slot: Some(s) }),
                Err(e) => Err(e),
            },
            _ => Err(ArgvError::UnknownArgument),
        },
        Command::WipeData { no_metadata, no_cache, erase_fallback } => match o {
            LongOpt::NoMetadata => {
                if no_metadata { return Err(ArgvError::RepeatedArgument); }
                Ok(Command::WipeData { no_metadata: true, no_cache, erase_fallback })
            },
            LongOpt::NoCache => {
                if no_cache { return Err(ArgvError::RepeatedArgument); }
                Ok(Command::WipeData { no_metadata, no_cache: true, erase_fallback })
            },
            LongOpt::EraseFallback => {
                if erase_fallback { return Err(ArgvError::RepeatedArgument); }
                Ok(Command::WipeData { no_metadata, no_cache, erase_fallback: true })
            },
            _ => Err(ArgvError::UnknownArgument),
        },
        _ => Err(ArgvError::UnknownArgument),
    }
}

fn apply_sub_exec(a: Args, o: LongOpt, v: &str) -> (r: Result<Args, ArgvError>)
    requires
        a.command is Some,
    ensures
        res_view(r) == apply_sub(a@, a@.command->0, o, v@),
{
    if o == LongOpt::DryRun || o == LongOpt::Yes || o == LongOpt::Help {
        return apply_top_exec(a, o, v);
    }
    let mut a = a;
    let c = a.command.take();
    match c {
        Some(k) => match apply_to_command_exec(k, o, v) {
            Ok(next) => {
                a.command = Some(next);
                Ok(a)
            },
            Err(e) => Err(e),
        },
        None => Err(ArgvError::UnknownArgument),
    }
}

fn apply_opt_exec(st: ParseState, o: LongOpt, v: &str) -> (r: Result<ParseState, ArgvError>)
    ensures
        res_view(r) == apply_opt(st@, o, v@),
        r matches Ok(s) ==> s.filled == st.filled,
{
    let ParseState { args, filled, raw } = st;
    let r = if args.command.is_some() {
        apply_sub_exec(args, o, v)
    } else {
        apply_top_exec(args, o, v)
    };
    match r {
        Ok(a) => Ok(ParseState { args: a, filled, raw }),
        Err(e) => Err(e),
    }
}

#[verifier::rlimit(60)]
fn read_word_exec(argv: &[&str], i: usize, st: ParseState) -> (r: Result<(ParseState, bool), ArgvError>)
    requires
        1 <= i < argv@.len(),
        st.filled <= i,
    ensures
        match r {
            Ok((s, took)) => read_word(words(argv), i as int, st@) == Ok::<(ParseModel, bool), ArgvError>((s@, took))
                && s.filled <= i + 1,
            Err(e) => read_word(words(argv), i as int, st@) == Err::<(ParseModel, bool), ArgvError>(e),
        },
{
    let w: &str = argv[i];
    assert(words(argv)[i as int] == w@);
    if st.raw {
        return match read_positional_exec(st, w) {
            Ok(s) => Ok((s, false)),
            Err(e) => Err(e),
        };
    }
    if str_eq(w, "--") {
        let ParseState { args, filled, raw } = st;
        return Ok((ParseState { args, filled, raw: true }, false));
    }
    let n = w.unicode_len();
    if starts_with(w, "--") {
        proof {
            reveal_strlit("--");
        }
        let p = first_eq_index(w, 2);
        let name = w.substring_char(2, p);
        match long_opt_of(name) {
            None => Err(ArgvError::UnknownArgument),
            Some(o) => {
                if o == LongOpt::Help {
                    Err(ArgvError::HelpRequested)
                } else if o == LongOpt::Flash || o == LongOpt::Slot || o == LongOpt::SetActive || o == LongOpt::Getvar {
                    if p < n {
                        let v = w.substring_char(p + 1, n);
                        match apply_opt_exec(st, o, v) {
                            Ok(s) => Ok((s, false)),
                            Err(e) => Err(e),
                        }
                    } else if i + 1 < argv.len() && !looks_like_option_exec(argv[i + 1]) {
                        assert(words(argv)[i + 1] == argv@[i + 1]@);
                        match apply_opt_exec(st, o, argv[i + 1]) {
                            Ok(s) => Ok((s, true)),
                            Err(e) => Err(e),
                        }
                    } else {
                        Err(ArgvError::MissingValue)
                    }
                } else if p < n {
                    Err(ArgvError::UnexpectedValue)
                } else {
                    match apply_opt_exec(st, o, "") {
                        Ok(s) => Ok((s, false)),
                        Err(e) => Err(e),
                    }
                }
            },
        }
    } else if looks_like_option_exec(w) {
        if str_eq(w, "-h") {
            Err(ArgvError::HelpRequested)
        } else {
            Err(ArgvError::UnknownArgument)
        }
    } else {
        match read_positional_exec(st, w) {
            Ok(s) => Ok((s, false)),
            Err(e) => Err(e),
        }
    }
}

fn looks_like_option_exec(w: &str) -> (b: bool)
    ensures
        b == looks_like_option(w@),
{
    w.unicode_len() > 1 && w.get_char(0) == '-'
}

impl Args {
    /// Reads a command line; the word at index 0 names the program.
    pub fn try_parse_from(argv: &[&str]) -> (r: Result<Args, ArgvError>)
        ensures
            res_view(r) == parse_argv(words(argv)),
    {
        let ghost t = words(argv);
        let ghost init = ParseModel { args: empty_args(), filled: 0, raw: false };
        let mut st = ParseState {
            args: Args {
                command: None,
                force_fastboot: false,
                flash: None,
                dry_run: false,
                firmware_upgrade: false,
                clean_flash: false,
                selective: false,
                slot: None,
                include_preloader: false,
                yes: false,
                set_active: None,
                reboot: false,
                reboot_bootloader: false,
                getvar: None,
                getvar_all: false,
            },
            filled: 0,
            raw: false,
        };
        let mut i: usize = 1;
        while i < argv.len()
            invariant
                t == words(argv),
                init == (ParseModel { args: empty_args(), filled: 0, raw: false }),
                1 <= i,
                st.filled <= i,
                read_words(t, 1, init) == read_words(t, i as int, st@),
            decreases argv.len() - i,
        {
            let ghost st0 = st@;
            match read_word_exec(argv, i, st) {
                Ok((s, took)) => {
                    st = s;
                    if took {
                        i = i + 2;
                    } else {
                        i = i + 1;
                    }
                },
                Err(e) => {
                    assert(read_words(t, i as int, st0) == Err::<ParseModel, ArgvError>(e));
                    return Err(e);
                },
            }
        }
        match finish_exec(st) {
            Ok(a) => Ok(a),
            Err(e) => Err(e),
        }
    }

    /// Reads a command line that the grammar accepts.
    pub fn parse_from(argv: &[&str]) -> (a: Args)
        requires
            parse_argv(words(argv)) is Ok,
        ensures
            parse_argv(words(argv)) == Ok::<ArgsModel, ArgvError>(a@),
    {
        let r = Args::try_parse_from(argv);
        assert(r is Ok);
        r.unwrap()
    }
}

fn finish_exec(st: ParseState) -> (r: Result<Args, ArgvError>)
    ensures
        res_view(r) == finish(st@),
{
    let a = st.args;
    let missing = match &a.command {
        Some(Command::Gsi { .. }) | Some(Command::Format { .. }) | Some(Command::Scatter { .. })
        | Some(Command::Getvar { .. }) => st.filled < 1,
        Some(Command::Flash { .. }) => st.filled < 2,
        _ => false,
    };
    if missing {
        return Err(ArgvError::MissingPositional);
    }
    let mut count: u8 = 0;
    if a.dry_run { count = count + 1; }
    if a.firmware_upgrade { count = count + 1; }
    if a.clean_flash { count = count + 1; }
    if a.selective { count = count + 1; }
    if count > 1 {
        return Err(ArgvError::ConflictingModes);
    }
    if (a.firmware_upgrade || a.clean_flash || a.selective || a.slot.is_some() || a.include_preloader)
        && a.flash.is_none() {
        return Err(ArgvError::MissingFlash);
    }
    Ok(a)
}

/// The paths read so far are not empty: the `--flash` scatter file, and
/// each path positional already filled.
pub open spec fn paths_nonempty(st: ParseModel) -> bool {
    &&& st.args.flash matches Some(p) ==> p.len() > 0
    &&& st.filled >= 1 ==> (st.args.command matches Some(CommandModel::Gsi { image }) ==> image.len() > 0)
    &&& st.filled >= 1 ==> (st.args.command matches Some(CommandModel::Scatter { scatter, .. }) ==> scatter.len() > 0)
    &&& st.filled >= 2 ==> (st.args.command matches Some(CommandModel::Flash { image, .. }) ==> image.len() > 0)
}

/// A subcommand's options keep its kind and its paths.
spec fn same_paths(c: CommandModel, k: CommandModel) -> bool {
    &&& c matches CommandModel::Scatter { scatter: s1, .. } ==> (k matches CommandModel::Scatter { scatter: s2, .. } && s2 == s1)
    &&& c matches CommandModel::Flash { image: i1, .. } ==> (k matches CommandModel::Flash { image: i2, .. } && i2 == i1)
    &&& (c !is Gsi && c !is Scatter && c !is Flash) ==> (k !is Gsi && k !is Scatter && k !is Flash)
}

proof fn lemma_apply_top_keeps_paths(a: ArgsModel, o: LongOpt, v: Seq<char>)
    ensures
        apply_top(a, o, v) matches Ok(b) ==> b.command == a.command
            && (b.flash == a.flash || (b.flash matches Some(p) && p.len() > 0)),
{
}

proof fn lemma_apply_to_command_keeps_paths(c: CommandModel, o: LongOpt, v: Seq<char>)
    ensures
        apply_to_command(c, o, v) matches Ok(k) ==> same_paths(c, k),
{
}

proof fn lemma_apply_opt_keeps_paths(st: ParseModel, o: LongOpt, v: Seq<char>)
    requires
        paths_nonempty(st),
    ensures
        apply_opt(st, o, v) matches Ok(s) ==> paths_nonempty(s) && s.filled == st.filled,
{
    lemma_apply_top_keeps_paths(st.args, o, v);
    match st.args.command {
        None => {},
        Some(c) => {
            lemma_apply_to_command_keeps_paths(c, o, v);
        },
    }
}

proof fn lemma_read_word_keeps_paths(t: Seq<Seq<char>>, i: int, st: ParseModel)
    requires
        0 <= i < t.len(),
        paths_nonempty(st),
    ensures
        read_word(t, i, st) matches Ok((s, _)) ==> paths_nonempty(s),
{
    let w = t[i];
    let p = first_eq(w, 2);
    if has_prefix(w, "--"@) && w != "--"@ && !st.raw {
        lemma_apply_opt_keeps_paths(st, LongOpt::Help, Seq::empty());
        match long_opt(w.subrange(2, p)) {
            Some(o) => {
                lemma_apply_opt_keeps_paths(st, o, Seq::empty());
                if p < w.len() {
                    lemma_apply_opt_keeps_paths(st, o, w.subrange(p + 1, w.len() as int));
                }
                if i + 1 < t.len() {
                    lemma_apply_opt_keeps_paths(st, o, t[i + 1]);
                }
            },
            None => {},
        }
    }
}

proof fn lemma_read_words_keeps_paths(t: Seq<Seq<char>>, i: int, st: ParseModel)
    requires
        paths_nonempty(st),
    ensures
        read_words(t, i, st) matches Ok(s) ==> paths_nonempty(s),
    decreases t.len() - i,
{
    if 1 <= i < t.len() {
        lemma_read_word_keeps_paths(t, i, st);
        match read_word(t, i, st) {
            Ok((s, took)) => {
                if took {
                    lemma_read_words_keeps_paths(t, i + 2, s);
                } else {
                    lemma_read_words_keeps_paths(t, i + 1, s);
                }
            },
            Err(_) => {},
        }
    }
}

/// Every command line the grammar accepts names at most one flash mode,
/// gives the scatter modifiers only with `--flash`, and names no empty
/// path: the `--flash` scatter file, the GSI image, the scatter file and
/// the image to flash are all non-empty.
pub proof fn lemma_accepted_command_lines(t: Seq<Seq<char>>)
    ensures
        parse_argv(t) matches Ok(a) ==> {
            &&& mode_flag_count(a.dry_run, a.firmware_upgrade, a.clean_flash, a.selective) <= 1
            &&& (a.firmware_upgrade || a.clean_flash || a.selective || a.slot is Some || a.include_preloader)
                ==> a.flash is Some
            &&& a.flash matches Some(p) ==> p.len() > 0
            &&& a.command matches Some(CommandModel::Gsi { image }) ==> image.len() > 0
            &&& a.command matches Some(CommandModel::Scatter { scatter, .. }) ==> scatter.len() > 0
            &&& a.command matches Some(CommandModel::Flash { image, .. }) ==> image.len() > 0
        },
{
    let init = ParseModel { args: empty_args(), filled: 0, raw: false };
    lemma_read_words_keeps_paths(t, 1, init);
}

} // verus!
