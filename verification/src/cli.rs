//! The command line: flags, subcommands and the rules on combining them, and
//! the list of actions a command line asks for.

use vstd::prelude::*;
use crate::text::{concat, owned};

verus! {

/// Flash mode for scatter-based flashing.
#[derive(Clone, Copy, Debug, PartialEq, Eq, Structural)]
pub enum FlashMode {
    /// Only print what would be done.
    DryRun,
    /// Reflash all partitions from a scatter file.
    FirmwareUpgrade,
    /// Wipe userdata and reflash all partitions.
    CleanFlash,
    /// Let the user choose the partitions.
    Selective,
}

/// Slot selection.
#[derive(Clone, Copy, Debug, PartialEq, Eq, Structural)]
pub enum SlotArg {
    /// Slot A.
    A,
    /// Slot B.
    B,
    /// The active slot.
    Active,
    /// The inactive slot.
    Inactive,
    /// Both slots.
    All,
}

/// Subcommands.
#[derive(Clone, Debug, PartialEq, Eq)]
pub enum Command {
    /// Flash the bundled empty vbmeta image to both vbmeta slots.
    DisableVbmeta,
    /// Flash a GSI system image.
    Gsi {
        /// Path to the GSI system image.
        image: String,
    },
    /// Format userdata.
    Format {
        /// Partition to format; only `userdata` is supported.
        partition: String,
        /// Fall back to `fastboot erase` if image generation fails.
        erase_fallback: bool,
    },
    /// Build a scatter plan and optionally execute it.
    Scatter {
        /// Path to the scatter file.
        scatter: String,
        /// Firmware-upgrade mode.
        firmware_upgrade: bool,
        /// Clean-flash mode.
        clean_flash: bool,
        /// Selective mode.
        selective: bool,
        /// Slot selection.
        slot: Option<SlotArg>,
        /// Include preloader partitions.
        include_preloader: bool,
    },
    /// Flash one image to one partition.
    Flash {
        /// Partition to flash.
        partition: String,
        /// Image file to flash.
        image: String,
        /// Slot selection.
        slot: Option<SlotArg>,
    },
    /// Reboot the device.
    Reboot,
    /// Read one variable.
    Getvar {
        /// Variable name.
        var: String,
    },
    /// Send `flashing unlock`.
    UnlockBootloader,
    /// Send `flashing lock`.
    LockBootloader,
    /// Format userdata, then erase metadata and cache where present.
    WipeData {
        /// Skip erasing metadata.
        no_metadata: bool,
        /// Skip erasing cache.
        no_cache: bool,
        /// Fall back to `fastboot erase userdata` if image generation fails.
        erase_fallback: bool,
    },
}

/// Top-level arguments.
#[derive(Clone, Debug, PartialEq, Eq)]
pub struct Args {
    /// Subcommand.
    pub command: Option<Command>,
    /// `--force-fastboot`
    pub force_fastboot: bool,
    /// `--flash <scatter>`
    pub flash: Option<String>,
    /// `--dry-run`
    pub dry_run: bool,
    /// `--firmware-upgrade`
    pub firmware_upgrade: bool,
    /// `--clean-flash`
    pub clean_flash: bool,
    /// `--selective`
    pub selective: bool,
    /// `--slot <slot>`
    pub slot: Option<SlotArg>,
    /// `--include-preloader`
    pub include_preloader: bool,
    /// `--yes`
    pub yes: bool,
    /// `--set-active <slot>`
    pub set_active: Option<SlotArg>,
    /// `--reboot`
    pub reboot: bool,
    /// `--reboot-bootloader`
    pub reboot_bootloader: bool,
    /// `--getvar <var>`
    pub getvar: Option<String>,
    /// `--getvar-all`
    pub getvar_all: bool,
}

/// The mode the top-level flags select: firmware upgrade, clean flash,
/// selective, else dry run, in that order.
pub open spec fn mode_of(firmware_upgrade: bool, clean_flash: bool, selective: bool) -> FlashMode {
    if firmware_upgrade {
        FlashMode::FirmwareUpgrade
    } else if clean_flash {
        FlashMode::CleanFlash
    } else if selective {
        FlashMode::Selective
    } else {
        FlashMode::DryRun
    }
}

impl Args {
    /// The flash mode the boolean flags select.
    pub fn flash_mode(&self) -> (m: FlashMode)
        ensures
            m == mode_of(self.firmware_upgrade, self.clean_flash, self.selective),
    {
        if self.firmware_upgrade {
            FlashMode::FirmwareUpgrade
        } else if self.clean_flash {
            FlashMode::CleanFlash
        } else if self.selective {
            FlashMode::Selective
        } else {
            FlashMode::DryRun
        }
    }
}

/// The scatter-flash modifier flags given, in order, by their names.
pub open spec fn used_modifiers(args: Args) -> Seq<Seq<char>> {
    (if args.dry_run { seq!["--dry-run"@] } else { seq![] }) + (if args.firmware_upgrade {
        seq!["--firmware-upgrade"@]
    } else {
        seq![]
    }) + (if args.clean_flash { seq!["--clean-flash"@] } else { seq![] }) + (if args.selective {
        seq!["--selective"@]
    } else {
        seq![]
    }) + (if args.slot is Some { seq!["--slot"@] } else { seq![] }) + (if args.include_preloader {
        seq!["--include-preloader"@]
    } else {
        seq![]
    })
}

/// The words joined with single spaces.
pub open spec fn join_spaces(words: Seq<Seq<char>>) -> Seq<char>
    decreases words.len(),
{
    if words.len() == 0 {
        seq![]
    } else if words.len() == 1 {
        words[0]
    } else {
        join_spaces(words.drop_last()) + seq![' '] + words.last()
    }
}

/// The rest of the message about modifiers given without `--flash`.
pub open spec fn modifier_hint() -> Seq<char> {
    " requires --flash <scatter>\nstandalone: fastboot-flasher disable-vbmeta\nexample: fastboot-flasher --flash <scatter.xml> --dry-run"@
}

fn push_word(words: &mut Vec<String>, word: &str)
    ensures
        final(words)@.len() == old(words)@.len() + 1,
        forall|i: int| 0 <= i < old(words)@.len() ==> final(words)@[i] == old(words)@[i],
        final(words)@.last()@ == word@,
{
    words.push(owned(word));
}

/// Checks that scatter-flash modifiers come with `--flash` or a subcommand;
/// otherwise the error names the modifiers given.
pub fn flash_modifier_without_flash(args: &Args) -> (r: Result<(), String>)
    ensures
        (args.flash is Some || args.command is Some || used_modifiers(*args).len() == 0) ==> r is Ok,
        !(args.flash is Some || args.command is Some || used_modifiers(*args).len() == 0) ==> (r matches Err(m) && m@ == join_spaces(used_modifiers(*args)) + modifier_hint()),
{
    if args.flash.is_some() || args.command.is_some() {
        return Ok(());
    }
    let mut words: Vec<String> = Vec::new();
    if args.dry_run {
        push_word(&mut words, "--dry-run");
    }
    let ghost w1 = words@;
    if args.firmware_upgrade {
        push_word(&mut words, "--firmware-upgrade");
    }
    let ghost w2 = words@;
    if args.clean_flash {
        push_word(&mut words, "--clean-flash");
    }
    let ghost w3 = words@;
    if args.selective {
        push_word(&mut words, "--selective");
    }
    let ghost w4 = words@;
    if args.slot.is_some() {
        push_word(&mut words, "--slot");
    }
    let ghost w5 = words@;
    if args.include_preloader {
        push_word(&mut words, "--include-preloader");
    }
    let ghost views = Seq::new(words@.len(), |i: int| words@[i]@);
    proof {
        assert(views =~= used_modifiers(*args));
    }
    if words.len() == 0 {
        return Ok(());
    }
    let mut joined = owned(words[0].as_str());
    let mut i: usize = 1;
    while i < words.len()
        invariant
            1 <= i <= words@.len(),
            views.len() == words@.len(),
            forall|k: int| 0 <= k < words@.len() ==> views[k] == words@[k]@,
            joined@ == join_spaces(views.take(i as int)),
        decreases words@.len() - i,
    {
        let a = concat(joined.as_str(), " ");
        joined = concat(a.as_str(), words[i].as_str());
        proof {
            reveal_strlit(" ");
            assert(views.take(i + 1).drop_last() =~= views.take(i as int));
        }
        i = i + 1;
    }
    proof {
        assert(views.take(i as int) =~= views);
    }
    let msg = concat(
        joined.as_str(),
        " requires --flash <scatter>\nstandalone: fastboot-flasher disable-vbmeta\nexample: fastboot-flasher --flash <scatter.xml> --dry-run",
    );
    Err(msg)
}

/// Number of the four flash-mode flags that are set.
pub open spec fn mode_flag_count(dry_run: bool, firmware_upgrade: bool, clean_flash: bool, selective: bool) -> int {
    (if dry_run { 1int } else { 0 }) + (if firmware_upgrade { 1int } else { 0 }) + (if clean_flash {
        1int
    } else {
        0
    }) + (if selective { 1int } else { 0 })
}

/// The message when more than one flash-mode flag is set.
pub open spec fn mode_conflict_message() -> Seq<char> {
    "--dry-run, --firmware-upgrade, --clean-flash, and --selective are mutually exclusive"@
}

fn validate_flash_mode_flags(dry_run: bool, firmware_upgrade: bool, clean_flash: bool, selective: bool) -> (r: Result<(), String>)
    ensures
        mode_flag_count(dry_run, firmware_upgrade, clean_flash, selective) > 1 ==> (r matches Err(m) && m@ == mode_conflict_message()),
        mode_flag_count(dry_run, firmware_upgrade, clean_flash, selective) <= 1 ==> r is Ok,
{
    let mut enabled: u32 = 0;
    if dry_run {
        enabled = enabled + 1;
    }
    if firmware_upgrade {
        enabled = enabled + 1;
    }
    if clean_flash {
        enabled = enabled + 1;
    }
    if selective {
        enabled = enabled + 1;
    }
    if enabled > 1 {
        Err(
            owned(
                "--dry-run, --firmware-upgrade, --clean-flash, and --selective are mutually exclusive",
            ),
        )
    } else {
        Ok(())
    }
}

/// The flash mode from the four flash-mode flags, of which at most one may
/// be set.
pub fn flash_mode_from_flags(dry_run: bool, firmware_upgrade: bool, clean_flash: bool, selective: bool) -> (r: Result<FlashMode, String>)
    ensures
        mode_flag_count(dry_run, firmware_upgrade, clean_flash, selective) > 1 ==> (r matches Err(m) && m@ == mode_conflict_message()),
        mode_flag_count(dry_run, firmware_upgrade, clean_flash, selective) <= 1 ==> r == Ok::<FlashMode, String>(mode_of(firmware_upgrade, clean_flash, selective)),
{
    validate_flash_mode_flags(dry_run, firmware_upgrade, clean_flash, selective)?;
    if firmware_upgrade {
        Ok(FlashMode::FirmwareUpgrade)
    } else if clean_flash {
        Ok(FlashMode::CleanFlash)
    } else if selective {
        Ok(FlashMode::Selective)
    } else {
        Ok(FlashMode::DryRun)
    }
}

/// The first rule that arguments with a subcommand break, as its message;
/// `None` where they break none.
pub open spec fn subcommand_violation(args: Args) -> Option<Seq<char>> {
    match args.command {
        None => None,
        Some(command) => if args.force_fastboot {
            Some("cannot combine a subcommand with --force-fastboot"@)
        } else if args.set_active is Some {
            Some("cannot combine a subcommand with --set-active"@)
        } else if args.reboot_bootloader {
            Some("cannot combine a subcommand with --reboot-bootloader"@)
        } else if args.getvar_all {
            Some("cannot combine a subcommand with --getvar-all"@)
        } else if args.flash is Some {
            Some("cannot combine a subcommand with --flash <scatter>"@)
        } else if args.reboot {
            Some("cannot combine a subcommand with --reboot"@)
        } else if args.getvar is Some {
            Some("cannot combine a subcommand with --getvar"@)
        } else if args.firmware_upgrade || args.clean_flash || args.selective || args.slot is Some
            || args.include_preloader {
            Some("cannot combine a subcommand with legacy scatter flags; use the subcommand form"@)
        } else {
            match command {
                Command::Scatter { firmware_upgrade, clean_flash, selective, .. } => if mode_flag_count(
                    args.dry_run,
                    firmware_upgrade,
                    clean_flash,
                    selective,
                ) > 1 {
                    Some(mode_conflict_message())
                } else {
                    None
                },
                Command::Format { partition, .. } => if partition@ != "userdata"@ {
                    Some("format currently only supports `userdata`"@)
                } else {
                    None
                },
                _ => None,
            }
        },
    }
}

/// Checks the combinations that a subcommand does not allow.
pub fn validate_args(args: &Args) -> (r: Result<(), String>)
    ensures
        match subcommand_violation(*args) {
            None => r is Ok,
            Some(m) => r matches Err(e) && e@ == m,
        },
{
    if let Some(command) = &args.command {
        if args.force_fastboot {
            return Err(owned("cannot combine a subcommand with --force-fastboot"));
        }
        if args.set_active.is_some() {
            return Err(owned("cannot combine a subcommand with --set-active"));
        }
        if args.reboot_bootloader {
            return Err(owned("cannot combine a subcommand with --reboot-bootloader"));
        }
        if args.getvar_all {
            return Err(owned("cannot combine a subcommand with --getvar-all"));
        }
        if args.flash.is_some() {
            return Err(owned("cannot combine a subcommand with --flash <scatter>"));
        }
        if args.reboot {
            return Err(owned("cannot combine a subcommand with --reboot"));
        }
        if args.getvar.is_some() {
            return Err(owned("cannot combine a subcommand with --getvar"));
        }
        if args.firmware_upgrade || args.clean_flash || args.selective || args.slot.is_some()
            || args.include_preloader {
            return Err(
                owned(
                    "cannot combine a subcommand with legacy scatter flags; use the subcommand form",
                ),
            );
        }
        match command {
            Command::Scatter { firmware_upgrade, clean_flash, selective, .. } => {
                validate_flash_mode_flags(args.dry_run, *firmware_upgrade, *clean_flash, *selective)?;
            },
            Command::Format { partition, .. } => {
                if !crate::text::str_eq(partition.as_str(), "userdata") {
                    return Err(owned("format currently only supports `userdata`"));
                }
            },
            _ => {},
        }
    }
    Ok(())
}

/// One thing the command line asks to do.
#[derive(Clone, Debug, PartialEq, Eq)]
pub enum Action {
    /// Push the device into fastboot mode.
    ForceFastboot,
    /// Set the active slot.
    SetActive(SlotArg),
    /// Read one variable.
    GetVar(String),
    /// Read all variables.
    GetVarAll,
    /// Flash from a scatter file.
    Scatter {
        /// Scatter file.
        scatter: String,
        /// Mode.
        mode: FlashMode,
        /// Slot selection.
        slot: Option<SlotArg>,
        /// Include preloader partitions.
        include_preloader: bool,
    },
    /// Flash the empty vbmeta image.
    DisableVbmeta,
    /// Flash a GSI.
    Gsi {
        /// Image path.
        image: String,
    },
    /// Format userdata.
    FormatUserdata {
        /// Fall back to erase.
        erase_fallback: bool,
    },
    /// Flash one image.
    Flash {
        /// Partition.
        partition: String,
        /// Image path.
        image: String,
        /// Slot selection.
        slot: Option<SlotArg>,
    },
    /// Reboot.
    Reboot,
    /// Reboot into the bootloader.
    RebootBootloader,
    /// Unlock the bootloader.
    UnlockBootloader,
    /// Lock the bootloader.
    LockBootloader,
    /// Wipe data.
    WipeData {
        /// Skip metadata.
        no_metadata: bool,
        /// Skip cache.
        no_cache: bool,
        /// Fall back to erase.
        erase_fallback: bool,
    },
}

/// The action a subcommand asks for, given the global `--dry-run`.
pub open spec fn command_action_spec(dry_run: bool, command: Command) -> Result<Action, Seq<char>> {
    match command {
        Command::DisableVbmeta => Ok(Action::DisableVbmeta),
        Command::Gsi { image } => Ok(Action::Gsi { image }),
        Command::Format { erase_fallback, .. } => Ok(Action::FormatUserdata { erase_fallback }),
        Command::Scatter { scatter, firmware_upgrade, clean_flash, selective, slot, include_preloader } =>
            if mode_flag_count(dry_run, firmware_upgrade, clean_flash, selective) > 1 {
                Err(mode_conflict_message())
            } else {
                Ok(Action::Scatter { scatter, mode: mode_of(firmware_upgrade, clean_flash, selective), slot, include_preloader })
            },
        Command::Flash { partition, image, slot } => Ok(Action::Flash { partition, image, slot }),
        Command::Reboot => Ok(Action::Reboot),
        Command::Getvar { var } => Ok(Action::GetVar(var)),
        Command::UnlockBootloader => Ok(Action::UnlockBootloader),
        Command::LockBootloader => Ok(Action::LockBootloader),
        Command::WipeData { no_metadata, no_cache, erase_fallback } => Ok(Action::WipeData { no_metadata, no_cache, erase_fallback }),
    }
}

/// Whether two actions are the same, strings compared by their text.
pub open spec fn action_same(a: Action, b: Action) -> bool {
    match (a, b) {
        (Action::GetVar(x), Action::GetVar(y)) => x@ == y@,
        (Action::Scatter { scatter: s1, mode: m1, slot: l1, include_preloader: p1 }, Action::Scatter { scatter: s2, mode: m2, slot: l2, include_preloader: p2 }) =>
            s1@ == s2@ && m1 == m2 && l1 == l2 && p1 == p2,
        (Action::Gsi { image: x }, Action::Gsi { image: y }) => x@ == y@,
        (Action::Flash { partition: p1, image: i1, slot: s1 }, Action::Flash { partition: p2, image: i2, slot: s2 }) =>
            p1@ == p2@ && i1@ == i2@ && s1 == s2,
        _ => a == b,
    }
}

/// The action of a subcommand.
pub fn command_action(args: &Args, command: &Command) -> (r: Result<Action, String>)
    ensures
        match command_action_spec(args.dry_run, *command) {
            Ok(a) => r matches Ok(b) && action_same(a, b),
            Err(m) => r matches Err(e) && e@ == m,
        },
{
    match command {
        Command::DisableVbmeta => Ok(Action::DisableVbmeta),
        Command::Gsi { image } => Ok(Action::Gsi { image: image.clone() }),
        Command::Format { erase_fallback, .. } => Ok(Action::FormatUserdata { erase_fallback: *erase_fallback }),
        Command::Scatter { scatter, firmware_upgrade, clean_flash, selective, slot, include_preloader } => {
            let mode = flash_mode_from_flags(args.dry_run, *firmware_upgrade, *clean_flash, *selective)?;
            Ok(Action::Scatter { scatter: scatter.clone(), mode, slot: *slot, include_preloader: *include_preloader })
        },
        Command::Flash { partition, image, slot } => Ok(Action::Flash { partition: partition.clone(), image: image.clone(), slot: *slot }),
        Command::Reboot => Ok(Action::Reboot),
        Command::Getvar { var } => Ok(Action::GetVar(var.clone())),
        Command::UnlockBootloader => Ok(Action::UnlockBootloader),
        Command::LockBootloader => Ok(Action::LockBootloader),
        Command::WipeData { no_metadata, no_cache, erase_fallback } => Ok(Action::WipeData { no_metadata: *no_metadata, no_cache: *no_cache, erase_fallback: *erase_fallback }),
    }
}

/// The action of `--flash <scatter>` with the mode flags, if given.
pub open spec fn scatter_flag_action(args: Args) -> Option<Result<Action, Seq<char>>> {
    match args.flash {
        None => None,
        Some(path) => if mode_flag_count(args.dry_run, args.firmware_upgrade, args.clean_flash, args.selective) > 1 {
            Some(Err(mode_conflict_message()))
        } else {
            Some(Ok(Action::Scatter { scatter: path, mode: mode_of(args.firmware_upgrade, args.clean_flash, args.selective), slot: args.slot, include_preloader: args.include_preloader }))
        },
    }
}

/// The actions the top-level flags ask for, in the order they run: force
/// fastboot, set the active slot, read one variable, read all, flash from a
/// scatter file, reboot, reboot into the bootloader.
pub open spec fn flag_actions(args: Args) -> Result<Seq<Action>, Seq<char>> {
    let s1 = if args.force_fastboot { seq![Action::ForceFastboot] } else { seq![] };
    let s2 = match args.set_active { Some(sl) => s1.push(Action::SetActive(sl)), None => s1 };
    let s3 = match args.getvar { Some(v) => s2.push(Action::GetVar(v)), None => s2 };
    let s4 = if args.getvar_all { s3.push(Action::GetVarAll) } else { s3 };
    match scatter_flag_action(args) {
        Some(Err(m)) => Err(m),
        sc => {
            let s5 = match sc { Some(Ok(a)) => s4.push(a), _ => s4 };
            let s6 = if args.reboot { s5.push(Action::Reboot) } else { s5 };
            let s7 = if args.reboot_bootloader { s6.push(Action::RebootBootloader) } else { s6 };
            Ok(s7)
        },
    }
}

fn push_action(v: &mut Vec<Action>, a: Action, Ghost(e): Ghost<Seq<Action>>, Ghost(x): Ghost<Action>) -> (e2: Ghost<Seq<Action>>)
    requires
        old(v)@.len() == e.len(),
        forall|i: int| 0 <= i < e.len() ==> action_same(#[trigger] e[i], old(v)@[i]),
        action_same(x, a),
    ensures
        e2@ == e.push(x),
        final(v)@.len() == e2@.len(),
        forall|i: int| 0 <= i < e2@.len() ==> action_same(#[trigger] e2@[i], final(v)@[i]),
{
    v.push(a);
    let ghost e2 = e.push(x);
    assert forall|i: int| 0 <= i < e2.len() implies action_same(#[trigger] e2[i], v@[i]) by {
        if i < e.len() {
            assert(e2[i] == e[i]);
        }
    }
    Ghost(e2)
}

/// The actions of the top-level flags.
#[verifier::rlimit(40)]
fn flag_actions_exec(args: &Args) -> (r: Result<Vec<Action>, String>)
    ensures
        match flag_actions(*args) {
            Ok(s) => r matches Ok(v) && v@.len() == s.len() && forall|i: int| 0 <= i < s.len() ==> action_same(#[trigger] s[i], v@[i]),
            Err(m) => r matches Err(e) && e@ == m,
        },
{
    let scatter_action = match &args.flash {
        None => None,
        Some(path) => {
            let mode = flash_mode_from_flags(args.dry_run, args.firmware_upgrade, args.clean_flash, args.selective)?;
            Some(Action::Scatter { scatter: path.clone(), mode, slot: args.slot, include_preloader: args.include_preloader })
        },
    };
    let ghost expected = flag_actions(*args)->Ok_0;
    let mut v: Vec<Action> = Vec::new();
    let ghost e0: Seq<Action> = seq![];
    let e1 = if args.force_fastboot {
        push_action(&mut v, Action::ForceFastboot, Ghost(e0), Ghost(Action::ForceFastboot))
    } else {
        Ghost(e0)
    };
    let e2 = if let Some(slot) = args.set_active {
        push_action(&mut v, Action::SetActive(slot), e1, Ghost(Action::SetActive(slot)))
    } else {
        e1
    };
    let e3 = if let Some(var) = &args.getvar {
        push_action(&mut v, Action::GetVar(var.clone()), e2, Ghost(Action::GetVar(*var)))
    } else {
        e2
    };
    let e4 = if args.getvar_all {
        push_action(&mut v, Action::GetVarAll, e3, Ghost(Action::GetVarAll))
    } else {
        e3
    };
    let ghost sc = Action::Scatter { scatter: args.flash->Some_0, mode: mode_of(args.firmware_upgrade, args.clean_flash, args.selective), slot: args.slot, include_preloader: args.include_preloader };
    let e5 = if let Some(a) = scatter_action {
        push_action(&mut v, a, e4, Ghost(sc))
    } else {
        e4
    };
    let e6 = if args.reboot {
        push_action(&mut v, Action::Reboot, e5, Ghost(Action::Reboot))
    } else {
        e5
    };
    let e7 = if args.reboot_bootloader {
        push_action(&mut v, Action::RebootBootloader, e6, Ghost(Action::RebootBootloader))
    } else {
        e6
    };
    proof {
        assert(e7@ =~= expected);
    }
    Ok(v)
}

/// The actions a command line asks for: its subcommand's one action, or
/// those of its top-level flags.
pub fn collect_actions(args: &Args) -> (r: Result<Vec<Action>, String>)
    ensures
        match args.command {
            Some(c) => match command_action_spec(args.dry_run, c) {
                Ok(a) => r matches Ok(v) && v@.len() == 1 && action_same(a, v@[0]),
                Err(m) => r matches Err(e) && e@ == m,
            },
            None => match flag_actions(*args) {
                Ok(s) => r matches Ok(v) && v@.len() == s.len() && forall|i: int| 0 <= i < s.len() ==> action_same(#[trigger] s[i], v@[i]),
                Err(m) => r matches Err(e) && e@ == m,
            },
        },
{
    if let Some(command) = &args.command {
        let a = command_action(args, command)?;
        let mut v: Vec<Action> = Vec::new();
        v.push(a);
        return Ok(v);
    }
    flag_actions_exec(args)
}

/// The slot `--set-active` sets: only `a` or `b`.
pub fn active_slot_value(slot: SlotArg) -> (r: Result<String, String>)
    ensures
        slot == SlotArg::A ==> (r matches Ok(s) && s@ == "a"@),
        slot == SlotArg::B ==> (r matches Ok(s) && s@ == "b"@),
        slot != SlotArg::A && slot != SlotArg::B ==> (r matches Err(m) && m@
            == "--set-active only accepts a or b"@),
{
    match slot {
        SlotArg::A => Ok(owned("a")),
        SlotArg::B => Ok(owned("b")),
        _ => Err(owned("--set-active only accepts a or b")),
    }
}

} // verus!
