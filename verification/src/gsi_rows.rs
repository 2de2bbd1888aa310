//! The progress rows of a GSI flash on the command line: one row per
//! partition being flashed, above a total row. The rows are a small state
//! machine; each call says, as row commands, what the terminal should show.

use vstd::prelude::*;
use crate::gsi::sat_add;
use crate::progress::{human_bytes, human_bytes_text};
use crate::text::{concat, owned, str_eq};

verus! {

/// What the terminal does with the progress rows.
#[derive(Clone, Debug, PartialEq, Eq)]
pub enum RowCommand {
    /// Give the total row a new length.
    ExtendTotal {
        /// The total row's length.
        length: u64,
    },
    /// Open a partition's row above the total row.
    OpenRow {
        /// The row's length in bytes.
        length: u64,
        /// Its message.
        message: String,
    },
    /// Advance the open row and the total row.
    Advance {
        /// Bytes.
        delta: u64,
    },
    /// Advance the total row alone.
    AdvanceTotal {
        /// Bytes.
        delta: u64,
    },
    /// Change the open row's message.
    SetMessage {
        /// The message.
        message: String,
    },
    /// Close the open row with its history line.
    CloseRow {
        /// The history line.
        message: String,
    },
}

/// A row command as a value.
pub enum RowCommandView {
    /// See [`RowCommand::ExtendTotal`].
    ExtendTotal { length: u64 },
    /// See [`RowCommand::OpenRow`].
    OpenRow { length: u64, message: Seq<char> },
    /// See [`RowCommand::Advance`].
    Advance { delta: u64 },
    /// See [`RowCommand::AdvanceTotal`].
    AdvanceTotal { delta: u64 },
    /// See [`RowCommand::SetMessage`].
    SetMessage { message: Seq<char> },
    /// See [`RowCommand::CloseRow`].
    CloseRow { message: Seq<char> },
}

impl View for RowCommand {
    type V = RowCommandView;

    open spec fn view(&self) -> RowCommandView {
        match self {
            RowCommand::ExtendTotal { length } => RowCommandView::ExtendTotal { length: *length },
            RowCommand::OpenRow { length, message } => RowCommandView::OpenRow { length: *length, message: message@ },
            RowCommand::Advance { delta } => RowCommandView::Advance { delta: *delta },
            RowCommand::AdvanceTotal { delta } => RowCommandView::AdvanceTotal { delta: *delta },
            RowCommand::SetMessage { message } => RowCommandView::SetMessage { message: message@ },
            RowCommand::CloseRow { message } => RowCommandView::CloseRow { message: message@ },
        }
    }
}

/// The views of commands.
pub open spec fn commands_view(v: Seq<RowCommand>) -> Seq<RowCommandView> {
    v.map_values(|c: RowCommand| c@)
}

/// The open row of a partition.
#[derive(Clone, Debug, PartialEq, Eq)]
pub struct FlashRow {
    /// The partition.
    pub partition: String,
    /// Bytes shown.
    pub position: u64,
    /// The row's length.
    pub length: u64,
}

/// The open row as a value.
pub struct FlashRowView {
    /// The partition.
    pub partition: Seq<char>,
    /// Bytes shown.
    pub position: u64,
    /// The row's length.
    pub length: u64,
}

/// The rows of a GSI flash: the total row's length and the open row.
#[derive(Clone, Debug, PartialEq, Eq)]
pub struct GsiCliProgress {
    /// The total row's length.
    pub overall_total: u64,
    /// The open partition row, where there is one.
    pub current: Option<FlashRow>,
}

/// The rows as a value.
pub struct GsiCliProgressView {
    /// The total row's length.
    pub overall_total: u64,
    /// The open partition row.
    pub current: Option<FlashRowView>,
}

impl View for GsiCliProgress {
    type V = GsiCliProgressView;

    open spec fn view(&self) -> GsiCliProgressView {
        GsiCliProgressView {
            overall_total: self.overall_total,
            current: match self.current {
                Some(r) => Some(FlashRowView { partition: r.partition@, position: r.position, length: r.length }),
                None => None,
            },
        }
    }
}

/// At least one.
pub open spec fn at_least_one(n: u64) -> u64 {
    if n < 1 { 1 } else { n }
}

/// Whether the open row is the partition's.
pub open spec fn is_open_for(s: GsiCliProgressView, partition: Seq<char>) -> bool {
    s.current matches Some(r) && r.partition == partition
}

/// `flash <partition> <size>`: the history line of a flashed partition.
pub open spec fn flashed_line(partition: Seq<char>, size: u64) -> Seq<char> {
    "flash "@ + partition + " "@ + human_bytes_text(size)
}

/// `flash <partition> (<size>)`: the message of a row opened by progress.
pub open spec fn implicit_row_message(partition: Seq<char>, size: u64) -> Seq<char> {
    "flash "@ + partition + " ("@ + human_bytes_text(size) + ")"@
}

/// `flash <partition> @ <speed>/s`.
pub open spec fn speed_message(partition: Seq<char>, speed_bps: u64) -> Seq<char> {
    "flash "@ + partition + " @ "@ + human_bytes_text(speed_bps) + "/s"@
}

/// `flash <partition> <- <image> (<size>)`: the message of a row opened
/// when a flash starts.
pub open spec fn flashing_text(partition: Seq<char>, image: Seq<char>, size: u64) -> Seq<char> {
    "flash "@ + partition + " <- "@ + image + " ("@ + human_bytes_text(size) + ")"@
}

/// Closing the open row: advanced to its length where it is short of it,
/// and ended with the history line of its partition at `size`.
pub open spec fn spec_close_row(s: GsiCliProgressView, size: u64) -> (GsiCliProgressView, Seq<RowCommandView>) {
    match s.current {
        None => (s, seq![]),
        Some(r) => {
            let advance = if r.length > r.position {
                seq![RowCommandView::Advance { delta: (r.length - r.position) as u64 }]
            } else {
                seq![]
            };
            (
                GsiCliProgressView { current: None, ..s },
                advance + seq![RowCommandView::CloseRow { message: flashed_line(r.partition, size) }],
            )
        },
    }
}

/// Starting a partition's flash: another partition's open row is closed
/// first (at this flash's size); the partition's own open row stays as it
/// is; else the total grows by the flash's size and a row opens.
pub open spec fn spec_start_flash(
    s: GsiCliProgressView,
    partition: Seq<char>,
    message: Seq<char>,
    total_bytes: u64,
) -> (GsiCliProgressView, Seq<RowCommandView>) {
    let (s1, c1) = if s.current is Some && !is_open_for(s, partition) {
        spec_close_row(s, total_bytes)
    } else {
        (s, seq![])
    };
    if is_open_for(s1, partition) {
        (s1, c1)
    } else {
        let length = at_least_one(total_bytes);
        let total = sat_add(s1.overall_total as int, length as int) as u64;
        (
            GsiCliProgressView {
                overall_total: total,
                current: Some(FlashRowView { partition, position: 0, length }),
            },
            c1 + seq![
                RowCommandView::ExtendTotal { length: at_least_one(total) },
                RowCommandView::OpenRow { length, message },
            ],
        )
    }
}

/// Progress of a partition's flash: its row opened where it is not, then
/// moved forward (never back) to `bytes`, with the speed shown where known.
pub open spec fn spec_update_flash(
    s: GsiCliProgressView,
    partition: Seq<char>,
    bytes: u64,
    total_bytes: u64,
    speed_bps: u64,
) -> (GsiCliProgressView, Seq<RowCommandView>) {
    let (s1, c1) = if is_open_for(s, partition) {
        (s, seq![])
    } else {
        spec_start_flash(s, partition, implicit_row_message(partition, total_bytes), total_bytes)
    };
    let r = s1.current->0;
    let (r2, c2) = if bytes > r.position {
        (FlashRowView { position: bytes, ..r }, seq![RowCommandView::Advance { delta: (bytes - r.position) as u64 }])
    } else {
        (r, seq![])
    };
    let c3 = if speed_bps > 0 {
        seq![RowCommandView::SetMessage { message: speed_message(partition, speed_bps) }]
    } else {
        seq![]
    };
    (GsiCliProgressView { current: Some(r2), ..s1 }, c1 + c2 + c3)
}

/// The end of a partition's flash: its row opened where it is not, then
/// closed with its history line at `size_bytes`.
pub open spec fn spec_finish_flash(
    s: GsiCliProgressView,
    partition: Seq<char>,
    size_bytes: u64,
) -> (GsiCliProgressView, Seq<RowCommandView>) {
    let (s1, c1) = if is_open_for(s, partition) {
        (s, seq![])
    } else {
        spec_start_flash(s, partition, implicit_row_message(partition, size_bytes), size_bytes)
    };
    let (s2, c2) = spec_close_row(s1, size_bytes);
    (s2, c1 + c2)
}

impl GsiCliProgress {
    /// Rows for a flash of `total_bytes` bytes, none open yet.
    pub fn new(total_bytes: u64) -> (p: GsiCliProgress)
        ensures
            p@.overall_total == at_least_one(total_bytes),
            p@.current is None,
    {
        GsiCliProgress { overall_total: if total_bytes < 1 { 1 } else { total_bytes }, current: None }
    }

    fn is_open(&self, partition: &str) -> (b: bool)
        ensures
            b == is_open_for(self@, partition@),
    {
        match &self.current {
            Some(r) => str_eq(r.partition.as_str(), partition),
            None => false,
        }
    }

    fn close_row(&mut self, size: u64, out: &mut Vec<RowCommand>)
        ensures
            final(self)@ == spec_close_row(old(self)@, size).0,
            commands_view(final(out)@) == commands_view(old(out)@) + spec_close_row(old(self)@, size).1,
    {
        let ghost s = self@;
        let ghost before = commands_view(out@);
        match self.current.take() {
            None => {
                assert(commands_view(out@) =~= before + spec_close_row(s, size).1);
            },
            Some(r) => {
                if r.length > r.position {
                    out.push(RowCommand::Advance { delta: r.length - r.position });
                }
                let a = concat("flash ", r.partition.as_str());
                let b = concat(a.as_str(), " ");
                let h = human_bytes(size);
                let line = concat(b.as_str(), h.as_str());
                out.push(RowCommand::CloseRow { message: line });
                proof {
                    assert(self@.current is None);
                    assert(self@ == spec_close_row(s, size).0);
                    assert(commands_view(out@) =~= before + spec_close_row(s, size).1);
                }
            },
        }
    }

    fn start_into(&mut self, partition: &str, message: String, total_bytes: u64, out: &mut Vec<RowCommand>)
        ensures
            final(self)@ == spec_start_flash(old(self)@, partition@, message@, total_bytes).0,
            commands_view(final(out)@) == commands_view(old(out)@) + spec_start_flash(
                old(self)@,
                partition@,
                message@,
                total_bytes,
            ).1,
    {
        let ghost s = self@;
        let ghost before = commands_view(out@);
        if self.current.is_some() && !self.is_open(partition) {
            self.close_row(total_bytes, out);
        }
        let ghost s1 = self@;
        let ghost mid = commands_view(out@);
        if self.is_open(partition) {
            return;
        }
        let length: u64 = if total_bytes < 1 { 1 } else { total_bytes };
        let total = match self.overall_total.checked_add(length) {
            Some(v) => v,
            None => u64::MAX,
        };
        self.overall_total = total;
        out.push(RowCommand::ExtendTotal { length: if total < 1 { 1 } else { total } });
        out.push(RowCommand::OpenRow { length, message });
        self.current = Some(FlashRow { partition: owned(partition), position: 0, length });
        proof {
            assert(commands_view(out@) =~= mid + seq![
                RowCommandView::ExtendTotal { length: at_least_one(total) },
                RowCommandView::OpenRow { length, message: message@ },
            ]);
            assert(self@ == spec_start_flash(s, partition@, message@, total_bytes).0);
        }
    }

    /// Starts a partition's flash with the row message `message`.
    pub fn start_flash(&mut self, partition: &str, message: &str, total_bytes: u64) -> (out: Vec<RowCommand>)
        ensures
            final(self)@ == spec_start_flash(old(self)@, partition@, message@, total_bytes).0,
            commands_view(out@) == spec_start_flash(old(self)@, partition@, message@, total_bytes).1,
    {
        let mut out: Vec<RowCommand> = Vec::new();
        proof {
            assert(commands_view(out@) =~= Seq::<RowCommandView>::empty());
        }
        self.start_into(partition, owned(message), total_bytes, &mut out);
        proof {
            assert(commands_view(out@) =~= spec_start_flash(old(self)@, partition@, message@, total_bytes).1);
        }
        out
    }

    fn implicit_message(partition: &str, size: u64) -> (m: String)
        ensures
            m@ == implicit_row_message(partition@, size),
    {
        let a = concat("flash ", partition);
        let b = concat(a.as_str(), " (");
        let h = human_bytes(size);
        let c = concat(b.as_str(), h.as_str());
        concat(c.as_str(), ")")
    }

    /// Progress of a partition's flash: `bytes` of `total_bytes` sent, at
    /// `speed_bps` bytes per second where known.
    pub fn update_flash(&mut self, partition: &str, bytes: u64, total_bytes: u64, speed_bps: u64) -> (out: Vec<RowCommand>)
        ensures
            final(self)@ == spec_update_flash(old(self)@, partition@, bytes, total_bytes, speed_bps).0,
            commands_view(out@) == spec_update_flash(old(self)@, partition@, bytes, total_bytes, speed_bps).1,
    {
        let ghost s = self@;
        let mut out: Vec<RowCommand> = Vec::new();
        proof {
            assert(commands_view(out@) =~= Seq::<RowCommandView>::empty());
        }
        if !self.is_open(partition) {
            let m = Self::implicit_message(partition, total_bytes);
            self.start_into(partition, m, total_bytes, &mut out);
            proof {
                assert(commands_view(out@) =~= spec_start_flash(s, partition@, implicit_row_message(partition@,
                    total_bytes), total_bytes).1);
            }
        }
        let ghost s1 = self@;
        let ghost c1 = commands_view(out@);
        let mut row = match self.current.take() {
            Some(r) => r,
            None => FlashRow { partition: owned(partition), position: 0, length: 1 },
        };
        proof {
            assert(s1.current is Some);
        }
        if bytes > row.position {
            out.push(RowCommand::Advance { delta: bytes - row.position });
            row.position = bytes;
        }
        let ghost c2 = commands_view(out@);
        if speed_bps > 0 {
            let a = concat("flash ", partition);
            let b = concat(a.as_str(), " @ ");
            let h = human_bytes(speed_bps);
            let c = concat(b.as_str(), h.as_str());
            out.push(RowCommand::SetMessage { message: concat(c.as_str(), "/s") });
        }
        self.current = Some(row);
        proof {
            let spec = spec_update_flash(s, partition@, bytes, total_bytes, speed_bps);
            assert(self@ == spec.0);
            assert(commands_view(out@) =~= spec.1);
        }
        out
    }

    /// The end of a partition's flash of `size_bytes` bytes.
    pub fn finish_flash(&mut self, partition: &str, size_bytes: u64) -> (out: Vec<RowCommand>)
        ensures
            final(self)@ == spec_finish_flash(old(self)@, partition@, size_bytes).0,
            commands_view(out@) == spec_finish_flash(old(self)@, partition@, size_bytes).1,
    {
        let ghost s = self@;
        let mut out: Vec<RowCommand> = Vec::new();
        proof {
            assert(commands_view(out@) =~= Seq::<RowCommandView>::empty());
        }
        if !self.is_open(partition) {
            let m = Self::implicit_message(partition, size_bytes);
            self.start_into(partition, m, size_bytes, &mut out);
        }
        self.close_row(size_bytes, &mut out);
        proof {
            let spec = spec_finish_flash(s, partition@, size_bytes);
            assert(commands_view(out@) =~= spec.1);
        }
        out
    }

    /// Advances the total row alone, as an erase or a skip does by one byte.
    pub fn increment_overall(&self, bytes: u64) -> (c: RowCommand)
        ensures
            c@ == (RowCommandView::AdvanceTotal { delta: bytes }),
    {
        RowCommand::AdvanceTotal { delta: bytes }
    }
}

/// The message of a row opened when a partition's flash starts.
pub fn flashing_message(partition: &str, image: &str, size_bytes: u64) -> (m: String)
    ensures
        m@ == flashing_text(partition@, image@, size_bytes),
{
    let a = concat("flash ", partition);
    let b = concat(a.as_str(), " <- ");
    let c = concat(b.as_str(), image);
    let d = concat(c.as_str(), " (");
    let h = human_bytes(size_bytes);
    let e = concat(d.as_str(), h.as_str());
    concat(e.as_str(), ")")
}

/// Starting a partition's flash a second time changes nothing and shows
/// nothing: its row is already open.
pub proof fn lemma_start_flash_twice(
    s: GsiCliProgressView,
    partition: Seq<char>,
    message: Seq<char>,
    total_bytes: u64,
    again_message: Seq<char>,
    again_total: u64,
)
    ensures
        ({
            let first = spec_start_flash(s, partition, message, total_bytes).0;
            spec_start_flash(first, partition, again_message, again_total) == (first, Seq::<RowCommandView>::empty())
        }),
{
    let first = spec_start_flash(s, partition, message, total_bytes).0;
    assert(is_open_for(first, partition));
    assert(spec_start_flash(first, partition, again_message, again_total).1 =~= Seq::<RowCommandView>::empty());
}

/// After a partition's flash ends no row is open, and the last command
/// closes the partition's row with its history line.
pub proof fn lemma_finish_flash_closes(s: GsiCliProgressView, partition: Seq<char>, size_bytes: u64)
    ensures
        spec_finish_flash(s, partition, size_bytes).0.current is None,
        spec_finish_flash(s, partition, size_bytes).1.len() > 0,
        spec_finish_flash(s, partition, size_bytes).1.last() == (RowCommandView::CloseRow {
            message: flashed_line(partition, size_bytes),
        }),
{
}

/// A partition's row only moves forward: after progress it is open, at the
/// larger of where it was and the bytes reported.
pub proof fn lemma_update_flash_forward(
    s: GsiCliProgressView,
    partition: Seq<char>,
    bytes: u64,
    total_bytes: u64,
    speed_bps: u64,
)
    requires
        is_open_for(s, partition),
    ensures
        ({
            let after = spec_update_flash(s, partition, bytes, total_bytes, speed_bps).0;
            &&& is_open_for(after, partition)
            &&& after.current->0.position == (if bytes > s.current->0.position { bytes } else { s.current->0.position })
            &&& after.current->0.length == s.current->0.length
            &&& after.overall_total == s.overall_total
        }),
{
}

/// The total row never shrinks when a flash starts.
pub proof fn lemma_start_flash_total_grows(
    s: GsiCliProgressView,
    partition: Seq<char>,
    message: Seq<char>,
    total_bytes: u64,
)
    ensures
        spec_start_flash(s, partition, message, total_bytes).0.overall_total >= s.overall_total,
{
}

} // verus!
