//! Layout of the terminal progress rows: how wide a row's bar may be, what
//! prefix it shows, the templates the rows are drawn with, and where action
//! rows go.

use vstd::prelude::*;
use crate::manual::ManualFlashAction;
use crate::progress::{
    action_label_text, action_summary, capped, fit_width, flash_history_message, flash_history_min_width,
    history_min_width_of, history_text, human_bytes_text, max_width, max_visible_width,
    skipped_flash_history_message, skipped_flash_history_min_width, summary_of, width_of, ActionSummary,
};
use crate::text::{concat, format_u64, dec_str, owned, repeat_char, repeat_seq};

verus! {

/// The terminal the rows are laid out in.
#[derive(Clone, Copy, Debug, PartialEq, Eq, Structural)]
pub struct ProgressLayout {
    /// Columns of the terminal.
    pub terminal_width: usize,
}

/// The spinner's widest frame, used to measure a row.
pub const SPINNER_SAMPLE: &'static str = "▹▹▹▹▹";
/// Columns that the empty bar `[]` of a measured row stands for.
pub const BAR_PLACEHOLDER_WIDTH: usize = 2;
/// The narrowest bar.
pub const BAR_MIN_WIDTH: usize = 10;
/// The widest bar.
pub const BAR_MAX_WIDTH: usize = 28;
/// The label of the total row.
pub const TOTAL_LABEL: &'static str = "TOTAL";

/// `desired` columns, no more than `available` unless `available` is below
/// `min`, in which case no more than `min`.
pub open spec fn fit_width_of(desired: nat, min: nat, available: nat) -> nat {
    if available < min {
        if desired < min { desired } else { min }
    } else if desired < available {
        desired
    } else {
        available
    }
}

/// `a - b`, or 0 where `b` is larger.
pub open spec fn sat_sub(a: nat, b: nat) -> nat {
    if a > b { (a - b) as nat } else { 0 }
}

/// The bar width of a row whose text without the bar is `sample`: the
/// columns the terminal leaves, between the narrowest and widest bar.
pub open spec fn row_bar_width_of(terminal_width: nat, sample: Seq<char>) -> nat {
    fit_width_of(sat_sub(terminal_width, sat_sub(width_of(sample), 2)), 10, 28)
}

/// The bar width of a row whose text without the bar is `sample_without_bar`.
pub fn row_bar_width(layout: &ProgressLayout, sample_without_bar: &str) -> (w: usize)
    ensures
        w == row_bar_width_of(layout.terminal_width as nat, sample_without_bar@),
{
    let used = sample_without_bar.unicode_len().saturating_sub(BAR_PLACEHOLDER_WIDTH);
    let available = layout.terminal_width.saturating_sub(used);
    fit_width(available, BAR_MIN_WIDTH, BAR_MAX_WIDTH)
}

/// The prefix of a bar row: its label as it is.
pub fn centered_row_prefix(layout: &ProgressLayout, label: &str, sample_without_bar: &str, bar_width: usize) -> (s: String)
    ensures
        s@ == label@,
{
    owned(label)
}

/// The prefix of a spinner row: its label as it is.
pub fn spinner_row_prefix(layout: &ProgressLayout, prefix_label: &str, sample_label: &str, message_width: usize) -> (s: String)
    ensures
        s@ == prefix_label@,
{
    owned(prefix_label)
}

fn three(a: &str, b: &str, c: &str) -> (r: String)
    ensures
        r@ == a@ + b@ + c@,
{
    let ab = concat(a, b);
    concat(ab.as_str(), c)
}

fn five(a: &str, b: &str, c: &str, d: &str, e: &str) -> (r: String)
    ensures
        r@ == a@ + b@ + c@ + d@ + e@,
{
    let abc = three(a, b, c);
    three(abc.as_str(), d, e)
}

/// The template of the total row while it runs: bar, byte pair and the time
/// left.
pub fn active_total_template(bar_width: usize) -> (s: String)
    ensures
        s@ == "{prefix} {spinner:.green} [{bar:"@ + dec_str(bar_width as nat) + ".blue/black}] {byte_pair} eta {eta_mmss}"@,
{
    let w = format_u64(bar_width as u64);
    three("{prefix} {spinner:.green} [{bar:", w.as_str(), ".blue/black}] {byte_pair} eta {eta_mmss}")
}

/// The template of the total row once done: bar and byte pair.
pub fn completed_total_template(bar_width: usize) -> (s: String)
    ensures
        s@ == "{prefix} {spinner:.green} [{bar:"@ + dec_str(bar_width as nat) + ".green/green}] {byte_pair}"@,
{
    let w = format_u64(bar_width as u64);
    three("{prefix} {spinner:.green} [{bar:", w.as_str(), ".green/green}] {byte_pair}")
}

/// The template of a row that moves bytes: bar, byte pair and a message of
/// `message_width` columns.
pub fn active_byte_template(bar_width: usize, message_width: usize) -> (s: String)
    ensures
        s@ == "{prefix} {spinner:.green} [{bar:"@ + dec_str(bar_width as nat) + ".cyan/blue}] {byte_pair} {msg:<"@
            + dec_str(message_width as nat) + "}"@,
{
    let w = format_u64(bar_width as u64);
    let m = format_u64(message_width as u64);
    five("{prefix} {spinner:.green} [{bar:", w.as_str(), ".cyan/blue}] {byte_pair} {msg:<", m.as_str(), "}")
}

/// The template of a flash row; the same as a row that moves bytes.
pub fn active_flash_template(bar_width: usize, message_width: usize) -> (s: String)
    ensures
        s@ == "{prefix} {spinner:.green} [{bar:"@ + dec_str(bar_width as nat) + ".cyan/blue}] {byte_pair} {msg:<"@
            + dec_str(message_width as nat) + "}"@,
{
    active_byte_template(bar_width, message_width)
}

/// The template of a finished row: its message alone.
pub fn history_row_template(message_width: usize) -> (s: String)
    ensures
        s@ == "{msg:<"@ + dec_str(message_width as nat) + "}"@,
{
    let m = format_u64(message_width as u64);
    three("{msg:<", m.as_str(), "}")
}

/// The template of a spinner row: prefix, spinner and message.
pub fn spinner_row_template(message_width: usize) -> (s: String)
    ensures
        s@ == "{prefix} {spinner:.green} {msg:<"@ + dec_str(message_width as nat) + "}"@,
{
    let m = format_u64(message_width as u64);
    three("{prefix} {spinner:.green} {msg:<", m.as_str(), "}")
}

/// The text of a flash row without its bar.
pub open spec fn flash_row_sample(sample_label: Seq<char>, message_width: nat, byte_pair: Seq<char>) -> Seq<char> {
    sample_label + " "@ + SPINNER_SAMPLE@ + " [] "@ + byte_pair + " "@
        + repeat_seq('x', if message_width > 1 { message_width } else { 1 })
}

/// The prefix and bar width of a flash row, measured with its message at
/// `message_width` columns (at least one).
pub fn flash_row_prefix_and_bar(
    layout: &ProgressLayout,
    prefix_label: &str,
    sample_label: &str,
    message_width: usize,
    byte_pair: &str,
) -> (r: (String, usize))
    ensures
        r.0@ == prefix_label@,
        r.1 == row_bar_width_of(layout.terminal_width as nat, flash_row_sample(sample_label@, message_width as nat, byte_pair@)),
{
    let fill = repeat_char('x', if message_width > 1 { message_width } else { 1 });
    let head = five(sample_label, " ", SPINNER_SAMPLE, " [] ", byte_pair);
    let sample = three(head.as_str(), " ", fill.as_str());
    let bar_width = row_bar_width(layout, sample.as_str());
    let prefix = centered_row_prefix(layout, prefix_label, sample.as_str(), bar_width);
    (prefix, bar_width)
}

/// The text of the total row without its bar; a running row keeps room for
/// the time left.
pub open spec fn total_row_sample(prefix_label: Seq<char>, byte_pair: Seq<char>, completed: bool) -> Seq<char> {
    let head = prefix_label + " "@ + SPINNER_SAMPLE@ + " [] "@ + byte_pair;
    if completed { head } else { head + " eta 00:00"@ }
}

/// The prefix and bar width of the total row.
pub fn total_row_prefix_and_bar(layout: &ProgressLayout, prefix_label: &str, byte_pair: &str, completed: bool) -> (r: (String, usize))
    ensures
        r.0@ == prefix_label@,
        r.1 == row_bar_width_of(layout.terminal_width as nat, total_row_sample(prefix_label@, byte_pair@, completed)),
{
    let head = five(prefix_label, " ", SPINNER_SAMPLE, " [] ", byte_pair);
    let sample = if completed {
        head
    } else {
        concat(head.as_str(), " eta 00:00")
    };
    let bar_width = row_bar_width(layout, sample.as_str());
    let prefix = centered_row_prefix(layout, prefix_label, sample.as_str(), bar_width);
    (prefix, bar_width)
}

/// Where a new action row goes among the progress rows.
#[derive(Clone, Copy, Debug, PartialEq, Eq, Structural)]
pub enum ActionRowPlacement {
    /// Above the total row.
    BeforeTotal,
}

/// Action rows go above the total row.
pub fn action_row_placement() -> (p: ActionRowPlacement)
    ensures
        p == ActionRowPlacement::BeforeTotal,
{
    ActionRowPlacement::BeforeTotal
}

/// The `(action, size)` pairs of manual flashes: each a flash of its size.
pub open spec fn manual_pairs(actions: Seq<ManualFlashAction>) -> Seq<(&'static str, u64)> {
    Seq::new(actions.len(), |i: int| ("flash", actions[i].size))
}

/// The summary of manual flashes: each counts as a flash of its size.
pub fn manual_action_summary(actions: &[ManualFlashAction]) -> (s: ActionSummary)
    ensures
        s == summary_of(manual_pairs(actions@)),
{
    let mut pairs: Vec<(&str, u64)> = Vec::new();
    let mut i: usize = 0;
    while i < actions.len()
        invariant
            0 <= i <= actions@.len(),
            pairs@ =~= manual_pairs(actions@.take(i as int)),
        decreases actions@.len() - i,
    {
        pairs.push(("flash", actions[i].size));
        i = i + 1;
    }
    assert(actions@.take(i as int) =~= actions@);
    action_summary(pairs.as_slice())
}

/// The widest of the texts, 0 for none.
pub open spec fn max_text_width(t: Seq<Seq<char>>) -> nat
    decreases t.len(),
{
    if t.len() == 0 {
        0
    } else {
        let rest = max_text_width(t.drop_last());
        let w = width_of(t.last());
        if w > rest { w } else { rest }
    }
}

/// The widest of texts given by reference is the widest of the texts.
pub proof fn lemma_max_width_views(refs: Seq<&str>, t: Seq<Seq<char>>)
    requires
        refs.len() == t.len(),
        forall|j: int| 0 <= j < refs.len() ==> (#[trigger] refs[j])@ == t[j],
    ensures
        max_width(refs) == max_text_width(t),
    decreases refs.len(),
{
    if refs.len() > 0 {
        lemma_max_width_views(refs.drop_last(), t.drop_last());
    }
}

/// The texts a manual flash's row may show, for a row among `count`: the
/// action, its history line and its skipped history line, each line at its
/// least width.
pub open spec fn manual_item_texts(count: nat, partition: Seq<char>, size: u64) -> Seq<Seq<char>> {
    let label = action_label_text(0, count);
    seq![
        "flash "@ + partition,
        history_text(0, count, "flash"@, partition, size,
            capped(history_min_width_of(label + seq![' '] + partition, human_bytes_text(size))) as nat),
        history_text(0, count, "skipped flash"@, partition, size,
            capped(history_min_width_of(label + " skipped flash "@ + partition, human_bytes_text(size))) as nat),
    ]
}

/// The row texts of the first `actions.len()` of `count` manual flashes.
pub open spec fn manual_row_texts(actions: Seq<ManualFlashAction>, count: nat) -> Seq<Seq<char>>
    decreases actions.len(),
{
    if actions.len() == 0 {
        seq![]
    } else {
        manual_row_texts(actions.drop_last(), count) + manual_item_texts(count, actions.last().partition@, actions.last().size)
    }
}

/// The widest message among the rows of manual flashes, each measured as
/// the first of `actions.len()` rows.
pub fn manual_item_message_width(actions: &[ManualFlashAction]) -> (w: usize)
    ensures
        w == max_text_width(manual_row_texts(actions@, actions@.len())),
{
    let count = actions.len();
    let mut texts: Vec<String> = Vec::new();
    let mut i: usize = 0;
    while i < actions.len()
        invariant
            0 <= i <= actions@.len(),
            count == actions@.len(),
            texts@.map_values(|t: String| t@) == manual_row_texts(actions@.take(i as int), count as nat),
        decreases actions@.len() - i,
    {
        let a = &actions[i];
        let p = a.partition.as_str();
        let ghost before = texts@.map_values(|t: String| t@);
        let t0 = concat("flash ", p);
        let w1 = flash_history_min_width(0, count, p, a.size);
        let t1 = flash_history_message(0, count, p, a.size, w1);
        let w2 = skipped_flash_history_min_width(0, count, p, a.size);
        let t2 = skipped_flash_history_message(0, count, p, a.size, w2);
        proof {
            reveal_strlit("flash ");
        }
        texts.push(t0);
        texts.push(t1);
        texts.push(t2);
        proof {
            assert(actions@.take(i + 1).drop_last() =~= actions@.take(i as int));
            assert(actions@.take(i + 1).last() == actions@[i as int]);
            assert(texts@.map_values(|t: String| t@) =~= before + manual_item_texts(count as nat, a.partition@, a.size));
        }
        i = i + 1;
    }
    assert(actions@.take(i as int) =~= actions@);
    let mut refs: Vec<&str> = Vec::new();
    let mut k: usize = 0;
    while k < texts.len()
        invariant
            0 <= k <= texts@.len(),
            refs@.len() == k,
            forall|j: int| 0 <= j < k ==> (#[trigger] refs@[j])@ == texts@[j]@,
        decreases texts@.len() - k,
    {
        refs.push(texts[k].as_str());
        k = k + 1;
    }
    let w = max_visible_width(refs.as_slice());
    proof {
        let tv = texts@.map_values(|t: String| t@);
        assert forall|j: int| 0 <= j < refs@.len() implies (#[trigger] refs@[j])@ == tv[j] by {}
        lemma_max_width_views(refs@, tv);
    }
    w
}

} // verus!
