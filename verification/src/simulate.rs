//! Dry runs of plan actions for the front ends: the progress events that
//! simulating one action produces, in order, and what it adds to the run's
//! summary. Emitting the events and pacing them is the caller's part.

use vstd::prelude::*;
use crate::gsi::sat_add;
use crate::plan::{action_bytes, PlanAction};
use crate::progress::{dry_run_step_size, dry_run_steps, steps_total, DryRunStep};
use crate::text::{concat, owned, str_eq};
use crate::ui::{min_u64, update_overall_progress, FlashEvent, FlashSummaryDto};

verus! {

/// The speed, in MiB/s, at which the front ends simulate transfers.
pub const SIMULATED_SPEED_MIB: u64 = 1024;

/// The speed reported with each simulated increment, in bytes per second.
pub const SIMULATED_SPEED_BPS: u64 = 1073741824;

/// The bytes a dry run pretends to move for an action: its size, at least
/// one byte.
pub open spec fn simulated_total(a: PlanAction) -> int {
    if action_bytes(a) < 1 { 1 } else { action_bytes(a) }
}

/// The bytes shown after `k` increments of `step` bytes towards `total`.
pub open spec fn shown_after(k: nat, step: int, total: int) -> int
    decreases k,
{
    if k == 0 {
        0
    } else {
        let c = shown_after((k - 1) as nat, step, total) + step;
        if c < total { c } else { total }
    }
}

/// The message of an action the front end cannot simulate.
pub open spec fn unsupported_action_message(action: Seq<char>) -> Seq<char> {
    "unsupported plan action: "@ + action
}

/// The events of increment `k` of a simulated action of `total` bytes:
/// at position `2k+1` the run's overall progress, at `2k+2` the action's
/// simulated progress.
pub open spec fn increment_pair_ok(
    events: Seq<FlashEvent>,
    k: int,
    partition: Seq<char>,
    verb: Seq<char>,
    total: int,
    step: int,
    completed_before: int,
    overall_total: int,
) -> bool {
    let shown = shown_after((k + 1) as nat, step, total);
    &&& events[1 + 2 * k] matches FlashEvent::Overall { bytes, total: t }
        && bytes == min_u64(sat_add(completed_before, shown), overall_total)
        && t == overall_total
    &&& events[2 + 2 * k] matches FlashEvent::Simulating { partition: p, action: v, bytes, total: t, speed_bps }
        && p@ == partition && v@ == verb && bytes == shown && t == total && speed_bps == SIMULATED_SPEED_BPS
}

/// Every one of the first `n` increments shows its two events.
pub open spec fn increment_events_ok(
    events: Seq<FlashEvent>,
    n: nat,
    partition: Seq<char>,
    verb: Seq<char>,
    total: int,
    step: int,
    completed_before: int,
    overall_total: int,
) -> bool {
    forall|k: int|
        0 <= k < n ==> #[trigger] increment_pair_ok(events, k, partition, verb, total, step, completed_before,
            overall_total)
}

proof fn lemma_steps_prefix(s: Seq<DryRunStep>, i: int, j: int)
    requires
        0 <= i <= j <= s.len(),
        forall|k: int| 0 <= k < s.len() ==> (#[trigger] s[k]).bytes >= 1,
    ensures
        steps_total(s.take(i)) + (j - i) <= steps_total(s.take(j)),
    decreases j - i,
{
    if i < j {
        lemma_steps_prefix(s, i, j - 1);
        assert(s.take(j).drop_last() =~= s.take(j - 1));
    }
}

proof fn lemma_increment(s: Seq<DryRunStep>, i: int, step: int, total: int)
    requires
        0 <= i < s.len(),
        steps_total(s) == total,
        forall|k: int| 0 <= k < s.len() ==> 1 <= (#[trigger] s[k]).bytes <= step,
        forall|k: int| 0 <= k < s.len() - 1 ==> (#[trigger] s[k]).bytes == step,
        steps_total(s.take(i)) == shown_after(i as nat, step, total),
    ensures
        steps_total(s.take(i + 1)) == steps_total(s.take(i)) + s[i].bytes,
        steps_total(s.take(i + 1)) == shown_after((i + 1) as nat, step, total),
        steps_total(s.take(i + 1)) <= total,
        i + 1 < s.len() ==> steps_total(s.take(i + 1)) < total,
{
    assert(s.take(i + 1).drop_last() =~= s.take(i));
    assert(s.take(s.len() as int) =~= s);
    lemma_steps_prefix(s, i + 1, s.len() as int);
    if i + 1 < s.len() {
        assert(s[i].bytes == step);
    }
}

/// The events of simulating one plan action after `completed_before` of the
/// run's `overall_total` bytes: for a flash, the image being prepared, one
/// overall and one simulated progress event per increment and the partition
/// done; for a wipe the same between an erase's start and end. The action
/// is counted in the summary, and the run's completed bytes come back.
/// Any other verb is refused with its message, and nothing is counted.
pub fn dry_run_action_events(
    action: &PlanAction,
    completed_before: u64,
    overall_total: u64,
    summary: &mut FlashSummaryDto,
) -> (r: Result<(Vec<FlashEvent>, u64), String>)
    requires
        action.action@ == "flash"@ ==> old(summary).flash_count < usize::MAX,
        action.action@ == "wipe"@ ==> old(summary).wipe_count < usize::MAX,
    ensures
        !(action.action@ == "flash"@ || action.action@ == "wipe"@) ==> {
            &&& r matches Err(m) && m@ == unsupported_action_message(action.action@)
            &&& *final(summary) == *old(summary)
        },
        action.action@ == "flash"@ ==> *final(summary) == (FlashSummaryDto {
            flash_count: (old(summary).flash_count + 1) as usize,
            ..*old(summary)
        }),
        action.action@ == "wipe"@ ==> *final(summary) == (FlashSummaryDto {
            wipe_count: (old(summary).wipe_count + 1) as usize,
            ..*old(summary)
        }),
        (action.action@ == "flash"@ || action.action@ == "wipe"@) ==> (r matches Ok((events, after)) && {
            let total = simulated_total(*action);
            let step = dry_run_step_size(total as u64, SIMULATED_SPEED_MIB);
            let n = ((events@.len() - 2) / 2) as nat;
            let p = action.partition@;
            &&& events@.len() >= 4
            &&& events@.len() % 2 == 0
            &&& shown_after(n, step, total) == total
            &&& shown_after((n - 1) as nat, step, total) < total
            &&& increment_events_ok(events@, n, p, action.action@, total, step,
                completed_before as int, overall_total as int)
            &&& action.action@ == "flash"@ ==> (events@[0] matches FlashEvent::PreparingImage { partition } && partition@ == p)
            &&& action.action@ == "flash"@ ==> (events@.last() matches FlashEvent::PartitionComplete { partition } && partition@ == p)
            &&& action.action@ == "wipe"@ ==> (events@[0] matches FlashEvent::Erasing { partition } && partition@ == p)
            &&& action.action@ == "wipe"@ ==> (events@.last() matches FlashEvent::EraseComplete { partition } && partition@ == p)
            &&& after == sat_add(completed_before as int, total)
        }),
{
    let is_flash = str_eq(action.action.as_str(), "flash");
    let is_wipe = str_eq(action.action.as_str(), "wipe");
    if !is_flash && !is_wipe {
        return Err(concat("unsupported plan action: ", action.action.as_str()));
    }
    let total: u64 = if action.size < 1 { 1 } else { action.size as u64 };
    let verb = if is_flash { "flash" } else { "wipe" };
    proof {
        reveal_strlit("flash");
        reveal_strlit("wipe");
    }
    let mut events: Vec<FlashEvent> = Vec::new();
    if is_flash {
        events.push(FlashEvent::PreparingImage { partition: owned(action.partition.as_str()) });
    } else {
        events.push(FlashEvent::Erasing { partition: owned(action.partition.as_str()) });
    }
    let steps = dry_run_steps(total, SIMULATED_SPEED_MIB);
    let ghost step = dry_run_step_size(total, SIMULATED_SPEED_MIB);
    let ghost p = action.partition@;
    let mut completed: u64 = 0;
    let mut i: usize = 0;
    while i < steps.len()
        invariant
            0 <= i <= steps@.len(),
            steps@.len() > 0,
            total >= 1,
            total as int == simulated_total(*action),
            step == dry_run_step_size(total, SIMULATED_SPEED_MIB),
            steps_total(steps@) == total,
            forall|k: int| 0 <= k < steps@.len() ==> 1 <= (#[trigger] steps@[k]).bytes <= step,
            forall|k: int| 0 <= k < steps@.len() - 1 ==> (#[trigger] steps@[k]).bytes == step,
            completed == steps_total(steps@.take(i as int)),
            completed == shown_after(i as nat, step, total as int),
            i < steps@.len() ==> completed < total,
            i > 0 ==> shown_after((i - 1) as nat, step, total as int) < total,
            events@.len() == 1 + 2 * i,
            verb@ == action.action@,
            p == action.partition@,
            is_flash ==> (events@[0] matches FlashEvent::PreparingImage { partition } && partition@ == p),
            !is_flash ==> (events@[0] matches FlashEvent::Erasing { partition } && partition@ == p),
            increment_events_ok(events@, i as nat, p, verb@, total as int, step,
                completed_before as int, overall_total as int),
        decreases steps@.len() - i,
    {
        let bytes = steps[i].bytes;
        proof {
            lemma_increment(steps@, i as int, step, total as int);
        }
        completed = completed + bytes;
        let (overall_bytes, overall) = update_overall_progress(completed_before, completed, overall_total);
        let ghost before = events@;
        events.push(FlashEvent::Overall { bytes: overall_bytes, total: overall });
        events.push(FlashEvent::Simulating {
            partition: owned(action.partition.as_str()),
            action: owned(verb),
            bytes: completed,
            total,
            speed_bps: SIMULATED_SPEED_BPS,
        });
        proof {
            assert(increment_pair_ok(events@, i as int, p, verb@, total as int, step,
                completed_before as int, overall_total as int));
            assert forall|k: int| 0 <= k < i + 1 implies #[trigger] increment_pair_ok(events@, k, p, verb@,
                total as int, step, completed_before as int, overall_total as int) by {
                if k < i {
                    assert(increment_pair_ok(before, k, p, verb@, total as int, step,
                        completed_before as int, overall_total as int));
                    assert(events@[1 + 2 * k] == before[1 + 2 * k]);
                    assert(events@[2 + 2 * k] == before[2 + 2 * k]);
                }
            }
        }
        i = i + 1;
    }
    assert(steps@.take(steps@.len() as int) =~= steps@);
    assert(events@.len() == 1 + 2 * steps@.len());
    let ghost mid = events@;
    if is_flash {
        events.push(FlashEvent::PartitionComplete { partition: owned(action.partition.as_str()) });
        summary.flash_count = summary.flash_count + 1;
    } else {
        events.push(FlashEvent::EraseComplete { partition: owned(action.partition.as_str()) });
        summary.wipe_count = summary.wipe_count + 1;
    }
    let after = match completed_before.checked_add(total) {
        Some(v) => v,
        None => u64::MAX,
    };
    proof {
        assert((events@.len() - 2) / 2 == steps@.len());
        reveal_strlit("flash");
        reveal_strlit("wipe");
        assert("wipe"@[0] != "flash"@[0]);
        assert forall|k: int| 0 <= k < steps@.len() implies #[trigger] increment_pair_ok(events@, k, p, verb@,
            total as int, step, completed_before as int, overall_total as int) by {
            assert(increment_pair_ok(mid, k, p, verb@, total as int, step, completed_before as int,
                overall_total as int));
            assert(events@[1 + 2 * k] == mid[1 + 2 * k]);
            assert(events@[2 + 2 * k] == mid[2 + 2 * k]);
        }
    }
    Ok((events, after))
}

} // verus!
