use vstd::prelude::*;

use crate::session::{
    golds_updated, has_time, improved_gold, is_new_pb, segment, AppStateView, StoreRequestView,
};
use crate::split::{RunView, SplitView};
use crate::timer::TimerState;

verus! {

/// The state after the split command at each of `times` in turn.
pub open spec fn after_splits(s: AppStateView, times: Seq<i64>) -> AppStateView
    decreases times.len(),
{
    if times.len() == 0 {
        s
    } else {
        after_splits(s.after_split(times[0]).0, times.drop_first())
    }
}

/// Whether the clock times never go backwards.
pub open spec fn nondecreasing(times: Seq<i64>) -> bool {
    forall|i: int, j: int| 0 <= i <= j < times.len() ==> times[i] <= times[j]
}

/// A paused attempt ignores the split command.
proof fn lemma_paused_ignores_splits(s: AppStateView, times: Seq<i64>)
    requires
        s.timer.state == TimerState::Paused,
    ensures
        after_splits(s, times) == s,
    decreases times.len(),
{
    if times.len() > 0 {
        lemma_paused_ignores_splits(s, times.drop_first());
    }
}

/// While running from `start` with nothing accumulated, each split at a clock
/// time not before `start` records the next split, until the last one pauses
/// the attempt.
proof fn lemma_running_splits(s: AppStateView, times: Seq<i64>, start: i64)
    requires
        s.wf(),
        s.timer.state == TimerState::Running,
        s.timer.start_time == Some(start),
        s.timer.elapsed == 0,
        s.display.len() == s.run.splits.len(),
        s.run.splits.len() <= usize::MAX,
        s.current_split < s.run.splits.len(),
        forall|k: int| 0 <= k < times.len() ==> start <= #[trigger] times[k],
    ensures
        after_splits(s, times).current_split == if s.current_split + times.len()
            < s.run.splits.len() {
            s.current_split + times.len()
        } else {
            s.run.splits.len() as int
        },
        s.current_split + times.len() >= s.run.splits.len() ==> after_splits(s, times).timer.state
            == TimerState::Paused,
    decreases times.len(),
{
    if times.len() > 0 {
        let t = times[0];
        assert(start <= times[0]);
        let next = s.after_split(t).0;
        assert(s.timer.reading_at(t) >= 0);
        assert(next.current_split == s.current_split + 1);
        assert(next.display.len() == s.display.len());
        assert(next.run.splits.len() == s.run.splits.len());
        let rest = times.drop_first();
        assert forall|k: int| 0 <= k < rest.len() implies start <= #[trigger] rest[k] by {
            assert(rest[k] == times[k + 1]);
        }
        if next.current_split < next.run.splits.len() {
            assert(next.timer == s.timer);
            lemma_running_splits(next, rest, start);
        } else {
            assert(next.timer.state == TimerState::Paused);
            lemma_paused_ignores_splits(next, rest);
        }
    }
}

/// On a run of `n` splits with no pre-roll offset, the split command given
/// `n + 1` or more times at clock times that never go backwards starts the
/// attempt, moves the current split from 0 up to `n` one step at a time, and
/// then leaves it at `n` with the stopwatch paused.
pub proof fn lemma_split_advances_to_end(s: AppStateView, times: Seq<i64>)
    requires
        s.wf(),
        s.timer.state == TimerState::NotStarted,
        s.display.len() == s.run.splits.len(),
        0 < s.run.splits.len() <= usize::MAX,
        s.run.start_offset matches Some(o) ==> o >= 0,
        times.len() >= 1,
        nondecreasing(times),
    ensures
        after_splits(s, times).current_split == if times.len() - 1 < s.run.splits.len() {
            times.len() - 1
        } else {
            s.run.splits.len() as int
        },
        times.len() - 1 >= s.run.splits.len() ==> after_splits(s, times).timer.state
            == TimerState::Paused,
{
    let t0 = times[0];
    let started = s.after_split(t0).0;
    let start = started.timer.start_time.unwrap();
    assert(start <= t0);
    let rest = times.drop_first();
    assert forall|k: int| 0 <= k < rest.len() implies start <= #[trigger] rest[k] by {
        assert(rest[k] == times[k + 1]);
        assert(times[0] <= times[k + 1]);
    }
    assert(after_splits(s, times) == after_splits(started, rest));
    lemma_running_splits(started, rest, start);
}

/// Once an attempt has started, the split command never changes the snapshot
/// of the run's splits taken at its start.
proof fn lemma_splits_keep_snapshot(s: AppStateView, times: Seq<i64>)
    requires
        s.timer.state != TimerState::NotStarted,
    ensures
        after_splits(s, times).backup == s.backup,
        after_splits(s, times).timer.state != TimerState::NotStarted,
    decreases times.len(),
{
    if times.len() > 0 {
        let next = s.after_split(times[0]).0;
        assert(next.backup == s.backup);
        assert(next.timer.state != TimerState::NotStarted);
        lemma_splits_keep_snapshot(next, times.drop_first());
    }
}

/// Starting an attempt, splitting any number of times, and then undoing the
/// personal best puts the run's splits back exactly as they were when the
/// attempt started; that run is what gets saved, before the reset reloads it.
pub proof fn lemma_undo_pb_restores_start(s: AppStateView, times: Seq<i64>)
    requires
        s.timer.state == TimerState::NotStarted,
        times.len() >= 1,
    ensures
        after_splits(s, times).after_undo_pb().0.run.splits == s.run.splits,
        after_splits(s, times).after_undo_pb().1 == seq![
            StoreRequestView::SaveRun(RunView { splits: s.run.splits, ..after_splits(s, times).run }),
            StoreRequestView::Reload,
        ],
{
    let started = s.after_split(times[0]).0;
    assert(started.backup == s.run.splits);
    lemma_splits_keep_snapshot(started, times.drop_first());
    assert(after_splits(s, times) == after_splits(started, times.drop_first()));
    let e = after_splits(s, times);
    assert(e.after_undo_pb().1 =~= seq![
        StoreRequestView::SaveRun(RunView { splits: s.run.splits, ..e.run }),
        StoreRequestView::Reload,
    ]);
}

/// Once an attempt is complete, reconciling it either replaces every split's
/// personal best by the attempt's segment (when every segment is no longer
/// than the stored one, or none is stored) or leaves every personal best as it
/// was: one slower or missing segment keeps all of them.
pub proof fn lemma_pb_all_or_nothing(s: AppStateView)
    requires
        s.complete(),
    ensures
        is_new_pb(s.run.splits, s.display) ==> forall|i: int|
            0 <= i < s.run.splits.len() ==> (#[trigger] s.reconciled().0.run.splits[i]).pb_time
                == Some(segment(s.display, i)),
        !is_new_pb(s.run.splits, s.display) ==> forall|i: int|
            0 <= i < s.run.splits.len() ==> (#[trigger] s.reconciled().0.run.splits[i]).pb_time
                == s.run.splits[i].pb_time,
        (exists|i: int|
            0 <= i < s.run.splits.len() && (!has_time(s.display, i) || match s.run.splits[i].pb_time {
                Some(pb) => segment(s.display, i) > pb,
                None => false,
            })) ==> !is_new_pb(s.run.splits, s.display),
{
    if is_new_pb(s.run.splits, s.display) {
        assert forall|i: int| 0 <= i < s.run.splits.len() implies (#[trigger] s.reconciled().0.run.splits[i]).pb_time
            == Some(segment(s.display, i)) by {
            assert(has_time(s.display, i));
        }
    }
}

/// A gold time after segments `segs` were run in turn, each improving it.
pub open spec fn gold_after_segments(gold: Option<i64>, segs: Seq<i64>) -> Option<i64>
    decreases segs.len(),
{
    if segs.len() == 0 {
        gold
    } else {
        improved_gold(gold_after_segments(gold, segs.drop_last()), segs.last())
    }
}

/// Reconciling an attempt in gold mode improves the gold time of each split
/// that has a recorded time by its segment, and keeps the others.
pub proof fn lemma_gold_step(s: AppStateView, i: int)
    requires
        s.run.gold_split,
        0 <= i < s.run.splits.len(),
    ensures
        s.reconciled().0.run.splits[i].gold_time == if has_time(s.display, i) {
            improved_gold(s.run.splits[i].gold_time, segment(s.display, i))
        } else {
            s.run.splits[i].gold_time
        },
{
}

/// A gold time improved by segment after segment is the minimum of all of
/// them (and of the gold time it started from, if any): no larger than any
/// of them, and equal to one of them.
pub proof fn lemma_gold_running_minimum(gold: Option<i64>, segs: Seq<i64>)
    ensures
        segs.len() > 0 ==> gold_after_segments(gold, segs) is Some,
        forall|k: int|
            0 <= k < segs.len() ==> gold_after_segments(gold, segs).unwrap() <= #[trigger] segs[k],
        gold matches Some(g) ==> gold_after_segments(gold, segs).unwrap() <= g,
        gold_after_segments(gold, segs) == gold || exists|k: int|
            0 <= k < segs.len() && gold_after_segments(gold, segs) == Some(#[trigger] segs[k]),
    decreases segs.len(),
{
    if segs.len() > 0 {
        let init = segs.drop_last();
        lemma_gold_running_minimum(gold, init);
        let prev = gold_after_segments(gold, init);
        assert forall|k: int| 0 <= k < segs.len() implies gold_after_segments(gold, segs).unwrap()
            <= #[trigger] segs[k] by {
            if k < init.len() {
                assert(init[k] == segs[k]);
            }
        }
        if prev != gold {
            let k = choose|k: int| 0 <= k < init.len() && prev == Some(#[trigger] init[k]);
            assert(init[k] == segs[k]);
        }
        if gold_after_segments(gold, segs) != gold && gold_after_segments(gold, segs) != prev {
            assert(gold_after_segments(gold, segs) == Some(segs[segs.len() - 1]));
        }
    }
}

/// The run's splits after the gold times were improved by one attempt after
/// another, `attempts` holding each attempt's working splits in order.
pub open spec fn golds_after_attempts(
    run: Seq<SplitView>,
    attempts: Seq<Seq<SplitView>>,
) -> Seq<SplitView>
    decreases attempts.len(),
{
    if attempts.len() == 0 {
        run
    } else {
        golds_updated(golds_after_attempts(run, attempts.drop_last()), attempts.last())
    }
}

/// The segments that the attempts recorded for split `i`, in order.
pub open spec fn segments_of(attempts: Seq<Seq<SplitView>>, i: int) -> Seq<i64> {
    attempts.map_values(|d: Seq<SplitView>| segment(d, i))
}

/// After any number of attempts in gold mode that each recorded split `i`,
/// its gold time is the running minimum of those segments, starting from the
/// gold time it had: so (with `lemma_gold_running_minimum`) it is the least
/// of them and of that starting gold time.
pub proof fn lemma_golds_over_attempts(run: Seq<SplitView>, attempts: Seq<Seq<SplitView>>, i: int)
    requires
        0 <= i < run.len(),
        forall|a: int| 0 <= a < attempts.len() ==> has_time(#[trigger] attempts[a], i),
    ensures
        golds_after_attempts(run, attempts).len() == run.len(),
        golds_after_attempts(run, attempts)[i].gold_time == gold_after_segments(
            run[i].gold_time,
            segments_of(attempts, i),
        ),
    decreases attempts.len(),
{
    if attempts.len() > 0 {
        let init = attempts.drop_last();
        assert forall|a: int| 0 <= a < init.len() implies has_time(#[trigger] init[a], i) by {
            assert(init[a] == attempts[a]);
        }
        lemma_golds_over_attempts(run, init, i);
        assert(segments_of(attempts, i).drop_last() =~= segments_of(init, i));
        assert(has_time(attempts[attempts.len() - 1], i));
    }
}

} // verus!
