use vstd::prelude::*;

use crate::format::{duration_text, format_duration};
use crate::clock::{clamp_i64, now_millis, saturating_add_i64, saturating_sub_i64};
use crate::split::{
    clone_splits, gold_sum, pb_sum, all_have_pb, splits_view, sum_gold_from, pb_total,
    without_last_times, Run, RunView, Split, SplitView,
};
use crate::timer::{Timer, TimerState};

verus! {

/// Work on the persisted run document that an operation hands back to its
/// caller, to be carried out in order.
#[derive(Debug)]
pub enum StoreRequest {
    /// Load the stored run, copy these gold times into it with
    /// `Run::apply_gold_times`, and write it back.
    SaveGold(Vec<Option<i64>>),
    /// Write this run as the stored document.
    SaveRun(Run),
    /// Load the stored run and hand it to `AppState::sync_splits`.
    Reload,
}

/// The mathematical value of a [`StoreRequest`].
pub enum StoreRequestView {
    SaveGold(Seq<Option<i64>>),
    SaveRun(RunView),
    Reload,
}

impl View for StoreRequest {
    type V = StoreRequestView;

    open spec fn view(&self) -> StoreRequestView {
        match self {
            StoreRequest::SaveGold(g) => StoreRequestView::SaveGold(g@),
            StoreRequest::SaveRun(r) => StoreRequestView::SaveRun(r@),
            StoreRequest::Reload => StoreRequestView::Reload,
        }
    }
}

/// The views of a sequence of requests.
pub open spec fn requests_view(s: Seq<StoreRequest>) -> Seq<StoreRequestView> {
    s.map_values(|r: StoreRequest| r@)
}

/// How far below its reference a live segment may be before its delta is shown.
pub const LIVE_DELTA_WINDOW: i64 = 5000;

/// The live attempt controller: a stopwatch, the run, the index of the next
/// split to record, a working copy of the splits shown during the attempt, and
/// a snapshot of the run's splits taken when the attempt started.
#[derive(Debug)]
pub struct AppState {
    pub timer: Timer,
    pub run: Run,
    pub current_split: usize,
    pub current_page: usize,
    pub splits_per_page: usize,
    pub splits_display: Vec<Split>,
    pub splits_backup: Vec<Split>,
    pub show_help: bool,
}

/// The mathematical value of an [`AppState`].
pub struct AppStateView {
    pub timer: Timer,
    pub run: RunView,
    pub current_split: usize,
    pub current_page: usize,
    pub splits_per_page: usize,
    pub display: Seq<SplitView>,
    pub backup: Seq<SplitView>,
    pub show_help: bool,
}

impl View for AppState {
    type V = AppStateView;

    open spec fn view(&self) -> AppStateView {
        AppStateView {
            timer: self.timer,
            run: self.run@,
            current_split: self.current_split,
            current_page: self.current_page,
            splits_per_page: self.splits_per_page,
            display: splits_view(self.splits_display@),
            backup: splits_view(self.splits_backup@),
            show_help: self.show_help,
        }
    }
}

/// Whether split `i` of an attempt has a recorded time.
pub open spec fn has_time(display: Seq<SplitView>, i: int) -> bool {
    0 <= i < display.len() && display[i].last_time is Some
}

/// The segment duration recorded for split `i` of an attempt: its recorded
/// time less the previous split's (zero before the first split, and where the
/// previous split has no time), saturating at the bounds of `i64`.
pub open spec fn segment(display: Seq<SplitView>, i: int) -> i64 {
    let prev: int = if i == 0 {
        0
    } else {
        match display[i - 1].last_time {
            Some(t) => t as int,
            None => 0,
        }
    };
    clamp_i64(display[i].last_time.unwrap() - prev) as i64
}

/// A gold time after a segment of length `seg` was run: the smaller of the two,
/// or the segment where there was no gold time.
pub open spec fn improved_gold(gold: Option<i64>, seg: i64) -> Option<i64> {
    match gold {
        Some(g) => if seg < g {
            Some(seg)
        } else {
            Some(g)
        },
        None => Some(seg),
    }
}

/// The run's splits with each gold time improved by the segment of the attempt
/// at the same index, where one was recorded.
pub open spec fn golds_updated(run: Seq<SplitView>, display: Seq<SplitView>) -> Seq<SplitView> {
    Seq::new(
        run.len(),
        |i: int|
            if has_time(display, i) {
                SplitView { gold_time: improved_gold(run[i].gold_time, segment(display, i)), ..run[i] }
            } else {
                run[i]
            },
    )
}

/// Whether a completed attempt is a new personal best: every split has a
/// recorded time whose segment is no longer than the stored personal-best
/// segment (any segment qualifies where none is stored).
pub open spec fn is_new_pb(run: Seq<SplitView>, display: Seq<SplitView>) -> bool {
    forall|i: int|
        0 <= i < run.len() ==> has_time(display, i) && match (#[trigger] run[i]).pb_time {
            Some(pb) => segment(display, i) <= pb,
            None => true,
        }
}

/// The run's splits with each personal-best time replaced by the attempt's
/// segment at the same index, where one was recorded.
pub open spec fn pbs_recorded(run: Seq<SplitView>, display: Seq<SplitView>) -> Seq<SplitView> {
    Seq::new(
        run.len(),
        |i: int|
            if has_time(display, i) {
                SplitView { pb_time: Some(segment(display, i)), ..run[i] }
            } else {
                run[i]
            },
    )
}

/// The page that shows split `current` of `len` splits.
pub open spec fn page_for(current: int, len: int, per_page: int) -> int {
    let next = current / per_page;
    let last = (if len == 0 {
        0
    } else {
        len - 1
    }) / per_page;
    if next < last {
        next
    } else {
        last
    }
}

/// The number of pages that `len` splits fill.
pub open spec fn page_count(len: int, per_page: int) -> int {
    len / per_page + if len % per_page != 0 {
        1int
    } else {
        0int
    }
}

impl AppStateView {
    pub open spec fn wf(self) -> bool {
        self.splits_per_page > 0 && self.timer.wf()
    }

    /// Whether the attempt has recorded every split.
    pub open spec fn complete(self) -> bool {
        self.current_split == self.run.splits.len()
    }

    /// The recorded time of the last completed split, zero before the first.
    pub open spec fn time_so_far(self) -> int {
        let c = self.current_split;
        if c > 0 && c - 1 < self.display.len() {
            match self.display[c - 1].last_time {
                Some(t) => t as int,
                None => 0,
            }
        } else {
            0
        }
    }

    /// The recorded time of working split `k`, zero where it has none or
    /// does not exist.
    pub open spec fn recorded_or_zero(self, k: int) -> int {
        if 0 <= k < self.display.len() {
            match self.display[k].last_time {
                Some(t) => t as int,
                None => 0,
            }
        } else {
            0
        }
    }

    /// What working split `i` is compared with: its gold time in gold mode,
    /// else its personal best; only a positive time counts.
    pub open spec fn reference(self, i: int) -> Option<i64> {
        let r = if self.run.gold_split {
            self.display[i].gold_time
        } else {
            self.display[i].pb_time
        };
        match r {
            Some(t) => if t > 0 {
                Some(t)
            } else {
                None
            },
            None => None,
        }
    }

    /// How far the segment recorded for split `i` is from its reference;
    /// none without a recorded time or a reference, and none for an exact
    /// match in gold mode.
    pub open spec fn split_delta(self, i: int) -> Option<i64> {
        if has_time(self.display, i) {
            match self.reference(i) {
                Some(t) => {
                    let d = clamp_i64(segment(self.display, i) - t) as i64;
                    if self.run.gold_split && d == 0 {
                        None
                    } else {
                        Some(d)
                    }
                },
                None => None,
            }
        } else {
            None
        }
    }

    /// The time spent so far in the current split at clock time `now`, while
    /// the stopwatch runs at a non-negative reading and the split has no time yet.
    pub open spec fn live_segment(self, now: i64) -> Option<i64> {
        let c = self.current_split as int;
        let reading = self.timer.reading_at(now);
        if self.timer.state == TimerState::Running && reading >= 0 && c < self.display.len()
            && self.display[c].last_time is None {
            Some(clamp_i64(reading - self.recorded_or_zero(c - 1)) as i64)
        } else {
            None
        }
    }

    /// How far the live segment is from the current split's reference, once
    /// it is within the live window of it (or past it).
    pub open spec fn live_delta(self, now: i64) -> Option<i64> {
        match self.live_segment(now) {
            Some(seg) => match self.reference(self.current_split as int) {
                Some(t) => {
                    let d = clamp_i64(seg - t);
                    if d >= -LIVE_DELTA_WINDOW {
                        Some(d as i64)
                    } else {
                        None
                    }
                },
                None => None,
            },
            None => None,
        }
    }

    /// The segment of the last completed split (zero before the first):
    /// its time less the time of the split before it.
    pub open spec fn last_segment(self) -> int {
        let c = self.current_split as int;
        if c > 0 {
            clamp_i64(
                self.recorded_or_zero(c - 1) - if c >= 2 {
                    self.recorded_or_zero(c - 2)
                } else {
                    0
                },
            )
        } else {
            0
        }
    }

    /// The run's pre-roll offset, zero where it has none.
    pub open spec fn offset(self) -> i64 {
        match self.run.start_offset {
            Some(o) => o,
            None => 0,
        }
    }

    /// The state after a new attempt starts at clock time `now`.
    pub open spec fn started(self, now: i64) -> AppStateView {
        AppStateView {
            backup: self.run.splits,
            timer: self.timer.started_at(now, self.offset()),
            current_split: 0,
            ..self
        }
    }

    /// The state after the stopwatch reading at `now` is written into the
    /// current split and the attempt moves on (before reconciliation).
    pub open spec fn recorded(self, now: i64) -> AppStateView {
        let t = self.timer.reading_at(now) as i64;
        let c = self.current_split;
        let display = if c < self.display.len() {
            self.display.update(c as int, SplitView { last_time: Some(t), ..self.display[c as int] })
        } else {
            self.display
        };
        let next = if c < usize::MAX {
            (c + 1) as usize
        } else {
            c
        };
        let timer = if next >= display.len() {
            self.timer.paused_at(now)
        } else {
            self.timer
        };
        AppStateView {
            display,
            current_split: next,
            timer,
            current_page: page_for(next as int, display.len() as int, self.splits_per_page as int) as usize,
            ..self
        }
    }

    /// The run's splits after reconciling the attempt: gold times improved
    /// (in gold mode), and once the attempt is complete, personal bests
    /// replaced if it is a new best and every `last_time` cleared.
    pub open spec fn reconciled_splits(self) -> Seq<SplitView> {
        let golds = if self.run.gold_split {
            golds_updated(self.run.splits, self.display)
        } else {
            self.run.splits
        };
        if self.complete() {
            without_last_times(
                if is_new_pb(self.run.splits, self.display) {
                    pbs_recorded(golds, self.display)
                } else {
                    golds
                },
            )
        } else {
            golds
        }
    }

    /// The state and requests after reconciling the attempt into the run: gold
    /// times are saved in gold mode, the whole run once a complete attempt is
    /// auto-saved.
    pub open spec fn reconciled(self) -> (AppStateView, Seq<StoreRequestView>) {
        let run = RunView { splits: self.reconciled_splits(), ..self.run };
        let gold_req = if self.run.gold_split {
            seq![StoreRequestView::SaveGold(run.splits.map_values(|s: SplitView| s.gold_time))]
        } else {
            Seq::empty()
        };
        let save_req = if self.complete() && self.run.auto_update_pb {
            seq![StoreRequestView::SaveRun(run)]
        } else {
            Seq::empty()
        };
        (AppStateView { run, ..self }, gold_req + save_req)
    }

    /// A split recorded at clock time `now`; dropped while the stopwatch
    /// still reads a negative (pre-roll) time.
    pub open spec fn after_record(self, now: i64) -> (AppStateView, Seq<StoreRequestView>) {
        if self.timer.reading_at(now) < 0 {
            (self, Seq::empty())
        } else {
            self.recorded(now).reconciled()
        }
    }

    /// The split command at clock time `now`: it starts an attempt when the
    /// stopwatch has not started, records a split while it runs, and does
    /// nothing otherwise.
    pub open spec fn after_split(self, now: i64) -> (AppStateView, Seq<StoreRequestView>) {
        match self.timer.state {
            TimerState::NotStarted => (self.started(now), Seq::empty()),
            TimerState::Running => self.after_record(now),
            _ => (self, Seq::empty()),
        }
    }

    /// The state after a reset: the working splits lose their times (and,
    /// after a complete attempt, take the run's personal bests), the attempt
    /// index and stopwatch return to the start, and the run is reloaded.
    pub open spec fn after_reset(self) -> (AppStateView, Seq<StoreRequestView>) {
        let display = if self.complete() {
            Seq::new(
                self.display.len(),
                |i: int|
                    SplitView {
                        pb_time: if i < self.run.splits.len() {
                            self.run.splits[i].pb_time
                        } else {
                            self.display[i].pb_time
                        },
                        last_time: None,
                        ..self.display[i]
                    },
            )
        } else {
            without_last_times(self.display)
        };
        (
            AppStateView { display, current_split: 0, timer: Timer::initial(), ..self },
            seq![StoreRequestView::Reload],
        )
    }

    /// The state after the last recorded split is taken back: it loses its
    /// time and gets its personal-best and gold times from the snapshot, in
    /// the working splits and in the run, which is then saved without times.
    pub open spec fn after_undo_split(self) -> (AppStateView, Seq<StoreRequestView>) {
        if self.current_split == 0 {
            (self, Seq::empty())
        } else {
            let c = self.current_split - 1;
            let restore = |s: SplitView, b: SplitView|
                SplitView { last_time: None, pb_time: b.pb_time, gold_time: b.gold_time, ..s };
            let display = if c < self.backup.len() && c < self.display.len() {
                self.display.update(c, restore(self.display[c], self.backup[c]))
            } else {
                self.display
            };
            let splits = if c < self.backup.len() && c < self.run.splits.len() {
                self.run.splits.update(c, restore(self.run.splits[c], self.backup[c]))
            } else {
                self.run.splits
            };
            let run = RunView { splits, ..self.run };
            (
                AppStateView {
                    current_split: c as usize,
                    display,
                    run,
                    current_page: page_for(c, display.len() as int, self.splits_per_page as int) as usize,
                    ..self
                },
                seq![StoreRequestView::SaveRun(RunView { splits: without_last_times(splits), ..run })],
            )
        }
    }

    /// The state after the whole attempt is undone: the run's splits return to
    /// the snapshot taken at its start, the run is saved, and a reset follows.
    pub open spec fn after_undo_pb(self) -> (AppStateView, Seq<StoreRequestView>) {
        let restored = AppStateView { run: RunView { splits: self.backup, ..self.run }, ..self };
        let (reset, reqs) = restored.after_reset();
        (reset, seq![StoreRequestView::SaveRun(restored.run)] + reqs)
    }
}


/// The segment recorded for split `i` of an attempt.
fn segment_at(display: &Vec<Split>, i: usize) -> (r: i64)
    requires
        has_time(splits_view(display@), i as int),
    ensures
        r == segment(splits_view(display@), i as int),
{
    let ghost d = splits_view(display@);
    assert(d[i as int] == display@[i as int]@);
    let cur = display[i].last_time.unwrap();
    let prev: i64 = if i == 0 {
        0
    } else {
        assert(d[i - 1] == display@[i - 1]@);
        match display[i - 1].last_time {
            Some(t) => t,
            None => 0,
        }
    };
    saturating_sub_i64(cur, prev)
}

/// Whether a completed attempt recorded in `display` is a new personal best
/// against `run`.
fn check_new_pb(run: &Vec<Split>, display: &Vec<Split>) -> (r: bool)
    ensures
        r == is_new_pb(splits_view(run@), splits_view(display@)),
{
    let ghost rv = splits_view(run@);
    let ghost dv = splits_view(display@);
    let mut i: usize = 0;
    while i < run.len()
        invariant
            i <= run.len(),
            rv == splits_view(run@),
            dv == splits_view(display@),
            forall|j: int|
                0 <= j < i ==> has_time(dv, j) && match (#[trigger] rv[j]).pb_time {
                    Some(pb) => segment(dv, j) <= pb,
                    None => true,
                },
        decreases run.len() - i,
    {
        assert(rv[i as int] == run@[i as int]@);
        if i >= display.len() || display[i].last_time.is_none() {
            assert(!has_time(dv, i as int));
            return false;
        }
        assert(dv[i as int] == display@[i as int]@);
        let seg = segment_at(display, i);
        match run[i].pb_time {
            Some(pb) => {
                if seg > pb {
                    return false;
                }
            },
            None => {},
        }
        i += 1;
    }
    true
}

/// The attempt index moved on by one; it stays put at the largest index.
fn next_index(c: usize) -> (r: usize)
    ensures
        r == (if c < usize::MAX {
            (c + 1) as usize
        } else {
            c
        }),
{
    if c < usize::MAX {
        c + 1
    } else {
        c
    }
}

impl AppState {
    /// A controller for `run` with no attempt in progress.
    /// A stored page size of zero (or none) gives five splits per page.
    pub fn new(run: Run) -> (r: AppState)
        ensures
            r@.wf(),
            r@.timer == Timer::initial(),
            r@.run == run@,
            r@.current_split == 0,
            r@.current_page == 0,
            r@.splits_per_page == (match run.splits_per_page {
                Some(n) => if n > 0 {
                    n
                } else {
                    5
                },
                None => 5,
            }),
            r@.display == run@.splits,
            r@.backup == run@.splits,
            !r@.show_help,
    {
        let splits_per_page = match run.splits_per_page {
            Some(n) => if n > 0 {
                n
            } else {
                5
            },
            None => 5,
        };
        let display = clone_splits(&run.splits);
        let backup = clone_splits(&run.splits);
        AppState {
            timer: Timer::new(),
            run,
            current_split: 0,
            current_page: 0,
            splits_per_page,
            splits_display: display,
            splits_backup: backup,
            show_help: false,
        }
    }

    /// Improves each gold time of the run by the attempt's segment at the same index.
    fn update_golds(&mut self)
        ensures
            final(self)@ == (AppStateView {
                run: RunView { splits: golds_updated(old(self)@.run.splits, old(self)@.display), ..old(self)@.run },
                ..old(self)@
            }),
    {
        let ghost s0 = old(self)@.run.splits;
        let ghost d = old(self)@.display;
        let mut i: usize = 0;
        while i < self.run.splits.len()
            invariant
                i <= self.run.splits.len(),
                self.run.splits.len() == s0.len(),
                d == splits_view(self.splits_display@),
                self@ == (AppStateView { run: RunView { splits: self@.run.splits, ..old(self)@.run }, ..old(self)@ }),
                forall|j: int|
                    0 <= j < s0.len() ==> (#[trigger] self.run.splits@[j])@ == (if j < i {
                        golds_updated(s0, d)[j]
                    } else {
                        s0[j]
                    }),
            decreases self.run.splits.len() - i,
        {
            if i < self.splits_display.len() && self.splits_display[i].last_time.is_some() {
                assert(d[i as int] == self.splits_display@[i as int]@);
                let seg = segment_at(&self.splits_display, i);
                let gold = match self.run.splits[i].gold_time {
                    Some(g) => if seg < g {
                        Some(seg)
                    } else {
                        Some(g)
                    },
                    None => Some(seg),
                };
                self.run.splits[i].gold_time = gold;
            } else {
                assert(d.len() == self.splits_display@.len());
                assert(i < d.len() ==> d[i as int] == self.splits_display@[i as int]@);
            }
            i += 1;
        }
        assert(self@.run.splits =~= golds_updated(s0, d));
    }

    /// Replaces each personal-best time of the run by the attempt's segment at
    /// the same index.
    fn record_pbs(&mut self)
        ensures
            final(self)@ == (AppStateView {
                run: RunView { splits: pbs_recorded(old(self)@.run.splits, old(self)@.display), ..old(self)@.run },
                ..old(self)@
            }),
    {
        let ghost s0 = old(self)@.run.splits;
        let ghost d = old(self)@.display;
        let mut i: usize = 0;
        while i < self.run.splits.len()
            invariant
                i <= self.run.splits.len(),
                self.run.splits.len() == s0.len(),
                d == splits_view(self.splits_display@),
                self@ == (AppStateView { run: RunView { splits: self@.run.splits, ..old(self)@.run }, ..old(self)@ }),
                forall|j: int|
                    0 <= j < s0.len() ==> (#[trigger] self.run.splits@[j])@ == (if j < i {
                        pbs_recorded(s0, d)[j]
                    } else {
                        s0[j]
                    }),
            decreases self.run.splits.len() - i,
        {
            if i < self.splits_display.len() && self.splits_display[i].last_time.is_some() {
                assert(d[i as int] == self.splits_display@[i as int]@);
                let seg = segment_at(&self.splits_display, i);
                self.run.splits[i].pb_time = Some(seg);
            } else {
                assert(d.len() == self.splits_display@.len());
                assert(i < d.len() ==> d[i as int] == self.splits_display@[i as int]@);
            }
            i += 1;
        }
        assert(self@.run.splits =~= pbs_recorded(s0, d));
    }

    /// Reconciles the attempt into the run: in gold mode every recorded
    /// segment improves its split's gold time and the gold times are saved;
    /// once the attempt is complete, a new personal best (every segment no
    /// longer than the stored one) replaces all personal-best times, every
    /// `last_time` of the run is cleared, and the run is saved when it is set
    /// to update automatically.
    pub fn check_auto_update_pb(&mut self) -> (r: Vec<StoreRequest>)
        ensures
            (final(self)@, requests_view(r@)) == old(self)@.reconciled(),
    {
        let ghost s0 = self@;
        let mut requests: Vec<StoreRequest> = Vec::new();
        let complete = self.current_split == self.run.splits.len();
        let new_pb = complete && check_new_pb(&self.run.splits, &self.splits_display);
        if self.run.gold_split {
            self.update_golds();
            let golds = self.run.gold_times();
            proof {
                assert(golds@ =~= s0.reconciled().0.run.splits.map_values(|s: SplitView| s.gold_time));
            }
            requests.push(StoreRequest::SaveGold(golds));
        }
        if complete {
            if new_pb {
                self.record_pbs();
            }
            self.run.clear_last_times();
            if self.run.auto_update_pb {
                requests.push(StoreRequest::SaveRun(self.run.clone()));
            }
        }
        proof {
            let (t, reqs) = s0.reconciled();
            assert(self@.run.splits == s0.reconciled_splits());
            assert(self@ == t);
            if s0.run.gold_split {
                assert(requests_view(requests@)[0] == reqs[0]);
            }
            assert(requests_view(requests@) =~= reqs);
        }
        requests
    }

    /// Starts an attempt at clock time `now`: snapshots the run's splits and
    /// starts the stopwatch with the run's offset.
    fn start_run(&mut self, now: i64)
        ensures
            final(self)@ == old(self)@.started(now),
    {
        self.splits_backup = clone_splits(&self.run.splits);
        let offset = match self.run.start_offset {
            Some(o) => o,
            None => 0,
        };
        self.timer.start_with_offset_at(now, offset);
        self.current_split = 0;
    }

    /// Moves the page to the one that shows the current split.
    fn update_page(&mut self)
        requires
            old(self).splits_per_page > 0,
        ensures
            final(self)@ == (AppStateView {
                current_page: page_for(
                    old(self).current_split as int,
                    old(self).splits_display.len() as int,
                    old(self).splits_per_page as int,
                ) as usize,
                ..old(self)@
            }),
    {
        let next_page = self.current_split / self.splits_per_page;
        let last = if self.splits_display.len() == 0 {
            0
        } else {
            self.splits_display.len() - 1
        };
        let max_page = last / self.splits_per_page;
        self.current_page = if next_page < max_page {
            next_page
        } else {
            max_page
        };
    }

    /// Records a split at clock time `now` and reconciles the attempt; nothing
    /// happens while the stopwatch reads a negative time.
    fn record_split(&mut self, now: i64) -> (r: Vec<StoreRequest>)
        requires
            old(self)@.wf(),
        ensures
            (final(self)@, requests_view(r@)) == old(self)@.after_record(now),
    {
        let t = self.timer.current_time_at(now);
        if t < 0 {
            let r: Vec<StoreRequest> = Vec::new();
            assert(requests_view(r@) =~= Seq::empty());
            return r;
        }
        let ghost s0 = self@;
        if self.current_split < self.splits_display.len() {
            let c = self.current_split;
            self.splits_display[c].last_time = Some(t);
            proof {
                assert(self@.display =~= s0.recorded(now).display);
            }
        }
        self.current_split = next_index(self.current_split);
        if self.current_split >= self.splits_display.len() {
            self.timer.pause_at(now);
        }
        self.update_page();
        assert(self@ == s0.recorded(now));
        self.check_auto_update_pb()
    }

    /// The split command at clock time `now`: starts an attempt when the
    /// stopwatch has not started, records a split while it runs, and does
    /// nothing otherwise.
    pub fn split_at(&mut self, now: i64) -> (r: Vec<StoreRequest>)
        requires
            old(self)@.wf(),
        ensures
            final(self)@.wf(),
            (final(self)@, requests_view(r@)) == old(self)@.after_split(now),
    {
        match self.timer.state {
            TimerState::NotStarted => {
                self.start_run(now);
                let r: Vec<StoreRequest> = Vec::new();
                assert(requests_view(r@) =~= Seq::empty());
                r
            },
            TimerState::Running => self.record_split(now),
            _ => {
                let r: Vec<StoreRequest> = Vec::new();
                assert(requests_view(r@) =~= Seq::empty());
                r
            },
        }
    }

    /// The split command, at the current clock time.
    pub fn split(&mut self) -> (r: Vec<StoreRequest>)
        requires
            old(self)@.wf(),
        ensures
            final(self)@.wf(),
            exists|now: i64| now >= 0 && (final(self)@, requests_view(r@)) == old(self)@.after_split(now),
    {
        let now = now_millis();
        self.split_at(now)
    }

    /// Ends the attempt: the working splits lose their times (after a complete
    /// attempt they take the run's personal bests), the attempt index and the
    /// stopwatch return to the start, and the run is to be reloaded from the store.
    pub fn reset_splits(&mut self) -> (r: Vec<StoreRequest>)
        requires
            old(self)@.wf(),
        ensures
            final(self)@.wf(),
            (final(self)@, requests_view(r@)) == old(self)@.after_reset(),
    {
        let ghost s0 = self@;
        let ghost d0 = s0.display;
        let ghost target = s0.after_reset().0.display;
        let complete = self.current_split == self.run.splits.len();
        assert(target.len() == d0.len());
        let mut i: usize = 0;
        while i < self.splits_display.len()
            invariant
                i <= self.splits_display.len(),
                target == s0.after_reset().0.display,
                target.len() == d0.len(),
                d0 == s0.display,
                self.splits_display.len() == d0.len(),
                complete == s0.complete(),
                self@ == (AppStateView { display: self@.display, ..s0 }),
                forall|j: int|
                    0 <= j < d0.len() ==> (#[trigger] self.splits_display@[j])@ == (if j < i {
                        target[j]
                    } else {
                        d0[j]
                    }),
            decreases self.splits_display.len() - i,
        {
            let ghost before = self.splits_display@[i as int]@;
            assert(before == d0[i as int]);
            if complete && i < self.run.splits.len() {
                let pb = self.run.splits[i].pb_time;
                assert(s0.run.splits[i as int] == self.run.splits@[i as int]@);
                self.splits_display[i].pb_time = pb;
            }
            self.splits_display[i].last_time = None;
            proof {
                if complete {
                    assert(target[i as int] == SplitView {
                        pb_time: if i < s0.run.splits.len() {
                            s0.run.splits[i as int].pb_time
                        } else {
                            d0[i as int].pb_time
                        },
                        last_time: None,
                        ..d0[i as int]
                    });
                } else {
                    assert(target[i as int] == SplitView { last_time: None, ..d0[i as int] });
                }
                assert(self.splits_display@[i as int]@ == target[i as int]);
            }
            i += 1;
        }
        self.current_split = 0;
        self.timer.reset();
        assert(self@.display =~= s0.after_reset().0.display);
        let mut r: Vec<StoreRequest> = Vec::new();
        r.push(StoreRequest::Reload);
        assert(requests_view(r@) =~= seq![StoreRequestView::Reload]);
        r
    }

    /// Takes in the run as loaded from the store: it becomes the run and the
    /// working splits.
    pub fn sync_splits(&mut self, stored: Run)
        ensures
            final(self)@ == (AppStateView { run: stored@, display: stored@.splits, ..old(self)@ }),
    {
        self.splits_display = clone_splits(&stored.splits);
        self.run = stored;
    }

    /// Takes back the last recorded split: it loses its time and gets its
    /// personal-best and gold times back from the snapshot taken at the start
    /// of the attempt, both in the working splits and in the run; the run is
    /// then saved without times. Nothing happens before the first split.
    pub fn undo_split(&mut self) -> (r: Vec<StoreRequest>)
        requires
            old(self)@.wf(),
        ensures
            final(self)@.wf(),
            (final(self)@, requests_view(r@)) == old(self)@.after_undo_split(),
    {
        if self.current_split == 0 {
            let r: Vec<StoreRequest> = Vec::new();
            assert(requests_view(r@) =~= Seq::empty());
            return r;
        }
        let ghost s0 = self@;
        let ghost t = s0.after_undo_split().0;
        self.current_split = self.current_split - 1;
        let c = self.current_split;
        if c < self.splits_backup.len() {
            let pb = self.splits_backup[c].pb_time;
            let gold = self.splits_backup[c].gold_time;
            assert(s0.backup[c as int] == self.splits_backup@[c as int]@);
            if c < self.splits_display.len() {
                self.splits_display[c].last_time = None;
                self.splits_display[c].pb_time = pb;
                self.splits_display[c].gold_time = gold;
            }
            if c < self.run.splits.len() {
                self.run.splits[c].last_time = None;
                self.run.splits[c].pb_time = pb;
                self.run.splits[c].gold_time = gold;
            }
        }
        assert(self@.display =~= t.display);
        assert(self@.run.splits =~= t.run.splits);
        self.update_page();
        assert(self@ == t);
        let mut saved = self.run.clone();
        saved.clear_last_times();
        let mut r: Vec<StoreRequest> = Vec::new();
        r.push(StoreRequest::SaveRun(saved));
        assert(requests_view(r@) =~= s0.after_undo_split().1);
        r
    }

    /// Saves the run, but only once the attempt is complete.
    pub fn save_pb(&self) -> (r: Vec<StoreRequest>)
        ensures
            requests_view(r@) == (if self@.complete() {
                seq![StoreRequestView::SaveRun(self@.run)]
            } else {
                Seq::empty()
            }),
    {
        let mut r: Vec<StoreRequest> = Vec::new();
        if self.current_split == self.run.splits.len() {
            r.push(StoreRequest::SaveRun(self.run.clone()));
        }
        assert(requests_view(r@) =~= (if self@.complete() {
            seq![StoreRequestView::SaveRun(self@.run)]
        } else {
            Seq::empty()
        }));
        r
    }

    /// Saves the run.
    pub fn save(&self) -> (r: Vec<StoreRequest>)
        ensures
            requests_view(r@) == seq![StoreRequestView::SaveRun(self@.run)],
    {
        let mut r: Vec<StoreRequest> = Vec::new();
        r.push(StoreRequest::SaveRun(self.run.clone()));
        assert(requests_view(r@) =~= seq![StoreRequestView::SaveRun(self@.run)]);
        r
    }

    /// Undoes the whole attempt: the run's splits return to the snapshot taken
    /// when it started, the run is saved, and the state is reset.
    pub fn undo_pb(&mut self) -> (r: Vec<StoreRequest>)
        requires
            old(self)@.wf(),
        ensures
            final(self)@.wf(),
            (final(self)@, requests_view(r@)) == old(self)@.after_undo_pb(),
    {
        let ghost s0 = self@;
        self.run.splits = clone_splits(&self.splits_backup);
        let mut r = self.save();
        let ghost saved = requests_view(r@);
        let mut rest = self.reset_splits();
        let ghost reset = requests_view(rest@);
        r.append(&mut rest);
        assert(requests_view(r@) =~= saved + reset);
        r
    }

    /// Takes in a freshly loaded run between attempts: it becomes the run, the
    /// working splits and the snapshot, and the attempt index and page return
    /// to the start. Ignored once the stopwatch has started.
    pub fn reload_run(&mut self, run: Run)
        requires
            old(self)@.wf(),
        ensures
            final(self)@.wf(),
            old(self).timer.state != TimerState::NotStarted ==> final(self)@ == old(self)@,
            old(self).timer.state == TimerState::NotStarted ==> final(self)@ == (AppStateView {
                run: run@,
                display: run@.splits,
                backup: run@.splits,
                current_split: 0,
                current_page: 0,
                ..old(self)@
            }),
    {
        if self.timer.state == TimerState::NotStarted {
            self.splits_display = clone_splits(&run.splits);
            self.splits_backup = clone_splits(&run.splits);
            self.run = run;
            self.current_split = 0;
            self.current_page = 0;
            self.update_page();
        }
    }

    /// Shows the next page of splits, if there is one.
    pub fn next_page(&mut self)
        requires
            old(self)@.wf(),
        ensures
            final(self)@ == (AppStateView {
                current_page: if old(self).current_page + 1 < page_count(
                    old(self).run.splits.len() as int,
                    old(self).splits_per_page as int,
                ) {
                    (old(self).current_page + 1) as usize
                } else {
                    old(self).current_page
                },
                ..old(self)@
            }),
    {
        let len = self.run.splits.len();
        let full = len / self.splits_per_page;
        let has_next = if len % self.splits_per_page != 0 {
            self.current_page < full
        } else {
            full > 0 && self.current_page < full - 1
        };
        if has_next {
            self.current_page = self.current_page + 1;
        }
    }

    /// Shows the previous page of splits, if there is one.
    pub fn prev_page(&mut self)
        ensures
            final(self)@ == (AppStateView {
                current_page: if old(self).current_page > 0 {
                    (old(self).current_page - 1) as usize
                } else {
                    0
                },
                ..old(self)@
            }),
    {
        if self.current_page > 0 {
            self.current_page = self.current_page - 1;
        }
    }

    /// Shows or hides the help.
    pub fn toggle_help(&mut self)
        ensures
            final(self)@ == (AppStateView { show_help: !old(self).show_help, ..old(self)@ }),
    {
        self.show_help = !self.show_help;
    }

    /// Sum of best: the sum of the run's current gold times, missing ones
    /// counting as zero (saturating at the bounds of `i64`).
    pub fn sum_of_best(&self) -> (r: i64)
        ensures
            r == clamp_i64(gold_sum(self@.run.splits)),
    {
        let r = sum_gold_from(&self.run.splits, 0);
        assert(self@.run.splits.subrange(0, self@.run.splits.len() as int) =~= self@.run.splits);
        r
    }

    /// Best possible time: the time at the last completed split plus the gold
    /// times of the splits still ahead (saturating at the bounds of `i64`).
    pub fn best_possible_time(&self) -> (r: i64)
        ensures
            r == clamp_i64(
                self@.time_so_far() + clamp_i64(
                    gold_sum(
                        self@.run.splits.subrange(
                            if self.current_split <= self.run.splits.len() {
                                self.current_split as int
                            } else {
                                self.run.splits.len() as int
                            },
                            self.run.splits.len() as int,
                        ),
                    ),
                ),
            ),
    {
        let c = self.current_split;
        let so_far: i64 = if c > 0 && c - 1 < self.splits_display.len() {
            assert(self@.display[c - 1] == self.splits_display@[c - 1]@);
            match self.splits_display[c - 1].last_time {
                Some(t) => t,
                None => 0,
            }
        } else {
            0
        };
        let remaining = sum_gold_from(&self.run.splits, c);
        saturating_add_i64(so_far, remaining)
    }

    /// Personal-best total: the sum of the run's personal-best times when
    /// every split has one (saturating at the bounds of `i64`), else `None`.
    pub fn personal_best_total(&self) -> (r: Option<i64>)
        ensures
            r == (if all_have_pb(self@.run.splits) {
                Some(clamp_i64(pb_sum(self@.run.splits)) as i64)
            } else {
                None::<i64>
            }),
    {
        pb_total(&self.run.splits)
    }

    /// The start command at clock time `now`: the stopwatch starts afresh
    /// with the run's offset, whatever state it was in; nothing else changes.
    pub fn start_timer_at(&mut self, now: i64)
        ensures
            final(self)@ == (AppStateView {
                timer: old(self).timer.started_at(now, old(self)@.offset()),
                ..old(self)@
            }),
            old(self)@.wf() ==> final(self)@.wf(),
    {
        let offset = match self.run.start_offset {
            Some(o) => o,
            None => 0,
        };
        self.timer.start_with_offset_at(now, offset);
    }

    /// The start command, at the current clock time.
    pub fn start_timer(&mut self)
        ensures
            exists|now: i64|
                now >= 0 && final(self)@ == (AppStateView {
                    timer: #[trigger] old(self).timer.started_at(now, old(self)@.offset()),
                    ..old(self)@
                }),
    {
        let now = now_millis();
        self.start_timer_at(now);
    }

    /// The pause command at clock time `now`; nothing but the stopwatch changes.
    pub fn pause_timer_at(&mut self, now: i64)
        ensures
            final(self)@ == (AppStateView { timer: old(self).timer.paused_at(now), ..old(self)@ }),
            old(self)@.wf() ==> final(self)@.wf(),
    {
        self.timer.pause_at(now);
    }

    /// The pause command, at the current clock time.
    pub fn pause_timer(&mut self)
        ensures
            exists|now: i64|
                now >= 0 && final(self)@ == (AppStateView {
                    timer: #[trigger] old(self).timer.paused_at(now),
                    ..old(self)@
                }),
    {
        let now = now_millis();
        self.pause_timer_at(now);
    }

    /// A duration as text; see [`format_duration`].
    pub fn format_duration(&self, dur: i64, sign_mode: u8) -> (r: String)
        ensures
            r@ == duration_text(dur, sign_mode),
    {
        format_duration(dur, sign_mode)
    }

    /// The recorded time of working split `k`, zero where it has none or
    /// does not exist.
    fn recorded_or_zero(&self, k: usize) -> (r: i64)
        ensures
            r == self@.recorded_or_zero(k as int),
    {
        if k < self.splits_display.len() {
            assert(self@.display[k as int] == self.splits_display@[k as int]@);
            match self.splits_display[k].last_time {
                Some(t) => t,
                None => 0,
            }
        } else {
            0
        }
    }

    /// What working split `i` is compared with.
    fn reference(&self, i: usize) -> (r: Option<i64>)
        requires
            i < self.splits_display.len(),
        ensures
            r == self@.reference(i as int),
    {
        assert(self@.display[i as int] == self.splits_display@[i as int]@);
        let t = if self.run.gold_split {
            self.splits_display[i].gold_time
        } else {
            self.splits_display[i].pb_time
        };
        match t {
            Some(t) => if t > 0 {
                Some(t)
            } else {
                None
            },
            None => None,
        }
    }

    /// How far the segment recorded for split `i` is from its gold time (gold
    /// mode) or personal best; `None` without a recorded time or a positive
    /// reference, and for an exact match in gold mode.
    pub fn split_delta(&self, i: usize) -> (r: Option<i64>)
        ensures
            r == self@.split_delta(i as int),
    {
        if i >= self.splits_display.len() || self.splits_display[i].last_time.is_none() {
            proof {
                if i < self.splits_display.len() {
                    assert(self@.display[i as int] == self.splits_display@[i as int]@);
                }
            }
            return None;
        }
        assert(self@.display[i as int] == self.splits_display@[i as int]@);
        match self.reference(i) {
            Some(t) => {
                let d = saturating_sub_i64(segment_at(&self.splits_display, i), t);
                if self.run.gold_split && d == 0 {
                    None
                } else {
                    Some(d)
                }
            },
            None => None,
        }
    }

    /// The time spent so far in the current split at clock time `now`.
    pub fn live_segment_at(&self, now: i64) -> (r: Option<i64>)
        ensures
            r == self@.live_segment(now),
    {
        let c = self.current_split;
        let reading = self.timer.current_time_at(now);
        if self.timer.state == TimerState::Running && reading >= 0 && c < self.splits_display.len() {
            assert(self@.display[c as int] == self.splits_display@[c as int]@);
            if self.splits_display[c].last_time.is_none() {
                let start = if c == 0 {
                    0
                } else {
                    self.recorded_or_zero(c - 1)
                };
                return Some(saturating_sub_i64(reading, start));
            }
        }
        None
    }

    /// How far the live segment at clock time `now` is from the current
    /// split's reference, once within the live window of it.
    pub fn live_delta_at(&self, now: i64) -> (r: Option<i64>)
        ensures
            r == self@.live_delta(now),
    {
        match self.live_segment_at(now) {
            Some(seg) => {
                match self.reference(self.current_split) {
                    Some(t) => {
                        let d = saturating_sub_i64(seg, t);
                        if d >= -LIVE_DELTA_WINDOW {
                            Some(d)
                        } else {
                            None
                        }
                    },
                    None => None,
                }
            },
            None => None,
        }
    }

    /// The segment of the last completed split compared with that split's
    /// personal best and gold time (a missing one counting as zero): the pair
    /// of differences, against the personal best first.
    pub fn previous_segment_deltas(&self) -> (r: (i64, i64))
        ensures
            ({
                let c = self.current_split as int;
                let k = if c > 0 { c - 1 } else { 0 };
                let pb = if k < self@.display.len() {
                    match self@.display[k].pb_time {
                        Some(t) => t as int,
                        None => 0,
                    }
                } else {
                    0
                };
                let gold = if k < self@.display.len() {
                    match self@.display[k].gold_time {
                        Some(t) => t as int,
                        None => 0,
                    }
                } else {
                    0
                };
                r == (clamp_i64(self@.last_segment() - pb) as i64, clamp_i64(self@.last_segment() - gold) as i64)
            }),
    {
        let c = self.current_split;
        let relative: i64 = if c > 0 {
            let current = self.recorded_or_zero(c - 1);
            let previous = if c >= 2 {
                self.recorded_or_zero(c - 2)
            } else {
                0
            };
            saturating_sub_i64(current, previous)
        } else {
            0
        };
        let k = if c > 0 {
            c - 1
        } else {
            0
        };
        let (pb, gold): (i64, i64) = if k < self.splits_display.len() {
            assert(self@.display[k as int] == self.splits_display@[k as int]@);
            (
                match self.splits_display[k].pb_time {
                    Some(t) => t,
                    None => 0,
                },
                match self.splits_display[k].gold_time {
                    Some(t) => t,
                    None => 0,
                },
            )
        } else {
            (0, 0)
        };
        (saturating_sub_i64(relative, pb), saturating_sub_i64(relative, gold))
    }
}

} // verus!
