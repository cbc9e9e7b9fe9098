use vstd::prelude::*;

use crate::clock::clamp_i64;

verus! {

/// One entry of a split's gold or personal-best log.
#[derive(Debug, Clone, Copy, PartialEq, Eq, Structural)]
pub struct SegmentHistoryEntry {
    pub run_index: u32,
    pub time: Option<i64>,
}

/// One entry of a run's attempt log; `date` is in milliseconds since the Unix epoch.
#[derive(Debug, Clone, Copy, PartialEq, Eq, Structural)]
pub struct AttemptHistoryEntry {
    pub run_index: u32,
    pub total_time: Option<i64>,
    pub ingame_time: Option<i64>,
    pub ended: bool,
    pub date: Option<i64>,
}

/// One checkpoint of a run. `pb_time`, `gold_time` and `last_time` are in
/// milliseconds; `last_time` belongs to the attempt in progress.
#[derive(Debug)]
pub struct Split {
    pub name: String,
    pub pb_time: Option<i64>,
    pub last_time: Option<i64>,
    pub gold_time: Option<i64>,
    pub icon_path: Option<String>,
    pub gold_history: Vec<SegmentHistoryEntry>,
    pub pb_history: Vec<SegmentHistoryEntry>,
}

/// The mathematical value of a [`Split`].
pub struct SplitView {
    pub name: Seq<char>,
    pub pb_time: Option<i64>,
    pub last_time: Option<i64>,
    pub gold_time: Option<i64>,
    pub icon_path: Option<Seq<char>>,
    pub gold_history: Seq<SegmentHistoryEntry>,
    pub pb_history: Seq<SegmentHistoryEntry>,
}

impl View for Split {
    type V = SplitView;

    open spec fn view(&self) -> SplitView {
        SplitView {
            name: self.name@,
            pb_time: self.pb_time,
            last_time: self.last_time,
            gold_time: self.gold_time,
            icon_path: match self.icon_path {
                Some(p) => Some(p@),
                None => None,
            },
            gold_history: self.gold_history@,
            pb_history: self.pb_history@,
        }
    }
}

/// The views of a sequence of splits.
pub open spec fn splits_view(s: Seq<Split>) -> Seq<SplitView> {
    s.map_values(|x: Split| x@)
}

/// A copy of a log whose entries are plain values.
fn copy_entries<T: Copy>(v: &Vec<T>) -> (r: Vec<T>)
    ensures
        r@ == v@,
{
    let mut r: Vec<T> = Vec::new();
    let mut i: usize = 0;
    while i < v.len()
        invariant
            i <= v.len(),
            r@ == v@.subrange(0, i as int),
        decreases v.len() - i,
    {
        r.push(v[i]);
        i += 1;
    }
    assert(r@ =~= v@);
    r
}

impl Clone for Split {
    fn clone(&self) -> (r: Self)
        ensures
            r@ == self@,
    {
        Split {
            name: self.name.clone(),
            pb_time: self.pb_time,
            last_time: self.last_time,
            gold_time: self.gold_time,
            icon_path: match &self.icon_path {
                Some(p) => Some(p.clone()),
                None => None,
            },
            gold_history: copy_entries(&self.gold_history),
            pb_history: copy_entries(&self.pb_history),
        }
    }
}

/// A copy of a list of splits.
pub fn clone_splits(v: &Vec<Split>) -> (r: Vec<Split>)
    ensures
        splits_view(r@) == splits_view(v@),
{
    let mut r: Vec<Split> = Vec::new();
    let mut i: usize = 0;
    while i < v.len()
        invariant
            i <= v.len(),
            r.len() == i,
            forall|j: int| 0 <= j < i ==> #[trigger] r@[j]@ == v@[j]@,
        decreases v.len() - i,
    {
        let s = v[i].clone();
        r.push(s);
        i += 1;
    }
    assert(splits_view(r@) =~= splits_view(v@));
    r
}

impl Split {
    /// A split with the given name and no recorded times.
    pub open spec fn fresh(name: Seq<char>) -> SplitView {
        SplitView {
            name,
            pb_time: None,
            last_time: None,
            gold_time: None,
            icon_path: None,
            gold_history: Seq::empty(),
            pb_history: Seq::empty(),
        }
    }

    /// A split with the given name and no recorded times.
    pub fn named(name: String) -> (r: Split)
        ensures
            r@ == Split::fresh(name@),
    {
        Split {
            name,
            pb_time: None,
            last_time: None,
            gold_time: None,
            icon_path: None,
            gold_history: Vec::new(),
            pb_history: Vec::new(),
        }
    }
}

impl Default for Split {
    fn default() -> (r: Split)
        ensures
            r@ == Split::fresh("New Split"@),
    {
        Split::named(String::from_str("New Split"))
    }
}


/// Whether `c` has Unicode's White_Space property (the characters that
/// `char::is_whitespace` accepts and `str::trim` removes).
pub open spec fn is_white_space(c: char) -> bool {
    let u = c as u32;
    (0x9 <= u <= 0xD) || u == 0x20 || u == 0x85 || u == 0xA0 || u == 0x1680 || (0x2000 <= u
        <= 0x200A) || u == 0x2028 || u == 0x2029 || u == 0x202F || u == 0x205F || u == 0x3000
}

/// Whether `c` has Unicode's White_Space property.
pub fn is_whitespace_char(c: char) -> (r: bool)
    ensures
        r == is_white_space(c),
{
    let u = c as u32;
    (0x9 <= u && u <= 0xD) || u == 0x20 || u == 0x85 || u == 0xA0 || u == 0x1680 || (0x2000 <= u
        && u <= 0x200A) || u == 0x2028 || u == 0x2029 || u == 0x202F || u == 0x205F || u == 0x3000
}

/// Whether a name holds nothing but whitespace (so it trims to nothing).
pub open spec fn is_blank(s: Seq<char>) -> bool {
    forall|i: int| 0 <= i < s.len() ==> is_white_space(#[trigger] s[i])
}

/// Whether `s` holds nothing but whitespace.
pub fn blank(s: &str) -> (r: bool)
    ensures
        r == is_blank(s@),
{
    let n = s.unicode_len();
    let mut i: usize = 0;
    while i < n
        invariant
            n == s@.len(),
            i <= n,
            forall|j: int| 0 <= j < i ==> is_white_space(#[trigger] s@[j]),
        decreases n - i,
    {
        if !is_whitespace_char(s.get_char(i)) {
            return false;
        }
        i += 1;
    }
    true
}

/// The full definition of a speedrun category: its checkpoints in order,
/// settings, and attempt logs.
#[derive(Debug)]
pub struct Run {
    pub title: String,
    pub category: String,
    pub attempts: u32,
    pub splits: Vec<Split>,
    pub start_offset: Option<i64>,
    pub splits_per_page: Option<usize>,
    pub auto_update_pb: bool,
    pub gold_split: bool,
    pub attempt_history: Vec<AttemptHistoryEntry>,
    pub pb_history: Vec<AttemptHistoryEntry>,
}

/// The mathematical value of a [`Run`].
pub struct RunView {
    pub title: Seq<char>,
    pub category: Seq<char>,
    pub attempts: u32,
    pub splits: Seq<SplitView>,
    pub start_offset: Option<i64>,
    pub splits_per_page: Option<usize>,
    pub auto_update_pb: bool,
    pub gold_split: bool,
    pub attempt_history: Seq<AttemptHistoryEntry>,
    pub pb_history: Seq<AttemptHistoryEntry>,
}

impl View for Run {
    type V = RunView;

    open spec fn view(&self) -> RunView {
        RunView {
            title: self.title@,
            category: self.category@,
            attempts: self.attempts,
            splits: splits_view(self.splits@),
            start_offset: self.start_offset,
            splits_per_page: self.splits_per_page,
            auto_update_pb: self.auto_update_pb,
            gold_split: self.gold_split,
            attempt_history: self.attempt_history@,
            pb_history: self.pb_history@,
        }
    }
}

impl Clone for Run {
    fn clone(&self) -> (r: Self)
        ensures
            r@ == self@,
    {
        Run {
            title: self.title.clone(),
            category: self.category.clone(),
            attempts: self.attempts,
            splits: clone_splits(&self.splits),
            start_offset: self.start_offset,
            splits_per_page: self.splits_per_page,
            auto_update_pb: self.auto_update_pb,
            gold_split: self.gold_split,
            attempt_history: copy_entries(&self.attempt_history),
            pb_history: copy_entries(&self.pb_history),
        }
    }
}

/// The name given to the `i`-th of `names` in a new run: a blank last name
/// becomes "Final Boss".
pub open spec fn new_split_name(names: Seq<Seq<char>>, i: int) -> Seq<char> {
    if i == names.len() - 1 && is_blank(names[i]) {
        "Final Boss"@
    } else {
        names[i]
    }
}

/// The splits of a run with times removed: every `last_time` cleared.
pub open spec fn without_last_times(s: Seq<SplitView>) -> Seq<SplitView> {
    s.map_values(|x: SplitView| SplitView { last_time: None, ..x })
}

/// The splits after the `i`-th gold time is replaced by the `i`-th of `golds`,
/// for every index that both have.
pub open spec fn with_gold_times(s: Seq<SplitView>, golds: Seq<Option<i64>>) -> Seq<SplitView> {
    Seq::new(
        s.len(),
        |i: int|
            if i < golds.len() {
                SplitView { gold_time: golds[i], ..s[i] }
            } else {
                s[i]
            },
    )
}

/// The gold time of a split, zero where there is none.
pub open spec fn gold_or_zero(s: SplitView) -> int {
    match s.gold_time {
        Some(g) => g as int,
        None => 0,
    }
}

/// The sum of the gold times of `s`, missing ones counting as zero.
pub open spec fn gold_sum(s: Seq<SplitView>) -> int
    decreases s.len(),
{
    if s.len() == 0 {
        0
    } else {
        gold_sum(s.drop_last()) + gold_or_zero(s.last())
    }
}

/// Whether every split of `s` has a personal-best time.
pub open spec fn all_have_pb(s: Seq<SplitView>) -> bool {
    forall|i: int| 0 <= i < s.len() ==> (#[trigger] s[i]).pb_time is Some
}

/// The sum of the personal-best times of `s`, missing ones counting as zero.
pub open spec fn pb_sum(s: Seq<SplitView>) -> int
    decreases s.len(),
{
    if s.len() == 0 {
        0
    } else {
        pb_sum(s.drop_last()) + match s.last().pb_time {
            Some(p) => p as int,
            None => 0,
        }
    }
}

/// The sum of the gold times of `splits[from..]` (nothing where `from` is past
/// the end), saturating at the bounds of `i64`.
pub fn sum_gold_from(splits: &Vec<Split>, from: usize) -> (r: i64)
    ensures
        r == clamp_i64(
            gold_sum(
                splits_view(splits@).subrange(
                    if from <= splits.len() { from as int } else { splits.len() as int },
                    splits.len() as int,
                ),
            ),
        ),
{
    let ghost v = splits_view(splits@);
    let start: usize = if from <= splits.len() { from } else { splits.len() };
    let mut acc: i128 = 0;
    let mut i: usize = start;
    while i < splits.len()
        invariant
            start <= i <= splits.len(),
            v == splits_view(splits@),
            acc == gold_sum(v.subrange(start as int, i as int)),
            (i - start) * (i64::MIN as int) <= acc <= (i - start) * (i64::MAX as int),
        decreases splits.len() - i,
    {
        proof {
            assert(v.subrange(start as int, i + 1).drop_last() =~= v.subrange(start as int, i as int));
        }
        if let Some(g) = splits[i].gold_time {
            acc = acc + g as i128;
        }
        i += 1;
    }
    if acc < i64::MIN as i128 {
        i64::MIN
    } else if acc > i64::MAX as i128 {
        i64::MAX
    } else {
        acc as i64
    }
}

/// The sum of the personal-best times of `splits` when every split has one
/// (saturating at the bounds of `i64`), else `None`.
pub fn pb_total(splits: &Vec<Split>) -> (r: Option<i64>)
    ensures
        r == (if all_have_pb(splits_view(splits@)) {
            Some(clamp_i64(pb_sum(splits_view(splits@))) as i64)
        } else {
            None::<i64>
        }),
{
    let ghost v = splits_view(splits@);
    let mut acc: i128 = 0;
    let mut i: usize = 0;
    while i < splits.len()
        invariant
            i <= splits.len(),
            v == splits_view(splits@),
            acc == pb_sum(v.subrange(0, i as int)),
            all_have_pb(v.subrange(0, i as int)),
            i * (i64::MIN as int) <= acc <= i * (i64::MAX as int),
        decreases splits.len() - i,
    {
        proof {
            assert(v.subrange(0, i + 1).drop_last() =~= v.subrange(0, i as int));
        }
        match splits[i].pb_time {
            Some(p) => {
                acc = acc + p as i128;
            },
            None => {
                assert(v[i as int].pb_time is None);
                assert(!all_have_pb(v));
                return None;
            },
        }
        i += 1;
        proof {
            assert forall|j: int| 0 <= j < i implies (#[trigger] v.subrange(0, i as int)[j]).pb_time is Some by {
                if j < i - 1 {
                    assert(v.subrange(0, i - 1)[j] == v.subrange(0, i as int)[j]);
                }
            }
        }
    }
    assert(v.subrange(0, i as int) =~= v);
    if acc < i64::MIN as i128 {
        Some(i64::MIN)
    } else if acc > i64::MAX as i128 {
        Some(i64::MAX)
    } else {
        Some(acc as i64)
    }
}

impl Run {
    /// A run with one fresh split per name (a blank last name becomes
    /// "Final Boss"), five splits per page, and auto-saved gold and PB times.
    pub fn new(title: &str, category: &str, names: &[&str]) -> (r: Run)
        ensures
            r@.title == title@,
            r@.category == category@,
            r@.attempts == 0,
            r@.splits.len() == names@.len(),
            forall|i: int|
                0 <= i < names@.len() ==> #[trigger] r@.splits[i] == Split::fresh(
                    new_split_name(names@.map_values(|n: &str| n@), i),
                ),
            r@.start_offset is None,
            r@.splits_per_page == Some(5usize),
            r@.auto_update_pb,
            r@.gold_split,
            r@.attempt_history.len() == 0,
            r@.pb_history.len() == 0,
    {
        let ghost ns = names@.map_values(|n: &str| n@);
        let mut splits: Vec<Split> = Vec::new();
        let mut i: usize = 0;
        while i < names.len()
            invariant
                i <= names@.len(),
                ns == names@.map_values(|n: &str| n@),
                splits@.len() == i,
                forall|j: int| 0 <= j < i ==> #[trigger] splits@[j]@ == Split::fresh(new_split_name(ns, j)),
            decreases names.len() - i,
        {
            let name = names[i];
            let s = if i + 1 == names.len() && blank(name) {
                String::from_str("Final Boss")
            } else {
                String::from_str(name)
            };
            splits.push(Split::named(s));
            i += 1;
        }
        Run {
            title: String::from_str(title),
            category: String::from_str(category),
            attempts: 0,
            splits,
            start_offset: None,
            splits_per_page: Some(5),
            auto_update_pb: true,
            gold_split: true,
            attempt_history: Vec::new(),
            pb_history: Vec::new(),
        }
    }

    /// The gold time of every split, in order.
    pub fn gold_times(&self) -> (r: Vec<Option<i64>>)
        ensures
            r@.len() == self@.splits.len(),
            forall|i: int| 0 <= i < r@.len() ==> r@[i] == #[trigger] self@.splits[i].gold_time,
    {
        let mut r: Vec<Option<i64>> = Vec::new();
        let mut i: usize = 0;
        while i < self.splits.len()
            invariant
                i <= self.splits.len(),
                r@.len() == i,
                forall|j: int| 0 <= j < i ==> r@[j] == #[trigger] self@.splits[j].gold_time,
            decreases self.splits.len() - i,
        {
            r.push(self.splits[i].gold_time);
            i += 1;
        }
        r
    }

    /// Overwrites the gold time of each split with the one at the same index
    /// of `golds`, for every index that both have; nothing else changes.
    pub fn apply_gold_times(&mut self, golds: &Vec<Option<i64>>)
        ensures
            final(self)@ == (RunView { splits: with_gold_times(old(self)@.splits, golds@), ..old(self)@ }),
    {
        let ghost s0 = old(self)@.splits;
        let mut i: usize = 0;
        while i < self.splits.len() && i < golds.len()
            invariant
                i <= self.splits.len(),
                i <= golds.len(),
                self.splits.len() == s0.len(),
                self@ == (RunView { splits: self@.splits, ..old(self)@ }),
                forall|j: int|
                    0 <= j < s0.len() ==> (#[trigger] self.splits@[j])@ == (if j < i {
                        with_gold_times(s0, golds@)[j]
                    } else {
                        s0[j]
                    }),
            decreases self.splits.len() - i,
        {
            self.splits[i].gold_time = golds[i];
            i += 1;
        }
        assert(self@.splits =~= with_gold_times(s0, golds@));
    }

    /// Clears the `last_time` of every split; nothing else changes.
    pub fn clear_last_times(&mut self)
        ensures
            final(self)@ == (RunView { splits: without_last_times(old(self)@.splits), ..old(self)@ }),
    {
        let ghost s0 = old(self)@.splits;
        let mut i: usize = 0;
        while i < self.splits.len()
            invariant
                i <= self.splits.len(),
                self.splits.len() == s0.len(),
                self@ == (RunView { splits: self@.splits, ..old(self)@ }),
                forall|j: int|
                    0 <= j < s0.len() ==> (#[trigger] self.splits@[j])@ == (if j < i {
                        without_last_times(s0)[j]
                    } else {
                        s0[j]
                    }),
            decreases self.splits.len() - i,
        {
            self.splits[i].last_time = None;
            i += 1;
        }
        assert(self@.splits =~= without_last_times(s0));
    }
}

impl Run {
    /// Appends a split named "New split" with no times.
    pub fn add_split(&mut self)
        ensures
            final(self)@ == (RunView {
                splits: old(self)@.splits.push(Split::fresh("New split"@)),
                ..old(self)@
            }),
    {
        self.splits.push(Split::named(String::from_str("New split")));
        assert(self@.splits =~= old(self)@.splits.push(Split::fresh("New split"@)));
    }

    /// Removes the split at `index`.
    pub fn remove_split(&mut self, index: usize)
        requires
            index < old(self).splits.len(),
        ensures
            final(self)@ == (RunView { splits: old(self)@.splits.remove(index as int), ..old(self)@ }),
    {
        self.splits.remove(index);
        assert(self@.splits =~= old(self)@.splits.remove(index as int));
    }

    /// Exchanges the splits at `from` and `to`.
    pub fn swap_splits(&mut self, from: usize, to: usize)
        requires
            from < old(self).splits.len(),
            to < old(self).splits.len(),
        ensures
            final(self)@ == (RunView {
                splits: old(self)@.splits.update(from as int, old(self)@.splits[to as int]).update(
                    to as int,
                    old(self)@.splits[from as int],
                ),
                ..old(self)@
            }),
    {
        let ghost s0 = old(self)@.splits;
        if from != to {
            let (lo, hi) = if from < to {
                (from, to)
            } else {
                (to, from)
            };
            let b = self.splits.remove(hi);
            let a = self.splits.remove(lo);
            self.splits.insert(lo, b);
            self.splits.insert(hi, a);
        }
        assert(self@.splits =~= s0.update(from as int, s0[to as int]).update(to as int, s0[from as int]));
    }

    /// Clears every history log and the attempt counter; nothing else changes.
    pub fn clear_history(&mut self)
        ensures
            final(self)@ == (RunView {
                attempt_history: Seq::empty(),
                pb_history: Seq::empty(),
                attempts: 0,
                splits: old(self)@.splits.map_values(
                    |x: SplitView| SplitView { pb_history: Seq::empty(), gold_history: Seq::empty(), ..x },
                ),
                ..old(self)@
            }),
    {
        self.attempt_history.clear();
        self.pb_history.clear();
        self.attempts = 0;
        let ghost s0 = old(self)@.splits;
        let ghost target = s0.map_values(
            |x: SplitView| SplitView { pb_history: Seq::empty(), gold_history: Seq::empty(), ..x },
        );
        let mut i: usize = 0;
        while i < self.splits.len()
            invariant
                i <= self.splits.len(),
                self.splits.len() == s0.len(),
                target == s0.map_values(
                    |x: SplitView| SplitView { pb_history: Seq::empty(), gold_history: Seq::empty(), ..x },
                ),
                self@ == (RunView {
                    attempt_history: Seq::empty(),
                    pb_history: Seq::empty(),
                    attempts: 0,
                    splits: self@.splits,
                    ..old(self)@
                }),
                forall|j: int|
                    0 <= j < s0.len() ==> (#[trigger] self.splits@[j])@ == (if j < i {
                        target[j]
                    } else {
                        s0[j]
                    }),
            decreases self.splits.len() - i,
        {
            self.splits[i].pb_history.clear();
            self.splits[i].gold_history.clear();
            proof {
                assert(self.splits@[i as int].pb_history@ =~= Seq::<SegmentHistoryEntry>::empty());
                assert(self.splits@[i as int].gold_history@ =~= Seq::<SegmentHistoryEntry>::empty());
            }
            i += 1;
        }
        assert(self@.splits =~= target);
    }
}

impl Default for Run {
    fn default() -> (r: Run)
        ensures
            r@.title == "New Run"@,
            r@.category == "Category"@,
            r@.splits.len() == 2,
            r@.splits[0] == Split::fresh("Split 1"@),
            r@.splits[1] == Split::fresh("Split 2"@),
            r@.attempts == 0,
            r@.start_offset is None,
            r@.splits_per_page == Some(5usize),
            r@.auto_update_pb,
            r@.gold_split,
            r@.attempt_history.len() == 0,
            r@.pb_history.len() == 0,
    {
        let names: [&str; 2] = ["Split 1", "Split 2"];
        let r = Run::new("New Run", "Category", names.as_slice());
        proof {
            reveal_strlit("Split 2");
            assert(!is_white_space("Split 2"@[0]));
        }
        r
    }
}

} // verus!
