//! The run being timed and the split list panel's bookkeeping.
//!
//! Segment names encode grouping: a name starting with `-` belongs to a
//! subsplit group, and the group's final segment carries the group title in
//! braces (`{Title} Last`).  This module derives the displayed names, the
//! grouping, and which rows of the split list are visible; drawing the rows
//! and formatting times happens outside this crate.  Split times enter this
//! module as whole milliseconds.

use vstd::prelude::*;

use crate::components::Accuracy;
use crate::text::{spec_find, find_char};
use crate::timer::TimerPhase;

verus! {

/// What the timer needs to know of the loaded run.  `attempt_history`
/// records, per past attempt, whether it finished with a real time.
pub struct RunModel {
    pub game_name: String,
    pub category_name: String,
    pub attempt_count: u32,
    pub segment_names: Vec<String>,
    pub attempt_history: Vec<bool>,
}

/// How many past attempts finished.
pub open spec fn count_finished(h: Seq<bool>) -> int
    decreases h.len(),
{
    if h.len() == 0 {
        0int
    } else {
        count_finished(h.drop_last()) + if h.last() {
            1int
        } else {
            0int
        }
    }
}

/// The run a fresh timer starts with: one segment, placeholder names.
pub fn get_default_run() -> (r: RunModel)
    ensures
        r.game_name@ == "Game"@,
        r.category_name@ == "Any%"@,
        r.attempt_count == 0,
        r.segment_names@.len() == 1,
        r.segment_names@[0]@ == "Time"@,
        r.attempt_history@.len() == 0,
{
    let mut segment_names: Vec<String> = Vec::new();
    segment_names.push(String::from_str("Time"));
    RunModel {
        game_name: String::from_str("Game"),
        category_name: String::from_str("Any%"),
        attempt_count: 0,
        segment_names,
        attempt_history: Vec::new(),
    }
}

impl RunModel {
    pub fn set_game_name(&mut self, name: String)
        ensures
            final(self).game_name == name,
            final(self).category_name == old(self).category_name,
            final(self).attempt_count == old(self).attempt_count,
            final(self).segment_names == old(self).segment_names,
            final(self).attempt_history == old(self).attempt_history,
    {
        self.game_name = name;
    }

    pub fn set_category_name(&mut self, name: String)
        ensures
            final(self).category_name == name,
            final(self).game_name == old(self).game_name,
            final(self).attempt_count == old(self).attempt_count,
            final(self).segment_names == old(self).segment_names,
            final(self).attempt_history == old(self).attempt_history,
    {
        self.category_name = name;
    }

    pub fn set_attempt_count(&mut self, count: u32)
        ensures
            final(self).attempt_count == count,
            final(self).game_name == old(self).game_name,
            final(self).category_name == old(self).category_name,
            final(self).segment_names == old(self).segment_names,
            final(self).attempt_history == old(self).attempt_history,
    {
        self.attempt_count = count;
    }

    pub fn push_segment(&mut self, name: String)
        ensures
            final(self).segment_names@ == old(self).segment_names@.push(name),
            final(self).game_name == old(self).game_name,
            final(self).category_name == old(self).category_name,
            final(self).attempt_count == old(self).attempt_count,
            final(self).attempt_history == old(self).attempt_history,
    {
        self.segment_names.push(name);
    }

    /// Remove one segment; a run always keeps at least one.
    pub fn remove_segment(&mut self, idx: usize)
        requires
            old(self).segment_names@.len() > 1,
            idx < old(self).segment_names@.len(),
        ensures
            final(self).segment_names@ == old(self).segment_names@.remove(idx as int),
            final(self).game_name == old(self).game_name,
            final(self).category_name == old(self).category_name,
            final(self).attempt_count == old(self).attempt_count,
            final(self).attempt_history == old(self).attempt_history,
    {
        self.segment_names.remove(idx);
    }

    /// Swap a segment with its successor.
    pub fn swap_segment_down(&mut self, idx: usize)
        requires
            idx + 1 < old(self).segment_names@.len(),
        ensures
            final(self).segment_names@ == old(self).segment_names@.update(
                idx as int,
                old(self).segment_names@[idx + 1],
            ).update(idx + 1, old(self).segment_names@[idx as int]),
            final(self).game_name == old(self).game_name,
            final(self).category_name == old(self).category_name,
            final(self).attempt_count == old(self).attempt_count,
            final(self).attempt_history == old(self).attempt_history,
    {
        let n = self.segment_names.len();
        assert(idx + 1 < n);
        let moved = self.segment_names.remove(idx);
        self.segment_names.insert(idx + 1, moved);
        proof {
            assert(final(self).segment_names@ =~= old(self).segment_names@.update(
                idx as int,
                old(self).segment_names@[idx + 1],
            ).update(idx + 1, old(self).segment_names@[idx as int]));
        }
    }
}

/// Whether a name starts with the given marker character.
pub open spec fn spec_starts_with(s: Seq<char>, c: char) -> bool {
    s.len() > 0 && s[0] == c
}

fn starts_with_char(s: &str, c: char) -> (r: bool)
    ensures
        r == spec_starts_with(s@, c),
{
    let n = s.unicode_len();
    if n == 0 {
        false
    } else {
        s.get_char(0) == c
    }
}

/// The displayed name of a non-header split: a leading `-` is stripped; a
/// leading `{...}` group title is removed entirely.
pub open spec fn trimmed_split_name(name: Seq<char>) -> Seq<char> {
    if spec_starts_with(name, '-') {
        name.subrange(1, name.len() as int)
    } else if spec_starts_with(name, '{') {
        match spec_find(name, '}') {
            Some(i) => name.subrange(i + 1, name.len() as int),
            None => name,
        }
    } else {
        name
    }
}

/// The displayed name of a group header: the text inside the braces when the
/// name carries one, the whole name otherwise.
pub open spec fn header_name(name: Seq<char>) -> Seq<char> {
    if spec_starts_with(name, '{') {
        match spec_find(name, '}') {
            Some(i) => name.subrange(1, i),
            None => name,
        }
    } else {
        name
    }
}

/// What `spec_find` returns is the first occurrence.
proof fn lemma_spec_find_is_first(s: Seq<char>, c: char)
    ensures
        match spec_find(s, c) {
            Some(i) => 0 <= i < s.len() && s[i] == c && forall|j: int| 0 <= j < i ==> s[j] != c,
            None => forall|j: int| 0 <= j < s.len() ==> s[j] != c,
        },
    decreases s.len(),
{
    if s.len() > 0 && s[0] != c {
        let sub = s.subrange(1, s.len() as int);
        lemma_spec_find_is_first(sub, c);
        match spec_find(sub, c) {
            Some(i) => {
                assert(sub[i] == s[i + 1]);
                assert forall|j: int| 0 <= j < i + 1 implies s[j] != c by {
                    if j > 0 {
                        assert(sub[j - 1] == s[j]);
                    }
                }
            },
            None => {
                assert forall|j: int| 0 <= j < s.len() implies s[j] != c by {
                    if j > 0 {
                        assert(sub[j - 1] == s[j]);
                    }
                }
            },
        }
    }
}

/// One row of the split list: which segment it compares against and the
/// name it displays.
pub struct SplitRenderer {
    pub comparison_index: usize,
    pub name: String,
}

impl SplitRenderer {
    /// The row for segment `idx`, displayed as a plain split.
    pub fn from_run_index(run: &RunModel, idx: usize) -> (r: Self)
        requires
            idx < run.segment_names@.len(),
        ensures
            r.comparison_index == idx,
            r.name@ == trimmed_split_name(run.segment_names@[idx as int]@),
    {
        let seg: &String = &run.segment_names[idx];
        let n = seg.as_str().unicode_len();
        let name: String = if starts_with_char(seg.as_str(), '-') {
            String::from_str(seg.as_str().substring_char(1, n))
        } else if starts_with_char(seg.as_str(), '{') {
            match find_char(seg.as_str(), '}') {
                Some(i) => {
                    proof {
                        lemma_spec_find_is_first(seg@, '}');
                    }
                    String::from_str(seg.as_str().substring_char(i + 1, n))
                },
                None => seg.clone(),
            }
        } else {
            seg.clone()
        };
        SplitRenderer { comparison_index: idx, name }
    }

    /// The row for segment `idx`, displayed as a group header.
    pub fn subsplit_header_from_run_index(run: &RunModel, idx: usize) -> (r: Self)
        requires
            idx < run.segment_names@.len(),
        ensures
            r.comparison_index == idx,
            r.name@ == header_name(run.segment_names@[idx as int]@),
    {
        let seg: &String = &run.segment_names[idx];
        let name: String = if starts_with_char(seg.as_str(), '{') {
            match find_char(seg.as_str(), '}') {
                Some(i) => {
                    proof {
                        lemma_spec_find_is_first(seg@, '}');
                    }
                    String::from_str(seg.as_str().substring_char(1, i))
                },
                None => seg.clone(),
            }
        } else {
            seg.clone()
        };
        SplitRenderer { comparison_index: idx, name }
    }
}

/// One display group: where it starts, its member rows (empty for a
/// stand-alone split), and its header row.
pub struct SubsplitContainer {
    pub start_idx: usize,
    pub splits: Vec<SplitRenderer>,
    pub header: SplitRenderer,
}

/// The run's segments partitioned into display groups, in order.
pub struct SubsplitMap {
    pub subsplits: Vec<SubsplitContainer>,
}

/// The segment index just past a display group: a stand-alone split covers
/// one segment; a group's member rows are its header plus one row per
/// covered segment.
pub open spec fn container_end(c: SubsplitContainer) -> int {
    if c.splits@.len() == 0 {
        c.start_idx + 1
    } else {
        c.start_idx + c.splits@.len() - 1
    }
}

/// The rows a correctly built display group holds for these segment names:
/// the header describes the group's closing segment; a stand-alone split
/// covers one unmarked segment; a group covers a maximal block of
/// `-`-marked segments plus the unmarked one that closes it, one trimmed
/// row each, with a copy of the header in front.
pub open spec fn container_matches(c: SubsplitContainer, names: Seq<String>) -> bool {
    &&& c.start_idx < names.len()
    &&& container_end(c) <= names.len()
    &&& c.header.comparison_index == container_end(c) - 1
    &&& c.header.name@ == header_name(names[container_end(c) - 1]@)
    &&& if c.splits@.len() == 0 {
        !spec_starts_with(names[c.start_idx as int]@, '-')
    } else {
        &&& c.splits@.len() >= 3
        &&& c.splits@[0].comparison_index == c.header.comparison_index
        &&& c.splits@[0].name@ == c.header.name@
        &&& forall|j: int|
            1 <= j < c.splits@.len() ==> (#[trigger] c.splits@[j]).comparison_index == c.start_idx
                + j - 1 && c.splits@[j].name@ == trimmed_split_name(
                names[c.start_idx + j - 1]@,
            )
        &&& forall|t: int|
            c.start_idx <= t < container_end(c) - 1 ==> spec_starts_with(
                (#[trigger] names[t])@,
                '-',
            )
        &&& !spec_starts_with(names[container_end(c) - 1]@, '-')
    }
}

/// `m` is exactly the grouping `from_run` builds for these segment names:
/// well-formed, tiling the run back to back from the first segment to the
/// last, each group's rows pinned by `container_matches`.
pub open spec fn spec_grouping_of(m: SubsplitMap, names: Seq<String>) -> bool {
    &&& m.wf()
    &&& (names.len() == 0 ==> m.subsplits@.len() == 0)
    &&& (names.len() > 0 ==> m.subsplits@.len() > 0 && m.subsplits@[0].start_idx == 0
        && container_end(m.subsplits@.last()) == names.len())
    &&& forall|k: int|
        0 <= k < m.subsplits@.len() ==> container_matches(#[trigger] m.subsplits@[k], names)
    &&& forall|k: int|
        0 <= k < m.subsplits@.len() - 1 ==> (#[trigger] m.subsplits@[k + 1].start_idx)
            == container_end(m.subsplits@[k])
}

impl SubsplitMap {
    /// Group starts are strictly increasing segment indices, beginning at
    /// the first segment.
    pub open spec fn wf(self) -> bool {
        &&& (self.subsplits@.len() > 0 ==> self.subsplits@[0].start_idx == 0)
        &&& forall|k: int|
            0 <= k < self.subsplits@.len() - 1 ==> (#[trigger] self.subsplits@[k].start_idx)
                < self.subsplits@[k + 1].start_idx
    }

    /// Group the run's segments.  A maximal block of `-`-prefixed segments
    /// plus the segment that follows it forms one group; every other
    /// segment stands alone.  The groups tile the run back to back, from
    /// the first segment to the last.  The final segment must not carry the
    /// `-` marker, since a group needs a closing segment.
    pub fn from_run(run: &RunModel) -> (m: Self)
        requires
            run.segment_names@.len() == 0 || !spec_starts_with(
                run.segment_names@.last()@,
                '-',
            ),
        ensures
            spec_grouping_of(m, run.segment_names@),
    {
        let mut subsplits: Vec<SubsplitContainer> = Vec::new();
        let mut i: usize = 0;
        let seg_count = run.segment_names.len();
        while i < seg_count
            invariant
                seg_count == run.segment_names@.len(),
                seg_count == 0 || !spec_starts_with(run.segment_names@.last()@, '-'),
                i <= seg_count,
                subsplits@.len() > 0 ==> subsplits@[0].start_idx == 0 && container_end(
                    subsplits@.last(),
                ) == i,
                i == 0 <==> subsplits@.len() == 0,
                forall|k: int|
                    0 <= k < subsplits@.len() ==> container_matches(
                        #[trigger] subsplits@[k],
                        run.segment_names@,
                    ),
                forall|k: int|
                    0 <= k < subsplits@.len() - 1 ==> (#[trigger] subsplits@[k + 1].start_idx)
                        == container_end(subsplits@[k]),
                forall|k: int|
                    0 <= k < subsplits@.len() - 1 ==> (#[trigger] subsplits@[k].start_idx)
                        < subsplits@[k + 1].start_idx,
                forall|k: int|
                    0 <= k < subsplits@.len() ==> (#[trigger] subsplits@[k].start_idx) < i,
            decreases seg_count - i,
        {
            if starts_with_char(run.segment_names[i].as_str(), '-') {
                let start_idx = i;
                let mut subsplit_list: Vec<SplitRenderer> = Vec::new();
                subsplit_list.push(SplitRenderer::from_run_index(run, i));
                proof {
                    assert(run.segment_names@.last() == run.segment_names@[seg_count - 1]);
                }
                i += 1;
                loop
                    invariant_except_break
                        seg_count == run.segment_names@.len(),
                        seg_count > 0,
                        !spec_starts_with(run.segment_names@.last()@, '-'),
                        start_idx < i < seg_count,
                        subsplit_list@.len() == i - start_idx,
                        forall|t: int|
                            0 <= t < subsplit_list@.len() ==> (#[trigger] subsplit_list@[t]).comparison_index
                                == start_idx + t && subsplit_list@[t].name@
                                == trimmed_split_name(run.segment_names@[start_idx + t]@),
                        forall|t: int|
                            start_idx <= t < i ==> spec_starts_with(
                                (#[trigger] run.segment_names@[t])@,
                                '-',
                            ),
                    ensures
                        start_idx < i < seg_count,
                        !spec_starts_with(run.segment_names@[i as int]@, '-'),
                        subsplit_list@.len() == i - start_idx,
                        forall|t: int|
                            0 <= t < subsplit_list@.len() ==> (#[trigger] subsplit_list@[t]).comparison_index
                                == start_idx + t && subsplit_list@[t].name@
                                == trimmed_split_name(run.segment_names@[start_idx + t]@),
                        forall|t: int|
                            start_idx <= t < i ==> spec_starts_with(
                                (#[trigger] run.segment_names@[t])@,
                                '-',
                            ),
                    decreases seg_count - i,
                {
                    if !starts_with_char(run.segment_names[i].as_str(), '-') {
                        break ;
                    }
                    subsplit_list.push(SplitRenderer::from_run_index(run, i));
                    proof {
                        assert(run.segment_names@.last() == run.segment_names@[seg_count - 1]);
                    }
                    i += 1;
                }
                subsplit_list.push(SplitRenderer::from_run_index(run, i));
                let header = SplitRenderer::subsplit_header_from_run_index(run, i);
                subsplit_list.insert(0, SplitRenderer::subsplit_header_from_run_index(run, i));
                let ghost members = subsplit_list@;
                let container = SubsplitContainer { start_idx, splits: subsplit_list, header };
                proof {
                    assert(members.len() == i - start_idx + 2);
                    assert(container_end(container) == i + 1);
                    assert(container_matches(container, run.segment_names@)) by {
                        assert(members[0].comparison_index == i as usize);
                        assert forall|j: int|
                            1 <= j < members.len() implies (#[trigger] members[j]).comparison_index
                            == start_idx + j - 1 && members[j].name@ == trimmed_split_name(
                            run.segment_names@[start_idx + j - 1]@,
                        ) by {};
                    }
                }
                subsplits.push(container);
                i += 1;
            } else {
                let header = SplitRenderer::subsplit_header_from_run_index(run, i);
                subsplits.push(SubsplitContainer { start_idx: i, splits: Vec::new(), header });
                i += 1;
            }
        }
        SubsplitMap { subsplits }
    }

    /// The first group that starts at or after segment `idx`; falls back to
    /// the first group when `idx` lies beyond every group start.
    pub fn get_subsplit_index(&self, idx: usize) -> (r: usize)
        ensures
            r == spec_subsplit_index(self.subsplits@, idx),
            (exists|k: int|
                0 <= k < self.subsplits@.len() && (#[trigger] self.subsplits@[k].start_idx)
                    >= idx) ==> {
                &&& r < self.subsplits@.len()
                &&& self.subsplits@[r as int].start_idx >= idx
                &&& forall|j: int| 0 <= j < r ==> (#[trigger] self.subsplits@[j].start_idx) < idx
            },
            (forall|k: int|
                0 <= k < self.subsplits@.len() ==> (#[trigger] self.subsplits@[k].start_idx)
                    < idx) ==> r == 0,
    {
        let mut i: usize = 0;
        let n = self.subsplits.len();
        while i < n
            invariant
                n == self.subsplits@.len(),
                i <= n,
                forall|j: int| 0 <= j < i ==> (#[trigger] self.subsplits@[j].start_idx) < idx,
            decreases n - i,
        {
            if self.subsplits[i].start_idx >= idx {
                proof {
                    lemma_first_group_found(self.subsplits@, idx, i as int);
                }
                return i;
            }
            i += 1;
        }
        proof {
            lemma_first_group_absent(self.subsplits@, idx);
        }
        0
    }
}

/// The first group starting at or after `idx`, if any.
pub open spec fn spec_first_group_at_or_after(subs: Seq<SubsplitContainer>, idx: usize) -> Option<
    int,
>
    decreases subs.len(),
{
    if subs.len() == 0 {
        None
    } else if subs[0].start_idx >= idx {
        Some(0)
    } else {
        match spec_first_group_at_or_after(subs.subrange(1, subs.len() as int), idx) {
            Some(k) => Some(k + 1),
            None => None,
        }
    }
}

/// Which group the split list scrolls to for segment `idx`.
pub open spec fn spec_subsplit_index(subs: Seq<SubsplitContainer>, idx: usize) -> int {
    match spec_first_group_at_or_after(subs, idx) {
        Some(k) => k,
        None => 0,
    }
}

proof fn lemma_first_group_found(subs: Seq<SubsplitContainer>, idx: usize, i: int)
    requires
        0 <= i < subs.len(),
        subs[i].start_idx >= idx,
        forall|j: int| 0 <= j < i ==> (#[trigger] subs[j].start_idx) < idx,
    ensures
        spec_first_group_at_or_after(subs, idx) == Some(i),
    decreases i,
{
    if i > 0 {
        lemma_first_group_found(subs.subrange(1, subs.len() as int), idx, i - 1);
    }
}

proof fn lemma_first_group_absent(subs: Seq<SubsplitContainer>, idx: usize)
    requires
        forall|j: int| 0 <= j < subs.len() ==> (#[trigger] subs[j].start_idx) < idx,
    ensures
        spec_first_group_at_or_after(subs, idx) is None,
    decreases subs.len(),
{
    if subs.len() > 0 {
        lemma_first_group_absent(subs.subrange(1, subs.len() as int), idx);
    }
}

/// Configuration of the split list panel.  Colors are packed `0xRRGGBB`.
#[derive(Clone, Copy, PartialEq, Eq, Structural, Debug)]
pub struct SplitComponentConfig {
    pub num_splits_shown: usize,
    pub always_show_last_split: bool,
    pub show_last_split_separator: bool,
    pub shown_ahead_splits: usize,
    pub segment_time_accuracy: Accuracy,
    pub delta_accuracy: Accuracy,
    pub best_segment_color: u32,
    pub behind_losing_color: u32,
    pub behind_gaining_color: u32,
    pub ahead_losing_color: u32,
    pub ahead_gaining_color: u32,
}

impl Default for SplitComponentConfig {
    fn default() -> (c: Self)
        ensures
            c.num_splits_shown == 10,
            c.always_show_last_split,
            c.show_last_split_separator,
            c.shown_ahead_splits == 1,
            c.segment_time_accuracy == Accuracy::Seconds,
            c.delta_accuracy == Accuracy::Hundredths,
            c.best_segment_color == 0xffb340,
            c.behind_losing_color == 0x690000,
            c.behind_gaining_color == 0xff5454,
            c.ahead_losing_color == 0x80ff80,
            c.ahead_gaining_color == 0x00c900,
    {
        SplitComponentConfig {
            num_splits_shown: 10,
            always_show_last_split: true,
            show_last_split_separator: true,
            shown_ahead_splits: 1,
            segment_time_accuracy: Accuracy::Seconds,
            delta_accuracy: Accuracy::Hundredths,
            best_segment_color: 0xffb340,
            behind_losing_color: 0x690000,
            behind_gaining_color: 0xff5454,
            ahead_losing_color: 0x80ff80,
            ahead_gaining_color: 0x00c900,
        }
    }
}

/// The color of a finished split's delta cell.  Gold (a new best segment)
/// wins outright; otherwise being behind or ahead of the comparison and
/// gaining or losing on it since the previous split pick the color.  Times
/// are in milliseconds; `best_time_ms` is the stored best segment time,
/// `t_ms` the segment time of this attempt, `last_delta_ms` the previous
/// split's delta when one exists.
pub open spec fn spec_delta_color(
    config: SplitComponentConfig,
    last_delta_ms: Option<i64>,
    delta_ms: i64,
    best_time_ms: Option<i64>,
    t_ms: i64,
) -> u32 {
    if !(best_time_ms matches Some(b) && b < t_ms) {
        config.best_segment_color
    } else {
        match last_delta_ms {
            Some(last_delta) => {
                let gaining = last_delta > delta_ms;
                if delta_ms > 0 {
                    if gaining {
                        config.behind_gaining_color
                    } else {
                        config.behind_losing_color
                    }
                } else if gaining {
                    config.ahead_gaining_color
                } else {
                    config.ahead_losing_color
                }
            },
            None => if delta_ms > 0 {
                config.behind_losing_color
            } else {
                config.ahead_gaining_color
            },
        }
    }
}

pub fn get_delta_color(
    config: &SplitComponentConfig,
    last_delta_ms: Option<i64>,
    delta_ms: i64,
    best_time_ms: Option<i64>,
    t_ms: i64,
) -> (color: u32)
    ensures
        color == spec_delta_color(*config, last_delta_ms, delta_ms, best_time_ms, t_ms),
{
    let is_gold = match best_time_ms {
        Some(b) => !(b < t_ms),
        None => true,
    };
    if is_gold {
        config.best_segment_color
    } else {
        match last_delta_ms {
            Some(last_delta) => {
                let gaining = last_delta > delta_ms;
                if delta_ms > 0 {
                    if gaining {
                        config.behind_gaining_color
                    } else {
                        config.behind_losing_color
                    }
                } else if gaining {
                    config.ahead_gaining_color
                } else {
                    config.ahead_losing_color
                }
            },
            None => if delta_ms > 0 {
                config.behind_losing_color
            } else {
                config.ahead_gaining_color
            },
        }
    }
}

/// What a split row's delta cell shows.
#[derive(Clone, Copy, PartialEq, Eq, Structural, Debug)]
pub enum DeltaCell {
    Empty,
    Dashes,
    PlainDelta(i64),
    ColoredDelta(i64, u32),
}

/// Keeps the differences below representable.
pub open spec fn time_ms_in_range(v: Option<i64>) -> bool {
    match v {
        Some(t) => -0x2000_0000_0000_0000 < t < 0x2000_0000_0000_0000,
        None => true,
    }
}

/// What the delta cell of the row comparing against segment `index` shows.
/// While an attempt runs, rows past the current segment stay empty; the
/// current row shows a plain delta only once it has fallen behind the
/// comparison or overrun the stored best; finished rows show their delta in
/// the comparison's color, or dashes with nothing to compare against.
/// After the run ends only finished rows remain.  All times in
/// milliseconds: `time_ms` is the attempt's running total, `seg_time_ms`
/// this segment's recorded split time.
pub open spec fn spec_delta_cell(
    config: SplitComponentConfig,
    index: usize,
    phase: TimerPhase,
    current_split_index: Option<usize>,
    time_ms: Option<i64>,
    seg_time_ms: Option<i64>,
    comparison_time_ms: Option<i64>,
    best_time_ms: Option<i64>,
    last_delta_ms: Option<i64>,
) -> DeltaCell {
    match phase {
        TimerPhase::Running | TimerPhase::Paused => {
            let current: usize = match current_split_index {
                Some(i) => i,
                None => 0usize,
            };
            if index > current {
                DeltaCell::Empty
            } else if index == current {
                let t_ms: i64 = match time_ms {
                    Some(t) => t,
                    None => 0i64,
                };
                match comparison_time_ms {
                    Some(t) => {
                        let delta = t_ms - t;
                        if delta > 0 || (best_time_ms matches Some(b) && t_ms > b) {
                            DeltaCell::PlainDelta(delta as i64)
                        } else {
                            DeltaCell::Empty
                        }
                    },
                    None => DeltaCell::Empty,
                }
            } else {
                let t_ms: i64 = match seg_time_ms {
                    Some(t) => t,
                    None => 0i64,
                };
                match comparison_time_ms {
                    Some(t) => {
                        let delta = t_ms - t;
                        DeltaCell::ColoredDelta(
                            delta as i64,
                            spec_delta_color(config, last_delta_ms, delta as i64, best_time_ms, t_ms),
                        )
                    },
                    None => DeltaCell::Dashes,
                }
            }
        },
        TimerPhase::Ended => {
            let t_ms: i64 = match seg_time_ms {
                Some(t) => t,
                None => 0i64,
            };
            match comparison_time_ms {
                Some(t) => {
                    let delta = t_ms - t;
                    if delta > 0 || (best_time_ms matches Some(b) && t_ms > b) {
                        DeltaCell::ColoredDelta(
                            delta as i64,
                            spec_delta_color(config, last_delta_ms, delta as i64, best_time_ms, t_ms),
                        )
                    } else {
                        DeltaCell::Empty
                    }
                },
                None => DeltaCell::Dashes,
            }
        },
        TimerPhase::NotRunning => DeltaCell::Empty,
    }
}

impl SplitRenderer {
    /// Decide this row's delta cell; the panel formats and draws it.
    pub fn delta_cell(
        &self,
        config: &SplitComponentConfig,
        phase: TimerPhase,
        current_split_index: Option<usize>,
        time_ms: Option<i64>,
        seg_time_ms: Option<i64>,
        comparison_time_ms: Option<i64>,
        best_time_ms: Option<i64>,
        last_delta_ms: Option<i64>,
    ) -> (cell: DeltaCell)
        requires
            time_ms_in_range(time_ms),
            time_ms_in_range(seg_time_ms),
            time_ms_in_range(comparison_time_ms),
        ensures
            cell == spec_delta_cell(
                *config,
                self.comparison_index,
                phase,
                current_split_index,
                time_ms,
                seg_time_ms,
                comparison_time_ms,
                best_time_ms,
                last_delta_ms,
            ),
    {
        match phase {
            TimerPhase::Running | TimerPhase::Paused => {
                let current = match current_split_index {
                    Some(i) => i,
                    None => 0,
                };
                if self.comparison_index > current {
                    DeltaCell::Empty
                } else if self.comparison_index == current {
                    let t_ms = match time_ms {
                        Some(t) => t,
                        None => 0,
                    };
                    match comparison_time_ms {
                        Some(t) => {
                            let delta = t_ms - t;
                            let over_best = match best_time_ms {
                                Some(b) => t_ms > b,
                                None => false,
                            };
                            if delta > 0 || over_best {
                                DeltaCell::PlainDelta(delta)
                            } else {
                                DeltaCell::Empty
                            }
                        },
                        None => DeltaCell::Empty,
                    }
                } else {
                    let t_ms = match seg_time_ms {
                        Some(t) => t,
                        None => 0,
                    };
                    match comparison_time_ms {
                        Some(t) => {
                            let delta = t_ms - t;
                            let color = get_delta_color(
                                config,
                                last_delta_ms,
                                delta,
                                best_time_ms,
                                t_ms,
                            );
                            DeltaCell::ColoredDelta(delta, color)
                        },
                        None => DeltaCell::Dashes,
                    }
                }
            },
            TimerPhase::Ended => {
                let t_ms = match seg_time_ms {
                    Some(t) => t,
                    None => 0,
                };
                match comparison_time_ms {
                    Some(t) => {
                        let delta = t_ms - t;
                        let over_best = match best_time_ms {
                            Some(b) => t_ms > b,
                            None => false,
                        };
                        if delta > 0 || over_best {
                            let color = get_delta_color(
                                config,
                                last_delta_ms,
                                delta,
                                best_time_ms,
                                t_ms,
                            );
                            DeltaCell::ColoredDelta(delta, color)
                        } else {
                            DeltaCell::Empty
                        }
                    },
                    None => DeltaCell::Dashes,
                }
            },
            TimerPhase::NotRunning => DeltaCell::Empty,
        }
    }
}

/// The split list panel's own state: its grouping of the run and where the
/// view is scrolled to.
pub struct SplitComponent {
    pub config: SplitComponentConfig,
    pub subsplit_map: SubsplitMap,
    pub last_real_segment: usize,
    pub segment_pos: usize,
}

impl SplitComponent {
    pub fn new(run: &RunModel, config: &SplitComponentConfig) -> (c: Self)
        requires
            run.segment_names@.len() == 0 || !spec_starts_with(
                run.segment_names@.last()@,
                '-',
            ),
        ensures
            c.config == *config,
            c.last_real_segment == 0,
            c.segment_pos == 0,
            spec_grouping_of(c.subsplit_map, run.segment_names@),
    {
        SplitComponent {
            config: *config,
            subsplit_map: SubsplitMap::from_run(run),
            last_real_segment: 0,
            segment_pos: 0,
        }
    }

    /// Track the timer's current segment — a timer move drops any manual
    /// scroll — then apply one scroll step: a negative step scrolls one
    /// segment down (clamped to the last segment), a positive one scrolls
    /// one segment up (clamped to the first).
    pub fn update_scroll(&mut self, current_timer_idx: usize, scroll_step: i8, segments_len: usize)
        requires
            segments_len >= 1,
        ensures
            final(self).config == old(self).config,
            final(self).subsplit_map == old(self).subsplit_map,
            final(self).last_real_segment == current_timer_idx,
            ({
                let base: int = if current_timer_idx != old(self).last_real_segment {
                    current_timer_idx as int
                } else {
                    old(self).segment_pos as int
                };
                if scroll_step < 0 {
                    final(self).segment_pos == if base + 1 <= segments_len - 1 {
                        base + 1
                    } else {
                        segments_len - 1
                    }
                } else if scroll_step > 0 {
                    final(self).segment_pos == if base > 0 {
                        base - 1
                    } else {
                        0int
                    }
                } else {
                    final(self).segment_pos == base
                }
            }),
    {
        if current_timer_idx != self.last_real_segment {
            self.last_real_segment = current_timer_idx;
            self.segment_pos = current_timer_idx;
        }
        if scroll_step < 0 {
            if self.segment_pos < segments_len - 1 {
                self.segment_pos = self.segment_pos + 1;
            } else {
                self.segment_pos = segments_len - 1;
            }
        } else if scroll_step > 0 {
            if self.segment_pos > 0 {
                self.segment_pos = self.segment_pos - 1;
            }
        }
    }
}

impl SplitRenderer {
    fn duplicate(&self) -> (r: Self)
        ensures
            r == *self,
    {
        SplitRenderer { comparison_index: self.comparison_index, name: self.name.clone() }
    }
}

impl SplitComponent {
    /// The full list of rows the panel draws: the header of every group
    /// before the current one, the current group's header and member rows,
    /// then the header of every group after it.  Also returns the row the
    /// view centers on: the last member row of the current segment, or the
    /// current group's header when no member row matches.
    pub fn assemble_rows(&self) -> (r: (Vec<SplitRenderer>, usize))
        requires
            self.subsplit_map.subsplits@.len() > 0,
        ensures
            ({
                let subs = self.subsplit_map.subsplits@;
                let cur = spec_subsplit_index(subs, self.segment_pos);
                let members = subs[cur].splits@;
                let rows = r.0@;
                let rel = r.1 as int;
                &&& rows.len() == subs.len() + members.len()
                &&& forall|k: int| 0 <= k <= cur ==> rows[k] == (#[trigger] subs[k]).header
                &&& forall|j: int| 0 <= j < members.len() ==> rows[cur + 1 + j] == #[trigger] members[j]
                &&& forall|k: int|
                    cur < k < subs.len() ==> rows[k + members.len()] == (#[trigger] subs[k]).header
                &&& cur <= rel < cur + 1 + members.len()
                &&& (rel == cur <==> forall|j: int|
                    0 <= j < members.len() ==> (#[trigger] members[j]).comparison_index
                        != self.segment_pos)
                &&& (rel > cur ==> members[rel - cur - 1].comparison_index == self.segment_pos
                    && forall|j: int|
                    rel - cur - 1 < j < members.len() ==> (#[trigger] members[j]).comparison_index
                        != self.segment_pos)
            }),
    {
        let cur = self.subsplit_map.get_subsplit_index(self.segment_pos);
        proof {
            let subs = self.subsplit_map.subsplits@;
            if !(exists|k: int|
                0 <= k < subs.len() && (#[trigger] subs[k].start_idx) >= self.segment_pos) {
                assert(forall|k: int|
                    0 <= k < subs.len() ==> (#[trigger] subs[k].start_idx) < self.segment_pos);
            }
            assert(cur < subs.len());
        }
        let mut rows: Vec<SplitRenderer> = Vec::new();
        let mut k: usize = 0;
        while k < cur
            invariant
                cur < self.subsplit_map.subsplits@.len(),
                k <= cur,
                rows@.len() == k,
                forall|j: int|
                    0 <= j < k ==> rows@[j] == (#[trigger] self.subsplit_map.subsplits@[j]).header,
            decreases cur - k,
        {
            rows.push(self.subsplit_map.subsplits[k].header.duplicate());
            k += 1;
        }
        let container = &self.subsplit_map.subsplits[cur];
        rows.push(container.header.duplicate());
        let mut rel: usize = cur;
        let member_count = container.splits.len();
        let mut j: usize = 0;
        while j < member_count
            invariant
                cur < self.subsplit_map.subsplits@.len(),
                *container == self.subsplit_map.subsplits@[cur as int],
                member_count == container.splits@.len(),
                j <= member_count,
                rows@.len() == cur + 1 + j,
                forall|t: int|
                    0 <= t <= cur ==> rows@[t] == (#[trigger] self.subsplit_map.subsplits@[t]).header,
                forall|t: int| 0 <= t < j ==> rows@[cur + 1 + t] == #[trigger] container.splits@[t],
                cur <= rel < cur + 1 + j,
                (rel == cur <==> forall|t: int|
                    0 <= t < j ==> (#[trigger] container.splits@[t]).comparison_index
                        != self.segment_pos),
                rel > cur ==> container.splits@[rel - cur - 1].comparison_index == self.segment_pos
                    && forall|t: int|
                    rel - cur - 1 < t < j ==> (#[trigger] container.splits@[t]).comparison_index
                        != self.segment_pos,
            decreases member_count - j,
        {
            let member = &container.splits[j];
            rows.push(member.duplicate());
            if member.comparison_index == self.segment_pos {
                rel = rows.len() - 1;
            }
            j += 1;
        }
        let total = self.subsplit_map.subsplits.len();
        let mut k: usize = cur + 1;
        while k < total
            invariant
                cur < total,
                total == self.subsplit_map.subsplits@.len(),
                *container == self.subsplit_map.subsplits@[cur as int],
                member_count == container.splits@.len(),
                cur + 1 <= k <= total,
                rows@.len() == k + member_count,
                forall|t: int|
                    0 <= t <= cur ==> rows@[t] == (#[trigger] self.subsplit_map.subsplits@[t]).header,
                forall|t: int|
                    0 <= t < member_count ==> rows@[cur + 1 + t] == #[trigger] container.splits@[t],
                forall|t: int|
                    cur < t < k ==> rows@[t + member_count] == (#[trigger] self.subsplit_map.subsplits@[t]).header,
                cur <= rel < cur + 1 + member_count,
                (rel == cur <==> forall|t: int|
                    0 <= t < member_count ==> (#[trigger] container.splits@[t]).comparison_index
                        != self.segment_pos),
                rel > cur ==> container.splits@[rel - cur - 1].comparison_index == self.segment_pos
                    && forall|t: int|
                    rel - cur - 1 < t < member_count ==> (#[trigger] container.splits@[t]).comparison_index != self.segment_pos,
            decreases total - k,
        {
            rows.push(self.subsplit_map.subsplits[k].header.duplicate());
            k += 1;
        }
        (rows, rel)
    }
}

/// Which slice of the assembled rows is drawn.  Returns `(start, end,
/// show_last_separately)`: rows `start ..= end` are drawn, and when the
/// flag is set the very last row is appended after them.  At most
/// `num_splits_shown` rows are ever drawn, and the current row always lies
/// inside the slice.
pub fn visible_window(rows_len: usize, relative_current_idx: usize, config: &SplitComponentConfig)
    -> (r: (usize, usize, bool))
    requires
        rows_len >= 1,
        relative_current_idx < rows_len,
        config.num_splits_shown >= 2,
        config.shown_ahead_splits + 2 <= config.num_splits_shown,
        rows_len + config.num_splits_shown <= usize::MAX,
    ensures
        r.0 <= relative_current_idx <= r.1 < rows_len,
        r.1 - r.0 < config.num_splits_shown,
        r.2 ==> config.always_show_last_split && r.1 < rows_len - 1,
        r.1 >= relative_current_idx + config.shown_ahead_splits || r.1 == rows_len - 1,
        r.1 + 1 - r.0 >= config.num_splits_shown - 1 || (r.0 == 0 && r.1 == rows_len - 1),
{
    let mut show_last_split = config.always_show_last_split;
    let mut n = relative_current_idx + config.shown_ahead_splits;
    if n >= rows_len - 1 {
        n = rows_len - 1;
        show_last_split = false;
    }
    let real_shown: usize = config.num_splits_shown - if show_last_split {
        1
    } else {
        0
    };
    if n < real_shown - 1 {
        if real_shown - 1 < rows_len - 1 {
            n = real_shown - 1;
        } else {
            n = rows_len - 1;
            show_last_split = false;
        }
    }
    let end = n;
    let start = if end >= real_shown - 1 {
        end - (real_shown - 1)
    } else {
        0
    };
    (start, end, show_last_split)
}

} // verus!
