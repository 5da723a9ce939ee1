//! The bar-chart windower: orders the series by descending timestamp,
//! computes how many record groups fit the available width, clamps the
//! persisted scroll offset against the current size, and hands back the
//! visible slice together with the integer bar heights of each record.

use vstd::prelude::*;
use vstd::seq_lib::to_multiset_insert;
use crate::monitor::EnergyMonitor;

verus! {

/// Display columns of a single bar.
pub const BAR_WIDTH: u16 = 3;

/// Display columns between neighbouring record groups.
pub const INTER_GROUP_GAP: u16 = 1;

/// Display columns one record group occupies: two bars (power and current)
/// of `BAR_WIDTH` columns each, plus the gap.
pub const GROUP_WIDTH: u16 = BAR_WIDTH * 2 + INTER_GROUP_GAP;

/// Scroll state of the bar chart, persisted across frames: `offset` indexes
/// into the timestamp-descending ordering of the series (0 = most recent),
/// `total_groups` is the series size seen at the last window computation.
pub struct UpperBlockState {
    pub offset: usize,
    pub total_groups: usize,
}

impl Default for UpperBlockState {
    /// The startup state: scrolled to the most recent record, no groups.
    fn default() -> (r: Self)
        ensures
            r.offset == 0,
            r.total_groups == 0,
    {
        UpperBlockState { offset: 0, total_groups: 0 }
    }
}

/// Ordered by non-increasing timestamp.
pub open spec fn sorted_desc(s: Seq<EnergyMonitor>) -> bool {
    forall|i: int, j: int| 0 <= i < j < s.len() ==> s[i].timestamp >= s[j].timestamp
}

/// How many record groups fit a display of the given width.
pub open spec fn max_groups_spec(display_width: u16) -> int {
    display_width as int / GROUP_WIDTH as int
}

/// The scroll offset after clamping against the current series size and
/// visible group count: unchanged when it still points at a full window,
/// otherwise pulled back to the last valid position.
pub open spec fn clamped_offset(off: int, total: int, visible: int) -> int {
    let limit = if total >= visible { total - visible } else { 0 };
    if off <= limit {
        off
    } else {
        limit
    }
}

/// Length of the visible window starting at `off`.
pub open spec fn window_len(total: int, visible: int, off: int) -> int {
    if total - off <= visible {
        total - off
    } else {
        visible
    }
}

/// Window clamp law: for every display width and series size, the clamped
/// offset lies in `[0, max(0, total - visible)]`, and the window starting
/// there has length `min(visible, total - offset)`, never negative.
pub proof fn lemma_window_clamp(off: int, total: int, visible: int)
    requires
        0 <= off,
        0 <= total,
        0 <= visible,
    ensures
        0 <= clamped_offset(off, total, visible),
        clamped_offset(off, total, visible) <= if total - visible >= 0 {
            total - visible
        } else {
            0
        },
        window_len(total, visible, clamped_offset(off, total, visible)) == if total
            - clamped_offset(off, total, visible) <= visible {
            total - clamped_offset(off, total, visible)
        } else {
            visible
        },
        window_len(total, visible, clamped_offset(off, total, visible)) >= 0,
{
}

/// Index of the first record in `s` whose timestamp is strictly below
/// `ts`, or the length when there is none.
pub open spec fn insert_pos(s: Seq<EnergyMonitor>, ts: i64) -> int
    decreases s.len(),
{
    if s.len() == 0 {
        0
    } else if s[0].timestamp < ts {
        0
    } else {
        1 + insert_pos(s.drop_first(), ts)
    }
}

/// The timestamp-descending ordering of a series, pinned down exactly:
/// each record, in arrival order, is inserted before the first earlier
/// arrival with a strictly smaller timestamp, so that records with equal
/// timestamps keep their arrival order — the deterministic tie rule.
pub open spec fn spec_sort_desc(s: Seq<EnergyMonitor>) -> Seq<EnergyMonitor>
    decreases s.len(),
{
    if s.len() == 0 {
        Seq::empty()
    } else {
        let sorted = spec_sort_desc(s.drop_last());
        sorted.insert(insert_pos(sorted, s.last().timestamp), s.last())
    }
}

/// An index below which every timestamp is at least `ts` and from which
/// every timestamp is below `ts` is exactly `insert_pos`.
proof fn lemma_insert_pos_is_first(s: Seq<EnergyMonitor>, ts: i64, j: int)
    requires
        0 <= j <= s.len(),
        forall|k: int| 0 <= k < j ==> s[k].timestamp >= ts,
        forall|k: int| j <= k < s.len() ==> s[k].timestamp < ts,
    ensures
        insert_pos(s, ts) == j,
    decreases s.len(),
{
    if s.len() == 0 {
    } else if s[0].timestamp < ts {
        assert(j == 0);
    } else {
        assert(j >= 1);
        let rest = s.drop_first();
        assert forall|k: int| 0 <= k < j - 1 implies rest[k].timestamp >= ts by {
            assert(rest[k] == s[k + 1]);
        }
        assert forall|k: int| j - 1 <= k < rest.len() implies rest[k].timestamp < ts by {
            assert(rest[k] == s[k + 1]);
        }
        lemma_insert_pos_is_first(rest, ts, j - 1);
    }
}

/// Index of the first record in `sorted` whose timestamp is strictly below
/// `ts`, or the length when there is none: the position at which a record
/// with timestamp `ts` is inserted so that records already present with an
/// equal timestamp keep their earlier place.
fn insertion_position(sorted: &Vec<EnergyMonitor>, ts: i64) -> (j: usize)
    requires
        sorted_desc(sorted@),
    ensures
        j <= sorted@.len(),
        forall|k: int| 0 <= k < j ==> sorted@[k].timestamp >= ts,
        forall|k: int| j <= k < sorted@.len() ==> sorted@[k].timestamp < ts,
        j == insert_pos(sorted@, ts),
{
    let mut j: usize = 0;
    while j < sorted.len()
        invariant
            j <= sorted@.len(),
            sorted_desc(sorted@),
            forall|k: int| 0 <= k < j ==> sorted@[k].timestamp >= ts,
        decreases sorted@.len() - j,
    {
        if sorted[j].timestamp() < ts {
            proof {
                assert forall|k: int| j <= k < sorted@.len() implies sorted@[k].timestamp < ts by {
                    assert(sorted@[k].timestamp <= sorted@[j as int].timestamp);
                }
                lemma_insert_pos_is_first(sorted@, ts, j as int);
            }
            return j;
        }
        j += 1;
    }
    proof {
        lemma_insert_pos_is_first(sorted@, ts, j as int);
    }
    j
}

/// A copy of the series ordered by descending timestamp: exactly the
/// ordering `spec_sort_desc` describes — a permutation of the input in
/// which records with equal timestamps keep their arrival order.
pub fn sorted_by_timestamp_desc(data: &Vec<EnergyMonitor>) -> (r: Vec<EnergyMonitor>)
    ensures
        r@ == spec_sort_desc(data@),
        r@.len() == data@.len(),
        r@.to_multiset() == data@.to_multiset(),
        sorted_desc(r@),
{
    let mut result: Vec<EnergyMonitor> = Vec::new();
    let mut i: usize = 0;
    proof {
        assert(data@.subrange(0, 0) =~= Seq::<EnergyMonitor>::empty());
    }
    while i < data.len()
        invariant
            i <= data@.len(),
            result@.len() == i,
            result@ == spec_sort_desc(data@.subrange(0, i as int)),
            result@.to_multiset() == data@.subrange(0, i as int).to_multiset(),
            sorted_desc(result@),
        decreases data@.len() - i,
    {
        let m = data[i];
        let j = insertion_position(&result, m.timestamp());
        let ghost before = result@;
        result.insert(j, m);
        proof {
            before.insert_ensures(j as int, m);
            assert(result@ == spec_sort_desc(data@.subrange(0, i + 1))) by {
                assert(data@.subrange(0, i + 1).drop_last() =~= data@.subrange(0, i as int));
                assert(data@.subrange(0, i + 1).last() == data@[i as int]);
            }
            assert(sorted_desc(result@)) by {
                assert forall|a: int, b: int|
                    0 <= a < b < result@.len() implies result@[a].timestamp
                    >= result@[b].timestamp by {
                    if b < j {
                        assert(result@[a] == before[a] && result@[b] == before[b]);
                    } else if a > j {
                        assert(result@[a] == before[a - 1] && result@[b] == before[b - 1]);
                    } else if a < j && b == j {
                        assert(result@[a] == before[a]);
                    } else if a == j && b > j {
                        assert(result@[b] == before[b - 1]);
                    } else if a < j && b > j {
                        assert(result@[a] == before[a] && result@[b] == before[b - 1]);
                    }
                }
            }
            assert(result@.to_multiset() == data@.subrange(0, i + 1).to_multiset()) by {
                broadcast use vstd::seq_lib::group_to_multiset_ensures;

                to_multiset_insert(before, j as int, m);
                assert(data@.subrange(0, i + 1) =~= data@.subrange(0, i as int).push(data@[i as int]));
            }
        }
        i += 1;
    }
    proof {
        assert(data@.subrange(0, data@.len() as int) =~= data@);
    }
    result
}

/// Computes the visible chart window: sorts the series by descending
/// timestamp, records the group total, clamps the persisted offset for the
/// current width, and returns the slice of `min(visible, total - offset)`
/// records starting at the offset (offset 0 = most recent records).
pub fn compute_window(
    data: &Vec<EnergyMonitor>,
    display_width: u16,
    state: &mut UpperBlockState,
) -> (r: Vec<EnergyMonitor>)
    ensures
        final(state).total_groups == data@.len(),
        final(state).offset == clamped_offset(
            old(state).offset as int,
            data@.len() as int,
            max_groups_spec(display_width),
        ),
        r@.len() == window_len(
            data@.len() as int,
            max_groups_spec(display_width),
            final(state).offset as int,
        ),
        sorted_desc(r@),
        r@ == spec_sort_desc(data@).subrange(
            final(state).offset as int,
            final(state).offset + r@.len(),
        ),
{
    let sorted = sorted_by_timestamp_desc(data);
    state.total_groups = sorted.len();
    let max_groups = (display_width / GROUP_WIDTH) as usize;
    let limit = sorted.len().saturating_sub(max_groups);
    if state.offset > limit {
        state.offset = limit;
    }
    let end = if sorted.len() - state.offset <= max_groups {
        sorted.len()
    } else {
        state.offset + max_groups
    };
    let mut r: Vec<EnergyMonitor> = Vec::new();
    let mut k: usize = state.offset;
    proof {
        assert(sorted@.subrange(state.offset as int, state.offset as int) =~= Seq::<
            EnergyMonitor,
        >::empty());
    }
    while k < end
        invariant
            state.offset <= k <= end <= sorted@.len(),
            r@ =~= sorted@.subrange(state.offset as int, k as int),
            sorted_desc(sorted@),
        decreases end - k,
    {
        r.push(sorted[k]);
        proof {
            assert(sorted@.subrange(state.offset as int, k + 1) =~= sorted@.subrange(
                state.offset as int,
                k as int,
            ).push(sorted@[k as int]));
        }
        k += 1;
    }
    proof {
        assert(r@ == sorted@.subrange(state.offset as int, state.offset + r@.len()));
        assert(sorted_desc(r@)) by {
            assert forall|a: int, b: int|
                0 <= a < b < r@.len() implies r@[a].timestamp >= r@[b].timestamp by {
                assert(r@[a] == sorted@[state.offset + a]);
                assert(r@[b] == sorted@[state.offset + b]);
            }
        }
    }
    r
}

/// Height in whole watts of a record's power bar: the power rounded to the
/// nearest watt, halves away from zero, clamped below at zero as the chart
/// cannot draw a negative bar.
pub open spec fn power_bar_spec(p: int) -> int {
    if p <= 0 {
        0
    } else {
        (p + 50) / 100
    }
}

/// Height of a record's current bar: the current scaled so that one unit
/// is a hundredth of an ampere, clamped below at zero.
pub open spec fn current_bar_spec(c: int) -> int {
    if c <= 0 {
        0
    } else {
        c
    }
}

/// The two bar heights one record contributes to its chart group: power
/// first, current second.
pub fn bar_values(m: &EnergyMonitor) -> (r: (u64, u64))
    ensures
        r.0 == power_bar_spec(m.power_watts as int),
        r.1 == current_bar_spec(m.current_amperes as int),
{
    let p: u64 = if m.power_watts <= 0 {
        0
    } else {
        (m.power_watts as u64 + 50) / 100
    };
    let c: u64 = if m.current_amperes <= 0 {
        0
    } else {
        m.current_amperes as u64
    };
    (p, c)
}

} // verus!
