//! Derived statistics over the whole series: minimum, maximum and average
//! of current and of power, and the temporal span from the first to the
//! last record in arrival order. All values are recomputed on demand; an
//! empty series yields `None` — the explicit "no data yet" branch — rather
//! than any degenerate number.

use vstd::prelude::*;
use vstd::arithmetic::div_mod::{lemma_div_is_ordered, lemma_div_multiples_vanish};
use crate::monitor::EnergyMonitor;

verus! {

/// Minimum, maximum and truncated average of one metric, in the metric's
/// own centi-unit (hundredths of an ampere, or hundredths of a watt).
#[derive(Clone, Copy, Debug, PartialEq, Eq, Structural)]
pub struct Statistics {
    pub max: i64,
    pub min: i64,
    pub average: i64,
}

/// The temporal span of the series: record count, first and last timestamp
/// in arrival order, and their difference in seconds.
#[derive(Clone, Copy, Debug, PartialEq, Eq, Structural)]
pub struct TimestampStatistics {
    pub total_points: usize,
    pub first_timestamp: i64,
    pub last_timestamp: i64,
    pub duration_seconds: i64,
}

/// Least element of a non-empty sequence.
pub open spec fn min_of(s: Seq<int>) -> int
    recommends
        s.len() > 0,
    decreases s.len(),
{
    if s.len() <= 1 {
        s[0]
    } else {
        let m = min_of(s.drop_last());
        if s.last() <= m {
            s.last()
        } else {
            m
        }
    }
}

/// Greatest element of a non-empty sequence.
pub open spec fn max_of(s: Seq<int>) -> int
    recommends
        s.len() > 0,
    decreases s.len(),
{
    if s.len() <= 1 {
        s[0]
    } else {
        let m = max_of(s.drop_last());
        if s.last() >= m {
            s.last()
        } else {
            m
        }
    }
}

/// Sum of a sequence.
pub open spec fn sum_of(s: Seq<int>) -> int
    decreases s.len(),
{
    if s.len() == 0 {
        0
    } else {
        sum_of(s.drop_last()) + s.last()
    }
}

/// The currents of a series, widened to mathematical integers.
pub open spec fn currents_of(s: Seq<EnergyMonitor>) -> Seq<int> {
    s.map_values(|m: EnergyMonitor| m.current_amperes as int)
}

/// The powers of a series, widened to mathematical integers.
pub open spec fn powers_of(s: Seq<EnergyMonitor>) -> Seq<int> {
    s.map_values(|m: EnergyMonitor| m.power_watts as int)
}

/// Every element of a non-empty sequence lies between its minimum and its
/// maximum.
pub proof fn lemma_min_max_bound(s: Seq<int>)
    requires
        s.len() > 0,
    ensures
        forall|i: int| 0 <= i < s.len() ==> min_of(s) <= #[trigger] s[i] <= max_of(s),
    decreases s.len(),
{
    if s.len() > 1 {
        lemma_min_max_bound(s.drop_last());
        assert forall|i: int| 0 <= i < s.len() implies min_of(s) <= #[trigger] s[i] <= max_of(
            s,
        ) by {
            if i < s.len() - 1 {
                assert(s.drop_last()[i] == s[i]);
            }
        }
    }
}

/// A sequence whose elements all lie in `[lo, hi]` has a sum between
/// `len * lo` and `len * hi`.
pub proof fn lemma_sum_bounds(s: Seq<int>, lo: int, hi: int)
    requires
        forall|i: int| 0 <= i < s.len() ==> lo <= #[trigger] s[i] <= hi,
    ensures
        s.len() * lo <= sum_of(s) <= s.len() * hi,
    decreases s.len(),
{
    if s.len() > 0 {
        assert(forall|i: int|
            0 <= i < s.drop_last().len() ==> lo <= #[trigger] s.drop_last()[i] <= hi);
        lemma_sum_bounds(s.drop_last(), lo, hi);
        let n = s.len() as int;
        assert(n * lo == (n - 1) * lo + lo) by (nonlinear_arith);
        assert(n * hi == (n - 1) * hi + hi) by (nonlinear_arith);
        assert(s.drop_last().len() == n - 1);
    }
}

/// Min, max and truncated-toward-negative average of a non-empty value
/// sequence; `None` exactly on the empty one.
fn stats_of_values(values: &Vec<i64>) -> (r: Option<Statistics>)
    ensures
        r is Some <==> values@.len() > 0,
        r matches Some(st) ==> {
            &&& st.min == min_of(values@.map_values(|x: i64| x as int))
            &&& st.max == max_of(values@.map_values(|x: i64| x as int))
            &&& st.average == sum_of(values@.map_values(|x: i64| x as int)) / values@.len() as int
        },
{
    let ghost all: Seq<int> = values@.map_values(|x: i64| x as int);
    let n = values.len();
    if n == 0 {
        return None;
    }
    let mut mn: i64 = values[0];
    let mut mx: i64 = values[0];
    let mut sum: i128 = values[0] as i128;
    let mut i: usize = 1;
    proof {
        let s1 = all.subrange(0, 1);
        assert(s1.len() == 1);
        assert(s1.drop_last() =~= Seq::<int>::empty());
        assert(sum_of(s1.drop_last()) == 0);
        assert(s1.last() == all[0]);
        assert(sum_of(s1) == sum_of(s1.drop_last()) + s1.last());
    }
    while i < n
        invariant
            1 <= i <= n == values@.len(),
            all == values@.map_values(|x: i64| x as int),
            mn == min_of(all.subrange(0, i as int)),
            mx == max_of(all.subrange(0, i as int)),
            sum == sum_of(all.subrange(0, i as int)),
            i as int * (i64::MIN as int) <= sum <= i as int * (i64::MAX as int),
        decreases n - i,
    {
        let v = values[i];
        proof {
            let prefix = all.subrange(0, i as int);
            let next = all.subrange(0, i + 1);
            assert(next.drop_last() =~= prefix);
            assert(next.last() == v as int);
            assert((i + 1) as int * (i64::MIN as int) == i as int * (i64::MIN as int) + (
            i64::MIN as int));
            assert((i + 1) as int * (i64::MAX as int) == i as int * (i64::MAX as int) + (
            i64::MAX as int));
        }
        if v < mn {
            mn = v;
        }
        if v > mx {
            mx = v;
        }
        sum = sum + v as i128;
        i += 1;
    }
    proof {
        assert(all.subrange(0, n as int) =~= all);
        lemma_min_max_bound(all);
        lemma_sum_bounds(all, mn as int, mx as int);
        lemma_div_is_ordered(n as int * (mn as int), sum as int, n as int);
        lemma_div_is_ordered(sum as int, n as int * (mx as int), n as int);
        lemma_div_multiples_vanish(mn as int, n as int);
        lemma_div_multiples_vanish(mx as int, n as int);
        assert(n as int * (mn as int) == (mn as int) * (n as int)) by (nonlinear_arith);
        assert(n as int * (mx as int) == (mx as int) * (n as int)) by (nonlinear_arith);
    }
    let average = sum.checked_div_euclid(n as i128).unwrap() as i64;
    Some(Statistics { max: mx, min: mn, average })
}

/// Extracts one metric from the series and computes its statistics; shared
/// by the current and power aggregations.
fn stats_of_series(data: &Vec<EnergyMonitor>, power: bool) -> (r: Option<Statistics>)
    ensures
        r is Some <==> data@.len() > 0,
        r matches Some(st) ==> {
            let values = if power {
                powers_of(data@)
            } else {
                currents_of(data@)
            };
            &&& st.min == min_of(values)
            &&& st.max == max_of(values)
            &&& st.average == sum_of(values) / data@.len() as int
        },
{
    let ghost values = if power {
        powers_of(data@)
    } else {
        currents_of(data@)
    };
    let mut extracted: Vec<i64> = Vec::new();
    let mut i: usize = 0;
    while i < data.len()
        invariant
            i <= data@.len(),
            extracted@.len() == i,
            forall|k: int|
                0 <= k < i ==> extracted@[k] == if power {
                    data@[k].power_watts
                } else {
                    data@[k].current_amperes
                },
        decreases data@.len() - i,
    {
        if power {
            extracted.push(data[i].power_watts());
        } else {
            extracted.push(data[i].current_amperes());
        }
        i += 1;
    }
    proof {
        assert(extracted@.map_values(|x: i64| x as int) =~= values);
        assert(values.len() == data@.len());
    }
    stats_of_values(&extracted)
}

/// Statistics of the current, in hundredths of an ampere, over the whole
/// series; `None` exactly when the series is empty.
pub fn calculate_current_stats(data: &Vec<EnergyMonitor>) -> (r: Option<Statistics>)
    ensures
        r is Some <==> data@.len() > 0,
        r matches Some(st) ==> {
            &&& st.min == min_of(currents_of(data@))
            &&& st.max == max_of(currents_of(data@))
            &&& st.average == sum_of(currents_of(data@)) / data@.len() as int
        },
{
    stats_of_series(data, false)
}

/// Statistics of the power, in hundredths of a watt, over the whole
/// series; `None` exactly when the series is empty.
pub fn calculate_power_stats(data: &Vec<EnergyMonitor>) -> (r: Option<Statistics>)
    ensures
        r is Some <==> data@.len() > 0,
        r matches Some(st) ==> {
            &&& st.min == min_of(powers_of(data@))
            &&& st.max == max_of(powers_of(data@))
            &&& st.average == sum_of(powers_of(data@)) / data@.len() as int
        },
{
    stats_of_series(data, true)
}

/// Temporal span of the series in arrival order; `None` exactly when the
/// series is empty. Well-formed records keep the subtraction in range.
pub fn calculate_timestamp_stats(data: &Vec<EnergyMonitor>) -> (r: Option<TimestampStatistics>)
    requires
        forall|i: int| 0 <= i < data@.len() ==> (#[trigger] data@[i]).wf(),
    ensures
        r is Some <==> data@.len() > 0,
        r matches Some(st) ==> {
            &&& st.total_points == data@.len()
            &&& st.first_timestamp == data@.first().timestamp
            &&& st.last_timestamp == data@.last().timestamp
            &&& st.duration_seconds == data@.last().timestamp - data@.first().timestamp
        },
{
    let n = data.len();
    if n == 0 {
        return None;
    }
    assert(data@[0].wf() && data@[n - 1].wf());
    let first = data[0].timestamp();
    let last = data[n - 1].timestamp();
    Some(TimestampStatistics {
        total_points: n,
        first_timestamp: first,
        last_timestamp: last,
        duration_seconds: last - first,
    })
}

} // verus!
