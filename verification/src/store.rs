//! The append-only time series of normalized records. Records arrive in
//! fetch order, are never removed or reordered, and a refresh that
//! re-delivers the latest record verbatim is dropped by the dedup rule.

use vstd::prelude::*;
use crate::monitor::EnergyMonitor;

verus! {

/// The dedup rule: a candidate equal (structurally) to the current last
/// record is discarded, any other candidate is appended at the end.
pub open spec fn append_if_new_spec(s: Seq<EnergyMonitor>, r: EnergyMonitor) -> Seq<EnergyMonitor> {
    if s.len() > 0 && s.last() == r {
        s
    } else {
        s.push(r)
    }
}

/// The effect of a whole sequence of `append_if_new` calls, first
/// candidate first.
pub open spec fn append_all_spec(s: Seq<EnergyMonitor>, rs: Seq<EnergyMonitor>) -> Seq<EnergyMonitor>
    decreases rs.len(),
{
    if rs.len() == 0 {
        s
    } else {
        append_all_spec(append_if_new_spec(s, rs.first()), rs.drop_first())
    }
}

/// The process-lifetime series of records, in arrival order.
pub struct Store {
    records: Vec<EnergyMonitor>,
}

impl View for Store {
    type V = Seq<EnergyMonitor>;

    closed spec fn view(&self) -> Seq<EnergyMonitor> {
        self.records@
    }
}

impl Store {
    /// An empty series.
    pub fn new() -> (s: Self)
        ensures
            s@ == Seq::<EnergyMonitor>::empty(),
    {
        Store { records: Vec::new() }
    }

    /// Appends `record` unless it equals the current last record.
    pub fn append_if_new(&mut self, record: EnergyMonitor)
        ensures
            final(self)@ == append_if_new_spec(old(self)@, record),
    {
        let n = self.records.len();
        if n > 0 {
            let last = self.records[n - 1];
            if last == record {
                return;
            }
        }
        self.records.push(record);
    }

    /// Appends `record` unconditionally: the initial bulk load keeps every
    /// normalized reading as the feed delivered it.
    pub fn push(&mut self, record: EnergyMonitor)
        ensures
            final(self)@ == old(self)@.push(record),
    {
        self.records.push(record);
    }

    /// Read-only view of the whole series in arrival order.
    pub fn all(&self) -> (r: &Vec<EnergyMonitor>)
        ensures
            r@ == self@,
    {
        &self.records
    }

    /// The most recently appended record, if any.
    pub fn last(&self) -> (r: Option<&EnergyMonitor>)
        ensures
            r is Some <==> self@.len() > 0,
            r matches Some(m) ==> *m == self@.last(),
    {
        let n = self.records.len();
        if n == 0 {
            None
        } else {
            Some(&self.records[n - 1])
        }
    }

    /// Number of records in the series.
    pub fn len(&self) -> (n: usize)
        ensures
            n == self@.len(),
    {
        self.records.len()
    }
}

/// Dedup idempotence: appending the same record twice in a row changes the
/// series exactly as appending it once does; in particular the length is
/// unchanged by the second append.
pub proof fn lemma_dedup_idempotent(s: Seq<EnergyMonitor>, r: EnergyMonitor)
    ensures
        append_if_new_spec(append_if_new_spec(s, r), r) == append_if_new_spec(s, r),
{
    let s1 = append_if_new_spec(s, r);
    assert(s1.len() > 0 && s1.last() == r);
}

/// Append-only, one step: a single `append_if_new` never shortens the
/// series, and every record already present stays unchanged at its index.
pub proof fn lemma_append_only_step(s: Seq<EnergyMonitor>, r: EnergyMonitor)
    ensures
        append_if_new_spec(s, r).len() >= s.len(),
        forall|i: int| 0 <= i < s.len() ==> append_if_new_spec(s, r)[i] == s[i],
{
}

/// Append-only: across any sequence of `append_if_new` calls the series
/// length is monotonically non-decreasing, and every record present before
/// remains present and unchanged at its original index.
pub proof fn lemma_append_only(s: Seq<EnergyMonitor>, rs: Seq<EnergyMonitor>)
    ensures
        append_all_spec(s, rs).len() >= s.len(),
        forall|i: int| 0 <= i < s.len() ==> append_all_spec(s, rs)[i] == s[i],
    decreases rs.len(),
{
    if rs.len() > 0 {
        let s1 = append_if_new_spec(s, rs.first());
        lemma_append_only_step(s, rs.first());
        lemma_append_only(s1, rs.drop_first());
        assert forall|i: int| 0 <= i < s.len() implies append_all_spec(s, rs)[i] == s[i] by {
            assert(append_all_spec(s1, rs.drop_first())[i] == s1[i]);
        }
    }
}

} // verus!
