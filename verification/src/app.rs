//! The dashboard's state machine: the series, the exit flag, and the table
//! selection, together with the pure decisions of the cooperative loop —
//! what a key press does, when the timed refresh fires, and how a freshly
//! fetched reading enters the series. The loop's I/O (drawing, polling,
//! fetching) lives outside and feeds plain values in.

use vstd::prelude::*;
use crate::monitor::{spec_normalize, EnergyMonitor, CURRENT_LIMIT};
use crate::reading::EnergyReading;
use crate::selection::{spec_move_selection, SelectionState};
use crate::store::{append_if_new_spec, Store};

verus! {

/// Minimum spacing between two timed refreshes.
pub const REFRESH_INTERVAL_MS: u64 = 60_000;

/// Upper bound on one keyboard poll.
pub const POLL_TIMEOUT_MS: u64 = 100;

/// A decoded key press, as far as the dashboard distinguishes them.
#[derive(Clone, Copy, Debug, PartialEq, Eq, Structural)]
pub enum InputKey {
    Char(char),
    Up,
    Down,
    Other,
}

/// The records an initial bulk load keeps: each reading that normalizes,
/// in delivery order, with no dedup.
pub open spec fn normalize_all(rs: Seq<EnergyReading>) -> Seq<EnergyMonitor>
    decreases rs.len(),
{
    if rs.len() == 0 {
        Seq::empty()
    } else {
        let rest = normalize_all(rs.drop_last());
        match spec_normalize(rs.last()) {
            Some(m) => rest.push(m),
            None => rest,
        }
    }
}

/// The dashboard state owned by the loop.
pub struct App {
    pub data: Store,
    pub exit: bool,
    pub left_bottom_block_state: SelectionState,
}

impl App {
    /// Well-formedness: every record is a normalized observation, and the
    /// selection points inside the series, is present whenever the series
    /// is non-empty, and absent whenever it is empty.
    pub open spec fn wf(self) -> bool {
        &&& (self.left_bottom_block_state.selected matches Some(i) ==> i < self.data@.len())
        &&& (self.data@.len() > 0 <==> self.left_bottom_block_state.selected is Some)
        &&& forall|i: int| 0 <= i < self.data@.len() ==> (#[trigger] self.data@[i]).wf()
    }

    /// Builds the dashboard from the initial bulk load: every reading that
    /// normalizes is kept in delivery order, readings that do not are
    /// skipped independently, and the selection starts on the first row of
    /// a non-empty series.
    pub fn new(readings: &Vec<EnergyReading>) -> (r: App)
        requires
            forall|i: int|
                0 <= i < readings@.len() ==> -CURRENT_LIMIT <= (#[trigger] readings@[i]).current
                    <= CURRENT_LIMIT,
        ensures
            r.wf(),
            !r.exit,
            r.data@ == normalize_all(readings@),
            r.left_bottom_block_state.selected == if normalize_all(readings@).len() > 0 {
                Some(0usize)
            } else {
                None::<usize>
            },
    {
        let mut data = Store::new();
        let mut i: usize = 0;
        proof {
            assert(readings@.subrange(0, 0) =~= Seq::<EnergyReading>::empty());
        }
        while i < readings.len()
            invariant
                i <= readings@.len(),
                forall|k: int|
                    0 <= k < readings@.len() ==> -CURRENT_LIMIT <= (#[trigger] readings@[k]).current
                        <= CURRENT_LIMIT,
                data@ == normalize_all(readings@.subrange(0, i as int)),
                forall|k: int| 0 <= k < data@.len() ==> (#[trigger] data@[k]).wf(),
            decreases readings@.len() - i,
        {
            let monitor = EnergyMonitor::new(&readings[i]);
            proof {
                let next = readings@.subrange(0, i + 1);
                assert(next.drop_last() =~= readings@.subrange(0, i as int));
                assert(next.last() == readings@[i as int]);
            }
            if let Some(m) = monitor {
                data.push(m);
            }
            i += 1;
        }
        proof {
            assert(readings@.subrange(0, readings@.len() as int) =~= readings@);
        }
        let mut left_bottom_block_state = SelectionState::default();
        left_bottom_block_state.select_initial(data.len());
        App { data, exit: false, left_bottom_block_state }
    }

    /// Feeds one freshly fetched reading through normalization and the
    /// dedup rule. A reading that fails to normalize changes nothing; the
    /// selection keeps its row, except that a series growing out of
    /// emptiness gains the initial selection.
    pub fn update_data_with_last_reading(&mut self, reading: &EnergyReading)
        requires
            old(self).wf(),
            -CURRENT_LIMIT <= reading.current <= CURRENT_LIMIT,
        ensures
            final(self).wf(),
            final(self).exit == old(self).exit,
            final(self).data@ == match spec_normalize(*reading) {
                Some(m) => append_if_new_spec(old(self).data@, m),
                None => old(self).data@,
            },
            final(self).left_bottom_block_state.selected == if old(self).left_bottom_block_state.selected is Some {
                old(self).left_bottom_block_state.selected
            } else if final(self).data@.len() > 0 {
                Some(0usize)
            } else {
                None::<usize>
            },
    {
        if let Some(m) = EnergyMonitor::new(reading) {
            self.data.append_if_new(m);
        }
        if self.left_bottom_block_state.selected().is_none() {
            self.left_bottom_block_state.select_initial(self.data.len());
        }
    }

    /// Moves the table selection by `delta`: modulo the row count for a
    /// forward move, a single wrapping step back otherwise; a no-op while
    /// nothing is selected.
    pub fn move_selection(&mut self, delta: isize)
        requires
            old(self).wf(),
        ensures
            final(self).wf(),
            final(self).data == old(self).data,
            final(self).exit == old(self).exit,
            final(self).left_bottom_block_state.selected == spec_move_selection(
                old(self).left_bottom_block_state.selected,
                old(self).data@.len() as int,
                delta as int,
            ),
    {
        if let Some(selected) = self.left_bottom_block_state.selected() {
            let new_selected = crate::selection::move_selection_index(
                selected,
                self.data.len(),
                delta,
            );
            self.left_bottom_block_state.select(Some(new_selected));
        }
    }

    /// Applies one key press: `q` requests exit, Down and Up move the
    /// selection one row forward or back, anything else is ignored.
    pub fn handle_key_event(&mut self, key: InputKey)
        requires
            old(self).wf(),
        ensures
            final(self).wf(),
            final(self).data == old(self).data,
            key == InputKey::Char('q') ==> final(self).exit
                && final(self).left_bottom_block_state.selected == old(self).left_bottom_block_state.selected,
            key != InputKey::Char('q') ==> final(self).exit == old(self).exit,
            key == InputKey::Down ==> final(self).left_bottom_block_state.selected
                == spec_move_selection(
                old(self).left_bottom_block_state.selected,
                old(self).data@.len() as int,
                1,
            ),
            key == InputKey::Up ==> final(self).left_bottom_block_state.selected
                == spec_move_selection(
                old(self).left_bottom_block_state.selected,
                old(self).data@.len() as int,
                -1,
            ),
            key matches InputKey::Char(c) && c != 'q' ==> final(self).left_bottom_block_state.selected == old(self).left_bottom_block_state.selected,
            key == InputKey::Other ==> final(self).left_bottom_block_state.selected == old(self).left_bottom_block_state.selected,
    {
        match key {
            InputKey::Char(c) => {
                if c == 'q' {
                    self.exit = true;
                }
            },
            InputKey::Down => self.move_selection(1),
            InputKey::Up => self.move_selection(-1),
            InputKey::Other => {},
        }
    }
}

/// Whether the timed refresh is due: exactly when at least the refresh
/// interval has elapsed since the last one.
pub fn should_refresh(elapsed_ms: u64) -> (r: bool)
    ensures
        r == (elapsed_ms >= REFRESH_INTERVAL_MS),
{
    elapsed_ms >= REFRESH_INTERVAL_MS
}

} // verus!
