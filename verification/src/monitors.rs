//! The monitors known to storage.

use crate::error::Error;
use crate::types::{Monitor, MonitorView, NewMonitor};
use crate::daemon::monitor_views;
use vstd::prelude::*;
use vstd::string::StringExecFns;

verus! {

/// Whether the identifiers grow from each monitor to the next.
pub open spec fn ascending(rows: Seq<MonitorView>) -> bool {
    forall|i: int, j: int| 0 <= i < j < rows.len() ==> rows[i].id < rows[j].id
}

/// The identifier that the next monitor gets: one more than the last, and
/// one for the first. There is none once the last identifier is the largest
/// that fits.
pub open spec fn next_id(rows: Seq<MonitorView>) -> Option<u64> {
    if rows.len() == 0 {
        Some(1)
    } else if rows.last().id < u64::MAX {
        Some((rows.last().id + 1) as u64)
    } else {
        None
    }
}

/// The stored monitors, in the order in which they were created.
#[derive(Debug)]
pub struct MonitorTable {
    rows: Vec<Monitor>,
}

impl View for MonitorTable {
    type V = Seq<MonitorView>;

    closed spec fn view(&self) -> Seq<MonitorView> {
        monitor_views(self.rows@)
    }
}

impl MonitorTable {
    /// Identifiers grow along the table. Every table that this module
    /// hands out is well formed, and its methods keep it so.
    pub open spec fn well_formed(&self) -> bool {
        ascending(self@)
    }

    /// A table without monitors.
    pub fn new() -> (table: MonitorTable)
        ensures
            table.well_formed(),
            table@ == Seq::<MonitorView>::empty(),
    {
        let table = MonitorTable { rows: Vec::new() };
        assert(table@ =~= Seq::<MonitorView>::empty());
        table
    }

    /// A table of the monitors in `rows`, which must come in the order of
    /// their identifiers, each identifier once.
    pub fn from_rows(rows: Vec<Monitor>) -> (table: Option<MonitorTable>)
        ensures
            table is Some <==> ascending(monitor_views(rows@)),
            table matches Some(t) ==> t.well_formed() && t@ == monitor_views(rows@),
    {
        let ghost views = monitor_views(rows@);
        let mut i: usize = 1;
        while i < rows.len()
            invariant
                1 <= i,
                views == monitor_views(rows@),
                forall|a: int, b: int|
                    0 <= a < b < i && b < views.len() ==> views[a].id < views[b].id,
            decreases rows.len() - i,
        {
            if rows[i - 1].id >= rows[i].id {
                assert(views[i - 1].id >= views[i as int].id);
                return None;
            }
            assert forall|a: int, b: int| 0 <= a < b < i + 1 && b < views.len() implies views[a].id
                < views[b].id by {
                if b == i && a < i - 1 {
                    assert(views[a].id < views[i - 1].id);
                }
            }
            i = i + 1;
        }
        Some(MonitorTable { rows })
    }

    /// The monitors, oldest first.
    pub fn rows(&self) -> (rows: &Vec<Monitor>)
        ensures
            monitor_views(rows@) == self@,
    {
        &self.rows
    }

    /// Stores `new` under the next identifier and returns the stored
    /// monitor. Storage refuses once identifiers have run out.
    pub fn insert(&mut self, new: NewMonitor) -> (stored: Result<Monitor, Error>)
        requires
            old(self).well_formed(),
        ensures
            final(self).well_formed(),
            match stored {
                Ok(monitor) => {
                    &&& next_id(old(self)@) == Some(monitor.id)
                    &&& monitor@ == new.stored(monitor.id)
                    &&& final(self)@ == old(self)@.push(monitor@)
                },
                Err(e) => {
                    &&& next_id(old(self)@) is None
                    &&& e matches Error::MysqlError(_)
                    &&& final(self)@ == old(self)@
                },
            },
    {
        let n = self.rows.len();
        let id: u64 = if n == 0 {
            1
        } else if self.rows[n - 1].id < u64::MAX {
            self.rows[n - 1].id + 1
        } else {
            return Err(Error::MysqlError(String::from_str("Out of range value for column 'id'")));
        };
        let monitor = Monitor::from_new(id, new);
        let copy = monitor.duplicate();
        let ghost before = self@;
        self.rows.push(monitor);
        proof {
            assert(self@ =~= before.push(copy@));
            assert forall|i: int, j: int| 0 <= i < j < self@.len() implies self@[i].id
                < self@[j].id by {
                if j == n && i < n - 1 {
                    assert(before[i].id < before[n - 1].id);
                }
            }
        }
        Ok(copy)
    }
}

} // verus!
