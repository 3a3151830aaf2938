//! The command queue: work for devices, handed out oldest first and
//! completed at most once.

use crate::clock::utc_now;
use crate::error::Error;
use crate::types::{Command, CommandView};
use chrono::NaiveDateTime;
use vstd::prelude::*;
use vstd::string::StringExecFns;

verus! {

/// The commands that a list of commands holds.
pub open spec fn command_views(rows: Seq<Command>) -> Seq<CommandView> {
    rows.map_values(|c: Command| c@)
}

/// Whether the identifiers grow from each row to the next, as they do where
/// every new row gets a larger identifier than all before it.
pub open spec fn ascending(rows: Seq<CommandView>) -> bool {
    forall|i: int, j: int| 0 <= i < j < rows.len() ==> rows[i].id < rows[j].id
}

/// Whether the row at `i` is a pending command for `serial`.
pub open spec fn waits_for(rows: Seq<CommandView>, serial: Seq<char>, i: int) -> bool {
    0 <= i < rows.len() && rows[i].serial == serial && rows[i].pending()
}

/// Whether some command is pending for `serial`.
pub open spec fn has_pending(rows: Seq<CommandView>, serial: Seq<char>) -> bool {
    exists|i: int| waits_for(rows, serial, i)
}

/// Whether `command` is the pending command for `serial` that has waited
/// longest: the one with the smallest identifier.
pub open spec fn is_stalest(rows: Seq<CommandView>, serial: Seq<char>, command: CommandView)
    -> bool {
    &&& exists|i: int| waits_for(rows, serial, i) && rows[i] == command
    &&& forall|j: int| waits_for(rows, serial, j) ==> command.id <= rows[j].id
}

/// Whether a command has the identifier `id`.
pub open spec fn has_id(rows: Seq<CommandView>, id: u64) -> bool {
    exists|i: int| 0 <= i < rows.len() && rows[i].id == id
}

/// The position of the command with the identifier `id`.
pub open spec fn position_of(rows: Seq<CommandView>, id: u64) -> int {
    choose|i: int| 0 <= i < rows.len() && rows[i].id == id
}

/// Why the command `id` cannot be completed, if it cannot.
pub open spec fn completion_error(rows: Seq<CommandView>, id: u64) -> Option<Error> {
    if !has_id(rows, id) {
        Some(Error::NotFound)
    } else if !rows[position_of(rows, id)].pending() {
        Some(Error::CommandAlreadyCompleted)
    } else {
        None
    }
}

/// The commands after an attempt to complete the command `id` at `moment`:
/// a pending command gets its time of completion, and nothing else changes.
pub open spec fn after_completion(rows: Seq<CommandView>, id: u64, moment: NaiveDateTime) -> Seq<
    CommandView,
> {
    if completion_error(rows, id) is None {
        rows.update(position_of(rows, id), rows[position_of(rows, id)].completed(moment))
    } else {
        rows
    }
}

/// The identifier that the next command gets: one more than the last, and
/// one for the first. There is none once the last identifier is the largest
/// that fits.
pub open spec fn next_id(rows: Seq<CommandView>) -> Option<u64> {
    if rows.len() == 0 {
        Some(1)
    } else if rows.last().id < u64::MAX {
        Some((rows.last().id + 1) as u64)
    } else {
        None
    }
}

/// The pending command for a serial that has waited longest is the first
/// pending command for it: identifiers grow along the rows.
pub proof fn lemma_first_waiting_is_stalest(rows: Seq<CommandView>, serial: Seq<char>, i: int)
    requires
        ascending(rows),
        waits_for(rows, serial, i),
        forall|j: int| 0 <= j < i ==> !waits_for(rows, serial, j),
    ensures
        is_stalest(rows, serial, rows[i]),
{
    assert forall|j: int| waits_for(rows, serial, j) implies rows[i].id <= rows[j].id by {
        if j != i {
            assert(i < j);
        }
    }
}

/// At most one command is the stalest for a serial, and it is pending.
pub proof fn lemma_stalest_is_unique(
    rows: Seq<CommandView>,
    serial: Seq<char>,
    a: CommandView,
    b: CommandView,
)
    requires
        ascending(rows),
        is_stalest(rows, serial, a),
        is_stalest(rows, serial, b),
    ensures
        a == b,
        a.pending(),
        a.serial == serial,
{
    let i = choose|i: int| waits_for(rows, serial, i) && rows[i] == a;
    let j = choose|j: int| waits_for(rows, serial, j) && rows[j] == b;
    assert(a.id <= rows[j].id);
    assert(b.id <= rows[i].id);
    if i < j {
        assert(rows[i].id < rows[j].id);
    } else if j < i {
        assert(rows[j].id < rows[i].id);
    }
}

/// Completing is safe to repeat: the first attempt on a pending command
/// succeeds and sets its time of completion; a second attempt on the same
/// identifier is refused as already completed and changes nothing, whatever
/// the moment of either attempt.
pub proof fn lemma_complete_once(
    rows: Seq<CommandView>,
    id: u64,
    first: NaiveDateTime,
    second: NaiveDateTime,
)
    requires
        ascending(rows),
        has_id(rows, id),
        rows[position_of(rows, id)].pending(),
    ensures
        completion_error(rows, id) is None,
        after_completion(rows, id, first)[position_of(rows, id)].completed_at == Some(first),
        completion_error(after_completion(rows, id, first), id) == Some(
            Error::CommandAlreadyCompleted,
        ),
        after_completion(after_completion(rows, id, first), id, second) == after_completion(
            rows,
            id,
            first,
        ),
{
    let at = position_of(rows, id);
    let then = after_completion(rows, id, first);
    assert(then[at].id == id);
    lemma_position(then, id, at);
}

/// A time of completion, once set, stays: no attempt to complete any
/// command changes a command that was completed before, and every attempt
/// leaves each command its identifier and its serial.
pub proof fn lemma_completion_is_final(
    rows: Seq<CommandView>,
    id: u64,
    moment: NaiveDateTime,
    i: int,
)
    requires
        0 <= i < rows.len(),
    ensures
        after_completion(rows, id, moment).len() == rows.len(),
        after_completion(rows, id, moment)[i].id == rows[i].id,
        after_completion(rows, id, moment)[i].serial == rows[i].serial,
        !rows[i].pending() ==> after_completion(rows, id, moment)[i] == rows[i],
{
}

/// Where identifiers grow along the rows, a command is at the one position
/// that holds its identifier.
pub proof fn lemma_position(rows: Seq<CommandView>, id: u64, at: int)
    requires
        ascending(rows),
        0 <= at < rows.len(),
        rows[at].id == id,
    ensures
        has_id(rows, id),
        position_of(rows, id) == at,
{
    let found = position_of(rows, id);
    if found < at {
        assert(rows[found].id < rows[at].id);
    } else if at < found {
        assert(rows[at].id < rows[found].id);
    }
}

/// The commands of all devices, in the order in which they were created.
#[derive(Debug)]
pub struct CommandQueue {
    rows: Vec<Command>,
}

impl View for CommandQueue {
    type V = Seq<CommandView>;

    closed spec fn view(&self) -> Seq<CommandView> {
        command_views(self.rows@)
    }
}

impl CommandQueue {
    /// Identifiers grow along the queue. Every queue that this module
    /// hands out is well formed, and its methods keep it so.
    pub open spec fn well_formed(&self) -> bool {
        ascending(self@)
    }

    /// A queue without commands.
    pub fn new() -> (queue: CommandQueue)
        ensures
            queue.well_formed(),
            queue@ == Seq::<CommandView>::empty(),
    {
        let queue = CommandQueue { rows: Vec::new() };
        assert(queue@ =~= Seq::<CommandView>::empty());
        queue
    }

    /// A queue of the commands in `rows`, which must come in the order of
    /// their identifiers, each identifier once.
    pub fn from_rows(rows: Vec<Command>) -> (queue: Option<CommandQueue>)
        ensures
            queue is Some <==> ascending(command_views(rows@)),
            queue matches Some(q) ==> q.well_formed() && q@ == command_views(rows@),
    {
        let ghost views = command_views(rows@);
        let mut i: usize = 1;
        while i < rows.len()
            invariant
                1 <= i,
                views == command_views(rows@),
                forall|a: int, b: int|
                    0 <= a < b < i && b < views.len() ==> views[a].id < views[b].id,
            decreases rows.len() - i,
        {
            if rows[i - 1].id >= rows[i].id {
                assert(views[i - 1].id >= views[i as int].id);
                return None;
            }
            assert forall|a: int, b: int| 0 <= a < b < i + 1 && b < views.len() implies views[a].id
                < views[b].id by {
                if b == i && a < i - 1 {
                    assert(views[a].id < views[i - 1].id);
                }
            }
            i = i + 1;
        }
        Some(CommandQueue { rows })
    }

    /// The commands, oldest first.
    pub fn rows(&self) -> (rows: &Vec<Command>)
        ensures
            command_views(rows@) == self@,
    {
        &self.rows
    }

    /// Creates a pending command for `serial` and returns it. Storage
    /// refuses once identifiers have run out.
    pub fn create(&mut self, serial: String) -> (created: Result<Command, Error>)
        requires
            old(self).well_formed(),
        ensures
            final(self).well_formed(),
            match created {
                Ok(command) => {
                    &&& next_id(old(self)@) == Some(command.id)
                    &&& command@ == (CommandView {
                        id: command.id,
                        serial: serial@,
                        completed_at: None,
                    })
                    &&& final(self)@ == old(self)@.push(command@)
                },
                Err(e) => {
                    &&& next_id(old(self)@) is None
                    &&& e matches Error::MysqlError(_)
                    &&& final(self)@ == old(self)@
                },
            },
    {
        let n = self.rows.len();
        let id: u64 = if n == 0 {
            1
        } else if self.rows[n - 1].id < u64::MAX {
            self.rows[n - 1].id + 1
        } else {
            return Err(Error::MysqlError(String::from_str("Out of range value for column 'id'")));
        };
        let command = Command { id, serial: serial.clone(), completed_at: None };
        let ghost before = command_views(self.rows@);
        self.rows.push(Command { id, serial, completed_at: None });
        proof {
            let after = command_views(self.rows@);
            assert(after =~= before.push(command@));
            assert forall|i: int, j: int| 0 <= i < j < after.len() implies after[i].id
                < after[j].id by {
                if j == n && i < n - 1 {
                    assert(before[i].id < before[n - 1].id);
                }
            }
        }
        Ok(command)
    }

    /// The pending command for `serial` that has waited longest, or
    /// `NotFound` where none is pending.
    pub fn get_stalest(&self, serial: &String) -> (found: Result<Command, Error>)
        requires
            self.well_formed(),
        ensures
            match found {
                Ok(command) => is_stalest(self@, serial@, command@),
                Err(e) => e == Error::NotFound && !has_pending(self@, serial@),
            },
    {
        let mut i: usize = 0;
        while i < self.rows.len()
            invariant
                i <= self.rows.len(),
                ascending(self@),
                forall|j: int| 0 <= j < i ==> !waits_for(self@, serial@, j),
            decreases self.rows.len() - i,
        {
            if self.rows[i].serial == *serial && self.rows[i].is_pending() {
                proof {
                    assert(waits_for(self@, serial@, i as int));
                    lemma_first_waiting_is_stalest(self@, serial@, i as int);
                }
                return Ok(self.rows[i].duplicate());
            }
            i = i + 1;
        }
        Err(Error::NotFound)
    }

    /// Completes the command `id` at `moment`: `NotFound` where no command
    /// has that identifier, `CommandAlreadyCompleted` where it was
    /// completed before, else the command as it now stands.
    pub fn complete_at(&mut self, id: u64, moment: NaiveDateTime) -> (done: Result<Command, Error>)
        requires
            old(self).well_formed(),
        ensures
            final(self).well_formed(),
            final(self)@ == after_completion(old(self)@, id, moment),
            match done {
                Ok(command) => {
                    &&& completion_error(old(self)@, id) is None
                    &&& command@ == old(self)@[position_of(old(self)@, id)].completed(moment)
                },
                Err(e) => completion_error(old(self)@, id) == Some(e),
            },
    {
        let mut i: usize = 0;
        while i < self.rows.len()
            invariant
                i <= self.rows.len(),
                self.rows == old(self).rows,
                ascending(self@),
                forall|j: int| 0 <= j < i ==> self@[j].id != id,
            decreases self.rows.len() - i,
        {
            if self.rows[i].id == id {
                proof {
                    lemma_position(self@, id, i as int);
                }
                if !self.rows[i].is_pending() {
                    return Err(Error::CommandAlreadyCompleted);
                }
                let ghost before = self@;
                self.rows[i].completed_at = Some(moment);
                proof {
                    assert(self@ =~= before.update(i as int, before[i as int].completed(moment)));
                    assert forall|a: int, b: int| 0 <= a < b < self@.len() implies self@[a].id
                        < self@[b].id by {
                        assert(before[a].id < before[b].id);
                    }
                }
                return Ok(self.rows[i].duplicate());
            }
            i = i + 1;
        }
        Err(Error::NotFound)
    }

    /// Completes the command `id` at the moment that the system clock
    /// shows. See [`CommandQueue::complete_at`] for what a given moment
    /// leads to.
    pub fn complete(&mut self, id: u64) -> (done: Result<Command, Error>)
        requires
            old(self).well_formed(),
        ensures
            final(self).well_formed(),
            match done {
                Ok(command) => {
                    &&& completion_error(old(self)@, id) is None
                    &&& command.completed_at matches Some(moment)
                    &&& command@ == old(self)@[position_of(old(self)@, id)].completed(moment)
                    &&& final(self)@ == after_completion(old(self)@, id, moment)
                },
                Err(e) => completion_error(old(self)@, id) == Some(e) && final(self)@ == old(self)@,
            },
    {
        self.complete_at(id, utc_now())
    }
}

} // verus!
