//! What each request does to the state of the service.
//!
//! Every function takes the request and the parts of the state that it
//! touches, and returns what is sent back: the record on success, the error
//! that [`Error::error_response`] renders on failure.

use crate::commands::{after_completion, completion_error, has_pending, is_stalest, position_of,
    CommandQueue};
use crate::daemon::Channel;
use crate::error::Error;
use crate::monitors::MonitorTable;
use crate::types::{Command, CommandView, Monitor, NewCommand, NewMonitor};
use vstd::prelude::*;

verus! {

/// The query of a request for the next command of a device.
#[derive(Debug, Clone)]
pub struct CommandParams {
    pub serial: String,
}

/// Queues a pending command for the device named in `new_command`.
pub fn create_command(new_command: NewCommand, queue: &mut CommandQueue) -> (created: Result<
    Command,
    Error,
>)
    requires
        old(queue).well_formed(),
    ensures
        final(queue).well_formed(),
        match created {
            Ok(command) => {
                &&& crate::commands::next_id(old(queue)@) == Some(command.id)
                &&& command@ == (CommandView {
                    id: command.id,
                    serial: new_command.serial@,
                    completed_at: None,
                })
                &&& final(queue)@ == old(queue)@.push(command@)
            },
            Err(e) => {
                &&& crate::commands::next_id(old(queue)@) is None
                &&& e matches Error::MysqlError(_)
                &&& final(queue)@ == old(queue)@
            },
        },
{
    queue.create(new_command.serial)
}

/// The command that the device named in `params` is to work on next: its
/// pending command that has waited longest. `NotFound` where it has none.
pub fn get_stalest_command(params: &CommandParams, queue: &CommandQueue) -> (found: Result<
    Command,
    Error,
>)
    requires
        queue.well_formed(),
    ensures
        match found {
            Ok(command) => is_stalest(queue@, params.serial@, command@),
            Err(e) => e == Error::NotFound && !has_pending(queue@, params.serial@),
        },
{
    queue.get_stalest(&params.serial)
}

/// Marks the command `id` as done, now. `NotFound` where there is no such
/// command, `CommandAlreadyCompleted` where it was done before; in both
/// cases nothing changes.
pub fn update_command(id: u64, queue: &mut CommandQueue) -> (done: Result<Command, Error>)
    requires
        old(queue).well_formed(),
    ensures
        final(queue).well_formed(),
        match done {
            Ok(command) => {
                &&& completion_error(old(queue)@, id) is None
                &&& command.completed_at matches Some(moment)
                &&& command@ == old(queue)@[position_of(old(queue)@, id)].completed(moment)
                &&& final(queue)@ == after_completion(old(queue)@, id, moment)
            },
            Err(e) => completion_error(old(queue)@, id) == Some(e) && final(queue)@ == old(queue)@,
        },
{
    queue.complete(id)
}

/// Validates `new_monitor`, stores it and registers it with the scheduler.
/// A monitor that is refused is neither stored nor registered.
pub fn create_monitor(new_monitor: NewMonitor, table: &mut MonitorTable, channel: &mut Channel)
    -> (created: Result<Monitor, Error>)
    requires
        old(table).well_formed(),
    ensures
        final(table).well_formed(),
        match created {
            Ok(monitor) => {
                &&& new_monitor.acceptable()
                &&& crate::monitors::next_id(old(table)@) == Some(monitor.id)
                &&& monitor@ == new_monitor.stored(monitor.id)
                &&& final(table)@ == old(table)@.push(monitor@)
                &&& final(channel)@ == old(channel)@.push(monitor@)
            },
            Err(e) => {
                &&& final(table)@ == old(table)@
                &&& final(channel)@ == old(channel)@
                &&& if new_monitor.acceptable() {
                    crate::monitors::next_id(old(table)@) is None && e matches Error::MysqlError(_)
                } else {
                    e matches Error::InvalidMonitoring(reason) && reason@
                        == new_monitor.objection()
                }
            },
        },
{
    match new_monitor.validate() {
        Err(e) => Err(e),
        Ok(()) => {
            match table.insert(new_monitor) {
                Err(e) => Err(e),
                Ok(monitor) => {
                    channel.send(monitor.duplicate());
                    Ok(monitor)
                },
            }
        },
    }
}

} // verus!
