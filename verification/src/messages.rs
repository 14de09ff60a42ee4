//! The lines that the pool's threads write to the operational log.

use crate::text::{append_decimal, decimal_text};
use vstd::prelude::*;
use vstd::string::*;

verus! {

/// The line written when worker `id` is told to stop, before it is joined.
pub open spec fn shutting_down_text(id: nat) -> Seq<char> {
    "Shutting down thread, id: "@ + decimal_text(id)
}

/// The line written when worker `id` has claimed a job.
pub open spec fn got_job_text(id: nat) -> Seq<char> {
    "Worker "@ + decimal_text(id) + " got a job; executing."@
}

/// The line written when worker `id` leaves its loop.
pub open spec fn disconnected_text(id: nat) -> Seq<char> {
    "Worker "@ + decimal_text(id) + " disconnected; shutting down."@
}

/// The line to write when worker `id` is told to stop.
pub fn shutting_down(id: usize) -> (line: String)
    ensures
        line@ == shutting_down_text(id as nat),
{
    let mut line = String::from_str("Shutting down thread, id: ");
    append_decimal(&mut line, id);
    line
}

/// The line to write when worker `id` has claimed a job.
pub fn got_job(id: usize) -> (line: String)
    ensures
        line@ == got_job_text(id as nat),
{
    let mut line = String::from_str("Worker ");
    append_decimal(&mut line, id);
    line.append(" got a job; executing.");
    line
}

/// The line to write when worker `id` leaves its loop.
pub fn disconnected(id: usize) -> (line: String)
    ensures
        line@ == disconnected_text(id as nat),
{
    let mut line = String::from_str("Worker ");
    append_decimal(&mut line, id);
    line.append(" disconnected; shutting down.");
    line
}

} // verus!
