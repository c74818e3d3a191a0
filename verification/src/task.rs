//! A proving task handed out by the orchestrator.

use vstd::prelude::*;

verus! {

/// A proving task: its identifier, the guest program and the public inputs.
#[derive(Debug, Clone, PartialEq, Eq)]
pub struct Task {
    pub task_id: String,
    pub program_id: String,
    pub public_inputs: Vec<u8>,
}

impl Task {
    /// A task with the given fields.
    pub fn new(task_id: String, program_id: String, public_inputs: Vec<u8>) -> (t: Task)
        ensures
            t.task_id == task_id,
            t.program_id == program_id,
            t.public_inputs == public_inputs,
    {
        Task { task_id, program_id, public_inputs }
    }
}

} // verus!
