//! The output stage: what to do after each attempt to write a result line.

use vstd::prelude::*;

verus! {

/// What became of one write of a line and its terminator.
#[derive(Clone, Copy, Debug, PartialEq, Eq, Structural)]
pub enum WriteOutcome {
    Written,
    /// The reader downstream has closed its end.
    BrokenPipe,
    /// Any other fault of the output.
    Failed,
}

/// The output stage's next move.
#[derive(Clone, Copy, Debug, PartialEq, Eq, Structural)]
pub enum SinkStep {
    /// Write the next line.
    Continue,
    /// End the whole run now, successfully: nobody reads the rest.
    StopSuccess,
    /// End the run with a failure, reporting the fault.
    StopFailure,
}

/// A closed reader ends the run successfully; any other fault is fatal.
pub fn after_write(o: WriteOutcome) -> (r: SinkStep)
    ensures
        o == WriteOutcome::Written ==> r == SinkStep::Continue,
        o == WriteOutcome::BrokenPipe ==> r == SinkStep::StopSuccess,
        o == WriteOutcome::Failed ==> r == SinkStep::StopFailure,
{
    match o {
        WriteOutcome::Written => SinkStep::Continue,
        WriteOutcome::BrokenPipe => SinkStep::StopSuccess,
        WriteOutcome::Failed => SinkStep::StopFailure,
    }
}

/// The exit status that a run ends with after the output stage stopped.
pub open spec fn exit_status_of(s: SinkStep) -> i32 {
    match s {
        SinkStep::StopFailure => 1,
        _ => 0,
    }
}

/// The process exit status for an output stage that has come to `s`:
/// zero but for a fatal write fault.
pub fn exit_status(s: SinkStep) -> (r: i32)
    ensures
        r == exit_status_of(s),
{
    match s {
        SinkStep::StopFailure => 1,
        _ => 0,
    }
}

} // verus!
