use vstd::prelude::*;

verus! {

/// Why a response body could not be read: the shape the provider
/// promised was not there. Every one of these is fatal; the tool has
/// no fallback reading of an unexpected shape.
#[derive(Clone, Copy, Debug, PartialEq, Eq, Structural)]
pub enum SchemaError {
    /// The runs listing has no `workflow_runs` array.
    RunsNotArray,
    /// A run entry's `id` is absent or not an integer.
    RunIdMissing,
    /// The jobs listing has no `jobs` array.
    JobsNotArray,
    /// A job's `name` is absent or not a string.
    JobNameNotString,
    /// A job's `steps` is absent or not an array.
    StepsNotArray,
    /// A step's `name` is absent or not a string.
    StepNameNotString,
    /// A step's `status` is absent or not a string.
    StepStatusNotString,
    /// A step's `started_at` or `completed_at` is absent or not a string.
    StepTimeNotString,
    /// A step's `started_at` or `completed_at` does not parse as RFC 3339.
    StepTimeUnparsable,
}

} // verus!
