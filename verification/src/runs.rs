use vstd::prelude::*;
use crate::json::{JsonValue, spec_get};
use crate::numfmt::{int_rep, i64_string};
use crate::schema::SchemaError;

verus! {

/// How many runs one listing asks for and reads: the first page only.
pub const RUNS_PAGE_SIZE: usize = 10;

/// The run entries a listing body holds: its `workflow_runs` array.
pub open spec fn runs_of(body: JsonValue) -> Option<Seq<JsonValue>> {
    match spec_get(body, "workflow_runs"@) {
        Some(JsonValue::Arr(entries)) => Some(entries@),
        _ => None,
    }
}

/// The identifier a run entry carries: its `id` member, which must be
/// an integer.
pub open spec fn run_id_of(entry: JsonValue) -> Option<int> {
    match spec_get(entry, "id"@) {
        Some(JsonValue::Int(i)) => Some(i as int),
        _ => None,
    }
}

/// How many of the listed entries are taken: all of them, capped at
/// the page size.
pub open spec fn runs_taken(entries: Seq<JsonValue>) -> nat {
    if entries.len() <= RUNS_PAGE_SIZE {
        entries.len()
    } else {
        RUNS_PAGE_SIZE as nat
    }
}

/// Reads the run identifiers out of a runs-listing body: the first
/// `RUNS_PAGE_SIZE` entries of its `workflow_runs` array, in response
/// order, each rendered in decimal.
///
/// Fails when the array is absent, or when a taken entry has no
/// integer `id`.
pub fn extract_run_ids(body: &JsonValue) -> (r: Result<Vec<String>, SchemaError>)
    ensures
        match r {
            Ok(ids) => {
                &&& runs_of(*body) is Some
                &&& ids@.len() == runs_taken(runs_of(*body)->0)
                &&& forall|i: int|
                    0 <= i < ids@.len() ==> run_id_of(#[trigger] runs_of(*body)->0[i]) is Some
                &&& forall|i: int|
                    0 <= i < ids@.len() ==> (#[trigger] ids@[i])@ == int_rep(
                        run_id_of(runs_of(*body)->0[i])->0,
                    )
            },
            Err(SchemaError::RunsNotArray) => runs_of(*body) is None,
            Err(SchemaError::RunIdMissing) => runs_of(*body) is Some && exists|i: int|
                0 <= i < runs_taken(runs_of(*body)->0) && run_id_of(
                    #[trigger] runs_of(*body)->0[i],
                ) is None,
            Err(_) => false,
        },
{
    let runs = match body.get("workflow_runs") {
        Some(v) => v,
        None => {
            return Err(SchemaError::RunsNotArray);
        },
    };
    let entries = match runs.as_array() {
        Some(a) => a,
        None => {
            return Err(SchemaError::RunsNotArray);
        },
    };
    let n = entries.len();
    let m = if n <= RUNS_PAGE_SIZE {
        n
    } else {
        RUNS_PAGE_SIZE
    };
    let mut ids: Vec<String> = Vec::new();
    let mut i: usize = 0;
    while i < m
        invariant
            runs_of(*body) == Some(entries@),
            m == runs_taken(entries@),
            m <= entries@.len(),
            0 <= i <= m,
            ids@.len() == i,
            forall|j: int| 0 <= j < i ==> run_id_of(#[trigger] entries@[j]) is Some,
            forall|j: int|
                0 <= j < i ==> (#[trigger] ids@[j])@ == int_rep(run_id_of(entries@[j])->0),
        decreases m - i,
    {
        let id_field = match entries[i].get("id") {
            Some(v) => v,
            None => {
                return Err(SchemaError::RunIdMissing);
            },
        };
        let id = match id_field.as_i64() {
            Some(x) => x,
            None => {
                return Err(SchemaError::RunIdMissing);
            },
        };
        ids.push(i64_string(id));
        i = i + 1;
    }
    Ok(ids)
}

/// The run to report on: the first identifier listed, there being
/// none when the listing was empty. The provider lists runs newest
/// first, so the first one is the most recent; this relies on that
/// order.
pub fn first_run(runs: &Vec<String>) -> (r: Option<&String>)
    ensures
        match r {
            Some(id) => runs@.len() > 0 && id == runs@[0],
            None => runs@.len() == 0,
        },
{
    if runs.len() > 0 {
        Some(&runs[0])
    } else {
        None
    }
}

} // verus!
