use vstd::prelude::*;
use crate::json::{JsonValue, lookup_fields, spec_get};
use crate::schema::SchemaError;

verus! {

/// The job entries a jobs-listing body holds: its `jobs` array.
pub open spec fn jobs_of(body: JsonValue) -> Option<Seq<JsonValue>> {
    match spec_get(body, "jobs"@) {
        Some(JsonValue::Arr(entries)) => Some(entries@),
        _ => None,
    }
}

/// Takes the job entries out of a jobs-listing body, in response
/// order. Fails when the body has no `jobs` array.
pub fn extract_jobs(body: JsonValue) -> (r: Result<Vec<JsonValue>, SchemaError>)
    ensures
        match r {
            Ok(jobs) => jobs_of(body) == Some(jobs@),
            Err(e) => e == SchemaError::JobsNotArray && jobs_of(body) is None,
        },
{
    let ghost orig = body;
    let mut fields = match body {
        JsonValue::Obj(fields) => fields,
        _ => {
            return Err(SchemaError::JobsNotArray);
        },
    };
    let ghost all_fields = fields@;
    proof {
        assert(orig == JsonValue::Obj(fields));
        assert(spec_get(orig, "jobs"@) == lookup_fields(all_fields, "jobs"@));
    }
    let key = "jobs".to_owned();
    let n = fields.len();
    let mut i: usize = 0;
    proof {
        assert(all_fields.skip(0) =~= all_fields);
    }
    while i < n
        invariant
            fields@ == all_fields,
            n == all_fields.len(),
            0 <= i <= n,
            key@ == "jobs"@,
            spec_get(orig, "jobs"@) == lookup_fields(all_fields, "jobs"@),
            orig == body,
            lookup_fields(all_fields, "jobs"@) == lookup_fields(all_fields.skip(i as int), "jobs"@),
        decreases n - i,
    {
        proof {
            assert(all_fields.skip(i as int)[0] == all_fields[i as int]);
        }
        if fields[i].0 == key {
            let member = fields.remove(i);
            return match member.1 {
                JsonValue::Arr(entries) => Ok(entries),
                _ => Err(SchemaError::JobsNotArray),
            };
        }
        proof {
            assert(all_fields.skip(i as int).drop_first() =~= all_fields.skip(i as int + 1));
        }
        i = i + 1;
    }
    proof {
        assert(all_fields.skip(n as int) =~= Seq::<(String, JsonValue)>::empty());
    }
    Err(SchemaError::JobsNotArray)
}

} // verus!
