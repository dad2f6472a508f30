use vstd::prelude::*;
use vstd::string::StringExecFns;
use crate::json::{JsonValue, spec_get};
use crate::numfmt::{int_rep, i64_string};
use crate::rfc3339::{rfc3339_epoch, parse_rfc3339_secs};
use crate::schema::SchemaError;

verus! {

/// What the report says of one step: its name, its status, and how
/// long it ran in whole seconds (completion time minus start time).
pub ghost struct SpecStep {
    pub name: Seq<char>,
    pub status: Seq<char>,
    pub duration: int,
}

/// What the report says of one job: its name and its steps, in order.
pub ghost struct SpecJob {
    pub name: Seq<char>,
    pub steps: Seq<SpecStep>,
}

/// One reported step.
pub struct StepReport {
    pub name: String,
    pub status: String,
    pub duration_secs: i64,
}

/// One reported job.
pub struct JobReport {
    pub name: String,
    pub steps: Vec<StepReport>,
}

impl View for StepReport {
    type V = SpecStep;

    open spec fn view(&self) -> SpecStep {
        SpecStep { name: self.name@, status: self.status@, duration: self.duration_secs as int }
    }
}

impl View for JobReport {
    type V = SpecJob;

    open spec fn view(&self) -> SpecJob {
        SpecJob { name: self.name@, steps: self.steps@.map_values(|s: StepReport| s@) }
    }
}

pub open spec fn step_views(v: Seq<StepReport>) -> Seq<SpecStep> {
    v.map_values(|s: StepReport| s@)
}

pub open spec fn job_views(v: Seq<JobReport>) -> Seq<SpecJob> {
    v.map_values(|j: JobReport| j@)
}

pub open spec fn line_views(v: Seq<String>) -> Seq<Seq<char>> {
    v.map_values(|l: String| l@)
}

/// What reading one step out of its JSON entry yields: its `name`,
/// `status`, `started_at` and `completed_at` members must be strings,
/// the two timestamps must be RFC 3339 date-times, and the duration is
/// their difference in seconds. The first missing piece, in that
/// order, is the error.
pub open spec fn spec_step(step: JsonValue) -> Result<SpecStep, SchemaError> {
    match spec_get(step, "name"@) {
        Some(JsonValue::Str(name)) => match spec_get(step, "status"@) {
            Some(JsonValue::Str(status)) => match spec_get(step, "started_at"@) {
                Some(JsonValue::Str(started)) => match spec_get(step, "completed_at"@) {
                    Some(JsonValue::Str(completed)) => match rfc3339_epoch(started@) {
                        Some(s0) => match rfc3339_epoch(completed@) {
                            Some(f0) => Ok(
                                SpecStep {
                                    name: name@,
                                    status: status@,
                                    duration: f0 - s0,
                                },
                            ),
                            _ => Err(SchemaError::StepTimeUnparsable),
                        },
                        _ => Err(SchemaError::StepTimeUnparsable),
                    },
                    _ => Err(SchemaError::StepTimeNotString),
                },
                _ => Err(SchemaError::StepTimeNotString),
            },
            _ => Err(SchemaError::StepStatusNotString),
        },
        _ => Err(SchemaError::StepNameNotString),
    }
}

/// What reading a step list yields: every step in order, or the first
/// step's error.
pub open spec fn spec_steps(steps: Seq<JsonValue>) -> Result<Seq<SpecStep>, SchemaError>
    decreases steps.len(),
{
    if steps.len() == 0 {
        Ok(Seq::empty())
    } else {
        match spec_step(steps[0]) {
            Ok(s) => match spec_steps(steps.drop_first()) {
                Ok(rest) => Ok(seq![s] + rest),
                Err(e) => Err(e),
            },
            Err(e) => Err(e),
        }
    }
}

/// What reading one job yields: its `name` member must be a string and
/// its `steps` member an array, whose steps are read in order.
pub open spec fn spec_job(job: JsonValue) -> Result<SpecJob, SchemaError> {
    match spec_get(job, "name"@) {
        Some(JsonValue::Str(name)) => match spec_get(job, "steps"@) {
            Some(JsonValue::Arr(steps)) => match spec_steps(steps@) {
                Ok(ss) => Ok(SpecJob { name: name@, steps: ss }),
                Err(e) => Err(e),
            },
            _ => Err(SchemaError::StepsNotArray),
        },
        _ => Err(SchemaError::JobNameNotString),
    }
}

/// What reading a job list yields: every job in order, or the first
/// job's error.
pub open spec fn spec_report(jobs: Seq<JsonValue>) -> Result<Seq<SpecJob>, SchemaError>
    decreases jobs.len(),
{
    if jobs.len() == 0 {
        Ok(Seq::empty())
    } else {
        match spec_job(jobs[0]) {
            Ok(j) => match spec_report(jobs.drop_first()) {
                Ok(rest) => Ok(seq![j] + rest),
                Err(e) => Err(e),
            },
            Err(e) => Err(e),
        }
    }
}

/// Reads one step's record out of its JSON entry.
pub fn step_report(step: &JsonValue) -> (r: Result<StepReport, SchemaError>)
    ensures
        match r {
            Ok(s) => spec_step(*step) == Ok::<SpecStep, SchemaError>(s@),
            Err(e) => spec_step(*step) == Err::<SpecStep, SchemaError>(e),
        },
{
    let name = match step.get("name") {
        Some(v) => v,
        None => {
            return Err(SchemaError::StepNameNotString);
        },
    };
    let name = match name.as_str() {
        Some(s) => s,
        None => {
            return Err(SchemaError::StepNameNotString);
        },
    };
    let status = match step.get("status") {
        Some(v) => v,
        None => {
            return Err(SchemaError::StepStatusNotString);
        },
    };
    let status = match status.as_str() {
        Some(s) => s,
        None => {
            return Err(SchemaError::StepStatusNotString);
        },
    };
    let started = match step.get("started_at") {
        Some(v) => v,
        None => {
            return Err(SchemaError::StepTimeNotString);
        },
    };
    let started = match started.as_str() {
        Some(s) => s,
        None => {
            return Err(SchemaError::StepTimeNotString);
        },
    };
    let completed = match step.get("completed_at") {
        Some(v) => v,
        None => {
            return Err(SchemaError::StepTimeNotString);
        },
    };
    let completed = match completed.as_str() {
        Some(s) => s,
        None => {
            return Err(SchemaError::StepTimeNotString);
        },
    };
    let start_secs = match parse_rfc3339_secs(started.as_str()) {
        Some(t) => t,
        None => {
            return Err(SchemaError::StepTimeUnparsable);
        },
    };
    let finish_secs = match parse_rfc3339_secs(completed.as_str()) {
        Some(t) => t,
        None => {
            return Err(SchemaError::StepTimeUnparsable);
        },
    };
    Ok(
        StepReport {
            name: name.clone(),
            status: status.clone(),
            duration_secs: finish_secs - start_secs,
        },
    )
}

/// The step list is read as far as position `i`, yielding `done`, and
/// whatever the rest yields decides the whole.
pub open spec fn steps_continue(all: Seq<JsonValue>, i: int, done: Seq<SpecStep>) -> bool {
    spec_steps(all) == (match spec_steps(all.skip(i)) {
        Ok(rest) => Ok::<Seq<SpecStep>, SchemaError>(done + rest),
        Err(e) => Err::<Seq<SpecStep>, SchemaError>(e),
    })
}

/// Reads every step of a job's step array, in order.
pub fn steps_report(steps: &Vec<JsonValue>) -> (r: Result<Vec<StepReport>, SchemaError>)
    ensures
        match r {
            Ok(v) => spec_steps(steps@) == Ok::<Seq<SpecStep>, SchemaError>(step_views(v@)),
            Err(e) => spec_steps(steps@) == Err::<Seq<SpecStep>, SchemaError>(e),
        },
{
    let n = steps.len();
    let mut acc: Vec<StepReport> = Vec::new();
    let mut i: usize = 0;
    proof {
        assert(steps@.skip(0) =~= steps@);
    }
    while i < n
        invariant
            n == steps@.len(),
            0 <= i <= n,
            acc@.len() == i,
            steps_continue(steps@, i as int, step_views(acc@)),
        decreases n - i,
    {
        proof {
            assert(steps@.skip(i as int)[0] == steps@[i as int]);
            assert(steps@.skip(i as int).drop_first() =~= steps@.skip(i as int + 1));
        }
        let s = match step_report(&steps[i]) {
            Ok(s) => s,
            Err(e) => {
                return Err(e);
            },
        };
        proof {
            let done = step_views(acc@);
            let v = s@;
            assert(acc@.push(s) =~= acc@ + seq![s]);
            assert(step_views(acc@ + seq![s]) =~= done + seq![v]);
            assert(spec_step(steps@.skip(i as int)[0]) == Ok::<SpecStep, SchemaError>(v));
            match spec_steps(steps@.skip(i as int + 1)) {
                Ok(rest2) => {
                    assert(spec_steps(steps@.skip(i as int)) == Ok::<Seq<SpecStep>, SchemaError>(seq![v] + rest2));
                    assert(done + (seq![v] + rest2) =~= (done + seq![v]) + rest2);
                    assert(steps_continue(steps@, i as int + 1, done + seq![v]));
                },
                Err(e) => {
                    assert(spec_steps(steps@.skip(i as int)) == Err::<Seq<SpecStep>, SchemaError>(e));
                    assert(spec_steps(steps@) == Err::<Seq<SpecStep>, SchemaError>(e));
                    assert(steps_continue(steps@, i as int + 1, done + seq![v]));
                },
            }
        }
        acc.push(s);
        i = i + 1;
    }
    proof {
        assert(steps@.skip(n as int) =~= Seq::<JsonValue>::empty());
        assert(step_views(acc@) + Seq::<SpecStep>::empty() =~= step_views(acc@));
    }
    Ok(acc)
}

/// Reads one job's record out of its JSON entry.
pub fn job_report(job: &JsonValue) -> (r: Result<JobReport, SchemaError>)
    ensures
        match r {
            Ok(j) => spec_job(*job) == Ok::<SpecJob, SchemaError>(j@),
            Err(e) => spec_job(*job) == Err::<SpecJob, SchemaError>(e),
        },
{
    let name = match job.get("name") {
        Some(v) => v,
        None => {
            return Err(SchemaError::JobNameNotString);
        },
    };
    let name = match name.as_str() {
        Some(s) => s,
        None => {
            return Err(SchemaError::JobNameNotString);
        },
    };
    let steps_field = match job.get("steps") {
        Some(v) => v,
        None => {
            return Err(SchemaError::StepsNotArray);
        },
    };
    let steps = match steps_field.as_array() {
        Some(a) => a,
        None => {
            return Err(SchemaError::StepsNotArray);
        },
    };
    let step_reports = match steps_report(steps) {
        Ok(v) => v,
        Err(e) => {
            return Err(e);
        },
    };
    Ok(JobReport { name: name.clone(), steps: step_reports })
}

/// The job list is read as far as position `i`, yielding `done`, and
/// whatever the rest yields decides the whole.
pub open spec fn report_continue(all: Seq<JsonValue>, i: int, done: Seq<SpecJob>) -> bool {
    spec_report(all) == (match spec_report(all.skip(i)) {
        Ok(rest) => Ok::<Seq<SpecJob>, SchemaError>(done + rest),
        Err(e) => Err::<Seq<SpecJob>, SchemaError>(e),
    })
}

/// Reads the whole report out of a run's job entries: every job's
/// name and steps, in response order, or the first fault found. On a
/// fault nothing is reported.
pub fn build_report(jobs: &Vec<JsonValue>) -> (r: Result<Vec<JobReport>, SchemaError>)
    ensures
        match r {
            Ok(rep) => spec_report(jobs@) == Ok::<Seq<SpecJob>, SchemaError>(job_views(rep@)),
            Err(e) => spec_report(jobs@) == Err::<Seq<SpecJob>, SchemaError>(e),
        },
{
    let n = jobs.len();
    let mut acc: Vec<JobReport> = Vec::new();
    let mut i: usize = 0;
    proof {
        assert(jobs@.skip(0) =~= jobs@);
    }
    while i < n
        invariant
            n == jobs@.len(),
            0 <= i <= n,
            acc@.len() == i,
            report_continue(jobs@, i as int, job_views(acc@)),
        decreases n - i,
    {
        proof {
            assert(jobs@.skip(i as int)[0] == jobs@[i as int]);
            assert(jobs@.skip(i as int).drop_first() =~= jobs@.skip(i as int + 1));
        }
        let j = match job_report(&jobs[i]) {
            Ok(j) => j,
            Err(e) => {
                return Err(e);
            },
        };
        proof {
            let done = job_views(acc@);
            let v = j@;
            assert(acc@.push(j) =~= acc@ + seq![j]);
            assert(job_views(acc@ + seq![j]) =~= done + seq![v]);
            assert(spec_job(jobs@.skip(i as int)[0]) == Ok::<SpecJob, SchemaError>(v));
            match spec_report(jobs@.skip(i as int + 1)) {
                Ok(rest2) => {
                    assert(spec_report(jobs@.skip(i as int)) == Ok::<Seq<SpecJob>, SchemaError>(seq![v] + rest2));
                    assert(done + (seq![v] + rest2) =~= (done + seq![v]) + rest2);
                    assert(report_continue(jobs@, i as int + 1, done + seq![v]));
                },
                Err(e) => {
                    assert(spec_report(jobs@.skip(i as int)) == Err::<Seq<SpecJob>, SchemaError>(e));
                    assert(spec_report(jobs@) == Err::<Seq<SpecJob>, SchemaError>(e));
                    assert(report_continue(jobs@, i as int + 1, done + seq![v]));
                },
            }
        }
        acc.push(j);
        i = i + 1;
    }
    proof {
        assert(jobs@.skip(n as int) =~= Seq::<JsonValue>::empty());
        assert(job_views(acc@) + Seq::<SpecJob>::empty() =~= job_views(acc@));
    }
    Ok(acc)
}

/// A step entry that carries everything the reporter reads: a string
/// name and status, and two timestamps in RFC 3339 form.
pub open spec fn wf_step(step: JsonValue) -> bool {
    &&& spec_get(step, "name"@) matches Some(JsonValue::Str(_))
    &&& spec_get(step, "status"@) matches Some(JsonValue::Str(_))
    &&& spec_get(step, "started_at"@) matches Some(JsonValue::Str(s)) && rfc3339_epoch(
        s@,
    ) is Some
    &&& spec_get(step, "completed_at"@) matches Some(JsonValue::Str(t)) && rfc3339_epoch(
        t@,
    ) is Some
}

/// A job entry that carries everything the reporter reads: a string
/// name and an array of well-formed steps.
pub open spec fn wf_job(job: JsonValue) -> bool {
    &&& spec_get(job, "name"@) matches Some(JsonValue::Str(_))
    &&& spec_get(job, "steps"@) matches Some(JsonValue::Arr(steps)) && (forall|k: int|
        0 <= k < steps@.len() ==> wf_step(#[trigger] steps@[k]))
}

/// A jobs listing all of whose entries are well-formed.
pub open spec fn wf_jobs(jobs: Seq<JsonValue>) -> bool {
    forall|i: int| 0 <= i < jobs.len() ==> wf_job(#[trigger] jobs[i])
}

proof fn lemma_steps_total(steps: Seq<JsonValue>)
    requires
        forall|k: int| 0 <= k < steps.len() ==> wf_step(#[trigger] steps[k]),
    ensures
        spec_steps(steps) matches Ok(rep) && rep.len() == steps.len() && (forall|k: int|
            0 <= k < steps.len() ==> spec_step(#[trigger] steps[k]) == Ok::<
                SpecStep,
                SchemaError,
            >(rep[k])),
    decreases steps.len(),
{
    if steps.len() > 0 {
        assert(wf_step(steps[0]));
        assert(spec_step(steps[0]) is Ok);
        assert(forall|k: int|
            0 <= k < steps.len() - 1 ==> steps.drop_first()[k] == #[trigger] steps[k + 1]);
        lemma_steps_total(steps.drop_first());
        let v0 = spec_step(steps[0])->Ok_0;
        let rest = spec_steps(steps.drop_first())->Ok_0;
        let rep = seq![v0] + rest;
        assert(spec_steps(steps) == Ok::<Seq<SpecStep>, SchemaError>(rep));
        assert forall|k: int| 0 <= k < steps.len() implies spec_step(#[trigger] steps[k])
            == Ok::<SpecStep, SchemaError>(rep[k]) by {
            if k == 0 {
                assert(rep[0] == v0);
            } else {
                assert(steps.drop_first()[k - 1] == steps[k]);
                assert(rep[k] == rest[k - 1]);
            }
        }
    }
}

/// Feeding a well-formed jobs listing through the reporter loses
/// nothing: building the report succeeds, and it reproduces each
/// job's name and each step's name, status and computed duration, in
/// their original order.
pub proof fn lemma_report_reproduces(jobs: Seq<JsonValue>)
    requires
        wf_jobs(jobs),
    ensures
        spec_report(jobs) matches Ok(rep) && rep.len() == jobs.len() && (forall|i: int|
            0 <= i < jobs.len() ==> spec_job(#[trigger] jobs[i]) == Ok::<SpecJob, SchemaError>(
                rep[i],
            )),
    decreases jobs.len(),
{
    if jobs.len() > 0 {
        assert(wf_job(jobs[0]));
        match spec_get(jobs[0], "steps"@) {
            Some(JsonValue::Arr(steps)) => {
                lemma_steps_total(steps@);
            },
            _ => {
                assert(false);
            },
        }
        assert(spec_job(jobs[0]) is Ok);
        assert(forall|i: int|
            0 <= i < jobs.len() - 1 ==> jobs.drop_first()[i] == #[trigger] jobs[i + 1]);
        lemma_report_reproduces(jobs.drop_first());
        let j0 = spec_job(jobs[0])->Ok_0;
        let rest = spec_report(jobs.drop_first())->Ok_0;
        let rep = seq![j0] + rest;
        assert(spec_report(jobs) == Ok::<Seq<SpecJob>, SchemaError>(rep));
        assert forall|i: int| 0 <= i < jobs.len() implies spec_job(#[trigger] jobs[i])
            == Ok::<SpecJob, SchemaError>(rep[i]) by {
            if i == 0 {
                assert(rep[0] == j0);
            } else {
                assert(jobs.drop_first()[i - 1] == jobs[i]);
                assert(rep[i] == rest[i - 1]);
            }
        }
    }
}

proof fn lemma_steps_ok_wf(steps: Seq<JsonValue>)
    requires
        spec_steps(steps) is Ok,
    ensures
        forall|k: int| 0 <= k < steps.len() ==> wf_step(#[trigger] steps[k]),
    decreases steps.len(),
{
    if steps.len() > 0 {
        assert(spec_step(steps[0]) is Ok);
        assert(wf_step(steps[0]));
        assert(spec_steps(steps.drop_first()) is Ok);
        lemma_steps_ok_wf(steps.drop_first());
        assert forall|k: int| 0 <= k < steps.len() implies wf_step(#[trigger] steps[k]) by {
            if k > 0 {
                assert(steps.drop_first()[k - 1] == steps[k]);
            }
        }
    }
}

/// The reporter succeeds only on well-formed listings: whenever it
/// builds a report, every job carried a string name and an array of
/// steps, and every step carried a string name, status and two RFC
/// 3339 timestamps. With the reproduction law this pins exactly when
/// a report is owed.
pub proof fn lemma_report_needs_wf(jobs: Seq<JsonValue>)
    requires
        spec_report(jobs) is Ok,
    ensures
        wf_jobs(jobs),
    decreases jobs.len(),
{
    if jobs.len() > 0 {
        assert(spec_job(jobs[0]) is Ok);
        match spec_get(jobs[0], "steps"@) {
            Some(JsonValue::Arr(steps)) => {
                assert(spec_steps(steps@) is Ok);
                lemma_steps_ok_wf(steps@);
            },
            _ => {
                assert(false);
            },
        }
        assert(wf_job(jobs[0]));
        assert(spec_report(jobs.drop_first()) is Ok);
        lemma_report_needs_wf(jobs.drop_first());
        assert forall|i: int| 0 <= i < jobs.len() implies wf_job(#[trigger] jobs[i]) by {
            if i > 0 {
                assert(jobs.drop_first()[i - 1] == jobs[i]);
            }
        }
    }
}

/// The console line for one step, indented under its job:
/// the step's name, its status, and its duration in seconds.
pub open spec fn spec_step_line(s: SpecStep) -> Seq<char> {
    "    "@ + s.name + ": "@ + s.status + ", "@ + int_rep(s.duration) + "s"@
}

/// The console lines for one job: its name, then one line per step.
pub open spec fn spec_job_lines(j: SpecJob) -> Seq<Seq<char>> {
    seq![j.name] + j.steps.map_values(|s: SpecStep| spec_step_line(s))
}

/// The console lines of the whole report, job after job.
pub open spec fn spec_report_lines(jobs: Seq<SpecJob>) -> Seq<Seq<char>>
    decreases jobs.len(),
{
    if jobs.len() == 0 {
        Seq::empty()
    } else {
        spec_job_lines(jobs[0]) + spec_report_lines(jobs.drop_first())
    }
}

proof fn lemma_report_lines_append(a: Seq<SpecJob>, b: Seq<SpecJob>)
    ensures
        spec_report_lines(a + b) == spec_report_lines(a) + spec_report_lines(b),
    decreases a.len(),
{
    if a.len() == 0 {
        assert(a + b =~= b);
        assert(spec_report_lines(a) + spec_report_lines(b) =~= spec_report_lines(b));
    } else {
        lemma_report_lines_append(a.drop_first(), b);
        assert((a + b).drop_first() =~= a.drop_first() + b);
        assert((a + b)[0] == a[0]);
        assert(spec_job_lines(a[0]) + (spec_report_lines(a.drop_first()) + spec_report_lines(b))
            =~= (spec_job_lines(a[0]) + spec_report_lines(a.drop_first()))
            + spec_report_lines(b));
    }
}

fn step_line(s: &StepReport) -> (r: String)
    ensures
        r@ == spec_step_line(s@),
{
    let mut line = "    ".to_owned();
    line.append(s.name.as_str());
    line.append(": ");
    line.append(s.status.as_str());
    line.append(", ");
    let num = i64_string(s.duration_secs);
    line.append(num.as_str());
    line.append("s");
    proof {
        assert(line@ =~= spec_step_line(s@));
    }
    line
}

fn job_lines(j: &JobReport) -> (r: Vec<String>)
    ensures
        line_views(r@) == spec_job_lines(j@),
{
    let mut lines: Vec<String> = Vec::new();
    lines.push(j.name.clone());
    let n = j.steps.len();
    let mut k: usize = 0;
    proof {
        assert(line_views(lines@) =~= seq![j.name@] + j@.steps.take(0).map_values(
            |s: SpecStep| spec_step_line(s),
        ));
    }
    while k < n
        invariant
            n == j.steps@.len(),
            j@.steps.len() == n,
            0 <= k <= n,
            line_views(lines@) == seq![j.name@] + j@.steps.take(k as int).map_values(
                |s: SpecStep| spec_step_line(s),
            ),
        decreases n - k,
    {
        let line = step_line(&j.steps[k]);
        proof {
            assert(j@.steps[k as int] == j.steps@[k as int]@);
            assert(lines@.push(line) =~= lines@ + seq![line]);
            assert(line_views(lines@ + seq![line]) =~= line_views(lines@) + seq![line@]);
            assert(j@.steps.take(k as int + 1).map_values(|s: SpecStep| spec_step_line(s))
                =~= j@.steps.take(k as int).map_values(|s: SpecStep| spec_step_line(s))
                + seq![spec_step_line(j@.steps[k as int])]);
            assert((seq![j.name@] + j@.steps.take(k as int).map_values(
                |s: SpecStep| spec_step_line(s),
            )) + seq![spec_step_line(j@.steps[k as int])] =~= seq![j.name@]
                + (j@.steps.take(k as int).map_values(|s: SpecStep| spec_step_line(s))
                + seq![spec_step_line(j@.steps[k as int])]));
        }
        lines.push(line);
        k = k + 1;
    }
    proof {
        assert(j@.steps.take(n as int) =~= j@.steps);
    }
    lines
}

/// Renders a built report as console lines: each job's name on a line
/// of its own, then one indented line per step, everything in report
/// order.
pub fn render_report(jobs: &Vec<JobReport>) -> (r: Vec<String>)
    ensures
        line_views(r@) == spec_report_lines(job_views(jobs@)),
{
    let mut lines: Vec<String> = Vec::new();
    let n = jobs.len();
    let mut i: usize = 0;
    proof {
        assert(job_views(jobs@).take(0) =~= Seq::<SpecJob>::empty());
        assert(line_views(lines@) =~= Seq::<Seq<char>>::empty());
    }
    while i < n
        invariant
            n == jobs@.len(),
            job_views(jobs@).len() == n,
            0 <= i <= n,
            line_views(lines@) == spec_report_lines(job_views(jobs@).take(i as int)),
        decreases n - i,
    {
        let mut jl = job_lines(&jobs[i]);
        proof {
            let jv = job_views(jobs@);
            assert(jv[i as int] == jobs@[i as int]@);
            lemma_report_lines_append(jv.take(i as int), seq![jv[i as int]]);
            assert(jv.take(i as int) + seq![jv[i as int]] =~= jv.take(i as int + 1));
            assert(seq![jv[i as int]].drop_first() =~= Seq::<SpecJob>::empty());
            assert(spec_report_lines(Seq::<SpecJob>::empty()) =~= Seq::<Seq<char>>::empty());
            assert(spec_job_lines(jv[i as int]) + Seq::<Seq<char>>::empty() =~= spec_job_lines(
                jv[i as int],
            ));
            assert(spec_report_lines(seq![jv[i as int]]) =~= spec_job_lines(jv[i as int]));
            assert(line_views(lines@ + jl@) =~= line_views(lines@) + line_views(jl@));
        }
        lines.append(&mut jl);
        i = i + 1;
    }
    proof {
        assert(job_views(jobs@).take(n as int) =~= job_views(jobs@));
    }
    lines
}

/// Builds and renders the whole report for a run's job entries: in
/// response order, each job's name and its step lines, or the first
/// schema fault found, with nothing rendered at all.
pub fn report_lines(jobs: &Vec<JsonValue>) -> (r: Result<Vec<String>, SchemaError>)
    ensures
        match r {
            Ok(lines) => spec_report(jobs@) matches Ok(rep) && line_views(lines@)
                == spec_report_lines(rep),
            Err(e) => spec_report(jobs@) == Err::<Seq<SpecJob>, SchemaError>(e),
        },
{
    match build_report(jobs) {
        Ok(rep) => Ok(render_report(&rep)),
        Err(e) => Err(e),
    }
}

} // verus!
