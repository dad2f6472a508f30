use hero::json::JsonValue;
use hero::jobs::extract_jobs;
use hero::runs::{extract_run_ids, first_run};
use hero::report::{build_report, render_report, report_lines};
use hero::schema::SchemaError;

fn step(name: &str, status: &str, started: &str, completed: &str) -> JsonValue {
    JsonValue::Obj(vec![
        (String::from("name"), JsonValue::Str(String::from(name))),
        (String::from("status"), JsonValue::Str(String::from(status))),
        (String::from("started_at"), JsonValue::Str(String::from(started))),
        (String::from("completed_at"), JsonValue::Str(String::from(completed))),
    ])
}

fn job(name: &str, steps: Vec<JsonValue>) -> JsonValue {
    JsonValue::Obj(vec![
        (String::from("name"), JsonValue::Str(String::from(name))),
        (String::from("steps"), JsonValue::Arr(steps)),
    ])
}

#[test]
fn five_second_step_duration() {
    let jobs = vec![job(
        "build",
        vec![step("compile", "completed", "2024-01-01T00:00:00Z", "2024-01-01T00:00:05Z")],
    )];
    let rep = build_report(&jobs).unwrap();
    assert_eq!(rep.len(), 1);
    assert_eq!(rep[0].name, "build");
    assert_eq!(rep[0].steps.len(), 1);
    assert_eq!(rep[0].steps[0].name, "compile");
    assert_eq!(rep[0].steps[0].status, "completed");
    assert_eq!(rep[0].steps[0].duration_secs, 5);
}

#[test]
fn report_lines_are_exact() {
    let jobs = vec![job(
        "build",
        vec![
            step("checkout", "completed", "2024-01-01T10:00:00Z", "2024-01-01T10:00:03Z"),
            step("test", "in_progress", "2024-01-01T10:00:03Z", "2024-01-01T11:00:04Z"),
        ],
    )];
    let lines = report_lines(&jobs).unwrap();
    assert_eq!(
        lines,
        vec![
            "build",
            "    checkout: completed, 3s",
            "    test: in_progress, 3601s",
        ]
    );
}

#[test]
fn offsets_are_respected() {
    let jobs = vec![job(
        "build",
        vec![step("sync", "completed", "2024-01-01T01:00:00+01:00", "2024-01-01T00:00:00Z")],
    )];
    let rep = build_report(&jobs).unwrap();
    assert_eq!(rep[0].steps[0].duration_secs, 0);
}

#[test]
fn reversed_timestamps_give_negative_duration() {
    let jobs = vec![job(
        "build",
        vec![step("odd", "completed", "2024-01-01T00:00:03Z", "2024-01-01T00:00:00Z")],
    )];
    let rep = build_report(&jobs).unwrap();
    assert_eq!(rep[0].steps[0].duration_secs, -3);
    let lines = render_report(&rep);
    assert_eq!(lines[1], "    odd: completed, -3s");
}

#[test]
fn missing_status_fails_with_no_partial_report() {
    let bad_step = JsonValue::Obj(vec![
        (String::from("name"), JsonValue::Str(String::from("compile"))),
        (String::from("started_at"), JsonValue::Str(String::from("2024-01-01T00:00:00Z"))),
        (String::from("completed_at"), JsonValue::Str(String::from("2024-01-01T00:00:05Z"))),
    ]);
    let jobs = vec![job("build", vec![bad_step])];
    let r = report_lines(&jobs);
    assert!(matches!(r, Err(SchemaError::StepStatusNotString)));
}

#[test]
fn each_schema_fault_is_named() {
    let no_name = JsonValue::Obj(vec![(
        String::from("steps"),
        JsonValue::Arr(vec![]),
    )]);
    assert!(matches!(report_lines(&vec![no_name]), Err(SchemaError::JobNameNotString)));

    let no_steps = JsonValue::Obj(vec![(
        String::from("name"),
        JsonValue::Str(String::from("build")),
    )]);
    assert!(matches!(report_lines(&vec![no_steps]), Err(SchemaError::StepsNotArray)));

    let nameless_step = JsonValue::Obj(vec![
        (String::from("status"), JsonValue::Str(String::from("queued"))),
    ]);
    assert!(matches!(
        report_lines(&vec![job("build", vec![nameless_step])]),
        Err(SchemaError::StepNameNotString)
    ));

    let no_time = JsonValue::Obj(vec![
        (String::from("name"), JsonValue::Str(String::from("compile"))),
        (String::from("status"), JsonValue::Str(String::from("completed"))),
        (String::from("started_at"), JsonValue::Str(String::from("2024-01-01T00:00:00Z"))),
    ]);
    assert!(matches!(
        report_lines(&vec![job("build", vec![no_time])]),
        Err(SchemaError::StepTimeNotString)
    ));

    let bad_time = step("compile", "completed", "yesterday", "2024-01-01T00:00:05Z");
    assert!(matches!(
        report_lines(&vec![job("build", vec![bad_time])]),
        Err(SchemaError::StepTimeUnparsable)
    ));
}

#[test]
fn empty_jobs_give_an_empty_report() {
    let lines = report_lines(&vec![]).unwrap();
    assert_eq!(lines.len(), 0);
}

fn sj_obj(pairs: Vec<(&str, serde_json::Value)>) -> serde_json::Value {
    let mut m = serde_json::Map::new();
    for (k, v) in pairs {
        m.insert(k.to_string(), v);
    }
    serde_json::Value::Object(m)
}

fn convert(v: &serde_json::Value) -> JsonValue {
    match v {
        serde_json::Value::Null => JsonValue::Null,
        serde_json::Value::Bool(b) => JsonValue::Bool(*b),
        serde_json::Value::Number(n) => JsonValue::Int(n.as_i64().expect("integral number")),
        serde_json::Value::String(s) => JsonValue::Str(s.clone()),
        serde_json::Value::Array(a) => JsonValue::Arr(a.iter().map(convert).collect()),
        serde_json::Value::Object(m) => {
            JsonValue::Obj(m.iter().map(|(k, x)| (k.clone(), convert(x))).collect())
        },
    }
}

#[test]
fn serialized_fixture_round_trips() {
    let runs_fixture = sj_obj(vec![(
        "workflow_runs",
        serde_json::Value::Array(vec![
            sj_obj(vec![("id", serde_json::Value::from(31415))]),
            sj_obj(vec![("id", serde_json::Value::from(27182))]),
        ]),
    )]);
    let jobs_fixture = sj_obj(vec![(
        "jobs",
        serde_json::Value::Array(vec![
            sj_obj(vec![
                ("name", serde_json::Value::from("build")),
                (
                    "steps",
                    serde_json::Value::Array(vec![sj_obj(vec![
                        ("name", serde_json::Value::from("checkout")),
                        ("status", serde_json::Value::from("completed")),
                        ("started_at", serde_json::Value::from("2024-06-01T12:00:00Z")),
                        ("completed_at", serde_json::Value::from("2024-06-01T12:00:07Z")),
                    ])]),
                ),
            ]),
            sj_obj(vec![
                ("name", serde_json::Value::from("deploy")),
                ("steps", serde_json::Value::Array(vec![])),
            ]),
        ]),
    )]);

    let runs_text = serde_json::to_string(&runs_fixture).unwrap();
    let jobs_text = serde_json::to_string(&jobs_fixture).unwrap();

    let runs_body = convert(&serde_json::from_str(&runs_text).unwrap());
    let ids = extract_run_ids(&runs_body).unwrap();
    assert_eq!(ids, vec!["31415", "27182"]);
    assert_eq!(first_run(&ids).unwrap(), "31415");

    let jobs_body = convert(&serde_json::from_str(&jobs_text).unwrap());
    let jobs = extract_jobs(jobs_body).unwrap();
    let lines = report_lines(&jobs).unwrap();
    assert_eq!(lines, vec!["build", "    checkout: completed, 7s", "deploy"]);
}
