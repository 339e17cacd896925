use lab_dashboard::jobs::{
    attach_current_jobs, is_active_job_status, normalize_forgejo_job, normalize_github_job,
    normalize_github_runners, normalize_job_status, short_sha, split_jobs,
};
use lab_dashboard::json::{parse_document, value_to_string, JsonValue};
use lab_dashboard::model::{Job, Runner};

fn text(s: &str) -> JsonValue {
    JsonValue::Str(s.to_string())
}

fn number(n: i64) -> JsonValue {
    JsonValue::Number { text: n.to_string(), integer: Some(n) }
}

fn object(entries: Vec<(&str, JsonValue)>) -> JsonValue {
    JsonValue::Object {
        entries: entries.into_iter().map(|(k, v)| (k.to_string(), v)).collect(),
        text: String::new(),
    }
}

fn array(items: Vec<JsonValue>) -> JsonValue {
    JsonValue::Array { items, text: String::new() }
}

fn job(id: &str, status: &str, runner_id: Option<&str>, runner_name: Option<&str>) -> Job {
    Job {
        id: id.into(),
        provider: "github".into(),
        source: "o/r".into(),
        repository: "o/r".into(),
        workflow: "CI".into(),
        name: "build".into(),
        status: status.into(),
        runner_id: runner_id.map(|s| s.to_string()),
        runner_name: runner_name.map(|s| s.to_string()),
        branch: None,
        sha: None,
        url: None,
        started_at: None,
        queued_at: None,
    }
}

fn runner(id: &str, name: &str) -> Runner {
    Runner {
        id: id.into(),
        provider: "github".into(),
        source: "o/r".into(),
        name: name.into(),
        os: None,
        status: "online".into(),
        busy: false,
        labels: vec![],
        current_job_id: Some("stale".into()),
    }
}

#[test]
fn normalizes_job_statuses() {
    assert_eq!(normalize_job_status("Requested"), "queued");
    assert_eq!(normalize_job_status("QUEUED"), "queued");
    assert_eq!(normalize_job_status("waiting"), "waiting");
    assert_eq!(normalize_job_status("Pending"), "pending");
    assert_eq!(normalize_job_status("IN-PROGRESS"), "in_progress");
    assert_eq!(normalize_job_status("in_progress"), "in_progress");
    assert_eq!(normalize_job_status("Running"), "running");
    assert_eq!(normalize_job_status("completed"), "unknown");
    assert!(is_active_job_status("pending"));
    assert!(!is_active_job_status("unknown"));
    assert!(!is_active_job_status("Running"));
}

#[test]
fn normalizing_twice_changes_nothing() {
    for s in ["Requested", "IN-PROGRESS", "done", "Waiting", "running", ""] {
        let once = normalize_job_status(s);
        assert_eq!(normalize_job_status(&once), once);
    }
}

#[test]
fn shortens_commit_hashes() {
    assert_eq!(short_sha("0123456789abcdef"), "0123456");
    assert_eq!(short_sha("abc"), "abc");
    assert_eq!(short_sha("0123456"), "0123456");
}

#[test]
fn prints_identifiers() {
    assert_eq!(value_to_string(&JsonValue::Null), None);
    assert_eq!(value_to_string(&JsonValue::Bool(true)), Some("true".to_string()));
    assert_eq!(value_to_string(&number(42)), Some("42".to_string()));
    assert_eq!(value_to_string(&text("a b")), Some("a b".to_string()));
    let listed = JsonValue::Array { items: vec![number(1)], text: "[1]".into() };
    assert_eq!(value_to_string(&listed), Some("[1]".to_string()));
}

#[test]
fn reads_a_github_job() {
    let doc = object(vec![
        ("id", number(77)),
        ("status", text("in_progress")),
        ("runner_id", number(5)),
        ("runner_name", text("box")),
        ("workflow_name", text("CI")),
        ("name", text("build")),
        ("head_branch", text("main")),
        ("head_sha", text("0123456789")),
        ("html_url", text("https://x/77")),
        ("started_at", text("t1")),
        ("created_at", text("t0")),
    ]);
    let j = normalize_github_job("o/r", &doc).unwrap();
    assert_eq!(j.id, "github:o/r:77");
    assert_eq!(j.provider, "github");
    assert_eq!(j.source, "o/r");
    assert_eq!(j.repository, "o/r");
    assert_eq!(j.workflow, "CI");
    assert_eq!(j.name, "build");
    assert_eq!(j.status, "in_progress");
    assert_eq!(j.runner_id.as_deref(), Some("github:o/r:5"));
    assert_eq!(j.runner_name.as_deref(), Some("box"));
    assert_eq!(j.branch.as_deref(), Some("main"));
    assert_eq!(j.sha.as_deref(), Some("0123456"));
    assert_eq!(j.url.as_deref(), Some("https://x/77"));
    assert_eq!(j.started_at.as_deref(), Some("t1"));
    assert_eq!(j.queued_at.as_deref(), Some("t0"));
}

#[test]
fn fills_in_missing_github_members() {
    let doc = object(vec![("status", text("queued"))]);
    let j = normalize_github_job("o/r", &doc).unwrap();
    assert_eq!(j.id, "github:o/r:unknown");
    assert_eq!(j.workflow, "Workflow");
    assert_eq!(j.name, "Job");
    assert_eq!(j.runner_id, None);
    assert_eq!(j.sha, None);
}

#[test]
fn skips_finished_and_unknown_jobs() {
    assert!(normalize_github_job("o/r", &object(vec![("status", text("completed"))])).is_none());
    assert!(normalize_github_job("o/r", &object(vec![])).is_none());
    assert!(normalize_github_job("o/r", &JsonValue::Null).is_none());
}

#[test]
fn reads_a_forgejo_run_with_its_other_names() {
    let doc = object(vec![
        ("run_id", number(9)),
        ("state", text("Running")),
        ("name", text("deploy")),
        ("ref_name", text("dev")),
        ("commit_sha", text("abcdef0123")),
        ("url", text("https://forge/9")),
        ("runner_id", number(3)),
    ]);
    let j = normalize_forgejo_job("codeberg o/r", "o/r", &doc).unwrap();
    assert_eq!(j.id, "forgejo:o/r:9");
    assert_eq!(j.provider, "forgejo");
    assert_eq!(j.source, "codeberg o/r");
    assert_eq!(j.repository, "o/r");
    assert_eq!(j.workflow, "deploy");
    assert_eq!(j.name, "deploy");
    assert_eq!(j.status, "running");
    assert_eq!(j.runner_id.as_deref(), Some("3"));
    assert_eq!(j.branch.as_deref(), Some("dev"));
    assert_eq!(j.sha.as_deref(), Some("abcdef0"));
    assert_eq!(j.url.as_deref(), Some("https://forge/9"));
}

#[test]
fn prefers_forgejo_primary_names() {
    let doc = object(vec![
        ("id", text("r1")),
        ("run_id", number(9)),
        ("status", text("waiting")),
        ("state", text("running")),
        ("workflow_name", text("wf")),
        ("display_title", text("title")),
        ("job_name", text("job")),
        ("name", text("name")),
    ]);
    let j = normalize_forgejo_job("s", "o/r", &doc).unwrap();
    assert_eq!(j.id, "forgejo:o/r:r1");
    assert_eq!(j.status, "waiting");
    assert_eq!(j.workflow, "wf");
    assert_eq!(j.name, "title");
    let doc = object(vec![("status", text("pending")), ("job_name", text("job"))]);
    let j = normalize_forgejo_job("s", "o/r", &doc).unwrap();
    assert_eq!(j.name, "job");
    assert_eq!(j.workflow, "Workflow");
    assert_eq!(j.id, "forgejo:o/r:unknown");
}

#[test]
fn reads_github_runners() {
    let runners = vec![
        object(vec![
            ("id", number(12)),
            ("name", text("box")),
            ("os", text("Linux")),
            ("status", text("online")),
            ("busy", JsonValue::Bool(true)),
            (
                "labels",
                array(vec![
                    object(vec![("name", text("self-hosted"))]),
                    object(vec![("id", number(1))]),
                    object(vec![("name", text("x64"))]),
                ]),
            ),
        ]),
        object(vec![]),
    ];
    let r = normalize_github_runners("org/acme", &runners);
    assert_eq!(r.len(), 2);
    assert_eq!(r[0].id, "github:org/acme:12");
    assert_eq!(r[0].provider, "github");
    assert_eq!(r[0].source, "org/acme");
    assert_eq!(r[0].name, "box");
    assert_eq!(r[0].os.as_deref(), Some("Linux"));
    assert_eq!(r[0].status, "online");
    assert!(r[0].busy);
    assert_eq!(r[0].labels, vec!["self-hosted".to_string(), "x64".to_string()]);
    assert_eq!(r[0].current_job_id, None);
    assert_eq!(r[1].id, "github:org/acme:unknown");
    assert_eq!(r[1].name, "Unknown runner");
    assert_eq!(r[1].status, "unknown");
    assert!(!r[1].busy);
    assert!(r[1].labels.is_empty());
}

#[test]
fn splits_running_from_queued_jobs() {
    let mut current = vec![job("old", "running", None, None)];
    let mut queued = vec![];
    let jobs = vec![
        job("a", "queued", None, None),
        job("b", "in_progress", None, None),
        job("c", "pending", None, None),
        job("d", "running", None, None),
    ];
    split_jobs(jobs, &mut current, &mut queued);
    let current_ids: Vec<&str> = current.iter().map(|j| j.id.as_str()).collect();
    let queued_ids: Vec<&str> = queued.iter().map(|j| j.id.as_str()).collect();
    assert_eq!(current_ids, vec!["old", "b", "d"]);
    assert_eq!(queued_ids, vec!["a", "c"]);
}

#[test]
fn attaches_the_first_matching_job_to_each_runner() {
    let mut runners = vec![runner("github:o/r:1", "one"), runner("github:o/r:2", "two"), runner("github:o/r:3", "three")];
    let jobs = vec![
        job("j1", "running", Some("github:o/r:2"), None),
        job("j2", "running", None, Some("one")),
        job("j3", "running", Some("github:o/r:1"), None),
    ];
    attach_current_jobs(&mut runners, &jobs);
    assert_eq!(runners[0].current_job_id.as_deref(), Some("j2"));
    assert_eq!(runners[1].current_job_id.as_deref(), Some("j1"));
    assert_eq!(runners[2].current_job_id, None);
    assert_eq!(runners[2].name, "three");
}

#[test]
fn parses_documents_with_serde_json() {
    let doc = parse_document(br#"{"id": 12, "big": 1e3, "tags": ["a", 1], "obj": {"b": 1, "a": true}}"#).unwrap();
    assert_eq!(lab_dashboard::json::field_to_string(&doc, "id"), Some("12".to_string()));
    assert_eq!(doc.get("id").unwrap().as_i64(), Some(12));
    assert_eq!(doc.get("big").unwrap().as_i64(), None);
    assert_eq!(lab_dashboard::json::field_to_string(&doc, "tags"), Some("[\"a\",1]".to_string()));
    assert_eq!(lab_dashboard::json::field_to_string(&doc, "obj"), Some("{\"a\":true,\"b\":1}".to_string()));
    assert!(parse_document(b"{").is_err());
}
