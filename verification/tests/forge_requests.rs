use lab_dashboard::forges::{
    forgejo_authorization, forgejo_jobs_from_body, forgejo_requests, forgejo_runs_url, forgejo_source,
    forgejo_token_env, github_enabled, github_jobs_from_body, github_missing_token,
    github_org_runners_url, github_repo_runners_url, github_requests, github_run_jobs_url,
    github_runs_url, organization_source, record_forgejo_jobs, record_github_jobs, record_github_runners, github_fetch, GitHubFetch,
    repository_name, runners_from_body, usable_token, workflow_run_ids, GitHubRequest,
};
use lab_dashboard::json::JsonValue;
use lab_dashboard::model::{
    ForgejoConfig, ForgejoInstance, GitHubConfig, GitHubOrganization, Job, RepositoryRef, Runner,
    SourceStatus,
};

fn text(s: &str) -> JsonValue {
    JsonValue::Str(s.to_string())
}

fn number(n: i64) -> JsonValue {
    JsonValue::Number { text: n.to_string(), integer: Some(n) }
}

fn object(entries: Vec<(&str, JsonValue)>) -> JsonValue {
    JsonValue::Object {
        entries: entries.into_iter().map(|(k, v)| (k.to_string(), v)).collect(),
        text: String::new(),
    }
}

fn array(items: Vec<JsonValue>) -> JsonValue {
    JsonValue::Array { items, text: String::new() }
}

fn repo(owner: &str, name: &str) -> RepositoryRef {
    RepositoryRef { owner: owner.into(), repo: name.into() }
}

fn job(id: &str, status: &str) -> Job {
    Job {
        id: id.into(),
        provider: "forgejo".into(),
        source: "s".into(),
        repository: "o/r".into(),
        workflow: "w".into(),
        name: "n".into(),
        status: status.into(),
        runner_id: None,
        runner_name: None,
        branch: None,
        sha: None,
        url: None,
        started_at: None,
        queued_at: None,
    }
}

#[test]
fn builds_the_addresses_it_asks() {
    let r = repo("acme", "api");
    assert_eq!(repository_name(&r), "acme/api");
    assert_eq!(organization_source("acme"), "org/acme");
    assert_eq!(forgejo_source("codeberg", &r), "codeberg acme/api");
    assert_eq!(github_org_runners_url("acme"), "https://api.github.com/orgs/acme/actions/runners?per_page=100");
    assert_eq!(github_repo_runners_url(&r), "https://api.github.com/repos/acme/api/actions/runners?per_page=100");
    assert_eq!(
        github_runs_url(&r, "queued"),
        "https://api.github.com/repos/acme/api/actions/runs?status=queued&per_page=50"
    );
    assert_eq!(
        github_run_jobs_url(&r, 123456789),
        "https://api.github.com/repos/acme/api/actions/runs/123456789/jobs?filter=latest&per_page=100"
    );
    assert_eq!(
        forgejo_runs_url("https://codeberg.org//", &r),
        "https://codeberg.org/api/v1/repos/acme/api/actions/runs?limit=50"
    );
    assert_eq!(forgejo_authorization("t0k"), "token t0k");
}

#[test]
fn keeps_only_tokens_that_are_not_blank() {
    assert_eq!(usable_token(None), None);
    assert_eq!(usable_token(Some("  \t".into())), None);
    assert_eq!(usable_token(Some("".into())), None);
    assert_eq!(usable_token(Some(" abc ".into())), Some(" abc ".to_string()));
}

#[test]
fn lists_github_requests_in_poll_order() {
    let config = GitHubConfig {
        token_env: "GITHUB_TOKEN".into(),
        organizations: vec![GitHubOrganization { owner: "acme".into(), repositories: vec!["a".into(), "b".into()] }],
        repositories: vec![repo("me", "tool")],
    };
    assert!(github_enabled(&config));
    let listed: Vec<String> = github_requests(&config)
        .into_iter()
        .map(|q| match q {
            GitHubRequest::OrgRunners { owner } => format!("runners org {owner}"),
            GitHubRequest::RepoRunners { repo } => format!("runners {}/{}", repo.owner, repo.repo),
            GitHubRequest::RepoJobs { repo } => format!("jobs {}/{}", repo.owner, repo.repo),
        })
        .collect();
    assert_eq!(listed, vec!["runners org acme", "jobs acme/a", "jobs acme/b", "runners me/tool", "jobs me/tool"]);
    let empty = GitHubConfig { token_env: String::new(), organizations: vec![], repositories: vec![] };
    assert!(!github_enabled(&empty));
    assert!(github_requests(&empty).is_empty());
}

#[test]
fn lists_forgejo_requests_with_their_tokens() {
    let config = ForgejoConfig {
        token_env: "CODEBERG_TOKEN".into(),
        instances: vec![
            ForgejoInstance {
                name: "codeberg".into(),
                base_url: "https://codeberg.org".into(),
                token_env: None,
                repositories: vec![repo("o", "a"), repo("o", "b")],
            },
            ForgejoInstance {
                name: "home".into(),
                base_url: "https://git.home".into(),
                token_env: Some("HOME_TOKEN".into()),
                repositories: vec![repo("p", "c")],
            },
        ],
    };
    assert_eq!(forgejo_token_env(&config, &config.instances[0]), "CODEBERG_TOKEN");
    assert_eq!(forgejo_token_env(&config, &config.instances[1]), "HOME_TOKEN");
    let requests = forgejo_requests(&config);
    let listed: Vec<String> = requests
        .iter()
        .map(|q| format!("{} {} {} {}/{}", q.instance_name, q.base_url, q.token_env, q.repo.owner, q.repo.repo))
        .collect();
    assert_eq!(
        listed,
        vec![
            "codeberg https://codeberg.org CODEBERG_TOKEN o/a",
            "codeberg https://codeberg.org CODEBERG_TOKEN o/b",
            "home https://git.home HOME_TOKEN p/c",
        ]
    );
}

#[test]
fn reads_answers() {
    let runners = object(vec![("runners", array(vec![object(vec![("id", number(1))])]))]);
    let r = runners_from_body("o/r", &runners);
    assert_eq!(r.len(), 1);
    assert_eq!(r[0].id, "github:o/r:1");
    assert!(runners_from_body("o/r", &object(vec![])).is_empty());

    let queued = object(vec![("workflow_runs", array(vec![object(vec![("id", number(7))]), object(vec![("id", text("x"))])]))]);
    let active = object(vec![("workflow_runs", array(vec![object(vec![("id", number(-3))])]))]);
    assert_eq!(workflow_run_ids(&queued, &active), vec![7, -3]);
    assert_eq!(workflow_run_ids(&JsonValue::Null, &active), vec![-3]);

    let jobs = object(vec![(
        "jobs",
        array(vec![
            object(vec![("id", number(1)), ("status", text("queued"))]),
            object(vec![("id", number(2)), ("status", text("completed"))]),
            object(vec![("id", number(3)), ("status", text("in_progress"))]),
        ]),
    )]);
    let ids: Vec<String> = github_jobs_from_body("o/r", &jobs).into_iter().map(|j| j.id).collect();
    assert_eq!(ids, vec!["github:o/r:1", "github:o/r:3"]);

    let run = || object(vec![("id", number(5)), ("status", text("running"))]);
    for body in [
        object(vec![("workflow_runs", array(vec![run()])), ("runs", array(vec![]))]),
        object(vec![("runs", array(vec![run()]))]),
        array(vec![run()]),
    ] {
        let found = forgejo_jobs_from_body("s", "o/r", &body);
        assert_eq!(found.len(), 1);
        assert_eq!(found[0].id, "forgejo:o/r:5");
    }
    assert!(forgejo_jobs_from_body("s", "o/r", &object(vec![("runs", text("no"))])).is_empty());
}

#[test]
fn records_each_answer() {
    let mut runners: Vec<Runner> = vec![];
    let mut sources: Vec<SourceStatus> = vec![];
    let mut current: Vec<Job> = vec![];
    let mut queued: Vec<Job> = vec![];

    record_github_runners("org/acme", Ok(runners_from_body("org/acme", &object(vec![("runners", array(vec![object(vec![])]))]))), &mut runners, &mut sources);
    assert_eq!(runners.len(), 1);
    assert_eq!((sources[0].provider.as_str(), sources[0].name.as_str(), sources[0].health.as_str()), ("github", "org/acme", "ok"));

    record_github_runners("me/tool", Err("HTTP 404 Not Found".into()), &mut runners, &mut sources);
    assert_eq!(runners.len(), 1);
    assert_eq!(sources[1].health, "error");
    assert_eq!(sources[1].message.as_deref(), Some("HTTP 404 Not Found"));

    record_github_jobs("me/tool", Ok(vec![job("a", "running"), job("b", "queued")]), &mut current, &mut queued, &mut sources);
    assert_eq!(sources.len(), 2);
    assert_eq!((current.len(), queued.len()), (1, 1));

    record_github_jobs("me/tool", Err("HTTP 500".into()), &mut current, &mut queued, &mut sources);
    assert_eq!(sources[2].message.as_deref(), Some("Jobs unavailable: HTTP 500"));
    assert_eq!(sources[2].provider, "github");

    record_forgejo_jobs("codeberg o/r", Ok(vec![job("c", "in_progress")]), &mut current, &mut queued, &mut sources);
    assert_eq!(current.len(), 2);
    assert_eq!((sources[3].provider.as_str(), sources[3].health.as_str()), ("forgejo", "ok"));

    record_forgejo_jobs("codeberg o/r", Err("HTTP 404".into()), &mut current, &mut queued, &mut sources);
    assert_eq!(
        sources[4].message.as_deref(),
        Some("API unsupported, permission missing, or unavailable: HTTP 404")
    );
    assert_eq!((current.len(), queued.len()), (2, 1));

    let missing = github_missing_token("GITHUB_TOKEN");
    assert_eq!((missing.provider.as_str(), missing.name.as_str()), ("github", "GitHub"));
    assert_eq!(missing.message.as_deref(), Some("Missing GITHUB_TOKEN"));
}

#[test]
fn maps_each_github_request_to_its_fetch() {
    match github_fetch(&GitHubRequest::OrgRunners { owner: "acme".into() }) {
        GitHubFetch::Runners { url, source } => {
            assert_eq!(url, "https://api.github.com/orgs/acme/actions/runners?per_page=100");
            assert_eq!(source, "org/acme");
        }
        other => panic!("unexpected {other:?}"),
    }
    match github_fetch(&GitHubRequest::RepoRunners { repo: repo("me", "tool") }) {
        GitHubFetch::Runners { url, source } => {
            assert_eq!(url, "https://api.github.com/repos/me/tool/actions/runners?per_page=100");
            assert_eq!(source, "me/tool");
        }
        other => panic!("unexpected {other:?}"),
    }
    match github_fetch(&GitHubRequest::RepoJobs { repo: repo("me", "tool") }) {
        GitHubFetch::Jobs { repo, source } => {
            assert_eq!((repo.owner.as_str(), repo.repo.as_str()), ("me", "tool"));
            assert_eq!(source, "me/tool");
        }
        other => panic!("unexpected {other:?}"),
    }
}
