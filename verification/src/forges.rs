//! Talking to the forges: the requests the dashboard makes to GitHub and
//! Forgejo, what it reads from their answers, and how each answer is
//! recorded.

use vstd::prelude::*;
use crate::json::JsonValue;
use crate::jobs::{
    forgejo_job_of, github_job_of, normalize_forgejo_job, normalize_github_job,
    normalize_github_runners, running_jobs, split_jobs, waiting_jobs, github_runner_of, job_views,
    runner_views,
};
use crate::model::{
    error_status, ok_status, source_error, source_ok, ForgejoConfig, ForgejoInstance, GitHubConfig,
    GitHubOrganization, Job, JobView, RepositoryRef, Runner, SourceStatus,
    SourceStatusView,
};
use crate::text::{
    concat2, concat3, decimal_i64, decimal_int, is_blank, trim, trim_end_char, trim_trailing,
};

verus! {

// ---------------------------------------------------------------- names and addresses

/// `owner/repo`, how a repository is named on the dashboard.
pub open spec fn repo_path(repo: RepositoryRef) -> Seq<char> {
    repo.owner@ + "/"@ + repo.repo@
}

/// `owner/repo`, how a repository is named on the dashboard.
pub fn repository_name(repo: &RepositoryRef) -> (r: String)
    ensures
        r@ == repo_path(*repo),
{
    concat3(repo.owner.as_str(), "/", repo.repo.as_str())
}

/// `org/owner`, how an organisation's runners are named on the dashboard.
pub fn organization_source(owner: &str) -> (r: String)
    ensures
        r@ == "org/"@ + owner@,
{
    concat2("org/", owner)
}

/// `instance owner/repo`, how a Forgejo repository is named on the dashboard.
pub fn forgejo_source(instance_name: &str, repo: &RepositoryRef) -> (r: String)
    ensures
        r@ == instance_name@ + " "@ + repo_path(*repo),
{
    let path = repository_name(repo);
    concat3(instance_name, " ", path.as_str())
}

/// The GitHub API address of an organisation's runners.
pub fn github_org_runners_url(owner: &str) -> (r: String)
    ensures
        r@ == "https://api.github.com/orgs/"@ + owner@ + "/actions/runners?per_page=100"@,
{
    concat3("https://api.github.com/orgs/", owner, "/actions/runners?per_page=100")
}

/// The GitHub API address of a repository's runners.
pub fn github_repo_runners_url(repo: &RepositoryRef) -> (r: String)
    ensures
        r@ == "https://api.github.com/repos/"@ + repo_path(*repo) + "/actions/runners?per_page=100"@,
{
    let path = repository_name(repo);
    concat3("https://api.github.com/repos/", path.as_str(), "/actions/runners?per_page=100")
}

/// The GitHub API address of a repository's workflow runs in one status.
pub fn github_runs_url(repo: &RepositoryRef, status: &str) -> (r: String)
    ensures
        r@ == "https://api.github.com/repos/"@ + repo_path(*repo) + "/actions/runs?status="@ + status@
            + "&per_page=50"@,
{
    let path = repository_name(repo);
    let mut r = concat3("https://api.github.com/repos/", path.as_str(), "/actions/runs?status=");
    r.append(status);
    r.append("&per_page=50");
    r
}

/// The GitHub API address of the latest jobs of a workflow run.
pub fn github_run_jobs_url(repo: &RepositoryRef, run_id: i64) -> (r: String)
    ensures
        r@ == "https://api.github.com/repos/"@ + repo_path(*repo) + "/actions/runs/"@ + decimal_int(
            run_id as int,
        ) + "/jobs?filter=latest&per_page=100"@,
{
    let path = repository_name(repo);
    let id = decimal_i64(run_id);
    let mut r = concat3("https://api.github.com/repos/", path.as_str(), "/actions/runs/");
    r.append(id.as_str());
    r.append("/jobs?filter=latest&per_page=100");
    r
}

/// The Forgejo API address of a repository's workflow runs; the base address
/// may end in slashes.
pub fn forgejo_runs_url(base_url: &str, repo: &RepositoryRef) -> (r: String)
    ensures
        r@ == trim_trailing(base_url@, '/') + "/api/v1/repos/"@ + repo_path(*repo)
            + "/actions/runs?limit=50"@,
{
    let base = trim_end_char(base_url, '/');
    let path = repository_name(repo);
    let mut r = concat3(base.as_str(), "/api/v1/repos/", path.as_str());
    r.append("/actions/runs?limit=50");
    r
}

/// The value of the `Authorization` header for a Forgejo token.
pub fn forgejo_authorization(token: &str) -> (r: String)
    ensures
        r@ == "token "@ + token@,
{
    concat2("token ", token)
}

// ---------------------------------------------------------------- tokens

/// A token read from the environment, kept only when it is not blank.
pub fn usable_token(value: Option<String>) -> (r: Option<String>)
    ensures
        match value {
            Some(v) => if trim(v@).len() == 0 {
                r is None
            } else {
                r == Some(v)
            },
            None => r is None,
        },
{
    match value {
        Some(v) => if is_blank(v.as_str()) {
            None
        } else {
            Some(v)
        },
        None => None,
    }
}

/// The environment variable holding the token of a Forgejo instance: its
/// own, else the one of the Forgejo configuration.
pub fn forgejo_token_env<'a>(config: &'a ForgejoConfig, instance: &'a ForgejoInstance) -> (r: &'a String)
    ensures
        *r == match instance.token_env {
            Some(t) => t,
            None => config.token_env,
        },
{
    match &instance.token_env {
        Some(t) => t,
        None => &config.token_env,
    }
}

/// Whether GitHub has anything to poll.
pub fn github_enabled(config: &GitHubConfig) -> (r: bool)
    ensures
        r == (config.organizations@.len() > 0 || config.repositories@.len() > 0),
{
    config.organizations.len() > 0 || config.repositories.len() > 0
}

// ---------------------------------------------------------------- answers

/// The items of the array member `key`, or none.
pub open spec fn array_member(body: JsonValue, key: Seq<char>) -> Seq<JsonValue> {
    match body.field(key).items_of() {
        Some(items) => items,
        None => Seq::empty(),
    }
}

fn array_member_exec<'a>(body: &'a JsonValue, key: &str) -> (r: Option<&'a Vec<JsonValue>>)
    ensures
        match r {
            Some(v) => v@ == array_member(*body, key@),
            None => array_member(*body, key@) == Seq::<JsonValue>::empty(),
        },
{
    match body.get(key) {
        Some(v) => v.as_array(),
        None => None,
    }
}

/// The runners listed in a GitHub answer.
pub fn runners_from_body(source: &str, body: &JsonValue) -> (r: Vec<Runner>)
    ensures
        runner_views(r@) == array_member(*body, "runners"@).map_values(
            |x: JsonValue| github_runner_of(source@, x),
        ),
{
    match array_member_exec(body, "runners") {
        Some(items) => normalize_github_runners(source, items.as_slice()),
        None => {
            let r: Vec<Runner> = Vec::new();
            assert(runner_views(r@) =~= array_member(*body, "runners"@).map_values(
                |x: JsonValue| github_runner_of(source@, x),
            ));
            r
        },
    }
}

/// The ids of the runs among `items` whose id is an `i64`, in order.
pub open spec fn run_ids(items: Seq<JsonValue>) -> Seq<i64>
    decreases items.len(),
{
    if items.len() == 0 {
        Seq::empty()
    } else {
        match items.last().field("id"@).i64_of() {
            Some(i) => run_ids(items.drop_last()).push(i),
            None => run_ids(items.drop_last()),
        }
    }
}

fn push_run_ids(items: &Vec<JsonValue>, ids: &mut Vec<i64>)
    ensures
        final(ids)@ == old(ids)@ + run_ids(items@),
{
    let ghost start = ids@;
    let mut i: usize = 0;
    assert(start + run_ids(items@.take(0)) =~= start);
    while i < items.len()
        invariant
            i <= items.len(),
            ids@ == start + run_ids(items@.take(i as int)),
        decreases items.len() - i,
    {
        assert(items@.take(i + 1).drop_last() =~= items@.take(i as int));
        assert(items@.take(i + 1).last() == items@[i as int]);
        match items[i].get("id") {
            Some(v) => match v.as_i64() {
                Some(id) => {
                    ids.push(id);
                    assert(ids@ =~= start + run_ids(items@.take(i + 1)));
                },
                None => {},
            },
            None => {},
        }
        i = i + 1;
    }
    assert(items@.take(items.len() as int) =~= items@);
}

/// The ids of the workflow runs in two GitHub answers, the queued runs first.
pub fn workflow_run_ids(queued: &JsonValue, active: &JsonValue) -> (r: Vec<i64>)
    ensures
        r@ == run_ids(array_member(*queued, "workflow_runs"@)) + run_ids(
            array_member(*active, "workflow_runs"@),
        ),
{
    let mut ids: Vec<i64> = Vec::new();
    match array_member_exec(queued, "workflow_runs") {
        Some(items) => push_run_ids(items, &mut ids),
        None => {},
    }
    assert(ids@ =~= run_ids(array_member(*queued, "workflow_runs"@)));
    let ghost first = ids@;
    match array_member_exec(active, "workflow_runs") {
        Some(items) => push_run_ids(items, &mut ids),
        None => {
            assert(first + run_ids(Seq::<JsonValue>::empty()) =~= first);
        },
    }
    ids
}

/// The waiting and running jobs among GitHub job documents, in order.
pub open spec fn github_jobs_of(repository: Seq<char>, items: Seq<JsonValue>) -> Seq<JobView>
    decreases items.len(),
{
    if items.len() == 0 {
        Seq::empty()
    } else {
        match github_job_of(repository, items.last()) {
            Some(j) => github_jobs_of(repository, items.drop_last()).push(j),
            None => github_jobs_of(repository, items.drop_last()),
        }
    }
}

/// The waiting and running jobs of a GitHub answer listing a run's jobs.
pub fn github_jobs_from_body(repository: &str, body: &JsonValue) -> (r: Vec<Job>)
    ensures
        job_views(r@) == github_jobs_of(repository@, array_member(*body, "jobs"@)),
{
    let mut r: Vec<Job> = Vec::new();
    match array_member_exec(body, "jobs") {
        Some(items) => {
            let mut i: usize = 0;
            while i < items.len()
                invariant
                    i <= items.len(),
                    items@ == array_member(*body, "jobs"@),
                    job_views(r@) == github_jobs_of(repository@, items@.take(i as int)),
                decreases items.len() - i,
            {
                assert(items@.take(i + 1).drop_last() =~= items@.take(i as int));
                assert(items@.take(i + 1).last() == items@[i as int]);
                match normalize_github_job(repository, &items[i]) {
                    Some(job) => {
                        let ghost before = r@;
                        let ghost v = job@;
                        r.push(job);
                        assert(job_views(r@) =~= job_views(before).push(v));
                    },
                    None => {},
                }
                i = i + 1;
            }
            assert(items@.take(items.len() as int) =~= items@);
        },
        None => {
            assert(job_views(r@) =~= Seq::<JobView>::empty());
        },
    }
    r
}

/// The runs of a Forgejo answer: the array `workflow_runs`, else the array
/// `runs`, else the answer itself when it is an array.
pub open spec fn forgejo_runs_of(body: JsonValue) -> Seq<JsonValue> {
    match body.field("workflow_runs"@).items_of() {
        Some(items) => items,
        None => match body.field("runs"@).items_of() {
            Some(items) => items,
            None => match body.items_of() {
                Some(items) => items,
                None => Seq::empty(),
            },
        },
    }
}

/// The waiting and running jobs among Forgejo run documents, in order.
pub open spec fn forgejo_jobs_of(source: Seq<char>, repository: Seq<char>, items: Seq<JsonValue>) -> Seq<JobView>
    decreases items.len(),
{
    if items.len() == 0 {
        Seq::empty()
    } else {
        match forgejo_job_of(source, repository, items.last()) {
            Some(j) => forgejo_jobs_of(source, repository, items.drop_last()).push(j),
            None => forgejo_jobs_of(source, repository, items.drop_last()),
        }
    }
}

fn forgejo_runs_exec(body: &JsonValue) -> (r: Option<&Vec<JsonValue>>)
    ensures
        match r {
            Some(v) => v@ == forgejo_runs_of(*body),
            None => forgejo_runs_of(*body) == Seq::<JsonValue>::empty(),
        },
{
    match body.get("workflow_runs") {
        Some(v) => match v.as_array() {
            Some(items) => return Some(items),
            None => {},
        },
        None => {},
    }
    match body.get("runs") {
        Some(v) => match v.as_array() {
            Some(items) => return Some(items),
            None => {},
        },
        None => {},
    }
    body.as_array()
}

/// The waiting and running jobs of a Forgejo answer listing runs.
pub fn forgejo_jobs_from_body(source: &str, repository: &str, body: &JsonValue) -> (r: Vec<Job>)
    ensures
        job_views(r@) == forgejo_jobs_of(source@, repository@, forgejo_runs_of(*body)),
{
    let mut r: Vec<Job> = Vec::new();
    match forgejo_runs_exec(body) {
        Some(items) => {
            let mut i: usize = 0;
            while i < items.len()
                invariant
                    i <= items.len(),
                    items@ == forgejo_runs_of(*body),
                    job_views(r@) == forgejo_jobs_of(source@, repository@, items@.take(i as int)),
                decreases items.len() - i,
            {
                assert(items@.take(i + 1).drop_last() =~= items@.take(i as int));
                assert(items@.take(i + 1).last() == items@[i as int]);
                match normalize_forgejo_job(source, repository, &items[i]) {
                    Some(job) => {
                        let ghost before = r@;
                        let ghost v = job@;
                        r.push(job);
                        assert(job_views(r@) =~= job_views(before).push(v));
                    },
                    None => {},
                }
                i = i + 1;
            }
            assert(items@.take(items.len() as int) =~= items@);
        },
        None => {
            assert(job_views(r@) =~= Seq::<JobView>::empty());
        },
    }
    r
}

// ---------------------------------------------------------------- recording answers

/// Whether `sources` is `old` with one more status, whose view is `status`.
pub open spec fn one_more_status(sources: Seq<SourceStatus>, old: Seq<SourceStatus>, status: SourceStatusView) -> bool {
    &&& sources.len() == old.len() + 1
    &&& sources.drop_last() == old
    &&& sources.last()@ == status
}

/// The status recorded when GitHub is configured but its token is missing.
pub fn github_missing_token(token_env: &str) -> (r: SourceStatus)
    ensures
        r@ == error_status("github"@, "GitHub"@, "Missing "@ + token_env@),
{
    source_error("github", "GitHub", concat2("Missing ", token_env))
}

/// Records the answer to a request for the GitHub runners of `source`: the
/// runners and a healthy source, or the failure of the source.
pub fn record_github_runners(
    source: &str,
    fetched: Result<Vec<Runner>, String>,
    runners: &mut Vec<Runner>,
    sources: &mut Vec<SourceStatus>,
)
    ensures
        match fetched {
            Ok(v) => {
                &&& final(runners)@ == old(runners)@ + v@
                &&& one_more_status(final(sources)@, old(sources)@, ok_status("github"@, source@))
            },
            Err(e) => {
                &&& final(runners)@ == old(runners)@
                &&& one_more_status(final(sources)@, old(sources)@, error_status("github"@, source@, e@))
            },
        },
{
    match fetched {
        Ok(mut next) => {
            runners.append(&mut next);
            sources.push(source_ok("github", source));
        },
        Err(e) => {
            sources.push(source_error("github", source, e));
        },
    }
    assert(sources@.drop_last() =~= old(sources)@);
}

/// Records the answer to a request for the GitHub jobs of `source`: the jobs,
/// running or queued, or the failure of the source.
pub fn record_github_jobs(
    source: &str,
    fetched: Result<Vec<Job>, String>,
    current_jobs: &mut Vec<Job>,
    queued_jobs: &mut Vec<Job>,
    sources: &mut Vec<SourceStatus>,
)
    ensures
        match fetched {
            Ok(v) => {
                &&& final(current_jobs)@ == old(current_jobs)@ + running_jobs(v@)
                &&& final(queued_jobs)@ == old(queued_jobs)@ + waiting_jobs(v@)
                &&& final(sources)@ == old(sources)@
            },
            Err(e) => {
                &&& final(current_jobs)@ == old(current_jobs)@
                &&& final(queued_jobs)@ == old(queued_jobs)@
                &&& one_more_status(
                    final(sources)@,
                    old(sources)@,
                    error_status("github"@, source@, "Jobs unavailable: "@ + e@),
                )
            },
        },
{
    match fetched {
        Ok(jobs) => split_jobs(jobs, current_jobs, queued_jobs),
        Err(e) => {
            let message = concat2("Jobs unavailable: ", e.as_str());
            sources.push(source_error("github", source, message));
            assert(sources@.drop_last() =~= old(sources)@);
        },
    }
}

/// Records the answer to a request for the Forgejo runs of `source`: the
/// jobs, running or queued, and a healthy source, or the failure of the
/// source.
pub fn record_forgejo_jobs(
    source: &str,
    fetched: Result<Vec<Job>, String>,
    current_jobs: &mut Vec<Job>,
    queued_jobs: &mut Vec<Job>,
    sources: &mut Vec<SourceStatus>,
)
    ensures
        match fetched {
            Ok(v) => {
                &&& final(current_jobs)@ == old(current_jobs)@ + running_jobs(v@)
                &&& final(queued_jobs)@ == old(queued_jobs)@ + waiting_jobs(v@)
                &&& one_more_status(final(sources)@, old(sources)@, ok_status("forgejo"@, source@))
            },
            Err(e) => {
                &&& final(current_jobs)@ == old(current_jobs)@
                &&& final(queued_jobs)@ == old(queued_jobs)@
                &&& one_more_status(
                    final(sources)@,
                    old(sources)@,
                    error_status(
                        "forgejo"@,
                        source@,
                        "API unsupported, permission missing, or unavailable: "@ + e@,
                    ),
                )
            },
        },
{
    match fetched {
        Ok(jobs) => {
            split_jobs(jobs, current_jobs, queued_jobs);
            sources.push(source_ok("forgejo", source));
        },
        Err(e) => {
            let message = concat2("API unsupported, permission missing, or unavailable: ", e.as_str());
            sources.push(source_error("forgejo", source, message));
        },
    }
    assert(sources@.drop_last() =~= old(sources)@);
}

// ---------------------------------------------------------------- what to ask

/// A copy of a repository reference.
pub fn copy_repo(repo: &RepositoryRef) -> (r: RepositoryRef)
    ensures
        r == *repo,
{
    RepositoryRef { owner: repo.owner.clone(), repo: repo.repo.clone() }
}

/// One request the dashboard makes to GitHub.
#[derive(Debug, Clone)]
pub enum GitHubRequest {
    /// The runners of an organisation.
    OrgRunners { owner: String },
    /// The runners of a repository.
    RepoRunners { repo: RepositoryRef },
    /// The queued and running jobs of a repository.
    RepoJobs { repo: RepositoryRef },
}

pub enum GitHubRequestView {
    OrgRunners(Seq<char>),
    RepoRunners(Seq<char>, Seq<char>),
    RepoJobs(Seq<char>, Seq<char>),
}

impl View for GitHubRequest {
    type V = GitHubRequestView;

    open spec fn view(&self) -> GitHubRequestView {
        match self {
            GitHubRequest::OrgRunners { owner } => GitHubRequestView::OrgRunners(owner@),
            GitHubRequest::RepoRunners { repo } => GitHubRequestView::RepoRunners(repo.owner@, repo.repo@),
            GitHubRequest::RepoJobs { repo } => GitHubRequestView::RepoJobs(repo.owner@, repo.repo@),
        }
    }
}

/// The requests for an organisation: its runners, then the jobs of each of
/// its repositories.
pub open spec fn org_requests(org: GitHubOrganization) -> Seq<GitHubRequestView> {
    seq![GitHubRequestView::OrgRunners(org.owner@)] + org.repositories@.map_values(
        |r: String| GitHubRequestView::RepoJobs(org.owner@, r@),
    )
}

/// The requests for the organisations, in order.
pub open spec fn org_list_requests(orgs: Seq<GitHubOrganization>) -> Seq<GitHubRequestView>
    decreases orgs.len(),
{
    if orgs.len() == 0 {
        Seq::empty()
    } else {
        org_list_requests(orgs.drop_last()) + org_requests(orgs.last())
    }
}

/// The requests for the repositories: for each, its runners and its jobs.
pub open spec fn repo_list_requests(repos: Seq<RepositoryRef>) -> Seq<GitHubRequestView>
    decreases repos.len(),
{
    if repos.len() == 0 {
        Seq::empty()
    } else {
        repo_list_requests(repos.drop_last()) + seq![
            GitHubRequestView::RepoRunners(repos.last().owner@, repos.last().repo@),
            GitHubRequestView::RepoJobs(repos.last().owner@, repos.last().repo@),
        ]
    }
}

/// The requests a GitHub poll makes: the organisations first, then the
/// repositories.
pub open spec fn github_requests_of(config: GitHubConfig) -> Seq<GitHubRequestView> {
    org_list_requests(config.organizations@) + repo_list_requests(config.repositories@)
}

/// The views of some GitHub requests.
pub open spec fn github_request_views(v: Seq<GitHubRequest>) -> Seq<GitHubRequestView> {
    v.map_values(|q: GitHubRequest| q@)
}

/// The requests a GitHub poll makes, in order.
pub fn github_requests(config: &GitHubConfig) -> (r: Vec<GitHubRequest>)
    ensures
        github_request_views(r@) == github_requests_of(*config),
{
    let mut r: Vec<GitHubRequest> = Vec::new();
    let orgs = &config.organizations;
    let mut i: usize = 0;
    assert(github_request_views(r@) =~= org_list_requests(orgs@.take(0)));
    while i < orgs.len()
        invariant
            i <= orgs@.len(),
            *orgs == config.organizations,
            github_request_views(r@) == org_list_requests(orgs@.take(i as int)),
        decreases orgs.len() - i,
    {
        let org = &orgs[i];
        let ghost start = github_request_views(r@);
        r.push(GitHubRequest::OrgRunners { owner: org.owner.clone() });
        assert(github_request_views(r@) =~= start + seq![GitHubRequestView::OrgRunners(org.owner@)]);
        let mut j: usize = 0;
        while j < org.repositories.len()
            invariant
                j <= org.repositories@.len(),
                github_request_views(r@) == start + seq![GitHubRequestView::OrgRunners(org.owner@)]
                    + org.repositories@.take(j as int).map_values(
                    |x: String| GitHubRequestView::RepoJobs(org.owner@, x@),
                ),
            decreases org.repositories.len() - j,
        {
            let ghost before = github_request_views(r@);
            r.push(
                GitHubRequest::RepoJobs {
                    repo: RepositoryRef { owner: org.owner.clone(), repo: org.repositories[j].clone() },
                },
            );
            assert(github_request_views(r@) =~= before.push(
                GitHubRequestView::RepoJobs(org.owner@, org.repositories@[j as int]@),
            ));
            assert(org.repositories@.take(j + 1).map_values(
                |x: String| GitHubRequestView::RepoJobs(org.owner@, x@),
            ) =~= org.repositories@.take(j as int).map_values(
                |x: String| GitHubRequestView::RepoJobs(org.owner@, x@),
            ).push(GitHubRequestView::RepoJobs(org.owner@, org.repositories@[j as int]@)));
            j = j + 1;
        }
        assert(org.repositories@.take(j as int) =~= org.repositories@);
        assert(orgs@.take(i + 1).drop_last() =~= orgs@.take(i as int));
        assert(orgs@.take(i + 1).last() == *org);
        assert(github_request_views(r@) =~= org_list_requests(orgs@.take(i + 1)));
        i = i + 1;
    }
    assert(orgs@.take(i as int) =~= orgs@);
    let ghost from_orgs = github_request_views(r@);
    let repos = &config.repositories;
    let mut k: usize = 0;
    assert(from_orgs + repo_list_requests(repos@.take(0)) =~= from_orgs);
    while k < repos.len()
        invariant
            k <= repos@.len(),
            *repos == config.repositories,
            github_request_views(r@) == from_orgs + repo_list_requests(repos@.take(k as int)),
        decreases repos.len() - k,
    {
        let ghost before = github_request_views(r@);
        r.push(GitHubRequest::RepoRunners { repo: copy_repo(&repos[k]) });
        r.push(GitHubRequest::RepoJobs { repo: copy_repo(&repos[k]) });
        assert(repos@.take(k + 1).drop_last() =~= repos@.take(k as int));
        assert(repos@.take(k + 1).last() == repos@[k as int]);
        assert(github_request_views(r@) =~= before + seq![
            GitHubRequestView::RepoRunners(repos@[k as int].owner@, repos@[k as int].repo@),
            GitHubRequestView::RepoJobs(repos@[k as int].owner@, repos@[k as int].repo@),
        ]);
        k = k + 1;
    }
    assert(repos@.take(k as int) =~= repos@);
    r
}

/// One request the dashboard makes to a Forgejo instance: the runs of a
/// repository.
#[derive(Debug, Clone)]
pub struct ForgejoRequest {
    pub instance_name: String,
    pub base_url: String,
    pub token_env: String,
    pub repo: RepositoryRef,
}

pub struct ForgejoRequestView {
    pub instance_name: Seq<char>,
    pub base_url: Seq<char>,
    pub token_env: Seq<char>,
    pub owner: Seq<char>,
    pub repo: Seq<char>,
}

impl View for ForgejoRequest {
    type V = ForgejoRequestView;

    open spec fn view(&self) -> ForgejoRequestView {
        ForgejoRequestView {
            instance_name: self.instance_name@,
            base_url: self.base_url@,
            token_env: self.token_env@,
            owner: self.repo.owner@,
            repo: self.repo.repo@,
        }
    }
}

/// The token variable of an instance: its own, else `default_env`.
pub open spec fn instance_token_env(instance: ForgejoInstance, default_env: Seq<char>) -> Seq<char> {
    match instance.token_env {
        Some(t) => t@,
        None => default_env,
    }
}

/// The requests for one instance: the runs of each of its repositories.
pub open spec fn instance_requests(instance: ForgejoInstance, default_env: Seq<char>) -> Seq<ForgejoRequestView> {
    instance.repositories@.map_values(
        |r: RepositoryRef|
            ForgejoRequestView {
                instance_name: instance.name@,
                base_url: instance.base_url@,
                token_env: instance_token_env(instance, default_env),
                owner: r.owner@,
                repo: r.repo@,
            },
    )
}

/// The requests for the instances, in order.
pub open spec fn instance_list_requests(instances: Seq<ForgejoInstance>, default_env: Seq<char>) -> Seq<ForgejoRequestView>
    decreases instances.len(),
{
    if instances.len() == 0 {
        Seq::empty()
    } else {
        instance_list_requests(instances.drop_last(), default_env) + instance_requests(instances.last(), default_env)
    }
}

/// The views of some Forgejo requests.
pub open spec fn forgejo_request_views(v: Seq<ForgejoRequest>) -> Seq<ForgejoRequestView> {
    v.map_values(|q: ForgejoRequest| q@)
}

/// The requests a Forgejo poll makes, instance by instance.
pub fn forgejo_requests(config: &ForgejoConfig) -> (r: Vec<ForgejoRequest>)
    ensures
        forgejo_request_views(r@) == instance_list_requests(config.instances@, config.token_env@),
{
    let mut r: Vec<ForgejoRequest> = Vec::new();
    let instances = &config.instances;
    let mut i: usize = 0;
    assert(forgejo_request_views(r@) =~= instance_list_requests(instances@.take(0), config.token_env@));
    while i < instances.len()
        invariant
            i <= instances@.len(),
            *instances == config.instances,
            forgejo_request_views(r@) == instance_list_requests(instances@.take(i as int), config.token_env@),
        decreases instances.len() - i,
    {
        let instance = &instances[i];
        let token_env = forgejo_token_env(config, instance);
        let ghost start = forgejo_request_views(r@);
        let ghost want = instance_requests(*instance, config.token_env@);
        let mut j: usize = 0;
        assert(start + want.take(0) =~= start);
        while j < instance.repositories.len()
            invariant
                j <= instance.repositories@.len(),
                want == instance_requests(*instance, config.token_env@),
                token_env@ == instance_token_env(*instance, config.token_env@),
                forgejo_request_views(r@) == start + want.take(j as int),
            decreases instance.repositories.len() - j,
        {
            let ghost before = forgejo_request_views(r@);
            let q = ForgejoRequest {
                instance_name: instance.name.clone(),
                base_url: instance.base_url.clone(),
                token_env: token_env.clone(),
                repo: copy_repo(&instance.repositories[j]),
            };
            let ghost qv = q@;
            r.push(q);
            assert(forgejo_request_views(r@) =~= before.push(qv));
            assert(want.take(j + 1) =~= want.take(j as int).push(want[j as int]));
            j = j + 1;
        }
        assert(want.take(j as int) =~= want);
        assert(instances@.take(i + 1).drop_last() =~= instances@.take(i as int));
        assert(instances@.take(i + 1).last() == *instance);
        i = i + 1;
    }
    assert(instances@.take(i as int) =~= instances@);
    r
}

/// What answering one GitHub request takes: a single address listing
/// runners, or the several requests that list a repository's jobs; and the
/// source the answer is recorded under.
#[derive(Debug, Clone)]
pub enum GitHubFetch {
    Runners { url: String, source: String },
    Jobs { repo: RepositoryRef, source: String },
}

/// The fetch for a GitHub request: an organisation's runners under
/// `org/owner`, a repository's runners or jobs under `owner/repo`.
pub fn github_fetch(request: &GitHubRequest) -> (r: GitHubFetch)
    ensures
        match *request {
            GitHubRequest::OrgRunners { owner } => r matches GitHubFetch::Runners { url, source }
                && url@ == "https://api.github.com/orgs/"@ + owner@ + "/actions/runners?per_page=100"@
                && source@ == "org/"@ + owner@,
            GitHubRequest::RepoRunners { repo } => r matches GitHubFetch::Runners { url, source }
                && url@ == "https://api.github.com/repos/"@ + repo_path(repo)
                + "/actions/runners?per_page=100"@ && source@ == repo_path(repo),
            GitHubRequest::RepoJobs { repo } => r matches GitHubFetch::Jobs { repo: asked, source }
                && asked == repo && source@ == repo_path(repo),
        },
{
    match request {
        GitHubRequest::OrgRunners { owner } => GitHubFetch::Runners {
            url: github_org_runners_url(owner.as_str()),
            source: organization_source(owner.as_str()),
        },
        GitHubRequest::RepoRunners { repo } => GitHubFetch::Runners {
            url: github_repo_runners_url(repo),
            source: repository_name(repo),
        },
        GitHubRequest::RepoJobs { repo } => GitHubFetch::Jobs {
            repo: copy_repo(repo),
            source: repository_name(repo),
        },
    }
}

// ---------------------------------------------------------------- laws of the request lists

/// The number of requests made for the organisations: for each, one for
/// its runners and one per repository for its jobs.
pub open spec fn org_request_count(orgs: Seq<GitHubOrganization>) -> int
    decreases orgs.len(),
{
    if orgs.len() == 0 {
        0
    } else {
        org_request_count(orgs.drop_last()) + 1 + orgs.last().repositories@.len()
    }
}

proof fn lemma_org_list_requests(orgs: Seq<GitHubOrganization>)
    ensures
        org_list_requests(orgs).len() == org_request_count(orgs),
        forall|m: int| #![trigger orgs[m]] 0 <= m < orgs.len() ==> exists|p: int| {
            &&& 0 <= p
            &&& p + 1 + orgs[m].repositories@.len() <= org_list_requests(orgs).len()
            &&& #[trigger] org_list_requests(orgs)[p] == GitHubRequestView::OrgRunners(orgs[m].owner@)
            &&& forall|j: int| 0 <= j < orgs[m].repositories@.len() ==> org_list_requests(orgs)[p + 1 + j]
                == GitHubRequestView::RepoJobs(orgs[m].owner@, (#[trigger] orgs[m].repositories@[j])@)
        },
    decreases orgs.len(),
{
    if orgs.len() > 0 {
        let init = orgs.drop_last();
        lemma_org_list_requests(init);
        let prev = org_list_requests(init);
        let last = org_requests(orgs.last());
        let all = org_list_requests(orgs);
        assert(all == prev + last);
        assert forall|m: int| #![trigger orgs[m]] 0 <= m < orgs.len() implies exists|p: int| {
            &&& 0 <= p
            &&& p + 1 + orgs[m].repositories@.len() <= all.len()
            &&& #[trigger] all[p] == GitHubRequestView::OrgRunners(orgs[m].owner@)
            &&& forall|j: int| 0 <= j < orgs[m].repositories@.len() ==> all[p + 1 + j]
                == GitHubRequestView::RepoJobs(orgs[m].owner@, (#[trigger] orgs[m].repositories@[j])@)
        } by {
            if m < init.len() {
                assert(init[m] == orgs[m]);
                let p = choose|p: int| {
                    &&& 0 <= p
                    &&& p + 1 + init[m].repositories@.len() <= prev.len()
                    &&& #[trigger] prev[p] == GitHubRequestView::OrgRunners(init[m].owner@)
                    &&& forall|j: int| 0 <= j < init[m].repositories@.len() ==> prev[p + 1 + j]
                        == GitHubRequestView::RepoJobs(init[m].owner@, (#[trigger] init[m].repositories@[j])@)
                };
                assert(all[p] == prev[p]);
                assert forall|j: int| 0 <= j < orgs[m].repositories@.len() implies all[p + 1 + j]
                    == GitHubRequestView::RepoJobs(orgs[m].owner@, (#[trigger] orgs[m].repositories@[j])@) by {
                    assert(all[p + 1 + j] == prev[p + 1 + j]);
                    assert(init[m].repositories@[j] == orgs[m].repositories@[j]);
                }
            } else {
                let p = prev.len() as int;
                assert(all[p] == last[0]);
                assert forall|j: int| 0 <= j < orgs[m].repositories@.len() implies all[p + 1 + j]
                    == GitHubRequestView::RepoJobs(orgs[m].owner@, (#[trigger] orgs[m].repositories@[j])@) by {
                    assert(all[p + 1 + j] == last[1 + j]);
                }
            }
        }
    }
}

proof fn lemma_repo_list_requests(repos: Seq<RepositoryRef>)
    ensures
        repo_list_requests(repos).len() == 2 * repos.len(),
        forall|k: int| 0 <= k < repos.len() ==> {
            &&& repo_list_requests(repos)[2 * k] == GitHubRequestView::RepoRunners(
                (#[trigger] repos[k]).owner@,
                repos[k].repo@,
            )
            &&& repo_list_requests(repos)[2 * k + 1] == GitHubRequestView::RepoJobs(repos[k].owner@, repos[k].repo@)
        },
    decreases repos.len(),
{
    if repos.len() > 0 {
        let init = repos.drop_last();
        lemma_repo_list_requests(init);
        assert forall|k: int| 0 <= k < repos.len() implies {
            &&& repo_list_requests(repos)[2 * k] == GitHubRequestView::RepoRunners(
                (#[trigger] repos[k]).owner@,
                repos[k].repo@,
            )
            &&& repo_list_requests(repos)[2 * k + 1] == GitHubRequestView::RepoJobs(repos[k].owner@, repos[k].repo@)
        } by {
            if k < init.len() {
                assert(init[k] == repos[k]);
            }
        }
    }
}

/// The GitHub poll asks, for each organisation, its runners and then the
/// jobs of each of its repositories, in order; after all organisations, for
/// each configured repository in order, its runners and then its jobs.
pub proof fn github_requests_cover_configuration(config: GitHubConfig)
    ensures
        ({
            let r = github_requests_of(config);
            let n = org_request_count(config.organizations@);
            &&& r.len() == n + 2 * config.repositories@.len()
            &&& forall|k: int| 0 <= k < config.repositories@.len() ==> {
                &&& r[n + 2 * k] == GitHubRequestView::RepoRunners(
                    (#[trigger] config.repositories@[k]).owner@,
                    config.repositories@[k].repo@,
                )
                &&& r[n + 2 * k + 1] == GitHubRequestView::RepoJobs(
                    config.repositories@[k].owner@,
                    config.repositories@[k].repo@,
                )
            }
            &&& forall|m: int| #![trigger config.organizations@[m]] 0 <= m < config.organizations@.len() ==> exists|p: int| {
                &&& 0 <= p
                &&& p + 1 + config.organizations@[m].repositories@.len() <= n
                &&& #[trigger] r[p] == GitHubRequestView::OrgRunners(config.organizations@[m].owner@)
                &&& forall|j: int| 0 <= j < config.organizations@[m].repositories@.len() ==> r[p + 1 + j]
                    == GitHubRequestView::RepoJobs(
                    config.organizations@[m].owner@,
                    (#[trigger] config.organizations@[m].repositories@[j])@,
                )
            }
        }),
{
    let orgs = config.organizations@;
    let repos = config.repositories@;
    lemma_org_list_requests(orgs);
    lemma_repo_list_requests(repos);
    let a = org_list_requests(orgs);
    let b = repo_list_requests(repos);
    let r = github_requests_of(config);
    let n = org_request_count(orgs);
    assert(r == a + b);
    assert forall|k: int| 0 <= k < repos.len() implies {
        &&& r[n + 2 * k] == GitHubRequestView::RepoRunners((#[trigger] repos[k]).owner@, repos[k].repo@)
        &&& r[n + 2 * k + 1] == GitHubRequestView::RepoJobs(repos[k].owner@, repos[k].repo@)
    } by {
        assert(r[n + 2 * k] == b[2 * k]);
        assert(r[n + 2 * k + 1] == b[2 * k + 1]);
    }
    assert forall|m: int| #![trigger orgs[m]] 0 <= m < orgs.len() implies exists|p: int| {
        &&& 0 <= p
        &&& p + 1 + orgs[m].repositories@.len() <= n
        &&& #[trigger] r[p] == GitHubRequestView::OrgRunners(orgs[m].owner@)
        &&& forall|j: int| 0 <= j < orgs[m].repositories@.len() ==> r[p + 1 + j]
            == GitHubRequestView::RepoJobs(orgs[m].owner@, (#[trigger] orgs[m].repositories@[j])@)
    } by {
        let p = choose|p: int| {
            &&& 0 <= p
            &&& p + 1 + orgs[m].repositories@.len() <= a.len()
            &&& #[trigger] a[p] == GitHubRequestView::OrgRunners(orgs[m].owner@)
            &&& forall|j: int| 0 <= j < orgs[m].repositories@.len() ==> a[p + 1 + j]
                == GitHubRequestView::RepoJobs(orgs[m].owner@, (#[trigger] orgs[m].repositories@[j])@)
        };
        assert(r[p] == a[p]);
        assert forall|j: int| 0 <= j < orgs[m].repositories@.len() implies r[p + 1 + j]
            == GitHubRequestView::RepoJobs(orgs[m].owner@, (#[trigger] orgs[m].repositories@[j])@) by {
            assert(r[p + 1 + j] == a[p + 1 + j]);
        }
    }
}

/// The run ids read from an answer are the integer ids of its runs, in
/// order; runs without one are skipped.
pub proof fn run_ids_are_the_integer_ids(items: Seq<JsonValue>)
    ensures
        run_ids(items) == items.filter(|x: JsonValue| x.field("id"@).i64_of() is Some).map_values(
            |x: JsonValue| x.field("id"@).i64_of()->0,
        ),
    decreases items.len(),
{
    reveal(Seq::filter);
    if items.len() > 0 {
        run_ids_are_the_integer_ids(items.drop_last());
        let f = |x: JsonValue| x.field("id"@).i64_of() is Some;
        let g = |x: JsonValue| x.field("id"@).i64_of()->0;
        let prev = items.drop_last().filter(f);
        if f(items.last()) {
            assert(items.filter(f) == prev.push(items.last()));
            assert(prev.push(items.last()).map_values(g) =~= prev.map_values(g).push(g(items.last())));
        } else {
            assert(items.filter(f) == prev);
        }
    }
}

/// The jobs read from a GitHub answer are, in order, the jobs of the
/// documents that describe a waiting or running job.
pub proof fn github_jobs_are_the_active_ones(repository: Seq<char>, items: Seq<JsonValue>)
    ensures
        github_jobs_of(repository, items) == items.filter(|x: JsonValue| github_job_of(repository, x) is Some).map_values(
            |x: JsonValue| github_job_of(repository, x)->0,
        ),
    decreases items.len(),
{
    reveal(Seq::filter);
    if items.len() > 0 {
        github_jobs_are_the_active_ones(repository, items.drop_last());
        let f = |x: JsonValue| github_job_of(repository, x) is Some;
        let g = |x: JsonValue| github_job_of(repository, x)->0;
        let prev = items.drop_last().filter(f);
        if f(items.last()) {
            assert(items.filter(f) == prev.push(items.last()));
            assert(prev.push(items.last()).map_values(g) =~= prev.map_values(g).push(g(items.last())));
        } else {
            assert(items.filter(f) == prev);
        }
    }
}

/// The jobs read from a Forgejo answer are, in order, the jobs of the runs
/// that are waiting or running.
pub proof fn forgejo_jobs_are_the_active_ones(source: Seq<char>, repository: Seq<char>, items: Seq<JsonValue>)
    ensures
        forgejo_jobs_of(source, repository, items) == items.filter(
            |x: JsonValue| forgejo_job_of(source, repository, x) is Some,
        ).map_values(|x: JsonValue| forgejo_job_of(source, repository, x)->0),
    decreases items.len(),
{
    reveal(Seq::filter);
    if items.len() > 0 {
        forgejo_jobs_are_the_active_ones(source, repository, items.drop_last());
        let f = |x: JsonValue| forgejo_job_of(source, repository, x) is Some;
        let g = |x: JsonValue| forgejo_job_of(source, repository, x)->0;
        let prev = items.drop_last().filter(f);
        if f(items.last()) {
            assert(items.filter(f) == prev.push(items.last()));
            assert(prev.push(items.last()).map_values(g) =~= prev.map_values(g).push(g(items.last())));
        } else {
            assert(items.filter(f) == prev);
        }
    }
}

/// The runs of a Forgejo answer: the array `workflow_runs` when there is
/// one, else the array `runs`, else the answer itself when it is an array,
/// else none.
pub proof fn forgejo_runs_by_member(body: JsonValue)
    ensures
        body.field("workflow_runs"@).items_of() is Some ==> forgejo_runs_of(body) == body.field(
            "workflow_runs"@,
        ).items_of()->0,
        body.field("workflow_runs"@).items_of() is None && body.field("runs"@).items_of() is Some
            ==> forgejo_runs_of(body) == body.field("runs"@).items_of()->0,
        body.field("workflow_runs"@).items_of() is None && body.field("runs"@).items_of() is None
            ==> forgejo_runs_of(body) == (if body.items_of() is Some {
            body.items_of()->0
        } else {
            Seq::empty()
        }),
{
}

/// The number of requests made for some Forgejo instances: one per
/// repository.
pub open spec fn instance_request_count(instances: Seq<ForgejoInstance>) -> nat
    decreases instances.len(),
{
    if instances.len() == 0 {
        0
    } else {
        instance_request_count(instances.drop_last()) + instances.last().repositories@.len()
    }
}

/// The request for the runs of `repo` on `instance`: its name and address,
/// its own token variable or else `default_env`, and the repository.
pub open spec fn repository_request(instance: ForgejoInstance, repo: RepositoryRef, default_env: Seq<char>) -> ForgejoRequestView {
    ForgejoRequestView {
        instance_name: instance.name@,
        base_url: instance.base_url@,
        token_env: if instance.token_env is Some {
            instance.token_env->0@
        } else {
            default_env
        },
        owner: repo.owner@,
        repo: repo.repo@,
    }
}

/// The Forgejo poll asks, instance by instance and repository by
/// repository in order, for each repository's runs, with the instance's own
/// token variable or else the Forgejo default one: the requests of
/// instance `m` start after those of the instances before it.
pub proof fn forgejo_requests_cover_configuration(instances: Seq<ForgejoInstance>, default_env: Seq<char>)
    ensures
        instance_list_requests(instances, default_env).len() == instance_request_count(instances),
        forall|m: int|
            #![trigger instance_request_count(instances.take(m))]
            0 <= m < instances.len() ==> instance_request_count(instances.take(m))
                + instances[m].repositories@.len() <= instance_request_count(instances),
        forall|m: int, j: int|
            #![trigger instances[m].repositories@[j]]
            0 <= m < instances.len() && 0 <= j < instances[m].repositories@.len()
                ==> instance_list_requests(instances, default_env)[instance_request_count(instances.take(m)) + j]
                    == repository_request(instances[m], instances[m].repositories@[j], default_env),
    decreases instances.len(),
{
    if instances.len() > 0 {
        let init = instances.drop_last();
        forgejo_requests_cover_configuration(init, default_env);
        let prev = instance_list_requests(init, default_env);
        let all = instance_list_requests(instances, default_env);
        let last = instance_requests(instances.last(), default_env);
        assert(all == prev + last);
        assert(instances.take(init.len() as int) =~= init);
        assert forall|m: int|
            #![trigger instance_request_count(instances.take(m))]
            0 <= m < instances.len() implies instance_request_count(instances.take(m))
                + instances[m].repositories@.len() <= instance_request_count(instances) by {
            if m < init.len() {
                assert(instances.take(m) =~= init.take(m));
                assert(init[m] == instances[m]);
                assert(instance_request_count(init.take(m)) + init[m].repositories@.len()
                    <= instance_request_count(init));
            } else {
                assert(instances.take(m) =~= init);
            }
        }
        assert forall|m: int, j: int|
            #![trigger instances[m].repositories@[j]]
            0 <= m < instances.len() && 0 <= j < instances[m].repositories@.len() implies
                instance_list_requests(instances, default_env)[instance_request_count(instances.take(m)) + j]
                    == repository_request(instances[m], instances[m].repositories@[j], default_env) by {
            if m < init.len() {
                assert(init[m] == instances[m]);
                assert(init[m].repositories@[j] == instances[m].repositories@[j]);
                assert(instances.take(m) =~= init.take(m));
                assert(instance_request_count(init.take(m)) + init[m].repositories@.len()
                    <= instance_request_count(init));
                let x = instance_request_count(init.take(m)) + j;
                assert(x < prev.len());
                assert(all[x] == prev[x]);
            } else {
                assert(instances.take(m) =~= init);
                assert(instances[m] == instances.last());
                assert(last[j] == repository_request(instances[m], instances[m].repositories@[j], default_env));
                assert(all[prev.len() + j] == last[j]);
            }
        }
    }
}

} // verus!
