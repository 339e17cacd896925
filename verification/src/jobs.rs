//! CI jobs and runners: reading them from forge answers, telling running
//! jobs from queued ones, and linking runners to the jobs they run.

use vstd::prelude::*;
use crate::json::{field_to_string, JsonValue};
use crate::model::{strings_view, Job, JobView, Runner, RunnerView};
use crate::text::{
    ascii_lower, chars_of, concat3, opt_view, owned, str_eq, string_of_prefix,
    to_ascii_lowercase,
};

verus! {

// ---------------------------------------------------------------- status

/// The dashboard's name for a status a forge reports, compared without
/// regard to ASCII case.
pub open spec fn job_status_of(status: Seq<char>) -> Seq<char> {
    let l = ascii_lower(status);
    if l == "requested"@ || l == "queued"@ {
        "queued"@
    } else if l == "waiting"@ {
        "waiting"@
    } else if l == "pending"@ {
        "pending"@
    } else if l == "in-progress"@ || l == "in_progress"@ {
        "in_progress"@
    } else if l == "running"@ {
        "running"@
    } else {
        "unknown"@
    }
}

/// The statuses of jobs that are waiting for or occupying a runner.
pub open spec fn is_active_status(status: Seq<char>) -> bool {
    ||| status == "queued"@
    ||| status == "waiting"@
    ||| status == "pending"@
    ||| status == "in_progress"@
    ||| status == "running"@
}

/// The statuses of jobs that occupy a runner.
pub open spec fn is_running_status(status: Seq<char>) -> bool {
    status == "in_progress"@ || status == "running"@
}

/// The dashboard's name for a job status that a forge reports.
pub fn normalize_job_status(status: &str) -> (r: String)
    ensures
        r@ == job_status_of(status@),
{
    let l = to_ascii_lowercase(status);
    let l = l.as_str();
    if str_eq(l, "requested") || str_eq(l, "queued") {
        owned("queued")
    } else if str_eq(l, "waiting") {
        owned("waiting")
    } else if str_eq(l, "pending") {
        owned("pending")
    } else if str_eq(l, "in-progress") || str_eq(l, "in_progress") {
        owned("in_progress")
    } else if str_eq(l, "running") {
        owned("running")
    } else {
        owned("unknown")
    }
}

/// Whether a job with this status is shown.
pub fn is_active_job_status(status: &str) -> (r: bool)
    ensures
        r == is_active_status(status@),
{
    str_eq(status, "queued") || str_eq(status, "waiting") || str_eq(status, "pending")
        || str_eq(status, "in_progress") || str_eq(status, "running")
}

// ---------------------------------------------------------------- commits

/// A commit hash shortened to its first seven characters.
pub open spec fn short_sha_of(s: Seq<char>) -> Seq<char> {
    if s.len() <= 7 {
        s
    } else {
        s.take(7)
    }
}

/// A commit hash shortened to its first seven characters.
pub fn short_sha(value: &str) -> (r: String)
    ensures
        r@ == short_sha_of(value@),
{
    let v = chars_of(value);
    if v.len() <= 7 {
        assert(v@.take(v.len() as int) =~= v@);
        string_of_prefix(&v, v.len())
    } else {
        string_of_prefix(&v, 7)
    }
}

// ---------------------------------------------------------------- helpers

/// `o`, else `fallback`.
pub open spec fn or_text(o: Option<Seq<char>>, fallback: Seq<char>) -> Seq<char> {
    match o {
        Some(s) => s,
        None => fallback,
    }
}

/// `a`, else `b`.
pub open spec fn first_of(a: Option<Seq<char>>, b: Option<Seq<char>>) -> Option<Seq<char>> {
    match a {
        Some(s) => Some(s),
        None => b,
    }
}

fn or_text_exec(o: Option<String>, fallback: &str) -> (r: String)
    ensures
        r@ == or_text(opt_view(o), fallback@),
{
    match o {
        Some(s) => s,
        None => owned(fallback),
    }
}

fn first_of_exec(a: Option<String>, b: Option<String>) -> (r: Option<String>)
    ensures
        opt_view(r) == first_of(opt_view(a), opt_view(b)),
{
    match a {
        Some(s) => Some(s),
        None => b,
    }
}

fn short_opt(o: Option<String>) -> (r: Option<String>)
    ensures
        opt_view(r) == match opt_view(o) {
            Some(s) => Some(short_sha_of(s)),
            None => None,
        },
{
    match o {
        Some(s) => Some(short_sha(s.as_str())),
        None => None,
    }
}

/// `prefix:scope:id`, the form of the dashboard's identifiers.
pub open spec fn scoped_id(prefix: Seq<char>, scope: Seq<char>, id: Seq<char>) -> Seq<char> {
    prefix + scope + ":"@ + id
}

fn scoped_id_exec(prefix: &str, scope: &str, id: &str) -> (r: String)
    ensures
        r@ == scoped_id(prefix@, scope@, id@),
{
    let mut r = concat3(prefix, scope, ":");
    r.append(id);
    r
}

// ---------------------------------------------------------------- GitHub

/// The job that a GitHub job document describes, when it is waiting or
/// running.
pub open spec fn github_job_of(repository: Seq<char>, job: JsonValue) -> Option<JobView> {
    let status = job_status_of(or_text(job.field("status"@).str_of(), "unknown"@));
    if !is_active_status(status) {
        None
    } else {
        Some(
            JobView {
                id: scoped_id("github:"@, repository, or_text(job.field("id"@).text_of(), "unknown"@)),
                provider: "github"@,
                source: repository,
                repository: repository,
                workflow: or_text(job.field("workflow_name"@).str_of(), "Workflow"@),
                name: or_text(job.field("name"@).str_of(), "Job"@),
                status: status,
                runner_id: match job.field("runner_id"@).text_of() {
                    Some(i) => Some(scoped_id("github:"@, repository, i)),
                    None => None,
                },
                runner_name: job.field("runner_name"@).str_of(),
                branch: job.field("head_branch"@).str_of(),
                sha: match job.field("head_sha"@).str_of() {
                    Some(s) => Some(short_sha_of(s)),
                    None => None,
                },
                url: job.field("html_url"@).str_of(),
                started_at: job.field("started_at"@).str_of(),
                queued_at: job.field("created_at"@).str_of(),
            },
        )
    }
}

/// The view of an optional job.
pub open spec fn opt_job_view(o: Option<Job>) -> Option<JobView> {
    match o {
        Some(j) => Some(j@),
        None => None,
    }
}

/// The job that a GitHub job document describes; `None` for a job that is
/// neither waiting nor running.
pub fn normalize_github_job(repository: &str, job: &JsonValue) -> (r: Option<Job>)
    ensures
        opt_job_view(r) == github_job_of(repository@, *job),
{
    let reported = or_text_exec(job.field_string("status"), "unknown");
    let status = normalize_job_status(reported.as_str());
    if !is_active_job_status(status.as_str()) {
        return None;
    }
    let id = or_text_exec(field_to_string(job, "id"), "unknown");
    let runner_id = match field_to_string(job, "runner_id") {
        Some(i) => Some(scoped_id_exec("github:", repository, i.as_str())),
        None => None,
    };
    Some(
        Job {
            id: scoped_id_exec("github:", repository, id.as_str()),
            provider: owned("github"),
            source: owned(repository),
            repository: owned(repository),
            workflow: or_text_exec(job.field_string("workflow_name"), "Workflow"),
            name: or_text_exec(job.field_string("name"), "Job"),
            status,
            runner_id,
            runner_name: job.field_string("runner_name"),
            branch: job.field_string("head_branch"),
            sha: short_opt(job.field_string("head_sha")),
            url: job.field_string("html_url"),
            started_at: job.field_string("started_at"),
            queued_at: job.field_string("created_at"),
        },
    )
}

// ---------------------------------------------------------------- Forgejo

/// The job that a Forgejo run document describes, when it is waiting or
/// running; Forgejo names several members in more than one way.
pub open spec fn forgejo_job_of(source: Seq<char>, repository: Seq<char>, run: JsonValue) -> Option<JobView> {
    let status = job_status_of(
        or_text(first_of(run.field("status"@).str_of(), run.field("state"@).str_of()), "unknown"@),
    );
    if !is_active_status(status) {
        None
    } else {
        Some(
            JobView {
                id: scoped_id(
                    "forgejo:"@,
                    repository,
                    or_text(first_of(run.field("id"@).text_of(), run.field("run_id"@).text_of()), "unknown"@),
                ),
                provider: "forgejo"@,
                source: source,
                repository: repository,
                workflow: or_text(
                    first_of(run.field("workflow_name"@).str_of(), run.field("name"@).str_of()),
                    "Workflow"@,
                ),
                name: or_text(
                    first_of(
                        run.field("display_title"@).str_of(),
                        first_of(run.field("job_name"@).str_of(), run.field("name"@).str_of()),
                    ),
                    "Job"@,
                ),
                status: status,
                runner_id: run.field("runner_id"@).text_of(),
                runner_name: run.field("runner_name"@).str_of(),
                branch: first_of(run.field("head_branch"@).str_of(), run.field("ref_name"@).str_of()),
                sha: match first_of(run.field("head_sha"@).str_of(), run.field("commit_sha"@).str_of()) {
                    Some(s) => Some(short_sha_of(s)),
                    None => None,
                },
                url: first_of(run.field("html_url"@).str_of(), run.field("url"@).str_of()),
                started_at: run.field("started_at"@).str_of(),
                queued_at: run.field("created_at"@).str_of(),
            },
        )
    }
}

/// The job that a Forgejo run document describes; `None` for a run that is
/// neither waiting nor running.
pub fn normalize_forgejo_job(source: &str, repository: &str, run: &JsonValue) -> (r: Option<Job>)
    ensures
        opt_job_view(r) == forgejo_job_of(source@, repository@, *run),
{
    let reported = or_text_exec(
        first_of_exec(run.field_string("status"), run.field_string("state")),
        "unknown",
    );
    let status = normalize_job_status(reported.as_str());
    if !is_active_job_status(status.as_str()) {
        return None;
    }
    let id = or_text_exec(
        first_of_exec(field_to_string(run, "id"), field_to_string(run, "run_id")),
        "unknown",
    );
    Some(
        Job {
            id: scoped_id_exec("forgejo:", repository, id.as_str()),
            provider: owned("forgejo"),
            source: owned(source),
            repository: owned(repository),
            workflow: or_text_exec(
                first_of_exec(run.field_string("workflow_name"), run.field_string("name")),
                "Workflow",
            ),
            name: or_text_exec(
                first_of_exec(
                    run.field_string("display_title"),
                    first_of_exec(run.field_string("job_name"), run.field_string("name")),
                ),
                "Job",
            ),
            status,
            runner_id: field_to_string(run, "runner_id"),
            runner_name: run.field_string("runner_name"),
            branch: first_of_exec(run.field_string("head_branch"), run.field_string("ref_name")),
            sha: short_opt(first_of_exec(run.field_string("head_sha"), run.field_string("commit_sha"))),
            url: first_of_exec(run.field_string("html_url"), run.field_string("url")),
            started_at: run.field_string("started_at"),
            queued_at: run.field_string("created_at"),
        },
    )
}

// ---------------------------------------------------------------- runners

/// The names of the labels among `items` that have one.
pub open spec fn label_names(items: Seq<JsonValue>) -> Seq<Seq<char>>
    decreases items.len(),
{
    if items.len() == 0 {
        Seq::empty()
    } else {
        let rest = label_names(items.drop_last());
        match items.last().field("name"@).str_of() {
            Some(s) => rest.push(s),
            None => rest,
        }
    }
}

/// The runner that a GitHub runner document describes.
pub open spec fn github_runner_of(source: Seq<char>, runner: JsonValue) -> RunnerView {
    RunnerView {
        id: scoped_id("github:"@, source, or_text(runner.field("id"@).text_of(), "unknown"@)),
        provider: "github"@,
        source: source,
        name: or_text(runner.field("name"@).str_of(), "Unknown runner"@),
        os: runner.field("os"@).str_of(),
        status: or_text(runner.field("status"@).str_of(), "unknown"@),
        busy: match runner.field("busy"@).bool_of() {
            Some(b) => b,
            None => false,
        },
        labels: match runner.field("labels"@).items_of() {
            Some(items) => label_names(items),
            None => Seq::empty(),
        },
        current_job_id: None,
    }
}

/// The views of some runners.
pub open spec fn runner_views(v: Seq<Runner>) -> Seq<RunnerView> {
    v.map_values(|r: Runner| r@)
}

/// The views of some jobs.
pub open spec fn job_views(v: Seq<Job>) -> Seq<JobView> {
    v.map_values(|j: Job| j@)
}

fn label_names_in(items: &Vec<JsonValue>) -> (r: Vec<String>)
    ensures
        strings_view(r@) == label_names(items@),
{
    let mut r: Vec<String> = Vec::new();
    let mut i: usize = 0;
    while i < items.len()
        invariant
            i <= items.len(),
            strings_view(r@) == label_names(items@.take(i as int)),
        decreases items.len() - i,
    {
        assert(items@.take(i + 1).drop_last() =~= items@.take(i as int));
        assert(items@.take(i + 1).last() == items@[i as int]);
        match items[i].field_string("name") {
            Some(s) => {
                r.push(s);
                assert(strings_view(r@) =~= label_names(items@.take(i as int)).push(
                    items@[i as int].field("name"@).str_of()->0,
                ));
            },
            None => {},
        }
        i = i + 1;
    }
    assert(items@.take(items.len() as int) =~= items@);
    r
}

/// The runner that a GitHub runner document describes.
pub fn github_runner(source: &str, runner: &JsonValue) -> (r: Runner)
    ensures
        r@ == github_runner_of(source@, *runner),
{
    let id = or_text_exec(field_to_string(runner, "id"), "unknown");
    let labels = match runner.get("labels") {
        Some(v) => match v.as_array() {
            Some(items) => label_names_in(items),
            None => Vec::new(),
        },
        None => Vec::new(),
    };
    proof {
        if runner.field("labels"@).items_of() is None {
            assert(strings_view(labels@) =~= Seq::<Seq<char>>::empty());
        }
    }
    Runner {
        id: scoped_id_exec("github:", source, id.as_str()),
        provider: owned("github"),
        source: owned(source),
        name: or_text_exec(runner.field_string("name"), "Unknown runner"),
        os: runner.field_string("os"),
        status: or_text_exec(runner.field_string("status"), "unknown"),
        busy: match runner.field_bool("busy") {
            Some(b) => b,
            None => false,
        },
        labels,
        current_job_id: None,
    }
}

/// The runners that GitHub lists for `source`, in its order.
pub fn normalize_github_runners(source: &str, runners: &[JsonValue]) -> (r: Vec<Runner>)
    ensures
        runner_views(r@) == runners@.map_values(|x: JsonValue| github_runner_of(source@, x)),
{
    let ghost want = runners@.map_values(|x: JsonValue| github_runner_of(source@, x));
    let mut r: Vec<Runner> = Vec::new();
    let mut i: usize = 0;
    while i < runners.len()
        invariant
            i <= runners.len(),
            want == runners@.map_values(|x: JsonValue| github_runner_of(source@, x)),
            runner_views(r@) == want.take(i as int),
        decreases runners.len() - i,
    {
        let one = github_runner(source, &runners[i]);
        let ghost before = r@;
        let ghost v = one@;
        r.push(one);
        assert(runner_views(r@) =~= runner_views(before).push(v));
        assert(want.take(i + 1) =~= want.take(i as int).push(want[i as int]));
        i = i + 1;
    }
    assert(want.take(i as int) =~= want);
    r
}

// ---------------------------------------------------------------- running and queued

/// The jobs of `s` that occupy a runner, in order.
pub open spec fn running_jobs(s: Seq<Job>) -> Seq<Job>
    decreases s.len(),
{
    if s.len() == 0 {
        Seq::empty()
    } else if is_running_status(s.last().status@) {
        running_jobs(s.drop_last()).push(s.last())
    } else {
        running_jobs(s.drop_last())
    }
}

/// The jobs of `s` that wait for a runner, in order.
pub open spec fn waiting_jobs(s: Seq<Job>) -> Seq<Job>
    decreases s.len(),
{
    if s.len() == 0 {
        Seq::empty()
    } else if is_running_status(s.last().status@) {
        waiting_jobs(s.drop_last())
    } else {
        waiting_jobs(s.drop_last()).push(s.last())
    }
}

/// Appends the running jobs of `jobs` to `current_jobs` and the others to
/// `queued_jobs`, each in order.
pub fn split_jobs(jobs: Vec<Job>, current_jobs: &mut Vec<Job>, queued_jobs: &mut Vec<Job>)
    ensures
        final(current_jobs)@ == old(current_jobs)@ + running_jobs(jobs@),
        final(queued_jobs)@ == old(queued_jobs)@ + waiting_jobs(jobs@),
{
    let ghost all = jobs@;
    let ghost c0 = current_jobs@;
    let ghost q0 = queued_jobs@;
    let mut rest = jobs;
    let ghost mut k: int = 0;
    assert(all.skip(0) =~= all);
    assert(all.take(0) =~= Seq::<Job>::empty());
    assert(c0 + Seq::<Job>::empty() =~= c0);
    assert(q0 + Seq::<Job>::empty() =~= q0);
    while rest.len() > 0
        invariant
            0 <= k <= all.len(),
            rest@ == all.skip(k),
            current_jobs@ == c0 + running_jobs(all.take(k)),
            queued_jobs@ == q0 + waiting_jobs(all.take(k)),
        decreases rest.len(),
    {
        let ghost before = rest@;
        let job = rest.remove(0);
        proof {
            assert(rest@ =~= all.skip(k + 1));
            assert(all.take(k + 1).drop_last() =~= all.take(k));
            assert(all.take(k + 1).last() == job);
        }
        if str_eq(job.status.as_str(), "in_progress") || str_eq(job.status.as_str(), "running") {
            current_jobs.push(job);
            assert(current_jobs@ =~= c0 + running_jobs(all.take(k + 1)));
        } else {
            queued_jobs.push(job);
            assert(queued_jobs@ =~= q0 + waiting_jobs(all.take(k + 1)));
        }
        proof {
            k = k + 1;
        }
    }
    assert(all.take(k) =~= all);
}

// ---------------------------------------------------------------- runners and their jobs

/// Whether job `j` runs on runner `r`: it names the runner by id or by name.
pub open spec fn runs_on(j: JobView, r: RunnerView) -> bool {
    j.runner_id == Some(r.id) || j.runner_name == Some(r.name)
}

/// The id of the first job of `jobs` that runs on `r`.
pub open spec fn current_job_for(jobs: Seq<JobView>, r: RunnerView) -> Option<Seq<char>>
    decreases jobs.len(),
{
    if jobs.len() == 0 {
        None
    } else if runs_on(jobs[0], r) {
        Some(jobs[0].id)
    } else {
        current_job_for(jobs.drop_first(), r)
    }
}

/// `r` showing `id` as the job it runs.
pub open spec fn with_current_job(r: RunnerView, id: Option<Seq<char>>) -> RunnerView {
    RunnerView { current_job_id: id, ..r }
}

fn names(o: &Option<String>, s: &String) -> (r: bool)
    ensures
        r == (opt_view(*o) == Some(s@)),
{
    match o {
        Some(x) => str_eq(x.as_str(), s.as_str()),
        None => false,
    }
}

/// The id of the first of `jobs` that runs on `runner`.
pub fn find_current_job(jobs: &[Job], runner: &Runner) -> (r: Option<String>)
    ensures
        opt_view(r) == current_job_for(job_views(jobs@), runner@),
{
    let ghost jv = job_views(jobs@);
    let mut i: usize = 0;
    assert(jv.skip(0) =~= jv);
    while i < jobs.len()
        invariant
            i <= jobs@.len(),
            jv == job_views(jobs@),
            current_job_for(jv, runner@) == current_job_for(jv.skip(i as int), runner@),
        decreases jobs.len() - i,
    {
        assert(jv.skip(i as int)[0] == jobs@[i as int]@);
        assert(jv.skip(i as int).drop_first() =~= jv.skip(i + 1));
        if names(&jobs[i].runner_id, &runner.id) || names(&jobs[i].runner_name, &runner.name) {
            return Some(jobs[i].id.clone());
        }
        i = i + 1;
    }
    None
}

/// Shows on each runner the first of `current_jobs` that runs on it.
pub fn attach_current_jobs(runners: &mut Vec<Runner>, current_jobs: &[Job])
    ensures
        final(runners)@.len() == old(runners)@.len(),
        forall|i: int|
            0 <= i < old(runners)@.len() ==> #[trigger] final(runners)@[i]@ == with_current_job(
                old(runners)@[i]@,
                current_job_for(job_views(current_jobs@), old(runners)@[i]@),
            ),
{
    let ghost r0 = runners@;
    let mut i: usize = 0;
    while i < runners.len()
        invariant
            i <= runners@.len(),
            runners@.len() == r0.len(),
            forall|j: int|
                0 <= j < i ==> #[trigger] runners@[j]@ == with_current_job(
                    r0[j]@,
                    current_job_for(job_views(current_jobs@), r0[j]@),
                ),
            forall|j: int| i <= j < r0.len() ==> #[trigger] runners@[j] == r0[j],
        decreases r0.len() - i,
    {
        let id = find_current_job(current_jobs, &runners[i]);
        runners[i].current_job_id = id;
        i = i + 1;
    }
}

// ---------------------------------------------------------------- laws

/// A forge's status is always shown as one of the dashboard's five active
/// statuses or as `unknown`.
pub proof fn job_status_is_known(status: Seq<char>)
    ensures
        is_active_status(job_status_of(status)) || job_status_of(status) == "unknown"@,
{
}

/// Normalising a status that is already normalised changes nothing.
pub proof fn job_status_is_idempotent(status: Seq<char>)
    ensures
        job_status_of(job_status_of(status)) == job_status_of(status),
{
    reveal_strlit("queued");
    reveal_strlit("waiting");
    reveal_strlit("pending");
    reveal_strlit("in_progress");
    reveal_strlit("running");
    reveal_strlit("unknown");
    reveal_strlit("requested");
    reveal_strlit("in-progress");
    assert(ascii_lower("queued"@) =~= "queued"@);
    assert(ascii_lower("waiting"@) =~= "waiting"@);
    assert(ascii_lower("pending"@) =~= "pending"@);
    assert(ascii_lower("in_progress"@) =~= "in_progress"@);
    assert(ascii_lower("running"@) =~= "running"@);
    assert(ascii_lower("unknown"@) =~= "unknown"@);
}

/// Every job the dashboard reads from a forge is waiting for or occupying a
/// runner.
pub proof fn shown_jobs_are_active(source: Seq<char>, repository: Seq<char>, doc: JsonValue)
    ensures
        github_job_of(repository, doc) matches Some(j) ==> is_active_status(j.status),
        forgejo_job_of(source, repository, doc) matches Some(j) ==> is_active_status(j.status),
{
}

/// Splitting jobs sends each job to exactly one list: the running jobs to
/// the current list, every other job to the queue.
pub proof fn split_jobs_partitions(s: Seq<Job>)
    ensures
        running_jobs(s).to_multiset().add(waiting_jobs(s).to_multiset()) == s.to_multiset(),
        forall|i: int| 0 <= i < running_jobs(s).len() ==> is_running_status(#[trigger] running_jobs(s)[i].status@),
        forall|i: int| 0 <= i < waiting_jobs(s).len() ==> !is_running_status(#[trigger] waiting_jobs(s)[i].status@),
    decreases s.len(),
{
    broadcast use vstd::seq_lib::group_to_multiset_ensures;
    if s.len() == 0 {
        assert(running_jobs(s).to_multiset().add(waiting_jobs(s).to_multiset()) =~= s.to_multiset());
    } else {
        split_jobs_partitions(s.drop_last());
        assert(s =~= s.drop_last().push(s.last()));
        let r = running_jobs(s.drop_last());
        let w = waiting_jobs(s.drop_last());
        if is_running_status(s.last().status@) {
            assert(running_jobs(s).to_multiset().add(waiting_jobs(s).to_multiset()) =~= s.to_multiset());
            assert forall|i: int| 0 <= i < running_jobs(s).len() implies is_running_status(#[trigger] running_jobs(s)[i].status@) by {
                if i < r.len() {
                    assert(running_jobs(s)[i] == r[i]);
                }
            }
        } else {
            assert(running_jobs(s).to_multiset().add(waiting_jobs(s).to_multiset()) =~= s.to_multiset());
            assert forall|i: int| 0 <= i < waiting_jobs(s).len() implies !is_running_status(#[trigger] waiting_jobs(s)[i].status@) by {
                if i < w.len() {
                    assert(waiting_jobs(s)[i] == w[i]);
                }
            }
        }
    }
}

/// The current job shown on a runner is the first of the current jobs that
/// names the runner, by runner id or by runner name, whatever its status;
/// none when no current job names it.
pub proof fn current_job_is_first_naming_job(jobs: Seq<JobView>, r: RunnerView)
    ensures
        forall|k: int|
            0 <= k < jobs.len() && ((#[trigger] jobs[k]).runner_id == Some(r.id) || jobs[k].runner_name == Some(r.name))
                && (forall|i: int| 0 <= i < k ==> jobs[i].runner_id != Some(r.id) && jobs[i].runner_name != Some(r.name))
                ==> current_job_for(jobs, r) == Some(jobs[k].id),
        (forall|k: int| 0 <= k < jobs.len() ==> (#[trigger] jobs[k]).runner_id != Some(r.id) && jobs[k].runner_name != Some(r.name))
            ==> current_job_for(jobs, r) is None,
    decreases jobs.len(),
{
    if jobs.len() > 0 {
        current_job_is_first_naming_job(jobs.drop_first(), r);
        let rest = jobs.drop_first();
        assert forall|k: int|
            0 <= k < jobs.len() && ((#[trigger] jobs[k]).runner_id == Some(r.id) || jobs[k].runner_name == Some(r.name))
                && (forall|i: int| 0 <= i < k ==> jobs[i].runner_id != Some(r.id) && jobs[i].runner_name != Some(r.name))
                implies current_job_for(jobs, r) == Some(jobs[k].id) by {
            if k > 0 {
                assert(jobs[0].runner_id != Some(r.id) && jobs[0].runner_name != Some(r.name));
                assert(rest[k - 1] == jobs[k]);
                assert forall|i: int| 0 <= i < k - 1 implies rest[i].runner_id != Some(r.id) && rest[i].runner_name != Some(r.name) by {
                    assert(rest[i] == jobs[i + 1]);
                }
            }
        }
        if forall|k: int| 0 <= k < jobs.len() ==> (#[trigger] jobs[k]).runner_id != Some(r.id) && jobs[k].runner_name != Some(r.name) {
            assert(jobs[0].runner_id != Some(r.id));
            assert forall|k: int| 0 <= k < rest.len() implies (#[trigger] rest[k]).runner_id != Some(r.id) && rest[k].runner_name != Some(r.name) by {
                assert(rest[k] == jobs[k + 1]);
            }
        }
    }
}

/// Where a Forgejo run has a web page (`html_url`), the job links to it; the
/// `url` member is used only when `html_url` is no string.
pub proof fn forgejo_job_links_web_page(source: Seq<char>, repository: Seq<char>, run: JsonValue)
    ensures
        forgejo_job_of(source, repository, run) matches Some(j) ==> j.url == if run.field("html_url"@).str_of() is Some {
            run.field("html_url"@).str_of()
        } else {
            run.field("url"@).str_of()
        },
{
}

/// The text of `o`, or `fallback` where `o` is absent (stated by cases).
pub open spec fn text_or(o: Option<Seq<char>>, fallback: Seq<char>) -> Seq<char> {
    if o is Some {
        o->0
    } else {
        fallback
    }
}

/// What a GitHub job document becomes, member by member: the status is
/// normalised and only waiting or running jobs are kept; ids are scoped by
/// `github:` and the repository; missing names get `Workflow` and `Job`;
/// the commit hash is cut to seven characters; the queue time is
/// `created_at`.
pub proof fn github_job_members(repository: Seq<char>, job: JsonValue)
    ensures
        ({
            let status = job_status_of(text_or(job.field("status"@).str_of(), "unknown"@));
            &&& (github_job_of(repository, job) is Some <==> is_active_status(status))
            &&& github_job_of(repository, job) matches Some(j) ==> {
                &&& j.status == status
                &&& j.id == "github:"@ + repository + ":"@ + text_or(job.field("id"@).text_of(), "unknown"@)
                &&& j.provider == "github"@
                &&& j.source == repository
                &&& j.repository == repository
                &&& j.workflow == text_or(job.field("workflow_name"@).str_of(), "Workflow"@)
                &&& j.name == text_or(job.field("name"@).str_of(), "Job"@)
                &&& (job.field("runner_id"@).text_of() is Some <==> j.runner_id is Some)
                &&& j.runner_id matches Some(id) ==> id == "github:"@ + repository + ":"@ + job.field(
                    "runner_id"@,
                ).text_of()->0
                &&& j.runner_name == job.field("runner_name"@).str_of()
                &&& j.branch == job.field("head_branch"@).str_of()
                &&& (job.field("head_sha"@).str_of() is Some <==> j.sha is Some)
                &&& j.sha matches Some(sha) ==> sha == job.field("head_sha"@).str_of()->0.take(
                    if job.field("head_sha"@).str_of()->0.len() < 7 {
                        job.field("head_sha"@).str_of()->0.len() as int
                    } else {
                        7
                    },
                )
                &&& j.url == job.field("html_url"@).str_of()
                &&& j.started_at == job.field("started_at"@).str_of()
                &&& j.queued_at == job.field("created_at"@).str_of()
            }
        }),
{
    if github_job_of(repository, job) matches Some(j) {
        if let Some(sha) = job.field("head_sha"@).str_of() {
            if sha.len() <= 7 {
                assert(sha.take(sha.len() as int) =~= sha);
            }
        }
    }
}

/// What a Forgejo run document becomes, member by member. Forgejo names
/// several members in more than one way; the first name present wins:
/// `status` over `state`, `id` over `run_id`, `workflow_name` over `name`,
/// `display_title` over `job_name` over `name`, `head_branch` over
/// `ref_name`, `head_sha` over `commit_sha`, `html_url` over `url`.
pub proof fn forgejo_job_members(source: Seq<char>, repository: Seq<char>, run: JsonValue)
    ensures
        ({
            let reported = if run.field("status"@).str_of() is Some {
                run.field("status"@).str_of()->0
            } else {
                text_or(run.field("state"@).str_of(), "unknown"@)
            };
            let status = job_status_of(reported);
            &&& (forgejo_job_of(source, repository, run) is Some <==> is_active_status(status))
            &&& forgejo_job_of(source, repository, run) matches Some(j) ==> {
                &&& j.status == status
                &&& j.id == "forgejo:"@ + repository + ":"@ + (if run.field("id"@).text_of() is Some {
                    run.field("id"@).text_of()->0
                } else {
                    text_or(run.field("run_id"@).text_of(), "unknown"@)
                })
                &&& j.provider == "forgejo"@
                &&& j.source == source
                &&& j.repository == repository
                &&& j.workflow == (if run.field("workflow_name"@).str_of() is Some {
                    run.field("workflow_name"@).str_of()->0
                } else {
                    text_or(run.field("name"@).str_of(), "Workflow"@)
                })
                &&& j.name == (if run.field("display_title"@).str_of() is Some {
                    run.field("display_title"@).str_of()->0
                } else if run.field("job_name"@).str_of() is Some {
                    run.field("job_name"@).str_of()->0
                } else {
                    text_or(run.field("name"@).str_of(), "Job"@)
                })
                &&& j.runner_id == run.field("runner_id"@).text_of()
                &&& j.runner_name == run.field("runner_name"@).str_of()
                &&& j.branch == (if run.field("head_branch"@).str_of() is Some {
                    run.field("head_branch"@).str_of()
                } else {
                    run.field("ref_name"@).str_of()
                })
                &&& (j.sha is Some <==> (run.field("head_sha"@).str_of() is Some || run.field(
                    "commit_sha"@,
                ).str_of() is Some))
                &&& j.sha matches Some(sha) ==> sha == short_sha_of(
                    if run.field("head_sha"@).str_of() is Some {
                        run.field("head_sha"@).str_of()->0
                    } else {
                        run.field("commit_sha"@).str_of()->0
                    },
                )
                &&& j.started_at == run.field("started_at"@).str_of()
                &&& j.queued_at == run.field("created_at"@).str_of()
            }
        }),
{
}

/// A commit hash is cut to its first seven characters: the result begins
/// the hash and is seven long, or the whole hash when it is shorter.
pub proof fn short_sha_is_prefix(s: Seq<char>)
    ensures
        short_sha_of(s).len() == if s.len() < 7 {
            s.len()
        } else {
            7
        },
        forall|i: int| 0 <= i < short_sha_of(s).len() ==> short_sha_of(s)[i] == s[i],
{
}

/// What a GitHub runner document becomes, member by member.
pub proof fn github_runner_members(source: Seq<char>, runner: JsonValue)
    ensures
        ({
            let r = github_runner_of(source, runner);
            &&& r.id == "github:"@ + source + ":"@ + text_or(runner.field("id"@).text_of(), "unknown"@)
            &&& r.provider == "github"@
            &&& r.source == source
            &&& r.name == text_or(runner.field("name"@).str_of(), "Unknown runner"@)
            &&& r.os == runner.field("os"@).str_of()
            &&& r.status == text_or(runner.field("status"@).str_of(), "unknown"@)
            &&& r.busy == (runner.field("busy"@).bool_of() == Some(true))
            &&& runner.field("labels"@).items_of() is None ==> r.labels.len() == 0
            &&& r.current_job_id is None
        }),
{
}

/// The label names of a runner are the `name` strings of its labels, in
/// order: each label with a string name gives its name, others give none.
pub proof fn label_names_are_the_string_names(items: Seq<JsonValue>)
    ensures
        label_names(items).len() <= items.len(),
        forall|i: int| 0 <= i < label_names(items).len() ==> exists|k: int|
            0 <= k < items.len() && #[trigger] label_names(items)[i] == items[k].field("name"@).str_of()->0
                && items[k].field("name"@).str_of() is Some,
        (forall|k: int| 0 <= k < items.len() ==> (#[trigger] items[k]).field("name"@).str_of() is Some) ==> label_names(items).len() == items.len(),
    decreases items.len(),
{
    if items.len() > 0 {
        let init = items.drop_last();
        label_names_are_the_string_names(init);
        let prev = label_names(init);
        assert forall|i: int| 0 <= i < label_names(items).len() implies exists|k: int|
            0 <= k < items.len() && #[trigger] label_names(items)[i] == items[k].field("name"@).str_of()->0
                && items[k].field("name"@).str_of() is Some by {
            if i < prev.len() {
                let k = choose|k: int|
                    0 <= k < init.len() && #[trigger] prev[i] == init[k].field("name"@).str_of()->0
                        && init[k].field("name"@).str_of() is Some;
                assert(init[k] == items[k]);
            } else {
                assert(label_names(items)[i] == items[items.len() - 1].field("name"@).str_of()->0);
            }
        }
        if forall|k: int| 0 <= k < items.len() ==> (#[trigger] items[k]).field("name"@).str_of() is Some {
            assert forall|k: int| 0 <= k < init.len() implies (#[trigger] init[k]).field("name"@).str_of() is Some by {
                assert(init[k] == items[k]);
            }
            assert(items[items.len() - 1].field("name"@).str_of() is Some);
        }
    }
}

/// How a forge's status is shown: `requested` and `queued` as `queued`,
/// `in-progress` and `in_progress` as `in_progress`, `waiting`, `pending`
/// and `running` as themselves, compared without regard to ASCII case;
/// anything else as `unknown`.
pub proof fn job_status_table(status: Seq<char>)
    ensures
        ascii_lower(status) == "requested"@ ==> job_status_of(status) == "queued"@,
        ascii_lower(status) == "queued"@ ==> job_status_of(status) == "queued"@,
        ascii_lower(status) == "waiting"@ ==> job_status_of(status) == "waiting"@,
        ascii_lower(status) == "pending"@ ==> job_status_of(status) == "pending"@,
        ascii_lower(status) == "in-progress"@ ==> job_status_of(status) == "in_progress"@,
        ascii_lower(status) == "in_progress"@ ==> job_status_of(status) == "in_progress"@,
        ascii_lower(status) == "running"@ ==> job_status_of(status) == "running"@,
        ascii_lower(status) != "requested"@ && ascii_lower(status) != "queued"@ && ascii_lower(status)
            != "waiting"@ && ascii_lower(status) != "pending"@ && ascii_lower(status) != "in-progress"@
            && ascii_lower(status) != "in_progress"@ && ascii_lower(status) != "running"@
            ==> job_status_of(status) == "unknown"@,
        is_active_status(job_status_of(status)) <==> job_status_of(status) != "unknown"@,
{
    reveal_strlit("queued");
    reveal_strlit("waiting");
    reveal_strlit("pending");
    reveal_strlit("in_progress");
    reveal_strlit("running");
    reveal_strlit("unknown");
    reveal_strlit("requested");
    reveal_strlit("in-progress");
    assert("in-progress"@.len() != "requested"@.len());
    assert("in-progress"@.len() != "queued"@.len());
    assert("in-progress"@.len() != "waiting"@.len());
    assert("in-progress"@.len() != "pending"@.len());
    assert("unknown"@[0] != "waiting"@[0]);
    assert("unknown"@[0] != "pending"@[0]);
    assert("unknown"@[0] != "running"@[0]);
    assert("unknown"@.len() != "queued"@.len());
    assert("unknown"@.len() != "in_progress"@.len());
}

/// Splitting sends a job to the current list exactly when its status is
/// `in_progress` or `running`, and to the queue otherwise, keeping order.
pub proof fn split_by_running_status(s: Seq<Job>)
    ensures
        running_jobs(s) == s.filter(|j: Job| j.status@ == "in_progress"@ || j.status@ == "running"@),
        waiting_jobs(s) == s.filter(|j: Job| !(j.status@ == "in_progress"@ || j.status@ == "running"@)),
    decreases s.len(),
{
    reveal(Seq::filter);
    if s.len() > 0 {
        split_by_running_status(s.drop_last());
    }
}

/// The current job shown on every runner is the first current job that
/// names it, whatever its status: what `attach_current_jobs` does to each
/// runner, stated over the jobs' fields.
pub proof fn attached_job_is_first_naming_job(jobs: Seq<Job>, r: RunnerView)
    ensures
        forall|k: int|
            0 <= k < jobs.len() && (opt_view((#[trigger] jobs[k]).runner_id) == Some(r.id) || opt_view(
                jobs[k].runner_name,
            ) == Some(r.name)) && (forall|i: int|
                0 <= i < k ==> opt_view(jobs[i].runner_id) != Some(r.id) && opt_view(jobs[i].runner_name)
                    != Some(r.name)) ==> current_job_for(job_views(jobs), r) == Some(jobs[k].id@),
        (forall|k: int|
            0 <= k < jobs.len() ==> opt_view((#[trigger] jobs[k]).runner_id) != Some(r.id) && opt_view(
                jobs[k].runner_name,
            ) != Some(r.name)) ==> current_job_for(job_views(jobs), r) is None,
{
    let v = job_views(jobs);
    current_job_is_first_naming_job(v, r);
    assert forall|k: int|
        0 <= k < jobs.len() && (opt_view((#[trigger] jobs[k]).runner_id) == Some(r.id) || opt_view(
            jobs[k].runner_name,
        ) == Some(r.name)) && (forall|i: int|
            0 <= i < k ==> opt_view(jobs[i].runner_id) != Some(r.id) && opt_view(jobs[i].runner_name)
                != Some(r.name)) implies current_job_for(v, r) == Some(jobs[k].id@) by {
        assert(v[k] == jobs[k]@);
        assert forall|i: int| 0 <= i < k implies v[i].runner_id != Some(r.id) && v[i].runner_name != Some(r.name) by {
            assert(v[i] == jobs[i]@);
        }
    }
    if forall|k: int|
        0 <= k < jobs.len() ==> opt_view((#[trigger] jobs[k]).runner_id) != Some(r.id) && opt_view(
            jobs[k].runner_name,
        ) != Some(r.name) {
        assert forall|k: int| 0 <= k < v.len() implies (#[trigger] v[k]).runner_id != Some(r.id) && v[k].runner_name != Some(r.name) by {
            assert(v[k] == jobs[k]@);
        }
    }
}

} // verus!
