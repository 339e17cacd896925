//! One refresh of the dashboard, put together.

use vstd::prelude::*;
use crate::jobs::{attach_current_jobs, current_job_for, job_views, with_current_job};
use crate::model::{DashboardConfig, DashboardData, Job, Runner, SourceStatus, TailscaleDevice};

verus! {

/// What one refresh shows: the polled sources, runners, jobs and devices,
/// each runner showing the first current job that runs on it.
pub fn assemble_dashboard(
    config: &DashboardConfig,
    updated_at: String,
    sources: Vec<SourceStatus>,
    runners: Vec<Runner>,
    current_jobs: Vec<Job>,
    queued_jobs: Vec<Job>,
    devices: Vec<TailscaleDevice>,
) -> (r: DashboardData)
    ensures
        r.updated_at == updated_at,
        r.refresh_interval_seconds == config.refresh_interval_seconds,
        r.sources == sources,
        r.current_jobs == current_jobs,
        r.queued_jobs == queued_jobs,
        r.devices == devices,
        r.runners@.len() == runners@.len(),
        forall|i: int|
            0 <= i < runners@.len() ==> #[trigger] r.runners@[i]@ == with_current_job(
                runners@[i]@,
                current_job_for(job_views(current_jobs@), runners@[i]@),
            ),
{
    let mut runners = runners;
    attach_current_jobs(&mut runners, current_jobs.as_slice());
    DashboardData {
        updated_at,
        refresh_interval_seconds: config.refresh_interval_seconds,
        sources,
        runners,
        current_jobs,
        queued_jobs,
        devices,
    }
}

} // verus!
