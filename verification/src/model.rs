//! What the dashboard shows (sources, runners, jobs, devices) and what it is
//! configured with, each shown type with its view.

use vstd::prelude::*;
use crate::text::{opt_view, owned};

verus! {

/// The views of a sequence of strings.
pub open spec fn strings_view(v: Seq<String>) -> Seq<Seq<char>> {
    v.map_values(|s: String| s@)
}

// ---------------------------------------------------------------- configuration

/// A repository on a forge.
#[derive(Debug, Clone)]
pub struct RepositoryRef {
    pub owner: String,
    pub repo: String,
}

/// A GitHub organisation whose runners are listed, with repositories whose
/// jobs are listed.
#[derive(Debug, Clone)]
pub struct GitHubOrganization {
    pub owner: String,
    pub repositories: Vec<String>,
}

/// The GitHub part of the configuration.
#[derive(Debug, Clone)]
pub struct GitHubConfig {
    pub token_env: String,
    pub organizations: Vec<GitHubOrganization>,
    pub repositories: Vec<RepositoryRef>,
}

/// A Forgejo (or Codeberg) instance and the repositories whose runs are listed.
#[derive(Debug, Clone)]
pub struct ForgejoInstance {
    pub name: String,
    pub base_url: String,
    pub token_env: Option<String>,
    pub repositories: Vec<RepositoryRef>,
}

/// The Forgejo part of the configuration.
#[derive(Debug, Clone)]
pub struct ForgejoConfig {
    pub token_env: String,
    pub instances: Vec<ForgejoInstance>,
}

/// A device on which actions (SSH, restart) are allowed.
#[derive(Debug, Clone)]
pub struct ConfiguredDevice {
    pub name: String,
    pub ssh_user: Option<String>,
    pub restartable: bool,
}

/// The Tailscale part of the configuration.
#[derive(Debug, Clone)]
pub struct TailscaleConfig {
    pub default_ssh_user: String,
    pub ssh_command_template: String,
    pub restart_command_template: String,
    pub devices: Vec<ConfiguredDevice>,
}

/// The dashboard's configuration.
#[derive(Debug, Clone)]
pub struct DashboardConfig {
    pub refresh_interval_seconds: u64,
    pub github: GitHubConfig,
    pub forgejo: ForgejoConfig,
    pub tailscale: TailscaleConfig,
}

impl Default for GitHubConfig {
    fn default() -> (r: Self)
        ensures
            r.token_env@.len() == 0,
            r.organizations@.len() == 0,
            r.repositories@.len() == 0,
    {
        GitHubConfig { token_env: String::new(), organizations: Vec::new(), repositories: Vec::new() }
    }
}

impl Default for ForgejoConfig {
    fn default() -> (r: Self)
        ensures
            r.token_env@.len() == 0,
            r.instances@.len() == 0,
    {
        ForgejoConfig { token_env: String::new(), instances: Vec::new() }
    }
}

impl Default for TailscaleConfig {
    fn default() -> (r: Self)
        ensures
            r.default_ssh_user@.len() == 0,
            r.ssh_command_template@.len() == 0,
            r.restart_command_template@.len() == 0,
            r.devices@.len() == 0,
    {
        TailscaleConfig {
            default_ssh_user: String::new(),
            ssh_command_template: String::new(),
            restart_command_template: String::new(),
            devices: Vec::new(),
        }
    }
}

impl Default for DashboardConfig {
    /// The configuration used when no file is found: refresh every 30
    /// seconds, nothing to poll on the forges, no devices with actions.
    fn default() -> (r: Self)
        ensures
            r.refresh_interval_seconds == 30,
            r.github.token_env@.len() == 0,
            r.github.organizations@.len() == 0,
            r.github.repositories@.len() == 0,
            r.forgejo.token_env@.len() == 0,
            r.forgejo.instances@.len() == 0,
            r.tailscale.default_ssh_user@.len() == 0,
            r.tailscale.ssh_command_template@.len() == 0,
            r.tailscale.restart_command_template@.len() == 0,
            r.tailscale.devices@.len() == 0,
    {
        DashboardConfig {
            refresh_interval_seconds: default_refresh_interval(),
            github: GitHubConfig::default(),
            forgejo: ForgejoConfig::default(),
            tailscale: TailscaleConfig::default(),
        }
    }
}

/// Seconds between refreshes when the configuration names none.
pub fn default_refresh_interval() -> (r: u64)
    ensures
        r == 30,
{
    30
}

/// The environment variable that holds the GitHub token by default.
pub fn default_github_token_env() -> (r: String)
    ensures
        r@ == "GITHUB_TOKEN"@,
{
    owned("GITHUB_TOKEN")
}

/// The environment variable that holds the Forgejo token by default.
pub fn default_forgejo_token_env() -> (r: String)
    ensures
        r@ == "CODEBERG_TOKEN"@,
{
    owned("CODEBERG_TOKEN")
}

/// The SSH user for devices that name none.
pub fn default_ssh_user() -> (r: String)
    ensures
        r@ == "lab"@,
{
    owned("lab")
}

/// The command that opens an SSH session, by default.
pub fn default_ssh_template() -> (r: String)
    ensures
        r@ == "tailscale ssh {user}@{host}"@,
{
    owned("tailscale ssh {user}@{host}")
}

/// The command that restarts a device, by default.
pub fn default_restart_template() -> (r: String)
    ensures
        r@ == "tailscale ssh {user}@{host} sudo /sbin/shutdown -r now"@,
{
    owned("tailscale ssh {user}@{host} sudo /sbin/shutdown -r now")
}

// ---------------------------------------------------------------- what is shown

/// The health of one polled source.
#[derive(Debug, Clone)]
pub struct SourceStatus {
    pub provider: String,
    pub name: String,
    pub health: String,
    pub message: Option<String>,
}

pub struct SourceStatusView {
    pub provider: Seq<char>,
    pub name: Seq<char>,
    pub health: Seq<char>,
    pub message: Option<Seq<char>>,
}

impl View for SourceStatus {
    type V = SourceStatusView;

    open spec fn view(&self) -> SourceStatusView {
        SourceStatusView {
            provider: self.provider@,
            name: self.name@,
            health: self.health@,
            message: opt_view(self.message),
        }
    }
}

/// A CI runner.
#[derive(Debug, Clone)]
pub struct Runner {
    pub id: String,
    pub provider: String,
    pub source: String,
    pub name: String,
    pub os: Option<String>,
    pub status: String,
    pub busy: bool,
    pub labels: Vec<String>,
    pub current_job_id: Option<String>,
}

pub struct RunnerView {
    pub id: Seq<char>,
    pub provider: Seq<char>,
    pub source: Seq<char>,
    pub name: Seq<char>,
    pub os: Option<Seq<char>>,
    pub status: Seq<char>,
    pub busy: bool,
    pub labels: Seq<Seq<char>>,
    pub current_job_id: Option<Seq<char>>,
}

impl View for Runner {
    type V = RunnerView;

    open spec fn view(&self) -> RunnerView {
        RunnerView {
            id: self.id@,
            provider: self.provider@,
            source: self.source@,
            name: self.name@,
            os: opt_view(self.os),
            status: self.status@,
            busy: self.busy,
            labels: strings_view(self.labels@),
            current_job_id: opt_view(self.current_job_id),
        }
    }
}

/// A queued or running CI job.
#[derive(Debug, Clone)]
pub struct Job {
    pub id: String,
    pub provider: String,
    pub source: String,
    pub repository: String,
    pub workflow: String,
    pub name: String,
    pub status: String,
    pub runner_id: Option<String>,
    pub runner_name: Option<String>,
    pub branch: Option<String>,
    pub sha: Option<String>,
    pub url: Option<String>,
    pub started_at: Option<String>,
    pub queued_at: Option<String>,
}

pub struct JobView {
    pub id: Seq<char>,
    pub provider: Seq<char>,
    pub source: Seq<char>,
    pub repository: Seq<char>,
    pub workflow: Seq<char>,
    pub name: Seq<char>,
    pub status: Seq<char>,
    pub runner_id: Option<Seq<char>>,
    pub runner_name: Option<Seq<char>>,
    pub branch: Option<Seq<char>>,
    pub sha: Option<Seq<char>>,
    pub url: Option<Seq<char>>,
    pub started_at: Option<Seq<char>>,
    pub queued_at: Option<Seq<char>>,
}

impl View for Job {
    type V = JobView;

    open spec fn view(&self) -> JobView {
        JobView {
            id: self.id@,
            provider: self.provider@,
            source: self.source@,
            repository: self.repository@,
            workflow: self.workflow@,
            name: self.name@,
            status: self.status@,
            runner_id: opt_view(self.runner_id),
            runner_name: opt_view(self.runner_name),
            branch: opt_view(self.branch),
            sha: opt_view(self.sha),
            url: opt_view(self.url),
            started_at: opt_view(self.started_at),
            queued_at: opt_view(self.queued_at),
        }
    }
}

/// A device of the tailnet.
#[derive(Debug, Clone)]
pub struct TailscaleDevice {
    pub id: String,
    pub name: String,
    pub host_name: String,
    pub dns_name: Option<String>,
    pub tailnet_ip: Option<String>,
    pub os: Option<String>,
    pub online: bool,
    pub last_seen: Option<String>,
    pub user: Option<String>,
    pub tags: Vec<String>,
    pub ssh_user: Option<String>,
    pub restartable: bool,
}

pub struct TailscaleDeviceView {
    pub id: Seq<char>,
    pub name: Seq<char>,
    pub host_name: Seq<char>,
    pub dns_name: Option<Seq<char>>,
    pub tailnet_ip: Option<Seq<char>>,
    pub os: Option<Seq<char>>,
    pub online: bool,
    pub last_seen: Option<Seq<char>>,
    pub user: Option<Seq<char>>,
    pub tags: Seq<Seq<char>>,
    pub ssh_user: Option<Seq<char>>,
    pub restartable: bool,
}

impl View for TailscaleDevice {
    type V = TailscaleDeviceView;

    open spec fn view(&self) -> TailscaleDeviceView {
        TailscaleDeviceView {
            id: self.id@,
            name: self.name@,
            host_name: self.host_name@,
            dns_name: opt_view(self.dns_name),
            tailnet_ip: opt_view(self.tailnet_ip),
            os: opt_view(self.os),
            online: self.online,
            last_seen: opt_view(self.last_seen),
            user: opt_view(self.user),
            tags: strings_view(self.tags@),
            ssh_user: opt_view(self.ssh_user),
            restartable: self.restartable,
        }
    }
}

/// Everything one refresh of the dashboard shows.
#[derive(Debug, Clone)]
pub struct DashboardData {
    pub updated_at: String,
    pub refresh_interval_seconds: u64,
    pub sources: Vec<SourceStatus>,
    pub runners: Vec<Runner>,
    pub current_jobs: Vec<Job>,
    pub queued_jobs: Vec<Job>,
    pub devices: Vec<TailscaleDevice>,
}

/// The answer to a device action.
#[derive(Debug, Clone)]
pub struct ActionResult {
    pub ok: bool,
    pub message: String,
}

/// The status of a source that answered.
pub open spec fn ok_status(provider: Seq<char>, name: Seq<char>) -> SourceStatusView {
    SourceStatusView { provider: provider, name: name, health: "ok"@, message: None }
}

/// The status of a source that failed, with the reason.
pub open spec fn error_status(provider: Seq<char>, name: Seq<char>, message: Seq<char>) -> SourceStatusView {
    SourceStatusView { provider: provider, name: name, health: "error"@, message: Some(message) }
}

/// A source that answered.
pub fn source_ok(provider: &str, name: &str) -> (r: SourceStatus)
    ensures
        r@ == ok_status(provider@, name@),
{
    SourceStatus { provider: owned(provider), name: owned(name), health: owned("ok"), message: None }
}

/// A source that failed, with the reason.
pub fn source_error(provider: &str, name: &str, message: String) -> (r: SourceStatus)
    ensures
        r@ == error_status(provider@, name@, message@),
{
    SourceStatus {
        provider: owned(provider),
        name: owned(name),
        health: owned("error"),
        message: Some(message),
    }
}

} // verus!
