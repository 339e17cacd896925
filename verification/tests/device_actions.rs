use lab_dashboard::actions::{action_done, configured_device, plan_restart, plan_ssh, render_command};
use lab_dashboard::model::{default_restart_template, default_ssh_template};
use lab_dashboard::dashboard::assemble_dashboard;
use lab_dashboard::model::{
    source_error, source_ok, ConfiguredDevice, DashboardConfig, Job, Runner, TailscaleConfig,
};
use lab_dashboard::terminal::{
    first_terminal_step, json_string, linux_shell_command, linux_terminals, macos_terminal_script,
    next_terminal_step, no_terminal_message, SpawnOutcome, TerminalStep,
};

fn config() -> DashboardConfig {
    DashboardConfig {
        tailscale: TailscaleConfig {
            default_ssh_user: "lab".into(),
            ssh_command_template: "tailscale ssh {user}@{host}".into(),
            restart_command_template: "ssh {user}@{host} reboot # {host}".into(),
            devices: vec![
                ConfiguredDevice { name: "runner-01".into(), ssh_user: None, restartable: true },
                ConfiguredDevice { name: "runner-02".into(), ssh_user: Some("admin".into()), restartable: false },
                ConfiguredDevice { name: "runner-01".into(), ssh_user: Some("second".into()), restartable: false },
            ],
        },
        ..DashboardConfig::default()
    }
}

#[test]
fn finds_the_first_configured_device() {
    let c = config();
    let d = configured_device(&c, "runner-01").unwrap();
    assert!(d.restartable);
    assert_eq!(d.ssh_user, None);
    let e = configured_device(&c, "ghost").unwrap_err();
    assert_eq!(e.message(), "ghost is not configured for actions");
}

#[test]
fn plans_ssh_sessions() {
    let c = config();
    let a = plan_ssh(&c, "runner-01").unwrap();
    assert_eq!(a.command, "tailscale ssh lab@runner-01");
    assert_eq!(a.message, "Opening SSH session for runner-01");
    let a = plan_ssh(&c, "runner-02").unwrap();
    assert_eq!(a.command, "tailscale ssh admin@runner-02");
    assert_eq!(plan_ssh(&c, "ghost").unwrap_err().message(), "ghost is not configured for actions");
    let done = action_done(a);
    assert!(done.ok);
    assert_eq!(done.message, "Opening SSH session for runner-02");
}

#[test]
fn restarts_only_restartable_devices() {
    let c = config();
    let a = plan_restart(&c, "runner-01").unwrap();
    assert_eq!(a.command, "ssh lab@runner-01 reboot # runner-01");
    assert_eq!(a.message, "Restart command sent to runner-01");
    assert_eq!(
        plan_restart(&c, "runner-02").unwrap_err().message(),
        "runner-02 is not restartable in dashboard.config.json"
    );
    assert_eq!(plan_restart(&c, "ghost").unwrap_err().message(), "ghost is not configured for actions");
}

#[test]
fn writes_terminal_scripts() {
    assert_eq!(json_string("echo \"hi\"\n"), "\"echo \\\"hi\\\"\\n\"");
    assert_eq!(json_string("tab\tback\\slash"), "\"tab\\tback\\\\slash\"");
    assert_eq!(json_string("\u{1}\u{1f}\u{8}\u{c}\r\u{7f}é"), "\"\\u0001\\u001f\\b\\f\\r\u{7f}é\"");
    assert_eq!(
        macos_terminal_script("tailscale ssh lab@box"),
        "tell application \"Terminal\" to do script \"tailscale ssh lab@box\""
    );
    assert_eq!(
        linux_shell_command("uptime"),
        "uptime; printf '\\nCommand finished. Press Enter to close.'; read _"
    );
    let t = linux_terminals();
    let programs: Vec<&str> = t.iter().map(|c| c.program.as_str()).collect();
    assert_eq!(programs, vec!["x-terminal-emulator", "gnome-terminal", "kgx", "konsole", "xterm"]);
    assert_eq!(t[1].args, vec!["--".to_string(), "sh".to_string(), "-lc".to_string()]);
    assert_eq!(t[4].args, vec!["-e".to_string(), "sh".to_string(), "-lc".to_string()]);
    assert!(no_terminal_message().starts_with("No supported terminal emulator found."));
}

#[test]
fn searches_terminals_in_turn() {
    assert_eq!(first_terminal_step(5), TerminalStep::Try(0));
    assert_eq!(first_terminal_step(0), TerminalStep::NoneFound);
    assert_eq!(next_terminal_step(0, 5, SpawnOutcome::NotFound), TerminalStep::Try(1));
    assert_eq!(next_terminal_step(4, 5, SpawnOutcome::NotFound), TerminalStep::NoneFound);
    assert_eq!(next_terminal_step(2, 5, SpawnOutcome::Spawned), TerminalStep::Opened);
    assert_eq!(next_terminal_step(2, 5, SpawnOutcome::Failed), TerminalStep::Fail);
}

#[test]
fn assembles_a_refresh() {
    let c = config();
    let runner = Runner {
        id: "github:o/r:1".into(),
        provider: "github".into(),
        source: "o/r".into(),
        name: "box".into(),
        os: None,
        status: "online".into(),
        busy: true,
        labels: vec![],
        current_job_id: None,
    };
    let job = Job {
        id: "github:o/r:9".into(),
        provider: "github".into(),
        source: "o/r".into(),
        repository: "o/r".into(),
        workflow: "CI".into(),
        name: "build".into(),
        status: "running".into(),
        runner_id: None,
        runner_name: Some("box".into()),
        branch: None,
        sha: None,
        url: None,
        started_at: None,
        queued_at: None,
    };
    let data = assemble_dashboard(
        &c,
        "2024-01-01T00:00:00+00:00".into(),
        vec![source_ok("github", "o/r"), source_error("tailscale", "Tailscale", "down".into())],
        vec![runner],
        vec![job],
        vec![],
        vec![],
    );
    assert_eq!(data.refresh_interval_seconds, 30);
    assert_eq!(data.updated_at, "2024-01-01T00:00:00+00:00");
    assert_eq!(data.sources.len(), 2);
    assert_eq!(data.sources[1].health, "error");
    assert_eq!(data.runners[0].current_job_id.as_deref(), Some("github:o/r:9"));
    assert_eq!(data.current_jobs.len(), 1);
}

#[test]
fn renders_the_default_templates() {
    assert_eq!(render_command(&default_ssh_template(), "lab", "runner-01"), "tailscale ssh lab@runner-01");
    assert_eq!(
        render_command(&default_restart_template(), "root", "{host}"),
        "tailscale ssh root@{host} sudo /sbin/shutdown -r now"
    );
}
