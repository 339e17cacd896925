use lab_dashboard::config::{
    config_candidates, dedupe_paths, push_config_candidate, sibling_config_path, ConfigSearch,
};
use lab_dashboard::model::{
    default_forgejo_token_env, default_github_token_env, default_refresh_interval,
    default_restart_template, default_ssh_template, default_ssh_user, DashboardConfig,
};

#[test]
fn finds_the_file_beside_a_program() {
    assert_eq!(sibling_config_path("/opt/lab/bin/dashboard"), "/opt/lab/bin/dashboard.config.json");
    assert_eq!(sibling_config_path("dashboard"), "dashboard.config.json");
    assert_eq!(sibling_config_path("/"), "dashboard.config.json");
}

#[test]
fn skips_empty_candidates() {
    let mut c = vec![];
    push_config_candidate(&mut c, String::new());
    assert!(c.is_empty());
    push_config_candidate(&mut c, "/a".into());
    assert_eq!(c, vec!["/a".to_string()]);
}

#[test]
fn keeps_each_place_once() {
    let paths = vec!["/a/b".to_string(), "/a//b".to_string(), "/c".to_string(), "/a/b/".to_string(), "/c".to_string()];
    assert_eq!(dedupe_paths(paths), vec!["/a/b".to_string(), "/c".to_string()]);
    let kept = dedupe_paths(vec!["x".into(), "y".into(), "x".into()]);
    for i in 0..kept.len() {
        for j in i + 1..kept.len() {
            assert_ne!(kept[i], kept[j]);
        }
    }
}

#[test]
fn looks_in_every_place_in_order() {
    let search = ConfigSearch {
        explicit_path: Some("/srv/my.json".into()),
        current_dir: Some("/work".into()),
        appimage: Some("/apps/Dash.AppImage".into()),
        current_exe: Some("/apps/dash".into()),
        xdg_config_home: Some("/home/u/.config".into()),
        home: Some("/home/u".into()),
        resource_dir: Some("/usr/share/dash".into()),
    };
    assert_eq!(
        config_candidates(&search),
        vec![
            "/srv/my.json".to_string(),
            "/work/dashboard.config.json".to_string(),
            "/apps/dashboard.config.json".to_string(),
            "/home/u/.config/txst-lab-dashboard/dashboard.config.json".to_string(),
            "/etc/txst-lab-dashboard/dashboard.config.json".to_string(),
            "/usr/share/dash/dashboard.config.json".to_string(),
        ]
    );
    let bare = ConfigSearch {
        explicit_path: Some(String::new()),
        current_dir: None,
        appimage: None,
        current_exe: None,
        xdg_config_home: None,
        home: None,
        resource_dir: None,
    };
    assert_eq!(config_candidates(&bare), vec!["/etc/txst-lab-dashboard/dashboard.config.json".to_string()]);
}

#[test]
fn has_the_documented_defaults() {
    assert_eq!(default_refresh_interval(), 30);
    assert_eq!(default_github_token_env(), "GITHUB_TOKEN");
    assert_eq!(default_forgejo_token_env(), "CODEBERG_TOKEN");
    assert_eq!(default_ssh_user(), "lab");
    assert_eq!(default_ssh_template(), "tailscale ssh {user}@{host}");
    assert_eq!(default_restart_template(), "tailscale ssh {user}@{host} sudo /sbin/shutdown -r now");
    let config = DashboardConfig::default();
    assert_eq!(config.refresh_interval_seconds, 30);
    assert!(config.github.organizations.is_empty());
    assert!(config.github.repositories.is_empty());
    assert_eq!(config.github.token_env, "");
    assert!(config.forgejo.instances.is_empty());
    assert!(config.tailscale.devices.is_empty());
    assert_eq!(config.tailscale.ssh_command_template, "");
}

#[test]
fn looks_in_the_working_directory_first_and_always_in_etc() {
    let search = ConfigSearch {
        explicit_path: None,
        current_dir: Some("/etc/txst-lab-dashboard".into()),
        appimage: None,
        current_exe: Some("/etc/txst-lab-dashboard/dash".into()),
        xdg_config_home: None,
        home: None,
        resource_dir: None,
    };
    let found = config_candidates(&search);
    assert_eq!(found, vec!["/etc/txst-lab-dashboard/dashboard.config.json".to_string()]);
}
