use lab_dashboard::actions::{configured_device, render_command};
use lab_dashboard::json::JsonValue;
use lab_dashboard::model::{ConfiguredDevice, DashboardConfig, TailscaleConfig};
use lab_dashboard::tailscale::normalize_tailscale_devices;

fn text(s: &str) -> JsonValue {
    JsonValue::Str(s.to_string())
}

fn object(entries: Vec<(&str, JsonValue)>) -> JsonValue {
    JsonValue::Object {
        entries: entries.into_iter().map(|(k, v)| (k.to_string(), v)).collect(),
        text: String::new(),
    }
}

fn array(items: Vec<JsonValue>) -> JsonValue {
    JsonValue::Array { items, text: String::new() }
}

#[test]
fn restart_requires_allowlisted_device() {
    let config = DashboardConfig {
        tailscale: TailscaleConfig {
            devices: vec![ConfiguredDevice {
                name: "runner-01".into(),
                ssh_user: Some("lab".into()),
                restartable: true,
            }],
            ..TailscaleConfig::default()
        },
        ..DashboardConfig::default()
    };

    assert!(configured_device(&config, "runner-01").is_ok());
    assert!(configured_device(&config, "runner-02").is_err());
}

#[test]
fn renders_command_template() {
    assert_eq!(
        render_command("tailscale ssh {user}@{host} uptime", "lab", "runner-01"),
        "tailscale ssh lab@runner-01 uptime"
    );
}

#[test]
fn normalizes_tailscale_devices() {
    let json = object(vec![
        (
            "Self",
            object(vec![
                ("ID", text("self")),
                ("HostName", text("dashboard")),
                ("Online", JsonValue::Bool(true)),
                ("TailscaleIPs", array(vec![text("100.64.0.1")])),
            ]),
        ),
        (
            "Peer",
            object(vec![(
                "abc",
                object(vec![
                    ("ID", text("abc")),
                    ("HostName", text("lab-runner-01")),
                    ("DNSName", text("lab-runner-01.example.ts.net.")),
                    ("Online", JsonValue::Bool(false)),
                    ("OS", text("linux")),
                ]),
            )]),
        ),
    ]);
    let devices = normalize_tailscale_devices(
        &json,
        &[ConfiguredDevice {
            name: "lab-runner-01".into(),
            ssh_user: Some("lab".into()),
            restartable: true,
        }],
    );

    assert_eq!(devices.len(), 2);
    assert!(devices.iter().any(|device| device.name == "lab-runner-01" && device.restartable));
}
