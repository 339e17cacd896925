use lab_dashboard::json::JsonValue;
use lab_dashboard::model::{ConfiguredDevice, SourceStatus};
use lab_dashboard::tailscale::{
    device_from_peer, normalize_tailscale_devices, tailscale_report, tailscale_status_from_output,
    trim_tailnet_name, TailscaleStatus,
};

fn text(s: &str) -> JsonValue {
    JsonValue::Str(s.to_string())
}

fn object(entries: Vec<(&str, JsonValue)>) -> JsonValue {
    JsonValue::Object {
        entries: entries.into_iter().map(|(k, v)| (k.to_string(), v)).collect(),
        text: String::new(),
    }
}

fn array(items: Vec<JsonValue>) -> JsonValue {
    JsonValue::Array { items, text: String::new() }
}

fn peer(host: &str, online: bool) -> JsonValue {
    object(vec![("HostName", text(host)), ("Online", JsonValue::Bool(online))])
}

fn configured(name: &str, user: Option<&str>, restartable: bool) -> ConfiguredDevice {
    ConfiguredDevice { name: name.into(), ssh_user: user.map(|u| u.to_string()), restartable }
}

#[test]
fn shortens_magicdns_names() {
    assert_eq!(trim_tailnet_name("lab-runner-01.example.ts.net."), "lab-runner-01");
    assert_eq!(trim_tailnet_name("plain"), "plain");
    assert_eq!(trim_tailnet_name("host..."), "host");
    assert_eq!(trim_tailnet_name("..."), "");
    assert_eq!(trim_tailnet_name(".lead"), "");
}

#[test]
fn lists_online_devices_first_then_by_name() {
    let json = object(vec![
        ("Self", peer("mid", false)),
        (
            "Peer",
            object(vec![
                ("k1", peer("zeta", true)),
                ("k2", peer("alpha", false)),
                ("k3", peer("beta", true)),
                ("k4", peer("Zed", false)),
            ]),
        ),
    ]);
    let devices = normalize_tailscale_devices(&json, &[]);
    let names: Vec<&str> = devices.iter().map(|d| d.name.as_str()).collect();
    assert_eq!(names, vec!["beta", "zeta", "Zed", "alpha", "mid"]);
    for pair in devices.windows(2) {
        assert!(pair[0].online >= pair[1].online);
    }
}

#[test]
fn keeps_equal_devices_in_their_order() {
    let json = object(vec![(
        "Peer",
        object(vec![
            ("a", object(vec![("ID", text("first")), ("HostName", text("twin"))])),
            ("b", object(vec![("ID", text("second")), ("HostName", text("twin"))])),
        ]),
    )]);
    let devices = normalize_tailscale_devices(&json, &[]);
    let ids: Vec<&str> = devices.iter().map(|d| d.id.as_str()).collect();
    assert_eq!(ids, vec!["first", "second"]);
}

#[test]
fn lists_one_device_per_peer() {
    let no_self = object(vec![("Self", text("not an object")), ("Peer", object(vec![("a", peer("a", true))]))]);
    assert_eq!(normalize_tailscale_devices(&no_self, &[]).len(), 1);
    let nothing = JsonValue::Null;
    assert_eq!(normalize_tailscale_devices(&nothing, &[]).len(), 0);
}

#[test]
fn reads_every_member_of_a_peer() {
    let p = object(vec![
        ("PublicKey", text("nodekey:1")),
        ("DNSName", text("box.tail.ts.net.")),
        ("TailscaleIPs", array(vec![text("100.1.2.3"), text("fd7a::1")])),
        ("OS", text("linux")),
        ("Online", JsonValue::Bool(true)),
        ("LastSeen", text("2024-01-01")),
        ("User", text("u1")),
        ("Tags", array(vec![text("tag:ci"), JsonValue::Bool(true), text("tag:lab")])),
    ]);
    let d = device_from_peer(&p, &[configured("box", None, false), configured("box", Some("root"), true)]);
    assert_eq!(d.id, "nodekey:1");
    assert_eq!(d.name, "box");
    assert_eq!(d.host_name, "box.tail.ts.net.");
    assert_eq!(d.dns_name.as_deref(), Some("box.tail.ts.net."));
    assert_eq!(d.tailnet_ip.as_deref(), Some("100.1.2.3"));
    assert_eq!(d.os.as_deref(), Some("linux"));
    assert!(d.online);
    assert_eq!(d.last_seen.as_deref(), Some("2024-01-01"));
    assert_eq!(d.user.as_deref(), Some("u1"));
    assert_eq!(d.tags, vec!["tag:ci".to_string(), "tag:lab".to_string()]);
    assert_eq!(d.ssh_user.as_deref(), Some("root"));
    assert!(d.restartable);
}

#[test]
fn falls_back_for_missing_peer_members() {
    let p = object(vec![("TailscaleIPs", array(vec![JsonValue::Null, text("100.1.2.3")]))]);
    let d = device_from_peer(&p, &[configured("unknown", Some("x"), true)]);
    assert_eq!(d.host_name, "unknown");
    assert_eq!(d.name, "unknown");
    assert_eq!(d.id, "unknown");
    assert_eq!(d.tailnet_ip, None);
    assert!(!d.online);
    assert!(d.tags.is_empty());
    assert_eq!(d.ssh_user.as_deref(), Some("x"));
    assert!(d.restartable);
}

#[test]
fn finds_the_configuration_by_host_name_too() {
    let p = object(vec![("HostName", text("hostA")), ("DNSName", text("dnsname.ts.net"))]);
    let d = device_from_peer(&p, &[configured("hostA", None, true)]);
    assert_eq!(d.name, "dnsname");
    assert!(d.restartable);
    assert_eq!(d.ssh_user, None);
    let d = device_from_peer(&p, &[configured("other", None, true)]);
    assert!(!d.restartable);
}

#[test]
fn reports_the_tailscale_source() {
    let mut sources: Vec<SourceStatus> = vec![];
    let listed = TailscaleStatus::Listed(object(vec![("Self", peer("me", true))]));
    let devices = tailscale_report(&listed, &[], &mut sources);
    assert_eq!(devices.len(), 1);
    assert_eq!(sources[0].provider, "tailscale");
    assert_eq!(sources[0].name, "Tailscale");
    assert_eq!(sources[0].health, "ok");
    assert_eq!(sources[0].message, None);

    let devices = tailscale_report(&TailscaleStatus::InvalidJson("expected value".into()), &[], &mut sources);
    assert!(devices.is_empty());
    assert_eq!(sources[1].health, "error");
    assert_eq!(sources[1].message.as_deref(), Some("Invalid JSON: expected value"));

    tailscale_report(&TailscaleStatus::Failed(" \n".into()), &[], &mut sources);
    assert_eq!(sources[2].message.as_deref(), Some("tailscale status failed"));

    tailscale_report(&TailscaleStatus::Failed("  logged out \n".into()), &[], &mut sources);
    assert_eq!(sources[3].message.as_deref(), Some("logged out"));

    tailscale_report(&TailscaleStatus::Unavailable("No such file".into()), &[], &mut sources);
    assert_eq!(sources[4].message.as_deref(), Some("No such file"));
    assert_eq!(sources.len(), 5);
}

#[test]
fn reads_the_output_of_the_status_command() {
    let stdout = br#"{"Self": {"HostName": "me", "Online": true, "TailscaleIPs": ["100.64.0.9"]}, "Peer": {"k": {"HostName": "b", "ID": 7}}}"#;
    match tailscale_status_from_output(true, stdout, b"") {
        TailscaleStatus::Listed(json) => {
            let devices = normalize_tailscale_devices(&json, &[]);
            let names: Vec<&str> = devices.iter().map(|d| d.name.as_str()).collect();
            assert_eq!(names, vec!["me", "b"]);
            assert_eq!(devices[0].tailnet_ip.as_deref(), Some("100.64.0.9"));
            assert_eq!(devices[1].id, "b");
        }
        other => panic!("unexpected {other:?}"),
    }
    match tailscale_status_from_output(true, b"not json", b"") {
        TailscaleStatus::InvalidJson(reason) => assert!(reason.starts_with("expected")),
        other => panic!("unexpected {other:?}"),
    }
    match tailscale_status_from_output(false, b"{}", b" logged out\n\xff") {
        TailscaleStatus::Failed(text) => assert_eq!(text, " logged out\n\u{fffd}"),
        other => panic!("unexpected {other:?}"),
    }
}
