//! Device actions: which devices allow them, the shell commands they run,
//! and the terminal that shows an SSH session.

use vstd::prelude::*;
use crate::model::{ConfiguredDevice, DashboardConfig};
use crate::text::{concat2, opt_view, replace, replace_all, str_eq};

verus! {

/// Why an action was refused.
#[derive(Debug, Clone)]
pub enum DashboardError {
    Message(String),
}

impl DashboardError {
    /// The text of the error.
    pub open spec fn text(self) -> Seq<char> {
        match self {
            DashboardError::Message(m) => m@,
        }
    }

    /// The text of the error, as it is shown.
    pub fn message(&self) -> (r: String)
        ensures
            r@ == self.text(),
    {
        match self {
            DashboardError::Message(m) => m.clone(),
        }
    }
}

// ---------------------------------------------------------------- configured devices

/// The first configured device named `name`.
pub open spec fn first_named(devices: Seq<ConfiguredDevice>, name: Seq<char>) -> Option<ConfiguredDevice>
    decreases devices.len(),
{
    if devices.len() == 0 {
        None
    } else if devices[0].name@ == name {
        Some(devices[0])
    } else {
        first_named(devices.drop_first(), name)
    }
}

/// The error for a device that allows no actions.
pub open spec fn not_configured_text(name: Seq<char>) -> Seq<char> {
    name + " is not configured for actions"@
}

/// The device on which actions are allowed under `device_name`: the first
/// configured device of that name.
pub fn configured_device<'a>(config: &'a DashboardConfig, device_name: &str) -> (r: Result<&'a ConfiguredDevice, DashboardError>)
    ensures
        match r {
            Ok(d) => first_named(config.tailscale.devices@, device_name@) == Some(*d),
            Err(e) => {
                &&& first_named(config.tailscale.devices@, device_name@) is None
                &&& e.text() == not_configured_text(device_name@)
            },
        },
{
    let devices = &config.tailscale.devices;
    let mut i: usize = 0;
    assert(devices@.skip(0) =~= devices@);
    while i < devices.len()
        invariant
            i <= devices@.len(),
            *devices == config.tailscale.devices,
            first_named(devices@, device_name@) == first_named(devices@.skip(i as int), device_name@),
        decreases devices.len() - i,
    {
        assert(devices@.skip(i as int)[0] == devices@[i as int]);
        assert(devices@.skip(i as int).drop_first() =~= devices@.skip(i + 1));
        if str_eq(devices[i].name.as_str(), device_name) {
            return Ok(&devices[i]);
        }
        i = i + 1;
    }
    Err(DashboardError::Message(concat2(device_name, " is not configured for actions")))
}

// ---------------------------------------------------------------- commands

/// A command template with `{user}` and then `{host}` filled in.
pub open spec fn rendered(template: Seq<char>, user: Seq<char>, host: Seq<char>) -> Seq<char> {
    replace_all(replace_all(template, "{user}"@, user), "{host}"@, host)
}

/// A command template with every `{user}` replaced by `user`, and then every
/// `{host}` by `host`.
pub fn render_command(template: &str, user: &str, host: &str) -> (r: String)
    ensures
        r@ == rendered(template@, user@, host@),
{
    proof {
        reveal_strlit("{user}");
        reveal_strlit("{host}");
    }
    let with_user = replace(template, "{user}", user);
    replace(with_user.as_str(), "{host}", host)
}

/// Whether `s` holds no `{`, so that no placeholder can start in it.
pub open spec fn brace_free(s: Seq<char>) -> bool {
    forall|i: int| 0 <= i < s.len() ==> s[i] != '{'
}

proof fn lemma_replace_brace_free_prefix(p: Seq<char>, t: Seq<char>, pat: Seq<char>, rep: Seq<char>)
    requires
        brace_free(p),
        pat.len() > 0,
        pat[0] == '{',
    ensures
        replace_all(p + t, pat, rep) == p + replace_all(t, pat, rep),
    decreases p.len(),
{
    if p.len() > 0 {
        let s = p + t;
        assert(s[0] == p[0]);
        if pat.len() <= s.len() {
            assert(s.take(pat.len() as int)[0] != pat[0]);
        }
        lemma_replace_brace_free_prefix(p.drop_first(), t, pat, rep);
        assert(s.drop_first() =~= p.drop_first() + t);
        assert(seq![p[0]] + (p.drop_first() + replace_all(t, pat, rep)) =~= p + replace_all(t, pat, rep));
    } else {
        assert(p + t =~= t);
        assert(p + replace_all(t, pat, rep) =~= replace_all(t, pat, rep));
    }
}

proof fn lemma_replace_brace_free(p: Seq<char>, pat: Seq<char>, rep: Seq<char>)
    requires
        brace_free(p),
        pat.len() > 0,
        pat[0] == '{',
    ensures
        replace_all(p, pat, rep) == p,
{
    lemma_replace_brace_free_prefix(p, Seq::empty(), pat, rep);
    assert(p + Seq::<char>::empty() =~= p);
}

proof fn lemma_replace_at_start(t: Seq<char>, pat: Seq<char>, rep: Seq<char>)
    requires
        pat.len() > 0,
    ensures
        replace_all(pat + t, pat, rep) == rep + replace_all(t, pat, rep),
{
    let s = pat + t;
    assert(s.take(pat.len() as int) =~= pat);
    assert(s.skip(pat.len() as int) =~= t);
}

/// Rendering the default templates: the SSH template gives
/// `tailscale ssh user@host`, the restart template the same followed by
/// ` sudo /sbin/shutdown -r now`, for every host and every user without a
/// `{` (a user holding `{host}` would have it filled in too).
pub proof fn default_templates_render(user: Seq<char>, host: Seq<char>)
    requires
        brace_free(user),
    ensures
        rendered("tailscale ssh {user}@{host}"@, user, host) == "tailscale ssh "@ + user + "@"@ + host,
        rendered("tailscale ssh {user}@{host} sudo /sbin/shutdown -r now"@, user, host)
            == "tailscale ssh "@ + user + "@"@ + host + " sudo /sbin/shutdown -r now"@,
{
    reveal_strlit("tailscale ssh {user}@{host}");
    reveal_strlit("tailscale ssh {user}@{host} sudo /sbin/shutdown -r now");
    reveal_strlit("tailscale ssh ");
    reveal_strlit("{user}");
    reveal_strlit("{host}");
    reveal_strlit("@");
    reveal_strlit(" sudo /sbin/shutdown -r now");
    let pre = "tailscale ssh "@;
    let u = "{user}"@;
    let h = "{host}"@;
    let at = "@"@;
    let tail = " sudo /sbin/shutdown -r now"@;
    assert(brace_free(pre));
    assert(brace_free(at));
    assert(brace_free(tail));
    assert(brace_free(h.drop_first()));
    // `{host}` is no `{user}`: its second character differs.
    assert(h.take(u.len() as int) != u) by {
        assert(h.take(u.len() as int)[1] != u[1]);
    }
    assert(replace_all(h, u, user) == h) by {
        lemma_replace_brace_free(h.drop_first(), u, user);
        assert(h =~= seq![h[0]] + h.drop_first());
    }
    assert forall|t: Seq<char>| brace_free(t) implies replace_all(pre + u + at + h + t, u, user) == pre + user + at + h + t by {
        lemma_replace_brace_free_prefix(pre, u + (at + (h + t)), u, user);
        assert(pre + u + at + h + t =~= pre + (u + (at + (h + t))));
        lemma_replace_at_start(at + (h + t), u, user);
        lemma_replace_brace_free_prefix(at, h + t, u, user);
        assert(replace_all(h + t, u, user) == h + t) by {
            assert(h + t =~= seq![h[0]] + (h.drop_first() + t));
            lemma_replace_brace_free(h.drop_first() + t, u, user);
            assert(brace_free(h.drop_first() + t));
            assert((h + t).take(u.len() as int) =~= h.take(u.len() as int));
            assert((h + t).drop_first() =~= h.drop_first() + t);
        }
        assert(pre + (user + (at + (h + t))) =~= pre + user + at + h + t);
    }
    assert forall|t: Seq<char>| brace_free(t) implies replace_all(pre + user + at + h + t, h, host) == pre + user + at + host + t by {
        lemma_replace_brace_free_prefix(pre + user + at, h + t, h, host);
        assert(brace_free(pre + user + at));
        assert(pre + user + at + h + t =~= (pre + user + at) + (h + t));
        lemma_replace_at_start(t, h, host);
        lemma_replace_brace_free(t, h, host);
        assert((pre + user + at) + (host + t) =~= pre + user + at + host + t);
    }
    let empty = Seq::<char>::empty();
    assert("tailscale ssh {user}@{host}"@ =~= pre + u + at + h + empty);
    assert(pre + user + at + h + empty =~= pre + user + at + h);
    assert(pre + user + at + host + empty =~= pre + user + at + host);
    assert(brace_free(empty));
    assert(replace_all(pre + u + at + h + empty, u, user) == pre + user + at + h + empty);
    assert(replace_all(pre + user + at + h + empty, h, host) == pre + user + at + host + empty);
    assert(replace_all(pre + u + at + h + tail, u, user) == pre + user + at + h + tail);
    assert(replace_all(pre + user + at + h + tail, h, host) == pre + user + at + host + tail);
    assert("tailscale ssh {user}@{host} sudo /sbin/shutdown -r now"@ =~= pre + u + at + h + tail);
}

/// A shell command to run for a device, and the message that announces it.
#[derive(Debug, Clone)]
pub struct DeviceAction {
    pub command: String,
    pub message: String,
}

/// The user that actions on `device` log in as.
pub open spec fn action_user(device: ConfiguredDevice, config: DashboardConfig) -> Seq<char> {
    match opt_view(device.ssh_user) {
        Some(u) => u,
        None => config.tailscale.default_ssh_user@,
    }
}

fn user_for<'a>(device: &'a ConfiguredDevice, config: &'a DashboardConfig) -> (r: &'a String)
    ensures
        r@ == action_user(*device, *config),
{
    match &device.ssh_user {
        Some(u) => u,
        None => &config.tailscale.default_ssh_user,
    }
}

/// Opening an SSH session on `device_name`: refused unless the device is
/// configured; otherwise the SSH template filled in for the device.
pub fn plan_ssh(config: &DashboardConfig, device_name: &str) -> (r: Result<DeviceAction, DashboardError>)
    ensures
        match first_named(config.tailscale.devices@, device_name@) {
            None => r matches Err(e) && e.text() == not_configured_text(device_name@),
            Some(d) => r matches Ok(a) && a.command@ == rendered(
                config.tailscale.ssh_command_template@,
                action_user(d, *config),
                d.name@,
            ) && a.message@ == "Opening SSH session for "@ + d.name@,
        },
{
    let device = match configured_device(config, device_name) {
        Ok(d) => d,
        Err(e) => return Err(e),
    };
    let user = user_for(device, config);
    let command = render_command(
        config.tailscale.ssh_command_template.as_str(),
        user.as_str(),
        device.name.as_str(),
    );
    Ok(DeviceAction { command, message: concat2("Opening SSH session for ", device.name.as_str()) })
}

/// The error for a device that may not be restarted.
pub open spec fn not_restartable_text(name: Seq<char>) -> Seq<char> {
    name + " is not restartable in dashboard.config.json"@
}

/// Restarting `device_name`: refused unless the device is configured and
/// marked restartable; otherwise the restart template filled in for the
/// device.
pub fn plan_restart(config: &DashboardConfig, device_name: &str) -> (r: Result<DeviceAction, DashboardError>)
    ensures
        match first_named(config.tailscale.devices@, device_name@) {
            None => r matches Err(e) && e.text() == not_configured_text(device_name@),
            Some(d) => if !d.restartable {
                r matches Err(e) && e.text() == not_restartable_text(d.name@)
            } else {
                r matches Ok(a) && a.command@ == rendered(
                    config.tailscale.restart_command_template@,
                    action_user(d, *config),
                    d.name@,
                ) && a.message@ == "Restart command sent to "@ + d.name@
            },
        },
{
    let device = match configured_device(config, device_name) {
        Ok(d) => d,
        Err(e) => return Err(e),
    };
    if !device.restartable {
        return Err(
            DashboardError::Message(
                concat2(device.name.as_str(), " is not restartable in dashboard.config.json"),
            ),
        );
    }
    let user = user_for(device, config);
    let command = render_command(
        config.tailscale.restart_command_template.as_str(),
        user.as_str(),
        device.name.as_str(),
    );
    Ok(DeviceAction { command, message: concat2("Restart command sent to ", device.name.as_str()) })
}

/// The answer to an action that ran.
pub fn action_done(action: DeviceAction) -> (r: crate::model::ActionResult)
    ensures
        r.ok,
        r.message@ == action.message@,
{
    crate::model::ActionResult { ok: true, message: action.message }
}

/// The device an action acts on is the first one configured under the name
/// asked for; there is none when no device is configured under it.
pub proof fn configured_device_is_first_named(devices: Seq<ConfiguredDevice>, name: Seq<char>)
    ensures
        forall|k: int|
            0 <= k < devices.len() && (#[trigger] devices[k]).name@ == name && (forall|i: int| 0 <= i < k ==> devices[i].name@ != name)
                ==> first_named(devices, name) == Some(devices[k]),
        (forall|k: int| 0 <= k < devices.len() ==> (#[trigger] devices[k]).name@ != name) ==> first_named(devices, name) is None,
    decreases devices.len(),
{
    if devices.len() > 0 {
        let rest = devices.drop_first();
        configured_device_is_first_named(rest, name);
        assert forall|k: int|
            0 <= k < devices.len() && (#[trigger] devices[k]).name@ == name && (forall|i: int| 0 <= i < k ==> devices[i].name@ != name)
                implies first_named(devices, name) == Some(devices[k]) by {
            if k > 0 {
                assert(devices[0].name@ != name);
                assert(rest[k - 1] == devices[k]);
                assert forall|i: int| 0 <= i < k - 1 implies rest[i].name@ != name by {
                    assert(rest[i] == devices[i + 1]);
                }
            }
        }
        if forall|k: int| 0 <= k < devices.len() ==> (#[trigger] devices[k]).name@ != name {
            assert(devices[0].name@ != name);
            assert forall|k: int| 0 <= k < rest.len() implies (#[trigger] rest[k]).name@ != name by {
                assert(rest[k] == devices[k + 1]);
            }
        }
    }
}

} // verus!
