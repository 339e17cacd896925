//! Turning `tailscale status --json` into the device list of the dashboard.

use vstd::prelude::*;
use crate::json::{json_error_of, lossy_text, lossy_text_of, parse_document, parsed_json, JsonValue};
use crate::model::{
    error_status, ok_status, source_error, source_ok, strings_view, ConfiguredDevice, SourceStatus,
    SourceStatusView, TailscaleDevice, TailscaleDeviceView,
};
use crate::text::{
    chars_of, concat2, copy_opt, lemma_lex_irreflexive, lemma_lex_total, lemma_lex_transitive, lex_lt,
    opt_view, owned, push_char, str_eq, str_lt, trim, trim_trailing, trim_whitespace, trimmed_len,
};

verus! {

// ---------------------------------------------------------------- names

/// The part of `s` before its first dot (all of `s` when it has none).
pub open spec fn before_first_dot(s: Seq<char>) -> Seq<char>
    decreases s.len(),
{
    if s.len() == 0 || s[0] == '.' {
        Seq::empty()
    } else {
        seq![s[0]] + before_first_dot(s.drop_first())
    }
}

/// The short name of a MagicDNS name: its first label, trailing dots ignored.
pub open spec fn tailnet_short_name(s: Seq<char>) -> Seq<char> {
    before_first_dot(trim_trailing(s, '.'))
}

proof fn lemma_before_first_dot(s: Seq<char>, i: int)
    requires
        0 <= i <= s.len(),
        forall|j: int| 0 <= j < i ==> s[j] != '.',
        i == s.len() || s[i] == '.',
    ensures
        before_first_dot(s) == s.take(i),
    decreases i,
{
    if i == 0 {
        assert(s.take(0) =~= Seq::<char>::empty());
    } else {
        lemma_before_first_dot(s.drop_first(), i - 1);
        assert(s.take(i) =~= seq![s[0]] + s.drop_first().take(i - 1));
    }
}

/// The first label of a MagicDNS name, trailing dots ignored
/// (`lab-runner-01.example.ts.net.` gives `lab-runner-01`).
pub fn trim_tailnet_name(value: &str) -> (r: String)
    ensures
        r@ == tailnet_short_name(value@),
{
    let v = chars_of(value);
    let end = trimmed_len(&v, '.');
    let ghost t = value@.take(end as int);
    let mut r = String::new();
    let mut i: usize = 0;
    while i < end && v[i] != '.'
        invariant
            v@ == value@,
            end <= v.len(),
            i <= end,
            t == value@.take(end as int),
            r@ == t.take(i as int),
            forall|j: int| 0 <= j < i ==> t[j] != '.',
        decreases end - i,
    {
        push_char(&mut r, v[i]);
        assert(t.take(i + 1) =~= t.take(i as int).push(t[i as int]));
        i = i + 1;
    }
    proof {
        lemma_before_first_dot(t, i as int);
    }
    r
}

// ---------------------------------------------------------------- configured devices

/// The last configured device named `name`: the one a map built from the
/// list, by name, keeps.
pub open spec fn last_configured(cfg: Seq<ConfiguredDevice>, name: Seq<char>) -> Option<ConfiguredDevice>
    decreases cfg.len(),
{
    if cfg.len() == 0 {
        None
    } else if cfg.last().name@ == name {
        Some(cfg.last())
    } else {
        last_configured(cfg.drop_last(), name)
    }
}

/// The last configured device named `name`.
pub fn find_last_configured<'a>(configured: &'a [ConfiguredDevice], name: &str) -> (r: Option<&'a ConfiguredDevice>)
    ensures
        match r {
            Some(c) => last_configured(configured@, name@) == Some(*c),
            None => last_configured(configured@, name@) is None,
        },
{
    let mut i: usize = configured.len();
    assert(configured@.take(i as int) =~= configured@);
    while i > 0
        invariant
            i <= configured@.len(),
            last_configured(configured@, name@) == last_configured(configured@.take(i as int), name@),
        decreases i,
    {
        assert(configured@.take(i as int).last() == configured@[i - 1]);
        assert(configured@.take(i as int).drop_last() =~= configured@.take(i - 1));
        if str_eq(configured[i - 1].name.as_str(), name) {
            return Some(&configured[i - 1]);
        }
        i = i - 1;
    }
    None
}

// ---------------------------------------------------------------- one peer

/// The strings among `items`, in order.
pub open spec fn string_items(items: Seq<JsonValue>) -> Seq<Seq<char>>
    decreases items.len(),
{
    if items.len() == 0 {
        Seq::empty()
    } else {
        let rest = string_items(items.drop_last());
        match items.last().str_of() {
            Some(s) => rest.push(s),
            None => rest,
        }
    }
}

/// The strings among `items`, in order.
pub fn strings_in(items: &Vec<JsonValue>) -> (r: Vec<String>)
    ensures
        strings_view(r@) == string_items(items@),
{
    let mut r: Vec<String> = Vec::new();
    let mut i: usize = 0;
    while i < items.len()
        invariant
            i <= items.len(),
            strings_view(r@) == string_items(items@.take(i as int)),
        decreases items.len() - i,
    {
        assert(items@.take(i + 1).drop_last() =~= items@.take(i as int));
        assert(items@.take(i + 1).last() == items@[i as int]);
        match items[i].as_string() {
            Some(s) => {
                r.push(s);
                assert(strings_view(r@) =~= string_items(items@.take(i as int)).push(
                    items@[i as int].str_of()->0,
                ));
            },
            None => {},
        }
        i = i + 1;
    }
    assert(items@.take(items.len() as int) =~= items@);
    r
}

/// The host name of a peer: `HostName`, else `DNSName`, else `unknown`.
pub open spec fn peer_host_name(p: JsonValue) -> Seq<char> {
    match p.field("HostName"@).str_of() {
        Some(h) => h,
        None => match p.field("DNSName"@).str_of() {
            Some(d) => d,
            None => "unknown"@,
        },
    }
}

/// The name of a peer: the short form of its DNS name, else its host name.
pub open spec fn peer_name(p: JsonValue) -> Seq<char> {
    match p.field("DNSName"@).str_of() {
        Some(d) => tailnet_short_name(d),
        None => peer_host_name(p),
    }
}

/// The first Tailscale address of a peer, when it is a string.
pub open spec fn peer_tailnet_ip(p: JsonValue) -> Option<Seq<char>> {
    match p.field("TailscaleIPs"@).items_of() {
        Some(items) => if items.len() > 0 {
            items[0].str_of()
        } else {
            None
        },
        None => None,
    }
}

/// The string tags of a peer.
pub open spec fn peer_tags(p: JsonValue) -> Seq<Seq<char>> {
    match p.field("Tags"@).items_of() {
        Some(items) => string_items(items),
        None => Seq::empty(),
    }
}

/// The configuration of a peer: the device configured under its name, else
/// under its host name.
pub open spec fn peer_configuration(p: JsonValue, cfg: Seq<ConfiguredDevice>) -> Option<ConfiguredDevice> {
    match last_configured(cfg, peer_name(p)) {
        Some(c) => Some(c),
        None => last_configured(cfg, peer_host_name(p)),
    }
}

/// The device that a peer of the tailnet is shown as.
pub open spec fn device_of(p: JsonValue, cfg: Seq<ConfiguredDevice>) -> TailscaleDeviceView {
    let configured = peer_configuration(p, cfg);
    TailscaleDeviceView {
        id: match p.field("ID"@).str_of() {
            Some(i) => i,
            None => match p.field("PublicKey"@).str_of() {
                Some(k) => k,
                None => peer_name(p),
            },
        },
        name: peer_name(p),
        host_name: peer_host_name(p),
        dns_name: p.field("DNSName"@).str_of(),
        tailnet_ip: peer_tailnet_ip(p),
        os: p.field("OS"@).str_of(),
        online: match p.field("Online"@).bool_of() {
            Some(b) => b,
            None => false,
        },
        last_seen: p.field("LastSeen"@).str_of(),
        user: p.field("User"@).str_of(),
        tags: peer_tags(p),
        ssh_user: match configured {
            Some(c) => opt_view(c.ssh_user),
            None => None,
        },
        restartable: match configured {
            Some(c) => c.restartable,
            None => false,
        },
    }
}

fn or_else_owned(o: Option<String>, fallback: &String) -> (r: String)
    ensures
        r@ == match o {
            Some(s) => s@,
            None => fallback@,
        },
{
    match o {
        Some(s) => s,
        None => fallback.clone(),
    }
}

/// The device that a peer of the tailnet is shown as.
pub fn device_from_peer(peer: &JsonValue, configured: &[ConfiguredDevice]) -> (d: TailscaleDevice)
    ensures
        d@ == device_of(*peer, configured@),
{
    let dns_name = peer.field_string("DNSName");
    let unknown = owned("unknown");
    let host_name = match peer.field_string("HostName") {
        Some(h) => h,
        None => or_else_owned(peer.field_string("DNSName"), &unknown),
    };
    let name = match &dns_name {
        Some(d) => trim_tailnet_name(d.as_str()),
        None => host_name.clone(),
    };
    let config = match find_last_configured(configured, name.as_str()) {
        Some(c) => Some(c),
        None => find_last_configured(configured, host_name.as_str()),
    };
    let tailnet_ip = match peer.get("TailscaleIPs") {
        Some(v) => match v.as_array() {
            Some(items) => if items.len() > 0 {
                items[0].as_string()
            } else {
                None
            },
            None => None,
        },
        None => None,
    };
    let tags = match peer.get("Tags") {
        Some(v) => match v.as_array() {
            Some(items) => strings_in(items),
            None => Vec::new(),
        },
        None => Vec::new(),
    };
    proof {
        if peer.field("Tags"@).items_of() is None {
            assert(strings_view(tags@) =~= Seq::<Seq<char>>::empty());
        }
    }
    let id = match peer.field_string("ID") {
        Some(i) => i,
        None => or_else_owned(peer.field_string("PublicKey"), &name),
    };
    let online = match peer.field_bool("Online") {
        Some(b) => b,
        None => false,
    };
    let (ssh_user, restartable) = match config {
        Some(c) => (copy_opt(&c.ssh_user), c.restartable),
        None => (None, false),
    };
    TailscaleDevice {
        id,
        name,
        host_name,
        dns_name,
        tailnet_ip,
        os: peer.field_string("OS"),
        online,
        last_seen: peer.field_string("LastSeen"),
        user: peer.field_string("User"),
        tags,
        ssh_user,
        restartable,
    }
}

// ---------------------------------------------------------------- order

/// Whether device `a` is listed before device `b`: online devices first,
/// then by name.
pub open spec fn device_before(a: TailscaleDeviceView, b: TailscaleDeviceView) -> bool {
    ||| a.online && !b.online
    ||| a.online == b.online && lex_lt(a.name, b.name)
}

/// Where `d` goes in the sorted list `s` so that it follows every device
/// it does not sort before.
pub open spec fn insert_position(s: Seq<TailscaleDeviceView>, d: TailscaleDeviceView) -> nat
    decreases s.len(),
{
    if s.len() == 0 {
        0
    } else if device_before(d, s.last()) {
        insert_position(s.drop_last(), d)
    } else {
        s.len()
    }
}

/// `s` with `d` inserted at its place.
pub open spec fn insert_device(s: Seq<TailscaleDeviceView>, d: TailscaleDeviceView) -> Seq<TailscaleDeviceView> {
    s.insert(insert_position(s, d) as int, d)
}

/// The devices of `s` in dashboard order, devices that sort alike keeping
/// their relative order (a stable sort).
pub open spec fn sorted_devices(s: Seq<TailscaleDeviceView>) -> Seq<TailscaleDeviceView>
    decreases s.len(),
{
    if s.len() == 0 {
        s
    } else {
        insert_device(sorted_devices(s.drop_last()), s.last())
    }
}

/// The views of some devices.
pub open spec fn device_views(v: Seq<TailscaleDevice>) -> Seq<TailscaleDeviceView> {
    v.map_values(|d: TailscaleDevice| d@)
}

/// Whether device `a` is listed before device `b`.
pub fn listed_before(a: &TailscaleDevice, b: &TailscaleDevice) -> (r: bool)
    ensures
        r == device_before(a@, b@),
{
    (a.online && !b.online) || (a.online == b.online && str_lt(a.name.as_str(), b.name.as_str()))
}

/// Sorts devices: online devices first, then by name, stably
/// (`sort_by(|a, b| b.online.cmp(&a.online).then_with(|| a.name.cmp(&b.name)))`).
pub fn sort_devices(devices: &mut Vec<TailscaleDevice>)
    ensures
        device_views(final(devices)@) == sorted_devices(device_views(old(devices)@)),
{
    let ghost orig = device_views(devices@);
    let mut rest: Vec<TailscaleDevice> = Vec::new();
    std::mem::swap(&mut rest, devices);
    let mut sorted: Vec<TailscaleDevice> = Vec::new();
    let ghost mut k: int = 0;
    assert(orig.take(0) =~= Seq::<TailscaleDeviceView>::empty());
    assert(device_views(rest@) =~= orig.skip(0));
    while rest.len() > 0
        invariant
            0 <= k <= orig.len(),
            device_views(rest@) == orig.skip(k),
            device_views(sorted@) == sorted_devices(orig.take(k)),
        decreases rest.len(),
    {
        assert(device_views(rest@).len() == rest@.len());
        assert(k < orig.len());
        let ghost before = rest@;
        let d = rest.remove(0);
        assert(rest@ =~= before.skip(1));
        proof {
            assert(orig.skip(k)[0] == d@);
            assert(orig.take(k + 1).drop_last() =~= orig.take(k));
            assert(orig.take(k + 1).last() == d@);
            assert(device_views(before) == orig.skip(k));
            assert(device_views(before.skip(1)) =~= device_views(before).skip(1));
            assert(orig.skip(k).skip(1) =~= orig.skip(k + 1));
            assert(device_views(rest@) =~= orig.skip(k + 1));
        }
        let ghost sv = device_views(sorted@);
        let mut j: usize = sorted.len();
        assert(sv.take(j as int) =~= sv);
        while j > 0 && listed_before(&d, &sorted[j - 1])
            invariant
                j <= sorted.len(),
                sv == device_views(sorted@),
                insert_position(sv, d@) == insert_position(sv.take(j as int), d@),
            decreases j,
        {
            assert(sv.take(j as int).drop_last() =~= sv.take(j - 1));
            assert(sv.take(j as int).last() == sv[j - 1]);
            j = j - 1;
        }
        proof {
            if j > 0 {
                assert(sv.take(j as int).last() == sv[j - 1]);
            }
        }
        sorted.insert(j, d);
        proof {
            assert(device_views(sorted@) =~= sv.insert(j as int, d@));
            k = k + 1;
        }
    }
    assert(orig.take(k) =~= orig);
    *devices = sorted;
}

// ---------------------------------------------------------------- the whole status

/// The peers of a status document: `Self` when it is an object, then the
/// values of the object `Peer`, in order.
pub open spec fn peers_of(status: JsonValue) -> Seq<JsonValue> {
    let own = match status.field("Self"@).entries_of() {
        Some(_) => seq![status.field("Self"@)],
        None => Seq::empty(),
    };
    let others = match status.field("Peer"@).entries_of() {
        Some(entries) => entries.map_values(|e: (String, JsonValue)| e.1),
        None => Seq::empty(),
    };
    own + others
}

/// The devices of a status document as the dashboard lists them.
pub open spec fn status_devices(status: JsonValue, cfg: Seq<ConfiguredDevice>) -> Seq<TailscaleDeviceView> {
    sorted_devices(peers_of(status).map_values(|p: JsonValue| device_of(p, cfg)))
}

/// The devices of `tailscale status --json`: this machine and its peers,
/// each with the actions its configuration allows, online devices first,
/// then by name.
pub fn normalize_tailscale_devices(json: &JsonValue, configured: &[ConfiguredDevice]) -> (r: Vec<TailscaleDevice>)
    ensures
        device_views(r@) == status_devices(*json, configured@),
{
    let ghost peers = peers_of(*json);
    let ghost want = peers.map_values(|p: JsonValue| device_of(p, configured@));
    let mut devices: Vec<TailscaleDevice> = Vec::new();
    let ghost mut n: int = 0;
    match json.get("Self") {
        Some(own) => {
            if own.as_object().is_some() {
                devices.push(device_from_peer(own, configured));
                proof {
                    n = 1;
                }
            }
        },
        None => {},
    }
    assert(device_views(devices@) =~= want.take(n));
    match json.get("Peer") {
        Some(peer) => match peer.as_object() {
            Some(entries) => {
                let mut i: usize = 0;
                while i < entries.len()
                    invariant
                        i <= entries.len(),
                        peer.entries_of() == Some(entries@),
                        *peer == json.field("Peer"@),
                        peers == peers_of(*json),
                        want == peers.map_values(|p: JsonValue| device_of(p, configured@)),
                        0 <= n <= 1,
                        peers.len() == n + entries.len(),
                        forall|j: int| 0 <= j < entries.len() ==> peers[n + j] == #[trigger] entries@[j].1,
                        device_views(devices@) == want.take(n + i),
                    decreases entries.len() - i,
                {
                    let d = device_from_peer(&entries[i].1, configured);
                    assert(peers[n + i] == entries@[i as int].1);
                    assert(want[n + i] == device_of(entries@[i as int].1, configured@));
                    let ghost old_devices = devices@;
                    let ghost dv = d@;
                    devices.push(d);
                    assert(devices@ == old_devices.push(d));
                    assert(device_views(devices@) =~= device_views(old_devices).push(dv));
                    assert(want.take(n + i + 1) =~= want.take(n + i).push(want[n + i]));
                    i = i + 1;
                }
                assert(want.take(n + i) =~= want);
            },
            None => {
                assert(want.take(n) =~= want);
            },
        },
        None => {
            assert(want.take(n) =~= want);
        },
    }
    sort_devices(&mut devices);
    devices
}

// ---------------------------------------------------------------- laws of the order

/// Whether no device of `s` is listed before one that precedes it.
pub open spec fn devices_in_order(s: Seq<TailscaleDeviceView>) -> bool {
    forall|i: int, j: int| 0 <= i < j < s.len() ==> !device_before(#[trigger] s[j], #[trigger] s[i])
}

proof fn lemma_before_facts(a: TailscaleDeviceView, b: TailscaleDeviceView, c: TailscaleDeviceView)
    ensures
        !device_before(a, a),
        device_before(a, b) ==> !device_before(b, a),
        device_before(a, c) ==> device_before(a, b) || device_before(b, c),
{
    lemma_lex_irreflexive(a.name);
    lemma_lex_total(a.name, b.name);
    lemma_lex_total(b.name, c.name);
    lemma_lex_total(a.name, c.name);
    if device_before(a, c) && !device_before(a, b) && !device_before(b, c) {
        if a.online == b.online && b.online == c.online {
            if lex_lt(b.name, a.name) {
                lemma_lex_transitive(b.name, a.name, c.name);
            }
        }
    }
}

proof fn lemma_insert_position(s: Seq<TailscaleDeviceView>, d: TailscaleDeviceView)
    ensures
        insert_position(s, d) <= s.len(),
        forall|j: int| insert_position(s, d) <= j < s.len() ==> device_before(d, #[trigger] s[j]),
        insert_position(s, d) > 0 ==> !device_before(d, s[insert_position(s, d) - 1]),
    decreases s.len(),
{
    if s.len() > 0 && device_before(d, s.last()) {
        lemma_insert_position(s.drop_last(), d);
        assert forall|j: int| insert_position(s, d) <= j < s.len() implies device_before(d, #[trigger] s[j]) by {
            if j < s.len() - 1 {
                assert(s[j] == s.drop_last()[j]);
            }
        }
    }
}

proof fn lemma_insert_keeps_order(s: Seq<TailscaleDeviceView>, d: TailscaleDeviceView)
    requires
        devices_in_order(s),
    ensures
        devices_in_order(insert_device(s, d)),
{
    lemma_insert_position(s, d);
    let p = insert_position(s, d) as int;
    let t = insert_device(s, d);
    assert forall|i: int, j: int| 0 <= i < j < t.len() implies !device_before(#[trigger] t[j], #[trigger] t[i]) by {
        if j < p {
            assert(t[i] == s[i] && t[j] == s[j]);
        } else if j == p {
            assert(t[i] == s[i]);
            lemma_before_facts(d, s[p - 1], s[i]);
            lemma_before_facts(s[p - 1], s[i], s[i]);
            if i < p - 1 {
                assert(!device_before(s[p - 1], s[i]));
            }
        } else if i == p {
            assert(t[j] == s[j - 1]);
            lemma_before_facts(d, s[j - 1], s[j - 1]);
        } else if i < p {
            assert(t[i] == s[i] && t[j] == s[j - 1]);
        } else {
            assert(t[i] == s[i - 1] && t[j] == s[j - 1]);
        }
    }
}

/// The dashboard's device list is in order: no device is listed after one
/// that it sorts before (online devices first, then by name).
pub proof fn sorted_devices_are_in_order(s: Seq<TailscaleDeviceView>)
    ensures
        devices_in_order(sorted_devices(s)),
    decreases s.len(),
{
    if s.len() > 0 {
        sorted_devices_are_in_order(s.drop_last());
        lemma_insert_keeps_order(sorted_devices(s.drop_last()), s.last());
    }
}

/// Sorting the device list neither adds nor drops a device.
pub proof fn sorted_devices_keep_every_device(s: Seq<TailscaleDeviceView>)
    ensures
        sorted_devices(s).to_multiset() == s.to_multiset(),
    decreases s.len(),
{
    broadcast use vstd::seq_lib::group_to_multiset_ensures;
    if s.len() > 0 {
        let r = sorted_devices(s.drop_last());
        sorted_devices_keep_every_device(s.drop_last());
        lemma_insert_position(r, s.last());
        let p = insert_position(r, s.last()) as int;
        let t = r.insert(p, s.last());
        assert(t.remove(p) =~= r);
        assert(t[p] == s.last());
        assert(t.to_multiset() =~= r.to_multiset().insert(s.last())) by {
            assert(t.to_multiset().count(s.last()) > 0) by {
                assert(t.contains(t[p]));
            }
        }
        assert(s =~= s.drop_last().push(s.last()));
    }
}

// ---------------------------------------------------------------- polling

/// What running `tailscale status --json` gave.
#[derive(Debug)]
pub enum TailscaleStatus {
    /// The command succeeded and printed this document.
    Listed(JsonValue),
    /// The command succeeded but its output is no JSON; the parser's reason.
    InvalidJson(String),
    /// The command failed; what it wrote to standard error.
    Failed(String),
    /// The command could not be run; the reason.
    Unavailable(String),
}

/// What the output of `tailscale status --json` means: the document it
/// printed when the command succeeded (or why that is no JSON), and what it
/// wrote to standard error when it failed.
pub fn tailscale_status_from_output(success: bool, stdout: &[u8], stderr: &[u8]) -> (s: TailscaleStatus)
    ensures
        success ==> match parsed_json(stdout@) {
            Some(v) => s == TailscaleStatus::Listed(v),
            None => s matches TailscaleStatus::InvalidJson(m) && m@ == json_error_of(stdout@),
        },
        !success ==> (s matches TailscaleStatus::Failed(m) && m@ == lossy_text_of(stderr@)),
{
    if success {
        match parse_document(stdout) {
            Ok(json) => TailscaleStatus::Listed(json),
            Err(e) => TailscaleStatus::InvalidJson(e),
        }
    } else {
        TailscaleStatus::Failed(lossy_text(stderr))
    }
}

/// The status recorded for the Tailscale source after `status`.
pub open spec fn tailscale_source_status(status: TailscaleStatus) -> SourceStatusView {
    match status {
        TailscaleStatus::Listed(_) => ok_status("tailscale"@, "Tailscale"@),
        TailscaleStatus::InvalidJson(e) => error_status("tailscale"@, "Tailscale"@, "Invalid JSON: "@ + e@),
        TailscaleStatus::Failed(stderr) => error_status(
            "tailscale"@,
            "Tailscale"@,
            if trim(stderr@).len() == 0 {
                "tailscale status failed"@
            } else {
                trim(stderr@)
            },
        ),
        TailscaleStatus::Unavailable(e) => error_status("tailscale"@, "Tailscale"@, e@),
    }
}

/// The devices listed after `status`: none unless the command printed a
/// status document.
pub open spec fn tailscale_status_devices(status: TailscaleStatus, cfg: Seq<ConfiguredDevice>) -> Seq<TailscaleDeviceView> {
    match status {
        TailscaleStatus::Listed(json) => status_devices(json, cfg),
        _ => Seq::empty(),
    }
}

/// Records the health of the Tailscale source and returns the devices it
/// listed.
pub fn tailscale_report(
    status: &TailscaleStatus,
    configured: &[ConfiguredDevice],
    sources: &mut Vec<SourceStatus>,
) -> (r: Vec<TailscaleDevice>)
    ensures
        final(sources)@.len() == old(sources)@.len() + 1,
        final(sources)@.drop_last() == old(sources)@,
        final(sources)@.last()@ == tailscale_source_status(*status),
        device_views(r@) == tailscale_status_devices(*status, configured@),
{
    let devices = match status {
        TailscaleStatus::Listed(json) => {
            sources.push(source_ok("tailscale", "Tailscale"));
            normalize_tailscale_devices(json, configured)
        },
        TailscaleStatus::InvalidJson(e) => {
            sources.push(source_error("tailscale", "Tailscale", concat2("Invalid JSON: ", e.as_str())));
            Vec::new()
        },
        TailscaleStatus::Failed(stderr) => {
            let message = trim_whitespace(stderr.as_str());
            let message = if message.as_str().is_empty() {
                owned("tailscale status failed")
            } else {
                message
            };
            sources.push(source_error("tailscale", "Tailscale", message));
            Vec::new()
        },
        TailscaleStatus::Unavailable(e) => {
            sources.push(source_error("tailscale", "Tailscale", e.clone()));
            Vec::new()
        },
    };
    assert(sources@.drop_last() =~= old(sources)@);
    proof {
        if !(status is Listed) {
            assert(device_views(devices@) =~= Seq::<TailscaleDeviceView>::empty());
        }
    }
    devices
}

/// The dashboard lists one device per peer of the status document, this
/// machine included.
pub proof fn one_device_per_peer(status: JsonValue, cfg: Seq<ConfiguredDevice>)
    ensures
        status_devices(status, cfg).len() == peers_of(status).len(),
{
    broadcast use vstd::seq_lib::group_to_multiset_ensures;
    let s = peers_of(status).map_values(|p: JsonValue| device_of(p, cfg));
    sorted_devices_keep_every_device(s);
    assert(sorted_devices(s).len() == sorted_devices(s).to_multiset().len());
}

/// Whether device `x` has the online state and the name of `d`: the two
/// sort alike.
pub open spec fn same_place(x: TailscaleDeviceView, d: TailscaleDeviceView) -> bool {
    x.online == d.online && x.name == d.name
}

proof fn lemma_filter_none<A>(s: Seq<A>, pred: spec_fn(A) -> bool)
    requires
        forall|i: int| 0 <= i < s.len() ==> !pred(#[trigger] s[i]),
    ensures
        s.filter(pred) =~= Seq::<A>::empty(),
    decreases s.len(),
{
    reveal(Seq::filter);
    if s.len() > 0 {
        assert forall|i: int| 0 <= i < s.drop_last().len() implies !pred(#[trigger] s.drop_last()[i]) by {
            assert(s.drop_last()[i] == s[i]);
        }
        lemma_filter_none(s.drop_last(), pred);
    }
}

/// The sort is stable: devices that sort alike (same online state, same
/// name) keep the relative order they had.
pub proof fn sorted_devices_are_stable(s: Seq<TailscaleDeviceView>, d: TailscaleDeviceView)
    ensures
        sorted_devices(s).filter(|x: TailscaleDeviceView| same_place(x, d)) == s.filter(
            |x: TailscaleDeviceView| same_place(x, d),
        ),
    decreases s.len(),
{
    let pred = |x: TailscaleDeviceView| same_place(x, d);
    reveal_with_fuel(Seq::filter, 2);
    if s.len() > 0 {
        sorted_devices_are_stable(s.drop_last(), d);
        let r = sorted_devices(s.drop_last());
        let last = s.last();
        lemma_insert_position(r, last);
        let p = insert_position(r, last) as int;
        let a = r.take(p);
        let b = r.skip(p);
        assert(r =~= a + b);
        assert(r.insert(p, last) =~= a + (seq![last] + b));
        Seq::filter_distributes_over_add(a, b, pred);
        Seq::filter_distributes_over_add(a, seq![last] + b, pred);
        Seq::filter_distributes_over_add(seq![last], b, pred);
        assert(seq![last].drop_last() =~= Seq::<TailscaleDeviceView>::empty());
        if pred(last) {
            assert forall|i: int| 0 <= i < b.len() implies !pred(#[trigger] b[i]) by {
                assert(b[i] == r[p + i]);
                assert(device_before(last, r[p + i]));
                lemma_lex_irreflexive(last.name);
            }
            lemma_filter_none(b, pred);
            assert(seq![last].filter(pred) =~= seq![last]);
            assert(sorted_devices(s).filter(pred) =~= r.filter(pred).push(last));
        } else {
            assert(seq![last].filter(pred) =~= Seq::<TailscaleDeviceView>::empty());
            assert(sorted_devices(s).filter(pred) =~= r.filter(pred));
        }
    }
}

/// The dashboard lists exactly the devices of the peers, each as often as
/// it occurs among them: the peers' devices, reordered.
pub proof fn status_devices_are_the_peers_devices(status: JsonValue, cfg: Seq<ConfiguredDevice>)
    ensures
        status_devices(status, cfg).to_multiset() == peers_of(status).map_values(
            |p: JsonValue| device_of(p, cfg),
        ).to_multiset(),
        forall|i: int|
            0 <= i < peers_of(status).len() ==> status_devices(status, cfg).contains(
                device_of(#[trigger] peers_of(status)[i], cfg),
            ),
{
    broadcast use vstd::seq_lib::group_to_multiset_ensures;
    let s = peers_of(status).map_values(|p: JsonValue| device_of(p, cfg));
    sorted_devices_keep_every_device(s);
    assert forall|i: int|
        0 <= i < peers_of(status).len() implies status_devices(status, cfg).contains(
            device_of(#[trigger] peers_of(status)[i], cfg),
        ) by {
        assert(s[i] == device_of(peers_of(status)[i], cfg));
        assert(s.contains(s[i]));
        assert(s.to_multiset().count(s[i]) > 0);
    }
}

/// A short device name holds no dot, and it begins the name it comes from.
pub proof fn short_name_is_first_label(s: Seq<char>)
    ensures
        forall|i: int| 0 <= i < tailnet_short_name(s).len() ==> tailnet_short_name(s)[i] != '.',
        tailnet_short_name(s).len() <= s.len(),
        tailnet_short_name(s) == s.take(tailnet_short_name(s).len() as int),
{
    lemma_trim_trailing_prefix(s, '.');
    lemma_before_first_dot_prefix(trim_trailing(s, '.'));
    let t = trim_trailing(s, '.');
    let r = before_first_dot(t);
    assert(s.take(r.len() as int) =~= t.take(r.len() as int));
}

proof fn lemma_trim_trailing_prefix(s: Seq<char>, c: char)
    ensures
        trim_trailing(s, c).len() <= s.len(),
        trim_trailing(s, c) == s.take(trim_trailing(s, c).len() as int),
    decreases s.len(),
{
    if s.len() > 0 && s.last() == c {
        lemma_trim_trailing_prefix(s.drop_last(), c);
        let t = trim_trailing(s.drop_last(), c);
        assert(s.drop_last().take(t.len() as int) =~= s.take(t.len() as int));
    } else {
        assert(s.take(s.len() as int) =~= s);
    }
}

proof fn lemma_before_first_dot_prefix(s: Seq<char>)
    ensures
        before_first_dot(s).len() <= s.len(),
        before_first_dot(s) == s.take(before_first_dot(s).len() as int),
        forall|i: int| 0 <= i < before_first_dot(s).len() ==> before_first_dot(s)[i] != '.',
    decreases s.len(),
{
    if s.len() == 0 || s[0] == '.' {
        assert(s.take(0) =~= Seq::<char>::empty());
    } else {
        lemma_before_first_dot_prefix(s.drop_first());
        let r = before_first_dot(s.drop_first());
        assert(seq![s[0]] + r =~= s.take(r.len() as int + 1));
        assert forall|i: int| 0 <= i < before_first_dot(s).len() implies before_first_dot(s)[i] != '.' by {
            if i > 0 {
                assert(before_first_dot(s)[i] == r[i - 1]);
            }
        }
    }
}

/// Whether a device list puts online devices first and, among devices
/// with the same online state, names in ascending order (by code point).
pub open spec fn listed_online_first_by_name(s: Seq<TailscaleDeviceView>) -> bool {
    &&& forall|i: int, j: int| 0 <= i < j < s.len() ==> (#[trigger] s[i]).online || !(#[trigger] s[j]).online
    &&& forall|i: int, j: int|
        0 <= i < j < s.len() && (#[trigger] s[i]).online == (#[trigger] s[j]).online ==> !lex_lt(s[j].name, s[i].name)
}

/// The dashboard lists online devices first and, among devices that are
/// both online or both offline, orders them by the name it shows.
pub proof fn devices_listed_online_first_by_name(status: JsonValue, cfg: Seq<ConfiguredDevice>)
    ensures
        listed_online_first_by_name(status_devices(status, cfg)),
{
    let s = status_devices(status, cfg);
    sorted_devices_are_in_order(peers_of(status).map_values(|p: JsonValue| device_of(p, cfg)));
    assert forall|i: int, j: int| 0 <= i < j < s.len() implies (#[trigger] s[i]).online || !(#[trigger] s[j]).online by {
        assert(!device_before(s[j], s[i]));
    }
    assert forall|i: int, j: int|
        0 <= i < j < s.len() && (#[trigger] s[i]).online == (#[trigger] s[j]).online implies !lex_lt(s[j].name, s[i].name) by {
        assert(!device_before(s[j], s[i]));
    }
}

/// The configured device found under a name is the last one configured
/// under that name (a later entry overrides an earlier one); none when no
/// device is configured under it.
pub proof fn last_configured_is_last_named(cfg: Seq<ConfiguredDevice>, name: Seq<char>)
    ensures
        forall|k: int|
            0 <= k < cfg.len() && (#[trigger] cfg[k]).name@ == name && (forall|i: int| k < i < cfg.len() ==> cfg[i].name@ != name)
                ==> last_configured(cfg, name) == Some(cfg[k]),
        (forall|k: int| 0 <= k < cfg.len() ==> (#[trigger] cfg[k]).name@ != name) ==> last_configured(cfg, name) is None,
    decreases cfg.len(),
{
    if cfg.len() > 0 {
        let init = cfg.drop_last();
        last_configured_is_last_named(init, name);
        assert forall|k: int|
            0 <= k < cfg.len() && (#[trigger] cfg[k]).name@ == name && (forall|i: int| k < i < cfg.len() ==> cfg[i].name@ != name)
                implies last_configured(cfg, name) == Some(cfg[k]) by {
            if k < cfg.len() - 1 {
                assert(cfg[cfg.len() - 1].name@ != name);
                assert(init[k] == cfg[k]);
                assert forall|i: int| k < i < init.len() implies init[i].name@ != name by {
                    assert(init[i] == cfg[i]);
                }
            }
        }
        if forall|k: int| 0 <= k < cfg.len() ==> (#[trigger] cfg[k]).name@ != name {
            assert(cfg[cfg.len() - 1].name@ != name);
            assert forall|k: int| 0 <= k < init.len() implies (#[trigger] init[k]).name@ != name by {
                assert(init[k] == cfg[k]);
            }
        }
    }
}

/// The strings among some items are exactly the items that are strings,
/// in order.
pub proof fn string_items_are_the_strings(items: Seq<JsonValue>)
    ensures
        string_items(items) == items.filter(|x: JsonValue| x.str_of() is Some).map_values(|x: JsonValue| x.str_of()->0),
    decreases items.len(),
{
    reveal(Seq::filter);
    if items.len() > 0 {
        string_items_are_the_strings(items.drop_last());
        let f = |x: JsonValue| x.str_of() is Some;
        let g = |x: JsonValue| x.str_of()->0;
        let prev = items.drop_last().filter(f);
        if items.last().str_of() is Some {
            assert(items.filter(f) == prev.push(items.last()));
            assert(prev.push(items.last()).map_values(g) =~= prev.map_values(g).push(g(items.last())));
        } else {
            assert(items.filter(f) == prev);
        }
    }
}

/// What a peer becomes, member by member: its host name (`HostName`, else
/// `DNSName`, else `unknown`); its name (the first label of `DNSName`, else
/// the host name); its id (`ID`, else `PublicKey`, else the name); its first
/// Tailscale address when that is a string; whether it is online (a `true`
/// `Online`); and the actions of the device configured under its name,
/// else under its host name.
pub proof fn device_members(p: JsonValue, cfg: Seq<ConfiguredDevice>)
    ensures
        ({
            let d = device_of(p, cfg);
            let dns = p.field("DNSName"@).str_of();
            let host = if p.field("HostName"@).str_of() is Some {
                p.field("HostName"@).str_of()->0
            } else if dns is Some {
                dns->0
            } else {
                "unknown"@
            };
            let name = if dns is Some {
                tailnet_short_name(dns->0)
            } else {
                host
            };
            let configured = if last_configured(cfg, name) is Some {
                last_configured(cfg, name)
            } else {
                last_configured(cfg, host)
            };
            &&& d.host_name == host
            &&& d.name == name
            &&& d.dns_name == dns
            &&& d.id == (if p.field("ID"@).str_of() is Some {
                p.field("ID"@).str_of()->0
            } else if p.field("PublicKey"@).str_of() is Some {
                p.field("PublicKey"@).str_of()->0
            } else {
                name
            })
            &&& d.tailnet_ip == (if p.field("TailscaleIPs"@).items_of() is Some && p.field(
                "TailscaleIPs"@,
            ).items_of()->0.len() > 0 {
                p.field("TailscaleIPs"@).items_of()->0[0].str_of()
            } else {
                None
            })
            &&& d.os == p.field("OS"@).str_of()
            &&& d.online == (p.field("Online"@).bool_of() == Some(true))
            &&& d.last_seen == p.field("LastSeen"@).str_of()
            &&& d.user == p.field("User"@).str_of()
            &&& d.tags == (if p.field("Tags"@).items_of() is Some {
                string_items(p.field("Tags"@).items_of()->0)
            } else {
                Seq::empty()
            })
            &&& d.ssh_user == (if configured is Some {
                opt_view(configured->0.ssh_user)
            } else {
                None
            })
            &&& d.restartable == (configured is Some && configured->0.restartable)
        }),
{
}

/// The peers of a status document are `Self`, when it is an object, then
/// the values of the object `Peer`, in its order.
pub proof fn peers_are_self_then_peer_values(status: JsonValue)
    ensures
        ({
            let own = status.field("Self"@);
            let n: int = if own.entries_of() is Some {
                1
            } else {
                0
            };
            let others = if status.field("Peer"@).entries_of() is Some {
                status.field("Peer"@).entries_of()->0
            } else {
                Seq::empty()
            };
            &&& peers_of(status).len() == n + others.len()
            &&& n == 1 ==> peers_of(status)[0] == own
            &&& forall|k: int| 0 <= k < others.len() ==> peers_of(status)[n + k] == (#[trigger] others[k]).1
        }),
{
}

/// A short device name is the first label of the name, trailing dots
/// ignored. With `t` the name without its trailing dots (everything after
/// `t` is a dot, and `t` does not end in one), the short name begins `t`,
/// holds no dot, and ends where `t` ends or at a dot.
pub proof fn short_name_is_whole_first_label(s: Seq<char>)
    ensures
        ({
            let t = trim_trailing(s, '.');
            let r = tailnet_short_name(s);
            &&& t == s.take(t.len() as int)
            &&& forall|i: int| t.len() <= i < s.len() ==> s[i] == '.'
            &&& t.len() == 0 || t.last() != '.'
            &&& r == t.take(r.len() as int)
            &&& r.len() <= t.len()
            &&& forall|i: int| 0 <= i < r.len() ==> r[i] != '.'
            &&& r.len() == t.len() || t[r.len() as int] == '.'
        }),
{
    short_name_is_first_label(s);
    lemma_trim_trailing_prefix(s, '.');
    lemma_trim_trailing_rest(s, '.');
    lemma_before_first_dot_stops(trim_trailing(s, '.'));
    lemma_before_first_dot_prefix(trim_trailing(s, '.'));
}

proof fn lemma_trim_trailing_rest(s: Seq<char>, c: char)
    ensures
        forall|i: int| trim_trailing(s, c).len() <= i < s.len() ==> s[i] == c,
        trim_trailing(s, c).len() == 0 || trim_trailing(s, c).last() != c,
    decreases s.len(),
{
    if s.len() > 0 && s.last() == c {
        lemma_trim_trailing_rest(s.drop_last(), c);
        lemma_trim_trailing_prefix(s.drop_last(), c);
        assert forall|i: int| trim_trailing(s, c).len() <= i < s.len() implies s[i] == c by {
            if i < s.len() - 1 {
                assert(s[i] == s.drop_last()[i]);
            }
        }
    }
}

proof fn lemma_before_first_dot_stops(s: Seq<char>)
    ensures
        before_first_dot(s).len() == s.len() || s[before_first_dot(s).len() as int] == '.',
    decreases s.len(),
{
    if s.len() > 0 && s[0] != '.' {
        lemma_before_first_dot_stops(s.drop_first());
        lemma_before_first_dot_prefix(s.drop_first());
        let r = before_first_dot(s.drop_first());
        assert(before_first_dot(s).len() == r.len() + 1);
        if r.len() < s.drop_first().len() {
            assert(s.drop_first()[r.len() as int] == '.');
            assert(s[r.len() as int + 1] == s.drop_first()[r.len() as int]);
            assert(s[before_first_dot(s).len() as int] == '.');
        } else {
            assert(before_first_dot(s).len() == s.len());
        }
    } else if s.len() > 0 {
        assert(before_first_dot(s).len() == 0);
    }
}

} // verus!
