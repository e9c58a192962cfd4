//! The LAN module's bookkeeping: the cache of peers found by mDNS, the
//! display name shown to them, and the settings it keeps.

use vstd::prelude::*;
use crate::skill::{strings_view, copy_strings};
use crate::text::{chars_of, chars_eq, str_eq, string_of, owned, trimmed, trim, hex_lower, hex_of_bytes};

verus! {

/// Display name used when nothing else is set.
pub const DEFAULT_DISPLAY_NAME: &'static str = "LocalFragNote";
/// Instance setting that holds the LAN display name.
pub const DISPLAY_NAME_KEY: &'static str = "lan_display_name";
/// App setting that holds the access rules as JSON.
pub const ACL_RULES_KEY: &'static str = "lan_acl_rules";
/// App setting that says whether the LAN module runs.
pub const ENABLED_KEY: &'static str = "lan_enabled";
/// App setting that holds the user's profile as JSON.
pub const USER_PROFILE_KEY: &'static str = "user_profile:local";
/// Number of characters of a peer id shown until its real name is known.
pub const PLACEHOLDER_CHARS: usize = 8;

/// A peer seen on the local network.
#[derive(Debug)]
pub struct PeerInfo {
    pub peer_id: String,
    pub display_name: String,
    pub addrs: Vec<String>,
    pub relay_url: Option<String>,
    pub last_seen: i64,
}

/// The plain value of a peer.
pub struct PeerView {
    pub peer_id: Seq<char>,
    pub display_name: Seq<char>,
    pub addrs: Seq<Seq<char>>,
    pub relay_url: Option<Seq<char>>,
    pub last_seen: i64,
}

/// The plain value of an optional string.
pub open spec fn opt_string_view(s: Option<String>) -> Option<Seq<char>> {
    match s {
        Some(t) => Some(t@),
        None => None,
    }
}

impl View for PeerInfo {
    type V = PeerView;

    open spec fn view(&self) -> PeerView {
        PeerView {
            peer_id: self.peer_id@,
            display_name: self.display_name@,
            addrs: strings_view(self.addrs@),
            relay_url: opt_string_view(self.relay_url),
            last_seen: self.last_seen,
        }
    }
}

/// The plain values of a list of peers.
pub open spec fn peers_view(v: Seq<PeerInfo>) -> Seq<PeerView> {
    v.map_values(|p: PeerInfo| p@)
}

#[verifier::external_type_specification]
#[verifier::external_body]
pub struct ExEndpoint(iroh::Endpoint);

/// What the LAN module keeps at run time: the iroh endpoint, the peer cache
/// and the display name.
pub struct LanState {
    pub endpoint: iroh::Endpoint,
    pub peers: Vec<PeerInfo>,
    pub display_name: String,
}

/// `Endpoint::id` as its 32 bytes (`PublicKey::as_bytes`): the public key
/// of the endpoint's secret key. Which key that is depends on the endpoint
/// and is left unsaid.
#[verifier::external_body]
fn endpoint_id_bytes(endpoint: &iroh::Endpoint) -> (r: Vec<u8>)
    ensures
        r@.len() == 32,
{
    endpoint.id().as_bytes().to_vec()
}

/// The id of the local endpoint as shown to the user and to peers: the
/// lower-case hexadecimal text of its public key (what `Display` of an
/// `EndpointId` prints), 64 characters long.
pub fn local_peer_id(state: &LanState) -> (r: String)
    ensures
        exists|key: Seq<u8>| key.len() == 32 && r@ == hex_lower(key),
        r@.len() == 64,
{
    let key = endpoint_id_bytes(&state.endpoint);
    proof { crate::text::lemma_hex_lower_len(key@); }
    hex_of_bytes(&key)
}

/// The first `n` characters of `s` (all of it where it is shorter).
pub open spec fn chars_prefix(s: Seq<char>, n: int) -> Seq<char> {
    if n < s.len() {
        s.take(n)
    } else {
        s
    }
}

/// The first `n` characters of a peer id, as its placeholder name.
pub fn peer_id_chars_prefix(peer_id: &str, n: usize) -> (r: String)
    ensures
        r@ == chars_prefix(peer_id@, n as int),
{
    let v = chars_of(peer_id);
    let end = if n < v.len() { n } else { v.len() };
    let r = string_of(&v, 0, end);
    assert(v@.subrange(0, v@.len() as int) =~= v@);
    r
}

/// No two cached peers share an id.
pub open spec fn ids_distinct(ps: Seq<PeerView>) -> bool {
    forall|i: int, j: int| 0 <= i < j < ps.len() ==> #[trigger] ps[i].peer_id != #[trigger] ps[j].peer_id
}

/// Some cached peer has id `id`.
pub open spec fn has_peer(ps: Seq<PeerView>, id: Seq<char>) -> bool {
    exists|k: int| 0 <= k < ps.len() && #[trigger] ps[k].peer_id == id
}

/// `k` is the first position of a peer with id `id`.
pub open spec fn is_first_peer(ps: Seq<PeerView>, id: Seq<char>, k: int) -> bool {
    &&& 0 <= k < ps.len()
    &&& ps[k].peer_id == id
    &&& forall|j: int| 0 <= j < k ==> #[trigger] ps[j].peer_id != id
}

/// The first position of a peer with id `id`, if any.
fn position_of_peer(peers: &Vec<PeerInfo>, id: &str) -> (r: Option<usize>)
    ensures
        match r {
            Some(k) => is_first_peer(peers_view(peers@), id@, k as int),
            None => !has_peer(peers_view(peers@), id@),
        },
{
    let v = chars_of(id);
    let n = peers.len();
    for i in 0..n
        invariant
            n == peers.len(),
            v@ == id@,
            forall|j: int| 0 <= j < i ==> #[trigger] peers_view(peers@)[j].peer_id != id@,
    {
        assert(peers_view(peers@)[i as int] == peers@[i as int]@);
        if chars_eq(&chars_of(peers[i].peer_id.as_str()), &v) {
            return Some(i);
        }
    }
    None
}

/// A copy of an optional string.
fn copy_opt(s: &Option<String>) -> (r: Option<String>)
    ensures
        opt_string_view(r) == opt_string_view(*s),
{
    match s {
        Some(t) => Some(t.clone()),
        None => None,
    }
}

/// The cache entry written when a peer is discovered: its name is the one
/// already resolved for it, else the placeholder made of its id.
pub open spec fn discovered_entry(
    ps: Seq<PeerView>,
    id: Seq<char>,
    addrs: Seq<Seq<char>>,
    relay_url: Option<Seq<char>>,
    now: i64,
) -> PeerView {
    PeerView {
        peer_id: id,
        display_name: if has_peer(ps, id) {
            ps[choose|k: int| is_first_peer(ps, id, k)].display_name
        } else {
            chars_prefix(id, PLACEHOLDER_CHARS as int)
        },
        addrs,
        relay_url,
        last_seen: now,
    }
}

/// The cache after a peer is discovered: its first entry is replaced, or a
/// new entry is appended.
pub open spec fn after_discovered(
    ps: Seq<PeerView>,
    id: Seq<char>,
    addrs: Seq<Seq<char>>,
    relay_url: Option<Seq<char>>,
    now: i64,
) -> Seq<PeerView> {
    let e = discovered_entry(ps, id, addrs, relay_url, now);
    if has_peer(ps, id) {
        ps.update(choose|k: int| is_first_peer(ps, id, k), e)
    } else {
        ps.push(e)
    }
}

proof fn lemma_first_peer_unique(ps: Seq<PeerView>, id: Seq<char>, k: int)
    requires
        is_first_peer(ps, id, k),
    ensures
        has_peer(ps, id),
        (choose|j: int| is_first_peer(ps, id, j)) == k,
{
    assert(ps[k].peer_id == id);
    let c = choose|j: int| is_first_peer(ps, id, j);
    assert(is_first_peer(ps, id, c));
    if c < k {
        assert(ps[c].peer_id != id);
    } else if c > k {
        assert(ps[k].peer_id != id);
    }
}

/// Records a peer that mDNS has discovered at time `now`.
pub fn apply_discovered(
    peers: &mut Vec<PeerInfo>,
    peer_id: String,
    addrs: Vec<String>,
    relay_url: Option<String>,
    now: i64,
)
    ensures
        peers_view(final(peers)@) == after_discovered(peers_view(old(peers)@), peer_id@,
            strings_view(addrs@), opt_string_view(relay_url), now),
        ids_distinct(peers_view(old(peers)@)) ==> ids_distinct(peers_view(final(peers)@)),
{
    let ghost ps = peers_view(peers@);
    let pos = position_of_peer(peers, peer_id.as_str());
    match pos {
        Some(k) => {
            proof { lemma_first_peer_unique(ps, peer_id@, k as int); }
            assert(ps[k as int] == peers@[k as int]@);
            let name = peers[k].display_name.clone();
            let info = PeerInfo { peer_id, display_name: name, addrs, relay_url, last_seen: now };
            let ghost before = peers@;
            peers.set(k, info);
            proof {
                let target = after_discovered(ps, info@.peer_id, info@.addrs, info@.relay_url, now);
                assert forall|i: int| 0 <= i < peers@.len() implies #[trigger] peers_view(peers@)[i] == target[i] by {
                    if i != k {
                        assert(peers@[i] == before[i]);
                    }
                }
                assert(peers_view(peers@) =~= target);
                if ids_distinct(ps) {
                    assert forall|i: int, j: int| 0 <= i < j < peers_view(peers@).len()
                        implies #[trigger] peers_view(peers@)[i].peer_id != #[trigger] peers_view(peers@)[j].peer_id by {
                        assert(ps[i].peer_id != ps[j].peer_id);
                    }
                }
            }
        },
        None => {
            let placeholder = peer_id_chars_prefix(peer_id.as_str(), PLACEHOLDER_CHARS);
            let info = PeerInfo { peer_id, display_name: placeholder, addrs, relay_url, last_seen: now };
            peers.push(info);
            proof {
                assert(peers_view(peers@) =~= ps.push(info@));
                if ids_distinct(ps) {
                    assert forall|i: int, j: int| 0 <= i < j < peers_view(peers@).len()
                        implies #[trigger] peers_view(peers@)[i].peer_id != #[trigger] peers_view(peers@)[j].peer_id by {
                        if j == ps.len() {
                            assert(ps[i].peer_id != info@.peer_id);
                        }
                    }
                }
            }
        },
    }
}

/// The predicate "has an id other than `id`".
pub open spec fn peer_other_than(id: Seq<char>) -> spec_fn(PeerView) -> bool {
    |p: PeerView| p.peer_id != id
}

/// A copy of a peer entry.
fn copy_peer(p: &PeerInfo) -> (r: PeerInfo)
    ensures
        r@ == p@,
{
    PeerInfo {
        peer_id: p.peer_id.clone(),
        display_name: p.display_name.clone(),
        addrs: copy_strings(&p.addrs),
        relay_url: copy_opt(&p.relay_url),
        last_seen: p.last_seen,
    }
}

/// Drops a peer whose mDNS record expired; says whether one was dropped.
pub fn apply_expired(peers: &mut Vec<PeerInfo>, peer_id: &str) -> (removed: bool)
    ensures
        peers_view(final(peers)@) == peers_view(old(peers)@).filter(peer_other_than(peer_id@)),
        removed == has_peer(peers_view(old(peers)@), peer_id@),
        ids_distinct(peers_view(old(peers)@)) ==> ids_distinct(peers_view(final(peers)@)),
{
    let ghost ps = peers_view(peers@);
    let v = chars_of(peer_id);
    let mut kept: Vec<PeerInfo> = Vec::new();
    let mut removed = false;
    let n = peers.len();
    for i in 0..n
        invariant
            n == peers@.len(),
            ps == peers_view(peers@),
            v@ == peer_id@,
            peers_view(kept@) == ps.take(i as int).filter(peer_other_than(peer_id@)),
            removed == has_peer(ps.take(i as int), peer_id@),
    {
        let p = &peers[i];
        assert(p@ == ps[i as int]);
        let same = chars_eq(&chars_of(p.peer_id.as_str()), &v);
        if same {
            removed = true;
        } else {
            kept.push(copy_peer(p));
        }
        proof {
            reveal_with_fuel(Seq::<PeerView>::filter, 1);
            assert(ps.take(i + 1).drop_last() =~= ps.take(i as int));
            assert(peers_view(kept@) =~= ps.take(i + 1).filter(peer_other_than(peer_id@)));
            if same {
                assert(ps.take(i + 1)[i as int].peer_id == peer_id@);
            } else if has_peer(ps.take(i + 1), peer_id@) {
                let k = choose|k: int| 0 <= k < ps.take(i + 1).len() && #[trigger] ps.take(i + 1)[k].peer_id == peer_id@;
                assert(k != i);
                assert(ps.take(i as int)[k].peer_id == peer_id@);
            }
            if has_peer(ps.take(i as int), peer_id@) {
                let k = choose|k: int| 0 <= k < ps.take(i as int).len() && #[trigger] ps.take(i as int)[k].peer_id == peer_id@;
                assert(ps.take(i + 1)[k].peer_id == peer_id@);
            }
        }
    }
    assert(ps.take(n as int) =~= ps);
    *peers = kept;
    proof {
        let f = peer_other_than(peer_id@);
        let out = ps.filter(f);
        if ids_distinct(ps) {
            assert forall|a: int, b: int| 0 <= a < b < out.len()
                implies #[trigger] out[a].peer_id != #[trigger] out[b].peer_id by {
                lemma_filter_keeps_distinct(ps, f, a, b);
            }
        }
    }
    removed
}

/// Two entries of a filtered list come from two different positions of the
/// list, in the same order.
proof fn lemma_filter_keeps_distinct(ps: Seq<PeerView>, f: spec_fn(PeerView) -> bool, a: int, b: int)
    requires
        ids_distinct(ps),
        0 <= a < b < ps.filter(f).len(),
    ensures
        ps.filter(f)[a].peer_id != ps.filter(f)[b].peer_id,
    decreases ps.len(),
{
    reveal_with_fuel(Seq::<PeerView>::filter, 1);
    let init = ps.drop_last();
    assert(ids_distinct(init)) by {
        assert forall|i: int, j: int| 0 <= i < j < init.len() implies #[trigger] init[i].peer_id != #[trigger] init[j].peer_id by {
            assert(init[i] == ps[i] && init[j] == ps[j]);
        }
    }
    if f(ps.last()) && b == ps.filter(f).len() - 1 {
        // `b` is the last entry; `a` comes from the earlier part
        assert(ps.filter(f)[b] == ps.last());
        assert(ps.filter(f)[a] == init.filter(f)[a]);
        let fa = init.filter(f)[a];
        assert(init.filter(f).contains(fa));
        init.lemma_filter_contains_rev(f, fa);
        let k = choose|k: int| 0 <= k < init.len() && init[k] == fa;
        assert(ps[k] == init[k]);
        assert(ps[k].peer_id != ps[ps.len() - 1].peer_id);
    } else {
        assert(ps.filter(f)[a] == init.filter(f)[a]);
        assert(ps.filter(f)[b] == init.filter(f)[b]);
        lemma_filter_keeps_distinct(init, f, a, b);
    }
}

/// The cache after a peer answered with its profile name: a non-empty
/// name becomes the display name of the first entry with that id.
pub open spec fn after_profile(ps: Seq<PeerView>, id: Seq<char>, name: Seq<char>) -> Seq<PeerView> {
    if name.len() > 0 && has_peer(ps, id) {
        let k = choose|k: int| is_first_peer(ps, id, k);
        ps.update(k, PeerView { display_name: name, ..ps[k] })
    } else {
        ps
    }
}

/// Records the display name a peer reported; says whether the front end
/// is to be told (a non-empty name).
pub fn apply_profile(peers: &mut Vec<PeerInfo>, peer_id: &str, display_name: String) -> (changed: bool)
    ensures
        peers_view(final(peers)@) == after_profile(peers_view(old(peers)@), peer_id@, display_name@),
        changed == (display_name@.len() > 0),
        ids_distinct(peers_view(old(peers)@)) ==> ids_distinct(peers_view(final(peers)@)),
{
    let ghost ps = peers_view(peers@);
    if display_name.as_str().is_empty() {
        assert(display_name@.len() == 0);
        return false;
    }
    match position_of_peer(peers, peer_id) {
        Some(k) => {
            proof { lemma_first_peer_unique(ps, peer_id@, k as int); }
            let p = &peers[k];
            assert(ps[k as int] == p@);
            let info = PeerInfo {
                peer_id: p.peer_id.clone(),
                display_name,
                addrs: copy_strings(&p.addrs),
                relay_url: copy_opt(&p.relay_url),
                last_seen: p.last_seen,
            };
            let ghost before = peers@;
            peers.set(k, info);
            proof {
                let target = after_profile(ps, peer_id@, info@.display_name);
                assert forall|i: int| 0 <= i < peers@.len() implies #[trigger] peers_view(peers@)[i] == target[i] by {
                    if i != k {
                        assert(peers@[i] == before[i]);
                    }
                }
                assert(peers_view(peers@) =~= target);
                if ids_distinct(ps) {
                    assert forall|i: int, j: int| 0 <= i < j < peers_view(peers@).len()
                        implies #[trigger] peers_view(peers@)[i].peer_id != #[trigger] peers_view(peers@)[j].peer_id by {
                        assert(ps[i].peer_id != ps[j].peer_id);
                    }
                }
            }
        },
        None => {},
    }
    true
}

/// The text of the field `key` of a JSON object, as `serde_json` reads it:
/// `None` where the text is no JSON object or the field is no string.
pub uninterp spec fn json_string_field(json: Seq<char>, key: Seq<char>) -> Option<Seq<char>>;

/// Parses `json` with `serde_json::from_str` into a `serde_json::Value`,
/// takes the field `key` with `Value::get` and its text with
/// `Value::as_str`; its result is the one named by `json_string_field`.
#[verifier::external_body]
fn read_json_string_field(json: &str, key: &str) -> (r: Option<String>)
    ensures
        opt_string_view(r) == json_string_field(json@, key@),
{
    match serde_json::from_str::<serde_json::Value>(json) {
        Ok(value) => match value.get(key) {
            Some(field) => field.as_str().map(|s| s.to_string()),
            None => None,
        },
        Err(_) => None,
    }
}

/// The display name that the user's profile sets: its `displayName` field,
/// trimmed, where that is not empty.
pub open spec fn profile_display_name(profile_json: Option<Seq<char>>) -> Option<Seq<char>> {
    match profile_json {
        Some(json) => match json_string_field(json, "displayName"@) {
            Some(v) => if trim(v).len() > 0 { Some(trim(v)) } else { None },
            None => None,
        },
        None => None,
    }
}

/// The plain value of an optional text.
pub open spec fn opt_str_view(s: Option<&str>) -> Option<Seq<char>> {
    match s {
        Some(t) => Some(t@),
        None => None,
    }
}

/// Reads the display name set in the user's profile (stored as JSON).
pub fn user_profile_display_name(profile_json: Option<&str>) -> (r: Option<String>)
    ensures
        opt_string_view(r) == profile_display_name(opt_str_view(profile_json)),
{
    match profile_json {
        Some(json) => {
            let key = "displayName";
            proof { reveal_strlit("displayName"); }
            profile_name_from_field(read_json_string_field(json, key))
        },
        None => None,
    }
}

/// The display name given by the profile's `displayName` text, if any: the
/// text trimmed, where that is not empty.
pub fn profile_name_from_field(field: Option<String>) -> (r: Option<String>)
    ensures
        opt_string_view(r) == match opt_string_view(field) {
            Some(v) => if trim(v).len() > 0 { Some(trim(v)) } else { None },
            None => None,
        },
{
    match field {
        Some(v) => {
            let t = trimmed(v.as_str());
            if !t.as_str().is_empty() {
                Some(t)
            } else {
                None
            }
        },
        None => None,
    }
}

/// The display name shown to peers: the profile's name first, then the
/// LAN display name stored for this instance, then the default.
pub open spec fn display_name_of(profile_json: Option<Seq<char>>, instance_name: Option<Seq<char>>) -> Seq<char> {
    match profile_display_name(profile_json) {
        Some(n) => n,
        None => match instance_name {
            Some(n) => n,
            None => DEFAULT_DISPLAY_NAME@,
        },
    }
}

/// Chooses the display name from the stored profile and instance setting.
pub fn choose_display_name(profile_json: Option<&str>, instance_name: Option<String>) -> (r: String)
    ensures
        r@ == display_name_of(opt_str_view(profile_json), opt_string_view(instance_name)),
{
    match user_profile_display_name(profile_json) {
        Some(n) => n,
        None => match instance_name {
            Some(n) => n,
            None => owned(DEFAULT_DISPLAY_NAME),
        },
    }
}

/// The stored access rules, or an empty JSON list where none are stored.
pub fn acl_rules_or_default(stored: Option<String>) -> (r: String)
    ensures
        r@ == match opt_string_view(stored) {
            Some(s) => s,
            None => "[]"@,
        },
{
    match stored {
        Some(s) => s,
        None => owned("[]"),
    }
}

/// Whether a stored `lan_enabled` value turns the module on: a missing
/// value does; a stored one must be `1`, `true`, `TRUE` or `True` once
/// trimmed.
pub open spec fn enabled_value(stored: Option<Seq<char>>) -> bool {
    match stored {
        Some(s) => {
            let t = trim(s);
            t == "1"@ || t == "true"@ || t == "TRUE"@ || t == "True"@
        },
        None => true,
    }
}

/// Reads the stored `lan_enabled` value.
pub fn enabled_from_setting(stored: Option<&str>) -> (r: bool)
    ensures
        r == enabled_value(opt_str_view(stored)),
{
    match stored {
        Some(s) => {
            let t = trimmed(s);
            let t = t.as_str();
            str_eq(t, "1") || str_eq(t, "true") || str_eq(t, "TRUE") || str_eq(t, "True")
        },
        None => true,
    }
}

/// The text stored for `lan_enabled`.
pub open spec fn enabled_text(enabled: bool) -> Seq<char> {
    if enabled { "true"@ } else { "false"@ }
}

/// The value that `save_enabled` stores.
pub fn enabled_setting_value(enabled: bool) -> (r: &'static str)
    ensures
        r@ == enabled_text(enabled),
{
    if enabled { "true" } else { "false" }
}

/// Reading back the stored `lan_enabled` value gives what was saved.
pub proof fn law_enabled_round_trip(enabled: bool)
    ensures
        enabled_value(Some(enabled_text(enabled))) == enabled,
{
    reveal_strlit("true");
    reveal_strlit("false");
    reveal_strlit("1");
    reveal_strlit("TRUE");
    reveal_strlit("True");
    let t = enabled_text(enabled);
    assert(!crate::text::is_ws(t[0]));
    assert(!crate::text::is_ws(t.last()));
    assert(trim(t) == t);
    if !enabled {
        assert(t[0] != "true"@[0]);
        assert(t[0] != "1"@[0]);
        assert(t[0] != "TRUE"@[0]);
        assert(t[0] != "True"@[0]);
    }
}


/// The peers whose profile is being fetched; a peer is asked by one request
/// at a time.
pub struct ProfileRequests {
    ids: Vec<String>,
}

impl View for ProfileRequests {
    type V = Set<Seq<char>>;

    closed spec fn view(&self) -> Set<Seq<char>> {
        strings_view(self.ids@).to_set()
    }
}

impl ProfileRequests {
    /// No request is under way.
    pub fn new() -> (r: ProfileRequests)
        ensures
            r@ == Set::<Seq<char>>::empty(),
    {
        let r = ProfileRequests { ids: Vec::new() };
        assert(strings_view(r.ids@).to_set() =~= Set::<Seq<char>>::empty());
        r
    }

    fn position(&self, id: &str) -> (r: Option<usize>)
        ensures
            match r {
                Some(k) => k < self.ids@.len() && self.ids@[k as int]@ == id@,
                None => !self@.contains(id@),
            },
    {
        let v = chars_of(id);
        let n = self.ids.len();
        for i in 0..n
            invariant
                n == self.ids@.len(),
                v@ == id@,
                forall|j: int| 0 <= j < i ==> #[trigger] self.ids@[j]@ != id@,
        {
            if chars_eq(&chars_of(self.ids[i].as_str()), &v) {
                return Some(i);
            }
        }
        proof {
            if strings_view(self.ids@).to_set().contains(id@) {
                let k = choose|k: int| 0 <= k < strings_view(self.ids@).len() && strings_view(self.ids@)[k] == id@;
                assert(strings_view(self.ids@)[k] == self.ids@[k]@);
            }
        }
        None
    }

    /// Starts a request for `id` unless one is under way; `true` when the
    /// caller is to send it.
    pub fn try_begin(&mut self, id: &str) -> (started: bool)
        ensures
            started == !old(self)@.contains(id@),
            final(self)@ == old(self)@.insert(id@),
    {
        match self.position(id) {
            Some(k) => {
                proof {
                    assert(strings_view(self.ids@)[k as int] == id@);
                    assert(self@.contains(id@));
                    assert(self@.insert(id@) =~= self@);
                }
                false
            },
            None => {
                let ghost before = strings_view(self.ids@);
                self.ids.push(owned(id));
                proof {
                    assert(strings_view(self.ids@) =~= before.push(id@));
                    assert(before.push(id@).to_set() =~= before.to_set().insert(id@)) by {
                        before.lemma_push_to_set_commute(id@);
                    }
                }
                true
            },
        }
    }

    /// Ends the request for `id` (answered, failed, or the peer expired).
    pub fn finish(&mut self, id: &str)
        ensures
            final(self)@ == old(self)@.remove(id@),
    {
        let ghost old_set = self@;
        let v = chars_of(id);
        let mut kept: Vec<String> = Vec::new();
        let n = self.ids.len();
        for i in 0..n
            invariant
                n == self.ids@.len(),
                v@ == id@,
                old_set == strings_view(self.ids@).to_set(),
                forall|x: Seq<char>| #[trigger] strings_view(kept@).to_set().contains(x)
                    <==> (strings_view(self.ids@.take(i as int)).to_set().contains(x) && x != id@),
        {
            let x = &self.ids[i];
            let ghost before = kept@;
            if !chars_eq(&chars_of(x.as_str()), &v) {
                kept.push(x.clone());
            }
            proof {
                assert(self.ids@.take(i + 1) =~= self.ids@.take(i as int).push(self.ids@[i as int]));
                assert(strings_view(self.ids@.take(i + 1)) =~= strings_view(self.ids@.take(i as int)).push(self.ids@[i as int]@));
                strings_view(self.ids@.take(i as int)).lemma_push_to_set_commute(self.ids@[i as int]@);
                if kept@.len() > before.len() {
                    assert(strings_view(kept@) =~= strings_view(before).push(x@));
                    strings_view(before).lemma_push_to_set_commute(x@);
                } else {
                    assert(strings_view(kept@) =~= strings_view(before));
                }
            }
        }
        assert(self.ids@.take(n as int) =~= self.ids@);
        self.ids = kept;
        assert(self@ =~= old_set.remove(id@));
    }
}

/// What mDNS reports about a peer.
#[derive(Debug)]
pub enum DiscoveryEvent {
    /// A peer was seen, with its addresses and relay.
    Discovered { peer_id: String, addrs: Vec<String>, relay_url: Option<String> },
    /// A peer's record expired.
    Expired { peer_id: String },
    /// Anything else.
    Other,
}

/// What the discovery loop does after an event: whether the front end is
/// told that the peers changed, and the peer whose profile is to be fetched.
#[derive(Debug)]
pub struct DiscoveryOutcome {
    pub changed: bool,
    pub fetch_profile: Option<String>,
}

/// One step of the discovery loop at time `now`: a discovered peer is
/// recorded (its name kept) and its profile fetched unless a request for it
/// is under way; an expired peer is dropped and its request forgotten.
pub fn on_discovery_event(
    peers: &mut Vec<PeerInfo>,
    requests: &mut ProfileRequests,
    event: DiscoveryEvent,
    now: i64,
) -> (r: DiscoveryOutcome)
    ensures
        match event {
            DiscoveryEvent::Discovered { peer_id, addrs, relay_url } => {
                &&& peers_view(final(peers)@) == after_discovered(peers_view(old(peers)@), peer_id@,
                        strings_view(addrs@), opt_string_view(relay_url), now)
                &&& final(requests)@ == old(requests)@.insert(peer_id@)
                &&& r.changed
                &&& (if old(requests)@.contains(peer_id@) { r.fetch_profile is None }
                     else { r.fetch_profile matches Some(p) && p@ == peer_id@ })
            },
            DiscoveryEvent::Expired { peer_id } => {
                &&& peers_view(final(peers)@) == peers_view(old(peers)@).filter(peer_other_than(peer_id@))
                &&& final(requests)@ == old(requests)@.remove(peer_id@)
                &&& r.changed == has_peer(peers_view(old(peers)@), peer_id@)
                &&& r.fetch_profile is None
            },
            DiscoveryEvent::Other => {
                &&& final(peers)@ == old(peers)@
                &&& final(requests)@ == old(requests)@
                &&& !r.changed
                &&& r.fetch_profile is None
            },
        },
        ids_distinct(peers_view(old(peers)@)) ==> ids_distinct(peers_view(final(peers)@)),
{
    match event {
        DiscoveryEvent::Discovered { peer_id, addrs, relay_url } => {
            let id_copy = peer_id.clone();
            apply_discovered(peers, peer_id, addrs, relay_url, now);
            let start = requests.try_begin(id_copy.as_str());
            DiscoveryOutcome { changed: true, fetch_profile: if start { Some(id_copy) } else { None } }
        },
        DiscoveryEvent::Expired { peer_id } => {
            requests.finish(peer_id.as_str());
            let removed = apply_expired(peers, peer_id.as_str());
            DiscoveryOutcome { changed: removed, fetch_profile: None }
        },
        DiscoveryEvent::Other => DiscoveryOutcome { changed: false, fetch_profile: None },
    }
}


/// One profile request per peer at a time: once a request for `id` has
/// begun, beginning another is refused until it is finished, after which
/// one may begin again.
pub proof fn law_one_request_per_peer(under_way: Set<Seq<char>>, id: Seq<char>)
    ensures
        under_way.insert(id).contains(id),
        !under_way.insert(id).remove(id).contains(id),
{
}

/// A peer with id `id` at `w` means some entry is the first with that id.
proof fn lemma_some_first_peer(ps: Seq<PeerView>, id: Seq<char>, w: int)
    requires
        0 <= w < ps.len(),
        ps[w].peer_id == id,
    ensures
        exists|k: int| is_first_peer(ps, id, k),
    decreases w,
{
    if exists|j: int| 0 <= j < w && #[trigger] ps[j].peer_id == id {
        let j = choose|j: int| 0 <= j < w && #[trigger] ps[j].peer_id == id;
        lemma_some_first_peer(ps, id, j);
    } else {
        assert(is_first_peer(ps, id, w));
    }
}

/// A profile answer with a non-empty name from a cached peer makes that
/// name the display name of the first entry with the peer's id, whatever
/// name it showed before, and keeps the rest of that entry; every other
/// entry stays as it was, and an empty name changes nothing.
pub proof fn law_profile_name_taken(ps: Seq<PeerView>, id: Seq<char>, name: Seq<char>)
    ensures
        after_profile(ps, id, name).len() == ps.len(),
        forall|k: int| #[trigger] is_first_peer(ps, id, k) && name.len() > 0 ==> ({
            let e = after_profile(ps, id, name)[k];
            &&& e.display_name == name
            &&& e.peer_id == ps[k].peer_id
            &&& e.addrs == ps[k].addrs
            &&& e.relay_url == ps[k].relay_url
            &&& e.last_seen == ps[k].last_seen
        }),
        forall|j: int| 0 <= j < ps.len() && !is_first_peer(ps, id, j)
            ==> #[trigger] after_profile(ps, id, name)[j] == ps[j],
        name.len() == 0 ==> after_profile(ps, id, name) == ps,
{
    assert forall|k: int| #[trigger] is_first_peer(ps, id, k) && name.len() > 0 implies ({
        let e = after_profile(ps, id, name)[k];
        &&& e.display_name == name
        &&& e.peer_id == ps[k].peer_id
        &&& e.addrs == ps[k].addrs
        &&& e.relay_url == ps[k].relay_url
        &&& e.last_seen == ps[k].last_seen
    }) by {
        lemma_first_peer_unique(ps, id, k);
    }
    if name.len() > 0 && has_peer(ps, id) {
        let c = choose|k: int| is_first_peer(ps, id, k);
        let w = choose|k: int| 0 <= k < ps.len() && #[trigger] ps[k].peer_id == id;
        lemma_some_first_peer(ps, id, w);
        assert(is_first_peer(ps, id, c));
    }
}

} // verus!
