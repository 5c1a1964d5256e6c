//! The loopback proxy: who may use it, where a request goes, and what is answered.

use crate::headers::{field_bytes, header_values, values_at};
use crate::number::{decimal_text, decimal_u64};
use crate::proxy::control::{asked_action, control_action};
use crate::proxy::forward::{law_requests_are_admitted, upstream_fields, Leg};
use crate::proxy::gate::{control_after, data_plane_rejection, is_refusal, verdict, RequestHead};
use crate::proxy::reply::Reply;
use crate::proxy::upgrade::{asks_upgrade, is_websocket_upgrade};
use crate::text::{has_prefix, opt_str, starts_with};
use vstd::prelude::*;
use vstd::utf8::encode_utf8;

pub mod control;
pub mod cookie;
pub mod exchange;
pub mod forward;
pub mod gate;
pub mod json;
pub mod page;
pub mod reply;
pub mod upgrade;

verus! {

/// How long the secret in the address stays good after the proxy started, in nanoseconds.
pub const ENTRY_TOKEN_TTL: u128 = 120_000_000_000;

/// The number of WebSocket sessions that are open.
pub struct ProxyActivity {
    sessions: usize,
}

impl ProxyActivity {
    /// The number of open sessions.
    pub closed spec fn open_sessions(&self) -> usize {
        self.sessions
    }

    /// No session is open.
    pub fn new() -> (r: ProxyActivity)
        ensures
            r.open_sessions() == 0,
    {
        ProxyActivity { sessions: 0 }
    }

    /// The number of open sessions.
    pub fn active(&self) -> (r: usize)
        ensures
            r == self.open_sessions(),
    {
        self.sessions
    }

    /// A session was opened.
    pub fn enter(&mut self)
        ensures
            final(self).open_sessions() == old(self).open_sessions().wrapping_add(1),
    {
        self.sessions = self.sessions.wrapping_add(1);
    }

    /// A session was closed.
    pub fn leave(&mut self)
        ensures
            final(self).open_sessions() == old(self).open_sessions().wrapping_sub(1),
    {
        self.sessions = self.sessions.wrapping_sub(1);
    }
}

impl Default for ProxyActivity {
    fn default() -> (r: ProxyActivity)
        ensures
            r.open_sessions() == 0,
    {
        ProxyActivity::new()
    }
}

/// Opening sessions and closing them again leaves the count as it was, in whatever order
/// the two come.
pub proof fn law_sessions_balance(n: usize)
    ensures
        n.wrapping_add(1).wrapping_sub(1) == n,
        n.wrapping_sub(1).wrapping_add(1) == n,
{
}

/// Where the machine is reached, and the token that admits a request to it. Both change
/// when the machine resumes. All sessions of a proxy go by one value of this kind: none keeps
/// a copy.
pub struct Upstream {
    host: String,
    auth_token: String,
}

/// Host and token.
#[verifier::ext_equal]
pub ghost struct UpstreamView {
    pub host: Seq<char>,
    pub token: Seq<char>,
}

impl View for Upstream {
    type V = UpstreamView;

    open spec fn view(&self) -> UpstreamView {
        UpstreamView { host: self.host_text(), token: self.token_text() }
    }
}

/// A change that a session makes.
pub ghost enum Change {
    /// The machine resumed, under a new host and with a new token.
    Move { host: Seq<char>, token: Seq<char> },
    /// A new token was minted.
    Renew { token: Seq<char> },
}

/// What a change leaves.
pub open spec fn changed(u: UpstreamView, c: Change) -> UpstreamView {
    match c {
        Change::Move { host, token } => UpstreamView { host, token },
        Change::Renew { token } => UpstreamView { token, ..u },
    }
}

/// What changes leave, made one after the other by whatever sessions.
pub open spec fn after_changes(u: UpstreamView, changes: Seq<Change>) -> UpstreamView
    decreases changes.len(),
{
    if changes.len() == 0 {
        u
    } else {
        changed(after_changes(u, changes.drop_last()), changes.last())
    }
}

/// The address of what a request asks for.
pub open spec fn address(u: UpstreamView, path_and_query: Option<Seq<char>>) -> Seq<char> {
    "https://"@ + u.host + target(path_and_query)
}

/// The address of the WebSocket that an upgrade asks for.
pub open spec fn stream_address(u: UpstreamView, path_and_query: Option<Seq<char>>) -> Seq<char> {
    "wss://"@ + u.host + target(path_and_query)
}

impl Upstream {
    /// The host.
    pub closed spec fn host_text(&self) -> Seq<char> {
        self.host@
    }

    /// The token.
    pub closed spec fn token_text(&self) -> Seq<char> {
        self.auth_token@
    }

    /// A machine at `host` that takes `auth_token`.
    pub fn new(host: String, auth_token: String) -> (r: Upstream)
        ensures
            r.host_text() == host@,
            r.token_text() == auth_token@,
    {
        Upstream { host, auth_token }
    }

    /// The host.
    pub fn host(&self) -> (r: String)
        ensures
            r@ == self.host_text(),
    {
        self.host.as_str().to_owned()
    }

    /// The token.
    pub fn token(&self) -> (r: String)
        ensures
            r@ == self.token_text(),
    {
        self.auth_token.as_str().to_owned()
    }

    /// Changes both.
    pub fn set(&mut self, host: String, auth_token: String)
        ensures
            final(self)@ == changed(
                old(self)@,
                (Change::Move { host: host@, token: auth_token@ }),
            ),
    {
        self.host = host;
        self.auth_token = auth_token;
    }

    /// Changes the token only.
    pub fn renew(&mut self, auth_token: String)
        ensures
            final(self)@ == changed(old(self)@, (Change::Renew { token: auth_token@ })),
    {
        let host = self.host();
        self.set(host, auth_token);
    }

    /// The address of what a request asks for.
    pub fn url(&self, path_and_query: Option<&str>) -> (r: String)
        ensures
            r@ == address(self@, opt_str(path_and_query)),
    {
        let mut url = "https://".to_owned();
        url.append(self.host.as_str());
        append_target(&mut url, path_and_query);
        url
    }

    /// The address of the WebSocket that an upgrade asks for.
    pub fn ws_url(&self, path_and_query: Option<&str>) -> (r: String)
        ensures
            r@ == stream_address(self@, opt_str(path_and_query)),
    {
        let mut url = "wss://".to_owned();
        url.append(self.host.as_str());
        append_target(&mut url, path_and_query);
        url
    }
}

/// Path and query of a request, the root where there is neither.
pub open spec fn target(path_and_query: Option<Seq<char>>) -> Seq<char> {
    match path_and_query {
        Some(pq) => pq,
        None => "/"@,
    }
}

fn append_target(url: &mut String, path_and_query: Option<&str>)
    ensures
        final(url)@ == old(url)@ + target(opt_str(path_and_query)),
{
    match path_and_query {
        Some(pq) => url.append(pq),
        None => url.append("/"),
    }
}

proof fn lemma_renewals(u: UpstreamView, changes: Seq<Change>, k: int)
    requires
        0 <= k <= changes.len(),
        forall|i: int| k <= i < changes.len() ==> #[trigger] changes[i] is Renew,
    ensures
        after_changes(u, changes).host == after_changes(u, changes.take(k)).host,
        k == changes.len() ==> after_changes(u, changes) == after_changes(u, changes.take(k)),
        k < changes.len() ==> after_changes(u, changes).token == changes.last()->Renew_token,
    decreases changes.len(),
{
    if k == changes.len() {
        assert(changes.take(k) =~= changes);
    } else {
        let fewer = changes.drop_last();
        assert forall|i: int| k <= i < fewer.len() implies #[trigger] fewer[i] is Renew by {
            assert(fewer[i] == changes[i]);
        }
        lemma_renewals(u, fewer, k);
        assert(fewer.take(k) =~= changes.take(k));
    }
}

/// Sessions survive a resume. Once a new host and token are set, every request and every
/// stream goes to that host with that token, whichever session makes it and whatever was
/// set before; tokens minted later take the token's place and leave the host.
pub proof fn law_sessions_follow_the_machine(
    start: UpstreamView,
    earlier: Seq<Change>,
    host: Seq<char>,
    token: Seq<char>,
    later: Seq<Change>,
    path_and_query: Option<Seq<char>>,
    fields: Map<Seq<char>, Seq<Seq<u8>>>,
    leg: Leg,
    port: int,
)
    requires
        forall|i: int| 0 <= i < later.len() ==> #[trigger] later[i] is Renew,
    ensures
        ({
            let all = earlier.push(Change::Move { host, token }) + later;
            let now = after_changes(start, all);
            &&& now.host == host
            &&& now.token == (if later.len() == 0 {
                token
            } else {
                later.last()->Renew_token
            })
            &&& address(now, path_and_query) == "https://"@ + host + target(path_and_query)
            &&& stream_address(now, path_and_query) == "wss://"@ + host + target(path_and_query)
            &&& field_bytes(encode_utf8(now.token)) ==> values_at(
                upstream_fields(fields, leg, now.token, port),
                "x-aws-proxy-auth"@,
            ) == seq![encode_utf8(now.token)]
        }),
{
    let set = earlier.push(Change::Move { host, token });
    let all = set + later;
    let k = set.len() as int;
    assert forall|i: int| k <= i < all.len() implies #[trigger] all[i] is Renew by {
        assert(all[i] == later[i - k]);
    }
    lemma_renewals(start, all, k);
    assert(all.take(k) =~= set);
    assert(set.drop_last() =~= earlier);
    if later.len() > 0 {
        assert(all.last() == later.last());
    }
    law_requests_are_admitted(fields, leg, after_changes(start, all).token, port);
}

/// Host and port under which the proxy is reached: on this machine's loopback interface.
pub open spec fn local_authority(port: u16) -> Seq<char> {
    "127.0.0.1:"@ + decimal_text(port as int)
}

/// The address that the proxy listens on.
pub fn listen_address(port: u16) -> (r: String)
    ensures
        r@ == local_authority(port),
{
    let mut s = "127.0.0.1:".to_owned();
    s.append(decimal_u64(port as u64).as_str());
    s
}

/// The URL of the proxy, without a path.
pub fn base_url(port: u16) -> (r: String)
    ensures
        r@ == "http://"@ + local_authority(port),
{
    let mut s = "http://".to_owned();
    s.append(listen_address(port).as_str());
    s
}

/// The control plane of a session: the machine it drives, and the secret that opens it.
///
/// The address that the browser is given carries the secret. It lets one visit in, up to
/// the deadline (nanoseconds on the proxy's clock); what follows rides on a cookie.
pub struct ProxyControl {
    pub microvm_id: String,
    pub name: String,
    pub token_ports: Vec<i32>,
    pub control_secret: String,
    pub entry_token_used: bool,
    pub entry_token_deadline: u128,
}

/// What a proxy serves: a machine, its ports by path, and the session's control plane.
pub struct ProxyConfig {
    pub upstream: Upstream,
    pub upstream_port: i32,
    pub local_port: u16,
    pub routes: Vec<(String, i32)>,
    pub activity: Option<ProxyActivity>,
    pub control: Option<ProxyControl>,
}

/// The port of the first route whose prefix the path has, `otherwise` where there is none.
/// A route without a prefix is no route.
pub open spec fn routed_port(routes: Seq<(String, i32)>, otherwise: i32, path: Seq<char>) -> i32
    decreases routes.len(),
{
    if routes.len() == 0 {
        otherwise
    } else if routes[0].0@.len() > 0 && has_prefix(path, routes[0].0@) {
        routes[0].1
    } else {
        routed_port(routes.skip(1), otherwise, path)
    }
}

impl ProxyConfig {
    /// The port that a path goes to.
    pub fn port_for(&self, path: &str) -> (r: i32)
        ensures
            r == routed_port(self.routes@, self.upstream_port, path@),
    {
        port_of(&self.routes, self.upstream_port, path)
    }
}

/// The port that a path goes to.
pub fn port_of(routes: &Vec<(String, i32)>, otherwise: i32, path: &str) -> (r: i32)
    ensures
        r == routed_port(routes@, otherwise, path@),
{
    let n: usize = routes.len();
    let mut i: usize = 0;
    assert(routes@.skip(0) =~= routes@);
    while i < n
        invariant
            n == routes@.len(),
            i <= n,
            routed_port(routes@, otherwise, path@) == routed_port(
                routes@.skip(i as int),
                otherwise,
                path@,
            ),
        decreases n - i,
    {
        assert(routes@.skip(i as int).skip(1) =~= routes@.skip(i + 1));
        let prefix = routes[i].0.as_str();
        if !prefix.is_empty() && starts_with(path, prefix) {
            return routes[i].1;
        }
        i += 1;
    }
    otherwise
}

/// What becomes of a request.
pub enum Route {
    /// It is for the control plane.
    Control,
    /// It is turned away.
    Reject(Reply),
    /// It opens a WebSocket session.
    Upgrade,
    /// It is forwarded.
    Forward,
}

/// Decides what becomes of a request. A first visit that passes uses up the secret in the
/// address.
pub fn route(req: &RequestHead, control: &mut Option<ProxyControl>, now: u128) -> (r: Route)
    ensures
        asked_action(req.path@) is Some ==> r is Control && *final(control) == *old(control),
        asked_action(req.path@) is None ==> {
            let passes = *old(control) is None || verdict(*req, old(control)->0, now) is None;
            &&& *final(control) == (match *old(control) {
                Some(ctrl) => Some(control_after(*req, ctrl, now)),
                None => None,
            })
            &&& !passes ==> (r matches Route::Reject(reply) && is_refusal(
                reply,
                verdict(*req, old(control)->0, now)->0,
            ))
            &&& passes && asks_upgrade(header_values(req.headers)) ==> r is Upgrade
            &&& passes && !asks_upgrade(header_values(req.headers)) ==> r is Forward
        },
{
    if control_action(req.path.as_str()).is_some() {
        return Route::Control;
    }
    match data_plane_rejection(req, control, now) {
        Some(reply) => Route::Reject(reply),
        None => if is_websocket_upgrade(&req.headers) {
            Route::Upgrade
        } else {
            Route::Forward
        },
    }
}

/// A request goes to the port of the first route that its path begins with, wherever that
/// stands among the routes, and to the other port where there is none.
pub proof fn law_first_route_counts(
    routes: Seq<(String, i32)>,
    otherwise: i32,
    path: Seq<char>,
    i: int,
)
    requires
        0 <= i <= routes.len(),
        forall|k: int|
            0 <= k < i ==> (#[trigger] routes[k]).0@.len() == 0 || !has_prefix(path, routes[k].0@),
        i < routes.len() ==> routes[i].0@.len() > 0 && has_prefix(path, routes[i].0@),
    ensures
        routed_port(routes, otherwise, path) == (if i < routes.len() {
            routes[i].1
        } else {
            otherwise
        }),
    decreases i,
{
    if i > 0 {
        let rest = routes.skip(1);
        assert(routes[0].0@.len() == 0 || !has_prefix(path, routes[0].0@));
        assert forall|k: int| 0 <= k < i - 1 implies (#[trigger] rest[k]).0@.len() == 0
            || !has_prefix(path, rest[k].0@) by {
            assert(rest[k] == routes[k + 1]);
        }
        law_first_route_counts(rest, otherwise, path, i - 1);
    }
}

/// Each request goes one way: what is under a control path is control whatever else it is, and
/// of the rest what the session refuses is refused, and only that.
pub proof fn law_each_request_has_its_way(
    req: &RequestHead,
    control: &mut Option<ProxyControl>,
    now: u128,
    r: Route,
)
    requires
        call_ensures(route, (req, control, now), r),
    ensures
        r is Control <==> asked_action(req.path@) is Some,
        r is Reject <==> asked_action(req.path@) is None && *old(control) is Some && verdict(
            *req,
            old(control)->0,
            now,
        ) is Some,
        r is Upgrade ==> asks_upgrade(header_values(req.headers)),
        r is Forward ==> !asks_upgrade(header_values(req.headers)),
        *old(control) is None ==> *final(control) is None && !(r is Reject),
        *old(control) is Some ==> *final(control) is Some && final(control)->0.control_secret@
            == old(control)->0.control_secret@ && final(control)->0.microvm_id@
            == old(control)->0.microvm_id@,
        r matches Route::Reject(reply) ==> reply.status == 403,
{
}

/// What a request asks for is asked for as it is written, and the root where nothing is.
pub proof fn law_targets_are_kept(path_and_query: Option<Seq<char>>)
    ensures
        path_and_query is Some ==> target(path_and_query) == path_and_query->0,
        path_and_query is None ==> target(path_and_query) == "/"@,
{
}

} // verus!
