//! Opening the game: the session, its address, and watching over it.

use crate::config::Config;
use crate::number::{digit_char, hex, hex_text};
use crate::headers::header_values;
use crate::proxy::json::hex_value;
use crate::proxy::gate::{
    control_after, entry_token, in_session, loopback_fields, top_level_navigation, verdict,
    RequestHead,
};
use crate::proxy::{
    routed_port, ProxyActivity, ProxyConfig, ProxyControl, Upstream, ENTRY_TOKEN_TTL,
};
use crate::random::random_bytes;
use crate::state::Capsule;
use crate::text::{
    contains_text, find, first_occurrence, has_prefix, join, joined, lemma_until, lemma_until_free,
    occurs_at, opt_text, split_first, split_on, texts,
};
use vstd::prelude::*;

verus! {

/// The port on this machine that the proxy tries first.
pub const LOCAL_PORT: u16 = 6080;

/// The error for a capsule without a machine.
pub open spec fn not_running_text(name: Seq<char>) -> Seq<char> {
    "capsule '"@ + name + "' isn't running — `hellbox up --name "@ + name + "` first"@
}

/// The error for a machine that is not reached yet.
pub open spec fn no_endpoint_text(name: Seq<char>) -> Seq<char> {
    "capsule '"@ + name + "' has no endpoint yet — is it RUNNING?"@
}

/// The machine of a capsule and where it is reached.
pub fn machine_of(capsule: &Capsule, name: &str) -> (r: Result<(String, String), String>)
    ensures
        match r {
            Ok((id, endpoint)) => capsule@.microvm_id == Some(id@) && capsule@.endpoint == Some(
                endpoint@,
            ),
            Err(e) => if capsule@.microvm_id is None {
                e@ == not_running_text(name@)
            } else {
                capsule@.endpoint is None && e@ == no_endpoint_text(name@)
            },
        },
{
    let id = match &capsule.microvm_id {
        Some(id) => id.as_str().to_owned(),
        None => {
            let mut e = "capsule '".to_owned();
            e.append(name);
            e.append("' isn't running — `hellbox up --name ");
            e.append(name);
            e.append("` first");
            return Err(e);
        },
    };
    match &capsule.endpoint {
        Some(endpoint) => Ok((id, endpoint.as_str().to_owned())),
        None => {
            let mut e = "capsule '".to_owned();
            e.append(name);
            e.append("' has no endpoint yet — is it RUNNING?");
            Err(e)
        },
    }
}

/// The ports that a token admits to: those of the display and its streams, and no other.
pub fn token_ports(cfg: &Config) -> (r: Vec<i32>)
    ensures
        r@ == seq![cfg.port, cfg.audio_port, cfg.video_port, cfg.input_port],
{
    let r = vec![cfg.port, cfg.audio_port, cfg.video_port, cfg.input_port];
    assert(r@ =~= seq![cfg.port, cfg.audio_port, cfg.video_port, cfg.input_port]);
    r
}

/// Routes as texts and ports.
pub open spec fn route_texts(routes: Seq<(String, i32)>) -> Seq<(Seq<char>, i32)> {
    Seq::new(routes.len(), |i: int| (routes[i].0@, routes[i].1))
}

/// The routes of a session, each under both of its names.
pub open spec fn session_routes(audio: i32, video: i32, input: i32) -> Seq<(Seq<char>, i32)> {
    seq![
        ("/hellbox/audio"@, audio),
        ("/hellbox/video"@, video),
        ("/hellbox/input"@, input),
        ("/ldoom/audio"@, audio),
        ("/ldoom/video"@, video),
        ("/ldoom/input"@, input),
    ]
}

/// The routes of a session.
pub fn routes(cfg: &Config) -> (r: Vec<(String, i32)>)
    ensures
        route_texts(r@) == session_routes(cfg.audio_port, cfg.video_port, cfg.input_port),
{
    let mut r: Vec<(String, i32)> = Vec::new();
    r.push(("/hellbox/audio".to_owned(), cfg.audio_port));
    r.push(("/hellbox/video".to_owned(), cfg.video_port));
    r.push(("/hellbox/input".to_owned(), cfg.input_port));
    r.push(("/ldoom/audio".to_owned(), cfg.audio_port));
    r.push(("/ldoom/video".to_owned(), cfg.video_port));
    r.push(("/ldoom/input".to_owned(), cfg.input_port));
    assert(route_texts(r@) =~= session_routes(cfg.audio_port, cfg.video_port, cfg.input_port));
    r
}

/// The time after which the secret in an address opens nothing more, for a proxy that starts
/// `now`.
pub open spec fn entry_deadline(now: u128) -> u128 {
    if now + ENTRY_TOKEN_TTL <= u128::MAX {
        (now + ENTRY_TOKEN_TTL) as u128
    } else {
        u128::MAX
    }
}

/// The proxy of a session that starts `now`: nobody used the secret yet, no stream is open.
pub fn session(
    cfg: &Config,
    name: &str,
    microvm_id: &str,
    host: String,
    token: String,
    secret: String,
    now: u128,
) -> (r: ProxyConfig)
    ensures
        r.upstream.host_text() == host@,
        r.upstream.token_text() == token@,
        r.upstream_port == cfg.port,
        r.local_port == LOCAL_PORT,
        route_texts(r.routes@) == session_routes(cfg.audio_port, cfg.video_port, cfg.input_port),
        r.activity matches Some(a) && a.open_sessions() == 0,
        r.control matches Some(c) && {
            &&& c.microvm_id@ == microvm_id@
            &&& c.name@ == name@
            &&& c.token_ports@ == seq![cfg.port, cfg.audio_port, cfg.video_port, cfg.input_port]
            &&& c.control_secret@ == secret@
            &&& !c.entry_token_used
            &&& c.entry_token_deadline == entry_deadline(now)
        },
{
    let deadline: u128 = if now <= u128::MAX - ENTRY_TOKEN_TTL {
        now + ENTRY_TOKEN_TTL
    } else {
        u128::MAX
    };
    ProxyConfig {
        upstream: Upstream::new(host, token),
        upstream_port: cfg.port,
        local_port: LOCAL_PORT,
        routes: routes(cfg),
        activity: Some(ProxyActivity::new()),
        control: Some(
            ProxyControl {
                microvm_id: microvm_id.to_owned(),
                name: name.to_owned(),
                token_ports: token_ports(cfg),
                control_secret: secret,
                entry_token_used: false,
                entry_token_deadline: deadline,
            },
        ),
    }
}

/// A secret is made of hexadecimal digits.
pub open spec fn hex_digits(s: Seq<char>) -> bool {
    forall|i: int|
        0 <= i < s.len() ==> ('0' <= #[trigger] s[i] && s[i] <= '9' || 'a' <= s[i] && s[i] <= 'f')
}

/// Writes random bytes as a secret.
pub fn secret_of(bytes: &[u8]) -> (r: String)
    ensures
        r@ == hex_text(bytes@),
        r@.len() == 2 * bytes@.len(),
        hex_digits(r@),
{
    hex(bytes)
}

/// Makes the secret of a session: 64 random hexadecimal digits, none where the system has
/// no random source.
pub fn generate_control_secret() -> (r: Option<String>)
    ensures
        r matches Some(s) ==> s@.len() == 64 && hex_digits(s@),
{
    match random_bytes(32) {
        Some(bytes) => Some(secret_of(bytes.as_slice())),
        None => None,
    }
}

/// The query of the address that is opened.
pub open spec fn entry_query(h264: bool, secret: Seq<char>) -> Seq<char> {
    if h264 {
        "display=h264&hbk="@ + secret
    } else {
        "hbk="@ + secret
    }
}

/// The address that is opened: the page, the display, and the secret that lets one visit in.
pub fn entry_url(base: &str, h264: bool, secret: &str) -> (r: String)
    ensures
        r@ == base@ + "/?"@ + entry_query(h264, secret@),
{
    let mut url = base.to_owned();
    url.append("/?");
    if h264 {
        url.append("display=h264&hbk=");
    } else {
        url.append("hbk=");
    }
    url.append(secret);
    assert(url@ =~= base@ + "/?"@ + entry_query(h264, secret@));
    url
}

/// The address of a page check.
pub fn page_url(base: &str, secret: &str) -> (r: String)
    ensures
        r@ == base@ + "/?hbk="@ + secret@,
{
    let mut url = base.to_owned();
    url.append("/?hbk=");
    url.append(secret);
    url
}

/// The WebSocket address under which the proxy answers: the scheme in place of the first
/// `http`.
pub open spec fn ws_address(base: Seq<char>) -> Seq<char> {
    let k = first_occurrence(base, "http"@, 0);
    if k >= 0 {
        base.take(k) + "ws"@ + base.skip(k + "http"@.len())
    } else {
        base
    }
}

/// The address of a stream.
pub fn channel_url(base: &str, channel: &str) -> (r: String)
    ensures
        r@ == ws_address(base@) + "/hellbox/"@ + channel@,
{
    let mut url: String;
    match find(base, "http") {
        Some(k) => {
            let n: usize = base.unicode_len();
            proof {
                reveal_strlit("http");
                assert("http"@.len() == 4);
                assert(base@.subrange(0, k as int) =~= base@.take(k as int));
                assert(base@.subrange(k + 4, n as int) =~= base@.skip(k + 4));
            }
            url = base.substring_char(0, k).to_owned();
            url.append("ws");
            url.append(base.substring_char(k + 4, n));
        },
        None => {
            url = base.to_owned();
        },
    }
    url.append("/hellbox/");
    url.append(channel);
    url
}

/// What follows an attempt to reach something.
#[derive(Clone, Copy, PartialEq, Eq, Structural, Debug)]
pub enum ProbeStep {
    Passed,
    /// Try again after so many seconds.
    Retry { delay: u64 },
    Failed,
}

/// The seconds to wait before an attempt: none before the first, then twice as long each
/// time, up to eight.
pub open spec fn backoff_before(attempt: int) -> u64 {
    if attempt <= 0 {
        0
    } else if attempt == 1 {
        2
    } else if attempt == 2 {
        4
    } else {
        8
    }
}

/// What follows attempt number `attempt` out of `limit`.
pub open spec fn probe_verdict(attempt: u32, limit: u32, reached: bool) -> ProbeStep {
    if reached {
        ProbeStep::Passed
    } else if attempt + 1 < limit {
        ProbeStep::Retry { delay: backoff_before(attempt + 1) }
    } else {
        ProbeStep::Failed
    }
}

/// The number of attempts to get the page.
pub const PAGE_ATTEMPTS: u32 = 5;

/// The number of attempts to open a stream.
pub const CHANNEL_ATTEMPTS: u32 = 6;

/// What follows an attempt; the first has number 0.
pub fn probe_step(attempt: u32, limit: u32, reached: bool) -> (r: ProbeStep)
    ensures
        r == probe_verdict(attempt, limit, reached),
{
    if reached {
        return ProbeStep::Passed;
    }
    if limit == 0 || attempt >= limit - 1 {
        return ProbeStep::Failed;
    }
    let next: u32 = attempt + 1;
    let shift: u32 = if next < 3 {
        next
    } else {
        3
    };
    assert(1u64 << 1u32 == 2 && 1u64 << 2u32 == 4 && 1u64 << 3u32 == 8) by (bit_vector);
    ProbeStep::Retry { delay: 1u64 << shift }
}

/// What a check of the whole chain found.
#[derive(Clone, Copy, PartialEq, Eq, Structural, Debug)]
pub struct Checked {
    pub page: bool,
    pub video: bool,
    pub audio: bool,
    pub input: bool,
}

/// The names of what did not answer.
pub open spec fn silent(c: Checked) -> Seq<Seq<char>> {
    let page = if c.page {
        Seq::empty()
    } else {
        seq!["page"@]
    };
    let video = if c.video {
        Seq::empty()
    } else {
        seq!["video"@]
    };
    let audio = if c.audio {
        Seq::empty()
    } else {
        seq!["audio"@]
    };
    let input = if c.input {
        Seq::empty()
    } else {
        seq!["input"@]
    };
    page + video + audio + input
}

/// Whether everything answered.
pub open spec fn all_answer(c: Checked) -> bool {
    c.page && c.video && c.audio && c.input
}

/// The names of what did not answer.
pub fn failures(c: Checked) -> (r: Vec<&'static str>)
    ensures
        texts(r@) == silent(c),
{
    let mut r: Vec<&'static str> = Vec::new();
    if !c.page {
        r.push("page");
    }
    if !c.video {
        r.push("video");
    }
    if !c.audio {
        r.push("audio");
    }
    if !c.input {
        r.push("input");
    }
    assert(texts(r@) =~= silent(c));
    r
}

/// What is said of a check: an error where something is silent and everything was asked for.
pub open spec fn check_verdict(c: Checked, strict: bool) -> Result<Seq<char>, Seq<char>> {
    let what = joined(silent(c), ", "@);
    if all_answer(c) {
        Ok("verified: page ✓  video ✓  audio ✓  input ✓"@)
    } else if strict {
        Err(
            "end-to-end verification failed ("@ + what
                + ") — the capsule is up but those channels are not answering; try `hellbox suspend` + `hellbox resume`, or rebuild with `hellbox rm` + `hellbox deploy`"@,
        )
    } else {
        Ok("warning: "@ + what
            + " not answering yet — the page may still recover once loaded"@)
    }
}

/// What is said of a check.
pub fn check_outcome(c: Checked, strict: bool) -> (r: Result<String, String>)
    ensures
        match check_verdict(c, strict) {
            Ok(s) => r matches Ok(t) && t@ == s,
            Err(e) => r matches Err(t) && t@ == e,
        },
{
    if c.page && c.video && c.audio && c.input {
        return Ok("verified: page ✓  video ✓  audio ✓  input ✓".to_owned());
    }
    let names = failures(c);
    let what = join(&names, ", ");
    if strict {
        let mut e = "end-to-end verification failed (".to_owned();
        e.append(what.as_str());
        e.append(
            ") — the capsule is up but those channels are not answering; try `hellbox suspend` + `hellbox resume`, or rebuild with `hellbox rm` + `hellbox deploy`",
        );
        Err(e)
    } else {
        let mut s = "warning: ".to_owned();
        s.append(what.as_str());
        s.append(" not answering yet — the page may still recover once loaded");
        Ok(s)
    }
}

/// The seconds between two looks at a session.
pub const IDLE_TICK_SECONDS: u64 = 15;

/// A watch over a session: how long nobody has been connected, once anybody was.
#[derive(Clone, Copy, PartialEq, Eq, Structural, Debug)]
pub struct IdleWatch {
    pub idle_for: u128,
    pub ever_connected: bool,
}

/// The watch after a look at the number of open streams.
pub open spec fn watch_after(w: IdleWatch, active: usize, minutes: u64) -> IdleWatch {
    if active > 0 {
        IdleWatch { idle_for: 0, ever_connected: true }
    } else if w.ever_connected && w.idle_for < minutes * 60 {
        IdleWatch { idle_for: (w.idle_for + IDLE_TICK_SECONDS) as u128, ..w }
    } else {
        w
    }
}

/// Whether a session has been idle for so many minutes.
pub open spec fn idle_out(w: IdleWatch, active: usize, minutes: u64) -> bool {
    active == 0 && w.ever_connected && watch_after(w, active, minutes).idle_for >= minutes * 60
}

impl IdleWatch {
    /// Nobody was connected yet.
    pub fn new() -> (r: IdleWatch)
        ensures
            r == (IdleWatch { idle_for: 0, ever_connected: false }),
    {
        IdleWatch { idle_for: 0, ever_connected: false }
    }

    /// Looks at the number of open streams, one tick after the last look. True when the
    /// session has been idle for so many minutes.
    pub fn tick(&mut self, active: usize, minutes: u64) -> (r: bool)
        ensures
            *final(self) == watch_after(*old(self), active, minutes),
            r == idle_out(*old(self), active, minutes),
    {
        let limit: u128 = minutes as u128 * 60;
        if active > 0 {
            self.ever_connected = true;
            self.idle_for = 0;
            false
        } else if self.ever_connected {
            if self.idle_for < limit {
                self.idle_for = self.idle_for + IDLE_TICK_SECONDS as u128;
            }
            self.idle_for >= limit
        } else {
            false
        }
    }
}

/// The origin of an address: what precedes its query, so that the secret stays out of logs.
pub open spec fn bare_origin(url: Seq<char>) -> Seq<char> {
    let k = first_occurrence(url, "/?"@, 0);
    if k >= 0 {
        url.take(k)
    } else {
        url
    }
}

/// The origin of an address.
pub fn origin_of(url: &str) -> (r: String)
    ensures
        r@ == bare_origin(url@),
{
    match find(url, "/?") {
        Some(k) => {
            assert(url@.subrange(0, k as int) =~= url@.take(k as int));
            url.substring_char(0, k).to_owned()
        },
        None => url.to_owned(),
    }
}

proof fn lemma_token_pair(secret: Seq<char>)
    ensures
        split_first("hbk="@ + secret, '=') == Some(("hbk"@, secret)),
{
    reveal_strlit("hbk=");
    reveal_strlit("hbk");
    let p = "hbk="@ + secret;
    lemma_until(p, '=', 3);
    assert(p.take(3) =~= "hbk"@);
    assert(p.skip(4) =~= secret);
}

proof fn lemma_whole(s: Seq<char>, c: char)
    requires
        !s.contains(c),
    ensures
        split_on(s, c) == seq![s],
{
    lemma_until_free(s, c);
    assert forall|j: int| 0 <= j < s.len() implies s[j] != c by {
        assert(s.contains(s[j]));
    }
    lemma_until(s, c, s.len() as int);
}

/// The address that is opened lets the visit in: its query carries the secret, whichever
/// display it asks for.
pub proof fn law_entry_address_opens(h264: bool, secret: Seq<char>)
    requires
        !secret.contains('&'),
    ensures
        entry_token(Some(entry_query(h264, secret)), secret),
{
    reveal_strlit("hbk=");
    reveal_strlit("display=h264&hbk=");
    let q = entry_query(h264, secret);
    let pair = "hbk="@ + secret;
    assert(!pair.contains('&')) by {
        if pair.contains('&') {
            let j = choose|j: int| 0 <= j < pair.len() && pair[j] == '&';
            if j >= 4 {
                assert(secret[j - 4] == '&');
            }
        }
    }
    lemma_whole(pair, '&');
    lemma_token_pair(secret);
    if h264 {
        lemma_until(q, '&', 12);
        assert(q.skip(13) =~= pair);
        assert(split_on(q, '&') == seq![q.take(12)] + split_on(pair, '&'));
        assert(split_on(q, '&')[1] == pair);
    } else {
        assert(split_on(q, '&')[0] == pair);
    }
}

/// A secret that was made is one that the address can carry.
pub proof fn law_secrets_fit_addresses(secret: Seq<char>)
    requires
        hex_digits(secret),
    ensures
        !secret.contains('&'),
{
    if secret.contains('&') {
        let j = choose|j: int| 0 <= j < secret.len() && secret[j] == '&';
        assert('0' <= secret[j]);
    }
}

/// The visit that follows the address passes, once: the secret is used up by it.
pub proof fn law_first_visit_passes(req: RequestHead, ctrl: ProxyControl, h264: bool, now: u128)
    requires
        !ctrl.entry_token_used,
        now <= ctrl.entry_token_deadline,
        !ctrl.control_secret@.contains('&'),
        req.method@ == "GET"@,
        req.path@ == "/"@,
        opt_text(req.query) == Some(entry_query(h264, ctrl.control_secret@)),
        loopback_fields(header_values(req.headers)),
        top_level_navigation(header_values(req.headers)),
        !in_session(header_values(req.headers), ctrl.control_secret@),
    ensures
        verdict(req, ctrl, now) is None,
        control_after(req, ctrl, now).entry_token_used,
{
    law_entry_address_opens(h264, ctrl.control_secret@);
}

/// The secret is in no origin: where the address up to its query holds no query mark, the
/// origin is exactly that part.
pub proof fn law_origin_hides_the_secret(base: Seq<char>, h264: bool, secret: Seq<char>)
    requires
        !base.contains('?'),
    ensures
        bare_origin(base + "/?"@ + entry_query(h264, secret)) == base,
{
    reveal_strlit("/?");
    let url = base + "/?"@ + entry_query(h264, secret);
    assert("/?"@ =~= seq!['/', '?']);
    assert forall|j: int| 0 <= j < base.len() implies url[j] != '?' by {
        assert(base.contains(base[j]));
    }
    lemma_first_mark(url, base.len() as int, 0);
    assert(url.take(base.len() as int) =~= base);
}

proof fn lemma_first_mark(url: Seq<char>, n: int, k: int)
    requires
        0 <= k <= n,
        n + 2 <= url.len(),
        "/?"@ == seq!['/', '?'],
        url[n] == '/',
        url[n + 1] == '?',
        forall|j: int| 0 <= j < n ==> url[j] != '?',
    ensures
        first_occurrence(url, "/?"@, k) == n,
    decreases n - k,
{
    if k == n {
        assert(url.subrange(n, n + 2) =~= "/?"@);
    } else {
        if occurs_at(url, "/?"@, k) {
            assert(url.subrange(k, k + 2)[1] == '?');
            assert(url[k + 1] == '?');
        }
        lemma_first_mark(url, n, k + 1);
    }
}

/// A session is never suspended while anybody is connected, nor before anybody was.
pub proof fn law_no_suspend_in_use(w: IdleWatch, active: usize, minutes: u64)
    requires
        active > 0 || !w.ever_connected,
    ensures
        !idle_out(w, active, minutes),
        active > 0 ==> watch_after(w, active, minutes).idle_for == 0,
{
}

/// The watch after so many looks at an idle session.
pub open spec fn watch_idle(w: IdleWatch, looks: nat, minutes: u64) -> IdleWatch
    decreases looks,
{
    if looks == 0 {
        w
    } else {
        watch_after(watch_idle(w, (looks - 1) as nat, minutes), 0, minutes)
    }
}

/// Once the last stream closes, a session is suspended after as many looks as fill the idle
/// time, and not before.
pub proof fn law_suspends_in_time(looks: nat, minutes: u64)
    requires
        minutes > 0,
        looks > 0,
    ensures
        idle_out(
            watch_idle(
                IdleWatch { idle_for: 0, ever_connected: true },
                (looks - 1) as nat,
                minutes,
            ),
            0,
            minutes,
        ) <==> looks * IDLE_TICK_SECONDS >= minutes * 60,
{
    let start = IdleWatch { idle_for: 0, ever_connected: true };
    lemma_idle_time(start, (looks - 1) as nat, minutes);
}

proof fn lemma_idle_time(w: IdleWatch, looks: nat, minutes: u64)
    requires
        w == (IdleWatch { idle_for: 0, ever_connected: true }),
    ensures
        ({
            let now = watch_idle(w, looks, minutes);
            &&& now.ever_connected
            &&& looks * IDLE_TICK_SECONDS < minutes * 60 ==> now.idle_for == looks
                * IDLE_TICK_SECONDS
            &&& looks * IDLE_TICK_SECONDS >= minutes * 60 ==> now.idle_for >= minutes * 60
        }),
    decreases looks,
{
    if looks > 0 {
        lemma_idle_time(w, (looks - 1) as nat, minutes);
    }
}

/// A check passes without a word of warning exactly where everything answers, and strictness
/// makes a difference only where something is silent.
pub proof fn law_strict_checks(c: Checked)
    ensures
        check_verdict(c, true) is Ok <==> all_answer(c),
        check_verdict(c, false) is Ok,
        all_answer(c) ==> check_verdict(c, true) == check_verdict(c, false),
{
}

/// Trying comes to an end: there is another attempt only while any are left, and the waits
/// between them never exceed eight seconds.
pub proof fn law_probes_end(attempt: u32, limit: u32, reached: bool)
    ensures
        probe_verdict(attempt, limit, reached) matches ProbeStep::Retry { delay } ==> !reached
            && attempt + 1 < limit && 2 <= delay <= 8,
        probe_verdict(attempt, limit, reached) == ProbeStep::Passed <==> reached,
{
}

/// The routes of a session send each stream to its port, under both names and whatever
/// follows, and everything else to the display.
pub proof fn law_streams_have_their_ports(
    routes: Seq<(String, i32)>,
    display: i32,
    audio: i32,
    video: i32,
    input: i32,
    path: Seq<char>,
)
    requires
        route_texts(routes) == session_routes(audio, video, input),
    ensures
        ({
            let port = routed_port(routes, display, path);
            let to_audio = has_prefix(path, "/hellbox/audio"@) || has_prefix(path, "/ldoom/audio"@);
            let to_video = has_prefix(path, "/hellbox/video"@) || has_prefix(path, "/ldoom/video"@);
            let to_input = has_prefix(path, "/hellbox/input"@) || has_prefix(path, "/ldoom/input"@);
            &&& to_audio ==> port == audio
            &&& to_video ==> port == video
            &&& to_input ==> port == input
            &&& !to_audio && !to_video && !to_input ==> port == display
        }),
{
    reveal_strlit("/hellbox/audio");
    reveal_strlit("/hellbox/video");
    reveal_strlit("/hellbox/input");
    reveal_strlit("/ldoom/audio");
    reveal_strlit("/ldoom/video");
    reveal_strlit("/ldoom/input");
    let want = session_routes(audio, video, input);
    assert(want.len() == 6);
    assert(route_texts(routes).len() == routes.len());
    assert forall|k: int| 0 <= k < 6 implies #[trigger] routes[k].0@ == want[k].0 && routes[k].1
        == want[k].1 by {
        assert(route_texts(routes)[k] == want[k]);
    }
    lemma_prefix_char(path, "/hellbox/audio"@, 9);
    lemma_prefix_char(path, "/hellbox/video"@, 9);
    lemma_prefix_char(path, "/hellbox/input"@, 9);
    lemma_prefix_char(path, "/hellbox/audio"@, 1);
    lemma_prefix_char(path, "/hellbox/video"@, 1);
    lemma_prefix_char(path, "/hellbox/input"@, 1);
    lemma_prefix_char(path, "/ldoom/audio"@, 1);
    lemma_prefix_char(path, "/ldoom/video"@, 1);
    lemma_prefix_char(path, "/ldoom/input"@, 1);
    lemma_prefix_char(path, "/ldoom/audio"@, 7);
    lemma_prefix_char(path, "/ldoom/video"@, 7);
    lemma_prefix_char(path, "/ldoom/input"@, 7);
    assert(routes.skip(1).skip(1) =~= routes.skip(2));
    assert(routes.skip(2).skip(1) =~= routes.skip(3));
    assert(routes.skip(3).skip(1) =~= routes.skip(4));
    assert(routes.skip(4).skip(1) =~= routes.skip(5));
    assert(routes.skip(5).skip(1).len() == 0);
    reveal_with_fuel(routed_port, 7);
}

proof fn lemma_prefix_char(s: Seq<char>, p: Seq<char>, k: int)
    requires
        0 <= k < p.len(),
    ensures
        has_prefix(s, p) ==> s[k] == p[k],
{
    if has_prefix(s, p) {
        assert(s.take(p.len() as int)[k] == s[k]);
    }
}

/// Every stream of a session gets through: a request of this machine with the session cookie
/// for a path that a route leads on, or anything behind it, is never turned away.
pub proof fn law_streams_get_through(
    req: RequestHead,
    ctrl: ProxyControl,
    now: u128,
    audio: i32,
    video: i32,
    input: i32,
    k: int,
)
    requires
        0 <= k < session_routes(audio, video, input).len(),
        has_prefix(req.path@, session_routes(audio, video, input)[k].0),
        loopback_fields(header_values(req.headers)),
        in_session(header_values(req.headers), ctrl.control_secret@),
    ensures
        verdict(req, ctrl, now) is None,
{
}

/// The three streams, under both of their names and with whatever follows, are paths that a
/// session lets pass.
pub proof fn law_stream_names_get_through(
    req: RequestHead,
    ctrl: ProxyControl,
    now: u128,
    name: Seq<char>,
    rest: Seq<char>,
)
    requires
        name == "/hellbox/audio"@ || name == "/hellbox/video"@ || name == "/hellbox/input"@ || name
            == "/ldoom/audio"@ || name == "/ldoom/video"@ || name == "/ldoom/input"@,
        req.path@ == name + rest,
        loopback_fields(header_values(req.headers)),
        in_session(header_values(req.headers), ctrl.control_secret@),
    ensures
        verdict(req, ctrl, now) is None,
{
    assert((name + rest).take(name.len() as int) =~= name);
}

/// The address that is opened names the display exactly as the settings choose it, and lets in
/// with the secret in it and no other.
pub proof fn law_one_address_one_secret(h264: bool, secret: Seq<char>, other: Seq<char>)
    requires
        !secret.contains('&'),
    ensures
        entry_token(Some(entry_query(h264, secret)), other) <==> other == secret,
        has_prefix(entry_query(h264, secret), "display=h264&"@) <==> h264,
{
    reveal_strlit("hbk=");
    reveal_strlit("hbk");
    reveal_strlit("display=h264&hbk=");
    reveal_strlit("display=h264&");
    law_entry_address_opens(h264, secret);
    let q = entry_query(h264, secret);
    let pair = "hbk="@ + secret;
    assert(!pair.contains('&')) by {
        if pair.contains('&') {
            let j = choose|j: int| 0 <= j < pair.len() && pair[j] == '&';
            if j >= 4 {
                assert(secret[j - 4] == '&');
            }
        }
    }
    lemma_whole(pair, '&');
    lemma_token_pair(secret);
    if h264 {
        lemma_until(q, '&', 12);
        assert(q.skip(13) =~= pair);
        assert(split_on(q, '&') == seq![q.take(12)] + split_on(pair, '&'));
        let head = q.take(12);
        lemma_until(head, '=', 7);
        assert(head.take(7)[0] == 'd');
        assert(split_on(q, '&')[0] == head && split_on(q, '&')[1] == pair);
        assert(split_on(q, '&').len() == 2);
        assert(q.take(13) =~= "display=h264&"@);
    } else {
        assert(q == pair);
        assert(split_on(q, '&')[0] == pair);
        if has_prefix(q, "display=h264&"@) {
            assert(q.take(13)[0] == 'h');
        }
    }
}

proof fn lemma_digit_char(x: int, y: int)
    requires
        0 <= x < 16,
        0 <= y < 16,
        digit_char(x) == digit_char(y),
    ensures
        x == y,
{
}

/// Different random bytes make different secrets.
pub proof fn law_secrets_differ(a: Seq<u8>, b: Seq<u8>)
    requires
        hex_text(a) == hex_text(b),
    ensures
        a == b,
{
    assert(hex_text(a).len() == 2 * a.len());
    assert(hex_text(b).len() == 2 * b.len());
    assert(a.len() == b.len());
    assert forall|i: int| 0 <= i < a.len() implies a[i] == b[i] by {
        assert(hex_text(a)[2 * i] == hex_text(b)[2 * i]);
        assert(hex_text(a)[2 * i + 1] == hex_text(b)[2 * i + 1]);
        assert((2 * i) / 2 == i && (2 * i + 1) / 2 == i);
        assert((2 * i) % 2 == 0 && (2 * i + 1) % 2 == 1);
        let j = 2 * i;
        let k = 2 * i + 1;
        assert(0 <= j < hex_text(a).len() && 0 <= k < hex_text(a).len());
        assert(hex_text(a)[j] == digit_char(a[i] as int / 16));
        assert(hex_text(b)[j] == digit_char(b[i] as int / 16));
        assert(hex_text(a)[k] == digit_char(a[i] as int % 16));
        assert(hex_text(b)[k] == digit_char(b[i] as int % 16));
        lemma_digit_char(a[i] as int / 16, b[i] as int / 16);
        lemma_digit_char(a[i] as int % 16, b[i] as int % 16);
        assert(a[i] as int == (a[i] as int / 16) * 16 + a[i] as int % 16);
        assert(b[i] as int == (b[i] as int / 16) * 16 + b[i] as int % 16);
    }
    assert(a =~= b);
}

/// The secret in an address is good for two minutes from the start, or to the end of time
/// where that comes first.
pub proof fn law_entry_lasts_two_minutes(now: u128)
    ensures
        now + 120_000_000_000 <= u128::MAX ==> entry_deadline(now) == now + 120_000_000_000,
        now + 120_000_000_000 > u128::MAX ==> entry_deadline(now) == u128::MAX,
        now <= entry_deadline(now),
{
}

/// The streams are checked under the proxy's own address, with the scheme of WebSockets in
/// place of that of the page.
pub proof fn law_streams_are_under_the_page(rest: Seq<char>)
    ensures
        ws_address("http"@ + rest) == "ws"@ + rest,
{
    reveal_strlit("http");
    let base = "http"@ + rest;
    assert(base.subrange(0, 4) =~= "http"@);
    assert(occurs_at(base, "http"@, 0));
    assert(base.take(0) =~= Seq::<char>::empty());
    assert(base.skip(4) =~= rest);
    assert(ws_address(base) =~= "ws"@ + rest);
}

/// Something is tried until it answers or the attempts are used up, with waits of two, four
/// and then always eight seconds between them.
pub proof fn law_probes_are_repeated(attempt: u32, limit: u32)
    ensures
        probe_verdict(attempt, limit, true) == ProbeStep::Passed,
        attempt + 1 >= limit ==> probe_verdict(attempt, limit, false) == ProbeStep::Failed,
        attempt + 1 < limit ==> (probe_verdict(attempt, limit, false) matches ProbeStep::Retry {
            delay,
        } && delay == (if attempt == 0 {
            2u64
        } else if attempt == 1 {
            4u64
        } else {
            8u64
        })),
{
}

/// A check names exactly what did not answer, and what is said of it names them all.
pub proof fn law_silence_is_named(c: Checked)
    ensures
        silent(c).contains("page"@) <==> !c.page,
        silent(c).contains("video"@) <==> !c.video,
        silent(c).contains("audio"@) <==> !c.audio,
        silent(c).contains("input"@) <==> !c.input,
        all_answer(c) <==> silent(c).len() == 0,
        !all_answer(c) ==> (check_verdict(c, true) matches Err(text) && contains_text(
            text,
            joined(silent(c), ", "@),
        )),
        !all_answer(c) ==> (check_verdict(c, false) matches Ok(text) && contains_text(
            text,
            joined(silent(c), ", "@),
        )),
{
    reveal_strlit("page");
    reveal_strlit("video");
    reveal_strlit("audio");
    reveal_strlit("input");
    assert("page"@.len() == 4 && "video"@[0] == 'v' && "audio"@[0] == 'a' && "input"@[0] == 'i');
    let s = silent(c);
    let p: int = if c.page { 0 } else { 1 };
    let v: int = if c.video { 0 } else { 1 };
    let a: int = if c.audio { 0 } else { 1 };
    if !c.page {
        assert(s[0] == "page"@);
    }
    if !c.video {
        assert(s[p] == "video"@);
    }
    if !c.audio {
        assert(s[p + v] == "audio"@);
    }
    if !c.input {
        assert(s[p + v + a] == "input"@);
    }
    let what = joined(s, ", "@);
    if !all_answer(c) {
        let e = check_verdict(c, true)->Err_0;
        let h = "end-to-end verification failed ("@.len() as int;
        assert(e.subrange(h, h + what.len()) =~= what);
        assert(occurs_at(e, what, h));
        let o = check_verdict(c, false)->Ok_0;
        let w = "warning: "@.len() as int;
        assert(o.subrange(w, w + what.len()) =~= what);
        assert(occurs_at(o, what, w));
    }
}

/// A stream that opens is noticed at once and forgets the idle time; while nobody is connected
/// the idle time grows by the time between two looks until it is long enough; and that anybody
/// was connected is never forgotten.
pub proof fn law_watch_keeps_count(w: IdleWatch, active: usize, minutes: u64)
    ensures
        ({
            let after = watch_after(w, active, minutes);
            &&& active > 0 ==> after.ever_connected && after.idle_for == 0
            &&& w.ever_connected ==> after.ever_connected
            &&& active == 0 && !w.ever_connected ==> after == w
            &&& active == 0 && w.ever_connected && w.idle_for < minutes * 60 ==> after.idle_for
                == w.idle_for + 15
            &&& active == 0 && w.idle_for >= minutes * 60 ==> after == w
            &&& idle_out(w, active, minutes) <==> active == 0 && w.ever_connected
                && after.idle_for >= minutes * 60
        }),
{
}

/// A byte is written as the two digits of its value.
pub proof fn law_secrets_are_hexadecimal(bytes: Seq<u8>, i: int)
    requires
        0 <= i < bytes.len(),
    ensures
        hex_text(bytes).len() == 2 * bytes.len(),
        ({
            let high = hex_value(hex_text(bytes)[2 * i]);
            let low = hex_value(hex_text(bytes)[2 * i + 1]);
            high is Some && low is Some && high->0 * 16 + low->0 == bytes[i]
        }),
{
    let j = 2 * i;
    let k = 2 * i + 1;
    assert(j / 2 == i && k / 2 == i && j % 2 == 0 && k % 2 == 1);
    assert(0 <= j < hex_text(bytes).len() && 0 <= k < hex_text(bytes).len());
    assert(hex_text(bytes)[j] == digit_char(bytes[i] as int / 16));
    assert(hex_text(bytes)[k] == digit_char(bytes[i] as int % 16));
    assert(bytes[i] as int == (bytes[i] as int / 16) * 16 + bytes[i] as int % 16);
}

/// A route leads with its own prefix to its own port.
pub proof fn law_routes_keep_their_ports(routes: Seq<(String, i32)>, i: int)
    requires
        0 <= i < routes.len(),
    ensures
        route_texts(routes).len() == routes.len(),
        route_texts(routes)[i].0 == routes[i].0@,
        route_texts(routes)[i].1 == routes[i].1,
{
}

/// An error about a capsule's machine names the capsule, and says what to do about it.
pub proof fn law_missing_machines_are_named(name: Seq<char>)
    ensures
        contains_text(not_running_text(name), "`hellbox up --name "@ + name + "`"@),
        contains_text(no_endpoint_text(name), "capsule '"@ + name + "' has no endpoint yet"@),
{
    reveal_strlit("capsule '");
    reveal_strlit("' isn't running — `hellbox up --name ");
    reveal_strlit("` first");
    reveal_strlit("`hellbox up --name ");
    reveal_strlit("`");
    reveal_strlit("' has no endpoint yet — is it RUNNING?");
    reveal_strlit("' has no endpoint yet");
    let a = not_running_text(name);
    let hint = "`hellbox up --name "@ + name + "`"@;
    let k = 9 + name.len() as int + 18;
    assert(a.subrange(k, k + hint.len()) =~= hint);
    assert(occurs_at(a, hint, k));
    let b = no_endpoint_text(name);
    let said = "capsule '"@ + name + "' has no endpoint yet"@;
    assert(b.subrange(0, said.len() as int) =~= said);
    assert(occurs_at(b, said, 0));
}

/// Where everything answers, this is what is said, and nothing less.
pub proof fn law_success_is_told(c: Checked, strict: bool)
    ensures
        c.page && c.video && c.audio && c.input <==> check_verdict(c, strict) == Ok::<
            Seq<char>,
            Seq<char>,
        >("verified: page ✓  video ✓  audio ✓  input ✓"@),
{
    reveal_strlit("verified: page ✓  video ✓  audio ✓  input ✓");
    reveal_strlit("warning: ");
    let good = "verified: page ✓  video ✓  audio ✓  input ✓"@;
    if !all_answer(c) && !strict {
        let said = check_verdict(c, strict)->Ok_0;
        assert(said[0] == 'w' && good[0] == 'v');
    }
}

/// A capsule can be opened where both its machine and the machine's address are recorded.
pub proof fn law_recorded_machines_open(
    capsule: &Capsule,
    name: &str,
    r: Result<(String, String), String>,
)
    requires
        call_ensures(machine_of, (capsule, name), r),
    ensures
        r is Ok <==> capsule@.microvm_id is Some && capsule@.endpoint is Some,
        r matches Ok((id, host)) ==> capsule@.microvm_id == Some(id@) && capsule@.endpoint == Some(
            host@,
        ),
        r is Err && capsule@.microvm_id is None ==> contains_text(
            r->Err_0@,
            "`hellbox up --name "@ + name@ + "`"@,
        ),
{
    if r is Err && capsule@.microvm_id is None {
        law_missing_machines_are_named(name@);
    }
}

/// A session starts with nobody in it, for the machine, the host and the secret that it was
/// made with, and its address works for two minutes.
pub proof fn law_sessions_start_fresh(
    cfg: &Config,
    name: &str,
    id: &str,
    host: String,
    token: String,
    secret: String,
    now: u128,
    r: ProxyConfig,
)
    requires
        call_ensures(session, (cfg, name, id, host, token, secret, now), r),
        now + 120_000_000_000 <= u128::MAX,
    ensures
        r.upstream.host_text() == host@ && r.upstream.token_text() == token@,
        r.upstream_port == cfg.port,
        r.control is Some && r.activity is Some,
        r.control->0.microvm_id@ == id@ && r.control->0.name@ == name@,
        r.control->0.control_secret@ == secret@,
        !r.control->0.entry_token_used,
        r.control->0.entry_token_deadline == now + 120_000_000_000,
        r.control->0.token_ports@.contains(cfg.port),
        r.control->0.token_ports@.contains(cfg.audio_port),
        r.control->0.token_ports@.contains(cfg.video_port),
        r.control->0.token_ports@.contains(cfg.input_port),
        r.activity->0.open_sessions() == 0,
{
    let p = r.control->0.token_ports@;
    assert(p[0] == cfg.port && p[1] == cfg.audio_port && p[2] == cfg.video_port && p[3]
        == cfg.input_port);
}

/// A secret that was made up is long and holds hexadecimal digits alone.
pub proof fn law_new_secrets_are_hexadecimal(r: Option<String>, i: int)
    requires
        call_ensures(generate_control_secret, (), r),
        r is Some,
        0 <= i < r->0@.len(),
    ensures
        r->0@.len() == 64,
        hex_value(r->0@[i]) is Some,
{
}

/// What does not answer is an error where all has to answer and a warning where it need not.
pub proof fn law_silence_is_a_warning(c: Checked)
    requires
        !(c.page && c.video && c.audio && c.input),
    ensures
        check_verdict(c, true) is Err,
        check_verdict(c, false) == Ok::<Seq<char>, Seq<char>>(
            "warning: "@ + joined(silent(c), ", "@)
                + " not answering yet — the page may still recover once loaded"@,
        ),
{
}

} // verus!
