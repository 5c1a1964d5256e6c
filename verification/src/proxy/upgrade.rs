//! WebSocket sessions: recognising an upgrade, the handshake with the machine, and the
//! answer to the browser.

use crate::headers::{
    field_bytes, field_text, first_value, header_values, lemma_visible_chars, lemma_with_only_len,
    no_fields, set_field, text_of, values_at, visible_chars, with_only, Put, MAX_NAMES,
};
use crate::number::{decimal, decimal_text};
use crate::proxy::cookie::session_pair;
use crate::proxy::forward::lemma_decimal_plain;
use crate::proxy::gate::in_session;
use crate::proxy::reply::{law_session_cookie_reads_back, lemma_plain, plain, Reply};
use crate::text::{contains, contains_text, is_space, lower, same_ignoring_case, to_lower};
use hyper::HeaderMap;
use tokio_tungstenite::tungstenite::client::IntoClientRequest;
use tokio_tungstenite::tungstenite::handshake::derive_accept_key;
use vstd::prelude::*;
use vstd::utf8::encode_utf8;

verus! {

/// What a server answers to a WebSocket key.
pub uninterp spec fn accept_key(key: Seq<u8>) -> Seq<char>;

/// The host that a handshake for a URL names, none where the URL cannot be used for one.
pub uninterp spec fn client_host(url: Seq<char>) -> Option<Seq<u8>>;

/// Why a handshake with the machine cannot be started.
#[derive(Clone, Copy, PartialEq, Eq, Structural, Debug)]
pub enum WsRequestError {
    BadUrl,
    BadToken,
}

/// How an attempt to connect to the machine went.
#[derive(Clone, Copy, PartialEq, Eq, Structural, Debug)]
pub enum Connected {
    Yes,
    /// An HTTP answer with this status in place of the upgrade.
    Answered(u16),
    No,
}

/// The next step of a handshake.
#[derive(Clone, Copy, PartialEq, Eq, Structural, Debug)]
pub enum WsStep {
    Connect,
    Refresh,
    Reconnect,
    /// Join the two ends.
    Join,
    Fail,
}

/// What the browser asks for with an upgrade.
pub struct Upgrade {
    pub key: Vec<u8>,
    pub subprotocol: Option<Vec<u8>>,
}

/// The first value under a name.
pub open spec fn first_at(m: Map<Seq<char>, Seq<Seq<u8>>>, name: Seq<char>) -> Option<Seq<u8>> {
    if m.dom().contains(name) {
        Some(m[name][0])
    } else {
        None
    }
}

/// The bytes in an option.
pub open spec fn opt_bytes(o: Option<Vec<u8>>) -> Option<Seq<u8>> {
    match o {
        Some(v) => Some(v@),
        None => None,
    }
}

/// A request to go over to the WebSocket protocol.
pub open spec fn asks_upgrade(m: Map<Seq<char>, Seq<Seq<u8>>>) -> bool {
    &&& field_text(m, "connection"@) matches Some(c) && contains_text(lower(c), "upgrade"@)
    &&& field_text(m, "upgrade"@) matches Some(u) && lower(u) == lower("websocket"@)
}

/// The fields that open a handshake with a host, whatever the key.
pub open spec fn handshake_fields(m: Map<Seq<char>, Seq<Seq<u8>>>, host: Seq<u8>) -> bool {
    &&& m.dom() == set![
        "host"@,
        "connection"@,
        "upgrade"@,
        "sec-websocket-version"@,
        "sec-websocket-key"@,
    ]
    &&& m["host"@] == seq![host]
    &&& m["connection"@] == seq![encode_utf8("Upgrade"@)]
    &&& m["upgrade"@] == seq![encode_utf8("websocket"@)]
    &&& m["sec-websocket-version"@] == seq![encode_utf8("13"@)]
    &&& m["sec-websocket-key"@].len() == 1
}

/// Header fields with what admits a handshake to the machine.
pub open spec fn admitted_fields(
    m: Map<Seq<char>, Seq<Seq<u8>>>,
    token: Seq<char>,
    port: int,
    subprotocol: Option<Seq<u8>>,
) -> Map<Seq<char>, Seq<Seq<u8>>> {
    let out = with_only(
        with_only(m, "x-aws-proxy-auth"@, encode_utf8(token)),
        "x-aws-proxy-port"@,
        encode_utf8(decimal_text(port)),
    );
    match subprotocol {
        Some(sp) => with_only(out, "sec-websocket-protocol"@, sp),
        None => out,
    }
}

/// The fields of the answer that ends the browser's handshake.
pub open spec fn switching_fields(key: Seq<u8>, subprotocol: Option<Seq<u8>>) -> Map<
    Seq<char>,
    Seq<Seq<u8>>,
> {
    let out = with_only(
        with_only(
            with_only(Map::empty(), "connection"@, encode_utf8("Upgrade"@)),
            "upgrade"@,
            encode_utf8("websocket"@),
        ),
        "sec-websocket-accept"@,
        encode_utf8(accept_key(key)),
    );
    match subprotocol {
        Some(sp) => with_only(out, "sec-websocket-protocol"@, sp),
        None => out,
    }
}

/// Whether a request asks to go over to the WebSocket protocol.
pub fn is_websocket_upgrade(headers: &HeaderMap) -> (r: bool)
    ensures
        r == asks_upgrade(header_values(*headers)),
{
    proof {
        reveal_strlit("connection");
        reveal_strlit("upgrade");
    }
    let has_upgrade = match text_of(headers, "connection") {
        Some(c) => {
            let lowered = to_lower(c.as_str());
            contains(lowered.as_str(), "upgrade")
        },
        None => false,
    };
    let is_ws = match text_of(headers, "upgrade") {
        Some(u) => same_ignoring_case(u.as_str(), "websocket"),
        None => false,
    };
    has_upgrade && is_ws
}

/// Reads what the browser asks for, none where it sent no key.
pub fn read_upgrade(headers: &HeaderMap) -> (r: Option<Upgrade>)
    ensures
        ({
            let m = header_values(*headers);
            match r {
                Some(u) => {
                    &&& first_at(m, "sec-websocket-key"@) == Some(u.key@)
                    &&& opt_bytes(u.subprotocol) == first_at(m, "sec-websocket-protocol"@)
                    &&& u.subprotocol matches Some(sp) ==> field_bytes(sp@)
                },
                None => !m.dom().contains("sec-websocket-key"@),
            }
        }),
{
    proof {
        reveal_strlit("sec-websocket-key");
        reveal_strlit("sec-websocket-protocol");
        assert(lower("sec-websocket-key"@) =~= "sec-websocket-key"@);
        assert(lower("sec-websocket-protocol"@) =~= "sec-websocket-protocol"@);
    }
    match first_value(headers, "sec-websocket-key") {
        Some(key) => Some(
            Upgrade { key, subprotocol: first_value(headers, "sec-websocket-protocol") },
        ),
        None => None,
    }
}

/// Calls `derive_accept_key` of `tungstenite`, which hashes the key and writes the hash in
/// base 64: a function of the key, in printable characters.
#[verifier::external_body]
fn accept_for(key: &[u8]) -> (r: String)
    ensures
        r@ == accept_key(key@),
        plain(r@),
{
    derive_accept_key(key)
}

/// Calls `into_client_request` of `tungstenite` and gives the header fields of the request:
/// the host that the URL names, the fixed fields of a handshake, and a fresh key. Nothing
/// is claimed of the key, which is random. Whether a URL is accepted, and the host it
/// names, is a function of the URL.
#[verifier::external_body]
fn client_request(url: &str) -> (r: Option<HeaderMap>)
    ensures
        match r {
            Some(h) => client_host(url@) is Some && handshake_fields(
                header_values(h),
                client_host(url@)->0,
            ),
            None => client_host(url@) is None,
        },
{
    url.into_client_request().ok().map(|req| req.headers().clone())
}

/// Puts into a handshake's fields what admits it to the machine. Where the token cannot
/// stand in a header field, nothing is changed and the answer is no.
pub fn authorize(
    headers: &mut HeaderMap,
    token: &str,
    port: i32,
    subprotocol: &Option<Vec<u8>>,
) -> (ok: bool)
    requires
        header_values(*old(headers)).dom().finite(),
        header_values(*old(headers)).dom().len() + 2 <= MAX_NAMES,
        subprotocol matches Some(sp) ==> field_bytes(sp@),
    ensures
        ok == field_bytes(encode_utf8(token@)),
        ok ==> header_values(*final(headers)) == admitted_fields(
            header_values(*old(headers)),
            token@,
            port as int,
            opt_bytes(*subprotocol),
        ),
        !ok ==> header_values(*final(headers)) == header_values(*old(headers)),
{
    let port_text = decimal(port);
    proof {
        reveal_strlit("x-aws-proxy-auth");
        reveal_strlit("x-aws-proxy-port");
        reveal_strlit("sec-websocket-protocol");
        assert(lower("x-aws-proxy-auth"@) =~= "x-aws-proxy-auth"@);
        assert(lower("x-aws-proxy-port"@) =~= "x-aws-proxy-port"@);
        assert(lower("sec-websocket-protocol"@) =~= "sec-websocket-protocol"@);
        lemma_decimal_plain(port as int);
        lemma_plain(port_text@);
        let m0 = header_values(*headers);
        let m1 = with_only(m0, "x-aws-proxy-auth"@, encode_utf8(token@));
        lemma_with_only_len(m0, "x-aws-proxy-auth"@, encode_utf8(token@));
        lemma_with_only_len(m1, "x-aws-proxy-port"@, encode_utf8(port_text@));
    }
    if set_field(headers, "x-aws-proxy-auth", token.as_bytes()) != Put::Done {
        return false;
    }
    set_field(headers, "x-aws-proxy-port", port_text.as_str().as_bytes());
    match subprotocol {
        Some(sp) => {
            set_field(headers, "sec-websocket-protocol", sp.as_slice());
        },
        None => {},
    }
    true
}

/// A handshake has five names at most.
proof fn lemma_handshake_len(m: Map<Seq<char>, Seq<Seq<u8>>>, host: Seq<u8>)
    requires
        handshake_fields(m, host),
    ensures
        m.dom().finite(),
        m.dom().len() <= 5,
{
    let names = seq![
        "host"@,
        "connection"@,
        "upgrade"@,
        "sec-websocket-version"@,
        "sec-websocket-key"@,
    ];
    assert(m.dom() =~= names.to_set()) by {
        assert(names[0] == "host"@ && names[1] == "connection"@ && names[2] == "upgrade"@
            && names[3] == "sec-websocket-version"@ && names[4] == "sec-websocket-key"@);
    }
    vstd::seq_lib::seq_to_set_is_finite(names);
    names.lemma_cardinality_of_set();
}

/// A handshake's fields with the session cookie, where the secret can stand in one.
pub open spec fn probe_fields(m: Map<Seq<char>, Seq<Seq<u8>>>, secret: Seq<char>) -> Map<
    Seq<char>,
    Seq<Seq<u8>>,
> {
    if field_bytes(encode_utf8("hellbox_control="@ + secret)) {
        with_only(m, "cookie"@, encode_utf8("hellbox_control="@ + secret))
    } else {
        m
    }
}

/// The header fields of a handshake with the machine.
pub fn build_ws_request(
    url: &str,
    token: &str,
    port: i32,
    subprotocol: &Option<Vec<u8>>,
) -> (r: Result<HeaderMap, WsRequestError>)
    requires
        subprotocol matches Some(sp) ==> field_bytes(sp@),
    ensures
        match r {
            Ok(h) => {
                &&& client_host(url@) is Some
                &&& field_bytes(encode_utf8(token@))
                &&& exists|m: Map<Seq<char>, Seq<Seq<u8>>>| #[trigger]
                    handshake_fields(m, client_host(url@)->0) && header_values(h)
                        == admitted_fields(m, token@, port as int, opt_bytes(*subprotocol))
            },
            Err(WsRequestError::BadUrl) => client_host(url@) is None,
            Err(WsRequestError::BadToken) => client_host(url@) is Some && !field_bytes(
                encode_utf8(token@),
            ),
        },
{
    match client_request(url) {
        None => Err(WsRequestError::BadUrl),
        Some(mut headers) => {
            let ghost m = header_values(headers);
            proof {
                lemma_handshake_len(m, client_host(url@)->0);
            }
            if authorize(&mut headers, token, port, subprotocol) {
                Ok(headers)
            } else {
                Err(WsRequestError::BadToken)
            }
        },
    }
}

/// The header fields of a handshake with the proxy itself, that checks whether a stream gets
/// through: with the session cookie, where the secret can stand in a header field.
pub fn probe_request(url: &str, secret: &str) -> (r: Option<HeaderMap>)
    ensures
        match r {
            Some(h) => {
                &&& client_host(url@) is Some
                &&& exists|m: Map<Seq<char>, Seq<Seq<u8>>>| #[trigger]
                    handshake_fields(m, client_host(url@)->0) && header_values(h) == probe_fields(
                        m,
                        secret@,
                    )
            },
            None => client_host(url@) is None,
        },
{
    match client_request(url) {
        None => None,
        Some(mut headers) => {
            let ghost m = header_values(headers);
            let pair = session_pair(secret);
            proof {
                reveal_strlit("cookie");
                assert(lower("cookie"@) =~= "cookie"@);
                lemma_handshake_len(m, client_host(url@)->0);
            }
            set_field(&mut headers, "cookie", pair.as_str().as_bytes());
            assert(handshake_fields(m, client_host(url@)->0));
            Some(headers)
        },
    }
}

/// A check of a stream comes in as part of the session, whatever the secret, as long as that
/// is printable, holds no separator and does not end with white space.
pub proof fn law_probes_are_in_session(m: Map<Seq<char>, Seq<Seq<u8>>>, secret: Seq<char>)
    requires
        visible_chars(secret),
        !secret.contains(';'),
        secret.len() > 0 ==> !is_space(secret.last()),
    ensures
        in_session(probe_fields(m, secret), secret),
{
    reveal_strlit("hellbox_control=");
    reveal_strlit("cookie");
    assert(lower("cookie"@) =~= "cookie"@);
    let pair = "hellbox_control="@ + secret;
    assert(visible_chars(pair));
    lemma_visible_chars(pair);
    law_session_cookie_reads_back(secret);
}

/// The answer that ends the browser's handshake.
pub fn switching_reply(upgrade: &Upgrade) -> (r: Reply)
    requires
        upgrade.subprotocol matches Some(sp) ==> field_bytes(sp@),
    ensures
        r.status == 101,
        r.body@.len() == 0,
        header_values(r.headers) == switching_fields(
            upgrade.key@,
            opt_bytes(upgrade.subprotocol),
        ),
{
    let accept = accept_for(upgrade.key.as_slice());
    let mut headers = no_fields();
    proof {
        reveal_strlit("connection");
        reveal_strlit("upgrade");
        reveal_strlit("sec-websocket-accept");
        reveal_strlit("sec-websocket-protocol");
        reveal_strlit("Upgrade");
        reveal_strlit("websocket");
        assert(lower("connection"@) =~= "connection"@);
        assert(lower("upgrade"@) =~= "upgrade"@);
        assert(lower("sec-websocket-accept"@) =~= "sec-websocket-accept"@);
        assert(lower("sec-websocket-protocol"@) =~= "sec-websocket-protocol"@);
        lemma_plain("Upgrade"@);
        lemma_plain("websocket"@);
        lemma_plain(accept@);
        let m0 = header_values(headers);
        assert(m0 =~= Map::<Seq<char>, Seq<Seq<u8>>>::empty());
        let m1 = with_only(m0, "connection"@, encode_utf8("Upgrade"@));
        let m2 = with_only(m1, "upgrade"@, encode_utf8("websocket"@));
        lemma_with_only_len(m0, "connection"@, encode_utf8("Upgrade"@));
        lemma_with_only_len(m1, "upgrade"@, encode_utf8("websocket"@));
        lemma_with_only_len(m2, "sec-websocket-accept"@, encode_utf8(accept@));
    }
    set_field(&mut headers, "connection", "Upgrade".as_bytes());
    set_field(&mut headers, "upgrade", "websocket".as_bytes());
    set_field(&mut headers, "sec-websocket-accept", accept.as_str().as_bytes());
    match &upgrade.subprotocol {
        Some(sp) => {
            set_field(&mut headers, "sec-websocket-protocol", sp.as_slice());
        },
        None => {},
    }
    Reply { status: 101, headers, body: Vec::new() }
}

/// Whether an attempt failed because the token was turned away.
pub fn ws_error_is_auth(outcome: Connected) -> (r: bool)
    ensures
        r == (outcome == Connected::Answered(401) || outcome == Connected::Answered(403)),
{
    match outcome {
        Connected::Answered(status) => status == 401 || status == 403,
        _ => false,
    }
}

/// What follows the first attempt.
pub open spec fn step_after_connect(control: bool, outcome: Connected) -> WsStep {
    match outcome {
        Connected::Yes => WsStep::Join,
        Connected::Answered(status) => if (status == 401 || status == 403) && control {
            WsStep::Refresh
        } else {
            WsStep::Fail
        },
        Connected::No => WsStep::Fail,
    }
}

/// The step after the first attempt.
pub fn after_connect(control: bool, outcome: Connected) -> (r: WsStep)
    ensures
        r == step_after_connect(control, outcome),
{
    if outcome == Connected::Yes {
        WsStep::Join
    } else if ws_error_is_auth(outcome) && control {
        WsStep::Refresh
    } else {
        WsStep::Fail
    }
}

/// The step after a new token was asked for.
pub fn after_ws_refresh(refreshed: bool) -> (r: WsStep)
    ensures
        r == step_after_ws_refresh(refreshed),
{
    if refreshed {
        WsStep::Reconnect
    } else {
        WsStep::Fail
    }
}

/// The step after the second attempt.
pub fn after_reconnect(outcome: Connected) -> (r: WsStep)
    ensures
        r == step_after_reconnect(outcome),
{
    if outcome == Connected::Yes {
        WsStep::Join
    } else {
        WsStep::Fail
    }
}

/// What follows the attempt to mint a new token.
pub open spec fn step_after_ws_refresh(refreshed: bool) -> WsStep {
    if refreshed {
        WsStep::Reconnect
    } else {
        WsStep::Fail
    }
}

/// What follows the second attempt.
pub open spec fn step_after_reconnect(outcome: Connected) -> WsStep {
    if outcome == Connected::Yes {
        WsStep::Join
    } else {
        WsStep::Fail
    }
}

/// The end of a handshake, and how often it was attempted, for what the outside does.
pub open spec fn handshake_course(
    control: bool,
    first: Connected,
    refreshed: bool,
    second: Connected,
) -> (WsStep, nat) {
    match step_after_connect(control, first) {
        WsStep::Refresh => match step_after_ws_refresh(refreshed) {
            WsStep::Reconnect => (step_after_reconnect(second), 2),
            other => (other, 1),
        },
        other => (other, 1),
    }
}

/// A handshake is attempted twice at most, a second time only with a new token after the
/// machine turned the first away, and the two ends are joined only over one that succeeded.
pub proof fn law_one_more_handshake(
    control: bool,
    first: Connected,
    refreshed: bool,
    second: Connected,
)
    ensures
        ({
            let (end, attempts) = handshake_course(control, first, refreshed, second);
            &&& end == WsStep::Join || end == WsStep::Fail
            &&& attempts <= 2
            &&& attempts == 2 ==> control && refreshed && (first == Connected::Answered(401)
                || first == Connected::Answered(403))
            &&& end == WsStep::Join ==> first == Connected::Yes || (attempts == 2 && second
                == Connected::Yes)
        }),
{
}

/// A handshake never goes out without the token and the port: whatever fields it opens
/// with, those two stand in it once, with these values.
pub proof fn law_handshakes_are_admitted(
    m: Map<Seq<char>, Seq<Seq<u8>>>,
    token: Seq<char>,
    port: int,
    subprotocol: Option<Seq<u8>>,
)
    ensures
        ({
            let out = admitted_fields(m, token, port, subprotocol);
            &&& values_at(out, "x-aws-proxy-auth"@) == seq![encode_utf8(token)]
            &&& values_at(out, "x-aws-proxy-port"@) == seq![encode_utf8(decimal_text(port))]
            &&& subprotocol matches Some(sp) ==> values_at(out, "sec-websocket-protocol"@) == seq![
                sp,
            ]
        }),
{
    reveal_strlit("x-aws-proxy-auth");
    reveal_strlit("x-aws-proxy-port");
    reveal_strlit("sec-websocket-protocol");
    assert(lower("x-aws-proxy-auth"@) =~= "x-aws-proxy-auth"@);
    assert(lower("x-aws-proxy-port"@) =~= "x-aws-proxy-port"@);
    assert(lower("sec-websocket-protocol"@) =~= "sec-websocket-protocol"@);
    assert("x-aws-proxy-auth"@[12] == 'a' && "x-aws-proxy-port"@[12] == 'p');
}

/// The browser is offered the protocol that the machine was asked for, and no other.
pub proof fn law_one_subprotocol(
    m: Map<Seq<char>, Seq<Seq<u8>>>,
    host: Seq<u8>,
    token: Seq<char>,
    port: int,
    key: Seq<u8>,
    subprotocol: Option<Seq<u8>>,
)
    requires
        handshake_fields(m, host),
    ensures
        values_at(admitted_fields(m, token, port, subprotocol), "sec-websocket-protocol"@)
            == values_at(switching_fields(key, subprotocol), "sec-websocket-protocol"@),
{
    reveal_strlit("x-aws-proxy-auth");
    reveal_strlit("x-aws-proxy-port");
    reveal_strlit("sec-websocket-protocol");
    reveal_strlit("sec-websocket-accept");
    reveal_strlit("sec-websocket-key");
    reveal_strlit("sec-websocket-version");
    reveal_strlit("host");
    reveal_strlit("connection");
    reveal_strlit("upgrade");
    assert(lower("x-aws-proxy-auth"@) =~= "x-aws-proxy-auth"@);
    assert(lower("x-aws-proxy-port"@) =~= "x-aws-proxy-port"@);
    assert(lower("sec-websocket-protocol"@) =~= "sec-websocket-protocol"@);
    assert(lower("sec-websocket-accept"@) =~= "sec-websocket-accept"@);
    assert(lower("connection"@) =~= "connection"@);
    assert(lower("upgrade"@) =~= "upgrade"@);
    assert("sec-websocket-protocol"@.len() == 22 && "sec-websocket-version"@.len() == 21);
}

/// A request goes over to the WebSocket protocol exactly where its connection is to be
/// upgraded and the upgrade is to that protocol, in whatever case this is written.
pub proof fn law_upgrades_are_recognised(m: Map<Seq<char>, Seq<Seq<u8>>>)
    ensures
        ({
            let connection = field_text(m, "connection"@);
            let upgrade = field_text(m, "upgrade"@);
            &&& asks_upgrade(m) ==> connection is Some && contains_text(
                lower(connection->0),
                "upgrade"@,
            )
            &&& asks_upgrade(m) ==> upgrade is Some && lower(upgrade->0) == "websocket"@
            &&& connection is Some && contains_text(lower(connection->0), "upgrade"@) && upgrade
                is Some && lower(upgrade->0) == "websocket"@ ==> asks_upgrade(m)
        }),
{
    reveal_strlit("websocket");
    assert(lower("websocket"@) =~= "websocket"@);
}

/// A stream is joined wherever the machine can be had: at the first attempt, or at a second
/// with a new token where the first was turned away for its token.
pub proof fn law_streams_are_joined(
    control: bool,
    first: Connected,
    refreshed: bool,
    second: Connected,
)
    ensures
        ({
            let (end, attempts) = handshake_course(control, first, refreshed, second);
            let refused = first == Connected::Answered(401) || first == Connected::Answered(403);
            &&& attempts == (if control && refused && refreshed {
                2nat
            } else {
                1nat
            })
            &&& end == WsStep::Join <==> first == Connected::Yes || (attempts == 2 && second
                == Connected::Yes)
            &&& end != WsStep::Join ==> end == WsStep::Fail
        }),
{
}

/// What admits a handshake changes no other field of it.
pub proof fn law_handshakes_keep_the_rest(
    m: Map<Seq<char>, Seq<Seq<u8>>>,
    token: Seq<char>,
    port: int,
    subprotocol: Option<Seq<u8>>,
    name: Seq<char>,
)
    requires
        name != "x-aws-proxy-auth"@,
        name != "x-aws-proxy-port"@,
        name != "sec-websocket-protocol"@ || subprotocol is None,
    ensures
        values_at(admitted_fields(m, token, port, subprotocol), name) == values_at(m, name),
{
    reveal_strlit("x-aws-proxy-auth");
    reveal_strlit("x-aws-proxy-port");
    reveal_strlit("sec-websocket-protocol");
    assert(lower("x-aws-proxy-auth"@) =~= "x-aws-proxy-auth"@);
    assert(lower("x-aws-proxy-port"@) =~= "x-aws-proxy-port"@);
    assert(lower("sec-websocket-protocol"@) =~= "sec-websocket-protocol"@);
}

/// The browser's handshake is answered as the protocol asks: with the upgrade, with what its
/// own key calls for, and with the subprotocol that it asked for, if any.
pub proof fn law_browser_is_answered(key: Seq<u8>, subprotocol: Option<Seq<u8>>)
    ensures
        ({
            let out = switching_fields(key, subprotocol);
            &&& values_at(out, "connection"@) == seq![encode_utf8("Upgrade"@)]
            &&& values_at(out, "upgrade"@) == seq![encode_utf8("websocket"@)]
            &&& values_at(out, "sec-websocket-accept"@) == seq![encode_utf8(accept_key(key))]
            &&& values_at(out, "sec-websocket-protocol"@) == (match subprotocol {
                Some(sp) => seq![sp],
                None => Seq::empty(),
            })
            &&& forall|n: Seq<char>| #[trigger]
                out.dom().contains(n) ==> n == "connection"@ || n == "upgrade"@ || n
                    == "sec-websocket-accept"@ || n == "sec-websocket-protocol"@
        }),
{
    reveal_strlit("sec-websocket-protocol");
    reveal_strlit("sec-websocket-accept");
    reveal_strlit("connection");
    reveal_strlit("upgrade");
    assert(lower("sec-websocket-protocol"@) =~= "sec-websocket-protocol"@);
    assert(lower("sec-websocket-accept"@) =~= "sec-websocket-accept"@);
    assert(lower("connection"@) =~= "connection"@);
    assert(lower("upgrade"@) =~= "upgrade"@);
    assert("sec-websocket-protocol"@.len() == 22 && "sec-websocket-accept"@.len() == 20);
    assert("connection"@.len() == 10 && "upgrade"@.len() == 7);
}

/// What the browser asks for is read from the first value of each field.
pub proof fn law_first_value_counts(m: Map<Seq<char>, Seq<Seq<u8>>>, name: Seq<char>)
    ensures
        m.dom().contains(name) ==> first_at(m, name) == Some(m[name][0]),
        !m.dom().contains(name) ==> first_at(m, name) is None,
        opt_bytes(None) is None,
        forall|v: Vec<u8>| #[trigger] opt_bytes(Some(v)) == Some(v@),
{
}

/// A token is refused by the answers 401 and 403 and by nothing else.
pub proof fn law_refused_tokens_are_known(outcome: Connected, r: bool)
    requires
        call_ensures(ws_error_is_auth, (outcome,), r),
    ensures
        r <==> (outcome matches Connected::Answered(n) && (n == 401 || n == 403)),
{
}

} // verus!
