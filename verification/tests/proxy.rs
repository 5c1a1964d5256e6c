use hellbox::lifecycle::host_of;
use hellbox::proxy::control::{
    control_action, control_step, outcome_reply, refusal_reply, token_in, ControlRefusal,
    ControlStep,
};
use hellbox::proxy::cookie::{cookie_has_control_secret, session_pair, strip_control_cookie};
use hellbox::proxy::exchange::{
    after_refresh, after_resend, after_send, after_state, bad_gateway, exchange_headers,
    first_step, is_html, relay, resume_reply, visit_of, HttpStep, Visit,
};
use hellbox::proxy::forward::{build_upstream_headers, is_hop_by_hop};
use hellbox::proxy::gate::{
    consume_once, data_plane_rejection, expected_forward_path, has_entry_token, has_local_session,
    is_loopback_authority, is_top_level_navigation, loopback_metadata_ok, subtle_eq, RequestHead,
};
use hellbox::proxy::json::json_str;
use hellbox::proxy::page::{control_only_page, inject_panel, CONTROL_ONLY_PAGE, CONTROL_PANEL};
use hellbox::proxy::reply::{html_response_with_control_secret, json_response, session_cookie_text};
use hellbox::proxy::upgrade::{
    after_connect, after_reconnect, after_ws_refresh, build_ws_request, is_websocket_upgrade,
    probe_request, read_upgrade, switching_reply, ws_error_is_auth, Connected, WsRequestError, WsStep,
};
use hellbox::proxy::{
    base_url, listen_address, route, ProxyActivity, ProxyConfig, ProxyControl, Route, Upstream,
    ENTRY_TOKEN_TTL,
};
use hyper::header::{HeaderMap, HeaderName, HeaderValue};

const AUTH_HEADER: &str = "x-aws-proxy-auth";
const PORT_HEADER: &str = "x-aws-proxy-port";

fn cfg() -> ProxyConfig {
    ProxyConfig {
        upstream: Upstream::new(
            "abc.lambda-microvm.us-east-2.on.aws".to_string(),
            "the.secret.jwe".to_string(),
        ),
        upstream_port: 6901,
        local_port: 0,
        routes: vec![
            ("/hellbox/audio".to_string(), 6902),
            ("/hellbox/video".to_string(), 6903),
            ("/hellbox/input".to_string(), 6904),
            ("/ldoom/audio".to_string(), 6902),
            ("/ldoom/video".to_string(), 6903),
            ("/ldoom/input".to_string(), 6904),
        ],
        activity: None,
        control: None,
    }
}

fn control(secret: &str) -> ProxyControl {
    ProxyControl {
        microvm_id: "mvm-1".to_string(),
        name: "doom".to_string(),
        token_ports: vec![6901, 6902, 6903, 6904],
        control_secret: secret.to_string(),
        entry_token_used: false,
        entry_token_deadline: ENTRY_TOKEN_TTL,
    }
}

fn fields(pairs: &[(&str, &str)]) -> HeaderMap {
    let mut h = HeaderMap::new();
    for (k, v) in pairs {
        h.append(
            HeaderName::from_bytes(k.as_bytes()).unwrap(),
            HeaderValue::from_str(v).unwrap(),
        );
    }
    h
}

fn request(method: &str, path: &str, query: Option<&str>, pairs: &[(&str, &str)]) -> RequestHead {
    RequestHead {
        method: method.to_string(),
        path: path.to_string(),
        query: query.map(|q| q.to_string()),
        headers: fields(pairs),
    }
}

fn text(bytes: &[u8]) -> &str {
    std::str::from_utf8(bytes).unwrap()
}

#[test]
fn inject_panel_splices_before_body() {
    let html = "<html><body><h1>hi</h1></body></html>";
    let out = inject_panel(html.as_bytes());
    let s = std::str::from_utf8(&out).unwrap();
    assert!(s.contains("hellbox-ctl"), "panel markup injected");
    let panel_at = s.find("hellbox-ctl").unwrap();
    let body_at = s.find("</body>").unwrap();
    let h1_at = s.find("<h1>hi</h1>").unwrap();
    assert!(
        h1_at < panel_at && panel_at < body_at,
        "panel between content and </body>"
    );
}

#[test]
fn inject_panel_appends_when_no_body_tag() {
    let html = "<div>no body tag</div>";
    let out = inject_panel(html.as_bytes());
    let s = std::str::from_utf8(&out).unwrap();
    assert!(
        s.starts_with("<div>no body tag</div>"),
        "original content kept"
    );
    assert!(s.contains("hellbox-ctl"), "panel appended when no </body>");
}

#[test]
fn panel_goes_before_the_last_closing_tag() {
    let html = "é</body>ü</body>x";
    let out = inject_panel(html.as_bytes());
    let want = format!("é</body>ü{CONTROL_PANEL}</body>x");
    assert_eq!(text(&out), want);
}

#[test]
fn what_is_not_text_gets_no_panel() {
    let bytes = [0x3c, 0xff, 0xfe, 0x3e];
    assert_eq!(inject_panel(&bytes), bytes.to_vec());
}

#[test]
fn injected_panel_drives_control_endpoints() {
    assert!(CONTROL_PANEL.contains("/__hellbox/state"), "polls state");
    assert!(CONTROL_PANEL.contains("method:'POST'"), "POSTs the action");
    assert!(CONTROL_PANEL.contains("'Suspend'"), "offers Suspend");
    assert!(CONTROL_PANEL.contains("'Resume'"), "offers Resume");
}

#[test]
fn control_only_page_offers_resume() {
    let page = control_only_page();
    assert!(page.contains("Resume game"), "has a Resume control");
    assert!(page.contains("/__hellbox/state"), "polls live state");
    assert!(
        page.contains("resumed"),
        "reconnects after resume (reloads with ?resumed=1)"
    );
}

#[test]
fn json_str_escapes_special_chars() {
    assert_eq!(json_str("RUNNING"), "\"RUNNING\"");
    assert_eq!(json_str("a\"b\\c"), "\"a\\\"b\\\\c\"");
    assert_eq!(json_str("line\nbreak"), "\"line\\nbreak\"");
}

#[test]
fn json_str_escapes_control_characters() {
    assert_eq!(json_str("\r\t"), "\"\\r\\t\"");
    assert_eq!(json_str("\u{0}\u{1f} "), "\"\\u0000\\u001f \"");
    assert_eq!(json_str("é✓"), "\"é✓\"");
}

#[test]
fn json_strings_read_back() {
    let s = "a\"b\\c\n\r\t\u{1}\u{1f}é✓/";
    let back: String = serde_json::from_str(&json_str(s)).unwrap();
    assert_eq!(back, s);
}

#[test]
fn control_paths_accept_hellbox_namespace() {
    assert_eq!(control_action("/__hellbox/state").unwrap(), "state");
    assert_eq!(control_action("/__hellbox/suspend").unwrap(), "suspend");
    assert!(control_action("/not-control/state").is_none());
}

#[test]
fn control_secret_cookie_must_match() {
    assert!(cookie_has_control_secret(
        "foo=bar; hellbox_control=abc123; theme=dark",
        "abc123"
    ));
    assert!(!cookie_has_control_secret(
        "hellbox_control=wrong",
        "abc123"
    ));
    assert!(!cookie_has_control_secret("other=abc123", "abc123"));
}

#[test]
fn strips_local_control_cookie_before_forwarding() {
    assert_eq!(
        strip_control_cookie("foo=bar; hellbox_control=abc123; theme=dark").as_deref(),
        Some("foo=bar; theme=dark")
    );
    assert_eq!(strip_control_cookie("hellbox_control=abc123"), None);

    let mut inbound = HeaderMap::new();
    inbound.insert(
        "cookie",
        HeaderValue::from_static("foo=bar; hellbox_control=abc123"),
    );
    let out = build_upstream_headers(&inbound, "the.secret.jwe", 6901);
    assert_eq!(out.get("cookie").unwrap(), "foo=bar");
}

#[test]
fn cookies_keep_their_order_and_lose_empty_parts() {
    assert_eq!(
        strip_control_cookie(" a=1 ;;  b=2; hellbox_control=x ;c").as_deref(),
        Some("a=1; b=2; c")
    );
    assert_eq!(strip_control_cookie("hellbox_controls=x").as_deref(), Some("hellbox_controls=x"));
    assert_eq!(strip_control_cookie(""), None);
}

#[test]
fn several_cookie_fields_are_stripped_one_by_one() {
    let inbound = fields(&[
        ("cookie", "a=1; hellbox_control=s"),
        ("cookie", "hellbox_control=s"),
        ("cookie", "b=2"),
    ]);
    let out = build_upstream_headers(&inbound, "t", 1);
    let values: Vec<&str> = out.get_all("cookie").iter().map(|v| v.to_str().unwrap()).collect();
    assert_eq!(values, vec!["a=1", "b=2"]);
}

#[test]
fn a_field_under_an_improper_name_is_left_behind() {
    let mut inbound = fields(&[("x-a", "1")]);
    inbound.append(HeaderName::from_lowercase(b"a\"b").unwrap(), HeaderValue::from_static("2"));
    let out = build_upstream_headers(&inbound, "t", 1);
    assert_eq!(out.len(), 3);
    assert_eq!(out.get("x-a").unwrap(), "1");
    let r = relay(OTHER, &None, 200, &inbound, Vec::new()).unwrap();
    assert_eq!(r.headers.len(), 1);
    assert_eq!(r.headers.get("x-a").unwrap(), "1");
}

#[test]
fn a_cookie_that_is_not_text_stays_local() {
    let mut inbound = HeaderMap::new();
    inbound.insert("cookie", HeaderValue::from_bytes(b"a=\xff").unwrap());
    let out = build_upstream_headers(&inbound, "t", 1);
    assert!(out.get("cookie").is_none());
}

#[test]
fn top_level_navigation_gate() {
    let hm = |pairs: &[(&str, &str)]| {
        let mut h = HeaderMap::new();
        for (k, v) in pairs {
            h.insert(
                HeaderName::from_bytes(k.as_bytes()).unwrap(),
                HeaderValue::from_str(v).unwrap(),
            );
        }
        h
    };
    assert!(is_top_level_navigation(&hm(&[
        ("sec-fetch-mode", "navigate"),
        ("sec-fetch-dest", "document"),
        ("sec-fetch-site", "cross-site"),
    ])));
    assert!(is_top_level_navigation(&hm(&[
        ("sec-fetch-mode", "navigate"),
        ("sec-fetch-dest", "document"),
        ("sec-fetch-site", "none"),
    ])));
    assert!(!is_top_level_navigation(&hm(&[
        ("sec-fetch-mode", "navigate"),
        ("sec-fetch-dest", "iframe"),
        ("sec-fetch-site", "cross-site"),
    ])));
    assert!(!is_top_level_navigation(&hm(&[
        ("sec-fetch-mode", "no-cors"),
        ("sec-fetch-dest", "image"),
        ("sec-fetch-site", "cross-site"),
    ])));
    assert!(!is_top_level_navigation(&hm(&[])));
    assert!(is_top_level_navigation(&hm(&[("sec-fetch-site", "none")])));
    assert!(!is_top_level_navigation(&hm(&[(
        "sec-fetch-site",
        "cross-site"
    )])));
}

#[test]
fn entry_token_gate() {
    let secret = "tokentokentokentoken";
    let with_secret = format!("hbk={secret}");
    let with_display = format!("display=h264&hbk={secret}");
    assert!(has_entry_token(Some(&with_secret), secret));
    assert!(has_entry_token(Some(&with_display), secret));
    assert!(!has_entry_token(Some("hbk=wrong"), secret));
    assert!(!has_entry_token(None, secret));
    assert!(!has_entry_token(Some("hbk=token"), secret));
}

#[test]
fn entry_token_is_single_use() {
    let mut used = false;
    assert!(consume_once(&mut used));
    assert!(!consume_once(&mut used));
    assert!(!consume_once(&mut used));
}

#[test]
fn bytes_are_compared_whole() {
    assert!(subtle_eq(b"", b""));
    assert!(subtle_eq(b"abc", b"abc"));
    assert!(!subtle_eq(b"abc", b"abd"));
    assert!(!subtle_eq(b"abc", b"ab"));
    assert!(!subtle_eq(&[0x80, 0x01], &[0x00, 0x01]));
}

#[test]
fn data_plane_metadata_rejects_foreign_origin() {
    let mut h = HeaderMap::new();
    h.insert("host", HeaderValue::from_static("127.0.0.1:6080"));
    h.insert(
        "origin",
        HeaderValue::from_static("https://foreign.example"),
    );
    assert!(!loopback_metadata_ok(&h));

    h.insert("origin", HeaderValue::from_static("http://127.0.0.1:6080"));
    assert!(loopback_metadata_ok(&h));
}

#[test]
fn forwarded_paths_are_limited_to_stream_and_novnc_assets() {
    assert!(expected_forward_path("/"));
    assert!(expected_forward_path("/hellbox/video"));
    assert!(expected_forward_path("/hellbox/input/ev"));
    assert!(expected_forward_path("/ldoom/video"));
    assert!(expected_forward_path("/ldoom/input/ev"));
    assert!(expected_forward_path("/websockify"));
    assert!(expected_forward_path("/core/rfb.js"));
    assert!(!expected_forward_path("/__hellbox/state"));
    assert!(!expected_forward_path("/random/admin"));
}

#[test]
fn host_of_strips_scheme_and_slash() {
    assert_eq!(
        host_of("https://x.lambda-microvm.us-east-2.on.aws/"),
        "x.lambda-microvm.us-east-2.on.aws"
    );
    assert_eq!(host_of("wss://h/"), "h");
    assert_eq!(host_of("bare.host"), "bare.host");
}

#[test]
fn routes_audio_path_to_audio_port() {
    let c = cfg();
    assert_eq!(c.port_for("/hellbox/audio"), 6902);
    assert_eq!(c.port_for("/hellbox/audio?x=1"), 6902);
    assert_eq!(c.port_for("/ldoom/audio"), 6902);
    assert_eq!(c.port_for("/ldoom/audio?x=1"), 6902);
    assert_eq!(c.port_for("/"), 6901);
    assert_eq!(c.port_for("/websockify"), 6901);
    assert_eq!(c.port_for("/vnc.html"), 6901);
}

#[test]
fn routes_video_and_input_paths() {
    let c = cfg();
    assert_eq!(c.port_for("/hellbox/video"), 6903);
    assert_eq!(c.port_for("/hellbox/video?x=1"), 6903);
    assert_eq!(c.port_for("/hellbox/input"), 6904);
    assert_eq!(c.port_for("/hellbox/input/ev"), 6904);
    assert_eq!(c.port_for("/ldoom/video"), 6903);
    assert_eq!(c.port_for("/ldoom/video?x=1"), 6903);
    assert_eq!(c.port_for("/ldoom/input"), 6904);
    assert_eq!(c.port_for("/ldoom/input/ev"), 6904);
    assert_eq!(c.port_for("/"), 6901);
}

#[test]
fn an_empty_prefix_is_no_route() {
    let mut c = cfg();
    c.routes = vec![
        ("".to_string(), 1),
        ("/a".to_string(), 2),
        ("/a/b".to_string(), 3),
    ];
    assert_eq!(c.port_for("/a/b"), 2);
    assert_eq!(c.port_for("/x"), 6901);
}

#[test]
fn injects_auth_and_port_headers() {
    let mut inbound = HeaderMap::new();
    inbound.insert("host", HeaderValue::from_static("127.0.0.1:6080"));
    inbound.insert("user-agent", HeaderValue::from_static("test"));
    let out = build_upstream_headers(&inbound, "the.secret.jwe", 6901);

    assert_eq!(out.get(AUTH_HEADER).unwrap(), "the.secret.jwe");
    assert_eq!(out.get(PORT_HEADER).unwrap(), "6901");
    assert_eq!(out.get("user-agent").unwrap(), "test");
}

#[test]
fn what_the_browser_claims_is_replaced() {
    let inbound = fields(&[
        ("x-aws-proxy-auth", "forged"),
        ("x-aws-proxy-auth", "forged-too"),
        ("x-aws-proxy-port", "9000"),
        ("accept", "a"),
        ("accept", "b"),
    ]);
    let out = build_upstream_headers(&inbound, "token", -1);
    let auth: Vec<&[u8]> = out.get_all(AUTH_HEADER).iter().map(|v| v.as_bytes()).collect();
    let port: Vec<&[u8]> = out.get_all(PORT_HEADER).iter().map(|v| v.as_bytes()).collect();
    let accept: Vec<&[u8]> = out.get_all("accept").iter().map(|v| v.as_bytes()).collect();
    assert_eq!(auth, vec![b"token".as_slice()]);
    assert_eq!(port, vec![b"-1".as_slice()]);
    assert_eq!(accept, vec![b"a".as_slice(), b"b".as_slice()]);
}

#[test]
fn a_token_that_fits_no_field_is_left_out() {
    let out = build_upstream_headers(&HeaderMap::new(), "bad\ntoken", 6901);
    assert!(out.get(AUTH_HEADER).is_none());
    assert_eq!(out.get(PORT_HEADER).unwrap(), "6901");
}

#[test]
fn strips_hop_by_hop_and_host() {
    let mut inbound = HeaderMap::new();
    inbound.insert("host", HeaderValue::from_static("127.0.0.1:6080"));
    inbound.insert("connection", HeaderValue::from_static("keep-alive"));
    inbound.insert("keep-alive", HeaderValue::from_static("timeout=5"));
    inbound.insert("upgrade", HeaderValue::from_static("h2c"));
    let out = build_upstream_headers(&inbound, "the.secret.jwe", 6901);

    assert!(out.get("host").is_none(), "host must be dropped");
    assert!(out.get("connection").is_none());
    assert!(out.get("keep-alive").is_none());
    assert!(out.get("upgrade").is_none());
}

#[test]
fn loopback_authority_accepts_local_rejects_foreign() {
    assert!(is_loopback_authority("127.0.0.1:6080"));
    assert!(is_loopback_authority("127.0.0.1"));
    assert!(is_loopback_authority("localhost:6080"));
    assert!(is_loopback_authority("[::1]:6080"));
    assert!(is_loopback_authority("http://127.0.0.1:6080"));
    assert!(is_loopback_authority("http://localhost:6080"));
    assert!(is_loopback_authority("http://[::1]:6080"));
    assert!(!is_loopback_authority("foreign.example"));
    assert!(!is_loopback_authority("http://foreign.example"));
    assert!(!is_loopback_authority("http://foreign.example:6080"));
    assert!(!is_loopback_authority("127.0.0.1.foreign.example"));
    assert!(!is_loopback_authority(
        "http://127.0.0.1.foreign.example:6080"
    ));
}

#[test]
fn hop_by_hop_classification() {
    assert!(is_hop_by_hop("Connection"));
    assert!(is_hop_by_hop("Transfer-Encoding"));
    assert!(is_hop_by_hop("upgrade"));
    assert!(!is_hop_by_hop("content-type"));
    assert!(!is_hop_by_hop("x-aws-proxy-auth"));
}

#[test]
fn detects_websocket_upgrade() {
    let mut h = HeaderMap::new();
    h.insert("connection", HeaderValue::from_static("Upgrade"));
    h.insert("upgrade", HeaderValue::from_static("websocket"));
    assert!(is_websocket_upgrade(&h));

    let mut plain = HeaderMap::new();
    plain.insert("connection", HeaderValue::from_static("keep-alive"));
    assert!(!is_websocket_upgrade(&plain));
}

const LOCAL: (&str, &str) = ("host", "127.0.0.1:6080");

#[test]
fn each_refusal_of_the_data_plane() {
    let mut ctrl = Some(control("s3cret"));
    let reject = |req: RequestHead, ctrl: &mut Option<ProxyControl>| {
        data_plane_rejection(&req, ctrl, 0).map(|r| (r.status, String::from_utf8(r.body).unwrap()))
    };
    assert_eq!(
        reject(request("GET", "/admin", None, &[LOCAL]), &mut ctrl),
        Some((403, "{\"error\":\"unexpected local proxy path\"}".to_string()))
    );
    assert_eq!(
        reject(request("GET", "/", None, &[("host", "evil.example")]), &mut ctrl),
        Some((403, "{\"error\":\"data-plane proxy is loopback-only\"}".to_string()))
    );
    assert_eq!(
        reject(request("GET", "/", None, &[]), &mut ctrl),
        Some((403, "{\"error\":\"data-plane proxy is loopback-only\"}".to_string()))
    );
    assert_eq!(
        reject(request("GET", "/", None, &[LOCAL]), &mut ctrl),
        Some((403, "{\"error\":\"missing local session secret\"}".to_string()))
    );
    assert_eq!(
        reject(
            request("GET", "/", None, &[LOCAL, ("cookie", "hellbox_control=s3cret")]),
            &mut ctrl
        ),
        None
    );
    let mut none = None;
    assert_eq!(reject(request("GET", "/admin", None, &[]), &mut none), None);
}

#[test]
fn the_address_lets_one_visit_in() {
    let mut ctrl = Some(control("s3cret"));
    let visit = || {
        request(
            "GET",
            "/",
            Some("display=h264&hbk=s3cret"),
            &[LOCAL, ("sec-fetch-mode", "navigate"), ("sec-fetch-dest", "document")],
        )
    };
    assert!(data_plane_rejection(&visit(), &mut ctrl, 5).is_none());
    assert!(ctrl.as_ref().unwrap().entry_token_used);
    assert_eq!(data_plane_rejection(&visit(), &mut ctrl, 6).unwrap().status, 403);
    let session = request("GET", "/", None, &[LOCAL, ("cookie", "hellbox_control=s3cret")]);
    assert!(data_plane_rejection(&session, &mut ctrl, u128::MAX).is_none());
}

#[test]
fn the_address_expires() {
    let visit = request(
        "GET",
        "/",
        Some("hbk=s3cret"),
        &[LOCAL, ("sec-fetch-mode", "navigate")],
    );
    let mut late = Some(control("s3cret"));
    assert!(data_plane_rejection(&visit, &mut late, ENTRY_TOKEN_TTL + 1).is_some());
    assert!(!late.as_ref().unwrap().entry_token_used);
    assert!(data_plane_rejection(&visit, &mut late, ENTRY_TOKEN_TTL).is_none());
}

#[test]
fn a_session_check_does_not_spend_the_address() {
    let mut ctrl = Some(control("s3cret"));
    let check = request(
        "GET",
        "/",
        Some("hbk=s3cret"),
        &[
            LOCAL,
            ("sec-fetch-mode", "navigate"),
            ("cookie", "hellbox_control=s3cret"),
        ],
    );
    assert!(data_plane_rejection(&check, &mut ctrl, 0).is_none());
    assert!(!ctrl.as_ref().unwrap().entry_token_used);
}

#[test]
fn requests_are_routed() {
    let cookie = ("cookie", "hellbox_control=s");
    let mut ctrl = Some(control("s"));
    let kind = |req: RequestHead, ctrl: &mut Option<ProxyControl>| match route(&req, ctrl, 0) {
        Route::Control => "control".to_string(),
        Route::Reject(r) => format!("reject {}", r.status),
        Route::Upgrade => "upgrade".to_string(),
        Route::Forward => "forward".to_string(),
    };
    assert_eq!(kind(request("GET", "/__hellbox/state", None, &[]), &mut ctrl), "control");
    assert_eq!(kind(request("GET", "/", None, &[LOCAL]), &mut ctrl), "reject 403");
    assert_eq!(kind(request("GET", "/", None, &[LOCAL, cookie]), &mut ctrl), "forward");
    let ws = request(
        "GET",
        "/hellbox/video",
        None,
        &[LOCAL, cookie, ("connection", "keep-alive, Upgrade"), ("upgrade", "WebSocket")],
    );
    assert_eq!(kind(ws, &mut ctrl), "upgrade");
}

#[test]
fn each_verdict_of_the_control_plane() {
    let ctrl = Some(control("s"));
    let cookie = ("cookie", "hellbox_control=s");
    let refuse = |why| ControlStep::Refuse(why);
    assert_eq!(
        control_step(&request("GET", "/__hellbox/state", None, &[LOCAL, cookie]), &None),
        refuse(ControlRefusal::Disabled)
    );
    assert_eq!(
        control_step(&request("GET", "/__hellbox/state", None, &[cookie]), &ctrl),
        refuse(ControlRefusal::NotLoopback)
    );
    assert_eq!(
        control_step(&request("GET", "/__hellbox/state", None, &[LOCAL]), &ctrl),
        refuse(ControlRefusal::NoSession)
    );
    assert_eq!(
        control_step(&request("GET", "/__hellbox/suspend", None, &[LOCAL, cookie]), &ctrl),
        refuse(ControlRefusal::UsePost)
    );
    assert_eq!(
        control_step(&request("POST", "/__hellbox/nope", None, &[LOCAL, cookie]), &ctrl),
        refuse(ControlRefusal::UnknownAction)
    );
    assert_eq!(
        control_step(&request("GET", "/__hellbox/state", None, &[LOCAL, cookie]), &ctrl),
        ControlStep::State
    );
    assert_eq!(
        control_step(&request("POST", "/__hellbox/suspend", None, &[LOCAL, cookie]), &ctrl),
        ControlStep::Suspend
    );
    assert_eq!(
        control_step(&request("POST", "/__hellbox/resume", None, &[LOCAL, cookie]), &ctrl),
        ControlStep::Resume
    );
}

#[test]
fn each_answer_of_the_control_plane() {
    let said = |why| {
        let r = refusal_reply(why);
        (r.status, String::from_utf8(r.body).unwrap())
    };
    assert_eq!(
        said(ControlRefusal::Disabled),
        (404, "{\"error\":\"control disabled\"}".to_string())
    );
    assert_eq!(
        said(ControlRefusal::NotLoopback),
        (403, "{\"error\":\"control endpoints are loopback-only\"}".to_string())
    );
    assert_eq!(
        said(ControlRefusal::NoSession),
        (403, "{\"error\":\"missing local session secret\"}".to_string())
    );
    assert_eq!(said(ControlRefusal::UsePost), (405, "{\"error\":\"use POST\"}".to_string()));
    assert_eq!(
        said(ControlRefusal::UnknownAction),
        (404, "{\"error\":\"unknown control action\"}".to_string())
    );
    let ok = outcome_reply(Ok("SUSPENDED"));
    assert_eq!((ok.status, text(&ok.body)), (200, "{\"state\":\"SUSPENDED\"}"));
    let err = outcome_reply(Err("no \"way\""));
    assert_eq!((err.status, text(&err.body)), (500, "{\"error\":\"no \\\"way\\\"\"}"));
    assert_eq!(err.headers.get("content-type").unwrap(), "application/json");
}

#[test]
fn the_token_is_found_by_its_key() {
    let entries = vec![
        ("other".to_string(), "x".to_string()),
        ("X-aws-proxy-auth".to_string(), "jwe".to_string()),
    ];
    assert_eq!(token_in(&entries).as_deref(), Some("jwe"));
    assert_eq!(token_in(&entries[..1].to_vec()), None);
}

const PAGE: Visit = Visit { root: true, get: true, control: true };
const OTHER: Visit = Visit { root: false, get: true, control: true };
const PLAIN: Visit = Visit { root: true, get: true, control: false };

#[test]
fn visits_are_classified() {
    let ctrl = Some(control("s"));
    assert_eq!(visit_of(&request("GET", "/", None, &[]), &ctrl), PAGE);
    assert_eq!(visit_of(&request("GET", "/app/x", None, &[]), &ctrl), OTHER);
    assert_eq!(visit_of(&request("GET", "/", None, &[]), &None), PLAIN);
    assert!(!visit_of(&request("POST", "/", None, &[]), &ctrl).get);
}

#[test]
fn a_suspended_page_is_not_forwarded() {
    assert_eq!(first_step(PAGE), HttpStep::AskState);
    assert_eq!(after_state(Some("SUSPENDED")), HttpStep::ResumePage);
    assert_eq!(after_state(Some("RUNNING")), HttpStep::Send);
    assert_eq!(after_state(None), HttpStep::Send);
    assert_eq!(first_step(OTHER), HttpStep::Send);
    assert_eq!(first_step(PLAIN), HttpStep::Send);
}

#[test]
fn a_refused_token_is_renewed_once() {
    assert_eq!(after_send(OTHER, Some(403)), HttpStep::Refresh { status: 403 });
    assert_eq!(after_send(OTHER, Some(401)), HttpStep::Refresh { status: 401 });
    assert_eq!(
        after_send(PLAIN, Some(403)),
        HttpStep::Relay { status: 403, second: false }
    );
    assert_eq!(after_refresh(OTHER, 403, true), HttpStep::Resend { status: 403 });
    assert_eq!(
        after_refresh(OTHER, 403, false),
        HttpStep::Relay { status: 403, second: false }
    );
    assert_eq!(
        after_resend(OTHER, 403, Some(200)),
        HttpStep::Relay { status: 200, second: true }
    );
    assert_eq!(
        after_resend(OTHER, 403, None),
        HttpStep::Relay { status: 403, second: false }
    );
}

#[test]
fn a_page_never_fails() {
    assert_eq!(after_send(PAGE, None), HttpStep::ResumePage);
    assert_eq!(after_send(PAGE, Some(502)), HttpStep::ResumePage);
    assert_eq!(after_resend(PAGE, 401, Some(500)), HttpStep::ResumePage);
    assert_eq!(after_send(OTHER, None), HttpStep::Fail);
    assert_eq!(
        after_send(OTHER, Some(502)),
        HttpStep::Relay { status: 502, second: false }
    );
    assert_eq!(
        after_send(PAGE, Some(404)),
        HttpStep::Relay { status: 404, second: false }
    );
}

#[test]
fn a_page_is_asked_for_whole() {
    let inbound = fields(&[
        ("if-none-match", "x"),
        ("if-modified-since", "y"),
        ("accept", "z"),
    ]);
    let page = exchange_headers(PAGE, &inbound, "t", 1).unwrap();
    assert!(page.get("if-none-match").is_none());
    assert!(page.get("if-modified-since").is_none());
    assert_eq!(page.get("accept").unwrap(), "z");
    let other = exchange_headers(OTHER, &inbound, "t", 1).unwrap();
    assert_eq!(other.get("if-none-match").unwrap(), "x");
}

#[test]
fn a_page_comes_with_controls_and_a_session() {
    let upstream = fields(&[
        ("content-type", "Text/HTML; charset=utf-8"),
        ("content-length", "5"),
        ("etag", "x"),
        ("cache-control", "max-age=9"),
        ("set-cookie", "a=1"),
        ("connection", "close"),
        ("x-other", "kept"),
    ]);
    assert!(is_html(&upstream));
    let ctrl = Some(control("s"));
    let r = relay(PAGE, &ctrl, 200, &upstream, b"<body></body>".to_vec()).unwrap();
    assert_eq!(r.status, 200);
    assert_eq!(text(&r.body), format!("<body>{CONTROL_PANEL}</body>"));
    assert_eq!(r.headers.get("cache-control").unwrap(), "no-store");
    assert_eq!(r.headers.get("referrer-policy").unwrap(), "no-referrer");
    assert_eq!(
        r.headers.get("set-cookie").unwrap(),
        "hellbox_control=s; Path=/; HttpOnly; SameSite=Strict; Max-Age=86400"
    );
    assert_eq!(r.headers.get_all("set-cookie").iter().count(), 1);
    assert_eq!(r.headers.get("x-other").unwrap(), "kept");
    assert!(r.headers.get("etag").is_none());
    assert!(r.headers.get("content-length").is_none());
    assert!(r.headers.get("connection").is_none());
}

#[test]
fn other_answers_are_handed_on() {
    let upstream = fields(&[
        ("content-type", "text/html"),
        ("content-length", "5"),
        ("etag", "x"),
        ("set-cookie", "a=1"),
        ("set-cookie", "b=2"),
    ]);
    let ctrl = Some(control("s"));
    let r = relay(OTHER, &ctrl, 404, &upstream, b"<body></body>".to_vec()).unwrap();
    assert_eq!((r.status, text(&r.body)), (404, "<body></body>"));
    assert_eq!(r.headers.get("etag").unwrap(), "x");
    assert!(r.headers.get("content-length").is_none());
    let cookies: Vec<&[u8]> = r.headers.get_all("set-cookie").iter().map(|v| v.as_bytes()).collect();
    assert_eq!(cookies, vec![b"a=1".as_slice(), b"b=2".as_slice()]);
    let plain = relay(PLAIN, &None, 200, &upstream, b"<body></body>".to_vec()).unwrap();
    assert_eq!(text(&plain.body), "<body></body>");
    let odd = relay(OTHER, &ctrl, 7, &upstream, Vec::new()).unwrap();
    assert_eq!(odd.status, 502);
}

#[test]
fn answers_that_the_proxy_gives_itself() {
    let r = resume_reply(&control("s"));
    assert_eq!((r.status, text(&r.body)), (200, CONTROL_ONLY_PAGE));
    assert_eq!(r.headers.get("content-type").unwrap(), "text/html; charset=utf-8");
    assert_eq!(
        r.headers.get("set-cookie").unwrap(),
        "hellbox_control=s; Path=/; HttpOnly; SameSite=Strict; Max-Age=86400"
    );
    let r = bad_gateway();
    assert_eq!((r.status, text(&r.body)), (502, "proxy error"));
    assert_eq!(r.headers.len(), 0);
    let r = json_response(405, "{}");
    assert_eq!((r.status, text(&r.body)), (405, "{}"));
    let r = html_response_with_control_secret("x", "bad\nsecret");
    assert!(r.headers.get("set-cookie").is_none());
    assert_eq!(
        session_cookie_text("k"),
        "hellbox_control=k; Path=/; HttpOnly; SameSite=Strict; Max-Age=86400"
    );
}

#[test]
fn a_handshake_is_answered_with_the_derived_key() {
    let inbound = fields(&[
        ("sec-websocket-key", "dGhlIHNhbXBsZSBub25jZQ=="),
        ("sec-websocket-protocol", "binary"),
    ]);
    let up = read_upgrade(&inbound).unwrap();
    let r = switching_reply(&up);
    assert_eq!(r.status, 101);
    assert!(r.body.is_empty());
    assert_eq!(r.headers.get("connection").unwrap(), "Upgrade");
    assert_eq!(r.headers.get("upgrade").unwrap(), "websocket");
    assert_eq!(
        r.headers.get("sec-websocket-accept").unwrap(),
        "s3pPLMBiTxaQ9kYGzzhZRbK+xOo="
    );
    assert_eq!(r.headers.get("sec-websocket-protocol").unwrap(), "binary");
    assert!(read_upgrade(&HeaderMap::new()).is_none());
    let bare = read_upgrade(&fields(&[("sec-websocket-key", "k")])).unwrap();
    assert!(switching_reply(&bare).headers.get("sec-websocket-protocol").is_none());
}

#[test]
fn a_handshake_with_the_machine_is_admitted() {
    let url = "wss://user@h.example:444/hellbox/video?x=1";
    let sp = Some(b"binary".to_vec());
    let h = build_ws_request(url, "jwe", 6903, &sp).unwrap();
    assert_eq!(h.get("host").unwrap(), "h.example:444");
    assert_eq!(h.get("connection").unwrap(), "Upgrade");
    assert_eq!(h.get("upgrade").unwrap(), "websocket");
    assert_eq!(h.get("sec-websocket-version").unwrap(), "13");
    assert!(h.get("sec-websocket-key").is_some());
    assert_eq!(h.get(AUTH_HEADER).unwrap(), "jwe");
    assert_eq!(h.get(PORT_HEADER).unwrap(), "6903");
    assert_eq!(h.get("sec-websocket-protocol").unwrap(), "binary");
    assert_eq!(h.len(), 8);
    assert_eq!(
        build_ws_request("/no-host", "jwe", 6903, &None).unwrap_err(),
        WsRequestError::BadUrl
    );
    assert_eq!(
        build_ws_request(url, "a\nb", 6903, &None).unwrap_err(),
        WsRequestError::BadToken
    );
}

#[test]
fn a_stream_is_checked_within_the_session() {
    assert_eq!(session_pair("s"), "hellbox_control=s");
    let h = probe_request("ws://127.0.0.1:6080/hellbox/video", "abc123").unwrap();
    assert_eq!(h.get("host").unwrap(), "127.0.0.1:6080");
    assert_eq!(h.get("upgrade").unwrap(), "websocket");
    assert_eq!(h.get("cookie").unwrap(), "hellbox_control=abc123");
    assert_eq!(h.len(), 6);
    assert!(has_local_session(&h, "abc123"));
    assert!(loopback_metadata_ok(&h));
    let h = probe_request("ws://127.0.0.1:6080/hellbox/video", "a\nb").unwrap();
    assert!(h.get("cookie").is_none());
    assert_eq!(h.len(), 5);
    assert!(probe_request("/no-host", "abc123").is_none());
}

#[test]
fn a_handshake_is_tried_again_once() {
    assert!(ws_error_is_auth(Connected::Answered(401)));
    assert!(ws_error_is_auth(Connected::Answered(403)));
    assert!(!ws_error_is_auth(Connected::Answered(500)));
    assert!(!ws_error_is_auth(Connected::No));
    assert_eq!(after_connect(true, Connected::Yes), WsStep::Join);
    assert_eq!(after_connect(true, Connected::Answered(403)), WsStep::Refresh);
    assert_eq!(after_connect(false, Connected::Answered(403)), WsStep::Fail);
    assert_eq!(after_connect(true, Connected::No), WsStep::Fail);
    assert_eq!(after_ws_refresh(true), WsStep::Reconnect);
    assert_eq!(after_ws_refresh(false), WsStep::Fail);
    assert_eq!(after_reconnect(Connected::Yes), WsStep::Join);
    assert_eq!(after_reconnect(Connected::Answered(403)), WsStep::Fail);
}

#[test]
fn many_fields_pass_until_the_map_is_full() {
    let mut many = HeaderMap::new();
    let mut i = 0;
    while many.len() < 8000 {
        let name = HeaderName::from_bytes(format!("n{i}").as_bytes()).unwrap();
        many.append(name, HeaderValue::from_static("x"));
        i += 1;
    }
    assert_eq!(exchange_headers(OTHER, &many, "t", 1).unwrap().len(), 8002);
    assert_eq!(relay(OTHER, &None, 200, &many, Vec::new()).unwrap().headers.len(), 8000);
    loop {
        let name = HeaderName::from_bytes(format!("n{i}").as_bytes()).unwrap();
        if many.try_append(name, HeaderValue::from_static("x")).is_err() {
            break;
        }
        i += 1;
    }
    assert!(exchange_headers(OTHER, &many, "t", 1).is_none());
}

#[test]
fn loopback_authorities_end_with_a_port() {
    assert!(!is_loopback_authority("[::1].foreign.example"));
    assert!(!is_loopback_authority("[::1].foreign.example:6080"));
    assert!(!is_loopback_authority("[::1]6080"));
    assert!(!is_loopback_authority("[::1]:60x"));
    assert!(!is_loopback_authority("[::1"));
    assert!(!is_loopback_authority("["));
    assert!(!is_loopback_authority("127.0.0.1:6080@foreign.example"));
    assert!(!is_loopback_authority("localhost:x"));
    assert!(!is_loopback_authority("::1"));
    assert!(!is_loopback_authority(""));
    assert!(is_loopback_authority("[::1]"));
    assert!(is_loopback_authority("https://[::1]/path"));
    assert!(is_loopback_authority(" http://localhost:6080/a:b "));
}

#[test]
fn an_origin_has_to_be_readable() {
    let mut h = HeaderMap::new();
    h.insert("host", HeaderValue::from_static("127.0.0.1:6080"));
    assert!(loopback_metadata_ok(&h));
    h.insert("origin", HeaderValue::from_bytes(b"http://\xff").unwrap());
    assert!(!loopback_metadata_ok(&h));
    h.insert("origin", HeaderValue::from_static("http://localhost:6080"));
    assert!(loopback_metadata_ok(&h));
    h.insert("host", HeaderValue::from_bytes(b"127.0.0.1\xff").unwrap());
    assert!(!loopback_metadata_ok(&h));
}

#[test]
fn the_proxy_is_on_loopback() {
    assert_eq!(listen_address(6080), "127.0.0.1:6080");
    assert_eq!(base_url(6080), "http://127.0.0.1:6080");
    assert_eq!(listen_address(0), "127.0.0.1:0");
    for port in [0, 7, 6080, 65535] {
        assert!(is_loopback_authority(&listen_address(port)));
        assert!(is_loopback_authority(&base_url(port)));
    }
}

#[test]
fn sessions_are_counted() {
    let mut a = ProxyActivity::default();
    assert_eq!(a.active(), 0);
    a.enter();
    a.enter();
    assert_eq!(a.active(), 2);
    a.leave();
    a.leave();
    assert_eq!(a.active(), 0);
}

#[test]
fn upstream_changes() {
    let mut u = Upstream::new("h".to_string(), "t".to_string());
    assert_eq!(u.url(Some("/a?b=1")), "https://h/a?b=1");
    assert_eq!(u.ws_url(None), "wss://h/");
    u.renew("t2".to_string());
    assert_eq!((u.host(), u.token()), ("h".to_string(), "t2".to_string()));
    u.set("h3".to_string(), "t3".to_string());
    assert_eq!((u.host(), u.token()), ("h3".to_string(), "t3".to_string()));
    assert_eq!(u.url(Some("/")), "https://h3/");
    assert_eq!(u.ws_url(Some("/websockify")), "wss://h3/websockify");
    u.renew("t4".to_string());
    for session in [&u, &u] {
        assert_eq!(session.url(None), "https://h3/");
        let out = build_upstream_headers(&HeaderMap::new(), &session.token(), 6901);
        assert_eq!(out.get("x-aws-proxy-auth").unwrap(), "t4");
    }
}
