use hellbox::aws::{
    active_profile, aws_config_file, credential_process_command, parse_process_credentials,
    profile_to_use, require_same_account, rescue, usable_credentials, Identity, ProcessCreds, Rescue,
};
use hellbox::commands::config_cmd;
use hellbox::commands::deploy::{
    after_create, after_update, custom_template_path, editor, error_says, existing_image_active, parse_parameters,
    reconcile_state, resolve_region, stack_deployed, stack_state, stack_states, Found, ImageInfo,
    StackStep,
};
use hellbox::commands::destroy::{
    bucket_step, confirm, deletion_state, describe, plan, stack_deleted, stack_is_absent, steps,
    BucketStep, DestroyStep, Plan,
};
use hellbox::commands::image::{
    after_look, after_refusal, artifact_uri, capsule_dir, client_token, context_key, entry_name,
    is_dead_image, random_context_suffix, record_built, record_created, suffix_of, usable_image,
    validate_zip_file_entry, CapsuleSource, CreateStep, EntryKind, Packed,
};
use hellbox::commands::open::{
    channel_url, check_outcome, entry_url, generate_control_secret, machine_of, origin_of,
    page_url, probe_step, secret_of, session, token_ports, Checked, IdleWatch,
    ProbeStep, CHANNEL_ATTEMPTS, PAGE_ATTEMPTS,
};
use hellbox::commands::play::{
    after_image_check, machine_is_gone, no_capsule, no_image, offer_rebuild, play_choice,
    play_step, unexpected_image, PlayChoice, PlayStep,
};
use hellbox::commands::ps::{candidates, print_table, reconcile};
use hellbox::commands::rm::{
    after_delete, target_image, terminate_image_microvms, termination_state, DeleteError,
    DeleteStep,
};
use hellbox::commands::verify::{Outcome, Target, Verification, VerifyStep};
use hellbox::commands::up::{launch_request, machine_for, resumed, suspended, Action};
use hellbox::config::{shrink_dir, write_config, Config, Place, Root};
use hellbox::discover::{adopt, ask, find_untracked, image_arn, Listed};
use hellbox::embedded::capsule_files;
use hellbox::lifecycle::{
    await_running, forget_machine, host_of, record_endpoint, record_launched, record_state,
    record_terminated,
};
use hellbox::poll::{changed, poll_step, PollOpts, PollStep};
use hellbox::stack::{is_hellbox_stack, stack_name, stack_output, Output, Stack};
use hellbox::state::{Capsule, State};

fn stack(desc: Option<&str>, outputs: &[(&str, &str)]) -> Stack {
    Stack {
        description: desc.map(|d| d.to_string()),
        outputs: outputs
            .iter()
            .map(|(k, v)| Output { key: Some(k.to_string()), value: Some(v.to_string()) })
            .collect(),
    }
}

fn place(p: Result<Place, String>) -> (String, Vec<&'static str>) {
    let p = p.unwrap();
    let root = match p.root {
        Root::Given(path) => path,
        Root::Home => "~".to_string(),
        Root::Here => ".".to_string(),
    };
    (root, p.names)
}

fn full_outputs() -> Vec<Output> {
    stack(
        None,
        &[
            ("ArtifactBucket", "bucket"),
            ("BuildRoleArn", "build"),
            ("ExecutionRoleArn", "run"),
        ],
    )
    .outputs
}

fn fresh() -> Config {
    write_config("Hellbox", &full_outputs(), "eu-west-1", "123456789012", None, None)
        .ok()
        .unwrap()
}

fn listed(id: &str, arn: &str, state: &str) -> Listed {
    Listed {
        microvm_id: id.to_string(),
        image_arn: arn.to_string(),
        state: state.to_string(),
    }
}

fn capsule(id: Option<&str>, image: Option<&str>) -> Capsule {
    Capsule {
        image_arn: image.map(|s| s.to_string()),
        microvm_id: id.map(|s| s.to_string()),
        ..Capsule::default()
    }
}

#[test]
fn dead_image_states_are_replaceable_but_created_is_not() {
    assert!(is_dead_image("CREATE_FAILED"));
    assert!(is_dead_image("CreateFailed"));
    assert!(is_dead_image("DELETING"));
    assert!(is_dead_image("DELETE_FAILED"));
    assert!(!is_dead_image("CREATED"));
    assert!(!is_dead_image("Created"));
    assert!(!is_dead_image("CREATING"));
}

#[test]
fn hellbox_stack_markers_required_for_delete() {
    assert!(is_hellbox_stack(&stack(
        Some("Hellbox prerequisites: build artifact bucket and IAM roles for Lambda MicroVMs."),
        &[
            ("ArtifactBucket", "b"),
            ("BuildRoleArn", "arn"),
            ("ExecutionRoleArn", "arn")
        ],
    )));
    assert!(!is_hellbox_stack(&stack(Some("My production stack"), &[])));
    assert!(!is_hellbox_stack(&stack(None, &[("ArtifactBucket", "b")])));
    assert!(!is_hellbox_stack(&stack(
        Some("Hellbox prerequisites"),
        &[]
    )));
}

#[test]
fn host_of_normalizes_scheme_and_slash() {
    assert_eq!(
        host_of("https://abc.lambda-microvm.us-east-2.on.aws/"),
        "abc.lambda-microvm.us-east-2.on.aws"
    );
    assert_eq!(host_of("abc.example.com"), "abc.example.com");
    assert_eq!(host_of("wss://h/"), "h");
}

#[test]
fn schemes_and_slashes_go_as_often_as_they_stand_there() {
    assert_eq!(host_of("https://https://http://wss://wss://h///"), "h");
    assert_eq!(host_of("http://https://h"), "https://h");
    assert_eq!(host_of("///"), "");
    assert_eq!(host_of(""), "");
}

#[test]
fn ask_returns_default_when_not_a_terminal() {
    assert_eq!(ask(None, 'k'), 'k');
    assert_eq!(ask(None, 'p'), 'p');
}

#[test]
fn answers_are_taken_by_their_first_letter() {
    assert_eq!(ask(Some("  Terminate\n"), 'k'), 't');
    assert_eq!(ask(Some("\n"), 'k'), 'k');
    assert_eq!(ask(Some("Éa"), 'k'), 'É');
}

#[test]
fn image_arn_is_the_hellbox_deterministic_form() {
    assert_eq!(
        image_arn("us-east-1", "123456789012", "doom"),
        "arn:aws:lambda:us-east-1:123456789012:microvm-image:doom"
    );
}

#[test]
fn embedded_capsule_is_nonempty_and_wad_free() {
    let files = capsule_files();
    assert!(files.len() >= 10, "capsule file list looks truncated");
    assert_eq!(files.len(), 11);
    assert_eq!(files[0], "Dockerfile");
    for path in files {
        assert!(!path.is_empty());
        assert!(
            !path.to_ascii_lowercase().ends_with(".wad"),
            "game data must never be embedded ({path})"
        );
    }
}

#[test]
fn stops_at_terminal_state() {
    let opts = PollOpts { interval: 1, timeout: 5_000 };
    let terminal = ["CREATED", "CREATE_FAILED"];
    let answers = ["CREATING", "CREATING", "CREATED", "CREATE_FAILED"];
    let mut got = None;
    for (i, state) in answers.iter().enumerate() {
        match poll_step(state, &terminal, i as u64, opts) {
            PollStep::Reached => {
                got = Some(*state);
                break;
            }
            PollStep::TimedOut => panic!("time is not up"),
            PollStep::Wait => {}
        }
    }
    assert_eq!(got, Some("CREATED"));
}

#[test]
fn waiting_gives_up_in_time() {
    let opts = PollOpts::default();
    assert_eq!((opts.interval, opts.timeout), (10_000, 900_000));
    assert_eq!(poll_step("X", &["Y"], 899_999, opts), PollStep::Wait);
    assert_eq!(poll_step("X", &["Y"], 900_000, opts), PollStep::TimedOut);
    assert_eq!(poll_step("Y", &["Y"], 900_000, opts), PollStep::Reached);
    assert!(changed(None, "X"));
    assert!(changed(Some("Y"), "X"));
    assert!(!changed(Some("X"), "X"));
}

#[test]
fn outputs_are_found_by_key() {
    let mut s = stack(None, &[("A", "1"), ("B", "2"), ("A", "3")]);
    assert_eq!(stack_output(&s, "A").as_deref(), Some("1"));
    assert_eq!(stack_output(&s, "C"), None);
    s.outputs[0].value = None;
    assert_eq!(stack_output(&s, "A"), None);
    assert_eq!(stack_name(None), "Hellbox");
    assert_eq!(stack_name(Some("  ")), "Hellbox");
    assert_eq!(stack_name(Some("Mine")), "Mine");
}

#[test]
fn a_first_deployment_writes_defaults() {
    let c = write_config("Hellbox", &full_outputs(), "eu-west-1", "1", Some("prof"), None)
        .ok()
        .unwrap();
    assert_eq!(c.region, "eu-west-1");
    assert_eq!(c.artifact_bucket, "bucket");
    assert_eq!(c.build_role_arn, "build");
    assert_eq!(c.execution_role_arn.as_deref(), Some("run"));
    assert_eq!(c.base_image_arn, "arn:aws:lambda:eu-west-1:aws:microvm-image:al2023-1");
    assert_eq!((c.port, c.audio_port, c.video_port, c.input_port), (6901, 6902, 6903, 6904));
    assert_eq!(c.display.as_deref(), Some("h264"));
    assert_eq!(c.idle_suspend_minutes, None);
    assert_eq!(c.ingress_connector_arn, "");
    assert_eq!(c.egress_connector_arn, "");
    assert_eq!(c.aws_account_id.as_deref(), Some("1"));
    assert_eq!(c.aws_profile.as_deref(), Some("prof"));
}

#[test]
fn a_later_deployment_keeps_what_was_chosen() {
    let mut had = fresh();
    had.port = 1;
    had.audio_port = 2;
    had.video_port = 3;
    had.input_port = 4;
    had.display = Some("vnc".to_string());
    had.idle_suspend_minutes = Some(9);
    had.ingress_connector_arn = "in".to_string();
    had.egress_connector_arn = "out".to_string();
    let c = write_config("Hellbox", &full_outputs(), "us-east-1", "2", Some(" "), Some(&had))
        .ok()
        .unwrap();
    assert_eq!((c.port, c.audio_port, c.video_port, c.input_port), (1, 2, 3, 4));
    assert_eq!(c.display.as_deref(), Some("vnc"));
    assert_eq!(c.idle_suspend_minutes, Some(9));
    assert_eq!(c.ingress_connector_arn, "in");
    assert_eq!(c.egress_connector_arn, "out");
    assert_eq!(c.region, "us-east-1");
    assert_eq!(c.aws_account_id.as_deref(), Some("2"));
    assert_eq!(c.aws_profile, None);
    had.display = None;
    let c = write_config("Hellbox", &full_outputs(), "us-east-1", "2", None, Some(&had))
        .ok()
        .unwrap();
    assert_eq!(c.display, None);
}

#[test]
fn a_deployment_names_the_output_it_misses() {
    for (k, key) in ["ArtifactBucket", "BuildRoleArn", "ExecutionRoleArn"].iter().enumerate() {
        let mut outputs = full_outputs();
        outputs.remove(k);
        let e = write_config("S", &outputs, "r", "a", None, None).err().unwrap();
        assert_eq!(e, format!("stack 'S' has no '{key}' output"));
    }
}

#[test]
fn settings_lie_in_one_directory() {
    assert_eq!(place(shrink_dir(None, true)), ("~".to_string(), vec![".hellbox"]));
    assert_eq!(place(shrink_dir(Some(" "), true)), ("~".to_string(), vec![".hellbox"]));
    assert_eq!(place(shrink_dir(Some("/etc/h"), false)), ("/etc/h".to_string(), vec![]));
    assert_eq!(place(shrink_dir(Some("C:"), true)), ("C:".to_string(), vec![]));
    assert_eq!(
        shrink_dir(None, false).unwrap_err(),
        "could not resolve home directory for ~/.hellbox"
    );
    assert_eq!(
        place(Config::path(Some("/d"), false)),
        ("/d".to_string(), vec!["config.toml"])
    );
    assert_eq!(
        place(custom_template_path(None, true)),
        ("~".to_string(), vec![".hellbox", "stack.yaml"])
    );
    assert!(custom_template_path(None, false).is_err());
    assert_eq!(
        place(State::path(None, true)),
        ("~".to_string(), vec![".hellbox", "state.json"])
    );
}

#[test]
fn settings_are_changed_by_name() {
    let mut c = fresh();
    assert_eq!(
        config_cmd::set(&mut c, "idle_suspend_minutes", " 7 ").unwrap(),
        "set idle_suspend_minutes = 7  (`hellbox open` auto-suspends after 7 idle min)"
    );
    assert_eq!(c.idle_suspend_minutes, Some(7));
    assert_eq!(
        config_cmd::set(&mut c, "idle_suspend_minutes", "0").unwrap(),
        "set idle_suspend_minutes = 0  (auto-suspend off; platform IdlePolicy still applies)"
    );
    assert_eq!(
        config_cmd::set(&mut c, "idle_suspend_minutes", "soon").unwrap_err(),
        "idle_suspend_minutes must be a whole number of minutes"
    );
    assert_eq!(
        config_cmd::set(&mut c, "idle_suspend_minutes", "18446744073709551616").unwrap_err(),
        "idle_suspend_minutes must be a whole number of minutes"
    );
    assert_eq!(c.idle_suspend_minutes, Some(0));
    assert!(config_cmd::set(&mut c, "display", " VNC ").is_ok());
    assert_eq!(c.display, None);
    assert!(config_cmd::set(&mut c, "display", "H264").is_ok());
    assert_eq!(c.display.as_deref(), Some("h264"));
    assert_eq!(
        config_cmd::set(&mut c, "display", "Tv").unwrap_err(),
        "display must be 'vnc' (noVNC, default) or 'h264' (H.264/WebCodecs); got 'Tv'"
    );
    assert_eq!(
        config_cmd::set(&mut c, "port", "1").unwrap_err(),
        "unknown setting 'port'. Tunable keys: idle_suspend_minutes, display"
    );
}

#[test]
fn settings_are_cleared_and_shown() {
    let mut c = fresh();
    c.idle_suspend_minutes = Some(5);
    assert_eq!(
        config_cmd::show(&c, "/p"),
        vec![
            "settings (/p):",
            "  region            = eu-west-1",
            "  port              = 6901",
            "  audio_port        = 6902",
            "  idle_suspend_minutes  = 5  (auto-suspend ON)",
            "  display               = h264 (H.264/WebCodecs)",
        ]
    );
    assert!(config_cmd::unset(&mut c, "display").is_ok());
    assert!(config_cmd::unset(&mut c, "idle_suspend_minutes").is_ok());
    assert_eq!((c.display.clone(), c.idle_suspend_minutes), (None, None));
    assert_eq!(
        config_cmd::unset(&mut c, "x").unwrap_err(),
        "unknown setting 'x'. Tunable keys: idle_suspend_minutes, display"
    );
    let lines = config_cmd::show(&c, "/p");
    assert_eq!(lines[5], "  display               = vnc (noVNC, default)");
    assert!(lines[4].contains("<unset>"));
}

#[test]
fn upsert_merges_fields() {
    let mut s = State::default();
    s.upsert("demo", |c| Capsule { image_arn: Some("arn:image".to_string()), ..c });
    s.upsert("demo", |c| Capsule { microvm_id: Some("mvm-1".to_string()), ..c });
    let c = s.get("demo").unwrap();
    assert_eq!(c.image_arn.as_deref(), Some("arn:image"));
    assert_eq!(c.microvm_id.as_deref(), Some("mvm-1"));
}

#[test]
fn the_ledger_is_kept_in_order() {
    let mut s = State::new();
    assert!(s.is_empty());
    for name in ["b", "a", "ab", "", "é", "B"] {
        s.put(name, Capsule::default());
    }
    assert_eq!(s.names(), vec!["", "B", "a", "ab", "b", "é"]);
    s.remove("ab");
    s.remove("nobody");
    assert_eq!(s.names(), vec!["", "B", "a", "b", "é"]);
    assert!(s.get("ab").is_none());
    assert_eq!(
        s.require("ab").err().unwrap(),
        "no capsule named 'ab' in state — run `hellbox build --name ab` first"
    );
    let mut sorted = s.names();
    sorted.sort();
    assert_eq!(sorted, s.names());
}

#[test]
fn a_ledger_is_made_from_entries() {
    let s = State::from_entries(vec![
        ("b".to_string(), capsule(Some("1"), None)),
        ("a".to_string(), capsule(Some("2"), None)),
        ("b".to_string(), capsule(Some("3"), None)),
    ]);
    assert_eq!(s.names(), vec!["a", "b"]);
    assert_eq!(s.get("b").unwrap().microvm_id.as_deref(), Some("3"));
}

#[test]
fn a_cloned_ledger_stands_alone() {
    let mut s = State::new();
    s.put("b", Capsule { state: Some("RUNNING".to_string()), ..Capsule::default() });
    s.put("a", Capsule::default());
    let kept = s.clone();
    s.remove("b");
    assert_eq!(kept.names(), vec!["a", "b"]);
    assert_eq!(kept.get("b").unwrap().state.as_deref(), Some("RUNNING"));
    assert!(s.get("b").is_none());
}

#[test]
fn machines_are_recorded() {
    let mut s = State::new();
    record_launched(&mut s, "d", "id", "https://e", "PENDING");
    record_state(&mut s, "d", "RUNNING");
    record_endpoint(&mut s, "d", "RUNNING", "host");
    let c = s.get("d").unwrap();
    assert_eq!(c.microvm_id.as_deref(), Some("id"));
    assert_eq!(c.endpoint.as_deref(), Some("host"));
    assert_eq!(
        await_running(&mut s, "d", "FAILED", None).unwrap_err(),
        "microvm 'd' did not reach RUNNING (state FAILED)"
    );
    assert_eq!(s.get("d").unwrap().endpoint.as_deref(), Some("host"));
    assert!(await_running(&mut s, "d", "RUNNING", Some("new")).is_ok());
    assert_eq!(s.get("d").unwrap().endpoint.as_deref(), Some("new"));
    assert_eq!(
        suspended(&mut s, "d", "TERMINATED").unwrap_err(),
        "'d' did not suspend (state TERMINATED)"
    );
    assert!(suspended(&mut s, "d", "SUSPENDED").is_ok());
    assert_eq!(
        resumed(&mut s, "d", "FAILED", None).unwrap_err(),
        "'d' did not resume (state FAILED)"
    );
    assert!(resumed(&mut s, "d", "RUNNING", Some("newer")).is_ok());
    forget_machine(&mut s, "d");
    assert_eq!(s.get("d").unwrap().state.as_deref(), Some("RUNNING"));
    assert_eq!(s.get("d").unwrap().microvm_id, None);
    record_terminated(&mut s, "d");
    assert_eq!(s.get("d").unwrap().state.as_deref(), Some("TERMINATED"));
}

#[test]
fn what_cannot_be_done_is_said() {
    let none = capsule(None, None);
    assert_eq!(machine_for(Action::Suspend, &none, "d").unwrap_err(), "capsule 'd' isn't running");
    assert_eq!(
        machine_for(Action::Resume, &none, "d").unwrap_err(),
        "capsule 'd' has no microvm to resume"
    );
    assert_eq!(
        machine_for(Action::Terminate, &none, "d").unwrap_err(),
        "capsule 'd' has no running microvm"
    );
    assert_eq!(machine_for(Action::Suspend, &capsule(Some("m"), None), "d").unwrap(), "m");
    assert_eq!(
        machine_of(&none, "d").unwrap_err(),
        "capsule 'd' isn't running — `hellbox up --name d` first"
    );
    assert_eq!(
        machine_of(&capsule(Some("m"), None), "d").unwrap_err(),
        "capsule 'd' has no endpoint yet — is it RUNNING?"
    );
}

#[test]
fn launches_carry_what_is_set() {
    let mut cfg = fresh();
    cfg.ingress_connector_arn = " ".to_string();
    cfg.egress_connector_arn = "out".to_string();
    let mut c = capsule(None, Some("arn"));
    c.image_version = Some("v".to_string());
    let r = launch_request(&cfg, &c, "doom", 17).ok().unwrap();
    assert_eq!(r.image_id, "arn");
    assert_eq!(r.client_token, "ldoom-up-doom-17");
    assert_eq!(r.ingress_connector, None);
    assert_eq!(r.egress_connector.as_deref(), Some("out"));
    assert_eq!(r.execution_role_arn.as_deref(), Some("run"));
    c.image_arn = None;
    assert_eq!(launch_request(&cfg, &c, "doom", 17).ok().unwrap().image_id, "v");
    c.image_version = None;
    assert_eq!(
        launch_request(&cfg, &c, "doom", 17).err().unwrap(),
        "capsule 'doom' has no image yet — run `hellbox build` first"
    );
}

#[test]
fn another_account_is_refused() {
    let mut cfg = fresh();
    let me = Identity { account: "123456789012".to_string(), arn: "arn:me".to_string() };
    let other = Identity { account: "9".to_string(), arn: "arn:you".to_string() };
    assert!(require_same_account(&cfg, &me).is_ok());
    assert_eq!(
        require_same_account(&cfg, &other).unwrap_err(),
        "account mismatch: this Hellbox was deployed to account 123456789012, but your current credentials are for account 9 (arn:you).\nSwitch back to the profile you deployed with, or run `hellbox deploy` to set up in this account too."
    );
    cfg.aws_profile = Some("p".to_string());
    assert!(require_same_account(&cfg, &other)
        .unwrap_err()
        .starts_with("account mismatch: this Hellbox was deployed to account 123456789012 (profile 'p'), but"));
    cfg.aws_account_id = Some("".to_string());
    assert!(require_same_account(&cfg, &other).is_ok());
    cfg.aws_account_id = None;
    assert!(require_same_account(&cfg, &other).is_ok());
}

#[test]
fn credential_processes_are_found_by_profile() {
    let file = "[default]\r\ncredential_process = one\r\n\n# credential_process = no\n\
                [profile work]\n  ; comment\ncredential_process =\nregion = x\n\
                credential_process = two --opt=a#b ;c  \n[ profile home ]\nnonsense\n\
                credential_process=three";
    assert_eq!(credential_process_command(file, "default").as_deref(), Some("one"));
    assert_eq!(
        credential_process_command(file, "work").as_deref(),
        Some("two --opt=a#b ;c")
    );
    assert_eq!(credential_process_command(file, "home").as_deref(), Some("three"));
    assert_eq!(credential_process_command(file, "none"), None);
    assert_eq!(active_profile(None), "default");
    assert_eq!(active_profile(Some(" ")), "default");
    assert_eq!(active_profile(Some("work")), "work");
    assert_eq!(profile_to_use(Some("a"), Some("b")).as_deref(), Some("a"));
    assert_eq!(profile_to_use(Some(" "), Some("b")).as_deref(), Some("b"));
    assert_eq!(profile_to_use(None, Some("")), None);
    assert_eq!(profile_to_use(None, None), None);
    assert_eq!(
        place(Ok(aws_config_file(None, true))),
        ("~".to_string(), vec![".aws", "config"])
    );
    assert_eq!(place(Ok(aws_config_file(Some("/x"), true))), ("/x".to_string(), vec![]));
    assert_eq!(
        place(Ok(aws_config_file(Some(""), false))),
        (".".to_string(), vec![".aws", "config"])
    );
}

#[test]
fn process_credentials_are_checked() {
    let creds = |key: &str, secret: &str, expires: Option<&str>| ProcessCreds {
        access_key_id: key.to_string(),
        secret_access_key: secret.to_string(),
        session_token: None,
        expiration: expires.map(|e| e.to_string()),
    };
    assert_eq!(parse_process_credentials(&creds("", "s", None)), None);
    assert_eq!(parse_process_credentials(&creds("k", "", None)), None);
    assert_eq!(parse_process_credentials(&creds("k", "s", None)), Some(None));
    assert_eq!(parse_process_credentials(&creds("k", "s", Some("soon"))), Some(None));
    assert_eq!(
        parse_process_credentials(&creds("k", "s", Some("1970-01-02T00:00:00.5Z"))),
        Some(Some(86_400_500_000_000))
    );
    assert_eq!(usable_credentials(&creds("k", "s", Some("x")), Some(3)), Some(Some(3)));
    assert_eq!(usable_credentials(&creds("k", "s", None), Some(3)), Some(None));
}

#[test]
fn only_a_login_session_is_rescued() {
    assert_eq!(rescue("needs credentials-login feature", true), Rescue::RunProcess);
    assert_eq!(rescue("needs credentials-login feature", false), Rescue::ExplainLogin);
    assert_eq!(rescue("expired", true), Rescue::ExplainPlain);
}

#[test]
fn machines_are_adopted_once() {
    let mut s = State::new();
    let list = vec![
        listed("m0", "other", "RUNNING"),
        listed("m1", "arn", "TERMINATED"),
        listed("m2", "arn", "SUSPENDED"),
        listed("m3", "arn", "RUNNING"),
    ];
    assert_eq!(find_untracked(&s, "doom", &list, "arn"), Some(2));
    let imp = adopt(&mut s, "doom", "arn", &list[2], Some("https://h/"));
    assert_eq!((imp.name.as_str(), imp.state.as_str()), ("doom", "SUSPENDED"));
    let c = s.get("doom").unwrap();
    assert_eq!(c.endpoint.as_deref(), Some("h"));
    assert_eq!(c.image_arn.as_deref(), Some("arn"));
    assert_eq!(find_untracked(&s, "doom", &list, "arn"), None);
    assert_eq!(find_untracked(&s, "doom", &list, "nothing"), None);
}

#[test]
fn parameters_are_read() {
    let raw = vec!["A=1".to_string(), "B=x=y".to_string()];
    assert_eq!(
        parse_parameters(&raw).unwrap(),
        vec![
            ("A".to_string(), "1".to_string()),
            ("B".to_string(), "x=y".to_string())
        ]
    );
    let bad = vec!["A=1".to_string(), "B".to_string(), "C".to_string()];
    assert_eq!(
        parse_parameters(&bad).unwrap_err(),
        "--parameter 'B' is not KEY=VALUE (e.g. -p BuildServicePrincipal=lambda.amazonaws.com)"
    );
}

#[test]
fn regions_are_chosen_in_order() {
    let f = resolve_region;
    assert_eq!(f(Some("f"), Some("a"), Some("b"), Some("c"), Some("d")), "f");
    assert_eq!(f(None, Some("a"), Some("b"), Some("c"), Some("d")), "a");
    assert_eq!(f(None, Some(" "), Some("b"), Some("c"), Some("d")), "b");
    assert_eq!(f(None, None, Some(""), Some("c"), Some("d")), "c");
    assert_eq!(f(None, None, None, None, Some("d")), "d");
    assert_eq!(f(None, None, None, None, None), "us-east-1");
    assert_eq!(editor(Some("v"), Some("e"), false), "v");
    assert_eq!(editor(None, Some("e"), false), "e");
    assert_eq!(editor(None, None, false), "vi");
    assert_eq!(editor(None, None, true), "notepad");
}

#[test]
fn a_stack_is_created_or_updated() {
    assert_eq!(after_create(Ok(())), StackStep::Wait);
    assert_eq!(after_create(Err(Some("Stack [x] already exists"))), StackStep::Update);
    assert_eq!(after_create(Err(Some("denied"))), StackStep::Fail);
    assert_eq!(after_create(Err(None)), StackStep::Fail);
    assert_eq!(after_update(Ok(())), StackStep::Wait);
    assert_eq!(
        after_update(Err(Some("No updates are to be performed."))),
        StackStep::Done
    );
    assert_eq!(after_update(Err(None)), StackStep::Fail);
    assert!(error_says(Some("abc"), "b"));
    assert!(stack_deployed("S", "CREATE_COMPLETE").is_ok());
    assert!(stack_deployed("S", "UPDATE_COMPLETE").is_ok());
    assert_eq!(
        stack_deployed("S", "ROLLBACK_COMPLETE").unwrap_err(),
        "stack 'S' did not deploy cleanly (status ROLLBACK_COMPLETE) — check the CloudFormation console"
    );
    assert_eq!(stack_state(None), "UNKNOWN");
    assert_eq!(stack_states().len(), 7);
}

#[test]
fn what_is_in_the_account_is_rediscovered() {
    let image = |state: &str, v: Option<&str>| {
        Some(ImageInfo { state: state.to_string(), active_version: v.map(|s| s.to_string()) })
    };
    assert!(existing_image_active(&image("CREATED", Some("1"))));
    assert!(!existing_image_active(&image("CREATED", None)));
    assert!(!existing_image_active(&image("CREATING", Some("1"))));
    assert!(!existing_image_active(&None));

    let list = vec![listed("m1", "arn", "TERMINATED"), listed("m2", "arn", "RUNNING")];
    let mut s = State::new();
    assert_eq!(reconcile_state(&mut s, "d", "arn", &None, &list, None), Found::Nothing);
    assert_eq!(
        reconcile_state(&mut s, "d", "arn", &image("DELETING", None), &list, None),
        Found::Nothing
    );
    assert!(s.is_empty());
    assert_eq!(
        reconcile_state(&mut s, "d", "arn", &image("CREATED", Some("1")), &list, Some("wss://h/")),
        Found::Machine(1)
    );
    let c = s.get("d").unwrap();
    assert_eq!(c.microvm_id.as_deref(), Some("m2"));
    assert_eq!(c.endpoint.as_deref(), Some("h"));
    assert_eq!(c.image_version.as_deref(), Some("1"));
    assert_eq!(
        reconcile_state(&mut s, "d", "arn", &image("CREATED", None), &Vec::new(), None),
        Found::Known
    );
    assert_eq!(s.get("d").unwrap().microvm_id.as_deref(), Some("m2"));
    assert_eq!(s.get("d").unwrap().image_version, None);
    assert_eq!(
        reconcile_state(&mut s, "d", "arn", &image("CREATED", None), &list, None),
        Found::Known
    );
    assert_eq!(s.get("d").unwrap().endpoint.as_deref(), Some("h"));
    let other = vec![listed("m3", "arn", "RUNNING")];
    assert_eq!(
        reconcile_state(&mut s, "d", "arn", &image("CREATED", None), &other, None),
        Found::Known
    );
    assert_eq!(s.get("d").unwrap().microvm_id.as_deref(), Some("m3"));
    assert_eq!(s.get("d").unwrap().endpoint, None);
    assert_eq!(
        reconcile_state(&mut s, "e", "arn", &image("CREATED", None), &Vec::new(), None),
        Found::Image
    );
}

fn ours() -> Stack {
    stack(
        Some("Hellbox prerequisites"),
        &[("ArtifactBucket", "bucket"), ("BuildRoleArn", "arn")],
    )
}

#[test]
fn only_what_is_ours_is_planned_away() {
    let p = plan("Hellbox", "r", "bucket", Some(&ours())).ok().unwrap();
    assert!(p.stack);
    assert_eq!(p.bucket.as_deref(), Some("bucket"));
    let p = plan("Hellbox", "r", "bucket", None).ok().unwrap();
    assert!(!p.stack && p.bucket.is_none());
    let e = plan("Hellbox", "r", "bucket", Some(&stack(None, &[]))).err().unwrap();
    assert_eq!(
        e,
        "stack 'Hellbox' in r does not look like a Hellbox prerequisites stack (missing the Hellbox template markers) — refusing to delete it. If you deployed with a custom stack name, set HELLBOX_STACK; otherwise remove the stack manually."
    );
    let e = plan("Hellbox", "r", "mine", Some(&ours())).err().unwrap();
    assert_eq!(
        e,
        "the 'Hellbox' stack owns bucket 'bucket' but ~/.hellbox/config.toml says 'mine' — refusing to touch either until that mismatch is resolved (stale config from an older deploy?). Run `hellbox deploy` to rewrite the config, or fix it by hand."
    );
}

#[test]
fn the_plan_is_told() {
    let all = Plan { stack: true, bucket: Some("b".to_string()) };
    assert_eq!(
        describe(Some(&capsule(Some("m"), Some("i"))), "S", "r", &all),
        vec![
            "hellbox destroy will remove exactly these Hellbox-created resources:",
            "  • MicroVM  m  (the running DOOM machine)",
            "  • Image    i  (the baked DOOM snapshot)",
            "  • Bucket   s3://b  (build contexts only; emptied so CloudFormation can delete it)",
            "  • Stack    'S' in r  (verified Hellbox prerequisites: the bucket + two IAM roles)",
            "  • Local    ~/.hellbox/config.toml and ~/.hellbox/state.json",
            "Nothing else in your AWS account is touched.",
        ]
    );
    let none = Plan { stack: false, bucket: None };
    let lines = describe(Some(&capsule(None, None)), "S", "r", &none);
    assert_eq!(lines[1], "  • MicroVM/image: none recorded — skipped");
    assert_eq!(lines[2], "  • Stack    'S': not found in r — skipped");
    assert_eq!(describe(None, "S", "r", &none), lines);
}

#[test]
fn the_ledger_goes_last() {
    let all = Plan { stack: true, bucket: Some("b".to_string()) };
    let none = Plan { stack: false, bucket: None };
    assert_eq!(
        steps(Some(&capsule(None, Some("i"))), &all),
        vec![
            DestroyStep::RemoveMachine,
            DestroyStep::EmptyBucket,
            DestroyStep::DeleteStack,
            DestroyStep::RemoveLocal
        ]
    );
    assert_eq!(steps(Some(&capsule(None, None)), &none), vec![DestroyStep::RemoveLocal]);
    assert_eq!(steps(None, &none), vec![DestroyStep::RemoveLocal]);
}

#[test]
fn nothing_goes_unconfirmed() {
    assert!(confirm(true, None).is_ok());
    assert!(confirm(false, Some(" destroy\n")).is_ok());
    assert_eq!(
        confirm(false, None).unwrap_err(),
        "not an interactive terminal — rerun with --yes to confirm the plan above"
    );
    assert_eq!(
        confirm(false, Some("Destroy")).unwrap_err(),
        "aborted — nothing was deleted"
    );
}

#[test]
fn deletions_are_followed() {
    assert!(stack_is_absent("Stack with id x does not exist"));
    assert!(!stack_is_absent("throttled"));
    assert_eq!(deletion_state(None), "DELETE_COMPLETE");
    assert_eq!(deletion_state(Some("DELETE_FAILED")), "DELETE_FAILED");
    assert!(stack_deleted("S", "DELETE_COMPLETE").is_ok());
    assert_eq!(
        stack_deleted("S", "DELETE_FAILED").unwrap_err(),
        "stack 'S' did not finish deleting (status DELETE_FAILED) — check the CloudFormation console; resources may remain and still bill"
    );
    assert_eq!(bucket_step(Err("NoSuchBucket: gone")), BucketStep::Done);
    assert_eq!(bucket_step(Err("denied")), BucketStep::Fail);
    assert_eq!(bucket_step(Ok((0, true))), BucketStep::Done);
    assert_eq!(bucket_step(Ok((2, true))), BucketStep::DeleteAndLook);
    assert_eq!(bucket_step(Ok((2, false))), BucketStep::DeleteLast);
}

#[test]
fn images_are_made_or_left_alone() {
    assert_eq!(after_refusal(Some("it already exists")), CreateStep::Inspect);
    assert_eq!(after_refusal(None), CreateStep::Fail);
    let mut retries = 0;
    assert_eq!(after_look(Some("CREATE_FAILED"), &mut retries), CreateStep::DeleteAndRetry);
    assert_eq!(after_look(Some("CREATED"), &mut retries), CreateStep::Usable);
    assert_eq!(retries, 0);
    for _ in 0..18 {
        assert_eq!(after_look(None, &mut retries), CreateStep::AwaitRelease);
    }
    assert_eq!(after_look(None, &mut retries), CreateStep::Usable);
    assert_eq!(retries, 18);
    assert_eq!(
        usable_image("d"),
        "image 'd' already exists and is usable. `hellbox up --name d` launches it as-is; to rebuild from the current capsule, `hellbox rm --name d` first, then build again"
    );
    assert_eq!(context_key("d"), "contexts/d.zip");
    assert_eq!(artifact_uri("b", "k"), "s3://b/k");
    assert_eq!(client_token("d", 0), "hellbox-build-d-0");
    let mut s = State::new();
    record_created(&mut s, "d", "arn", &None, "CREATING");
    assert_eq!(
        record_built(&mut s, "d", "CREATE_FAILED", &None).unwrap_err(),
        "image build for 'd' failed (state CREATE_FAILED)"
    );
    assert!(record_built(&mut s, "d", "CREATED", &Some("1".to_string())).is_ok());
    assert!(record_built(&mut s, "d", "CREATED", &None).is_ok());
    let c = s.get("d").unwrap();
    assert_eq!(c.image_version.as_deref(), Some("1"));
    assert_eq!(c.state.as_deref(), Some("CREATED"));
}

#[test]
fn build_contexts_hold_plain_files_only() {
    let check = |kind| validate_zip_file_entry(kind, "a/b");
    assert_eq!(check(EntryKind::Directory), Ok(Packed::Directory));
    assert_eq!(check(EntryKind::File { links: Some(1) }), Ok(Packed::File));
    assert_eq!(check(EntryKind::File { links: None }), Ok(Packed::File));
    assert!(check(EntryKind::Symlink).unwrap_err().contains("symlink (a/b)"));
    assert!(check(EntryKind::File { links: Some(2) }).unwrap_err().contains("hardlink (a/b)"));
    assert!(check(EntryKind::Other).unwrap_err().contains("non-regular file (a/b)"));
    assert_eq!(entry_name(&vec!["a", "b"], Packed::File), "a/b");
    assert_eq!(entry_name(&vec!["a", "b"], Packed::Directory), "a/b/");
    assert_eq!(capsule_dir(Some(("x", true)), false), Ok(CapsuleSource::Given));
    assert_eq!(capsule_dir(Some(("x", false)), true), Err("no capsule dir at x".to_string()));
    assert_eq!(capsule_dir(None, true), Ok(CapsuleSource::Local));
    assert_eq!(capsule_dir(None, false), Ok(CapsuleSource::Embedded));
}

#[test]
fn names_on_disk_are_random() {
    assert_eq!(suffix_of(&[0x01, 0x02, 0xff]), "ff0201");
    let number = u128::from_le_bytes([7, 0, 0, 0, 0, 0, 0, 0, 0, 0, 0, 0, 0, 0, 0, 9]);
    assert_eq!(
        suffix_of(&[7, 0, 0, 0, 0, 0, 0, 0, 0, 0, 0, 0, 0, 0, 0, 9]),
        format!("{number:032x}")
    );
    let a = random_context_suffix().unwrap();
    let b = random_context_suffix().unwrap();
    assert_eq!((a.len(), b.len()), (32, 32));
    assert_ne!(a, b);
    assert_ne!(a, "0".repeat(32));
}

#[test]
fn secrets_are_random() {
    assert_eq!(secret_of(&[0, 0x1f, 0xab]), "001fab");
    let a = generate_control_secret().unwrap();
    let b = generate_control_secret().unwrap();
    assert_eq!((a.len(), b.len()), (64, 64));
    assert_ne!(a, b);
    assert!(a.chars().all(|c| c.is_ascii_hexdigit()));
}

#[test]
fn sessions_start_fresh() {
    let cfg = fresh();
    let p = session(
        &cfg,
        "doom",
        "mvm",
        "h".to_string(),
        "t".to_string(),
        "s".to_string(),
        10,
    );
    assert_eq!(p.local_port, 6080);
    assert_eq!(p.port_for("/hellbox/input/ev"), 6904);
    assert_eq!(p.port_for("/"), 6901);
    let c = p.control.unwrap();
    assert_eq!(c.token_ports, token_ports(&cfg));
    assert_eq!(c.token_ports, vec![6901, 6902, 6903, 6904]);
    assert!(!c.entry_token_used);
    assert_eq!(c.entry_token_deadline, 120_000_000_010);
    assert_eq!((c.name.as_str(), c.microvm_id.as_str()), ("doom", "mvm"));
}

#[test]
fn addresses_carry_the_secret() {
    assert_eq!(
        entry_url("http://127.0.0.1:6080", true, "s"),
        "http://127.0.0.1:6080/?display=h264&hbk=s"
    );
    assert_eq!(entry_url("http://127.0.0.1:6080", false, "s"), "http://127.0.0.1:6080/?hbk=s");
    assert_eq!(page_url("http://x", "s"), "http://x/?hbk=s");
    assert_eq!(channel_url("http://127.0.0.1:1", "video"), "ws://127.0.0.1:1/hellbox/video");
    assert_eq!(channel_url("127.0.0.1", "video"), "127.0.0.1/hellbox/video");
    assert_eq!(origin_of("http://127.0.0.1:6080/?hbk=s"), "http://127.0.0.1:6080");
    assert_eq!(origin_of("http://x"), "http://x");
}

#[test]
fn checks_back_off() {
    let delays: Vec<ProbeStep> =
        (0..CHANNEL_ATTEMPTS).map(|a| probe_step(a, CHANNEL_ATTEMPTS, false)).collect();
    let retry = |delay| ProbeStep::Retry { delay };
    assert_eq!(
        delays,
        vec![retry(2), retry(4), retry(8), retry(8), retry(8), ProbeStep::Failed]
    );
    assert_eq!(probe_step(4, PAGE_ATTEMPTS, false), ProbeStep::Failed);
    assert_eq!(probe_step(4, PAGE_ATTEMPTS, true), ProbeStep::Passed);
    let all = Checked { page: true, video: true, audio: true, input: true };
    assert_eq!(
        check_outcome(all, true).unwrap(),
        "verified: page ✓  video ✓  audio ✓  input ✓"
    );
    let some = Checked { video: false, input: false, ..all };
    assert_eq!(
        check_outcome(some, false).unwrap(),
        "warning: video, input not answering yet — the page may still recover once loaded"
    );
    assert!(check_outcome(some, true)
        .unwrap_err()
        .starts_with("end-to-end verification failed (video, input) — the capsule is up"));
}

#[test]
fn the_whole_chain_is_checked_in_order() {
    let (mut v, first) = Verification::new();
    assert_eq!(first, VerifyStep::Probe { target: Target::Page, delay: 0 });
    for delay in [2, 4, 8, 8] {
        assert_eq!(
            v.report(Outcome::NotReached),
            VerifyStep::Probe { target: Target::Page, delay }
        );
    }
    assert_eq!(
        v.report(Outcome::Reached),
        VerifyStep::Probe { target: Target::Video, delay: 0 }
    );
    for delay in [2, 4, 8, 8, 8] {
        assert_eq!(
            v.report(Outcome::NotReached),
            VerifyStep::Probe { target: Target::Video, delay }
        );
    }
    assert_eq!(
        v.report(Outcome::NotReached),
        VerifyStep::Probe { target: Target::Audio, delay: 0 }
    );
    assert_eq!(
        v.report(Outcome::Unusable),
        VerifyStep::Probe { target: Target::Input, delay: 0 }
    );
    assert_eq!(
        v.report(Outcome::Reached),
        VerifyStep::Done(Checked { page: true, video: false, audio: false, input: true })
    );
}

#[test]
fn idle_sessions_are_suspended_in_time() {
    let mut w = IdleWatch::new();
    for _ in 0..100 {
        assert!(!w.tick(0, 1));
    }
    assert!(!w.tick(2, 1));
    assert!(!w.tick(0, 1));
    assert!(!w.tick(0, 1));
    assert!(!w.tick(1, 1));
    let quiet: Vec<bool> = (0..4).map(|_| w.tick(0, 1)).collect();
    assert_eq!(quiet, vec![false, false, false, true]);
}

#[test]
fn playing_takes_what_it_takes() {
    let c = capsule(Some("m"), Some("i"));
    assert_eq!(play_step(Some("RUNNING"), &c), PlayStep::Open);
    assert_eq!(play_step(Some("SUSPENDED"), &c), PlayStep::Open);
    assert_eq!(play_step(Some("SUSPENDING"), &c), PlayStep::Open);
    assert_eq!(play_step(Some("PENDING"), &c), PlayStep::Await);
    assert_eq!(play_step(Some("TERMINATED"), &c), PlayStep::CheckImage);
    assert_eq!(play_step(None, &c), PlayStep::CheckImage);
    assert_eq!(play_step(None, &capsule(Some("m"), None)), PlayStep::NoImage);
    assert_eq!(after_image_check(true, true), PlayStep::Relaunch);
    assert_eq!(after_image_check(false, true), PlayStep::Unexpected);
    assert_eq!(after_image_check(false, false), PlayStep::OfferRebuild);
    assert_eq!(play_choice('t'), PlayChoice::Terminate);
    assert_eq!(play_choice('k'), PlayChoice::Keep);
    assert_eq!(play_choice('x'), PlayChoice::Play);
    assert!(machine_is_gone("ResourceNotFoundException"));
    assert!(!machine_is_gone("AccessDenied"));
    assert_eq!(no_capsule("d"), "no capsule named 'd' — run `hellbox deploy` first");
    assert_eq!(no_image("d"), "capsule 'd' has no image — run `hellbox deploy`");
    assert!(unexpected_image("d").contains("try `hellbox rm --name d` then"));
    assert!(offer_rebuild("d", 'y').is_ok());
    assert_eq!(
        offer_rebuild("d", 'n').unwrap_err(),
        "run `hellbox deploy` to rebuild the 'd' image, then try again"
    );
}

#[test]
fn the_table_follows_the_account() {
    let mut s = State::new();
    assert_eq!(print_table(&s), vec!["no capsules yet — `hellbox build --name <name>`"]);
    s.put("b", capsule(Some("m1"), Some("i")));
    s.put("a", capsule(Some("gone"), Some("i")));
    s.put("c", capsule(None, None));
    let list = vec![listed("m1", "i", "PENDING"), listed("m1", "i", "RUNNING")];
    reconcile(&mut s, &list);
    assert_eq!(s.get("b").unwrap().state.as_deref(), Some("RUNNING"));
    assert_eq!(s.get("a").unwrap().state.as_deref(), Some("TERMINATED"));
    assert_eq!(s.get("a").unwrap().microvm_id, None);
    assert_eq!(s.get("a").unwrap().image_arn.as_deref(), Some("i"));
    assert_eq!(s.get("c").unwrap().state, None);
    let lines = print_table(&s);
    let row = |n: &str, st: &str, m: &str, e: &str| format!("{n:<16} {st:<12} {m:<22} {e}");
    assert_eq!(
        lines,
        vec![
            row("NAME", "STATE", "MICROVM", "ENDPOINT"),
            row("a", "TERMINATED", "-", "-"),
            row("b", "RUNNING", "m1", "-"),
            row("c", "-", "-", "-"),
        ]
    );
    assert_eq!(candidates(&s), vec!["a", "b", "c", "doom"]);
    s.put("doom", capsule(None, None));
    assert_eq!(candidates(&s), vec!["a", "b", "c", "doom"]);
}

#[test]
fn removing_ends_what_holds_the_image() {
    assert_eq!(target_image(&capsule(None, Some("x")), "r", "a", "d"), "x");
    assert_eq!(
        target_image(&capsule(None, None), "r", "a", "d"),
        "arn:aws:lambda:r:a:microvm-image:d"
    );
    let list = vec![
        listed("1", "i", "RUNNING"),
        listed("2", "i", "TERMINATED"),
        listed("3", "j", "RUNNING"),
        listed("4", "i", "SUSPENDED"),
    ];
    assert_eq!(terminate_image_microvms(&list, "i"), vec!["1", "4"]);
    assert_eq!(termination_state(None), "TERMINATED");
    assert_eq!(termination_state(Some("RUNNING")), "RUNNING");
    let error = |code: Option<&str>, message: Option<&str>| {
        Some(DeleteError {
            code: code.map(|s| s.to_string()),
            message: message.map(|s| s.to_string()),
        })
    };
    assert_eq!(after_delete(&None, 0), DeleteStep::Done);
    assert_eq!(
        after_delete(&error(Some("ResourceNotFoundException"), None), 0),
        DeleteStep::Done
    );
    let held = error(Some("Conflict"), Some("image has a running MicroVM"));
    assert_eq!(after_delete(&held, 179_999), DeleteStep::Retry);
    assert_eq!(after_delete(&held, 180_000), DeleteStep::Fail);
    assert_eq!(after_delete(&error(None, None), 0), DeleteStep::Fail);
}
