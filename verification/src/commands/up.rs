//! Launching, suspending, resuming and terminating a machine.

use crate::config::{copy_text, Config};
use crate::lifecycle::{awaited, in_state, record_awaited, record_state};
use crate::number::{decimal_text, decimal_u64};
use crate::state::{known, Capsule, CapsuleView, State};
use crate::text::{opt_str, opt_text, same, trim, trimmed};
use vstd::prelude::*;

verus! {

/// The most that a machine lives, in seconds.
pub const MAX_DURATION_SECS: i32 = 28_800;

/// How long a machine is idle before the service suspends it, in seconds.
pub const MAX_IDLE_SECS: i32 = 300;

/// How long a machine stays suspended before the service terminates it, in seconds.
pub const SUSPENDED_DURATION_SECS: i32 = 28_800;

/// What a machine is launched with.
pub struct LaunchRequest {
    pub image_id: String,
    pub client_token: String,
    pub ingress_connector: Option<String>,
    pub egress_connector: Option<String>,
    pub execution_role_arn: Option<String>,
}

/// The image to launch: by its ARN, or else by its version.
pub open spec fn image_to_launch(c: CapsuleView) -> Option<Seq<char>> {
    if c.image_arn is Some {
        c.image_arn
    } else {
        c.image_version
    }
}

/// A setting, unless it is blank.
pub open spec fn unless_blank(s: Seq<char>) -> Option<Seq<char>> {
    if trimmed(s).len() > 0 {
        Some(s)
    } else {
        None
    }
}

/// A setting, unless it is blank.
fn some_unless_blank(s: &str) -> (r: Option<String>)
    ensures
        opt_text(r) == unless_blank(s@),
{
    if trim(s).is_empty() {
        None
    } else {
        Some(s.to_owned())
    }
}

/// What a machine is launched with at a point in time, in seconds. The token differs from
/// launch to launch, so that the service never answers with a machine of before.
pub fn launch_request(cfg: &Config, capsule: &Capsule, name: &str, now: u64) -> (r: Result<
    LaunchRequest,
    String,
>)
    ensures
        match r {
            Ok(req) => {
                &&& image_to_launch(capsule@) == Some(req.image_id@)
                &&& req.client_token@ == "ldoom-up-"@ + name@ + "-"@ + decimal_text(now as int)
                &&& opt_text(req.ingress_connector) == unless_blank(cfg@.ingress_connector_arn)
                &&& opt_text(req.egress_connector) == unless_blank(cfg@.egress_connector_arn)
                &&& opt_text(req.execution_role_arn) == cfg@.execution_role_arn
            },
            Err(e) => image_to_launch(capsule@) is None && e@ == "capsule '"@ + name@
                + "' has no image yet — run `hellbox build` first"@,
        },
{
    let image: Option<String> = if capsule.image_arn.is_some() {
        copy_text(&capsule.image_arn)
    } else {
        copy_text(&capsule.image_version)
    };
    match image {
        Some(image_id) => {
            let mut client_token = "ldoom-up-".to_owned();
            client_token.append(name);
            client_token.append("-");
            let secs = decimal_u64(now);
            client_token.append(secs.as_str());
            Ok(
                LaunchRequest {
                    image_id,
                    client_token,
                    ingress_connector: some_unless_blank(cfg.ingress_connector_arn.as_str()),
                    egress_connector: some_unless_blank(cfg.egress_connector_arn.as_str()),
                    execution_role_arn: copy_text(&cfg.execution_role_arn),
                },
            )
        },
        None => {
            let mut e = "capsule '".to_owned();
            e.append(name);
            e.append("' has no image yet — run `hellbox build` first");
            Err(e)
        },
    }
}

/// What is done to a machine.
#[derive(Clone, Copy, PartialEq, Eq, Structural, Debug)]
pub enum Action {
    Suspend,
    Resume,
    Terminate,
}

/// What is said where there is no machine to do it to.
pub open spec fn no_machine_text(action: Action, name: Seq<char>) -> Seq<char> {
    match action {
        Action::Suspend => "capsule '"@ + name + "' isn't running"@,
        Action::Resume => "capsule '"@ + name + "' has no microvm to resume"@,
        Action::Terminate => "capsule '"@ + name + "' has no running microvm"@,
    }
}

/// The machine of a capsule that something is to be done to.
pub fn machine_for(action: Action, capsule: &Capsule, name: &str) -> (r: Result<String, String>)
    ensures
        match r {
            Ok(id) => capsule@.microvm_id == Some(id@),
            Err(e) => capsule@.microvm_id is None && e@ == no_machine_text(action, name@),
        },
{
    match &capsule.microvm_id {
        Some(id) => Ok(id.as_str().to_owned()),
        None => {
            let mut e = "capsule '".to_owned();
            e.append(name);
            match action {
                Action::Suspend => e.append("' isn't running"),
                Action::Resume => e.append("' has no microvm to resume"),
                Action::Terminate => e.append("' has no running microvm"),
            }
            Err(e)
        },
    }
}

/// Records a machine that was waited for to be suspended; an error unless it is.
pub fn suspended(state: &mut State, name: &str, reached: &str) -> (r: Result<(), String>)
    ensures
        final(state)@ == old(state)@.insert(
            name@,
            CapsuleView { state: Some(reached@), ..known(old(state)@, name@) },
        ),
        final(state)@ == old(state)@.insert(name@, in_state(known(old(state)@, name@), reached@)),
        r is Ok <==> reached@ == "SUSPENDED"@,
        r matches Err(e) ==> e@ == "'"@ + name@ + "' did not suspend (state "@ + reached@ + ")"@,
{
    record_state(state, name, reached);
    if same(reached, "SUSPENDED") {
        Ok(())
    } else {
        let mut e = "'".to_owned();
        e.append(name);
        e.append("' did not suspend (state ");
        e.append(reached);
        e.append(")");
        Err(e)
    }
}

/// Records a machine that was waited for to run again, and where it is reached now; an error
/// unless it runs.
pub fn resumed(state: &mut State, name: &str, reached: &str, endpoint: Option<&str>) -> (r: Result<
    (),
    String,
>)
    ensures
        final(state)@ == old(state)@.insert(
            name@,
            awaited(known(old(state)@, name@), reached@, opt_str(endpoint)),
        ),
        r is Ok <==> reached@ == "RUNNING"@,
        r matches Err(e) ==> e@ == "'"@ + name@ + "' did not resume (state "@ + reached@ + ")"@,
{
    record_awaited(state, name, reached, endpoint);
    if same(reached, "RUNNING") {
        Ok(())
    } else {
        let mut e = "'".to_owned();
        e.append(name);
        e.append("' did not resume (state ");
        e.append(reached);
        e.append(")");
        Err(e)
    }
}

/// Two launches at different times have different tokens.
pub proof fn law_launches_differ(name: Seq<char>, a: u64, b: u64)
    requires
        a != b,
    ensures
        "ldoom-up-"@ + name + "-"@ + decimal_text(a as int) != "ldoom-up-"@ + name + "-"@
            + decimal_text(b as int),
{
    let p = "ldoom-up-"@ + name + "-"@;
    let x = p + decimal_text(a as int);
    let y = p + decimal_text(b as int);
    if x == y {
        assert(x.skip(p.len() as int) =~= decimal_text(a as int));
        assert(y.skip(p.len() as int) =~= decimal_text(b as int));
        crate::number::lemma_digits_injective(a as nat, b as nat);
    }
}

/// A capsule can be launched wherever an image of it is recorded, and is launched by the
/// image's name before its version.
pub proof fn law_recorded_images_launch(c: CapsuleView)
    ensures
        image_to_launch(c) is Some <==> c.image_arn is Some || c.image_version is Some,
        c.image_arn is Some ==> image_to_launch(c) == c.image_arn,
        c.image_arn is None ==> image_to_launch(c) == c.image_version,
{
}

/// A connector is used as it is set, and left to the service where it is blank.
pub proof fn law_blank_connectors_are_left_out(s: Seq<char>)
    ensures
        trimmed(s).len() > 0 ==> unless_blank(s) == Some(s),
        trimmed(s).len() == 0 ==> unless_blank(s) is None,
{
}

/// After a resume the machine is there for the next command: the record names the machine that
/// it named before, so that it can be suspended, resumed and terminated again.
pub proof fn law_resumed_machines_are_found(
    records: Map<Seq<char>, CapsuleView>,
    name: Seq<char>,
    reached: Seq<char>,
    endpoint: Option<Seq<char>>,
    other: Seq<char>,
)
    ensures
        ({
            let after = records.insert(name, awaited(known(records, name), reached, endpoint));
            &&& known(after, name).microvm_id == known(records, name).microvm_id
            &&& known(after, name).image_arn == known(records, name).image_arn
            &&& known(after, name).image_version == known(records, name).image_version
            &&& known(after, name).state == Some(reached)
            &&& known(after, name).endpoint == (match endpoint {
                Some(e) => Some(e),
                None => known(records, name).endpoint,
            })
            &&& other != name ==> known(after, other) == known(records, other)
        }),
{
}

/// A refusal names the capsule and what was to be done.
pub proof fn law_missing_machines_are_told(action: Action, name: Seq<char>)
    ensures
        no_machine_text(action, name) == "capsule '"@ + name + (match action {
            Action::Suspend => "' isn't running"@,
            Action::Resume => "' has no microvm to resume"@,
            Action::Terminate => "' has no running microvm"@,
        }),
{
}

/// Suspending and resuming succeed where the machine got there and nowhere else, and either
/// way the record tells where it is and no other record changes.
pub proof fn law_moves_succeed_where_they_end(
    state: &mut State,
    name: &str,
    reached: &str,
    endpoint: Option<&str>,
    r: Result<(), String>,
)
    ensures
        call_ensures(suspended, (state, name, reached), r) ==> {
            &&& r is Ok <==> reached@ == "SUSPENDED"@
            &&& final(state)@.remove(name@) =~= old(state)@.remove(name@)
            &&& known(final(state)@, name@).state == Some(reached@)
            &&& known(final(state)@, name@).microvm_id == known(old(state)@, name@).microvm_id
            &&& known(final(state)@, name@).endpoint == known(old(state)@, name@).endpoint
        },
        call_ensures(resumed, (state, name, reached, endpoint), r) ==> {
            &&& r is Ok <==> reached@ == "RUNNING"@
            &&& final(state)@.remove(name@) =~= old(state)@.remove(name@)
            &&& known(final(state)@, name@).state == Some(reached@)
            &&& known(final(state)@, name@).microvm_id == known(old(state)@, name@).microvm_id
        },
{
}

/// A capsule is launched where an image of it is recorded, and what is moved is the machine
/// that is recorded.
pub proof fn law_launches_are_of_the_record(
    cfg: &Config,
    capsule: &Capsule,
    name: &str,
    now: u64,
    action: Action,
    asked: Result<LaunchRequest, String>,
    moved: Result<String, String>,
)
    requires
        call_ensures(launch_request, (cfg, capsule, name, now), asked),
        call_ensures(machine_for, (action, capsule, name), moved),
    ensures
        asked is Ok <==> capsule@.image_arn is Some || capsule@.image_version is Some,
        asked is Ok && capsule@.image_arn is Some ==> asked->Ok_0.image_id@
            == capsule@.image_arn->0,
        asked is Ok ==> opt_text(asked->Ok_0.execution_role_arn) == cfg@.execution_role_arn,
        moved is Ok <==> capsule@.microvm_id is Some,
        moved matches Ok(id) ==> capsule@.microvm_id == Some(id@),
{
}

} // verus!
