//! Setting everything up: the stack, the settings, and what is in the account already.

use crate::config::{inside, own_dir, own_file, Place, DEFAULT_REGION};
use crate::discover::{find_live, first_live, Listed};
use crate::lifecycle::{endpoint_host, host_of};
use crate::state::{known, CapsuleView, State};
use crate::text::{
    contains, contains_text, lemma_until_free, occurs_at, opt_str, opt_text, same, split_first,
    split_once, texts, trim, trimmed, until,
};
use vstd::prelude::*;

verus! {

/// The error for a parameter that is not of the form KEY=VALUE.
pub open spec fn bad_parameter(kv: Seq<char>) -> Seq<char> {
    "--parameter '"@ + kv
        + "' is not KEY=VALUE (e.g. -p BuildServicePrincipal=lambda.amazonaws.com)"@
}

/// Texts in pairs.
pub open spec fn pair_texts(v: Seq<(String, String)>) -> Seq<(Seq<char>, Seq<char>)> {
    Seq::new(v.len(), |i: int| (v[i].0@, v[i].1@))
}

/// The parameters in a list of arguments, or the first argument that is none.
pub open spec fn parameters_in(raw: Seq<Seq<char>>) -> Result<Seq<(Seq<char>, Seq<char>)>, Seq<char>>
    decreases raw.len(),
{
    if raw.len() == 0 {
        Ok(Seq::empty())
    } else {
        match parameters_in(raw.drop_last()) {
            Err(e) => Err(e),
            Ok(before) => match split_first(raw.last(), '=') {
                Some(p) => Ok(before.push(p)),
                None => Err(raw.last()),
            },
        }
    }
}

/// Reads the parameters of a deployment.
pub fn parse_parameters(raw: &Vec<String>) -> (r: Result<Vec<(String, String)>, String>)
    ensures
        match parameters_in(crate::text::owned_texts(raw@)) {
            Ok(p) => r matches Ok(v) && pair_texts(v@) == p,
            Err(kv) => r matches Err(e) && e@ == bad_parameter(kv),
        },
{
    let n: usize = raw.len();
    let ghost all = crate::text::owned_texts(raw@);
    let mut v: Vec<(String, String)> = Vec::new();
    let mut i: usize = 0;
    proof {
        assert(all.take(0) =~= Seq::<Seq<char>>::empty());
        assert(pair_texts(v@) =~= Seq::<(Seq<char>, Seq<char>)>::empty());
    }
    while i < n
        invariant
            n == raw@.len(),
            all == crate::text::owned_texts(raw@),
            i <= n,
            parameters_in(all.take(i as int)) == Ok::<Seq<(Seq<char>, Seq<char>)>, Seq<char>>(
                pair_texts(v@),
            ),
        decreases n - i,
    {
        let kv = raw[i].as_str();
        let ghost was = v@;
        proof {
            assert(all[i as int] == kv@);
            assert(all.take(i + 1).drop_last() =~= all.take(i as int));
        }
        match split_once(kv, '=') {
            Some((k, x)) => {
                v.push((k.to_owned(), x.to_owned()));
                assert(pair_texts(v@) =~= pair_texts(was).push((k@, x@)));
            },
            None => {
                let mut e = "--parameter '".to_owned();
                e.append(kv);
                e.append("' is not KEY=VALUE (e.g. -p BuildServicePrincipal=lambda.amazonaws.com)");
                proof {
                    lemma_first_error(all, i + 1);
                    assert(all.take(n as int) =~= all);
                }
                return Err(e);
            },
        }
        i += 1;
    }
    assert(all.take(n as int) =~= all);
    Ok(v)
}

/// An argument that is none spoils every longer list in the same way.
proof fn lemma_first_error(raw: Seq<Seq<char>>, k: int)
    requires
        0 <= k <= raw.len(),
        parameters_in(raw.take(k)) is Err,
    ensures
        parameters_in(raw) == parameters_in(raw.take(k)),
    decreases raw.len() - k,
{
    if k == raw.len() {
        assert(raw.take(k) =~= raw);
    } else {
        assert(raw.take(k + 1).drop_last() =~= raw.take(k));
        lemma_first_error(raw, k + 1);
    }
}

/// The user's own template, where there is one.
pub fn custom_template_path(set: Option<&str>, home: bool) -> (r: Result<Place, String>)
    ensures
        match own_dir(opt_str(set), home) {
            Some(d) => r matches Ok(p) && p@ == inside(d, "stack.yaml"@),
            None => r matches Err(e) && e@ == "could not resolve home directory for ~/.hellbox"@,
        },
{
    own_file(set, home, "stack.yaml")
}

/// A value from the environment, unless it is blank.
pub open spec fn set_value(v: Option<Seq<char>>) -> Option<Seq<char>> {
    match v {
        Some(s) => if trimmed(s).len() > 0 {
            Some(s)
        } else {
            None
        },
        None => None,
    }
}

/// The first that is there of: the flag, the two variables of the environment, the settings,
/// the profile, and the default.
pub open spec fn chosen_region(
    flag: Option<Seq<char>>,
    region_var: Option<Seq<char>>,
    default_var: Option<Seq<char>>,
    settings: Option<Seq<char>>,
    profile: Option<Seq<char>>,
) -> Seq<char> {
    if flag is Some {
        flag->0
    } else if set_value(region_var) is Some {
        region_var->0
    } else if set_value(default_var) is Some {
        default_var->0
    } else if settings is Some {
        settings->0
    } else if profile is Some {
        profile->0
    } else {
        DEFAULT_REGION@
    }
}

/// Whether a value from the environment is set.
fn is_set(v: Option<&str>) -> (r: bool)
    ensures
        r == (set_value(opt_str(v)) is Some),
{
    match v {
        Some(s) => !trim(s).is_empty(),
        None => false,
    }
}

/// The region to deploy to.
pub fn resolve_region(
    flag: Option<&str>,
    region_var: Option<&str>,
    default_var: Option<&str>,
    settings: Option<&str>,
    profile: Option<&str>,
) -> (r: String)
    ensures
        r@ == chosen_region(
            opt_str(flag),
            opt_str(region_var),
            opt_str(default_var),
            opt_str(settings),
            opt_str(profile),
        ),
{
    let chosen: Option<&str> = if flag.is_some() {
        flag
    } else if is_set(region_var) {
        region_var
    } else if is_set(default_var) {
        default_var
    } else if settings.is_some() {
        settings
    } else {
        profile
    };
    match chosen {
        Some(r) => r.to_owned(),
        None => DEFAULT_REGION.to_owned(),
    }
}

/// The editor that a template is opened with: the first that is set, or else the one that
/// the system has.
pub fn editor(visual: Option<&str>, plain: Option<&str>, windows: bool) -> (r: String)
    ensures
        r@ == (if visual is Some {
            visual->0@
        } else if plain is Some {
            plain->0@
        } else if windows {
            "notepad"@
        } else {
            "vi"@
        }),
{
    match visual {
        Some(v) => v.to_owned(),
        None => match plain {
            Some(e) => e.to_owned(),
            None => if windows {
                "notepad".to_owned()
            } else {
                "vi".to_owned()
            },
        },
    }
}

/// Whether an error's message has these words.
pub open spec fn says(message: Option<Seq<char>>, words: Seq<char>) -> bool {
    message matches Some(m) && contains_text(m, words)
}

/// Whether an error's message has these words.
pub fn error_says(message: Option<&str>, words: &str) -> (r: bool)
    ensures
        r == says(opt_str(message), words@),
{
    match message {
        Some(m) => contains(m, words),
        None => false,
    }
}

/// The next step towards a stack that matches the template.
#[derive(Clone, Copy, PartialEq, Eq, Structural, Debug)]
pub enum StackStep {
    Create,
    Update,
    /// Wait until the service is done.
    Wait,
    /// There is nothing to wait for.
    Done,
    Fail,
}

/// How a request about the stack was answered.
pub ghost enum Answer {
    Accepted,
    Refused(Option<Seq<char>>),
}

/// What follows the request to create the stack.
pub open spec fn step_after_create(r: Answer) -> StackStep {
    match r {
        Answer::Accepted => StackStep::Wait,
        Answer::Refused(m) => if says(m, "already exists"@) {
            StackStep::Update
        } else {
            StackStep::Fail
        },
    }
}

/// What follows the request to update it.
pub open spec fn step_after_update(r: Answer) -> StackStep {
    match r {
        Answer::Accepted => StackStep::Wait,
        Answer::Refused(m) => if says(m, "No updates are to be performed"@) {
            StackStep::Done
        } else {
            StackStep::Fail
        },
    }
}

/// How a request was answered: `Err` holds the message of a refusal, where it has one.
pub open spec fn answer_of(answer: Result<(), Option<&str>>) -> Answer {
    match answer {
        Ok(()) => Answer::Accepted,
        Err(m) => Answer::Refused(opt_str(m)),
    }
}

/// The step after the request to create the stack.
pub fn after_create(answer: Result<(), Option<&str>>) -> (r: StackStep)
    ensures
        r == step_after_create(answer_of(answer)),
{
    match answer {
        Ok(()) => StackStep::Wait,
        Err(m) => if error_says(m, "already exists") {
            StackStep::Update
        } else {
            StackStep::Fail
        },
    }
}

/// The step after the request to update it.
pub fn after_update(answer: Result<(), Option<&str>>) -> (r: StackStep)
    ensures
        r == step_after_update(answer_of(answer)),
{
    match answer {
        Ok(()) => StackStep::Wait,
        Err(m) => if error_says(m, "No updates are to be performed") {
            StackStep::Done
        } else {
            StackStep::Fail
        },
    }
}

/// The states that end the wait for a stack.
pub open spec fn settled_states() -> Seq<Seq<char>> {
    seq![
        "CREATE_COMPLETE"@,
        "UPDATE_COMPLETE"@,
        "CREATE_FAILED"@,
        "ROLLBACK_COMPLETE"@,
        "ROLLBACK_FAILED"@,
        "UPDATE_ROLLBACK_COMPLETE"@,
        "UPDATE_ROLLBACK_FAILED"@,
    ]
}

/// The states that end the wait for a stack.
pub fn stack_states() -> (r: Vec<&'static str>)
    ensures
        texts(r@) == settled_states(),
{
    let r = vec![
        "CREATE_COMPLETE",
        "UPDATE_COMPLETE",
        "CREATE_FAILED",
        "ROLLBACK_COMPLETE",
        "ROLLBACK_FAILED",
        "UPDATE_ROLLBACK_COMPLETE",
        "UPDATE_ROLLBACK_FAILED",
    ];
    assert(texts(r@) =~= settled_states());
    r
}

/// The state of a stack that is waited for, where the service tells none.
pub fn stack_state(status: Option<&str>) -> (r: String)
    ensures
        r@ == (match opt_str(status) {
            Some(s) => s,
            None => "UNKNOWN"@,
        }),
{
    match status {
        Some(s) => s.to_owned(),
        None => "UNKNOWN".to_owned(),
    }
}

/// Whether the stack is in place.
pub fn stack_deployed(name: &str, status: &str) -> (r: Result<(), String>)
    ensures
        r is Ok <==> status@ == "CREATE_COMPLETE"@ || status@ == "UPDATE_COMPLETE"@,
        r matches Err(e) ==> e@ == "stack '"@ + name@ + "' did not deploy cleanly (status "@
            + status@ + ") — check the CloudFormation console"@,
{
    if same(status, "CREATE_COMPLETE") || same(status, "UPDATE_COMPLETE") {
        Ok(())
    } else {
        let mut e = "stack '".to_owned();
        e.append(name);
        e.append("' did not deploy cleanly (status ");
        e.append(status);
        e.append(") — check the CloudFormation console");
        Err(e)
    }
}

/// An image as the service describes it.
pub struct ImageInfo {
    pub state: String,
    pub active_version: Option<String>,
}

/// Whether an image can be launched.
pub open spec fn launchable(image: Option<ImageInfo>) -> bool {
    image matches Some(i) && i.state@ == "CREATED"@ && i.active_version is Some
}

/// Whether an image can be launched; one that the service does not know cannot.
pub fn existing_image_active(image: &Option<ImageInfo>) -> (r: bool)
    ensures
        r == launchable(*image),
{
    match image {
        Some(i) => same(i.state.as_str(), "CREATED") && i.active_version.is_some(),
        None => false,
    }
}

/// What was found in the account for a capsule.
#[derive(Clone, Copy, PartialEq, Eq, Structural, Debug)]
pub enum Found {
    /// No image, so nothing was recorded.
    Nothing,
    /// What the ledger had already, brought up to date.
    Known,
    /// An image.
    Image,
    /// An image, and a machine made from it: the position in the list.
    Machine(usize),
}

/// The record of an image found in the account, and of a machine made from it. Where the
/// endpoint could not be had, that of the same machine stays.
pub open spec fn rediscovered(
    c: CapsuleView,
    arn: Seq<char>,
    version: Option<Seq<char>>,
    machine: Option<(Seq<char>, Seq<char>)>,
    endpoint: Option<Seq<char>>,
) -> CapsuleView {
    let with_image = CapsuleView { image_arn: Some(arn), image_version: version, ..c };
    match machine {
        Some((id, state)) => CapsuleView {
            microvm_id: Some(id),
            state: Some(state),
            endpoint: match endpoint {
                Some(e) => Some(endpoint_host(e)),
                None => if c.microvm_id == Some(id) {
                    c.endpoint
                } else {
                    None
                },
            },
            ..with_image
        },
        None => with_image,
    }
}

/// The machine at a position of a list.
pub open spec fn machine_at(list: Seq<Listed>, i: Option<int>) -> Option<(Seq<char>, Seq<char>)> {
    match i {
        Some(k) => Some((list[k].microvm_id@, list[k].state@)),
        None => None,
    }
}

/// Brings the ledger up to date with what the account holds for a capsule: its image, where
/// that is usable, and the first live machine made from it.
pub fn reconcile_state(
    state: &mut State,
    name: &str,
    arn: &str,
    image: &Option<ImageInfo>,
    list: &Vec<Listed>,
    endpoint: Option<&str>,
) -> (r: Found)
    ensures
        ({
            let usable = image matches Some(i) && i.state@ == "CREATED"@;
            let live = first_live(list@, arn@);
            let had = known(old(state)@, name@).image_arn is Some;
            &&& !usable ==> final(state)@ == old(state)@ && r == Found::Nothing
            &&& usable ==> final(state)@ == old(state)@.insert(
                name@,
                rediscovered(
                    known(old(state)@, name@),
                    arn@,
                    opt_text(image->0.active_version),
                    machine_at(list@, live),
                    opt_str(endpoint),
                ),
            )
            &&& usable && had ==> r == Found::Known
            &&& usable && !had ==> match live {
                Some(i) => r matches Found::Machine(k) && k == i,
                None => r == Found::Image,
            }
        }),
{
    let info = match image {
        Some(i) => i,
        None => {
            return Found::Nothing;
        },
    };
    if !same(info.state.as_str(), "CREATED") {
        return Found::Nothing;
    }
    let live = find_live(list, arn);
    let mut c = state.record(name);
    let had = c.image_arn.is_some();
    c.image_arn = Some(arn.to_owned());
    c.image_version = crate::config::copy_text(&info.active_version);
    if let Some(i) = live {
        let same_machine = match &c.microvm_id {
            Some(id) => same(id.as_str(), list[i].microvm_id.as_str()),
            None => false,
        };
        c.microvm_id = Some(list[i].microvm_id.as_str().to_owned());
        c.state = Some(list[i].state.as_str().to_owned());
        match endpoint {
            Some(e) => {
                c.endpoint = Some(host_of(e));
            },
            None => {
                if !same_machine {
                    c.endpoint = None;
                }
            },
        }
    }
    state.put(name, c);
    if had {
        Found::Known
    } else {
        match live {
            Some(i) => Found::Machine(i),
            None => Found::Image,
        }
    }
}

/// A state of a stack that is in place.
pub open spec fn in_place(status: Seq<char>) -> bool {
    status == "CREATE_COMPLETE"@ || status == "UPDATE_COMPLETE"@
}

/// Whether the stack is in place in the end: after these answers, and with this state where
/// it was waited for.
pub open spec fn stack_ensured(create: Answer, update: Answer, status: Seq<char>) -> bool {
    match step_after_create(create) {
        StackStep::Wait => in_place(status),
        StackStep::Update => match step_after_update(update) {
            StackStep::Wait => in_place(status),
            StackStep::Done => true,
            _ => false,
        },
        _ => false,
    }
}

/// Deploying again over a stack that matches the template succeeds without waiting, and a
/// stack that had to be waited for counts only in a state that says it is in place.
pub proof fn law_stack_reruns(create: Answer, update: Answer, status: Seq<char>)
    ensures
        create matches Answer::Refused(m) && says(m, "already exists"@) && (update matches
            Answer::Refused(n) && says(n, "No updates are to be performed"@)) ==> stack_ensured(
            create,
            update,
            status,
        ),
        stack_ensured(create, update, status) ==> in_place(status) || (create is Refused && update
            is Refused),
{
}

/// Looking twice finds nothing new: what the account holds is recorded the first time.
pub proof fn law_rediscovering_twice(
    c: CapsuleView,
    arn: Seq<char>,
    version: Option<Seq<char>>,
    machine: Option<(Seq<char>, Seq<char>)>,
    endpoint: Option<Seq<char>>,
)
    ensures
        ({
            let once = rediscovered(c, arn, version, machine, endpoint);
            &&& rediscovered(once, arn, version, machine, endpoint) == once
            &&& once.image_arn is Some
        }),
{
}

/// Where the ledger has all of it already, nothing changes, whether or not the endpoint could
/// be had again.
pub proof fn law_rediscovering_the_known(
    records: Map<Seq<char>, CapsuleView>,
    name: Seq<char>,
    arn: Seq<char>,
    version: Option<Seq<char>>,
    machine: Option<(Seq<char>, Seq<char>)>,
    endpoint: Option<Seq<char>>,
)
    requires
        known(records, name).image_arn == Some(arn),
        known(records, name).image_version == version,
        machine matches Some((id, state)) ==> {
            &&& known(records, name).microvm_id == Some(id)
            &&& known(records, name).state == Some(state)
            &&& endpoint matches Some(e) ==> known(records, name).endpoint == Some(
                endpoint_host(e),
            )
        },
    ensures
        records.insert(
            name,
            rediscovered(known(records, name), arn, version, machine, endpoint),
        ) == records,
{
    let c = known(records, name);
    assert(records.dom().contains(name));
    assert(rediscovered(c, arn, version, machine, endpoint) =~= c);
    assert(records.insert(name, c) =~= records);
}

/// The region is the first that is given, of the flag, the two variables, the settings and the
/// profile, in this order, where a blank variable counts as not given.
pub proof fn law_regions_have_an_order(
    flag: Option<Seq<char>>,
    region_var: Option<Seq<char>>,
    default_var: Option<Seq<char>>,
    settings: Option<Seq<char>>,
    profile: Option<Seq<char>>,
)
    ensures
        ({
            let r = chosen_region(flag, region_var, default_var, settings, profile);
            let first = region_var is Some && trimmed(region_var->0).len() > 0;
            let second = default_var is Some && trimmed(default_var->0).len() > 0;
            &&& flag is Some ==> Some(r) == flag
            &&& flag is None && first ==> Some(r) == region_var
            &&& flag is None && !first && second ==> Some(r) == default_var
            &&& flag is None && !first && !second && settings is Some ==> Some(r) == settings
            &&& flag is None && !first && !second && settings is None && profile is Some ==> Some(r)
                == profile
            &&& flag is None && !first && !second && settings is None && profile is None ==> r
                == "us-east-1"@
        }),
{
}

/// Parameters are read exactly where every argument has an equals sign: each is what precedes
/// the first one and what follows it, in order. Else the first argument without one is named.
pub proof fn law_parameters_are_pairs(raw: Seq<Seq<char>>, i: int)
    requires
        0 <= i < raw.len(),
    ensures
        parameters_in(raw) matches Ok(p) ==> {
            &&& p.len() == raw.len()
            &&& raw[i] == p[i].0 + seq!['='] + p[i].1
            &&& !p[i].0.contains('=')
        },
        !raw[i].contains('=') && (forall|k: int| 0 <= k < i ==> (#[trigger] raw[k]).contains('='))
            ==> parameters_in(raw) == Err::<Seq<(Seq<char>, Seq<char>)>, Seq<char>>(raw[i]),
        (forall|k: int| 0 <= k < raw.len() ==> (#[trigger] raw[k]).contains('=')) ==> parameters_in(
            raw,
        ) is Ok,
    decreases raw.len(),
{
    let last = raw.last();
    let fewer = raw.drop_last();
    lemma_until_free(last, '=');
    let n = until(last, '=');
    if n < last.len() {
        assert(last =~= last.take(n) + seq!['='] + last.skip(n + 1));
        assert(last.contains(last[n]));
        assert(!last.take(n).contains('='));
    } else {
        assert(!last.contains('='));
    }
    assert(raw[raw.len() - 1] == last);
    if fewer.len() > 0 {
        assert forall|k: int| 0 <= k < fewer.len() implies fewer[k] == #[trigger] raw[k] by {
        }
        if i < fewer.len() {
            law_parameters_are_pairs(fewer, i);
            if forall|k: int| 0 <= k < i ==> (#[trigger] raw[k]).contains('=') {
                assert forall|k: int| 0 <= k < i implies (#[trigger] fewer[k]).contains('=') by {
                    assert(raw[k] == fewer[k]);
                }
            }
        } else {
            law_parameters_are_pairs(fewer, 0);
        }
        if forall|k: int| 0 <= k < raw.len() - 1 ==> (#[trigger] raw[k]).contains('=') {
            assert forall|k: int| 0 <= k < fewer.len() implies (#[trigger] fewer[k]).contains(
                '=',
            ) by {
                assert(raw[k] == fewer[k]);
            }
        }
    } else {
        assert(parameters_in(fewer) == Ok::<Seq<(Seq<char>, Seq<char>)>, Seq<char>>(Seq::empty()));
    }
}

/// A stack is created, or updated where there is one already, and is in place in the end
/// exactly where the service says so or has nothing to update. Any other refusal is final.
pub proof fn law_stack_is_ensured(create: Answer, update: Answer, status: Seq<char>)
    ensures
        ({
            let ready = status == "CREATE_COMPLETE"@ || status == "UPDATE_COMPLETE"@;
            let exists_already = create matches Answer::Refused(Some(m)) && contains_text(
                m,
                "already exists"@,
            );
            let unchanged = update matches Answer::Refused(Some(m)) && contains_text(
                m,
                "No updates are to be performed"@,
            );
            &&& create is Accepted ==> step_after_create(create) == StackStep::Wait
            &&& exists_already ==> step_after_create(create) == StackStep::Update
            &&& create is Refused && !exists_already ==> step_after_create(create)
                == StackStep::Fail
            &&& update is Accepted ==> step_after_update(update) == StackStep::Wait
            &&& unchanged ==> step_after_update(update) == StackStep::Done
            &&& update is Refused && !unchanged ==> step_after_update(update) == StackStep::Fail
            &&& stack_ensured(create, update, status) <==> (create is Accepted && ready) || (
            exists_already && ((update is Accepted && ready) || unchanged))
        }),
{
}

/// Waiting for a stack ends with success, failure or rollback, of creating it or updating it.
pub proof fn law_stacks_settle(status: Seq<char>)
    ensures
        settled_states().contains(status) <==> status == "CREATE_COMPLETE"@ || status
            == "UPDATE_COMPLETE"@ || status == "CREATE_FAILED"@ || status == "ROLLBACK_COMPLETE"@
            || status == "ROLLBACK_FAILED"@ || status == "UPDATE_ROLLBACK_COMPLETE"@ || status
            == "UPDATE_ROLLBACK_FAILED"@,
{
    let s = settled_states();
    assert(s[0] == "CREATE_COMPLETE"@ && s[1] == "UPDATE_COMPLETE"@ && s[2] == "CREATE_FAILED"@);
    assert(s[3] == "ROLLBACK_COMPLETE"@ && s[4] == "ROLLBACK_FAILED"@);
    assert(s[5] == "UPDATE_ROLLBACK_COMPLETE"@ && s[6] == "UPDATE_ROLLBACK_FAILED"@);
}

/// An image can be launched exactly where it was made and has a version in use.
pub proof fn law_made_images_launch(image: ImageInfo)
    ensures
        launchable(Some(image)) <==> image.state@ == "CREATED"@ && image.active_version is Some,
        !launchable(None),
{
}

/// What is found in the account is recorded: the image and its version always, and the machine
/// made from it, with its state and where it is reached. Where there is none, what was recorded
/// of a machine stays, and an endpoint that could not be had is never that of another machine.
pub proof fn law_findings_are_recorded(
    c: CapsuleView,
    arn: Seq<char>,
    version: Option<Seq<char>>,
    machine: Option<(Seq<char>, Seq<char>)>,
    endpoint: Option<Seq<char>>,
)
    ensures
        ({
            let after = rediscovered(c, arn, version, machine, endpoint);
            &&& after.image_arn == Some(arn)
            &&& after.image_version == version
            &&& machine is None ==> after.microvm_id == c.microvm_id && after.state == c.state
                && after.endpoint == c.endpoint
            &&& machine matches Some((id, state)) ==> {
                &&& after.microvm_id == Some(id)
                &&& after.state == Some(state)
                &&& endpoint is Some ==> after.endpoint == Some(endpoint_host(endpoint->0))
                &&& endpoint is None && c.microvm_id == Some(id) ==> after.endpoint == c.endpoint
                &&& endpoint is None && c.microvm_id != Some(id) ==> after.endpoint is None
            }
        }),
{
}

/// An answer of the service is taken for what it is: accepted, or refused with its message.
pub proof fn law_answers_are_taken_as_given(message: Option<&str>)
    ensures
        answer_of(Ok(())) == Answer::Accepted,
        answer_of(Err(message)) == Answer::Refused(
            match message {
                Some(m) => Some(m@),
                None => None,
            },
        ),
{
}

/// The machine that is recorded is the listed one, with its own state.
pub proof fn law_listed_machine_is_recorded(list: Seq<Listed>, i: int)
    ensures
        machine_at(list, Some(i)) == Some((list[i].microvm_id@, list[i].state@)),
        machine_at(list, None) is None,
{
}

/// A parameter's name is its name and its value its value.
pub proof fn law_pairs_keep_their_order(v: Seq<(String, String)>, i: int)
    requires
        0 <= i < v.len(),
    ensures
        pair_texts(v).len() == v.len(),
        pair_texts(v)[i].0 == v[i].0@,
        pair_texts(v)[i].1 == v[i].1@,
{
}

/// An argument that is no parameter is named in the error.
pub proof fn law_bad_parameters_are_named(kv: Seq<char>)
    ensures
        contains_text(bad_parameter(kv), kv),
{
    let e = bad_parameter(kv);
    let k = "--parameter '"@.len() as int;
    assert(e.subrange(k, k + kv.len()) =~= kv);
    assert(occurs_at(e, kv, k));
}

/// A stack is deployed where CloudFormation says that it was made or brought up to date, and
/// one whose status is not known is not.
pub proof fn law_stacks_come_up(status: Option<&str>, s: String, name: &str, r: Result<(), String>)
    requires
        call_ensures(stack_state, (status,), s),
        exists|t: &str| t@ == s@ && #[trigger] call_ensures(stack_deployed, (name, t), r),
    ensures
        r is Ok <==> opt_str(status) == Some("CREATE_COMPLETE"@) || opt_str(status) == Some(
            "UPDATE_COMPLETE"@,
        ),
{
    reveal_strlit("UNKNOWN");
    reveal_strlit("CREATE_COMPLETE");
    reveal_strlit("UPDATE_COMPLETE");
    assert("UNKNOWN"@.len() == 7 && "CREATE_COMPLETE"@.len() == 15);
}

/// Looking for what is there changes the record of the capsule alone, and only where its image
/// is usable; the record is then of that image.
pub proof fn law_usable_images_are_recorded(
    state: &mut State,
    name: &str,
    arn: &str,
    image: &Option<ImageInfo>,
    list: &Vec<Listed>,
    endpoint: Option<&str>,
    r: Found,
)
    requires
        call_ensures(reconcile_state, (state, name, arn, image, list, endpoint), r),
    ensures
        ({
            let usable = *image is Some && image->0.state@ == "CREATED"@;
            &&& final(state)@.remove(name@) =~= old(state)@.remove(name@)
            &&& !usable ==> final(state)@ == old(state)@
            &&& r == Found::Nothing <==> !usable
            &&& usable ==> known(final(state)@, name@).image_arn == Some(arn@)
            &&& usable ==> (r == Found::Known <==> known(old(state)@, name@).image_arn is Some)
        }),
{
    if !(*image is Some && image->0.state@ == "CREATED"@) {
        assert(final(state)@ == old(state)@);
    }
}

} // verus!
