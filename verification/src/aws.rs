//! Accounts and credentials.

use crate::config::{given, given_place, Config, ConfigView, Place, PlaceView, Root, RootView};
use crate::text::{
    contains, contains_text, has_prefix, has_suffix, is_space, law_first_split, occurs_at, opt_str,
    opt_text, same, split, split_first, split_on, split_once, starts_with, strip_prefix,
    strip_suffix, texts, trim, trim_end, trim_start, trimmed,
};
use vstd::prelude::*;

verus! {

/// Who the current credentials belong to.
pub struct Identity {
    pub account: String,
    pub arn: String,
}

/// Whether settings were made for another account.
pub open spec fn other_account(cfg: ConfigView, account: Seq<char>) -> bool {
    cfg.aws_account_id matches Some(deployed) && deployed.len() > 0 && deployed != account
}

/// What is said of the profile that was deployed with.
pub open spec fn profile_note(profile: Option<Seq<char>>) -> Seq<char> {
    match profile {
        Some(p) => " (profile '"@ + p + "')"@,
        None => Seq::empty(),
    }
}

/// What is said to credentials of another account.
pub open spec fn mismatch_text(cfg: ConfigView, account: Seq<char>, arn: Seq<char>) -> Seq<char> {
    "account mismatch: this Hellbox was deployed to account "@ + cfg.aws_account_id->0
        + profile_note(cfg.aws_profile) + ", but your current credentials are for account "@
        + account + " ("@ + arn
        + ").\nSwitch back to the profile you deployed with, or run `hellbox deploy` to set up in this account too."@
}

/// Refuses credentials of another account than the one that was deployed to.
pub fn require_same_account(cfg: &Config, identity: &Identity) -> (r: Result<(), String>)
    ensures
        match r {
            Ok(()) => !other_account(cfg@, identity.account@),
            Err(e) => other_account(cfg@, identity.account@) && e@ == mismatch_text(
                cfg@,
                identity.account@,
                identity.arn@,
            ),
        },
{
    if let Some(deployed) = &cfg.aws_account_id {
        if !deployed.as_str().is_empty() && !same(deployed.as_str(), identity.account.as_str()) {
            let mut note = String::new();
            assert(note@ =~= Seq::<char>::empty());
            if let Some(p) = &cfg.aws_profile {
                note = " (profile '".to_owned();
                note.append(p.as_str());
                note.append("')");
            }
            let mut e = "account mismatch: this Hellbox was deployed to account ".to_owned();
            e.append(deployed.as_str());
            e.append(note.as_str());
            e.append(", but your current credentials are for account ");
            e.append(identity.account.as_str());
            e.append(" (");
            e.append(identity.arn.as_str());
            e.append(
                ").\nSwitch back to the profile you deployed with, or run `hellbox deploy` to set up in this account too.",
            );
            return Err(e);
        }
    }
    Ok(())
}

/// The profile that is used: the one set in the environment unless that is blank.
pub open spec fn profile_in_use(set: Option<Seq<char>>) -> Seq<char> {
    match set {
        Some(p) => if trimmed(p).len() > 0 {
            p
        } else {
            "default"@
        },
        None => "default"@,
    }
}

/// The profile that is used.
pub fn active_profile(set: Option<&str>) -> (r: String)
    ensures
        r@ == profile_in_use(opt_str(set)),
{
    match set {
        Some(p) => if trim(p).is_empty() {
            "default".to_owned()
        } else {
            p.to_owned()
        },
        None => "default".to_owned(),
    }
}

/// The profile to load credentials with: the one set in the environment, or else the one that
/// was deployed with. None leaves the choice to the environment.
pub open spec fn profile_for(set: Option<Seq<char>>, recorded: Option<Seq<char>>) -> Option<
    Seq<char>,
> {
    match (set, recorded) {
        (Some(p), _) if trimmed(p).len() > 0 => Some(p),
        (_, Some(p)) if trimmed(p).len() > 0 => Some(p),
        _ => None,
    }
}

/// The profile to load credentials with.
pub fn profile_to_use(set: Option<&str>, recorded: Option<&str>) -> (r: Option<String>)
    ensures
        opt_text(r) == profile_for(opt_str(set), opt_str(recorded)),
{
    if let Some(p) = set {
        if !trim(p).is_empty() {
            return Some(p.to_owned());
        }
    }
    match recorded {
        Some(p) => if trim(p).is_empty() {
            None
        } else {
            Some(p.to_owned())
        },
        None => None,
    }
}

/// The configuration file: the one set in the environment unless that is blank, else the one
/// in the home directory, or in the working directory where there is no home.
pub open spec fn config_file_at(set: Option<Seq<char>>, home: bool) -> PlaceView {
    match given(set) {
        Some(p) => p,
        None => {
            let root = if home {
                RootView::Home
            } else {
                RootView::Here
            };
            PlaceView { root, names: seq![".aws"@, "config"@] }
        },
    }
}

/// The configuration file, given whether there is a home directory.
pub fn aws_config_file(set: Option<&str>, home: bool) -> (r: Place)
    ensures
        r@ == config_file_at(opt_str(set), home),
{
    match given_place(set) {
        Some(p) => p,
        None => {
            let root = if home {
                Root::Home
            } else {
                Root::Here
            };
            let p = Place { root, names: vec![".aws", "config"] };
            assert(p@.names =~= seq![".aws"@, "config"@]);
            p
        },
    }
}

/// The section of a profile in the configuration file.
pub open spec fn section_of(profile: Seq<char>) -> Seq<char> {
    if profile == "default"@ {
        "default"@
    } else {
        "profile "@ + profile
    }
}

/// What a line of the configuration file says.
pub ghost enum Line {
    /// Nothing: it is blank or a comment.
    Nothing,
    /// A section begins.
    Section(Seq<char>),
    /// A key has a value.
    Entry(Seq<char>, Seq<char>),
    /// Neither.
    Other,
}

/// What a line of the configuration file says. A comment takes a whole line: a mark within a
/// value belongs to the value.
pub open spec fn line_meaning(raw: Seq<char>) -> Line {
    let line = trimmed(raw);
    if line.len() == 0 || has_prefix(line, "#"@) || has_prefix(line, ";"@) {
        Line::Nothing
    } else if has_prefix(line, "["@) && has_suffix(line.skip(1), "]"@) {
        Line::Section(trimmed(line.skip(1).take(line.len() - 2)))
    } else {
        match split_first(line, '=') {
            Some((k, v)) => Line::Entry(trimmed(k), trimmed(v)),
            None => Line::Other,
        }
    }
}

/// The first command that lines give for a section, read from within that section or not.
pub open spec fn process_in(
    lines: Seq<Seq<char>>,
    section: Seq<char>,
    within: bool,
) -> Option<Seq<char>>
    decreases lines.len(),
{
    if lines.len() == 0 {
        None
    } else {
        let rest = lines.skip(1);
        match line_meaning(lines[0]) {
            Line::Section(name) => process_in(rest, section, name == section),
            Line::Entry(key, value) => if within && key == "credential_process"@ && value.len() > 0 {
                Some(value)
            } else {
                process_in(rest, section, within)
            },
            _ => process_in(rest, section, within),
        }
    }
}

/// The command that the configuration file gives for a profile's credentials.
pub open spec fn configured_process(text: Seq<char>, profile: Seq<char>) -> Option<Seq<char>> {
    process_in(split_on(text, '\n'), section_of(profile), false)
}

/// The section of a profile in the configuration file.
fn section_text(profile: &str) -> (r: String)
    ensures
        r@ == section_of(profile@),
{
    if same(profile, "default") {
        "default".to_owned()
    } else {
        let mut s = "profile ".to_owned();
        s.append(profile);
        s
    }
}

/// Reads the name of a section, where a line begins one.
fn section_name<'a>(line: &'a str) -> (r: Option<&'a str>)
    ensures
        opt_str(r) == (if has_prefix(line@, "["@) && has_suffix(line@.skip(1), "]"@) {
            Some(line@.skip(1).take(line@.len() - 2))
        } else {
            None
        }),
{
    proof {
        reveal_strlit("[");
        reveal_strlit("]");
    }
    match strip_prefix(line, "[") {
        Some(rest) => strip_suffix(rest, "]"),
        None => None,
    }
}

/// Finds the command that the configuration file gives for a profile's credentials.
pub fn credential_process_command(text: &str, profile: &str) -> (r: Option<String>)
    ensures
        opt_text(r) == configured_process(text@, profile@),
{
    let target = section_text(profile);
    let lines = split(text, '\n');
    let n: usize = lines.len();
    let ghost all = split_on(text@, '\n');
    let mut within = false;
    let mut i: usize = 0;
    assert(all.skip(0) =~= all);
    while i < n
        invariant
            n == lines@.len(),
            i <= n,
            texts(lines@) == all,
            target@ == section_of(profile@),
            configured_process(text@, profile@) == process_in(
                all.skip(i as int),
                target@,
                within,
            ),
        decreases n - i,
    {
        let raw = lines[i];
        proof {
            assert(texts(lines@)[i as int] == raw@);
            assert(all.skip(i as int)[0] == raw@);
            assert(all.skip(i as int).skip(1) =~= all.skip(i + 1));
        }
        let line = trim(raw);
        if line.is_empty() || starts_with(line, "#") || starts_with(line, ";") {
            i += 1;
            continue;
        }
        match section_name(line) {
            Some(name) => {
                within = same(trim(name), target.as_str());
            },
            None => {
                if let Some((key, value)) = split_once(line, '=') {
                    if within && same(trim(key), "credential_process") {
                        let value = trim(value);
                        if !value.is_empty() {
                            return Some(value.to_owned());
                        }
                    }
                }
            },
        }
        i += 1;
    }
    None
}

/// What a credential process printed.
pub struct ProcessCreds {
    pub access_key_id: String,
    pub secret_access_key: String,
    pub session_token: Option<String>,
    pub expiration: Option<String>,
}

/// The point in time that an RFC 3339 text names, in nanoseconds since 1970, none where the
/// text is not one.
pub uninterp spec fn rfc3339_nanos(text: Seq<char>) -> Option<i128>;

/// Calls `OffsetDateTime::parse` of `time` with the format of RFC 3339, and
/// `unix_timestamp_nanos` on what it gives: a function of the text. Nothing is claimed of
/// which texts it takes.
#[verifier::external_body]
pub(crate) fn parse_rfc3339(s: &str) -> (r: Option<i128>)
    ensures
        r == rfc3339_nanos(s@),
{
    time::OffsetDateTime::parse(s, &time::format_description::well_known::Rfc3339)
        .ok()
        .map(|t| t.unix_timestamp_nanos())
}

/// Whether credentials can be used, and when they expire: without a key or a secret they
/// cannot. `parsed` is what the expiration means, where it can be read; a date that cannot be
/// read counts as none.
pub fn usable_credentials(creds: &ProcessCreds, parsed: Option<i128>) -> (r: Option<Option<i128>>)
    ensures
        r == (if creds.access_key_id@.len() == 0 || creds.secret_access_key@.len() == 0 {
            None
        } else if creds.expiration is Some {
            Some(parsed)
        } else {
            Some(None)
        }),
{
    if creds.access_key_id.as_str().is_empty() || creds.secret_access_key.as_str().is_empty() {
        None
    } else if creds.expiration.is_some() {
        Some(parsed)
    } else {
        Some(None)
    }
}

/// Whether credentials can be used, and when they expire.
pub fn parse_process_credentials(creds: &ProcessCreds) -> (r: Option<Option<i128>>)
    ensures
        r == (if creds.access_key_id@.len() == 0 || creds.secret_access_key@.len() == 0 {
            None
        } else {
            match opt_text(creds.expiration) {
                Some(t) => Some(rfc3339_nanos(t)),
                None => Some(None),
            }
        }),
{
    let parsed = match &creds.expiration {
        Some(e) => parse_rfc3339(e.as_str()),
        None => None,
    };
    usable_credentials(creds, parsed)
}

/// What to do about credentials that do not work.
#[derive(Clone, Copy, PartialEq, Eq, Structural, Debug)]
pub enum Rescue {
    /// Run the profile's credential process and try with what it gives.
    RunProcess,
    /// The profile cannot be read, and its process is of no help.
    ExplainLogin,
    /// There are no working credentials.
    ExplainPlain,
}

/// What to do about credentials that do not work.
pub open spec fn rescue_for(error: Seq<char>, has_command: bool) -> Rescue {
    if !contains_text(error, "credentials-login"@) {
        Rescue::ExplainPlain
    } else if has_command {
        Rescue::RunProcess
    } else {
        Rescue::ExplainLogin
    }
}

/// What to do about credentials that do not work: a profile with a login session is the one
/// case that its credential process can help.
pub fn rescue(error: &str, has_command: bool) -> (r: Rescue)
    ensures
        r == rescue_for(error@, has_command),
{
    if !contains(error, "credentials-login") {
        Rescue::ExplainPlain
    } else if has_command {
        Rescue::RunProcess
    } else {
        Rescue::ExplainLogin
    }
}

/// What is said where a profile with a login session cannot be used.
pub const LOGIN_SESSION_HINT: &'static str = "AWS credentials could not be resolved from your profile.
The profile carries a `login_session` key (Granted / Common Fate, or a newer AWS CLI login) that this build's AWS SDK can't parse, and its `credential_process` didn't yield working credentials either.
Try one of:
  - refresh the session (`assume <profile>`, or `aws sso login`), then retry
  - export env-var credentials: `aws configure export-credentials --profile <name> --format env`, set them, and clear AWS_PROFILE
  - remove the `login_session` line from the profile in ~/.aws/config";

/// What is said where there are no working credentials.
pub const NO_CREDENTIALS_HINT: &'static str = "no working AWS credentials found.
hellbox reads credentials the same way the AWS CLI does: environment variables, ~/.aws profiles (AWS_PROFILE), IAM Identity Center / SSO logins, and credential_process tools like Granted.
Things to try:
  - `aws sts get-caller-identity` (does the AWS CLI work right now?)
  - `aws sso login` if your session expired
  - `assume <profile>` if you use Granted
  - `export AWS_PROFILE=<name>` if you have multiple profiles";

/// Nothing is done with credentials of another account, as soon as the settings name one.
pub proof fn law_accounts_do_not_mix(cfg: ConfigView, account: Seq<char>)
    requires
        cfg.aws_account_id matches Some(a) && a.len() > 0,
    ensures
        other_account(cfg, account) <==> cfg.aws_account_id != Some(account),
{
}

/// Settings that name no account fit any, and those that name one fit that one only.
pub proof fn law_unnamed_accounts_fit(cfg: ConfigView, account: Seq<char>)
    ensures
        cfg.aws_account_id is None ==> !other_account(cfg, account),
        cfg.aws_account_id is Some && cfg.aws_account_id->0.len() == 0 ==> !other_account(
            cfg,
            account,
        ),
        cfg.aws_account_id == Some(account) ==> !other_account(cfg, account),
        cfg.aws_account_id is Some && cfg.aws_account_id->0.len() > 0 && cfg.aws_account_id->0
            != account ==> other_account(cfg, account),
{
}

/// A refusal names both accounts, so that it can be told which is which.
pub proof fn law_both_accounts_are_named(cfg: ConfigView, account: Seq<char>, arn: Seq<char>)
    requires
        other_account(cfg, account),
    ensures
        contains_text(mismatch_text(cfg, account, arn), cfg.aws_account_id->0),
        contains_text(mismatch_text(cfg, account, arn), account),
        contains_text(mismatch_text(cfg, account, arn), arn),
{
    let text = mismatch_text(cfg, account, arn);
    let mine = cfg.aws_account_id->0;
    let k = "account mismatch: this Hellbox was deployed to account "@.len() as int;
    assert(text.subrange(k, k + mine.len()) =~= mine);
    assert(occurs_at(text, mine, k));
    let n = k + mine.len() + profile_note(cfg.aws_profile).len()
        + ", but your current credentials are for account "@.len();
    assert(text.subrange(n, n + account.len()) =~= account);
    assert(occurs_at(text, account, n));
    let a = n + account.len() + " ("@.len();
    assert(text.subrange(a, a + arn.len()) =~= arn);
    assert(occurs_at(text, arn, a));
}

/// The profile is the one that the environment sets, else the recorded one, where a blank one
/// counts as none; a command is looked for under the set one, or the default.
pub proof fn law_profiles_have_an_order(set: Option<Seq<char>>, recorded: Option<Seq<char>>)
    ensures
        ({
            let is_set = set is Some && trimmed(set->0).len() > 0;
            let was_set = recorded is Some && trimmed(recorded->0).len() > 0;
            &&& is_set ==> profile_for(set, recorded) == set && Some(profile_in_use(set)) == set
            &&& !is_set ==> profile_in_use(set) == "default"@
            &&& !is_set && was_set ==> profile_for(set, recorded) == recorded
            &&& !is_set && !was_set ==> profile_for(set, recorded) is None
        }),
{
}

/// The configuration file is the one that the environment sets, else `.aws/config` in the home
/// directory, or where the program runs.
pub proof fn law_configuration_file(set: Option<Seq<char>>, home: bool)
    ensures
        ({
            let is_set = set is Some && trimmed(set->0).len() > 0;
            let at = config_file_at(set, home);
            &&& is_set ==> at.root == RootView::Given(set->0) && at.names.len() == 0
            &&& !is_set ==> at.names == seq![".aws"@, "config"@] && at.root == (if home {
                RootView::Home
            } else {
                RootView::Here
            })
        }),
{
}

/// A line in brackets begins the section of that name, and a line with an equals sign gives a
/// key a value, each without the blanks around it; a mark at the start of a line, and only
/// there, makes it a comment.
pub proof fn law_lines_are_read(name: Seq<char>, key: Seq<char>, value: Seq<char>)
    requires
        trimmed(name) == name,
        key.len() > 0,
        !is_space(key[0]),
        !is_space(key.last()),
        !key.contains('='),
        key[0] != '#' && key[0] != ';' && key[0] != '[',
        value.len() > 0,
        !is_space(value[0]),
        !is_space(value.last()),
    ensures
        line_meaning("["@ + name + "]"@) == Line::Section(name),
        line_meaning(key + "="@ + value) == Line::Entry(key, value),
        line_meaning("#"@ + value) == Line::Nothing,
        line_meaning(";"@ + value) == Line::Nothing,
        line_meaning(Seq::empty()) == Line::Nothing,
{
    reveal_strlit("[");
    reveal_strlit("]");
    reveal_strlit("=");
    reveal_strlit("#");
    reveal_strlit(";");
    let section = "["@ + name + "]"@;
    assert(section[0] == '[' && section.last() == ']');
    assert(trim_start(section) == section && trim_end(section) == section);
    assert(section.take(1) =~= "["@);
    assert(section.take(1)[0] == '[');
    let inner = section.skip(1);
    assert(inner.skip(inner.len() - 1) =~= "]"@);
    assert(inner.take(section.len() - 2) =~= name);
    let entry = key + "="@ + value;
    assert(entry[0] == key[0] && entry.last() == value.last());
    assert(trim_start(entry) == entry && trim_end(entry) == entry);
    assert(entry.take(1)[0] == key[0]);
    assert(entry =~= key + seq!['='] + value);
    law_first_split(key, '=', value);
    assert(trim_start(key) == key && trim_end(key) == key);
    assert(trim_start(value) == value && trim_end(value) == value);
    let hash = "#"@ + value;
    assert(hash.last() == value.last());
    assert(trim_start(hash) == hash && trim_end(hash) == hash);
    assert(hash.take(1) =~= "#"@);
    let semicolon = ";"@ + value;
    assert(semicolon.last() == value.last());
    assert(trim_start(semicolon) == semicolon && trim_end(semicolon) == semicolon);
    assert(semicolon.take(1) =~= ";"@);
    assert(trimmed(Seq::<char>::empty()).len() == 0);
}

/// Whether a line of the file stands in a section: the last section that begins before it is
/// that one.
pub open spec fn stands_in(
    lines: Seq<Seq<char>>,
    section: Seq<char>,
    within: bool,
    i: int,
) -> bool
    decreases i,
{
    if i <= 0 {
        within
    } else {
        match line_meaning(lines[i - 1]) {
            Line::Section(name) => name == section,
            _ => stands_in(lines, section, within, i - 1),
        }
    }
}

/// Whether a line gives a section its command.
pub open spec fn gives_command(
    lines: Seq<Seq<char>>,
    section: Seq<char>,
    within: bool,
    i: int,
) -> bool {
    stands_in(lines, section, within, i) && (line_meaning(lines[i]) matches Line::Entry(key, value)
        && key == "credential_process"@ && value.len() > 0)
}

/// The command for a profile is the first that stands in its section, and no command of
/// another section is ever taken for it.
pub proof fn law_command_is_of_the_section(
    lines: Seq<Seq<char>>,
    section: Seq<char>,
    within: bool,
    i: int,
)
    requires
        0 <= i <= lines.len(),
        forall|k: int| 0 <= k < i ==> !(#[trigger] gives_command(lines, section, within, k)),
    ensures
        i < lines.len() && gives_command(lines, section, within, i) ==> (line_meaning(lines[i])
            matches Line::Entry(_, value) && process_in(lines, section, within) == Some(value)),
        i == lines.len() ==> process_in(lines, section, within) is None,
    decreases lines.len(),
{
    if lines.len() > 0 && i > 0 {
        let rest = lines.skip(1);
        let next = stands_in(lines, section, within, 1);
        reveal_with_fuel(stands_in, 2);
        assert(!gives_command(lines, section, within, 0));
        assert(process_in(lines, section, within) == process_in(rest, section, next));
        assert forall|k: int| 0 <= k < i - 1 implies !(#[trigger] gives_command(
            rest,
            section,
            next,
            k,
        )) by {
            lemma_stands_in(lines, section, within, k + 1);
            assert(!gives_command(lines, section, within, k + 1));
        }
        law_command_is_of_the_section(rest, section, next, i - 1);
        if i < lines.len() {
            lemma_stands_in(lines, section, within, i);
        }
    }
}

proof fn lemma_stands_in(lines: Seq<Seq<char>>, section: Seq<char>, within: bool, i: int)
    requires
        1 <= i < lines.len(),
    ensures
        stands_in(lines.skip(1), section, stands_in(lines, section, within, 1), i - 1)
            == stands_in(lines, section, within, i),
        lines.skip(1)[i - 1] == lines[i],
    decreases i,
{
    if i > 1 {
        lemma_stands_in(lines, section, within, i - 1);
    }
}

/// A file is read line by line for the section of the profile: its own name for the default
/// one, and `profile` before the name of any other.
pub proof fn law_profiles_have_sections(text: Seq<char>, profile: Seq<char>)
    ensures
        profile == "default"@ ==> configured_process(text, profile) == process_in(
            split_on(text, '\n'),
            "default"@,
            false,
        ),
        profile != "default"@ ==> configured_process(text, profile) == process_in(
            split_on(text, '\n'),
            "profile "@ + profile,
            false,
        ),
{
}

/// A process is run for credentials exactly where the error is about a login session and there
/// is a command to run.
pub proof fn law_rescue_is_for_logins(error: Seq<char>, has_command: bool)
    ensures
        ({
            let login = contains_text(error, "credentials-login"@);
            &&& rescue_for(error, has_command) == Rescue::RunProcess <==> login && has_command
            &&& rescue_for(error, has_command) == Rescue::ExplainLogin <==> login && !has_command
            &&& rescue_for(error, has_command) == Rescue::ExplainPlain <==> !login
        }),
{
}

/// Credentials of a process are usable where both keys are there, and they expire where and
/// when they say.
pub proof fn law_both_keys_are_needed(
    creds: &ProcessCreds,
    parsed: Option<i128>,
    told: Option<Option<i128>>,
    read: Option<Option<i128>>,
)
    requires
        call_ensures(usable_credentials, (creds, parsed), told),
        call_ensures(parse_process_credentials, (creds,), read),
    ensures
        told is Some <==> creds.access_key_id@.len() > 0 && creds.secret_access_key@.len() > 0,
        read is Some <==> told is Some,
        creds.expiration is None && read is Some ==> read == Some(None::<i128>) && told == read,
        creds.expiration is Some && told is Some ==> told == Some(parsed),
        creds.expiration is Some && read is Some ==> read == Some(
            rfc3339_nanos(creds.expiration->0@),
        ),
{
}

} // verus!
