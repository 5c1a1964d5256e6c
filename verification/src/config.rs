//! The settings of an installation: where it is deployed, and how the game is shown.

use crate::stack::{find_output, output_value, Output};
use crate::text::{opt_str, opt_text, same, texts, trim, trimmed};
use vstd::prelude::*;

verus! {

/// The port of the display.
pub const DEFAULT_PORT: i32 = 6901;

/// The port of the sound.
pub const DEFAULT_AUDIO_PORT: i32 = 6902;

/// The port of the H.264 video.
pub const DEFAULT_VIDEO_PORT: i32 = 6903;

/// The port of keyboard and mouse.
pub const DEFAULT_INPUT_PORT: i32 = 6904;

/// The region used where none is chosen.
pub const DEFAULT_REGION: &'static str = "us-east-1";

/// The settings of an installation.
#[derive(Clone, Debug)]
pub struct Config {
    pub region: String,
    /// The bucket that build contexts are uploaded to.
    pub artifact_bucket: String,
    pub build_role_arn: String,
    pub execution_role_arn: Option<String>,
    /// Blank for the service's own connector.
    pub ingress_connector_arn: String,
    /// Blank for the service's own connector.
    pub egress_connector_arn: String,
    pub base_image_arn: String,
    pub port: i32,
    pub audio_port: i32,
    pub video_port: i32,
    pub input_port: i32,
    /// `h264`, or none for noVNC.
    pub display: Option<String>,
    /// None or 0 where idle machines are left to the service.
    pub idle_suspend_minutes: Option<u64>,
    /// The account that was deployed to.
    pub aws_account_id: Option<String>,
    /// The profile that was deployed with.
    pub aws_profile: Option<String>,
}

/// What settings hold.
#[verifier::ext_equal]
pub ghost struct ConfigView {
    pub region: Seq<char>,
    pub artifact_bucket: Seq<char>,
    pub build_role_arn: Seq<char>,
    pub execution_role_arn: Option<Seq<char>>,
    pub ingress_connector_arn: Seq<char>,
    pub egress_connector_arn: Seq<char>,
    pub base_image_arn: Seq<char>,
    pub port: i32,
    pub audio_port: i32,
    pub video_port: i32,
    pub input_port: i32,
    pub display: Option<Seq<char>>,
    pub idle_suspend_minutes: Option<u64>,
    pub aws_account_id: Option<Seq<char>>,
    pub aws_profile: Option<Seq<char>>,
}

impl View for Config {
    type V = ConfigView;

    open spec fn view(&self) -> ConfigView {
        ConfigView {
            region: self.region@,
            artifact_bucket: self.artifact_bucket@,
            build_role_arn: self.build_role_arn@,
            execution_role_arn: opt_text(self.execution_role_arn),
            ingress_connector_arn: self.ingress_connector_arn@,
            egress_connector_arn: self.egress_connector_arn@,
            base_image_arn: self.base_image_arn@,
            port: self.port,
            audio_port: self.audio_port,
            video_port: self.video_port,
            input_port: self.input_port,
            display: opt_text(self.display),
            idle_suspend_minutes: self.idle_suspend_minutes,
            aws_account_id: opt_text(self.aws_account_id),
            aws_profile: opt_text(self.aws_profile),
        }
    }
}

/// The region used where none is chosen.
pub fn default_region() -> (r: String)
    ensures
        r@ == DEFAULT_REGION@,
{
    DEFAULT_REGION.to_owned()
}

/// The port of the display.
pub fn default_port() -> (r: i32)
    ensures
        r == DEFAULT_PORT,
{
    DEFAULT_PORT
}

/// The port of the sound.
pub fn default_audio_port() -> (r: i32)
    ensures
        r == DEFAULT_AUDIO_PORT,
{
    DEFAULT_AUDIO_PORT
}

/// The port of the H.264 video.
pub fn default_video_port() -> (r: i32)
    ensures
        r == DEFAULT_VIDEO_PORT,
{
    DEFAULT_VIDEO_PORT
}

/// The port of keyboard and mouse.
pub fn default_input_port() -> (r: i32)
    ensures
        r == DEFAULT_INPUT_PORT,
{
    DEFAULT_INPUT_PORT
}

/// Where a path starts.
#[derive(Debug)]
pub enum Root {
    /// At this path.
    Given(String),
    /// At the home directory.
    Home,
    /// At the working directory.
    Here,
}

/// A file or directory: where its path starts, and the names that lead on from there. How
/// names are joined is up to the platform.
#[derive(Debug)]
pub struct Place {
    pub root: Root,
    pub names: Vec<&'static str>,
}

/// Where a path starts.
pub ghost enum RootView {
    Given(Seq<char>),
    Home,
    Here,
}

/// Where a path starts, and the names that lead on from there.
#[verifier::ext_equal]
pub ghost struct PlaceView {
    pub root: RootView,
    pub names: Seq<Seq<char>>,
}

impl View for Place {
    type V = PlaceView;

    open spec fn view(&self) -> PlaceView {
        PlaceView {
            root: match self.root {
                Root::Given(path) => RootView::Given(path@),
                Root::Home => RootView::Home,
                Root::Here => RootView::Here,
            },
            names: texts(self.names@),
        }
    }
}

/// What the environment sets, unless it is blank.
pub open spec fn given(set: Option<Seq<char>>) -> Option<PlaceView> {
    match set {
        Some(path) => if trimmed(path).len() > 0 {
            Some(PlaceView { root: RootView::Given(path), names: Seq::empty() })
        } else {
            None
        },
        None => None,
    }
}

/// What the environment sets, unless it is blank.
pub fn given_place(set: Option<&str>) -> (r: Option<Place>)
    ensures
        match r {
            Some(p) => given(opt_str(set)) == Some(p@),
            None => given(opt_str(set)) is None,
        },
{
    match set {
        Some(path) => if trim(path).is_empty() {
            None
        } else {
            let p = Place { root: Root::Given(path.to_owned()), names: Vec::new() };
            assert(p@.names =~= Seq::<Seq<char>>::empty());
            Some(p)
        },
        None => None,
    }
}

/// A file or directory in a directory.
pub open spec fn inside(dir: PlaceView, name: Seq<char>) -> PlaceView {
    PlaceView { names: dir.names.push(name), ..dir }
}

impl Place {
    /// The home directory.
    pub fn home() -> (r: Place)
        ensures
            r@ == (PlaceView { root: RootView::Home, names: Seq::empty() }),
    {
        let p = Place { root: Root::Home, names: Vec::new() };
        assert(p@.names =~= Seq::<Seq<char>>::empty());
        p
    }

    /// A file or directory in this directory.
    pub fn child(self, name: &'static str) -> (r: Place)
        ensures
            r@ == inside(self@, name@),
    {
        let mut names = self.names;
        names.push(name);
        let p = Place { root: self.root, names };
        assert(p@.names =~= self@.names.push(name@));
        p
    }
}

/// The directory of settings and ledger: the one set in the environment unless that is
/// blank, else one in the home directory, where there is one.
pub open spec fn own_dir(set: Option<Seq<char>>, home: bool) -> Option<PlaceView> {
    match given(set) {
        Some(dir) => Some(dir),
        None => if home {
            Some(
                inside(PlaceView { root: RootView::Home, names: Seq::empty() }, ".hellbox"@),
            )
        } else {
            None
        },
    }
}

/// The directory of settings and ledger, given whether there is a home directory. Without
/// one there is none, unless one is set.
pub fn shrink_dir(set: Option<&str>, home: bool) -> (r: Result<Place, String>)
    ensures
        match own_dir(opt_str(set), home) {
            Some(d) => r matches Ok(dir) && dir@ == d,
            None => r matches Err(e) && e@ == "could not resolve home directory for ~/.hellbox"@,
        },
{
    match given_place(set) {
        Some(dir) => Ok(dir),
        None => if home {
            Ok(Place::home().child(".hellbox"))
        } else {
            Err("could not resolve home directory for ~/.hellbox".to_owned())
        },
    }
}

/// A file in the directory of settings and ledger.
pub fn own_file(set: Option<&str>, home: bool, name: &'static str) -> (r: Result<Place, String>)
    ensures
        match own_dir(opt_str(set), home) {
            Some(d) => r matches Ok(p) && p@ == inside(d, name@),
            None => r matches Err(e) && e@ == "could not resolve home directory for ~/.hellbox"@,
        },
{
    match shrink_dir(set, home) {
        Ok(dir) => Ok(dir.child(name)),
        Err(e) => Err(e),
    }
}

/// The value in an option, or another where it is empty.
fn or_empty(o: Option<&String>) -> (r: String)
    ensures
        r@ == (match o {
            Some(s) => s@,
            None => Seq::<char>::empty(),
        }),
{
    match o {
        Some(s) => s.as_str().to_owned(),
        None => {
            let s = String::new();
            assert(s@ =~= Seq::<char>::empty());
            s
        },
    }
}

/// A copy of an optional text.
pub fn copy_text(o: &Option<String>) -> (r: Option<String>)
    ensures
        opt_text(r) == opt_text(*o),
{
    match o {
        Some(s) => Some(s.as_str().to_owned()),
        None => None,
    }
}

/// The base image of a region.
pub open spec fn base_image(region: Seq<char>) -> Seq<char> {
    "arn:aws:lambda:"@ + region + ":aws:microvm-image:al2023-1"@
}

/// What is said of an output that a stack does not have.
pub open spec fn missing_output(stack: Seq<char>, key: Seq<char>) -> Seq<char> {
    "stack '"@ + stack + "' has no '"@ + key + "' output"@
}

/// What a deployment is made of, beside the settings that were there before.
pub ghost struct Deployment {
    pub stack: Seq<char>,
    pub outputs: Seq<Output>,
    pub region: Seq<char>,
    pub account: Seq<char>,
    pub profile: Option<Seq<char>>,
}

/// The settings that a deployment leaves: what the stack says, what the user had chosen,
/// and the account. The error names the first output that is missing.
pub open spec fn deployed(d: Deployment, existing: Option<ConfigView>) -> Result<
    ConfigView,
    Seq<char>,
> {
    let bucket = output_value(d.outputs, "ArtifactBucket"@);
    let build = output_value(d.outputs, "BuildRoleArn"@);
    let execution = output_value(d.outputs, "ExecutionRoleArn"@);
    if bucket is None {
        Err(missing_output(d.stack, "ArtifactBucket"@))
    } else if build is None {
        Err(missing_output(d.stack, "BuildRoleArn"@))
    } else if execution is None {
        Err(missing_output(d.stack, "ExecutionRoleArn"@))
    } else {
        let fresh = ConfigView {
            region: d.region,
            artifact_bucket: bucket->0,
            build_role_arn: build->0,
            execution_role_arn: execution,
            ingress_connector_arn: Seq::empty(),
            egress_connector_arn: Seq::empty(),
            base_image_arn: base_image(d.region),
            port: DEFAULT_PORT,
            audio_port: DEFAULT_AUDIO_PORT,
            video_port: DEFAULT_VIDEO_PORT,
            input_port: DEFAULT_INPUT_PORT,
            display: Some("h264"@),
            idle_suspend_minutes: None,
            aws_account_id: Some(d.account),
            aws_profile: match d.profile {
                Some(p) => if trimmed(p).len() > 0 {
                    Some(p)
                } else {
                    None
                },
                None => None,
            },
        };
        match existing {
            None => Ok(fresh),
            Some(had) => Ok(
                ConfigView {
                    ingress_connector_arn: had.ingress_connector_arn,
                    egress_connector_arn: had.egress_connector_arn,
                    port: had.port,
                    audio_port: had.audio_port,
                    video_port: had.video_port,
                    input_port: had.input_port,
                    display: had.display,
                    idle_suspend_minutes: had.idle_suspend_minutes,
                    ..fresh
                },
            ),
        }
    }
}

/// The text of a missing output.
fn missing_output_text(stack: &str, key: &str) -> (r: String)
    ensures
        r@ == missing_output(stack@, key@),
{
    let mut s = "stack '".to_owned();
    s.append(stack);
    s.append("' has no '");
    s.append(key);
    s.append("' output");
    s
}

/// What settings hold, where there are any.
pub open spec fn opt_config(o: Option<&Config>) -> Option<ConfigView> {
    match o {
        Some(c) => Some(c@),
        None => None,
    }
}

/// The settings that a deployment leaves.
pub fn write_config(
    stack: &str,
    outputs: &Vec<Output>,
    region: &str,
    account: &str,
    profile: Option<&str>,
    existing: Option<&Config>,
) -> (r: Result<Config, String>)
    ensures
        ({
            let d = Deployment {
                stack: stack@,
                outputs: outputs@,
                region: region@,
                account: account@,
                profile: opt_str(profile),
            };
            match deployed(d, opt_config(existing)) {
                Ok(v) => r matches Ok(c) && c@ == v,
                Err(e) => r matches Err(text) && text@ == e,
            }
        }),
{
    let artifact_bucket = match find_output(outputs, "ArtifactBucket") {
        Some(v) => v,
        None => {
            return Err(missing_output_text(stack, "ArtifactBucket"));
        },
    };
    let build_role_arn = match find_output(outputs, "BuildRoleArn") {
        Some(v) => v,
        None => {
            return Err(missing_output_text(stack, "BuildRoleArn"));
        },
    };
    let execution_role_arn = match find_output(outputs, "ExecutionRoleArn") {
        Some(v) => v,
        None => {
            return Err(missing_output_text(stack, "ExecutionRoleArn"));
        },
    };
    let mut base_image_arn = "arn:aws:lambda:".to_owned();
    base_image_arn.append(region);
    base_image_arn.append(":aws:microvm-image:al2023-1");
    let aws_profile = match profile {
        Some(p) => if trim(p).is_empty() {
            None
        } else {
            Some(p.to_owned())
        },
        None => None,
    };
    let display = match existing {
        Some(c) => copy_text(&c.display),
        None => Some("h264".to_owned()),
    };
    let idle_suspend_minutes = match existing {
        Some(c) => c.idle_suspend_minutes,
        None => None,
    };
    let (port, audio_port, video_port, input_port) = match existing {
        Some(c) => (c.port, c.audio_port, c.video_port, c.input_port),
        None => (DEFAULT_PORT, DEFAULT_AUDIO_PORT, DEFAULT_VIDEO_PORT, DEFAULT_INPUT_PORT),
    };
    let (ingress_connector_arn, egress_connector_arn) = match existing {
        Some(c) => (or_empty(Some(&c.ingress_connector_arn)), or_empty(Some(&c.egress_connector_arn))),
        None => (or_empty(None), or_empty(None)),
    };
    let cfg = Config {
        region: region.to_owned(),
        artifact_bucket,
        build_role_arn,
        execution_role_arn: Some(execution_role_arn),
        ingress_connector_arn,
        egress_connector_arn,
        base_image_arn,
        port,
        audio_port,
        video_port,
        input_port,
        display,
        idle_suspend_minutes,
        aws_account_id: Some(account.to_owned()),
        aws_profile,
    };
    Ok(cfg)
}

impl Config {
    /// The file that holds the settings.
    pub fn path(set: Option<&str>, home: bool) -> (r: Result<Place, String>)
        ensures
            match own_dir(opt_str(set), home) {
                Some(d) => r matches Ok(p) && p@ == inside(d, "config.toml"@),
                None => r matches Err(e) && e@
                    == "could not resolve home directory for ~/.hellbox"@,
            },
    {
        own_file(set, home, "config.toml")
    }

    /// Whether the game is shown as H.264 video.
    pub fn shows_h264(&self) -> (r: bool)
        ensures
            r == (self@.display == Some("h264"@)),
    {
        match &self.display {
            Some(d) => same(d.as_str(), "h264"),
            None => false,
        }
    }
}

/// Deploying anew keeps what the user had chosen, whatever the stack says.
pub proof fn law_deploying_keeps_choices(d: Deployment, had: ConfigView)
    ensures
        deployed(d, Some(had)) matches Ok(c) ==> {
            &&& c.port == had.port
            &&& c.audio_port == had.audio_port
            &&& c.video_port == had.video_port
            &&& c.input_port == had.input_port
            &&& c.ingress_connector_arn == had.ingress_connector_arn
            &&& c.egress_connector_arn == had.egress_connector_arn
            &&& c.idle_suspend_minutes == had.idle_suspend_minutes
            &&& c.display == had.display
        },
{
}

/// Deploying the same thing twice is the same as deploying it once.
pub proof fn law_deploying_twice(d: Deployment, existing: Option<ConfigView>)
    ensures
        deployed(d, existing) matches Ok(c) ==> deployed(d, Some(c)) == deployed(d, existing),
{
}

/// A deployment succeeds exactly where the stack has the three outputs, whatever settings
/// were there before.
pub proof fn law_deploying_needs_outputs(d: Deployment, existing: Option<ConfigView>)
    ensures
        deployed(d, existing) is Ok <==> {
            &&& output_value(d.outputs, "ArtifactBucket"@) is Some
            &&& output_value(d.outputs, "BuildRoleArn"@) is Some
            &&& output_value(d.outputs, "ExecutionRoleArn"@) is Some
        },
{
}

/// A deployment records what the stack made and for whom: bucket and roles are the stack's own
/// outputs, region and account those that were deployed to, and the profile is the one in use,
/// unless that is blank.
pub proof fn law_deployment_is_recorded(d: Deployment, existing: Option<ConfigView>)
    ensures
        deployed(d, existing) matches Ok(c) ==> {
            &&& Some(c.artifact_bucket) == output_value(d.outputs, "ArtifactBucket"@)
            &&& Some(c.build_role_arn) == output_value(d.outputs, "BuildRoleArn"@)
            &&& c.execution_role_arn == output_value(d.outputs, "ExecutionRoleArn"@)
            &&& c.region == d.region
            &&& c.base_image_arn == "arn:aws:lambda:"@ + d.region
                + ":aws:microvm-image:al2023-1"@
            &&& c.aws_account_id == Some(d.account)
            &&& d.profile is None ==> c.aws_profile is None
            &&& d.profile is Some && trimmed(d.profile->0).len() > 0 ==> c.aws_profile == d.profile
            &&& d.profile is Some && trimmed(d.profile->0).len() == 0 ==> c.aws_profile is None
        },
{
}

/// A first deployment shows the game as video, on the four ports in a row, with the service's
/// own network and without an idle time.
pub proof fn law_first_deployment(d: Deployment)
    ensures
        deployed(d, None) matches Ok(c) ==> {
            &&& c.display == Some("h264"@)
            &&& c.port == 6901
            &&& c.audio_port == 6902
            &&& c.video_port == 6903
            &&& c.input_port == 6904
            &&& c.ingress_connector_arn.len() == 0
            &&& c.egress_connector_arn.len() == 0
            &&& c.idle_suspend_minutes is None
        },
{
}

/// A deployment that fails names the first output that is missing, of bucket, build role and
/// execution role.
pub proof fn law_missing_outputs_are_named(d: Deployment, existing: Option<ConfigView>)
    ensures
        deployed(d, existing) matches Err(e) ==> {
            let key = if output_value(d.outputs, "ArtifactBucket"@) is None {
                "ArtifactBucket"@
            } else if output_value(d.outputs, "BuildRoleArn"@) is None {
                "BuildRoleArn"@
            } else {
                "ExecutionRoleArn"@
            };
            e == "stack '"@ + d.stack + "' has no '"@ + key + "' output"@
        },
{
}

/// The directory is the one that the environment sets, as it is set, else `.hellbox` in the
/// home directory, and there is none without either. A file in it is one name further.
pub proof fn law_own_directory(set: Option<Seq<char>>, home: bool, dir: PlaceView, name: Seq<char>)
    ensures
        ({
            let is_set = set is Some && trimmed(set->0).len() > 0;
            &&& own_dir(set, home) is None <==> !is_set && !home
            &&& is_set ==> (own_dir(set, home) matches Some(d) && d.root == RootView::Given(
                set->0,
            ) && d.names.len() == 0)
            &&& !is_set && home ==> (own_dir(set, home) matches Some(d) && d.root == RootView::Home
                && d.names == seq![".hellbox"@])
            &&& inside(dir, name).root == dir.root
            &&& inside(dir, name).names == dir.names.push(name)
        }),
{
    assert(Seq::<Seq<char>>::empty().push(".hellbox"@) =~= seq![".hellbox"@]);
}

/// Settings that are there are taken into account as they are.
pub proof fn law_settings_are_seen(c: &Config)
    ensures
        opt_config(Some(c)) == Some(c@),
        opt_config(None) is None,
{
}

} // verus!
