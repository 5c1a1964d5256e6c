//! Getting the game on screen, whatever it takes.

use crate::discover::answered;
use crate::state::{Capsule, CapsuleView};
use crate::text::{contains, contains_text, opt_str, same};
use vstd::prelude::*;

verus! {

/// What to do with a machine that was just found.
#[derive(Clone, Copy, PartialEq, Eq, Structural, Debug)]
pub enum PlayChoice {
    Play,
    Terminate,
    Keep,
}

/// What a typed letter chooses.
pub open spec fn choice_for(letter: char) -> PlayChoice {
    if letter == 't' {
        PlayChoice::Terminate
    } else if letter == 'k' {
        PlayChoice::Keep
    } else {
        PlayChoice::Play
    }
}

/// What a typed letter chooses.
pub fn play_choice(letter: char) -> (r: PlayChoice)
    ensures
        r == choice_for(letter),
{
    if letter == 't' {
        PlayChoice::Terminate
    } else if letter == 'k' {
        PlayChoice::Keep
    } else {
        PlayChoice::Play
    }
}

/// What it takes to get the game on screen.
#[derive(Clone, Copy, PartialEq, Eq, Structural, Debug)]
pub enum PlayStep {
    /// Record the state and open: a suspended machine shows its page with a button.
    Open,
    /// Wait for the machine to run, then open.
    Await,
    /// There is no image to launch.
    NoImage,
    /// Look whether the image can be launched.
    CheckImage,
    /// Launch a machine, then open.
    Relaunch,
    /// The image cannot be launched though it was just built.
    Unexpected,
    /// Ask whether to build the image anew.
    OfferRebuild,
}

/// A state in which a machine is there, or about to be.
pub open spec fn alive(live: Option<Seq<char>>) -> bool {
    live == Some("RUNNING"@) || live == Some("SUSPENDED"@) || live == Some("SUSPENDING"@) || live
        == Some("PENDING"@)
}

/// What a state calls for. None stands for a machine that the service does not know.
pub open spec fn step_for(live: Option<Seq<char>>, c: CapsuleView) -> PlayStep {
    if live == Some("PENDING"@) {
        PlayStep::Await
    } else if alive(live) {
        PlayStep::Open
    } else if c.image_arn is None && c.image_version is None {
        PlayStep::NoImage
    } else {
        PlayStep::CheckImage
    }
}

/// What an image that was looked at calls for.
pub open spec fn step_after_image(launchable: bool, strict: bool) -> PlayStep {
    if launchable {
        PlayStep::Relaunch
    } else if strict {
        PlayStep::Unexpected
    } else {
        PlayStep::OfferRebuild
    }
}

/// What the state of a machine calls for.
pub fn play_step(live: Option<&str>, capsule: &Capsule) -> (r: PlayStep)
    ensures
        r == step_for(opt_str(live), capsule@),
{
    proof {
        reveal_strlit("PENDING");
        reveal_strlit("RUNNING");
        reveal_strlit("SUSPENDED");
        reveal_strlit("SUSPENDING");
        assert("PENDING"@[0] == 'P' && "RUNNING"@[0] == 'R' && "SUSPENDED"@[0] == 'S'
            && "SUSPENDING"@[0] == 'S');
    }
    if let Some(s) = live {
        if same(s, "RUNNING") || same(s, "SUSPENDED") || same(s, "SUSPENDING") {
            return PlayStep::Open;
        }
        if same(s, "PENDING") {
            return PlayStep::Await;
        }
    }
    if capsule.image_arn.is_none() && capsule.image_version.is_none() {
        PlayStep::NoImage
    } else {
        PlayStep::CheckImage
    }
}

/// What an image that was looked at calls for.
pub fn after_image_check(launchable: bool, strict: bool) -> (r: PlayStep)
    ensures
        r == step_after_image(launchable, strict),
{
    if launchable {
        PlayStep::Relaunch
    } else if strict {
        PlayStep::Unexpected
    } else {
        PlayStep::OfferRebuild
    }
}

/// Whether an error says that the service does not know a machine.
pub fn machine_is_gone(error: &str) -> (r: bool)
    ensures
        r == (contains_text(error@, "ResourceNotFound"@) || contains_text(error@, "NotFound"@)),
{
    contains(error, "ResourceNotFound") || contains(error, "NotFound")
}

/// The error for a capsule that is not in the ledger.
pub fn no_capsule(name: &str) -> (r: String)
    ensures
        r@ == "no capsule named '"@ + name@ + "' — run `hellbox deploy` first"@,
{
    let mut e = "no capsule named '".to_owned();
    e.append(name);
    e.append("' — run `hellbox deploy` first");
    e
}

/// The error for a capsule without an image.
pub fn no_image(name: &str) -> (r: String)
    ensures
        r@ == "capsule '"@ + name@ + "' has no image — run `hellbox deploy`"@,
{
    let mut e = "capsule '".to_owned();
    e.append(name);
    e.append("' has no image — run `hellbox deploy`");
    e
}

/// The error for an image that cannot be launched though it was just built.
pub fn unexpected_image(name: &str) -> (r: String)
    ensures
        r@ == "the '"@ + name@
            + "' image has no launchable version after deploy built it; this is unexpected, try `hellbox rm --name "@
            + name@ + "` then `hellbox deploy`"@,
{
    let mut e = "the '".to_owned();
    e.append(name);
    e.append(
        "' image has no launchable version after deploy built it; this is unexpected, try `hellbox rm --name ",
    );
    e.append(name);
    e.append("` then `hellbox deploy`");
    e
}

/// Whether to build an image anew: it takes minutes and makes new resources, so only on a
/// clear answer.
pub fn offer_rebuild(name: &str, answer: char) -> (r: Result<(), String>)
    ensures
        r is Ok <==> answer == 'y',
        r matches Err(e) ==> e@ == "run `hellbox deploy` to rebuild the '"@ + name@
            + "' image, then try again"@,
{
    if answer == 'y' {
        Ok(())
    } else {
        let mut e = "run `hellbox deploy` to rebuild the '".to_owned();
        e.append(name);
        e.append("' image, then try again");
        Err(e)
    }
}

/// What playing comes to for a state and an image.
pub open spec fn play_course(
    live: Option<Seq<char>>,
    c: CapsuleView,
    launchable: bool,
    strict: bool,
) -> PlayStep {
    match step_for(live, c) {
        PlayStep::CheckImage => step_after_image(launchable, strict),
        other => other,
    }
}

/// A second machine is never launched beside one that is there, and never from an image that
/// cannot be launched.
pub proof fn law_no_second_machine(
    live: Option<Seq<char>>,
    c: CapsuleView,
    launchable: bool,
    strict: bool,
)
    ensures
        play_course(live, c, launchable, strict) == PlayStep::Relaunch ==> !alive(live)
            && launchable && (c.image_arn is Some || c.image_version is Some),
{
}

/// A deployment, which plays strictly, never comes back to building from there.
pub proof fn law_strict_does_not_rebuild(
    live: Option<Seq<char>>,
    c: CapsuleView,
    launchable: bool,
)
    ensures
        play_course(live, c, launchable, true) != PlayStep::OfferRebuild,
{
}

/// Where nobody can be asked, nothing is terminated and nothing is built: the questions come
/// with defaults that do neither.
pub proof fn law_silence_is_harmless(default: char)
    requires
        default != 't',
        default != 'y',
    ensures
        choice_for(answered(None, default)) != PlayChoice::Terminate,
        answered(None, default) != 'y',
{
}

/// Whatever the state, playing comes to what gets the game on screen: a machine that runs or
/// is frozen is opened, one that starts is waited for, and where there is none, one is launched
/// from the image, if that can be launched.
pub proof fn law_playing_gets_there(
    live: Option<Seq<char>>,
    c: CapsuleView,
    launchable: bool,
    strict: bool,
)
    ensures
        ({
            let end = play_course(live, c, launchable, strict);
            let open = live == Some("RUNNING"@) || live == Some("SUSPENDED"@) || live == Some(
                "SUSPENDING"@,
            );
            let starting = live == Some("PENDING"@);
            let image = c.image_arn is Some || c.image_version is Some;
            &&& end == PlayStep::Open <==> open
            &&& end == PlayStep::Await <==> starting
            &&& end == PlayStep::NoImage <==> !open && !starting && !image
            &&& end == PlayStep::Relaunch <==> !open && !starting && image && launchable
            &&& end == PlayStep::Unexpected <==> !open && !starting && image && !launchable
                && strict
            &&& end == PlayStep::OfferRebuild <==> !open && !starting && image && !launchable
                && !strict
        }),
{
    reveal_strlit("PENDING");
    reveal_strlit("RUNNING");
    reveal_strlit("SUSPENDED");
    reveal_strlit("SUSPENDING");
    assert("PENDING"@[0] == 'P' && "RUNNING"@[0] == 'R' && "SUSPENDED"@[0] == 'S'
        && "SUSPENDING"@[0] == 'S');
}

/// A machine is terminated only by the letter for it, kept without opening only by the letter
/// for that, and played on any other.
pub proof fn law_letters_choose(letter: char)
    ensures
        choice_for(letter) == PlayChoice::Terminate <==> letter == 't',
        choice_for(letter) == PlayChoice::Keep <==> letter == 'k',
        choice_for(letter) == PlayChoice::Play <==> letter != 't' && letter != 'k',
{
}

} // verus!
