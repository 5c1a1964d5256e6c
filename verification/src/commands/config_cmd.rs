//! Looking at settings and changing them.

use crate::config::{Config, ConfigView};
use crate::number::{
    decimal, decimal_text, decimal_u64, law_numbers_read_back, parse_u64, parsed_u64,
};
use crate::text::{
    contains_text, has_prefix, has_suffix, lower, occurs_at, owned_texts, same, to_lower, trim,
    trimmed,
};
use vstd::prelude::*;

verus! {

/// A setting that can be changed.
#[derive(Clone, Copy, PartialEq, Eq, Structural, Debug)]
pub enum Setting {
    IdleSuspendMinutes,
    Display,
}

/// The setting of this name.
pub open spec fn setting_named(key: Seq<char>) -> Option<Setting> {
    if key == "idle_suspend_minutes"@ {
        Some(Setting::IdleSuspendMinutes)
    } else if key == "display"@ {
        Some(Setting::Display)
    } else {
        None
    }
}

/// What is said to a name that no setting has.
pub open spec fn unknown_key_text(key: Seq<char>) -> Seq<char> {
    "unknown setting '"@ + key + "'. Tunable keys: idle_suspend_minutes, display"@
}

/// What setting a value comes to: the settings after it and what is said, or the error.
pub open spec fn set_outcome(cfg: ConfigView, key: Seq<char>, value: Seq<char>) -> Result<
    (ConfigView, Seq<char>),
    Seq<char>,
> {
    match setting_named(key) {
        None => Err(unknown_key_text(key)),
        Some(Setting::IdleSuspendMinutes) => match parsed_u64(trimmed(value)) {
            None => Err("idle_suspend_minutes must be a whole number of minutes"@),
            Some(n) => Ok(
                (
                    ConfigView { idle_suspend_minutes: Some(n as u64), ..cfg },
                    if n == 0 {
                        "set idle_suspend_minutes = 0  (auto-suspend off; platform IdlePolicy still applies)"@
                    } else {
                        "set idle_suspend_minutes = "@ + decimal_text(n as int)
                            + "  (`hellbox open` auto-suspends after "@ + decimal_text(n as int)
                            + " idle min)"@
                    },
                ),
            ),
        },
        Some(Setting::Display) => if lower(trimmed(value)) == "vnc"@ {
            Ok(
                (
                    ConfigView { display: None, ..cfg },
                    "set display = vnc  (noVNC, default — `hellbox open` opens the plain URL)"@,
                ),
            )
        } else if lower(trimmed(value)) == "h264"@ {
            Ok(
                (
                    ConfigView { display: Some("h264"@), ..cfg },
                    "set display = h264  (H.264/WebCodecs — `hellbox open` opens with ?display=h264)"@,
                ),
            )
        } else {
            Err(
                "display must be 'vnc' (noVNC, default) or 'h264' (H.264/WebCodecs); got '"@
                    + value + "'"@,
            )
        },
    }
}

/// What clearing a setting comes to.
pub open spec fn unset_outcome(cfg: ConfigView, key: Seq<char>) -> Result<
    (ConfigView, Seq<char>),
    Seq<char>,
> {
    match setting_named(key) {
        None => Err(unknown_key_text(key)),
        Some(Setting::IdleSuspendMinutes) => Ok(
            (
                ConfigView { idle_suspend_minutes: None, ..cfg },
                "unset idle_suspend_minutes  (auto-suspend off; platform IdlePolicy ~5 min still applies)"@,
            ),
        ),
        Some(Setting::Display) => Ok(
            (
                ConfigView { display: None, ..cfg },
                "unset display  (back to vnc/noVNC default — `hellbox open` opens the plain URL)"@,
            ),
        ),
    }
}

/// What a change did: the settings are those of the outcome, or as they were where there was
/// an error, and the text is the one of the outcome.
pub open spec fn carried_out(
    outcome: Result<(ConfigView, Seq<char>), Seq<char>>,
    before: ConfigView,
    after: ConfigView,
    r: Result<String, String>,
) -> bool {
    match outcome {
        Ok((cfg, said)) => after == cfg && (r matches Ok(s) && s@ == said),
        Err(e) => after == before && (r matches Err(s) && s@ == e),
    }
}

/// The setting of this name.
fn setting_of(key: &str) -> (r: Option<Setting>)
    ensures
        r == setting_named(key@),
{
    if same(key, "idle_suspend_minutes") {
        Some(Setting::IdleSuspendMinutes)
    } else if same(key, "display") {
        Some(Setting::Display)
    } else {
        None
    }
}

/// What is said to a name that no setting has.
pub fn unknown_key(key: &str) -> (r: String)
    ensures
        r@ == unknown_key_text(key@),
{
    let mut s = "unknown setting '".to_owned();
    s.append(key);
    s.append("'. Tunable keys: idle_suspend_minutes, display");
    s
}

/// Changes a setting.
pub fn set(cfg: &mut Config, key: &str, value: &str) -> (r: Result<String, String>)
    ensures
        carried_out(set_outcome(old(cfg)@, key@, value@), old(cfg)@, final(cfg)@, r),
{
    match setting_of(key) {
        None => Err(unknown_key(key)),
        Some(Setting::IdleSuspendMinutes) => match parse_u64(trim(value)) {
            None => Err("idle_suspend_minutes must be a whole number of minutes".to_owned()),
            Some(mins) => {
                cfg.idle_suspend_minutes = Some(mins);
                if mins == 0 {
                    Ok(
                        "set idle_suspend_minutes = 0  (auto-suspend off; platform IdlePolicy still applies)".to_owned(),
                    )
                } else {
                    let n = decimal_u64(mins);
                    let mut s = "set idle_suspend_minutes = ".to_owned();
                    s.append(n.as_str());
                    s.append("  (`hellbox open` auto-suspends after ");
                    s.append(n.as_str());
                    s.append(" idle min)");
                    Ok(s)
                }
            },
        },
        Some(Setting::Display) => {
            let v = to_lower(trim(value));
            if same(v.as_str(), "vnc") {
                cfg.display = None;
                Ok(
                    "set display = vnc  (noVNC, default — `hellbox open` opens the plain URL)".to_owned(),
                )
            } else if same(v.as_str(), "h264") {
                cfg.display = Some("h264".to_owned());
                Ok(
                    "set display = h264  (H.264/WebCodecs — `hellbox open` opens with ?display=h264)".to_owned(),
                )
            } else {
                let mut e = "display must be 'vnc' (noVNC, default) or 'h264' (H.264/WebCodecs); got '".to_owned();
                e.append(value);
                e.append("'");
                Err(e)
            }
        },
    }
}

/// Clears a setting.
pub fn unset(cfg: &mut Config, key: &str) -> (r: Result<String, String>)
    ensures
        carried_out(unset_outcome(old(cfg)@, key@), old(cfg)@, final(cfg)@, r),
{
    match setting_of(key) {
        None => Err(unknown_key(key)),
        Some(Setting::IdleSuspendMinutes) => {
            cfg.idle_suspend_minutes = None;
            Ok(
                "unset idle_suspend_minutes  (auto-suspend off; platform IdlePolicy ~5 min still applies)".to_owned(),
            )
        },
        Some(Setting::Display) => {
            cfg.display = None;
            Ok(
                "unset display  (back to vnc/noVNC default — `hellbox open` opens the plain URL)".to_owned(),
            )
        },
    }
}

/// The line that tells the idle time.
pub open spec fn idle_line(minutes: Option<u64>) -> Seq<char> {
    match minutes {
        Some(m) if m > 0 => "  idle_suspend_minutes  = "@ + decimal_text(m as int)
            + "  (auto-suspend ON)"@,
        _ => "  idle_suspend_minutes  = <unset>  (auto-suspend off; platform IdlePolicy ~5 min still applies)"@,
    }
}

/// The line that tells the display.
pub open spec fn display_line(display: Option<Seq<char>>) -> Seq<char> {
    if display == Some("h264"@) {
        "  display               = h264 (H.264/WebCodecs)"@
    } else {
        "  display               = vnc (noVNC, default)"@
    }
}

/// The lines that tell the settings.
pub open spec fn shown(cfg: ConfigView, path: Seq<char>) -> Seq<Seq<char>> {
    seq![
        "settings ("@ + path + "):"@,
        "  region            = "@ + cfg.region,
        "  port              = "@ + decimal_text(cfg.port as int),
        "  audio_port        = "@ + decimal_text(cfg.audio_port as int),
        idle_line(cfg.idle_suspend_minutes),
        display_line(cfg.display),
    ]
}

/// The lines that tell the settings.
pub fn show(cfg: &Config, path: &str) -> (lines: Vec<String>)
    ensures
        owned_texts(lines@) == shown(cfg@, path@),
{
    let mut head = "settings (".to_owned();
    head.append(path);
    head.append("):");
    let mut region = "  region            = ".to_owned();
    region.append(cfg.region.as_str());
    let mut port = "  port              = ".to_owned();
    let number = decimal(cfg.port);
    port.append(number.as_str());
    let mut audio = "  audio_port        = ".to_owned();
    let number = decimal(cfg.audio_port);
    audio.append(number.as_str());
    let mut idle = "  idle_suspend_minutes  = <unset>  (auto-suspend off; platform IdlePolicy ~5 min still applies)".to_owned();
    if let Some(m) = cfg.idle_suspend_minutes {
        if m > 0 {
            idle = "  idle_suspend_minutes  = ".to_owned();
            let number = decimal_u64(m);
            idle.append(number.as_str());
            idle.append("  (auto-suspend ON)");
        }
    }
    let display = if cfg.shows_h264() {
        "  display               = h264 (H.264/WebCodecs)".to_owned()
    } else {
        "  display               = vnc (noVNC, default)".to_owned()
    };
    let mut lines: Vec<String> = Vec::new();
    lines.push(head);
    lines.push(region);
    lines.push(port);
    lines.push(audio);
    lines.push(idle);
    lines.push(display);
    assert(owned_texts(lines@) =~= shown(cfg@, path@));
    lines
}

/// Changing a setting touches that one only.
pub proof fn law_set_touches_one(cfg: ConfigView, key: Seq<char>, value: Seq<char>)
    ensures
        set_outcome(cfg, key, value) matches Ok((after, _)) ==> {
            &&& setting_named(key) is Some
            &&& after == (ConfigView {
                display: after.display,
                idle_suspend_minutes: after.idle_suspend_minutes,
                ..cfg
            })
            &&& setting_named(key) != Some(Setting::Display) ==> after.display == cfg.display
            &&& setting_named(key) != Some(Setting::IdleSuspendMinutes)
                ==> after.idle_suspend_minutes == cfg.idle_suspend_minutes
        },
{
}

/// Clearing a setting forgets what it was set to before.
pub proof fn law_unset_forgets(cfg: ConfigView, key: Seq<char>, value: Seq<char>)
    ensures
        set_outcome(cfg, key, value) matches Ok((after, _)) ==> unset_outcome(after, key)
            == unset_outcome(cfg, key),
{
}

/// Choosing noVNC and clearing the display leave the same settings.
pub proof fn law_vnc_is_the_default(cfg: ConfigView, value: Seq<char>)
    requires
        lower(trimmed(value)) == "vnc"@,
    ensures
        set_outcome(cfg, "display"@, value) matches Ok((a, _)) && (unset_outcome(cfg, "display"@)
            matches Ok((b, _)) && a == b),
{
    reveal_strlit("display");
    reveal_strlit("idle_suspend_minutes");
    assert("display"@.len() != "idle_suspend_minutes"@.len());
}

/// A whole number of minutes is set as it is typed, with or without blanks around it, and
/// anything else is refused.
pub proof fn law_minutes_are_set(cfg: ConfigView, value: Seq<char>, n: u64)
    ensures
        trimmed(value) == decimal_text(n as int) ==> (set_outcome(
            cfg,
            "idle_suspend_minutes"@,
            value,
        ) matches Ok((after, _)) && after.idle_suspend_minutes == Some(n)),
        parsed_u64(trimmed(value)) is None ==> set_outcome(cfg, "idle_suspend_minutes"@, value)
            is Err,
{
    law_numbers_read_back(n);
}

/// The display is set to one of two, in whatever case it is typed, and to nothing else.
pub proof fn law_displays_are_two(cfg: ConfigView, value: Seq<char>)
    ensures
        ({
            let typed = lower(trimmed(value));
            let outcome = set_outcome(cfg, "display"@, value);
            &&& typed == "h264"@ ==> (outcome matches Ok((after, _)) && after.display == Some(
                "h264"@,
            ))
            &&& typed == "vnc"@ ==> (outcome matches Ok((after, _)) && after.display is None)
            &&& typed != "h264"@ && typed != "vnc"@ ==> outcome is Err
        }),
{
    reveal_strlit("display");
    reveal_strlit("idle_suspend_minutes");
    reveal_strlit("vnc");
    reveal_strlit("h264");
    assert("display"@.len() != "idle_suspend_minutes"@.len());
    assert("vnc"@.len() != "h264"@.len());
}

/// There are two settings to change, and a name that is neither's is refused.
pub proof fn law_settings_are_two(cfg: ConfigView, key: Seq<char>, value: Seq<char>)
    requires
        key != "idle_suspend_minutes"@,
        key != "display"@,
    ensures
        set_outcome(cfg, key, value) is Err,
        unset_outcome(cfg, key) is Err,
{
}

/// Clearing a setting turns it off and leaves every other as it was.
pub proof fn law_unset_turns_off(cfg: ConfigView)
    ensures
        unset_outcome(cfg, "idle_suspend_minutes"@) matches Ok((after, _)) && after == (ConfigView {
            idle_suspend_minutes: None,
            ..cfg
        }),
        unset_outcome(cfg, "display"@) matches Ok((after, _)) && after == (ConfigView {
            display: None,
            ..cfg
        }),
{
    reveal_strlit("display");
    reveal_strlit("idle_suspend_minutes");
    assert("display"@.len() != "idle_suspend_minutes"@.len());
}

/// What is shown is what is set: the region, the two ports, the idle time where it is on, and
/// the display.
pub proof fn law_settings_are_shown(cfg: ConfigView, path: Seq<char>)
    ensures
        ({
            let lines = shown(cfg, path);
            let on = cfg.idle_suspend_minutes is Some && cfg.idle_suspend_minutes->0 > 0;
            &&& lines.len() == 6
            &&& lines[0] == "settings ("@ + path + "):"@
            &&& lines[1] == "  region            = "@ + cfg.region
            &&& lines[2] == "  port              = "@ + decimal_text(cfg.port as int)
            &&& lines[3] == "  audio_port        = "@ + decimal_text(cfg.audio_port as int)
            &&& on ==> lines[4] == "  idle_suspend_minutes  = "@ + decimal_text(
                cfg.idle_suspend_minutes->0 as int,
            ) + "  (auto-suspend ON)"@
            &&& !on ==> has_prefix(lines[4], "  idle_suspend_minutes  = <unset>"@)
            &&& cfg.display == Some("h264"@) <==> contains_text(lines[5], "h264"@)
        }),
{
    reveal_strlit(
        "  idle_suspend_minutes  = <unset>  (auto-suspend off; platform IdlePolicy ~5 min still applies)",
    );
    reveal_strlit("  idle_suspend_minutes  = <unset>");
    assert("  idle_suspend_minutes  = <unset>  (auto-suspend off; platform IdlePolicy ~5 min still applies)"@.take(
        33,
    ) =~= "  idle_suspend_minutes  = <unset>"@);
    reveal_strlit("  display               = h264 (H.264/WebCodecs)");
    reveal_strlit("  display               = vnc (noVNC, default)");
    reveal_strlit("h264");
    let a = "  display               = h264 (H.264/WebCodecs)"@;
    let b = "  display               = vnc (noVNC, default)"@;
    assert(a.subrange(26, 30) =~= "h264"@);
    assert(occurs_at(a, "h264"@, 26));
    if contains_text(b, "h264"@) {
        let k = choose|k: int| #[trigger] occurs_at(b, "h264"@, k);
        assert(b.subrange(k, k + 4)[1] == '2');
        assert(b[k + 1] == '2');
        assert(forall|j: int| 0 <= j < b.len() ==> b[j] != '2');
    }
}

/// A change is made exactly where it succeeds: an error leaves the settings as they were, and
/// what is said is what came of it.
pub proof fn law_errors_change_nothing(
    outcome: Result<(ConfigView, Seq<char>), Seq<char>>,
    before: ConfigView,
    after: ConfigView,
    r: Result<String, String>,
)
    requires
        carried_out(outcome, before, after, r),
    ensures
        r is Ok <==> outcome is Ok,
        outcome is Err ==> after == before && r->Err_0@ == outcome->Err_0,
        outcome is Ok ==> after == outcome->Ok_0.0 && r->Ok_0@ == outcome->Ok_0.1,
{
}

/// A name that no setting has is repeated in the error, with the names that there are.
pub proof fn law_unknown_names_are_told(key: Seq<char>)
    ensures
        contains_text(unknown_key_text(key), key),
        has_suffix(unknown_key_text(key), "idle_suspend_minutes, display"@),
{
    reveal_strlit("'. Tunable keys: idle_suspend_minutes, display");
    reveal_strlit("idle_suspend_minutes, display");
    let e = unknown_key_text(key);
    let k = "unknown setting '"@.len() as int;
    assert(e.subrange(k, k + key.len()) =~= key);
    assert(occurs_at(e, key, k));
    assert(e.skip(e.len() - 29) =~= "idle_suspend_minutes, display"@);
}

/// A change is told with the name and the value that were set.
pub proof fn law_changes_are_told(cfg: ConfigView, value: Seq<char>)
    ensures
        set_outcome(cfg, "display"@, value) matches Ok((after, said)) ==> (if after.display
            is Some {
            has_prefix(said, "set display = h264"@)
        } else {
            has_prefix(said, "set display = vnc"@)
        }),
        set_outcome(cfg, "idle_suspend_minutes"@, value) matches Ok((after, said)) ==> has_prefix(
            said,
            "set idle_suspend_minutes = "@ + decimal_text(after.idle_suspend_minutes->0 as int),
        ),
{
    reveal_strlit("display");
    reveal_strlit("idle_suspend_minutes");
    assert("display"@.len() != "idle_suspend_minutes"@.len());
    reveal_strlit("set display = h264");
    reveal_strlit("set display = vnc");
    reveal_strlit("set display = vnc  (noVNC, default — `hellbox open` opens the plain URL)");
    reveal_strlit("set display = h264  (H.264/WebCodecs — `hellbox open` opens with ?display=h264)");
    assert("set display = vnc  (noVNC, default — `hellbox open` opens the plain URL)"@.take(17)
        =~= "set display = vnc"@);
    assert("set display = h264  (H.264/WebCodecs — `hellbox open` opens with ?display=h264)"@.take(
        18,
    ) =~= "set display = h264"@);
    reveal_strlit("set idle_suspend_minutes = ");
    reveal_strlit(
        "set idle_suspend_minutes = 0  (auto-suspend off; platform IdlePolicy still applies)",
    );
    if let Ok((after, said)) = set_outcome(cfg, "idle_suspend_minutes"@, value) {
        let n = after.idle_suspend_minutes->0;
        let head = "set idle_suspend_minutes = "@ + decimal_text(n as int);
        if n == 0 {
            assert(decimal_text(0) =~= seq!['0']);
        }
        assert(said.take(head.len() as int) =~= head);
    }
}

/// A setting that is unset is told by its name, and what it falls back to.
pub proof fn law_unset_is_told(cfg: ConfigView)
    ensures
        unset_outcome(cfg, "display"@) is Ok,
        has_prefix(unset_outcome(cfg, "display"@)->Ok_0.1, "unset display  (back to vnc"@),
        unset_outcome(cfg, "idle_suspend_minutes"@) is Ok,
        has_prefix(
            unset_outcome(cfg, "idle_suspend_minutes"@)->Ok_0.1,
            "unset idle_suspend_minutes  (auto-suspend off"@,
        ),
{
    reveal_strlit("display");
    reveal_strlit("idle_suspend_minutes");
    assert("display"@.len() != "idle_suspend_minutes"@.len());
    reveal_strlit("unset display  (back to vnc");
    reveal_strlit("unset idle_suspend_minutes  (auto-suspend off");
    reveal_strlit("unset display  (back to vnc/noVNC default — `hellbox open` opens the plain URL)");
    reveal_strlit(
        "unset idle_suspend_minutes  (auto-suspend off; platform IdlePolicy ~5 min still applies)",
    );
    let a = unset_outcome(cfg, "display"@)->Ok_0.1;
    let b = unset_outcome(cfg, "idle_suspend_minutes"@)->Ok_0.1;
    assert(a.take(27) =~= "unset display  (back to vnc"@);
    assert(b.take(45) =~= "unset idle_suspend_minutes  (auto-suspend off"@);
}

} // verus!
