//! Building the image of a capsule.

use crate::commands::deploy::{error_says, says};
use crate::commands::open::hex_digits;
use crate::config::copy_text;
use crate::number::{decimal_text, decimal_u64, hex, hex_text};
use crate::random::random_bytes;
use crate::state::{known, CapsuleView, State};
use crate::text::{
    contains_text, join, joined, occurs_at, opt_str, opt_text, same, texts, to_upper, upper,
};
use vstd::prelude::*;

verus! {

/// The port on which the service asks a machine whether it is ready.
pub const HOOK_PORT: i32 = 9000;

/// How often a name that is still being released is tried again.
pub const RELEASE_RETRIES: u32 = 18;

/// How often a place for the build context is looked for.
pub const CONTEXT_ATTEMPTS: u32 = 100;

/// Where the build context of a capsule is uploaded to.
pub fn context_key(name: &str) -> (r: String)
    ensures
        r@ == "contexts/"@ + name@ + ".zip"@,
{
    let mut s = "contexts/".to_owned();
    s.append(name);
    s.append(".zip");
    s
}

/// The address of what was uploaded.
pub fn artifact_uri(bucket: &str, key: &str) -> (r: String)
    ensures
        r@ == "s3://"@ + bucket@ + "/"@ + key@,
{
    let mut s = "s3://".to_owned();
    s.append(bucket);
    s.append("/");
    s.append(key);
    s
}

/// The token of a build at a point in time, in seconds.
pub fn client_token(name: &str, now: u64) -> (r: String)
    ensures
        r@ == "hellbox-build-"@ + name@ + "-"@ + decimal_text(now as int),
{
    let mut s = "hellbox-build-".to_owned();
    s.append(name);
    s.append("-");
    let secs = decimal_u64(now);
    s.append(secs.as_str());
    s
}

/// An image that is of no use and can be replaced.
pub open spec fn dead_image(state: Seq<char>) -> bool {
    let s = upper(state);
    ||| s == "CREATE_FAILED"@
    ||| s == "CREATEFAILED"@
    ||| s == "DELETING"@
    ||| s == "DELETE_FAILED"@
    ||| s == "FAILED"@
}

/// Whether an image is of no use and can be replaced.
pub fn is_dead_image(state: &str) -> (r: bool)
    ensures
        r == dead_image(state@),
{
    let raised = to_upper(state);
    let s = raised.as_str();
    same(s, "CREATE_FAILED") || same(s, "CREATEFAILED") || same(s, "DELETING") || same(
        s,
        "DELETE_FAILED",
    ) || same(s, "FAILED")
}

/// What follows a request to make an image.
#[derive(Clone, Copy, PartialEq, Eq, Structural, Debug)]
pub enum CreateStep {
    /// There is an image of that name: look at it.
    Inspect,
    /// It is of no use: delete it, and try again after ten seconds.
    DeleteAndRetry,
    /// There is none, so the name is still being released: try again after ten seconds.
    AwaitRelease,
    /// It may be of use: leave it alone.
    Usable,
    Fail,
}

/// What follows a refusal.
pub open spec fn step_after_refusal(message: Option<Seq<char>>) -> CreateStep {
    if says(message, "already exists"@) {
        CreateStep::Inspect
    } else {
        CreateStep::Fail
    }
}

/// What follows a look at the image of that name.
pub open spec fn step_after_look(existing: Option<Seq<char>>, retries: u32) -> CreateStep {
    match existing {
        Some(s) => if dead_image(s) {
            CreateStep::DeleteAndRetry
        } else {
            CreateStep::Usable
        },
        None => if retries < RELEASE_RETRIES {
            CreateStep::AwaitRelease
        } else {
            CreateStep::Usable
        },
    }
}

/// What follows a refusal.
pub fn after_refusal(message: Option<&str>) -> (r: CreateStep)
    ensures
        r == step_after_refusal(opt_str(message)),
{
    if error_says(message, "already exists") {
        CreateStep::Inspect
    } else {
        CreateStep::Fail
    }
}

/// What follows a look at the image of that name; `retries` counts the waits for its release.
pub fn after_look(existing: Option<&str>, retries: &mut u32) -> (r: CreateStep)
    ensures
        r == step_after_look(opt_str(existing), *old(retries)),
        *final(retries) == *old(retries) + (if r == CreateStep::AwaitRelease {
            1int
        } else {
            0int
        }),
{
    match existing {
        Some(s) => if is_dead_image(s) {
            CreateStep::DeleteAndRetry
        } else {
            CreateStep::Usable
        },
        None => if *retries < RELEASE_RETRIES {
            *retries = *retries + 1;
            CreateStep::AwaitRelease
        } else {
            CreateStep::Usable
        },
    }
}

/// What is said of an image that is left alone.
pub fn usable_image(name: &str) -> (r: String)
    ensures
        r@ == "image '"@ + name@ + "' already exists and is usable. `hellbox up --name "@ + name@
            + "` launches it as-is; to rebuild from the current capsule, `hellbox rm --name "@
            + name@ + "` first, then build again"@,
{
    let mut e = "image '".to_owned();
    e.append(name);
    e.append("' already exists and is usable. `hellbox up --name ");
    e.append(name);
    e.append("` launches it as-is; to rebuild from the current capsule, `hellbox rm --name ");
    e.append(name);
    e.append("` first, then build again");
    e
}

/// Records an image that is being made.
pub fn record_created(
    state: &mut State,
    name: &str,
    image_arn: &str,
    version: &Option<String>,
    now: &str,
)
    ensures
        final(state)@ == old(state)@.insert(
            name@,
            CapsuleView {
                image_arn: Some(image_arn@),
                image_version: opt_text(*version),
                state: Some(now@),
                ..known(old(state)@, name@)
            },
        ),
        final(state)@ == old(state)@.insert(
            name@,
            being_made(known(old(state)@, name@), image_arn@, opt_text(*version), now@),
        ),
{
    let mut c = state.record(name);
    c.image_arn = Some(image_arn.to_owned());
    c.image_version = copy_text(version);
    c.state = Some(now.to_owned());
    state.put(name, c);
}

/// The record of an image that was waited for.
pub open spec fn built(
    c: CapsuleView,
    reached: Seq<char>,
    version: Option<Seq<char>>,
) -> CapsuleView {
    CapsuleView {
        state: Some(reached),
        image_version: if version is Some {
            version
        } else {
            c.image_version
        },
        ..c
    }
}

/// Records an image that was waited for; an error where it could not be made.
pub fn record_built(state: &mut State, name: &str, reached: &str, version: &Option<String>) -> (r:
    Result<(), String>)
    ensures
        final(state)@ == old(state)@.insert(
            name@,
            built(known(old(state)@, name@), reached@, opt_text(*version)),
        ),
        r is Err <==> reached@ == "CREATE_FAILED"@,
        r matches Err(e) ==> e@ == "image build for '"@ + name@
            + "' failed (state CREATE_FAILED)"@,
{
    let mut c = state.record(name);
    c.state = Some(reached.to_owned());
    if version.is_some() {
        c.image_version = copy_text(version);
    }
    state.put(name, c);
    if same(reached, "CREATE_FAILED") {
        let mut e = "image build for '".to_owned();
        e.append(name);
        e.append("' failed (state CREATE_FAILED)");
        Err(e)
    } else {
        Ok(())
    }
}

/// The states that end the wait for an image.
pub fn image_states() -> (r: Vec<&'static str>)
    ensures
        texts(r@) == seq!["CREATED"@, "CREATE_FAILED"@],
{
    let r = vec!["CREATED", "CREATE_FAILED"];
    assert(texts(r@) =~= seq!["CREATED"@, "CREATE_FAILED"@]);
    r
}

/// Writes random bytes as a number in base 16, the last byte first.
pub fn suffix_of(bytes: &[u8]) -> (r: String)
    ensures
        r@ == hex_text(bytes@.reverse()),
        r@.len() == 2 * bytes@.len(),
        hex_digits(r@),
{
    let mut turned: Vec<u8> = Vec::new();
    let mut i: usize = bytes.len();
    while i > 0
        invariant
            i <= bytes@.len(),
            turned@ == bytes@.reverse().take(bytes@.len() - i),
        decreases i,
    {
        turned.push(bytes[i - 1]);
        assert(turned@ =~= bytes@.reverse().take(bytes@.len() - i + 1));
        i -= 1;
    }
    assert(turned@ =~= bytes@.reverse());
    hex(turned.as_slice())
}

/// A name that nobody can guess, for a place on disk: 32 hexadecimal digits, none where the
/// system has no random source.
pub fn random_context_suffix() -> (r: Option<String>)
    ensures
        r matches Some(s) ==> s@.len() == 32 && hex_digits(s@),
{
    match random_bytes(16) {
        Some(bytes) => Some(suffix_of(bytes.as_slice())),
        None => None,
    }
}

/// Where a build context comes from.
#[derive(Clone, Copy, PartialEq, Eq, Structural, Debug)]
pub enum CapsuleSource {
    /// The directory that was named.
    Given,
    /// The directory of a checkout.
    Local,
    /// The files that come with the program.
    Embedded,
}

/// Decides where a build context comes from: `given` tells whether a directory that was
/// named is there.
pub fn capsule_dir(given: Option<(&str, bool)>, local: bool) -> (r: Result<CapsuleSource, String>)
    ensures
        match given {
            Some((path, there)) => if there {
                r == Ok::<CapsuleSource, String>(CapsuleSource::Given)
            } else {
                r matches Err(e) && e@ == "no capsule dir at "@ + path@
            },
            None => r == Ok::<CapsuleSource, String>(
                if local {
                    CapsuleSource::Local
                } else {
                    CapsuleSource::Embedded
                },
            ),
        },
{
    match given {
        Some((path, there)) => if there {
            Ok(CapsuleSource::Given)
        } else {
            let mut e = "no capsule dir at ".to_owned();
            e.append(path);
            Err(e)
        },
        None => if local {
            Ok(CapsuleSource::Local)
        } else {
            Ok(CapsuleSource::Embedded)
        },
    }
}

/// What an entry of a build context is.
#[derive(Clone, Copy, PartialEq, Eq, Structural, Debug)]
pub enum EntryKind {
    Symlink,
    Directory,
    /// A regular file, and the number of names it has where the system tells it.
    File { links: Option<u64> },
    Other,
}

/// How an entry is packed.
#[derive(Clone, Copy, PartialEq, Eq, Structural, Debug)]
pub enum Packed {
    Directory,
    File,
}

/// How an entry is packed, or why nothing is built. Only directories and regular files of a
/// single name are packed: anything else could carry what lies elsewhere on the disk.
pub open spec fn entry_verdict(kind: EntryKind, path: Seq<char>) -> Result<Packed, Seq<char>> {
    match kind {
        EntryKind::Symlink => Err(
            "refusing to build: capsule contains a symlink ("@ + path
                + "). Symlinks are not packaged (their targets could exfiltrate local files into the cloud build context). Remove it or replace it with a real file."@,
        ),
        EntryKind::Directory => Ok(Packed::Directory),
        EntryKind::Other => Err(
            "refusing to build: capsule contains a non-regular file ("@ + path
                + "). Only regular files and directories are packaged; remove sockets, FIFOs, devices, or other special files."@,
        ),
        EntryKind::File { links } => if links matches Some(n) && n > 1 {
            Err(
                "refusing to build: capsule contains a hardlink ("@ + path
                    + "). Hardlinks are not packaged because they can alias files outside the capsule and exfiltrate local bytes into the cloud build context."@,
            )
        } else {
            Ok(Packed::File)
        },
    }
}

/// Decides how an entry is packed.
pub fn validate_zip_file_entry(kind: EntryKind, path: &str) -> (r: Result<Packed, String>)
    ensures
        match entry_verdict(kind, path@) {
            Ok(p) => r == Ok::<Packed, String>(p),
            Err(e) => r matches Err(text) && text@ == e,
        },
{
    match kind {
        EntryKind::Directory => Ok(Packed::Directory),
        EntryKind::Symlink => {
            let mut e = "refusing to build: capsule contains a symlink (".to_owned();
            e.append(path);
            e.append(
                "). Symlinks are not packaged (their targets could exfiltrate local files into the cloud build context). Remove it or replace it with a real file.",
            );
            Err(e)
        },
        EntryKind::Other => {
            let mut e = "refusing to build: capsule contains a non-regular file (".to_owned();
            e.append(path);
            e.append(
                "). Only regular files and directories are packaged; remove sockets, FIFOs, devices, or other special files.",
            );
            Err(e)
        },
        EntryKind::File { links } => {
            let aliased = match links {
                Some(n) => n > 1,
                None => false,
            };
            if aliased {
                let mut e = "refusing to build: capsule contains a hardlink (".to_owned();
                e.append(path);
                e.append(
                    "). Hardlinks are not packaged because they can alias files outside the capsule and exfiltrate local bytes into the cloud build context.",
                );
                Err(e)
            } else {
                Ok(Packed::File)
            }
        },
    }
}

/// The name of an entry in the archive: the parts of its path, and a slash behind a
/// directory.
pub open spec fn archive_name(parts: Seq<Seq<char>>, packed: Packed) -> Seq<char> {
    match packed {
        Packed::File => joined(parts, "/"@),
        Packed::Directory => joined(parts, "/"@) + "/"@,
    }
}

/// The name of an entry in the archive.
pub fn entry_name(parts: &Vec<&str>, packed: Packed) -> (r: String)
    ensures
        r@ == archive_name(texts(parts@), packed),
{
    let mut name = join(parts, "/");
    if packed == Packed::Directory {
        name.append("/");
    }
    name
}

/// An image that was made is never taken for one of no use, however its state is written, so
/// that building never replaces it.
pub proof fn law_made_images_stay(state: Seq<char>, retries: u32)
    requires
        upper(state) == "CREATED"@ || upper(state) == "CREATING"@,
    ensures
        !dead_image(state),
        step_after_look(Some(state), retries) == CreateStep::Usable,
{
    reveal_strlit("CREATED");
    reveal_strlit("CREATING");
    reveal_strlit("CREATE_FAILED");
    reveal_strlit("CREATEFAILED");
    reveal_strlit("DELETING");
    reveal_strlit("DELETE_FAILED");
    reveal_strlit("FAILED");
    assert("CREATED"@.len() == 7 && "CREATING"@.len() == 8);
    assert("DELETING"@[0] == 'D' && "CREATING"@[0] == 'C');
    assert("CREATE_FAILED"@.len() == 13 && "CREATEFAILED"@.len() == 12 && "FAILED"@.len() == 6);
}

/// The number of waits for the release of a name, over a run of looks at it.
pub open spec fn waits_in(looks: Seq<Option<Seq<char>>>) -> nat
    decreases looks.len(),
{
    if looks.len() == 0 {
        0
    } else {
        let before = waits_in(looks.drop_last());
        if step_after_look(looks.last(), before as u32) == CreateStep::AwaitRelease {
            before + 1
        } else {
            before
        }
    }
}

/// However often one looks, a name is waited for a bounded number of times, and only while
/// nothing of that name is there.
pub proof fn law_release_is_bounded(looks: Seq<Option<Seq<char>>>)
    ensures
        waits_in(looks) <= RELEASE_RETRIES,
        looks.len() > 0 && waits_in(looks) > waits_in(looks.drop_last()) ==> looks.last() is None,
    decreases looks.len(),
{
    if looks.len() > 0 {
        law_release_is_bounded(looks.drop_last());
    }
}

/// Nothing is packed but directories, and regular files that have no second name.
pub proof fn law_only_plain_entries(kind: EntryKind, path: Seq<char>)
    ensures
        entry_verdict(kind, path) is Ok <==> {
            ||| kind == EntryKind::Directory
            ||| kind matches EntryKind::File { links } && (links matches Some(n) ==> n <= 1)
        },
{
}

/// A failed or deleted image is of no use, in whatever case its state is written, and an image
/// in any other state may be.
pub proof fn law_dead_images_are_known(state: Seq<char>)
    ensures
        dead_image(state) <==> seq![
            "CREATE_FAILED"@,
            "CREATEFAILED"@,
            "DELETING"@,
            "DELETE_FAILED"@,
            "FAILED"@,
        ].contains(upper(state)),
{
    let all = seq![
        "CREATE_FAILED"@,
        "CREATEFAILED"@,
        "DELETING"@,
        "DELETE_FAILED"@,
        "FAILED"@,
    ];
    let s = upper(state);
    if dead_image(state) {
        assert(all[0] == s || all[1] == s || all[2] == s || all[3] == s || all[4] == s);
    }
}

/// A name that is taken is looked into: an image of no use is replaced, any other is left
/// alone, and a name without an image is waited for up to eighteen times. A refusal for any
/// other reason is final.
pub proof fn law_taken_names_are_resolved(
    message: Option<Seq<char>>,
    existing: Option<Seq<char>>,
    retries: u32,
)
    ensures
        ({
            let step = step_after_look(existing, retries);
            let taken = message is Some && contains_text(message->0, "already exists"@);
            &&& step_after_refusal(message) == (if taken {
                CreateStep::Inspect
            } else {
                CreateStep::Fail
            })
            &&& step == CreateStep::DeleteAndRetry <==> existing is Some && dead_image(existing->0)
            &&& step == CreateStep::AwaitRelease <==> existing is None && retries < 18
            &&& step == CreateStep::Usable <==> (existing is Some && !dead_image(existing->0)) || (
            existing is None && retries >= 18)
        }),
{
}

/// Waiting for an image changes its state and, where it is known, its version; machine,
/// endpoint and the image itself stay as they are recorded.
pub proof fn law_building_keeps_the_rest(
    c: CapsuleView,
    reached: Seq<char>,
    version: Option<Seq<char>>,
)
    ensures
        ({
            let after = built(c, reached, version);
            &&& after.state == Some(reached)
            &&& after.image_arn == c.image_arn
            &&& after.microvm_id == c.microvm_id
            &&& after.endpoint == c.endpoint
            &&& version is Some ==> after.image_version == version
            &&& version is None ==> after.image_version == c.image_version
        }),
{
}

/// A directory is packed as one and a file as one, and the names in the archive tell them
/// apart: a directory's is that of its path with a slash behind.
pub proof fn law_entries_keep_their_kind(kind: EntryKind, path: Seq<char>, parts: Seq<Seq<char>>)
    ensures
        entry_verdict(kind, path) == Ok::<Packed, Seq<char>>(Packed::Directory) <==> kind
            == EntryKind::Directory,
        entry_verdict(kind, path) is Ok && kind is File ==> entry_verdict(kind, path) == Ok::<
            Packed,
            Seq<char>,
        >(Packed::File),
        archive_name(parts, Packed::File) == joined(parts, "/"@),
        archive_name(parts, Packed::Directory) == archive_name(parts, Packed::File) + "/"@,
        entry_verdict(kind, path) matches Err(e) ==> contains_text(e, path),
{
    if let Err(e) = entry_verdict(kind, path) {
        let head = match kind {
            EntryKind::Symlink => "refusing to build: capsule contains a symlink ("@,
            EntryKind::Other => "refusing to build: capsule contains a non-regular file ("@,
            _ => "refusing to build: capsule contains a hardlink ("@,
        };
        let k = head.len() as int;
        assert(e.subrange(k, k + path.len()) =~= path);
        assert(occurs_at(e, path, k));
    }
}

/// The record of an image that is being made.
pub open spec fn being_made(
    c: CapsuleView,
    arn: Seq<char>,
    version: Option<Seq<char>>,
    now: Seq<char>,
) -> CapsuleView {
    CapsuleView { image_arn: Some(arn), image_version: version, state: Some(now), ..c }
}

/// An image is recorded as soon as it is being made, with its version, and what is recorded of
/// a machine stays.
pub proof fn law_new_images_are_recorded(
    c: CapsuleView,
    arn: Seq<char>,
    version: Option<Seq<char>>,
    now: Seq<char>,
)
    ensures
        ({
            let after = being_made(c, arn, version, now);
            &&& after.image_arn == Some(arn)
            &&& after.image_version == version
            &&& after.state == Some(now)
            &&& after.microvm_id == c.microvm_id
            &&& after.endpoint == c.endpoint
        }),
{
}

/// A build succeeds unless the image could not be made; either way the record follows it and
/// keeps its machine, and no other record changes.
pub proof fn law_builds_are_followed(
    state: &mut State,
    name: &str,
    reached: &str,
    version: &Option<String>,
    r: Result<(), String>,
)
    requires
        call_ensures(record_built, (state, name, reached, version), r),
    ensures
        ({
            let before = known(old(state)@, name@);
            let after = known(final(state)@, name@);
            &&& r is Ok <==> reached@ != "CREATE_FAILED"@
            &&& final(state)@.remove(name@) =~= old(state)@.remove(name@)
            &&& after.state == Some(reached@)
            &&& after.image_arn == before.image_arn
            &&& after.microvm_id == before.microvm_id
            &&& after.endpoint == before.endpoint
            &&& *version is Some ==> after.image_version == opt_text(*version)
            &&& *version is None ==> after.image_version == before.image_version
        }),
{
}

/// A build context is uploaded under the name of its capsule, and different names have
/// different addresses.
pub proof fn law_contexts_have_addresses(
    bucket: &str,
    name: &str,
    key: String,
    k: &str,
    uri: String,
    other: &str,
    other_key: String,
)
    requires
        call_ensures(context_key, (name,), key),
        k@ == key@,
        call_ensures(artifact_uri, (bucket, k), uri),
        call_ensures(context_key, (other,), other_key),
    ensures
        uri@ == "s3://"@ + bucket@ + "/contexts/"@ + name@ + ".zip"@,
        other@ != name@ ==> other_key@ != key@,
{
    reveal_strlit("contexts/");
    reveal_strlit("/contexts/");
    reveal_strlit("/");
    reveal_strlit("s3://");
    reveal_strlit(".zip");
    assert("/contexts/"@ =~= "/"@ + "contexts/"@);
    assert(uri@ =~= "s3://"@ + bucket@ + "/contexts/"@ + name@ + ".zip"@);
    assert(key@.subrange(9, key@.len() - 4) =~= name@);
    assert(other_key@.subrange(9, other_key@.len() - 4) =~= other@);
}

} // verus!
