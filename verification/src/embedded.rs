//! The files that a capsule is built from.

use crate::text::{has_suffix, lower, texts};
use vstd::prelude::*;

verus! {

/// The files of the build context, relative to its directory.
pub open spec fn capsule_paths() -> Seq<Seq<char>> {
    seq![
        "Dockerfile"@,
        "app/.gitignore"@,
        "app/README.md"@,
        "index.html"@,
        "requirements.txt"@,
        "rootfs/opt/capsule/audio_ws.py"@,
        "rootfs/opt/capsule/focus.py"@,
        "rootfs/opt/capsule/input_ws.py"@,
        "rootfs/opt/capsule/run_app.sh"@,
        "rootfs/opt/capsule/start.sh"@,
        "rootfs/opt/capsule/video_ws.py"@,
    ]
}

/// The files of the build context. They are named one by one, so that a file that happens to
/// lie beside them never goes along.
pub fn capsule_files() -> (r: Vec<&'static str>)
    ensures
        texts(r@) == capsule_paths(),
{
    let r = vec![
        "Dockerfile",
        "app/.gitignore",
        "app/README.md",
        "index.html",
        "requirements.txt",
        "rootfs/opt/capsule/audio_ws.py",
        "rootfs/opt/capsule/focus.py",
        "rootfs/opt/capsule/input_ws.py",
        "rootfs/opt/capsule/run_app.sh",
        "rootfs/opt/capsule/start.sh",
        "rootfs/opt/capsule/video_ws.py",
    ];
    assert(texts(r@) =~= capsule_paths());
    r
}

/// No game data is among the files.
pub proof fn law_no_game_data()
    ensures
        forall|i: int|
            0 <= i < capsule_paths().len() ==> !has_suffix(
                lower(#[trigger] capsule_paths()[i]),
                ".wad"@,
            ),
{
    reveal_strlit(".wad");
    reveal_strlit("Dockerfile");
    reveal_strlit("app/.gitignore");
    reveal_strlit("app/README.md");
    reveal_strlit("index.html");
    reveal_strlit("requirements.txt");
    reveal_strlit("rootfs/opt/capsule/audio_ws.py");
    reveal_strlit("rootfs/opt/capsule/focus.py");
    reveal_strlit("rootfs/opt/capsule/input_ws.py");
    reveal_strlit("rootfs/opt/capsule/run_app.sh");
    reveal_strlit("rootfs/opt/capsule/start.sh");
    reveal_strlit("rootfs/opt/capsule/video_ws.py");
    assert forall|i: int| 0 <= i < capsule_paths().len() implies !has_suffix(
        lower(#[trigger] capsule_paths()[i]),
        ".wad"@,
    ) by {
        let p = lower(capsule_paths()[i]);
        if has_suffix(p, ".wad"@) {
            assert(p.skip(p.len() - 4)[2] == p[p.len() - 2]);
            assert(p[p.len() - 2] == 'a');
        }
    }
}

/// All that a capsule is built from is there, once: how the image is made and what it
/// installs, the page, the services for sound, video and input with what keeps them running,
/// and the place for a game of one's own.
pub proof fn law_capsule_is_complete()
    ensures
        capsule_paths().contains("Dockerfile"@),
        capsule_paths().contains("requirements.txt"@),
        capsule_paths().contains("index.html"@),
        capsule_paths().contains("rootfs/opt/capsule/audio_ws.py"@),
        capsule_paths().contains("rootfs/opt/capsule/video_ws.py"@),
        capsule_paths().contains("rootfs/opt/capsule/input_ws.py"@),
        capsule_paths().contains("rootfs/opt/capsule/focus.py"@),
        capsule_paths().contains("rootfs/opt/capsule/run_app.sh"@),
        capsule_paths().contains("rootfs/opt/capsule/start.sh"@),
        capsule_paths().contains("app/.gitignore"@),
        capsule_paths().contains("app/README.md"@),
        capsule_paths().len() == 11,
{
    let p = capsule_paths();
    assert(p[0] == "Dockerfile"@ && p[1] == "app/.gitignore"@ && p[2] == "app/README.md"@);
    assert(p[3] == "index.html"@ && p[4] == "requirements.txt"@);
    assert(p[5] == "rootfs/opt/capsule/audio_ws.py"@ && p[6] == "rootfs/opt/capsule/focus.py"@);
    assert(p[7] == "rootfs/opt/capsule/input_ws.py"@ && p[8] == "rootfs/opt/capsule/run_app.sh"@);
    assert(p[9] == "rootfs/opt/capsule/start.sh"@ && p[10] == "rootfs/opt/capsule/video_ws.py"@);
}

} // verus!
