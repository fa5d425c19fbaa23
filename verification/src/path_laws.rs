//! Where files go, stated over the directories and times that are given.

use crate::paths::{file_name, join_path, joined, photo_path, pictures_dir, recording_path, videos_dir, xdg_dir, PICTURES_VAR, VIDEOS_VAR};
use crate::text::decimal;
use vstd::prelude::*;

verus! {

/// Whether a path is a name below a directory: the directory, one slash where it does not end in
/// one, and the name.
pub open spec fn is_below(path: Seq<char>, dir: Seq<char>, name: Seq<char>) -> bool {
    &&& path.len() == dir.len() + name.len() + if dir.len() == 0 || dir.last() == '/' {
        0int
    } else {
        1
    }
    &&& forall|i: int| 0 <= i < dir.len() ==> #[trigger] path[i] == dir[i]
    &&& dir.len() > 0 ==> path[path.len() - name.len() - 1] == '/'
    &&& forall|i: int|
        0 <= i < name.len() ==> #[trigger] name[i] == path[path.len() - name.len() + i]
}

proof fn lemma_joined(dir: Seq<char>, name: Seq<char>)
    requires
        name.len() == 0 || name[0] != '/',
    ensures
        is_below(joined(dir, name), dir, name),
{
    reveal_strlit("/");
}

/// A relative path is put below the other with one slash between; an absolute one stands for
/// itself.
pub proof fn paths_are_joined_by_one_slash(base: &str, sub: &str, res: String)
    requires
        call_ensures(join_path, (base, sub), res),
    ensures
        sub@.len() > 0 && sub@[0] == '/' ==> res@ == sub@,
        sub@.len() == 0 || sub@[0] != '/' ==> is_below(res@, base@, sub@),
{
    if sub@.len() == 0 || sub@[0] != '/' {
        lemma_joined(base@, sub@);
    }
}

/// A configured directory is used as it is, whatever the home directory; only without one is the
/// directory one below the home directory.
pub proof fn configured_directories_come_first(
    configured: Option<String>,
    home: Option<String>,
    fallback: &str,
    res: String,
)
    requires
        call_ensures(xdg_dir, (configured, home, fallback), res),
        fallback@.len() > 0,
        fallback@[0] != '/',
    ensures
        configured matches Some(dir) ==> res@ == dir@,
        configured is None && home is Some ==> is_below(res@, home->0@, fallback@),
{
    if configured is None && home is Some {
        lemma_joined(home->0@, fallback@);
    }
}

/// Photos go to the configured directory, else to `Pictures` below the home directory.
pub proof fn photos_go_to_pictures(configured: Option<String>, home: Option<String>, res: String)
    requires
        call_ensures(pictures_dir, (configured, home), res),
    ensures
        configured matches Some(dir) ==> res@ == dir@,
        configured is None && home is Some ==> is_below(res@, home->0@, "Pictures"@),
{
    reveal_strlit("Pictures");
    if configured is None && home is Some {
        lemma_joined(home->0@, "Pictures"@);
    }
}

/// Recordings go to the configured directory, else to `Videos` below the home directory.
pub proof fn recordings_go_to_videos(configured: Option<String>, home: Option<String>, res: String)
    requires
        call_ensures(videos_dir, (configured, home), res),
    ensures
        configured matches Some(dir) ==> res@ == dir@,
        configured is None && home is Some ==> is_below(res@, home->0@, "Videos"@),
{
    reveal_strlit("Videos");
    if configured is None && home is Some {
        lemma_joined(home->0@, "Videos"@);
    }
}

/// A directory can be asked for wherever one is configured or the home directory is known.
pub proof fn known_directories_can_be_asked_for(
    configured: Option<String>,
    home: Option<String>,
    fallback: &str,
)
    requires
        configured is Some || home is Some,
    ensures
        call_requires(xdg_dir, (configured, home, fallback)),
        call_requires(pictures_dir, (configured, home)),
        call_requires(videos_dir, (configured, home)),
{
}

/// The directories are configured by the variables for user directories.
pub proof fn user_directories_are_configured_by_name()
    ensures
        PICTURES_VAR@ == "XDG_PICTURES_DIR"@,
        VIDEOS_VAR@ == "XDG_VIDEOS_DIR"@,
{
}

proof fn lemma_file_name(secs: u64, extension: Seq<char>)
    ensures
        file_name(secs, extension)[0] != '/',
        file_name(secs, extension).len() > 0,
{
    reveal_strlit("cosmic-camera-");
}

/// A photo is a `.jpg` file in its directory, named by its time in seconds.
pub proof fn photos_are_named_by_time(dir: &str, secs: u64, res: String)
    requires
        call_ensures(photo_path, (dir, secs), res),
    ensures
        is_below(res@, dir@, "cosmic-camera-"@ + decimal(secs as nat) + ".jpg"@),
{
    lemma_file_name(secs, ".jpg"@);
    lemma_joined(dir@, file_name(secs, ".jpg"@));
}

/// A recording is a `.webm` file in its directory, named by its time in seconds.
pub proof fn recordings_are_named_by_time(dir: &str, secs: u64, res: String)
    requires
        call_ensures(recording_path, (dir, secs), res),
    ensures
        is_below(res@, dir@, "cosmic-camera-"@ + decimal(secs as nat) + ".webm"@),
{
    lemma_file_name(secs, ".webm"@);
    lemma_joined(dir@, file_name(secs, ".webm"@));
}

} // verus!
