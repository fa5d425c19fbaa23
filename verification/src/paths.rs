//! Where photos and recordings are kept, and what their files are called.

use crate::text::{append_decimal, decimal, decimal_injective, starts_with};
use vstd::prelude::*;
use vstd::string::{StrSliceExecFns, StringExecFns};

verus! {

/// The environment variable that names the directory for pictures.
pub const PICTURES_VAR: &'static str = "XDG_PICTURES_DIR";

/// The environment variable that names the directory for videos.
pub const VIDEOS_VAR: &'static str = "XDG_VIDEOS_DIR";

/// A path below another one; an absolute path stands for itself.
pub open spec fn joined(base: Seq<char>, sub: Seq<char>) -> Seq<char> {
    if sub.len() > 0 && sub[0] == '/' {
        sub
    } else if base.len() == 0 || base.last() == '/' {
        base + sub
    } else {
        base + "/"@ + sub
    }
}

/// Joins two paths.
pub fn join_path(base: &str, sub: &str) -> (res: String)
    ensures
        res@ == joined(base@, sub@),
{
    proof {
        reveal_strlit("/");
    }
    if starts_with(sub, "/") {
        assert(sub@[0] == sub@.subrange(0, 1)[0]);
        return sub.to_owned();
    }
    assert(!(sub@.len() > 0 && sub@[0] == '/')) by {
        if sub@.len() > 0 && sub@[0] == '/' {
            assert("/"@ =~= sub@.subrange(0, 1));
        }
    }
    let mut out: String = base.to_owned();
    let len: usize = base.unicode_len();
    if len > 0 && base.get_char(len - 1) != '/' {
        out.append("/");
    }
    out.append(sub);
    out
}

/// A user directory: the one that is configured, else a directory below the home directory.
pub open spec fn user_dir(
    configured: Option<String>,
    home: Option<String>,
    fallback: Seq<char>,
) -> Seq<char> {
    match configured {
        Some(dir) => dir@,
        None => joined(home->0@, fallback),
    }
}

/// The directory that an environment variable names, else a directory below the home directory.
/// The home directory has to be known where nothing is configured.
pub fn xdg_dir(configured: Option<String>, home: Option<String>, fallback_subdir: &str) -> (res:
    String)
    requires
        configured is Some || home is Some,
    ensures
        res@ == user_dir(configured, home, fallback_subdir@),
{
    match configured {
        Some(dir) => dir,
        None => join_path(home.unwrap().as_str(), fallback_subdir),
    }
}

/// The directory for photos.
pub fn pictures_dir(configured: Option<String>, home: Option<String>) -> (res: String)
    requires
        configured is Some || home is Some,
    ensures
        res@ == user_dir(configured, home, "Pictures"@),
{
    xdg_dir(configured, home, "Pictures")
}

/// The directory for recordings.
pub fn videos_dir(configured: Option<String>, home: Option<String>) -> (res: String)
    requires
        configured is Some || home is Some,
    ensures
        res@ == user_dir(configured, home, "Videos"@),
{
    xdg_dir(configured, home, "Videos")
}

/// The name of a file made at a time, in seconds since the epoch.
pub open spec fn file_name(secs: u64, extension: Seq<char>) -> Seq<char> {
    "cosmic-camera-"@ + decimal(secs as nat) + extension
}

/// The file for a photo taken at a time.
pub fn photo_path(dir: &str, secs: u64) -> (res: String)
    ensures
        res@ == joined(dir@, file_name(secs, ".jpg"@)),
{
    let mut name: String = "cosmic-camera-".to_owned();
    append_decimal(&mut name, secs);
    name.append(".jpg");
    join_path(dir, name.as_str())
}

/// The file for a recording started at a time.
pub fn recording_path(dir: &str, secs: u64) -> (res: String)
    ensures
        res@ == joined(dir@, file_name(secs, ".webm"@)),
{
    let mut name: String = "cosmic-camera-".to_owned();
    append_decimal(&mut name, secs);
    name.append(".webm");
    join_path(dir, name.as_str())
}

proof fn lemma_same_tail(head: Seq<char>, a: Seq<char>, b: Seq<char>)
    requires
        head + a == head + b,
    ensures
        a == b,
{
    assert(a =~= (head + a).skip(head.len() as int));
    assert(b =~= (head + b).skip(head.len() as int));
}

proof fn lemma_same_head(a: Seq<char>, b: Seq<char>, tail: Seq<char>)
    requires
        a + tail == b + tail,
    ensures
        a == b,
{
    assert((a + tail).len() == (b + tail).len());
    assert(a =~= (a + tail).take(a.len() as int));
    assert(b =~= (b + tail).take(b.len() as int));
}

/// Two names joined to one directory are equal only if the names are.
proof fn lemma_joined_injective(dir: Seq<char>, a: Seq<char>, b: Seq<char>)
    requires
        joined(dir, a) == joined(dir, b),
        a.len() > 0 && a[0] != '/',
        b.len() > 0 && b[0] != '/',
    ensures
        a == b,
{
    if dir.len() == 0 || dir.last() == '/' {
        lemma_same_tail(dir, a, b);
    } else {
        lemma_same_tail(dir + "/"@, a, b);
    }
}

proof fn lemma_file_name_start(secs: u64, extension: Seq<char>)
    ensures
        file_name(secs, extension).len() > 0,
        file_name(secs, extension)[0] == 'c',
{
    reveal_strlit("cosmic-camera-");
}

/// Photos, and recordings, that are made in different seconds go to different files.
pub proof fn files_of_different_times_differ(dir: Seq<char>, a: u64, b: u64, extension: Seq<char>)
    requires
        a != b,
    ensures
        joined(dir, file_name(a, extension)) != joined(dir, file_name(b, extension)),
{
    if joined(dir, file_name(a, extension)) == joined(dir, file_name(b, extension)) {
        lemma_file_name_start(a, extension);
        lemma_file_name_start(b, extension);
        lemma_joined_injective(dir, file_name(a, extension), file_name(b, extension));
        let prefix = "cosmic-camera-"@;
        lemma_same_head(prefix + decimal(a as nat), prefix + decimal(b as nat), extension);
        lemma_same_tail(prefix, decimal(a as nat), decimal(b as nat));
        decimal_injective(a as nat, b as nat);
    }
}

/// A photo and a recording never go to the same file, even if both directories are one.
pub proof fn photos_and_recordings_differ(dir: Seq<char>, a: u64, b: u64)
    ensures
        joined(dir, file_name(a, ".jpg"@)) != joined(dir, file_name(b, ".webm"@)),
{
    if joined(dir, file_name(a, ".jpg"@)) == joined(dir, file_name(b, ".webm"@)) {
        lemma_file_name_start(a, ".jpg"@);
        lemma_file_name_start(b, ".webm"@);
        lemma_joined_injective(dir, file_name(a, ".jpg"@), file_name(b, ".webm"@));
        reveal_strlit(".jpg");
        reveal_strlit(".webm");
        assert(file_name(a, ".jpg"@).last() == 'g');
        assert(file_name(b, ".webm"@).last() == 'm');
    }
}

} // verus!
