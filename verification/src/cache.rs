//! Where the cache lives: below the user's data directory there is one
//! directory per session, holding the thumbnails and the previews of that
//! session's images.

use vstd::prelude::*;
use crate::error::{ErrorView, GlimpseError};
use crate::text::{join_path, joined};

verus! {

/// The user's data directory, as the platform reports it.
///
/// Trusted: calls `dirs::data_dir`, whose answer depends on the platform and
/// on the environment of the process. Nothing is claimed of the result.
#[verifier::external_body]
fn data_dir() -> Option<String> {
    match dirs::data_dir() {
        Some(path) => Some(path.to_string_lossy().into_owned()),
        None => None,
    }
}

/// Text of the error for a platform that reports no data directory.
pub open spec fn no_data_dir() -> Seq<char> {
    "Cannot find data directory"@
}

/// The directory that holds the caches of all sessions.
pub open spec fn cache_root(data_dir: Seq<char>) -> Seq<char> {
    joined(joined(data_dir, "Glimpse"@), "cache"@)
}

/// The directory that holds the thumbnails of a session.
pub open spec fn thumbnails_dir(data_dir: Seq<char>, session_id: Seq<char>) -> Seq<char> {
    joined(joined(cache_root(data_dir), session_id), "thumbnails"@)
}

/// The directory that holds the previews of a session.
pub open spec fn previews_dir(data_dir: Seq<char>, session_id: Seq<char>) -> Seq<char> {
    joined(joined(cache_root(data_dir), session_id), "previews"@)
}

/// The directory that holds the caches of all sessions, below `data_dir`.
pub fn cache_root_in(data_dir: &str) -> (dir: String)
    ensures
        dir@ == cache_root(data_dir@),
{
    let app = join_path(data_dir, "Glimpse");
    join_path(app.as_str(), "cache")
}

fn session_dir_in(data_dir: &str, session_id: &str, leaf: &str) -> (dir: String)
    ensures
        dir@ == joined(joined(cache_root(data_dir@), session_id@), leaf@),
{
    let root = cache_root_in(data_dir);
    let session = join_path(root.as_str(), session_id);
    join_path(session.as_str(), leaf)
}

/// The thumbnail directory of a session, given the user's data directory.
/// Without a data directory there is no cache.
pub fn cache_dir_in(data_dir: &Option<String>, session_id: &str) -> (res: Result<
    String,
    GlimpseError,
>)
    ensures
        match *data_dir {
            Some(d) => res matches Ok(dir) && dir@ == thumbnails_dir(d@, session_id@),
            None => res matches Err(e) && e@ == ErrorView::InvalidPath(no_data_dir()),
        },
{
    match data_dir {
        Some(d) => Ok(session_dir_in(d.as_str(), session_id, "thumbnails")),
        None => Err(GlimpseError::InvalidPath(String::from_str("Cannot find data directory"))),
    }
}

/// The preview directory of a session, given the user's data directory.
pub fn preview_dir_in(data_dir: &Option<String>, session_id: &str) -> (res: Result<
    String,
    GlimpseError,
>)
    ensures
        match *data_dir {
            Some(d) => res matches Ok(dir) && dir@ == previews_dir(d@, session_id@),
            None => res matches Err(e) && e@ == ErrorView::InvalidPath(no_data_dir()),
        },
{
    match data_dir {
        Some(d) => Ok(session_dir_in(d.as_str(), session_id, "previews")),
        None => Err(GlimpseError::InvalidPath(String::from_str("Cannot find data directory"))),
    }
}

/// The thumbnail directory of a session on this machine. Fails only when the
/// platform reports no data directory. The directory is not created.
pub fn get_cache_dir(session_id: &str) -> (res: Result<String, GlimpseError>)
    ensures
        match res {
            Ok(dir) => exists|d: Seq<char>| dir@ == #[trigger] thumbnails_dir(d, session_id@),
            Err(e) => e@ == ErrorView::InvalidPath(no_data_dir()),
        },
{
    let base = data_dir();
    cache_dir_in(&base, session_id)
}

/// The preview directory of a session on this machine. Fails only when the
/// platform reports no data directory. The directory is not created.
pub fn get_preview_dir(session_id: &str) -> (res: Result<String, GlimpseError>)
    ensures
        match res {
            Ok(dir) => exists|d: Seq<char>| dir@ == #[trigger] previews_dir(d, session_id@),
            Err(e) => e@ == ErrorView::InvalidPath(no_data_dir()),
        },
{
    let base = data_dir();
    preview_dir_in(&base, session_id)
}

/// The directory that holds the caches of all sessions, given the user's
/// data directory: without a data directory there is none.
pub fn cache_root_of(data_dir: &Option<String>) -> (res: Option<String>)
    ensures
        match *data_dir {
            Some(d) => res matches Some(dir) && dir@ == cache_root(d@),
            None => res is None,
        },
{
    match data_dir {
        Some(d) => Some(cache_root_in(d.as_str())),
        None => None,
    }
}

/// The directory that holds the caches of all sessions on this machine, if
/// the platform reports a data directory.
pub fn get_cache_root() -> (res: Option<String>)
    ensures
        res matches Some(dir) ==> exists|d: Seq<char>| dir@ == #[trigger] cache_root(d),
{
    let base = data_dir();
    cache_root_of(&base)
}

} // verus!
