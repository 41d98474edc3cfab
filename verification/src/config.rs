//! Where the game finds its media and its server.
use vstd::prelude::*;

verus! {

/// Media comes from the remote storage bucket rather than from the site itself.
pub const REMOTE_MEDIA: bool = false;

/// The game talks to a server on this machine rather than to the deployed one.
pub const DEV_SERVER: bool = false;

/// Where media files live, with a trailing slash.
pub open spec fn media_base() -> Seq<char> {
    if REMOTE_MEDIA {
        "https://storage.googleapis.com/dakom-jigsaw-puzzle/media/"@
    } else {
        "media/"@
    }
}

/// The name of the puzzle that the game plays.
pub open spec fn puzzle_name() -> Seq<char> {
    "landscape"@
}

/// The address of the media file at `path`.
pub fn get_media_href(path: &str) -> (href: String)
    ensures
        href@ == media_base() + path@,
{
    let mut href = if REMOTE_MEDIA {
        String::from_str("https://storage.googleapis.com/dakom-jigsaw-puzzle/media/")
    } else {
        String::from_str("media/")
    };
    href.append(path);
    href
}

/// The address of the file at `path` among the files of the puzzle.
pub fn get_puzzle_href(path: &str) -> (href: String)
    ensures
        href@ == media_base() + "puzzle/"@ + puzzle_name() + "/"@ + path@,
{
    let mut puzzle_path = String::from_str("puzzle/");
    puzzle_path.append("landscape");
    puzzle_path.append("/");
    puzzle_path.append(path);
    let href = get_media_href(puzzle_path.as_str());
    assert(href@ =~= media_base() + "puzzle/"@ + puzzle_name() + "/"@ + path@);
    href
}

/// The address of the game's server.
pub fn websocket_url() -> (url: &'static str)
    ensures
        url@ == if DEV_SERVER {
            "ws://127.0.0.1:8787/socket"@
        } else {
            "wss://jigsaw-puzzle-worker.dakom.workers.dev/socket"@
        },
{
    if DEV_SERVER {
        "ws://127.0.0.1:8787/socket"
    } else {
        "wss://jigsaw-puzzle-worker.dakom.workers.dev/socket"
    }
}

} // verus!
