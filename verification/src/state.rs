//! Where the portal keeps its state and its captures.

use vstd::prelude::*;
use vstd::string::*;

use crate::paths::join;
use crate::text::decimal_text;

verus! {

/// A path that an environment variable gives, if it gives one.
pub open spec fn given(value: Option<&[u8]>) -> Option<Seq<u8>> {
    match value {
        Some(value) => if value@.len() == 0 {
            None
        } else {
            Some(value@)
        },
        None => None,
    }
}

/// The encoding of a fixed name.
pub open spec fn name_bytes(name: Seq<char>) -> Seq<u8> {
    vstd::utf8::encode_utf8(name)
}

/// The view of an optional path.
pub open spec fn path_view(path: Option<Vec<u8>>) -> Option<Seq<u8>> {
    match path {
        Some(path) => Some(path@),
        None => None,
    }
}

/// A directory below the first base that is given.
pub open spec fn below(base: Option<Seq<u8>>, name: Seq<char>) -> Option<Seq<u8>> {
    match base {
        Some(base) => Some(crate::paths::joined(base, name_bytes(name))),
        None => None,
    }
}

/// The first of two that is given.
pub open spec fn first_given(a: Option<Seq<u8>>, b: Option<Seq<u8>>) -> Option<Seq<u8>> {
    match a {
        Some(_) => a,
        None => b,
    }
}

fn non_empty(value: Option<&[u8]>) -> (r: Option<&[u8]>)
    ensures
        match r {
            Some(r) => given(value) == Some(r@),
            None => given(value) is None,
        },
{
    match value {
        Some(value) => if value.len() == 0 {
            None
        } else {
            Some(value)
        },
        None => None,
    }
}

/// The state directory: below the data directory, else below
/// `.local/share` of the home directory, else none, and then decisions are
/// not kept across restarts.
pub fn state_dir_from(data: Option<&[u8]>, home: Option<&[u8]>) -> (dir: Option<Vec<u8>>)
    ensures
        path_view(dir) == below(
            first_given(given(data), below(below(given(home), ".local"@), "share"@)),
            "aegis-portal"@,
        ),
{
    if let Some(data) = non_empty(data) {
        return Some(join(data, "aegis-portal".as_bytes()));
    }
    match non_empty(home) {
        Some(home) => {
            let local = join(home, ".local".as_bytes());
            let share = join(local.as_slice(), "share".as_bytes());
            Some(join(share.as_slice(), "aegis-portal".as_bytes()))
        },
        None => None,
    }
}

/// The capture directory: below the cache directory, else below the runtime
/// directory, else none.
pub fn cache_dir_from(cache: Option<&[u8]>, runtime: Option<&[u8]>) -> (dir: Option<Vec<u8>>)
    ensures
        path_view(dir) == below(first_given(given(cache), given(runtime)), "aegis-portal"@),
{
    if let Some(cache) = non_empty(cache) {
        return Some(join(cache, "aegis-portal".as_bytes()));
    }
    match non_empty(runtime) {
        Some(runtime) => Some(join(runtime, "aegis-portal".as_bytes())),
        None => None,
    }
}

/// The directory of entries that start with the session: below the
/// configuration directory, else below `.config` of the home directory.
pub fn autostart_dir_from(config: Option<&[u8]>, home: Option<&[u8]>) -> (dir: Option<Vec<u8>>)
    ensures
        path_view(dir) == below(
            first_given(given(config), below(given(home), ".config"@)),
            "autostart"@,
        ),
{
    if let Some(config) = non_empty(config) {
        return Some(join(config, "autostart".as_bytes()));
    }
    match non_empty(home) {
        Some(home) => {
            let base = join(home, ".config".as_bytes());
            Some(join(base.as_slice(), "autostart".as_bytes()))
        },
        None => None,
    }
}

/// The name of the file that is written first and renamed when it is
/// complete, so that no reader sees a part of it.
pub open spec fn temporary_of(name: Seq<char>, process: nat) -> Seq<char> {
    "."@ + name + "."@ + crate::text::decimal(process) + ".tmp"@
}

/// The name under which a file is written before it is renamed.
pub fn temporary_name(name: &str, process: u32) -> (temporary: String)
    ensures
        temporary@ == temporary_of(name@, process as nat),
{
    let mut temporary = ".".to_owned();
    temporary.append(name);
    temporary.append(".");
    temporary.append(decimal_text(process as u64).as_str());
    temporary.append(".tmp");
    temporary
}

/// A temporary file never has the name of the file that it becomes.
pub proof fn temporary_is_another_file(name: Seq<char>, process: nat)
    ensures
        temporary_of(name, process) != name,
{
    reveal_strlit(".");
    reveal_strlit(".tmp");
    assert(temporary_of(name, process).len() > name.len());
}

} // verus!
