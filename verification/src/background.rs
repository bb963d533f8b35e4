//! Permission to run in the background and to start with the session.
//!
//! Decisions are recorded by application, and a repeated request is answered
//! from the record.

use vstd::prelude::*;
use vstd::string::*;

use crate::location::split_dir_tail;
use crate::options::{get_bool, get_text, Options};
use crate::paths::join;
use crate::request::RequestTracker;
use crate::text::chars_of;
use crate::textmap::TextMap;

verus! {

/// The version of the interface.
pub const BACKGROUND_VERSION: u32 = 1;

/// The options of a background request.
pub struct BackgroundOptions {
    pub handle_token: Option<String>,
    pub background: bool,
    pub autostart: bool,
}

/// A token of a request handle: not empty, and made of ASCII letters, digits
/// and underscores.
pub open spec fn valid_token(token: Seq<char>) -> bool {
    token.len() > 0 && crate::files::plain_token(token)
}

/// The token, when it is a valid one.
pub open spec fn accepted_token(token: Option<Seq<char>>) -> Option<Seq<char>> {
    match token {
        Some(token) => if valid_token(token) {
            Some(token)
        } else {
            None
        },
        None => None,
    }
}

fn is_valid_token(token: &str) -> (yes: bool)
    ensures
        yes == valid_token(token@),
{
    let chars = chars_of(token);
    let mut i: usize = 0;
    while i < chars.len()
        invariant
            i <= chars@.len(),
            chars@ == token@,
            forall|k: int| 0 <= k < i ==> crate::files::token_char(#[trigger] token@[k]),
        decreases chars@.len() - i,
    {
        let c: char = chars[i];
        if !((c >= 'A' && c <= 'Z') || (c >= 'a' && c <= 'z') || (c >= '0' && c <= '9') || c
            == '_') {
            assert(!crate::files::token_char(token@[i as int]));
            return false;
        }
        i = i + 1;
    }
    chars.len() > 0
}

/// A flag that counts as unset when it is missing.
pub open spec fn flag(value: Option<bool>) -> bool {
    value == Some(true)
}

/// Reads the options of a background request. Unknown keys are ignored, as
/// is a token that is not valid.
pub fn parse_options(options: &Options) -> (parsed: BackgroundOptions)
    ensures
        parsed.background == flag(crate::options::bool_at(options@, "background"@)),
        parsed.autostart == flag(crate::options::bool_at(options@, "autostart"@)),
        crate::options::opt_text(parsed.handle_token) == accepted_token(
            crate::options::text_at(options@, "handle_token"@),
        ),
{
    let handle_token: Option<String> = match get_text(options, "handle_token") {
        Some(token) => if is_valid_token(token.as_str()) {
            Some(token)
        } else {
            None
        },
        None => None,
    };
    let background: bool = match get_bool(options, "background") {
        Some(value) => value,
        None => false,
    };
    let autostart: bool = match get_bool(options, "autostart") {
        Some(value) => value,
        None => false,
    };
    BackgroundOptions { handle_token, background, autostart }
}

/// The token of a request: the one that was given, or the last element of its
/// handle.
pub open spec fn token_for(handle: Seq<char>, token: Option<Seq<char>>) -> Seq<char> {
    match token {
        Some(token) => token,
        None => handle.skip(crate::location::tail_start(handle)),
    }
}

/// The token of a request.
pub fn job_token(handle: &str, token: Option<String>) -> (found: String)
    ensures
        found@ == token_for(handle@, crate::options::opt_text(token)),
{
    match token {
        Some(token) => token,
        None => split_dir_tail(handle).1,
    }
}

/// The element of a path that stands for a bus name: without the leading
/// colon, and with underscores for dots.
pub open spec fn sender_element(sender: Seq<char>) -> Seq<char> {
    let name = if sender.len() > 0 && sender[0] == ':' {
        sender.skip(1)
    } else {
        sender
    };
    name.map_values(
        |c: char|
            if c == '.' {
                '_'
            } else {
                c
            },
    )
}

/// The path of a request of this sender with this token.
pub open spec fn request_of(sender: Seq<char>, token: Seq<char>) -> Seq<char> {
    "/org/freedesktop/portal/desktop/request/"@ + sender_element(sender) + "/"@ + token
}

/// The path at which a request is served and answered. It depends on the
/// sender and the token alone.
pub fn job_path(sender: &str, token: &str) -> (path: String)
    ensures
        path@ == request_of(sender@, token@),
{
    let chars = chars_of(sender);
    let from: usize = if chars.len() > 0 && chars[0] == ':' {
        1
    } else {
        0
    };
    let mut path = "/org/freedesktop/portal/desktop/request/".to_owned();
    let ghost front = path@;
    let ghost element = sender_element(sender@);
    assert(element.len() == chars@.len() - from);
    let mut i: usize = from;
    assert(element.take(0) =~= Seq::<char>::empty());
    while i < chars.len()
        invariant
            from <= i <= chars@.len(),
            chars@ == sender@,
            element == sender_element(sender@),
            from == (if sender@.len() > 0 && sender@[0] == ':' {
                1int
            } else {
                0int
            }),
            element.len() == chars@.len() - from,
            path@ =~= front + element.take(i - from),
        decreases chars@.len() - i,
    {
        let c: char = if chars[i] == '.' {
            '_'
        } else {
            chars[i]
        };
        path.push(c);
        assert(element[i - from] == c);
        assert(element.take(i - from + 1) =~= element.take(i - from).push(c));
        i = i + 1;
    }
    assert(element.take(i - from) =~= element);
    path.append("/");
    path.append(token);
    path
}

/// A character of an application id.
pub open spec fn app_id_char(c: char) -> bool {
    ('A' <= c <= 'Z') || ('a' <= c <= 'z') || ('0' <= c <= '9') || c == '.' || c == '_' || c == '-'
}

/// An application id names a desktop file: between one and 255 ASCII
/// letters, digits, dots, underscores and hyphens.
pub open spec fn well_named(app_id: Seq<char>) -> bool {
    &&& 0 < app_id.len() <= 255
    &&& forall|i: int| 0 <= i < app_id.len() ==> app_id_char(#[trigger] app_id[i])
}

/// Checks an application id.
pub fn valid_app_id(app_id: &str) -> (yes: bool)
    ensures
        yes == well_named(app_id@),
{
    let chars = chars_of(app_id);
    if chars.len() == 0 || chars.len() > 255 {
        return false;
    }
    let mut i: usize = 0;
    while i < chars.len()
        invariant
            i <= chars@.len(),
            chars@ == app_id@,
            forall|k: int| 0 <= k < i ==> app_id_char(#[trigger] app_id@[k]),
        decreases chars@.len() - i,
    {
        let c: char = chars[i];
        if !((c >= 'A' && c <= 'Z') || (c >= 'a' && c <= 'z') || (c >= '0' && c <= '9') || c == '.'
            || c == '_' || c == '-') {
            assert(!app_id_char(app_id@[i as int]));
            return false;
        }
        i = i + 1;
    }
    true
}

/// The error for an application id that is not valid.
pub fn invalid_app_id(app_id: &str) -> (m: String)
    ensures
        m@ == "invalid app_id '"@ + app_id@ + "'"@,
{
    let mut m = "invalid app_id '".to_owned();
    m.append(app_id);
    m.append("'");
    m
}

/// A recorded decision.
#[derive(Debug, Clone, Copy, PartialEq, Eq, Structural)]
pub struct Decision {
    pub background: bool,
    pub autostart: bool,
}

/// The recorded decisions by application.
pub struct BackgroundStore {
    decisions: TextMap<Decision>,
}

impl View for BackgroundStore {
    type V = Map<Seq<char>, Decision>;

    closed spec fn view(&self) -> Map<Seq<char>, Decision> {
        self.decisions@
    }
}

/// The decision for an application, if one was recorded.
pub open spec fn recorded(decisions: Map<Seq<char>, Decision>, app_id: Seq<char>) -> Option<
    Decision,
> {
    if decisions.dom().contains(app_id) {
        Some(decisions[app_id])
    } else {
        None
    }
}

impl BackgroundStore {
    /// The store with the decisions of a state document, or an empty one
    /// when there is none.
    pub fn load(document: Option<TextMap<Decision>>) -> (store: Self)
        ensures
            store@ == (match document {
                Some(decisions) => decisions@,
                None => Map::empty(),
            }),
    {
        match document {
            Some(decisions) => BackgroundStore { decisions },
            None => BackgroundStore { decisions: TextMap::new() },
        }
    }

    /// The recorded decision for an application.
    pub fn decision(&self, app_id: &str) -> (decision: Option<Decision>)
        ensures
            decision == recorded(self@, app_id@),
    {
        match self.decisions.get(app_id) {
            Some(decision) => Some(*decision),
            None => None,
        }
    }

    /// Records a decision.
    pub fn set(&mut self, app_id: &str, decision: Decision)
        ensures
            final(self)@ == old(self)@.insert(app_id@, decision),
    {
        self.decisions.insert(app_id, decision);
    }

    /// The applications with a recorded decision, each once.
    pub fn apps(&self) -> (apps: Vec<String>)
        ensures
            forall|i: int, j: int|
                0 <= i < j < apps@.len() ==> (#[trigger] apps@[i])@ != (#[trigger] apps@[j])@,
            forall|i: int|
                0 <= i < apps@.len() ==> self@.dom().contains((#[trigger] apps@[i])@),
            forall|app: Seq<char>|
                #[trigger] self@.dom().contains(app) ==> exists|i: int|
                    0 <= i < apps@.len() && (#[trigger] apps@[i])@ == app,
    {
        self.decisions.keys()
    }
}

/// The file name of an application's desktop entry.
pub open spec fn entry_named(app_id: Seq<char>) -> Seq<char> {
    app_id + ".desktop"@
}

/// The file name of an application's desktop entry.
pub fn entry_name(app_id: &str) -> (name: String)
    ensures
        name@ == entry_named(app_id@),
{
    let mut name = app_id.to_owned();
    name.append(".desktop");
    name
}

/// The separator of a path list.
pub const COLON: u8 = 58;

/// The finished pieces, with the current one when it is not empty.
pub open spec fn with_piece(done: Seq<Seq<u8>>, current: Seq<u8>) -> Seq<Seq<u8>> {
    if current.len() == 0 {
        done
    } else {
        done.push(current)
    }
}

/// The finished pieces of a colon-separated list, and the current one.
pub open spec fn split(list: Seq<u8>) -> (Seq<Seq<u8>>, Seq<u8>)
    decreases list.len(),
{
    if list.len() == 0 {
        (Seq::empty(), Seq::empty())
    } else {
        let (done, current) = split(list.drop_last());
        if list.last() == COLON {
            (with_piece(done, current), Seq::empty())
        } else {
            (done, current.push(list.last()))
        }
    }
}

/// The pieces of a colon-separated list, empty ones left out.
pub open spec fn pieces(list: Seq<u8>) -> Seq<Seq<u8>> {
    with_piece(split(list).0, split(list).1)
}

/// The application directories of a list of data directories.
pub open spec fn application_dirs(dirs: Seq<Seq<u8>>) -> Seq<Seq<u8>> {
    dirs.map_values(
        |dir: Seq<u8>|
            crate::paths::joined(dir, crate::state::name_bytes("applications"@)),
    )
}

/// The application directory of the user, if there is one.
pub open spec fn user_dirs(data: Option<Seq<u8>>, home: Option<Seq<u8>>) -> Seq<Seq<u8>> {
    match data {
        Some(data) => seq![
            crate::paths::joined(data, crate::state::name_bytes("applications"@)),
        ],
        None => match home {
            Some(home) => seq![
                crate::paths::joined(
                    home,
                    crate::state::name_bytes(".local/share/applications"@),
                ),
            ],
            None => Seq::empty(),
        },
    }
}

/// A file in each of these directories.
pub open spec fn in_each(dirs: Seq<Seq<u8>>, name: Seq<u8>) -> Seq<Seq<u8>> {
    dirs.map_values(|dir: Seq<u8>| crate::paths::joined(dir, name))
}

/// The places where a desktop entry may be, in the order in which they are
/// searched.
pub open spec fn places(
    name: Seq<u8>,
    data: Option<Seq<u8>>,
    home: Option<Seq<u8>>,
    list: Seq<u8>,
) -> Seq<Seq<u8>> {
    in_each(user_dirs(data, home) + application_dirs(pieces(list)), name)
}

fn split_list(list: &[u8]) -> (dirs: Vec<Vec<u8>>)
    ensures
        crate::paths::path_views(dirs@) == pieces(list@),
{
    let mut done: Vec<Vec<u8>> = Vec::new();
    let mut current: Vec<u8> = Vec::new();
    let mut i: usize = 0;
    assert(list@.take(0) =~= Seq::<u8>::empty());
    assert(crate::paths::path_views(done@) =~= split(list@.take(0)).0);
    assert(current@ =~= split(list@.take(0)).1);
    while i < list.len()
        invariant
            i <= list@.len(),
            crate::paths::path_views(done@) == split(list@.take(i as int)).0,
            current@ == split(list@.take(i as int)).1,
        decreases list@.len() - i,
    {
        let b: u8 = list[i];
        assert(list@.take(i + 1).drop_last() =~= list@.take(i as int));
        assert(list@.take(i + 1).last() == b);
        if b == COLON {
            if current.len() > 0 {
                let ghost before = done@;
                let mut piece: Vec<u8> = Vec::new();
                std::mem::swap(&mut piece, &mut current);
                done.push(piece);
                assert(crate::paths::path_views(done@) =~= crate::paths::path_views(before).push(
                    piece@,
                ));
            }
        } else {
            current.push(b);
        }
        i = i + 1;
    }
    assert(list@.take(i as int) =~= list@);
    if current.len() > 0 {
        let ghost before = done@;
        let ghost last = current@;
        done.push(current);
        assert(crate::paths::path_views(done@) =~= crate::paths::path_views(before).push(last));
    }
    done
}

/// The data directories that are searched when none are configured.
pub const DEFAULT_DATA_DIRS: &'static str = "/usr/local/share:/usr/share";

/// The places where an application's desktop entry may be: the user's
/// application directory, then that of each data directory. The first file
/// that exists is the one.
pub fn desktop_file_candidates(
    app_id: &str,
    data: Option<&[u8]>,
    home: Option<&[u8]>,
    data_dirs: Option<&str>,
) -> (candidates: Vec<Vec<u8>>)
    ensures
        crate::paths::path_views(candidates@) == places(
            crate::state::name_bytes(entry_named(app_id@)),
            crate::state::given(data),
            crate::state::given(home),
            crate::state::name_bytes(
                match data_dirs {
                    Some(dirs) => dirs@,
                    None => DEFAULT_DATA_DIRS@,
                },
            ),
        ),
{
    let name = entry_name(app_id);
    let entry: &[u8] = name.as_str().as_bytes();
    let list: &[u8] = match data_dirs {
        Some(dirs) => dirs.as_bytes(),
        None => DEFAULT_DATA_DIRS.as_bytes(),
    };
    let mut candidates: Vec<Vec<u8>> = Vec::new();
    let ghost user = user_dirs(crate::state::given(data), crate::state::given(home));
    let has_data: bool = match data {
        Some(data) => data.len() > 0,
        None => false,
    };
    if has_data {
        if let Some(data) = data {
            let dir = join(data, "applications".as_bytes());
            candidates.push(join(dir.as_slice(), entry));
        }
    } else if let Some(home) = home {
        if home.len() > 0 {
            let dir = join(home, ".local/share/applications".as_bytes());
            candidates.push(join(dir.as_slice(), entry));
        }
    }
    assert(crate::paths::path_views(candidates@) =~= in_each(user, entry@));
    let dirs = split_list(list);
    let mut i: usize = 0;
    assert(application_dirs(pieces(list@)).take(0) =~= Seq::<Seq<u8>>::empty());
    assert(user + Seq::<Seq<u8>>::empty() =~= user);
    while i < dirs.len()
        invariant
            i <= dirs@.len(),
            crate::paths::path_views(dirs@) == pieces(list@),
            crate::paths::path_views(candidates@) == in_each(
                user + application_dirs(pieces(list@)).take(i as int),
                entry@,
            ),
        decreases dirs@.len() - i,
    {
        let ghost before = candidates@;
        let dir = join(dirs[i].as_slice(), "applications".as_bytes());
        let candidate = join(dir.as_slice(), entry);
        let ghost all = application_dirs(pieces(list@));
        assert(crate::paths::path_views(dirs@)[i as int] == dirs@[i as int]@);
        assert(all[i as int] == dir@);
        candidates.push(candidate);
        assert(crate::paths::path_views(candidates@) =~= crate::paths::path_views(before).push(
            candidate@,
        ));
        assert(user + all.take(i + 1) =~= (user + all.take(i as int)).push(dir@));
        assert(in_each(user + all.take(i + 1), entry@) =~= in_each(
            user + all.take(i as int),
            entry@,
        ).push(candidate@));
        i = i + 1;
    }
    assert(application_dirs(pieces(list@)).take(i as int) =~= application_dirs(pieces(list@)));
    candidates
}

// ---------------------------------------------------------------------------
// One request
// ---------------------------------------------------------------------------

/// The decision that answers a request: the recorded one, which wins over
/// what is asked now.
pub open spec fn answer(
    decisions: Map<Seq<char>, Decision>,
    app_id: Seq<char>,
    requested: Decision,
) -> Decision {
    match recorded(decisions, app_id) {
        Some(decision) => decision,
        None => requested,
    }
}

/// Begins a request: `None` when it was closed in the meantime.
pub fn begin_job(
    store: &BackgroundStore,
    tracker: &RequestTracker,
    request_path: &str,
    app_id: &str,
    requested: Decision,
) -> (decision: Option<Decision>)
    ensures
        decision == (if tracker@.contains(request_path@) {
            None
        } else {
            Some(answer(store@, app_id@, requested))
        }),
{
    if tracker.was_closed(request_path) {
        return None;
    }
    match store.decision(app_id) {
        Some(decision) => Some(decision),
        None => Some(requested),
    }
}

/// What to do about an entry that starts with the session.
#[derive(Debug, Clone, Copy, PartialEq, Eq, Structural)]
pub enum AutostartStep {
    /// Nothing; there is no entry.
    Nothing,
    /// Remove the entry, if there is one.
    Remove,
    /// Nothing; the entry is in place.
    Keep,
    /// Copy the application's desktop entry.
    Install,
}

/// What is to be done about an entry: an enabled one is copied from the
/// desktop entry unless it is in place, a disabled one is removed.
pub open spec fn autostart_step(enable: bool, has_dir: bool, has_source: bool, in_place: bool) ->
    AutostartStep {
    if !has_dir {
        AutostartStep::Nothing
    } else if !enable {
        AutostartStep::Remove
    } else if !has_source {
        AutostartStep::Nothing
    } else if in_place {
        AutostartStep::Keep
    } else {
        AutostartStep::Install
    }
}

/// What to do about an entry: an enabled one is copied from the desktop
/// entry unless it is in place, a disabled one is removed.
pub fn apply_autostart(enable: bool, has_dir: bool, has_source: bool, in_place: bool) -> (step:
    AutostartStep)
    ensures
        step == autostart_step(enable, has_dir, has_source, in_place),
{
    if !has_dir {
        AutostartStep::Nothing
    } else if !enable {
        AutostartStep::Remove
    } else if !has_source {
        AutostartStep::Nothing
    } else if in_place {
        AutostartStep::Keep
    } else {
        AutostartStep::Install
    }
}

/// Whether an entry counts as installed after a step, which was done or
/// failed.
pub fn autostart_installed(step: AutostartStep, done: bool) -> (installed: bool)
    ensures
        installed == (match step {
            AutostartStep::Keep | AutostartStep::Install => done,
            AutostartStep::Nothing | AutostartStep::Remove => false,
        }),
{
    match step {
        AutostartStep::Keep | AutostartStep::Install => done,
        AutostartStep::Nothing | AutostartStep::Remove => false,
    }
}

/// Whether the entry is there once a step is done.
pub open spec fn entry_after(step: AutostartStep, in_place: bool) -> bool {
    match step {
        AutostartStep::Nothing => in_place,
        AutostartStep::Remove => false,
        AutostartStep::Keep | AutostartStep::Install => true,
    }
}

/// Applying an autostart decision twice is the same as applying it once: the
/// entry is copied at most once, and is there or gone as after the first time.
pub proof fn autostart_is_idempotent(
    enable: bool,
    has_dir: bool,
    has_source: bool,
    in_place: bool,
)
    ensures
        ({
            let there = entry_after(
                autostart_step(enable, has_dir, has_source, in_place),
                in_place,
            );
            let again = autostart_step(enable, has_dir, has_source, there);
            again != AutostartStep::Install && entry_after(again, there) == there
        }),
{
}

/// The decision that is reported and recorded: an entry that is not in place
/// is not granted.
pub open spec fn granted(decision: Decision, installed: bool) -> Decision {
    Decision { background: decision.background, autostart: decision.autostart && installed }
}

/// Ends a request: the granted decision, and whether the record changed and
/// is to be written.
pub fn finish_job(
    store: &mut BackgroundStore,
    app_id: &str,
    decision: Decision,
    installed: bool,
) -> (r: (Decision, bool))
    ensures
        r.0 == granted(decision, installed),
        r.1 == (recorded(old(store)@, app_id@) != Some(granted(decision, installed))),
        final(store)@ == old(store)@.insert(app_id@, granted(decision, installed)),
{
    let result = Decision {
        background: decision.background,
        autostart: decision.autostart && installed,
    };
    let same: bool = match store.decision(app_id) {
        Some(known) => known == result,
        None => false,
    };
    if !same {
        store.set(app_id, result);
    }
    assert(store@ =~= old(store)@.insert(app_id@, result));
    (result, !same)
}

/// A recorded decision does not flip: whatever is asked later, the answer is
/// the decision that was granted first, and it stays so while the entry
/// stays in place.
pub proof fn decisions_do_not_flip(
    decisions: Map<Seq<char>, Decision>,
    app_id: Seq<char>,
    first: Decision,
    installed: bool,
    later: Decision,
)
    ensures
        ({
            let decision = granted(answer(decisions, app_id, first), installed);
            let after = decisions.insert(app_id, decision);
            &&& answer(after, app_id, later) == decision
            &&& granted(answer(after, app_id, later), true) == decision
        }),
{
}

/// A valid application id names a file of the directory it is joined to: it
/// holds no separator, and no path leads out of the directory.
pub proof fn entries_stay_in_their_directory(app_id: Seq<char>)
    requires
        well_named(app_id),
    ensures
        !entry_named(app_id).contains('/'),
        entry_named(app_id) != "."@,
        entry_named(app_id) != ".."@,
{
    reveal_strlit(".desktop");
    reveal_strlit(".");
    reveal_strlit("..");
    let name = entry_named(app_id);
    assert forall|i: int| 0 <= i < name.len() implies #[trigger] name[i] != '/' by {
        if i < app_id.len() {
            assert(name[i] == app_id[i]);
        } else {
            assert(name[i] == ".desktop"@[i - app_id.len()]);
        }
    }
    assert(name.len() > 2);
}

} // verus!
