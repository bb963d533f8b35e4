//! The registry of screen cast sessions.
//!
//! A session is created, selects its sources once, and is started once.

use vstd::prelude::*;
use vstd::string::*;

use crate::schema::WindowId;
use crate::textmap::TextMap;

verus! {

/// The source a session is armed with. A window is cropped from the output
/// frame by the compositor.
#[derive(Debug, Clone, Copy, PartialEq, Eq, Structural)]
pub enum CastSource {
    Monitor,
    Window(WindowId),
}

/// State of one screen cast session.
pub struct CastSession {
    pub app_id: String,
    pub sources_selected: bool,
    /// The armed source; meaningful once `sources_selected` holds.
    pub source: CastSource,
    /// The restore token that a start reports, if the session has one.
    pub restore_token: Option<String>,
    /// The cast of this session was started.
    pub started: bool,
}

/// What a session holds.
pub struct SessionContent {
    pub app_id: Seq<char>,
    pub sources_selected: bool,
    pub source: CastSource,
    pub restore_token: Option<Seq<char>>,
    pub started: bool,
}

impl View for CastSession {
    type V = SessionContent;

    open spec fn view(&self) -> SessionContent {
        SessionContent {
            app_id: self.app_id@,
            sources_selected: self.sources_selected,
            source: self.source,
            restore_token: crate::options::opt_text(self.restore_token),
            started: self.started,
        }
    }
}

/// A session that was just created.
pub open spec fn fresh_session(app_id: Seq<char>) -> SessionContent {
    SessionContent {
        app_id,
        sources_selected: false,
        source: CastSource::Monitor,
        restore_token: None,
        started: false,
    }
}

/// Live sessions by object path.
pub struct SessionRegistry {
    sessions: TextMap<CastSession>,
}

impl View for SessionRegistry {
    type V = Map<Seq<char>, SessionContent>;

    closed spec fn view(&self) -> Map<Seq<char>, SessionContent> {
        self.sessions@.map_values(|s: CastSession| s@)
    }
}

impl Default for SessionRegistry {
    fn default() -> (registry: Self)
        ensures
            registry@ == Map::<Seq<char>, SessionContent>::empty(),
    {
        let registry = SessionRegistry { sessions: TextMap::new() };
        assert(registry@ =~= Map::<Seq<char>, SessionContent>::empty());
        registry
    }
}

/// `"session "`, the path, and what is wrong with it.
pub open spec fn session_problem(path: Seq<char>, what: Seq<char>) -> Seq<char> {
    "session "@ + path + what
}

fn session_error(path: &str, what: &str) -> (m: String)
    ensures
        m@ == session_problem(path@, what@),
{
    let mut m = "session ".to_owned();
    m.append(path);
    m.append(what);
    m
}

fn unknown_session(path: &str) -> (m: String)
    ensures
        m@ == "unknown session "@ + path@,
{
    let mut m = "unknown session ".to_owned();
    m.append(path);
    m
}

/// Why sources cannot be selected for a session, if they cannot.
pub open spec fn select_problem(
    sessions: Map<Seq<char>, SessionContent>,
    path: Seq<char>,
) -> Option<Seq<char>> {
    if !sessions.dom().contains(path) {
        Some("unknown session "@ + path)
    } else if sessions[path].sources_selected {
        Some(session_problem(path, " already selected sources"@))
    } else {
        None
    }
}

/// Why a session cannot be started, if it cannot.
pub open spec fn start_problem(
    sessions: Map<Seq<char>, SessionContent>,
    path: Seq<char>,
) -> Option<Seq<char>> {
    if !sessions.dom().contains(path) {
        Some("unknown session "@ + path)
    } else if !sessions[path].sources_selected {
        Some(session_problem(path, " has not selected sources"@))
    } else if sessions[path].started {
        Some(session_problem(path, " already started"@))
    } else {
        None
    }
}

/// The sessions after one selected its sources.
pub open spec fn selected(
    sessions: Map<Seq<char>, SessionContent>,
    path: Seq<char>,
    restore_token: Option<Seq<char>>,
    source: CastSource,
) -> Map<Seq<char>, SessionContent> {
    sessions.insert(
        path,
        SessionContent { sources_selected: true, source, restore_token, ..sessions[path] },
    )
}

/// The sessions after one was started.
pub open spec fn started(
    sessions: Map<Seq<char>, SessionContent>,
    path: Seq<char>,
) -> Map<Seq<char>, SessionContent> {
    if sessions.dom().contains(path) {
        sessions.insert(path, SessionContent { started: true, ..sessions[path] })
    } else {
        sessions
    }
}

impl SessionRegistry {
    /// Registers a fresh session. A path that is taken is refused, so one
    /// client cannot shadow another application's session.
    pub fn insert(&mut self, path: &str, app_id: String) -> (r: Result<(), String>)
        ensures
            match r {
                Ok(_) => !old(self)@.dom().contains(path@) && final(self)@ == old(self)@.insert(
                    path@,
                    fresh_session(app_id@),
                ),
                Err(m) => old(self)@.dom().contains(path@) && final(self)@ == old(self)@ && m@
                    == session_problem(path@, " already exists"@),
            },
    {
        if self.sessions.contains(path) {
            return Err(session_error(path, " already exists"));
        }
        self.sessions.insert(
            path,
            CastSession {
                app_id,
                sources_selected: false,
                source: CastSource::Monitor,
                restore_token: None,
                started: false,
            },
        );
        assert(self@ =~= old(self)@.insert(path@, fresh_session(app_id@)));
        Ok(())
    }

    /// A session is registered at this path.
    pub fn contains(&self, path: &str) -> (yes: bool)
        ensures
            yes == self@.dom().contains(path@),
    {
        self.sessions.contains(path)
    }

    /// Arms a session with its source, once.
    pub fn mark_sources_selected(
        &mut self,
        path: &str,
        restore_token: Option<String>,
        source: CastSource,
    ) -> (r: Result<(), String>)
        ensures
            match r {
                Ok(_) => select_problem(old(self)@, path@) is None && final(self)@ == selected(
                    old(self)@,
                    path@,
                    crate::options::opt_text(restore_token),
                    source,
                ),
                Err(m) => select_problem(old(self)@, path@) == Some(m@) && final(self)@
                    == old(self)@,
            },
    {
        let ghost before = self@;
        match self.sessions.get(path) {
            None => {
                return Err(unknown_session(path));
            },
            Some(session) => {
                if session.sources_selected {
                    return Err(session_error(path, " already selected sources"));
                }
            },
        }
        if let Some(session) = self.sessions.remove(path) {
            let ghost token = crate::options::opt_text(restore_token);
            let armed = CastSession { sources_selected: true, source, restore_token, ..session };
            self.sessions.insert(path, armed);
            assert(self@ =~= selected(before, path@, token, source));
        }
        Ok(())
    }

    /// The source that a start must cast.
    pub fn source(&self, path: &str) -> (source: Option<CastSource>)
        ensures
            source == (if self@.dom().contains(path@) {
                Some(self@[path@].source)
            } else {
                None
            }),
    {
        match self.sessions.get(path) {
            Some(session) => Some(session.source),
            None => None,
        }
    }

    /// The restore token that a start must report, if the session has one.
    pub fn restore_token(&self, path: &str) -> (token: Option<String>)
        ensures
            crate::options::opt_text(token) == (if self@.dom().contains(path@) {
                self@[path@].restore_token
            } else {
                None
            }),
    {
        match self.sessions.get(path) {
            Some(session) => match &session.restore_token {
                Some(token) => Some(token.clone()),
                None => None,
            },
            None => None,
        }
    }

    /// Whether a start may proceed for this session.
    pub fn can_start(&self, path: &str) -> (r: Result<(), String>)
        ensures
            match r {
                Ok(_) => start_problem(self@, path@) is None,
                Err(m) => start_problem(self@, path@) == Some(m@),
            },
    {
        match self.sessions.get(path) {
            None => Err(unknown_session(path)),
            Some(session) => {
                if !session.sources_selected {
                    Err(session_error(path, " has not selected sources"))
                } else if session.started {
                    Err(session_error(path, " already started"))
                } else {
                    Ok(())
                }
            },
        }
    }

    /// The source that a start must cast, or why it may not proceed.
    pub fn source_for_start(&self, path: &str) -> (r: Result<CastSource, String>)
        ensures
            match r {
                Ok(source) => start_problem(self@, path@) is None && source == self@[path@].source,
                Err(m) => start_problem(self@, path@) == Some(m@),
            },
    {
        self.can_start(path)?;
        match self.source(path) {
            Some(source) => Ok(source),
            None => Err(unknown_session(path)),
        }
    }

    /// Notes that the cast of a session was started.
    pub fn mark_started(&mut self, path: &str)
        ensures
            final(self)@ == started(old(self)@, path@),
    {
        let ghost before = self@;
        if let Some(session) = self.sessions.remove(path) {
            let running = CastSession { started: true, ..session };
            self.sessions.insert(path, running);
            assert(self@ =~= started(before, path@));
        } else {
            assert(self@ =~= before);
        }
    }

    /// Removes a session.
    pub fn remove(&mut self, path: &str) -> (session: Option<CastSession>)
        ensures
            final(self)@ == old(self)@.remove(path@),
            match session {
                Some(session) => old(self)@.dom().contains(path@) && session@ == old(self)@[path@],
                None => !old(self)@.dom().contains(path@),
            },
    {
        let session = self.sessions.remove(path);
        assert(self@ =~= old(self)@.remove(path@));
        session
    }
}

/// A start requires selected sources, and a session is started only once: a
/// fresh session cannot be started, an armed one can, a started one cannot
/// be started or armed again, and a removed one is unknown.
pub proof fn sessions_are_single_use(
    sessions: Map<Seq<char>, SessionContent>,
    path: Seq<char>,
    app_id: Seq<char>,
    restore_token: Option<Seq<char>>,
    source: CastSource,
)
    requires
        !sessions.dom().contains(path),
    ensures
        ({
            let created = sessions.insert(path, fresh_session(app_id));
            let armed = selected(created, path, restore_token, source);
            let running = started(armed, path);
            &&& start_problem(created, path) == Some(
                session_problem(path, " has not selected sources"@),
            )
            &&& select_problem(created, path) is None
            &&& start_problem(armed, path) is None
            &&& select_problem(armed, path) == Some(
                session_problem(path, " already selected sources"@),
            )
            &&& start_problem(running, path) == Some(session_problem(path, " already started"@))
            &&& select_problem(running, path) is Some
            &&& running.remove(path) == sessions
        }),
{
    let created = sessions.insert(path, fresh_session(app_id));
    let armed = selected(created, path, restore_token, source);
    let running = started(armed, path);
    assert(running.remove(path) =~= sessions);
}

} // verus!
