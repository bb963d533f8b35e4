//! Screen cast sessions: what a client may ask for, and how a cast is
//! started.
//!
//! Sources are monitors and windows, one stream per session, with a hidden
//! cursor. A selection always runs the compositor's picker. Response codes
//! are 0 for success, 1 for cancelled, 2 for refused.

use vstd::prelude::*;
use vstd::string::*;

use crate::cast::CastStarted;
use crate::options::{get_u32, Options};
use crate::request::RequestTracker;
use crate::schema::{PickResult, Point, Size, WindowId};
use crate::session::{CastSource, SessionRegistry};
use crate::text::decimal_text;

verus! {

/// The version of the interface. It reports the source type of a stream;
/// persistence starts later and is not offered.
pub const SCREENCAST_VERSION: u32 = 3;

/// The source type of a monitor.
pub const SOURCE_TYPE_MONITOR: u32 = 1;

/// The source type of a window.
pub const SOURCE_TYPE_WINDOW: u32 = 2;

/// Every source type that is offered.
pub const SOURCE_TYPES: u32 = 3;

/// The cursor modes that are offered: hidden only.
pub const CURSOR_MODES: u32 = 1;

/// The longest wait for a cast to be negotiated, in seconds.
pub const START_TIMEOUT_SECS: u64 = 10;

/// The request succeeded.
pub const SUCCESS: u32 = 0;

/// The user or the client cancelled.
pub const CANCELLED: u32 = 1;

/// The request was refused or failed.
pub const REFUSED: u32 = 2;

/// The options of a source selection.
#[derive(Debug, Clone, Copy, PartialEq, Eq, Structural)]
pub struct SelectOptions {
    /// The source types that the client accepts, as a mask.
    pub source_types: u32,
    pub cursor_mode: u32,
}

/// A number, or what stands for it when it is missing.
pub open spec fn number_or(value: Option<u32>, default: u32) -> u32 {
    match value {
        Some(value) => value,
        None => default,
    }
}

/// Reads the options of a source selection. Unknown keys, and values of the
/// wrong type, are ignored; the defaults are a monitor and a hidden cursor.
pub fn parse_select_options(options: &Options) -> (parsed: SelectOptions)
    ensures
        parsed == (SelectOptions {
            source_types: number_or(
                crate::options::u32_at(options@, "types"@),
                SOURCE_TYPE_MONITOR,
            ),
            cursor_mode: number_or(crate::options::u32_at(options@, "cursor_mode"@), CURSOR_MODES),
        }),
{
    let source_types: u32 = match get_u32(options, "types") {
        Some(types) => types,
        None => SOURCE_TYPE_MONITOR,
    };
    let cursor_mode: u32 = match get_u32(options, "cursor_mode") {
        Some(mode) => mode,
        None => CURSOR_MODES,
    };
    SelectOptions { source_types, cursor_mode }
}

/// Why a source selection cannot be served, if it cannot.
pub open spec fn select_refusal(options: SelectOptions) -> Option<Seq<char>> {
    if !(1 <= options.source_types <= 3) {
        Some("only monitor and window sources are supported"@)
    } else if options.cursor_mode != CURSOR_MODES {
        Some(
            "cursor_mode "@ + crate::text::decimal(options.cursor_mode as nat)
                + " is not supported (Hidden only)"@,
        )
    } else {
        None
    }
}

/// Checks that a source selection can be served: some source type and no
/// unknown one, and a hidden cursor.
pub fn validate_select(options: &SelectOptions) -> (r: Result<(), String>)
    ensures
        match r {
            Ok(_) => select_refusal(*options) is None,
            Err(m) => select_refusal(*options) == Some(m@),
        },
{
    let types: u32 = options.source_types;
    let supported: u32 = SOURCE_TYPES;
    assert((types & !3u32 != 0) == (types > 3)) by (bit_vector);
    if types == 0 || types & !supported != 0 {
        return Err("only monitor and window sources are supported".to_owned());
    }
    if options.cursor_mode != CURSOR_MODES {
        let mut m = "cursor_mode ".to_owned();
        m.append(decimal_text(options.cursor_mode as u64).as_str());
        m.append(" is not supported (Hidden only)");
        return Err(m);
    }
    Ok(())
}

/// The error for a session that does not exist.
pub fn unknown_session(path: &str) -> (m: String)
    ensures
        m@ == "unknown session "@ + path@,
{
    let mut m = "unknown session ".to_owned();
    m.append(path);
    m
}

/// Registers a session, unless its request was closed in the meantime. The
/// result is the response code.
pub fn create_session(
    tracker: &RequestTracker,
    sessions: &mut SessionRegistry,
    request_path: &str,
    session_path: &str,
    app_id: &str,
) -> (code: u32)
    ensures
        if tracker@.contains(request_path@) {
            code == CANCELLED && final(sessions)@ == old(sessions)@
        } else if old(sessions)@.dom().contains(session_path@) {
            code == REFUSED && final(sessions)@ == old(sessions)@
        } else {
            code == SUCCESS && final(sessions)@ == old(sessions)@.insert(
                session_path@,
                crate::session::fresh_session(app_id@),
            )
        },
{
    if tracker.was_closed(request_path) {
        return CANCELLED;
    }
    match sessions.insert(session_path, app_id.to_owned()) {
        Ok(_) => SUCCESS,
        Err(_) => REFUSED,
    }
}

/// The source type is in the mask.
pub open spec fn accepts(source_types: u32, source_type: u32) -> bool {
    source_types & source_type != 0
}

/// The source that a pick chose, or the response code for one that chose
/// none: the picked kind must be one that the client accepts.
pub open spec fn picked(pick: Option<PickResult>, source_types: u32) -> Result<CastSource, u32> {
    match pick {
        Some(PickResult::Window { id }) => if accepts(source_types, SOURCE_TYPE_WINDOW) {
            Ok(CastSource::Window(id))
        } else {
            Err(REFUSED)
        },
        Some(PickResult::Output) => if accepts(source_types, SOURCE_TYPE_MONITOR) {
            Ok(CastSource::Monitor)
        } else {
            Err(REFUSED)
        },
        Some(PickResult::Cancelled) => Err(CANCELLED),
        _ => Err(REFUSED),
    }
}

/// Takes what the picker answered (`None` when it failed).
pub fn pick_source(pick: Option<PickResult>, source_types: u32) -> (r: Result<CastSource, u32>)
    ensures
        r == picked(pick, source_types),
{
    match pick {
        Some(PickResult::Window { id }) => if source_types & SOURCE_TYPE_WINDOW != 0 {
            Ok(CastSource::Window(id))
        } else {
            Err(REFUSED)
        },
        Some(PickResult::Output) => if source_types & SOURCE_TYPE_MONITOR != 0 {
            Ok(CastSource::Monitor)
        } else {
            Err(REFUSED)
        },
        Some(PickResult::Cancelled) => Err(CANCELLED),
        _ => Err(REFUSED),
    }
}

/// How a selection begins.
#[derive(Debug, Clone, Copy, PartialEq, Eq, Structural)]
pub enum SelectStep {
    /// Answer with this code; nothing is picked, and the session stays as it
    /// is.
    Answer(u32),
    /// Ask the user for a source.
    Pick,
}

/// Begins a selection: a request that was closed in the meantime is cancelled
/// without asking.
pub fn begin_select(tracker: &RequestTracker, request_path: &str) -> (step: SelectStep)
    ensures
        step == (if tracker@.contains(request_path@) {
            SelectStep::Answer(CANCELLED)
        } else {
            SelectStep::Pick
        }),
{
    if tracker.was_closed(request_path) {
        SelectStep::Answer(CANCELLED)
    } else {
        SelectStep::Pick
    }
}

/// Arms a session with what the picker answered. A request that was closed
/// while the picker ran is cancelled, unless the pick itself failed first.
pub fn select_sources(
    tracker: &RequestTracker,
    sessions: &mut SessionRegistry,
    request_path: &str,
    session_path: &str,
    source_types: u32,
    pick: Option<PickResult>,
) -> (code: u32)
    ensures
        match picked(pick, source_types) {
            Err(refused) => code == refused && final(sessions)@ == old(sessions)@,
            Ok(source) => if tracker@.contains(request_path@) {
                code == CANCELLED && final(sessions)@ == old(sessions)@
            } else if crate::session::select_problem(old(sessions)@, session_path@) is Some {
                code == REFUSED && final(sessions)@ == old(sessions)@
            } else {
                code == SUCCESS && final(sessions)@ == crate::session::selected(
                    old(sessions)@,
                    session_path@,
                    None,
                    source,
                )
            },
        },
{
    match pick_source(pick, source_types) {
        Err(code) => code,
        Ok(source) => {
            if tracker.was_closed(request_path) {
                return CANCELLED;
            }
            match sessions.mark_sources_selected(session_path, None, source) {
                Ok(_) => SUCCESS,
                Err(_) => REFUSED,
            }
        },
    }
}

// ---------------------------------------------------------------------------
// Start
// ---------------------------------------------------------------------------

/// Where a window is, in compositor coordinates.
#[derive(Debug, Clone, Copy, PartialEq, Eq, Structural)]
pub struct WindowGeometry {
    pub position: Point,
    pub size: Size,
}

/// A window that the compositor listed.
#[derive(Debug, Clone, Copy, PartialEq, Eq, Structural)]
pub struct ListedWindow {
    pub id: WindowId,
    pub geometry: WindowGeometry,
}

/// How a start begins.
#[derive(Debug, Clone, Copy, PartialEq, Eq, Structural)]
pub enum StartStep {
    /// Answer with this code.
    Answer(u32),
    /// Cast the monitor.
    CastMonitor,
    /// Ask where the window is, then cast it.
    LocateWindow(WindowId),
}

/// Begins a start: a closed request is cancelled, and a session that was not
/// armed, or was started before, is refused.
pub fn begin_start(
    tracker: &RequestTracker,
    sessions: &SessionRegistry,
    request_path: &str,
    session_path: &str,
) -> (step: StartStep)
    ensures
        step == (if tracker@.contains(request_path@) {
            StartStep::Answer(CANCELLED)
        } else if crate::session::start_problem(sessions@, session_path@) is Some {
            StartStep::Answer(REFUSED)
        } else {
            match sessions@[session_path@].source {
                CastSource::Monitor => StartStep::CastMonitor,
                CastSource::Window(id) => StartStep::LocateWindow(id),
            }
        }),
{
    if tracker.was_closed(request_path) {
        return StartStep::Answer(CANCELLED);
    }
    match sessions.source_for_start(session_path) {
        Err(_) => StartStep::Answer(REFUSED),
        Ok(CastSource::Monitor) => StartStep::CastMonitor,
        Ok(CastSource::Window(id)) => StartStep::LocateWindow(id),
    }
}

/// The first window with this identity.
pub open spec fn window_at(windows: Seq<ListedWindow>, id: WindowId) -> Option<WindowGeometry>
    decreases windows.len(),
{
    if windows.len() == 0 {
        None
    } else if windows[0].id == id {
        Some(windows[0].geometry)
    } else {
        window_at(windows.skip(1), id)
    }
}

/// Where a window is. One that is gone, or cannot be looked up, has no place
/// and fails the start.
pub fn locate(listed: &Option<Vec<ListedWindow>>, id: WindowId) -> (found: Option<WindowGeometry>)
    ensures
        found == (match listed {
            Some(windows) => window_at(windows@, id),
            None => None,
        }),
{
    match listed {
        None => None,
        Some(windows) => {
            let mut i: usize = 0;
            assert(windows@.skip(0) =~= windows@);
            while i < windows.len()
                invariant
                    i <= windows@.len(),
                    listed == Some(*windows),
                    window_at(windows@, id) == window_at(windows@.skip(i as int), id),
                decreases windows.len() - i,
            {
                assert(windows@.skip(i as int).skip(1) =~= windows@.skip(i + 1));
                if windows[i].id == id {
                    return Some(windows[i].geometry);
                }
                i = i + 1;
            }
            None
        },
    }
}

/// How a cast came up.
pub enum CastOutcome {
    Started(CastStarted),
    Failed(String),
    TimedOut,
}

/// The stream that a start reports.
#[derive(Debug, Clone, Copy, PartialEq, Eq)]
pub struct StreamReport {
    pub node_id: u32,
    pub source_type: u32,
    pub position: (i32, i32),
    pub size: (i32, i32),
}

/// The report on a started stream: a window's place, or the whole output.
pub open spec fn report_of(started: CastStarted, window: Option<WindowGeometry>) -> StreamReport {
    match window {
        Some(window) => StreamReport {
            node_id: started.node_id,
            source_type: SOURCE_TYPE_WINDOW,
            position: (window.position.x, window.position.y),
            size: (window.size.w, window.size.h),
        },
        None => StreamReport {
            node_id: started.node_id,
            source_type: SOURCE_TYPE_MONITOR,
            position: (0, 0),
            size: (started.width as i32, started.height as i32),
        },
    }
}

/// Ends a start with how the cast came up. A close that raced the
/// negotiation wins over a started cast; otherwise the session is marked as
/// started and its stream reported. Without a report the cast is to be
/// stopped.
pub fn start_cast(
    tracker: &RequestTracker,
    sessions: &mut SessionRegistry,
    request_path: &str,
    session_path: &str,
    window: Option<WindowGeometry>,
    outcome: CastOutcome,
) -> (r: (u32, Option<StreamReport>))
    ensures
        match outcome {
            CastOutcome::Started(started) => if tracker@.contains(request_path@) {
                r == (CANCELLED, None::<StreamReport>) && final(sessions)@ == old(sessions)@
            } else {
                r == (SUCCESS, Some(report_of(started, window))) && final(sessions)@
                    == crate::session::started(old(sessions)@, session_path@)
            },
            CastOutcome::Failed(_) | CastOutcome::TimedOut => r == (
                REFUSED,
                None::<StreamReport>,
            ) && final(sessions)@ == old(sessions)@,
        },
        outcome is Started && !tracker@.contains(request_path@) ==> r.1 is Some && r.1->0.node_id
            == outcome->Started_0.node_id,
{
    match outcome {
        CastOutcome::Started(started) => {
            if tracker.was_closed(request_path) {
                return (CANCELLED, None);
            }
            sessions.mark_started(session_path);
            let report: StreamReport = match window {
                Some(window) => StreamReport {
                    node_id: started.node_id,
                    source_type: SOURCE_TYPE_WINDOW,
                    position: (window.position.x, window.position.y),
                    size: (window.size.w, window.size.h),
                },
                None => StreamReport {
                    node_id: started.node_id,
                    source_type: SOURCE_TYPE_MONITOR,
                    position: (0, 0),
                    size: (started.width as i32, started.height as i32),
                },
            };
            (SUCCESS, Some(report))
        },
        CastOutcome::Failed(_) | CastOutcome::TimedOut => (REFUSED, None),
    }
}

/// A selection that passes the checks accepts at least one of the two source
/// types, and a pick of that type arms the session with it.
pub proof fn offered_sources_can_be_picked(options: SelectOptions, id: WindowId)
    requires
        select_refusal(options) is None,
    ensures
        accepts(options.source_types, SOURCE_TYPE_MONITOR) || accepts(
            options.source_types,
            SOURCE_TYPE_WINDOW,
        ),
        accepts(options.source_types, SOURCE_TYPE_MONITOR) ==> picked(
            Some(PickResult::Output),
            options.source_types,
        ) == Ok::<CastSource, u32>(CastSource::Monitor),
        accepts(options.source_types, SOURCE_TYPE_WINDOW) ==> picked(
            Some(PickResult::Window { id }),
            options.source_types,
        ) == Ok::<CastSource, u32>(CastSource::Window(id)),
{
    let types = options.source_types;
    assert(1 <= types <= 3 ==> (types & 1u32 != 0 || types & 2u32 != 0)) by (bit_vector);
}

} // verus!
