//! Laws of screen cast sessions and of their frames.

#![allow(unused_imports)]

use vstd::prelude::*;

use crate::cast::{stream_target, buffers_pod, BufferLayout, Cast, CastAction, CastMessage, CastStarted, Chunk};
use crate::options::{OptionValue, Options};
use crate::request::RequestTracker;
use crate::schema::{PickResult, StreamTarget, WindowId};
use crate::screencast::{
    begin_select, begin_start, create_session, locate, parse_select_options, select_sources,
    start_cast, validate_select, CastOutcome, ListedWindow, SelectOptions, SelectStep, StartStep,
    StreamReport, WindowGeometry,
};
use crate::session::{CastSource, SessionRegistry};

verus! {

/// A cast that has started, and whose request was not closed, is reported by
/// the node that was started: a window with where it is, a monitor with the
/// whole output. The session counts as started. A cast that did not start,
/// or whose request was closed, is not reported, and its session stays as it
/// was.
pub proof fn reports_name_the_stream_that_was_started(
    tracker: RequestTracker,
    before: SessionRegistry,
    after: SessionRegistry,
    request_path: &str,
    session_path: &str,
    window: Option<WindowGeometry>,
    outcome: CastOutcome,
    r: (u32, Option<StreamReport>),
    other: Seq<char>,
)
    requires
        exists|s: &mut SessionRegistry|
            #[trigger] call_ensures(
                start_cast,
                (&tracker, s, request_path, session_path, window, outcome),
                r,
            ) && *s == before && *final(s) == after,
        other != session_path@,
    ensures
        outcome is Started && !tracker@.contains(request_path@) ==> {
            let started = outcome->Started_0;
            &&& r.0 == 0
            &&& r.1 is Some
            &&& r.1->0.node_id == started.node_id
            &&& match window {
                Some(place) => r.1->0.source_type == 2 && r.1->0.position == (
                    place.position.x,
                    place.position.y,
                ) && r.1->0.size == (place.size.w, place.size.h),
                None => r.1->0.source_type == 1 && r.1->0.position == (0i32, 0i32) && r.1->0.size
                    == (started.width as i32, started.height as i32),
            }
            &&& before@.dom().contains(session_path@) ==> {
                &&& after@.dom().contains(session_path@)
                &&& after@[session_path@].started
                &&& after@[session_path@].sources_selected
                    == before@[session_path@].sources_selected
                &&& after@[session_path@].source == before@[session_path@].source
                &&& after@[session_path@].app_id == before@[session_path@].app_id
            }
        },
        outcome is Started && tracker@.contains(request_path@) ==> r.0 == 1 && r.1 is None
            && after@ == before@,
        !(outcome is Started) ==> r.0 == 2 && r.1 is None && after@ == before@,
        after@.dom().contains(other) == before@.dom().contains(other),
        before@.dom().contains(other) ==> after@[other] == before@[other],
{
}

/// A start casts what was selected: a session is cast when its sources were
/// selected and it was not started, and then the monitor or the very window
/// of the selection. A closed request is cancelled, any other refused.
pub proof fn starts_cast_what_was_selected(
    tracker: RequestTracker,
    sessions: SessionRegistry,
    request_path: &str,
    session_path: &str,
    step: StartStep,
    id: WindowId,
)
    requires
        call_ensures(begin_start, (&tracker, &sessions, request_path, session_path), step),
    ensures
        ({
            let s = sessions@[session_path@];
            let ready = sessions@.dom().contains(session_path@) && s.sources_selected
                && !s.started;
            &&& step == StartStep::Answer(1) <==> tracker@.contains(request_path@)
            &&& step == StartStep::Answer(2) <==> !tracker@.contains(request_path@) && !ready
            &&& step == StartStep::CastMonitor <==> !tracker@.contains(request_path@) && ready
                && s.source == CastSource::Monitor
            &&& step == StartStep::LocateWindow(id) <==> !tracker@.contains(request_path@) && ready
                && s.source == CastSource::Window(id)
        }),
{
}

/// A selection arms its session once, with the source that was picked, and
/// only with a kind of source that the client accepts. A cancelled pick and
/// a closed request are cancelled, anything else is refused, and then no
/// session changes.
pub proof fn selections_arm_with_the_accepted_pick(
    tracker: RequestTracker,
    before: SessionRegistry,
    after: SessionRegistry,
    request_path: &str,
    session_path: &str,
    source_types: u32,
    pick: Option<PickResult>,
    code: u32,
    other: Seq<char>,
)
    requires
        exists|s: &mut SessionRegistry|
            #[trigger] call_ensures(
                select_sources,
                (&tracker, s, request_path, session_path, source_types, pick),
                code,
            ) && *s == before && *final(s) == after,
        other != session_path@,
    ensures
        ({
            let window = pick matches Some(PickResult::Window { .. }) && source_types & 2 != 0;
            let monitor = pick == Some(PickResult::Output) && source_types & 1 != 0;
            let open = before@.dom().contains(session_path@)
                && !before@[session_path@].sources_selected;
            &&& code == 0 <==> (window || monitor) && !tracker@.contains(request_path@) && open
            &&& code == 1 <==> pick == Some(PickResult::Cancelled) || ((window || monitor)
                && tracker@.contains(request_path@))
            &&& code <= 2
            &&& code != 0 ==> after@ == before@
            &&& code == 0 ==> {
                &&& after@.dom().contains(session_path@)
                &&& after@[session_path@].sources_selected
                &&& after@[session_path@].started == before@[session_path@].started
                &&& after@[session_path@].app_id == before@[session_path@].app_id
                &&& monitor ==> after@[session_path@].source == CastSource::Monitor
                &&& window ==> (pick matches Some(PickResult::Window { id })
                    && after@[session_path@].source == CastSource::Window(id))
            }
        }),
        after@.dom().contains(other) == before@.dom().contains(other),
        before@.dom().contains(other) ==> after@[other] == before@[other],
{
}

/// What was picked is what the start casts.
pub proof fn picks_are_cast(
    tracker: RequestTracker,
    before: SessionRegistry,
    after: SessionRegistry,
    select_path: &str,
    start_path: &str,
    session_path: &str,
    source_types: u32,
    pick: Option<PickResult>,
    code: u32,
    step: StartStep,
)
    requires
        exists|s: &mut SessionRegistry|
            #[trigger] call_ensures(
                select_sources,
                (&tracker, s, select_path, session_path, source_types, pick),
                code,
            ) && *s == before && *final(s) == after,
        call_ensures(begin_start, (&tracker, &after, start_path, session_path), step),
        code == 0,
        !tracker@.contains(start_path@),
        !before@[session_path@].started,
    ensures
        pick == Some(PickResult::Output) ==> step == StartStep::CastMonitor,
        pick matches Some(PickResult::Window { id }) ==> step == StartStep::LocateWindow(id),
{
}

/// A new session has selected nothing and was not started; it stands under
/// its path for its application. A path that is taken is refused.
pub proof fn new_sessions_are_empty(
    tracker: RequestTracker,
    before: SessionRegistry,
    after: SessionRegistry,
    request_path: &str,
    session_path: &str,
    app_id: &str,
    code: u32,
    other: Seq<char>,
)
    requires
        exists|s: &mut SessionRegistry|
            #[trigger] call_ensures(
                create_session,
                (&tracker, s, request_path, session_path, app_id),
                code,
            ) && *s == before && *final(s) == after,
        other != session_path@,
    ensures
        code == 1 <==> tracker@.contains(request_path@),
        code == 2 <==> !tracker@.contains(request_path@) && before@.dom().contains(session_path@),
        code <= 2,
        code != 0 ==> after@ == before@,
        code == 0 ==> after@.dom().contains(session_path@) && after@[session_path@].app_id
            == app_id@ && !after@[session_path@].sources_selected && !after@[session_path@].started
            && after@[session_path@].restore_token is None,
        after@.dom().contains(other) == before@.dom().contains(other),
        before@.dom().contains(other) ==> after@[other] == before@[other],
{
}

/// A window is located where the list first has it, and only if the list has
/// it.
pub proof fn windows_are_located_by_identity(
    listed: Option<Vec<ListedWindow>>,
    id: WindowId,
    found: Option<WindowGeometry>,
)
    requires
        call_ensures(locate, (&listed, id), found),
    ensures
        match (listed, found) {
            (None, found) => found is None,
            (Some(windows), Some(place)) => exists|n: int|
                #![trigger windows@[n]]
                0 <= n < windows@.len() && windows@[n].id == id && windows@[n].geometry == place
                    && forall|m: int| 0 <= m < n ==> (#[trigger] windows@[m]).id != id,
            (Some(windows), None) => forall|n: int|
                0 <= n < windows@.len() ==> (#[trigger] windows@[n]).id != id,
        },
{
    if let Some(windows) = listed {
        first_window(windows@, id);
    }
}

proof fn first_window(windows: Seq<ListedWindow>, id: WindowId)
    ensures
        match crate::screencast::window_at(windows, id) {
            Some(place) => exists|n: int|
                #![trigger windows[n]]
                0 <= n < windows.len() && windows[n].id == id && windows[n].geometry == place
                    && forall|m: int| 0 <= m < n ==> (#[trigger] windows[m]).id != id,
            None => forall|n: int| 0 <= n < windows.len() ==> (#[trigger] windows[n]).id != id,
        },
    decreases windows.len(),
{
    if windows.len() > 0 {
        let rest = windows.skip(1);
        if windows[0].id == id {
            assert(windows[0].geometry == crate::screencast::window_at(windows, id)->0);
        } else {
            first_window(rest, id);
            match crate::screencast::window_at(rest, id) {
                Some(place) => {
                    let n = choose|n: int|
                        #![trigger rest[n]]
                        0 <= n < rest.len() && rest[n].id == id && rest[n].geometry == place
                            && forall|m: int| 0 <= m < n ==> (#[trigger] rest[m]).id != id;
                    assert(windows[n + 1] == rest[n]);
                    assert forall|m: int| 0 <= m < n + 1 implies (#[trigger] windows[m]).id != id by {
                        if m > 0 {
                            assert(windows[m] == rest[m - 1]);
                        }
                    }
                },
                None => {
                    assert forall|n: int| 0 <= n < windows.len() implies (
                    #[trigger] windows[n]).id != id by {
                        if n > 0 {
                            assert(windows[n] == rest[n - 1]);
                        }
                    }
                },
            }
        }
    }
}

/// A selection is served for monitors, windows or both, with a hidden
/// cursor, and for nothing else.
pub proof fn monitors_and_windows_are_served(options: SelectOptions, r: Result<(), String>)
    requires
        call_ensures(validate_select, (&options,), r),
    ensures
        r is Ok <==> (options.source_types == 1 || options.source_types == 2
            || options.source_types == 3) && options.cursor_mode == 1,
{
}

/// The options are the numbers that the client gave, else a monitor and a
/// hidden cursor.
pub proof fn selections_default_to_a_monitor(options: Options, parsed: SelectOptions)
    requires
        call_ensures(parse_select_options, (&options,), parsed),
    ensures
        options@.dom().contains("types"@) && options@["types"@] is U32 ==> parsed.source_types
            == options@["types"@]->U32_0,
        options@.dom().contains("cursor_mode"@) && options@["cursor_mode"@] is U32
            ==> parsed.cursor_mode == options@["cursor_mode"@]->U32_0,
        !options@.dom().contains("types"@) || !(options@["types"@] is U32) ==> parsed.source_types
            == 1,
        !options@.dom().contains("cursor_mode"@) || !(options@["cursor_mode"@] is U32)
            ==> parsed.cursor_mode == 1,
{
}

/// A frame of the right length replaces the latest one; a frame of another
/// length, and every other message, leaves it. The cast goes on until the
/// stream ends or fails.
pub proof fn the_latest_whole_frame_is_kept(
    before: Cast,
    after: Cast,
    message: CastMessage,
    action: CastAction,
)
    requires
        exists|s: &mut Cast|
            #[trigger] call_ensures(Cast::receive, (s, message), action) && *s == before
                && *final(s) == after,
    ensures
        after.width == before.width && after.height == before.height,
        action == CastAction::End <==> message is Ended || message is Failed,
        message is Frame && message->pixels@.len() == before.width * before.height * 4 ==> (
        after.latest is Some && after.latest->0@ == message->pixels@),
        !(message is Frame && message->pixels@.len() == before.width * before.height * 4) ==> (
        after.latest is Some == before.latest is Some && (before.latest is Some
            ==> after.latest->0@ == before.latest->0@)),
{
}

/// Each buffer gets the latest frame, byte for byte, if it holds one; else
/// it stays as it was and carries nothing.
pub proof fn buffers_get_the_latest_frame(
    cast: Cast,
    before: Vec<u8>,
    after: Vec<u8>,
    chunk: Chunk,
)
    requires
        exists|s: &mut Vec<u8>|
            #[trigger] call_ensures(Cast::process, (&cast, s), chunk) && *s == before && *final(s)
                == after,
    ensures
        chunk.offset == 0,
        chunk.stride == cast.width * 4,
        after@.len() == before@.len(),
        cast.latest is Some && cast.latest->0@.len() <= before@.len() ==> {
            let frame = cast.latest->0@;
            &&& chunk.size == frame.len()
            &&& forall|i: int| 0 <= i < frame.len() ==> #[trigger] after@[i] == frame[i]
            &&& forall|i: int| frame.len() <= i < after@.len() ==> #[trigger] after@[i] == before@[i]
        },
        !(cast.latest is Some && cast.latest->0@.len() <= before@.len()) ==> chunk.size == 0
            && after@ == before@,
{
}

/// A buffer of the layout holds one frame of four bytes a pixel, row by row.
pub proof fn layouts_hold_one_frame(width: u32, height: u32, layout: BufferLayout)
    requires
        call_ensures(buffers_pod, (width, height), layout),
        width * height * 4 <= i32::MAX,
        width * 4 <= i32::MAX,
    ensures
        layout.size == width * height * 4,
        layout.stride == width * 4,
        layout.blocks == 1,
        layout.buffers_min <= layout.buffers_default <= layout.buffers_max,
{
}

/// The first report is made once, with the extent of the cast and the node
/// of the stream.
pub proof fn casts_are_reported_once(
    before: Cast,
    after: Cast,
    node_id: u32,
    started: Option<CastStarted>,
)
    requires
        exists|s: &mut Cast|
            #[trigger] call_ensures(Cast::report, (s, node_id), started) && *s == before
                && *final(s) == after,
    ensures
        started is Some <==> !before.reported,
        after.reported,
        started is Some ==> started->0.node_id == node_id && started->0.width == before.width
            && started->0.height == before.height,
{
}

/// A session is armed once, with the source and the token it is given.
pub proof fn sessions_are_armed_once(
    before: SessionRegistry,
    after: SessionRegistry,
    path: &str,
    token: Option<String>,
    source: CastSource,
    r: Result<(), String>,
    seen: Option<CastSource>,
    ready: Result<(), String>,
)
    requires
        exists|s: &mut SessionRegistry|
            #[trigger] call_ensures(
                SessionRegistry::mark_sources_selected,
                (s, path, token, source),
                r,
            ) && *s == before && *final(s) == after,
        call_ensures(SessionRegistry::source, (&after, path), seen),
        call_ensures(SessionRegistry::can_start, (&after, path), ready),
    ensures
        r is Ok <==> before@.dom().contains(path@) && !before@[path@].sources_selected,
        r is Ok ==> seen == Some(source),
        r is Ok && !before@[path@].started ==> ready is Ok,
        r is Err ==> after@ == before@,
        ready is Ok <==> after@.dom().contains(path@) && after@[path@].sources_selected
            && !after@[path@].started,
{
}

/// A session that was started cannot be started again.
pub proof fn sessions_are_started_once(
    before: SessionRegistry,
    after: SessionRegistry,
    path: &str,
    ready: Result<CastSource, String>,
)
    requires
        exists|s: &mut SessionRegistry|
            #[trigger] call_ensures(SessionRegistry::mark_started, (s, path), ()) && *s == before
                && *final(s) == after,
        call_ensures(SessionRegistry::source_for_start, (&after, path), ready),
    ensures
        ready is Err,
        after@.dom() =~= before@.dom(),
{
}

/// A session keeps the token it was armed with, and is gone with it when it
/// is removed.
pub proof fn sessions_keep_their_token(
    before: SessionRegistry,
    armed: SessionRegistry,
    gone: SessionRegistry,
    path: &str,
    token: Option<String>,
    source: CastSource,
    seen: Option<String>,
    removed: Option<crate::session::CastSession>,
    other: Seq<char>,
)
    requires
        exists|s: &mut SessionRegistry|
            #[trigger] call_ensures(
                SessionRegistry::mark_sources_selected,
                (s, path, token, source),
                Ok::<(), String>(()),
            ) && *s == before && *final(s) == armed,
        call_ensures(SessionRegistry::restore_token, (&armed, path), seen),
        exists|s: &mut SessionRegistry|
            #[trigger] call_ensures(SessionRegistry::remove, (s, path), removed) && *s == armed
                && *final(s) == gone,
        other != path@,
    ensures
        seen is Some == token is Some,
        token is Some ==> seen->0@ == token->0@,
        removed is Some,
        removed->0.sources_selected,
        removed->0.source == source,
        !gone@.dom().contains(path@),
        gone@.dom().contains(other) == before@.dom().contains(other),
        before@.dom().contains(other) ==> gone@[other] == before@[other],
{
}

/// An extent can be cast when its frames and rows fit 31 bits.
pub proof fn extents_fit_their_buffers(
    width: u32,
    height: u32,
    yes: bool,
    length: usize,
    fits: bool,
)
    requires
        call_ensures(crate::cast::usable_extent, (width, height), yes),
        call_ensures(crate::cast::frame_fits, (width, height, length), fits),
    ensures
        yes <==> width * height * 4 <= 0x7fff_ffff && width * 4 <= 0x7fff_ffff && height
            <= 0x7fff_ffff,
        fits <==> length == width * height * 4,
{
}

/// A pick is the window or the output that was picked, if the client takes
/// its kind.
pub proof fn picks_are_of_an_accepted_kind(
    pick: Option<PickResult>,
    types: u32,
    r: Result<CastSource, u32>,
)
    requires
        call_ensures(crate::screencast::pick_source, (pick, types), r),
    ensures
        r == Ok::<CastSource, u32>(CastSource::Monitor) <==> pick == Some(PickResult::Output)
            && types & 1 != 0,
        r is Ok && r->Ok_0 is Window <==> (pick matches Some(PickResult::Window { .. })) && types & 2
            != 0,
        pick matches Some(PickResult::Window { id }) ==> (r is Ok ==> r->Ok_0 == CastSource::Window(
            id,
        )),
        pick == Some(PickResult::Cancelled) <==> r == Err::<CastSource, u32>(1),
        r is Err ==> r->Err_0 == 1 || r->Err_0 == 2,
{
}

/// A selection of a closed request is cancelled before anything is picked.
pub proof fn closed_selections_pick_nothing(
    tracker: RequestTracker,
    request_path: &str,
    step: SelectStep,
)
    requires
        call_ensures(begin_select, (&tracker, request_path), step),
    ensures
        step == SelectStep::Answer(1) <==> tracker@.contains(request_path@),
        step is Pick <==> !tracker@.contains(request_path@),
{
}

/// A session is registered once under its path, as one for which nothing was
/// selected yet.
pub proof fn sessions_are_registered_once(
    before: SessionRegistry,
    after: SessionRegistry,
    path: &str,
    app_id: String,
    r: Result<(), String>,
    other: &str,
    held: bool,
    held_before: bool,
)
    requires
        exists|s: &mut SessionRegistry|
            #[trigger] call_ensures(SessionRegistry::insert, (s, path, app_id), r) && *s == before
                && *final(s) == after,
        call_ensures(SessionRegistry::contains, (&after, other), held),
        call_ensures(SessionRegistry::contains, (&before, other), held_before),
    ensures
        other@ == path@ ==> held && (r is Ok <==> !held_before),
        other@ != path@ ==> (held <==> held_before),
        r is Ok ==> after@[path@].app_id == app_id@ && !after@[path@].sources_selected
            && !after@[path@].started && after@[path@].restore_token is None,
        r is Err ==> after@[path@] == before@[path@],
        other@ != path@ && held ==> after@[other@] == before@[other@],
{
}

/// A stream shows the window that was picked, else the whole output.
pub proof fn streams_show_the_picked_window(window: Option<WindowId>, target: StreamTarget)
    requires
        call_ensures(stream_target, (window,), target),
    ensures
        window matches Some(id) ==> target == (StreamTarget::Window { window: id }),
        window is None ==> target == StreamTarget::Output,
{
}

/// A new cast has the asked size, holds no picture and was not reported.
pub proof fn new_casts_hold_no_picture(width: u32, height: u32, cast: Cast)
    requires
        call_ensures(Cast::new, (width, height), cast),
    ensures
        cast.width == width && cast.height == height,
        cast.latest is None,
        !cast.reported,
{
}

} // verus!
