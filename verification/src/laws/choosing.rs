//! Laws of the file dialog.

#![allow(unused_imports)]

use vstd::prelude::*;

use crate::chooser::{DirItem, Entry};
use crate::file_chooser::{
    accept_paths, collect_choices, complete_text, crumb_name, requested_title, typeahead_index,
    valid_filename, ChoiceState, Completion, Effect, FolderOutcome, Key, KeyInput, LocationFacts, State,
};
use crate::pathset::PathSet;
use crate::prompter::{
    BytePath, Choice, FileChooserMode, FileChooserRequest, FileChooserResponse,
};

verus! {

/// What an accept returns. Opening returns exactly the selected paths;
/// without a selection a file is not opened, and a folder is the one being
/// browsed. Saving one file returns the trimmed name in the folder being
/// browsed, if it is a file name; saving several returns that folder.
pub proof fn accepts_return_the_selection(
    mode: FileChooserMode,
    dir: BytePath,
    selected: PathSet,
    save_name: &str,
    r: Option<Vec<BytePath>>,
)
    requires
        call_ensures(accept_paths, (mode, &dir, &selected, save_name), r),
    ensures
        mode == FileChooserMode::OpenFile ==> (r is Some <==> selected@.len() > 0),
        (mode == FileChooserMode::OpenFile || mode == FileChooserMode::OpenDirectory)
            && selected@.len() > 0 ==> r is Some && r->0@.len() == selected@.len() && forall|
            i: int,
        |
            #![trigger r->0@[i]]
            0 <= i < selected@.len() ==> r->0@[i]@ == selected@[i],
        mode == FileChooserMode::OpenDirectory && selected@.len() == 0 ==> r is Some && r->0@.len()
            == 1 && r->0@[0]@ == dir@,
        mode == FileChooserMode::SaveFiles ==> r is Some && r->0@.len() == 1 && r->0@[0]@ == dir@,
        mode == FileChooserMode::SaveFile ==> {
            let name = crate::text::trimmed(save_name@);
            &&& r is Some <==> name.len() > 0 && !name.contains('/') && !name.contains('\0')
            &&& r is Some ==> r->0@.len() == 1 && r->0@[0]@ == crate::paths::joined(
                dir@,
                vstd::utf8::encode_utf8(name),
            )
        },
{
    if let Some(paths) = r {
        let views = crate::prompter::byte_paths(paths@);
        assert forall|i: int| 0 <= i < paths@.len() implies #[trigger] paths@[i]@ == views[i] by {}
        assert(views.len() == paths@.len());
    }
}

/// A name below a folder stands behind one slash.
pub proof fn names_stand_behind_one_slash(dir: Seq<u8>, name: Seq<u8>)
    requires
        name.len() > 0,
        name[0] != 0x2f,
    ensures
        dir.len() > 0 && dir.last() != 0x2f ==> crate::paths::joined(dir, name) == dir + seq![
            0x2fu8,
        ] + name,
        dir.len() == 0 || dir.last() == 0x2f ==> crate::paths::joined(dir, name) == dir + name,
{
    assert(dir.push(0x2f) =~= dir + seq![0x2fu8]);
}

/// Going to another folder drops the selection, keeps the old folder to go
/// back to, and reads the new one.
pub proof fn navigation_remembers_the_old_folder(before: State, after: State, dir: BytePath)
    requires
        exists|s: &mut State|
            #[trigger] call_ensures(State::navigate, (s, dir), ()) && *s == before && *final(s) == after,
        !crate::pathset::same_path(dir@, before.dir@),
    ensures
        after.dir@ == dir@,
        after.selected@.len() == 0,
        after.reload,
        after.back@.len() == before.back@.len() + 1,
        after.back@.last()@ == before.dir@,
        after.forward@.len() == 0,
        after.request == before.request,
        after.name@ == before.name@,
        after.done is None == before.done is None,
{
    let old_back = crate::prompter::byte_paths(before.back@);
    let new_back = crate::prompter::byte_paths(after.back@);
    assert(new_back == old_back.push(before.dir@));
    assert(new_back.last() == after.back@.last()@);
    assert(crate::prompter::byte_paths(after.forward@).len() == after.forward@.len());
}

/// Going back returns to the folder that was left last, and it can be gone
/// forward from there again.
pub proof fn going_back_returns(before: State, after: State)
    requires
        exists|s: &mut State|
            #[trigger] call_ensures(State::go_back, (s,), ()) && *s == before && *final(s) == after,
        before.back@.len() > 0,
    ensures
        after.dir@ == before.back@.last()@,
        after.back@.len() == before.back@.len() - 1,
        after.forward@.len() == before.forward@.len() + 1,
        after.forward@.last()@ == before.dir@,
        after.selected@.len() == 0,
        after.reload,
{
    let old_back = crate::prompter::byte_paths(before.back@);
    let new_back = crate::prompter::byte_paths(after.back@);
    let new_forward = crate::prompter::byte_paths(after.forward@);
    assert(old_back.last() == before.back@.last()@);
    assert(new_back.len() == after.back@.len());
    assert(new_forward == crate::prompter::byte_paths(before.forward@).push(before.dir@));
    assert(new_forward.last() == after.forward@.last()@);
}

/// Going forward returns to the folder that was gone back from.
pub proof fn going_forward_returns(before: State, after: State)
    requires
        exists|s: &mut State|
            #[trigger] call_ensures(State::go_forward, (s,), ()) && *s == before && *final(s) == after,
        before.forward@.len() > 0,
    ensures
        after.dir@ == before.forward@.last()@,
        after.forward@.len() == before.forward@.len() - 1,
        after.back@.len() == before.back@.len() + 1,
        after.back@.last()@ == before.dir@,
        after.selected@.len() == 0,
        after.reload,
{
    let old_forward = crate::prompter::byte_paths(before.forward@);
    let new_forward = crate::prompter::byte_paths(after.forward@);
    let new_back = crate::prompter::byte_paths(after.back@);
    assert(old_forward.last() == before.forward@.last()@);
    assert(new_forward.len() == after.forward@.len());
    assert(new_back == crate::prompter::byte_paths(before.back@).push(before.dir@));
    assert(new_back.last() == after.back@.last()@);
}

/// Going up leads to the folder without its last component.
pub proof fn going_up_drops_a_component(before: State, after: State)
    requires
        exists|s: &mut State|
            #[trigger] call_ensures(State::go_parent, (s,), ()) && *s == before && *final(s) == after,
        crate::paths::parent(before.dir@) is Some,
    ensures
        crate::paths::parts(after.dir@) == crate::paths::parts(before.dir@).drop_last() || (
        after.dir@ == before.dir@ && crate::pathset::same_path(
            crate::paths::parent(before.dir@)->0,
            before.dir@,
        )),
        after.selected@.len() == 0,
{
    crate::paths::parent_drops_the_last_component(before.dir@);
}

/// A single click on a file in an open dialog selects that file, alone
/// unless the control key is held where several can be chosen; then it adds
/// the file or takes it away. In a save dialog it takes over the name.
pub proof fn clicks_select_files(
    before: State,
    after: State,
    index: usize,
    entry: Entry,
    now: u64,
    effect: Effect,
)
    requires
        exists|s: &mut State|
            #[trigger] call_ensures(State::handle_click, (s, index, &entry, now), effect) && *s == before && *final(s) == after,
        crate::pathset::ascending(before.selected@),
        !entry.is_dir,
        before.last_click is None,
    ensures
        effect is Nothing,
        after.dir@ == before.dir@,
        after.done is None == before.done is None,
        before.request.mode == FileChooserMode::OpenFile && !(before.request.multiple
            && before.ctrl_held) ==> after.selected@.len() == 1 && crate::pathset::member(
            after.selected@,
            entry.path@,
        ),
        before.request.mode == FileChooserMode::OpenFile && before.request.multiple
            && before.ctrl_held && crate::pathset::member(before.selected@, entry.path@)
            ==> after.selected@.len() == before.selected@.len() - 1 && !crate::pathset::member(
            after.selected@,
            entry.path@,
        ),
        before.request.mode == FileChooserMode::OpenFile && before.request.multiple
            && before.ctrl_held && !crate::pathset::member(before.selected@, entry.path@)
            ==> after.selected@.len() == before.selected@.len() + 1 && crate::pathset::member(
            after.selected@,
            entry.path@,
        ),
        before.request.mode == FileChooserMode::SaveFile ==> after.name@ == entry.name@
            && after.selected@ == before.selected@,
        before.request.mode != FileChooserMode::OpenFile ==> after.selected@ == before.selected@,
{
    let p = entry.path@;
    let s = before.selected@;
    assert(crate::pathset::same_path(p, p));
    assert(crate::pathset::member(seq![p], p)) by {
        assert(crate::pathset::same_path(seq![p][0], p));
    }
    crate::pathset::insert_members(s, p, p);
    crate::pathset::remove_members(s, p, p);
}

/// A single click on a folder selects it where folders are chosen, and
/// nothing elsewhere; it never leaves the folder.
pub proof fn clicks_select_folders_where_folders_are_chosen(
    before: State,
    after: State,
    index: usize,
    entry: Entry,
    now: u64,
    effect: Effect,
)
    requires
        exists|s: &mut State|
            #[trigger] call_ensures(State::handle_click, (s, index, &entry, now), effect) && *s == before && *final(s) == after,
        entry.is_dir,
        before.last_click is None,
    ensures
        effect is Nothing,
        after.dir@ == before.dir@,
        before.request.mode == FileChooserMode::OpenFile || before.request.mode
            == FileChooserMode::SaveFile ==> after.selected@ == before.selected@ && after.name@
            == before.name@,
        (before.request.mode == FileChooserMode::OpenDirectory && !(before.request.multiple
            && before.ctrl_held)) || before.request.mode == FileChooserMode::SaveFiles
            ==> after.selected@.len() == 1 && crate::pathset::member(
            after.selected@,
            entry.path@,
        ),
{
    let p = entry.path@;
    assert(crate::pathset::same_path(p, p));
    assert(crate::pathset::member(seq![p], p)) by {
        assert(crate::pathset::same_path(seq![p][0], p));
    }
}

/// Two clicks on the same row within 400 ms are a double click: a folder is
/// entered, and a file of an open dialog is the answer, alone.
pub proof fn double_clicks_open(
    before: State,
    after: State,
    index: usize,
    entry: Entry,
    now: u64,
    effect: Effect,
)
    requires
        exists|s: &mut State|
            #[trigger] call_ensures(State::handle_click, (s, index, &entry, now), effect) && *s == before && *final(s) == after,
        before.last_click matches Some((last, when)) && last@ == entry.path@ && now - when < 400,
    ensures
        entry.is_dir ==> effect is Nothing && after.selected@.len() == 0 && (after.dir@
            == entry.path@ || (after.dir@ == before.dir@ && crate::pathset::same_path(
            entry.path@,
            before.dir@,
        ))),
        !entry.is_dir && before.request.mode == FileChooserMode::OpenFile ==> effect is Finish
            && effect->Finish_0@.len() == 1 && effect->Finish_0@[0]@ == entry.path@,
        !entry.is_dir && before.request.mode != FileChooserMode::OpenFile ==> effect is Nothing
            && after.dir@ == before.dir@,
{
    if !entry.is_dir && before.request.mode == FileChooserMode::OpenFile {
        let paths = crate::prompter::byte_paths(effect->Finish_0@);
        assert(effect@ is Finish);
        assert(paths == seq![entry.path@]);
        assert(paths.len() == effect->Finish_0@.len());
        assert(paths[0] == effect->Finish_0@[0]@);
    }
}

/// A click 400 ms after the last one, or on another row, is a single one:
/// it opens nothing.
pub proof fn slow_clicks_open_nothing(
    before: State,
    after: State,
    index: usize,
    entry: Entry,
    now: u64,
    effect: Effect,
)
    requires
        exists|s: &mut State|
            #[trigger] call_ensures(State::handle_click, (s, index, &entry, now), effect) && *s == before && *final(s) == after,
        before.last_click matches Some((last, when)) ==> now - when >= 400
            || !crate::pathset::same_path(last@, entry.path@),
    ensures
        effect is Nothing,
        after.dir@ == before.dir@,
        after.last_click matches Some((last, when)) && last@ == entry.path@ && when == now,
{
}

/// A dialog opens in the folder of the suggested file, else in the suggested
/// folder, else at home, else at the root; the suggested file is selected,
/// and its name, or the suggested one, stands in the name field when saving.
/// Nothing is answered yet.
pub proof fn dialogs_open_at_the_suggestion(
    request: FileChooserRequest,
    home: Option<BytePath>,
    state: State,
)
    requires
        call_ensures(State::new, (request, home), state),
    ensures
        state.request == request,
        state.done is None,
        state.reload,
        !state.show_hidden,
        state.back@.len() == 0,
        state.forward@.len() == 0,
        request.current_file is None ==> state.selected@.len() == 0,
        request.current_file matches Some(file) ==> state.selected@ == seq![file@],
        request.current_file matches Some(file) ==> (crate::paths::parent(file@) is Some
            ==> state.dir@ == crate::paths::parent(file@)->0),
        request.current_file is None && request.current_folder is Some ==> state.dir@
            == request.current_folder->0@,
        request.current_file is None && request.current_folder is None && home is Some
            ==> state.dir@ == home->0@,
        request.current_file is None && request.current_folder is None && home is None
            ==> state.dir@ == seq![0x2fu8],
        request.mode != FileChooserMode::SaveFile ==> state.name@.len() == 0,
        request.mode == FileChooserMode::SaveFile && request.current_name is Some ==> state.name@
            == request.current_name->0@,
        request.mode == FileChooserMode::SaveFile && request.current_name is None ==> (
        request.current_file matches Some(file) ==> (crate::paths::file_name(file@) is Some
            ==> state.name@ == crate::text::lossy(crate::paths::file_name(file@)->0))),
        state.name_focused == (request.mode == FileChooserMode::SaveFile),
        state.choices@.len() == request.choices@.len(),
{
    assert(crate::prompter::byte_paths(state.back@).len() == state.back@.len());
    assert(crate::prompter::byte_paths(state.forward@).len() == state.forward@.len());
}

/// The filter that a dialog opens with is the suggested one, if it is
/// offered, and every choice opens with its own default: an option by its
/// identity, a switch by its text.
pub proof fn dialogs_open_with_the_suggested_filter_and_choices(
    request: FileChooserRequest,
    home: Option<BytePath>,
    state: State,
    k: int,
    o: int,
)
    requires
        call_ensures(State::new, (request, home), state),
    ensures
        request.current_filter matches Some(filter) ==> {
            0 <= k < request.filters@.len() && request.filters@[k]@ == filter@
                && request.filters@.len() <= i32::MAX ==> {
                &&& 0 <= state.filter_index < request.filters@.len()
                &&& request.filters@[state.filter_index as int]@ == filter@
            }
        },
        request.current_filter is None ==> state.filter_index == 0,
        0 <= k < request.choices@.len() ==> {
            let choice = request.choices@[k];
            &&& choice.options@.len() == 0 ==> state.choices@[k] == ChoiceState::Bool(
                choice.selected@ == "true"@,
            )
            &&& 0 <= o < choice.options@.len() && choice.options@[o].0@ == choice.selected@
                && choice.options@.len() <= i32::MAX ==> (state.choices@[k] matches ChoiceState::Options(
                at,
            ) && 0 <= at < choice.options@.len() && choice.options@[at as int].0@
                == choice.selected@)
        },
{
    let offered = crate::file_chooser::offered_filters(request);
    if let Some(filter) = request.current_filter {
        if 0 <= k < request.filters@.len() && request.filters@[k]@ == filter@ {
            assert(offered[k] == request.filters@[k]@);
            wanted_filters_are_found(offered, filter@, 0, k);
            let at = crate::file_chooser::first_filter(offered, filter@, 0);
            assert(offered[at] == request.filters@[at]@);
        }
    }
    if 0 <= k < request.choices@.len() {
        let choice = request.choices@[k];
        assert(state.choices@[k] == crate::file_chooser::initial_choice(choice));
        if 0 <= o < choice.options@.len() && choice.options@[o].0@ == choice.selected@ {
            wanted_options_are_found(choice, choice.selected@, 0, o);
        }
    }
}

proof fn wanted_filters_are_found(
    filters: Seq<crate::prompter::FilterContent>,
    wanted: crate::prompter::FilterContent,
    from: int,
    k: int,
)
    requires
        0 <= from <= k < filters.len(),
        filters[k] == wanted,
    ensures
        from <= crate::file_chooser::first_filter(filters, wanted, from) <= k,
        filters[crate::file_chooser::first_filter(filters, wanted, from)] == wanted,
    decreases k - from,
{
    if filters[from] != wanted {
        wanted_filters_are_found(filters, wanted, from + 1, k);
    }
}

proof fn wanted_options_are_found(choice: Choice, id: Seq<char>, from: int, o: int)
    requires
        0 <= from <= o < choice.options@.len(),
        choice.options@[o].0@ == id,
    ensures
        from <= crate::file_chooser::first_option(choice, id, from) <= o,
        choice.options@[crate::file_chooser::first_option(choice, id, from)].0@ == id,
    decreases o - from,
{
    if choice.options@[from].0@ != id {
        wanted_options_are_found(choice, id, from + 1, o);
    }
}

/// Each choice is answered in turn, by its identity: a switch with `true` or
/// `false`, an option with the identity of the option.
pub proof fn choices_are_answered_in_turn(
    choices: Vec<Choice>,
    values: Vec<ChoiceState>,
    v: Vec<(String, String)>,
    i: int,
)
    requires
        call_ensures(collect_choices, (&choices, &values), v),
        0 <= i < choices@.len(),
    ensures
        v@.len() == choices@.len(),
        v@[i].0@ == choices@[i].id@,
        values@[i] matches ChoiceState::Bool(on) ==> v@[i].1@ == (if on {
            "true"@
        } else {
            "false"@
        }),
        values@[i] matches ChoiceState::Options(at) ==> (0 <= at < choices@[i].options@.len()
            ==> v@[i].1@ == choices@[i].options@[at as int].0@),
{
    let all = crate::file_chooser::collected(choices@, values@);
    let views = v@.map_values(|c: (String, String)| (c.0@, c.1@));
    assert(views == all);
    assert(views.len() == v@.len());
    assert(views[i] == (v@[i].0@, v@[i].1@));
    assert(all[i] == (
        choices@[i].id@,
        crate::file_chooser::choice_text(choices@[i], values@[i]),
    ));
}

/// Outside saving several files, an accept answers with the very paths that
/// were chosen, the active filter and every choice.
pub proof fn accepted_paths_are_the_answer<F: Fn(&Vec<u8>) -> bool>(
    before: State,
    after: State,
    paths: Vec<BytePath>,
    occupied: F,
    i: int,
)
    requires
        exists|s: &mut State|
            #[trigger] call_ensures(State::finish_accept::<F>, (s, paths, &occupied), ()) && *s == before && *final(s) == after,
        before.request.mode != FileChooserMode::SaveFiles,
        0 <= i < paths@.len(),
    ensures
        after.done is Some,
        after.done->0 is Selected,
        ({
            let answered = after.done->0->paths@;
            answered.len() == paths@.len() && answered[i]@ == paths@[i]@
        }),
        after.done->0->choices@.len() == before.request.choices@.len(),
        0 <= before.filter_index < before.filters@.len() ==> after.done->0->current_filter is Some
            && after.done->0->current_filter->0@ == before.filters@[before.filter_index as int]@,
        before.filter_index >= before.filters@.len() ==> after.done->0->current_filter is None,
        after.selected@ == before.selected@,
        after.dir@ == before.dir@,
{
    let offered = crate::file_chooser::filter_views(before.filters@);
    assert(offered.len() == before.filters@.len());
    if 0 <= before.filter_index < before.filters@.len() {
        assert(offered[before.filter_index as int] == before.filters@[before.filter_index as int]@);
    }
    let views = crate::prompter::byte_paths(paths@);
    let result = choose|result: Result<Seq<Seq<u8>>, Seq<char>>| #[trigger]
        crate::file_chooser::accepted_with(before@, views, occupied, after@, result);
    assert(crate::file_chooser::accepted(before@, views, occupied, after@));
    assert(crate::file_chooser::accepted_with(before@, views, occupied, after@, result));
    assert(result == Ok::<Seq<Seq<u8>>, Seq<char>>(views));
    assert(after@.done == Some(before@.answer_for(result)));
    let answered = crate::prompter::byte_paths(after.done->0->paths@);
    assert(answered == views);
    assert(answered.len() == after.done->0->paths@.len());
    assert(answered[i] == after.done->0->paths@[i]@);
    assert(views[i] == paths@[i]@);
    let told = after.done->0->choices@;
    assert(told.map_values(|c: (String, String)| (c.0@, c.1@)).len() == told.len());
}

/// Cancelling is the answer that nothing was chosen.
pub proof fn cancelled_dialogs_answer_so(before: State, after: State)
    requires
        exists|s: &mut State|
            #[trigger] call_ensures(State::cancel, (s,), ()) && *s == before && *final(s) == after,
    ensures
        after.done == Some(FileChooserResponse::Cancelled),
        after.dir@ == before.dir@,
        after.selected@ == before.selected@,
{
    assert(after@.done is Some);
    assert(after.done is Some);
    assert(crate::file_chooser::answer_of(after.done->0)
        == crate::file_chooser::Answer::Cancelled);
}

/// A file that is there is never saved over without asking: the answer of a
/// save dialog comes only for a free target, or after it was confirmed.
pub proof fn saving_over_a_file_is_asked(
    before: State,
    after: State,
    target: BytePath,
    there: bool,
    effect: Effect,
    asked: Effect,
)
    requires
        exists|s: &mut State|
            #[trigger] call_ensures(State::target_probed, (s, target, there), effect) && *s == before && *final(s) == after,
        call_ensures(State::accept, (&before,), asked),
    ensures
        before.request.mode == FileChooserMode::SaveFile ==> !(asked is Finish),
        before.request.mode == FileChooserMode::SaveFile && asked is Probe ==> {
            let name = crate::text::trimmed(before.name@);
            asked->Probe_0@ == crate::paths::joined(before.dir@, vstd::utf8::encode_utf8(name))
        },
        there ==> effect is Nothing && after.confirm_overwrite is Some
            && after.confirm_overwrite->0@ == target@ && after.confirm_open,
        !there ==> effect is Finish && effect->Finish_0@.len() == 1 && effect->Finish_0@[0]@
            == target@ && (after.confirm_overwrite is Some == before.confirm_overwrite is Some),
        after.done is None == before.done is None,
{
    if !there {
        let paths = crate::prompter::byte_paths(effect->Finish_0@);
        assert(effect@ is Finish);
        assert(paths == seq![target@]);
        assert(paths.len() == effect->Finish_0@.len());
        assert(paths[0] == effect->Finish_0@[0]@);
    }
}

/// Confirming finishes with the target, and declining finishes nothing;
/// either way the question is gone.
pub proof fn overwriting_is_confirmed_or_declined(
    before: State,
    after: State,
    declined: State,
    effect: Effect,
)
    requires
        exists|s: &mut State|
            #[trigger] call_ensures(State::overwrite_confirmed, (s,), effect) && *s == before && *final(s) == after,
        exists|s: &mut State|
            #[trigger] call_ensures(State::overwrite_declined, (s,), ()) && *s == before
                && *final(s) == declined,
        before.request.mode == FileChooserMode::SaveFile,
    ensures
        after.confirm_overwrite is None,
        declined.confirm_overwrite is None,
        declined.done is None == before.done is None,
        ({
            let name = crate::text::trimmed(before.name@);
            &&& effect is Finish <==> name.len() > 0 && !name.contains('/') && !name.contains(
                '\0',
            )
            &&& effect is Finish ==> effect->Finish_0@.len() == 1 && effect->Finish_0@[0]@
                == crate::paths::joined(before.dir@, vstd::utf8::encode_utf8(name))
        }),
{
    if effect is Finish {
        let paths = crate::prompter::byte_paths(effect->Finish_0@);
        assert(effect@ is Finish);
        assert(paths.len() == effect->Finish_0@.len());
        assert(paths[0] == effect->Finish_0@[0]@);
    }
}

/// The cursor moves by one row and stays inside the listing; the first move
/// goes to the first row down, and to the last row up.
pub proof fn the_cursor_moves_by_one_row(before: State, after: State, down: bool)
    requires
        exists|s: &mut State|
            #[trigger] call_ensures(State::focus_move, (s, down), ()) && *s == before && *final(s) == after,
        before.entries@.len() > 0,
        before.entries@.len() <= usize::MAX,
    ensures
        after.focus_index is Some,
        after.focus_index->0 < before.entries@.len(),
        after.scroll_to_index == after.focus_index,
        before.focus_index is None ==> after.focus_index->0 == (if down {
            0
        } else {
            before.entries@.len() - 1
        }),
        before.focus_index matches Some(at) ==> {
            &&& down && at + 1 < before.entries@.len() ==> after.focus_index->0 == at + 1
            &&& down && at + 1 >= before.entries@.len() ==> after.focus_index->0
                == before.entries@.len() - 1
            &&& !down && 0 < at < before.entries@.len() ==> after.focus_index->0 == at - 1
            &&& !down && at == 0 ==> after.focus_index->0 == 0
        },
        after.dir@ == before.dir@,
{
    assert(before@.entries.len() == before.entries@.len());
}

/// Moving the cursor onto a file of an open dialog selects it, onto a folder
/// where folders are chosen that folder; with the control key held the
/// selection stays.
pub proof fn the_cursor_selects(before: State, after: State, index: usize)
    requires
        exists|s: &mut State|
            #[trigger] call_ensures(State::focus_to, (s, index), ()) && *s == before && *final(s) == after,
        index < before.entries@.len(),
    ensures
        before.ctrl_held ==> after.selected@ == before.selected@ && after.name@ == before.name@,
        !before.ctrl_held ==> {
            let row = before.entries@[index as int];
            &&& before.request.mode == FileChooserMode::OpenFile && !row.is_dir
                ==> after.selected@ == seq![row.path@]
            &&& before.request.mode == FileChooserMode::OpenDirectory && row.is_dir
                ==> after.selected@ == seq![row.path@]
            &&& before.request.mode == FileChooserMode::SaveFile && !row.is_dir ==> after.name@
                == row.name@
            &&& before.request.mode == FileChooserMode::SaveFile ==> after.selected@
                == before.selected@
            &&& before.request.mode == FileChooserMode::OpenFile && row.is_dir ==> after.selected@
                == before.selected@
            &&& before.request.mode == FileChooserMode::OpenDirectory && !row.is_dir
                ==> after.selected@ == before.selected@
        },
{
    assert(before@.entries[index as int] == before.entries@[index as int]@);
}

/// Typing jumps to the first row whose name begins with what was typed.
pub proof fn typing_finds_the_first_row_with_that_name(
    entries: Vec<Entry>,
    prefix: &str,
    at: Option<usize>,
    k: int,
)
    requires
        call_ensures(typeahead_index, (&entries, prefix), at),
        0 <= k < entries@.len(),
    ensures
        at is Some ==> at->0 < entries@.len() && prefix@.is_prefix_of(
            entries@[at->0 as int].name@,
        ),
        prefix@.is_prefix_of(entries@[k].name@) ==> at is Some && at->0 <= k,
{
    let rows = crate::chooser::rows_view(entries@);
    first_named_is_first(rows, prefix@, 0, k);
    assert(rows[k].name == entries@[k].name@);
    if let Some(found) = at {
        assert(rows[found as int].name == entries@[found as int].name@);
    }
}

proof fn first_named_is_first(
    rows: Seq<crate::chooser::EntryContent>,
    prefix: Seq<char>,
    from: int,
    k: int,
)
    requires
        0 <= from <= rows.len(),
    ensures
        ({
            let at = crate::file_chooser::first_named(rows, prefix, from);
            &&& from <= at <= rows.len()
            &&& at < rows.len() ==> prefix.is_prefix_of(rows[at].name)
            &&& from <= k < rows.len() && prefix.is_prefix_of(rows[k].name) ==> at <= k
        }),
    decreases rows.len() - from,
{
    if from < rows.len() && !prefix.is_prefix_of(rows[from].name) {
        first_named_is_first(rows, prefix, from + 1, k);
    }
}

/// What is typed within a second is one name, later it is a new one.
pub proof fn typing_within_a_second_goes_on(before: State, after: State, text: &str, now: u64)
    requires
        exists|s: &mut State|
            #[trigger] call_ensures(State::typeahead, (s, text, now), ()) && *s == before && *final(s) == after,
    ensures
        before.typed_at matches Some(when) ==> (now - when < 1000 ==> after.typed@
            == before.typed@ + text@),
        before.typed_at matches Some(when) ==> (now - when >= 1000 ==> after.typed@ == text@),
        before.typed_at is None ==> after.typed@ == text@,
        after.typed_at == Some(now),
        after.dir@ == before.dir@,
{
}

/// A location that is a folder is entered; a file of an open dialog is
/// selected in its folder; a new name to save under is taken over; anything
/// else is an error, and the folder stays.
pub proof fn locations_are_entered_or_selected(
    before: State,
    after: State,
    full: BytePath,
    facts: LocationFacts,
)
    requires
        exists|s: &mut State|
            #[trigger] call_ensures(State::location_probed, (s, &full, facts), ()) && *s == before && *final(s) == after,
        crate::paths::parent(full@) is Some,
        crate::paths::file_name(full@) is Some,
        !crate::pathset::same_path(full@, before.dir@),
        !crate::pathset::same_path(crate::paths::parent(full@)->0, before.dir@),
    ensures
        facts.is_dir ==> after.dir@ == full@ && after.selected@.len() == 0,
        !facts.is_dir && facts.parent_is_dir && before.request.mode == FileChooserMode::SaveFile
            ==> after.dir@ == crate::paths::parent(full@)->0 && after.name@ == crate::text::lossy(
            crate::paths::file_name(full@)->0,
        ),
        !facts.is_dir && facts.parent_is_dir && facts.is_file && before.request.mode
            == FileChooserMode::OpenFile ==> after.dir@ == crate::paths::parent(full@)->0
            && after.selected@ == seq![full@],
        !facts.is_dir && (!facts.parent_is_dir || (!facts.is_file && before.request.mode
            != FileChooserMode::SaveFile)) ==> after.dir@ == before.dir@ && after.selected@
            == before.selected@ && after.location_error is Some,
{
}

/// A new folder is made under its trimmed name in the folder being browsed,
/// if that is a file name, and is entered once it is there.
pub proof fn new_folders_are_made_and_entered(
    before: State,
    after: State,
    effect: Effect,
    target: BytePath,
    outcome: FolderOutcome,
    entered: State,
)
    requires
        exists|s: &mut State|
            #[trigger] call_ensures(State::create_folder, (s,), effect) && *s == before && *final(s) == after,
        exists|s: &mut State|
            #[trigger] call_ensures(State::folder_created, (s, target, outcome), ()) && *s == after
                && *final(s) == entered,
        !crate::pathset::same_path(target@, after.dir@),
    ensures
        ({
            let name = crate::text::trimmed(before.folder_name@);
            let good = name.len() > 0 && !name.contains('/') && !name.contains('\0');
            &&& effect is CreateFolder <==> good
            &&& good ==> effect->CreateFolder_0@ == crate::paths::joined(
                before.dir@,
                vstd::utf8::encode_utf8(name),
            )
            &&& !good ==> effect is Nothing && after.folder_error is Some
        }),
        after.dir@ == before.dir@,
        outcome is Created ==> entered.dir@ == target@ && !entered.creating_folder
            && entered.folder_error is None,
        !(outcome is Created) ==> entered.dir@ == before.dir@ && entered.folder_error is Some
            && entered.creating_folder == after.creating_folder,
{
}

/// A file name is not empty and has no slash and no zero in it.
pub proof fn file_names_have_no_slash(name: &str, yes: bool)
    requires
        call_ensures(valid_filename, (name,), yes),
    ensures
        yes == (name@.len() > 0 && !name@.contains('/') && !name@.contains('\0')),
{
}

/// Without a row under the cursor, return accepts what is selected: the
/// files of an open dialog are the answer, all of them.
pub proof fn return_accepts_the_selection(before: State, after: State, effect: Effect, i: int)
    requires
        exists|s: &mut State|
            #[trigger] call_ensures(State::handle_enter, (s,), effect) && *s == before && *final(s) == after,
        before.focus_index is None,
        before.request.mode == FileChooserMode::OpenFile,
    ensures
        before.selected@.len() == 0 ==> effect is Nothing,
        before.selected@.len() > 0 ==> effect is Finish && effect->Finish_0@.len()
            == before.selected@.len() && (0 <= i < before.selected@.len() ==> effect->Finish_0@[i]@
            == before.selected@[i]),
        after.selected@ == before.selected@,
        after.dir@ == before.dir@,
{
    if effect is Finish {
        let paths = crate::prompter::byte_paths(effect->Finish_0@);
        assert(effect@ is Finish);
        assert(paths.len() == effect->Finish_0@.len());
        if 0 <= i < paths.len() {
            assert(paths[i] == effect->Finish_0@[i]@);
        }
    }
}

/// Backspace goes up where no field is being edited and nothing is open
/// above the listing, and nowhere else.
pub proof fn backspace_goes_up(
    before: State,
    after: State,
    input: KeyInput,
    folder_focused: bool,
    popup: bool,
)
    requires
        exists|s: &mut State|
            #[trigger] call_ensures(State::end_frame, (s, &input, folder_focused, popup), ()) && *s == before && *final(s) == after,
    ensures
        ({
            let free = !before.location_editing && !before.name_focused && !folder_focused
                && !popup;
            let pressed = exists|k: int|
                0 <= k < input.keys@.len() && (#[trigger] input.keys@[k]).key == Key::Backspace
                    && input.keys@[k].pressed && !input.keys@[k].repeat;
            let up = crate::paths::parent(before.dir@);
            &&& !(free && pressed) ==> after.dir@ == before.dir@ && after.selected@
                == before.selected@
            &&& free && pressed && up is Some && !crate::pathset::same_path(up->0, before.dir@)
                ==> after.dir@ == up->0 && after.selected@.len() == 0
        }),
        after.field_focused == folder_focused,
{
}

/// A dialog is titled as it was asked to be, else after what it does.
pub proof fn dialogs_are_titled(request: FileChooserRequest, title: String)
    requires
        call_ensures(requested_title, (&request,), title),
    ensures
        request.title@.len() > 0 ==> title@ == request.title@,
        request.title@.len() == 0 ==> {
            &&& request.mode == FileChooserMode::OpenFile && request.multiple ==> title@
                == "Open Files"@
            &&& request.mode == FileChooserMode::OpenFile && !request.multiple ==> title@
                == "Open File"@
            &&& request.mode == FileChooserMode::SaveFile ==> title@ == "Save File"@
            &&& request.mode == FileChooserMode::OpenDirectory || request.mode
                == FileChooserMode::SaveFiles ==> title@ == "Choose Folder"@
        },
{
}

/// A breadcrumb shows the name of its folder, the root a slash, and a name
/// of more than 24 characters its first 21 and an ellipsis.
pub proof fn breadcrumbs_show_the_folder(component: &[u8], text: String)
    requires
        call_ensures(crumb_name, (component,), text),
    ensures
        crate::paths::file_name(component@) is None ==> text@ == "/"@,
        crate::paths::file_name(component@) matches Some(name) ==> {
            let shown = crate::text::lossy(name);
            &&& shown.len() <= 24 ==> text@ == shown
            &&& shown.len() > 24 ==> text@ == shown.take(21) + "…"@
        },
{
    reveal_strlit("/");
}

/// Another filter is the one that was picked, and the folder is read again.
pub proof fn picked_filters_apply(before: State, after: State, index: i32)
    requires
        exists|s: &mut State|
            #[trigger] call_ensures(State::filter_changed, (s, index), ()) && *s == before && *final(s) == after,
    ensures
        after.filter_index == index,
        after.reload,
        after.dir@ == before.dir@,
        after.selected@ == before.selected@,
        after.name@ == before.name@,
{
}

/// A place leads to its folder.
pub proof fn places_lead_to_their_folder(before: State, after: State, path: BytePath)
    requires
        exists|s: &mut State|
            #[trigger] call_ensures(State::place_clicked, (s, path), ()) && *s == before && *final(s) == after,
    ensures
        crate::pathset::same_path(before.dir@, path@) ==> after.dir@ == before.dir@
            && after.selected@ == before.selected@,
        !crate::pathset::same_path(before.dir@, path@) ==> after.selected@.len() == 0 && after.reload,
        !crate::pathset::same_path(before.dir@, path@) && !crate::pathset::same_path(
            path@,
            before.dir@,
        ) ==> after.dir@ == path@,
{
}

/// The location field opens with the text it is given, and the caret behind
/// it.
pub proof fn location_fields_open_with_their_text(before: State, after: State, seed: String)
    requires
        exists|s: &mut State|
            #[trigger] call_ensures(State::open_location, (s, seed), ()) && *s == before && *final(s) == after,
    ensures
        after.location@ == seed@,
        after.location_editing,
        after.location_error is None,
        after.location_caret == vstd::utf8::encode_utf8(seed@).len(),
        after.dir@ == before.dir@,
{
}

/// Where a typed location leads: from the root if it begins with a slash,
/// from home behind a tilde, else from the folder being browsed; and
/// nowhere if nothing was typed.
pub proof fn typed_locations_lead_somewhere(
    state: State,
    home: Option<&BytePath>,
    effect: Effect,
    rest: Seq<char>,
)
    requires
        call_ensures(State::go_location, (&state, home), effect),
    ensures
        ({
            let typed = crate::text::trimmed(state.location@);
            let bytes = vstd::utf8::encode_utf8(typed);
            &&& typed.len() == 0 <==> effect is Nothing
            &&& typed.len() > 0 ==> effect is Resolve
            &&& typed.len() > 0 && typed[0] != '~' && bytes.len() > 0 && bytes[0] == 0x2f
                ==> effect->Resolve_0@ == crate::location::normalized(bytes)
            &&& typed.len() > 0 && typed[0] != '~' && bytes.len() > 0 && bytes[0] != 0x2f
                ==> effect->Resolve_0@ == crate::location::normalized(
                crate::paths::joined(state.dir@, bytes),
            )
            &&& home matches Some(h) ==> (typed == seq!['~'] && h@.len() > 0 && h@[0] == 0x2f
                ==> effect->Resolve_0@ == crate::location::normalized(h@))
            &&& home matches Some(h) ==> (typed == seq!['~', '/'] + rest && h@.len() > 0 && h@[0]
                == 0x2f && !crate::paths::rooted(vstd::utf8::encode_utf8(rest))
                ==> effect->Resolve_0@ == crate::location::normalized(
                crate::paths::joined(h@, vstd::utf8::encode_utf8(rest)),
            ))
        }),
{
    let typed = crate::text::trimmed(state.location@);
    if typed == seq!['~', '/'] + rest {
        assert(typed.skip(2) =~= rest);
        if let Some(h) = home {
            if h@.len() > 0 && h@[0] == 0x2f && !crate::paths::rooted(
                vstd::utf8::encode_utf8(rest),
            ) {
                let all = crate::paths::joined(h@, vstd::utf8::encode_utf8(rest));
                assert(all[0] == h@[0]);
            }
        }
    }
}

/// Completing a location: one name that fits is taken over, a folder with a
/// slash behind it; of several the common beginning, if it is more than was
/// typed; and without one nothing changes.
pub proof fn locations_are_completed(
    dir_part: &str,
    tail: &str,
    rows: Vec<Entry>,
    text: Option<String>,
    k: int,
)
    requires
        call_ensures(complete_text, (dir_part, tail, &rows), text),
        0 <= k < rows@.len(),
    ensures
        (forall|j: int|
            #![trigger rows@[j]]
            0 <= j < rows@.len() ==> !tail@.is_prefix_of(rows@[j].name@)) ==> text is None,
        tail@.is_prefix_of(rows@[k].name@) && (forall|j: int|
            #![trigger rows@[j]]
            0 <= j < rows@.len() && j != k ==> !tail@.is_prefix_of(rows@[j].name@)) ==> text
            is Some && text->0@ == dir_part@ + rows@[k].name@ + (if rows@[k].is_dir {
            seq!['/']
        } else {
            Seq::empty()
        }),
        text is Some ==> dir_part@.is_prefix_of(text->0@),
{
    let views = crate::chooser::rows_view(rows@);
    assert forall|j: int| 0 <= j < rows@.len() implies #[trigger] views[j] == rows@[j]@ by {}
    if forall|j: int|
        #![trigger rows@[j]]
        0 <= j < rows@.len() ==> !tail@.is_prefix_of(rows@[j].name@) {
        assert forall|j: int| 0 <= j < views.len() implies !tail@.is_prefix_of(
            (#[trigger] views[j]).name,
        ) by {
            assert(views[j] == rows@[j]@);
        }
        no_row_fits(views, tail@);
    }
    if tail@.is_prefix_of(rows@[k].name@) && (forall|j: int|
        #![trigger rows@[j]]
        0 <= j < rows@.len() && j != k ==> !tail@.is_prefix_of(rows@[j].name@)) {
        assert forall|j: int| 0 <= j < views.len() && j != k implies !tail@.is_prefix_of(
            (#[trigger] views[j]).name,
        ) by {
            assert(views[j] == rows@[j]@);
        }
        one_row_fits(views, tail@, k);
    }
    if let Some(found) = text {
        let all = crate::file_chooser::rows_with_prefix(views, tail@);
        let given = found@;
        assert(given.len() >= dir_part@.len());
        assert(dir_part@ =~= given.take(dir_part@.len() as int));
    }
}

proof fn no_row_fits(rows: Seq<crate::chooser::EntryContent>, prefix: Seq<char>)
    requires
        forall|j: int| 0 <= j < rows.len() ==> !prefix.is_prefix_of((#[trigger] rows[j]).name),
    ensures
        crate::file_chooser::rows_with_prefix(rows, prefix).len() == 0,
    decreases rows.len(),
{
    if rows.len() > 0 {
        let rest = rows.drop_last();
        assert forall|j: int| 0 <= j < rest.len() implies !prefix.is_prefix_of(
            (#[trigger] rest[j]).name,
        ) by {
            assert(rest[j] == rows[j]);
        }
        assert(!prefix.is_prefix_of(rows[rows.len() - 1].name));
        no_row_fits(rest, prefix);
    }
}

proof fn one_row_fits(rows: Seq<crate::chooser::EntryContent>, prefix: Seq<char>, k: int)
    requires
        0 <= k < rows.len(),
        prefix.is_prefix_of(rows[k].name),
        forall|j: int|
            0 <= j < rows.len() && j != k ==> !prefix.is_prefix_of((#[trigger] rows[j]).name),
    ensures
        crate::file_chooser::rows_with_prefix(rows, prefix) == seq![rows[k]],
    decreases rows.len(),
{
    let rest = rows.drop_last();
    if k == rows.len() - 1 {
        assert forall|j: int| 0 <= j < rest.len() implies !prefix.is_prefix_of(
            (#[trigger] rest[j]).name,
        ) by {
            assert(rest[j] == rows[j]);
        }
        no_row_fits(rest, prefix);
        assert(crate::file_chooser::rows_with_prefix(rows, prefix) =~= seq![rows[k]]);
    } else {
        assert forall|j: int| 0 <= j < rest.len() && j != k implies !prefix.is_prefix_of(
            (#[trigger] rest[j]).name,
        ) by {
            assert(rest[j] == rows[j]);
        }
        assert(rest[k] == rows[k]);
        one_row_fits(rest, prefix, k);
        assert(!prefix.is_prefix_of(rows[rows.len() - 1].name));
    }
}

/// With several names that fit, what is completed fits every one of them
/// and is longer than what was typed.
pub proof fn completions_of_several_fit_them_all(
    dir_part: &str,
    tail: &str,
    rows: Vec<Entry>,
    text: Option<String>,
    j: int,
    k: int,
)
    requires
        call_ensures(complete_text, (dir_part, tail, &rows), text),
        0 <= j < k < rows@.len(),
        tail@.is_prefix_of(rows@[j].name@),
        tail@.is_prefix_of(rows@[k].name@),
        text is Some,
    ensures
        ({
            let added = text->0@.skip(dir_part@.len() as int);
            &&& text->0@ == dir_part@ + added
            &&& added.is_prefix_of(rows@[j].name@)
            &&& added.is_prefix_of(rows@[k].name@)
            &&& added.len() > tail@.len() || vstd::utf8::encode_utf8(added).len()
                > vstd::utf8::encode_utf8(tail@).len()
        }),
{
    let views = crate::chooser::rows_view(rows@);
    assert(views[j] == rows@[j]@);
    assert(views[k] == rows@[k]@);
    let found = crate::file_chooser::rows_with_prefix(views, tail@);
    fitting_rows_are_found(views, tail@, j, k);
    let names = found.map_values(|row: crate::chooser::EntryContent| row.name);
    let a = choose|a: int| 0 <= a < found.len() && #[trigger] found[a] == views[j];
    let b = choose|b: int| 0 <= b < found.len() && #[trigger] found[b] == views[k];
    assert(found.len() >= 2);
    let prefix = crate::location::prefix_of_all(names);
    super::listings::prefixes_of_all(names, Seq::empty(), a);
    super::listings::prefixes_of_all(names, Seq::empty(), b);
    assert(names[a] == rows@[j].name@);
    assert(names[b] == rows@[k].name@);
    assert(text->0@.skip(dir_part@.len() as int) =~= prefix);
}

proof fn fitting_rows_are_found(
    rows: Seq<crate::chooser::EntryContent>,
    prefix: Seq<char>,
    j: int,
    k: int,
)
    requires
        0 <= j < k < rows.len(),
        prefix.is_prefix_of(rows[j].name),
        prefix.is_prefix_of(rows[k].name),
    ensures
        ({
            let found = crate::file_chooser::rows_with_prefix(rows, prefix);
            &&& found.len() >= 2
            &&& exists|a: int| 0 <= a < found.len() && #[trigger] found[a] == rows[j]
            &&& exists|b: int| 0 <= b < found.len() && #[trigger] found[b] == rows[k]
        }),
    decreases rows.len(),
{
    let rest = rows.drop_last();
    let found = crate::file_chooser::rows_with_prefix(rows, prefix);
    let before = crate::file_chooser::rows_with_prefix(rest, prefix);
    if k == rows.len() - 1 {
        assert(rest[j] == rows[j]);
        one_is_found(rest, prefix, j);
        let a = choose|a: int| 0 <= a < before.len() && #[trigger] before[a] == rest[j];
        assert(found[a] == rows[j]);
        assert(found[before.len() as int] == rows[k]);
    } else {
        assert(rest[j] == rows[j]);
        assert(rest[k] == rows[k]);
        fitting_rows_are_found(rest, prefix, j, k);
        let a = choose|a: int| 0 <= a < before.len() && #[trigger] before[a] == rest[j];
        let b = choose|b: int| 0 <= b < before.len() && #[trigger] before[b] == rest[k];
        assert(found[a] == rows[j]);
        assert(found[b] == rows[k]);
    }
}

proof fn one_is_found(rows: Seq<crate::chooser::EntryContent>, prefix: Seq<char>, j: int)
    requires
        0 <= j < rows.len(),
        prefix.is_prefix_of(rows[j].name),
    ensures
        ({
            let found = crate::file_chooser::rows_with_prefix(rows, prefix);
            exists|a: int| 0 <= a < found.len() && #[trigger] found[a] == rows[j]
        }),
    decreases rows.len(),
{
    let rest = rows.drop_last();
    let found = crate::file_chooser::rows_with_prefix(rows, prefix);
    let before = crate::file_chooser::rows_with_prefix(rest, prefix);
    if j == rows.len() - 1 {
        assert(found[before.len() as int] == rows[j]);
    } else {
        assert(rest[j] == rows[j]);
        one_is_found(rest, prefix, j);
        let a = choose|a: int| 0 <= a < before.len() && #[trigger] before[a] == rest[j];
        assert(found[a] == rows[j]);
    }
}

/// The active filter is the one at the index that was picked.
pub proof fn active_filters_are_picked_by_index(
    state: State,
    filter: Option<&crate::prompter::FileFilter>,
    dirs: bool,
    several: bool,
)
    requires
        call_ensures(State::active_filter, (&state,), filter),
        call_ensures(State::dirs_selectable, (&state,), dirs),
        call_ensures(State::multiple_allowed, (&state,), several),
    ensures
        0 <= state.filter_index < state.filters@.len() ==> filter is Some && filter->0@
            == state.filters@[state.filter_index as int]@,
        state.filter_index >= state.filters@.len() ==> filter is None,
        dirs <==> state.request.mode == FileChooserMode::OpenDirectory || state.request.mode
            == FileChooserMode::SaveFiles,
        several <==> state.request.multiple && (state.request.mode == FileChooserMode::OpenFile
            || state.request.mode == FileChooserMode::OpenDirectory),
{
    let views = crate::file_chooser::filter_views(state.filters@);
    assert(views.len() == state.filters@.len());
    if 0 <= state.filter_index < state.filters@.len() {
        assert(views[state.filter_index as int] == state.filters@[state.filter_index as int]@);
    }
}

/// Toggling adds the row under the cursor to the selection, or takes it
/// away, where such a row can be chosen.
pub proof fn toggling_changes_one_row(before: State, after: State, q: Seq<u8>)
    requires
        exists|s: &mut State|
            #[trigger] call_ensures(State::toggle_focused, (s,), ()) && *s == before && *final(s) == after,
        crate::pathset::ascending(before.selected@),
        before.focus_index matches Some(at) && at < before.entries@.len(),
    ensures
        ({
            let row = before.entries@[before.focus_index->0 as int];
            let p = row.path@;
            let mode = before.request.mode;
            let can = if row.is_dir {
                mode == FileChooserMode::OpenDirectory || mode == FileChooserMode::SaveFiles
            } else {
                mode == FileChooserMode::OpenFile
            };
            &&& !can ==> after.selected@ == before.selected@
            &&& can && !crate::pathset::same_path(p, q) ==> crate::pathset::member(
                after.selected@,
                q,
            ) == crate::pathset::member(before.selected@, q)
            &&& can ==> crate::pathset::member(after.selected@, p) == !crate::pathset::member(
                before.selected@,
                p,
            )
        }),
        after.dir@ == before.dir@,
{
    let row = before.entries@[before.focus_index->0 as int];
    let p = row.path@;
    assert(before@.entries[before.focus_index->0 as int] == row@);
    assert(before@.focused_entry() == Some(row@));
    assert(crate::pathset::same_path(p, p));
    crate::pathset::insert_members(before.selected@, p, q);
    crate::pathset::insert_members(before.selected@, p, p);
    crate::pathset::remove_members(before.selected@, p, q);
    crate::pathset::remove_members(before.selected@, p, p);
}

/// Typing puts the cursor on the first row that begins with what was typed
/// so far, and leaves it where there is none.
pub proof fn typing_puts_the_cursor(before: State, after: State, text: &str, now: u64, k: int)
    requires
        exists|s: &mut State|
            #[trigger] call_ensures(State::typeahead, (s, text, now), ()) && *s == before && *final(s) == after,
        0 <= k < before.entries@.len(),
        before.entries@.len() <= usize::MAX,
    ensures
        after.typed@.is_prefix_of(before.entries@[k].name@) ==> after.focus_index is Some
            && after.focus_index->0 <= k && after.typed@.is_prefix_of(
            before.entries@[after.focus_index->0 as int].name@,
        ),
        (forall|j: int|
            #![trigger before.entries@[j]]
            0 <= j < before.entries@.len() ==> !after.typed@.is_prefix_of(
                before.entries@[j].name@,
            )) ==> after.focus_index == before.focus_index && after.selected@ == before.selected@,
{
    let rows = before@.entries;
    assert forall|j: int| 0 <= j < rows.len() implies #[trigger] rows[j] == before.entries@[j]@ by {}
    assert(rows.len() == before.entries@.len());
    first_named_is_first(rows, after.typed@, 0, k);
    let at = crate::file_chooser::first_named(rows, after.typed@, 0);
    assert(rows[k] == before.entries@[k]@);
    if at < rows.len() {
        assert(rows[at] == before.entries@[at]@);
    }
}

/// A completion is asked for what stands behind the last slash, in the
/// folder that stands before it.
pub proof fn completions_look_in_the_typed_folder(
    state: State,
    home: Option<&BytePath>,
    then_go: bool,
    effect: Effect,
    front: Seq<char>,
    last: Seq<char>,
)
    requires
        call_ensures(State::complete_location, (&state, home, then_go), effect),
        state.location@ == front + seq!['/'] + last,
        !last.contains('/'),
    ensures
        effect is Complete,
        effect->Complete_0.dir_part@ == front + seq!['/'],
        effect->Complete_0.tail@ == last,
        effect->Complete_0.then_go == then_go,
        front.len() > 0 && front[0] == '/' && crate::paths::rooted(
            vstd::utf8::encode_utf8(front + seq!['/']),
        ) ==> effect->Complete_0.base@ == crate::location::normalized(
            vstd::utf8::encode_utf8(front + seq!['/']),
        ),
        front.len() > 0 && front[0] != '~' && vstd::utf8::encode_utf8(front + seq!['/']).len() > 0
            && !crate::paths::rooted(vstd::utf8::encode_utf8(front + seq!['/']))
            ==> effect->Complete_0.base@ == crate::location::normalized(
            crate::paths::joined(state.dir@, vstd::utf8::encode_utf8(front + seq!['/'])),
        ),
{
    super::listings::tails_begin_behind_the_last_slash(front, last);
    let at = front.len() as int + 1;
    assert(state.location@.take(at) =~= front + seq!['/']);
    assert(state.location@.skip(at) =~= last);
    assert(effect@ is Complete);
}

/// Reading the folder again shows what was read in it: every row is an item
/// in the folder being browsed, and every folder in it has a row, but for
/// dotfiles that are not shown. A failure shows no row and says why.
pub proof fn reloads_show_the_folder(
    before: State,
    after: State,
    listing: Result<Vec<DirItem>, String>,
    n: int,
    m: int,
)
    requires
        exists|s: &mut State|
            #[trigger] call_ensures(State::reload_entries, (s, listing), ()) && *s == before
                && *final(s) == after,
    ensures
        !after.reload,
        listing is Err ==> after.entries@.len() == 0 && after.listing_error is Some
            && after.listing_error->0@ == listing->Err_0@,
        listing is Ok ==> after.listing_error is None,
        listing is Ok && 0 <= n < after.entries@.len() ==> {
            &&& exists|k: int|
                #![trigger listing->Ok_0@[k]]
                0 <= k < listing->Ok_0@.len() && after.entries@[n].path@ == crate::paths::joined(
                    before.dir@,
                    listing->Ok_0@[k].name@,
                ) && after.entries@[n].is_dir == listing->Ok_0@[k].is_dir
            &&& before.show_hidden || after.entries@[n].name@.len() == 0
                || after.entries@[n].name@[0] != '.'
        },
        listing is Ok && 0 <= m < listing->Ok_0@.len() && listing->Ok_0@[m].is_dir
            && before.show_hidden ==> exists|k: int|
            #![trigger after.entries@[k]]
            0 <= k < after.entries@.len() && after.entries@[k].path@ == crate::paths::joined(
                before.dir@,
                listing->Ok_0@[m].name@,
            ) && after.entries@[k].is_dir,
        after.dir@ == before.dir@ && after.selected@ == before.selected@ && after.name@
            == before.name@,
{
    if listing is Ok {
        let items = listing->Ok_0@;
        let filter = before@.active_filter();
        let rows = crate::chooser::shown_rows(before.dir@, items, before.show_hidden, filter);
        let list = after@.entries;
        let order = super::listings::order_of(rows, list);
        assert(list.len() == after.entries@.len());
        if 0 <= n < list.len() {
            assert(list[n] == after.entries@[n]@);
            assert(list[n] == rows[order[n]]);
            super::listings::rows_were_read(
                before.dir@,
                items,
                before.show_hidden,
                filter,
                order[n],
            );
        }
        if 0 <= m < items.len() && items[m].is_dir && before.show_hidden {
            super::listings::read_items_are_rows(before.dir@, items, before.show_hidden, filter, m);
            let j = choose|j: int|
                0 <= j < rows.len() && #[trigger] rows[j] == crate::chooser::row_of(
                    before.dir@,
                    items[m],
                );
            super::listings::orders_reach_every_position(rows, order, j);
            let k = choose|k: int| 0 <= k < order.len() && #[trigger] order[k] == j;
            assert(list[k] == after.entries@[k]@);
            assert(list[k] == rows[order[k]]);
        }
    } else {
        assert(after@.entries.len() == after.entries@.len());
        assert(after@.listing_error is Some);
    }
}

/// A name that is set is the name, with the caret behind it.
pub proof fn set_names_are_held(before: State, after: State, name: &str)
    requires
        exists|s: &mut State|
            #[trigger] call_ensures(State::set_name, (s, name), ()) && *s == before && *final(s)
                == after,
    ensures
        after.name@ == name@,
        after.name_caret == vstd::utf8::encode_utf8(name@).len(),
        after.dir@ == before.dir@ && after.selected@ == before.selected@,
{
}

/// Of the choices exactly the changed one changes.
pub proof fn choices_change_one_by_one(
    before: State,
    after: State,
    index: usize,
    value: ChoiceState,
    i: int,
)
    requires
        exists|s: &mut State|
            #[trigger] call_ensures(State::choice_changed, (s, index, value), ()) && *s == before
                && *final(s) == after,
        index < before.choices@.len(),
        0 <= i < before.choices@.len(),
    ensures
        after.choices@.len() == before.choices@.len(),
        after.choices@[i] == (if i == index {
            value
        } else {
            before.choices@[i]
        }),
        after.selected@ == before.selected@ && after.dir@ == before.dir@,
{
    assert(after@.choices == before@.choices.update(index as int, value));
}

/// The question whether to overwrite is dropped once its window is gone, and
/// is asked for once.
pub proof fn overwriting_is_asked_while_its_window_is_open(
    before: State,
    after: State,
    was_open: bool,
    open: bool,
)
    requires
        exists|s: &mut State|
            #[trigger] call_ensures(State::confirm_frame, (s, was_open), open) && *s == before
                && *final(s) == after,
    ensures
        open == before.confirm_open,
        !after.confirm_open,
        !was_open && !open ==> after.confirm_overwrite is None,
        was_open || open ==> (after.confirm_overwrite is Some <==> before.confirm_overwrite
            is Some),
        (was_open || open) && before.confirm_overwrite is Some ==> after.confirm_overwrite->0@
            == before.confirm_overwrite->0@,
        after.dir@ == before.dir@ && after.name@ == before.name@,
{
    assert(after@.confirm_overwrite is Some <==> after.confirm_overwrite is Some);
}

/// The row for a new folder opens empty and takes the focus from the name.
pub proof fn new_folders_start_unnamed(before: State, after: State)
    requires
        exists|s: &mut State|
            #[trigger] call_ensures(State::open_folder_row, (s,), ()) && *s == before && *final(s)
                == after,
    ensures
        after.creating_folder && after.folder_focus && !after.name_focused,
        after.folder_name@.len() == 0,
        after.folder_error is None,
        after.dir@ == before.dir@ && after.name@ == before.name@ && after.selected@
            == before.selected@,
{
    assert(after@.folder_error is None);
}

/// The name has the focus once it was clicked, and until something else is.
pub proof fn names_are_focused_by_the_pointer(
    before: State,
    after: State,
    clicked: bool,
    elsewhere: bool,
)
    requires
        exists|s: &mut State|
            #[trigger] call_ensures(State::name_pointer, (s, clicked, elsewhere), ()) && *s
                == before && *final(s) == after,
    ensures
        clicked ==> after.name_focused,
        !clicked && elsewhere ==> !after.name_focused,
        !clicked && !elsewhere ==> after.name_focused == before.name_focused,
        after.name@ == before.name@,
{
}

/// Selecting one path makes it the selection; with the control key held,
/// where several may be selected, it joins the selection or leaves it.
pub proof fn selecting_replaces_or_toggles(
    before: State,
    after: State,
    path: BytePath,
    several: bool,
    q: Seq<u8>,
)
    requires
        exists|s: &mut State|
            #[trigger] call_ensures(State::select, (s, &path), ()) && *s == before && *final(s)
                == after,
        call_ensures(State::multiple_allowed, (&before,), several),
        crate::pathset::ascending(before.selected@),
    ensures
        !several ==> after.selected@ == seq![path@],
        several && !before.ctrl_held ==> after.selected@.len() == 1 && crate::pathset::member(
            after.selected@,
            path@,
        ),
        several && before.ctrl_held && !crate::pathset::same_path(q, path@) ==> (
        crate::pathset::member(after.selected@, q) <==> crate::pathset::member(
            before.selected@,
            q,
        )),
        several && before.ctrl_held ==> (crate::pathset::member(after.selected@, path@)
            <==> !crate::pathset::member(before.selected@, path@)),
        after.dir@ == before.dir@,
{
    assert(seq![path@][0] == path@);
    assert(crate::pathset::member(seq![path@], path@));
    crate::pathset::insert_members(before.selected@, path@, q);
    crate::pathset::remove_members(before.selected@, path@, q);
    crate::pathset::insert_members(before.selected@, path@, path@);
    crate::pathset::remove_members(before.selected@, path@, path@);
}

/// A folder that cannot be read completes nothing, and a completion only
/// ever changes the typed location; it goes there if that was asked for.
pub proof fn completions_change_the_location_alone(
    before: State,
    after: State,
    completion: Completion,
    items: Option<Vec<DirItem>>,
    home: Option<&BytePath>,
    effect: Effect,
)
    requires
        exists|s: &mut State|
            #[trigger] call_ensures(State::completed, (s, &completion, items, home), effect) && *s
                == before && *final(s) == after,
    ensures
        items is None ==> after.location@ == before.location@,
        after.location@ != before.location@ ==> completion.dir_part@.is_prefix_of(after.location@)
            && after.location_caret == vstd::utf8::encode_utf8(after.location@).len(),
        !completion.then_go ==> effect is Nothing,
        completion.then_go && crate::text::trimmed(after.location@).len() > 0 ==> effect
            is Resolve,
        after.dir@ == before.dir@ && after.selected@ == before.selected@ && after.name@
            == before.name@,
{
    assert(effect@ is Nothing <==> effect is Nothing);
    assert(effect@ is Resolve <==> effect is Resolve);
    if items is Some {
        assert(crate::file_chooser::completion_applied(before@, completion, items, after@));
        let rows = choose|rows: Seq<crate::chooser::EntryContent>| #[trigger]
            crate::file_chooser::completion_from(before@, completion, items->0, rows, after@);
        assert(crate::file_chooser::completion_from(before@, completion, items->0, rows, after@));
    }
}

/// Of a long trail the last folders are shown, and as many as there is room
/// for.
pub proof fn the_last_crumbs_are_shown(count: usize, hidden: usize)
    requires
        call_ensures(crate::file_chooser::hidden_crumbs, (count,), hidden),
    ensures
        count <= 4 ==> hidden == 0,
        count > 4 ==> count - hidden == 4,
{
}

} // verus!
