//! The file chooser dialog as a state machine.
//!
//! [`State`] holds everything the dialog decides on: the browsed folder, the
//! listing, the selection, the save name, the location field, the history
//! and the answer. Its methods take what happened (a key, a click, what was
//! found on disk) and compute the next state; where something has to be
//! looked up outside first, they return an [`Effect`] that names it.
//!
//! Times are milliseconds of a clock that never goes back.

use vstd::prelude::*;
use vstd::string::*;

use crate::chooser::{list_dir, DirItem, Entry};
use crate::edit;
use crate::paths::{file_name_of, is_rooted, join, parent_of};
use crate::pathset::{order_paths, Order, PathSet};
use crate::prompter::{BytePath, Choice, FileChooserMode, FileChooserRequest, FileChooserResponse, FileFilter};
use crate::text::{begins_with, chars_of, has_char, lossy_text, same_text, string_of, trim};

verus! {

/// Double-click window for "activate" (navigate/open) gestures, in
/// milliseconds.
pub const DOUBLE_CLICK: u64 = 400;

/// How long typeahead characters accumulate before the buffer resets, in
/// milliseconds.
pub const TYPEAHEAD_WINDOW: u64 = 1000;

/// The value of one embedded choice while the dialog is open.
#[derive(Debug, Clone, Copy, PartialEq, Eq, Structural)]
pub enum ChoiceState {
    Bool(bool),
    Options(i32),
}

/// A name that can be created in a folder: not empty, no separator, no NUL.
pub open spec fn is_filename(name: Seq<char>) -> bool {
    name.len() > 0 && !name.contains('/') && !name.contains('\0')
}

/// A name that can be created in a folder.
pub fn valid_filename(name: &str) -> (yes: bool)
    ensures
        yes == is_filename(name@),
{
    !name.is_empty() && !has_char(name, '/') && !has_char(name, '\0')
}

/// The paths that an accept would return, if the state is acceptable.
pub open spec fn acceptable(
    mode: FileChooserMode,
    dir: Seq<u8>,
    selected: Seq<Seq<u8>>,
    save_name: Seq<char>,
) -> Option<Seq<Seq<u8>>> {
    match mode {
        FileChooserMode::OpenFile => if selected.len() == 0 {
            None
        } else {
            Some(selected)
        },
        FileChooserMode::OpenDirectory => if selected.len() == 0 {
            Some(seq![dir])
        } else {
            Some(selected)
        },
        FileChooserMode::SaveFile => {
            let name = crate::text::trimmed(save_name);
            if is_filename(name) {
                Some(seq![crate::paths::joined(dir, vstd::utf8::encode_utf8(name))])
            } else {
                None
            }
        },
        FileChooserMode::SaveFiles => Some(seq![dir]),
    }
}

fn one_path(path: &[u8]) -> (v: Vec<BytePath>)
    ensures
        crate::prompter::byte_paths(v@) == seq![path@],
{
    let mut v: Vec<BytePath> = Vec::new();
    v.push(BytePath(vstd::slice::slice_to_vec(path)));
    assert(crate::prompter::byte_paths(v@) =~= seq![path@]);
    v
}

fn as_byte_paths(paths: Vec<Vec<u8>>) -> (v: Vec<BytePath>)
    ensures
        crate::prompter::byte_paths(v@) == crate::paths::path_views(paths@),
{
    let mut v: Vec<BytePath> = Vec::new();
    let mut i: usize = 0;
    while i < paths.len()
        invariant
            i <= paths@.len(),
            crate::prompter::byte_paths(v@) == crate::paths::path_views(paths@).take(i as int),
        decreases paths@.len() - i,
    {
        let ghost before = v@;
        v.push(BytePath(vstd::slice::slice_to_vec(paths[i].as_slice())));
        assert(crate::prompter::byte_paths(v@) =~= crate::prompter::byte_paths(before).push(
            paths@[i as int]@,
        ));
        assert(crate::paths::path_views(paths@).take(i + 1) =~= crate::paths::path_views(
            paths@,
        ).take(i as int).push(paths@[i as int]@));
        i = i + 1;
    }
    assert(crate::paths::path_views(paths@).take(i as int) =~= crate::paths::path_views(paths@));
    v
}

/// The paths an accept would return, or `None` when the current state is not
/// acceptable. Choosing a folder with nothing selected targets the folder
/// being browsed.
pub fn accept_paths(
    mode: FileChooserMode,
    dir: &BytePath,
    selected: &PathSet,
    save_name: &str,
) -> (paths: Option<Vec<BytePath>>)
    ensures
        match paths {
            Some(paths) => acceptable(mode, dir@, selected@, save_name@) == Some(
                crate::prompter::byte_paths(paths@),
            ),
            None => acceptable(mode, dir@, selected@, save_name@) is None,
        },
        (mode == FileChooserMode::OpenFile || mode == FileChooserMode::OpenDirectory)
            && selected@.len() > 0 ==> paths is Some && crate::prompter::byte_paths(paths->0@)
            == selected@,
{
    match mode {
        FileChooserMode::OpenFile => {
            if selected.is_empty() {
                None
            } else {
                Some(as_byte_paths(selected.paths()))
            }
        },
        FileChooserMode::OpenDirectory => {
            if selected.is_empty() {
                Some(one_path(dir.0.as_slice()))
            } else {
                Some(as_byte_paths(selected.paths()))
            }
        },
        FileChooserMode::SaveFile => {
            let name = trim(save_name);
            if valid_filename(name.as_str()) {
                let path = join(dir.0.as_slice(), name.as_str().as_bytes());
                Some(one_path(path.as_slice()))
            } else {
                None
            }
        },
        FileChooserMode::SaveFiles => Some(one_path(dir.0.as_slice())),
    }
}

/// The title that a dialog shows: the request's, or the mode's default.
pub open spec fn title_of(request: FileChooserRequest) -> Seq<char> {
    if request.title@.len() != 0 {
        request.title@
    } else {
        match request.mode {
            FileChooserMode::OpenFile => if request.multiple {
                "Open Files"@
            } else {
                "Open File"@
            },
            FileChooserMode::OpenDirectory | FileChooserMode::SaveFiles => "Choose Folder"@,
            FileChooserMode::SaveFile => "Save File"@,
        }
    }
}

/// The dialog title: the request's, or the mode's default when empty.
pub fn requested_title(request: &FileChooserRequest) -> (title: String)
    ensures
        title@ == title_of(*request),
{
    if !request.title.as_str().is_empty() {
        return request.title.clone();
    }
    match request.mode {
        FileChooserMode::OpenFile => if request.multiple {
            "Open Files".to_owned()
        } else {
            "Open File".to_owned()
        },
        FileChooserMode::OpenDirectory | FileChooserMode::SaveFiles => "Choose Folder".to_owned(),
        FileChooserMode::SaveFile => "Save File".to_owned(),
    }
}

/// The accept button's default label per mode.
pub fn default_accept_label(mode: FileChooserMode) -> (label: &'static str)
    ensures
        label@ == (match mode {
            FileChooserMode::OpenFile => "Open"@,
            FileChooserMode::OpenDirectory | FileChooserMode::SaveFiles => "Select"@,
            FileChooserMode::SaveFile => "Save"@,
        }),
{
    match mode {
        FileChooserMode::OpenFile => "Open",
        FileChooserMode::OpenDirectory | FileChooserMode::SaveFiles => "Select",
        FileChooserMode::SaveFile => "Save",
    }
}

/// A crumb's text: the folder's name, shortened when it is long.
pub open spec fn crumb_text(component: Seq<u8>) -> Seq<char> {
    let name = match crate::paths::file_name(component) {
        Some(name) => crate::text::lossy(name),
        None => "/"@,
    };
    if name.len() > 24 {
        name.take(21) + "…"@
    } else {
        name
    }
}

/// How many breadcrumbs are shown.
pub const SHOWN_CRUMBS: usize = 4;

/// How many of the oldest breadcrumbs are left out.
pub fn hidden_crumbs(count: usize) -> (hidden: usize)
    ensures
        hidden == (if count > SHOWN_CRUMBS {
            count - SHOWN_CRUMBS
        } else {
            0
        }),
{
    if count > SHOWN_CRUMBS {
        count - SHOWN_CRUMBS
    } else {
        0
    }
}

/// A crumb's display text: the folder's name capped at 24 characters (the
/// root crumb reads "/").
pub fn crumb_name(component: &[u8]) -> (text: String)
    ensures
        text@ == crumb_text(component@),
{
    let name = match file_name_of(component) {
        Some(name) => lossy_text(name.as_slice()),
        None => "/".to_owned(),
    };
    let v = chars_of(name.as_str());
    if v.len() > 24 {
        let mut text = string_of(vstd::slice::slice_subrange(v.as_slice(), 0, 21));
        assert(text@ =~= name@.take(21));
        text.append("…");
        text
    } else {
        name
    }
}

// ---------------------------------------------------------------------------
// State
// ---------------------------------------------------------------------------

/// What the dialog answered.
pub enum Answer {
    Selected {
        paths: Seq<Seq<u8>>,
        current_filter: Option<crate::prompter::FilterContent>,
        choices: Seq<(Seq<char>, Seq<char>)>,
    },
    Cancelled,
    Failed(Seq<char>),
}

/// What a response says.
pub open spec fn answer_of(response: FileChooserResponse) -> Answer {
    match response {
        FileChooserResponse::Selected { paths, current_filter, choices } => Answer::Selected {
            paths: crate::prompter::byte_paths(paths@),
            current_filter: match current_filter {
                Some(filter) => Some(filter@),
                None => None,
            },
            choices: choices@.map_values(|c: (String, String)| (c.0@, c.1@)),
        },
        FileChooserResponse::Cancelled => Answer::Cancelled,
        FileChooserResponse::Failed { message } => Answer::Failed(message@),
    }
}

/// Everything the dialog's decisions rest on.
pub struct Model {
    pub request: FileChooserRequest,
    pub dir: Seq<u8>,
    pub entries: Seq<crate::chooser::EntryContent>,
    pub listing_error: Option<Seq<char>>,
    pub selected: Seq<Seq<u8>>,
    pub name: Seq<char>,
    pub name_caret: int,
    pub name_focused: bool,
    pub filters: Seq<crate::prompter::FilterContent>,
    pub filter_index: i32,
    pub choices: Seq<ChoiceState>,
    pub show_hidden: bool,
    pub last_click: Option<(Seq<u8>, u64)>,
    pub location: Seq<char>,
    pub location_caret: int,
    pub location_editing: bool,
    pub location_error: Option<Seq<char>>,
    pub focus_index: Option<usize>,
    pub scroll_to_index: Option<usize>,
    pub scroll_top: bool,
    pub back: Seq<Seq<u8>>,
    pub forward: Seq<Seq<u8>>,
    pub typed: Seq<char>,
    pub typed_at: Option<u64>,
    pub confirm_overwrite: Option<Seq<u8>>,
    pub confirm_open: bool,
    pub creating_folder: bool,
    pub folder_name: Seq<char>,
    pub folder_error: Option<Seq<char>>,
    pub folder_focus: bool,
    pub field_focused: bool,
    pub ctrl_held: bool,
    pub reload: bool,
    pub done: Option<Answer>,
}

/// The dialog.
pub struct State {
    pub request: FileChooserRequest,
    pub dir: BytePath,
    pub entries: Vec<Entry>,
    pub listing_error: Option<String>,
    pub selected: PathSet,
    /// The save name (`SaveFile` only).
    pub name: String,
    /// Caret as a byte index into `name`, always on a character boundary.
    pub name_caret: usize,
    /// Whether the save name owns typing.
    pub name_focused: bool,
    /// The filters offered in the footer: the request's filters, or the lone
    /// current filter promoted to the only choice.
    pub filters: Vec<FileFilter>,
    pub filter_index: i32,
    pub choices: Vec<ChoiceState>,
    pub show_hidden: bool,
    pub last_click: Option<(BytePath, u64)>,
    /// The type-a-path field, while `location_editing`.
    pub location: String,
    /// Caret as a byte index into `location`, always on a character boundary.
    pub location_caret: usize,
    pub location_editing: bool,
    /// Why the last typed path was rejected.
    pub location_error: Option<String>,
    /// The row the keyboard acts on, if any.
    pub focus_index: Option<usize>,
    /// Bring this row into view after the list is built.
    pub scroll_to_index: Option<usize>,
    /// Reset the listing scroll to the top.
    pub scroll_top: bool,
    /// Folders to go back to, the nearest last.
    pub back: Vec<BytePath>,
    /// Folders to go forward to, the nearest last.
    pub forward: Vec<BytePath>,
    /// Typeahead buffer and when the last character arrived.
    pub typed: String,
    pub typed_at: Option<u64>,
    /// The save target awaiting overwrite confirmation, if any.
    pub confirm_overwrite: Option<BytePath>,
    /// Open the overwrite confirmation on this frame.
    pub confirm_open: bool,
    /// The new-folder row is open.
    pub creating_folder: bool,
    pub folder_name: String,
    pub folder_error: Option<String>,
    /// Focus the new-folder field on this frame.
    pub folder_focus: bool,
    /// The new-folder field owned keyboard input last frame.
    pub field_focused: bool,
    /// Whether Ctrl/Super is held this frame (multi-select modifier).
    pub ctrl_held: bool,
    /// The listing has to be read again.
    pub reload: bool,
    pub done: Option<FileChooserResponse>,
}

/// The contents of a list of filters.
pub open spec fn filter_views(v: Seq<FileFilter>) -> Seq<crate::prompter::FilterContent> {
    v.map_values(|f: FileFilter| f@)
}

impl View for State {
    type V = Model;

    open spec fn view(&self) -> Model {
        Model {
            request: self.request,
            dir: self.dir@,
            entries: crate::chooser::rows_view(self.entries@),
            listing_error: crate::options::opt_text(self.listing_error),
            selected: self.selected@,
            name: self.name@,
            name_caret: self.name_caret as int,
            name_focused: self.name_focused,
            filters: filter_views(self.filters@),
            filter_index: self.filter_index,
            choices: self.choices@,
            show_hidden: self.show_hidden,
            last_click: match self.last_click {
                Some((path, when)) => Some((path@, when)),
                None => None,
            },
            location: self.location@,
            location_caret: self.location_caret as int,
            location_editing: self.location_editing,
            location_error: crate::options::opt_text(self.location_error),
            focus_index: self.focus_index,
            scroll_to_index: self.scroll_to_index,
            scroll_top: self.scroll_top,
            back: crate::prompter::byte_paths(self.back@),
            forward: crate::prompter::byte_paths(self.forward@),
            typed: self.typed@,
            typed_at: self.typed_at,
            confirm_overwrite: match self.confirm_overwrite {
                Some(path) => Some(path@),
                None => None,
            },
            confirm_open: self.confirm_open,
            creating_folder: self.creating_folder,
            folder_name: self.folder_name@,
            folder_error: crate::options::opt_text(self.folder_error),
            folder_focus: self.folder_focus,
            field_focused: self.field_focused,
            ctrl_held: self.ctrl_held,
            reload: self.reload,
            done: match self.done {
                Some(response) => Some(answer_of(response)),
                None => None,
            },
        }
    }
}

impl Model {
    /// Both carets stand on character boundaries, the filters are those that
    /// the request offers, every choice of the request has a value that fits
    /// it, and no more is selected than the request allows.
    pub open spec fn valid(self) -> bool {
        &&& edit::on_boundary(self.name, self.name_caret)
        &&& edit::on_boundary(self.location, self.location_caret)
        &&& offer_kept(self.request, self.filters, self.choices)
        &&& self.choices.len() == self.request.choices@.len()
        &&& self.multiple_allowed() || self.selected.len() <= 1
    }

    /// The filter currently narrowing the file list, if any.
    pub open spec fn active_filter(self) -> Option<crate::prompter::FilterContent> {
        let index = if self.filter_index < 0 {
            0
        } else {
            self.filter_index as int
        };
        if index < self.filters.len() {
            Some(self.filters[index])
        } else {
            None
        }
    }

    /// Whether folders (not just files) are valid selections.
    pub open spec fn dirs_selectable(self) -> bool {
        self.request.mode == FileChooserMode::OpenDirectory || self.request.mode
            == FileChooserMode::SaveFiles
    }

    /// Whether more than one path may be selected.
    pub open spec fn multiple_allowed(self) -> bool {
        (self.request.mode == FileChooserMode::OpenFile || self.request.mode
            == FileChooserMode::OpenDirectory) && self.request.multiple
    }

    /// The paths an accept would return, if the state is acceptable.
    pub open spec fn acceptable(self) -> Option<Seq<Seq<u8>>> {
        acceptable(self.request.mode, self.dir, self.selected, self.name)
    }

    /// The shared aftermath of every change of folder.
    pub open spec fn after_navigate(self) -> Model {
        Model {
            selected: Seq::empty(),
            last_click: None,
            location_editing: false,
            location_error: None,
            focus_index: None,
            scroll_to_index: None,
            scroll_top: true,
            typed: Seq::empty(),
            reload: true,
            ..self
        }
    }

    /// After going to a folder; a different one enters the history.
    pub open spec fn navigated(self, dir: Seq<u8>) -> Model {
        if crate::pathset::same_path(dir, self.dir) {
            self.after_navigate()
        } else {
            Model {
                dir,
                back: self.back.push(self.dir),
                forward: Seq::empty(),
                ..self
            }.after_navigate()
        }
    }

    /// After setting the save name, with the caret at its end.
    pub open spec fn named(self, name: Seq<char>) -> Model {
        Model { name, name_caret: edit::bytes(name).len() as int, ..self }
    }

    /// After making one path the whole selection.
    pub open spec fn only(self, path: Seq<u8>) -> Model {
        Model { selected: seq![path], ..self }
    }

    /// After toggling one path of the selection.
    pub open spec fn toggled(self, path: Seq<u8>) -> Model {
        Model {
            selected: if crate::pathset::member(self.selected, path) {
                crate::pathset::without_path(self.selected, path)
            } else {
                crate::pathset::with_path(self.selected, path)
            },
            ..self
        }
    }

    /// After giving an answer.
    pub open spec fn answered(self, answer: Answer) -> Model {
        Model { done: Some(answer), ..self }
    }
}

/// A value fits a choice: a boolean without options, or one of its options.
pub open spec fn choice_fits(choice: Choice, value: ChoiceState) -> bool {
    match value {
        ChoiceState::Bool(_) => choice.options@.len() == 0,
        ChoiceState::Options(index) => choice.options@.len() > 0 && index < choice.options@.len(),
    }
}

/// Every value fits its choice.
pub open spec fn choices_fit(choices: Seq<Choice>, values: Seq<ChoiceState>) -> bool {
    forall|i: int| 0 <= i < values.len() ==> choice_fits(choices[i], #[trigger] values[i])
}

/// The filters are those that the request offers, and every value fits its
/// choice.
#[verifier::opaque]
pub open spec fn offer_kept(
    request: FileChooserRequest,
    filters: Seq<crate::prompter::FilterContent>,
    choices: Seq<ChoiceState>,
) -> bool {
    &&& filters == offered_filters(request)
    &&& choices_fit(request.choices@, choices)
}

/// The choice value that a request starts with.
pub open spec fn initial_choice(choice: Choice) -> ChoiceState {
    if choice.options@.len() == 0 {
        ChoiceState::Bool(choice.selected@ == "true"@)
    } else {
        ChoiceState::Options(first_option(choice, choice.selected@, 0) as i32)
    }
}

/// The position of the first option with an id from position `k` on, or 0.
pub open spec fn first_option(choice: Choice, id: Seq<char>, k: int) -> int
    decreases choice.options@.len() - k,
{
    if k < 0 || k >= choice.options@.len() {
        0
    } else if choice.options@[k].0@ == id {
        k
    } else {
        first_option(choice, id, k + 1)
    }
}

/// The position of the first filter with a content from position `k` on, or 0.
pub open spec fn first_filter(
    filters: Seq<crate::prompter::FilterContent>,
    wanted: crate::prompter::FilterContent,
    k: int,
) -> int
    decreases filters.len() - k,
{
    if k < 0 || k >= filters.len() {
        0
    } else if filters[k] == wanted {
        k
    } else {
        first_filter(filters, wanted, k + 1)
    }
}

/// The filters that a request offers: its own, or its lone current filter.
pub open spec fn offered_filters(request: FileChooserRequest) -> Seq<
    crate::prompter::FilterContent,
> {
    if request.filters@.len() != 0 {
        filter_views(request.filters@)
    } else {
        match request.current_filter {
            Some(filter) => seq![filter@],
            None => Seq::empty(),
        }
    }
}

/// The folder in which a request starts: that of its file, or its folder, or
/// the home folder, or the root.
pub open spec fn start_dir(request: FileChooserRequest, home: Option<Seq<u8>>) -> Seq<u8> {
    if request.current_file is Some && crate::paths::parent(request.current_file->0@) is Some {
        crate::paths::parent(request.current_file->0@)->0
    } else if request.current_folder is Some {
        request.current_folder->0@
    } else if home is Some {
        home->0
    } else {
        seq![crate::paths::SLASH]
    }
}

/// The save name with which a request starts.
pub open spec fn start_name(request: FileChooserRequest) -> Seq<char> {
    if request.mode != FileChooserMode::SaveFile {
        Seq::empty()
    } else if request.current_name is Some {
        request.current_name->0@
    } else if request.current_file is Some && crate::paths::file_name(request.current_file->0@)
        is Some {
        crate::text::lossy(crate::paths::file_name(request.current_file->0@)->0)
    } else {
        Seq::empty()
    }
}

/// The state in which a dialog opens.
pub open spec fn opened(request: FileChooserRequest, home: Option<Seq<u8>>) -> Model {
    Model {
        request,
        dir: start_dir(request, home),
        entries: Seq::empty(),
        listing_error: None,
        selected: match request.current_file {
            Some(file) => seq![file@],
            None => Seq::empty(),
        },
        name: start_name(request),
        name_caret: edit::bytes(start_name(request)).len() as int,
        name_focused: request.mode == FileChooserMode::SaveFile,
        filters: offered_filters(request),
        filter_index: match request.current_filter {
            Some(filter) => first_filter(offered_filters(request), filter@, 0) as i32,
            None => 0,
        },
        choices: request.choices@.map_values(|c: Choice| initial_choice(c)),
        show_hidden: false,
        last_click: None,
        location: Seq::empty(),
        location_caret: 0,
        location_editing: false,
        location_error: None,
        focus_index: None,
        scroll_to_index: None,
        scroll_top: true,
        back: Seq::empty(),
        forward: Seq::empty(),
        typed: Seq::empty(),
        typed_at: None,
        confirm_overwrite: None,
        confirm_open: false,
        creating_folder: false,
        folder_name: Seq::empty(),
        folder_error: None,
        folder_focus: false,
        field_focused: false,
        ctrl_held: false,
        reload: true,
        done: None,
    }
}

fn copy_path(path: &BytePath) -> (p: BytePath)
    ensures
        p@ == path@,
{
    BytePath(vstd::slice::slice_to_vec(path.0.as_slice()))
}

fn copy_offered_filters(request: &FileChooserRequest) -> (v: Vec<FileFilter>)
    ensures
        filter_views(v@) == offered_filters(*request),
{
    let mut v: Vec<FileFilter> = Vec::new();
    if request.filters.len() == 0 {
        if let Some(filter) = &request.current_filter {
            v.push(filter.copy());
            assert(filter_views(v@) =~= seq![filter@]);
        } else {
            assert(filter_views(v@) =~= Seq::<crate::prompter::FilterContent>::empty());
        }
        return v;
    }
    let ghost all = filter_views(request.filters@);
    let mut i: usize = 0;
    while i < request.filters.len()
        invariant
            i <= request.filters@.len(),
            all == filter_views(request.filters@),
            filter_views(v@) == all.take(i as int),
        decreases request.filters@.len() - i,
    {
        let ghost before = v@;
        let filter = request.filters[i].copy();
        v.push(filter);
        assert(filter_views(v@) =~= filter_views(before).push(filter@));
        assert(all.take(i + 1) =~= all.take(i as int).push(all[i as int]));
        i = i + 1;
    }
    assert(all.take(i as int) =~= all);
    v
}

fn find_filter(filters: &Vec<FileFilter>, wanted: &FileFilter) -> (at: usize)
    ensures
        at == first_filter(filter_views(filters@), wanted@, 0),
{
    let ghost all = filter_views(filters@);
    let mut i: usize = 0;
    while i < filters.len()
        invariant
            i <= filters@.len(),
            all == filter_views(filters@),
            first_filter(all, wanted@, 0) == first_filter(all, wanted@, i as int),
        decreases filters@.len() - i,
    {
        assert(all[i as int] == filters@[i as int]@);
        if filters[i].same(wanted) {
            return i;
        }
        i = i + 1;
    }
    0
}

fn find_option(choice: &Choice) -> (at: usize)
    ensures
        at == first_option(*choice, choice.selected@, 0),
{
    let mut i: usize = 0;
    while i < choice.options.len()
        invariant
            i <= choice.options@.len(),
            first_option(*choice, choice.selected@, 0) == first_option(
                *choice,
                choice.selected@,
                i as int,
            ),
        decreases choice.options@.len() - i,
    {
        if same_text(choice.options[i].0.as_str(), choice.selected.as_str()) {
            return i;
        }
        i = i + 1;
    }
    0
}

/// The values that choices start with.
pub fn start_choices(choices: &Vec<Choice>) -> (v: Vec<ChoiceState>)
    ensures
        v@ == choices@.map_values(|c: Choice| initial_choice(c)),
{
    let ghost all = choices@.map_values(|c: Choice| initial_choice(c));
    let mut v: Vec<ChoiceState> = Vec::new();
    let mut i: usize = 0;
    while i < choices.len()
        invariant
            i <= choices@.len(),
            all == choices@.map_values(|c: Choice| initial_choice(c)),
            v@ == all.take(i as int),
        decreases choices@.len() - i,
    {
        let choice = &choices[i];
        let value: ChoiceState = if choice.options.len() == 0 {
            ChoiceState::Bool(same_text(choice.selected.as_str(), "true"))
        } else {
            ChoiceState::Options(find_option(choice) as i32)
        };
        v.push(value);
        assert(all[i as int] == initial_choice(*choice));
        assert(v@ =~= all.take(i + 1));
        i = i + 1;
    }
    assert(all.take(i as int) =~= all);
    v
}

proof fn first_option_in_range(choice: Choice, id: Seq<char>, k: int)
    requires
        0 <= k,
    ensures
        0 <= first_option(choice, id, k),
        choice.options@.len() > 0 ==> first_option(choice, id, k) < choice.options@.len(),
    decreases choice.options@.len() - k,
{
    if k < choice.options@.len() && choice.options@[k].0@ != id {
        first_option_in_range(choice, id, k + 1);
    }
}

impl State {
    /// Opens the dialog for a request. `home` is the home folder, if known.
    /// A choice's options are counted in 31 bits.
    pub fn new(request: FileChooserRequest, home: Option<BytePath>) -> (state: State)
        requires
            forall|i: int|
                0 <= i < request.choices@.len() ==> (#[trigger] request.choices@[i]).options@.len()
                    <= i32::MAX,
        ensures
            state@ == opened(
                request,
                match home {
                    Some(home) => Some(home@),
                    None => None,
                },
            ),
            state@.valid(),
    {
        let filters = copy_offered_filters(&request);
        let filter_index: i32 = match &request.current_filter {
            Some(filter) => find_filter(&filters, filter) as i32,
            None => 0,
        };
        let mut dir: Option<BytePath> = None;
        let mut selected = PathSet::new();
        let mut shown_name = String::new();
        if let Some(file) = &request.current_file {
            if let Some(parent) = parent_of(file.0.as_slice()) {
                dir = Some(BytePath(parent));
            }
            let _ = selected.insert(vstd::slice::slice_to_vec(file.0.as_slice()));
            if let Some(name) = file_name_of(file.0.as_slice()) {
                shown_name = lossy_text(name.as_slice());
            }
        }
        let dir: BytePath = match dir {
            Some(dir) => dir,
            None => match &request.current_folder {
                Some(folder) => copy_path(folder),
                None => match home {
                    Some(home) => home,
                    None => {
                        let mut root: Vec<u8> = Vec::new();
                        root.push(crate::paths::SLASH);
                        assert(root@ =~= seq![crate::paths::SLASH]);
                        BytePath(root)
                    },
                },
            },
        };
        let save: bool = request.mode == FileChooserMode::SaveFile;
        let name: String = if save {
            match &request.current_name {
                Some(name) => name.clone(),
                None => shown_name,
            }
        } else {
            String::new()
        };
        let choices = start_choices(&request.choices);
        let name_caret: usize = name.as_str().as_bytes().len();
        proof {
            boundaries(name@);
            boundaries(Seq::empty());
        }
        let state = State {
            request,
            dir,
            entries: Vec::new(),
            listing_error: None,
            selected,
            name,
            name_caret,
            name_focused: save,
            filters,
            filter_index,
            choices,
            show_hidden: false,
            last_click: None,
            location: String::new(),
            location_caret: 0,
            location_editing: false,
            location_error: None,
            focus_index: None,
            scroll_to_index: None,
            scroll_top: true,
            back: Vec::new(),
            forward: Vec::new(),
            typed: String::new(),
            typed_at: None,
            confirm_overwrite: None,
            confirm_open: false,
            creating_folder: false,
            folder_name: String::new(),
            folder_error: None,
            folder_focus: false,
            field_focused: false,
            ctrl_held: false,
            reload: true,
            done: None,
        };
        proof {
            reveal(offer_kept);
            let m = state@;
            assert forall|i: int| 0 <= i < m.choices.len() implies choice_fits(
                request.choices@[i],
                #[trigger] m.choices[i],
            ) by {
                let choice = request.choices@[i];
                assert(m.choices[i] == initial_choice(choice));
                first_option_in_range(choice, choice.selected@, 0);
            }
            assert(m.selected =~= (match request.current_file {
                Some(file) => seq![file@],
                None => Seq::empty(),
            }));
            assert(m.entries =~= Seq::<crate::chooser::EntryContent>::empty());
            assert(m.back =~= Seq::<Seq<u8>>::empty());
            assert(m.forward =~= Seq::<Seq<u8>>::empty());
        }
        state
    }
}

proof fn boundaries(s: Seq<char>)
    ensures
        edit::on_boundary(s, 0),
        edit::on_boundary(s, edit::bytes(s).len() as int),
{
    edit::boundaries_in_range(s, 0);
}


// ---------------------------------------------------------------------------
// Effects
// ---------------------------------------------------------------------------

/// A completion of the location field that waits for a directory listing.
pub struct Completion {
    /// The typed text up to and including the last `/`.
    pub dir_part: String,
    /// The typed text behind it.
    pub tail: String,
    /// The folder to read.
    pub base: BytePath,
    /// Resolve the location once it is completed.
    pub then_go: bool,
}

/// What has to be done outside before the dialog can go on.
pub enum Effect {
    Nothing,
    /// See whether something exists at this save target, then call
    /// [`State::target_probed`].
    Probe(BytePath),
    /// Call [`State::finish_accept`] with these paths.
    Finish(Vec<BytePath>),
    /// See what stands at this path, then call [`State::location_probed`].
    Resolve(BytePath),
    /// Read the folder, then call [`State::completed`].
    Complete(Completion),
    /// Create this folder, then call [`State::folder_created`].
    CreateFolder(BytePath),
}

/// What an effect says.
pub enum EffectContent {
    Nothing,
    Probe(Seq<u8>),
    Finish(Seq<Seq<u8>>),
    Resolve(Seq<u8>),
    Complete { dir_part: Seq<char>, tail: Seq<char>, base: Seq<u8>, then_go: bool },
    CreateFolder(Seq<u8>),
}

impl View for Effect {
    type V = EffectContent;

    open spec fn view(&self) -> EffectContent {
        match self {
            Effect::Nothing => EffectContent::Nothing,
            Effect::Probe(path) => EffectContent::Probe(path@),
            Effect::Finish(paths) => EffectContent::Finish(crate::prompter::byte_paths(paths@)),
            Effect::Resolve(path) => EffectContent::Resolve(path@),
            Effect::Complete(completion) => EffectContent::Complete {
                dir_part: completion.dir_part@,
                tail: completion.tail@,
                base: completion.base@,
                then_go: completion.then_go,
            },
            Effect::CreateFolder(path) => EffectContent::CreateFolder(path@),
        }
    }
}

// ---------------------------------------------------------------------------
// Accepting
// ---------------------------------------------------------------------------

/// The text of a choice's current value.
pub open spec fn choice_text(choice: Choice, value: ChoiceState) -> Seq<char> {
    match value {
        ChoiceState::Bool(on) => if on {
            "true"@
        } else {
            "false"@
        },
        ChoiceState::Options(index) => {
            let at = if index < 0 {
                0
            } else {
                index as int
            };
            if at < choice.options@.len() {
                choice.options@[at].0@
            } else {
                Seq::empty()
            }
        },
    }
}

/// The value of every choice, by id, in order.
pub open spec fn collected(choices: Seq<Choice>, values: Seq<ChoiceState>) -> Seq<
    (Seq<char>, Seq<char>),
> {
    Seq::new(choices.len(), |i: int| (choices[i].id@, choice_text(choices[i], values[i])))
}

impl Model {
    /// The value of every choice, by id, in request order.
    pub open spec fn collected_choices(self) -> Seq<(Seq<char>, Seq<char>)> {
        collected(self.request.choices@, self.choices)
    }

    /// What accepting needs first: nothing when the state is not acceptable;
    /// a look at the target when saving, unless forced.
    pub open spec fn accept_effect(self, force: bool) -> EffectContent {
        match self.acceptable() {
            None => EffectContent::Nothing,
            Some(paths) => if !force && self.request.mode == FileChooserMode::SaveFile {
                EffectContent::Probe(paths[0])
            } else {
                EffectContent::Finish(paths)
            },
        }
    }

    /// The answer for finished paths.
    pub open spec fn answer_for(self, result: Result<Seq<Seq<u8>>, Seq<char>>) -> Answer {
        match result {
            Ok(paths) => Answer::Selected {
                paths,
                current_filter: self.active_filter(),
                choices: self.collected_choices(),
            },
            Err(message) => Answer::Failed(message),
        }
    }
}

/// The value of every choice, by id, in order.
pub fn collect_choices(choices: &Vec<Choice>, values: &Vec<ChoiceState>) -> (v: Vec<
    (String, String),
>)
    requires
        choices@.len() <= values@.len(),
    ensures
        v@.map_values(|c: (String, String)| (c.0@, c.1@)) == collected(choices@, values@),
{
    let ghost all = collected(choices@, values@);
    let mut v: Vec<(String, String)> = Vec::new();
    let mut i: usize = 0;
    while i < choices.len()
        invariant
            i <= choices@.len() <= values@.len(),
            all == collected(choices@, values@),
            v@.map_values(|c: (String, String)| (c.0@, c.1@)) == all.take(i as int),
        decreases choices@.len() - i,
    {
        let choice = &choices[i];
        let text: String = match values[i] {
            ChoiceState::Bool(on) => if on {
                "true".to_owned()
            } else {
                "false".to_owned()
            },
            ChoiceState::Options(index) => {
                let at: usize = if index < 0 {
                    0
                } else {
                    index as usize
                };
                if at < choice.options.len() {
                    choice.options[at].0.clone()
                } else {
                    String::new()
                }
            },
        };
        let ghost before = v@;
        let pair = (choice.id.clone(), text);
        v.push(pair);
        proof {
            let f = |c: (String, String)| (c.0@, c.1@);
            assert(all[i as int] == (pair.0@, pair.1@));
            assert(v@.map_values(f) =~= before.map_values(f).push((pair.0@, pair.1@)));
            assert(all.take(i + 1) =~= all.take(i as int).push(all[i as int]));
        }
        i = i + 1;
    }
    assert(all.take(i as int) =~= all);
    v
}

impl State {
    /// The filter currently narrowing the file list, if any.
    pub fn active_filter(&self) -> (filter: Option<&FileFilter>)
        ensures
            match filter {
                Some(filter) => self@.active_filter() == Some(filter@),
                None => self@.active_filter() is None,
            },
    {
        let index: usize = if self.filter_index < 0 {
            0
        } else {
            self.filter_index as usize
        };
        if index < self.filters.len() {
            assert(self@.filters[index as int] == self.filters@[index as int]@);
            Some(&self.filters[index])
        } else {
            None
        }
    }

    /// Whether folders (not just files) are valid selections.
    pub fn dirs_selectable(&self) -> (yes: bool)
        ensures
            yes == self@.dirs_selectable(),
    {
        self.request.mode == FileChooserMode::OpenDirectory || self.request.mode
            == FileChooserMode::SaveFiles
    }

    /// Whether more than one path may be selected.
    pub fn multiple_allowed(&self) -> (yes: bool)
        ensures
            yes == self@.multiple_allowed(),
    {
        (self.request.mode == FileChooserMode::OpenFile || self.request.mode
            == FileChooserMode::OpenDirectory) && self.request.multiple
    }

    /// The current state can be accepted.
    pub fn accept_valid(&self) -> (yes: bool)
        ensures
            yes == self@.acceptable() is Some,
    {
        accept_paths(
            self.request.mode,
            &self.dir,
            &self.selected,
            self.name.as_str(),
        ).is_some()
    }

    /// Accepts the current selection. In save mode an existing target first
    /// asks for confirmation; `force` skips that check.
    pub fn accept_checked(&self, force: bool) -> (effect: Effect)
        ensures
            effect@ == self@.accept_effect(force),
    {
        match accept_paths(self.request.mode, &self.dir, &self.selected, self.name.as_str()) {
            None => Effect::Nothing,
            Some(paths) => {
                if !force && self.request.mode == FileChooserMode::SaveFile {
                    assert(crate::prompter::byte_paths(paths@).len() == paths@.len());
                    Effect::Probe(copy_path(&paths[0]))
                } else {
                    Effect::Finish(paths)
                }
            },
        }
    }

    /// Accepts the current selection, asking before anything is overwritten.
    pub fn accept(&self) -> (effect: Effect)
        ensures
            effect@ == self@.accept_effect(false),
    {
        self.accept_checked(false)
    }

    /// Goes on with a save once the target was looked at: an existing one
    /// asks for confirmation.
    pub fn target_probed(&mut self, target: BytePath, exists: bool) -> (effect: Effect)
        requires
            old(self)@.valid(),
        ensures
            exists ==> effect@ == EffectContent::Nothing && final(self)@ == (Model {
                confirm_overwrite: Some(target@),
                confirm_open: true,
                ..old(self)@
            }),
            !exists ==> effect@ == EffectContent::Finish(seq![target@]) && final(self)@
                == old(self)@,
            final(self)@.valid(),
    {
        if exists {
            self.confirm_overwrite = Some(target);
            self.confirm_open = true;
            return Effect::Nothing;
        }
        Effect::Finish(one_path(target.0.as_slice()))
    }

    /// Gives the final answer for accepted paths. `occupied` tells whether
    /// something stands at a path; it is asked for `SaveFiles` only.
    pub fn finish_accept<F: Fn(&Vec<u8>) -> bool>(&mut self, paths: Vec<BytePath>, occupied: &F)
        requires
            old(self)@.valid(),
            forall|v: Vec<u8>| call_requires(*occupied, (&v,)),
        ensures
            accepted(old(self)@, crate::prompter::byte_paths(paths@), *occupied, final(self)@),
            final(self)@.valid(),
    {
        let ghost wanted = crate::prompter::byte_paths(paths@);
        let result = self.request.finish_paths(paths, occupied);
        let ghost view = crate::prompter::finished_view(result);
        let response: FileChooserResponse = match result {
            Ok(paths) => {
                let current_filter: Option<FileFilter> = match self.active_filter() {
                    Some(filter) => Some(filter.copy()),
                    None => None,
                };
                FileChooserResponse::Selected {
                    paths,
                    current_filter,
                    choices: collect_choices(&self.request.choices, &self.choices),
                }
            },
            Err(message) => FileChooserResponse::Failed { message },
        };
        assert(answer_of(response) == old(self)@.answer_for(view));
        self.done = Some(response);
        assert(self@ == old(self)@.answered(old(self)@.answer_for(view)));
        assert(accepted_with(old(self)@, wanted, *occupied, self@, view));
        assert(accepted(old(self)@, wanted, *occupied, self@));
    }

    /// Cancels the dialog.
    pub fn cancel(&mut self)
        requires
            old(self)@.valid(),
        ensures
            final(self)@ == old(self)@.answered(Answer::Cancelled),
            final(self)@.valid(),
    {
        self.done = Some(FileChooserResponse::Cancelled);
    }
}

/// The answer was given for one outcome of finishing the paths.
pub open spec fn accepted_with<F: Fn(&Vec<u8>) -> bool>(
    before: Model,
    paths: Seq<Seq<u8>>,
    occupied: F,
    after: Model,
    result: Result<Seq<Seq<u8>>, Seq<char>>,
) -> bool {
    &&& crate::prompter::finished(before.request, paths, occupied, result)
    &&& after == before.answered(before.answer_for(result))
}

/// The answer was given for what finishing the paths gives.
pub open spec fn accepted<F: Fn(&Vec<u8>) -> bool>(
    before: Model,
    paths: Seq<Seq<u8>>,
    occupied: F,
    after: Model,
) -> bool {
    exists|result: Result<Seq<Seq<u8>>, Seq<char>>| #[trigger]
        accepted_with(before, paths, occupied, after, result)
}

// ---------------------------------------------------------------------------
// Navigating
// ---------------------------------------------------------------------------

impl Model {
    /// After going back in the history, if there is a folder to go back to.
    pub open spec fn went_back(self) -> Model {
        if self.back.len() == 0 {
            self
        } else {
            Model {
                dir: self.back.last(),
                back: self.back.drop_last(),
                forward: self.forward.push(self.dir),
                ..self
            }.after_navigate()
        }
    }

    /// After going forward in the history, if there is a folder to go to.
    pub open spec fn went_forward(self) -> Model {
        if self.forward.len() == 0 {
            self
        } else {
            Model {
                dir: self.forward.last(),
                forward: self.forward.drop_last(),
                back: self.back.push(self.dir),
                ..self
            }.after_navigate()
        }
    }

    /// After going to the parent folder, if there is one.
    pub open spec fn went_up(self) -> Model {
        match crate::paths::parent(self.dir) {
            Some(parent) => self.navigated(parent),
            None => self,
        }
    }

    /// After opening the location field.
    pub open spec fn locating(self, seed: Seq<char>) -> Model {
        Model {
            location: seed,
            location_caret: edit::bytes(seed).len() as int,
            location_editing: true,
            location_error: None,
            ..self
        }
    }

    /// After choosing another filter.
    pub open spec fn filtered(self, index: i32) -> Model {
        Model { filter_index: index, focus_index: None, scroll_top: true, reload: true, ..self }
    }

    /// After opening the new-folder row.
    pub open spec fn naming_folder(self) -> Model {
        Model {
            creating_folder: true,
            folder_focus: true,
            folder_error: None,
            folder_name: Seq::empty(),
            name_focused: false,
            ..self
        }
    }
}

/// Going forward undoes going back: the folder, and the folders to go back
/// and forward to, are what they were.
pub proof fn forward_undoes_back(m: Model)
    requires
        m.back.len() > 0,
    ensures
        m.went_back().went_forward().dir == m.dir,
        m.went_back().went_forward().back == m.back,
        m.went_back().went_forward().forward == m.forward,
{
    let b = m.went_back();
    assert(b.forward.drop_last() =~= m.forward);
    assert(b.back.push(b.dir) =~= m.back);
}

/// Going back undoes a navigation to another folder.
pub proof fn back_undoes_navigation(m: Model, dir: Seq<u8>)
    requires
        !crate::pathset::same_path(dir, m.dir),
    ensures
        m.navigated(dir).went_back().dir == m.dir,
        m.navigated(dir).went_back().back == m.back,
        m.navigated(dir).went_back().forward == seq![dir],
{
    let n = m.navigated(dir);
    assert(n.back.drop_last() =~= m.back);
    assert(n.forward.push(n.dir) =~= seq![dir]);
}

impl State {
    /// Takes over a fresh listing of the folder, or why it could not be read.
    pub fn reload_entries(&mut self, listing: Result<Vec<DirItem>, String>)
        requires
            old(self)@.valid(),
        ensures
            match listing {
                Ok(items) => {
                    &&& crate::chooser::listed(
                        crate::chooser::shown_rows(
                            old(self)@.dir,
                            items@,
                            old(self)@.show_hidden,
                            old(self)@.active_filter(),
                        ),
                        final(self)@.entries,
                    )
                    &&& final(self)@ == (Model {
                        entries: final(self)@.entries,
                        listing_error: None,
                        reload: false,
                        ..old(self)@
                    })
                },
                Err(error) => final(self)@ == (Model {
                    entries: Seq::empty(),
                    listing_error: Some(error@),
                    reload: false,
                    ..old(self)@
                }),
            },
            final(self)@.valid(),
    {
        match listing {
            Ok(items) => {
                let entries = list_dir(
                    self.dir.0.as_slice(),
                    &items,
                    self.show_hidden,
                    self.active_filter(),
                );
                self.entries = entries;
                self.listing_error = None;
            },
            Err(error) => {
                self.entries = Vec::new();
                assert(crate::chooser::rows_view(self.entries@) =~= Seq::<
                    crate::chooser::EntryContent,
                >::empty());
                self.listing_error = Some(error);
            },
        }
        self.reload = false;
    }

    fn after_navigate(&mut self)
        requires
            old(self)@.valid(),
        ensures
            final(self)@ == old(self)@.after_navigate(),
            final(self)@.valid(),
    {
        self.selected.clear();
        self.last_click = None;
        self.location_editing = false;
        self.location_error = None;
        self.focus_index = None;
        self.scroll_to_index = None;
        self.scroll_top = true;
        self.typed = String::new();
        self.reload = true;
    }

    /// Goes to a folder. A different one enters the history.
    pub fn navigate(&mut self, dir: BytePath)
        requires
            old(self)@.valid(),
        ensures
            final(self)@ == old(self)@.navigated(dir@),
            final(self)@.valid(),
    {
        let ghost before = self@;
        match order_paths(dir.0.as_slice(), self.dir.0.as_slice()) {
            Order::Same => {},
            _ => {
                let from = copy_path(&self.dir);
                self.back.push(from);
                assert(self@.back =~= before.back.push(before.dir));
                self.forward = Vec::new();
                assert(self@.forward =~= Seq::<Seq<u8>>::empty());
                self.dir = dir;
            },
        }
        self.after_navigate();
    }

    /// Goes back in the history.
    pub fn go_back(&mut self)
        requires
            old(self)@.valid(),
        ensures
            final(self)@ == old(self)@.went_back(),
            final(self)@.valid(),
    {
        let ghost before = self@;
        if let Some(target) = self.back.pop() {
            assert(self@.back =~= before.back.drop_last());
            assert(before.back.last() == target@);
            let from = copy_path(&self.dir);
            self.forward.push(from);
            assert(self@.forward =~= before.forward.push(before.dir));
            self.dir = target;
            self.after_navigate();
        } else {
            assert(self@.back =~= before.back);
        }
    }

    /// Goes forward in the history.
    pub fn go_forward(&mut self)
        requires
            old(self)@.valid(),
        ensures
            final(self)@ == old(self)@.went_forward(),
            final(self)@.valid(),
    {
        let ghost before = self@;
        if let Some(target) = self.forward.pop() {
            assert(self@.forward =~= before.forward.drop_last());
            assert(before.forward.last() == target@);
            let from = copy_path(&self.dir);
            self.back.push(from);
            assert(self@.back =~= before.back.push(before.dir));
            self.dir = target;
            self.after_navigate();
        } else {
            assert(self@.forward =~= before.forward);
        }
    }

    /// Goes to the parent folder.
    pub fn go_parent(&mut self)
        requires
            old(self)@.valid(),
        ensures
            final(self)@ == old(self)@.went_up(),
            final(self)@.valid(),
    {
        if let Some(parent) = parent_of(self.dir.0.as_slice()) {
            self.navigate(BytePath(parent));
        }
    }

    /// A shortcut or an ancestor was clicked: the browsed folder stays.
    pub fn place_clicked(&mut self, path: BytePath)
        requires
            old(self)@.valid(),
        ensures
            final(self)@ == (if crate::pathset::same_path(old(self)@.dir, path@) {
                old(self)@
            } else {
                old(self)@.navigated(path@)
            }),
            final(self)@.valid(),
    {
        match order_paths(self.dir.0.as_slice(), path.0.as_slice()) {
            Order::Same => {},
            _ => {
                self.navigate(path);
            },
        }
    }

    /// Opens the location field with `seed` as content, caret at the end.
    #[verifier::rlimit(40)]
    pub fn open_location(&mut self, seed: String)
        requires
            old(self)@.valid(),
        ensures
            final(self)@ == old(self)@.locating(seed@),
            final(self)@.valid(),
    {
        proof {
            boundaries(seed@);
        }
        self.location_editing = true;
        self.location_error = None;
        self.location_caret = seed.as_str().as_bytes().len();
        self.location = seed;
    }

    /// Opens the location field seeded with the browsed folder.
    pub fn start_location_edit(&mut self)
        requires
            old(self)@.valid(),
        ensures
            final(self)@ == old(self)@.locating(crate::text::lossy(old(self)@.dir)),
            final(self)@.valid(),
    {
        let seed = lossy_text(self.dir.0.as_slice());
        self.open_location(seed);
    }

    /// Sets the save name, caret to the end.
    #[verifier::rlimit(40)]
    pub fn set_name(&mut self, name: &str)
        requires
            old(self)@.valid(),
        ensures
            final(self)@ == old(self)@.named(name@),
            final(self)@.valid(),
    {
        proof {
            boundaries(name@);
        }
        let text = name.to_owned();
        self.name_caret = name.as_bytes().len();
        self.name = text;
    }

    /// Another filter was chosen.
    pub fn filter_changed(&mut self, index: i32)
        requires
            old(self)@.valid(),
        ensures
            final(self)@ == old(self)@.filtered(index),
            final(self)@.valid(),
    {
        self.filter_index = index;
        self.focus_index = None;
        self.scroll_top = true;
        self.reload = true;
    }

    /// The value of one embedded choice was changed.
    pub fn choice_changed(&mut self, index: usize, value: ChoiceState)
        requires
            old(self)@.valid(),
            index < old(self)@.choices.len(),
            choice_fits(old(self)@.request.choices@[index as int], value),
        ensures
            final(self)@ == (Model {
                choices: old(self)@.choices.update(index as int, value),
                ..old(self)@
            }),
            final(self)@.valid(),
    {
        proof {
            reveal(offer_kept);
        }
        self.choices.set(index, value);
    }

    /// The pointer acted on the save name field: a click focuses it, a press
    /// anywhere else takes the focus away.
    pub fn name_pointer(&mut self, clicked: bool, pressed_elsewhere: bool)
        requires
            old(self)@.valid(),
        ensures
            final(self)@ == (Model {
                name_focused: clicked || (old(self)@.name_focused && !pressed_elsewhere),
                ..old(self)@
            }),
            final(self)@.valid(),
    {
        if clicked {
            self.name_focused = true;
        } else if pressed_elsewhere {
            self.name_focused = false;
        }
    }
}


// ---------------------------------------------------------------------------
// Rows
// ---------------------------------------------------------------------------

impl Model {
    /// After moving the keyboard cursor to a row and bringing it into view.
    pub open spec fn with_cursor(self, index: usize) -> Model {
        Model { focus_index: Some(index), scroll_to_index: Some(index), ..self }
    }

    /// After setting the keyboard cursor on a row; the selection follows
    /// unless Ctrl is held.
    pub open spec fn focused(self, index: usize) -> Model {
        let moved = self.with_cursor(index);
        if index >= self.entries.len() || self.ctrl_held {
            moved
        } else {
            let entry = self.entries[index as int];
            match self.request.mode {
                FileChooserMode::OpenFile => if entry.is_dir {
                    moved
                } else {
                    moved.only(entry.path)
                },
                FileChooserMode::SaveFile => if entry.is_dir {
                    moved
                } else {
                    moved.named(entry.name)
                },
                FileChooserMode::OpenDirectory | FileChooserMode::SaveFiles => if entry.is_dir {
                    moved.only(entry.path)
                } else {
                    moved
                },
            }
        }
    }

    /// The row on which the cursor lands when it moves one row up or down:
    /// it stops at both ends, and enters from the end it comes from.
    pub open spec fn next_row(self, down: bool) -> int {
        let len = self.entries.len() as int;
        match self.focus_index {
            None => if down {
                0
            } else {
                len - 1
            },
            Some(index) => {
                let next = if down {
                    index + 1
                } else {
                    index - 1
                };
                if next < 0 {
                    0
                } else if next > len - 1 {
                    len - 1
                } else {
                    next
                }
            },
        }
    }

    /// After moving the keyboard cursor one row.
    pub open spec fn cursor_moved(self, down: bool) -> Model {
        if self.entries.len() == 0 {
            self
        } else {
            self.focused(self.next_row(down) as usize)
        }
    }

    /// The row under the keyboard cursor.
    pub open spec fn focused_entry(self) -> Option<crate::chooser::EntryContent> {
        match self.focus_index {
            Some(index) => if index < self.entries.len() {
                Some(self.entries[index as int])
            } else {
                None
            },
            None => None,
        }
    }

    /// After toggling the focused row, if the mode selects rows of its kind.
    pub open spec fn focus_toggled(self) -> Model {
        match self.focused_entry() {
            None => self,
            Some(entry) => if entry.is_dir && !self.dirs_selectable() {
                self
            } else if !entry.is_dir && self.request.mode != FileChooserMode::OpenFile {
                self
            } else {
                self.toggled(entry.path)
            },
        }
    }

    /// After activating a row: folders open, files open directly or give
    /// their name to the save field.
    pub open spec fn activated(self, entry: crate::chooser::EntryContent) -> (Model, EffectContent) {
        if entry.is_dir {
            (self.navigated(entry.path), EffectContent::Nothing)
        } else {
            match self.request.mode {
                FileChooserMode::OpenFile => {
                    let chosen = self.only(entry.path);
                    (chosen, chosen.accept_effect(false))
                },
                FileChooserMode::SaveFile => (self.named(entry.name), EffectContent::Nothing),
                FileChooserMode::OpenDirectory | FileChooserMode::SaveFiles => (
                    self,
                    EffectContent::Nothing,
                ),
            }
        }
    }

    /// After a click on a path: Ctrl toggles where several may be selected,
    /// otherwise the clicked path becomes the whole selection.
    pub open spec fn clicked(self, path: Seq<u8>) -> Model {
        if self.multiple_allowed() && self.ctrl_held {
            self.toggled(path)
        } else if self.multiple_allowed() && self.selected.len() == 1 && crate::pathset::member(
            self.selected,
            path,
        ) {
            self
        } else {
            self.only(path)
        }
    }

    /// A click comes soon enough after one on the same path.
    pub open spec fn is_double(self, path: Seq<u8>, now: u64) -> bool {
        match self.last_click {
            Some((last, when)) => crate::pathset::same_path(last, path) && now - when
                < DOUBLE_CLICK,
            None => false,
        }
    }

    /// After noting a click on a row.
    pub open spec fn with_click(self, index: usize, path: Seq<u8>, now: u64) -> Model {
        Model { focus_index: Some(index), last_click: Some((path, now)), ..self }
    }

    /// After a click on a row.
    pub open spec fn row_clicked(
        self,
        index: usize,
        entry: crate::chooser::EntryContent,
        now: u64,
    ) -> (Model, EffectContent) {
        let noted = self.with_click(index, entry.path, now);
        if self.is_double(entry.path, now) {
            noted.activated(entry)
        } else if entry.is_dir {
            if self.dirs_selectable() {
                (noted.clicked(entry.path), EffectContent::Nothing)
            } else {
                (noted, EffectContent::Nothing)
            }
        } else {
            match self.request.mode {
                FileChooserMode::OpenFile => (noted.clicked(entry.path), EffectContent::Nothing),
                FileChooserMode::SaveFile => (noted.named(entry.name), EffectContent::Nothing),
                FileChooserMode::OpenDirectory | FileChooserMode::SaveFiles => (
                    noted,
                    EffectContent::Nothing,
                ),
            }
        }
    }

    /// After Enter: it activates the focused row, or else accepts.
    pub open spec fn entered(self) -> (Model, EffectContent) {
        match self.focused_entry() {
            Some(entry) => self.activated(entry),
            None => (self, self.accept_effect(false)),
        }
    }

    /// After noting typed characters: they accumulate for a moment.
    pub open spec fn noted(self, text: Seq<char>, now: u64) -> Model {
        let fresh = self.typed_at is Some && now - self.typed_at->0 < TYPEAHEAD_WINDOW;
        Model {
            typed: if fresh {
                self.typed + text
            } else {
                text
            },
            typed_at: Some(now),
            ..self
        }
    }

    /// After typing over the listing: the cursor moves to the first row whose
    /// name starts with the characters noted so far.
    pub open spec fn searched(self, text: Seq<char>, now: u64) -> Model {
        let noted = self.noted(text, now);
        let at = first_named(noted.entries, noted.typed, 0);
        if at < noted.entries.len() {
            noted.focused(at as usize)
        } else {
            noted
        }
    }
}

/// The position of the first row from `k` on whose name starts with a text,
/// or the number of rows.
pub open spec fn first_named(
    entries: Seq<crate::chooser::EntryContent>,
    prefix: Seq<char>,
    k: int,
) -> int
    decreases entries.len() - k,
{
    if k < 0 || k >= entries.len() {
        entries.len() as int
    } else if prefix.is_prefix_of(entries[k].name) {
        k
    } else {
        first_named(entries, prefix, k + 1)
    }
}

/// The first row whose name starts with a text.
pub fn typeahead_index(entries: &Vec<Entry>, prefix: &str) -> (at: Option<usize>)
    ensures
        match at {
            Some(at) => at == first_named(crate::chooser::rows_view(entries@), prefix@, 0) && at
                < entries@.len(),
            None => first_named(crate::chooser::rows_view(entries@), prefix@, 0)
                == entries@.len(),
        },
{
    let ghost rows = crate::chooser::rows_view(entries@);
    let mut i: usize = 0;
    while i < entries.len()
        invariant
            i <= entries@.len(),
            rows == crate::chooser::rows_view(entries@),
            first_named(rows, prefix@, 0) == first_named(rows, prefix@, i as int),
        decreases entries@.len() - i,
    {
        assert(rows[i as int] == entries@[i as int]@);
        if begins_with(entries[i].name.as_str(), prefix) {
            return Some(i);
        }
        i = i + 1;
    }
    None
}

/// Milliseconds from `when` to `now`.
fn elapsed(when: u64, now: u64) -> (ms: u64)
    ensures
        ms == (if now < when {
            0
        } else {
            now - when
        }),
{
    if now < when {
        0
    } else {
        now - when
    }
}

impl State {
    fn select_only(&mut self, path: &BytePath)
        requires
            old(self)@.valid(),
        ensures
            final(self)@ == old(self)@.only(path@),
            final(self)@.valid(),
    {
        self.selected.clear();
        let _ = self.selected.insert(vstd::slice::slice_to_vec(path.0.as_slice()));
        assert(self@.selected =~= seq![path@]);
    }

    fn toggle(&mut self, path: &BytePath)
        requires
            old(self)@.valid(),
            old(self)@.multiple_allowed(),
        ensures
            final(self)@ == old(self)@.toggled(path@),
            final(self)@.valid(),
    {
        if !self.selected.remove(path.0.as_slice()) {
            let _ = self.selected.insert(vstd::slice::slice_to_vec(path.0.as_slice()));
        }
    }

    fn row(&self, index: usize) -> (entry: Entry)
        requires
            index < self@.entries.len(),
        ensures
            entry@ == self@.entries[index as int],
    {
        self.entries[index].copy()
    }

    fn put_cursor(&mut self, index: usize)
        requires
            old(self)@.valid(),
        ensures
            final(self)@ == old(self)@.with_cursor(index),
            final(self)@.valid(),
    {
        self.focus_index = Some(index);
        self.scroll_to_index = Some(index);
    }

    /// Sets the keyboard cursor on a row; the selection follows unless Ctrl
    /// is held (then only the cursor moves).
    pub fn focus_to(&mut self, index: usize)
        requires
            old(self)@.valid(),
        ensures
            final(self)@ == old(self)@.focused(index),
            final(self)@.valid(),
    {
        self.put_cursor(index);
        if index >= self.entries.len() || self.ctrl_held {
            return;
        }
        let entry = self.row(index);
        match self.request.mode {
            FileChooserMode::OpenFile => {
                if !entry.is_dir {
                    self.select_only(&entry.path);
                }
            },
            FileChooserMode::SaveFile => {
                if !entry.is_dir {
                    self.set_name(entry.name.as_str());
                }
            },
            FileChooserMode::OpenDirectory | FileChooserMode::SaveFiles => {
                if entry.is_dir {
                    self.select_only(&entry.path);
                }
            },
        }
    }

    /// Moves the keyboard cursor one row, clamped to the listing.
    pub fn focus_move(&mut self, down: bool)
        requires
            old(self)@.valid(),
        ensures
            final(self)@ == old(self)@.cursor_moved(down),
            final(self)@.valid(),
    {
        let len: usize = self.entries.len();
        if len == 0 {
            return;
        }
        let next: usize = match self.focus_index {
            None => if down {
                0
            } else {
                len - 1
            },
            Some(index) => if down {
                if index >= len - 1 {
                    len - 1
                } else {
                    index + 1
                }
            } else if index == 0 {
                0
            } else if index - 1 > len - 1 {
                len - 1
            } else {
                index - 1
            },
        };
        self.focus_to(next);
    }

    fn focused_row(&self) -> (entry: Option<Entry>)
        ensures
            match entry {
                Some(entry) => self@.focused_entry() == Some(entry@),
                None => self@.focused_entry() is None,
            },
    {
        match self.focus_index {
            Some(index) => if index < self.entries.len() {
                Some(self.row(index))
            } else {
                None
            },
            None => None,
        }
    }

    /// Toggles the focused row's selection, where several may be selected.
    pub fn toggle_focused(&mut self)
        requires
            old(self)@.valid(),
            old(self)@.multiple_allowed(),
        ensures
            final(self)@ == old(self)@.focus_toggled(),
            final(self)@.valid(),
    {
        if let Some(entry) = self.focused_row() {
            if entry.is_dir && !self.dirs_selectable() {
                return;
            }
            if !entry.is_dir && self.request.mode != FileChooserMode::OpenFile {
                return;
            }
            self.toggle(&entry.path);
        }
    }

    /// Opens a folder, opens a file directly, or takes a file's name over.
    pub fn activate_entry(&mut self, entry: &Entry) -> (effect: Effect)
        requires
            old(self)@.valid(),
        ensures
            (final(self)@, effect@) == old(self)@.activated(entry@),
            final(self)@.valid(),
    {
        if entry.is_dir {
            self.navigate(copy_path(&entry.path));
            return Effect::Nothing;
        }
        match self.request.mode {
            FileChooserMode::OpenFile => {
                self.select_only(&entry.path);
                self.accept()
            },
            FileChooserMode::SaveFile => {
                self.set_name(entry.name.as_str());
                Effect::Nothing
            },
            FileChooserMode::OpenDirectory | FileChooserMode::SaveFiles => Effect::Nothing,
        }
    }

    /// Applies a click to the selection.
    pub fn select(&mut self, path: &BytePath)
        requires
            old(self)@.valid(),
        ensures
            final(self)@ == old(self)@.clicked(path@),
            final(self)@.valid(),
    {
        if self.multiple_allowed() {
            if self.ctrl_held {
                self.toggle(path);
            } else if !(self.selected.len() == 1 && self.selected.contains(path.0.as_slice())) {
                self.select_only(path);
            }
        } else {
            self.select_only(path);
        }
    }

    fn note_click(&mut self, index: usize, path: &BytePath, now: u64) -> (double: bool)
        requires
            old(self)@.valid(),
        ensures
            double == old(self)@.is_double(path@, now),
            final(self)@ == old(self)@.with_click(index, path@, now),
            final(self)@.valid(),
    {
        let double: bool = match &self.last_click {
            Some((last, when)) => match order_paths(last.0.as_slice(), path.0.as_slice()) {
                Order::Same => elapsed(*when, now) < DOUBLE_CLICK,
                _ => false,
            },
            None => false,
        };
        self.focus_index = Some(index);
        self.last_click = Some((copy_path(path), now));
        double
    }

    /// A row was clicked at time `now`: a single click moves the cursor and
    /// selects, a double click activates.
    pub fn handle_click(&mut self, index: usize, entry: &Entry, now: u64) -> (effect: Effect)
        requires
            old(self)@.valid(),
        ensures
            (final(self)@, effect@) == old(self)@.row_clicked(index, entry@, now),
            final(self)@.valid(),
    {
        let double: bool = self.note_click(index, &entry.path, now);
        if double {
            return self.activate_entry(entry);
        }
        if entry.is_dir {
            if self.dirs_selectable() {
                self.select(&entry.path);
            }
            return Effect::Nothing;
        }
        match self.request.mode {
            FileChooserMode::OpenFile => {
                self.select(&entry.path);
            },
            FileChooserMode::SaveFile => {
                self.set_name(entry.name.as_str());
            },
            FileChooserMode::OpenDirectory | FileChooserMode::SaveFiles => {},
        }
        Effect::Nothing
    }

    /// Enter activates the focused row; without one it accepts the dialog
    /// when the current state is valid.
    pub fn handle_enter(&mut self) -> (effect: Effect)
        requires
            old(self)@.valid(),
        ensures
            (final(self)@, effect@) == old(self)@.entered(),
            final(self)@.valid(),
    {
        match self.focused_row() {
            Some(entry) => self.activate_entry(&entry),
            None => self.accept(),
        }
    }

    fn note_typed(&mut self, text: &str, now: u64)
        requires
            old(self)@.valid(),
        ensures
            final(self)@ == old(self)@.noted(text@, now),
            final(self)@.valid(),
    {
        let fresh: bool = match self.typed_at {
            Some(when) => elapsed(when, now) < TYPEAHEAD_WINDOW,
            None => false,
        };
        let mut typed: String = if fresh {
            self.typed.clone()
        } else {
            String::new()
        };
        typed.append(text);
        assert(!fresh ==> typed@ =~= text@);
        self.typed = typed;
        self.typed_at = Some(now);
    }

    /// Searches the listing by name as characters are typed.
    pub fn typeahead(&mut self, text: &str, now: u64)
        requires
            old(self)@.valid(),
        ensures
            final(self)@ == old(self)@.searched(text@, now),
            final(self)@.valid(),
    {
        self.note_typed(text, now);
        let found: Option<usize> = typeahead_index(&self.entries, self.typed.as_str());
        if let Some(index) = found {
            self.focus_to(index);
        }
    }
}

// ---------------------------------------------------------------------------
// Keys
// ---------------------------------------------------------------------------

/// The keys that the dialog knows.
#[derive(Debug, Clone, Copy, PartialEq, Eq, Structural)]
pub enum Key {
    Escape,
    Return,
    Tab,
    Up,
    Down,
    Left,
    Right,
    Home,
    End,
    Backspace,
    Delete,
    Char(char),
}

/// One key event of a frame.
#[derive(Debug, Clone, Copy, PartialEq, Eq, Structural)]
pub struct KeyEvent {
    pub key: Key,
    pub pressed: bool,
    pub repeat: bool,
}

/// The keyboard input of one frame.
pub struct KeyInput {
    pub keys: Vec<KeyEvent>,
    pub ctrl: bool,
    /// The platform's command modifier.
    pub logo: bool,
    pub alt: bool,
    /// Text committed this frame.
    pub text: String,
    /// Pasted text that arrived this frame.
    pub paste: Option<String>,
}

impl KeyInput {
    /// A key is down this frame; auto-repeat counts only `with_repeat`.
    pub open spec fn has(self, key: Key, with_repeat: bool) -> bool {
        exists|i: int|
            0 <= i < self.keys@.len() && (#[trigger] self.keys@[i]).key == key
                && self.keys@[i].pressed && (with_repeat || !self.keys@[i].repeat)
    }

    /// A key saw a press edge this frame.
    pub open spec fn pressed(self, key: Key) -> bool {
        self.has(key, false)
    }

    /// A key is down this frame, including auto-repeat.
    pub open spec fn down(self, key: Key) -> bool {
        self.has(key, true)
    }

    /// Ctrl (or the platform's command modifier) is held.
    pub open spec fn command(self) -> bool {
        self.ctrl || self.logo
    }

    fn any_key(&self, key: Key, with_repeat: bool) -> (yes: bool)
        ensures
            yes == self.has(key, with_repeat),
    {
        let mut i: usize = 0;
        while i < self.keys.len()
            invariant
                i <= self.keys@.len(),
                forall|k: int|
                    0 <= k < i ==> !((#[trigger] self.keys@[k]).key == key && self.keys@[k].pressed
                        && (with_repeat || !self.keys@[k].repeat)),
            decreases self.keys@.len() - i,
        {
            let event: KeyEvent = self.keys[i];
            if event.key == key && event.pressed && (with_repeat || !event.repeat) {
                return true;
            }
            i = i + 1;
        }
        false
    }

    /// Whether `key` saw a press edge this frame; auto-repeat does not count.
    pub fn key_pressed(&self, key: Key) -> (yes: bool)
        ensures
            yes == self.pressed(key),
    {
        self.any_key(key, false)
    }

    /// Whether `key` is down this frame, including auto-repeat edges.
    pub fn key_down(&self, key: Key) -> (yes: bool)
        ensures
            yes == self.down(key),
    {
        self.any_key(key, true)
    }

    /// Whether Ctrl (or the platform command modifier) is held.
    pub fn command_held(&self) -> (yes: bool)
        ensures
            yes == self.command(),
    {
        self.ctrl || self.logo
    }
}

/// A text and its caret.
pub struct Line {
    pub text: Seq<char>,
    pub caret: int,
}

impl Line {
    /// After inserting input at the caret.
    pub open spec fn typed(self, input: Seq<char>) -> Line {
        Line {
            text: edit::inserted(self.text, self.caret, input),
            caret: self.caret + edit::bytes(edit::printable(input)).len(),
        }
    }

    /// After Backspace.
    pub open spec fn backspaced(self) -> Line {
        let start = edit::boundary_before(edit::bytes(self.text), self.caret);
        Line { text: edit::cut_out(self.text, start, self.caret), caret: start }
    }

    /// After Delete.
    pub open spec fn deleted(self) -> Line {
        let end = edit::boundary_after(edit::bytes(self.text), self.caret);
        Line { text: edit::cut_out(self.text, self.caret, end), caret: self.caret }
    }

    /// After one step, if its key is down.
    pub open spec fn when(self, on: bool, next: Line) -> Line {
        if on {
            next
        } else {
            self
        }
    }

    /// After the editing keys of a frame, in this order: Backspace, Delete,
    /// Left, Right, Home, End, and pasted text.
    pub open spec fn edited(self, input: KeyInput) -> Line {
        let a = self.when(input.down(Key::Backspace), self.backspaced());
        let b = a.when(input.down(Key::Delete), a.deleted());
        let c = b.when(
            input.down(Key::Left),
            Line { caret: edit::boundary_before(edit::bytes(b.text), b.caret), ..b },
        );
        let d = c.when(
            input.down(Key::Right),
            Line { caret: edit::boundary_after(edit::bytes(c.text), c.caret), ..c },
        );
        let e = d.when(input.down(Key::Home), Line { caret: 0, ..d });
        let f = e.when(
            input.down(Key::End),
            Line { caret: edit::bytes(e.text).len() as int, ..e },
        );
        match input.paste {
            Some(paste) => f.typed(paste@),
            None => f,
        }
    }

    /// After the committed text and the editing keys of a frame.
    pub open spec fn after_frame(self, input: KeyInput) -> Line {
        let started = if input.text@.len() != 0 {
            self.typed(input.text@)
        } else {
            self
        };
        started.edited(input)
    }
}

/// Applies the committed text and the editing keys of a frame to a text and
/// its caret. The result tells whether a paste has to be requested.
pub fn edit_line(text: &mut String, caret: &mut usize, input: &KeyInput) -> (request_paste: bool)
    requires
        edit::on_boundary(old(text)@, *old(caret) as int),
    ensures
        (Line { text: final(text)@, caret: *final(caret) as int }) == (Line {
            text: old(text)@,
            caret: *old(caret) as int,
        }).after_frame(*input),
        edit::on_boundary(final(text)@, *final(caret) as int),
        request_paste == (input.command() && input.pressed(Key::Char('v'))),
{
    if !input.text.as_str().is_empty() {
        edit::insert(text, caret, input.text.as_str());
    }
    if input.key_down(Key::Backspace) {
        edit::delete_backward(text, caret);
    }
    if input.key_down(Key::Delete) {
        edit::delete_forward(text, caret);
    }
    if input.key_down(Key::Left) {
        *caret = edit::prev_boundary(text.as_str(), *caret);
    }
    if input.key_down(Key::Right) {
        *caret = edit::next_boundary(text.as_str(), *caret);
    }
    proof {
        boundaries(text@);
    }
    if input.key_down(Key::Home) {
        *caret = 0;
    }
    if input.key_down(Key::End) {
        *caret = text.as_str().as_bytes().len();
    }
    let request_paste: bool = input.command_held() && input.key_pressed(Key::Char('v'));
    if let Some(paste) = &input.paste {
        edit::insert(text, caret, paste.as_str());
    }
    request_paste
}

// ---------------------------------------------------------------------------
// The location field
// ---------------------------------------------------------------------------

/// What stands at a resolved location.
#[derive(Debug, Clone, Copy, PartialEq, Eq, Structural)]
pub struct LocationFacts {
    pub is_dir: bool,
    pub is_file: bool,
    pub parent_is_dir: bool,
}

impl Model {
    /// What resolving the typed location needs: nothing when it is blank,
    /// else a look at the path.
    pub open spec fn go_effect(self, home: Option<Seq<u8>>) -> EffectContent {
        let typed = crate::text::trimmed(self.location);
        if typed.len() == 0 {
            EffectContent::Nothing
        } else {
            EffectContent::Resolve(crate::location::located(typed, self.dir, home))
        }
    }

    /// What completing the typed location needs: nothing when it is empty,
    /// else a listing of the folder it names.
    pub open spec fn complete_effect(self, home: Option<Seq<u8>>, then_go: bool) -> EffectContent {
        if self.location.len() == 0 {
            EffectContent::Nothing
        } else {
            let at = crate::location::tail_start(self.location);
            EffectContent::Complete {
                dir_part: self.location.take(at),
                tail: self.location.skip(at),
                base: completion_base(self.location.take(at), self.dir, home),
                then_go,
            }
        }
    }

    /// After looking at a typed location: a folder is entered, an existing
    /// file selected (or its name offered for saving), anything else is
    /// reported.
    pub open spec fn resolved(self, full: Seq<u8>, facts: LocationFacts) -> Model {
        if facts.is_dir {
            self.navigated(full)
        } else if crate::paths::parent(full) is None || !facts.parent_is_dir {
            self.reported("No such location: "@ + crate::text::lossy(full))
        } else {
            let parent = crate::paths::parent(full)->0;
            if self.request.mode == FileChooserMode::SaveFile {
                match crate::paths::file_name(full) {
                    Some(name) => self.navigated(parent).named(crate::text::lossy(name)),
                    None => self,
                }
            } else if facts.is_file {
                if self.request.mode == FileChooserMode::OpenFile {
                    self.navigated(parent).only(full)
                } else {
                    self.navigated(parent)
                }
            } else {
                self.reported("No such file: "@ + crate::text::lossy(full))
            }
        }
    }

    /// After reporting why a typed location cannot be used.
    pub open spec fn reported(self, error: Seq<char>) -> Model {
        Model { location_error: Some(error), ..self }
    }

    /// After setting the text of the location field, with the caret at its
    /// end.
    pub open spec fn relocated(self, text: Seq<char>) -> Model {
        Model { location: text, location_caret: edit::bytes(text).len() as int, ..self }
    }
}

/// The folder in which a typed folder part is completed.
pub open spec fn completion_base(
    dir_part: Seq<char>,
    dir: Seq<u8>,
    home: Option<Seq<u8>>,
) -> Seq<u8> {
    let path = crate::location::expanded(dir_part, home);
    crate::location::normalized(
        if path.len() == 0 {
            dir
        } else if crate::paths::rooted(path) {
            path
        } else {
            crate::paths::joined(dir, path)
        },
    )
}

/// The rows whose names start with a text.
pub open spec fn rows_with_prefix(
    rows: Seq<crate::chooser::EntryContent>,
    prefix: Seq<char>,
) -> Seq<crate::chooser::EntryContent>
    decreases rows.len(),
{
    if rows.len() == 0 {
        Seq::empty()
    } else {
        let before = rows_with_prefix(rows.drop_last(), prefix);
        if prefix.is_prefix_of(rows.last().name) {
            before.push(rows.last())
        } else {
            before
        }
    }
}

/// The completed text, if there is one: a single match completes in full
/// (with a trailing `/` for folders), several complete the longest common
/// prefix.
pub open spec fn completed_text(
    dir_part: Seq<char>,
    tail: Seq<char>,
    rows: Seq<crate::chooser::EntryContent>,
) -> Option<Seq<char>> {
    let found = rows_with_prefix(rows, tail);
    if found.len() == 0 {
        None
    } else if found.len() == 1 {
        Some(
            dir_part + found[0].name + (if found[0].is_dir {
                seq!['/']
            } else {
                Seq::empty()
            }),
        )
    } else {
        let prefix = crate::location::prefix_of_all(
            found.map_values(|row: crate::chooser::EntryContent| row.name),
        );
        if edit::bytes(prefix).len() > edit::bytes(tail).len() {
            Some(dir_part + prefix)
        } else {
            None
        }
    }
}

fn find_with_prefix(rows: &Vec<Entry>, prefix: &str) -> (found: Vec<Entry>)
    ensures
        crate::chooser::rows_view(found@) == rows_with_prefix(
            crate::chooser::rows_view(rows@),
            prefix@,
        ),
{
    let ghost all = crate::chooser::rows_view(rows@);
    let mut found: Vec<Entry> = Vec::new();
    let mut i: usize = 0;
    assert(crate::chooser::rows_view(found@) =~= rows_with_prefix(all.take(0), prefix@));
    while i < rows.len()
        invariant
            i <= rows@.len(),
            all == crate::chooser::rows_view(rows@),
            crate::chooser::rows_view(found@) == rows_with_prefix(all.take(i as int), prefix@),
        decreases rows@.len() - i,
    {
        proof {
            let now = all.take(i + 1);
            assert(now.drop_last() =~= all.take(i as int));
            assert(now.last() == rows@[i as int]@);
        }
        let ghost before = found@;
        if begins_with(rows[i].name.as_str(), prefix) {
            let row = rows[i].copy();
            found.push(row);
            assert(crate::chooser::rows_view(found@) =~= crate::chooser::rows_view(before).push(
                row@,
            ));
        }
        i = i + 1;
    }
    assert(all.take(i as int) =~= all);
    found
}

fn names_of(rows: &Vec<Entry>) -> (names: Vec<String>)
    ensures
        crate::location::texts(names@) == crate::chooser::rows_view(rows@).map_values(
            |row: crate::chooser::EntryContent| row.name,
        ),
{
    let ghost all = crate::chooser::rows_view(rows@).map_values(
        |row: crate::chooser::EntryContent| row.name,
    );
    let mut names: Vec<String> = Vec::new();
    let mut i: usize = 0;
    while i < rows.len()
        invariant
            i <= rows@.len(),
            all == crate::chooser::rows_view(rows@).map_values(
                |row: crate::chooser::EntryContent| row.name,
            ),
            crate::location::texts(names@) == all.take(i as int),
        decreases rows@.len() - i,
    {
        let ghost before = names@;
        names.push(rows[i].name.clone());
        assert(crate::location::texts(names@) =~= crate::location::texts(before).push(
            rows@[i as int].name@,
        ));
        assert(all.take(i + 1) =~= all.take(i as int).push(all[i as int]));
        i = i + 1;
    }
    assert(all.take(i as int) =~= all);
    names
}

/// The completed text for the rows of a listing, if there is one.
pub fn complete_text(dir_part: &str, tail: &str, rows: &Vec<Entry>) -> (text: Option<String>)
    ensures
        match text {
            Some(text) => completed_text(dir_part@, tail@, crate::chooser::rows_view(rows@))
                == Some(text@),
            None => completed_text(dir_part@, tail@, crate::chooser::rows_view(rows@)) is None,
        },
{
    let found = find_with_prefix(rows, tail);
    let ghost view = crate::chooser::rows_view(found@);
    assert(view.len() == found.len());
    if found.len() == 0 {
        return None;
    }
    let mut text = dir_part.to_owned();
    if found.len() == 1 {
        assert(view[0] == found@[0]@);
        text.append(found[0].name.as_str());
        if found[0].is_dir {
            text.push('/');
            assert(text@ =~= dir_part@ + view[0].name + seq!['/']);
        } else {
            assert(text@ =~= dir_part@ + view[0].name + Seq::<char>::empty());
        }
        return Some(text);
    }
    let names = names_of(&found);
    let prefix = crate::location::common_prefix(&names);
    if prefix.as_str().as_bytes().len() > tail.as_bytes().len() {
        text.append(prefix.as_str());
        return Some(text);
    }
    None
}

impl State {
    /// Resolves the typed location.
    pub fn go_location(&self, home: Option<&BytePath>) -> (effect: Effect)
        ensures
            effect@ == self@.go_effect(crate::location::opt_path(home)),
    {
        let typed = trim(self.location.as_str());
        if typed.as_str().is_empty() {
            return Effect::Nothing;
        }
        let full = crate::location::locate(typed.as_str(), self.dir.0.as_slice(), home);
        Effect::Resolve(BytePath(full))
    }

    fn report_location(&mut self, what: &str, full: &BytePath)
        requires
            old(self)@.valid(),
        ensures
            final(self)@ == old(self)@.reported(what@ + crate::text::lossy(full@)),
            final(self)@.valid(),
    {
        let mut m = what.to_owned();
        m.append(lossy_text(full.0.as_slice()).as_str());
        self.location_error = Some(m);
    }

    /// Goes on with a typed location once it was looked at.
    pub fn location_probed(&mut self, full: &BytePath, facts: LocationFacts)
        requires
            old(self)@.valid(),
        ensures
            final(self)@ == old(self)@.resolved(full@, facts),
            final(self)@.valid(),
    {
        if facts.is_dir {
            self.navigate(copy_path(full));
            return;
        }
        let parent: Option<Vec<u8>> = if facts.parent_is_dir {
            parent_of(full.0.as_slice())
        } else {
            None
        };
        let parent: Vec<u8> = match parent {
            Some(parent) => parent,
            None => {
                self.report_location("No such location: ", full);
                return;
            },
        };
        if self.request.mode == FileChooserMode::SaveFile {
            if let Some(name) = file_name_of(full.0.as_slice()) {
                let name = lossy_text(name.as_slice());
                self.navigate(BytePath(parent));
                self.set_name(name.as_str());
            }
        } else if facts.is_file {
            self.navigate(BytePath(parent));
            if self.request.mode == FileChooserMode::OpenFile {
                self.select_only(full);
            }
        } else {
            self.report_location("No such file: ", full);
        }
    }

    /// Completes the typed location against the folder it names.
    pub fn complete_location(&self, home: Option<&BytePath>, then_go: bool) -> (effect: Effect)
        ensures
            effect@ == self@.complete_effect(crate::location::opt_path(home), then_go),
    {
        if self.location.as_str().is_empty() {
            return Effect::Nothing;
        }
        let (dir_part, tail) = crate::location::split_dir_tail(self.location.as_str());
        let path = crate::location::expand_tilde(dir_part.as_str(), home);
        let base: Vec<u8> = if path.len() == 0 {
            crate::location::normalize_lexical(self.dir.0.as_slice())
        } else if is_rooted(path.as_slice()) {
            crate::location::normalize_lexical(path.as_slice())
        } else {
            crate::location::normalize_lexical(
                join(self.dir.0.as_slice(), path.as_slice()).as_slice(),
            )
        };
        Effect::Complete(Completion { dir_part, tail, base: BytePath(base), then_go })
    }

    /// Takes over a completion once its folder was read (`None` when that
    /// failed). Dotfiles count only when the tail starts with a dot.
    pub fn completed(
        &mut self,
        completion: &Completion,
        items: Option<Vec<DirItem>>,
        home: Option<&BytePath>,
    ) -> (effect: Effect)
        requires
            old(self)@.valid(),
        ensures
            completion_applied(old(self)@, *completion, items, final(self)@),
            effect@ == (if completion.then_go {
                final(self)@.go_effect(crate::location::opt_path(home))
            } else {
                EffectContent::Nothing
            }),
            final(self)@.valid(),
    {
        if let Some(items) = &items {
            let hidden: bool = begins_with(completion.tail.as_str(), ".");
            let rows = list_dir(completion.base.0.as_slice(), items, hidden, None);
            let ghost view = crate::chooser::rows_view(rows@);
            if let Some(text) = complete_text(
                completion.dir_part.as_str(),
                completion.tail.as_str(),
                &rows,
            ) {
                proof {
                    boundaries(text@);
                }
                self.location_caret = text.as_str().as_bytes().len();
                self.location = text;
            }
            assert(completion_from(old(self)@, *completion, *items, view, self@));
        }
        if completion.then_go {
            self.go_location(home)
        } else {
            Effect::Nothing
        }
    }
}

/// The completion was made from one listing of its folder.
pub open spec fn completion_from(
    before: Model,
    completion: Completion,
    items: Vec<DirItem>,
    rows: Seq<crate::chooser::EntryContent>,
    after: Model,
) -> bool {
    &&& crate::chooser::listed(
        crate::chooser::shown_rows(
            completion.base@,
            items@,
            "."@.is_prefix_of(completion.tail@),
            None,
        ),
        rows,
    )
    &&& after == (match completed_text(completion.dir_part@, completion.tail@, rows) {
        Some(text) => before.relocated(text),
        None => before,
    })
}

/// The completion was made from a listing of its folder, or not at all when
/// the folder could not be read.
pub open spec fn completion_applied(
    before: Model,
    completion: Completion,
    items: Option<Vec<DirItem>>,
    after: Model,
) -> bool {
    match items {
        Some(items) => exists|rows: Seq<crate::chooser::EntryContent>| #[trigger]
            completion_from(before, completion, items, rows, after),
        None => after == before,
    }
}

// ---------------------------------------------------------------------------
// New folders and overwriting
// ---------------------------------------------------------------------------

/// How the creation of a folder went.
pub enum FolderOutcome {
    Created,
    Exists,
    Failed(String),
}

impl Model {
    /// After asking for a folder to be created: the name is checked first.
    pub open spec fn folder_requested(self) -> (Model, EffectContent) {
        let name = crate::text::trimmed(self.folder_name);
        if is_filename(name) {
            (
                self,
                EffectContent::CreateFolder(
                    crate::paths::joined(self.dir, vstd::utf8::encode_utf8(name)),
                ),
            )
        } else {
            (
                Model { folder_error: Some("Enter a name without /"@), ..self },
                EffectContent::Nothing,
            )
        }
    }

    /// After trying to create a folder: a new one is entered.
    pub open spec fn folder_tried(self, target: Seq<u8>, outcome: FolderOutcome) -> Model {
        let name = crate::text::trimmed(self.folder_name);
        match outcome {
            FolderOutcome::Created => Model {
                creating_folder: false,
                folder_error: None,
                ..self
            }.navigated(target),
            FolderOutcome::Exists => Model {
                folder_error: Some(name + " already exists"@),
                ..self
            },
            FolderOutcome::Failed(error) => Model {
                folder_error: Some("Could not create "@ + name + ": "@ + error@),
                ..self
            },
        }
    }
}

impl State {
    /// The new-folder button was clicked.
    pub fn open_folder_row(&mut self)
        requires
            old(self)@.valid(),
        ensures
            final(self)@ == old(self)@.naming_folder(),
            final(self)@.valid(),
    {
        self.creating_folder = true;
        self.folder_focus = true;
        self.folder_error = None;
        self.folder_name = String::new();
        self.name_focused = false;
    }

    /// Creates the typed folder inside the browsed one.
    pub fn create_folder(&mut self) -> (effect: Effect)
        requires
            old(self)@.valid(),
        ensures
            (final(self)@, effect@) == old(self)@.folder_requested(),
            final(self)@.valid(),
    {
        let name = trim(self.folder_name.as_str());
        if !valid_filename(name.as_str()) {
            self.folder_error = Some("Enter a name without /".to_owned());
            return Effect::Nothing;
        }
        let target = join(self.dir.0.as_slice(), name.as_str().as_bytes());
        Effect::CreateFolder(BytePath(target))
    }

    /// Goes on once the creation of a folder was tried.
    pub fn folder_created(&mut self, target: BytePath, outcome: FolderOutcome)
        requires
            old(self)@.valid(),
        ensures
            final(self)@ == old(self)@.folder_tried(target@, outcome),
            final(self)@.valid(),
    {
        match outcome {
            FolderOutcome::Created => {
                self.creating_folder = false;
                self.folder_error = None;
                self.navigate(target);
            },
            FolderOutcome::Exists => {
                let mut m = trim(self.folder_name.as_str());
                m.append(" already exists");
                self.folder_error = Some(m);
            },
            FolderOutcome::Failed(error) => {
                let mut m = "Could not create ".to_owned();
                m.append(trim(self.folder_name.as_str()).as_str());
                m.append(": ");
                m.append(error.as_str());
                self.folder_error = Some(m);
            },
        }
    }

    /// The overwrite confirmation was answered with Cancel.
    pub fn overwrite_declined(&mut self)
        requires
            old(self)@.valid(),
        ensures
            final(self)@ == (Model { confirm_overwrite: None, ..old(self)@ }),
            final(self)@.valid(),
    {
        self.confirm_overwrite = None;
    }

    /// The overwrite confirmation was answered with Replace.
    pub fn overwrite_confirmed(&mut self) -> (effect: Effect)
        requires
            old(self)@.valid(),
        ensures
            final(self)@ == (Model { confirm_overwrite: None, ..old(self)@ }),
            effect@ == final(self)@.accept_effect(true),
            final(self)@.valid(),
    {
        self.confirm_overwrite = None;
        self.accept_checked(true)
    }

    /// Settles the overwrite confirmation of a frame: one that was dismissed
    /// without an answer is dropped. The result tells whether to open it now.
    pub fn confirm_frame(&mut self, was_open: bool) -> (open: bool)
        requires
            old(self)@.valid(),
        ensures
            open == old(self)@.confirm_open,
            final(self)@ == (Model {
                confirm_overwrite: if was_open || old(self)@.confirm_open {
                    old(self)@.confirm_overwrite
                } else {
                    None
                },
                confirm_open: false,
                ..old(self)@
            }),
            final(self)@.valid(),
    {
        if self.confirm_overwrite.is_some() && !was_open && !self.confirm_open {
            self.confirm_overwrite = None;
        }
        let open: bool = self.confirm_open;
        self.confirm_open = false;
        open
    }
}

// ---------------------------------------------------------------------------
// Frames
// ---------------------------------------------------------------------------

/// The next state, what it needs from outside, and whether a paste has to be
/// requested.
pub struct Step {
    pub next: Model,
    pub effect: EffectContent,
    pub request_paste: bool,
}

impl Model {
    /// A step with nothing else to do.
    pub open spec fn quiet(self) -> Step {
        Step { next: self, effect: EffectContent::Nothing, request_paste: false }
    }

    /// After Escape: the overwrite confirmation owns it first, then an open
    /// popup, then the location field, then the new-folder row; otherwise it
    /// cancels the dialog.
    pub open spec fn escaped(self, popup: bool) -> Model {
        if self.confirm_overwrite is Some {
            Model { confirm_overwrite: None, ..self }
        } else if popup {
            self
        } else if self.location_editing {
            Model { location_editing: false, location_error: None, ..self }
        } else if self.creating_folder {
            Model { creating_folder: false, folder_error: None, ..self }
        } else {
            self.answered(Answer::Cancelled)
        }
    }

    /// After showing or hiding dotfiles.
    pub open spec fn hidden_toggled(self) -> Model {
        Model { show_hidden: !self.show_hidden, reload: true, ..self }
    }

    /// After the shortcuts that work everywhere: Ctrl+H and Ctrl+L.
    pub open spec fn after_shortcuts(self, input: KeyInput) -> Model {
        let hidden = if input.command() && input.pressed(Key::Char('h')) {
            self.hidden_toggled()
        } else {
            self
        };
        if input.command() && input.pressed(Key::Char('l')) {
            hidden.locating(crate::text::lossy(hidden.dir))
        } else {
            hidden
        }
    }

    /// The keys while the location field owns them.
    pub open spec fn location_step(self, input: KeyInput, home: Option<Seq<u8>>) -> Step {
        let line = Line { text: self.location, caret: self.location_caret }.after_frame(input);
        let next = Model { location: line.text, location_caret: line.caret, ..self };
        Step {
            next,
            effect: if input.pressed(Key::Tab) {
                next.complete_effect(home, input.pressed(Key::Return))
            } else if input.pressed(Key::Return) {
                next.go_effect(home)
            } else {
                EffectContent::Nothing
            },
            request_paste: input.command() && input.pressed(Key::Char('v')),
        }
    }

    /// The keys while the save name owns them.
    pub open spec fn name_step(self, input: KeyInput) -> Step {
        let line = Line { text: self.name, caret: self.name_caret }.after_frame(input);
        let next = Model { name: line.text, name_caret: line.caret, ..self };
        Step {
            next,
            effect: if input.pressed(Key::Return) {
                next.accept_effect(false)
            } else {
                EffectContent::Nothing
            },
            request_paste: input.command() && input.pressed(Key::Char('v')),
        }
    }

    /// After the cursor keys of a frame.
    pub open spec fn after_cursor_keys(self, input: KeyInput) -> Model {
        if input.down(Key::Up) {
            self.cursor_moved(false)
        } else if input.down(Key::Down) {
            self.cursor_moved(true)
        } else if input.pressed(Key::Home) {
            self.focused(0)
        } else if input.pressed(Key::End) && self.entries.len() != 0 {
            self.focused((self.entries.len() - 1) as usize)
        } else {
            self
        }
    }

    /// The keys while the listing owns them.
    pub open spec fn listing_step(self, input: KeyInput, now: u64) -> Step {
        if input.alt && input.pressed(Key::Up) {
            self.went_up().quiet()
        } else {
            let moved = self.after_cursor_keys(input);
            if input.pressed(Key::Return) {
                let (next, effect) = moved.entered();
                Step { next, effect, request_paste: false }
            } else if input.command() && input.pressed(Key::Char(' '))
                && moved.multiple_allowed() {
                moved.focus_toggled().quiet()
            } else if input.text@.len() != 0 && !input.command() {
                if input.text@[0] == '/' || input.text@[0] == '~' {
                    moved.locating(input.text@).quiet()
                } else {
                    moved.searched(input.text@, now).quiet()
                }
            } else {
                moved.quiet()
            }
        }
    }

    /// All keyboard processing of a frame. Text fields own their keys while
    /// focused; popups and the overwrite confirmation own theirs while open.
    pub open spec fn keyed(
        self,
        input: KeyInput,
        popup: bool,
        now: u64,
        home: Option<Seq<u8>>,
    ) -> Step {
        if input.pressed(Key::Escape) {
            self.escaped(popup).quiet()
        } else {
            let ready = self.after_shortcuts(input);
            if ready.confirm_overwrite is Some {
                if input.pressed(Key::Return) {
                    let next = Model { confirm_overwrite: None, ..ready };
                    Step { next, effect: next.accept_effect(true), request_paste: false }
                } else {
                    ready.quiet()
                }
            } else if popup {
                ready.quiet()
            } else if ready.location_editing {
                ready.location_step(input, home)
            } else if ready.name_focused {
                ready.name_step(input)
            } else if ready.field_focused {
                ready.quiet()
            } else {
                ready.listing_step(input, now)
            }
        }
    }
}

impl State {
    /// Samples the multi-select modifier at the start of a frame.
    pub fn begin_frame(&mut self, input: &KeyInput)
        requires
            old(self)@.valid(),
        ensures
            final(self)@ == (Model { ctrl_held: input.command(), ..old(self)@ }),
            final(self)@.valid(),
    {
        self.ctrl_held = input.command_held();
    }

    fn handle_escape(&mut self, popup: bool)
        requires
            old(self)@.valid(),
        ensures
            final(self)@ == old(self)@.escaped(popup),
            final(self)@.valid(),
    {
        if self.confirm_overwrite.is_some() {
            self.confirm_overwrite = None;
        } else if !popup {
            if self.location_editing {
                self.location_editing = false;
                self.location_error = None;
            } else if self.creating_folder {
                self.creating_folder = false;
                self.folder_error = None;
            } else {
                self.cancel();
            }
        }
    }

    fn toggle_hidden(&mut self)
        requires
            old(self)@.valid(),
        ensures
            final(self)@ == old(self)@.hidden_toggled(),
            final(self)@.valid(),
    {
        self.show_hidden = !self.show_hidden;
        self.reload = true;
    }

    fn handle_shortcuts(&mut self, input: &KeyInput)
        requires
            old(self)@.valid(),
        ensures
            final(self)@ == old(self)@.after_shortcuts(*input),
            final(self)@.valid(),
    {
        if input.command_held() && input.key_pressed(Key::Char('h')) {
            self.toggle_hidden();
        }
        if input.command_held() && input.key_pressed(Key::Char('l')) {
            self.start_location_edit();
        }
    }

    fn edit_location(&mut self, input: &KeyInput, home: Option<&BytePath>) -> (out: (Effect, bool))
        requires
            old(self)@.valid(),
        ensures
            (Step { next: final(self)@, effect: out.0@, request_paste: out.1 })
                == old(self)@.location_step(*input, crate::location::opt_path(home)),
            final(self)@.valid(),
    {
        let mut text = self.location.clone();
        let mut caret: usize = self.location_caret;
        let request_paste: bool = edit_line(&mut text, &mut caret, input);
        self.location = text;
        self.location_caret = caret;
        let effect: Effect = if input.key_pressed(Key::Tab) {
            self.complete_location(home, input.key_pressed(Key::Return))
        } else if input.key_pressed(Key::Return) {
            self.go_location(home)
        } else {
            Effect::Nothing
        };
        (effect, request_paste)
    }

    fn edit_name(&mut self, input: &KeyInput) -> (out: (Effect, bool))
        requires
            old(self)@.valid(),
        ensures
            (Step { next: final(self)@, effect: out.0@, request_paste: out.1 })
                == old(self)@.name_step(*input),
            final(self)@.valid(),
    {
        let mut text = self.name.clone();
        let mut caret: usize = self.name_caret;
        let request_paste: bool = edit_line(&mut text, &mut caret, input);
        self.name = text;
        self.name_caret = caret;
        let effect: Effect = if input.key_pressed(Key::Return) {
            self.accept()
        } else {
            Effect::Nothing
        };
        (effect, request_paste)
    }

    fn handle_cursor_keys(&mut self, input: &KeyInput)
        requires
            old(self)@.valid(),
        ensures
            final(self)@ == old(self)@.after_cursor_keys(*input),
            final(self)@.valid(),
    {
        if input.key_down(Key::Up) {
            self.focus_move(false);
        } else if input.key_down(Key::Down) {
            self.focus_move(true);
        } else if input.key_pressed(Key::Home) {
            self.focus_to(0);
        } else if input.key_pressed(Key::End) && self.entries.len() != 0 {
            let last: usize = self.entries.len() - 1;
            self.focus_to(last);
        }
    }

    fn handle_listing_keys(&mut self, input: &KeyInput, now: u64) -> (effect: Effect)
        requires
            old(self)@.valid(),
        ensures
            (Step { next: final(self)@, effect: effect@, request_paste: false })
                == old(self)@.listing_step(*input, now),
            final(self)@.valid(),
    {
        if input.alt && input.key_pressed(Key::Up) {
            self.go_parent();
            return Effect::Nothing;
        }
        self.handle_cursor_keys(input);
        if input.key_pressed(Key::Return) {
            return self.handle_enter();
        }
        if input.command_held() && input.key_pressed(Key::Char(' ')) && self.multiple_allowed() {
            self.toggle_focused();
            return Effect::Nothing;
        }
        if !input.text.as_str().is_empty() && !input.command_held() {
            let first = chars_of(input.text.as_str());
            if first[0] == '/' || first[0] == '~' {
                self.open_location(input.text.clone());
            } else {
                self.typeahead(input.text.as_str(), now);
            }
        }
        Effect::Nothing
    }

    /// All keyboard processing of a frame, before anything is drawn. The
    /// result tells what is needed from outside and whether a paste has to
    /// be requested.
    pub fn handle_keys(
        &mut self,
        input: &KeyInput,
        popup: bool,
        now: u64,
        home: Option<&BytePath>,
    ) -> (out: (Effect, bool))
        requires
            old(self)@.valid(),
        ensures
            (Step { next: final(self)@, effect: out.0@, request_paste: out.1 })
                == old(self)@.keyed(*input, popup, now, crate::location::opt_path(home)),
            final(self)@.valid(),
    {
        if input.key_pressed(Key::Escape) {
            self.handle_escape(popup);
            return (Effect::Nothing, false);
        }
        self.handle_shortcuts(input);
        if self.confirm_overwrite.is_some() {
            if input.key_pressed(Key::Return) {
                let effect = self.overwrite_confirmed();
                return (effect, false);
            }
            return (Effect::Nothing, false);
        }
        if popup {
            return (Effect::Nothing, false);
        }
        if self.location_editing {
            return self.edit_location(input, home);
        }
        if self.name_focused {
            return self.edit_name(input);
        }
        if self.field_focused {
            return (Effect::Nothing, false);
        }
        let effect = self.handle_listing_keys(input, now);
        (effect, false)
    }

    /// Settles a frame once everything was drawn: notes whether the
    /// new-folder field is focused, and lets Backspace walk up one folder
    /// when no text field or popup owns the key.
    #[verifier::spinoff_prover]
    #[verifier::rlimit(40)]
    pub fn end_frame(&mut self, input: &KeyInput, folder_focused: bool, popup: bool)
        requires
            old(self)@.valid(),
        ensures
            final(self)@ == ({
                let noted = Model { field_focused: folder_focused, ..old(self)@ };
                if input.pressed(Key::Backspace) && !noted.location_editing && !noted.name_focused
                    && !folder_focused && !popup {
                    noted.went_up()
                } else {
                    noted
                }
            }),
            final(self)@.valid(),
    {
        self.field_focused = folder_focused;
        if input.key_pressed(Key::Backspace) && !self.location_editing && !self.name_focused
            && !folder_focused && !popup {
            self.go_parent();
        }
    }
}

} // verus!
