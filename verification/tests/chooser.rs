use aegis_portal::chooser::{
    breadcrumbs, filter_allows, glob_match, list_dir, mime_matches, type_matches, DirItem,
};
use aegis_portal::dialogs::{file_accept_label, filter_labels, overwrite_text};
use aegis_portal::file_chooser::{
    accept_paths, crumb_name, default_accept_label, hidden_crumbs, valid_filename, ChoiceState, Effect,
    requested_title, FolderOutcome, Key, KeyEvent, KeyInput, LocationFacts, State,
};
use aegis_portal::location::{
    common_prefix, expand_tilde, locate, normalize_lexical, split_dir_tail,
};
use aegis_portal::paths::{file_name_of, join, parent_of};
use aegis_portal::pathset::PathSet;
use aegis_portal::prompter::{
    BytePath, Choice, FileChooserMode, FileChooserRequest, FileChooserResponse, FileFilter,
    FilterRule, FilterRuleKind,
};

fn filter(label: &str, rules: &[(&str, FilterRuleKind)]) -> FileFilter {
    FileFilter {
        label: label.into(),
        rules: rules
            .iter()
            .map(|(value, kind)| FilterRule {
                kind: *kind,
                value: (*value).to_owned(),
            })
            .collect(),
    }
}

fn path(text: &str) -> BytePath {
    BytePath(text.as_bytes().to_vec())
}

fn selected_of(paths: &[&str]) -> PathSet {
    let mut set = PathSet::new();
    for one in paths {
        set.insert(one.as_bytes().to_vec());
    }
    set
}

fn request(mode: FileChooserMode) -> FileChooserRequest {
    FileChooserRequest {
        mode,
        app_id: "dev.aegis.Test".into(),
        title: "Choose".into(),
        accept_label: None,
        modal: true,
        parent_window: None,
        multiple: false,
        current_folder: None,
        current_name: None,
        current_file: None,
        filters: Vec::new(),
        current_filter: None,
        choices: Vec::new(),
        files: Vec::new(),
    }
}

fn items() -> Vec<DirItem> {
    [("zeta", true), ("alpha", true), ("beta.txt", false), (".hidden", false)]
        .iter()
        .map(|(name, is_dir)| DirItem {
            name: name.as_bytes().to_vec(),
            is_dir: *is_dir,
        })
        .collect()
}

fn input(keys: &[Key]) -> KeyInput {
    KeyInput {
        keys: keys
            .iter()
            .map(|key| KeyEvent {
                key: *key,
                pressed: true,
                repeat: false,
            })
            .collect(),
        ctrl: false,
        logo: false,
        alt: false,
        text: String::new(),
        paste: None,
    }
}

#[test]
fn glob_matches_stars_questions_and_classes() {
    assert!(glob_match("*.png", "shot.png"));
    assert!(!glob_match("*.png", "shot.jpg"));
    assert!(glob_match("shot.p?g", "shot.png"));
    assert!(glob_match("*.tar.*", "a.tar.gz"));
    assert!(glob_match("[a-z].txt", "b.txt"));
    assert!(!glob_match("[a-z].txt", "B.txt"));
    assert!(glob_match("[!a-z].txt", "B.txt"));
    assert!(glob_match("*", "anything"));
    assert!(!glob_match("*.png", "png"));
    assert!(!glob_match("[.txt", "x.txt"));
    assert!(glob_match("[.txt", "[.txt"));
}

#[test]
fn glob_respects_case_and_full_length() {
    assert!(!glob_match("*.PNG", "shot.png"));
    assert!(!glob_match("shot.pn", "shot.png"));
    assert!(!glob_match("shot.pngg", "shot.png"));
}

#[test]
fn stars_and_literals_meet_their_laws() {
    for name in ["", "a", "中文", "*"] {
        assert!(glob_match("*", name));
    }
    assert!(glob_match("plain name", "plain name"));
    assert!(glob_match("*.rs", "lib.rs"));
    assert!(glob_match("*.rs", ".rs"));
}

#[test]
fn filter_rules_or_glob_and_mime() {
    let images = filter(
        "Images",
        &[
            ("*.png", FilterRuleKind::Glob),
            ("*.jpg", FilterRuleKind::Glob),
        ],
    );
    assert!(filter_allows(&images, b"/tmp/a.png"));
    assert!(filter_allows(&images, b"/tmp/b.jpg"));
    assert!(!filter_allows(&images, b"/tmp/c.txt"));

    let mime = filter("Text", &[("text/plain", FilterRuleKind::Mime)]);
    assert!(mime_matches("text/*", b"/tmp/a.txt"));
    assert!(filter_allows(&mime, b"/tmp/a.txt"));
    assert!(!filter_allows(&mime, b"/tmp/a.png"));
    assert!(!mime_matches("image/*", b"/tmp/no-extension"));
}

#[test]
fn guessed_types_are_held_against_rules() {
    assert!(mime_matches("image/png", b"/tmp/a.PNG"));
    assert!(!mime_matches("image/jpeg", b"/tmp/a.png"));
    assert!(type_matches("image/*", Some("image/png")));
    assert!(!type_matches("image/*", Some("text/plain")));
    assert!(!type_matches("*", None));
}

#[test]
fn breadcrumbs_walk_from_the_root() {
    assert_eq!(breadcrumbs(b"/tmp"), vec![b"/".to_vec(), b"/tmp".to_vec()]);
    assert_eq!(breadcrumbs(b"/"), vec![b"/".to_vec()]);
}

#[test]
fn listing_sorts_dirs_first_and_hides_dotfiles() {
    let entries = list_dir(b"/root", &items(), false, None);
    let names: Vec<&str> = entries.iter().map(|entry| entry.name.as_str()).collect();
    assert_eq!(names, ["alpha", "zeta", "beta.txt"]);
    assert_eq!(entries[2].path.0, b"/root/beta.txt");

    let entries = list_dir(b"/root", &items(), true, None);
    assert_eq!(entries.len(), 4);

    let only_txt = filter("Text", &[("*.txt", FilterRuleKind::Glob)]);
    let entries = list_dir(b"/root", &items(), false, Some(&only_txt));
    let names: Vec<&str> = entries.iter().map(|entry| entry.name.as_str()).collect();
    assert_eq!(names, ["alpha", "zeta", "beta.txt"]);

    let only_md = filter("Notes", &[("*.md", FilterRuleKind::Glob)]);
    let entries = list_dir(b"/root", &items(), false, Some(&only_md));
    let names: Vec<&str> = entries.iter().map(|entry| entry.name.as_str()).collect();
    assert_eq!(names, ["alpha", "zeta"]);
}

#[test]
fn listing_ignores_case() {
    let mixed: Vec<DirItem> = ["b", "A", "a"]
        .iter()
        .map(|name| DirItem {
            name: name.as_bytes().to_vec(),
            is_dir: false,
        })
        .collect();
    let entries = list_dir(b"/", &mixed, false, None);
    let names: Vec<&str> = entries.iter().map(|entry| entry.name.as_str()).collect();
    assert_eq!(names, ["A", "a", "b"]);
}

#[test]
fn mod_open_file_requires_a_selection() {
    let dir = path("/tmp");
    assert!(accept_paths(FileChooserMode::OpenFile, &dir, &PathSet::new(), "").is_none());
    let selected = selected_of(&["/tmp/a.txt"]);
    assert_eq!(
        accept_paths(FileChooserMode::OpenFile, &dir, &selected, ""),
        Some(vec![path("/tmp/a.txt")])
    );
}

#[test]
fn mod_open_directory_falls_back_to_the_browsed_folder() {
    let dir = path("/tmp");
    assert_eq!(
        accept_paths(FileChooserMode::OpenDirectory, &dir, &PathSet::new(), ""),
        Some(vec![path("/tmp")])
    );
}

#[test]
fn mod_save_file_rejects_empty_and_escaped_names() {
    let dir = path("/tmp");
    assert!(accept_paths(FileChooserMode::SaveFile, &dir, &PathSet::new(), "  ").is_none());
    assert!(accept_paths(FileChooserMode::SaveFile, &dir, &PathSet::new(), "../x").is_none());
    assert_eq!(
        accept_paths(FileChooserMode::SaveFile, &dir, &PathSet::new(), "out.txt"),
        Some(vec![path("/tmp/out.txt")])
    );
}

#[test]
fn mod_save_files_targets_the_browsed_folder() {
    let dir = path("/tmp");
    assert_eq!(
        accept_paths(FileChooserMode::SaveFiles, &dir, &PathSet::new(), ""),
        Some(vec![path("/tmp")])
    );
}

#[test]
fn open_file_requires_a_selection() {
    let dir = path("/tmp");
    assert!(accept_paths(FileChooserMode::OpenFile, &dir, &PathSet::new(), "").is_none());
    let selected = selected_of(&["/tmp/a.txt"]);
    assert_eq!(
        accept_paths(FileChooserMode::OpenFile, &dir, &selected, ""),
        Some(vec![path("/tmp/a.txt")])
    );
}

#[test]
fn open_directory_falls_back_to_the_browsed_folder() {
    let dir = path("/tmp");
    assert_eq!(
        accept_paths(FileChooserMode::OpenDirectory, &dir, &PathSet::new(), ""),
        Some(vec![path("/tmp")])
    );
}

#[test]
fn save_file_rejects_empty_and_escaped_names() {
    let dir = path("/tmp");
    assert!(accept_paths(FileChooserMode::SaveFile, &dir, &PathSet::new(), "  ").is_none());
    assert!(accept_paths(FileChooserMode::SaveFile, &dir, &PathSet::new(), "../x").is_none());
    assert_eq!(
        accept_paths(FileChooserMode::SaveFile, &dir, &PathSet::new(), "out.txt"),
        Some(vec![path("/tmp/out.txt")])
    );
}

#[test]
fn save_files_targets_the_browsed_folder() {
    let dir = path("/tmp");
    assert_eq!(
        accept_paths(FileChooserMode::SaveFiles, &dir, &PathSet::new(), ""),
        Some(vec![path("/tmp")])
    );
}

#[test]
fn selections_come_out_in_path_order() {
    let dir = path("/tmp");
    let selected = selected_of(&["/tmp/b", "/tmp/a/z", "/tmp/a", "/tmp/b"]);
    assert_eq!(
        accept_paths(FileChooserMode::OpenFile, &dir, &selected, ""),
        Some(vec![path("/tmp/a"), path("/tmp/a/z"), path("/tmp/b")])
    );
}

#[test]
fn path_sets_forget_what_is_removed() {
    let mut set = selected_of(&["/a", "/b"]);
    assert!(set.contains(b"/a"));
    assert!(set.insert(b"/c".to_vec()));
    assert!(!set.insert(b"/c".to_vec()));
    assert!(set.remove(b"/c"));
    assert!(!set.remove(b"/c"));
    assert_eq!(set.paths(), vec![b"/a".to_vec(), b"/b".to_vec()]);
    assert!(selected_of(&["/a/./b"]).contains(b"/a/b"));
}

#[test]
fn crumb_names_cap_long_components() {
    assert_eq!(crumb_name(b"/"), "/");
    assert_eq!(crumb_name(b"/home/ming"), "ming");
    let long = "a-very-long-folder-name-that-overflows";
    let shown = crumb_name(&join(b"/tmp", long.as_bytes()));
    assert_eq!(shown.chars().count(), 22);
    assert!(shown.ends_with('…'));
}

#[test]
fn the_last_four_crumbs_are_shown() {
    assert_eq!(hidden_crumbs(0), 0);
    assert_eq!(hidden_crumbs(4), 0);
    assert_eq!(hidden_crumbs(7), 3);
}

#[test]
fn labels_follow_the_mode() {
    assert_eq!(default_accept_label(FileChooserMode::OpenFile), "Open");
    assert_eq!(default_accept_label(FileChooserMode::OpenDirectory), "Select");
    assert_eq!(default_accept_label(FileChooserMode::SaveFile), "Save");
    assert_eq!(default_accept_label(FileChooserMode::SaveFiles), "Select");
}

#[test]
fn file_names_hold_no_separator() {
    assert!(valid_filename("notes.txt"));
    assert!(!valid_filename(""));
    assert!(!valid_filename("a/b"));
    assert!(!valid_filename("a\0b"));
}

#[test]
fn paths_come_apart_as_the_platform_does() {
    assert_eq!(parent_of(b"/tmp/a"), Some(b"/tmp".to_vec()));
    assert_eq!(parent_of(b"/"), None);
    assert_eq!(parent_of(b"a"), Some(Vec::new()));
    assert_eq!(file_name_of(b"/tmp/a/"), Some(b"a".to_vec()));
    assert_eq!(file_name_of(b"/tmp/.."), None);
    assert_eq!(join(b"/tmp", b"/etc"), b"/etc".to_vec());
    assert_eq!(join(b"/tmp/", b"a"), b"/tmp/a".to_vec());
    let joined = join(b"/tmp//x/.", b"a b");
    assert_eq!(file_name_of(&joined), Some(b"a b".to_vec()));
    assert_eq!(parent_of(&joined), Some(b"/tmp//x".to_vec()));
}

#[test]
fn locations_are_expanded_and_normalized() {
    let home = path("/home/ming");
    assert_eq!(expand_tilde("~", Some(&home)), b"/home/ming".to_vec());
    assert_eq!(expand_tilde("~/x", Some(&home)), b"/home/ming/x".to_vec());
    assert_eq!(expand_tilde("~x", Some(&home)), b"~x".to_vec());
    assert_eq!(normalize_lexical(b"/a/./b/../c"), b"/a/c".to_vec());
    assert_eq!(locate("../b", b"/tmp/a", None), b"/tmp/b".to_vec());
    for written in ["/a/./b/../c", "../../x/./y", "/..", "a/../..", "", "./a//b/"] {
        let normal = normalize_lexical(written.as_bytes());
        assert_eq!(normalize_lexical(&normal), normal);
    }
    assert_eq!(normalize_lexical(b"a/../.."), b"..".to_vec());
    assert_eq!(
        split_dir_tail("/usr/li"),
        ("/usr/".to_owned(), "li".to_owned())
    );
    assert_eq!(
        common_prefix(&vec!["share".to_owned(), "shadow".to_owned()]),
        "sha"
    );
}

fn opened(mode: FileChooserMode, folder: &str) -> State {
    let mut request = request(mode);
    request.current_folder = Some(path(folder));
    State::new(request, None)
}

#[test]
fn navigation_can_be_taken_back_and_forth() {
    let mut state = opened(FileChooserMode::OpenFile, "/tmp");
    assert_eq!(state.dir, path("/tmp"));
    state.navigate(path("/usr"));
    assert_eq!(state.dir, path("/usr"));
    assert!(state.reload);
    state.go_back();
    assert_eq!(state.dir, path("/tmp"));
    state.go_forward();
    assert_eq!(state.dir, path("/usr"));
    state.go_parent();
    assert_eq!(state.dir, path("/"));
}

#[test]
fn accepting_answers_with_paths_filter_and_choices() {
    let mut request = request(FileChooserMode::OpenFile);
    request.current_folder = Some(path("/tmp"));
    request.filters = vec![filter("Text", &[("*.txt", FilterRuleKind::Glob)])];
    request.choices = vec![Choice {
        id: "encoding".into(),
        label: "Encoding".into(),
        options: vec![
            ("utf8".into(), "UTF-8".into()),
            ("latin1".into(), "Latin-1".into()),
        ],
        selected: "latin1".into(),
    }];
    let mut state = State::new(request, None);
    state.reload_entries(Ok(items()));
    assert_eq!(state.entries.len(), 3);
    assert_eq!(state.choices.len(), 1);
    assert!(matches!(state.choices[0], ChoiceState::Options(1)));
    assert!(!state.accept_valid());
    let entry = state.entries[2].copy();
    state.select(&entry.path);
    assert!(state.accept_valid());
    match state.accept() {
        Effect::Finish(paths) => {
            let occupied = |_: &Vec<u8>| -> bool { panic!("only asked when many files are saved") };
            state.finish_accept(paths, &occupied);
        }
        _ => panic!("an open file needs no look at the target"),
    }
    match state.done {
        Some(FileChooserResponse::Selected {
            paths,
            current_filter,
            choices,
        }) => {
            assert_eq!(paths, vec![path("/tmp/beta.txt")]);
            assert_eq!(current_filter.map(|f| f.label), Some("Text".to_owned()));
            assert_eq!(choices, vec![("encoding".to_owned(), "latin1".to_owned())]);
        }
        _ => panic!("the dialog answers"),
    }
}

#[test]
fn saving_over_a_file_asks_first() {
    let mut state = opened(FileChooserMode::SaveFile, "/tmp");
    state.set_name("out.txt");
    let target = match state.accept() {
        Effect::Probe(target) => target,
        _ => panic!("saving looks at the target"),
    };
    assert_eq!(target, path("/tmp/out.txt"));
    match state.target_probed(target, true) {
        Effect::Nothing => {}
        _ => panic!("an existing target waits for an answer"),
    }
    assert_eq!(state.confirm_overwrite, Some(path("/tmp/out.txt")));
    match state.overwrite_confirmed() {
        Effect::Finish(paths) => assert_eq!(paths, vec![path("/tmp/out.txt")]),
        _ => panic!("a confirmed target is taken"),
    }
}

#[test]
fn folders_are_created_where_the_dialog_stands() {
    let mut state = opened(FileChooserMode::OpenDirectory, "/tmp");
    state.open_folder_row();
    assert!(state.creating_folder);
    state.folder_name = "a/b".to_owned();
    match state.create_folder() {
        Effect::Nothing => {}
        _ => panic!("a name with a separator is refused"),
    }
    assert!(state.folder_error.is_some());
    state.folder_name = "new".to_owned();
    let target = match state.create_folder() {
        Effect::CreateFolder(target) => target,
        _ => panic!("a valid name is created"),
    };
    assert_eq!(target, path("/tmp/new"));
    state.folder_created(target, FolderOutcome::Created);
    assert_eq!(state.dir, path("/tmp/new"));
}

#[test]
fn escape_cancels_the_dialog() {
    let mut state = opened(FileChooserMode::OpenFile, "/tmp");
    state.begin_frame(&input(&[]));
    assert!(state.done.is_none());
    state.handle_keys(&input(&[Key::Escape]), true, 0, None);
    assert!(state.done.is_none(), "an open popup owns the key");
    state.handle_keys(&input(&[Key::Escape]), false, 0, None);
    assert!(matches!(state.done, Some(FileChooserResponse::Cancelled)));
}

#[test]
fn the_footer_names_filters_and_the_answer() {
    let filters: Vec<FileFilter> = (0..20).map(|n| filter(&format!("f{n}"), &[])).collect();
    let labels = filter_labels(&filters);
    assert_eq!(labels.len(), 16);
    assert_eq!(labels[0], "f0");
    assert_eq!(labels[15], "f15");
    assert_eq!(filter_labels(&vec![filter("only", &[])]), vec!["only"]);

    let mut asked = request(FileChooserMode::SaveFile);
    assert_eq!(file_accept_label(&asked), "Save");
    asked.mode = FileChooserMode::OpenFile;
    assert_eq!(file_accept_label(&asked), "Open");
    asked.accept_label = Some("_Import".to_owned());
    assert_eq!(file_accept_label(&asked), "Import");

    assert_eq!(
        overwrite_text(&path("/tmp/a.txt")),
        "A file named \"a.txt\" already exists. Do you want to replace it?"
    );
    assert_eq!(
        overwrite_text(&path("/")),
        "A file named \"\" already exists. Do you want to replace it?"
    );
}

#[test]
fn titles_fall_back_to_the_mode() {
    let mut asked = request(FileChooserMode::OpenFile);
    assert_eq!(requested_title(&asked), "Choose");
    asked.title = String::new();
    assert_eq!(requested_title(&asked), "Open File");
    asked.multiple = true;
    assert_eq!(requested_title(&asked), "Open Files");
    asked.mode = FileChooserMode::SaveFile;
    assert_eq!(requested_title(&asked), "Save File");
    asked.mode = FileChooserMode::SaveFiles;
    assert_eq!(requested_title(&asked), "Choose Folder");
}

#[test]
fn clicks_select_and_double_clicks_activate() {
    let mut state = opened(FileChooserMode::OpenFile, "/tmp");
    state.reload_entries(Ok(items()));
    let (folder, file) = (state.entries[0].copy(), state.entries[2].copy());
    assert!(folder.is_dir);
    assert!(matches!(state.handle_click(2, &file, 1000), Effect::Nothing));
    assert_eq!(state.selected.paths(), vec![b"/tmp/beta.txt".to_vec()]);
    match state.handle_click(2, &file, 1399) {
        Effect::Finish(paths) => assert_eq!(paths, vec![path("/tmp/beta.txt")]),
        _ => panic!("a double click opens the file"),
    }
    assert!(matches!(state.handle_click(0, &folder, 5000), Effect::Nothing));
    assert_eq!(state.dir, path("/tmp"));
    assert!(matches!(state.handle_click(0, &folder, 5400), Effect::Nothing));
    assert_eq!(state.dir, path("/tmp"), "the clicks are too far apart");
    assert!(matches!(state.handle_click(0, &folder, 5500), Effect::Nothing));
    assert_eq!(state.dir, path("/tmp/alpha"));
}

#[test]
fn the_keyboard_walks_the_listing() {
    let mut state = opened(FileChooserMode::OpenFile, "/tmp");
    state.reload_entries(Ok(items()));
    state.handle_keys(&input(&[Key::End]), false, 0, None);
    assert_eq!(state.focus_index, Some(2));
    assert_eq!(state.selected.paths(), vec![b"/tmp/beta.txt".to_vec()]);
    state.handle_keys(&input(&[Key::Down]), false, 0, None);
    assert_eq!(state.focus_index, Some(2));
    state.handle_keys(&input(&[Key::Home]), false, 0, None);
    assert_eq!(state.focus_index, Some(0));
    state.handle_keys(&input(&[Key::Up]), false, 0, None);
    assert_eq!(state.focus_index, Some(0));
    let mut typed = input(&[]);
    typed.text = "z".to_owned();
    state.handle_keys(&typed, false, 0, None);
    assert_eq!(state.typed, "z");
    assert_eq!(state.focus_index, Some(1));
    state.handle_keys(&input(&[Key::Return]), false, 0, None);
    assert_eq!(state.dir, path("/tmp/zeta"));
    state.end_frame(&input(&[Key::Backspace]), true, false);
    assert_eq!(state.dir, path("/tmp/zeta"), "the folder field owns the key");
    state.end_frame(&input(&[Key::Backspace]), false, true);
    assert_eq!(state.dir, path("/tmp/zeta"), "the popup owns the key");
    state.end_frame(&input(&[Key::Backspace]), false, false);
    assert_eq!(state.dir, path("/tmp"));
}

#[test]
fn typed_locations_are_resolved() {
    let mut state = opened(FileChooserMode::OpenFile, "/tmp");
    let mut slash = input(&[]);
    slash.text = "/usr/../etc/".to_owned();
    state.handle_keys(&slash, false, 0, None);
    assert!(state.location_editing);
    let (effect, _) = state.handle_keys(&input(&[Key::Return]), false, 0, None);
    let full = match effect {
        Effect::Resolve(full) => full,
        _ => panic!("the location is looked at"),
    };
    assert_eq!(full, path("/etc"));
    let nowhere = LocationFacts {
        is_dir: false,
        is_file: false,
        parent_is_dir: false,
    };
    state.location_probed(&path("/nowhere/x"), nowhere);
    assert_eq!(
        state.location_error.as_deref(),
        Some("No such location: /nowhere/x")
    );
    let missing = LocationFacts {
        is_dir: false,
        is_file: false,
        parent_is_dir: true,
    };
    state.location_probed(&path("/etc/missing"), missing);
    assert_eq!(
        state.location_error.as_deref(),
        Some("No such file: /etc/missing")
    );
    let file = LocationFacts {
        is_dir: false,
        is_file: true,
        parent_is_dir: true,
    };
    state.location_probed(&path("/etc/hosts"), file);
    assert_eq!(state.dir, path("/etc"));
    assert_eq!(state.selected.paths(), vec![b"/etc/hosts".to_vec()]);
    let folder = LocationFacts {
        is_dir: true,
        is_file: false,
        parent_is_dir: true,
    };
    state.location_probed(&path("/usr"), folder);
    assert_eq!(state.dir, path("/usr"));
}

#[test]
fn tab_completes_the_location() {
    let mut state = opened(FileChooserMode::OpenFile, "/tmp");
    state.start_location_edit();
    assert_eq!(state.location, "/tmp");
    state.open_location("/tmp/al".to_owned());
    let (effect, _) = state.handle_keys(&input(&[Key::Tab]), false, 0, None);
    let completion = match effect {
        Effect::Complete(completion) => completion,
        _ => panic!("the folder is read"),
    };
    assert_eq!(completion.base, path("/tmp"));
    assert_eq!(completion.tail, "al");
    assert!(matches!(
        state.completed(&completion, Some(items()), None),
        Effect::Nothing
    ));
    assert_eq!(state.location, "/tmp/alpha/");
    assert_eq!(state.location_caret, 11);
}

#[test]
fn the_pointer_moves_the_focus_of_the_name() {
    let mut state = opened(FileChooserMode::SaveFile, "/tmp");
    state.name_pointer(true, false);
    assert!(state.name_focused);
    state.name_pointer(false, false);
    assert!(state.name_focused);
    state.name_pointer(false, true);
    assert!(!state.name_focused);
}

#[test]
fn places_and_filters_reload_the_listing() {
    let mut state = opened(FileChooserMode::OpenFile, "/tmp");
    state.reload_entries(Ok(items()));
    assert!(!state.reload);
    state.place_clicked(path("/tmp/."));
    assert_eq!(state.dir, path("/tmp"));
    assert!(!state.reload, "the browsed folder stays");
    state.place_clicked(path("/usr"));
    assert_eq!(state.dir, path("/usr"));
    assert!(state.reload);
    state.reload_entries(Err("denied".to_owned()));
    assert!(!state.reload);
    assert!(state.entries.is_empty());
    assert!(state.listing_error.is_some());
    state.filter_changed(0);
    assert!(state.reload);
    assert_eq!(state.focus_index, None);
}

#[test]
fn a_declined_overwrite_answers_nothing() {
    let mut state = opened(FileChooserMode::SaveFile, "/tmp");
    state.set_name("out.txt");
    let _ = state.target_probed(path("/tmp/out.txt"), true);
    assert!(state.confirm_frame(false), "the question opens");
    assert!(!state.confirm_frame(true));
    assert_eq!(state.confirm_overwrite, Some(path("/tmp/out.txt")));
    state.overwrite_declined();
    assert_eq!(state.confirm_overwrite, None);
    assert!(state.done.is_none());
    let _ = state.target_probed(path("/tmp/out.txt"), true);
    assert!(state.confirm_frame(false));
    assert!(!state.confirm_frame(false), "a click outside dismisses it");
    assert_eq!(state.confirm_overwrite, None);
}
