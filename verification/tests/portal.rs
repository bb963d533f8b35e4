use aegis_portal::app_chooser::{
    begin_pick, choose_application, run_pick, AppPickResult, PickStep, APP_CHOOSER_VERSION,
};
use aegis_portal::background::{
    apply_autostart, autostart_installed, begin_job, desktop_file_candidates, entry_name,
    finish_job, invalid_app_id, job_path, job_token, parse_options, valid_app_id, AutostartStep,
    BackgroundStore, Decision,
};
use aegis_portal::cast::CastStarted;
use aegis_portal::dynamic_launcher::{
    begin_prepare, consent_request, finish_prepare, request_install_token, run_prepare,
    PrepareStep, DYNAMIC_LAUNCHER_VERSION,
    LAUNCHER_TYPE_APPLICATION,
};
use aegis_portal::files::{capture_name, file_uri};
use aegis_portal::inhibit::{
    check_flags, InhibitCounts, InhibitError, InhibitJob, InhibitWorker, INHIBIT_IDLE,
    INHIBIT_VERSION,
};
use aegis_portal::notification::{
    add_notification, remove_notification, QueuedNotification, NOTIFICATION_VERSION,
};
use aegis_portal::options::{OptionValue, Options};
use aegis_portal::portal::{served_interfaces, Lockdown, BUS_NAME, DESKTOP_PATH};
use aegis_portal::random::random_token;
use aegis_portal::request::{already_active, RequestTracker};
use aegis_portal::schema::{
    ColorScheme, ConfirmPickResult, PickResult, Point, Request, Size, WindowId,
};
use aegis_portal::screencast::{
    begin_select, begin_start, create_session, locate, parse_select_options, pick_source, select_sources,
    start_cast, validate_select, CastOutcome, ListedWindow, SelectOptions, SelectStep, StartStep,
    WindowGeometry, CANCELLED, REFUSED, SCREENCAST_VERSION, SOURCE_TYPE_MONITOR,
    SOURCE_TYPE_WINDOW, SUCCESS,
};
use aegis_portal::session::{CastSource, SessionRegistry};
use aegis_portal::settings::{
    color_scheme, lookup, read_all, unknown_setting, Watcher, APPEARANCE_NAMESPACE,
    COLOR_SCHEME_KEY,
};
use aegis_portal::state::{
    autostart_dir_from, cache_dir_from, state_dir_from, temporary_name,
};

fn options(pairs: Vec<(&str, OptionValue)>) -> Options {
    let mut options = Options::new();
    for (key, value) in pairs {
        options.insert(key, value);
    }
    options
}

fn text(value: &str) -> OptionValue {
    OptionValue::Text(value.to_owned())
}

#[test]
fn lib_tracker_records_and_forgets_closes() {
    let mut tracker = RequestTracker::default();
    assert!(!tracker.was_closed("/r/1"));
    tracker.close("/r/1");
    assert!(tracker.was_closed("/r/1"));
    tracker.forget("/r/1");
    assert!(!tracker.was_closed("/r/1"));
}

#[test]
fn request_tracker_records_and_forgets_closes() {
    let mut tracker = RequestTracker::default();
    assert!(!tracker.was_closed("/r/1"));
    tracker.close("/r/1");
    assert!(tracker.was_closed("/r/1"));
    tracker.forget("/r/1");
    assert!(!tracker.was_closed("/r/1"));
}

#[test]
fn close_marks_the_request_closed() {
    let mut tracker = RequestTracker::default();
    tracker.close("/r/1");
    assert!(tracker.was_closed("/r/1"));
    assert!(!tracker.was_closed("/r/2"));
}

#[test]
fn finish_removes_the_object_and_forgets_the_close_marker() {
    let mut tracker = RequestTracker::default();
    tracker.close("/r/fin");
    tracker.close("/r/other");
    tracker.forget("/r/fin");
    assert!(!tracker.was_closed("/r/fin"));
    assert!(tracker.was_closed("/r/other"));
    assert_eq!(
        already_active("/r/dup"),
        "request handle /r/dup is already active"
    );
}

#[test]
fn app_chooser_version_is_2() {
    assert_eq!(APP_CHOOSER_VERSION, 2);
}

#[test]
fn notification_version_is_2() {
    assert_eq!(NOTIFICATION_VERSION, 2);
}

#[test]
fn version_and_launcher_types() {
    assert_eq!(DYNAMIC_LAUNCHER_VERSION, 1);
    assert_eq!(LAUNCHER_TYPE_APPLICATION, 1);
}

#[test]
fn the_most_specific_subject_wins() {
    let apps = vec!["org.a".to_owned()];
    let all = options(vec![
        ("content_type", text("text/plain")),
        ("uri", text("file:///a")),
        ("filename", text("a.txt")),
        ("last_choice", text("org.a")),
    ]);
    let request = choose_application(&apps, &all).unwrap_or_else(|m| panic!("{m}"));
    assert_eq!(request.subject.as_deref(), Some("a.txt"));
    assert_eq!(request.last_choice.as_deref(), Some("org.a"));
    let typed = options(vec![
        ("content_type", text("text/plain")),
        ("uri", OptionValue::U32(1)),
    ]);
    let request = choose_application(&apps, &typed).unwrap_or_else(|m| panic!("{m}"));
    assert_eq!(request.subject.as_deref(), Some("text/plain"));
    match choose_application(&Vec::new(), &all) {
        Err(m) => assert_eq!(m, "choices must not be empty"),
        Ok(_) => panic!("no candidates are refused"),
    }
}

#[test]
fn picks_answer_with_their_code() {
    let mut tracker = RequestTracker::default();
    let chosen = || AppPickResult::App { id: "org.a".into() };
    assert_eq!(
        run_pick(&tracker, "/r/1", chosen()),
        (SUCCESS, Some("org.a".to_owned()))
    );
    assert_eq!(run_pick(&tracker, "/r/1", AppPickResult::Cancelled), (CANCELLED, None));
    assert_eq!(run_pick(&tracker, "/r/1", AppPickResult::Failed), (REFUSED, None));
    tracker.close("/r/1");
    assert_eq!(run_pick(&tracker, "/r/1", chosen()), (CANCELLED, None));
}

#[test]
fn notifications_are_read_and_found_again() {
    let read = add_notification(&options(vec![("title", text("Hi"))]));
    assert_eq!((read.summary.as_str(), read.body.as_str()), ("Hi", ""));
    let queue: Vec<QueuedNotification> = [(1, "org.a", "x"), (2, "org.b", "y"), (3, "org.b", "y")]
        .iter()
        .map(|(id, app, external)| QueuedNotification {
            id: *id,
            app_id: Some((*app).to_owned()),
            external_id: Some((*external).to_owned()),
        })
        .collect();
    assert_eq!(remove_notification(&queue, "org.b", "y"), Some(2));
    assert_eq!(remove_notification(&queue, "org.a", "y"), None);
}

#[test]
fn launchers_need_consent() {
    match consent_request("org.a", "Game") {
        Request::PickConfirm {
            title,
            body,
            accept_label,
        } => {
            assert_eq!(title, "Install Launcher");
            assert_eq!(
                body,
                "The application 'org.a' wants to install a launcher named 'Game' on this desktop."
            );
            assert_eq!(accept_label.as_deref(), Some("Install"));
        }
        _ => panic!("a confirmation"),
    }
    let mut tracker = RequestTracker::default();
    let yes = Some(ConfirmPickResult::Confirmed);
    assert_eq!(run_prepare(&tracker, "/r/1", yes), SUCCESS);
    assert_eq!(
        run_prepare(&tracker, "/r/1", Some(ConfirmPickResult::Cancelled)),
        CANCELLED
    );
    assert_eq!(run_prepare(&tracker, "/r/1", None), REFUSED);
    tracker.close("/r/1");
    assert_eq!(run_prepare(&tracker, "/r/1", yes), CANCELLED);
    assert_eq!(request_install_token(), CANCELLED);
}

#[test]
fn options_default_to_false_without_token() {
    let parsed = parse_options(&options(vec![]));
    assert!(!parsed.background);
    assert!(!parsed.autostart);
    assert_eq!(parsed.handle_token, None);
}

#[test]
fn options_parse_flags_and_token() {
    let parsed = parse_options(&options(vec![
        ("background", OptionValue::Bool(true)),
        ("autostart", OptionValue::Bool(true)),
        ("handle_token", text("bg1")),
        ("reason", text("downloads")),
    ]));
    assert!(parsed.background && parsed.autostart);
    assert_eq!(parsed.handle_token.as_deref(), Some("bg1"));
    for token in ["", "a/b", "a-b", "ä"] {
        let parsed = parse_options(&options(vec![("handle_token", text(token))]));
        assert_eq!(parsed.handle_token, None);
    }
}

#[test]
fn app_ids_follow_desktop_file_id_rules() {
    assert!(valid_app_id("org.example.App"));
    assert!(valid_app_id("a-b_c"));
    assert!(!valid_app_id(""));
    assert!(!valid_app_id("../evil"));
    assert!(!valid_app_id("a/b"));
    assert!(!valid_app_id("with space"));
}

#[test]
fn app_ids_are_bounded() {
    assert!(valid_app_id(&"a".repeat(255)));
    assert!(!valid_app_id(&"a".repeat(256)));
    assert_eq!(invalid_app_id("a b"), "invalid app_id 'a b'");
    assert_eq!(entry_name("org.a"), "org.a.desktop");
}

#[test]
fn decision_store_round_trips_through_the_state_file() {
    let mut store = BackgroundStore::load(None);
    assert_eq!(store.decision("org.example.App"), None);
    let decision = Decision {
        background: true,
        autostart: true,
    };
    store.set("org.example.App", decision);
    let mut document = aegis_portal::textmap::TextMap::new();
    for app in store.apps() {
        if let Some(decision) = store.decision(&app) {
            document.insert(&app, decision);
        }
    }
    let reloaded = BackgroundStore::load(Some(document));
    assert_eq!(reloaded.decision("org.example.App"), Some(decision));
}

#[test]
fn decisions_degrade_to_memory_without_a_state_dir() {
    let mut store = BackgroundStore::load(None);
    store.set(
        "org.example.App",
        Decision {
            background: true,
            autostart: false,
        },
    );
    assert_eq!(
        store.decision("org.example.App"),
        Some(Decision {
            background: true,
            autostart: false
        })
    );
}

#[test]
fn recorded_decisions_win_over_later_requests() {
    let mut store = BackgroundStore::load(None);
    let mut tracker = RequestTracker::default();
    let asked = Decision {
        background: true,
        autostart: true,
    };
    let decision = begin_job(&store, &tracker, "/r/1", "org.a", asked).unwrap();
    assert_eq!(decision, asked);
    let granted = Decision {
        background: true,
        autostart: false,
    };
    assert_eq!(finish_job(&mut store, "org.a", decision, false), (granted, true));
    let decision = begin_job(&store, &tracker, "/r/2", "org.a", asked).unwrap();
    assert_eq!(decision, granted);
    assert_eq!(finish_job(&mut store, "org.a", decision, false), (granted, false));
    tracker.close("/r/3");
    assert_eq!(begin_job(&store, &tracker, "/r/3", "org.a", asked), None);
}

#[test]
fn autostart_file_is_written_and_removed() {
    assert_eq!(apply_autostart(true, true, false, false), AutostartStep::Nothing);
    assert_eq!(apply_autostart(true, true, true, false), AutostartStep::Install);
    assert_eq!(apply_autostart(true, true, true, true), AutostartStep::Keep);
    assert_eq!(apply_autostart(false, true, false, true), AutostartStep::Remove);
    assert_eq!(apply_autostart(true, false, true, false), AutostartStep::Nothing);
    assert!(autostart_installed(AutostartStep::Keep, true));
    assert!(autostart_installed(AutostartStep::Install, true));
    assert!(!autostart_installed(AutostartStep::Install, false));
    assert!(!autostart_installed(AutostartStep::Remove, true));
    assert!(!autostart_installed(AutostartStep::Nothing, true));
}

#[test]
fn desktop_entries_are_searched_in_order() {
    let list = desktop_file_candidates("a", Some(b"/data"), Some(b"/home/u"), Some("/x::/y:"));
    assert_eq!(
        list,
        vec![
            b"/data/applications/a.desktop".to_vec(),
            b"/x/applications/a.desktop".to_vec(),
            b"/y/applications/a.desktop".to_vec(),
        ]
    );
    let list = desktop_file_candidates("a", Some(b""), Some(b"/home/u"), None);
    assert_eq!(
        list,
        vec![
            b"/home/u/.local/share/applications/a.desktop".to_vec(),
            b"/usr/local/share/applications/a.desktop".to_vec(),
            b"/usr/share/applications/a.desktop".to_vec(),
        ]
    );
}

#[test]
fn autostart_dir_prefers_config_home() {
    assert_eq!(
        autostart_dir_from(Some(b"/cfg"), Some(b"/home/u")),
        Some(b"/cfg/autostart".to_vec())
    );
    assert_eq!(
        autostart_dir_from(None, Some(b"/home/u")),
        Some(b"/home/u/.config/autostart".to_vec())
    );
    assert_eq!(autostart_dir_from(None, None), None);
}

#[test]
fn cache_dir_prefers_cache_home_and_falls_back_to_runtime_dir() {
    let runtime: &[u8] = b"/run/user/1000";
    assert_eq!(
        cache_dir_from(Some(b"/cache"), Some(runtime)),
        Some(b"/cache/aegis-portal".to_vec())
    );
    assert_eq!(
        cache_dir_from(None, Some(runtime)),
        Some(b"/run/user/1000/aegis-portal".to_vec())
    );
    assert_eq!(
        cache_dir_from(Some(b""), Some(runtime)),
        Some(b"/run/user/1000/aegis-portal".to_vec())
    );
    assert_eq!(cache_dir_from(None, None), None);
}

#[test]
fn state_dir_prefers_data_home_and_falls_back_to_home() {
    assert_eq!(
        state_dir_from(Some(b"/data"), Some(b"/home/u")),
        Some(b"/data/aegis-portal".to_vec())
    );
    assert_eq!(
        state_dir_from(None, Some(b"/home/u")),
        Some(b"/home/u/.local/share/aegis-portal".to_vec())
    );
    assert_eq!(
        state_dir_from(Some(b""), None),
        None,
        "an empty XDG_DATA_HOME without HOME yields no state directory"
    );
    assert_eq!(state_dir_from(None, None), None);
}

#[test]
fn captures_are_named_by_time_and_token() {
    assert_eq!(capture_name(1234, "tok1"), "screenshot-1234-tok1.png");
    assert_eq!(temporary_name("doc.json", 7), ".doc.json.7.tmp");
}

#[test]
fn random_tokens_are_hex_and_unique() {
    let a = random_token().unwrap();
    let b = random_token().unwrap();
    assert_eq!(a.len(), 32);
    assert!(a.chars().all(|c| c.is_ascii_hexdigit()));
    assert_ne!(a, b);
}

#[test]
fn file_uri_encodes_only_what_it_must() {
    assert_eq!(file_uri(b"/a/b-c_d.png"), "file:///a/b-c_d.png");
    assert_eq!(
        file_uri("/a b/ç.png".as_bytes()),
        "file:///a%20b/%C3%A7.png"
    );
}

#[test]
fn idle_uses_the_freedesktop_flag_value() {
    assert_eq!(INHIBIT_IDLE, 8);
}

#[test]
fn inhibit_version_is_one() {
    assert_eq!(INHIBIT_VERSION, 1);
}

#[test]
fn requests_are_independent_and_idempotently_released() {
    let mut counts = InhibitCounts::default();
    assert_eq!(counts.add("/r/1", "org.example.A"), 1);
    assert_eq!(counts.add("/r/2", "org.example.A"), 2);
    assert_eq!(counts.add("/r/3", "org.example.B"), 3);
    assert_eq!(counts.release("/r/2"), 2);
    assert_eq!(counts.release("/r/2"), 2);
    assert_eq!(counts.release("/r/1"), 1);
    assert_eq!(counts.release("/r/3"), 0);
}

#[test]
fn only_idle_is_inhibited() {
    assert!(check_flags(8).is_ok());
    assert!(matches!(
        check_flags(9),
        Err(InhibitError::NotSupported(m))
            if m == "Aegis supports idle inhibition only; unsupported flags 0x1"
    ));
    assert!(matches!(
        check_flags(0),
        Err(InhibitError::InvalidArgs(m)) if m == "Inhibit requires the idle flag (8)"
    ));
}

#[test]
fn the_compositor_is_told_when_inhibition_changes() {
    let mut worker = InhibitWorker {
        counts: InhibitCounts::default(),
        ipc_inhibited: false,
    };
    let action = worker.step(Some(InhibitJob::Add {
        request_path: "/r/1".into(),
        app_id: "org.a".into(),
    }));
    assert_eq!(action.set, Some(true));
    worker.told(true, true);
    assert_eq!(worker.step(None).set, Some(true));
    let action = worker.step(Some(InhibitJob::Release {
        request_path: "/r/1".into(),
    }));
    assert_eq!(action.set, Some(false));
    assert_eq!(action.remove.as_deref(), Some("/r/1"));
    worker.told(false, false);
    assert!(worker.ipc_inhibited);
}

#[test]
fn capability_file_advertises_exactly_the_served_interfaces() {
    assert_eq!(
        served_interfaces(true),
        [
            "org.freedesktop.impl.portal.Settings",
            "org.freedesktop.impl.portal.Screenshot",
            "org.freedesktop.impl.portal.ScreenCast",
            "org.freedesktop.impl.portal.Inhibit",
            "org.freedesktop.impl.portal.Secret",
            "org.freedesktop.impl.portal.Lockdown",
            "org.freedesktop.impl.portal.FileChooser",
            "org.freedesktop.impl.portal.Email",
            "org.freedesktop.impl.portal.AppChooser",
            "org.freedesktop.impl.portal.Notification",
            "org.freedesktop.impl.portal.Account",
            "org.freedesktop.impl.portal.DynamicLauncher",
            "org.freedesktop.impl.portal.Wallpaper",
        ]
    );
    assert_eq!(served_interfaces(false).len(), 12);
    assert_eq!(BUS_NAME, "org.freedesktop.impl.portal.desktop.aegis");
    assert_eq!(DESKTOP_PATH, "/org/freedesktop/portal/desktop");
    assert!(!Lockdown::default().disable_printing);
}

#[test]
fn color_scheme_maps_config_to_portal_enum() {
    assert_eq!(color_scheme(None), 0);
    assert_eq!(color_scheme(Some(ColorScheme::default())), 0);
    assert_eq!(color_scheme(Some(ColorScheme::Dark)), 1);
    assert_eq!(color_scheme(Some(ColorScheme::Light)), 2);
    assert_eq!(color_scheme(Some(ColorScheme::System)), 0);
}

#[test]
fn lookup_only_knows_the_appearance_namespace() {
    let config = Some(ColorScheme::Dark);
    assert_eq!(lookup(config, APPEARANCE_NAMESPACE, COLOR_SCHEME_KEY), Some(1));
    assert_eq!(lookup(config, APPEARANCE_NAMESPACE, "accent-color"), None);
    assert_eq!(
        lookup(config, "org.gnome.desktop.interface", "color-scheme"),
        None
    );
    assert_eq!(unknown_setting("a", "b"), "unknown setting a b");
}

#[test]
fn closed_requests_are_not_asked() {
    let mut tracker = RequestTracker::default();
    assert!(matches!(begin_select(&tracker, "/r/1"), SelectStep::Pick));
    tracker.close("/r/1");
    assert!(matches!(
        begin_select(&tracker, "/r/1"),
        SelectStep::Answer(CANCELLED)
    ));
    assert!(matches!(begin_select(&tracker, "/r/2"), SelectStep::Pick));
}

#[test]
fn settings_are_read_by_namespace_and_watched() {
    let config = Some(ColorScheme::Light);
    assert_eq!(read_all(config, &Vec::new()), Some(2));
    assert_eq!(read_all(config, &vec!["x".to_owned()]), None);
    assert_eq!(
        read_all(config, &vec!["x".to_owned(), APPEARANCE_NAMESPACE.to_owned()]),
        Some(2)
    );
    let mut watcher = Watcher {
        modified: Some(1),
        scheme: 0,
    };
    assert!(!watcher.look(Some(1)));
    assert!(watcher.look(Some(2)));
    assert!(!watcher.sample(0));
    assert!(watcher.look(Some(-2)));
    assert!(!watcher.look(Some(-2)));
    assert!(watcher.look(None));
    assert!(watcher.sample(1));
    assert!(!watcher.sample(1));
}

#[test]
fn select_options_default_to_monitor_with_hidden_cursor() {
    let parsed = parse_select_options(&options(vec![]));
    assert_eq!(parsed.source_types, SOURCE_TYPE_MONITOR);
    assert_eq!(parsed.cursor_mode, 1);
    assert!(validate_select(&parsed).is_ok());
}

#[test]
fn select_options_accept_monitor_and_window_mix() {
    let parsed = parse_select_options(&options(vec![("types", OptionValue::U32(0b11))]));
    assert!(validate_select(&parsed).is_ok());
}

#[test]
fn select_options_accept_only_hidden_cursor_mode() {
    for unsupported in [0u32, 2, 4, 5] {
        let parsed = parse_select_options(&options(vec![(
            "cursor_mode",
            OptionValue::U32(unsupported),
        )]));
        assert!(validate_select(&parsed).is_err());
    }
}

#[test]
fn select_options_accept_window_only_sources() {
    let window_only = parse_select_options(&options(vec![("types", OptionValue::U32(0b10))]));
    assert_eq!(window_only.source_types, SOURCE_TYPE_WINDOW);
    assert!(validate_select(&window_only).is_ok());
}

#[test]
fn select_options_refuse_unknown_source_bits() {
    let unknown = parse_select_options(&options(vec![("types", OptionValue::U32(0b100))]));
    assert!(validate_select(&unknown).is_err());
}

#[test]
fn screencast_version_is_3() {
    assert_eq!(SCREENCAST_VERSION, 3);
}

#[test]
fn select_options_ignore_wrong_types() {
    let parsed = parse_select_options(&options(vec![("types", text("monitor"))]));
    assert!(validate_select(&parsed).is_ok());
}

#[test]
fn select_refusals_have_their_messages() {
    assert_eq!(
        validate_select(&SelectOptions {
            source_types: 0,
            cursor_mode: 1
        }),
        Err("only monitor and window sources are supported".to_owned())
    );
    assert_eq!(
        validate_select(&SelectOptions {
            source_types: 1,
            cursor_mode: 2
        }),
        Err("cursor_mode 2 is not supported (Hidden only)".to_owned())
    );
}

#[test]
fn picks_must_be_of_an_accepted_kind() {
    let window = Some(PickResult::Window { id: WindowId(4) });
    assert_eq!(pick_source(window, 2), Ok(CastSource::Window(WindowId(4))));
    assert_eq!(pick_source(window, 1), Err(REFUSED));
    assert_eq!(pick_source(Some(PickResult::Output), 1), Ok(CastSource::Monitor));
    assert_eq!(pick_source(Some(PickResult::Output), 2), Err(REFUSED));
    assert_eq!(pick_source(Some(PickResult::Cancelled), 3), Err(CANCELLED));
    assert_eq!(pick_source(None, 3), Err(REFUSED));
}

fn registry_with(path: &str) -> SessionRegistry {
    let mut registry = SessionRegistry::default();
    registry.insert(path, "org.example.App".into()).unwrap();
    registry
}

#[test]
fn duplicate_session_paths_are_refused() {
    let mut registry = registry_with("/s/1");
    assert!(registry.contains("/s/1"));
    assert!(registry.insert("/s/1", "other".into()).is_err());
    assert!(registry.insert("/s/2", "other".into()).is_ok());
}

#[test]
fn start_requires_selected_sources_and_single_use() {
    let mut registry = registry_with("/s/1");
    assert!(registry.can_start("/s/1").is_err());
    registry
        .mark_sources_selected("/s/1", None, CastSource::Monitor)
        .unwrap();
    assert!(registry.can_start("/s/1").is_ok());
    assert!(registry
        .mark_sources_selected("/s/1", None, CastSource::Monitor)
        .is_err());
    registry.mark_started("/s/1");
    assert!(registry.can_start("/s/1").is_err());
}

#[test]
fn session_problems_have_their_messages() {
    let mut registry = registry_with("/s/1");
    assert_eq!(
        registry.can_start("/s/9"),
        Err("unknown session /s/9".to_owned())
    );
    assert_eq!(
        registry.can_start("/s/1"),
        Err("session /s/1 has not selected sources".to_owned())
    );
    registry
        .mark_sources_selected("/s/1", Some("tok".into()), CastSource::Window(WindowId(2)))
        .unwrap();
    assert_eq!(registry.source("/s/1"), Some(CastSource::Window(WindowId(2))));
    assert_eq!(registry.restore_token("/s/1").as_deref(), Some("tok"));
    registry.mark_started("/s/1");
    assert_eq!(
        registry.source_for_start("/s/1"),
        Err("session /s/1 already started".to_owned())
    );
    assert!(registry.remove("/s/1").is_some());
    assert!(registry.remove("/s/1").is_none());
    assert!(!registry.contains("/s/1"));
}

#[test]
fn casts_start_once_their_session_is_armed() {
    let mut tracker = RequestTracker::default();
    let mut sessions = SessionRegistry::default();
    assert_eq!(create_session(&tracker, &mut sessions, "/r/1", "/s/1", "org.a"), SUCCESS);
    assert_eq!(create_session(&tracker, &mut sessions, "/r/2", "/s/1", "org.a"), REFUSED);
    assert_eq!(
        begin_start(&tracker, &sessions, "/r/3", "/s/1"),
        StartStep::Answer(REFUSED)
    );
    let window = Some(PickResult::Window { id: WindowId(4) });
    assert_eq!(
        select_sources(&tracker, &mut sessions, "/r/4", "/s/1", 3, window),
        SUCCESS
    );
    assert_eq!(
        select_sources(&tracker, &mut sessions, "/r/4", "/s/1", 3, window),
        REFUSED
    );
    assert_eq!(
        begin_start(&tracker, &sessions, "/r/5", "/s/1"),
        StartStep::LocateWindow(WindowId(4))
    );
    let geometry = WindowGeometry {
        position: Point { x: 40, y: 60 },
        size: Size { w: 800, h: 600 },
    };
    let listed = Some(vec![ListedWindow {
        id: WindowId(4),
        geometry,
    }]);
    assert_eq!(locate(&listed, WindowId(4)), Some(geometry));
    assert_eq!(locate(&listed, WindowId(5)), None);
    assert_eq!(locate(&None, WindowId(4)), None);
    let started = || {
        CastOutcome::Started(CastStarted {
            node_id: 7,
            width: 1920,
            height: 1080,
        })
    };
    tracker.close("/r/5");
    let (code, report) =
        start_cast(&tracker, &mut sessions, "/r/5", "/s/1", Some(geometry), started());
    assert_eq!((code, report), (CANCELLED, None));
    let (code, report) =
        start_cast(&tracker, &mut sessions, "/r/6", "/s/1", Some(geometry), started());
    assert_eq!(code, SUCCESS);
    let report = report.unwrap();
    assert_eq!(report.source_type, SOURCE_TYPE_WINDOW);
    assert_eq!((report.position, report.size), ((40, 60), (800, 600)));
    assert!(sessions.can_start("/s/1").is_err());
    let (code, report) =
        start_cast(&tracker, &mut sessions, "/r/7", "/s/2", None, CastOutcome::TimedOut);
    assert_eq!((code, report), (REFUSED, None));
    let (_, report) = start_cast(&tracker, &mut sessions, "/r/8", "/s/2", None, started());
    assert_eq!(report.map(|r| (r.source_type, r.size)), Some((1, (1920, 1080))));
}

#[test]
fn closed_requests_are_not_asked_about() {
    let mut tracker = RequestTracker::default();
    assert_eq!(begin_pick(&tracker, "/r/1"), PickStep::Ask);
    match begin_prepare(&tracker, "/r/1", "app", "Name") {
        PrepareStep::Ask(request) => assert_eq!(request, consent_request("app", "Name")),
        PrepareStep::Answer(_) => panic!("the dialog is shown"),
    }
    tracker.close("/r/1");
    assert_eq!(begin_pick(&tracker, "/r/1"), PickStep::Answer(CANCELLED));
    assert!(matches!(
        begin_prepare(&tracker, "/r/1", "app", "Name"),
        PrepareStep::Answer(CANCELLED)
    ));
    assert_eq!(begin_pick(&tracker, "/r/2"), PickStep::Ask);
}

#[test]
fn launchers_get_a_fresh_token() {
    let mut tracker = RequestTracker::default();
    let prepare = |tracker: &RequestTracker, consent| {
        let (code, launcher) = finish_prepare(tracker, "/r/1", consent, "Name".to_owned());
        (code, launcher.map(|launcher| (launcher.name, launcher.token)))
    };
    let yes = Some(ConfirmPickResult::Confirmed);
    let (code, launcher) = prepare(&tracker, yes);
    assert_eq!(code, SUCCESS);
    let (name, token) = launcher.unwrap();
    assert_eq!(name, "Name");
    assert_eq!(token.len(), 32);
    assert_ne!(prepare(&tracker, yes).1, Some((name, token)));
    assert_eq!(prepare(&tracker, Some(ConfirmPickResult::Cancelled)), (CANCELLED, None));
    assert_eq!(prepare(&tracker, None), (REFUSED, None));
    tracker.close("/r/1");
    assert_eq!(prepare(&tracker, yes), (CANCELLED, None));
}

#[test]
fn tokens_name_the_request() {
    let handle = "/org/freedesktop/portal/desktop/request/1_42/t";
    assert_eq!(job_token(handle, None), "t");
    assert_eq!(job_token(handle, Some("bg1".to_owned())), "bg1");
    assert_eq!(
        job_path(":1.42", "bg1"),
        "/org/freedesktop/portal/desktop/request/1_42/bg1"
    );
    assert_eq!(
        job_path("org.example.App", "t"),
        "/org/freedesktop/portal/desktop/request/org_example_App/t"
    );
    assert_eq!(job_path(":1.42", &job_token(handle, None)), handle);
}

#[test]
fn recorded_applications_are_listed_once() {
    let mut store = BackgroundStore::load(None);
    let yes = Decision {
        background: true,
        autostart: false,
    };
    store.set("b", yes);
    store.set("a", yes);
    store.set("b", yes);
    let mut apps = store.apps();
    apps.sort();
    assert_eq!(apps, vec!["a", "b"]);
}
