use aegis_portal::prompter::{
    check_message, split_extension, validate_absolute_path, validate_basename, validate_prompt_text, BytePath,
    Choice, ConfirmRequest, ConfirmResponse, FileChooserMode, FileChooserRequest,
    FileChooserResponse, FileFilter, FilterRule, FilterRuleKind, PromptRequest, PromptResult,
    PrompterRequest, PrompterResponse, SecretRequest, SecretResponse, MAX_MESSAGE_BYTES,
    MAX_PROMPT_TEXT_BYTES, PROCESS_CONTRACT_VERSION,
};

fn request(mode: FileChooserMode) -> FileChooserRequest {
    FileChooserRequest {
        mode,
        app_id: "dev.aegis.Test".into(),
        title: "Choose".into(),
        accept_label: None,
        modal: true,
        parent_window: None,
        multiple: false,
        current_folder: None,
        current_name: None,
        current_file: None,
        filters: Vec::new(),
        current_filter: None,
        choices: Vec::new(),
        files: Vec::new(),
    }
}

fn choice(id: &str, options: &[(&str, &str)], selected: &str) -> Choice {
    Choice {
        id: id.into(),
        label: "Label".into(),
        options: options
            .iter()
            .map(|(id, label)| ((*id).to_owned(), (*label).to_owned()))
            .collect(),
        selected: selected.into(),
    }
}

#[test]
fn process_contract_rejects_version_mismatches() {
    let envelope = PrompterRequest {
        version: PROCESS_CONTRACT_VERSION + 1,
        prompt: PromptRequest::FileChooser(request(FileChooserMode::OpenFile)),
    };
    assert!(envelope.into_file_chooser().is_err());
    let envelope = PrompterResponse {
        version: PROCESS_CONTRACT_VERSION + 1,
        result: PromptResult::FileChooser(FileChooserResponse::Cancelled),
    };
    assert!(envelope.into_file_chooser().is_err());
}

#[test]
fn version_mismatches_name_both_versions() {
    let envelope = PrompterRequest {
        version: 4_000_000_000,
        prompt: PromptRequest::FileChooser(request(FileChooserMode::OpenFile)),
    };
    assert_eq!(
        envelope.into_prompt().unwrap_err(),
        "unsupported prompter request version 4000000000; expected 3"
    );
    let envelope = PrompterResponse {
        version: 0,
        result: PromptResult::FileChooser(FileChooserResponse::Cancelled),
    };
    assert_eq!(
        envelope.into_result().err(),
        Some("unsupported prompter response version 0; expected 3".to_owned())
    );
}

#[test]
fn envelopes_open_to_what_was_put_in() {
    let chooser = request(FileChooserMode::OpenFile);
    assert_eq!(
        PrompterRequest::new(chooser.clone()).into_file_chooser(),
        Ok(chooser)
    );
    let secret = PrompterRequest::secret(SecretRequest {
        title: "Unlock".into(),
        reason: None,
    });
    assert_eq!(
        secret.into_file_chooser().unwrap_err(),
        "prompter request is not a file chooser request"
    );
    assert_eq!(
        PrompterResponse::confirm(ConfirmResponse::Confirmed)
            .into_file_chooser()
            .unwrap_err(),
        "prompter response is not a file chooser response"
    );
    assert_eq!(
        PrompterResponse::failed("no display".into())
            .into_file_chooser()
            .unwrap_err(),
        "no display"
    );
    assert_eq!(
        PrompterResponse::new(FileChooserResponse::Cancelled).into_file_chooser(),
        Ok(FileChooserResponse::Cancelled)
    );
}

#[test]
fn secrets_stay_out_of_descriptions() {
    let mut secret = SecretResponse::Secret {
        value: "do-not-log-this".into(),
    };
    assert_eq!(secret.debug_text(), "SecretResponse::Secret([REDACTED])");
    assert_eq!(secret.take_value(), Some("do-not-log-this".to_owned()));
    assert_eq!(secret.take_value(), Some(String::new()));
    let mut cancelled = SecretResponse::Cancelled;
    assert_eq!(cancelled.debug_text(), "SecretResponse::Cancelled");
    assert_eq!(cancelled.take_value(), None);
    let envelope = PrompterResponse::secret(SecretResponse::Cancelled);
    assert!(matches!(
        envelope.into_result(),
        Ok(PromptResult::Secret(SecretResponse::Cancelled))
    ));
}

#[test]
fn confirmation_and_secret_text_are_bounded() {
    let empty = PrompterRequest::confirm(ConfirmRequest {
        title: String::new(),
        body: "Body".into(),
        accept_label: None,
        modal: true,
        parent_window: None,
    });
    assert!(empty.into_prompt().is_err());

    let oversized = PrompterRequest::secret(SecretRequest {
        title: "Unlock".into(),
        reason: Some("x".repeat(MAX_PROMPT_TEXT_BYTES + 1)),
    });
    assert!(oversized.into_prompt().is_err());
}

#[test]
fn prompt_text_limits_are_exact() {
    assert!(validate_prompt_text("t", &"x".repeat(MAX_PROMPT_TEXT_BYTES), false).is_ok());
    assert_eq!(
        validate_prompt_text("t", &"x".repeat(MAX_PROMPT_TEXT_BYTES + 1), true).unwrap_err(),
        "t is empty, oversized, or contains NUL"
    );
    // The limit counts bytes, not characters.
    assert!(validate_prompt_text("t", &"é".repeat(MAX_PROMPT_TEXT_BYTES / 2 + 1), true).is_err());
    assert!(validate_prompt_text("t", " \u{3000}\t\n", false).is_err());
    assert!(validate_prompt_text("t", "", true).is_ok());
    assert!(validate_prompt_text("t", "a\0b", true).is_err());
    let blank_parent = ConfirmRequest {
        title: "T".into(),
        body: "B".into(),
        accept_label: Some(" ".into()),
        modal: false,
        parent_window: Some(String::new()),
    };
    assert_eq!(
        blank_parent.validate().unwrap_err(),
        "confirmation accept label is empty, oversized, or contains NUL"
    );
}

#[test]
fn save_files_rejects_paths_and_parent_components() {
    for name in ["", ".", "..", "a/b", "/absolute"] {
        let mut req = request(FileChooserMode::SaveFiles);
        req.files.push(BytePath::from_path(name));
        assert!(req.validate().is_err(), "{name:?} must be rejected");
    }
}

#[test]
fn basename_errors_quote_the_name() {
    assert_eq!(
        validate_basename(b"a/b").unwrap_err(),
        "SaveFiles name \"a/b\" is not a single non-empty basename"
    );
    assert_eq!(
        validate_basename(b"a\0b").unwrap_err(),
        "SaveFiles basenames must not contain NUL"
    );
    assert!(validate_basename(b"a.txt").is_ok());
    assert!(validate_basename(b"a.txt/").is_ok());
    assert!(validate_basename(b"./a.txt").is_err());
    for name in ["it's/x", "tab\t/\"q\"", "e\u{301}/\u{301}", "/é中\u{1F600}\u{7f}"] {
        let expected = format!(
            "SaveFiles name {:?} is not a single non-empty basename",
            std::path::Path::new(name)
        );
        assert_eq!(validate_basename(name.as_bytes()).unwrap_err(), expected);
    }
    assert_eq!(
        validate_basename(b"/a\xff\xe2\x82b").unwrap_err(),
        "SaveFiles name \"/a\\xFF\\xE2\\x82b\" is not a single non-empty basename"
    );
}

#[test]
fn request_rejects_non_absolute_locations_and_empty_filter_rules() {
    let mut req = request(FileChooserMode::OpenFile);
    req.current_folder = Some(BytePath::from_path("relative"));
    assert!(req.validate().is_err());

    req.current_folder = Some(BytePath::from_path("/tmp"));
    req.filters.push(FileFilter {
        label: "Files".into(),
        rules: vec![FilterRule {
            kind: FilterRuleKind::Glob,
            value: String::new(),
        }],
    });
    assert!(req.validate().is_err());
}

#[test]
fn request_problems_are_reported_in_order() {
    assert_eq!(
        validate_absolute_path("current_file", b"/a\0").unwrap_err(),
        "current_file is not a valid absolute Unix path"
    );
    let mut req = request(FileChooserMode::OpenFile);
    req.files.push(BytePath::from_path("a"));
    assert_eq!(
        req.validate().unwrap_err(),
        "suggested files are valid only for SaveFiles"
    );
    let mut req = request(FileChooserMode::SaveFiles);
    assert_eq!(
        req.validate().unwrap_err(),
        "SaveFiles requires at least one suggested basename"
    );
    req.files.push(BytePath::from_path("a"));
    assert!(req.validate().is_ok());
    req.current_filter = Some(FileFilter::default());
    assert_eq!(
        req.validate().unwrap_err(),
        "filter labels and rules must not be empty"
    );
}

#[test]
fn duplicate_choice_ids_are_rejected() {
    let mut req = request(FileChooserMode::OpenFile);
    req.choices = vec![
        Choice {
            id: "encoding".into(),
            label: "Encoding".into(),
            options: vec![("utf8".into(), "UTF-8".into())],
            selected: "utf8".into(),
        },
        Choice {
            id: "encoding".into(),
            label: "Again".into(),
            options: Vec::new(),
            selected: "false".into(),
        },
    ];
    assert!(req.validate().is_err());
}

#[test]
fn every_choice_problem_has_its_message() {
    let cases = [
        (choice("", &[], ""), "choice ids and labels must not be empty"),
        (
            choice("c\n", &[("a", "")], ""),
            "choice \"c\\n\" contains an empty option",
        ),
        (
            choice("c", &[("a", "A"), ("a", "B")], ""),
            "choice \"c\" has duplicate option ids",
        ),
        (
            choice("c", &[], "maybe"),
            "boolean choice \"c\" has invalid value \"maybe\"",
        ),
        (
            choice("c", &[("a", "A")], "b"),
            "choice \"c\" selects unknown option \"b\"",
        ),
    ];
    for (choice, message) in cases {
        let mut req = request(FileChooserMode::OpenFile);
        req.choices.push(choice);
        assert_eq!(req.validate().unwrap_err(), message);
    }
    let mut req = request(FileChooserMode::OpenFile);
    req.choices = vec![choice("c", &[], ""), choice("c", &[], "true")];
    assert_eq!(req.validate().unwrap_err(), "duplicate choice id \"c\"");
    req.choices = vec![choice("c", &[], "true"), choice("d", &[("a", "A")], "a")];
    assert!(req.validate().is_ok());
}

#[test]
fn selected_response_is_checked_against_the_request() {
    let mut req = request(FileChooserMode::OpenFile);
    req.choices.push(Choice {
        id: "encoding".into(),
        label: "Encoding".into(),
        options: vec![("utf8".into(), "UTF-8".into())],
        selected: "utf8".into(),
    });
    let valid = FileChooserResponse::Selected {
        paths: vec![BytePath::from_path("/tmp/file.txt")],
        current_filter: None,
        choices: vec![("encoding".into(), "utf8".into())],
    };
    assert!(valid.validate_for(&req).is_ok());

    let invalid = FileChooserResponse::Selected {
        paths: vec![BytePath::from_path("relative")],
        current_filter: None,
        choices: vec![("encoding".into(), "unknown".into())],
    };
    assert!(invalid.validate_for(&req).is_err());
}

fn selected(paths: &[&str], choices: &[(&str, &str)]) -> FileChooserResponse {
    FileChooserResponse::Selected {
        paths: paths.iter().map(|path| BytePath::from_path(path)).collect(),
        current_filter: None,
        choices: choices
            .iter()
            .map(|(id, value)| ((*id).to_owned(), (*value).to_owned()))
            .collect(),
    }
}

#[test]
fn every_response_problem_has_its_message() {
    let mut req = request(FileChooserMode::OpenFile);
    assert_eq!(
        selected(&["/a", "/b"], &[]).validate_for(&req).unwrap_err(),
        "prompter returned 2 path(s), incompatible with OpenFile"
    );
    req.multiple = true;
    assert!(selected(&["/a", "/b"], &[]).validate_for(&req).is_ok());
    assert_eq!(
        selected(&[], &[]).validate_for(&req).unwrap_err(),
        "prompter returned 0 path(s), incompatible with OpenFile"
    );
    assert_eq!(
        selected(&["/a", "b"], &[]).validate_for(&req).unwrap_err(),
        "prompter returned an invalid local path \"b\""
    );
    assert_eq!(
        selected(&["/a"], &[("x", "true")])
            .validate_for(&req)
            .unwrap_err(),
        "prompter returned the wrong number of choices"
    );
    req.choices.push(choice("c", &[], ""));
    assert_eq!(
        selected(&["/a"], &[("x", "true")])
            .validate_for(&req)
            .unwrap_err(),
        "prompter returned unexpected choice id \"x\""
    );
    assert_eq!(
        selected(&["/a"], &[("c", "")]).validate_for(&req).unwrap_err(),
        "prompter returned invalid value \"\" for choice \"c\""
    );
    assert!(selected(&["/a"], &[("c", "false")]).validate_for(&req).is_ok());
    let filter = FileFilter {
        label: "Text".into(),
        rules: vec![FilterRule {
            kind: FilterRuleKind::Glob,
            value: "*.txt".into(),
        }],
    };
    let filtered = FileChooserResponse::Selected {
        paths: vec![BytePath::from_path("/a")],
        current_filter: Some(filter.clone()),
        choices: vec![("c".into(), "true".into())],
    };
    assert_eq!(
        filtered.validate_for(&req).unwrap_err(),
        "prompter returned a filter that was not offered"
    );
    req.current_filter = Some(filter.clone());
    assert!(filtered.validate_for(&req).is_ok());
    req.filters = vec![FileFilter::default()];
    assert!(filtered.validate_for(&req).is_err());
    assert!(FileChooserResponse::Cancelled.validate_for(&req).is_ok());
}

#[test]
fn save_files_preserves_order_and_avoids_existing_names() {
    let taken = [
        b"/folder/report.txt".to_vec(),
        b"/folder/report(1).txt".to_vec(),
    ];
    let mut req = request(FileChooserMode::SaveFiles);
    req.files = vec![
        BytePath::from_path("report.txt"),
        BytePath::from_path("image.png"),
    ];
    let paths = req
        .finish_paths(vec![BytePath::from_path("/folder")], &|path: &Vec<u8>| {
            taken.contains(path)
        })
        .unwrap();
    assert_eq!(paths[0], BytePath::from_path("/folder/report(2).txt"));
    assert_eq!(paths[1], BytePath::from_path("/folder/image.png"));
}

#[test]
fn save_files_avoids_duplicate_suggestions_in_one_request() {
    let mut req = request(FileChooserMode::SaveFiles);
    req.files = vec![
        BytePath::from_path("same.txt"),
        BytePath::from_path("same.txt"),
    ];
    let paths = req
        .finish_paths(vec![BytePath::from_path("/folder")], &|_: &Vec<u8>| false)
        .unwrap();
    assert_eq!(
        paths,
        [
            BytePath::from_path("/folder/same.txt"),
            BytePath::from_path("/folder/same(1).txt")
        ]
    );
    // A trailing separator does not make a name new.
    req.files = vec![BytePath::from_path("same"), BytePath::from_path("same/")];
    let paths = req
        .finish_paths(vec![BytePath::from_path("/folder/")], &|_: &Vec<u8>| false)
        .unwrap();
    assert_eq!(paths[0], BytePath::from_path("/folder/same"));
    assert_eq!(paths[1], BytePath::from_path("/folder/same/(1)"));
}

#[test]
fn finishing_other_modes_changes_nothing() {
    let req = request(FileChooserMode::OpenFile);
    let paths = vec![BytePath::from_path("/a"), BytePath::from_path("/b")];
    assert_eq!(req.finish_paths(paths.clone(), &|_: &Vec<u8>| true), Ok(paths));
    let req = request(FileChooserMode::SaveFiles);
    assert_eq!(
        req.finish_paths(Vec::new(), &|_: &Vec<u8>| false).unwrap_err(),
        "SaveFiles returned no selected folder"
    );
}

#[test]
fn extensions_split_at_the_last_inner_dot() {
    assert_eq!(split_extension(b"a.tar.gz"), (&b"a.tar"[..], Some(&b"gz"[..])));
    assert_eq!(split_extension(b".profile"), (&b".profile"[..], None));
    assert_eq!(split_extension(b"name."), (&b"name."[..], None));
    assert_eq!(split_extension(b"name"), (&b"name"[..], None));
}

#[test]
fn requests_are_bounded_before_they_are_decoded() {
    assert_eq!(MAX_MESSAGE_BYTES, 8 * 1024 * 1024);
    assert!(check_message(MAX_MESSAGE_BYTES).is_ok());
    assert_eq!(
        check_message(MAX_MESSAGE_BYTES + 1),
        Err("request exceeds the 8 MiB process-contract limit".to_owned())
    );
}
