use aegis_portal::choose_app::{
    hint, AppChoice, ChooseAppDialog, ChooseAppRequest, ChooseAppResponse,
};
use aegis_portal::dialogs::{
    accept_label, c_field_text, confirm_frame, confirm_result, plain_label, preedit, window_title,
    SecretDialog, SecretPointer, APP_ID,
};
use aegis_portal::edit::{delete_backward, delete_forward, insert, next_boundary, prev_boundary};
use aegis_portal::file_chooser::{ChoiceState, Key, KeyEvent, KeyInput};
use aegis_portal::prompter::{
    Choice, ConfirmRequest, ConfirmResponse, SecretRequest, SecretResponse,
};

#[test]
fn insert_moves_the_caret_with_the_text() {
    let mut text = String::from("ab");
    let mut caret = 1;
    insert(&mut text, &mut caret, "xy\n");
    assert_eq!(text, "axyb");
    assert_eq!(caret, 3);
}

#[test]
fn editing_is_char_boundary_safe() {
    let mut text = String::from("aé中");
    let mut caret = text.len();
    delete_backward(&mut text, &mut caret);
    assert_eq!(text, "aé");
    delete_backward(&mut text, &mut caret);
    assert_eq!(text, "a");
    delete_backward(&mut text, &mut caret);
    assert_eq!(text, "");
    delete_backward(&mut text, &mut caret);
    assert_eq!(text, "");

    insert(&mut text, &mut caret, "é中");
    let mut caret = 0;
    delete_forward(&mut text, &mut caret);
    assert_eq!(text, "中");
    delete_forward(&mut text, &mut caret);
    assert_eq!(text, "");
}

#[test]
fn caret_movement_clamps_to_the_ends() {
    let text = String::from("aé");
    assert_eq!(prev_boundary(&text, 0), 0);
    assert_eq!(next_boundary(&text, text.len()), text.len());
    assert_eq!(next_boundary(&text, 1), 3);
    assert_eq!(prev_boundary(&text, 3), 1);
}

#[test]
fn deleting_backward_undoes_an_insertion() {
    let mut text = String::from("ab");
    let mut caret = 1;
    insert(&mut text, &mut caret, "中");
    delete_backward(&mut text, &mut caret);
    assert_eq!(text, "ab");
    assert_eq!(caret, 1);
}

#[test]
fn titles_name_the_application() {
    assert_eq!(
        window_title("Open File", Some("dev.aegis.Test")),
        "Open File — dev.aegis.Test"
    );
    assert_eq!(window_title("Open File", Some("")), "Open File");
    assert_eq!(window_title("Open File", None), "Open File");
    assert_eq!(APP_ID, "dev.aegis.PortalPrompter");
}

#[test]
fn labels_lose_their_mnemonics() {
    assert_eq!(plain_label("_Share"), "Share");
    assert_eq!(plain_label("__a_b"), "a_b");
    assert_eq!(plain_label("___"), "");
    let mut request = ConfirmRequest {
        title: "Title".into(),
        body: "Body".into(),
        accept_label: Some("_Allow".into()),
        modal: true,
        parent_window: None,
    };
    assert_eq!(accept_label(&request), "Allow");
    request.accept_label = None;
    assert_eq!(accept_label(&request), "Continue");
}

#[test]
fn fields_end_at_their_zero_byte() {
    assert_eq!(c_field_text(b"abc\0def"), "abc");
    assert_eq!(c_field_text(b"abc"), "abc");
    assert_eq!(c_field_text(b"\0"), "");
    assert_eq!(c_field_text(b"a\xffb\0"), "a\u{fffd}b");
}

#[test]
fn compositions_are_clamped_to_boundaries() {
    let p = preedit("aé".as_bytes(), 2, 1, 99).unwrap();
    assert_eq!(p.text, "aé");
    assert_eq!(p.cursor, 1);
    assert_eq!(p.sel, (1, 3));
    assert!(preedit(b"\0abc", 1, 0, 0).is_none());
}

fn input(keys: &[Key], text: &str) -> KeyInput {
    KeyInput {
        keys: keys
            .iter()
            .map(|key| KeyEvent {
                key: *key,
                pressed: true,
                repeat: false,
            })
            .collect(),
        ctrl: false,
        logo: false,
        alt: false,
        text: text.to_owned(),
        paste: None,
    }
}

const IDLE: SecretPointer = SecretPointer {
    clicked: false,
    pressed_elsewhere: false,
    cancel: false,
    unlock: false,
};

fn secret_dialog() -> SecretDialog {
    SecretDialog::new(SecretRequest {
        title: "Unlock".into(),
        reason: None,
    })
}

#[test]
fn passwords_are_typed_and_submitted() {
    let mut dialog = secret_dialog();
    assert!(!dialog.frame(&input(&[], "sésame"), IDLE));
    assert_eq!(dialog.masked(), (6, 0));
    dialog.frame(&input(&[Key::Backspace], ""), IDLE);
    dialog.frame(&input(&[Key::Home], ""), IDLE);
    assert_eq!(dialog.masked(), (0, 5));
    dialog.frame(&input(&[Key::Return], ""), IDLE);
    match dialog.result() {
        SecretResponse::Secret { value } => assert_eq!(value, "sésam"),
        SecretResponse::Cancelled => panic!("the password was submitted"),
    }
}

#[test]
fn a_field_without_focus_takes_no_keys() {
    let mut dialog = secret_dialog();
    dialog.frame(
        &input(&[], "x"),
        SecretPointer {
            pressed_elsewhere: true,
            ..IDLE
        },
    );
    assert_eq!(dialog.secret, "");
    dialog.frame(
        &input(&[], "x"),
        SecretPointer {
            clicked: true,
            ..IDLE
        },
    );
    assert_eq!(dialog.secret, "x");
    let mut paste = input(&[Key::Char('v')], "");
    paste.ctrl = true;
    assert!(dialog.frame(&paste, IDLE));
    dialog.frame(
        &input(&[], ""),
        SecretPointer {
            unlock: true,
            ..IDLE
        },
    );
    assert!(matches!(dialog.result(), SecretResponse::Secret { .. }));
}

#[test]
fn password_prompts_are_cancelled() {
    let mut dialog = secret_dialog();
    dialog.frame(&input(&[Key::Escape], "x"), IDLE);
    assert!(matches!(dialog.result(), SecretResponse::Cancelled));
    let mut dialog = secret_dialog();
    dialog.frame(
        &input(&[], ""),
        SecretPointer {
            cancel: true,
            ..IDLE
        },
    );
    dialog.frame(&input(&[Key::Return], ""), IDLE);
    assert!(matches!(dialog.result(), SecretResponse::Cancelled));
    assert!(matches!(secret_dialog().result(), SecretResponse::Cancelled));
}

#[test]
fn confirmations_default_to_cancelled() {
    assert_eq!(confirm_result(None), ConfirmResponse::Cancelled);
    assert_eq!(
        confirm_frame(None, false, false, true),
        Some(ConfirmResponse::Confirmed)
    );
    assert_eq!(
        confirm_frame(None, true, false, true),
        Some(ConfirmResponse::Cancelled)
    );
    assert_eq!(
        confirm_frame(None, false, true, false),
        Some(ConfirmResponse::Cancelled)
    );
    assert_eq!(confirm_frame(None, false, false, false), None);
}

fn app_dialog() -> ChooseAppDialog {
    ChooseAppDialog::new(ChooseAppRequest {
        title: "Open With".into(),
        app_id: "dev.aegis.Test".into(),
        content_type: "text/plain".into(),
        apps: ["org.a", "org.b"]
            .iter()
            .map(|id| AppChoice {
                id: (*id).to_owned(),
                name: (*id).to_uppercase(),
                icon: None,
            })
            .collect(),
        choices: vec![Choice {
            id: "remember".into(),
            label: "Remember".into(),
            options: Vec::new(),
            selected: "true".into(),
        }],
    })
}

#[test]
fn applications_are_chosen_from_the_list() {
    let mut dialog = app_dialog();
    assert_eq!(
        hint(&dialog.request),
        "Choose an application to open content of type text/plain"
    );
    assert_eq!(dialog.selected, 0);
    dialog.row_moved(Some(-1), None);
    assert_eq!(dialog.selected, 0);
    dialog.row_moved(Some(0), Some(1));
    dialog.choice_changed(0, ChoiceState::Bool(false));
    dialog.accept();
    match dialog.result() {
        ChooseAppResponse::Selected { app, choices } => {
            assert_eq!(app, "org.b");
            assert_eq!(choices, vec![("remember".to_owned(), "false".to_owned())]);
        }
        ChooseAppResponse::Cancelled => panic!("an application was chosen"),
    }
    let mut dialog = app_dialog();
    dialog.row_moved(None, Some(7));
    dialog.accept();
    assert!(dialog.done.is_none());
    dialog.cancel();
    assert!(matches!(dialog.result(), ChooseAppResponse::Cancelled));
}
