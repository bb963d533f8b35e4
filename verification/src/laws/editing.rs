//! Laws of text fields, keys and small dialogs.

#![allow(unused_imports)]

use vstd::prelude::*;

use crate::dialogs::{
    confirm_frame, confirm_result, filter_labels, plain_label, preedit, window_title, Preedit,
    SecretDialog, SecretPointer,
};
use crate::edit::{delete_backward, delete_forward, insert};
use crate::file_chooser::{edit_line, Effect, Key, KeyEvent, KeyInput, State};
use crate::prompter::{
    BytePath, ConfirmResponse, FileChooserMode, FileChooserResponse, FileFilter, SecretRequest,
    SecretResponse,
};

verus! {

/// Text is inserted at the caret, between what stood before it and what
/// stood behind it, without its control characters; the caret ends up
/// behind it.
pub proof fn text_is_inserted_at_the_caret(
    before: String,
    after: String,
    caret: usize,
    moved: usize,
    input: &str,
    front: Seq<char>,
    back: Seq<char>,
)
    requires
        exists|t: &mut String, c: &mut usize|
            #[trigger] call_ensures(insert, (t, c, input), ()) && *t == before && *final(t)
                == after && *c == caret && *final(c) == moved,
        before@ == front + back,
        caret == crate::edit::bytes(front).len(),
    ensures
        after@ == front + crate::edit::printable(input@) + back,
        moved == crate::edit::bytes(front + crate::edit::printable(input@)).len(),
        (forall|i: int|
            #![trigger input@[i]]
            0 <= i < input@.len() ==> (input@[i] as u32) > 0x1f && !(0x7f <= input@[i] as u32
                && input@[i] as u32 <= 0x9f)) ==> after@ == front + input@ + back,
        forall|i: int|
            #![trigger crate::edit::printable(input@)[i]]
            0 <= i < crate::edit::printable(input@).len() ==> {
                let c = crate::edit::printable(input@)[i];
                (c as u32) > 0x1f && !(0x7f <= c as u32 && c as u32 <= 0x9f) && input@.contains(c)
            },
{
    insertions(front, input@, back);
    printable_shape(input@);
}

proof fn insertions(front: Seq<char>, input: Seq<char>, back: Seq<char>)
    ensures
        crate::edit::inserted(front + back, crate::edit::bytes(front).len() as int, input) == front
            + crate::edit::printable(input) + back,
        crate::edit::bytes(front + crate::edit::printable(input)).len() == crate::edit::bytes(
            front,
        ).len() + crate::edit::bytes(crate::edit::printable(input)).len(),
{
    let clean = crate::edit::printable(input);
    let whole = front + clean + back;
    crate::edit::encoding_concatenates(front, back);
    crate::edit::encoding_concatenates(front, clean);
    crate::edit::encoding_concatenates(front + clean, back);
    let at = crate::edit::bytes(front).len() as int;
    let b = crate::edit::bytes(front + back);
    assert(b.take(at) =~= crate::edit::bytes(front));
    assert(b.skip(at) =~= crate::edit::bytes(back));
    assert(b.take(at) + crate::edit::bytes(clean) + b.skip(at) =~= crate::edit::bytes(whole));
    vstd::utf8::encode_utf8_decode_utf8(whole);
}

proof fn printable_shape(s: Seq<char>)
    ensures
        forall|i: int|
            #![trigger crate::edit::printable(s)[i]]
            0 <= i < crate::edit::printable(s).len() ==> !crate::text::is_control(
                crate::edit::printable(s)[i],
            ) && s.contains(crate::edit::printable(s)[i]),
        (forall|i: int| 0 <= i < s.len() ==> !crate::text::is_control(#[trigger] s[i]))
            ==> crate::edit::printable(s) == s,
    decreases s.len(),
{
    if s.len() > 0 {
        let rest = s.drop_last();
        printable_shape(rest);
        assert forall|i: int|
            #![trigger crate::edit::printable(s)[i]]
            0 <= i < crate::edit::printable(s).len() implies !crate::text::is_control(
            crate::edit::printable(s)[i],
        ) && s.contains(crate::edit::printable(s)[i]) by {
            let p = crate::edit::printable(rest);
            if i < p.len() {
                assert(crate::edit::printable(s)[i] == p[i]);
                let k = choose|k: int| 0 <= k < rest.len() && rest[k] == p[i];
                assert(s[k] == p[i]);
            } else {
                assert(s[s.len() - 1] == crate::edit::printable(s)[i]);
            }
        }
        if forall|i: int| 0 <= i < s.len() ==> !crate::text::is_control(#[trigger] s[i]) {
            assert forall|i: int| 0 <= i < rest.len() implies !crate::text::is_control(
                #[trigger] rest[i],
            ) by {
                assert(s[i] == rest[i]);
            }
            assert(!crate::text::is_control(s[s.len() - 1]));
            assert(crate::edit::printable(s) =~= s);
        }
    } else {
        assert(crate::edit::printable(s) =~= s);
    }
}

/// Backspace takes the one character before the caret.
pub proof fn backspace_takes_the_character_before_the_caret(
    before: String,
    after: String,
    caret: usize,
    moved: usize,
    front: Seq<char>,
    c: char,
    back: Seq<char>,
)
    requires
        exists|t: &mut String, p: &mut usize|
            #[trigger] call_ensures(delete_backward, (t, p), ()) && *t == before && *final(t)
                == after && *p == caret && *final(p) == moved,
        before@ == front + seq![c] + back,
        caret == crate::edit::bytes(front + seq![c]).len(),
    ensures
        after@ == front + back,
        moved == crate::edit::bytes(front).len(),
{
    crate::edit::delete_backward_undoes_insert(front, c, back);
    vstd::utf8::encode_utf8_decode_utf8(front + back);
}

/// Delete takes the one character behind the caret.
pub proof fn delete_takes_the_character_behind_the_caret(
    before: String,
    after: String,
    caret: usize,
    moved: usize,
    front: Seq<char>,
    c: char,
    back: Seq<char>,
)
    requires
        exists|t: &mut String, p: &mut usize|
            #[trigger] call_ensures(delete_forward, (t, p), ()) && *t == before && *final(t)
                == after && *p == caret && *final(p) == moved,
        before@ == front + seq![c] + back,
        caret == crate::edit::bytes(front).len(),
    ensures
        after@ == front + back,
        moved == caret,
{
    crate::edit::delete_forward_takes_one_character(front, c, back);
    vstd::utf8::encode_utf8_decode_utf8(front + back);
}

/// Keys that do not edit leave a line as it is but for the text that was
/// typed, which is inserted at the caret.
pub proof fn typed_text_is_inserted(
    before: String,
    after: String,
    caret: usize,
    moved: usize,
    input: KeyInput,
    paste: bool,
    front: Seq<char>,
    back: Seq<char>,
)
    requires
        exists|t: &mut String, c: &mut usize|
            #[trigger] call_ensures(edit_line, (t, c, &input), paste) && *t == before && *final(t)
                == after && *c == caret && *final(c) == moved,
        before@ == front + back,
        caret == crate::edit::bytes(front).len(),
        input.keys@.len() == 0,
        input.paste is None,
    ensures
        input.text@.len() == 0 ==> after@ == before@ && moved == caret,
        input.text@.len() > 0 ==> after@ == front + crate::edit::printable(input.text@) + back
            && moved == crate::edit::bytes(front + crate::edit::printable(input.text@)).len(),
        !paste,
{
    insertions(front, input.text@, back);
}

/// What is pasted is inserted at the caret.
pub proof fn pasted_text_is_inserted(
    before: String,
    after: String,
    caret: usize,
    moved: usize,
    input: KeyInput,
    paste: bool,
    front: Seq<char>,
    back: Seq<char>,
)
    requires
        exists|t: &mut String, c: &mut usize|
            #[trigger] call_ensures(edit_line, (t, c, &input), paste) && *t == before && *final(t)
                == after && *c == caret && *final(c) == moved,
        before@ == front + back,
        caret == crate::edit::bytes(front).len(),
        input.keys@.len() == 0,
        input.text@.len() == 0,
        input.paste is Some,
    ensures
        after@ == front + crate::edit::printable(input.paste->0@) + back,
        moved == crate::edit::bytes(front + crate::edit::printable(input.paste->0@)).len(),
{
    insertions(front, input.paste->0@, back);
}

/// A single pressed key edits the line as its name says: backspace and
/// delete take a character, home and end move the caret.
pub proof fn editing_keys_edit(
    before: String,
    after: String,
    caret: usize,
    moved: usize,
    input: KeyInput,
    paste: bool,
    front: Seq<char>,
    c: char,
    back: Seq<char>,
)
    requires
        exists|t: &mut String, p: &mut usize|
            #[trigger] call_ensures(edit_line, (t, p, &input), paste) && *t == before && *final(t)
                == after && *p == caret && *final(p) == moved,
        before@ == front + seq![c] + back,
        input.keys@.len() == 1,
        input.keys@[0].pressed,
        input.text@.len() == 0,
        input.paste is None,
    ensures
        input.keys@[0].key == Key::Backspace && caret == crate::edit::bytes(front + seq![c]).len()
            ==> after@ == front + back && moved == crate::edit::bytes(front).len(),
        input.keys@[0].key == Key::Delete && caret == crate::edit::bytes(front).len() ==> after@
            == front + back && moved == caret,
        input.keys@[0].key == Key::Left && caret == crate::edit::bytes(front + seq![c]).len()
            ==> after@ == before@ && moved == crate::edit::bytes(front).len(),
        input.keys@[0].key == Key::Right && caret == crate::edit::bytes(front).len() ==> after@
            == before@ && moved == crate::edit::bytes(front + seq![c]).len(),
        input.keys@[0].key == Key::Home ==> after@ == before@ && moved == 0,
        input.keys@[0].key == Key::End ==> after@ == before@ && moved == crate::edit::bytes(
            before@,
        ).len(),
{
    crate::edit::delete_backward_undoes_insert(front, c, back);
    crate::edit::delete_forward_takes_one_character(front, c, back);
    vstd::utf8::encode_utf8_decode_utf8(front + back);
    only_key_counts(input, Key::Backspace);
    only_key_counts(input, Key::Delete);
    only_key_counts(input, Key::Left);
    only_key_counts(input, Key::Right);
    only_key_counts(input, Key::Home);
    only_key_counts(input, Key::End);
}

proof fn only_key_counts(input: KeyInput, key: Key)
    requires
        input.keys@.len() == 1,
    ensures
        input.down(key) == (input.keys@[0].key == key && input.keys@[0].pressed),
        input.pressed(key) == (input.keys@[0].key == key && input.keys@[0].pressed
            && !input.keys@[0].repeat),
{
    if input.keys@[0].key == key && input.keys@[0].pressed {
        assert(input.keys@[0].key == key);
    }
}

/// Escape steps out of one thing at a time: the question whether to save
/// over a file, then a popup, the location field, the folder field; and
/// with nothing of these open it cancels the dialog.
pub proof fn escape_steps_out(
    before: State,
    after: State,
    input: KeyInput,
    popup: bool,
    now: u64,
    home: Option<&BytePath>,
    out: (Effect, bool),
    k: int,
)
    requires
        exists|s: &mut State|
            #[trigger] call_ensures(State::handle_keys, (s, &input, popup, now, home), out) && *s == before && *final(s) == after,
        0 <= k < input.keys@.len(),
        input.keys@[k].key == Key::Escape,
        input.keys@[k].pressed,
        !input.keys@[k].repeat,
    ensures
        out.0 is Nothing,
        after.confirm_overwrite is None,
        ({
            let asking = before.confirm_overwrite is Some;
            let busy = asking || popup || before.location_editing || before.creating_folder;
            &&& busy ==> (after.done is Some == before.done is Some)
            &&& !busy ==> after.done is Some && after.done->0 is Cancelled
            &&& !asking && !popup && before.location_editing ==> !after.location_editing
            &&& !asking && !popup && !before.location_editing ==> !after.creating_folder
                || !before.creating_folder
        }),
        after.dir@ == before.dir@,
        after.selected@ == before.selected@,
        after.name@ == before.name@,
{
    assert(input.pressed(Key::Escape)) by {
        assert(input.keys@[k].key == Key::Escape);
    }
    if !(before.confirm_overwrite is Some || popup || before.location_editing
        || before.creating_folder) {
        assert(after@.done is Some);
        assert(after.done is Some);
        assert(crate::file_chooser::answer_of(after.done->0)
            == crate::file_chooser::Answer::Cancelled);
    }
}

/// Return in the listing opens the row under the cursor: a folder is
/// entered, a file of an open dialog is the answer.
pub proof fn return_opens_the_row_under_the_cursor(
    before: State,
    after: State,
    input: KeyInput,
    now: u64,
    home: Option<&BytePath>,
    out: (Effect, bool),
)
    requires
        exists|s: &mut State|
            #[trigger] call_ensures(State::handle_keys, (s, &input, false, now, home), out) && *s == before && *final(s) == after,
        input.keys@.len() == 1,
        input.keys@[0].key == Key::Return,
        input.keys@[0].pressed,
        !input.keys@[0].repeat,
        before.confirm_overwrite is None,
        !before.location_editing,
        !before.name_focused,
        !before.field_focused,
        before.focus_index matches Some(at) && at < before.entries@.len(),
    ensures
        ({
            let row = before.entries@[before.focus_index->0 as int];
            &&& row.is_dir && !crate::pathset::same_path(row.path@, before.dir@) ==> after.dir@
                == row.path@ && out.0 is Nothing
            &&& !row.is_dir && before.request.mode == FileChooserMode::OpenFile ==> out.0 is Finish
                && (out.0->Finish_0)@.len() == 1 && (out.0->Finish_0)@[0]@ == row.path@
            &&& !row.is_dir && before.request.mode == FileChooserMode::SaveFile ==> out.0 is Nothing
                && after.name@ == row.name@
        }),
{
    only_key_counts(input, Key::Escape);
    only_key_counts(input, Key::Return);
    only_key_counts(input, Key::Up);
    only_key_counts(input, Key::Down);
    only_key_counts(input, Key::Home);
    only_key_counts(input, Key::End);
    only_key_counts(input, Key::Char('h'));
    only_key_counts(input, Key::Char('l'));
    let row = before.entries@[before.focus_index->0 as int];
    assert(before@.entries[before.focus_index->0 as int] == row@);
    assert(before@.focused_entry() == Some(row@));
    if !row.is_dir && before.request.mode == FileChooserMode::OpenFile {
        let paths = crate::prompter::byte_paths((out.0->Finish_0)@);
        assert(out.0@ is Finish);
        assert(paths == seq![row.path@]);
        assert(paths.len() == (out.0->Finish_0)@.len());
        assert(paths[0] == (out.0->Finish_0)@[0]@);
    }
}

/// Control-H shows or hides the dotfiles and reads the folder again.
pub proof fn control_h_toggles_the_dotfiles(
    before: State,
    after: State,
    input: KeyInput,
    now: u64,
    home: Option<&BytePath>,
    out: (Effect, bool),
)
    requires
        exists|s: &mut State|
            #[trigger] call_ensures(State::handle_keys, (s, &input, true, now, home), out) && *s == before && *final(s) == after,
        input.keys@.len() == 1,
        input.keys@[0].key == Key::Char('h'),
        input.keys@[0].pressed,
        !input.keys@[0].repeat,
    ensures
        input.ctrl || input.logo ==> after.show_hidden == !before.show_hidden && after.reload,
        !(input.ctrl || input.logo) ==> after.show_hidden == before.show_hidden,
        after.dir@ == before.dir@,
        after.selected@ == before.selected@,
{
    only_key_counts(input, Key::Escape);
    only_key_counts(input, Key::Return);
    only_key_counts(input, Key::Char('h'));
    only_key_counts(input, Key::Char('l'));
}

/// The control or the logo key of a frame is what counts as held in it.
pub proof fn frames_note_the_held_keys(before: State, after: State, input: KeyInput)
    requires
        exists|s: &mut State|
            #[trigger] call_ensures(State::begin_frame, (s, &input), ()) && *s == before && *final(s) == after,
    ensures
        after.ctrl_held == (input.ctrl || input.logo),
        after.selected@ == before.selected@,
        after.dir@ == before.dir@,
        after.done is Some == before.done is Some,
{
}

/// A confirmation is confirmed only by accepting, and cancelling wins; a
/// dialog that was closed without an answer is cancelled.
pub proof fn only_accepting_confirms(
    done: Option<ConfirmResponse>,
    escape: bool,
    cancel: bool,
    accept: bool,
    after: Option<ConfirmResponse>,
    response: ConfirmResponse,
)
    requires
        call_ensures(confirm_frame, (done, escape, cancel, accept), after),
        call_ensures(confirm_result, (after,), response),
        done is None,
    ensures
        response == ConfirmResponse::Confirmed <==> accept && !escape && !cancel,
        after is None <==> !escape && !cancel && !accept,
{
}

/// A secret dialog answers with the text that was typed, by its unlock
/// button; escape and its cancel button answer that it was cancelled.
pub proof fn secret_dialogs_answer_with_the_typed_text(
    before: SecretDialog,
    after: SecretDialog,
    input: KeyInput,
    pointer: SecretPointer,
    paste: bool,
)
    requires
        exists|s: &mut SecretDialog|
            #[trigger] call_ensures(SecretDialog::frame, (s, &input, pointer), paste) && *s
                == before && *final(s) == after,
        before.done is None,
        input.keys@.len() == 0,
    ensures
        pointer.unlock && !pointer.cancel ==> after.done is Some && after.done->0 is Secret
            && after.done->0->value@ == before.secret@,
        pointer.cancel ==> after.done is Some && after.done->0 is Cancelled,
        !pointer.cancel && !pointer.unlock ==> after.done is None,
        after.request == before.request,
{
    assert(!input.pressed(Key::Escape));
    assert(!input.pressed(Key::Return));
}

/// Return in the field answers as the unlock button does, with what the
/// field holds by then.
pub proof fn return_submits_the_secret(
    before: SecretDialog,
    after: SecretDialog,
    input: KeyInput,
    pointer: SecretPointer,
    paste: bool,
)
    requires
        exists|s: &mut SecretDialog|
            #[trigger] call_ensures(SecretDialog::frame, (s, &input, pointer), paste) && *s
                == before && *final(s) == after,
        before.done is None,
        before.focused,
        !pointer.cancel && !pointer.unlock && !pointer.pressed_elsewhere,
        input.keys@.len() == 1,
        input.keys@[0].pressed && !input.keys@[0].repeat,
        input.text@.len() == 0,
        input.paste is None,
    ensures
        input.keys@[0].key == Key::Return ==> after.done is Some && after.done->0 is Secret
            && after.done->0->value@ == before.secret@,
        input.keys@[0].key == Key::Escape ==> after.done is Some && after.done->0 is Cancelled,
{
    only_key_counts(input, Key::Escape);
    only_key_counts(input, Key::Return);
    only_key_counts(input, Key::Backspace);
    only_key_counts(input, Key::Delete);
    only_key_counts(input, Key::Left);
    only_key_counts(input, Key::Right);
    only_key_counts(input, Key::Home);
    only_key_counts(input, Key::End);
}

/// A dialog that was closed without an answer was cancelled, any other
/// hands out its answer.
pub proof fn closed_secret_dialogs_are_cancelled(dialog: SecretDialog, response: SecretResponse)
    requires
        call_ensures(SecretDialog::result, (dialog,), response),
    ensures
        dialog.done is None ==> response is Cancelled,
        dialog.done matches Some(done) ==> response == done,
{
}

/// A label is shown without the underscores in front of it, and is else the
/// same.
pub proof fn labels_lose_their_leading_underscores(label: &str, plain: &str)
    requires
        call_ensures(plain_label, (label,), plain),
    ensures
        plain@.len() <= label@.len(),
        plain@ == label@.skip(label@.len() - plain@.len()),
        plain@.len() > 0 ==> plain@[0] != '_',
        forall|i: int| 0 <= i < label@.len() - plain@.len() ==> #[trigger] label@[i] == '_',
{
    mnemonic_shape(label@);
}

proof fn mnemonic_shape(label: Seq<char>)
    ensures
        ({
            let plain = crate::dialogs::without_mnemonic(label);
            &&& plain.len() <= label.len()
            &&& plain == label.skip(label.len() - plain.len())
            &&& plain.len() > 0 ==> plain[0] != '_'
            &&& forall|i: int| 0 <= i < label.len() - plain.len() ==> #[trigger] label[i] == '_'
        }),
    decreases label.len(),
{
    let plain = crate::dialogs::without_mnemonic(label);
    if label.len() > 0 && label[0] == '_' {
        let rest = label.skip(1);
        mnemonic_shape(rest);
        assert(plain =~= label.skip(label.len() - plain.len()));
        assert forall|i: int| 0 <= i < label.len() - plain.len() implies #[trigger] label[i]
            == '_' by {
            if i > 0 {
                assert(rest[i - 1] == label[i]);
            }
        }
    } else {
        assert(plain =~= label.skip(0));
    }
}

/// A field of C text ends at its first zero.
pub proof fn fields_end_at_their_first_zero(field: Seq<u8>, front: Seq<u8>, back: Seq<u8>)
    requires
        !front.contains(0),
        field == front || field == front.push(0) + back,
    ensures
        crate::dialogs::before_zero(field) == front,
    decreases front.len(),
{
    if front.len() == 0 {
        assert(crate::dialogs::before_zero(field) =~= front);
    } else {
        assert(front.contains(front[0]));
        let rest = front.skip(1);
        assert(!rest.contains(0)) by {
            if rest.contains(0) {
                let k = choose|k: int| 0 <= k < rest.len() && rest[k] == 0;
                assert(front[k + 1] == 0);
            }
        }
        if field != front {
            assert(field.skip(1) =~= rest.push(0) + back);
        }
        assert(field[0] == front[0]);
        fields_end_at_their_first_zero(field.skip(1), rest, back);
        assert(seq![field[0]] + rest =~= front);
    }
}

/// Return in the name field of a save dialog asks whether the target is
/// there: the trimmed name in the folder being browsed.
pub proof fn return_in_the_name_field_saves(
    before: State,
    after: State,
    input: KeyInput,
    now: u64,
    home: Option<&BytePath>,
    out: (Effect, bool),
)
    requires
        exists|s: &mut State|
            #[trigger] call_ensures(State::handle_keys, (s, &input, false, now, home), out) && *s == before && *final(s) == after,
        input.keys@.len() == 1,
        input.keys@[0].key == Key::Return,
        input.keys@[0].pressed,
        !input.keys@[0].repeat,
        input.text@.len() == 0,
        input.paste is None,
        before.confirm_overwrite is None,
        !before.location_editing,
        before.name_focused,
        before.request.mode == FileChooserMode::SaveFile,
    ensures
        ({
            let name = crate::text::trimmed(before.name@);
            let good = name.len() > 0 && !name.contains('/') && !name.contains('\0');
            &&& out.0 is Probe <==> good
            &&& good ==> (out.0->Probe_0)@ == crate::paths::joined(
                before.dir@,
                vstd::utf8::encode_utf8(name),
            )
            &&& !good ==> out.0 is Nothing
        }),
        after.name@ == before.name@,
        after.dir@ == before.dir@,
{
    only_key_counts(input, Key::Escape);
    only_key_counts(input, Key::Return);
    only_key_counts(input, Key::Backspace);
    only_key_counts(input, Key::Delete);
    only_key_counts(input, Key::Left);
    only_key_counts(input, Key::Right);
    only_key_counts(input, Key::Home);
    only_key_counts(input, Key::End);
    only_key_counts(input, Key::Char('h'));
    only_key_counts(input, Key::Char('l'));
    assert(out.0@ == after@.accept_effect(false));
}

/// Return at the question whether to save over a file answers it with the
/// target.
pub proof fn return_confirms_saving_over(
    before: State,
    after: State,
    input: KeyInput,
    popup: bool,
    now: u64,
    home: Option<&BytePath>,
    out: (Effect, bool),
)
    requires
        exists|s: &mut State|
            #[trigger] call_ensures(State::handle_keys, (s, &input, popup, now, home), out) && *s == before && *final(s) == after,
        input.keys@.len() == 1,
        input.keys@[0].pressed,
        !input.keys@[0].repeat,
        before.confirm_overwrite is Some,
        before.request.mode == FileChooserMode::SaveFile,
        ({
            let name = crate::text::trimmed(before.name@);
            name.len() > 0 && !name.contains('/') && !name.contains('\0')
        }),
    ensures
        input.keys@[0].key == Key::Return ==> after.confirm_overwrite is None && out.0 is Finish && (
        out.0->Finish_0)@.len() == 1 && (out.0->Finish_0)@[0]@ == crate::paths::joined(
            before.dir@,
            vstd::utf8::encode_utf8(crate::text::trimmed(before.name@)),
        ),
        input.keys@[0].key != Key::Return ==> out.0 is Nothing,
        input.keys@[0].key == Key::Tab ==> after.confirm_overwrite is Some,
{
    only_key_counts(input, Key::Escape);
    only_key_counts(input, Key::Return);
    only_key_counts(input, Key::Char('h'));
    only_key_counts(input, Key::Char('l'));
    if input.keys@[0].key == Key::Return {
        let paths = crate::prompter::byte_paths((out.0->Finish_0)@);
        assert(out.0@ is Finish);
        assert(paths.len() == (out.0->Finish_0)@.len());
        assert(paths[0] == (out.0->Finish_0)@[0]@);
    }
}

/// In the listing, alt with up goes to the parent, a slash or a tilde opens
/// the location field with it, and other text is looked for.
pub proof fn listing_keys_do_as_they_say(
    before: State,
    after: State,
    input: KeyInput,
    now: u64,
    home: Option<&BytePath>,
    out: (Effect, bool),
)
    requires
        exists|s: &mut State|
            #[trigger] call_ensures(State::handle_keys, (s, &input, false, now, home), out) && *s == before && *final(s) == after,
        before.confirm_overwrite is None,
        !before.location_editing,
        !before.name_focused,
        !before.field_focused,
        !input.ctrl && !input.logo,
        input.keys@.len() <= 1,
    ensures
        input.keys@.len() == 1 && input.alt && input.keys@[0].key == Key::Up
            && input.keys@[0].pressed && !input.keys@[0].repeat && (crate::paths::parent(
            before.dir@,
        ) matches Some(up) && !crate::pathset::same_path(up, before.dir@)) ==> after.dir@
            == crate::paths::parent(before.dir@)->0 && out.0 is Nothing,
        input.keys@.len() == 0 && input.text@.len() > 0 && (input.text@[0] == '/' || input.text@[0]
            == '~') ==> after.location_editing && after.location@ == input.text@ && after.dir@
            == before.dir@,
        input.keys@.len() == 0 && input.text@.len() > 0 && input.text@[0] != '/' && input.text@[0]
            != '~' ==> !after.location_editing && (after.typed@ == input.text@ || after.typed@
            == before.typed@ + input.text@),
        input.keys@.len() == 0 && input.text@.len() == 0 ==> out.0 is Nothing && after.dir@
            == before.dir@ && after.selected@ == before.selected@ && after.focus_index
            == before.focus_index,
{
    if input.keys@.len() == 1 {
        only_key_counts(input, Key::Escape);
        only_key_counts(input, Key::Up);
        only_key_counts(input, Key::Char('h'));
        only_key_counts(input, Key::Char('l'));
    } else {
        assert(!input.pressed(Key::Escape));
        assert(!input.pressed(Key::Return));
        assert(!input.pressed(Key::Up));
        assert(!input.down(Key::Up));
        assert(!input.down(Key::Down));
        assert(!input.pressed(Key::Home));
        assert(!input.pressed(Key::End));
    }
}

/// The arrow keys move the cursor, home and end lead to the first and the
/// last row.
pub proof fn arrows_move_the_cursor(
    before: State,
    after: State,
    input: KeyInput,
    now: u64,
    home: Option<&BytePath>,
    out: (Effect, bool),
)
    requires
        exists|s: &mut State|
            #[trigger] call_ensures(State::handle_keys, (s, &input, false, now, home), out) && *s == before && *final(s) == after,
        before.confirm_overwrite is None,
        !before.location_editing,
        !before.name_focused,
        !before.field_focused,
        !input.ctrl && !input.logo && !input.alt,
        input.text@.len() == 0,
        input.keys@.len() == 1,
        input.keys@[0].pressed,
        !input.keys@[0].repeat,
        0 < before.entries@.len() <= usize::MAX,
    ensures
        input.keys@[0].key == Key::Down && before.focus_index is None ==> after.focus_index == Some(
            0usize,
        ),
        input.keys@[0].key == Key::Down ==> (before.focus_index matches Some(at) ==> (at + 1
            < before.entries@.len() ==> after.focus_index == Some((at + 1) as usize))),
        input.keys@[0].key == Key::Up ==> (before.focus_index matches Some(at) ==> (0 < at
            < before.entries@.len() ==> after.focus_index == Some((at - 1) as usize))),
        input.keys@[0].key == Key::Home ==> after.focus_index == Some(0usize),
        input.keys@[0].key == Key::End ==> after.focus_index == Some(
            (before.entries@.len() - 1) as usize,
        ),
        input.keys@[0].key != Key::Return && input.keys@[0].key != Key::Escape ==> after.dir@
            == before.dir@ && out.0 is Nothing,
{
    assert(before@.entries.len() == before.entries@.len());
    only_key_counts(input, Key::Escape);
    only_key_counts(input, Key::Return);
    only_key_counts(input, Key::Up);
    only_key_counts(input, Key::Down);
    only_key_counts(input, Key::Home);
    only_key_counts(input, Key::End);
    only_key_counts(input, Key::Char('h'));
    only_key_counts(input, Key::Char('l'));
    only_key_counts(input, Key::Char(' '));
}

/// In the location field, return goes to what was typed, and tab completes
/// it.
pub proof fn location_keys_go_or_complete(
    before: State,
    after: State,
    input: KeyInput,
    now: u64,
    home: Option<&BytePath>,
    out: (Effect, bool),
)
    requires
        exists|s: &mut State|
            #[trigger] call_ensures(State::handle_keys, (s, &input, false, now, home), out) && *s == before && *final(s) == after,
        before.confirm_overwrite is None,
        before.location_editing,
        input.text@.len() == 0,
        input.paste is None,
        input.keys@.len() == 1,
        input.keys@[0].pressed,
        !input.keys@[0].repeat,
        crate::text::trimmed(before.location@).len() > 0,
        before.location@.len() > 0,
    ensures
        input.keys@[0].key == Key::Return ==> out.0 is Resolve && (out.0->Resolve_0)@
            == crate::location::located(
            crate::text::trimmed(before.location@),
            before.dir@,
            crate::location::opt_path(home),
        ),
        input.keys@[0].key == Key::Tab ==> out.0 is Complete && !(out.0->Complete_0).then_go,
        input.keys@[0].key == Key::Return || input.keys@[0].key == Key::Tab ==> after.location@
            == before.location@ && after.dir@ == before.dir@,
{
    only_key_counts(input, Key::Escape);
    only_key_counts(input, Key::Return);
    only_key_counts(input, Key::Tab);
    only_key_counts(input, Key::Backspace);
    only_key_counts(input, Key::Delete);
    only_key_counts(input, Key::Left);
    only_key_counts(input, Key::Right);
    only_key_counts(input, Key::Home);
    only_key_counts(input, Key::End);
    only_key_counts(input, Key::Char('h'));
    only_key_counts(input, Key::Char('l'));
}

/// What is typed in the frame in which Return is pressed belongs to the
/// answer, as it does in any line.
pub proof fn return_submits_what_was_typed_with_it(
    before: SecretDialog,
    after: SecretDialog,
    input: KeyInput,
    pointer: SecretPointer,
    paste: bool,
    typed: String,
    caret: usize,
)
    requires
        exists|s: &mut SecretDialog|
            #[trigger] call_ensures(SecretDialog::frame, (s, &input, pointer), paste) && *s
                == before && *final(s) == after,
        exists|t: &mut String, c: &mut usize|
            #[trigger] call_ensures(edit_line, (t, c, &input), paste) && *t == before.secret && *c
                == before.caret && *final(t) == typed && *final(c) == caret,
        before.focused,
        !pointer.cancel && !pointer.pressed_elsewhere,
        before.done is None,
        input.pressed(Key::Return),
        !input.pressed(Key::Escape),
        !pointer.unlock,
    ensures
        after.done is Some,
        after.done->0 is Secret,
        after.done->0->value@ == typed@,
        after.secret@ == typed@,
        after.caret == caret,
{
}

/// A key counts as pressed where one of the frame's events pressed it anew,
/// and as down also where it repeats; a release counts as neither.
pub proof fn keys_count_by_their_events(
    input: KeyInput,
    key: Key,
    pressed: bool,
    down: bool,
    command: bool,
    i: int,
)
    requires
        call_ensures(KeyInput::key_pressed, (&input, key), pressed),
        call_ensures(KeyInput::key_down, (&input, key), down),
        call_ensures(KeyInput::command_held, (&input,), command),
    ensures
        0 <= i < input.keys@.len() && input.keys@[i].key == key && input.keys@[i].pressed ==> down
            && (!input.keys@[i].repeat ==> pressed),
        (forall|j: int|
            0 <= j < input.keys@.len() ==> (#[trigger] input.keys@[j]).key != key
                || !input.keys@[j].pressed) ==> !down && !pressed,
        (forall|j: int|
            0 <= j < input.keys@.len() ==> (#[trigger] input.keys@[j]).key != key
                || !input.keys@[j].pressed || input.keys@[j].repeat) ==> !pressed,
        pressed ==> down,
        command <==> input.ctrl || input.logo,
{
}

/// A secret is shown as one dot for each character, divided at the caret.
pub proof fn secrets_are_shown_as_dots(
    dialog: SecretDialog,
    counts: (usize, usize),
    front: Seq<char>,
    back: Seq<char>,
)
    requires
        call_ensures(SecretDialog::masked, (&dialog,), counts),
        dialog.secret@ == front + back,
        dialog.caret == crate::edit::bytes(front).len(),
    ensures
        counts.0 + counts.1 == dialog.secret@.len(),
        counts.0 == front.len(),
        counts.1 == back.len(),
{
    let n = counts.0 as int;
    let s = dialog.secret@;
    assert(s.take(front.len() as int) =~= front);
    if n < front.len() {
        let between = front.skip(n);
        assert(front =~= s.take(n) + between);
        longer_texts_have_more_bytes(s.take(n), between);
    } else if n > front.len() {
        let between = s.subrange(front.len() as int, n);
        assert(s.take(n) =~= front + between);
        longer_texts_have_more_bytes(front, between);
    }
}

proof fn longer_texts_have_more_bytes(front: Seq<char>, back: Seq<char>)
    requires
        back.len() > 0,
    ensures
        crate::edit::bytes(front + back).len() > crate::edit::bytes(front).len(),
{
    crate::edit::encoding_concatenates(front, back);
    if vstd::utf8::encode_utf8(back).len() == 0 {
        assert(vstd::utf8::encode_utf8(Seq::<char>::empty()) =~= Seq::<u8>::empty());
        assert(vstd::utf8::encode_utf8(back) =~= Seq::<u8>::empty());
        crate::text::encoding_determines_text(back, Seq::empty());
    }
}

/// A secret dialog opens with an empty field that has the focus, and with no
/// answer.
pub proof fn secret_dialogs_open_empty(request: SecretRequest, dialog: SecretDialog)
    requires
        call_ensures(SecretDialog::new, (request,), dialog),
    ensures
        dialog.secret@.len() == 0,
        dialog.caret == 0,
        dialog.focused,
        dialog.done is None,
        dialog.request == request,
{
    assert(crate::dialogs::secret_answer(dialog.done) is Pending);
}

/// Of the filters the first are offered, by their labels, and as many as
/// there is room for.
pub proof fn filters_are_offered_by_label(
    filters: Vec<FileFilter>,
    labels: Vec<String>,
    i: int,
)
    requires
        call_ensures(filter_labels, (&filters,), labels),
    ensures
        filters@.len() <= 16 ==> labels@.len() == filters@.len(),
        filters@.len() > 16 ==> labels@.len() == 16,
        0 <= i < labels@.len() ==> labels@[i]@ == filters@[i].label@,
{
}

/// A window is titled as asked, with the application behind the title where
/// there is one.
pub proof fn windows_are_titled(title: &str, app_id: Option<&str>, text: String)
    requires
        call_ensures(window_title, (title, app_id), text),
    ensures
        title@.is_prefix_of(text@),
        app_id is None || app_id->0@.len() == 0 ==> text@ == title@,
        app_id is Some && app_id->0@.len() > 0 ==> text@.len() == title@.len() + 3
            + app_id->0@.len() && text@.skip(title@.len() as int + 3) == app_id->0@,
{
    reveal_strlit(" — ");
    if app_id is Some && app_id->0@.len() > 0 {
        assert(text@.skip(title@.len() as int + 3) =~= app_id->0@);
    }
}

/// A text being composed is shown whole, with its caret and its selection on
/// character boundaries within it; an empty one is not shown.
pub proof fn composed_text_is_shown_whole(
    field: &[u8],
    cursor: u32,
    lo: u32,
    hi: u32,
    p: Option<Preedit>,
)
    requires
        call_ensures(preedit, (field, cursor, lo, hi), p),
    ensures
        p is Some ==> p->0.text@ == crate::text::lossy(crate::dialogs::before_zero(field@)),
        p matches Some(p) ==> {
            let end = vstd::utf8::encode_utf8(p.text@).len();
            &&& p.text@.len() > 0
            &&& p.cursor <= end && p.sel.0 <= end && p.sel.1 <= end
            &&& p.cursor <= cursor && p.sel.0 <= lo && p.sel.1 <= hi
            &&& cursor >= end ==> p.cursor == end
            &&& cursor <= end && vstd::utf8::is_char_boundary(
                vstd::utf8::encode_utf8(p.text@),
                cursor as int,
            ) ==> p.cursor == cursor
            &&& lo <= end && vstd::utf8::is_char_boundary(
                vstd::utf8::encode_utf8(p.text@),
                lo as int,
            ) ==> p.sel.0 == lo
            &&& hi <= end && vstd::utf8::is_char_boundary(
                vstd::utf8::encode_utf8(p.text@),
                hi as int,
            ) ==> p.sel.1 == hi
        },
{
    let text = crate::text::lossy(crate::dialogs::before_zero(field@));
    reveal(crate::edit::on_boundary);
    boundaries_stay_below(text, cursor as int);
    boundaries_stay_below(text, lo as int);
    boundaries_stay_below(text, hi as int);
}

proof fn boundaries_stay_below(text: Seq<char>, at: int)
    requires
        0 <= at,
    ensures
        crate::dialogs::clamped(text, at) <= at,
        crate::dialogs::clamped(text, at) <= crate::edit::bytes(text).len(),
        at >= crate::edit::bytes(text).len() ==> crate::dialogs::clamped(text, at)
            == crate::edit::bytes(text).len(),
{
    let b = crate::edit::bytes(text);
    let end = b.len() as int;
    let stop = if at <= end {
        at
    } else {
        end
    };
    before_is_below(b, stop);
    vstd::utf8::encode_utf8_valid_utf8(text);
    vstd::utf8::is_char_boundary_start_end_of_seq(b);
    reveal(crate::edit::on_boundary);
    assert(crate::edit::on_boundary(text, end));
}

proof fn before_is_below(b: Seq<u8>, i: int)
    requires
        0 <= i,
    ensures
        0 <= crate::edit::boundary_before(b, i) <= i,
    decreases i,
{
    if i > 0 {
        before_is_below(b, i - 1);
    }
}

} // verus!
