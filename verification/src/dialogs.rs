//! The prompt dialogs: their titles and labels, and how the confirmation and
//! the password prompt answer.

use vstd::prelude::*;
use vstd::string::*;

use crate::edit;
use crate::file_chooser::{default_accept_label, edit_line, Key, KeyInput};
use crate::paths::file_name_of;
use crate::prompter::{
    BytePath, ConfirmRequest, ConfirmResponse, FileChooserMode, FileChooserRequest, FileFilter,
    SecretRequest, SecretResponse,
};
use crate::text::{chars_of, lossy_text};

verus! {

/// The application id that the prompts report to the compositor.
pub const APP_ID: &'static str = "dev.aegis.PortalPrompter";

/// The title of a prompt window: the request's title, with the verified
/// application id behind it when there is one.
pub fn window_title(title: &str, app_id: Option<&str>) -> (text: String)
    ensures
        text@ == (match app_id {
            Some(app_id) => if app_id@.len() == 0 {
                title@
            } else {
                title@ + " — "@ + app_id@
            },
            None => title@,
        }),
{
    let mut text = title.to_owned();
    if let Some(app_id) = app_id {
        if !app_id.is_empty() {
            text.append(" — ");
            text.append(app_id);
        }
    }
    text
}

/// A label without the underscores in front of it.
pub open spec fn without_mnemonic(label: Seq<char>) -> Seq<char>
    decreases label.len(),
{
    if label.len() > 0 && label[0] == '_' {
        without_mnemonic(label.skip(1))
    } else {
        label
    }
}

proof fn underscores_are_single_bytes(n: nat)
    ensures
        edit::bytes(Seq::new(n, |i: int| '_')).len() == n,
{
    let s = Seq::new(n, |i: int| '_');
    assert(vstd::utf8::is_ascii_chars(s));
    vstd::utf8::is_ascii_chars_encode_utf8(s);
}

/// Strips the mnemonic underscores from a button label.
pub fn plain_label(label: &str) -> (plain: &str)
    ensures
        plain@ == without_mnemonic(label@),
{
    let chars = chars_of(label);
    let mut n: usize = 0;
    assert(chars@.skip(0) =~= chars@);
    while n < chars.len() && chars[n] == '_'
        invariant
            n <= chars@.len(),
            forall|i: int| 0 <= i < n ==> chars@[i] == '_',
            without_mnemonic(chars@) == without_mnemonic(chars@.skip(n as int)),
        decreases chars@.len() - n,
    {
        assert(chars@.skip(n as int).skip(1) =~= chars@.skip(n + 1));
        n = n + 1;
    }
    let ghost front = Seq::new(n as nat, |i: int| '_');
    let ghost rest = chars@.skip(n as int);
    proof {
        assert(label@ =~= front + rest);
        underscores_are_single_bytes(n as nat);
        edit::encoding_concatenates(front, rest);
        edit::seam_is_boundary(front, rest);
        reveal(edit::on_boundary);
        assert(edit::bytes(rest) =~= edit::bytes(label@).subrange(
            n as int,
            edit::bytes(label@).len() as int,
        ));
    }
    let (_, plain) = label.split_at(n);
    proof {
        crate::text::encoding_determines_text(plain@, rest);
    }
    plain
}

/// How many filters the footer lists.
pub const SHOWN_FILTERS: usize = 16;

/// The labels of the filters that the footer lists: the first ones.
pub fn filter_labels(filters: &Vec<FileFilter>) -> (labels: Vec<String>)
    ensures
        labels@.len() == (if filters@.len() < SHOWN_FILTERS {
            filters@.len() as int
        } else {
            SHOWN_FILTERS as int
        }),
        forall|i: int|
            0 <= i < labels@.len() ==> (#[trigger] labels@[i])@ == filters@[i].label@,
{
    let mut labels: Vec<String> = Vec::new();
    while labels.len() < filters.len() && labels.len() < SHOWN_FILTERS
        invariant
            labels@.len() <= filters@.len(),
            labels@.len() <= SHOWN_FILTERS,
            forall|i: int|
                0 <= i < labels@.len() ==> (#[trigger] labels@[i])@ == filters@[i].label@,
        decreases filters@.len() - labels@.len(),
    {
        let label = filters[labels.len()].label.clone();
        labels.push(label);
    }
    labels
}

/// The text on the accept button of a file chooser: the request's own label,
/// or the usual one of its mode.
pub fn file_accept_label(request: &FileChooserRequest) -> (text: String)
    ensures
        text@ == (match request.accept_label {
            Some(label) => without_mnemonic(label@),
            None => match request.mode {
                FileChooserMode::OpenFile => "Open"@,
                FileChooserMode::OpenDirectory | FileChooserMode::SaveFiles => "Select"@,
                FileChooserMode::SaveFile => "Save"@,
            },
        }),
{
    match &request.accept_label {
        Some(label) => plain_label(label.as_str()).to_owned(),
        None => default_accept_label(request.mode).to_owned(),
    }
}

/// What is asked before a file is replaced.
pub fn overwrite_text(target: &BytePath) -> (text: String)
    ensures
        text@ == "A file named \""@ + (match crate::paths::file_name(target@) {
            Some(name) => crate::text::lossy(name),
            None => Seq::empty(),
        }) + "\" already exists. Do you want to replace it?"@,
{
    let mut text = "A file named \"".to_owned();
    if let Some(name) = file_name_of(target.0.as_slice()) {
        text.append(lossy_text(name.as_slice()).as_str());
    }
    text.append("\" already exists. Do you want to replace it?");
    text
}

/// The bytes of a field up to its first zero byte.
pub open spec fn before_zero(field: Seq<u8>) -> Seq<u8>
    decreases field.len(),
{
    if field.len() == 0 || field[0] == 0 {
        Seq::empty()
    } else {
        seq![field[0]] + before_zero(field.skip(1))
    }
}

/// Reads the text of a zero-terminated field.
pub fn c_field_text(field: &[u8]) -> (text: String)
    ensures
        text@ == crate::text::lossy(before_zero(field@)),
{
    let mut n: usize = 0;
    assert(field@.take(0) + before_zero(field@.skip(0)) =~= before_zero(field@)) by {
        assert(field@.skip(0) =~= field@);
    }
    while n < field.len() && field[n] != 0
        invariant
            n <= field@.len(),
            field@.take(n as int) + before_zero(field@.skip(n as int)) == before_zero(field@),
        decreases field@.len() - n,
    {
        assert(field@.skip(n as int).skip(1) =~= field@.skip(n + 1));
        assert(field@.take(n as int) + (seq![field@[n as int]] + before_zero(
            field@.skip(n + 1),
        )) =~= field@.take(n + 1) + before_zero(field@.skip(n + 1)));
        n = n + 1;
    }
    assert(before_zero(field@.skip(n as int)) =~= Seq::<u8>::empty());
    let bytes = vstd::slice::slice_subrange(field, 0, n);
    assert(bytes@ =~= field@.take(n as int) + Seq::<u8>::empty());
    lossy_text(bytes)
}

/// The composition that an input method has in progress.
#[derive(Debug, PartialEq, Eq)]
pub struct Preedit {
    pub text: String,
    /// The caret, as a byte offset that stands on a character boundary.
    pub cursor: usize,
    /// The active clause, as byte offsets that stand on character boundaries.
    pub sel: (usize, usize),
}

/// The last boundary at or in front of an offset.
pub open spec fn clamped(text: Seq<char>, offset: int) -> int {
    let at = if offset <= edit::bytes(text).len() {
        offset
    } else {
        edit::bytes(text).len() as int
    };
    if edit::on_boundary(text, at) {
        at
    } else {
        edit::boundary_before(edit::bytes(text), at)
    }
}

fn clamp(text: &str, offset: u32) -> (at: usize)
    ensures
        at == clamped(text@, offset as int),
        edit::on_boundary(text@, at as int),
{
    let len: usize = text.as_bytes().len();
    let mut at: usize = if (offset as usize) < len {
        offset as usize
    } else {
        len
    };
    let ghost first = at as int;
    proof {
        reveal(edit::on_boundary);
        edit::boundaries_in_range(text@, 0);
    }
    while at > 0 && !text.is_char_boundary(at)
        invariant
            0 <= at <= first <= edit::bytes(text@).len(),
            vstd::utf8::is_char_boundary(edit::bytes(text@), 0),
            at == first || edit::boundary_before(edit::bytes(text@), first) == (
            if vstd::utf8::is_char_boundary(edit::bytes(text@), at as int) {
                at as int
            } else {
                edit::boundary_before(edit::bytes(text@), at as int)
            }),
            at < first ==> !vstd::utf8::is_char_boundary(edit::bytes(text@), first),
        decreases at,
    {
        at = at - 1;
    }
    at
}

/// The composition of a frame, if there is one. Offsets that lie beyond the
/// text, or inside a character, move to the boundary in front of them.
pub fn preedit(field: &[u8], cursor: u32, sel_lo: u32, sel_hi: u32) -> (p: Option<Preedit>)
    ensures
        ({
            let text = crate::text::lossy(before_zero(field@));
            match p {
                None => text.len() == 0,
                Some(p) => {
                    &&& text.len() > 0
                    &&& p.text@ == text
                    &&& p.cursor == clamped(text, cursor as int)
                    &&& p.sel.0 == clamped(text, sel_lo as int)
                    &&& p.sel.1 == clamped(text, sel_hi as int)
                    &&& edit::on_boundary(text, p.cursor as int)
                    &&& edit::on_boundary(text, p.sel.0 as int)
                    &&& edit::on_boundary(text, p.sel.1 as int)
                },
            }
        }),
{
    let text = c_field_text(field);
    if text.as_str().is_empty() {
        return None;
    }
    let cursor: usize = clamp(text.as_str(), cursor);
    let low: usize = clamp(text.as_str(), sel_lo);
    let high: usize = clamp(text.as_str(), sel_hi);
    Some(Preedit { text, cursor, sel: (low, high) })
}

// ---------------------------------------------------------------------------
// Confirmation
// ---------------------------------------------------------------------------

/// The label of the affirmative button.
pub fn accept_label(request: &ConfirmRequest) -> (label: String)
    ensures
        label@ == (match request.accept_label {
            Some(label) => without_mnemonic(label@),
            None => "Continue"@,
        }),
{
    match &request.accept_label {
        Some(label) => plain_label(label.as_str()).to_owned(),
        None => "Continue".to_owned(),
    }
}

/// The answer of a confirmation after one frame: Escape and the Cancel button
/// cancel, the affirmative button confirms.
pub open spec fn confirm_answered(
    done: Option<ConfirmResponse>,
    escape: bool,
    cancel: bool,
    accept: bool,
) -> Option<ConfirmResponse> {
    if escape || cancel {
        Some(ConfirmResponse::Cancelled)
    } else if accept {
        Some(ConfirmResponse::Confirmed)
    } else {
        done
    }
}

/// Takes the keys and buttons of one frame.
pub fn confirm_frame(
    done: Option<ConfirmResponse>,
    escape: bool,
    cancel: bool,
    accept: bool,
) -> (after: Option<ConfirmResponse>)
    ensures
        after == confirm_answered(done, escape, cancel, accept),
{
    if escape || cancel {
        Some(ConfirmResponse::Cancelled)
    } else if accept {
        Some(ConfirmResponse::Confirmed)
    } else {
        done
    }
}

/// The answer of a closed confirmation: without one it is cancelled.
pub fn confirm_result(done: Option<ConfirmResponse>) -> (response: ConfirmResponse)
    ensures
        response == (match done {
            Some(response) => response,
            None => ConfirmResponse::Cancelled,
        }),
{
    match done {
        Some(response) => response,
        None => ConfirmResponse::Cancelled,
    }
}

// ---------------------------------------------------------------------------
// Password
// ---------------------------------------------------------------------------

/// The password prompt: a masked field with a caret.
pub struct SecretDialog {
    pub request: SecretRequest,
    pub secret: String,
    /// The caret, as a byte offset that stands on a character boundary.
    pub caret: usize,
    pub focused: bool,
    pub done: Option<SecretResponse>,
}

/// What the buttons and the pointer did in a frame.
#[derive(Debug, Clone, Copy, PartialEq, Eq, Structural)]
pub struct SecretPointer {
    /// The field was clicked.
    pub clicked: bool,
    /// A press landed anywhere else.
    pub pressed_elsewhere: bool,
    pub cancel: bool,
    pub unlock: bool,
}

/// The answer of a password prompt.
pub enum SecretAnswer {
    Pending,
    Cancelled,
    Secret(Seq<char>),
}

/// The answer of a password prompt.
pub open spec fn secret_answer(done: Option<SecretResponse>) -> SecretAnswer {
    match done {
        None => SecretAnswer::Pending,
        Some(SecretResponse::Cancelled) => SecretAnswer::Cancelled,
        Some(SecretResponse::Secret { value }) => SecretAnswer::Secret(value@),
    }
}

/// What the password prompt holds.
pub struct SecretModel {
    pub line: crate::file_chooser::Line,
    pub focused: bool,
    pub answer: SecretAnswer,
}

impl SecretModel {
    /// After the secret is submitted, unless the prompt was answered.
    pub open spec fn submitted(self) -> SecretModel {
        if self.answer is Pending {
            SecretModel { answer: SecretAnswer::Secret(self.line.text), ..self }
        } else {
            self
        }
    }

    /// After the prompt is cancelled by its button, unless it was answered.
    pub open spec fn dismissed(self) -> SecretModel {
        if self.answer is Pending {
            SecretModel { answer: SecretAnswer::Cancelled, ..self }
        } else {
            self
        }
    }

    /// After the pointer moved the focus.
    pub open spec fn pointed(self, pointer: SecretPointer) -> SecretModel {
        SecretModel {
            focused: pointer.clicked || (self.focused && !pointer.pressed_elsewhere),
            ..self
        }
    }

    /// After the buttons.
    pub open spec fn pushed(self, pointer: SecretPointer) -> SecretModel {
        if pointer.cancel && self.answer is Pending {
            self.dismissed()
        } else if pointer.unlock {
            self.submitted()
        } else {
            self
        }
    }

    /// After the keys, which count only while the field has the focus.
    pub open spec fn keyed(self, input: KeyInput) -> SecretModel {
        if self.focused {
            let edited = SecretModel { line: self.line.after_frame(input), ..self };
            if input.pressed(Key::Return) {
                edited.submitted()
            } else {
                edited
            }
        } else {
            self
        }
    }

    /// After one frame: Escape cancels at once; otherwise the pointer, the
    /// buttons and the keys count in this order.
    pub open spec fn after_frame(self, input: KeyInput, pointer: SecretPointer) -> SecretModel {
        if input.pressed(Key::Escape) {
            SecretModel { answer: SecretAnswer::Cancelled, ..self }
        } else {
            self.pointed(pointer).pushed(pointer).keyed(input)
        }
    }
}

impl View for SecretDialog {
    type V = SecretModel;

    open spec fn view(&self) -> SecretModel {
        SecretModel {
            line: crate::file_chooser::Line { text: self.secret@, caret: self.caret as int },
            focused: self.focused,
            answer: secret_answer(self.done),
        }
    }
}

impl SecretDialog {
    /// The caret stands on a character boundary.
    pub open spec fn well_formed(self) -> bool {
        edit::on_boundary(self.secret@, self.caret as int)
    }

    /// Opens the prompt, with an empty field that has the focus.
    pub fn new(request: SecretRequest) -> (dialog: Self)
        ensures
            dialog.well_formed(),
            dialog.request == request,
            dialog@ == (SecretModel {
                line: crate::file_chooser::Line { text: Seq::<char>::empty(), caret: 0 },
                focused: true,
                answer: SecretAnswer::Pending,
            }),
    {
        let dialog = SecretDialog {
            request,
            secret: String::new(),
            caret: 0,
            focused: true,
            done: None,
        };
        proof {
            edit::boundaries_in_range(dialog.secret@, 0);
            assert(dialog.secret@ =~= Seq::<char>::empty());
        }
        dialog
    }

    fn submit(&mut self)
        requires
            old(self).well_formed(),
        ensures
            final(self).well_formed(),
            final(self).request == old(self).request,
            final(self)@ == old(self)@.submitted(),
    {
        if self.done.is_none() {
            let value = self.secret.clone();
            self.done = Some(SecretResponse::Secret { value });
        }
    }

    /// Takes the keys, the pointer and the buttons of one frame. The result
    /// tells whether a paste has to be requested.
    pub fn frame(&mut self, input: &KeyInput, pointer: SecretPointer) -> (request_paste: bool)
        requires
            old(self).well_formed(),
        ensures
            final(self).well_formed(),
            final(self).request == old(self).request,
            final(self)@ == old(self)@.after_frame(*input, pointer),
            request_paste == (!input.pressed(Key::Escape) && final(self)@.focused
                && input.command() && input.pressed(Key::Char('v'))),
    {
        if input.key_pressed(Key::Escape) {
            self.done = Some(SecretResponse::Cancelled);
            return false;
        }
        if pointer.clicked {
            self.focused = true;
        } else if pointer.pressed_elsewhere {
            self.focused = false;
        }
        if pointer.cancel && self.done.is_none() {
            self.done = Some(SecretResponse::Cancelled);
        } else if pointer.unlock {
            self.submit();
        }
        if !self.focused {
            return false;
        }
        let request_paste: bool = edit_line(&mut self.secret, &mut self.caret, input);
        if input.key_pressed(Key::Return) {
            self.submit();
        }
        request_paste
    }

    /// How many characters are masked in front of and behind the caret.
    pub fn masked(&self) -> (counts: (usize, usize))
        requires
            self.well_formed(),
        ensures
            counts.0 + counts.1 == self.secret@.len(),
            edit::bytes(self.secret@.take(counts.0 as int)).len() == self.caret,
    {
        proof {
            reveal(edit::on_boundary);
            edit::boundaries_in_range(self.secret@, self.caret as int);
        }
        let (front, back) = self.secret.as_str().split_at(self.caret);
        let before = chars_of(front);
        let after = chars_of(back);
        proof {
            edit::split_text(self.secret@, self.caret as int, front@, back@);
            assert(self.secret@.take(before@.len() as int) =~= front@);
        }
        (before.len(), after.len())
    }

    /// The answer of a closed prompt: without one it is cancelled.
    pub fn result(self) -> (response: SecretResponse)
        ensures
            match self.done {
                Some(done) => response == done,
                None => response is Cancelled,
            },
    {
        match self.done {
            Some(done) => done,
            None => SecretResponse::Cancelled,
        }
    }
}

/// An answer that was given is not changed by later frames, unless Escape
/// cancels it.
pub proof fn answers_stand(m: SecretModel, input: KeyInput, pointer: SecretPointer)
    requires
        !(m.answer is Pending),
        !input.pressed(Key::Escape),
    ensures
        m.after_frame(input, pointer).answer == m.answer,
{
}

} // verus!
