//! The process contract of the one-shot prompter.
//!
//! The backend sends one request to a prompter process and reads one response
//! back. Both sides check what they receive before acting on it. Paths are
//! byte sequences, so every Unix file name passes through unchanged.

use vstd::prelude::*;
use vstd::string::*;

use crate::paths::{is_rooted, join, read_marks, Component, DOT};
use crate::pathset::{order_paths, Order};
use crate::text::{decimal_text, has_char, is_blank, quoted_path_text, quoted_text, same_text};

verus! {

/// Version of the private stdin/stdout contract. Both sides reject
/// mismatches instead of interpreting fields using different schemas.
pub const PROCESS_CONTRACT_VERSION: u32 = 3;

/// The longest text, in bytes, that a confirmation or secret prompt shows.
pub const MAX_PROMPT_TEXT_BYTES: usize = 16384;

/// The largest message between the backend and a prompter process, in bytes.
pub const MAX_MESSAGE_BYTES: usize = 8388608;

/// Checks the length of a request before it is decoded.
pub fn check_message(length: usize) -> (r: Result<(), String>)
    ensures
        match r {
            Ok(_) => length <= MAX_MESSAGE_BYTES,
            Err(m) => length > MAX_MESSAGE_BYTES && m@
                == "request exceeds the 8 MiB process-contract limit"@,
        },
{
    if length > MAX_MESSAGE_BYTES {
        return Err("request exceeds the 8 MiB process-contract limit".to_owned());
    }
    Ok(())
}

/// The first of two problems, if there is one.
pub open spec fn first_of(a: Option<Seq<char>>, b: Option<Seq<char>>) -> Option<Seq<char>> {
    if a is Some {
        a
    } else {
        b
    }
}

// ---------------------------------------------------------------------------
// Envelopes
// ---------------------------------------------------------------------------

/// Versioned envelope sent to a prompter process.
#[derive(Debug, Clone, PartialEq, Eq)]
pub struct PrompterRequest {
    pub version: u32,
    pub prompt: PromptRequest,
}

/// What a version other than the expected one is answered.
pub open spec fn version_problem(what: Seq<char>, version: u32) -> Option<Seq<char>> {
    if version == PROCESS_CONTRACT_VERSION {
        None
    } else {
        Some(
            "unsupported prompter "@ + what + " version "@ + crate::text::decimal(version as nat)
                + "; expected "@ + crate::text::decimal(PROCESS_CONTRACT_VERSION as nat),
        )
    }
}

fn check_version(what: &str, version: u32) -> (r: Result<(), String>)
    ensures
        match r {
            Ok(_) => version_problem(what@, version) is None,
            Err(m) => version_problem(what@, version) == Some(m@),
        },
{
    if version == PROCESS_CONTRACT_VERSION {
        return Ok(());
    }
    let mut m = "unsupported prompter ".to_owned();
    m.append(what);
    m.append(" version ");
    m.append(decimal_text(version as u64).as_str());
    m.append("; expected ");
    m.append(decimal_text(PROCESS_CONTRACT_VERSION as u64).as_str());
    Err(m)
}

impl PrompterRequest {
    /// An envelope of the current version for a file chooser.
    pub fn new(request: FileChooserRequest) -> (r: Self)
        ensures
            r.version == PROCESS_CONTRACT_VERSION,
            r.prompt == PromptRequest::FileChooser(request),
    {
        Self::file_chooser(request)
    }

    /// An envelope of the current version for a file chooser.
    pub fn file_chooser(request: FileChooserRequest) -> (r: Self)
        ensures
            r.version == PROCESS_CONTRACT_VERSION,
            r.prompt == PromptRequest::FileChooser(request),
    {
        PrompterRequest {
            version: PROCESS_CONTRACT_VERSION,
            prompt: PromptRequest::FileChooser(request),
        }
    }

    /// An envelope of the current version for a confirmation.
    pub fn confirm(confirm: ConfirmRequest) -> (r: Self)
        ensures
            r.version == PROCESS_CONTRACT_VERSION,
            r.prompt == PromptRequest::Confirm(confirm),
    {
        PrompterRequest {
            version: PROCESS_CONTRACT_VERSION,
            prompt: PromptRequest::Confirm(confirm),
        }
    }

    /// An envelope of the current version for a secret prompt.
    pub fn secret(secret: SecretRequest) -> (r: Self)
        ensures
            r.version == PROCESS_CONTRACT_VERSION,
            r.prompt == PromptRequest::Secret(secret),
    {
        PrompterRequest {
            version: PROCESS_CONTRACT_VERSION,
            prompt: PromptRequest::Secret(secret),
        }
    }

    /// Why the envelope is refused, if it is.
    pub open spec fn problem(self) -> Option<Seq<char>> {
        first_of(version_problem("request"@, self.version), self.prompt.problem())
    }

    /// Opens the envelope: the version must match and the prompt be valid.
    pub fn into_prompt(self) -> (r: Result<PromptRequest, String>)
        ensures
            match r {
                Ok(p) => self.problem() is None && p == self.prompt,
                Err(m) => self.problem() == Some(m@),
            },
    {
        check_version("request", self.version)?;
        self.prompt.validate()?;
        Ok(self.prompt)
    }

    /// Why the envelope is refused as a file chooser's, if it is.
    pub open spec fn file_chooser_problem(self) -> Option<Seq<char>> {
        first_of(
            self.problem(),
            match self.prompt {
                PromptRequest::FileChooser(_) => None,
                _ => Some("prompter request is not a file chooser request"@),
            },
        )
    }

    /// Opens the envelope of a file chooser request.
    pub fn into_file_chooser(self) -> (r: Result<FileChooserRequest, String>)
        ensures
            match r {
                Ok(f) => self.file_chooser_problem() is None && self.prompt
                    == PromptRequest::FileChooser(f),
                Err(m) => self.file_chooser_problem() == Some(m@),
            },
    {
        match self.into_prompt()? {
            PromptRequest::FileChooser(request) => Ok(request),
            _ => Err("prompter request is not a file chooser request".to_owned()),
        }
    }
}

/// The prompt that a process is asked to show.
#[derive(Debug, Clone, PartialEq, Eq)]
pub enum PromptRequest {
    FileChooser(FileChooserRequest),
    Confirm(ConfirmRequest),
    Secret(SecretRequest),
}

impl PromptRequest {
    /// Why the prompt is refused, if it is.
    pub open spec fn problem(self) -> Option<Seq<char>> {
        match self {
            PromptRequest::FileChooser(request) => request.problem(),
            PromptRequest::Confirm(confirm) => confirm.problem(),
            PromptRequest::Secret(secret) => secret.problem(),
        }
    }

    /// Rejects a malformed prompt.
    pub fn validate(&self) -> (r: Result<(), String>)
        ensures
            match r {
                Ok(_) => self.problem() is None,
                Err(m) => self.problem() == Some(m@),
            },
    {
        match self {
            PromptRequest::FileChooser(request) => request.validate(),
            PromptRequest::Confirm(confirm) => confirm.validate(),
            PromptRequest::Secret(secret) => secret.validate(),
        }
    }
}

/// Versioned envelope returned by a prompter process.
#[derive(Clone, PartialEq, Eq)]
pub struct PrompterResponse {
    pub version: u32,
    pub result: PromptResult,
}

impl PrompterResponse {
    /// An envelope of the current version for a file chooser's response.
    pub fn new(request: FileChooserResponse) -> (r: Self)
        ensures
            r.version == PROCESS_CONTRACT_VERSION,
            r.result == PromptResult::FileChooser(request),
    {
        PrompterResponse {
            version: PROCESS_CONTRACT_VERSION,
            result: PromptResult::FileChooser(request),
        }
    }

    /// An envelope of the current version for a confirmation's response.
    pub fn confirm(confirm: ConfirmResponse) -> (r: Self)
        ensures
            r.version == PROCESS_CONTRACT_VERSION,
            r.result == PromptResult::Confirm(confirm),
    {
        PrompterResponse {
            version: PROCESS_CONTRACT_VERSION,
            result: PromptResult::Confirm(confirm),
        }
    }

    /// An envelope of the current version for a secret prompt's response.
    pub fn secret(secret: SecretResponse) -> (r: Self)
        ensures
            r.version == PROCESS_CONTRACT_VERSION,
            r.result == PromptResult::Secret(secret),
    {
        PrompterResponse {
            version: PROCESS_CONTRACT_VERSION,
            result: PromptResult::Secret(secret),
        }
    }

    /// An envelope of the current version for a failure.
    pub fn failed(message: String) -> (r: Self)
        ensures
            r.version == PROCESS_CONTRACT_VERSION,
            r.result == (PromptResult::Failed { message }),
    {
        PrompterResponse {
            version: PROCESS_CONTRACT_VERSION,
            result: PromptResult::Failed { message },
        }
    }

    /// Opens the envelope: the version must match.
    pub fn into_result(self) -> (r: Result<PromptResult, String>)
        ensures
            match r {
                Ok(p) => version_problem("response"@, self.version) is None && p == self.result,
                Err(m) => version_problem("response"@, self.version) == Some(m@),
            },
    {
        check_version("response", self.version)?;
        Ok(self.result)
    }

    /// Why the envelope is refused as a file chooser's, if it is.
    pub open spec fn file_chooser_problem(self) -> Option<Seq<char>> {
        first_of(
            version_problem("response"@, self.version),
            match self.result {
                PromptResult::FileChooser(_) => None,
                PromptResult::Failed { message } => Some(message@),
                _ => Some("prompter response is not a file chooser response"@),
            },
        )
    }

    /// Opens the envelope of a file chooser response; a failure is an error.
    pub fn into_file_chooser(self) -> (r: Result<FileChooserResponse, String>)
        ensures
            match r {
                Ok(f) => self.file_chooser_problem() is None && self.result
                    == PromptResult::FileChooser(f),
                Err(m) => self.file_chooser_problem() == Some(m@),
            },
    {
        match self.into_result()? {
            PromptResult::FileChooser(request) => Ok(request),
            PromptResult::Failed { message } => Err(message),
            _ => Err("prompter response is not a file chooser response".to_owned()),
        }
    }
}

/// The outcome that a process reports.
#[derive(Clone, PartialEq, Eq)]
pub enum PromptResult {
    FileChooser(FileChooserResponse),
    Confirm(ConfirmResponse),
    Secret(SecretResponse),
    Failed { message: String },
}

// ---------------------------------------------------------------------------
// Confirmation and secret prompts
// ---------------------------------------------------------------------------

/// A request to confirm an action.
#[derive(Debug, Clone, PartialEq, Eq)]
pub struct ConfirmRequest {
    pub title: String,
    pub body: String,
    pub accept_label: Option<String>,
    pub modal: bool,
    pub parent_window: Option<String>,
}

impl ConfirmRequest {
    /// Why the request is refused, if it is.
    pub open spec fn problem(self) -> Option<Seq<char>> {
        first_of(
            text_problem("confirmation title"@, self.title@, false),
            first_of(
                text_problem("confirmation body"@, self.body@, false),
                first_of(
                    match self.accept_label {
                        Some(label) => text_problem("confirmation accept label"@, label@, false),
                        None => None,
                    },
                    match self.parent_window {
                        Some(parent) => text_problem("confirmation parent window"@, parent@, true),
                        None => None,
                    },
                ),
            ),
        )
    }

    /// Rejects empty or oversized text before a dialog is shown.
    pub fn validate(&self) -> (r: Result<(), String>)
        ensures
            match r {
                Ok(_) => self.problem() is None,
                Err(m) => self.problem() == Some(m@),
            },
    {
        validate_prompt_text("confirmation title", self.title.as_str(), false)?;
        validate_prompt_text("confirmation body", self.body.as_str(), false)?;
        if let Some(label) = &self.accept_label {
            validate_prompt_text("confirmation accept label", label.as_str(), false)?;
        }
        if let Some(parent) = &self.parent_window {
            validate_prompt_text("confirmation parent window", parent.as_str(), true)?;
        }
        Ok(())
    }
}

/// The answer to a confirmation.
#[derive(Debug, Clone, Copy, PartialEq, Eq, Structural)]
pub enum ConfirmResponse {
    Confirmed,
    Cancelled,
}

/// A request to enter a secret.
#[derive(Debug, Clone, PartialEq, Eq)]
pub struct SecretRequest {
    pub title: String,
    pub reason: Option<String>,
}

impl SecretRequest {
    /// Why the request is refused, if it is.
    pub open spec fn problem(self) -> Option<Seq<char>> {
        first_of(
            text_problem("secret title"@, self.title@, false),
            match self.reason {
                Some(reason) => text_problem("secret reason"@, reason@, true),
                None => None,
            },
        )
    }

    /// Rejects empty or oversized text before a dialog is shown.
    pub fn validate(&self) -> (r: Result<(), String>)
        ensures
            match r {
                Ok(_) => self.problem() is None,
                Err(m) => self.problem() == Some(m@),
            },
    {
        validate_prompt_text("secret title", self.title.as_str(), false)?;
        if let Some(reason) = &self.reason {
            validate_prompt_text("secret reason", reason.as_str(), true)?;
        }
        Ok(())
    }
}

/// The answer to a secret prompt.
#[derive(Clone, PartialEq, Eq)]
pub enum SecretResponse {
    Secret { value: String },
    Cancelled,
}

impl SecretResponse {
    /// Takes the secret out, leaving an empty one behind.
    pub fn take_value(&mut self) -> (value: Option<String>)
        ensures
            match *old(self) {
                SecretResponse::Secret { value: secret } => {
                    &&& value is Some && value->0@ == secret@
                    &&& *final(self) matches SecretResponse::Secret { value: left } && left@.len()
                        == 0
                },
                SecretResponse::Cancelled => value is None && *final(self) == *old(self),
            },
    {
        match self {
            SecretResponse::Secret { value } => {
                let mut taken = String::new();
                std::mem::swap(value, &mut taken);
                Some(taken)
            },
            SecretResponse::Cancelled => None,
        }
    }

    /// A description for logs. It never shows the secret.
    pub fn debug_text(&self) -> (s: String)
        ensures
            s@ == (match self {
                SecretResponse::Secret { .. } => "SecretResponse::Secret([REDACTED])"@,
                SecretResponse::Cancelled => "SecretResponse::Cancelled"@,
            }),
    {
        match self {
            SecretResponse::Secret { .. } => "SecretResponse::Secret([REDACTED])".to_owned(),
            SecretResponse::Cancelled => "SecretResponse::Cancelled".to_owned(),
        }
    }
}

/// Why a prompt text is refused, if it is.
pub open spec fn text_problem(name: Seq<char>, value: Seq<char>, allow_empty: bool) -> Option<
    Seq<char>,
> {
    if (!allow_empty && crate::text::blank(value)) || vstd::utf8::encode_utf8(value).len()
        > MAX_PROMPT_TEXT_BYTES || value.contains('\0') {
        Some(name + " is empty, oversized, or contains NUL"@)
    } else {
        None
    }
}

/// Rejects text that is blank (unless allowed), too long, or holds NUL.
pub fn validate_prompt_text(name: &str, value: &str, allow_empty: bool) -> (r: Result<(), String>)
    ensures
        match r {
            Ok(_) => text_problem(name@, value@, allow_empty) is None,
            Err(m) => text_problem(name@, value@, allow_empty) == Some(m@),
        },
{
    if (!allow_empty && is_blank(value)) || value.as_bytes().len() > MAX_PROMPT_TEXT_BYTES
        || has_char(value, '\0') {
        let mut m = name.to_owned();
        m.append(" is empty, oversized, or contains NUL");
        return Err(m);
    }
    Ok(())
}

// ---------------------------------------------------------------------------
// File chooser requests
// ---------------------------------------------------------------------------

/// One filesystem path as its native Unix bytes.
#[derive(Debug, Clone, PartialEq, Eq)]
pub struct BytePath(pub Vec<u8>);

impl View for BytePath {
    type V = Seq<u8>;

    open spec fn view(&self) -> Seq<u8> {
        self.0@
    }
}

impl Default for BytePath {
    fn default() -> (p: Self)
        ensures
            p@ == Seq::<u8>::empty(),
    {
        BytePath(Vec::new())
    }
}

impl BytePath {
    /// The path with the given text.
    pub fn from_path(path: &str) -> (p: Self)
        ensures
            p@ == vstd::utf8::encode_utf8(path@),
    {
        BytePath(vstd::slice::slice_to_vec(path.as_bytes()))
    }

    /// The path has no bytes.
    pub fn is_empty(&self) -> (yes: bool)
        ensures
            yes == (self@.len() == 0),
    {
        self.0.len() == 0
    }
}

/// The operation that one prompter process represents.
#[derive(Debug, Clone, Copy, PartialEq, Eq, Structural)]
pub enum FileChooserMode {
    OpenFile,
    OpenDirectory,
    SaveFile,
    SaveFiles,
}

impl FileChooserMode {
    /// The name of the mode.
    pub open spec fn name_of(self) -> Seq<char> {
        match self {
            FileChooserMode::OpenFile => "OpenFile"@,
            FileChooserMode::OpenDirectory => "OpenDirectory"@,
            FileChooserMode::SaveFile => "SaveFile"@,
            FileChooserMode::SaveFiles => "SaveFiles"@,
        }
    }

    /// The name of the mode.
    pub fn name(self) -> (s: &'static str)
        ensures
            s@ == self.name_of(),
    {
        match self {
            FileChooserMode::OpenFile => "OpenFile",
            FileChooserMode::OpenDirectory => "OpenDirectory",
            FileChooserMode::SaveFile => "SaveFile",
            FileChooserMode::SaveFiles => "SaveFiles",
        }
    }
}

/// The two kinds of file filter rules.
#[derive(Debug, Clone, Copy, PartialEq, Eq, Structural)]
pub enum FilterRuleKind {
    Glob,
    Mime,
}

/// One typed file filter rule. The kind is never inferred from the text.
#[derive(Debug, Clone, PartialEq, Eq)]
pub struct FilterRule {
    pub kind: FilterRuleKind,
    pub value: String,
}

impl View for FilterRule {
    type V = (FilterRuleKind, Seq<char>);

    open spec fn view(&self) -> (FilterRuleKind, Seq<char>) {
        (self.kind, self.value@)
    }
}

/// One user-visible file filter.
#[derive(Debug, Clone, PartialEq, Eq)]
pub struct FileFilter {
    pub label: String,
    pub rules: Vec<FilterRule>,
}

/// What a file filter holds.
#[verifier::ext_equal]
pub struct FilterContent {
    pub label: Seq<char>,
    pub rules: Seq<(FilterRuleKind, Seq<char>)>,
}

impl View for FileFilter {
    type V = FilterContent;

    open spec fn view(&self) -> FilterContent {
        FilterContent { label: self.label@, rules: self.rules@.map_values(|r: FilterRule| r@) }
    }
}

impl Default for FileFilter {
    fn default() -> (f: Self)
        ensures
            f@.label == Seq::<char>::empty(),
            f@.rules == Seq::<(FilterRuleKind, Seq<char>)>::empty(),
    {
        let f = FileFilter { label: String::new(), rules: Vec::new() };
        assert(f@.rules =~= Seq::<(FilterRuleKind, Seq<char>)>::empty());
        f
    }
}

impl FileFilter {
    /// The label or one of the rules is empty.
    pub open spec fn malformed(self) -> bool {
        self.label@.len() == 0 || exists|i: int|
            0 <= i < self.rules@.len() && (#[trigger] self.rules@[i]).value@.len() == 0
    }

    fn is_malformed(&self) -> (yes: bool)
        ensures
            yes == self.malformed(),
    {
        if self.label.as_str().is_empty() {
            return true;
        }
        let mut i: usize = 0;
        while i < self.rules.len()
            invariant
                i <= self.rules@.len(),
                forall|k: int| 0 <= k < i ==> (#[trigger] self.rules@[k]).value@.len() != 0,
            decreases self.rules@.len() - i,
        {
            if self.rules[i].value.as_str().is_empty() {
                return true;
            }
            i = i + 1;
        }
        false
    }

    /// The same label and the same rules in the same order.
    pub fn same(&self, other: &FileFilter) -> (yes: bool)
        ensures
            yes == (self@ == other@),
    {
        if !same_text(self.label.as_str(), other.label.as_str()) || self.rules.len()
            != other.rules.len() {
            assert(self@.rules.len() == self.rules@.len());
            assert(other@.rules.len() == other.rules@.len());
            return false;
        }
        let mut i: usize = 0;
        while i < self.rules.len()
            invariant
                i <= self.rules@.len(),
                self.rules@.len() == other.rules@.len(),
                forall|k: int| 0 <= k < i ==> self@.rules[k] == other@.rules[k],
            decreases self.rules@.len() - i,
        {
            let ghost (a, b) = (self@.rules[i as int], other@.rules[i as int]);
            assert(a == self.rules@[i as int]@ && b == other.rules@[i as int]@);
            if self.rules[i].kind != other.rules[i].kind || !same_text(
                self.rules[i].value.as_str(),
                other.rules[i].value.as_str(),
            ) {
                return false;
            }
            i = i + 1;
        }
        assert(self@.rules =~= other@.rules);
        true
    }

    /// A copy with the same content.
    pub fn copy(&self) -> (f: FileFilter)
        ensures
            f@ == self@,
    {
        let mut rules: Vec<FilterRule> = Vec::new();
        let mut i: usize = 0;
        while i < self.rules.len()
            invariant
                i <= self.rules@.len(),
                rules@.map_values(|r: FilterRule| r@) == self@.rules.take(i as int),
            decreases self.rules@.len() - i,
        {
            let ghost before = rules@;
            let rule = FilterRule {
                kind: self.rules[i].kind,
                value: self.rules[i].value.clone(),
            };
            rules.push(rule);
            assert(rules@.map_values(|r: FilterRule| r@) =~= before.map_values(
                |r: FilterRule| r@,
            ).push(rule@));
            i = i + 1;
            assert(self@.rules.take(i as int) =~= self@.rules.take(i - 1).push(
                self@.rules[i - 1],
            ));
        }
        assert(self@.rules.take(i as int) =~= self@.rules);
        FileFilter { label: self.label.clone(), rules }
    }
}

/// One optional control embedded in a file chooser.
#[derive(Debug, Clone, PartialEq, Eq)]
pub struct Choice {
    pub id: String,
    pub label: String,
    /// Empty means a boolean check button whose values are `true`/`false`.
    pub options: Vec<(String, String)>,
    pub selected: String,
}

impl Choice {
    /// An option has an empty id or label.
    pub open spec fn has_empty_option(self) -> bool {
        exists|i: int|
            0 <= i < self.options@.len() && ((#[trigger] self.options@[i]).0@.len() == 0
                || self.options@[i].1@.len() == 0)
    }

    /// Two options have the same id.
    pub open spec fn has_duplicate_options(self) -> bool {
        exists|i: int, j: int|
            0 <= i < j < self.options@.len() && (#[trigger] self.options@[i]).0@ == (
            #[trigger] self.options@[j]).0@
    }

    /// One of the options has this id.
    pub open spec fn offers(self, id: Seq<char>) -> bool {
        exists|i: int| 0 <= i < self.options@.len() && (#[trigger] self.options@[i]).0@ == id
    }

    /// Why the choice is refused on its own, if it is.
    pub open spec fn option_problem(self) -> Option<Seq<char>> {
        let id = crate::text::quoted(self.id@);
        if self.has_empty_option() {
            Some("choice "@ + id + " contains an empty option"@)
        } else if self.has_duplicate_options() {
            Some("choice "@ + id + " has duplicate option ids"@)
        } else if self.options@.len() == 0 {
            if self.selected@.len() == 0 || self.selected@ == "true"@ || self.selected@
                == "false"@ {
                None
            } else {
                Some(
                    "boolean choice "@ + id + " has invalid value "@ + crate::text::quoted(
                        self.selected@,
                    ),
                )
            }
        } else if self.selected@.len() != 0 && !self.offers(self.selected@) {
            Some("choice "@ + id + " selects unknown option "@ + crate::text::quoted(self.selected@))
        } else {
            None
        }
    }

    fn find_empty_option(&self) -> (yes: bool)
        ensures
            yes == self.has_empty_option(),
    {
        let mut i: usize = 0;
        while i < self.options.len()
            invariant
                i <= self.options@.len(),
                forall|k: int|
                    0 <= k < i ==> (#[trigger] self.options@[k]).0@.len() != 0
                        && self.options@[k].1@.len() != 0,
            decreases self.options@.len() - i,
        {
            if self.options[i].0.as_str().is_empty() || self.options[i].1.as_str().is_empty() {
                return true;
            }
            i = i + 1;
        }
        false
    }

    fn find_duplicate_options(&self) -> (yes: bool)
        ensures
            yes == self.has_duplicate_options(),
    {
        let mut j: usize = 0;
        while j < self.options.len()
            invariant
                j <= self.options@.len(),
                forall|a: int, b: int|
                    0 <= a < b < j ==> (#[trigger] self.options@[a]).0@ != (
                    #[trigger] self.options@[b]).0@,
            decreases self.options@.len() - j,
        {
            let mut i: usize = 0;
            while i < j
                invariant
                    i <= j < self.options@.len(),
                    forall|a: int|
                        0 <= a < i ==> (#[trigger] self.options@[a]).0@ != self.options@[j as int].0@,
                decreases j - i,
            {
                if same_text(self.options[i].0.as_str(), self.options[j].0.as_str()) {
                    return true;
                }
                i = i + 1;
            }
            j = j + 1;
        }
        false
    }

    /// One of the options has this id.
    pub fn has_option(&self, id: &str) -> (yes: bool)
        ensures
            yes == self.offers(id@),
    {
        let mut i: usize = 0;
        while i < self.options.len()
            invariant
                i <= self.options@.len(),
                forall|k: int| 0 <= k < i ==> (#[trigger] self.options@[k]).0@ != id@,
            decreases self.options@.len() - i,
        {
            if same_text(self.options[i].0.as_str(), id) {
                return true;
            }
            i = i + 1;
        }
        false
    }

    fn check_options(&self) -> (r: Result<(), String>)
        ensures
            match r {
                Ok(_) => self.option_problem() is None,
                Err(m) => self.option_problem() == Some(m@),
            },
    {
        let id = quoted_text(self.id.as_str());
        if self.find_empty_option() {
            let mut m = "choice ".to_owned();
            m.append(id.as_str());
            m.append(" contains an empty option");
            return Err(m);
        }
        if self.find_duplicate_options() {
            let mut m = "choice ".to_owned();
            m.append(id.as_str());
            m.append(" has duplicate option ids");
            return Err(m);
        }
        if self.options.len() == 0 {
            if !(self.selected.as_str().is_empty() || same_text(self.selected.as_str(), "true")
                || same_text(self.selected.as_str(), "false")) {
                let mut m = "boolean choice ".to_owned();
                m.append(id.as_str());
                m.append(" has invalid value ");
                m.append(quoted_text(self.selected.as_str()).as_str());
                return Err(m);
            }
        } else if !self.selected.as_str().is_empty() && !self.has_option(self.selected.as_str()) {
            let mut m = "choice ".to_owned();
            m.append(id.as_str());
            m.append(" selects unknown option ");
            m.append(quoted_text(self.selected.as_str()).as_str());
            return Err(m);
        }
        Ok(())
    }
}

/// Why the choice at position `k` is refused, if it is: its id must be new.
pub open spec fn choice_problem(choices: Seq<Choice>, k: int) -> Option<Seq<char>> {
    let choice = choices[k];
    if choice.id@.len() == 0 || choice.label@.len() == 0 {
        Some("choice ids and labels must not be empty"@)
    } else if exists|j: int| 0 <= j < k && (#[trigger] choices[j]).id@ == choice.id@ {
        Some("duplicate choice id "@ + crate::text::quoted(choice.id@))
    } else {
        choice.option_problem()
    }
}

/// The first problem among the choices from position `k` on.
pub open spec fn choices_problem(choices: Seq<Choice>, k: int) -> Option<Seq<char>>
    decreases choices.len() - k,
{
    if k < 0 || k >= choices.len() {
        None
    } else {
        first_of(choice_problem(choices, k), choices_problem(choices, k + 1))
    }
}

/// The first problem among the suggested names from position `k` on.
pub open spec fn basenames_problem(files: Seq<BytePath>, k: int) -> Option<Seq<char>>
    decreases files.len() - k,
{
    if k < 0 || k >= files.len() {
        None
    } else {
        first_of(basename_problem(files[k]@), basenames_problem(files, k + 1))
    }
}

/// Exactly one component, and that a name.
pub open spec fn is_basename(b: Seq<u8>) -> bool {
    let parts = crate::paths::parts(b);
    parts.len() == 1 && parts[0] is Name
}

/// Why a suggested name is refused, if it is.
pub open spec fn basename_problem(b: Seq<u8>) -> Option<Seq<char>> {
    if b.contains(0) {
        Some("SaveFiles basenames must not contain NUL"@)
    } else if is_basename(b) {
        None
    } else {
        Some(
            "SaveFiles name "@ + crate::text::quoted_path(b)
                + " is not a single non-empty basename"@,
        )
    }
}

/// Why a location is refused, if it is.
pub open spec fn absolute_path_problem(name: Seq<char>, b: Seq<u8>) -> Option<Seq<char>> {
    if !crate::paths::rooted(b) || b.contains(0) {
        Some(name + " is not a valid absolute Unix path"@)
    } else {
        None
    }
}

fn has_nul(b: &[u8]) -> (yes: bool)
    ensures
        yes == b@.contains(0),
{
    let mut i: usize = 0;
    while i < b.len()
        invariant
            i <= b@.len(),
            forall|k: int| 0 <= k < i ==> b@[k] != 0,
        decreases b@.len() - i,
    {
        if b[i] == 0 {
            assert(b@[i as int] == 0);
            return true;
        }
        i = i + 1;
    }
    false
}

/// Accepts exactly one plain file name.
pub fn validate_basename(path: &[u8]) -> (r: Result<(), String>)
    ensures
        match r {
            Ok(_) => basename_problem(path@) is None,
            Err(m) => basename_problem(path@) == Some(m@),
        },
{
    if has_nul(path) {
        return Err("SaveFiles basenames must not contain NUL".to_owned());
    }
    let marks = read_marks(path);
    let ghost parts = crate::paths::parts(path@);
    assert(parts.len() == marks.len());
    if marks.len() == 1 {
        assert(crate::paths::mark_views(marks@)[0].part == marks@[0].0@);
        assert(parts[0] == marks@[0].0@);
        if let Component::Name(_) = &marks[0].0 {
            return Ok(());
        }
    }
    let mut m = "SaveFiles name ".to_owned();
    m.append(quoted_path_text(path).as_str());
    m.append(" is not a single non-empty basename");
    Err(m)
}

/// Accepts an absolute path without NUL.
pub fn validate_absolute_path(name: &str, path: &[u8]) -> (r: Result<(), String>)
    ensures
        match r {
            Ok(_) => absolute_path_problem(name@, path@) is None,
            Err(m) => absolute_path_problem(name@, path@) == Some(m@),
        },
{
    if !is_rooted(path) || has_nul(path) {
        let mut m = name.to_owned();
        m.append(" is not a valid absolute Unix path");
        return Err(m);
    }
    Ok(())
}

/// One complete request sent from the backend to the prompter.
#[derive(Debug, Clone, PartialEq, Eq)]
pub struct FileChooserRequest {
    pub mode: FileChooserMode,
    pub app_id: String,
    pub title: String,
    pub accept_label: Option<String>,
    pub modal: bool,
    pub parent_window: Option<String>,
    pub multiple: bool,
    pub current_folder: Option<BytePath>,
    pub current_name: Option<String>,
    pub current_file: Option<BytePath>,
    pub filters: Vec<FileFilter>,
    pub current_filter: Option<FileFilter>,
    pub choices: Vec<Choice>,
    /// Suggested basenames for `SaveFiles`, in request order.
    pub files: Vec<BytePath>,
}

impl FileChooserRequest {
    /// A filter, the current one included, has an empty label or rule.
    pub open spec fn has_malformed_filter(self) -> bool {
        ||| exists|i: int| 0 <= i < self.filters@.len() && (#[trigger] self.filters@[i]).malformed()
        ||| self.current_filter matches Some(filter) && filter.malformed()
    }

    /// Why the request is refused, if it is: the first problem in this order.
    pub open spec fn problem(self) -> Option<Seq<char>> {
        first_of(
            match self.current_folder {
                Some(path) => absolute_path_problem("current_folder"@, path@),
                None => None,
            },
            first_of(
                match self.current_file {
                    Some(path) => absolute_path_problem("current_file"@, path@),
                    None => None,
                },
                if self.mode != FileChooserMode::SaveFiles && self.files@.len() != 0 {
                    Some("suggested files are valid only for SaveFiles"@)
                } else if self.mode == FileChooserMode::SaveFiles && self.files@.len() == 0 {
                    Some("SaveFiles requires at least one suggested basename"@)
                } else {
                    first_of(
                        basenames_problem(self.files@, 0),
                        if self.has_malformed_filter() {
                            Some("filter labels and rules must not be empty"@)
                        } else {
                            choices_problem(self.choices@, 0)
                        },
                    )
                },
            ),
        )
    }

    fn find_malformed_filter(&self) -> (yes: bool)
        ensures
            yes == self.has_malformed_filter(),
    {
        let mut i: usize = 0;
        while i < self.filters.len()
            invariant
                i <= self.filters@.len(),
                forall|k: int| 0 <= k < i ==> !(#[trigger] self.filters@[k]).malformed(),
            decreases self.filters@.len() - i,
        {
            if self.filters[i].is_malformed() {
                return true;
            }
            i = i + 1;
        }
        match &self.current_filter {
            Some(filter) => filter.is_malformed(),
            None => false,
        }
    }

    fn check_basenames(&self) -> (r: Result<(), String>)
        ensures
            match r {
                Ok(_) => basenames_problem(self.files@, 0) is None,
                Err(m) => basenames_problem(self.files@, 0) == Some(m@),
            },
    {
        let mut i: usize = 0;
        while i < self.files.len()
            invariant
                i <= self.files@.len(),
                basenames_problem(self.files@, 0) == basenames_problem(self.files@, i as int),
            decreases self.files@.len() - i,
        {
            validate_basename(self.files[i].0.as_slice())?;
            i = i + 1;
        }
        Ok(())
    }

    fn check_choices(&self) -> (r: Result<(), String>)
        ensures
            match r {
                Ok(_) => choices_problem(self.choices@, 0) is None,
                Err(m) => choices_problem(self.choices@, 0) == Some(m@),
            },
    {
        let mut i: usize = 0;
        while i < self.choices.len()
            invariant
                i <= self.choices@.len(),
                choices_problem(self.choices@, 0) == choices_problem(self.choices@, i as int),
            decreases self.choices@.len() - i,
        {
            let choice = &self.choices[i];
            if choice.id.as_str().is_empty() || choice.label.as_str().is_empty() {
                return Err("choice ids and labels must not be empty".to_owned());
            }
            let mut j: usize = 0;
            while j < i
                invariant
                    j <= i < self.choices@.len(),
                    *choice == self.choices@[i as int],
                    choice.id@.len() != 0 && choice.label@.len() != 0,
                    choices_problem(self.choices@, 0) == choices_problem(self.choices@, i as int),
                    forall|k: int| 0 <= k < j ==> (#[trigger] self.choices@[k]).id@ != choice.id@,
                decreases i - j,
            {
                if same_text(self.choices[j].id.as_str(), choice.id.as_str()) {
                    let mut m = "duplicate choice id ".to_owned();
                    m.append(quoted_text(choice.id.as_str()).as_str());
                    return Err(m);
                }
                j = j + 1;
            }
            choice.check_options()?;
            i = i + 1;
        }
        Ok(())
    }

    /// Rejects malformed values before any dialog or filesystem access.
    pub fn validate(&self) -> (r: Result<(), String>)
        ensures
            match r {
                Ok(_) => self.problem() is None,
                Err(m) => self.problem() == Some(m@),
            },
    {
        if let Some(path) = &self.current_folder {
            validate_absolute_path("current_folder", path.0.as_slice())?;
        }
        if let Some(path) = &self.current_file {
            validate_absolute_path("current_file", path.0.as_slice())?;
        }
        if self.mode != FileChooserMode::SaveFiles && self.files.len() != 0 {
            return Err("suggested files are valid only for SaveFiles".to_owned());
        }
        if self.mode == FileChooserMode::SaveFiles && self.files.len() == 0 {
            return Err("SaveFiles requires at least one suggested basename".to_owned());
        }
        self.check_basenames()?;
        if self.find_malformed_filter() {
            return Err("filter labels and rules must not be empty".to_owned());
        }
        self.check_choices()
    }
}

// ---------------------------------------------------------------------------
// File chooser responses
// ---------------------------------------------------------------------------

/// The one response emitted by a file chooser process.
#[derive(Debug, Clone, PartialEq, Eq)]
pub enum FileChooserResponse {
    Selected {
        paths: Vec<BytePath>,
        current_filter: Option<FileFilter>,
        choices: Vec<(String, String)>,
    },
    Cancelled,
    Failed { message: String },
}

/// The number of paths that a selection must hold, when it is fixed.
pub open spec fn expected_paths(request: FileChooserRequest) -> Option<nat> {
    match request.mode {
        FileChooserMode::SaveFile => Some(1),
        FileChooserMode::SaveFiles => Some(request.files@.len()),
        FileChooserMode::OpenFile | FileChooserMode::OpenDirectory => if request.multiple {
            None
        } else {
            Some(1)
        },
    }
}

/// Why a number of paths is refused, if it is.
pub open spec fn path_count_problem(count: nat, request: FileChooserRequest) -> Option<Seq<char>> {
    if count == 0 || (expected_paths(request) is Some && expected_paths(request) != Some(count)) {
        Some(
            "prompter returned "@ + crate::text::decimal(count) + " path(s), incompatible with "@
                + request.mode.name_of(),
        )
    } else {
        None
    }
}

/// The first selected path from position `k` on that is not an absolute path
/// without NUL.
pub open spec fn selected_paths_problem(paths: Seq<BytePath>, k: int) -> Option<Seq<char>>
    decreases paths.len() - k,
{
    if k < 0 || k >= paths.len() {
        None
    } else if !crate::paths::rooted(paths[k]@) || paths[k]@.contains(0) {
        Some("prompter returned an invalid local path "@ + crate::text::quoted_path(paths[k]@))
    } else {
        selected_paths_problem(paths, k + 1)
    }
}

/// The request offered this filter: among its filters, or as the current
/// filter when it has no others.
pub open spec fn offers_filter(request: FileChooserRequest, filter: FilterContent) -> bool {
    ||| exists|i: int| 0 <= i < request.filters@.len() && (#[trigger] request.filters@[i])@ == filter
    ||| request.filters@.len() == 0 && request.current_filter is Some
        && request.current_filter->0@ == filter
}

/// Why the answer to one choice is refused, if it is.
pub open spec fn answer_problem(answer: (String, String), requested: Choice) -> Option<Seq<char>> {
    let valid = if requested.options@.len() == 0 {
        answer.1@ == "true"@ || answer.1@ == "false"@
    } else {
        requested.offers(answer.1@)
    };
    if answer.0@ != requested.id@ {
        Some("prompter returned unexpected choice id "@ + crate::text::quoted(answer.0@))
    } else if !valid {
        Some(
            "prompter returned invalid value "@ + crate::text::quoted(answer.1@) + " for choice "@
                + crate::text::quoted(answer.0@),
        )
    } else {
        None
    }
}

/// The first problem among the answers from position `k` on.
pub open spec fn answers_problem(
    answers: Seq<(String, String)>,
    requested: Seq<Choice>,
    k: int,
) -> Option<Seq<char>>
    decreases answers.len() - k,
{
    if k < 0 || k >= answers.len() {
        None
    } else {
        first_of(
            answer_problem(answers[k], requested[k]),
            answers_problem(answers, requested, k + 1),
        )
    }
}

impl FileChooserResponse {
    /// Why the response is refused for a request, if it is.
    pub open spec fn problem_for(self, request: FileChooserRequest) -> Option<Seq<char>> {
        match self {
            FileChooserResponse::Selected { paths, current_filter, choices } => first_of(
                path_count_problem(paths@.len(), request),
                first_of(
                    selected_paths_problem(paths@, 0),
                    if current_filter is Some && !offers_filter(request, current_filter->0@) {
                        Some("prompter returned a filter that was not offered"@)
                    } else if choices@.len() != request.choices@.len() {
                        Some("prompter returned the wrong number of choices"@)
                    } else {
                        answers_problem(choices@, request.choices@, 0)
                    },
                ),
            ),
            _ => None,
        }
    }

    /// Checks the child's result against the exact request before it becomes
    /// a portal response. The prompter is a fault boundary, not a trusted
    /// source of arbitrarily shaped paths or choice values.
    pub fn validate_for(&self, request: &FileChooserRequest) -> (r: Result<(), String>)
        ensures
            match r {
                Ok(_) => self.problem_for(*request) is None,
                Err(m) => self.problem_for(*request) == Some(m@),
            },
    {
        match self {
            FileChooserResponse::Selected { paths, current_filter, choices } => {
                check_path_count(paths.len(), request)?;
                check_selected_paths(paths)?;
                if let Some(filter) = current_filter {
                    if !request.has_filter(filter) {
                        return Err("prompter returned a filter that was not offered".to_owned());
                    }
                }
                if choices.len() != request.choices.len() {
                    return Err("prompter returned the wrong number of choices".to_owned());
                }
                check_answers(choices, &request.choices)
            },
            _ => Ok(()),
        }
    }
}

fn check_path_count(count: usize, request: &FileChooserRequest) -> (r: Result<(), String>)
    ensures
        match r {
            Ok(_) => path_count_problem(count as nat, *request) is None,
            Err(m) => path_count_problem(count as nat, *request) == Some(m@),
        },
{
    let fits: bool = match request.mode {
        FileChooserMode::SaveFile => count == 1,
        FileChooserMode::SaveFiles => count == request.files.len(),
        FileChooserMode::OpenFile | FileChooserMode::OpenDirectory => request.multiple || count == 1,
    };
    if count == 0 || !fits {
        let mut m = "prompter returned ".to_owned();
        m.append(decimal_text(count as u64).as_str());
        m.append(" path(s), incompatible with ");
        m.append(request.mode.name());
        return Err(m);
    }
    Ok(())
}

fn check_selected_paths(paths: &Vec<BytePath>) -> (r: Result<(), String>)
    ensures
        match r {
            Ok(_) => selected_paths_problem(paths@, 0) is None,
            Err(m) => selected_paths_problem(paths@, 0) == Some(m@),
        },
{
    let mut i: usize = 0;
    while i < paths.len()
        invariant
            i <= paths@.len(),
            selected_paths_problem(paths@, 0) == selected_paths_problem(paths@, i as int),
        decreases paths@.len() - i,
    {
        let path = paths[i].0.as_slice();
        if !is_rooted(path) || has_nul(path) {
            let mut m = "prompter returned an invalid local path ".to_owned();
            m.append(quoted_path_text(path).as_str());
            return Err(m);
        }
        i = i + 1;
    }
    Ok(())
}

fn check_answers(answers: &Vec<(String, String)>, requested: &Vec<Choice>) -> (r: Result<
    (),
    String,
>)
    requires
        answers@.len() == requested@.len(),
    ensures
        match r {
            Ok(_) => answers_problem(answers@, requested@, 0) is None,
            Err(m) => answers_problem(answers@, requested@, 0) == Some(m@),
        },
{
    let mut i: usize = 0;
    while i < answers.len()
        invariant
            i <= answers@.len(),
            answers@.len() == requested@.len(),
            answers_problem(answers@, requested@, 0) == answers_problem(
                answers@,
                requested@,
                i as int,
            ),
        decreases answers@.len() - i,
    {
        let id = answers[i].0.as_str();
        let selected = answers[i].1.as_str();
        if !same_text(id, requested[i].id.as_str()) {
            let mut m = "prompter returned unexpected choice id ".to_owned();
            m.append(quoted_text(id).as_str());
            return Err(m);
        }
        let valid: bool = if requested[i].options.len() == 0 {
            same_text(selected, "true") || same_text(selected, "false")
        } else {
            requested[i].has_option(selected)
        };
        if !valid {
            let mut m = "prompter returned invalid value ".to_owned();
            m.append(quoted_text(selected).as_str());
            m.append(" for choice ");
            m.append(quoted_text(id).as_str());
            return Err(m);
        }
        i = i + 1;
    }
    Ok(())
}

impl FileChooserRequest {
    /// The request offered this filter.
    pub fn has_filter(&self, filter: &FileFilter) -> (yes: bool)
        ensures
            yes == offers_filter(*self, filter@),
    {
        let mut i: usize = 0;
        while i < self.filters.len()
            invariant
                i <= self.filters@.len(),
                forall|k: int| 0 <= k < i ==> (#[trigger] self.filters@[k])@ != filter@,
            decreases self.filters@.len() - i,
        {
            if self.filters[i].same(filter) {
                return true;
            }
            i = i + 1;
        }
        match &self.current_filter {
            Some(current) => self.filters.len() == 0 && current.same(filter),
            None => false,
        }
    }
}

// ---------------------------------------------------------------------------
// Names for SaveFiles
// ---------------------------------------------------------------------------

/// The position of the last dot, or -1.
pub open spec fn last_dot(name: Seq<u8>) -> int
    decreases name.len(),
{
    if name.len() == 0 {
        -1
    } else if name.last() == DOT {
        name.len() - 1
    } else {
        last_dot(name.drop_last())
    }
}

/// A name split at its last dot, unless the dot opens or closes the name.
pub open spec fn name_pieces(name: Seq<u8>) -> (Seq<u8>, Option<Seq<u8>>) {
    let dot = last_dot(name);
    if dot <= 0 || dot + 1 == name.len() {
        (name, None)
    } else {
        (name.take(dot), Some(name.skip(dot + 1)))
    }
}

/// Splits a name into its stem and its extension.
pub fn split_extension(name: &[u8]) -> (pieces: (&[u8], Option<&[u8]>))
    ensures
        pieces.0@ == name_pieces(name@).0,
        match pieces.1 {
            Some(extension) => name_pieces(name@).1 == Some(extension@),
            None => name_pieces(name@).1 is None,
        },
{
    let mut n: usize = name.len();
    assert(name@.take(n as int) =~= name@);
    while n > 0 && name[n - 1] != DOT
        invariant
            n <= name@.len(),
            last_dot(name@) == last_dot(name@.take(n as int)),
        decreases n,
    {
        assert(name@.take(n as int).last() == name@[n - 1]);
        assert(name@.take(n as int).drop_last() =~= name@.take(n - 1));
        n = n - 1;
    }
    if n == 0 {
        assert(last_dot(name@) == -1);
        return (name, None);
    }
    assert(name@.take(n as int).last() == name@[n - 1]);
    assert(last_dot(name@) == n - 1);
    if n == 1 || n == name.len() {
        return (name, None);
    }
    let stem = vstd::slice::slice_subrange(name, 0, n - 1);
    let extension = vstd::slice::slice_subrange(name, n, name.len());
    assert(stem@ =~= name@.take(n - 1));
    assert(extension@ =~= name@.skip(n as int));
    (stem, Some(extension))
}

/// The name tried in the `n`th place: the plain name, then the name with
/// `(1)`, `(2)`, ... in front of its extension.
pub open spec fn numbered_name(name: Seq<u8>, n: nat) -> Seq<u8> {
    let (stem, extension) = name_pieces(name);
    if n == 0 {
        name
    } else {
        let base = stem + vstd::utf8::encode_utf8("("@ + crate::text::decimal(n) + ")"@);
        match extension {
            Some(extension) => base.push(DOT) + extension,
            None => base,
        }
    }
}

/// The path tried in the `n`th place.
pub open spec fn numbered_child(folder: Seq<u8>, name: Seq<u8>, n: nat) -> Seq<u8> {
    crate::paths::joined(folder, numbered_name(name, n))
}

/// A path was probed and this was the answer.
pub open spec fn probed<F: Fn(&Vec<u8>) -> bool>(occupied: F, path: Seq<u8>, answer: bool) -> bool {
    exists|v: Vec<u8>| v@ == path && #[trigger] call_ensures(occupied, (&v,), answer)
}

/// A path was already handed out, or the probe found it occupied.
pub open spec fn taken<F: Fn(&Vec<u8>) -> bool>(
    occupied: F,
    reserved: Seq<Seq<u8>>,
    path: Seq<u8>,
) -> bool {
    crate::pathset::member(reserved, path) || probed(occupied, path, true)
}

/// The path tried in the `n`th place is free, and all before it were taken.
pub open spec fn first_free<F: Fn(&Vec<u8>) -> bool>(
    occupied: F,
    reserved: Seq<Seq<u8>>,
    folder: Seq<u8>,
    name: Seq<u8>,
    n: nat,
    path: Seq<u8>,
) -> bool {
    &&& n <= u32::MAX
    &&& path == numbered_child(folder, name, n)
    &&& !crate::pathset::member(reserved, path)
    &&& probed(occupied, path, false)
    &&& forall|k: nat| k < n ==> taken(occupied, reserved, #[trigger] numbered_child(folder, name, k))
}

/// The name is a plain file name, and the path is the first free one among
/// those tried for it.
pub open spec fn placed<F: Fn(&Vec<u8>) -> bool>(
    occupied: F,
    reserved: Seq<Seq<u8>>,
    folder: Seq<u8>,
    name: Seq<u8>,
    path: Seq<u8>,
) -> bool {
    &&& basename_problem(name) is None
    &&& exists|n: nat| #[trigger] first_free(occupied, reserved, folder, name, n, path)
}

/// The message when every numbered name is taken.
pub open spec fn exhausted_problem(name: Seq<u8>) -> Seq<char> {
    "could not construct a unique filename for "@ + crate::text::quoted_path(name)
}

fn is_reserved(reserved: &Vec<BytePath>, path: &[u8]) -> (yes: bool)
    ensures
        yes == crate::pathset::member(byte_paths(reserved@), path@),
{
    let mut i: usize = 0;
    while i < reserved.len()
        invariant
            i <= reserved@.len(),
            forall|k: int|
                0 <= k < i ==> !crate::pathset::same_path(
                    #[trigger] byte_paths(reserved@)[k],
                    path@,
                ),
        decreases reserved@.len() - i,
    {
        assert(byte_paths(reserved@)[i as int] == reserved@[i as int]@);
        if let Order::Same = order_paths(reserved[i].0.as_slice(), path) {
            return true;
        }
        i = i + 1;
    }
    false
}

/// The bytes of a list of paths.
pub open spec fn byte_paths(paths: Seq<BytePath>) -> Seq<Seq<u8>> {
    paths.map_values(|p: BytePath| p@)
}

fn number_name(name: &[u8], n: u32) -> (numbered: Vec<u8>)
    ensures
        numbered@ == numbered_name(name@, n as nat),
{
    if n == 0 {
        return vstd::slice::slice_to_vec(name);
    }
    let (stem, extension) = split_extension(name);
    let mut suffix = "(".to_owned();
    suffix.append(decimal_text(n as u64).as_str());
    suffix.append(")");
    let mut numbered = vstd::slice::slice_to_vec(stem);
    let tail = suffix.as_str().as_bytes();
    numbered.extend_from_slice(tail);
    assert(numbered@ =~= stem@ + tail@);
    if let Some(extension) = extension {
        numbered.push(DOT);
        let ghost base = numbered@;
        numbered.extend_from_slice(extension);
        assert(numbered@ =~= base + extension@);
    }
    numbered
}

/// The first free path for a name in a folder.
fn unique_child<F: Fn(&Vec<u8>) -> bool>(
    folder: &[u8],
    name: &[u8],
    reserved: &Vec<BytePath>,
    occupied: &F,
) -> (r: Result<BytePath, String>)
    requires
        forall|v: Vec<u8>| call_requires(*occupied, (&v,)),
    ensures
        match r {
            Ok(path) => placed(*occupied, byte_paths(reserved@), folder@, name@, path@),
            Err(m) => basename_problem(name@) == Some(m@) || (basename_problem(name@) is None && m@
                == exhausted_problem(name@) && forall|k: nat|
                k <= u32::MAX ==> taken(
                    *occupied,
                    byte_paths(reserved@),
                    #[trigger] numbered_child(folder@, name@, k),
                )),
        },
{
    validate_basename(name)?;
    let mut n: u32 = 0;
    loop
        invariant
            basename_problem(name@) is None,
            forall|v: Vec<u8>| call_requires(*occupied, (&v,)),
            forall|k: nat|
                k < n ==> taken(
                    *occupied,
                    byte_paths(reserved@),
                    #[trigger] numbered_child(folder@, name@, k),
                ),
        decreases u32::MAX - n,
    {
        let numbered = number_name(name, n);
        let candidate: Vec<u8> = join(folder, numbered.as_slice());
        if !is_reserved(reserved, candidate.as_slice()) && !occupied(&candidate) {
            let path = BytePath(candidate);
            assert(first_free(
                *occupied,
                byte_paths(reserved@),
                folder@,
                name@,
                n as nat,
                path@,
            ));
            assert(placed(*occupied, byte_paths(reserved@), folder@, name@, path@));
            return Ok(path);
        }
        assert(taken(*occupied, byte_paths(reserved@), numbered_child(folder@, name@, n as nat)));
        if n == u32::MAX {
            let mut m = "could not construct a unique filename for ".to_owned();
            m.append(quoted_path_text(name).as_str());
            return Err(m);
        }
        n = n + 1;
    }
}

/// Every path of `paths` is the first free one for its suggested name, given
/// the paths handed out before it.
pub open spec fn assigned<F: Fn(&Vec<u8>) -> bool>(
    occupied: F,
    folder: Seq<u8>,
    files: Seq<BytePath>,
    paths: Seq<Seq<u8>>,
) -> bool {
    forall|k: int|
        0 <= k < paths.len() ==> placed(
            occupied,
            paths.take(k),
            folder,
            files[k]@,
            #[trigger] paths[k],
        )
}

/// What finishing a selection gives: for `SaveFiles` each suggested name, in
/// request order, becomes the first free path in the selected folder; a name
/// that is no basename or has no free number left is the error. Other modes
/// give the selected paths unchanged.
pub open spec fn finished<F: Fn(&Vec<u8>) -> bool>(
    request: FileChooserRequest,
    selected: Seq<Seq<u8>>,
    occupied: F,
    result: Result<Seq<Seq<u8>>, Seq<char>>,
) -> bool {
    if request.mode != FileChooserMode::SaveFiles {
        result == Ok::<Seq<Seq<u8>>, Seq<char>>(selected)
    } else if selected.len() == 0 {
        result == Err::<Seq<Seq<u8>>, Seq<char>>("SaveFiles returned no selected folder"@)
    } else {
        match result {
            Ok(paths) => paths.len() == request.files@.len() && assigned(
                occupied,
                selected[0],
                request.files@,
                paths,
            ),
            Err(m) => stopped(occupied, selected[0], request.files@, m),
        }
    }
}

/// After handing out `done`, the next suggested name is refused with `m`.
pub open spec fn refused<F: Fn(&Vec<u8>) -> bool>(
    occupied: F,
    folder: Seq<u8>,
    files: Seq<BytePath>,
    done: Seq<Seq<u8>>,
    m: Seq<char>,
) -> bool {
    let name = files[done.len() as int]@;
    &&& done.len() < files.len()
    &&& assigned(occupied, folder, files, done)
    &&& basename_problem(name) == Some(m) || (basename_problem(name) is None && m
        == exhausted_problem(name) && forall|k: nat|
        k <= u32::MAX ==> taken(occupied, done, #[trigger] numbered_child(folder, name, k)))
}

/// One of the suggested names is refused with `m`.
pub open spec fn stopped<F: Fn(&Vec<u8>) -> bool>(
    occupied: F,
    folder: Seq<u8>,
    files: Seq<BytePath>,
    m: Seq<char>,
) -> bool {
    exists|done: Seq<Seq<u8>>| #[trigger] refused(occupied, folder, files, done, m)
}

/// The views of a finished selection.
pub open spec fn finished_view(r: Result<Vec<BytePath>, String>) -> Result<
    Seq<Seq<u8>>,
    Seq<char>,
> {
    match r {
        Ok(paths) => Ok(byte_paths(paths@)),
        Err(m) => Err(m@),
    }
}

impl FileChooserRequest {
    /// Applies `SaveFiles` basename and collision rules to the selected
    /// folder. Other modes return the selected paths unchanged. `occupied`
    /// tells whether something stands at a path.
    pub fn finish_paths<F: Fn(&Vec<u8>) -> bool>(
        &self,
        selected: Vec<BytePath>,
        occupied: &F,
    ) -> (r: Result<Vec<BytePath>, String>)
        requires
            forall|v: Vec<u8>| call_requires(*occupied, (&v,)),
        ensures
            finished(*self, byte_paths(selected@), *occupied, finished_view(r)),
    {
        if self.mode != FileChooserMode::SaveFiles {
            return Ok(selected);
        }
        if selected.len() == 0 {
            return Err("SaveFiles returned no selected folder".to_owned());
        }
        let folder = &selected[0];
        let mut paths: Vec<BytePath> = Vec::new();
        let mut i: usize = 0;
        assert(byte_paths(selected@)[0] == folder@);
        while i < self.files.len()
            invariant
                i <= self.files@.len(),
                paths@.len() == i,
                self.mode == FileChooserMode::SaveFiles,
                selected@.len() > 0,
                byte_paths(selected@)[0] == folder@,
                forall|v: Vec<u8>| call_requires(*occupied, (&v,)),
                assigned(*occupied, folder@, self.files@, byte_paths(paths@)),
            decreases self.files@.len() - i,
        {
            let ghost done = byte_paths(paths@);
            match unique_child(
                folder.0.as_slice(),
                self.files[i].0.as_slice(),
                &paths,
                occupied,
            ) {
                Ok(path) => {
                    paths.push(path);
                    proof {
                        let now = byte_paths(paths@);
                        assert(now =~= done.push(path@));
                        assert forall|k: int| 0 <= k < now.len() implies placed(
                            *occupied,
                            now.take(k),
                            folder@,
                            self.files@[k]@,
                            #[trigger] now[k],
                        ) by {
                            assert(now.take(k) =~= done.take(k));
                            if k == i {
                                assert(done.take(k) =~= done);
                                assert(now[k] == path@);
                            } else {
                                assert(now[k] == done[k]);
                            }
                        }
                    }
                },
                Err(m) => {
                    assert(refused(*occupied, folder@, self.files@, done, m@));
                    assert(stopped(*occupied, folder@, self.files@, m@));
                    return Err(m);
                },
            }
            i = i + 1;
        }
        Ok(paths)
    }
}

/// Paths handed out for one request never collide with each other: no two
/// have the same components.
pub proof fn assigned_paths_are_distinct<F: Fn(&Vec<u8>) -> bool>(
    occupied: F,
    folder: Seq<u8>,
    files: Seq<BytePath>,
    paths: Seq<Seq<u8>>,
)
    requires
        assigned(occupied, folder, files, paths),
    ensures
        forall|i: int, j: int|
            0 <= i < j < paths.len() ==> !crate::pathset::same_path(
                #[trigger] paths[i],
                #[trigger] paths[j],
            ),
{
    assert forall|i: int, j: int| 0 <= i < j < paths.len() implies !crate::pathset::same_path(
        #[trigger] paths[i],
        #[trigger] paths[j],
    ) by {
        assert(paths.take(j)[i] == paths[i]);
        assert(!crate::pathset::member(paths.take(j), paths[j]));
    }
}

} // verus!
