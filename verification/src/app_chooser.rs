//! Choosing an application to open content with.
//!
//! Response codes are 0 for success, 1 for cancelled, 2 for failed.

use vstd::prelude::*;
use vstd::string::*;

use crate::options::{get_text, Options};
use crate::request::RequestTracker;
use crate::screencast::{CANCELLED, REFUSED, SUCCESS};

verus! {

/// The version of the interface.
pub const APP_CHOOSER_VERSION: u32 = 2;

/// What the user is asked.
pub struct ChooseRequest {
    /// What is to be opened, as specific as it is known.
    pub subject: Option<String>,
    pub last_choice: Option<String>,
}

/// The most specific text that is known: the file name, the address, the
/// type of the content.
pub open spec fn subject_of(
    options: Map<Seq<char>, crate::options::OptionValue>,
) -> Option<Seq<char>> {
    match crate::options::text_at(options, "filename"@) {
        Some(name) => Some(name),
        None => match crate::options::text_at(options, "uri"@) {
            Some(uri) => Some(uri),
            None => crate::options::text_at(options, "content_type"@),
        },
    }
}

/// Reads a request to choose an application. Without candidates it is
/// refused.
pub fn choose_application(candidates: &Vec<String>, options: &Options) -> (r: Result<
    ChooseRequest,
    String,
>)
    ensures
        match r {
            Ok(request) => candidates@.len() > 0 && crate::options::opt_text(request.subject)
                == subject_of(options@) && crate::options::opt_text(request.last_choice)
                == crate::options::text_at(options@, "last_choice"@),
            Err(m) => candidates@.len() == 0 && m@ == "choices must not be empty"@,
        },
{
    if candidates.len() == 0 {
        return Err("choices must not be empty".to_owned());
    }
    let subject: Option<String> = match get_text(options, "filename") {
        Some(name) => Some(name),
        None => match get_text(options, "uri") {
            Some(uri) => Some(uri),
            None => get_text(options, "content_type"),
        },
    };
    Ok(ChooseRequest { subject, last_choice: get_text(options, "last_choice") })
}

/// How a pick begins.
#[derive(Debug, Clone, Copy, PartialEq, Eq, Structural)]
pub enum PickStep {
    /// Answer with this code.
    Answer(u32),
    /// Ask the user.
    Ask,
}

/// Begins a pick: a request that was closed in the meantime is cancelled
/// without asking.
pub fn begin_pick(tracker: &RequestTracker, request_path: &str) -> (step: PickStep)
    ensures
        step == (if tracker@.contains(request_path@) {
            PickStep::Answer(CANCELLED)
        } else {
            PickStep::Ask
        }),
{
    if tracker.was_closed(request_path) {
        PickStep::Answer(CANCELLED)
    } else {
        PickStep::Ask
    }
}

/// How the user answered the picker.
pub enum AppPickResult {
    App { id: String },
    Cancelled,
    /// The picker could not be run.
    Failed,
}

/// The response for a pick. A close that raced the pick wins over a chosen
/// application.
pub fn run_pick(tracker: &RequestTracker, request_path: &str, pick: AppPickResult) -> (r: (
    u32,
    Option<String>,
))
    ensures
        match pick {
            AppPickResult::App { id } => if tracker@.contains(request_path@) {
                r == (CANCELLED, None::<String>)
            } else {
                r.0 == SUCCESS && crate::options::opt_text(r.1) == Some(id@)
            },
            AppPickResult::Cancelled => r == (CANCELLED, None::<String>),
            AppPickResult::Failed => r == (REFUSED, None::<String>),
        },
{
    match pick {
        AppPickResult::App { id } => {
            if tracker.was_closed(request_path) {
                return (CANCELLED, None);
            }
            (SUCCESS, Some(id))
        },
        AppPickResult::Cancelled => (CANCELLED, None),
        AppPickResult::Failed => (REFUSED, None),
    }
}

} // verus!
