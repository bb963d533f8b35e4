//! Consent to install a launcher.
//!
//! Every installation goes through the consent dialog. Response codes are 0
//! for success, 1 for declined, 2 for failed.

use vstd::prelude::*;
use vstd::string::*;

use crate::random::random_token;
use crate::request::RequestTracker;
use crate::schema::{ConfirmPickResult, Request};
use crate::screencast::{CANCELLED, REFUSED, SUCCESS};

verus! {

/// The version of the interface.
pub const DYNAMIC_LAUNCHER_VERSION: u32 = 1;

/// The only launcher type that is offered: an application.
pub const LAUNCHER_TYPE_APPLICATION: u32 = 1;

/// What the consent dialog says.
pub open spec fn consent_body(app_id: Seq<char>, name: Seq<char>) -> Seq<char> {
    "The application '"@ + app_id + "' wants to install a launcher named '"@ + name
        + "' on this desktop."@
}

/// The consent dialog for a launcher.
pub fn consent_request(app_id: &str, name: &str) -> (request: Request)
    ensures
        request matches Request::PickConfirm { title, body, accept_label } && title@
            == "Install Launcher"@ && body@ == consent_body(app_id@, name@)
            && crate::options::opt_text(accept_label) == Some("Install"@),
{
    let mut body = "The application '".to_owned();
    body.append(app_id);
    body.append("' wants to install a launcher named '");
    body.append(name);
    body.append("' on this desktop.");
    Request::PickConfirm {
        title: "Install Launcher".to_owned(),
        body,
        accept_label: Some("Install".to_owned()),
    }
}

/// How the preparation of a launcher begins.
pub enum PrepareStep {
    /// Answer with this code.
    Answer(u32),
    /// Show this consent dialog.
    Ask(Request),
}

/// Begins the preparation of a launcher: a request that was closed in the
/// meantime is cancelled without a dialog.
pub fn begin_prepare(tracker: &RequestTracker, request_path: &str, app_id: &str, name: &str) -> (
    step: PrepareStep)
    ensures
        if tracker@.contains(request_path@) {
            step == PrepareStep::Answer(CANCELLED)
        } else {
            step matches PrepareStep::Ask(Request::PickConfirm { title, body, accept_label })
                && title@ == "Install Launcher"@ && body@ == consent_body(app_id@, name@)
                && crate::options::opt_text(accept_label) == Some("Install"@)
        },
{
    if tracker.was_closed(request_path) {
        return PrepareStep::Answer(CANCELLED);
    }
    PrepareStep::Ask(consent_request(app_id, name))
}

/// The response code for an answer to the consent dialog.
pub open spec fn consent_code(closed: bool, consent: Option<ConfirmPickResult>) -> u32 {
    match consent {
        Some(ConfirmPickResult::Confirmed) => if closed {
            CANCELLED
        } else {
            SUCCESS
        },
        Some(ConfirmPickResult::Cancelled) => CANCELLED,
        None => REFUSED,
    }
}

/// The response code for an answer (`None` when the dialog could not be
/// run). A close that raced the dialog wins over consent.
pub fn run_prepare(
    tracker: &RequestTracker,
    request_path: &str,
    consent: Option<ConfirmPickResult>,
) -> (code: u32)
    ensures
        code == consent_code(tracker@.contains(request_path@), consent),
{
    match consent {
        Some(ConfirmPickResult::Confirmed) => {
            if tracker.was_closed(request_path) {
                return CANCELLED;
            }
            SUCCESS
        },
        Some(ConfirmPickResult::Cancelled) => CANCELLED,
        None => REFUSED,
    }
}

/// A launcher that may be installed.
pub struct Launcher {
    pub name: String,
    /// What the installation is allowed with.
    pub token: String,
}

/// Ends the preparation of a launcher: with consent, its name and a fresh
/// token. Without random bytes for the token it fails.
pub fn finish_prepare(
    tracker: &RequestTracker,
    request_path: &str,
    consent: Option<ConfirmPickResult>,
    name: String,
) -> (r: (u32, Option<Launcher>))
    ensures
        ({
            let code = consent_code(tracker@.contains(request_path@), consent);
            if code == SUCCESS {
                exists|random: Option<Vec<u8>>| #[trigger]
                    crate::random::drawn(16, random) && match random {
                        Some(bytes) => bytes@.len() == 16 && r.0 == SUCCESS && r.1 is Some
                            && r.1->0.name@ == name@ && r.1->0.token@ == crate::text::hex_bytes(
                            bytes@,
                        ),
                        None => r == (REFUSED, None::<Launcher>),
                    }
            } else {
                r == (code, None::<Launcher>)
            }
        }),
{
    let code = run_prepare(tracker, request_path, consent);
    if code != SUCCESS {
        return (code, None);
    }
    match random_token() {
        Ok(token) => (SUCCESS, Some(Launcher { name, token })),
        Err(_) => (REFUSED, None),
    }
}

/// The answer to a request for a token without a dialog, which is never
/// given.
pub fn request_install_token() -> (code: u32)
    ensures
        code == CANCELLED,
{
    CANCELLED
}

} // verus!
