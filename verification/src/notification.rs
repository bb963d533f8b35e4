//! Notifications that applications post.

use vstd::prelude::*;
use vstd::string::*;

use crate::options::{get_text, Options};
use crate::text::same_text;

verus! {

/// The version of the interface.
pub const NOTIFICATION_VERSION: u32 = 2;

/// The text of a notification.
pub struct NotificationText {
    pub summary: String,
    pub body: String,
}

/// A text, or nothing when it is missing.
pub open spec fn text_or_empty(value: Option<Seq<char>>) -> Seq<char> {
    match value {
        Some(value) => value,
        None => Seq::empty(),
    }
}

fn text_of(options: &Options, key: &str) -> (text: String)
    ensures
        text@ == text_or_empty(crate::options::text_at(options@, key@)),
{
    match get_text(options, key) {
        Some(text) => text,
        None => String::new(),
    }
}

/// Reads a notification: only its title and body are honored, and either may
/// be missing.
pub fn add_notification(notification: &Options) -> (text: NotificationText)
    ensures
        text.summary@ == text_or_empty(crate::options::text_at(notification@, "title"@)),
        text.body@ == text_or_empty(crate::options::text_at(notification@, "body"@)),
{
    NotificationText { summary: text_of(notification, "title"), body: text_of(notification, "body") }
}

/// A notification of the compositor's queue.
pub struct QueuedNotification {
    pub id: u64,
    pub app_id: Option<String>,
    pub external_id: Option<String>,
}

/// The notification was posted by this application under this id.
pub open spec fn posted_by(queued: QueuedNotification, app_id: Seq<char>, id: Seq<char>) -> bool {
    crate::options::opt_text(queued.app_id) == Some(app_id) && crate::options::opt_text(
        queued.external_id,
    ) == Some(id)
}

fn names(value: &Option<String>, wanted: &str) -> (yes: bool)
    ensures
        yes == (crate::options::opt_text(*value) == Some(wanted@)),
{
    match value {
        Some(value) => same_text(value.as_str(), wanted),
        None => false,
    }
}

/// The notification to dismiss: the first one that the application posted
/// under this id. An unknown id dismisses nothing.
pub fn remove_notification(queue: &Vec<QueuedNotification>, app_id: &str, id: &str) -> (found:
    Option<u64>)
    ensures
        match found {
            Some(number) => exists|i: int|
                0 <= i < queue@.len() && number == queue@[i].id && #[trigger] posted_by(
                    queue@[i],
                    app_id@,
                    id@,
                ) && forall|k: int| 0 <= k < i ==> !posted_by(#[trigger] queue@[k], app_id@, id@),
            None => forall|k: int|
                0 <= k < queue@.len() ==> !posted_by(#[trigger] queue@[k], app_id@, id@),
        },
{
    let mut i: usize = 0;
    while i < queue.len()
        invariant
            i <= queue@.len(),
            forall|k: int| 0 <= k < i ==> !posted_by(#[trigger] queue@[k], app_id@, id@),
        decreases queue@.len() - i,
    {
        if names(&queue[i].app_id, app_id) && names(&queue[i].external_id, id) {
            assert(posted_by(queue@[i as int], app_id@, id@));
            return Some(queue[i].id);
        }
        i = i + 1;
    }
    None
}

} // verus!
