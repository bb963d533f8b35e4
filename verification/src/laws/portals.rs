//! Laws of the smaller portals.

#![allow(unused_imports)]

use vstd::prelude::*;

use crate::app_chooser::{begin_pick, choose_application, run_pick, AppPickResult, ChooseRequest, PickStep};
use crate::background::{
    apply_autostart, autostart_installed, begin_job, desktop_file_candidates, entry_name,
    finish_job, job_path, job_token, parse_options, valid_app_id, AutostartStep,
    BackgroundOptions, BackgroundStore, Decision,
};
use crate::choose_app::{ChooseAppDialog, ChooseAppRequest, ChooseAppResponse};
use crate::dynamic_launcher::{begin_prepare, finish_prepare, run_prepare, Launcher, PrepareStep};
use crate::files::{capture_name, file_uri};
use crate::file_chooser::ChoiceState;
use crate::inhibit::{check_flags, InhibitAction, InhibitCounts, InhibitError, InhibitJob, InhibitWorker};
use crate::notification::{
    add_notification, remove_notification, NotificationText, QueuedNotification,
};
use crate::options::{text_pairs, OptionValue, Options};
use crate::request::RequestTracker;
use crate::schema::{ColorScheme, ConfirmPickResult, Request};
use crate::settings::{color_scheme, lookup, read_all, Watcher};
use crate::state::{autostart_dir_from, cache_dir_from, state_dir_from, temporary_name};
use crate::textmap::TextMap;

verus! {

/// A closed request counts as closed until it is forgotten, and no other
/// request is touched.
pub proof fn closed_requests_are_remembered(
    before: RequestTracker,
    closed: RequestTracker,
    forgotten: RequestTracker,
    path: &str,
    other: &str,
    then: bool,
    later: bool,
    elsewhere: bool,
    elsewhere_before: bool,
)
    requires
        exists|s: &mut RequestTracker|
            #[trigger] call_ensures(RequestTracker::close, (s, path), ()) && *s == before
                && *final(s) == closed,
        exists|s: &mut RequestTracker|
            #[trigger] call_ensures(RequestTracker::forget, (s, path), ()) && *s == closed
                && *final(s) == forgotten,
        call_ensures(RequestTracker::was_closed, (&closed, path), then),
        call_ensures(RequestTracker::was_closed, (&forgotten, path), later),
        call_ensures(RequestTracker::was_closed, (&closed, other), elsewhere),
        call_ensures(RequestTracker::was_closed, (&before, other), elsewhere_before),
        other@ != path@,
    ensures
        then,
        !later,
        elsewhere == elsewhere_before,
{
}

/// A recorded decision is what an application gets, whatever it asks for
/// later; without one it gets what it asks for; and a closed request gets
/// nothing.
pub proof fn recorded_decisions_stand(
    store: BackgroundStore,
    tracker: RequestTracker,
    request_path: &str,
    app_id: &str,
    requested: Decision,
    recorded: Option<Decision>,
    decision: Option<Decision>,
)
    requires
        call_ensures(BackgroundStore::decision, (&store, app_id), recorded),
        call_ensures(
            begin_job,
            (&store, &tracker, request_path, app_id, requested),
            decision,
        ),
    ensures
        tracker@.contains(request_path@) <==> decision is None,
        decision is Some && recorded is Some ==> decision == recorded,
        decision is Some && recorded is None ==> decision == Some(requested),
{
}

/// What is decided is recorded for that application and no other: the
/// background as decided, the autostart only if its entry is in place.
pub proof fn decisions_are_recorded(
    before: BackgroundStore,
    after: BackgroundStore,
    app_id: &str,
    decision: Decision,
    installed: bool,
    r: (Decision, bool),
    other: &str,
    mine: Option<Decision>,
    had: Option<Decision>,
    theirs: Option<Decision>,
    theirs_before: Option<Decision>,
)
    requires
        exists|s: &mut BackgroundStore|
            #[trigger] call_ensures(finish_job, (s, app_id, decision, installed), r) && *s == before
                && *final(s) == after,
        call_ensures(BackgroundStore::decision, (&after, app_id), mine),
        call_ensures(BackgroundStore::decision, (&before, app_id), had),
        call_ensures(BackgroundStore::decision, (&after, other), theirs),
        call_ensures(BackgroundStore::decision, (&before, other), theirs_before),
        other@ != app_id@,
    ensures
        r.0.background == decision.background,
        r.0.autostart == (decision.autostart && installed),
        mine == Some(r.0),
        r.1 == (had != mine),
        theirs == theirs_before,
{
}

/// The entry for the next login is installed only when it is asked for and
/// there is one to install, and taken away when it is not asked for.
pub proof fn autostart_follows_the_decision(
    enable: bool,
    has_dir: bool,
    has_source: bool,
    in_place: bool,
    step: AutostartStep,
    done: bool,
    installed: bool,
)
    requires
        call_ensures(apply_autostart, (enable, has_dir, has_source, in_place), step),
        call_ensures(autostart_installed, (step, done), installed),
    ensures
        !has_dir ==> step is Nothing,
        has_dir && !enable ==> step is Remove,
        step is Install <==> has_dir && enable && has_source && !in_place,
        step is Keep <==> has_dir && enable && has_source && in_place,
        installed ==> enable && has_dir && has_source && done,
        enable && has_dir && has_source ==> installed == done,
{
}

/// The options of a request are its flags, off unless they are on, and a
/// token of letters, digits and underscores.
pub proof fn background_options_are_read(options: Options, parsed: BackgroundOptions)
    requires
        call_ensures(parse_options, (&options,), parsed),
    ensures
        parsed.background <==> options@.dom().contains("background"@) && options@["background"@]
            == OptionValue::Bool(true),
        parsed.autostart <==> options@.dom().contains("autostart"@) && options@["autostart"@]
            == OptionValue::Bool(true),
        parsed.handle_token is Some ==> options@.dom().contains("handle_token"@)
            && options@["handle_token"@] is Text && options@["handle_token"@]->Text_0@
            == parsed.handle_token->0@ && parsed.handle_token->0@.len() > 0 && forall|i: int|
            #![trigger parsed.handle_token->0@[i]]
            0 <= i < parsed.handle_token->0@.len() ==> {
                let c = parsed.handle_token->0@[i];
                ('A' <= c <= 'Z') || ('a' <= c <= 'z') || ('0' <= c <= '9') || c == '_'
            },
        parsed.handle_token is None && options@.dom().contains("handle_token"@)
            && options@["handle_token"@] is Text ==> {
            let token = options@["handle_token"@]->Text_0@;
            token.len() == 0 || exists|i: int|
                #![trigger token[i]]
                0 <= i < token.len() && !(('A' <= token[i] <= 'Z') || ('a' <= token[i] <= 'z') || (
                '0' <= token[i] <= '9') || token[i] == '_')
        },
{
}

/// A request stands below its sender: the bus name without its colon and
/// with underscores for dots, then the token.
pub proof fn requests_stand_below_their_sender(
    sender: &str,
    token: &str,
    path: String,
    name: Seq<char>,
    i: int,
)
    requires
        call_ensures(job_path, (sender, token), path),
        sender@ == seq![':'] + name,
    ensures
        ({
            let prefix = "/org/freedesktop/portal/desktop/request/"@;
            let element = path@.subrange(
                prefix.len() as int,
                prefix.len() as int + name.len() as int,
            );
            &&& path@ == prefix + element + "/"@ + token@
            &&& element.len() == name.len()
            &&& 0 <= i < name.len() ==> element[i] == (if name[i] == '.' {
                '_'
            } else {
                name[i]
            })
        }),
{
    let prefix = "/org/freedesktop/portal/desktop/request/"@;
    let element = crate::background::sender_element(sender@);
    assert(sender@.skip(1) =~= name);
    assert(path@ == prefix + element + "/"@ + token@);
    assert(path@.subrange(prefix.len() as int, prefix.len() as int + name.len() as int)
        =~= element);
}

/// A request is named by the token that was given, else by the last element
/// of its handle.
pub proof fn tokens_are_given_or_the_last_element(
    handle: &str,
    token: Option<String>,
    found: String,
    front: Seq<char>,
    last: Seq<char>,
)
    requires
        call_ensures(job_token, (handle, token), found),
        handle@ == front + seq!['/'] + last,
        !last.contains('/'),
    ensures
        token is Some ==> found@ == token->0@,
        token is None ==> found@ == last,
{
    super::listings::tails_begin_behind_the_last_slash(front, last);
    assert(handle@.skip(front.len() as int + 1) =~= last);
}

/// An application identity has 1 to 255 letters, digits, dots, dashes and
/// underscores.
pub proof fn application_identities_are_plain(app_id: &str, yes: bool)
    requires
        call_ensures(valid_app_id, (app_id,), yes),
    ensures
        yes <==> 1 <= app_id@.len() <= 255 && forall|i: int|
            #![trigger app_id@[i]]
            0 <= i < app_id@.len() ==> ('A' <= app_id@[i] <= 'Z') || ('a' <= app_id@[i] <= 'z') || (
            '0' <= app_id@[i] <= '9') || app_id@[i] == '.' || app_id@[i] == '_' || app_id@[i]
                == '-',
{
}

/// The entry of an application is named after it.
pub proof fn entries_are_named_after_the_application(app_id: &str, name: String)
    requires
        call_ensures(entry_name, (app_id,), name),
    ensures
        name@ == app_id@ + ".desktop"@,
{
}

/// Only idle inhibition is granted.
pub proof fn only_idle_is_inhibited(flags: u32, r: Result<(), InhibitError>)
    requires
        call_ensures(check_flags, (flags,), r),
    ensures
        r is Ok <==> flags == 8,
        flags == 0 ==> r is Err && r->Err_0 is InvalidArgs,
        flags & !8u32 != 0 ==> r is Err && r->Err_0 is NotSupported,
{
    assert(0u32 & !8u32 == 0) by (bit_vector);
    assert(8u32 & !8u32 == 0) by (bit_vector);
}

/// The compositor is told to inhibit while any request stands, and told
/// again when that changes; a release ends its own request alone.
pub proof fn inhibition_lasts_while_a_request_stands(
    before: InhibitWorker,
    after: InhibitWorker,
    job: Option<InhibitJob>,
    action: InhibitAction,
    path: Seq<char>,
)
    requires
        exists|s: &mut InhibitWorker|
            #[trigger] call_ensures(InhibitWorker::step, (s, job), action) && *s == before
                && *final(s) == after,
    ensures
        ({
            let stands = after.counts@.dom().len() > 0;
            &&& stands != before.ipc_inhibited ==> action.set == Some(stands)
            &&& stands == before.ipc_inhibited && job is Some ==> action.set is None
            &&& job is None && stands ==> action.set == Some(true)
            &&& job is None && !stands && !before.ipc_inhibited ==> action.set is None
        }),
        job matches Some(InhibitJob::Add { request_path, app_id }) ==> {
            &&& after.counts@.dom().contains(request_path@)
            &&& after.counts@[request_path@] == app_id@
            &&& path != request_path@ ==> after.counts@.dom().contains(path)
                == before.counts@.dom().contains(path)
            &&& action.remove is None
        },
        job matches Some(InhibitJob::Release { request_path }) ==> {
            &&& !after.counts@.dom().contains(request_path@)
            &&& path != request_path@ ==> after.counts@.dom().contains(path)
                == before.counts@.dom().contains(path)
            &&& action.remove is Some && action.remove->0@ == request_path@
        },
        job is None ==> after.counts@ == before.counts@,
        after.ipc_inhibited == before.ipc_inhibited,
{
}

/// What the compositor was told counts only if it took it.
pub proof fn only_taken_calls_count(before: InhibitWorker, after: InhibitWorker, want: bool, ok: bool)
    requires
        exists|s: &mut InhibitWorker|
            #[trigger] call_ensures(InhibitWorker::told, (s, want, ok), ()) && *s == before
                && *final(s) == after,
    ensures
        ok ==> after.ipc_inhibited == want,
        !ok ==> after.ipc_inhibited == before.ipc_inhibited,
        after.counts@ == before.counts@,
{
}

/// A notification shows its title and its body, each empty if it is missing
/// or no text.
pub proof fn notifications_show_title_and_body(notification: Options, text: NotificationText)
    requires
        call_ensures(add_notification, (&notification,), text),
    ensures
        notification@.dom().contains("title"@) && notification@["title"@] is Text
            ==> text.summary@ == notification@["title"@]->Text_0@,
        !(notification@.dom().contains("title"@) && notification@["title"@] is Text)
            ==> text.summary@.len() == 0,
        notification@.dom().contains("body"@) && notification@["body"@] is Text ==> text.body@
            == notification@["body"@]->Text_0@,
        !(notification@.dom().contains("body"@) && notification@["body"@] is Text)
            ==> text.body@.len() == 0,
{
}

/// An application withdraws its own notification: the first that it posted
/// under that identity, and none of another application.
pub proof fn applications_withdraw_their_own(
    queue: Vec<QueuedNotification>,
    app_id: &str,
    id: &str,
    found: Option<u64>,
    k: int,
)
    requires
        call_ensures(remove_notification, (&queue, app_id, id), found),
        0 <= k < queue@.len(),
    ensures
        found is Some ==> exists|i: int|
            #![trigger queue@[i]]
            0 <= i < queue@.len() && queue@[i].id == found->0 && queue@[i].app_id is Some
                && queue@[i].app_id->0@ == app_id@ && queue@[i].external_id is Some
                && queue@[i].external_id->0@ == id@,
        queue@[k].app_id is Some && queue@[k].app_id->0@ == app_id@ && queue@[k].external_id is Some
            && queue@[k].external_id->0@ == id@ ==> found is Some,
{
    if queue@[k].app_id is Some && queue@[k].app_id->0@ == app_id@ && queue@[k].external_id is Some
        && queue@[k].external_id->0@ == id@ {
        assert(crate::notification::posted_by(queue@[k], app_id@, id@));
    }
}

/// The preference is 1 for dark, 2 for light and else 0.
pub proof fn schemes_have_their_numbers(configured: Option<ColorScheme>, number: u32)
    requires
        call_ensures(color_scheme, (configured,), number),
    ensures
        configured == Some(ColorScheme::Dark) <==> number == 1,
        configured == Some(ColorScheme::Light) <==> number == 2,
        number <= 2,
{
}

/// One setting is offered, under its namespace and key; a look-up and a
/// listing agree on it.
pub proof fn one_setting_is_offered(
    configured: Option<ColorScheme>,
    namespace: &str,
    key: &str,
    value: Option<u32>,
    number: u32,
    namespaces: Vec<String>,
    all: Option<u32>,
)
    requires
        call_ensures(lookup, (configured, namespace, key), value),
        call_ensures(color_scheme, (configured,), number),
        call_ensures(read_all, (configured, &namespaces), all),
    ensures
        value == (if namespace@ == "org.freedesktop.appearance"@ && key@ == "color-scheme"@ {
            Some(number)
        } else {
            None
        }),
        all is Some <==> namespaces@.len() == 0 || exists|i: int|
            0 <= i < namespaces@.len() && (#[trigger] namespaces@[i])@
                == "org.freedesktop.appearance"@,
        all is Some ==> all == Some(number),
{
}

/// A change is announced when the preference differs from the last one, and
/// the file is read again when its time does.
pub proof fn changes_are_announced(
    before: Watcher,
    looked: Watcher,
    after: Watcher,
    modified: Option<i128>,
    read: bool,
    scheme: u32,
    announce: bool,
)
    requires
        exists|s: &mut Watcher|
            #[trigger] call_ensures(Watcher::look, (s, modified), read) && *s == before
                && *final(s) == looked,
        exists|s: &mut Watcher|
            #[trigger] call_ensures(Watcher::sample, (s, scheme), announce) && *s == looked
                && *final(s) == after,
    ensures
        read == (before.modified != modified),
        announce == (before.scheme != scheme),
        after.modified == modified,
        after.scheme == scheme,
{
}

/// A launcher is granted to a consent and an open request alone, under the
/// name that was asked for and with a token of 32 hexadecimal digits.
pub proof fn launchers_need_consent(
    tracker: RequestTracker,
    request_path: &str,
    consent: Option<ConfirmPickResult>,
    name: String,
    r: (u32, Option<Launcher>),
)
    requires
        call_ensures(finish_prepare, (&tracker, request_path, consent, name), r),
    ensures
        r.1 is Some <==> r.0 == 0,
        r.0 == 0 ==> consent == Some(ConfirmPickResult::Confirmed) && !tracker@.contains(
            request_path@,
        ) && r.1->0.name@ == name@ && r.1->0.token@.len() == 32,
        consent == Some(ConfirmPickResult::Cancelled) ==> r.0 == 1,
        consent == Some(ConfirmPickResult::Confirmed) && tracker@.contains(request_path@) ==> r.0
            == 1,
        consent is None ==> r.0 == 2,
{
    if r.0 == 0 {
        let random = choose|random: Option<Vec<u8>>| #[trigger]
            crate::random::drawn(16, random) && match random {
                Some(bytes) => bytes@.len() == 16 && r.0 == crate::screencast::SUCCESS && r.1
                    is Some && r.1->0.name@ == name@ && r.1->0.token@ == crate::text::hex_bytes(
                    bytes@,
                ),
                None => r == (crate::screencast::REFUSED, None::<Launcher>),
            };
        crate::text::hex_bytes_shape(random->0@);
    }
}

/// The user is asked for a launcher unless the request was closed.
pub proof fn launchers_are_asked_for(
    tracker: RequestTracker,
    request_path: &str,
    app_id: &str,
    name: &str,
    step: PrepareStep,
)
    requires
        call_ensures(begin_prepare, (&tracker, request_path, app_id, name), step),
    ensures
        step == PrepareStep::Answer(1) <==> tracker@.contains(request_path@),
        step is Ask <==> !tracker@.contains(request_path@),
        step is Ask ==> step->Ask_0 is PickConfirm,
{
}

/// The application that was picked is the answer, unless the request was
/// closed; a cancelled pick is cancelled, a failed one refused.
pub proof fn picked_applications_are_the_answer(
    tracker: RequestTracker,
    request_path: &str,
    pick: AppPickResult,
    r: (u32, Option<String>),
)
    requires
        call_ensures(run_pick, (&tracker, request_path, pick), r),
    ensures
        r.1 is Some <==> r.0 == 0,
        r.0 == 0 <==> pick is App && !tracker@.contains(request_path@),
        pick matches AppPickResult::App { id } ==> (r.0 == 0 ==> r.1->0@ == id@),
        r.0 == 1 <==> pick is Cancelled || (pick is App && tracker@.contains(request_path@)),
        r.0 == 2 <==> pick is Failed,
{
}

/// A choice among no applications is refused; the subject is the file name,
/// else the location, else the type.
pub proof fn applications_are_chosen_for_a_subject(
    candidates: Vec<String>,
    options: Options,
    r: Result<ChooseRequest, String>,
)
    requires
        call_ensures(choose_application, (&candidates, &options), r),
    ensures
        r is Ok <==> candidates@.len() > 0,
        ({
            let file = options@.dom().contains("filename"@) && options@["filename"@] is Text;
            let uri = options@.dom().contains("uri"@) && options@["uri"@] is Text;
            let kind = options@.dom().contains("content_type"@) && options@["content_type"@]
                is Text;
            r matches Ok(request) ==> {
                &&& request.subject is Some <==> file || uri || kind
                &&& file ==> request.subject->0@ == options@["filename"@]->Text_0@
                &&& !file && uri ==> request.subject->0@ == options@["uri"@]->Text_0@
                &&& !file && !uri && kind ==> request.subject->0@
                    == options@["content_type"@]->Text_0@
            }
        }),
        r matches Ok(request) ==> (request.last_choice is Some <==> options@.dom().contains(
            "last_choice"@,
        ) && options@["last_choice"@] is Text),
        r matches Ok(request) ==> (request.last_choice is Some ==> request.last_choice->0@
            == options@["last_choice"@]->Text_0@),
{
}

/// The application dialog answers with the application of the selected row.
pub proof fn application_dialogs_answer_with_the_selected_row(
    before: ChooseAppDialog,
    after: ChooseAppDialog,
)
    requires
        exists|s: &mut ChooseAppDialog|
            #[trigger] call_ensures(ChooseAppDialog::accept, (s,), ()) && *s == before && *final(s)
                == after,
        0 <= before.selected < before.request.apps@.len(),
    ensures
        after.done is Some,
        after.done->0 is Selected,
        after.done->0->app@ == before.request.apps@[before.selected as int].id@,
        after.done->0->choices@.len() == before.request.choices@.len(),
{
    let told = after.done->0->choices@;
    assert(told.map_values(|c: (String, String)| (c.0@, c.1@)).len() == told.len());
}

/// The texts of a dictionary are read, the last one of a key, and nothing
/// else is.
pub proof fn dictionaries_of_texts_are_read(
    pairs: Vec<(OptionValue, OptionValue)>,
    map: TextMap<String>,
    key: Seq<char>,
)
    requires
        call_ensures(text_pairs, (&pairs,), map),
    ensures
        map@.dom().contains(key) <==> exists|i: int|
            #![trigger pairs@[i]]
            0 <= i < pairs@.len() && pairs@[i].0 is Text && pairs@[i].0->Text_0@ == key
                && pairs@[i].1 is Text,
        map@.dom().contains(key) ==> exists|i: int|
            #![trigger pairs@[i]]
            0 <= i < pairs@.len() && pairs@[i].0 is Text && pairs@[i].0->Text_0@ == key
                && pairs@[i].1 is Text && map@[key]@ == pairs@[i].1->Text_0@ && forall|j: int|
                #![trigger pairs@[j]]
                i < j < pairs@.len() ==> !(pairs@[j].0 is Text && pairs@[j].0->Text_0@ == key
                    && pairs@[j].1 is Text),
{
    text_entries_are(pairs@, key);
    let views = map@.map_values(|value: String| value@);
    assert(views.dom().contains(key) == map@.dom().contains(key));
    if map@.dom().contains(key) {
        assert(views[key] == map@[key]@);
    }
}

proof fn text_entries_are(pairs: Seq<(OptionValue, OptionValue)>, key: Seq<char>)
    ensures
        ({
            let map = crate::options::text_entries(pairs);
            &&& map.dom().contains(key) <==> exists|i: int|
                #![trigger pairs[i]]
                0 <= i < pairs.len() && pairs[i].0 is Text && pairs[i].0->Text_0@ == key
                    && pairs[i].1 is Text
            &&& map.dom().contains(key) ==> exists|i: int|
                #![trigger pairs[i]]
                0 <= i < pairs.len() && pairs[i].0 is Text && pairs[i].0->Text_0@ == key
                    && pairs[i].1 is Text && map[key] == pairs[i].1->Text_0@ && forall|j: int|
                    #![trigger pairs[j]]
                    i < j < pairs.len() ==> !(pairs[j].0 is Text && pairs[j].0->Text_0@ == key
                        && pairs[j].1 is Text)
        }),
    decreases pairs.len(),
{
    if pairs.len() > 0 {
        let rest = pairs.drop_last();
        let map = crate::options::text_entries(pairs);
        let last = pairs[pairs.len() - 1];
        text_entries_are(rest, key);
        assert forall|i: int| 0 <= i < rest.len() implies #[trigger] pairs[i] == rest[i] by {}
        if last.0 is Text && last.1 is Text && last.0->Text_0@ == key {
            assert(map[key] == last.1->Text_0@);
        } else if crate::options::text_entries(rest).dom().contains(key) {
            let i = choose|i: int|
                #![trigger rest[i]]
                0 <= i < rest.len() && rest[i].0 is Text && rest[i].0->Text_0@ == key && rest[i].1
                    is Text && crate::options::text_entries(rest)[key] == rest[i].1->Text_0@
                    && forall|j: int|
                    #![trigger rest[j]]
                    i < j < rest.len() ==> !(rest[j].0 is Text && rest[j].0->Text_0@ == key
                        && rest[j].1 is Text);
            assert(pairs[i] == rest[i]);
            assert forall|j: int|
                #![trigger pairs[j]]
                i < j < pairs.len() implies !(pairs[j].0 is Text && pairs[j].0->Text_0@ == key
                && pairs[j].1 is Text) by {
                if j < rest.len() {
                    assert(rest[j] == pairs[j]);
                }
            }
        } else {
            assert forall|i: int|
                #![trigger pairs[i]]
                0 <= i < pairs.len() implies !(pairs[i].0 is Text && pairs[i].0->Text_0@ == key
                && pairs[i].1 is Text) by {
                if i < rest.len() {
                    assert(rest[i] == pairs[i]);
                }
            }
        }
    }
}

/// A file location begins with its scheme, and behind it stands the path:
/// reading the escapes gives its bytes back, and nothing but letters,
/// digits and `/-._~%` is in it.
pub proof fn file_locations_stand_for_their_path(path: &[u8], uri: String, i: int)
    requires
        call_ensures(file_uri, (path,), uri),
    ensures
        uri@.len() >= 7,
        uri@.take(7) == "file://"@,
        crate::files::unescape_all(uri@.skip(7)) == path@,
        7 <= i < uri@.len() ==> {
            let c = uri@[i];
            ('A' <= c <= 'Z') || ('a' <= c <= 'z') || ('0' <= c <= '9') || c == '/' || c == '-' || c
                == '.' || c == '_' || c == '~' || c == '%'
        },
{
    reveal_strlit("file://");
    crate::files::file_uris_round_trip(path@);
    assert("file://"@.len() == 7);
    assert(uri@.take(7) =~= "file://"@);
    assert(uri@.skip(7) =~= crate::files::escape_all(path@));
    if 7 <= i < uri@.len() {
        escapes_are_plain(path@, i - 7);
        assert(uri@[i] == crate::files::escape_all(path@)[i - 7]);
    }
}

proof fn escapes_are_plain(path: Seq<u8>, i: int)
    requires
        0 <= i < crate::files::escape_all(path).len(),
    ensures
        ({
            let c = crate::files::escape_all(path)[i];
            ('A' <= c <= 'Z') || ('a' <= c <= 'z') || ('0' <= c <= '9') || c == '/' || c == '-' || c
                == '.' || c == '_' || c == '~' || c == '%'
        }),
    decreases path.len(),
{
    if path.len() > 0 {
        let rest = crate::files::escape_all(path.drop_last());
        if i < rest.len() {
            escapes_are_plain(path.drop_last(), i);
        } else {
            let b = path.last();
            let one = crate::files::escape(b);
            assert(crate::files::escape_all(path)[i] == one[i - rest.len()]);
            if !crate::files::unreserved(b) {
                assert(b / 16 < 16);
                assert(b % 16 < 16);
            }
        }
    }
}

/// A temporary file is hidden, bears the name of what it stands in for, and
/// is told apart by its process.
pub proof fn temporaries_are_told_apart(
    name: &str,
    process: u32,
    other: u32,
    temporary: String,
    another: String,
)
    requires
        call_ensures(temporary_name, (name, process), temporary),
        call_ensures(temporary_name, (name, other), another),
    ensures
        temporary@.len() > 0 && temporary@[0] == '.',
        temporary@ != name@,
        temporary@ == another@ ==> process == other,
{
    reveal_strlit(".");
    reveal_strlit(".tmp");
    crate::state::temporary_is_another_file(name@, process as nat);
    let a = crate::text::decimal(process as nat);
    let b = crate::text::decimal(other as nat);
    let front = "."@ + name@ + "."@;
    assert(temporary@ == front + a + ".tmp"@);
    assert(another@ == front + b + ".tmp"@);
    if temporary@ == another@ {
        assert(a.len() == b.len());
        assert(a =~= b) by {
            assert forall|k: int| 0 <= k < a.len() implies a[k] == b[k] by {
                assert(temporary@[front.len() + k] == a[k]);
                assert(another@[front.len() + k] == b[k]);
            }
        }
        super::texts::decimals_read_back(process as nat);
        super::texts::decimals_read_back(other as nat);
    }
}

/// The state of the portal stands in the data directory, or below the home
/// one, and nowhere without either.
pub proof fn state_stands_in_the_data_directory(
    data: Option<&[u8]>,
    home: Option<&[u8]>,
    dir: Option<Vec<u8>>,
)
    requires
        call_ensures(state_dir_from, (data, home), dir),
    ensures
        data matches Some(d) ==> (d@.len() > 0 ==> dir is Some && dir->0@ == crate::paths::joined(
            d@,
            vstd::utf8::encode_utf8("aegis-portal"@),
        )),
        (data is None || data->0@.len() == 0) && (home is None || home->0@.len() == 0) ==> dir
            is None,
        (data is None || data->0@.len() == 0) && home is Some && home->0@.len() > 0 ==> dir
            is Some,
{
}

/// The candidates for the entry of an application: below the user's data
/// directory, or else the one below home, then below each shared data
/// directory in turn.
pub proof fn entries_are_looked_for_in_turn(
    app_id: &str,
    data: &[u8],
    home: Option<&[u8]>,
    candidates: Vec<Vec<u8>>,
    data_dirs: &str,
    first: Seq<char>,
    second: Seq<char>,
)
    requires
        call_ensures(
            desktop_file_candidates,
            (app_id, Some(data), home, Some(data_dirs)),
            candidates,
        ),
        data@.len() > 0,
        data_dirs@ == first + seq![':'] + second,
        !first.contains(':') && !second.contains(':'),
        first.len() > 0 && second.len() > 0,
    ensures
        ({
            let apps = vstd::utf8::encode_utf8("applications"@);
            let name = vstd::utf8::encode_utf8(app_id@ + ".desktop"@);
            let a = vstd::utf8::encode_utf8(first);
            let b = vstd::utf8::encode_utf8(second);
            &&& candidates@.len() == 3
            &&& candidates@[0]@ == crate::paths::joined(crate::paths::joined(data@, apps), name)
            &&& candidates@[1]@ == crate::paths::joined(crate::paths::joined(a, apps), name)
            &&& candidates@[2]@ == crate::paths::joined(crate::paths::joined(b, apps), name)
        }),
{
    let a = vstd::utf8::encode_utf8(first);
    let b = vstd::utf8::encode_utf8(second);
    let colon = vstd::utf8::encode_utf8(seq![':']);
    let list = vstd::utf8::encode_utf8(data_dirs@);
    crate::edit::encoding_concatenates(first, seq![':']);
    crate::edit::encoding_concatenates(first + seq![':'], second);
    colons_are_single_bytes();
    assert(list =~= a.push(58) + b);
    crate::answers::encoding_keeps_out(first, ':');
    crate::answers::encoding_keeps_out(second, ':');
    texts_have_bytes(first);
    texts_have_bytes(second);
    two_pieces(a, b);
    let dirs = crate::background::pieces(list);
    assert(dirs == seq![a, b]);
    let apps = vstd::utf8::encode_utf8("applications"@);
    let name = vstd::utf8::encode_utf8(app_id@ + ".desktop"@);
    let views = crate::paths::path_views(candidates@);
    assert(views.len() == candidates@.len());
    let all = crate::background::user_dirs(Some(data@), crate::state::given(home))
        + crate::background::application_dirs(dirs);
    assert(all.len() == 3);
    assert(views[0] == crate::paths::joined(all[0], name));
    assert(views[1] == crate::paths::joined(all[1], name));
    assert(views[2] == crate::paths::joined(all[2], name));
    assert(views[0] == candidates@[0]@ && views[1] == candidates@[1]@ && views[2]
        == candidates@[2]@);
}

proof fn colons_are_single_bytes()
    ensures
        vstd::utf8::encode_utf8(seq![':']) == seq![58u8],
{
    let one = seq![':'];
    vstd::utf8::is_ascii_chars_encode_utf8(one);
    assert(vstd::utf8::encode_utf8(one) =~= seq![58u8]);
}

proof fn texts_have_bytes(text: Seq<char>)
    requires
        text.len() > 0,
    ensures
        vstd::utf8::encode_utf8(text).len() > 0,
{
    if vstd::utf8::encode_utf8(text).len() == 0 {
        assert(vstd::utf8::encode_utf8(Seq::<char>::empty()) =~= Seq::<u8>::empty());
        assert(vstd::utf8::encode_utf8(text) =~= Seq::<u8>::empty());
        crate::text::encoding_determines_text(text, Seq::empty());
    }
}

proof fn two_pieces(a: Seq<u8>, b: Seq<u8>)
    requires
        !a.contains(58),
        !b.contains(58),
        a.len() > 0,
        b.len() > 0,
    ensures
        crate::background::pieces(a.push(58) + b) == seq![a, b],
{
    one_piece(a, b);
}

proof fn one_piece(a: Seq<u8>, b: Seq<u8>)
    requires
        !a.contains(58),
        !b.contains(58),
        a.len() > 0,
    ensures
        crate::background::split(a) == (Seq::<Seq<u8>>::empty(), a),
        crate::background::split(a.push(58) + b) == (seq![a], b),
    decreases b.len(),
{
    no_colon(a);
    let all = a.push(58) + b;
    if b.len() == 0 {
        assert(all =~= a.push(58));
        assert(all.drop_last() =~= a);
        assert(crate::background::split(all).0 =~= seq![a]);
        assert(b =~= Seq::<u8>::empty());
    } else {
        assert(all.drop_last() =~= a.push(58) + b.drop_last());
        assert(b.contains(b[b.len() - 1]));
        assert(!b.drop_last().contains(58)) by {
            if b.drop_last().contains(58) {
                let k = choose|k: int| 0 <= k < b.drop_last().len() && b.drop_last()[k] == 58;
                assert(b[k] == 58);
            }
        }
        one_piece(a, b.drop_last());
        assert(b.drop_last().push(b.last()) =~= b);
    }
}

proof fn no_colon(a: Seq<u8>)
    requires
        !a.contains(58),
    ensures
        crate::background::split(a) == (Seq::<Seq<u8>>::empty(), a),
    decreases a.len(),
{
    if a.len() > 0 {
        assert(a.contains(a[a.len() - 1]));
        assert(!a.drop_last().contains(58)) by {
            if a.drop_last().contains(58) {
                let k = choose|k: int| 0 <= k < a.drop_last().len() && a.drop_last()[k] == 58;
                assert(a[k] == 58);
            }
        }
        no_colon(a.drop_last());
        assert(a.drop_last().push(a.last()) =~= a);
    } else {
        assert(a =~= Seq::<u8>::empty());
    }
}

/// Captures stand in the cache directory, or else the runtime one; entries
/// for the next login below the configuration directory, or else home.
pub proof fn directories_have_their_fallback(
    cache: Option<&[u8]>,
    runtime: Option<&[u8]>,
    caches: Option<Vec<u8>>,
    config: Option<&[u8]>,
    home: Option<&[u8]>,
    autostart: Option<Vec<u8>>,
)
    requires
        call_ensures(cache_dir_from, (cache, runtime), caches),
        call_ensures(autostart_dir_from, (config, home), autostart),
    ensures
        ({
            let own = vstd::utf8::encode_utf8("aegis-portal"@);
            let has_cache = cache is Some && cache->0@.len() > 0;
            let has_runtime = runtime is Some && runtime->0@.len() > 0;
            &&& caches is Some <==> has_cache || has_runtime
            &&& has_cache ==> caches->0@ == crate::paths::joined(cache->0@, own)
            &&& !has_cache && has_runtime ==> caches->0@ == crate::paths::joined(runtime->0@, own)
        }),
        ({
            let entries = vstd::utf8::encode_utf8("autostart"@);
            let has_config = config is Some && config->0@.len() > 0;
            let has_home = home is Some && home->0@.len() > 0;
            &&& autostart is Some <==> has_config || has_home
            &&& has_config ==> autostart->0@ == crate::paths::joined(config->0@, entries)
            &&& !has_config && has_home ==> autostart->0@ == crate::paths::joined(
                crate::paths::joined(home->0@, vstd::utf8::encode_utf8(".config"@)),
                entries,
            )
        }),
{
}

/// The name of a capture tells when it was taken and its token, and is a
/// picture.
pub proof fn captures_are_named_by_time_and_token(
    millis: u64,
    token: &str,
    name: String,
    later: u64,
    another: &str,
    other: String,
)
    requires
        call_ensures(capture_name, (millis, token), name),
        call_ensures(capture_name, (later, another), other),
        token@.len() == another@.len(),
    ensures
        "screenshot-"@.is_prefix_of(name@),
        (token@ + ".png"@).is_suffix_of(name@),
        name@ == other@ ==> millis == later && token@ == another@,
{
    let a = crate::text::decimal(millis as nat);
    let b = crate::text::decimal(later as nat);
    let start = "screenshot-"@;
    let dash = "-"@;
    let end = ".png"@;
    reveal_strlit("-");
    assert(name@ == start + a + dash + token@ + end);
    assert(other@ == start + b + dash + another@ + end);
    assert(start =~= name@.take(start.len() as int));
    assert((token@ + end) =~= name@.skip(name@.len() - (token@ + end).len()));
    if name@ == other@ {
        assert(a.len() == b.len());
        let n = start.len() as int;
        let m = n + a.len() + 1;
        assert(a =~= name@.subrange(n, n + a.len()));
        assert(b =~= other@.subrange(n, n + b.len()));
        assert(token@ =~= name@.subrange(m, m + token@.len()));
        assert(another@ =~= other@.subrange(m, m + another@.len()));
        super::texts::decimals_read_back(millis as nat);
        super::texts::decimals_read_back(later as nat);
    }
}

/// A byte that needs no escape in a location.
pub open spec fn plain_byte(b: u8) -> bool {
    (65 <= b <= 90) || (97 <= b <= 122) || (48 <= b <= 57) || b == 47 || b == 45 || b == 46 || b
        == 95 || b == 126
}

/// In a location, letters, digits and `/-._~` stand for themselves, and
/// every other byte is a percent sign and two digits of upper case.
pub proof fn plain_bytes_stand_for_themselves(path: &[u8], uri: String, longer: &[u8], more: String)
    requires
        call_ensures(file_uri, (path,), uri),
        call_ensures(file_uri, (longer,), more),
        longer@.len() > 0,
        path@ == longer@.drop_last(),
    ensures
        path@.len() == 0 ==> uri@ == "file://"@,
        plain_byte(longer@.last()) ==> more@ == uri@.push(longer@.last() as char),
        !plain_byte(longer@.last()) ==> {
            let n = uri@.len() as int;
            &&& more@.len() == n + 3
            &&& more@.take(n) == uri@
            &&& more@[n] == '%'
            &&& upper_value(more@[n + 1]) * 16 + upper_value(more@[n + 2]) == longer@.last()
            &&& ('0' <= more@[n + 1] <= '9' || 'A' <= more@[n + 1] <= 'F')
            &&& ('0' <= more@[n + 2] <= '9' || 'A' <= more@[n + 2] <= 'F')
        },
{
    let b = longer@.last();
    let start = "file://"@;
    assert(more@ == start + (crate::files::escape_all(path@) + crate::files::escape(b)));
    if path@.len() == 0 {
        assert(uri@ =~= start);
    }
    if plain_byte(b) {
        assert(more@ =~= uri@.push(b as char));
    } else {
        let n = uri@.len() as int;
        assert(more@.take(n) =~= uri@);
        assert(b / 16 < 16 && b % 16 < 16);
        assert(b == 16 * (b / 16) + b % 16);
        upper_digits((b / 16) as nat);
        upper_digits((b % 16) as nat);
        assert(more@[n + 1] == crate::text::upper_hex_digit((b / 16) as nat));
        assert(more@[n + 2] == crate::text::upper_hex_digit((b % 16) as nat));
    }
}

/// The value of a hexadecimal digit in upper case.
pub open spec fn upper_value(c: char) -> int {
    if '0' <= c <= '9' {
        c as int - 48
    } else {
        c as int - 55
    }
}

proof fn upper_digits(d: nat)
    requires
        d < 16,
    ensures
        upper_value(crate::text::upper_hex_digit(d)) == d,
        ({
            let c = crate::text::upper_hex_digit(d);
            '0' <= c <= '9' || 'A' <= c <= 'F'
        }),
{
}

/// Without a data directory the state stands below home.
pub proof fn state_falls_back_to_home(data: Option<&[u8]>, home: &[u8], dir: Option<Vec<u8>>)
    requires
        call_ensures(state_dir_from, (data, Some(home)), dir),
        data is None || data->0@.len() == 0,
        home@.len() > 0,
    ensures
        dir is Some,
        dir->0@ == crate::paths::joined(
            crate::paths::joined(
                crate::paths::joined(home@, vstd::utf8::encode_utf8(".local"@)),
                vstd::utf8::encode_utf8("share"@),
            ),
            vstd::utf8::encode_utf8("aegis-portal"@),
        ),
{
}

/// An option is read under its key, if it is of the kind that is asked for.
pub proof fn options_are_read_by_kind(
    options: Options,
    key: &str,
    flag: Option<bool>,
    number: Option<u32>,
    text: Option<String>,
)
    requires
        call_ensures(crate::options::get_bool, (&options, key), flag),
        call_ensures(crate::options::get_u32, (&options, key), number),
        call_ensures(crate::options::get_text, (&options, key), text),
    ensures
        flag is Some <==> options@.dom().contains(key@) && options@[key@] is Bool,
        number is Some <==> options@.dom().contains(key@) && options@[key@] is U32,
        text is Some <==> options@.dom().contains(key@) && options@[key@] is Text,
        flag is Some ==> flag->0 == options@[key@]->Bool_0,
        number is Some ==> number->0 == options@[key@]->U32_0,
        text is Some ==> text->0@ == options@[key@]->Text_0@,
{
}

/// The question for a launcher names the application and the launcher.
pub proof fn launcher_questions_name_both(app_id: &str, name: &str, request: Request)
    requires
        call_ensures(crate::dynamic_launcher::consent_request, (app_id, name), request),
    ensures
        request is PickConfirm,
        request->body@ == "The application '"@ + app_id@
            + "' wants to install a launcher named '"@ + name@ + "' on this desktop."@,
{
}

/// Without shared data directories in the environment, the two usual ones
/// are looked in; without a data directory of the user's, the one below
/// home.
pub proof fn entries_are_looked_for_below_home(
    app_id: &str,
    home: &[u8],
    data_dirs: Option<&str>,
    candidates: Vec<Vec<u8>>,
)
    requires
        call_ensures(desktop_file_candidates, (app_id, None, Some(home), data_dirs), candidates),
        home@.len() > 0,
    ensures
        candidates@.len() >= 1,
        candidates@[0]@ == crate::paths::joined(
            crate::paths::joined(home@, vstd::utf8::encode_utf8(".local/share/applications"@)),
            vstd::utf8::encode_utf8(app_id@ + ".desktop"@),
        ),
{
    let views = crate::paths::path_views(candidates@);
    assert(views.len() == candidates@.len());
    assert(views[0] == candidates@[0]@);
}

/// An application that an application is being picked for is asked about
/// only while its request is open.
pub proof fn closed_picks_are_not_asked(tracker: RequestTracker, path: &str, step: PickStep)
    requires
        call_ensures(begin_pick, (&tracker, path), step),
    ensures
        tracker@.contains(path@) ==> step == PickStep::Answer(1),
        !tracker@.contains(path@) ==> step == PickStep::Ask,
{
}

/// A launcher is prepared only with consent, and not once the request was
/// closed.
pub proof fn consent_is_told_by_its_code(
    tracker: RequestTracker,
    path: &str,
    consent: Option<ConfirmPickResult>,
    code: u32,
)
    requires
        call_ensures(run_prepare, (&tracker, path, consent), code),
    ensures
        code == 0 <==> consent == Some(ConfirmPickResult::Confirmed) && !tracker@.contains(path@),
        code == 2 <==> consent is None,
        code == 0 || code == 1 || code == 2,
{
}

/// A decision that was set is the one in force, and no other application's
/// changes.
pub proof fn set_decisions_are_kept(
    before: BackgroundStore,
    after: BackgroundStore,
    app_id: &str,
    decision: Decision,
    other: Seq<char>,
    apps: Vec<String>,
    i: int,
)
    requires
        exists|s: &mut BackgroundStore|
            #[trigger] call_ensures(BackgroundStore::set, (s, app_id, decision), ()) && *s
                == before && *final(s) == after,
        call_ensures(BackgroundStore::apps, (&after,), apps),
        0 <= i < apps@.len(),
    ensures
        after@.dom().contains(app_id@) && after@[app_id@] == decision,
        other != app_id@ ==> (after@.dom().contains(other) <==> before@.dom().contains(other)),
        other != app_id@ && before@.dom().contains(other) ==> after@[other] == before@[other],
        apps@[i]@ == app_id@ || before@.dom().contains(apps@[i]@),
        exists|k: int| 0 <= k < apps@.len() && (#[trigger] apps@[k])@ == app_id@,
{
    assert(after@.dom().contains(apps@[i]@));
}

/// What was read from the file is in force, and nothing where there is none.
pub proof fn read_decisions_are_in_force(
    document: Option<TextMap<Decision>>,
    store: BackgroundStore,
    app: Seq<char>,
)
    requires
        call_ensures(BackgroundStore::load, (document,), store),
    ensures
        document is None ==> !store@.dom().contains(app),
        document matches Some(read) ==> (store@.dom().contains(app) <==> read@.dom().contains(app))
            && (read@.dom().contains(app) ==> store@[app] == read@[app]),
{
}

/// An inhibitor counts until it is released, once for each request.
pub proof fn inhibitors_count_until_released(
    before: InhibitCounts,
    between: InhibitCounts,
    after: InhibitCounts,
    path: &str,
    app_id: &str,
    start: usize,
    added: usize,
    left: usize,
)
    requires
        call_ensures(InhibitCounts::total, (&before,), start),
        exists|s: &mut InhibitCounts|
            #[trigger] call_ensures(InhibitCounts::add, (s, path, app_id), added) && *s == before
                && *final(s) == between,
        exists|s: &mut InhibitCounts|
            #[trigger] call_ensures(InhibitCounts::release, (s, path), left) && *s == between
                && *final(s) == after,
    ensures
        !before@.dom().contains(path@) ==> added == start + 1 && left == start,
        before@.dom().contains(path@) ==> added == start && left == start - 1,
        between@.dom().contains(path@) && between@[path@] == app_id@,
        !after@.dom().contains(path@),
{
    let d = before@.dom();
    assert(between@.dom() =~= d.insert(path@));
    assert(after@.dom() =~= d.insert(path@).remove(path@));
    vstd::set::axiom_set_insert_len(d, path@);
    vstd::set::axiom_set_remove_len(d.insert(path@), path@);
}

/// A new dialog for applications highlights its first row and has no answer
/// yet.
pub proof fn app_dialogs_open_on_the_first_row(request: ChooseAppRequest, dialog: ChooseAppDialog)
    requires
        call_ensures(ChooseAppDialog::new, (request,), dialog),
    ensures
        dialog.selected == 0,
        dialog.done is None,
        dialog.request == request,
        dialog.choices@.len() == request.choices@.len(),
{
}

/// A click highlights its row, else the cursor does, unless it is on no row.
pub proof fn app_rows_are_highlighted(
    before: ChooseAppDialog,
    after: ChooseAppDialog,
    cursor: Option<i32>,
    clicked: Option<i32>,
)
    requires
        exists|s: &mut ChooseAppDialog|
            #[trigger] call_ensures(ChooseAppDialog::row_moved, (s, cursor, clicked), ()) && *s
                == before && *final(s) == after,
    ensures
        clicked matches Some(row) ==> after.selected == row,
        clicked is None && cursor is Some && cursor->0 >= 0 ==> after.selected == cursor->0,
        clicked is None && (cursor is None || cursor->0 < 0) ==> after.selected == before.selected,
        after.request == before.request && after.done == before.done && after.choices
            == before.choices,
{
}

/// Of an application dialog's choices exactly the changed one changes.
pub proof fn app_choices_change_one_by_one(
    before: ChooseAppDialog,
    after: ChooseAppDialog,
    index: usize,
    value: ChoiceState,
    i: int,
)
    requires
        exists|s: &mut ChooseAppDialog|
            #[trigger] call_ensures(ChooseAppDialog::choice_changed, (s, index, value), ()) && *s
                == before && *final(s) == after,
        index < before.choices@.len(),
        0 <= i < before.choices@.len(),
    ensures
        after.choices@.len() == before.choices@.len(),
        after.choices@[i] == (if i == index {
            value
        } else {
            before.choices@[i]
        }),
        after.selected == before.selected && after.done == before.done,
{
}

/// An application dialog that was cancelled, or closed without an answer,
/// picks nothing; any other hands out its answer.
pub proof fn cancelled_app_dialogs_pick_nothing(
    before: ChooseAppDialog,
    after: ChooseAppDialog,
    response: ChooseAppResponse,
    kept: ChooseAppResponse,
)
    requires
        exists|s: &mut ChooseAppDialog|
            #[trigger] call_ensures(ChooseAppDialog::cancel, (s,), ()) && *s == before && *final(s)
                == after,
        call_ensures(ChooseAppDialog::result, (after,), response),
        call_ensures(ChooseAppDialog::result, (before,), kept),
    ensures
        response is Cancelled,
        before.done is None ==> kept is Cancelled,
        before.done is Some ==> kept == before.done->0,
{
    assert(after.done is Some);
}

/// An empty front of the list of shared directories names none of them.
pub proof fn empty_directories_are_left_out(
    app_id: &str,
    data: &[u8],
    home: Option<&[u8]>,
    candidates: Vec<Vec<u8>>,
    data_dirs: &str,
    second: Seq<char>,
)
    requires
        call_ensures(
            desktop_file_candidates,
            (app_id, Some(data), home, Some(data_dirs)),
            candidates,
        ),
        data@.len() > 0,
        data_dirs@ == seq![':'] + second,
        !second.contains(':'),
        second.len() > 0,
    ensures
        ({
            let apps = vstd::utf8::encode_utf8("applications"@);
            let name = vstd::utf8::encode_utf8(app_id@ + ".desktop"@);
            let b = vstd::utf8::encode_utf8(second);
            &&& candidates@.len() == 2
            &&& candidates@[0]@ == crate::paths::joined(crate::paths::joined(data@, apps), name)
            &&& candidates@[1]@ == crate::paths::joined(crate::paths::joined(b, apps), name)
        }),
{
    let b = vstd::utf8::encode_utf8(second);
    crate::edit::encoding_concatenates(seq![':'], second);
    colons_are_single_bytes();
    crate::answers::encoding_keeps_out(second, ':');
    texts_have_bytes(second);
    nothing_before_the_colon(b);
    let list = vstd::utf8::encode_utf8(data_dirs@);
    let dirs = crate::background::pieces(list);
    assert(dirs =~= seq![b]);
    let name = vstd::utf8::encode_utf8(app_id@ + ".desktop"@);
    let views = crate::paths::path_views(candidates@);
    assert(views.len() == candidates@.len());
    let all = crate::background::user_dirs(Some(data@), crate::state::given(home))
        + crate::background::application_dirs(dirs);
    assert(all.len() == 2);
    assert(views[0] == crate::paths::joined(all[0], name));
    assert(views[1] == crate::paths::joined(all[1], name));
    assert(views[0] == candidates@[0]@ && views[1] == candidates@[1]@);
}

proof fn nothing_before_the_colon(b: Seq<u8>)
    requires
        !b.contains(58),
    ensures
        crate::background::split(seq![58u8] + b) == (Seq::<Seq<u8>>::empty(), b),
    decreases b.len(),
{
    let all = seq![58u8] + b;
    if b.len() == 0 {
        assert(all =~= seq![58u8]);
        reveal_with_fuel(crate::background::split, 2);
        assert(all.drop_last() =~= Seq::<u8>::empty());
        assert(all.last() == 58);
        assert(b =~= Seq::<u8>::empty());
    } else {
        assert(all.drop_last() =~= seq![58u8] + b.drop_last());
        assert(b.contains(b[b.len() - 1]));
        assert(!b.drop_last().contains(58)) by {
            if b.drop_last().contains(58) {
                let k = choose|k: int| 0 <= k < b.drop_last().len() && b.drop_last()[k] == 58;
                assert(b[k] == 58);
            }
        }
        nothing_before_the_colon(b.drop_last());
        assert(b.drop_last().push(b.last()) =~= b);
    }
}

} // verus!
