//! Laws of the requests to the prompter and of its answers.

#![allow(unused_imports)]

use vstd::prelude::*;

use crate::prompter::{
    check_message, split_extension, validate_absolute_path, validate_basename, validate_prompt_text, BytePath,
    Choice, ConfirmRequest, FileChooserMode, FileChooserRequest, FileChooserResponse, FileFilter, PromptRequest,
    PrompterRequest, PrompterResponse, PromptResult, SecretRequest, SecretResponse,
};

verus! {

/// A text is fit for a prompt when it is not blank, unless it may be, has at
/// most 16 KiB and no zero in it.
pub proof fn prompt_texts_are_short_and_not_blank(
    name: &str,
    value: &str,
    allow_empty: bool,
    r: Result<(), String>,
)
    requires
        call_ensures(validate_prompt_text, (name, value, allow_empty), r),
    ensures
        r is Ok <==> (allow_empty || exists|i: int|
            0 <= i < value@.len() && !crate::text::is_white_space(#[trigger] value@[i]))
            && vstd::utf8::encode_utf8(value@).len() <= 16384 && !value@.contains('\0'),
{
}

/// Only requests of the one version are read, and then only those that are
/// in order.
pub proof fn only_this_version_is_read(request: PrompterRequest, r: Result<PromptRequest, String>)
    requires
        call_ensures(PrompterRequest::into_prompt, (request,), r),
    ensures
        request.version != 3 ==> r is Err,
        r matches Ok(prompt) ==> prompt == request.prompt,
        request.version == 3 && request.prompt.problem() is None ==> r is Ok,
        request.prompt.problem() is Some ==> r is Err,
{
}

/// Only answers of the one version are read.
pub proof fn only_this_version_answers(response: PrompterResponse, r: Result<PromptResult, String>)
    requires
        call_ensures(PrompterResponse::into_result, (response,), r),
    ensures
        r is Ok <==> response.version == 3,
        r matches Ok(result) ==> result == response.result,
{
}

/// A path is absolute when it begins with a slash and has no zero in it.
pub proof fn absolute_paths_begin_with_a_slash(name: &str, path: &[u8], r: Result<(), String>)
    requires
        call_ensures(validate_absolute_path, (name, path), r),
    ensures
        r is Ok <==> path@.len() > 0 && path@[0] == 0x2f && !path@.contains(0),
{
}

/// A name without slash and zero that is not empty, `.` or `..` is a
/// basename; a path from the root, `.`, `..` and a path of two names are
/// none.
pub proof fn basenames_are_single_names(path: &[u8], r: Result<(), String>)
    requires
        call_ensures(validate_basename, (path,), r),
    ensures
        path@.contains(0) ==> r is Err,
        path@.len() == 0 ==> r is Err,
        path@.len() > 0 && path@[0] == 0x2f ==> r is Err,
        path@ == seq![0x2eu8] ==> r is Err,
        path@ == seq![0x2eu8, 0x2e] ==> r is Err,
        path@.len() > 0 && !path@.contains(0) && !path@.contains(0x2f) && path@ != seq![0x2eu8]
            && path@ != seq![0x2eu8, 0x2e] ==> r is Ok,
        r is Ok ==> crate::paths::parts(path@).len() == 1 && crate::paths::file_name(path@) is Some,
{
    let b = path@;
    let parts = crate::paths::parts(b);
    let marks = crate::paths::marks(b);
    if b.len() > 0 && b[0] == 0x2f {
        assert(parts[0] == marks[0].part);
    }
    if b.len() > 0 && !b.contains(0x2f) {
        single_segments(b);
    }
    if r is Ok {
        assert(parts[0] == marks[0].part);
    }
}

proof fn single_segments(b: Seq<u8>)
    requires
        b.len() > 0,
        !b.contains(0x2f),
    ensures
        crate::paths::parts(b) == seq![crate::paths::part_of(b, true)->0],
        crate::paths::part_of(b, true) is Some,
{
    crate::paths::segment_end_bounds(b, 0);
    let e = crate::paths::segment_end(b, 0);
    if e < b.len() {
        assert(b.contains(b[e]));
    }
    assert(b.subrange(0, e) =~= b);
    assert(crate::paths::marks_from(b, e + 1) =~= Seq::empty());
    assert(b.contains(b[0]));
    let part = crate::paths::part_of(b, true)->0;
    assert(crate::paths::marks(b) =~= seq![crate::paths::Mark { part, end: e }]);
    assert(crate::paths::parts(b) =~= seq![part]);
}

/// What a request for files that is in order holds: suggested files for
/// saving several files and only then, each a basename; absolute folders;
/// filters and choices without an empty label; choices told apart.
pub proof fn requests_in_order(request: FileChooserRequest, r: Result<(), String>)
    requires
        call_ensures(FileChooserRequest::validate, (&request,), r),
    ensures
        r is Ok <==> {
            &&& request.current_folder matches Some(path) ==> path@.len() > 0 && path@[0] == 0x2f
                && !path@.contains(0)
            &&& request.current_file matches Some(path) ==> path@.len() > 0 && path@[0] == 0x2f
                && !path@.contains(0)
            &&& (request.mode == FileChooserMode::SaveFiles) == (request.files@.len() > 0)
            &&& forall|i: int|
                #![trigger request.files@[i]]
                0 <= i < request.files@.len() ==> crate::prompter::basename_problem(
                    request.files@[i]@,
                ) is None
            &&& forall|i: int|
                #![trigger request.filters@[i]]
                0 <= i < request.filters@.len() ==> filter_in_order(request.filters@[i])
            &&& request.current_filter matches Some(filter) ==> filter_in_order(filter)
            &&& forall|i: int|
                #![trigger request.choices@[i]]
                0 <= i < request.choices@.len() ==> choice_in_order(request.choices@[i])
            &&& forall|i: int, j: int|
                #![trigger request.choices@[i], request.choices@[j]]
                0 <= i < j < request.choices@.len() ==> request.choices@[i].id@
                    != request.choices@[j].id@
        },
{
    basenames_all(request.files@, 0);
    choices_all(request.choices@, 0);
    assert forall|f: FileFilter| #[trigger] filter_in_order(f) <==> !f.malformed() by {}
    assert forall|i: int|
        #![trigger request.choices@[i]]
        0 <= i < request.choices@.len() implies (crate::prompter::choice_problem(
        request.choices@,
        i,
    ) is None <==> choice_in_order(request.choices@[i]) && forall|j: int|
        #![trigger request.choices@[j]]
        0 <= j < i ==> request.choices@[j].id@ != request.choices@[i].id@) by {
        choice_order(request.choices@[i]);
    }
}

/// A filter has a label, and each of its rules says something.
pub open spec fn filter_in_order(filter: FileFilter) -> bool {
    &&& filter.label@.len() > 0
    &&& forall|i: int|
        0 <= i < filter.rules@.len() ==> (#[trigger] filter.rules@[i]).value@.len() > 0
}

/// A choice has an identity and a label; its options have both, too, and are
/// told apart; and its default is empty or one of its options, or for a
/// switch `true` or `false`.
pub open spec fn choice_in_order(choice: Choice) -> bool {
    &&& choice.id@.len() > 0
    &&& choice.label@.len() > 0
    &&& forall|i: int|
        0 <= i < choice.options@.len() ==> (#[trigger] choice.options@[i]).0@.len() > 0
            && choice.options@[i].1@.len() > 0
    &&& forall|i: int, j: int|
        0 <= i < j < choice.options@.len() ==> (#[trigger] choice.options@[i]).0@ != (
        #[trigger] choice.options@[j]).0@
    &&& choice.selected@.len() == 0 || (if choice.options@.len() == 0 {
        choice.selected@ == "true"@ || choice.selected@ == "false"@
    } else {
        exists|i: int|
            0 <= i < choice.options@.len() && (#[trigger] choice.options@[i]).0@
                == choice.selected@
    })
}

proof fn choice_order(choice: Choice)
    ensures
        choice_in_order(choice) <==> choice.id@.len() > 0 && choice.label@.len() > 0
            && choice.option_problem() is None,
{
}

proof fn basenames_all(files: Seq<BytePath>, k: int)
    requires
        0 <= k <= files.len(),
    ensures
        crate::prompter::basenames_problem(files, k) is None <==> forall|i: int|
            #![trigger files[i]]
            k <= i < files.len() ==> crate::prompter::basename_problem(files[i]@) is None,
    decreases files.len() - k,
{
    if k < files.len() {
        basenames_all(files, k + 1);
        let one = files[k];
    }
}

proof fn choices_all(choices: Seq<Choice>, k: int)
    requires
        0 <= k <= choices.len(),
    ensures
        crate::prompter::choices_problem(choices, k) is None <==> forall|i: int|
            #![trigger choices[i]]
            k <= i < choices.len() ==> crate::prompter::choice_problem(choices, i) is None,
    decreases choices.len() - k,
{
    if k < choices.len() {
        choices_all(choices, k + 1);
        let one = choices[k];
    }
}

/// An answer is taken only if it fits its request: as many paths as the mode
/// asks for and each absolute, a filter that was offered, and for every
/// choice in turn one of its own values.
pub proof fn answers_fit_their_request(
    response: FileChooserResponse,
    request: FileChooserRequest,
    r: Result<(), String>,
)
    requires
        call_ensures(FileChooserResponse::validate_for, (&response, &request), r),
    ensures
        !(response is Selected) ==> r is Ok,
        response matches FileChooserResponse::Selected { paths, current_filter, choices } ==> (
        r is Ok <==> {
            &&& paths@.len() > 0
            &&& request.mode == FileChooserMode::SaveFile ==> paths@.len() == 1
            &&& request.mode == FileChooserMode::SaveFiles ==> paths@.len() == request.files@.len()
            &&& (request.mode == FileChooserMode::OpenFile || request.mode
                == FileChooserMode::OpenDirectory) && !request.multiple ==> paths@.len() == 1
            &&& forall|i: int|
                #![trigger paths@[i]]
                0 <= i < paths@.len() ==> paths@[i]@.len() > 0 && paths@[i]@[0] == 0x2f
                    && !paths@[i]@.contains(0)
            &&& current_filter matches Some(filter) ==> crate::prompter::offers_filter(
                request,
                filter@,
            )
            &&& choices@.len() == request.choices@.len()
            &&& forall|i: int|
                #![trigger choices@[i]]
                0 <= i < choices@.len() ==> value_in_order(choices@[i], request.choices@[i])
        }),
{
    if let FileChooserResponse::Selected { paths, current_filter, choices } = response {
        paths_all(paths@, 0);
        if choices@.len() == request.choices@.len() {
            values_all(choices@, request.choices@, 0);
        }
    }
}

/// The answer to a choice names the choice, and is one of its options, or
/// for a switch `true` or `false`.
pub open spec fn value_in_order(answer: (String, String), choice: Choice) -> bool {
    &&& answer.0@ == choice.id@
    &&& if choice.options@.len() == 0 {
        answer.1@ == "true"@ || answer.1@ == "false"@
    } else {
        exists|i: int|
            0 <= i < choice.options@.len() && (#[trigger] choice.options@[i]).0@ == answer.1@
    }
}

proof fn paths_all(paths: Seq<BytePath>, k: int)
    requires
        0 <= k <= paths.len(),
    ensures
        crate::prompter::selected_paths_problem(paths, k) is None <==> forall|i: int|
            #![trigger paths[i]]
            k <= i < paths.len() ==> paths[i]@.len() > 0 && paths[i]@[0] == 0x2f
                && !paths[i]@.contains(0),
    decreases paths.len() - k,
{
    if k < paths.len() {
        paths_all(paths, k + 1);
        let one = paths[k];
    }
}

proof fn values_all(answers: Seq<(String, String)>, choices: Seq<Choice>, k: int)
    requires
        0 <= k <= answers.len(),
        answers.len() == choices.len(),
    ensures
        crate::prompter::answers_problem(answers, choices, k) is None <==> forall|i: int|
            #![trigger answers[i]]
            k <= i < answers.len() ==> value_in_order(answers[i], choices[i]),
    decreases answers.len() - k,
{
    if k < answers.len() {
        values_all(answers, choices, k + 1);
        let one = answers[k];
        assert(crate::prompter::answer_problem(answers[k], choices[k]) is None <==> value_in_order(
            answers[k],
            choices[k],
        ));
    }
}

/// A name is split at its last dot, which is not in front and not at the
/// end; else it has no extension.
pub proof fn names_are_split_at_the_last_dot(
    name: &[u8],
    pieces: (&[u8], Option<&[u8]>),
)
    requires
        call_ensures(split_extension, (name,), pieces),
    ensures
        pieces.1 is None ==> pieces.0@ == name@,
        pieces.1 matches Some(extension) ==> pieces.0@.len() > 0 && extension@.len() > 0
            && !extension@.contains(0x2e) && name@ == pieces.0@.push(0x2e) + extension@,
{
    let dot = crate::prompter::last_dot(name@);
    dots_end(name@);
    if let Some(extension) = pieces.1 {
        assert(name@ =~= pieces.0@.push(0x2e) + extension@);
        if extension@.contains(0x2e) {
            let k = choose|k: int| 0 <= k < extension@.len() && extension@[k] == 0x2e;
            assert(name@[dot + 1 + k] == 0x2e);
        }
    }
}

proof fn dots_end(name: Seq<u8>)
    ensures
        -1 <= crate::prompter::last_dot(name) < name.len(),
        crate::prompter::last_dot(name) >= 0 ==> name[crate::prompter::last_dot(name)] == 0x2e,
        forall|k: int|
            crate::prompter::last_dot(name) < k < name.len() ==> #[trigger] name[k] != 0x2e,
    decreases name.len(),
{
    if name.len() > 0 && name.last() != 0x2e {
        let rest = name.drop_last();
        dots_end(rest);
        let dot = crate::prompter::last_dot(name);
        assert forall|k: int| dot < k < name.len() implies #[trigger] name[k] != 0x2e by {
            if k < name.len() - 1 {
                assert(rest[k] == name[k]);
            }
        }
    }
}

/// Outside saving several files, the chosen paths are the answer as they
/// are. Saving several files puts each suggested name, in turn, into the
/// chosen folder, under a path that is free and not among the others.
pub proof fn saved_files_go_to_free_paths<F: Fn(&Vec<u8>) -> bool>(
    request: FileChooserRequest,
    selected: Vec<BytePath>,
    occupied: F,
    r: Result<Vec<BytePath>, String>,
    i: int,
    j: int,
)
    requires
        call_ensures(FileChooserRequest::finish_paths::<F>, (&request, selected, &occupied), r),
        r is Ok,
        0 <= i < (r->Ok_0)@.len(),
    ensures
        request.mode != FileChooserMode::SaveFiles ==> (r->Ok_0)@.len() == selected@.len() && (
        r->Ok_0)@[i]@ == selected@[i]@,
        request.mode == FileChooserMode::SaveFiles ==> {
            &&& selected@.len() > 0
            &&& (r->Ok_0)@.len() == request.files@.len()
            &&& exists|v: Vec<u8>|
                v@ == (r->Ok_0)@[i]@ && #[trigger] call_ensures(occupied, (&v,), false)
            &&& exists|n: nat|
                (r->Ok_0)@[i]@ == crate::paths::joined(
                    selected@[0]@,
                    #[trigger] crate::prompter::numbered_name(request.files@[i]@, n),
                ) && (n > 0 ==> crate::prompter::taken(
                    occupied,
                    crate::prompter::byte_paths((r->Ok_0)@).take(i),
                    crate::paths::joined(selected@[0]@, request.files@[i]@),
                ))
            &&& 0 <= j < i ==> !crate::pathset::same_path((r->Ok_0)@[i]@, (r->Ok_0)@[j]@)
        },
{
    let paths = crate::prompter::byte_paths((r->Ok_0)@);
    let from = crate::prompter::byte_paths(selected@);
    assert(paths.len() == (r->Ok_0)@.len());
    assert(paths[i] == (r->Ok_0)@[i]@);
    assert(from.len() == selected@.len());
    if request.mode != FileChooserMode::SaveFiles {
        assert(paths == from);
        assert(from[i] == selected@[i]@);
    } else {
        assert(from[0] == selected@[0]@);
        assert(crate::prompter::assigned(occupied, from[0], request.files@, paths));
        let name = request.files@[i]@;
        assert(crate::prompter::placed(occupied, paths.take(i), from[0], name, paths[i]));
        let n = choose|n: nat| #[trigger]
            crate::prompter::first_free(occupied, paths.take(i), from[0], name, n, paths[i]);
        assert(crate::prompter::first_free(occupied, paths.take(i), from[0], name, n, paths[i]));
        assert(crate::prompter::numbered_child(from[0], name, n) == paths[i]);
        if n > 0 {
            assert(crate::prompter::numbered_name(name, 0) == name);
            assert(crate::prompter::taken(
                occupied,
                paths.take(i),
                crate::prompter::numbered_child(from[0], name, 0),
            ));
        }
        if 0 <= j < i {
            crate::prompter::assigned_paths_are_distinct(
                occupied,
                from[0],
                request.files@,
                paths,
            );
            assert(paths[j] == (r->Ok_0)@[j]@);
            assert(!crate::pathset::same_path(paths[j], paths[i]));
        }
    }
}

/// A taken name gets its number in brackets behind it, before the extension.
pub proof fn numbers_stand_before_the_extension(stem: Seq<u8>, extension: Seq<u8>, n: nat)
    requires
        stem.len() > 0,
        extension.len() > 0,
        !extension.contains(0x2e),
    ensures
        crate::prompter::numbered_name(stem.push(0x2e) + extension, 0) == stem.push(0x2e)
            + extension,
        n > 0 ==> crate::prompter::numbered_name(stem.push(0x2e) + extension, n) == stem
            + vstd::utf8::encode_utf8("("@ + crate::text::decimal(n) + ")"@) + seq![0x2eu8]
            + extension,
{
    let name = stem.push(0x2e) + extension;
    dots_end(name);
    let dot = crate::prompter::last_dot(name);
    if dot > stem.len() {
        assert(extension.contains(extension[dot - stem.len() - 1]));
    }
    assert(name[stem.len() as int] == 0x2e);
    assert(dot == stem.len());
    assert(name.take(dot) =~= stem);
    assert(name.skip(dot + 1) =~= extension);
    let base = stem + vstd::utf8::encode_utf8("("@ + crate::text::decimal(n) + ")"@);
    assert(base.push(0x2e) + extension =~= base + seq![0x2eu8] + extension);
}

/// A text that a prompt may show.
pub open spec fn showable(value: Seq<char>, allow_empty: bool) -> bool {
    (allow_empty || exists|i: int|
        0 <= i < value.len() && !crate::text::is_white_space(#[trigger] value[i]))
        && vstd::utf8::encode_utf8(value).len() <= 16384 && !value.contains('\0')
}

/// A confirmation has a title and a body to show, and a label and a parent
/// that are showable where it has them.
pub proof fn confirmations_are_showable(request: ConfirmRequest, r: Result<(), String>)
    requires
        call_ensures(ConfirmRequest::validate, (&request,), r),
    ensures
        r is Ok <==> showable(request.title@, false) && showable(request.body@, false) && (
        request.accept_label is Some ==> showable(request.accept_label->0@, false)) && (
        request.parent_window is Some ==> showable(request.parent_window->0@, true)),
{
}

/// A request for a secret has a title to show, and a reason that is showable
/// where it has one.
pub proof fn secret_requests_are_showable(request: SecretRequest, r: Result<(), String>)
    requires
        call_ensures(SecretRequest::validate, (&request,), r),
    ensures
        r is Ok <==> showable(request.title@, false) && (request.reason is Some ==> showable(
            request.reason->0@,
            true,
        )),
{
}

/// A request is made for this version, and is read back as what was asked.
pub proof fn requests_are_read_back(
    asked: FileChooserRequest,
    made: PrompterRequest,
    r: Result<FileChooserRequest, String>,
)
    requires
        call_ensures(PrompterRequest::file_chooser, (asked,), made),
        call_ensures(PrompterRequest::into_file_chooser, (made,), r),
    ensures
        made.version == 3,
        asked.problem() is None ==> r == Ok::<FileChooserRequest, String>(asked),
        asked.problem() is Some ==> r is Err,
{
}

/// An answer is read back as it was given, and a failure as its message.
pub proof fn answers_are_read_back(
    answer: FileChooserResponse,
    made: PrompterResponse,
    r: Result<FileChooserResponse, String>,
    message: String,
    failed: PrompterResponse,
    told: Result<FileChooserResponse, String>,
)
    requires
        call_ensures(PrompterResponse::new, (answer,), made),
        call_ensures(PrompterResponse::into_file_chooser, (made,), r),
        call_ensures(PrompterResponse::failed, (message,), failed),
        call_ensures(PrompterResponse::into_file_chooser, (failed,), told),
    ensures
        made.version == 3,
        r == Ok::<FileChooserResponse, String>(answer),
        told is Err,
        told->Err_0@ == message@,
{
}

/// A secret is taken out of its answer once, and then is gone from it.
pub proof fn secrets_are_taken_once(
    before: SecretResponse,
    after: SecretResponse,
    value: Option<String>,
)
    requires
        exists|s: &mut SecretResponse|
            #[trigger] call_ensures(SecretResponse::take_value, (s,), value) && *s == before
                && *final(s) == after,
    ensures
        before is Secret ==> value is Some && value->0@ == before->value@ && after is Secret
            && after->value@.len() == 0,
        before is Cancelled ==> value is None && after is Cancelled,
{
}

/// A filter was offered if the request lists it, or, where it lists none,
/// suggests it.
pub proof fn offered_filters_are_listed_or_suggested(
    request: FileChooserRequest,
    filter: FileFilter,
    yes: bool,
)
    requires
        call_ensures(FileChooserRequest::has_filter, (&request, &filter), yes),
    ensures
        yes <==> (exists|i: int|
            0 <= i < request.filters@.len() && (#[trigger] request.filters@[i])@ == filter@) || (
        request.filters@.len() == 0 && request.current_filter is Some && request.current_filter->0@
            == filter@),
{
}

/// A message is taken if it is no longer than eight mebibytes.
pub proof fn long_messages_are_refused(length: usize, r: Result<(), String>)
    requires
        call_ensures(check_message, (length,), r),
    ensures
        r is Ok <==> length <= 8 * 1024 * 1024,
{
}

/// A choice offers exactly the ids of its options.
pub proof fn choices_offer_their_options(choice: Choice, id: &str, yes: bool, i: int)
    requires
        call_ensures(Choice::has_option, (&choice, id), yes),
    ensures
        0 <= i < choice.options@.len() && choice.options@[i].0@ == id@ ==> yes,
        yes ==> exists|k: int|
            0 <= k < choice.options@.len() && (#[trigger] choice.options@[k]).0@ == id@,
{
}

/// A prompt is sound where what it asks is.
pub proof fn prompts_are_judged_by_their_kind(
    file: FileChooserRequest,
    confirm: ConfirmRequest,
    secret: SecretRequest,
    file_alone: Result<(), String>,
    confirm_alone: Result<(), String>,
    secret_alone: Result<(), String>,
    prompt: PromptRequest,
    r: Result<(), String>,
)
    requires
        call_ensures(FileChooserRequest::validate, (&file,), file_alone),
        call_ensures(ConfirmRequest::validate, (&confirm,), confirm_alone),
        call_ensures(SecretRequest::validate, (&secret,), secret_alone),
        call_ensures(PromptRequest::validate, (&prompt,), r),
    ensures
        prompt == PromptRequest::FileChooser(file) ==> (r is Ok <==> file_alone is Ok) && (r is Err
            ==> r->Err_0@ == file_alone->Err_0@),
        prompt == PromptRequest::Confirm(confirm) ==> (r is Ok <==> confirm_alone is Ok) && (r
            is Err ==> r->Err_0@ == confirm_alone->Err_0@),
        prompt == PromptRequest::Secret(secret) ==> (r is Ok <==> secret_alone is Ok) && (r is Err
            ==> r->Err_0@ == secret_alone->Err_0@),
{
}

/// Two filters are the same where their labels and rules are; a copy is the
/// same as what was copied.
pub proof fn copied_filters_are_the_same(
    filter: FileFilter,
    other: FileFilter,
    copied: FileFilter,
    yes: bool,
    same: bool,
    i: int,
)
    requires
        call_ensures(FileFilter::copy, (&filter,), copied),
        call_ensures(FileFilter::same, (&filter, &copied), yes),
        call_ensures(FileFilter::same, (&filter, &other), same),
    ensures
        yes,
        copied.label@ == filter.label@,
        same ==> filter.label@ == other.label@ && filter.rules@.len() == other.rules@.len(),
        same && 0 <= i < filter.rules@.len() ==> filter.rules@[i].kind == other.rules@[i].kind
            && filter.rules@[i].value@ == other.rules@[i].value@,
{
    let a = filter@.rules;
    let b = other@.rules;
    assert(a.len() == filter.rules@.len());
    assert(b.len() == other.rules@.len());
    if same && 0 <= i < filter.rules@.len() {
        assert(a[i] == filter.rules@[i]@);
        assert(b[i] == other.rules@[i]@);
    }
}

/// What is said of a secret for a log does not depend on the secret.
pub proof fn secrets_are_not_written_out(
    a: SecretResponse,
    b: SecretResponse,
    text: String,
    other: String,
)
    requires
        call_ensures(SecretResponse::debug_text, (&a,), text),
        call_ensures(SecretResponse::debug_text, (&b,), other),
    ensures
        a is Secret && b is Secret ==> text@ == other@,
        a is Secret && b is Cancelled ==> text@ != other@,
{
    reveal_strlit("SecretResponse::Secret([REDACTED])");
    reveal_strlit("SecretResponse::Cancelled");
    assert("SecretResponse::Secret([REDACTED])"@.len() != "SecretResponse::Cancelled"@.len());
}

} // verus!
