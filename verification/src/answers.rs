//! The two ends of the prompter contract fit together: an answer that the
//! dialog gives passes the checks that the backend makes.

use vstd::prelude::*;

use crate::file_chooser::{ChoiceState, Model};
use crate::prompter::{BytePath, Choice, FileChooserMode, FileChooserRequest, FileChooserResponse};

verus! {

/// An absolute path without NUL.
pub open spec fn sound_path(path: Seq<u8>) -> bool {
    crate::paths::rooted(path) && !path.contains(0)
}

/// All paths of a list are absolute and without NUL.
pub open spec fn sound_paths(paths: Seq<Seq<u8>>) -> bool {
    forall|i: int| 0 <= i < paths.len() ==> sound_path(#[trigger] paths[i])
}

proof fn sound_paths_pass(paths: Seq<BytePath>, k: int)
    requires
        sound_paths(crate::prompter::byte_paths(paths)),
        0 <= k,
    ensures
        crate::prompter::selected_paths_problem(paths, k) is None,
    decreases paths.len() - k,
{
    if k < paths.len() {
        assert(crate::prompter::byte_paths(paths)[k] == paths[k]@);
        sound_paths_pass(paths, k + 1);
    }
}

/// A name put behind a sound folder is a sound path, when the name itself is
/// relative and without NUL.
pub proof fn joined_is_sound(dir: Seq<u8>, name: Seq<u8>)
    requires
        sound_path(dir),
        !crate::paths::rooted(name),
        !name.contains(0),
    ensures
        sound_path(crate::paths::joined(dir, name)),
{
    let path = crate::paths::joined(dir, name);
    let n = path.len() - name.len();
    assert(path[0] == dir[0]);
    assert forall|i: int| 0 <= i < path.len() implies path[i] != 0 by {
        if i < dir.len() {
            assert(path[i] == dir[i]);
            assert(dir.contains(dir[i]));
        } else if i >= n {
            assert(path[i] == name[i - n]);
            assert(name.contains(name[i - n]));
        }
    }
}

proof fn number_bytes(n: nat)
    ensures
        !vstd::utf8::encode_utf8("("@ + crate::text::decimal(n) + ")"@).contains(0),
{
    reveal_strlit("(");
    reveal_strlit(")");
    crate::text::decimals_are_digits(n);
    let s = "("@ + crate::text::decimal(n) + ")"@;
    let d = crate::text::decimal(n);
    assert forall|i: int| 0 <= i < s.len() implies '\0' < #[trigger] s[i] < '\x7f' by {
        if 0 < i <= d.len() {
            assert(s[i] == d[i - 1]);
        }
    }
    assert(vstd::utf8::is_ascii_chars(s));
    vstd::utf8::is_ascii_chars_encode_utf8(s);
    let b = vstd::utf8::encode_utf8(s);
    assert forall|i: int| 0 <= i < b.len() implies b[i] != 0 by {
        assert(b[i] == s[i] as u8);
    }
}

proof fn basename_is_relative(name: Seq<u8>)
    requires
        crate::prompter::is_basename(name),
    ensures
        name.len() > 0,
        !crate::paths::rooted(name),
{
    let parts = crate::paths::parts(name);
    let marks = crate::paths::marks(name);
    assert(parts[0] == marks[0].part);
}

proof fn last_dot_range(name: Seq<u8>)
    ensures
        -1 <= crate::prompter::last_dot(name) < name.len(),
    decreases name.len(),
{
    if name.len() > 0 && name.last() != crate::paths::DOT {
        last_dot_range(name.drop_last());
    }
}

proof fn numbered_name_is_plain(name: Seq<u8>, n: nat)
    requires
        crate::prompter::basename_problem(name) is None,
    ensures
        !crate::paths::rooted(crate::prompter::numbered_name(name, n)),
        !crate::prompter::numbered_name(name, n).contains(0),
{
    basename_is_relative(name);
    number_bytes(n);
    last_dot_range(name);
    let dot = crate::prompter::last_dot(name);
    let (stem, extension) = crate::prompter::name_pieces(name);
    let number = vstd::utf8::encode_utf8("("@ + crate::text::decimal(n) + ")"@);
    let out = crate::prompter::numbered_name(name, n);
    if n > 0 {
        assert(stem.len() > 0);
        assert(stem[0] == name[0]);
        assert(out[0] == name[0]);
        assert forall|i: int| 0 <= i < out.len() implies out[i] != 0 by {
            if i < stem.len() {
                assert(out[i] == name[i]);
                assert(name.contains(name[i]));
            } else if i < stem.len() + number.len() {
                assert(out[i] == number[i - stem.len()]);
                assert(number.contains(number[i - stem.len()]));
            } else if i > stem.len() + number.len() {
                let e = extension->0;
                let k = i - stem.len() - number.len() - 1;
                assert(out[i] == e[k]);
                assert(e[k] == name[dot + 1 + k]);
                assert(name.contains(name[dot + 1 + k]));
            }
        }
    }
}

/// The paths handed out for suggested names in a sound folder are sound.
pub proof fn assigned_paths_are_sound<F: Fn(&Vec<u8>) -> bool>(
    occupied: F,
    folder: Seq<u8>,
    files: Seq<BytePath>,
    paths: Seq<Seq<u8>>,
)
    requires
        sound_path(folder),
        crate::prompter::assigned(occupied, folder, files, paths),
    ensures
        sound_paths(paths),
{
    assert forall|k: int| 0 <= k < paths.len() implies sound_path(#[trigger] paths[k]) by {
        let name = files[k]@;
        assert(crate::prompter::placed(occupied, paths.take(k), folder, name, paths[k]));
        let n = choose|n: nat| #[trigger]
            crate::prompter::first_free(occupied, paths.take(k), folder, name, n, paths[k]);
        numbered_name_is_plain(name, n);
        joined_is_sound(folder, crate::prompter::numbered_name(name, n));
    }
}

proof fn plain_name_bytes(name: Seq<char>)
    requires
        crate::file_chooser::is_filename(name),
    ensures
        !crate::paths::rooted(vstd::utf8::encode_utf8(name)),
        !vstd::utf8::encode_utf8(name).contains(0),
    decreases name.len(),
{
    encoding_keeps_out(name, '/');
    encoding_keeps_out(name, '\0');
    let b = vstd::utf8::encode_utf8(name);
    if b.len() > 0 {
        assert(b.contains(b[0]));
    }
}

/// An ASCII character occurs in the encoding only if it occurs in the text.
pub proof fn encoding_keeps_out(s: Seq<char>, c: char)
    requires
        !s.contains(c),
        (c as u32) < 0x80,
    ensures
        !vstd::utf8::encode_utf8(s).contains(c as u8),
    decreases s.len(),
{
    if s.len() > 0 {
        let head = s[0];
        let rest = s.drop_first();
        assert(s.contains(head));
        assert forall|i: int| 0 <= i < rest.len() implies rest[i] != c by {
            assert(rest[i] == s[i + 1]);
            assert(s.contains(s[i + 1]));
        }
        encoding_keeps_out(rest, c);
        vstd::utf8::char_is_scalar(head);
        vstd::utf8::char_u32_cast(head, head as u32);
        vstd::utf8::char_u32_cast(c, c as u32);
        assert(head as u32 != c as u32);
        scalar_keeps_out(head as u32, c as u8);
        let e = vstd::utf8::encode_scalar(head as u32);
        let b = vstd::utf8::encode_utf8(s);
        let t = vstd::utf8::encode_utf8(rest);
        assert(b == e + t);
        assert forall|i: int| 0 <= i < b.len() implies b[i] != c as u8 by {
            if i < e.len() {
                assert(b[i] == e[i]);
            } else {
                assert(b[i] == t[i - e.len()]);
                assert(t.contains(t[i - e.len()]));
            }
        }
    }
}

proof fn scalar_keeps_out(scalar: u32, c: u8)
    requires
        vstd::utf8::is_scalar(scalar),
        c < 0x80,
        scalar != c as u32,
    ensures
        forall|i: int|
            0 <= i < vstd::utf8::encode_scalar(scalar).len() ==> #[trigger] vstd::utf8::encode_scalar(
                scalar,
            )[i] != c,
{
    if vstd::utf8::has_width_1_encoding(scalar) {
        assert(scalar <= 0x7f ==> (scalar & 0x7F) as u8 as u32 == scalar) by (bit_vector);
    } else {
        assert(scalar <= 0x10ffff ==> 0xC0u8 | ((scalar >> 6) & 0x1F) as u8 >= 0x80u8)
            by (bit_vector);
        assert(0xE0u8 | ((scalar >> 12) & 0x0F) as u8 >= 0x80u8) by (bit_vector);
        assert(0xF0u8 | ((scalar >> 18) & 0x07) as u8 >= 0x80u8) by (bit_vector);
        assert(0x80u8 | (scalar & 0x3F) as u8 >= 0x80u8) by (bit_vector);
        assert(0x80u8 | ((scalar >> 6) & 0x3F) as u8 >= 0x80u8) by (bit_vector);
        assert(0x80u8 | ((scalar >> 12) & 0x3F) as u8 >= 0x80u8) by (bit_vector);
    }
}

proof fn fitting_answers_pass(
    answers: Seq<(String, String)>,
    choices: Seq<Choice>,
    values: Seq<ChoiceState>,
    k: int,
)
    requires
        0 <= k,
        answers.len() == choices.len(),
        values.len() == choices.len(),
        crate::file_chooser::choices_fit(choices, values),
        forall|i: int|
            0 <= i < answers.len() ==> (#[trigger] answers[i]).0@ == choices[i].id@ && answers[i].1@
                == crate::file_chooser::choice_text(choices[i], values[i]),
    ensures
        crate::prompter::answers_problem(answers, choices, k) is None,
    decreases answers.len() - k,
{
    if k < answers.len() {
        fitting_answers_pass(answers, choices, values, k + 1);
        assert(answers[k].0@ == choices[k].id@);
        assert(crate::file_chooser::choice_fits(choices[k], values[k]));
        if choices[k].options@.len() > 0 {
            let index = values[k]->Options_0;
            let at = if index < 0 {
                0
            } else {
                index as int
            };
            assert(choices[k].options@[at].0@ == answers[k].1@);
        }
    }
}

/// The paths that a sound state accepts are sound.
pub proof fn accepted_paths_are_sound(m: Model)
    requires
        sound_path(m.dir),
        sound_paths(m.selected),
        m.acceptable() is Some,
    ensures
        sound_paths(m.acceptable()->0),
        m.acceptable()->0.len() > 0,
{
    if m.request.mode == FileChooserMode::SaveFile {
        let name = crate::text::trimmed(m.name);
        plain_name_bytes(name);
        joined_is_sound(m.dir, vstd::utf8::encode_utf8(name));
    }
}

/// Whatever the dialog answers in a valid state passes the backend's checks,
/// provided that the browsed folder and the selected paths are absolute and
/// without NUL: the right number of sound paths, a filter that was offered,
/// and a permitted value for every choice.
pub proof fn answers_pass_validation<F: Fn(&Vec<u8>) -> bool>(
    m: Model,
    occupied: F,
    result: Result<Seq<Seq<u8>>, Seq<char>>,
    response: FileChooserResponse,
)
    requires
        m.valid(),
        sound_path(m.dir),
        sound_paths(m.selected),
        m.acceptable() is Some,
        m.request.mode == FileChooserMode::SaveFiles ==> m.request.files@.len() > 0,
        crate::prompter::finished(m.request, m.acceptable()->0, occupied, result),
        crate::file_chooser::answer_of(response) == m.answer_for(result),
    ensures
        response.problem_for(m.request) is None,
{
    reveal(crate::file_chooser::offer_kept);
    accepted_paths_are_sound(m);
    let accepted = m.acceptable()->0;
    if let Ok(paths) = result {
        if m.request.mode == FileChooserMode::SaveFiles {
            assert(accepted[0] == m.dir);
            assigned_paths_are_sound(occupied, m.dir, m.request.files@, paths);
        }
        let given = response->paths;
        let choices = response->choices;
        assert(crate::prompter::byte_paths(given@) == paths);
        sound_paths_pass(given@, 0);
        assert(given@.len() == paths.len());
        let pairs = choices@.map_values(|c: (String, String)| (c.0@, c.1@));
        assert(pairs == m.collected_choices());
        assert(pairs.len() == choices@.len());
        assert(m.collected_choices().len() == m.request.choices@.len());
        assert forall|i: int| 0 <= i < choices@.len() implies (#[trigger] choices@[i]).0@
            == m.request.choices@[i].id@ && choices@[i].1@ == crate::file_chooser::choice_text(
            m.request.choices@[i],
            m.choices[i],
        ) by {
            assert(pairs[i] == (choices@[i].0@, choices@[i].1@));
        }
        fitting_answers_pass(choices@, m.request.choices@, m.choices, 0);
        if let Some(filter) = response->current_filter {
            let index = if m.filter_index < 0 {
                0
            } else {
                m.filter_index as int
            };
            assert(filter@ == m.filters[index]);
            if m.request.filters@.len() != 0 {
                assert(crate::file_chooser::filter_views(m.request.filters@)[index]
                    == m.request.filters@[index]@);
            }
            assert(crate::prompter::offers_filter(m.request, filter@));
        }
    }
}

} // verus!
