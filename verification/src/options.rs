//! Option dictionaries of portal calls.
//!
//! An option value is one of the plain types that a call reads, or something
//! else; a value of the wrong type counts as missing.

use vstd::prelude::*;
use vstd::string::*;

use crate::textmap::TextMap;

verus! {

/// One option value.
pub enum OptionValue {
    Bool(bool),
    U32(u32),
    Text(String),
    Other,
}

/// An option dictionary.
pub type Options = TextMap<OptionValue>;

/// The boolean under a key, if there is one.
pub open spec fn bool_at(options: Map<Seq<char>, OptionValue>, key: Seq<char>) -> Option<bool> {
    if options.dom().contains(key) {
        match options[key] {
            OptionValue::Bool(value) => Some(value),
            _ => None,
        }
    } else {
        None
    }
}

/// The number under a key, if there is one.
pub open spec fn u32_at(options: Map<Seq<char>, OptionValue>, key: Seq<char>) -> Option<u32> {
    if options.dom().contains(key) {
        match options[key] {
            OptionValue::U32(value) => Some(value),
            _ => None,
        }
    } else {
        None
    }
}

/// The text under a key, if there is one.
pub open spec fn text_at(options: Map<Seq<char>, OptionValue>, key: Seq<char>) -> Option<Seq<char>> {
    if options.dom().contains(key) {
        match options[key] {
            OptionValue::Text(value) => Some(value@),
            _ => None,
        }
    } else {
        None
    }
}

/// The text of an optional string.
pub open spec fn opt_text(s: Option<String>) -> Option<Seq<char>> {
    match s {
        Some(s) => Some(s@),
        None => None,
    }
}

/// Reads a boolean option.
pub fn get_bool(options: &Options, key: &str) -> (value: Option<bool>)
    ensures
        value == bool_at(options@, key@),
{
    match options.get(key) {
        Some(OptionValue::Bool(value)) => Some(*value),
        _ => None,
    }
}

/// Reads a numeric option.
pub fn get_u32(options: &Options, key: &str) -> (value: Option<u32>)
    ensures
        value == u32_at(options@, key@),
{
    match options.get(key) {
        Some(OptionValue::U32(value)) => Some(*value),
        _ => None,
    }
}

/// Reads a text option.
pub fn get_text(options: &Options, key: &str) -> (value: Option<String>)
    ensures
        opt_text(value) == text_at(options@, key@),
{
    match options.get(key) {
        Some(OptionValue::Text(value)) => Some(value.clone()),
        _ => None,
    }
}

/// The pairs of texts among these pairs; of two with the same key the later
/// one counts.
pub open spec fn text_entries(pairs: Seq<(OptionValue, OptionValue)>) -> Map<Seq<char>, Seq<char>>
    decreases pairs.len(),
{
    if pairs.len() == 0 {
        Map::empty()
    } else {
        let before = text_entries(pairs.drop_last());
        match pairs.last() {
            (OptionValue::Text(key), OptionValue::Text(value)) => before.insert(key@, value@),
            _ => before,
        }
    }
}

/// Reads a dictionary of texts. Entries that are anything else are ignored.
pub fn text_pairs(pairs: &Vec<(OptionValue, OptionValue)>) -> (map: TextMap<String>)
    ensures
        map@.map_values(|value: String| value@) == text_entries(pairs@),
{
    let mut map: TextMap<String> = TextMap::new();
    let mut i: usize = 0;
    assert(pairs@.take(0) =~= Seq::<(OptionValue, OptionValue)>::empty());
    assert(map@.map_values(|value: String| value@) =~= text_entries(pairs@.take(0)));
    while i < pairs.len()
        invariant
            i <= pairs@.len(),
            map@.map_values(|value: String| value@) == text_entries(pairs@.take(i as int)),
        decreases pairs@.len() - i,
    {
        let ghost before = map@;
        assert(pairs@.take(i + 1).drop_last() =~= pairs@.take(i as int));
        assert(pairs@.take(i + 1).last() == pairs@[i as int]);
        if let (OptionValue::Text(key), OptionValue::Text(value)) = &pairs[i] {
            map.insert(key.as_str(), value.clone());
            assert(map@.map_values(|value: String| value@) =~= before.map_values(
                |value: String| value@,
            ).insert(key@, value@));
        }
        i = i + 1;
    }
    assert(pairs@.take(i as int) =~= pairs@);
    map
}

} // verus!
