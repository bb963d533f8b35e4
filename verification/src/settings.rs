//! The desktop settings that applications read.
//!
//! The only key is the color scheme of the appearance namespace.

use vstd::prelude::*;
use vstd::string::*;

use crate::schema::ColorScheme;
use crate::text::same_text;

verus! {

/// The appearance namespace.
pub const APPEARANCE_NAMESPACE: &'static str = "org.freedesktop.appearance";

/// The key of the color scheme.
pub const COLOR_SCHEME_KEY: &'static str = "color-scheme";

/// The version of the interface.
pub const SETTINGS_VERSION: u32 = 1;

/// The time between two looks at the configuration, in seconds.
pub const WATCH_INTERVAL_SECS: u64 = 2;

/// The number of a preference: no preference, dark, light.
pub open spec fn scheme_number(configured: Option<ColorScheme>) -> u32 {
    match configured {
        Some(ColorScheme::Dark) => 1,
        Some(ColorScheme::Light) => 2,
        _ => 0,
    }
}

/// The number of the configured preference. A missing or invalid
/// configuration means no preference.
pub fn color_scheme(configured: Option<ColorScheme>) -> (number: u32)
    ensures
        number == scheme_number(configured),
{
    match configured {
        Some(ColorScheme::Dark) => 1,
        Some(ColorScheme::Light) => 2,
        _ => 0,
    }
}

/// The value of one setting, or `None` when it is not offered.
pub fn lookup(configured: Option<ColorScheme>, namespace: &str, key: &str) -> (value: Option<u32>)
    ensures
        value == (if namespace@ == APPEARANCE_NAMESPACE@ && key@ == COLOR_SCHEME_KEY@ {
            Some(scheme_number(configured))
        } else {
            None
        }),
{
    if same_text(namespace, APPEARANCE_NAMESPACE) && same_text(key, COLOR_SCHEME_KEY) {
        Some(color_scheme(configured))
    } else {
        None
    }
}

/// The error for a setting that is not offered.
pub fn unknown_setting(namespace: &str, key: &str) -> (m: String)
    ensures
        m@ == "unknown setting "@ + namespace@ + " "@ + key@,
{
    let mut m = "unknown setting ".to_owned();
    m.append(namespace);
    m.append(" ");
    m.append(key);
    m
}

/// The namespaces include one.
pub open spec fn names(namespaces: Seq<String>, wanted: Seq<char>) -> bool {
    exists|i: int| 0 <= i < namespaces.len() && (#[trigger] namespaces[i])@ == wanted
}

/// The color scheme, when the appearance namespace is among those asked for.
/// An empty list asks for every namespace; unknown ones are skipped.
pub fn read_all(configured: Option<ColorScheme>, namespaces: &Vec<String>) -> (value: Option<u32>)
    ensures
        value == (if namespaces@.len() == 0 || names(namespaces@, APPEARANCE_NAMESPACE@) {
            Some(scheme_number(configured))
        } else {
            None
        }),
{
    if namespaces.len() == 0 {
        return Some(color_scheme(configured));
    }
    let mut i: usize = 0;
    while i < namespaces.len()
        invariant
            i <= namespaces@.len(),
            forall|k: int| 0 <= k < i ==> (#[trigger] namespaces@[k])@ != APPEARANCE_NAMESPACE@,
        decreases namespaces@.len() - i,
    {
        if same_text(namespaces[i].as_str(), APPEARANCE_NAMESPACE) {
            assert(names(namespaces@, APPEARANCE_NAMESPACE@)) by {
                assert(namespaces@[i as int]@ == APPEARANCE_NAMESPACE@);
            }
            return Some(color_scheme(configured));
        }
        i = i + 1;
    }
    None
}

/// What was last seen of the configuration.
#[derive(Debug, Clone, Copy, PartialEq, Eq)]
pub struct Watcher {
    /// When the file was last changed, if there is one. A time before the
    /// epoch is negative.
    pub modified: Option<i128>,
    pub scheme: u32,
}

impl Watcher {
    /// Looks at when the file was changed: whether its content is to be read
    /// again.
    pub fn look(&mut self, modified: Option<i128>) -> (read: bool)
        ensures
            read == (modified != old(self).modified),
            *final(self) == (Watcher { modified, ..*old(self) }),
    {
        let same: bool = match (modified, self.modified) {
            (Some(a), Some(b)) => a == b,
            (None, None) => true,
            _ => false,
        };
        self.modified = modified;
        !same
    }

    /// Takes the value that was read: whether a change is to be announced.
    pub fn sample(&mut self, scheme: u32) -> (announce: bool)
        ensures
            announce == (scheme != old(self).scheme),
            *final(self) == (Watcher { scheme, ..*old(self) }),
    {
        let announce: bool = scheme != self.scheme;
        self.scheme = scheme;
        announce
    }
}

} // verus!
