//! What the portal serves, and under which names.

use vstd::prelude::*;
use vstd::string::*;

verus! {

/// The well-known bus name of the portal.
pub const BUS_NAME: &'static str = "org.freedesktop.impl.portal.desktop.aegis";

/// The object path at which every interface is served.
pub const DESKTOP_PATH: &'static str = "/org/freedesktop/portal/desktop";

/// The prefix of every interface name.
pub const INTERFACE_PREFIX: &'static str = "org.freedesktop.impl.portal.";

/// The served interfaces, without their prefix. The secret interface is
/// served only when there is a vault.
pub open spec fn served(with_secrets: bool) -> Seq<Seq<char>> {
    seq!["Settings"@, "Screenshot"@, "ScreenCast"@, "Inhibit"@] + (if with_secrets {
        seq!["Secret"@]
    } else {
        Seq::empty()
    }) + seq![
        "Lockdown"@,
        "FileChooser"@,
        "Email"@,
        "AppChooser"@,
        "Notification"@,
        "Account"@,
        "DynamicLauncher"@,
        "Wallpaper"@,
    ]
}

/// The views of texts.
pub open spec fn text_views(texts: Seq<String>) -> Seq<Seq<char>> {
    texts.map_values(|t: String| t@)
}

fn add_interface(list: &mut Vec<String>, name: &str)
    ensures
        text_views(final(list)@) == text_views(old(list)@).push(INTERFACE_PREFIX@ + name@),
{
    let mut full = INTERFACE_PREFIX.to_owned();
    full.append(name);
    list.push(full);
    assert(text_views(list@) =~= text_views(old(list)@).push(INTERFACE_PREFIX@ + name@));
}

/// The names of the served interfaces.
pub fn served_interfaces(with_secrets: bool) -> (list: Vec<String>)
    ensures
        text_views(list@) == served(with_secrets).map_values(
            |name: Seq<char>| INTERFACE_PREFIX@ + name,
        ),
{
    let mut list: Vec<String> = Vec::new();
    add_interface(&mut list, "Settings");
    add_interface(&mut list, "Screenshot");
    add_interface(&mut list, "ScreenCast");
    add_interface(&mut list, "Inhibit");
    if with_secrets {
        add_interface(&mut list, "Secret");
    }
    add_interface(&mut list, "Lockdown");
    add_interface(&mut list, "FileChooser");
    add_interface(&mut list, "Email");
    add_interface(&mut list, "AppChooser");
    add_interface(&mut list, "Notification");
    add_interface(&mut list, "Account");
    add_interface(&mut list, "DynamicLauncher");
    add_interface(&mut list, "Wallpaper");
    assert(text_views(list@) =~= served(with_secrets).map_values(
        |name: Seq<char>| INTERFACE_PREFIX@ + name,
    ));
    list
}

/// What the session forbids to applications: nothing.
#[derive(Debug, Clone, Copy, PartialEq, Eq, Structural)]
pub struct Lockdown {
    pub disable_printing: bool,
    pub disable_save_to_disk: bool,
    pub disable_application_handlers: bool,
    pub disable_location: bool,
    pub disable_camera: bool,
    pub disable_microphone: bool,
    pub disable_sound_output: bool,
}

impl Default for Lockdown {
    fn default() -> (lockdown: Self)
        ensures
            lockdown == (Lockdown {
                disable_printing: false,
                disable_save_to_disk: false,
                disable_application_handlers: false,
                disable_location: false,
                disable_camera: false,
                disable_microphone: false,
                disable_sound_output: false,
            }),
    {
        Lockdown {
            disable_printing: false,
            disable_save_to_disk: false,
            disable_application_handlers: false,
            disable_location: false,
            disable_camera: false,
            disable_microphone: false,
            disable_sound_output: false,
        }
    }
}

} // verus!
