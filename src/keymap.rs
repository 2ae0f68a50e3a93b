//! Lookups in the static table that relates a key's codes on each platform.
use vstd::prelude::*;

verus! {

/// The codes of one key on each platform, and its modifier bit (0 for a
/// key that is no modifier).
#[derive(Debug, Clone, Copy, PartialEq, Eq, Structural)]
pub struct KeyCodes {
    pub evdev: u16,
    pub xkb: u16,
    pub win: u16,
    pub mac: u16,
    pub modifier: u8,
}

/// A code to look a key up by.
#[derive(Debug, Clone, Copy, PartialEq, Eq, Structural)]
pub enum KeySource {
    /// Linux evdev code, as hardware input reports it.
    Evdev(u16),
    /// Windows scan code: the protocol-neutral code on the wire.
    Win(u16),
}

/// Modifier bit of the right control key, which toggles the grab.
pub const RIGHT_CONTROL: u8 = 16;

/// The table entry for a code, if the table has one.
pub uninterp spec fn key_table(source: KeySource) -> Option<KeyCodes>;

/// Relies on `keycode::KeyMap::from_key_mapping`: a lookup in a fixed table,
/// so its result depends on the code alone.
#[verifier::external_body]
pub(crate) fn lookup_key(source: KeySource) -> (r: Option<KeyCodes>)
    ensures
        r == key_table(source),
{
    let mapping = match source {
        KeySource::Evdev(c) => keycode::KeyMapping::Evdev(c),
        KeySource::Win(c) => keycode::KeyMapping::Win(c),
    };
    keycode::KeyMap::from_key_mapping(mapping).ok().map(|k| KeyCodes {
        evdev: k.evdev,
        xkb: k.xkb,
        win: k.win,
        mac: k.mac,
        modifier: k.modifier.map_or(0, |m| m.bits()),
    })
}

} // verus!
