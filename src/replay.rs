//! Translation of received events into local input injections and
//! clipboard writes.
use vstd::prelude::*;
use crate::keymap::{key_table, lookup_key, KeyCodes, KeySource};
use crate::protocol::{Event, MouseButton};

verus! {

/// The platform whose native key codes are injected.
#[derive(Debug, Clone, Copy, PartialEq, Eq, Structural)]
pub enum Platform {
    /// X11 key codes.
    Linux,
    Mac,
    /// Scan codes, which the injector maps to virtual keys.
    Windows,
}

/// One thing to do on the local machine.
#[derive(Debug, PartialEq, Eq)]
pub enum ReplayAction {
    MoveRelative { dx: i32, dy: i32 },
    ScrollX(i32),
    ScrollY(i32),
    Button { button: MouseButton, pressed: bool },
    Key { code: u16, pressed: bool },
    SetText(String),
    SetHtml { html: String, plain: String },
    /// Decode the PNG and put the image on the clipboard.
    SetImage(Vec<u8>),
}

/// The native code of a key on `platform`, given its table entry.
pub open spec fn native_code(c: KeyCodes, platform: Platform) -> u16 {
    match platform {
        Platform::Linux => c.xkb,
        Platform::Mac => c.mac,
        Platform::Windows => c.win,
    }
}

/// A key event, given the table entry of its protocol-neutral code; a code
/// the table lacks is dropped.
pub fn replay_key(codes: Option<KeyCodes>, pressed: bool, platform: Platform) -> (r: Option<ReplayAction>)
    ensures
        match codes {
            None => r is None,
            Some(c) => r == Some(ReplayAction::Key { code: native_code(c, platform), pressed }),
        },
{
    match codes {
        None => None,
        Some(c) => {
            let code = match platform {
                Platform::Linux => c.xkb,
                Platform::Mac => c.mac,
                Platform::Windows => c.win,
            };
            Some(ReplayAction::Key { code, pressed })
        },
    }
}

/// What a received event asks of the local machine, in order. A scroll
/// axis without movement is left out.
pub open spec fn spec_replay(event: Event, platform: Platform) -> Seq<ReplayAction> {
    match event {
        Event::MouseMotion { dx, dy } => seq![ReplayAction::MoveRelative { dx, dy }],
        Event::MouseWheel { dx, dy } => {
            let xs = if dx != 0 {
                seq![ReplayAction::ScrollX(dx)]
            } else {
                Seq::empty()
            };
            if dy != 0 {
                xs.push(ReplayAction::ScrollY(dy))
            } else {
                xs
            }
        },
        Event::MouseButton { button, pressed } => seq![ReplayAction::Button { button, pressed }],
        Event::Keyboard { key, pressed } => match key_table(KeySource::Win(key)) {
            Some(c) => seq![ReplayAction::Key { code: native_code(c, platform), pressed }],
            None => Seq::empty(),
        },
        Event::TextClipboard { content } => seq![ReplayAction::SetText(content)],
        Event::HtmlClipboard { html, plain } => seq![ReplayAction::SetHtml { html, plain }],
        Event::ImageClipboard { png } => seq![ReplayAction::SetImage(png)],
    }
}

pub fn replay(event: Event, platform: Platform) -> (r: Vec<ReplayAction>)
    ensures
        r@ == spec_replay(event, platform),
{
    let mut r: Vec<ReplayAction> = Vec::new();
    match event {
        Event::MouseMotion { dx, dy } => r.push(ReplayAction::MoveRelative { dx, dy }),
        Event::MouseWheel { dx, dy } => {
            if dx != 0 {
                r.push(ReplayAction::ScrollX(dx));
            }
            if dy != 0 {
                r.push(ReplayAction::ScrollY(dy));
            }
        },
        Event::MouseButton { button, pressed } => r.push(ReplayAction::Button { button, pressed }),
        Event::Keyboard { key, pressed } => {
            if let Some(a) = replay_key(lookup_key(KeySource::Win(key)), pressed, platform) {
                r.push(a);
            }
        },
        Event::TextClipboard { content } => r.push(ReplayAction::SetText(content)),
        Event::HtmlClipboard { html, plain } => r.push(ReplayAction::SetHtml { html, plain }),
        Event::ImageClipboard { png } => r.push(ReplayAction::SetImage(png)),
    }
    assert(r@ =~= spec_replay(event, platform));
    r
}

} // verus!
