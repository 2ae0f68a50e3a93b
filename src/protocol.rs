use vstd::prelude::*;

verus! {

/// A pointer button as carried on the wire.
#[derive(Debug, Clone, Copy, PartialEq, Eq, Structural)]
pub enum MouseButton {
    Left,
    Middle,
    Right,
}

/// The priority class of an event: it selects the delivery lane.
#[derive(Debug, Clone, Copy, PartialEq, Eq, Structural)]
pub enum EventKind {
    Mouse,
    Keyboard,
    Misc,
}

/// One input or clipboard event.
#[derive(Debug)]
pub enum Event {
    /// Relative pointer motion, in pixels.
    MouseMotion { dx: i32, dy: i32 },
    /// Scroll, in whole notches.
    MouseWheel { dx: i32, dy: i32 },
    MouseButton { button: MouseButton, pressed: bool },
    /// A key, by its protocol-neutral code.
    Keyboard { key: u16, pressed: bool },
    TextClipboard { content: String },
    HtmlClipboard { html: String, plain: String },
    /// PNG-encoded image.
    ImageClipboard { png: Vec<u8> },
}

/// The mathematical value of an [`Event`]: strings as their characters,
/// byte buffers as their contents.
pub enum EventView {
    MouseMotion { dx: i32, dy: i32 },
    MouseWheel { dx: i32, dy: i32 },
    MouseButton { button: MouseButton, pressed: bool },
    Keyboard { key: u16, pressed: bool },
    TextClipboard { content: Seq<char> },
    HtmlClipboard { html: Seq<char>, plain: Seq<char> },
    ImageClipboard { png: Seq<u8> },
}

impl View for Event {
    type V = EventView;

    open spec fn view(&self) -> EventView {
        match self {
            Event::MouseMotion { dx, dy } => EventView::MouseMotion { dx: *dx, dy: *dy },
            Event::MouseWheel { dx, dy } => EventView::MouseWheel { dx: *dx, dy: *dy },
            Event::MouseButton { button, pressed } => EventView::MouseButton {
                button: *button,
                pressed: *pressed,
            },
            Event::Keyboard { key, pressed } => EventView::Keyboard { key: *key, pressed: *pressed },
            Event::TextClipboard { content } => EventView::TextClipboard { content: content@ },
            Event::HtmlClipboard { html, plain } => EventView::HtmlClipboard {
                html: html@,
                plain: plain@,
            },
            Event::ImageClipboard { png } => EventView::ImageClipboard { png: png@ },
        }
    }
}

/// Motion and wheel events are the high-frequency ones.
pub open spec fn spec_is_high_freq(e: EventView) -> bool {
    e is MouseMotion || e is MouseWheel
}

/// Pointer events go to the mouse lane, key events to the keyboard lane,
/// everything else to the misc lane.
pub open spec fn spec_kind(e: EventView) -> EventKind {
    match e {
        EventView::MouseMotion { .. } | EventView::MouseWheel { .. } | EventView::MouseButton {
            ..
        } => EventKind::Mouse,
        EventView::Keyboard { .. } => EventKind::Keyboard,
        _ => EventKind::Misc,
    }
}

impl Event {
    pub fn is_high_freq(&self) -> (r: bool)
        ensures
            r == spec_is_high_freq(self@),
    {
        match self {
            Event::MouseMotion { .. } | Event::MouseWheel { .. } => true,
            _ => false,
        }
    }

    pub fn kind(&self) -> (r: EventKind)
        ensures
            r == spec_kind(self@),
    {
        match self {
            Event::MouseMotion { .. } | Event::MouseWheel { .. } | Event::MouseButton { .. } => {
                EventKind::Mouse
            },
            Event::Keyboard { .. } => EventKind::Keyboard,
            _ => EventKind::Misc,
        }
    }
}

/// The unit of wire transfer: a sequence id and one event.
#[derive(Debug)]
pub struct Packet {
    pub id: u64,
    pub event: Event,
}

pub struct PacketView {
    pub id: u64,
    pub event: EventView,
}

impl View for Packet {
    type V = PacketView;

    open spec fn view(&self) -> PacketView {
        PacketView { id: self.id, event: self.event@ }
    }
}

} // verus!
