//! Clipboard handling on the sending side: which of the offered formats to
//! read, when a clipboard state is new, and the packet that carries it.
use vstd::prelude::*;
use crate::protocol::{Event, Packet};

verus! {

/// Clipboard content read from the desktop.
#[derive(Debug)]
pub enum ClipboardType {
    PngImage(Vec<u8>),
    Utf8Text(String),
    HtmlText { html: String, plain: String },
}

/// Which formats to read from the clipboard.
#[derive(Debug, PartialEq, Eq)]
pub enum ClipboardPlan {
    /// Read the PNG image.
    Image,
    /// Read the HTML, and the plain text from `text_target`.
    Html { text_target: String },
    /// Read the plain text from `text_target`.
    Text { text_target: String },
    /// Nothing the receiving side can use is offered.
    Nothing,
}

pub open spec fn png_target() -> Seq<char> {
    "image/png"@
}

pub open spec fn html_target() -> Seq<char> {
    "text/html"@
}

/// Plain-text formats, most preferred first.
pub open spec fn text_targets() -> Seq<Seq<char>> {
    seq!["UTF8_STRING"@, "text/plain;charset=utf-8"@, "text/plain;charset=UTF-8"@, "TEXT"@]
}

pub open spec fn offers(targets: Seq<String>, name: Seq<char>) -> bool {
    exists|i: int| 0 <= i < targets.len() && (#[trigger] targets[i])@ == name
}

/// The most preferred plain-text format on offer.
pub open spec fn first_text(targets: Seq<String>) -> Option<Seq<char>> {
    if offers(targets, text_targets()[0]) {
        Some(text_targets()[0])
    } else if offers(targets, text_targets()[1]) {
        Some(text_targets()[1])
    } else if offers(targets, text_targets()[2]) {
        Some(text_targets()[2])
    } else if offers(targets, text_targets()[3]) {
        Some(text_targets()[3])
    } else {
        None
    }
}

/// An image wins; otherwise plain text, with HTML beside it when offered.
/// HTML without any plain text is not sent.
pub open spec fn spec_plan(targets: Seq<String>, r: ClipboardPlan) -> bool {
    if offers(targets, png_target()) {
        r is Image
    } else {
        match first_text(targets) {
            None => r is Nothing,
            Some(t) => if offers(targets, html_target()) {
                r matches ClipboardPlan::Html { text_target } && text_target@ == t
            } else {
                r matches ClipboardPlan::Text { text_target } && text_target@ == t
            },
        }
    }
}

fn offered(targets: &Vec<String>, name: &str) -> (r: bool)
    ensures
        r == offers(targets@, name@),
{
    let owned = name.to_owned();
    let mut i: usize = 0;
    while i < targets.len()
        invariant
            i <= targets@.len(),
            owned@ == name@,
            forall|k: int| 0 <= k < i ==> (#[trigger] targets@[k])@ != name@,
        decreases targets@.len() - i,
    {
        if targets[i] == owned {
            assert(targets@[i as int]@ == name@);
            return true;
        }
        i = i + 1;
    }
    false
}

/// Chooses what to read, given the formats the clipboard offers.
pub fn plan_clipboard(targets: &Vec<String>) -> (r: ClipboardPlan)
    ensures
        spec_plan(targets@, r),
{
    if offered(targets, "image/png") {
        return ClipboardPlan::Image;
    }
    let html = offered(targets, "text/html");
    let text = if offered(targets, "UTF8_STRING") {
        "UTF8_STRING"
    } else if offered(targets, "text/plain;charset=utf-8") {
        "text/plain;charset=utf-8"
    } else if offered(targets, "text/plain;charset=UTF-8") {
        "text/plain;charset=UTF-8"
    } else if offered(targets, "TEXT") {
        "TEXT"
    } else {
        return ClipboardPlan::Nothing;
    };
    let text_target = text.to_owned();
    if html {
        ClipboardPlan::Html { text_target }
    } else {
        ClipboardPlan::Text { text_target }
    }
}

/// The packet that carries clipboard content: id 0, outside the sequence.
pub fn clipboard_packet(content: ClipboardType) -> (r: Packet)
    ensures
        r.id == 0,
        match content {
            ClipboardType::PngImage(png) => r.event == Event::ImageClipboard { png },
            ClipboardType::Utf8Text(text) => r.event == Event::TextClipboard { content: text },
            ClipboardType::HtmlText { html, plain } => r.event == Event::HtmlClipboard { html, plain },
        },
{
    let event = match content {
        ClipboardType::PngImage(png) => Event::ImageClipboard { png },
        ClipboardType::Utf8Text(text) => Event::TextClipboard { content: text },
        ClipboardType::HtmlText { html, plain } => Event::HtmlClipboard { html, plain },
    };
    Packet { id: 0, event }
}

/// Remembers the fingerprint of the clipboard state last sent.
#[derive(Debug, Clone, Copy, PartialEq, Eq, Structural)]
pub struct ClipboardSync {
    pub last: u64,
}

impl ClipboardSync {
    pub fn new() -> (r: Self)
        ensures
            r.last == 0,
    {
        ClipboardSync { last: 0 }
    }

    /// Whether to send a clipboard state with this fingerprint. A state
    /// without one is always sent; one equal to the last is not.
    pub fn observe(&mut self, fingerprint: Option<u64>) -> (send: bool)
        ensures
            match fingerprint {
                None => send && final(self).last == old(self).last,
                Some(f) => send == (f != old(self).last) && final(self).last == f,
            },
    {
        match fingerprint {
            None => true,
            Some(f) => {
                if f == self.last {
                    false
                } else {
                    self.last = f;
                    true
                }
            },
        }
    }
}

} // verus!
