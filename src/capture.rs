//! Decisions of the capture loop: which hardware input is forwarded, with
//! which sequence id, and when the devices are grabbed or released.
use vstd::prelude::*;
use crate::coalesce::{motion_step, wheel_step, MotionAccumulator, WheelAccumulator};
use crate::keymap::{key_table, lookup_key, KeyCodes, KeySource, RIGHT_CONTROL};
use crate::protocol::{Event, MouseButton, Packet};

verus! {

/// Linux button codes of the three forwarded buttons.
pub const BTN_LEFT: u32 = 272;
pub const BTN_RIGHT: u32 = 273;
pub const BTN_MIDDLE: u32 = 274;

/// One hardware input, as the capture loop hands it over.
#[derive(Debug, Clone, Copy, PartialEq, Eq, Structural)]
pub enum CaptureInput {
    /// A key, by its evdev code.
    Key { code: u32, pressed: bool },
    /// Unaccelerated motion, in sub-pixel units.
    Motion { dx: i32, dy: i32 },
    /// A pointer button, by its Linux code.
    Button { code: u32, pressed: bool },
    /// Scroll, in wheel sub-units; 0 on an axis the event does not have.
    Scroll { dx: i32, dy: i32 },
}

/// What one input asks of the capture loop: a packet to send, a grab or a
/// release of all devices, and whether to send the clipboard.
#[derive(Debug)]
pub struct CaptureStep {
    pub packet: Option<Packet>,
    pub grab: Option<bool>,
    pub fetch_clipboard: bool,
}

/// State of one capture session.
#[derive(Debug)]
pub struct Capture {
    pub grabbed: bool,
    /// Id of the next forwarded packet.
    pub next_id: u64,
    /// Whether a clipboard source is configured.
    pub clipboard_enabled: bool,
    pub motion: MotionAccumulator,
    pub wheel: WheelAccumulator,
}

/// Ids wrap around after the largest `u64`.
pub open spec fn next_seq(id: u64) -> u64 {
    if id == u64::MAX {
        0
    } else {
        (id + 1) as u64
    }
}

pub open spec fn button_of_code(code: u32) -> Option<MouseButton> {
    if code == BTN_LEFT {
        Some(MouseButton::Left)
    } else if code == BTN_RIGHT {
        Some(MouseButton::Right)
    } else if code == BTN_MIDDLE {
        Some(MouseButton::Middle)
    } else {
        None
    }
}

pub open spec fn no_step() -> CaptureStep {
    CaptureStep { packet: None, grab: None, fetch_clipboard: false }
}

/// Sends `e` under the next id.
pub open spec fn forward(s: Capture, e: Event) -> (Capture, CaptureStep) {
    (
        Capture { next_id: next_seq(s.next_id), ..s },
        CaptureStep {
            packet: Some(Packet { id: s.next_id, event: e }),
            grab: None,
            fetch_clipboard: false,
        },
    )
}

/// A key whose table entry is `codes`. The right control key is never
/// forwarded: its release toggles the grab, and grabbing also asks for the
/// clipboard when a source is configured. Other keys are forwarded by their
/// protocol-neutral code while grabbed; a key the table lacks is dropped.
pub open spec fn spec_key(s: Capture, codes: Option<KeyCodes>, pressed: bool) -> (Capture, CaptureStep) {
    match codes {
        None => (s, no_step()),
        Some(c) => if c.modifier == RIGHT_CONTROL {
            if pressed {
                (s, no_step())
            } else {
                (
                    Capture { grabbed: !s.grabbed, ..s },
                    CaptureStep {
                        packet: None,
                        grab: Some(!s.grabbed),
                        fetch_clipboard: !s.grabbed && s.clipboard_enabled,
                    },
                )
            }
        } else if s.grabbed {
            forward(s, Event::Keyboard { key: c.win, pressed })
        } else {
            (s, no_step())
        },
    }
}

/// Pointer input is ignored entirely while not grabbed.
pub open spec fn spec_motion(s: Capture, dx: i32, dy: i32) -> (Capture, CaptureStep) {
    if !s.grabbed {
        (s, no_step())
    } else {
        let (nx, ny, out) = motion_step(s.motion.x as int, s.motion.y as int, dx as int, dy as int);
        let s2 = Capture { motion: MotionAccumulator { x: nx as i64, y: ny as i64 }, ..s };
        match out {
            Some((ex, ey)) => forward(s2, Event::MouseMotion { dx: ex as i32, dy: ey as i32 }),
            None => (s2, no_step()),
        }
    }
}

pub open spec fn spec_scroll(s: Capture, dx: i32, dy: i32) -> (Capture, CaptureStep) {
    if !s.grabbed {
        (s, no_step())
    } else {
        let (nx, ny, out) = wheel_step(s.wheel.x as int, s.wheel.y as int, dx as int, dy as int);
        let s2 = Capture { wheel: WheelAccumulator { x: nx as i64, y: ny as i64 }, ..s };
        match out {
            Some((ex, ey)) => forward(s2, Event::MouseWheel { dx: ex as i32, dy: ey as i32 }),
            None => (s2, no_step()),
        }
    }
}

pub open spec fn spec_button(s: Capture, code: u32, pressed: bool) -> (Capture, CaptureStep) {
    match button_of_code(code) {
        Some(button) => if s.grabbed {
            forward(s, Event::MouseButton { button, pressed })
        } else {
            (s, no_step())
        },
        None => (s, no_step()),
    }
}

/// One input of any kind; a key code beyond `u16` is dropped.
pub open spec fn spec_handle(s: Capture, input: CaptureInput) -> (Capture, CaptureStep) {
    match input {
        CaptureInput::Key { code, pressed } => if code > u16::MAX {
            (s, no_step())
        } else {
            spec_key(s, key_table(KeySource::Evdev(code as u16)), pressed)
        },
        CaptureInput::Motion { dx, dy } => spec_motion(s, dx, dy),
        CaptureInput::Button { code, pressed } => spec_button(s, code, pressed),
        CaptureInput::Scroll { dx, dy } => spec_scroll(s, dx, dy),
    }
}

impl Capture {
    pub open spec fn wf(&self) -> bool {
        self.motion.wf() && self.wheel.wf()
    }

    pub fn new(clipboard_enabled: bool) -> (r: Self)
        ensures
            r.wf(),
            !r.grabbed,
            r.next_id == 0,
            r.clipboard_enabled == clipboard_enabled,
            r.motion.x == 0 && r.motion.y == 0,
            r.wheel.x == 0 && r.wheel.y == 0,
    {
        Capture {
            grabbed: false,
            next_id: 0,
            clipboard_enabled,
            motion: MotionAccumulator::new(),
            wheel: WheelAccumulator::new(),
        }
    }

    fn send(&mut self, event: Event) -> (r: CaptureStep)
        ensures
            (*final(self), r) == forward(*old(self), event),
    {
        let id = self.next_id;
        self.next_id = if id == u64::MAX {
            0
        } else {
            id + 1
        };
        CaptureStep { packet: Some(Packet { id, event }), grab: None, fetch_clipboard: false }
    }

    /// A key, given its table entry.
    pub fn handle_key(&mut self, codes: Option<KeyCodes>, pressed: bool) -> (r: CaptureStep)
        requires
            old(self).wf(),
        ensures
            final(self).wf(),
            (*final(self), r) == spec_key(*old(self), codes, pressed),
    {
        match codes {
            None => CaptureStep { packet: None, grab: None, fetch_clipboard: false },
            Some(c) => {
                if c.modifier == RIGHT_CONTROL {
                    if pressed {
                        CaptureStep { packet: None, grab: None, fetch_clipboard: false }
                    } else {
                        let grab = !self.grabbed;
                        self.grabbed = grab;
                        CaptureStep {
                            packet: None,
                            grab: Some(grab),
                            fetch_clipboard: grab && self.clipboard_enabled,
                        }
                    }
                } else if self.grabbed {
                    self.send(Event::Keyboard { key: c.win, pressed })
                } else {
                    CaptureStep { packet: None, grab: None, fetch_clipboard: false }
                }
            },
        }
    }

    pub fn handle_motion(&mut self, dx: i32, dy: i32) -> (r: CaptureStep)
        requires
            old(self).wf(),
        ensures
            final(self).wf(),
            (*final(self), r) == spec_motion(*old(self), dx, dy),
    {
        if !self.grabbed {
            return CaptureStep { packet: None, grab: None, fetch_clipboard: false };
        }
        match self.motion.feed(dx, dy) {
            Some((ex, ey)) => self.send(Event::MouseMotion { dx: ex, dy: ey }),
            None => CaptureStep { packet: None, grab: None, fetch_clipboard: false },
        }
    }

    pub fn handle_scroll(&mut self, dx: i32, dy: i32) -> (r: CaptureStep)
        requires
            old(self).wf(),
        ensures
            final(self).wf(),
            (*final(self), r) == spec_scroll(*old(self), dx, dy),
    {
        if !self.grabbed {
            return CaptureStep { packet: None, grab: None, fetch_clipboard: false };
        }
        match self.wheel.feed(dx, dy) {
            Some((ex, ey)) => self.send(Event::MouseWheel { dx: ex, dy: ey }),
            None => CaptureStep { packet: None, grab: None, fetch_clipboard: false },
        }
    }

    pub fn handle_button(&mut self, code: u32, pressed: bool) -> (r: CaptureStep)
        requires
            old(self).wf(),
        ensures
            final(self).wf(),
            (*final(self), r) == spec_button(*old(self), code, pressed),
    {
        let button = if code == BTN_LEFT {
            MouseButton::Left
        } else if code == BTN_RIGHT {
            MouseButton::Right
        } else if code == BTN_MIDDLE {
            MouseButton::Middle
        } else {
            return CaptureStep { packet: None, grab: None, fetch_clipboard: false };
        };
        if self.grabbed {
            self.send(Event::MouseButton { button, pressed })
        } else {
            CaptureStep { packet: None, grab: None, fetch_clipboard: false }
        }
    }

    /// One hardware input: looks keys up in the key table, then decides.
    pub fn handle(&mut self, input: CaptureInput) -> (r: CaptureStep)
        requires
            old(self).wf(),
        ensures
            final(self).wf(),
            (*final(self), r) == spec_handle(*old(self), input),
    {
        match input {
            CaptureInput::Key { code, pressed } => {
                if code > 65535 {
                    CaptureStep { packet: None, grab: None, fetch_clipboard: false }
                } else {
                    let codes = lookup_key(KeySource::Evdev(code as u16));
                    self.handle_key(codes, pressed)
                }
            },
            CaptureInput::Motion { dx, dy } => self.handle_motion(dx, dy),
            CaptureInput::Button { code, pressed } => self.handle_button(code, pressed),
            CaptureInput::Scroll { dx, dy } => self.handle_scroll(dx, dy),
        }
    }
}

/// Forwarded packets carry consecutive ids: an input either forwards one
/// packet under the session's next id and advances it by one (wrapping), or
/// forwards nothing and leaves it.
pub proof fn lemma_ids_consecutive(s: Capture, input: CaptureInput)
    ensures
        ({
            let (s2, step) = spec_handle(s, input);
            match step.packet {
                Some(p) => p.id == s.next_id && s2.next_id == next_seq(s.next_id),
                None => s2.next_id == s.next_id,
            }
        }),
{
}

} // verus!
