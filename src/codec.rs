//! The binary wire encoding of a [`Packet`]: little-endian fixed-width
//! integers, variant tags as `u32` in declaration order, booleans as one byte
//! (0 or 1), and byte strings as a `u64` length followed by their bytes.
use vstd::prelude::*;
use vstd::bytes::*;
use vstd::utf8::*;
use vstd::slice::{slice_subrange, slice_to_vec};
use crate::protocol::{Event, EventView, MouseButton, Packet, PacketView};

verus! {

broadcast use vstd::seq::group_seq_axioms;

// ---------------------------------------------------------------- encoding

pub open spec fn enc_i32(v: i32) -> Seq<u8> {
    spec_u32_to_le_bytes(v as u32)
}

pub open spec fn enc_bool(v: bool) -> Seq<u8> {
    seq![if v { 1u8 } else { 0u8 }]
}

pub open spec fn enc_bytes(b: Seq<u8>) -> Seq<u8> {
    spec_u64_to_le_bytes(b.len() as u64) + b
}

pub open spec fn enc_str(s: Seq<char>) -> Seq<u8> {
    enc_bytes(encode_utf8(s))
}

/// Wire tag of each button. Tags are append-only: a new button gets the
/// next unused number.
pub open spec fn button_tag(b: MouseButton) -> u32 {
    match b {
        MouseButton::Left => 0,
        MouseButton::Middle => 1,
        MouseButton::Right => 2,
    }
}

/// Wire tag of each event variant, append-only like [`button_tag`].
pub open spec fn event_tag(e: EventView) -> u32 {
    match e {
        EventView::MouseMotion { .. } => 0,
        EventView::MouseWheel { .. } => 1,
        EventView::MouseButton { .. } => 2,
        EventView::Keyboard { .. } => 3,
        EventView::TextClipboard { .. } => 4,
        EventView::HtmlClipboard { .. } => 5,
        EventView::ImageClipboard { .. } => 6,
    }
}

pub open spec fn enc_event_body(e: EventView) -> Seq<u8> {
    match e {
        EventView::MouseMotion { dx, dy } => enc_i32(dx) + enc_i32(dy),
        EventView::MouseWheel { dx, dy } => enc_i32(dx) + enc_i32(dy),
        EventView::MouseButton { button, pressed } => spec_u32_to_le_bytes(button_tag(button))
            + enc_bool(pressed),
        EventView::Keyboard { key, pressed } => spec_u16_to_le_bytes(key) + enc_bool(pressed),
        EventView::TextClipboard { content } => enc_str(content),
        EventView::HtmlClipboard { html, plain } => enc_str(html) + enc_str(plain),
        EventView::ImageClipboard { png } => enc_bytes(png),
    }
}

pub open spec fn enc_event(e: EventView) -> Seq<u8> {
    spec_u32_to_le_bytes(event_tag(e)) + enc_event_body(e)
}

/// The encoding of a packet: its id, then its event.
pub open spec fn enc_packet(p: PacketView) -> Seq<u8> {
    spec_u64_to_le_bytes(p.id) + enc_event(p.event)
}

/// Every byte string of the event has a length that its `u64` prefix can
/// hold; this is true of every value that exists in memory.
pub open spec fn event_fits(e: EventView) -> bool {
    match e {
        EventView::TextClipboard { content } => encode_utf8(content).len() <= u64::MAX,
        EventView::HtmlClipboard { html, plain } => encode_utf8(html).len() <= u64::MAX
            && encode_utf8(plain).len() <= u64::MAX,
        EventView::ImageClipboard { png } => png.len() <= u64::MAX,
        _ => true,
    }
}

// ---------------------------------------------------------------- decoding
// Each reader takes the whole input and a position, and returns the value
// read there with the position just after it.

pub open spec fn dec_u16(b: Seq<u8>, pos: int) -> Option<(u16, int)> {
    if 0 <= pos && pos + 2 <= b.len() {
        Some((spec_u16_from_le_bytes(b.subrange(pos, pos + 2)), pos + 2))
    } else {
        None
    }
}

pub open spec fn dec_u32(b: Seq<u8>, pos: int) -> Option<(u32, int)> {
    if 0 <= pos && pos + 4 <= b.len() {
        Some((spec_u32_from_le_bytes(b.subrange(pos, pos + 4)), pos + 4))
    } else {
        None
    }
}

pub open spec fn dec_u64(b: Seq<u8>, pos: int) -> Option<(u64, int)> {
    if 0 <= pos && pos + 8 <= b.len() {
        Some((spec_u64_from_le_bytes(b.subrange(pos, pos + 8)), pos + 8))
    } else {
        None
    }
}

pub open spec fn dec_i32(b: Seq<u8>, pos: int) -> Option<(i32, int)> {
    match dec_u32(b, pos) {
        Some((v, p)) => Some((v as i32, p)),
        None => None,
    }
}

pub open spec fn dec_bool(b: Seq<u8>, pos: int) -> Option<(bool, int)> {
    if 0 <= pos < b.len() && b[pos] <= 1 {
        Some((b[pos] == 1, pos + 1))
    } else {
        None
    }
}

pub open spec fn dec_bytes(b: Seq<u8>, pos: int) -> Option<(Seq<u8>, int)> {
    match dec_u64(b, pos) {
        Some((n, p)) => if p + n <= b.len() {
            Some((b.subrange(p, p + n), p + n))
        } else {
            None
        },
        None => None,
    }
}

pub open spec fn dec_str(b: Seq<u8>, pos: int) -> Option<(Seq<char>, int)> {
    match dec_bytes(b, pos) {
        Some((s, p)) => if valid_utf8(s) {
            Some((decode_utf8(s), p))
        } else {
            None
        },
        None => None,
    }
}

pub open spec fn button_of_tag(t: u32) -> Option<MouseButton> {
    if t == 0 {
        Some(MouseButton::Left)
    } else if t == 1 {
        Some(MouseButton::Middle)
    } else if t == 2 {
        Some(MouseButton::Right)
    } else {
        None
    }
}

pub open spec fn dec_event_body(tag: u32, b: Seq<u8>, p: int) -> Option<(EventView, int)> {
    if tag == 0 || tag == 1 {
        match dec_i32(b, p) {
            Some((dx, p1)) => match dec_i32(b, p1) {
                Some((dy, p2)) => if tag == 0 {
                    Some((EventView::MouseMotion { dx, dy }, p2))
                } else {
                    Some((EventView::MouseWheel { dx, dy }, p2))
                },
                None => None,
            },
            None => None,
        }
    } else if tag == 2 {
        match dec_u32(b, p) {
            Some((t, p1)) => match button_of_tag(t) {
                Some(button) => match dec_bool(b, p1) {
                    Some((pressed, p2)) => Some((EventView::MouseButton { button, pressed }, p2)),
                    None => None,
                },
                None => None,
            },
            None => None,
        }
    } else if tag == 3 {
        match dec_u16(b, p) {
            Some((key, p1)) => match dec_bool(b, p1) {
                Some((pressed, p2)) => Some((EventView::Keyboard { key, pressed }, p2)),
                None => None,
            },
            None => None,
        }
    } else if tag == 4 {
        match dec_str(b, p) {
            Some((content, p1)) => Some((EventView::TextClipboard { content }, p1)),
            None => None,
        }
    } else if tag == 5 {
        match dec_str(b, p) {
            Some((html, p1)) => match dec_str(b, p1) {
                Some((plain, p2)) => Some((EventView::HtmlClipboard { html, plain }, p2)),
                None => None,
            },
            None => None,
        }
    } else if tag == 6 {
        match dec_bytes(b, p) {
            Some((png, p1)) => Some((EventView::ImageClipboard { png }, p1)),
            None => None,
        }
    } else {
        None
    }
}

pub open spec fn dec_event(b: Seq<u8>, pos: int) -> Option<(EventView, int)> {
    match dec_u32(b, pos) {
        Some((tag, p)) => dec_event_body(tag, b, p),
        None => None,
    }
}

/// The packet that a byte string holds: `None` when it is truncated, holds
/// an unknown tag or an invalid value, or has bytes left over.
pub open spec fn dec_packet(b: Seq<u8>) -> Option<PacketView> {
    match dec_u64(b, 0) {
        Some((id, p)) => match dec_event(b, p) {
            Some((e, q)) => if q == b.len() {
                Some(PacketView { id, event: e })
            } else {
                None
            },
            None => None,
        },
        None => None,
    }
}

// ---------------------------------------------------------------- round trip

/// `s` stands in `b` at position `pos`.
pub open spec fn occurs_at(b: Seq<u8>, pos: int, s: Seq<u8>) -> bool {
    0 <= pos && pos + s.len() <= b.len() && b.subrange(pos, pos + s.len()) == s
}

proof fn lemma_occurs_split(b: Seq<u8>, pos: int, x: Seq<u8>, y: Seq<u8>)
    requires
        occurs_at(b, pos, x + y),
    ensures
        occurs_at(b, pos, x),
        occurs_at(b, pos + x.len(), y),
{
    let whole = b.subrange(pos, pos + x.len() + y.len());
    assert forall|i: int| 0 <= i < x.len() implies b.subrange(pos, pos + x.len())[i] == x[i] by {
        assert(whole[i] == (x + y)[i]);
    }
    assert(b.subrange(pos, pos + x.len()) =~= x);
    assert forall|i: int| 0 <= i < y.len() implies b.subrange(
        pos + x.len(),
        pos + x.len() + y.len(),
    )[i] == y[i] by {
        assert(whole[x.len() + i] == (x + y)[x.len() + i]);
    }
    assert(b.subrange(pos + x.len(), pos + x.len() + y.len()) =~= y);
}

proof fn lemma_dec_u16(b: Seq<u8>, pos: int, v: u16)
    requires
        occurs_at(b, pos, spec_u16_to_le_bytes(v)),
    ensures
        dec_u16(b, pos) == Some((v, pos + 2)),
        spec_u16_to_le_bytes(v).len() == 2,
{
    lemma_auto_spec_u16_to_from_le_bytes();
}

proof fn lemma_dec_u32(b: Seq<u8>, pos: int, v: u32)
    requires
        occurs_at(b, pos, spec_u32_to_le_bytes(v)),
    ensures
        dec_u32(b, pos) == Some((v, pos + 4)),
        spec_u32_to_le_bytes(v).len() == 4,
{
    lemma_auto_spec_u32_to_from_le_bytes();
}

proof fn lemma_dec_u64(b: Seq<u8>, pos: int, v: u64)
    requires
        occurs_at(b, pos, spec_u64_to_le_bytes(v)),
    ensures
        dec_u64(b, pos) == Some((v, pos + 8)),
        spec_u64_to_le_bytes(v).len() == 8,
{
    lemma_auto_spec_u64_to_from_le_bytes();
}

proof fn lemma_dec_i32(b: Seq<u8>, pos: int, v: i32)
    requires
        occurs_at(b, pos, enc_i32(v)),
    ensures
        dec_i32(b, pos) == Some((v, pos + 4)),
        enc_i32(v).len() == 4,
{
    lemma_dec_u32(b, pos, v as u32);
    assert((v as u32) as i32 == v) by (bit_vector);
}

proof fn lemma_dec_bool(b: Seq<u8>, pos: int, v: bool)
    requires
        occurs_at(b, pos, enc_bool(v)),
    ensures
        dec_bool(b, pos) == Some((v, pos + 1)),
{
    assert(b[pos] == b.subrange(pos, pos + 1)[0]);
}

proof fn lemma_dec_bytes(b: Seq<u8>, pos: int, data: Seq<u8>)
    requires
        occurs_at(b, pos, enc_bytes(data)),
        data.len() <= u64::MAX,
    ensures
        dec_bytes(b, pos) == Some((data, pos + enc_bytes(data).len())),
{
    let n = data.len() as u64;
    lemma_occurs_split(b, pos, spec_u64_to_le_bytes(n), data);
    lemma_dec_u64(b, pos, n);
}

proof fn lemma_dec_str(b: Seq<u8>, pos: int, s: Seq<char>)
    requires
        occurs_at(b, pos, enc_str(s)),
        encode_utf8(s).len() <= u64::MAX,
    ensures
        dec_str(b, pos) == Some((s, pos + enc_str(s).len())),
{
    lemma_dec_bytes(b, pos, encode_utf8(s));
    encode_utf8_valid_utf8(s);
    encode_utf8_decode_utf8(s);
}

proof fn lemma_dec_event(b: Seq<u8>, pos: int, e: EventView)
    requires
        occurs_at(b, pos, enc_event(e)),
        event_fits(e),
    ensures
        dec_event(b, pos) == Some((e, pos + enc_event(e).len())),
{
    let tag = event_tag(e);
    let body = enc_event_body(e);
    lemma_occurs_split(b, pos, spec_u32_to_le_bytes(tag), body);
    lemma_dec_u32(b, pos, tag);
    let p = pos + 4;
    match e {
        EventView::MouseMotion { dx, dy } | EventView::MouseWheel { dx, dy } => {
            lemma_occurs_split(b, p, enc_i32(dx), enc_i32(dy));
            lemma_dec_i32(b, p, dx);
            lemma_dec_i32(b, p + 4, dy);
        },
        EventView::MouseButton { button, pressed } => {
            lemma_occurs_split(b, p, spec_u32_to_le_bytes(button_tag(button)), enc_bool(pressed));
            lemma_dec_u32(b, p, button_tag(button));
            lemma_dec_bool(b, p + 4, pressed);
        },
        EventView::Keyboard { key, pressed } => {
            lemma_occurs_split(b, p, spec_u16_to_le_bytes(key), enc_bool(pressed));
            lemma_dec_u16(b, p, key);
            lemma_dec_bool(b, p + 2, pressed);
        },
        EventView::TextClipboard { content } => {
            lemma_dec_str(b, p, content);
        },
        EventView::HtmlClipboard { html, plain } => {
            lemma_occurs_split(b, p, enc_str(html), enc_str(plain));
            lemma_dec_str(b, p, html);
            lemma_dec_str(b, p + enc_str(html).len(), plain);
        },
        EventView::ImageClipboard { png } => {
            lemma_dec_bytes(b, p, png);
        },
    }
}

/// Decoding the encoding of a packet gives the packet back.
pub proof fn lemma_round_trip(p: PacketView)
    requires
        event_fits(p.event),
    ensures
        dec_packet(enc_packet(p)) == Some(p),
{
    let b = enc_packet(p);
    assert(b.subrange(0, b.len() as int) =~= b);
    lemma_occurs_split(b, 0, spec_u64_to_le_bytes(p.id), enc_event(p.event));
    lemma_dec_u64(b, 0, p.id);
    lemma_dec_event(b, 8, p.event);
}

// ---------------------------------------------------------------- truncation

/// `b` is a prefix of `c`.
pub open spec fn is_prefix(b: Seq<u8>, c: Seq<u8>) -> bool {
    b.len() <= c.len() && forall|i: int| 0 <= i < b.len() ==> b[i] == c[i]
}

proof fn lemma_prefix_range(b: Seq<u8>, c: Seq<u8>, lo: int, hi: int)
    requires
        is_prefix(b, c),
        0 <= lo <= hi <= b.len(),
    ensures
        b.subrange(lo, hi) == c.subrange(lo, hi),
{
    assert(b.subrange(lo, hi) =~= c.subrange(lo, hi));
}

proof fn lemma_prefix_bytes(b: Seq<u8>, c: Seq<u8>, pos: int)
    requires
        is_prefix(b, c),
        dec_bytes(b, pos) is Some,
    ensures
        dec_bytes(c, pos) == dec_bytes(b, pos),
        dec_bytes(b, pos).unwrap().1 <= b.len(),
{
    lemma_prefix_range(b, c, pos, pos + 8);
    let (n, p) = dec_u64(b, pos).unwrap();
    lemma_prefix_range(b, c, p, p + n);
}

proof fn lemma_prefix_str(b: Seq<u8>, c: Seq<u8>, pos: int)
    requires
        is_prefix(b, c),
        dec_str(b, pos) is Some,
    ensures
        dec_str(c, pos) == dec_str(b, pos),
        dec_str(b, pos).unwrap().1 <= b.len(),
{
    lemma_prefix_bytes(b, c, pos);
}

/// A reading that succeeds on a prefix reads the same on the whole.
proof fn lemma_prefix_event(b: Seq<u8>, c: Seq<u8>, pos: int)
    requires
        is_prefix(b, c),
        dec_event(b, pos) is Some,
    ensures
        dec_event(c, pos) == dec_event(b, pos),
        dec_event(b, pos).unwrap().1 <= b.len(),
{
    lemma_prefix_range(b, c, pos, pos + 4);
    let (tag, p) = dec_u32(b, pos).unwrap();
    if tag == 0 || tag == 1 {
        lemma_prefix_range(b, c, p, p + 4);
        lemma_prefix_range(b, c, p + 4, p + 8);
    } else if tag == 2 {
        lemma_prefix_range(b, c, p, p + 4);
    } else if tag == 3 {
        lemma_prefix_range(b, c, p, p + 2);
    } else if tag == 4 {
        lemma_prefix_str(b, c, p);
    } else if tag == 5 {
        lemma_prefix_str(b, c, p);
        let p1 = dec_str(b, p).unwrap().1;
        lemma_prefix_str(b, c, p1);
    } else if tag == 6 {
        lemma_prefix_bytes(b, c, p);
    }
}

/// A truncated encoding never decodes: every strict prefix of a packet's
/// encoding is rejected.
pub proof fn lemma_truncated_rejected(p: PacketView, k: int)
    requires
        event_fits(p.event),
        0 <= k < enc_packet(p).len(),
    ensures
        dec_packet(enc_packet(p).take(k)) is None,
{
    let c = enc_packet(p);
    let b = c.take(k);
    if dec_packet(b) is Some {
        lemma_prefix_range(b, c, 0, 8);
        let q = dec_u64(b, 0).unwrap().1;
        lemma_prefix_event(b, c, q);
        assert(c.subrange(0, c.len() as int) =~= c);
        lemma_occurs_split(c, 0, spec_u64_to_le_bytes(p.id), enc_event(p.event));
        lemma_dec_u64(c, 0, p.id);
        lemma_dec_event(c, 8, p.event);
    }
}

// ---------------------------------------------------------------- executable

/// A byte string that is not the encoding of any packet: it is truncated,
/// holds an unknown tag or an invalid value, or has bytes left over.
#[derive(Debug, Clone, Copy, PartialEq, Eq, Structural)]
pub struct DecodeError;

/// Relies on `String::from_utf8`: it succeeds exactly on valid UTF-8, and the
/// string then holds the characters that those bytes encode.
#[verifier::external_body]
fn string_from_utf8(bytes: Vec<u8>) -> (r: Option<String>)
    ensures
        r is Some <==> valid_utf8(bytes@),
        r matches Some(s) ==> s@ == decode_utf8(bytes@),
{
    String::from_utf8(bytes).ok()
}

fn put(out: &mut Vec<u8>, piece: Vec<u8>)
    ensures
        final(out)@ == old(out)@ + piece@,
{
    let mut piece = piece;
    out.append(&mut piece);
}

fn put_bool(out: &mut Vec<u8>, v: bool)
    ensures
        final(out)@ == old(out)@ + enc_bool(v),
{
    out.push(if v { 1u8 } else { 0u8 });
    assert(final(out)@ =~= old(out)@ + enc_bool(v));
}

fn put_bytes(out: &mut Vec<u8>, b: &[u8])
    ensures
        final(out)@ == old(out)@ + enc_bytes(b@),
{
    let n = b.len() as u64;
    put(out, u64_to_le_bytes(n));
    put(out, slice_to_vec(b));
    assert(final(out)@ =~= old(out)@ + enc_bytes(b@));
}

fn put_str(out: &mut Vec<u8>, s: &String)
    ensures
        final(out)@ == old(out)@ + enc_str(s@),
{
    put_bytes(out, s.as_str().as_bytes());
}

fn put_event(out: &mut Vec<u8>, e: &Event)
    ensures
        final(out)@ == old(out)@ + enc_event(e@),
{
    let ghost start = out@;
    let tag: u32 = match e {
        Event::MouseMotion { .. } => 0,
        Event::MouseWheel { .. } => 1,
        Event::MouseButton { .. } => 2,
        Event::Keyboard { .. } => 3,
        Event::TextClipboard { .. } => 4,
        Event::HtmlClipboard { .. } => 5,
        Event::ImageClipboard { .. } => 6,
    };
    put(out, u32_to_le_bytes(tag));
    let ghost head = out@;
    match e {
        Event::MouseMotion { dx, dy } | Event::MouseWheel { dx, dy } => {
            put(out, u32_to_le_bytes(*dx as u32));
            put(out, u32_to_le_bytes(*dy as u32));
        },
        Event::MouseButton { button, pressed } => {
            let t: u32 = match button {
                MouseButton::Left => 0,
                MouseButton::Middle => 1,
                MouseButton::Right => 2,
            };
            put(out, u32_to_le_bytes(t));
            put_bool(out, *pressed);
        },
        Event::Keyboard { key, pressed } => {
            put(out, u16_to_le_bytes(*key));
            put_bool(out, *pressed);
        },
        Event::TextClipboard { content } => {
            put_str(out, content);
        },
        Event::HtmlClipboard { html, plain } => {
            put_str(out, html);
            put_str(out, plain);
        },
        Event::ImageClipboard { png } => {
            put_bytes(out, png.as_slice());
        },
    }
    assert(out@ =~= head + enc_event_body(e@));
    assert(out@ =~= start + enc_event(e@));
}

fn read_u16(buf: &[u8], pos: usize) -> (r: Option<(u16, usize)>)
    ensures
        match r {
            Some((v, p)) => dec_u16(buf@, pos as int) == Some((v, p as int)),
            None => dec_u16(buf@, pos as int) is None,
        },
{
    if pos <= buf.len() && buf.len() - pos >= 2 {
        Some((u16_from_le_bytes(slice_subrange(buf, pos, pos + 2)), pos + 2))
    } else {
        None
    }
}

fn read_u32(buf: &[u8], pos: usize) -> (r: Option<(u32, usize)>)
    ensures
        match r {
            Some((v, p)) => dec_u32(buf@, pos as int) == Some((v, p as int)),
            None => dec_u32(buf@, pos as int) is None,
        },
{
    if pos <= buf.len() && buf.len() - pos >= 4 {
        Some((u32_from_le_bytes(slice_subrange(buf, pos, pos + 4)), pos + 4))
    } else {
        None
    }
}

fn read_u64(buf: &[u8], pos: usize) -> (r: Option<(u64, usize)>)
    ensures
        match r {
            Some((v, p)) => dec_u64(buf@, pos as int) == Some((v, p as int)),
            None => dec_u64(buf@, pos as int) is None,
        },
{
    if pos <= buf.len() && buf.len() - pos >= 8 {
        Some((u64_from_le_bytes(slice_subrange(buf, pos, pos + 8)), pos + 8))
    } else {
        None
    }
}

fn read_i32(buf: &[u8], pos: usize) -> (r: Option<(i32, usize)>)
    ensures
        match r {
            Some((v, p)) => dec_i32(buf@, pos as int) == Some((v, p as int)),
            None => dec_i32(buf@, pos as int) is None,
        },
{
    match read_u32(buf, pos) {
        Some((v, p)) => Some((v as i32, p)),
        None => None,
    }
}

fn read_bool(buf: &[u8], pos: usize) -> (r: Option<(bool, usize)>)
    ensures
        match r {
            Some((v, p)) => dec_bool(buf@, pos as int) == Some((v, p as int)),
            None => dec_bool(buf@, pos as int) is None,
        },
{
    if pos < buf.len() && buf[pos] <= 1 {
        Some((buf[pos] == 1, pos + 1))
    } else {
        None
    }
}

fn read_bytes(buf: &[u8], pos: usize) -> (r: Option<(Vec<u8>, usize)>)
    ensures
        match r {
            Some((v, p)) => dec_bytes(buf@, pos as int) == Some((v@, p as int)),
            None => dec_bytes(buf@, pos as int) is None,
        },
{
    match read_u64(buf, pos) {
        Some((n, p)) => {
            if n <= (buf.len() - p) as u64 {
                let end = p + n as usize;
                Some((slice_to_vec(slice_subrange(buf, p, end)), end))
            } else {
                None
            }
        },
        None => None,
    }
}

fn read_str(buf: &[u8], pos: usize) -> (r: Option<(String, usize)>)
    ensures
        match r {
            Some((v, p)) => dec_str(buf@, pos as int) == Some((v@, p as int)),
            None => dec_str(buf@, pos as int) is None,
        },
{
    match read_bytes(buf, pos) {
        Some((b, p)) => match string_from_utf8(b) {
            Some(s) => Some((s, p)),
            None => None,
        },
        None => None,
    }
}

fn read_event(buf: &[u8], pos: usize) -> (r: Option<(Event, usize)>)
    ensures
        match r {
            Some((e, p)) => dec_event(buf@, pos as int) == Some((e@, p as int)),
            None => dec_event(buf@, pos as int) is None,
        },
{
    let (tag, p) = match read_u32(buf, pos) {
        Some(x) => x,
        None => return None,
    };
    if tag == 0 || tag == 1 {
        let (dx, p1) = match read_i32(buf, p) {
            Some(x) => x,
            None => return None,
        };
        let (dy, p2) = match read_i32(buf, p1) {
            Some(x) => x,
            None => return None,
        };
        if tag == 0 {
            Some((Event::MouseMotion { dx, dy }, p2))
        } else {
            Some((Event::MouseWheel { dx, dy }, p2))
        }
    } else if tag == 2 {
        let (t, p1) = match read_u32(buf, p) {
            Some(x) => x,
            None => return None,
        };
        let button = if t == 0 {
            MouseButton::Left
        } else if t == 1 {
            MouseButton::Middle
        } else if t == 2 {
            MouseButton::Right
        } else {
            return None;
        };
        let (pressed, p2) = match read_bool(buf, p1) {
            Some(x) => x,
            None => return None,
        };
        Some((Event::MouseButton { button, pressed }, p2))
    } else if tag == 3 {
        let (key, p1) = match read_u16(buf, p) {
            Some(x) => x,
            None => return None,
        };
        let (pressed, p2) = match read_bool(buf, p1) {
            Some(x) => x,
            None => return None,
        };
        Some((Event::Keyboard { key, pressed }, p2))
    } else if tag == 4 {
        let (content, p1) = match read_str(buf, p) {
            Some(x) => x,
            None => return None,
        };
        Some((Event::TextClipboard { content }, p1))
    } else if tag == 5 {
        let (html, p1) = match read_str(buf, p) {
            Some(x) => x,
            None => return None,
        };
        let (plain, p2) = match read_str(buf, p1) {
            Some(x) => x,
            None => return None,
        };
        Some((Event::HtmlClipboard { html, plain }, p2))
    } else if tag == 6 {
        let (png, p1) = match read_bytes(buf, p) {
            Some(x) => x,
            None => return None,
        };
        Some((Event::ImageClipboard { png }, p1))
    } else {
        None
    }
}

impl Packet {
    /// The wire encoding of this packet.
    pub fn to_vec(&self) -> (r: Vec<u8>)
        ensures
            r@ == enc_packet(self@),
    {
        let mut out = u64_to_le_bytes(self.id);
        put_event(&mut out, &self.event);
        out
    }

    /// The packet that `slice` encodes; `DecodeError` exactly when it
    /// encodes none.
    pub fn from_slice(slice: &[u8]) -> (r: Result<Packet, DecodeError>)
        ensures
            match r {
                Ok(p) => dec_packet(slice@) == Some(p@),
                Err(_) => dec_packet(slice@) is None,
            },
    {
        let (id, p) = match read_u64(slice, 0) {
            Some(x) => x,
            None => return Err(DecodeError),
        };
        let (event, q) = match read_event(slice, p) {
            Some(x) => x,
            None => return Err(DecodeError),
        };
        if q == slice.len() {
            Ok(Packet { id, event })
        } else {
            Err(DecodeError)
        }
    }
}

} // verus!
