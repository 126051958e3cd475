//! CAN identifiers and frames, and the raw-mode line that reports a frame.
use vstd::prelude::*;
use crate::text::{hex_bytes, hex_fixed, signed_text, push_all, push_hex, push_signed, lemma_hex_bytes_len, lemma_hex_fixed_len, lemma_signed_text_len};

verus! {

/// A CAN identifier: 11 bits for a standard frame, 29 for an extended one.
#[derive(Debug, Clone, Copy, PartialEq, Eq, Structural)]
pub enum CanId {
    Standard(u16),
    Extended(u32),
}

impl CanId {
    /// The value fits the identifier's width.
    pub open spec fn wf(self) -> bool {
        match self {
            CanId::Standard(v) => v <= 0x7FF,
            CanId::Extended(v) => v <= 0x1FFF_FFFF,
        }
    }
}

/// Relies on embedded_can::StandardId::new: `Some` exactly when `raw` is at most 0x7FF,
/// holding `raw` unchanged.
#[verifier::external_body]
pub(crate) fn standard_id(raw: u16) -> (r: Option<CanId>)
    ensures
        r == (if raw <= 0x7FF { Some(CanId::Standard(raw)) } else { None::<CanId> }),
{
    match embedded_can::StandardId::new(raw) {
        Some(id) => Some(CanId::Standard(id.as_raw())),
        None => None,
    }
}

/// Relies on embedded_can::ExtendedId::new: `Some` exactly when `raw` is at most 0x1FFF_FFFF,
/// holding `raw` unchanged.
#[verifier::external_body]
pub(crate) fn extended_id(raw: u32) -> (r: Option<CanId>)
    ensures
        r == (if raw <= 0x1FFF_FFFF { Some(CanId::Extended(raw)) } else { None::<CanId> }),
{
    match embedded_can::ExtendedId::new(raw) {
        Some(id) => Some(CanId::Extended(id.as_raw())),
        None => None,
    }
}

/// A frame handed over by the bus layer: an identifier and up to eight data bytes.
#[derive(Debug, PartialEq, Eq)]
pub struct Frame {
    id: CanId,
    data: Vec<u8>,
}

/// What a frame is.
pub struct FrameView {
    pub id: CanId,
    pub data: Seq<u8>,
}

impl FrameView {
    pub open spec fn wf(self) -> bool {
        self.id.wf() && self.data.len() <= 8
    }
}

impl View for Frame {
    type V = FrameView;

    closed spec fn view(&self) -> FrameView {
        FrameView { id: self.id, data: self.data@ }
    }
}

impl Frame {
    #[verifier::type_invariant]
    spec fn inv(self) -> bool {
        self.id.wf() && self.data@.len() <= 8
    }

    /// A frame of `id` carrying `data`; `None` where the identifier is out of
    /// range or there are more than eight bytes.
    pub fn new(id: CanId, data: &[u8]) -> (r: Option<Frame>)
        ensures
            r is Some <==> id.wf() && data@.len() <= 8,
            r matches Some(f) ==> f@ == (FrameView { id, data: data@ }),
    {
        let ok = match id {
            CanId::Standard(v) => v <= 0x7FF,
            CanId::Extended(v) => v <= 0x1FFF_FFFF,
        };
        if !ok || data.len() > 8 {
            return None;
        }
        let mut bytes: Vec<u8> = Vec::new();
        push_all(&mut bytes, data);
        assert(bytes@ =~= data@);
        Some(Frame { id, data: bytes })
    }

    pub fn id(&self) -> (r: CanId)
        ensures
            r == self@.id,
    {
        self.id
    }

    /// The data length code: the number of data bytes.
    pub fn dlc(&self) -> (r: usize)
        ensures
            r == self@.data.len(),
            r <= 8,
    {
        proof {
            use_type_invariant(self);
        }
        self.data.len()
    }

    pub fn data(&self) -> (r: &[u8])
        ensures
            r@ == self@.data,
    {
        self.data.as_slice()
    }
}

/// A point in time as whole seconds and the milliseconds past them.
#[derive(Debug, Clone, Copy, PartialEq, Eq, Structural)]
pub struct Timestamp {
    pub secs: i64,
    pub millis: i64,
}

/// The longest line that reports a frame.
pub const MAX_LINE: usize = 128;

pub open spec fn frame_prefix() -> Seq<u8> {
    seq!['<' as u8, ' ' as u8, 'f' as u8, 'r' as u8, 'a' as u8, 'm' as u8, 'e' as u8, ' ' as u8]
}

pub open spec fn id_text(id: CanId) -> Seq<u8> {
    match id {
        CanId::Standard(v) => hex_fixed(v as nat, 3),
        CanId::Extended(v) => hex_fixed(v as nat, 8),
    }
}

/// `< frame <ID> <secs>.<millis> <hex> >`: the identifier in 3 or 8 uppercase
/// hex digits, the time in decimal, the data as uppercase hex pairs.
pub open spec fn frame_text(f: FrameView, now: Timestamp) -> Seq<u8> {
    frame_prefix() + id_text(f.id) + seq![' ' as u8] + signed_text(now.secs as int) + seq![
        '.' as u8,
    ] + signed_text(now.millis as int) + seq![' ' as u8] + hex_bytes(f.data) + seq![
        ' ' as u8,
        '>' as u8,
    ]
}

/// Every frame's line fits the bound.
pub proof fn lemma_frame_text_len(f: FrameView, now: Timestamp)
    requires
        f.wf(),
    ensures
        frame_text(f, now).len() <= MAX_LINE,
{
    lemma_hex_fixed_len(0, 0);
    match f.id {
        CanId::Standard(v) => lemma_hex_fixed_len(v as nat, 3),
        CanId::Extended(v) => lemma_hex_fixed_len(v as nat, 8),
    }
    lemma_signed_text_len(now.secs as int);
    lemma_signed_text_len(now.millis as int);
    lemma_hex_bytes_len(f.data);
}

/// The raw-mode line that reports `frame` at `now`.
pub fn frame_line(frame: &Frame, now: Timestamp) -> (r: Vec<u8>)
    ensures
        r@ == frame_text(frame@, now),
        r@.len() <= MAX_LINE,
{
    proof {
        use_type_invariant(frame);
        lemma_frame_text_len(frame@, now);
    }
    let mut out: Vec<u8> = Vec::new();
    push_all(
        &mut out,
        &['<' as u8, ' ' as u8, 'f' as u8, 'r' as u8, 'a' as u8, 'm' as u8, 'e' as u8, ' ' as u8],
    );
    match frame.id {
        CanId::Standard(v) => push_hex(&mut out, v as u32, 3),
        CanId::Extended(v) => push_hex(&mut out, v, 8),
    }
    out.push(' ' as u8);
    push_signed(&mut out, now.secs);
    out.push('.' as u8);
    push_signed(&mut out, now.millis);
    out.push(' ' as u8);
    let ghost head = out@;
    let mut k: usize = 0;
    while k < frame.data.len()
        invariant
            k <= frame.data@.len(),
            out@ == head + hex_bytes(frame.data@.subrange(0, k as int)),
        decreases frame.data@.len() - k,
    {
        push_hex(&mut out, frame.data[k] as u32, 2);
        proof {
            let d = frame.data@.subrange(0, k + 1);
            assert(d.drop_last() =~= frame.data@.subrange(0, k as int));
        }
        k += 1;
    }
    assert(frame.data@.subrange(0, k as int) =~= frame.data@);
    out.push(' ' as u8);
    out.push('>' as u8);
    assert(out@ =~= frame_text(frame@, now));
    out
}

} // verus!
