use vstd::prelude::*;
use crate::mask::{unmask, xor_mask};

verus! {

/// The kind of a frame.
#[derive(Debug, Clone, Copy, PartialEq, Eq, Structural)]
pub enum OpCode {
    Continuation,
    Text,
    Binary,
    Close,
    Ping,
    Pong,
}

/// The four-bit wire value of an opcode.
pub open spec fn opcode_bits(op: OpCode) -> u8 {
    match op {
        OpCode::Continuation => 0,
        OpCode::Text => 1,
        OpCode::Binary => 2,
        OpCode::Close => 8,
        OpCode::Ping => 9,
        OpCode::Pong => 10,
    }
}

/// The opcode with wire value `b`, if there is one.
pub open spec fn opcode_of(b: u8) -> Option<OpCode> {
    if b == 0 {
        Some(OpCode::Continuation)
    } else if b == 1 {
        Some(OpCode::Text)
    } else if b == 2 {
        Some(OpCode::Binary)
    } else if b == 8 {
        Some(OpCode::Close)
    } else if b == 9 {
        Some(OpCode::Ping)
    } else if b == 10 {
        Some(OpCode::Pong)
    } else {
        None
    }
}

/// Close, Ping and Pong are control opcodes.
pub open spec fn control(op: OpCode) -> bool {
    op == OpCode::Close || op == OpCode::Ping || op == OpCode::Pong
}

pub fn is_control(op: OpCode) -> (r: bool)
    ensures
        r == control(op),
{
    match op {
        OpCode::Close | OpCode::Ping | OpCode::Pong => true,
        _ => false,
    }
}

impl OpCode {
    pub fn from_bits(b: u8) -> (r: Option<OpCode>)
        ensures
            r == opcode_of(b),
    {
        match b {
            0 => Some(OpCode::Continuation),
            1 => Some(OpCode::Text),
            2 => Some(OpCode::Binary),
            8 => Some(OpCode::Close),
            9 => Some(OpCode::Ping),
            10 => Some(OpCode::Pong),
            _ => None,
        }
    }

    pub fn bits(self) -> (r: u8)
        ensures
            r == opcode_bits(self),
    {
        match self {
            OpCode::Continuation => 0,
            OpCode::Text => 1,
            OpCode::Binary => 2,
            OpCode::Close => 8,
            OpCode::Ping => 9,
            OpCode::Pong => 10,
        }
    }
}

/// Relies on simdutf8::basic::from_utf8: it accepts exactly the well-formed
/// UTF-8 byte sequences, as std::str::from_utf8 does.
#[verifier::external_body]
fn utf8_check(b: &[u8]) -> (r: bool)
    ensures
        r == vstd::utf8::valid_utf8(b@),
{
    simdutf8::basic::from_utf8(b).is_ok()
}

/// Whether `b` is valid UTF-8.
pub fn is_valid_utf8(b: &[u8]) -> (r: bool)
    ensures
        r == vstd::utf8::valid_utf8(b@),
{
    utf8_check(b)
}

/// A frame as a mathematical value.
pub struct FrameView {
    pub fin: bool,
    pub opcode: OpCode,
    pub mask: Option<Seq<u8>>,
    pub payload: Seq<u8>,
}

/// One WebSocket frame. Where `mask` is present on a frame that was read,
/// the payload is still masked with it; on a frame to be written, the payload
/// has been masked with it.
pub struct Frame {
    pub fin: bool,
    pub opcode: OpCode,
    pub mask: Option<[u8; 4]>,
    pub payload: Vec<u8>,
}

pub open spec fn key_view(m: Option<[u8; 4]>) -> Option<Seq<u8>> {
    match m {
        Some(k) => Some(k@),
        None => None,
    }
}

impl View for Frame {
    type V = FrameView;

    open spec fn view(&self) -> FrameView {
        FrameView {
            fin: self.fin,
            opcode: self.opcode,
            mask: key_view(self.mask),
            payload: self.payload@,
        }
    }
}

/// `n` as `k` big-endian bytes (the low `k` bytes of it).
pub open spec fn be_bytes(n: nat, k: nat) -> Seq<u8>
    decreases k,
{
    if k == 0 {
        seq![]
    } else {
        be_bytes(n / 256, (k - 1) as nat).push((n % 256) as u8)
    }
}

/// The number that the big-endian bytes `s` write.
pub open spec fn be_value(s: Seq<u8>) -> nat
    decreases s.len(),
{
    if s.len() == 0 {
        0
    } else {
        (be_value(s.drop_last()) * 256 + s.last()) as nat
    }
}

pub open spec fn pow256(k: nat) -> nat
    decreases k,
{
    if k == 0 {
        1
    } else {
        256 * pow256((k - 1) as nat)
    }
}

pub proof fn lemma_be_round_trip(n: nat, k: nat)
    requires
        n < pow256(k),
    ensures
        be_bytes(n, k).len() == k,
        be_value(be_bytes(n, k)) == n,
    decreases k,
{
    if k > 0 {
        let p = pow256((k - 1) as nat);
        assert(n / 256 < p) by (nonlinear_arith)
            requires
                n < 256 * p,
        ;
        lemma_be_round_trip(n / 256, (k - 1) as nat);
        let s = be_bytes(n / 256, (k - 1) as nat);
        assert(be_bytes(n, k).drop_last() =~= s);
        assert(n == (n / 256) * 256 + n % 256) by (nonlinear_arith);
    }
}

/// `n` as `k` big-endian bytes.
pub fn be_encode(n: u64, k: usize) -> (r: Vec<u8>)
    ensures
        r@ == be_bytes(n as nat, k as nat),
    decreases k,
{
    if k == 0 {
        Vec::new()
    } else {
        let mut v = be_encode(n / 256, k - 1);
        v.push((n % 256) as u8);
        v
    }
}

/// The second header byte and the extended length for a payload of `n`
/// bytes, with the mask bit `mbit`.
pub open spec fn length_part(mbit: u8, n: nat) -> Seq<u8> {
    if n <= 125 {
        seq![mbit | (n as u8)]
    } else if n <= 65535 {
        seq![mbit | 126u8] + be_bytes(n, 2)
    } else {
        seq![mbit | 127u8] + be_bytes(n, 8)
    }
}

pub open spec fn first_byte(fin: bool, op: OpCode) -> u8 {
    (if fin { 0x80u8 } else { 0u8 }) | opcode_bits(op)
}

/// The header of a frame: the first byte, the length and the masking key.
pub open spec fn header_of(f: FrameView) -> Seq<u8> {
    let mbit: u8 = if f.mask is Some { 0x80u8 } else { 0u8 };
    let key = match f.mask {
        Some(k) => k,
        None => seq![],
    };
    seq![first_byte(f.fin, f.opcode)] + length_part(mbit, f.payload.len()) + key
}

/// The wire bytes of a frame.
pub open spec fn encoding_of(f: FrameView) -> Seq<u8> {
    header_of(f) + f.payload
}

pub open spec fn close_body(code: u16, reason: Seq<u8>) -> Seq<u8> {
    seq![(code / 256) as u8, (code % 256) as u8] + reason
}

impl Frame {
    pub fn new(fin: bool, opcode: OpCode, mask: Option<[u8; 4]>, payload: Vec<u8>) -> (r: Frame)
        ensures
            r.fin == fin,
            r.opcode == opcode,
            r.mask == mask,
            r.payload@ == payload@,
    {
        Frame { fin, opcode, mask, payload }
    }

    /// A final, unmasked Text frame.
    pub fn text(payload: Vec<u8>) -> (r: Frame)
        ensures
            r@ == (FrameView { fin: true, opcode: OpCode::Text, mask: None, payload: payload@ }),
    {
        Frame { fin: true, opcode: OpCode::Text, mask: None, payload }
    }

    /// A final, unmasked Binary frame.
    pub fn binary(payload: Vec<u8>) -> (r: Frame)
        ensures
            r@ == (FrameView { fin: true, opcode: OpCode::Binary, mask: None, payload: payload@ }),
    {
        Frame { fin: true, opcode: OpCode::Binary, mask: None, payload }
    }

    /// A Close frame whose body is the big-endian `code` and then `reason`.
    pub fn close(code: u16, reason: &[u8]) -> (r: Frame)
        ensures
            r@ == (FrameView {
                fin: true,
                opcode: OpCode::Close,
                mask: None,
                payload: close_body(code, reason@),
            }),
    {
        let mut payload: Vec<u8> = Vec::new();
        payload.push((code / 256) as u8);
        payload.push((code % 256) as u8);
        let mut i: usize = 0;
        while i < reason.len()
            invariant
                0 <= i <= reason@.len(),
                payload@ == seq![(code / 256) as u8, (code % 256) as u8] + reason@.subrange(0, i as int),
            decreases reason@.len() - i,
        {
            payload.push(reason[i]);
            i += 1;
            assert(payload@ =~= seq![(code / 256) as u8, (code % 256) as u8] + reason@.subrange(0, i as int));
        }
        assert(reason@.subrange(0, reason@.len() as int) =~= reason@);
        Frame { fin: true, opcode: OpCode::Close, mask: None, payload }
    }

    /// A Close frame with the body as given.
    pub fn close_raw(payload: Vec<u8>) -> (r: Frame)
        ensures
            r@ == (FrameView { fin: true, opcode: OpCode::Close, mask: None, payload: payload@ }),
    {
        Frame { fin: true, opcode: OpCode::Close, mask: None, payload }
    }

    /// A Ping frame.
    pub fn ping(payload: Vec<u8>) -> (r: Frame)
        ensures
            r@ == (FrameView { fin: true, opcode: OpCode::Ping, mask: None, payload: payload@ }),
    {
        Frame { fin: true, opcode: OpCode::Ping, mask: None, payload }
    }

    /// A Pong frame.
    pub fn pong(payload: Vec<u8>) -> (r: Frame)
        ensures
            r@ == (FrameView { fin: true, opcode: OpCode::Pong, mask: None, payload: payload@ }),
    {
        Frame { fin: true, opcode: OpCode::Pong, mask: None, payload }
    }

    /// Masks the payload: with the key already stored if there is one, else
    /// with `key`, which is then stored.
    pub fn mask(&mut self, key: [u8; 4])
        ensures
            final(self).fin == old(self).fin,
            final(self).opcode == old(self).opcode,
            final(self).mask == (match old(self).mask {
                Some(k) => Some(k),
                None => Some(key),
            }),
            final(self).payload@ == xor_mask(old(self).payload@, final(self).mask.unwrap()@),
    {
        let k = match self.mask {
            Some(k) => k,
            None => key,
        };
        unmask(&mut self.payload, k);
        self.mask = Some(k);
    }

    /// Unmasks the payload with the stored key and clears it; does nothing
    /// where no key is stored.
    pub fn unmask(&mut self)
        ensures
            final(self).fin == old(self).fin,
            final(self).opcode == old(self).opcode,
            final(self).mask is None,
            final(self).payload@ == (match old(self).mask {
                Some(k) => xor_mask(old(self).payload@, k@),
                None => old(self).payload@,
            }),
    {
        if let Some(k) = self.mask {
            unmask(&mut self.payload, k);
            self.mask = None;
        }
    }

    /// Whether the payload is valid UTF-8.
    pub fn is_utf8(&self) -> (r: bool)
        ensures
            r == vstd::utf8::valid_utf8(self.payload@),
    {
        utf8_check(self.payload.as_slice())
    }

    /// The header bytes of this frame.
    pub fn fmt_head(&self) -> (r: Vec<u8>)
        requires
            self.payload@.len() < pow256(8),
        ensures
            r@ == header_of(self@),
    {
        let n = self.payload.len();
        let mbit: u8 = if self.mask.is_some() { 0x80 } else { 0 };
        let fbit: u8 = if self.fin { 0x80 } else { 0 };
        let mut head: Vec<u8> = Vec::new();
        head.push(fbit | self.opcode.bits());
        if n <= 125 {
            head.push(mbit | (n as u8));
        } else if n <= 65535 {
            head.push(mbit | 126);
            let mut ext = be_encode(n as u64, 2);
            head.append(&mut ext);
        } else {
            head.push(mbit | 127);
            let mut ext = be_encode(n as u64, 8);
            head.append(&mut ext);
        }
        if let Some(k) = self.mask {
            head.push(k[0]);
            head.push(k[1]);
            head.push(k[2]);
            head.push(k[3]);
            assert(k@ =~= seq![k@[0], k@[1], k@[2], k@[3]]);
        }
        assert(head@ =~= header_of(self@));
        head
    }

    /// The wire bytes of this frame: header, then payload.
    pub fn encode(&self) -> (r: Vec<u8>)
        requires
            self.payload@.len() < pow256(8),
        ensures
            r@ == encoding_of(self@),
    {
        let mut out = self.fmt_head();
        let mut i: usize = 0;
        let ghost h = out@;
        while i < self.payload.len()
            invariant
                0 <= i <= self.payload@.len(),
                out@ == h + self.payload@.subrange(0, i as int),
            decreases self.payload@.len() - i,
        {
            out.push(self.payload[i]);
            i += 1;
            assert(out@ =~= h + self.payload@.subrange(0, i as int));
        }
        assert(self.payload@.subrange(0, self.payload@.len() as int) =~= self.payload@);
        out
    }
}

} // verus!
