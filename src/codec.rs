use vstd::prelude::*;
use crate::error::WebSocketError;
use crate::frame::{
    be_bytes, be_value, control, encoding_of, first_byte, is_control, key_view, lemma_be_round_trip,
    length_part, opcode_bits, opcode_of, pow256, Frame, FrameView, OpCode,
};

verus! {

/// What the bytes at the front of a receive buffer amount to.
pub enum Decoded {
    /// Not enough bytes yet to decide.
    NeedMore,
    /// The frame is refused.
    Fail(WebSocketError),
    /// A whole frame, whether RSV1 marked it compressed, and how many bytes
    /// it took.
    Done(FrameView, bool, nat),
}

/// Bytes of extended length that the second header byte calls for.
pub open spec fn ext_len(b1: u8) -> nat {
    if b1 & 0x7F == 126 {
        2
    } else if b1 & 0x7F == 127 {
        8
    } else {
        0
    }
}

/// Bytes of masking key that the second header byte calls for.
pub open spec fn key_len(b1: u8) -> nat {
    if b1 & 0x80 != 0 {
        4
    } else {
        0
    }
}

/// The length of the whole header.
pub open spec fn head_len(b1: u8) -> nat {
    2 + ext_len(b1) + key_len(b1)
}

/// RSV2 or RSV3 set, or RSV1 set where compression was not negotiated.
/// RSV1 alone, with compression negotiated, marks a compressed frame.
pub open spec fn rsv_rejected(b0: u8, deflate: bool) -> bool {
    b0 & 0x30 != 0 || (!deflate && b0 & 0x40 != 0)
}

/// The payload length that a complete header states.
pub open spec fn payload_len(b: Seq<u8>) -> nat {
    if b[1] & 0x7F == 126 {
        be_value(b.subrange(2, 4))
    } else if b[1] & 0x7F == 127 {
        be_value(b.subrange(2, 10))
    } else {
        (b[1] & 0x7F) as nat
    }
}

/// The masking key that a complete header holds, if any.
pub open spec fn key_of(b: Seq<u8>) -> Option<Seq<u8>> {
    if b[1] & 0x80 != 0 {
        let e = ext_len(b[1]) as int;
        Some(b.subrange(2 + e, 6 + e))
    } else {
        None
    }
}

/// The frame at the front of `b`, with frames of `max` bytes or more refused;
/// `deflate` says whether compression was negotiated. The checks come in the
/// order in which their bytes arrive.
pub open spec fn decode(b: Seq<u8>, max: nat, deflate: bool) -> Decoded {
    if b.len() < 2 {
        Decoded::NeedMore
    } else if rsv_rejected(b[0], deflate) {
        Decoded::Fail(WebSocketError::ReservedBitsNotZero)
    } else if opcode_of(b[0] & 0x0F) is None {
        Decoded::Fail(WebSocketError::InvalidOpCode)
    } else if b.len() < head_len(b[1]) {
        Decoded::NeedMore
    } else {
        let op = opcode_of(b[0] & 0x0F).unwrap();
        let fin = b[0] & 0x80 != 0;
        let n = payload_len(b);
        let h = head_len(b[1]);
        if control(op) && !fin {
            Decoded::Fail(WebSocketError::ControlFrameFragmented)
        } else if op == OpCode::Ping && n > 125 {
            Decoded::Fail(WebSocketError::PingFrameTooLarge)
        } else if n >= max {
            Decoded::Fail(WebSocketError::FrameTooLarge)
        } else if b.len() < h + n {
            Decoded::NeedMore
        } else {
            Decoded::Done(
                FrameView { fin, opcode: op, mask: key_of(b), payload: b.subrange(h as int, (h + n) as int) },
                b[0] & 0x40 != 0,
                h + n,
            )
        }
    }
}

/// The result of parsing the front of a receive buffer.
pub enum ParseOutcome {
    Incomplete,
    Invalid(WebSocketError),
    /// The frame's payload is as on the wire, still masked where `mask` is set.
    Complete { frame: Frame, compressed: bool, consumed: usize },
}

impl View for ParseOutcome {
    type V = Decoded;

    open spec fn view(&self) -> Decoded {
        match self {
            ParseOutcome::Incomplete => Decoded::NeedMore,
            ParseOutcome::Invalid(e) => Decoded::Fail(*e),
            ParseOutcome::Complete { frame, compressed, consumed } => Decoded::Done(
                frame@,
                *compressed,
                *consumed as nat,
            ),
        }
    }
}

/// The number that `b[start..start + k]` writes in big-endian order.
fn be_decode(b: &[u8], start: usize, k: usize) -> (r: u64)
    requires
        k <= 8,
        start + k <= b@.len(),
    ensures
        r as nat == be_value(b@.subrange(start as int, start + k)),
{
    let mut acc: u64 = 0;
    let mut i: usize = 0;
    proof {
        reveal_with_fuel(pow256, 9);
        assert(b@.subrange(start as int, start as int) =~= Seq::<u8>::empty());
    }
    while i < k
        invariant
            i <= k <= 8,
            start + k <= b.len(),
            acc as nat == be_value(b@.subrange(start as int, start + i)),
            acc < pow256(i as nat),
            pow256(8) == 0x1_0000_0000_0000_0000,
        decreases k - i,
    {
        let ghost p = pow256(i as nat);
        proof {
            lemma_pow256_mono(i as nat + 1, 8);
        }
        assert(acc * 256 + b[start + i] < 256 * p) by (nonlinear_arith)
            requires
                acc < p,
                b[start + i] < 256,
        ;
        acc = acc * 256 + b[start + i] as u64;
        assert(b@.subrange(start as int, start + i + 1).drop_last() =~= b@.subrange(
            start as int,
            start + i,
        ));
        i += 1;
    }
    acc
}

proof fn lemma_pow256_mono(i: nat, j: nat)
    requires
        i <= j,
    ensures
        pow256(i) <= pow256(j),
    decreases j - i,
{
    if i < j {
        lemma_pow256_mono(i, (j - 1) as nat);
    }
}

/// A copy of `b[start..end]`.
pub(crate) fn copy_range(b: &[u8], start: usize, end: usize) -> (r: Vec<u8>)
    requires
        start <= end <= b@.len(),
    ensures
        r@ == b@.subrange(start as int, end as int),
{
    let mut out: Vec<u8> = Vec::new();
    let mut i: usize = start;
    while i < end
        invariant
            start <= i <= end <= b@.len(),
            out@ == b@.subrange(start as int, i as int),
        decreases end - i,
    {
        out.push(b[i]);
        i += 1;
        assert(out@ =~= b@.subrange(start as int, i as int));
    }
    out
}

/// Parses the frame at the front of `buf`, refusing frames of
/// `max_message_size` bytes or more. RSV1 marks a compressed frame where
/// `deflate` (compression negotiated) is set, and is refused otherwise.
pub fn parse_frame(buf: &[u8], max_message_size: usize, deflate: bool) -> (r: ParseOutcome)
    ensures
        r@ == decode(buf@, max_message_size as nat, deflate),
{
    if buf.len() < 2 {
        return ParseOutcome::Incomplete;
    }
    let b0 = buf[0];
    let b1 = buf[1];
    if b0 & 0x30 != 0 || (!deflate && b0 & 0x40 != 0) {
        return ParseOutcome::Invalid(WebSocketError::ReservedBitsNotZero);
    }
    let opcode = match OpCode::from_bits(b0 & 0x0F) {
        Some(op) => op,
        None => {
            return ParseOutcome::Invalid(WebSocketError::InvalidOpCode);
        },
    };
    let fin = b0 & 0x80 != 0;
    let code = b1 & 0x7F;
    let extra: usize = if code == 126 {
        2
    } else if code == 127 {
        8
    } else {
        0
    };
    let masked = b1 & 0x80 != 0;
    let h: usize = 2 + extra + if masked {
        4
    } else {
        0
    };
    if buf.len() < h {
        return ParseOutcome::Incomplete;
    }
    let n: u64 = if extra > 0 {
        be_decode(buf, 2, extra)
    } else {
        code as u64
    };
    if is_control(opcode) && !fin {
        return ParseOutcome::Invalid(WebSocketError::ControlFrameFragmented);
    }
    if opcode == OpCode::Ping && n > 125 {
        return ParseOutcome::Invalid(WebSocketError::PingFrameTooLarge);
    }
    if n >= max_message_size as u64 {
        return ParseOutcome::Invalid(WebSocketError::FrameTooLarge);
    }
    let n = n as usize;
    if buf.len() - h < n {
        return ParseOutcome::Incomplete;
    }
    let mask = if masked {
        let key: [u8; 4] = [buf[h - 4], buf[h - 3], buf[h - 2], buf[h - 1]];
        assert(key@ =~= buf@.subrange(h - 4, h as int));
        Some(key)
    } else {
        None
    };
    let payload = copy_range(buf, h, h + n);
    let frame = Frame { fin, opcode, mask, payload };
    ParseOutcome::Complete { frame, compressed: b0 & 0x40 != 0, consumed: h + n }
}

/// A frame is well formed: a masking key has four bytes, a control frame is
/// final and carries at most 125 bytes, and the length fits in 64 bits.
pub open spec fn well_formed(f: FrameView) -> bool {
    &&& match f.mask {
        Some(k) => k.len() == 4,
        None => true,
    }
    &&& control(f.opcode) ==> f.fin && f.payload.len() <= 125
    &&& f.payload.len() < pow256(8)
}

proof fn lemma_first_byte(fin: bool, op: OpCode)
    ensures
        forall|d: bool| !rsv_rejected(first_byte(fin, op), d),
        first_byte(fin, op) & 0x40 == 0,
        opcode_of(first_byte(fin, op) & 0x0F) == Some(op),
        (first_byte(fin, op) & 0x80 != 0) == fin,
{
    let o = opcode_bits(op);
    assert(o < 16);
    assert(forall|o: u8|
        #![trigger (0x80u8 | o)]
        o < 16 ==> (0x80u8 | o) & 0x30 == 0 && (0x80u8 | o) & 0x40 == 0 && (0x80u8 | o) & 0x0F == o
            && (0x80u8 | o) & 0x80 != 0) by (bit_vector);
    assert(forall|o: u8|
        #![trigger (0u8 | o)]
        o < 16 ==> (0u8 | o) & 0x30 == 0 && (0u8 | o) & 0x40 == 0 && (0u8 | o) & 0x0F == o && (0u8
            | o) & 0x80 == 0) by (bit_vector);
}

proof fn lemma_second_byte(m: u8, x: u8)
    requires
        m == 0 || m == 0x80,
        x < 128,
    ensures
        (m | x) & 0x7F == x,
        ((m | x) & 0x80 != 0) == (m == 0x80),
{
    assert((0x80u8 | x) & 0x7F == x && (0x80u8 | x) & 0x80 != 0) by (bit_vector)
        requires
            x < 128,
    ;
    assert((0u8 | x) & 0x7F == x && (0u8 | x) & 0x80 == 0) by (bit_vector)
        requires
            x < 128,
    ;
}

/// Decoding the encoding of a well-formed frame, followed by any bytes,
/// gives back the frame, uncompressed, and consumes exactly its encoding.
pub proof fn lemma_round_trip(f: FrameView, rest: Seq<u8>, max: nat, deflate: bool)
    requires
        well_formed(f),
        f.payload.len() < max,
    ensures
        decode(encoding_of(f) + rest, max, deflate) == Decoded::Done(f, false, encoding_of(f).len()),
{
    let n = f.payload.len();
    let mbit: u8 = if f.mask is Some { 0x80u8 } else { 0u8 };
    let key = match f.mask {
        Some(k) => k,
        None => seq![],
    };
    let lp = length_part(mbit, n);
    let b0 = first_byte(f.fin, f.opcode);
    let b = encoding_of(f) + rest;
    assert(b =~= seq![b0] + lp + key + f.payload + rest);
    lemma_first_byte(f.fin, f.opcode);
    reveal_with_fuel(pow256, 3);
    let e: nat = if n <= 125 { 0 } else if n <= 65535 { 2 } else { 8 };
    if n <= 125 {
        lemma_second_byte(mbit, n as u8);
    } else if n <= 65535 {
        lemma_second_byte(mbit, 126u8);
        lemma_be_round_trip(n, 2);
        assert(b.subrange(2, 4) =~= be_bytes(n, 2));
    } else {
        lemma_second_byte(mbit, 127u8);
        lemma_be_round_trip(n, 8);
        assert(b.subrange(2, 10) =~= be_bytes(n, 8));
    }
    assert(lp.len() == 1 + e);
    assert(b[1] == lp[0]);
    assert(ext_len(b[1]) == e);
    assert(payload_len(b) == n);
    let h = head_len(b[1]);
    assert(h == 2 + e + key.len());
    assert(b.subrange(h as int, (h + n) as int) =~= f.payload);
    if let Some(k) = f.mask {
        assert(b.subrange(2 + e as int, 6 + e as int) =~= k);
    }
    assert(key_of(b) == f.mask);
}

/// A frame with RSV2 or RSV3 set, or with RSV1 set where compression was
/// not negotiated, is refused as soon as its first two bytes are there.
pub proof fn lemma_reserved_bits_rejected(b: Seq<u8>, max: nat, deflate: bool)
    requires
        b.len() >= 2,
        b[0] & 0x20 != 0 || b[0] & 0x10 != 0 || (b[0] & 0x40 != 0 && !deflate),
    ensures
        decode(b, max, deflate) == Decoded::Fail(WebSocketError::ReservedBitsNotZero),
{
    let b0 = b[0];
    assert(b0 & 0x20 != 0 || b0 & 0x10 != 0 ==> b0 & 0x30 != 0) by (bit_vector);
}

/// A final Ping whose header states more than 125 bytes is refused once its
/// header is complete.
pub proof fn lemma_ping_too_large(b: Seq<u8>, max: nat, deflate: bool)
    requires
        b.len() >= 2,
        b.len() >= head_len(b[1]),
        !rsv_rejected(b[0], deflate),
        opcode_of(b[0] & 0x0F) == Some(OpCode::Ping),
        b[0] & 0x80 != 0,
        payload_len(b) >= 126,
    ensures
        decode(b, max, deflate) == Decoded::Fail(WebSocketError::PingFrameTooLarge),
{
}

/// A control frame without FIN is refused once its header is complete.
pub proof fn lemma_fragmented_control(b: Seq<u8>, max: nat, deflate: bool)
    requires
        b.len() >= 2,
        b.len() >= head_len(b[1]),
        !rsv_rejected(b[0], deflate),
        opcode_of(b[0] & 0x0F) matches Some(op) && control(op),
        b[0] & 0x80 == 0,
    ensures
        decode(b, max, deflate) == Decoded::Fail(WebSocketError::ControlFrameFragmented),
{
}

/// Two well-formed frames received back to back in one buffer decode as the
/// first frame, and the bytes after it as the second.
pub proof fn lemma_back_to_back(f1: FrameView, f2: FrameView, max: nat, deflate: bool)
    requires
        well_formed(f1),
        well_formed(f2),
        f1.payload.len() < max,
        f2.payload.len() < max,
    ensures
        ({
            let b = encoding_of(f1) + encoding_of(f2);
            let n1 = encoding_of(f1).len();
            &&& decode(b, max, deflate) == Decoded::Done(f1, false, n1)
            &&& decode(b.subrange(n1 as int, b.len() as int), max, deflate) == Decoded::Done(
                f2,
                false,
                encoding_of(f2).len(),
            )
        }),
{
    let b = encoding_of(f1) + encoding_of(f2);
    let n1 = encoding_of(f1).len();
    lemma_round_trip(f1, encoding_of(f2), max, deflate);
    lemma_round_trip(f2, Seq::empty(), max, deflate);
    assert(b.subrange(n1 as int, b.len() as int) =~= encoding_of(f2) + Seq::<u8>::empty());
}

} // verus!
