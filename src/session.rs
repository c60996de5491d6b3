use vstd::prelude::*;
use crate::close::{code_allowed, CloseCode};
use crate::codec::{copy_range, decode, lemma_round_trip, parse_frame, well_formed, Decoded, ParseOutcome};
use crate::error::WebSocketError;
use crate::frame::{close_body, encoding_of, header_of, is_valid_utf8, pow256, Frame, FrameView, OpCode};
use crate::inflate::{inflate_payload, inflated};
use crate::mask::xor_mask;

verus! {

/// Which end of the connection a session is.
#[derive(Debug, Clone, Copy, PartialEq, Eq, Structural)]
pub enum Role {
    Server,
    Client,
}

/// A session as a mathematical value: the closed flag, the configuration
/// and the received bytes that no frame has taken yet.
pub struct SessionView {
    pub closed: bool,
    pub vectored: bool,
    pub auto_close: bool,
    pub auto_pong: bool,
    pub max_message_size: usize,
    pub writev_threshold: usize,
    pub auto_apply_mask: bool,
    pub deflate: bool,
    pub role: Role,
    pub spill: Seq<u8>,
}

/// The WebSocket protocol over a stream whose handshake is done. The session
/// owns the stream and does no I/O on it: it turns frames into the bytes to
/// write, and received bytes into frames and answers.
pub struct WebSocket<S> {
    stream: S,
    closed: bool,
    vectored: bool,
    auto_close: bool,
    auto_pong: bool,
    max_message_size: usize,
    writev_threshold: usize,
    auto_apply_mask: bool,
    deflate: bool,
    role: Role,
    spill: Vec<u8>,
}

impl<S> View for WebSocket<S> {
    type V = SessionView;

    closed spec fn view(&self) -> SessionView {
        SessionView {
            closed: self.closed,
            vectored: self.vectored,
            auto_close: self.auto_close,
            auto_pong: self.auto_pong,
            max_message_size: self.max_message_size,
            writev_threshold: self.writev_threshold,
            auto_apply_mask: self.auto_apply_mask,
            deflate: self.deflate,
            role: self.role,
            spill: self.spill@,
        }
    }
}

/// Bytes to write to the stream: in one write, or as a vectored write of a
/// header and a payload.
pub enum Outgoing {
    Single(Vec<u8>),
    Vectored(Vec<u8>, Vec<u8>),
}

pub enum Wire {
    Single(Seq<u8>),
    Vectored(Seq<u8>, Seq<u8>),
}

impl View for Outgoing {
    type V = Wire;

    open spec fn view(&self) -> Wire {
        match self {
            Outgoing::Single(b) => Wire::Single(b@),
            Outgoing::Vectored(h, p) => Wire::Vectored(h@, p@),
        }
    }
}

/// What the read side asks of its caller after one step.
pub enum ReadEvent {
    /// Read more bytes from the stream, hand them to `receive`, and step again.
    NeedMore,
    /// The frame that the read returns.
    Deliver(Frame),
    /// The read fails.
    Fail(WebSocketError),
    /// Write these bytes (an automatic Pong), then step again.
    Reply(Outgoing),
    /// Write these bytes (the Close echo), then return the frame whether or
    /// not the write succeeded.
    ReplyThenDeliver(Outgoing, Frame),
    /// Write these bytes (a Close answering a bad Close), then fail.
    ReplyThenFail(Outgoing, WebSocketError),
}

pub enum EventView {
    NeedMore,
    Deliver(FrameView),
    Fail(WebSocketError),
    Reply(Wire),
    ReplyThenDeliver(Wire, FrameView),
    ReplyThenFail(Wire, WebSocketError),
}

impl View for ReadEvent {
    type V = EventView;

    open spec fn view(&self) -> EventView {
        match self {
            ReadEvent::NeedMore => EventView::NeedMore,
            ReadEvent::Deliver(f) => EventView::Deliver(f@),
            ReadEvent::Fail(e) => EventView::Fail(*e),
            ReadEvent::Reply(o) => EventView::Reply(o@),
            ReadEvent::ReplyThenDeliver(o, f) => EventView::ReplyThenDeliver(o@, f@),
            ReadEvent::ReplyThenFail(o, e) => EventView::ReplyThenFail(o@, *e),
        }
    }
}

/// The frame as it is sent: a client that masks automatically masks it, with
/// the key it already holds or else with `key`.
pub open spec fn outgoing_frame(s: SessionView, f: FrameView, key: Seq<u8>) -> FrameView {
    if s.role == Role::Client && s.auto_apply_mask {
        let k = match f.mask {
            Some(k) => k,
            None => key,
        };
        FrameView { fin: f.fin, opcode: f.opcode, mask: Some(k), payload: xor_mask(f.payload, k) }
    } else {
        f
    }
}

/// The bytes that send the frame `f` as it goes out: a vectored write where
/// vectored writes are on and the payload is longer than the threshold.
pub open spec fn emission(s: SessionView, f: FrameView) -> Wire {
    if s.vectored && f.payload.len() > s.writev_threshold {
        Wire::Vectored(header_of(f), f.payload)
    } else {
        Wire::Single(encoding_of(f))
    }
}

/// What is written for `f`.
pub open spec fn wire_for(s: SessionView, f: FrameView, key: Seq<u8>) -> Wire {
    emission(s, outgoing_frame(s, f, key))
}

/// The session after a frame of kind `op` was written.
pub open spec fn after_write(s: SessionView, op: OpCode) -> SessionView {
    SessionView { closed: s.closed || op == OpCode::Close, ..s }
}

/// The status code at the front of a Close body.
pub open spec fn close_code(p: Seq<u8>) -> u16 {
    (p[0] * 256 + p[1]) as u16
}

pub open spec fn reply(op: OpCode, payload: Seq<u8>) -> FrameView {
    FrameView { fin: true, opcode: op, mask: None, payload }
}

/// What the session does with a received frame `f`, and its state after.
pub open spec fn policy(s: SessionView, f: FrameView, key: Seq<u8>) -> (SessionView, EventView) {
    let p = f.payload;
    if s.closed && f.opcode != OpCode::Close {
        (s, EventView::Fail(WebSocketError::ConnectionClosed))
    } else if f.opcode == OpCode::Close && s.auto_close && !s.closed {
        if p.len() == 1 {
            (s, EventView::Fail(WebSocketError::InvalidCloseFrame))
        } else if p.len() >= 2 && !vstd::utf8::valid_utf8(p.subrange(2, p.len() as int)) {
            let answer = reply(OpCode::Close, p);
            (
                after_write(s, OpCode::Close),
                EventView::ReplyThenFail(wire_for(s, answer, key), WebSocketError::InvalidUTF8),
            )
        } else if p.len() >= 2 && !code_allowed(close_code(p)) {
            let answer = reply(OpCode::Close, close_body(1002, p.subrange(2, p.len() as int)));
            (
                after_write(s, OpCode::Close),
                EventView::ReplyThenFail(wire_for(s, answer, key), WebSocketError::InvalidCloseCode),
            )
        } else {
            let answer = reply(OpCode::Close, p);
            (after_write(s, OpCode::Close), EventView::ReplyThenDeliver(wire_for(s, answer, key), f))
        }
    } else if f.opcode == OpCode::Ping && s.auto_pong {
        (s, EventView::Reply(wire_for(s, reply(OpCode::Pong, p), key)))
    } else if f.opcode == OpCode::Text && f.fin && !vstd::utf8::valid_utf8(p) {
        (s, EventView::Fail(WebSocketError::InvalidUTF8))
    } else {
        (s, EventView::Deliver(f))
    }
}

/// With automatic close on and no Close sent yet, a received Close whose
/// body holds an allowed code and a UTF-8 reason is answered by exactly one
/// Close with the same body, and then handed to the caller; the session is
/// closed after.
pub proof fn lemma_close_echo(s: SessionView, f: FrameView, key: Seq<u8>)
    requires
        s.auto_close,
        !s.closed,
        f.opcode == OpCode::Close,
        f.payload.len() >= 2,
        vstd::utf8::valid_utf8(f.payload.subrange(2, f.payload.len() as int)),
        code_allowed(close_code(f.payload)),
    ensures
        policy(s, f, key) == (
            SessionView { closed: true, ..s },
            EventView::ReplyThenDeliver(wire_for(s, reply(OpCode::Close, f.payload), key), f),
        ),
{
}

/// With automatic close on and no Close sent yet, a received Close whose
/// code may not be sent is answered by a Close with code 1002 and the same
/// reason, and the read fails with `InvalidCloseCode`.
pub proof fn lemma_close_code_policed(s: SessionView, f: FrameView, key: Seq<u8>)
    requires
        s.auto_close,
        !s.closed,
        f.opcode == OpCode::Close,
        f.payload.len() >= 2,
        vstd::utf8::valid_utf8(f.payload.subrange(2, f.payload.len() as int)),
        !code_allowed(close_code(f.payload)),
    ensures
        policy(s, f, key) == (
            SessionView { closed: true, ..s },
            EventView::ReplyThenFail(
                wire_for(s, reply(OpCode::Close, close_body(1002, f.payload.subrange(2, f.payload.len() as int))), key),
                WebSocketError::InvalidCloseCode,
            ),
        ),
{
}

/// A received frame after the server's automatic unmasking. No frame is
/// refused for how it is masked: a server unmasks what arrives masked and
/// takes an unmasked frame as it is, and a client takes frames as they come.
/// The read path has no masking check and no error kind for one; a caller
/// that wants to enforce the masking duties of its role can inspect `mask`
/// with automatic masking turned off.
pub open spec fn received(s: SessionView, f: FrameView) -> FrameView {
    if s.role == Role::Server && s.auto_apply_mask {
        FrameView {
            fin: f.fin,
            opcode: f.opcode,
            mask: None,
            payload: match f.mask {
                Some(k) => xor_mask(f.payload, k),
                None => f.payload,
            },
        }
    } else {
        f
    }
}

/// One step of the read side: the frame at the front of the received bytes
/// is decoded, unmasked, inflated where compressed, and put to the policy.
pub open spec fn read_step(s: SessionView, key: Seq<u8>) -> (SessionView, EventView) {
    match decode(s.spill, s.max_message_size as nat, s.deflate) {
        Decoded::NeedMore => (s, EventView::NeedMore),
        Decoded::Fail(e) => (s, EventView::Fail(e)),
        Decoded::Done(f, compressed, n) => {
            let s1 = SessionView { spill: s.spill.subrange(n as int, s.spill.len() as int), ..s };
            let g = received(s, f);
            if compressed {
                match inflated(g.payload) {
                    Some(q) => policy(
                        s1,
                        FrameView { fin: g.fin, opcode: g.opcode, mask: g.mask, payload: q },
                        key,
                    ),
                    None => (s1, EventView::Fail(WebSocketError::InvalidEncoding)),
                }
            } else {
                policy(s1, g, key)
            }
        },
    }
}

/// A well-formed frame that a session receives whole, with any bytes after
/// it, is handed to the caller as sent (unmasked on a server that unmasks),
/// and the bytes after it are kept for the next read. Left out: frames that
/// the policy answers (a Close under automatic close, a Ping under automatic
/// pong), frames after a Close was sent, and final Text frames that are not
/// UTF-8.
pub proof fn lemma_session_round_trip(s: SessionView, f: FrameView, rest: Seq<u8>, key: Seq<u8>)
    requires
        well_formed(f),
        f.payload.len() < s.max_message_size,
        s.spill == encoding_of(f) + rest,
        !s.closed,
        !(f.opcode == OpCode::Close && s.auto_close),
        !(f.opcode == OpCode::Ping && s.auto_pong),
        f.opcode == OpCode::Text && f.fin ==> vstd::utf8::valid_utf8(received(s, f).payload),
    ensures
        read_step(s, key) == (SessionView { spill: rest, ..s }, EventView::Deliver(received(s, f))),
{
    lemma_round_trip(f, rest, s.max_message_size as nat, s.deflate);
    let n = encoding_of(f).len();
    assert(s.spill.subrange(n as int, s.spill.len() as int) =~= rest);
}

/// Under automatic pong, a Ping received whole is answered by exactly one
/// Pong with the same payload (unmasked on a server that unmasks), nothing is
/// handed to the caller, and reading goes on with the bytes after it.
pub proof fn lemma_ping_answered(s: SessionView, f: FrameView, rest: Seq<u8>, key: Seq<u8>)
    requires
        well_formed(f),
        f.opcode == OpCode::Ping,
        f.payload.len() < s.max_message_size,
        s.spill == encoding_of(f) + rest,
        !s.closed,
        s.auto_pong,
    ensures
        read_step(s, key) == (
            SessionView { spill: rest, ..s },
            EventView::Reply(wire_for(s, reply(OpCode::Pong, received(s, f).payload), key)),
        ),
{
    lemma_round_trip(f, rest, s.max_message_size as nat, s.deflate);
    let n = encoding_of(f).len();
    assert(s.spill.subrange(n as int, s.spill.len() as int) =~= rest);
}

/// On a server that unmasks, a compressed Text or Binary frame is unmasked
/// first and inflated after: the caller receives the inflation of the
/// unmasked payload, and the bytes after the frame are kept.
pub proof fn lemma_unmask_then_inflate(
    s: SessionView,
    f: FrameView,
    n: nat,
    k: Seq<u8>,
    m: Seq<u8>,
    key: Seq<u8>,
)
    requires
        decode(s.spill, s.max_message_size as nat, s.deflate) == Decoded::Done(f, true, n),
        s.role == Role::Server,
        s.auto_apply_mask,
        !s.closed,
        f.mask == Some(k),
        f.opcode == OpCode::Text || f.opcode == OpCode::Binary,
        inflated(xor_mask(f.payload, k)) == Some(m),
        f.opcode == OpCode::Text && f.fin ==> vstd::utf8::valid_utf8(m),
    ensures
        read_step(s, key) == (
            SessionView { spill: s.spill.subrange(n as int, s.spill.len() as int), ..s },
            EventView::Deliver(FrameView { fin: f.fin, opcode: f.opcode, mask: None, payload: m }),
        ),
{
}

/// `keys.len()` read steps in a row, the i-th drawing `keys[i]`: the
/// session after them and the events in order.
pub open spec fn steps(s: SessionView, keys: Seq<Seq<u8>>) -> (SessionView, Seq<EventView>)
    decreases keys.len(),
{
    if keys.len() == 0 {
        (s, Seq::empty())
    } else {
        let (s1, e) = read_step(s, keys[0]);
        let (s2, es) = steps(s1, keys.drop_first());
        (s2, seq![e] + es)
    }
}

/// The encodings of `fs`, one after another.
pub open spec fn encodings(fs: Seq<FrameView>) -> Seq<u8>
    decreases fs.len(),
{
    if fs.len() == 0 {
        Seq::empty()
    } else {
        encoding_of(fs[0]) + encodings(fs.drop_first())
    }
}

/// Under automatic pong, Pings received back to back are answered in
/// order, one Pong each with the same payload, before any byte after them
/// is read; none of them is handed to the caller, and the session is left
/// as it was but for the bytes taken.
pub proof fn lemma_pings_answered(s: SessionView, ps: Seq<FrameView>, rest: Seq<u8>, keys: Seq<Seq<u8>>)
    requires
        keys.len() == ps.len(),
        forall|i: int|
            0 <= i < ps.len() ==> well_formed(#[trigger] ps[i]) && ps[i].opcode == OpCode::Ping
                && ps[i].payload.len() < s.max_message_size,
        s.spill == encodings(ps) + rest,
        !s.closed,
        s.auto_pong,
    ensures
        steps(s, keys).0 == (SessionView { spill: rest, ..s }),
        steps(s, keys).1 == Seq::new(
            ps.len(),
            |i: int| EventView::Reply(wire_for(s, reply(OpCode::Pong, received(s, ps[i]).payload), keys[i])),
        ),
    decreases ps.len(),
{
    let evs = Seq::new(
        ps.len(),
        |i: int| EventView::Reply(wire_for(s, reply(OpCode::Pong, received(s, ps[i]).payload), keys[i])),
    );
    if ps.len() == 0 {
        assert(s.spill =~= rest);
        assert(evs =~= Seq::<EventView>::empty());
    } else {
        let tail = ps.drop_first();
        let after = encodings(tail) + rest;
        assert(s.spill =~= encoding_of(ps[0]) + after);
        lemma_ping_answered(s, ps[0], after, keys[0]);
        let s1 = SessionView { spill: after, ..s };
        assert forall|i: int| 0 <= i < tail.len() implies well_formed(#[trigger] tail[i]) && tail[i].opcode
            == OpCode::Ping && tail[i].payload.len() < s1.max_message_size by {
            assert(tail[i] == ps[i + 1]);
        }
        lemma_pings_answered(s1, tail, rest, keys.drop_first());
        let (s2, es) = steps(s1, keys.drop_first());
        assert(seq![EventView::Reply(wire_for(s, reply(OpCode::Pong, received(s, ps[0]).payload), keys[0]))] + es
            =~= evs);
    }
}

/// The default size limit: 64 MiB.
pub const DEFAULT_MAX_MESSAGE_SIZE: usize = 67108864;

/// The default payload length above which vectored writes are used.
pub const DEFAULT_WRITEV_THRESHOLD: usize = 1024;

impl<S> WebSocket<S> {
    pub closed spec fn inner(&self) -> S {
        self.stream
    }

    /// A session over `stream`, with vectored writes, automatic close, pong
    /// and masking on, a 64 MiB limit, a 1024-byte vectored threshold, and
    /// compression taken as negotiated, so that RSV1 alone marks a
    /// compressed frame (`set_deflate(false)` refuses RSV1 instead).
    pub fn after_handshake(stream: S, role: Role) -> (r: Self)
        ensures
            r@ == (SessionView {
                closed: false,
                vectored: true,
                auto_close: true,
                auto_pong: true,
                max_message_size: DEFAULT_MAX_MESSAGE_SIZE,
                writev_threshold: DEFAULT_WRITEV_THRESHOLD,
                auto_apply_mask: true,
                deflate: true,
                role,
                spill: Seq::empty(),
            }),
            r.inner() == stream,
    {
        WebSocket {
            stream,
            closed: false,
            vectored: true,
            auto_close: true,
            auto_pong: true,
            max_message_size: DEFAULT_MAX_MESSAGE_SIZE,
            writev_threshold: DEFAULT_WRITEV_THRESHOLD,
            auto_apply_mask: true,
            deflate: true,
            role,
            spill: Vec::new(),
        }
    }

    /// Ends the session and gives the stream back.
    pub fn into_inner(self) -> (r: S)
        ensures
            r == self.inner(),
    {
        self.stream
    }

    /// The stream, to read from and write to.
    pub fn stream_mut(&mut self) -> (r: &mut S)
        ensures
            *r == old(self).inner(),
            final(self)@ == old(self)@,
            final(self).inner() == *final(r),
    {
        &mut self.stream
    }

    pub fn set_writev(&mut self, vectored: bool)
        ensures
            final(self)@ == (SessionView { vectored, ..old(self)@ }),
            final(self).inner() == old(self).inner(),
    {
        self.vectored = vectored;
    }

    pub fn set_writev_threshold(&mut self, threshold: usize)
        ensures
            final(self)@ == (SessionView { writev_threshold: threshold, ..old(self)@ }),
            final(self).inner() == old(self).inner(),
    {
        self.writev_threshold = threshold;
    }

    pub fn set_auto_close(&mut self, auto_close: bool)
        ensures
            final(self)@ == (SessionView { auto_close, ..old(self)@ }),
            final(self).inner() == old(self).inner(),
    {
        self.auto_close = auto_close;
    }

    pub fn set_auto_pong(&mut self, auto_pong: bool)
        ensures
            final(self)@ == (SessionView { auto_pong, ..old(self)@ }),
            final(self).inner() == old(self).inner(),
    {
        self.auto_pong = auto_pong;
    }

    pub fn set_max_message_size(&mut self, max_message_size: usize)
        ensures
            final(self)@ == (SessionView { max_message_size, ..old(self)@ }),
            final(self).inner() == old(self).inner(),
    {
        self.max_message_size = max_message_size;
    }

    pub fn set_auto_apply_mask(&mut self, auto_apply_mask: bool)
        ensures
            final(self)@ == (SessionView { auto_apply_mask, ..old(self)@ }),
            final(self).inner() == old(self).inner(),
    {
        self.auto_apply_mask = auto_apply_mask;
    }

    /// Sets whether per-message compression was negotiated: where it was
    /// (the default), RSV1 marks a compressed frame; where not, RSV1 is
    /// refused.
    pub fn set_deflate(&mut self, deflate: bool)
        ensures
            final(self)@ == (SessionView { deflate, ..old(self)@ }),
            final(self).inner() == old(self).inner(),
    {
        self.deflate = deflate;
    }

    /// The size limit in force.
    pub fn max_message_size(&self) -> (r: usize)
        ensures
            r == self@.max_message_size,
    {
        self.max_message_size
    }

    /// Appends bytes read from the stream to those not yet taken by a frame.
    pub fn receive(&mut self, data: &[u8])
        ensures
            final(self)@ == (SessionView { spill: old(self)@.spill + data@, ..old(self)@ }),
            final(self).inner() == old(self).inner(),
    {
        let mut i: usize = 0;
        while i < data.len()
            invariant
                0 <= i <= data@.len(),
                self@ == (SessionView { spill: old(self)@.spill + data@.subrange(0, i as int), ..old(self)@ }),
                self.inner() == old(self).inner(),
            decreases data@.len() - i,
        {
            self.spill.push(data[i]);
            i += 1;
            assert(self.spill@ =~= old(self)@.spill + data@.subrange(0, i as int));
        }
        assert(data@.subrange(0, data@.len() as int) =~= data@);
    }

    /// The bytes that send `frame`, masked first where a client masks
    /// automatically (with the frame's own key, else with `key`). Sending a
    /// Close marks the session closed; nothing is sent once it is.
    pub fn write_frame(&mut self, frame: Frame, key: [u8; 4]) -> (r: Result<Outgoing, WebSocketError>)
        ensures
            final(self).inner() == old(self).inner(),
            match r {
                Ok(o) => !old(self)@.closed && o@ == wire_for(old(self)@, frame@, key@) && final(self)@
                    == after_write(old(self)@, frame.opcode),
                Err(e) => old(self)@.closed && e == WebSocketError::ConnectionClosed && final(self)@
                    == old(self)@,
            },
    {
        if self.closed {
            return Err(WebSocketError::ConnectionClosed);
        }
        let mut frame = frame;
        if self.role == Role::Client && self.auto_apply_mask {
            frame.mask(key);
        }
        if frame.opcode == OpCode::Close {
            self.closed = true;
        }
        let n = frame.payload.len();
        proof {
            reveal_with_fuel(pow256, 9);
            assert(pow256(8) == 0x1_0000_0000_0000_0000);
        }
        if self.vectored && n > self.writev_threshold {
            let head = frame.fmt_head();
            Ok(Outgoing::Vectored(head, frame.payload))
        } else {
            Ok(Outgoing::Single(frame.encode()))
        }
    }

    /// Applies the control-frame policy to a received frame: answers a Ping,
    /// echoes a Close, checks a Close body and the UTF-8 of a final Text frame.
    pub fn on_frame(&mut self, frame: Frame, key: [u8; 4]) -> (r: ReadEvent)
        ensures
            (final(self)@, r@) == policy(old(self)@, frame@, key@),
            final(self).inner() == old(self).inner(),
    {
        if self.closed && frame.opcode != OpCode::Close {
            return ReadEvent::Fail(WebSocketError::ConnectionClosed);
        }
        if frame.opcode == OpCode::Close && self.auto_close && !self.closed {
            let n = frame.payload.len();
            if n == 1 {
                return ReadEvent::Fail(WebSocketError::InvalidCloseFrame);
            }
            if n >= 2 {
                let reason = copy_range(frame.payload.as_slice(), 2, n);
                if !is_valid_utf8(reason.as_slice()) {
                    let body = copy_range(frame.payload.as_slice(), 0, n);
                    assert(body@ =~= frame.payload@);
                    return match self.write_frame(Frame::close_raw(body), key) {
                        Ok(o) => ReadEvent::ReplyThenFail(o, WebSocketError::InvalidUTF8),
                        Err(e) => ReadEvent::Fail(e),
                    };
                }
                let code: u16 = frame.payload[0] as u16 * 256 + frame.payload[1] as u16;
                if !CloseCode::from_code(code).is_allowed() {
                    let answer = Frame::close(1002, reason.as_slice());
                    return match self.write_frame(answer, key) {
                        Ok(o) => ReadEvent::ReplyThenFail(o, WebSocketError::InvalidCloseCode),
                        Err(e) => ReadEvent::Fail(e),
                    };
                }
            }
            let body = copy_range(frame.payload.as_slice(), 0, n);
            assert(body@ =~= frame.payload@);
            let answer = Frame::close_raw(body);
            return match self.write_frame(answer, key) {
                Ok(o) => ReadEvent::ReplyThenDeliver(o, frame),
                Err(e) => ReadEvent::Fail(e),
            };
        }
        if frame.opcode == OpCode::Ping && self.auto_pong {
            let answer = Frame::pong(frame.payload);
            return match self.write_frame(answer, key) {
                Ok(o) => ReadEvent::Reply(o),
                Err(e) => ReadEvent::Fail(e),
            };
        }
        if frame.opcode == OpCode::Text && frame.fin && !frame.is_utf8() {
            return ReadEvent::Fail(WebSocketError::InvalidUTF8);
        }
        ReadEvent::Deliver(frame)
    }

    /// One step of reading: decodes the frame at the front of the received
    /// bytes, keeps the bytes after it, unmasks it on a server that unmasks
    /// automatically, inflates it where RSV1 marked it compressed, and puts
    /// it to the control-frame policy. Frames are not refused for their
    /// masking (see `received`).
    pub fn read_frame(&mut self, key: [u8; 4]) -> (r: ReadEvent)
        ensures
            (final(self)@, r@) == read_step(old(self)@, key@),
            final(self).inner() == old(self).inner(),
    {
        let outcome = parse_frame(self.spill.as_slice(), self.max_message_size, self.deflate);
        match outcome {
            ParseOutcome::Incomplete => ReadEvent::NeedMore,
            ParseOutcome::Invalid(e) => ReadEvent::Fail(e),
            ParseOutcome::Complete { frame, compressed, consumed } => {
                let rest = copy_range(self.spill.as_slice(), consumed, self.spill.len());
                self.spill = rest;
                let mut frame = frame;
                if self.role == Role::Server && self.auto_apply_mask {
                    frame.unmask();
                }
                if compressed {
                    match inflate_payload(&frame.payload) {
                        Ok(p) => {
                            frame.payload = p;
                        },
                        Err(e) => {
                            return ReadEvent::Fail(e);
                        },
                    }
                }
                self.on_frame(frame, key)
            },
        }
    }
}

} // verus!
