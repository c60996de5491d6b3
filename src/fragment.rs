use vstd::prelude::*;
use crate::error::WebSocketError;
use crate::frame::{control, is_control, Frame, FrameView, OpCode};
use crate::session::WebSocket;

verus! {

/// What the assembler does with frame `f`, given the message in progress
/// (its first opcode and the bytes so far) and the size limit: the message in
/// progress after, and the frame to hand on, if any.
pub open spec fn assemble(pending: Option<(OpCode, Seq<u8>)>, limit: nat, f: FrameView) -> (
    Option<(OpCode, Seq<u8>)>,
    Result<Option<FrameView>, WebSocketError>,
) {
    if control(f.opcode) {
        (pending, Ok(Some(f)))
    } else if f.opcode == OpCode::Continuation {
        match pending {
            None => (pending, Err(WebSocketError::InvalidContinuationFrame)),
            Some((op, acc)) => if acc.len() + f.payload.len() > limit {
                (pending, Err(WebSocketError::FrameTooLarge))
            } else if f.fin {
                (None, Ok(Some(FrameView { fin: true, opcode: op, mask: None, payload: acc + f.payload })))
            } else {
                (Some((op, acc + f.payload)), Ok(None))
            },
        }
    } else if pending is Some {
        (pending, Err(WebSocketError::InvalidFragment))
    } else if f.fin {
        (pending, Ok(Some(f)))
    } else if f.payload.len() > limit {
        (pending, Err(WebSocketError::FrameTooLarge))
    } else {
        (Some((f.opcode, f.payload)), Ok(None))
    }
}

pub open spec fn result_view(r: Result<Option<Frame>, WebSocketError>) -> Result<Option<FrameView>, WebSocketError> {
    match r {
        Ok(Some(f)) => Ok(Some(f@)),
        Ok(None) => Ok(None),
        Err(e) => Err(e),
    }
}

/// A session that hands on whole messages: the frames of a fragmented
/// message are joined into one final frame.
pub struct FragmentCollector<S> {
    ws: WebSocket<S>,
    fragment: Option<(OpCode, Vec<u8>)>,
}

impl<S> FragmentCollector<S> {
    /// The message in progress.
    pub closed spec fn pending(&self) -> Option<(OpCode, Seq<u8>)> {
        match self.fragment {
            Some((op, v)) => Some((op, v@)),
            None => None,
        }
    }

    /// The wrapped session.
    pub closed spec fn session(&self) -> WebSocket<S> {
        self.ws
    }

    pub fn new(ws: WebSocket<S>) -> (r: Self)
        ensures
            r.pending() is None,
            r.session() == ws,
    {
        FragmentCollector { ws, fragment: None }
    }

    /// The wrapped session, to read and write frames with.
    pub fn websocket_mut(&mut self) -> (r: &mut WebSocket<S>)
        ensures
            *r == old(self).session(),
            final(self).pending() == old(self).pending(),
            final(self).session() == *final(r),
    {
        &mut self.ws
    }

    /// Ends the collector and gives the session back.
    pub fn into_inner(self) -> (r: WebSocket<S>)
        ensures
            r == self.session(),
    {
        self.ws
    }

    /// Takes one frame read from the session: returns the frame to hand on,
    /// or `None` while a fragmented message is still open. Messages may not
    /// grow past the session's size limit.
    pub fn accept(&mut self, frame: Frame) -> (r: Result<Option<Frame>, WebSocketError>)
        ensures
            final(self).session() == old(self).session(),
            (final(self).pending(), result_view(r)) == assemble(
                old(self).pending(),
                old(self).session()@.max_message_size as nat,
                frame@,
            ),
    {
        let limit = self.ws.max_message_size();
        if is_control(frame.opcode) {
            return Ok(Some(frame));
        }
        if frame.opcode == OpCode::Continuation {
            let cur = self.fragment.take();
            match cur {
                None => {
                    self.fragment = None;
                    Err(WebSocketError::InvalidContinuationFrame)
                },
                Some((op, acc)) => {
                    if frame.payload.len() > limit || acc.len() > limit - frame.payload.len() {
                        self.fragment = Some((op, acc));
                        return Err(WebSocketError::FrameTooLarge);
                    }
                    let mut acc = acc;
                    let mut more = frame.payload;
                    acc.append(&mut more);
                    if frame.fin {
                        self.fragment = None;
                        Ok(Some(Frame { fin: true, opcode: op, mask: None, payload: acc }))
                    } else {
                        self.fragment = Some((op, acc));
                        Ok(None)
                    }
                },
            }
        } else if self.fragment.is_some() {
            Err(WebSocketError::InvalidFragment)
        } else if frame.fin {
            Ok(Some(frame))
        } else if frame.payload.len() > limit {
            Err(WebSocketError::FrameTooLarge)
        } else {
            self.fragment = Some((frame.opcode, frame.payload));
            Ok(None)
        }
    }
}

} // verus!
