use vstd::prelude::*;

verus! {

/// Every way in which a session can fail. Each of them ends it. The
/// handshake kinds are for the code that performs the handshake.
#[derive(Debug, Clone, Copy, PartialEq, Eq, Structural)]
pub enum WebSocketError {
    /// The stream ended in the middle of a frame.
    UnexpectedEOF,
    /// A Text or Binary frame arrived while a fragmented message was open.
    InvalidFragment,
    /// A Text frame or a Close reason is not valid UTF-8.
    InvalidUTF8,
    /// A Continuation frame arrived with no fragmented message open.
    InvalidContinuationFrame,
    /// A Ping frame carries more than 125 bytes.
    PingFrameTooLarge,
    /// A frame or an assembled message reaches the configured size limit.
    FrameTooLarge,
    /// A Close frame with a one-byte body.
    InvalidCloseFrame,
    /// A Close frame with a status code that may not be sent.
    InvalidCloseCode,
    /// RSV2 or RSV3 is set.
    ReservedBitsNotZero,
    /// A control frame without FIN.
    ControlFrameFragmented,
    /// A frame other than Close after a Close was sent, or a write after it.
    ConnectionClosed,
    /// An opcode outside the defined set.
    InvalidOpCode,
    /// A compressed payload that does not inflate.
    InvalidEncoding,
    /// The handshake response had an unexpected status.
    InvalidStatusCode,
    /// The handshake lacked `Upgrade: websocket`.
    InvalidUpgradeHeader,
    /// The handshake lacked `Connection: upgrade`.
    InvalidConnectionHeader,
    /// The handshake response lacked `Sec-WebSocket-Accept`.
    MissingSecWebSocketAccept,
    /// A handshake header held a value that could not be read.
    InvalidValue,
}

} // verus!
