use vstd::prelude::*;

verus! {

/// The category of a Close frame's 16-bit status code.
#[derive(Debug, Clone, Copy, PartialEq, Eq, Structural)]
pub enum CloseCode {
    Normal,
    Away,
    ProtocolError,
    Unsupported,
    Reserved,
    NoStatus,
    Abnormal,
    InvalidPayload,
    PolicyViolation,
    MessageTooLarge,
    MandatoryExt,
    InternalError,
    TlsHandshakeFailed,
    /// 3000 to 3999.
    Application(u16),
    /// 4000 to 4999.
    Private(u16),
    /// Any code without a category of its own.
    Other(u16),
}

/// The category of `c`.
pub open spec fn category(c: u16) -> CloseCode {
    if c == 1000 {
        CloseCode::Normal
    } else if c == 1001 {
        CloseCode::Away
    } else if c == 1002 {
        CloseCode::ProtocolError
    } else if c == 1003 {
        CloseCode::Unsupported
    } else if c == 1004 {
        CloseCode::Reserved
    } else if c == 1005 {
        CloseCode::NoStatus
    } else if c == 1006 {
        CloseCode::Abnormal
    } else if c == 1007 {
        CloseCode::InvalidPayload
    } else if c == 1008 {
        CloseCode::PolicyViolation
    } else if c == 1009 {
        CloseCode::MessageTooLarge
    } else if c == 1010 {
        CloseCode::MandatoryExt
    } else if c == 1011 {
        CloseCode::InternalError
    } else if c == 1015 {
        CloseCode::TlsHandshakeFailed
    } else if 3000 <= c <= 3999 {
        CloseCode::Application(c)
    } else if 4000 <= c <= 4999 {
        CloseCode::Private(c)
    } else {
        CloseCode::Other(c)
    }
}

/// Whether a code may be sent in a Close frame: the named codes that an
/// endpoint may use, and the application and private ranges.
pub open spec fn code_allowed(c: u16) -> bool {
    (1000 <= c <= 1003) || (1007 <= c <= 1011) || (3000 <= c <= 4999)
}

/// Whether codes of category `c` may be sent on the wire.
pub open spec fn category_allowed(c: CloseCode) -> bool {
    match c {
        CloseCode::Normal | CloseCode::Away | CloseCode::ProtocolError | CloseCode::Unsupported
        | CloseCode::InvalidPayload | CloseCode::PolicyViolation | CloseCode::MessageTooLarge
        | CloseCode::MandatoryExt | CloseCode::InternalError | CloseCode::Application(_)
        | CloseCode::Private(_) => true,
        _ => false,
    }
}

impl CloseCode {
    pub fn from_code(c: u16) -> (r: CloseCode)
        ensures
            r == category(c),
    {
        match c {
            1000 => CloseCode::Normal,
            1001 => CloseCode::Away,
            1002 => CloseCode::ProtocolError,
            1003 => CloseCode::Unsupported,
            1004 => CloseCode::Reserved,
            1005 => CloseCode::NoStatus,
            1006 => CloseCode::Abnormal,
            1007 => CloseCode::InvalidPayload,
            1008 => CloseCode::PolicyViolation,
            1009 => CloseCode::MessageTooLarge,
            1010 => CloseCode::MandatoryExt,
            1011 => CloseCode::InternalError,
            1015 => CloseCode::TlsHandshakeFailed,
            3000..=3999 => CloseCode::Application(c),
            4000..=4999 => CloseCode::Private(c),
            _ => CloseCode::Other(c),
        }
    }

    /// Whether a code of this category may be sent on the wire.
    pub fn is_allowed(&self) -> (r: bool)
        ensures
            r == category_allowed(*self),
            forall|c: u16| category(c) == *self ==> r == code_allowed(c),
    {
        match self {
            CloseCode::Normal | CloseCode::Away | CloseCode::ProtocolError | CloseCode::Unsupported
            | CloseCode::InvalidPayload | CloseCode::PolicyViolation | CloseCode::MessageTooLarge
            | CloseCode::MandatoryExt | CloseCode::InternalError | CloseCode::Application(_)
            | CloseCode::Private(_) => true,
            _ => false,
        }
    }
}

} // verus!
