use vstd::prelude::*;
use crate::error::WebSocketError;
use miniz_oxide::inflate::stream::{inflate, InflateState};
use miniz_oxide::{DataFormat, MZFlush};

verus! {

/// What one raw-DEFLATE inflation pass makes of `input` with an output
/// buffer of `out_len` bytes: the bytes written, or `None` on an error.
pub uninterp spec fn raw_inflate(input: Seq<u8>, out_len: nat) -> Option<Seq<u8>>;

/// Relies on miniz_oxide::inflate::stream::inflate, run once with a partial
/// flush on a fresh raw-DEFLATE state into a zeroed buffer of `out_len`
/// bytes: the bytes it reports written, or `None` where its status is an
/// error.
#[verifier::external_body]
fn inflate_raw(input: &[u8], out_len: usize) -> (r: Option<Vec<u8>>)
    ensures
        match r {
            Some(v) => raw_inflate(input@, out_len as nat) == Some(v@),
            None => raw_inflate(input@, out_len as nat) is None,
        },
{
    let mut state = InflateState::new_boxed(DataFormat::Raw);
    let mut out: Vec<u8> = vec![0; out_len];
    let res = inflate(&mut state, input, &mut out, MZFlush::Partial);
    match res.status {
        Ok(_) => Some(out[..res.bytes_written].to_vec()),
        Err(_) => None,
    }
}

/// The four bytes that a sender strips from the end of a compressed message.
pub open spec fn deflate_tail() -> Seq<u8> {
    seq![0x00u8, 0x00u8, 0xFFu8, 0xFFu8]
}

/// The first output room tried for a payload of `n` bytes: twice its size,
/// capped, and at least one byte.
pub open spec fn initial_room(n: nat) -> nat {
    if n == 0 {
        1
    } else if 2 * n <= usize::MAX {
        2 * n
    } else {
        usize::MAX as nat
    }
}

/// The room tried after `room` was filled: twice as much, capped.
pub open spec fn next_room(room: nat) -> nat {
    if 2 * room <= usize::MAX {
        2 * room
    } else {
        usize::MAX as nat
    }
}

/// Inflation of `input` into a buffer that grows: a pass that fills its
/// whole room may have been cut short, so it is run again with twice the
/// room, until a pass leaves room to spare or the room cannot grow.
pub open spec fn inflate_from(input: Seq<u8>, room: nat) -> Option<Seq<u8>>
    decreases usize::MAX - room,
{
    if room == 0 || room >= usize::MAX {
        raw_inflate(input, room)
    } else {
        match raw_inflate(input, room) {
            None => None,
            Some(v) => if v.len() < room {
                Some(v)
            } else {
                inflate_from(input, next_room(room))
            },
        }
    }
}

/// The inflation of a compressed payload, if it inflates.
pub open spec fn inflated(payload: Seq<u8>) -> Option<Seq<u8>> {
    inflate_from(payload + deflate_tail(), initial_room(payload.len()))
}

/// Inflates a compressed payload: the tail is put back, then the whole is
/// inflated into a buffer of twice the payload's size, which grows while a
/// pass fills it.
pub fn inflate_payload(payload: &Vec<u8>) -> (r: Result<Vec<u8>, WebSocketError>)
    ensures
        match r {
            Ok(v) => inflated(payload@) == Some(v@),
            Err(e) => e == WebSocketError::InvalidEncoding && inflated(payload@) is None,
        },
{
    let n = payload.len();
    let mut input: Vec<u8> = Vec::new();
    let mut i: usize = 0;
    while i < n
        invariant
            n == payload@.len(),
            0 <= i <= n,
            input@ == payload@.subrange(0, i as int),
        decreases n - i,
    {
        input.push(payload[i]);
        i += 1;
        assert(input@ =~= payload@.subrange(0, i as int));
    }
    input.push(0x00);
    input.push(0x00);
    input.push(0xFF);
    input.push(0xFF);
    assert(input@ =~= payload@ + deflate_tail());
    let mut room: usize = if n == 0 {
        1
    } else if n <= usize::MAX / 2 {
        2 * n
    } else {
        usize::MAX
    };
    loop
        invariant
            input@ == payload@ + deflate_tail(),
            1 <= room,
            inflated(payload@) == inflate_from(input@, room as nat),
        decreases usize::MAX - room,
    {
        match inflate_raw(input.as_slice(), room) {
            None => {
                return Err(WebSocketError::InvalidEncoding);
            },
            Some(v) => {
                if v.len() < room || room == usize::MAX {
                    return Ok(v);
                }
                room = if room <= usize::MAX / 2 {
                    2 * room
                } else {
                    usize::MAX
                };
            },
        }
    }
}

} // verus!
