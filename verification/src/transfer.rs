use vstd::prelude::*;

use crate::codec::{be_u32, u8toi32, wrap_i32};

verus! {

/// What a TCP client asks for, from the five bytes it sends first: a
/// big-endian length, then the kind of request (`0` uploads).
#[derive(Clone, Copy, Debug, PartialEq, Eq, Structural)]
pub enum ClientRequest {
    /// Store `length` bytes sent next.
    Upload { length: i32 },
    /// Read a file: a file id follows.
    Download,
}

/// Reads the request header of the TCP service.
pub fn classify_request(len_bytes: [u8; 4], kind: u8) -> (r: ClientRequest)
    ensures
        kind == 0 ==> r == (ClientRequest::Upload { length: wrap_i32(be_u32(len_bytes@)) as i32 }),
        kind != 0 ==> r == ClientRequest::Download,
{
    let length = u8toi32(len_bytes);
    if kind == 0 {
        ClientRequest::Upload { length }
    } else {
        ClientRequest::Download
    }
}

/// One read of the download loop, which has `remaining` bytes left to send
/// and just read `got` bytes: the bytes to send, and what is left after.
/// `None` is left when `got` exceeds `remaining`; the loop subtracts
/// `got` regardless and overflows there.
pub fn download_step(remaining: usize, got: usize) -> (r: (usize, Option<usize>))
    ensures
        r.0 == (if got > remaining {
            remaining
        } else {
            got
        }),
        r.1 == (if got <= remaining {
            Some((remaining - got) as usize)
        } else {
            None::<usize>
        }),
{
    if got > remaining {
        (remaining, None)
    } else {
        (got, Some(remaining - got))
    }
}

/// One read of the upload loop, which expects `remaining` more bytes and
/// just received `got`: what it still expects, counted in `i32` after the
/// `got as i32` conversion the loop makes. `None` where that subtraction
/// overflows. The loop goes on while the result is positive.
pub fn upload_step(remaining: i32, got: usize) -> (r: Option<i32>)
    ensures
        r == (if i32::MIN <= remaining - (got as i32) <= i32::MAX {
            Some((remaining - (got as i32)) as i32)
        } else {
            None::<i32>
        }),
{
    let g: i32 = got as i32;
    let d: i64 = remaining as i64 - g as i64;
    if d < i32::MIN as i64 || d > i32::MAX as i64 {
        None
    } else {
        Some(d as i32)
    }
}

} // verus!
