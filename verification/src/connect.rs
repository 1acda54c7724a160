//! The HTTP CONNECT exchange by which the SSH proxy opens a tunnel to a
//! sandbox through the gateway: the request it sends, when the answer's
//! header has been read, and the status the answer carries.

use vstd::prelude::*;
use crate::numparse::{parse_u16, parse_unsigned};
use crate::ssh_config::{lines, lines_of, split_words, words};
use crate::text::{push_str_chars, to_owned_string, views};

verus! {

/// Most bytes of the answer's header that are read before giving up on
/// finding its end.
pub const MAX_CONNECT_HEADER: usize = 8192;

/// The CONNECT request for `path` on `host`, carrying the sandbox's id and
/// session token.
pub open spec fn connect_request_text(path: Seq<char>, host: Seq<char>, sandbox_id: Seq<char>, token: Seq<
    char,
>) -> Seq<char> {
    "CONNECT "@ + path + " HTTP/1.1\r\nHost: "@ + host + "\r\nX-Sandbox-Id: "@ + sandbox_id
        + "\r\nX-Sandbox-Token: "@ + token + "\r\n\r\n"@
}

/// The CONNECT request the proxy sends to the gateway.
pub fn connect_request(path: &str, host: &str, sandbox_id: &str, token: &str) -> (r: String)
    ensures
        r@ == connect_request_text(path@, host@, sandbox_id@, token@),
{
    let mut r = to_owned_string("CONNECT ");
    push_str_chars(&mut r, path);
    push_str_chars(&mut r, " HTTP/1.1\r\nHost: ");
    push_str_chars(&mut r, host);
    push_str_chars(&mut r, "\r\nX-Sandbox-Id: ");
    push_str_chars(&mut r, sandbox_id);
    push_str_chars(&mut r, "\r\nX-Sandbox-Token: ");
    push_str_chars(&mut r, token);
    push_str_chars(&mut r, "\r\n\r\n");
    r
}

/// The answer's header has been read once the bytes so far end with a
/// blank line (`\r\n\r\n`), or once there are more than
/// [`MAX_CONNECT_HEADER`] of them.
pub open spec fn header_complete(buf: Seq<u8>) -> bool {
    ||| (buf.len() >= 4 && buf.subrange(buf.len() - 4, buf.len() as int) == seq![13u8, 10u8, 13u8, 10u8])
    ||| buf.len() > MAX_CONNECT_HEADER
}

/// Whether to stop reading the answer after the bytes read so far (read
/// one at a time, so that nothing after the header is consumed).
pub fn connect_header_complete(buf: &Vec<u8>) -> (r: bool)
    ensures
        r == header_complete(buf@),
{
    let n = buf.len();
    if n >= 4 && buf[n - 4] == 13u8 && buf[n - 3] == 10u8 && buf[n - 2] == 13u8 && buf[n - 1] == 10u8 {
        assert(buf@.subrange(n - 4, n as int) =~= seq![13u8, 10u8, 13u8, 10u8]);
        return true;
    }
    proof {
        if n >= 4 && buf@.subrange(n - 4, n as int) == seq![13u8, 10u8, 13u8, 10u8] {
            assert(buf@[n - 4] == buf@.subrange(n - 4, n as int)[0]);
            assert(buf@[n - 3] == buf@.subrange(n - 4, n as int)[1]);
            assert(buf@[n - 2] == buf@.subrange(n - 4, n as int)[2]);
            assert(buf@[n - 1] == buf@.subrange(n - 4, n as int)[3]);
        }
    }
    n > MAX_CONNECT_HEADER
}

/// The status code of the gateway's answer: the second word of its first
/// line read as a `u16`, or 0 when there is none.
pub open spec fn connect_status_of(text: Seq<char>) -> u16 {
    let first = if lines_of(text).len() > 0 {
        lines_of(text)[0]
    } else {
        Seq::empty()
    };
    if words(first).len() >= 2 {
        match parse_unsigned(words(first)[1], u16::MAX as nat) {
            Some(n) => n as u16,
            None => 0,
        }
    } else {
        0
    }
}

/// Read the status code out of the answer's header (decoded as text).
pub fn connect_status(text: &str) -> (r: u16)
    ensures
        r == connect_status_of(text@),
{
    let ls = lines(text);
    let first: Vec<char> = if ls.len() > 0 {
        assert(views(ls@)[0] == ls@[0]@);
        crate::text::copy_chars(&ls[0])
    } else {
        Vec::new()
    };
    let ws = split_words(&first);
    if ws.len() >= 2 {
        assert(views(ws@)[1] == ws@[1]@);
        match parse_u16(&ws[1]) {
            Some(n) => n,
            None => 0,
        }
    } else {
        0
    }
}

} // verus!
