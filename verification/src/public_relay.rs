//! The relay proxy that advertises its public game port: its name tag insertion
//! and what it does to status replies.
//!
//! Its tag insertion goes on only where the name length byte is at least 244,
//! and then raising that byte by the tag's length overflows; so on every input on
//! which it is defined it leaves the reply unchanged.

use vstd::prelude::*;
use crate::query::{
    buf_correct_port, check_query_reply, find_zero, first_zero_from, insert_suffix_at,
    is_query_reply, with_port, OFFSET_TO_NAME, OFFSET_TO_PORT, SUFFIX_LEN,
};

verus! {

/// This relay's tag insertion is defined on `b` with length `len`: the length
/// fits the buffer and, where the tag fits behind it, the name length byte
/// exists and, if it is 244 or more, no zero byte ends the name.
pub open spec fn insert_defined(b: Seq<u8>, len: int) -> bool {
    &&& 0 <= len <= b.len()
    &&& 12 <= b.len() - len ==> {
        &&& b.len() > 18
        &&& 12 >= 256 - b[18] ==> first_zero_from(b, 18) is None
    }
}

/// Tells whether `buf_insert_name_suffix` is defined on `buf` and `len`.
pub fn can_insert_name_suffix(buf: &[u8], len: usize) -> (b: bool)
    ensures
        b == insert_defined(buf@, len as int),
{
    if len > buf.len() {
        return false;
    }
    if SUFFIX_LEN > buf.len() - len {
        return true;
    }
    if buf.len() <= OFFSET_TO_NAME {
        return false;
    }
    if SUFFIX_LEN < 256 - buf[OFFSET_TO_NAME] as usize {
        return true;
    }
    find_zero(buf, OFFSET_TO_NAME).is_none()
}

/// This relay's name tag insertion on the reply `buf[..len]`; on every input on
/// which it is defined it changes nothing.
pub fn buf_insert_name_suffix(buf: &mut [u8], len: &mut usize)
    requires
        insert_defined(old(buf)@, *old(len) as int),
    ensures
        final(buf)@ == old(buf)@,
        *final(len) == *old(len),
{
    if SUFFIX_LEN <= buf.len() - *len {
        if SUFFIX_LEN < 256 - buf[OFFSET_TO_NAME] as usize {
            return;
        }
        let pos = match find_zero(buf, OFFSET_TO_NAME) {
            Some(pos) => pos,
            None => return,
        };
        insert_suffix_at(buf, *len, pos);
        *len = *len + SUFFIX_LEN;
    }
}

/// `buf[..n]` can be patched for `port`: where it is a status reply, the buffer
/// holds the port field and the tag insertion is defined after the port is set.
pub open spec fn patch_defined(b: Seq<u8>, n: int, port: u16) -> bool {
    &&& 0 <= n <= b.len()
    &&& is_query_reply(b.subrange(0, n)) ==> b.len() >= 12 && insert_defined(
        with_port(b, port),
        n,
    )
}

/// Tells whether `patch_query_reply` is defined on `buf`, `n` and `port`.
pub fn can_patch_query_reply(buf: &[u8], n: usize, port: u16) -> (b: bool)
    ensures
        b == patch_defined(buf@, n as int, port),
{
    if n > buf.len() {
        return false;
    }
    if !check_query_reply(buf, n) {
        return true;
    }
    if buf.len() < OFFSET_TO_PORT + 2 {
        return false;
    }
    proof {
        crate::query::lemma_first_zero_from_ignores_prefix(buf@, with_port(buf@, port), 18);
    }
    can_insert_name_suffix(buf, n)
}

/// What this relay does to a reply of `n` bytes from the game server before it
/// passes it on: a status reply gets the public game port `port`; any other
/// reply is left as it is.
pub fn patch_query_reply(buf: &mut [u8], n: &mut usize, port: u16)
    requires
        patch_defined(old(buf)@, *old(n) as int, port),
    ensures
        is_query_reply(old(buf)@.subrange(0, *old(n) as int)) ==> final(buf)@ == with_port(
            old(buf)@,
            port,
        ),
        !is_query_reply(old(buf)@.subrange(0, *old(n) as int)) ==> final(buf)@ == old(buf)@,
        *final(n) == *old(n),
{
    if check_query_reply(buf, *n) {
        buf_correct_port(buf, port);
        buf_insert_name_suffix(buf, n);
    }
}

} // verus!
