//! The game server's reply to a status query, as the relay rewrites it: the
//! advertised game port is corrected and a tag is appended to the server name.
//!
//! A status reply starts with `0x80 0 0 0 0`. The game port is the
//! little-endian `u16` at byte 10. Byte 18 counts the name's length, and the
//! name ends at the first zero byte from byte 18 on.

use vstd::prelude::*;

verus! {

pub const SUFFIX_LEN: usize = 12;
pub const OFFSET_TO_PORT: usize = 10;
pub const OFFSET_TO_NAME: usize = 18;

/// The tag appended to the server name: an escape, three `0xFF` bytes and
/// `" [PROXY]"`.
pub open spec fn suffix_bytes() -> Seq<u8> {
    seq![0x1Bu8, 0xFFu8, 0xFFu8, 0xFFu8, 0x20u8, 0x5Bu8, 0x50u8, 0x52u8, 0x4Fu8, 0x58u8, 0x59u8, 0x5Du8]
}

/// The tag as bytes.
pub fn suffix() -> (s: [u8; 12])
    ensures
        s@ == suffix_bytes(),
{
    let s: [u8; 12] = [0x1B, 0xFF, 0xFF, 0xFF, 0x20, 0x5B, 0x50, 0x52, 0x4F, 0x58, 0x59, 0x5D];
    assert(s@ =~= suffix_bytes());
    s
}

/// The index of the first zero byte of `b` at or after `i`, if any.
pub open spec fn first_zero_from(b: Seq<u8>, i: int) -> Option<int>
    decreases b.len() - i,
{
    if i < 0 || i >= b.len() {
        None
    } else if b[i] == 0 {
        Some(i)
    } else {
        first_zero_from(b, i + 1)
    }
}

pub proof fn lemma_first_zero_from(b: Seq<u8>, i: int)
    requires
        0 <= i,
    ensures
        first_zero_from(b, i) matches Some(k) ==> i <= k < b.len() && b[k] == 0 && forall|j: int|
            i <= j < k ==> b[j] != 0,
        first_zero_from(b, i) is None ==> forall|j: int| i <= j < b.len() ==> b[j] != 0,
    decreases b.len() - i,
{
    if i < b.len() && b[i] != 0 {
        lemma_first_zero_from(b, i + 1);
    }
}

/// Finds the first zero byte of `buf` at or after `start`.
pub fn find_zero(buf: &[u8], start: usize) -> (pos: Option<usize>)
    ensures
        match pos {
            Some(k) => first_zero_from(buf@, start as int) == Some(k as int),
            None => first_zero_from(buf@, start as int) is None,
        },
{
    let n = buf.len();
    let mut i = start;
    while i < n
        invariant
            start <= i,
            n == buf@.len(),
            first_zero_from(buf@, start as int) == first_zero_from(buf@, i as int),
        decreases n - i,
    {
        if buf[i] == 0 {
            return Some(i);
        }
        i = i + 1;
    }
    None
}

/// `data` is a reply to a status query.
pub open spec fn is_query_reply(data: Seq<u8>) -> bool {
    &&& data.len() >= 5
    &&& data[0] == 0x80
    &&& data[1] == 0
    &&& data[2] == 0
    &&& data[3] == 0
    &&& data[4] == 0
}

/// Tells whether the first `n` bytes of `buf` are a reply to a status query.
pub fn check_query_reply(buf: &[u8], n: usize) -> (b: bool)
    requires
        n <= buf@.len(),
    ensures
        b == is_query_reply(buf@.subrange(0, n as int)),
{
    n >= 5 && buf[0] == 0x80 && buf[1] == 0 && buf[2] == 0 && buf[3] == 0 && buf[4] == 0
}

/// `b` with the game port field set to `port`.
pub open spec fn with_port(b: Seq<u8>, port: u16) -> Seq<u8> {
    b.update(10, port as u8).update(11, (port >> 8u16) as u8)
}

/// Writes `port` into the game port field.
pub fn buf_correct_port(buf: &mut [u8], port: u16)
    requires
        old(buf)@.len() >= OFFSET_TO_PORT + 2,
    ensures
        final(buf)@ == with_port(old(buf)@, port),
{
    buf[OFFSET_TO_PORT] = port as u8;
    buf[OFFSET_TO_PORT + 1] = (port >> 8u16) as u8;
}

/// `b` with the tag inserted at `s`, the bytes from `s` to `len` moved behind it,
/// and the name length at byte 18 raised by the tag's length.
pub open spec fn with_suffix_at(b: Seq<u8>, len: int, s: int) -> Seq<u8> {
    let moved = b.subrange(0, s) + suffix_bytes() + b.subrange(s, len) + b.subrange(
        len + 12,
        b.len() as int,
    );
    moved.update(18, (moved[18] + 12) as u8)
}

/// Inserts the tag at `s`: moves the bytes from `s` to `len` twelve places up,
/// writes the tag at `s`, and raises the name length byte.
pub fn insert_suffix_at(buf: &mut [u8], len: usize, s: usize)
    requires
        OFFSET_TO_NAME <= s <= len,
        len + SUFFIX_LEN <= old(buf)@.len(),
        s == OFFSET_TO_NAME ==> old(buf)@[18] == 0,
        s > OFFSET_TO_NAME ==> old(buf)@[18] + 12 <= 255,
    ensures
        final(buf)@ == with_suffix_at(old(buf)@, len as int, s as int),
{
    let ghost b = buf@;
    let total = buf.len();
    // Move `s..len` up by the tag's length, from the top down.
    let mut j = len;
    while j > s
        invariant
            s <= j <= len,
            len + 12 <= total,
            total == b.len(),
            buf@.len() == b.len(),
            forall|k: int| 0 <= k < j + 12 && k < b.len() && !(j + 12 <= k < len + 12) ==> buf@[k]
                == b[k],
            forall|k: int| j + 12 <= k < len + 12 ==> buf@[k] == b[k - 12],
            forall|k: int| len + 12 <= k < b.len() ==> buf@[k] == b[k],
        decreases j,
    {
        j = j - 1;
        let x = buf[j];
        buf[j + SUFFIX_LEN] = x;
    }
    let tag = suffix();
    for i in 0..SUFFIX_LEN
        invariant
            s <= len,
            len + 12 <= total,
            total == b.len(),
            buf@.len() == b.len(),
            tag@ == suffix_bytes(),
            forall|k: int| 0 <= k < s ==> buf@[k] == b[k],
            forall|k: int| 0 <= k < i ==> buf@[s + k] == suffix_bytes()[k],
            forall|k: int| s + 12 <= k < len + 12 ==> buf@[k] == b[k - 12],
            forall|k: int| len + 12 <= k < b.len() ==> buf@[k] == b[k],
    {
        buf[s + i] = tag[i];
    }
    let ghost moved = b.subrange(0, s as int) + suffix_bytes() + b.subrange(s as int, len as int)
        + b.subrange(len + 12, b.len() as int);
    assert(buf@ =~= moved);
    let name_len = buf[OFFSET_TO_NAME];
    buf[OFFSET_TO_NAME] = name_len + 12;
}

/// The first zero at or after `i` depends only on the bytes from `i` on.
pub proof fn lemma_first_zero_from_ignores_prefix(b: Seq<u8>, c: Seq<u8>, i: int)
    requires
        0 <= i,
        b.len() == c.len(),
        forall|k: int| i <= k < b.len() ==> b[k] == c[k],
    ensures
        first_zero_from(c, i) == first_zero_from(b, i),
    decreases b.len() - i,
{
    if i < b.len() && b[i] != 0 {
        lemma_first_zero_from_ignores_prefix(b, c, i + 1);
    }
}


/// Inserting the tag at the name end `s` of a reply of length `len`: the
/// bytes before `s` stay (but the name length byte), the tag takes
/// `s..s + 12`, every byte of the rest of the reply `s..len` moves up by
/// twelve, the bytes behind the grown reply stay, and the name length byte
/// grows by twelve (from the tag's first byte where the name was empty).
pub proof fn lemma_suffix_insertion(b: Seq<u8>, len: int, s: int)
    requires
        18 <= s <= len,
        len + 12 <= b.len(),
    ensures
        ({
            let r = with_suffix_at(b, len, s);
            &&& r.len() == b.len()
            &&& forall|k: int| 0 <= k < s && k != 18 ==> #[trigger] r[k] == b[k]
            &&& forall|i: int| 0 <= i < 12 && s + i != 18 ==> #[trigger] r[s + i] == suffix_bytes()[i]
            &&& forall|k: int| s <= k < len ==> #[trigger] r[k + 12] == b[k]
            &&& forall|k: int| len + 12 <= k < b.len() ==> #[trigger] r[k] == b[k]
            &&& r[18] == (if s == 18 {
                0x1Bu8 + 12
            } else {
                b[18] + 12
            }) as u8
        }),
{
    let moved = b.subrange(0, s) + suffix_bytes() + b.subrange(s, len) + b.subrange(
        len + 12,
        b.len() as int,
    );
    assert forall|k: int| s <= k < len implies #[trigger] moved[k + 12] == b[k] by {
        assert(moved[k + 12] == b.subrange(s, len)[k - s]);
    }
    assert forall|k: int| len + 12 <= k < b.len() implies #[trigger] moved[k] == b[k] by {
        assert(moved[k] == b.subrange(len + 12, b.len() as int)[k - len - 12]);
    }
    assert forall|i: int| 0 <= i < 12 implies #[trigger] moved[s + i] == suffix_bytes()[i] by {}
    assert forall|k: int| 0 <= k < s implies #[trigger] moved[k] == b[k] by {}
    let r = with_suffix_at(b, len, s);
    assert forall|k: int| s <= k < len implies #[trigger] r[k + 12] == b[k] by {
        assert(moved[k + 12] == b[k]);
    }
    assert forall|i: int| 0 <= i < 12 && s + i != 18 implies #[trigger] r[s + i] == suffix_bytes()[i] by {
        assert(moved[s + i] == suffix_bytes()[i]);
    }
    assert forall|k: int| len + 12 <= k < b.len() implies #[trigger] r[k] == b[k] by {
        assert(moved[k] == b[k]);
    }
    assert forall|k: int| 0 <= k < s && k != 18 implies #[trigger] r[k] == b[k] by {
        assert(moved[k] == b[k]);
    }
    if s == 18 {
        assert(moved[18] == suffix_bytes()[0]);
    } else {
        assert(moved[18] == b[18]);
    }
}


/// Correcting the port writes it little endian at bytes 10 and 11 and leaves
/// every other byte.
pub proof fn lemma_port_field(b: Seq<u8>, port: u16)
    requires
        b.len() >= 12,
    ensures
        with_port(b, port).len() == b.len(),
        with_port(b, port)[10] as int == port % 256,
        with_port(b, port)[11] as int == port / 256,
        forall|k: int| 0 <= k < b.len() && k != 10 && k != 11 ==> #[trigger] with_port(b, port)[k]
            == b[k],
{
    assert((port as u8) as int == port % 256 && ((port >> 8u16) as u8) as int == port / 256)
        by (bit_vector);
}

} // verus!
