//! The tunnel's datagram format.
//!
//! Every message starts with a two-byte little-endian header. Control messages
//! (announce, echo) carry a sixteen-byte signature after it; data messages carry
//! the client port, inverted bit by bit and little endian, then the payload.

use vstd::prelude::*;

verus! {

pub const HDR_LEN: usize = 2;
pub const HDR_ANNOUNCE: u16 = 0xA9CE;
pub const HDR_ECHO: u16 = 0xEC50;
pub const HDR_DATA: u16 = 0xDA7A;

pub const SIGNATURE_LEN: usize = 16;
pub const SIGNATURE: u128 = 0x15E4C39682B744069FD981E52CA9C82F;

/// The little-endian bytes of a `u16`.
pub open spec fn le_bytes_u16(x: u16) -> Seq<u8> {
    seq![x as u8, (x >> 8u16) as u8]
}

/// The `u16` whose little-endian bytes are `lo`, `hi`.
pub open spec fn le_value_u16(lo: u8, hi: u8) -> u16 {
    (lo as u16) | ((hi as u16) << 8u16)
}

/// The little-endian bytes of a `u128`.
pub open spec fn le_bytes_u128(x: u128) -> Seq<u8> {
    Seq::new(16, |i: int| (x >> ((8 * i) as u128)) as u8)
}

/// The bytes of an announce message.
pub open spec fn announce_bytes() -> Seq<u8> {
    le_bytes_u16(HDR_ANNOUNCE) + le_bytes_u128(SIGNATURE)
}

/// The bytes of an echo message.
pub open spec fn echo_bytes() -> Seq<u8> {
    le_bytes_u16(HDR_ECHO) + le_bytes_u128(SIGNATURE)
}

/// The bytes of a data message for client port `port` carrying `data`.
pub open spec fn data_bytes(port: u16, data: Seq<u8>) -> Seq<u8> {
    le_bytes_u16(HDR_DATA) + le_bytes_u16(port ^ 0xFFFFu16) + data
}

/// Writes an announce message at the start of `buf` and returns it; the rest of
/// `buf` is left as it was.
pub fn msg_announce(buf: &mut [u8]) -> (msg: &[u8])
    requires
        old(buf)@.len() >= HDR_LEN + SIGNATURE_LEN,
    ensures
        msg@ == announce_bytes(),
        final(buf)@ == announce_bytes() + old(buf)@.subrange(18, old(buf)@.len() as int),
{
    set_hdr(buf, HDR_ANNOUNCE);
    set_signature(buf);
    assert(buf@ =~= announce_bytes() + old(buf)@.subrange(18, old(buf)@.len() as int));
    let msg: &[u8] = &buf[0..HDR_LEN + SIGNATURE_LEN];
    assert(msg@ =~= announce_bytes());
    msg
}

/// Writes an echo message at the start of `buf` and returns it; the rest of
/// `buf` is left as it was.
pub fn msg_echo(buf: &mut [u8]) -> (msg: &[u8])
    requires
        old(buf)@.len() >= HDR_LEN + SIGNATURE_LEN,
    ensures
        msg@ == echo_bytes(),
        final(buf)@ == echo_bytes() + old(buf)@.subrange(18, old(buf)@.len() as int),
{
    set_hdr(buf, HDR_ECHO);
    set_signature(buf);
    assert(buf@ =~= echo_bytes() + old(buf)@.subrange(18, old(buf)@.len() as int));
    let msg: &[u8] = &buf[0..HDR_LEN + SIGNATURE_LEN];
    assert(msg@ =~= echo_bytes());
    msg
}

/// Writes a data message for client port `port` carrying `data` at the start of
/// `buf` and returns it; the rest of `buf` is left as it was.
pub fn msg_data<'a>(buf: &'a mut [u8], port: u16, data: &[u8]) -> (msg: &'a [u8])
    requires
        old(buf)@.len() >= HDR_LEN + 2 + data@.len(),
    ensures
        msg@ == data_bytes(port, data@),
        final(buf)@ == data_bytes(port, data@) + old(buf)@.subrange(
            4 + data@.len() as int,
            old(buf)@.len() as int,
        ),
{
    let total = buf.len();
    set_hdr(buf, HDR_DATA);
    set_data_port(buf, port ^ 0xFFFF);
    set_data(buf, data);
    assert(4 + data@.len() <= total);
    let end = HDR_LEN + 2 + data.len();
    assert(buf@ =~= data_bytes(port, data@) + old(buf)@.subrange(
        end as int,
        old(buf)@.len() as int,
    ));
    let msg: &[u8] = &buf[0..end];
    assert(msg@ =~= data_bytes(port, data@));
    msg
}

fn set_hdr(buf: &mut [u8], hdr: u16)
    requires
        old(buf)@.len() >= HDR_LEN,
    ensures
        final(buf)@ == le_bytes_u16(hdr) + old(buf)@.subrange(2, old(buf)@.len() as int),
{
    buf[0] = hdr as u8;
    buf[1] = (hdr >> 8u16) as u8;
    assert(buf@ =~= le_bytes_u16(hdr) + old(buf)@.subrange(2, old(buf)@.len() as int));
}

fn set_signature(buf: &mut [u8])
    requires
        old(buf)@.len() >= HDR_LEN + SIGNATURE_LEN,
    ensures
        final(buf)@ == old(buf)@.subrange(0, 2) + le_bytes_u128(SIGNATURE) + old(buf)@.subrange(
            18,
            old(buf)@.len() as int,
        ),
{
    let ghost start = buf@;
    for i in 0..SIGNATURE_LEN
        invariant
            buf@.len() == start.len(),
            start.len() >= 18,
            forall|k: int| 0 <= k < 2 ==> buf@[k] == start[k],
            forall|k: int| 18 <= k < start.len() ==> buf@[k] == start[k],
            forall|k: int| 0 <= k < i ==> buf@[2 + k] == le_bytes_u128(SIGNATURE)[k],
    {
        buf[HDR_LEN + i] = (SIGNATURE >> ((8 * i) as u128)) as u8;
    }
    assert(buf@ =~= start.subrange(0, 2) + le_bytes_u128(SIGNATURE) + start.subrange(
        18,
        start.len() as int,
    ));
}

fn set_data_port(buf: &mut [u8], port: u16)
    requires
        old(buf)@.len() >= HDR_LEN + 2,
    ensures
        final(buf)@ == old(buf)@.subrange(0, 2) + le_bytes_u16(port) + old(buf)@.subrange(
            4,
            old(buf)@.len() as int,
        ),
{
    buf[HDR_LEN] = port as u8;
    buf[HDR_LEN + 1] = (port >> 8u16) as u8;
    assert(buf@ =~= old(buf)@.subrange(0, 2) + le_bytes_u16(port) + old(buf)@.subrange(
        4,
        old(buf)@.len() as int,
    ));
}

fn set_data(buf: &mut [u8], data: &[u8])
    requires
        old(buf)@.len() >= HDR_LEN + 2 + data@.len(),
    ensures
        final(buf)@ == old(buf)@.subrange(0, 4) + data@ + old(buf)@.subrange(
            4 + data@.len() as int,
            old(buf)@.len() as int,
        ),
{
    let ghost start = buf@;
    let n = data.len();
    let total = buf.len();
    for i in 0..n
        invariant
            n == data@.len(),
            total == start.len(),
            buf@.len() == start.len(),
            start.len() >= 4 + n,
            forall|k: int| 0 <= k < 4 ==> buf@[k] == start[k],
            forall|k: int| 4 + n <= k < start.len() ==> buf@[k] == start[k],
            forall|k: int| 0 <= k < i ==> buf@[4 + k] == data@[k],
    {
        buf[HDR_LEN + 2 + i] = data[i];
    }
    assert(buf@ =~= start.subrange(0, 4) + data@ + start.subrange(4 + n, start.len() as int));
}

/// A message as the tunnel reads it.
pub enum Message<'a> {
    Announce,
    Echo,
    Data(u16, &'a [u8]),
}

/// What a [`Message`] says, with its payload as a sequence.
pub enum MessageView {
    Announce,
    Echo,
    Data(u16, Seq<u8>),
}

impl<'a> View for Message<'a> {
    type V = MessageView;

    open spec fn view(&self) -> MessageView {
        match self {
            Message::Announce => MessageView::Announce,
            Message::Echo => MessageView::Echo,
            Message::Data(port, data) => MessageView::Data(*port, data@),
        }
    }
}

/// `Some` of the view of the message, or `None`.
pub open spec fn message_option_view(m: Option<Message>) -> Option<MessageView> {
    match m {
        Some(m) => Some(m@),
        None => None,
    }
}

/// `buf` starts with the header `hdr`.
pub open spec fn has_hdr(buf: Seq<u8>, hdr: u16) -> bool {
    &&& buf.len() >= HDR_LEN
    &&& buf.subrange(0, 2) == le_bytes_u16(hdr)
}

/// `buf` holds the signature right after its header.
pub open spec fn has_signature(buf: Seq<u8>) -> bool {
    &&& buf.len() >= HDR_LEN + SIGNATURE_LEN
    &&& buf.subrange(2, 18) == le_bytes_u128(SIGNATURE)
}

/// The message that `buf` holds, if any: a data header makes a data message
/// whatever follows; an echo or announce header makes that message when the
/// signature follows it, and no message otherwise; any other start is no message.
/// Bytes after the signature of a control message are ignored.
pub open spec fn spec_msg_kind(buf: Seq<u8>) -> Option<MessageView> {
    if has_hdr(buf, HDR_DATA) {
        Some(
            MessageView::Data(
                0xFFFFu16 ^ le_value_u16(buf[2], buf[3]),
                buf.subrange(4, buf.len() as int),
            ),
        )
    } else if has_hdr(buf, HDR_ECHO) {
        if has_signature(buf) {
            Some(MessageView::Echo)
        } else {
            None
        }
    } else if has_hdr(buf, HDR_ANNOUNCE) {
        if has_signature(buf) {
            Some(MessageView::Announce)
        } else {
            None
        }
    } else {
        None
    }
}

/// `msg_kind` can read `buf`: a buffer with a data header is long enough to hold
/// the port.
pub open spec fn msg_kind_readable(buf: Seq<u8>) -> bool {
    has_hdr(buf, HDR_DATA) ==> buf.len() >= HDR_LEN + 2
}

/// Reads the message that `buf` holds; a data message borrows its payload from
/// `buf`.
pub fn msg_kind(buf: &[u8]) -> (msg: Option<Message<'_>>)
    requires
        msg_kind_readable(buf@),
    ensures
        message_option_view(msg) == spec_msg_kind(buf@),
        msg matches Some(Message::Data(_, data)) ==> data@ == buf@.subrange(4, buf@.len() as int),
{
    if check_hdr(buf, HDR_DATA) {
        let lo = buf[HDR_LEN];
        let hi = buf[HDR_LEN + 1];
        let raw: u16 = (lo as u16) | ((hi as u16) << 8u16);
        let payload: &[u8] = &buf[HDR_LEN + 2..buf.len()];
        return Some(Message::Data(0xFFFF ^ raw, payload));
    }
    if check_hdr(buf, HDR_ECHO) {
        if !check_signature(buf) {
            return None;
        }
        return Some(Message::Echo);
    }
    if check_hdr(buf, HDR_ANNOUNCE) {
        if !check_signature(buf) {
            return None;
        }
        return Some(Message::Announce);
    }
    None
}

fn check_hdr(buf: &[u8], hdr: u16) -> (b: bool)
    ensures
        b == has_hdr(buf@, hdr),
{
    if buf.len() < HDR_LEN {
        return false;
    }
    let b = buf[0] == hdr as u8 && buf[1] == (hdr >> 8u16) as u8;
    assert(b == (buf@.subrange(0, 2) =~= le_bytes_u16(hdr)));
    b
}

fn check_signature(buf: &[u8]) -> (b: bool)
    ensures
        b == has_signature(buf@),
{
    if buf.len() < HDR_LEN + SIGNATURE_LEN {
        return false;
    }
    for i in 0..SIGNATURE_LEN
        invariant
            buf@.len() >= 18,
            forall|k: int| 0 <= k < i ==> buf@[2 + k] == le_bytes_u128(SIGNATURE)[k],
    {
        if buf[HDR_LEN + i] != (SIGNATURE >> ((8 * i) as u128)) as u8 {
            assert(buf@.subrange(2, 18)[i as int] != le_bytes_u128(SIGNATURE)[i as int]);
            return false;
        }
    }
    assert(buf@.subrange(2, 18) =~= le_bytes_u128(SIGNATURE));
    true
}

proof fn lemma_le_u16_roundtrip(x: u16)
    ensures
        le_value_u16(x as u8, (x >> 8u16) as u8) == x,
{
    assert(((x as u8) as u16) | ((((x >> 8u16) as u8) as u16) << 8u16) == x) by (bit_vector);
}

proof fn lemma_le_u16_bytes_of_value(lo: u8, hi: u8)
    ensures
        le_bytes_u16(le_value_u16(lo, hi)) == seq![lo, hi],
{
    let v = le_value_u16(lo, hi);
    assert(((lo as u16) | ((hi as u16) << 8u16)) as u8 == lo) by (bit_vector);
    assert((((lo as u16) | ((hi as u16) << 8u16)) >> 8u16) as u8 == hi) by (bit_vector);
    assert(le_bytes_u16(v) =~= seq![lo, hi]);
}

proof fn lemma_headers_distinct()
    ensures
        le_bytes_u16(HDR_DATA)[0] != le_bytes_u16(HDR_ECHO)[0],
        le_bytes_u16(HDR_DATA)[0] != le_bytes_u16(HDR_ANNOUNCE)[0],
        le_bytes_u16(HDR_ECHO)[0] != le_bytes_u16(HDR_ANNOUNCE)[0],
{
    assert((0xDA7Au16 as u8) != (0xEC50u16 as u8)) by (bit_vector);
    assert((0xDA7Au16 as u8) != (0xA9CEu16 as u8)) by (bit_vector);
    assert((0xEC50u16 as u8) != (0xA9CEu16 as u8)) by (bit_vector);
}

/// A data message reads back as the port and payload it was written with.
pub proof fn lemma_data_roundtrip(port: u16, data: Seq<u8>)
    ensures
        spec_msg_kind(data_bytes(port, data)) == Some(MessageView::Data(port, data)),
{
    let b = data_bytes(port, data);
    let raw = port ^ 0xFFFFu16;
    assert(b.subrange(0, 2) =~= le_bytes_u16(HDR_DATA));
    assert(b[2] == raw as u8 && b[3] == (raw >> 8u16) as u8);
    lemma_le_u16_roundtrip(raw);
    assert(0xFFFFu16 ^ (port ^ 0xFFFFu16) == port) by (bit_vector);
    assert(b.subrange(4, b.len() as int) =~= data);
}

/// An announce message, followed by any bytes, reads back as an announce.
pub proof fn lemma_announce_roundtrip(tail: Seq<u8>)
    ensures
        spec_msg_kind(announce_bytes() + tail) == Some(MessageView::Announce),
{
    let b = announce_bytes() + tail;
    lemma_headers_distinct();
    assert(b.subrange(0, 2) =~= le_bytes_u16(HDR_ANNOUNCE));
    assert(b.subrange(2, 18) =~= le_bytes_u128(SIGNATURE));
    assert(b.subrange(0, 2)[0] == b[0]);
}

/// An echo message, followed by any bytes, reads back as an echo.
pub proof fn lemma_echo_roundtrip(tail: Seq<u8>)
    ensures
        spec_msg_kind(echo_bytes() + tail) == Some(MessageView::Echo),
{
    let b = echo_bytes() + tail;
    lemma_headers_distinct();
    assert(b.subrange(0, 2) =~= le_bytes_u16(HDR_ECHO));
    assert(b.subrange(2, 18) =~= le_bytes_u128(SIGNATURE));
    assert(b.subrange(0, 2)[0] == b[0]);
}

/// Whatever reads as a data message is exactly the encoding of its port and
/// payload; whatever reads as an announce or an echo starts with that message's
/// encoding.
pub proof fn lemma_parse_encode(buf: Seq<u8>)
    requires
        msg_kind_readable(buf),
    ensures
        spec_msg_kind(buf) matches Some(MessageView::Data(port, data)) ==> data_bytes(port, data)
            == buf,
        spec_msg_kind(buf) == Some(MessageView::Announce) ==> buf.subrange(0, 18)
            == announce_bytes(),
        spec_msg_kind(buf) == Some(MessageView::Echo) ==> buf.subrange(0, 18) == echo_bytes(),
{
    if has_hdr(buf, HDR_DATA) {
        let raw = le_value_u16(buf[2], buf[3]);
        let port = 0xFFFFu16 ^ raw;
        assert(port ^ 0xFFFFu16 == raw) by (bit_vector)
            requires
                port == 0xFFFFu16 ^ raw,
        ;
        lemma_le_u16_bytes_of_value(buf[2], buf[3]);
        assert(data_bytes(port, buf.subrange(4, buf.len() as int)) =~= buf);
    } else if spec_msg_kind(buf) is Some {
        assert(buf.subrange(0, 18) =~= buf.subrange(0, 2) + buf.subrange(2, 18));
    }
}

/// The wire format: an announce is `CE A9` and an echo `50 EC`, each followed
/// by the signature `2F C8 A9 2C E5 81 D9 9F 06 44 B7 82 96 C3 E4 15`; a data
/// message is `7A DA`, the port's low and high byte each inverted, then the
/// payload as it is.
pub proof fn lemma_wire_format(port: u16, data: Seq<u8>)
    ensures
        announce_bytes() == seq![0xCEu8, 0xA9, 0x2F, 0xC8, 0xA9, 0x2C, 0xE5, 0x81, 0xD9, 0x9F, 0x06, 0x44, 0xB7, 0x82, 0x96, 0xC3, 0xE4, 0x15],
        echo_bytes() == seq![0x50u8, 0xEC, 0x2F, 0xC8, 0xA9, 0x2C, 0xE5, 0x81, 0xD9, 0x9F, 0x06, 0x44, 0xB7, 0x82, 0x96, 0xC3, 0xE4, 0x15],
        data_bytes(port, data).len() == 4 + data.len(),
        data_bytes(port, data)[0] == 0x7A,
        data_bytes(port, data)[1] == 0xDA,
        data_bytes(port, data)[2] == 0xFF - (port % 256),
        data_bytes(port, data)[3] == 0xFF - (port / 256),
        data_bytes(port, data).subrange(4, 4 + data.len() as int) == data,
{
    let x = SIGNATURE;
    assert(
        (x >> 0u128) as u8 == 0x2F && (x >> 8u128) as u8 == 0xC8 && (x >> 16u128) as u8 == 0xA9
        && (x >> 24u128) as u8 == 0x2C && (x >> 32u128) as u8 == 0xE5 && (x >> 40u128) as u8 == 0x81
        && (x >> 48u128) as u8 == 0xD9 && (x >> 56u128) as u8 == 0x9F && (x >> 64u128) as u8 == 0x06
        && (x >> 72u128) as u8 == 0x44 && (x >> 80u128) as u8 == 0xB7 && (x >> 88u128) as u8 == 0x82
        && (x >> 96u128) as u8 == 0x96 && (x >> 104u128) as u8 == 0xC3 && (x >> 112u128) as u8 == 0xE4
        && (x >> 120u128) as u8 == 0x15
    ) by (bit_vector)
        requires
            x == 0x15E4C39682B744069FD981E52CA9C82Fu128,
    ;
    assert(le_bytes_u128(SIGNATURE) =~= seq![0x2Fu8, 0xC8, 0xA9, 0x2C, 0xE5, 0x81, 0xD9, 0x9F, 0x06, 0x44, 0xB7, 0x82, 0x96, 0xC3, 0xE4, 0x15]);
    assert((HDR_ANNOUNCE as u8) == 0xCE && ((HDR_ANNOUNCE >> 8u16) as u8) == 0xA9) by (bit_vector)
        requires HDR_ANNOUNCE == 0xA9CEu16;
    assert((HDR_ECHO as u8) == 0x50 && ((HDR_ECHO >> 8u16) as u8) == 0xEC) by (bit_vector)
        requires HDR_ECHO == 0xEC50u16;
    assert((HDR_DATA as u8) == 0x7A && ((HDR_DATA >> 8u16) as u8) == 0xDA) by (bit_vector)
        requires HDR_DATA == 0xDA7Au16;
    assert(announce_bytes() =~= seq![0xCEu8, 0xA9, 0x2F, 0xC8, 0xA9, 0x2C, 0xE5, 0x81, 0xD9, 0x9F, 0x06, 0x44, 0xB7, 0x82, 0x96, 0xC3, 0xE4, 0x15]);
    assert(echo_bytes() =~= seq![0x50u8, 0xEC, 0x2F, 0xC8, 0xA9, 0x2C, 0xE5, 0x81, 0xD9, 0x9F, 0x06, 0x44, 0xB7, 0x82, 0x96, 0xC3, 0xE4, 0x15]);
    let r = port ^ 0xFFFFu16;
    assert((r as u8) as int == 0xFF - (port % 256) && ((r >> 8u16) as u8) as int == 0xFF - (port / 256)) by (bit_vector)
        requires r == port ^ 0xFFFFu16;
    assert(data_bytes(port, data).subrange(4, 4 + data.len() as int) =~= data);
}

} // verus!
