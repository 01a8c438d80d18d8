//! The relay proxy with a configurable session timeout: the name tag it
//! appends to status replies, the timeout it reads from its environment, and the
//! way it reports receive errors from the game server.

use vstd::prelude::*;
use crate::session::{RecvErrorKind, ServerRecvAction};
use crate::decimal::{parse_u64, spec_parse_unsigned};
use crate::query::{
    check_query_reply, find_zero, first_zero_from, insert_suffix_at, is_query_reply,
    lemma_first_zero_from, suffix_bytes, with_port, with_suffix_at, buf_correct_port, OFFSET_TO_NAME,
    OFFSET_TO_PORT, SUFFIX_LEN,
};

verus! {

/// The name of the environment variable that holds the timeout in seconds.
pub const ENV_TIMEOUT_SECS: &'static str = "KFTUN_TIMEOUT_SECS";

/// The session timeout when the environment sets none that parses.
pub const DEFAULT_TIMEOUT_SECS: u64 = 10;

/// The timeout that the environment value `var` sets.
pub open spec fn spec_timeout_secs(var: Option<Seq<char>>) -> u64 {
    match var {
        None => DEFAULT_TIMEOUT_SECS,
        Some(s) => match spec_parse_unsigned(s, u64::MAX as nat) {
            Some(x) => x as u64,
            None => DEFAULT_TIMEOUT_SECS,
        },
    }
}

/// The session timeout in seconds, from the value of `KFTUN_TIMEOUT_SECS` if it
/// is set (`None` where it is not): a decimal `u64`, or the default where the
/// value does not parse.
pub fn get_timeout_secs(var: Option<&str>) -> (secs: u64)
    ensures
        secs == spec_timeout_secs(
            match var {
                Some(s) => Some(s@),
                None => None,
            },
        ),
{
    match var {
        None => DEFAULT_TIMEOUT_SECS,
        Some(s) => match parse_u64(s) {
            Some(x) => x,
            None => DEFAULT_TIMEOUT_SECS,
        },
    }
}

/// How often expired sessions are dropped: half the timeout, in whole seconds.
pub fn get_cleanup_period_secs(timeout_secs: u64) -> (secs: u64)
    ensures
        secs == timeout_secs / 2,
{
    timeout_secs / 2
}

/// The relay's tag insertion is defined on `b` with length `len`: the length
/// fits the buffer and, where the tag fits behind it, the name length byte
/// exists and the name ends within the reply.
pub open spec fn insert_defined(b: Seq<u8>, len: int) -> bool {
    &&& 0 <= len <= b.len()
    &&& 12 <= b.len() - len ==> {
        &&& b.len() > 18
        &&& 12 < 255 - b[18] ==> (first_zero_from(b, 18) matches Some(s) ==> s <= len)
    }
}

/// The buffer and length after the relay's tag insertion: the tag goes in at
/// the end of the name where the buffer has room for it behind the reply, the
/// name length byte is below 243, and a zero byte ends the name; otherwise
/// nothing changes.
pub open spec fn insert_result(b: Seq<u8>, len: int) -> (Seq<u8>, int) {
    if 12 <= b.len() - len && 12 < 255 - b[18] {
        match first_zero_from(b, 18) {
            Some(s) => (with_suffix_at(b, len, s), len + 12),
            None => (b, len),
        }
    } else {
        (b, len)
    }
}

/// Tells whether `buf_insert_name_suffix` is defined on `buf` and `len`.
pub fn can_insert_name_suffix(buf: &[u8], len: usize) -> (b: bool)
    ensures
        b == insert_defined(buf@, len as int),
{
    if len > buf.len() {
        return false;
    }
    if SUFFIX_LEN > buf.len() - len {
        return true;
    }
    if buf.len() <= OFFSET_TO_NAME {
        return false;
    }
    if SUFFIX_LEN >= 255 - buf[OFFSET_TO_NAME] as usize {
        return true;
    }
    match find_zero(buf, OFFSET_TO_NAME) {
        Some(s) => s <= len,
        None => true,
    }
}

/// Appends the tag to the server name of the reply `buf[..len]`, where the
/// buffer has room for it and the name stays short enough.
pub fn buf_insert_name_suffix(buf: &mut [u8], len: &mut usize)
    requires
        insert_defined(old(buf)@, *old(len) as int),
    ensures
        (final(buf)@, *final(len) as int) == insert_result(old(buf)@, *old(len) as int),
{
    if SUFFIX_LEN <= buf.len() - *len {
        if SUFFIX_LEN >= 255 - buf[OFFSET_TO_NAME] as usize {
            return;
        }
        let pos = match find_zero(buf, OFFSET_TO_NAME) {
            Some(pos) => pos,
            None => return,
        };
        proof {
            lemma_first_zero_from(buf@, 18);
        }
        insert_suffix_at(buf, *len, pos);
        *len = *len + SUFFIX_LEN;
    }
}

/// `buf[..n]` can be patched for `port`: where it is a status reply, the buffer
/// holds the port field and the tag insertion is defined after the port is set.
pub open spec fn patch_defined(b: Seq<u8>, n: int, port: u16) -> bool {
    &&& 0 <= n <= b.len()
    &&& is_query_reply(b.subrange(0, n)) ==> b.len() >= 12 && insert_defined(
        with_port(b, port),
        n,
    )
}

/// Tells whether `patch_query_reply` is defined on `buf`, `n` and `port`.
pub fn can_patch_query_reply(buf: &[u8], n: usize, port: u16) -> (b: bool)
    ensures
        b == patch_defined(buf@, n as int, port),
{
    if n > buf.len() {
        return false;
    }
    if !check_query_reply(buf, n) {
        return true;
    }
    if buf.len() < OFFSET_TO_PORT + 2 {
        return false;
    }
    proof {
        crate::query::lemma_first_zero_from_ignores_prefix(buf@, with_port(buf@, port), 18);
    }
    can_insert_name_suffix(buf, n)
}

/// What the relay does to a reply of `n` bytes from the game server before it
/// passes it on: a status reply gets the relay's game port `port` and the name
/// tag; any other reply is left as it is.
pub fn patch_query_reply(buf: &mut [u8], n: &mut usize, port: u16)
    requires
        patch_defined(old(buf)@, *old(n) as int, port),
    ensures
        is_query_reply(old(buf)@.subrange(0, *old(n) as int)) ==> (final(buf)@, *final(n) as int)
            == insert_result(with_port(old(buf)@, port), *old(n) as int),
        !is_query_reply(old(buf)@.subrange(0, *old(n) as int)) ==> final(buf)@ == old(buf)@
            && *final(n) == *old(n),
{
    if check_query_reply(buf, *n) {
        buf_correct_port(buf, port);
        buf_insert_name_suffix(buf, n);
    }
}

/// The action and the new "last receive was a reset" flag after a failed
/// receive of kind `kind` from the game server, when the flag was `was_reset`:
/// a connection reset right after another one is not reported again.
pub open spec fn reset_step(was_reset: bool, kind: RecvErrorKind) -> (ServerRecvAction, bool) {
    let is_reset = kind is ConnectionReset;
    let action = match kind {
        RecvErrorKind::WouldBlock => ServerRecvAction::Ignore,
        RecvErrorKind::TimedOut => ServerRecvAction::Expire,
        _ => if is_reset && was_reset {
            ServerRecvAction::Ignore
        } else {
            ServerRecvAction::Report
        },
    };
    (action, is_reset)
}

/// Remembers, for one session, whether its last receive from the game server
/// failed with a connection reset, so that a run of resets is reported once.
pub struct ResetTracker {
    last_was_reset: bool,
}

impl View for ResetTracker {
    type V = bool;

    closed spec fn view(&self) -> bool {
        self.last_was_reset
    }
}

impl ResetTracker {
    /// A session that has seen no error yet.
    pub fn new() -> (t: Self)
        ensures
            t@ == false,
    {
        ResetTracker { last_was_reset: false }
    }

    /// A reply arrived from the game server.
    pub fn on_receive(&mut self)
        ensures
            final(self)@ == false,
    {
        self.last_was_reset = false;
    }

    /// A receive from the game server failed with `kind`: says what to do.
    pub fn on_error(&mut self, kind: RecvErrorKind) -> (action: ServerRecvAction)
        ensures
            (action, final(self)@) == reset_step(old(self)@, kind),
    {
        let was_reset = self.last_was_reset;
        let is_reset = match kind {
            RecvErrorKind::ConnectionReset => true,
            _ => false,
        };
        self.last_was_reset = is_reset;
        match kind {
            RecvErrorKind::WouldBlock => ServerRecvAction::Ignore,
            RecvErrorKind::TimedOut => ServerRecvAction::Expire,
            _ => if is_reset && was_reset {
                ServerRecvAction::Ignore
            } else {
                ServerRecvAction::Report
            },
        }
    }
}

/// In a run of connection resets, only the first is reported: after a reply or
/// any other error, a reset is reported, and a reset right after a reset is not.
pub proof fn lemma_reset_run_reported_once(was_reset: bool, kind: RecvErrorKind)
    ensures
        reset_step(false, RecvErrorKind::ConnectionReset).0 == ServerRecvAction::Report,
        !(kind is ConnectionReset) ==> reset_step(reset_step(was_reset, kind).1, RecvErrorKind::ConnectionReset).0
            == ServerRecvAction::Report,
        reset_step(reset_step(was_reset, RecvErrorKind::ConnectionReset).1, RecvErrorKind::ConnectionReset).0
            == ServerRecvAction::Ignore,
{
}


/// The relay tags a reply exactly when the buffer has room for the tag behind
/// it, the name length byte is below 243, and a zero byte ends the name; then
/// the reply grows by the tag's length, the tag goes at the first zero from
/// byte 18 on (the name's end), and every byte from there to the old end moves
/// up behind it. Otherwise buffer and length stay.
pub proof fn lemma_relay_tagging(b: Seq<u8>, len: int)
    requires
        insert_defined(b, len),
    ensures
        insert_result(b, len).1 == len + 12 <==> (b.len() - len >= 12 && b[18] < 243
            && first_zero_from(b, 18) is Some),
        insert_result(b, len).1 != len + 12 ==> insert_result(b, len) == (b, len),
        insert_result(b, len).1 == len + 12 ==> ({
            let s = first_zero_from(b, 18)->0;
            let r = insert_result(b, len).0;
            &&& 18 <= s <= len && b[s] == 0
            &&& forall|k: int| 18 <= k < s ==> b[k] != 0
            &&& r.len() == b.len()
            &&& forall|k: int| 0 <= k < s && k != 18 ==> #[trigger] r[k] == b[k]
            &&& forall|i: int| 0 <= i < 12 && s + i != 18 ==> #[trigger] r[s + i] == suffix_bytes()[i]
            &&& forall|k: int| s <= k < len ==> #[trigger] r[k + 12] == b[k]
            &&& forall|k: int| len + 12 <= k < b.len() ==> #[trigger] r[k] == b[k]
            &&& r[18] <= 254
        }),
{
    if b.len() - len >= 12 && b[18] < 243 {
        lemma_first_zero_from(b, 18);
        if let Some(s) = first_zero_from(b, 18) {
            crate::query::lemma_suffix_insertion(b, len, s);
        }
    }
}

} // verus!
