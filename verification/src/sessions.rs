//! The session table of a relay's receive loop: one socket towards the game
//! server for each client, opened on the client's first datagram, and dropped
//! at a cleanup once the session has timed out.
//!
//! Times are ticks of a monotonic clock in any unit, the cleanup period in the
//! same unit. A tick that is earlier than the last cleanup counts as no time
//! passed, as `Instant::duration_since` does.

use vstd::prelude::*;
use crate::peer::PeerAddr;

verus! {

/// What to do with a datagram from a client.
pub enum DatagramAction<'a, S> {
    /// Drop it: an empty datagram on a relay that ignores those.
    Ignore,
    /// Send it on the client's session socket.
    Forward(&'a S),
    /// The client has no session: open a socket towards the game server, send
    /// the datagram on it, and report the outcome with `opened`.
    Open,
}

/// A [`DatagramAction`] with the socket by value.
pub enum DatagramDecision<S> {
    Ignore,
    Forward(S),
    Open,
}

impl<'a, S> DatagramAction<'a, S> {
    pub open spec fn decision(&self) -> DatagramDecision<S> {
        match self {
            DatagramAction::Ignore => DatagramDecision::Ignore,
            DatagramAction::Forward(s) => DatagramDecision::Forward(**s),
            DatagramAction::Open => DatagramDecision::Open,
        }
    }
}

/// What the session table holds.
pub struct SessionsView<S> {
    /// Each client's session socket.
    pub sockets: Map<PeerAddr, S>,
    /// When the last cleanup ran (or the table was made).
    pub last_cleanup: u64,
    /// How long to wait between cleanups.
    pub period: u64,
    /// Empty datagrams from clients are dropped.
    pub ignore_empty: bool,
}

/// The time from `last` to `now`, or none where `now` is earlier.
pub open spec fn elapsed(last: u64, now: u64) -> int {
    if now >= last {
        now - last
    } else {
        0
    }
}

/// The decision on a datagram of `len` bytes from `from`.
pub open spec fn spec_on_datagram<S>(v: SessionsView<S>, from: PeerAddr, len: nat) -> DatagramDecision<S> {
    if v.ignore_empty && len == 0 {
        DatagramDecision::Ignore
    } else if v.sockets.contains_key(from) {
        DatagramDecision::Forward(v.sockets[from])
    } else {
        DatagramDecision::Open
    }
}

/// The table after a socket was opened for `from` and the first datagram was
/// sent on it (`sent`) or not, and whether the session was registered: only
/// after a successful first send, and never over an existing session.
pub open spec fn spec_opened<S>(v: SessionsView<S>, from: PeerAddr, socket: S, sent: bool) -> (
    SessionsView<S>,
    bool,
) {
    if sent && !v.sockets.contains_key(from) {
        (SessionsView { sockets: v.sockets.insert(from, socket), ..v }, true)
    } else {
        (v, false)
    }
}

/// A cleanup is due at `now`.
pub open spec fn spec_cleanup_due<S>(v: SessionsView<S>, now: u64) -> bool {
    elapsed(v.last_cleanup, now) >= v.period
}

/// The table after a tick at `now` with the timed-out clients `expired`, and
/// whether it cleaned up: when due, every expired client's session goes and
/// the cleanup time becomes `now`; otherwise nothing changes.
pub open spec fn spec_tick<S>(v: SessionsView<S>, now: u64, expired: Seq<PeerAddr>) -> (
    SessionsView<S>,
    bool,
) {
    if spec_cleanup_due(v, now) {
        (
            SessionsView {
                sockets: v.sockets.remove_keys(expired.to_set()),
                last_cleanup: now,
                ..v
            },
            true,
        )
    } else {
        (v, false)
    }
}

/// One socket per client: once a client's session is registered, its
/// datagrams go out on that session's socket, and no later opening replaces it.
pub proof fn lemma_one_socket_per_client<S>(
    v: SessionsView<S>,
    from: PeerAddr,
    socket: S,
    other: S,
    sent: bool,
    len: nat,
)
    requires
        !(v.ignore_empty && len == 0),
    ensures
        spec_opened(v, from, socket, true).0.sockets.contains_key(from),
        spec_on_datagram(spec_opened(v, from, socket, true).0, from, len) == DatagramDecision::Forward(
            spec_opened(v, from, socket, true).0.sockets[from],
        ),
        !v.sockets.contains_key(from) ==> spec_opened(v, from, socket, true).0.sockets[from]
            == socket,
        ({
            let w = spec_opened(v, from, socket, true).0;
            spec_opened(w, from, other, sent).0 == w
        }),
{
}

/// A session goes only at a cleanup, only once its client timed out: neither
/// a datagram nor an opening removes one, and a tick removes a client's
/// session only when it cleaned up and the client is among the expired.
pub proof fn lemma_removal_only_at_cleanup<S>(
    v: SessionsView<S>,
    k: PeerAddr,
    from: PeerAddr,
    socket: S,
    sent: bool,
    now: u64,
    expired: Seq<PeerAddr>,
)
    requires
        v.sockets.contains_key(k),
    ensures
        spec_opened(v, from, socket, sent).0.sockets.contains_key(k),
        spec_opened(v, from, socket, sent).0.sockets[k] == v.sockets[k],
        !spec_tick(v, now, expired).0.sockets.contains_key(k) <==> (spec_tick(v, now, expired).1
            && expired.contains(k)),
        spec_tick(v, now, expired).0.sockets.contains_key(k) ==> spec_tick(v, now, expired).0.sockets[k]
            == v.sockets[k],
{
    if spec_cleanup_due(v, now) {
        assert(expired.to_set().contains(k) <==> expired.contains(k));
    }
}

/// The entries hold each client once.
pub open spec fn keys_unique<S>(e: Seq<(PeerAddr, S)>) -> bool {
    forall|i: int, j: int|
        0 <= i < e.len() && 0 <= j < e.len() && i != j ==> #[trigger] e[i].0 != #[trigger] e[j].0
}

pub open spec fn has_key<S>(e: Seq<(PeerAddr, S)>, k: PeerAddr) -> bool {
    exists|i: int| 0 <= i < e.len() && #[trigger] e[i].0 == k
}

pub open spec fn key_index<S>(e: Seq<(PeerAddr, S)>, k: PeerAddr) -> int {
    choose|i: int| 0 <= i < e.len() && #[trigger] e[i].0 == k
}

/// The map that the entries stand for.
pub open spec fn entries_map<S>(e: Seq<(PeerAddr, S)>) -> Map<PeerAddr, S> {
    Map::new(|k: PeerAddr| has_key(e, k), |k: PeerAddr| e[key_index(e, k)].1)
}

proof fn lemma_key_index<S>(e: Seq<(PeerAddr, S)>, k: PeerAddr, i: int)
    requires
        keys_unique(e),
        0 <= i < e.len(),
        e[i].0 == k,
    ensures
        has_key(e, k),
        key_index(e, k) == i,
        entries_map(e).contains_key(k),
        entries_map(e)[k] == e[i].1,
{
    assert(has_key(e, k));
    let j = key_index(e, k);
    assert(e[j].0 == k);
}

proof fn lemma_push<S>(e: Seq<(PeerAddr, S)>, k: PeerAddr, s: S)
    requires
        keys_unique(e),
        !has_key(e, k),
    ensures
        keys_unique(e.push((k, s))),
        entries_map(e.push((k, s))) == entries_map(e).insert(k, s),
{
    let f = e.push((k, s));
    assert forall|i: int, j: int|
        0 <= i < f.len() && 0 <= j < f.len() && i != j implies #[trigger] f[i].0 != #[trigger] f[j].0 by {
        if i < e.len() && j < e.len() {
            assert(f[i] == e[i] && f[j] == e[j]);
        } else if i < e.len() {
            assert(f[i] == e[i]);
        } else {
            assert(f[j] == e[j]);
        }
    }
    assert forall|x: PeerAddr| #[trigger] entries_map(f).contains_key(x) <==> entries_map(
        e,
    ).insert(k, s).contains_key(x) by {
        if has_key(e, x) {
            let i = key_index(e, x);
            assert(f[i] == e[i]);
        }
        if has_key(f, x) && x != k {
            let i = key_index(f, x);
            assert(i < e.len());
            assert(f[i] == e[i]);
        }
        if x == k {
            assert(f[e.len() as int].0 == k);
        }
    }
    assert forall|x: PeerAddr| #[trigger] entries_map(f).contains_key(x) implies entries_map(f)[x]
        == entries_map(e).insert(k, s)[x] by {
        if x == k {
            lemma_key_index(f, k, e.len() as int);
        } else {
            let i = key_index(e, x);
            assert(f[i] == e[i]);
            lemma_key_index(f, x, i);
            lemma_key_index(e, x, i);
        }
    }
    assert(entries_map(f) =~= entries_map(e).insert(k, s));
}

proof fn lemma_remove_at<S>(e: Seq<(PeerAddr, S)>, i: int)
    requires
        keys_unique(e),
        0 <= i < e.len(),
    ensures
        keys_unique(e.remove(i)),
        entries_map(e.remove(i)) == entries_map(e).remove(e[i].0),
{
    let f = e.remove(i);
    let k = e[i].0;
    assert forall|a: int, b: int|
        0 <= a < f.len() && 0 <= b < f.len() && a != b implies #[trigger] f[a].0 != #[trigger] f[b].0 by {
        let a2 = if a < i { a } else { a + 1 };
        let b2 = if b < i { b } else { b + 1 };
        assert(f[a] == e[a2] && f[b] == e[b2]);
    }
    assert forall|x: PeerAddr| #[trigger] entries_map(f).contains_key(x) <==> entries_map(
        e,
    ).remove(k).contains_key(x) by {
        if has_key(e, x) && x != k {
            let j = key_index(e, x);
            assert(j != i);
            let j2 = if j < i { j } else { j - 1 };
            assert(f[j2] == e[j]);
        }
        if has_key(f, x) {
            let j = key_index(f, x);
            let j2 = if j < i { j } else { j + 1 };
            assert(f[j] == e[j2]);
            assert(j2 != i);
        }
    }
    assert forall|x: PeerAddr| #[trigger] entries_map(f).contains_key(x) implies entries_map(f)[x]
        == entries_map(e).remove(k)[x] by {
        let j = key_index(f, x);
        let j2 = if j < i { j } else { j + 1 };
        assert(f[j] == e[j2]);
        lemma_key_index(f, x, j);
        lemma_key_index(e, x, j2);
    }
    assert(entries_map(f) =~= entries_map(e).remove(k));
}

fn find_key<S>(entries: &Vec<(PeerAddr, S)>, k: PeerAddr) -> (r: Option<usize>)
    ensures
        match r {
            Some(i) => i < entries@.len() && entries@[i as int].0 == k,
            None => !has_key(entries@, k),
        },
{
    let n = entries.len();
    for i in 0..n
        invariant
            n == entries@.len(),
            forall|j: int| 0 <= j < i ==> entries@[j].0 != k,
    {
        if entries[i].0 == k {
            return Some(i);
        }
    }
    None
}

/// The session table.
pub struct Sessions<S> {
    entries: Vec<(PeerAddr, S)>,
    last_cleanup: u64,
    period: u64,
    ignore_empty: bool,
}

impl<S> View for Sessions<S> {
    type V = SessionsView<S>;

    closed spec fn view(&self) -> SessionsView<S> {
        SessionsView {
            sockets: entries_map(self.entries@),
            last_cleanup: self.last_cleanup,
            period: self.period,
            ignore_empty: self.ignore_empty,
        }
    }
}

impl<S> Sessions<S> {
    #[verifier::type_invariant]
    spec fn inv(self) -> bool {
        keys_unique(self.entries@)
    }

    /// An empty table made at `now`, cleaning up every `period`; `ignore_empty`
    /// says whether empty datagrams from clients are dropped.
    pub fn new(now: u64, period: u64, ignore_empty: bool) -> (t: Self)
        ensures
            t@.sockets == Map::<PeerAddr, S>::empty(),
            t@.last_cleanup == now,
            t@.period == period,
            t@.ignore_empty == ignore_empty,
    {
        let t = Sessions { entries: Vec::new(), last_cleanup: now, period, ignore_empty };
        assert(entries_map(t.entries@) =~= Map::<PeerAddr, S>::empty());
        t
    }

    /// What to do with a datagram of `len` bytes from `from`.
    pub fn on_datagram(&self, from: PeerAddr, len: usize) -> (action: DatagramAction<'_, S>)
        ensures
            action.decision() == spec_on_datagram(self@, from, len as nat),
    {
        proof {
            use_type_invariant(self);
        }
        if self.ignore_empty && len == 0 {
            return DatagramAction::Ignore;
        }
        match find_key(&self.entries, from) {
            Some(i) => {
                proof {
                    lemma_key_index(self.entries@, from, i as int);
                }
                DatagramAction::Forward(&self.entries[i].1)
            },
            None => DatagramAction::Open,
        }
    }

    /// A socket was opened for `from` and the first datagram was sent on it
    /// (`sent`) or not: registers the session where that send went out and the
    /// client has none yet, and says whether it did.
    pub fn opened(&mut self, from: PeerAddr, socket: S, sent: bool) -> (registered: bool)
        ensures
            (final(self)@, registered) == spec_opened(old(self)@, from, socket, sent),
    {
        proof {
            use_type_invariant(&*self);
        }
        if !sent {
            return false;
        }
        match find_key(&self.entries, from) {
            Some(i) => {
                proof {
                    lemma_key_index(self.entries@, from, i as int);
                }
                false
            },
            None => {
                proof {
                    lemma_push(self.entries@, from, socket);
                }
                let mut entries = Vec::new();
                std::mem::swap(&mut entries, &mut self.entries);
                entries.push((from, socket));
                self.entries = entries;
                true
            },
        }
    }

    /// Tells whether a cleanup is due at `now`.
    pub fn cleanup_due(&self, now: u64) -> (due: bool)
        ensures
            due == spec_cleanup_due(self@, now),
    {
        let elapsed = if now >= self.last_cleanup {
            now - self.last_cleanup
        } else {
            0
        };
        elapsed >= self.period
    }

    /// A tick at `now`, with `expired` the clients whose sessions timed out
    /// since the last cleanup: when a cleanup is due, drops exactly their
    /// sessions and records `now`; otherwise changes nothing.
    pub fn tick(&mut self, now: u64, expired: &Vec<PeerAddr>) -> (cleaned: bool)
        ensures
            (final(self)@, cleaned) == spec_tick(old(self)@, now, expired@),
    {
        if !self.cleanup_due(now) {
            return false;
        }
        let ghost start = self@.sockets;
        proof {
            use_type_invariant(&*self);
        }
        let mut entries = Vec::new();
        std::mem::swap(&mut entries, &mut self.entries);
        let n = expired.len();
        for i in 0..n
            invariant
                n == expired@.len(),
                self@.last_cleanup == old(self)@.last_cleanup,
                self@.period == old(self)@.period,
                self@.ignore_empty == old(self)@.ignore_empty,
                start == old(self)@.sockets,
                keys_unique(entries@),
                entries_map(entries@) == start.remove_keys(expired@.subrange(0, i as int).to_set()),
        {
            let k = expired[i];
            proof {
                assert(expired@.subrange(0, i + 1) =~= expired@.subrange(0, i as int).push(k));
                expired@.subrange(0, i as int).lemma_push_to_set_commute(k);
            }
            match find_key(&entries, k) {
                Some(j) => {
                    proof {
                        lemma_remove_at(entries@, j as int);
                    }
                    entries.remove(j);
                    assert(entries_map(entries@) =~= start.remove_keys(
                        expired@.subrange(0, i + 1).to_set(),
                    ));
                },
                None => {
                    assert(entries_map(entries@) =~= start.remove_keys(
                        expired@.subrange(0, i + 1).to_set(),
                    ));
                },
            }
        }
        assert(expired@.subrange(0, n as int) =~= expired@);
        self.entries = entries;
        self.last_cleanup = now;
        true
    }
}


/// A cleanup is due exactly when at least one period has passed since the
/// last one (always, for a period of zero); a tick cleans up exactly then,
/// records `now` and keeps every session whose client is not expired; any other
/// tick changes nothing.
pub proof fn lemma_cleanup_timing<S>(v: SessionsView<S>, now: u64, expired: Seq<PeerAddr>)
    ensures
        spec_cleanup_due(v, now) <==> (now >= v.last_cleanup + v.period || v.period == 0),
        spec_tick(v, now, expired).1 <==> (now >= v.last_cleanup + v.period || v.period == 0),
        spec_tick(v, now, expired).1 ==> spec_tick(v, now, expired).0.last_cleanup == now,
        !spec_tick(v, now, expired).1 ==> spec_tick(v, now, expired).0 == v,
        forall|k: PeerAddr|
            v.sockets.contains_key(k) && !expired.contains(k) ==> #[trigger] spec_tick(
                v,
                now,
                expired,
            ).0.sockets.contains_key(k),
        spec_tick(v, now, expired).0.period == v.period,
        spec_tick(v, now, expired).0.ignore_empty == v.ignore_empty,
{
    if spec_cleanup_due(v, now) {
        assert forall|k: PeerAddr|
            v.sockets.contains_key(k) && !expired.contains(k) implies #[trigger] spec_tick(
            v,
            now,
            expired,
        ).0.sockets.contains_key(k) by {
            assert(!expired.to_set().contains(k));
        }
    }
}

/// A datagram from a client without a session asks for one, unless it is an
/// empty datagram on a relay that ignores those; an empty datagram there is
/// ignored even from a client with a session; nothing else is ever ignored.
pub proof fn lemma_datagram_decisions<S>(v: SessionsView<S>, from: PeerAddr, len: nat)
    ensures
        !v.sockets.contains_key(from) && !(v.ignore_empty && len == 0) ==> spec_on_datagram(
            v,
            from,
            len,
        ) is Open,
        v.ignore_empty && len == 0 ==> spec_on_datagram(v, from, len) is Ignore,
        !v.ignore_empty ==> !(spec_on_datagram(v, from, len) is Ignore),
        len > 0 ==> !(spec_on_datagram(v, from, len) is Ignore),
{
}


} // verus!
