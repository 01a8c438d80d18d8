//! The decisions of the relay's search for its public addresses: which STUN
//! servers the list names, and which of its two ports still needs asking.

use vstd::prelude::*;
use vstd::string::StrSliceExecFns;
use crate::peer::PeerAddr;

verus! {

/// The characters that `char::is_whitespace` accepts: Unicode's White_Space.
pub open spec fn is_ws(c: char) -> bool {
    ||| '\u{9}' <= c <= '\u{d}'
    ||| c == ' '
    ||| c == '\u{85}'
    ||| c == '\u{a0}'
    ||| c == '\u{1680}'
    ||| '\u{2000}' <= c <= '\u{200a}'
    ||| c == '\u{2028}'
    ||| c == '\u{2029}'
    ||| c == '\u{202f}'
    ||| c == '\u{205f}'
    ||| c == '\u{3000}'
}

/// Tells whether `c` is white space, as `char::is_whitespace` does.
pub fn is_whitespace(c: char) -> (b: bool)
    ensures
        b == is_ws(c),
{
    ('\u{9}' <= c && c <= '\u{d}') || c == ' ' || c == '\u{85}' || c == '\u{a0}' || c == '\u{1680}'
        || ('\u{2000}' <= c && c <= '\u{200a}') || c == '\u{2028}' || c == '\u{2029}' || c
        == '\u{202f}' || c == '\u{205f}' || c == '\u{3000}'
}

/// The first index from `i` (below `j`) that is not white space, or `j`.
pub open spec fn skip_ws(s: Seq<char>, i: int, j: int) -> int
    decreases j - i,
{
    if i < j && is_ws(s[i]) {
        skip_ws(s, i + 1, j)
    } else {
        i
    }
}

/// One past the last index below `j` (down to `i`) that is not white space, or
/// `i`.
pub open spec fn back_ws(s: Seq<char>, i: int, j: int) -> int
    decreases j - i,
{
    if i < j && is_ws(s[j - 1]) {
        back_ws(s, i, j - 1)
    } else {
        j
    }
}

/// `s[i..j]` without leading and trailing white space, as `str::trim` gives it.
pub open spec fn trimmed(s: Seq<char>, i: int, j: int) -> Seq<char> {
    let a = skip_ws(s, i, j);
    s.subrange(a, back_ws(s, a, j))
}

/// The end of the line that starts at `i`: the next `'\n'`, or the end.
pub open spec fn line_end(s: Seq<char>, i: int) -> int
    decreases s.len() - i,
{
    if i >= s.len() || s[i] == '\n' {
        i
    } else {
        line_end(s, i + 1)
    }
}

/// The lines of `s` from index `i` on, trimmed, without the empty ones.
pub open spec fn clean_lines_from(s: Seq<char>, i: int) -> Seq<Seq<char>>
    decreases s.len() - i + 1,
{
    if i > s.len() || i < 0 {
        seq![]
    } else {
        let e = line_end(s, i);
        proof {
            lemma_line_end(s, i);
        }
        let t = trimmed(s, i, e);
        let rest = if e >= s.len() {
            seq![]
        } else {
            clean_lines_from(s, e + 1)
        };
        if t.len() > 0 {
            seq![t] + rest
        } else {
            rest
        }
    }
}

/// A line ends at or after its start, at a newline or at the end.
pub proof fn lemma_line_end(s: Seq<char>, i: int)
    requires
        0 <= i <= s.len(),
    ensures
        i <= line_end(s, i) <= s.len(),
        line_end(s, i) < s.len() ==> s[line_end(s, i)] == '\n',
        forall|k: int| i <= k < line_end(s, i) ==> s[k] != '\n',
    decreases s.len() - i,
{
    if i < s.len() && s[i] != '\n' {
        lemma_line_end(s, i + 1);
    }
}

/// The names in a STUN server list: each line trimmed, empty lines dropped, as
/// `text.lines().map(str::trim).filter(|s| !s.is_empty())` gives them.
pub fn stun_server_names(text: &str) -> (names: Vec<String>)
    ensures
        names@.map_values(|n: String| n@) == clean_lines_from(text@, 0),
{
    let n = text.unicode_len();
    let mut names: Vec<String> = Vec::new();
    let mut start: usize = 0;
    let mut done = false;
    while !done
        invariant
            n == text@.len(),
            start <= n,
            !done ==> names@.map_values(|x: String| x@) + clean_lines_from(text@, start as int)
                == clean_lines_from(text@, 0),
            done ==> names@.map_values(|x: String| x@) == clean_lines_from(text@, 0),
        decreases n - start + (if done { 0int } else { 1int }),
    {
        let ghost s = text@;
        // The end of this line.
        let mut e = start;
        while e < n && text.get_char(e) != '\n'
            invariant
                n == s.len(),
                s == text@,
                start <= e <= n,
                line_end(s, start as int) == line_end(s, e as int),
            decreases n - e,
        {
            e = e + 1;
        }
        assert(line_end(s, e as int) == e);
        // Leading white space.
        let mut a = start;
        while a < e && is_whitespace(text.get_char(a))
            invariant
                n == s.len(),
                s == text@,
                start <= a <= e <= n,
                skip_ws(s, start as int, e as int) == skip_ws(s, a as int, e as int),
            decreases e - a,
        {
            a = a + 1;
        }
        // Trailing white space.
        let mut b = e;
        while b > a && is_whitespace(text.get_char(b - 1))
            invariant
                n == s.len(),
                s == text@,
                a <= b <= e <= n,
                back_ws(s, a as int, e as int) == back_ws(s, a as int, b as int),
            decreases b - a,
        {
            b = b - 1;
        }
        let ghost before = names@.map_values(|x: String| x@);
        if b > a {
            let line = text.substring_char(a, b);
            names.push(line.to_owned());
            assert(names@.map_values(|x: String| x@) =~= before.push(s.subrange(a as int, b as int)));
        }
        let ghost rest = if e >= n {
            Seq::<Seq<char>>::empty()
        } else {
            clean_lines_from(s, e + 1)
        };
        assert(before + clean_lines_from(s, start as int) == clean_lines_from(s, 0));
        if b > a {
            assert(clean_lines_from(s, start as int) == seq![s.subrange(a as int, b as int)]
                + rest);
            assert(names@.map_values(|x: String| x@) + rest =~= before + clean_lines_from(
                s,
                start as int,
            ));
        } else {
            assert(clean_lines_from(s, start as int) == rest);
        }
        if e >= n {
            assert(names@.map_values(|x: String| x@) =~= names@.map_values(|x: String| x@) + rest);
            done = true;
        } else {
            start = e + 1;
        }
    }
    names
}

/// How far the search for the two ports' public addresses has come.
pub struct StunSearch {
    addr1: Option<PeerAddr>,
    addr2: Option<PeerAddr>,
}

/// What the search has found.
pub struct StunSearchView {
    pub addr1: Option<PeerAddr>,
    pub addr2: Option<PeerAddr>,
}

impl View for StunSearch {
    type V = StunSearchView;

    closed spec fn view(&self) -> StunSearchView {
        StunSearchView { addr1: self.addr1, addr2: self.addr2 }
    }
}

/// Both public addresses, once both are known.
pub open spec fn spec_found(v: StunSearchView) -> Option<(PeerAddr, PeerAddr)> {
    match (v.addr1, v.addr2) {
        (Some(a), Some(b)) => Some((a, b)),
        _ => None,
    }
}

impl StunSearch {
    /// Nothing known yet.
    pub fn new() -> (s: Self)
        ensures
            s@.addr1 is None,
            s@.addr2 is None,
    {
        StunSearch { addr1: None, addr2: None }
    }

    /// The first port is to be asked about: its address is still unknown.
    pub fn needs_port1(&self) -> (b: bool)
        ensures
            b == self@.addr1 is None,
    {
        self.addr1.is_none()
    }

    /// The second port is to be asked about: its address is still unknown.
    pub fn needs_port2(&self) -> (b: bool)
        ensures
            b == self@.addr2 is None,
    {
        self.addr2.is_none()
    }

    /// A STUN server answered (`Some`) or not (`None`) about the first port;
    /// an address already known stays.
    pub fn answer_port1(&mut self, addr: Option<PeerAddr>)
        ensures
            final(self)@.addr1 == (if old(self)@.addr1 is Some {
                old(self)@.addr1
            } else {
                addr
            }),
            final(self)@.addr2 == old(self)@.addr2,
    {
        if self.addr1.is_none() {
            self.addr1 = addr;
        }
    }

    /// A STUN server answered (`Some`) or not (`None`) about the second port;
    /// an address already known stays.
    pub fn answer_port2(&mut self, addr: Option<PeerAddr>)
        ensures
            final(self)@.addr2 == (if old(self)@.addr2 is Some {
                old(self)@.addr2
            } else {
                addr
            }),
            final(self)@.addr1 == old(self)@.addr1,
    {
        if self.addr2.is_none() {
            self.addr2 = addr;
        }
    }

    /// Both addresses, once both are known: the search stops there.
    pub fn found(&self) -> (r: Option<(PeerAddr, PeerAddr)>)
        ensures
            r == spec_found(self@),
    {
        match (self.addr1, self.addr2) {
            (Some(a), Some(b)) => Some((a, b)),
            _ => None,
        }
    }
}

proof fn lemma_skip_ws(s: Seq<char>, i: int, j: int)
    requires
        0 <= i <= j <= s.len(),
    ensures
        i <= skip_ws(s, i, j) <= j,
        skip_ws(s, i, j) < j ==> !is_ws(s[skip_ws(s, i, j)]),
    decreases j - i,
{
    if i < j && is_ws(s[i]) {
        lemma_skip_ws(s, i + 1, j);
    }
}

proof fn lemma_back_ws(s: Seq<char>, i: int, j: int)
    requires
        0 <= i <= j <= s.len(),
    ensures
        i <= back_ws(s, i, j) <= j,
        back_ws(s, i, j) > i ==> !is_ws(s[back_ws(s, i, j) - 1]),
    decreases j - i,
{
    if i < j && is_ws(s[j - 1]) {
        lemma_back_ws(s, i, j - 1);
    }
}

/// A trimmed line: not empty, with no white space at either end and no
/// newline in it.
pub open spec fn is_clean_name(t: Seq<char>) -> bool {
    &&& t.len() > 0
    &&& !is_ws(t[0])
    &&& !is_ws(t.last())
    &&& forall|k: int| 0 <= k < t.len() ==> #[trigger] t[k] != '\n'
}

/// Every name read from a STUN server list is a piece of one line of it, not
/// empty, and without white space at either end.
pub proof fn lemma_names_are_clean(s: Seq<char>, i: int)
    requires
        0 <= i <= s.len() + 1,
    ensures
        forall|j: int| 0 <= j < clean_lines_from(s, i).len() ==> is_clean_name(
            #[trigger] clean_lines_from(s, i)[j],
        ),
    decreases s.len() - i + 1,
{
    if i <= s.len() {
        let e = line_end(s, i);
        lemma_line_end(s, i);
        let a = skip_ws(s, i, e);
        lemma_skip_ws(s, i, e);
        lemma_back_ws(s, a, e);
        let t = trimmed(s, i, e);
        let rest = if e >= s.len() {
            Seq::<Seq<char>>::empty()
        } else {
            clean_lines_from(s, e + 1)
        };
        if e < s.len() {
            lemma_names_are_clean(s, e + 1);
        }
        if t.len() > 0 {
            assert(t[0] == s[a]);
            assert(is_clean_name(t));
            assert forall|j: int| 0 <= j < clean_lines_from(s, i).len() implies is_clean_name(
                #[trigger] clean_lines_from(s, i)[j],
            ) by {
                if j > 0 {
                    assert(clean_lines_from(s, i)[j] == rest[j - 1]);
                }
            }
        }
    }
}

} // verus!
