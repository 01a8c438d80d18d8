//! The tunnel's command line: `tun server <server-port> <client-addr>` or
//! `tun client <client-port> [server-port]`, with `-h`/`--help` anywhere.
//!
//! Arguments are read left to right. `server` and `client` choose the side (a
//! later one wins); other arguments are positional and may come only after a side
//! has been chosen, and at most two of them. The first is the port; the second is
//! the client address on the server side and the server port on the client side,
//! as the side chosen when it is read says.

use vstd::prelude::*;
use vstd::string::StrSliceExecFns;

verus! {

/// Which end of the tunnel runs.
#[derive(Clone, Copy, PartialEq, Eq, Debug)]
pub enum Side {
    Server,
    Client,
}

/// The command line, once it names a side and the arguments that side needs.
pub struct CommandLine {
    pub side: Side,
    pub port: String,
    pub client_addr: Option<String>,
    pub server_port: Option<String>,
}

/// What the arguments read so far have set.
pub struct ScanView {
    pub help: bool,
    pub side: Option<Side>,
    pub n: nat,
    pub port: Option<Seq<char>>,
    pub client_addr: Option<Seq<char>>,
    pub server_port: Option<Seq<char>>,
    /// An argument came that the command line does not accept.
    pub invalid: bool,
}

pub open spec fn scan_start() -> ScanView {
    ScanView {
        help: false,
        side: None,
        n: 0,
        port: None,
        client_addr: None,
        server_port: None,
        invalid: false,
    }
}

/// The effect of one argument.
pub open spec fn scan_step(st: ScanView, arg: Seq<char>) -> ScanView {
    if st.invalid {
        st
    } else if arg == "-h"@ || arg == "--help"@ {
        ScanView { help: true, ..st }
    } else if arg == "server"@ {
        ScanView { side: Some(Side::Server), ..st }
    } else if arg == "client"@ {
        ScanView { side: Some(Side::Client), ..st }
    } else if st.side is None {
        ScanView { invalid: true, ..st }
    } else if st.n == 0 {
        ScanView { port: Some(arg), n: 1, ..st }
    } else if st.n == 1 {
        if st.side == Some(Side::Server) {
            ScanView { client_addr: Some(arg), n: 2, ..st }
        } else {
            ScanView { server_port: Some(arg), n: 2, ..st }
        }
    } else {
        ScanView { invalid: true, ..st }
    }
}

/// The effect of all of `args`, in order.
pub open spec fn scan(args: Seq<Seq<char>>) -> ScanView
    decreases args.len(),
{
    if args.len() == 0 {
        scan_start()
    } else {
        scan_step(scan(args.drop_last()), args.last())
    }
}

/// The help is shown: it was asked for, or no side was chosen, or the side
/// lacks an argument it needs.
pub open spec fn shows_help(st: ScanView) -> bool {
    ||| st.help
    ||| st.side is None
    ||| st.side == Some(Side::Server) && (st.port is None || st.client_addr is None)
    ||| st.side == Some(Side::Client) && st.port is None
}

/// The arguments as sequences of characters.
pub open spec fn args_view(args: Seq<String>) -> Seq<Seq<char>> {
    args.map_values(|a: String| a@)
}

pub open spec fn opt_string_view(s: Option<String>) -> Option<Seq<char>> {
    match s {
        Some(s) => Some(s@),
        None => None,
    }
}

fn str_eq(a: &str, b: &str) -> (eq: bool)
    ensures
        eq == (a@ == b@),
{
    let n = a.unicode_len();
    if n != b.unicode_len() {
        return false;
    }
    for i in 0..n
        invariant
            n == a@.len(),
            n == b@.len(),
            forall|k: int| 0 <= k < i ==> a@[k] == b@[k],
    {
        if a.get_char(i) != b.get_char(i) {
            return false;
        }
    }
    assert(a@ =~= b@);
    true
}

/// The state of the scan, as the program holds it.
struct Scan {
    help: bool,
    side: Option<Side>,
    n: usize,
    port: Option<String>,
    client_addr: Option<String>,
    server_port: Option<String>,
    invalid: bool,
}

impl Scan {
    spec fn view_of(&self) -> ScanView {
        ScanView {
            help: self.help,
            side: self.side,
            n: self.n as nat,
            port: opt_string_view(self.port),
            client_addr: opt_string_view(self.client_addr),
            server_port: opt_string_view(self.server_port),
            invalid: self.invalid,
        }
    }
}

fn scan_args(args: &Vec<String>) -> (s: Scan)
    ensures
        s.view_of() == scan(args_view(args@)),
        s.n <= 2,
{
    let mut s = Scan {
        help: false,
        side: None,
        n: 0,
        port: None,
        client_addr: None,
        server_port: None,
        invalid: false,
    };
    for i in 0..args.len()
        invariant
            s.view_of() == scan(args_view(args@).subrange(0, i as int)),
            s.n <= 2,
    {
        let ghost before = s.view_of();
        let arg = args[i].as_str();
        assert(args_view(args@).subrange(0, i + 1).drop_last() =~= args_view(args@).subrange(
            0,
            i as int,
        ));
        assert(args_view(args@).subrange(0, i + 1).last() == arg@);
        if !s.invalid {
            if str_eq(arg, "-h") || str_eq(arg, "--help") {
                s.help = true;
            } else if str_eq(arg, "server") {
                s.side = Some(Side::Server);
            } else if str_eq(arg, "client") {
                s.side = Some(Side::Client);
            } else if s.side.is_none() {
                s.invalid = true;
            } else if s.n == 0 {
                s.port = Some(args[i].clone());
                s.n = 1;
            } else if s.n == 1 {
                match s.side {
                    Some(Side::Server) => s.client_addr = Some(args[i].clone()),
                    _ => s.server_port = Some(args[i].clone()),
                }
                s.n = 2;
            } else {
                s.invalid = true;
            }
        }
        assert(s.view_of() == scan_step(before, arg@));
    }
    assert(args_view(args@).subrange(0, args@.len() as int) =~= args_view(args@));
    s
}

/// Tells whether the tunnel accepts `args` (the arguments after the program's
/// name): no positional argument comes before a side, nor more than two.
pub fn command_line_is_valid(args: &Vec<String>) -> (ok: bool)
    ensures
        ok == !scan(args_view(args@)).invalid,
{
    !scan_args(args).invalid
}

/// Reads the tunnel's arguments (those after the program's name): `None` where
/// the help is to be shown, else the side and its arguments.
pub fn command_line(args: &Vec<String>) -> (cl: Option<CommandLine>)
    requires
        !scan(args_view(args@)).invalid,
    ensures
        cl is None <==> shows_help(scan(args_view(args@))),
        cl matches Some(c) ==> {
            let st = scan(args_view(args@));
            &&& st.side == Some(c.side)
            &&& st.port == Some(c.port@)
            &&& st.client_addr == opt_string_view(c.client_addr)
            &&& st.server_port == opt_string_view(c.server_port)
        },
{
    let s = scan_args(args);
    let help = s.help || match s.side {
        None => true,
        Some(Side::Server) => s.port.is_none() || s.client_addr.is_none(),
        Some(Side::Client) => s.port.is_none(),
    };
    if help {
        return None;
    }
    match (s.side, s.port) {
        (Some(side), Some(port)) => Some(
            CommandLine { side, port, client_addr: s.client_addr, server_port: s.server_port },
        ),
        _ => None,
    }
}

/// A command line that runs the server side always names the client address.
pub proof fn lemma_server_side_has_client_addr(args: Seq<Seq<char>>)
    ensures
        !shows_help(scan(args)) && scan(args).side == Some(Side::Server) ==> scan(
            args,
        ).client_addr is Some,
{
}

/// Asking for help anywhere shows the help and runs nothing, whichever side
/// the command line names and whatever else it holds.
pub proof fn lemma_help_anywhere(args: Seq<Seq<char>>, i: int)
    requires
        !scan(args).invalid,
        0 <= i < args.len(),
        args[i] == "-h"@ || args[i] == "--help"@,
    ensures
        scan(args).help,
        shows_help(scan(args)),
    decreases args.len(),
{
    let prev = args.drop_last();
    assert(!scan(prev).invalid);
    if i < args.len() - 1 {
        assert(prev[i] == args[i]);
        lemma_help_anywhere(prev, i);
    }
}

/// An argument that is neither a side nor a request for help.
pub open spec fn is_plain(a: Seq<char>) -> bool {
    a != "-h"@ && a != "--help"@ && a != "server"@ && a != "client"@
}

/// `server P A` runs the server side on port `P` for the client at `A`;
/// `client P` runs the client side on port `P`, and `client P Q` with server
/// port `Q`.
pub proof fn lemma_positional_arguments(p: Seq<char>, a: Seq<char>)
    requires
        is_plain(p),
        is_plain(a),
    ensures
        ({
            let st = scan(seq!["server"@, p, a]);
            &&& !st.invalid && !shows_help(st)
            &&& st.side == Some(Side::Server)
            &&& st.port == Some(p)
            &&& st.client_addr == Some(a)
            &&& st.server_port is None
        }),
        ({
            let st = scan(seq!["client"@, p]);
            &&& !st.invalid && !shows_help(st)
            &&& st.side == Some(Side::Client)
            &&& st.port == Some(p)
            &&& st.client_addr is None
            &&& st.server_port is None
        }),
        ({
            let st = scan(seq!["client"@, p, a]);
            &&& !st.invalid && !shows_help(st)
            &&& st.port == Some(p)
            &&& st.server_port == Some(a)
            &&& st.client_addr is None
        }),
        scan(seq![p]).invalid,
{
    reveal_strlit("server");
    reveal_strlit("client");
    reveal_strlit("-h");
    reveal_strlit("--help");
    assert("server"@.len() == 6 && "client"@.len() == 6 && "-h"@.len() == 2 && "--help"@.len() == 6);
    assert("server"@[0] == 's' && "client"@[0] == 'c' && "--help"@[0] == '-');
    assert("server"@ != "-h"@ && "server"@ != "--help"@);
    assert("client"@ != "-h"@ && "client"@ != "--help"@ && "client"@ != "server"@);
    let e = Seq::<Seq<char>>::empty();
    let s1 = seq!["server"@];
    let s2 = seq!["server"@, p];
    let s3 = seq!["server"@, p, a];
    assert(s1.drop_last() =~= e);
    assert(e.len() == 0);
    assert(scan(e) == scan_start());
    assert(scan(s1.drop_last()) == scan_start());
    assert(s2.drop_last() =~= s1);
    assert(s3.drop_last() =~= s2);
    assert(scan(s1) == scan_step(scan_start(), "server"@));
    assert(scan(s2) == scan_step(scan(s1), p));
    assert(scan(s3) == scan_step(scan(s2), a));
    let c1 = seq!["client"@];
    let c2 = seq!["client"@, p];
    let c3 = seq!["client"@, p, a];
    assert(c1.drop_last() =~= e);
    assert(c2.drop_last() =~= c1);
    assert(c3.drop_last() =~= c2);
    assert(scan(c1) == scan_step(scan_start(), "client"@));
    assert(scan(c2) == scan_step(scan(c1), p));
    assert(scan(c3) == scan_step(scan(c2), a));
    assert(seq![p].drop_last() =~= e);
    assert(scan(seq![p]) == scan_step(scan_start(), p));
}

} // verus!
