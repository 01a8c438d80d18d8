//! The relay proxy's command line: `server <listen-address> <target-address>`.
//!
//! The program reads each argument as a socket address itself; this module
//! decides, from which arguments read as one, what the command line comes to.

use vstd::prelude::*;

verus! {

/// What an argument stands for, by its position.
#[derive(Clone, Copy, PartialEq, Eq, Debug)]
pub enum ArgRole {
    /// The first argument: the address the proxy binds to.
    Listen,
    /// The second argument: the address of the game server.
    Target,
    /// Any later argument, which is an error.
    Unexpected,
}

/// What the command line comes to.
#[derive(Clone, Copy, PartialEq, Eq, Debug)]
pub enum CliOutcome {
    /// Both addresses were given and read: run the proxy.
    Run,
    /// Too few arguments and no error: show the help and exit successfully.
    Help,
    /// An address did not read, or there were too many arguments: show the
    /// help after the errors and exit with failure.
    Fail,
}

/// The role of the argument at `index` (counted after the program's name).
pub fn arg_role(index: usize) -> (role: ArgRole)
    ensures
        index == 0 ==> role == ArgRole::Listen,
        index == 1 ==> role == ArgRole::Target,
        index >= 2 ==> role == ArgRole::Unexpected,
{
    if index == 0 {
        ArgRole::Listen
    } else if index == 1 {
        ArgRole::Target
    } else {
        ArgRole::Unexpected
    }
}

/// Some argument is in error: an address that did not read, or a third one.
pub open spec fn has_error(parsed: Seq<bool>) -> bool {
    parsed.len() > 2 || exists|i: int| 0 <= i < parsed.len() && !#[trigger] parsed[i]
}

/// The outcome of the command line whose arguments read as socket addresses
/// where `parsed` is `true` (one entry per argument after the program's name).
pub open spec fn spec_outcome(parsed: Seq<bool>) -> CliOutcome {
    if has_error(parsed) {
        CliOutcome::Fail
    } else if parsed.len() < 2 {
        CliOutcome::Help
    } else {
        CliOutcome::Run
    }
}

/// Decides what the command line comes to.
pub fn proxy_cli_outcome(parsed: &Vec<bool>) -> (outcome: CliOutcome)
    ensures
        outcome == spec_outcome(parsed@),
{
    let n = parsed.len();
    let mut error = false;
    for i in 0..n
        invariant
            n == parsed@.len(),
            error == (i > 2 || exists|k: int| 0 <= k < i && !#[trigger] parsed@[k]),
    {
        if !parsed[i] {
            error = true;
        }
        if i >= 2 {
            error = true;
        }
    }
    if error {
        CliOutcome::Fail
    } else if n < 2 {
        CliOutcome::Help
    } else {
        CliOutcome::Run
    }
}

/// The proxy runs exactly when two arguments were given and both read as
/// socket addresses; it shows the help alone exactly when fewer were given and
/// each read.
pub proof fn lemma_outcome_cases(parsed: Seq<bool>)
    ensures
        spec_outcome(parsed) == CliOutcome::Run <==> (parsed.len() == 2 && parsed[0] && parsed[1]),
        spec_outcome(parsed) == CliOutcome::Help <==> (parsed.len() < 2 && forall|i: int|
            0 <= i < parsed.len() ==> #[trigger] parsed[i]),
{
    if parsed.len() == 2 && parsed[0] && parsed[1] {
        assert forall|i: int| 0 <= i < parsed.len() implies #[trigger] parsed[i] by {
            assert(i == 0 || i == 1);
        }
    }
}

} // verus!
