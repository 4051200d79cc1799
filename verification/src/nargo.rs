//! The decisions of the build-tool stand-in, which exercises the front end
//! recursively.
use vstd::prelude::*;

verus! {

/// What the build tool does for its command line.
#[derive(Clone, Copy, Debug, PartialEq, Eq, Structural)]
pub enum NargoAction {
    /// `rec`: run `nustup nargo` through the proxy runner, a recursive
    /// invocation of this tool under the front end.
    Recurse,
    /// `spawn`: run `nustup toolchain` as a child, asking for the write lock
    /// from inside a proxied process.
    SpawnToolchain,
    /// Anything else: do nothing.
    Idle,
}

/// The action for the arguments that follow the tool's own name, decided by
/// the first of them.
pub fn nargo_action(args: &Vec<String>) -> (a: NargoAction)
    ensures
        a == (if args@.len() > 0 && args@[0]@ == "rec"@ {
            NargoAction::Recurse
        } else if args@.len() > 0 && args@[0]@ == "spawn"@ {
            NargoAction::SpawnToolchain
        } else {
            NargoAction::Idle
        }),
{
    if args.len() == 0 {
        return NargoAction::Idle;
    }
    let rec = "rec".to_owned();
    let spawn = "spawn".to_owned();
    if args[0] == rec {
        NargoAction::Recurse
    } else if args[0] == spawn {
        NargoAction::SpawnToolchain
    } else {
        NargoAction::Idle
    }
}

} // verus!
