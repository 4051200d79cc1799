//! Splitting a command line into the program to run and its arguments.
use vstd::prelude::*;

verus! {

/// Why a command line could not be run.
#[derive(Clone, Copy, Debug, PartialEq, Eq, Structural)]
pub enum CommandError {
    /// The command line is empty: there is no program to run.
    NoArg0,
}

/// Splits `args` into the program (the first item) and its arguments (the
/// rest); an empty command line is refused.
pub fn split_command<T>(args: Vec<T>) -> (r: Result<(T, Vec<T>), CommandError>)
    ensures
        args@.len() == 0 ==> r == Err::<(T, Vec<T>), CommandError>(CommandError::NoArg0),
        args@.len() > 0 ==> (r matches Ok((head, tail)) && head == args@[0] && tail@ == args@.drop_first()),
{
    let ghost whole = args@;
    let mut args = args;
    if args.len() == 0 {
        return Err(CommandError::NoArg0);
    }
    let head = args.remove(0);
    assert(args@ =~= whole.drop_first());
    Ok((head, args))
}

} // verus!
