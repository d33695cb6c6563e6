use vstd::prelude::*;

verus! {

/// The configuration file named on the command line: the first argument
/// after the program name. With no such argument the program prints its
/// usage and stops before reading anything or watching anything.
pub fn config_path_arg(args: &Vec<String>) -> (r: Option<String>)
    ensures
        r is None <==> args@.len() < 2,
        r is Some ==> r->0@ == args@[1]@,
{
    if args.len() < 2 {
        None
    } else {
        Some(args[1].clone())
    }
}

} // verus!
