//! What the command line asks for.

use vstd::prelude::*;

verus! {

/// A command line that cannot be served.
#[derive(Debug)]
pub struct UsageError {
    pub message: String,
}

/// Where the image goes, read off the program's arguments. `args` holds the
/// program's name first. With nothing after it the image goes to standard
/// output, and the result is `None`; with one argument after it, that argument
/// names the output file. Every other count is a usage error.
pub fn get_output_file_name(args: &Vec<String>) -> (result: Result<Option<String>, UsageError>)
    ensures
        args@.len() == 1 ==> result == Ok::<Option<String>, UsageError>(None),
        args@.len() == 2 ==> (result matches Ok(Some(name)) && name@ == args@[1]@),
        args@.len() != 1 && args@.len() != 2 ==> (result matches Err(error) && error.message@
            == "Too many arguments"@),
{
    if args.len() == 1 {
        Ok(None)
    } else if args.len() == 2 {
        Ok(Some(args[1].clone()))
    } else {
        Err(UsageError { message: "Too many arguments".to_owned() })
    }
}

} // verus!
