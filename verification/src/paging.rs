//! Output that a pager may have stopped reading.
use vstd::prelude::*;
use vstd::string::StringExecFns;
use crate::text::{str_eq, string_views};

verus! {

#[verifier::external_type_specification]
#[verifier::external_body]
pub struct ExIoError(std::io::Error);

/// Whether `std::io::Error::kind` of an error is `ErrorKind::BrokenPipe`.
pub uninterp spec fn io_error_is_broken_pipe(e: std::io::Error) -> bool;

/// `std::io::Error::kind`, told apart as `ErrorKind::BrokenPipe` or another
/// kind; the answer is named by [`io_error_is_broken_pipe`].
#[verifier::external_body]
fn is_broken_pipe_kind(e: &std::io::Error) -> (r: bool)
    ensures
        r == io_error_is_broken_pipe(*e),
{
    matches!(e.kind(), std::io::ErrorKind::BrokenPipe)
}

/// Whether an I/O result failed because the reader went away.
pub fn is_broken_pipe<T>(result: &Result<T, std::io::Error>) -> (r: bool)
    ensures
        r == match result {
            Ok(_) => false,
            Err(e) => io_error_is_broken_pipe(*e),
        },
{
    match result {
        Err(e) => is_broken_pipe_kind(e),
        Ok(_) => false,
    }
}

/// The arguments a pager program is started with: `less` keeps colors and
/// quits when the output fits, and chops long lines when asked to; another
/// program gets none.
pub open spec fn pager_args_spec(program: Seq<char>, chop: bool) -> Seq<Seq<char>> {
    if program == "less"@ {
        if chop { seq!["-RF"@, "-S"@] } else { seq!["-RF"@] }
    } else {
        Seq::empty()
    }
}

/// The arguments for the pager `program` (see [`pager_args_spec`]).
pub fn pager_args(program: &str, chop: bool) -> (r: Vec<String>)
    ensures
        string_views(r@) == pager_args_spec(program@, chop),
{
    proof {
        reveal_strlit("less");
        reveal_strlit("-RF");
        reveal_strlit("-S");
    }
    let mut args: Vec<String> = Vec::new();
    if str_eq(program, "less") {
        args.push(String::from_str("-RF"));
        if chop {
            args.push(String::from_str("-S"));
        }
    }
    proof {
        assert(string_views(args@) =~= pager_args_spec(program@, chop));
    }
    args
}

} // verus!
