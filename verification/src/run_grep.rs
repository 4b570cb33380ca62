//! The first, text-only pass over the files: which program runs it, and its errors.
use vstd::prelude::*;
use vstd::string::StringExecFns;
use crate::text::{decimal, decimal_string};

verus! {

/// Why the text search failed.
#[derive(Debug)]
pub enum RipGrepError {
    /// The search program did not start; the system's message.
    NotLaunched(String),
    /// Its output could not be read; the system's message.
    ReadFailed(String),
    /// It named a file that is not a path on this system.
    FileNameUnparseable(Vec<u8>),
}

/// The program and arguments that list the files under `./` that `pattern`
/// matches, separated by NUL bytes: ripgrep sorted by path if it is installed,
/// else `grep -r`; case-insensitively if asked.
pub open spec fn grep_command_spec(has_ripgrep: bool, ignore_case: bool, pattern: Seq<char>) -> (Seq<char>, Seq<Seq<char>>) {
    let (program, base) = if has_ripgrep {
        ("rg"@, seq!["-l"@, "--sort=path"@, "-0"@])
    } else {
        ("grep"@, seq!["-lIErZ"@])
    };
    let flags = if ignore_case { base.push("-i"@) } else { base };
    (program, flags.push(pattern).push("./"@))
}

/// The text search command (see [`grep_command_spec`]).
pub fn grep_command(has_ripgrep: bool, ignore_case: bool, pattern: &str) -> (r: (String, Vec<String>))
    ensures
        (r.0@, crate::text::string_views(r.1@)) == grep_command_spec(has_ripgrep, ignore_case, pattern@),
{
    proof {
        reveal_strlit("rg");
        reveal_strlit("-l");
        reveal_strlit("--sort=path");
        reveal_strlit("-0");
        reveal_strlit("grep");
        reveal_strlit("-lIErZ");
        reveal_strlit("-i");
        reveal_strlit("./");
    }
    let mut args: Vec<String> = Vec::new();
    let program = if has_ripgrep {
        args.push(String::from_str("-l"));
        args.push(String::from_str("--sort=path"));
        args.push(String::from_str("-0"));
        String::from_str("rg")
    } else {
        args.push(String::from_str("-lIErZ"));
        String::from_str("grep")
    };
    if ignore_case {
        args.push(String::from_str("-i"));
    }
    args.push(String::from_str(pattern));
    args.push(String::from_str("./"));
    let ghost expected = grep_command_spec(has_ripgrep, ignore_case, pattern@);
    assert(crate::text::string_views(args@) =~= expected.1);
    (program, args)
}

/// The list `[b0, b1, ...]` of byte values, as `Debug` shows a byte vector.
pub open spec fn byte_list(bytes: Seq<u8>) -> Seq<char>
    decreases bytes.len(),
{
    if bytes.len() == 0 {
        "[]"@
    } else {
        "["@ + byte_items(bytes) + "]"@
    }
}

/// The byte values of `bytes` in decimal, separated by `", "`.
pub open spec fn byte_items(bytes: Seq<u8>) -> Seq<char>
    decreases bytes.len(),
{
    if bytes.len() == 0 {
        Seq::empty()
    } else if bytes.len() == 1 {
        decimal(bytes[0] as nat)
    } else {
        byte_items(bytes.drop_last()) + ", "@ + decimal(bytes.last() as nat)
    }
}

/// `format!("{:?}", bytes)` for a byte vector (see [`byte_list`]).
pub fn byte_list_string(bytes: &Vec<u8>) -> (r: String)
    ensures
        r@ == byte_list(bytes@),
{
    proof {
        reveal_strlit("[]");
        reveal_strlit("[");
        reveal_strlit("]");
        reveal_strlit(", ");
    }
    if bytes.len() == 0 {
        return String::from_str("[]");
    }
    let mut items = decimal_string(bytes[0] as usize);
    let mut i: usize = 1;
    assert(bytes@.take(1).drop_last() =~= Seq::<u8>::empty());
    assert(byte_items(bytes@.take(1)) == decimal(bytes@[0] as nat));
    while i < bytes.len()
        invariant
            1 <= i <= bytes@.len(),
            items@ == byte_items(bytes@.take(i as int)),
        decreases bytes@.len() - i,
    {
        proof { reveal_strlit(", "); }
        assert(bytes@.take(i + 1).drop_last() =~= bytes@.take(i as int));
        items = items.concat(", ").concat(decimal_string(bytes[i] as usize).as_str());
        i = i + 1;
    }
    assert(bytes@.take(bytes@.len() as int) =~= bytes@);
    String::from_str("[").concat(items.as_str()).concat("]")
}

impl RipGrepError {
    /// The message that tells a user what went wrong.
    pub fn describe(&self) -> (r: String)
        ensures
            r@ == match self {
                RipGrepError::NotLaunched(e) => "failed to run ripgrep: "@ + e@,
                RipGrepError::ReadFailed(e) => "failed to read ripgrep output: "@ + e@,
                RipGrepError::FileNameUnparseable(f) => "ripgrep returned unreadable filename: "@ + byte_list(f@),
            },
    {
        proof {
            reveal_strlit("failed to run ripgrep: ");
            reveal_strlit("failed to read ripgrep output: ");
            reveal_strlit("ripgrep returned unreadable filename: ");
        }
        match self {
            RipGrepError::NotLaunched(e) => String::from_str("failed to run ripgrep: ").concat(e.as_str()),
            RipGrepError::ReadFailed(e) => String::from_str("failed to read ripgrep output: ").concat(e.as_str()),
            RipGrepError::FileNameUnparseable(f) =>
                String::from_str("ripgrep returned unreadable filename: ").concat(byte_list_string(f).as_str()),
        }
    }
}

} // verus!
