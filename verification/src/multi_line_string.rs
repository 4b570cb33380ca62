//! Strings that configs may write either whole or as a list of lines.
use vstd::prelude::*;
use vstd::string::StrSliceExecFns;
use vstd::string::StringExecFns;

verus! {

/// A string, possibly given as an array of lines.
#[derive(Clone, Debug)]
pub struct MultiLineString(String);

/// `s` without the carriage returns and line feeds at its end.
pub open spec fn trim_line_ends(s: Seq<char>) -> Seq<char>
    decreases s.len(),
{
    if s.len() > 0 && (s.last() == '\r' || s.last() == '\n') {
        trim_line_ends(s.drop_last())
    } else {
        s
    }
}

/// The lines joined by line feeds.
pub open spec fn join_lines(lines: Seq<Seq<char>>) -> Seq<char>
    decreases lines.len(),
{
    if lines.len() == 0 {
        Seq::empty()
    } else if lines.len() == 1 {
        lines[0]
    } else {
        join_lines(lines.drop_last()) + seq!['\n'] + lines.last()
    }
}

/// `s` without the carriage returns and line feeds at its end.
pub fn trim_end_line_breaks(s: &str) -> (r: String)
    ensures
        r@ == trim_line_ends(s@),
{
    let mut n = s.unicode_len();
    assert(s@.subrange(0, n as int) == s@);
    while n > 0 && (s.get_char(n - 1) == '\r' || s.get_char(n - 1) == '\n')
        invariant
            n <= s@.len(),
            trim_line_ends(s@) == trim_line_ends(s@.subrange(0, n as int)),
        decreases n,
    {
        assert(s@.subrange(0, n as int).drop_last() == s@.subrange(0, n - 1));
        n = n - 1;
    }
    String::from_str(s.substring_char(0, n))
}

impl MultiLineString {
    /// A string given whole.
    pub fn new(s: String) -> (r: Self)
        ensures
            r@ == s@,
    {
        MultiLineString(s)
    }

    /// A string given as lines: each loses its trailing line breaks, then they
    /// are joined by line feeds.
    pub fn from_lines(lines: &Vec<String>) -> (r: Self)
        ensures
            r@ == join_lines(lines@.map_values(|l: String| trim_line_ends(l@))),
    {
        let ghost trimmed = lines@.map_values(|l: String| trim_line_ends(l@));
        let mut out = String::new();
        let mut i: usize = 0;
        while i < lines.len()
            invariant
                0 <= i <= lines.len(),
                trimmed == lines@.map_values(|l: String| trim_line_ends(l@)),
                out@ == join_lines(trimmed.take(i as int)),
            decreases lines.len() - i,
        {
            let line = trim_end_line_breaks(lines[i].as_str());
            assert(trimmed.take(i + 1).drop_last() == trimmed.take(i as int));
            if i > 0 {
                out.append("\n");
                proof { reveal_strlit("\n"); }
            }
            out.append(line.as_str());
            i = i + 1;
        }
        assert(trimmed.take(lines.len() as int) == trimmed);
        MultiLineString(out)
    }

    pub fn as_str(&self) -> (r: &str)
        ensures
            r@ == self@,
    {
        self.0.as_str()
    }

    pub fn into_string(self) -> (r: String)
        ensures
            r@ == self@,
    {
        self.0
    }
}

impl View for MultiLineString {
    type V = Seq<char>;

    closed spec fn view(&self) -> Seq<char> {
        self.0@
    }
}

} // verus!
