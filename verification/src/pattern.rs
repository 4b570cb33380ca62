//! The regular expressions that names are matched against.
use vstd::prelude::*;
use vstd::string::StringExecFns;

verus! {

#[verifier::external_type_specification]
#[verifier::external_body]
pub struct ExRegex(regex::Regex);

/// Whether `regex::RegexBuilder` compiles a pattern, with or without case
/// insensitivity (every other option left as the builder sets it).
pub uninterp spec fn regex_compiles(pattern: Seq<char>, case_insensitive: bool) -> bool;

/// Whether a compiled pattern matches somewhere in `haystack` (`regex::Regex::is_match`).
pub uninterp spec fn regex_matches(pattern: Seq<char>, case_insensitive: bool, haystack: Seq<char>) -> bool;

/// Whether `c` has a meaning in a pattern (`regex_syntax::is_meta_character`).
pub open spec fn is_meta_character(c: char) -> bool {
    ||| c == '\\'
    ||| c == '.'
    ||| c == '+'
    ||| c == '*'
    ||| c == '?'
    ||| c == '('
    ||| c == ')'
    ||| c == '|'
    ||| c == '['
    ||| c == ']'
    ||| c == '{'
    ||| c == '}'
    ||| c == '^'
    ||| c == '$'
    ||| c == '#'
    ||| c == '&'
    ||| c == '-'
    ||| c == '~'
}

/// What `regex::escape` makes of a string: each meta character preceded by a backslash.
pub open spec fn regex_escaped(s: Seq<char>) -> Seq<char>
    decreases s.len(),
{
    if s.len() == 0 {
        Seq::empty()
    } else {
        regex_escaped(s.drop_last()) + if is_meta_character(s.last()) {
            seq!['\\', s.last()]
        } else {
            seq![s.last()]
        }
    }
}

/// Whether `needle` occurs in `haystack`.
pub open spec fn occurs_in(needle: Seq<char>, haystack: Seq<char>) -> bool {
    exists|i: int| 0 <= i && i + needle.len() <= haystack.len() && #[trigger] haystack.subrange(i, i + needle.len()) == needle
}

/// `regex::RegexBuilder::new(source).case_insensitive(..).build()`; whether it
/// succeeds is named by [`regex_compiles`]. A refusal comes back as the
/// `regex::Error`'s `Display` text, of which nothing is stated.
#[verifier::external_body]
fn build_regex(source: &str, case_insensitive: bool) -> (r: Result<regex::Regex, String>)
    ensures
        r is Ok <==> regex_compiles(source@, case_insensitive),
{
    regex::RegexBuilder::new(source).case_insensitive(case_insensitive).build().map_err(|e| e.to_string())
}

/// `regex::escape`: the string with each meta character escaped (see
/// [`regex_escaped`]). Its documentation promises a pattern that stands for the string literally, so where it
/// compiles without case insensitivity it matches exactly the texts in which
/// the string occurs.
#[verifier::external_body]
pub(crate) fn escape(s: &str) -> (r: String)
    ensures
        r@ == regex_escaped(s@),
        regex_compiles(r@, false) ==> forall|t: Seq<char>| #[trigger] regex_matches(r@, false, t) <==> occurs_in(s@, t),
{
    regex::escape(s)
}

/// A pattern that did not compile, and why.
#[derive(Debug)]
pub struct PatternError {
    pub message: String,
}

/// A compiled regular expression, with the source and the case flag it was
/// compiled from.
pub struct Pattern {
    regex: regex::Regex,
    source: String,
    case_insensitive: bool,
}

impl View for Pattern {
    type V = (Seq<char>, bool);

    closed spec fn view(&self) -> (Seq<char>, bool) {
        (self.source@, self.case_insensitive)
    }
}

impl Pattern {
    /// Compiles `source`, ignoring case if asked to; refused exactly where the
    /// regex crate refuses it.
    pub fn new(source: &str, case_insensitive: bool) -> (r: Result<Pattern, PatternError>)
        ensures
            r is Ok <==> regex_compiles(source@, case_insensitive),
            r matches Ok(p) ==> p@ == (source@, case_insensitive),
    {
        match build_regex(source, case_insensitive) {
            Ok(regex) => Ok(Pattern { regex, source: String::from_str(source), case_insensitive }),
            Err(message) => Err(PatternError { message }),
        }
    }

    /// The source the pattern was compiled from.
    pub fn as_str(&self) -> (r: &str)
        ensures
            r@ == self@.0,
    {
        self.source.as_str()
    }

    /// `regex::Regex::is_match` on the compiled pattern; the answer is named by [`regex_matches`].
    #[verifier::external_body]
    pub(crate) fn is_match(&self, text: &str) -> (r: bool)
        ensures
            r == regex_matches(self@.0, self@.1, text@),
    {
        self.regex.is_match(text)
    }
}

} // verus!
