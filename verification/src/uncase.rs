//! Case-insensitive patterns across kebab, snake and camel case.
use vstd::prelude::*;
use vstd::string::StrSliceExecFns;
use vstd::string::StringExecFns;
use heck::ToKebabCase;
use vstd::string::StringSliceAdditionalSpecFns;
use crate::text::{char_string, debug_quoted, debug_string, decimal, decimal_string};

verus! {

/// The input held a character that cannot be part of an identifier.
#[derive(Debug)]
pub struct NotRecaseable {
    input: String,
    bad_position: usize,
}

/// Whether `char::is_alphanumeric` holds of `c` (Unicode `Alphabetic` or `Numeric`).
pub uninterp spec fn unicode_alphanumeric(c: char) -> bool;

/// `char::is_alphanumeric`; the result is named by [`unicode_alphanumeric`].
#[verifier::external_body]
fn char_is_alphanumeric(c: char) -> (r: bool)
    ensures
        r == unicode_alphanumeric(c),
{
    c.is_alphanumeric()
}

/// What `heck::ToKebabCase::to_kebab_case` makes of a string: its words, found at
/// non-alphanumeric characters and changes of case, lower-cased and joined by `-`.
pub uninterp spec fn kebab_case(s: Seq<char>) -> Seq<char>;

/// `heck::ToKebabCase::to_kebab_case`; the result is named by [`kebab_case`].
#[verifier::external_body]
fn to_kebab_case(s: &str) -> (r: String)
    ensures
        r@ == kebab_case(s@),
{
    s.to_kebab_case()
}

/// Whether `c` may stand in an identifier to recase.
pub open spec fn recaseable_char(c: char) -> bool {
    unicode_alphanumeric(c) || c == '-' || c == '_'
}

/// The number of bytes of the UTF-8 encoding of `c`.
pub open spec fn utf8_width(c: char) -> nat {
    if (c as u32) < 0x80 { 1 } else if (c as u32) < 0x800 { 2 } else if (c as u32) < 0x10000 { 3 } else { 4 }
}

/// The number of bytes of the UTF-8 encoding of `s`.
pub open spec fn utf8_len(s: Seq<char>) -> nat
    decreases s.len(),
{
    if s.len() == 0 { 0 } else { utf8_len(s.drop_last()) + utf8_width(s.last()) }
}

/// `s` with each `-` replaced by the pattern `[_-]*`.
pub open spec fn dashes_to_patterns(s: Seq<char>) -> Seq<char>
    decreases s.len(),
{
    if s.len() == 0 {
        Seq::empty()
    } else {
        dashes_to_patterns(s.drop_last()) + if s.last() == '-' { "[_-]*"@ } else { seq![s.last()] }
    }
}

/// A regular expression that matches `identifier` in any of the cases heck
/// converts between: its kebab case, framed by dashes, with each dash made a
/// run of underscores and dashes.
pub open spec fn uncase_spec(identifier: Seq<char>) -> Seq<char> {
    dashes_to_patterns(seq!['-'] + kebab_case(identifier) + seq!['-'])
}

impl NotRecaseable {
    pub closed spec fn input(&self) -> Seq<char> {
        self.input@
    }

    pub closed spec fn bad_position(&self) -> usize {
        self.bad_position
    }

    /// The message that tells a user what went wrong.
    pub fn describe(&self) -> (r: String)
        ensures
            r@ == "input "@ + debug_quoted(self.input()) + " contained non-alphanumeric character at byte "@
                + decimal(self.bad_position() as nat),
    {
        proof {
            reveal_strlit("input ");
            reveal_strlit(" contained non-alphanumeric character at byte ");
        }
        String::from_str("input ").concat(debug_string(self.input.as_str()).as_str()).concat(
            " contained non-alphanumeric character at byte ",
        ).concat(decimal_string(self.bad_position).as_str())
    }
}

proof fn lemma_utf8_len_front(s: Seq<char>)
    requires
        s.len() > 0,
    ensures
        utf8_len(s) == utf8_width(s[0]) + utf8_len(s.drop_first()),
    decreases s.len(),
{
    if s.len() > 1 {
        lemma_utf8_len_front(s.drop_last());
        assert(s.drop_last().drop_first() == s.drop_first().drop_last());
        assert(s.drop_last()[0] == s[0]);
        assert(utf8_len(s) == utf8_len(s.drop_last()) + utf8_width(s.last()));
        assert(s.drop_first().last() == s.last());
        assert(utf8_len(s.drop_first()) == utf8_len(s.drop_first().drop_last()) + utf8_width(s.drop_first().last()));
    } else {
        assert(s.drop_first().len() == 0);
        assert(s.drop_last().len() == 0);
        assert(utf8_len(s.drop_last()) == 0);
        assert(utf8_len(s.drop_first()) == 0);
        assert(s.last() == s[0]);
    }
}

proof fn lemma_utf8_len_encode(s: Seq<char>)
    ensures
        utf8_len(s) == vstd::utf8::encode_utf8(s).len(),
    decreases s.len(),
{
    if s.len() > 0 {
        lemma_utf8_len_front(s);
        lemma_utf8_len_encode(s.drop_first());
        vstd::utf8::char_is_scalar(s[0]);
    }
}

proof fn lemma_utf8_len_prefix(s: Seq<char>, i: int)
    requires
        0 <= i <= s.len(),
    ensures
        utf8_len(s.take(i)) <= utf8_len(s),
    decreases s.len(),
{
    if i < s.len() {
        lemma_utf8_len_prefix(s.drop_last(), i);
        assert(s.drop_last().take(i) == s.take(i));
    } else {
        assert(s.take(i) == s);
    }
}

fn utf8_width_of(c: char) -> (w: usize)
    ensures
        w == utf8_width(c),
{
    let u = c as u32;
    if u < 0x80 { 1 } else if u < 0x800 { 2 } else if u < 0x10000 { 3 } else { 4 }
}

/// Each `-` of `s` replaced by `[_-]*`.
fn replace_dashes(s: &str) -> (r: String)
    ensures
        r@ == dashes_to_patterns(s@),
{
    let n = s.unicode_len();
    let mut out = String::new();
    let mut i: usize = 0;
    while i < n
        invariant
            n == s@.len(),
            0 <= i <= n,
            out@ == dashes_to_patterns(s@.take(i as int)),
        decreases n - i,
    {
        let c = s.get_char(i);
        assert(s@.take(i + 1).drop_last() == s@.take(i as int));
        if c == '-' {
            out.append("[_-]*");
            proof { reveal_strlit("[_-]*"); }
        } else {
            out.append(char_string(c).as_str());
        }
        i = i + 1;
    }
    assert(s@.take(n as int) == s@);
    out
}

/// A pattern matching `identifier` in kebab, snake, camel or any other case;
/// an error names the first character (by byte offset) that is neither
/// alphanumeric nor `-` nor `_`.
pub fn uncase(identifier: &str) -> (r: Result<String, NotRecaseable>)
    requires
        identifier.spec_bytes().len() <= usize::MAX,
    ensures
        r is Ok <==> forall|i: int| 0 <= i < identifier@.len() ==> recaseable_char(#[trigger] identifier@[i]),
        r matches Ok(p) ==> p@ == uncase_spec(identifier@),
        r matches Err(e) ==> e.input() == identifier@ && exists|i: int| 0 <= i < identifier@.len() && {
            &&& !recaseable_char(#[trigger] identifier@[i])
            &&& forall|j: int| 0 <= j < i ==> recaseable_char(#[trigger] identifier@[j])
            &&& e.bad_position() == utf8_len(identifier@.take(i))
        },
{
    let n = identifier.unicode_len();
    let total = identifier.len();
    let mut i: usize = 0;
    let mut offset: usize = 0;
    assert(identifier@.take(0) =~= Seq::<char>::empty());
    while i < n
        invariant
            n == identifier@.len(),
            0 <= i <= n,
            offset == utf8_len(identifier@.take(i as int)),
            identifier.spec_bytes().len() <= usize::MAX,
            forall|j: int| 0 <= j < i ==> recaseable_char(#[trigger] identifier@[j]),
        decreases n - i,
    {
        let c = identifier.get_char(i);
        if !char_is_alphanumeric(c) && c != '-' && c != '_' {
            return Err(NotRecaseable { input: String::from_str(identifier), bad_position: offset });
        }
        assert(identifier@.take(i + 1).drop_last() == identifier@.take(i as int));
        proof {
            lemma_utf8_len_prefix(identifier@, i + 1);
            lemma_utf8_len_encode(identifier@);
        }
        offset = offset + utf8_width_of(c);
        i = i + 1;
    }
    let kebab = to_kebab_case(identifier);
    proof { reveal_strlit("-"); }
    let framed = String::from_str("-").concat(kebab.as_str()).concat("-");
    assert(framed@ =~= seq!['-'] + kebab_case(identifier@) + seq!['-']);
    Ok(replace_dashes(framed.as_str()))
}

} // verus!
