//! Text primitives from std that the rest of the library builds on.
use vstd::prelude::*;
use vstd::string::StrSliceExecFns;
use vstd::string::StringExecFns;
use vstd::string::StringSliceAdditionalSpecFns;

verus! {

/// Equality of two string slices (`<str as PartialEq>::eq`): true exactly when
/// they hold the same characters.
#[verifier::external_body]
pub(crate) fn str_eq(a: &str, b: &str) -> (r: bool)
    ensures
        r == (a@ == b@),
{
    a == b
}

/// What `str::to_lowercase` makes of a string: each character replaced by its
/// Unicode lowercase mapping.
pub uninterp spec fn unicode_lowercase(s: Seq<char>) -> Seq<char>;

/// `str::to_lowercase`; the result is named by [`unicode_lowercase`].
#[verifier::external_body]
pub(crate) fn to_lowercase(s: &str) -> (r: String)
    ensures
        r@ == unicode_lowercase(s@),
{
    s.to_lowercase()
}

} // verus!

verus! {

/// Whether `c` has the Unicode `White_Space` property: the 25 code points
/// that `PropList.txt` lists for it.
pub open spec fn unicode_white_space(c: char) -> bool {
    let v = c as u32;
    ||| 0x09 <= v <= 0x0D
    ||| v == 0x20
    ||| v == 0x85
    ||| v == 0xA0
    ||| v == 0x1680
    ||| 0x2000 <= v <= 0x200A
    ||| v == 0x2028
    ||| v == 0x2029
    ||| v == 0x202F
    ||| v == 0x205F
    ||| v == 0x3000
}

/// `char::is_whitespace`: whether `c` has the `White_Space` property (see
/// [`unicode_white_space`]).
#[verifier::external_body]
pub(crate) fn char_is_whitespace(c: char) -> (r: bool)
    ensures
        r == unicode_white_space(c),
{
    c.is_whitespace()
}

/// `s` without its leading white space.
pub open spec fn trim_leading_white_space(s: Seq<char>) -> Seq<char>
    decreases s.len(),
{
    if s.len() > 0 && unicode_white_space(s[0]) {
        trim_leading_white_space(s.drop_first())
    } else {
        s
    }
}

/// `s` without its leading white space (what `str::trim_start` does).
pub fn trim_start(s: &str) -> (r: String)
    ensures
        r@ == trim_leading_white_space(s@),
{
    let n = s.unicode_len();
    let mut k: usize = 0;
    assert(s@.skip(0) == s@);
    while k < n && char_is_whitespace(s.get_char(k))
        invariant
            n == s@.len(),
            k <= n,
            trim_leading_white_space(s@) == trim_leading_white_space(s@.skip(k as int)),
        decreases n - k,
    {
        assert(s@.skip(k as int).drop_first() == s@.skip(k + 1));
        k = k + 1;
    }
    assert(s@.subrange(k as int, n as int) == s@.skip(k as int));
    String::from_str(s.substring_char(k, n))
}

} // verus!

verus! {

/// What `format!("{:?}", s)` makes of a string: `s` in double quotes, with the
/// characters that need it escaped.
pub uninterp spec fn debug_quoted(s: Seq<char>) -> Seq<char>;

/// `<str as Debug>::fmt`; the result is named by [`debug_quoted`].
#[verifier::external_body]
pub(crate) fn debug_string(s: &str) -> (r: String)
    ensures
        r@ == debug_quoted(s@),
{
    format!("{:?}", s)
}

} // verus!

verus! {

/// The decimal digits of `n`.
pub open spec fn decimal(n: nat) -> Seq<char>
    decreases n,
{
    if n < 10 {
        seq![digit_char(n)]
    } else {
        decimal(n / 10).push(digit_char(n % 10))
    }
}

pub open spec fn digit_char(d: nat) -> char {
    if d == 0 { '0' } else if d == 1 { '1' } else if d == 2 { '2' } else if d == 3 { '3' }
    else if d == 4 { '4' } else if d == 5 { '5' } else if d == 6 { '6' } else if d == 7 { '7' }
    else if d == 8 { '8' } else { '9' }
}

fn digit(d: usize) -> (c: char)
    requires
        d < 10,
    ensures
        c == digit_char(d as nat),
{
    if d == 0 { '0' } else if d == 1 { '1' } else if d == 2 { '2' } else if d == 3 { '3' }
    else if d == 4 { '4' } else if d == 5 { '5' } else if d == 6 { '6' } else if d == 7 { '7' }
    else if d == 8 { '8' } else { '9' }
}

/// `n` written in decimal, as `usize::to_string` writes it.
pub fn decimal_string(n: usize) -> (r: String)
    ensures
        r@ == decimal(n as nat),
    decreases n,
{
    let mut out = if n < 10 { String::new() } else { decimal_string(n / 10) };
    let c = digit(n % 10);
    let ghost before = out@;
    out.append(char_string(c).as_str());
    proof {
        if n < 10 {
            assert(out@ =~= seq![digit_char(n as nat)]);
        } else {
            assert(out@ =~= before.push(digit_char((n % 10) as nat)));
        }
    }
    out
}

/// A string of the single character `c`.
#[verifier::external_body]
pub(crate) fn char_string(c: char) -> (r: String)
    ensures
        r@ == seq![c],
{
    c.to_string()
}

} // verus!

verus! {

/// `s` without its trailing white space.
pub open spec fn trim_trailing_white_space(s: Seq<char>) -> Seq<char>
    decreases s.len(),
{
    if s.len() > 0 && unicode_white_space(s.last()) {
        trim_trailing_white_space(s.drop_last())
    } else {
        s
    }
}

/// `s` without its leading and trailing white space (what `str::trim` does).
pub fn trim(s: &str) -> (r: String)
    ensures
        r@ == trim_trailing_white_space(trim_leading_white_space(s@)),
{
    let t = trim_start(s);
    let n = t.as_str().unicode_len();
    let mut k: usize = n;
    assert(t@.take(n as int) == t@);
    while k > 0 && char_is_whitespace(t.as_str().get_char(k - 1))
        invariant
            n == t@.len(),
            k <= n,
            trim_trailing_white_space(t@) == trim_trailing_white_space(t@.take(k as int)),
        decreases k,
    {
        assert(t@.take(k as int).drop_last() == t@.take(k - 1));
        k = k - 1;
    }
    assert(t@.subrange(0, k as int) == t@.take(k as int));
    String::from_str(t.as_str().substring_char(0, k))
}

/// `c` in lower case if it is an ASCII capital letter, else `c` itself.
pub open spec fn ascii_lower_char(c: char) -> char {
    if 'A' <= c <= 'Z' { ((c as u32) + 32) as char } else { c }
}

/// `s` with its ASCII capital letters made lower case (what `str::to_ascii_lowercase` does).
pub open spec fn ascii_lowercase(s: Seq<char>) -> Seq<char> {
    s.map_values(|c: char| ascii_lower_char(c))
}

fn ascii_lower(c: char) -> (r: char)
    ensures
        r == ascii_lower_char(c),
{
    if 'A' <= c && c <= 'Z' {
        let u = (c as u32) + 32;
        assert(('a' as u32) <= u <= ('z' as u32));
        char_from_ascii_code(u)
    } else {
        c
    }
}

/// The character with the given code, for codes of lower-case ASCII letters.
fn char_from_ascii_code(u: u32) -> (c: char)
    requires
        97 <= u <= 122,
    ensures
        c == u as char,
{
    let b = u as u8;
    b as char
}

/// `s` with its ASCII capital letters made lower case.
pub fn to_ascii_lowercase(s: &str) -> (r: String)
    ensures
        r@ == ascii_lowercase(s@),
{
    let n = s.unicode_len();
    let mut out = String::new();
    let mut i: usize = 0;
    while i < n
        invariant
            n == s@.len(),
            0 <= i <= n,
            out@ == ascii_lowercase(s@.take(i as int)),
        decreases n - i,
    {
        let c = ascii_lower(s.get_char(i));
        out.append(char_string(c).as_str());
        assert(ascii_lowercase(s@.take(i + 1)) == ascii_lowercase(s@.take(i as int)).push(c));
        i = i + 1;
    }
    assert(s@.take(n as int) == s@);
    out
}

/// `std::str::from_utf8`: the text whose UTF-8 encoding `bytes` are, if they are valid UTF-8.
#[verifier::external_body]
pub(crate) fn str_from_utf8(bytes: &[u8]) -> (r: Option<&str>)
    ensures
        r is Some <==> vstd::utf8::valid_utf8(bytes@),
        r matches Some(s) ==> s.spec_bytes() == bytes@,
{
    std::str::from_utf8(bytes).ok()
}

} // verus!

verus! {

/// Whether `a` comes before `b` in the order of `str`: character by character by
/// code point, a proper prefix first. (UTF-8 keeps code-point order, so this is
/// also the byte order that `Ord for str` uses.)
pub open spec fn char_seq_lt(a: Seq<char>, b: Seq<char>) -> bool
    decreases a.len(),
{
    if a.len() == 0 {
        b.len() > 0
    } else if b.len() == 0 {
        false
    } else if a[0] != b[0] {
        a[0] < b[0]
    } else {
        char_seq_lt(a.drop_first(), b.drop_first())
    }
}

pub proof fn lemma_char_seq_lt_irreflexive(a: Seq<char>)
    ensures
        !char_seq_lt(a, a),
    decreases a.len(),
{
    if a.len() > 0 {
        lemma_char_seq_lt_irreflexive(a.drop_first());
    }
}

pub proof fn lemma_char_seq_lt_total(a: Seq<char>, b: Seq<char>)
    requires
        a != b,
    ensures
        char_seq_lt(a, b) || char_seq_lt(b, a),
    decreases a.len(),
{
    if a.len() > 0 && b.len() > 0 && a[0] == b[0] {
        if a.drop_first() == b.drop_first() {
            assert(a =~= seq![a[0]] + a.drop_first());
            assert(b =~= seq![b[0]] + b.drop_first());
        }
        lemma_char_seq_lt_total(a.drop_first(), b.drop_first());
    } else if a.len() > 0 && b.len() > 0 {
    } else if a.len() == 0 && b.len() == 0 {
        assert(a =~= b);
    }
}

pub proof fn lemma_char_seq_lt_transitive(a: Seq<char>, b: Seq<char>, c: Seq<char>)
    requires
        char_seq_lt(a, b),
        char_seq_lt(b, c),
    ensures
        char_seq_lt(a, c),
    decreases a.len(),
{
    if a.len() > 0 && b.len() > 0 && c.len() > 0 && a[0] == b[0] && b[0] == c[0] {
        lemma_char_seq_lt_transitive(a.drop_first(), b.drop_first(), c.drop_first());
    }
}

/// Whether `a` comes before `b` (`<` on `str`).
pub fn str_lt(a: &str, b: &str) -> (r: bool)
    ensures
        r == char_seq_lt(a@, b@),
{
    let n = a.unicode_len();
    let m = b.unicode_len();
    let mut i: usize = 0;
    assert(a@.skip(0) =~= a@);
    assert(b@.skip(0) =~= b@);
    while i < n && i < m
        invariant
            n == a@.len(),
            m == b@.len(),
            i <= n,
            i <= m,
            char_seq_lt(a@, b@) == char_seq_lt(a@.skip(i as int), b@.skip(i as int)),
        decreases n - i,
    {
        let x = a.get_char(i);
        let y = b.get_char(i);
        assert(a@.skip(i as int)[0] == x);
        assert(b@.skip(i as int)[0] == y);
        if x != y {
            return x < y;
        }
        assert(a@.skip(i as int).drop_first() =~= a@.skip(i + 1));
        assert(b@.skip(i as int).drop_first() =~= b@.skip(i + 1));
        i = i + 1;
    }
    i < m
}

/// The character sequences of a sequence of strings.
pub open spec fn string_views(v: Seq<String>) -> Seq<Seq<char>> {
    v.map_values(|s: String| s@)
}

/// Each string comes strictly before the next.
pub open spec fn strictly_increasing(v: Seq<Seq<char>>) -> bool {
    forall|i: int, j: int| 0 <= i < j < v.len() ==> char_seq_lt(#[trigger] v[i], #[trigger] v[j])
}

/// The distinct strings of `v`, in increasing order (what sorting `v` and then
/// dropping repeats gives).
pub fn sorted_unique(v: Vec<String>) -> (r: Vec<String>)
    ensures
        strictly_increasing(string_views(r@)),
        forall|s: Seq<char>| string_views(r@).contains(s) <==> string_views(v@).contains(s),
        r@.len() <= v@.len(),
{
    let mut out: Vec<String> = Vec::new();
    let mut k: usize = 0;
    while k < v.len()
        invariant
            k <= v.len(),
            out@.len() <= k,
            strictly_increasing(string_views(out@)),
            forall|s: Seq<char>| string_views(out@).contains(s) <==> string_views(v@.take(k as int)).contains(s),
        decreases v.len() - k,
    {
        let x = &v[k];
        let ghost xs = x@;
        let ghost before = string_views(out@);
        // the first position whose string does not come before `x`
        let mut i: usize = 0;
        while i < out.len() && str_lt(out[i].as_str(), x.as_str())
            invariant
                i <= out@.len(),
                string_views(out@) == before,
                xs == x@,
                forall|j: int| 0 <= j < i ==> char_seq_lt(#[trigger] string_views(out@)[j], xs),
            decreases out@.len() - i,
        {
            assert(string_views(out@)[i as int] == out@[i as int]@);
            i = i + 1;
        }
        let present = i < out.len() && str_eq(out[i].as_str(), x.as_str());
        if present {
            assert(before[i as int] == out@[i as int]@);
        }
        if !present {
            proof {
                assert forall|j: int| i <= j < before.len() implies char_seq_lt(xs, #[trigger] before[j]) by {
                    if j == i {
                        assert(!char_seq_lt(before[j], xs));
                        lemma_char_seq_lt_total(before[j], xs);
                    } else {
                        assert(!char_seq_lt(before[i as int], xs));
                        if before[i as int] != xs {
                            lemma_char_seq_lt_total(before[i as int], xs);
                        }
                        lemma_char_seq_lt_transitive(xs, before[i as int], before[j]);
                    }
                }
            }
            out.insert(i, x.clone());
            proof {
                let after = string_views(out@);
                assert(after =~= before.insert(i as int, xs));
                assert forall|a: int, b: int| 0 <= a < b < after.len() implies char_seq_lt(#[trigger] after[a], #[trigger] after[b]) by {
                    if b < i {
                        assert(after[a] == before[a]);
                        assert(after[b] == before[b]);
                    } else if a < i && b == i {
                    } else if a < i && b > i {
                        assert(after[b] == before[b - 1]);
                    } else if a == i {
                        assert(after[b] == before[b - 1]);
                    } else {
                        assert(after[a] == before[a - 1]);
                        assert(after[b] == before[b - 1]);
                    }
                }
            }
        }
        proof {
            let after = string_views(out@);
            assert(string_views(v@.take(k + 1)) =~= string_views(v@.take(k as int)).push(xs));
            assert forall|s: Seq<char>| after.contains(s) <==> string_views(v@.take(k + 1)).contains(s) by {
                if present {
                    assert(before[i as int] == xs);
                    assert(after == before);
                } else {
                    assert(after =~= before.insert(i as int, xs));
                    if before.contains(s) {
                        let j = choose|j: int| 0 <= j < before.len() && before[j] == s;
                        if j < i {
                            assert(after[j] == s);
                        } else {
                            assert(after[j + 1] == s);
                        }
                    }
                    if after.contains(s) {
                        let j = choose|j: int| 0 <= j < after.len() && after[j] == s;
                        if j < i {
                            assert(before[j] == s);
                        } else if j > i {
                            assert(before[j - 1] == s);
                        }
                    }
                    assert(after[i as int] == xs);
                }
                let prev = string_views(v@.take(k as int));
                let next = string_views(v@.take(k + 1));
                assert(next[k as int] == xs);
                assert(after[i as int] == xs);
                if prev.contains(s) {
                    let j = choose|j: int| 0 <= j < prev.len() && prev[j] == s;
                    assert(next[j] == s);
                }
                if next.contains(s) && s != xs {
                    let j = choose|j: int| 0 <= j < next.len() && next[j] == s;
                    assert(j < k);
                    assert(prev[j] == s);
                }
            }
        }
        k = k + 1;
    }
    assert(v@.take(v.len() as int) =~= v@);
    out
}

/// Two strictly increasing lists of the same strings are the same list: the
/// sorted names without repeats are determined by which names there are.
pub proof fn law_sorted_unique_is_determined(a: Seq<Seq<char>>, b: Seq<Seq<char>>)
    requires
        strictly_increasing(a),
        strictly_increasing(b),
        forall|s: Seq<char>| a.contains(s) <==> b.contains(s),
    ensures
        a == b,
    decreases a.len(),
{
    if a.len() == 0 {
        if b.len() > 0 {
            assert(b.contains(b[0]));
        }
        assert(a =~= b);
    } else {
        assert(a.contains(a[0]));
        assert(b.len() > 0);
        assert(b.contains(b[0]));
        // the first of each is the least string of both
        let i = choose|i: int| 0 <= i < b.len() && b[i] == a[0];
        let j = choose|j: int| 0 <= j < a.len() && a[j] == b[0];
        if i > 0 {
            assert(char_seq_lt(b[0], b[i]));
            if j > 0 {
                assert(char_seq_lt(a[0], a[j]));
                lemma_char_seq_lt_transitive(a[0], b[0], a[0]);
                lemma_char_seq_lt_irreflexive(a[0]);
            } else {
                lemma_char_seq_lt_irreflexive(a[0]);
            }
        }
        assert(b[0] == a[0]);
        let a1 = a.drop_first();
        let b1 = b.drop_first();
        assert forall|s: Seq<char>| a1.contains(s) <==> b1.contains(s) by {
            if a1.contains(s) {
                let k = choose|k: int| 0 <= k < a1.len() && a1[k] == s;
                assert(a[k + 1] == s);
                assert(char_seq_lt(a[0], s));
                lemma_char_seq_lt_irreflexive(s);
                assert(b.contains(s));
                let m = choose|m: int| 0 <= m < b.len() && b[m] == s;
                assert(m != 0);
                assert(b1[m - 1] == s);
            }
            if b1.contains(s) {
                let k = choose|k: int| 0 <= k < b1.len() && b1[k] == s;
                assert(b[k + 1] == s);
                assert(char_seq_lt(b[0], s));
                lemma_char_seq_lt_irreflexive(s);
                assert(a.contains(s));
                let m = choose|m: int| 0 <= m < a.len() && a[m] == s;
                assert(m != 0);
                assert(a1[m - 1] == s);
            }
        }
        assert(strictly_increasing(a1)) by {
            assert forall|x: int, y: int| 0 <= x < y < a1.len() implies char_seq_lt(#[trigger] a1[x], #[trigger] a1[y]) by {
                assert(a1[x] == a[x + 1] && a1[y] == a[y + 1]);
            }
        }
        assert(strictly_increasing(b1)) by {
            assert forall|x: int, y: int| 0 <= x < y < b1.len() implies char_seq_lt(#[trigger] b1[x], #[trigger] b1[y]) by {
                assert(b1[x] == b[x + 1] && b1[y] == b[y + 1]);
            }
        }
        law_sorted_unique_is_determined(a1, b1);
        assert(a =~= seq![a[0]] + a1);
        assert(b =~= seq![b[0]] + b1);
    }
}

} // verus!
