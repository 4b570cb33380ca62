//! Ranking files by how well their paths match an import.
use vstd::prelude::*;
use crate::language_name::LanguageName;
use crate::text::str_eq;
use vstd::string::StringSliceAdditionalSpecFns;

verus! {

#[verifier::external_type_specification]
#[verifier::external_body]
pub struct ExPathBuf(std::path::PathBuf);

/// The components that `Path::iter` gives of `path`, each as the bytes of its
/// encoding (`OsStr::as_encoded_bytes`), as this build of the program splits paths.
pub uninterp spec fn path_components_of(path: std::path::PathBuf) -> Seq<Seq<u8>>;

/// The components of `path` (`Path::iter`), each as the bytes of its platform
/// encoding; named by [`path_components_of`].
#[verifier::external_body]
fn path_components(path: &std::path::PathBuf) -> (r: Vec<Vec<u8>>)
    ensures
        r@.map_values(|v: Vec<u8>| v@) == path_components_of(*path),
{
    path.iter().map(|c| c.as_encoded_bytes().to_vec()).collect()
}

/// The pieces of `s` between the bytes `sep`.
pub open spec fn split_bytes(s: Seq<u8>, sep: u8) -> Seq<Seq<u8>>
    decreases s.len(),
{
    if s.len() == 0 {
        seq![Seq::empty()]
    } else {
        let rest = split_bytes(s.drop_last(), sep);
        if s.last() == sep {
            rest.push(Seq::empty())
        } else {
            rest.update(rest.len() - 1, rest.last().push(s.last()))
        }
    }
}

/// The pieces joined again, with `sep` between each two.
pub open spec fn joined_with(pieces: Seq<Seq<u8>>, sep: u8) -> Seq<u8>
    decreases pieces.len(),
{
    if pieces.len() == 0 {
        Seq::empty()
    } else if pieces.len() == 1 {
        pieces[0]
    } else {
        joined_with(pieces.drop_last(), sep).push(sep) + pieces.last()
    }
}

/// Splitting at `sep` loses nothing and cuts at every `sep`: there is at
/// least one piece, no piece holds `sep`, and the pieces joined with `sep`
/// give `s` back.
pub proof fn law_split_bytes_rejoins(s: Seq<u8>, sep: u8)
    ensures
        split_bytes(s, sep).len() >= 1,
        forall|i: int| 0 <= i < split_bytes(s, sep).len() ==> !(#[trigger] split_bytes(s, sep)[i]).contains(sep),
        joined_with(split_bytes(s, sep), sep) == s,
    decreases s.len(),
{
    if s.len() == 0 {
        assert(split_bytes(s, sep)[0] =~= Seq::<u8>::empty());
        assert(s =~= Seq::<u8>::empty());
    } else {
        let s1 = s.drop_last();
        let c = s.last();
        law_split_bytes_rejoins(s1, sep);
        let rest = split_bytes(s1, sep);
        let out = split_bytes(s, sep);
        if c == sep {
            assert(out == rest.push(Seq::empty()));
            assert(out.drop_last() =~= rest);
            assert forall|i: int| 0 <= i < out.len() implies !(#[trigger] out[i]).contains(sep) by {
                if i < rest.len() {
                    assert(out[i] == rest[i]);
                }
            }
            assert(joined_with(out, sep) =~= s1.push(sep) + Seq::<u8>::empty());
            assert(s =~= s1.push(sep));
        } else {
            let last = rest.last().push(c);
            assert(out == rest.update(rest.len() - 1, last));
            assert forall|i: int| 0 <= i < out.len() implies !(#[trigger] out[i]).contains(sep) by {
                if i < rest.len() - 1 {
                    assert(out[i] == rest[i]);
                } else {
                    assert(out[i] == last);
                    assert(!rest[rest.len() - 1].contains(sep));
                    if last.contains(sep) {
                        let k = choose|k: int| 0 <= k < last.len() && last[k] == sep;
                        assert(rest.last()[k] == sep);
                    }
                }
            }
            if rest.len() == 1 {
                assert(out[0] == last);
                assert(s =~= s1.push(c));
            } else {
                assert(out.drop_last() =~= rest.drop_last());
                assert(joined_with(rest, sep) == joined_with(rest.drop_last(), sep).push(sep) + rest.last());
                assert(joined_with(out, sep) =~= joined_with(rest, sep).push(c));
                assert(s =~= s1.push(c));
            }
        }
    }
}

/// How many trailing items of `a` and `b` agree, counted from the back.
pub open spec fn common_suffix_len(a: Seq<Seq<u8>>, b: Seq<Seq<u8>>) -> nat
    decreases a.len(),
{
    if a.len() == 0 || b.len() == 0 || a.last() != b.last() {
        0
    } else {
        1 + common_suffix_len(a.drop_last(), b.drop_last())
    }
}

/// [`common_suffix_len`] is the length of the longest common suffix: the last
/// `n` items of `a` and `b` agree pairwise, and where both have an item before
/// those, the two differ.
pub proof fn law_common_suffix_is_longest(a: Seq<Seq<u8>>, b: Seq<Seq<u8>>)
    ensures
        ({
            let n = common_suffix_len(a, b);
            &&& n <= a.len() && n <= b.len()
            &&& forall|i: int| 0 <= i < n ==> #[trigger] a[a.len() - 1 - i] == b[b.len() - 1 - i]
            &&& n < a.len() && n < b.len() ==> a[a.len() - 1 - n] != b[b.len() - 1 - n]
        }),
    decreases a.len(),
{
    if a.len() == 0 || b.len() == 0 || a.last() != b.last() {
    } else {
        let a1 = a.drop_last();
        let b1 = b.drop_last();
        law_common_suffix_is_longest(a1, b1);
        let n = common_suffix_len(a, b);
        assert forall|i: int| 0 <= i < n implies #[trigger] a[a.len() - 1 - i] == b[b.len() - 1 - i] by {
            if i > 0 {
                assert(a1[a1.len() - 1 - (i - 1)] == b1[b1.len() - 1 - (i - 1)]);
            }
        }
        if n < a.len() && n < b.len() {
            assert(a1[a1.len() - 1 - (n - 1)] != b1[b1.len() - 1 - (n - 1)]);
        }
    }
}

/// How far `dep` (a dotted module path) is from the file whose path has the
/// components `components`: minus the number of trailing components on which they
/// agree, for Python, and 0 for every other language.
pub open spec fn dissimilarity_spec(language: Seq<char>, dep: Seq<u8>, components: Seq<Seq<u8>>) -> i32 {
    if language == "Python"@ {
        let n = common_suffix_len(split_bytes(dep, 46u8), components);
        if n <= i32::MAX { -n as i32 } else { 0 }
    } else {
        0
    }
}

/// Byte-wise equality of two byte strings.
pub(crate) fn bytes_eq(a: &Vec<u8>, b: &Vec<u8>) -> (r: bool)
    ensures
        r == (a@ == b@),
{
    if a.len() != b.len() {
        return false;
    }
    let mut i: usize = 0;
    while i < a.len()
        invariant
            a@.len() == b@.len(),
            0 <= i <= a@.len(),
            forall|j: int| 0 <= j < i ==> a@[j] == b@[j],
        decreases a.len() - i,
    {
        if a[i] != b[i] {
            return false;
        }
        i = i + 1;
    }
    assert(a@ =~= b@);
    true
}

/// The pieces of `s` between the bytes `sep`.
pub fn split_on_byte(s: &[u8], sep: u8) -> (r: Vec<Vec<u8>>)
    ensures
        r@.map_values(|v: Vec<u8>| v@) == split_bytes(s@, sep),
{
    let mut done: Vec<Vec<u8>> = Vec::new();
    let mut current: Vec<u8> = Vec::new();
    let mut i: usize = 0;
    while i < s.len()
        invariant
            0 <= i <= s@.len(),
            split_bytes(s@.take(i as int), sep) == done@.map_values(|v: Vec<u8>| v@).push(current@),
        decreases s.len() - i,
    {
        let b = s[i];
        assert(s@.take(i + 1).drop_last() == s@.take(i as int));
        assert(s@.take(i + 1).last() == b);
        if b == sep {
            let ghost before = done@.map_values(|v: Vec<u8>| v@);
            done.push(current);
            current = Vec::new();
            assert(done@.map_values(|v: Vec<u8>| v@) =~= before.push(done@.last()@));
        } else {
            current.push(b);
        }
        i = i + 1;
    }
    assert(s@.take(s.len() as int) == s@);
    let ghost before = done@.map_values(|v: Vec<u8>| v@);
    done.push(current);
    assert(done@.map_values(|v: Vec<u8>| v@) =~= before.push(done@.last()@));
    done
}

/// [`dissimilarity`], given the path's components.
pub fn dissimilarity_of_components(language_name: LanguageName, dep: &str, components: &Vec<Vec<u8>>) -> (r: i32)
    ensures
        r == dissimilarity_spec(language_name@, dep.spec_bytes(), components@.map_values(|v: Vec<u8>| v@)),
{
    if !str_eq(language_name.as_str(), "Python") {
        return 0;
    }
    let dep_components = split_on_byte(dep.as_bytes(), 46u8);
    let ghost a = dep_components@.map_values(|v: Vec<u8>| v@);
    let ghost b = components@.map_values(|v: Vec<u8>| v@);
    let mut k: usize = 0;
    assert(a.take(a.len() as int) == a);
    assert(b.take(b.len() as int) == b);
    loop
        invariant
            a == dep_components@.map_values(|v: Vec<u8>| v@),
            b == components@.map_values(|v: Vec<u8>| v@),
            k <= a.len(),
            k <= b.len(),
            common_suffix_len(a, b) == k + common_suffix_len(a.take(a.len() - k), b.take(b.len() - k)),
        ensures
            common_suffix_len(a, b) == k,
        decreases a.len() - k,
    {
        let ghost ak = a.take(a.len() - k);
        let ghost bk = b.take(b.len() - k);
        if k >= dep_components.len() || k >= components.len() {
            assert(common_suffix_len(ak, bk) == 0);
            break;
        }
        let x = &dep_components[dep_components.len() - 1 - k];
        let y = &components[components.len() - 1 - k];
        assert(ak.last() == x@);
        assert(bk.last() == y@);
        if !bytes_eq(x, y) {
            assert(common_suffix_len(ak, bk) == 0);
            break;
        }
        assert(ak.drop_last() == a.take(a.len() - k - 1));
        assert(bk.drop_last() == b.take(b.len() - k - 1));
        k = k + 1;
    }
    if k <= 2147483647usize {
        -(k as i32)
    } else {
        0
    }
}

/// How far the import `dep` is from the file at `path`; smaller values are closer.
/// Only Python imports are understood: there the value is minus the number of
/// trailing path components that match the trailing components of the dotted `dep`.
/// The path's components are those `Path::iter` gives (see [`path_components_of`]).
pub fn dissimilarity(language_name: LanguageName, dep: &str, path: &std::path::PathBuf) -> (r: i32)
    ensures
        r == dissimilarity_spec(language_name@, dep.spec_bytes(), path_components_of(*path)),
        r <= 0,
        language_name@ != "Python"@ ==> r == 0,
{
    let components = path_components(path);
    dissimilarity_of_components(language_name, dep, &components)
}

} // verus!
