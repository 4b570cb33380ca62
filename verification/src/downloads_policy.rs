//! Whether we may download parsers.
use vstd::prelude::*;
use crate::text::{unicode_white_space, ascii_lower_char, ascii_lowercase, str_eq, str_from_utf8, to_ascii_lowercase, trim, trim_leading_white_space, trim_trailing_white_space};
use vstd::string::StringSliceAdditionalSpecFns;

verus! {

/// What to do when a parser must be downloaded.
#[derive(Copy, Clone, Debug, PartialEq, Eq, Structural, PartialOrd, Ord)]
pub enum DownloadsPolicy {
    Yes,
    Ask,
    No,
}

impl DownloadsPolicy {
    /// The policy as it is shown to the user.
    pub fn as_str(&self) -> (r: &'static str)
        ensures
            r@ == match self {
                DownloadsPolicy::Yes => "YES"@,
                DownloadsPolicy::Ask => "ASK"@,
                DownloadsPolicy::No => "NO"@,
            },
    {
        match self {
            DownloadsPolicy::Yes => "YES",
            DownloadsPolicy::Ask => "ASK",
            DownloadsPolicy::No => "NO",
        }
    }
}

/// The policy that a saved setting names: `yes`, `ask` or `no` in any case of
/// ASCII letters and with any surrounding white space; anything else is `Ask`.
pub open spec fn policy_of_setting(setting: Seq<char>) -> DownloadsPolicy {
    let t = trim_trailing_white_space(trim_leading_white_space(ascii_lowercase(setting)));
    if t == "yes"@ {
        DownloadsPolicy::Yes
    } else if t == "no"@ {
        DownloadsPolicy::No
    } else {
        DownloadsPolicy::Ask
    }
}

/// The case of ASCII letters in a setting does not matter: settings that are
/// the same once lower-cased name the same policy, and a setting names the
/// same policy as its lower-case form.
pub proof fn law_setting_case_does_not_matter(a: Seq<char>, b: Seq<char>)
    ensures
        ascii_lowercase(a) == ascii_lowercase(b) ==> policy_of_setting(a) == policy_of_setting(b),
        policy_of_setting(a) == policy_of_setting(ascii_lowercase(a)),
{
    assert(ascii_lowercase(ascii_lowercase(a)) =~= ascii_lowercase(a)) by {
        assert forall|i: int| 0 <= i < a.len() implies #[trigger] ascii_lower_char(ascii_lower_char(a[i])) == ascii_lower_char(a[i]) by {
            let c = a[i];
            if 'A' <= c <= 'Z' {
                let u = (c as u32) + 32;
                assert(97 <= u <= 122);
                assert((u as char) as u32 == u);
            }
        }
    }
}

/// Every character of `s` is white space.
pub open spec fn all_white_space(s: Seq<char>) -> bool {
    forall|i: int| 0 <= i < s.len() ==> unicode_white_space(#[trigger] s[i])
}

/// White space around a setting does not matter: it names the same policy
/// with any white space before and after it.
pub proof fn law_setting_white_space_does_not_matter(before: Seq<char>, setting: Seq<char>, after: Seq<char>)
    requires
        all_white_space(before),
        all_white_space(after),
    ensures
        policy_of_setting(before + setting + after) == policy_of_setting(setting),
{
    let lb = ascii_lowercase(before);
    let ls = ascii_lowercase(setting);
    let la = ascii_lowercase(after);
    assert(ascii_lowercase(before + setting + after) =~= lb + ls + la);
    assert(lb =~= before);
    assert(la =~= after);
    lemma_trim_leading_white_prefix(before, ls + after);
    assert(before + ls + after =~= before + (ls + after));
    lemma_trim_leading_concat(ls, after);
    let tl = trim_leading_white_space(ls);
    let full = ascii_lowercase(before + setting + after);
    assert(full == before + (ls + after));
    assert(trim_leading_white_space(full) == trim_leading_white_space(ls + after));
    if tl.len() > 0 {
        lemma_trim_trailing_white_suffix(tl, after);
        assert(trim_trailing_white_space(trim_leading_white_space(full)) == trim_trailing_white_space(tl));
    } else {
        lemma_trim_leading_all_white(after);
        assert(trim_leading_white_space(full).len() == 0);
        assert(trim_trailing_white_space(trim_leading_white_space(full)) =~= Seq::<char>::empty());
        assert(trim_trailing_white_space(tl) =~= Seq::<char>::empty());
    }
}

proof fn lemma_trim_leading_white_prefix(p: Seq<char>, x: Seq<char>)
    requires
        all_white_space(p),
    ensures
        trim_leading_white_space(p + x) == trim_leading_white_space(x),
    decreases p.len(),
{
    if p.len() > 0 {
        assert((p + x)[0] == p[0]);
        assert((p + x).drop_first() =~= p.drop_first() + x);
        lemma_trim_leading_white_prefix(p.drop_first(), x);
    } else {
        assert(p + x =~= x);
    }
}

proof fn lemma_trim_leading_all_white(p: Seq<char>)
    requires
        all_white_space(p),
    ensures
        trim_leading_white_space(p).len() == 0,
    decreases p.len(),
{
    if p.len() > 0 {
        lemma_trim_leading_all_white(p.drop_first());
    }
}

proof fn lemma_trim_leading_concat(s: Seq<char>, q: Seq<char>)
    ensures
        trim_leading_white_space(s + q) == if trim_leading_white_space(s).len() > 0 {
            trim_leading_white_space(s) + q
        } else {
            trim_leading_white_space(q)
        },
    decreases s.len(),
{
    if s.len() == 0 {
        assert(s + q =~= q);
    } else {
        assert((s + q)[0] == s[0]);
        if unicode_white_space(s[0]) {
            assert((s + q).drop_first() =~= s.drop_first() + q);
            lemma_trim_leading_concat(s.drop_first(), q);
        }
    }
}

proof fn lemma_trim_trailing_white_suffix(x: Seq<char>, q: Seq<char>)
    requires
        all_white_space(q),
    ensures
        trim_trailing_white_space(x + q) == trim_trailing_white_space(x),
    decreases q.len(),
{
    if q.len() > 0 {
        assert((x + q).last() == q.last());
        assert((x + q).drop_last() =~= x + q.drop_last());
        lemma_trim_trailing_white_suffix(x, q.drop_last());
    } else {
        assert(x + q =~= x);
    }
}

/// A policy as it is shown to the user, saved as the setting, is read back as
/// the same policy.
pub proof fn law_shown_policy_reads_back(p: DownloadsPolicy)
    ensures
        policy_of_setting(match p {
            DownloadsPolicy::Yes => "YES"@,
            DownloadsPolicy::Ask => "ASK"@,
            DownloadsPolicy::No => "NO"@,
        }) == p,
{
    reveal_strlit("YES");
    reveal_strlit("ASK");
    reveal_strlit("NO");
    reveal_strlit("yes");
    reveal_strlit("no");
    let s = match p {
        DownloadsPolicy::Yes => "YES"@,
        DownloadsPolicy::Ask => "ASK"@,
        DownloadsPolicy::No => "NO"@,
    };
    let l = ascii_lowercase(s);
    assert forall|i: int| 0 <= i < s.len() implies 'A' <= #[trigger] s[i] <= 'Z' by {}
    assert(l.len() == s.len());
    assert(!crate::text::unicode_white_space(l[0]));
    assert(!crate::text::unicode_white_space(l[l.len() - 1]));
    assert(trim_leading_white_space(l) == l);
    assert(trim_trailing_white_space(l) == l);
    match p {
        DownloadsPolicy::Yes => assert(l =~= "yes"@),
        DownloadsPolicy::No => assert(l =~= "no"@),
        DownloadsPolicy::Ask => {
            assert(l != "yes"@) by { assert(l[0] != "yes"@[0]); }
            assert(l != "no"@) by { assert(l.len() != "no"@.len()); }
        },
    }
}

/// The policy that the saved setting text names.
pub fn policy_from_setting(setting: &str) -> (r: DownloadsPolicy)
    ensures
        r == policy_of_setting(setting@),
{
    proof {
        reveal_strlit("yes");
        reveal_strlit("ask");
        reveal_strlit("no");
        assert("ask"@ != "yes"@) by { assert("ask"@[0] != "yes"@[0]); }
        assert("ask"@ != "no"@) by { assert("ask"@.len() != "no"@.len()); }
    }
    let lower = to_ascii_lowercase(setting);
    let t = trim(lower.as_str());
    if str_eq(t.as_str(), "yes") {
        DownloadsPolicy::Yes
    } else if str_eq(t.as_str(), "ask") {
        DownloadsPolicy::Ask
    } else if str_eq(t.as_str(), "no") {
        DownloadsPolicy::No
    } else {
        DownloadsPolicy::Ask
    }
}

/// The policy saved in a settings file with these contents; contents that are
/// not UTF-8 text name no policy, which means `Ask`.
pub fn policy_from_settings_file(contents: &[u8]) -> (r: DownloadsPolicy)
    ensures
        !vstd::utf8::valid_utf8(contents@) ==> r == DownloadsPolicy::Ask,
        forall|s: &str| s.spec_bytes() == contents@ ==> r == policy_of_setting(s@),
{
    match str_from_utf8(contents) {
        Some(setting) => {
            proof {
                assert forall|s: &str| s.spec_bytes() == contents@ implies s@ == setting@ by {
                    vstd::utf8::encode_utf8_decode_utf8(s@);
                    vstd::utf8::encode_utf8_decode_utf8(setting@);
                }
            }
            policy_from_setting(setting)
        },
        None => {
            proof {
                assert forall|s: &str| s.spec_bytes() == contents@ implies false by {
                    vstd::utf8::encode_utf8_valid_utf8(s@);
                }
            }
            DownloadsPolicy::Ask
        },
    }
}

} // verus!
