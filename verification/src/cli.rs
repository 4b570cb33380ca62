//! The decisions that a run of the program makes from its options: colors,
//! paging, downloads, the patterns of each round, and when to recurse.
use vstd::prelude::*;
use vstd::string::StringExecFns;
use vstd::string::StringSliceAdditionalSpecFns;
use crate::dep_resolution;
use crate::downloads_policy::DownloadsPolicy;
use crate::language_name::LanguageName;
use crate::outputs::WrapMode;
use crate::pattern::{self, occurs_in, regex_compiles, regex_escaped, regex_matches, Pattern};
use crate::text::{debug_quoted, debug_string, str_eq};

verus! {

/// Whether something is on, off, or decided by the terminal.
#[derive(Copy, Clone, Debug, PartialEq, Eq, Structural)]
pub enum EnablementLevel {
    Auto,
    Never,
    Always,
}

impl EnablementLevel {
    /// The level as the command line spells it.
    pub fn as_str(&self) -> (r: &'static str)
        ensures
            r@ == match self {
                EnablementLevel::Auto => "auto"@,
                EnablementLevel::Never => "never"@,
                EnablementLevel::Always => "always"@,
            },
    {
        match self {
            EnablementLevel::Auto => "auto",
            EnablementLevel::Never => "never",
            EnablementLevel::Always => "always",
        }
    }
}

/// Whether to color the output: as asked, or as the terminal allows.
pub fn resolve_color(asked: EnablementLevel, colors_enabled: bool) -> (r: EnablementLevel)
    ensures
        asked != EnablementLevel::Auto ==> r == asked,
        asked == EnablementLevel::Auto ==> r == (if colors_enabled { EnablementLevel::Always } else { EnablementLevel::Never }),
{
    match asked {
        EnablementLevel::Auto => if colors_enabled { EnablementLevel::Always } else { EnablementLevel::Never },
        _ => asked,
    }
}

/// The downloads policy of a run: `No` when offline, else the one asked for on
/// the command line, else the saved one; and never `Ask` without a terminal to ask on.
pub fn resolve_downloads_policy(
    offline: bool,
    asked: Option<DownloadsPolicy>,
    saved: DownloadsPolicy,
    is_term: bool,
) -> (r: DownloadsPolicy)
    ensures
        r == ({
            let p = if offline { DownloadsPolicy::No } else {
                match asked {
                    Some(a) => a,
                    None => saved,
                }
            };
            if p == DownloadsPolicy::Ask && !is_term { DownloadsPolicy::No } else { p }
        }),
{
    let p = if offline {
        DownloadsPolicy::No
    } else {
        match asked {
            Some(a) => a,
            None => saved,
        }
    };
    match p {
        DownloadsPolicy::Ask => if is_term { p } else { DownloadsPolicy::No },
        _ => p,
    }
}

/// Whether output goes through a pager: as asked, or, by default, when
/// writing to a terminal and paging was not switched off with a second `--plain`.
pub fn paging_enabled(paging: EnablementLevel, plain: u8, is_term: bool) -> (r: bool)
    ensures
        r == match paging {
            EnablementLevel::Always => true,
            EnablementLevel::Never => false,
            EnablementLevel::Auto => plain < 2 && is_term,
        },
{
    match paging {
        EnablementLevel::Always => true,
        EnablementLevel::Never => false,
        EnablementLevel::Auto => plain < 2 && is_term,
    }
}

/// Whether the pager is set up: paging is on, and no download question will
/// need the terminal.
pub fn pager_wanted(enable_paging: bool, policy: DownloadsPolicy) -> (r: bool)
    ensures
        r == (enable_paging && policy != DownloadsPolicy::Ask),
{
    enable_paging && !matches!(policy, DownloadsPolicy::Ask)
}

/// The pager command: the one `PAGER` names, else `less`; `less` gets the
/// options that keep colors and quit on short output, and chops long lines
/// when wrapping is off.
pub open spec fn pager_command_spec(pager: Option<Seq<char>>, wrap: WrapMode) -> Seq<char> {
    let p = match pager {
        Some(p) => p,
        None => "less"@,
    };
    if p == "less"@ {
        if wrap == WrapMode::Never { "less -RFS"@ } else { "less -RF"@ }
    } else {
        p
    }
}

/// The pager command (see [`pager_command_spec`]); `pager` is the value of `PAGER`, if set and UTF-8.
pub fn pager_command(pager: Option<&str>, wrap: WrapMode) -> (r: String)
    ensures
        r@ == pager_command_spec(
            match pager {
                Some(p) => Some(p@),
                None => None,
            },
            wrap,
        ),
{
    proof {
        reveal_strlit("less");
        reveal_strlit("less -RFS");
        reveal_strlit("less -RF");
    }
    let p = match pager {
        Some(p) => p,
        None => "less",
    };
    if str_eq(p, "less") {
        match wrap {
            WrapMode::Never => String::from_str("less -RFS"),
            _ => String::from_str("less -RF"),
        }
    } else {
        String::from_str(p)
    }
}

/// The pattern that a whole name must match: the round's pattern, anchored at both ends.
pub open spec fn local_pattern_spec(current: Seq<char>) -> Seq<char> {
    "^("@ + current + ")$"@
}

/// The source of the pattern that a whole name must match (see [`local_pattern_spec`]).
pub fn local_pattern_source(current: &str) -> (r: String)
    ensures
        r@ == local_pattern_spec(current@),
{
    proof {
        reveal_strlit("^(");
        reveal_strlit(")$");
    }
    String::from_str("^(").concat(current).concat(")$")
}

/// `v` with each run of equal neighbours kept once (what `Vec::dedup` does).
pub open spec fn dedup_spec(v: Seq<Seq<char>>) -> Seq<Seq<char>>
    decreases v.len(),
{
    if v.len() <= 1 {
        v
    } else if v[v.len() - 1] == v[v.len() - 2] {
        dedup_spec(v.drop_last())
    } else {
        dedup_spec(v.drop_last()).push(v[v.len() - 1])
    }
}

proof fn lemma_dedup_last(v: Seq<Seq<char>>)
    requires
        v.len() > 0,
    ensures
        dedup_spec(v).len() > 0,
        dedup_spec(v).last() == v.last(),
    decreases v.len(),
{
    if v.len() > 1 && v[v.len() - 1] == v[v.len() - 2] {
        lemma_dedup_last(v.drop_last());
    }
}

/// `v` with each run of equal neighbours kept once.
pub fn dedup(v: &Vec<String>) -> (r: Vec<String>)
    ensures
        crate::text::string_views(r@) == dedup_spec(crate::text::string_views(v@)),
{
    let ghost views = crate::text::string_views(v@);
    let mut out: Vec<String> = Vec::new();
    let mut i: usize = 0;
    assert(views.take(0) =~= Seq::<Seq<char>>::empty());
    assert(crate::text::string_views(out@) =~= Seq::<Seq<char>>::empty());
    while i < v.len()
        invariant
            i <= v@.len(),
            views == crate::text::string_views(v@),
            crate::text::string_views(out@) == dedup_spec(views.take(i as int)),
        decreases v@.len() - i,
    {
        let ghost before = crate::text::string_views(out@);
        let ghost t = views.take(i + 1);
        assert(t.drop_last() =~= views.take(i as int));
        assert(t[t.len() - 1] == v@[i as int]@);
        let repeat = i > 0 && str_eq(v[i - 1].as_str(), v[i].as_str());
        if repeat {
            assert(t[t.len() - 2] == v@[i - 1]@);
        } else {
            if i > 0 {
                assert(t[t.len() - 2] == v@[i - 1]@);
            }
            out.push(v[i].clone());
            assert(crate::text::string_views(out@) =~= before.push(v@[i as int]@));
        }
        i = i + 1;
    }
    assert(views.take(v@.len() as int) =~= views);
    out
}

/// The next round of a recursive lookup: when recursing (and not only listing
/// names), and the definitions found call exactly one name that no earlier
/// round looked up, that name, escaped into a pattern; else none.
pub open spec fn next_round_spec(recurse: bool, only_names: bool, candidates: Seq<Seq<char>>) -> Option<Seq<char>> {
    let c = dedup_spec(candidates);
    if recurse && !only_names && c.len() == 1 {
        Some(regex_escaped(c[0]))
    } else {
        None
    }
}

/// The pattern of the next round (see [`next_round_spec`]); `candidates` are the
/// called names that no earlier round's pattern matches, in the order found.
///
/// Where the pattern compiles it matches exactly the names in which the one
/// called name occurs.
pub fn next_round_pattern(recurse: bool, only_names: bool, candidates: &Vec<String>) -> (r: Option<String>)
    ensures
        match r {
            Some(p) => next_round_spec(recurse, only_names, crate::text::string_views(candidates@)) == Some(p@),
            None => next_round_spec(recurse, only_names, crate::text::string_views(candidates@)) is None,
        },
        r matches Some(p) ==> (regex_compiles(p@, false) ==> forall|t: Seq<char>| #[trigger] regex_matches(p@, false, t)
            <==> occurs_in(dedup_spec(crate::text::string_views(candidates@))[0], t)),
{
    let unique = dedup(candidates);
    if recurse && !only_names && unique.len() == 1 {
        assert(crate::text::string_views(unique@)[0] == unique@[0]@);
        Some(pattern::escape(unique[0].as_str()))
    } else {
        None
    }
}

/// Whether none of the patterns (each a source and a case flag) matches `name`.
pub open spec fn matched_by_none(patterns: Seq<(Seq<char>, bool)>, name: Seq<char>) -> bool {
    forall|k: int| 0 <= k < patterns.len() ==> !regex_matches((#[trigger] patterns[k]).0, patterns[k].1, name)
}

/// The names that none of the patterns matches, in their order.
pub open spec fn unmatched_spec(patterns: Seq<(Seq<char>, bool)>, names: Seq<Seq<char>>) -> Seq<Seq<char>>
    decreases names.len(),
{
    if names.len() == 0 {
        Seq::empty()
    } else {
        let rest = unmatched_spec(patterns, names.drop_last());
        if matched_by_none(patterns, names.last()) { rest.push(names.last()) } else { rest }
    }
}

/// The patterns' sources and case flags.
pub open spec fn pattern_views(patterns: Seq<Pattern>) -> Seq<(Seq<char>, bool)> {
    patterns.map_values(|p: Pattern| p@)
}

/// The called names that no earlier round's pattern matches: the names that
/// a recursive lookup may look up next, so that no name is looked up twice.
pub fn unmatched_names(patterns: &Vec<Pattern>, names: &Vec<String>) -> (r: Vec<String>)
    ensures
        crate::text::string_views(r@) == unmatched_spec(pattern_views(patterns@), crate::text::string_views(names@)),
{
    let ghost pats = pattern_views(patterns@);
    let ghost views = crate::text::string_views(names@);
    let mut out: Vec<String> = Vec::new();
    let mut i: usize = 0;
    assert(views.take(0) =~= Seq::<Seq<char>>::empty());
    assert(crate::text::string_views(out@) =~= Seq::<Seq<char>>::empty());
    while i < names.len()
        invariant
            i <= names@.len(),
            pats == pattern_views(patterns@),
            views == crate::text::string_views(names@),
            crate::text::string_views(out@) == unmatched_spec(pats, views.take(i as int)),
        decreases names@.len() - i,
    {
        let ghost before = crate::text::string_views(out@);
        let ghost t = views.take(i + 1);
        assert(t.drop_last() =~= views.take(i as int));
        assert(t.last() == names@[i as int]@);
        let mut matched = false;
        let mut k: usize = 0;
        while k < patterns.len()
            invariant
                k <= patterns@.len(),
                i < names@.len(),
                pats == pattern_views(patterns@),
                matched <==> exists|j: int| 0 <= j < k && regex_matches((#[trigger] pats[j]).0, pats[j].1, names@[i as int]@),
            decreases patterns@.len() - k,
        {
            assert(pats[k as int] == patterns@[k as int]@);
            if patterns[k].is_match(names[i].as_str()) {
                matched = true;
            }
            k = k + 1;
        }
        if !matched {
            out.push(names[i].clone());
            assert(crate::text::string_views(out@) =~= before.push(names@[i as int]@));
        }
        i = i + 1;
    }
    assert(views.take(names@.len() as int) =~= views);
    out
}

/// A recursive lookup never looks a name up again: each name it keeps is one
/// of the called names, and no earlier round's pattern matches it.
pub proof fn law_kept_names_are_new(patterns: Seq<(Seq<char>, bool)>, names: Seq<Seq<char>>)
    ensures
        forall|i: int| 0 <= i < unmatched_spec(patterns, names).len() ==> {
            &&& matched_by_none(patterns, #[trigger] unmatched_spec(patterns, names)[i])
            &&& names.contains(unmatched_spec(patterns, names)[i])
        },
    decreases names.len(),
{
    if names.len() > 0 {
        law_kept_names_are_new(patterns, names.drop_last());
        let rest = unmatched_spec(patterns, names.drop_last());
        assert forall|i: int| 0 <= i < unmatched_spec(patterns, names).len() implies {
            &&& matched_by_none(patterns, #[trigger] unmatched_spec(patterns, names)[i])
            &&& names.contains(unmatched_spec(patterns, names)[i])
        } by {
            if i < rest.len() {
                assert(unmatched_spec(patterns, names)[i] == rest[i]);
                let j = choose|j: int| 0 <= j < names.drop_last().len() && names.drop_last()[j] == rest[i];
                assert(names[j] == rest[i]);
            } else {
                assert(names[names.len() - 1] == names.last());
            }
        }
    }
}

/// The names among `names` to print, in order, when `seen` have been printed
/// already: each name not yet printed, once.
pub open spec fn fresh_names(seen: Seq<Seq<char>>, names: Seq<Seq<char>>) -> Seq<Seq<char>>
    decreases names.len(),
{
    if names.len() == 0 {
        Seq::empty()
    } else {
        let prev = fresh_names(seen, names.drop_last());
        let n = names.last();
        if seen.contains(n) || prev.contains(n) { prev } else { prev.push(n) }
    }
}

/// Whether `v` holds the string `s`.
fn contains_string(v: &Vec<String>, s: &str) -> (r: bool)
    ensures
        r == crate::text::string_views(v@).contains(s@),
{
    let mut i: usize = 0;
    while i < v.len()
        invariant
            i <= v@.len(),
            forall|j: int| 0 <= j < i ==> v@[j]@ != s@,
        decreases v@.len() - i,
    {
        if str_eq(v[i].as_str(), s) {
            assert(crate::text::string_views(v@)[i as int] == s@);
            return true;
        }
        i = i + 1;
    }
    proof {
        if crate::text::string_views(v@).contains(s@) {
            let j = choose|j: int| 0 <= j < crate::text::string_views(v@).len() && crate::text::string_views(v@)[j] == s@;
            assert(v@[j]@ == s@);
        }
    }
    false
}

/// The names found under `--only-names` that are still to be printed (see
/// [`fresh_names`]); they are added to `printed`.
pub fn names_to_print(printed: &mut Vec<String>, names: &Vec<String>) -> (r: Vec<String>)
    ensures
        crate::text::string_views(r@) == fresh_names(crate::text::string_views(old(printed)@), crate::text::string_views(names@)),
        crate::text::string_views(final(printed)@) == crate::text::string_views(old(printed)@) + crate::text::string_views(r@),
{
    let ghost seen = crate::text::string_views(printed@);
    let ghost views = crate::text::string_views(names@);
    let mut out: Vec<String> = Vec::new();
    let mut i: usize = 0;
    assert(views.take(0) =~= Seq::<Seq<char>>::empty());
    assert(crate::text::string_views(out@) =~= Seq::<Seq<char>>::empty());
    assert(crate::text::string_views(printed@) =~= seen + crate::text::string_views(out@));
    while i < names.len()
        invariant
            i <= names@.len(),
            seen == crate::text::string_views(old(printed)@),
            views == crate::text::string_views(names@),
            crate::text::string_views(out@) == fresh_names(seen, views.take(i as int)),
            crate::text::string_views(printed@) == seen + crate::text::string_views(out@),
        decreases names@.len() - i,
    {
        let ghost prev = crate::text::string_views(out@);
        assert(views.take(i + 1).drop_last() =~= views.take(i as int));
        assert(views.take(i + 1).last() == names@[i as int]@);
        let known = contains_string(printed, names[i].as_str());
        proof {
            let n = names@[i as int]@;
            let all = seen + prev;
            if all.contains(n) {
                let j = choose|j: int| 0 <= j < all.len() && all[j] == n;
                if j < seen.len() {
                    assert(seen[j] == n);
                } else {
                    assert(prev[j - seen.len()] == n);
                }
            }
            if seen.contains(n) {
                let j = choose|j: int| 0 <= j < seen.len() && seen[j] == n;
                assert(all[j] == n);
            }
            if prev.contains(n) {
                let j = choose|j: int| 0 <= j < prev.len() && prev[j] == n;
                assert(all[j + seen.len()] == n);
            }
        }
        if !known {
            let ghost before_printed = printed@;
            let ghost before_out = out@;
            printed.push(names[i].clone());
            out.push(names[i].clone());
            assert(crate::text::string_views(out@) =~= prev.push(names@[i as int]@));
            assert(crate::text::string_views(printed@) =~= crate::text::string_views(before_printed).push(names@[i as int]@));
            assert(crate::text::string_views(printed@) =~= seen + crate::text::string_views(out@));
        }
        i = i + 1;
    }
    assert(views.take(names@.len() as int) =~= views);
    out
}

/// The order in which to search files: by increasing key, files with equal
/// keys in the order they were given.
pub open spec fn stable_order(keys: Seq<i32>, order: Seq<usize>) -> bool {
    &&& order.len() == keys.len()
    &&& forall|i: int| 0 <= i < order.len() ==> order[i] < keys.len()
    &&& forall|i: int, j: int| 0 <= i < j < order.len() ==> {
        ||| keys[order[i] as int] < keys[order[j] as int]
        ||| (keys[order[i] as int] == keys[order[j] as int] && order[i] < order[j])
    }
}

/// The positions of `keys` sorted by key, equal keys in the order they were given
/// (what a stable sort by key does).
pub fn stable_sort_order(keys: &Vec<i32>) -> (r: Vec<usize>)
    ensures
        stable_order(keys@, r@),
{
    let mut order: Vec<usize> = Vec::new();
    let mut k: usize = 0;
    while k < keys.len()
        invariant
            k <= keys@.len(),
            order@.len() == k,
            forall|i: int| 0 <= i < order@.len() ==> order@[i] < k,
            forall|i: int, j: int| 0 <= i < j < order@.len() ==> {
                ||| keys@[order@[i] as int] < keys@[order@[j] as int]
                ||| (keys@[order@[i] as int] == keys@[order@[j] as int] && order@[i] < order@[j])
            },
        decreases keys@.len() - k,
    {
        let key = keys[k];
        let mut i: usize = 0;
        while i < order.len() && keys[order[i]] <= key
            invariant
                i <= order@.len(),
                forall|j: int| 0 <= j < order@.len() ==> order@[j] < k,
                k < keys@.len(),
                key == keys@[k as int],
                forall|j: int| 0 <= j < i ==> keys@[#[trigger] order@[j] as int] <= key,
            decreases order@.len() - i,
        {
            i = i + 1;
        }
        let ghost before = order@;
        proof {
            assert forall|j: int| i <= j < before.len() implies keys@[#[trigger] before[j] as int] > key by {
                if j > i {
                    let a = before[i as int];
                    let b = before[j];
                    assert(keys@[a as int] > key);
                    assert(keys@[a as int] < keys@[b as int] || (keys@[a as int] == keys@[b as int] && a < b));
                }
            }
        }
        order.insert(i, k);
        proof {
            assert(order@ =~= before.insert(i as int, k));
            assert forall|a: int, b: int| 0 <= a < b < order@.len() implies {
                ||| keys@[order@[a] as int] < keys@[order@[b] as int]
                ||| (keys@[order@[a] as int] == keys@[order@[b] as int] && order@[a] < order@[b])
            } by {
                if b < i {
                    assert(order@[a] == before[a] && order@[b] == before[b]);
                } else if b == i {
                    assert(order@[a] == before[a]);
                } else if a < i {
                    assert(order@[a] == before[a] && order@[b] == before[b - 1]);
                } else if a == i {
                    assert(order@[b] == before[b - 1]);
                } else {
                    assert(order@[a] == before[a - 1] && order@[b] == before[b - 1]);
                }
            }
        }
        k = k + 1;
    }
    order
}

/// How far each file is from where an import says its name comes from: the
/// key to search files by after `import_pattern` was seen.
pub fn import_distances(
    language_name: LanguageName,
    import_pattern: &str,
    paths: &Vec<std::path::PathBuf>,
) -> (r: Vec<i32>)
    ensures
        r@.len() == paths@.len(),
        forall|i: int| 0 <= i < r@.len() ==> r@[i] == dep_resolution::dissimilarity_spec(
            language_name@,
            import_pattern.spec_bytes(),
            dep_resolution::path_components_of(#[trigger] paths@[i]),
        ),
{
    let mut keys: Vec<i32> = Vec::new();
    let mut i: usize = 0;
    while i < paths.len()
        invariant
            i <= paths@.len(),
            keys@.len() == i,
            forall|j: int| 0 <= j < i ==> keys@[j] == dep_resolution::dissimilarity_spec(
                language_name@,
                import_pattern.spec_bytes(),
                dep_resolution::path_components_of(#[trigger] paths@[j]),
            ),
        decreases paths@.len() - i,
    {
        keys.push(dep_resolution::dissimilarity(language_name, import_pattern, &paths[i]));
        i = i + 1;
    }
    keys
}

/// Whether a download may go ahead under `policy` without asking: `Some` with
/// the answer, or `None` when the user must be asked.
pub fn download_decision(policy: DownloadsPolicy) -> (r: Option<bool>)
    ensures
        r == match policy {
            DownloadsPolicy::Yes => Some(true),
            DownloadsPolicy::No => Some(false),
            DownloadsPolicy::Ask => None::<bool>,
        },
{
    match policy {
        DownloadsPolicy::Yes => Some(true),
        DownloadsPolicy::No => Some(false),
        DownloadsPolicy::Ask => None,
    }
}

/// The question put to the user before a download from `url`.
pub fn download_prompt(url: &str) -> (r: String)
    ensures
        r@ == "download from "@ + debug_quoted(url@) + "? (y/n): "@,
{
    proof {
        reveal_strlit("download from ");
        reveal_strlit("? (y/n): ");
    }
    String::from_str("download from ").concat(debug_string(url).as_str()).concat("? (y/n): ")
}

/// Whether the user's answer allows the download: exactly `y` or `Y`.
pub fn answer_allows(response: &str) -> (r: bool)
    ensures
        r == (response@ == "y"@ || response@ == "Y"@),
{
    proof {
        reveal_strlit("y");
        reveal_strlit("Y");
    }
    str_eq(response, "y") || str_eq(response, "Y")
}

/// The warnings for a run that wanted paging but kept the terminal free to ask
/// about downloads; the second names the settings file, if there is one.
pub fn paging_warnings(enable_paging: bool, policy: DownloadsPolicy, settings_path: Option<&str>) -> (r: Vec<String>)
    ensures
        !(enable_paging && policy == DownloadsPolicy::Ask) ==> r@.len() == 0,
        enable_paging && policy == DownloadsPolicy::Ask ==> {
            &&& r@.len() == (if settings_path is Some { 2int } else { 1int })
            &&& r@[0]@ == "Paging was disabled so we could ask to download new parsers if the need arose."@
                + " To enable paging, use --download=yes or --download=no."@
            &&& settings_path matches Some(p) ==> r@[1]@ == "Or write YES or NO to "@ + debug_quoted(p@)
        },
{
    let mut out: Vec<String> = Vec::new();
    if enable_paging && matches!(policy, DownloadsPolicy::Ask) {
        proof {
            reveal_strlit("Paging was disabled so we could ask to download new parsers if the need arose.");
            reveal_strlit(" To enable paging, use --download=yes or --download=no.");
            reveal_strlit("Or write YES or NO to ");
        }
        out.push(String::from_str("Paging was disabled so we could ask to download new parsers if the need arose.")
            .concat(" To enable paging, use --download=yes or --download=no."));
        match settings_path {
            Some(p) => {
                out.push(String::from_str("Or write YES or NO to ").concat(debug_string(p).as_str()));
            },
            None => {},
        }
    }
    out
}

/// Whether `order` holds the position `k`.
pub open spec fn holds_position(order: Seq<usize>, k: int) -> bool {
    exists|i: int| 0 <= i < order.len() && order[i] == k
}

/// A stable order of the files is a permutation: every file is searched, and
/// exactly once.
pub proof fn law_stable_order_is_permutation(keys: Seq<i32>, order: Seq<usize>)
    requires
        stable_order(keys, order),
    ensures
        forall|i: int, j: int| 0 <= i < j < order.len() ==> order[i] != order[j],
        forall|k: int| 0 <= k < keys.len() ==> #[trigger] holds_position(order, k),
{
    let n = keys.len() as int;
    let positions = order.map_values(|x: usize| x as int);
    assert forall|i: int, j: int| 0 <= i < j < order.len() implies order[i] != order[j] by {
        if order[i] == order[j] {
            assert(keys[order[i] as int] == keys[order[j] as int]);
        }
    }
    assert(positions.no_duplicates()) by {
        assert forall|i: int, j: int| 0 <= i < positions.len() && 0 <= j < positions.len() && i != j
            implies positions[i] != positions[j] by {
            if i < j {
                assert(order[i] != order[j]);
            } else {
                assert(order[j] != order[i]);
            }
        }
    }
    positions.unique_seq_to_set();
    vstd::set_lib::lemma_int_range(0, n);
    let range = vstd::set_lib::set_int_range(0, n);
    assert(positions.to_set().subset_of(range)) by {
        assert forall|x: int| positions.to_set().contains(x) implies range.contains(x) by {
            let i = choose|i: int| 0 <= i < positions.len() && positions[i] == x;
            assert(order[i] < keys.len());
        }
    }
    vstd::seq_lib::seq_to_set_is_finite(positions);
    vstd::set_lib::lemma_subset_equality(positions.to_set(), range);
    assert forall|k: int| 0 <= k < keys.len() implies #[trigger] holds_position(order, k) by {
        assert(range.contains(k));
        assert(positions.to_set().contains(k));
        let i = choose|i: int| 0 <= i < positions.len() && positions[i] == k;
        assert(order[i] == k);
    }
}

} // verus!
