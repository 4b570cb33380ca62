//! Searching one file: the file itself, then each fragment in another language
//! found in it, and so on down.
use vstd::prelude::*;
use std::ops::Range;
use crate::inputs;
use crate::language_name::LanguageName;
use crate::pattern::{regex_matches, Pattern};
use crate::text::{string_views, strictly_increasing};
use crate::query_compiler::{LanguageInfo, QueryCompilerError};
use crate::range_union::{pushed_all, RangeUnion};
use crate::searches::{self, FileParseError, InjectionRange, ParsedFile};
use crate::syntax::parsed_tree_of;

verus! {

/// Everything found in one file, over all its injected fragments.
pub struct SingleFileResults {
    pub ranges: RangeUnion,
    pub matched_names: Vec<String>,
    pub recurse_names: Vec<String>,
    pub import_origins: Vec<(LanguageName, String)>,
}

impl SingleFileResults {
    /// Nothing found yet.
    pub fn new() -> (r: Self)
        ensures
            r.ranges@ == Map::<usize, usize>::empty(),
            r.matched_names@.len() == 0,
            r.recurse_names@.len() == 0,
            r.import_origins@.len() == 0,
    {
        SingleFileResults {
            ranges: RangeUnion::default(),
            matched_names: Vec::new(),
            recurse_names: Vec::new(),
            import_origins: Vec::new(),
        }
    }
}

/// What to search for.
pub struct SearchParams<'a> {
    /// Matches a whole name being looked up.
    pub local_pattern: &'a Pattern,
    /// Matches somewhere in the text of a fragment worth searching.
    pub current_pattern: &'a Pattern,
    /// Only list the matching names.
    pub only_names: bool,
    /// Also collect the names that definitions call.
    pub recurse: bool,
}

/// Why one pass over a file (or a fragment of it) was given up.
#[derive(Debug)]
pub enum SinglePassError {
    Input(inputs::Error),
    FileParse(FileParseError),
    /// The parser loader's message.
    LoaderError(String),
    QueryCompilerError(QueryCompilerError),
}

/// The outcome of one pass: definitions, or only the matching names.
pub enum SearchResult {
    Definitions(searches::SearchResult),
    Names(Vec<String>),
}

/// What one pass over a file (or one fragment of it) found.
pub struct SinglePassResults {
    pub search_result: SearchResult,
    pub language_name: LanguageName,
    pub injections: Vec<InjectionRange>,
}

/// The hint of the fragment a pass searches: `None` for the whole file, else
/// the fragment's language hint.
pub open spec fn fragment_hint(injection: Option<InjectionRange>) -> Option<Option<Seq<char>>> {
    match injection {
        None => None,
        Some(i) => Some(searches::opt_string_view(i.language_hint)),
    }
}

/// Whether `r` is the language of a pass (see [`pass_language`]) over the
/// fragment with this hint (`None`: the whole file).
pub open spec fn language_of_pass(
    root_language: LanguageName,
    hint: Option<Option<Seq<char>>>,
    r: Result<LanguageName, SinglePassError>,
) -> bool {
    match hint {
        None => r == Ok::<LanguageName, SinglePassError>(root_language),
        Some(Some(h)) => if crate::language_name::language_known(h) {
            r matches Ok(l) && l@ == crate::language_name::resolve_name(h)
        } else {
            r matches Err(SinglePassError::Input(inputs::Error::UnknownLanguage))
        },
        Some(None) => r matches Err(SinglePassError::Input(inputs::Error::UnknownLanguage)),
    }
}

/// The language of a pass: the file's own, or for a fragment the language
/// its hint names, else what detection from its bytes finds.
pub fn pass_language(
    root_language: LanguageName,
    file_bytes: &[u8],
    injection: Option<&InjectionRange>,
) -> (r: Result<LanguageName, SinglePassError>)
    ensures
        language_of_pass(root_language, match injection {
            None => None,
            Some(i) => Some(searches::opt_string_view(i.language_hint)),
        }, r),
        injection is None ==> r == Ok::<LanguageName, SinglePassError>(root_language),
        injection matches Some(i) ==> match i.language_hint {
            Some(h) => if crate::language_name::language_known(h@) {
                r matches Ok(l) && l@ == crate::language_name::resolve_name(h@)
            } else {
                r matches Err(SinglePassError::Input(inputs::Error::UnknownLanguage))
            },
            None => r matches Err(SinglePassError::Input(inputs::Error::UnknownLanguage)),
        },
{
    match injection {
        None => Ok(root_language),
        Some(injection) => {
            let hinted = match &injection.language_hint {
                Some(hint) => match LanguageName::from_name(hint.as_str()) {
                    Ok(l) => Some(l),
                    Err(_) => None,
                },
                None => None,
            };
            match hinted {
                Some(l) => Ok(l),
                None => {
                    let start = injection.range.start_byte;
                    let end = injection.range.end_byte;
                    let bytes = if start <= end && end <= file_bytes.len() {
                        vstd::slice::slice_subrange(file_bytes, start, end)
                    } else {
                        vstd::slice::slice_subrange(file_bytes, 0, 0)
                    };
                    let hint = match &injection.language_hint {
                        Some(h) => Some(h.as_str()),
                        None => None,
                    };
                    match inputs::detect_language_from_bytes(bytes, hint) {
                        Ok(l) => Ok(l),
                        Err(e) => Err(SinglePassError::Input(e)),
                    }
                },
            }
        },
    }
}

/// The ranges of `u`, each merged run of touching ranges as one.
pub fn union_ranges(u: &RangeUnion) -> (r: Vec<Range<usize>>)
    ensures
        forall|m: Map<usize, usize>, p: int| crate::range_union::map_covers(pushed_all(m, r@), p)
            <==> (crate::range_union::map_covers(m, p) || crate::range_union::map_covers(u@, p)),
{
    let r = u.merged_ranges(0);
    proof {
        let listing = choose|listing: Seq<(usize, usize)>| #[trigger] crate::range_union::is_sorted_listing(listing, u@) && {
            let m = crate::range_union::merged(listing, 0);
            &&& r@.len() == m.len()
            &&& forall|i: int| 0 <= i < m.len() ==> (#[trigger] r@[i]).start == m[i].0 && r@[i].end == m[i].1
        };
        assert forall|m: Map<usize, usize>, p: int| crate::range_union::map_covers(pushed_all(m, r@), p)
            <==> (crate::range_union::map_covers(m, p) || crate::range_union::map_covers(u@, p)) by {
            crate::range_union::law_pushed_all_covers(m, r@, p);
            crate::range_union::law_merged_ranges(listing, 0, p);
            crate::range_union::lemma_listing_covers(listing, u@, p);
            if crate::range_union::ranges_cover(r@, p) {
                let i = choose|i: int| 0 <= i < r@.len() && #[trigger] r@[i].start <= p && p < r@[i].end;
                let m2 = crate::range_union::merged(listing, 0);
                assert(m2[i].0 <= p && p < m2[i].1);
            }
            if crate::range_union::seq_covers(crate::range_union::merged(listing, 0), p) {
                let m2 = crate::range_union::merged(listing, 0);
                let i = choose|i: int| 0 <= i < m2.len() && #[trigger] m2[i].0 <= p && p < m2[i].1;
                assert(r@[i].start <= p && p < r@[i].end);
            }
        }
    }
    r
}

/// The range a pass is restricted to: the fragment's, if it searches one.
pub open spec fn injection_range(injection: Option<&InjectionRange>) -> Option<tree_sitter::Range> {
    match injection {
        Some(i) => Some(i.range),
        None => None,
    }
}

/// What a pass finds in the parsed `tree`: with `only_names`, the names
/// [`searches::find_names`] gives; otherwise the definitions that
/// [`searches::find_definition`] gives, whose lines, if there are any, come
/// with the lines that give a searched fragment its context.
pub open spec fn pass_found(
    params: &SearchParams,
    info: &LanguageInfo,
    source: Seq<u8>,
    tree: &tree_sitter::Tree,
    injection: Option<&InjectionRange>,
    result: SearchResult,
) -> bool {
    match result {
        SearchResult::Names(names) => searches::names_found(source, tree, info, params.local_pattern@, names@),
        SearchResult::Definitions(d) => {
            &&& strictly_increasing(string_views(d.recurse_names@))
            &&& (!params.recurse || info.recurse_query is None) ==> d.recurse_names@.len() == 0
            &&& info.import_query is None ==> d.import_origins@.len() == 0
            &&& exists|lines: Map<usize, usize>| #[trigger] searches::definition_lines_found(source, tree, info, params.local_pattern@, lines) && {
                &&& (injection is None || lines.len() == 0) ==> d.ranges@ == lines
                &&& match injection {
                    Some(i) => lines.len() != 0 ==> forall|p: int| crate::range_union::map_covers(d.ranges@, p)
                        <==> (crate::range_union::map_covers(lines, p) || crate::range_union::map_covers(i.context@, p)),
                    None => true,
                }
            }
        },
    }
}

/// Whether a fragment found in a pass has the context it inherits: none when
/// the pass searched the whole file, else exactly the lines of the searched
/// fragment's context.
pub open spec fn inherits_context(context: Map<usize, usize>, injection: Option<&InjectionRange>) -> bool {
    match injection {
        None => context == Map::<usize, usize>::empty(),
        Some(parent) => forall|p: int| crate::range_union::map_covers(context, p)
            <==> crate::range_union::map_covers(parent.context@, p),
    }
}

/// One pass over a file, or over one fragment of it, with the language's info at hand:
/// parses, then finds definitions (or only names) with `params.local_pattern`,
/// and the fragments in other languages whose text `params.current_pattern` matches.
/// A fragment's definitions come with its context; fragments found inside it
/// inherit that context.
pub fn search_one_file_with_one_injection(
    params: &SearchParams,
    language_info: &LanguageInfo,
    file_bytes: &[u8],
    language_name: LanguageName,
    injection: Option<&InjectionRange>,
) -> (r: Result<SinglePassResults, SinglePassError>)
    ensures
        r matches Ok(p) ==> p.language_name == language_name
            && (params.only_names <==> p.search_result is Names),
        r matches Ok(p) ==> (p.search_result matches SearchResult::Names(names) ==> {
            &&& strictly_increasing(string_views(names@))
            &&& forall|i: int| 0 <= i < names@.len()
                ==> regex_matches(params.local_pattern@.0, params.local_pattern@.1, #[trigger] names@[i]@)
        }),
        r matches Ok(p) ==> forall|i: int| 0 <= i < p.injections@.len()
            ==> searches::matched_text(file_bytes@, params.current_pattern@, (#[trigger] p.injections@[i]).range),
        r matches Err(e) ==> e is FileParse,
        r is Ok <==> searches::parse_succeeds(language_info.language, injection_range(injection)),
        r matches Ok(p) ==> pass_found(
            params,
            language_info,
            file_bytes@,
            &parsed_tree_of(language_info.language, file_bytes@, injection_range(injection)),
            injection,
            p.search_result,
        ),
        r matches Ok(p) ==> searches::injections_found(
            file_bytes@,
            &parsed_tree_of(language_info.language, file_bytes@, injection_range(injection)),
            language_info,
            params.current_pattern@,
            searches::injection_views(p.injections@),
        ),
        r matches Ok(p) ==> forall|i: int| 0 <= i < p.injections@.len() ==> inherits_context(
            (#[trigger] p.injections@[i]).context@,
            injection,
        ),
{
    let range = match injection {
        Some(i) => Some(i.range),
        None => None,
    };
    let parsed = match ParsedFile::from_bytes_and_language_ranged(file_bytes, language_name, &language_info.language, range) {
        Ok(p) => p,
        Err(e) => {
            return Err(SinglePassError::FileParse(e));
        },
    };
    let tree = &parsed.tree;
    let search_result = if params.only_names {
        SearchResult::Names(searches::find_names(file_bytes, tree, language_info, params.local_pattern))
    } else {
        let mut result = searches::find_definition(file_bytes, tree, language_info, params.local_pattern, params.recurse);
        let ghost lines = result.ranges@;
        if !result.ranges.is_empty() {
            match injection {
                Some(i) => {
                    result.ranges.extend(union_ranges(&i.context));
                },
                None => {},
            }
        }
        proof {
            assert(searches::definition_lines_found(file_bytes@, tree, language_info, params.local_pattern@, lines));
        }
        SearchResult::Definitions(result)
    };
    let mut found = searches::find_injections(file_bytes, tree, language_info, params.current_pattern);
    let ghost all = searches::injection_views(found@);
    let mut injections: Vec<InjectionRange> = Vec::new();
    assert(searches::injection_views(injections@) + searches::injection_views(found@) =~= all);
    while found.len() > 0
        invariant
            forall|i: int| 0 <= i < found@.len()
                ==> searches::matched_text(file_bytes@, params.current_pattern@, (#[trigger] found@[i]).range),
            forall|i: int| 0 <= i < found@.len()
                ==> (#[trigger] found@[i]).context@ == Map::<usize, usize>::empty(),
            forall|i: int| 0 <= i < injections@.len()
                ==> searches::matched_text(file_bytes@, params.current_pattern@, (#[trigger] injections@[i]).range),
            forall|i: int| 0 <= i < injections@.len() ==> inherits_context((#[trigger] injections@[i]).context@, injection),
            searches::injection_views(injections@) + searches::injection_views(found@) == all,
        decreases found@.len(),
    {
        assert(searches::matched_text(file_bytes@, params.current_pattern@, found@[0].range));
        let ghost before_found = found@;
        let ghost before_inj = injections@;
        let mut i = found.remove(0);
        let ghost view0 = (i.range, searches::opt_string_view(i.language_hint));
        assert(i.context@ == Map::<usize, usize>::empty());
        match injection {
            Some(parent) => {
                i.context.extend(union_ranges(&parent.context));
                proof {
                    assert forall|p: int| crate::range_union::map_covers(i.context@, p)
                        <==> crate::range_union::map_covers(parent.context@, p) by {
                        if crate::range_union::map_covers(Map::<usize, usize>::empty(), p) {
                            let k = choose|k: usize| #[trigger] Map::<usize, usize>::empty().contains_key(k) && k <= p && p < Map::<usize, usize>::empty()[k];
                        }
                    }
                }
            },
            None => {},
        }
        injections.push(i);
        proof {
            assert(searches::injection_views(before_found) =~= seq![view0] + searches::injection_views(found@));
            assert(searches::injection_views(injections@) =~= searches::injection_views(before_inj).push(view0));
            assert forall|k: int| 0 <= k < injections@.len() implies inherits_context((#[trigger] injections@[k]).context@, injection) by {
                if k < before_inj.len() {
                    assert(injections@[k] == before_inj[k]);
                }
            }
            assert forall|k: int| 0 <= k < found@.len() implies (#[trigger] found@[k]).context@ == Map::<usize, usize>::empty() by {
                assert(found@[k] == before_found[k + 1]);
            }
            assert forall|k: int| 0 <= k < found@.len() implies searches::matched_text(file_bytes@, params.current_pattern@, (#[trigger] found@[k]).range) by {
                assert(found@[k] == before_found[k + 1]);
            }
            assert forall|k: int| 0 <= k < injections@.len() implies searches::matched_text(file_bytes@, params.current_pattern@, (#[trigger] injections@[k]).range) by {
                if k < before_inj.len() {
                    assert(injections@[k] == before_inj[k]);
                }
            }
        }
    }
    assert(searches::injection_views(found@) =~= Seq::<(tree_sitter::Range, Option<Seq<char>>)>::empty());
    assert(searches::injection_views(injections@) =~= all);
    Ok(SinglePassResults { search_result, language_name, injections })
}

/// A search of one file in progress: the fragments still to search (the file
/// itself is the fragment `None`), searched last-found first, and what the
/// passes so far have found.
pub struct SingleFileSearch {
    root_language: LanguageName,
    pending: Vec<Option<InjectionRange>>,
    results: SingleFileResults,
}

/// What a file search asks of its caller next.
pub enum PassStep {
    /// Every fragment has been searched.
    Finished,
    /// Search `injection` (the whole file if `None`) as `language_name`, then
    /// hand the results to [`SingleFileSearch::record_pass`].
    Search {
        language_name: LanguageName,
        injection: Option<InjectionRange>,
    },
    /// The fragment's language could not be told; it is skipped.
    Skip {
        injection: Option<InjectionRange>,
        error: SinglePassError,
    },
}

/// Fragments, queued for searching.
pub open spec fn queued(injections: Seq<InjectionRange>) -> Seq<Option<InjectionRange>> {
    injections.map_values(|i: InjectionRange| Some(i))
}

impl SingleFileSearch {
    /// How many fragments are still to be searched.
    pub closed spec fn pending_count(&self) -> nat {
        self.pending@.len()
    }

    /// The fragments still to be searched (`None`: the whole file); the last is searched next.
    pub closed spec fn pending(&self) -> Seq<Option<InjectionRange>> {
        self.pending@
    }

    /// The language of the file itself.
    pub closed spec fn root(&self) -> LanguageName {
        self.root_language
    }

    /// What the passes so far have found.
    pub closed spec fn found(&self) -> SingleFileResults {
        self.results
    }

    /// A search of a file written in `root_language`, starting with the whole file.
    pub fn new(root_language: LanguageName) -> (r: Self)
        ensures
            r.pending_count() == 1,
            r.pending() == seq![None::<InjectionRange>],
            r.root() == root_language,
            r.found().ranges@ == Map::<usize, usize>::empty(),
            r.found().matched_names@.len() == 0,
            r.found().recurse_names@.len() == 0,
            r.found().import_origins@.len() == 0,
    {
        let mut pending: Vec<Option<InjectionRange>> = Vec::new();
        pending.push(None);
        SingleFileSearch { root_language, pending, results: SingleFileResults::new() }
    }

    /// Takes the fragment found last and tells its language.
    pub fn next_pass(&mut self, file_bytes: &[u8]) -> (r: PassStep)
        ensures
            old(self).pending_count() == 0 ==> r is Finished && final(self).pending_count() == 0,
            old(self).pending_count() > 0 ==> !(r is Finished) && final(self).pending_count() == old(self).pending_count() - 1,
            final(self).found() == old(self).found(),
            final(self).root() == old(self).root(),
            r matches PassStep::Search { injection: None, language_name } ==> language_name == old(self).root(),
            old(self).pending_count() > 0 ==> final(self).pending() == old(self).pending().drop_last(),
            r matches PassStep::Search { language_name, injection } ==> injection == old(self).pending().last()
                && language_of_pass(old(self).root(), fragment_hint(injection), Ok(language_name)),
            r matches PassStep::Skip { injection, error } ==> injection == old(self).pending().last()
                && language_of_pass(old(self).root(), fragment_hint(injection), Err(error)),
    {
        let ghost before = self.pending@;
        match self.pending.pop() {
            None => PassStep::Finished,
            Some(injection) => {
                assert(before.last() == injection);
                let lang = pass_language(self.root_language, file_bytes, injection.as_ref());
                assert(language_of_pass(self.root_language, fragment_hint(injection), lang));
                match lang {
                    Ok(language_name) => PassStep::Search { language_name, injection },
                    Err(error) => PassStep::Skip { injection, error },
                }
            },
        }
    }

    /// Adds what one pass found, and queues the fragments it found.
    pub fn record_pass(&mut self, pass: SinglePassResults)
        ensures
            final(self).pending_count() == old(self).pending_count() + pass.injections@.len(),
            final(self).pending() == old(self).pending() + queued(pass.injections@),
            final(self).root() == old(self).root(),
            match pass.search_result {
                SearchResult::Names(names) => {
                    &&& final(self).found().matched_names@ == old(self).found().matched_names@ + names@
                    &&& final(self).found().ranges@ == old(self).found().ranges@
                    &&& final(self).found().recurse_names@ == old(self).found().recurse_names@
                    &&& final(self).found().import_origins@ == old(self).found().import_origins@
                },
                SearchResult::Definitions(d) => {
                    &&& final(self).found().matched_names@ == old(self).found().matched_names@
                    &&& forall|p: int| crate::range_union::map_covers(final(self).found().ranges@, p)
                        <==> (crate::range_union::map_covers(old(self).found().ranges@, p)
                            || crate::range_union::map_covers(d.ranges@, p))
                    &&& final(self).found().recurse_names@ == old(self).found().recurse_names@ + d.recurse_names@
                    &&& final(self).found().import_origins@.len() == old(self).found().import_origins@.len() + d.import_origins@.len()
                    &&& forall|i: int| 0 <= i < d.import_origins@.len() ==> {
                        let o = #[trigger] final(self).found().import_origins@[old(self).found().import_origins@.len() + i];
                        o.0 == pass.language_name && o.1@ == d.import_origins@[i]@
                    }
                    &&& final(self).found().import_origins@.take(old(self).found().import_origins@.len() as int)
                        == old(self).found().import_origins@
                },
            },
    {
        let SinglePassResults { search_result, language_name, injections } = pass;
        match search_result {
            SearchResult::Names(mut names) => {
                self.results.matched_names.append(&mut names);
            },
            SearchResult::Definitions(d) => {
                let searches::SearchResult { ranges, mut recurse_names, import_origins } = d;
                self.results.ranges.extend(union_ranges(&ranges));
                self.results.recurse_names.append(&mut recurse_names);
                let ghost before = self.results.import_origins@;
                let ghost mid = self.results;
                let mut k: usize = 0;
                while k < import_origins.len()
                    invariant
                        k <= import_origins@.len(),
                        self.root_language == old(self).root_language,
                        self.pending == old(self).pending,
                        self.results.matched_names == mid.matched_names,
                        self.results.ranges == mid.ranges,
                        self.results.recurse_names == mid.recurse_names,
                        self.results.import_origins@.len() == before.len() + k,
                        self.results.import_origins@.take(before.len() as int) == before,
                        forall|i: int| 0 <= i < k ==> {
                            let o = #[trigger] self.results.import_origins@[before.len() + i];
                            o.0 == language_name && o.1@ == import_origins@[i]@
                        },
                    decreases import_origins@.len() - k,
                {
                    let ghost prev = self.results.import_origins@;
                    self.results.import_origins.push((language_name, import_origins[k].clone()));
                    assert(self.results.import_origins@.take(before.len() as int) =~= prev.take(before.len() as int));
                    k = k + 1;
                }
            },
        }
        let mut injections = injections;
        let ghost before = self.pending@.len();
        let ghost total = injections@.len();
        let ghost results = self.results;
        let ghost done: Seq<InjectionRange> = Seq::empty();
        assert(done + injections@ =~= pass.injections@);
        assert(self.pending@ =~= old(self).pending@ + queued(done));
        while injections.len() > 0
            invariant
                self.pending@.len() + injections@.len() == before + total,
                self.root_language == old(self).root_language,
                self.results == results,
                before == old(self).pending@.len(),
                total == pass.injections@.len(),
                done + injections@ == pass.injections@,
                self.pending@ == old(self).pending@ + queued(done),
            decreases injections@.len(),
        {
            let ghost rest = injections@;
            let i = injections.remove(0);
            proof {
                assert(rest[0] == i);
                assert(queued(done.push(i)) =~= queued(done).push(Some(i)));
                assert(done.push(i) + injections@ =~= done + rest);
                done = done.push(i);
            }
            self.pending.push(Some(i));
        }
        assert(done =~= pass.injections@);
    }

    /// What the search found.
    pub fn into_results(self) -> (r: SingleFileResults)
        ensures
            r == self.found(),
    {
        self.results
    }
}

impl SinglePassError {
    /// The message that tells a user what went wrong: that of the error inside.
    pub fn describe(&self) -> (r: String)
        ensures
            match self {
                SinglePassError::Input(e) => e.describes(r@),
                SinglePassError::FileParse(e) => e.describes(r@),
                SinglePassError::LoaderError(m) => r@ == m@,
                SinglePassError::QueryCompilerError(e) => e.describes(r@),
            },
    {
        match self {
            SinglePassError::Input(e) => e.describe(),
            SinglePassError::FileParse(e) => e.describe(),
            SinglePassError::LoaderError(m) => m.clone(),
            SinglePassError::QueryCompilerError(e) => e.describe(),
        }
    }
}

} // verus!
