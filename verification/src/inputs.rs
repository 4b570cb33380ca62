//! Files to search, already loaded or named by path.
use vstd::prelude::*;
use crate::language_name::{language_known, resolve_name, LanguageName};
use crate::query_compiler::QueryCompilerError;
use crate::text::{debug_quoted, debug_string, str_eq};
use vstd::string::StringExecFns;

verus! {

/// Something to search: a file on disk, or one already in memory.
#[derive(Clone, Copy)]
pub enum SearchInput<'a> {
    Path(&'a std::path::PathBuf),
    Loaded(&'a LoadedFile),
}

/// A file in memory, with its detected language.
#[derive(Debug)]
pub struct LoadedFile {
    /// How the bytes were obtained, for the user; `None` for standard input.
    pub recipe: Option<String>,
    pub bytes: Vec<u8>,
    pub language_name: LanguageName,
}

/// Why a file could not be loaded.
#[derive(Debug)]
pub enum Error {
    UnknownLanguage,
    UnsupportedLanguage(String),
    UnreadableFile(String),
    UnconfiguredLanguage(QueryCompilerError),
    EmptyStdin,
}

/// How a loaded file is named to the user.
pub open spec fn describe_spec(recipe: Option<Seq<char>>) -> Seq<char> {
    match recipe {
        None => "input"@,
        Some(r) => debug_quoted(r),
    }
}

impl LoadedFile {
    pub fn describe(&self) -> (r: String)
        ensures
            r@ == describe_spec(match self.recipe { Some(x) => Some(x@), None => None }),
    {
        match self.recipe.as_ref() {
            None => {
                proof { reveal_strlit("input"); }
                String::from_str("input")
            },
            Some(recipe) => debug_string(recipe.as_str()),
        }
    }
}

/// How `<PathBuf as Debug>::fmt` shows a path.
pub uninterp spec fn path_debug_text(path: std::path::PathBuf) -> Seq<char>;

/// How `<PathBuf as Debug>::fmt` shows a path in its alternate form (`{:#?}`).
pub uninterp spec fn path_debug_alt_text(path: std::path::PathBuf) -> Seq<char>;

/// `Debug` formatting of a path (`<PathBuf as Debug>::fmt`); the text is named by [`path_debug_text`].
#[verifier::external_body]
fn path_debug(path: &std::path::PathBuf) -> (r: String)
    ensures
        r@ == path_debug_text(*path),
{
    format!("{:?}", path)
}

/// Alternate `Debug` formatting of a path (`{:#?}`); the text is named by [`path_debug_alt_text`].
#[verifier::external_body]
fn path_debug_alt(path: &std::path::PathBuf) -> (r: String)
    ensures
        r@ == path_debug_alt_text(*path),
{
    format!("{:#?}", path)
}

impl<'a> SearchInput<'a> {
    /// How the input is named to the user.
    pub fn describe(&self) -> (r: String)
        ensures
            self matches SearchInput::Loaded(f) ==> r@ == describe_spec(match f.recipe { Some(x) => Some(x@), None => None }),
    {
        match self {
            SearchInput::Path(path) => path_debug(path),
            SearchInput::Loaded(loaded) => loaded.describe(),
        }
    }
}

/// The language of text read from memory. Detection from bytes is not
/// available in this build, so the language is always unknown.
pub fn detect_language_from_bytes(_bytes: &[u8], _hint: Option<&str>) -> (r: Result<LanguageName, Error>)
    ensures
        r matches Err(Error::UnknownLanguage),
{
    Err(Error::UnknownLanguage)
}

/// Whether `x` is one of the names in `names`.
pub open spec fn names_contain(names: Seq<&'static str>, x: &'static str) -> bool {
    exists|i: int| 0 <= i < names.len() && (#[trigger] names[i])@ == x@
}

/// The candidates of `new` that `old` also names, in the order of `new`.
pub open spec fn common_candidates(old: Seq<&'static str>, new: Seq<&'static str>) -> Seq<&'static str>
    decreases new.len(),
{
    if new.len() == 0 {
        Seq::empty()
    } else {
        let rest = common_candidates(old, new.drop_last());
        if names_contain(old, new.last()) {
            rest.push(new.last())
        } else {
            rest
        }
    }
}

/// Narrow the candidate languages `old` by the candidates `new` of a further
/// detector: with no earlier candidates, the new ones; otherwise those named by
/// both, unless there are none, in which case the earlier candidates stand.
pub open spec fn filter_candidates_spec(old: Seq<&'static str>, new: Seq<&'static str>) -> Seq<&'static str> {
    if old.len() == 0 {
        new
    } else if common_candidates(old, new).len() == 0 {
        old
    } else {
        common_candidates(old, new)
    }
}

fn contains_name(names: &Vec<&'static str>, x: &'static str) -> (r: bool)
    ensures
        r == names_contain(names@, x),
{
    let mut i: usize = 0;
    while i < names.len()
        invariant
            0 <= i <= names@.len(),
            forall|j: int| 0 <= j < i ==> (#[trigger] names@[j])@ != x@,
        decreases names.len() - i,
    {
        if str_eq(names[i], x) {
            return true;
        }
        i = i + 1;
    }
    false
}

pub fn filter_candidates(old: Vec<&'static str>, new: Vec<&'static str>) -> (r: Vec<&'static str>)
    ensures
        r@ == filter_candidates_spec(old@, new@),
{
    if old.len() == 0 {
        return new;
    }
    let mut intersection: Vec<&'static str> = Vec::new();
    let mut i: usize = 0;
    while i < new.len()
        invariant
            0 <= i <= new@.len(),
            intersection@ == common_candidates(old@, new@.take(i as int)),
        decreases new.len() - i,
    {
        assert(new@.take(i + 1).drop_last() == new@.take(i as int));
        if contains_name(&old, new[i]) {
            intersection.push(new[i]);
        }
        i = i + 1;
    }
    assert(new@.take(new.len() as int) == new@);
    if intersection.len() == 0 {
        old
    } else {
        intersection
    }
}

/// The language that detection from a file's path and contents found:
/// `detected` is what hyperpolyglot's detection gave (its error message, no
/// language, or a language's name).
pub fn detect_language_from_path(detected: Result<Option<&'static str>, String>) -> (r: Result<LanguageName, Error>)
    ensures
        match detected {
            Err(m) => r matches Err(Error::UnreadableFile(e)) && e@ == m@,
            Ok(None) => r matches Err(Error::UnknownLanguage),
            Ok(Some(n)) => if language_known(n@) {
                r matches Ok(l) && l@ == resolve_name(n@)
            } else {
                r matches Err(Error::UnsupportedLanguage(e)) && e@ == n@
            },
        },
{
    match detected {
        Err(m) => Err(Error::UnreadableFile(m)),
        Ok(None) => Err(Error::UnknownLanguage),
        Ok(Some(n)) => match LanguageName::from_name(n) {
            Ok(l) => Ok(l),
            Err(_) => Err(Error::UnsupportedLanguage(String::from_str(n))),
        },
    }
}

/// Whether a recipe is given, with this text.
pub open spec fn recipe_is(recipe: Option<String>, text: Seq<char>) -> bool {
    recipe matches Some(rc) && rc@ == text
}

/// The command that shows the file at `path`.
pub open spec fn cat_recipe_spec(path: std::path::PathBuf) -> Seq<char> {
    "cat "@ + path_debug_alt_text(path)
}

/// The command that shows the file (see [`cat_recipe_spec`]).
fn cat_recipe(path: &std::path::PathBuf) -> (r: String)
    ensures
        r@ == cat_recipe_spec(*path),
{
    proof { reveal_strlit("cat "); }
    String::from_str("cat ").concat(path_debug_alt(path).as_str())
}

impl LoadedFile {
    /// A file loaded from `path`: detection (see [`detect_language_from_path`])
    /// tells its language, and `contents` are its bytes or why they could not be read.
    pub fn load(
        path: &std::path::PathBuf,
        detected: Result<Option<&'static str>, String>,
        contents: Result<Vec<u8>, String>,
    ) -> (r: Result<Self, Error>)
        ensures
            match detected {
                Err(m) => r matches Err(Error::UnreadableFile(e)) && e@ == m@,
                Ok(None) => r matches Err(Error::UnknownLanguage),
                Ok(Some(n)) => if !language_known(n@) {
                    r matches Err(Error::UnsupportedLanguage(e)) && e@ == n@
                } else {
                    match contents {
                        Err(m) => r matches Err(Error::UnreadableFile(e)) && e@ == m@,
                        Ok(b) => r matches Ok(f) && f.language_name@ == resolve_name(n@) && f.bytes@ == b@
                            && recipe_is(f.recipe, cat_recipe_spec(*path)),
                    }
                },
            },
    {
        let language_name = match detect_language_from_path(detected) {
            Ok(l) => l,
            Err(e) => {
                return Err(e);
            },
        };
        match contents {
            Err(m) => Err(Error::UnreadableFile(m)),
            Ok(bytes) => Ok(LoadedFile { recipe: Some(cat_recipe(path)), bytes, language_name }),
        }
    }

    /// Standard input, loaded: `contents` are its bytes or why they could not be
    /// read. Empty input is refused, and its language is detected from its bytes.
    pub fn load_stdin(contents: Result<Vec<u8>, String>) -> (r: Result<Self, Error>)
        ensures
            contents matches Err(m) ==> r matches Err(Error::UnreadableFile(e)) && e@ == m@,
            contents matches Ok(b) && b@.len() == 0 ==> r matches Err(Error::EmptyStdin),
            contents matches Ok(b) && b@.len() > 0 ==> r matches Err(Error::UnknownLanguage),
    {
        match contents {
            Err(m) => Err(Error::UnreadableFile(m)),
            Ok(bytes) => {
                if bytes.len() == 0 {
                    return Err(Error::EmptyStdin);
                }
                match detect_language_from_bytes(bytes.as_slice(), None) {
                    Ok(language_name) => Ok(LoadedFile { recipe: None, bytes, language_name }),
                    Err(e) => Err(e),
                }
            },
        }
    }
}

impl Error {
    /// Whether `text` is the message for this error.
    pub open spec fn describes(&self, text: Seq<char>) -> bool {
        match self {
            Error::UnknownLanguage => text == "unknown language"@,
            Error::UnsupportedLanguage(l) => text == "unsupported language "@ + debug_quoted(l@),
            Error::UnreadableFile(m) => text == m@,
            Error::UnconfiguredLanguage(e) => e.describes(text),
            Error::EmptyStdin => text == "stdin is empty"@,
        }
    }

    /// The message that tells a user what went wrong.
    pub fn describe(&self) -> (r: String)
        ensures
            self.describes(r@),
    {
        proof {
            reveal_strlit("unknown language");
            reveal_strlit("unsupported language ");
            reveal_strlit("stdin is empty");
        }
        match self {
            Error::UnknownLanguage => String::from_str("unknown language"),
            Error::UnsupportedLanguage(l) => String::from_str("unsupported language ").concat(debug_string(l.as_str()).as_str()),
            Error::UnreadableFile(m) => m.clone(),
            Error::UnconfiguredLanguage(e) => e.describe(),
            Error::EmptyStdin => String::from_str("stdin is empty"),
        }
    }
}

} // verus!
