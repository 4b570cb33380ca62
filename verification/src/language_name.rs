//! Names of languages, as hyperpolyglot spells them.
use vstd::prelude::*;
use crate::text::{str_eq, to_lowercase, unicode_lowercase};

verus! {

/// A language, named as hyperpolyglot names it.
#[derive(Debug, Clone, Copy, Eq, Hash)]
pub struct LanguageName(&'static str);

/// The name matches no language we know of.
#[derive(Debug)]
pub struct UnknownLanguageError {}

impl View for LanguageName {
    type V = Seq<char>;

    closed spec fn view(&self) -> Seq<char> {
        self.0@
    }
}

impl PartialEq for LanguageName {
    fn eq(&self, other: &Self) -> (r: bool) {
        str_eq(self.0, other.0)
    }
}

impl vstd::std_specs::cmp::PartialEqSpecImpl for LanguageName {
    open spec fn obeys_eq_spec() -> bool {
        true
    }

    open spec fn eq_spec(&self, other: &Self) -> bool {
        self@ == other@
    }
}

/// What hyperpolyglot's table of languages holds under exactly this name: nothing,
/// or a language, given by the name of its parent language (its group), if any.
pub uninterp spec fn hyperpolyglot_entry(name: Seq<char>) -> Option<Option<Seq<char>>>;

/// Whether hyperpolyglot's table of languages holds a language of exactly this name.
pub open spec fn hyperpolyglot_knows(name: Seq<char>) -> bool {
    hyperpolyglot_entry(name) is Some
}

/// The parent language (group) that hyperpolyglot gives the language of this name.
pub open spec fn hyperpolyglot_group(name: Seq<char>) -> Option<Seq<char>> {
    match hyperpolyglot_entry(name) {
        Some(group) => group,
        None => None,
    }
}

/// The language that a lower-case name or alias stands for, by its canonical
/// (hyperpolyglot) name: each supported language under its own name in lower
/// case and under its common aliases.
pub open spec fn alias_of(lower: Seq<char>) -> Option<Seq<char>> {
    if lower == "c"@ {
        Some("C"@)
    } else if lower == "cpp"@ {
        Some("C++"@)
    } else if lower == "c++"@ {
        Some("C++"@)
    } else if lower == "cxx"@ {
        Some("C++"@)
    } else if lower == "css"@ {
        Some("CSS"@)
    } else if lower == "cython"@ {
        Some("Cython"@)
    } else if lower == "pyrex"@ {
        Some("Cython"@)
    } else if lower == "glsl"@ {
        Some("GLSL"@)
    } else if lower == "go"@ {
        Some("Go"@)
    } else if lower == "golang"@ {
        Some("Go"@)
    } else if lower == "html"@ {
        Some("HTML"@)
    } else if lower == "xhtml"@ {
        Some("HTML"@)
    } else if lower == "javascript"@ {
        Some("JavaScript"@)
    } else if lower == "js"@ {
        Some("JavaScript"@)
    } else if lower == "node"@ {
        Some("JavaScript"@)
    } else if lower == "jupyter notebook"@ {
        Some("Jupyter Notebook"@)
    } else if lower == "ipynb"@ {
        Some("Jupyter Notebook"@)
    } else if lower == "lua"@ {
        Some("Lua"@)
    } else if lower == "markdown"@ {
        Some("Markdown"@)
    } else if lower == "md"@ {
        Some("Markdown"@)
    } else if lower == "python"@ {
        Some("Python"@)
    } else if lower == "python3"@ {
        Some("Python"@)
    } else if lower == "rust"@ {
        Some("Rust"@)
    } else if lower == "rs"@ {
        Some("Rust"@)
    } else if lower == "shell"@ {
        Some("Shell"@)
    } else if lower == "sh"@ {
        Some("Shell"@)
    } else if lower == "bash"@ {
        Some("Shell"@)
    } else if lower == "zsh"@ {
        Some("Shell"@)
    } else if lower == "tex"@ {
        Some("TeX"@)
    } else if lower == "latex"@ {
        Some("TeX"@)
    } else if lower == "tsx"@ {
        Some("TSX"@)
    } else if lower == "typescript"@ {
        Some("TypeScript"@)
    } else if lower == "ts"@ {
        Some("TypeScript"@)
    } else if lower == "yaml"@ {
        Some("YAML"@)
    } else if lower == "yml"@ {
        Some("YAML"@)
    } else {
        None
    }
}

/// The canonical name of a lower-case name or alias (see [`alias_of`]).
pub fn canonical_alias(lower: &str) -> (r: Option<&'static str>)
    ensures
        match r {
            Some(c) => alias_of(lower@) == Some(c@),
            None => alias_of(lower@) is None,
        },
{
    if str_eq(lower, "c") {
        Some("C")
    } else if str_eq(lower, "cpp") {
        Some("C++")
    } else if str_eq(lower, "c++") {
        Some("C++")
    } else if str_eq(lower, "cxx") {
        Some("C++")
    } else if str_eq(lower, "css") {
        Some("CSS")
    } else if str_eq(lower, "cython") {
        Some("Cython")
    } else if str_eq(lower, "pyrex") {
        Some("Cython")
    } else if str_eq(lower, "glsl") {
        Some("GLSL")
    } else if str_eq(lower, "go") {
        Some("Go")
    } else if str_eq(lower, "golang") {
        Some("Go")
    } else if str_eq(lower, "html") {
        Some("HTML")
    } else if str_eq(lower, "xhtml") {
        Some("HTML")
    } else if str_eq(lower, "javascript") {
        Some("JavaScript")
    } else if str_eq(lower, "js") {
        Some("JavaScript")
    } else if str_eq(lower, "node") {
        Some("JavaScript")
    } else if str_eq(lower, "jupyter notebook") {
        Some("Jupyter Notebook")
    } else if str_eq(lower, "ipynb") {
        Some("Jupyter Notebook")
    } else if str_eq(lower, "lua") {
        Some("Lua")
    } else if str_eq(lower, "markdown") {
        Some("Markdown")
    } else if str_eq(lower, "md") {
        Some("Markdown")
    } else if str_eq(lower, "python") {
        Some("Python")
    } else if str_eq(lower, "python3") {
        Some("Python")
    } else if str_eq(lower, "rust") {
        Some("Rust")
    } else if str_eq(lower, "rs") {
        Some("Rust")
    } else if str_eq(lower, "shell") {
        Some("Shell")
    } else if str_eq(lower, "sh") {
        Some("Shell")
    } else if str_eq(lower, "bash") {
        Some("Shell")
    } else if str_eq(lower, "zsh") {
        Some("Shell")
    } else if str_eq(lower, "tex") {
        Some("TeX")
    } else if str_eq(lower, "latex") {
        Some("TeX")
    } else if str_eq(lower, "tsx") {
        Some("TSX")
    } else if str_eq(lower, "typescript") {
        Some("TypeScript")
    } else if str_eq(lower, "ts") {
        Some("TypeScript")
    } else if str_eq(lower, "yaml") {
        Some("YAML")
    } else if str_eq(lower, "yml") {
        Some("YAML")
    } else {
        None
    }
}

/// The name that `s` resolves to: the language its lower-case form is an
/// alias of, else `s` itself.
pub open spec fn resolve_name(s: Seq<char>) -> Seq<char> {
    match alias_of(unicode_lowercase(s)) {
        Some(c) => c,
        None => s,
    }
}

/// Whether `s` names a language: what it resolves to is a language hyperpolyglot knows.
pub open spec fn language_known(s: Seq<char>) -> bool {
    hyperpolyglot_knows(resolve_name(s))
}

/// `hyperpolyglot::Language::try_from`: looks `s` up in hyperpolyglot's table of
/// languages, which is keyed by the languages' own names, and gives back the name
/// of the language found (which is then `s` itself) and the name of its group.
#[verifier::external_body]
fn hyperpolyglot_language(s: &str) -> (r: Option<(&'static str, Option<&'static str>)>)
    ensures
        r is Some <==> hyperpolyglot_knows(s@),
        r matches Some((n, g)) ==> n@ == s@ && hyperpolyglot_entry(s@) == Some(
            match g {
                Some(gs) => Some(gs@),
                None => None::<Seq<char>>,
            },
        ),
{
    match hyperpolyglot::Language::try_from(s) {
        Ok(language) => Some((language.name, language.group)),
        Err(_) => None,
    }
}

/// The language that a name from the first two config formats stands for,
/// given the name in lower case.
pub open spec fn legacy_language(lower: Seq<char>) -> Option<Seq<char>> {
    if lower == "rust"@ {
        Some("Rust"@)
    } else if lower == "python"@ {
        Some("Python"@)
    } else if lower == "javascript"@ || lower == "js"@ {
        Some("JavaScript"@)
    } else if lower == "typescript"@ || lower == "ts"@ {
        Some("TypeScript"@)
    } else if lower == "tsx"@ {
        Some("TSX"@)
    } else if lower == "c"@ {
        Some("C"@)
    } else if lower == "c++"@ || lower == "cplusplus"@ {
        Some("C++"@)
    } else if lower == "go"@ {
        Some("Go"@)
    } else if lower == "markdown"@ {
        Some("Markdown"@)
    } else {
        None
    }
}

impl LanguageName {
    pub fn python() -> (r: Self)
        ensures
            r@ == "Python"@,
    {
        Self("Python")
    }

    pub fn rust() -> (r: Self)
        ensures
            r@ == "Rust"@,
    {
        Self("Rust")
    }

    pub fn javascript() -> (r: Self)
        ensures
            r@ == "JavaScript"@,
    {
        Self("JavaScript")
    }

    pub fn typescript() -> (r: Self)
        ensures
            r@ == "TypeScript"@,
    {
        Self("TypeScript")
    }

    pub fn tsx() -> (r: Self)
        ensures
            r@ == "TSX"@,
    {
        Self("TSX")
    }

    pub fn c() -> (r: Self)
        ensures
            r@ == "C"@,
    {
        Self("C")
    }

    pub fn cplusplus() -> (r: Self)
        ensures
            r@ == "C++"@,
    {
        Self("C++")
    }

    pub fn go() -> (r: Self)
        ensures
            r@ == "Go"@,
    {
        Self("Go")
    }

    pub fn markdown() -> (r: Self)
        ensures
            r@ == "Markdown"@,
    {
        Self("Markdown")
    }

    pub fn html() -> (r: Self)
        ensures
            r@ == "HTML"@,
    {
        Self("HTML")
    }

    pub fn cython() -> (r: Self)
        ensures
            r@ == "Cython"@,
    {
        Self("Cython")
    }

    pub fn tex() -> (r: Self)
        ensures
            r@ == "TeX"@,
    {
        Self("TeX")
    }

    pub fn yaml() -> (r: Self)
        ensures
            r@ == "YAML"@,
    {
        Self("YAML")
    }

    pub fn ipynb() -> (r: Self)
        ensures
            r@ == "Jupyter Notebook"@,
    {
        Self("Jupyter Notebook")
    }

    /// The parent language that hyperpolyglot gives this language, if it knows
    /// both of them.
    pub fn parent(&self) -> (r: Option<Self>)
        ensures
            r is Some <==> (hyperpolyglot_group(self@) matches Some(g) && language_known(g)),
            r matches Some(p) ==> hyperpolyglot_group(self@) matches Some(g) && p@ == resolve_name(g),
    {
        match hyperpolyglot_language(self.0) {
            Some((_, Some(group))) => match Self::from_name(group) {
                Ok(p) => Some(p),
                Err(_) => None,
            },
            _ => None,
        }
    }

    /// The language's name.
    pub fn as_str(&self) -> (r: &'static str)
        ensures
            r@ == self@,
    {
        self.0
    }

    /// The language a name stands for: the name is looked up in lower case
    /// among the aliases (see [`alias_of`]), and what it resolves to must be a
    /// language hyperpolyglot knows.
    pub fn from_name(s: &str) -> (r: Result<Self, UnknownLanguageError>)
        ensures
            r is Ok <==> language_known(s@),
            r matches Ok(l) ==> l@ == resolve_name(s@),
    {
        let lower = to_lowercase(s);
        let resolved = match canonical_alias(lower.as_str()) {
            Some(c) => c,
            None => s,
        };
        match hyperpolyglot_language(resolved) {
            Some((name, _)) => Ok(Self(name)),
            None => Err(UnknownLanguageError {}),
        }
    }

    /// Convert language names from the strings we used in the v1 and v2 config format.
    pub fn from_legacy(s: &str) -> (r: Result<Self, UnknownLanguageError>)
        ensures
            r is Ok <==> legacy_language(unicode_lowercase(s@)) is Some,
            r matches Ok(l) ==> legacy_language(unicode_lowercase(s@)) == Some(l@),
    {
        let lower = to_lowercase(s);
        Self::from_legacy_lowercase(lower.as_str())
    }

    /// [`LanguageName::from_legacy`] of a name already in lower case.
    pub fn from_legacy_lowercase(lower: &str) -> (r: Result<Self, UnknownLanguageError>)
        ensures
            r is Ok <==> legacy_language(lower@) is Some,
            r matches Ok(l) ==> legacy_language(lower@) == Some(l@),
    {
        if str_eq(lower, "rust") {
            Ok(Self::rust())
        } else if str_eq(lower, "python") {
            Ok(Self::python())
        } else if str_eq(lower, "javascript") || str_eq(lower, "js") {
            Ok(Self::javascript())
        } else if str_eq(lower, "typescript") || str_eq(lower, "ts") {
            Ok(Self::typescript())
        } else if str_eq(lower, "tsx") {
            Ok(Self::tsx())
        } else if str_eq(lower, "c") {
            Ok(Self::c())
        } else if str_eq(lower, "c++") || str_eq(lower, "cplusplus") {
            Ok(Self::cplusplus())
        } else if str_eq(lower, "go") {
            Ok(Self::go())
        } else if str_eq(lower, "markdown") {
            Ok(Self::markdown())
        } else {
            Err(UnknownLanguageError {})
        }
    }
}

impl std::str::FromStr for LanguageName {
    type Err = UnknownLanguageError;

    fn from_str(s: &str) -> (r: Result<Self, Self::Err>)
        ensures
            r is Ok <==> language_known(s@),
            r matches Ok(l) ==> l@ == resolve_name(s@),
    {
        Self::from_name(s)
    }
}

} // verus!
