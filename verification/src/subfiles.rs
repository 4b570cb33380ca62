//! Files inside files: the parts of a file that are searched in another language.
use vstd::prelude::*;
use vstd::string::StringExecFns;
use crate::inputs::LoadedFile;
use crate::ipynb::{cells_markdown, to_unaligned_markdown, Notebook};
use crate::language_name::LanguageName;
use crate::text::str_eq;

verus! {

/// How the markdown rendering of a notebook is described to the user.
pub open spec fn markdown_recipe(base_recipe: Option<Seq<char>>) -> Seq<char> {
    match base_recipe {
        None => "STDIN <to markdown>"@,
        Some(r) => r + " <to markdown>"@,
    }
}

/// The files to search instead of a file of the given language: a Jupyter
/// notebook is searched as its markdown rendering; other languages have none.
/// `notebook` is the file read as a notebook, which a notebook file must be.
pub fn extract_subfiles(
    language_name: LanguageName,
    notebook: Option<&Notebook>,
    base_recipe: Option<String>,
) -> (r: Option<Vec<LoadedFile>>)
    requires
        language_name@ == "Jupyter Notebook"@ ==> notebook is Some,
    ensures
        language_name@ != "Jupyter Notebook"@ ==> r is None,
        language_name@ == "Jupyter Notebook"@ ==> (r matches Some(files) && files@.len() == 1 && {
            let f = files@[0];
            let nb = notebook->Some_0;
            &&& f.recipe matches Some(recipe) && recipe@ == markdown_recipe(
                match base_recipe { Some(x) => Some(x@), None => None },
            )
            &&& f.bytes@ == vstd::utf8::encode_utf8(cells_markdown(nb.cells@, nb.language_name@))
            &&& f.language_name@ == "Markdown"@
        }),
{
    if !str_eq(language_name.as_str(), "Jupyter Notebook") {
        return None;
    }
    let nb = notebook.unwrap();
    match to_unaligned_markdown(nb) {
        Some(markdown_bytes) => {
            proof {
                reveal_strlit("STDIN <to markdown>");
                reveal_strlit(" <to markdown>");
            }
            let recipe = match base_recipe {
                None => String::from_str("STDIN <to markdown>"),
                Some(recipe) => recipe.concat(" <to markdown>"),
            };
            let mut files: Vec<LoadedFile> = Vec::new();
            files.push(LoadedFile {
                recipe: Some(recipe),
                bytes: markdown_bytes,
                language_name: LanguageName::markdown(),
            });
            Some(files)
        },
        None => None,
    }
}

} // verus!
