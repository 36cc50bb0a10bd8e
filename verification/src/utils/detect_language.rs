//! The language that a file of source code is highlighted for.
use vstd::prelude::*;

use crate::text::{lowercase, str_is, to_lowercase};
use crate::viewers::{opt_str_view, path_extension};

verus! {

/// The language that goes with an extension where nothing else is known of
/// the file.
pub open spec fn language_by_extension(extension: Option<Seq<char>>) -> Seq<char> {
    match extension {
        Some(e) => if e == "rs"@ {
            "rust"@
        } else if e == "py"@ {
            "python"@
        } else if e == "js"@ {
            "javascript"@
        } else if e == "html"@ {
            "html"@
        } else if e == "css"@ {
            "css"@
        } else if e == "json"@ {
            "json"@
        } else {
            "txt"@
        },
        None => "txt"@,
    }
}

/// The language of a file with the given extension, where `detected` is the
/// language that a look into the file found, if it found one: Markdown for
/// the extension `md`, else what was found, in lower case, else what goes
/// with the extension.
pub open spec fn language_of(extension: Option<Seq<char>>, detected: Option<Seq<char>>) -> Seq<
    char,
> {
    if extension == Some("md"@) {
        "md"@
    } else {
        match detected {
            Some(language) => lowercase(language),
            None => language_by_extension(extension),
        }
    }
}

/// The language that goes with an extension where nothing else is known of
/// the file.
pub fn fallback_language(extension: Option<&str>) -> (language: String)
    ensures
        language@ == language_by_extension(opt_str_view(extension)),
{
    let name = match extension {
        Some(e) => {
            if str_is(e, "rs") {
                "rust"
            } else if str_is(e, "py") {
                "python"
            } else if str_is(e, "js") {
                "javascript"
            } else if str_is(e, "html") {
                "html"
            } else if str_is(e, "css") {
                "css"
            } else if str_is(e, "json") {
                "json"
            } else {
                "txt"
            }
        },
        None => "txt",
    };
    String::from_str(name)
}

/// The language of a file with the given extension, where `detected` is the
/// language that a look into the file found, if it found one.
pub fn language_for(extension: Option<&str>, detected: Option<&str>) -> (language: String)
    ensures
        language@ == language_of(opt_str_view(extension), opt_str_view(detected)),
{
    let is_markdown = match extension {
        Some(e) => str_is(e, "md"),
        None => false,
    };
    if is_markdown {
        String::from_str("md")
    } else {
        match detected {
            Some(language) => to_lowercase(language),
            None => fallback_language(extension),
        }
    }
}

/// The language of the file at `path`, where `detected` is the language that
/// a look into the file found, if it found one.
pub fn detect_language(path: &str, detected: Option<&str>) -> (language: String)
    ensures
        exists|extension: Option<Seq<char>>|
            language@ == language_of(extension, opt_str_view(detected)),
{
    let extension = path_extension(path);
    let language = match &extension {
        Some(e) => language_for(Some(e.as_str()), detected),
        None => language_for(None, detected),
    };
    proof {
        let witness = match extension {
            Some(e) => Some(e@),
            None => None,
        };
        assert(language@ == language_of(witness, opt_str_view(detected)));
    }
    language
}

} // verus!
