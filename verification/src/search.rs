use vstd::prelude::*;

use crate::strutil::{chars_eq_str, chars_vec};

verus! {

broadcast use vstd::seq::group_seq_axioms;

// ---------------------------------------------------------------------------
// Workspace search support
//
// Pattern tables for jump-to-definition, and the result types of the
// desktop's search commands.  The searches themselves walk the workspace
// with the runtime; `{symbol}` in a template stands for the escaped symbol.
// ---------------------------------------------------------------------------

/// One match of a workspace search.
#[derive(Debug, Clone)]
pub struct SearchMatch {
    pub path: String,
    pub line_number: usize,
    pub line_content: String,
    pub match_start: usize,
    pub match_end: usize,
}

/// A whole search: the matches kept, the full count, and whether the list
/// was cut at the limit.
#[derive(Debug, Clone)]
pub struct SearchResult {
    pub matches: Vec<SearchMatch>,
    pub total_matches: usize,
    pub truncated: bool,
}

/// One place a symbol is defined.
#[derive(Debug, Clone)]
pub struct DefinitionLocation {
    pub path: String,
    pub line_number: usize,
    pub column: usize,
    pub line_content: String,
    pub kind: String,
}

/// The definition patterns for a language: pairs of a definition kind and
/// a regular-expression template.
pub open spec fn spec_definition_patterns(language: Seq<char>) -> Seq<(Seq<char>, Seq<char>)> {
    if language == "typescript"@ || language == "typescriptreact"@ || language == "javascript"@
        || language == "javascriptreact"@ {
        seq![
            ("function"@, "\\b(?:export\\s+)?(?:async\\s+)?function\\s+{symbol}\\b"@),
            ("variable"@, "\\b(?:export\\s+)?(?:const|let|var)\\s+{symbol}\\b"@),
            ("class"@, "\\b(?:export\\s+)?class\\s+{symbol}\\b"@),
            ("interface"@, "\\b(?:export\\s+)?interface\\s+{symbol}\\b"@),
            ("type"@, "\\b(?:export\\s+)?type\\s+{symbol}\\b"@),
            ("enum"@, "\\b(?:export\\s+)?enum\\s+{symbol}\\b"@),
        ]
    } else if language == "rust"@ {
        seq![
            ("function"@, "\\b(?:pub\\s+)?(?:async\\s+)?fn\\s+{symbol}\\b"@),
            ("struct"@, "\\b(?:pub\\s+)?struct\\s+{symbol}\\b"@),
            ("enum"@, "\\b(?:pub\\s+)?enum\\s+{symbol}\\b"@),
            ("trait"@, "\\b(?:pub\\s+)?trait\\s+{symbol}\\b"@),
            ("type"@, "\\b(?:pub\\s+)?type\\s+{symbol}\\b"@),
            ("const"@, "\\b(?:pub\\s+)?const\\s+{symbol}\\b"@),
            ("mod"@, "\\b(?:pub\\s+)?mod\\s+{symbol}\\b"@),
        ]
    } else if language == "python"@ {
        seq![
            ("function"@, "\\bdef\\s+{symbol}\\b"@),
            ("class"@, "\\bclass\\s+{symbol}\\b"@),
        ]
    } else if language == "go"@ {
        seq![
            ("function"@, "\\bfunc\\s+{symbol}\\b"@),
            ("type"@, "\\btype\\s+{symbol}\\b"@),
            ("var"@, "\\bvar\\s+{symbol}\\b"@),
            ("const"@, "\\bconst\\s+{symbol}\\b"@),
        ]
    } else {
        seq![
            ("function"@, "\\bfunction\\s+{symbol}\\b"@),
            ("class"@, "\\bclass\\s+{symbol}\\b"@),
        ]
    }
}

/// The definition patterns for a language, kind first, template second.
pub fn get_definition_patterns(language: &str) -> (r: Vec<(&'static str, String)>)
    ensures
        r@.map_values(|p: (&'static str, String)| (p.0@, p.1@)) == spec_definition_patterns(
            language@,
        ),
{
    let lv = chars_vec(language);
    let mut out: Vec<(&'static str, String)> = Vec::new();
    if chars_eq_str(&lv, "typescript") || chars_eq_str(&lv, "typescriptreact") || chars_eq_str(
        &lv,
        "javascript",
    ) || chars_eq_str(&lv, "javascriptreact") {
        out.push(("function", "\\b(?:export\\s+)?(?:async\\s+)?function\\s+{symbol}\\b".to_owned()));
        out.push(("variable", "\\b(?:export\\s+)?(?:const|let|var)\\s+{symbol}\\b".to_owned()));
        out.push(("class", "\\b(?:export\\s+)?class\\s+{symbol}\\b".to_owned()));
        out.push(("interface", "\\b(?:export\\s+)?interface\\s+{symbol}\\b".to_owned()));
        out.push(("type", "\\b(?:export\\s+)?type\\s+{symbol}\\b".to_owned()));
        out.push(("enum", "\\b(?:export\\s+)?enum\\s+{symbol}\\b".to_owned()));
    } else if chars_eq_str(&lv, "rust") {
        out.push(("function", "\\b(?:pub\\s+)?(?:async\\s+)?fn\\s+{symbol}\\b".to_owned()));
        out.push(("struct", "\\b(?:pub\\s+)?struct\\s+{symbol}\\b".to_owned()));
        out.push(("enum", "\\b(?:pub\\s+)?enum\\s+{symbol}\\b".to_owned()));
        out.push(("trait", "\\b(?:pub\\s+)?trait\\s+{symbol}\\b".to_owned()));
        out.push(("type", "\\b(?:pub\\s+)?type\\s+{symbol}\\b".to_owned()));
        out.push(("const", "\\b(?:pub\\s+)?const\\s+{symbol}\\b".to_owned()));
        out.push(("mod", "\\b(?:pub\\s+)?mod\\s+{symbol}\\b".to_owned()));
    } else if chars_eq_str(&lv, "python") {
        out.push(("function", "\\bdef\\s+{symbol}\\b".to_owned()));
        out.push(("class", "\\bclass\\s+{symbol}\\b".to_owned()));
    } else if chars_eq_str(&lv, "go") {
        out.push(("function", "\\bfunc\\s+{symbol}\\b".to_owned()));
        out.push(("type", "\\btype\\s+{symbol}\\b".to_owned()));
        out.push(("var", "\\bvar\\s+{symbol}\\b".to_owned()));
        out.push(("const", "\\bconst\\s+{symbol}\\b".to_owned()));
    } else {
        out.push(("function", "\\bfunction\\s+{symbol}\\b".to_owned()));
        out.push(("class", "\\bclass\\s+{symbol}\\b".to_owned()));
    }
    assert(out@.map_values(|p: (&'static str, String)| (p.0@, p.1@)) =~= spec_definition_patterns(
        language@,
    ));
    out
}

/// The file extensions searched for a language.
pub open spec fn spec_language_extensions(language: Seq<char>) -> Seq<Seq<char>> {
    if language == "typescript"@ || language == "typescriptreact"@ {
        seq!["ts"@, "tsx"@]
    } else if language == "javascript"@ || language == "javascriptreact"@ {
        seq!["js"@, "jsx"@]
    } else if language == "rust"@ {
        seq!["rs"@]
    } else if language == "python"@ {
        seq!["py"@]
    } else if language == "go"@ {
        seq!["go"@]
    } else {
        Seq::empty()
    }
}

pub fn language_extensions(language: &str) -> (r: Vec<&'static str>)
    ensures
        r@.map_values(|e: &'static str| e@) == spec_language_extensions(language@),
{
    let lv = chars_vec(language);
    let mut out: Vec<&'static str> = Vec::new();
    if chars_eq_str(&lv, "typescript") || chars_eq_str(&lv, "typescriptreact") {
        out.push("ts");
        out.push("tsx");
    } else if chars_eq_str(&lv, "javascript") || chars_eq_str(&lv, "javascriptreact") {
        out.push("js");
        out.push("jsx");
    } else if chars_eq_str(&lv, "rust") {
        out.push("rs");
    } else if chars_eq_str(&lv, "python") {
        out.push("py");
    } else if chars_eq_str(&lv, "go") {
        out.push("go");
    }
    assert(out@.map_values(|e: &'static str| e@) =~= spec_language_extensions(language@));
    out
}

} // verus!
