//! The configuration served to the AI agent: which prompt file stands for a
//! module in a locale and a level of detail, and which modules are core.
use vstd::prelude::*;
use vstd::string::StringExecFns;
use crate::text::{joined, same_text};

verus! {

/// Where the prompts live.
#[derive(Debug)]
pub struct AgentConfigServiceImpl {
    pub prompts_dir: String,
}

/// The prompts directory: the configured one, else `config/prompts`.
pub open spec fn prompts_dir_spec(configured: Option<Seq<char>>) -> Seq<char> {
    match configured {
        Some(d) => d,
        None => "config/prompts"@,
    }
}

impl AgentConfigServiceImpl {
    /// The service, reading its prompts from `configured` (the `PROMPTS_DIR`
    /// setting) or from `config/prompts`.
    pub fn new(configured: Option<String>) -> (r: AgentConfigServiceImpl)
        ensures
            r.prompts_dir@ == prompts_dir_spec(
                match configured {
                    Some(d) => Some(d@),
                    None => None,
                },
            ),
    {
        match configured {
            Some(d) => AgentConfigServiceImpl { prompts_dir: d },
            None => AgentConfigServiceImpl { prompts_dir: String::from_str("config/prompts") },
        }
    }
}

/// A request's locale, `es` when it gives none.
pub open spec fn locale_or_default(locale: Seq<char>) -> Seq<char> {
    if locale.len() == 0 {
        "es"@
    } else {
        locale
    }
}

/// A request's level of detail, `full` when it gives none.
pub open spec fn level_or_default(level: Seq<char>) -> Seq<char> {
    if level.len() == 0 {
        "full"@
    } else {
        level
    }
}

/// The locale and the level of detail of a request, with their defaults.
pub fn request_defaults(locale: &str, level: &str) -> (r: (String, String))
    ensures
        r.0@ == locale_or_default(locale@),
        r.1@ == level_or_default(level@),
{
    let l = if locale.is_empty() {
        String::from_str("es")
    } else {
        locale.to_owned()
    };
    let p = if level.is_empty() {
        String::from_str("full")
    } else {
        level.to_owned()
    };
    (l, p)
}

/// The prompt files of a module, in the order in which they are tried: for
/// the compact level the compact file of the locale first; then the full
/// file of the locale; then the Spanish file of the level.
pub open spec fn prompt_files(locale: Seq<char>, level: Seq<char>) -> Seq<Seq<char>> {
    if level == "compact"@ {
        seq![locale + "_compact.txt"@, locale + ".txt"@, "es_compact.txt"@]
    } else {
        seq![locale + ".txt"@, "es.txt"@]
    }
}

/// The prompt files of a module, in the order in which they are tried; the
/// first that can be read is the prompt, and none gives an empty prompt.
pub fn prompt_candidates(locale: &str, level: &str) -> (r: Vec<String>)
    ensures
        r@.map_values(|s: String| s@) == prompt_files(locale@, level@),
{
    let mut r: Vec<String> = Vec::new();
    if same_text(level, "compact") {
        r.push(joined(locale, "_compact.txt"));
        r.push(joined(locale, ".txt"));
        r.push(String::from_str("es_compact.txt"));
    } else {
        r.push(joined(locale, ".txt"));
        r.push(String::from_str("es.txt"));
    }
    assert(r@.map_values(|s: String| s@) =~= prompt_files(locale@, level@));
    r
}

/// The modules that the agent always loads.
pub open spec fn is_core_module_spec(name: Seq<char>) -> bool {
    name == "navigation"@ || name == "form_autofill"@ || name == "deletions"@
}

/// Whether the agent always loads the module `name`.
pub fn is_core_module(name: &str) -> (r: bool)
    ensures
        r == is_core_module_spec(name@),
{
    same_text(name, "navigation") || same_text(name, "form_autofill") || same_text(name, "deletions")
}

} // verus!
