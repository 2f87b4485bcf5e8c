//! Pathos: an interactive narrative engine.
//!
//! The library holds the value and state model, the expression language, the
//! story-file parsers and the narrative runtime.  Floating-point arithmetic
//! is handed to the caller through `value::FloatArith`.
pub mod checks;
pub mod config;
pub mod error;
pub mod content;
pub mod expr_parser;
pub mod expression;
pub mod format;
pub mod hook;
pub mod inline;
pub mod macros;
pub mod passage;
pub mod pathos_parser;
pub mod render;
pub mod report;
pub mod runtime;
pub mod script;
pub mod state;
pub mod text;
pub mod toml_parser;
pub mod tui;
pub mod types;
pub mod value;

use vstd::prelude::*;
use crate::format::{FormatRegistry, ParseOutput, extension_of};
use crate::pathos_parser::{ConfigModel, PathosParser, pathos_accepts, pathos_output, pathos_spec};
use crate::toml_parser::{TomlError, TomlParser, TomlStory, toml_result};

verus! {

/// Parse a story file by its extension: `.toml` and `.pathos` files go to
/// their parsers; any other extension gives an output with one error.
pub fn parse_file(path: &str, source: &str, toml: TomlParser, pathos: PathosParser) -> (r: Option<
    ParseOutput,
>)
    ensures
        extension_of(path@) == "toml"@ ==> exists|d: Result<TomlStory, TomlError>|
            #[trigger] toml_result(r, d),
        extension_of(path@) == "pathos"@ ==> (r is Some <==> pathos_accepts(source@)),
        extension_of(path@) == "pathos"@ ==> (r matches Some(out) ==> exists|
            d: Result<ConfigModel, Seq<char>>,
        |
            #![trigger pathos_spec(source@, d)]
            pathos_spec(source@, d) matches Some((cfg, ms, pre)) && pathos_output(out, cfg, ms, pre)),
        extension_of(path@) != "toml"@ && extension_of(path@) != "pathos"@ ==> (r matches Some(out)
            && crate::format::diags_model(out.diagnostics@) == seq![
            crate::format::DiagModel {
                severity: crate::format::Severity::Error,
                message: "unsupported file format: ."@ + extension_of(path@),
                span: None,
            },
        ] && out.graph.nodes@.len() == 0 && out.graph.edges@.len() == 0),
{
    proof {
        reveal_strlit("toml");
        reveal_strlit("pathos");
    }
    let ext = crate::format::extension_exec(path);
    if crate::text::chars_eq_str(&ext, "toml") {
        toml.parse_source(source)
    } else if crate::text::chars_eq_str(&ext, "pathos") {
        pathos.parse_source(source)
    } else {
        Some(FormatRegistry::unsupported(path))
    }
}

} // verus!
