//! The narrative content tree produced by the inline parser.
use vstd::prelude::*;
use crate::expression::Expression;
use crate::value::Value;

verus! {

/// A node in the narrative content tree.
#[derive(Debug)]
pub enum ContentNode {
    /// Static text
    Text(String),
    /// Passage link `[[label -> target]]`
    Link {
        label: String,
        target: String,
        /// If present, the link is only clickable when this evaluates to true.
        enabled_if: Option<Expression>,
    },
    /// State variable interpolation `{state: "player.hp"}`
    StateInterp { path: String },
    /// Conditional block `{if: expr} ... {else} ... {end}`
    Conditional { condition: Expression, then_branch: Vec<ContentNode>, else_branch: Vec<ContentNode> },
    /// Sub-passage embed `{display: "passage_name"}`
    Display { passage: String },
    /// AI generation block `{ai: prompt | fallback}`
    AIBlock { mode: AIMode, prompt: String, fallback: String, cache_key: Option<String> },
    /// General macro call `{name: args}`
    Macro { name: String, args: Vec<MacroArg> },
}

/// How an AI block is generated.
#[derive(Debug, Clone, Copy, PartialEq, Eq, Structural)]
pub enum AIMode {
    /// Blocking AI generation
    Blocking,
    /// Streaming AI generation (tokens arrive progressively)
    Streaming,
    /// Cached AI generation (pre-generated at build time)
    Cached,
}

/// An argument to a macro call: key-value or positional.
#[derive(Debug)]
pub enum MacroArg {
    KeyValue(String, Value),
    Positional(Value),
}

} // verus!
