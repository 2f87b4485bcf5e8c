//! What the runtime hands to a render backend, and what comes back.
use vstd::prelude::*;
use crate::text::copy_string;
use crate::value::Value;

verus! {

/// A choice presented to the user (link to another passage).
#[derive(Debug)]
pub struct Choice {
    pub label: String,
    pub target: String,
    /// If false, the choice is displayed but greyed out / not clickable.
    pub enabled: bool,
    pub tooltip: Option<String>,
}

/// The content of a `Choice`.
pub struct ChoiceModel {
    pub label: Seq<char>,
    pub target: Seq<char>,
    pub enabled: bool,
    pub tooltip: Option<Seq<char>>,
}

pub open spec fn opt_text(o: Option<String>) -> Option<Seq<char>> {
    match o {
        Some(s) => Some(s@),
        None => None,
    }
}

impl Choice {
    pub open spec fn model(&self) -> ChoiceModel {
        ChoiceModel {
            label: self.label@,
            target: self.target@,
            enabled: self.enabled,
            tooltip: opt_text(self.tooltip),
        }
    }

    /// A choice with the same content.
    pub fn copy(&self) -> (r: Choice)
        ensures
            r.model() == self.model(),
    {
        Choice {
            label: copy_string(&self.label),
            target: copy_string(&self.target),
            enabled: self.enabled,
            tooltip: match &self.tooltip {
                Some(t) => Some(copy_string(t)),
                None => None,
            },
        }
    }
}

pub open spec fn choices_model(v: Seq<Choice>) -> Seq<ChoiceModel> {
    Seq::new(v.len(), |i: int| v[i].model())
}

/// Copy a list of choices.
pub fn copy_choices(v: &Vec<Choice>) -> (r: Vec<Choice>)
    ensures
        choices_model(r@) == choices_model(v@),
{
    let mut r: Vec<Choice> = Vec::new();
    let mut i: usize = 0;
    while i < v.len()
        invariant
            i <= v.len(),
            choices_model(r@) == choices_model(v@).take(i as int),
        decreases v.len() - i,
    {
        let c = v[i].copy();
        let ghost old_r = r@;
        assert(choices_model(old_r).len() == i);
        r.push(c);
        assert(r@ == old_r.push(c));
        assert forall|j: int| 0 <= j < r@.len() implies #[trigger] choices_model(r@)[j]
            == choices_model(v@).take(i + 1)[j] by {
            if j < i {
                assert(r@[j] == old_r[j]);
                assert(choices_model(old_r)[j] == choices_model(v@).take(i as int)[j]);
            }
        }
        assert(choices_model(r@) =~= choices_model(v@).take(i + 1));
        i = i + 1;
    }
    assert(choices_model(v@).take(v.len() as int) =~= choices_model(v@));
    r
}

/// Render commands pushed from the engine to the render backend.
#[derive(Debug)]
pub enum RenderCommand {
    /// Clear the current output.
    Clear,
    /// Render a block of text.
    Text(String),
    /// Start streaming LLM output (backend should switch to streaming mode).
    StreamBegin,
    /// A single token from a streaming LLM response.
    StreamToken(String),
    /// Streaming has completed.
    StreamEnd,
    /// Streaming failed; the backend should render this fallback text directly.
    StreamFailed { fallback: String },
    /// Present a set of choices to the user.
    Choice(Vec<Choice>),
    /// Request text input from the user.
    Input { prompt: String, default: Option<String> },
    /// A horizontal rule / separator.
    Separator,
}

/// The content of a `RenderCommand`.
pub enum CmdModel {
    Clear,
    Text(Seq<char>),
    StreamBegin,
    StreamToken(Seq<char>),
    StreamEnd,
    StreamFailed(Seq<char>),
    Choice(Seq<ChoiceModel>),
    Input(Seq<char>, Option<Seq<char>>),
    Separator,
}

impl RenderCommand {
    pub open spec fn model(&self) -> CmdModel {
        match self {
            RenderCommand::Clear => CmdModel::Clear,
            RenderCommand::Text(s) => CmdModel::Text(s@),
            RenderCommand::StreamBegin => CmdModel::StreamBegin,
            RenderCommand::StreamToken(s) => CmdModel::StreamToken(s@),
            RenderCommand::StreamEnd => CmdModel::StreamEnd,
            RenderCommand::StreamFailed { fallback } => CmdModel::StreamFailed(fallback@),
            RenderCommand::Choice(v) => CmdModel::Choice(choices_model(v@)),
            RenderCommand::Input { prompt, default } => CmdModel::Input(prompt@, opt_text(*default)),
            RenderCommand::Separator => CmdModel::Separator,
        }
    }
}

pub open spec fn cmds_model(v: Seq<RenderCommand>) -> Seq<CmdModel> {
    Seq::new(v.len(), |i: int| v[i].model())
}

/// Signals produced by `NarrativeRuntime::step()`.  The render backend
/// acts on these to drive the UI.
#[derive(Debug)]
pub enum StepResult {
    /// Normal render output — the backend should display these commands.
    Render(Vec<RenderCommand>),
    /// The engine is waiting for the user to pick a choice.
    WaitingForChoice,
    /// The engine is waiting for free-form text input.
    WaitingForInput { prompt: String, default: Option<String> },
    /// The engine is waiting for an LLM response; the backend feeds the
    /// result back via `feed_stream_token()` / `end_stream()`.
    WaitingForStream {
        prompt: String,
        fallback: String,
        cache_key: Option<String>,
        context: LLMContext,
    },
    /// The narrative has ended (no more passages).
    Finished,
}

/// Context passed alongside an LLM request to help the model understand
/// the narrative position.
#[derive(Debug)]
pub struct LLMContext {
    pub passage_name: String,
    pub passage_tags: Vec<String>,
    pub story_title: String,
    /// Recent passage output text (token-truncated ring buffer).
    pub recent_text: Vec<String>,
    /// State variables marked as visible to the LLM, each name once.
    pub visible_state: Vec<(String, Value)>,
}

/// User input — fed back into the engine after a pause.
#[derive(Debug)]
pub enum UserInput {
    /// The user chose a link target.
    Choice(usize),
    /// The user typed some text.
    Text(String),
}

} // verus!
