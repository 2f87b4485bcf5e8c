//! The render abstraction, and a backend that records what it is given.
use vstd::prelude::*;
use crate::text::{join_strings, join_texts, strings_model};
use crate::types::{Choice, ChoiceModel, CmdModel, RenderCommand, choices_model, cmds_model};

verus! {

/// What every render backend (TUI, Web, GUI) implements.
///
/// The engine pushes `RenderCommand` batches via `render()`, and the backend
/// decides how to display them.
pub trait RenderBackend {
    /// Render a batch of commands to the output device.
    fn render(&mut self, commands: Vec<RenderCommand>);

    /// Clear the output screen.
    fn clear(&mut self);
}

/// A backend that records everything rendered, for tests.
#[derive(Debug)]
pub struct MockBackend {
    /// All text lines produced by `render()` calls, in order.
    pub output: Vec<String>,
    /// All choice lists emitted, in order.
    pub choices: Vec<Vec<Choice>>,
}

/// The recorded text and choice lists of a `MockBackend`.
pub struct MockModel {
    pub output: Seq<Seq<char>>,
    pub choices: Seq<Seq<ChoiceModel>>,
}

impl MockBackend {
    pub open spec fn model(&self) -> MockModel {
        MockModel {
            output: strings_model(self.output@),
            choices: Seq::new(self.choices@.len(), |i: int| choices_model(self.choices@[i]@)),
        }
    }
}

/// What a `MockBackend` records for one command.
pub open spec fn mock_apply(m: MockModel, c: CmdModel) -> MockModel {
    match c {
        CmdModel::Clear => MockModel { output: Seq::empty(), ..m },
        CmdModel::Text(s) => MockModel { output: m.output.push(s), ..m },
        CmdModel::StreamBegin => MockModel { output: m.output.push("[stream begin]"@), ..m },
        CmdModel::StreamToken(t) => MockModel { output: m.output.push("[token: "@ + t + "]"@), ..m },
        CmdModel::StreamEnd => MockModel { output: m.output.push("[stream end]"@), ..m },
        CmdModel::StreamFailed(f) => MockModel { output: m.output.push(f), ..m },
        CmdModel::Choice(cs) => MockModel { choices: m.choices.push(cs), ..m },
        CmdModel::Input(_, _) => m,
        CmdModel::Separator => MockModel { output: m.output.push("---"@), ..m },
    }
}

/// What a `MockBackend` records for a batch of commands, in order.
pub open spec fn mock_apply_all(m: MockModel, cs: Seq<CmdModel>) -> MockModel
    decreases cs.len(),
{
    if cs.len() == 0 {
        m
    } else {
        mock_apply(mock_apply_all(m, cs.drop_last()), cs.last())
    }
}

impl MockBackend {
    /// An empty recorder.
    pub fn new() -> (r: MockBackend)
        ensures
            r.output@.len() == 0,
            r.choices@.len() == 0,
    {
        MockBackend { output: Vec::new(), choices: Vec::new() }
    }

    /// All rendered text as a single string joined by newlines.
    pub fn text(&self) -> (r: String)
        ensures
            r@ == join_texts(self.model().output, "\n"@),
    {
        join_strings(&self.output, "\n")
    }

    /// The most recent choice list, if any.
    pub fn last_choices(&self) -> (r: Option<&[Choice]>)
        ensures
            self.choices@.len() == 0 ==> r is None,
            self.choices@.len() > 0 ==> (r matches Some(s) && s@ == self.choices@.last()@),
    {
        if self.choices.len() == 0 {
            None
        } else {
            Some(self.choices[self.choices.len() - 1].as_slice())
        }
    }

    fn record(&mut self, cmd: RenderCommand)
        ensures
            final(self).model() == mock_apply(old(self).model(), cmd.model()),
    {
        let ghost before = self.model();
        match cmd {
            RenderCommand::Clear => {
                self.output = Vec::new();
                assert(strings_model(self.output@) =~= Seq::empty());
            },
            RenderCommand::Text(s) => {
                self.output.push(s);
                assert(strings_model(self.output@) =~= before.output.push(cmd.model()->Text_0));
            },
            RenderCommand::StreamBegin => {
                self.output.push(String::from_str("[stream begin]"));
                assert(strings_model(self.output@) =~= before.output.push("[stream begin]"@));
            },
            RenderCommand::StreamToken(t) => {
                let mut line = String::from_str("[token: ");
                crate::text::push_str(&mut line, t.as_str());
                crate::text::push_str(&mut line, "]");
                self.output.push(line);
                assert(strings_model(self.output@) =~= before.output.push(
                    "[token: "@ + t@ + "]"@,
                ));
            },
            RenderCommand::StreamEnd => {
                self.output.push(String::from_str("[stream end]"));
                assert(strings_model(self.output@) =~= before.output.push("[stream end]"@));
            },
            RenderCommand::StreamFailed { fallback } => {
                self.output.push(fallback);
                assert(strings_model(self.output@) =~= before.output.push(
                    cmd.model()->StreamFailed_0,
                ));
            },
            RenderCommand::Choice(choices) => {
                let ghost cm = choices_model(choices@);
                self.choices.push(choices);
                assert(self.model().choices =~= before.choices.push(cm));
            },
            RenderCommand::Input { .. } => {},
            RenderCommand::Separator => {
                self.output.push(String::from_str("---"));
                assert(strings_model(self.output@) =~= before.output.push("---"@));
            },
        }
    }
}

impl RenderBackend for MockBackend {
    /// Record each command: text lines (streaming markers as bracketed
    /// lines, a separator as `---`), choice lists, and `Clear` empties the
    /// text.
    fn render(&mut self, commands: Vec<RenderCommand>)
        ensures
            final(self).model() == mock_apply_all(old(self).model(), cmds_model(commands@)),
    {
        let ghost start = self.model();
        let ghost all = commands@;
        let ghost cs = cmds_model(commands@);
        let mut rest = commands;
        let n = rest.len();
        let mut k: usize = 0;
        while rest.len() > 0
            invariant
                all.len() == n,
                k + rest@.len() == all.len(),
                cs == cmds_model(all),
                rest@ == all.skip(k as int),
                self.model() == mock_apply_all(start, cs.take(k as int)),
            decreases rest.len(),
        {
            let cmd = rest.remove(0);
            assert(cmd == all[k as int]);
            assert(rest@ =~= all.skip(k + 1));
            assert(cs.take(k + 1).drop_last() =~= cs.take(k as int));
            self.record(cmd);
            k = k + 1;
        }
        assert(cs.take(cs.len() as int) =~= cs);
    }

    /// Empty the recorded text.
    fn clear(&mut self)
        ensures
            final(self).output@.len() == 0,
            final(self).choices == old(self).choices,
    {
        self.output = Vec::new();
    }
}


/// Rendering two batches one after the other records what rendering them
/// as one batch does.
pub proof fn law_mock_batches(m: MockModel, a: Seq<CmdModel>, b: Seq<CmdModel>)
    ensures
        mock_apply_all(mock_apply_all(m, a), b) == mock_apply_all(m, a + b),
    decreases b.len(),
{
    if b.len() == 0 {
        assert(a + b =~= a);
    } else {
        law_mock_batches(m, a, b.drop_last());
        assert((a + b).drop_last() =~= a + b.drop_last());
        assert((a + b).last() == b.last());
    }
}

/// The choice list of the last `Choice` command of a batch, if it has one.
pub open spec fn last_choice_cmd(cs: Seq<CmdModel>) -> Option<Seq<ChoiceModel>>
    decreases cs.len(),
{
    if cs.len() == 0 {
        None
    } else {
        match cs.last() {
            CmdModel::Choice(c) => Some(c),
            _ => last_choice_cmd(cs.drop_last()),
        }
    }
}

/// After rendering any batch, the last choice list recorded is that of the
/// batch's last `Choice` command; a batch without one leaves the recorded
/// choice lists as they were.
pub proof fn law_last_choices_after_render(m: MockModel, cs: Seq<CmdModel>)
    ensures
        match last_choice_cmd(cs) {
            Some(c) => mock_apply_all(m, cs).choices.len() > 0 && mock_apply_all(m, cs).choices.last() == c,
            None => mock_apply_all(m, cs).choices == m.choices,
        },
    decreases cs.len(),
{
    if cs.len() > 0 {
        law_last_choices_after_render(m, cs.drop_last());
    }
}

} // verus!
