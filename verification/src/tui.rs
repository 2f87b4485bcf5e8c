//! The screen of the terminal front end: what it shows, how render commands
//! change it, and what the front end does after each step of the runtime.
//! Drawing to the terminal and reading keys are the front end's own.
use vstd::prelude::*;
use crate::render::RenderBackend;
use crate::text::{
    concat2, concat3, copy_string, join_strings, join_texts, nat_text, push_str, string_of,
    strings_model, usize_to_string,
};
use crate::types::{
    Choice, ChoiceModel, CmdModel, RenderCommand, StepResult, choices_model, cmds_model,
    copy_choices, opt_text,
};

verus! {

/// What the terminal shows: the text lines, the choices on offer, and
/// whether streamed tokens extend the last line.
#[derive(Debug)]
pub struct TuiScreen {
    pub text_lines: Vec<String>,
    pub choices: Vec<Choice>,
    pub in_stream: bool,
}

/// The content of a `TuiScreen`.
pub struct ScreenModel {
    pub lines: Seq<Seq<char>>,
    pub choices: Seq<ChoiceModel>,
    pub in_stream: bool,
}

impl TuiScreen {
    pub open spec fn model(&self) -> ScreenModel {
        ScreenModel {
            lines: strings_model(self.text_lines@),
            choices: choices_model(self.choices@),
            in_stream: self.in_stream,
        }
    }
}

/// An empty screen.
pub open spec fn blank_screen() -> ScreenModel {
    ScreenModel { lines: Seq::empty(), choices: Seq::empty(), in_stream: false }
}

/// What one render command does to the screen.  A streamed token extends
/// the last line while a stream is open (and starts a line where there is
/// none); otherwise it is a line of its own.
pub open spec fn screen_apply(m: ScreenModel, c: CmdModel) -> ScreenModel {
    match c {
        CmdModel::Clear => ScreenModel { lines: Seq::empty(), choices: Seq::empty(), ..m },
        CmdModel::Text(s) => ScreenModel { lines: m.lines.push(s), ..m },
        CmdModel::StreamBegin => ScreenModel { in_stream: true, ..m },
        CmdModel::StreamToken(t) => if m.in_stream && m.lines.len() > 0 {
            ScreenModel { lines: m.lines.update(m.lines.len() - 1, m.lines.last() + t), ..m }
        } else {
            ScreenModel { lines: m.lines.push(t), ..m }
        },
        CmdModel::StreamEnd => ScreenModel { in_stream: false, ..m },
        CmdModel::StreamFailed(f) => ScreenModel { lines: m.lines.push(f), in_stream: false, ..m },
        CmdModel::Choice(cs) => ScreenModel { choices: cs, ..m },
        CmdModel::Input(_, _) => m,
        CmdModel::Separator => ScreenModel { lines: m.lines.push(Seq::empty()), ..m },
    }
}

/// What a batch of render commands does, in order.
pub open spec fn screen_apply_all(m: ScreenModel, cs: Seq<CmdModel>) -> ScreenModel
    decreases cs.len(),
{
    if cs.len() == 0 {
        m
    } else {
        screen_apply(screen_apply_all(m, cs.drop_last()), cs.last())
    }
}

/// The list entry of choice `i`: its number, or `[x]` where it is disabled,
/// then its label.
pub open spec fn choice_item(i: int, c: ChoiceModel) -> Seq<char> {
    " "@ + (if c.enabled {
        "["@ + nat_text((i + 1) as nat) + "]"@
    } else {
        "[x]"@
    }) + " "@ + c.label
}

/// The choice that key `c` picks: digits `1` to `9` number the choices.
pub open spec fn key_choice(c: char, n: int) -> Option<usize> {
    if '1' <= c <= '9' && (c as int) - ('1' as int) < n {
        Some(((c as int) - ('1' as int)) as usize)
    } else {
        None
    }
}

/// What the front end does after a step of the runtime.
#[derive(Debug)]
pub enum TuiAction {
    /// Wait for a choice (drawing first where `redraw`).
    Choose { redraw: bool },
    /// Draw and go on with the next step.
    Show,
    /// Draw, then read a line of text that starts as `default`.
    Ask { default: Option<String> },
    /// End the pending stream with this error.
    EndStream { error: String },
    /// Draw, wait for any key and stop.
    End,
}

/// A key while a line of text is being typed.
#[derive(Debug, Clone, Copy, PartialEq, Eq, Structural)]
pub enum InputKey {
    Enter,
    Esc,
    Char(char),
    Backspace,
    Other,
}

/// What a key does to the line being typed.
#[derive(Debug)]
pub enum InputStep {
    /// The line is done.
    Submit(String),
    /// Typing was abandoned.
    Cancel,
    /// The line changed (or not) and typing goes on.
    Editing,
}

/// What a key does while a choice is awaited.
#[derive(Debug)]
pub enum ChoiceStep {
    /// `q` or Esc: stop the story.
    Quit,
    /// A digit key picks the choice with this index.
    Pick(usize),
    /// Any other key: keep waiting.
    Wait,
}

impl TuiScreen {
    /// What a key does while a choice is awaited: `q` and Esc quit, the
    /// digit of a choice on offer picks it, other keys are ignored.
    pub fn on_choice_key(&self, key: InputKey) -> (r: ChoiceStep)
        ensures
            match key {
                InputKey::Esc => r is Quit,
                InputKey::Char(c) => if c == 'q' {
                    r is Quit
                } else {
                    match key_choice(c, self.choices@.len() as int) {
                        Some(i) => r == ChoiceStep::Pick(i),
                        None => r is Wait,
                    }
                },
                _ => r is Wait,
            },
    {
        match key {
            InputKey::Esc => ChoiceStep::Quit,
            InputKey::Char(c) => {
                if c == 'q' {
                    ChoiceStep::Quit
                } else {
                    match self.choice_key(c) {
                        Some(i) => ChoiceStep::Pick(i),
                        None => ChoiceStep::Wait,
                    }
                }
            },
            _ => ChoiceStep::Wait,
        }
    }
}

impl TuiScreen {
    /// An empty screen.
    pub fn new() -> (r: TuiScreen)
        ensures
            r.model() == blank_screen(),
    {
        let r = TuiScreen { text_lines: Vec::new(), choices: Vec::new(), in_stream: false };
        assert(r.model().lines =~= Seq::<Seq<char>>::empty());
        assert(r.model().choices =~= Seq::<ChoiceModel>::empty());
        r
    }

    /// Add a line of text.
    pub fn push_line(&mut self, line: String)
        ensures
            final(self).model() == (ScreenModel { lines: old(self).model().lines.push(line@), ..old(self).model() }),
    {
        let ghost before = self.text_lines@;
        self.text_lines.push(line);
        assert(strings_model(self.text_lines@) =~= strings_model(before).push(line@));
    }

    fn apply_one(&mut self, cmd: &RenderCommand)
        ensures
            final(self).model() == screen_apply(old(self).model(), cmd.model()),
    {
        let ghost m = self.model();
        match cmd {
            RenderCommand::Clear => {
                self.text_lines = Vec::new();
                self.choices = Vec::new();
                assert(self.model().lines =~= Seq::<Seq<char>>::empty());
                assert(self.model().choices =~= Seq::<ChoiceModel>::empty());
            },
            RenderCommand::Text(s) => {
                self.push_line(copy_string(s));
            },
            RenderCommand::StreamBegin => {
                self.in_stream = true;
            },
            RenderCommand::StreamToken(t) => {
                if self.in_stream && self.text_lines.len() > 0 {
                    let ghost before = self.text_lines@;
                    let n = self.text_lines.len();
                    let mut last = self.text_lines.pop().unwrap();
                    assert(last@ == before[n - 1]@);
                    push_str(&mut last, t.as_str());
                    self.text_lines.push(last);
                    assert(strings_model(self.text_lines@) =~= m.lines.update(
                        m.lines.len() - 1,
                        m.lines.last() + t@,
                    ));
                } else {
                    self.push_line(copy_string(t));
                }
            },
            RenderCommand::StreamEnd => {
                self.in_stream = false;
            },
            RenderCommand::StreamFailed { fallback } => {
                self.in_stream = false;
                self.push_line(copy_string(fallback));
            },
            RenderCommand::Choice(cs) => {
                self.choices = copy_choices(cs);
            },
            RenderCommand::Input { .. } => {},
            RenderCommand::Separator => {
                self.push_line(String::new());
            },
        }
    }

    /// Apply a batch of render commands, in order.
    pub fn apply_commands(&mut self, commands: Vec<RenderCommand>)
        ensures
            final(self).model() == screen_apply_all(old(self).model(), cmds_model(commands@)),
    {
        let ghost start = self.model();
        let ghost cs = cmds_model(commands@);
        let mut k: usize = 0;
        assert(cs.take(0) =~= Seq::<CmdModel>::empty());
        while k < commands.len()
            invariant
                k <= commands.len(),
                cs == cmds_model(commands@),
                self.model() == screen_apply_all(start, cs.take(k as int)),
            decreases commands.len() - k,
        {
            let ghost t = cs.take(k + 1);
            assert(t.drop_last() =~= cs.take(k as int));
            self.apply_one(&commands[k]);
            k = k + 1;
        }
        assert(cs.take(commands.len() as int) =~= cs);
    }

    /// The text lines joined by newlines, as the text pane shows them.
    pub fn text(&self) -> (r: String)
        ensures
            r@ == join_texts(self.model().lines, "\n"@),
    {
        join_strings(&self.text_lines, "\n")
    }

    /// The entries of the choice list.
    pub fn choice_items(&self) -> (r: Vec<String>)
        ensures
            r@.len() == self.choices@.len(),
            forall|i: int|
                0 <= i < r@.len() ==> #[trigger] r@[i]@ == choice_item(i, self.model().choices[i]),
    {
        proof {
            reveal_strlit(" ");
            reveal_strlit("[");
            reveal_strlit("]");
            reveal_strlit("[x]");
        }
        let mut out: Vec<String> = Vec::new();
        let mut i: usize = 0;
        while i < self.choices.len()
            invariant
                i <= self.choices.len(),
                out@.len() == i,
                forall|j: int|
                    0 <= j < i ==> #[trigger] out@[j]@ == choice_item(j, self.model().choices[j]),
            decreases self.choices.len() - i,
        {
            let c = &self.choices[i];
            let prefix = if c.enabled {
                let num = usize_to_string(i + 1);
                concat3("[", num.as_str(), "]")
            } else {
                String::from_str("[x]")
            };
            let head = concat3(" ", prefix.as_str(), " ");
            let item = concat2(head.as_str(), c.label.as_str());
            assert(item@ =~= choice_item(i as int, self.model().choices[i as int]));
            out.push(item);
            i = i + 1;
        }
        out
    }

    /// The choice that a key picks, if it picks one on offer.
    pub fn choice_key(&self, c: char) -> (r: Option<usize>)
        ensures
            r == key_choice(c, self.choices@.len() as int),
    {
        if '1' <= c && c <= '9' {
            let d = (c as u32) - ('1' as u32);
            if (d as usize) < self.choices.len() {
                return Some(d as usize);
            }
        }
        None
    }

    /// Show that navigating to the start passage failed.
    pub fn start_failed(&mut self, start: &str, error: &str)
        ensures
            final(self).model() == (ScreenModel {
                lines: old(self).model().lines.push(
                    "Error navigating to '"@ + start@ + "': "@ + error@,
                ),
                ..old(self).model()
            }),
    {
        let a = concat3("Error navigating to '", start, "': ");
        self.push_line(concat2(a.as_str(), error));
    }

    /// Take in what a step of the runtime gave, and say what to do next.
    /// Rendered output replaces the screen; waiting for a choice with none
    /// on offer shows a notice; a text prompt is shown; a stream cannot be
    /// served here and is ended with an error; the end is announced.
    pub fn on_step(&mut self, result: StepResult) -> (r: TuiAction)
        ensures
            match result {
                StepResult::Render(v) => {
                    &&& final(self).model() == screen_apply_all(blank_screen(), cmds_model(v@))
                    &&& if final(self).choices@.len() > 0 {
                        r == TuiAction::Choose { redraw: true }
                    } else {
                        r is Show
                    }
                },
                StepResult::WaitingForChoice => if old(self).choices@.len() == 0 {
                    &&& final(self).model() == (ScreenModel {
                        lines: old(self).model().lines.push(
                            "[Internal: WaitingForChoice with no choices]"@,
                        ),
                        ..old(self).model()
                    })
                    &&& r == TuiAction::Choose { redraw: true }
                } else {
                    final(self).model() == old(self).model() && r == TuiAction::Choose {
                        redraw: false,
                    }
                },
                StepResult::WaitingForInput { prompt, default } => {
                    &&& final(self).model() == (ScreenModel {
                        lines: old(self).model().lines.push(prompt@),
                        ..old(self).model()
                    })
                    &&& r matches TuiAction::Ask { default: d } && opt_text(d) == opt_text(default)
                },
                StepResult::WaitingForStream { .. } => {
                    &&& final(self).model() == old(self).model()
                    &&& r matches TuiAction::EndStream { error } && error@
                        == "LLM unavailable (Phase 1)"@
                },
                StepResult::Finished => {
                    &&& final(self).model() == (ScreenModel {
                        lines: old(self).model().lines.push(Seq::empty()).push("— The End —"@),
                        ..old(self).model()
                    })
                    &&& r is End
                },
            },
    {
        match result {
            StepResult::Render(cmds) => {
                self.text_lines = Vec::new();
                self.choices = Vec::new();
                self.in_stream = false;
                assert(self.model().lines =~= Seq::<Seq<char>>::empty());
                assert(self.model().choices =~= Seq::<ChoiceModel>::empty());
                self.apply_commands(cmds);
                if self.choices.len() > 0 {
                    TuiAction::Choose { redraw: true }
                } else {
                    TuiAction::Show
                }
            },
            StepResult::WaitingForChoice => {
                if self.choices.len() == 0 {
                    self.push_line(String::from_str("[Internal: WaitingForChoice with no choices]"));
                    TuiAction::Choose { redraw: true }
                } else {
                    TuiAction::Choose { redraw: false }
                }
            },
            StepResult::WaitingForInput { prompt, default } => {
                self.push_line(prompt);
                TuiAction::Ask { default }
            },
            StepResult::WaitingForStream { .. } => {
                TuiAction::EndStream { error: String::from_str("LLM unavailable (Phase 1)") }
            },
            StepResult::Finished => {
                self.push_line(String::new());
                self.push_line(String::from_str("— The End —"));
                TuiAction::End
            },
        }
    }
}

impl RenderBackend for TuiScreen {
    fn render(&mut self, commands: Vec<RenderCommand>)
        ensures
            final(self).model() == screen_apply_all(old(self).model(), cmds_model(commands@)),
    {
        self.apply_commands(commands);
    }

    fn clear(&mut self)
        ensures
            final(self).model() == (ScreenModel {
                lines: Seq::empty(),
                choices: Seq::empty(),
                ..old(self).model()
            }),
    {
        self.text_lines = Vec::new();
        self.choices = Vec::new();
        assert(self.model().lines =~= Seq::<Seq<char>>::empty());
        assert(self.model().choices =~= Seq::<ChoiceModel>::empty());
    }
}

/// The line that shows the text being typed.
pub fn input_line(input: &Vec<char>) -> (r: String)
    ensures
        r@ == "> "@ + input@,
{
    let s = string_of(input);
    concat2("> ", s.as_str())
}

/// What a key does to the text being typed: Enter hands it in, Esc
/// abandons it, a character is added, Backspace takes the last one away.
pub fn edit_input(input: &mut Vec<char>, key: InputKey) -> (r: InputStep)
    ensures
        match key {
            InputKey::Enter => (r matches InputStep::Submit(s) && s@ == old(input)@) && final(input)@
                == old(input)@,
            InputKey::Esc => r is Cancel && final(input)@ == old(input)@,
            InputKey::Char(c) => r is Editing && final(input)@ == old(input)@.push(c),
            InputKey::Backspace => r is Editing && final(input)@ == (if old(input)@.len() > 0 {
                old(input)@.drop_last()
            } else {
                old(input)@
            }),
            InputKey::Other => r is Editing && final(input)@ == old(input)@,
        },
{
    match key {
        InputKey::Enter => InputStep::Submit(string_of(input)),
        InputKey::Esc => InputStep::Cancel,
        InputKey::Char(c) => {
            input.push(c);
            InputStep::Editing
        },
        InputKey::Backspace => {
            if input.len() > 0 {
                input.pop();
            }
            InputStep::Editing
        },
        InputKey::Other => InputStep::Editing,
    }
}

/// Applying two batches of commands one after the other shows what
/// applying them as one batch does.
pub proof fn law_screen_batches(m: ScreenModel, a: Seq<CmdModel>, b: Seq<CmdModel>)
    ensures
        screen_apply_all(screen_apply_all(m, a), b) == screen_apply_all(m, a + b),
    decreases b.len(),
{
    if b.len() == 0 {
        assert(a + b =~= a);
    } else {
        law_screen_batches(m, a, b.drop_last());
        assert((a + b).drop_last() =~= a + b.drop_last());
        assert((a + b).last() == b.last());
    }
}

} // verus!
