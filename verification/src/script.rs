//! Script languages, the signals a script can raise, and the state
//! operations that scripts reach through their `state` handle.
use vstd::prelude::*;
use crate::text::{find_char, find_char_in, str_chars, string_of, sub_chars, to_lowercase, trim,
    trim_start, trim_end, is_ws,
    trim_str, unicode_lowercase, string_eq_str, ascii_lower};
use crate::value::{Value, ValueModel, get_path, obj_remove, set_path};
use crate::error::{CoreError, ErrorModel};
use crate::runtime::{SignalModel, signal_model};
use crate::state::{StateModel, StoryState, is_metadata_path};
use crate::text::{chars_eq_str, chars_start_with};
use crate::text::concat2;

verus! {

/// The language tag of a script block, from a fenced code block's info
/// string.
#[derive(Debug, Clone, Copy, PartialEq, Eq, Structural)]
pub enum ScriptLang {
    Rhai,
}

impl ScriptLang {
    /// Parse a language tag from an info string (e.g. `"rhai"`): trimmed and
    /// lower-cased, it must name a supported language.
    pub fn from_info_string(s: &str) -> (r: Option<ScriptLang>)
        ensures
            r is Some <==> unicode_lowercase(trim(s@)) == "rhai"@,
            r matches Some(l) ==> l == ScriptLang::Rhai,
            (forall|i: int| 0 <= i < trim(s@).len() ==> (trim(s@)[i] as u32) < 128) ==> (r is Some
                <==> trim(s@).map_values(|c: char| ascii_lower(c)) == "rhai"@),
            all_ascii(s@) ==> (r is Some <==> normal_tag(s@) == "rhai"@),
    {
        proof {
            if all_ascii(s@) {
                lemma_trim_ascii(s@);
            }
        }
        let t = string_of(&trim_str(s));
        let lower = to_lowercase(t.as_str());
        if string_eq_str(&lower, "rhai") {
            Some(ScriptLang::Rhai)
        } else {
            None
        }
    }

    /// The canonical info string for this language.
    pub fn as_str(&self) -> (r: &str)
        ensures
            r@ == "rhai"@,
    {
        match self {
            ScriptLang::Rhai => "rhai",
        }
    }
}

/// Signal emitted by a script when it requests an immediate control-flow
/// change (navigation, restart).  `Continue` means the script completed normally.
#[derive(Debug)]
pub enum ScriptSignal {
    /// Script completed without requesting navigation.
    Continue,
    /// Script requested navigation to a passage.
    Goto(String),
    /// Script requested a story restart.
    Restart,
}

impl ScriptSignal {
    /// True if this signal represents a navigation request.
    pub fn is_navigation(&self) -> (r: bool)
        ensures
            r == !(self is Continue),
    {
        match self {
            ScriptSignal::Continue => false,
            _ => true,
        }
    }
}

/// The `random(min, max)` that scripts call: `min` when `min >= max`, else a
/// number in `min..max` fixed by the range.
pub open spec fn script_random_spec(min: i64, max: i64) -> int {
    if min >= max {
        min as int
    } else {
        let range = (max - min) as u64;
        let spread = vstd::wrapping::u64_specs::wrapping_add(
            vstd::wrapping::u64_specs::wrapping_mul(range, 17),
            3,
        );
        min + (spread % range) as int
    }
}

/// `random(min, max)` as scripts see it.
pub fn script_random(min: i64, max: i64) -> (r: i64)
    ensures
        r == script_random_spec(min, max),
        min < max ==> min <= r < max,
{
    if min >= max {
        return min;
    }
    let range: u64 = (max as i128 - min as i128) as u64;
    let spread: u64 = range.wrapping_mul(17).wrapping_add(3);
    let off: u64 = spread % range;
    (min as i128 + off as i128) as i64
}

/// `state.get(path)` in a script: the temp value, else the global one.
pub fn script_get<'a>(temp: &'a Value, globals: &'a Value, path: &str) -> (r: Option<&'a Value>)
    ensures
        r matches Some(v) ==> Some(v.model()) == match get_path(temp.model(), path@) {
            Some(t) => Some(t),
            None => get_path(globals.model(), path@),
        },
        r is None ==> get_path(temp.model(), path@) is None && get_path(globals.model(), path@) is None,
{
    match temp.get(path) {
        Some(v) => Some(v),
        None => globals.get(path),
    }
}

/// The integer at `path`, or 0 where there is none.
pub open spec fn int_or_zero(m: ValueModel, path: Seq<char>) -> int {
    match get_path(m, path) {
        Some(ValueModel::Int(i)) => i as int,
        _ => 0,
    }
}

/// Whether a script path names the metadata, which scripts may read but
/// never write.
fn metadata_path(path: &str) -> (r: bool)
    ensures
        r == is_metadata_path(path@),
{
    let pc = str_chars(path);
    chars_eq_str(&pc, "metadata") || chars_start_with(&pc, "metadata.")
}

/// `state.set(path, value)` in a script: a metadata path is refused and the
/// globals left as they are; otherwise the value is stored at `path` in the
/// globals (a path that `Value::set` refuses leaves them as they are).
pub fn script_set(globals: &mut Value, path: &str, v: Value) -> (r: Result<(), String>)
    ensures
        is_metadata_path(path@) ==> (r matches Err(e) && e@ == "cannot write to read-only metadata"@
            && *final(globals) == *old(globals)),
        !is_metadata_path(path@) ==> (r is Ok && match set_path(old(globals).model(), path@, v.model()) {
            Some(m) => final(globals).model() == m,
            None => final(globals).model() == old(globals).model(),
        }),
{
    if metadata_path(path) {
        return Err(String::from_str("cannot write to read-only metadata"));
    }
    let _ = globals.set(path, v);
    Ok(())
}

/// `state.inc(path)` (`up`) or `state.dec(path)` in a script: store the
/// integer at `path` (0 where there is none) plus or minus one, and return
/// it.  A metadata path is refused; a path that `Value::set` refuses leaves
/// the globals as they are.
pub fn script_step(globals: &mut Value, path: &str, up: bool) -> (r: Result<i64, String>)
    requires
        up ==> int_or_zero(old(globals).model(), path@) < i64::MAX,
        !up ==> int_or_zero(old(globals).model(), path@) > i64::MIN,
    ensures
        is_metadata_path(path@) ==> (r matches Err(e) && e@ == "cannot write to read-only metadata"@
            && *final(globals) == *old(globals)),
        !is_metadata_path(path@) ==> (r matches Ok(n) && n == int_or_zero(old(globals).model(), path@)
            + if up {
            1int
        } else {
            -1int
        } && match set_path(old(globals).model(), path@, ValueModel::Int(n)) {
            Some(m) => final(globals).model() == m,
            None => final(globals).model() == old(globals).model(),
        }),
{
    if metadata_path(path) {
        return Err(String::from_str("cannot write to read-only metadata"));
    }
    let cur: i64 = match globals.get(path) {
        Some(v) => match v.as_int() {
            Some(i) => i,
            None => 0,
        },
        None => 0,
    };
    let new = if up {
        cur + 1
    } else {
        cur - 1
    };
    let _ = globals.set(path, Value::Int(new));
    Ok(new)
}

/// The first `.`-separated segment of a path.
pub open spec fn first_segment(p: Seq<char>) -> Seq<char> {
    match find_char(p, '.') {
        Some(i) => p.take(i),
        None => p,
    }
}

/// `state.delete(path)` in a script: a metadata path is refused; otherwise
/// the top-level key named by the path's first segment is removed from the
/// globals, where they are an object.
pub fn script_delete(globals: &mut Value, path: &str) -> (r: Result<(), String>)
    ensures
        is_metadata_path(path@) ==> (r matches Err(e) && e@ == "cannot write to read-only metadata"@
            && *final(globals) == *old(globals)),
        !is_metadata_path(path@) ==> (r is Ok && match old(globals).model() {
            ValueModel::Object(e) => final(globals).model() == ValueModel::Object(
                obj_remove(e, first_segment(path@)),
            ),
            _ => final(globals).model() == old(globals).model(),
        }),
{
    if metadata_path(path) {
        return Err(String::from_str("cannot write to read-only metadata"));
    }
    let pc = str_chars(path);
    let key = match find_char_in(&pc, '.') {
        Some(i) => sub_chars(&pc, 0, i),
        None => pc,
    };
    proof {
        if let Some(i) = find_char(path@, '.') {
            assert(path@.subrange(0, i) =~= path@.take(i));
        }
    }
    let k = string_of(&key);
    globals.remove_key(k.as_str());
    Ok(())
}

/// How a script run ended, as the language engine that ran it reports it.
#[derive(Debug)]
pub enum ScriptRun {
    /// The script ran to its end with this value.
    Finished(Value),
    /// The script asked to go to a passage (`state.game_goto`).
    Goto(String),
    /// The script asked to restart the story (`state.game_restart`).
    Restart,
    /// The script was stopped for navigation without a recorded request.
    Interrupted,
    /// The script failed with this message.
    Failed(String),
}

/// A language engine that runs script code against the global and temp
/// variables.  The variables keep what the script wrote, also where it
/// stopped early; the metadata is out of its reach.  Nothing here is assumed
/// of what a run returns or writes (a script may draw random numbers):
/// `eval` states what holds whatever came back, and `script_outcome` maps
/// each result exactly.
pub trait ScriptRunner {
    fn run(&self, globals: &mut Value, temp: &mut Value, code: &str) -> ScriptRun;
}

/// What `eval` gives for a run: its value, or `null` and the signal of a
/// navigation request, or a script error.
pub open spec fn run_result(run: ScriptRun) -> Result<(ValueModel, SignalModel), ErrorModel> {
    match run {
        ScriptRun::Finished(v) => Ok((v.model(), SignalModel::Continue)),
        ScriptRun::Goto(t) => Ok((ValueModel::Null, SignalModel::Goto(t@))),
        ScriptRun::Restart => Ok((ValueModel::Null, SignalModel::Restart)),
        ScriptRun::Interrupted => Ok((ValueModel::Null, SignalModel::Continue)),
        ScriptRun::Failed(m) => Err(ErrorModel::Script(m@)),
    }
}

pub open spec fn eval_model(r: Result<(Value, ScriptSignal), CoreError>) -> Result<
    (ValueModel, SignalModel),
    ErrorModel,
> {
    match r {
        Ok((v, s)) => Ok((v.model(), signal_model(s))),
        Err(e) => Err(e.model()),
    }
}

/// The result of a script run: its value, or the signal of the navigation
/// it asked for, or its error.
pub fn script_outcome(run: ScriptRun) -> (r: Result<(Value, ScriptSignal), CoreError>)
    ensures
        eval_model(r) == run_result(run),
{
    match run {
        ScriptRun::Finished(v) => Ok((v, ScriptSignal::Continue)),
        ScriptRun::Goto(t) => Ok((Value::Null, ScriptSignal::Goto(t))),
        ScriptRun::Restart => Ok((Value::Null, ScriptSignal::Restart)),
        ScriptRun::Interrupted => Ok((Value::Null, ScriptSignal::Continue)),
        ScriptRun::Failed(m) => Err(CoreError::Script(m)),
    }
}

/// A script language that the engine knows: trimmed and lower-cased, the
/// tag is `rhai`.
pub open spec fn known_lang(tag: Seq<char>) -> bool {
    unicode_lowercase(trim(tag)) == "rhai"@
}

/// The script engine: runs script blocks against the story state.
pub struct ScriptEngine {
    pub runner: Box<dyn ScriptRunner>,
}

impl ScriptEngine {
    /// Run a script block against the story state: its value and any
    /// navigation it asked for.  An unknown language is refused and the
    /// state left as it is; a script changes only the global and temp
    /// variables, never the metadata.
    pub fn eval(&self, state: &mut StoryState, code: &str, lang_tag: &str) -> (r: Result<
        (Value, ScriptSignal),
        CoreError,
    >)
        ensures
            !known_lang(lang_tag@) ==> (r matches Err(e) && e.model() == ErrorModel::Script(
                "unknown script language: "@ + lang_tag@,
            ) && *final(state) == *old(state)),
            known_lang(lang_tag@) ==> exists|run: ScriptRun| #[trigger] run_result(run) == eval_model(r),
            r matches Err(e) ==> e.model() is Script,
            final(state)@ == (StateModel {
                globals: final(state)@.globals,
                temp: final(state)@.temp,
                ..old(state)@
            }),
            final(state).metadata == old(state).metadata,
    {
        if ScriptLang::from_info_string(lang_tag).is_none() {
            return Err(CoreError::Script(concat2("unknown script language: ", lang_tag)));
        }
        let run = self.runner.run(&mut state.globals, &mut state.temp, code);
        let ghost raw = run;
        let r = script_outcome(run);
        assert(run_result(raw) == eval_model(r));
        r
    }
}

/// All characters are ASCII.
pub open spec fn all_ascii(s: Seq<char>) -> bool {
    forall|i: int| 0 <= i < s.len() ==> (#[trigger] s[i] as u32) < 128
}

/// A tag as `from_info_string` reads an ASCII one: trimmed and lower-cased.
pub open spec fn normal_tag(s: Seq<char>) -> Seq<char> {
    trim(s).map_values(|c: char| ascii_lower(c))
}

proof fn lemma_trim_start_edge(s: Seq<char>)
    ensures
        trim_start(s).len() > 0 ==> !is_ws(trim_start(s)[0]),
        trim_start(s).len() <= s.len(),
        forall|k: int| 0 <= k < trim_start(s).len() ==> trim_start(s)[k] == s[k + s.len() - trim_start(s).len()],
    decreases s.len(),
{
    if s.len() > 0 && is_ws(s[0]) {
        lemma_trim_start_edge(s.drop_first());
    }
}

proof fn lemma_trim_end_edge(s: Seq<char>)
    ensures
        trim_end(s).len() > 0 ==> !is_ws(trim_end(s).last()),
        trim_end(s).len() <= s.len(),
        forall|k: int| 0 <= k < trim_end(s).len() ==> trim_end(s)[k] == s[k],
        s.len() > 0 && !is_ws(s[0]) ==> trim_end(s).len() > 0,
    decreases s.len(),
{
    if s.len() > 0 && is_ws(s.last()) {
        let d = s.drop_last();
        lemma_trim_end_edge(d);
        assert forall|k: int| 0 <= k < trim_end(s).len() implies trim_end(s)[k] == s[k] by {
            assert(trim_end(d)[k] == d[k]);
            assert(d[k] == s[k]);
        }
    }
}

proof fn lemma_trim_ascii(s: Seq<char>)
    requires
        all_ascii(s),
    ensures
        all_ascii(trim(s)),
{
    let t = trim(s);
    lemma_trim_start_edge(s);
    lemma_trim_end_edge(trim_start(s));
    assert forall|k: int| 0 <= k < t.len() implies (#[trigger] t[k] as u32) < 128 by {
        let ts = trim_start(s);
        assert(t[k] == ts[k]);
        assert(ts[k] == s[k + s.len() - ts.len()]);
    }
}

/// Normalising a tag again changes nothing, and the canonical `rhai` is its
/// own normal form.  With `from_info_string`'s clause on ASCII tags, an
/// ASCII tag is known exactly when its trimmed, lower-cased form is, and the
/// tag `as_str` gives is known.
pub proof fn law_normal_tag(s: Seq<char>)
    requires
        all_ascii(s),
    ensures
        all_ascii(normal_tag(s)),
        normal_tag(normal_tag(s)) == normal_tag(s),
        normal_tag("rhai"@) == "rhai"@,
{
    reveal_strlit("rhai");
    let t = trim(s);
    lemma_trim_start_edge(s);
    lemma_trim_end_edge(trim_start(s));
    let n = normal_tag(s);
    lemma_trim_ascii(s);
    assert(all_ascii(n));
    if n.len() > 0 {
        assert(!is_ws(n[0]));
        assert(!is_ws(n.last()));
        assert(trim_start(n) == n);
        assert(trim_end(n) == n);
    } else {
        assert(trim_start(n) == n);
        assert(trim_end(n) == n);
    }
    assert(trim(n) == n);
    assert(n.map_values(|c: char| ascii_lower(c)) =~= n);
    let r = "rhai"@;
    assert(trim_start(r) == r);
    assert(trim_end(r) == r);
    assert(r.map_values(|c: char| ascii_lower(c)) =~= r);
}

} // verus!
