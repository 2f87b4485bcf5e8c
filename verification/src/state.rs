//! The live narrative state.
use vstd::prelude::*;
use crate::passage::{PassageGraph, node_index};
use crate::text::{
    concat2, copy_string, starts_with, str_chars, chars_eq_str, chars_start_with, string_eq_str,
};
use crate::value::{
    Scope, Value, ValueModel, get_path, keys_unique, law_empty_object_has_nothing, lemma_split_on_absent, law_remove_then_get,
    law_set_then_get, obj_remove, set_path,
};

verus! {

/// The live narrative state: persists across passage navigations.
#[derive(Debug)]
pub struct StoryState {
    /// Persistent variables (Global scope).
    pub globals: Value,
    /// Temporary variables (Temp scope).  Cleared on passage navigation.
    pub temp: Value,
    /// Story-level metadata (title, author, version, save_slots); read-only
    /// for scripts.
    pub metadata: Value,
    /// The passage being shown.
    pub current_passage: Option<String>,
    /// Every visit to a passage, in order.
    pub visits: Vec<String>,
}

/// A single state mutation recorded for undo/checkpoint purposes.
#[derive(Debug)]
pub struct StateChange {
    pub path: String,
    pub old: Option<Value>,
    pub new: Value,
    pub scope: Scope,
}

/// A checkpoint snapshot of the full game state.
#[derive(Debug)]
pub struct StateSnapshot {
    /// Serialized full state.
    pub full_state: Vec<u8>,
    pub passage: String,
    pub turn: u64,
}

/// The path names the metadata or something inside it.
pub open spec fn is_metadata_path(p: Seq<char>) -> bool {
    p == "metadata"@ || starts_with(p, "metadata."@)
}

/// How many times `id` occurs in `log`.
pub open spec fn count_of(log: Seq<Seq<char>>, id: Seq<char>) -> nat
    decreases log.len(),
{
    if log.len() == 0 {
        0
    } else {
        count_of(log.drop_last(), id) + if log.last() == id {
            1nat
        } else {
            0nat
        }
    }
}

pub open spec fn log_model(v: Seq<String>) -> Seq<Seq<char>> {
    Seq::new(v.len(), |i: int| v[i]@)
}

/// `StoryState::get`: temp shadows globals, which shadow metadata; the Temp
/// scope reads temp alone.
pub open spec fn state_get(
    globals: ValueModel,
    temp: ValueModel,
    metadata: ValueModel,
    path: Seq<char>,
    scope: Scope,
) -> Option<ValueModel> {
    match scope {
        Scope::Global => match get_path(temp, path) {
            Some(v) => Some(v),
            None => match get_path(globals, path) {
                Some(v) => Some(v),
                None => get_path(metadata, path),
            },
        },
        Scope::Temp => get_path(temp, path),
    }
}

/// The content of a `StoryState`.
pub struct StateModel {
    pub globals: ValueModel,
    pub temp: ValueModel,
    pub metadata: ValueModel,
    pub current: Option<Seq<char>>,
    pub visits: Seq<Seq<char>>,
}

impl View for StoryState {
    type V = StateModel;

    open spec fn view(&self) -> StateModel {
        StateModel {
            globals: self.globals.model(),
            temp: self.temp.model(),
            metadata: self.metadata.model(),
            current: match self.current_passage {
                Some(id) => Some(id@),
                None => None,
            },
            visits: log_model(self.visits@),
        }
    }
}

/// The value at `path` as `StoryState::get` finds it.
pub open spec fn model_lookup(st: StateModel, path: Seq<char>, scope: Scope) -> Option<ValueModel> {
    state_get(st.globals, st.temp, st.metadata, path, scope)
}

/// The store that a scope writes to.
pub open spec fn model_target(st: StateModel, scope: Scope) -> ValueModel {
    match scope {
        Scope::Global => st.globals,
        Scope::Temp => st.temp,
    }
}

/// `st` with the store of `scope` replaced.
pub open spec fn with_target(st: StateModel, scope: Scope, v: ValueModel) -> StateModel {
    match scope {
        Scope::Global => StateModel { globals: v, ..st },
        Scope::Temp => StateModel { temp: v, ..st },
    }
}

/// `StoryState::set`: the new state, or the error message.
pub open spec fn state_set(st: StateModel, path: Seq<char>, v: ValueModel, scope: Scope) -> Result<
    StateModel,
    Seq<char>,
> {
    if is_metadata_path(path) {
        Err("cannot write to read-only metadata"@)
    } else {
        match set_path(model_target(st, scope), path, v) {
            Some(t) => Ok(with_target(st, scope, t)),
            None => Err("invalid state path: "@ + path),
        }
    }
}

/// The current passage of `st` is in `graph` and carries `tag`.
pub open spec fn current_has_tag(st: StateModel, tag: Seq<char>, graph: Option<&PassageGraph>) -> bool {
    match (graph, st.current) {
        (Some(g), Some(id)) => match node_index(g.nodes@, id) {
            Some(i) => exists|k: int|
                0 <= k < g.nodes@[i].tags@.len() && #[trigger] g.nodes@[i].tags@[k]@ == tag,
            None => false,
        },
        _ => false,
    }
}

impl StoryState {
    pub open spec fn lookup(&self, path: Seq<char>, scope: Scope) -> Option<ValueModel> {
        state_get(self.globals.model(), self.temp.model(), self.metadata.model(), path, scope)
    }

    /// The model of the target of a scope.
    pub open spec fn target(&self, scope: Scope) -> ValueModel {
        match scope {
            Scope::Global => self.globals.model(),
            Scope::Temp => self.temp.model(),
        }
    }

    /// A fresh state: empty global and temp objects, null metadata, no visits.
    pub fn new() -> (r: StoryState)
        ensures
            r.globals.model() == ValueModel::Object(Seq::empty()),
            r.temp.model() == ValueModel::Object(Seq::empty()),
            r.metadata.model() == ValueModel::Null,
            r.current_passage is None,
            r.visits@.len() == 0,
    {
        let g: Vec<(String, Value)> = Vec::new();
        let t: Vec<(String, Value)> = Vec::new();
        proof {
            crate::value::lemma_object_model(g);
            crate::value::lemma_object_model(t);
            assert(crate::value::entries_model(g@) =~= Seq::empty());
            assert(crate::value::entries_model(t@) =~= Seq::empty());
        }
        StoryState {
            globals: Value::Object(g),
            temp: Value::Object(t),
            metadata: Value::Null,
            current_passage: None,
            visits: Vec::new(),
        }
    }

    /// Get a variable value by path (e.g. `player.inventory.0.name`).
    /// The Global scope checks Temp first, then Global, then metadata.
    pub fn get(&self, path: &str, scope: Scope) -> (r: Option<&Value>)
        ensures
            r matches Some(v) ==> self.lookup(path@, scope) == Some(v.model()),
            r is None ==> self.lookup(path@, scope) is None,
    {
        match scope {
            Scope::Global => match self.temp.get(path) {
                Some(v) => Some(v),
                None => match self.globals.get(path) {
                    Some(v) => Some(v),
                    None => self.metadata.get(path),
                },
            },
            Scope::Temp => self.temp.get(path),
        }
    }

    fn metadata_path(path: &str) -> (r: bool)
        ensures
            r == is_metadata_path(path@),
    {
        let pc = str_chars(path);
        chars_eq_str(&pc, "metadata") || chars_start_with(&pc, "metadata.")
    }

    /// Set a variable value in the scope's store.  Writing to the metadata
    /// is refused, as is a path that `Value::set` refuses.
    pub fn set(&mut self, path: &str, val: Value, scope: Scope) -> (r: Result<(), String>)
        ensures
            is_metadata_path(path@) ==> (r matches Err(e) && e@ == "cannot write to read-only metadata"@),
            is_metadata_path(path@) ==> *final(self) == *old(self),
            !is_metadata_path(path@) ==> (r is Ok <==> set_path(
                old(self).target(scope),
                path@,
                val.model(),
            ) is Some),
            !is_metadata_path(path@) && r is Ok ==> set_path(
                old(self).target(scope),
                path@,
                val.model(),
            ) == Some(final(self).target(scope)),
            !is_metadata_path(path@) ==> (r matches Err(e) ==> e@ == "invalid state path: "@ + path@
                && final(self).target(scope) == old(self).target(scope)),
            scope is Global ==> final(self).temp == old(self).temp,
            scope is Temp ==> final(self).globals == old(self).globals,
            final(self).metadata == old(self).metadata,
            final(self).current_passage == old(self).current_passage,
            final(self).visits == old(self).visits,
            match state_set(old(self)@, path@, val.model(), scope) {
                Ok(st) => r is Ok && final(self)@ == st,
                Err(m) => r matches Err(e) && e@ == m && final(self)@ == old(self)@,
            },
    {
        if StoryState::metadata_path(path) {
            return Err(String::from_str("cannot write to read-only metadata"));
        }
        let ok = match scope {
            Scope::Global => self.globals.set(path, val),
            Scope::Temp => self.temp.set(path, val),
        };
        match ok {
            Some(()) => Ok(()),
            None => Err(concat2("invalid state path: ", path)),
        }
    }

    /// Add `delta` to the integer at `path` (a missing or non-integer value
    /// counts as 0) and store the result.  Returns the new value.
    fn add_one(&mut self, path: &str, scope: Scope, up: bool) -> (r: Result<i64, String>)
        requires
            up ==> !(old(self).lookup(path@, scope) matches Some(ValueModel::Int(i)) && i == i64::MAX),
            !up ==> !(old(self).lookup(path@, scope) matches Some(ValueModel::Int(i)) && i == i64::MIN),
        ensures
            ({
                let cur = match old(self).lookup(path@, scope) {
                    Some(ValueModel::Int(i)) => i as int,
                    _ => 0int,
                };
                let new = if up {
                    cur + 1
                } else {
                    cur - 1
                };
                &&& is_metadata_path(path@) ==> (r matches Err(e) && e@
                    == "cannot write to read-only metadata"@)
                &&& !is_metadata_path(path@) ==> (r is Ok <==> set_path(
                    old(self).target(scope),
                    path@,
                    ValueModel::Int(new as i64),
                ) is Some)
                &&& r matches Ok(n) ==> n == new && set_path(
                    old(self).target(scope),
                    path@,
                    ValueModel::Int(n),
                ) == Some(final(self).target(scope))
            }),
            final(self).metadata == old(self).metadata,
    {
        let cur: i64 = match self.get(path, scope) {
            Some(v) => match v.as_int() {
                Some(i) => i,
                None => 0,
            },
            None => 0,
        };
        let new = if up {
            cur + 1
        } else {
            cur - 1
        };
        match self.set(path, Value::Int(new), scope) {
            Ok(()) => Ok(new),
            Err(e) => Err(e),
        }
    }

    /// Increment a numeric value by 1 (missing counts as 0). Returns the new value.
    pub fn inc(&mut self, path: &str, scope: Scope) -> (r: Result<i64, String>)
        requires
            !(old(self).lookup(path@, scope) matches Some(ValueModel::Int(i)) && i == i64::MAX),
        ensures
            ({
                let new = match old(self).lookup(path@, scope) {
                    Some(ValueModel::Int(i)) => i as int,
                    _ => 0int,
                } + 1;
                &&& is_metadata_path(path@) ==> (r matches Err(e) && e@
                    == "cannot write to read-only metadata"@)
                &&& !is_metadata_path(path@) ==> (r is Ok <==> set_path(
                    old(self).target(scope),
                    path@,
                    ValueModel::Int(new as i64),
                ) is Some)
                &&& r matches Ok(n) ==> n == new && set_path(
                    old(self).target(scope),
                    path@,
                    ValueModel::Int(n),
                ) == Some(final(self).target(scope))
            }),
    {
        self.add_one(path, scope, true)
    }

    /// Decrement a numeric value by 1 (missing counts as 0). Returns the new value.
    pub fn dec(&mut self, path: &str, scope: Scope) -> (r: Result<i64, String>)
        requires
            !(old(self).lookup(path@, scope) matches Some(ValueModel::Int(i)) && i == i64::MIN),
        ensures
            ({
                let new = match old(self).lookup(path@, scope) {
                    Some(ValueModel::Int(i)) => i as int,
                    _ => 0int,
                } - 1;
                &&& is_metadata_path(path@) ==> (r matches Err(e) && e@
                    == "cannot write to read-only metadata"@)
                &&& !is_metadata_path(path@) ==> (r is Ok <==> set_path(
                    old(self).target(scope),
                    path@,
                    ValueModel::Int(new as i64),
                ) is Some)
                &&& r matches Ok(n) ==> n == new && set_path(
                    old(self).target(scope),
                    path@,
                    ValueModel::Int(n),
                ) == Some(final(self).target(scope))
            }),
    {
        self.add_one(path, scope, false)
    }

    /// Check if a variable exists at the given path.
    pub fn has(&self, path: &str, scope: Scope) -> (r: bool)
        ensures
            r == self.lookup(path@, scope) is Some,
    {
        self.get(path, scope).is_some()
    }

    /// Delete a top-level key (the whole path is the key) from the scope's
    /// object.  Deleting metadata, or from a store that is not an object, is
    /// refused.
    pub fn delete(&mut self, path: &str, scope: Scope) -> (r: Result<(), String>)
        ensures
            is_metadata_path(path@) ==> (r matches Err(e) && e@ == "cannot delete metadata"@
                && *final(self) == *old(self)),
            !is_metadata_path(path@) ==> match old(self).target(scope) {
                ValueModel::Object(e) => r is Ok && final(self).target(scope) == ValueModel::Object(
                    obj_remove(e, path@),
                ),
                _ => (r matches Err(e) && e@ == "cannot delete from non-object at path: "@ + path@
                    && final(self).target(scope) == old(self).target(scope)),
            },
            scope is Global ==> final(self).temp == old(self).temp,
            scope is Temp ==> final(self).globals == old(self).globals,
            final(self).metadata == old(self).metadata,
    {
        if StoryState::metadata_path(path) {
            return Err(String::from_str("cannot delete metadata"));
        }
        match scope {
            Scope::Global => {
                if let Value::Object(_) = &self.globals {
                    self.globals.remove_key(path);
                    Ok(())
                } else {
                    Err(concat2("cannot delete from non-object at path: ", path))
                }
            },
            Scope::Temp => {
                if let Value::Object(_) = &self.temp {
                    self.temp.remove_key(path);
                    Ok(())
                } else {
                    Err(concat2("cannot delete from non-object at path: ", path))
                }
            },
        }
    }

    /// Clear all Temp-scoped variables (called on passage navigation); the
    /// Temp scope is left an empty object, ready for new variables.
    pub fn clear_temp(&mut self)
        ensures
            final(self).temp.model() == ValueModel::Object(Seq::empty()),
            final(self)@ == (StateModel { temp: ValueModel::Object(Seq::empty()), ..old(self)@ }),
            final(self).globals == old(self).globals,
            final(self).metadata == old(self).metadata,
            final(self).current_passage == old(self).current_passage,
            final(self).visits == old(self).visits,
    {
        self.temp = Value::Object(Vec::new());
        assert(self.temp.model()->Object_0 =~= Seq::<(Seq<char>, ValueModel)>::empty());
    }

    /// Record a visit to a passage.
    pub fn mark_visited(&mut self, id: &String)
        ensures
            log_model(final(self).visits@) == log_model(old(self).visits@).push(id@),
            final(self).globals == old(self).globals,
            final(self).temp == old(self).temp,
            final(self).metadata == old(self).metadata,
            final(self).current_passage == old(self).current_passage,
    {
        let ghost before = self.visits@;
        self.visits.push(copy_string(id));
        assert(log_model(self.visits@) =~= log_model(before).push(id@));
    }

    /// How many times a passage has been visited.
    pub fn visit_count_of(&self, id: &str) -> (r: u64)
        ensures
            r == count_of(log_model(self.visits@), id@) || (r == u64::MAX && count_of(
                log_model(self.visits@),
                id@,
            ) >= u64::MAX),
    {
        let mut n: u64 = 0;
        let mut i: usize = 0;
        while i < self.visits.len()
            invariant
                i <= self.visits.len(),
                n == count_of(log_model(self.visits@).take(i as int), id@) || (n == u64::MAX
                    && count_of(log_model(self.visits@).take(i as int), id@) >= u64::MAX),
            decreases self.visits.len() - i,
        {
            let ghost t = log_model(self.visits@).take(i + 1);
            assert(t.drop_last() =~= log_model(self.visits@).take(i as int));
            if string_eq_str(&self.visits[i], id) {
                if n < u64::MAX {
                    n = n + 1;
                }
            }
            i = i + 1;
        }
        assert(log_model(self.visits@).take(self.visits.len() as int) =~= log_model(self.visits@));
        n
    }

    /// Whether a passage has been visited.
    pub fn is_visited(&self, id: &str) -> (r: bool)
        ensures
            r == (count_of(self@.visits, id@) > 0),
    {
        self.visit_count_of(id) > 0
    }

    /// Whether the current passage carries a tag (false without a graph or a
    /// current passage, or when the passage is not in the graph).
    #[verifier::loop_isolation(false)]
    pub fn has_tag(&self, tag: &str, graph: Option<&PassageGraph>) -> (r: bool)
        ensures
            r == current_has_tag(self@, tag@, graph),
    {
        match (graph, &self.current_passage) {
            (Some(g), Some(id)) => match g.get(id.as_str()) {
                Some(node) => {
                    let mut k: usize = 0;
                    while k < node.tags.len()
                        invariant
                            k <= node.tags.len(),
                            node_index(g.nodes@, id@) matches Some(i) && *node == g.nodes@[i],
                            forall|j: int| 0 <= j < k ==> node.tags@[j]@ != tag@,
                        decreases node.tags.len() - k,
                    {
                        if string_eq_str(&node.tags[k], tag) {
                            proof {
                                let i = node_index(g.nodes@, id@)->0;
                                assert(g.nodes@[i].tags@[k as int]@ == tag@);
                            }
                            return true;
                        }
                        k = k + 1;
                    }
                    false
                },
                None => false,
            },
            _ => false,
        }
    }
}

impl Default for StoryState {
    fn default() -> (r: StoryState)
        ensures
            r.globals.model() == ValueModel::Object(Seq::empty()),
            r.temp.model() == ValueModel::Object(Seq::empty()),
            r.metadata.model() == ValueModel::Null,
            r.current_passage is None,
            r.visits@.len() == 0,
    {
        StoryState::new()
    }
}

// ── laws ────────────────────────────────────────────────────────────────

/// A write to the Temp scope is read back from both scopes (Temp shadows
/// Global).
pub proof fn law_temp_write_read(st: StateModel, path: Seq<char>, v: ValueModel, after: StateModel)
    requires
        state_set(st, path, v, Scope::Temp) == Ok::<StateModel, Seq<char>>(after),
    ensures
        model_lookup(after, path, Scope::Temp) == Some(v),
        model_lookup(after, path, Scope::Global) == Some(v),
{
    law_set_then_get(st.temp, path, v);
}

/// A write to the Global scope is read back from it unless the Temp scope
/// holds the same path, and leaves what the Temp scope reads unchanged.
pub proof fn law_global_write_read(st: StateModel, path: Seq<char>, v: ValueModel, after: StateModel)
    requires
        state_set(st, path, v, Scope::Global) == Ok::<StateModel, Seq<char>>(after),
    ensures
        get_path(st.temp, path) is None ==> model_lookup(after, path, Scope::Global) == Some(v),
        model_lookup(after, path, Scope::Temp) == model_lookup(st, path, Scope::Temp),
{
    law_set_then_get(st.globals, path, v);
}

/// The metadata cannot be written: such a write is refused and leaves the
/// state as it was.
pub proof fn law_metadata_read_only(st: StateModel, path: Seq<char>, v: ValueModel, scope: Scope)
    requires
        is_metadata_path(path),
    ensures
        state_set(st, path, v, scope) == Err::<StateModel, Seq<char>>(
            "cannot write to read-only metadata"@,
        ),
{
}

/// After a top-level key is deleted from a scope's object (keys unique),
/// the scope no longer holds it.
pub proof fn law_delete_then_absent(e: Seq<(Seq<char>, ValueModel)>, key: Seq<char>)
    requires
        keys_unique(e),
        key.len() > 0,
        !key.contains('.'),
    ensures
        get_path(ValueModel::Object(obj_remove(e, key)), key) is None,
{
    law_remove_then_get(e, key);
}

/// Once the temporary variables are cleared, the Temp scope holds nothing
/// and the Global scope reads the globals, then the metadata.
pub proof fn law_cleared_temp(st: StateModel, path: Seq<char>)
    requires
        path.len() > 0,
    ensures
        model_lookup(StateModel { temp: ValueModel::Object(Seq::empty()), ..st }, path, Scope::Temp)
            is None,
        model_lookup(StateModel { temp: ValueModel::Object(Seq::empty()), ..st }, path, Scope::Global)
            == match get_path(
            st.globals,
            path,
        ) {
            Some(v) => Some(v),
            None => get_path(st.metadata, path),
        },
{
    law_empty_object_has_nothing(path);
}

/// A write to the Temp scope after it was cleared succeeds where the path
/// has one segment.
pub proof fn law_cleared_temp_writable(st: StateModel, key: Seq<char>, v: ValueModel)
    requires
        !is_metadata_path(key),
        !key.contains('.'),
        key.len() > 0,
    ensures
        state_set(StateModel { temp: ValueModel::Object(Seq::empty()), ..st }, key, v, Scope::Temp)
            is Ok,
{
    lemma_split_on_absent(key, '.');
}

} // verus!
