//! The registry of hooks: scripts that run on lifecycle events.
use vstd::prelude::*;
use crate::passage::{HookDeclaration, PassageScript};
use crate::text::string_eq_str;

verus! {

/// A script by its content: language tag and code.
pub open spec fn script_model(s: PassageScript) -> (Seq<char>, Seq<char>) {
    (s.lang@, s.code@)
}

#[derive(Debug)]
struct RegisteredHook {
    event: String,
    script: PassageScript,
}

/// Registry of all hooks by event name; the hooks of one event run in
/// registration order.
///
/// Hooks are registered at graph build time from `@hook:` directives found
/// in passages.
#[derive(Debug)]
pub struct HookRegistry {
    handlers: Vec<RegisteredHook>,
}

/// The scripts registered for `e`, in order.
spec fn scripts_of(v: Seq<RegisteredHook>, e: Seq<char>) -> Seq<(Seq<char>, Seq<char>)>
    decreases v.len(),
{
    if v.len() == 0 {
        Seq::empty()
    } else {
        let pre = scripts_of(v.drop_last(), e);
        if v.last().event@ == e {
            pre.push(script_model(v.last().script))
        } else {
            pre
        }
    }
}

proof fn lemma_scripts_of_len(v: Seq<RegisteredHook>, e: Seq<char>)
    ensures
        scripts_of(v, e).len() <= v.len(),
    decreases v.len(),
{
    if v.len() > 0 {
        lemma_scripts_of_len(v.drop_last(), e);
    }
}

/// The scripts that the declarations register for `e`, in order.
pub open spec fn declared_scripts(d: Seq<HookDeclaration>, e: Seq<char>) -> Seq<(Seq<char>, Seq<char>)>
    decreases d.len(),
{
    if d.len() == 0 {
        Seq::empty()
    } else {
        let pre = declared_scripts(d.drop_last(), e);
        if d.last().event@ == e {
            pre.push(script_model(d.last().script))
        } else {
            pre
        }
    }
}

impl HookRegistry {
    /// The scripts registered for event `e`, in registration order.
    pub closed spec fn hooks_of(&self, e: Seq<char>) -> Seq<(Seq<char>, Seq<char>)> {
        scripts_of(self.handlers@, e)
    }

    /// An empty registry.
    pub fn new() -> (r: HookRegistry)
        ensures
            forall|e: Seq<char>| #[trigger] r.hooks_of(e).len() == 0,
    {
        HookRegistry { handlers: Vec::new() }
    }

    /// Register a hook declared in a passage.
    pub fn register(&mut self, event: &str, script: PassageScript)
        ensures
            forall|e: Seq<char>| #[trigger] final(self).hooks_of(e) == if e == event@ {
                old(self).hooks_of(e).push(script_model(script))
            } else {
                old(self).hooks_of(e)
            },
    {
        let ghost before = self.handlers@;
        let ghost sm = script_model(script);
        let ev = String::from_str(event);
        self.handlers.push(RegisteredHook { event: ev, script });
        assert forall|e: Seq<char>| #[trigger] scripts_of(self.handlers@, e) == if e == event@ {
            scripts_of(before, e).push(sm)
        } else {
            scripts_of(before, e)
        } by {
            assert(self.handlers@.drop_last() =~= before);
        }
    }

    /// Register hooks from a list of declarations, in order.
    pub fn register_all(&mut self, hooks: &[HookDeclaration])
        ensures
            forall|e: Seq<char>| #[trigger] final(self).hooks_of(e) == old(self).hooks_of(e)
                + declared_scripts(hooks@, e),
    {
        let mut i: usize = 0;
        while i < hooks.len()
            invariant
                i <= hooks@.len(),
                forall|e: Seq<char>| #[trigger] self.hooks_of(e) == old(self).hooks_of(e)
                    + declared_scripts(hooks@.take(i as int), e),
            decreases hooks.len() - i,
        {
            let h = &hooks[i];
            let ghost mid = *self;
            self.register(h.event.as_str(), h.script.copy());
            assert forall|e: Seq<char>| #[trigger] self.hooks_of(e) == old(self).hooks_of(e)
                + declared_scripts(hooks@.take(i + 1), e) by {
                assert(hooks@.take(i + 1).drop_last() =~= hooks@.take(i as int));
                assert(mid.hooks_of(e) == old(self).hooks_of(e) + declared_scripts(
                    hooks@.take(i as int),
                    e,
                ));
            }
            i = i + 1;
        }
        assert(hooks@.take(hooks@.len() as int) =~= hooks@);
    }

    /// The number of hooks registered for `event`.
    pub fn count(&self, event: &str) -> (r: usize)
        ensures
            r == self.hooks_of(event@).len(),
    {
        let mut n: usize = 0;
        let mut i: usize = 0;
        while i < self.handlers.len()
            invariant
                i <= self.handlers.len(),
                n == scripts_of(self.handlers@.take(i as int), event@).len(),
            decreases self.handlers.len() - i,
        {
            assert(self.handlers@.take(i + 1).drop_last() =~= self.handlers@.take(i as int));
            proof {
                lemma_scripts_of_len(self.handlers@.take(i as int), event@);
            }
            if string_eq_str(&self.handlers[i].event, event) {
                n = n + 1;
            }
            i = i + 1;
        }
        assert(self.handlers@.take(self.handlers.len() as int) =~= self.handlers@);
        n
    }

    /// Copies of the scripts registered for `event`, in order.
    pub fn scripts_for(&self, event: &str) -> (r: Vec<PassageScript>)
        ensures
            r@.map_values(|s: PassageScript| script_model(s)) == self.hooks_of(event@),
    {
        let mut r: Vec<PassageScript> = Vec::new();
        let mut i: usize = 0;
        while i < self.handlers.len()
            invariant
                i <= self.handlers.len(),
                r@.map_values(|s: PassageScript| script_model(s)) == scripts_of(
                    self.handlers@.take(i as int),
                    event@,
                ),
            decreases self.handlers.len() - i,
        {
            assert(self.handlers@.take(i + 1).drop_last() =~= self.handlers@.take(i as int));
            if string_eq_str(&self.handlers[i].event, event) {
                let ghost before = r@;
                let c = self.handlers[i].script.copy();
                r.push(c);
                assert(r@.map_values(|s: PassageScript| script_model(s)) =~= before.map_values(
                    |s: PassageScript| script_model(s),
                ).push(script_model(self.handlers@[i as int].script)));
            }
            i = i + 1;
        }
        assert(self.handlers@.take(self.handlers.len() as int) =~= self.handlers@);
        r
    }
}

impl Default for HookRegistry {
    fn default() -> (r: HookRegistry)
        ensures
            forall|e: Seq<char>| #[trigger] r.hooks_of(e).len() == 0,
    {
        HookRegistry::new()
    }
}

/// Registering declarations adds, for each event, the scripts of exactly
/// the declarations for that event, in order: as many as there are.
pub proof fn law_declared_scripts(d: Seq<HookDeclaration>, e: Seq<char>)
    ensures
        declared_scripts(d, e) == d.filter(|h: HookDeclaration| h.event@ == e).map_values(
            |h: HookDeclaration| script_model(h.script),
        ),
        declared_scripts(d, e).len() == d.filter(|h: HookDeclaration| h.event@ == e).len(),
    decreases d.len(),
{
    reveal(Seq::filter);
    let pred = |h: HookDeclaration| h.event@ == e;
    if d.len() > 0 {
        law_declared_scripts(d.drop_last(), e);
        let f = d.drop_last().filter(pred);
        if pred(d.last()) {
            assert(d.filter(pred) == f.push(d.last()));
            assert(f.push(d.last()).map_values(|h: HookDeclaration| script_model(h.script)) =~= f.map_values(
                |h: HookDeclaration| script_model(h.script),
            ).push(script_model(d.last().script)));
        } else {
            assert(d.filter(pred) == f);
        }
    } else {
        assert(d.filter(pred) =~= Seq::<HookDeclaration>::empty());
        assert(Seq::<HookDeclaration>::empty().map_values(|h: HookDeclaration| script_model(h.script))
            =~= Seq::<(Seq<char>, Seq<char>)>::empty());
    }
}

/// The scripts that a run of registrations gives an event, in order.
pub open spec fn registered_for(regs: Seq<(Seq<char>, (Seq<char>, Seq<char>))>, e: Seq<char>) -> Seq<
    (Seq<char>, Seq<char>),
>
    decreases regs.len(),
{
    if regs.len() == 0 {
        Seq::empty()
    } else if regs.last().0 == e {
        registered_for(regs.drop_last(), e).push(regs.last().1)
    } else {
        registered_for(regs.drop_last(), e)
    }
}

/// A registry that starts empty (as `new` gives it) and takes a run of
/// registrations one at a time (as `register` does, and `register_all` for
/// each declaration) holds for each event exactly the scripts registered
/// under that event, in order; so `count` is their number, and 0 for an
/// event never registered.
pub proof fn law_hook_count(
    rs: Seq<HookRegistry>,
    regs: Seq<(Seq<char>, (Seq<char>, Seq<char>))>,
    e: Seq<char>,
)
    requires
        rs.len() == regs.len() + 1,
        forall|x: Seq<char>| #[trigger] rs[0].hooks_of(x).len() == 0,
        forall|i: int, x: Seq<char>|
            1 <= i < rs.len() ==> #[trigger] rs[i].hooks_of(x) == if x == regs[i - 1].0 {
                rs[i - 1].hooks_of(x).push(regs[i - 1].1)
            } else {
                rs[i - 1].hooks_of(x)
            },
    ensures
        rs.last().hooks_of(e) == registered_for(regs, e),
        rs.last().hooks_of(e).len() == registered_for(regs, e).len(),
    decreases regs.len(),
{
    if regs.len() == 0 {
        assert(rs[0].hooks_of(e) =~= Seq::<(Seq<char>, Seq<char>)>::empty());
    } else {
        let rs0 = rs.drop_last();
        let regs0 = regs.drop_last();
        assert forall|i: int, x: Seq<char>| 1 <= i < rs0.len() implies #[trigger] rs0[i].hooks_of(x) == if x
            == regs0[i - 1].0 {
            rs0[i - 1].hooks_of(x).push(regs0[i - 1].1)
        } else {
            rs0[i - 1].hooks_of(x)
        } by {
            assert(rs[i].hooks_of(x) == if x == regs[i - 1].0 {
                rs[i - 1].hooks_of(x).push(regs[i - 1].1)
            } else {
                rs[i - 1].hooks_of(x)
            });
        }
        assert forall|x: Seq<char>| #[trigger] rs0[0].hooks_of(x).len() == 0 by {
            assert(rs[0].hooks_of(x).len() == 0);
        }
        law_hook_count(rs0, regs0, e);
        let n = rs.len() - 1;
        assert(rs[n].hooks_of(e) == if e == regs[n - 1].0 {
            rs[n - 1].hooks_of(e).push(regs[n - 1].1)
        } else {
            rs[n - 1].hooks_of(e)
        });
    }
}

} // verus!
