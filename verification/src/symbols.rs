//! Stacked symbol tables for lexically-scoped name resolution.
//!
//! One scope is pushed per namespace; lookups search from the innermost
//! scope outwards, first match wins. A popped scope's bindings become
//! unreachable for every later lookup.

use vstd::prelude::*;
use crate::types::TypeValue;

verus! {

/// What a name stands for, so that code generation can pick an emission
/// strategy per kind.
#[derive(Debug)]
pub enum SymbolKind {
    /// Not yet classified.
    Unknown,
    /// A previously declared rule, by its rule id.
    Rule(i32),
    /// A field offset into the compilation-wide modules structure.
    FieldIndex(u32),
}

/// A symbol: its kind and its typed value.
#[derive(Debug)]
pub struct Symbol {
    pub kind: SymbolKind,
    pub type_value: TypeValue,
}

impl Symbol {
    /// Creates a symbol of the given typed value, with no kind assigned yet.
    pub fn new(type_value: TypeValue) -> (r: Self)
        ensures
            r.kind is Unknown,
            r.type_value == type_value,
    {
        Symbol { kind: SymbolKind::Unknown, type_value }
    }
}

/// A single scope: an ordered list of bindings. A later binding of the same
/// name shadows an earlier one.
#[derive(Debug)]
pub struct SymbolTable {
    pub entries: Vec<(String, Symbol)>,
}

/// Most recent binding of `name` in one scope, or `None`.
pub open spec fn scope_lookup(entries: Seq<(Seq<char>, Symbol)>, name: Seq<char>) -> Option<
    Symbol,
>
    decreases entries.len(),
{
    if entries.len() == 0 {
        None
    } else if entries.last().0 == name {
        Some(entries.last().1)
    } else {
        scope_lookup(entries.drop_last(), name)
    }
}

/// Innermost-first lookup over a stack of scopes.
pub open spec fn stack_lookup(
    scopes: Seq<Seq<(Seq<char>, Symbol)>>,
    name: Seq<char>,
) -> Option<Symbol>
    decreases scopes.len(),
{
    if scopes.len() == 0 {
        None
    } else {
        match scope_lookup(scopes.last(), name) {
            Some(s) => Some(s),
            None => stack_lookup(scopes.drop_last(), name),
        }
    }
}

/// A name bound nowhere in a stack of scopes does not resolve.
pub proof fn lemma_unbound_name(scopes: Seq<Seq<(Seq<char>, Symbol)>>, name: Seq<char>)
    requires
        forall|i: int|
            0 <= i < scopes.len() ==> scope_lookup(#[trigger] scopes[i], name) is None,
    ensures
        stack_lookup(scopes, name) is None,
    decreases scopes.len(),
{
    if scopes.len() > 0 {
        assert(scope_lookup(scopes.last(), name) is None);
        lemma_unbound_name(scopes.drop_last(), name);
    }
}

/// Scope isolation: popping the innermost scope makes its bindings
/// unreachable, and every name then resolves exactly as it did in the outer
/// stack alone. A symbol inserted into one namespace's scope is therefore
/// not resolvable while a later namespace, with that scope popped, is
/// compiled.
pub proof fn lemma_scope_isolation(
    outer: Seq<Seq<(Seq<char>, Symbol)>>,
    inner: Seq<(Seq<char>, Symbol)>,
    name: Seq<char>,
)
    ensures
        stack_lookup(outer.push(inner), name) == match scope_lookup(inner, name) {
            Some(s) => Some(s),
            None => stack_lookup(outer, name),
        },
        outer.push(inner).drop_last() == outer,
{
    assert(outer.push(inner).last() == inner);
    assert(outer.push(inner).drop_last() =~= outer);
}

impl SymbolTable {
    /// Creates an empty scope.
    pub fn new() -> (r: Self)
        ensures
            r@ == Seq::<(Seq<char>, Symbol)>::empty(),
    {
        let r = SymbolTable { entries: Vec::new() };
        proof {
            assert(r@ =~= Seq::<(Seq<char>, Symbol)>::empty());
        }
        r
    }

    /// Binds `name` to `symbol` in this scope, shadowing any earlier binding
    /// of the same name.
    pub fn insert(&mut self, name: &String, symbol: Symbol)
        ensures
            final(self)@ == old(self)@.push((name@, symbol)),
    {
        self.entries.push((name.clone(), symbol));
        proof {
            assert(self@ =~= old(self)@.push((name@, symbol)));
        }
    }

    /// Most recent binding of `name` in this scope.
    pub fn lookup(&self, name: &String) -> (r: Option<&Symbol>)
        ensures
            match r {
                Some(s) => scope_lookup(self@, name@) == Some(*s),
                None => scope_lookup(self@, name@) is None,
            },
    {
        let ghost es = self@;
        let mut i = self.entries.len();
        proof {
            assert(es.take(es.len() as int) =~= es);
        }
        while i > 0
            invariant
                i <= self.entries@.len(),
                es == self@,
                scope_lookup(es, name@) == scope_lookup(es.take(i as int), name@),
            decreases i,
        {
            i = i - 1;
            if self.entries[i].0 == *name {
                proof {
                    assert(es.take(i as int + 1).last() == es[i as int]);
                    assert(scope_lookup(es.take(i as int + 1), name@) == Some(
                        es[i as int].1,
                    ));
                }
                return Some(&self.entries[i].1);
            }
            proof {
                assert(es.take(i as int + 1).last() == es[i as int]);
                assert(es.take(i as int + 1).drop_last() =~= es.take(i as int));
            }
        }
        proof {
            assert(es.take(0) =~= Seq::<(Seq<char>, Symbol)>::empty());
        }
        None
    }
}

impl View for SymbolTable {
    type V = Seq<(Seq<char>, Symbol)>;

    closed spec fn view(&self) -> Seq<(Seq<char>, Symbol)> {
        self.entries@.map_values(|e: (String, Symbol)| (e.0@, e.1))
    }
}

/// Ordered stack of scopes.
#[derive(Debug)]
pub struct StackedSymbolTable {
    pub scopes: Vec<SymbolTable>,
}

impl View for StackedSymbolTable {
    type V = Seq<Seq<(Seq<char>, Symbol)>>;

    closed spec fn view(&self) -> Seq<Seq<(Seq<char>, Symbol)>> {
        self.scopes@.map_values(|t: SymbolTable| t@)
    }
}

impl StackedSymbolTable {
    /// Creates a stack with no scope.
    pub fn new() -> (r: Self)
        ensures
            r@ == Seq::<Seq<(Seq<char>, Symbol)>>::empty(),
    {
        let r = StackedSymbolTable { scopes: Vec::new() };
        proof {
            assert(r@ =~= Seq::<Seq<(Seq<char>, Symbol)>>::empty());
        }
        r
    }

    /// Number of scopes currently on the stack.
    pub fn depth(&self) -> (n: usize)
        ensures
            n == self@.len(),
    {
        self.scopes.len()
    }

    /// Creates and activates a new, empty scope.
    pub fn push_new(&mut self)
        ensures
            final(self)@ == old(self)@.push(Seq::<(Seq<char>, Symbol)>::empty()),
    {
        self.scopes.push(SymbolTable::new());
        proof {
            assert(self@ =~= old(self)@.push(Seq::<(Seq<char>, Symbol)>::empty()));
        }
    }

    /// Deactivates the most recently pushed scope: its bindings become
    /// unreachable for all later lookups.
    pub fn pop(&mut self)
        requires
            old(self)@.len() > 0,
        ensures
            final(self)@ == old(self)@.drop_last(),
    {
        let n = self.scopes.len();
        let _ = self.scopes.remove(n - 1);
        proof {
            assert(self@ =~= old(self)@.drop_last());
        }
    }

    /// Binds `name` in the current (innermost) scope.
    pub fn insert(&mut self, name: &String, symbol: Symbol)
        requires
            old(self)@.len() > 0,
        ensures
            final(self)@ == old(self)@.update(
                old(self)@.len() - 1,
                old(self)@.last().push((name@, symbol)),
            ),
            final(self)@.len() == old(self)@.len(),
    {
        let n = self.scopes.len();
        let t = &mut self.scopes[n - 1];

        t.insert(name, symbol);
        proof {
            assert(self@ =~= old(self)@.update(
                old(self)@.len() - 1,
                old(self)@.last().push((name@, symbol)),
            ));
        }
    }

    /// Searches the scopes from innermost to outermost; first match wins.
    pub fn lookup(&self, name: &String) -> (r: Option<&Symbol>)
        ensures
            match r {
                Some(s) => stack_lookup(self@, name@) == Some(*s),
                None => stack_lookup(self@, name@) is None,
            },
    {
        let ghost sc = self@;
        let mut i = self.scopes.len();
        proof {
            assert(sc.take(sc.len() as int) =~= sc);
        }
        while i > 0
            invariant
                i <= self.scopes@.len(),
                sc == self@,
                stack_lookup(sc, name@) == stack_lookup(sc.take(i as int), name@),
            decreases i,
        {
            i = i - 1;
            proof {
                assert(sc.take(i as int + 1).last() == sc[i as int]);
                assert(sc.take(i as int + 1).drop_last() =~= sc.take(i as int));
            }
            let r = self.scopes[i].lookup(name);
            if r.is_some() {
                return r;
            }
        }
        proof {
            assert(sc.take(0) =~= Seq::<Seq<(Seq<char>, Symbol)>>::empty());
        }
        None
    }
}

} // verus!
