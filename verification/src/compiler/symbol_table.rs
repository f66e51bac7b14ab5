use vstd::prelude::*;

verus! {

/// Where the value of a symbol lives at run time.
#[derive(PartialEq, Eq, Debug, Clone, Copy, Structural)]
pub enum SymbolScope {
    Builtin,
    Global,
    Local,
    Free,
}

/// A resolved name: where its value lives, and its index there.
#[derive(PartialEq, Eq, Debug, Clone, Copy, Structural)]
pub struct Symbol {
    pub scope: SymbolScope,
    pub index: usize,
}

/// The names defined in one scope of the compiler, with the scope that encloses it.
pub struct SymbolTable {
    outer: Option<Box<SymbolTable>>,
    store: Vec<(String, Symbol)>,
    num_definitions: usize,
    /// The symbols of the enclosing scopes that this scope captures, in order of capture.
    free_symbols: Vec<Symbol>,
}

/// The view of a symbol table: its definitions in order (names as character sequences), the
/// number of ordinary definitions, the captured symbols, and the enclosing table.
pub struct TableV {
    pub store: Seq<(Seq<char>, Symbol)>,
    pub num_definitions: usize,
    pub free_symbols: Seq<Symbol>,
    pub outer: Option<Box<TableV>>,
}

pub closed spec fn table_view(t: SymbolTable) -> TableV
    decreases t,
{
    TableV {
        store: t.store@.map_values(|e: (String, Symbol)| (e.0@, e.1)),
        num_definitions: t.num_definitions,
        free_symbols: t.free_symbols@,
        outer: match t.outer {
            Some(o) => Some(Box::new(table_view(*o))),
            None => None,
        },
    }
}

impl View for SymbolTable {
    type V = TableV;

    closed spec fn view(&self) -> TableV {
        table_view(*self)
    }
}

/// The symbol that a list of definitions gives a name: the latest definition wins.
pub open spec fn lookup(store: Seq<(Seq<char>, Symbol)>, name: Seq<char>) -> Option<Symbol>
    decreases store.len(),
{
    if store.len() == 0 {
        None
    } else if store.last().0 == name {
        Some(store.last().1)
    } else {
        lookup(store.drop_last(), name)
    }
}

pub open spec fn is_global_or_builtin(s: Symbol) -> bool {
    s.scope == SymbolScope::Global || s.scope == SymbolScope::Builtin
}

/// The scope in which new definitions are made: global at the top, local inside a function.
pub open spec fn definition_scope(t: TableV) -> SymbolScope {
    if t.outer is None {
        SymbolScope::Global
    } else {
        SymbolScope::Local
    }
}

/// The number of scopes that enclose a table.
pub open spec fn depth(t: TableV) -> nat
    decreases t,
{
    match t.outer {
        Some(o) => 1 + depth(*o),
        None => 0,
    }
}

/// Defining `name` in a table: the next index of its scope.
pub open spec fn define_spec(t: TableV, name: Seq<char>) -> (TableV, Symbol) {
    let s = Symbol { scope: definition_scope(t), index: t.num_definitions };
    (
        TableV {
            store: t.store.push((name, s)),
            num_definitions: (t.num_definitions + 1) as usize,
            free_symbols: t.free_symbols,
            outer: t.outer,
        },
        s,
    )
}

/// Defining `name` as the built-in function with the given index.
pub open spec fn define_builtin_spec(t: TableV, name: Seq<char>, index: usize) -> (TableV, Symbol) {
    let s = Symbol { scope: SymbolScope::Builtin, index };
    (
        TableV {
            store: t.store.push((name, s)),
            num_definitions: t.num_definitions,
            free_symbols: t.free_symbols,
            outer: t.outer,
        },
        s,
    )
}

/// Capturing `original`, a symbol of an enclosing scope, under `name` as the next free symbol.
pub open spec fn define_free_spec(t: TableV, original: Symbol, name: Seq<char>) -> (TableV, Symbol) {
    let s = Symbol { scope: SymbolScope::Free, index: t.free_symbols.len() as usize };
    (
        TableV {
            store: t.store.push((name, s)),
            num_definitions: t.num_definitions,
            free_symbols: t.free_symbols.push(original),
            outer: t.outer,
        },
        s,
    )
}

/// Resolving `name`: the symbol of this scope if it defines the name; otherwise the enclosing
/// scope's symbol, which, unless it is global or built-in, this scope captures as its next free
/// symbol (the enclosing scopes capture it in turn).
pub open spec fn resolve_spec(t: TableV, name: Seq<char>) -> (TableV, Option<Symbol>)
    decreases t,
{
    match lookup(t.store, name) {
        Some(s) => (t, Some(s)),
        None => match t.outer {
            None => (t, None),
            Some(o) => {
                let (o2, r) = resolve_spec(*o, name);
                let t1 = TableV {
                    store: t.store,
                    num_definitions: t.num_definitions,
                    free_symbols: t.free_symbols,
                    outer: Some(Box::new(o2)),
                };
                match r {
                    None => (t1, None),
                    Some(s) => if is_global_or_builtin(s) {
                        (t1, Some(s))
                    } else {
                        let (t2, f) = define_free_spec(t1, s, name);
                        (t2, Some(f))
                    },
                }
            },
        },
    }
}

/// Resolving a name leaves as many enclosing scopes as there were.
pub proof fn lemma_resolve_keeps_depth(t: TableV, name: Seq<char>)
    ensures
        depth(resolve_spec(t, name).0) == depth(t),
    decreases t,
{
    if lookup(t.store, name) is None {
        if let Some(o) = t.outer {
            lemma_resolve_keeps_depth(*o, name);
        }
    }
}

impl SymbolTable {
    /// The definitions of this scope, and of every enclosing one, are consistent with their
    /// counters.
    pub closed spec fn wf(&self) -> bool
        decreases self,
    {
        &&& self.num_definitions <= self.store@.len()
        &&& match self.outer {
            Some(o) => o.wf(),
            None => true,
        }
    }

    /// The number of (non-built-in, non-free) definitions made in this scope.
    pub fn num_definitions(&self) -> (r: usize)
        ensures
            r == self@.num_definitions,
    {
        self.num_definitions
    }

    /// The captured symbols of enclosing scopes, in order of capture.
    pub fn free_symbols(&self) -> (r: &Vec<Symbol>)
        ensures
            r@ == self@.free_symbols,
    {
        &self.free_symbols
    }

    /// Gives up this scope and returns the table of the enclosing one.
    pub fn into_outer(self) -> (r: Option<Box<SymbolTable>>)
        requires
            self.wf(),
        ensures
            r is Some == self@.outer is Some,
            r matches Some(o) ==> o.wf() && o@ == *self@.outer->Some_0,
    {
        self.outer
    }

    /// A table for the outermost scope.
    pub fn new() -> (t: SymbolTable)
        ensures
            t.wf(),
            t@ == (TableV { store: seq![], num_definitions: 0, free_symbols: seq![], outer: None }),
    {
        let t = SymbolTable { outer: None, store: Vec::new(), num_definitions: 0, free_symbols: Vec::new() };
        assert(t@.store =~= Seq::<(Seq<char>, Symbol)>::empty());
        assert(t@.free_symbols =~= Seq::<Symbol>::empty());
        t
    }

    /// A table for a scope nested in `outer`.
    pub fn from_outer(outer: Box<SymbolTable>) -> (t: SymbolTable)
        requires
            outer.wf(),
        ensures
            t.wf(),
            t@ == (TableV {
                store: seq![],
                num_definitions: 0,
                free_symbols: seq![],
                outer: Some(Box::new(outer@)),
            }),
    {
        let t = SymbolTable {
            outer: Some(outer),
            store: Vec::new(),
            num_definitions: 0,
            free_symbols: Vec::new(),
        };
        assert(t@.store =~= Seq::<(Seq<char>, Symbol)>::empty());
        assert(t@.free_symbols =~= Seq::<Symbol>::empty());
        t
    }

    /// Defines `name` in this scope, with the next index.
    pub fn define(&mut self, name: String) -> (s: Symbol)
        requires
            old(self).wf(),
        ensures
            final(self).wf(),
            (final(self)@, s) == define_spec(old(self)@, name@),
    {
        let scope = if self.outer.is_none() {
            SymbolScope::Global
        } else {
            SymbolScope::Local
        };
        let symbol = Symbol { scope, index: self.num_definitions };
        let ghost name_view = name@;
        self.store.push((name, symbol));
        assert(self.store@.len() == self.store.len());
        self.num_definitions = self.num_definitions + 1;
        assert(self@.store =~= old(self)@.store.push((name_view, symbol)));
        symbol
    }

    /// Defines `name` as the built-in function with the given index.
    pub fn define_builtin(&mut self, name: String, index: usize) -> (s: Symbol)
        requires
            old(self).wf(),
        ensures
            final(self).wf(),
            (final(self)@, s) == define_builtin_spec(old(self)@, name@, index),
    {
        let symbol = Symbol { scope: SymbolScope::Builtin, index };
        let ghost name_view = name@;
        self.store.push((name, symbol));
        assert(self@.store =~= old(self)@.store.push((name_view, symbol)));
        symbol
    }

    /// Captures `original`, a symbol of an enclosing scope, as the next free symbol.
    fn define_free(&mut self, original: Symbol, name: String) -> (s: Symbol)
        requires
            old(self).wf(),
        ensures
            final(self).wf(),
            (final(self)@, s) == define_free_spec(old(self)@, original, name@),
    {
        let symbol = Symbol { scope: SymbolScope::Free, index: self.free_symbols.len() };
        self.free_symbols.push(original);
        let ghost name_view = name@;
        self.store.push((name, symbol));
        assert(self@.store =~= old(self)@.store.push((name_view, symbol)));
        symbol
    }

    /// The latest definition of `name` in this scope alone.
    fn lookup_local(&self, name: &str) -> (r: Option<Symbol>)
        ensures
            r == lookup(self@.store, name@),
    {
        let ghost st = self@.store;
        let target = name.to_owned();
        let mut i = self.store.len();
        assert(st.take(i as int) =~= st);
        while i > 0
            invariant
                i <= self.store@.len(),
                st == self@.store,
                st.len() == self.store@.len(),
                target@ == name@,
                lookup(st, name@) == lookup(st.take(i as int), name@),
            decreases i,
        {
            let ghost prefix = st.take(i as int);
            assert(prefix.drop_last() =~= st.take(i - 1));
            assert(prefix.last() == (self.store@[i - 1].0@, self.store@[i - 1].1));
            if self.store[i - 1].0 == target {
                return Some(self.store[i - 1].1);
            }
            i = i - 1;
        }
        assert(st.take(0) =~= Seq::<(Seq<char>, Symbol)>::empty());
        None
    }

    /// Resolves `name`: in this scope, or else in the enclosing ones. A name that an enclosing
    /// function defines becomes a free symbol of this scope (and of the scopes in between).
    pub fn resolve(&mut self, name: &str) -> (r: Option<Symbol>)
        requires
            old(self).wf(),
        ensures
            final(self).wf(),
            (final(self)@, r) == resolve_spec(old(self)@, name@),
        decreases *old(self),
    {
        if let Some(s) = self.lookup_local(name) {
            return Some(s);
        }
        let outer_result = match &mut self.outer {
            None => None,
            Some(outer) => outer.resolve(name),
        };
        proof {
            assert(self@.store == old(self)@.store);
            assert(self@.free_symbols == old(self)@.free_symbols);
            assert(self@.num_definitions == old(self)@.num_definitions);
        }
        match outer_result {
            None => None,
            Some(s) => {
                if s.scope == SymbolScope::Global || s.scope == SymbolScope::Builtin {
                    Some(s)
                } else {
                    let name_string = name.to_owned();
                    Some(self.define_free(s, name_string))
                }
            },
        }
    }
}

/// Law: a name resolves to the symbol that its latest definition in the same scope returned,
/// and resolving it changes nothing.
pub proof fn lemma_define_then_resolve(t: TableV, name: Seq<char>)
    ensures
        ({
            let (t1, s) = define_spec(t, name);
            resolve_spec(t1, name) == (t1, Some(s))
        }),
{
    let (t1, s) = define_spec(t, name);
    assert(t1.store.drop_last() =~= t.store);
}

/// Law: a nested scope that defines nothing resolves global and built-in names as its enclosing
/// scope does, and captures nothing for them.
pub proof fn lemma_nested_resolves_globals(outer: TableV, name: Seq<char>)
    requires
        resolve_spec(outer, name).1 is Some,
        is_global_or_builtin(resolve_spec(outer, name).1->Some_0),
    ensures
        ({
            let inner = TableV {
                store: seq![],
                num_definitions: 0,
                free_symbols: seq![],
                outer: Some(Box::new(outer)),
            };
            &&& resolve_spec(inner, name).1 == resolve_spec(outer, name).1
            &&& resolve_spec(inner, name).0.free_symbols == Seq::<Symbol>::empty()
        }),
{
}

} // verus!
