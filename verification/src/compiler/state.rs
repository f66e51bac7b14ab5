use super::code::{
    make, operand_widths_spec, total_width, Bytecode, Instructions, OpCode,
};
use super::symbol_table::{
    define_spec, depth, lemma_resolve_keeps_depth, resolve_spec, Symbol, SymbolScope,
    SymbolTable, TableV,
};
use super::{
    shape_kept, add_constant, builtins_table, emit, enter_scope, initial_compiler, leave_scope,
    load_opcode, set_jump_target, top_instructions, with_table, CompilerV, ScopeV,
};
use crate::builtins::{BuiltinFn, NUM_BUILTINS};
use crate::object::{
    clone_objects, lemma_objects_view_len, objects_view, Object, ObjectV,
};
use vstd::prelude::*;

verus! {

/// The instructions of one scope being compiled, and the operation of the last one emitted.
pub struct CompilationScope {
    instructions: Instructions,
    last_instruction: Option<OpCode>,
}

/// Compiles syntax trees to bytecode.
pub struct Compiler {
    scopes: Vec<CompilationScope>,
    constants: Vec<Object>,
    symbol_table: SymbolTable,
}

impl View for Compiler {
    type V = CompilerV;

    closed spec fn view(&self) -> CompilerV {
        CompilerV {
            scopes: self.scopes@.map_values(
                |s: CompilationScope| ScopeV { instructions: s.instructions.0@, last: s.last_instruction },
            ),
            constants: objects_view(self.constants@),
            table: self.symbol_table@,
        }
    }
}


pub closed spec fn scopes_view(s: Seq<CompilationScope>) -> Seq<ScopeV> {
    s.map_values(|s: CompilationScope| ScopeV { instructions: s.instructions.0@, last: s.last_instruction })
}


impl Compiler {
    /// The scopes match the nesting of the symbol tables: one scope per table.
    pub closed spec fn wf(&self) -> bool {
        &&& self.symbol_table.wf()
        &&& self.scopes@.len() == depth(self.symbol_table@) + 1
    }

    /// A well-formed compiler has at least one scope.
    pub proof fn lemma_wf_scopes(&self)
        requires
            self.wf(),
        ensures
            self@.scopes.len() >= 1,
    {
    }

    proof fn lemma_view(&self)
        ensures
            self@.scopes == scopes_view(self.scopes@),
            self@.constants == objects_view(self.constants@),
            self@.table == self.symbol_table@,
    {
    }

    /// A compiler with one empty scope, no constants, and the built-in functions defined in
    /// their fixed order.
    pub fn new() -> (c: Compiler)
        ensures
            c.wf(),
            c@ == initial_compiler(),
    {
        let mut table = SymbolTable::new();
        let mut k: u8 = 0;
        while k < NUM_BUILTINS
            invariant
                k <= 9,
                table.wf(),
                table@.outer is None,
                builtins_table(table@, k as int) == builtins_table(
                    TableV { store: seq![], num_definitions: 0, free_symbols: seq![], outer: None },
                    0,
                ),
            decreases 9 - k,
        {
            let b = BuiltinFn::from_index(k).unwrap();
            table.define_builtin(String::from_str(b.name()), k as usize);
            k = k + 1;
        }
        let mut scopes: Vec<CompilationScope> = Vec::new();
        scopes.push(CompilationScope { instructions: Instructions(Vec::new()), last_instruction: None });
        assert(builtins_table(table@, 9) == table@);
        let c = Compiler { scopes, constants: Vec::new(), symbol_table: table };
        assert(c@.scopes[0].instructions =~= Seq::<u8>::empty());
        assert(c@.scopes =~~= initial_compiler().scopes);
        assert(c@.constants =~= Seq::<ObjectV>::empty());
        c
    }

    /// Appends an instruction to the innermost scope, and returns the position where it starts.
    pub(crate) fn emit(&mut self, op: OpCode, operands: &[usize]) -> (pos: usize)
        requires
            old(self).wf(),
            operands@.len() == operand_widths_spec(op).len(),
        ensures
            shape_kept(old(self)@, final(self)@),
            top_instructions(final(self)@).len() == top_instructions(old(self)@).len() + 1
                + total_width(operand_widths_spec(op)),
            final(self)@.table == old(self)@.table,
            final(self).wf(),
            (final(self)@, pos as int) == emit(old(self)@, op, operands@),
    {
        proof {
            reveal(emit);
            reveal(top_instructions);
        }
        let ins = make(op, operands);
        let mut sc = self.scopes.pop().unwrap();
        let ghost start = sc.instructions.0@;
        let pos = sc.instructions.0.len();
        let mut i: usize = 0;
        while i < ins.len()
            invariant
                i <= ins@.len(),
                sc.instructions.0@ == start + ins@.take(i as int),
            decreases ins@.len() - i,
        {
            sc.instructions.0.push(ins[i]);
            assert(sc.instructions.0@ =~= start + ins@.take(i + 1));
            i = i + 1;
        }
        assert(ins@.take(ins@.len() as int) =~= ins@);
        sc.last_instruction = Some(op);
        self.scopes.push(sc);
        assert(self@.scopes =~= emit(old(self)@, op, operands@).0.scopes);
        assert(self@.scopes.drop_last() =~= old(self)@.scopes.drop_last());
        pos
    }

    pub(crate) fn emit0(&mut self, op: OpCode)
        requires
            old(self).wf(),
            operand_widths_spec(op).len() == 0,
        ensures
            shape_kept(old(self)@, final(self)@),
            final(self)@.table == old(self)@.table,
            final(self).wf(),
            final(self)@ == emit(old(self)@, op, seq![]).0,
    {
        let v: Vec<usize> = Vec::new();
        assert(v@ =~= seq![]);
        self.emit(op, v.as_slice());
    }

    pub(crate) fn emit1(&mut self, op: OpCode, a: usize) -> (pos: usize)
        requires
            old(self).wf(),
            operand_widths_spec(op).len() == 1,
        ensures
            shape_kept(old(self)@, final(self)@),
            final(self)@.table == old(self)@.table,
            pos == top_instructions(old(self)@).len(),
            op == OpCode::OpJump || op == OpCode::OpJumpNotTruthy ==> pos + 3 == top_instructions(final(self)@).len(),
            final(self).wf(),
            (final(self)@, pos as int) == emit(old(self)@, op, seq![a]),
    {
        let mut v: Vec<usize> = Vec::new();
        v.push(a);
        assert(v@ =~= seq![a]);
        proof {
            reveal(emit);
            reveal(top_instructions);
            reveal_with_fuel(total_width, 2);
            assert(operand_widths_spec(OpCode::OpJump).skip(1) =~= Seq::<usize>::empty());
        }
        self.emit(op, v.as_slice())
    }

    pub(crate) fn emit2(&mut self, op: OpCode, a: usize, b: usize)
        requires
            old(self).wf(),
            operand_widths_spec(op).len() == 2,
        ensures
            shape_kept(old(self)@, final(self)@),
            final(self)@.table == old(self)@.table,
            final(self).wf(),
            final(self)@ == emit(old(self)@, op, seq![a, b]).0,
    {
        let mut v: Vec<usize> = Vec::new();
        v.push(a);
        v.push(b);
        assert(v@ =~= seq![a, b]);
        self.emit(op, v.as_slice());
    }

    /// Adds a constant to the pool, and returns its index.
    pub(crate) fn add_constant(&mut self, obj: Object) -> (idx: usize)
        requires
            old(self).wf(),
        ensures
            shape_kept(old(self)@, final(self)@),
            final(self)@.scopes == old(self)@.scopes,
            final(self)@.table == old(self)@.table,
            final(self).wf(),
            (final(self)@, idx as int) == add_constant(old(self)@, obj@),
    {
        proof {
            reveal(add_constant);
            reveal(top_instructions);
        }
        let ghost prev = self.constants@;
        proof {
            lemma_objects_view_len(prev);
        }
        let idx = self.constants.len();
        let ghost ov = obj@;
        self.constants.push(obj);
        assert(self.constants@.drop_last() =~= prev);
        assert(objects_view(self.constants@) == objects_view(prev).push(ov));
        idx
    }

    /// Sets the target of the jump instruction at `pos` of the innermost scope.
    pub(crate) fn set_jump_target(&mut self, pos: usize, target: usize)
        requires
            old(self).wf(),
            pos + 3 <= top_instructions(old(self)@).len(),
        ensures
            shape_kept(old(self)@, final(self)@),
            top_instructions(final(self)@).len() == top_instructions(old(self)@).len(),
            final(self).wf(),
            final(self)@ == set_jump_target(old(self)@, pos as int, target),
    {
        proof {
            reveal(set_jump_target);
            reveal(top_instructions);
        }
        let mut sc = self.scopes.pop().unwrap();
        let n = sc.instructions.0.len();
        assert(pos + 3 <= n);
        sc.instructions.0.set(pos + 1, ((target % 65536) / 256) as u8);
        sc.instructions.0.set(pos + 2, (target % 256) as u8);
        self.scopes.push(sc);
        assert(self@.scopes =~= set_jump_target(old(self)@, pos as int, target).scopes);
        assert(self@.scopes.drop_last() =~= old(self)@.scopes.drop_last());
    }

    /// The length of the instructions of the innermost scope.
    pub(crate) fn top_len(&self) -> (r: usize)
        requires
            self.wf(),
        ensures
            r == top_instructions(self@).len(),
    {
        proof {
            reveal(top_instructions);
        }
        self.scopes[self.scopes.len() - 1].instructions.0.len()
    }

    pub(crate) fn enter_scope(&mut self)
        requires
            old(self).wf(),
        ensures
            final(self)@.scopes.len() == old(self)@.scopes.len() + 1,
            final(self)@.scopes.drop_last() == old(self)@.scopes,
            final(self).wf(),
            final(self)@ == enter_scope(old(self)@),
    {
        proof {
            reveal(enter_scope);
        }
        self.scopes.push(CompilationScope { instructions: Instructions(Vec::new()), last_instruction: None });
        let mut t = SymbolTable::new();
        std::mem::swap(&mut t, &mut self.symbol_table);
        self.symbol_table = SymbolTable::from_outer(Box::new(t));
        assert(self@.scopes.last().instructions =~= Seq::<u8>::empty());
        assert(self@.scopes =~~= enter_scope(old(self)@).scopes);
        assert(self@.scopes.drop_last() =~= old(self)@.scopes);
    }

    pub(crate) fn leave_scope(&mut self) -> (r: Instructions)
        requires
            old(self).wf(),
            old(self)@.scopes.len() >= 2,
        ensures
            final(self)@.scopes == old(self)@.scopes.drop_last(),
            final(self).wf(),
            final(self)@ == leave_scope(old(self)@),
            r.0@ == top_instructions(old(self)@),
    {
        proof {
            reveal(leave_scope);
            reveal(top_instructions);
        }
        let mut t = SymbolTable::new();
        std::mem::swap(&mut t, &mut self.symbol_table);
        match t.into_outer() {
            Some(o) => {
                self.symbol_table = *o;
            },
            None => {},
        }
        let sc = self.scopes.pop().unwrap();
        assert(self@.scopes =~= leave_scope(old(self)@).scopes);
        sc.instructions
    }

    pub(crate) fn load_symbol(&mut self, s: Symbol)
        requires
            old(self).wf(),
        ensures
            shape_kept(old(self)@, final(self)@),
            final(self)@.table == old(self)@.table,
            final(self).wf(),
            final(self)@ == emit(old(self)@, load_opcode(s), seq![s.index]).0,
    {
        let op = match s.scope {
            SymbolScope::Global => OpCode::OpGetGlobal,
            SymbolScope::Local => OpCode::OpGetLocal,
            SymbolScope::Builtin => OpCode::OpGetBuiltin,
            SymbolScope::Free => OpCode::OpGetFree,
        };
        self.emit1(op, s.index);
    }

    /// The number of scopes.
    pub(crate) fn scope_count(&self) -> (r: usize)
        requires
            self.wf(),
        ensures
            r == self@.scopes.len(),
    {
        self.scopes.len()
    }

    /// Whether the last instruction emitted in the innermost scope is a return.
    pub(crate) fn last_is_return(&self) -> (r: bool)
        requires
            self.wf(),
        ensures
            r == (self@.scopes.last().last == Some(OpCode::OpReturn)),
    {
        matches!(self.scopes[self.scopes.len() - 1].last_instruction, Some(OpCode::OpReturn))
    }

    /// Defines `name` in the symbol table of the innermost scope.
    pub(crate) fn define_name(&mut self, name: String) -> (s: Symbol)
        requires
            old(self).wf(),
        ensures
            final(self)@.scopes == old(self)@.scopes,
            final(self).wf(),
            final(self)@ == with_table(old(self)@, define_spec(old(self)@.table, name@).0),
            s == define_spec(old(self)@.table, name@).1,
    {
        proof {
            reveal(with_table);
        }
        let s = self.symbol_table.define(name);
        s
    }

    /// Resolves `name` in the symbol table of the innermost scope.
    pub(crate) fn resolve_name(&mut self, name: &str) -> (r: Option<Symbol>)
        requires
            old(self).wf(),
        ensures
            final(self)@.scopes == old(self)@.scopes,
            final(self).wf(),
            final(self)@ == with_table(old(self)@, resolve_spec(old(self)@.table, name@).0),
            r == resolve_spec(old(self)@.table, name@).1,
    {
        proof {
            reveal(with_table);
        }
        proof {
            lemma_resolve_keeps_depth(self@.table, name@);
        }
        self.symbol_table.resolve(name)
    }

    /// The number of definitions, and the captured symbols, of the innermost scope.
    pub(crate) fn scope_summary(&self) -> (r: (usize, Vec<Symbol>))
        requires
            self.wf(),
        ensures
            r.0 == self@.table.num_definitions,
            r.1@ == self@.table.free_symbols,
    {
        let mut free: Vec<Symbol> = Vec::new();
        let fs = self.symbol_table.free_symbols();
        let mut j: usize = 0;
        while j < fs.len()
            invariant
                j <= fs@.len(),
                free@ == fs@.take(j as int),
            decreases fs@.len() - j,
        {
            free.push(fs[j]);
            assert(free@ =~= fs@.take(j + 1));
            j = j + 1;
        }
        assert(fs@.take(fs@.len() as int) =~= fs@);
        (self.symbol_table.num_definitions(), free)
    }

    /// The constant pool.
    pub fn constants(&self) -> (r: &Vec<Object>)
        ensures
            objects_view(r@) == self@.constants,
    {
        &self.constants
    }

    /// The symbol table of the innermost scope.
    pub fn symbol_table(&self) -> (r: &SymbolTable)
        ensures
            r@ == self@.table,
    {
        &self.symbol_table
    }

    /// The compiled program: the instructions of the innermost scope, and the constant pool.
    pub fn bytecode(self) -> (r: Bytecode)
        requires
            self.wf(),
        ensures
            r.instructions.0@ == top_instructions(self@),
            objects_view(r.constants@) == self@.constants,
    {
        proof {
            reveal(top_instructions);
        }
        let mut s = self;
        let sc = s.scopes.pop().unwrap();
        Bytecode { instructions: sc.instructions, constants: s.constants }
    }

    /// Takes out the instructions of the innermost scope, leaving it empty, and returns them with
    /// a copy of the constant pool. The REPL runs each line this way.
    pub fn reset_instructions(&mut self) -> (r: Bytecode)
        requires
            old(self).wf(),
        ensures
            final(self).wf(),
            r.instructions.0@ == top_instructions(old(self)@),
            objects_view(r.constants@) == old(self)@.constants,
            final(self)@ == (CompilerV {
                scopes: old(self)@.scopes.update(
                    old(self)@.scopes.len() - 1,
                    ScopeV { instructions: seq![], last: old(self)@.scopes.last().last },
                ),
                constants: old(self)@.constants,
                table: old(self)@.table,
            }),
    {
        proof {
            reveal(top_instructions);
        }
        let mut sc = self.scopes.pop().unwrap();
        let mut instructions = Instructions(Vec::new());
        std::mem::swap(&mut instructions, &mut sc.instructions);
        self.scopes.push(sc);
        assert(self@.scopes.last().instructions =~= Seq::<u8>::empty());
        assert(self@.scopes =~~= old(self)@.scopes.update(
            old(self)@.scopes.len() - 1,
            ScopeV { instructions: seq![], last: old(self)@.scopes.last().last },
        ));
        let constants = clone_objects(&self.constants);
        Bytecode { instructions, constants }
    }
}


} // verus!
