use super::code::{make_spec, OpCode};
use super::symbol_table::{define_builtin_spec, define_spec, resolve_spec, Symbol, SymbolScope, TableV};
use crate::ast::{ExpressionV, NodeExpressionV, NodeStatementV, StatementV};
use crate::builtins::{builtin_at, builtin_name};
use crate::error::{CompilerError, MonkeyError, MonkeyResult, Position};
use crate::object::ObjectV;
use crate::token::TokenV;
use vstd::prelude::*;

verus! {

// ---------------------------------------------------------------------------------------------
// What the compiler accepts
// ---------------------------------------------------------------------------------------------

/// The operation that an infix operator compiles to; `<` and `<=` compile to `>` and `>=` with
/// their operands swapped.
pub open spec fn infix_opcode(t: TokenV) -> Option<OpCode> {
    match t {
        TokenV::Plus => Some(OpCode::OpAdd),
        TokenV::Minus => Some(OpCode::OpSub),
        TokenV::Asterisk => Some(OpCode::OpMul),
        TokenV::Slash => Some(OpCode::OpDiv),
        TokenV::Exponent => Some(OpCode::OpExponent),
        TokenV::Modulo => Some(OpCode::OpModulo),
        TokenV::Equals => Some(OpCode::OpEquals),
        TokenV::NotEquals => Some(OpCode::OpNotEquals),
        TokenV::GreaterThan | TokenV::LessThan => Some(OpCode::OpGreaterThan),
        TokenV::GreaterEq | TokenV::LessEq => Some(OpCode::OpGreaterEq),
        _ => None,
    }
}

/// The operation that loads the value of a symbol.
pub open spec fn load_opcode(s: Symbol) -> OpCode {
    match s.scope {
        SymbolScope::Global => OpCode::OpGetGlobal,
        SymbolScope::Local => OpCode::OpGetLocal,
        SymbolScope::Builtin => OpCode::OpGetBuiltin,
        SymbolScope::Free => OpCode::OpGetFree,
    }
}

// ---------------------------------------------------------------------------------------------
// The model of the compiler
// ---------------------------------------------------------------------------------------------

/// A compilation scope: its instructions so far, and the operation of the last one emitted.
pub struct ScopeV {
    pub instructions: Seq<u8>,
    pub last: Option<OpCode>,
}

/// The compiler: its scopes, innermost last, the constant pool, and the symbol table of the
/// innermost scope.
pub struct CompilerV {
    pub scopes: Seq<ScopeV>,
    pub constants: Seq<ObjectV>,
    pub table: TableV,
}

pub enum CompilerErrorV {
    InvalidReturn,
    LiteralTooBig,
    IdenNotFound(Seq<char>),
    Unsupported,
}

impl View for CompilerError {
    type V = CompilerErrorV;

    open spec fn view(&self) -> CompilerErrorV {
        match self {
            CompilerError::InvalidReturn => CompilerErrorV::InvalidReturn,
            CompilerError::LiteralTooBig => CompilerErrorV::LiteralTooBig,
            CompilerError::IdenNotFound(s) => CompilerErrorV::IdenNotFound(s@),
            CompilerError::Unsupported => CompilerErrorV::Unsupported,
        }
    }
}

/// What compiling gives: success, or an error with the position where it arose.
pub type CompileOutcome = Result<(), (Position, CompilerErrorV)>;

#[verifier::opaque]
pub open spec fn top_instructions(c: CompilerV) -> Seq<u8> {
    c.scopes.last().instructions
}

/// Appends an instruction to the innermost scope; also gives the position where it starts.
#[verifier::opaque]
pub open spec fn emit(c: CompilerV, op: OpCode, operands: Seq<usize>) -> (CompilerV, int) {
    let sc = c.scopes.last();
    (
        CompilerV {
            scopes: c.scopes.update(
                c.scopes.len() - 1,
                ScopeV { instructions: sc.instructions + make_spec(op, operands), last: Some(op) },
            ),
            constants: c.constants,
            table: c.table,
        },
        sc.instructions.len() as int,
    )
}

/// Adds a constant to the pool; also gives its index.
#[verifier::opaque]
pub open spec fn add_constant(c: CompilerV, o: ObjectV) -> (CompilerV, int) {
    (CompilerV { scopes: c.scopes, constants: c.constants.push(o), table: c.table }, c.constants.len() as int)
}

/// Sets the target of the jump instruction at `pos` of the innermost scope.
#[verifier::opaque]
pub open spec fn set_jump_target(c: CompilerV, pos: int, target: usize) -> CompilerV {
    let sc = c.scopes.last();
    let ins = sc.instructions.update(pos + 1, ((target % 65536) / 256) as u8).update(
        pos + 2,
        (target % 256) as u8,
    );
    CompilerV {
        scopes: c.scopes.update(c.scopes.len() - 1, ScopeV { instructions: ins, last: sc.last }),
        constants: c.constants,
        table: c.table,
    }
}

#[verifier::opaque]
pub open spec fn with_table(c: CompilerV, t: TableV) -> CompilerV {
    CompilerV { scopes: c.scopes, constants: c.constants, table: t }
}

/// The enclosing scopes are untouched, and the innermost one has only grown.
pub open spec fn shape_kept(a: CompilerV, b: CompilerV) -> bool {
    &&& b.scopes.len() == a.scopes.len()
    &&& b.scopes.drop_last() == a.scopes.drop_last()
    &&& top_instructions(b).len() >= top_instructions(a).len()
}

/// Enters a function: a new, empty scope with a symbol table nested in the current one.
#[verifier::opaque]
pub open spec fn enter_scope(c: CompilerV) -> CompilerV {
    CompilerV {
        scopes: c.scopes.push(ScopeV { instructions: seq![], last: None }),
        constants: c.constants,
        table: TableV {
            store: seq![],
            num_definitions: 0,
            free_symbols: seq![],
            outer: Some(Box::new(c.table)),
        },
    }
}

/// Leaves a function: drops the innermost scope and its symbol table.
#[verifier::opaque]
pub open spec fn leave_scope(c: CompilerV) -> CompilerV {
    CompilerV {
        scopes: c.scopes.drop_last(),
        constants: c.constants,
        table: match c.table.outer {
            Some(o) => *o,
            None => c.table,
        },
    }
}

/// Defines the parameters from index `i` on, in order.
#[verifier::opaque]
pub open spec fn define_params(c: CompilerV, params: Seq<Seq<char>>, i: int) -> CompilerV
    decreases params.len() - i,
{
    if i < 0 || i >= params.len() {
        c
    } else {
        define_params(with_table(c, define_spec(c.table, params[i]).0), params, i + 1)
    }
}

/// Loads the symbols from index `i` on, in order.
#[verifier::opaque]
pub open spec fn load_symbols(c: CompilerV, syms: Seq<Symbol>, i: int) -> CompilerV
    decreases syms.len() - i,
{
    if i < 0 || i >= syms.len() {
        c
    } else {
        load_symbols(emit(c, load_opcode(syms[i]), seq![syms[i].index]).0, syms, i + 1)
    }
}

// ---------------------------------------------------------------------------------------------
// Compilation
// ---------------------------------------------------------------------------------------------

/// Compiles an expression: its value ends up on top of the stack.
#[verifier::opaque]
pub open spec fn compile_expr(c: CompilerV, e: NodeExpressionV) -> (CompilerV, CompileOutcome)
    decreases e, 1nat,
{
    let pos = e.position;
    match e.expression {
        ExpressionV::InfixExpression(a, op, b) => {
            let swap = op == TokenV::LessThan || op == TokenV::LessEq;
            let (c1, r1) = if swap {
                compile_expr(c, *b)
            } else {
                compile_expr(c, *a)
            };
            if r1 is Err {
                (c1, r1)
            } else {
                let (c2, r2) = if swap {
                    compile_expr(c1, *a)
                } else {
                    compile_expr(c1, *b)
                };
                if r2 is Err {
                    (c2, r2)
                } else if infix_opcode(op) is None {
                    (c2, Err((pos, CompilerErrorV::Unsupported)))
                } else {
                    (emit(c2, infix_opcode(op)->Some_0, seq![]).0, Ok(()))
                }
            }
        },
        ExpressionV::PrefixExpression(op, a) => {
            let (c1, r1) = compile_expr(c, *a);
            if r1 is Err {
                (c1, r1)
            } else if op == TokenV::Minus {
                (emit(c1, OpCode::OpPrefixMinus, seq![]).0, Ok(()))
            } else if op == TokenV::Bang {
                (emit(c1, OpCode::OpPrefixNot, seq![]).0, Ok(()))
            } else {
                (c1, Err((pos, CompilerErrorV::Unsupported)))
            }
        },
        ExpressionV::IntLiteral(i) => {
            let (c1, idx) = add_constant(c, ObjectV::Integer(i));
            (emit(c1, OpCode::OpConstant, seq![idx as usize]).0, Ok(()))
        },
        ExpressionV::Boolean(b) => if b {
            (emit(c, OpCode::OpTrue, seq![]).0, Ok(()))
        } else {
            (emit(c, OpCode::OpFalse, seq![]).0, Ok(()))
        },
        ExpressionV::StringLiteral(s) => {
            let (c1, idx) = add_constant(c, ObjectV::Str(s));
            (emit(c1, OpCode::OpConstant, seq![idx as usize]).0, Ok(()))
        },
        ExpressionV::ArrayLiteral(v) => if v.len() > 65536 {
            (c, Err((pos, CompilerErrorV::LiteralTooBig)))
        } else {
            let (c1, r1) = compile_list(c, v, 0);
            if r1 is Err {
                (c1, r1)
            } else {
                (emit(c1, OpCode::OpArray, seq![v.len() as usize]).0, Ok(()))
            }
        },
        ExpressionV::HashLiteral(v) => if v.len() > 65536 {
            (c, Err((pos, CompilerErrorV::LiteralTooBig)))
        } else {
            let (c1, r1) = compile_pairs(c, v, 0);
            if r1 is Err {
                (c1, r1)
            } else {
                (emit(c1, OpCode::OpHash, seq![v.len() as usize]).0, Ok(()))
            }
        },
        ExpressionV::Nil => (emit(c, OpCode::OpNil, seq![]).0, Ok(())),
        ExpressionV::IfExpression { condition, consequence, alternative } => {
            let (c1, r1) = compile_expr(c, *condition);
            if r1 is Err {
                (c1, r1)
            } else {
                let (c2, jnt) = emit(c1, OpCode::OpJumpNotTruthy, seq![9999]);
                let (c3, r3) = compile_block(c2, consequence);
                if r3 is Err {
                    (c3, r3)
                } else {
                    let (c4, jmp) = emit(c3, OpCode::OpJump, seq![9999]);
                    let c5 = set_jump_target(c4, jnt, top_instructions(c4).len() as usize);
                    let (c6, r6) = compile_block(c5, alternative);
                    if r6 is Err {
                        (c6, r6)
                    } else {
                        (set_jump_target(c6, jmp, top_instructions(c6).len() as usize), Ok(()))
                    }
                }
            }
        },
        ExpressionV::Identifier(name) => {
            let (t1, r) = resolve_spec(c.table, name);
            let c1 = with_table(c, t1);
            match r {
                None => (c1, Err((pos, CompilerErrorV::IdenNotFound(name)))),
                Some(s) => (emit(c1, load_opcode(s), seq![s.index]).0, Ok(())),
            }
        },
        ExpressionV::IndexExpression(a, b) => {
            let (c1, r1) = compile_expr(c, *a);
            if r1 is Err {
                (c1, r1)
            } else {
                let (c2, r2) = compile_expr(c1, *b);
                if r2 is Err {
                    (c2, r2)
                } else {
                    (emit(c2, OpCode::OpIndex, seq![]).0, Ok(()))
                }
            }
        },
        ExpressionV::FunctionLiteral { parameters, body } => compile_function_spec(c, parameters, body),
        ExpressionV::CallExpression { function, arguments } => {
            let (c1, r1) = compile_expr(c, *function);
            if r1 is Err {
                (c1, r1)
            } else {
                let (c2, r2) = compile_list(c1, arguments, 0);
                if r2 is Err {
                    (c2, r2)
                } else {
                    (emit(c2, OpCode::OpCall, seq![arguments.len() as usize]).0, Ok(()))
                }
            }
        },
        ExpressionV::BlockExpression(_) => (c, Err((pos, CompilerErrorV::Unsupported))),
    }
}

/// Compiles a function literal: its body in a scope of its own, with the parameters defined
/// first and a return added unless it ends with one; then, in the enclosing scope, the values of
/// the symbols it captures are loaded and a closure is built of them and the compiled function.
#[verifier::opaque]
pub open spec fn compile_function_spec(
    c: CompilerV,
    parameters: Seq<Seq<char>>,
    body: Seq<NodeStatementV>,
) -> (CompilerV, CompileOutcome)
    decreases body, body.len() + 2,
{
    let c1 = define_params(enter_scope(c), parameters, 0);
    let (c2, r2) = compile_block(c1, body);
    if r2 is Err {
        (c2, r2)
    } else {
        let c3 = if c2.scopes.last().last == Some(OpCode::OpReturn) {
            c2
        } else {
            emit(c2, OpCode::OpReturn, seq![]).0
        };
        let num_locals = (c3.table.num_definitions % 256) as u8;
        let free = c3.table.free_symbols;
        let ins = top_instructions(c3);
        let c4 = load_symbols(leave_scope(c3), free, 0);
        let f = ObjectV::CompiledFunc(ins, num_locals, (parameters.len() % 256) as u8);
        let (c5, idx) = add_constant(c4, f);
        (emit(c5, OpCode::OpClosure, seq![idx as usize, free.len() as usize]).0, Ok(()))
    }
}

/// Compiles the expressions of `v` from index `i` on, in order.
#[verifier::opaque]
pub open spec fn compile_list(c: CompilerV, v: Seq<NodeExpressionV>, i: int) -> (
    CompilerV,
    CompileOutcome,
)
    decreases v, v.len() - i,
{
    if i < 0 || i >= v.len() {
        (c, Ok(()))
    } else {
        let (c1, r1) = compile_expr(c, v[i]);
        if r1 is Err {
            (c1, r1)
        } else {
            compile_list(c1, v, i + 1)
        }
    }
}

/// Compiles the entries of a hash literal from index `i` on: each key, then its value.
#[verifier::opaque]
pub open spec fn compile_pairs(c: CompilerV, v: Seq<(NodeExpressionV, NodeExpressionV)>, i: int) -> (
    CompilerV,
    CompileOutcome,
)
    decreases v, v.len() - i,
{
    if i < 0 || i >= v.len() {
        (c, Ok(()))
    } else {
        let (c1, r1) = compile_expr(c, v[i].0);
        if r1 is Err {
            (c1, r1)
        } else {
            let (c2, r2) = compile_expr(c1, v[i].1);
            if r2 is Err {
                (c2, r2)
            } else {
                compile_pairs(c2, v, i + 1)
            }
        }
    }
}

/// Compiles a block: its value, that of its last statement (`nil` when it has none), ends up
/// on top of the stack.
#[verifier::opaque]
pub open spec fn compile_block(c: CompilerV, block: Seq<NodeStatementV>) -> (
    CompilerV,
    CompileOutcome,
)
    decreases block, block.len() + 1,
{
    if block.len() == 0 {
        (emit(c, OpCode::OpNil, seq![]).0, Ok(()))
    } else {
        compile_stmts(c, block, 0)
    }
}

/// Compiles the statements of a block from index `i` on.
#[verifier::opaque]
pub open spec fn compile_stmts(c: CompilerV, block: Seq<NodeStatementV>, i: int) -> (
    CompilerV,
    CompileOutcome,
)
    decreases block, block.len() - i,
{
    if i < 0 || i >= block.len() {
        (c, Ok(()))
    } else {
        let (c1, r1) = compile_stmt(c, block[i], i == block.len() - 1);
        if r1 is Err {
            (c1, r1)
        } else {
            compile_stmts(c1, block, i + 1)
        }
    }
}

/// Compiles a statement; the last statement of a block leaves its value on the stack.
#[verifier::opaque]
pub open spec fn compile_stmt(c: CompilerV, st: NodeStatementV, last: bool) -> (
    CompilerV,
    CompileOutcome,
)
    decreases st, 0nat,
{
    match st.statement {
        StatementV::ExpressionStatement(e) => compile_expr_stmt(c, *e, last),
        StatementV::Let(name, e) => compile_let(c, name, *e, last),
        StatementV::Return(e) => compile_return(c, *e, st.position),
    }
}

/// An expression statement: its value is popped unless it is the last of its block.
#[verifier::opaque]
pub open spec fn compile_expr_stmt(c: CompilerV, e: NodeExpressionV, last: bool) -> (
    CompilerV,
    CompileOutcome,
)
    decreases e, 2nat,
{
    let (c1, r1) = compile_expr(c, e);
    if r1 is Err || last {
        (c1, r1)
    } else {
        (emit(c1, OpCode::OpPop, seq![]).0, Ok(()))
    }
}

/// A `let` statement: the value, then the name defined and the value stored in it; as the last
/// statement of a block, it gives `nil`.
#[verifier::opaque]
pub open spec fn compile_let(c: CompilerV, name: Seq<char>, e: NodeExpressionV, last: bool) -> (
    CompilerV,
    CompileOutcome,
)
    decreases e, 2nat,
{
    let (c1, r1) = compile_expr(c, e);
    if r1 is Err {
        (c1, r1)
    } else {
        let (t2, s) = define_spec(c1.table, name);
        let op = if s.scope == SymbolScope::Global {
            OpCode::OpSetGlobal
        } else {
            OpCode::OpSetLocal
        };
        let c3 = emit(with_table(c1, t2), op, seq![s.index]).0;
        if last {
            (emit(c3, OpCode::OpNil, seq![]).0, Ok(()))
        } else {
            (c3, Ok(()))
        }
    }
}

/// A `return` statement, which is refused outside of a function.
#[verifier::opaque]
pub open spec fn compile_return(c: CompilerV, e: NodeExpressionV, pos: Position) -> (
    CompilerV,
    CompileOutcome,
)
    decreases e, 2nat,
{
    if c.scopes.len() == 1 {
        (c, Err((pos, CompilerErrorV::InvalidReturn)))
    } else {
        let (c1, r1) = compile_expr(c, e);
        if r1 is Err {
            (c1, r1)
        } else {
            (emit(c1, OpCode::OpReturn, seq![]).0, Ok(()))
        }
    }
}

/// The symbol table with the built-in functions from position `k` of the fixed order on
/// defined, under their names.
pub open spec fn builtins_table(t: TableV, k: int) -> TableV
    decreases 9 - k,
{
    if k < 0 || k >= 9 {
        t
    } else {
        builtins_table(
            define_builtin_spec(t, builtin_name(builtin_at(k)->Some_0), k as usize).0,
            k + 1,
        )
    }
}

/// A new compiler: one empty scope, no constants, and the built-in functions defined.
pub open spec fn initial_compiler() -> CompilerV {
    CompilerV {
        scopes: seq![ScopeV { instructions: seq![], last: None }],
        constants: seq![],
        table: builtins_table(
            TableV { store: seq![], num_definitions: 0, free_symbols: seq![], outer: None },
            0,
        ),
    }
}

// ---------------------------------------------------------------------------------------------
// The compiler
// ---------------------------------------------------------------------------------------------

/// The outcome of compiling: compiling only fails with compiler errors.
pub open spec fn compile_outcome(r: MonkeyResult<()>) -> CompileOutcome {
    match r {
        Ok(()) => Ok(()),
        Err(MonkeyError::Compiler(p, e)) => Err((p, e@)),
        Err(_) => Err(((0usize, 0usize), CompilerErrorV::InvalidReturn)),
    }
}

/// Whether compiling reached an expression that the compiler has no instructions for.
pub open spec fn reaches_unsupported(r: CompileOutcome) -> bool {
    r matches Err((_, e)) && e == CompilerErrorV::Unsupported
}

pub open spec fn compiler_only(r: MonkeyResult<()>) -> bool {
    r is Err ==> r->Err_0 is Compiler
}


} // verus!
