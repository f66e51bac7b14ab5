//! One-step unfoldings of the compilation model, each proved on its own so that the functions
//! that follow the model step by step need not reveal the mutually recursive definitions.
use super::code::OpCode;
use super::model::{
    compile_block, compile_expr, compile_expr_stmt, compile_function_spec, compile_let,
    compile_list, compile_pairs, compile_return, compile_stmt, compile_stmts, define_params,
    emit, add_constant, enter_scope, leave_scope, load_symbols, load_opcode, top_instructions,
    with_table, CompilerErrorV, CompilerV,
};
use crate::object::ObjectV;
use super::symbol_table::{define_spec, Symbol, SymbolScope};
use crate::ast::{NodeExpressionV, NodeStatementV, StatementV};
use crate::error::Position;
use vstd::prelude::*;

verus! {

pub proof fn lemma_function_step(c: CompilerV, parameters: Seq<Seq<char>>, body: Seq<NodeStatementV>)
    ensures
        compile_function_spec(c, parameters, body) == {
            let c1 = define_params(enter_scope(c), parameters, 0);
            let (c2, r2) = compile_block(c1, body);
            if r2 is Err {
                (c2, r2)
            } else {
                let c3 = if c2.scopes.last().last == Some(OpCode::OpReturn) {
                    c2
                } else {
                    emit(c2, OpCode::OpReturn, seq![]).0
                };
                let num_locals = (c3.table.num_definitions % 256) as u8;
                let free = c3.table.free_symbols;
                let ins = top_instructions(c3);
                let c4 = load_symbols(leave_scope(c3), free, 0);
                let f = ObjectV::CompiledFunc(ins, num_locals, (parameters.len() % 256) as u8);
                let (c5, idx) = add_constant(c4, f);
                (emit(c5, OpCode::OpClosure, seq![idx as usize, free.len() as usize]).0, Ok(()))
            }
        },
{
    reveal(compile_function_spec);
    reveal(compile_block);
}

pub proof fn lemma_return_refused(c: CompilerV, e: NodeExpressionV, pos: Position)
    requires
        c.scopes.len() == 1,
    ensures
        compile_return(c, e, pos) == (c, Err::<(), _>((pos, CompilerErrorV::InvalidReturn))),
{
    reveal(compile_return);
}

pub proof fn lemma_return_step(c: CompilerV, e: NodeExpressionV, pos: Position)
    requires
        c.scopes.len() != 1,
    ensures
        compile_return(c, e, pos) == {
            let (c1, r1) = compile_expr(c, e);
            if r1 is Err {
                (c1, r1)
            } else {
                (emit(c1, OpCode::OpReturn, seq![]).0, Ok(()))
            }
        },
{
    reveal(compile_return);
    reveal(compile_expr);
}

pub proof fn lemma_expr_stmt_step(c: CompilerV, e: NodeExpressionV, last: bool)
    ensures
        compile_expr_stmt(c, e, last) == {
            let (c1, r1) = compile_expr(c, e);
            if r1 is Err || last {
                (c1, r1)
            } else {
                (emit(c1, OpCode::OpPop, seq![]).0, Ok(()))
            }
        },
{
    reveal(compile_expr_stmt);
    reveal(compile_expr);
}

pub proof fn lemma_let_step(c: CompilerV, name: Seq<char>, e: NodeExpressionV, last: bool)
    ensures
        compile_let(c, name, e, last) == {
            let (c1, r1) = compile_expr(c, e);
            if r1 is Err {
                (c1, r1)
            } else {
                let (t2, s) = define_spec(c1.table, name);
                let op = if s.scope == SymbolScope::Global {
                    OpCode::OpSetGlobal
                } else {
                    OpCode::OpSetLocal
                };
                let c3 = emit(with_table(c1, t2), op, seq![s.index]).0;
                if last {
                    (emit(c3, OpCode::OpNil, seq![]).0, Ok(()))
                } else {
                    (c3, Ok(()))
                }
            }
        },
{
    reveal(compile_let);
    reveal(compile_expr);
}

pub proof fn lemma_stmt_step(c: CompilerV, st: NodeStatementV, last: bool)
    ensures
        compile_stmt(c, st, last) == match st.statement {
            StatementV::ExpressionStatement(e) => compile_expr_stmt(c, *e, last),
            StatementV::Let(name, e) => compile_let(c, name, *e, last),
            StatementV::Return(e) => compile_return(c, *e, st.position),
        },
{
    reveal(compile_stmt);
    reveal(compile_expr_stmt);
    reveal(compile_let);
    reveal(compile_return);
}

pub proof fn lemma_block_empty(c: CompilerV, block: Seq<NodeStatementV>)
    requires
        block.len() == 0,
    ensures
        compile_block(c, block) == (emit(c, OpCode::OpNil, seq![]).0, Ok::<(), (Position, CompilerErrorV)>(())),
{
    reveal(compile_block);
}

pub proof fn lemma_block_stmts(c: CompilerV, block: Seq<NodeStatementV>)
    requires
        block.len() > 0,
    ensures
        compile_block(c, block) == compile_stmts(c, block, 0),
{
    reveal(compile_block);
    reveal(compile_stmts);
}

pub proof fn lemma_stmts_step(c: CompilerV, block: Seq<NodeStatementV>, i: int)
    requires
        0 <= i < block.len(),
    ensures
        compile_stmts(c, block, i) == {
            let (c1, r1) = compile_stmt(c, block[i], i == block.len() - 1);
            if r1 is Err {
                (c1, r1)
            } else {
                compile_stmts(c1, block, i + 1)
            }
        },
{
    reveal(compile_stmts);
    reveal(compile_stmt);
}

pub proof fn lemma_stmts_end(c: CompilerV, block: Seq<NodeStatementV>)
    ensures
        compile_stmts(c, block, block.len() as int) == (c, Ok::<(), (Position, CompilerErrorV)>(())),
{
    reveal(compile_stmts);
}

pub proof fn lemma_list_step(c: CompilerV, v: Seq<NodeExpressionV>, i: int)
    requires
        0 <= i < v.len(),
    ensures
        compile_list(c, v, i) == {
            let (c1, r1) = compile_expr(c, v[i]);
            if r1 is Err {
                (c1, r1)
            } else {
                compile_list(c1, v, i + 1)
            }
        },
{
    reveal(compile_list);
    reveal(compile_expr);
}

pub proof fn lemma_list_end(c: CompilerV, v: Seq<NodeExpressionV>)
    ensures
        compile_list(c, v, v.len() as int) == (c, Ok::<(), (Position, CompilerErrorV)>(())),
{
    reveal(compile_list);
}

pub proof fn lemma_pairs_step(c: CompilerV, v: Seq<(NodeExpressionV, NodeExpressionV)>, i: int)
    requires
        0 <= i < v.len(),
    ensures
        compile_pairs(c, v, i) == {
            let (c1, r1) = compile_expr(c, v[i].0);
            if r1 is Err {
                (c1, r1)
            } else {
                let (c2, r2) = compile_expr(c1, v[i].1);
                if r2 is Err {
                    (c2, r2)
                } else {
                    compile_pairs(c2, v, i + 1)
                }
            }
        },
{
    reveal(compile_pairs);
    reveal(compile_expr);
}

pub proof fn lemma_pairs_end(c: CompilerV, v: Seq<(NodeExpressionV, NodeExpressionV)>)
    ensures
        compile_pairs(c, v, v.len() as int) == (c, Ok::<(), (Position, CompilerErrorV)>(())),
{
    reveal(compile_pairs);
}

pub proof fn lemma_define_params_step(c: CompilerV, params: Seq<Seq<char>>, i: int)
    requires
        0 <= i < params.len(),
    ensures
        define_params(c, params, i) == define_params(
            with_table(c, define_spec(c.table, params[i]).0),
            params,
            i + 1,
        ),
{
    reveal(define_params);
}

pub proof fn lemma_define_params_end(c: CompilerV, params: Seq<Seq<char>>)
    ensures
        define_params(c, params, params.len() as int) == c,
{
    reveal(define_params);
}

pub proof fn lemma_load_symbols_step(c: CompilerV, syms: Seq<Symbol>, i: int)
    requires
        0 <= i < syms.len(),
    ensures
        load_symbols(c, syms, i) == load_symbols(
            emit(c, load_opcode(syms[i]), seq![syms[i].index]).0,
            syms,
            i + 1,
        ),
{
    reveal(load_symbols);
}

pub proof fn lemma_load_symbols_end(c: CompilerV, syms: Seq<Symbol>)
    ensures
        load_symbols(c, syms, syms.len() as int) == c,
{
    reveal(load_symbols);
}

} // verus!
