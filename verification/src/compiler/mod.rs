pub mod code;
pub mod model;
pub mod state;
pub mod symbol_table;
pub mod unfold;

use crate::ast::{
    StatementV, NodeStatementV,
    expr_view, exprs_view, lemma_exprs_view_index, lemma_pairs_view_index,
    lemma_stmts_view_index, pairs_view, stmt_view, stmts_view, strings_view, Expression,
    NodeExpression, NodeExpressionV, NodeStatement, Statement,
};

use crate::error::{
    CompilerError, MonkeyError, MonkeyResult, Position,
};
use crate::object::{CompiledFunction, Object};
use crate::token::Token;
use code::OpCode;
use crate::ast::ExpressionV;
use crate::error::RuntimeErrorV;
use crate::interpreter::infix_spec;
use crate::object::ObjectV;
use crate::token::TokenV;
use crate::vm::model::{binary_value, run_spec, start, with_stack, VmV, STACK_SIZE};

pub use state::{CompilationScope, Compiler};
pub use model::{
    add_constant, builtins_table, compile_block, compile_expr, compile_expr_stmt,
    compile_function_spec, compile_let, compile_list, compile_outcome, compile_pairs,
    compile_return, compile_stmt, compile_stmts, compiler_only, define_params, emit,
    enter_scope, infix_opcode, initial_compiler, reaches_unsupported, leave_scope, load_opcode, load_symbols,
    set_jump_target, shape_kept, top_instructions, with_table, CompileOutcome, CompilerErrorV,
    CompilerV, ScopeV,
};
use symbol_table::{define_spec, resolve_spec, SymbolScope};
use unfold::{
    lemma_block_empty, lemma_block_stmts, lemma_define_params_end, lemma_define_params_step,
    lemma_expr_stmt_step, lemma_function_step, lemma_let_step, lemma_list_end, lemma_list_step,
    lemma_load_symbols_end, lemma_load_symbols_step, lemma_pairs_end, lemma_pairs_step,
    lemma_return_refused, lemma_return_step, lemma_stmt_step, lemma_stmts_end, lemma_stmts_step,
};
use vstd::prelude::*;

verus! {

fn compile_err(position: Position, e: CompilerError) -> (r: MonkeyError)
    ensures
        r == MonkeyError::Compiler(position, e),
{
    MonkeyError::Compiler(position, e)
}

impl Compiler {
    #[verifier::spinoff_prover]
    #[verifier::rlimit(60)]
    fn compile_expression(&mut self, e: &NodeExpression) -> (r: MonkeyResult<()>)
        requires
            old(self).wf(),
        ensures
            r is Ok ==> shape_kept(old(self)@, final(self)@),
            final(self).wf(),
            final(self)@ == compile_expr(old(self)@, expr_view(*e)).0,
            compile_outcome(r) == compile_expr(old(self)@, expr_view(*e)).1,
            compiler_only(r),
        decreases e, 1nat,
    {
        proof {
            reveal(top_instructions);
            reveal(compile_expr);
            reveal(compile_function_spec);
            reveal(compile_list);
            reveal(compile_pairs);
            reveal(compile_block);
        }
        let pos = e.position;
        match &e.expression {
            Expression::InfixExpression(left, tk, right) => {
                if matches!(tk, Token::LessThan) || matches!(tk, Token::LessEq) {
                    match self.compile_expression(right) {
                        Ok(()) => {},
                        Err(er) => {
                        return Err(er);
                    },
                    }
                    match self.compile_expression(left) {
                        Ok(()) => {},
                        Err(er) => {
                        return Err(er);
                    },
                    }
                } else {
                    match self.compile_expression(left) {
                        Ok(()) => {},
                        Err(er) => {
                        return Err(er);
                    },
                    }
                    match self.compile_expression(right) {
                        Ok(()) => {},
                        Err(er) => {
                        return Err(er);
                    },
                    }
                }
                let op = match tk {
                    Token::Plus => OpCode::OpAdd,
                    Token::Minus => OpCode::OpSub,
                    Token::Asterisk => OpCode::OpMul,
                    Token::Slash => OpCode::OpDiv,
                    Token::Exponent => OpCode::OpExponent,
                    Token::Modulo => OpCode::OpModulo,
                    Token::Equals => OpCode::OpEquals,
                    Token::NotEquals => OpCode::OpNotEquals,
                    Token::GreaterThan | Token::LessThan => OpCode::OpGreaterThan,
                    Token::GreaterEq | Token::LessEq => OpCode::OpGreaterEq,
                    _ => {
                        return Err(compile_err(pos, CompilerError::Unsupported));
                    },
                };
                self.emit0(op);
                Ok(())
            },
            Expression::PrefixExpression(tk, right) => {
                match self.compile_expression(right) {
                    Ok(()) => {},
                    Err(er) => {
                        return Err(er);
                    },
                }
                if matches!(tk, Token::Minus) {
                    self.emit0(OpCode::OpPrefixMinus);
                } else if matches!(tk, Token::Bang) {
                    self.emit0(OpCode::OpPrefixNot);
                } else {
                    return Err(compile_err(pos, CompilerError::Unsupported));
                }
                Ok(())
            },
            Expression::IntLiteral(i) => {
                let idx = self.add_constant(Object::Integer(*i));
                self.emit1(OpCode::OpConstant, idx);
                Ok(())
            },
            Expression::Boolean(b) => {
                if *b {
                    self.emit0(OpCode::OpTrue);
                } else {
                    self.emit0(OpCode::OpFalse);
                }
                Ok(())
            },
            Expression::StringLiteral(x) => {
                let idx = self.add_constant(Object::Str(x.clone()));
                self.emit1(OpCode::OpConstant, idx);
                Ok(())
            },
            Expression::ArrayLiteral(v) => {
                proof {
                    assert(decreases_to!(*e => e.expression));
                    assert(decreases_to!(e.expression => e.expression->ArrayLiteral_0));
                    lemma_exprs_view_index(v@);
                }
                let length = v.len();
                if length > 65536 {
                    return Err(compile_err(pos, CompilerError::LiteralTooBig));
                }
                match self.compile_list(v) {
                    Ok(()) => {},
                    Err(er) => {
                        return Err(er);
                    },
                }
                self.emit1(OpCode::OpArray, length);
                Ok(())
            },
            Expression::HashLiteral(v) => {
                proof {
                    assert(decreases_to!(*e => e.expression));
                    assert(decreases_to!(e.expression => e.expression->HashLiteral_0));
                    lemma_pairs_view_index(v@);
                }
                let length = v.len();
                if length > 65536 {
                    return Err(compile_err(pos, CompilerError::LiteralTooBig));
                }
                match self.compile_pairs(v) {
                    Ok(()) => {},
                    Err(er) => {
                        return Err(er);
                    },
                }
                self.emit1(OpCode::OpHash, length);
                Ok(())
            },
            Expression::Nil => {
                self.emit0(OpCode::OpNil);
                Ok(())
            },
            Expression::IfExpression { condition, consequence, alternative } => {
                proof {
                    assert(decreases_to!(*e => e.expression));
                    assert(decreases_to!(e.expression => e.expression->consequence));
                    assert(decreases_to!(e.expression => e.expression->alternative));
                }
                match self.compile_expression(condition) {
                    Ok(()) => {},
                    Err(er) => {
                        return Err(er);
                    },
                }
                let jump_not_truthy_pos = self.emit1(OpCode::OpJumpNotTruthy, 9999);
                match self.compile_block_ref(consequence) {
                    Ok(()) => {},
                    Err(er) => {
                        return Err(er);
                    },
                }
                let jump_pos = self.emit1(OpCode::OpJump, 9999);
                let after_consequence = self.top_len();
                self.set_jump_target(jump_not_truthy_pos, after_consequence);
                match self.compile_block_ref(alternative) {
                    Ok(()) => {},
                    Err(er) => {
                        return Err(er);
                    },
                }
                let after_alternative = self.top_len();
                self.set_jump_target(jump_pos, after_alternative);
                Ok(())
            },
            Expression::Identifier(name) => {
                match self.resolve_name(name.as_str()) {
                    None => Err(compile_err(pos, CompilerError::IdenNotFound(name.clone()))),
                    Some(symbol) => {
                        self.load_symbol(symbol);
                        Ok(())
                    },
                }
            },
            Expression::IndexExpression(obj, index) => {
                match self.compile_expression(obj) {
                    Ok(()) => {},
                    Err(er) => {
                        return Err(er);
                    },
                }
                match self.compile_expression(index) {
                    Ok(()) => {},
                    Err(er) => {
                        return Err(er);
                    },
                }
                self.emit0(OpCode::OpIndex);
                Ok(())
            },
            Expression::FunctionLiteral { parameters, body } => {
                proof {
                    assert(decreases_to!(*e => e.expression));
                    assert(decreases_to!(e.expression => e.expression->body));
                }
                self.compile_function(parameters, body)
            },
            Expression::CallExpression { function, arguments } => {
                proof {
                    assert(decreases_to!(*e => e.expression));
                    assert(decreases_to!(e.expression => e.expression->arguments));
                    lemma_exprs_view_index(arguments@);
                }
                let num_args = arguments.len();
                match self.compile_expression(function) {
                    Ok(()) => {},
                    Err(er) => {
                        return Err(er);
                    },
                }
                match self.compile_list(arguments) {
                    Ok(()) => {},
                    Err(er) => {
                        return Err(er);
                    },
                }
                self.emit1(OpCode::OpCall, num_args);
                Ok(())
            },
            Expression::BlockExpression(_) => Err(compile_err(pos, CompilerError::Unsupported)),
        }
    }

    #[verifier::spinoff_prover]
    fn compile_function(&mut self, parameters: &Vec<String>, body: &Vec<NodeStatement>) -> (r:
        MonkeyResult<()>)
        requires
            old(self).wf(),
        ensures
            r is Ok ==> shape_kept(old(self)@, final(self)@),
            final(self).wf(),
            final(self)@ == compile_function_spec(
                old(self)@,
                strings_view(parameters@),
                stmts_view(body@),
            ).0,
            compile_outcome(r) == compile_function_spec(
                old(self)@,
                strings_view(parameters@),
                stmts_view(body@),
            ).1,
            compiler_only(r),
        decreases body, 2nat,
    {
        let ghost pv = strings_view(parameters@);
        proof {
            lemma_function_step(old(self)@, pv, stmts_view(body@));
            self.lemma_wf_scopes();
        }
        self.enter_scope();
        let ghost c1 = self@;
        let mut i: usize = 0;
        while i < parameters.len()
            invariant
                self.wf(),
                i <= parameters@.len(),
                pv == strings_view(parameters@),
                pv.len() == parameters@.len(),
                forall|k: int| 0 <= k < pv.len() ==> #[trigger] pv[k] == parameters@[k]@,
                self@.scopes.len() == old(self)@.scopes.len() + 1,
                self@.scopes.drop_last() == old(self)@.scopes,
                define_params(c1, pv, 0) == define_params(self@, pv, i as int),
            decreases parameters@.len() - i,
        {
            proof {
                lemma_define_params_step(self@, pv, i as int);
            }
            self.define_name(parameters[i].clone());
            i = i + 1;
        }
        proof {
            lemma_define_params_end(self@, pv);
        }
        match self.compile_block_ref(body) {
            Ok(()) => {},
            Err(er) => {
                return Err(er);
            },
        }
        if !self.last_is_return() {
            self.emit0(OpCode::OpReturn);
        }
        let (num_defs, free) = self.scope_summary();
        let num_locals = (num_defs % 256) as u8;
        let ghost c3 = self@;
        let instructions = self.leave_scope();
        let ghost c4 = self@;
        assert(c4.scopes =~= old(self)@.scopes);
        proof {
            reveal(top_instructions);
        }
        let mut j: usize = 0;
        while j < free.len()
            invariant
                self.wf(),
                j <= free@.len(),
                load_symbols(c4, free@, 0) == load_symbols(self@, free@, j as int),
                shape_kept(old(self)@, self@),
            decreases free@.len() - j,
        {
            proof {
                lemma_load_symbols_step(self@, free@, j as int);
            }
            self.load_symbol(free[j]);
            j = j + 1;
        }
        proof {
            lemma_load_symbols_end(self@, free@);
        }
        let num_params = (parameters.len() % 256) as u8;
        let func = CompiledFunction { instructions, num_locals, num_params };
        let idx = self.add_constant(Object::CompiledFunc(Box::new(func)));
        self.emit2(OpCode::OpClosure, idx, free.len());
        Ok(())
    }

    fn compile_list(&mut self, v: &Vec<NodeExpression>) -> (r: MonkeyResult<()>)
        requires
            old(self).wf(),
        ensures
            r is Ok ==> shape_kept(old(self)@, final(self)@),
            final(self).wf(),
            final(self)@ == compile_list(old(self)@, exprs_view(v@), 0).0,
            compile_outcome(r) == compile_list(old(self)@, exprs_view(v@), 0).1,
            compiler_only(r),
        decreases v, 0nat,
    {
        let ghost ev = exprs_view(v@);
        proof {
            lemma_exprs_view_index(v@);
        }
        let mut i: usize = 0;
        while i < v.len()
            invariant
                self.wf(),
                i <= v@.len(),
                ev == exprs_view(v@),
                ev.len() == v@.len(),
                forall|k: int| 0 <= k < v@.len() ==> #[trigger] ev[k] == expr_view(v@[k]),
                compile_list(old(self)@, ev, 0) == compile_list(self@, ev, i as int),
                shape_kept(old(self)@, self@),
            decreases v@.len() - i,
        {
            proof {
                lemma_list_step(self@, ev, i as int);
                assert(decreases_to!(*v => v@[i as int]));
            }
            match self.compile_expression(&v[i]) {
                Ok(()) => {},
                Err(er) => {
                    return Err(er);
                },
            }
            i = i + 1;
        }
        proof {
            lemma_list_end(self@, ev);
        }
        Ok(())
    }

    fn compile_pairs(&mut self, v: &Vec<(NodeExpression, NodeExpression)>) -> (r: MonkeyResult<()>)
        requires
            old(self).wf(),
        ensures
            r is Ok ==> shape_kept(old(self)@, final(self)@),
            final(self).wf(),
            final(self)@ == compile_pairs(old(self)@, pairs_view(v@), 0).0,
            compile_outcome(r) == compile_pairs(old(self)@, pairs_view(v@), 0).1,
            compiler_only(r),
        decreases v, 0nat,
    {
        let ghost pv = pairs_view(v@);
        proof {
            lemma_pairs_view_index(v@);
        }
        let mut i: usize = 0;
        while i < v.len()
            invariant
                self.wf(),
                i <= v@.len(),
                pv == pairs_view(v@),
                pv.len() == v@.len(),
                forall|k: int|
                    0 <= k < v@.len() ==> #[trigger] pv[k] == (
                        expr_view(v@[k].0),
                        expr_view(v@[k].1),
                    ),
                compile_pairs(old(self)@, pv, 0) == compile_pairs(self@, pv, i as int),
                shape_kept(old(self)@, self@),
            decreases v@.len() - i,
        {
            proof {
                lemma_pairs_step(self@, pv, i as int);
                assert(decreases_to!(*v => v@[i as int]));
                assert(decreases_to!(v@[i as int] => v@[i as int].0));
                assert(decreases_to!(v@[i as int] => v@[i as int].1));
            }
            match self.compile_expression(&v[i].0) {
                Ok(()) => {},
                Err(er) => {
                    return Err(er);
                },
            }
            match self.compile_expression(&v[i].1) {
                Ok(()) => {},
                Err(er) => {
                    return Err(er);
                },
            }
            i = i + 1;
        }
        proof {
            lemma_pairs_end(self@, pv);
        }
        Ok(())
    }

    fn compile_block_ref(&mut self, block: &Vec<NodeStatement>) -> (r: MonkeyResult<()>)
        requires
            old(self).wf(),
        ensures
            r is Ok ==> shape_kept(old(self)@, final(self)@),
            final(self).wf(),
            final(self)@ == compile_block(old(self)@, stmts_view(block@)).0,
            compile_outcome(r) == compile_block(old(self)@, stmts_view(block@)).1,
            compiler_only(r),
        decreases block, 1nat,
    {
        let ghost sv = stmts_view(block@);
        proof {
            lemma_stmts_view_index(block@);
        }
        if block.len() == 0 {
            proof {
                lemma_block_empty(self@, sv);
            }
            self.emit0(OpCode::OpNil);
            return Ok(());
        }
        proof {
            lemma_block_stmts(self@, sv);
        }
        let last_index = block.len() - 1;
        let mut i: usize = 0;
        while i < block.len()
            invariant
                self.wf(),
                i <= block@.len(),
                block@.len() > 0,
                last_index == block@.len() - 1,
                sv == stmts_view(block@),
                sv.len() == block@.len(),
                forall|k: int| 0 <= k < block@.len() ==> #[trigger] sv[k] == stmt_view(block@[k]),
                compile_block(old(self)@, sv) == compile_stmts(self@, sv, i as int),
                shape_kept(old(self)@, self@),
            decreases block@.len() - i,
        {
            proof {
                lemma_stmts_step(self@, sv, i as int);
                assert(decreases_to!(*block => block@[i as int]));
            }
            match self.compile_statement(&block[i], i == last_index) {
                Ok(()) => {},
                Err(er) => {
                    return Err(er);
                },
            }
            i = i + 1;
        }
        proof {
            lemma_stmts_end(self@, sv);
        }
        Ok(())
    }

    fn compile_statement(&mut self, st: &NodeStatement, last: bool) -> (r: MonkeyResult<()>)
        requires
            old(self).wf(),
        ensures
            r is Ok ==> shape_kept(old(self)@, final(self)@),
            final(self).wf(),
            final(self)@ == compile_stmt(old(self)@, stmt_view(*st), last).0,
            compile_outcome(r) == compile_stmt(old(self)@, stmt_view(*st), last).1,
            compiler_only(r),
        decreases st, 0nat,
    {
        proof {
            lemma_stmt_step(self@, stmt_view(*st), last);
        }
        match &st.statement {
            Statement::ExpressionStatement(exp) => self.compile_expression_statement(exp, last),
            Statement::Let(b) => {
                proof {
                    assert(decreases_to!(*st => st.statement));
                    assert(decreases_to!(st.statement => st.statement->Let_0));
                    assert(decreases_to!(st.statement->Let_0 => st.statement->Let_0.1));
                }
                self.compile_let_statement(&b.0, &b.1, last)
            },
            Statement::Return(value) => self.compile_return_statement(value, st.position),
        }
    }

    fn compile_expression_statement(&mut self, exp: &NodeExpression, last: bool) -> (r: MonkeyResult<()>)
        requires
            old(self).wf(),
        ensures
            r is Ok ==> shape_kept(old(self)@, final(self)@),
            final(self).wf(),
            final(self)@ == compile_expr_stmt(old(self)@, expr_view(*exp), last).0,
            compile_outcome(r) == compile_expr_stmt(old(self)@, expr_view(*exp), last).1,
            compiler_only(r),
        decreases exp, 2nat,
    {
        proof {
            lemma_expr_stmt_step(self@, expr_view(*exp), last);
        }
        match self.compile_expression(exp) {
            Ok(()) => {},
            Err(er) => {
                return Err(er);
            },
        }
        if !last {
            self.emit0(OpCode::OpPop);
        }
        Ok(())
    }

    fn compile_let_statement(&mut self, name: &String, exp: &NodeExpression, last: bool) -> (r:
        MonkeyResult<()>)
        requires
            old(self).wf(),
        ensures
            r is Ok ==> shape_kept(old(self)@, final(self)@),
            final(self).wf(),
            final(self)@ == compile_let(old(self)@, name@, expr_view(*exp), last).0,
            compile_outcome(r) == compile_let(old(self)@, name@, expr_view(*exp), last).1,
            compiler_only(r),
        decreases exp, 2nat,
    {
        proof {
            lemma_let_step(self@, name@, expr_view(*exp), last);
            reveal(top_instructions);
        }
        match self.compile_expression(exp) {
            Ok(()) => {},
            Err(er) => {
                return Err(er);
            },
        }
        let symbol = self.define_name(name.clone());
        if matches!(symbol.scope, SymbolScope::Global) {
            self.emit1(OpCode::OpSetGlobal, symbol.index);
        } else {
            self.emit1(OpCode::OpSetLocal, symbol.index);
        }
        if last {
            self.emit0(OpCode::OpNil);
        }
        Ok(())
    }

    fn compile_return_statement(&mut self, value: &NodeExpression, pos: Position) -> (r: MonkeyResult<()>)
        requires
            old(self).wf(),
        ensures
            r is Ok ==> shape_kept(old(self)@, final(self)@),
            final(self).wf(),
            final(self)@ == compile_return(old(self)@, expr_view(*value), pos).0,
            compile_outcome(r) == compile_return(old(self)@, expr_view(*value), pos).1,
            compiler_only(r),
        decreases value, 2nat,
    {
        if self.scope_count() == 1 {
            proof {
                lemma_return_refused(self@, expr_view(*value), pos);
            }
            return Err(compile_err(pos, CompilerError::InvalidReturn));
        }
        proof {
            lemma_return_step(self@, expr_view(*value), pos);
        }
        match self.compile_expression(value) {
            Ok(()) => {},
            Err(er) => {
                return Err(er);
            },
        }
        self.emit0(OpCode::OpReturn);
        Ok(())
    }

    /// Compiles the statements of a program, or of a line of the REPL, into the innermost scope.
    /// Compiling must not reach an expression that the compiler has no instructions for.
    pub fn compile_block(&mut self, block: Vec<NodeStatement>) -> (r: MonkeyResult<()>)
        requires
            old(self).wf(),
            !reaches_unsupported(compile_block(old(self)@, stmts_view(block@)).1),
        ensures
            r is Err ==> !(r->Err_0 matches MonkeyError::Compiler(_, CompilerError::Unsupported)),
            r is Ok ==> shape_kept(old(self)@, final(self)@),
            final(self).wf(),
            final(self)@ == compile_block(old(self)@, stmts_view(block@)).0,
            compile_outcome(r) == compile_block(old(self)@, stmts_view(block@)).1,
            compiler_only(r),
    {
        self.compile_block_ref(&block)
    }

    /// Compiles statements like `compile_block`, and reports with the error `Unsupported`, at
    /// its position, an expression that the compiler has no instructions for.
    pub fn try_compile_block(&mut self, block: Vec<NodeStatement>) -> (r: MonkeyResult<()>)
        requires
            old(self).wf(),
        ensures
            r is Ok ==> shape_kept(old(self)@, final(self)@),
            final(self).wf(),
            final(self)@ == compile_block(old(self)@, stmts_view(block@)).0,
            compile_outcome(r) == compile_block(old(self)@, stmts_view(block@)).1,
            compiler_only(r),
    {
        self.compile_block_ref(&block)
    }

}

/// Law: once `let name = value` has compiled, `name` resolves to the symbol its value was
/// stored in, so that later statements, and later lines of the REPL, can use it.
pub proof fn lemma_let_then_resolve(c: CompilerV, name: Seq<char>, e: NodeExpressionV, last: bool)
    requires
        compile_let(c, name, e, last).1 is Ok,
    ensures
        resolve_spec(compile_let(c, name, e, last).0.table, name).1 == Some(
            define_spec(compile_expr(c, e).0.table, name).1,
        ),
{
    lemma_let_step(c, name, e, last);
    reveal(emit);
    reveal(with_table);
    symbol_table::lemma_define_then_resolve(compile_expr(c, e).0.table, name);
}

/// Law: a `return` statement outside of any function is refused with `InvalidReturn`, at its
/// position, before its value is compiled, and leaves the compiler as it was.
pub proof fn lemma_top_level_return_refused(c: CompilerV, st: NodeStatementV, last: bool)
    requires
        c.scopes.len() == 1,
        st.statement is Return,
    ensures
        compile_stmt(c, st, last) == (c, Err::<(), _>((st.position, CompilerErrorV::InvalidReturn))),
{
    unfold::lemma_stmt_step(c, st, last);
    unfold::lemma_return_refused(c, *st.statement->Return_0, st.position);
}

/// Law: `x < y` compiles exactly as `y > x` does, and `x <= y` exactly as `y >= x` does: the
/// operands are compiled in swapped order and the same operation follows them.
pub proof fn lemma_less_compiles_as_swapped_greater(
    c: CompilerV,
    x: NodeExpressionV,
    y: NodeExpressionV,
    pos: Position,
)
    ensures
        compile_expr(
            c,
            (NodeExpressionV {
                position: pos,
                expression: ExpressionV::InfixExpression(Box::new(x), TokenV::LessThan, Box::new(y)),
            }),
        ) == compile_expr(
            c,
            (NodeExpressionV {
                position: pos,
                expression: ExpressionV::InfixExpression(Box::new(y), TokenV::GreaterThan, Box::new(x)),
            }),
        ),
        compile_expr(
            c,
            (NodeExpressionV {
                position: pos,
                expression: ExpressionV::InfixExpression(Box::new(x), TokenV::LessEq, Box::new(y)),
            }),
        ) == compile_expr(
            c,
            (NodeExpressionV {
                position: pos,
                expression: ExpressionV::InfixExpression(Box::new(y), TokenV::GreaterEq, Box::new(x)),
            }),
        ),
{
    reveal(compile_expr);
}

/// Law: every infix operator that the compiler accepts computes on the machine what it computes
/// in the interpreter: for two integers `a` and `b`, the operation it compiles to, applied to the
/// operands in the order in which the compiled code pushes them (`b` first for `<` and `<=`,
/// `a` first otherwise), gives the interpreter's value of `a op b`, or its error.
pub proof fn lemma_compiled_infix_agrees_with_interpreter(t: TokenV, a: i64, b: i64)
    requires
        infix_opcode(t) is Some,
    ensures
        t == TokenV::LessThan || t == TokenV::LessEq ==> binary_value(
            ObjectV::Integer(b),
            infix_opcode(t)->Some_0,
            ObjectV::Integer(a),
        ) == infix_spec(ObjectV::Integer(a), t, ObjectV::Integer(b)),
        !(t == TokenV::LessThan || t == TokenV::LessEq) ==> binary_value(
            ObjectV::Integer(a),
            infix_opcode(t)->Some_0,
            ObjectV::Integer(b),
        ) == infix_spec(ObjectV::Integer(a), t, ObjectV::Integer(b)),
{
}

/// Law: the comparison operators on integers, compiled and run, compare: `<=` and `>=` compile
/// to one operation, as do `<` and `>`, and with the operands pushed as the compiler pushes them
/// they give `a < b`, `a <= b`, `a > b` and `a >= b`.
pub proof fn lemma_compiled_comparisons(a: i64, b: i64)
    ensures
        infix_opcode(TokenV::LessEq) == infix_opcode(TokenV::GreaterEq),
        infix_opcode(TokenV::LessThan) == infix_opcode(TokenV::GreaterThan),
        binary_value(ObjectV::Integer(b), infix_opcode(TokenV::LessThan)->Some_0, ObjectV::Integer(a))
            == Ok::<ObjectV, RuntimeErrorV>(ObjectV::Boolean(a < b)),
        binary_value(ObjectV::Integer(b), infix_opcode(TokenV::LessEq)->Some_0, ObjectV::Integer(a))
            == Ok::<ObjectV, RuntimeErrorV>(ObjectV::Boolean(a <= b)),
        binary_value(ObjectV::Integer(a), infix_opcode(TokenV::GreaterThan)->Some_0, ObjectV::Integer(b))
            == Ok::<ObjectV, RuntimeErrorV>(ObjectV::Boolean(a > b)),
        binary_value(ObjectV::Integer(a), infix_opcode(TokenV::GreaterEq)->Some_0, ObjectV::Integer(b))
            == Ok::<ObjectV, RuntimeErrorV>(ObjectV::Boolean(a >= b)),
{
}

/// Law: `a < b` and `a <= b` on two integer literals compile to code that pushes `b`, then `a`,
/// and compares them with `>` and `>=`: the constant pool grows by `b` and then `a`, and the
/// innermost scope by two loads of those constants and the comparison.
pub proof fn lemma_compile_literal_less(
    c: CompilerV,
    t: TokenV,
    a: i64,
    pa: Position,
    b: i64,
    pb: Position,
    pos: Position,
)
    requires
        c.scopes.len() > 0,
        t == TokenV::LessThan || t == TokenV::LessEq,
    ensures
        ({
            let e = NodeExpressionV {
                position: pos,
                expression: ExpressionV::InfixExpression(
                    Box::new(NodeExpressionV { position: pa, expression: ExpressionV::IntLiteral(a) }),
                    t,
                    Box::new(NodeExpressionV { position: pb, expression: ExpressionV::IntLiteral(b) }),
                ),
            };
            let n = c.constants.len();
            let (c2, r) = compile_expr(c, e);
            &&& r is Ok
            &&& c2.constants == c.constants + seq![ObjectV::Integer(b), ObjectV::Integer(a)]
            &&& top_instructions(c2) == top_instructions(c) + code::make_spec(
                OpCode::OpConstant,
                seq![n as usize],
            ) + code::make_spec(OpCode::OpConstant, seq![(n + 1) as usize]) + code::make_spec(
                if t == TokenV::LessThan {
                    OpCode::OpGreaterThan
                } else {
                    OpCode::OpGreaterEq
                },
                seq![],
            )
        }),
{
    reveal(compile_expr);
    reveal(add_constant);
    reveal(emit);
    reveal(top_instructions);
    let e = NodeExpressionV {
        position: pos,
        expression: ExpressionV::InfixExpression(
            Box::new(NodeExpressionV { position: pa, expression: ExpressionV::IntLiteral(a) }),
            t,
            Box::new(NodeExpressionV { position: pb, expression: ExpressionV::IntLiteral(b) }),
        ),
    };
    let lb = NodeExpressionV { position: pb, expression: ExpressionV::IntLiteral(b) };
    let la = NodeExpressionV { position: pa, expression: ExpressionV::IntLiteral(a) };
    let (c0, r0) = compile_expr(c, lb);
    let (c1, r1) = compile_expr(c0, la);
    assert(r0 is Ok && r1 is Ok);
    assert(c0.constants == c.constants.push(ObjectV::Integer(b)));
    assert(top_instructions(c0) == top_instructions(c) + code::make_spec(
        OpCode::OpConstant,
        seq![c.constants.len() as usize],
    ));
    assert(c0.scopes.len() == c.scopes.len());
    assert(c1.constants == c0.constants.push(ObjectV::Integer(a)));
    assert(top_instructions(c1) == top_instructions(c0) + code::make_spec(
        OpCode::OpConstant,
        seq![c0.constants.len() as usize],
    ));
    assert(c1.scopes.len() == c.scopes.len());
    let (c2, r) = compile_expr(c, e);
    assert(c2 == emit(c1, infix_opcode(t)->Some_0, seq![]).0);
    assert(c2.constants =~= c.constants + seq![ObjectV::Integer(b), ObjectV::Integer(a)]);
    assert(top_instructions(c2) =~= top_instructions(c) + code::make_spec(
        OpCode::OpConstant,
        seq![c.constants.len() as usize],
    ) + code::make_spec(OpCode::OpConstant, seq![(c.constants.len() + 1) as usize])
        + code::make_spec(infix_opcode(t)->Some_0, seq![]));
}

/// Law: an infix expression of two integer literals, compiled by a new compiler and run on a
/// machine with room on its stack, leaves on the stack what the interpreter gives for the
/// expression, or stops with the interpreter's error: `a <= b` gives whether `a <= b`, `a != b`
/// whether they differ, `a - b` their difference.
pub proof fn lemma_compiled_literal_infix_runs(
    vm: VmV,
    t: TokenV,
    a: i64,
    pa: Position,
    b: i64,
    pb: Position,
    pos: Position,
    fuel: nat,
)
    requires
        infix_opcode(t) is Some,
        vm.stack.len() + 2 <= STACK_SIZE,
        fuel >= 4,
    ensures
        ({
            let e = NodeExpressionV {
                position: pos,
                expression: ExpressionV::InfixExpression(
                    Box::new(NodeExpressionV { position: pa, expression: ExpressionV::IntLiteral(a) }),
                    t,
                    Box::new(NodeExpressionV { position: pb, expression: ExpressionV::IntLiteral(b) }),
                ),
            };
            let (c2, r) = compile_expr(initial_compiler(), e);
            &&& r is Ok
            &&& run_spec(start(vm, top_instructions(c2)), c2.constants, fuel) == (match infix_spec(
                ObjectV::Integer(a),
                t,
                ObjectV::Integer(b),
            ) {
                Ok(v) => (with_stack(vm, vm.stack.push(v)), Ok::<(), RuntimeErrorV>(())),
                Err(err) => (vm, Err(err)),
            })
        }),
{
    reveal(compile_expr);
    reveal(add_constant);
    reveal(emit);
    reveal(top_instructions);
    let c = initial_compiler();
    let swap = t == TokenV::LessThan || t == TokenV::LessEq;
    let la = NodeExpressionV { position: pa, expression: ExpressionV::IntLiteral(a) };
    let lb = NodeExpressionV { position: pb, expression: ExpressionV::IntLiteral(b) };
    let (l1, v1, l2, v2) = if swap {
        (lb, b, la, a)
    } else {
        (la, a, lb, b)
    };
    let (c0, r0) = compile_expr(c, l1);
    let (c1, r1) = compile_expr(c0, l2);
    assert(r0 is Ok && r1 is Ok);
    assert(c0.constants == c.constants.push(ObjectV::Integer(v1)));
    assert(top_instructions(c0) == top_instructions(c) + code::make_spec(OpCode::OpConstant, seq![0usize]));
    assert(c1.constants == c0.constants.push(ObjectV::Integer(v2)));
    assert(top_instructions(c1) == top_instructions(c0) + code::make_spec(OpCode::OpConstant, seq![1usize]));
    let op = infix_opcode(t)->Some_0;
    let e = NodeExpressionV {
        position: pos,
        expression: ExpressionV::InfixExpression(Box::new(la), t, Box::new(lb)),
    };
    let (c2, r) = compile_expr(c, e);
    assert(c2 == emit(c1, op, seq![]).0);
    assert(c2.constants =~= seq![ObjectV::Integer(v1), ObjectV::Integer(v2)]);
    assert(top_instructions(c2) =~= code::make_spec(OpCode::OpConstant, seq![0usize]) + code::make_spec(
        OpCode::OpConstant,
        seq![1usize],
    ) + code::make_spec(op, seq![]));
    crate::vm::model::lemma_run_binary_program(vm, ObjectV::Integer(v1), ObjectV::Integer(v2), op, fuel);
    lemma_compiled_infix_agrees_with_interpreter(t, a, b);
}

} // verus!
