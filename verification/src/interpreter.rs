use crate::ast::{
    clone_statements, clone_strings, expr_view, exprs_view, lemma_exprs_view_index,
    lemma_pairs_view_index, lemma_stmts_view_index, pairs_view, stmt_view, stmts_view,
    strings_view, Expression, ExpressionV, NodeExpression, NodeExpressionV, NodeStatement,
    NodeStatementV, Statement, StatementV,
};
use crate::builtins::{
    builtin_named, builtin_output, builtin_spec, get_builtin, lines_view, str_eq,
};
use crate::error::{
    MonkeyError, MonkeyResult, Position, RuntimeError, RuntimeErrorV,
};
use crate::object::{
    entries_view, equality, hash_get, hash_insert, hash_lookup, hash_put, hash_wf,
    lemma_objects_view_len, objects_view, truthy, type_label, HashKeyV, HashableObject,
    InterpreterFunctionObject, Object, ObjectV,
};
use crate::ast::clone_token;
use crate::text::{chars_of, string_from_chars};
use crate::token::{Token, TokenV};
use vstd::prelude::*;

verus! {

// ---------------------------------------------------------------------------------------------
// The model: frames of variables, and what evaluation gives
// ---------------------------------------------------------------------------------------------

/// A frame of variables: the bindings made in it, latest last, and the frame it extends.
pub struct FrameV {
    pub vars: Seq<(Seq<char>, ObjectV)>,
    pub outer: Option<usize>,
}

/// The state of the interpreter: its frames, by handle, and the lines printed so far.
pub struct EnvV {
    pub frames: Seq<FrameV>,
    pub output: Seq<Seq<char>>,
}

/// What evaluating gives: a value, or a run-time error with the position where it arose.
pub type Outcome = Result<ObjectV, (Position, RuntimeErrorV)>;

/// The most calls of function values that may be under way at once: as many as a `usize`
/// counts, so that only the machine's own limits stop deep recursion.
pub const MAX_CALL_DEPTH: usize = usize::MAX;

/// The value bound to `name` in a frame's bindings: the latest binding.
pub open spec fn frame_lookup(vars: Seq<(Seq<char>, ObjectV)>, name: Seq<char>) -> Option<ObjectV>
    decreases vars.len(),
{
    if vars.len() == 0 {
        None
    } else if vars.last().0 == name {
        Some(vars.last().1)
    } else {
        frame_lookup(vars.drop_last(), name)
    }
}

/// The value bound to `name` in frame `h` or, failing that, in the frames it extends.
pub open spec fn env_lookup(frames: Seq<FrameV>, h: int, name: Seq<char>) -> Option<ObjectV>
    decreases h,
{
    if h < 0 || h >= frames.len() {
        None
    } else {
        match frame_lookup(frames[h].vars, name) {
            Some(v) => Some(v),
            None => match frames[h].outer {
                Some(o) => if (o as int) < h {
                    env_lookup(frames, o as int, name)
                } else {
                    None
                },
                None => None,
            },
        }
    }
}

/// The value of an identifier: a variable, else a built-in function.
pub open spec fn get_var(frames: Seq<FrameV>, h: int, name: Seq<char>) -> Option<ObjectV> {
    match env_lookup(frames, h, name) {
        Some(v) => Some(v),
        None => match builtin_named(name) {
            Some(b) => Some(ObjectV::Builtin(b)),
            None => None,
        },
    }
}

/// Binds `name` to `v` in frame `h`.
pub open spec fn put_var(s: EnvV, h: int, name: Seq<char>, v: ObjectV) -> EnvV {
    if 0 <= h < s.frames.len() {
        EnvV {
            frames: s.frames.update(
                h,
                FrameV { vars: s.frames[h].vars.push((name, v)), outer: s.frames[h].outer },
            ),
            output: s.output,
        }
    } else {
        s
    }
}

/// A new, empty frame that extends frame `h`; its handle is the number of frames before.
pub open spec fn extend_env(s: EnvV, h: int) -> EnvV {
    EnvV { frames: s.frames.push(FrameV { vars: seq![], outer: Some(h as usize) }), output: s.output }
}

/// A new frame with the bindings of frame `h`, extending what `h` extends, and the parameters
/// bound to the arguments.
pub open spec fn call_env(s: EnvV, h: int, params: Seq<Seq<char>>, args: Seq<ObjectV>) -> EnvV {
    let base = if 0 <= h < s.frames.len() {
        s.frames[h]
    } else {
        FrameV { vars: seq![], outer: None }
    };
    let bound = Seq::new(params.len(), |i: int| (params[i], args[i]));
    EnvV {
        frames: s.frames.push(FrameV { vars: base.vars + bound, outer: base.outer }),
        output: s.output,
    }
}

/// The hash key that a value can serve as in the interpreter: an integer, a boolean or a
/// string.
pub open spec fn interp_key(o: ObjectV) -> Option<HashKeyV> {
    match o {
        ObjectV::Integer(i) => Some(HashKeyV::Integer(i)),
        ObjectV::Boolean(b) => Some(HashKeyV::Boolean(b)),
        ObjectV::Str(s) => Some(HashKeyV::Str(s)),
        _ => None,
    }
}

// ---------------------------------------------------------------------------------------------
// Operators
// ---------------------------------------------------------------------------------------------

/// `a` to the power `e`.
pub open spec fn pow_spec(a: int, e: nat) -> int
    decreases e,
{
    if e == 0 {
        1
    } else {
        a * pow_spec(a, (e - 1) as nat)
    }
}

pub open spec fn in_i64(x: int) -> bool {
    i64::MIN <= x <= i64::MAX
}

/// An operator applied to two integers.
pub open spec fn int_infix_spec(op: TokenV, l: i64, r: i64) -> Result<ObjectV, RuntimeErrorV> {
    match op {
        TokenV::Plus => match l.checked_add(r) {
            Some(v) => Ok(ObjectV::Integer(v)),
            None => Err(RuntimeErrorV::IntegerOverflow),
        },
        TokenV::Minus => match l.checked_sub(r) {
            Some(v) => Ok(ObjectV::Integer(v)),
            None => Err(RuntimeErrorV::IntegerOverflow),
        },
        TokenV::Asterisk => match l.checked_mul(r) {
            Some(v) => Ok(ObjectV::Integer(v)),
            None => Err(RuntimeErrorV::IntegerOverflow),
        },
        TokenV::Slash => if r == 0 {
            Err(RuntimeErrorV::DivOrModByZero)
        } else {
            match l.checked_div(r) {
                Some(v) => Ok(ObjectV::Integer(v)),
                None => Err(RuntimeErrorV::IntegerOverflow),
            }
        },
        TokenV::Modulo => if r == 0 {
            Err(RuntimeErrorV::DivOrModByZero)
        } else {
            match l.checked_rem(r) {
                Some(v) => Ok(ObjectV::Integer(v)),
                None => Err(RuntimeErrorV::IntegerOverflow),
            }
        },
        TokenV::Exponent => if r < 0 {
            Err(RuntimeErrorV::NegativeExponent)
        } else {
            // The exponent is taken as a `u32`: its low 32 bits.
            let p = pow_spec(l as int, (r as int % 0x1_0000_0000) as nat);
            if in_i64(p) {
                Ok(ObjectV::Integer(p as i64))
            } else {
                Err(RuntimeErrorV::IntegerOverflow)
            }
        },
        TokenV::LessThan => Ok(ObjectV::Boolean(l < r)),
        TokenV::LessEq => Ok(ObjectV::Boolean(l <= r)),
        TokenV::GreaterThan => Ok(ObjectV::Boolean(l > r)),
        TokenV::GreaterEq => Ok(ObjectV::Boolean(l >= r)),
        _ => Err(RuntimeErrorV::InfixTypeError("int"@, op, "int"@)),
    }
}

/// A prefix operator applied to a value.
pub open spec fn prefix_spec(op: TokenV, v: ObjectV) -> Result<ObjectV, RuntimeErrorV> {
    match (op, v) {
        (TokenV::Minus, ObjectV::Integer(i)) => if i == i64::MIN {
            Err(RuntimeErrorV::IntegerOverflow)
        } else {
            Ok(ObjectV::Integer((-i) as i64))
        },
        (TokenV::Bang, o) => Ok(ObjectV::Boolean(!truthy(o))),
        _ => Err(RuntimeErrorV::PrefixTypeError(op, type_label(v))),
    }
}

/// An infix operator applied to two values. Equality is defined between any two values, and
/// false where they cannot be compared.
pub open spec fn infix_spec(l: ObjectV, op: TokenV, r: ObjectV) -> Result<ObjectV, RuntimeErrorV> {
    if op == TokenV::Equals {
        Ok(ObjectV::Boolean(equality(l, r) == Some(true)))
    } else if op == TokenV::NotEquals {
        Ok(ObjectV::Boolean(!(equality(l, r) == Some(true))))
    } else {
        match (l, r) {
            (ObjectV::Integer(a), ObjectV::Integer(b)) => int_infix_spec(op, a, b),
            (ObjectV::Str(a), ObjectV::Str(b)) => if op == TokenV::Plus {
                Ok(ObjectV::Str(a + b))
            } else {
                Err(RuntimeErrorV::InfixTypeError(type_label(l), op, type_label(r)))
            },
            _ => Err(RuntimeErrorV::InfixTypeError(type_label(l), op, type_label(r))),
        }
    }
}

/// Indexing an array, a hash or a string.
pub open spec fn index_spec(o: ObjectV, index: ObjectV) -> Result<ObjectV, RuntimeErrorV> {
    match (o, index) {
        (ObjectV::Array(v), ObjectV::Integer(i)) => if i < 0 || i >= v.len() {
            Err(RuntimeErrorV::IndexOutOfBounds(i))
        } else {
            Ok(v[i as int])
        },
        (ObjectV::Array(_), other) => Err(RuntimeErrorV::IndexTypeError(type_label(other))),
        (ObjectV::Hash(m), key) => match interp_key(key) {
            None => Err(RuntimeErrorV::HashKeyTypeError(type_label(key))),
            Some(k) => match hash_get(m, k) {
                Some(v) => Ok(v),
                None => Err(RuntimeErrorV::KeyError(k)),
            },
        },
        (ObjectV::Str(s), ObjectV::Integer(i)) => if i < 0 || i >= s.len() {
            Err(RuntimeErrorV::IndexOutOfBounds(i))
        } else {
            Ok(ObjectV::Str(seq![s[i as int]]))
        },
        (ObjectV::Str(_), other) => Err(RuntimeErrorV::IndexTypeError(type_label(other))),
        (other, _) => Err(RuntimeErrorV::IndexingWrongType(type_label(other))),
    }
}

pub open spec fn at(p: Position, r: Result<ObjectV, RuntimeErrorV>) -> Outcome {
    match r {
        Ok(v) => Ok(v),
        Err(e) => Err((p, e)),
    }
}

// ---------------------------------------------------------------------------------------------
// Evaluation
// ---------------------------------------------------------------------------------------------

/// Evaluates an expression in frame `h`, with room for `depth` more nested calls.
pub open spec fn eval_expr(s: EnvV, h: int, e: NodeExpressionV, depth: nat) -> (EnvV, Outcome)
    decreases depth, e, 1nat,
{
    let pos = e.position;
    match e.expression {
        ExpressionV::Identifier(name) => match get_var(s.frames, h, name) {
            Some(v) => (s, Ok(v)),
            None => (s, Err((pos, RuntimeErrorV::IdenNotFound(name)))),
        },
        ExpressionV::IntLiteral(i) => (s, Ok(ObjectV::Integer(i))),
        ExpressionV::Boolean(b) => (s, Ok(ObjectV::Boolean(b))),
        ExpressionV::StringLiteral(x) => (s, Ok(ObjectV::Str(x))),
        ExpressionV::Nil => (s, Ok(ObjectV::Nil)),
        ExpressionV::ArrayLiteral(v) => {
            let (s1, r) = eval_list(s, h, v, 0, seq![], depth);
            match r {
                Ok(items) => (s1, Ok(ObjectV::Array(items))),
                Err(er) => (s1, Err(er)),
            }
        },
        ExpressionV::HashLiteral(v) => eval_hash(s, h, v, 0, seq![], pos, depth),
        ExpressionV::PrefixExpression(op, a) => {
            let (s1, r) = eval_expr(s, h, *a, depth);
            match r {
                Ok(x) => (s1, at(pos, prefix_spec(op, x))),
                Err(er) => (s1, Err(er)),
            }
        },
        ExpressionV::InfixExpression(a, op, b) => {
            let (s1, r1) = eval_expr(s, h, *a, depth);
            match r1 {
                Err(er) => (s1, Err(er)),
                Ok(x) => {
                    let (s2, r2) = eval_expr(s1, h, *b, depth);
                    match r2 {
                        Err(er) => (s2, Err(er)),
                        Ok(y) => (s2, at(pos, infix_spec(x, op, y))),
                    }
                },
            }
        },
        ExpressionV::IfExpression { condition, consequence, alternative } => {
            let (s1, r) = eval_expr(s, h, *condition, depth);
            match r {
                Err(er) => (s1, Err(er)),
                Ok(c) => if truthy(c) {
                    eval_block(s1, h, consequence, depth)
                } else {
                    eval_block(s1, h, alternative, depth)
                },
            }
        },
        ExpressionV::FunctionLiteral { parameters, body } => (
            s,
            Ok(ObjectV::InterpreterFunc(h as usize, parameters, body)),
        ),
        ExpressionV::CallExpression { function, arguments } => {
            let (s1, r1) = eval_expr(s, h, *function, depth);
            match r1 {
                Err(er) => (s1, Err(er)),
                Ok(f) => {
                    let (s2, r2) = eval_list(s1, h, arguments, 0, seq![], depth);
                    match r2 {
                        Err(er) => (s2, Err(er)),
                        Ok(args) => eval_call(s2, f, args, pos, depth, e),
                    }
                },
            }
        },
        ExpressionV::IndexExpression(a, b) => {
            let (s1, r1) = eval_expr(s, h, *a, depth);
            match r1 {
                Err(er) => (s1, Err(er)),
                Ok(x) => {
                    let (s2, r2) = eval_expr(s1, h, *b, depth);
                    match r2 {
                        Err(er) => (s2, Err(er)),
                        Ok(y) => (s2, at(pos, index_spec(x, y))),
                    }
                },
            }
        },
        ExpressionV::BlockExpression(block) => eval_block(s, h, block, depth),
    }
}

/// Evaluates the expressions of `v` from index `i` on, in order, after the values `acc`.
pub open spec fn eval_list(
    s: EnvV,
    h: int,
    v: Seq<NodeExpressionV>,
    i: int,
    acc: Seq<ObjectV>,
    depth: nat,
) -> (EnvV, Result<Seq<ObjectV>, (Position, RuntimeErrorV)>)
    decreases depth, v, v.len() - i,
{
    if i < 0 || i >= v.len() {
        (s, Ok(acc))
    } else {
        let (s1, r) = eval_expr(s, h, v[i], depth);
        match r {
            Err(er) => (s1, Err(er)),
            Ok(x) => eval_list(s1, h, v, i + 1, acc.push(x), depth),
        }
    }
}

/// Evaluates the entries of a hash literal from index `i` on, adding them to `acc`.
pub open spec fn eval_hash(
    s: EnvV,
    h: int,
    v: Seq<(NodeExpressionV, NodeExpressionV)>,
    i: int,
    acc: Seq<(HashKeyV, ObjectV)>,
    pos: Position,
    depth: nat,
) -> (EnvV, Outcome)
    decreases depth, v, v.len() - i,
{
    if i < 0 || i >= v.len() {
        (s, Ok(ObjectV::Hash(acc)))
    } else {
        let (s1, r1) = eval_expr(s, h, v[i].0, depth);
        match r1 {
            Err(er) => (s1, Err(er)),
            Ok(k) => match interp_key(k) {
                None => (s1, Err((pos, RuntimeErrorV::HashKeyTypeError(type_label(k))))),
                Some(key) => {
                    let (s2, r2) = eval_expr(s1, h, v[i].1, depth);
                    match r2 {
                        Err(er) => (s2, Err(er)),
                        Ok(x) => eval_hash(s2, h, v, i + 1, hash_put(acc, key, x), pos, depth),
                    }
                },
            },
        }
    }
}

/// Evaluates a block in a new frame that extends frame `h`: the value of its last statement,
/// or `nil` when it has none.
pub open spec fn eval_block(s: EnvV, h: int, block: Seq<NodeStatementV>, depth: nat) -> (
    EnvV,
    Outcome,
)
    decreases depth, block, block.len() + 1,
{
    eval_stmts(extend_env(s, h), s.frames.len() as int, block, 0, ObjectV::Nil, depth)
}

/// Evaluates the statements of `block` from index `i` on; `last` is the value of the one before.
pub open spec fn eval_stmts(
    s: EnvV,
    h: int,
    block: Seq<NodeStatementV>,
    i: int,
    last: ObjectV,
    depth: nat,
) -> (EnvV, Outcome)
    decreases depth, block, block.len() - i,
{
    if i < 0 || i >= block.len() {
        (s, Ok(last))
    } else {
        let (s1, r) = eval_stmt(s, h, block[i], depth);
        match r {
            Err(er) => (s1, Err(er)),
            Ok(x) => eval_stmts(s1, h, block, i + 1, x, depth),
        }
    }
}

/// Evaluates a statement in frame `h`. A `return` statement is an error that carries the value,
/// which the call of the function it is in catches.
pub open spec fn eval_stmt(s: EnvV, h: int, st: NodeStatementV, depth: nat) -> (EnvV, Outcome)
    decreases depth, st, 0nat,
{
    match st.statement {
        StatementV::ExpressionStatement(e) => eval_expr(s, h, *e, depth),
        StatementV::Return(e) => {
            let (s1, r) = eval_expr(s, h, *e, depth);
            match r {
                Err(er) => (s1, Err(er)),
                Ok(v) => (s1, Err((st.position, RuntimeErrorV::ReturnValue(v)))),
            }
        },
        StatementV::Let(name, e) => {
            let (s1, r) = eval_expr(s, h, *e, depth);
            match r {
                Err(er) => (s1, Err(er)),
                Ok(v) => (put_var(s1, h, name, v), Ok(ObjectV::Nil)),
            }
        },
    }
}

/// Calls the value `f` with the arguments `args`, at the position `pos` of the call expression
/// `call`.
pub open spec fn eval_call(
    s: EnvV,
    f: ObjectV,
    args: Seq<ObjectV>,
    pos: Position,
    depth: nat,
    call: NodeExpressionV,
) -> (EnvV, Outcome)
    decreases depth, call, 0nat,
{
    match f {
        ObjectV::InterpreterFunc(fenv, params, body) => if params.len() != args.len() {
            (
                s,
                Err(
                    (
                        pos,
                        RuntimeErrorV::WrongNumberOfArgs(
                            params.len() as usize,
                            args.len() as usize,
                        ),
                    ),
                ),
            )
        } else if depth == 0 {
            (s, Err((pos, RuntimeErrorV::StackOverflow)))
        } else {
            let s1 = call_env(s, fenv as int, params, args);
            let (s2, r) = eval_block(s1, s.frames.len() as int, body, (depth - 1) as nat);
            match r {
                Err((_, RuntimeErrorV::ReturnValue(v))) => (s2, Ok(v)),
                other => (s2, other),
            }
        },
        ObjectV::Builtin(b) => (
            EnvV { frames: s.frames, output: s.output + builtin_output(b, args) },
            at(pos, builtin_spec(b, args)),
        ),
        other => (s, Err((pos, RuntimeErrorV::NotCallable(type_label(other))))),
    }
}

/// Runs a program's statements in order in frame `h`, stopping at the first error.
pub open spec fn run_stmts(s: EnvV, h: int, program: Seq<NodeStatementV>, i: int) -> (
    EnvV,
    Outcome,
)
    decreases program.len() - i,
{
    if i < 0 || i >= program.len() {
        (s, Ok(ObjectV::Nil))
    } else {
        let (s1, r) = eval_stmt(s, h, program[i], MAX_CALL_DEPTH as nat);
        match r {
            Err(er) => (s1, Err(er)),
            Ok(_) => run_stmts(s1, h, program, i + 1),
        }
    }
}

// ---------------------------------------------------------------------------------------------
// The environment
// ---------------------------------------------------------------------------------------------

/// A frame of variables, and the handle of the frame it extends.
pub struct Frame {
    vars: Vec<(String, Object)>,
    outer: Option<usize>,
}

/// All the state of the interpreter: the frames of variables, which a handle (an index) names,
/// and the lines that `puts` has printed.
pub struct Environment {
    frames: Vec<Frame>,
    output: Vec<String>,
}

pub open spec fn vars_view(v: Seq<(String, Object)>) -> Seq<(Seq<char>, ObjectV)> {
    v.map_values(|p: (String, Object)| (p.0@, p.1@))
}

impl View for Environment {
    type V = EnvV;

    closed spec fn view(&self) -> EnvV {
        EnvV {
            frames: self.frames@.map_values(|f: Frame| FrameV { vars: vars_view(f.vars@), outer: f.outer }),
            output: lines_view(self.output@),
        }
    }
}

impl Environment {
    /// An environment with one empty frame, handle 0, and nothing printed.
    pub fn empty() -> (r: Environment)
        ensures
            r@ == (EnvV { frames: seq![FrameV { vars: seq![], outer: None }], output: seq![] }),
    {
        let mut frames: Vec<Frame> = Vec::new();
        frames.push(Frame { vars: Vec::new(), outer: None });
        let r = Environment { frames, output: Vec::new() };
        assert(r@.frames[0].vars =~= Seq::<(Seq<char>, ObjectV)>::empty());
        assert(r@.frames =~~= seq![FrameV { vars: seq![], outer: None }]);
        assert(r@.output =~= Seq::<Seq<char>>::empty());
        r
    }

    /// The number of frames.
    pub fn frame_count(&self) -> (r: usize)
        ensures
            r == self@.frames.len(),
    {
        self.frames.len()
    }

    /// Adds an empty frame that extends frame `outer`, and returns its handle.
    pub fn extend(&mut self, outer: usize) -> (h: usize)
        ensures
            h == old(self)@.frames.len(),
            final(self)@ == extend_env(old(self)@, outer as int),
    {
        let h = self.frames.len();
        self.frames.push(Frame { vars: Vec::new(), outer: Some(outer) });
        assert(self@.frames[h as int].vars =~= Seq::<(Seq<char>, ObjectV)>::empty());
        assert(self@.frames =~~= extend_env(old(self)@, outer as int).frames);
        h
    }

    /// Binds `key` to `value` in frame `h`.
    pub fn insert(&mut self, h: usize, key: String, value: Object)
        ensures
            final(self)@ == put_var(old(self)@, h as int, key@, value@),
    {
        if h < self.frames.len() {
            let ghost k = key@;
            let ghost v = value@;
            self.frames[h].vars.push((key, value));
            assert(self@.frames[h as int].vars =~= old(self)@.frames[h as int].vars.push((k, v)));
            assert(self@.frames =~= put_var(old(self)@, h as int, k, v).frames);
        }
    }

    /// The value of `key` in frame `h`: its latest binding there or in the frames that `h`
    /// extends, else the built-in function of that name.
    pub fn get(&self, h: usize, key: &str) -> (r: Option<Object>)
        ensures
            match get_var(self@.frames, h as int, key@) {
                Some(v) => r is Some && r->Some_0@ == v,
                None => r is None,
            },
    {
        let ghost fs = self@.frames;
        let mut cur: usize = h;
        loop
            invariant
                fs == self@.frames,
                env_lookup(fs, h as int, key@) == env_lookup(fs, cur as int, key@),
            ensures
                env_lookup(fs, h as int, key@) is None,
            decreases cur,
        {
            if cur >= self.frames.len() {
                break;
            }
            let vars = &self.frames[cur].vars;
            let ghost vs = vars_view(vars@);
            assert(vs == fs[cur as int].vars);
            let mut j: usize = vars.len();
            assert(vs.take(j as int) =~= vs);
            while j > 0
                invariant
                    j <= vars@.len(),
                    vs == vars_view(vars@),
                    fs == self@.frames,
                    cur < fs.len(),
                    vs == fs[cur as int].vars,
                    env_lookup(fs, h as int, key@) == env_lookup(fs, cur as int, key@),
                    frame_lookup(vs, key@) == frame_lookup(vs.take(j as int), key@),
                decreases j,
            {
                assert(vs.take(j as int).drop_last() =~= vs.take(j - 1));
                if str_eq(vars[j - 1].0.as_str(), key) {
                    return Some(vars[j - 1].1.clone_object());
                }
                j = j - 1;
            }
            assert(vs.take(0) =~= Seq::<(Seq<char>, ObjectV)>::empty());
            assert(frame_lookup(vs, key@) is None);
            match self.frames[cur].outer {
                Some(o) => {
                    if o < cur {
                        cur = o;
                    } else {
                        break;
                    }
                },
                None => {
                    break;
                },
            }
        }
        get_builtin(key)
    }

    /// Adds a frame for a call of a function that closes over frame `h`: the bindings of `h`,
    /// extending what `h` extends, with the parameters bound to the arguments. Returns its
    /// handle.
    fn call_frame(&mut self, h: usize, params: &Vec<String>, args: Vec<Object>) -> (nh: usize)
        requires
            params@.len() == args@.len(),
        ensures
            nh == old(self)@.frames.len(),
            final(self)@ == call_env(old(self)@, h as int, strings_view(params@), objects_view(args@)),
    {
        let ghost pv = strings_view(params@);
        let ghost av = objects_view(args@);
        proof {
            lemma_objects_view_len(args@);
        }
        let mut vars: Vec<(String, Object)> = Vec::new();
        let mut outer: Option<usize> = None;
        if h < self.frames.len() {
            let src = &self.frames[h].vars;
            let mut i: usize = 0;
            while i < src.len()
                invariant
                    i <= src@.len(),
                    vars@.len() == i,
                    vars_view(vars@) == vars_view(src@).take(i as int),
                decreases src@.len() - i,
            {
                let name = src[i].0.clone();
                let value = src[i].1.clone_object();
                let ghost prev = vars@;
                vars.push((name, value));
                assert forall|k: int| 0 <= k < i + 1 implies #[trigger] vars_view(vars@)[k]
                    == vars_view(src@).take(i + 1)[k] by {
                    if k < i {
                        assert(vars@[k] == prev[k]);
                        assert(vars_view(prev)[k] == vars_view(src@).take(i as int)[k]);
                    }
                }
                assert(vars_view(vars@) =~= vars_view(src@).take(i + 1));
                i = i + 1;
            }
            assert(vars_view(src@).take(src@.len() as int) =~= vars_view(src@));
            outer = self.frames[h].outer;
        } else {
            assert(vars_view(vars@) =~= Seq::<(Seq<char>, ObjectV)>::empty());
        }
        let ghost base = vars_view(vars@);
        let mut i: usize = 0;
        let n = args.len();
        while i < n
            invariant
                n == args@.len(),
                n == params@.len(),
                pv == strings_view(params@),
                av == objects_view(args@),
                av.len() == n,
                forall|k: int| 0 <= k < n ==> #[trigger] av[k] == args@[k]@,
                i <= n,
                vars@.len() == base.len() + i,
                vars_view(vars@) == base + Seq::new(i as nat, |k: int| (pv[k], av[k])),
            decreases n - i,
        {
            let name = params[i].clone();
            let value = args[i].clone_object();
            let ghost prev = vars@;
            vars.push((name, value));
            assert forall|k: int| 0 <= k < vars@.len() implies #[trigger] vars_view(vars@)[k] == (
                base + Seq::new((i + 1) as nat, |k: int| (pv[k], av[k])))[k] by {
                if k < prev.len() {
                    assert(vars@[k] == prev[k]);
                    assert(vars_view(prev)[k] == (base + Seq::new(i as nat, |k: int| (pv[k], av[k])))[k]);
                }
            }
            assert(vars_view(vars@) =~= base + Seq::new((i + 1) as nat, |k: int| (pv[k], av[k])));
            i = i + 1;
        }
        let nh = self.frames.len();
        self.frames.push(Frame { vars, outer });
        assert(self@.frames[nh as int].vars =~= call_env(old(self)@, h as int, pv, av).frames[nh as int].vars);
        assert(self@.frames =~~= call_env(old(self)@, h as int, pv, av).frames);
        nh
    }

    /// The lines printed so far, which are taken out of the environment.
    pub fn take_output(&mut self) -> (r: Vec<String>)
        ensures
            lines_view(r@) == old(self)@.output,
            final(self)@ == (EnvV { frames: old(self)@.frames, output: seq![] }),
    {
        let mut out: Vec<String> = Vec::new();
        std::mem::swap(&mut out, &mut self.output);
        assert(self@.output =~= Seq::<Seq<char>>::empty());
        out
    }
}

// ---------------------------------------------------------------------------------------------
// Evaluation
// ---------------------------------------------------------------------------------------------

/// The outcome of an evaluation: evaluation only fails with run-time errors.
pub open spec fn outcome_view(r: MonkeyResult<Object>) -> Outcome {
    match r {
        Ok(o) => Ok(o@),
        Err(MonkeyError::Interpreter(p, e)) => Err((p, e@)),
        Err(_) => Err(((0usize, 0usize), RuntimeErrorV::InvalidBytecode)),
    }
}

pub open spec fn list_outcome_view(r: Result<Vec<Object>, MonkeyError>) -> Result<
    Seq<ObjectV>,
    (Position, RuntimeErrorV),
> {
    match r {
        Ok(v) => Ok(objects_view(v@)),
        Err(MonkeyError::Interpreter(p, e)) => Err((p, e@)),
        Err(_) => Err(((0usize, 0usize), RuntimeErrorV::InvalidBytecode)),
    }
}

pub open spec fn runtime_only<T>(r: Result<T, MonkeyError>) -> bool {
    r is Err ==> r->Err_0 is Interpreter
}

fn err_at(position: Position, e: RuntimeError) -> (r: MonkeyError)
    ensures
        r == MonkeyError::Interpreter(position, e),
{
    MonkeyError::Interpreter(position, e)
}

fn at_exec(position: Position, r: Result<Object, RuntimeError>) -> (out: MonkeyResult<Object>)
    ensures
        outcome_view(out) == at(
            position,
            match r {
                Ok(o) => Ok(o@),
                Err(e) => Err(e@),
            },
        ),
        runtime_only(out),
{
    match r {
        Ok(o) => Ok(o),
        Err(e) => Err(err_at(position, e)),
    }
}

/// `a` to the power `e`, where the result fits in an `i64`.
fn checked_pow(a: i64, e: u32) -> (r: Option<i64>)
    ensures
        match r {
            Some(v) => v == pow_spec(a as int, e as nat),
            None => !in_i64(pow_spec(a as int, e as nat)),
        },
{
    if a == 0 {
        proof {
            lemma_pow_zero(e as nat);
        }
        return if e == 0 {
            Some(1)
        } else {
            Some(0)
        };
    } else if a == 1 {
        proof {
            lemma_pow_one(e as nat);
        }
        return Some(1);
    } else if a == -1 {
        proof {
            lemma_pow_minus_one(e as nat);
        }
        return if e % 2 == 0 {
            Some(1)
        } else {
            Some(-1)
        };
    }
    let mut result: i64 = 1;
    let mut k: u32 = 0;
    while k < e
        invariant
            a < -1 || a > 1,
            k <= e,
            result == pow_spec(a as int, k as nat),
        decreases e - k,
    {
        proof {
            let p = pow_spec(a as int, k as nat);
            assert(pow_spec(a as int, (k + 1) as nat) == a * p);
            assert(a * p == p * a) by (nonlinear_arith);
        }
        match result.checked_mul(a) {
            Some(v) => {
                result = v;
                k = k + 1;
            },
            None => {
                proof {
                    lemma_pow_grows(a as int, (k + 1) as nat, e as nat);
                }
                return None;
            },
        }
    }
    Some(result)
}

proof fn lemma_pow_zero(e: nat)
    ensures
        pow_spec(0, e) == if e == 0 {
            1int
        } else {
            0int
        },
    decreases e,
{
    if e > 0 {
        lemma_pow_zero((e - 1) as nat);
    }
}

proof fn lemma_pow_one(e: nat)
    ensures
        pow_spec(1, e) == 1,
    decreases e,
{
    if e > 0 {
        lemma_pow_one((e - 1) as nat);
    }
}

proof fn lemma_pow_minus_one(e: nat)
    ensures
        pow_spec(-1, e) == if e % 2 == 0 {
            1int
        } else {
            -1int
        },
    decreases e,
{
    if e > 0 {
        lemma_pow_minus_one((e - 1) as nat);
    }
}

/// Once a power of `a` (with |a| at least 2) leaves the range of `i64`, the higher powers stay
/// out of it.
proof fn lemma_pow_grows(a: int, k: nat, e: nat)
    requires
        a < -1 || a > 1,
        k <= e,
        !in_i64(pow_spec(a, k)),
    ensures
        !in_i64(pow_spec(a, e)),
    decreases e - k,
{
    if k < e {
        let p = pow_spec(a, k);
        assert(pow_spec(a, k + 1) == a * p);
        assert(a * p >= 0x8000_0000_0000_0000 || a * p <= -0x8000_0000_0000_0000) by (nonlinear_arith)
            requires
                a < -1 || a > 1,
                p >= 0x8000_0000_0000_0000 || p <= -0x8000_0000_0000_0001,
        {
        }
        if pow_spec(a, k + 1) == -0x8000_0000_0000_0000 {
            assert(false) by (nonlinear_arith)
                requires
                    a * p == -0x8000_0000_0000_0000,
                    a < -1 || a > 1,
                    p >= 0x8000_0000_0000_0000 || p <= -0x8000_0000_0000_0001,
            {
            }
        }
        lemma_pow_grows(a, (k + 1) as nat, e);
    }
}

pub(crate) fn eval_int_infix(operator: &Token, left: i64, right: i64) -> (r: Result<Object, RuntimeError>)
    ensures
        match r {
            Ok(o) => Ok(o@),
            Err(e) => Err(e@),
        } == int_infix_spec(operator@, left, right),
{
    match operator {
        Token::Plus => match left.checked_add(right) {
            Some(v) => Ok(Object::Integer(v)),
            None => Err(RuntimeError::IntegerOverflow),
        },
        Token::Minus => match left.checked_sub(right) {
            Some(v) => Ok(Object::Integer(v)),
            None => Err(RuntimeError::IntegerOverflow),
        },
        Token::Asterisk => match left.checked_mul(right) {
            Some(v) => Ok(Object::Integer(v)),
            None => Err(RuntimeError::IntegerOverflow),
        },
        Token::Slash => {
            if right == 0 {
                Err(RuntimeError::DivOrModByZero)
            } else {
                match left.checked_div(right) {
                    Some(v) => Ok(Object::Integer(v)),
                    None => Err(RuntimeError::IntegerOverflow),
                }
            }
        },
        Token::Modulo => {
            if right == 0 {
                Err(RuntimeError::DivOrModByZero)
            } else {
                match left.checked_rem(right) {
                    Some(v) => Ok(Object::Integer(v)),
                    None => Err(RuntimeError::IntegerOverflow),
                }
            }
        },
        Token::Exponent => {
            if right < 0 {
                Err(RuntimeError::NegativeExponent)
            } else {
                let e: u32 = (right % 4294967296) as u32;
                match checked_pow(left, e) {
                    Some(v) => Ok(Object::Integer(v)),
                    None => Err(RuntimeError::IntegerOverflow),
                }
            }
        },
        Token::LessThan => Ok(Object::Boolean(left < right)),
        Token::LessEq => Ok(Object::Boolean(left <= right)),
        Token::GreaterThan => Ok(Object::Boolean(left > right)),
        Token::GreaterEq => Ok(Object::Boolean(left >= right)),
        _ => Err(RuntimeError::InfixTypeError("int", clone_token(operator), "int")),
    }
}

/// A prefix operator applied to a value.
pub fn eval_prefix_expression(operator: &Token, right: &Object) -> (r: Result<Object, RuntimeError>)
    ensures
        match r {
            Ok(o) => Ok(o@),
            Err(e) => Err(e@),
        } == prefix_spec(operator@, right@),
{
    match (operator, right) {
        (Token::Minus, Object::Integer(i)) => {
            if *i == i64::MIN {
                Err(RuntimeError::IntegerOverflow)
            } else {
                Ok(Object::Integer(-*i))
            }
        },
        (Token::Bang, obj) => Ok(Object::Boolean(!obj.is_truthy())),
        _ => Err(RuntimeError::PrefixTypeError(clone_token(operator), right.type_str())),
    }
}

/// An infix operator applied to two values.
pub fn eval_infix_expression(left: &Object, operator: &Token, right: &Object) -> (r: Result<
    Object,
    RuntimeError,
>)
    ensures
        match r {
            Ok(o) => Ok(o@),
            Err(e) => Err(e@),
        } == infix_spec(left@, operator@, right@),
{
    match operator {
        Token::Equals => {
            let eq = match Object::are_equal(left, right) {
                Some(b) => b,
                None => false,
            };
            return Ok(Object::Boolean(eq));
        },
        Token::NotEquals => {
            let eq = match Object::are_equal(left, right) {
                Some(b) => b,
                None => false,
            };
            return Ok(Object::Boolean(!eq));
        },
        _ => {},
    }
    match (left, right) {
        (Object::Integer(l), Object::Integer(r)) => eval_int_infix(operator, *l, *r),
        (Object::Str(l), Object::Str(r)) => {
            if matches!(operator, Token::Plus) {
                let mut s = l.clone();
                s.append(r.as_str());
                Ok(Object::Str(s))
            } else {
                Err(
                    RuntimeError::InfixTypeError(
                        left.type_str(),
                        clone_token(operator),
                        right.type_str(),
                    ),
                )
            }
        },
        _ => Err(
            RuntimeError::InfixTypeError(left.type_str(), clone_token(operator), right.type_str()),
        ),
    }
}

/// The key that a value serves as in a hash of the interpreter, if any.
fn interp_key_exec(o: &Object) -> (r: Option<HashableObject>)
    ensures
        match interp_key(o@) {
            Some(k) => r is Some && r->Some_0@ == k,
            None => r is None,
        },
{
    match o {
        Object::Integer(i) => Some(HashableObject::Integer(*i)),
        Object::Boolean(b) => Some(HashableObject::Boolean(*b)),
        Object::Str(s) => Some(HashableObject::Str(s.clone())),
        _ => None,
    }
}

/// Indexes an array, a hash or a string.
pub fn eval_index_expression(object: &Object, index: &Object) -> (r: Result<Object, RuntimeError>)
    ensures
        match r {
            Ok(o) => Ok(o@),
            Err(e) => Err(e@),
        } == index_spec(object@, index@),
{
    match (object, index) {
        (Object::Array(vector), Object::Integer(i)) => {
            proof {
                lemma_objects_view_len(vector@);
            }
            if *i < 0 || (*i as u64) >= (vector.len() as u64) {
                Err(RuntimeError::IndexOutOfBounds(*i))
            } else {
                Ok(vector[*i as usize].clone_object())
            }
        },
        (Object::Array(_), other) => Err(RuntimeError::IndexTypeError(other.type_str())),
        (Object::Hash(map), key) => {
            match interp_key_exec(key) {
                None => Err(RuntimeError::HashKeyTypeError(key.type_str())),
                Some(k) => match hash_lookup(map, &k) {
                    Some(v) => Ok(v),
                    None => Err(RuntimeError::KeyError(k)),
                },
            }
        },
        (Object::Str(s), Object::Integer(i)) => {
            let chars = chars_of(s.as_str());
            if *i < 0 || (*i as u64) >= (chars.len() as u64) {
                Err(RuntimeError::IndexOutOfBounds(*i))
            } else {
                let mut one: Vec<char> = Vec::new();
                one.push(chars[*i as usize]);
                assert(one@ =~= seq![s@[*i as int]]);
                Ok(Object::Str(string_from_chars(&one)))
            }
        },
        (Object::Str(_), other) => Err(RuntimeError::IndexTypeError(other.type_str())),
        (other, _) => Err(RuntimeError::IndexingWrongType(other.type_str())),
    }
}

fn eval_expr_exec(e: &NodeExpression, env: &mut Environment, h: usize, depth: usize) -> (r:
    MonkeyResult<Object>)
    ensures
        (final(env)@, outcome_view(r)) == eval_expr(old(env)@, h as int, expr_view(*e), depth as nat),
        runtime_only(r),
    decreases depth, e, 1nat,
{
    let pos = e.position;
    match &e.expression {
        Expression::Identifier(name) => match env.get(h, name.as_str()) {
            Some(v) => Ok(v),
            None => Err(err_at(pos, RuntimeError::IdenNotFound(name.clone()))),
        },
        Expression::IntLiteral(i) => Ok(Object::Integer(*i)),
        Expression::Boolean(b) => Ok(Object::Boolean(*b)),
        Expression::StringLiteral(x) => Ok(Object::Str(x.clone())),
        Expression::Nil => Ok(Object::Nil),
        Expression::ArrayLiteral(v) => {
            proof {
                assert(decreases_to!(*e => e.expression));
                assert(decreases_to!(e.expression => e.expression->ArrayLiteral_0));
            }
            match eval_list_exec(v, env, h, depth) {
                Ok(items) => Ok(Object::Array(items)),
                Err(er) => Err(er),
            }
        },
        Expression::HashLiteral(v) => {
            proof {
                assert(decreases_to!(*e => e.expression));
                assert(decreases_to!(e.expression => e.expression->HashLiteral_0));
            }
            eval_hash_exec(v, pos, env, h, depth)
        },
        Expression::PrefixExpression(op, a) => {
            let x = match eval_expr_exec(a, env, h, depth) {
                Ok(x) => x,
                Err(er) => return Err(er),
            };
            at_exec(pos, eval_prefix_expression(op, &x))
        },
        Expression::InfixExpression(a, op, b) => {
            let x = match eval_expr_exec(a, env, h, depth) {
                Ok(x) => x,
                Err(er) => return Err(er),
            };
            let y = match eval_expr_exec(b, env, h, depth) {
                Ok(y) => y,
                Err(er) => return Err(er),
            };
            at_exec(pos, eval_infix_expression(&x, op, &y))
        },
        Expression::IfExpression { condition, consequence, alternative } => {
            proof {
                assert(decreases_to!(*e => e.expression));
                assert(decreases_to!(e.expression => e.expression->consequence));
                assert(decreases_to!(e.expression => e.expression->alternative));
            }
            let c = match eval_expr_exec(condition, env, h, depth) {
                Ok(c) => c,
                Err(er) => return Err(er),
            };
            if c.is_truthy() {
                eval_block_exec(consequence, env, h, depth)
            } else {
                eval_block_exec(alternative, env, h, depth)
            }
        },
        Expression::FunctionLiteral { parameters, body } => {
            let f = InterpreterFunctionObject {
                environment: h,
                parameters: clone_strings(parameters),
                body: clone_statements(body),
            };
            Ok(Object::InterpreterFunc(Box::new(f)))
        },
        Expression::CallExpression { function, arguments } => {
            proof {
                assert(decreases_to!(*e => e.expression));
                assert(decreases_to!(e.expression => e.expression->arguments));
            }
            let f = match eval_expr_exec(function, env, h, depth) {
                Ok(f) => f,
                Err(er) => return Err(er),
            };
            let args = match eval_list_exec(arguments, env, h, depth) {
                Ok(args) => args,
                Err(er) => return Err(er),
            };
            eval_call_exec(f, args, pos, Ghost(*e), env, depth)
        },
        Expression::IndexExpression(a, b) => {
            let x = match eval_expr_exec(a, env, h, depth) {
                Ok(x) => x,
                Err(er) => return Err(er),
            };
            let y = match eval_expr_exec(b, env, h, depth) {
                Ok(y) => y,
                Err(er) => return Err(er),
            };
            at_exec(pos, eval_index_expression(&x, &y))
        },
        Expression::BlockExpression(block) => {
            proof {
                assert(decreases_to!(*e => e.expression));
                assert(decreases_to!(e.expression => e.expression->BlockExpression_0));
            }
            eval_block_exec(block, env, h, depth)
        },
    }
}

fn eval_list_exec(v: &Vec<NodeExpression>, env: &mut Environment, h: usize, depth: usize) -> (r:
    Result<Vec<Object>, MonkeyError>)
    ensures
        (final(env)@, list_outcome_view(r)) == eval_list(
            old(env)@,
            h as int,
            exprs_view(v@),
            0,
            seq![],
            depth as nat,
        ),
        runtime_only(r),
    decreases depth, v, 0nat,
{
    let ghost vv = exprs_view(v@);
    proof {
        lemma_exprs_view_index(v@);
    }
    let mut items: Vec<Object> = Vec::new();
    let mut i: usize = 0;
    assert(objects_view(items@) =~= Seq::<ObjectV>::empty());
    while i < v.len()
        invariant
            i <= v@.len(),
            vv == exprs_view(v@),
            vv.len() == v@.len(),
            forall|k: int| 0 <= k < v@.len() ==> #[trigger] vv[k] == expr_view(v@[k]),
            eval_list(old(env)@, h as int, vv, 0, seq![], depth as nat) == eval_list(
                env@,
                h as int,
                vv,
                i as int,
                objects_view(items@),
                depth as nat,
            ),
        decreases v@.len() - i,
    {
        proof {
            assert(decreases_to!(*v => v@[i as int]));
        }
        let x = match eval_expr_exec(&v[i], env, h, depth) {
            Ok(x) => x,
            Err(er) => return Err(er),
        };
        let ghost prev = items@;
        items.push(x);
        proof {
            assert(items@.drop_last() =~= prev);
        }
        i = i + 1;
    }
    Ok(items)
}

fn eval_hash_exec(
    v: &Vec<(NodeExpression, NodeExpression)>,
    pos: Position,
    env: &mut Environment,
    h: usize,
    depth: usize,
) -> (r: MonkeyResult<Object>)
    ensures
        (final(env)@, outcome_view(r)) == eval_hash(
            old(env)@,
            h as int,
            pairs_view(v@),
            0,
            seq![],
            pos,
            depth as nat,
        ),
        runtime_only(r),
    decreases depth, v, 0nat,
{
    let ghost vv = pairs_view(v@);
    proof {
        lemma_pairs_view_index(v@);
    }
    let mut entries: Vec<(HashableObject, Object)> = Vec::new();
    let mut i: usize = 0;
    assert(entries_view(entries@) =~= Seq::<(HashKeyV, ObjectV)>::empty());
    while i < v.len()
        invariant
            i <= v@.len(),
            vv == pairs_view(v@),
            vv.len() == v@.len(),
            forall|k: int|
                0 <= k < v@.len() ==> #[trigger] vv[k] == (
                    expr_view(v@[k].0),
                    expr_view(v@[k].1),
                ),
            hash_wf(entries_view(entries@)),
            eval_hash(old(env)@, h as int, vv, 0, seq![], pos, depth as nat) == eval_hash(
                env@,
                h as int,
                vv,
                i as int,
                entries_view(entries@),
                pos,
                depth as nat,
            ),
        decreases v@.len() - i,
    {
        proof {
            assert(decreases_to!(*v => v@[i as int]));
            assert(decreases_to!(v@[i as int] => v@[i as int].0));
            assert(decreases_to!(v@[i as int] => v@[i as int].1));
        }
        let k = match eval_expr_exec(&v[i].0, env, h, depth) {
            Ok(k) => k,
            Err(er) => return Err(er),
        };
        let key = match interp_key_exec(&k) {
            Some(key) => key,
            None => return Err(err_at(pos, RuntimeError::HashKeyTypeError(k.type_str()))),
        };
        let x = match eval_expr_exec(&v[i].1, env, h, depth) {
            Ok(x) => x,
            Err(er) => return Err(er),
        };
        hash_insert(&mut entries, key, x);
        i = i + 1;
    }
    Ok(Object::Hash(entries))
}

fn eval_block_exec(block: &Vec<NodeStatement>, env: &mut Environment, h: usize, depth: usize) -> (r:
    MonkeyResult<Object>)
    ensures
        (final(env)@, outcome_view(r)) == eval_block(
            old(env)@,
            h as int,
            stmts_view(block@),
            depth as nat,
        ),
        runtime_only(r),
    decreases depth, block, 0nat,
{
    let ghost bv = stmts_view(block@);
    proof {
        lemma_stmts_view_index(block@);
    }
    let nh = env.extend(h);
    let mut last = Object::Nil;
    let mut i: usize = 0;
    while i < block.len()
        invariant
            i <= block@.len(),
            bv == stmts_view(block@),
            bv.len() == block@.len(),
            forall|k: int| 0 <= k < block@.len() ==> #[trigger] bv[k] == stmt_view(block@[k]),
            eval_block(old(env)@, h as int, bv, depth as nat) == eval_stmts(
                env@,
                nh as int,
                bv,
                i as int,
                last@,
                depth as nat,
            ),
        decreases block@.len() - i,
    {
        proof {
            assert(decreases_to!(*block => block@[i as int]));
        }
        last = match eval_stmt_exec(&block[i], env, nh, depth) {
            Ok(x) => x,
            Err(er) => return Err(er),
        };
        i = i + 1;
    }
    Ok(last)
}

fn eval_stmt_exec(st: &NodeStatement, env: &mut Environment, h: usize, depth: usize) -> (r:
    MonkeyResult<Object>)
    ensures
        (final(env)@, outcome_view(r)) == eval_stmt(old(env)@, h as int, stmt_view(*st), depth as nat),
        runtime_only(r),
    decreases depth, st, 0nat,
{
    match &st.statement {
        Statement::ExpressionStatement(e) => eval_expr_exec(e, env, h, depth),
        Statement::Return(e) => {
            let v = match eval_expr_exec(e, env, h, depth) {
                Ok(v) => v,
                Err(er) => return Err(er),
            };
            Err(err_at(st.position, RuntimeError::ReturnValue(Box::new(v))))
        },
        Statement::Let(b) => {
            proof {
                assert(decreases_to!(*st => st.statement));
                assert(decreases_to!(st.statement => st.statement->Let_0));
                assert(decreases_to!(st.statement->Let_0 => st.statement->Let_0.1));
            }
            let v = match eval_expr_exec(&b.1, env, h, depth) {
                Ok(v) => v,
                Err(er) => return Err(er),
            };
            env.insert(h, b.0.clone(), v);
            Ok(Object::Nil)
        },
    }
}

fn eval_call_exec(
    f: Object,
    args: Vec<Object>,
    pos: Position,
    Ghost(call): Ghost<NodeExpression>,
    env: &mut Environment,
    depth: usize,
) -> (r: MonkeyResult<Object>)
    ensures
        (final(env)@, outcome_view(r)) == eval_call(
            old(env)@,
            f@,
            objects_view(args@),
            pos,
            depth as nat,
            expr_view(call),
        ),
        runtime_only(r),
    decreases depth, call, 0nat,
{
    proof {
        lemma_objects_view_len(args@);
    }
    match f {
        Object::InterpreterFunc(fo) => {
            if fo.parameters.len() != args.len() {
                return Err(
                    err_at(pos, RuntimeError::WrongNumberOfArgs(fo.parameters.len(), args.len())),
                );
            }
            if depth == 0 {
                return Err(err_at(pos, RuntimeError::StackOverflow));
            }
            let nh = env.call_frame(fo.environment, &fo.parameters, args);
            let r = eval_block_exec(&fo.body, env, nh, depth - 1);
            match r {
                Err(MonkeyError::Interpreter(p, RuntimeError::ReturnValue(v))) => Ok(*v),
                other => other,
            }
        },
        Object::Builtin(b) => {
            let r = b.call(args, &mut env.output);
            at_exec(pos, r)
        },
        other => Err(err_at(pos, RuntimeError::NotCallable(other.type_str()))),
    }
}

/// Calls a function value or a built-in function with the given arguments; errors are
/// reported at `call_position`, the position of the call.
pub fn eval_call_expression(
    obj: Object,
    args: Vec<Object>,
    call_position: Position,
    env: &mut Environment,
) -> (r: MonkeyResult<Object>)
    ensures
        (final(env)@, outcome_view(r)) == eval_call(
            old(env)@,
            obj@,
            objects_view(args@),
            call_position,
            MAX_CALL_DEPTH as nat,
            NodeExpressionV { position: call_position, expression: ExpressionV::Nil },
        ),
        runtime_only(r),
{
    let call = Ghost(NodeExpression { position: call_position, expression: Expression::Nil });
    eval_call_exec(obj, args, call_position, call, env, MAX_CALL_DEPTH)
}

/// Evaluates an expression in frame `h`.
pub fn eval_expression(expression: &NodeExpression, env: &mut Environment, h: usize) -> (r:
    MonkeyResult<Object>)
    ensures
        (final(env)@, outcome_view(r)) == eval_expr(
            old(env)@,
            h as int,
            expr_view(*expression),
            MAX_CALL_DEPTH as nat,
        ),
        runtime_only(r),
{
    eval_expr_exec(expression, env, h, MAX_CALL_DEPTH)
}

/// Evaluates a statement in frame `h`.
pub fn eval_statement(statement: &NodeStatement, env: &mut Environment, h: usize) -> (r:
    MonkeyResult<Object>)
    ensures
        (final(env)@, outcome_view(r)) == eval_stmt(
            old(env)@,
            h as int,
            stmt_view(*statement),
            MAX_CALL_DEPTH as nat,
        ),
        runtime_only(r),
{
    eval_stmt_exec(statement, env, h, MAX_CALL_DEPTH)
}

/// Runs a program in frame 0 of `env`, statement by statement, up to the first error.
pub fn run_program(program: &Vec<NodeStatement>, env: &mut Environment) -> (r: MonkeyResult<()>)
    ensures
        final(env)@ == run_stmts(old(env)@, 0, stmts_view(program@), 0).0,
        match run_stmts(old(env)@, 0, stmts_view(program@), 0).1 {
            Ok(_) => r is Ok,
            Err((p, e)) => r matches Err(MonkeyError::Interpreter(q, x)) && q == p && x@ == e,
        },
{
    let ghost pv = stmts_view(program@);
    proof {
        lemma_stmts_view_index(program@);
    }
    let mut i: usize = 0;
    while i < program.len()
        invariant
            i <= program@.len(),
            pv == stmts_view(program@),
            pv.len() == program@.len(),
            forall|k: int| 0 <= k < program@.len() ==> #[trigger] pv[k] == stmt_view(program@[k]),
            run_stmts(old(env)@, 0, pv, 0) == run_stmts(env@, 0, pv, i as int),
        decreases program@.len() - i,
    {
        match eval_statement(&program[i], env, 0) {
            Ok(_) => {},
            Err(er) => return Err(er),
        }
        i = i + 1;
    }
    Ok(())
}

// ---------------------------------------------------------------------------------------------
// Laws of the environment
// ---------------------------------------------------------------------------------------------

/// Law: after a name is bound in a frame, looking it up from that frame gives the bound value.
pub proof fn lemma_insert_then_get(s: EnvV, h: int, name: Seq<char>, v: ObjectV)
    requires
        0 <= h < s.frames.len(),
    ensures
        get_var(put_var(s, h, name, v).frames, h, name) == Some(v),
{
    let s1 = put_var(s, h, name, v);
    assert(s1.frames[h].vars.last() == (name, v));
}

/// Lists of frames that agree up to `j` give the same lookups from `j`.
proof fn lemma_env_lookup_agree(f1: Seq<FrameV>, f2: Seq<FrameV>, j: int, name: Seq<char>)
    requires
        f1.len() == f2.len(),
        forall|i: int| 0 <= i <= j && i < f1.len() ==> f1[i] == f2[i],
    ensures
        env_lookup(f1, j, name) == env_lookup(f2, j, name),
    decreases j,
{
    if 0 <= j < f1.len() {
        match f1[j].outer {
            Some(o) => {
                if (o as int) < j {
                    lemma_env_lookup_agree(f1, f2, o as int, name);
                }
            },
            None => {},
        }
    }
}

/// Law: binding a name in a frame leaves what every other name looks up to from that frame.
pub proof fn lemma_insert_keeps_others(
    s: EnvV,
    h: int,
    name: Seq<char>,
    v: ObjectV,
    other: Seq<char>,
)
    requires
        0 <= h < s.frames.len(),
        other != name,
    ensures
        get_var(put_var(s, h, name, v).frames, h, other) == get_var(s.frames, h, other),
{
    let f2 = put_var(s, h, name, v).frames;
    assert(f2[h].vars.drop_last() =~= s.frames[h].vars);
    match s.frames[h].outer {
        Some(o) => {
            if (o as int) < h {
                lemma_env_lookup_agree(s.frames, f2, o as int, other);
            }
        },
        None => {},
    }
}

/// Law: in the interpreter `l == r` is true exactly when the two values are the same integer,
/// boolean, string or `nil`, and false otherwise (values that cannot be compared are unequal);
/// `l != r` is its negation; both are symmetric.
pub proof fn lemma_interpreter_equality(l: ObjectV, r: ObjectV)
    ensures
        infix_spec(l, TokenV::Equals, r) == Ok::<ObjectV, RuntimeErrorV>(
            ObjectV::Boolean(crate::object::as_key(l) is Some && l == r),
        ),
        infix_spec(l, TokenV::NotEquals, r) == Ok::<ObjectV, RuntimeErrorV>(
            ObjectV::Boolean(!(crate::object::as_key(l) is Some && l == r)),
        ),
        infix_spec(l, TokenV::Equals, r) == infix_spec(r, TokenV::Equals, l),
        infix_spec(l, TokenV::NotEquals, r) == infix_spec(r, TokenV::NotEquals, l),
{
}

/// Law: integer `+`, `-` and `*` give the exact result wherever it fits in 64 bits, and an
/// overflow error elsewhere.
pub proof fn lemma_int_arithmetic_exact(a: i64, b: i64)
    ensures
        int_infix_spec(TokenV::Plus, a, b) == (if in_i64(a + b) {
            Ok::<ObjectV, RuntimeErrorV>(ObjectV::Integer((a + b) as i64))
        } else {
            Err(RuntimeErrorV::IntegerOverflow)
        }),
        int_infix_spec(TokenV::Minus, a, b) == (if in_i64(a - b) {
            Ok::<ObjectV, RuntimeErrorV>(ObjectV::Integer((a - b) as i64))
        } else {
            Err(RuntimeErrorV::IntegerOverflow)
        }),
        int_infix_spec(TokenV::Asterisk, a, b) == (if in_i64(a * b) {
            Ok::<ObjectV, RuntimeErrorV>(ObjectV::Integer((a * b) as i64))
        } else {
            Err(RuntimeErrorV::IntegerOverflow)
        }),
{
}

/// Law: integer `/` truncates toward zero and `%` gives what is left: for a nonzero divisor
/// `b`, `a == (a / b) * b + a % b`, and the remainder is smaller than `b` in magnitude and has
/// the sign of `a` (or is zero). A zero divisor is an error for both, and `i64::MIN / -1`, whose
/// quotient does not fit, overflows for both.
pub proof fn lemma_int_division(a: i64, b: i64)
    ensures
        b == 0 ==> int_infix_spec(TokenV::Slash, a, b) == Err::<ObjectV, RuntimeErrorV>(
            RuntimeErrorV::DivOrModByZero,
        ) && int_infix_spec(TokenV::Modulo, a, b) == Err::<ObjectV, RuntimeErrorV>(
            RuntimeErrorV::DivOrModByZero,
        ),
        a == i64::MIN && b == -1 ==> int_infix_spec(TokenV::Slash, a, b) == Err::<
            ObjectV,
            RuntimeErrorV,
        >(RuntimeErrorV::IntegerOverflow) && int_infix_spec(TokenV::Modulo, a, b) == Err::<
            ObjectV,
            RuntimeErrorV,
        >(RuntimeErrorV::IntegerOverflow),
        b != 0 && !(a == i64::MIN && b == -1) ==> {
            &&& int_infix_spec(TokenV::Slash, a, b) is Ok
            &&& int_infix_spec(TokenV::Slash, a, b)->Ok_0 is Integer
            &&& int_infix_spec(TokenV::Modulo, a, b) is Ok
            &&& int_infix_spec(TokenV::Modulo, a, b)->Ok_0 is Integer
            &&& a == int_infix_spec(TokenV::Slash, a, b)->Ok_0->Integer_0 * b + int_infix_spec(
                TokenV::Modulo,
                a,
                b,
            )->Ok_0->Integer_0
            &&& a >= 0 ==> 0 <= int_infix_spec(TokenV::Modulo, a, b)->Ok_0->Integer_0 < (if b < 0 {
                -b
            } else {
                b as int
            })
            &&& a < 0 ==> -(if b < 0 {
                -b
            } else {
                b as int
            }) < int_infix_spec(TokenV::Modulo, a, b)->Ok_0->Integer_0 <= 0
        },
{
    if b != 0 && !(a == i64::MIN && b == -1) {
        let x = a as int;
        let d = b as int;
        let (q, r): (int, int) = if x == 0 {
            (0, 0)
        } else if x > 0 && d > 0 {
            assert(x == (x / d) * d + x % d && 0 <= x % d < d) by (nonlinear_arith)
                requires d > 0,
            {
                vstd::arithmetic::div_mod::lemma_fundamental_div_mod(x, d);
            }
            assert(0 <= x / d <= x) by (nonlinear_arith)
                requires x > 0, d > 0, x == (x / d) * d + x % d, 0 <= x % d < d,
            {
            }
            (x / d, x % d)
        } else if x < 0 && d < 0 {
            let u = x * -1;
            let v = d * -1;
            assert(u == (u / v) * v + u % v && 0 <= u % v < v) by (nonlinear_arith)
                requires v > 0,
            {
                vstd::arithmetic::div_mod::lemma_fundamental_div_mod(u, v);
            }
            assert(0 <= u / v <= u) by (nonlinear_arith)
                requires u > 0, v > 0, u == (u / v) * v + u % v, 0 <= u % v < v,
            {
            }
            assert(x == (u / v) * d + (u % v) * -1) by (nonlinear_arith)
                requires u == -x, v == -d, u == (u / v) * v + u % v,
            {
            }
            assert(u / v < 0x8000_0000_0000_0000) by (nonlinear_arith)
                requires u <= 0x8000_0000_0000_0000, v >= 1, !(u == 0x8000_0000_0000_0000 && v == 1),
                    u == (u / v) * v + u % v, 0 <= u % v < v, 0 <= u / v <= u,
            {
            }
            (u / v, (u % v) * -1)
        } else if x < 0 {
            let u = x * -1;
            assert(u == (u / d) * d + u % d && 0 <= u % d < d) by (nonlinear_arith)
                requires d > 0,
            {
                vstd::arithmetic::div_mod::lemma_fundamental_div_mod(u, d);
            }
            assert(0 <= u / d <= u) by (nonlinear_arith)
                requires u > 0, d > 0, u == (u / d) * d + u % d, 0 <= u % d < d,
            {
            }
            assert(x == ((u / d) * -1) * d + (u % d) * -1) by (nonlinear_arith)
                requires u == -x, u == (u / d) * d + u % d,
            {
            }
            ((u / d) * -1, (u % d) * -1)
        } else {
            let v = d * -1;
            assert(x == (x / v) * v + x % v && 0 <= x % v < v) by (nonlinear_arith)
                requires v > 0,
            {
                vstd::arithmetic::div_mod::lemma_fundamental_div_mod(x, v);
            }
            assert(0 <= x / v <= x) by (nonlinear_arith)
                requires x > 0, v > 0, x == (x / v) * v + x % v, 0 <= x % v < v,
            {
            }
            assert(x == ((x / v) * -1) * d + x % v) by (nonlinear_arith)
                requires v == -d, x == (x / v) * v + x % v,
            {
            }
            ((x / v) * -1, x % v)
        };
        assert(a.checked_div(b) == Some(q as i64));
        assert(a.checked_rem(b) == Some(r as i64));
        assert(x == q * d + r);
        assert(x >= 0 ==> 0 <= r < (if d < 0 { -d } else { d }));
        assert(x < 0 ==> -(if d < 0 { -d } else { d }) < r <= 0);
    }
}

/// Law: the comparison operators on integers compare their values, and `<` and `<=` are `>`
/// and `>=` with the operands swapped.
pub proof fn lemma_int_comparisons_interpreted(a: i64, b: i64)
    ensures
        int_infix_spec(TokenV::LessThan, a, b) == Ok::<ObjectV, RuntimeErrorV>(ObjectV::Boolean(a < b)),
        int_infix_spec(TokenV::LessEq, a, b) == Ok::<ObjectV, RuntimeErrorV>(ObjectV::Boolean(a <= b)),
        int_infix_spec(TokenV::GreaterThan, a, b) == Ok::<ObjectV, RuntimeErrorV>(ObjectV::Boolean(a > b)),
        int_infix_spec(TokenV::GreaterEq, a, b) == Ok::<ObjectV, RuntimeErrorV>(ObjectV::Boolean(a >= b)),
        infix_spec(ObjectV::Integer(a), TokenV::LessThan, ObjectV::Integer(b)) == infix_spec(
            ObjectV::Integer(b),
            TokenV::GreaterThan,
            ObjectV::Integer(a),
        ),
        infix_spec(ObjectV::Integer(a), TokenV::LessEq, ObjectV::Integer(b)) == infix_spec(
            ObjectV::Integer(b),
            TokenV::GreaterEq,
            ObjectV::Integer(a),
        ),
{
}

/// Law: `-` negates an integer, and negating twice gives it back; only `i64::MIN`, whose
/// negation does not fit, overflows; `-` of any other value is a type error.
pub proof fn lemma_prefix_minus(v: ObjectV)
    ensures
        v is Integer && v->Integer_0 != i64::MIN ==> prefix_spec(TokenV::Minus, v) == Ok::<
            ObjectV,
            RuntimeErrorV,
        >(ObjectV::Integer((-v->Integer_0) as i64)) && prefix_spec(
            TokenV::Minus,
            prefix_spec(TokenV::Minus, v)->Ok_0,
        ) == Ok::<ObjectV, RuntimeErrorV>(v),
        v == ObjectV::Integer(i64::MIN) ==> prefix_spec(TokenV::Minus, v) == Err::<
            ObjectV,
            RuntimeErrorV,
        >(RuntimeErrorV::IntegerOverflow),
        !(v is Integer) ==> prefix_spec(TokenV::Minus, v) == Err::<ObjectV, RuntimeErrorV>(
            RuntimeErrorV::PrefixTypeError(TokenV::Minus, type_label(v)),
        ),
{
}

/// Law: `!` gives `true` exactly for `false`, `nil` and `0`, and `false` for every other value;
/// so `!!v` is `true` exactly for the values that a condition takes as true, and `!!b == b` on
/// a boolean.
pub proof fn lemma_prefix_bang(v: ObjectV)
    ensures
        prefix_spec(TokenV::Bang, v) == Ok::<ObjectV, RuntimeErrorV>(
            ObjectV::Boolean(v == ObjectV::Boolean(false) || v == ObjectV::Nil || v == ObjectV::Integer(0)),
        ),
        prefix_spec(TokenV::Bang, prefix_spec(TokenV::Bang, v)->Ok_0) == Ok::<ObjectV, RuntimeErrorV>(
            ObjectV::Boolean(truthy(v)),
        ),
        v is Boolean ==> prefix_spec(TokenV::Bang, prefix_spec(TokenV::Bang, v)->Ok_0) == Ok::<
            ObjectV,
            RuntimeErrorV,
        >(v),
{
}

/// Law: comparing two string literals with `==` gives whether they hold the same characters,
/// and with `!=` whether they differ; evaluating them leaves the state as it was. In particular
/// a string equals itself.
pub proof fn lemma_eval_string_equality(
    s: EnvV,
    h: int,
    x: Seq<char>,
    px: Position,
    y: Seq<char>,
    py: Position,
    pos: Position,
    depth: nat,
)
    ensures
        eval_expr(
            s,
            h,
            NodeExpressionV {
                position: pos,
                expression: ExpressionV::InfixExpression(
                    Box::new(NodeExpressionV { position: px, expression: ExpressionV::StringLiteral(x) }),
                    TokenV::Equals,
                    Box::new(NodeExpressionV { position: py, expression: ExpressionV::StringLiteral(y) }),
                ),
            },
            depth,
        ) == (s, Ok::<ObjectV, (Position, RuntimeErrorV)>(ObjectV::Boolean(x == y))),
        eval_expr(
            s,
            h,
            NodeExpressionV {
                position: pos,
                expression: ExpressionV::InfixExpression(
                    Box::new(NodeExpressionV { position: px, expression: ExpressionV::StringLiteral(x) }),
                    TokenV::NotEquals,
                    Box::new(NodeExpressionV { position: py, expression: ExpressionV::StringLiteral(y) }),
                ),
            },
            depth,
        ) == (s, Ok::<ObjectV, (Position, RuntimeErrorV)>(ObjectV::Boolean(x != y))),
{
    let lx = NodeExpressionV { position: px, expression: ExpressionV::StringLiteral(x) };
    let ly = NodeExpressionV { position: py, expression: ExpressionV::StringLiteral(y) };
    assert(eval_expr(s, h, lx, depth) == (s, Ok::<ObjectV, (Position, RuntimeErrorV)>(ObjectV::Str(x))));
    assert(eval_expr(s, h, ly, depth) == (s, Ok::<ObjectV, (Position, RuntimeErrorV)>(ObjectV::Str(y))));
}

/// Law: an `if` runs its first block when its condition gives any value but `false`, `nil` and
/// `0`, and its `else` block when it gives one of those, in the state that the condition left;
/// a condition that fails makes the whole expression fail with its error.
pub proof fn lemma_if_chooses_branch(
    s: EnvV,
    h: int,
    condition: NodeExpressionV,
    consequence: Seq<NodeStatementV>,
    alternative: Seq<NodeStatementV>,
    pos: Position,
    depth: nat,
)
    ensures
        ({
            let e = NodeExpressionV {
                position: pos,
                expression: ExpressionV::IfExpression {
                    condition: Box::new(condition),
                    consequence,
                    alternative,
                },
            };
            let (s1, r) = eval_expr(s, h, condition, depth);
            eval_expr(s, h, e, depth) == match r {
                Ok(v) => if v == ObjectV::Boolean(false) || v == ObjectV::Nil || v == ObjectV::Integer(0) {
                    eval_block(s1, h, alternative, depth)
                } else {
                    eval_block(s1, h, consequence, depth)
                },
                Err(er) => (s1, Err(er)),
            }
        }),
{
}

/// Law: `a ^ n` is the `n`-th power of `a`: `a ^ 0` is 1, and `a ^ (n + 1)` is `a * a ^ n`
/// wherever that fits in 64 bits; a negative exponent is an error.
pub proof fn lemma_exponent_powers(a: i64, n: i64)
    ensures
        n < 0 ==> int_infix_spec(TokenV::Exponent, a, n) == Err::<ObjectV, RuntimeErrorV>(
            RuntimeErrorV::NegativeExponent,
        ),
        int_infix_spec(TokenV::Exponent, a, 0) == Ok::<ObjectV, RuntimeErrorV>(ObjectV::Integer(1)),
        0 <= n < 0xFFFF_FFFF && int_infix_spec(TokenV::Exponent, a, n) is Ok && in_i64(
            a * int_infix_spec(TokenV::Exponent, a, n)->Ok_0->Integer_0,
        ) ==> int_infix_spec(TokenV::Exponent, a, (n + 1) as i64) == Ok::<ObjectV, RuntimeErrorV>(
            ObjectV::Integer((a * int_infix_spec(TokenV::Exponent, a, n)->Ok_0->Integer_0) as i64),
        ),
{
    if 0 <= n < 0xFFFF_FFFF {
        assert((n as int) % 0x1_0000_0000 == n);
        assert(((n + 1) as int) % 0x1_0000_0000 == n + 1);
        assert(pow_spec(a as int, (n + 1) as nat) == a * pow_spec(a as int, n as nat));
    }
}

} // verus!
