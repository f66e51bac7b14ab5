pub mod model;

use crate::builtins::{result_view, lines_view, BuiltinFn};
use crate::compiler::code::{
    lemma_widths_facts, total_width, Bytecode, Instructions, OpCode, NUM_OPCODES,
};
use crate::error::{
    MonkeyError, MonkeyResult, RuntimeError, RuntimeErrorV,
};
use crate::interpreter::{eval_int_infix, eval_prefix_expression};
use crate::object::{
    entries_view, hash_insert, hash_lookup, hash_wf, lemma_objects_view_len, object_view,
    objects_view, Closure, CompiledFunction, HashableObject, Object, ObjectV,
};
use crate::text::{chars_of, string_from_chars};
use model::{
    array_effect, binary_effect, binary_value, call_spec, closure_effect, constant_effect,
    get_builtin_effect, get_free_effect, get_global_effect, get_local_effect, hash_build,
    hash_effect, index_effect, index_value, nils, prefix_effect, push_result, push_spec,
    return_spec, run_spec, set_global_effect, set_local_effect, start, step, with_stack, FrameV,
    MachineV, StepV, VmV, GLOBALS_SIZE, MAX_STEPS, STACK_SIZE,
};
use vstd::prelude::*;

verus! {

// ---------------------------------------------------------------------------------------------
// Views of lists of values
// ---------------------------------------------------------------------------------------------

proof fn lemma_ov_push(s: Seq<Object>, o: Object)
    ensures
        objects_view(s.push(o)) == objects_view(s).push(object_view(o)),
{
    assert(s.push(o).drop_last() =~= s);
}

proof fn lemma_ov_subrange(s: Seq<Object>, i: int, j: int)
    requires
        0 <= i <= j <= s.len(),
    ensures
        objects_view(s.subrange(i, j)) == objects_view(s).subrange(i, j),
{
    lemma_objects_view_len(s);
    lemma_objects_view_len(s.subrange(i, j));
    assert(objects_view(s.subrange(i, j)) =~= objects_view(s).subrange(i, j));
}

proof fn lemma_ov_remove(s: Seq<Object>, i: int)
    requires
        0 <= i < s.len(),
    ensures
        objects_view(s.remove(i)) == objects_view(s).remove(i),
{
    lemma_objects_view_len(s);
    lemma_objects_view_len(s.remove(i));
    assert(objects_view(s.remove(i)) =~= objects_view(s).remove(i));
}

proof fn lemma_ov_update(s: Seq<Object>, i: int, o: Object)
    requires
        0 <= i < s.len(),
    ensures
        objects_view(s.update(i, o)) == objects_view(s).update(i, object_view(o)),
{
    lemma_objects_view_len(s);
    lemma_objects_view_len(s.update(i, o));
    assert(objects_view(s.update(i, o)) =~= objects_view(s).update(i, object_view(o)));
}

// ---------------------------------------------------------------------------------------------
// Frames
// ---------------------------------------------------------------------------------------------

/// A function activation: its instructions, the position of the next instruction, where its
/// locals start on the stack, and the values of its free variables.
pub struct Frame {
    instructions: Vec<u8>,
    pc: usize,
    base: usize,
    free: Vec<Object>,
}

impl View for Frame {
    type V = FrameV;

    closed spec fn view(&self) -> FrameV {
        FrameV {
            ins: self.instructions@,
            pc: self.pc as int,
            base: self.base as int,
            free: objects_view(self.free@),
        }
    }
}

pub closed spec fn frames_view(s: Seq<Frame>) -> Seq<FrameV> {
    s.map_values(|f: Frame| f@)
}

/// What a step did: go on, finish, or stop on an error.
enum Step {
    Running,
    Halted,
    Failed(RuntimeError),
}

spec fn step_view(s: Step) -> StepV {
    match s {
        Step::Running => StepV::Running,
        Step::Halted => StepV::Halted,
        Step::Failed(e) => StepV::Failed(e@),
    }
}

pub open spec fn effect_view(r: Result<(), RuntimeError>) -> Result<(), RuntimeErrorV> {
    match r {
        Ok(()) => Ok(()),
        Err(e) => Err(e@),
    }
}

/// What running gives: the machine's own errors only.
pub open spec fn vm_outcome(r: MonkeyResult<()>) -> Result<(), RuntimeErrorV> {
    match r {
        Ok(()) => Ok(()),
        Err(MonkeyError::Vm(e)) => Err(e@),
        Err(_) => Err(RuntimeErrorV::InvalidBytecode),
    }
}

pub open spec fn vm_only<T>(r: MonkeyResult<T>) -> bool {
    r is Err ==> r->Err_0 is Vm
}

fn copy_bytes(v: &Vec<u8>) -> (r: Vec<u8>)
    ensures
        r@ == v@,
{
    let mut r: Vec<u8> = Vec::new();
    let mut i: usize = 0;
    while i < v.len()
        invariant
            i <= v@.len(),
            r@ == v@.take(i as int),
        decreases v@.len() - i,
    {
        r.push(v[i]);
        assert(r@ =~= v@.take(i + 1));
        i = i + 1;
    }
    assert(v@.take(v@.len() as int) =~= v@);
    r
}

/// A binary operation on two values.
fn binary_value_exec(left: &Object, op: OpCode, right: &Object) -> (r: Result<Object, RuntimeError>)
    requires
        op == OpCode::OpAdd || op == OpCode::OpSub || op == OpCode::OpMul || op == OpCode::OpDiv
            || op == OpCode::OpExponent || op == OpCode::OpModulo || op == OpCode::OpEquals
            || op == OpCode::OpNotEquals || op == OpCode::OpGreaterThan || op == OpCode::OpGreaterEq,
    ensures
        result_view(r) == binary_value(left@, op, right@),
{
    let tok = op.equivalent_token().unwrap();
    match (left, right) {
        (Object::Integer(a), Object::Integer(b)) => match op {
            OpCode::OpEquals => Ok(Object::Boolean(*a == *b)),
            OpCode::OpNotEquals => Ok(Object::Boolean(*a != *b)),
            OpCode::OpGreaterThan => Ok(Object::Boolean(*a > *b)),
            OpCode::OpGreaterEq => Ok(Object::Boolean(*a >= *b)),
            _ => eval_int_infix(&tok, *a, *b),
        },
        (Object::Boolean(a), Object::Boolean(b)) => match op {
            OpCode::OpEquals => Ok(Object::Boolean(*a == *b)),
            OpCode::OpNotEquals => Ok(Object::Boolean(*a != *b)),
            _ => Err(RuntimeError::InfixTypeError(left.type_str(), tok, right.type_str())),
        },
        (Object::Str(a), Object::Str(b)) => {
            if matches!(op, OpCode::OpAdd) {
                let mut s = a.clone();
                s.append(b.as_str());
                Ok(Object::Str(s))
            } else {
                Err(RuntimeError::InfixTypeError(left.type_str(), tok, right.type_str()))
            }
        },
        _ => Err(RuntimeError::InfixTypeError(left.type_str(), tok, right.type_str())),
    }
}

/// Indexes an array or a string by an integer, or a hash by a key.
fn index_value_exec(object: &Object, index: &Object) -> (r: Result<Object, RuntimeError>)
    ensures
        result_view(r) == index_value(object@, index@),
{
    match (object, index) {
        (Object::Array(vector), Object::Integer(i)) => {
            proof {
                lemma_objects_view_len(vector@);
            }
            if *i < 0 || (*i as u64) >= (vector.len() as u64) {
                Err(RuntimeError::IndexOutOfBounds(*i))
            } else {
                Ok(vector[*i as usize].clone_object())
            }
        },
        (Object::Array(_), other) => Err(RuntimeError::IndexTypeError(other.type_str())),
        (Object::Hash(map), key) => {
            match HashableObject::from_object(key.clone_object()) {
                None => Err(RuntimeError::HashKeyTypeError(key.type_str())),
                Some(k) => match hash_lookup(map, &k) {
                    Some(v) => Ok(v),
                    None => Err(RuntimeError::KeyError(k)),
                },
            }
        },
        (Object::Str(s), Object::Integer(i)) => {
            let chars = chars_of(s.as_str());
            if *i < 0 || (*i as u64) >= (chars.len() as u64) {
                Err(RuntimeError::IndexOutOfBounds(*i))
            } else {
                let mut one: Vec<char> = Vec::new();
                one.push(chars[*i as usize]);
                assert(one@ =~= seq![s@[*i as int]]);
                Ok(Object::Str(string_from_chars(&one)))
            }
        },
        (Object::Str(_), other) => Err(RuntimeError::IndexTypeError(other.type_str())),
        (other, _) => Err(RuntimeError::IndexingWrongType(other.type_str())),
    }
}

/// Sets the running frame's position after an operation that succeeded.
fn advance_exec(cur: &mut Frame, r: Result<(), RuntimeError>, next: usize) -> (s: Step)
    ensures
        r is Ok ==> final(cur)@ == (FrameV {
            ins: old(cur)@.ins,
            pc: next as int,
            base: old(cur)@.base,
            free: old(cur)@.free,
        }),
        r is Err ==> final(cur)@ == old(cur)@,
        step_view(s) == match effect_view(r) {
            Ok(()) => StepV::Running,
            Err(e) => StepV::Failed(e),
        },
{
    match r {
        Ok(()) => {
            cur.pc = next;
            Step::Running
        },
        Err(e) => Step::Failed(e),
    }
}

// ---------------------------------------------------------------------------------------------
// The machine
// ---------------------------------------------------------------------------------------------

/// Runs bytecode: a stack of values, the global variable slots, and the lines that `puts`
/// printed.
pub struct VM {
    stack: Vec<Object>,
    globals: Vec<Object>,
    output: Vec<String>,
}

impl View for VM {
    type V = VmV;

    closed spec fn view(&self) -> VmV {
        VmV {
            stack: objects_view(self.stack@),
            globals: objects_view(self.globals@),
            output: lines_view(self.output@),
        }
    }
}

pub closed spec fn machine(vm: VmV, cur: Frame, saved: Seq<Frame>) -> MachineV {
    MachineV { vm, current: cur@, saved: frames_view(saved) }
}

impl VM {
    /// A machine with an empty stack, every global slot `nil`, and nothing printed.
    pub fn new() -> (vm: VM)
        ensures
            vm@.stack == Seq::<ObjectV>::empty(),
            vm@.globals == Seq::new(GLOBALS_SIZE as nat, |i: int| ObjectV::Nil),
            vm@.output == Seq::<Seq<char>>::empty(),
    {
        let mut globals: Vec<Object> = Vec::new();
        let mut i: usize = 0;
        while i < GLOBALS_SIZE
            invariant
                i <= GLOBALS_SIZE,
                globals@.len() == i,
                forall|k: int| 0 <= k < i ==> #[trigger] globals@[k] == Object::Nil,
            decreases GLOBALS_SIZE - i,
        {
            globals.push(Object::Nil);
            i = i + 1;
        }
        let vm = VM { stack: Vec::new(), globals, output: Vec::new() };
        proof {
            lemma_objects_view_len(globals@);
            assert(vm@.globals =~= Seq::new(GLOBALS_SIZE as nat, |i: int| ObjectV::Nil));
            assert(vm@.output =~= Seq::<Seq<char>>::empty());
        }
        vm
    }

    /// The number of values on the stack.
    pub fn stack_len(&self) -> (r: usize)
        ensures
            r == self@.stack.len(),
    {
        proof {
            lemma_objects_view_len(self.stack@);
        }
        self.stack.len()
    }

    /// The lines printed so far, which are taken out of the machine.
    pub fn take_output(&mut self) -> (r: Vec<String>)
        ensures
            lines_view(r@) == old(self)@.output,
            final(self)@ == (VmV { stack: old(self)@.stack, globals: old(self)@.globals, output: seq![] }),
    {
        let mut out: Vec<String> = Vec::new();
        std::mem::swap(&mut out, &mut self.output);
        assert(self@.output =~= Seq::<Seq<char>>::empty());
        out
    }

    fn push(&mut self, o: Object) -> (r: Result<(), RuntimeError>)
        ensures
            final(self)@ == push_spec(old(self)@, o@).0,
            effect_view(r) == push_spec(old(self)@, o@).1,
    {
        proof {
            lemma_objects_view_len(self.stack@);
        }
        if self.stack.len() >= STACK_SIZE {
            Err(RuntimeError::StackOverflow)
        } else {
            proof {
                lemma_ov_push(self.stack@, o);
            }
            self.stack.push(o);
            Ok(())
        }
    }

    fn push_result(&mut self, r: Result<Object, RuntimeError>) -> (res: Result<(), RuntimeError>)
        ensures
            final(self)@ == push_result(old(self)@, result_view(r)).0,
            effect_view(res) == push_result(old(self)@, result_view(r)).1,
    {
        match r {
            Ok(v) => self.push(v),
            Err(e) => Err(e),
        }
    }

    fn pop_value(&mut self) -> (r: Result<Object, RuntimeError>)
        ensures
            old(self)@.stack.len() == 0 ==> r == Err::<Object, RuntimeError>(RuntimeError::StackUnderflow)
                && final(self)@ == old(self)@,
            old(self)@.stack.len() > 0 ==> r is Ok && r->Ok_0@ == old(self)@.stack.last()
                && final(self)@ == with_stack(old(self)@, old(self)@.stack.drop_last()),
    {
        proof {
            lemma_objects_view_len(self.stack@);
        }
        if self.stack.len() == 0 {
            Err(RuntimeError::StackUnderflow)
        } else {
            proof {
                lemma_ov_subrange(self.stack@, 0, self.stack@.len() - 1);
            }
            let v = self.stack.pop().unwrap();
            proof {
                assert(self.stack@ =~= old(self).stack@.subrange(0, old(self).stack@.len() - 1));
            }
            Ok(v)
        }
    }

    /// Pops the top value off the stack; fails when it is empty.
    pub fn pop(&mut self) -> (r: MonkeyResult<Object>)
        ensures
            old(self)@.stack.len() == 0 ==> r is Err && r->Err_0 == MonkeyError::Vm(
                RuntimeError::StackUnderflow,
            ) && final(self)@ == old(self)@,
            old(self)@.stack.len() > 0 ==> r is Ok && r->Ok_0@ == old(self)@.stack.last()
                && final(self)@ == with_stack(old(self)@, old(self)@.stack.drop_last()),
    {
        match self.pop_value() {
            Ok(v) => Ok(v),
            Err(e) => Err(MonkeyError::Vm(e)),
        }
    }

    /// Takes the top `count` values off the stack, in order.
    fn take_top(&mut self, count: usize) -> (r: Vec<Object>)
        requires
            count <= old(self)@.stack.len(),
        ensures
            final(self)@ == with_stack(old(self)@, old(self)@.stack.take(old(self)@.stack.len() - count)),
            objects_view(r@) == old(self)@.stack.skip(old(self)@.stack.len() - count),
    {
        proof {
            lemma_objects_view_len(self.stack@);
        }
        let n = self.stack.len();
        proof {
            lemma_ov_subrange(self.stack@, 0, n - count);
            lemma_ov_subrange(self.stack@, n - count, n as int);
        }
        let r = self.stack.split_off(n - count);
        proof {
            assert(objects_view(self.stack@) =~= old(self)@.stack.take(n - count));
            assert(objects_view(r@) =~= old(self)@.stack.skip(n - count));
        }
        r
    }

    fn binary(&mut self, op: OpCode) -> (r: Result<(), RuntimeError>)
        requires
            op == OpCode::OpAdd || op == OpCode::OpSub || op == OpCode::OpMul || op == OpCode::OpDiv
                || op == OpCode::OpExponent || op == OpCode::OpModulo || op == OpCode::OpEquals
                || op == OpCode::OpNotEquals || op == OpCode::OpGreaterThan || op
                == OpCode::OpGreaterEq,
        ensures
            final(self)@ == binary_effect(old(self)@, op).0,
            effect_view(r) == binary_effect(old(self)@, op).1,
    {
        let ghost s0 = self@;
        let right = match self.pop_value() {
            Ok(v) => v,
            Err(e) => return Err(e),
        };
        let left = match self.pop_value() {
            Ok(v) => v,
            Err(e) => return Err(e),
        };
        proof {
            assert(s0.stack.drop_last().drop_last() =~= s0.stack.take(s0.stack.len() - 2));
        }
        let v = binary_value_exec(&left, op, &right);
        self.push_result(v)
    }

    fn prefix(&mut self, op: OpCode) -> (r: Result<(), RuntimeError>)
        requires
            op == OpCode::OpPrefixMinus || op == OpCode::OpPrefixNot,
        ensures
            final(self)@ == prefix_effect(old(self)@, op).0,
            effect_view(r) == prefix_effect(old(self)@, op).1,
    {
        let tok = op.equivalent_token().unwrap();
        let right = match self.pop_value() {
            Ok(v) => v,
            Err(e) => return Err(e),
        };
        let v = eval_prefix_expression(&tok, &right);
        self.push_result(v)
    }

    fn index(&mut self) -> (r: Result<(), RuntimeError>)
        ensures
            final(self)@ == index_effect(old(self)@).0,
            effect_view(r) == index_effect(old(self)@).1,
    {
        let ghost s0 = self@;
        let index = match self.pop_value() {
            Ok(v) => v,
            Err(e) => return Err(e),
        };
        let obj = match self.pop_value() {
            Ok(v) => v,
            Err(e) => return Err(e),
        };
        proof {
            assert(s0.stack.drop_last().drop_last() =~= s0.stack.take(s0.stack.len() - 2));
        }
        let v = index_value_exec(&obj, &index);
        self.push_result(v)
    }

    fn array(&mut self, count: usize) -> (r: Result<(), RuntimeError>)
        ensures
            final(self)@ == array_effect(old(self)@, count as int).0,
            effect_view(r) == array_effect(old(self)@, count as int).1,
    {
        if count > self.stack_len() {
            return Err(RuntimeError::InvalidBytecode);
        }
        let items = self.take_top(count);
        self.push(Object::Array(items))
    }

    fn hash(&mut self, count: usize) -> (r: Result<(), RuntimeError>)
        requires
            count < 65536,
        ensures
            final(self)@ == hash_effect(old(self)@, count as int).0,
            effect_view(r) == hash_effect(old(self)@, count as int).1,
    {
        if 2 * count > self.stack_len() {
            return Err(RuntimeError::InvalidBytecode);
        }
        let entries = self.take_top(2 * count);
        let ghost ev = objects_view(entries@);
        proof {
            lemma_objects_view_len(entries@);
        }
        let mut map: Vec<(HashableObject, Object)> = Vec::new();
        let mut i: usize = 0;
        proof {
            assert(entries_view(map@) =~= Seq::<(crate::object::HashKeyV, ObjectV)>::empty());
        }
        while i < count
            invariant
                i <= count,
                count < 65536,
                2 * count <= old(self)@.stack.len(),
                self@ == with_stack(old(self)@, old(self)@.stack.take(old(self)@.stack.len() - 2 * count)),
                ev == old(self)@.stack.skip(old(self)@.stack.len() - 2 * count),
                entries@.len() == 2 * count,
                ev == objects_view(entries@),
                ev.len() == entries@.len(),
                forall|k: int| 0 <= k < entries@.len() ==> #[trigger] ev[k] == object_view(entries@[k]),
                hash_wf(entries_view(map@)),
                hash_build(ev, count as int, 0, seq![]) == hash_build(
                    ev,
                    count as int,
                    i as int,
                    entries_view(map@),
                ),
            decreases count - i,
        {
            let key_obj = &entries[2 * i];
            match HashableObject::from_object(key_obj.clone_object()) {
                None => {
                    return Err(RuntimeError::HashKeyTypeError(key_obj.type_str()));
                },
                Some(k) => {
                    hash_insert(&mut map, k, entries[2 * i + 1].clone_object());
                },
            }
            i = i + 1;
        }
        self.push(Object::Hash(map))
    }

    fn set_global(&mut self, idx: usize) -> (r: Result<(), RuntimeError>)
        ensures
            final(self)@ == set_global_effect(old(self)@, idx as int).0,
            effect_view(r) == set_global_effect(old(self)@, idx as int).1,
    {
        let v = match self.pop_value() {
            Ok(v) => v,
            Err(e) => return Err(e),
        };
        proof {
            lemma_objects_view_len(self.globals@);
        }
        if idx >= self.globals.len() {
            return Err(RuntimeError::InvalidBytecode);
        }
        proof {
            lemma_ov_update(self.globals@, idx as int, v);
        }
        self.globals.set(idx, v);
        Ok(())
    }

    fn get_global(&mut self, idx: usize) -> (r: Result<(), RuntimeError>)
        ensures
            final(self)@ == get_global_effect(old(self)@, idx as int).0,
            effect_view(r) == get_global_effect(old(self)@, idx as int).1,
    {
        proof {
            lemma_objects_view_len(self.globals@);
        }
        if idx >= self.globals.len() {
            return Err(RuntimeError::InvalidBytecode);
        }
        let v = self.globals[idx].clone_object();
        self.push(v)
    }

    fn get_local(&mut self, base: usize, idx: usize) -> (r: Result<(), RuntimeError>)
        ensures
            final(self)@ == get_local_effect(old(self)@, base + idx).0,
            effect_view(r) == get_local_effect(old(self)@, base + idx).1,
    {
        let n = self.stack_len();
        if base >= n || idx >= n - base {
            return Err(RuntimeError::InvalidBytecode);
        }
        proof {
            lemma_objects_view_len(self.stack@);
        }
        let v = self.stack[base + idx].clone_object();
        self.push(v)
    }

    fn set_local(&mut self, base: usize, idx: usize) -> (r: Result<(), RuntimeError>)
        ensures
            final(self)@ == set_local_effect(old(self)@, base + idx).0,
            effect_view(r) == set_local_effect(old(self)@, base + idx).1,
    {
        let v = match self.pop_value() {
            Ok(v) => v,
            Err(e) => return Err(e),
        };
        let n = self.stack_len();
        if base >= n || idx >= n - base {
            return Err(RuntimeError::InvalidBytecode);
        }
        proof {
            lemma_objects_view_len(self.stack@);
            lemma_ov_update(self.stack@, base + idx, v);
        }
        self.stack.set(base + idx, v);
        Ok(())
    }

    fn constant(&mut self, consts: &Vec<Object>, idx: usize) -> (r: Result<(), RuntimeError>)
        ensures
            final(self)@ == constant_effect(old(self)@, objects_view(consts@), idx as int).0,
            effect_view(r) == constant_effect(old(self)@, objects_view(consts@), idx as int).1,
    {
        proof {
            lemma_objects_view_len(consts@);
        }
        if idx >= consts.len() {
            return Err(RuntimeError::InvalidBytecode);
        }
        let v = consts[idx].clone_object();
        self.push(v)
    }

    fn get_builtin(&mut self, idx: usize) -> (r: Result<(), RuntimeError>)
        requires
            idx < 256,
        ensures
            final(self)@ == get_builtin_effect(old(self)@, idx as int).0,
            effect_view(r) == get_builtin_effect(old(self)@, idx as int).1,
    {
        match BuiltinFn::from_index(idx as u8) {
            Some(b) => self.push(Object::Builtin(b)),
            None => Err(RuntimeError::InvalidBytecode),
        }
    }

    fn get_free(&mut self, cur: &Frame, idx: usize) -> (r: Result<(), RuntimeError>)
        ensures
            final(self)@ == get_free_effect(old(self)@, cur@.free, idx as int).0,
            effect_view(r) == get_free_effect(old(self)@, cur@.free, idx as int).1,
    {
        proof {
            lemma_objects_view_len(cur.free@);
        }
        if idx >= cur.free.len() {
            return Err(RuntimeError::InvalidBytecode);
        }
        let v = cur.free[idx].clone_object();
        self.push(v)
    }

    fn closure(&mut self, consts: &Vec<Object>, idx: usize, count: usize) -> (r: Result<
        (),
        RuntimeError,
    >)
        ensures
            final(self)@ == closure_effect(old(self)@, objects_view(consts@), idx as int, count as int).0,
            effect_view(r) == closure_effect(
                old(self)@,
                objects_view(consts@),
                idx as int,
                count as int,
            ).1,
    {
        proof {
            lemma_objects_view_len(consts@);
        }
        if idx >= consts.len() {
            return Err(RuntimeError::InvalidBytecode);
        }
        match &consts[idx] {
            Object::CompiledFunc(f) => {
                if count > self.stack_len() {
                    return Err(RuntimeError::InvalidBytecode);
                }
                let instructions = Instructions(copy_bytes(&f.instructions.0));
                let free_vars = self.take_top(count);
                let func = CompiledFunction {
                    instructions,
                    num_locals: f.num_locals,
                    num_params: f.num_params,
                };
                self.push(Object::Closure(Box::new(Closure { func, free_vars })))
            },
            _ => Err(RuntimeError::InvalidBytecode),
        }
    }

    /// Pushes `count` `nil`s, the locals of a called function beyond its parameters.
    fn push_locals(&mut self, count: u8)
        ensures
            final(self)@ == with_stack(old(self)@, old(self)@.stack + nils(count as nat)),
    {
        let ghost s1 = self.stack@;
        let mut k: u8 = 0;
        while k < count
            invariant
                k <= count,
                self.stack@ == s1 + Seq::new(k as nat, |i: int| Object::Nil),
                self.globals@ == old(self).globals@,
                self.output@ == old(self).output@,
                s1 == old(self).stack@,
            decreases count - k,
        {
            self.stack.push(Object::Nil);
            assert(self.stack@ =~= s1 + Seq::new((k + 1) as nat, |i: int| Object::Nil));
            k = k + 1;
        }
        proof {
            lemma_objects_view_len(s1);
            lemma_objects_view_len(self.stack@);
            assert(objects_view(self.stack@) =~= objects_view(s1) + nils(count as nat));
        }
    }

    fn call(&mut self, cur: &mut Frame, saved: &mut Vec<Frame>, count: usize, next: usize) -> (r:
        Step)
        requires
            count < 256,
        ensures
            machine(final(self)@, *final(cur), final(saved)@) == call_spec(
                machine(old(self)@, *old(cur), old(saved)@),
                count as int,
                next as int,
            ).0,
            step_view(r) == call_spec(
                machine(old(self)@, *old(cur), old(saved)@),
                count as int,
                next as int,
            ).1,
    {
        let n = self.stack_len();
        if count + 1 > n {
            return Step::Failed(RuntimeError::InvalidBytecode);
        }
        proof {
            lemma_objects_view_len(self.stack@);
            lemma_ov_remove(self.stack@, n - 1 - count);
        }
        let func = self.stack.remove(n - 1 - count);
        match func {
            Object::Closure(c) => {
                let Closure { func, free_vars } = *c;
                let num_params = func.num_params;
                let num_locals = func.num_locals;
                if num_params as usize != count {
                    return Step::Failed(RuntimeError::WrongNumberOfArgs(num_params as usize, count));
                }
                let ghost s1 = self.stack@;
                let base = self.stack.len() - count;
                let callee = Frame { instructions: func.instructions.0, pc: 0, base, free: free_vars };
                let mut caller = callee;
                std::mem::swap(&mut caller, cur);
                caller.pc = next;
                proof {
                    assert(frames_view(saved@.push(caller)) =~= frames_view(saved@).push(caller@));
                }
                saved.push(caller);
                self.push_locals(num_locals);
                Step::Running
            },
            Object::Builtin(b) => {
                let args = self.take_top(count);
                let res = b.call(args, &mut self.output);
                match self.push_result(res) {
                    Ok(()) => {
                        cur.pc = next;
                        Step::Running
                    },
                    Err(e) => Step::Failed(e),
                }
            },
            other => Step::Failed(RuntimeError::NotCallable(other.type_str())),
        }
    }

    fn ret(&mut self, cur: &mut Frame, saved: &mut Vec<Frame>) -> (r: Step)
        ensures
            machine(final(self)@, *final(cur), final(saved)@) == return_spec(
                machine(old(self)@, *old(cur), old(saved)@),
            ).0,
            step_view(r) == return_spec(machine(old(self)@, *old(cur), old(saved)@)).1,
    {
        let v = match self.pop_value() {
            Ok(v) => v,
            Err(e) => return Step::Failed(e),
        };
        if saved.len() == 0 {
            return Step::Failed(RuntimeError::InvalidBytecode);
        }
        let ghost s1 = self@;
        proof {
            lemma_objects_view_len(self.stack@);
        }
        if cur.base <= self.stack.len() {
            proof {
                lemma_ov_subrange(self.stack@, 0, cur.base as int);
            }
            self.stack.truncate(cur.base);
        }
        proof {
            assert(frames_view(saved@.drop_last()) =~= frames_view(saved@).drop_last());
        }
        let caller = saved.pop().unwrap();
        *cur = caller;
        match self.push(v) {
            Ok(()) => Step::Running,
            Err(e) => Step::Failed(e),
        }
    }

    /// Executes the instruction at the running frame's position.
    fn step(&mut self, cur: &mut Frame, saved: &mut Vec<Frame>, consts: &Vec<Object>) -> (r: Step)
        ensures
            machine(final(self)@, *final(cur), final(saved)@) == step(
                machine(old(self)@, *old(cur), old(saved)@),
                objects_view(consts@),
            ).0,
            step_view(r) == step(
                machine(old(self)@, *old(cur), old(saved)@),
                objects_view(consts@),
            ).1,
    {
        proof {
            reveal(step);
        }
        let pc = cur.pc;
        let len = cur.instructions.len();
        if pc >= len {
            if saved.len() == 0 {
                return Step::Halted;
            } else {
                return Step::Failed(RuntimeError::InvalidBytecode);
            }
        }
        let byte = cur.instructions[pc];
        if byte >= NUM_OPCODES {
            return Step::Failed(RuntimeError::InvalidBytecode);
        }
        let op = OpCode::from_byte(byte);
        let widths = op.operand_widths();
        proof {
            lemma_widths_facts(op);
            reveal_with_fuel(total_width, 3);
        }
        let total: usize = if widths.len() == 0 {
            0
        } else if widths.len() == 1 {
            widths[0]
        } else {
            widths[0] + widths[1]
        };
        proof {
            if widths@.len() == 2 {
                assert(widths@.skip(1).skip(1).len() == 0);
            }
        }
        if total >= len - pc {
            return Step::Failed(RuntimeError::InvalidBytecode);
        }
        let next = pc + 1 + total;
        let a: usize = if widths.len() == 0 {
            0
        } else if widths[0] == 1 {
            cur.instructions[pc + 1] as usize
        } else {
            (cur.instructions[pc + 1] as usize) * 256 + (cur.instructions[pc + 2] as usize)
        };
        let b: usize = if widths.len() < 2 {
            0
        } else if widths[1] == 1 {
            cur.instructions[pc + 1 + widths[0]] as usize
        } else {
            (cur.instructions[pc + 1 + widths[0]] as usize) * 256 + (cur.instructions[pc + 2
                + widths[0]] as usize)
        };
        match op {
            OpCode::OpConstant => {
                let r = self.constant(consts, a);
                advance_exec(cur, r, next)
            },
            OpCode::OpPop => {
                let r = match self.pop_value() {
                    Ok(_) => Ok(()),
                    Err(e) => Err(e),
                };
                advance_exec(cur, r, next)
            },
            OpCode::OpAdd | OpCode::OpSub | OpCode::OpMul | OpCode::OpDiv | OpCode::OpExponent
            | OpCode::OpModulo | OpCode::OpEquals | OpCode::OpNotEquals | OpCode::OpGreaterThan
            | OpCode::OpGreaterEq => {
                let r = self.binary(op);
                advance_exec(cur, r, next)
            },
            OpCode::OpTrue => {
                let r = self.push(Object::Boolean(true));
                advance_exec(cur, r, next)
            },
            OpCode::OpFalse => {
                let r = self.push(Object::Boolean(false));
                advance_exec(cur, r, next)
            },
            OpCode::OpNil => {
                let r = self.push(Object::Nil);
                advance_exec(cur, r, next)
            },
            OpCode::OpPrefixMinus | OpCode::OpPrefixNot => {
                let r = self.prefix(op);
                advance_exec(cur, r, next)
            },
            OpCode::OpJumpNotTruthy => {
                let v = match self.pop_value() {
                    Ok(v) => v,
                    Err(e) => return Step::Failed(e),
                };
                if v.is_truthy() {
                    cur.pc = next;
                } else {
                    cur.pc = a;
                }
                Step::Running
            },
            OpCode::OpJump => {
                cur.pc = a;
                Step::Running
            },
            OpCode::OpGetGlobal => {
                let r = self.get_global(a);
                advance_exec(cur, r, next)
            },
            OpCode::OpSetGlobal => {
                let r = self.set_global(a);
                advance_exec(cur, r, next)
            },
            OpCode::OpArray => {
                let r = self.array(a);
                advance_exec(cur, r, next)
            },
            OpCode::OpHash => {
                let r = self.hash(a);
                advance_exec(cur, r, next)
            },
            OpCode::OpIndex => {
                let r = self.index();
                advance_exec(cur, r, next)
            },
            OpCode::OpCall => self.call(cur, saved, a, next),
            OpCode::OpReturn => self.ret(cur, saved),
            OpCode::OpGetLocal => {
                let r = self.get_local(cur.base, a);
                advance_exec(cur, r, next)
            },
            OpCode::OpSetLocal => {
                let r = self.set_local(cur.base, a);
                advance_exec(cur, r, next)
            },
            OpCode::OpGetBuiltin => {
                let r = self.get_builtin(a);
                advance_exec(cur, r, next)
            },
            OpCode::OpClosure => {
                let r = self.closure(consts, a, b);
                advance_exec(cur, r, next)
            },
            OpCode::OpGetFree => {
                let r = self.get_free(cur, a);
                advance_exec(cur, r, next)
            },
        }
    }

    /// Runs a compiled program until it ends or fails. The stack, globals and printed lines are
    /// kept between runs, as the REPL runs each line on the same machine.
    pub fn run(&mut self, bytecode: Bytecode) -> (r: MonkeyResult<()>)
        ensures
            final(self)@ == run_spec(
                start(old(self)@, bytecode.instructions.0@),
                objects_view(bytecode.constants@),
                MAX_STEPS as nat,
            ).0,
            vm_outcome(r) == run_spec(
                start(old(self)@, bytecode.instructions.0@),
                objects_view(bytecode.constants@),
                MAX_STEPS as nat,
            ).1,
            vm_only(r),
    {
        let ghost m0 = start(self@, bytecode.instructions.0@);
        let ghost k = objects_view(bytecode.constants@);
        let Bytecode { instructions, constants } = bytecode;
        let mut cur = Frame { instructions: instructions.0, pc: 0, base: 0, free: Vec::new() };
        let mut saved: Vec<Frame> = Vec::new();
        proof {
            assert(objects_view(cur.free@) =~= Seq::<ObjectV>::empty());
            assert(frames_view(saved@) =~= Seq::<FrameV>::empty());
            assert(machine(self@, cur, saved@) == m0);
        }
        let mut fuel: u64 = MAX_STEPS;
        loop
            invariant
                k == objects_view(constants@),
                k == objects_view(bytecode.constants@),
                m0 == start(old(self)@, bytecode.instructions.0@),
                run_spec(m0, k, MAX_STEPS as nat) == run_spec(
                    machine(self@, cur, saved@),
                    k,
                    fuel as nat,
                ),
            decreases fuel,
        {
            proof {
                reveal(run_spec);
            }
            if fuel == 0 {
                return Err(MonkeyError::Vm(RuntimeError::StepLimitExceeded));
            }
            match self.step(&mut cur, &mut saved, &constants) {
                Step::Running => {},
                Step::Halted => return Ok(()),
                Step::Failed(e) => return Err(MonkeyError::Vm(e)),
            }
            fuel = fuel - 1;
        }
    }
}

} // verus!
