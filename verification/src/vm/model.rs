use crate::builtins::{builtin_at, builtin_output, builtin_spec};
use crate::compiler::code::{
    encode_operands, equivalent_token_spec, make_spec, opcode_byte, opcode_of, operand_widths_spec, read_operand, total_width, OpCode,
    NUM_OPCODES,
};
use crate::error::RuntimeErrorV;
use crate::interpreter::{infix_spec, int_infix_spec, prefix_spec};
use crate::object::{as_key, hash_put, truthy, type_label, HashKeyV, ObjectV};
use vstd::prelude::*;

verus! {

/// The most values that instructions may push on the stack.
pub const STACK_SIZE: usize = 2048;

/// The number of global variable slots.
pub const GLOBALS_SIZE: usize = 65536;

/// The most instructions that one run executes.
pub const MAX_STEPS: u64 = 18446744073709551615;

/// A function activation: its instructions, the position of the next instruction, where its
/// locals start on the stack, and the values of its free variables.
pub struct FrameV {
    pub ins: Seq<u8>,
    pub pc: int,
    pub base: int,
    pub free: Seq<ObjectV>,
}

/// What outlives a run of the machine: the stack, the globals, and the lines printed so far.
pub struct VmV {
    pub stack: Seq<ObjectV>,
    pub globals: Seq<ObjectV>,
    pub output: Seq<Seq<char>>,
}

/// The machine while it runs: the state above, the running frame and the frames of the callers,
/// innermost last.
pub struct MachineV {
    pub vm: VmV,
    pub current: FrameV,
    pub saved: Seq<FrameV>,
}

/// What one step does: the machine goes on, has finished, or has stopped on an error.
pub enum StepV {
    Running,
    Halted,
    Failed(RuntimeErrorV),
}

/// The state after an operation on the stack and globals, and whether it succeeded.
pub type Effect = (VmV, Result<(), RuntimeErrorV>);

pub open spec fn with_stack(vm: VmV, s: Seq<ObjectV>) -> VmV {
    VmV { stack: s, globals: vm.globals, output: vm.output }
}

pub open spec fn invalid(vm: VmV) -> Effect {
    (vm, Err(RuntimeErrorV::InvalidBytecode))
}

/// Pushing a value, which fails when the stack is full.
pub open spec fn push_spec(vm: VmV, o: ObjectV) -> Effect {
    if vm.stack.len() >= STACK_SIZE {
        (vm, Err(RuntimeErrorV::StackOverflow))
    } else {
        (with_stack(vm, vm.stack.push(o)), Ok(()))
    }
}

/// Pushing the value of an operation, or failing with its error.
pub open spec fn push_result(vm: VmV, r: Result<ObjectV, RuntimeErrorV>) -> Effect {
    match r {
        Ok(v) => push_spec(vm, v),
        Err(e) => (vm, Err(e)),
    }
}

/// Popping the top value and dropping it.
pub open spec fn pop_effect(vm: VmV) -> Effect {
    if vm.stack.len() == 0 {
        (vm, Err(RuntimeErrorV::StackUnderflow))
    } else {
        (with_stack(vm, vm.stack.drop_last()), Ok(()))
    }
}

/// The operator that an operation code stands for in error messages.
pub open spec fn op_token(op: OpCode) -> crate::token::TokenV {
    equivalent_token_spec(op)->Some_0
}

/// An arithmetic or comparison operation on two integers.
pub open spec fn int_op_spec(op: OpCode, a: i64, b: i64) -> Result<ObjectV, RuntimeErrorV> {
    match op {
        OpCode::OpEquals => Ok(ObjectV::Boolean(a == b)),
        OpCode::OpNotEquals => Ok(ObjectV::Boolean(a != b)),
        OpCode::OpGreaterThan => Ok(ObjectV::Boolean(a > b)),
        OpCode::OpGreaterEq => Ok(ObjectV::Boolean(a >= b)),
        _ => int_infix_spec(op_token(op), a, b),
    }
}

/// A binary operation: on two integers, two booleans (`==` and `!=` only) or two strings (`+`
/// only).
pub open spec fn binary_value(l: ObjectV, op: OpCode, r: ObjectV) -> Result<ObjectV, RuntimeErrorV> {
    let type_err = Err(RuntimeErrorV::InfixTypeError(type_label(l), op_token(op), type_label(r)));
    match (l, r) {
        (ObjectV::Integer(a), ObjectV::Integer(b)) => int_op_spec(op, a, b),
        (ObjectV::Boolean(a), ObjectV::Boolean(b)) => if op == OpCode::OpEquals {
            Ok(ObjectV::Boolean(a == b))
        } else if op == OpCode::OpNotEquals {
            Ok(ObjectV::Boolean(a != b))
        } else {
            type_err
        },
        (ObjectV::Str(a), ObjectV::Str(b)) => if op == OpCode::OpAdd {
            Ok(ObjectV::Str(a + b))
        } else {
            type_err
        },
        _ => type_err,
    }
}

/// Pops the right operand, then the left one, and pushes the result of the operation.
pub open spec fn binary_effect(vm: VmV, op: OpCode) -> Effect {
    let n = vm.stack.len();
    if n == 0 {
        (vm, Err(RuntimeErrorV::StackUnderflow))
    } else if n == 1 {
        (with_stack(vm, vm.stack.drop_last()), Err(RuntimeErrorV::StackUnderflow))
    } else {
        let vm2 = with_stack(vm, vm.stack.take(n - 2));
        push_result(vm2, binary_value(vm.stack[n - 2], op, vm.stack[n - 1]))
    }
}

/// Pops the operand and pushes the result of `-` or `!` on it.
pub open spec fn prefix_effect(vm: VmV, op: OpCode) -> Effect {
    if vm.stack.len() == 0 {
        (vm, Err(RuntimeErrorV::StackUnderflow))
    } else {
        push_result(with_stack(vm, vm.stack.drop_last()), prefix_spec(op_token(op), vm.stack.last()))
    }
}

/// Indexing an array or a string by an integer, or a hash by a key.
pub open spec fn index_value(o: ObjectV, index: ObjectV) -> Result<ObjectV, RuntimeErrorV> {
    match (o, index) {
        (ObjectV::Array(v), ObjectV::Integer(i)) => if i < 0 || i >= v.len() {
            Err(RuntimeErrorV::IndexOutOfBounds(i))
        } else {
            Ok(v[i as int])
        },
        (ObjectV::Array(_), other) => Err(RuntimeErrorV::IndexTypeError(type_label(other))),
        (ObjectV::Hash(m), key) => match as_key(key) {
            None => Err(RuntimeErrorV::HashKeyTypeError(type_label(key))),
            Some(k) => match crate::object::hash_get(m, k) {
                Some(v) => Ok(v),
                None => Err(RuntimeErrorV::KeyError(k)),
            },
        },
        (ObjectV::Str(s), ObjectV::Integer(i)) => if i < 0 || i >= s.len() {
            Err(RuntimeErrorV::IndexOutOfBounds(i))
        } else {
            Ok(ObjectV::Str(seq![s[i as int]]))
        },
        (ObjectV::Str(_), other) => Err(RuntimeErrorV::IndexTypeError(type_label(other))),
        (other, _) => Err(RuntimeErrorV::IndexingWrongType(type_label(other))),
    }
}

/// Pops the index, then the indexed value, and pushes the element.
pub open spec fn index_effect(vm: VmV) -> Effect {
    let n = vm.stack.len();
    if n == 0 {
        (vm, Err(RuntimeErrorV::StackUnderflow))
    } else if n == 1 {
        (with_stack(vm, vm.stack.drop_last()), Err(RuntimeErrorV::StackUnderflow))
    } else {
        push_result(with_stack(vm, vm.stack.take(n - 2)), index_value(vm.stack[n - 2], vm.stack[n - 1]))
    }
}

/// Replaces the top `count` values by an array of them.
pub open spec fn array_effect(vm: VmV, count: int) -> Effect {
    let n = vm.stack.len();
    if count > n {
        invalid(vm)
    } else {
        push_spec(with_stack(vm, vm.stack.take(n - count)), ObjectV::Array(vm.stack.skip(n - count)))
    }
}

/// The hash of the key and value pairs `entries[2j], entries[2j + 1]` for `j` from `i` on,
/// stored in order into `acc`; a later pair replaces an earlier one with the same key.
pub open spec fn hash_build(
    entries: Seq<ObjectV>,
    count: int,
    i: int,
    acc: Seq<(HashKeyV, ObjectV)>,
) -> Result<Seq<(HashKeyV, ObjectV)>, RuntimeErrorV>
    decreases count - i,
{
    if i < 0 || i >= count {
        Ok(acc)
    } else {
        match as_key(entries[2 * i]) {
            None => Err(RuntimeErrorV::HashKeyTypeError(type_label(entries[2 * i]))),
            Some(k) => hash_build(entries, count, i + 1, hash_put(acc, k, entries[2 * i + 1])),
        }
    }
}

/// Replaces the top `2 * count` values, keys and values in turn, by a hash of them.
pub open spec fn hash_effect(vm: VmV, count: int) -> Effect {
    let n = vm.stack.len();
    if 2 * count > n {
        invalid(vm)
    } else {
        let vm1 = with_stack(vm, vm.stack.take(n - 2 * count));
        match hash_build(vm.stack.skip(n - 2 * count), count, 0, seq![]) {
            Ok(h) => push_spec(vm1, ObjectV::Hash(h)),
            Err(e) => (vm1, Err(e)),
        }
    }
}

/// Pops a value into global slot `idx`.
pub open spec fn set_global_effect(vm: VmV, idx: int) -> Effect {
    if vm.stack.len() == 0 {
        (vm, Err(RuntimeErrorV::StackUnderflow))
    } else {
        let vm1 = with_stack(vm, vm.stack.drop_last());
        if idx >= vm.globals.len() {
            invalid(vm1)
        } else {
            (
                VmV {
                    stack: vm1.stack,
                    globals: vm.globals.update(idx, vm.stack.last()),
                    output: vm.output,
                },
                Ok(()),
            )
        }
    }
}

/// Pushes the value of global slot `idx`.
pub open spec fn get_global_effect(vm: VmV, idx: int) -> Effect {
    if idx >= vm.globals.len() {
        invalid(vm)
    } else {
        push_spec(vm, vm.globals[idx])
    }
}

/// Pushes a copy of the stack slot `j`.
pub open spec fn get_local_effect(vm: VmV, j: int) -> Effect {
    if j >= vm.stack.len() {
        invalid(vm)
    } else {
        push_spec(vm, vm.stack[j])
    }
}

/// Pops a value into stack slot `j`.
pub open spec fn set_local_effect(vm: VmV, j: int) -> Effect {
    if vm.stack.len() == 0 {
        (vm, Err(RuntimeErrorV::StackUnderflow))
    } else {
        let s1 = vm.stack.drop_last();
        if j >= s1.len() {
            invalid(with_stack(vm, s1))
        } else {
            (with_stack(vm, s1.update(j, vm.stack.last())), Ok(()))
        }
    }
}

/// Pushes constant `idx`.
pub open spec fn constant_effect(vm: VmV, consts: Seq<ObjectV>, idx: int) -> Effect {
    if idx >= consts.len() {
        invalid(vm)
    } else {
        push_spec(vm, consts[idx])
    }
}

/// Pushes the built-in function at position `idx`.
pub open spec fn get_builtin_effect(vm: VmV, idx: int) -> Effect {
    match builtin_at(idx) {
        Some(b) => push_spec(vm, ObjectV::Builtin(b)),
        None => invalid(vm),
    }
}

/// Pushes the value of free variable `idx` of the running closure.
pub open spec fn get_free_effect(vm: VmV, free: Seq<ObjectV>, idx: int) -> Effect {
    if idx >= free.len() {
        invalid(vm)
    } else {
        push_spec(vm, free[idx])
    }
}

/// Replaces the top `count` values by a closure of the compiled function at constant `idx`
/// over them.
pub open spec fn closure_effect(vm: VmV, consts: Seq<ObjectV>, idx: int, count: int) -> Effect {
    let n = vm.stack.len();
    if idx >= consts.len() {
        invalid(vm)
    } else {
        match consts[idx] {
            ObjectV::CompiledFunc(ins, locals, params) => if count > n {
                invalid(vm)
            } else {
                push_spec(
                    with_stack(vm, vm.stack.take(n - count)),
                    ObjectV::Closure(ins, locals, params, vm.stack.skip(n - count)),
                )
            },
            _ => invalid(vm),
        }
    }
}

/// Goes on at `next` after an operation that succeeded; stops on its error.
pub open spec fn advance(m: MachineV, eff: Effect, next: int) -> (MachineV, StepV) {
    match eff.1 {
        Ok(()) => (
            MachineV {
                vm: eff.0,
                current: FrameV { ins: m.current.ins, pc: next, base: m.current.base, free: m.current.free },
                saved: m.saved,
            },
            StepV::Running,
        ),
        Err(e) => (MachineV { vm: eff.0, current: m.current, saved: m.saved }, StepV::Failed(e)),
    }
}

pub open spec fn with_vm(m: MachineV, vm: VmV) -> MachineV {
    MachineV { vm, current: m.current, saved: m.saved }
}

pub open spec fn jump(m: MachineV, vm: VmV, target: int) -> MachineV {
    MachineV {
        vm,
        current: FrameV { ins: m.current.ins, pc: target, base: m.current.base, free: m.current.free },
        saved: m.saved,
    }
}

/// A list of `n` `nil`s.
pub open spec fn nils(n: nat) -> Seq<ObjectV> {
    Seq::new(n, |i: int| ObjectV::Nil)
}

/// Calls the value below the top `count` arguments: a closure gets a new frame whose locals
/// start at its first argument, the other locals set to `nil`; a built-in function replaces the
/// arguments by its result.
pub open spec fn call_spec(m: MachineV, count: int, next: int) -> (MachineV, StepV) {
    let vm = m.vm;
    let n = vm.stack.len();
    if count + 1 > n {
        (m, StepV::Failed(RuntimeErrorV::InvalidBytecode))
    } else {
        let func = vm.stack[n - 1 - count];
        let s1 = vm.stack.remove(n - 1 - count);
        match func {
            ObjectV::Closure(ins, locals, params, free) => if params != count {
                (
                    with_vm(m, with_stack(vm, s1)),
                    StepV::Failed(RuntimeErrorV::WrongNumberOfArgs(params as usize, count as usize)),
                )
            } else {
                (
                    MachineV {
                        vm: with_stack(vm, s1 + nils(locals as nat)),
                        current: FrameV { ins, pc: 0, base: s1.len() - count, free },
                        saved: m.saved.push(
                            FrameV {
                                ins: m.current.ins,
                                pc: next,
                                base: m.current.base,
                                free: m.current.free,
                            },
                        ),
                    },
                    StepV::Running,
                )
            },
            ObjectV::Builtin(b) => {
                let args = s1.skip(s1.len() - count);
                let vm2 = VmV {
                    stack: s1.take(s1.len() - count),
                    globals: vm.globals,
                    output: vm.output + builtin_output(b, args),
                };
                advance(m, push_result(vm2, builtin_spec(b, args)), next)
            },
            _ => (
                with_vm(m, with_stack(vm, s1)),
                StepV::Failed(RuntimeErrorV::NotCallable(type_label(func))),
            ),
        }
    }
}

/// Returns from the running frame: the returned value replaces everything from the frame's
/// first local up, and the caller goes on.
pub open spec fn return_spec(m: MachineV) -> (MachineV, StepV) {
    let vm = m.vm;
    if vm.stack.len() == 0 {
        (m, StepV::Failed(RuntimeErrorV::StackUnderflow))
    } else {
        let v = vm.stack.last();
        let s1 = vm.stack.drop_last();
        if m.saved.len() == 0 {
            (with_vm(m, with_stack(vm, s1)), StepV::Failed(RuntimeErrorV::InvalidBytecode))
        } else {
            let s2 = if m.current.base <= s1.len() {
                s1.take(m.current.base)
            } else {
                s1
            };
            let eff = push_spec(with_stack(vm, s2), v);
            let m2 = MachineV { vm: eff.0, current: m.saved.last(), saved: m.saved.drop_last() };
            match eff.1 {
                Ok(()) => (m2, StepV::Running),
                Err(e) => (m2, StepV::Failed(e)),
            }
        }
    }
}

/// What the operation `op` with operands `a` and `b` does; `next` is the position of the
/// instruction after it.
pub open spec fn op_spec(m: MachineV, consts: Seq<ObjectV>, op: OpCode, a: int, b: int, next: int) -> (
    MachineV,
    StepV,
) {
    let vm = m.vm;
    match op {
        OpCode::OpConstant => advance(m, constant_effect(vm, consts, a), next),
        OpCode::OpPop => advance(m, pop_effect(vm), next),
        OpCode::OpAdd | OpCode::OpSub | OpCode::OpMul | OpCode::OpDiv | OpCode::OpExponent
        | OpCode::OpModulo | OpCode::OpEquals | OpCode::OpNotEquals | OpCode::OpGreaterThan
        | OpCode::OpGreaterEq => advance(m, binary_effect(vm, op), next),
        OpCode::OpTrue => advance(m, push_spec(vm, ObjectV::Boolean(true)), next),
        OpCode::OpFalse => advance(m, push_spec(vm, ObjectV::Boolean(false)), next),
        OpCode::OpNil => advance(m, push_spec(vm, ObjectV::Nil), next),
        OpCode::OpPrefixMinus | OpCode::OpPrefixNot => advance(m, prefix_effect(vm, op), next),
        OpCode::OpJumpNotTruthy => if vm.stack.len() == 0 {
            (m, StepV::Failed(RuntimeErrorV::StackUnderflow))
        } else {
            let vm1 = with_stack(vm, vm.stack.drop_last());
            if truthy(vm.stack.last()) {
                (jump(m, vm1, next), StepV::Running)
            } else {
                (jump(m, vm1, a), StepV::Running)
            }
        },
        OpCode::OpJump => (jump(m, vm, a), StepV::Running),
        OpCode::OpGetGlobal => advance(m, get_global_effect(vm, a), next),
        OpCode::OpSetGlobal => advance(m, set_global_effect(vm, a), next),
        OpCode::OpArray => advance(m, array_effect(vm, a), next),
        OpCode::OpHash => advance(m, hash_effect(vm, a), next),
        OpCode::OpIndex => advance(m, index_effect(vm), next),
        OpCode::OpCall => call_spec(m, a, next),
        OpCode::OpReturn => return_spec(m),
        OpCode::OpGetLocal => advance(m, get_local_effect(vm, m.current.base + a), next),
        OpCode::OpSetLocal => advance(m, set_local_effect(vm, m.current.base + a), next),
        OpCode::OpGetBuiltin => advance(m, get_builtin_effect(vm, a), next),
        OpCode::OpClosure => advance(m, closure_effect(vm, consts, a, b), next),
        OpCode::OpGetFree => advance(m, get_free_effect(vm, m.current.free, a), next),
    }
}

/// One step: the instruction at the running frame's position, whose operands must be whole.
/// Reaching the end of the instructions ends the program in the outermost frame; in a called
/// function it means the bytecode is malformed.
#[verifier::opaque]
pub open spec fn step(m: MachineV, consts: Seq<ObjectV>) -> (MachineV, StepV) {
    let ins = m.current.ins;
    let pc = m.current.pc;
    if pc < 0 || pc >= ins.len() {
        if m.saved.len() == 0 {
            (m, StepV::Halted)
        } else {
            (m, StepV::Failed(RuntimeErrorV::InvalidBytecode))
        }
    } else if ins[pc] >= NUM_OPCODES {
        (m, StepV::Failed(RuntimeErrorV::InvalidBytecode))
    } else {
        let op = opcode_of(ins[pc]);
        let ws = operand_widths_spec(op);
        let next = pc + 1 + total_width(ws);
        if next > ins.len() {
            (m, StepV::Failed(RuntimeErrorV::InvalidBytecode))
        } else {
            let a = if ws.len() > 0 {
                read_operand(ws[0], ins, pc + 1) as int
            } else {
                0
            };
            let b = if ws.len() > 1 {
                read_operand(ws[1], ins, pc + 1 + ws[0]) as int
            } else {
                0
            };
            op_spec(m, consts, op, a, b, next)
        }
    }
}

/// Runs the machine for at most `fuel` steps: the state it leaves, and whether it finished or
/// the error it stopped on.
#[verifier::opaque]
pub open spec fn run_spec(m: MachineV, consts: Seq<ObjectV>, fuel: nat) -> (VmV, Result<(), RuntimeErrorV>)
    decreases fuel,
{
    if fuel == 0 {
        (m.vm, Err(RuntimeErrorV::StepLimitExceeded))
    } else {
        let (m1, s) = step(m, consts);
        match s {
            StepV::Running => run_spec(m1, consts, (fuel - 1) as nat),
            StepV::Halted => (m1.vm, Ok(())),
            StepV::Failed(e) => (m1.vm, Err(e)),
        }
    }
}

/// The machine about to run a program: its instructions in the outermost frame.
pub open spec fn start(vm: VmV, ins: Seq<u8>) -> MachineV {
    MachineV { vm, current: FrameV { ins, pc: 0, base: 0, free: seq![] }, saved: seq![] }
}

// ---------------------------------------------------------------------------------------------
// Laws of the machine
// ---------------------------------------------------------------------------------------------

/// Law: storing the top value into a global slot, then loading that slot, succeeds and gives
/// the stack back as it was, with the slot holding the value.
pub proof fn lemma_set_global_then_get(vm: VmV, idx: int)
    requires
        vm.stack.len() > 0,
        0 <= idx < vm.globals.len(),
        vm.stack.len() <= STACK_SIZE,
    ensures
        ({
            let (vm1, r1) = set_global_effect(vm, idx);
            let (vm2, r2) = get_global_effect(vm1, idx);
            &&& r1 is Ok
            &&& r2 is Ok
            &&& vm1.globals[idx] == vm.stack.last()
            &&& vm2.stack == vm.stack
            &&& vm2.globals == vm1.globals
        }),
{
    assert(vm.stack.drop_last().push(vm.stack.last()) =~= vm.stack);
}

/// Law: storing the top value into a stack slot below it, then loading that slot, succeeds and
/// pushes the stored value.
pub proof fn lemma_set_local_then_get(vm: VmV, j: int)
    requires
        0 <= j,
        j + 1 < vm.stack.len(),
        vm.stack.len() <= STACK_SIZE,
    ensures
        ({
            let (vm1, r1) = set_local_effect(vm, j);
            let (vm2, r2) = get_local_effect(vm1, j);
            &&& r1 is Ok
            &&& r2 is Ok
            &&& vm2.stack == vm.stack.drop_last().update(j, vm.stack.last()).push(vm.stack.last())
        }),
{
}

/// Law: pushing a value onto a stack with room and popping it gives the machine back.
pub proof fn lemma_push_then_pop(vm: VmV, o: ObjectV)
    requires
        vm.stack.len() < STACK_SIZE,
    ensures
        push_spec(vm, o).1 is Ok,
        pop_effect(push_spec(vm, o).0) == (vm, Ok::<(), RuntimeErrorV>(())),
{
    assert(vm.stack.push(o).drop_last() =~= vm.stack);
}

/// Law: a program without instructions halts at once and leaves the machine as it was.
pub proof fn lemma_empty_program_halts(vm: VmV, consts: Seq<ObjectV>, fuel: nat)
    requires
        fuel > 0,
    ensures
        run_spec(start(vm, seq![]), consts, fuel) == (vm, Ok::<(), RuntimeErrorV>(())),
{
    reveal(run_spec);
    reveal(step);
}

/// Law: on two integers the comparison operations compare their values: `==` tells whether
/// they are equal, `!=` whether they differ, `>` and `>=` how they are ordered.
pub proof fn lemma_int_comparisons(a: i64, b: i64)
    ensures
        binary_value(ObjectV::Integer(a), OpCode::OpEquals, ObjectV::Integer(b)) == Ok::<
            ObjectV,
            RuntimeErrorV,
        >(ObjectV::Boolean(a == b)),
        binary_value(ObjectV::Integer(a), OpCode::OpNotEquals, ObjectV::Integer(b)) == Ok::<
            ObjectV,
            RuntimeErrorV,
        >(ObjectV::Boolean(a != b)),
        binary_value(ObjectV::Integer(a), OpCode::OpGreaterThan, ObjectV::Integer(b)) == Ok::<
            ObjectV,
            RuntimeErrorV,
        >(ObjectV::Boolean(a > b)),
        binary_value(ObjectV::Integer(a), OpCode::OpGreaterEq, ObjectV::Integer(b)) == Ok::<
            ObjectV,
            RuntimeErrorV,
        >(ObjectV::Boolean(a >= b)),
{
}

/// Law: on two booleans `==` tells whether they are equal and `!=` whether they differ.
pub proof fn lemma_bool_comparisons(a: bool, b: bool)
    ensures
        binary_value(ObjectV::Boolean(a), OpCode::OpEquals, ObjectV::Boolean(b)) == Ok::<
            ObjectV,
            RuntimeErrorV,
        >(ObjectV::Boolean(a == b)),
        binary_value(ObjectV::Boolean(a), OpCode::OpNotEquals, ObjectV::Boolean(b)) == Ok::<
            ObjectV,
            RuntimeErrorV,
        >(ObjectV::Boolean(a != b)),
{
}

/// Law: `!=` is the negation of `==`: where `==` gives a boolean on two operands, `!=` gives its
/// negation on the same operands, and where `==` is refused, so is `!=`.
pub proof fn lemma_not_equals_negates_equals(l: ObjectV, r: ObjectV)
    ensures
        binary_value(l, OpCode::OpEquals, r) is Ok <==> binary_value(l, OpCode::OpNotEquals, r) is Ok,
        binary_value(l, OpCode::OpEquals, r) is Ok ==> (binary_value(l, OpCode::OpEquals, r)->Ok_0 is Boolean
            && binary_value(l, OpCode::OpNotEquals, r) == Ok::<ObjectV, RuntimeErrorV>(
            ObjectV::Boolean(!(binary_value(l, OpCode::OpEquals, r)->Ok_0->Boolean_0)),
        )),
{
}

/// Law: on two integers `>` is the converse of `>=` with the operands swapped (`a > b` exactly
/// when not `b >= a`), and `>=` holds exactly when `>` or `==` does.
pub proof fn lemma_int_order(a: i64, b: i64)
    ensures
        binary_value(ObjectV::Integer(a), OpCode::OpGreaterThan, ObjectV::Integer(b)) == Ok::<
            ObjectV,
            RuntimeErrorV,
        >(
            ObjectV::Boolean(
                !(binary_value(ObjectV::Integer(b), OpCode::OpGreaterEq, ObjectV::Integer(a))->Ok_0->Boolean_0),
            ),
        ),
        binary_value(ObjectV::Integer(a), OpCode::OpGreaterEq, ObjectV::Integer(b))->Ok_0->Boolean_0
            == (binary_value(ObjectV::Integer(a), OpCode::OpGreaterThan, ObjectV::Integer(b))->Ok_0->Boolean_0
            || binary_value(ObjectV::Integer(a), OpCode::OpEquals, ObjectV::Integer(b))->Ok_0->Boolean_0),
{
}

/// Law: on two integers the machine computes what the interpreter computes: every arithmetic
/// and comparison operation gives the same value, or the same error, as the operator it stands
/// for does in the interpreter.
pub proof fn lemma_int_ops_agree_with_interpreter(op: OpCode, a: i64, b: i64)
    requires
        equivalent_token_spec(op) is Some,
        op != OpCode::OpPrefixMinus,
        op != OpCode::OpPrefixNot,
    ensures
        binary_value(ObjectV::Integer(a), op, ObjectV::Integer(b)) == infix_spec(
            ObjectV::Integer(a),
            op_token(op),
            ObjectV::Integer(b),
        ),
{
}

/// Law: integer addition, subtraction and multiplication give the exact result wherever it fits
/// in 64 bits, and an overflow error elsewhere.
pub proof fn lemma_int_arithmetic(a: i64, b: i64)
    ensures
        binary_value(ObjectV::Integer(a), OpCode::OpAdd, ObjectV::Integer(b)) == (if i64::MIN <= a
            + b <= i64::MAX {
            Ok::<ObjectV, RuntimeErrorV>(ObjectV::Integer((a + b) as i64))
        } else {
            Err(RuntimeErrorV::IntegerOverflow)
        }),
        binary_value(ObjectV::Integer(a), OpCode::OpSub, ObjectV::Integer(b)) == (if i64::MIN <= a
            - b <= i64::MAX {
            Ok::<ObjectV, RuntimeErrorV>(ObjectV::Integer((a - b) as i64))
        } else {
            Err(RuntimeErrorV::IntegerOverflow)
        }),
        binary_value(ObjectV::Integer(a), OpCode::OpMul, ObjectV::Integer(b)) == (if i64::MIN <= a
            * b <= i64::MAX {
            Ok::<ObjectV, RuntimeErrorV>(ObjectV::Integer((a * b) as i64))
        } else {
            Err(RuntimeErrorV::IntegerOverflow)
        }),
{
}

/// Law: the machine indexes as the interpreter does: arrays and strings by position, with the
/// same errors out of bounds, and hashes by key, for every index but `nil` (a key that only the
/// machine accepts).
pub proof fn lemma_index_agrees_with_interpreter(o: ObjectV, index: ObjectV)
    requires
        index != ObjectV::Nil,
    ensures
        index_value(o, index) == crate::interpreter::index_spec(o, index),
{
}

/// Law: on two strings `+` joins them, on the machine as in the interpreter.
pub proof fn lemma_string_concat(a: Seq<char>, b: Seq<char>)
    ensures
        binary_value(ObjectV::Str(a), OpCode::OpAdd, ObjectV::Str(b)) == Ok::<ObjectV, RuntimeErrorV>(
            ObjectV::Str(a + b),
        ),
        infix_spec(ObjectV::Str(a), crate::token::TokenV::Plus, ObjectV::Str(b)) == Ok::<
            ObjectV,
            RuntimeErrorV,
        >(ObjectV::Str(a + b)),
{
}

/// Law: a conditional jump pops the top of the stack and goes on after itself when the value is
/// anything but `false`, `nil` and `0`, and at its target (its two-byte operand) when it is one
/// of those.
pub proof fn lemma_jump_not_truthy_step(m: MachineV, consts: Seq<ObjectV>)
    requires
        0 <= m.current.pc,
        m.current.pc + 3 <= m.current.ins.len(),
        m.current.ins[m.current.pc] == opcode_byte(OpCode::OpJumpNotTruthy),
        m.vm.stack.len() > 0,
    ensures
        ({
            let ins = m.current.ins;
            let pc = m.current.pc;
            let v = m.vm.stack.last();
            let target = ins[pc + 1] * 256 + ins[pc + 2];
            step(m, consts) == (
                jump(
                    m,
                    with_stack(m.vm, m.vm.stack.drop_last()),
                    if v == ObjectV::Boolean(false) || v == ObjectV::Nil || v == ObjectV::Integer(0) {
                        target
                    } else {
                        pc + 3
                    },
                ),
                StepV::Running,
            )
        }),
{
    reveal(step);
    reveal_with_fuel(total_width, 2);
    assert(seq![2usize].skip(1) =~= seq![]);
}

/// The operations that take two operands from the stack and push one result.
pub open spec fn is_binary_op(op: OpCode) -> bool {
    equivalent_token_spec(op) is Some && op != OpCode::OpPrefixMinus && op != OpCode::OpPrefixNot
}

/// Law: a program that loads two constants and applies a binary operation to them runs to its
/// end and leaves the operation's value on top of the stack, or stops with the operation's
/// error and the stack as it was.
pub proof fn lemma_run_binary_program(vm: VmV, x: ObjectV, y: ObjectV, op: OpCode, fuel: nat)
    requires
        vm.stack.len() + 2 <= STACK_SIZE,
        fuel >= 4,
        is_binary_op(op),
    ensures
        run_spec(
            start(
                vm,
                make_spec(OpCode::OpConstant, seq![0usize]) + make_spec(OpCode::OpConstant, seq![1usize])
                    + make_spec(op, seq![]),
            ),
            seq![x, y],
            fuel,
        ) == (match binary_value(x, op, y) {
            Ok(v) => (with_stack(vm, vm.stack.push(v)), Ok::<(), RuntimeErrorV>(())),
            Err(e) => (vm, Err(e)),
        }),
{
    reveal_with_fuel(encode_operands, 2);
    reveal_with_fuel(total_width, 2);
    reveal(step);
    let consts = seq![x, y];
    let ins = make_spec(OpCode::OpConstant, seq![0usize]) + make_spec(OpCode::OpConstant, seq![1usize])
        + make_spec(op, seq![]);
    assert(encode_operands(seq![2usize].skip(1), seq![0usize].skip(1)) =~= seq![]);
    assert(encode_operands(seq![2usize].skip(1), seq![1usize].skip(1)) =~= seq![]);
    assert(ins =~= seq![0u8, 0u8, 0u8, 0u8, 0u8, 1u8, opcode_byte(op)]);
    assert(seq![2usize].skip(1) =~= seq![]);
    assert(total_width(seq![2usize]) == 2);
    let m0 = start(vm, ins);
    let (m1, s1) = step(m0, consts);
    assert(s1 == StepV::Running);
    assert(m1.vm.stack == vm.stack.push(x));
    assert(m1.current.pc == 3);
    let (m2, s2) = step(m1, consts);
    assert(s2 == StepV::Running);
    assert(m2.vm.stack == vm.stack.push(x).push(y));
    assert(m2.current.pc == 6);
    assert(opcode_of(opcode_byte(op)) == op);
    let (m3, s3) = step(m2, consts);
    let vm2 = with_stack(m2.vm, m2.vm.stack.take(m2.vm.stack.len() - 2));
    assert(m2.vm.stack.take(m2.vm.stack.len() - 2) =~= vm.stack);
    assert(vm2 == vm);
    reveal_with_fuel(run_spec, 2);
    assert(run_spec(m0, consts, fuel) == run_spec(m1, consts, (fuel - 1) as nat));
    assert(run_spec(m1, consts, (fuel - 1) as nat) == run_spec(m2, consts, (fuel - 2) as nat));
    match binary_value(x, op, y) {
        Ok(v) => {
            assert(s3 == StepV::Running);
            assert(m3.vm == with_stack(vm, vm.stack.push(v)));
            assert(m3.current.pc == 7);
            assert(run_spec(m2, consts, (fuel - 2) as nat) == run_spec(m3, consts, (fuel - 3) as nat));
            let (m4, s4) = step(m3, consts);
            assert(s4 == StepV::Halted);
        },
        Err(e) => {
            assert(s3 == StepV::Failed(e));
            assert(m3.vm == vm);
        },
    }
}

} // verus!
