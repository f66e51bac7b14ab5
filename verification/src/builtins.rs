use crate::error::{RuntimeError, RuntimeErrorV};
use crate::object::{
    clone_objects, display, lemma_objects_view_len, object_view, objects_view, push_display,
    truthy, type_label, Object, ObjectV,
};
use crate::text::{chars_of, push_str, string_from_chars};
use vstd::prelude::*;

verus! {

/// The built-in functions of the language.
#[derive(Debug, Clone, Copy, PartialEq, Eq)]
pub enum BuiltinFn {
    Type,
    Puts,
    Len,
    Push,
    Cons,
    Head,
    Tail,
    Range,
    Assert,
}

/// The number of built-in functions.
pub const NUM_BUILTINS: u8 = 9;

/// The name under which a built-in function is found.
pub open spec fn builtin_name(b: BuiltinFn) -> Seq<char> {
    match b {
        BuiltinFn::Type => "type"@,
        BuiltinFn::Puts => "puts"@,
        BuiltinFn::Len => "len"@,
        BuiltinFn::Push => "push"@,
        BuiltinFn::Cons => "cons"@,
        BuiltinFn::Head => "head"@,
        BuiltinFn::Tail => "tail"@,
        BuiltinFn::Range => "range"@,
        BuiltinFn::Assert => "assert"@,
    }
}

/// The built-in functions in their fixed order, by which the compiled code refers to them.
pub open spec fn builtin_at(i: int) -> Option<BuiltinFn> {
    if i == 0 {
        Some(BuiltinFn::Type)
    } else if i == 1 {
        Some(BuiltinFn::Puts)
    } else if i == 2 {
        Some(BuiltinFn::Len)
    } else if i == 3 {
        Some(BuiltinFn::Push)
    } else if i == 4 {
        Some(BuiltinFn::Cons)
    } else if i == 5 {
        Some(BuiltinFn::Head)
    } else if i == 6 {
        Some(BuiltinFn::Tail)
    } else if i == 7 {
        Some(BuiltinFn::Range)
    } else if i == 8 {
        Some(BuiltinFn::Assert)
    } else {
        None
    }
}

/// The first built-in function, from position `k` of the fixed order on, named `name`.
pub open spec fn builtin_named_from(name: Seq<char>, k: int) -> Option<BuiltinFn>
    decreases 9 - k,
{
    if k < 0 || k >= 9 {
        None
    } else if builtin_name(builtin_at(k)->Some_0) == name {
        builtin_at(k)
    } else {
        builtin_named_from(name, k + 1)
    }
}

/// The built-in function found under a name, if any.
pub open spec fn builtin_named(name: Seq<char>) -> Option<BuiltinFn> {
    builtin_named_from(name, 0)
}

/// The integers from `start` (inclusive) to `end` (exclusive), `step` apart.
pub open spec fn range_values(start: int, end: int, step: int) -> Seq<int>
    decreases end - start,
{
    if step <= 0 || start >= end {
        seq![]
    } else if start + step >= end {
        seq![start]
    } else {
        seq![start] + range_values(start + step, end, step)
    }
}

/// The values that a call of `range` produces.
pub open spec fn range_objects(start: int, end: int, step: int) -> Seq<ObjectV> {
    range_values(start, end, step).map_values(|i: int| ObjectV::Integer(i as i64))
}

/// The line that `puts` prints: the printed arguments, separated by spaces.
pub open spec fn puts_line(args: Seq<ObjectV>) -> Seq<char>
    decreases args.len(),
{
    if args.len() == 0 {
        seq![]
    } else if args.len() == 1 {
        display(args[0])
    } else {
        puts_line(args.drop_last()) + seq![' '] + display(args.last())
    }
}

pub open spec fn wrong_args(expected: int, args: Seq<ObjectV>) -> RuntimeErrorV {
    RuntimeErrorV::WrongNumberOfArgs(expected as usize, args.len() as usize)
}

pub open spec fn type_error(expected: Seq<char>, got: ObjectV) -> RuntimeErrorV {
    RuntimeErrorV::TypeError(expected, type_label(got))
}

/// What a call of `range` returns.
pub open spec fn range_spec(args: Seq<ObjectV>) -> Result<ObjectV, RuntimeErrorV> {
    if args.len() == 0 {
        Err(wrong_args(1, args))
    } else if args.len() > 3 {
        Err(wrong_args(3, args))
    } else if !(args[0] is Integer) {
        Err(type_error("int"@, args[0]))
    } else if args.len() >= 2 && !(args[1] is Integer) {
        Err(type_error("int"@, args[1]))
    } else if args.len() >= 3 && !(args[2] is Integer) {
        Err(type_error("int"@, args[2]))
    } else {
        let first = args[0]->Integer_0 as int;
        let start = if args.len() >= 2 {
            first
        } else {
            0
        };
        let end = if args.len() >= 2 {
            args[1]->Integer_0 as int
        } else {
            first
        };
        let step = if args.len() >= 3 {
            args[2]->Integer_0 as int
        } else {
            1
        };
        if step <= 0 {
            Err(RuntimeErrorV::Custom("Third argument to `range` must be positive"@))
        } else {
            Ok(ObjectV::Array(range_objects(start, end, step)))
        }
    }
}

/// What a call of a built-in function with the given arguments returns.
pub open spec fn builtin_spec(b: BuiltinFn, args: Seq<ObjectV>) -> Result<ObjectV, RuntimeErrorV> {
    match b {
        BuiltinFn::Type => if args.len() != 1 {
            Err(wrong_args(1, args))
        } else {
            Ok(ObjectV::Str(type_label(args[0])))
        },
        BuiltinFn::Puts => if args.len() == 0 {
            Err(wrong_args(1, args))
        } else {
            Ok(ObjectV::Nil)
        },
        BuiltinFn::Len => if args.len() != 1 {
            Err(wrong_args(1, args))
        } else {
            match args[0] {
                ObjectV::Str(s) => if s.len() <= i64::MAX {
                    Ok(ObjectV::Integer(s.len() as i64))
                } else {
                    Err(RuntimeErrorV::IntegerOverflow)
                },
                ObjectV::Array(a) => if a.len() <= i64::MAX {
                    Ok(ObjectV::Integer(a.len() as i64))
                } else {
                    Err(RuntimeErrorV::IntegerOverflow)
                },
                o => Err(RuntimeErrorV::Custom("'"@ + type_label(o) + "' object has no length"@)),
            }
        },
        BuiltinFn::Push => if args.len() != 2 {
            Err(wrong_args(2, args))
        } else {
            match args[0] {
                ObjectV::Array(a) => Ok(ObjectV::Array(a.push(args[1]))),
                o => Err(type_error("array"@, o)),
            }
        },
        BuiltinFn::Cons => if args.len() != 2 {
            Err(wrong_args(2, args))
        } else {
            match args[1] {
                ObjectV::Array(t) => Ok(ObjectV::Array(seq![args[0]] + t)),
                o => Err(type_error("array"@, o)),
            }
        },
        BuiltinFn::Head => if args.len() != 1 {
            Err(wrong_args(1, args))
        } else {
            match args[0] {
                ObjectV::Array(a) => if a.len() > 0 {
                    Ok(a[0])
                } else {
                    Ok(ObjectV::Nil)
                },
                o => Err(type_error("array"@, o)),
            }
        },
        BuiltinFn::Tail => if args.len() != 1 {
            Err(wrong_args(1, args))
        } else {
            match args[0] {
                ObjectV::Array(a) => if a.len() > 0 {
                    Ok(ObjectV::Array(a.skip(1)))
                } else {
                    Ok(ObjectV::Nil)
                },
                o => Err(type_error("array"@, o)),
            }
        },
        BuiltinFn::Range => range_spec(args),
        BuiltinFn::Assert => if args.len() != 1 {
            Err(wrong_args(1, args))
        } else if truthy(args[0]) {
            Ok(ObjectV::Nil)
        } else {
            Err(RuntimeErrorV::Custom("Assertion failed on value "@ + display(args[0])))
        },
    }
}

/// The lines that a call prints: one for a successful `puts`, none otherwise.
pub open spec fn builtin_output(b: BuiltinFn, args: Seq<ObjectV>) -> Seq<Seq<char>> {
    if b == BuiltinFn::Puts && args.len() > 0 {
        seq![puts_line(args)]
    } else {
        seq![]
    }
}

pub open spec fn result_view(r: Result<Object, RuntimeError>) -> Result<ObjectV, RuntimeErrorV> {
    match r {
        Ok(o) => Ok(o@),
        Err(e) => Err(e@),
    }
}

pub open spec fn lines_view(s: Seq<String>) -> Seq<Seq<char>> {
    s.map_values(|l: String| l@)
}

/// Whether two strings hold the same characters.
pub fn str_eq(a: &str, b: &str) -> (r: bool)
    ensures
        r == (a@ == b@),
{
    let x = String::from_str(a);
    let y = String::from_str(b);
    x == y
}

impl BuiltinFn {
    /// The name under which this function is found.
    pub fn name(&self) -> (r: &'static str)
        ensures
            r@ == builtin_name(*self),
    {
        match self {
            BuiltinFn::Type => "type",
            BuiltinFn::Puts => "puts",
            BuiltinFn::Len => "len",
            BuiltinFn::Push => "push",
            BuiltinFn::Cons => "cons",
            BuiltinFn::Head => "head",
            BuiltinFn::Tail => "tail",
            BuiltinFn::Range => "range",
            BuiltinFn::Assert => "assert",
        }
    }

    /// The built-in function at position `i` of the fixed order, if any.
    pub fn from_index(i: u8) -> (r: Option<BuiltinFn>)
        ensures
            r == builtin_at(i as int),
    {
        match i {
            0 => Some(BuiltinFn::Type),
            1 => Some(BuiltinFn::Puts),
            2 => Some(BuiltinFn::Len),
            3 => Some(BuiltinFn::Push),
            4 => Some(BuiltinFn::Cons),
            5 => Some(BuiltinFn::Head),
            6 => Some(BuiltinFn::Tail),
            7 => Some(BuiltinFn::Range),
            8 => Some(BuiltinFn::Assert),
            _ => None,
        }
    }

    /// Calls this function. A line that `puts` prints is appended to `output`.
    pub fn call(&self, args: Vec<Object>, output: &mut Vec<String>) -> (r: Result<
        Object,
        RuntimeError,
    >)
        ensures
            result_view(r) == builtin_spec(*self, objects_view(args@)),
            lines_view(final(output)@) == lines_view(old(output)@) + builtin_output(
                *self,
                objects_view(args@),
            ),
    {
        proof {
            lemma_objects_view_len(args@);
        }
        let ghost a = objects_view(args@);
        let n = args.len();
        match self {
            BuiltinFn::Type => {
                if n != 1 {
                    return Err(RuntimeError::WrongNumberOfArgs(1, n));
                }
                let t = args[0].type_str();
                Ok(Object::Str(String::from_str(t)))
            },
            BuiltinFn::Puts => {
                if n == 0 {
                    return Err(RuntimeError::WrongNumberOfArgs(1, 0));
                }
                let mut line: Vec<char> = Vec::new();
                let mut i: usize = 0;
                while i < n
                    invariant
                        n == args@.len(),
                        a == objects_view(args@),
                        a.len() == n,
                        forall|k: int| 0 <= k < n ==> #[trigger] a[k] == args@[k]@,
                        i <= n,
                        line@ == puts_line(a.take(i as int)),
                    decreases n - i,
                {
                    if i > 0 {
                        line.push(' ');
                    }
                    push_display(&mut line, &args[i]);
                    proof {
                        assert(a.take(i + 1).drop_last() =~= a.take(i as int));
                        assert(a.take(i + 1).last() == a[i as int]);
                        if i == 0 {
                            assert(a.take(1) =~= seq![a[0]]);
                        }
                    }
                    i = i + 1;
                }
                assert(a.take(n as int) =~= a);
                output.push(string_from_chars(&line));
                assert(lines_view(output@) =~= lines_view(old(output)@) + builtin_output(*self, a));
                Ok(Object::Nil)
            },
            BuiltinFn::Len => {
                if n != 1 {
                    return Err(RuntimeError::WrongNumberOfArgs(1, n));
                }
                match &args[0] {
                    Object::Str(s) => {
                        let cs = chars_of(s.as_str());
                        if (cs.len() as u64) <= 9223372036854775807u64 {
                            Ok(Object::Integer(cs.len() as i64))
                        } else {
                            Err(RuntimeError::IntegerOverflow)
                        }
                    },
                    Object::Array(v) => {
                        proof {
                            lemma_objects_view_len(v@);
                        }
                        if (v.len() as u64) <= 9223372036854775807u64 {
                            Ok(Object::Integer(v.len() as i64))
                        } else {
                            Err(RuntimeError::IntegerOverflow)
                        }
                    },
                    o => {
                        let mut msg: Vec<char> = Vec::new();
                        push_str(&mut msg, "'");
                        push_str(&mut msg, o.type_str());
                        push_str(&mut msg, "' object has no length");
                        Err(RuntimeError::Custom(string_from_chars(&msg)))
                    },
                }
            },
            BuiltinFn::Push => {
                if n != 2 {
                    return Err(RuntimeError::WrongNumberOfArgs(2, n));
                }
                match &args[0] {
                    Object::Array(v) => {
                        let mut new = clone_objects(v);
                        proof {
                            lemma_objects_view_len(v@);
                            lemma_objects_view_len(new@);
                        }
                        let last = args[1].clone_object();
                        new.push(last);
                        proof {
                            lemma_objects_view_len(new@);
                            assert(objects_view(new@) =~= objects_view(v@).push(a[1]));
                        }
                        Ok(Object::Array(new))
                    },
                    o => Err(RuntimeError::TypeError("array", o.type_str())),
                }
            },
            BuiltinFn::Cons => {
                if n != 2 {
                    return Err(RuntimeError::WrongNumberOfArgs(2, n));
                }
                match &args[1] {
                    Object::Array(v) => {
                        proof {
                            lemma_objects_view_len(v@);
                        }
                        let ghost h = a[0];
                        let mut new: Vec<Object> = Vec::new();
                        new.push(args[0].clone_object());
                        proof {
                            lemma_objects_view_len(new@);
                            assert(objects_view(v@).take(0) =~= Seq::<ObjectV>::empty());
                            assert(objects_view(new@) =~= seq![h] + objects_view(v@).take(0));
                        }
                        let mut i: usize = 0;
                        while i < v.len()
                            invariant
                                i <= v@.len(),
                                new@.len() == i + 1,
                                objects_view(v@).len() == v@.len(),
                                forall|k: int|
                                    0 <= k < v@.len() ==> #[trigger] objects_view(v@)[k]
                                        == v@[k]@,
                                objects_view(new@) == seq![h] + objects_view(v@).take(i as int),
                            decreases v@.len() - i,
                        {
                            let x = v[i].clone_object();
                            let ghost prev = new@;
                            new.push(x);
                            proof {
                                assert(new@.drop_last() =~= prev);
                                assert(objects_view(new@) =~= seq![h] + objects_view(v@).take(
                                    i + 1,
                                ));
                            }
                            i = i + 1;
                        }
                        assert(objects_view(v@).take(v@.len() as int) =~= objects_view(v@));
                        assert(objects_view(new@) =~= seq![a[0]] + objects_view(v@));
                        Ok(Object::Array(new))
                    },
                    o => Err(RuntimeError::TypeError("array", o.type_str())),
                }
            },
            BuiltinFn::Head => {
                if n != 1 {
                    return Err(RuntimeError::WrongNumberOfArgs(1, n));
                }
                match &args[0] {
                    Object::Array(v) => {
                        proof {
                            lemma_objects_view_len(v@);
                        }
                        if v.len() > 0 {
                            Ok(v[0].clone_object())
                        } else {
                            Ok(Object::Nil)
                        }
                    },
                    o => Err(RuntimeError::TypeError("array", o.type_str())),
                }
            },
            BuiltinFn::Tail => {
                if n != 1 {
                    return Err(RuntimeError::WrongNumberOfArgs(1, n));
                }
                match &args[0] {
                    Object::Array(v) => {
                        proof {
                            lemma_objects_view_len(v@);
                        }
                        if v.len() == 0 {
                            return Ok(Object::Nil);
                        }
                        let mut new: Vec<Object> = Vec::new();
                        assert(objects_view(v@).subrange(1, 1) =~= Seq::<ObjectV>::empty());
                        let mut i: usize = 1;
                        while i < v.len()
                            invariant
                                1 <= i <= v@.len(),
                                new@.len() == i - 1,
                                objects_view(v@).len() == v@.len(),
                                forall|k: int|
                                    0 <= k < v@.len() ==> #[trigger] objects_view(v@)[k]
                                        == v@[k]@,
                                objects_view(new@) == objects_view(v@).subrange(1, i as int),
                            decreases v@.len() - i,
                        {
                            let x = v[i].clone_object();
                            let ghost prev = new@;
                            new.push(x);
                            proof {
                                assert(new@.drop_last() =~= prev);
                                assert(objects_view(new@) =~= objects_view(v@).subrange(
                                    1,
                                    i + 1,
                                ));
                            }
                            i = i + 1;
                        }
                        assert(objects_view(v@).subrange(1, v@.len() as int) =~= objects_view(
                            v@,
                        ).skip(1));
                        Ok(Object::Array(new))
                    },
                    o => Err(RuntimeError::TypeError("array", o.type_str())),
                }
            },
            BuiltinFn::Range => builtin_range(&args),
            BuiltinFn::Assert => {
                if n != 1 {
                    return Err(RuntimeError::WrongNumberOfArgs(1, n));
                }
                if args[0].is_truthy() {
                    Ok(Object::Nil)
                } else {
                    let mut msg: Vec<char> = Vec::new();
                    push_str(&mut msg, "Assertion failed on value ");
                    push_display(&mut msg, &args[0]);
                    Err(RuntimeError::Custom(string_from_chars(&msg)))
                }
            },
        }
    }
}

proof fn lemma_range_step(start: int, end: int, step: int)
    requires
        step > 0,
        start < end,
    ensures
        range_objects(start, end, step) == seq![ObjectV::Integer(start as i64)] + range_objects(
            start + step,
            end,
            step,
        ),
{
    let f = |i: int| ObjectV::Integer(i as i64);
    let rest = range_values(start + step, end, step);
    if start + step >= end {
        assert(rest =~= Seq::<int>::empty());
    }
    assert(range_values(start, end, step) =~= seq![start] + rest);
    assert((seq![start] + rest).map_values(f) =~= seq![f(start)] + rest.map_values(f));
}

fn builtin_range(args: &Vec<Object>) -> (r: Result<Object, RuntimeError>)
    ensures
        result_view(r) == range_spec(objects_view(args@)),
{
    proof {
        lemma_objects_view_len(args@);
    }
    let ghost a = objects_view(args@);
    let n = args.len();
    if n == 0 {
        return Err(RuntimeError::WrongNumberOfArgs(1, 0));
    } else if n > 3 {
        return Err(RuntimeError::WrongNumberOfArgs(3, n));
    }
    let first = match &args[0] {
        Object::Integer(i) => *i,
        o => return Err(RuntimeError::TypeError("int", o.type_str())),
    };
    let mut start: i64 = 0;
    let mut end: i64 = first;
    if n >= 2 {
        start = first;
        end = match &args[1] {
            Object::Integer(i) => *i,
            o => return Err(RuntimeError::TypeError("int", o.type_str())),
        };
    }
    let step: i64 = if n >= 3 {
        match &args[2] {
            Object::Integer(i) => *i,
            o => return Err(RuntimeError::TypeError("int", o.type_str())),
        }
    } else {
        1
    };
    if step <= 0 {
        return Err(RuntimeError::Custom(String::from_str("Third argument to `range` must be positive")));
    }
    let mut values: Vec<Object> = Vec::new();
    let mut i: i64 = start;
    let ghost total = range_objects(start as int, end as int, step as int);
    loop
        invariant_except_break
            objects_view(values@) + range_objects(i as int, end as int, step as int) == total,
        invariant
            step > 0,
        ensures
            objects_view(values@) == total,
        decreases if i < end {
            end - i
        } else {
            0
        },
    {
        if i >= end {
            assert(range_objects(i as int, end as int, step as int) =~= Seq::<ObjectV>::empty());
            assert(objects_view(values@) =~= total);
            break;
        }
        proof {
            lemma_range_step(i as int, end as int, step as int);
        }
        let ghost prev = values@;
        values.push(Object::Integer(i));
        proof {
            assert(values@.drop_last() =~= prev);
            assert(values@.last() == Object::Integer(i));
            assert(object_view(values@.last()) == ObjectV::Integer(i));
            assert(objects_view(values@) == objects_view(prev).push(ObjectV::Integer(i)));
        }
        match i.checked_add(step) {
            Some(next) => {
                assert(objects_view(values@) + range_objects(next as int, end as int, step as int)
                    =~= total);
                i = next;
            },
            None => {
                assert(range_values(i + step, end as int, step as int) =~= Seq::<int>::empty());
                assert(range_objects(i + step, end as int, step as int) =~= Seq::<ObjectV>::empty());
                assert(objects_view(values@) =~= total);
                break;
            },
        }
    }
    Ok(Object::Array(values))
}

/// The built-in function found under `name`, as a value.
pub fn get_builtin(name: &str) -> (r: Option<Object>)
    ensures
        match builtin_named(name@) {
            Some(b) => r == Some(Object::Builtin(b)),
            None => r is None,
        },
{
    let all = [
        BuiltinFn::Type,
        BuiltinFn::Puts,
        BuiltinFn::Len,
        BuiltinFn::Push,
        BuiltinFn::Cons,
        BuiltinFn::Head,
        BuiltinFn::Tail,
        BuiltinFn::Range,
        BuiltinFn::Assert,
    ];
    let mut i: usize = 0;
    while i < 9
        invariant
            i <= 9,
            forall|k: int| 0 <= k < 9 ==> all@[k] == builtin_at(k)->Some_0,
            builtin_named(name@) == builtin_named_from(name@, i as int),
        decreases 9 - i,
    {
        if str_eq(all[i].name(), name) {
            return Some(Object::Builtin(all[i]));
        }
        i = i + 1;
    }
    None
}

/// Law: `cons(x, t)` puts `x` in front of the array `t`: the head of the result is `x`, its tail
/// is `t`, its length is one more than that of `t`, and every element of `t` keeps its order,
/// one place further on.
pub proof fn lemma_cons_head_tail(x: ObjectV, t: Seq<ObjectV>)
    ensures
        builtin_spec(BuiltinFn::Cons, seq![x, ObjectV::Array(t)]) is Ok,
        builtin_spec(BuiltinFn::Cons, seq![x, ObjectV::Array(t)])->Ok_0 is Array,
        ({
            let r = builtin_spec(BuiltinFn::Cons, seq![x, ObjectV::Array(t)])->Ok_0;
            &&& builtin_spec(BuiltinFn::Head, seq![r]) == Ok::<ObjectV, RuntimeErrorV>(x)
            &&& builtin_spec(BuiltinFn::Tail, seq![r]) == Ok::<ObjectV, RuntimeErrorV>(
                ObjectV::Array(t),
            )
            &&& t.len() < i64::MAX ==> builtin_spec(BuiltinFn::Len, seq![r]) == Ok::<
                ObjectV,
                RuntimeErrorV,
            >(ObjectV::Integer((t.len() + 1) as i64))
            &&& r->Array_0.len() == t.len() + 1
            &&& r->Array_0[0] == x
            &&& forall|i: int| 0 <= i < t.len() ==> r->Array_0[i + 1] == t[i]
        }),
{
    let r = builtin_spec(BuiltinFn::Cons, seq![x, ObjectV::Array(t)])->Ok_0;
    assert(r->Array_0.skip(1) =~= t);
}

/// Law: `push(a, x)` gives the array `a` with `x` added at its end: one element longer, with `x`
/// last and every element of `a` in its place.
pub proof fn lemma_push_appends(a: Seq<ObjectV>, x: ObjectV)
    ensures
        builtin_spec(BuiltinFn::Push, seq![ObjectV::Array(a), x]) is Ok,
        builtin_spec(BuiltinFn::Push, seq![ObjectV::Array(a), x])->Ok_0 is Array,
        ({
            let r = builtin_spec(BuiltinFn::Push, seq![ObjectV::Array(a), x])->Ok_0->Array_0;
            &&& r.len() == a.len() + 1
            &&& r[a.len() as int] == x
            &&& forall|i: int| 0 <= i < a.len() ==> r[i] == a[i]
            &&& a.len() < i64::MAX ==> builtin_spec(BuiltinFn::Len, seq![ObjectV::Array(r)]) == Ok::<
                ObjectV,
                RuntimeErrorV,
            >(ObjectV::Integer((a.len() + 1) as i64))
        }),
{
}

/// Law: on a non-empty array, `cons` of its head and its tail gives the array back.
pub proof fn lemma_cons_of_head_and_tail(a: Seq<ObjectV>)
    requires
        a.len() > 0,
    ensures
        builtin_spec(
            BuiltinFn::Cons,
            seq![
                builtin_spec(BuiltinFn::Head, seq![ObjectV::Array(a)])->Ok_0,
                builtin_spec(BuiltinFn::Tail, seq![ObjectV::Array(a)])->Ok_0,
            ],
        ) == Ok::<ObjectV, RuntimeErrorV>(ObjectV::Array(a)),
{
    assert(seq![a[0]] + a.skip(1) =~= a);
}

/// Law: the integers of a range with a positive step start at `start`, lie `step` apart and
/// below `end`, and stop at the last one below it: the range is empty exactly when
/// `start >= end`, and its next element would not be below `end`.
pub proof fn lemma_range_values(start: int, end: int, step: int)
    requires
        step > 0,
    ensures
        forall|k: int|
            0 <= k < range_values(start, end, step).len() ==> #[trigger] range_values(start, end, step)[k]
                == start + k * step && start + k * step < end,
        start + range_values(start, end, step).len() * step >= end,
        range_values(start, end, step).len() == 0 <==> start >= end,
    decreases end - start,
{
    let r = range_values(start, end, step);
    if start >= end {
    } else if start + step >= end {
        assert forall|k: int| 0 <= k < r.len() implies #[trigger] r[k] == start + k * step
            && start + k * step < end by {
            assert(k == 0);
        }
        assert(r.len() == 1);
        assert(start + r.len() * step == start + step);
    } else {
        lemma_range_values(start + step, end, step);
        let rest = range_values(start + step, end, step);
        assert forall|k: int| 0 <= k < r.len() implies #[trigger] r[k] == start + k * step
            && start + k * step < end by {
            if k > 0 {
                assert(r[k] == rest[k - 1]);
                assert(start + step + (k - 1) * step == start + k * step) by (nonlinear_arith);
            }
        }
        assert(start + step + rest.len() * step == start + r.len() * step) by (nonlinear_arith)
            requires r.len() == rest.len() + 1,
        ;
    }
}

/// Law: `range(n)` gives the integers `0, 1, ..., n - 1` (none where `n <= 0`), and
/// `range(a, b, s)` with a positive step gives `a, a + s, a + 2s, ...` as long as they stay below
/// `b`.
pub proof fn lemma_range_builtin(a: i64, b: i64, step: i64)
    requires
        step > 0,
    ensures
        builtin_spec(BuiltinFn::Range, seq![ObjectV::Integer(b)]) is Ok,
        ({
            let r = builtin_spec(BuiltinFn::Range, seq![ObjectV::Integer(b)])->Ok_0;
            &&& r is Array
            &&& r->Array_0.len() == (if b > 0 {
                b as int
            } else {
                0
            })
            &&& forall|k: int| 0 <= k < r->Array_0.len() ==> r->Array_0[k] == ObjectV::Integer(k as i64)
        }),
        builtin_spec(
            BuiltinFn::Range,
            seq![ObjectV::Integer(a), ObjectV::Integer(b), ObjectV::Integer(step)],
        ) is Ok,
        ({
            let r = builtin_spec(
                BuiltinFn::Range,
                seq![ObjectV::Integer(a), ObjectV::Integer(b), ObjectV::Integer(step)],
            )->Ok_0;
            &&& r is Array
            &&& r->Array_0.len() == 0 <==> a >= b
            &&& forall|k: int|
                0 <= k < r->Array_0.len() ==> r->Array_0[k] == ObjectV::Integer((a + k * step) as i64)
                    && a + k * step < b
            &&& a + r->Array_0.len() * step >= b
        }),
{
    lemma_range_values(0, b as int, 1);
    lemma_range_values(a as int, b as int, step as int);
    let r0 = range_values(0, b as int, 1);
    if b > 0 {
        assert(r0[r0.len() - 1] == 0 + (r0.len() - 1) * 1);
        assert(r0.len() == b) by (nonlinear_arith)
            requires
                0 + r0.len() * 1 >= b,
                r0.len() > 0,
                0 + (r0.len() - 1) * 1 < b,
        ;
    }
}

/// Law: `assert(v)` succeeds with `nil` exactly when `v` is anything but `false`, `nil` and
/// `0`; otherwise it fails with a message that shows `v`.
pub proof fn lemma_assert_builtin(v: ObjectV)
    ensures
        builtin_spec(BuiltinFn::Assert, seq![v]) is Ok <==> !(v == ObjectV::Boolean(false) || v
            == ObjectV::Nil || v == ObjectV::Integer(0)),
        builtin_spec(BuiltinFn::Assert, seq![v]) is Ok ==> builtin_spec(BuiltinFn::Assert, seq![v])
            == Ok::<ObjectV, RuntimeErrorV>(ObjectV::Nil),
        builtin_spec(BuiltinFn::Assert, seq![v]) is Err ==> builtin_spec(BuiltinFn::Assert, seq![v])
            == Err::<ObjectV, RuntimeErrorV>(
            RuntimeErrorV::Custom("Assertion failed on value "@ + display(v)),
        ),
{
}

/// Law: `puts` with one or more arguments returns `nil` and prints one line: the printed
/// arguments, separated by single spaces; with one argument, the line is that argument printed.
pub proof fn lemma_puts_prints(args: Seq<ObjectV>, v: ObjectV)
    ensures
        builtin_spec(BuiltinFn::Puts, seq![v]) == Ok::<ObjectV, RuntimeErrorV>(ObjectV::Nil),
        builtin_output(BuiltinFn::Puts, seq![v]) == seq![display(v)],
        args.len() > 0 ==> builtin_output(BuiltinFn::Puts, args.push(v)) == seq![
            puts_line(args) + seq![' '] + display(v),
        ],
{
    assert(args.push(v).drop_last() =~= args);
}

} // verus!
