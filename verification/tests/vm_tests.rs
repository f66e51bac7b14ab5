use monkey::compiler::code::Bytecode;
use monkey::compiler::Compiler;
use monkey::error::{MonkeyError, RuntimeError};
use monkey::object::{hash_insert, HashableObject, Object};
use monkey::parser::parse;
use monkey::vm::VM;

fn parse_and_compile(program: &str) -> Result<Bytecode, MonkeyError> {
    let parsed = parse(program.into())?;
    let mut comp = Compiler::new();
    comp.compile_block(parsed)?;
    Ok(comp.bytecode())
}

fn assert_vm_runs(input: &[&str], expected: &[Object]) {
    for (program, exp) in input.iter().zip(expected) {
        let bytecode = parse_and_compile(program).expect("Parser or compiler error during test");
        let mut vm = VM::new();
        vm.run(bytecode).unwrap();
        assert_eq!(exp, &vm.pop().unwrap());
    }
}

fn run_error(program: &str) -> RuntimeError {
    let bytecode = parse_and_compile(program).expect("Parser or compiler error during test");
    let mut vm = VM::new();
    match vm.run(bytecode) {
        Err(MonkeyError::Vm(e)) => e,
        other => panic!("expected a runtime error, got {:?}", other),
    }
}

fn array(items: Vec<Object>) -> Object {
    Object::Array(items)
}

fn hash(entries: Vec<(HashableObject, Object)>) -> Object {
    let mut h = Vec::new();
    for (k, v) in entries {
        hash_insert(&mut h, k, v);
    }
    Object::Hash(h)
}

fn string(s: &str) -> Object {
    Object::Str(s.to_string())
}

fn integer_arithmetic_cases() {
    let input = ["2 + 3", "-3"];
    let expected = [Object::Integer(5), Object::Integer(-3)];
    assert_vm_runs(&input, &expected);
}

#[test]
fn vm_tests_test_integer_arithmetic() {
    integer_arithmetic_cases();
}

#[test]
fn vm_test_integer_arithmetic() {
    integer_arithmetic_cases();
}

fn boolean_expressions_cases() {
    let input = ["true", "false", "2 >= 3 == true", "false != 1 < 2", "!false", "!(if false { 3 })"];
    let expected = [
        Object::Boolean(true),
        Object::Boolean(false),
        Object::Boolean(false),
        Object::Boolean(true),
        Object::Boolean(true),
        Object::Boolean(true),
    ];
    assert_vm_runs(&input, &expected);
}

#[test]
fn vm_tests_test_boolean_expressions() {
    boolean_expressions_cases();
}

#[test]
fn vm_test_boolean_expressions() {
    boolean_expressions_cases();
}

fn conditional_expressions_cases() {
    let input = [
        "if true { 10 }",
        "if true { 10 } else { 20 }",
        "if false { 10 } else { 20 }",
        "if 1 > 2 { 10 } else { 20 }",
        "if 1 > 2 { 10 }",
    ];
    let expected = [
        Object::Integer(10),
        Object::Integer(10),
        Object::Integer(20),
        Object::Integer(20),
        Object::Nil,
    ];
    assert_vm_runs(&input, &expected);
}

#[test]
fn tests_test_conditional_expressions() {
    conditional_expressions_cases();
}

#[test]
fn vm_test_conditional_expressions() {
    conditional_expressions_cases();
}

fn global_assignment_cases() {
    let input = [
        "let one = 1; one",
        "let one = 1; let two = 2; one + two",
        "let one = 1; let two = one + one; one + two",
    ];
    let expected = [Object::Integer(1), Object::Integer(3), Object::Integer(3)];
    assert_vm_runs(&input, &expected);
}

#[test]
fn vm_tests_test_global_assignment() {
    global_assignment_cases();
}

#[test]
fn vm_test_global_assignment() {
    global_assignment_cases();
}

#[test]
fn vm_tests_test_strings() {
    let input = [r#""monkey""#, r#""mon" + "key""#, r#""mon" + "key" + "banana""#];
    let expected = [string("monkey"), string("monkey"), string("monkeybanana")];
    assert_vm_runs(&input, &expected);
}

#[test]
fn vm_tests_test_arrays() {
    let input = ["[]", "[1, 2, 3]", "[1 + 2, 3 - 4, 5 * 6]"];
    let expected = [
        array(vec![]),
        array(vec![Object::Integer(1), Object::Integer(2), Object::Integer(3)]),
        array(vec![Object::Integer(3), Object::Integer(-1), Object::Integer(30)]),
    ];
    assert_vm_runs(&input, &expected);
}

#[test]
fn vm_tests_test_hashes() {
    let input = ["#{}", "#{ 1: 2, 2: 3 }", "#{ 1 + 1: 2 * 2, 3 + 3: 4 * 4 }"];
    let expected = [
        hash(vec![]),
        hash(vec![
            (HashableObject::Integer(1), Object::Integer(2)),
            (HashableObject::Integer(2), Object::Integer(3)),
        ]),
        hash(vec![
            (HashableObject::Integer(2), Object::Integer(4)),
            (HashableObject::Integer(6), Object::Integer(16)),
        ]),
    ];
    assert_vm_runs(&input, &expected);
}

#[test]
fn vm_tests_test_index_expressions() {
    let input = [
        "[1, 2, 3][1]",
        "[1, 2, 3][0 + 2]",
        "[[1, 1, 1]][0][0]",
        "#{ 1: 1, 2: 2 }[1]",
        "#{ 1: 1, 2: 2 }[2]",
    ];
    let expected = [
        Object::Integer(2),
        Object::Integer(3),
        Object::Integer(1),
        Object::Integer(1),
        Object::Integer(2),
    ];
    assert_vm_runs(&input, &expected);
}

#[test]
fn vm_tests_test_function_calls() {
    let input = [
        "let foo = fn() { 5 + 10; }; foo()",
        "let foo = fn() { return 5 + 10; }; foo()",
        "
            let one = fn() { 1 };
            let two = fn() { 1 + one() };
            let three = fn() { two() + one() };
            (one() + three()) * two();
        ",
        "let nothing = fn() {}; nothing()",
    ];
    let expected = [Object::Integer(15), Object::Integer(15), Object::Integer(8), Object::Nil];
    assert_vm_runs(&input, &expected);
}

#[test]
fn test_stack_cleaning_after_call() {
    let input = "
        let foo = fn() {
            5 + (if true { return 2; })
        };
        foo();
    ";
    let bytecode = parse_and_compile(input).expect("Parser or compiler error during test");
    let mut vm = VM::new();
    vm.run(bytecode).unwrap();
    assert_eq!(vm.stack_len(), 1);
}

#[test]
fn test_local_bindings() {
    let input = [
        "let one = fn() { let one = 1; one }; one()",
        "let one_and_two = fn() { let one = 1; let two = 2; one + two; }; one_and_two();",
        "let one_and_two = fn() { let one = 1; let two = 2; one + two; };
        let three_and_four = fn() { let three = 3; let four = 4; three + four; };
        one_and_two() + three_and_four();",
        "let first_foobar = fn() { let foobar = 50; foobar; };
        let second_foobar = fn() { let foobar = 100; foobar; };
        first_foobar() + second_foobar();",
        "let global_seed = 50;
        let minus_one = fn() {
            let num = 1;
            global_seed - num;
        };
        let minus_two = fn() {
            let num = 2;
            global_seed - num;
        };
        minus_one() + minus_two();",
    ];
    let expected = [
        Object::Integer(1),
        Object::Integer(3),
        Object::Integer(10),
        Object::Integer(150),
        Object::Integer(97),
    ];
    assert_vm_runs(&input, &expected);
}

#[test]
fn test_function_arguments() {
    let input = [
        "let id = fn(x) { x }; id(4)",
        "let sum = fn(a, b) { a + b }; sum(1, 2)",
        "let global_num = 10;
        let sum = fn(a, b) {
            let c = a + b;
            c + global_num;
        };
        let outer = fn() {
            sum(1, 2) + sum(3, 4) + global_num;
        };
        outer() + global_num;",
    ];
    let expected = [Object::Integer(4), Object::Integer(3), Object::Integer(50)];
    assert_vm_runs(&input, &expected);
}

#[test]
fn test_builtin_functions() {
    let input = [
        "len(\"\")",
        "len(\"four\")",
        "len(\"hello world\")",
        "len([1, 2, 3])",
        "len([])",
        "puts(\"hi\")",
        "head([1, 2, 3, 4])",
        "head([])",
        "tail([1, 2, 3, 4])",
        "tail([])",
        "tail([0])",
        "push([], 0)",
        "push([1, 2], 0)",
    ];
    let expected = [
        Object::Integer(0),
        Object::Integer(4),
        Object::Integer(11),
        Object::Integer(3),
        Object::Integer(0),
        Object::Nil,
        Object::Integer(1),
        Object::Nil,
        array(vec![Object::Integer(2), Object::Integer(3), Object::Integer(4)]),
        Object::Nil,
        array(vec![]),
        array(vec![Object::Integer(0)]),
        array(vec![Object::Integer(1), Object::Integer(2), Object::Integer(0)]),
    ];
    assert_vm_runs(&input, &expected);
}

#[test]
fn vm_tests_test_closures() {
    let input = [
        "fn(a) { fn(b) { fn(c) { a + b + c } } }(1)(3)(5)",
        "let make_closure = fn(a) {
            fn() { a }
        };
        let closure = make_closure(4);
        closure()",
        "let new_adder = fn(a, b) {
            fn(c) { a + b + c }
        };
        new_adder(1, 2)(8)",
        "let new_adder = fn(a, b) {
            let c = a + b;
            fn(d) { c + d }
        };
        new_adder(1, 2)(8)",
        "let new_adder_outer = fn(a, b) {
            let c = a + b;
            fn(d) {
                let e = d + c;
                fn(f) { e + f }
            }
        };
        let new_adder_inner = new_adder_outer(1, 2);
        let adder = new_adder_inner(3);
        adder(8);",
        "let a = 1;
        let new_adder_outer = fn(b) {
            fn(c) { fn(d) { a + b + c + d } }
        };
        let new_adder_inner = new_adder_outer(2);
        let adder = new_adder_inner(3);
        adder(8);",
        "let new_closure = fn(a, b) {
            let first = fn() { a };
            let second = fn() { b };
            fn() { first() + second() }
        };
        let closure = new_closure(9, 90);
        closure();",
    ];
    let expected = [
        Object::Integer(9),
        Object::Integer(4),
        Object::Integer(11),
        Object::Integer(11),
        Object::Integer(14),
        Object::Integer(14),
        Object::Integer(99),
    ];
    assert_vm_runs(&input, &expected);
}

// Beyond the original suite.

#[test]
fn let_value_is_compiled_before_its_name_is_defined() {
    let input = "
        let fibonacci = fn(n) {
            if n < 2 { n } else { fibonacci(n - 1) + fibonacci(n - 2) }
        };
        fibonacci(15)
    ";
    match parse_and_compile(input) {
        Err(MonkeyError::Compiler(_, monkey::error::CompilerError::IdenNotFound(name))) => {
            assert_eq!(name, "fibonacci")
        },
        other => panic!("unexpected result: {:?}", other.map(|b| b.instructions)),
    }
}

#[test]
fn pop_on_empty_stack_fails() {
    let mut vm = VM::new();
    assert_eq!(vm.pop(), Err(MonkeyError::Vm(RuntimeError::StackUnderflow)));
}

#[test]
fn runtime_errors() {
    assert_eq!(run_error("1 / 0"), RuntimeError::DivOrModByZero);
    assert_eq!(run_error("2 % 0"), RuntimeError::DivOrModByZero);
    assert_eq!(run_error("2 ^ (0 - 1)"), RuntimeError::NegativeExponent);
    assert_eq!(run_error("9223372036854775807 + 1"), RuntimeError::IntegerOverflow);
    assert_eq!(run_error("1(2)"), RuntimeError::NotCallable("int"));
    assert_eq!(run_error("fn(a) { a }()"), RuntimeError::WrongNumberOfArgs(1, 0));
    assert_eq!(run_error("[1][5]"), RuntimeError::IndexOutOfBounds(5));
    assert_eq!(run_error("[1][true]"), RuntimeError::IndexTypeError("bool"));
    assert_eq!(run_error("1[0]"), RuntimeError::IndexingWrongType("int"));
    assert_eq!(run_error("#{ [1]: 2 }"), RuntimeError::HashKeyTypeError("array"));
    assert_eq!(run_error("#{ 1: 2 }[3]"), RuntimeError::KeyError(HashableObject::Integer(3)));
    assert_eq!(run_error("true + true"), RuntimeError::InfixTypeError("bool", monkey::token::Token::Plus, "bool"));
    assert_eq!(run_error("-true"), RuntimeError::PrefixTypeError(monkey::token::Token::Minus, "bool"));
    assert_eq!(
        run_error("\"a\" - \"b\""),
        RuntimeError::InfixTypeError("string", monkey::token::Token::Minus, "string")
    );
}

#[test]
fn string_indexing_and_nil_keys() {
    assert_vm_runs(&["\"abc\"[1]", "#{ nil: 7 }[nil]"], &[string("b"), Object::Integer(7)]);
}

#[test]
fn globals_and_stack_persist_between_runs() {
    let mut comp = Compiler::new();
    let mut vm = VM::new();
    comp.compile_block(parse("let a = 40;".into()).unwrap()).unwrap();
    vm.run(comp.reset_instructions()).unwrap();
    assert_eq!(vm.pop(), Ok(Object::Nil));
    comp.compile_block(parse("a + 2".into()).unwrap()).unwrap();
    vm.run(comp.reset_instructions()).unwrap();
    assert_eq!(vm.pop(), Ok(Object::Integer(42)));
}

#[test]
fn puts_output_is_collected() {
    let bytecode = parse_and_compile("puts(\"hi\", 1); puts(2)").unwrap();
    let mut vm = VM::new();
    vm.run(bytecode).unwrap();
    let out = vm.take_output();
    assert_eq!(out.len(), 2);
    assert_eq!(vm.take_output().len(), 0);
}
