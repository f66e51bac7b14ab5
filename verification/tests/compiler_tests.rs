use monkey::compiler::code::{make, Bytecode, Instructions, OpCode};
use monkey::compiler::symbol_table::{Symbol, SymbolScope, SymbolTable};
use monkey::compiler::Compiler;
use monkey::error::{CompilerError, MonkeyError};
use monkey::object::{CompiledFunction, Object};
use monkey::parser::parse;

fn ins(parts: &[Vec<u8>]) -> Instructions {
    Instructions(parts.concat())
}

fn parse_and_compile(program: &str) -> Result<Bytecode, MonkeyError> {
    let parsed = parse(program.into())?;
    let mut comp = Compiler::new();
    comp.compile_block(parsed)?;
    Ok(comp.bytecode())
}

fn assert_compile(input: &str, expected_constants: Vec<Object>, expected_instructions: Instructions) {
    let bytecode = parse_and_compile(input).expect("Parser or compiler error during test");
    for (exp, got) in expected_constants.iter().zip(bytecode.constants) {
        assert_eq!(exp, &got);
    }
    assert_eq!(expected_instructions, bytecode.instructions);
}

fn assert_compile_instructions(input: &str, expected_instructions: Instructions) {
    let bytecode = parse_and_compile(input).expect("Parser or compiler error during test");
    assert_eq!(expected_instructions, bytecode.instructions);
}

fn func(instructions: Instructions, num_locals: u8, num_params: u8) -> Object {
    Object::CompiledFunc(Box::new(CompiledFunction { instructions, num_locals, num_params }))
}

fn c(op: OpCode, operands: &[usize]) -> Vec<u8> {
    make(op, operands)
}


#[test]
fn tests_test_make() {
    assert_eq!(&[OpCode::OpConstant as u8, 255, 254], &*make(OpCode::OpConstant, &[65534]));
    assert_eq!(&[OpCode::OpGetLocal as u8, 255], &*make(OpCode::OpGetLocal, &[255]));
    assert_eq!(&[OpCode::OpAdd as u8], &*make(OpCode::OpAdd, &[]));
    assert_eq!(&[OpCode::OpClosure as u8, 255, 254, 42], &*make(OpCode::OpClosure, &[65534, 42]));
}

#[test]
fn code_test_make() {
    assert_eq!(&[OpCode::OpConstant as u8, 255, 254], &*make(OpCode::OpConstant, &[65534]));
    assert_eq!(&[OpCode::OpAdd as u8], &*make(OpCode::OpAdd, &[]));
}

#[test]
fn tests_test_instruction_printing() {
    let input = ins(&[
        c(OpCode::OpAdd, &[]),
        c(OpCode::OpConstant, &[2]),
        c(OpCode::OpConstant, &[65535]),
        c(OpCode::OpClosure, &[65534, 42]),
    ]);
    let expected = "\
    0000 OpAdd\n\
    0001 OpConstant 2\n\
    0004 OpConstant 65535\n\
    0007 OpClosure 65534 42\n\
    ";
    assert_eq!(expected, input.to_string());
}

#[test]
fn code_test_instruction_printing() {
    let input = ins(&[c(OpCode::OpAdd, &[]), c(OpCode::OpConstant, &[2]), c(OpCode::OpConstant, &[65535])]);
    let expected = "\
    0000 OpAdd\n\
    0001 OpConstant 2\n\
    0004 OpConstant 65535\n\
    ";
    assert_eq!(expected, input.to_string());
}

#[test]
fn tests_test_integer_arithmetic() {
    assert_compile(
        "1 + 2",
        vec![Object::Integer(1), Object::Integer(2)],
        ins(&[c(OpCode::OpConstant, &[0]), c(OpCode::OpConstant, &[1]), c(OpCode::OpAdd, &[])]),
    );
    assert_compile(
        "1; 2",
        vec![Object::Integer(1), Object::Integer(2)],
        ins(&[c(OpCode::OpConstant, &[0]), c(OpCode::OpPop, &[]), c(OpCode::OpConstant, &[1])]),
    );
    assert_compile(
        "1 * 2",
        vec![Object::Integer(1), Object::Integer(2)],
        ins(&[c(OpCode::OpConstant, &[0]), c(OpCode::OpConstant, &[1]), c(OpCode::OpMul, &[])]),
    );
    assert_compile(
        "-1",
        vec![Object::Integer(1)],
        ins(&[c(OpCode::OpConstant, &[0]), c(OpCode::OpPrefixMinus, &[])]),
    );
}

#[test]
fn compiler_test_integer_arithmetic() {
    assert_compile_instructions(
        "1 + 2",
        ins(&[c(OpCode::OpConstant, &[0]), c(OpCode::OpConstant, &[1]), c(OpCode::OpAdd, &[])]),
    );
    assert_compile_instructions(
        "1; 2",
        ins(&[c(OpCode::OpConstant, &[0]), c(OpCode::OpPop, &[]), c(OpCode::OpConstant, &[1])]),
    );
    assert_compile_instructions(
        "1 * 2",
        ins(&[c(OpCode::OpConstant, &[0]), c(OpCode::OpConstant, &[1]), c(OpCode::OpMul, &[])]),
    );
    assert_compile_instructions("-1", ins(&[c(OpCode::OpConstant, &[0]), c(OpCode::OpPrefixMinus, &[])]));
}

#[test]
fn tests_test_boolean_expressions() {
    assert_compile("true", vec![], ins(&[c(OpCode::OpTrue, &[])]));
    assert_compile("false", vec![], ins(&[c(OpCode::OpFalse, &[])]));
    assert_compile(
        "1 > 2",
        vec![Object::Integer(1), Object::Integer(2)],
        ins(&[c(OpCode::OpConstant, &[0]), c(OpCode::OpConstant, &[1]), c(OpCode::OpGreaterThan, &[])]),
    );
    assert_compile(
        "1 < 2",
        vec![Object::Integer(2), Object::Integer(1)],
        ins(&[c(OpCode::OpConstant, &[0]), c(OpCode::OpConstant, &[1]), c(OpCode::OpGreaterThan, &[])]),
    );
    assert_compile(
        "1 == 2",
        vec![Object::Integer(1), Object::Integer(2)],
        ins(&[c(OpCode::OpConstant, &[0]), c(OpCode::OpConstant, &[1]), c(OpCode::OpEquals, &[])]),
    );
    assert_compile(
        "1 != 2",
        vec![Object::Integer(1), Object::Integer(2)],
        ins(&[c(OpCode::OpConstant, &[0]), c(OpCode::OpConstant, &[1]), c(OpCode::OpNotEquals, &[])]),
    );
    assert_compile("!true", vec![], ins(&[c(OpCode::OpTrue, &[]), c(OpCode::OpPrefixNot, &[])]));
}

#[test]
fn compiler_test_boolean_expressions() {
    assert_compile_instructions("true", ins(&[c(OpCode::OpTrue, &[])]));
    assert_compile_instructions("false", ins(&[c(OpCode::OpFalse, &[])]));
    assert_compile_instructions(
        "1 > 2",
        ins(&[c(OpCode::OpConstant, &[0]), c(OpCode::OpConstant, &[1]), c(OpCode::OpGreaterThan, &[])]),
    );
    assert_compile_instructions(
        "1 < 2",
        ins(&[c(OpCode::OpConstant, &[0]), c(OpCode::OpConstant, &[1]), c(OpCode::OpGreaterThan, &[])]),
    );
    assert_compile_instructions(
        "1 == 2",
        ins(&[c(OpCode::OpConstant, &[0]), c(OpCode::OpConstant, &[1]), c(OpCode::OpEquals, &[])]),
    );
    assert_compile_instructions(
        "1 != 2",
        ins(&[c(OpCode::OpConstant, &[0]), c(OpCode::OpConstant, &[1]), c(OpCode::OpNotEquals, &[])]),
    );
    assert_compile_instructions("!true", ins(&[c(OpCode::OpTrue, &[]), c(OpCode::OpPrefixNot, &[])]));
}

fn conditionals_cases(check_constants: bool) {
    let first = ins(&[
        c(OpCode::OpTrue, &[]),
        c(OpCode::OpJumpNotTruthy, &[10]),
        c(OpCode::OpConstant, &[0]),
        c(OpCode::OpJump, &[11]),
        c(OpCode::OpNil, &[]),
        c(OpCode::OpPop, &[]),
        c(OpCode::OpConstant, &[1]),
    ]);
    let second = ins(&[
        c(OpCode::OpTrue, &[]),
        c(OpCode::OpJumpNotTruthy, &[10]),
        c(OpCode::OpConstant, &[0]),
        c(OpCode::OpJump, &[13]),
        c(OpCode::OpConstant, &[1]),
        c(OpCode::OpPop, &[]),
        c(OpCode::OpConstant, &[2]),
    ]);
    if check_constants {
        assert_compile(
            "if true { 10 }; 3333",
            vec![Object::Integer(10), Object::Integer(3333)],
            first,
        );
        assert_compile(
            "if true { 10 } else { 20 }; 3333",
            vec![Object::Integer(10), Object::Integer(20), Object::Integer(3333)],
            second,
        );
    } else {
        assert_compile_instructions("if true { 10 }; 3333", first);
        assert_compile_instructions("if true { 10 } else { 20 }; 3333", second);
    }
}

#[test]
fn tests_test_conditionals() {
    conditionals_cases(true);
}

#[test]
fn compiler_test_conditionals() {
    conditionals_cases(false);
}

#[test]
fn tests_test_global_assignment() {
    assert_compile(
        "let one = 1; let two = 2",
        vec![Object::Integer(1), Object::Integer(2)],
        ins(&[
            c(OpCode::OpConstant, &[0]),
            c(OpCode::OpSetGlobal, &[0]),
            c(OpCode::OpConstant, &[1]),
            c(OpCode::OpSetGlobal, &[1]),
            c(OpCode::OpNil, &[]),
        ]),
    );
    assert_compile(
        "let one = 1; one",
        vec![Object::Integer(1)],
        ins(&[c(OpCode::OpConstant, &[0]), c(OpCode::OpSetGlobal, &[0]), c(OpCode::OpGetGlobal, &[0])]),
    );
    assert_compile(
        "let one = 1; let two = one; two",
        vec![Object::Integer(1)],
        ins(&[
            c(OpCode::OpConstant, &[0]),
            c(OpCode::OpSetGlobal, &[0]),
            c(OpCode::OpGetGlobal, &[0]),
            c(OpCode::OpSetGlobal, &[1]),
            c(OpCode::OpGetGlobal, &[1]),
        ]),
    );
}

#[test]
fn compiler_tests_test_strings() {
    assert_compile("\"monkey\"", vec![], ins(&[c(OpCode::OpConstant, &[0])]));
    assert_compile(
        "\"mon\" + \"key\"",
        vec![],
        ins(&[c(OpCode::OpConstant, &[0]), c(OpCode::OpConstant, &[1]), c(OpCode::OpAdd, &[])]),
    );
}

#[test]
fn compiler_tests_test_arrays() {
    assert_compile("[]", vec![], ins(&[c(OpCode::OpArray, &[0])]));
    assert_compile(
        "[1, 2, 3]",
        vec![Object::Integer(1), Object::Integer(2), Object::Integer(3)],
        ins(&[c(OpCode::OpConstant, &[0]), c(OpCode::OpConstant, &[1]), c(OpCode::OpConstant, &[2]), c(OpCode::OpArray, &[3])]),
    );
    assert_compile(
        "[1 + 2, 3 - 4, 5 * 6]",
        vec![
            Object::Integer(1),
            Object::Integer(2),
            Object::Integer(3),
            Object::Integer(4),
            Object::Integer(5),
            Object::Integer(6),
        ],
        ins(&[
            c(OpCode::OpConstant, &[0]),
            c(OpCode::OpConstant, &[1]),
            c(OpCode::OpAdd, &[]),
            c(OpCode::OpConstant, &[2]),
            c(OpCode::OpConstant, &[3]),
            c(OpCode::OpSub, &[]),
            c(OpCode::OpConstant, &[4]),
            c(OpCode::OpConstant, &[5]),
            c(OpCode::OpMul, &[]),
            c(OpCode::OpArray, &[3]),
        ]),
    );
}

#[test]
fn compiler_tests_test_hashes() {
    assert_compile("#{}", vec![], ins(&[c(OpCode::OpHash, &[0])]));
    assert_compile(
        "#{ 1: 2, 3: 4 }",
        vec![Object::Integer(1), Object::Integer(2), Object::Integer(3), Object::Integer(4)],
        ins(&[
            c(OpCode::OpConstant, &[0]),
            c(OpCode::OpConstant, &[1]),
            c(OpCode::OpConstant, &[2]),
            c(OpCode::OpConstant, &[3]),
            c(OpCode::OpHash, &[2]),
        ]),
    );
    assert_compile(
        "#{ 1: 2 + 3, 4: 5 * 6 }",
        vec![
            Object::Integer(1),
            Object::Integer(2),
            Object::Integer(3),
            Object::Integer(4),
            Object::Integer(5),
            Object::Integer(6),
        ],
        ins(&[
            c(OpCode::OpConstant, &[0]),
            c(OpCode::OpConstant, &[1]),
            c(OpCode::OpConstant, &[2]),
            c(OpCode::OpAdd, &[]),
            c(OpCode::OpConstant, &[3]),
            c(OpCode::OpConstant, &[4]),
            c(OpCode::OpConstant, &[5]),
            c(OpCode::OpMul, &[]),
            c(OpCode::OpHash, &[2]),
        ]),
    );
}

#[test]
fn compiler_tests_test_index_expressions() {
    assert_compile(
        "[1, 2, 3][1 + 1]",
        vec![
            Object::Integer(1),
            Object::Integer(2),
            Object::Integer(3),
            Object::Integer(1),
            Object::Integer(1),
        ],
        ins(&[
            c(OpCode::OpConstant, &[0]),
            c(OpCode::OpConstant, &[1]),
            c(OpCode::OpConstant, &[2]),
            c(OpCode::OpArray, &[3]),
            c(OpCode::OpConstant, &[3]),
            c(OpCode::OpConstant, &[4]),
            c(OpCode::OpAdd, &[]),
            c(OpCode::OpIndex, &[]),
        ]),
    );
    assert_compile(
        "#{ 1: 2 }[2 - 1]",
        vec![Object::Integer(1), Object::Integer(2), Object::Integer(2), Object::Integer(1)],
        ins(&[
            c(OpCode::OpConstant, &[0]),
            c(OpCode::OpConstant, &[1]),
            c(OpCode::OpHash, &[1]),
            c(OpCode::OpConstant, &[2]),
            c(OpCode::OpConstant, &[3]),
            c(OpCode::OpSub, &[]),
            c(OpCode::OpIndex, &[]),
        ]),
    );
}

#[test]
fn test_function_literals() {
    let expected_func = func(
        ins(&[c(OpCode::OpConstant, &[0]), c(OpCode::OpConstant, &[1]), c(OpCode::OpAdd, &[]), c(OpCode::OpReturn, &[])]),
        0,
        0,
    );
    assert_compile(
        "fn() { return 5 + 10; }",
        vec![Object::Integer(5), Object::Integer(10), expected_func],
        ins(&[c(OpCode::OpClosure, &[2, 0])]),
    );
    let expected_func = func(ins(&[c(OpCode::OpConstant, &[0]), c(OpCode::OpReturn, &[])]), 0, 0);
    assert_compile(
        "fn() { 1 }",
        vec![Object::Integer(1), expected_func],
        ins(&[c(OpCode::OpClosure, &[1, 0])]),
    );
}

#[test]
fn compiler_tests_test_function_calls() {
    let expected_func = func(ins(&[c(OpCode::OpConstant, &[0]), c(OpCode::OpReturn, &[])]), 0, 0);
    assert_compile(
        "fn() { 24 }()",
        vec![Object::Integer(24), func(ins(&[c(OpCode::OpConstant, &[0]), c(OpCode::OpReturn, &[])]), 0, 0)],
        ins(&[c(OpCode::OpClosure, &[1, 0]), c(OpCode::OpCall, &[0])]),
    );
    assert_compile(
        "let foo = fn() { 24 }; foo()",
        vec![Object::Integer(24), expected_func],
        ins(&[c(OpCode::OpClosure, &[1, 0]), c(OpCode::OpSetGlobal, &[0]), c(OpCode::OpGetGlobal, &[0]), c(OpCode::OpCall, &[0])]),
    );
    let expected_func = func(ins(&[c(OpCode::OpGetLocal, &[0]), c(OpCode::OpReturn, &[])]), 1, 1);
    assert_compile(
        "let one_arg = fn(x) { x }; one_arg(0)",
        vec![expected_func, Object::Integer(0)],
        ins(&[
            c(OpCode::OpClosure, &[0, 0]),
            c(OpCode::OpSetGlobal, &[0]),
            c(OpCode::OpGetGlobal, &[0]),
            c(OpCode::OpConstant, &[1]),
            c(OpCode::OpCall, &[1]),
        ]),
    );
    let expected_func = func(
        ins(&[
            c(OpCode::OpGetLocal, &[0]),
            c(OpCode::OpPop, &[]),
            c(OpCode::OpGetLocal, &[1]),
            c(OpCode::OpPop, &[]),
            c(OpCode::OpGetLocal, &[2]),
            c(OpCode::OpReturn, &[]),
        ]),
        3,
        3,
    );
    assert_compile(
        "let many_arg = fn(x, y, z) { x; y; z }; many_arg(24, 25, 26)",
        vec![expected_func, Object::Integer(24), Object::Integer(25), Object::Integer(26)],
        ins(&[
            c(OpCode::OpClosure, &[0, 0]),
            c(OpCode::OpSetGlobal, &[0]),
            c(OpCode::OpGetGlobal, &[0]),
            c(OpCode::OpConstant, &[1]),
            c(OpCode::OpConstant, &[2]),
            c(OpCode::OpConstant, &[3]),
            c(OpCode::OpCall, &[3]),
        ]),
    );
}

#[test]
fn test_binding_scopes() {
    let expected_func = func(ins(&[c(OpCode::OpGetGlobal, &[0]), c(OpCode::OpReturn, &[])]), 0, 0);
    assert_compile(
        "let num = 55; fn() { num }",
        vec![Object::Integer(55), expected_func],
        ins(&[c(OpCode::OpConstant, &[0]), c(OpCode::OpSetGlobal, &[0]), c(OpCode::OpClosure, &[1, 0])]),
    );
    let expected_func = func(
        ins(&[
            c(OpCode::OpConstant, &[0]),
            c(OpCode::OpSetLocal, &[0]),
            c(OpCode::OpGetLocal, &[0]),
            c(OpCode::OpReturn, &[]),
        ]),
        1,
        0,
    );
    assert_compile(
        "fn() { let num = 55; num }",
        vec![Object::Integer(55), expected_func],
        ins(&[c(OpCode::OpClosure, &[1, 0])]),
    );
}

#[test]
fn test_builtins() {
    assert_compile(
        "len([]); push([], 1);",
        vec![Object::Integer(1)],
        ins(&[
            c(OpCode::OpGetBuiltin, &[2]),
            c(OpCode::OpArray, &[0]),
            c(OpCode::OpCall, &[1]),
            c(OpCode::OpPop, &[]),
            c(OpCode::OpGetBuiltin, &[3]),
            c(OpCode::OpArray, &[0]),
            c(OpCode::OpConstant, &[0]),
            c(OpCode::OpCall, &[2]),
        ]),
    );
    let expected_func = func(
        ins(&[c(OpCode::OpGetBuiltin, &[2]), c(OpCode::OpArray, &[0]), c(OpCode::OpCall, &[1]), c(OpCode::OpReturn, &[])]),
        0,
        0,
    );
    assert_compile("fn() { len([]) }", vec![expected_func], ins(&[c(OpCode::OpClosure, &[0, 0])]));
}

#[test]
fn compiler_tests_test_closures() {
    let outer_func = func(
        ins(&[c(OpCode::OpGetLocal, &[0]), c(OpCode::OpClosure, &[0, 1]), c(OpCode::OpReturn, &[])]),
        1,
        1,
    );
    let inner_func = func(
        ins(&[c(OpCode::OpGetFree, &[0]), c(OpCode::OpGetLocal, &[0]), c(OpCode::OpAdd, &[]), c(OpCode::OpReturn, &[])]),
        1,
        1,
    );
    assert_compile(
        "fn(a) { fn(b) { a + b } }",
        vec![inner_func, outer_func],
        ins(&[c(OpCode::OpClosure, &[1, 0])]),
    );

    let outer_func = func(
        ins(&[c(OpCode::OpGetLocal, &[0]), c(OpCode::OpClosure, &[1, 1]), c(OpCode::OpReturn, &[])]),
        1,
        1,
    );
    let inner_func = func(
        ins(&[
            c(OpCode::OpGetFree, &[0]),
            c(OpCode::OpGetLocal, &[0]),
            c(OpCode::OpClosure, &[0, 2]),
            c(OpCode::OpReturn, &[]),
        ]),
        1,
        1,
    );
    let inner_inner_func = func(
        ins(&[
            c(OpCode::OpGetFree, &[0]),
            c(OpCode::OpGetFree, &[1]),
            c(OpCode::OpAdd, &[]),
            c(OpCode::OpGetLocal, &[0]),
            c(OpCode::OpAdd, &[]),
            c(OpCode::OpReturn, &[]),
        ]),
        1,
        1,
    );
    assert_compile(
        "fn(a) { fn(b) { fn(c) { a + b + c } } }",
        vec![inner_inner_func, inner_func, outer_func],
        ins(&[c(OpCode::OpClosure, &[2, 0])]),
    );
}

#[test]
fn symbol_table_test_define_global() {
    let mut global = SymbolTable::new();
    let a = global.define("a".into());
    assert_eq!(Symbol { scope: SymbolScope::Global, index: 0 }, a);
    let b = global.define("b".into());
    assert_eq!(Symbol { scope: SymbolScope::Global, index: 1 }, b);
}

#[test]
fn symbol_table_test_resolve_global() {
    let mut global = SymbolTable::new();
    global.define("a".into());
    global.define("b".into());
    assert_eq!(Symbol { scope: SymbolScope::Global, index: 0 }, global.resolve("a").unwrap());
    assert_eq!(Symbol { scope: SymbolScope::Global, index: 1 }, global.resolve("b").unwrap());
}

#[test]
fn test_resolve_builtin() {
    let builtins = &[("a", 0), ("b", 1), ("c", 2), ("d", 3)];
    let mut table = SymbolTable::new();
    for &(b, i) in builtins {
        table.define_builtin(b.into(), i);
    }
    for _ in 0..4 {
        table = SymbolTable::from_outer(Box::new(table));
        for &(name, index) in builtins {
            assert_eq!(Some(Symbol { scope: SymbolScope::Builtin, index }), table.resolve(name));
        }
    }
}

// Beyond the original suite.

#[test]
fn return_outside_function_is_refused() {
    match parse_and_compile("return 1;") {
        Err(MonkeyError::Compiler(_, CompilerError::InvalidReturn)) => {},
        other => panic!("unexpected result: {:?}", other.map(|b| b.instructions)),
    }
}

#[test]
fn unknown_identifier_is_refused() {
    match parse_and_compile("let a = 1; b") {
        Err(MonkeyError::Compiler(_, CompilerError::IdenNotFound(name))) => assert_eq!(name, "b"),
        other => panic!("unexpected result: {:?}", other.map(|b| b.instructions)),
    }
}

#[test]
fn local_shadows_global_and_free_variable_is_captured() {
    // `x` inside the inner function is the outer function's local, captured as free 0.
    let inner = func(ins(&[c(OpCode::OpGetFree, &[0]), c(OpCode::OpReturn, &[])]), 0, 0);
    let outer = func(
        ins(&[
            c(OpCode::OpConstant, &[1]),
            c(OpCode::OpSetLocal, &[0]),
            c(OpCode::OpGetLocal, &[0]),
            c(OpCode::OpClosure, &[2, 1]),
            c(OpCode::OpReturn, &[]),
        ]),
        1,
        0,
    );
    assert_compile(
        "let x = 1; fn() { let x = 2; fn() { x } }",
        vec![Object::Integer(1), Object::Integer(2), inner, outer],
        ins(&[c(OpCode::OpConstant, &[0]), c(OpCode::OpSetGlobal, &[0]), c(OpCode::OpClosure, &[3, 0])]),
    );
}

#[test]
fn reset_instructions_keeps_definitions() {
    let mut comp = Compiler::new();
    comp.compile_block(parse("let a = 5;".into()).unwrap()).unwrap();
    let first = comp.reset_instructions();
    assert_eq!(first.instructions, ins(&[c(OpCode::OpConstant, &[0]), c(OpCode::OpSetGlobal, &[0]), c(OpCode::OpNil, &[])]));
    comp.compile_block(parse("a".into()).unwrap()).unwrap();
    let second = comp.reset_instructions();
    assert_eq!(second.instructions, ins(&[c(OpCode::OpGetGlobal, &[0])]));
    assert_eq!(second.constants, vec![Object::Integer(5)]);
}

#[test]
fn top_level_return_is_refused_before_its_value() {
    match parse_and_compile("return {1};") {
        Err(MonkeyError::Compiler(pos, CompilerError::InvalidReturn)) => assert_eq!(pos, (1, 1)),
        other => panic!("unexpected result: {:?}", other.map(|b| b.instructions)),
    }
}

#[test]
fn earlier_error_comes_before_a_block_expression() {
    match parse_and_compile("x; {1}") {
        Err(MonkeyError::Compiler(_, CompilerError::IdenNotFound(name))) => assert_eq!(name, "x"),
        other => panic!("unexpected result: {:?}", other.map(|b| b.instructions)),
    }
}

#[test]
fn block_expression_is_reported_as_unsupported() {
    let mut comp = Compiler::new();
    let r = comp.try_compile_block(parse("1; {2}".into()).unwrap());
    assert_eq!(r, Err(MonkeyError::Compiler((1, 4), CompilerError::Unsupported)));
}

#[test]
fn constants_and_symbols_can_be_read() {
    let mut comp = Compiler::new();
    comp.compile_block(parse("let a = 7;".into()).unwrap()).unwrap();
    assert_eq!(comp.constants(), &vec![Object::Integer(7)]);
    assert_eq!(comp.symbol_table().num_definitions(), 1);
}
