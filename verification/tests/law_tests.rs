use monkey::compiler::code::{Bytecode, Instructions};
use monkey::compiler::Compiler;
use monkey::interpreter::Environment;
use monkey::object::Object;
use monkey::parser::parse;
use monkey::vm::VM;

#[test]
fn insert_then_get_gives_the_value() {
    let mut env = Environment::empty();
    env.insert(0, "a".to_string(), Object::Integer(1));
    assert_eq!(env.get(0, "a"), Some(Object::Integer(1)));
    env.insert(0, "a".to_string(), Object::Integer(2));
    assert_eq!(env.get(0, "a"), Some(Object::Integer(2)));
}

#[test]
fn insert_keeps_other_names() {
    let mut env = Environment::empty();
    env.insert(0, "a".to_string(), Object::Integer(1));
    env.insert(0, "b".to_string(), Object::Integer(2));
    assert_eq!(env.get(0, "a"), Some(Object::Integer(1)));
    assert_eq!(env.get(0, "zzz"), None);
}

#[test]
fn empty_program_halts_and_keeps_the_machine() {
    let mut vm = VM::new();
    let code = Bytecode { instructions: Instructions(vec![]), constants: vec![] };
    assert!(vm.run(code).is_ok());
    assert_eq!(vm.stack_len(), 0);
}

#[test]
fn global_set_then_get_restores_the_stack() {
    let mut comp = Compiler::new();
    comp.compile_block(parse("let g = 7; g; g".into()).unwrap()).unwrap();
    let mut vm = VM::new();
    vm.run(comp.bytecode()).unwrap();
    assert_eq!(vm.stack_len(), 1);
    assert_eq!(vm.pop(), Ok(Object::Integer(7)));
}

#[test]
fn local_set_then_get_gives_the_value() {
    let mut comp = Compiler::new();
    comp.compile_block(parse("fn() { let x = 9; x }()".into()).unwrap()).unwrap();
    let mut vm = VM::new();
    vm.run(comp.bytecode()).unwrap();
    assert_eq!(vm.pop(), Ok(Object::Integer(9)));
    assert_eq!(vm.stack_len(), 0);
}

#[test]
fn let_then_resolve_across_lines() {
    let mut comp = Compiler::new();
    comp.compile_block(parse("let y = 1;".into()).unwrap()).unwrap();
    comp.reset_instructions();
    assert!(comp.compile_block(parse("y".into()).unwrap()).is_ok());
}
