//! Signatures, control flow and local variables, as C code.

use rustpython_jit::bytecode::{
    BinaryOperator, CodeObject, CodeUnit, ComparisonOperator, ConstantData, Instruction,
};
use rustpython_jit::compile;
use rustpython_jit::function_jit::{
    get_jit_arg_types, jit_ret_type, AnnotationValue, Annotations, PyFunctionInfo,
};

/// An integer constant, as sign and base-2^32 digits.
fn misc_int(v: i64) -> ConstantData {
    let mut magnitude = v.unsigned_abs();
    let mut digits = Vec::new();
    while magnitude > 0 {
        digits.push((magnitude & 0xffff_ffff) as u32);
        magnitude >>= 32;
    }
    ConstantData::Integer { negative: v < 0, digits }
}

/// Compiles the bytecode of a function whose arguments are annotated with
/// `params` and whose result with `ret`, as the annotations would give them.
fn misc_jit(
    name: &str,
    params: &[(&str, AnnotationValue)],
    ret: AnnotationValue,
    locals: &[&str],
    constants: Vec<ConstantData>,
    ops: Vec<Instruction>,
) -> String {
    let mut dict = Vec::new();
    for (n, a) in params {
        dict.push((n.to_string(), *a));
    }
    dict.push(("return".to_string(), ret));
    let func = PyFunctionInfo {
        has_varargs: false,
        has_varkeywords: false,
        args: params.iter().map(|(n, _)| n.to_string()).collect(),
        kwonlyargs: Vec::new(),
        annotations: Annotations::Dict(dict),
    };
    let arg_types = get_jit_arg_types(&func).unwrap();
    let ret_type = jit_ret_type(&func).unwrap();
    let mut varnames: Vec<String> = params.iter().map(|(n, _)| n.to_string()).collect();
    for l in locals {
        varnames.push(l.to_string());
    }
    let code = CodeObject {
        obj_name: name.to_string(),
        varnames,
        names: Vec::new(),
        constants,
        instructions: ops.into_iter().map(|op| CodeUnit { op, arg: 0 }).collect(),
    };
    compile(&code, &arg_types, ret_type).unwrap()
}

#[test]
fn test_function_signature() {
    // def func(a: int, b: float) -> int: return 1
    let c_code = misc_jit(
        "func",
        &[("a", AnnotationValue::IntType), ("b", AnnotationValue::FloatType)],
        AnnotationValue::IntType,
        &[],
        vec![misc_int(1)],
        vec![Instruction::Resume, Instruction::ReturnConst { idx: 0 }],
    );
    assert!(c_code.contains("int64_t func(int64_t a, double b)"));
    assert!(c_code.contains("#include <stdint.h>"));
}

#[test]
fn test_if_else() {
    // def if_else(a: int) -> int: if a: return 42 else: return 0
    let c_code = misc_jit(
        "if_else",
        &[("a", AnnotationValue::IntType)],
        AnnotationValue::IntType,
        &[],
        vec![misc_int(42), misc_int(0)],
        vec![
            Instruction::Resume,
            Instruction::LoadFast(0),
            Instruction::ToBool,
            Instruction::PopJumpIfFalse { target: 5 },
            Instruction::ReturnConst { idx: 0 },
            Instruction::ReturnConst { idx: 1 },
        ],
    );
    assert!(c_code.contains("int64_t if_else(int64_t a)"));
    assert!(c_code.contains("goto") || c_code.contains("if"));
    assert!(c_code.contains("return 42") || c_code.contains("42LL"));
    assert!(c_code.contains("return 0") || c_code.contains("0LL"));
}

#[test]
fn test_while_loop() {
    // def while_loop(a: int) -> int:
    //     b = 0
    //     while a > 0:
    //         b += 1
    //         a -= 1
    //     return b
    let c_code = misc_jit(
        "while_loop",
        &[("a", AnnotationValue::IntType)],
        AnnotationValue::IntType,
        &["b"],
        vec![misc_int(0), misc_int(1)],
        vec![
            Instruction::Resume,
            Instruction::LoadConst { idx: 0 },
            Instruction::StoreFast(1),
            Instruction::LoadFast(0),
            Instruction::LoadConst { idx: 0 },
            Instruction::CompareOperation { op: ComparisonOperator::Greater },
            Instruction::PopJumpIfFalse { target: 16 },
            Instruction::LoadFast(1),
            Instruction::LoadConst { idx: 1 },
            Instruction::BinaryOp { op: BinaryOperator::InplaceAdd },
            Instruction::StoreFast(1),
            Instruction::LoadFast(0),
            Instruction::LoadConst { idx: 1 },
            Instruction::BinaryOp { op: BinaryOperator::InplaceSubtract },
            Instruction::StoreFast(0),
            Instruction::Jump { target: 3 },
            Instruction::LoadFast(1),
            Instruction::ReturnValue,
        ],
    );
    assert!(c_code.contains("int64_t while_loop(int64_t a)"));
    assert!(c_code.contains("label_"));
    assert!(c_code.contains(">"));
    assert!(c_code.contains("goto"));
}

#[test]
fn test_local_variables() {
    // def local_vars(a: int, b: int) -> int:
    //     c = a + b
    //     d = c * 2
    //     return d
    let c_code = misc_jit(
        "local_vars",
        &[("a", AnnotationValue::IntType), ("b", AnnotationValue::IntType)],
        AnnotationValue::IntType,
        &["c", "d"],
        vec![misc_int(2)],
        vec![
            Instruction::Resume,
            Instruction::LoadFast(0),
            Instruction::LoadFast(1),
            Instruction::BinaryOp { op: BinaryOperator::Add },
            Instruction::StoreFast(2),
            Instruction::LoadFast(2),
            Instruction::LoadConst { idx: 0 },
            Instruction::BinaryOp { op: BinaryOperator::Multiply },
            Instruction::StoreFast(3),
            Instruction::LoadFast(3),
            Instruction::ReturnValue,
        ],
    );
    assert!(c_code.contains("int64_t local_vars(int64_t a, int64_t b)"));
    assert!(c_code.contains("int64_t var_") || c_code.contains("int64_t tmp_"));
}

#[test]
fn test_constant_return() {
    // def const_ret(a: int) -> int: return 42
    let c_code = misc_jit(
        "const_ret",
        &[("a", AnnotationValue::IntType)],
        AnnotationValue::IntType,
        &[],
        vec![misc_int(42)],
        vec![Instruction::Resume, Instruction::ReturnConst { idx: 0 }],
    );
    assert!(c_code.contains("int64_t const_ret(int64_t a)"));
    assert!(c_code.contains("42"));
}
