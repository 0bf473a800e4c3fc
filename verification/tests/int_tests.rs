//! Integer operations, as C code.

use rustpython_jit::bytecode::{
    BinaryOperator, CodeObject, CodeUnit, ComparisonOperator, ConstantData, Instruction,
};
use rustpython_jit::compile;
use rustpython_jit::function_jit::{
    get_jit_arg_types, jit_ret_type, AnnotationValue, Annotations, PyFunctionInfo,
};

/// An integer constant, as sign and base-2^32 digits.
fn int_int(v: i64) -> ConstantData {
    let mut magnitude = v.unsigned_abs();
    let mut digits = Vec::new();
    while magnitude > 0 {
        digits.push((magnitude & 0xffff_ffff) as u32);
        magnitude >>= 32;
    }
    ConstantData::Integer { negative: v < 0, digits }
}

/// Compiles the bytecode of a function whose arguments are annotated with
/// `params` and whose result with `ret`, as the annotations would give them.
fn int_jit(
    name: &str,
    params: &[(&str, AnnotationValue)],
    ret: AnnotationValue,
    locals: &[&str],
    constants: Vec<ConstantData>,
    ops: Vec<Instruction>,
) -> String {
    let mut dict = Vec::new();
    for (n, a) in params {
        dict.push((n.to_string(), *a));
    }
    dict.push(("return".to_string(), ret));
    let func = PyFunctionInfo {
        has_varargs: false,
        has_varkeywords: false,
        args: params.iter().map(|(n, _)| n.to_string()).collect(),
        kwonlyargs: Vec::new(),
        annotations: Annotations::Dict(dict),
    };
    let arg_types = get_jit_arg_types(&func).unwrap();
    let ret_type = jit_ret_type(&func).unwrap();
    let mut varnames: Vec<String> = params.iter().map(|(n, _)| n.to_string()).collect();
    for l in locals {
        varnames.push(l.to_string());
    }
    let code = CodeObject {
        obj_name: name.to_string(),
        varnames,
        names: Vec::new(),
        constants,
        instructions: ops.into_iter().map(|op| CodeUnit { op, arg: 0 }).collect(),
    };
    compile(&code, &arg_types, ret_type).unwrap()
}

#[test]
fn int_tests_test_add() {
    // def add(a, b): return a + b
    let c_code = int_jit(
        "add",
        &[("a", AnnotationValue::IntType), ("b", AnnotationValue::IntType)],
        AnnotationValue::IntType,
        &[],
        Vec::new(),
        vec![
            Instruction::Resume,
            Instruction::LoadFast(0),
            Instruction::LoadFast(1),
            Instruction::BinaryOp { op: BinaryOperator::Add },
            Instruction::ReturnValue,
        ],
    );
    assert!(c_code.contains("int64_t add(int64_t a, int64_t b)"));
    assert!(c_code.contains("#include <stdint.h>"));
    assert!(c_code.contains("a + b"));
    assert!(c_code.contains("return"));
}

#[test]
fn int_tests_test_sub() {
    // def sub(a, b): return a - b
    let c_code = int_jit(
        "sub",
        &[("a", AnnotationValue::IntType), ("b", AnnotationValue::IntType)],
        AnnotationValue::IntType,
        &[],
        Vec::new(),
        vec![
            Instruction::Resume,
            Instruction::LoadFast(0),
            Instruction::LoadFast(1),
            Instruction::BinaryOp { op: BinaryOperator::Subtract },
            Instruction::ReturnValue,
        ],
    );
    assert!(c_code.contains("int64_t sub(int64_t a, int64_t b)"));
    assert!(c_code.contains("a - b"));
}

#[test]
fn int_tests_test_mul() {
    // def mul(a, b): return a * b
    let c_code = int_jit(
        "mul",
        &[("a", AnnotationValue::IntType), ("b", AnnotationValue::IntType)],
        AnnotationValue::IntType,
        &[],
        Vec::new(),
        vec![
            Instruction::Resume,
            Instruction::LoadFast(0),
            Instruction::LoadFast(1),
            Instruction::BinaryOp { op: BinaryOperator::Multiply },
            Instruction::ReturnValue,
        ],
    );
    assert!(c_code.contains("int64_t mul(int64_t a, int64_t b)"));
    assert!(c_code.contains("a * b"));
}

#[test]
fn int_tests_test_div() {
    // def div(a, b): return a / b
    let c_code = int_jit(
        "div",
        &[("a", AnnotationValue::IntType), ("b", AnnotationValue::IntType)],
        AnnotationValue::FloatType,
        &[],
        Vec::new(),
        vec![
            Instruction::Resume,
            Instruction::LoadFast(0),
            Instruction::LoadFast(1),
            Instruction::BinaryOp { op: BinaryOperator::TrueDivide },
            Instruction::ReturnValue,
        ],
    );
    assert!(c_code.contains("double div(int64_t a, int64_t b)"));
    assert!(c_code.contains("(double)"));
}

#[test]
fn test_floor_div() {
    // def floor_div(a, b): return a // b
    let c_code = int_jit(
        "floor_div",
        &[("a", AnnotationValue::IntType), ("b", AnnotationValue::IntType)],
        AnnotationValue::IntType,
        &[],
        Vec::new(),
        vec![
            Instruction::Resume,
            Instruction::LoadFast(0),
            Instruction::LoadFast(1),
            Instruction::BinaryOp { op: BinaryOperator::FloorDivide },
            Instruction::ReturnValue,
        ],
    );
    assert!(c_code.contains("int64_t floor_div(int64_t a, int64_t b)"));
    assert!(c_code.contains("a / b"));
}

#[test]
fn test_exp() {
    // def exp(a, b): return a ** b
    let c_code = int_jit(
        "exp",
        &[("a", AnnotationValue::IntType), ("b", AnnotationValue::IntType)],
        AnnotationValue::IntType,
        &[],
        Vec::new(),
        vec![
            Instruction::Resume,
            Instruction::LoadFast(0),
            Instruction::LoadFast(1),
            Instruction::BinaryOp { op: BinaryOperator::Power },
            Instruction::ReturnValue,
        ],
    );
    assert!(c_code.contains("int64_t exp(int64_t a, int64_t b)"));
    assert!(c_code.contains("__jit_ipow"));
    assert!(c_code.contains("static int64_t __jit_ipow"));
}

#[test]
fn test_mod() {
    // def modulo(a, b): return a % b
    let c_code = int_jit(
        "modulo",
        &[("a", AnnotationValue::IntType), ("b", AnnotationValue::IntType)],
        AnnotationValue::IntType,
        &[],
        Vec::new(),
        vec![
            Instruction::Resume,
            Instruction::LoadFast(0),
            Instruction::LoadFast(1),
            Instruction::BinaryOp { op: BinaryOperator::Remainder },
            Instruction::ReturnValue,
        ],
    );
    assert!(c_code.contains("int64_t modulo(int64_t a, int64_t b)"));
    assert!(c_code.contains("a % b"));
}

#[test]
fn test_lshift() {
    // def lshift(a, b): return a << b
    let c_code = int_jit(
        "lshift",
        &[("a", AnnotationValue::IntType), ("b", AnnotationValue::IntType)],
        AnnotationValue::IntType,
        &[],
        Vec::new(),
        vec![
            Instruction::Resume,
            Instruction::LoadFast(0),
            Instruction::LoadFast(1),
            Instruction::BinaryOp { op: BinaryOperator::Lshift },
            Instruction::ReturnValue,
        ],
    );
    assert!(c_code.contains("int64_t lshift(int64_t a, int64_t b)"));
    assert!(c_code.contains("a << b"));
}

#[test]
fn test_rshift() {
    // def rshift(a, b): return a >> b
    let c_code = int_jit(
        "rshift",
        &[("a", AnnotationValue::IntType), ("b", AnnotationValue::IntType)],
        AnnotationValue::IntType,
        &[],
        Vec::new(),
        vec![
            Instruction::Resume,
            Instruction::LoadFast(0),
            Instruction::LoadFast(1),
            Instruction::BinaryOp { op: BinaryOperator::Rshift },
            Instruction::ReturnValue,
        ],
    );
    assert!(c_code.contains("int64_t rshift(int64_t a, int64_t b)"));
    assert!(c_code.contains("a >> b"));
}

#[test]
fn test_and() {
    // def bitand(a, b): return a & b
    let c_code = int_jit(
        "bitand",
        &[("a", AnnotationValue::IntType), ("b", AnnotationValue::IntType)],
        AnnotationValue::IntType,
        &[],
        Vec::new(),
        vec![
            Instruction::Resume,
            Instruction::LoadFast(0),
            Instruction::LoadFast(1),
            Instruction::BinaryOp { op: BinaryOperator::And },
            Instruction::ReturnValue,
        ],
    );
    assert!(c_code.contains("int64_t bitand(int64_t a, int64_t b)"));
    assert!(c_code.contains("a & b"));
}

#[test]
fn test_or() {
    // def bitor(a, b): return a | b
    let c_code = int_jit(
        "bitor",
        &[("a", AnnotationValue::IntType), ("b", AnnotationValue::IntType)],
        AnnotationValue::IntType,
        &[],
        Vec::new(),
        vec![
            Instruction::Resume,
            Instruction::LoadFast(0),
            Instruction::LoadFast(1),
            Instruction::BinaryOp { op: BinaryOperator::Or },
            Instruction::ReturnValue,
        ],
    );
    assert!(c_code.contains("int64_t bitor(int64_t a, int64_t b)"));
    assert!(c_code.contains("a | b"));
}

#[test]
fn test_xor() {
    // def bitxor(a, b): return a ^ b
    let c_code = int_jit(
        "bitxor",
        &[("a", AnnotationValue::IntType), ("b", AnnotationValue::IntType)],
        AnnotationValue::IntType,
        &[],
        Vec::new(),
        vec![
            Instruction::Resume,
            Instruction::LoadFast(0),
            Instruction::LoadFast(1),
            Instruction::BinaryOp { op: BinaryOperator::Xor },
            Instruction::ReturnValue,
        ],
    );
    assert!(c_code.contains("int64_t bitxor(int64_t a, int64_t b)"));
    assert!(c_code.contains("a ^ b"));
}

#[test]
fn int_tests_test_eq() {
    // def eq(a, b): if a == b: return 1; return 0
    let c_code = int_jit(
        "eq",
        &[("a", AnnotationValue::IntType), ("b", AnnotationValue::IntType)],
        AnnotationValue::IntType,
        &[],
        vec![int_int(1), int_int(0)],
        vec![
            Instruction::Resume,
            Instruction::LoadFast(0),
            Instruction::LoadFast(1),
            Instruction::CompareOperation { op: ComparisonOperator::Equal },
            Instruction::PopJumpIfFalse { target: 6 },
            Instruction::ReturnConst { idx: 0 },
            Instruction::ReturnConst { idx: 1 },
        ],
    );
    assert!(c_code.contains("int64_t eq(int64_t a, int64_t b)"));
    assert!(c_code.contains("=="));
    assert!(c_code.contains("if") || c_code.contains("goto"));
}

#[test]
fn int_tests_test_gt() {
    // def gt(a, b): if a > b: return 1; return 0
    let c_code = int_jit(
        "gt",
        &[("a", AnnotationValue::IntType), ("b", AnnotationValue::IntType)],
        AnnotationValue::IntType,
        &[],
        vec![int_int(1), int_int(0)],
        vec![
            Instruction::Resume,
            Instruction::LoadFast(0),
            Instruction::LoadFast(1),
            Instruction::CompareOperation { op: ComparisonOperator::Greater },
            Instruction::PopJumpIfFalse { target: 6 },
            Instruction::ReturnConst { idx: 0 },
            Instruction::ReturnConst { idx: 1 },
        ],
    );
    assert!(c_code.contains("int64_t gt(int64_t a, int64_t b)"));
    assert!(c_code.contains(">"));
}

#[test]
fn int_tests_test_lt() {
    // def lt(a, b): if a < b: return 1; return 0
    let c_code = int_jit(
        "lt",
        &[("a", AnnotationValue::IntType), ("b", AnnotationValue::IntType)],
        AnnotationValue::IntType,
        &[],
        vec![int_int(1), int_int(0)],
        vec![
            Instruction::Resume,
            Instruction::LoadFast(0),
            Instruction::LoadFast(1),
            Instruction::CompareOperation { op: ComparisonOperator::Less },
            Instruction::PopJumpIfFalse { target: 6 },
            Instruction::ReturnConst { idx: 0 },
            Instruction::ReturnConst { idx: 1 },
        ],
    );
    assert!(c_code.contains("int64_t lt(int64_t a, int64_t b)"));
    assert!(c_code.contains("<"));
}

#[test]
fn int_tests_test_gte() {
    // def gte(a, b): if a >= b: return 1; return 0
    let c_code = int_jit(
        "gte",
        &[("a", AnnotationValue::IntType), ("b", AnnotationValue::IntType)],
        AnnotationValue::IntType,
        &[],
        vec![int_int(1), int_int(0)],
        vec![
            Instruction::Resume,
            Instruction::LoadFast(0),
            Instruction::LoadFast(1),
            Instruction::CompareOperation { op: ComparisonOperator::GreaterOrEqual },
            Instruction::PopJumpIfFalse { target: 6 },
            Instruction::ReturnConst { idx: 0 },
            Instruction::ReturnConst { idx: 1 },
        ],
    );
    assert!(c_code.contains("int64_t gte(int64_t a, int64_t b)"));
    assert!(c_code.contains(">="));
}

#[test]
fn int_tests_test_lte() {
    // def lte(a, b): if a <= b: return 1; return 0
    let c_code = int_jit(
        "lte",
        &[("a", AnnotationValue::IntType), ("b", AnnotationValue::IntType)],
        AnnotationValue::IntType,
        &[],
        vec![int_int(1), int_int(0)],
        vec![
            Instruction::Resume,
            Instruction::LoadFast(0),
            Instruction::LoadFast(1),
            Instruction::CompareOperation { op: ComparisonOperator::LessOrEqual },
            Instruction::PopJumpIfFalse { target: 6 },
            Instruction::ReturnConst { idx: 0 },
            Instruction::ReturnConst { idx: 1 },
        ],
    );
    assert!(c_code.contains("int64_t lte(int64_t a, int64_t b)"));
    assert!(c_code.contains("<="));
}

#[test]
fn test_minus() {
    // def minus(a: int) -> int: return -a
    let c_code = int_jit(
        "minus",
        &[("a", AnnotationValue::IntType)],
        AnnotationValue::IntType,
        &[],
        Vec::new(),
        vec![
            Instruction::Resume,
            Instruction::LoadFast(0),
            Instruction::UnaryNegative,
            Instruction::ReturnValue,
        ],
    );
    assert!(c_code.contains("int64_t minus(int64_t a)"));
    assert!(c_code.contains("-a"));
}
