//! Float operations, as C code.

use rustpython_jit::bytecode::{
    BinaryOperator, CodeObject, CodeUnit, ComparisonOperator, ConstantData, Instruction,
};
use rustpython_jit::compile;
use rustpython_jit::function_jit::{
    get_jit_arg_types, jit_ret_type, AnnotationValue, Annotations, PyFunctionInfo,
};

/// An integer constant, as sign and base-2^32 digits.
fn float_int(v: i64) -> ConstantData {
    let mut magnitude = v.unsigned_abs();
    let mut digits = Vec::new();
    while magnitude > 0 {
        digits.push((magnitude & 0xffff_ffff) as u32);
        magnitude >>= 32;
    }
    ConstantData::Integer { negative: v < 0, digits }
}

/// Compiles the bytecode of a function whose arguments are annotated with
/// `params` and whose result with `ret`, as the annotations would give them.
fn float_jit(
    name: &str,
    params: &[(&str, AnnotationValue)],
    ret: AnnotationValue,
    locals: &[&str],
    constants: Vec<ConstantData>,
    ops: Vec<Instruction>,
) -> String {
    let mut dict = Vec::new();
    for (n, a) in params {
        dict.push((n.to_string(), *a));
    }
    dict.push(("return".to_string(), ret));
    let func = PyFunctionInfo {
        has_varargs: false,
        has_varkeywords: false,
        args: params.iter().map(|(n, _)| n.to_string()).collect(),
        kwonlyargs: Vec::new(),
        annotations: Annotations::Dict(dict),
    };
    let arg_types = get_jit_arg_types(&func).unwrap();
    let ret_type = jit_ret_type(&func).unwrap();
    let mut varnames: Vec<String> = params.iter().map(|(n, _)| n.to_string()).collect();
    for l in locals {
        varnames.push(l.to_string());
    }
    let code = CodeObject {
        obj_name: name.to_string(),
        varnames,
        names: Vec::new(),
        constants,
        instructions: ops.into_iter().map(|op| CodeUnit { op, arg: 0 }).collect(),
    };
    compile(&code, &arg_types, ret_type).unwrap()
}

#[test]
fn float_tests_test_add() {
    // def add(a, b): return a + b
    let c_code = float_jit(
        "add",
        &[("a", AnnotationValue::FloatType), ("b", AnnotationValue::FloatType)],
        AnnotationValue::FloatType,
        &[],
        Vec::new(),
        vec![
            Instruction::Resume,
            Instruction::LoadFast(0),
            Instruction::LoadFast(1),
            Instruction::BinaryOp { op: BinaryOperator::Add },
            Instruction::ReturnValue,
        ],
    );
    assert!(c_code.contains("double add(double a, double b)"));
    assert!(c_code.contains("#include <stdint.h>"));
    assert!(c_code.contains("a + b"));
}

#[test]
fn test_add_with_integer() {
    // def add(a, b): return a + b
    let c_code = float_jit(
        "add",
        &[("a", AnnotationValue::FloatType), ("b", AnnotationValue::IntType)],
        AnnotationValue::FloatType,
        &[],
        Vec::new(),
        vec![
            Instruction::Resume,
            Instruction::LoadFast(0),
            Instruction::LoadFast(1),
            Instruction::BinaryOp { op: BinaryOperator::Add },
            Instruction::ReturnValue,
        ],
    );
    assert!(c_code.contains("double add(double a, int64_t b)"));
    assert!(c_code.contains("(double)"));
}

#[test]
fn float_tests_test_sub() {
    // def sub(a, b): return a - b
    let c_code = float_jit(
        "sub",
        &[("a", AnnotationValue::FloatType), ("b", AnnotationValue::FloatType)],
        AnnotationValue::FloatType,
        &[],
        Vec::new(),
        vec![
            Instruction::Resume,
            Instruction::LoadFast(0),
            Instruction::LoadFast(1),
            Instruction::BinaryOp { op: BinaryOperator::Subtract },
            Instruction::ReturnValue,
        ],
    );
    assert!(c_code.contains("double sub(double a, double b)"));
    assert!(c_code.contains("a - b"));
}

#[test]
fn test_sub_with_integer() {
    // def sub(a, b): return a - b
    let c_code = float_jit(
        "sub",
        &[("a", AnnotationValue::IntType), ("b", AnnotationValue::FloatType)],
        AnnotationValue::FloatType,
        &[],
        Vec::new(),
        vec![
            Instruction::Resume,
            Instruction::LoadFast(0),
            Instruction::LoadFast(1),
            Instruction::BinaryOp { op: BinaryOperator::Subtract },
            Instruction::ReturnValue,
        ],
    );
    assert!(c_code.contains("double sub(int64_t a, double b)"));
    assert!(c_code.contains("(double)"));
}

#[test]
fn float_tests_test_mul() {
    // def mul(a, b): return a * b
    let c_code = float_jit(
        "mul",
        &[("a", AnnotationValue::FloatType), ("b", AnnotationValue::FloatType)],
        AnnotationValue::FloatType,
        &[],
        Vec::new(),
        vec![
            Instruction::Resume,
            Instruction::LoadFast(0),
            Instruction::LoadFast(1),
            Instruction::BinaryOp { op: BinaryOperator::Multiply },
            Instruction::ReturnValue,
        ],
    );
    assert!(c_code.contains("double mul(double a, double b)"));
    assert!(c_code.contains("a * b"));
}

#[test]
fn test_mul_with_integer() {
    // def mul(a, b): return a * b
    let c_code = float_jit(
        "mul",
        &[("a", AnnotationValue::FloatType), ("b", AnnotationValue::IntType)],
        AnnotationValue::FloatType,
        &[],
        Vec::new(),
        vec![
            Instruction::Resume,
            Instruction::LoadFast(0),
            Instruction::LoadFast(1),
            Instruction::BinaryOp { op: BinaryOperator::Multiply },
            Instruction::ReturnValue,
        ],
    );
    assert!(c_code.contains("double mul(double a, int64_t b)"));
    assert!(c_code.contains("(double)"));
}

#[test]
fn test_power() {
    // def pow(a, b): return a ** b
    let c_code = float_jit(
        "pow",
        &[("a", AnnotationValue::FloatType), ("b", AnnotationValue::FloatType)],
        AnnotationValue::FloatType,
        &[],
        Vec::new(),
        vec![
            Instruction::Resume,
            Instruction::LoadFast(0),
            Instruction::LoadFast(1),
            Instruction::BinaryOp { op: BinaryOperator::Power },
            Instruction::ReturnValue,
        ],
    );
    assert!(c_code.contains("double pow(double a, double b)"));
    assert!(c_code.contains("#include <math.h>"));
    assert!(c_code.contains("pow("));
}

#[test]
fn float_tests_test_div() {
    // def div(a, b): return a / b
    let c_code = float_jit(
        "div",
        &[("a", AnnotationValue::FloatType), ("b", AnnotationValue::FloatType)],
        AnnotationValue::FloatType,
        &[],
        Vec::new(),
        vec![
            Instruction::Resume,
            Instruction::LoadFast(0),
            Instruction::LoadFast(1),
            Instruction::BinaryOp { op: BinaryOperator::TrueDivide },
            Instruction::ReturnValue,
        ],
    );
    assert!(c_code.contains("double div(double a, double b)"));
    assert!(c_code.contains("a / b"));
}

#[test]
fn test_div_with_integer() {
    // def div(a, b): return a / b
    let c_code = float_jit(
        "div",
        &[("a", AnnotationValue::FloatType), ("b", AnnotationValue::IntType)],
        AnnotationValue::FloatType,
        &[],
        Vec::new(),
        vec![
            Instruction::Resume,
            Instruction::LoadFast(0),
            Instruction::LoadFast(1),
            Instruction::BinaryOp { op: BinaryOperator::TrueDivide },
            Instruction::ReturnValue,
        ],
    );
    assert!(c_code.contains("double div(double a, int64_t b)"));
    assert!(c_code.contains("(double)"));
}

#[test]
fn test_if_bool() {
    // def if_bool(a: float) -> int: if a: return 1; return 0
    let c_code = float_jit(
        "if_bool",
        &[("a", AnnotationValue::FloatType)],
        AnnotationValue::IntType,
        &[],
        vec![float_int(1), float_int(0)],
        vec![
            Instruction::Resume,
            Instruction::LoadFast(0),
            Instruction::ToBool,
            Instruction::PopJumpIfFalse { target: 5 },
            Instruction::ReturnConst { idx: 0 },
            Instruction::ReturnConst { idx: 1 },
        ],
    );
    assert!(c_code.contains("int64_t if_bool(double a)"));
    assert!(c_code.contains("if") || c_code.contains("goto"));
}

#[test]
fn test_float_eq() {
    // def float_eq(a: float, b: float) -> bool: return a == b
    let c_code = float_jit(
        "float_eq",
        &[("a", AnnotationValue::FloatType), ("b", AnnotationValue::FloatType)],
        AnnotationValue::BoolType,
        &[],
        Vec::new(),
        vec![
            Instruction::Resume,
            Instruction::LoadFast(0),
            Instruction::LoadFast(1),
            Instruction::CompareOperation { op: ComparisonOperator::Equal },
            Instruction::ReturnValue,
        ],
    );
    assert!(c_code.contains("int float_eq(double a, double b)"));
    assert!(c_code.contains("=="));
}

#[test]
fn test_float_ne() {
    // def float_ne(a: float, b: float) -> bool: return a != b
    let c_code = float_jit(
        "float_ne",
        &[("a", AnnotationValue::FloatType), ("b", AnnotationValue::FloatType)],
        AnnotationValue::BoolType,
        &[],
        Vec::new(),
        vec![
            Instruction::Resume,
            Instruction::LoadFast(0),
            Instruction::LoadFast(1),
            Instruction::CompareOperation { op: ComparisonOperator::NotEqual },
            Instruction::ReturnValue,
        ],
    );
    assert!(c_code.contains("int float_ne(double a, double b)"));
    assert!(c_code.contains("!="));
}

#[test]
fn test_float_gt() {
    // def float_gt(a: float, b: float) -> bool: return a > b
    let c_code = float_jit(
        "float_gt",
        &[("a", AnnotationValue::FloatType), ("b", AnnotationValue::FloatType)],
        AnnotationValue::BoolType,
        &[],
        Vec::new(),
        vec![
            Instruction::Resume,
            Instruction::LoadFast(0),
            Instruction::LoadFast(1),
            Instruction::CompareOperation { op: ComparisonOperator::Greater },
            Instruction::ReturnValue,
        ],
    );
    assert!(c_code.contains("int float_gt(double a, double b)"));
    assert!(c_code.contains(">"));
}

#[test]
fn test_float_gte() {
    // def float_gte(a: float, b: float) -> bool: return a >= b
    let c_code = float_jit(
        "float_gte",
        &[("a", AnnotationValue::FloatType), ("b", AnnotationValue::FloatType)],
        AnnotationValue::BoolType,
        &[],
        Vec::new(),
        vec![
            Instruction::Resume,
            Instruction::LoadFast(0),
            Instruction::LoadFast(1),
            Instruction::CompareOperation { op: ComparisonOperator::GreaterOrEqual },
            Instruction::ReturnValue,
        ],
    );
    assert!(c_code.contains("int float_gte(double a, double b)"));
    assert!(c_code.contains(">="));
}

#[test]
fn test_float_lt() {
    // def float_lt(a: float, b: float) -> bool: return a < b
    let c_code = float_jit(
        "float_lt",
        &[("a", AnnotationValue::FloatType), ("b", AnnotationValue::FloatType)],
        AnnotationValue::BoolType,
        &[],
        Vec::new(),
        vec![
            Instruction::Resume,
            Instruction::LoadFast(0),
            Instruction::LoadFast(1),
            Instruction::CompareOperation { op: ComparisonOperator::Less },
            Instruction::ReturnValue,
        ],
    );
    assert!(c_code.contains("int float_lt(double a, double b)"));
    assert!(c_code.contains("<"));
}

#[test]
fn test_float_lte() {
    // def float_lte(a: float, b: float) -> bool: return a <= b
    let c_code = float_jit(
        "float_lte",
        &[("a", AnnotationValue::FloatType), ("b", AnnotationValue::FloatType)],
        AnnotationValue::BoolType,
        &[],
        Vec::new(),
        vec![
            Instruction::Resume,
            Instruction::LoadFast(0),
            Instruction::LoadFast(1),
            Instruction::CompareOperation { op: ComparisonOperator::LessOrEqual },
            Instruction::ReturnValue,
        ],
    );
    assert!(c_code.contains("int float_lte(double a, double b)"));
    assert!(c_code.contains("<="));
}
