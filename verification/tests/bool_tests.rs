//! Booleans, as C code.

use rustpython_jit::bytecode::{
    BinaryOperator, CodeObject, CodeUnit, ComparisonOperator, ConstantData, Instruction,
};
use rustpython_jit::compile;
use rustpython_jit::function_jit::{
    get_jit_arg_types, jit_ret_type, AnnotationValue, Annotations, PyFunctionInfo,
};

/// An integer constant, as sign and base-2^32 digits.
fn bool_int(v: i64) -> ConstantData {
    let mut magnitude = v.unsigned_abs();
    let mut digits = Vec::new();
    while magnitude > 0 {
        digits.push((magnitude & 0xffff_ffff) as u32);
        magnitude >>= 32;
    }
    ConstantData::Integer { negative: v < 0, digits }
}

/// Compiles the bytecode of a function whose arguments are annotated with
/// `params` and whose result with `ret`, as the annotations would give them.
fn bool_jit(
    name: &str,
    params: &[(&str, AnnotationValue)],
    ret: AnnotationValue,
    locals: &[&str],
    constants: Vec<ConstantData>,
    ops: Vec<Instruction>,
) -> String {
    let mut dict = Vec::new();
    for (n, a) in params {
        dict.push((n.to_string(), *a));
    }
    dict.push(("return".to_string(), ret));
    let func = PyFunctionInfo {
        has_varargs: false,
        has_varkeywords: false,
        args: params.iter().map(|(n, _)| n.to_string()).collect(),
        kwonlyargs: Vec::new(),
        annotations: Annotations::Dict(dict),
    };
    let arg_types = get_jit_arg_types(&func).unwrap();
    let ret_type = jit_ret_type(&func).unwrap();
    let mut varnames: Vec<String> = params.iter().map(|(n, _)| n.to_string()).collect();
    for l in locals {
        varnames.push(l.to_string());
    }
    let code = CodeObject {
        obj_name: name.to_string(),
        varnames,
        names: Vec::new(),
        constants,
        instructions: ops.into_iter().map(|op| CodeUnit { op, arg: 0 }).collect(),
    };
    compile(&code, &arg_types, ret_type).unwrap()
}

#[test]
fn test_return() {
    // def return_(a: bool) -> bool: return a
    let c_code = bool_jit(
        "return_",
        &[("a", AnnotationValue::BoolType)],
        AnnotationValue::BoolType,
        &[],
        Vec::new(),
        vec![Instruction::Resume, Instruction::LoadFast(0), Instruction::ReturnValue],
    );
    assert!(c_code.contains("int return_(int a)"));
    assert!(c_code.contains("return"));
}

#[test]
fn test_const_true() {
    // def const_true(a: int) -> bool: return True
    let c_code = bool_jit(
        "const_true",
        &[("a", AnnotationValue::IntType)],
        AnnotationValue::BoolType,
        &[],
        vec![ConstantData::Boolean { value: true }],
        vec![Instruction::Resume, Instruction::ReturnConst { idx: 0 }],
    );
    assert!(c_code.contains("int const_true(int64_t a)"));
    assert!(c_code.contains("return 1"));
}

#[test]
fn test_const_false() {
    // def const_false(a: int) -> bool: return False
    let c_code = bool_jit(
        "const_false",
        &[("a", AnnotationValue::IntType)],
        AnnotationValue::BoolType,
        &[],
        vec![ConstantData::Boolean { value: false }],
        vec![Instruction::Resume, Instruction::ReturnConst { idx: 0 }],
    );
    assert!(c_code.contains("int const_false(int64_t a)"));
    assert!(c_code.contains("return 0"));
}

#[test]
fn test_not() {
    // def not_(a: bool) -> bool: return not a
    let c_code = bool_jit(
        "not_",
        &[("a", AnnotationValue::BoolType)],
        AnnotationValue::BoolType,
        &[],
        Vec::new(),
        vec![
            Instruction::Resume,
            Instruction::LoadFast(0),
            Instruction::ToBool,
            Instruction::UnaryNot,
            Instruction::ReturnValue,
        ],
    );
    assert!(c_code.contains("int not_(int a)"));
    assert!(c_code.contains("!"));
}

#[test]
fn test_if_not() {
    // def if_not(a: bool) -> int: if not a: return 0 else: return 1
    let c_code = bool_jit(
        "if_not",
        &[("a", AnnotationValue::BoolType)],
        AnnotationValue::IntType,
        &[],
        vec![bool_int(0), bool_int(1)],
        vec![
            Instruction::Resume,
            Instruction::LoadFast(0),
            Instruction::ToBool,
            Instruction::PopJumpIfTrue { target: 5 },
            Instruction::ReturnConst { idx: 0 },
            Instruction::ReturnConst { idx: 1 },
        ],
    );
    assert!(c_code.contains("int64_t if_not(int a)"));
    assert!(c_code.contains("if") || c_code.contains("goto"));
}

#[test]
fn bool_tests_test_eq() {
    // def eq(a, b): if a == b: return 1; return 0
    let c_code = bool_jit(
        "eq",
        &[("a", AnnotationValue::BoolType), ("b", AnnotationValue::BoolType)],
        AnnotationValue::IntType,
        &[],
        vec![bool_int(1), bool_int(0)],
        vec![
            Instruction::Resume,
            Instruction::LoadFast(0),
            Instruction::LoadFast(1),
            Instruction::CompareOperation { op: ComparisonOperator::Equal },
            Instruction::PopJumpIfFalse { target: 6 },
            Instruction::ReturnConst { idx: 0 },
            Instruction::ReturnConst { idx: 1 },
        ],
    );
    assert!(c_code.contains("int64_t eq(int a, int b)"));
    assert!(c_code.contains("=="));
}

#[test]
fn bool_tests_test_gt() {
    // def gt(a, b): if a > b: return 1; return 0
    let c_code = bool_jit(
        "gt",
        &[("a", AnnotationValue::BoolType), ("b", AnnotationValue::BoolType)],
        AnnotationValue::IntType,
        &[],
        vec![bool_int(1), bool_int(0)],
        vec![
            Instruction::Resume,
            Instruction::LoadFast(0),
            Instruction::LoadFast(1),
            Instruction::CompareOperation { op: ComparisonOperator::Greater },
            Instruction::PopJumpIfFalse { target: 6 },
            Instruction::ReturnConst { idx: 0 },
            Instruction::ReturnConst { idx: 1 },
        ],
    );
    assert!(c_code.contains("int64_t gt(int a, int b)"));
    assert!(c_code.contains(">"));
}

#[test]
fn bool_tests_test_lt() {
    // def lt(a, b): if a < b: return 1; return 0
    let c_code = bool_jit(
        "lt",
        &[("a", AnnotationValue::BoolType), ("b", AnnotationValue::BoolType)],
        AnnotationValue::IntType,
        &[],
        vec![bool_int(1), bool_int(0)],
        vec![
            Instruction::Resume,
            Instruction::LoadFast(0),
            Instruction::LoadFast(1),
            Instruction::CompareOperation { op: ComparisonOperator::Less },
            Instruction::PopJumpIfFalse { target: 6 },
            Instruction::ReturnConst { idx: 0 },
            Instruction::ReturnConst { idx: 1 },
        ],
    );
    assert!(c_code.contains("int64_t lt(int a, int b)"));
    assert!(c_code.contains("<"));
}

#[test]
fn bool_tests_test_gte() {
    // def gte(a, b): if a >= b: return 1; return 0
    let c_code = bool_jit(
        "gte",
        &[("a", AnnotationValue::BoolType), ("b", AnnotationValue::BoolType)],
        AnnotationValue::IntType,
        &[],
        vec![bool_int(1), bool_int(0)],
        vec![
            Instruction::Resume,
            Instruction::LoadFast(0),
            Instruction::LoadFast(1),
            Instruction::CompareOperation { op: ComparisonOperator::GreaterOrEqual },
            Instruction::PopJumpIfFalse { target: 6 },
            Instruction::ReturnConst { idx: 0 },
            Instruction::ReturnConst { idx: 1 },
        ],
    );
    assert!(c_code.contains("int64_t gte(int a, int b)"));
    assert!(c_code.contains(">="));
}

#[test]
fn bool_tests_test_lte() {
    // def lte(a, b): if a <= b: return 1; return 0
    let c_code = bool_jit(
        "lte",
        &[("a", AnnotationValue::BoolType), ("b", AnnotationValue::BoolType)],
        AnnotationValue::IntType,
        &[],
        vec![bool_int(1), bool_int(0)],
        vec![
            Instruction::Resume,
            Instruction::LoadFast(0),
            Instruction::LoadFast(1),
            Instruction::CompareOperation { op: ComparisonOperator::LessOrEqual },
            Instruction::PopJumpIfFalse { target: 6 },
            Instruction::ReturnConst { idx: 0 },
            Instruction::ReturnConst { idx: 1 },
        ],
    );
    assert!(c_code.contains("int64_t lte(int a, int b)"));
    assert!(c_code.contains("<="));
}
