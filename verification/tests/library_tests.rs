//! Errors, exact outputs, the annotation checks, and the register form with
//! its type resolution and C back end.

use rustpython_jit::bytecode::{
    BinaryOperator, CodeObject, CodeUnit, ComparisonOperator, ConstantData, Instruction,
};
use rustpython_jit::frontend_c::FrontendC;
use rustpython_jit::function_jit::{
    get_jit_arg_types, jit_ret_type, new_jit_error, AnnotationValue, Annotations, ExceptionKind,
    PyFunctionInfo,
};
use rustpython_jit::transpiler::{
    stringify_code_object, MyExpression, MyLabel, MyStatement, StatementBlock, StatementObject,
    TranspileByteCodeToStatementObject, Varindex,
};
use rustpython_jit::type_resolver::{MyType1, MyType2, TypeResolver};
use rustpython_jit::{compile, compile_checked, JitCompileError, JitType};

fn small_int(v: i64) -> ConstantData {
    let mut magnitude = v.unsigned_abs();
    let mut digits = Vec::new();
    while magnitude > 0 {
        digits.push((magnitude & 0xffff_ffff) as u32);
        magnitude >>= 32;
    }
    ConstantData::Integer { negative: v < 0, digits }
}

fn code_of(
    name: &str,
    varnames: &[&str],
    names: &[&str],
    constants: Vec<ConstantData>,
    ops: Vec<(Instruction, u8)>,
) -> CodeObject {
    CodeObject {
        obj_name: name.to_string(),
        varnames: varnames.iter().map(|s| s.to_string()).collect(),
        names: names.iter().map(|s| s.to_string()).collect(),
        constants,
        instructions: ops.into_iter().map(|(op, arg)| CodeUnit { op, arg }).collect(),
    }
}

fn plain(ops: Vec<Instruction>) -> Vec<(Instruction, u8)> {
    ops.into_iter().map(|op| (op, 0)).collect()
}

#[test]
fn exact_code_for_an_addition() {
    let code = code_of(
        "add",
        &["a", "b"],
        &[],
        Vec::new(),
        plain(vec![
            Instruction::Resume,
            Instruction::LoadFast(0),
            Instruction::LoadFast(1),
            Instruction::BinaryOp { op: BinaryOperator::Add },
            Instruction::ReturnValue,
        ]),
    );
    let c_code = compile(&code, &[JitType::Int, JitType::Int], Some(JitType::Int)).unwrap();
    assert_eq!(
        c_code,
        "#include <stdint.h>\n\nint64_t add(int64_t a, int64_t b) {\n    int64_t tmp_0;\n    tmp_0 = a + b;\n    return tmp_0;\n}\n"
    );
}

#[test]
fn exact_code_for_a_branch() {
    let code = code_of(
        "pick",
        &["a"],
        &[],
        vec![small_int(7), small_int(-3)],
        plain(vec![
            Instruction::LoadFast(0),
            Instruction::PopJumpIfFalse { target: 3 },
            Instruction::ReturnConst { idx: 0 },
            Instruction::ReturnConst { idx: 1 },
        ]),
    );
    let c_code = compile(&code, &[JitType::Int], None).unwrap();
    assert_eq!(
        c_code,
        "#include <stdint.h>\n\nvoid pick(int64_t a) {\n    if (!(a != 0)) goto label_3;\n    return 7LL;\nlabel_3:\n    return -3LL;\n}\n"
    );
}

#[test]
fn inplace_operator_writes_as_plain_one() {
    let make = |op: BinaryOperator| {
        code_of(
            "f",
            &["a", "b"],
            &[],
            Vec::new(),
            plain(vec![
                Instruction::LoadFast(0),
                Instruction::LoadFast(1),
                Instruction::BinaryOp { op },
                Instruction::ReturnValue,
            ]),
        )
    };
    let args = [JitType::Float, JitType::Int];
    let plain_code = compile(&make(BinaryOperator::Subtract), &args, Some(JitType::Float)).unwrap();
    let inplace_code =
        compile(&make(BinaryOperator::InplaceSubtract), &args, Some(JitType::Float)).unwrap();
    assert_eq!(plain_code, inplace_code);
    assert!(plain_code.contains("a - (double)b"));
}

#[test]
fn local_variable_is_declared_once() {
    let code = code_of(
        "f",
        &["a", "x"],
        &[],
        vec![small_int(1)],
        plain(vec![
            Instruction::LoadConst { idx: 0 },
            Instruction::StoreFast(1),
            Instruction::LoadFast(0),
            Instruction::StoreFast(1),
            Instruction::LoadFast(1),
            Instruction::ReturnValue,
        ]),
    );
    let c_code = compile(&code, &[JitType::Int], Some(JitType::Int)).unwrap();
    assert_eq!(
        c_code,
        "#include <stdint.h>\n\nint64_t f(int64_t a) {\n    int64_t var_1 = 1LL;\n    var_1 = a;\n    return var_1;\n}\n"
    );
}

#[test]
fn unsupported_instruction_is_refused() {
    let code = code_of(
        "f",
        &["a"],
        &[],
        Vec::new(),
        plain(vec![Instruction::Other { name: "YieldValue".to_string() }]),
    );
    assert_eq!(compile(&code, &[JitType::Int], None), Err(JitCompileError::NotSupported));
}

#[test]
fn return_from_empty_stack_is_bad_bytecode() {
    let code = code_of("f", &[], &[], Vec::new(), plain(vec![Instruction::ReturnValue]));
    assert_eq!(compile(&code, &[], None), Err(JitCompileError::BadBytecode));
}

#[test]
fn storing_a_float_into_an_int_argument_is_a_mismatch() {
    let code = code_of(
        "f",
        &["a", "b"],
        &[],
        Vec::new(),
        plain(vec![Instruction::LoadFast(1), Instruction::StoreFast(0)]),
    );
    assert_eq!(
        compile(&code, &[JitType::Int, JitType::Float], None),
        Err(JitCompileError::TypeMismatch)
    );
}

#[test]
fn adding_booleans_is_not_supported() {
    let code = code_of(
        "f",
        &["a", "b"],
        &[],
        Vec::new(),
        plain(vec![
            Instruction::LoadFast(0),
            Instruction::LoadFast(1),
            Instruction::BinaryOp { op: BinaryOperator::Add },
        ]),
    );
    assert_eq!(
        compile(&code, &[JitType::Bool, JitType::Bool], None),
        Err(JitCompileError::NotSupported)
    );
}

#[test]
fn string_constant_is_unsupported() {
    let code = code_of(
        "f",
        &[],
        &[],
        vec![ConstantData::Str { value: Some("hi".to_string()) }],
        plain(vec![Instruction::LoadConst { idx: 0 }]),
    );
    assert_eq!(compile(&code, &[], None), Err(JitCompileError::UnsupportedConstant));
}

#[test]
fn integer_of_two_digits_is_read_whole() {
    let code = code_of(
        "f",
        &[],
        &[],
        vec![ConstantData::Integer { negative: true, digits: vec![5, 1] }],
        plain(vec![Instruction::ReturnConst { idx: 0 }]),
    );
    let c_code = compile(&code, &[], Some(JitType::Int)).unwrap();
    assert!(c_code.contains("return -4294967301LL;"));
}

#[test]
fn integer_beyond_i64_is_unsupported() {
    let code = code_of(
        "f",
        &[],
        &[],
        vec![ConstantData::Integer { negative: false, digits: vec![0, 0, 1] }],
        plain(vec![Instruction::ReturnConst { idx: 0 }]),
    );
    assert_eq!(compile(&code, &[], None), Err(JitCompileError::UnsupportedConstant));
}

#[test]
fn float_constant_is_written_with_seventeen_decimals() {
    let code = code_of(
        "f",
        &[],
        &[],
        vec![ConstantData::Float {
            fixed17: "0.50000000000000000".to_string(),
            shortest: "0.5".to_string(),
        }],
        plain(vec![Instruction::ReturnConst { idx: 0 }]),
    );
    let c_code = compile(&code, &[], Some(JitType::Float)).unwrap();
    assert!(c_code.contains("return 0.50000000000000000;"));
}

#[test]
fn constant_index_out_of_range_has_no_result() {
    let code = code_of("f", &[], &[], Vec::new(), plain(vec![Instruction::LoadConst { idx: 3 }]));
    assert_eq!(compile_checked(&code, &[], None), None);
}

#[test]
fn more_argument_types_than_variables_has_no_result() {
    let code = code_of("f", &["a"], &[], Vec::new(), plain(vec![]));
    assert_eq!(compile_checked(&code, &[JitType::Int, JitType::Int], None), None);
}

#[test]
fn checked_compile_agrees_with_compile() {
    let code = code_of(
        "neg",
        &["a"],
        &[],
        Vec::new(),
        plain(vec![Instruction::LoadFast(0), Instruction::UnaryNegative, Instruction::ReturnValue]),
    );
    let checked = compile_checked(&code, &[JitType::Float], Some(JitType::Float));
    let direct = compile(&code, &[JitType::Float], Some(JitType::Float));
    assert_eq!(checked, Some(direct.clone()));
    assert_eq!(
        direct.unwrap(),
        "#include <stdint.h>\n\ndouble neg(double a) {\n    double tmp_0 = -a;\n    return tmp_0;\n}\n"
    );
}

#[test]
fn c_types_and_error_messages() {
    assert_eq!(JitType::Int.to_c_type(), "int64_t");
    assert_eq!(JitType::Float.to_c_type(), "double");
    assert_eq!(JitType::Bool.to_c_type(), "int");
    assert_eq!(
        JitCompileError::NotSupported.message(),
        "function can't be jitted: unsupported instruction"
    );
    assert_eq!(JitCompileError::BadBytecode.message(), "bad bytecode");
    assert_eq!(JitCompileError::UnsupportedConstant.message(), "unsupported constant type");
    assert_eq!(JitCompileError::TypeMismatch.message(), "type mismatch in operation");
}

fn function_info(args: &[&str], annotations: Annotations) -> PyFunctionInfo {
    PyFunctionInfo {
        has_varargs: false,
        has_varkeywords: false,
        args: args.iter().map(|s| s.to_string()).collect(),
        kwonlyargs: Vec::new(),
        annotations,
    }
}

fn dict(entries: &[(&str, AnnotationValue)]) -> Annotations {
    Annotations::Dict(entries.iter().map(|(n, v)| (n.to_string(), *v)).collect())
}

#[test]
fn argument_types_follow_annotations() {
    let mut func = function_info(
        &["a", "b"],
        dict(&[
            ("b", AnnotationValue::BoolType),
            ("a", AnnotationValue::FloatType),
            ("k", AnnotationValue::IntType),
        ]),
    );
    func.kwonlyargs.push("k".to_string());
    assert_eq!(
        get_jit_arg_types(&func).unwrap(),
        vec![JitType::Float, JitType::Bool, JitType::Int]
    );
}

#[test]
fn variable_arguments_are_refused() {
    let mut func = function_info(&["a"], dict(&[("a", AnnotationValue::IntType)]));
    func.has_varkeywords = true;
    let e = get_jit_arg_types(&func).unwrap_err();
    assert_eq!(e.kind, ExceptionKind::JitError);
    assert_eq!(e.msg, "Can't jit functions with variable number of arguments");
}

#[test]
fn no_arguments_need_no_annotations() {
    let func = function_info(&[], Annotations::PyNone);
    assert_eq!(get_jit_arg_types(&func).unwrap(), Vec::<JitType>::new());
}

#[test]
fn missing_annotations_are_refused() {
    let e = get_jit_arg_types(&function_info(&["a"], Annotations::PyNone)).unwrap_err();
    assert_eq!(e.kind, ExceptionKind::JitError);
    assert_eq!(e.msg, "Jitting function requires arguments to have annotations");
    let e = get_jit_arg_types(&function_info(&["a", "zz"], dict(&[("a", AnnotationValue::IntType)])))
        .unwrap_err();
    assert_eq!(e.msg, "argument zz needs annotation");
    let e = get_jit_arg_types(&function_info(&["a"], dict(&[("a", AnnotationValue::Other)])))
        .unwrap_err();
    assert_eq!(e.msg, "Jit requires argument to be either int, float or bool");
    let e = get_jit_arg_types(&function_info(&["a"], Annotations::NotADict)).unwrap_err();
    assert_eq!(e.kind, ExceptionKind::TypeError);
    assert_eq!(e.msg, "Function annotations aren't a dict");
}

#[test]
fn return_type_follows_annotation() {
    let f = function_info(&[], dict(&[("return", AnnotationValue::FloatType)]));
    assert_eq!(jit_ret_type(&f).unwrap(), Some(JitType::Float));
    let f = function_info(&[], dict(&[("return", AnnotationValue::Other)]));
    assert_eq!(jit_ret_type(&f).unwrap(), None);
    let f = function_info(&[], dict(&[]));
    assert_eq!(jit_ret_type(&f).unwrap(), None);
    let e = jit_ret_type(&function_info(&[], Annotations::PyNone)).unwrap_err();
    assert_eq!(e.msg, "Jitting function requires return type to have annotations");
    let e = new_jit_error("boom".to_string());
    assert_eq!(e.kind, ExceptionKind::JitError);
    assert_eq!(e.msg, "boom");
}

/// `x = 1 + 2; return x`, in the older instruction set that the register
/// form reads.
fn register_code() -> CodeObject {
    code_of(
        "f",
        &["x"],
        &[],
        vec![small_int(1), small_int(2)],
        vec![
            (Instruction::LoadConst { idx: 0 }, 0),
            (Instruction::LoadConst { idx: 1 }, 1),
            (Instruction::BinaryOperation { op: BinaryOperator::Add }, 0),
            (Instruction::StoreFast(0), 0),
            (Instruction::LoadFast(0), 0),
            (Instruction::ReturnValue, 0),
        ],
    )
}

#[test]
fn register_form_of_an_assignment() {
    let code = register_code();
    let transpiler = TranspileByteCodeToStatementObject::try_new(&code).unwrap();
    let object = transpiler.try_transpile().unwrap();
    assert_eq!(object.varindex_counter(), 4);
    assert_eq!(
        object.transformation_text(),
        "label: entry\n\tvaridx.0 = $int 1\n\tvaridx.1 = $int 2\n\
         label: py_label_0 LoadConst 0\n\tnoop\n\
         label: py_label_1 LoadConst 1\n\tnoop\n\
         label: py_label_2 BinaryOperation 0\n\tvaridx.3 = $binary_op Add(varidx.0, varidx.1)\n\
         label: py_label_3 StoreFast 0\n\tvaridx.2 = $var varidx.3\n\
         label: py_label_4 LoadFast 0\n\tnoop\n\
         label: py_label_5 ReturnValue 0\n\treturn varidx.2\n"
    );
    assert_eq!(
        object.flatten_text(),
        "label\tglobal\tlocal\tstatement\n\
         -\t0\t0\tvaridx.0 = $int 1\n\
         -\t1\t1\tvaridx.1 = $int 2\n\
         0\t2\t0\tnoop\n\
         1\t3\t0\tnoop\n\
         2\t4\t0\tvaridx.3 = $binary_op Add(varidx.0, varidx.1)\n\
         3\t5\t0\tvaridx.2 = $var varidx.3\n\
         4\t6\t0\tnoop\n\
         5\t7\t0\treturn varidx.2\n"
    );
}

#[test]
fn register_form_of_a_conditional_jump() {
    let code = code_of(
        "f",
        &["a"],
        &[],
        Vec::new(),
        plain(vec![Instruction::LoadFast(0), Instruction::JumpIfFalse { target: 0 }]),
    );
    let object = TranspileByteCodeToStatementObject::try_new(&code)
        .unwrap()
        .try_transpile()
        .unwrap();
    assert_eq!(object.varindex_counter(), 2);
    let (label, block) = &object.blocks[2];
    assert_eq!(*label, MyLabel::PyLabel(1));
    assert_eq!(block.statements.len(), 2);
    assert_eq!(block.statements[0].to_text(), "varidx.1 = $unary_op Not(varidx.0)");
    assert_eq!(block.statements[1].to_text(), "jump 0 if varidx.1");
}

#[test]
fn unknown_instruction_stops_the_register_form() {
    let code = code_of("f", &[], &[], Vec::new(), plain(vec![Instruction::ToBool]));
    let transpiler = TranspileByteCodeToStatementObject::try_new(&code).unwrap();
    assert!(transpiler.try_transpile().is_none());
}

#[test]
fn textual_forms() {
    assert_eq!(Varindex(12).as_string(), "varidx.12");
    assert_eq!(MyExpression::Int(-5).as_string(), "$int -5");
    assert_eq!(
        MyExpression::Struct(vec![Varindex(1), Varindex(2)]).as_string(),
        "$struct [varidx.1, varidx.2]"
    );
    assert_eq!(
        MyExpression::CompareOp(ComparisonOperator::LessOrEqual, Varindex(0), Varindex(3))
            .as_string(),
        "$compare_op LessOrEqual(varidx.0, varidx.3)"
    );
    assert_eq!(
        MyExpression::Call(Varindex(0), vec![Varindex(4)]).as_string(),
        "$call varidx.0 (varidx.4)"
    );
    assert_eq!(MyStatement::Jump(4).to_text(), "jump 4");
    assert_eq!(MyStatement::PlaceholderTarget(2).to_text(), "placeholder_target 2");
    assert_eq!(MyLabel::Entry.to_text(), "entry");
    assert_eq!(MyLabel::PyLabel(9).to_text(), "py_label_9");
    assert_eq!(
        stringify_code_object(&CodeUnit { op: Instruction::LoadFast(300), arg: 44 }),
        "LoadFast 44"
    );
}

#[test]
fn types_of_an_assignment_are_resolved() {
    let code = register_code();
    let object = TranspileByteCodeToStatementObject::try_new(&code)
        .unwrap()
        .try_transpile()
        .unwrap();
    let mut resolver = TypeResolver::new(&code, &[], object);
    assert!(resolver.try_solve());
    let keys: Vec<usize> = resolver.varindex_to_types.iter().map(|(v, _)| v.0).collect();
    assert_eq!(keys, vec![0, 1, 3, 2]);
    let rule = "^".repeat(32);
    assert_eq!(
        resolver.report_text(),
        format!(
            "{rule}\nvaridx.0 => int\nvaridx.1 => int\nvaridx.2 => int\nvaridx.3 => int\nreturn types => []\n{rule}\n"
        )
    );
    let map = resolver.try_build().unwrap();
    assert_eq!(map.lhs_types.len(), 4);
    assert!(map.lhs_types.iter().all(|(_, t)| matches!(t, MyType2::Int)));
    assert!(map.return_type.is_none());
}

#[test]
fn types_of_a_range_call_are_resolved() {
    let code = code_of(
        "f",
        &[],
        &["range"],
        vec![small_int(10)],
        plain(vec![
            Instruction::LoadGlobal(0),
            Instruction::LoadConst { idx: 0 },
            Instruction::CallFunctionPositional { nargs: 1 },
            Instruction::ReturnValue,
        ]),
    );
    let object = TranspileByteCodeToStatementObject::try_new(&code)
        .unwrap()
        .try_transpile()
        .unwrap();
    let mut resolver = TypeResolver::new(&code, &[], object);
    resolver.solve();
    let report = resolver.report_text();
    assert!(report.contains("varidx.0 => function range\n"));
    assert!(report.contains("varidx.1 => int\n"));
    assert!(report.contains("varidx.2 => iterator range int\n"));
    let map = resolver.build();
    match &map.lhs_types[2].1 {
        MyType2::Iterator(name, inner) => {
            assert_eq!(name, "range");
            assert!(matches!(**inner, MyType2::Int));
        }
        _ => panic!("expected an iterator"),
    }
}

#[test]
fn variables_without_types_stop_resolution() {
    let code = code_of(
        "add",
        &["a", "b"],
        &[],
        Vec::new(),
        plain(vec![
            Instruction::LoadFast(0),
            Instruction::LoadFast(1),
            Instruction::BinaryOperation { op: BinaryOperator::Add },
            Instruction::ReturnValue,
        ]),
    );
    let object = TranspileByteCodeToStatementObject::try_new(&code)
        .unwrap()
        .try_transpile()
        .unwrap();
    let mut resolver = TypeResolver::new(&code, &[JitType::Int, JitType::Bool], object);
    assert!(!resolver.try_solve());
    let map = resolver.try_build().unwrap();
    assert_eq!(map.varname_types.len(), 2);
    assert_eq!(map.varname_types[0].0, "a");
    assert!(matches!(map.varname_types[1].1, MyType2::Int));
    assert!(matches!(map.argument_types[1], MyType2::Int));
}

#[test]
fn type_texts_and_comparison() {
    let t = MyType1::SolvedStruct(vec![
        MyType1::Int,
        MyType1::Struct(vec![Varindex(3)]),
        MyType1::Iterator("range".to_string(), Box::new(MyType1::Float)),
    ]);
    assert_eq!(t.to_text(), "[int, [varidx.3], iterator range float]");
    assert!(t.same_as(&t.duplicate()));
    assert!(!t.same_as(&MyType1::SolvedStruct(vec![MyType1::Int])));
    assert_eq!(MyType1::Function("len".to_string()).to_text(), "function len");
}

#[test]
fn c_back_end_writes_copies() {
    let code = register_code();
    let object = TranspileByteCodeToStatementObject::try_new(&code)
        .unwrap()
        .try_transpile()
        .unwrap();
    let mut resolver = TypeResolver::new(&code, &[], object.clone());
    resolver.solve();
    let mut frontend = FrontendC::new(resolver.build(), object);
    frontend.transpile();
    assert_eq!(
        frontend.output(),
        "int hello() {\nlabel_entry:\nlabel_0:\nlabel_1:\nlabel_2:\nlabel_3:\nint var_2 = var_3;\nlabel_4:\nlabel_5:\n"
    );
}

fn object_of(statements: Vec<MyStatement>, counter: usize) -> StatementObject {
    StatementObject {
        varname_to_varindex: Vec::new(),
        varnum_to_varindex: Vec::new(),
        constindex_to_varindex: Vec::new(),
        blocks: vec![(MyLabel::Entry, StatementBlock { source: None, statements })],
        varindex_counter: counter,
    }
}

fn no_code() -> CodeObject {
    code_of("f", &[], &[], Vec::new(), Vec::new())
}

fn assign(lhs: usize, rhs: MyExpression) -> MyStatement {
    MyStatement::Assign(Varindex(lhs), rhs)
}

#[test]
fn transpiled_variables_are_below_the_counter() {
    let code = code_of(
        "f",
        &["a", "b"],
        &["range"],
        vec![small_int(3)],
        plain(vec![
            Instruction::LoadFast(0),
            Instruction::LoadConst { idx: 0 },
            Instruction::CompareOperation { op: ComparisonOperator::Less },
            Instruction::JumpIfFalse { target: 0 },
            Instruction::LoadFast(1),
            Instruction::BuildTuple { size: 2 },
            Instruction::StoreFast(1),
        ]),
    );
    let object = TranspileByteCodeToStatementObject::try_new(&code)
        .unwrap()
        .try_transpile()
        .unwrap();
    let counter = object.varindex_counter();
    assert_eq!(counter, 7);
    let mut assigned = 0;
    for (_, block) in object.blocks.iter() {
        for statement in block.statements.iter() {
            if let MyStatement::Assign(lhs, _) = statement {
                assert!(lhs.0 < counter);
                assigned += 1;
            }
        }
    }
    assert_eq!(assigned, 6);
}

#[test]
fn resolution_takes_one_sweep_per_link() {
    let object = object_of(
        vec![
            assign(0, MyExpression::Variable(Varindex(1))),
            assign(1, MyExpression::Variable(Varindex(2))),
            assign(2, MyExpression::Int(5)),
        ],
        3,
    );
    let mut resolver = TypeResolver::new(&no_code(), &[], object);
    assert!(resolver.try_solve());
    let keys: Vec<usize> = resolver.varindex_to_types.iter().map(|(v, _)| v.0).collect();
    assert_eq!(keys, vec![2, 1, 0]);
    assert!(resolver.try_solve());
    let again: Vec<usize> = resolver.varindex_to_types.iter().map(|(v, _)| v.0).collect();
    assert_eq!(again, keys);
}

#[test]
fn a_variable_keeps_its_first_type() {
    let object = object_of(
        vec![assign(0, MyExpression::Int(1)), assign(0, MyExpression::Float64("2.5".to_string()))],
        1,
    );
    let mut resolver = TypeResolver::new(&no_code(), &[], object);
    assert!(!resolver.try_solve());
}

#[test]
fn subscript_follows_copies_of_its_index() {
    let object = object_of(
        vec![
            assign(0, MyExpression::Int(1)),
            assign(1, MyExpression::Variable(Varindex(0))),
            assign(2, MyExpression::Float64("0.5".to_string())),
            assign(3, MyExpression::GlobalFunction("len".to_string())),
            assign(4, MyExpression::Struct(vec![Varindex(2), Varindex(3)])),
            assign(5, MyExpression::Subscript(Varindex(4), Varindex(1))),
        ],
        6,
    );
    let mut resolver = TypeResolver::new(&no_code(), &[], object);
    resolver.solve();
    assert!(resolver.report_text().contains("varidx.5 => function len\n"));
    assert!(resolver.report_text().contains("varidx.4 => [varidx.2, varidx.3]\n"));
    let map = resolver.build();
    match &map.lhs_types[4].1 {
        MyType2::Struct(members) => {
            assert_eq!(members.len(), 2);
            assert!(matches!(members[0], MyType2::Float));
        }
        _ => panic!("expected a structure"),
    }
}

#[test]
fn subscript_with_cyclic_index_stops() {
    let object = object_of(
        vec![
            assign(0, MyExpression::Variable(Varindex(1))),
            assign(1, MyExpression::Variable(Varindex(0))),
            assign(2, MyExpression::Int(7)),
            assign(3, MyExpression::Struct(vec![Varindex(2)])),
            assign(4, MyExpression::Subscript(Varindex(3), Varindex(0))),
        ],
        5,
    );
    let mut resolver = TypeResolver::new(&no_code(), &[], object);
    assert!(!resolver.try_solve());
}

#[test]
fn structure_that_holds_itself_has_no_resolved_type() {
    let object = object_of(vec![assign(0, MyExpression::Struct(vec![Varindex(0)]))], 1);
    let mut resolver = TypeResolver::new(&no_code(), &[], object);
    resolver.solve();
    assert!(resolver.try_build().is_none());
}
