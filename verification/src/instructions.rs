//! The C code generator: a simulated value stack turns each instruction into
//! lines of C, and the lines are wrapped into one C function.

use vstd::prelude::*;

use crate::bigint::{integer_to_i64, integer_value};
use crate::bytecode::{
    BinaryOperator, CodeObject, ComparisonOperator, ConstantData, Instruction, contains_u32,
};
use crate::text::{decimal, push_i64, push_u32, push_usize, signed_decimal, string_of};
use crate::{JitCompileError, JitType, spec_c_type};

verus! {

// ---------------------------------------------------------------------------
// The model: what the generator holds, as mathematical values.
// ---------------------------------------------------------------------------

/// A value on the simulated stack, or a variable: its C text and its type.
pub struct SpecValue {
    pub expr: Seq<char>,
    pub ty: JitType,
}

/// The state of the generator that instructions change.
pub struct GenModel {
    /// The C text of the function body so far
    pub body: Seq<char>,
    /// The simulated stack, bottom first
    pub stack: Seq<SpecValue>,
    /// The C name and type of each local variable that has one
    pub variables: Seq<Option<SpecValue>>,
    /// How many temporaries have been named
    pub temp_counter: nat,
    pub needs_ipow: bool,
    pub needs_math: bool,
}

/// `indent` levels of indentation.
pub open spec fn indentation(indent: nat) -> Seq<char>
    decreases indent,
{
    if indent == 0 {
        Seq::empty()
    } else {
        indentation((indent - 1) as nat) + "    "@
    }
}

/// One line of the body: indented, ended by a newline.
pub open spec fn body_line(indent: nat, text: Seq<char>) -> Seq<char> {
    indentation(indent) + text + "\n"@
}

/// The name of the `n`th temporary.
pub open spec fn temp_name(n: nat) -> Seq<char> {
    "tmp_"@ + decimal(n)
}

/// The C name of a local variable that is not an argument.
pub open spec fn local_name(idx: nat) -> Seq<char> {
    "var_"@ + decimal(idx)
}

/// The label line placed before the instruction at `offset`.
pub open spec fn label_line(offset: nat) -> Seq<char> {
    "label_"@ + decimal(offset) + ":\n"@
}

/// A `goto` to the label of `target`.
pub open spec fn goto_label(target: u32) -> Seq<char> {
    "goto label_"@ + decimal(target as nat) + ";"@
}

impl GenModel {
    pub open spec fn emit(self, indent: nat, text: Seq<char>) -> GenModel {
        GenModel { body: self.body + body_line(indent, text), ..self }
    }

    pub open spec fn push(self, v: SpecValue) -> GenModel {
        GenModel { stack: self.stack.push(v), ..self }
    }

    pub open spec fn top(self) -> SpecValue {
        self.stack.last()
    }

    pub open spec fn pop(self) -> GenModel {
        GenModel { stack: self.stack.drop_last(), ..self }
    }

    /// Declares the next temporary as `ty` on one line and gives it the
    /// value `expr` on the next, and pushes it.
    pub open spec fn declared_temp(self, indent: nat, ty: JitType, expr: Seq<char>) -> GenModel {
        let name = temp_name(self.temp_counter);
        GenModel {
            temp_counter: self.temp_counter + 1,
            ..self.emit(indent, spec_c_type(ty) + " "@ + name + ";"@).emit(indent, name + " = "@ + expr + ";"@)
        }.push(SpecValue { expr: name, ty })
    }

    /// Declares the next temporary as `ty` with value `expr`, and pushes it.
    pub open spec fn temp(self, indent: nat, ty: JitType, expr: Seq<char>) -> GenModel {
        let name = temp_name(self.temp_counter);
        GenModel {
            temp_counter: self.temp_counter + 1,
            ..self.emit(indent, spec_c_type(ty) + " "@ + name + " = "@ + expr + ";"@)
        }.push(SpecValue { expr: name, ty })
    }
}

// ---------------------------------------------------------------------------
// The translation rules.
// ---------------------------------------------------------------------------

/// The C value of a constant, or why it has none.
pub open spec fn spec_prepare_const(c: ConstantData) -> Result<SpecValue, JitCompileError> {
    match c {
        ConstantData::Integer { negative, digits } => {
            let v = integer_value(negative, digits@);
            if i64::MIN <= v <= i64::MAX {
                Ok(SpecValue { expr: signed_decimal(v) + "LL"@, ty: JitType::Int })
            } else {
                Err(JitCompileError::UnsupportedConstant)
            }
        },
        ConstantData::Float { fixed17, shortest: _ } => Ok(
            SpecValue { expr: fixed17@, ty: JitType::Float },
        ),
        ConstantData::Boolean { value } => Ok(
            SpecValue { expr: if value { "1"@ } else { "0"@ }, ty: JitType::Bool },
        ),
        _ => Err(JitCompileError::UnsupportedConstant),
    }
}

/// The C condition that a value is true.
pub open spec fn spec_bool_expr(v: SpecValue) -> Seq<char> {
    match v.ty {
        JitType::Bool => v.expr,
        JitType::Int => "("@ + v.expr + " != 0)"@,
        JitType::Float => "("@ + v.expr + " != 0.0)"@,
    }
}

/// The C operator, with its spaces, of an operator that takes two integers
/// to an integer.
pub open spec fn int_operator(op: BinaryOperator) -> Option<Seq<char>> {
    match op {
        BinaryOperator::Add | BinaryOperator::InplaceAdd => Some(" + "@),
        BinaryOperator::Subtract | BinaryOperator::InplaceSubtract => Some(" - "@),
        BinaryOperator::Multiply | BinaryOperator::InplaceMultiply => Some(" * "@),
        BinaryOperator::FloorDivide | BinaryOperator::InplaceFloorDivide => Some(" / "@),
        BinaryOperator::Remainder | BinaryOperator::InplaceRemainder => Some(" % "@),
        BinaryOperator::Lshift | BinaryOperator::InplaceLshift => Some(" << "@),
        BinaryOperator::Rshift | BinaryOperator::InplaceRshift => Some(" >> "@),
        BinaryOperator::And | BinaryOperator::InplaceAnd => Some(" & "@),
        BinaryOperator::Or | BinaryOperator::InplaceOr => Some(" | "@),
        BinaryOperator::Xor | BinaryOperator::InplaceXor => Some(" ^ "@),
        _ => None,
    }
}

/// The C operator, with its spaces, of an operator that takes two doubles to
/// a double.
pub open spec fn float_operator(op: BinaryOperator) -> Option<Seq<char>> {
    match op {
        BinaryOperator::Add | BinaryOperator::InplaceAdd => Some(" + "@),
        BinaryOperator::Subtract | BinaryOperator::InplaceSubtract => Some(" - "@),
        BinaryOperator::Multiply | BinaryOperator::InplaceMultiply => Some(" * "@),
        BinaryOperator::TrueDivide | BinaryOperator::InplaceTrueDivide => Some(" / "@),
        _ => None,
    }
}

pub open spec fn is_power(op: BinaryOperator) -> bool {
    op == BinaryOperator::Power || op == BinaryOperator::InplacePower
}

pub open spec fn is_true_divide(op: BinaryOperator) -> bool {
    op == BinaryOperator::TrueDivide || op == BinaryOperator::InplaceTrueDivide
}

/// A numeric value as a C double: an integer gets a cast.
pub open spec fn as_double(v: SpecValue) -> Seq<char> {
    if v.ty == JitType::Int {
        "(double)"@ + v.expr
    } else {
        v.expr
    }
}

/// The result of a binary operation: its type, its C expression, and
/// whether it needs the integer power helper or `math.h`.
pub struct BinaryResult {
    pub ty: JitType,
    pub expr: Seq<char>,
    pub ipow: bool,
    pub math: bool,
}

/// How `a op b` is written in C, or `None` where the operation is not
/// supported.
///
/// Two integers stay integers, but for true division and for the power,
/// which goes through the `__jit_ipow` helper; an operation with a float
/// gives a double, the integer operand being cast; booleans take part in
/// no arithmetic.
pub open spec fn spec_binary(op: BinaryOperator, a: SpecValue, b: SpecValue) -> Option<
    BinaryResult,
> {
    if a.ty == JitType::Int && b.ty == JitType::Int {
        if int_operator(op) is Some {
            Some(
                BinaryResult {
                    ty: JitType::Int,
                    expr: a.expr + int_operator(op).unwrap() + b.expr,
                    ipow: false,
                    math: false,
                },
            )
        } else if is_true_divide(op) {
            Some(
                BinaryResult {
                    ty: JitType::Float,
                    expr: as_double(a) + " / "@ + as_double(b),
                    ipow: false,
                    math: false,
                },
            )
        } else if is_power(op) {
            Some(
                BinaryResult {
                    ty: JitType::Int,
                    expr: "__jit_ipow("@ + a.expr + ", "@ + b.expr + ")"@,
                    ipow: true,
                    math: false,
                },
            )
        } else {
            None
        }
    } else if a.ty != JitType::Bool && b.ty != JitType::Bool {
        if float_operator(op) is Some {
            Some(
                BinaryResult {
                    ty: JitType::Float,
                    expr: as_double(a) + float_operator(op).unwrap() + as_double(b),
                    ipow: false,
                    math: false,
                },
            )
        } else if is_power(op) {
            Some(
                BinaryResult {
                    ty: JitType::Float,
                    expr: "pow("@ + as_double(a) + ", "@ + as_double(b) + ")"@,
                    ipow: false,
                    math: true,
                },
            )
        } else {
            None
        }
    } else {
        None
    }
}

/// The operator that an in-place operator stands for; others stand for
/// themselves.
pub open spec fn plain_operator(op: BinaryOperator) -> BinaryOperator {
    match op {
        BinaryOperator::InplaceAdd => BinaryOperator::Add,
        BinaryOperator::InplaceAnd => BinaryOperator::And,
        BinaryOperator::InplaceFloorDivide => BinaryOperator::FloorDivide,
        BinaryOperator::InplaceLshift => BinaryOperator::Lshift,
        BinaryOperator::InplaceMatrixMultiply => BinaryOperator::MatrixMultiply,
        BinaryOperator::InplaceMultiply => BinaryOperator::Multiply,
        BinaryOperator::InplaceRemainder => BinaryOperator::Remainder,
        BinaryOperator::InplaceOr => BinaryOperator::Or,
        BinaryOperator::InplacePower => BinaryOperator::Power,
        BinaryOperator::InplaceRshift => BinaryOperator::Rshift,
        BinaryOperator::InplaceSubtract => BinaryOperator::Subtract,
        BinaryOperator::InplaceTrueDivide => BinaryOperator::TrueDivide,
        BinaryOperator::InplaceXor => BinaryOperator::Xor,
        _ => op,
    }
}

/// An in-place operator is written as the operator it stands for.
pub proof fn lemma_inplace_as_plain(op: BinaryOperator, a: SpecValue, b: SpecValue)
    ensures
        spec_binary(op, a, b) == spec_binary(plain_operator(op), a, b),
{
}

/// The type of arithmetic: two integers give an integer, but for true
/// division, which gives a double; an operation with a float gives a
/// double; a boolean takes part in none. On two integers, exactly the
/// integer operators, true division and the power are written.
pub proof fn lemma_binary_result_type(op: BinaryOperator, a: SpecValue, b: SpecValue)
    ensures
        spec_binary(op, a, b) matches Some(r) ==> {
            &&& a.ty != JitType::Bool && b.ty != JitType::Bool
            &&& (r.ty == JitType::Int <==> (a.ty == JitType::Int && b.ty == JitType::Int
                && !is_true_divide(op)))
            &&& (r.ty != JitType::Int ==> r.ty == JitType::Float)
            &&& (r.ipow <==> (a.ty == JitType::Int && b.ty == JitType::Int && is_power(op)))
        },
        (a.ty == JitType::Int && b.ty == JitType::Int) ==> (spec_binary(op, a, b) is Some <==> (
        int_operator(op) is Some || is_true_divide(op) || is_power(op))),
{
}

/// The C spelling of a comparison operator.
pub open spec fn spec_compare_operator(op: ComparisonOperator) -> Seq<char> {
    match op {
        ComparisonOperator::Less => "<"@,
        ComparisonOperator::Greater => ">"@,
        ComparisonOperator::Equal => "=="@,
        ComparisonOperator::NotEqual => "!="@,
        ComparisonOperator::LessOrEqual => "<="@,
        ComparisonOperator::GreaterOrEqual => ">="@,
    }
}

/// The C condition of `ToBool` on a value.
pub open spec fn spec_to_bool(v: SpecValue) -> Seq<char> {
    match v.ty {
        JitType::Int => v.expr + " != 0"@,
        JitType::Float => v.expr + " != 0.0"@,
        JitType::Bool => v.expr,
    }
}

/// Storing `v` into local variable `idx`. `None` where the index is out of
/// range, which the translation does not survive.
pub open spec fn spec_store(s: GenModel, n_args: nat, indent: nat, idx: nat, v: SpecValue) -> Option<
    Result<GenModel, JitCompileError>,
> {
    if idx >= s.variables.len() {
        None
    } else if idx < n_args {
        match s.variables[idx as int] {
            None => Some(Err(JitCompileError::BadBytecode)),
            Some(var) => if var.ty != v.ty {
                Some(Err(JitCompileError::TypeMismatch))
            } else {
                Some(Ok(s.emit(indent, var.expr + " = "@ + v.expr + ";"@)))
            },
        }
    } else {
        match s.variables[idx as int] {
            Some(existing) => if existing.ty != v.ty {
                Some(Err(JitCompileError::TypeMismatch))
            } else {
                Some(Ok(s.emit(indent, existing.expr + " = "@ + v.expr + ";"@)))
            },
            None => {
                let declared = s.emit(
                    indent,
                    spec_c_type(v.ty) + " "@ + local_name(idx) + " = "@ + v.expr + ";"@,
                );
                Some(
                    Ok(
                        GenModel {
                            variables: declared.variables.update(
                                idx as int,
                                Some(SpecValue { expr: local_name(idx), ty: v.ty }),
                            ),
                            ..declared
                        },
                    ),
                )
            },
        }
    }
}

/// The effect of one instruction on the generator: the new state, the
/// error that stops the translation, or `None` where an index or the stack
/// is out of range and the translation does not survive.
#[verifier::opaque]
pub open spec fn spec_step(
    constants: Seq<ConstantData>,
    n_args: nat,
    indent: nat,
    s: GenModel,
    op: Instruction,
) -> Option<Result<GenModel, JitCompileError>> {
    let len = s.stack.len();
    match op {
        Instruction::LoadConst { idx } => if idx >= constants.len() {
            None
        } else {
            match spec_prepare_const(constants[idx as int]) {
                Ok(v) => Some(Ok(s.push(v))),
                Err(e) => Some(Err(e)),
            }
        },
        Instruction::LoadFast(idx) => if idx >= s.variables.len() {
            None
        } else {
            match s.variables[idx as int] {
                Some(var) => Some(Ok(s.push(var))),
                None => Some(Err(JitCompileError::BadBytecode)),
            }
        },
        Instruction::StoreFast(idx) => if len == 0 {
            Some(Err(JitCompileError::BadBytecode))
        } else {
            spec_store(s.pop(), n_args, indent, idx as nat, s.top())
        },
        Instruction::BinaryOp { op } => if len < 2 {
            Some(Err(JitCompileError::BadBytecode))
        } else {
            let a = s.stack[len - 2];
            let b = s.stack[len - 1];
            match spec_binary(op, a, b) {
                None => Some(Err(JitCompileError::NotSupported)),
                Some(r) => Some(
                    Ok(
                        GenModel {
                            needs_ipow: s.needs_ipow || r.ipow,
                            needs_math: s.needs_math || r.math,
                            ..s.pop().pop()
                        }.declared_temp(indent, r.ty, r.expr),
                    ),
                ),
            }
        },
        Instruction::CompareOperation { op } => if len < 2 {
            Some(Err(JitCompileError::BadBytecode))
        } else {
            let a = s.stack[len - 2];
            let b = s.stack[len - 1];
            Some(
                Ok(
                    s.pop().pop().temp(
                        indent,
                        JitType::Bool,
                        a.expr + " "@ + spec_compare_operator(op) + " "@ + b.expr,
                    ),
                ),
            )
        },
        Instruction::UnaryNegative => if len == 0 {
            Some(Err(JitCompileError::BadBytecode))
        } else {
            Some(Ok(s.pop().temp(indent, s.top().ty, "-"@ + s.top().expr)))
        },
        Instruction::UnaryNot => if len == 0 {
            Some(Err(JitCompileError::BadBytecode))
        } else {
            Some(Ok(s.pop().temp(indent, JitType::Bool, "!"@ + s.top().expr)))
        },
        Instruction::ToBool => if len == 0 {
            Some(Err(JitCompileError::BadBytecode))
        } else {
            Some(Ok(s.pop().temp(indent, JitType::Bool, spec_to_bool(s.top()))))
        },
        Instruction::ReturnValue => if len == 0 {
            Some(Err(JitCompileError::BadBytecode))
        } else {
            Some(Ok(s.pop().emit(indent, "return "@ + s.top().expr + ";"@)))
        },
        Instruction::ReturnConst { idx } => if idx >= constants.len() {
            None
        } else {
            match spec_prepare_const(constants[idx as int]) {
                Ok(v) => Some(Ok(s.emit(indent, "return "@ + v.expr + ";"@))),
                Err(e) => Some(Err(e)),
            }
        },
        Instruction::Jump { target } => Some(Ok(s.emit(indent, goto_label(target)))),
        Instruction::PopJumpIfFalse { target } => if len == 0 {
            Some(Err(JitCompileError::BadBytecode))
        } else {
            Some(
                Ok(
                    s.pop().emit(
                        indent,
                        "if (!"@ + spec_bool_expr(s.top()) + ") "@ + goto_label(target),
                    ),
                ),
            )
        },
        Instruction::PopJumpIfTrue { target } => if len == 0 {
            Some(Err(JitCompileError::BadBytecode))
        } else {
            Some(
                Ok(
                    s.pop().emit(
                        indent,
                        "if ("@ + spec_bool_expr(s.top()) + ") "@ + goto_label(target),
                    ),
                ),
            )
        },
        Instruction::PopTop => if len == 0 {
            Some(Err(JitCompileError::BadBytecode))
        } else {
            Some(Ok(s.pop()))
        },
        Instruction::Nop | Instruction::Resume | Instruction::ExtendedArg | Instruction::PopBlock => {
            Some(Ok(s))
        },
        Instruction::Swap { index } => if len == 0 || index >= len {
            None
        } else {
            let i = len - 1;
            let j = len - 1 - index;
            Some(
                Ok(
                    GenModel {
                        stack: s.stack.update(i, s.stack[j]).update(j, s.stack[i]),
                        ..s
                    },
                ),
            )
        },
        Instruction::CopyItem { index } => if index >= len {
            None
        } else {
            Some(Ok(s.push(s.stack[len - 1 - index])))
        },
        _ => Some(Err(JitCompileError::NotSupported)),
    }
}

/// The generator after the first `k` instructions of `units`, starting from
/// `s0`; labels are placed before the instructions at the offsets in
/// `targets`.
pub open spec fn spec_run(
    code: CodeObject,
    n_args: nat,
    indent: nat,
    targets: Set<u32>,
    s0: GenModel,
    k: nat,
) -> Option<Result<GenModel, JitCompileError>>
    decreases k,
{
    if k == 0 {
        Some(Ok(s0))
    } else {
        match spec_run(code, n_args, indent, targets, s0, (k - 1) as nat) {
            Some(Ok(s)) => {
                let offset = (k - 1) as nat;
                let labelled = if targets.contains(offset as u32) {
                    GenModel { body: s.body + label_line(offset), ..s }
                } else {
                    s
                };
                spec_step(
                    code.constants@,
                    n_args,
                    indent,
                    labelled,
                    code.instructions@[offset as int].op,
                )
            },
            other => other,
        }
    }
}

/// Once the translation stops, it stays stopped.
pub proof fn lemma_run_stops(
    code: CodeObject,
    n_args: nat,
    indent: nat,
    targets: Set<u32>,
    s0: GenModel,
    k: nat,
    k2: nat,
)
    requires
        k <= k2,
        !(spec_run(code, n_args, indent, targets, s0, k) matches Some(Ok(_))),
    ensures
        spec_run(code, n_args, indent, targets, s0, k2) == spec_run(code, n_args, indent, targets, s0, k),
    decreases k2,
{
    if k2 > k {
        lemma_run_stops(code, n_args, indent, targets, s0, k, (k2 - 1) as nat);
    }
}

/// Joins texts with a separator.
pub open spec fn join(parts: Seq<Seq<char>>, sep: Seq<char>) -> Seq<char>
    decreases parts.len(),
{
    if parts.len() == 0 {
        Seq::empty()
    } else if parts.len() == 1 {
        parts[0]
    } else {
        join(parts.drop_last(), sep) + sep + parts.last()
    }
}

/// The helper that integer powers call.
pub open spec fn ipow_helper() -> Seq<char> {
    "static int64_t __jit_ipow(int64_t base, int64_t exp) {\n"@ + "    if (exp < 0) return 0;\n"@
        + "    int64_t result = 1;\n"@ + "    while (exp > 0) {\n"@
        + "        if (exp & 1) result *= base;\n"@ + "        base *= base;\n"@
        + "        exp >>= 1;\n"@ + "    }\n"@ + "    return result;\n"@ + "}\n\n"@
}

/// The parameter list: each argument's C type and name, as many as there
/// are both.
pub open spec fn params(arg_types: Seq<JitType>, arg_names: Seq<Seq<char>>) -> Seq<Seq<char>> {
    let n = if arg_types.len() <= arg_names.len() {
        arg_types.len()
    } else {
        arg_names.len()
    };
    Seq::new(n, |i: int| spec_c_type(arg_types[i]) + " "@ + arg_names[i])
}

/// The whole C text: includes, the power helper where it is needed, the
/// signature and the body.
pub open spec fn spec_into_code(
    ret_type: Option<JitType>,
    func_name: Seq<char>,
    arg_types: Seq<JitType>,
    arg_names: Seq<Seq<char>>,
    s: GenModel,
) -> Seq<char> {
    "#include <stdint.h>\n"@ + (if s.needs_math {
        "#include <math.h>\n"@
    } else {
        Seq::empty()
    }) + "\n"@ + (if s.needs_ipow {
        ipow_helper()
    } else {
        Seq::empty()
    }) + (match ret_type {
        Some(t) => spec_c_type(t),
        None => "void"@,
    }) + " "@ + func_name + "("@ + join(params(arg_types, arg_names), ", "@) + ") {\n"@ + s.body
        + "}\n"@
}

/// The names of the first `n` variables.
pub open spec fn arg_names_of(code: CodeObject, n: nat) -> Seq<Seq<char>> {
    code.varnames@.take(n as int).map_values(|s: String| s@)
}

/// The generator before any instruction: each argument is a variable under
/// its own name.
pub open spec fn initial_model(code: CodeObject, args: Seq<JitType>) -> GenModel {
    GenModel {
        body: Seq::empty(),
        stack: Seq::empty(),
        variables: Seq::new(
            code.varnames@.len(),
            |i: int|
                if i < args.len() {
                    Some(SpecValue { expr: code.varnames@[i]@, ty: args[i] })
                } else {
                    None
                },
        ),
        temp_counter: 0,
        needs_ipow: false,
        needs_math: false,
    }
}

/// The labels targeted by the instructions of a code object.
pub open spec fn target_set(code: CodeObject) -> Set<u32> {
    Set::new(|t: u32| crate::bytecode::is_label_target(code.instructions@, t))
}

/// The C text of a function, or why it cannot be translated; `None` where
/// an index or the stack goes out of range, or where there are more
/// argument types than variables.
pub open spec fn spec_compile(code: CodeObject, args: Seq<JitType>, ret: Option<JitType>) -> Option<
    Result<Seq<char>, JitCompileError>,
> {
    if args.len() > code.varnames@.len() {
        None
    } else {
        match spec_run(
            code,
            args.len(),
            1,
            target_set(code),
            initial_model(code, args),
            code.instructions@.len(),
        ) {
            None => None,
            Some(Err(e)) => Some(Err(e)),
            Some(Ok(s)) => Some(
                Ok(spec_into_code(ret, code.obj_name@, args, arg_names_of(code, args.len()), s)),
            ),
        }
    }
}

// ---------------------------------------------------------------------------
// The generator.
// ---------------------------------------------------------------------------

/// Represents a value on the simulated stack during C code generation
struct CValue {
    /// The C expression representing this value
    expr: String,
    /// The type of this value
    ty: JitType,
}

/// Represents a local variable in the generated C code
struct CVariable {
    /// The C variable name
    name: String,
    /// The type of this variable
    ty: JitType,
}

impl CValue {
    spec fn model(self) -> SpecValue {
        SpecValue { expr: self.expr@, ty: self.ty }
    }

    fn duplicate(&self) -> (r: CValue)
        ensures
            r.model() == self.model(),
    {
        CValue { expr: self.expr.clone(), ty: self.ty }
    }
}

spec fn variable_model(v: Option<CVariable>) -> Option<SpecValue> {
    match v {
        Some(var) => Some(SpecValue { expr: var.name@, ty: var.ty }),
        None => None,
    }
}

/// Why one step of the translation did not go on.
enum Stop {
    /// The translation fails with this error
    Error(JitCompileError),
    /// An index or the stack is out of range: the translation has no result
    OutOfRange,
}

/// The outcome of a step as the specification gives it.
spec fn stop_matches(r: Result<(), Stop>, spec: Option<Result<GenModel, JitCompileError>>, m: GenModel) -> bool {
    match r {
        Ok(()) => spec == Some(Ok::<GenModel, JitCompileError>(m)),
        Err(Stop::Error(e)) => spec == Some(Err::<GenModel, JitCompileError>(e)),
        Err(Stop::OutOfRange) => spec is None,
    }
}

spec fn pop_jump_instruction(target: u32, when_true: bool) -> Instruction {
    if when_true {
        Instruction::PopJumpIfTrue { target }
    } else {
        Instruction::PopJumpIfFalse { target }
    }
}

/// How many operands an instruction pops before it can fail: a binary
/// operation or comparison pops two, a store one, others none.
pub open spec fn operands_before_failure(op: Instruction) -> nat {
    match op {
        Instruction::BinaryOp { .. } => 2,
        Instruction::CompareOperation { .. } => 2,
        Instruction::StoreFast(_) => 1,
        _ => 0,
    }
}

/// The generator after an instruction fails with an error: as it was, but
/// for the operands popped before the failure, as many as the stack held.
pub open spec fn failed_step_model(s: GenModel, op: Instruction) -> GenModel {
    let k = operands_before_failure(op);
    if k == 0 || s.stack.len() == 0 {
        s
    } else if k == 1 || s.stack.len() == 1 {
        s.pop()
    } else {
        s.pop().pop()
    }
}

/// What one instruction does to the generator, as `spec_step` says.
spec fn step_post(
    o: CCodeGenerator,
    n: CCodeGenerator,
    constants: Seq<ConstantData>,
    op: Instruction,
    r: Result<(), Stop>,
) -> bool {
    &&& stop_matches(
        r,
        spec_step(constants, o.arg_types@.len(), o.indent as nat, o.model(), op),
        n.model(),
    )
    &&& (r matches Err(Stop::Error(_)) ==> n.model() == failed_step_model(o.model(), op))
    &&& n.same_frame(&o)
    &&& n.wf()
    &&& n.model().temp_counter <= o.model().temp_counter + 1
}

/// C code generator that translates Python bytecode to C source code
pub struct CCodeGenerator {
    /// The generated C code (function body)
    body: String,
    /// Simulated value stack
    stack: Vec<CValue>,
    /// Local variables (indexed by bytecode variable index)
    variables: Vec<Option<CVariable>>,
    /// Counter for generating unique temporary variable names
    temp_counter: usize,
    /// Set of labels that are jump targets
    label_targets: Vec<u32>,
    /// Function argument types
    arg_types: Vec<JitType>,
    /// Function return type
    ret_type: Option<JitType>,
    /// Function name
    func_name: String,
    /// Argument names from bytecode
    arg_names: Vec<String>,
    /// Whether we need the ipow helper function
    needs_ipow: bool,
    /// Whether we need the math.h include for pow()
    needs_math: bool,
    /// Current indentation level
    indent: usize,
}

impl CCodeGenerator {
    /// The part of the generator that instructions change.
    pub closed spec fn model(&self) -> GenModel {
        GenModel {
            body: self.body@,
            stack: self.stack@.map_values(|v: CValue| v.model()),
            variables: self.variables@.map_values(|v: Option<CVariable>| variable_model(v)),
            temp_counter: self.temp_counter as nat,
            needs_ipow: self.needs_ipow,
            needs_math: self.needs_math,
        }
    }

    /// The labels before which the generator places a label line.
    pub closed spec fn targets(&self) -> Set<u32> {
        self.label_targets@.to_set()
    }

    pub closed spec fn spec_arg_types(&self) -> Seq<JitType> {
        self.arg_types@
    }

    pub closed spec fn spec_arg_names(&self) -> Seq<Seq<char>> {
        self.arg_names@.map_values(|s: String| s@)
    }

    pub closed spec fn spec_ret_type(&self) -> Option<JitType> {
        self.ret_type
    }

    pub closed spec fn spec_func_name(&self) -> Seq<char> {
        self.func_name@
    }

    pub closed spec fn spec_indent(&self) -> nat {
        self.indent as nat
    }

    /// The generator's own consistency: every argument has a name and a
    /// variable.
    pub closed spec fn wf(&self) -> bool {
        &&& self.indent == 1
        &&& self.arg_types@.len() == self.arg_names@.len()
        &&& self.arg_types@.len() <= self.variables@.len()
    }

    /// Create a new C code generator
    pub fn new(bytecode: &CodeObject, arg_types: &[JitType], ret_type: Option<JitType>) -> (r: Result<
        Self,
        JitCompileError,
    >)
        requires
            arg_types@.len() <= bytecode.varnames@.len(),
        ensures
            r matches Ok(g) && {
                &&& g.wf()
                &&& g.model() == initial_model(*bytecode, arg_types@)
                &&& g.targets() == target_set(*bytecode)
                &&& g.spec_arg_types() == arg_types@
                &&& g.spec_arg_names() == arg_names_of(*bytecode, arg_types@.len())
                &&& g.spec_ret_type() == ret_type
                &&& g.spec_func_name() == bytecode.obj_name@
                &&& g.spec_indent() == 1
            },
    {
        let num_variables = bytecode.varnames.len();
        let func_name = bytecode.obj_name.clone();
        let n_args = arg_types.len();
        let mut arg_names: Vec<String> = Vec::new();
        let mut types: Vec<JitType> = Vec::new();
        let mut variables: Vec<Option<CVariable>> = Vec::new();
        for i in 0..num_variables
            invariant
                num_variables == bytecode.varnames@.len(),
                n_args == arg_types@.len(),
                n_args <= num_variables,
                variables@.len() == i,
                arg_names@.len() == if i < n_args { i as nat } else { n_args as nat },
                types@.len() == arg_names@.len(),
                forall|j: int| 0 <= j < arg_names@.len() ==> arg_names@[j] == bytecode.varnames@[j],
                forall|j: int| 0 <= j < types@.len() ==> types@[j] == arg_types@[j],
                forall|j: int|
                    0 <= j < i ==> #[trigger] variable_model(variables@[j]) == (if j < n_args {
                        Some(SpecValue { expr: bytecode.varnames@[j]@, ty: arg_types@[j] })
                    } else {
                        None::<SpecValue>
                    }),
        {
            if i < n_args {
                let name = bytecode.varnames[i].clone();
                arg_names.push(bytecode.varnames[i].clone());
                types.push(arg_types[i]);
                variables.push(Some(CVariable { name, ty: arg_types[i] }));
            } else {
                variables.push(None);
            }
        }
        let label_targets = bytecode.label_targets();
        let generator = CCodeGenerator {
            body: String::new(),
            stack: Vec::new(),
            variables,
            temp_counter: 0,
            label_targets,
            arg_types: types,
            ret_type,
            func_name,
            arg_names,
            needs_ipow: false,
            needs_math: false,
            indent: 1,
        };
        proof {
            assert(generator.model().variables =~= initial_model(*bytecode, arg_types@).variables);
            assert(generator.model().stack =~= Seq::<SpecValue>::empty());
            assert(generator.model() == initial_model(*bytecode, arg_types@));
            assert(generator.targets() =~= target_set(*bytecode));
            assert(generator.spec_arg_types() =~= arg_types@);
            assert(generator.spec_arg_names() =~= arg_names_of(*bytecode, arg_types@.len()));
        }
        Ok(generator)
    }

    /// The parts that instructions do not change are those of `other`.
    closed spec fn same_frame(&self, other: &Self) -> bool {
        &&& self.label_targets == other.label_targets
        &&& self.arg_types == other.arg_types
        &&& self.ret_type == other.ret_type
        &&& self.func_name == other.func_name
        &&& self.arg_names == other.arg_names
        &&& self.indent == other.indent
        &&& self.variables@.len() == other.variables@.len()
    }

    /// Generate a unique temporary variable name
    fn new_temp(&mut self, _ty: &JitType) -> (r: String)
        requires
            old(self).temp_counter < usize::MAX,
        ensures
            r@ == temp_name(old(self).model().temp_counter),
            final(self).model() == (GenModel {
                temp_counter: old(self).model().temp_counter + 1,
                ..old(self).model()
            }),
            final(self).same_frame(old(self)),
    {
        proof {
            reveal_strlit("tmp_");
        }
        let mut name = string_of("tmp_");
        push_usize(&mut name, self.temp_counter);
        self.temp_counter += 1;
        name
    }

    /// Write an indented line to the body
    fn writeln(&mut self, line: &str)
        ensures
            final(self).model() == old(self).model().emit(old(self).indent as nat, line@),
            final(self).same_frame(old(self)),
    {
        proof {
            reveal_strlit("    ");
            reveal_strlit("\n");
        }
        let n = self.indent;
        for i in 0..n
            invariant
                n == self.indent,
                self.body@ == old(self).body@ + indentation(i as nat),
                self.stack == old(self).stack,
                self.variables == old(self).variables,
                self.temp_counter == old(self).temp_counter,
                self.needs_ipow == old(self).needs_ipow,
                self.needs_math == old(self).needs_math,
                self.same_frame(old(self)),
        {
            self.body.append("    ");
            assert(indentation((i + 1) as nat) == indentation(i as nat) + "    "@);
            assert(self.body@ =~= old(self).body@ + indentation((i + 1) as nat));
        }
        self.body.append(line);
        self.body.append("\n");
        assert(self.body@ =~= old(self).body@ + body_line(old(self).indent as nat, line@));
    }

    /// Pop a value from the stack
    fn pop(&mut self) -> (r: Result<CValue, JitCompileError>)
        ensures
            old(self).model().stack.len() == 0 ==> r == Err::<CValue, JitCompileError>(
                JitCompileError::BadBytecode,
            ) && final(self).model() == old(self).model(),
            old(self).model().stack.len() > 0 ==> (r matches Ok(v) && v.model() == old(
                self,
            ).model().top() && final(self).model() == old(self).model().pop()),
            final(self).same_frame(old(self)),
    {
        match self.stack.pop() {
            Some(v) => {
                assert(self.model().stack =~= old(self).model().pop().stack);
                Ok(v)
            },
            None => Err(JitCompileError::BadBytecode),
        }
    }

    /// Push a value onto the stack
    fn push(&mut self, value: CValue)
        ensures
            final(self).model() == old(self).model().push(value.model()),
            final(self).same_frame(old(self)),
    {
        self.stack.push(value);
        assert(self.model().stack =~= old(self).model().push(value.model()).stack);
    }

    /// Declares the next temporary as `ty` with value `expr`, and pushes it.
    fn emit_temp(&mut self, ty: JitType, expr: &str)
        requires
            old(self).temp_counter < usize::MAX,
        ensures
            final(self).model() == old(self).model().temp(old(self).indent as nat, ty, expr@),
            final(self).same_frame(old(self)),
    {
        proof {
            reveal_strlit(" ");
            reveal_strlit(" = ");
            reveal_strlit(";");
        }
        let temp = self.new_temp(&ty);
        let mut line = string_of(ty.to_c_type());
        line.append(" ");
        line.append(temp.as_str());
        line.append(" = ");
        line.append(expr);
        line.append(";");
        self.writeln(line.as_str());
        self.push(CValue { expr: temp, ty });
        assert(line@ =~= spec_c_type(ty) + " "@ + temp_name(old(self).model().temp_counter) + " = "@
            + expr@ + ";"@);
    }

    /// Declares a new temporary of type `ty`, then assigns it `expr` and
    /// pushes it.
    fn emit_declared_temp(&mut self, ty: JitType, expr: &str)
        requires
            old(self).temp_counter < usize::MAX,
        ensures
            final(self).model() == old(self).model().declared_temp(old(self).indent as nat, ty, expr@),
            final(self).same_frame(old(self)),
    {
        proof {
            reveal_strlit(" ");
            reveal_strlit(" = ");
            reveal_strlit(";");
        }
        let temp = self.new_temp(&ty);
        let mut declaration = string_of(ty.to_c_type());
        declaration.append(" ");
        declaration.append(temp.as_str());
        declaration.append(";");
        self.writeln(declaration.as_str());
        let mut assignment = temp.clone();
        assignment.append(" = ");
        assignment.append(expr);
        assignment.append(";");
        self.writeln(assignment.as_str());
        self.push(CValue { expr: temp, ty });
        assert(declaration@ =~= spec_c_type(ty) + " "@ + temp_name(old(self).model().temp_counter) + ";"@);
        assert(assignment@ =~= temp_name(old(self).model().temp_counter) + " = "@ + expr@ + ";"@);
    }

    /// Store a value in a local variable
    fn store_variable(&mut self, idx: u32, value: CValue) -> (r: Result<(), Stop>)
        requires
            old(self).wf(),
        ensures
            stop_matches(
                r,
                spec_store(
                    old(self).model(),
                    old(self).arg_types@.len(),
                    old(self).indent as nat,
                    idx as nat,
                    value.model(),
                ),
                final(self).model(),
            ),
            r is Err ==> final(self).model() == old(self).model(),
            final(self).same_frame(old(self)),
            final(self).model().temp_counter == old(self).model().temp_counter,
            final(self).wf(),
    {
        proof {
            reveal_strlit(" ");
            reveal_strlit(" = ");
            reveal_strlit(";");
            reveal_strlit("var_");
        }
        let idx = idx as usize;
        if idx >= self.variables.len() {
            return Err(Stop::OutOfRange);
        }
        assert(variable_model(self.variables@[idx as int]) == self.model().variables[idx as int]);
        if idx < self.arg_types.len() {
            // Re-assigning to an argument - need to emit assignment
            match &self.variables[idx] {
                None => Err(Stop::Error(JitCompileError::BadBytecode)),
                Some(var) => {
                    if var.ty != value.ty {
                        return Err(Stop::Error(JitCompileError::TypeMismatch));
                    }
                    let mut line = var.name.clone();
                    line.append(" = ");
                    line.append(value.expr.as_str());
                    line.append(";");
                    assert(line@ =~= var.name@ + " = "@ + value.expr@ + ";"@);
                    self.writeln(line.as_str());
                    Ok(())
                },
            }
        } else {
            match &self.variables[idx] {
                Some(existing) => {
                    // Variable already exists, just assign
                    if existing.ty != value.ty {
                        return Err(Stop::Error(JitCompileError::TypeMismatch));
                    }
                    let mut line = existing.name.clone();
                    line.append(" = ");
                    line.append(value.expr.as_str());
                    line.append(";");
                    assert(line@ =~= existing.name@ + " = "@ + value.expr@ + ";"@);
                    self.writeln(line.as_str());
                    Ok(())
                },
                None => {
                    // New variable - declare and assign
                    let mut var_name = string_of("var_");
                    push_usize(&mut var_name, idx);
                    let mut line = string_of(value.ty.to_c_type());
                    line.append(" ");
                    line.append(var_name.as_str());
                    line.append(" = ");
                    line.append(value.expr.as_str());
                    line.append(";");
                    assert(line@ =~= spec_c_type(value.ty) + " "@ + local_name(idx as nat) + " = "@
                        + value.expr@ + ";"@);
                    self.writeln(line.as_str());
                    let ghost declared = self.model();
                    self.variables.set(idx, Some(CVariable { name: var_name, ty: value.ty }));
                    assert(self.model().variables =~= declared.variables.update(
                        idx as int,
                        Some(SpecValue { expr: local_name(idx as nat), ty: value.ty }),
                    ));
                    Ok(())
                },
            }
        }
    }

    /// Load a local variable onto the stack
    fn load_variable(&mut self, idx: u32) -> (r: Result<(), Stop>)
        ensures
            stop_matches(
                r,
                if idx >= old(self).model().variables.len() {
                    None
                } else {
                    match old(self).model().variables[idx as int] {
                        Some(var) => Some(Ok(old(self).model().push(var))),
                        None => Some(Err(JitCompileError::BadBytecode)),
                    }
                },
                final(self).model(),
            ),
            r is Err ==> final(self).model() == old(self).model(),
            final(self).same_frame(old(self)),
            final(self).model().temp_counter == old(self).model().temp_counter,
    {
        let idx = idx as usize;
        if idx >= self.variables.len() {
            return Err(Stop::OutOfRange);
        }
        assert(variable_model(self.variables@[idx as int]) == self.model().variables[idx as int]);
        let value = match &self.variables[idx] {
            Some(var) => CValue { expr: var.name.clone(), ty: var.ty },
            None => return Err(Stop::Error(JitCompileError::BadBytecode)),
        };
        self.push(value);
        Ok(())
    }

    /// Pops a value, or stops with the error of an empty stack.
    fn pop_or_stop(&mut self) -> (r: Result<CValue, Stop>)
        ensures
            old(self).model().stack.len() == 0 ==> (r matches Err(Stop::Error(e)) && e
                == JitCompileError::BadBytecode && final(self).model() == old(self).model()),
            old(self).model().stack.len() > 0 ==> (r matches Ok(v) && v.model() == old(
                self,
            ).model().top() && final(self).model() == old(self).model().pop()),
            final(self).same_frame(old(self)),
            final(self).model().temp_counter == old(self).model().temp_counter,
    {
        match self.pop() {
            Ok(v) => Ok(v),
            Err(e) => Err(Stop::Error(e)),
        }
    }

    /// Compile a single instruction
    fn compile_instruction(&mut self, constants: &Vec<ConstantData>, instruction: &Instruction) -> (r:
        Result<(), Stop>)
        requires
            old(self).wf(),
            old(self).temp_counter < usize::MAX,
        ensures
            step_post(*old(self), *final(self), constants@, *instruction, r),
    {
        reveal(spec_step);
        match instruction {
            Instruction::LoadConst { idx } => self.compile_load_const(constants, *idx),
            Instruction::LoadFast(idx) => self.load_variable(*idx),
            Instruction::StoreFast(idx) => {
                let value = self.pop_or_stop()?;
                self.store_variable(*idx, value)
            },
            Instruction::BinaryOp { op } => self.compile_binary(*op, Ghost(constants@)),
            Instruction::CompareOperation { op } => self.compile_compare(*op, Ghost(constants@)),
            Instruction::UnaryNegative => self.compile_unary_negative(Ghost(constants@)),
            Instruction::UnaryNot => self.compile_unary_not(Ghost(constants@)),
            Instruction::ToBool => self.compile_to_bool(Ghost(constants@)),
            Instruction::ReturnValue => self.compile_return_value(Ghost(constants@)),
            Instruction::ReturnConst { idx } => self.compile_return_const(constants, *idx),
            Instruction::Jump { target } => {
                let line = goto_text(*target);
                self.writeln(line.as_str());
                Ok(())
            },
            Instruction::PopJumpIfFalse { target } => self.compile_pop_jump(*target, false, Ghost(constants@)),
            Instruction::PopJumpIfTrue { target } => self.compile_pop_jump(*target, true, Ghost(constants@)),
            Instruction::PopTop => {
                self.pop_or_stop()?;
                Ok(())
            },
            Instruction::Nop | Instruction::Resume | Instruction::ExtendedArg | Instruction::PopBlock => {
                // No-op
                Ok(())
            },
            Instruction::Swap { index } => self.compile_swap(*index, Ghost(constants@)),
            Instruction::CopyItem { index } => self.compile_copy_item(*index, Ghost(constants@)),
            _ => Err(Stop::Error(JitCompileError::NotSupported)),
        }
    }

    fn compile_load_const(&mut self, constants: &Vec<ConstantData>, idx: u32) -> (r: Result<(), Stop>)
        requires
            old(self).wf(),
        ensures
            step_post(*old(self), *final(self), constants@, Instruction::LoadConst { idx }, r),
    {
        reveal(spec_step);
        let idx = idx as usize;
        if idx >= constants.len() {
            return Err(Stop::OutOfRange);
        }
        match self.prepare_const(&constants[idx]) {
            Ok(value) => {
                self.push(value);
                Ok(())
            },
            Err(e) => Err(Stop::Error(e)),
        }
    }

    fn compile_return_const(&mut self, constants: &Vec<ConstantData>, idx: u32) -> (r: Result<(), Stop>)
        requires
            old(self).wf(),
        ensures
            step_post(*old(self), *final(self), constants@, Instruction::ReturnConst { idx }, r),
    {
        reveal(spec_step);
        proof {
            reveal_strlit("return ");
            reveal_strlit(";");
        }
        let idx = idx as usize;
        if idx >= constants.len() {
            return Err(Stop::OutOfRange);
        }
        match self.prepare_const(&constants[idx]) {
            Ok(value) => {
                let mut line = string_of("return ");
                line.append(value.expr.as_str());
                line.append(";");
                assert(line@ =~= "return "@ + value.expr@ + ";"@);
                self.writeln(line.as_str());
                Ok(())
            },
            Err(e) => Err(Stop::Error(e)),
        }
    }

    fn compile_binary(&mut self, op: BinaryOperator, Ghost(c): Ghost<Seq<ConstantData>>) -> (r: Result<(), Stop>)
        requires
            old(self).wf(),
            old(self).temp_counter < usize::MAX,
        ensures
            step_post(*old(self), *final(self), c, Instruction::BinaryOp { op }, r),
    {
        reveal(spec_step);
        let ghost m = self.model();
        let b = self.pop_or_stop()?;
        let a = self.pop_or_stop()?;
        assert(a.model() == m.stack[m.stack.len() - 2]);
        let ghost m2 = self.model();
        assert(m2 == m.pop().pop());
        let r = match self.compile_binary_op(op, a, b) {
            Ok(()) => Ok(()),
            Err(e) => Err(Stop::Error(e)),
        };
        r
    }

    fn compile_compare(&mut self, op: ComparisonOperator, Ghost(c): Ghost<Seq<ConstantData>>) -> (r: Result<(), Stop>)
        requires
            old(self).wf(),
            old(self).temp_counter < usize::MAX,
        ensures
            step_post(*old(self), *final(self), c, Instruction::CompareOperation { op }, r),
    {
        reveal(spec_step);
        let ghost m = self.model();
        let b = self.pop_or_stop()?;
        let a = self.pop_or_stop()?;
        assert(a.model() == m.stack[m.stack.len() - 2]);
        match self.compile_compare_op(op, a, b) {
            Ok(()) => Ok(()),
            Err(e) => Err(Stop::Error(e)),
        }
    }

    fn compile_unary_negative(&mut self, Ghost(c): Ghost<Seq<ConstantData>>) -> (r: Result<(), Stop>)
        requires
            old(self).wf(),
            old(self).temp_counter < usize::MAX,
        ensures
            step_post(*old(self), *final(self), c, Instruction::UnaryNegative, r),
    {
        reveal(spec_step);
        proof {
            reveal_strlit("-");
        }
        let a = self.pop_or_stop()?;
        let mut expr = string_of("-");
        expr.append(a.expr.as_str());
        assert(expr@ =~= "-"@ + a.expr@);
        self.emit_temp(a.ty, expr.as_str());
        Ok(())
    }

    fn compile_unary_not(&mut self, Ghost(c): Ghost<Seq<ConstantData>>) -> (r: Result<(), Stop>)
        requires
            old(self).wf(),
            old(self).temp_counter < usize::MAX,
        ensures
            step_post(*old(self), *final(self), c, Instruction::UnaryNot, r),
    {
        reveal(spec_step);
        proof {
            reveal_strlit("!");
        }
        let a = self.pop_or_stop()?;
        let mut expr = string_of("!");
        expr.append(a.expr.as_str());
        assert(expr@ =~= "!"@ + a.expr@);
        self.emit_temp(JitType::Bool, expr.as_str());
        Ok(())
    }

    fn compile_to_bool(&mut self, Ghost(c): Ghost<Seq<ConstantData>>) -> (r: Result<(), Stop>)
        requires
            old(self).wf(),
            old(self).temp_counter < usize::MAX,
        ensures
            step_post(*old(self), *final(self), c, Instruction::ToBool, r),
    {
        reveal(spec_step);
        proof {
            reveal_strlit(" != 0");
            reveal_strlit(" != 0.0");
        }
        let a = self.pop_or_stop()?;
        let expr = match a.ty {
            JitType::Int => {
                let mut e = a.expr.clone();
                e.append(" != 0");
                e
            },
            JitType::Float => {
                let mut e = a.expr.clone();
                e.append(" != 0.0");
                e
            },
            JitType::Bool => a.expr.clone(),
        };
        assert(expr@ =~= spec_to_bool(a.model()));
        self.emit_temp(JitType::Bool, expr.as_str());
        Ok(())
    }

    fn compile_return_value(&mut self, Ghost(c): Ghost<Seq<ConstantData>>) -> (r: Result<(), Stop>)
        requires
            old(self).wf(),
        ensures
            step_post(*old(self), *final(self), c, Instruction::ReturnValue, r),
    {
        reveal(spec_step);
        proof {
            reveal_strlit("return ");
            reveal_strlit(";");
        }
        let value = self.pop_or_stop()?;
        let mut line = string_of("return ");
        line.append(value.expr.as_str());
        line.append(";");
        assert(line@ =~= "return "@ + value.expr@ + ";"@);
        self.writeln(line.as_str());
        Ok(())
    }

    fn compile_pop_jump(&mut self, target: u32, when_true: bool, Ghost(c): Ghost<Seq<ConstantData>>) -> (r: Result<(), Stop>)
        requires
            old(self).wf(),
        ensures
            step_post(*old(self), *final(self), c,
                pop_jump_instruction(target, when_true), r),
    {
        reveal(spec_step);
        proof {
            reveal_strlit("if (!");
            reveal_strlit("if (");
            reveal_strlit(") ");
        }
        let cond = self.pop_or_stop()?;
        let cond_expr = self.to_bool_expr(&cond);
        let mut line = if when_true { string_of("if (") } else { string_of("if (!") };
        line.append(cond_expr.as_str());
        line.append(") ");
        let goto = goto_text(target);
        line.append(goto.as_str());
        assert(line@ =~= (if when_true { "if ("@ } else { "if (!"@ }) + spec_bool_expr(cond.model()) + ") "@ + goto_label(target));
        self.writeln(line.as_str());
        Ok(())
    }

    fn compile_swap(&mut self, index: u32, Ghost(c): Ghost<Seq<ConstantData>>) -> (r: Result<(), Stop>)
        requires
            old(self).wf(),
        ensures
            step_post(*old(self), *final(self), c, Instruction::Swap { index }, r),
    {
        reveal(spec_step);
        let ghost m = self.model();
        let len = self.stack.len();
        if len == 0 || index as usize >= len {
            return Err(Stop::OutOfRange);
        }
        let i = len - 1;
        let j = len - 1 - index as usize;
        let vi = self.stack[i].duplicate();
        let vj = self.stack[j].duplicate();
        self.stack.set(i, vj);
        self.stack.set(j, vi);
        assert(self.model().stack =~= m.stack.update(i as int, m.stack[j as int]).update(
            j as int,
            m.stack[i as int],
        ));
        Ok(())
    }

    fn compile_copy_item(&mut self, index: u32, Ghost(c): Ghost<Seq<ConstantData>>) -> (r: Result<(), Stop>)
        requires
            old(self).wf(),
        ensures
            step_post(*old(self), *final(self), c, Instruction::CopyItem { index }, r),
    {
        reveal(spec_step);
        let len = self.stack.len();
        if index as usize >= len {
            return Err(Stop::OutOfRange);
        }
        let idx = len - 1 - index as usize;
        let value = self.stack[idx].duplicate();
        self.push(value);
        Ok(())
    }

    /// Compiles the instructions, stopping at the first error or at an
    /// index out of range.
    fn compile_units(&mut self, bytecode: &CodeObject) -> (r: Result<(), Stop>)
        requires
            old(self).wf(),
            old(self).temp_counter + bytecode.instructions@.len() <= usize::MAX,
        ensures
            stop_matches(
                r,
                spec_run(
                    *bytecode,
                    old(self).arg_types@.len(),
                    old(self).indent as nat,
                    old(self).targets(),
                    old(self).model(),
                    bytecode.instructions@.len(),
                ),
                final(self).model(),
            ),
            final(self).same_frame(old(self)),
            final(self).wf(),
    {
        proof {
            reveal_strlit("label_");
            reveal_strlit(":\n");
        }
        let n = bytecode.instructions.len();
        let ghost m0 = self.model();
        let ghost n_args = self.arg_types@.len();
        let ghost indent = self.indent as nat;
        let ghost targets = self.targets();
        for offset in 0..n
            invariant
                n == bytecode.instructions@.len(),
                self.wf(),
                self.same_frame(old(self)),
                n_args == self.arg_types@.len(),
                indent == self.indent as nat,
                targets == self.targets(),
                m0 == old(self).model(),
                self.temp_counter <= old(self).temp_counter + offset,
                old(self).temp_counter + n <= usize::MAX,
                spec_run(*bytecode, n_args, indent, targets, m0, offset as nat) == Some(
                    Ok::<GenModel, JitCompileError>(self.model()),
                ),
        {
            let ghost before = self.model();
            let label = #[verifier::truncate] (offset as u32);
            if contains_u32(&self.label_targets, label) {
                // A jump target gets a label, without indentation
                self.body.append("label_");
                push_usize(&mut self.body, offset);
                self.body.append(":\n");
                assert(self.body@ =~= before.body + label_line(offset as nat));
            }
            proof {
                assert(self.label_targets@.contains(label) <==> targets.contains(label));
                assert(self.model() == (if targets.contains(label) {
                    GenModel { body: before.body + label_line(offset as nat), ..before }
                } else {
                    before
                }));
            }
            assert(spec_run(*bytecode, n_args, indent, targets, m0, (offset + 1) as nat) == spec_step(
                bytecode.constants@,
                n_args,
                indent,
                self.model(),
                bytecode.instructions@[offset as int].op,
            ));
            match self.compile_instruction(&bytecode.constants, &bytecode.instructions[offset].op) {
                Ok(()) => {},
                Err(stop) => {
                    assert(stop_matches(Err(stop), spec_run(*bytecode, n_args, indent, targets, m0, (offset + 1) as nat), self.model()));
                    proof {
                        lemma_run_stops(*bytecode, n_args, indent, targets, m0, (offset + 1) as nat, n as nat);
                        assert(spec_run(*bytecode, n_args, indent, targets, m0, n as nat) == spec_run(*bytecode, n_args, indent, targets, m0, (offset + 1) as nat));
                        assert(stop_matches(Err(stop), spec_run(*bytecode, n_args, indent, targets, m0, n as nat), self.model()));
                    }
                    return Err(stop);
                },
            }
        }
        Ok(())
    }

    /// Compile bytecode to C
    pub fn compile(&mut self, bytecode: &CodeObject) -> (r: Result<(), JitCompileError>)
        requires
            old(self).wf(),
            old(self).model().temp_counter + bytecode.instructions@.len() <= usize::MAX,
            spec_run(
                *bytecode,
                old(self).spec_arg_types().len(),
                old(self).spec_indent(),
                old(self).targets(),
                old(self).model(),
                bytecode.instructions@.len(),
            ) is Some,
        ensures
            final(self).wf(),
            final(self).targets() == old(self).targets(),
            final(self).spec_arg_types() == old(self).spec_arg_types(),
            final(self).spec_arg_names() == old(self).spec_arg_names(),
            final(self).spec_ret_type() == old(self).spec_ret_type(),
            final(self).spec_func_name() == old(self).spec_func_name(),
            final(self).spec_indent() == old(self).spec_indent(),
            match spec_run(
                *bytecode,
                old(self).spec_arg_types().len(),
                old(self).spec_indent(),
                old(self).targets(),
                old(self).model(),
                bytecode.instructions@.len(),
            ) {
                Some(Ok(m)) => r is Ok && final(self).model() == m,
                Some(Err(e)) => r == Err::<(), JitCompileError>(e),
                None => false,
            },
    {
        match self.compile_units(bytecode) {
            Ok(()) => Ok(()),
            Err(Stop::Error(e)) => Err(e),
            Err(Stop::OutOfRange) => {
                // The precondition rules this out.
                Err(JitCompileError::BadBytecode)
            },
        }
    }

    /// Compiles bytecode to C like `compile`, and returns `None` where an
    /// index or the stack goes out of range, where `compile` has no result.
    pub fn try_compile(&mut self, bytecode: &CodeObject) -> (r: Option<Result<(), JitCompileError>>)
        requires
            old(self).wf(),
            old(self).model().temp_counter + bytecode.instructions@.len() <= usize::MAX,
        ensures
            final(self).wf(),
            final(self).targets() == old(self).targets(),
            final(self).spec_arg_types() == old(self).spec_arg_types(),
            final(self).spec_arg_names() == old(self).spec_arg_names(),
            final(self).spec_ret_type() == old(self).spec_ret_type(),
            final(self).spec_func_name() == old(self).spec_func_name(),
            final(self).spec_indent() == old(self).spec_indent(),
            match spec_run(
                *bytecode,
                old(self).spec_arg_types().len(),
                old(self).spec_indent(),
                old(self).targets(),
                old(self).model(),
                bytecode.instructions@.len(),
            ) {
                Some(Ok(m)) => r == Some(Ok::<(), JitCompileError>(())) && final(self).model() == m,
                Some(Err(e)) => r == Some(Err::<(), JitCompileError>(e)),
                None => r is None,
            },
    {
        match self.compile_units(bytecode) {
            Ok(()) => Some(Ok(())),
            Err(Stop::Error(e)) => Some(Err(e)),
            Err(Stop::OutOfRange) => None,
        }
    }

    /// Generate the complete C code
    pub fn into_code(self) -> (r: String)
        ensures
            r@ == spec_into_code(
                self.spec_ret_type(),
                self.spec_func_name(),
                self.spec_arg_types(),
                self.spec_arg_names(),
                self.model(),
            ),
    {
        proof {
            reveal_strlit("#include <stdint.h>\n");
            reveal_strlit("#include <math.h>\n");
            reveal_strlit("\n");
            reveal_strlit("void");
            reveal_strlit(" ");
            reveal_strlit("(");
            reveal_strlit(") {\n");
            reveal_strlit("}\n");
        }
        let mut output = string_of("#include <stdint.h>\n");
        let ghost m = self.model();
        if self.needs_math {
            output.append("#include <math.h>\n");
        }
        output.append("\n");
        let ghost head = output@;
        // Helper functions
        if self.needs_ipow {
            push_ipow_helper(&mut output);
        }
        assert(output@ =~= "#include <stdint.h>\n"@ + (if m.needs_math {
            "#include <math.h>\n"@
        } else {
            Seq::empty()
        }) + "\n"@ + (if m.needs_ipow {
            ipow_helper()
        } else {
            Seq::empty()
        }));
        // Function signature
        let ret_type = match &self.ret_type {
            Some(t) => t.to_c_type(),
            None => "void",
        };
        output.append(ret_type);
        output.append(" ");
        output.append(self.func_name.as_str());
        output.append("(");
        let params = join_params(&self.arg_types, &self.arg_names);
        output.append(params.as_str());
        output.append(") {\n");
        // Function body
        output.append(self.body.as_str());
        output.append("}\n");
        assert(output@ =~= spec_into_code(
            self.spec_ret_type(),
            self.spec_func_name(),
            self.spec_arg_types(),
            self.spec_arg_names(),
            self.model(),
        ));
        output
    }

    /// Convert a value to a boolean expression string
    fn to_bool_expr(&self, value: &CValue) -> (r: String)
        ensures
            r@ == spec_bool_expr(value.model()),
    {
        proof {
            reveal_strlit("(");
            reveal_strlit(" != 0)");
            reveal_strlit(" != 0.0)");
        }
        match value.ty {
            JitType::Bool => value.expr.clone(),
            JitType::Int => {
                let mut r = string_of("(");
                r.append(value.expr.as_str());
                r.append(" != 0)");
                assert(r@ =~= spec_bool_expr(value.model()));
                r
            },
            JitType::Float => {
                let mut r = string_of("(");
                r.append(value.expr.as_str());
                r.append(" != 0.0)");
                assert(r@ =~= spec_bool_expr(value.model()));
                r
            },
        }
    }

    /// Prepare a constant value
    fn prepare_const(&mut self, constant: &ConstantData) -> (r: Result<CValue, JitCompileError>)
        ensures
            match spec_prepare_const(*constant) {
                Ok(v) => r matches Ok(c) && c.model() == v,
                Err(e) => r == Err::<CValue, JitCompileError>(e),
            },
            *final(self) == *old(self),
    {
        proof {
            reveal_strlit("LL");
            reveal_strlit("1");
            reveal_strlit("0");
        }
        match constant {
            ConstantData::Integer { negative, digits } => {
                match integer_to_i64(*negative, digits) {
                    Some(val) => {
                        let mut expr = String::new();
                        push_i64(&mut expr, val);
                        expr.append("LL");
                        assert(expr@ =~= signed_decimal(val as int) + "LL"@);
                        Ok(CValue { expr, ty: JitType::Int })
                    },
                    None => Err(JitCompileError::UnsupportedConstant),
                }
            },
            ConstantData::Float { fixed17, shortest: _ } => Ok(
                CValue { expr: fixed17.clone(), ty: JitType::Float },
            ),
            ConstantData::Boolean { value } => Ok(
                CValue {
                    expr: if *value {
                        string_of("1")
                    } else {
                        string_of("0")
                    },
                    ty: JitType::Bool,
                },
            ),
            _ => Err(JitCompileError::UnsupportedConstant),
        }
    }

    /// Compile a binary operation
    fn compile_binary_op(&mut self, op: BinaryOperator, a: CValue, b: CValue) -> (r: Result<
        (),
        JitCompileError,
    >)
        requires
            old(self).temp_counter < usize::MAX,
        ensures
            match spec_binary(op, a.model(), b.model()) {
                None => r == Err::<(), JitCompileError>(JitCompileError::NotSupported),
                Some(res) => r is Ok && final(self).model() == (GenModel {
                    needs_ipow: old(self).needs_ipow || res.ipow,
                    needs_math: old(self).needs_math || res.math,
                    ..old(self).model()
                }).declared_temp(old(self).indent as nat, res.ty, res.expr),
            },
            r is Err ==> final(self).model() == old(self).model(),
            final(self).same_frame(old(self)),
            final(self).model().temp_counter <= old(self).model().temp_counter + 1,
    {
        proof {
            reveal_strlit(" / ");
            reveal_strlit("__jit_ipow(");
            reveal_strlit(", ");
            reveal_strlit(")");
            reveal_strlit("pow(");
        }
        let (result_ty, expr) = if a.ty == JitType::Int && b.ty == JitType::Int {
            match int_operator_text(op) {
                Some(text) => {
                    let mut expr = a.expr.clone();
                    expr.append(text);
                    expr.append(b.expr.as_str());
                    (JitType::Int, expr)
                },
                None => {
                    if is_true_divide_exec(op) {
                        let mut expr = String::new();
                        push_as_double(&mut expr, &a);
                        expr.append(" / ");
                        push_as_double(&mut expr, &b);
                        (JitType::Float, expr)
                    } else if is_power_exec(op) {
                        self.needs_ipow = true;
                        let mut expr = string_of("__jit_ipow(");
                        expr.append(a.expr.as_str());
                        expr.append(", ");
                        expr.append(b.expr.as_str());
                        expr.append(")");
                        (JitType::Int, expr)
                    } else {
                        return Err(JitCompileError::NotSupported);
                    }
                },
            }
        } else if a.ty != JitType::Bool && b.ty != JitType::Bool {
            match float_operator_text(op) {
                Some(text) => {
                    let mut expr = String::new();
                    push_as_double(&mut expr, &a);
                    expr.append(text);
                    push_as_double(&mut expr, &b);
                    (JitType::Float, expr)
                },
                None => {
                    if is_power_exec(op) {
                        self.needs_math = true;
                        let mut expr = string_of("pow(");
                        push_as_double(&mut expr, &a);
                        expr.append(", ");
                        push_as_double(&mut expr, &b);
                        expr.append(")");
                        (JitType::Float, expr)
                    } else {
                        return Err(JitCompileError::NotSupported);
                    }
                },
            }
        } else {
            return Err(JitCompileError::NotSupported);
        };
        let ghost res = spec_binary(op, a.model(), b.model()).unwrap();
        assert(expr@ =~= res.expr);
        let ghost flagged = self.model();
        assert(flagged == (GenModel {
            needs_ipow: old(self).needs_ipow || res.ipow,
            needs_math: old(self).needs_math || res.math,
            ..old(self).model()
        }));
        self.emit_declared_temp(result_ty, expr.as_str());
        Ok(())
    }

    /// Compile a comparison operation
    fn compile_compare_op(&mut self, op: ComparisonOperator, a: CValue, b: CValue) -> (r: Result<
        (),
        JitCompileError,
    >)
        requires
            old(self).temp_counter < usize::MAX,
        ensures
            r is Ok,
            final(self).model() == old(self).model().temp(
                old(self).indent as nat,
                JitType::Bool,
                a.expr@ + " "@ + spec_compare_operator(op) + " "@ + b.expr@,
            ),
            final(self).same_frame(old(self)),
    {
        proof {
            reveal_strlit(" ");
        }
        let op_str = compare_operator_text(op);
        let mut expr = a.expr.clone();
        expr.append(" ");
        expr.append(op_str);
        expr.append(" ");
        expr.append(b.expr.as_str());
        assert(expr@ =~= a.expr@ + " "@ + spec_compare_operator(op) + " "@ + b.expr@);
        self.emit_temp(JitType::Bool, expr.as_str());
        Ok(())
    }
}

fn int_operator_text(op: BinaryOperator) -> (r: Option<&'static str>)
    ensures
        r is Some <==> int_operator(op) is Some,
        r matches Some(t) ==> t@ == int_operator(op).unwrap(),
{
    proof {
        reveal_strlit(" + ");
        reveal_strlit(" - ");
        reveal_strlit(" * ");
        reveal_strlit(" / ");
        reveal_strlit(" % ");
        reveal_strlit(" << ");
        reveal_strlit(" >> ");
        reveal_strlit(" & ");
        reveal_strlit(" | ");
        reveal_strlit(" ^ ");
    }
    match op {
        BinaryOperator::Add | BinaryOperator::InplaceAdd => Some(" + "),
        BinaryOperator::Subtract | BinaryOperator::InplaceSubtract => Some(" - "),
        BinaryOperator::Multiply | BinaryOperator::InplaceMultiply => Some(" * "),
        BinaryOperator::FloorDivide | BinaryOperator::InplaceFloorDivide => Some(" / "),
        BinaryOperator::Remainder | BinaryOperator::InplaceRemainder => Some(" % "),
        BinaryOperator::Lshift | BinaryOperator::InplaceLshift => Some(" << "),
        BinaryOperator::Rshift | BinaryOperator::InplaceRshift => Some(" >> "),
        BinaryOperator::And | BinaryOperator::InplaceAnd => Some(" & "),
        BinaryOperator::Or | BinaryOperator::InplaceOr => Some(" | "),
        BinaryOperator::Xor | BinaryOperator::InplaceXor => Some(" ^ "),
        _ => None,
    }
}

fn float_operator_text(op: BinaryOperator) -> (r: Option<&'static str>)
    ensures
        r is Some <==> float_operator(op) is Some,
        r matches Some(t) ==> t@ == float_operator(op).unwrap(),
{
    proof {
        reveal_strlit(" + ");
        reveal_strlit(" - ");
        reveal_strlit(" * ");
        reveal_strlit(" / ");
    }
    match op {
        BinaryOperator::Add | BinaryOperator::InplaceAdd => Some(" + "),
        BinaryOperator::Subtract | BinaryOperator::InplaceSubtract => Some(" - "),
        BinaryOperator::Multiply | BinaryOperator::InplaceMultiply => Some(" * "),
        BinaryOperator::TrueDivide | BinaryOperator::InplaceTrueDivide => Some(" / "),
        _ => None,
    }
}

fn is_true_divide_exec(op: BinaryOperator) -> (r: bool)
    ensures
        r == is_true_divide(op),
{
    op == BinaryOperator::TrueDivide || op == BinaryOperator::InplaceTrueDivide
}

fn is_power_exec(op: BinaryOperator) -> (r: bool)
    ensures
        r == is_power(op),
{
    op == BinaryOperator::Power || op == BinaryOperator::InplacePower
}

/// Appends a numeric value as a C double.
fn push_as_double(out: &mut String, v: &CValue)
    ensures
        final(out)@ == old(out)@ + as_double(v.model()),
{
    proof {
        reveal_strlit("(double)");
    }
    if v.ty == JitType::Int {
        out.append("(double)");
    }
    out.append(v.expr.as_str());
    assert(out@ =~= old(out)@ + as_double(v.model()));
}

fn compare_operator_text(op: ComparisonOperator) -> (r: &'static str)
    ensures
        r@ == spec_compare_operator(op),
{
    match op {
        ComparisonOperator::Less => "<",
        ComparisonOperator::Greater => ">",
        ComparisonOperator::Equal => "==",
        ComparisonOperator::NotEqual => "!=",
        ComparisonOperator::LessOrEqual => "<=",
        ComparisonOperator::GreaterOrEqual => ">=",
    }
}


/// The `goto` to the label of `target`.
fn goto_text(target: u32) -> (r: String)
    ensures
        r@ == goto_label(target),
{
    proof {
        reveal_strlit("goto label_");
        reveal_strlit(";");
    }
    let mut r = string_of("goto label_");
    push_u32(&mut r, target);
    r.append(";");
    assert(r@ =~= goto_label(target));
    r
}

/// Appends the integer power helper.
fn push_ipow_helper(out: &mut String)
    ensures
        final(out)@ == old(out)@ + ipow_helper(),
{
    proof {
        reveal_strlit("static int64_t __jit_ipow(int64_t base, int64_t exp) {\n");
        reveal_strlit("    if (exp < 0) return 0;\n");
        reveal_strlit("    int64_t result = 1;\n");
        reveal_strlit("    while (exp > 0) {\n");
        reveal_strlit("        if (exp & 1) result *= base;\n");
        reveal_strlit("        base *= base;\n");
        reveal_strlit("        exp >>= 1;\n");
        reveal_strlit("    }\n");
        reveal_strlit("    return result;\n");
        reveal_strlit("}\n\n");
    }
    out.append("static int64_t __jit_ipow(int64_t base, int64_t exp) {\n");
    out.append("    if (exp < 0) return 0;\n");
    out.append("    int64_t result = 1;\n");
    out.append("    while (exp > 0) {\n");
    out.append("        if (exp & 1) result *= base;\n");
    out.append("        base *= base;\n");
    out.append("        exp >>= 1;\n");
    out.append("    }\n");
    out.append("    return result;\n");
    out.append("}\n\n");
    assert(out@ =~= old(out)@ + ipow_helper());
}

/// The parameter list of the signature, comma separated.
fn join_params(arg_types: &Vec<JitType>, arg_names: &Vec<String>) -> (r: String)
    ensures
        r@ == join(params(arg_types@, arg_names@.map_values(|s: String| s@)), ", "@),
{
    proof {
        reveal_strlit(", ");
        reveal_strlit(" ");
    }
    let ghost names = arg_names@.map_values(|s: String| s@);
    let ghost all = params(arg_types@, names);
    let n = if arg_types.len() <= arg_names.len() {
        arg_types.len()
    } else {
        arg_names.len()
    };
    let mut r = String::new();
    for i in 0..n
        invariant
            n == all.len(),
            n <= arg_types@.len(),
            n <= arg_names@.len(),
            names == arg_names@.map_values(|s: String| s@),
            all == params(arg_types@, names),
            r@ == join(all.take(i as int), ", "@),
    {
        let ghost prev = r@;
        if i > 0 {
            r.append(", ");
        }
        r.append(arg_types[i].to_c_type());
        r.append(" ");
        r.append(arg_names[i].as_str());
        proof {
            let t = all.take(i + 1);
            assert(t.drop_last() =~= all.take(i as int));
            assert(t.last() == all[i as int]);
            assert(all[i as int] == spec_c_type(arg_types@[i as int]) + " "@ + names[i as int]);
            if i == 0 {
                assert(r@ =~= join(t, ", "@));
            } else {
                assert(r@ =~= join(t, ", "@));
            }
        }
    }
    assert(all.take(n as int) =~= all);
    r
}


// ---------------------------------------------------------------------------
// Laws on comparisons and branches.
// ---------------------------------------------------------------------------

/// A comparison of the two values on top of the stack is written as a new
/// boolean temporary holding the C comparison with the same meaning: `<` for
/// less, `>` for greater, `<=`, `>=`, `==` and `!=` for the others, with the
/// value pushed first on the left.
pub proof fn lemma_comparison_meaning(
    constants: Seq<ConstantData>,
    n_args: nat,
    indent: nat,
    s: GenModel,
    op: ComparisonOperator,
)
    requires
        s.stack.len() >= 2,
    ensures
        op == ComparisonOperator::Less ==> spec_step(constants, n_args, indent, s, Instruction::CompareOperation { op }) == Some(
            Ok::<GenModel, JitCompileError>(GenModel {
                body: s.body + indentation(indent) + "int tmp_"@ + decimal(s.temp_counter) + " = "@ + s.stack[s.stack.len() - 2].expr
                    + " < "@ + s.stack[s.stack.len() - 1].expr + ";\n"@,
                stack: s.stack.drop_last().drop_last().push(
                    SpecValue { expr: "tmp_"@ + decimal(s.temp_counter), ty: JitType::Bool },
                ),
                temp_counter: s.temp_counter + 1,
                ..s
            }),
        ),
        op == ComparisonOperator::Greater ==> spec_step(constants, n_args, indent, s, Instruction::CompareOperation { op }) == Some(
            Ok::<GenModel, JitCompileError>(GenModel {
                body: s.body + indentation(indent) + "int tmp_"@ + decimal(s.temp_counter) + " = "@ + s.stack[s.stack.len() - 2].expr
                    + " > "@ + s.stack[s.stack.len() - 1].expr + ";\n"@,
                stack: s.stack.drop_last().drop_last().push(
                    SpecValue { expr: "tmp_"@ + decimal(s.temp_counter), ty: JitType::Bool },
                ),
                temp_counter: s.temp_counter + 1,
                ..s
            }),
        ),
        op == ComparisonOperator::LessOrEqual ==> spec_step(constants, n_args, indent, s, Instruction::CompareOperation { op }) == Some(
            Ok::<GenModel, JitCompileError>(GenModel {
                body: s.body + indentation(indent) + "int tmp_"@ + decimal(s.temp_counter) + " = "@ + s.stack[s.stack.len() - 2].expr
                    + " <= "@ + s.stack[s.stack.len() - 1].expr + ";\n"@,
                stack: s.stack.drop_last().drop_last().push(
                    SpecValue { expr: "tmp_"@ + decimal(s.temp_counter), ty: JitType::Bool },
                ),
                temp_counter: s.temp_counter + 1,
                ..s
            }),
        ),
        op == ComparisonOperator::GreaterOrEqual ==> spec_step(constants, n_args, indent, s, Instruction::CompareOperation { op }) == Some(
            Ok::<GenModel, JitCompileError>(GenModel {
                body: s.body + indentation(indent) + "int tmp_"@ + decimal(s.temp_counter) + " = "@ + s.stack[s.stack.len() - 2].expr
                    + " >= "@ + s.stack[s.stack.len() - 1].expr + ";\n"@,
                stack: s.stack.drop_last().drop_last().push(
                    SpecValue { expr: "tmp_"@ + decimal(s.temp_counter), ty: JitType::Bool },
                ),
                temp_counter: s.temp_counter + 1,
                ..s
            }),
        ),
        op == ComparisonOperator::Equal ==> spec_step(constants, n_args, indent, s, Instruction::CompareOperation { op }) == Some(
            Ok::<GenModel, JitCompileError>(GenModel {
                body: s.body + indentation(indent) + "int tmp_"@ + decimal(s.temp_counter) + " = "@ + s.stack[s.stack.len() - 2].expr
                    + " == "@ + s.stack[s.stack.len() - 1].expr + ";\n"@,
                stack: s.stack.drop_last().drop_last().push(
                    SpecValue { expr: "tmp_"@ + decimal(s.temp_counter), ty: JitType::Bool },
                ),
                temp_counter: s.temp_counter + 1,
                ..s
            }),
        ),
        op == ComparisonOperator::NotEqual ==> spec_step(constants, n_args, indent, s, Instruction::CompareOperation { op }) == Some(
            Ok::<GenModel, JitCompileError>(GenModel {
                body: s.body + indentation(indent) + "int tmp_"@ + decimal(s.temp_counter) + " = "@ + s.stack[s.stack.len() - 2].expr
                    + " != "@ + s.stack[s.stack.len() - 1].expr + ";\n"@,
                stack: s.stack.drop_last().drop_last().push(
                    SpecValue { expr: "tmp_"@ + decimal(s.temp_counter), ty: JitType::Bool },
                ),
                temp_counter: s.temp_counter + 1,
                ..s
            }),
        ),
{
    reveal(spec_step);
        reveal_strlit("int");
        reveal_strlit(" ");
        reveal_strlit("tmp_");
        reveal_strlit(" = ");
        reveal_strlit(";");
        reveal_strlit("\n");
        reveal_strlit("int tmp_");
        reveal_strlit(";\n");
        reveal_strlit("<");
        reveal_strlit(">");
        reveal_strlit("<=");
        reveal_strlit(">=");
        reveal_strlit("==");
        reveal_strlit("!=");
        reveal_strlit(" < ");
        reveal_strlit(" > ");
        reveal_strlit(" <= ");
        reveal_strlit(" >= ");
        reveal_strlit(" == ");
        reveal_strlit(" != ");
    let a = s.stack[s.stack.len() - 2];
    let b = s.stack[s.stack.len() - 1];
    let r = spec_step(constants, n_args, indent, s, Instruction::CompareOperation { op })->Some_0->Ok_0;
    assert(r.body =~= s.body + indentation(indent) + "int tmp_"@ + decimal(s.temp_counter) + " = "@ + a.expr + " "@
        + spec_compare_operator(op) + " "@ + b.expr + ";\n"@);
    assert(r.stack =~= s.stack.drop_last().drop_last().push(
        SpecValue { expr: "tmp_"@ + decimal(s.temp_counter), ty: JitType::Bool },
    ));
    if op == ComparisonOperator::Less {
        assert(" "@ + spec_compare_operator(op) + " "@ =~= " < "@);
        assert(r.body =~= s.body + indentation(indent) + "int tmp_"@ + decimal(s.temp_counter) + " = "@ + a.expr
            + " < "@ + b.expr + ";\n"@);
    }
    if op == ComparisonOperator::Greater {
        assert(" "@ + spec_compare_operator(op) + " "@ =~= " > "@);
        assert(r.body =~= s.body + indentation(indent) + "int tmp_"@ + decimal(s.temp_counter) + " = "@ + a.expr
            + " > "@ + b.expr + ";\n"@);
    }
    if op == ComparisonOperator::LessOrEqual {
        assert(" "@ + spec_compare_operator(op) + " "@ =~= " <= "@);
        assert(r.body =~= s.body + indentation(indent) + "int tmp_"@ + decimal(s.temp_counter) + " = "@ + a.expr
            + " <= "@ + b.expr + ";\n"@);
    }
    if op == ComparisonOperator::GreaterOrEqual {
        assert(" "@ + spec_compare_operator(op) + " "@ =~= " >= "@);
        assert(r.body =~= s.body + indentation(indent) + "int tmp_"@ + decimal(s.temp_counter) + " = "@ + a.expr
            + " >= "@ + b.expr + ";\n"@);
    }
    if op == ComparisonOperator::Equal {
        assert(" "@ + spec_compare_operator(op) + " "@ =~= " == "@);
        assert(r.body =~= s.body + indentation(indent) + "int tmp_"@ + decimal(s.temp_counter) + " = "@ + a.expr
            + " == "@ + b.expr + ";\n"@);
    }
    if op == ComparisonOperator::NotEqual {
        assert(" "@ + spec_compare_operator(op) + " "@ =~= " != "@);
        assert(r.body =~= s.body + indentation(indent) + "int tmp_"@ + decimal(s.temp_counter) + " = "@ + a.expr
            + " != "@ + b.expr + ";\n"@);
    }
}


proof fn lemma_pop_jump_step(constants: Seq<ConstantData>, n_args: nat, indent: nat, s: GenModel, target: u32)
    requires
        s.stack.len() >= 1,
    ensures
        spec_step(constants, n_args, indent, s, Instruction::PopJumpIfTrue { target }) == Some(
            Ok::<GenModel, JitCompileError>(
                s.pop().emit(indent, "if ("@ + spec_bool_expr(s.top()) + ") "@ + goto_label(target)),
            ),
        ),
        spec_step(constants, n_args, indent, s, Instruction::PopJumpIfFalse { target }) == Some(
            Ok::<GenModel, JitCompileError>(
                s.pop().emit(indent, "if (!"@ + spec_bool_expr(s.top()) + ") "@ + goto_label(target)),
            ),
        ),
{
    reveal(spec_step);
}

proof fn lemma_jump_lines(
    constants: Seq<ConstantData>,
    n_args: nat,
    indent: nat,
    s: GenModel,
    target: u32,
    cond: Seq<char>,
)
    requires
        s.stack.len() >= 1,
        spec_bool_expr(s.top()) == cond,
    ensures
        spec_step(constants, n_args, indent, s, Instruction::PopJumpIfTrue { target }) == Some(
            Ok::<GenModel, JitCompileError>(GenModel {
                body: s.body + indentation(indent) + "if ("@ + cond + ") goto label_"@ + decimal(target as nat) + ";\n"@,
                stack: s.stack.drop_last(),
                ..s
            }),
        ),
        spec_step(constants, n_args, indent, s, Instruction::PopJumpIfFalse { target }) == Some(
            Ok::<GenModel, JitCompileError>(GenModel {
                body: s.body + indentation(indent) + "if (!"@ + cond + ") goto label_"@ + decimal(target as nat) + ";\n"@,
                stack: s.stack.drop_last(),
                ..s
            }),
        ),
{
    lemma_pop_jump_step(constants, n_args, indent, s, target);
    reveal_strlit("if (");
    reveal_strlit("if (!");
    reveal_strlit(") ");
    reveal_strlit(") goto label_");
    reveal_strlit("goto label_");
    reveal_strlit(";");
    reveal_strlit(";\n");
    reveal_strlit("\n");
    assert(s.pop().emit(indent, "if ("@ + cond + ") "@ + goto_label(target)).body =~= s.body + indentation(indent)
        + "if ("@ + cond + ") goto label_"@ + decimal(target as nat) + ";\n"@);
    assert(s.pop().emit(indent, "if (!"@ + cond + ") "@ + goto_label(target)).body =~= s.body + indentation(indent)
        + "if (!"@ + cond + ") goto label_"@ + decimal(target as nat) + ";\n"@);
}

/// A conditional jump pops the value on top of the stack and jumps where it
/// is true (`PopJumpIfTrue`) or false (`PopJumpIfFalse`): the line is `if (`
/// with the value's truth condition, or `if (!` with it, then the `goto`. A
/// boolean's truth condition is the value itself, an integer's that it is
/// not `0`, a float's that it is not `0.0`.
pub proof fn lemma_conditional_jump_meaning(
    constants: Seq<ConstantData>,
    n_args: nat,
    indent: nat,
    s: GenModel,
    target: u32,
)
    requires
        s.stack.len() >= 1,
    ensures
        s.top().ty == JitType::Bool ==> spec_step(constants, n_args, indent, s, Instruction::PopJumpIfTrue { target }) == Some(
            Ok::<GenModel, JitCompileError>(GenModel {
                body: s.body + indentation(indent) + "if ("@ + s.top().expr + ") goto label_"@ + decimal(target as nat) + ";\n"@,
                stack: s.stack.drop_last(),
                ..s
            }),
        ),
        s.top().ty == JitType::Bool ==> spec_step(constants, n_args, indent, s, Instruction::PopJumpIfFalse { target }) == Some(
            Ok::<GenModel, JitCompileError>(GenModel {
                body: s.body + indentation(indent) + "if (!"@ + s.top().expr + ") goto label_"@ + decimal(target as nat) + ";\n"@,
                stack: s.stack.drop_last(),
                ..s
            }),
        ),
        s.top().ty == JitType::Int ==> spec_step(constants, n_args, indent, s, Instruction::PopJumpIfTrue { target }) == Some(
            Ok::<GenModel, JitCompileError>(GenModel {
                body: s.body + indentation(indent) + "if ("@ + "("@ + s.top().expr + " != 0)"@ + ") goto label_"@ + decimal(target as nat) + ";\n"@,
                stack: s.stack.drop_last(),
                ..s
            }),
        ),
        s.top().ty == JitType::Int ==> spec_step(constants, n_args, indent, s, Instruction::PopJumpIfFalse { target }) == Some(
            Ok::<GenModel, JitCompileError>(GenModel {
                body: s.body + indentation(indent) + "if (!"@ + "("@ + s.top().expr + " != 0)"@ + ") goto label_"@ + decimal(target as nat) + ";\n"@,
                stack: s.stack.drop_last(),
                ..s
            }),
        ),
        s.top().ty == JitType::Float ==> spec_step(constants, n_args, indent, s, Instruction::PopJumpIfTrue { target }) == Some(
            Ok::<GenModel, JitCompileError>(GenModel {
                body: s.body + indentation(indent) + "if ("@ + "("@ + s.top().expr + " != 0.0)"@ + ") goto label_"@ + decimal(target as nat) + ";\n"@,
                stack: s.stack.drop_last(),
                ..s
            }),
        ),
        s.top().ty == JitType::Float ==> spec_step(constants, n_args, indent, s, Instruction::PopJumpIfFalse { target }) == Some(
            Ok::<GenModel, JitCompileError>(GenModel {
                body: s.body + indentation(indent) + "if (!"@ + "("@ + s.top().expr + " != 0.0)"@ + ") goto label_"@ + decimal(target as nat) + ";\n"@,
                stack: s.stack.drop_last(),
                ..s
            }),
        ),
{
    reveal_strlit("(");
    reveal_strlit(" != 0)");
    reveal_strlit(" != 0.0)");
    if s.top().ty == JitType::Bool {
        lemma_jump_lines(constants, n_args, indent, s, target, s.top().expr);
    } else if s.top().ty == JitType::Int {
        assert(spec_bool_expr(s.top()) =~= "("@ + s.top().expr + " != 0)"@);
        lemma_jump_lines(constants, n_args, indent, s, target, "("@ + s.top().expr + " != 0)"@);
        let cond = "("@ + s.top().expr + " != 0)"@;
        assert(s.body + indentation(indent) + "if ("@ + cond + ") goto label_"@ + decimal(target as nat) + ";\n"@
            =~= s.body + indentation(indent) + "if ("@ + "("@ + s.top().expr + " != 0)"@ + ") goto label_"@ + decimal(
            target as nat,
        ) + ";\n"@);
        assert(s.body + indentation(indent) + "if (!"@ + cond + ") goto label_"@ + decimal(target as nat) + ";\n"@
            =~= s.body + indentation(indent) + "if (!"@ + "("@ + s.top().expr + " != 0)"@ + ") goto label_"@ + decimal(
            target as nat,
        ) + ";\n"@);
    } else {
        assert(spec_bool_expr(s.top()) =~= "("@ + s.top().expr + " != 0.0)"@);
        lemma_jump_lines(constants, n_args, indent, s, target, "("@ + s.top().expr + " != 0.0)"@);
        let cond = "("@ + s.top().expr + " != 0.0)"@;
        assert(s.body + indentation(indent) + "if ("@ + cond + ") goto label_"@ + decimal(target as nat) + ";\n"@
            =~= s.body + indentation(indent) + "if ("@ + "("@ + s.top().expr + " != 0.0)"@ + ") goto label_"@ + decimal(
            target as nat,
        ) + ";\n"@);
        assert(s.body + indentation(indent) + "if (!"@ + cond + ") goto label_"@ + decimal(target as nat) + ";\n"@
            =~= s.body + indentation(indent) + "if (!"@ + "("@ + s.top().expr + " != 0.0)"@ + ") goto label_"@ + decimal(
            target as nat,
        ) + ";\n"@);
    }
}

/// Arithmetic is written with the C operator of the same meaning: on two
/// integers `+`, `-`, `*`, `/` for floor division, `%`, `<<`, `>>`, `&`,
/// `|` and `^` give an integer, true division divides the operands cast to
/// double, and the power calls `__jit_ipow`; on floats `+`, `-`, `*` and
/// `/` give a double, an integer operand being cast, and the power calls
/// `pow`. An in-place operator is written as the operator it stands for.
pub proof fn lemma_arithmetic_meaning(op: BinaryOperator, a: SpecValue, b: SpecValue)
    ensures
        (a.ty == JitType::Int && b.ty == JitType::Int && plain_operator(op) == BinaryOperator::Add) ==> spec_binary(op, a, b) == Some(
            BinaryResult { ty: JitType::Int, expr: a.expr + " + "@ + b.expr, ipow: false, math: false },
        ),
        (a.ty == JitType::Int && b.ty == JitType::Int && plain_operator(op) == BinaryOperator::Subtract) ==> spec_binary(op, a, b) == Some(
            BinaryResult { ty: JitType::Int, expr: a.expr + " - "@ + b.expr, ipow: false, math: false },
        ),
        (a.ty == JitType::Int && b.ty == JitType::Int && plain_operator(op) == BinaryOperator::Multiply) ==> spec_binary(op, a, b) == Some(
            BinaryResult { ty: JitType::Int, expr: a.expr + " * "@ + b.expr, ipow: false, math: false },
        ),
        (a.ty == JitType::Int && b.ty == JitType::Int && plain_operator(op) == BinaryOperator::FloorDivide) ==> spec_binary(op, a, b) == Some(
            BinaryResult { ty: JitType::Int, expr: a.expr + " / "@ + b.expr, ipow: false, math: false },
        ),
        (a.ty == JitType::Int && b.ty == JitType::Int && plain_operator(op) == BinaryOperator::Remainder) ==> spec_binary(op, a, b) == Some(
            BinaryResult { ty: JitType::Int, expr: a.expr + " % "@ + b.expr, ipow: false, math: false },
        ),
        (a.ty == JitType::Int && b.ty == JitType::Int && plain_operator(op) == BinaryOperator::Lshift) ==> spec_binary(op, a, b) == Some(
            BinaryResult { ty: JitType::Int, expr: a.expr + " << "@ + b.expr, ipow: false, math: false },
        ),
        (a.ty == JitType::Int && b.ty == JitType::Int && plain_operator(op) == BinaryOperator::Rshift) ==> spec_binary(op, a, b) == Some(
            BinaryResult { ty: JitType::Int, expr: a.expr + " >> "@ + b.expr, ipow: false, math: false },
        ),
        (a.ty == JitType::Int && b.ty == JitType::Int && plain_operator(op) == BinaryOperator::And) ==> spec_binary(op, a, b) == Some(
            BinaryResult { ty: JitType::Int, expr: a.expr + " & "@ + b.expr, ipow: false, math: false },
        ),
        (a.ty == JitType::Int && b.ty == JitType::Int && plain_operator(op) == BinaryOperator::Or) ==> spec_binary(op, a, b) == Some(
            BinaryResult { ty: JitType::Int, expr: a.expr + " | "@ + b.expr, ipow: false, math: false },
        ),
        (a.ty == JitType::Int && b.ty == JitType::Int && plain_operator(op) == BinaryOperator::Xor) ==> spec_binary(op, a, b) == Some(
            BinaryResult { ty: JitType::Int, expr: a.expr + " ^ "@ + b.expr, ipow: false, math: false },
        ),
        (a.ty == JitType::Int && b.ty == JitType::Int && plain_operator(op) == BinaryOperator::TrueDivide) ==> spec_binary(op, a, b) == Some(
            BinaryResult { ty: JitType::Float, expr: "(double)"@ + a.expr + " / "@ + "(double)"@ + b.expr, ipow: false, math: false },
        ),
        (a.ty == JitType::Int && b.ty == JitType::Int && plain_operator(op) == BinaryOperator::Power) ==> spec_binary(op, a, b) == Some(
            BinaryResult { ty: JitType::Int, expr: "__jit_ipow("@ + a.expr + ", "@ + b.expr + ")"@, ipow: true, math: false },
        ),
        (a.ty == JitType::Float && b.ty == JitType::Float && plain_operator(op) == BinaryOperator::Add) ==> spec_binary(op, a, b) == Some(
            BinaryResult { ty: JitType::Float, expr: a.expr + " + "@ + b.expr, ipow: false, math: false },
        ),
        (a.ty == JitType::Float && b.ty == JitType::Float && plain_operator(op) == BinaryOperator::Subtract) ==> spec_binary(op, a, b) == Some(
            BinaryResult { ty: JitType::Float, expr: a.expr + " - "@ + b.expr, ipow: false, math: false },
        ),
        (a.ty == JitType::Float && b.ty == JitType::Float && plain_operator(op) == BinaryOperator::Multiply) ==> spec_binary(op, a, b) == Some(
            BinaryResult { ty: JitType::Float, expr: a.expr + " * "@ + b.expr, ipow: false, math: false },
        ),
        (a.ty == JitType::Float && b.ty == JitType::Float && plain_operator(op) == BinaryOperator::TrueDivide) ==> spec_binary(op, a, b) == Some(
            BinaryResult { ty: JitType::Float, expr: a.expr + " / "@ + b.expr, ipow: false, math: false },
        ),
        (a.ty == JitType::Float && b.ty == JitType::Int && plain_operator(op) == BinaryOperator::Add) ==> spec_binary(op, a, b) == Some(
            BinaryResult { ty: JitType::Float, expr: a.expr + " + "@ + "(double)"@ + b.expr, ipow: false, math: false },
        ),
        (a.ty == JitType::Float && b.ty == JitType::Float && plain_operator(op) == BinaryOperator::Power) ==> spec_binary(op, a, b) == Some(
            BinaryResult { ty: JitType::Float, expr: "pow("@ + a.expr + ", "@ + b.expr + ")"@, ipow: false, math: true },
        ),
{
    reveal_strlit(" + ");
    reveal_strlit(" & ");
    reveal_strlit(")");
    reveal_strlit("(double)");
    reveal_strlit(", ");
    reveal_strlit("pow(");
    reveal_strlit(" % ");
    reveal_strlit(" * ");
    reveal_strlit(" - ");
    reveal_strlit(" | ");
    reveal_strlit("__jit_ipow(");
    reveal_strlit(" / ");
    reveal_strlit(" >> ");
    reveal_strlit(" ^ ");
    reveal_strlit(" << ");
    lemma_inplace_as_plain(op, a, b);
    if a.ty == JitType::Int && b.ty == JitType::Int {
        assert(as_double(a) + " / "@ + as_double(b) =~= "(double)"@ + a.expr + " / "@
            + "(double)"@ + b.expr);
    }
    if a.ty == JitType::Float && b.ty == JitType::Int {
        assert(as_double(a) + " + "@ + as_double(b) =~= a.expr + " + "@ + "(double)"@ + b.expr);
    }
}

/// A binary operation takes the value pushed first as its left operand and
/// the value on top as its right one: it declares a new temporary of the
/// result's type on one line, assigns it the C expression of `second op
/// top` on the next, and leaves it on the stack in place of the two.
pub proof fn lemma_binary_operation_operands(
    constants: Seq<ConstantData>,
    n_args: nat,
    indent: nat,
    s: GenModel,
    op: BinaryOperator,
    r: BinaryResult,
)
    requires
        s.stack.len() >= 2,
        spec_binary(op, s.stack[s.stack.len() - 2], s.stack[s.stack.len() - 1]) == Some(r),
    ensures
        spec_step(constants, n_args, indent, s, Instruction::BinaryOp { op }) == Some(
            Ok::<GenModel, JitCompileError>(GenModel {
                body: s.body + indentation(indent) + spec_c_type(r.ty) + " tmp_"@ + decimal(s.temp_counter) + ";\n"@
                    + indentation(indent) + "tmp_"@ + decimal(s.temp_counter) + " = "@ + r.expr + ";\n"@,
                stack: s.stack.drop_last().drop_last().push(
                    SpecValue { expr: "tmp_"@ + decimal(s.temp_counter), ty: r.ty },
                ),
                temp_counter: s.temp_counter + 1,
                needs_ipow: s.needs_ipow || r.ipow,
                needs_math: s.needs_math || r.math,
                ..s
            }),
        ),
{
    reveal(spec_step);
    reveal_strlit(" ");
    reveal_strlit(" tmp_");
    reveal_strlit("tmp_");
    reveal_strlit(" = ");
    reveal_strlit(";");
    reveal_strlit(";\n");
    reveal_strlit("\n");
    let t = spec_step(constants, n_args, indent, s, Instruction::BinaryOp { op })->Some_0->Ok_0;
    let name = temp_name(s.temp_counter);
    assert(t.body =~= s.body + indentation(indent) + spec_c_type(r.ty) + " tmp_"@ + decimal(s.temp_counter) + ";\n"@
        + indentation(indent) + "tmp_"@ + decimal(s.temp_counter) + " = "@ + r.expr + ";\n"@);
    assert(t.stack =~= s.stack.drop_last().drop_last().push(SpecValue { expr: name, ty: r.ty }));
}

} // verus!
