//! Transpiling bytecode into a register form: each value on the bytecode's
//! stack becomes a numbered variable, and each instruction a list of
//! statements over those variables.

use vstd::prelude::*;

use crate::bigint::{integer_to_i64, integer_value};
use crate::bytecode::{
    BinaryOperator, CodeObject, CodeUnit, ComparisonOperator, ConstantData, Instruction,
    UnaryOperator,
};
use crate::instructions::{int_operator, is_power, is_true_divide, plain_operator, spec_compare_operator};
use crate::text::{decimal, push_i64, push_usize, signed_decimal, string_of};

verus! {

// ---------------------------------------------------------------------------
// The register form.
// ---------------------------------------------------------------------------

/// A numbered variable of the register form.
#[derive(Debug, Copy, Clone, PartialEq, Eq, Structural, Hash, PartialOrd, Ord)]
pub struct Varindex(pub usize);

/// The textual form of a variable.
pub open spec fn spec_varindex_text(v: Varindex) -> Seq<char> {
    "varidx."@ + decimal(v.0 as nat)
}

impl Varindex {
    pub fn as_string(&self) -> (r: String)
        ensures
            r@ == spec_varindex_text(*self),
    {
        proof {
            reveal_strlit("varidx.");
        }
        let mut r = string_of("varidx.");
        push_usize(&mut r, self.0);
        assert(r@ =~= spec_varindex_text(*self));
        r
    }
}

/// The right-hand side of an assignment.
///
/// A float constant is held as its shortest decimal spelling.
#[derive(Debug, Clone)]
pub enum MyExpression {
    Varname(String),
    Variable(Varindex),
    Int(i64),
    Float64(String),
    String(String),
    Struct(Vec<Varindex>),
    UnaryOp(UnaryOperator, Varindex),
    BinaryOp(BinaryOperator, Varindex, Varindex),
    CompareOp(ComparisonOperator, Varindex, Varindex),
    Subscript(Varindex, Varindex),
    GlobalFunction(String),
    Call(Varindex, Vec<Varindex>),
    ConvertToIterator(Varindex),
    IteratorCheck(Varindex),
    IteratorNext(Varindex),
}

/// A statement of the register form.
#[derive(Debug, Clone)]
pub enum MyStatement {
    Assign(Varindex, MyExpression),
    Jump(usize),
    JumpIfTrue(Varindex, usize),
    Return(Varindex),
    PlaceholderJump(Varindex, usize),
    PlaceholderTarget(usize),
    Noop,
}

/// The name of a binary operator.
pub open spec fn binary_operator_name(op: BinaryOperator) -> Seq<char> {
    match op {
        BinaryOperator::Add => "Add"@,
        BinaryOperator::And => "And"@,
        BinaryOperator::FloorDivide => "FloorDivide"@,
        BinaryOperator::Lshift => "Lshift"@,
        BinaryOperator::MatrixMultiply => "MatrixMultiply"@,
        BinaryOperator::Multiply => "Multiply"@,
        BinaryOperator::Remainder => "Remainder"@,
        BinaryOperator::Or => "Or"@,
        BinaryOperator::Power => "Power"@,
        BinaryOperator::Rshift => "Rshift"@,
        BinaryOperator::Subtract => "Subtract"@,
        BinaryOperator::TrueDivide => "TrueDivide"@,
        BinaryOperator::Xor => "Xor"@,
        BinaryOperator::InplaceAdd => "InplaceAdd"@,
        BinaryOperator::InplaceAnd => "InplaceAnd"@,
        BinaryOperator::InplaceFloorDivide => "InplaceFloorDivide"@,
        BinaryOperator::InplaceLshift => "InplaceLshift"@,
        BinaryOperator::InplaceMatrixMultiply => "InplaceMatrixMultiply"@,
        BinaryOperator::InplaceMultiply => "InplaceMultiply"@,
        BinaryOperator::InplaceRemainder => "InplaceRemainder"@,
        BinaryOperator::InplaceOr => "InplaceOr"@,
        BinaryOperator::InplacePower => "InplacePower"@,
        BinaryOperator::InplaceRshift => "InplaceRshift"@,
        BinaryOperator::InplaceSubtract => "InplaceSubtract"@,
        BinaryOperator::InplaceTrueDivide => "InplaceTrueDivide"@,
        BinaryOperator::InplaceXor => "InplaceXor"@,
        BinaryOperator::Subscr => "Subscr"@,
    }
}

/// The listing tells binary operators apart: two different operators have
/// different names.
pub proof fn lemma_binary_operator_names_differ(op1: BinaryOperator, op2: BinaryOperator)
    ensures
        op1 != op2 ==> binary_operator_name(op1) != binary_operator_name(op2),
{
    reveal_strlit("Add");
    reveal_strlit("And");
    reveal_strlit("FloorDivide");
    reveal_strlit("Lshift");
    reveal_strlit("MatrixMultiply");
    reveal_strlit("Multiply");
    reveal_strlit("Remainder");
    reveal_strlit("Or");
    reveal_strlit("Power");
    reveal_strlit("Rshift");
    reveal_strlit("Subtract");
    reveal_strlit("TrueDivide");
    reveal_strlit("Xor");
    reveal_strlit("InplaceAdd");
    reveal_strlit("InplaceAnd");
    reveal_strlit("InplaceFloorDivide");
    reveal_strlit("InplaceLshift");
    reveal_strlit("InplaceMatrixMultiply");
    reveal_strlit("InplaceMultiply");
    reveal_strlit("InplaceRemainder");
    reveal_strlit("InplaceOr");
    reveal_strlit("InplacePower");
    reveal_strlit("InplaceRshift");
    reveal_strlit("InplaceSubtract");
    reveal_strlit("InplaceTrueDivide");
    reveal_strlit("InplaceXor");
    reveal_strlit("Subscr");
    if op1 != op2 {
        let a = binary_operator_name(op1);
        let b = binary_operator_name(op2);
        if a == b {
            assert(a.len() == b.len());
            assert(a[0] == b[0]);
            assert(a[1] == b[1]);
            assert(a[a.len() - 1] == b[b.len() - 1]);
            assert(a[a.len() - 2] == b[b.len() - 2]);
            assert(a.len() >= 6 ==> a[a.len() - 6] == b[b.len() - 6]);
        }
    }
}

/// The listing names each arithmetic operator by what it computes, as the
/// C translation writes it: the operator written ` + ` on integers is
/// `Add`, ` - ` is `Subtract`, and so on, true division is `TrueDivide`
/// and the power `Power`; an in-place operator is named `Inplace` followed
/// by the name of the operator it stands for.
pub proof fn lemma_binary_operator_names_follow_meaning(op: BinaryOperator)
    ensures
        int_operator(op) == Some(" + "@) ==> binary_operator_name(plain_operator(op)) == "Add"@,
        int_operator(op) == Some(" - "@) ==> binary_operator_name(plain_operator(op)) == "Subtract"@,
        int_operator(op) == Some(" * "@) ==> binary_operator_name(plain_operator(op)) == "Multiply"@,
        int_operator(op) == Some(" / "@) ==> binary_operator_name(plain_operator(op)) == "FloorDivide"@,
        int_operator(op) == Some(" % "@) ==> binary_operator_name(plain_operator(op)) == "Remainder"@,
        int_operator(op) == Some(" << "@) ==> binary_operator_name(plain_operator(op)) == "Lshift"@,
        int_operator(op) == Some(" >> "@) ==> binary_operator_name(plain_operator(op)) == "Rshift"@,
        int_operator(op) == Some(" & "@) ==> binary_operator_name(plain_operator(op)) == "And"@,
        int_operator(op) == Some(" | "@) ==> binary_operator_name(plain_operator(op)) == "Or"@,
        int_operator(op) == Some(" ^ "@) ==> binary_operator_name(plain_operator(op)) == "Xor"@,
        is_true_divide(op) ==> binary_operator_name(plain_operator(op)) == "TrueDivide"@,
        is_power(op) ==> binary_operator_name(plain_operator(op)) == "Power"@,
        plain_operator(op) != op ==> binary_operator_name(op) == "Inplace"@ + binary_operator_name(
            plain_operator(op),
        ),
{
    reveal_strlit(" + ");
    reveal_strlit(" - ");
    reveal_strlit(" * ");
    reveal_strlit(" / ");
    reveal_strlit(" % ");
    reveal_strlit(" << ");
    reveal_strlit(" >> ");
    reveal_strlit(" & ");
    reveal_strlit(" | ");
    reveal_strlit(" ^ ");
    reveal_strlit("Add");
    reveal_strlit("And");
    reveal_strlit("FloorDivide");
    reveal_strlit("Lshift");
    reveal_strlit("MatrixMultiply");
    reveal_strlit("Multiply");
    reveal_strlit("Remainder");
    reveal_strlit("Or");
    reveal_strlit("Power");
    reveal_strlit("Rshift");
    reveal_strlit("Subtract");
    reveal_strlit("TrueDivide");
    reveal_strlit("Xor");
    reveal_strlit("InplaceAdd");
    reveal_strlit("InplaceAnd");
    reveal_strlit("InplaceFloorDivide");
    reveal_strlit("InplaceLshift");
    reveal_strlit("InplaceMatrixMultiply");
    reveal_strlit("InplaceMultiply");
    reveal_strlit("InplaceRemainder");
    reveal_strlit("InplaceOr");
    reveal_strlit("InplacePower");
    reveal_strlit("InplaceRshift");
    reveal_strlit("InplaceSubtract");
    reveal_strlit("InplaceTrueDivide");
    reveal_strlit("InplaceXor");
    reveal_strlit("Subscr");
    reveal_strlit("Inplace");
    if int_operator(op) == Some(" + "@) {
        let t = int_operator(op)->Some_0;
        assert(t.len() == " + "@.len());
        assert(t[1] == " + "@[1]);
    }
    if int_operator(op) == Some(" - "@) {
        let t = int_operator(op)->Some_0;
        assert(t.len() == " - "@.len());
        assert(t[1] == " - "@[1]);
    }
    if int_operator(op) == Some(" * "@) {
        let t = int_operator(op)->Some_0;
        assert(t.len() == " * "@.len());
        assert(t[1] == " * "@[1]);
    }
    if int_operator(op) == Some(" / "@) {
        let t = int_operator(op)->Some_0;
        assert(t.len() == " / "@.len());
        assert(t[1] == " / "@[1]);
    }
    if int_operator(op) == Some(" % "@) {
        let t = int_operator(op)->Some_0;
        assert(t.len() == " % "@.len());
        assert(t[1] == " % "@[1]);
    }
    if int_operator(op) == Some(" << "@) {
        let t = int_operator(op)->Some_0;
        assert(t.len() == " << "@.len());
        assert(t[1] == " << "@[1]);
    }
    if int_operator(op) == Some(" >> "@) {
        let t = int_operator(op)->Some_0;
        assert(t.len() == " >> "@.len());
        assert(t[1] == " >> "@[1]);
    }
    if int_operator(op) == Some(" & "@) {
        let t = int_operator(op)->Some_0;
        assert(t.len() == " & "@.len());
        assert(t[1] == " & "@[1]);
    }
    if int_operator(op) == Some(" | "@) {
        let t = int_operator(op)->Some_0;
        assert(t.len() == " | "@.len());
        assert(t[1] == " | "@[1]);
    }
    if int_operator(op) == Some(" ^ "@) {
        let t = int_operator(op)->Some_0;
        assert(t.len() == " ^ "@.len());
        assert(t[1] == " ^ "@[1]);
    }
    if plain_operator(op) != op {
        assert(binary_operator_name(op) =~= "Inplace"@ + binary_operator_name(plain_operator(op)));
    }
}

/// The name of a comparison operator.
pub open spec fn comparison_operator_name(op: ComparisonOperator) -> Seq<char> {
    match op {
        ComparisonOperator::Less => "Less"@,
        ComparisonOperator::LessOrEqual => "LessOrEqual"@,
        ComparisonOperator::Equal => "Equal"@,
        ComparisonOperator::NotEqual => "NotEqual"@,
        ComparisonOperator::Greater => "Greater"@,
        ComparisonOperator::GreaterOrEqual => "GreaterOrEqual"@,
    }
}

/// The listing names each comparison by what it compares, as the C
/// translation writes it: `<` is `Less`, `>` is `Greater`, `<=` is
/// `LessOrEqual`, `>=` is `GreaterOrEqual`, `==` is `Equal` and `!=` is
/// `NotEqual`.
pub proof fn lemma_comparison_names_follow_meaning(op: ComparisonOperator)
    ensures
        spec_compare_operator(op) == "<"@ ==> comparison_operator_name(op) == "Less"@,
        spec_compare_operator(op) == ">"@ ==> comparison_operator_name(op) == "Greater"@,
        spec_compare_operator(op) == "<="@ ==> comparison_operator_name(op) == "LessOrEqual"@,
        spec_compare_operator(op) == ">="@ ==> comparison_operator_name(op) == "GreaterOrEqual"@,
        spec_compare_operator(op) == "=="@ ==> comparison_operator_name(op) == "Equal"@,
        spec_compare_operator(op) == "!="@ ==> comparison_operator_name(op) == "NotEqual"@,
{
    reveal_strlit("<");
    reveal_strlit(">");
    reveal_strlit("<=");
    reveal_strlit(">=");
    reveal_strlit("==");
    reveal_strlit("!=");
    reveal_strlit("Less");
    reveal_strlit("Greater");
    reveal_strlit("LessOrEqual");
    reveal_strlit("GreaterOrEqual");
    reveal_strlit("Equal");
    reveal_strlit("NotEqual");
    if spec_compare_operator(op) == "<"@ {
        let t = spec_compare_operator(op);
        assert(t.len() == "<"@.len());
        assert(t[0] == "<"@[0]);
        assert(t.len() > 1 ==> t[1] == "<"@[1]);
    }
    if spec_compare_operator(op) == ">"@ {
        let t = spec_compare_operator(op);
        assert(t.len() == ">"@.len());
        assert(t[0] == ">"@[0]);
        assert(t.len() > 1 ==> t[1] == ">"@[1]);
    }
    if spec_compare_operator(op) == "<="@ {
        let t = spec_compare_operator(op);
        assert(t.len() == "<="@.len());
        assert(t[0] == "<="@[0]);
        assert(t.len() > 1 ==> t[1] == "<="@[1]);
    }
    if spec_compare_operator(op) == ">="@ {
        let t = spec_compare_operator(op);
        assert(t.len() == ">="@.len());
        assert(t[0] == ">="@[0]);
        assert(t.len() > 1 ==> t[1] == ">="@[1]);
    }
    if spec_compare_operator(op) == "=="@ {
        let t = spec_compare_operator(op);
        assert(t.len() == "=="@.len());
        assert(t[0] == "=="@[0]);
        assert(t.len() > 1 ==> t[1] == "=="@[1]);
    }
    if spec_compare_operator(op) == "!="@ {
        let t = spec_compare_operator(op);
        assert(t.len() == "!="@.len());
        assert(t[0] == "!="@[0]);
        assert(t.len() > 1 ==> t[1] == "!="@[1]);
    }
}

/// The name of a unary operator.
pub open spec fn unary_operator_name(op: UnaryOperator) -> Seq<char> {
    match op {
        UnaryOperator::Not => "Not"@,
        UnaryOperator::Invert => "Invert"@,
        UnaryOperator::Minus => "Minus"@,
        UnaryOperator::Plus => "Plus"@,
    }
}

/// Variables, comma separated.
pub open spec fn varindex_list_text(vs: Seq<Varindex>) -> Seq<char>
    decreases vs.len(),
{
    if vs.len() == 0 {
        Seq::empty()
    } else if vs.len() == 1 {
        spec_varindex_text(vs[0])
    } else {
        varindex_list_text(vs.drop_last()) + ", "@ + spec_varindex_text(vs.last())
    }
}

/// The textual form of an expression.
pub open spec fn spec_expression_text(e: MyExpression) -> Seq<char> {
    match e {
        MyExpression::Varname(s) => "$varname "@ + s@,
        MyExpression::Variable(v) => "$var "@ + spec_varindex_text(v),
        MyExpression::Int(v) => "$int "@ + signed_decimal(v as int),
        MyExpression::Float64(v) => "$float "@ + v@,
        MyExpression::String(v) => "$string "@ + v@,
        MyExpression::Struct(v) => "$struct ["@ + varindex_list_text(v@) + "]"@,
        MyExpression::UnaryOp(op, a) => "$unary_op "@ + unary_operator_name(op) + "("@
            + spec_varindex_text(a) + ")"@,
        MyExpression::BinaryOp(op, a, b) => "$binary_op "@ + binary_operator_name(op) + "("@
            + spec_varindex_text(a) + ", "@ + spec_varindex_text(b) + ")"@,
        MyExpression::CompareOp(op, a, b) => "$compare_op "@ + comparison_operator_name(op) + "("@
            + spec_varindex_text(a) + ", "@ + spec_varindex_text(b) + ")"@,
        MyExpression::Subscript(a, b) => "$subscript "@ + spec_varindex_text(a) + "["@
            + spec_varindex_text(b) + "]"@,
        MyExpression::GlobalFunction(name) => "$global "@ + name@,
        MyExpression::Call(function, args) => "$call "@ + spec_varindex_text(function) + " ("@
            + varindex_list_text(args@) + ")"@,
        MyExpression::ConvertToIterator(v) => "$iterator_convert "@ + spec_varindex_text(v),
        MyExpression::IteratorCheck(v) => "$iterator_check "@ + spec_varindex_text(v),
        MyExpression::IteratorNext(v) => "$iterator_next "@ + spec_varindex_text(v),
    }
}

/// The textual form of a statement.
pub open spec fn spec_statement_text(s: MyStatement) -> Seq<char> {
    match s {
        MyStatement::Assign(lhs, rhs) => spec_varindex_text(lhs) + " = "@ + spec_expression_text(rhs),
        MyStatement::Jump(target) => "jump "@ + decimal(target as nat),
        MyStatement::JumpIfTrue(lhs, target) => "jump "@ + decimal(target as nat) + " if "@
            + spec_varindex_text(lhs),
        MyStatement::Return(lhs) => "return "@ + spec_varindex_text(lhs),
        MyStatement::PlaceholderJump(lhs, id) => "placeholder_jump "@ + decimal(id as nat) + " if "@
            + spec_varindex_text(lhs),
        MyStatement::PlaceholderTarget(id) => "placeholder_target "@ + decimal(id as nat),
        MyStatement::Noop => "noop"@,
    }
}

fn binary_operator_text(op: BinaryOperator) -> (r: &'static str)
    ensures
        r@ == binary_operator_name(op),
{
    match op {
        BinaryOperator::Add => "Add",
        BinaryOperator::And => "And",
        BinaryOperator::FloorDivide => "FloorDivide",
        BinaryOperator::Lshift => "Lshift",
        BinaryOperator::MatrixMultiply => "MatrixMultiply",
        BinaryOperator::Multiply => "Multiply",
        BinaryOperator::Remainder => "Remainder",
        BinaryOperator::Or => "Or",
        BinaryOperator::Power => "Power",
        BinaryOperator::Rshift => "Rshift",
        BinaryOperator::Subtract => "Subtract",
        BinaryOperator::TrueDivide => "TrueDivide",
        BinaryOperator::Xor => "Xor",
        BinaryOperator::InplaceAdd => "InplaceAdd",
        BinaryOperator::InplaceAnd => "InplaceAnd",
        BinaryOperator::InplaceFloorDivide => "InplaceFloorDivide",
        BinaryOperator::InplaceLshift => "InplaceLshift",
        BinaryOperator::InplaceMatrixMultiply => "InplaceMatrixMultiply",
        BinaryOperator::InplaceMultiply => "InplaceMultiply",
        BinaryOperator::InplaceRemainder => "InplaceRemainder",
        BinaryOperator::InplaceOr => "InplaceOr",
        BinaryOperator::InplacePower => "InplacePower",
        BinaryOperator::InplaceRshift => "InplaceRshift",
        BinaryOperator::InplaceSubtract => "InplaceSubtract",
        BinaryOperator::InplaceTrueDivide => "InplaceTrueDivide",
        BinaryOperator::InplaceXor => "InplaceXor",
        BinaryOperator::Subscr => "Subscr",
    }
}

fn comparison_operator_text(op: ComparisonOperator) -> (r: &'static str)
    ensures
        r@ == comparison_operator_name(op),
{
    match op {
        ComparisonOperator::Less => "Less",
        ComparisonOperator::LessOrEqual => "LessOrEqual",
        ComparisonOperator::Equal => "Equal",
        ComparisonOperator::NotEqual => "NotEqual",
        ComparisonOperator::Greater => "Greater",
        ComparisonOperator::GreaterOrEqual => "GreaterOrEqual",
    }
}

fn unary_operator_text(op: UnaryOperator) -> (r: &'static str)
    ensures
        r@ == unary_operator_name(op),
{
    match op {
        UnaryOperator::Not => "Not",
        UnaryOperator::Invert => "Invert",
        UnaryOperator::Minus => "Minus",
        UnaryOperator::Plus => "Plus",
    }
}

/// Appends the variables, comma separated.
pub(crate) fn push_varindex_list(out: &mut String, vs: &Vec<Varindex>)
    ensures
        final(out)@ == old(out)@ + varindex_list_text(vs@),
{
    proof {
        reveal_strlit(", ");
    }
    for i in 0..vs.len()
        invariant
            out@ == old(out)@ + varindex_list_text(vs@.take(i as int)),
    {
        let ghost prev = out@;
        if i > 0 {
            out.append(", ");
        }
        let text = vs[i].as_string();
        out.append(text.as_str());
        proof {
            let t = vs@.take(i + 1);
            assert(t.drop_last() =~= vs@.take(i as int));
            assert(t.last() == vs@[i as int]);
            if i == 0 {
                assert(varindex_list_text(vs@.take(i as int)) =~= Seq::<char>::empty());
            }
            assert(out@ =~= old(out)@ + varindex_list_text(t));
        }
    }
    assert(vs@.take(vs@.len() as int) =~= vs@);
}

/// Appends `prefix` and the textual form of `v`.
fn push_prefixed_var(out: &mut String, prefix: &str, v: Varindex)
    ensures
        final(out)@ == old(out)@ + prefix@ + spec_varindex_text(v),
{
    out.append(prefix);
    let text = v.as_string();
    out.append(text.as_str());
    assert(out@ =~= old(out)@ + prefix@ + spec_varindex_text(v));
}

impl MyExpression {
    pub fn as_string(&self) -> (r: String)
        ensures
            r@ == spec_expression_text(*self),
    {
        proof {
            reveal_strlit("$varname ");
            reveal_strlit("$var ");
            reveal_strlit("$int ");
            reveal_strlit("$float ");
            reveal_strlit("$string ");
            reveal_strlit("$struct [");
            reveal_strlit("]");
            reveal_strlit("$unary_op ");
            reveal_strlit("$binary_op ");
            reveal_strlit("$compare_op ");
            reveal_strlit("(");
            reveal_strlit(")");
            reveal_strlit(", ");
            reveal_strlit("$subscript ");
            reveal_strlit("[");
            reveal_strlit("$global ");
            reveal_strlit("$call ");
            reveal_strlit(" (");
            reveal_strlit("$iterator_convert ");
            reveal_strlit("$iterator_check ");
            reveal_strlit("$iterator_next ");
            reveal_strlit("");
        }
        let mut r = String::new();
        match self {
            MyExpression::Varname(s) => {
                r.append("$varname ");
                r.append(s.as_str());
            },
            MyExpression::Variable(v) => push_prefixed_var(&mut r, "$var ", *v),
            MyExpression::Int(v) => {
                r.append("$int ");
                push_i64(&mut r, *v);
            },
            MyExpression::Float64(v) => {
                r.append("$float ");
                r.append(v.as_str());
            },
            MyExpression::String(v) => {
                r.append("$string ");
                r.append(v.as_str());
            },
            MyExpression::Struct(v) => {
                r.append("$struct [");
                push_varindex_list(&mut r, v);
                r.append("]");
            },
            MyExpression::UnaryOp(op, a) => {
                r.append("$unary_op ");
                r.append(unary_operator_text(*op));
                push_prefixed_var(&mut r, "(", *a);
                r.append(")");
            },
            MyExpression::BinaryOp(op, a, b) => {
                r.append("$binary_op ");
                r.append(binary_operator_text(*op));
                push_prefixed_var(&mut r, "(", *a);
                push_prefixed_var(&mut r, ", ", *b);
                r.append(")");
            },
            MyExpression::CompareOp(op, a, b) => {
                r.append("$compare_op ");
                r.append(comparison_operator_text(*op));
                push_prefixed_var(&mut r, "(", *a);
                push_prefixed_var(&mut r, ", ", *b);
                r.append(")");
            },
            MyExpression::Subscript(a, b) => {
                push_prefixed_var(&mut r, "$subscript ", *a);
                push_prefixed_var(&mut r, "[", *b);
                r.append("]");
            },
            MyExpression::GlobalFunction(name) => {
                r.append("$global ");
                r.append(name.as_str());
            },
            MyExpression::Call(function, args) => {
                push_prefixed_var(&mut r, "$call ", *function);
                r.append(" (");
                push_varindex_list(&mut r, args);
                r.append(")");
            },
            MyExpression::ConvertToIterator(v) => push_prefixed_var(&mut r, "$iterator_convert ", *v),
            MyExpression::IteratorCheck(v) => push_prefixed_var(&mut r, "$iterator_check ", *v),
            MyExpression::IteratorNext(v) => push_prefixed_var(&mut r, "$iterator_next ", *v),
        }
        assert(r@ =~= spec_expression_text(*self));
        r
    }
}

impl MyStatement {
    /// The textual form of this statement.
    pub fn to_text(&self) -> (r: String)
        ensures
            r@ == spec_statement_text(*self),
    {
        proof {
            reveal_strlit(" = ");
            reveal_strlit("jump ");
            reveal_strlit(" if ");
            reveal_strlit("return ");
            reveal_strlit("placeholder_jump ");
            reveal_strlit("placeholder_target ");
            reveal_strlit("noop");
        }
        let mut r = String::new();
        match self {
            MyStatement::Assign(lhs, rhs) => {
                push_prefixed_var(&mut r, "", *lhs);
                r.append(" = ");
                let text = rhs.as_string();
                r.append(text.as_str());
            },
            MyStatement::Jump(target) => {
                r.append("jump ");
                push_usize(&mut r, *target);
            },
            MyStatement::JumpIfTrue(lhs, target) => {
                r.append("jump ");
                push_usize(&mut r, *target);
                push_prefixed_var(&mut r, " if ", *lhs);
            },
            MyStatement::Return(lhs) => push_prefixed_var(&mut r, "return ", *lhs),
            MyStatement::PlaceholderJump(lhs, id) => {
                r.append("placeholder_jump ");
                push_usize(&mut r, *id);
                push_prefixed_var(&mut r, " if ", *lhs);
            },
            MyStatement::PlaceholderTarget(id) => {
                r.append("placeholder_target ");
                push_usize(&mut r, *id);
            },
            MyStatement::Noop => r.append("noop"),
        }
        proof {
            reveal_strlit("");
        }
        assert(r@ =~= spec_statement_text(*self));
        r
    }
}

/// The label of a block: the entry block, or the block of the instruction
/// at an offset.
#[derive(Debug, Clone, Copy, PartialEq, Eq, Structural, PartialOrd, Ord)]
pub enum MyLabel {
    Entry,
    PyLabel(usize),
}

/// The textual form of a label.
pub open spec fn spec_label_text(l: MyLabel) -> Seq<char> {
    match l {
        MyLabel::Entry => "entry"@,
        MyLabel::PyLabel(label) => "py_label_"@ + decimal(label as nat),
    }
}

/// The order of labels: the entry block first, then by offset.
pub open spec fn label_less(a: MyLabel, b: MyLabel) -> bool {
    match (a, b) {
        (MyLabel::Entry, MyLabel::PyLabel(_)) => true,
        (MyLabel::PyLabel(x), MyLabel::PyLabel(y)) => x < y,
        _ => false,
    }
}

impl MyLabel {
    /// The textual form of this label.
    pub fn to_text(&self) -> (r: String)
        ensures
            r@ == spec_label_text(*self),
    {
        proof {
            reveal_strlit("entry");
            reveal_strlit("py_label_");
        }
        match self {
            MyLabel::Entry => string_of("entry"),
            MyLabel::PyLabel(label) => {
                let mut r = string_of("py_label_");
                push_usize(&mut r, *label);
                r
            },
        }
    }
}


// ---------------------------------------------------------------------------
// Views of the register form.
// ---------------------------------------------------------------------------

/// An expression as mathematical values.
pub enum ExprView {
    Varname(Seq<char>),
    Variable(Varindex),
    Int(i64),
    Float64(Seq<char>),
    String(Seq<char>),
    Struct(Seq<Varindex>),
    UnaryOp(UnaryOperator, Varindex),
    BinaryOp(BinaryOperator, Varindex, Varindex),
    CompareOp(ComparisonOperator, Varindex, Varindex),
    Subscript(Varindex, Varindex),
    GlobalFunction(Seq<char>),
    Call(Varindex, Seq<Varindex>),
    ConvertToIterator(Varindex),
    IteratorCheck(Varindex),
    IteratorNext(Varindex),
}

/// A statement as mathematical values.
pub enum StatementView {
    Assign(Varindex, ExprView),
    Jump(usize),
    JumpIfTrue(Varindex, usize),
    Return(Varindex),
    PlaceholderJump(Varindex, usize),
    PlaceholderTarget(usize),
    Noop,
}

impl View for MyExpression {
    type V = ExprView;

    open spec fn view(&self) -> ExprView {
        match self {
            MyExpression::Varname(s) => ExprView::Varname(s@),
            MyExpression::Variable(v) => ExprView::Variable(*v),
            MyExpression::Int(v) => ExprView::Int(*v),
            MyExpression::Float64(v) => ExprView::Float64(v@),
            MyExpression::String(v) => ExprView::String(v@),
            MyExpression::Struct(v) => ExprView::Struct(v@),
            MyExpression::UnaryOp(op, a) => ExprView::UnaryOp(*op, *a),
            MyExpression::BinaryOp(op, a, b) => ExprView::BinaryOp(*op, *a, *b),
            MyExpression::CompareOp(op, a, b) => ExprView::CompareOp(*op, *a, *b),
            MyExpression::Subscript(a, b) => ExprView::Subscript(*a, *b),
            MyExpression::GlobalFunction(s) => ExprView::GlobalFunction(s@),
            MyExpression::Call(f, args) => ExprView::Call(*f, args@),
            MyExpression::ConvertToIterator(v) => ExprView::ConvertToIterator(*v),
            MyExpression::IteratorCheck(v) => ExprView::IteratorCheck(*v),
            MyExpression::IteratorNext(v) => ExprView::IteratorNext(*v),
        }
    }
}

impl View for MyStatement {
    type V = StatementView;

    open spec fn view(&self) -> StatementView {
        match self {
            MyStatement::Assign(lhs, rhs) => StatementView::Assign(*lhs, rhs@),
            MyStatement::Jump(t) => StatementView::Jump(*t),
            MyStatement::JumpIfTrue(v, t) => StatementView::JumpIfTrue(*v, *t),
            MyStatement::Return(v) => StatementView::Return(*v),
            MyStatement::PlaceholderJump(v, id) => StatementView::PlaceholderJump(*v, *id),
            MyStatement::PlaceholderTarget(id) => StatementView::PlaceholderTarget(*id),
            MyStatement::Noop => StatementView::Noop,
        }
    }
}

/// The views of a list of statements.
pub open spec fn statements_view(s: Seq<MyStatement>) -> Seq<StatementView> {
    s.map_values(|x: MyStatement| x@)
}

impl MyExpression {
    /// A copy of this expression.
    pub fn duplicate(&self) -> (r: MyExpression)
        ensures
            r@ == self@,
    {
        match self {
            MyExpression::Varname(s) => MyExpression::Varname(s.clone()),
            MyExpression::Variable(v) => MyExpression::Variable(*v),
            MyExpression::Int(v) => MyExpression::Int(*v),
            MyExpression::Float64(v) => MyExpression::Float64(v.clone()),
            MyExpression::String(v) => MyExpression::String(v.clone()),
            MyExpression::Struct(v) => MyExpression::Struct(copy_varindices(v)),
            MyExpression::UnaryOp(op, a) => MyExpression::UnaryOp(*op, *a),
            MyExpression::BinaryOp(op, a, b) => MyExpression::BinaryOp(*op, *a, *b),
            MyExpression::CompareOp(op, a, b) => MyExpression::CompareOp(*op, *a, *b),
            MyExpression::Subscript(a, b) => MyExpression::Subscript(*a, *b),
            MyExpression::GlobalFunction(s) => MyExpression::GlobalFunction(s.clone()),
            MyExpression::Call(f, args) => MyExpression::Call(*f, copy_varindices(args)),
            MyExpression::ConvertToIterator(v) => MyExpression::ConvertToIterator(*v),
            MyExpression::IteratorCheck(v) => MyExpression::IteratorCheck(*v),
            MyExpression::IteratorNext(v) => MyExpression::IteratorNext(*v),
        }
    }
}

/// A copy of a list of variables.
pub fn copy_varindices(v: &Vec<Varindex>) -> (r: Vec<Varindex>)
    ensures
        r@ == v@,
{
    let mut r: Vec<Varindex> = Vec::new();
    for i in 0..v.len()
        invariant
            r@ == v@.take(i as int),
    {
        r.push(v[i]);
        assert(r@ =~= v@.take(i + 1));
    }
    assert(v@.take(v@.len() as int) =~= v@);
    r
}

// ---------------------------------------------------------------------------
// Blocks and the transpiled object.
// ---------------------------------------------------------------------------

/// The statements of one block, with the unit they came from.
#[derive(Debug, Clone)]
pub struct StatementBlock {
    pub source: Option<CodeUnit>,
    pub statements: Vec<MyStatement>,
}

/// A block as mathematical values: its label, its source and its statements.
pub open spec fn block_view(b: (MyLabel, StatementBlock)) -> (MyLabel, Option<CodeUnit>, Seq<StatementView>) {
    (b.0, b.1.source, statements_view(b.1.statements@))
}

/// The views of a list of blocks.
pub open spec fn blocks_view(bs: Seq<(MyLabel, StatementBlock)>) -> Seq<(MyLabel, Option<CodeUnit>, Seq<StatementView>)> {
    bs.map_values(|b: (MyLabel, StatementBlock)| block_view(b))
}

/// Labels in increasing order, each once.
pub open spec fn labels_increasing(bs: Seq<(MyLabel, StatementBlock)>) -> bool {
    forall|i: int, j: int| 0 <= i < j < bs.len() ==> label_less(#[trigger] bs[i].0, #[trigger] bs[j].0)
}

/// The transpiled form of a function.
///
/// A name map holds its entries in insertion order, and a later entry for
/// a name takes precedence; the maps from numbers are indexed by the
/// number. The blocks are in label order, each label once.
#[derive(Debug, Clone)]
pub struct StatementObject {
    pub varname_to_varindex: Vec<(String, Varindex)>,
    pub varnum_to_varindex: Vec<Varindex>,
    pub constindex_to_varindex: Vec<Varindex>,
    pub blocks: Vec<(MyLabel, StatementBlock)>,
    pub varindex_counter: usize,
}

impl StatementObject {
    pub fn varindex_counter(&self) -> (r: usize)
        ensures
            r == self.varindex_counter,
    {
        self.varindex_counter
    }
}

/// A block of the function IR; it holds nothing yet.
#[derive(Clone, Default)]
pub struct MyBlock {}

/// The function IR: blocks by offset, and variables by name.
#[derive(Clone)]
pub struct FunctionIr {
    pub blocks: Vec<(usize, MyBlock)>,
    pub varname_to_varindex: Vec<(String, Varindex)>,
}

/// The entry that a name map holds for `name`: the last one.
pub open spec fn name_lookup(map: Seq<(String, Varindex)>, name: Seq<char>) -> Option<Varindex>
    decreases map.len(),
{
    if map.len() == 0 {
        None
    } else if map.last().0@ == name {
        Some(map.last().1)
    } else {
        name_lookup(map.drop_last(), name)
    }
}

/// Looks a name up in a name map.
pub fn lookup_name(map: &Vec<(String, Varindex)>, name: &String) -> (r: Option<Varindex>)
    ensures
        r == name_lookup(map@, name@),
{
    let mut i = map.len();
    assert(map@.take(i as int) =~= map@);
    while i > 0
        invariant
            i <= map@.len(),
            name_lookup(map@, name@) == name_lookup(map@.take(i as int), name@),
        decreases i,
    {
        let ghost t = map@.take(i as int);
        assert(t.drop_last() =~= map@.take(i - 1));
        assert(t.last() == map@[i - 1]);
        if map[i - 1].0 == *name {
            return Some(map[i - 1].1);
        }
        i = i - 1;
    }
    assert(map@.take(0) =~= Seq::<(String, Varindex)>::empty());
    None
}

/// The value of an index map at `idx`.
pub open spec fn index_lookup(map: Seq<Varindex>, idx: int) -> Option<Varindex> {
    if 0 <= idx < map.len() {
        Some(map[idx])
    } else {
        None
    }
}

fn lookup_index(map: &Vec<Varindex>, idx: usize) -> (r: Option<Varindex>)
    ensures
        r == index_lookup(map@, idx as int),
{
    if idx < map.len() {
        Some(map[idx])
    } else {
        None
    }
}

// ---------------------------------------------------------------------------
// Jump targets.
// ---------------------------------------------------------------------------

/// The jump targets of the conditional and unconditional jumps, in order.
pub open spec fn spec_jump_table(units: Seq<CodeUnit>) -> Seq<usize>
    decreases units.len(),
{
    if units.len() == 0 {
        Seq::empty()
    } else {
        let rest = spec_jump_table(units.drop_last());
        match units.last().op {
            Instruction::JumpIfFalse { target } => rest.push(target as usize),
            Instruction::JumpIfTrue { target } => rest.push(target as usize),
            Instruction::Jump { target } => rest.push(target as usize),
            _ => rest,
        }
    }
}

/// Some unit is an extended argument, which the transpiler does not take.
pub open spec fn has_extended_arg(units: Seq<CodeUnit>) -> bool {
    exists|i: int| 0 <= i < units.len() && units[i].op is ExtendedArg
}

fn is_extended_arg(op: &Instruction) -> (r: bool)
    ensures
        r == (*op is ExtendedArg),
{
    match op {
        Instruction::ExtendedArg => true,
        _ => false,
    }
}

/// The jump targets of the code object's jumps, in order; `None` where it
/// holds an extended argument.
fn collect_jump_tables(code_object: &CodeObject) -> (r: Option<Vec<usize>>)
    ensures
        has_extended_arg(code_object.instructions@) ==> r is None,
        !has_extended_arg(code_object.instructions@) ==> (r matches Some(v) && v@ == spec_jump_table(
            code_object.instructions@,
        )),
{
    let mut result: Vec<usize> = Vec::new();
    let n = code_object.instructions.len();
    for label in 0..n
        invariant
            n == code_object.instructions@.len(),
            result@ == spec_jump_table(code_object.instructions@.take(label as int)),
            forall|i: int| 0 <= i < label ==> !(code_object.instructions@[i].op is ExtendedArg),
    {
        let ghost t = code_object.instructions@.take(label + 1);
        assert(t.drop_last() =~= code_object.instructions@.take(label as int));
        match &code_object.instructions[label].op {
            Instruction::ExtendedArg => return None,
            Instruction::JumpIfFalse { target } => result.push(*target as usize),
            Instruction::JumpIfTrue { target } => result.push(*target as usize),
            Instruction::Jump { target } => result.push(*target as usize),
            _ => {},
        }
    }
    assert(code_object.instructions@.take(n as int) =~= code_object.instructions@);
    Some(result)
}

/// Some entry of `map` is under `key`.
pub open spec fn has_key(map: Seq<(usize, StatementBlock)>, key: usize) -> bool {
    exists|i: int| 0 <= i < map.len() && #[trigger] map[i].0 == key
}

/// Each key of `map` is under one entry only.
pub open spec fn keys_unique(map: Seq<(usize, StatementBlock)>) -> bool {
    forall|i: int, j: int| 0 <= i < j < map.len() ==> #[trigger] map[i].0 != #[trigger] map[j].0
}

/// The unit of the last jump to `t`, if any.
pub open spec fn last_jump_to(units: Seq<CodeUnit>, t: usize) -> Option<CodeUnit>
    decreases units.len(),
{
    if units.len() == 0 {
        None
    } else {
        let jumps_to_t = match units.last().op {
            Instruction::JumpIfFalse { target } => target as usize == t,
            Instruction::JumpIfTrue { target } => target as usize == t,
            Instruction::Jump { target } => target as usize == t,
            _ => false,
        };
        if jumps_to_t {
            Some(units.last())
        } else {
            last_jump_to(units.drop_last(), t)
        }
    }
}

/// What `collect_blocks` builds from `units`: an entry for each jump
/// target, once, whose block has the unit of the last jump to it as its
/// source and no statements.
pub open spec fn blocks_of_jumps(map: Seq<(usize, StatementBlock)>, units: Seq<CodeUnit>) -> bool {
    &&& forall|t: usize| #[trigger] has_key(map, t) <==> spec_jump_table(units).contains(t)
    &&& keys_unique(map)
    &&& forall|i: int|
        0 <= i < map.len() ==> (#[trigger] map[i]).1.statements@.len() == 0 && map[i].1.source
            == last_jump_to(units, map[i].0)
}

/// The blocks that begin at jump targets: for each target, the unit of the
/// last jump to it, and no statements yet; `None` where the code object
/// holds an extended argument.
fn collect_blocks(code_object: &CodeObject) -> (r: Option<Vec<(usize, StatementBlock)>>)
    ensures
        has_extended_arg(code_object.instructions@) ==> r is None,
        !has_extended_arg(code_object.instructions@) ==> (r matches Some(v) && blocks_of_jumps(
            v@,
            code_object.instructions@,
        )),
{
    let mut result: Vec<(usize, StatementBlock)> = Vec::new();
    let n = code_object.instructions.len();
    for label in 0..n
        invariant
            n == code_object.instructions@.len(),
            forall|i: int| 0 <= i < label ==> !(code_object.instructions@[i].op is ExtendedArg),
            blocks_of_jumps(result@, code_object.instructions@.take(label as int)),
    {
        let ghost units = code_object.instructions@.take(label + 1);
        let ghost prev = code_object.instructions@.take(label as int);
        assert(units.drop_last() =~= prev);
        let unit = &code_object.instructions[label];
        assert(units.last() == *unit);
        let target = match &unit.op {
            Instruction::ExtendedArg => return None,
            Instruction::JumpIfFalse { target } => Some(*target as usize),
            Instruction::JumpIfTrue { target } => Some(*target as usize),
            Instruction::Jump { target } => Some(*target as usize),
            _ => None,
        };
        let ghost table = spec_jump_table(prev);
        let ghost before = result@;
        if let Some(target) = target {
            let block = StatementBlock { source: Some(unit.duplicate()), statements: Vec::new() };
            insert_block(&mut result, target, block);
            assert forall|x: usize| #[trigger] has_key(result@, x) <==> table.push(target).contains(x) by {
                if table.push(target).contains(x) && x != target {
                    let k = choose|k: int| 0 <= k < table.push(target).len() && table.push(target)[k] == x;
                    assert(table[k] == x);
                }
                if x == target {
                    assert(table.push(target)[table.len() as int] == x);
                }
                if table.contains(x) {
                    let k = choose|k: int| 0 <= k < table.len() && table[k] == x;
                    assert(table.push(target)[k] == x);
                }
            }
            assert forall|i: int| 0 <= i < result@.len() implies (#[trigger] result@[i]).1.statements@.len()
                == 0 && result@[i].1.source == last_jump_to(units, result@[i].0) by {
                if result@[i].0 != target {
                    assert(result@[i] == before[i]);
                }
            }
        } else {
            assert forall|i: int| 0 <= i < result@.len() implies (#[trigger] result@[i]).1.statements@.len()
                == 0 && result@[i].1.source == last_jump_to(units, result@[i].0) by {
                assert(result@[i] == before[i]);
            }
        }
    }
    assert(code_object.instructions@.take(n as int) =~= code_object.instructions@);
    Some(result)
}

/// Puts `block` under `key`, in place of the block there was under it.
fn insert_block(map: &mut Vec<(usize, StatementBlock)>, key: usize, block: StatementBlock)
    requires
        keys_unique(old(map)@),
    ensures
        forall|t: usize| #[trigger] has_key(final(map)@, t) <==> (t == key || has_key(old(map)@, t)),
        keys_unique(final(map)@),
        forall|i: int|
            0 <= i < final(map)@.len() ==> ((#[trigger] final(map)@[i]).0 == key ==> final(map)@[i].1
                == block) && (final(map)@[i].0 != key ==> i < old(map)@.len() && final(map)@[i]
                == old(map)@[i]),
{
    let mut i: usize = 0;
    while i < map.len()
        invariant
            i <= map@.len(),
            map@ == old(map)@,
            keys_unique(old(map)@),
            forall|j: int| 0 <= j < i ==> map@[j].0 != key,
        decreases map@.len() - i,
    {
        if map[i].0 == key {
            let ghost before = map@;
            map.set(i, (key, block));
            assert forall|t: usize| #[trigger] has_key(map@, t) <==> (t == key || has_key(before, t)) by {
                if has_key(before, t) {
                    let k = choose|k: int| 0 <= k < before.len() && #[trigger] before[k].0 == t;
                    assert(map@[k].0 == t);
                }
                if t == key {
                    assert(map@[i as int].0 == t);
                }
                if has_key(map@, t) {
                    let k = choose|k: int| 0 <= k < map@.len() && #[trigger] map@[k].0 == t;
                    if k != i {
                        assert(before[k].0 == t);
                    }
                }
            }
            assert forall|a: int, b: int| 0 <= a < b < map@.len() implies #[trigger] map@[a].0
                != #[trigger] map@[b].0 by {
                if a != i && b != i {
                    assert(before[a].0 != before[b].0);
                } else if a == i {
                    assert(before[a].0 != before[b].0);
                } else {
                    assert(before[a].0 != before[b].0);
                }
            }
            assert forall|j: int| 0 <= j < map@.len() implies ((#[trigger] map@[j]).0 == key ==> map@[j].1
                == block) && (map@[j].0 != key ==> j < before.len() && map@[j] == before[j]) by {
                if j != i {
                    assert(map@[j] == before[j]);
                    if before[j].0 == key {
                        if j < i {
                            assert(before[j].0 != before[i as int].0);
                        } else {
                            assert(before[i as int].0 != before[j].0);
                        }
                    }
                }
            }
            return;
        }
        i = i + 1;
    }
    let ghost before = map@;
    map.push((key, block));
    assert forall|t: usize| #[trigger] has_key(map@, t) <==> (t == key || has_key(before, t)) by {
        if t == key {
            assert(map@[before.len() as int].0 == t);
        }
        if has_key(before, t) {
            let k = choose|k: int| 0 <= k < before.len() && #[trigger] before[k].0 == t;
            assert(map@[k].0 == t);
        }
        if has_key(map@, t) {
            let k = choose|k: int| 0 <= k < map@.len() && #[trigger] map@[k].0 == t;
            if k < before.len() {
                assert(before[k].0 == t);
            }
        }
    }
    assert forall|a: int, b: int| 0 <= a < b < map@.len() implies #[trigger] map@[a].0
        != #[trigger] map@[b].0 by {
        if b < before.len() {
            assert(before[a].0 != before[b].0);
        }
    }
    assert forall|j: int| 0 <= j < map@.len() implies ((#[trigger] map@[j]).0 == key ==> map@[j].1 == block)
        && (map@[j].0 != key ==> j < before.len() && map@[j] == before[j]) by {
        if j < before.len() {
            assert(map@[j] == before[j]);
        }
    }
}


// ---------------------------------------------------------------------------
// The transpiler.
// ---------------------------------------------------------------------------

/// What the transpiler looks variables up in: the code object's variable
/// names and the maps that `new` builds.
pub struct TranspileContext {
    pub varnames: Seq<String>,
    pub varname_to_varindex: Seq<(String, Varindex)>,
    pub varnum_to_varindex: Seq<Varindex>,
    pub constindex_to_varindex: Seq<Varindex>,
    pub globalindex_to_varindex: Seq<Varindex>,
}

/// What the instructions change: the simulated stacks and the counters.
pub struct TranspileModel {
    pub stack: Seq<Varindex>,
    pub jumps: Seq<usize>,
    pub counter: nat,
    pub jump_counter: nat,
}

/// The expression that a constant becomes, or `None` for a constant that
/// the transpiler does not take (the transpiler does not survive it).
pub open spec fn spec_convert_constant(c: ConstantData) -> Option<ExprView> {
    match c {
        ConstantData::Integer { negative, digits } => {
            let v = integer_value(negative, digits@);
            if i64::MIN <= v <= i64::MAX {
                Some(ExprView::Int(v as i64))
            } else {
                None
            }
        },
        ConstantData::Float { fixed17: _, shortest } => Some(ExprView::Float64(shortest@)),
        ConstantData::Boolean { value } => Some(ExprView::Int(if value { 1 } else { 0 })),
        ConstantData::Str { value } => match value {
            Some(s) => Some(ExprView::String(s@)),
            None => None,
        },
        ConstantData::PyNone => Some(ExprView::Int(0)),
        _ => None,
    }
}

/// The code object is one that `new` takes: every constant converts, and
/// the variables it numbers fit in a `usize`.
pub open spec fn new_ok(code: CodeObject) -> bool {
    &&& code.names@.len() + code.constants@.len() + code.varnames@.len() <= usize::MAX
    &&& forall|i: int| 0 <= i < code.constants@.len() ==> #[trigger] spec_convert_constant(code.constants@[i]) is Some
}

/// The statements of the entry block: each global, then each constant, is
/// assigned to its own variable.
pub open spec fn entry_statements(code: CodeObject) -> Seq<StatementView> {
    let g = code.names@.len();
    Seq::new(g, |k: int| StatementView::Assign(Varindex(k as usize), ExprView::GlobalFunction(code.names@[k]@)))
        + Seq::new(
        code.constants@.len(),
        |i: int|
            StatementView::Assign(
                Varindex((g + i) as usize),
                spec_convert_constant(code.constants@[i]).unwrap(),
            ),
    )
}

/// The variables of a code object: globals first, then constants, then
/// local variables.
pub open spec fn spec_context(code: CodeObject) -> TranspileContext {
    let g = code.names@.len();
    let c = code.constants@.len();
    TranspileContext {
        varnames: code.varnames@,
        varname_to_varindex: Seq::new(
            code.varnames@.len(),
            |j: int| (code.varnames@[j], Varindex((g + c + j) as usize)),
        ),
        varnum_to_varindex: Seq::new(code.varnames@.len(), |j: int| Varindex((g + c + j) as usize)),
        constindex_to_varindex: Seq::new(c, |i: int| Varindex((g + i) as usize)),
        globalindex_to_varindex: Seq::new(g, |k: int| Varindex(k as usize)),
    }
}

/// The top `n` entries of a stack, top first.
pub open spec fn popped(stack: Seq<Varindex>, n: nat) -> Seq<Varindex> {
    Seq::new(n, |i: int| stack[stack.len() - 1 - i])
}

/// What one instruction does: the new state and the statements it becomes,
/// or `None` where the transpiler does not survive it (an empty stack, an
/// unknown index, a counter past `usize::MAX`, or an instruction that it
/// does not take).
#[verifier::opaque]
pub open spec fn spec_transpile_step(ctx: TranspileContext, t: TranspileModel, op: Instruction) -> Option<
    (TranspileModel, Seq<StatementView>),
> {
    let len = t.stack.len();
    let c = t.counter;
    let lhs = Varindex(c as usize);
    match op {
        Instruction::JumpIfFalse { target } => if len < 1 || c + 1 > usize::MAX {
            None
        } else {
            Some(
                (
                    TranspileModel { stack: t.stack.drop_last().push(lhs), counter: c + 1, ..t },
                    seq![
                        StatementView::Assign(
                            lhs,
                            ExprView::UnaryOp(UnaryOperator::Not, t.stack[len - 1]),
                        ),
                        StatementView::JumpIfTrue(lhs, target as usize),
                    ],
                ),
            )
        },
        Instruction::JumpIfTrue { target } => if len < 1 {
            None
        } else {
            Some(
                (
                    TranspileModel { stack: t.stack.drop_last(), ..t },
                    seq![StatementView::JumpIfTrue(t.stack[len - 1], target as usize)],
                ),
            )
        },
        Instruction::Jump { target } => Some((t, seq![StatementView::Jump(target as usize)])),
        Instruction::LoadFast(idx) => if idx >= ctx.varnames.len() {
            None
        } else {
            match name_lookup(ctx.varname_to_varindex, ctx.varnames[idx as int]@) {
                Some(v) => Some((TranspileModel { stack: t.stack.push(v), ..t }, Seq::empty())),
                None => None,
            }
        },
        Instruction::StoreFast(idx) => match index_lookup(ctx.varnum_to_varindex, idx as int) {
            Some(target) => if len < 1 {
                None
            } else {
                Some(
                    (
                        TranspileModel { stack: t.stack.drop_last(), ..t },
                        seq![
                            StatementView::Assign(target, ExprView::Variable(t.stack[len - 1])),
                        ],
                    ),
                )
            },
            None => None,
        },
        Instruction::LoadConst { idx } => match index_lookup(ctx.constindex_to_varindex, idx as int) {
            Some(v) => Some((TranspileModel { stack: t.stack.push(v), ..t }, Seq::empty())),
            None => None,
        },
        Instruction::BuildTuple { size } => if len < size || c + 1 > usize::MAX {
            None
        } else {
            Some(
                (
                    TranspileModel {
                        stack: t.stack.take(len - size).push(lhs),
                        counter: c + 1,
                        ..t
                    },
                    seq![
                        StatementView::Assign(
                            lhs,
                            ExprView::Struct(popped(t.stack, size as nat)),
                        ),
                    ],
                ),
            )
        },
        Instruction::ReturnValue => if len < 1 {
            None
        } else {
            Some(
                (
                    TranspileModel { stack: t.stack.drop_last(), ..t },
                    seq![StatementView::Return(t.stack[len - 1])],
                ),
            )
        },
        Instruction::ReturnConst { idx } => Some(
            (t, seq![StatementView::Return(Varindex(idx as usize))]),
        ),
        Instruction::CompareOperation { op } => if len < 2 || c + 1 > usize::MAX {
            None
        } else {
            Some(
                (
                    TranspileModel { stack: t.stack.take(len - 2).push(lhs), counter: c + 1, ..t },
                    seq![
                        StatementView::Assign(
                            lhs,
                            ExprView::CompareOp(op, t.stack[len - 2], t.stack[len - 1]),
                        ),
                    ],
                ),
            )
        },
        Instruction::UnaryOperation { op } => if len < 1 || c + 1 > usize::MAX {
            None
        } else {
            Some(
                (
                    TranspileModel { stack: t.stack.drop_last().push(lhs), counter: c + 1, ..t },
                    seq![StatementView::Assign(lhs, ExprView::UnaryOp(op, t.stack[len - 1]))],
                ),
            )
        },
        Instruction::BinaryOperation { op } | Instruction::BinaryOperationInplace { op } => if len
            < 2 || c + 1 > usize::MAX {
            None
        } else {
            Some(
                (
                    TranspileModel { stack: t.stack.take(len - 2).push(lhs), counter: c + 1, ..t },
                    seq![
                        StatementView::Assign(
                            lhs,
                            ExprView::BinaryOp(op, t.stack[len - 2], t.stack[len - 1]),
                        ),
                    ],
                ),
            )
        },
        Instruction::SetupLoop => Some((t, Seq::empty())),
        Instruction::PopBlock => if t.jumps.len() == 0 {
            None
        } else {
            Some(
                (
                    TranspileModel { jumps: t.jumps.drop_last(), ..t },
                    seq![StatementView::PlaceholderTarget(t.jumps.last())],
                ),
            )
        },
        Instruction::LoadGlobal(idx) => match index_lookup(ctx.globalindex_to_varindex, idx as int) {
            Some(v) => Some((TranspileModel { stack: t.stack.push(v), ..t }, Seq::empty())),
            None => None,
        },
        Instruction::CallFunctionPositional { nargs } => if len < nargs + 1 || c + 1 > usize::MAX {
            None
        } else {
            Some(
                (
                    TranspileModel {
                        stack: t.stack.take(len - nargs - 1).push(lhs),
                        counter: c + 1,
                        ..t
                    },
                    seq![
                        StatementView::Assign(
                            lhs,
                            ExprView::Call(t.stack[len - 1 - nargs], popped(t.stack, nargs as nat)),
                        ),
                    ],
                ),
            )
        },
        Instruction::Subscript => if len < 2 || c + 1 > usize::MAX {
            None
        } else {
            Some(
                (
                    TranspileModel { stack: t.stack.take(len - 2).push(lhs), counter: c + 1, ..t },
                    seq![
                        StatementView::Assign(
                            lhs,
                            ExprView::Subscript(t.stack[len - 2], t.stack[len - 1]),
                        ),
                    ],
                ),
            )
        },
        Instruction::GetIter => if len < 1 || c + 1 > usize::MAX {
            None
        } else {
            Some(
                (
                    TranspileModel { stack: t.stack.drop_last().push(lhs), counter: c + 1, ..t },
                    seq![StatementView::Assign(lhs, ExprView::ConvertToIterator(t.stack[len - 1]))],
                ),
            )
        },
        Instruction::ForIter { target: _ } => if len < 1 || c + 4 > usize::MAX || t.jump_counter + 1
            > usize::MAX {
            None
        } else {
            let it = t.stack[len - 1];
            let none = Varindex(c as usize);
            let check = Varindex((c + 1) as usize);
            let exhausted = Varindex((c + 2) as usize);
            let get = Varindex((c + 3) as usize);
            let jp = t.jump_counter as usize;
            Some(
                (
                    TranspileModel {
                        stack: t.stack.drop_last().push(get),
                        jumps: t.jumps.push(jp),
                        counter: c + 4,
                        jump_counter: t.jump_counter + 1,
                    },
                    seq![
                        StatementView::Assign(none, ExprView::Int(0)),
                        StatementView::Assign(check, ExprView::IteratorCheck(it)),
                        StatementView::Assign(
                            exhausted,
                            ExprView::CompareOp(ComparisonOperator::Equal, check, none),
                        ),
                        StatementView::PlaceholderJump(exhausted, jp),
                        StatementView::Assign(get, ExprView::IteratorNext(it)),
                    ],
                ),
            )
        },
        Instruction::Pop => Some((t, Seq::empty())),
        Instruction::Break { target: _ } => Some((t, Seq::empty())),
        _ => None,
    }
}

/// The state after the first `k` units, and the statements of each; `None`
/// where the transpiler does not survive one of them.
pub open spec fn spec_transpile_run(
    ctx: TranspileContext,
    units: Seq<CodeUnit>,
    t0: TranspileModel,
    k: nat,
) -> Option<(TranspileModel, Seq<Seq<StatementView>>)>
    decreases k,
{
    if k == 0 {
        Some((t0, Seq::empty()))
    } else {
        match spec_transpile_run(ctx, units, t0, (k - 1) as nat) {
            None => None,
            Some((t, ss)) => match spec_transpile_step(ctx, t, units[k - 1].op) {
                None => None,
                Some((t2, s)) => Some((t2, ss.push(s))),
            },
        }
    }
}

/// The statements of an instruction's block: a `noop` where there are none.
pub open spec fn block_statements(s: Seq<StatementView>) -> Seq<StatementView> {
    if s.len() == 0 {
        seq![StatementView::Noop]
    } else {
        s
    }
}

/// The blocks that transpiling `units` adds after `before`, for the
/// statements `stmts` of each unit.
pub open spec fn transpiled_blocks(
    before: Seq<(MyLabel, Option<CodeUnit>, Seq<StatementView>)>,
    units: Seq<CodeUnit>,
    stmts: Seq<Seq<StatementView>>,
) -> Seq<(MyLabel, Option<CodeUnit>, Seq<StatementView>)> {
    before + Seq::new(
        stmts.len(),
        |i: int| (MyLabel::PyLabel(i as usize), Some(units[i]), block_statements(stmts[i])),
    )
}

/// Transpiles the bytecode of a code object into the register form.
pub struct TranspileByteCodeToStatementObject<'a> {
    varname_to_varindex: Vec<(String, Varindex)>,
    varnum_to_varindex: Vec<Varindex>,
    constindex_to_varindex: Vec<Varindex>,
    globalindex_to_varindex: Vec<Varindex>,
    blocks: Vec<(MyLabel, StatementBlock)>,
    varindex_counter: usize,
    jump_placeholder_counter: usize,
    code_object: &'a CodeObject,
    stack_varindex: Vec<Varindex>,
    stack_jump_placeholder: Vec<usize>,
    depth_counter: usize,
}

impl<'a> TranspileByteCodeToStatementObject<'a> {
    /// The maps that variables are looked up in.
    pub closed spec fn context(&self) -> TranspileContext {
        TranspileContext {
            varnames: self.code_object.varnames@,
            varname_to_varindex: self.varname_to_varindex@,
            varnum_to_varindex: self.varnum_to_varindex@,
            constindex_to_varindex: self.constindex_to_varindex@,
            globalindex_to_varindex: self.globalindex_to_varindex@,
        }
    }

    /// The stacks and counters.
    pub closed spec fn model(&self) -> TranspileModel {
        TranspileModel {
            stack: self.stack_varindex@,
            jumps: self.stack_jump_placeholder@,
            counter: self.varindex_counter as nat,
            jump_counter: self.jump_placeholder_counter as nat,
        }
    }

    /// The code object being transpiled.
    pub closed spec fn code(&self) -> CodeObject {
        *self.code_object
    }

    /// The blocks so far.
    pub closed spec fn blocks_model(&self) -> Seq<(MyLabel, Option<CodeUnit>, Seq<StatementView>)> {
        blocks_view(self.blocks@)
    }

    /// The variable maps that `new` builds, and the blocks so far, in label
    /// order.
    pub closed spec fn wf(&self) -> bool {
        &&& self.context() == spec_context(*self.code_object)
        &&& labels_increasing(self.blocks@)
        &&& forall|i: int| 0 <= i < self.blocks@.len() ==> #[trigger] self.blocks@[i].0 == MyLabel::Entry
    }

    pub fn new(code_object: &'a CodeObject) -> (r: Self)
        requires
            new_ok(*code_object),
        ensures
            r.wf(),
            r.code() == *code_object,
            r.context() == spec_context(*code_object),
            r.model() == (TranspileModel {
                stack: Seq::empty(),
                jumps: Seq::empty(),
                counter: code_object.names@.len() + code_object.constants@.len()
                    + code_object.varnames@.len(),
                jump_counter: 0,
            }),
            r.blocks_model() == seq![(MyLabel::Entry, None::<CodeUnit>, entry_statements(*code_object))],
    {
        let mut statements: Vec<MyStatement> = Vec::new();
        let mut varindex_counter: usize = 0;
        let mut varname_to_varindex: Vec<(String, Varindex)> = Vec::new();
        let mut varnum_to_varindex: Vec<Varindex> = Vec::new();
        let mut constindex_to_varindex: Vec<Varindex> = Vec::new();
        let mut globalindex_to_varindex: Vec<Varindex> = Vec::new();
        let g = code_object.names.len();
        let nc = code_object.constants.len();
        let nv = code_object.varnames.len();
        let ghost entry = entry_statements(*code_object);
        let ghost ctx = spec_context(*code_object);
        for globalindex in 0..g
            invariant
                g == code_object.names@.len(),
                nc == code_object.constants@.len(),
                nv == code_object.varnames@.len(),
                g + nc + nv <= usize::MAX,
                entry == entry_statements(*code_object),
                ctx == spec_context(*code_object),
                varindex_counter == globalindex,
                globalindex_to_varindex@ == ctx.globalindex_to_varindex.take(globalindex as int),
                statements_view(statements@) == entry.take(globalindex as int),
        {
            let constant_str = code_object.names[globalindex].clone();
            globalindex_to_varindex.push(Varindex(varindex_counter));
            let ghost prev = statements@;
            statements.push(
                MyStatement::Assign(Varindex(varindex_counter), MyExpression::GlobalFunction(constant_str)),
            );
            varindex_counter += 1;
            assert(globalindex_to_varindex@ =~= ctx.globalindex_to_varindex.take(globalindex + 1));
            assert(entry[globalindex as int] == StatementView::Assign(
                Varindex(globalindex),
                ExprView::GlobalFunction(code_object.names@[globalindex as int]@),
            ));
            assert(statements@ == prev.push(statements@.last()));
            assert(statements_view(statements@) =~= statements_view(prev).push(entry[globalindex as int]));
            assert(statements_view(statements@) =~= entry.take(globalindex + 1));
        }
        for constindex in 0..nc
            invariant
                g == code_object.names@.len(),
                nc == code_object.constants@.len(),
                nv == code_object.varnames@.len(),
                g + nc + nv <= usize::MAX,
                new_ok(*code_object),
                entry == entry_statements(*code_object),
                ctx == spec_context(*code_object),
                varindex_counter == g + constindex,
                globalindex_to_varindex@ == ctx.globalindex_to_varindex,
                constindex_to_varindex@ == ctx.constindex_to_varindex.take(constindex as int),
                statements_view(statements@) == entry.take(g + constindex),
        {
            constindex_to_varindex.push(Varindex(varindex_counter));
            let my_expression = Self::convert_borrowed_constant_to_my_expression(
                &code_object.constants[constindex],
            );
            assert(spec_convert_constant(code_object.constants@[constindex as int]) is Some);
            let my_expression = my_expression.unwrap();
            let ghost prev = statements@;
            statements.push(MyStatement::Assign(Varindex(varindex_counter), my_expression));
            varindex_counter += 1;
            assert(constindex_to_varindex@ =~= ctx.constindex_to_varindex.take(constindex + 1));
            assert(entry[g + constindex] == StatementView::Assign(
                Varindex((g + constindex) as usize),
                spec_convert_constant(code_object.constants@[constindex as int]).unwrap(),
            ));
            assert(statements@ == prev.push(statements@.last()));
            assert(statements_view(statements@) =~= statements_view(prev).push(entry[g + constindex]));
            assert(statements_view(statements@) =~= entry.take(g + constindex + 1));
        }
        for varnum in 0..nv
            invariant
                g == code_object.names@.len(),
                nc == code_object.constants@.len(),
                nv == code_object.varnames@.len(),
                g + nc + nv <= usize::MAX,
                ctx == spec_context(*code_object),
                varindex_counter == g + nc + varnum,
                varname_to_varindex@ == ctx.varname_to_varindex.take(varnum as int),
                varnum_to_varindex@ == ctx.varnum_to_varindex.take(varnum as int),
        {
            let varname_str = code_object.varnames[varnum].clone();
            varname_to_varindex.push((varname_str, Varindex(varindex_counter)));
            varnum_to_varindex.push(Varindex(varindex_counter));
            varindex_counter += 1;
            assert(varname_to_varindex@ =~= ctx.varname_to_varindex.take(varnum + 1));
            assert(varnum_to_varindex@ =~= ctx.varnum_to_varindex.take(varnum + 1));
        }
        assert(statements_view(statements@) =~= entry) by {
            assert(entry.take(g + nc) =~= entry);
        }
        assert(ctx.globalindex_to_varindex.take(g as int) =~= ctx.globalindex_to_varindex);
        assert(ctx.constindex_to_varindex.take(nc as int) =~= ctx.constindex_to_varindex);
        assert(ctx.varname_to_varindex.take(nv as int) =~= ctx.varname_to_varindex);
        assert(ctx.varnum_to_varindex.take(nv as int) =~= ctx.varnum_to_varindex);
        let mut blocks: Vec<(MyLabel, StatementBlock)> = Vec::new();
        blocks.push((MyLabel::Entry, StatementBlock { source: None, statements }));
        let r = TranspileByteCodeToStatementObject {
            varname_to_varindex,
            varnum_to_varindex,
            constindex_to_varindex,
            globalindex_to_varindex,
            blocks,
            varindex_counter,
            jump_placeholder_counter: 0,
            depth_counter: 0,
            code_object,
            stack_varindex: Vec::new(),
            stack_jump_placeholder: Vec::new(),
        };
        assert(r.context() =~= spec_context(*code_object));
        assert(r.blocks_model() =~= seq![(MyLabel::Entry, None::<CodeUnit>, entry_statements(*code_object))]);
        assert(r.model().stack =~= Seq::<Varindex>::empty());
        assert(r.model().jumps =~= Seq::<usize>::empty());
        r
    }

    /// Builds the transpiler like `new`, and returns `None` where `new`
    /// does not take the code object.
    pub fn try_new(code_object: &'a CodeObject) -> (r: Option<Self>)
        ensures
            !new_ok(*code_object) ==> r is None,
            new_ok(*code_object) ==> (r matches Some(t) && t.wf() && t.code() == *code_object
                && t.model() == (TranspileModel {
                stack: Seq::empty(),
                jumps: Seq::empty(),
                counter: code_object.names@.len() + code_object.constants@.len()
                    + code_object.varnames@.len(),
                jump_counter: 0,
            }) && t.blocks_model() == seq![(MyLabel::Entry, None::<CodeUnit>, entry_statements(*code_object))]),
    {
        let g = code_object.names.len();
        let nc = code_object.constants.len();
        let nv = code_object.varnames.len();
        if g > usize::MAX - nc || g + nc > usize::MAX - nv {
            return None;
        }
        for i in 0..nc
            invariant
                nc == code_object.constants@.len(),
                forall|j: int| 0 <= j < i ==> #[trigger] spec_convert_constant(code_object.constants@[j]) is Some,
        {
            if Self::convert_borrowed_constant_to_my_expression(&code_object.constants[i]).is_none() {
                return None;
            }
        }
        Some(Self::new(code_object))
    }

    /// The expression that a constant becomes; `None` for one that the
    /// transpiler does not take.
    fn convert_borrowed_constant_to_my_expression(value: &ConstantData) -> (r: Option<MyExpression>)
        ensures
            match spec_convert_constant(*value) {
                Some(e) => r matches Some(x) && x@ == e,
                None => r is None,
            },
    {
        match value {
            ConstantData::Integer { negative, digits } => match integer_to_i64(*negative, digits) {
                Some(v) => Some(MyExpression::Int(v)),
                None => None,
            },
            ConstantData::Float { fixed17: _, shortest } => Some(MyExpression::Float64(shortest.clone())),
            ConstantData::Boolean { value } => {
                if *value {
                    Some(MyExpression::Int(1))
                } else {
                    Some(MyExpression::Int(0))
                }
            },
            ConstantData::Str { value } => match value {
                Some(s) => Some(MyExpression::String(s.clone())),
                None => None,
            },
            ConstantData::PyNone => Some(MyExpression::Int(0)),
            _ => None,
        }
    }
}


impl<'a> TranspileByteCodeToStatementObject<'a> {
    /// The parts that instructions leave alone are those of `other`.
    closed spec fn same_frame(&self, other: &Self) -> bool {
        &&& self.varname_to_varindex == other.varname_to_varindex
        &&& self.varnum_to_varindex == other.varnum_to_varindex
        &&& self.constindex_to_varindex == other.constindex_to_varindex
        &&& self.globalindex_to_varindex == other.globalindex_to_varindex
        &&& self.blocks == other.blocks
        &&& self.code_object == other.code_object
    }

    fn pop_varindex(&mut self) -> (r: Option<Varindex>)
        ensures
            old(self).model().stack.len() == 0 ==> r is None,
            old(self).model().stack.len() > 0 ==> r == Some(old(self).model().stack.last())
                && final(self).model() == (TranspileModel {
                stack: old(self).model().stack.drop_last(),
                ..old(self).model()
            }),
            final(self).same_frame(old(self)),
    {
        self.stack_varindex.pop()
    }

    fn pop_jump_placeholder(&mut self) -> (r: Option<usize>)
        ensures
            old(self).model().jumps.len() == 0 ==> r is None,
            old(self).model().jumps.len() > 0 ==> r == Some(old(self).model().jumps.last())
                && final(self).model() == (TranspileModel {
                jumps: old(self).model().jumps.drop_last(),
                ..old(self).model()
            }),
            final(self).same_frame(old(self)),
    {
        self.stack_jump_placeholder.pop()
    }

    /// Pops `n` variables, top first.
    fn pop_varindices(&mut self, n: usize) -> (r: Option<Vec<Varindex>>)
        ensures
            old(self).model().stack.len() < n ==> r is None,
            old(self).model().stack.len() >= n ==> (r matches Some(v) && v@ == popped(
                old(self).model().stack,
                n as nat,
            ) && final(self).model() == (TranspileModel {
                stack: old(self).model().stack.take(old(self).model().stack.len() - n),
                ..old(self).model()
            })),
            final(self).same_frame(old(self)),
    {
        let ghost s0 = self.stack_varindex@;
        let mut tuple: Vec<Varindex> = Vec::new();
        for i in 0..n
            invariant
                self.same_frame(old(self)),
                self.model().counter == old(self).model().counter,
                self.model().jump_counter == old(self).model().jump_counter,
                self.model().jumps == old(self).model().jumps,
                s0 == old(self).stack_varindex@,
                s0.len() >= i,
                self.stack_varindex@ == s0.take(s0.len() - i),
                tuple@ == popped(s0, i as nat),
        {
            match self.pop_varindex() {
                Some(v) => {
                    tuple.push(v);
                    assert(self.stack_varindex@ =~= s0.take(s0.len() - (i + 1)));
                    assert(tuple@ =~= popped(s0, (i + 1) as nat));
                },
                None => return None,
            }
        }
        Some(tuple)
    }

    fn create_new_variable(&mut self) -> (r: Option<Varindex>)
        ensures
            old(self).model().counter + 1 > usize::MAX ==> r is None,
            old(self).model().counter + 1 <= usize::MAX ==> r == Some(
                Varindex(old(self).varindex_counter),
            ) && final(self).model() == (TranspileModel {
                stack: old(self).model().stack.push(Varindex(old(self).varindex_counter)),
                counter: old(self).model().counter + 1,
                ..old(self).model()
            }),
            final(self).same_frame(old(self)),
    {
        let varindex = self.create_new_variable_without_stack()?;
        self.stack_varindex.push(varindex);
        Some(varindex)
    }

    fn create_new_variable_without_stack(&mut self) -> (r: Option<Varindex>)
        ensures
            old(self).model().counter + 1 > usize::MAX ==> r is None,
            old(self).model().counter + 1 <= usize::MAX ==> r == Some(
                Varindex(old(self).varindex_counter),
            ) && final(self).model() == (TranspileModel {
                counter: old(self).model().counter + 1,
                ..old(self).model()
            }),
            final(self).same_frame(old(self)),
    {
        if self.varindex_counter == usize::MAX {
            return None;
        }
        let varindex_counter = self.varindex_counter;
        self.varindex_counter += 1;
        let varindex = Varindex(varindex_counter);
        Some(varindex)
    }

    fn create_jump_placeholder(&mut self) -> (r: Option<usize>)
        ensures
            old(self).model().jump_counter + 1 > usize::MAX ==> r is None,
            old(self).model().jump_counter + 1 <= usize::MAX ==> r == Some(
                old(self).jump_placeholder_counter,
            ) && final(self).model() == (TranspileModel {
                jumps: old(self).model().jumps.push(old(self).jump_placeholder_counter),
                jump_counter: old(self).model().jump_counter + 1,
                ..old(self).model()
            }),
            final(self).same_frame(old(self)),
    {
        if self.jump_placeholder_counter == usize::MAX {
            return None;
        }
        let jump_placeholder_counter = self.jump_placeholder_counter;
        self.jump_placeholder_counter += 1;
        self.stack_jump_placeholder.push(jump_placeholder_counter);
        Some(jump_placeholder_counter)
    }
}

/// What transpiling one instruction does to the transpiler, as
/// `spec_transpile_step` says.
spec fn transpile_post(
    o: TranspileByteCodeToStatementObject,
    n: TranspileByteCodeToStatementObject,
    op: Instruction,
    r: Option<Vec<MyStatement>>,
) -> bool {
    &&& match spec_transpile_step(o.context(), o.model(), op) {
        None => r is None,
        Some((t, s)) => r matches Some(v) && statements_view(v@) == s && n.model() == t,
    }
    &&& n.same_frame(&o)
}

/// An empty list of statements.
fn no_statements() -> (r: Vec<MyStatement>)
    ensures
        statements_view(r@) == Seq::<StatementView>::empty(),
{
    let r: Vec<MyStatement> = Vec::new();
    assert(statements_view(r@) =~= Seq::<StatementView>::empty());
    r
}

/// A list of one statement.
fn one(s: MyStatement) -> (r: Vec<MyStatement>)
    ensures
        statements_view(r@) == seq![s@],
{
    let mut r: Vec<MyStatement> = Vec::new();
    r.push(s);
    assert(statements_view(r@) =~= seq![s@]);
    r
}

impl<'a> TranspileByteCodeToStatementObject<'a> {
    fn transpile_jump(&mut self, instruction: &Instruction) -> (r: Option<Vec<MyStatement>>)
        requires
            instruction is JumpIfFalse || instruction is JumpIfTrue || instruction is Jump,
        ensures
            transpile_post(*old(self), *final(self), *instruction, r),
    {
        reveal(spec_transpile_step);
        match instruction {
            Instruction::JumpIfFalse { target } => {
                let varindex_rhs = self.pop_varindex()?;
                let varindex_lhs = self.create_new_variable()?;
                let target_label = *target as usize;
                let mut v: Vec<MyStatement> = Vec::new();
                v.push(MyStatement::Assign(varindex_lhs, MyExpression::UnaryOp(UnaryOperator::Not, varindex_rhs)));
                v.push(MyStatement::JumpIfTrue(varindex_lhs, target_label));
                assert(statements_view(v@) =~= seq![
                    StatementView::Assign(varindex_lhs, ExprView::UnaryOp(UnaryOperator::Not, varindex_rhs)),
                    StatementView::JumpIfTrue(varindex_lhs, target_label),
                ]);
                assert(self.model().stack =~= old(self).model().stack.drop_last().push(varindex_lhs));
                Some(v)
            },
            Instruction::JumpIfTrue { target } => {
                let varindex_rhs = self.pop_varindex()?;
                let target_label = *target as usize;
                Some(one(MyStatement::JumpIfTrue(varindex_rhs, target_label)))
            },
            Instruction::Jump { target } => {
                let target_label = *target as usize;
                Some(one(MyStatement::Jump(target_label)))
            },
            _ => None,
        }
    }

    fn transpile_load_store(&mut self, instruction: &Instruction) -> (r: Option<Vec<MyStatement>>)
        requires
            instruction is LoadFast || instruction is StoreFast || instruction is LoadConst
                || instruction is LoadGlobal,
        ensures
            transpile_post(*old(self), *final(self), *instruction, r),
    {
        reveal(spec_transpile_step);
        match instruction {
            Instruction::LoadFast(op_arg) => {
                let idx = *op_arg as usize;
                if idx >= self.code_object.varnames.len() {
                    return None;
                }
                let varname_str = &self.code_object.varnames[idx];
                let varindex_rhs = lookup_name(&self.varname_to_varindex, varname_str)?;
                self.stack_varindex.push(varindex_rhs);
                Some(no_statements())
            },
            Instruction::StoreFast(op_arg) => {
                let idx = *op_arg as usize;
                let varindex_lhs = lookup_index(&self.varnum_to_varindex, idx)?;
                let varindex_rhs = self.pop_varindex()?;
                Some(one(MyStatement::Assign(varindex_lhs, MyExpression::Variable(varindex_rhs))))
            },
            Instruction::LoadConst { idx } => {
                let constindex = *idx as usize;
                let varindex_const = lookup_index(&self.constindex_to_varindex, constindex)?;
                self.stack_varindex.push(varindex_const);
                Some(no_statements())
            },
            Instruction::LoadGlobal(idx) => {
                let global_idx = *idx as usize;
                let varindex_global = lookup_index(&self.globalindex_to_varindex, global_idx)?;
                self.stack_varindex.push(varindex_global);
                Some(no_statements())
            },
            _ => None,
        }
    }

    fn transpile_operation(&mut self, instruction: &Instruction) -> (r: Option<Vec<MyStatement>>)
        requires
            instruction is CompareOperation || instruction is BinaryOperation
                || instruction is BinaryOperationInplace || instruction is Subscript
                || instruction is UnaryOperation || instruction is GetIter
                || instruction is ReturnValue,
        ensures
            transpile_post(*old(self), *final(self), *instruction, r),
    {
        reveal(spec_transpile_step);
        let ghost s0 = self.model().stack;
        match instruction {
            Instruction::CompareOperation { op } => {
                let b = self.pop_varindex()?;
                let a = self.pop_varindex()?;
                let variable_lhs = self.create_new_variable()?;
                assert(self.model().stack =~= s0.take(s0.len() - 2).push(variable_lhs));
                Some(one(MyStatement::Assign(variable_lhs, MyExpression::CompareOp(*op, a, b))))
            },
            Instruction::BinaryOperation { op } | Instruction::BinaryOperationInplace { op } => {
                let b = self.pop_varindex()?;
                let a = self.pop_varindex()?;
                let variable_lhs = self.create_new_variable()?;
                assert(self.model().stack =~= s0.take(s0.len() - 2).push(variable_lhs));
                Some(one(MyStatement::Assign(variable_lhs, MyExpression::BinaryOp(*op, a, b))))
            },
            Instruction::Subscript => {
                let varindex_key = self.pop_varindex()?;
                let varindex_container = self.pop_varindex()?;
                let variable_lhs = self.create_new_variable()?;
                assert(self.model().stack =~= s0.take(s0.len() - 2).push(variable_lhs));
                Some(one(MyStatement::Assign(variable_lhs, MyExpression::Subscript(varindex_container, varindex_key))))
            },
            Instruction::UnaryOperation { op } => {
                let a = self.pop_varindex()?;
                let variable_lhs = self.create_new_variable()?;
                Some(one(MyStatement::Assign(variable_lhs, MyExpression::UnaryOp(*op, a))))
            },
            Instruction::GetIter => {
                let varindex_iterator = self.pop_varindex()?;
                let variable_lhs = self.create_new_variable()?;
                Some(one(MyStatement::Assign(variable_lhs, MyExpression::ConvertToIterator(varindex_iterator))))
            },
            Instruction::ReturnValue => {
                let varindex_return = self.pop_varindex()?;
                Some(one(MyStatement::Return(varindex_return)))
            },
            _ => None,
        }
    }

    fn transpile_collection(&mut self, instruction: &Instruction) -> (r: Option<Vec<MyStatement>>)
        requires
            instruction is BuildTuple || instruction is CallFunctionPositional,
        ensures
            transpile_post(*old(self), *final(self), *instruction, r),
    {
        reveal(spec_transpile_step);
        let ghost s0 = self.model().stack;
        match instruction {
            Instruction::BuildTuple { size } => {
                let size = *size as usize;
                let tuple = self.pop_varindices(size)?;
                let varindex_lhs = self.create_new_variable()?;
                Some(one(MyStatement::Assign(varindex_lhs, MyExpression::Struct(tuple))))
            },
            Instruction::CallFunctionPositional { nargs } => {
                let size = *nargs as usize;
                let tuple = self.pop_varindices(size)?;
                let varindex_function = self.pop_varindex()?;
                let varindex_lhs = self.create_new_variable()?;
                assert(s0.take(s0.len() - size).drop_last() =~= s0.take(s0.len() - size - 1));
                Some(one(MyStatement::Assign(varindex_lhs, MyExpression::Call(varindex_function, tuple))))
            },
            _ => None,
        }
    }

    fn transpile_for_iter(&mut self) -> (r: Option<Vec<MyStatement>>)
        ensures
            forall|target: u32| #[trigger] transpile_post(*old(self), *final(self), Instruction::ForIter { target }, r),
    {
        reveal(spec_transpile_step);
        let ghost m0 = self.model();
        let varindex_iterator = self.pop_varindex()?;
        let varindex_none = self.create_new_variable_without_stack()?;
        let varindex_check = self.create_new_variable_without_stack()?;
        let varindex_exhausted = self.create_new_variable_without_stack()?;
        let jump_placeholder = self.create_jump_placeholder()?;
        let varindex_get = self.create_new_variable()?;
        let mut v: Vec<MyStatement> = Vec::new();
        v.push(MyStatement::Assign(varindex_none, MyExpression::Int(0)));
        v.push(MyStatement::Assign(varindex_check, MyExpression::IteratorCheck(varindex_iterator)));
        v.push(MyStatement::Assign(varindex_exhausted, MyExpression::CompareOp(ComparisonOperator::Equal, varindex_check, varindex_none)));
        v.push(MyStatement::PlaceholderJump(varindex_exhausted, jump_placeholder));
        v.push(MyStatement::Assign(varindex_get, MyExpression::IteratorNext(varindex_iterator)));
        assert(statements_view(v@) =~= seq![
            StatementView::Assign(varindex_none, ExprView::Int(0)),
            StatementView::Assign(varindex_check, ExprView::IteratorCheck(varindex_iterator)),
            StatementView::Assign(varindex_exhausted, ExprView::CompareOp(ComparisonOperator::Equal, varindex_check, varindex_none)),
            StatementView::PlaceholderJump(varindex_exhausted, jump_placeholder),
            StatementView::Assign(varindex_get, ExprView::IteratorNext(varindex_iterator)),
        ]);
        Some(v)
    }

    /// The statements of one instruction. `None` is the error: it comes
    /// exactly on the inputs that the transpiler does not survive (an
    /// instruction it does not take, a stack too short, an index without a
    /// variable, a counter past `usize::MAX`), where `spec_transpile_step`
    /// is `None`; on every other input the result is `Some`.
    fn transpile_instruction(&mut self, _label: usize, instruction: &Instruction) -> (r: Option<Vec<MyStatement>>)
        ensures
            transpile_post(*old(self), *final(self), *instruction, r),
    {
        match instruction {
            Instruction::JumpIfFalse { .. } | Instruction::JumpIfTrue { .. } | Instruction::Jump { .. } => {
                self.transpile_jump(instruction)
            },
            Instruction::LoadFast(_) | Instruction::StoreFast(_) | Instruction::LoadConst { .. }
            | Instruction::LoadGlobal(_) => self.transpile_load_store(instruction),
            Instruction::CompareOperation { .. } | Instruction::BinaryOperation { .. }
            | Instruction::BinaryOperationInplace { .. } | Instruction::Subscript
            | Instruction::UnaryOperation { .. } | Instruction::GetIter | Instruction::ReturnValue => {
                self.transpile_operation(instruction)
            },
            Instruction::BuildTuple { .. } | Instruction::CallFunctionPositional { .. } => {
                self.transpile_collection(instruction)
            },
            Instruction::ForIter { target } => {
                let r = self.transpile_for_iter();
                assert(transpile_post(*old(self), *self, Instruction::ForIter { target: *target }, r));
                r
            },
            Instruction::ReturnConst { idx } => {
                proof {
                    reveal(spec_transpile_step);
                }
                let constindex = *idx as usize;
                Some(one(MyStatement::Return(Varindex(constindex))))
            },
            Instruction::SetupLoop | Instruction::Pop | Instruction::Break { .. } => {
                proof {
                    reveal(spec_transpile_step);
                }
                Some(no_statements())
            },
            Instruction::PopBlock => {
                proof {
                    reveal(spec_transpile_step);
                }
                let jump_placeholder = self.pop_jump_placeholder()?;
                Some(one(MyStatement::PlaceholderTarget(jump_placeholder)))
            },
            _ => {
                proof {
                    reveal(spec_transpile_step);
                }
                None
            },
        }
    }
}


/// A run that gets through `k` units gets through each shorter prefix.
proof fn lemma_transpile_prefix(ctx: TranspileContext, units: Seq<CodeUnit>, t0: TranspileModel, j: nat, k: nat)
    requires
        j <= k,
        spec_transpile_run(ctx, units, t0, k) is Some,
    ensures
        spec_transpile_run(ctx, units, t0, j) is Some,
    decreases k,
{
    if j < k {
        lemma_transpile_prefix(ctx, units, t0, j, (k - 1) as nat);
    }
}

/// A run that gets through the units meets no extended argument.
proof fn lemma_transpile_no_extended_arg(ctx: TranspileContext, units: Seq<CodeUnit>, t0: TranspileModel)
    requires
        spec_transpile_run(ctx, units, t0, units.len()) is Some,
    ensures
        !has_extended_arg(units),
{
    if has_extended_arg(units) {
        let i = choose|i: int| 0 <= i < units.len() && units[i].op is ExtendedArg;
        lemma_transpile_prefix(ctx, units, t0, (i + 1) as nat, units.len());
        reveal(spec_transpile_step);
        assert(spec_transpile_run(ctx, units, t0, (i + 1) as nat) is None);
    }
}

impl<'a> TranspileByteCodeToStatementObject<'a> {
    /// Transpiles every unit into its block; `None` where the transpiler
    /// does not survive one of them.
    fn transpile_units(&mut self) -> (r: Option<Ghost<Seq<Seq<StatementView>>>>)
        requires
            labels_increasing(old(self).blocks@),
            forall|i: int| 0 <= i < old(self).blocks@.len() ==> label_less(#[trigger] old(self).blocks@[i].0, MyLabel::PyLabel(0)),
        ensures
            match spec_transpile_run(old(self).context(), old(self).code().instructions@, old(self).model(), old(self).code().instructions@.len()) {
                None => r is None,
                Some((t, ss)) => r matches Some(g) && g@ == ss && final(self).model() == t
                    && final(self).blocks_model() == transpiled_blocks(old(self).blocks_model(), old(self).code().instructions@, ss),
            },
            final(self).context() == old(self).context(),
            final(self).code() == old(self).code(),
            labels_increasing(final(self).blocks@),
    {
        let ghost ctx = self.context();
        let ghost units = self.code().instructions@;
        let ghost t0 = self.model();
        let ghost b0 = self.blocks_model();
        let ghost mut ss: Seq<Seq<StatementView>> = Seq::empty();
        let n = self.code_object.instructions.len();
        assert(transpiled_blocks(b0, units, ss) =~= b0);
        for label in 0..n
            invariant
                n == units.len(),
                ctx == self.context(),
                ctx == old(self).context(),
                units == self.code().instructions@,
                self.code() == old(self).code(),
                t0 == old(self).model(),
                b0 == old(self).blocks_model(),
                spec_transpile_run(ctx, units, t0, label as nat) == Some((self.model(), ss)),
                ss.len() == label,
                self.blocks_model() == transpiled_blocks(b0, units, ss),
                labels_increasing(self.blocks@),
                forall|i: int| 0 <= i < self.blocks@.len() ==> label_less(#[trigger] self.blocks@[i].0, MyLabel::PyLabel(label)),
        {
            let code_unit = &self.code_object.instructions[label];
            let statements = match self.transpile_instruction(label, &code_unit.op) {
                Some(s) => s,
                None => {
                    proof {
                        lemma_transpile_stops(ctx, units, t0, (label + 1) as nat, n as nat);
                    }
                    return None;
                },
            };
            let ghost s = statements_view(statements@);
            let statements = if statements.len() == 0 {
                one(MyStatement::Noop)
            } else {
                statements
            };
            let ghost before = self.blocks@;
            self.blocks.push((MyLabel::PyLabel(label), StatementBlock { source: Some(code_unit.duplicate()), statements }));
            proof {
                let ghost prev_ss = ss;
                ss = ss.push(s);
                assert(block_statements(s) == statements_view(self.blocks@.last().1.statements@));
                assert(self.blocks@.last().1.source == Some(units[label as int]));
                assert(blocks_view(self.blocks@) =~= blocks_view(before).push(block_view(self.blocks@.last())));
                assert(transpiled_blocks(b0, units, ss) =~= transpiled_blocks(b0, units, prev_ss).push(
                    (MyLabel::PyLabel(label), Some(units[label as int]), block_statements(s)),
                ));
                assert(self.blocks_model() =~= transpiled_blocks(b0, units, ss));
                assert forall|i: int, j: int| 0 <= i < j < self.blocks@.len() implies label_less(#[trigger] self.blocks@[i].0, #[trigger] self.blocks@[j].0) by {
                    if j == before.len() {
                        assert(self.blocks@[i] == before[i]);
                    } else {
                        assert(self.blocks@[i] == before[i]);
                        assert(self.blocks@[j] == before[j]);
                    }
                }
                assert forall|i: int| 0 <= i < self.blocks@.len() implies label_less(#[trigger] self.blocks@[i].0, MyLabel::PyLabel((label + 1) as usize)) by {
                    if i < before.len() {
                        assert(self.blocks@[i] == before[i]);
                    }
                }
            }
        }
        Some(Ghost(ss))
    }
}

/// Once the transpiler does not survive a unit, no longer run does.
proof fn lemma_transpile_stops(ctx: TranspileContext, units: Seq<CodeUnit>, t0: TranspileModel, k: nat, k2: nat)
    requires
        k <= k2,
        spec_transpile_run(ctx, units, t0, k) is None,
    ensures
        spec_transpile_run(ctx, units, t0, k2) is None,
    decreases k2,
{
    if k < k2 {
        lemma_transpile_stops(ctx, units, t0, k, (k2 - 1) as nat);
    }
}

/// The register form that transpiling gives: the maps, every block, and
/// the number of variables; `None` where the transpiler does not survive
/// a unit.
pub open spec fn transpile_result(
    ctx: TranspileContext,
    units: Seq<CodeUnit>,
    t0: TranspileModel,
    b0: Seq<(MyLabel, Option<CodeUnit>, Seq<StatementView>)>,
    r: StatementObject,
) -> bool {
    match spec_transpile_run(ctx, units, t0, units.len()) {
        None => false,
        Some((t, ss)) => {
            &&& blocks_view(r.blocks@) == transpiled_blocks(b0, units, ss)
            &&& labels_increasing(r.blocks@)
            &&& r.varindex_counter == t.counter
            &&& r.varname_to_varindex@ == ctx.varname_to_varindex
            &&& r.varnum_to_varindex@ == ctx.varnum_to_varindex
            &&& r.constindex_to_varindex@ == ctx.constindex_to_varindex
        },
    }
}

impl<'a> TranspileByteCodeToStatementObject<'a> {
    pub fn transpile(self) -> (r: StatementObject)
        requires
            self.wf(),
            spec_transpile_run(self.context(), self.code().instructions@, self.model(), self.code().instructions@.len()) is Some,
        ensures
            transpile_result(self.context(), self.code().instructions@, self.model(), self.blocks_model(), r),
    {
        match self.try_transpile() {
            Some(r) => r,
            None => {
                // The precondition rules this out.
                StatementObject {
                    varname_to_varindex: Vec::new(),
                    varnum_to_varindex: Vec::new(),
                    constindex_to_varindex: Vec::new(),
                    blocks: Vec::new(),
                    varindex_counter: 0,
                }
            },
        }
    }

    /// Transpiles like `transpile`, and returns `None` where the
    /// transpiler does not survive a unit.
    pub fn try_transpile(self) -> (r: Option<StatementObject>)
        requires
            self.wf(),
        ensures
            spec_transpile_run(self.context(), self.code().instructions@, self.model(), self.code().instructions@.len()) is None ==> r is None,
            r matches Some(o) ==> transpile_result(self.context(), self.code().instructions@, self.model(), self.blocks_model(), o),
            spec_transpile_run(self.context(), self.code().instructions@, self.model(), self.code().instructions@.len()) is Some ==> r is Some,
    {
        let mut this = self;
        let jump_tables = collect_jump_tables(this.code_object);
        if jump_tables.is_none() {
            proof {
                if spec_transpile_run(self.context(), self.code().instructions@, self.model(), self.code().instructions@.len()) is Some {
                    lemma_transpile_no_extended_arg(self.context(), self.code().instructions@, self.model());
                }
            }
            return None;
        }
        proof {
            assert forall|i: int| 0 <= i < this.blocks@.len() implies label_less(#[trigger] this.blocks@[i].0, MyLabel::PyLabel(0)) by {
                assert(this.blocks@[i].0 == MyLabel::Entry);
            }
        }
        let ghost_ss = this.transpile_units();
        if ghost_ss.is_none() {
            return None;
        }
        Some(StatementObject {
            varname_to_varindex: this.varname_to_varindex,
            varnum_to_varindex: this.varnum_to_varindex,
            constindex_to_varindex: this.constindex_to_varindex,
            blocks: this.blocks,
            varindex_counter: this.varindex_counter,
        })
    }
}


// ---------------------------------------------------------------------------
// How the register form numbers its variables.
// ---------------------------------------------------------------------------

/// Every variable that the statements assign is numbered below `n`.
pub open spec fn assigns_below(ss: Seq<StatementView>, n: nat) -> bool {
    forall|j: int|
        0 <= j < ss.len() ==> (#[trigger] ss[j] matches StatementView::Assign(lhs, _) ==> (lhs.0 as nat)
            < n)
}

/// The local variables of a context are numbered below `n`.
pub open spec fn context_below(ctx: TranspileContext, n: nat) -> bool {
    forall|j: int| 0 <= j < ctx.varnum_to_varindex.len() ==> ((#[trigger] ctx.varnum_to_varindex[j]).0 as nat) < n
}

/// A comparison compares the value pushed first with the value on top:
/// after loading a local variable and then a constant, the comparison
/// assigns a new variable, numbered by the counter, the comparison of the
/// local's variable (on the left) with the constant's (on the right), and
/// leaves that new variable on the stack in place of the two.
pub proof fn lemma_comparison_operand_order(
    ctx: TranspileContext,
    units: Seq<CodeUnit>,
    t0: TranspileModel,
    i: u32,
    j: u32,
    op: ComparisonOperator,
    vx: Varindex,
    vy: Varindex,
)
    requires
        units.len() == 3,
        units[0].op == Instruction::LoadFast(i),
        units[1].op == (Instruction::LoadConst { idx: j }),
        units[2].op == (Instruction::CompareOperation { op }),
        i < ctx.varnames.len(),
        name_lookup(ctx.varname_to_varindex, ctx.varnames[i as int]@) == Some(vx),
        index_lookup(ctx.constindex_to_varindex, j as int) == Some(vy),
        t0.counter + 1 <= usize::MAX,
    ensures
        spec_transpile_run(ctx, units, t0, 3) matches Some((t3, ss)) && {
            &&& ss.len() == 3
            &&& ss[0] == Seq::<StatementView>::empty()
            &&& ss[1] == Seq::<StatementView>::empty()
            &&& ss[2] == seq![
                StatementView::Assign(Varindex(t0.counter as usize), ExprView::CompareOp(op, vx, vy)),
            ]
            &&& t3.stack == t0.stack.push(Varindex(t0.counter as usize))
            &&& t3.counter == t0.counter + 1
        },
{
    reveal(spec_transpile_step);
    reveal_with_fuel(spec_transpile_run, 4);
    let t1 = TranspileModel { stack: t0.stack.push(vx), ..t0 };
    let t2 = TranspileModel { stack: t1.stack.push(vy), ..t1 };
    assert(spec_transpile_step(ctx, t0, units[0].op) == Some((t1, Seq::<StatementView>::empty())));
    assert(spec_transpile_step(ctx, t1, units[1].op) == Some((t2, Seq::<StatementView>::empty())));
    assert(t2.stack[t2.stack.len() - 2] == vx);
    assert(t2.stack[t2.stack.len() - 1] == vy);
    assert(t2.stack.take(t2.stack.len() - 2) =~= t0.stack);
}

/// A binary operation takes the value pushed first as its left operand and
/// the value on top as its right one: after loading a local variable and
/// then a constant, the operation assigns a new variable, numbered by the
/// counter, the operation applied to the local's variable (on the left) and
/// the constant's (on the right), and leaves that new variable on the stack
/// in place of the two.
pub proof fn lemma_binary_operand_order(
    ctx: TranspileContext,
    units: Seq<CodeUnit>,
    t0: TranspileModel,
    i: u32,
    j: u32,
    op: BinaryOperator,
    vx: Varindex,
    vy: Varindex,
)
    requires
        units.len() == 3,
        units[0].op == Instruction::LoadFast(i),
        units[1].op == (Instruction::LoadConst { idx: j }),
        units[2].op == (Instruction::BinaryOperation { op }),
        i < ctx.varnames.len(),
        name_lookup(ctx.varname_to_varindex, ctx.varnames[i as int]@) == Some(vx),
        index_lookup(ctx.constindex_to_varindex, j as int) == Some(vy),
        t0.counter + 1 <= usize::MAX,
    ensures
        spec_transpile_run(ctx, units, t0, 3) matches Some((t3, ss)) && {
            &&& ss.len() == 3
            &&& ss[0] == Seq::<StatementView>::empty()
            &&& ss[1] == Seq::<StatementView>::empty()
            &&& ss[2] == seq![
                StatementView::Assign(Varindex(t0.counter as usize), ExprView::BinaryOp(op, vx, vy)),
            ]
            &&& t3.stack == t0.stack.push(Varindex(t0.counter as usize))
            &&& t3.counter == t0.counter + 1
        },
{
    reveal(spec_transpile_step);
    reveal_with_fuel(spec_transpile_run, 4);
    let t1 = TranspileModel { stack: t0.stack.push(vx), ..t0 };
    let t2 = TranspileModel { stack: t1.stack.push(vy), ..t1 };
    assert(spec_transpile_step(ctx, t0, units[0].op) == Some((t1, Seq::<StatementView>::empty())));
    assert(spec_transpile_step(ctx, t1, units[1].op) == Some((t2, Seq::<StatementView>::empty())));
    assert(t2.stack[t2.stack.len() - 2] == vx);
    assert(t2.stack[t2.stack.len() - 1] == vy);
    assert(t2.stack.take(t2.stack.len() - 2) =~= t0.stack);
}

proof fn lemma_step_assigns_below(ctx: TranspileContext, t: TranspileModel, op: Instruction)
    requires
        context_below(ctx, t.counter),
        t.counter <= usize::MAX,
    ensures
        spec_transpile_step(ctx, t, op) matches Some((t2, s)) ==> t.counter <= t2.counter <= usize::MAX
            && assigns_below(s, t2.counter),
{
    reveal(spec_transpile_step);
}

proof fn lemma_run_assigns_below(ctx: TranspileContext, units: Seq<CodeUnit>, t0: TranspileModel, k: nat)
    requires
        context_below(ctx, t0.counter),
        t0.counter <= usize::MAX,
    ensures
        spec_transpile_run(ctx, units, t0, k) matches Some((t, ss)) ==> {
            &&& t0.counter <= t.counter <= usize::MAX
            &&& ss.len() == k
            &&& forall|i: int| 0 <= i < k ==> assigns_below(#[trigger] ss[i], t.counter)
        },
    decreases k,
{
    if k > 0 {
        lemma_run_assigns_below(ctx, units, t0, (k - 1) as nat);
        if let Some((t, ss)) = spec_transpile_run(ctx, units, t0, (k - 1) as nat) {
            lemma_step_assigns_below(ctx, t, units[k - 1].op);
            if let Some((t2, s)) = spec_transpile_step(ctx, t, units[k - 1].op) {
                let ss2 = ss.push(s);
                assert forall|i: int| 0 <= i < k implies assigns_below(#[trigger] ss2[i], t2.counter) by {
                    if i < k - 1 {
                        assert(ss2[i] == ss[i]);
                        assert(assigns_below(ss[i], t.counter));
                    }
                }
            }
        }
    }
}

/// The register form numbers its variables below its counter: every
/// statement of every block of a transpiled object assigns a variable
/// numbered below the counter that the object ends with.
pub proof fn lemma_variables_below_counter(code: CodeObject, r: StatementObject)
    requires
        new_ok(code),
        transpile_result(
            spec_context(code),
            code.instructions@,
            TranspileModel {
                stack: Seq::empty(),
                jumps: Seq::empty(),
                counter: code.names@.len() + code.constants@.len() + code.varnames@.len(),
                jump_counter: 0,
            },
            seq![(MyLabel::Entry, None::<CodeUnit>, entry_statements(code))],
            r,
        ),
    ensures
        forall|i: int|
            0 <= i < r.blocks@.len() ==> assigns_below(
                statements_view(#[trigger] r.blocks@[i].1.statements@),
                r.varindex_counter as nat,
            ),
{
    let ctx = spec_context(code);
    let units = code.instructions@;
    let g = code.names@.len();
    let c = code.constants@.len();
    let t0 = TranspileModel {
        stack: Seq::empty(),
        jumps: Seq::empty(),
        counter: g + c + code.varnames@.len(),
        jump_counter: 0,
    };
    let b0 = seq![(MyLabel::Entry, None::<CodeUnit>, entry_statements(code))];
    assert(context_below(ctx, t0.counter));
    lemma_run_assigns_below(ctx, units, t0, units.len());
    let (t, ss) = spec_transpile_run(ctx, units, t0, units.len())->Some_0;
    let blocks = transpiled_blocks(b0, units, ss);
    assert(blocks_view(r.blocks@).len() == r.blocks@.len());
    assert(blocks.len() == 1 + ss.len());
    assert forall|i: int| 0 <= i < r.blocks@.len() implies assigns_below(
        statements_view(#[trigger] r.blocks@[i].1.statements@),
        r.varindex_counter as nat,
    ) by {
        assert(blocks_view(r.blocks@)[i] == block_view(r.blocks@[i]));
        let sv = statements_view(r.blocks@[i].1.statements@);
        assert(sv == blocks[i].2);
        if i == 0 {
            assert(sv == entry_statements(code));
            assert forall|j: int| 0 <= j < sv.len() implies (#[trigger] sv[j] matches StatementView::Assign(
                lhs,
                _,
            ) ==> (lhs.0 as nat) < r.varindex_counter as nat) by {
                if j < g {
                } else {
                }
            }
        } else {
            assert(0 <= i - 1 < ss.len());
            assert(blocks[i] == (MyLabel::PyLabel((i - 1) as usize), Some(units[i - 1]), block_statements(ss[i - 1])));
            assert(sv == block_statements(ss[i - 1]));
            assert(assigns_below(ss[i - 1], t.counter));
        }
    }
}

// ---------------------------------------------------------------------------
// Textual forms.
// ---------------------------------------------------------------------------

/// The opcode name of an instruction.
pub open spec fn opcode_name(op: Instruction) -> Seq<char> {
    match op {
        Instruction::Nop => "Nop"@,
        Instruction::Resume => "Resume"@,
        Instruction::ExtendedArg => "ExtendedArg"@,
        Instruction::PopBlock => "PopBlock"@,
        Instruction::PopTop => "PopTop"@,
        Instruction::LoadConst { .. } => "LoadConst"@,
        Instruction::LoadFast(_) => "LoadFast"@,
        Instruction::StoreFast(_) => "StoreFast"@,
        Instruction::LoadGlobal(_) => "LoadGlobal"@,
        Instruction::BinaryOp { .. } => "BinaryOp"@,
        Instruction::BinaryOperation { .. } => "BinaryOperation"@,
        Instruction::BinaryOperationInplace { .. } => "BinaryOperationInplace"@,
        Instruction::CompareOperation { .. } => "CompareOperation"@,
        Instruction::UnaryOperation { .. } => "UnaryOperation"@,
        Instruction::UnaryNegative => "UnaryNegative"@,
        Instruction::UnaryNot => "UnaryNot"@,
        Instruction::ToBool => "ToBool"@,
        Instruction::ReturnValue => "ReturnValue"@,
        Instruction::ReturnConst { .. } => "ReturnConst"@,
        Instruction::Jump { .. } => "Jump"@,
        Instruction::PopJumpIfFalse { .. } => "PopJumpIfFalse"@,
        Instruction::PopJumpIfTrue { .. } => "PopJumpIfTrue"@,
        Instruction::JumpIfFalse { .. } => "JumpIfFalse"@,
        Instruction::JumpIfTrue { .. } => "JumpIfTrue"@,
        Instruction::Swap { .. } => "Swap"@,
        Instruction::CopyItem { .. } => "CopyItem"@,
        Instruction::BuildTuple { .. } => "BuildTuple"@,
        Instruction::UnpackSequence { .. } => "UnpackSequence"@,
        Instruction::SetupLoop => "SetupLoop"@,
        Instruction::CallFunctionPositional { .. } => "CallFunctionPositional"@,
        Instruction::Subscript => "Subscript"@,
        Instruction::GetIter => "GetIter"@,
        Instruction::ForIter { .. } => "ForIter"@,
        Instruction::Pop => "Pop"@,
        Instruction::Break { .. } => "Break"@,
        Instruction::Other { name } => name@,
    }
}

/// The textual form of a code unit: its opcode name and its raw argument.
pub open spec fn spec_code_unit_text(u: CodeUnit) -> Seq<char> {
    opcode_name(u.op) + " "@ + decimal(u.arg as nat)
}

fn opcode_name_string(op: &Instruction) -> (r: String)
    ensures
        r@ == opcode_name(*op),
{
    proof {
        reveal_strlit("Nop");
        reveal_strlit("Resume");
        reveal_strlit("ExtendedArg");
        reveal_strlit("PopBlock");
        reveal_strlit("PopTop");
        reveal_strlit("LoadConst");
        reveal_strlit("LoadFast");
        reveal_strlit("StoreFast");
        reveal_strlit("LoadGlobal");
        reveal_strlit("BinaryOp");
        reveal_strlit("BinaryOperation");
        reveal_strlit("BinaryOperationInplace");
        reveal_strlit("CompareOperation");
        reveal_strlit("UnaryOperation");
        reveal_strlit("UnaryNegative");
        reveal_strlit("UnaryNot");
        reveal_strlit("ToBool");
        reveal_strlit("ReturnValue");
        reveal_strlit("ReturnConst");
        reveal_strlit("Jump");
        reveal_strlit("PopJumpIfFalse");
        reveal_strlit("PopJumpIfTrue");
        reveal_strlit("JumpIfFalse");
        reveal_strlit("JumpIfTrue");
        reveal_strlit("Swap");
        reveal_strlit("CopyItem");
        reveal_strlit("BuildTuple");
        reveal_strlit("UnpackSequence");
        reveal_strlit("SetupLoop");
        reveal_strlit("CallFunctionPositional");
        reveal_strlit("Subscript");
        reveal_strlit("GetIter");
        reveal_strlit("ForIter");
        reveal_strlit("Pop");
        reveal_strlit("Break");
    }
    match op {
        Instruction::Nop => string_of("Nop"),
        Instruction::Resume => string_of("Resume"),
        Instruction::ExtendedArg => string_of("ExtendedArg"),
        Instruction::PopBlock => string_of("PopBlock"),
        Instruction::PopTop => string_of("PopTop"),
        Instruction::LoadConst { .. } => string_of("LoadConst"),
        Instruction::LoadFast(_) => string_of("LoadFast"),
        Instruction::StoreFast(_) => string_of("StoreFast"),
        Instruction::LoadGlobal(_) => string_of("LoadGlobal"),
        Instruction::BinaryOp { .. } => string_of("BinaryOp"),
        Instruction::BinaryOperation { .. } => string_of("BinaryOperation"),
        Instruction::BinaryOperationInplace { .. } => string_of("BinaryOperationInplace"),
        Instruction::CompareOperation { .. } => string_of("CompareOperation"),
        Instruction::UnaryOperation { .. } => string_of("UnaryOperation"),
        Instruction::UnaryNegative => string_of("UnaryNegative"),
        Instruction::UnaryNot => string_of("UnaryNot"),
        Instruction::ToBool => string_of("ToBool"),
        Instruction::ReturnValue => string_of("ReturnValue"),
        Instruction::ReturnConst { .. } => string_of("ReturnConst"),
        Instruction::Jump { .. } => string_of("Jump"),
        Instruction::PopJumpIfFalse { .. } => string_of("PopJumpIfFalse"),
        Instruction::PopJumpIfTrue { .. } => string_of("PopJumpIfTrue"),
        Instruction::JumpIfFalse { .. } => string_of("JumpIfFalse"),
        Instruction::JumpIfTrue { .. } => string_of("JumpIfTrue"),
        Instruction::Swap { .. } => string_of("Swap"),
        Instruction::CopyItem { .. } => string_of("CopyItem"),
        Instruction::BuildTuple { .. } => string_of("BuildTuple"),
        Instruction::UnpackSequence { .. } => string_of("UnpackSequence"),
        Instruction::SetupLoop => string_of("SetupLoop"),
        Instruction::CallFunctionPositional { .. } => string_of("CallFunctionPositional"),
        Instruction::Subscript => string_of("Subscript"),
        Instruction::GetIter => string_of("GetIter"),
        Instruction::ForIter { .. } => string_of("ForIter"),
        Instruction::Pop => string_of("Pop"),
        Instruction::Break { .. } => string_of("Break"),
        Instruction::Other { name } => name.clone(),
    }
}

pub fn stringify_code_object(code_unit: &CodeUnit) -> (r: String)
    ensures
        r@ == spec_code_unit_text(*code_unit),
{
    proof {
        reveal_strlit(" ");
    }
    let mut r = opcode_name_string(&code_unit.op);
    r.append(" ");
    push_usize(&mut r, code_unit.arg as usize);
    assert(r@ =~= spec_code_unit_text(*code_unit));
    r
}


/// Statements, one per line, each after `prefix`.
pub open spec fn statement_lines(prefix: Seq<char>, ss: Seq<MyStatement>) -> Seq<char>
    decreases ss.len(),
{
    if ss.len() == 0 {
        Seq::empty()
    } else {
        statement_lines(prefix, ss.drop_last()) + prefix + spec_statement_text(ss.last()) + "\n"@
    }
}

/// The line that opens a block in the transformation listing.
pub open spec fn block_header(label: MyLabel, source: Option<CodeUnit>) -> Seq<char> {
    match source {
        Some(s) => "label: "@ + spec_label_text(label) + " "@ + spec_code_unit_text(s) + "\n"@,
        None => "label: "@ + spec_label_text(label) + "\n"@,
    }
}

/// The transformation listing: each block's label and source, then its
/// statements, indented by a tab.
pub open spec fn spec_transformation_text(blocks: Seq<(MyLabel, StatementBlock)>) -> Seq<char>
    decreases blocks.len(),
{
    if blocks.len() == 0 {
        Seq::empty()
    } else {
        spec_transformation_text(blocks.drop_last()) + block_header(blocks.last().0, blocks.last().1.source)
            + statement_lines("\t"@, blocks.last().1.statements@)
    }
}

/// How many statements the blocks hold.
pub open spec fn statement_count(blocks: Seq<(MyLabel, StatementBlock)>) -> nat
    decreases blocks.len(),
{
    if blocks.len() == 0 {
        0
    } else {
        statement_count(blocks.drop_last()) + blocks.last().1.statements@.len()
    }
}

/// A label in the flat listing: `-` for the entry block.
pub open spec fn flat_label(l: MyLabel) -> Seq<char> {
    match l {
        MyLabel::Entry => "-"@,
        MyLabel::PyLabel(x) => decimal(x as nat),
    }
}

/// The rows of one block in the flat listing: label, index over all
/// statements, index in the block, statement.
pub open spec fn flat_rows(label: Seq<char>, first: nat, ss: Seq<MyStatement>) -> Seq<char>
    decreases ss.len(),
{
    if ss.len() == 0 {
        Seq::empty()
    } else {
        let j = (ss.len() - 1) as nat;
        flat_rows(label, first, ss.drop_last()) + label + "\t"@ + decimal(first + j) + "\t"@
            + decimal(j) + "\t"@ + spec_statement_text(ss.last()) + "\n"@
    }
}

/// The rows of all blocks in the flat listing.
pub open spec fn flat_blocks(blocks: Seq<(MyLabel, StatementBlock)>) -> Seq<char>
    decreases blocks.len(),
{
    if blocks.len() == 0 {
        Seq::empty()
    } else {
        flat_blocks(blocks.drop_last()) + flat_rows(
            flat_label(blocks.last().0),
            statement_count(blocks.drop_last()),
            blocks.last().1.statements@,
        )
    }
}

/// The flat listing: a header line, then one row per statement.
pub open spec fn spec_flatten_text(blocks: Seq<(MyLabel, StatementBlock)>) -> Seq<char> {
    "label\tglobal\tlocal\tstatement\n"@ + flat_blocks(blocks)
}

/// Appends each statement after `prefix`, one per line.
fn push_statement_lines(out: &mut String, prefix: &str, ss: &Vec<MyStatement>)
    ensures
        final(out)@ == old(out)@ + statement_lines(prefix@, ss@),
{
    proof {
        reveal_strlit("\n");
    }
    for i in 0..ss.len()
        invariant
            out@ == old(out)@ + statement_lines(prefix@, ss@.take(i as int)),
    {
        out.append(prefix);
        let text = ss[i].to_text();
        out.append(text.as_str());
        out.append("\n");
        proof {
            let t = ss@.take(i + 1);
            assert(t.drop_last() =~= ss@.take(i as int));
            assert(out@ =~= old(out)@ + statement_lines(prefix@, t));
        }
    }
    assert(ss@.take(ss@.len() as int) =~= ss@);
}

/// Appends the rows of one block of the flat listing.
fn push_flat_rows(out: &mut String, label: &String, first: usize, ss: &Vec<MyStatement>)
    requires
        first + ss@.len() <= usize::MAX,
    ensures
        final(out)@ == old(out)@ + flat_rows(label@, first as nat, ss@),
{
    proof {
        reveal_strlit("\t");
        reveal_strlit("\n");
    }
    for j in 0..ss.len()
        invariant
            first + ss@.len() <= usize::MAX,
            out@ == old(out)@ + flat_rows(label@, first as nat, ss@.take(j as int)),
    {
        out.append(label.as_str());
        out.append("\t");
        push_usize(out, first + j);
        out.append("\t");
        push_usize(out, j);
        out.append("\t");
        let text = ss[j].to_text();
        out.append(text.as_str());
        out.append("\n");
        proof {
            let t = ss@.take(j + 1);
            assert(t.drop_last() =~= ss@.take(j as int));
            assert(out@ =~= old(out)@ + flat_rows(label@, first as nat, t));
        }
    }
    assert(ss@.take(ss@.len() as int) =~= ss@);
}

proof fn lemma_statement_count_prefix(blocks: Seq<(MyLabel, StatementBlock)>, k: int)
    requires
        0 <= k <= blocks.len(),
    ensures
        statement_count(blocks.take(k)) <= statement_count(blocks),
    decreases blocks.len() - k,
{
    if k < blocks.len() {
        lemma_statement_count_prefix(blocks, k + 1);
        assert(blocks.take(k + 1).drop_last() =~= blocks.take(k));
    } else {
        assert(blocks.take(k) =~= blocks);
    }
}

impl StatementObject {
    /// The transformation listing of this object.
    pub fn transformation_text(&self) -> (r: String)
        ensures
            r@ == spec_transformation_text(self.blocks@),
    {
        proof {
            reveal_strlit("label: ");
            reveal_strlit(" ");
            reveal_strlit("\n");
            reveal_strlit("\t");
            reveal_strlit("");
        }
        let mut r = String::new();
        for k in 0..self.blocks.len()
            invariant
                r@ == spec_transformation_text(self.blocks@.take(k as int)),
        {
            let block = &self.blocks[k];
            r.append("label: ");
            let label = block.0.to_text();
            r.append(label.as_str());
            match &block.1.source {
                Some(source) => {
                    r.append(" ");
                    let s = stringify_code_object(source);
                    r.append(s.as_str());
                },
                None => {},
            }
            r.append("\n");
            let ghost mid = r@;
            push_statement_lines(&mut r, "\t", &block.1.statements);
            proof {
                let t = self.blocks@.take(k + 1);
                assert(t.drop_last() =~= self.blocks@.take(k as int));
                assert(mid =~= spec_transformation_text(self.blocks@.take(k as int)) + block_header(block.0, block.1.source));
                assert(r@ =~= spec_transformation_text(t));
            }
        }
        assert(self.blocks@.take(self.blocks@.len() as int) =~= self.blocks@);
        r
    }

    /// The flat listing of this object.
    pub fn flatten_text(&self) -> (r: String)
        requires
            statement_count(self.blocks@) <= usize::MAX,
        ensures
            r@ == spec_flatten_text(self.blocks@),
    {
        proof {
            reveal_strlit("label\tglobal\tlocal\tstatement\n");
            reveal_strlit("-");
        }
        let mut r = string_of("label\tglobal\tlocal\tstatement\n");
        let mut global_idx: usize = 0;
        for k in 0..self.blocks.len()
            invariant
                statement_count(self.blocks@) <= usize::MAX,
                global_idx == statement_count(self.blocks@.take(k as int)),
                r@ == "label\tglobal\tlocal\tstatement\n"@ + flat_blocks(self.blocks@.take(k as int)),
        {
            let block = &self.blocks[k];
            let label_str = match block.0 {
                MyLabel::Entry => string_of("-"),
                MyLabel::PyLabel(label) => {
                    let mut s = String::new();
                    push_usize(&mut s, label);
                    assert(s@ =~= decimal(label as nat));
                    s
                },
            };
            proof {
                let t = self.blocks@.take(k + 1);
                assert(t.drop_last() =~= self.blocks@.take(k as int));
                lemma_statement_count_prefix(self.blocks@, k + 1);
            }
            push_flat_rows(&mut r, &label_str, global_idx, &block.1.statements);
            global_idx = global_idx + block.1.statements.len();
            proof {
                let t = self.blocks@.take(k + 1);
                assert(r@ =~= "label\tglobal\tlocal\tstatement\n"@ + flat_blocks(t));
            }
        }
        assert(self.blocks@.take(self.blocks@.len() as int) =~= self.blocks@);
        r
    }
}

} // verus!
