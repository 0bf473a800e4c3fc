//! The bytecode that the translators read: a function's code object with
//! its names, constants and decoded instructions.

use vstd::prelude::*;

verus! {

/// A binary operator of the `BINARY_OP` instruction.
#[derive(Debug, Clone, Copy, PartialEq, Eq, Structural)]
pub enum BinaryOperator {
    Add,
    And,
    FloorDivide,
    Lshift,
    MatrixMultiply,
    Multiply,
    Remainder,
    Or,
    Power,
    Rshift,
    Subtract,
    TrueDivide,
    Xor,
    InplaceAdd,
    InplaceAnd,
    InplaceFloorDivide,
    InplaceLshift,
    InplaceMatrixMultiply,
    InplaceMultiply,
    InplaceRemainder,
    InplaceOr,
    InplacePower,
    InplaceRshift,
    InplaceSubtract,
    InplaceTrueDivide,
    InplaceXor,
    Subscr,
}

/// A comparison operator of the `COMPARE_OP` instruction.
#[derive(Debug, Clone, Copy, PartialEq, Eq, Structural)]
pub enum ComparisonOperator {
    Less,
    LessOrEqual,
    Equal,
    NotEqual,
    Greater,
    GreaterOrEqual,
}

/// A unary operator of the `UNARY_OPERATION` instruction.
#[derive(Debug, Clone, Copy, PartialEq, Eq, Structural)]
pub enum UnaryOperator {
    Not,
    Invert,
    Minus,
    Plus,
}

/// A constant of a code object.
///
/// An integer is held as its sign and its magnitude in base 2^32, least
/// significant digit first. A float is held as the two spellings that the
/// translators write: with seventeen decimals, and the shortest one that
/// reads back to the same value. A string is `None` when it is not valid
/// UTF-8.
#[derive(Debug, Clone)]
pub enum ConstantData {
    Tuple,
    Integer { negative: bool, digits: Vec<u32> },
    Float { fixed17: String, shortest: String },
    Complex,
    Boolean { value: bool },
    Str { value: Option<String> },
    Bytes,
    Code,
    Slice,
    Frozenset,
    PyNone,
    Ellipsis,
}

/// An instruction with its operand decoded (extended arguments included).
///
/// `Other` stands for every instruction that neither translator reads,
/// by its opcode name.
#[derive(Debug, Clone)]
pub enum Instruction {
    Nop,
    Resume,
    ExtendedArg,
    PopBlock,
    PopTop,
    LoadConst { idx: u32 },
    LoadFast(u32),
    StoreFast(u32),
    LoadGlobal(u32),
    BinaryOp { op: BinaryOperator },
    BinaryOperation { op: BinaryOperator },
    BinaryOperationInplace { op: BinaryOperator },
    CompareOperation { op: ComparisonOperator },
    UnaryOperation { op: UnaryOperator },
    UnaryNegative,
    UnaryNot,
    ToBool,
    ReturnValue,
    ReturnConst { idx: u32 },
    Jump { target: u32 },
    PopJumpIfFalse { target: u32 },
    PopJumpIfTrue { target: u32 },
    JumpIfFalse { target: u32 },
    JumpIfTrue { target: u32 },
    Swap { index: u32 },
    CopyItem { index: u32 },
    BuildTuple { size: u32 },
    UnpackSequence { size: u32 },
    SetupLoop,
    CallFunctionPositional { nargs: u32 },
    Subscript,
    GetIter,
    ForIter { target: u32 },
    Pop,
    Break { target: u32 },
    Other { name: String },
}

/// One unit of the instruction stream: the decoded instruction and the raw
/// argument byte that the unit carries.
#[derive(Debug, Clone)]
pub struct CodeUnit {
    pub op: Instruction,
    pub arg: u8,
}

impl CodeUnit {
    /// A copy of this unit.
    pub fn duplicate(&self) -> (r: CodeUnit)
        ensures
            r == *self,
    {
        CodeUnit { op: self.op.duplicate(), arg: self.arg }
    }
}

/// The code object of a Python function.
#[derive(Debug, Clone)]
pub struct CodeObject {
    /// Name of the function
    pub obj_name: String,
    /// Names of the local variables, arguments first
    pub varnames: Vec<String>,
    /// Names of the globals that the code refers to
    pub names: Vec<String>,
    pub constants: Vec<ConstantData>,
    pub instructions: Vec<CodeUnit>,
}

/// The jump target of an instruction, for those that have one.
pub open spec fn spec_label_arg(op: Instruction) -> Option<u32> {
    match op {
        Instruction::Jump { target } => Some(target),
        Instruction::PopJumpIfFalse { target } => Some(target),
        Instruction::PopJumpIfTrue { target } => Some(target),
        Instruction::JumpIfFalse { target } => Some(target),
        Instruction::JumpIfTrue { target } => Some(target),
        Instruction::ForIter { target } => Some(target),
        Instruction::Break { target } => Some(target),
        _ => None,
    }
}

impl Instruction {
    /// A copy of this instruction.
    pub fn duplicate(&self) -> (r: Instruction)
        ensures
            r == *self,
    {
        match self {
            Instruction::Nop => Instruction::Nop,
            Instruction::Resume => Instruction::Resume,
            Instruction::ExtendedArg => Instruction::ExtendedArg,
            Instruction::PopBlock => Instruction::PopBlock,
            Instruction::PopTop => Instruction::PopTop,
            Instruction::LoadConst { idx } => Instruction::LoadConst { idx: *idx },
            Instruction::LoadFast(x) => Instruction::LoadFast(*x),
            Instruction::StoreFast(x) => Instruction::StoreFast(*x),
            Instruction::LoadGlobal(x) => Instruction::LoadGlobal(*x),
            Instruction::BinaryOp { op } => Instruction::BinaryOp { op: *op },
            Instruction::BinaryOperation { op } => Instruction::BinaryOperation { op: *op },
            Instruction::BinaryOperationInplace { op } => Instruction::BinaryOperationInplace { op: *op },
            Instruction::CompareOperation { op } => Instruction::CompareOperation { op: *op },
            Instruction::UnaryOperation { op } => Instruction::UnaryOperation { op: *op },
            Instruction::UnaryNegative => Instruction::UnaryNegative,
            Instruction::UnaryNot => Instruction::UnaryNot,
            Instruction::ToBool => Instruction::ToBool,
            Instruction::ReturnValue => Instruction::ReturnValue,
            Instruction::ReturnConst { idx } => Instruction::ReturnConst { idx: *idx },
            Instruction::Jump { target } => Instruction::Jump { target: *target },
            Instruction::PopJumpIfFalse { target } => Instruction::PopJumpIfFalse { target: *target },
            Instruction::PopJumpIfTrue { target } => Instruction::PopJumpIfTrue { target: *target },
            Instruction::JumpIfFalse { target } => Instruction::JumpIfFalse { target: *target },
            Instruction::JumpIfTrue { target } => Instruction::JumpIfTrue { target: *target },
            Instruction::Swap { index } => Instruction::Swap { index: *index },
            Instruction::CopyItem { index } => Instruction::CopyItem { index: *index },
            Instruction::BuildTuple { size } => Instruction::BuildTuple { size: *size },
            Instruction::UnpackSequence { size } => Instruction::UnpackSequence { size: *size },
            Instruction::SetupLoop => Instruction::SetupLoop,
            Instruction::CallFunctionPositional { nargs } => Instruction::CallFunctionPositional { nargs: *nargs },
            Instruction::Subscript => Instruction::Subscript,
            Instruction::GetIter => Instruction::GetIter,
            Instruction::ForIter { target } => Instruction::ForIter { target: *target },
            Instruction::Pop => Instruction::Pop,
            Instruction::Break { target } => Instruction::Break { target: *target },
            Instruction::Other { name } => Instruction::Other { name: name.clone() },
        }
    }

    /// The jump target of this instruction, for those that have one.
    pub fn label_arg(&self) -> (r: Option<u32>)
        ensures
            r == spec_label_arg(*self),
    {
        match self {
            Instruction::Jump { target } => Some(*target),
            Instruction::PopJumpIfFalse { target } => Some(*target),
            Instruction::PopJumpIfTrue { target } => Some(*target),
            Instruction::JumpIfFalse { target } => Some(*target),
            Instruction::JumpIfTrue { target } => Some(*target),
            Instruction::ForIter { target } => Some(*target),
            Instruction::Break { target } => Some(*target),
            _ => None,
        }
    }
}

/// `t` is the jump target of some instruction of `units`.
pub open spec fn is_label_target(units: Seq<CodeUnit>, t: u32) -> bool {
    exists|i: int| 0 <= i < units.len() && #[trigger] spec_label_arg(units[i].op) == Some(t)
}

impl CodeObject {
    /// The labels targeted by the instructions of this code object, each once.
    pub fn label_targets(&self) -> (r: Vec<u32>)
        ensures
            forall|t: u32| r@.contains(t) <==> is_label_target(self.instructions@, t),
            r@.no_duplicates(),
    {
        let mut r: Vec<u32> = Vec::new();
        let n = self.instructions.len();
        for k in 0..n
            invariant
                n == self.instructions@.len(),
                r@.no_duplicates(),
                forall|t: u32|
                    r@.contains(t) <==> is_label_target(self.instructions@.take(k as int), t),
        {
            let ghost before = self.instructions@.take(k as int);
            let ghost after = self.instructions@.take(k + 1);
            let ghost old_r = r@;
            assert(after =~= before.push(self.instructions@[k as int]));
            let lbl = self.instructions[k].op.label_arg();
            if let Some(t) = lbl {
                if !contains_u32(&r, t) {
                    r.push(t);
                    assert(r@[r@.len() - 1] == t);
                }
                assert(r@.contains(t));
            }
            assert forall|t: u32| old_r.contains(t) implies #[trigger] r@.contains(t) by {
                let j = choose|j: int| 0 <= j < old_r.len() && old_r[j] == t;
                assert(r@[j] == t);
            }
            assert forall|t: u32| #[trigger] r@.contains(t) implies old_r.contains(t) || lbl == Some(t) by {
                let j = choose|j: int| 0 <= j < r@.len() && r@[j] == t;
                if j < old_r.len() {
                    assert(old_r[j] == t);
                }
            }
            assert forall|t: u32| is_label_target(after, t) implies #[trigger] r@.contains(t) by {
                let i = choose|i: int|
                    0 <= i < after.len() && #[trigger] spec_label_arg(after[i].op) == Some(t);
                if i < k {
                    assert(before[i] == after[i]);
                    assert(is_label_target(before, t));
                }
            }
            assert forall|t: u32| #[trigger] r@.contains(t) implies is_label_target(after, t) by {
                if old_r.contains(t) {
                    let i = choose|i: int|
                        0 <= i < before.len() && #[trigger] spec_label_arg(before[i].op) == Some(t);
                    assert(after[i] == before[i]);
                } else {
                    assert(spec_label_arg(after[k as int].op) == Some(t));
                }
            }
        }
        assert(self.instructions@.take(n as int) =~= self.instructions@);
        r
    }
}

/// Whether `t` occurs in `v`.
pub fn contains_u32(v: &Vec<u32>, t: u32) -> (r: bool)
    ensures
        r == v@.contains(t),
{
    let mut i: usize = 0;
    while i < v.len()
        invariant
            i <= v.len(),
            forall|j: int| 0 <= j < i ==> v@[j] != t,
        decreases v.len() - i,
    {
        if v[i] == t {
            assert(v@[i as int] == t);
            return true;
        }
        i = i + 1;
    }
    false
}

} // verus!
