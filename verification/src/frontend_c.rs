//! A C back end for the register form: a labelled function body in which
//! each copy from one variable to another becomes a C declaration.

use vstd::prelude::*;

use crate::text::{decimal, push_usize};
use crate::transpiler::{
    statements_view, ExprView, MyExpression, MyLabel, MyStatement, StatementBlock, StatementObject,
    StatementView, Varindex,
};
use crate::type_resolver::TypeMap;

verus! {

/// The C text of an assignment: a copy declares its target; nothing else
/// is written yet.
pub open spec fn assignment_c_text(lhs: Varindex, rhs: ExprView) -> Seq<char> {
    match rhs {
        ExprView::Variable(r) => "int var_"@ + decimal(lhs.0 as nat) + " = var_"@ + decimal(r.0 as nat) + ";\n"@,
        _ => Seq::empty(),
    }
}

/// The C text of a statement.
pub open spec fn statement_c_text(s: StatementView) -> Seq<char> {
    match s {
        StatementView::Assign(lhs, rhs) => assignment_c_text(lhs, rhs),
        _ => Seq::empty(),
    }
}

/// The C text of a list of statements.
pub open spec fn statements_c_text(ss: Seq<StatementView>) -> Seq<char>
    decreases ss.len(),
{
    if ss.len() == 0 {
        Seq::empty()
    } else {
        statements_c_text(ss.drop_last()) + statement_c_text(ss.last())
    }
}

/// The C label of a block.
pub open spec fn label_c_text(l: MyLabel) -> Seq<char> {
    match l {
        MyLabel::Entry => "label_entry:\n"@,
        MyLabel::PyLabel(idx) => "label_"@ + decimal(idx as nat) + ":\n"@,
    }
}

/// The C text of the blocks, each after its label.
pub open spec fn blocks_c_text(blocks: Seq<(MyLabel, StatementBlock)>) -> Seq<char>
    decreases blocks.len(),
{
    if blocks.len() == 0 {
        Seq::empty()
    } else {
        blocks_c_text(blocks.drop_last()) + label_c_text(blocks.last().0) + statements_c_text(
            statements_view(blocks.last().1.statements@),
        )
    }
}

/// The C text of a transpiled function.
pub open spec fn spec_c_function(blocks: Seq<(MyLabel, StatementBlock)>) -> Seq<char> {
    "int hello() {\n"@ + blocks_c_text(blocks)
}

/// Writes a transpiled function as C.
pub struct FrontendC {
    type_map: TypeMap,
    statement_object: StatementObject,
    output: String,
}

impl FrontendC {
    /// The C text written so far.
    pub closed spec fn output_text(&self) -> Seq<char> {
        self.output@
    }

    /// The blocks of the function.
    pub closed spec fn blocks(&self) -> Seq<(MyLabel, StatementBlock)> {
        self.statement_object.blocks@
    }

    /// A writer for a function with the given types, with nothing written.
    pub fn new(type_map: TypeMap, statement_object: StatementObject) -> (r: Self)
        ensures
            r.output_text() == Seq::<char>::empty(),
            r.blocks() == statement_object.blocks@,
    {
        FrontendC { type_map, statement_object, output: String::new() }
    }

    /// The C text written so far.
    pub fn output(&self) -> (r: &String)
        ensures
            r@ == self.output_text(),
    {
        &self.output
    }

    /// Writes the function as C, after what was written before.
    pub fn transpile(&mut self)
        ensures
            final(self).output_text() == old(self).output_text() + spec_c_function(old(self).blocks()),
            final(self).blocks() == old(self).blocks(),
    {
        proof {
            reveal_strlit("int hello() {\n");
            reveal_strlit("label_entry:\n");
            reveal_strlit("label_");
            reveal_strlit(":\n");
        }
        self.output.append("int hello() {\n");
        let ghost start = self.output@;
        let blocks = &self.statement_object.blocks;
        for bi in 0..blocks.len()
            invariant
                *blocks == old(self).statement_object.blocks,
                self.statement_object == old(self).statement_object,
                start == old(self).output@ + "int hello() {\n"@,
                self.output@ == start + blocks_c_text(blocks@.take(bi as int)),
        {
            let ghost before_label = self.output@;
            match &blocks[bi].0 {
                MyLabel::Entry => {
                    self.output.append("label_entry:\n");
                },
                MyLabel::PyLabel(idx) => {
                    self.output.append("label_");
                    push_usize(&mut self.output, *idx);
                    self.output.append(":\n");
                },
            }
            assert(self.output@ =~= before_label + label_c_text(blocks@[bi as int].0));
            let ghost after_label = self.output@;
            let statements = &blocks[bi].1.statements;
            for si in 0..statements.len()
                invariant
                    0 <= bi < blocks@.len(),
                    self.statement_object == old(self).statement_object,
                    *statements == blocks@[bi as int].1.statements,
                    self.output@ == after_label + statements_c_text(statements_view(statements@.take(si as int))),
            {
                proof {
                    let t = statements_view(statements@.take(si + 1));
                    assert(t.drop_last() =~= statements_view(statements@.take(si as int)));
                    assert(t.last() == statements@[si as int]@);
                }
                match &statements[si] {
                    MyStatement::Assign(lhs, rhs) => {
                        Self::handle_assignment(&mut self.output, lhs, rhs);
                    },
                    MyStatement::Jump(_) => {},
                    MyStatement::JumpIfTrue(_, _) => {},
                    MyStatement::Return(_) => {},
                    MyStatement::PlaceholderJump(_, _) => {},
                    MyStatement::PlaceholderTarget(_) => {},
                    MyStatement::Noop => {},
                }
                assert(self.output@ =~= after_label + statements_c_text(
                    statements_view(statements@.take(si + 1)),
                ));
            }
            proof {
                assert(statements@.take(statements@.len() as int) =~= statements@);
                let t = blocks@.take(bi + 1);
                assert(t.drop_last() =~= blocks@.take(bi as int));
                assert(t.last() == blocks@[bi as int]);
            }
            assert(self.output@ =~= start + blocks_c_text(blocks@.take(bi + 1)));
        }
        assert(blocks@.take(blocks@.len() as int) =~= blocks@);
        assert(self.output@ =~= old(self).output@ + spec_c_function(old(self).statement_object.blocks@));
    }

    /// Writes the C text of `lhs = rhs`.
    fn handle_assignment(output: &mut String, lhs: &Varindex, rhs: &MyExpression)
        ensures
            final(output)@ == old(output)@ + assignment_c_text(*lhs, rhs@),
    {
        proof {
            reveal_strlit("int var_");
            reveal_strlit(" = var_");
            reveal_strlit(";\n");
        }
        match rhs {
            MyExpression::Variable(r) => {
                output.append("int var_");
                push_usize(output, lhs.0);
                output.append(" = var_");
                push_usize(output, r.0);
                output.append(";\n");
                assert(output@ =~= old(output)@ + assignment_c_text(*lhs, rhs@));
            },
            _ => {
                assert(output@ =~= old(output)@ + assignment_c_text(*lhs, rhs@));
            },
        }
    }
}

} // verus!
