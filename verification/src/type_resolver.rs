//! Resolving the types of the register form's variables.
//!
//! The resolver sweeps over the statements, in block order, again and again,
//! giving each assigned variable the type that its right-hand side has, until
//! a sweep gives no variable a new type. A variable keeps the first type it
//! is given: a statement that gives it another stops the resolution.

use vstd::prelude::*;

use crate::bytecode::{BinaryOperator, CodeObject};
use crate::text::string_of;
use crate::transpiler::{
    push_varindex_list, spec_varindex_text, statements_view, varindex_list_text, ExprView, MyExpression,
    MyLabel, MyStatement, StatementBlock, StatementObject, StatementView, Varindex,
};
use crate::JitType;

verus! {

// ---------------------------------------------------------------------------
// Types while they are resolved.
// ---------------------------------------------------------------------------

/// The type of a variable while types are being resolved.
#[derive(Debug)]
pub enum MyType1 {
    Int,
    Float,
    Struct(Vec<Varindex>),
    SolvedStruct(Vec<MyType1>),
    Iterator(String, Box<MyType1>),
    Function(String),
}

/// A type as mathematical values.
pub enum Type1View {
    Int,
    Float,
    Struct(Seq<Varindex>),
    SolvedStruct(Seq<Type1View>),
    Iterator(Seq<char>, Box<Type1View>),
    Function(Seq<char>),
}

pub open spec fn type1_view(t: MyType1) -> Type1View
    decreases t,
{
    match t {
        MyType1::Int => Type1View::Int,
        MyType1::Float => Type1View::Float,
        MyType1::Struct(s) => Type1View::Struct(s@),
        MyType1::SolvedStruct(v) => Type1View::SolvedStruct(type1_views(v@)),
        MyType1::Iterator(name, inner) => Type1View::Iterator(name@, Box::new(type1_view(*inner))),
        MyType1::Function(name) => Type1View::Function(name@),
    }
}

pub open spec fn type1_views(s: Seq<MyType1>) -> Seq<Type1View>
    decreases s,
{
    if s.len() == 0 {
        Seq::empty()
    } else {
        type1_views(s.drop_last()).push(type1_view(s.last()))
    }
}

/// The views of a list of types are the list of their views.
pub proof fn lemma_type1_views(s: Seq<MyType1>)
    ensures
        type1_views(s).len() == s.len(),
        forall|i: int| 0 <= i < s.len() ==> #[trigger] type1_views(s)[i] == type1_view(s[i]),
    decreases s.len(),
{
    if s.len() > 0 {
        lemma_type1_views(s.drop_last());
    }
}

/// The textual form of a type.
pub open spec fn spec_type1_text(t: Type1View) -> Seq<char>
    decreases t,
{
    match t {
        Type1View::Int => "int"@,
        Type1View::Float => "float"@,
        Type1View::Struct(s) => "["@ + varindex_list_text(s) + "]"@,
        Type1View::SolvedStruct(ts) => "["@ + type1_list_text(ts) + "]"@,
        Type1View::Iterator(name, inner) => "iterator "@ + name + " "@ + spec_type1_text(*inner),
        Type1View::Function(name) => "function "@ + name,
    }
}

/// Types, comma separated.
pub open spec fn type1_list_text(ts: Seq<Type1View>) -> Seq<char>
    decreases ts,
{
    if ts.len() == 0 {
        Seq::empty()
    } else if ts.len() == 1 {
        spec_type1_text(ts[0])
    } else {
        type1_list_text(ts.drop_last()) + ", "@ + spec_type1_text(ts.last())
    }
}

impl MyType1 {
    /// A copy of this type.
    pub fn duplicate(&self) -> (r: MyType1)
        ensures
            type1_view(r) == type1_view(*self),
        decreases self,
    {
        match self {
            MyType1::Int => MyType1::Int,
            MyType1::Float => MyType1::Float,
            MyType1::Struct(s) => MyType1::Struct(crate::transpiler::copy_varindices(s)),
            MyType1::SolvedStruct(v) => {
                let mut r: Vec<MyType1> = Vec::new();
                for i in 0..v.len()
                    invariant
                        *self == MyType1::SolvedStruct(*v),
                        r@.len() == i,
                        forall|j: int| 0 <= j < i ==> type1_view(#[trigger] r@[j]) == type1_view(v@[j]),
                {
                    proof {
                        assert(decreases_to!(*self => (*self)->SolvedStruct_0));
                        assert(decreases_to!((*self)->SolvedStruct_0 => (*self)->SolvedStruct_0@));
                        assert(decreases_to!(v@ => v@[i as int]));
                    }
                    let t = v[i].duplicate();
                    r.push(t);
                }
                proof {
                    lemma_type1_views(r@);
                    lemma_type1_views(v@);
                    assert(type1_views(r@) =~= type1_views(v@));
                }
                MyType1::SolvedStruct(r)
            },
            MyType1::Iterator(name, inner) => MyType1::Iterator(name.clone(), Box::new(inner.duplicate())),
            MyType1::Function(name) => MyType1::Function(name.clone()),
        }
    }

    /// Whether two types are the same.
    pub fn same_as(&self, other: &MyType1) -> (r: bool)
        ensures
            r == (type1_view(*self) == type1_view(*other)),
        decreases self,
    {
        match (self, other) {
            (MyType1::Int, MyType1::Int) => true,
            (MyType1::Float, MyType1::Float) => true,
            (MyType1::Struct(a), MyType1::Struct(b)) => {
                let r = same_varindices(a, b);
                proof {
                    if !r {
                        assert(type1_view(*self)->Struct_0 != type1_view(*other)->Struct_0);
                    }
                }
                r
            },
            (MyType1::SolvedStruct(a), MyType1::SolvedStruct(b)) => {
                proof {
                    lemma_type1_views(a@);
                    lemma_type1_views(b@);
                }
                if a.len() != b.len() {
                    assert(type1_views(a@).len() != type1_views(b@).len());
                    return false;
                }
                for i in 0..a.len()
                    invariant
                        *self == MyType1::SolvedStruct(*a),
                        *other == MyType1::SolvedStruct(*b),
                        a@.len() == b@.len(),
                        type1_views(a@).len() == a@.len(),
                        type1_views(b@).len() == b@.len(),
                        forall|k: int| 0 <= k < a@.len() ==> #[trigger] type1_views(a@)[k] == type1_view(a@[k]),
                        forall|k: int| 0 <= k < b@.len() ==> #[trigger] type1_views(b@)[k] == type1_view(b@[k]),
                        forall|j: int| 0 <= j < i ==> type1_view(#[trigger] a@[j]) == type1_view(b@[j]),
                {
                    proof {
                        assert(decreases_to!(*self => (*self)->SolvedStruct_0));
                        assert(decreases_to!((*self)->SolvedStruct_0 => (*self)->SolvedStruct_0@));
                        assert(decreases_to!(a@ => a@[i as int]));
                    }
                    if !a[i].same_as(&b[i]) {
                        assert(type1_views(a@)[i as int] != type1_views(b@)[i as int]);
                        return false;
                    }
                }
                assert(type1_views(a@) =~= type1_views(b@));
                true
            },
            (MyType1::Iterator(n1, t1), MyType1::Iterator(n2, t2)) => {
                let same_inner = t1.same_as(t2);
                *n1 == *n2 && same_inner
            },
            (MyType1::Function(n1), MyType1::Function(n2)) => *n1 == *n2,
            _ => false,
        }
    }
}

/// Whether two lists of variables are the same.
fn same_varindices(a: &Vec<Varindex>, b: &Vec<Varindex>) -> (r: bool)
    ensures
        r == (a@ == b@),
{
    if a.len() != b.len() {
        return false;
    }
    for i in 0..a.len()
        invariant
            a@.len() == b@.len(),
            forall|j: int| 0 <= j < i ==> a@[j] == b@[j],
    {
        if a[i].0 != b[i].0 {
            assert(a@[i as int] != b@[i as int]);
            return false;
        }
        assert(a@[i as int] == b@[i as int]);
    }
    assert(a@ =~= b@);
    true
}


impl MyType1 {
    /// The textual form of this type.
    pub fn to_text(&self) -> (r: String)
        ensures
            r@ == spec_type1_text(type1_view(*self)),
        decreases self,
    {
        proof {
            reveal_strlit("int");
            reveal_strlit("float");
            reveal_strlit("[");
            reveal_strlit("]");
            reveal_strlit(", ");
            reveal_strlit("iterator ");
            reveal_strlit(" ");
            reveal_strlit("function ");
        }
        match self {
            MyType1::Int => string_of("int"),
            MyType1::Float => string_of("float"),
            MyType1::Struct(s) => {
                let mut r = string_of("[");
                push_varindex_list(&mut r, s);
                r.append("]");
                assert(r@ =~= spec_type1_text(type1_view(*self)));
                r
            },
            MyType1::SolvedStruct(v) => {
                let mut r = string_of("[");
                proof {
                    lemma_type1_views(v@);
                }
                for i in 0..v.len()
                    invariant
                        *self == MyType1::SolvedStruct(*v),
                        type1_views(v@).len() == v@.len(),
                        forall|k: int| 0 <= k < v@.len() ==> #[trigger] type1_views(v@)[k] == type1_view(v@[k]),
                        r@ == "["@ + type1_list_text(type1_views(v@).take(i as int)),
                {
                    proof {
                        assert(decreases_to!(*self => (*self)->SolvedStruct_0));
                        assert(decreases_to!((*self)->SolvedStruct_0 => (*self)->SolvedStruct_0@));
                        assert(decreases_to!(v@ => v@[i as int]));
                    }
                    let ghost prev = r@;
                    if i > 0 {
                        r.append(", ");
                    }
                    let t = v[i].to_text();
                    r.append(t.as_str());
                    proof {
                        let vs = type1_views(v@);
                        let ts = vs.take(i + 1);
                        assert(ts.drop_last() =~= vs.take(i as int));
                        assert(ts.last() == vs[i as int]);
                        if i == 0 {
                            assert(type1_list_text(vs.take(i as int)) =~= Seq::<char>::empty());
                        }
                        assert(r@ =~= "["@ + type1_list_text(ts));
                    }
                }
                r.append("]");
                assert(type1_views(v@).take(v@.len() as int) =~= type1_views(v@));
                assert(r@ =~= spec_type1_text(type1_view(*self)));
                r
            },
            MyType1::Iterator(name, inner) => {
                let mut r = string_of("iterator ");
                r.append(name.as_str());
                r.append(" ");
                let t = inner.to_text();
                r.append(t.as_str());
                assert(r@ =~= spec_type1_text(type1_view(*self)));
                r
            },
            MyType1::Function(name) => {
                let mut r = string_of("function ");
                r.append(name.as_str());
                assert(r@ =~= spec_type1_text(type1_view(*self)));
                r
            },
        }
    }
}

// ---------------------------------------------------------------------------
// Resolved types.
// ---------------------------------------------------------------------------

/// A resolved type, in which a structure holds the types of its members.
#[derive(Debug)]
pub enum MyType2 {
    Int,
    Float,
    Struct(Vec<MyType2>),
    Iterator(String, Box<MyType2>),
    Function(String),
}

/// A resolved type as mathematical values.
pub enum Type2View {
    Int,
    Float,
    Struct(Seq<Type2View>),
    Iterator(Seq<char>, Box<Type2View>),
    Function(Seq<char>),
}

pub open spec fn type2_view(t: MyType2) -> Type2View
    decreases t,
{
    match t {
        MyType2::Int => Type2View::Int,
        MyType2::Float => Type2View::Float,
        MyType2::Struct(v) => Type2View::Struct(type2_views(v@)),
        MyType2::Iterator(name, inner) => Type2View::Iterator(name@, Box::new(type2_view(*inner))),
        MyType2::Function(name) => Type2View::Function(name@),
    }
}

pub open spec fn type2_views(s: Seq<MyType2>) -> Seq<Type2View>
    decreases s,
{
    if s.len() == 0 {
        Seq::empty()
    } else {
        type2_views(s.drop_last()).push(type2_view(s.last()))
    }
}

/// The resolved types of a function: of its variables, of its named
/// locals, of its arguments, and of what it returns.
pub struct TypeMap {
    pub lhs_types: Vec<(Varindex, MyType2)>,
    pub varname_types: Vec<(String, MyType2)>,
    pub argument_types: Vec<MyType2>,
    pub return_type: Option<MyType2>,
}

// ---------------------------------------------------------------------------
// The model of resolution.
// ---------------------------------------------------------------------------

/// Types by variable, as mathematical values, in the order they were found.
pub open spec fn entries_view(s: Seq<(Varindex, MyType1)>) -> Seq<(Varindex, Type1View)> {
    s.map_values(|p: (Varindex, MyType1)| (p.0, type1_view(p.1)))
}

/// Types by name, as mathematical values.
pub open spec fn named_view(s: Seq<(String, MyType1)>) -> Seq<(Seq<char>, Type1View)> {
    s.map_values(|p: (String, MyType1)| (p.0@, type1_view(p.1)))
}

/// The type found for a variable: its last entry.
pub open spec fn type_of(m: Seq<(Varindex, Type1View)>, v: Varindex) -> Option<Type1View>
    decreases m.len(),
{
    if m.len() == 0 {
        None
    } else if m.last().0 == v {
        Some(m.last().1)
    } else {
        type_of(m.drop_last(), v)
    }
}

/// The type given to a name: its last entry.
pub open spec fn type_of_name(m: Seq<(Seq<char>, Type1View)>, name: Seq<char>) -> Option<Type1View>
    decreases m.len(),
{
    if m.len() == 0 {
        None
    } else if m.last().0 == name {
        Some(m.last().1)
    } else {
        type_of_name(m.drop_last(), name)
    }
}

/// The statements of all blocks, in block order.
pub open spec fn all_statements(blocks: Seq<(MyLabel, StatementBlock)>) -> Seq<StatementView>
    decreases blocks.len(),
{
    if blocks.len() == 0 {
        Seq::empty()
    } else {
        all_statements(blocks.drop_last()) + statements_view(blocks.last().1.statements@)
    }
}

/// The right-hand side of the first assignment to `v`.
pub open spec fn first_assign(ss: Seq<StatementView>, v: Varindex) -> Option<ExprView>
    decreases ss.len(),
{
    if ss.len() == 0 {
        None
    } else {
        match first_assign(ss.drop_last(), v) {
            Some(e) => Some(e),
            None => match ss.last() {
                StatementView::Assign(l, r) => if l == v {
                    Some(r)
                } else {
                    None
                },
                _ => None,
            },
        }
    }
}

/// What the search for a variable's constant finds.
pub enum ConstantLookup {
    /// The variable has no constant.
    Missing,
    /// The expression that gives the variable its value.
    Found(ExprView),
    /// The search cannot go on: an expression it does not handle, or a
    /// chain of copies that comes back to a variable it has seen.
    Stuck,
}

/// The constant of `v`: its first assignment, followed through copies from
/// other variables, at most `fuel` of them.
///
/// A chain of copies visits a different assignment at each step until it
/// comes back to a variable it has seen, after which it never ends; so a
/// fuel of the statement count follows every chain that ends
/// (`lemma_constant_search_ends`).
pub open spec fn constant_of(ss: Seq<StatementView>, v: Varindex, fuel: nat) -> ConstantLookup
    decreases fuel,
{
    match first_assign(ss, v) {
        None => ConstantLookup::Missing,
        Some(r) => match r {
            ExprView::Varname(_) => ConstantLookup::Missing,
            ExprView::Struct(_) => ConstantLookup::Missing,
            ExprView::Variable(w) => if fuel == 0 {
                ConstantLookup::Stuck
            } else {
                constant_of(ss, w, (fuel - 1) as nat)
            },
            ExprView::Int(_) => ConstantLookup::Found(r),
            ExprView::Float64(_) => ConstantLookup::Found(r),
            ExprView::UnaryOp(_, _) => ConstantLookup::Found(r),
            ExprView::BinaryOp(_, _, _) => ConstantLookup::Found(r),
            ExprView::CompareOp(_, _, _) => ConstantLookup::Found(r),
            ExprView::Subscript(_, _) => ConstantLookup::Found(r),
            ExprView::GlobalFunction(_) => ConstantLookup::Found(r),
            ExprView::Call(_, _) => ConstantLookup::Found(r),
            _ => ConstantLookup::Stuck,
        },
    }
}

/// The variable that `v` is copied from, where its first assignment is a
/// copy.
pub open spec fn copied_from(ss: Seq<StatementView>, v: Varindex) -> Option<Varindex> {
    match first_assign(ss, v) {
        Some(ExprView::Variable(w)) => Some(w),
        _ => None,
    }
}

/// The variable reached from `v` after `k` copies, where there are as many.
pub open spec fn chain_at(ss: Seq<StatementView>, v: Varindex, k: nat) -> Varindex
    decreases k,
{
    if k == 0 {
        v
    } else {
        match copied_from(ss, v) {
            Some(w) => chain_at(ss, w, (k - 1) as nat),
            None => v,
        }
    }
}

/// Whether the first `k` variables of the chain from `v` are copies.
pub open spec fn copies(ss: Seq<StatementView>, v: Varindex, k: nat) -> bool {
    forall|i: nat| i < k ==> (#[trigger] copied_from(ss, chain_at(ss, v, i))) is Some
}

/// The index of the first assignment to `v`, or -1.
pub open spec fn first_assign_index(ss: Seq<StatementView>, v: Varindex) -> int
    decreases ss.len(),
{
    if ss.len() == 0 {
        -1
    } else {
        let j = first_assign_index(ss.drop_last(), v);
        if j >= 0 {
            j
        } else if ss.last() is Assign && assigned_by(ss.last()) == v {
            ss.len() - 1
        } else {
            -1
        }
    }
}

proof fn lemma_first_assign_index(ss: Seq<StatementView>, v: Varindex)
    ensures
        first_assign(ss, v) is Some <==> first_assign_index(ss, v) >= 0,
        first_assign_index(ss, v) < ss.len(),
        first_assign_index(ss, v) >= 0 ==> (ss[first_assign_index(ss, v)] is Assign && assigned_by(
            ss[first_assign_index(ss, v)],
        ) == v),
    decreases ss.len(),
{
    if ss.len() > 0 {
        lemma_first_assign_index(ss.drop_last(), v);
        let j = first_assign_index(ss.drop_last(), v);
        if j >= 0 {
            assert(ss.drop_last()[j] == ss[j]);
        }
    }
}

proof fn lemma_chain_compose(ss: Seq<StatementView>, v: Varindex, a: nat, b: nat)
    ensures
        chain_at(ss, v, a + b) == chain_at(ss, chain_at(ss, v, a), b),
    decreases a,
{
    if a > 0 {
        if let Some(w) = copied_from(ss, v) {
            lemma_chain_compose(ss, w, (a - 1) as nat, b);
            assert((a + b - 1) as nat == (a - 1) as nat + b);
        } else {
            lemma_chain_stays(ss, v, b);
            lemma_chain_stays(ss, v, a + b);
        }
    }
}

proof fn lemma_chain_stays(ss: Seq<StatementView>, v: Varindex, k: nat)
    requires
        copied_from(ss, v) is None,
    ensures
        chain_at(ss, v, k) == v,
{
}

proof fn lemma_copies_step(ss: Seq<StatementView>, v: Varindex, w: Varindex, k: nat)
    requires
        copied_from(ss, v) == Some(w),
        copies(ss, v, k + 1),
    ensures
        copies(ss, w, k),
{
    assert forall|i: nat| i < k implies (#[trigger] copied_from(ss, chain_at(ss, w, i))) is Some by {
        assert(chain_at(ss, v, i + 1) == chain_at(ss, w, i));
        assert(copied_from(ss, chain_at(ss, v, i + 1)) is Some);
    }
}

proof fn lemma_copies_back(ss: Seq<StatementView>, v: Varindex, w: Varindex, k: nat)
    requires
        copied_from(ss, v) == Some(w),
        copies(ss, w, k),
    ensures
        copies(ss, v, k + 1),
{
    assert forall|i: nat| i < k + 1 implies (#[trigger] copied_from(ss, chain_at(ss, v, i))) is Some by {
        if i > 0 {
            assert(chain_at(ss, v, i) == chain_at(ss, w, (i - 1) as nat));
            assert(copied_from(ss, chain_at(ss, w, (i - 1) as nat)) is Some);
        }
    }
}

/// A search whose chain of copies is longer than its fuel is stuck.
proof fn lemma_copies_stuck(ss: Seq<StatementView>, v: Varindex, f: nat)
    requires
        copies(ss, v, f + 1),
    ensures
        constant_of(ss, v, f) == ConstantLookup::Stuck,
    decreases f,
{
    assert(copied_from(ss, chain_at(ss, v, 0)) is Some);
    let w = copied_from(ss, v)->Some_0;
    if f > 0 {
        lemma_copies_step(ss, v, w, f);
        lemma_copies_stuck(ss, w, (f - 1) as nat);
    }
}

/// One more fuel changes a search only where its chain of copies used all
/// the fuel.
proof fn lemma_constant_more_fuel(ss: Seq<StatementView>, v: Varindex, f: nat)
    ensures
        constant_of(ss, v, f) != constant_of(ss, v, f + 1) ==> copies(ss, v, f + 1),
    decreases f,
{
    if let Some(w) = copied_from(ss, v) {
        if f > 0 {
            lemma_constant_more_fuel(ss, w, (f - 1) as nat);
            if constant_of(ss, v, f) != constant_of(ss, v, f + 1) {
                lemma_copies_back(ss, v, w, f);
            }
        } else {
            assert(copied_from(ss, chain_at(ss, v, 0)) is Some);
        }
    }
}

/// A chain of copies longer than the statements comes back to a variable
/// it has seen.
proof fn lemma_chain_repeats(ss: Seq<StatementView>, v: Varindex)
    requires
        copies(ss, v, ss.len() + 1),
    ensures
        exists|i: nat, j: nat| i < j <= ss.len() && chain_at(ss, v, i) == chain_at(ss, v, j),
{
    let n = ss.len();
    if !(exists|i: nat, j: nat| i < j <= n && chain_at(ss, v, i) == chain_at(ss, v, j)) {
        let idx = Seq::new(n + 1, |k: int| first_assign_index(ss, chain_at(ss, v, k as nat)));
        assert forall|k: int| 0 <= k < idx.len() implies 0 <= #[trigger] idx[k] < n && ss[idx[k]] is Assign
            && assigned_by(ss[idx[k]]) == chain_at(ss, v, k as nat) by {
            assert(copied_from(ss, chain_at(ss, v, k as nat)) is Some);
            lemma_first_assign_index(ss, chain_at(ss, v, k as nat));
        }
        assert(idx.no_duplicates()) by {
            assert forall|a: int, b: int| 0 <= a < idx.len() && 0 <= b < idx.len() && a != b implies idx[a]
                != idx[b] by {
                if idx[a] == idx[b] {
                    if a < b {
                        assert(chain_at(ss, v, a as nat) == chain_at(ss, v, b as nat));
                    } else {
                        assert(chain_at(ss, v, b as nat) == chain_at(ss, v, a as nat));
                    }
                }
            }
        }
        idx.unique_seq_to_set();
        vstd::set_lib::lemma_int_range(0, n as int);
        assert(idx.to_set().subset_of(vstd::set_lib::set_int_range(0, n as int))) by {
            assert forall|x: int| idx.to_set().contains(x) implies vstd::set_lib::set_int_range(0, n as int).contains(x) by {
                let k = choose|k: int| 0 <= k < idx.len() && idx[k] == x;
                assert(0 <= idx[k] < n);
            }
        }
        vstd::set_lib::lemma_len_subset(idx.to_set(), vstd::set_lib::set_int_range(0, n as int));
    }
}

/// A chain of copies that comes back to a variable it has seen goes on
/// without end.
proof fn lemma_chain_cycle(ss: Seq<StatementView>, v: Varindex, i: nat, j: nat, t: nat)
    requires
        i < j,
        chain_at(ss, v, i) == chain_at(ss, v, j),
        copies(ss, v, j),
    ensures
        copied_from(ss, chain_at(ss, v, t)) is Some,
    decreases t,
{
    if t < j {
        assert(copied_from(ss, chain_at(ss, v, t)) is Some);
    } else {
        let d = (t - j) as nat;
        lemma_chain_compose(ss, v, j, d);
        lemma_chain_compose(ss, v, i, d);
        assert(t == j + d);
        lemma_chain_cycle(ss, v, i, j, i + d);
    }
}

/// The search for a constant ends: a chain of copies either stops within
/// as many copies as there are statements, or comes back to a variable it
/// has seen and goes on without end; so more fuel than the statement count
/// finds the same.
pub proof fn lemma_constant_search_ends(ss: Seq<StatementView>, v: Varindex, f: nat)
    requires
        f >= ss.len(),
    ensures
        constant_of(ss, v, f) == constant_of(ss, v, ss.len()),
    decreases f,
{
    if f > ss.len() {
        lemma_constant_search_ends(ss, v, (f - 1) as nat);
        lemma_constant_more_fuel(ss, v, (f - 1) as nat);
        if constant_of(ss, v, (f - 1) as nat) != constant_of(ss, v, f) {
            assert(copies(ss, v, ss.len() + 1)) by {
                assert forall|k: nat| k < ss.len() + 1 implies (#[trigger] copied_from(ss, chain_at(ss, v, k))) is Some by {
                    assert(k < f);
                }
            }
            lemma_chain_repeats(ss, v);
            let (i, j) = choose|i: nat, j: nat| i < j <= ss.len() && chain_at(ss, v, i) == chain_at(ss, v, j);
            assert(copies(ss, v, f + 1)) by {
                assert forall|t: nat| t < f + 1 implies (#[trigger] copied_from(ss, chain_at(ss, v, t))) is Some by {
                    assert(copies(ss, v, j)) by {
                        assert forall|k: nat| k < j implies (#[trigger] copied_from(ss, chain_at(ss, v, k))) is Some by {
                            assert(k < ss.len() + 1);
                        }
                    }
                    lemma_chain_cycle(ss, v, i, j, t);
                }
            }
            lemma_copies_stuck(ss, v, f);
            assert(copies(ss, v, f)) by {
                assert forall|t: nat| t < f implies (#[trigger] copied_from(ss, chain_at(ss, v, t))) is Some by {
                    assert(t < f + 1);
                }
            }
            lemma_copies_stuck(ss, v, (f - 1) as nat);
        }
    }
}

/// Gives `v` the type `t`, if there is one. `None` where `v` already has
/// another type.
pub open spec fn lock_type(m: Seq<(Varindex, Type1View)>, v: Varindex, t: Option<Type1View>) -> Option<
    Seq<(Varindex, Type1View)>,
> {
    match t {
        None => Some(m),
        Some(t) => match type_of(m, v) {
            Some(prev) => if prev == t {
                Some(m)
            } else {
                None
            },
            None => Some(m.push((v, t))),
        },
    }
}

/// The iterator type of `range` with one argument.
pub open spec fn range_iterator() -> Type1View {
    Type1View::Iterator("range"@, Box::new(Type1View::Int))
}

/// The types after an assignment `lhs = rhs`; `None` where resolution stops.
pub open spec fn resolve_assignment(
    names: Seq<(Seq<char>, Type1View)>,
    all: Seq<StatementView>,
    m: Seq<(Varindex, Type1View)>,
    lhs: Varindex,
    rhs: ExprView,
) -> Option<Seq<(Varindex, Type1View)>> {
    match rhs {
        ExprView::Varname(s) => lock_type(m, lhs, type_of_name(names, s)),
        ExprView::Variable(v) => lock_type(m, lhs, type_of(m, v)),
        ExprView::Int(_) => lock_type(m, lhs, Some(Type1View::Int)),
        ExprView::Float64(_) => lock_type(m, lhs, Some(Type1View::Float)),
        ExprView::String(_) => None,
        ExprView::Struct(s) => lock_type(m, lhs, Some(Type1View::Struct(s))),
        ExprView::UnaryOp(_, a) => match type_of(m, a) {
            None => Some(m),
            Some(Type1View::Int) => lock_type(m, lhs, Some(Type1View::Int)),
            Some(Type1View::Float) => lock_type(m, lhs, Some(Type1View::Float)),
            Some(_) => None,
        },
        ExprView::BinaryOp(_, a, b) => match (type_of(m, a), type_of(m, b)) {
            (Some(ta), Some(tb)) => if ta == Type1View::Int && tb == Type1View::Int {
                lock_type(m, lhs, Some(Type1View::Int))
            } else if tb == Type1View::Float || ta == Type1View::Float {
                lock_type(m, lhs, Some(Type1View::Float))
            } else {
                None
            },
            _ => Some(m),
        },
        ExprView::CompareOp(_, _, _) => lock_type(m, lhs, Some(Type1View::Int)),
        ExprView::Subscript(container, key) => match type_of(m, container) {
            Some(Type1View::Struct(members)) => match constant_of(all, key, all.len()) {
                ConstantLookup::Found(ExprView::Int(value)) => if 0 <= value < members.len() {
                    lock_type(m, lhs, type_of(m, members[value as int]))
                } else {
                    None
                },
                _ => None,
            },
            _ => None,
        },
        ExprView::GlobalFunction(name) => lock_type(m, lhs, Some(Type1View::Function(name))),
        ExprView::Call(f, args) => match type_of(m, f) {
            Some(Type1View::Function(name)) => if name == "range"@ && args.len() == 1 {
                lock_type(m, lhs, Some(range_iterator()))
            } else {
                None
            },
            _ => None,
        },
        ExprView::ConvertToIterator(v) => match type_of(m, v) {
            None => Some(m),
            Some(Type1View::Iterator(name, inner)) => lock_type(
                m,
                lhs,
                Some(Type1View::Iterator(name, inner)),
            ),
            Some(_) => None,
        },
        ExprView::IteratorCheck(_) => lock_type(m, lhs, Some(Type1View::Int)),
        ExprView::IteratorNext(v) => match type_of(m, v) {
            None => Some(m),
            Some(Type1View::Iterator(_, inner)) => lock_type(m, lhs, Some(*inner)),
            Some(_) => None,
        },
    }
}

/// The types after one statement.
pub open spec fn resolve_statement(
    names: Seq<(Seq<char>, Type1View)>,
    all: Seq<StatementView>,
    m: Seq<(Varindex, Type1View)>,
    s: StatementView,
) -> Option<Seq<(Varindex, Type1View)>> {
    match s {
        StatementView::Assign(lhs, rhs) => resolve_assignment(names, all, m, lhs, rhs),
        StatementView::Return(v) => lock_type(m, v, type_of(m, v)),
        _ => Some(m),
    }
}

/// The types after a sweep over `ss`, one statement after the other.
pub open spec fn sweep(
    names: Seq<(Seq<char>, Type1View)>,
    all: Seq<StatementView>,
    m: Seq<(Varindex, Type1View)>,
    ss: Seq<StatementView>,
) -> Option<Seq<(Varindex, Type1View)>>
    decreases ss.len(),
{
    if ss.len() == 0 {
        Some(m)
    } else {
        match sweep(names, all, m, ss.drop_last()) {
            None => None,
            Some(m1) => resolve_statement(names, all, m1, ss.last()),
        }
    }
}

/// The types after sweeps until one finds no new type, at most `fuel`
/// sweeps; `None` where resolution stops, and where the types found do not
/// cover the `expected` variables.
pub open spec fn solve_rounds(
    names: Seq<(Seq<char>, Type1View)>,
    all: Seq<StatementView>,
    m: Seq<(Varindex, Type1View)>,
    expected: nat,
    fuel: nat,
) -> Option<Seq<(Varindex, Type1View)>>
    decreases fuel,
{
    if fuel == 0 {
        None
    } else {
        match sweep(names, all, m, all) {
            None => None,
            Some(m2) => if m2.len() == m.len() {
                if m2.len() == expected {
                    Some(m2)
                } else {
                    None
                }
            } else {
                solve_rounds(names, all, m2, expected, (fuel - 1) as nat)
            },
        }
    }
}


/// The type of a variable as mathematical values, if there is one.
pub open spec fn opt_type1_view(t: Option<MyType1>) -> Option<Type1View> {
    match t {
        Some(t) => Some(type1_view(t)),
        None => None,
    }
}

/// The resolution type of an argument type: a boolean is an integer.
pub open spec fn jit_type1(t: JitType) -> Type1View {
    match t {
        JitType::Int => Type1View::Int,
        JitType::Float => Type1View::Float,
        JitType::Bool => Type1View::Int,
    }
}

/// The index of the entry for `name`, or -1.
pub open spec fn name_index(m: Seq<(Seq<char>, Type1View)>, name: Seq<char>) -> int
    decreases m.len(),
{
    if m.len() == 0 {
        -1
    } else {
        let j = name_index(m.drop_last(), name);
        if j >= 0 {
            j
        } else if m.last().0 == name {
            m.len() - 1
        } else {
            -1
        }
    }
}

/// The names' types after `name` is given `t`: its entry is replaced, or
/// one is added.
pub open spec fn name_insert(m: Seq<(Seq<char>, Type1View)>, name: Seq<char>, t: Type1View) -> Seq<
    (Seq<char>, Type1View),
> {
    let j = name_index(m, name);
    if j >= 0 {
        m.update(j, (name, t))
    } else {
        m.push((name, t))
    }
}

/// The names' types that the arguments give: each argument's name, from
/// the local names, with the type of the argument.
pub open spec fn initial_names(varnames: Seq<String>, args: Seq<JitType>) -> Seq<(Seq<char>, Type1View)>
    decreases args.len(),
{
    if args.len() == 0 {
        Seq::empty()
    } else {
        name_insert(
            initial_names(varnames, args.drop_last()),
            varnames[args.len() - 1]@,
            jit_type1(args.last()),
        )
    }
}

proof fn lemma_name_index_bounds(m: Seq<(Seq<char>, Type1View)>, name: Seq<char>)
    ensures
        -1 <= name_index(m, name) < m.len(),
        name_index(m, name) >= 0 ==> m[name_index(m, name)].0 == name,
        name_index(m, name) < 0 ==> forall|i: int| 0 <= i < m.len() ==> #[trigger] m[i].0 != name,
    decreases m.len(),
{
    if m.len() > 0 {
        lemma_name_index_bounds(m.drop_last(), name);
        let j = name_index(m.drop_last(), name);
        if j < 0 {
            assert forall|i: int| 0 <= i < m.len() - 1 implies #[trigger] m[i].0 != name by {
                assert(m.drop_last()[i] == m[i]);
            }
        } else {
            assert(m.drop_last()[j] == m[j]);
        }
    }
}

proof fn lemma_entries_view_drop_last(s: Seq<(Varindex, MyType1)>)
    requires
        s.len() > 0,
    ensures
        entries_view(s).drop_last() == entries_view(s.drop_last()),
        entries_view(s).last() == (s.last().0, type1_view(s.last().1)),
{
    assert(entries_view(s).drop_last() =~= entries_view(s.drop_last()));
}

proof fn lemma_named_view_drop_last(s: Seq<(String, MyType1)>)
    requires
        s.len() > 0,
    ensures
        named_view(s).drop_last() == named_view(s.drop_last()),
        named_view(s).last() == (s.last().0@, type1_view(s.last().1)),
{
    assert(named_view(s).drop_last() =~= named_view(s.drop_last()));
}

/// The index of the entry that gives `v` its type.
fn find_type(types: &Vec<(Varindex, MyType1)>, v: Varindex) -> (r: Option<usize>)
    ensures
        match r {
            None => type_of(entries_view(types@), v) is None,
            Some(i) => i < types@.len() && types@[i as int].0 == v && type_of(entries_view(types@), v)
                == Some(type1_view(types@[i as int].1)),
        },
{
    let mut i = types.len();
    assert(types@.take(i as int) =~= types@);
    while i > 0
        invariant
            i <= types@.len(),
            type_of(entries_view(types@), v) == type_of(entries_view(types@.take(i as int)), v),
        decreases i,
    {
        let ghost t = types@.take(i as int);
        proof {
            lemma_entries_view_drop_last(t);
            assert(t.drop_last() =~= types@.take(i - 1));
        }
        if types[i - 1].0.0 == v.0 {
            return Some(i - 1);
        }
        i = i - 1;
    }
    assert(entries_view(types@.take(0)) =~= Seq::<(Varindex, Type1View)>::empty());
    None
}

/// The index of the entry that gives `name` its type, the last one.
fn find_name_type(names: &Vec<(String, MyType1)>, name: &String) -> (r: Option<usize>)
    ensures
        match r {
            None => type_of_name(named_view(names@), name@) is None,
            Some(i) => i < names@.len() && type_of_name(named_view(names@), name@) == Some(
                type1_view(names@[i as int].1),
            ),
        },
{
    let mut i = names.len();
    assert(names@.take(i as int) =~= names@);
    while i > 0
        invariant
            i <= names@.len(),
            type_of_name(named_view(names@), name@) == type_of_name(
                named_view(names@.take(i as int)),
                name@,
            ),
        decreases i,
    {
        let ghost t = names@.take(i as int);
        proof {
            lemma_named_view_drop_last(t);
            assert(t.drop_last() =~= names@.take(i - 1));
        }
        if names[i - 1].0 == *name {
            return Some(i - 1);
        }
        i = i - 1;
    }
    assert(named_view(names@.take(0)) =~= Seq::<(Seq<char>, Type1View)>::empty());
    None
}

/// The index of the first entry for `name`.
fn index_of_name(names: &Vec<(String, MyType1)>, name: &String) -> (r: Option<usize>)
    ensures
        match r {
            None => name_index(named_view(names@), name@) < 0,
            Some(i) => name_index(named_view(names@), name@) == i as int,
        },
{
    for i in 0..names.len()
        invariant
            name_index(named_view(names@.take(i as int)), name@) < 0,
    {
        let ghost t = names@.take(i + 1);
        proof {
            lemma_named_view_drop_last(t);
            assert(t.drop_last() =~= names@.take(i as int));
        }
        if names[i].0 == *name {
            proof {
                lemma_index_of_prefix(names@, (i + 1) as int, name@);
            }
            return Some(i);
        }
    }
    assert(names@.take(names@.len() as int) =~= names@);
    None
}

/// Where a prefix of the names holds the first entry for `name`, the whole
/// list has it at the same index.
proof fn lemma_index_of_prefix(names: Seq<(String, MyType1)>, n: int, name: Seq<char>)
    requires
        0 <= n <= names.len(),
        name_index(named_view(names.take(n)), name) >= 0,
    ensures
        name_index(named_view(names), name) == name_index(named_view(names.take(n)), name),
    decreases names.len() - n,
{
    if n < names.len() {
        let t = names.take(n + 1);
        lemma_named_view_drop_last(t);
        assert(t.drop_last() =~= names.take(n));
        lemma_index_of_prefix(names, n + 1, name);
    } else {
        assert(names.take(n) =~= names);
    }
}

/// Gives `v` the type `t`, where there is one; `false` where `v` already
/// has another type.
fn lock_type_and_check(types: &mut Vec<(Varindex, MyType1)>, lhs: Varindex, my_type: Option<MyType1>) -> (ok: bool)
    ensures
        ok == lock_type(entries_view(old(types)@), lhs, opt_type1_view(my_type)) is Some,
        ok ==> entries_view(final(types)@) == lock_type(
            entries_view(old(types)@),
            lhs,
            opt_type1_view(my_type),
        )->Some_0,
{
    match my_type {
        None => true,
        Some(t) => match find_type(types, lhs) {
            Some(i) => types[i].1.same_as(&t),
            None => {
                let ghost before = types@;
                types.push((lhs, t));
                assert(entries_view(types@) =~= entries_view(before).push((lhs, type1_view(t))));
                true
            },
        },
    }
}

// ---------------------------------------------------------------------------
// The resolver.
// ---------------------------------------------------------------------------

/// Resolves the types of a transpiled function's variables.
pub struct TypeResolver {
    pub varindex_to_types: Vec<(Varindex, MyType1)>,
    varname_to_types: Vec<(String, MyType1)>,
    statement_object: StatementObject,
    argument_types: Vec<MyType1>,
    return_types: Option<MyType1>,
    expected_len: usize,
}

impl TypeResolver {
    /// The types found, by variable, in the order they were found.
    pub closed spec fn types(&self) -> Seq<(Varindex, Type1View)> {
        entries_view(self.varindex_to_types@)
    }

    /// The types of the named locals.
    pub closed spec fn names(&self) -> Seq<(Seq<char>, Type1View)> {
        named_view(self.varname_to_types@)
    }

    /// The statements, in block order.
    pub closed spec fn statements(&self) -> Seq<StatementView> {
        all_statements(self.statement_object.blocks@)
    }

    /// The number of variables of the transpiled function.
    pub closed spec fn counter(&self) -> nat {
        self.statement_object.varindex_counter as nat
    }

    /// The number of variables that the report lists.
    pub closed spec fn expected(&self) -> nat {
        self.expected_len as nat
    }

    /// The types of the arguments.
    pub closed spec fn arguments(&self) -> Seq<Type1View> {
        type1_views(self.argument_types@)
    }

    /// The type found for what the function returns.
    pub closed spec fn return_type(&self) -> Option<Type1View> {
        opt_type1_view(self.return_types)
    }

    /// A resolver for a transpiled function whose arguments have the types
    /// `args`: it knows the arguments' types, by name, and no variable's.
    pub fn new(code_object: &CodeObject, args: &[JitType], statement_object: StatementObject) -> (r: Self)
        requires
            args@.len() <= code_object.varnames@.len(),
        ensures
            r.types() == Seq::<(Varindex, Type1View)>::empty(),
            r.names() == initial_names(code_object.varnames@, args@),
            r.arguments() == args@.map_values(|t: JitType| jit_type1(t)),
            r.return_type() is None,
            r.statements() == all_statements(statement_object.blocks@),
            r.counter() == statement_object.varindex_counter,
            r.expected() == statement_object.varindex_counter,
    {
        let mut varname_types: Vec<(String, MyType1)> = Vec::new();
        let mut argument_types: Vec<MyType1> = Vec::new();
        for idx in 0..args.len()
            invariant
                args@.len() <= code_object.varnames@.len(),
                named_view(varname_types@) == initial_names(code_object.varnames@, args@.take(idx as int)),
                type1_views(argument_types@) == args@.take(idx as int).map_values(|t: JitType| jit_type1(t)),
        {
            let key = code_object.varnames[idx].clone();
            let value = match args[idx] {
                JitType::Int => MyType1::Int,
                JitType::Float => MyType1::Float,
                JitType::Bool => MyType1::Int,
            };
            let ghost before = named_view(varname_types@);
            let ghost prefix = args@.take(idx + 1);
            proof {
                assert(prefix.drop_last() =~= args@.take(idx as int));
                assert(prefix.last() == args@[idx as int]);
                lemma_name_index_bounds(before, key@);
            }
            match index_of_name(&varname_types, &key) {
                Some(i) => {
                    varname_types.set(i, (key, value.duplicate()));
                    assert(named_view(varname_types@) =~= before.update(i as int, (code_object.varnames@[idx as int]@, jit_type1(args@[idx as int]))));
                },
                None => {
                    varname_types.push((key, value.duplicate()));
                    assert(named_view(varname_types@) =~= before.push((code_object.varnames@[idx as int]@, jit_type1(args@[idx as int]))));
                },
            }
            let ghost args_before = argument_types@;
            argument_types.push(value);
            proof {
                assert(argument_types@.drop_last() =~= args_before);
                assert(prefix.map_values(|t: JitType| jit_type1(t)) =~= args@.take(idx as int).map_values(
                    |t: JitType| jit_type1(t),
                ).push(jit_type1(args@[idx as int])));
            }
        }
        assert(args@.take(args@.len() as int) =~= args@);
        let expected_len = statement_object.varindex_counter();
        TypeResolver {
            varindex_to_types: Vec::new(),
            varname_to_types: varname_types,
            argument_types,
            return_types: None,
            expected_len,
            statement_object,
        }
    }
}


// ---------------------------------------------------------------------------
// Walking the statements.
// ---------------------------------------------------------------------------

proof fn lemma_all_statements_step(blocks: Seq<(MyLabel, StatementBlock)>, k: int)
    requires
        0 <= k < blocks.len(),
    ensures
        all_statements(blocks.take(k + 1)) == all_statements(blocks.take(k)) + statements_view(
            blocks[k].1.statements@,
        ),
{
    let t = blocks.take(k + 1);
    assert(t.drop_last() =~= blocks.take(k));
    assert(t.last() == blocks[k]);
}

proof fn lemma_all_statements_prefix(blocks: Seq<(MyLabel, StatementBlock)>, k: int)
    requires
        0 <= k <= blocks.len(),
    ensures
        all_statements(blocks.take(k)).len() <= all_statements(blocks).len(),
        all_statements(blocks).take(all_statements(blocks.take(k)).len() as int) == all_statements(
            blocks.take(k),
        ),
    decreases blocks.len(),
{
    if k == blocks.len() {
        assert(blocks.take(k) =~= blocks);
        assert(all_statements(blocks).take(all_statements(blocks).len() as int) =~= all_statements(blocks));
    } else {
        let d = blocks.drop_last();
        lemma_all_statements_prefix(d, k);
        assert(d.take(k) =~= blocks.take(k));
        let p = all_statements(blocks.take(k));
        assert(all_statements(blocks).take(p.len() as int) =~= all_statements(d).take(p.len() as int));
    }
}

proof fn lemma_view_take_all(ss: Seq<MyStatement>)
    ensures
        statements_view(ss.take(ss.len() as int)) == statements_view(ss),
{
    assert(ss.take(ss.len() as int) =~= ss);
}

proof fn lemma_view_take_step(x: Seq<StatementView>, ss: Seq<MyStatement>, i: int)
    requires
        0 <= i < ss.len(),
    ensures
        (x + statements_view(ss.take(i + 1))).drop_last() == x + statements_view(ss.take(i)),
        (x + statements_view(ss.take(i + 1))).last() == ss[i]@,
{
    assert((x + statements_view(ss.take(i + 1))).drop_last() =~= x + statements_view(ss.take(i)));
}

/// An assignment found in a prefix is the first in the whole.
proof fn lemma_first_assign_prefix(ss: Seq<StatementView>, n: int, v: Varindex)
    requires
        0 <= n <= ss.len(),
        first_assign(ss.take(n), v) is Some,
    ensures
        first_assign(ss, v) == first_assign(ss.take(n), v),
    decreases ss.len() - n,
{
    if n == ss.len() {
        assert(ss.take(n) =~= ss);
    } else {
        let t = ss.take(n + 1);
        assert(t.drop_last() =~= ss.take(n));
        lemma_first_assign_prefix(ss, n + 1, v);
    }
}

/// A sweep that stops on a prefix stops on the whole.
proof fn lemma_sweep_prefix(
    names: Seq<(Seq<char>, Type1View)>,
    all: Seq<StatementView>,
    m: Seq<(Varindex, Type1View)>,
    ss: Seq<StatementView>,
    n: int,
)
    requires
        0 <= n <= ss.len(),
        sweep(names, all, m, ss.take(n)) is None,
    ensures
        sweep(names, all, m, ss) is None,
    decreases ss.len() - n,
{
    if n == ss.len() {
        assert(ss.take(n) =~= ss);
    } else {
        let t = ss.take(n + 1);
        assert(t.drop_last() =~= ss.take(n));
        lemma_sweep_prefix(names, all, m, ss, n + 1);
    }
}

/// How many statements the blocks hold.
fn statement_total(so: &StatementObject) -> (n: u128)
    ensures
        n == all_statements(so.blocks@).len(),
        n <= usize::MAX * usize::MAX,
{
    let mut n: u128 = 0;
    for bi in 0..so.blocks.len()
        invariant
            n == all_statements(so.blocks@.take(bi as int)).len(),
            n <= bi * usize::MAX,
    {
        proof {
            lemma_all_statements_step(so.blocks@, bi as int);
        }
        let len = so.blocks[bi].1.statements.len();
        assert(n + len <= (bi + 1) * usize::MAX) by (nonlinear_arith)
            requires
                n <= bi * usize::MAX,
                len <= usize::MAX,
        ;
        n = n + len as u128;
    }
    assert(so.blocks@.take(so.blocks@.len() as int) =~= so.blocks@);
    assert(n <= usize::MAX * usize::MAX) by (nonlinear_arith)
        requires
            n <= so.blocks@.len() * usize::MAX,
            so.blocks@.len() <= usize::MAX,
    ;
    n
}

/// The right-hand side of the first assignment to `v`.
fn first_assign_of(so: &StatementObject, v: Varindex) -> (r: Option<MyExpression>)
    ensures
        match r {
            None => first_assign(all_statements(so.blocks@), v) is None,
            Some(e) => first_assign(all_statements(so.blocks@), v) == Some(e@),
        },
{
    let ghost all = all_statements(so.blocks@);
    for bi in 0..so.blocks.len()
        invariant
            all == all_statements(so.blocks@),
            first_assign(all_statements(so.blocks@.take(bi as int)), v) is None,
    {
        let ghost x = all_statements(so.blocks@.take(bi as int));
        let statements = &so.blocks[bi].1.statements;
        proof {
            assert(x + statements_view(statements@.take(0)) =~= x);
        }
        for si in 0..statements.len()
            invariant
                0 <= bi < so.blocks@.len(),
                *statements == so.blocks@[bi as int].1.statements,
                all == all_statements(so.blocks@),
                x == all_statements(so.blocks@.take(bi as int)),
                first_assign(x + statements_view(statements@.take(si as int)), v) is None,
        {
            proof {
                lemma_view_take_step(x, statements@, si as int);
            }
            match &statements[si] {
                MyStatement::Assign(l, r) => {
                    if l.0 == v.0 {
                        proof {
                            let p = x + statements_view(statements@.take(si + 1));
                            lemma_all_statements_step(so.blocks@, bi as int);
                            lemma_all_statements_prefix(so.blocks@, bi + 1);
                            let q = all_statements(so.blocks@.take(bi + 1));
                            assert(q.take(p.len() as int) =~= p);
                            lemma_first_assign_prefix(q, p.len() as int, v);
                            lemma_first_assign_prefix(all, q.len() as int, v);
                        }
                        return Some(r.duplicate());
                    }
                },
                _ => {},
            }
        }
        proof {
            lemma_view_take_all(statements@);
            lemma_all_statements_step(so.blocks@, bi as int);
        }
    }
    assert(so.blocks@.take(so.blocks@.len() as int) =~= so.blocks@);
    None
}

/// What the search for a constant found.
enum ConstantSearch {
    Missing,
    Found(MyExpression),
    Stuck,
}

spec fn search_view(c: ConstantSearch) -> ConstantLookup {
    match c {
        ConstantSearch::Missing => ConstantLookup::Missing,
        ConstantSearch::Found(e) => ConstantLookup::Found(e@),
        ConstantSearch::Stuck => ConstantLookup::Stuck,
    }
}

impl TypeResolver {
    /// The constant of `lhs`, followed through copies, at most `total` of
    /// them.
    fn get_constant_for_lhs(so: &StatementObject, total: u128, lhs: Varindex) -> (r: ConstantSearch)
        requires
            total == all_statements(so.blocks@).len(),
        ensures
            search_view(r) == constant_of(all_statements(so.blocks@), lhs, total as nat),
    {
        let ghost all = all_statements(so.blocks@);
        let mut key = lhs;
        let mut fuel = total;
        loop
            invariant
                all == all_statements(so.blocks@),
                constant_of(all, lhs, total as nat) == constant_of(all, key, fuel as nat),
            decreases fuel,
        {
            match first_assign_of(so, key) {
                None => {
                    return ConstantSearch::Missing;
                },
                Some(r) => match r {
                    MyExpression::Variable(w) => {
                        if fuel == 0 {
                            return ConstantSearch::Stuck;
                        }
                        key = w;
                        fuel = fuel - 1;
                    },
                    MyExpression::Varname(_) => {
                        return ConstantSearch::Missing;
                    },
                    MyExpression::Struct(_) => {
                        return ConstantSearch::Missing;
                    },
                    MyExpression::Int(_) | MyExpression::Float64(_) | MyExpression::UnaryOp(_, _)
                    | MyExpression::BinaryOp(_, _, _) | MyExpression::CompareOp(_, _, _)
                    | MyExpression::Subscript(_, _) | MyExpression::GlobalFunction(_)
                    | MyExpression::Call(_, _) => {
                        return ConstantSearch::Found(r);
                    },
                    _ => {
                        return ConstantSearch::Stuck;
                    },
                },
            }
        }
    }
}


/// A copy of the type of `v`, if it has one.
fn copy_type_of(types: &Vec<(Varindex, MyType1)>, v: Varindex) -> (r: Option<MyType1>)
    ensures
        opt_type1_view(r) == type_of(entries_view(types@), v),
{
    match find_type(types, v) {
        Some(i) => Some(types[i].1.duplicate()),
        None => None,
    }
}

impl TypeResolver {
    /// Resolves `lhs = rhs`; `false` where resolution stops.
    fn solve_statement_assignment(
        types: &mut Vec<(Varindex, MyType1)>,
        names: &Vec<(String, MyType1)>,
        so: &StatementObject,
        total: u128,
        lhs: Varindex,
        rhs: &MyExpression,
    ) -> (ok: bool)
        requires
            total == all_statements(so.blocks@).len(),
        ensures
            ok == resolve_assignment(
                named_view(names@),
                all_statements(so.blocks@),
                entries_view(old(types)@),
                lhs,
                rhs@,
            ) is Some,
            ok ==> entries_view(final(types)@) == resolve_assignment(
                named_view(names@),
                all_statements(so.blocks@),
                entries_view(old(types)@),
                lhs,
                rhs@,
            )->Some_0,
            ok ==> extends(entries_view(final(types)@), entries_view(old(types)@)),
            ok ==> (entries_view(final(types)@) == entries_view(old(types)@) || (type_of(
                entries_view(old(types)@),
                lhs,
            ) is None && exists|t: Type1View|
                entries_view(final(types)@) == entries_view(old(types)@).push((lhs, t)))),
    {
        proof {
            let st = StatementView::Assign(lhs, rhs@);
            lemma_statement_extends(named_view(names@), all_statements(so.blocks@), entries_view(types@), st);
            lemma_statement_growth(named_view(names@), all_statements(so.blocks@), entries_view(types@), st);
        }
        match rhs {
            MyExpression::Varname(s) => {
                let t = match find_name_type(names, s) {
                    Some(i) => Some(names[i].1.duplicate()),
                    None => None,
                };
                lock_type_and_check(types, lhs, t)
            },
            MyExpression::Variable(v) => {
                let t = copy_type_of(types, *v);
                lock_type_and_check(types, lhs, t)
            },
            MyExpression::Int(_) => lock_type_and_check(types, lhs, Some(MyType1::Int)),
            MyExpression::Float64(_) => lock_type_and_check(types, lhs, Some(MyType1::Float)),
            MyExpression::String(_) => false,
            MyExpression::Struct(s) => {
                let members = crate::transpiler::copy_varindices(s);
                lock_type_and_check(types, lhs, Some(MyType1::Struct(members)))
            },
            MyExpression::UnaryOp(_, a) => match copy_type_of(types, *a) {
                None => true,
                Some(MyType1::Int) => lock_type_and_check(types, lhs, Some(MyType1::Int)),
                Some(MyType1::Float) => lock_type_and_check(types, lhs, Some(MyType1::Float)),
                Some(_) => false,
            },
            MyExpression::BinaryOp(_, a, b) => {
                let ta = copy_type_of(types, *a);
                let tb = copy_type_of(types, *b);
                match (ta, tb) {
                    (Some(ta), Some(tb)) => {
                        let a_int = match ta {
                            MyType1::Int => true,
                            _ => false,
                        };
                        let a_float = match ta {
                            MyType1::Float => true,
                            _ => false,
                        };
                        let b_int = match tb {
                            MyType1::Int => true,
                            _ => false,
                        };
                        let b_float = match tb {
                            MyType1::Float => true,
                            _ => false,
                        };
                        if a_int && b_int {
                            lock_type_and_check(types, lhs, Some(MyType1::Int))
                        } else if b_float || a_float {
                            lock_type_and_check(types, lhs, Some(MyType1::Float))
                        } else {
                            false
                        }
                    },
                    _ => true,
                }
            },
            MyExpression::CompareOp(_, _, _) => lock_type_and_check(types, lhs, Some(MyType1::Int)),
            MyExpression::Subscript(container, key) => {
                let member = match find_type(types, *container) {
                    None => {
                        return false;
                    },
                    Some(i) => match &types[i].1 {
                        MyType1::Struct(members) => match Self::get_constant_for_lhs(so, total, *key) {
                            ConstantSearch::Found(MyExpression::Int(value)) => {
                                if value < 0 || value as u64 >= members.len() as u64 {
                                    return false;
                                }
                                members[value as usize]
                            },
                            _ => {
                                return false;
                            },
                        },
                        _ => {
                            return false;
                        },
                    },
                };
                let t = copy_type_of(types, member);
                lock_type_and_check(types, lhs, t)
            },
            MyExpression::GlobalFunction(name) => lock_type_and_check(
                types,
                lhs,
                Some(MyType1::Function(name.clone())),
            ),
            MyExpression::Call(f, args) => Self::solve_function_call(types, lhs, *f, args),
            MyExpression::ConvertToIterator(v) => match copy_type_of(types, *v) {
                None => true,
                Some(MyType1::Iterator(name, inner)) => lock_type_and_check(
                    types,
                    lhs,
                    Some(MyType1::Iterator(name, inner)),
                ),
                Some(_) => false,
            },
            MyExpression::IteratorCheck(_) => lock_type_and_check(types, lhs, Some(MyType1::Int)),
            MyExpression::IteratorNext(v) => match copy_type_of(types, *v) {
                None => true,
                Some(MyType1::Iterator(_, inner)) => lock_type_and_check(types, lhs, Some(*inner)),
                Some(_) => false,
            },
        }
    }

    /// Resolves `lhs = f(args)`: a call of `range` with one argument gives
    /// an iterator of integers; `false` for any other call.
    fn solve_function_call(
        types: &mut Vec<(Varindex, MyType1)>,
        lhs: Varindex,
        varindex_func: Varindex,
        varindex_args: &Vec<Varindex>,
    ) -> (ok: bool)
        ensures
            ok == (match type_of(entries_view(old(types)@), varindex_func) {
                Some(Type1View::Function(name)) => name == "range"@ && varindex_args@.len() == 1
                    && lock_type(entries_view(old(types)@), lhs, Some(range_iterator())) is Some,
                _ => false,
            }),
            ok ==> entries_view(final(types)@) == lock_type(
                entries_view(old(types)@),
                lhs,
                Some(range_iterator()),
            )->Some_0,
    {
        proof {
            reveal_strlit("range");
        }
        let is_range_call = match find_type(types, varindex_func) {
            None => false,
            Some(i) => match &types[i].1 {
                MyType1::Function(name) => {
                    let range = string_of("range");
                    *name == range && varindex_args.len() == 1
                },
                _ => false,
            },
        };
        if !is_range_call {
            return false;
        }
        let name = string_of("range");
        assert(type1_view(MyType1::Int) == Type1View::Int);
        let my_type = MyType1::Iterator(name, Box::new(MyType1::Int));
        assert(type1_view(my_type) == range_iterator());
        lock_type_and_check(types, lhs, Some(my_type))
    }

    /// Resolves one statement; `false` where resolution stops.
    fn solve_statement(
        types: &mut Vec<(Varindex, MyType1)>,
        names: &Vec<(String, MyType1)>,
        so: &StatementObject,
        total: u128,
        statement: &MyStatement,
    ) -> (ok: bool)
        requires
            total == all_statements(so.blocks@).len(),
        ensures
            ok == resolve_statement(
                named_view(names@),
                all_statements(so.blocks@),
                entries_view(old(types)@),
                statement@,
            ) is Some,
            ok ==> entries_view(final(types)@) == resolve_statement(
                named_view(names@),
                all_statements(so.blocks@),
                entries_view(old(types)@),
                statement@,
            )->Some_0,
    {
        match statement {
            MyStatement::Assign(lhs, rhs) => Self::solve_statement_assignment(types, names, so, total, *lhs, rhs),
            MyStatement::Return(lhs) => {
                let my_type = copy_type_of(types, *lhs);
                lock_type_and_check(types, *lhs, my_type)
            },
            MyStatement::Jump(_) => true,
            MyStatement::JumpIfTrue(_, _) => true,
            MyStatement::PlaceholderJump(_, _) => true,
            MyStatement::PlaceholderTarget(_) => true,
            MyStatement::Noop => true,
        }
    }

    /// One sweep over all statements, in block order; `false` where
    /// resolution stops.
    fn solve_statement_object(
        types: &mut Vec<(Varindex, MyType1)>,
        names: &Vec<(String, MyType1)>,
        so: &StatementObject,
        total: u128,
    ) -> (ok: bool)
        requires
            total == all_statements(so.blocks@).len(),
        ensures
            ok == sweep(
                named_view(names@),
                all_statements(so.blocks@),
                entries_view(old(types)@),
                all_statements(so.blocks@),
            ) is Some,
            ok ==> entries_view(final(types)@) == sweep(
                named_view(names@),
                all_statements(so.blocks@),
                entries_view(old(types)@),
                all_statements(so.blocks@),
            )->Some_0,
    {
        let ghost all = all_statements(so.blocks@);
        let ghost nm = named_view(names@);
        let ghost m0 = entries_view(types@);
        for bi in 0..so.blocks.len()
            invariant
                total == all_statements(so.blocks@).len(),
                all == all_statements(so.blocks@),
                nm == named_view(names@),
                m0 == entries_view(old(types)@),
                sweep(nm, all, m0, all_statements(so.blocks@.take(bi as int))) == Some(entries_view(types@)),
        {
            let ghost x = all_statements(so.blocks@.take(bi as int));
            let statements = &so.blocks[bi].1.statements;
            proof {
                assert(x + statements_view(statements@.take(0)) =~= x);
            }
            for si in 0..statements.len()
                invariant
                    0 <= bi < so.blocks@.len(),
                    *statements == so.blocks@[bi as int].1.statements,
                    total == all_statements(so.blocks@).len(),
                    all == all_statements(so.blocks@),
                    nm == named_view(names@),
                    m0 == entries_view(old(types)@),
                    x == all_statements(so.blocks@.take(bi as int)),
                    sweep(nm, all, m0, x + statements_view(statements@.take(si as int))) == Some(
                        entries_view(types@),
                    ),
            {
                proof {
                    lemma_view_take_step(x, statements@, si as int);
                }
                let ghost before = entries_view(types@);
                let ok = Self::solve_statement(types, names, so, total, &statements[si]);
                if !ok {
                    proof {
                        let p = x + statements_view(statements@.take(si + 1));
                        assert(sweep(nm, all, m0, p.drop_last()) == Some(before));
                        assert(sweep(nm, all, m0, p) is None);
                        lemma_all_statements_step(so.blocks@, bi as int);
                        lemma_all_statements_prefix(so.blocks@, bi + 1);
                        let q = all_statements(so.blocks@.take(bi + 1));
                        assert(q.take(p.len() as int) =~= p);
                        lemma_sweep_prefix(nm, all, m0, q, p.len() as int);
                        assert(sweep(nm, all, m0, q) is None);
                        lemma_all_statements_prefix(so.blocks@, (bi + 1) as int);
                        assert(all.take(q.len() as int) == q);
                        lemma_sweep_prefix(nm, all, m0, all, q.len() as int);
                        assert(sweep(nm, all, m0, all) is None);
                    }
                    return false;
                }
            }
            proof {
                lemma_view_take_all(statements@);
                lemma_all_statements_step(so.blocks@, bi as int);
            }
        }
        assert(so.blocks@.take(so.blocks@.len() as int) =~= so.blocks@);
        true
    }
}


// ---------------------------------------------------------------------------
// Solving.
// ---------------------------------------------------------------------------

impl TypeResolver {
    /// What resolution gives: sweeps until one finds no new type, at most
    /// one more than there are statements, which is always enough
    /// (`lemma_resolution_ends`); `None` where it stops, and where the types
    /// found do not cover every variable.
    pub open spec fn solved(&self) -> Option<Seq<(Varindex, Type1View)>> {
        solve_rounds(
            self.names(),
            self.statements(),
            self.types(),
            self.counter(),
            self.statements().len() + 1,
        )
    }

    /// Whether `self` holds what `old` held but for the types found.
    pub open spec fn same_but_types(&self, old: &TypeResolver) -> bool {
        &&& self.names() == old.names()
        &&& self.statements() == old.statements()
        &&& self.counter() == old.counter()
        &&& self.expected() == old.expected()
        &&& self.arguments() == old.arguments()
        &&& self.return_type() == old.return_type()
    }

    /// Resolves the types; `false` where resolution stops or leaves a
    /// variable without a type.
    pub fn try_solve(&mut self) -> (ok: bool)
        ensures
            ok == old(self).solved() is Some,
            ok ==> final(self).types() == old(self).solved()->Some_0,
            final(self).same_but_types(old(self)),
    {
        let total = statement_total(&self.statement_object);
        let mut fuel: u128 = total + 1;
        loop
            invariant
                total == all_statements(self.statement_object.blocks@).len(),
                fuel <= total + 1,
                old(self).solved() == solve_rounds(
                    self.names(),
                    self.statements(),
                    self.types(),
                    self.counter(),
                    fuel as nat,
                ),
                self.varname_to_types == old(self).varname_to_types,
                self.statement_object == old(self).statement_object,
                self.argument_types == old(self).argument_types,
                self.return_types == old(self).return_types,
                self.expected_len == old(self).expected_len,
            decreases fuel,
        {
            if fuel == 0 {
                return false;
            }
            let prev = self.varindex_to_types.len();
            let ok = Self::solve_statement_object(
                &mut self.varindex_to_types,
                &self.varname_to_types,
                &self.statement_object,
                total,
            );
            if !ok {
                return false;
            }
            let after = self.varindex_to_types.len();
            if prev == after {
                return after == self.statement_object.varindex_counter();
            }
            fuel = fuel - 1;
        }
    }

    /// Resolves the types of all variables.
    pub fn solve(&mut self)
        requires
            old(self).solved() is Some,
        ensures
            final(self).types() == old(self).solved()->Some_0,
            final(self).same_but_types(old(self)),
    {
        let ok = self.try_solve();
        assert(ok);
    }
}

// ---------------------------------------------------------------------------
// The type of arithmetic.
// ---------------------------------------------------------------------------

/// The type of `lhs = a op b`: a float where either operand is a float,
/// an integer where both are integers. While an operand has no type yet
/// the statement waits; any other pair of types stops resolution. For a
/// variable without a type, the type found is added after the others.
pub proof fn lemma_binary_operation_type(
    names: Seq<(Seq<char>, Type1View)>,
    all: Seq<StatementView>,
    m: Seq<(Varindex, Type1View)>,
    lhs: Varindex,
    op: BinaryOperator,
    a: Varindex,
    b: Varindex,
)
    ensures
        ({
            let r = resolve_assignment(names, all, m, lhs, ExprView::BinaryOp(op, a, b));
            &&& (type_of(m, a) is None || type_of(m, b) is None) ==> r == Some(m)
            &&& (type_of(m, lhs) is None && type_of(m, a) is Some && type_of(m, b) is Some && (type_of(m, a)
                == Some(Type1View::Float) || type_of(m, b) == Some(Type1View::Float))) ==> r == Some(
                m.push((lhs, Type1View::Float)),
            )
            &&& (type_of(m, lhs) is None && type_of(m, a) == Some(Type1View::Int) && type_of(m, b) == Some(
                Type1View::Int,
            )) ==> r == Some(m.push((lhs, Type1View::Int)))
            &&& (type_of(m, a) is Some && type_of(m, b) is Some && type_of(m, a) != Some(Type1View::Float)
                && type_of(m, b) != Some(Type1View::Float) && !(type_of(m, a) == Some(Type1View::Int)
                && type_of(m, b) == Some(Type1View::Int))) ==> r is None
        }),
{
}

// ---------------------------------------------------------------------------
// What resolution keeps.
// ---------------------------------------------------------------------------

/// Whether `m2` extends `m`: it starts with the entries of `m`, and each
/// variable that has a type in `m` has the same type in `m2`.
pub open spec fn extends(m2: Seq<(Varindex, Type1View)>, m: Seq<(Varindex, Type1View)>) -> bool {
    &&& m.len() <= m2.len()
    &&& m2.take(m.len() as int) == m
    &&& forall|v: Varindex| type_of(m, v) is Some ==> #[trigger] type_of(m2, v) == type_of(m, v)
}

proof fn lemma_type_of_push(m: Seq<(Varindex, Type1View)>, e: (Varindex, Type1View), v: Varindex)
    ensures
        type_of(m.push(e), v) == if e.0 == v {
            Some(e.1)
        } else {
            type_of(m, v)
        },
{
    assert(m.push(e).drop_last() =~= m);
}

proof fn lemma_extends_refl(m: Seq<(Varindex, Type1View)>)
    ensures
        extends(m, m),
{
    assert(m.take(m.len() as int) =~= m);
}

proof fn lemma_extends_trans(m1: Seq<(Varindex, Type1View)>, m2: Seq<(Varindex, Type1View)>, m3: Seq<(Varindex, Type1View)>)
    requires
        extends(m2, m1),
        extends(m3, m2),
    ensures
        extends(m3, m1),
{
    assert(m3.take(m1.len() as int) =~= m3.take(m2.len() as int).take(m1.len() as int));
    assert forall|v: Varindex| type_of(m1, v) is Some implies #[trigger] type_of(m3, v) == type_of(m1, v) by {
        assert(type_of(m2, v) == type_of(m1, v));
    }
}

proof fn lemma_lock_extends(m: Seq<(Varindex, Type1View)>, v: Varindex, t: Option<Type1View>)
    ensures
        lock_type(m, v, t) matches Some(m2) ==> extends(m2, m),
{
    lemma_extends_refl(m);
    if let Some(t) = t {
        if type_of(m, v) is None {
            let m2 = m.push((v, t));
            assert(m2.take(m.len() as int) =~= m);
            assert forall|k: Varindex| type_of(m, k) is Some implies #[trigger] type_of(m2, k) == type_of(m, k) by {
                lemma_type_of_push(m, (v, t), k);
            }
        }
    }
}

proof fn lemma_statement_extends(
    names: Seq<(Seq<char>, Type1View)>,
    all: Seq<StatementView>,
    m: Seq<(Varindex, Type1View)>,
    st: StatementView,
)
    ensures
        resolve_statement(names, all, m, st) matches Some(m2) ==> extends(m2, m),
{
    lemma_extends_refl(m);
    match st {
        StatementView::Assign(lhs, rhs) => match rhs {
            ExprView::Varname(s) => lemma_lock_extends(m, lhs, type_of_name(names, s)),
            ExprView::Variable(v) => lemma_lock_extends(m, lhs, type_of(m, v)),
            ExprView::Int(_) => lemma_lock_extends(m, lhs, Some(Type1View::Int)),
            ExprView::Float64(_) => lemma_lock_extends(m, lhs, Some(Type1View::Float)),
            ExprView::Struct(s) => lemma_lock_extends(m, lhs, Some(Type1View::Struct(s))),
            ExprView::UnaryOp(_, a) => {
                lemma_lock_extends(m, lhs, Some(Type1View::Int));
                lemma_lock_extends(m, lhs, Some(Type1View::Float));
            },
            ExprView::BinaryOp(_, a, b) => {
                lemma_lock_extends(m, lhs, Some(Type1View::Int));
                lemma_lock_extends(m, lhs, Some(Type1View::Float));
            },
            ExprView::CompareOp(_, _, _) => lemma_lock_extends(m, lhs, Some(Type1View::Int)),
            ExprView::Subscript(container, key) => {
                if let Some(Type1View::Struct(members)) = type_of(m, container) {
                    if let ConstantLookup::Found(ExprView::Int(value)) = constant_of(all, key, all.len()) {
                        if 0 <= value < members.len() {
                            lemma_lock_extends(m, lhs, type_of(m, members[value as int]));
                        }
                    }
                }
            },
            ExprView::GlobalFunction(name) => lemma_lock_extends(m, lhs, Some(Type1View::Function(name))),
            ExprView::Call(_, _) => lemma_lock_extends(m, lhs, Some(range_iterator())),
            ExprView::ConvertToIterator(v) => {
                if let Some(Type1View::Iterator(name, inner)) = type_of(m, v) {
                    lemma_lock_extends(m, lhs, Some(Type1View::Iterator(name, inner)));
                }
            },
            ExprView::IteratorCheck(_) => lemma_lock_extends(m, lhs, Some(Type1View::Int)),
            ExprView::IteratorNext(v) => {
                if let Some(Type1View::Iterator(_, inner)) = type_of(m, v) {
                    lemma_lock_extends(m, lhs, Some(*inner));
                }
            },
            _ => {},
        },
        StatementView::Return(v) => lemma_lock_extends(m, v, type_of(m, v)),
        _ => {},
    }
}

proof fn lemma_sweep_extends(
    names: Seq<(Seq<char>, Type1View)>,
    all: Seq<StatementView>,
    m: Seq<(Varindex, Type1View)>,
    ss: Seq<StatementView>,
)
    ensures
        sweep(names, all, m, ss) matches Some(m2) ==> extends(m2, m),
    decreases ss.len(),
{
    if ss.len() == 0 {
        lemma_extends_refl(m);
    } else {
        lemma_sweep_extends(names, all, m, ss.drop_last());
        if let Some(m1) = sweep(names, all, m, ss.drop_last()) {
            lemma_statement_extends(names, all, m1, ss.last());
            if let Some(m2) = resolve_statement(names, all, m1, ss.last()) {
                lemma_extends_trans(m, m1, m2);
            }
        }
    }
}

proof fn lemma_rounds_extend(
    names: Seq<(Seq<char>, Type1View)>,
    all: Seq<StatementView>,
    m: Seq<(Varindex, Type1View)>,
    expected: nat,
    fuel: nat,
)
    ensures
        solve_rounds(names, all, m, expected, fuel) matches Some(m2) ==> extends(m2, m),
    decreases fuel,
{
    if fuel > 0 {
        lemma_sweep_extends(names, all, m, all);
        if let Some(m2) = sweep(names, all, m, all) {
            if m2.len() != m.len() {
                lemma_rounds_extend(names, all, m2, expected, (fuel - 1) as nat);
                if let Some(m3) = solve_rounds(names, all, m2, expected, (fuel - 1) as nat) {
                    lemma_extends_trans(m, m2, m3);
                }
            }
        }
    }
}

/// Resolution keeps what it has found: the types it ends with start with
/// those it started with, and a variable that had a type keeps it.
pub proof fn lemma_solved_keeps_types(r: TypeResolver)
    ensures
        r.solved() matches Some(m) ==> extends(m, r.types()),
{
    lemma_rounds_extend(r.names(), r.statements(), r.types(), r.counter(), r.statements().len() + 1);
}

// ---------------------------------------------------------------------------
// Resolution ends.
// ---------------------------------------------------------------------------

/// The variable that a statement assigns, or the first one.
pub open spec fn assigned_by(st: StatementView) -> Varindex {
    match st {
        StatementView::Assign(lhs, _) => lhs,
        _ => Varindex(0),
    }
}

/// The variables that the statements assign.
pub open spec fn assigned(all: Seq<StatementView>) -> Set<Varindex> {
    Set::new(
        |v: Varindex|
            exists|i: int| 0 <= i < all.len() && (#[trigger] all[i]) is Assign && assigned_by(all[i]) == v,
    )
}

/// The assigned variables that have no type yet.
pub open spec fn untyped(all: Seq<StatementView>, m: Seq<(Varindex, Type1View)>) -> Set<Varindex> {
    assigned(all).filter(|v: Varindex| type_of(m, v) is None)
}

proof fn lemma_assigned_finite(all: Seq<StatementView>)
    ensures
        assigned(all).finite(),
        assigned(all).len() <= all.len(),
{
    broadcast use vstd::seq_lib::seq_to_set_is_finite;

    let lhs = all.map_values(|st: StatementView| assigned_by(st));
    assert forall|v: Varindex| assigned(all).contains(v) implies lhs.to_set().contains(v) by {
        let i = choose|i: int| 0 <= i < all.len() && (#[trigger] all[i]) is Assign && assigned_by(all[i]) == v;
        assert(lhs[i] == v);
    }
    lhs.lemma_cardinality_of_set();
    vstd::set_lib::lemma_len_subset(assigned(all), lhs.to_set());
}

proof fn lemma_untyped_finite(all: Seq<StatementView>, m: Seq<(Varindex, Type1View)>)
    ensures
        untyped(all, m).finite(),
        untyped(all, m).len() <= all.len(),
{
    lemma_assigned_finite(all);
    vstd::set_lib::lemma_len_subset(untyped(all, m), assigned(all));
}

/// A statement that adds an entry adds one, for the variable it assigns,
/// which had no type.
proof fn lemma_statement_growth(
    names: Seq<(Seq<char>, Type1View)>,
    all: Seq<StatementView>,
    m: Seq<(Varindex, Type1View)>,
    st: StatementView,
)
    ensures
        resolve_statement(names, all, m, st) matches Some(m2) ==> (m2 == m || (st is Assign && type_of(
            m,
            assigned_by(st),
        ) is None && exists|t: Type1View| m2 == m.push((assigned_by(st), t)))),
{
    if let Some(m2) = resolve_statement(names, all, m, st) {
        if m2 != m {
            match st {
                StatementView::Assign(lhs, rhs) => {
                    let t = m2.last().1;
                    assert(m2 == m.push((lhs, t)));
                },
                _ => {},
            }
        }
    }
}

/// A sweep over statements of `all` that adds entries gives a type to an
/// assigned variable that had none.
proof fn lemma_sweep_growth(
    names: Seq<(Seq<char>, Type1View)>,
    all: Seq<StatementView>,
    m: Seq<(Varindex, Type1View)>,
    n: int,
)
    requires
        0 <= n <= all.len(),
    ensures
        sweep(names, all, m, all.take(n)) matches Some(m2) ==> (m2.len() > m.len() ==> exists|v: Varindex|
            #[trigger] assigned(all).contains(v) && type_of(m, v) is None && type_of(m2, v) is Some),
    decreases n,
{
    let ss = all.take(n);
    if n > 0 {
        assert(ss.drop_last() =~= all.take(n - 1));
        lemma_sweep_growth(names, all, m, n - 1);
        lemma_sweep_extends(names, all, m, ss.drop_last());
        if let Some(m1) = sweep(names, all, m, ss.drop_last()) {
            lemma_statement_extends(names, all, m1, ss.last());
            lemma_statement_growth(names, all, m1, ss.last());
            if let Some(m2) = resolve_statement(names, all, m1, ss.last()) {
                if m2.len() > m.len() {
                    if m1.len() > m.len() {
                        let v = choose|v: Varindex|
                            #[trigger] assigned(all).contains(v) && type_of(m, v) is None && type_of(m1, v) is Some;
                        assert(type_of(m2, v) == type_of(m1, v));
                    } else {
                        assert(m1 =~= m1.take(m.len() as int));
                        assert(m1 == m);
                        let st = ss.last();
                        let v = assigned_by(st);
                        let t = choose|t: Type1View| m2 == m.push((v, t));
                        lemma_type_of_push(m, (v, t), v);
                        assert(all[n - 1] == st);
                        assert(assigned(all).contains(v));
                    }
                }
            }
        }
    }
}

proof fn lemma_rounds_fuel(
    names: Seq<(Seq<char>, Type1View)>,
    all: Seq<StatementView>,
    m: Seq<(Varindex, Type1View)>,
    expected: nat,
    fuel: nat,
)
    requires
        fuel > untyped(all, m).len(),
    ensures
        solve_rounds(names, all, m, expected, fuel) == solve_rounds(names, all, m, expected, fuel + 1),
    decreases fuel,
{
    lemma_untyped_finite(all, m);
    assert(all.take(all.len() as int) =~= all);
    lemma_sweep_growth(names, all, m, all.len() as int);
    lemma_sweep_extends(names, all, m, all);
    if let Some(m2) = sweep(names, all, m, all) {
        if m2.len() != m.len() {
            let v = choose|v: Varindex|
                #[trigger] assigned(all).contains(v) && type_of(m, v) is None && type_of(m2, v) is Some;
            lemma_untyped_finite(all, m2);
            assert(untyped(all, m2).subset_of(untyped(all, m).remove(v))) by {
                assert forall|w: Varindex| untyped(all, m2).contains(w) implies untyped(all, m).remove(v).contains(w) by {
                    if type_of(m, w) is Some {
                        assert(type_of(m2, w) == type_of(m, w));
                    }
                }
            }
            vstd::set_lib::lemma_len_subset(untyped(all, m2), untyped(all, m).remove(v));
            assert(untyped(all, m).contains(v));
            lemma_rounds_fuel(names, all, m2, expected, (fuel - 1) as nat);
        }
    }
}

/// Resolution ends: each sweep that finds a new type gives one to a
/// variable that a statement assigns and that had none, so sweeps as many
/// as there are statements, and one more, reach a sweep that finds nothing
/// new, and more sweeps change nothing.
pub proof fn lemma_resolution_ends(
    names: Seq<(Seq<char>, Type1View)>,
    all: Seq<StatementView>,
    m: Seq<(Varindex, Type1View)>,
    expected: nat,
    fuel: nat,
)
    requires
        fuel >= all.len() + 1,
    ensures
        solve_rounds(names, all, m, expected, fuel) == solve_rounds(names, all, m, expected, all.len() + 1),
    decreases fuel,
{
    lemma_untyped_finite(all, m);
    if fuel > all.len() + 1 {
        lemma_resolution_ends(names, all, m, expected, (fuel - 1) as nat);
        lemma_rounds_fuel(names, all, m, expected, (fuel - 1) as nat);
    }
}

// ---------------------------------------------------------------------------
// The report.
// ---------------------------------------------------------------------------

/// The line of the report for variable `idx`.
pub open spec fn report_line(m: Seq<(Varindex, Type1View)>, idx: nat) -> Seq<char> {
    spec_varindex_text(Varindex(idx as usize)) + " => "@ + match type_of(m, Varindex(idx as usize)) {
        Some(t) => spec_type1_text(t),
        None => "unknown"@,
    } + "\n"@
}

/// The lines of the report for the variables below `n`.
pub open spec fn report_lines(m: Seq<(Varindex, Type1View)>, n: nat) -> Seq<char>
    decreases n,
{
    if n == 0 {
        Seq::empty()
    } else {
        report_lines(m, (n - 1) as nat) + report_line(m, (n - 1) as nat)
    }
}

/// The rule above and below the report.
pub open spec fn report_rule() -> Seq<char> {
    "^^^^^^^^^^^^^^^^^^^^^^^^^^^^^^^^\n"@
}

/// The report of the types found: a line for each variable, then the
/// return type, between two rules.
pub open spec fn spec_report(m: Seq<(Varindex, Type1View)>, expected: nat, ret: Option<Type1View>) -> Seq<
    char,
> {
    report_rule() + report_lines(m, expected) + "return types => ["@ + match ret {
        Some(t) => spec_type1_text(t),
        None => Seq::empty(),
    } + "]\n"@ + report_rule()
}

impl TypeResolver {
    /// The report of the types found.
    pub fn report_text(&self) -> (r: String)
        ensures
            r@ == spec_report(self.types(), self.expected(), self.return_type()),
    {
        proof {
            reveal_strlit("^^^^^^^^^^^^^^^^^^^^^^^^^^^^^^^^\n");
            reveal_strlit(" => ");
            reveal_strlit("unknown");
            reveal_strlit("\n");
            reveal_strlit("return types => [");
            reveal_strlit("]\n");
        }
        let mut r = string_of("^^^^^^^^^^^^^^^^^^^^^^^^^^^^^^^^\n");
        for idx in 0..self.expected_len
            invariant
                r@ == report_rule() + report_lines(self.types(), idx as nat),
        {
            let v = Varindex(idx);
            let text = v.as_string();
            r.append(text.as_str());
            r.append(" => ");
            match find_type(&self.varindex_to_types, v) {
                Some(i) => {
                    let t = self.varindex_to_types[i].1.to_text();
                    r.append(t.as_str());
                },
                None => {
                    r.append("unknown");
                },
            }
            r.append("\n");
            assert(r@ =~= report_rule() + report_lines(self.types(), (idx + 1) as nat));
        }
        r.append("return types => [");
        match &self.return_types {
            Some(t) => {
                let text = t.to_text();
                r.append(text.as_str());
            },
            None => {},
        }
        r.append("]\n");
        r.append("^^^^^^^^^^^^^^^^^^^^^^^^^^^^^^^^\n");
        assert(r@ =~= spec_report(self.types(), self.expected(), self.return_type()));
        r
    }
}


// ---------------------------------------------------------------------------
// Building the type map.
// ---------------------------------------------------------------------------

/// The resolved type of `t`: a structure's members are replaced by their
/// types, at most `fuel` deep; `None` where a member has no type, and where
/// the structures nest deeper than `fuel`.
///
/// Structures that nest deeper than there are entries in `m` come back to
/// a member they have passed, and nest without end (`lemma_upgrade_ends`).
pub open spec fn upgrade(m: Seq<(Varindex, Type1View)>, t: Type1View, fuel: nat) -> Option<Type2View>
    decreases fuel, 1nat, t,
{
    match t {
        Type1View::Int => Some(Type2View::Int),
        Type1View::Float => Some(Type2View::Float),
        Type1View::Struct(s) => if s.len() == 0 {
            Some(Type2View::Struct(Seq::empty()))
        } else if fuel == 0 {
            None
        } else {
            match upgrade_members(m, s, (fuel - 1) as nat) {
                Some(v) => Some(Type2View::Struct(v)),
                None => None,
            }
        },
        Type1View::SolvedStruct(ts) => match upgrade_all(m, ts, fuel) {
            Some(v) => Some(Type2View::Struct(v)),
            None => None,
        },
        Type1View::Iterator(name, inner) => match upgrade(m, *inner, fuel) {
            Some(u) => Some(Type2View::Iterator(name, Box::new(u))),
            None => None,
        },
        Type1View::Function(name) => Some(Type2View::Function(name)),
    }
}

/// The resolved types of the members `s` of a structure, each at most
/// `fuel` deep.
pub open spec fn upgrade_members(m: Seq<(Varindex, Type1View)>, s: Seq<Varindex>, fuel: nat) -> Option<
    Seq<Type2View>,
>
    decreases fuel + 1, 0nat, s,
{
    if s.len() == 0 {
        Some(Seq::empty())
    } else {
        match (upgrade_members(m, s.drop_last(), fuel), type_of(m, s.last())) {
            (Some(v), Some(t)) => match upgrade(m, t, fuel) {
                Some(u) => Some(v.push(u)),
                None => None,
            },
            _ => None,
        }
    }
}

/// The resolved types of a list of types.
pub open spec fn upgrade_all(m: Seq<(Varindex, Type1View)>, ts: Seq<Type1View>, fuel: nat) -> Option<
    Seq<Type2View>,
>
    decreases fuel, 1nat, ts,
{
    if ts.len() == 0 {
        Some(Seq::empty())
    } else {
        match (upgrade_all(m, ts.drop_last(), fuel), upgrade(m, ts.last(), fuel)) {
            (Some(v), Some(u)) => Some(v.push(u)),
            _ => None,
        }
    }
}

pub open spec fn opt_type2_view(t: Option<MyType2>) -> Option<Type2View> {
    match t {
        Some(t) => Some(type2_view(t)),
        None => None,
    }
}

// ---------------------------------------------------------------------------
// Resolved types end.
// ---------------------------------------------------------------------------

/// Whether `t` names `k` as a member of one of its structures.
pub open spec fn mentions(t: Type1View, k: Varindex) -> bool
    decreases t,
{
    match t {
        Type1View::Struct(s) => s.contains(k),
        Type1View::SolvedStruct(ts) => mentions_any(ts, k),
        Type1View::Iterator(_, inner) => mentions(*inner, k),
        _ => false,
    }
}

/// Whether one of the types `ts` names `k`.
pub open spec fn mentions_any(ts: Seq<Type1View>, k: Varindex) -> bool
    decreases ts,
{
    if ts.len() == 0 {
        false
    } else {
        mentions_any(ts.drop_last(), k) || mentions(ts.last(), k)
    }
}

/// Whether `ks` is a path of nested members from `t`: `t` names the first,
/// and the type of each names the next.
pub open spec fn is_member_path(m: Seq<(Varindex, Type1View)>, t: Type1View, ks: Seq<Varindex>) -> bool {
    &&& ks.len() > 0 ==> mentions(t, ks[0])
    &&& forall|i: int| 0 <= i < ks.len() ==> (#[trigger] type_of(m, ks[i])) is Some
    &&& forall|i: int|
        0 <= i < ks.len() - 1 ==> mentions(#[trigger] type_of(m, ks[i])->Some_0, ks[i + 1])
}

proof fn lemma_upgrade_members_mono(m: Seq<(Varindex, Type1View)>, s: Seq<Varindex>, f: nat)
    ensures
        upgrade_members(m, s, f) is Some ==> upgrade_members(m, s, f + 1) == upgrade_members(m, s, f),
    decreases f + 1, 0nat, s,
{
    if s.len() > 0 {
        lemma_upgrade_members_mono(m, s.drop_last(), f);
        if let Some(t) = type_of(m, s.last()) {
            lemma_upgrade_mono(m, t, f);
        }
    }
}

proof fn lemma_upgrade_all_mono(m: Seq<(Varindex, Type1View)>, ts: Seq<Type1View>, f: nat)
    ensures
        upgrade_all(m, ts, f) is Some ==> upgrade_all(m, ts, f + 1) == upgrade_all(m, ts, f),
    decreases f, 1nat, ts,
{
    if ts.len() > 0 {
        lemma_upgrade_all_mono(m, ts.drop_last(), f);
        lemma_upgrade_mono(m, ts.last(), f);
    }
}

/// More depth keeps a resolved type.
proof fn lemma_upgrade_mono(m: Seq<(Varindex, Type1View)>, t: Type1View, f: nat)
    ensures
        upgrade(m, t, f) is Some ==> upgrade(m, t, f + 1) == upgrade(m, t, f),
    decreases f, 1nat, t,
{
    match t {
        Type1View::Struct(s) => {
            if s.len() > 0 && f > 0 {
                lemma_upgrade_members_mono(m, s, (f - 1) as nat);
            }
        },
        Type1View::SolvedStruct(ts) => lemma_upgrade_all_mono(m, ts, f),
        Type1View::Iterator(_, inner) => lemma_upgrade_mono(m, *inner, f),
        _ => {},
    }
}

proof fn lemma_members_success(m: Seq<(Varindex, Type1View)>, s: Seq<Varindex>, f: nat, k: Varindex)
    requires
        upgrade_members(m, s, f) is Some,
        s.contains(k),
    ensures
        type_of(m, k) is Some,
        upgrade(m, type_of(m, k)->Some_0, f) is Some,
    decreases s.len(),
{
    if s.last() != k {
        let i = choose|i: int| 0 <= i < s.len() && s[i] == k;
        assert(s.drop_last()[i] == k);
        lemma_members_success(m, s.drop_last(), f, k);
    }
}

proof fn lemma_all_success(m: Seq<(Varindex, Type1View)>, ts: Seq<Type1View>, f: nat, k: Varindex)
    requires
        upgrade_all(m, ts, f) is Some,
        mentions_any(ts, k),
    ensures
        f >= 1,
        type_of(m, k) is Some,
        upgrade(m, type_of(m, k)->Some_0, (f - 1) as nat) is Some,
    decreases ts, 0nat,
{
    if mentions(ts.last(), k) {
        lemma_success_mentions(m, ts.last(), f, k);
    } else {
        lemma_all_success(m, ts.drop_last(), f, k);
    }
}

/// A type that resolves resolves the type of each member it names, one
/// level less deep.
proof fn lemma_success_mentions(m: Seq<(Varindex, Type1View)>, t: Type1View, f: nat, k: Varindex)
    requires
        upgrade(m, t, f) is Some,
        mentions(t, k),
    ensures
        f >= 1,
        type_of(m, k) is Some,
        upgrade(m, type_of(m, k)->Some_0, (f - 1) as nat) is Some,
    decreases t, 1nat,
{
    match t {
        Type1View::Struct(s) => lemma_members_success(m, s, (f - 1) as nat, k),
        Type1View::SolvedStruct(ts) => lemma_all_success(m, ts, f, k),
        Type1View::Iterator(_, inner) => lemma_success_mentions(m, *inner, f, k),
        _ => {},
    }
}

/// A type that resolves at depth `f` has no path of members longer than
/// `f`.
proof fn lemma_path_bound(m: Seq<(Varindex, Type1View)>, t: Type1View, f: nat, ks: Seq<Varindex>)
    requires
        upgrade(m, t, f) is Some,
        is_member_path(m, t, ks),
    ensures
        ks.len() <= f,
    decreases ks.len(),
{
    if ks.len() > 0 {
        lemma_success_mentions(m, t, f, ks[0]);
        let rest = ks.drop_first();
        let t2 = type_of(m, ks[0])->Some_0;
        assert(is_member_path(m, t2, rest)) by {
            if rest.len() > 0 {
                assert(mentions(type_of(m, ks[0])->Some_0, ks[1]));
            }
            assert forall|i: int| 0 <= i < rest.len() implies (#[trigger] type_of(m, rest[i])) is Some by {
                assert(type_of(m, ks[i + 1]) is Some);
            }
            assert forall|i: int| 0 <= i < rest.len() - 1 implies mentions(
                #[trigger] type_of(m, rest[i])->Some_0,
                rest[i + 1],
            ) by {
                assert(mentions(type_of(m, ks[i + 1])->Some_0, ks[i + 2]));
            }
        }
        lemma_path_bound(m, t2, (f - 1) as nat, rest);
    }
}

proof fn lemma_members_differ(m: Seq<(Varindex, Type1View)>, s: Seq<Varindex>, f: nat)
    requires
        upgrade_members(m, s, f) != upgrade_members(m, s, f + 1),
    ensures
        exists|k: Varindex|
            #[trigger] s.contains(k) && type_of(m, k) is Some && upgrade(m, type_of(m, k)->Some_0, f)
                != upgrade(m, type_of(m, k)->Some_0, f + 1),
    decreases s.len(),
{
    if s.len() == 0 {
    } else if upgrade_members(m, s.drop_last(), f) != upgrade_members(m, s.drop_last(), f + 1) {
        lemma_members_differ(m, s.drop_last(), f);
        let k = choose|k: Varindex|
            #[trigger] s.drop_last().contains(k) && type_of(m, k) is Some && upgrade(m, type_of(m, k)->Some_0, f)
                != upgrade(m, type_of(m, k)->Some_0, f + 1);
        let i = choose|i: int| 0 <= i < s.drop_last().len() && s.drop_last()[i] == k;
        assert(s[i] == k);
        assert(s.contains(k));
    } else {
        let k = s.last();
        assert(s[s.len() - 1] == k);
        assert(s.contains(k));
        assert(type_of(m, k) is Some);
        let t = type_of(m, k)->Some_0;
        assert(upgrade(m, t, f) != upgrade(m, t, f + 1));
    }
}

proof fn lemma_all_differ(m: Seq<(Varindex, Type1View)>, ts: Seq<Type1View>, f: nat)
    requires
        upgrade_all(m, ts, f) != upgrade_all(m, ts, f + 1),
    ensures
        exists|i: int| 0 <= i < ts.len() && upgrade(m, #[trigger] ts[i], f) != upgrade(m, ts[i], f + 1),
    decreases ts.len(),
{
    if upgrade_all(m, ts.drop_last(), f) != upgrade_all(m, ts.drop_last(), f + 1) {
        lemma_all_differ(m, ts.drop_last(), f);
        let i = choose|i: int| 0 <= i < ts.drop_last().len() && upgrade(m, #[trigger] ts.drop_last()[i], f) != upgrade(
            m,
            ts.drop_last()[i],
            f + 1,
        );
        assert(ts[i] == ts.drop_last()[i]);
    } else {
        assert(ts[ts.len() - 1] == ts.last());
    }
}

proof fn lemma_mentions_any(ts: Seq<Type1View>, i: int, k: Varindex)
    requires
        0 <= i < ts.len(),
        mentions(ts[i], k),
    ensures
        mentions_any(ts, k),
    decreases ts.len(),
{
    if i < ts.len() - 1 {
        assert(ts.drop_last()[i] == ts[i]);
        lemma_mentions_any(ts.drop_last(), i, k);
    }
}

/// Where one more level of depth changes a resolved type, there is a path
/// of members as long as that depth.
proof fn lemma_deeper_path(m: Seq<(Varindex, Type1View)>, t: Type1View, f: nat)
    requires
        upgrade(m, t, f) != upgrade(m, t, f + 1),
    ensures
        exists|ks: Seq<Varindex>| ks.len() == f + 1 && #[trigger] is_member_path(m, t, ks),
    decreases f, t,
{
    match t {
        Type1View::Struct(s) => {
            if f == 0 {
                let k = s[0];
                assert(s.contains(k));
                lemma_upgrade_mono(m, t, 0);
                lemma_members_success(m, s, 0, k);
                let ks = seq![k];
                assert(is_member_path(m, t, ks));
            } else {
                lemma_members_differ(m, s, (f - 1) as nat);
                let k = choose|k: Varindex|
                    #[trigger] s.contains(k) && type_of(m, k) is Some && upgrade(m, type_of(m, k)->Some_0, (f - 1) as nat)
                        != upgrade(m, type_of(m, k)->Some_0, f);
                let t2 = type_of(m, k)->Some_0;
                lemma_deeper_path(m, t2, (f - 1) as nat);
                let rest = choose|ks: Seq<Varindex>| ks.len() == f && #[trigger] is_member_path(m, t2, ks);
                let ks = seq![k] + rest;
                assert(is_member_path(m, t, ks)) by {
                    assert(ks[0] == k);
                    assert forall|i: int| 0 <= i < ks.len() implies (#[trigger] type_of(m, ks[i])) is Some by {
                        if i > 0 {
                            assert(ks[i] == rest[i - 1]);
                        }
                    }
                    assert forall|i: int| 0 <= i < ks.len() - 1 implies mentions(
                        #[trigger] type_of(m, ks[i])->Some_0,
                        ks[i + 1],
                    ) by {
                        assert(ks[i + 1] == rest[i]);
                        if i > 0 {
                            assert(ks[i] == rest[i - 1]);
                        }
                    }
                }
            }
        },
        Type1View::SolvedStruct(ts) => {
            lemma_all_differ(m, ts, f);
            let i = choose|i: int| 0 <= i < ts.len() && upgrade(m, #[trigger] ts[i], f) != upgrade(m, ts[i], f + 1);
            lemma_deeper_path(m, ts[i], f);
            let ks = choose|ks: Seq<Varindex>| ks.len() == f + 1 && #[trigger] is_member_path(m, ts[i], ks);
            lemma_mentions_any(ts, i, ks[0]);
            assert(is_member_path(m, t, ks));
        },
        Type1View::Iterator(_, inner) => {
            lemma_deeper_path(m, *inner, f);
            let ks = choose|ks: Seq<Varindex>| ks.len() == f + 1 && #[trigger] is_member_path(m, *inner, ks);
            assert(is_member_path(m, t, ks));
        },
        _ => {},
    }
}

/// A path of members that comes back to a member it has passed can be made
/// as long as wanted.
proof fn lemma_pump_path(
    m: Seq<(Varindex, Type1View)>,
    t: Type1View,
    ks: Seq<Varindex>,
    a: int,
    b: int,
    len: nat,
)
    requires
        is_member_path(m, t, ks),
        0 <= a < b < ks.len(),
        ks[a] == ks[b],
    ensures
        exists|ks2: Seq<Varindex>| ks2.len() >= len && #[trigger] is_member_path(m, t, ks2),
    decreases if ks.len() < len {
        len - ks.len()
    } else {
        0
    },
{
    if ks.len() < len {
        let ks2 = ks.take(b) + ks.subrange(a, ks.len() as int);
        assert(ks2.len() == ks.len() + (b - a));
        assert(ks2[b] == ks[a]);
        assert(ks2[a] == ks[a]);
        assert(is_member_path(m, t, ks2)) by {
            if a == 0 {
                assert(ks2[0] == ks[0]);
            } else {
                assert(ks2[0] == ks[0]);
            }
            assert forall|i: int| 0 <= i < ks2.len() implies (#[trigger] type_of(m, ks2[i])) is Some by {
                if i < b {
                    assert(ks2[i] == ks[i]);
                } else {
                    assert(ks2[i] == ks[i - b + a]);
                }
            }
            assert forall|i: int| 0 <= i < ks2.len() - 1 implies mentions(
                #[trigger] type_of(m, ks2[i])->Some_0,
                ks2[i + 1],
            ) by {
                if i < b - 1 {
                    assert(ks2[i] == ks[i]);
                    assert(ks2[i + 1] == ks[i + 1]);
                } else if i == b - 1 {
                    assert(ks2[i] == ks[b - 1]);
                    assert(ks2[i + 1] == ks[a]);
                    assert(mentions(type_of(m, ks[b - 1])->Some_0, ks[b]));
                } else {
                    assert(ks2[i] == ks[i - b + a]);
                    assert(ks2[i + 1] == ks[i + 1 - b + a]);
                }
            }
        }
        lemma_pump_path(m, t, ks2, a, b, len);
    }
}

proof fn lemma_typed_is_key(m: Seq<(Varindex, Type1View)>, k: Varindex)
    requires
        type_of(m, k) is Some,
    ensures
        m.map_values(|e: (Varindex, Type1View)| e.0).to_set().contains(k),
    decreases m.len(),
{
    let keys = m.map_values(|e: (Varindex, Type1View)| e.0);
    if m.last().0 == k {
        assert(keys[m.len() - 1] == k);
    } else {
        lemma_typed_is_key(m.drop_last(), k);
        let d = m.drop_last().map_values(|e: (Varindex, Type1View)| e.0);
        let i = choose|i: int| 0 <= i < d.len() && d[i] == k;
        assert(keys[i] == k);
    }
}

/// A path of members longer than there are entries passes some member
/// twice.
proof fn lemma_path_repeats(m: Seq<(Varindex, Type1View)>, t: Type1View, ks: Seq<Varindex>)
    requires
        is_member_path(m, t, ks),
        ks.len() > m.len(),
    ensures
        exists|a: int, b: int| 0 <= a < b < ks.len() && ks[a] == ks[b],
{
    if !(exists|a: int, b: int| 0 <= a < b < ks.len() && ks[a] == ks[b]) {
        let keys = m.map_values(|e: (Varindex, Type1View)| e.0);
        assert(ks.no_duplicates()) by {
            assert forall|a: int, b: int| 0 <= a < ks.len() && 0 <= b < ks.len() && a != b implies ks[a]
                != ks[b] by {
                if a > b {
                    assert(!(ks[b] == ks[a]));
                }
            }
        }
        ks.unique_seq_to_set();
        assert(ks.to_set().subset_of(keys.to_set())) by {
            assert forall|k: Varindex| ks.to_set().contains(k) implies keys.to_set().contains(k) by {
                let i = choose|i: int| 0 <= i < ks.len() && ks[i] == k;
                assert(type_of(m, ks[i]) is Some);
                lemma_typed_is_key(m, k);
            }
        }
        keys.lemma_cardinality_of_set();
        vstd::seq_lib::seq_to_set_is_finite(keys);
        vstd::set_lib::lemma_len_subset(ks.to_set(), keys.to_set());
    }
}

/// Resolving a type ends: members nest at most as deep as there are
/// entries, or they come back to a member they have passed and nest
/// without end; so more depth than the entries resolves the same.
pub proof fn lemma_upgrade_ends(m: Seq<(Varindex, Type1View)>, t: Type1View, f: nat)
    requires
        f >= m.len(),
    ensures
        upgrade(m, t, f) == upgrade(m, t, m.len()),
    decreases f,
{
    if f > m.len() {
        lemma_upgrade_ends(m, t, (f - 1) as nat);
        if upgrade(m, t, (f - 1) as nat) != upgrade(m, t, f) {
            lemma_upgrade_mono(m, t, (f - 1) as nat);
            lemma_deeper_path(m, t, (f - 1) as nat);
            let ks = choose|ks: Seq<Varindex>| ks.len() == f && #[trigger] is_member_path(m, t, ks);
            lemma_path_repeats(m, t, ks);
            let (a, b) = choose|a: int, b: int| 0 <= a < b < ks.len() && ks[a] == ks[b];
            lemma_pump_path(m, t, ks, a, b, f + 1);
            let ks2 = choose|ks2: Seq<Varindex>| ks2.len() >= f + 1 && #[trigger] is_member_path(m, t, ks2);
            lemma_path_bound(m, t, f, ks2);
        }
    }
}

proof fn lemma_upgrade_members_step(m: Seq<(Varindex, Type1View)>, s: Seq<Varindex>, i: int, fuel: nat)
    requires
        0 <= i < s.len(),
    ensures
        upgrade_members(m, s.take(i + 1), fuel) == match (
            upgrade_members(m, s.take(i), fuel),
            type_of(m, s[i]),
        ) {
            (Some(v), Some(t)) => match upgrade(m, t, fuel) {
                Some(u) => Some(v.push(u)),
                None => None,
            },
            _ => None,
        },
{
    let t = s.take(i + 1);
    assert(t.drop_last() =~= s.take(i));
    assert(t.last() == s[i]);
}

proof fn lemma_upgrade_all_step(m: Seq<(Varindex, Type1View)>, ts: Seq<Type1View>, i: int, fuel: nat)
    requires
        0 <= i < ts.len(),
    ensures
        upgrade_all(m, ts.take(i + 1), fuel) == match (
            upgrade_all(m, ts.take(i), fuel),
            upgrade(m, ts[i], fuel),
        ) {
            (Some(v), Some(u)) => Some(v.push(u)),
            _ => None,
        },
{
    let t = ts.take(i + 1);
    assert(t.drop_last() =~= ts.take(i));
    assert(t.last() == ts[i]);
}

proof fn lemma_upgrade_members_prefix(m: Seq<(Varindex, Type1View)>, s: Seq<Varindex>, n: int, fuel: nat)
    requires
        0 <= n <= s.len(),
        upgrade_members(m, s.take(n), fuel) is None,
    ensures
        upgrade_members(m, s, fuel) is None,
    decreases s.len() - n,
{
    if n == s.len() {
        assert(s.take(n) =~= s);
    } else {
        let t = s.take(n + 1);
        assert(t.drop_last() =~= s.take(n));
        lemma_upgrade_members_prefix(m, s, n + 1, fuel);
    }
}

proof fn lemma_upgrade_all_prefix(m: Seq<(Varindex, Type1View)>, ts: Seq<Type1View>, n: int, fuel: nat)
    requires
        0 <= n <= ts.len(),
        upgrade_all(m, ts.take(n), fuel) is None,
    ensures
        upgrade_all(m, ts, fuel) is None,
    decreases ts.len() - n,
{
    if n == ts.len() {
        assert(ts.take(n) =~= ts);
    } else {
        let t = ts.take(n + 1);
        assert(t.drop_last() =~= ts.take(n));
        lemma_upgrade_all_prefix(m, ts, n + 1, fuel);
    }
}

impl TypeResolver {
    /// The resolved type of `type_1`, at most `fuel` deep.
    fn upgrade_type_1_to_type_2(types: &Vec<(Varindex, MyType1)>, type_1: &MyType1, fuel: usize) -> (r: Option<
        MyType2,
    >)
        ensures
            opt_type2_view(r) == upgrade(entries_view(types@), type1_view(*type_1), fuel as nat),
        decreases fuel, type_1,
    {
        let ghost m = entries_view(types@);
        match type_1 {
            MyType1::Int => Some(MyType2::Int),
            MyType1::Float => Some(MyType2::Float),
            MyType1::Struct(s) => {
                if s.len() == 0 {
                    let empty: Vec<MyType2> = Vec::new();
                    assert(type2_views(empty@) =~= Seq::<Type2View>::empty());
                    return Some(MyType2::Struct(empty));
                }
                if fuel == 0 {
                    return None;
                }
                let mut rs: Vec<MyType2> = Vec::new();
                proof {
                    assert(s@.take(0) =~= Seq::<Varindex>::empty());
                }
                for i in 0..s.len()
                    invariant
                        *type_1 == MyType1::Struct(*s),
                        s@.len() > 0,
                        m == entries_view(types@),
                        fuel > 0,
                        upgrade_members(m, s@.take(i as int), (fuel - 1) as nat) == Some(type2_views(rs@)),
                {
                    proof {
                        lemma_upgrade_members_step(m, s@, i as int, (fuel - 1) as nat);
                    }
                    let member = match find_type(types, s[i]) {
                        None => {
                            proof {
                                lemma_upgrade_members_prefix(m, s@, i + 1, (fuel - 1) as nat);
                            }
                            return None;
                        },
                        Some(j) => &types[j].1,
                    };
                    let u = match Self::upgrade_type_1_to_type_2(types, member, fuel - 1) {
                        None => {
                            proof {
                                lemma_upgrade_members_prefix(m, s@, i + 1, (fuel - 1) as nat);
                            }
                            return None;
                        },
                        Some(u) => u,
                    };
                    let ghost before = rs@;
                    rs.push(u);
                    proof {
                        assert(rs@.drop_last() =~= before);
                    }
                }
                assert(s@.take(s@.len() as int) =~= s@);
                Some(MyType2::Struct(rs))
            },
            MyType1::SolvedStruct(v) => {
                let mut rs: Vec<MyType2> = Vec::new();
                proof {
                    lemma_type1_views(v@);
                    assert(type1_views(v@).take(0) =~= Seq::<Type1View>::empty());
                }
                for i in 0..v.len()
                    invariant
                        *type_1 == MyType1::SolvedStruct(*v),
                        m == entries_view(types@),
                        type1_views(v@).len() == v@.len(),
                        forall|k: int| 0 <= k < v@.len() ==> #[trigger] type1_views(v@)[k] == type1_view(v@[k]),
                        upgrade_all(m, type1_views(v@).take(i as int), fuel as nat) == Some(type2_views(rs@)),
                {
                    proof {
                        lemma_upgrade_all_step(m, type1_views(v@), i as int, fuel as nat);
                        assert(decreases_to!(*type_1 => (*type_1)->SolvedStruct_0));
                        assert(decreases_to!((*type_1)->SolvedStruct_0 => (*type_1)->SolvedStruct_0@));
                        assert(decreases_to!(v@ => v@[i as int]));
                    }
                    let u = match Self::upgrade_type_1_to_type_2(types, &v[i], fuel) {
                        None => {
                            proof {
                                lemma_upgrade_all_prefix(m, type1_views(v@), i + 1, fuel as nat);
                            }
                            return None;
                        },
                        Some(u) => u,
                    };
                    let ghost before = rs@;
                    rs.push(u);
                    proof {
                        assert(rs@.drop_last() =~= before);
                    }
                }
                assert(type1_views(v@).take(v@.len() as int) =~= type1_views(v@));
                Some(MyType2::Struct(rs))
            },
            MyType1::Iterator(name, value_type) => {
                match Self::upgrade_type_1_to_type_2(types, value_type, fuel) {
                    None => None,
                    Some(u) => Some(MyType2::Iterator(name.clone(), Box::new(u))),
                }
            },
            MyType1::Function(name) => Some(MyType2::Function(name.clone())),
        }
    }
}


impl TypeResolver {
    /// Whether the types found, the named locals' types, the arguments'
    /// types and the return type all resolve, each at most as deep as there
    /// are types found.
    pub open spec fn buildable(&self) -> bool {
        let m = self.types();
        let f = m.len();
        &&& forall|i: int| 0 <= i < m.len() ==> (#[trigger] upgrade(m, m[i].1, f)) is Some
        &&& forall|i: int| 0 <= i < self.names().len() ==> (#[trigger] upgrade(m, self.names()[i].1, f)) is Some
        &&& forall|i: int| 0 <= i < self.arguments().len() ==> (#[trigger] upgrade(m, self.arguments()[i], f)) is Some
        &&& (self.return_type() matches Some(t) ==> upgrade(m, t, f) is Some)
    }

    /// Whether `r` holds the resolved types: of each variable, of each named
    /// local and of each argument, in order, and of what the function returns.
    pub open spec fn built(&self, r: TypeMap) -> bool {
        let m = self.types();
        let f = m.len();
        &&& r.lhs_types@.len() == m.len()
        &&& forall|i: int|
            0 <= i < m.len() ==> (#[trigger] r.lhs_types@[i]).0 == m[i].0 && upgrade(m, m[i].1, f) == Some(
                type2_view(r.lhs_types@[i].1),
            )
        &&& r.varname_types@.len() == self.names().len()
        &&& forall|i: int|
            0 <= i < self.names().len() ==> (#[trigger] r.varname_types@[i]).0@ == self.names()[i].0 && upgrade(
                m,
                self.names()[i].1,
                f,
            ) == Some(type2_view(r.varname_types@[i].1))
        &&& r.argument_types@.len() == self.arguments().len()
        &&& forall|i: int|
            0 <= i < self.arguments().len() ==> upgrade(m, self.arguments()[i], f) == Some(
                type2_view(#[trigger] r.argument_types@[i]),
            )
        &&& opt_type2_view(r.return_type) == match self.return_type() {
            Some(t) => upgrade(m, t, f),
            None => None,
        }
    }

    /// The type map, where every type resolves.
    pub fn try_build(self) -> (r: Option<TypeMap>)
        ensures
            r is Some <==> self.buildable(),
            r matches Some(t) ==> self.built(t),
    {
        let ghost m = self.types();
        let types = &self.varindex_to_types;
        let fuel = types.len();
        let mut lhs_types: Vec<(Varindex, MyType2)> = Vec::new();
        for i in 0..types.len()
            invariant
                m == entries_view(types@),
                m == self.types(),
                fuel == m.len(),
                lhs_types@.len() == i,
                forall|k: int|
                    0 <= k < i ==> (#[trigger] lhs_types@[k]).0 == m[k].0 && upgrade(m, m[k].1, fuel as nat)
                        == Some(type2_view(lhs_types@[k].1)),
        {
            match Self::upgrade_type_1_to_type_2(types, &types[i].1, fuel) {
                Some(u) => lhs_types.push((types[i].0, u)),
                None => {
                    assert(upgrade(self.types(), self.types()[i as int].1, self.types().len()) is None);
                    assert(!self.buildable());
                    return None;
                },
            }
        }
        let names = &self.varname_to_types;
        let mut varname_types: Vec<(String, MyType2)> = Vec::new();
        for i in 0..names.len()
            invariant
                m == entries_view(types@),
                m == self.types(),
                fuel == m.len(),
                named_view(names@) == self.names(),
                varname_types@.len() == i,
                forall|k: int|
                    0 <= k < i ==> (#[trigger] varname_types@[k]).0@ == names@[k].0@ && upgrade(
                        m,
                        type1_view(names@[k].1),
                        fuel as nat,
                    ) == Some(type2_view(varname_types@[k].1)),
        {
            match Self::upgrade_type_1_to_type_2(types, &names[i].1, fuel) {
                Some(u) => varname_types.push((names[i].0.clone(), u)),
                None => {
                    assert(upgrade(self.types(), self.names()[i as int].1, self.types().len()) is None);
                    assert(!self.buildable());
                    return None;
                },
            }
        }
        let args = &self.argument_types;
        let mut argument_types: Vec<MyType2> = Vec::new();
        proof {
            lemma_type1_views(args@);
        }
        for i in 0..args.len()
            invariant
                m == entries_view(types@),
                m == self.types(),
                fuel == m.len(),
                type1_views(args@) == self.arguments(),
                self.arguments().len() == args@.len(),
                forall|k: int| 0 <= k < args@.len() ==> #[trigger] type1_views(args@)[k] == type1_view(args@[k]),
                argument_types@.len() == i,
                forall|k: int|
                    0 <= k < i ==> upgrade(m, type1_view(args@[k]), fuel as nat) == Some(
                        type2_view(#[trigger] argument_types@[k]),
                    ),
        {
            match Self::upgrade_type_1_to_type_2(types, &args[i], fuel) {
                Some(u) => argument_types.push(u),
                None => {
                    assert(upgrade(self.types(), self.arguments()[i as int], self.types().len()) is None);
                    assert(!self.buildable());
                    return None;
                },
            }
        }
        let return_type = match &self.return_types {
            None => None,
            Some(t) => match Self::upgrade_type_1_to_type_2(types, t, fuel) {
                Some(u) => Some(u),
                None => {
                    return None;
                },
            },
        };
        let r = TypeMap { lhs_types, varname_types, argument_types, return_type };
        assert(self.built(r));
        assert forall|i: int| 0 <= i < m.len() implies (#[trigger] upgrade(m, m[i].1, m.len())) is Some by {
            assert(r.lhs_types@[i].0 == m[i].0);
        }
        assert forall|i: int| 0 <= i < self.names().len() implies (#[trigger] upgrade(
            m,
            self.names()[i].1,
            m.len(),
        )) is Some by {
            assert(r.varname_types@[i].0@ == self.names()[i].0);
        }
        assert forall|i: int| 0 <= i < self.arguments().len() implies (#[trigger] upgrade(
            m,
            self.arguments()[i],
            m.len(),
        )) is Some by {
            assert(upgrade(m, self.arguments()[i], m.len()) == Some(type2_view(r.argument_types@[i])));
        }
        Some(r)
    }

    /// The type map.
    pub fn build(self) -> (r: TypeMap)
        requires
            self.buildable(),
        ensures
            self.built(r),
    {
        match self.try_build() {
            Some(r) => r,
            None => TypeMap {
                lhs_types: Vec::new(),
                varname_types: Vec::new(),
                argument_types: Vec::new(),
                return_type: None,
            },
        }
    }
}

} // verus!
