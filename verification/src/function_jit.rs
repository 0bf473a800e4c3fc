//! Reading the value types of a Python function's arguments and result
//! from its annotations, and the exceptions raised where they are missing
//! or unsupported.

use vstd::prelude::*;

use crate::JitType;
use crate::text::string_of;

verus! {

/// The class of an exception raised while preparing a function.
#[derive(Debug, Clone, Copy, PartialEq, Eq, Structural)]
pub enum ExceptionKind {
    JitError,
    TypeError,
}

/// A raised exception: its class and its message.
#[derive(Debug, Clone)]
pub struct PyException {
    pub kind: ExceptionKind,
    pub msg: String,
}

/// The value of one annotation: the type `int`, `float` or `bool` itself,
/// or anything else.
#[derive(Debug, Clone, Copy, PartialEq, Eq, Structural)]
pub enum AnnotationValue {
    IntType,
    FloatType,
    BoolType,
    Other,
}

/// The `__annotations__` attribute of a function.
#[derive(Debug, Clone)]
pub enum Annotations {
    /// The attribute is `None`
    PyNone,
    /// A dict from names to annotation values, each name once
    Dict(Vec<(String, AnnotationValue)>),
    /// Some other object
    NotADict,
}

/// What the annotation checks read of a function.
#[derive(Debug, Clone)]
pub struct PyFunctionInfo {
    /// The code takes `*args`
    pub has_varargs: bool,
    /// The code takes `**kwargs`
    pub has_varkeywords: bool,
    /// The names of the positional arguments
    pub args: Vec<String>,
    /// The names of the keyword-only arguments
    pub kwonlyargs: Vec<String>,
    pub annotations: Annotations,
}

/// An exception as mathematical values.
pub open spec fn exception_model(e: PyException) -> (ExceptionKind, Seq<char>) {
    (e.kind, e.msg@)
}

pub fn new_jit_error(msg: String) -> (e: PyException)
    ensures
        e.kind == ExceptionKind::JitError,
        e.msg@ == msg@,
{
    PyException { kind: ExceptionKind::JitError, msg }
}

/// The value that a dict holds under `name`, if any (the first entry with
/// that name).
pub open spec fn dict_lookup(dict: Seq<(String, AnnotationValue)>, name: Seq<char>) -> Option<
    AnnotationValue,
>
    decreases dict.len(),
{
    if dict.len() == 0 {
        None
    } else if dict[0].0@ == name {
        Some(dict[0].1)
    } else {
        dict_lookup(dict.drop_first(), name)
    }
}

/// The value type that an annotation names.
pub open spec fn annotation_type(v: AnnotationValue) -> Option<JitType> {
    match v {
        AnnotationValue::IntType => Some(JitType::Int),
        AnnotationValue::FloatType => Some(JitType::Float),
        AnnotationValue::BoolType => Some(JitType::Bool),
        AnnotationValue::Other => None,
    }
}

/// The value type of the argument `name`, or the exception that says why
/// it has none.
pub open spec fn spec_get_jit_arg_type(dict: Seq<(String, AnnotationValue)>, name: Seq<char>) -> Result<
    JitType,
    (ExceptionKind, Seq<char>),
> {
    match dict_lookup(dict, name) {
        None => Err((ExceptionKind::JitError, "argument "@ + name + " needs annotation"@)),
        Some(v) => match annotation_type(v) {
            Some(t) => Ok(t),
            None => Err(
                (
                    ExceptionKind::JitError,
                    "Jit requires argument to be either int, float or bool"@,
                ),
            ),
        },
    }
}

/// The value types of the arguments `names`, in order, or the exception of
/// the first one that has none.
pub open spec fn spec_arg_types_of(dict: Seq<(String, AnnotationValue)>, names: Seq<Seq<char>>) -> Result<
    Seq<JitType>,
    (ExceptionKind, Seq<char>),
>
    decreases names.len(),
{
    if names.len() == 0 {
        Ok(Seq::empty())
    } else {
        match spec_arg_types_of(dict, names.drop_last()) {
            Err(e) => Err(e),
            Ok(ts) => match spec_get_jit_arg_type(dict, names.last()) {
                Ok(t) => Ok(ts.push(t)),
                Err(e) => Err(e),
            },
        }
    }
}

/// The names of a function's arguments: positional, then keyword-only.
pub open spec fn all_arg_names(func: PyFunctionInfo) -> Seq<Seq<char>> {
    (func.args@ + func.kwonlyargs@).map_values(|s: String| s@)
}

/// The value types of a function's arguments, or the exception raised
/// where they cannot be had.
pub open spec fn spec_get_jit_arg_types(func: PyFunctionInfo) -> Result<
    Seq<JitType>,
    (ExceptionKind, Seq<char>),
> {
    if func.has_varargs || func.has_varkeywords {
        Err(
            (
                ExceptionKind::JitError,
                "Can't jit functions with variable number of arguments"@,
            ),
        )
    } else if func.args@.len() == 0 && func.kwonlyargs@.len() == 0 {
        Ok(Seq::empty())
    } else {
        match func.annotations {
            Annotations::PyNone => Err(
                (
                    ExceptionKind::JitError,
                    "Jitting function requires arguments to have annotations"@,
                ),
            ),
            Annotations::Dict(d) => spec_arg_types_of(d@, all_arg_names(func)),
            Annotations::NotADict => Err(
                (ExceptionKind::TypeError, "Function annotations aren't a dict"@),
            ),
        }
    }
}

/// The value type of a function's result: `None` where it is not
/// annotated, or annotated with anything but `int`, `float` or `bool`.
pub open spec fn spec_jit_ret_type(func: PyFunctionInfo) -> Result<
    Option<JitType>,
    (ExceptionKind, Seq<char>),
> {
    match func.annotations {
        Annotations::PyNone => Err(
            (
                ExceptionKind::JitError,
                "Jitting function requires return type to have annotations"@,
            ),
        ),
        Annotations::Dict(d) => match dict_lookup(d@, "return"@) {
            Some(v) => Ok(annotation_type(v)),
            None => Ok(None),
        },
        Annotations::NotADict => Err((ExceptionKind::TypeError, "Function annotations aren't a dict"@)),
    }
}

/// The value that `dict` holds under `name`, if any.
fn get_item_opt(dict: &Vec<(String, AnnotationValue)>, name: &str) -> (r: Option<AnnotationValue>)
    ensures
        r == dict_lookup(dict@, name@),
{
    let name_s = string_of(name);
    let mut i: usize = 0;
    assert(dict@.skip(0) =~= dict@);
    while i < dict.len()
        invariant
            i <= dict@.len(),
            name_s@ == name@,
            dict_lookup(dict@, name@) == dict_lookup(dict@.skip(i as int), name@),
        decreases dict@.len() - i,
    {
        assert(dict@.skip(i as int).drop_first() =~= dict@.skip(i + 1));
        if dict[i].0 == name_s {
            return Some(dict[i].1);
        }
        i = i + 1;
    }
    None
}

fn get_jit_arg_type(dict: &Vec<(String, AnnotationValue)>, name: &str) -> (r: Result<
    JitType,
    PyException,
>)
    ensures
        match spec_get_jit_arg_type(dict@, name@) {
            Ok(t) => r == Ok::<JitType, PyException>(t),
            Err(e) => r matches Err(x) && exception_model(x) == e,
        },
{
    proof {
        reveal_strlit("argument ");
        reveal_strlit(" needs annotation");
    }
    if let Some(value) = get_item_opt(dict, name) {
        match value {
            AnnotationValue::IntType => Ok(JitType::Int),
            AnnotationValue::FloatType => Ok(JitType::Float),
            AnnotationValue::BoolType => Ok(JitType::Bool),
            AnnotationValue::Other => Err(
                new_jit_error(string_of("Jit requires argument to be either int, float or bool")),
            ),
        }
    } else {
        let mut msg = string_of("argument ");
        msg.append(name);
        msg.append(" needs annotation");
        assert(msg@ =~= "argument "@ + name@ + " needs annotation"@);
        Err(new_jit_error(msg))
    }
}

/// Appends the value types of `names` to `arg_types`, stopping at the first
/// name that has none.
fn push_arg_types(
    dict: &Vec<(String, AnnotationValue)>,
    names: &Vec<String>,
    arg_types: &mut Vec<JitType>,
    Ghost(before): Ghost<Seq<Seq<char>>>,
) -> (r: Result<(), PyException>)
    requires
        spec_arg_types_of(dict@, before) == Ok::<Seq<JitType>, (ExceptionKind, Seq<char>)>(
            old(arg_types)@,
        ),
    ensures
        match spec_arg_types_of(dict@, before + names@.map_values(|s: String| s@)) {
            Ok(ts) => r is Ok && final(arg_types)@ == ts,
            Err(e) => r matches Err(x) && exception_model(x) == e,
        },
{
    let ghost all = before + names@.map_values(|s: String| s@);
    assert(all.take(before.len() as int) =~= before);
    for i in 0..names.len()
        invariant
            all == before + names@.map_values(|s: String| s@),
            spec_arg_types_of(dict@, all.take((before.len() + i) as int)) == Ok::<
                Seq<JitType>,
                (ExceptionKind, Seq<char>),
            >(arg_types@),
    {
        let ghost prefix = all.take((before.len() + i + 1) as int);
        assert(prefix.drop_last() =~= all.take((before.len() + i) as int));
        assert(prefix.last() == names@[i as int]@);
        match get_jit_arg_type(dict, names[i].as_str()) {
            Ok(t) => arg_types.push(t),
            Err(e) => {
                proof {
                    lemma_arg_types_stop(dict@, all, (before.len() + i + 1) as int);
                }
                return Err(e);
            },
        }
    }
    assert(all.take((before.len() + names@.len()) as int) =~= all);
    Ok(())
}

/// Once a name has no value type, so have all longer lists that start with
/// the same names.
proof fn lemma_arg_types_stop(dict: Seq<(String, AnnotationValue)>, names: Seq<Seq<char>>, k: int)
    requires
        0 <= k <= names.len(),
        spec_arg_types_of(dict, names.take(k)) is Err,
    ensures
        spec_arg_types_of(dict, names) == spec_arg_types_of(dict, names.take(k)),
    decreases names.len() - k,
{
    if k < names.len() {
        let next = names.take(k + 1);
        assert(next.drop_last() =~= names.take(k));
        lemma_arg_types_stop(dict, names, k + 1);
    } else {
        assert(names.take(k) =~= names);
    }
}

/// Each name gets the value type that its own annotation names.
proof fn lemma_arg_types_each(dict: Seq<(String, AnnotationValue)>, names: Seq<Seq<char>>)
    requires
        spec_arg_types_of(dict, names) is Ok,
    ensures
        spec_arg_types_of(dict, names)->Ok_0.len() == names.len(),
        forall|i: int|
            0 <= i < names.len() ==> spec_get_jit_arg_type(dict, #[trigger] names[i]) == Ok::<
                JitType,
                (ExceptionKind, Seq<char>),
            >(spec_arg_types_of(dict, names)->Ok_0[i]),
    decreases names.len(),
{
    if names.len() > 0 {
        lemma_arg_types_each(dict, names.drop_last());
        assert forall|i: int| 0 <= i < names.len() - 1 implies spec_get_jit_arg_type(
            dict,
            #[trigger] names[i],
        ) == Ok::<JitType, (ExceptionKind, Seq<char>)>(spec_arg_types_of(dict, names)->Ok_0[i]) by {
            assert(names.drop_last()[i] == names[i]);
        }
    }
}

/// A function whose argument types can be had gets one for each argument,
/// positional and keyword-only, in order: the type that the argument's
/// annotation names. One with a variable number of arguments gets none.
pub proof fn lemma_arg_types_follow_annotations(func: PyFunctionInfo)
    ensures
        (func.has_varargs || func.has_varkeywords) ==> spec_get_jit_arg_types(func) is Err,
        spec_get_jit_arg_types(func) matches Ok(ts) ==> {
            &&& ts.len() == func.args@.len() + func.kwonlyargs@.len()
            &&& forall|i: int|
                0 <= i < ts.len() ==> (func.annotations matches Annotations::Dict(d) && dict_lookup(
                    d@,
                    #[trigger] all_arg_names(func)[i],
                ) matches Some(v) && annotation_type(v) == Some(ts[i]))
        },
{
    if let Ok(ts) = spec_get_jit_arg_types(func) {
        if func.args@.len() == 0 && func.kwonlyargs@.len() == 0 {
        } else {
            let d = func.annotations->Dict_0;
            lemma_arg_types_each(d@, all_arg_names(func));
            assert forall|i: int| 0 <= i < ts.len() implies (func.annotations matches Annotations::Dict(
                d,
            ) && dict_lookup(d@, #[trigger] all_arg_names(func)[i]) matches Some(v) && annotation_type(v)
                == Some(ts[i])) by {
                assert(spec_get_jit_arg_type(d@, all_arg_names(func)[i]) == Ok::<
                    JitType,
                    (ExceptionKind, Seq<char>),
                >(ts[i]));
            }
        }
    }
}

pub fn get_jit_arg_types(func: &PyFunctionInfo) -> (r: Result<Vec<JitType>, PyException>)
    ensures
        match spec_get_jit_arg_types(*func) {
            Ok(ts) => r matches Ok(v) && v@ == ts,
            Err(e) => r matches Err(x) && exception_model(x) == e,
        },
{
    if func.has_varargs || func.has_varkeywords {
        return Err(new_jit_error(string_of("Can't jit functions with variable number of arguments")));
    }
    if func.args.len() == 0 && func.kwonlyargs.len() == 0 {
        return Ok(Vec::new());
    }
    match &func.annotations {
        Annotations::PyNone => Err(
            new_jit_error(string_of("Jitting function requires arguments to have annotations")),
        ),
        Annotations::Dict(dict) => {
            let mut arg_types: Vec<JitType> = Vec::new();
            let ghost empty: Seq<Seq<char>> = Seq::empty();
            let ghost args = empty + func.args@.map_values(|s: String| s@);
            let ghost all = args + func.kwonlyargs@.map_values(|s: String| s@);
            assert(all =~= all_arg_names(*func));
            assert(all.take(args.len() as int) =~= args);
            if let Err(e) = push_arg_types(dict, &func.args, &mut arg_types, Ghost(empty)) {
                proof {
                    lemma_arg_types_stop(dict@, all, args.len() as int);
                }
                return Err(e);
            }
            push_arg_types(dict, &func.kwonlyargs, &mut arg_types, Ghost(args))?;
            Ok(arg_types)
        },
        Annotations::NotADict => Err(
            PyException {
                kind: ExceptionKind::TypeError,
                msg: string_of("Function annotations aren't a dict"),
            },
        ),
    }
}

pub fn jit_ret_type(func: &PyFunctionInfo) -> (r: Result<Option<JitType>, PyException>)
    ensures
        match spec_jit_ret_type(*func) {
            Ok(t) => r == Ok::<Option<JitType>, PyException>(t),
            Err(e) => r matches Err(x) && exception_model(x) == e,
        },
{
    match &func.annotations {
        Annotations::PyNone => Err(
            new_jit_error(string_of("Jitting function requires return type to have annotations")),
        ),
        Annotations::Dict(dict) => {
            if get_item_opt(dict, "return").is_some() {
                match get_jit_arg_type(dict, "return") {
                    Ok(t) => Ok(Some(t)),
                    Err(_) => Ok(None),
                }
            } else {
                Ok(None)
            }
        },
        Annotations::NotADict => Err(
            PyException {
                kind: ExceptionKind::TypeError,
                msg: string_of("Function annotations aren't a dict"),
            },
        ),
    }
}

} // verus!
