//! Translation of Python bytecode into C source code, with the rules that
//! the translation follows stated as contracts.

use vstd::prelude::*;

use crate::bytecode::CodeObject;
use crate::instructions::{arg_names_of, join, params, spec_compile, CCodeGenerator};

pub mod bigint;
pub mod bytecode;
pub mod frontend_c;
pub mod function_jit;
pub mod instructions;
pub mod text;
pub mod transpiler;
pub mod type_resolver;

verus! {

/// Why a function's bytecode could not be translated.
#[derive(Debug, Clone, Copy, PartialEq, Eq, Structural)]
#[non_exhaustive]
pub enum JitCompileError {
    NotSupported,
    BadBytecode,
    UnsupportedConstant,
    TypeMismatch,
}

/// The message that describes an error.
pub open spec fn spec_error_message(e: JitCompileError) -> Seq<char> {
    match e {
        JitCompileError::NotSupported => "function can't be jitted: unsupported instruction"@,
        JitCompileError::BadBytecode => "bad bytecode"@,
        JitCompileError::UnsupportedConstant => "unsupported constant type"@,
        JitCompileError::TypeMismatch => "type mismatch in operation"@,
    }
}

impl JitCompileError {
    /// The message that describes this error.
    pub fn message(&self) -> (r: &'static str)
        ensures
            r@ == spec_error_message(*self),
    {
        match self {
            JitCompileError::NotSupported => "function can't be jitted: unsupported instruction",
            JitCompileError::BadBytecode => "bad bytecode",
            JitCompileError::UnsupportedConstant => "unsupported constant type",
            JitCompileError::TypeMismatch => "type mismatch in operation",
        }
    }
}

/// The value types that generated C code knows about.
#[derive(Debug, Clone, Copy, PartialEq, Eq, Structural)]
#[non_exhaustive]
pub enum JitType {
    Int,
    Float,
    Bool,
}

/// The C spelling of a value type.
pub open spec fn spec_c_type(ty: JitType) -> Seq<char> {
    match ty {
        JitType::Int => "int64_t"@,
        JitType::Float => "double"@,
        JitType::Bool => "int"@,
    }
}

impl JitType {
    /// Returns the C type string for this JIT type
    pub fn to_c_type(&self) -> (r: &'static str)
        ensures
            r@ == spec_c_type(*self),
    {
        match self {
            JitType::Int => "int64_t",
            JitType::Float => "double",
            JitType::Bool => "int",
        }
    }
}

/// Compile Python bytecode to C source code.
///
/// Returns the generated C code as a string that can be compiled with
/// a standard C compiler (gcc, clang, etc.).
///
/// # Arguments
/// * `bytecode` - The Python bytecode to compile
/// * `args` - The types of the function arguments (must have type annotations)
/// * `ret` - The return type of the function (optional)
///
/// # Example output
/// ```c
/// #include <stdint.h>
///
/// int64_t add(int64_t a, int64_t b) {
///     int64_t tmp_0;
///     tmp_0 = a + b;
///     return tmp_0;
/// }
/// ```
pub fn compile(bytecode: &CodeObject, args: &[JitType], ret: Option<JitType>) -> (r: Result<
    String,
    JitCompileError,
>)
    requires
        spec_compile(*bytecode, args@, ret) is Some,
    ensures
        match spec_compile(*bytecode, args@, ret) {
            Some(Ok(code)) => r matches Ok(s) && s@ == code,
            Some(Err(e)) => r == Err::<String, JitCompileError>(e),
            None => false,
        },
{
    let mut generator = CCodeGenerator::new(bytecode, args, ret)?;
    let units = bytecode.instructions.len();
    assert(generator.model().temp_counter + units <= usize::MAX);
    generator.compile(bytecode)?;
    Ok(generator.into_code())
}

/// Compiles like `compile`, and returns `None` exactly where `compile` has
/// no result: more argument types than variables, or an index or the stack
/// out of range.
pub fn compile_checked(bytecode: &CodeObject, args: &[JitType], ret: Option<JitType>) -> (r: Option<
    Result<String, JitCompileError>,
>)
    ensures
        match spec_compile(*bytecode, args@, ret) {
            Some(Ok(code)) => r matches Some(Ok(s)) && s@ == code,
            Some(Err(e)) => r == Some(Err::<String, JitCompileError>(e)),
            None => r is None,
        },
{
    if args.len() > bytecode.varnames.len() {
        return None;
    }
    let mut generator = match CCodeGenerator::new(bytecode, args, ret) {
        Ok(g) => g,
        Err(e) => return Some(Err(e)),
    };
    let units = bytecode.instructions.len();
    assert(generator.model().temp_counter + units <= usize::MAX);
    match generator.try_compile(bytecode) {
        Some(Ok(())) => Some(Ok(generator.into_code())),
        Some(Err(e)) => Some(Err(e)),
        None => None,
    }
}


/// The line that declares a generated function: the C type of its result,
/// or `void`, its name, and each argument's C type and name.
pub open spec fn signature_text(
    ret: Option<JitType>,
    name: Seq<char>,
    args: Seq<JitType>,
    arg_names: Seq<Seq<char>>,
) -> Seq<char> {
    (match ret {
        Some(t) => spec_c_type(t),
        None => "void"@,
    }) + " "@ + name + "("@ + join(params(args, arg_names), ", "@) + ") {\n"@
}

/// The first line of all generated code.
pub open spec fn stdint_include() -> Seq<char> {
    "#include <stdint.h>\n"@
}

/// Generated code starts with the include of `stdint.h`, and holds the
/// line that declares the function under its own name, with one parameter
/// for each argument type: that type in C, then the name of the argument's
/// variable.
pub proof fn lemma_compiled_code_shape(code: CodeObject, args: Seq<JitType>, ret: Option<JitType>, c: Seq<char>)
    requires
        spec_compile(code, args, ret) == Some(Ok::<Seq<char>, JitCompileError>(c)),
    ensures
        stdint_include().len() <= c.len(),
        c.subrange(0, stdint_include().len() as int) == stdint_include(),
        exists|i: int|
            0 <= i && i + signature_text(ret, code.obj_name@, args, arg_names_of(code, args.len())).len()
                <= c.len() && #[trigger] c.subrange(
                i,
                i + signature_text(ret, code.obj_name@, args, arg_names_of(code, args.len())).len(),
            ) == signature_text(ret, code.obj_name@, args, arg_names_of(code, args.len())),
        params(args, arg_names_of(code, args.len())).len() == args.len(),
{
    let sig = signature_text(ret, code.obj_name@, args, arg_names_of(code, args.len()));
    let h = stdint_include();
    let s = crate::instructions::spec_run(
        code,
        args.len(),
        1,
        crate::instructions::target_set(code),
        crate::instructions::initial_model(code, args),
        code.instructions@.len(),
    )->Some_0->Ok_0;
    let before = h + (if s.needs_math {
        "#include <math.h>\n"@
    } else {
        Seq::empty()
    }) + "\n"@ + (if s.needs_ipow {
        crate::instructions::ipow_helper()
    } else {
        Seq::empty()
    });
    assert(c =~= before + sig + s.body + "}\n"@);
    assert(c.subrange(0, h.len() as int) =~= h);
    assert(c.subrange(before.len() as int, (before.len() + sig.len()) as int) =~= sig);
}

} // verus!
