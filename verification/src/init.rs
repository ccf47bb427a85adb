//! Starter code, problem comment blocks and solution checks for the
//! languages a problem can be solved in.
use crate::text::{
    chars_of, contains, contains_seq, is_blank, join, join_strings, lines, split_lines,
    str_eq, strip_prefix, trim, trim_ws, views,
};
use crate::trpc::ProblemParameter;
use vstd::prelude::*;

verus! {

/// A flag field of a parameter is set when it holds `"true"`.
pub open spec fn flag_set(flag: Option<String>) -> bool {
    flag matches Some(s) && s@ == "true"@
}

pub open spec fn is_pointer(p: ProblemParameter) -> bool {
    flag_set(p.pointer)
}

pub open spec fn is_const(p: ProblemParameter) -> bool {
    flag_set(p.const_)
}

/// The placeholder type that stands for the problem's data type.
pub open spec fn is_var_type(ty: Seq<char>) -> bool {
    ty == "[VAR]"@
}

/// The C++ type of a data type.
pub open spec fn cpp_type(dtype: Seq<char>) -> Seq<char> {
    if dtype == "float32"@ {
        "float"@
    } else if dtype == "float16"@ {
        "double"@
    } else if dtype == "int32"@ {
        "int"@
    } else if dtype == "int16"@ {
        "short"@
    } else {
        "float"@
    }
}

/// The Python annotation of a data type.
pub open spec fn python_type(dtype: Seq<char>) -> Seq<char> {
    if dtype == "float32"@ {
        "float"@
    } else if dtype == "float16"@ {
        "float16"@
    } else if dtype == "int32"@ {
        "int"@
    } else if dtype == "int16"@ {
        "int16"@
    } else {
        "float"@
    }
}

/// The Python annotation of a scalar parameter type.
pub open spec fn python_scalar_type(ty: Seq<char>) -> Seq<char> {
    if ty == "int"@ {
        "int"@
    } else if ty == "float"@ {
        "float"@
    } else if ty == "size_t"@ {
        "int"@
    } else {
        "int"@
    }
}

/// The Mojo type of a C type; other types keep their name.
pub open spec fn mojo_type(ty: Seq<char>) -> Seq<char> {
    if ty == "float"@ {
        "Float32"@
    } else if ty == "double"@ {
        "Float64"@
    } else if ty == "float16"@ {
        "Float16"@
    } else if ty == "float8"@ {
        "Float8_e4m3fn"@
    } else if ty == "float4"@ {
        "UInt8"@
    } else if ty == "int"@ {
        "Int32"@
    } else if ty == "uint8_t"@ {
        "UInt8"@
    } else if ty == "size_t"@ {
        "Int64"@
    } else if ty == "uint32_t"@ {
        "UInt32"@
    } else if ty == "uint64_t"@ {
        "UInt64"@
    } else {
        ty
    }
}

/// The Mojo `DType` constant of a C type; other types get `DType.float32`.
pub open spec fn mojo_dtype_const(ty: Seq<char>) -> Seq<char> {
    if ty == "float"@ {
        "DType.float32"@
    } else if ty == "double"@ {
        "DType.float64"@
    } else if ty == "float16"@ {
        "DType.float16"@
    } else if ty == "float8"@ {
        "DType.float8_e4m3fn"@
    } else if ty == "float4"@ {
        "DType.uint8"@
    } else if ty == "int"@ {
        "DType.int32"@
    } else if ty == "uint8_t"@ {
        "DType.uint8"@
    } else if ty == "size_t"@ {
        "DType.int64"@
    } else if ty == "uint32_t"@ {
        "DType.uint32"@
    } else if ty == "uint64_t"@ {
        "DType.uint64"@
    } else {
        "DType.float32"@
    }
}

/// The pointer parameters, in order.
pub open spec fn pointer_params(ps: Seq<ProblemParameter>) -> Seq<ProblemParameter>
    decreases ps.len(),
{
    if ps.len() == 0 {
        ps
    } else {
        let rest = pointer_params(ps.drop_last());
        if is_pointer(ps.last()) {
            rest.push(ps.last())
        } else {
            rest
        }
    }
}

pub open spec fn pointer_names(ps: Seq<ProblemParameter>) -> Seq<Seq<char>> {
    pointer_params(ps).map_values(|p: ProblemParameter| p.name@)
}

/// The types of the pointer parameters, each once, in order of first use.
pub open spec fn unique_pointer_types(ps: Seq<ProblemParameter>) -> Seq<Seq<char>> {
    pointer_params(ps).map_values(|p: ProblemParameter| p.ty@).remove_duplicates(seq![])
}

/// A CUDA parameter declaration: the type (the data type's C++ type for the
/// placeholder), `const ` before it when const, `*` after it when a pointer,
/// then a space and the name.
pub open spec fn cuda_param(p: ProblemParameter, dtype: Seq<char>) -> Seq<char> {
    let base = if is_var_type(p.ty@) { cpp_type(dtype) } else { p.ty@ };
    let with_const = if is_const(p) { "const "@ + base } else { base };
    let with_pointer = if is_pointer(p) { with_const + "*"@ } else { with_const };
    with_pointer + " "@ + p.name@
}

/// A Python parameter: a pointer by its name alone, others annotated.
pub open spec fn python_param(p: ProblemParameter, dtype: Seq<char>) -> Seq<char> {
    if is_pointer(p) {
        p.name@
    } else if is_var_type(p.ty@) {
        p.name@ + ": "@ + python_type(dtype)
    } else {
        p.name@ + ": "@ + python_scalar_type(p.ty@)
    }
}

/// A Mojo parameter: a pointer as its address `<name>_addr: Int`, others typed.
pub open spec fn mojo_param(p: ProblemParameter, dtype: Seq<char>) -> Seq<char> {
    if is_pointer(p) {
        p.name@ + "_addr: Int"@
    } else if is_var_type(p.ty@) {
        p.name@ + ": "@ + mojo_type(dtype)
    } else {
        p.name@ + ": "@ + mojo_type(p.ty@)
    }
}

pub open spec fn cuda_params(ps: Seq<ProblemParameter>, dtype: Seq<char>) -> Seq<Seq<char>> {
    ps.map_values(|p: ProblemParameter| cuda_param(p, dtype))
}

pub open spec fn python_params(ps: Seq<ProblemParameter>, dtype: Seq<char>) -> Seq<Seq<char>> {
    ps.map_values(|p: ProblemParameter| python_param(p, dtype))
}

pub open spec fn mojo_params(ps: Seq<ProblemParameter>, dtype: Seq<char>) -> Seq<Seq<char>> {
    ps.map_values(|p: ProblemParameter| mojo_param(p, dtype))
}

/// The local name of a pointer in the Mojo wrapper: its name without a `d_` prefix.
pub open spec fn mojo_var_name(name: Seq<char>) -> Seq<char> {
    if "d_"@.is_prefix_of(name) {
        name.skip(2)
    } else {
        name
    }
}

/// The Mojo constant line that names the `DType` of a pointer type.
pub open spec fn mojo_dtype_line(ty: Seq<char>) -> Seq<char> {
    "comptime dtype_"@ + ty + " = "@ + mojo_dtype_const(ty)
}

/// The Mojo line that rebuilds a pointer from its address.
pub open spec fn mojo_setup_line(p: ProblemParameter) -> Seq<char> {
    "    "@ + mojo_var_name(p.name@) + " = UnsafePointer[Scalar[dtype_"@ + p.ty@
        + "], MutExternalOrigin](unsafe_from_address="@ + p.name@ + "_addr)"@
}

/// Lines joined by newlines, with a final newline when there is any text.
pub open spec fn block(lines: Seq<Seq<char>>) -> Seq<char> {
    let joined = join(lines, "\n"@);
    if joined.len() == 0 {
        joined
    } else {
        joined + "\n"@
    }
}

pub open spec fn cuda_starter(ps: Seq<ProblemParameter>, dtype: Seq<char>) -> Seq<char> {
    "#include <cuda_runtime.h>\n\n// Note: "@ + join(pointer_names(ps), ", "@)
        + " are device pointer parameters\nextern \"C\" void solution("@ + join(
        cuda_params(ps, dtype),
        ", "@,
    ) + ") {    \n}"@
}

/// A starter for a Python-hosted kernel language: its imports, a blank line,
/// the note on the tensor parameters and an empty `solution` function.
pub open spec fn python_hosted_starter(imports: Seq<char>, ps: Seq<ProblemParameter>, dtype: Seq<char>) -> Seq<char> {
    imports + "\n\n# Note: "@ + join(pointer_names(ps), ", "@) + " are device tensor parameters\ndef solution("@
        + join(python_params(ps, dtype), ", "@) + "):\n    "@
}

/// The imports of a Triton starter.
pub const TRITON_IMPORTS: &'static str = "import triton\nimport triton.language as tl";

/// The imports of a CuTe DSL starter.
pub const CUTE_IMPORTS: &'static str = "import cutlass\nimport cutlass.cute as cute";

/// The imports of a cuTile Python starter.
pub const CUTILE_IMPORTS: &'static str = "import cuda.tile as ct";

pub open spec fn python_starter(ps: Seq<ProblemParameter>, dtype: Seq<char>) -> Seq<char> {
    python_hosted_starter(TRITON_IMPORTS@, ps, dtype)
}

pub open spec fn cute_starter(ps: Seq<ProblemParameter>, dtype: Seq<char>) -> Seq<char> {
    python_hosted_starter(CUTE_IMPORTS@, ps, dtype)
}

pub open spec fn cutile_starter(ps: Seq<ProblemParameter>, dtype: Seq<char>) -> Seq<char> {
    python_hosted_starter(CUTILE_IMPORTS@, ps, dtype)
}

/// What the Mojo starter says the pointers point to.
pub open spec fn mojo_pointer_comment(ps: Seq<ProblemParameter>) -> Seq<char> {
    let types = unique_pointer_types(ps);
    if types.len() == 1 {
        types[0] + " arrays"@
    } else {
        "mixed-dtype arrays"@
    }
}

pub open spec fn mojo_starter(ps: Seq<ProblemParameter>, dtype: Seq<char>) -> Seq<char> {
    "from gpu import thread_idx, block_idx, block_dim\nfrom gpu.host import DeviceContext\nfrom memory import UnsafePointer \n\n"@
        + block(unique_pointer_types(ps).map_values(|t: Seq<char>| mojo_dtype_line(t)))
        + "\n# Note: "@ + join(pointer_names(ps), ", "@) + " are device pointers to "@
        + mojo_pointer_comment(ps) + "\n@export\ndef solution("@ + join(
        mojo_params(ps, dtype),
        ", "@,
    ) + ") raises:\n"@ + block(
        pointer_params(ps).map_values(|p: ProblemParameter| mojo_setup_line(p)),
    ) + "    "@
}

/// The starter code of a language: CUDA, Python (Triton), Mojo, CuTe DSL
/// (`cute`) or cuTile Python (`cutile`); empty for any other language.
pub open spec fn starter_code(ps: Seq<ProblemParameter>, language: Seq<char>, dtype: Seq<char>) -> Seq<char> {
    if language == "cuda"@ {
        cuda_starter(ps, dtype)
    } else if language == "python"@ {
        python_starter(ps, dtype)
    } else if language == "mojo"@ {
        mojo_starter(ps, dtype)
    } else if language == "cute"@ {
        cute_starter(ps, dtype)
    } else if language == "cutile"@ {
        cutile_starter(ps, dtype)
    } else {
        Seq::empty()
    }
}

/// The languages that have a starter template.
pub open spec fn has_starter(language: Seq<char>) -> bool {
    ||| language == "cuda"@
    ||| language == "python"@
    ||| language == "mojo"@
    ||| language == "cute"@
    ||| language == "cutile"@
}

/// The items of a starter's `solution(...)` parameter list, one per parameter.
pub open spec fn solution_params(ps: Seq<ProblemParameter>, language: Seq<char>, dtype: Seq<char>) -> Seq<Seq<char>> {
    if language == "cuda"@ {
        cuda_params(ps, dtype)
    } else if language == "mojo"@ {
        mojo_params(ps, dtype)
    } else {
        python_params(ps, dtype)
    }
}

/// The imports of a Python-hosted starter language.
pub open spec fn hosted_imports(language: Seq<char>) -> Seq<char> {
    if language == "cute"@ {
        CUTE_IMPORTS@
    } else if language == "cutile"@ {
        CUTILE_IMPORTS@
    } else {
        TRITON_IMPORTS@
    }
}

/// What a starter holds before its note on the pointer parameters.
pub open spec fn starter_head(ps: Seq<ProblemParameter>, language: Seq<char>) -> Seq<char> {
    if language == "cuda"@ {
        "#include <cuda_runtime.h>\n\n// "@
    } else if language == "mojo"@ {
        "from gpu import thread_idx, block_idx, block_dim\nfrom gpu.host import DeviceContext\nfrom memory import UnsafePointer \n\n"@
            + block(unique_pointer_types(ps).map_values(|t: Seq<char>| mojo_dtype_line(t))) + "\n# "@
    } else {
        hosted_imports(language) + "\n\n# "@
    }
}

/// What a starter holds between ` are device ` and `solution(`.
pub open spec fn starter_between(ps: Seq<ProblemParameter>, language: Seq<char>) -> Seq<char> {
    if language == "cuda"@ {
        "pointer parameters\nextern \"C\" void "@
    } else if language == "mojo"@ {
        "pointers to "@ + mojo_pointer_comment(ps) + "\n@export\ndef "@
    } else {
        "tensor parameters\ndef "@
    }
}

/// What a starter holds after the `)` that closes the parameter list.
pub open spec fn starter_tail(ps: Seq<ProblemParameter>, language: Seq<char>) -> Seq<char> {
    if language == "cuda"@ {
        " {    \n}"@
    } else if language == "mojo"@ {
        " raises:\n"@ + block(pointer_params(ps).map_values(|p: ProblemParameter| mojo_setup_line(p)))
            + "    "@
    } else {
        ":\n    "@
    }
}

proof fn lemma_param_names_the_parameter(p: ProblemParameter, language: Seq<char>, dtype: Seq<char>)
    ensures
        contains_seq(
            if language == "cuda"@ {
                cuda_param(p, dtype)
            } else if language == "mojo"@ {
                mojo_param(p, dtype)
            } else {
                python_param(p, dtype)
            },
            p.name@,
        ),
{
    let item = if language == "cuda"@ {
        cuda_param(p, dtype)
    } else if language == "mojo"@ {
        mojo_param(p, dtype)
    } else {
        python_param(p, dtype)
    };
    let n = p.name@;
    if language == "cuda"@ {
        let k = item.len() - n.len();
        assert(item.subrange(k, item.len() as int) =~= n);
        assert(crate::text::occurs_at(item, n, k));
    } else {
        assert(item.subrange(0, n.len() as int) =~= n);
        assert(crate::text::occurs_at(item, n, 0));
    }
}

/// Every starter notes its pointer parameters by name, joined by `, `, and
/// declares `solution` with one parameter per problem parameter, in order,
/// each naming that parameter.
pub proof fn lemma_starter_lists_parameters(ps: Seq<ProblemParameter>, language: Seq<char>, dtype: Seq<char>)
    requires
        has_starter(language),
    ensures
        starter_code(ps, language, dtype) == starter_head(ps, language) + "Note: "@ + join(
            pointer_names(ps),
            ", "@,
        ) + " are device "@ + starter_between(ps, language) + "solution("@ + join(
            solution_params(ps, language, dtype),
            ", "@,
        ) + ")"@ + starter_tail(ps, language),
        solution_params(ps, language, dtype).len() == ps.len(),
        forall|i: int|
            0 <= i < ps.len() ==> contains_seq(
                #[trigger] solution_params(ps, language, dtype)[i],
                ps[i].name@,
            ),
{
    reveal_strlit("cuda");
    reveal_strlit("mojo");
    reveal_strlit("python");
    reveal_strlit("cute");
    reveal_strlit("cutile");
    assert("mojo"@[0] != "cuda"@[0] && "python"@[0] != "cuda"@[0] && "python"@[0] != "mojo"@[0]);
    assert("cute"@[2] != "cuda"@[2] && "cute"@[0] != "python"@[0] && "cute"@[0] != "mojo"@[0]);
    assert("cutile"@[2] != "cuda"@[2] && "cutile"@[0] != "python"@[0] && "cutile"@[0] != "mojo"@[0]);
    assert("cutile"@.len() != "cute"@.len());
    reveal_strlit("Note: ");
    reveal_strlit(" are device ");
    reveal_strlit("solution(");
    reveal_strlit(")");
    let names = join(pointer_names(ps), ", "@);
    let params = join(solution_params(ps, language, dtype), ", "@);
    if language == "cuda"@ {
        reveal_strlit("#include <cuda_runtime.h>\n\n// Note: ");
        reveal_strlit("#include <cuda_runtime.h>\n\n// ");
        reveal_strlit(" are device pointer parameters\nextern \"C\" void solution(");
        reveal_strlit("pointer parameters\nextern \"C\" void ");
        reveal_strlit(") {    \n}");
        reveal_strlit(" {    \n}");
        assert(starter_code(ps, language, dtype) =~= starter_head(ps, language) + "Note: "@ + names
            + " are device "@ + starter_between(ps, language) + "solution("@ + params + ")"@
            + starter_tail(ps, language));
    } else if language == "mojo"@ {
        reveal_strlit("\n# Note: ");
        reveal_strlit("\n# ");
        reveal_strlit(" are device pointers to ");
        reveal_strlit("pointers to ");
        reveal_strlit("\n@export\ndef solution(");
        reveal_strlit("\n@export\ndef ");
        reveal_strlit(") raises:\n");
        reveal_strlit(" raises:\n");
        assert("\n# Note: "@ =~= "\n# "@ + "Note: "@);
        assert(" are device pointers to "@ =~= " are device "@ + "pointers to "@);
        assert("\n@export\ndef solution("@ =~= "\n@export\ndef "@ + "solution("@);
        assert(") raises:\n"@ =~= ")"@ + " raises:\n"@);
        assert(starter_code(ps, language, dtype) == mojo_starter(ps, dtype));
        assert(starter_code(ps, language, dtype) =~= starter_head(ps, language) + "Note: "@ + names
            + " are device "@ + starter_between(ps, language) + "solution("@ + params + ")"@
            + starter_tail(ps, language));
    } else {
        reveal_strlit("\n\n# Note: ");
        reveal_strlit("\n\n# ");
        reveal_strlit(" are device tensor parameters\ndef solution(");
        reveal_strlit("tensor parameters\ndef ");
        reveal_strlit("):\n    ");
        reveal_strlit(":\n    ");
        assert("\n\n# Note: "@ =~= "\n\n# "@ + "Note: "@);
        assert(" are device tensor parameters\ndef solution("@ =~= " are device "@ + "tensor parameters\ndef "@
            + "solution("@);
        assert("):\n    "@ =~= ")"@ + ":\n    "@);
        assert(starter_code(ps, language, dtype) == python_hosted_starter(hosted_imports(language), ps, dtype));
        assert(starter_code(ps, language, dtype) =~= starter_head(ps, language) + "Note: "@ + names
            + " are device "@ + starter_between(ps, language) + "solution("@ + params + ")"@
            + starter_tail(ps, language));
    }
    assert forall|i: int| 0 <= i < ps.len() implies contains_seq(
        #[trigger] solution_params(ps, language, dtype)[i],
        ps[i].name@,
    ) by {
        lemma_param_names_the_parameter(ps[i], language, dtype);
    }
}

/// How a Python-hosted starter (Triton, CuTe DSL, cuTile) declares a
/// parameter: a pointer by its name alone; a scalar of type `float` as
/// `name: float`, of type `int` or `size_t` as `name: int`; the data-type
/// placeholder by the data type (`float32` as `float`, `float16` as
/// `float16`, `int32` as `int`, `int16` as `int16`).
pub proof fn lemma_python_hosted_parameter_annotations(
    ps: Seq<ProblemParameter>,
    language: Seq<char>,
    dtype: Seq<char>,
    i: int,
)
    requires
        language == "python"@ || language == "cute"@ || language == "cutile"@,
        0 <= i < ps.len(),
    ensures
        ({
            let p = ps[i];
            let item = solution_params(ps, language, dtype)[i];
            &&& is_pointer(p) ==> item == p.name@
            &&& !is_pointer(p) && p.ty@ == "float"@ ==> item == p.name@ + ": float"@
            &&& !is_pointer(p) && p.ty@ == "int"@ ==> item == p.name@ + ": int"@
            &&& !is_pointer(p) && p.ty@ == "size_t"@ ==> item == p.name@ + ": int"@
            &&& !is_pointer(p) && p.ty@ == "[VAR]"@ && dtype == "float32"@ ==> item == p.name@
                + ": float"@
            &&& !is_pointer(p) && p.ty@ == "[VAR]"@ && dtype == "float16"@ ==> item == p.name@
                + ": float16"@
            &&& !is_pointer(p) && p.ty@ == "[VAR]"@ && dtype == "int32"@ ==> item == p.name@
                + ": int"@
            &&& !is_pointer(p) && p.ty@ == "[VAR]"@ && dtype == "int16"@ ==> item == p.name@
                + ": int16"@
        }),
{
    reveal_strlit("python");
    reveal_strlit("cute");
    reveal_strlit("cutile");
    reveal_strlit("cuda");
    reveal_strlit("mojo");
    assert("python"@[0] != "cuda"@[0] && "python"@[0] != "mojo"@[0]);
    assert("cute"@[2] != "cuda"@[2] && "cute"@[0] != "mojo"@[0]);
    assert("cutile"@[2] != "cuda"@[2] && "cutile"@[0] != "mojo"@[0]);
    reveal_strlit("float");
    reveal_strlit("int");
    reveal_strlit("size_t");
    reveal_strlit("[VAR]");
    reveal_strlit("float32");
    reveal_strlit("float16");
    reveal_strlit("int32");
    reveal_strlit("int16");
    assert("float"@[0] != "[VAR]"@[0] && "int"@[0] != "[VAR]"@[0] && "size_t"@[0] != "[VAR]"@[0]);
    assert("int"@.len() != "float"@.len() && "size_t"@.len() != "float"@.len() && "size_t"@.len()
        != "int"@.len());
    assert("float16"@[5] != "float32"@[5] && "int32"@[0] != "float32"@[0] && "int32"@[0]
        != "float16"@[0] && "int16"@[0] != "float32"@[0] && "int16"@[0] != "float16"@[0] && "int16"@[3]
        != "int32"@[3]);
    reveal_strlit(": ");
    reveal_strlit(": float");
    reveal_strlit(": int");
    reveal_strlit(": float16");
    reveal_strlit(": int16");
    let n = ps[i].name@;
    assert(n + ": "@ + "float"@ =~= n + ": float"@);
    assert(n + ": "@ + "int"@ =~= n + ": int"@);
    assert(n + ": "@ + "float16"@ =~= n + ": float16"@);
    assert(n + ": "@ + "int16"@ =~= n + ": int16"@);
    assert(solution_params(ps, language, dtype) == python_params(ps, dtype));
    assert(solution_params(ps, language, dtype)[i] == python_param(ps[i], dtype));
}

fn flag_is_set(flag: &Option<String>) -> (res: bool)
    ensures
        res == flag_set(*flag),
{
    match flag {
        Some(s) => str_eq(s.as_str(), "true"),
        None => false,
    }
}

fn cpp_type_of(dtype: &str) -> (res: &'static str)
    ensures
        res@ == cpp_type(dtype@),
{
    if str_eq(dtype, "float32") {
        "float"
    } else if str_eq(dtype, "float16") {
        "double"
    } else if str_eq(dtype, "int32") {
        "int"
    } else if str_eq(dtype, "int16") {
        "short"
    } else {
        "float"
    }
}

fn python_type_of(dtype: &str) -> (res: &'static str)
    ensures
        res@ == python_type(dtype@),
{
    if str_eq(dtype, "float32") {
        "float"
    } else if str_eq(dtype, "float16") {
        "float16"
    } else if str_eq(dtype, "int32") {
        "int"
    } else if str_eq(dtype, "int16") {
        "int16"
    } else {
        "float"
    }
}

fn python_scalar_type_of(ty: &str) -> (res: &'static str)
    ensures
        res@ == python_scalar_type(ty@),
{
    if str_eq(ty, "int") {
        "int"
    } else if str_eq(ty, "float") {
        "float"
    } else if str_eq(ty, "size_t") {
        "int"
    } else {
        "int"
    }
}

fn mojo_type_of(ty: &str) -> (res: String)
    ensures
        res@ == mojo_type(ty@),
{
    if str_eq(ty, "float") {
        String::from_str("Float32")
    } else if str_eq(ty, "double") {
        String::from_str("Float64")
    } else if str_eq(ty, "float16") {
        String::from_str("Float16")
    } else if str_eq(ty, "float8") {
        String::from_str("Float8_e4m3fn")
    } else if str_eq(ty, "float4") {
        String::from_str("UInt8")
    } else if str_eq(ty, "int") {
        String::from_str("Int32")
    } else if str_eq(ty, "uint8_t") {
        String::from_str("UInt8")
    } else if str_eq(ty, "size_t") {
        String::from_str("Int64")
    } else if str_eq(ty, "uint32_t") {
        String::from_str("UInt32")
    } else if str_eq(ty, "uint64_t") {
        String::from_str("UInt64")
    } else {
        String::from_str(ty)
    }
}

fn mojo_dtype_const_of(ty: &str) -> (res: &'static str)
    ensures
        res@ == mojo_dtype_const(ty@),
{
    if str_eq(ty, "float") {
        "DType.float32"
    } else if str_eq(ty, "double") {
        "DType.float64"
    } else if str_eq(ty, "float16") {
        "DType.float16"
    } else if str_eq(ty, "float8") {
        "DType.float8_e4m3fn"
    } else if str_eq(ty, "float4") {
        "DType.uint8"
    } else if str_eq(ty, "int") {
        "DType.int32"
    } else if str_eq(ty, "uint8_t") {
        "DType.uint8"
    } else if str_eq(ty, "size_t") {
        "DType.int64"
    } else if str_eq(ty, "uint32_t") {
        "DType.uint32"
    } else if str_eq(ty, "uint64_t") {
        "DType.uint64"
    } else {
        "DType.float32"
    }
}

fn render_cuda_param(p: &ProblemParameter, dtype: &str) -> (res: String)
    ensures
        res@ == cuda_param(*p, dtype@),
{
    let mut ty = if str_eq(p.ty.as_str(), "[VAR]") {
        String::from_str(cpp_type_of(dtype))
    } else {
        p.ty.clone()
    };
    if flag_is_set(&p.const_) {
        let mut with_const = String::from_str("const ");
        with_const.append(ty.as_str());
        ty = with_const;
    }
    if flag_is_set(&p.pointer) {
        ty.append("*");
    }
    ty.append(" ");
    ty.append(p.name.as_str());
    ty
}

fn render_python_param(p: &ProblemParameter, dtype: &str) -> (res: String)
    ensures
        res@ == python_param(*p, dtype@),
{
    if flag_is_set(&p.pointer) {
        p.name.clone()
    } else if str_eq(p.ty.as_str(), "[VAR]") {
        let mut res = p.name.clone();
        res.append(": ");
        res.append(python_type_of(dtype));
        res
    } else {
        let mut res = p.name.clone();
        res.append(": ");
        res.append(python_scalar_type_of(p.ty.as_str()));
        res
    }
}

fn render_mojo_param(p: &ProblemParameter, dtype: &str) -> (res: String)
    ensures
        res@ == mojo_param(*p, dtype@),
{
    if flag_is_set(&p.pointer) {
        let mut res = p.name.clone();
        res.append("_addr: Int");
        res
    } else if str_eq(p.ty.as_str(), "[VAR]") {
        let mut res = p.name.clone();
        res.append(": ");
        let t = mojo_type_of(dtype);
        res.append(t.as_str());
        res
    } else {
        let mut res = p.name.clone();
        res.append(": ");
        let t = mojo_type_of(p.ty.as_str());
        res.append(t.as_str());
        res
    }
}

fn render_mojo_setup_line(p: &ProblemParameter) -> (res: String)
    ensures
        res@ == mojo_setup_line(*p),
{
    let mut res = String::from_str("    ");
    match strip_prefix(p.name.as_str(), "d_") {
        Some(rest) => {
            proof {
                reveal_strlit("d_");
            }
            res.append(rest.as_str());
        },
        None => {
            res.append(p.name.as_str());
        },
    }
    res.append(" = UnsafePointer[Scalar[dtype_");
    res.append(p.ty.as_str());
    res.append("], MutExternalOrigin](unsafe_from_address=");
    res.append(p.name.as_str());
    res.append("_addr)");
    res
}

fn render_mojo_dtype_line(ty: &str) -> (res: String)
    ensures
        res@ == mojo_dtype_line(ty@),
{
    let mut res = String::from_str("comptime dtype_");
    res.append(ty);
    res.append(" = ");
    res.append(mojo_dtype_const_of(ty));
    res
}

/// Which rendering a pass over the parameters makes.
enum Rendering {
    Cuda,
    Python,
    Mojo,
    PointerName,
    PointerType,
    PointerSetup,
}

/// What a rendering makes of the parameters.
spec fn rendered(ps: Seq<ProblemParameter>, how: Rendering, dtype: Seq<char>) -> Seq<Seq<char>> {
    match how {
        Rendering::Cuda => cuda_params(ps, dtype),
        Rendering::Python => python_params(ps, dtype),
        Rendering::Mojo => mojo_params(ps, dtype),
        Rendering::PointerName => pointer_names(ps),
        Rendering::PointerType => pointer_params(ps).map_values(|p: ProblemParameter| p.ty@),
        Rendering::PointerSetup => pointer_params(ps).map_values(
            |p: ProblemParameter| mojo_setup_line(p),
        ),
    }
}

spec fn only_pointers(how: Rendering) -> bool {
    match how {
        Rendering::PointerName | Rendering::PointerType | Rendering::PointerSetup => true,
        _ => false,
    }
}

spec fn render_one(p: ProblemParameter, how: Rendering, dtype: Seq<char>) -> Seq<char> {
    match how {
        Rendering::Cuda => cuda_param(p, dtype),
        Rendering::Python => python_param(p, dtype),
        Rendering::Mojo => mojo_param(p, dtype),
        Rendering::PointerName => p.name@,
        Rendering::PointerType => p.ty@,
        Rendering::PointerSetup => mojo_setup_line(p),
    }
}

proof fn lemma_rendered_step(ps: Seq<ProblemParameter>, how: Rendering, dtype: Seq<char>, i: int)
    requires
        0 <= i < ps.len(),
    ensures
        only_pointers(how) && !is_pointer(ps[i]) ==> rendered(ps.take(i + 1), how, dtype)
            == rendered(ps.take(i), how, dtype),
        !(only_pointers(how) && !is_pointer(ps[i])) ==> rendered(ps.take(i + 1), how, dtype)
            == rendered(ps.take(i), how, dtype).push(render_one(ps[i], how, dtype)),
{
    let a = ps.take(i + 1);
    assert(a.drop_last() =~= ps.take(i));
    assert(a.last() == ps[i]);
    if only_pointers(how) {
        if is_pointer(ps[i]) {
            assert(pointer_params(a) == pointer_params(ps.take(i)).push(ps[i]));
        } else {
            assert(pointer_params(a) == pointer_params(ps.take(i)));
        }
    }
    match how {
        Rendering::Cuda => {
            assert(cuda_params(a, dtype) =~= cuda_params(ps.take(i), dtype).push(
                cuda_param(ps[i], dtype),
            ));
        },
        Rendering::Python => {
            assert(python_params(a, dtype) =~= python_params(ps.take(i), dtype).push(
                python_param(ps[i], dtype),
            ));
        },
        Rendering::Mojo => {
            assert(mojo_params(a, dtype) =~= mojo_params(ps.take(i), dtype).push(
                mojo_param(ps[i], dtype),
            ));
        },
        Rendering::PointerName => {
            if is_pointer(ps[i]) {
                assert(pointer_names(a) =~= pointer_names(ps.take(i)).push(ps[i].name@));
            }
        },
        Rendering::PointerType => {
            if is_pointer(ps[i]) {
                assert(pointer_params(a).map_values(|p: ProblemParameter| p.ty@) =~= pointer_params(
                    ps.take(i),
                ).map_values(|p: ProblemParameter| p.ty@).push(ps[i].ty@));
            }
        },
        Rendering::PointerSetup => {
            if is_pointer(ps[i]) {
                assert(pointer_params(a).map_values(|p: ProblemParameter| mojo_setup_line(p))
                    =~= pointer_params(ps.take(i)).map_values(
                    |p: ProblemParameter| mojo_setup_line(p),
                ).push(mojo_setup_line(ps[i])));
            }
        },
    }
}

/// Renders the parameters (or only the pointer parameters) one by one.
fn render_all(ps: &[ProblemParameter], how: Rendering, dtype: &str) -> (res: Vec<String>)
    ensures
        views(res@) == rendered(ps@, how, dtype@),
{
    let mut res: Vec<String> = Vec::new();
    let mut i: usize = 0;
    proof {
        assert(ps@.take(0) =~= Seq::<ProblemParameter>::empty());
        assert(views(res@) =~= rendered(ps@.take(0), how, dtype@)) by {
            assert(pointer_params(ps@.take(0)) =~= Seq::<ProblemParameter>::empty());
        }
    }
    while i < ps.len()
        invariant
            i <= ps@.len(),
            views(res@) == rendered(ps@.take(i as int), how, dtype@),
        decreases ps@.len() - i,
    {
        proof {
            lemma_rendered_step(ps@, how, dtype@, i as int);
        }
        let p = &ps[i];
        let ghost before = res@;
        match how {
            Rendering::Cuda => res.push(render_cuda_param(p, dtype)),
            Rendering::Python => res.push(render_python_param(p, dtype)),
            Rendering::Mojo => res.push(render_mojo_param(p, dtype)),
            Rendering::PointerName => if flag_is_set(&p.pointer) {
                res.push(p.name.clone());
            },
            Rendering::PointerType => if flag_is_set(&p.pointer) {
                res.push(p.ty.clone());
            },
            Rendering::PointerSetup => if flag_is_set(&p.pointer) {
                res.push(render_mojo_setup_line(p));
            },
        }
        proof {
            if res@.len() > before.len() {
                assert(views(res@) =~= views(before).push(res@.last()@));
            } else {
                assert(res@ == before);
            }
        }
        i += 1;
    }
    proof {
        assert(ps@.take(ps@.len() as int) =~= ps@);
    }
    res
}

/// Whether `s` is one of `v`.
fn contains_string(v: &Vec<String>, s: &str) -> (res: bool)
    ensures
        res == views(v@).contains(s@),
{
    let mut i: usize = 0;
    while i < v.len()
        invariant
            i <= v@.len(),
            forall|k: int| 0 <= k < i ==> v@[k]@ != s@,
        decreases v@.len() - i,
    {
        if str_eq(v[i].as_str(), s) {
            proof {
                assert(views(v@)[i as int] == s@);
            }
            return true;
        }
        i += 1;
    }
    proof {
        if views(v@).contains(s@) {
            let k = choose|k: int| 0 <= k < views(v@).len() && views(v@)[k] == s@;
            assert(v@[k]@ == s@);
        }
    }
    false
}

/// The strings of `v`, each once, in order of first occurrence.
fn unique_strings(v: &Vec<String>) -> (res: Vec<String>)
    ensures
        views(res@) == views(v@).remove_duplicates(seq![]),
{
    let mut res: Vec<String> = Vec::new();
    let mut i: usize = 0;
    proof {
        assert(views(v@).skip(0) =~= views(v@));
        assert(views(res@) =~= Seq::<Seq<char>>::empty());
    }
    while i < v.len()
        invariant
            i <= v@.len(),
            views(v@).remove_duplicates(seq![]) == views(v@).skip(i as int).remove_duplicates(
                views(res@),
            ),
        decreases v@.len() - i,
    {
        let ghost rest = views(v@).skip(i as int);
        proof {
            assert(rest[0] == v@[i as int]@);
            assert(rest.skip(1) =~= views(v@).skip(i + 1));
        }
        if !contains_string(&res, v[i].as_str()) {
            let ghost before = views(res@);
            res.push(v[i].clone());
            proof {
                assert(views(res@) =~= before + seq![v@[i as int]@]);
            }
        }
        i += 1;
    }
    proof {
        assert(views(v@).skip(i as int) =~= Seq::<Seq<char>>::empty());
    }
    res
}

/// The lines joined by newlines, with a final newline when there is any text.
fn render_block(lines: &Vec<String>) -> (res: String)
    ensures
        res@ == block(views(lines@)),
{
    let mut res = join_strings(lines, "\n");
    if chars_of(res.as_str()).len() > 0 {
        res.append("\n");
    }
    res
}

fn generate_cuda_starter(ps: &[ProblemParameter], dtype: &str) -> (res: String)
    ensures
        res@ == cuda_starter(ps@, dtype@),
{
    let names = render_all(ps, Rendering::PointerName, dtype);
    let params = render_all(ps, Rendering::Cuda, dtype);
    let mut res = String::from_str("#include <cuda_runtime.h>\n\n// Note: ");
    res.append(join_strings(&names, ", ").as_str());
    res.append(" are device pointer parameters\nextern \"C\" void solution(");
    res.append(join_strings(&params, ", ").as_str());
    res.append(") {    \n}");
    res
}

fn generate_python_hosted_starter(imports: &str, ps: &[ProblemParameter], dtype: &str) -> (res: String)
    ensures
        res@ == python_hosted_starter(imports@, ps@, dtype@),
{
    let names = render_all(ps, Rendering::PointerName, dtype);
    let params = render_all(ps, Rendering::Python, dtype);
    let mut res = String::from_str(imports);
    res.append("\n\n# Note: ");
    res.append(join_strings(&names, ", ").as_str());
    res.append(" are device tensor parameters\ndef solution(");
    res.append(join_strings(&params, ", ").as_str());
    res.append("):\n    ");
    res
}

fn render_dtype_lines(types: &Vec<String>) -> (res: Vec<String>)
    ensures
        views(res@) == views(types@).map_values(|t: Seq<char>| mojo_dtype_line(t)),
{
    let mut res: Vec<String> = Vec::new();
    let mut i: usize = 0;
    while i < types.len()
        invariant
            i <= types@.len(),
            views(res@) == views(types@.take(i as int)).map_values(
                |t: Seq<char>| mojo_dtype_line(t),
            ),
        decreases types@.len() - i,
    {
        let line = render_mojo_dtype_line(types[i].as_str());
        let ghost before = views(res@);
        res.push(line);
        proof {
            assert(views(res@) =~= before.push(line@));
            assert(views(types@.take(i + 1)).map_values(|t: Seq<char>| mojo_dtype_line(t))
                =~= views(types@.take(i as int)).map_values(|t: Seq<char>| mojo_dtype_line(t)).push(
                mojo_dtype_line(types@[i as int]@),
            ));
        }
        i += 1;
    }
    proof {
        assert(types@.take(types@.len() as int) =~= types@);
    }
    res
}

fn generate_mojo_starter(ps: &[ProblemParameter], dtype: &str) -> (res: String)
    ensures
        res@ == mojo_starter(ps@, dtype@),
{
    let names = render_all(ps, Rendering::PointerName, dtype);
    let types = render_all(ps, Rendering::PointerType, dtype);
    let unique = unique_strings(&types);
    let dtype_lines = render_dtype_lines(&unique);
    let params = render_all(ps, Rendering::Mojo, dtype);
    let setup = render_all(ps, Rendering::PointerSetup, dtype);
    let mut res = String::from_str(
        "from gpu import thread_idx, block_idx, block_dim\nfrom gpu.host import DeviceContext\nfrom memory import UnsafePointer \n\n",
    );
    res.append(render_block(&dtype_lines).as_str());
    res.append("\n# Note: ");
    res.append(join_strings(&names, ", ").as_str());
    res.append(" are device pointers to ");
    if unique.len() == 1 {
        res.append(unique[0].as_str());
        res.append(" arrays");
        proof {
            assert(views(unique@)[0] == unique@[0]@);
        }
    } else {
        res.append("mixed-dtype arrays");
    }
    res.append("\n@export\ndef solution(");
    res.append(join_strings(&params, ", ").as_str());
    res.append(") raises:\n");
    res.append(render_block(&setup).as_str());
    res.append("    ");
    res
}

/// The starter code of a solution in `language` for a problem with these
/// parameters, with `data_type` standing for the `[VAR]` placeholder type.
pub fn generate_starter_code(
    parameters: &[ProblemParameter],
    language: &str,
    data_type: &str,
) -> (res: String)
    ensures
        res@ == starter_code(parameters@, language@, data_type@),
{
    if str_eq(language, "cuda") {
        generate_cuda_starter(parameters, data_type)
    } else if str_eq(language, "python") {
        generate_python_hosted_starter(TRITON_IMPORTS, parameters, data_type)
    } else if str_eq(language, "mojo") {
        generate_mojo_starter(parameters, data_type)
    } else if str_eq(language, "cute") {
        generate_python_hosted_starter(CUTE_IMPORTS, parameters, data_type)
    } else if str_eq(language, "cutile") {
        generate_python_hosted_starter(CUTILE_IMPORTS, parameters, data_type)
    } else {
        String::new()
    }
}

/// The comment marker of a language: `// ` for CUDA and unknown languages,
/// `# ` for Python, Mojo, CuTe DSL and cuTile Python.
pub open spec fn comment_prefix(language: Seq<char>) -> Seq<char> {
    if language == "cuda"@ {
        "// "@
    } else if language == "python"@ || language == "mojo"@ || language == "cute"@ || language
        == "cutile"@ {
        "# "@
    } else {
        "// "@
    }
}

/// One description line as a comment line: a blank line becomes the bare
/// marker.
pub open spec fn comment_line(prefix: Seq<char>, line: Seq<char>) -> Seq<char> {
    if trim_ws(line).len() == 0 {
        prefix + "\n"@
    } else {
        prefix + line + "\n"@
    }
}

/// The parts one after another.
pub open spec fn concat_all(parts: Seq<Seq<char>>) -> Seq<char>
    decreases parts.len(),
{
    if parts.len() == 0 {
        Seq::empty()
    } else {
        concat_all(parts.drop_last()) + parts.last()
    }
}

/// A problem description as a comment block: a `Problem Description` title
/// line after the trimmed marker, then every line of the description
/// commented out.
pub open spec fn comment_block(description: Seq<char>, language: Seq<char>) -> Seq<char> {
    let prefix = comment_prefix(language);
    trim_ws(prefix) + "Problem Description\n"@ + concat_all(
        lines(description).map_values(|l: Seq<char>| comment_line(prefix, l)),
    )
}

fn comment_prefix_of(language: &str) -> (res: &'static str)
    ensures
        res@ == comment_prefix(language@),
{
    if str_eq(language, "cuda") {
        "// "
    } else if str_eq(language, "python") || str_eq(language, "mojo") || str_eq(language, "cute")
        || str_eq(language, "cutile") {
        "# "
    } else {
        "// "
    }
}

pub fn generate_comment_block(description: &str, language: &str) -> (res: String)
    ensures
        res@ == comment_block(description@, language@),
{
    let prefix = comment_prefix_of(language);
    let lines = split_lines(description);
    let mut res = trim(prefix);
    res.append("Problem Description\n");
    let ghost head = res@;
    let ghost commented = lines@.map_values(|l: String| comment_line(prefix@, l@));
    let mut i: usize = 0;
    proof {
        assert(views(lines@).map_values(|l: Seq<char>| comment_line(prefix@, l)) =~= commented);
        assert(concat_all(commented.take(0)) =~= Seq::<char>::empty());
        assert(res@ =~= head + concat_all(commented.take(0)));
    }
    while i < lines.len()
        invariant
            i <= lines@.len(),
            commented == lines@.map_values(|l: String| comment_line(prefix@, l@)),
            res@ == head + concat_all(commented.take(i as int)),
        decreases lines@.len() - i,
    {
        let ghost before = res@;
        if is_blank(lines[i].as_str()) {
            res.append(prefix);
            res.append("\n");
        } else {
            res.append(prefix);
            res.append(lines[i].as_str());
            res.append("\n");
        }
        proof {
            assert(commented.take(i + 1).drop_last() =~= commented.take(i as int));
            assert(res@ =~= before + commented[i as int]);
        }
        i += 1;
    }
    proof {
        assert(commented.take(lines@.len() as int) =~= commented);
    }
    res
}

/// The pattern of a call of `exec` in Python code.
pub const EXEC_CALL_PATTERN: &'static str = "exec\\s*\\(\\s*[^)]*\\)";

/// `code` calls `exec`: `exec`, optional white space, `(`, then characters
/// other than `)` up to a `)` (the matches of `EXEC_CALL_PATTERN`).
pub open spec fn has_exec_call(code: Seq<char>) -> bool {
    exists|i: int, j: int, k: int|
        #![trigger code[j], code[k], crate::text::occurs_at(code, "exec"@, i)]
        crate::text::occurs_at(code, "exec"@, i) && i + 4 <= j < k < code.len() && (forall|m: int|
            i + 4 <= m < j ==> crate::text::is_white_space(#[trigger] code[m])) && code[j] == '('
            && code[k] == ')' && (forall|m: int| j < m < k ==> #[trigger] code[m] != ')')
}

/// Whether the regular expression `pattern` matches somewhere in `text`;
/// `None` when the pattern does not compile.
pub uninterp spec fn regex_search(pattern: Seq<char>, text: Seq<char>) -> Option<bool>;

/// `regex::Regex::new(pattern)` followed by `is_match(text)`. The result is
/// a function of the pattern and the text; for `EXEC_CALL_PATTERN`, which
/// compiles, it is whether the text holds a call of `exec` as `has_exec_call`
/// states it (`\s` is Unicode white space, `[^)]` any character but `)`).
#[verifier::external_body]
fn regex_is_match(pattern: &str, text: &str) -> (res: Option<bool>)
    ensures
        res == regex_search(pattern@, text@),
        pattern@ == EXEC_CALL_PATTERN@ ==> res == Some(has_exec_call(text@)),
{
    match regex::Regex::new(pattern) {
        Ok(re) => Some(re.is_match(text)),
        Err(_) => None,
    }
}

/// Python code that uses PyTorch: it mentions `torch.` or `import torch`.
pub open spec fn uses_pytorch(code: Seq<char>) -> bool {
    contains_seq(code, "torch."@) || contains_seq(code, "import torch"@)
}

/// Checks code before it is sent: Python solutions may not use PyTorch or
/// call `exec`. Other languages are not checked.
pub fn validate_code(code: &str, language: &str) -> (res: Result<(), String>)
    ensures
        res is Err <==> language@ == "python"@ && (uses_pytorch(code@) || has_exec_call(code@)),
        res matches Err(m) ==> m@ == if uses_pytorch(code@) {
            "You cannot use PyTorch in the code!"@
        } else {
            "You cannot use exec() in the code!"@
        },
{
    if str_eq(language, "python") {
        if contains(code, "torch.") || contains(code, "import torch") {
            return Err(String::from_str("You cannot use PyTorch in the code!"));
        }
        match regex_is_match(EXEC_CALL_PATTERN, code) {
            Some(true) => {
                return Err(String::from_str("You cannot use exec() in the code!"));
            },
            _ => {},
        }
    }
    Ok(())
}

/// The files that `init` writes for a problem.
pub struct StarterFiles {
    /// The contents of `PROBLEM.md`: the description.
    pub markdown: String,
    /// The name of the solution file.
    pub file_name: String,
    /// The solution file: the commented description, a blank line, the starter code.
    pub source: String,
}

/// The data type the starter files are generated for.
pub const STARTER_DATA_TYPE: &'static str = "float16";

/// The solution file of a language: `sol.cu`, `sol.py`, `sol.mojo`,
/// `sol.cute.py`, `sol.cutile.py`, else `sol.txt`.
pub open spec fn solution_file_name(language: Seq<char>) -> Seq<char> {
    if language == "cuda"@ {
        "sol.cu"@
    } else if language == "python"@ {
        "sol.py"@
    } else if language == "mojo"@ {
        "sol.mojo"@
    } else if language == "cute"@ {
        "sol.cute.py"@
    } else if language == "cutile"@ {
        "sol.cutile.py"@
    } else {
        "sol.txt"@
    }
}

pub open spec fn description_or_empty(description: Option<String>) -> Seq<char> {
    match description {
        Some(d) => d@,
        None => Seq::empty(),
    }
}

pub open spec fn parameters_or_empty(parameters: Option<Vec<ProblemParameter>>) -> Seq<ProblemParameter> {
    match parameters {
        Some(ps) => ps@,
        None => Seq::empty(),
    }
}

/// The starter files of a problem (a missing description or parameter list
/// counts as empty).
pub fn starter_files(
    description: Option<String>,
    parameters: Option<Vec<ProblemParameter>>,
    language: &str,
) -> (res: StarterFiles)
    ensures
        res.markdown@ == description_or_empty(description),
        res.file_name@ == solution_file_name(language@),
        res.source@ == comment_block(description_or_empty(description), language@) + "\n\n"@
            + starter_code(parameters_or_empty(parameters), language@, STARTER_DATA_TYPE@),
{
    let description = match description {
        Some(d) => d,
        None => String::new(),
    };
    let parameters = match parameters {
        Some(ps) => ps,
        None => Vec::new(),
    };
    let mut source = generate_comment_block(description.as_str(), language);
    source.append("\n\n");
    let starter = generate_starter_code(parameters.as_slice(), language, STARTER_DATA_TYPE);
    source.append(starter.as_str());
    let file_name = if str_eq(language, "cuda") {
        String::from_str("sol.cu")
    } else if str_eq(language, "python") {
        String::from_str("sol.py")
    } else if str_eq(language, "mojo") {
        String::from_str("sol.mojo")
    } else if str_eq(language, "cute") {
        String::from_str("sol.cute.py")
    } else if str_eq(language, "cutile") {
        String::from_str("sol.cutile.py")
    } else {
        String::from_str("sol.txt")
    };
    StarterFiles { markdown: description, file_name, source }
}

} // verus!
