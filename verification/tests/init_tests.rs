use tensara::init::{generate_comment_block, generate_starter_code, starter_files, validate_code};
use tensara::trpc::ProblemParameter;

fn param(name: &str, ty: &str, konst: Option<&str>, pointer: Option<&str>) -> ProblemParameter {
    ProblemParameter {
        name: name.to_string(),
        ty: ty.to_string(),
        const_: konst.map(|s| s.to_string()),
        pointer: pointer.map(|s| s.to_string()),
        constant: None,
    }
}

#[test]
fn mojo_starter_uses_address_abi_and_dtype_constants() {
    let parameters = vec![
        ProblemParameter {
            name: "d_input1".to_string(),
            ty: "float".to_string(),
            const_: Some("true".to_string()),
            pointer: Some("true".to_string()),
            constant: None,
        },
        ProblemParameter {
            name: "d_output".to_string(),
            ty: "float".to_string(),
            const_: Some("false".to_string()),
            pointer: Some("true".to_string()),
            constant: None,
        },
        ProblemParameter {
            name: "n".to_string(),
            ty: "size_t".to_string(),
            const_: Some("false".to_string()),
            pointer: Some("false".to_string()),
            constant: None,
        },
    ];

    let starter = generate_starter_code(&parameters, "mojo", "float16");

    assert!(starter.contains("comptime dtype_float = DType.float32"));
    assert!(starter
        .contains("def solution(d_input1_addr: Int, d_output_addr: Int, n: Int64) raises:"));
    assert!(starter.contains(
        "input1 = UnsafePointer[Scalar[dtype_float], MutExternalOrigin](unsafe_from_address=d_input1_addr)"
    ));
    assert!(starter.contains(
        "output = UnsafePointer[Scalar[dtype_float], MutExternalOrigin](unsafe_from_address=d_output_addr)"
    ));
    assert!(!starter.contains("UnsafePointer[Float16]"));
}

fn vector_add_params() -> Vec<ProblemParameter> {
    vec![
        param("d_a", "[VAR]", Some("true"), Some("true")),
        param("d_b", "[VAR]", Some("true"), Some("true")),
        param("d_c", "[VAR]", None, Some("true")),
        param("n", "size_t", None, None),
    ]
}

#[test]
fn cuda_starter_is_exact() {
    let starter = generate_starter_code(&vector_add_params(), "cuda", "float32");
    assert_eq!(
        starter,
        "#include <cuda_runtime.h>\n\n// Note: d_a, d_b, d_c are device pointer parameters\nextern \"C\" void solution(const float* d_a, const float* d_b, float* d_c, size_t n) {    \n}"
    );
    let half = generate_starter_code(&vector_add_params(), "cuda", "float16");
    assert!(half.contains("const double* d_a"));
}

#[test]
fn python_starter_is_exact() {
    let starter = generate_starter_code(&vector_add_params(), "python", "int16");
    assert_eq!(
        starter,
        "import triton\nimport triton.language as tl\n\n# Note: d_a, d_b, d_c are device tensor parameters\ndef solution(d_a, d_b, d_c, n: int):\n    "
    );
    let scalar = vec![param("alpha", "[VAR]", None, None)];
    assert_eq!(
        generate_starter_code(&scalar, "python", "int16"),
        "import triton\nimport triton.language as tl\n\n# Note:  are device tensor parameters\ndef solution(alpha: int16):\n    "
    );
}

#[test]
fn mojo_starter_is_exact_for_mixed_pointer_types() {
    let parameters = vec![
        param("d_x", "float", None, Some("true")),
        param("idx", "int", None, Some("true")),
        param("d_y", "float", None, Some("true")),
        param("scale", "[VAR]", None, None),
    ];
    let starter = generate_starter_code(&parameters, "mojo", "float16");
    assert_eq!(
        starter,
        "from gpu import thread_idx, block_idx, block_dim\nfrom gpu.host import DeviceContext\nfrom memory import UnsafePointer \n\ncomptime dtype_float = DType.float32\ncomptime dtype_int = DType.int32\n\n# Note: d_x, idx, d_y are device pointers to mixed-dtype arrays\n@export\ndef solution(d_x_addr: Int, idx_addr: Int, d_y_addr: Int, scale: Float16) raises:\n    x = UnsafePointer[Scalar[dtype_float], MutExternalOrigin](unsafe_from_address=d_x_addr)\n    idx = UnsafePointer[Scalar[dtype_int], MutExternalOrigin](unsafe_from_address=idx_addr)\n    y = UnsafePointer[Scalar[dtype_float], MutExternalOrigin](unsafe_from_address=d_y_addr)\n    "
    );
}

#[test]
fn mojo_starter_without_pointers_has_no_setup_block() {
    let parameters = vec![param("n", "uint64_t", None, None)];
    assert_eq!(
        generate_starter_code(&parameters, "mojo", "float32"),
        "from gpu import thread_idx, block_idx, block_dim\nfrom gpu.host import DeviceContext\nfrom memory import UnsafePointer \n\n\n# Note:  are device pointers to mixed-dtype arrays\n@export\ndef solution(n: UInt64) raises:\n    "
    );
}

#[test]
fn unknown_language_gets_no_starter() {
    assert_eq!(generate_starter_code(&vector_add_params(), "triton", "float32"), "");
}

#[test]
fn cute_and_cutile_starters_are_python_functions() {
    let parameters = vec![param("d_x", "float", Some("true"), Some("true")), param("n", "size_t", None, None)];
    assert_eq!(
        generate_starter_code(&parameters, "cute", "float32"),
        "import cutlass\nimport cutlass.cute as cute\n\n# Note: d_x are device tensor parameters\ndef solution(d_x, n: int):\n    "
    );
    assert_eq!(
        generate_starter_code(&parameters, "cutile", "float32"),
        "import cuda.tile as ct\n\n# Note: d_x are device tensor parameters\ndef solution(d_x, n: int):\n    "
    );
}

#[test]
fn comment_block_comments_every_line() {
    assert_eq!(
        generate_comment_block("Add two vectors.\n\n  Return c.\r\n", "cuda"),
        "//Problem Description\n// Add two vectors.\n// \n//   Return c.\n"
    );
    assert_eq!(
        generate_comment_block("a", "python"),
        "#Problem Description\n# a\n"
    );
    assert_eq!(generate_comment_block("", "mojo"), "#Problem Description\n");
    assert_eq!(generate_comment_block("x\n", "other"), "//Problem Description\n// x\n");
}

#[test]
fn python_code_may_not_use_pytorch_or_exec() {
    assert_eq!(
        validate_code("import torch\n", "python"),
        Err("You cannot use PyTorch in the code!".to_string())
    );
    assert_eq!(
        validate_code("x = torch.zeros(3)", "python"),
        Err("You cannot use PyTorch in the code!".to_string())
    );
    assert_eq!(
        validate_code("exec ( 'print(1' )", "python"),
        Err("You cannot use exec() in the code!".to_string())
    );
    assert_eq!(validate_code("execute(1)", "python"), Ok(()));
    assert_eq!(validate_code("exec(", "python"), Ok(()));
    assert_eq!(validate_code("import torch", "cuda"), Ok(()));
}

#[test]
fn starter_files_hold_description_and_code() {
    let files = starter_files(
        Some("Add.".to_string()),
        Some(vec![param("n", "int", None, None)]),
        "python",
    );
    assert_eq!(files.markdown, "Add.");
    assert_eq!(files.file_name, "sol.py");
    assert_eq!(
        files.source,
        "#Problem Description\n# Add.\n\n\nimport triton\nimport triton.language as tl\n\n# Note:  are device tensor parameters\ndef solution(n: int):\n    "
    );
    let empty = starter_files(None, None, "other");
    assert_eq!(empty.markdown, "");
    assert_eq!(empty.file_name, "sol.txt");
    assert_eq!(empty.source, "//Problem Description\n\n\n");
    let cute = starter_files(Some("Add.".to_string()), None, "cute");
    assert_eq!(cute.file_name, "sol.cute.py");
    assert_eq!(
        cute.source,
        "#Problem Description\n# Add.\n\n\nimport cutlass\nimport cutlass.cute as cute\n\n# Note:  are device tensor parameters\ndef solution():\n    "
    );
    assert_eq!(starter_files(None, None, "cutile").file_name, "sol.cutile.py");
    assert_eq!(starter_files(None, None, "cuda").file_name, "sol.cu");
    assert_eq!(starter_files(None, None, "mojo").file_name, "sol.mojo");
}

#[test]
fn starters_note_pointers_and_list_every_parameter() {
    let parameters = vec![
        param("a", "float", None, Some("true")),
        param("n", "int", None, None),
        param("b", "float", None, Some("true")),
    ];
    for language in ["cuda", "python", "mojo", "cute", "cutile"] {
        let starter = generate_starter_code(&parameters, language, "float32");
        assert!(starter.contains("Note: a, b are device "), "{}", language);
        let start = starter.find("solution(").unwrap() + "solution(".len();
        let end = start + starter[start..].find(')').unwrap();
        let items: Vec<&str> = starter[start..end].split(", ").collect();
        assert_eq!(items.len(), 3, "{}", language);
        for (item, p) in items.iter().zip(["a", "n", "b"]) {
            assert!(item.contains(p), "{}", language);
        }
    }
}
