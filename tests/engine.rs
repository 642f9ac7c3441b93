use sgx_mvp::drt::{check_receipt, get_execution_type, DrtKind, DrtReceipt};
use sgx_mvp::fetch::{constant_time_eq, raw_content_url, to_hex, verify_artifact, FetchError};
use sgx_mvp::json::{append_json, is_valid_object, json_equal, schemas_compatible, Json, Member, MergeError};
use sgx_mvp::router::{
    authorize, create_pool, execute_wasm, merge_append, open_pool, prepare_script, ErrorKind,
    Operation, RouterError,
};
use sgx_mvp::seal::{
    derive_key, generate_salt, seal_data, seal_data_with, unseal_data, SealError, SealingRoot,
};
use sgx_mvp::wasm_host::{
    abi_layout, exec_outcome, output_length, pages_to_grow, wasm_execution, AbiLayout, WasmError,
};
use sgx_mvp::wasm_status::WasmErrorCode;
use sha2::{Digest, Sha256};

// ---- helpers ----

fn num(s: &str) -> Json {
    Json::Number(s.to_string())
}

fn text(s: &str) -> Json {
    Json::Str(s.to_string())
}

fn arr(items: Vec<Json>) -> Json {
    Json::Array(items)
}

fn obj(members: Vec<(&str, Json)>) -> Json {
    Json::Object(members.into_iter().map(|(k, v)| Member { key: k.to_string(), value: v }).collect())
}

fn nums(xs: &[&str]) -> Json {
    arr(xs.iter().map(|x| num(x)).collect())
}

fn number_schema(cols: &[&str]) -> Json {
    obj(vec![(
        "properties",
        obj(cols
            .iter()
            .map(|c| (*c, obj(vec![("type", text("array")), ("items", obj(vec![("type", text("number"))]))])))
            .collect()),
    )])
}

fn root() -> SealingRoot {
    SealingRoot::new(vec![7u8; 16]).unwrap()
}

fn receipt(pool: &str, drt_type: &str) -> DrtReceipt {
    DrtReceipt { pool_id: pool.to_string(), drt_type: drt_type.to_string() }
}

fn leb_u32(mut v: u32, out: &mut Vec<u8>) {
    loop {
        let b = (v & 0x7f) as u8;
        v >>= 7;
        if v == 0 {
            out.push(b);
            return;
        }
        out.push(b | 0x80);
    }
}

fn section(id: u8, content: Vec<u8>, out: &mut Vec<u8>) {
    out.push(id);
    leb_u32(content.len() as u32, out);
    out.extend(content);
}

/// A module importing `env.memory` and exporting a function of seven `i32`
/// parameters and one `i32` result under `export`, whose body is `code`.
fn module(export: &str, code: &[u8], with_start: bool) -> Vec<u8> {
    let mut m = vec![0x00, 0x61, 0x73, 0x6d, 0x01, 0x00, 0x00, 0x00];
    let mut types = vec![2, 0x60, 7, 0x7f, 0x7f, 0x7f, 0x7f, 0x7f, 0x7f, 0x7f, 1, 0x7f];
    types.extend([0x60, 0, 0]);
    section(1, types, &mut m);
    let mut imports = vec![1, 3];
    imports.extend(b"env");
    imports.push(6);
    imports.extend(b"memory");
    imports.extend([2, 0, 1]);
    section(2, imports, &mut m);
    section(3, if with_start { vec![2, 0, 1] } else { vec![1, 0] }, &mut m);
    let mut exports = vec![1, export.len() as u8];
    exports.extend(export.as_bytes());
    exports.extend([0, 0]);
    section(7, exports, &mut m);
    if with_start {
        section(8, vec![1], &mut m);
    }
    let mut body = vec![0];
    body.extend(code);
    body.push(0x0b);
    let mut codes = vec![if with_start { 2 } else { 1 }];
    leb_u32(body.len() as u32, &mut codes);
    codes.extend(body);
    if with_start {
        codes.extend([2, 0, 0x0b]);
    }
    section(10, codes, &mut m);
    m
}

/// A module whose `exec` returns `status` and touches nothing.
fn status_module(status: u8) -> Vec<u8> {
    module("exec", &[0x41, status], false)
}

/// A module whose `exec` writes `{}` to the output buffer, its length to the
/// length cell, and returns 0.
fn braces_module() -> Vec<u8> {
    module(
        "exec",
        &[
            0x20, 4, 0x41, 0xfb, 0xfa, 0x01, 0x3b, 0x01, 0x00, // output[0..2] = "{}"
            0x20, 6, 0x41, 2, 0x36, 0x02, 0x00, // *len = 2
            0x41, 0, // return 0
        ],
        false,
    )
}

/// A module whose `exec` claims to have written 2 MiB, and returns 0.
fn oversized_length_module() -> Vec<u8> {
    module("exec", &[0x20, 6, 0x41, 0x80, 0x80, 0x80, 0x01, 0x36, 0x02, 0x00, 0x41, 0], false)
}

const ABC_SHA256: &str = "ba7816bf8f01cfea414140de5dae2223b00361a396177a9cb410ff61f20015ad";

// ---- status codes ----

#[test]
fn status_codes_map_both_ways() {
    let all = [
        (0, WasmErrorCode::Success),
        (1, WasmErrorCode::ParseInputData),
        (2, WasmErrorCode::ParseSchema),
        (3, WasmErrorCode::SerializeOutput),
        (4, WasmErrorCode::OutputBufferTooSmall),
        (5, WasmErrorCode::ExecutionFailed),
    ];
    for (c, s) in all {
        assert_eq!(WasmErrorCode::from_code(c), s);
        assert_eq!(s.code(), c);
    }
    assert_eq!(WasmErrorCode::from_code(42), WasmErrorCode::Unknown(42));
    assert_eq!(WasmErrorCode::Unknown(-7).code(), -7);
}

#[test]
fn status_messages_and_conversion() {
    assert_eq!(WasmErrorCode::OutputBufferTooSmall.message(), "Output buffer too small");
    assert_eq!(WasmErrorCode::Unknown(12).message(), "Unknown error code");
    assert_eq!(WasmErrorCode::from(3), WasmErrorCode::SerializeOutput);
    assert_eq!(WasmErrorCode::from(-1), WasmErrorCode::Unknown(-1));
}

#[test]
fn exec_outcome_keeps_nonzero_codes() {
    assert_eq!(exec_outcome(0), Ok(()));
    assert_eq!(exec_outcome(4), Err(WasmErrorCode::OutputBufferTooSmall));
    assert_eq!(exec_outcome(99), Err(WasmErrorCode::Unknown(99)));
}

// ---- JSON merge ----

#[test]
fn append_concatenates_columns() {
    let pool = obj(vec![("A", nums(&["1.0", "2.0", "3.0"]))]);
    let add = obj(vec![("A", nums(&["4.0", "5.0"]))]);
    let merged = append_json(pool, add).unwrap();
    let expected = obj(vec![("A", nums(&["1.0", "2.0", "3.0", "4.0", "5.0"]))]);
    assert!(json_equal(&merged, &expected));
}

#[test]
fn append_keeps_left_only_columns() {
    let pool = obj(vec![("A", nums(&["1"])), ("B", nums(&["2"]))]);
    let add = obj(vec![("B", nums(&["3"]))]);
    let merged = append_json(pool, add).unwrap();
    assert!(json_equal(&merged, &obj(vec![("A", nums(&["1"])), ("B", nums(&["2", "3"]))])));
}

#[test]
fn append_rejects_missing_left_key() {
    let pool = obj(vec![("A", nums(&["1"]))]);
    let add = obj(vec![("B", nums(&["3"]))]);
    assert_eq!(append_json(pool, add).unwrap_err(), MergeError::MergeShape);
}

#[test]
fn append_rejects_non_objects_and_non_arrays() {
    assert_eq!(append_json(nums(&["1"]), obj(vec![])).unwrap_err(), MergeError::MergeShape);
    assert_eq!(append_json(obj(vec![]), text("x")).unwrap_err(), MergeError::MergeShape);
    let pool = obj(vec![("A", nums(&["1"]))]);
    assert_eq!(append_json(pool, obj(vec![("A", num("2"))])).unwrap_err(), MergeError::MergeShape);
    let pool = obj(vec![("A", num("1"))]);
    assert_eq!(append_json(pool, obj(vec![("A", nums(&["2"]))])).unwrap_err(), MergeError::MergeShape);
}

#[test]
fn append_with_empty_right_is_identity() {
    let pool = obj(vec![("A", nums(&["1", "2"]))]);
    let merged = append_json(pool, obj(vec![])).unwrap();
    assert!(json_equal(&merged, &obj(vec![("A", nums(&["1", "2"]))])));
}

#[test]
fn append_is_associative_column_wise() {
    let j = || obj(vec![("A", nums(&["1"])), ("B", nums(&["9"]))]);
    let a = || obj(vec![("A", nums(&["2"])), ("B", nums(&["8"]))]);
    let b = || obj(vec![("A", nums(&["3"]))]);
    let left = append_json(append_json(j(), a()).unwrap(), b()).unwrap();
    let right = append_json(j(), append_json(a(), b()).unwrap()).unwrap();
    assert!(json_equal(&left, &right));
    assert!(json_equal(&left, &obj(vec![("A", nums(&["1", "2", "3"])), ("B", nums(&["9", "8"]))])));
}

#[test]
fn append_of_disjoint_documents_commutes() {
    let j = || obj(vec![("A", nums(&["1"])), ("B", nums(&["9"])), ("C", nums(&["0"]))]);
    let a = || obj(vec![("A", nums(&["2"]))]);
    let b = || obj(vec![("B", nums(&["8"]))]);
    let ab = append_json(append_json(j(), a()).unwrap(), b()).unwrap();
    let ba = append_json(append_json(j(), b()).unwrap(), a()).unwrap();
    assert!(json_equal(&ab, &ba));
    assert!(json_equal(&ab, &obj(vec![("A", nums(&["1", "2"])), ("B", nums(&["9", "8"])), ("C", nums(&["0"]))])));
}

#[test]
fn object_validity_rejects_repeated_keys() {
    assert!(is_valid_object(&obj(vec![("A", num("1")), ("B", num("2"))])));
    assert!(!is_valid_object(&obj(vec![("A", num("1")), ("A", num("2"))])));
    assert!(!is_valid_object(&nums(&["1"])));
}

#[test]
fn json_equality_ignores_member_order() {
    let x = obj(vec![("a", num("1")), ("b", arr(vec![text("x"), Json::Null]))]);
    let y = obj(vec![("b", arr(vec![text("x"), Json::Null])), ("a", num("1"))]);
    assert!(json_equal(&x, &y));
    let z = obj(vec![("b", arr(vec![text("x"), Json::Bool(true)])), ("a", num("1"))]);
    assert!(!json_equal(&x, &z));
    assert!(!json_equal(&num("1"), &num("1.0")));
}

#[test]
fn schema_compatibility() {
    assert!(schemas_compatible(&number_schema(&["A"]), &number_schema(&["A"])));
    assert!(!schemas_compatible(&number_schema(&["A"]), &number_schema(&["B"])));
    assert!(!schemas_compatible(&number_schema(&["A"]), &number_schema(&["A", "B"])));
    let strings = obj(vec![(
        "properties",
        obj(vec![("A", obj(vec![("type", text("array")), ("items", obj(vec![("type", text("string"))]))]))]),
    )]);
    assert!(!schemas_compatible(&number_schema(&["A"]), &strings));
    let mut with_required = number_schema(&["A"]);
    if let Json::Object(ms) = &mut with_required {
        ms.push(Member { key: "required".to_string(), value: arr(vec![text("A")]) });
    }
    assert!(!schemas_compatible(&number_schema(&["A"]), &with_required));
    assert!(!schemas_compatible(&num("1"), &num("1")));
}

// ---- sealing ----

#[test]
fn root_must_be_sixteen_bytes() {
    assert_eq!(SealingRoot::new(vec![0u8; 15]).err(), Some(SealError::InvalidRootLength));
    assert_eq!(SealingRoot::new(vec![0u8; 17]).err(), Some(SealError::InvalidRootLength));
    assert!(SealingRoot::new(vec![0u8; 16]).is_ok());
}

#[test]
fn seal_then_unseal_round_trips() {
    let r = root();
    let doc = br#"{"A":[1.0,2.0,3.0]}"#;
    let blob = seal_data(&r, doc).unwrap();
    assert_eq!(blob.len(), 28 + doc.len() + 16);
    assert_eq!(unseal_data(&r, &blob).unwrap(), doc.to_vec());
}

#[test]
fn seals_of_the_same_document_differ() {
    let r = root();
    let a = seal_data(&r, b"{}").unwrap();
    let b = seal_data(&r, b"{}").unwrap();
    assert_ne!(a, b);
    assert_eq!(unseal_data(&r, &a).unwrap(), unseal_data(&r, &b).unwrap());
}

#[test]
fn seal_with_fixed_salt_and_nonce_is_deterministic() {
    let r = root();
    let salt = [1u8; 16];
    let nonce = [2u8; 12];
    let a = seal_data_with(&r, b"{\"x\":[1]}", &salt, &nonce).unwrap();
    let b = seal_data_with(&r, b"{\"x\":[1]}", &salt, &nonce).unwrap();
    assert_eq!(a, b);
    assert_eq!(&a[..16], &salt);
    assert_eq!(&a[16..28], &nonce);
    assert_ne!(&a[28..a.len() - 16], b"{\"x\":[1]}");
}

#[test]
fn flipped_bits_fail_integrity() {
    let r = root();
    let blob = seal_data(&r, br#"{"A":[1]}"#).unwrap();
    for i in 28..blob.len() {
        for j in 0..8 {
            let mut bad = blob.clone();
            bad[i] ^= 1 << j;
            assert_eq!(unseal_data(&r, &bad).err(), Some(SealError::SealedIntegrity));
        }
    }
}

#[test]
fn truncated_blob_is_malformed() {
    let r = root();
    let blob = seal_data(&r, b"{}").unwrap();
    assert_eq!(unseal_data(&r, &blob[..27]).err(), Some(SealError::SealedFormat));
    assert_eq!(unseal_data(&r, &[]).err(), Some(SealError::SealedFormat));
    assert_eq!(unseal_data(&r, &blob[..28]).err(), Some(SealError::SealedIntegrity));
}

#[test]
fn another_root_cannot_unseal() {
    let blob = seal_data(&root(), b"{}").unwrap();
    let other = SealingRoot::new(vec![8u8; 16]).unwrap();
    assert_eq!(unseal_data(&other, &blob).err(), Some(SealError::SealedIntegrity));
}

#[test]
fn derived_keys_depend_on_salt() {
    let r = root();
    let k1 = derive_key(&r, &[0u8; 16]);
    let k2 = derive_key(&r, &[0u8; 16]);
    let k3 = derive_key(&r, &[1u8; 16]);
    assert_eq!(k1.len(), 16);
    assert_eq!(k1, k2);
    assert_ne!(k1, k3);
    assert_ne!(k1, vec![7u8; 16]);
}

#[test]
fn salts_are_fresh() {
    let a = generate_salt().unwrap();
    let b = generate_salt().unwrap();
    assert_eq!(a.len(), 16);
    assert_ne!(a, b);
}

// ---- fetching ----

#[test]
fn raw_url_rewrite() {
    assert_eq!(
        raw_content_url("https://github.com/org/repo/blob/main/bin/mean.wasm"),
        "https://raw.githubusercontent.com/org/repo/main/bin/mean.wasm"
    );
    assert_eq!(raw_content_url("https://example.org/x"), "https://example.org/x");
}

#[test]
fn hex_is_lowercase_two_digits_per_byte() {
    assert_eq!(to_hex(&[0x00, 0xab, 0x0f, 0xff]), b"00ab0fff".to_vec());
    assert_eq!(to_hex(&[]), Vec::<u8>::new());
}

#[test]
fn constant_time_comparison() {
    assert!(constant_time_eq(b"abc", b"abc"));
    assert!(!constant_time_eq(b"abc", b"abd"));
    assert!(!constant_time_eq(b"abc", b"ab"));
    assert!(constant_time_eq(b"", b""));
}

#[test]
fn artifact_with_matching_digest_is_accepted() {
    assert_eq!(verify_artifact(b"abc".to_vec(), ABC_SHA256).unwrap(), b"abc".to_vec());
}

#[test]
fn artifact_with_other_digest_is_refused() {
    let wrong = "0".repeat(64);
    match verify_artifact(b"abc".to_vec(), &wrong) {
        Err(FetchError::HashMismatch { expected, found }) => {
            assert_eq!(expected, wrong);
            assert_eq!(found, ABC_SHA256.as_bytes().to_vec());
        }
        other => panic!("unexpected {:?}", other),
    }
    assert!(verify_artifact(b"abc".to_vec(), &ABC_SHA256.to_uppercase()).is_err());
}

// ---- the WebAssembly host ----

#[test]
fn layout_places_buffers_in_order() {
    assert_eq!(
        abi_layout(10, 20),
        Some(AbiLayout {
            data_ptr: 0,
            data_len: 10,
            schema_ptr: 10,
            schema_len: 20,
            output_ptr: 30,
            output_size: 1048576,
            output_len_ptr: 30 + 1048576,
            end: 34 + 1048576,
        })
    );
    assert_eq!(abi_layout(2147483647 - 1048576 - 4, 0).map(|l| l.end), Some(2147483647));
    assert_eq!(abi_layout(2147483647 - 1048576 - 3, 0), None);
}

#[test]
fn growth_rounds_up_to_pages() {
    assert_eq!(pages_to_grow(100, 200), 0);
    assert_eq!(pages_to_grow(200, 200), 0);
    assert_eq!(pages_to_grow(201, 200), 1);
    assert_eq!(pages_to_grow(200 + 65536, 200), 1);
    assert_eq!(pages_to_grow(201 + 65536, 200), 2);
}

#[test]
fn output_length_is_bounded() {
    assert_eq!(output_length(&[2, 0, 0, 0], 16), Ok(2));
    assert_eq!(output_length(&[16, 0, 0, 0], 16), Ok(16));
    assert_eq!(output_length(&[17, 0, 0, 0], 16), Err(17));
    assert_eq!(output_length(&[0xff, 0xff, 0xff, 0xff], 16), Err(-1));
    assert_eq!(output_length(&[0, 0, 0x20, 0], 1048576), Err(2097152));
}

#[test]
fn module_status_codes_surface_as_typed_errors() {
    let expected = [
        (1, WasmErrorCode::ParseInputData),
        (2, WasmErrorCode::ParseSchema),
        (3, WasmErrorCode::SerializeOutput),
        (4, WasmErrorCode::OutputBufferTooSmall),
        (5, WasmErrorCode::ExecutionFailed),
        (9, WasmErrorCode::Unknown(9)),
    ];
    for (s, code) in expected {
        match wasm_execution(&status_module(s), b"{}", b"{}") {
            Err(WasmError::Status(got)) => assert_eq!(got, code),
            other => panic!("status {}: unexpected {:?}", s, other),
        }
    }
}

#[test]
fn module_output_is_returned() {
    assert_eq!(wasm_execution(&braces_module(), b"{\"A\":[1]}", b"{}").unwrap(), b"{}".to_vec());
}

#[test]
fn module_claiming_too_much_output_is_refused() {
    match wasm_execution(&oversized_length_module(), b"{}", b"{}") {
        Err(WasmError::OutputLength(n)) => assert_eq!(n, 2097152),
        other => panic!("unexpected {:?}", other),
    }
}

#[test]
fn module_without_exec_is_abi_missing() {
    let m = module("compute", &[0x41, 0], false);
    assert!(matches!(wasm_execution(&m, b"{}", b"{}"), Err(WasmError::AbiMissing)));
}

#[test]
fn module_with_start_function_is_refused() {
    let m = module("exec", &[0x41, 0], true);
    assert!(matches!(wasm_execution(&m, b"{}", b"{}"), Err(WasmError::Instantiate(_))));
}

#[test]
fn trapping_module_is_wasm_trap() {
    let m = module("exec", &[0x00], false);
    assert!(matches!(wasm_execution(&m, b"{}", b"{}"), Err(WasmError::WasmTrap(_))));
}

#[test]
fn execute_wasm_requires_a_wasm_token() {
    let rc = receipt("p", "py_compute_mean");
    let m = status_module(0);
    let digest = String::from_utf8(to_hex(&sha2_digest(&m))).unwrap();
    let res = execute_wasm(Some(&rc), "p", b"{}", m, &digest, b"{}");
    assert!(matches!(res, Err(RouterError::Unauthorized)));
}

#[test]
fn garbage_module_does_not_compile() {
    assert!(matches!(wasm_execution(b"not wasm", b"{}", b"{}"), Err(WasmError::Compile(_))));
}

// ---- tokens ----

#[test]
fn execution_type_from_token_type() {
    assert_eq!(get_execution_type("append"), Some(DrtKind::Append));
    assert_eq!(get_execution_type("w_compute_mean"), Some(DrtKind::WasmAggregate));
    assert_eq!(get_execution_type("py_compute_median"), Some(DrtKind::ScriptAggregate));
    assert_eq!(get_execution_type("appendix"), None);
    assert_eq!(get_execution_type("w_comput"), None);
    assert_eq!(get_execution_type(""), None);
}

#[test]
fn receipt_must_match_pool_and_kind() {
    let rc = receipt("pool-1", "w_compute_mean");
    assert!(check_receipt(&rc, "pool-1", DrtKind::WasmAggregate));
    assert!(!check_receipt(&rc, "pool-2", DrtKind::WasmAggregate));
    assert!(!check_receipt(&rc, "pool-1", DrtKind::ScriptAggregate));
}

// ---- router ----

#[test]
fn authorization_per_operation() {
    let rc = receipt("p", "append");
    assert!(authorize(Some(&rc), "p", Operation::CreatePool).is_ok());
    assert!(authorize(Some(&rc), "p", Operation::AppendData).is_ok());
    assert!(matches!(authorize(Some(&rc), "p", Operation::ExecuteWasm), Err(RouterError::Unauthorized)));
    assert!(matches!(authorize(None, "p", Operation::AppendData), Err(RouterError::Unauthorized)));
    let py = receipt("p", "py_compute_mean");
    assert!(authorize(Some(&py), "p", Operation::ExecuteScript).is_ok());
}

#[test]
fn create_then_view_returns_the_document() {
    let r = root();
    let rc = receipt("p", "append");
    let doc = br#"{"A":[1.0,2.0,3.0]}"#;
    let blob = create_pool(&r, Some(&rc), "p", false, doc).unwrap();
    assert_eq!(unseal_data(&r, &blob).unwrap(), doc.to_vec());
    assert!(matches!(create_pool(&r, Some(&rc), "p", true, doc), Err(RouterError::PoolExists)));
    assert!(matches!(create_pool(&r, None, "p", false, doc), Err(RouterError::Unauthorized)));
}

#[test]
fn open_pool_reports_seal_errors() {
    let r = root();
    let rc = receipt("p", "w_compute_mean");
    assert!(matches!(
        open_pool(&r, Some(&rc), "p", Operation::ExecuteWasm, &[0u8; 10]),
        Err(RouterError::Seal(SealError::SealedFormat))
    ));
    let blob = seal_data(&r, b"{}").unwrap();
    assert_eq!(open_pool(&r, Some(&rc), "p", Operation::ExecuteWasm, &blob).unwrap(), b"{}".to_vec());
}

#[test]
fn append_with_differing_schemas_is_refused() {
    let pool = obj(vec![("A", nums(&["1"]))]);
    let add = obj(vec![("A", nums(&["2"]))]);
    let r = merge_append(pool, add, &number_schema(&["A"]), &number_schema(&["B"]));
    assert!(matches!(r, Err(RouterError::Merge(MergeError::MergeShape))));
}

#[test]
fn append_with_matching_schemas_merges() {
    let pool = obj(vec![("A", nums(&["1.0", "2.0", "3.0"]))]);
    let add = obj(vec![("A", nums(&["4.0", "5.0"]))]);
    let merged = merge_append(pool, add, &number_schema(&["A"]), &number_schema(&["A"])).unwrap();
    assert!(json_equal(&merged, &obj(vec![("A", nums(&["1.0", "2.0", "3.0", "4.0", "5.0"]))])));
}

#[test]
fn execute_wasm_refuses_wrong_digest() {
    let rc = receipt("p", "w_compute_mean");
    let res = execute_wasm(Some(&rc), "p", b"{}", braces_module(), &"0".repeat(64), b"{}");
    match res {
        Err(e) => {
            assert!(matches!(e, RouterError::Fetch(FetchError::HashMismatch { .. })));
            assert_eq!(e.kind(), ErrorKind::IntegrityVerification);
            assert_eq!(e.kind().name(), "IntegrityVerification");
            assert_eq!(e.http_status(), 500);
        }
        Ok(_) => panic!("a module with the wrong digest ran"),
    }
}

#[test]
fn execute_wasm_runs_authenticated_module() {
    let r = root();
    let rc = receipt("p", "w_compute_mean");
    let blob = seal_data(&r, br#"{"A":[1]}"#).unwrap();
    let data = open_pool(&r, Some(&rc), "p", Operation::ExecuteWasm, &blob).unwrap();
    let m = braces_module();
    let digest = String::from_utf8(to_hex(&sha2_digest(&m))).unwrap();
    let out = execute_wasm(Some(&rc), "p", &data, m, &digest, b"{}").unwrap();
    assert_eq!(out, b"{}".to_vec());
}

#[test]
fn execute_wasm_surfaces_buffer_too_small() {
    let r = root();
    let rc = receipt("p", "w_compute_mean");
    let blob = seal_data(&r, b"{}").unwrap();
    let data = open_pool(&r, Some(&rc), "p", Operation::ExecuteWasm, &blob).unwrap();
    let m = status_module(4);
    let digest = String::from_utf8(to_hex(&sha2_digest(&m))).unwrap();
    let res = execute_wasm(Some(&rc), "p", &data, m, &digest, b"{}");
    assert!(matches!(res, Err(RouterError::Wasm(WasmError::Status(WasmErrorCode::OutputBufferTooSmall)))));
}

#[test]
fn prepare_script_hands_back_script_and_data() {
    let r = root();
    let rc = receipt("p", "py_compute_mean");
    let blob = seal_data(&r, b"{\"A\":[1]}").unwrap();
    let (code, data) = prepare_script(&r, Some(&rc), "p", &blob, b"abc".to_vec(), ABC_SHA256).unwrap();
    assert_eq!(code, b"abc".to_vec());
    assert_eq!(data, b"{\"A\":[1]}".to_vec());
    let wrong = prepare_script(&r, Some(&rc), "p", &blob, b"abd".to_vec(), ABC_SHA256);
    assert!(matches!(wrong, Err(RouterError::Fetch(FetchError::HashMismatch { .. }))));
}

#[test]
fn error_kinds_and_statuses() {
    assert_eq!(RouterError::Unauthorized.kind(), ErrorKind::Authorization);
    assert_eq!(RouterError::Unauthorized.http_status(), 403);
    assert_eq!(RouterError::PoolExists.http_status(), 409);
    assert_eq!(RouterError::Merge(MergeError::MergeShape).http_status(), 400);
    assert_eq!(RouterError::Seal(SealError::SealedIntegrity).kind(), ErrorKind::IntegrityVerification);
    assert_eq!(RouterError::Seal(SealError::InvalidRootLength).kind(), ErrorKind::Configuration);
    assert_eq!(RouterError::Fetch(FetchError::TrustStore).kind(), ErrorKind::Resource);
    assert_eq!(RouterError::Wasm(WasmError::AbiMissing).kind(), ErrorKind::Execution);
    assert_eq!(RouterError::Wasm(WasmError::AbiMissing).http_status(), 500);
}

fn sha2_digest(b: &[u8]) -> Vec<u8> {
    Sha256::digest(b).to_vec()
}
