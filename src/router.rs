use vstd::prelude::*;

use crate::drt::{check_receipt, receipt_grants, DrtKind, DrtReceipt};
use crate::fetch::{digest_matches, sha256_digest, hex_lower, verify_artifact, FetchError};
use crate::json::{
    append_json, append_tables, is_valid_object, merge_defined, schemas_compatible,
    schemas_match, table_view, valid_object, Json, MergeError,
};
use crate::seal::{seal_data, unseal_data, unseal_result, SealError, SealingRoot, GCM_MAX_PLAINTEXT};
use crate::wasm_host::{error_outcome, run_allowed, wasm_execution, RunOutcome, WasmError};
use vstd::string::StringSliceAdditionalSpecFns;

verus! {

/// The operations that the enclave offers behind a token redemption.
#[derive(Debug, Clone, Copy, PartialEq, Eq, Structural)]
pub enum Operation {
    CreatePool,
    AppendData,
    ExecuteWasm,
    ExecuteScript,
}

/// The token kind that an operation must be paid for with: the two
/// operations that change a pool take an append token.
pub open spec fn kind_for(op: Operation) -> DrtKind {
    match op {
        Operation::CreatePool => DrtKind::Append,
        Operation::AppendData => DrtKind::Append,
        Operation::ExecuteWasm => DrtKind::WasmAggregate,
        Operation::ExecuteScript => DrtKind::ScriptAggregate,
    }
}

/// Failures of an operation, as the router reports them.
#[derive(Debug)]
pub enum RouterError {
    /// No redemption receipt, or one for another pool or another kind.
    Unauthorized,
    /// A pool with that identifier exists already.
    PoolExists,
    Seal(SealError),
    Merge(MergeError),
    Fetch(FetchError),
    Wasm(WasmError),
    /// The interpreter failed, or its result was not a JSON string.
    ScriptExec(String),
    /// A caller-supplied document is not well-formed JSON of the expected shape.
    Format(String),
    /// Storage or scratch I/O failed.
    Resource(String),
}

/// The families of errors, as the boundary names them.
#[derive(Debug, Clone, Copy, PartialEq, Eq, Structural)]
pub enum ErrorKind {
    Authorization,
    IntegrityVerification,
    Format,
    Resource,
    Execution,
    Configuration,
}

pub open spec fn kind_of_error(e: RouterError) -> ErrorKind {
    match e {
        RouterError::Unauthorized => ErrorKind::Authorization,
        RouterError::PoolExists => ErrorKind::Format,
        RouterError::Seal(s) => match s {
            SealError::InvalidRootLength => ErrorKind::Configuration,
            SealError::RandomSource => ErrorKind::Resource,
            SealError::PlaintextTooLarge => ErrorKind::Format,
            SealError::SealedFormat => ErrorKind::Format,
            SealError::SealedIntegrity => ErrorKind::IntegrityVerification,
        },
        RouterError::Merge(_) => ErrorKind::Format,
        RouterError::Fetch(f) => match f {
            FetchError::TrustStore => ErrorKind::Resource,
            FetchError::Network(_) => ErrorKind::Resource,
            FetchError::HashMismatch { .. } => ErrorKind::IntegrityVerification,
        },
        RouterError::Wasm(_) => ErrorKind::Execution,
        RouterError::ScriptExec(_) => ErrorKind::Execution,
        RouterError::Format(_) => ErrorKind::Format,
        RouterError::Resource(_) => ErrorKind::Resource,
    }
}

/// HTTP status of an error: 403 for authorization, 409 for a pool identifier
/// in use, 400 for a malformed request document, 500 for everything else.
pub open spec fn status_of_error(e: RouterError) -> u16 {
    match e {
        RouterError::Unauthorized => 403,
        RouterError::PoolExists => 409,
        RouterError::Merge(_) => 400,
        RouterError::Format(_) => 400,
        _ => 500,
    }
}

impl ErrorKind {
    /// The stable name of the kind in error bodies.
    pub fn name(&self) -> (r: &'static str)
        ensures
            r@ == match *self {
                ErrorKind::Authorization => "Authorization"@,
                ErrorKind::IntegrityVerification => "IntegrityVerification"@,
                ErrorKind::Format => "Format"@,
                ErrorKind::Resource => "Resource"@,
                ErrorKind::Execution => "Execution"@,
                ErrorKind::Configuration => "Configuration"@,
            },
    {
        match self {
            ErrorKind::Authorization => "Authorization",
            ErrorKind::IntegrityVerification => "IntegrityVerification",
            ErrorKind::Format => "Format",
            ErrorKind::Resource => "Resource",
            ErrorKind::Execution => "Execution",
            ErrorKind::Configuration => "Configuration",
        }
    }
}

impl RouterError {
    /// The family of this error.
    pub fn kind(&self) -> (r: ErrorKind)
        ensures
            r == kind_of_error(*self),
    {
        match self {
            RouterError::Unauthorized => ErrorKind::Authorization,
            RouterError::PoolExists => ErrorKind::Format,
            RouterError::Seal(s) => match s {
                SealError::InvalidRootLength => ErrorKind::Configuration,
                SealError::RandomSource => ErrorKind::Resource,
                SealError::PlaintextTooLarge => ErrorKind::Format,
                SealError::SealedFormat => ErrorKind::Format,
                SealError::SealedIntegrity => ErrorKind::IntegrityVerification,
            },
            RouterError::Merge(_) => ErrorKind::Format,
            RouterError::Fetch(f) => match f {
                FetchError::TrustStore => ErrorKind::Resource,
                FetchError::Network(_) => ErrorKind::Resource,
                FetchError::HashMismatch { .. } => ErrorKind::IntegrityVerification,
            },
            RouterError::Wasm(_) => ErrorKind::Execution,
            RouterError::ScriptExec(_) => ErrorKind::Execution,
            RouterError::Format(_) => ErrorKind::Format,
            RouterError::Resource(_) => ErrorKind::Resource,
        }
    }

    /// The HTTP status that reports this error.
    pub fn http_status(&self) -> (r: u16)
        ensures
            r == status_of_error(*self),
    {
        match self {
            RouterError::Unauthorized => 403,
            RouterError::PoolExists => 409,
            RouterError::Merge(_) => 400,
            RouterError::Format(_) => 400,
            _ => 500,
        }
    }
}

/// The receipt is present and grants `op` on `pool_id`.
pub open spec fn authorized(receipt: Option<&DrtReceipt>, pool_id: Seq<char>, op: Operation) -> bool {
    receipt matches Some(rc) && receipt_grants(*rc, pool_id, kind_for(op))
}

/// Checks the redemption receipt for an operation on a pool.
pub fn authorize(receipt: Option<&DrtReceipt>, pool_id: &str, op: Operation) -> (r: Result<
    (),
    RouterError,
>)
    ensures
        r is Ok <==> authorized(receipt, pool_id@, op),
        r is Err ==> r matches Err(RouterError::Unauthorized),
{
    let kind = match op {
        Operation::CreatePool => DrtKind::Append,
        Operation::AppendData => DrtKind::Append,
        Operation::ExecuteWasm => DrtKind::WasmAggregate,
        Operation::ExecuteScript => DrtKind::ScriptAggregate,
    };
    match receipt {
        Some(rc) => {
            if check_receipt(rc, pool_id, kind) {
                Ok(())
            } else {
                Err(RouterError::Unauthorized)
            }
        },
        None => Err(RouterError::Unauthorized),
    }
}

/// Creates a pool: authorises, refuses an identifier in use, and seals the
/// initial document. The blob returned is what the store keeps.
pub fn create_pool(
    root: &SealingRoot,
    receipt: Option<&DrtReceipt>,
    pool_id: &str,
    pool_exists: bool,
    document: &[u8],
) -> (r: Result<Vec<u8>, RouterError>)
    requires
        root.wf(),
    ensures
        !authorized(receipt, pool_id@, Operation::CreatePool) <==> r matches Err(
            RouterError::Unauthorized,
        ),
        authorized(receipt, pool_id@, Operation::CreatePool) && pool_exists ==> r matches Err(
            RouterError::PoolExists,
        ),
        r matches Ok(blob) ==> !pool_exists && unseal_result(root@, blob@) == Ok::<
            Seq<u8>,
            SealError,
        >(document@),
        r matches Err(RouterError::Seal(e)) ==> e == SealError::RandomSource || e
            == SealError::PlaintextTooLarge,
        r matches Err(RouterError::Seal(SealError::PlaintextTooLarge)) ==> document@.len() > GCM_MAX_PLAINTEXT,
        authorized(receipt, pool_id@, Operation::CreatePool) && !pool_exists ==> (r is Ok || r matches Err(RouterError::Seal(_))),
        r matches Err(RouterError::PoolExists) ==> pool_exists,
{
    authorize(receipt, pool_id, Operation::CreatePool)?;
    if pool_exists {
        return Err(RouterError::PoolExists);
    }
    match seal_data(root, document) {
        Ok(blob) => Ok(blob),
        Err(e) => Err(RouterError::Seal(e)),
    }
}

/// Authorises `op` on a pool and unseals its blob.
pub fn open_pool(
    root: &SealingRoot,
    receipt: Option<&DrtReceipt>,
    pool_id: &str,
    op: Operation,
    blob: &[u8],
) -> (r: Result<Vec<u8>, RouterError>)
    requires
        root.wf(),
    ensures
        !authorized(receipt, pool_id@, op) <==> r matches Err(RouterError::Unauthorized),
        authorized(receipt, pool_id@, op) ==> match r {
            Ok(p) => unseal_result(root@, blob@) == Ok::<Seq<u8>, SealError>(p@),
            Err(RouterError::Seal(e)) => unseal_result(root@, blob@) == Err::<Seq<u8>, SealError>(
                e,
            ),
            _ => false,
        },
{
    authorize(receipt, pool_id, op)?;
    match unseal_data(root, blob) {
        Ok(p) => Ok(p),
        Err(e) => Err(RouterError::Seal(e)),
    }
}

/// The merge that `append_data` performs succeeds.
pub open spec fn append_allowed(
    current: Json,
    incoming: Json,
    pool_schema: Json,
    incoming_schema: Json,
) -> bool {
    schemas_match(pool_schema, incoming_schema) && valid_object(current) && merge_defined(
        current,
        incoming,
    )
}

/// Merges an incoming document into the pool's document, after checking that
/// the two schemas are compatible. Any failure is `MergeShape`, and the caller
/// then keeps the pool's blob as it was.
pub fn merge_append(current: Json, incoming: Json, pool_schema: &Json, incoming_schema: &Json) -> (r:
    Result<Json, RouterError>)
    ensures
        r is Ok <==> append_allowed(current, incoming, *pool_schema, *incoming_schema),
        r is Err ==> r matches Err(RouterError::Merge(MergeError::MergeShape)),
        r matches Ok(d) ==> valid_object(d) && table_view(d->Object_0@) == append_tables(
            table_view(current->Object_0@),
            table_view(incoming->Object_0@),
        ),
{
    if !schemas_compatible(pool_schema, incoming_schema) {
        return Err(RouterError::Merge(MergeError::MergeShape));
    }
    if !is_valid_object(&current) {
        return Err(RouterError::Merge(MergeError::MergeShape));
    }
    match append_json(current, incoming) {
        Ok(d) => Ok(d),
        Err(e) => Err(RouterError::Merge(e)),
    }
}

/// Schemas whose shapes differ make the append fail with `MergeShape`,
/// whatever the documents.
pub proof fn lemma_incompatible_schemas_refuse_append(
    current: Json,
    incoming: Json,
    pool_schema: Json,
    incoming_schema: Json,
)
    requires
        !schemas_match(pool_schema, incoming_schema),
    ensures
        !append_allowed(current, incoming, pool_schema, incoming_schema),
{
}

/// How a run reported through the router ends, when the module ran at all.
pub open spec fn routed_outcome(r: Result<Vec<u8>, RouterError>) -> Option<RunOutcome> {
    match r {
        Ok(out) => Some(RunOutcome::Output(out@)),
        Err(RouterError::Wasm(e)) => Some(error_outcome(e)),
        _ => None,
    }
}

/// Runs a WebAssembly aggregation over an unsealed pool document: authorises,
/// authenticates the downloaded module against its digest and runs it over
/// the document. A module whose digest differs is never instantiated.
pub fn execute_wasm(
    receipt: Option<&DrtReceipt>,
    pool_id: &str,
    data: &[u8],
    module: Vec<u8>,
    expected_sha256: &str,
    schema: &[u8],
) -> (r: Result<Vec<u8>, RouterError>)
    ensures
        !authorized(receipt, pool_id@, Operation::ExecuteWasm) <==> r matches Err(
            RouterError::Unauthorized,
        ),
        authorized(receipt, pool_id@, Operation::ExecuteWasm) && !digest_matches(
            module@,
            expected_sha256.spec_bytes(),
        ) ==> (r matches Err(RouterError::Fetch(FetchError::HashMismatch { found, .. })) && found@
            == hex_lower(sha256_digest(module@))),
        authorized(receipt, pool_id@, Operation::ExecuteWasm) && digest_matches(
            module@,
            expected_sha256.spec_bytes(),
        ) ==> (routed_outcome(r) matches Some(o) && run_allowed(module@, data@, schema@, o)),
{
    authorize(receipt, pool_id, Operation::ExecuteWasm)?;
    let module = match verify_artifact(module, expected_sha256) {
        Ok(m) => m,
        Err(e) => return Err(RouterError::Fetch(e)),
    };
    match wasm_execution(module.as_slice(), data, schema) {
        Ok(out) => Ok(out),
        Err(e) => Err(RouterError::Wasm(e)),
    }
}

/// Prepares a script aggregation over a pool: authorises, authenticates the
/// downloaded script against its digest and unseals the pool. What comes back
/// is the script and the pool document, for the interpreter.
pub fn prepare_script(
    root: &SealingRoot,
    receipt: Option<&DrtReceipt>,
    pool_id: &str,
    blob: &[u8],
    script: Vec<u8>,
    expected_sha256: &str,
) -> (r: Result<(Vec<u8>, Vec<u8>), RouterError>)
    requires
        root.wf(),
    ensures
        !authorized(receipt, pool_id@, Operation::ExecuteScript) <==> r matches Err(
            RouterError::Unauthorized,
        ),
        authorized(receipt, pool_id@, Operation::ExecuteScript) && !digest_matches(
            script@,
            expected_sha256.spec_bytes(),
        ) ==> r matches Err(RouterError::Fetch(FetchError::HashMismatch { .. })),
        authorized(receipt, pool_id@, Operation::ExecuteScript) && digest_matches(
            script@,
            expected_sha256.spec_bytes(),
        ) ==> match unseal_result(root@, blob@) {
            Ok(p) => (r matches Ok((code, data)) && code@ == script@ && data@ == p),
            Err(e) => (r matches Err(RouterError::Seal(e2)) && e2 == e),
        },
{
    authorize(receipt, pool_id, Operation::ExecuteScript)?;
    let script = match verify_artifact(script, expected_sha256) {
        Ok(s) => s,
        Err(e) => return Err(RouterError::Fetch(e)),
    };
    match unseal_data(root, blob) {
        Ok(data) => Ok((script, data)),
        Err(e) => Err(RouterError::Seal(e)),
    }
}

} // verus!
