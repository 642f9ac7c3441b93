use vstd::prelude::*;

use crate::wasm_status::{status_of, WasmErrorCode};
use vstd::pervasive::unreached;
use wasmi::{Engine, Instance, Linker, Memory, MemoryType, Module, Store, Val};

verus! {

/// Bytes of a WebAssembly page.
pub const PAGE_SIZE: u64 = 65536;

/// Pages of the linear memory that each run starts with.
pub const INITIAL_PAGES: u32 = 17;

/// Bytes of the output buffer offered to the module.
pub const OUTPUT_SIZE: u32 = 1048576;

/// Largest address that an `i32` argument of the ABI can carry.
pub const MAX_ADDRESS: u64 = 2147483647;

/// Failures of running a module.
#[derive(Debug)]
pub enum WasmError {
    /// Data, schema and output buffer do not fit the 32-bit address space of the ABI.
    InputTooLarge,
    /// The module does not compile.
    Compile(String),
    /// The module's imports cannot be satisfied, its data does not fit the
    /// memory, or it declares a start function.
    Instantiate(String),
    /// The module exports no function `exec`.
    AbiMissing,
    /// The call of `exec` trapped, or `exec` does not take seven `i32` arguments.
    WasmTrap(String),
    /// `exec` returned something other than one `i32`.
    InvalidReturn,
    /// `exec` returned a nonzero status.
    Status(WasmErrorCode),
    /// The length the module wrote is negative or exceeds the output buffer.
    OutputLength(i32),
}

/// Where the inputs, the output buffer and the output-length cell lie in
/// linear memory.
#[derive(Debug, Clone, Copy, PartialEq, Eq, Structural)]
pub struct AbiLayout {
    pub data_ptr: u32,
    pub data_len: u32,
    pub schema_ptr: u32,
    pub schema_len: u32,
    pub output_ptr: u32,
    pub output_size: u32,
    pub output_len_ptr: u32,
    /// First byte past the output-length cell.
    pub end: u32,
}

/// The inputs and the buffers fit below the ABI's largest address.
pub open spec fn layout_fits(data_len: nat, schema_len: nat) -> bool {
    data_len + schema_len + OUTPUT_SIZE + 4 <= MAX_ADDRESS
}

/// The layout of a run: data at 0, the schema right after, then the output
/// buffer, then the 4-byte output-length cell.
pub open spec fn layout_of(data_len: nat, schema_len: nat) -> AbiLayout {
    AbiLayout {
        data_ptr: 0,
        data_len: data_len as u32,
        schema_ptr: data_len as u32,
        schema_len: schema_len as u32,
        output_ptr: (data_len + schema_len) as u32,
        output_size: OUTPUT_SIZE,
        output_len_ptr: (data_len + schema_len + OUTPUT_SIZE) as u32,
        end: (data_len + schema_len + OUTPUT_SIZE + 4) as u32,
    }
}

/// Whole pages to add so that a memory of `current` bytes reaches `end` bytes.
pub open spec fn pages_needed(end: nat, current: nat) -> nat {
    if end > current {
        ((end - current + PAGE_SIZE - 1) / PAGE_SIZE as int) as nat
    } else {
        0
    }
}

/// What a status returned by `exec` means for the run.
pub open spec fn status_outcome(code: i32) -> Result<(), WasmErrorCode> {
    if code == 0 {
        Ok(())
    } else {
        Err(status_of(code))
    }
}

/// The little-endian `i32` held by four bytes.
pub open spec fn i32_from_le(b: Seq<u8>) -> int {
    let u = b[0] as int + 256 * b[1] as int + 65536 * b[2] as int + 16777216 * b[3] as int;
    if u >= 2147483648 {
        u - 4294967296
    } else {
        u
    }
}

/// Computes the layout of a run, if the inputs fit the ABI.
pub fn abi_layout(data_len: usize, schema_len: usize) -> (r: Option<AbiLayout>)
    ensures
        r is Some <==> layout_fits(data_len as nat, schema_len as nat),
        r matches Some(l) ==> l == layout_of(data_len as nat, schema_len as nat),
{
    if data_len as u64 > MAX_ADDRESS || schema_len as u64 > MAX_ADDRESS {
        return None;
    }
    let data_len = data_len as u64;
    let schema_len = schema_len as u64;
    if data_len + schema_len + OUTPUT_SIZE as u64 + 4 > MAX_ADDRESS {
        return None;
    }
    let output_ptr = (data_len + schema_len) as u32;
    Some(
        AbiLayout {
            data_ptr: 0,
            data_len: data_len as u32,
            schema_ptr: data_len as u32,
            schema_len: schema_len as u32,
            output_ptr,
            output_size: OUTPUT_SIZE,
            output_len_ptr: output_ptr + OUTPUT_SIZE,
            end: output_ptr + OUTPUT_SIZE + 4,
        },
    )
}

impl AbiLayout {
    /// The seven arguments of `exec`, in ABI order.
    pub fn args(&self) -> (r: Vec<i32>)
        requires
            self.end <= MAX_ADDRESS,
            self.data_ptr <= self.schema_ptr <= self.output_ptr <= self.output_len_ptr < self.end,
            self.data_len <= self.end,
            self.schema_len <= self.end,
            self.output_size <= self.end,
        ensures
            r@ == seq![
                self.data_ptr as i32,
                self.data_len as i32,
                self.schema_ptr as i32,
                self.schema_len as i32,
                self.output_ptr as i32,
                self.output_size as i32,
                self.output_len_ptr as i32,
            ],
    {
        let mut v: Vec<i32> = Vec::new();
        v.push(self.data_ptr as i32);
        v.push(self.data_len as i32);
        v.push(self.schema_ptr as i32);
        v.push(self.schema_len as i32);
        v.push(self.output_ptr as i32);
        v.push(self.output_size as i32);
        v.push(self.output_len_ptr as i32);
        v
    }
}

/// Pages to add so that a memory of `current` bytes reaches `end` bytes,
/// rounded up to whole pages.
pub fn pages_to_grow(end: u64, current: u64) -> (r: u64)
    ensures
        r == pages_needed(end as nat, current as nat),
        current + r * PAGE_SIZE >= end,
        end > current ==> r * PAGE_SIZE < end - current + PAGE_SIZE,
        end <= current ==> r == 0,
{
    if end > current {
        let missing = end - current;
        let r = missing / PAGE_SIZE + if missing % PAGE_SIZE == 0 {
            0
        } else {
            1
        };
        assert(r == (missing + PAGE_SIZE - 1) / PAGE_SIZE as int) by (nonlinear_arith)
            requires
                missing > 0,
                r == missing / 65536 + if missing % 65536 == 0 {
                    0int
                } else {
                    1int
                },
        ;
        assert(r * PAGE_SIZE >= missing && r * PAGE_SIZE < missing + PAGE_SIZE) by (nonlinear_arith)
            requires
                r == missing / 65536 + if missing % 65536 == 0 {
                    0int
                } else {
                    1int
                },
        ;
        r
    } else {
        0
    }
}

/// Maps the status returned by `exec` to the outcome of the run: zero is
/// success, every other code is a typed error carrying that code.
pub fn exec_outcome(code: i32) -> (r: Result<(), WasmErrorCode>)
    ensures
        r == status_outcome(code),
        r matches Err(s) ==> s.spec_code() == code,
{
    if code == WasmErrorCode::Success.code() {
        Ok(())
    } else {
        Err(WasmErrorCode::from_code(code))
    }
}

/// Reads the output length that the module wrote: a little-endian `i32`,
/// which must lie between 0 and the size of the output buffer.
pub fn output_length(cell: &[u8], output_size: u32) -> (r: Result<u32, i32>)
    requires
        cell@.len() == 4,
    ensures
        match r {
            Ok(n) => n as int == i32_from_le(cell@) && n <= output_size,
            Err(v) => v as int == i32_from_le(cell@) && (v < 0 || v > output_size),
        },
{
    let u: u32 = cell[0] as u32 + 256 * cell[1] as u32 + 65536 * cell[2] as u32 + 16777216
        * cell[3] as u32;
    let v: i32 = if u >= 2147483648 {
        (u as i64 - 4294967296) as i32
    } else {
        u as i32
    };
    if v < 0 || v as u32 > output_size {
        Err(v)
    } else {
        Ok(v as u32)
    }
}

/// Largest linear memory, in bytes: 65536 pages.
pub const MAX_MEMORY: u64 = 4294967296;

/// Largest linear memory, in pages.
pub const MAX_PAGES: u32 = 65536;

/// A compiled and instantiated module with its own store and linear memory.
/// Every handle inside belongs to the store beside it.
#[verifier::external_body]
pub struct Sandbox {
    store: Store<()>,
    memory: Memory,
    instance: Instance,
}

/// The bytes of the sandbox's linear memory.
pub uninterp spec fn sandbox_memory(sb: Sandbox) -> Seq<u8>;

/// The module bytes that the sandbox was instantiated from.
pub uninterp spec fn sandbox_module(sb: Sandbox) -> Seq<u8>;

/// The bytes are a valid WebAssembly module.
pub uninterp spec fn wasm_compiles(wasm: Seq<u8>) -> bool;

/// The module instantiates when a memory of `pages` pages is its only
/// definable import, under `module`.`field`: every import resolves and every
/// data segment fits.
pub uninterp spec fn wasm_links(wasm: Seq<u8>, module: Seq<char>, field: Seq<char>, pages: nat) -> bool;

/// The module declares a start function.
pub uninterp spec fn wasm_has_start(wasm: Seq<u8>) -> bool;

/// The imported memory of `pages` zeroed pages once instantiation has
/// written the module's data segments into it.
pub uninterp spec fn wasm_initial_memory(
    wasm: Seq<u8>,
    module: Seq<char>,
    field: Seq<char>,
    pages: nat,
) -> Seq<u8>;

/// The module exports a function under `name`.
pub uninterp spec fn wasm_exports_func(wasm: Seq<u8>, name: Seq<char>) -> bool;

/// Relies on wasmi's `Engine::default`, `Store::new`, `Module::new`,
/// `MemoryType::new`, `Memory::new`, `Linker::new`, `Linker::define`,
/// `Linker::instantiate` and `InstancePre::ensure_no_start`, all on one engine
/// and one store: compiles, offers one fresh zeroed memory as the only import,
/// instantiates (writing data segments) and refuses a start function without
/// running it. A memory without maximum and without resource limiter is
/// always created.
#[verifier::external_body]
fn instantiate_sandbox(wasm: &[u8], module: &str, field: &str, pages: u32)
    -> (r: Result<Sandbox, WasmError>)
    requires
        pages <= MAX_PAGES,
    ensures
        r is Ok <==> (wasm_compiles(wasm@) && wasm_links(wasm@, module@, field@, pages as nat) && !wasm_has_start(wasm@)),
        (r is Err && wasm_compiles(wasm@)) ==> (r matches Err(WasmError::Instantiate(_))),
        (r is Err && !wasm_compiles(wasm@)) ==> (r matches Err(WasmError::Compile(_))),
        r matches Ok(sb) ==> sandbox_module(sb) == wasm@ && sandbox_memory(sb)
            == wasm_initial_memory(wasm@, module@, field@, pages as nat) && sandbox_memory(sb).len()
            == pages * PAGE_SIZE,
{
    let engine = Engine::default();
    let compiled = Module::new(&engine, wasm).map_err(|e| WasmError::Compile(e.to_string()))?;
    let mut store = Store::new(&engine, ());
    let mut linker = Linker::new(&engine);
    let made = (|| {
        let memory = Memory::new(&mut store, MemoryType::new(pages, None)?)?;
        linker.define(module, field, memory)?;
        let instance = linker.instantiate(&mut store, &compiled)?.ensure_no_start(&mut store)?;
        Ok::<_, wasmi::Error>((memory, instance))
    })();
    let (memory, instance) = made.map_err(|e| WasmError::Instantiate(e.to_string()))?;
    Ok(Sandbox { store, memory, instance })
}

/// Relies on wasmi's `Memory::data_size`: the memory's length in bytes.
#[verifier::external_body]
fn memory_size(sb: &Sandbox) -> (r: usize)
    ensures
        r == sandbox_memory(*sb).len(),
{
    sb.memory.data_size(&sb.store)
}

/// Relies on wasmi's `Memory::grow`: with no maximum and no resource limiter,
/// it adds `pages` zeroed pages unless the memory would exceed 65536 pages,
/// and otherwise changes nothing.
#[verifier::external_body]
fn grow_memory(sb: &mut Sandbox, pages: u32) -> (r: Result<(), String>)
    ensures
        sandbox_module(*final(sb)) == sandbox_module(*old(sb)),
        r is Ok <==> sandbox_memory(*old(sb)).len() + pages * PAGE_SIZE <= MAX_MEMORY,
        r is Ok ==> sandbox_memory(*final(sb)) == sandbox_memory(*old(sb)) + Seq::new(
            (pages * PAGE_SIZE) as nat,
            |i: int| 0u8,
        ),
        r is Err ==> sandbox_memory(*final(sb)) == sandbox_memory(*old(sb)),
{
    sb.memory.grow(&mut sb.store, pages).map(|_| ()).map_err(|e| e.to_string())
}

/// Relies on wasmi's `Memory::write`: copies `bytes` to `offset` when that
/// range lies inside the memory, and otherwise changes nothing.
#[verifier::external_body]
fn write_memory(sb: &mut Sandbox, offset: usize, bytes: &[u8]) -> (r: Result<(), String>)
    requires
        offset + bytes@.len() <= usize::MAX,
    ensures
        sandbox_module(*final(sb)) == sandbox_module(*old(sb)),
        r is Ok <==> offset + bytes@.len() <= sandbox_memory(*old(sb)).len(),
        r is Ok ==> sandbox_memory(*final(sb)) == overwrite(
            sandbox_memory(*old(sb)),
            offset as int,
            bytes@,
        ),
        r is Err ==> sandbox_memory(*final(sb)) == sandbox_memory(*old(sb)),
{
    sb.memory.write(&mut sb.store, offset, bytes).map_err(|e| e.to_string())
}

/// Relies on wasmi's `Memory::read`: the `len` bytes at `offset`, when that
/// range lies inside the memory.
#[verifier::external_body]
fn read_memory(sb: &Sandbox, offset: usize, len: usize) -> (r: Result<Vec<u8>, String>)
    requires
        offset + len <= usize::MAX,
    ensures
        r is Ok <==> offset + len <= sandbox_memory(*sb).len(),
        r matches Ok(b) ==> b@ == sandbox_memory(*sb).subrange(offset as int, offset + len),
{
    let mut buf = vec![0u8; len];
    sb.memory.read(&sb.store, offset, &mut buf).map_err(|e| e.to_string())?;
    Ok(buf)
}

/// Relies on wasmi's `Instance::get_func`: whether the module exports a
/// function under `name`.
#[verifier::external_body]
fn exports_func(sb: &Sandbox, name: &str) -> (r: bool)
    ensures
        r == wasm_exports_func(sandbox_module(*sb), name@),
{
    sb.instance.get_func(&sb.store, name).is_some()
}

/// Relies on wasmi's `Instance::get_func` and `Func::call`: calls the export
/// with `i32` arguments and one result slot, and yields the `i32` result if
/// the function returns one. What the module computes is not stated (float
/// results may differ between machines); a run leaves the module as it was
/// and never shrinks linear memory.
#[verifier::external_body]
fn call_export(sb: &mut Sandbox, name: &str, args: &[i32]) -> (r: Result<Option<i32>, String>)
    ensures
        sandbox_module(*final(sb)) == sandbox_module(*old(sb)),
        sandbox_memory(*final(sb)).len() >= sandbox_memory(*old(sb)).len(),
{
    let func = sb.instance.get_func(&sb.store, name).ok_or_else(|| name.to_string())?;
    let params: Vec<Val> = args.iter().map(|a| Val::I32(*a)).collect();
    let mut results = [Val::I32(0)];
    func.call(&mut sb.store, &params, &mut results).map_err(|e| e.to_string())?;
    match results[0] {
        Val::I32(code) => Ok(Some(code)),
        _ => Ok(None),
    }
}

/// `m` with `bytes` written at `offset`.
pub open spec fn overwrite(m: Seq<u8>, offset: int, bytes: Seq<u8>) -> Seq<u8> {
    m.subrange(0, offset) + bytes + m.subrange(offset + bytes.len(), m.len() as int)
}

/// The arguments of `exec` for a layout, in ABI order.
pub open spec fn layout_args(l: AbiLayout) -> Seq<i32> {
    seq![
        l.data_ptr as i32,
        l.data_len as i32,
        l.schema_ptr as i32,
        l.schema_len as i32,
        l.output_ptr as i32,
        l.output_size as i32,
        l.output_len_ptr as i32,
    ]
}

/// The memory handed to `exec`: the instantiated memory, grown by whole zeroed
/// pages to cover the layout, with the data and then the schema written at
/// the start.
pub open spec fn prepared_memory(m0: Seq<u8>, data: Seq<u8>, schema: Seq<u8>) -> Seq<u8> {
    let l = layout_of(data.len(), schema.len());
    let grown = m0 + Seq::new((pages_needed(l.end as nat, m0.len()) * PAGE_SIZE) as nat, |i: int| 0u8);
    overwrite(overwrite(grown, 0, data), data.len() as int, schema)
}

/// How a run ends.
pub enum RunOutcome {
    InputTooLarge,
    Compile,
    Instantiate,
    AbiMissing,
    WasmTrap,
    InvalidReturn,
    Status(WasmErrorCode),
    OutputLength(int),
    Output(Seq<u8>),
}

/// How a run ends before `exec` is called, if it does: the checks of the
/// host procedure, in order. `None` when `exec` gets called.
pub open spec fn pre_call_outcome(wasm: Seq<u8>, data: Seq<u8>, schema: Seq<u8>) -> Option<RunOutcome> {
    if !layout_fits(data.len(), schema.len()) {
        Some(RunOutcome::InputTooLarge)
    } else if !wasm_compiles(wasm) {
        Some(RunOutcome::Compile)
    } else if !wasm_links(wasm, "env"@, "memory"@, INITIAL_PAGES as nat) || wasm_has_start(wasm) {
        Some(RunOutcome::Instantiate)
    } else if !wasm_exports_func(wasm, "exec"@) {
        Some(RunOutcome::AbiMissing)
    } else {
        None
    }
}

/// The memory that `exec` is called with.
pub open spec fn call_memory(wasm: Seq<u8>, data: Seq<u8>, schema: Seq<u8>) -> Seq<u8> {
    prepared_memory(
        wasm_initial_memory(wasm, "env"@, "memory"@, INITIAL_PAGES as nat),
        data,
        schema,
    )
}

/// How a run ends once `exec` has returned status `code`, leaving `memory`:
/// a nonzero status is reported as such and nothing is read; on zero the
/// length cell is read, and that many bytes of the output buffer.
pub open spec fn finish_outcome(code: i32, memory: Seq<u8>, l: AbiLayout) -> RunOutcome {
    if code != 0 {
        RunOutcome::Status(status_of(code))
    } else {
        let n = i32_from_le(memory.subrange(l.output_len_ptr as int, l.output_len_ptr + 4));
        if 0 <= n <= l.output_size {
            RunOutcome::Output(memory.subrange(l.output_ptr as int, l.output_ptr + n))
        } else {
            RunOutcome::OutputLength(n)
        }
    }
}

/// What a run may end in, whatever `exec` computes: the checks before the call
/// decide exactly; after it, a trap, a non-`i32` result, or the outcome of a
/// status and a memory no shorter than the one `exec` was called with.
pub open spec fn run_allowed(wasm: Seq<u8>, data: Seq<u8>, schema: Seq<u8>, o: RunOutcome) -> bool {
    match pre_call_outcome(wasm, data, schema) {
        Some(pre) => o == pre,
        None => o is WasmTrap || o is InvalidReturn || exists|code: i32, m: Seq<u8>|
            m.len() >= call_memory(wasm, data, schema).len() && o == finish_outcome(
                code,
                m,
                layout_of(data.len(), schema.len()),
            ),
    }
}

/// The layout's regions lie in order inside `[0, end)`.
pub open spec fn layout_ordered(l: AbiLayout) -> bool {
    &&& l.output_ptr + l.output_size <= l.output_len_ptr
    &&& l.output_len_ptr + 4 == l.end
}

/// The outcome that an error reports.
pub open spec fn error_outcome(e: WasmError) -> RunOutcome {
    match e {
        WasmError::InputTooLarge => RunOutcome::InputTooLarge,
        WasmError::Compile(_) => RunOutcome::Compile,
        WasmError::Instantiate(_) => RunOutcome::Instantiate,
        WasmError::AbiMissing => RunOutcome::AbiMissing,
        WasmError::WasmTrap(_) => RunOutcome::WasmTrap,
        WasmError::InvalidReturn => RunOutcome::InvalidReturn,
        WasmError::Status(s) => RunOutcome::Status(s),
        WasmError::OutputLength(n) => RunOutcome::OutputLength(n as int),
    }
}

/// The outcome that a result reports.
pub open spec fn result_outcome(r: Result<Vec<u8>, WasmError>) -> RunOutcome {
    match r {
        Ok(out) => RunOutcome::Output(out@),
        Err(e) => error_outcome(e),
    }
}

/// Finishes a run once `exec` has returned `code`: a nonzero status becomes
/// that typed error and the output is never read; on zero, the length that
/// the module wrote is checked against the buffer and the output read.
pub fn finish_run(sb: &Sandbox, code: i32, layout: &AbiLayout) -> (r: Result<Vec<u8>, WasmError>)
    requires
        layout_ordered(*layout),
        layout.end <= sandbox_memory(*sb).len(),
    ensures
        result_outcome(r) == finish_outcome(code, sandbox_memory(*sb), *layout),
{
    if let Err(s) = exec_outcome(code) {
        return Err(WasmError::Status(s));
    }
    let cell = match read_memory(sb, layout.output_len_ptr as usize, 4) {
        Ok(c) => c,
        Err(_) => return unreached(),
    };
    let len = match output_length(cell.as_slice(), layout.output_size) {
        Ok(n) => n,
        Err(v) => return Err(WasmError::OutputLength(v)),
    };
    match read_memory(sb, layout.output_ptr as usize, len as usize) {
        Ok(out) => Ok(out),
        Err(_) => unreached(),
    }
}

/// Runs a module's `exec` over serialised data and schema, and returns the
/// bytes that it wrote to the output buffer.
///
/// A fresh engine, store and memory serve each call; the module may import
/// nothing but the memory and may not have a start function. `exec` is called
/// with the arguments of `layout_of` over a memory holding data and schema; a
/// nonzero status is returned as that status, and the output is then never read.
pub fn wasm_execution(wasm: &[u8], data: &[u8], schema: &[u8]) -> (r: Result<Vec<u8>, WasmError>)
    ensures
        run_allowed(wasm@, data@, schema@, result_outcome(r)),
{
    let layout = match abi_layout(data.len(), schema.len()) {
        Some(l) => l,
        None => return Err(WasmError::InputTooLarge),
    };
    let mut sb = instantiate_sandbox(wasm, "env", "memory", INITIAL_PAGES)?;
    let ghost m0 = sandbox_memory(sb);
    let current = memory_size(&sb);
    let pages = pages_to_grow(layout.end as u64, current as u64);
    proof {
        assert(Seq::new((pages * PAGE_SIZE) as nat, |i: int| 0u8) =~= Seq::new(
            (pages_needed(layout.end as nat, m0.len()) * PAGE_SIZE) as nat,
            |i: int| 0u8,
        ));
    }
    if pages > 0 {
        if grow_memory(&mut sb, pages as u32).is_err() {
            return unreached();
        }
    } else {
        assert(m0 + Seq::new(0, |i: int| 0u8) =~= m0);
    }
    if write_memory(&mut sb, layout.data_ptr as usize, data).is_err() {
        return unreached();
    }
    if write_memory(&mut sb, layout.schema_ptr as usize, schema).is_err() {
        return unreached();
    }
    assert(sandbox_memory(sb) == call_memory(wasm@, data@, schema@));
    if !exports_func(&sb, "exec") {
        return Err(WasmError::AbiMissing);
    }
    let args = layout.args();
    let code = match call_export(&mut sb, "exec", args.as_slice()) {
        Ok(Some(c)) => c,
        Ok(None) => return Err(WasmError::InvalidReturn),
        Err(e) => return Err(WasmError::WasmTrap(e)),
    };
    let ghost m = sandbox_memory(sb);
    let r = finish_run(&sb, code, &layout);
    assert(m.len() >= call_memory(wasm@, data@, schema@).len() && result_outcome(r)
        == finish_outcome(code, m, layout_of(data@.len(), schema@.len())));
    r
}

} // verus!
