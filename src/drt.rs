use vstd::prelude::*;

use vstd::string::StrSliceExecFns;

verus! {

/// The operation that a Data Rights Token entitles its bearer to.
#[derive(Debug, Clone, Copy, PartialEq, Eq, Structural)]
pub enum DrtKind {
    /// Add rows to a pool.
    Append,
    /// Run a WebAssembly aggregation over a pool.
    WasmAggregate,
    /// Run a script aggregation over a pool.
    ScriptAggregate,
}

/// `s` begins with `p`.
pub open spec fn starts_with(s: Seq<char>, p: Seq<char>) -> bool {
    p.len() <= s.len() && s.subrange(0, p.len() as int) == p
}

/// The kind that a token type names: `append`, or a type that begins with
/// `w_compute_` or `py_compute_`. Any other type names no kind.
pub open spec fn kind_of_type(drt_type: Seq<char>) -> Option<DrtKind> {
    if drt_type == "append"@ {
        Some(DrtKind::Append)
    } else if starts_with(drt_type, "w_compute_"@) {
        Some(DrtKind::WasmAggregate)
    } else if starts_with(drt_type, "py_compute_"@) {
        Some(DrtKind::ScriptAggregate)
    } else {
        None
    }
}

/// A redemption reported by the token program: a token of type `drt_type`
/// was burned for pool `pool_id`.
#[derive(Debug)]
pub struct DrtReceipt {
    pub pool_id: String,
    pub drt_type: String,
}

fn has_prefix(s: &str, p: &str) -> (r: bool)
    ensures
        r == starts_with(s@, p@),
{
    let n = p.unicode_len();
    if n > s.unicode_len() {
        return false;
    }
    let mut i: usize = 0;
    while i < n
        invariant
            n == p@.len() <= s@.len(),
            i <= n,
            s@.subrange(0, i as int) == p@.subrange(0, i as int),
        decreases n - i,
    {
        if s.get_char(i) != p.get_char(i) {
            assert(s@.subrange(0, n as int)[i as int] != p@[i as int]);
            return false;
        }
        i = i + 1;
        assert(s@.subrange(0, i as int) =~= p@.subrange(0, i as int));
    }
    assert(p@.subrange(0, n as int) =~= p@);
    true
}

fn same_text(s: &str, p: &str) -> (r: bool)
    ensures
        r == (s@ == p@),
{
    if s.unicode_len() != p.unicode_len() {
        return false;
    }
    let same = has_prefix(s, p);
    proof {
        if same {
            assert(s@ =~= s@.subrange(0, p@.len() as int));
        }
        if s@ == p@ {
            assert(s@.subrange(0, p@.len() as int) =~= p@);
        }
    }
    same
}

/// Derives the kind of operation from a token type, by the naming convention
/// of the token program.
pub fn get_execution_type(drt_type: &str) -> (r: Option<DrtKind>)
    ensures
        r == kind_of_type(drt_type@),
{
    if same_text(drt_type, "append") {
        Some(DrtKind::Append)
    } else if has_prefix(drt_type, "w_compute_") {
        Some(DrtKind::WasmAggregate)
    } else if has_prefix(drt_type, "py_compute_") {
        Some(DrtKind::ScriptAggregate)
    } else {
        None
    }
}

/// The receipt entitles its bearer to an operation of `kind` on pool `pool_id`.
pub open spec fn receipt_grants(receipt: DrtReceipt, pool_id: Seq<char>, kind: DrtKind) -> bool {
    receipt.pool_id@ == pool_id && kind_of_type(receipt.drt_type@) == Some(kind)
}

/// Whether a redemption receipt authorises an operation of `kind` on `pool_id`.
pub fn check_receipt(receipt: &DrtReceipt, pool_id: &str, kind: DrtKind) -> (r: bool)
    ensures
        r == receipt_grants(*receipt, pool_id@, kind),
{
    same_text(receipt.pool_id.as_str(), pool_id) && match get_execution_type(
        receipt.drt_type.as_str(),
    ) {
        Some(k) => k == kind,
        None => false,
    }
}

} // verus!
