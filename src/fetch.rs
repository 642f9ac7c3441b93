use vstd::prelude::*;

use sha2::{Digest, Sha256};
use vstd::string::StringSliceAdditionalSpecFns;

verus! {

/// Bytes of a SHA-256 digest.
pub const DIGEST_LEN: usize = 32;

/// SHA-256 digest of `data`.
pub uninterp spec fn sha256_digest(data: Seq<u8>) -> Seq<u8>;

/// What an artefact is run as.
#[derive(Debug, Clone, Copy, PartialEq, Eq, Structural)]
pub enum ArtifactKind {
    Wasm,
    Script,
}

/// Failures of fetching and authenticating an artefact.
#[derive(Debug)]
pub enum FetchError {
    /// The system trust anchors could not be read.
    TrustStore,
    /// The artefact could not be downloaded.
    Network(String),
    /// The artefact's digest differs from the one asked for. `found` holds the
    /// lowercase hex digest of what was received, as ASCII bytes.
    HashMismatch { expected: String, found: Vec<u8> },
}

/// `s` with every non-overlapping occurrence of `from`, taken left to right,
/// replaced by `to`.
pub open spec fn replace_all(s: Seq<char>, from: Seq<char>, to: Seq<char>) -> Seq<char>
    decreases s.len(),
{
    if from.len() == 0 || s.len() < from.len() {
        s
    } else if s.subrange(0, from.len() as int) == from {
        to + replace_all(s.subrange(from.len() as int, s.len() as int), from, to)
    } else {
        seq![s[0]] + replace_all(s.drop_first(), from, to)
    }
}

/// The raw-content address of a human-oriented repository address: the
/// repository host is swapped for its raw-content host, and each `/blob/`
/// segment becomes `/`.
pub open spec fn raw_url_of(url: Seq<char>) -> Seq<char> {
    replace_all(
        replace_all(url, "https://github.com"@, "https://raw.githubusercontent.com"@),
        "/blob/"@,
        "/"@,
    )
}

/// Lowercase hex digit of a nibble, as an ASCII byte.
pub open spec fn hex_digit(n: u8) -> u8 {
    if n < 10 {
        (48 + n) as u8
    } else {
        (87 + n) as u8
    }
}

/// Lowercase hex of `b`, two ASCII digits per byte, high nibble first.
pub open spec fn hex_lower(b: Seq<u8>) -> Seq<u8>
    decreases b.len(),
{
    if b.len() == 0 {
        Seq::empty()
    } else {
        hex_lower(b.drop_last()) + seq![hex_digit(b.last() / 16), hex_digit(b.last() % 16)]
    }
}

/// The artefact's digest is the one asked for.
pub open spec fn digest_matches(data: Seq<u8>, expected: Seq<u8>) -> bool {
    hex_lower(sha256_digest(data)) == expected
}

/// Relies on `str::replace`: every non-overlapping match of a non-empty
/// pattern, found left to right, is replaced.
#[verifier::external_body]
fn replace_str(s: &str, from: &str, to: &str) -> (r: String)
    requires
        from@.len() > 0,
    ensures
        r@ == replace_all(s@, from@, to@),
{
    s.replace(from, to)
}

/// Relies on sha2's `Sha256::digest`: the 32-byte SHA-256 digest of `data`.
#[verifier::external_body]
fn sha256(data: &[u8]) -> (r: Vec<u8>)
    ensures
        r@ == sha256_digest(data@),
        r@.len() == DIGEST_LEN,
{
    Sha256::digest(data).to_vec()
}

/// Rewrites a repository address to the address of its raw content.
pub fn raw_content_url(url: &str) -> (r: String)
    ensures
        r@ == raw_url_of(url@),
{
    let host = "https://github.com";
    let raw_host = "https://raw.githubusercontent.com";
    let blob = "/blob/";
    let slash = "/";
    proof {
        reveal_strlit("https://github.com");
        reveal_strlit("/blob/");
    }
    let swapped = replace_str(url, host, raw_host);
    replace_str(swapped.as_str(), blob, slash)
}

fn hex_nibble(n: u8) -> (r: u8)
    requires
        n < 16,
    ensures
        r == hex_digit(n),
{
    if n < 10 {
        48 + n
    } else {
        87 + n
    }
}

/// Lowercase hex of `b`, as ASCII bytes.
pub fn to_hex(b: &[u8]) -> (r: Vec<u8>)
    ensures
        r@ == hex_lower(b@),
{
    let mut out: Vec<u8> = Vec::new();
    let mut i: usize = 0;
    while i < b.len()
        invariant
            i <= b@.len(),
            out@ == hex_lower(b@.subrange(0, i as int)),
        decreases b.len() - i,
    {
        let x = b[i];
        out.push(hex_nibble(x / 16));
        out.push(hex_nibble(x % 16));
        proof {
            let p = b@.subrange(0, i + 1);
            assert(p.drop_last() =~= b@.subrange(0, i as int));
            assert(p.last() == x);
        }
        i = i + 1;
    }
    assert(b@.subrange(0, b@.len() as int) =~= b@);
    out
}

/// Compares two byte strings of equal length without stopping at the first
/// difference, so that the time taken does not depend on where they differ.
pub fn constant_time_eq(a: &[u8], b: &[u8]) -> (r: bool)
    ensures
        r == (a@ == b@),
{
    if a.len() != b.len() {
        return false;
    }
    let mut diff: u8 = 0;
    let mut i: usize = 0;
    assert(a@.subrange(0, 0) =~= b@.subrange(0, 0));
    while i < a.len()
        invariant
            i <= a@.len() == b@.len(),
            (diff == 0) == (a@.subrange(0, i as int) == b@.subrange(0, i as int)),
        decreases a.len() - i,
    {
        let x = a[i];
        let y = b[i];
        let d = diff | (x ^ y);
        proof {
            assert((d == 0) == (diff == 0 && x == y)) by (bit_vector)
                requires
                    d == diff | (x ^ y),
            ;
            assert(a@.subrange(0, i + 1) =~= a@.subrange(0, i as int).push(a@[i as int]));
            assert(b@.subrange(0, i + 1) =~= b@.subrange(0, i as int).push(b@[i as int]));
            if a@.subrange(0, i + 1) == b@.subrange(0, i + 1) {
                assert(a@.subrange(0, i + 1)[i as int] == b@.subrange(0, i + 1)[i as int]);
                assert(a@.subrange(0, i as int) =~= a@.subrange(0, i + 1).drop_last());
                assert(b@.subrange(0, i as int) =~= b@.subrange(0, i + 1).drop_last());
            }
        }
        diff = d;
        i = i + 1;
    }
    assert(a@.subrange(0, a@.len() as int) =~= a@);
    assert(b@.subrange(0, b@.len() as int) =~= b@);
    diff == 0
}

/// Authenticates a downloaded artefact against the lowercase-hex SHA-256
/// digest the caller supplied. The bytes are handed back only when the digests
/// agree; otherwise the error carries both digests.
pub fn verify_artifact(body: Vec<u8>, expected_sha256: &str) -> (r: Result<Vec<u8>, FetchError>)
    ensures
        r is Ok <==> digest_matches(body@, expected_sha256.spec_bytes()),
        r matches Ok(b) ==> b@ == body@,
        r matches Err(e) ==> e matches FetchError::HashMismatch { expected, found } && expected@
            == expected_sha256@ && found@ == hex_lower(sha256_digest(body@)),
{
    let digest = sha256(body.as_slice());
    let found = to_hex(digest.as_slice());
    if constant_time_eq(found.as_slice(), expected_sha256.as_bytes()) {
        Ok(body)
    } else {
        Err(FetchError::HashMismatch { expected: expected_sha256.to_string(), found })
    }
}

} // verus!
