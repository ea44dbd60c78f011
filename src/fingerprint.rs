//! Content fingerprints: a BLAKE3 digest of a file's bytes and its
//! modification time, and the names of persisted cache entries.
use vstd::prelude::*;
use vstd::string::*;
use crate::text::concat;

verus! {

/// The 64 lowercase hexadecimal digits of the BLAKE3 digest of `data`.
pub uninterp spec fn blake3_hex(data: Seq<u8>) -> Seq<char>;

/// Relies on `blake3::hash` and `blake3::Hash::to_hex`: the digest of the
/// whole input, written as 64 lowercase hexadecimal digits.
#[verifier::external_body]
fn blake3_hex_of(data: &[u8]) -> (r: String)
    ensures
        r@ == blake3_hex(data@),
        r@.len() == 64,
{
    blake3::hash(data).to_hex().to_string()
}

/// The `n` low bytes of `v`, least significant first.
pub open spec fn le_bytes(v: nat, n: nat) -> Seq<u8>
    decreases n,
{
    if n == 0 {
        Seq::empty()
    } else {
        seq![(v % 256) as u8] + le_bytes(v / 256, (n - 1) as nat)
    }
}

/// What is hashed for a file: its bytes, then its modification time in
/// seconds as eight little-endian bytes when that time is known.
pub open spec fn fingerprint_input(content: Seq<u8>, mtime_secs: Option<u64>) -> Seq<u8> {
    match mtime_secs {
        Some(t) => content + le_bytes(t as nat, 8),
        None => content,
    }
}

/// The fingerprint of a file with these bytes and this modification time.
pub open spec fn fingerprint_of(content: Seq<u8>, mtime_secs: Option<u64>) -> Seq<char> {
    blake3_hex(fingerprint_input(content, mtime_secs))
}

/// The fingerprint of a file from its bytes and modification time (whole
/// seconds since the Unix epoch, when the file system reports it).
pub fn fingerprint(content: &[u8], mtime_secs: Option<u64>) -> (r: String)
    ensures
        r@ == fingerprint_of(content@, mtime_secs),
        r@.len() == 64,
{
    let mut data: Vec<u8> = Vec::new();
    let mut i: usize = 0;
    while i < content.len()
        invariant
            i <= content@.len(),
            data@ == content@.take(i as int),
        decreases content@.len() - i,
    {
        data.push(content[i]);
        i += 1;
        assert(data@ =~= content@.take(i as int));
    }
    assert(content@.take(content@.len() as int) =~= content@);
    match mtime_secs {
        Some(t) => {
            let mut x: u64 = t;
            let mut k: usize = 0;
            assert(le_bytes(t as nat, 8) == le_bytes(x as nat, 8));
            assert(data@ + le_bytes(x as nat, 8) =~= content@ + le_bytes(t as nat, 8));
            while k < 8
                invariant
                    k <= 8,
                    data@ + le_bytes(x as nat, (8 - k) as nat) == content@ + le_bytes(t as nat, 8),
                decreases 8 - k,
            {
                let b = (x % 256) as u8;
                proof {
                    assert(le_bytes(x as nat, (8 - k) as nat) == seq![b] + le_bytes((x / 256) as nat, (8 - k - 1) as nat));
                    assert(data@.push(b) + le_bytes((x / 256) as nat, (8 - k - 1) as nat)
                        =~= data@ + le_bytes(x as nat, (8 - k) as nat));
                }
                data.push(b);
                x = x / 256;
                k += 1;
            }
            assert(le_bytes(x as nat, 0) =~= Seq::<u8>::empty());
            assert(data@ =~= content@ + le_bytes(t as nat, 8));
        },
        None => {},
    }
    blake3_hex_of(data.as_slice())
}

/// Fingerprints are a function of the bytes and the modification time: a
/// file left unmodified yields the same fingerprint each time.
pub proof fn lemma_fingerprint_deterministic(
    c1: Seq<u8>,
    m1: Option<u64>,
    c2: Seq<u8>,
    m2: Option<u64>,
)
    requires
        c1 == c2,
        m1 == m2,
    ensures
        fingerprint_of(c1, m1) == fingerprint_of(c2, m2),
{
}

/// The name of the file that persists the cache entry of `source_path`:
/// the digest of the path's UTF-8 bytes, with the `.json` extension.
pub fn cache_file_name(source_path: &str) -> (r: String)
    ensures
        r@ == blake3_hex(source_path.spec_bytes()) + ".json"@,
{
    let digest = blake3_hex_of(source_path.as_bytes());
    concat(digest.as_str(), ".json")
}

} // verus!
