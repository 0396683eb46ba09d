//! Derivation of credential token identifiers.
use vstd::prelude::*;
use vstd::utf8::encode_utf8;

verus! {

/// Longest input handed to the hash: well inside the host's default
/// execution budget, which a larger input could exhaust.
pub const MAX_PREIMAGE_LEN: usize = 65536;

/// The SHA-256 digest of a byte string.
pub uninterp spec fn sha256_of(data: Seq<u8>) -> Seq<u8>;

/// Relies on soroban_sdk's `Crypto::sha256`, run on a fresh host: it returns
/// the 32-byte SHA-256 digest, which depends on the bytes alone.
#[verifier::external_body]
fn sha256(data: &[u8]) -> (r: [u8; 32])
    requires
        data@.len() <= MAX_PREIMAGE_LEN,
    ensures
        r@ == sha256_of(data@),
{
    let config = soroban_sdk::testutils::EnvTestConfig { capture_snapshot_at_drop: false };
    let env = soroban_sdk::Env::new_with_config(config);
    let bytes = soroban_sdk::Bytes::from_slice(&env, data);
    env.crypto().sha256(&bytes).to_array()
}

/// The eight bytes of `t`, most significant first.
pub open spec fn be_bytes(t: u64) -> Seq<u8> {
    seq![
        (t >> 56u64) as u8,
        (t >> 48u64) as u8,
        (t >> 40u64) as u8,
        (t >> 32u64) as u8,
        (t >> 24u64) as u8,
        (t >> 16u64) as u8,
        (t >> 8u64) as u8,
        t as u8,
    ]
}

/// What is hashed to name a credential: the owner's encoded identity, the
/// UTF-8 bytes of the credential name, and the issuance timestamp.
pub open spec fn token_preimage(owner: Seq<u8>, name: Seq<char>, timestamp: u64) -> Seq<u8> {
    owner + encode_utf8(name) + be_bytes(timestamp)
}

/// The token identifier of a credential.
pub open spec fn token_id_of(owner: Seq<u8>, name: Seq<char>, timestamp: u64) -> Seq<u8> {
    sha256_of(token_preimage(owner, name, timestamp))
}

/// Appends the eight bytes of `t`, most significant first.
pub fn push_be_u64(out: &mut Vec<u8>, t: u64)
    ensures
        final(out)@ == old(out)@ + be_bytes(t),
{
    out.push((t >> 56u64) as u8);
    out.push((t >> 48u64) as u8);
    out.push((t >> 40u64) as u8);
    out.push((t >> 32u64) as u8);
    out.push((t >> 24u64) as u8);
    out.push((t >> 16u64) as u8);
    out.push((t >> 8u64) as u8);
    out.push(t as u8);
    assert(final(out)@ =~= old(out)@ + be_bytes(t));
}

/// Appends a byte string.
pub fn push_bytes(out: &mut Vec<u8>, bytes: &[u8])
    ensures
        final(out)@ == old(out)@ + bytes@,
{
    let mut i: usize = 0;
    while i < bytes.len()
        invariant
            i <= bytes@.len(),
            out@ == old(out)@ + bytes@.subrange(0, i as int),
        decreases bytes@.len() - i,
    {
        out.push(bytes[i]);
        assert(bytes@.subrange(0, i + 1) == bytes@.subrange(0, i as int).push(bytes@[i as int]));
        i = i + 1;
    }
    assert(bytes@.subrange(0, bytes@.len() as int) == bytes@);
}

/// Builds the bytes that name a credential.
pub fn build_preimage(owner: &[u8], name: &str, timestamp: u64) -> (r: Vec<u8>)
    ensures
        r@ == token_preimage(owner@, name@, timestamp),
{
    let mut out: Vec<u8> = Vec::new();
    push_bytes(&mut out, owner);
    push_bytes(&mut out, name.as_bytes());
    push_be_u64(&mut out, timestamp);
    assert(out@ =~= token_preimage(owner@, name@, timestamp));
    out
}

/// Derives the token identifier of a credential from its owner, its name and
/// the time it is issued.
pub fn derive_token_id(owner: &[u8], name: &str, timestamp: u64) -> (r: [u8; 32])
    requires
        owner@.len() + encode_utf8(name@).len() + 8 <= MAX_PREIMAGE_LEN,
    ensures
        r@ == token_id_of(owner@, name@, timestamp),
{
    let data = build_preimage(owner, name, timestamp);
    sha256(data.as_slice())
}

} // verus!
