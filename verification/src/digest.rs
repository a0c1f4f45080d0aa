use vstd::prelude::*;

verus! {

/// The SHA-256 digest of a byte sequence, rendered as lowercase
/// hexadecimal. The digest is a pure function of the bytes alone; its
/// value is not axiomatized here.
pub uninterp spec fn sha256_hex_of(data: Seq<u8>) -> Seq<char>;

/// Relies on sha256::digest for `&[u8]`: the SHA-256 digest of the
/// bytes, hex-encoded to 64 lowercase characters, depending on the
/// bytes alone.
#[verifier::external_body]
pub(crate) fn sha256_hex(data: &[u8]) -> (r: String)
    ensures
        r@ == sha256_hex_of(data@),
        r@.len() == 64,
{
    sha256::digest(data)
}

/// Byte `i` of the little-endian encoding of `n`.
pub open spec fn u128_le_byte(n: u128, i: int) -> u8 {
    ((n >> ((8 * i) as u128)) & 0xff) as u8
}

/// The 16-byte little-endian encoding of `n`.
pub open spec fn u128_le_bytes(n: u128) -> Seq<u8> {
    Seq::new(16, |i: int| u128_le_byte(n, i))
}

/// Little-endian encoding of a 128-bit integer, used to derive session
/// tokens from a high-resolution timestamp.
pub fn le_bytes_of_u128(n: u128) -> (r: Vec<u8>)
    ensures
        r@ == u128_le_bytes(n),
{
    let mut r: Vec<u8> = Vec::new();
    let mut i: usize = 0;
    while i < 16
        invariant
            i <= 16,
            r@.len() == i,
            forall|j: int| 0 <= j < i ==> r@[j] == u128_le_byte(n, j),
        decreases 16 - i,
    {
        let b = ((n >> ((8 * i) as u128)) & 0xff) as u8;
        assert(b == u128_le_byte(n, i as int));
        r.push(b);
        i = i + 1;
    }
    assert(r@ =~= u128_le_bytes(n));
    r
}

} // verus!
