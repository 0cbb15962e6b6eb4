use vstd::prelude::*;

verus! {

/// The SHA-256 digest of the decimal representation of `id`. The digest is a
/// pure function of its input, far too long to write out, so it only gets a
/// name here; the trusted item below ties the name to the real computation.
pub uninterp spec fn sha256_of(id: int) -> Seq<u8>;

/// Relies on sha2::Sha256 (via the Digest trait): the digest depends only on
/// the input bytes — here the decimal digits of `id` — and is 32 bytes long,
/// as the crate documents for SHA-256.
#[verifier::external_body]
fn sha256_of_decimal(id: &usize) -> (r: Vec<u8>)
    ensures
        r@ == sha256_of(*id as int),
        r@.len() == 32,
{
    let digest = <sha2::Sha256 as sha2::Digest>::digest(id.to_string().into_bytes());
    digest.as_slice().to_vec()
}

/// ASCII code of the lower-case hexadecimal digit for a value below 16.
pub open spec fn hex_digit(v: u8) -> u8 {
    if v < 10 {
        (48 + v) as u8
    } else {
        (87 + v) as u8
    }
}

/// Lower-case hexadecimal encoding of a byte string, as ASCII codes:
/// two digits per byte, high nibble first.
pub open spec fn hex_bytes_of(s: Seq<u8>) -> Seq<u8>
    decreases s.len(),
{
    if s.len() == 0 {
        Seq::empty()
    } else {
        hex_bytes_of(s.drop_last()) + seq![hex_digit(s.last() / 16), hex_digit(s.last() % 16)]
    }
}

pub proof fn lemma_hex_bytes_len(s: Seq<u8>)
    ensures
        hex_bytes_of(s).len() == 2 * s.len(),
    decreases s.len(),
{
    if s.len() > 0 {
        lemma_hex_bytes_len(s.drop_last());
    }
}

pub proof fn lemma_hex_bytes_ascii(s: Seq<u8>)
    ensures
        forall|i: int| 0 <= i < hex_bytes_of(s).len() ==> hex_bytes_of(s)[i] < 128,
    decreases s.len(),
{
    if s.len() > 0 {
        lemma_hex_bytes_ascii(s.drop_last());
        lemma_hex_bytes_len(s.drop_last());
        assert(hex_digit(s.last() / 16) < 128);
        assert(hex_digit(s.last() % 16) < 128);
        assert forall|i: int| 0 <= i < hex_bytes_of(s).len() implies hex_bytes_of(s)[i] < 128 by {
            let pre = hex_bytes_of(s.drop_last());
            if i < pre.len() {
                assert(hex_bytes_of(s)[i] == pre[i]);
            }
        }
    }
}

/// Lower-case hexadecimal encoding of a byte string, proved to match
/// `hex_bytes_of`.
fn to_hex_bytes(bytes: &Vec<u8>) -> (r: Vec<u8>)
    ensures
        r@ == hex_bytes_of(bytes@),
{
    let mut out: Vec<u8> = Vec::new();
    let mut i: usize = 0;
    while i < bytes.len()
        invariant
            i <= bytes@.len(),
            out@ == hex_bytes_of(bytes@.take(i as int)),
        decreases bytes@.len() - i,
    {
        let b = bytes[i];
        let hi: u8 = b / 16;
        let lo: u8 = b % 16;
        out.push(if hi < 10 { 48 + hi } else { 87 + hi });
        out.push(if lo < 10 { 48 + lo } else { 87 + lo });
        proof {
            let t = bytes@.take(i + 1);
            assert(t.drop_last() =~= bytes@.take(i as int));
            assert(t.last() == bytes@[i as int]);
            assert(out@ =~= hex_bytes_of(bytes@.take(i as int))
                + seq![hex_digit(t.last() / 16), hex_digit(t.last() % 16)]);
        }
        i = i + 1;
    }
    proof {
        assert(bytes@.take(bytes@.len() as int) =~= bytes@);
    }
    out
}

/// Relies on String::from_utf8: a buffer of ASCII bytes is valid UTF-8 and
/// decodes to the characters with the same code points, one per byte.
#[verifier::external_body]
fn ascii_to_string(bytes: Vec<u8>) -> (r: String)
    requires
        forall|i: int| 0 <= i < bytes@.len() ==> bytes@[i] < 128,
    ensures
        r@ == bytes@.map_values(|b: u8| b as char),
{
    String::from_utf8(bytes).unwrap()
}

/// The tag derived from a seed value: the SHA-256 digest of the seed's
/// decimal representation, encoded as 64 lower-case hexadecimal characters.
pub open spec fn hash_of(id: int) -> Seq<char> {
    hex_bytes_of(sha256_of(id)).map_values(|b: u8| b as char)
}

/// Derives a series tag from a numeric seed.
pub fn generate_hash_from_number(id: &usize) -> (r: String)
    ensures
        r@ == hash_of(*id as int),
        r@.len() == 64,
{
    let digest = sha256_of_decimal(id);
    let hex = to_hex_bytes(&digest);
    proof {
        lemma_hex_bytes_len(digest@);
        lemma_hex_bytes_ascii(digest@);
    }
    ascii_to_string(hex)
}

} // verus!
