//! The built-in API keys, kept XOR-encrypted so that the plain keys never
//! appear as strings in the binary; they are decrypted when a fetch needs
//! them and dropped afterwards.
use vstd::prelude::*;

verus! {

/// The encrypted keys as embedded at build time: the XOR key and the
/// encrypted GLM and MiniMax keys.
pub struct EmbeddedSecrets {
    pub xor_key: Vec<u8>,
    pub enc_glm: Vec<u8>,
    pub enc_minimax: Vec<u8>,
}

/// `enc` XOR-ed byte by byte with `key` repeated as often as needed; empty
/// when the key is empty (zipping with an empty cycle yields nothing).
pub open spec fn xor_cycle(enc: Seq<u8>, key: Seq<u8>) -> Seq<u8> {
    if key.len() == 0 {
        seq![]
    } else {
        Seq::new(enc.len(), |i: int| enc[i] ^ key[i % (key.len() as int)])
    }
}

/// XOR decryption: the ciphertext XOR-ed with the key, cycled.
pub fn decrypt(enc: &[u8], key: &[u8]) -> (r: Vec<u8>)
    ensures
        r@ == xor_cycle(enc@, key@),
{
    let mut r: Vec<u8> = Vec::new();
    if key.len() == 0 {
        assert(r@ =~= xor_cycle(enc@, key@));
        return r;
    }
    let mut i: usize = 0;
    while i < enc.len()
        invariant
            key@.len() > 0,
            i <= enc@.len(),
            r@.len() == i,
            forall|j: int| 0 <= j < i ==> r@[j] == enc@[j] ^ key@[j % (key@.len() as int)],
        decreases enc@.len() - i,
    {
        let k = key[i % key.len()];
        r.push(enc[i] ^ k);
        i = i + 1;
    }
    assert(r@ =~= xor_cycle(enc@, key@));
    r
}

/// XOR with a cycled key undoes itself: decrypting what was encrypted with
/// the same non-empty key gives the plaintext back.
pub proof fn law_xor_decrypt_involution(plain: Seq<u8>, key: Seq<u8>)
    requires
        key.len() > 0,
    ensures
        xor_cycle(xor_cycle(plain, key), key) == plain,
{
    let once = xor_cycle(plain, key);
    let twice = xor_cycle(once, key);
    assert forall|i: int| 0 <= i < plain.len() implies twice[i] == plain[i] by {
        let a = plain[i];
        let b = key[i % (key.len() as int)];
        assert((a ^ b) ^ b == a) by (bit_vector);
    }
    assert(twice =~= plain);
}

/// What `String::from_utf8_lossy` gives for `bytes`: the decoded text, with
/// each invalid sequence replaced by U+FFFD.
pub uninterp spec fn lossy_utf8(bytes: Seq<u8>) -> Seq<char>;

/// `String::from_utf8_lossy(..).into_owned()`. Its result is a function of
/// the bytes alone; for valid UTF-8 it is the decoded text. How invalid
/// sequences are replaced is not stated beyond that.
#[verifier::external_body]
fn utf8_lossy(bytes: &[u8]) -> (r: String)
    ensures
        r@ == lossy_utf8(bytes@),
        vstd::utf8::valid_utf8(bytes@) ==> r@ == vstd::utf8::decode_utf8(bytes@),
{
    String::from_utf8_lossy(bytes).into_owned()
}

/// The plain built-in GLM key.
pub fn glm_key(secrets: &EmbeddedSecrets) -> (r: String)
    ensures
        r@ == lossy_utf8(xor_cycle(secrets.enc_glm@, secrets.xor_key@)),
        vstd::utf8::valid_utf8(xor_cycle(secrets.enc_glm@, secrets.xor_key@)) ==> r@
            == vstd::utf8::decode_utf8(xor_cycle(secrets.enc_glm@, secrets.xor_key@)),
{
    let plain = decrypt(secrets.enc_glm.as_slice(), secrets.xor_key.as_slice());
    utf8_lossy(plain.as_slice())
}

/// The plain built-in MiniMax key.
pub fn minimax_key(secrets: &EmbeddedSecrets) -> (r: String)
    ensures
        r@ == lossy_utf8(xor_cycle(secrets.enc_minimax@, secrets.xor_key@)),
        vstd::utf8::valid_utf8(xor_cycle(secrets.enc_minimax@, secrets.xor_key@)) ==> r@
            == vstd::utf8::decode_utf8(xor_cycle(secrets.enc_minimax@, secrets.xor_key@)),
{
    let plain = decrypt(secrets.enc_minimax.as_slice(), secrets.xor_key.as_slice());
    utf8_lossy(plain.as_slice())
}

} // verus!
