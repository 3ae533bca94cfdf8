//! AES-128-CFB8 encryption and decryption for the Minecraft protocol.
//!
//! Minecraft uses AES-128 in CFB8 mode with the shared secret as both key
//! and IV. The ciphers are stream ciphers: each call continues where the
//! previous one left off. A cipher's state is its key and its 16-byte shift
//! register, which after each byte drops its first byte and takes the
//! ciphertext byte at its end.

use cfb8::cipher::{AsyncStreamCipher, KeyIvInit};
use vstd::prelude::*;

verus! {

/// What `cfb8::Encryptor<Aes128>` with `key` and initial register `iv`
/// turns `data` into.
pub uninterp spec fn cfb8_encrypted(key: Seq<u8>, iv: Seq<u8>, data: Seq<u8>) -> Seq<u8>;

/// What `cfb8::Decryptor<Aes128>` with `key` and initial register `iv`
/// turns `data` into.
pub uninterp spec fn cfb8_decrypted(key: Seq<u8>, iv: Seq<u8>, data: Seq<u8>) -> Seq<u8>;

/// The shift register after `fed` (the ciphertext bytes) went through a
/// register holding `reg`: the last 16 bytes of `reg` followed by `fed`.
pub open spec fn next_register(reg: Seq<u8>, fed: Seq<u8>) -> Seq<u8> {
    (reg + fed).skip((reg + fed).len() - 16)
}

/// Encrypts `data` in place with `cfb8::Encryptor<Aes128>` built from `key`
/// and `iv` (`KeyIvInit::new`, then `AsyncStreamCipher::encrypt`). Claimed:
/// the result is `cfb8_encrypted(key, iv, data)`, of the same length; a
/// decryptor with the same key and IV turns it back into `data` (CFB8
/// decryption inverts encryption); and, as the mode works byte by byte, each
/// prefix of the result is the encryption of the same prefix of `data`, the
/// rest continuing from the register that prefix left.
#[verifier::external_body]
fn cfb8_encrypt(key: &[u8; 16], iv: &[u8; 16], data: &mut [u8])
    ensures
        final(data)@ == cfb8_encrypted(key@, iv@, old(data)@),
        final(data)@.len() == old(data)@.len(),
        cfb8_decrypted(key@, iv@, final(data)@) == old(data)@,
        forall|i: int|
            0 <= i <= old(data)@.len() ==> #[trigger] cfb8_encrypted(key@, iv@, old(data)@.take(i))
                == final(data)@.take(i) && cfb8_encrypted(
                key@,
                next_register(iv@, final(data)@.take(i)),
                old(data)@.skip(i),
            ) == final(data)@.skip(i),
{
    cfb8::Encryptor::<aes::Aes128>::new(key.into(), iv.into()).encrypt(data);
}

/// Decrypts `data` in place with `cfb8::Decryptor<Aes128>` built from `key`
/// and `iv` (`KeyIvInit::new`, then `AsyncStreamCipher::decrypt`). Claimed:
/// the result is `cfb8_decrypted(key, iv, data)`, of the same length; and,
/// as the mode works byte by byte, each prefix of the result is the
/// decryption of the same prefix of `data`, the rest continuing from the
/// register that prefix left.
#[verifier::external_body]
fn cfb8_decrypt(key: &[u8; 16], iv: &[u8; 16], data: &mut [u8])
    ensures
        final(data)@ == cfb8_decrypted(key@, iv@, old(data)@),
        final(data)@.len() == old(data)@.len(),
        forall|i: int|
            0 <= i <= old(data)@.len() ==> #[trigger] cfb8_decrypted(key@, iv@, old(data)@.take(i))
                == final(data)@.take(i) && cfb8_decrypted(
                key@,
                next_register(iv@, old(data)@.take(i)),
                old(data)@.skip(i),
            ) == final(data)@.skip(i),
{
    cfb8::Decryptor::<aes::Aes128>::new(key.into(), iv.into()).decrypt(data);
}

/// The register after `fed` went through `reg`.
fn shifted(reg: &[u8; 16], fed: &[u8]) -> (r: [u8; 16])
    ensures
        r@ == next_register(reg@, fed@),
{
    let n = fed.len();
    let mut out: [u8; 16] = *reg;
    let ghost all = reg@ + fed@;
    let mut i: usize = 0;
    while i < 16
        invariant
            i <= 16,
            n == fed@.len(),
            reg@.len() == 16,
            out@.len() == 16,
            all == reg@ + fed@,
            forall|k: int| 0 <= k < i ==> #[trigger] out@[k] == all[n + k],
        decreases 16 - i,
    {
        if n < 16 - i {
            out[i] = reg[i + n];
        } else {
            out[i] = fed[n - (16 - i)];
        }
        i = i + 1;
    }
    assert(out@ =~= next_register(reg@, fed@));
    out
}

/// Encrypts a byte stream using AES-128-CFB8. Bytes must be encrypted in
/// the order they are sent.
pub struct EncryptCipher {
    key: [u8; 16],
    register: [u8; 16],
}

/// Decrypts a byte stream using AES-128-CFB8. Bytes must be decrypted in
/// the order they were received.
pub struct DecryptCipher {
    key: [u8; 16],
    register: [u8; 16],
}

impl EncryptCipher {
    /// The key.
    pub closed spec fn spec_key(&self) -> Seq<u8> {
        self.key@
    }

    /// The shift register.
    pub closed spec fn spec_register(&self) -> Seq<u8> {
        self.register@
    }

    /// A cipher from a 16-byte shared secret, which is also the IV.
    pub fn new(key: &[u8; 16]) -> (c: EncryptCipher)
        ensures
            c.spec_key() == key@,
            c.spec_register() == key@,
    {
        EncryptCipher { key: *key, register: *key }
    }

    /// Encrypts `data` in place; the register moves on by the ciphertext,
    /// and a decryptor in the same state turns the ciphertext back.
    /// Encrypting in one call is encrypting the pieces in turn.
    pub fn encrypt(&mut self, data: &mut [u8])
        ensures
            forall|i: int|
                0 <= i <= old(data)@.len() ==> #[trigger] cfb8_encrypted(
                    old(self).spec_key(),
                    old(self).spec_register(),
                    old(data)@.take(i),
                ) == final(data)@.take(i) && cfb8_encrypted(
                    old(self).spec_key(),
                    next_register(old(self).spec_register(), final(data)@.take(i)),
                    old(data)@.skip(i),
                ) == final(data)@.skip(i),
            final(data)@ == cfb8_encrypted(old(self).spec_key(), old(self).spec_register(), old(data)@),
            final(data)@.len() == old(data)@.len(),
            cfb8_decrypted(old(self).spec_key(), old(self).spec_register(), final(data)@) == old(data)@,
            final(self).spec_key() == old(self).spec_key(),
            final(self).spec_register() == next_register(old(self).spec_register(), final(data)@),
    {
        cfb8_encrypt(&self.key, &self.register, data);
        self.register = shifted(&self.register, data);
    }
}

impl DecryptCipher {
    /// The key.
    pub closed spec fn spec_key(&self) -> Seq<u8> {
        self.key@
    }

    /// The shift register.
    pub closed spec fn spec_register(&self) -> Seq<u8> {
        self.register@
    }

    /// A cipher from a 16-byte shared secret, which is also the IV.
    pub fn new(key: &[u8; 16]) -> (c: DecryptCipher)
        ensures
            c.spec_key() == key@,
            c.spec_register() == key@,
    {
        DecryptCipher { key: *key, register: *key }
    }

    /// Decrypts `data` in place; the register moves on by the ciphertext
    /// (the bytes received). Decrypting in one call is decrypting the pieces
    /// in turn.
    pub fn decrypt(&mut self, data: &mut [u8])
        ensures
            forall|i: int|
                0 <= i <= old(data)@.len() ==> #[trigger] cfb8_decrypted(
                    old(self).spec_key(),
                    old(self).spec_register(),
                    old(data)@.take(i),
                ) == final(data)@.take(i) && cfb8_decrypted(
                    old(self).spec_key(),
                    next_register(old(self).spec_register(), old(data)@.take(i)),
                    old(data)@.skip(i),
                ) == final(data)@.skip(i),
            final(data)@ == cfb8_decrypted(old(self).spec_key(), old(self).spec_register(), old(data)@),
            final(data)@.len() == old(data)@.len(),
            final(self).spec_key() == old(self).spec_key(),
            final(self).spec_register() == next_register(old(self).spec_register(), old(data)@),
    {
        let next = shifted(&self.register, data);
        cfb8_decrypt(&self.key, &self.register, data);
        self.register = next;
    }
}

/// Feeding the register in two pieces leaves it as feeding it both at once,
/// so a cipher used in several calls is in the state one call would leave.
pub proof fn law_register_composes(reg: Seq<u8>, a: Seq<u8>, b: Seq<u8>)
    requires
        reg.len() == 16,
    ensures
        next_register(reg, a).len() == 16,
        next_register(next_register(reg, a), b) == next_register(reg, a + b),
{
    let ra = next_register(reg, a);
    let x = (ra + b).skip((ra + b).len() - 16);
    let y = (reg + (a + b)).skip((reg + (a + b)).len() - 16);
    assert forall|k: int| 0 <= k < 16 implies #[trigger] x[k] == y[k] by {
        if k < 16 - b.len() {
            assert(x[k] == ra[k + b.len()]);
            assert(ra[k + b.len()] == (reg + a)[(reg + a).len() - 16 + k + b.len()]);
        }
    }
    assert(x =~= y);
}

} // verus!
