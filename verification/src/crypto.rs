use vstd::prelude::*;
use vstd::slice::slice_subrange;
use vstd::slice::slice_to_vec;
use vstd::string::StringSliceAdditionalSpecFns;

verus! {

/// Size in bytes of an XChaCha20-Poly1305 key.
pub const CHACHA_KEYSIZE: usize = 32;

/// Size in bytes of a Poly1305 tag.
pub const POLY1305_OUTSIZE: usize = 16;

/// Size in bytes of an XChaCha20 nonce.
pub const XCHACHA_NONCESIZE: usize = 24;

/// Size of the plaintext chunks a stored file is sealed in.
pub const CHUNK_SIZE: usize = 128;

/// Size a full chunk occupies once sealed: random associated data, ciphertext, tag.
pub const SEALED_CHUNK_SIZE: usize = 176;

/// Argon2i iteration count used to derive a file key from its secret.
pub const KDF_ITERATIONS: u32 = 15;

/// Argon2i memory cost (KiB) used to derive a file key from its secret.
pub const KDF_MEMORY: u32 = 1024;

/// Largest plaintext a single seal or open handles: `(u32::MAX - 1) * 64`
/// bytes, since the ChaCha20 block counter (a `u32`) spends one block on the
/// Poly1305 key and cannot pass `u32::MAX`.
pub const SEAL_MAX: u64 = 274877906816;

/// Why an encryption or decryption of a stored file failed.
#[derive(Debug, Clone, Copy, PartialEq, Eq, Structural)]
pub enum CryptoError {
    /// The secret could not be turned into a key (it is empty or too long).
    KeyDerivation,
    /// The cipher refused to seal a chunk.
    Sealing,
    /// A chunk's tag did not verify under the key and nonce.
    Authentication,
    /// The data is too short for its header or ends in a truncated chunk.
    Malformed,
}

/// Declares `orion::errors::UnknownCryptoError`, the error orion's fallible
/// functions return; it is carried opaquely and mapped to [`CryptoError`].
#[verifier::external_type_specification]
#[verifier::external_body]
pub struct ExUnknownCryptoError(orion::errors::UnknownCryptoError);

/// The key that Argon2i derives from a password and a salt with the given cost parameters.
pub uninterp spec fn argon2i_key(password: Seq<u8>, salt: Seq<u8>, iterations: u32, memory: u32, length: u32) -> Seq<u8>;

/// The ciphertext-with-tag that XChaCha20-Poly1305 produces for a key, nonce, plaintext and associated data.
pub uninterp spec fn xchacha_seal(key: Seq<u8>, nonce: Seq<u8>, plaintext: Seq<u8>, ad: Seq<u8>) -> Seq<u8>;

/// Calls `orion::kdf::derive_key` (Argon2i), building the `Password` and `Salt`
/// from the given bytes. Claimed: it succeeds exactly when the password is
/// non-empty and at most `0xFFFF_FFFF` bytes, the salt has between 8 and
/// `0xFFFF_FFFF` bytes, `iterations >= 3`, `memory >= 8` and `length >= 4`
/// (the checks in orion's `Password::from_slice`, `Salt::from_slice`,
/// `kdf::derive_key` and `argon2i::derive_key`), and then returns the
/// `length` bytes of the derived key, a function of its arguments alone.
#[verifier::external_body]
fn derive_key(password: &[u8], salt: &[u8], iterations: u32, memory: u32, length: u32) -> (res:
    Result<Vec<u8>, orion::errors::UnknownCryptoError>)
    ensures
        res is Ok <==> (0 < password@.len() <= 0xFFFF_FFFF && 8 <= salt@.len() <= 0xFFFF_FFFF
            && iterations >= 3 && memory >= 8 && length >= 4),
        res matches Ok(k) ==> k@ == argon2i_key(password@, salt@, iterations, memory, length)
            && k@.len() == length,
{
    let password = orion::kdf::Password::from_slice(password)?;
    let salt = orion::kdf::Salt::from_slice(salt)?;
    let key = orion::kdf::derive_key(&password, &salt, iterations, memory, length)?;
    Ok(key.unprotected_as_bytes().to_vec())
}


/// Calls `orion::hazardous::aead::xchacha20poly1305::seal`, building the
/// `SecretKey` and `Nonce` from the given bytes and writing into `dst_out`.
/// Claimed, as orion's source shows: it succeeds exactly when the key has 32
/// bytes, the nonce 24, the plaintext at most `SEAL_MAX` bytes (beyond that
/// the keystream counter check in `next_produceable` fails) and `dst_out` room
/// for the plaintext and a 16-byte tag; on success the first
/// `plaintext.len() + 16` bytes of `dst_out` hold the sealed chunk, a function
/// of the four inputs alone, and the rest of `dst_out` is untouched. The
/// length of `dst_out` never changes.
#[verifier::external_body]
fn seal(key: &[u8], nonce: &[u8], plaintext: &[u8], ad: &[u8], dst_out: &mut Vec<u8>) -> (res:
    Result<(), orion::errors::UnknownCryptoError>)
    ensures
        final(dst_out)@.len() == old(dst_out)@.len(),
        res is Ok <==> (key@.len() == 32 && nonce@.len() == 24 && plaintext@.len() <= SEAL_MAX
            && old(dst_out)@.len() >= plaintext@.len() + 16),
        res is Ok ==> final(dst_out)@.take(plaintext@.len() + 16int) == xchacha_seal(
            key@,
            nonce@,
            plaintext@,
            ad@,
        ) && final(dst_out)@.skip(plaintext@.len() + 16int) == old(dst_out)@.skip(
            plaintext@.len() + 16int,
        ),
{
    let secret_key = orion::hazardous::aead::xchacha20poly1305::SecretKey::from_slice(key)?;
    let nonce = orion::hazardous::aead::xchacha20poly1305::Nonce::from_slice(nonce)?;
    orion::hazardous::aead::xchacha20poly1305::seal(
        &secret_key,
        &nonce,
        plaintext,
        Some(ad),
        dst_out.as_mut_slice(),
    )
}

/// Calls `orion::hazardous::aead::xchacha20poly1305::open`, building the
/// `SecretKey` and `Nonce` from the given bytes and writing into `dst_out`.
/// Its input is at most `SEAL_MAX + 16` bytes: beyond that, orion panics in
/// `keystream_block` once the tag has verified.
/// Claimed: on success the key has 32 bytes, the nonce 24, the input at least
/// the 16 bytes of a tag, `dst_out` room for the plaintext, and the input is
/// exactly what sealing the plaintext written to `dst_out` gives (the tag was
/// verified over the same ciphertext bytes); the rest of `dst_out` is
/// untouched. Conversely, when the input is the seal of some plaintext `p`
/// under the same key, nonce and associated data (with the sizes above), the
/// call succeeds and writes `p` (AEAD correctness). The length of `dst_out`
/// never changes.
#[verifier::external_body]
fn open(key: &[u8], nonce: &[u8], ciphertext_with_tag: &[u8], ad: &[u8], dst_out: &mut Vec<u8>) -> (res:
    Result<(), orion::errors::UnknownCryptoError>)
    requires
        ciphertext_with_tag@.len() <= SEAL_MAX + 16,
    ensures
        final(dst_out)@.len() == old(dst_out)@.len(),
        res is Ok ==> key@.len() == 32 && nonce@.len() == 24 && ciphertext_with_tag@.len() >= 16
            && old(dst_out)@.len() >= ciphertext_with_tag@.len() - 16 && ciphertext_with_tag@
            == xchacha_seal(
            key@,
            nonce@,
            final(dst_out)@.take(ciphertext_with_tag@.len() - 16),
            ad@,
        ) && final(dst_out)@.skip(ciphertext_with_tag@.len() - 16) == old(dst_out)@.skip(
            ciphertext_with_tag@.len() - 16,
        ),
        forall|p: Seq<u8>|
            key@.len() == 32 && nonce@.len() == 24 && old(dst_out)@.len()
                >= p.len() && #[trigger] xchacha_seal(key@, nonce@, p, ad@) == ciphertext_with_tag@
                ==> res is Ok && final(dst_out)@.take(p.len() as int) == p,
{
    let secret_key = orion::hazardous::aead::xchacha20poly1305::SecretKey::from_slice(key)?;
    let nonce = orion::hazardous::aead::xchacha20poly1305::Nonce::from_slice(nonce)?;
    orion::hazardous::aead::xchacha20poly1305::open(
        &secret_key,
        &nonce,
        ciphertext_with_tag,
        Some(ad),
        dst_out.as_mut_slice(),
    )
}

/// Calls `rand_core::RngCore::fill_bytes` on `rand_core::OsRng`, which fills
/// the buffer with bytes from the operating system's generator (and panics
/// if that generator fails). Only the length of the buffer is claimed: its
/// new contents are random.
#[verifier::external_body]
fn get_random(dest: &mut Vec<u8>)
    ensures
        final(dest)@.len() == old(dest)@.len(),
{
    rand_core::RngCore::fill_bytes(&mut rand_core::OsRng, dest.as_mut_slice());
}

/// A fresh random 24-byte XChaCha20 nonce.
pub fn nonce() -> (res: Vec<u8>)
    ensures
        res@.len() == XCHACHA_NONCESIZE,
{
    let mut randoms: Vec<u8> = vec![0u8; 24];
    get_random(&mut randoms);
    randoms
}

/// Fresh random 32 bytes, used as the associated data of one sealed chunk.
pub fn auth_tag() -> (res: Vec<u8>)
    ensures
        res@.len() == CHACHA_KEYSIZE,
{
    let mut randoms: Vec<u8> = vec![0u8; 32];
    get_random(&mut randoms);
    randoms
}


// ---------------------------------------------------------------------------
// Layout of a stored (encrypted) file
// ---------------------------------------------------------------------------

/// A secret the key derivation accepts as a password.
pub open spec fn password_ok(password: Seq<u8>) -> bool {
    0 < password.len() <= 0xFFFF_FFFF
}

/// The 32-byte key a file is sealed under: Argon2i of its secret, salted with its nonce.
pub open spec fn file_key(password: Seq<u8>, nonce: Seq<u8>) -> Seq<u8> {
    argon2i_key(password, nonce, KDF_ITERATIONS, KDF_MEMORY, 32)
}

/// Smaller of two integers.
pub open spec fn min_int(a: int, b: int) -> int {
    if a <= b {
        a
    } else {
        b
    }
}

/// Number of plaintext chunks of at most 128 bytes a plaintext of `len` bytes is cut into.
pub open spec fn chunk_count(len: nat) -> nat {
    ((len + 127) / 128) as nat
}

/// The `i`-th plaintext chunk: bytes `128 * i` up to `128 * i + 128` (or the end).
pub open spec fn plain_chunk(plain: Seq<u8>, i: int) -> Seq<u8> {
    plain.subrange(128 * i, min_int(128 * i + 128, plain.len() as int))
}

/// One sealed chunk as it is stored: its associated data, then ciphertext and tag.
pub open spec fn sealed_chunk(key: Seq<u8>, nonce: Seq<u8>, chunk: Seq<u8>, ad: Seq<u8>) -> Seq<u8> {
    ad + xchacha_seal(key, nonce, chunk, ad)
}

/// The first `n` sealed chunks of `plain`, one after the other.
pub open spec fn sealed_prefix(
    plain: Seq<u8>,
    key: Seq<u8>,
    nonce: Seq<u8>,
    ads: Seq<Seq<u8>>,
    n: nat,
) -> Seq<u8>
    decreases n,
{
    if n == 0 {
        Seq::empty()
    } else {
        sealed_prefix(plain, key, nonce, ads, (n - 1) as nat) + sealed_chunk(
            key,
            nonce,
            plain_chunk(plain, n - 1),
            ads[n - 1],
        )
    }
}

/// Number of stored pieces (of at most 176 bytes) a body of `len` bytes is cut into.
pub open spec fn piece_count(len: nat) -> nat {
    ((len + 175) / 176) as nat
}

/// The `i`-th stored piece of a body: bytes `176 * i` up to `176 * i + 176` (or the end).
pub open spec fn sealed_piece(body: Seq<u8>, i: int) -> Seq<u8> {
    body.subrange(176 * i, min_int(176 * i + 176, body.len() as int))
}

/// The nonce a stored file starts with.
pub open spec fn file_nonce(data: Seq<u8>) -> Seq<u8> {
    data.take(24)
}

/// What follows the nonce in a stored file.
pub open spec fn file_body(data: Seq<u8>) -> Seq<u8> {
    data.skip(24)
}

/// Associated data of the `i`-th stored piece.
pub open spec fn piece_ad(data: Seq<u8>, i: int) -> Seq<u8> {
    sealed_piece(file_body(data), i).take(32)
}

/// Ciphertext and tag of the `i`-th stored piece.
pub open spec fn piece_ct(data: Seq<u8>, i: int) -> Seq<u8> {
    sealed_piece(file_body(data), i).skip(32)
}

/// The associated data of every stored piece, in order.
pub open spec fn stored_ads(data: Seq<u8>) -> Seq<Seq<u8>> {
    Seq::new(piece_count(file_body(data).len()), |i: int| piece_ad(data, i))
}

/// Each chunk's seal is its plaintext followed by a 16-byte tag.
pub open spec fn seal_lengths_hold(
    plain: Seq<u8>,
    key: Seq<u8>,
    nonce: Seq<u8>,
    ads: Seq<Seq<u8>>,
) -> bool {
    forall|i: int|
        0 <= i < chunk_count(plain.len()) ==> (#[trigger] xchacha_seal(
            key,
            nonce,
            plain_chunk(plain, i),
            ads[i],
        )).len() == plain_chunk(plain, i).len() + 16
}

/// `data` is a stored file holding `plain` under `password`: a nonce, then
/// every 128-byte chunk of `plain` sealed under the key derived from the
/// password and that nonce, each preceded by its own 32 bytes of associated data.
pub open spec fn is_encryption_of(data: Seq<u8>, plain: Seq<u8>, password: Seq<u8>) -> bool {
    let nonce = file_nonce(data);
    let key = file_key(password, nonce);
    let ads = stored_ads(data);
    &&& password_ok(password)
    &&& data.len() >= 24
    &&& ads.len() == chunk_count(plain.len())
    &&& forall|i: int| 0 <= i < ads.len() ==> (#[trigger] ads[i]).len() == 32
    &&& seal_lengths_hold(plain, key, nonce, ads)
    &&& file_body(data) == sealed_prefix(plain, key, nonce, ads, chunk_count(plain.len()))
}

/// A stored file too short for its nonce, or ending in a piece too short for
/// associated data and a tag.
pub open spec fn malformed(data: Seq<u8>) -> bool {
    data.len() < 24 || (file_body(data).len() % 176 != 0 && file_body(data).len() % 176 < 48)
}

/// The byte sequences of `ps`, one after the other.
pub open spec fn join(ps: Seq<Seq<u8>>) -> Seq<u8>
    decreases ps.len(),
{
    if ps.len() == 0 {
        Seq::empty()
    } else {
        join(ps.drop_last()) + ps.last()
    }
}

/// Stored piece `i` of `data` is the seal of `p` under the file's key and nonce.
pub open spec fn piece_opens_to(data: Seq<u8>, password: Seq<u8>, i: int, p: Seq<u8>) -> bool {
    let nonce = file_nonce(data);
    p.len() + 16 == piece_ct(data, i).len() && piece_ct(data, i) == xchacha_seal(
        file_key(password, nonce),
        nonce,
        p,
        piece_ad(data, i),
    )
}

/// The first `ps.len()` stored pieces of `data` open to `ps`, in order.
pub open spec fn opens_prefix(data: Seq<u8>, password: Seq<u8>, ps: Seq<Seq<u8>>) -> bool {
    forall|i: int| 0 <= i < ps.len() ==> piece_opens_to(data, password, i, #[trigger] ps[i])
}

/// Every stored piece of `data` opens, to `ps[i]` for piece `i`.
pub open spec fn opens_as(data: Seq<u8>, password: Seq<u8>, ps: Seq<Seq<u8>>) -> bool {
    &&& ps.len() == piece_count(file_body(data).len())
    &&& opens_prefix(data, password, ps)
}

/// `out` is what the pieces of `data` open to under `password`, joined.
pub open spec fn decrypts_to(data: Seq<u8>, password: Seq<u8>, out: Seq<u8>) -> bool {
    exists|ps: Seq<Seq<u8>>| opens_as(data, password, ps) && join(ps) == out
}

/// `written` is what the stored pieces of `data` before the first one that
/// does not open (under `password`) open to, joined.
pub open spec fn opens_up_to_bad_piece(data: Seq<u8>, password: Seq<u8>, written: Seq<u8>) -> bool {
    exists|ps: Seq<Seq<u8>>|
        {
            &&& ps.len() < piece_count(file_body(data).len())
            &&& opens_prefix(data, password, ps)
            &&& join(ps) == written
            &&& !exists|p: Seq<u8>| piece_opens_to(data, password, ps.len() as int, p)
        }
}

// ---------------------------------------------------------------------------
// Layout lemmas
// ---------------------------------------------------------------------------

/// Chunks before the last one are full: chunk `i` starts inside the plaintext.
proof fn lemma_chunk_start(len: nat, i: int)
    requires
        0 <= i < chunk_count(len),
    ensures
        128 * i < len,
        i + 1 == chunk_count(len) ==> len <= 128 * i + 128,
        i + 1 < chunk_count(len) ==> 128 * i + 128 < len,
{
}

/// The first `n` sealed chunks have the expected length, and chunk `i` sits at offset `176 * i`.
proof fn lemma_sealed_prefix(plain: Seq<u8>, key: Seq<u8>, nonce: Seq<u8>, ads: Seq<Seq<u8>>, n: nat)
    requires
        n <= chunk_count(plain.len()),
        ads.len() == chunk_count(plain.len()),
        forall|i: int| 0 <= i < ads.len() ==> (#[trigger] ads[i]).len() == 32,
        seal_lengths_hold(plain, key, nonce, ads),
    ensures
        sealed_prefix(plain, key, nonce, ads, n).len() == 48 * n + min_int(
            128 * (n as int),
            plain.len() as int,
        ),
        forall|i: int|
            0 <= i < n ==> #[trigger] sealed_prefix(plain, key, nonce, ads, n).subrange(
                176 * i,
                176 * i + 48 + plain_chunk(plain, i).len(),
            ) == sealed_chunk(key, nonce, plain_chunk(plain, i), ads[i]),
    decreases n,
{
    if n > 0 {
        let m = (n - 1) as nat;
        lemma_sealed_prefix(plain, key, nonce, ads, m);
        lemma_chunk_start(plain.len(), m as int);
        let p = sealed_prefix(plain, key, nonce, ads, m);
        let c = sealed_chunk(key, nonce, plain_chunk(plain, m as int), ads[m as int]);
        assert(xchacha_seal(key, nonce, plain_chunk(plain, m as int), ads[m as int]).len()
            == plain_chunk(plain, m as int).len() + 16);
        assert(sealed_prefix(plain, key, nonce, ads, n) == p + c);
        assert forall|i: int| 0 <= i < n implies #[trigger] sealed_prefix(
            plain,
            key,
            nonce,
            ads,
            n,
        ).subrange(176 * i, 176 * i + 48 + plain_chunk(plain, i).len()) == sealed_chunk(
            key,
            nonce,
            plain_chunk(plain, i),
            ads[i],
        ) by {
            lemma_chunk_start(plain.len(), i);
            if i < m {
                assert(p.subrange(176 * i, 176 * i + 48 + plain_chunk(plain, i).len())
                    == sealed_chunk(key, nonce, plain_chunk(plain, i), ads[i]));
                assert((p + c).subrange(176 * i, 176 * i + 48 + plain_chunk(plain, i).len())
                    =~= p.subrange(176 * i, 176 * i + 48 + plain_chunk(plain, i).len()));
            } else {
                assert((p + c).subrange(176 * i, 176 * i + 48 + plain_chunk(plain, i).len())
                    =~= c);
            }
        }
    }
}

/// The sealed chunks of a plaintext are read back, piece by piece, by cutting
/// the sealed body every 176 bytes; the body is never malformed.
pub proof fn lemma_sealed_layout(plain: Seq<u8>, key: Seq<u8>, nonce: Seq<u8>, ads: Seq<Seq<u8>>)
    requires
        ads.len() == chunk_count(plain.len()),
        forall|i: int| 0 <= i < ads.len() ==> (#[trigger] ads[i]).len() == 32,
        seal_lengths_hold(plain, key, nonce, ads),
    ensures
        ({
            let body = sealed_prefix(plain, key, nonce, ads, chunk_count(plain.len()));
            &&& body.len() == 48 * chunk_count(plain.len()) + plain.len()
            &&& piece_count(body.len()) == chunk_count(plain.len())
            &&& (body.len() % 176 == 0 || body.len() % 176 >= 48)
            &&& forall|i: int|
                0 <= i < chunk_count(plain.len()) ==> #[trigger] sealed_piece(body, i)
                    == sealed_chunk(key, nonce, plain_chunk(plain, i), ads[i])
        }),
{
    let cc = chunk_count(plain.len());
    let body = sealed_prefix(plain, key, nonce, ads, cc);
    lemma_sealed_prefix(plain, key, nonce, ads, cc);
    if cc > 0 {
        lemma_chunk_start(plain.len(), cc - 1);
    }
    assert forall|i: int| 0 <= i < cc implies #[trigger] sealed_piece(body, i) == sealed_chunk(
        key,
        nonce,
        plain_chunk(plain, i),
        ads[i],
    ) by {
        lemma_chunk_start(plain.len(), i);
        assert(body.subrange(176 * i, 176 * i + 48 + plain_chunk(plain, i).len())
            == sealed_chunk(key, nonce, plain_chunk(plain, i), ads[i]));
    }
}


// ---------------------------------------------------------------------------
// Sealing and opening single chunks
// ---------------------------------------------------------------------------

/// Splits a stored piece into its 32 bytes of associated data and the sealed rest.
pub fn simple_split_encrypted(cipher_text: &[u8]) -> (res: (Vec<u8>, Vec<u8>))
    requires
        cipher_text@.len() >= CHACHA_KEYSIZE,
    ensures
        res.0@ == cipher_text@.take(32),
        res.1@ == cipher_text@.skip(32),
{
    let ad = slice_to_vec(slice_subrange(cipher_text, 0, CHACHA_KEYSIZE));
    let rest = slice_to_vec(slice_subrange(cipher_text, CHACHA_KEYSIZE, cipher_text.len()));
    (ad, rest)
}

/// Derives the 32-byte key of a file from its secret, salted with the file's nonce.
pub fn create_key(password: &str, nonce: &[u8]) -> (res: Result<Vec<u8>, CryptoError>)
    ensures
        res is Ok <==> (password_ok(password.spec_bytes()) && 8 <= nonce@.len() <= 0xFFFF_FFFF),
        res matches Ok(k) ==> k@ == file_key(password.spec_bytes(), nonce@) && k@.len() == 32,
        res is Err ==> res == Err::<Vec<u8>, CryptoError>(CryptoError::KeyDerivation),
{
    match derive_key(password.as_bytes(), nonce, KDF_ITERATIONS, KDF_MEMORY, 32) {
        Ok(key) => Ok(key),
        Err(_) => Err(CryptoError::KeyDerivation),
    }
}

/// Seals one chunk under `key` and `nonce` with the associated data `ad`,
/// and returns `ad` followed by the ciphertext and its tag.
pub fn seal_chunk(contents: &[u8], key: &[u8], nonce: &[u8], ad: &[u8]) -> (res: Result<
    Vec<u8>,
    CryptoError,
>)
    requires
        ad@.len() == CHACHA_KEYSIZE,
        contents@.len() <= SEAL_MAX,
        contents@.len() + POLY1305_OUTSIZE + CHACHA_KEYSIZE <= usize::MAX,
    ensures
        res is Ok <==> (key@.len() == 32 && nonce@.len() == 24),
        res matches Ok(out) ==> out@ == sealed_chunk(key@, nonce@, contents@, ad@)
            && out@.len() == contents@.len() + 48,
        res is Err ==> res == Err::<Vec<u8>, CryptoError>(CryptoError::Sealing),
{
    let sealed_len: usize = contents.len() + POLY1305_OUTSIZE;
    let mut sealed: Vec<u8> = vec![0u8; sealed_len];
    match seal(key, nonce, contents, ad, &mut sealed) {
        Ok(()) => {
            let mut output = slice_to_vec(ad);
            assert(sealed@.take(contents@.len() + 16int) =~= sealed@);
            output.append(&mut sealed);
            Ok(output)
        },
        Err(_) => Err(CryptoError::Sealing),
    }
}

/// Seals one chunk under `key` and `nonce` with fresh random associated data,
/// and returns that associated data followed by the ciphertext and its tag.
pub fn encrypt_core(contents: &[u8], key: &[u8], nonce: &[u8]) -> (res: Result<Vec<u8>, CryptoError>)
    requires
        contents@.len() <= SEAL_MAX,
        contents@.len() + POLY1305_OUTSIZE + CHACHA_KEYSIZE <= usize::MAX,
    ensures
        res is Ok <==> (key@.len() == 32 && nonce@.len() == 24),
        res matches Ok(out) ==> out@.len() == contents@.len() + 48 && out@ == sealed_chunk(
            key@,
            nonce@,
            contents@,
            out@.take(32),
        ),
        res is Err ==> res == Err::<Vec<u8>, CryptoError>(CryptoError::Sealing),
{
    let ad = auth_tag();
    let res = seal_chunk(contents, key, nonce, ad.as_slice());
    proof {
        if res is Ok {
            assert(res->Ok_0@.take(32) =~= ad@);
        }
    }
    res
}

/// Opens one stored piece (associated data, ciphertext, tag) under `key` and `nonce`.
pub fn decrypt_core(contents: &[u8], key: &[u8], nonce: &[u8]) -> (res: Result<Vec<u8>, CryptoError>)
    requires
        contents@.len() >= CHACHA_KEYSIZE + POLY1305_OUTSIZE,
        contents@.len() <= SEAL_MAX + 48,
    ensures
        res is Ok <==> (key@.len() == 32 && nonce@.len() == 24 && exists|p: Seq<u8>|
            p.len() + 48 == contents@.len() && #[trigger] xchacha_seal(
                key@,
                nonce@,
                p,
                contents@.take(32),
            ) == contents@.skip(32)),
        res matches Ok(p) ==> p@.len() + 48 == contents@.len() && contents@.skip(32)
            == xchacha_seal(key@, nonce@, p@, contents@.take(32)),
        forall|p: Seq<u8>|
            key@.len() == 32 && nonce@.len() == 24 && p.len() + 48
                == contents@.len() && #[trigger] xchacha_seal(key@, nonce@, p, contents@.take(32))
                == contents@.skip(32) ==> (res matches Ok(q) && q@ == p),
        res is Err ==> res == Err::<Vec<u8>, CryptoError>(CryptoError::Authentication),
{
    let (ad, rest) = simple_split_encrypted(contents);
    let plain_len: usize = rest.len() - POLY1305_OUTSIZE;
    let mut output: Vec<u8> = vec![0u8; plain_len];
    let r = open(key, nonce, rest.as_slice(), ad.as_slice(), &mut output);
    assert(output@.take(rest@.len() - 16) =~= output@);
    match r {
        Ok(()) => Ok(output),
        Err(_) => Err(CryptoError::Authentication),
    }
}


/// The sealed prefix only depends on the associated data of the chunks it holds.
proof fn lemma_sealed_prefix_ads(
    plain: Seq<u8>,
    key: Seq<u8>,
    nonce: Seq<u8>,
    ads1: Seq<Seq<u8>>,
    ads2: Seq<Seq<u8>>,
    n: nat,
)
    requires
        forall|j: int| 0 <= j < n ==> ads1[j] == ads2[j],
    ensures
        sealed_prefix(plain, key, nonce, ads1, n) == sealed_prefix(plain, key, nonce, ads2, n),
    decreases n,
{
    if n > 0 {
        lemma_sealed_prefix_ads(plain, key, nonce, ads1, ads2, (n - 1) as nat);
    }
}

/// Joining the first `n` plaintext chunks gives back the start of the plaintext.
proof fn lemma_join_chunks(plain: Seq<u8>, n: nat)
    requires
        n <= chunk_count(plain.len()),
    ensures
        join(Seq::new(n, |i: int| plain_chunk(plain, i))) == plain.take(
            min_int(128 * (n as int), plain.len() as int),
        ),
    decreases n,
{
    let ps = Seq::new(n, |i: int| plain_chunk(plain, i));
    if n > 0 {
        let m = (n - 1) as nat;
        lemma_join_chunks(plain, m);
        lemma_chunk_start(plain.len(), m as int);
        assert(ps.drop_last() =~= Seq::new(m, |i: int| plain_chunk(plain, i)));
        assert(join(ps) =~= plain.take(min_int(128 * (n as int), plain.len() as int)));
    } else {
        assert(join(ps) =~= plain.take(0));
    }
}

/// A stored file holding `plain` is well formed, its pieces are the sealed
/// chunks of `plain` in order, and it opens to `plain` again.
pub proof fn lemma_stored_file_opens(data: Seq<u8>, plain: Seq<u8>, password: Seq<u8>)
    requires
        is_encryption_of(data, plain, password),
    ensures
        !malformed(data),
        piece_count(file_body(data).len()) == chunk_count(plain.len()),
        forall|i: int|
            0 <= i < chunk_count(plain.len()) ==> (#[trigger] piece_ct(data, i)) == xchacha_seal(
                file_key(password, file_nonce(data)),
                file_nonce(data),
                plain_chunk(plain, i),
                piece_ad(data, i),
            ) && piece_ct(data, i).len() == plain_chunk(plain, i).len() + 16,
        opens_as(data, password, Seq::new(chunk_count(plain.len()), |i: int| plain_chunk(plain, i))),
        join(Seq::new(chunk_count(plain.len()), |i: int| plain_chunk(plain, i))) == plain,
        decrypts_to(data, password, plain),
{
    let nonce = file_nonce(data);
    let key = file_key(password, nonce);
    let ads = stored_ads(data);
    let cc = chunk_count(plain.len());
    let body = file_body(data);
    lemma_sealed_layout(plain, key, nonce, ads);
    assert forall|i: int| 0 <= i < cc implies (#[trigger] piece_ct(data, i)) == xchacha_seal(
        key,
        nonce,
        plain_chunk(plain, i),
        piece_ad(data, i),
    ) && piece_ct(data, i).len() == plain_chunk(plain, i).len() + 16 by {
        assert(sealed_piece(body, i) == sealed_chunk(key, nonce, plain_chunk(plain, i), ads[i]));
        assert(xchacha_seal(key, nonce, plain_chunk(plain, i), ads[i]).len()
            == plain_chunk(plain, i).len() + 16);
        assert(piece_ad(data, i) =~= ads[i]);
        assert(piece_ct(data, i) =~= xchacha_seal(key, nonce, plain_chunk(plain, i), ads[i]));
    }
    let ps = Seq::new(cc, |i: int| plain_chunk(plain, i));
    assert forall|i: int| 0 <= i < ps.len() implies (#[trigger] ps[i]).len() + 16 == piece_ct(
        data,
        i,
    ).len() && piece_ct(data, i) == xchacha_seal(key, nonce, ps[i], piece_ad(data, i)) by {
        assert(piece_ct(data, i) == xchacha_seal(key, nonce, plain_chunk(plain, i), piece_ad(data, i)));
    }
    assert(opens_as(data, password, ps));
    lemma_join_chunks(plain, cc);
    if cc > 0 {
        lemma_chunk_start(plain.len(), cc - 1);
    }
    assert(plain.take(min_int(128 * (cc as int), plain.len() as int)) =~= plain);
    assert(join(ps) == plain);
}

// ---------------------------------------------------------------------------
// Whole files
// ---------------------------------------------------------------------------

/// Encrypts the contents of a file under `password`: a fresh random nonce,
/// then each 128-byte chunk sealed under the key derived from the password
/// and that nonce, with fresh random associated data in front of it.
pub fn encrypt_large_file(src: &[u8], password: &str) -> (res: Result<Vec<u8>, CryptoError>)
    ensures
        res is Ok <==> password_ok(password.spec_bytes()),
        res matches Ok(out) ==> is_encryption_of(out@, src@, password.spec_bytes()),
        res is Err ==> res == Err::<Vec<u8>, CryptoError>(CryptoError::KeyDerivation),
{
    let nonce = nonce();
    let key = match create_key(password, nonce.as_slice()) {
        Ok(k) => k,
        Err(e) => {
            return Err(e);
        },
    };
    let ghost pw = password.spec_bytes();
    let ghost len = src@.len();
    let ghost cc = chunk_count(len);
    let mut out = slice_to_vec(nonce.as_slice());
    let ghost mut ads: Seq<Seq<u8>> = Seq::empty();
    let mut off: usize = 0;
    let mut i: usize = 0;
    while off < src.len()
        invariant
            off == min_int(128 * (i as int), len as int),
            i <= cc,
            off < len ==> i < cc,
            off == len ==> i == cc,
            len == src@.len(),
            cc == chunk_count(len),
            nonce@.len() == 24,
            key@ == file_key(pw, nonce@),
            key@.len() == 32,
            ads.len() == i,
            forall|j: int| 0 <= j < i ==> (#[trigger] ads[j]).len() == 32,
            forall|j: int|
                0 <= j < i ==> (#[trigger] xchacha_seal(
                    key@,
                    nonce@,
                    plain_chunk(src@, j),
                    ads[j],
                )).len() == plain_chunk(src@, j).len() + 16,
            out@ == nonce@ + sealed_prefix(src@, key@, nonce@, ads, i as nat),
        decreases len - off,
    {
        proof {
            lemma_chunk_start(len, i as int);
        }
        let end: usize = if src.len() - off > CHUNK_SIZE {
            off + CHUNK_SIZE
        } else {
            src.len()
        };
        let chunk = slice_subrange(src, off, end);
        assert(chunk@ == plain_chunk(src@, i as int));
        let mut sealed = match encrypt_core(chunk, key.as_slice(), nonce.as_slice()) {
            Ok(s) => s,
            Err(e) => {
                return Err(e);
            },
        };
        let ghost ad = sealed@.take(32);
        let ghost old_ads = ads;
        proof {
            ads = ads.push(ad);
            lemma_sealed_prefix_ads(src@, key@, nonce@, old_ads, ads, i as nat);
            assert(sealed@ =~= ad + sealed@.skip(32));
            assert(sealed@.skip(32) == xchacha_seal(key@, nonce@, chunk@, ad));
        }
        let ghost before = out@;
        out.append(&mut sealed);
        proof {
            assert(sealed_prefix(src@, key@, nonce@, ads, (i + 1) as nat) == sealed_prefix(
                src@,
                key@,
                nonce@,
                ads,
                i as nat,
            ) + sealed_chunk(key@, nonce@, plain_chunk(src@, i as int), ads[i as int]));
            assert(out@ =~= nonce@ + sealed_prefix(src@, key@, nonce@, ads, (i + 1) as nat));
        }
        off = end;
        i = i + 1;
    }
    proof {
        let body = sealed_prefix(src@, key@, nonce@, ads, cc);
        assert(seal_lengths_hold(src@, key@, nonce@, ads));
        lemma_sealed_layout(src@, key@, nonce@, ads);
        assert(file_nonce(out@) =~= nonce@);
        assert(file_body(out@) =~= body);
        assert forall|j: int| 0 <= j < cc implies #[trigger] piece_ad(out@, j) == ads[j] by {
            assert(sealed_piece(body, j) == sealed_chunk(key@, nonce@, plain_chunk(src@, j), ads[j]));
            assert(piece_ad(out@, j) =~= ads[j]);
        }
        assert(stored_ads(out@) =~= ads);
    }
    Ok(out)
}


/// Decrypts the contents of a stored file with `password` and appends the
/// plaintext to `out`: reads the nonce, derives the key, then opens each
/// 176-byte piece (associated data, ciphertext, tag) and appends its
/// plaintext, stopping at the first piece that does not open.
pub fn decrypt_large_file(data: &[u8], password: &str, out: &mut Vec<u8>) -> (res: Result<
    (),
    CryptoError,
>)
    ensures
        final(out)@.len() >= old(out)@.len(),
        final(out)@.take(old(out)@.len() as int) == old(out)@,
        malformed(data@) <==> res == Err::<(), CryptoError>(CryptoError::Malformed),
        (!malformed(data@) && !password_ok(password.spec_bytes())) <==> res == Err::<
            (),
            CryptoError,
        >(CryptoError::KeyDerivation),
        (res == Err::<(), CryptoError>(CryptoError::Malformed) || res == Err::<(), CryptoError>(
            CryptoError::KeyDerivation,
        )) ==> final(out)@ == old(out)@,
        (!malformed(data@) && password_ok(password.spec_bytes()) && exists|ps: Seq<Seq<u8>>|
            opens_as(data@, password.spec_bytes(), ps)) <==> res is Ok,
        res is Ok ==> decrypts_to(
            data@,
            password.spec_bytes(),
            final(out)@.skip(old(out)@.len() as int),
        ),
        (!malformed(data@) && password_ok(password.spec_bytes()) && !exists|ps: Seq<Seq<u8>>|
            opens_as(data@, password.spec_bytes(), ps)) ==> res == Err::<(), CryptoError>(
            CryptoError::Authentication,
        ),
        res == Err::<(), CryptoError>(CryptoError::Authentication) ==> opens_up_to_bad_piece(
            data@,
            password.spec_bytes(),
            final(out)@.skip(old(out)@.len() as int),
        ),
        res == Err::<(), CryptoError>(CryptoError::Authentication) ==> forall|ps: Seq<Seq<u8>>|
            #[trigger] opens_prefix(data@, password.spec_bytes(), ps) && ps.len() < piece_count(
                file_body(data@).len(),
            ) && !(exists|p: Seq<u8>|
                piece_opens_to(data@, password.spec_bytes(), ps.len() as int, p)) ==> join(ps)
                == final(out)@.skip(old(out)@.len() as int),
        res is Ok ==> forall|ps: Seq<Seq<u8>>|
            #[trigger] opens_as(data@, password.spec_bytes(), ps) ==> join(ps)
                == final(out)@.skip(old(out)@.len() as int),
        forall|plain: Seq<u8>|
            #[trigger] is_encryption_of(data@, plain, password.spec_bytes()) ==> res is Ok
                && final(out)@ == old(out)@ + plain,
{
    let ghost pw = password.spec_bytes();
    let ghost d = data@;
    let ghost start = out@;
    proof {
        assert forall|plain: Seq<u8>| #[trigger] is_encryption_of(d, plain, pw) implies !malformed(
            d,
        ) by {
            lemma_stored_file_opens(d, plain, pw);
        }
        assert(out@.take(start.len() as int) =~= start);
    }
    if data.len() < XCHACHA_NONCESIZE {
        return Err(CryptoError::Malformed);
    }
    let body_len: usize = data.len() - XCHACHA_NONCESIZE;
    let rem: usize = body_len % SEALED_CHUNK_SIZE;
    if rem != 0 && rem < CHACHA_KEYSIZE + POLY1305_OUTSIZE {
        return Err(CryptoError::Malformed);
    }
    assert(!malformed(d));
    let nonce = slice_subrange(data, 0, XCHACHA_NONCESIZE);
    let body = slice_subrange(data, XCHACHA_NONCESIZE, data.len());
    assert(nonce@ == file_nonce(d));
    assert(body@ == file_body(d));
    let key = match create_key(password, nonce) {
        Ok(k) => k,
        Err(e) => {
            return Err(e);
        },
    };
    let ghost pc = piece_count(body_len as nat);
    let ghost has_w = exists|ps: Seq<Seq<u8>>| opens_as(d, pw, ps);
    let ghost w = choose|ps: Seq<Seq<u8>>| opens_as(d, pw, ps);
    let ghost mut ps: Seq<Seq<u8>> = Seq::empty();
    let mut off: usize = 0;
    let mut i: usize = 0;
    assert(out@ =~= start + join(ps));
    while off < body.len()
        invariant
            off < body_len ==> off == 176 * i,
            off == body_len ==> i == pc,
            i <= pc,
            off <= body_len,
            body_len == body@.len(),
            body@ == file_body(d),
            nonce@ == file_nonce(d),
            d == data@,
            start == old(out)@,
            pw == password.spec_bytes(),
            has_w == exists|qs: Seq<Seq<u8>>| opens_as(d, pw, qs),
            !malformed(d),
            password_ok(pw),
            pc == piece_count(body_len as nat),
            off < body_len <==> i < pc,
            rem == body_len % 176,
            !(rem != 0 && rem < 48),
            key@ == file_key(pw, nonce@),
            key@.len() == 32,
            nonce@.len() == 24,
            has_w ==> opens_as(d, pw, w),
            has_w ==> ps =~= w.take(i as int),
            ps.len() == i,
            opens_prefix(d, pw, ps),
            forall|j: int, p: Seq<u8>|
                0 <= j < i && #[trigger] piece_opens_to(d, pw, j, p) ==> p == ps[j],
            out@ == start + join(ps),
            forall|plain: Seq<u8>|
                #[trigger] is_encryption_of(d, plain, pw) ==> join(ps) == plain.take(
                    min_int(128 * (i as int), plain.len() as int),
                ),
        decreases body_len - off,
    {
        let end: usize = if body.len() - off > SEALED_CHUNK_SIZE {
            off + SEALED_CHUNK_SIZE
        } else {
            body.len()
        };
        let piece = slice_subrange(body, off, end);
        assert(piece@ == sealed_piece(body@, i as int));
        assert(piece@.len() >= 48);
        assert(piece@.take(32) == piece_ad(d, i as int));
        assert(piece@.skip(32) == piece_ct(d, i as int));
        let r = decrypt_core(piece, key.as_slice(), nonce);
        proof {
            if has_w {
                assert(piece_opens_to(d, pw, i as int, w[i as int]));
                assert(xchacha_seal(key@, nonce@, w[i as int], piece@.take(32)) == piece@.skip(32));
            }
            assert forall|plain: Seq<u8>| #[trigger] is_encryption_of(d, plain, pw) implies (r matches Ok(
                q,
            ) && q@ == plain_chunk(plain, i as int)) by {
                lemma_stored_file_opens(d, plain, pw);
                assert(piece_ct(d, i as int) == xchacha_seal(
                    key@,
                    nonce@,
                    plain_chunk(plain, i as int),
                    piece_ad(d, i as int),
                ));
                assert(xchacha_seal(key@, nonce@, plain_chunk(plain, i as int), piece@.take(32))
                    == piece@.skip(32));
            }
        }
        let mut chunk = match r {
            Ok(c) => c,
            Err(e) => {
                proof {
                    assert forall|plain: Seq<u8>| !#[trigger] is_encryption_of(d, plain, pw) by {}
                    assert(!exists|p: Seq<u8>| piece_opens_to(d, pw, i as int, p)) by {
                        if exists|p: Seq<u8>| piece_opens_to(d, pw, i as int, p) {
                            let p = choose|p: Seq<u8>| piece_opens_to(d, pw, i as int, p);
                            assert(xchacha_seal(key@, nonce@, p, piece@.take(32)) == piece@.skip(
                                32,
                            ));
                        }
                    }
                    assert(out@.skip(start.len() as int) =~= join(ps));
                    assert(out@.take(start.len() as int) =~= start);
                    assert(opens_up_to_bad_piece(d, pw, out@.skip(start.len() as int)));
                    assert forall|ps2: Seq<Seq<u8>>|
                        #[trigger] opens_prefix(d, pw, ps2) && ps2.len() < pc && !(exists|p: Seq<u8>|
                            piece_opens_to(d, pw, ps2.len() as int, p)) implies join(ps2) == join(
                        ps,
                    ) by {
                        if ps2.len() < i {
                            assert(piece_opens_to(d, pw, ps2.len() as int, ps[ps2.len() as int]));
                        } else if ps2.len() > i {
                            assert(piece_opens_to(d, pw, i as int, ps2[i as int]));
                        } else {
                            assert forall|j: int| 0 <= j < i implies ps2[j] == ps[j] by {
                                assert(piece_opens_to(d, pw, j, ps2[j]));
                            }
                            assert(ps2 =~= ps);
                        }
                    }
                }
                return Err(e);
            },
        };
        let ghost old_ps = ps;
        proof {
            ps = ps.push(chunk@);
            assert(ps.drop_last() =~= old_ps);
            assert(piece_opens_to(d, pw, i as int, chunk@));
            assert(opens_prefix(d, pw, ps));
            assert forall|j: int, p: Seq<u8>|
                0 <= j < i + 1 && #[trigger] piece_opens_to(d, pw, j, p) implies p == ps[j] by {
                if j == i {
                    assert(xchacha_seal(key@, nonce@, p, piece@.take(32)) == piece@.skip(32));
                }
            }
        }
        out.append(&mut chunk);
        proof {
            assert(out@ =~= start + join(ps));
            assert forall|plain: Seq<u8>| #[trigger] is_encryption_of(d, plain, pw) implies join(ps)
                == plain.take(min_int(128 * (i + 1), plain.len() as int)) by {
                lemma_stored_file_opens(d, plain, pw);
                lemma_chunk_start(plain.len(), i as int);
                assert(join(ps) =~= plain.take(min_int(128 * (i + 1), plain.len() as int)));
            }
        }
        off = end;
        i = i + 1;
    }
    proof {
        assert(opens_as(d, pw, ps));
        assert(out@.skip(start.len() as int) =~= join(ps));
        assert forall|ps2: Seq<Seq<u8>>| #[trigger] opens_as(d, pw, ps2) implies join(ps2) == join(
            ps,
        ) by {
            assert forall|j: int| 0 <= j < i implies ps2[j] == ps[j] by {
                assert(piece_opens_to(d, pw, j, ps2[j]));
            }
            assert(ps2 =~= ps);
        }
        assert forall|plain: Seq<u8>| #[trigger] is_encryption_of(d, plain, pw) implies out@
            == start + plain by {
            lemma_stored_file_opens(d, plain, pw);
            let cc = chunk_count(plain.len());
            if cc > 0 {
                lemma_chunk_start(plain.len(), cc - 1);
            }
            assert(plain.take(min_int(128 * (i as int), plain.len() as int)) =~= plain);
        }
        assert(out@.take(start.len() as int) =~= start);
    }
    Ok(())
}

} // verus!
