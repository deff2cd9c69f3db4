//! The hybrid crypto envelope: offers and answers travel as an
//! RSA-OAEP-wrapped AES-256-GCM payload. The RSA and AES operations
//! are performed by outside crates behind the trusted items below;
//! the chaining, the length gates, and the round-trip law are
//! verified here.

use vstd::prelude::*;

verus! {

/// RSA key size in bits.
pub const RSA_BIT_SIZE: usize = 4096;

/// AES key size in bytes.
pub const AES_KEY_SIZE: usize = 32;

/// AES init vector size in bytes.
pub const AES_IV_SIZE: usize = 12;

/// Failure of the crypto envelope. It deliberately carries no detail
/// of which step failed, so nothing of the failure leaks to a remote.
#[derive(Debug, Clone, Copy, PartialEq, Eq, Structural)]
pub struct CryptoError;

#[verifier::external_type_specification]
#[verifier::external_body]
pub struct ExRsaPrivateKey(rsa::RsaPrivateKey);

#[verifier::external_type_specification]
#[verifier::external_body]
pub struct ExRsaPublicKey(rsa::RsaPublicKey);

#[verifier::external_type_specification]
#[verifier::external_body]
pub struct ExChaCha20Rng(rand_chacha::ChaCha20Rng);

/// What RSA-OAEP-SHA-256 decryption returns under the private key
/// whose public-key PEM is `pem`, for ciphertext `ct`. The public
/// modulus and exponent determine the outcome mathematically, so the
/// public PEM identifies the decryption function.
pub uninterp spec fn rsa_oaep_decrypt_spec(pem: Seq<char>, ct: Seq<u8>) -> Option<Seq<u8>>;

/// The AES-256-GCM ciphertext of `plain` under `key` and nonce `iv`;
/// a deterministic function of the three.
pub uninterp spec fn aes_gcm_encrypt_spec(key: Seq<u8>, iv: Seq<u8>, plain: Seq<u8>) -> Seq<u8>;

/// What AES-256-GCM decryption of `ct` under `key` and nonce `iv`
/// returns; a deterministic function of the three.
pub uninterp spec fn aes_gcm_decrypt_spec(key: Seq<u8>, iv: Seq<u8>, ct: Seq<u8>) -> Option<
    Seq<u8>,
>;

/// Whether RSA-OAEP-SHA-256 under the key with public PEM `pem` can
/// encrypt a message of `n` bytes: a function of the modulus size
/// and the hash length alone.
pub uninterp spec fn oaep_fits(pem: Seq<char>, n: int) -> bool;

/// The largest plaintext AES-256-GCM accepts, in bytes.
pub const AES_GCM_MAX_PLAIN: u64 = 0x10_0000_0000;

/// An RSA private key together with the PEM encodings this library
/// needs. The fields are paired by the constructors of this module
/// alone: `public_pem` is the PEM of exactly `inner`'s public key,
/// and the trusted contracts below use it to identify the key.
#[derive(Debug)]
pub struct PrivateKey {
    inner: rsa::RsaPrivateKey,
    public_pem: String,
    private_pem: String,
}

/// An RSA public key together with its PEM encoding, paired by the
/// constructors of this module alone.
#[derive(Debug)]
pub struct PublicKey {
    inner: rsa::RsaPublicKey,
    public_pem: String,
}

impl PrivateKey {
    /// The PEM of this key's public half, which identifies the key in
    /// every contract of this module.
    pub closed spec fn pem(&self) -> Seq<char> {
        self.public_pem@
    }

    /// The PEM of the private key itself.
    pub closed spec fn priv_pem(&self) -> Seq<char> {
        self.private_pem@
    }

    /// The PEM encoding of this key's public half.
    pub fn public_pem(&self) -> (r: &String)
        ensures
            r@ == self.pem(),
    {
        &self.public_pem
    }

    /// The PEM encoding of the private key.
    pub fn private_pem(&self) -> (r: &String)
        ensures
            r@ == self.priv_pem(),
    {
        &self.private_pem
    }

    /// Relies on rsa's `RsaPrivateKey::decrypt` with OAEP-SHA-256
    /// padding: the outcome is a function of the key, identified by
    /// its public PEM, and of the ciphertext alone.
    #[verifier::external_body]
    fn oaep_decrypt(&self, ct: &Vec<u8>) -> (r: Option<Vec<u8>>)
        ensures
            match r {
                Some(p) => rsa_oaep_decrypt_spec(self.pem(), ct@) == Some(p@),
                None => rsa_oaep_decrypt_spec(self.pem(), ct@) is None,
            },
    {
        self.inner.decrypt(rsa::Oaep::new::<sha2::Sha256>(), ct.as_slice()).ok()
    }
}

impl PublicKey {
    /// The key's PEM encoding, which identifies it in every contract
    /// of this module.
    pub closed spec fn pem(&self) -> Seq<char> {
        self.public_pem@
    }

    /// The PEM encoding of this key.
    pub fn pem_string(&self) -> (r: &String)
        ensures
            r@ == self.pem(),
    {
        &self.public_pem
    }

    /// Relies on rsa's `RsaPublicKey::encrypt` with OAEP-SHA-256
    /// padding: a ciphertext it returns decrypts, under the matching
    /// private key, to exactly the message (RSAES-OAEP correctness),
    /// and it refuses only messages too long for the modulus. The
    /// ciphertext itself is randomized, so nothing more is promised
    /// of it.
    #[verifier::external_body]
    fn oaep_encrypt(&self, rng: &mut rand_chacha::ChaCha20Rng, m: &Vec<u8>) -> (r: Option<Vec<u8>>)
        ensures
            r matches Some(ct) ==> rsa_oaep_decrypt_spec(self.pem(), ct@) == Some(m@),
            r is None ==> !oaep_fits(self.pem(), m@.len() as int),
    {
        self.inner.encrypt(rng, rsa::Oaep::new::<sha2::Sha256>(), m.as_slice()).ok()
    }
}

/// Relies on `ChaCha20Rng::from_entropy`: a CSPRNG freshly seeded
/// from operating-system entropy. Nothing can be promised of its
/// output.
#[verifier::external_body]
pub(crate) fn fresh_rng() -> rand_chacha::ChaCha20Rng {
    <rand_chacha::ChaCha20Rng as rand_chacha::rand_core::SeedableRng>::from_entropy()
}

/// Relies on `ChaCha20Rng::fill_bytes`: fills a buffer with random
/// bytes; only the length is promised.
#[verifier::external_body]
fn random_bytes(rng: &mut rand_chacha::ChaCha20Rng, n: usize) -> (r: Vec<u8>)
    ensures
        r@.len() == n,
{
    let mut v = vec![0u8; n];
    rand_chacha::rand_core::RngCore::fill_bytes(rng, v.as_mut_slice());
    v
}

/// Relies on rsa's `RsaPrivateKey::new`: generates a fresh key of the
/// given bit size from the CSPRNG. Nothing can be promised of a
/// random key.
#[verifier::external_body]
fn rsa_generate(rng: &mut rand_chacha::ChaCha20Rng, bits: usize) -> (r: Option<
    rsa::RsaPrivateKey,
>) {
    rsa::RsaPrivateKey::new(rng, bits).ok()
}

/// Relies on pkcs8's `EncodePublicKey::to_public_key_pem` for the
/// rsa public key type: the key's PEM encoding.
#[verifier::external_body]
fn rsa_public_pem_of(k: &rsa::RsaPublicKey) -> (r: Option<String>) {
    rsa::pkcs8::EncodePublicKey::to_public_key_pem(k, rsa::pkcs8::LineEnding::LF).ok()
}

/// Relies on pkcs8's `EncodePrivateKey::to_pkcs8_pem` for the rsa key
/// type: the PEM of the private key.
#[verifier::external_body]
fn rsa_private_pem_of(k: &rsa::RsaPrivateKey) -> (r: Option<String>) {
    match rsa::pkcs8::EncodePrivateKey::to_pkcs8_pem(k, rsa::pkcs8::LineEnding::LF) {
        Ok(z) => Some(z.as_str().to_string()),
        Err(_) => None,
    }
}

/// Relies on rsa's `RsaPrivateKey::to_public_key`: the public half of
/// the key.
#[verifier::external_body]
fn rsa_public_key_of(k: &rsa::RsaPrivateKey) -> rsa::RsaPublicKey {
    k.to_public_key()
}

/// Relies on aes-gcm's `Aes256Gcm` encryption: deterministic in key,
/// nonce, and plaintext, inverted by decryption under the same key
/// and nonce (AEAD correctness), and failing only on plaintexts over
/// the cipher's length limit.
#[verifier::external_body]
fn aes256_gcm_encrypt(key: &Vec<u8>, iv: &Vec<u8>, plain: &Vec<u8>) -> (r: Option<Vec<u8>>)
    requires
        key@.len() == 32,
        iv@.len() == 12,
    ensures
        r matches Some(ct) ==> ct@ == aes_gcm_encrypt_spec(key@, iv@, plain@)
            && aes_gcm_decrypt_spec(key@, iv@, ct@) == Some(plain@),
        plain@.len() <= AES_GCM_MAX_PLAIN ==> r is Some,
{
    let cipher = <aes_gcm::Aes256Gcm as aes_gcm::KeyInit>::new(
        aes_gcm::Key::<aes_gcm::Aes256Gcm>::from_slice(key.as_slice()),
    );
    aes_gcm::aead::Aead::encrypt(
        &cipher,
        aes_gcm::Nonce::from_slice(iv.as_slice()),
        plain.as_slice(),
    ).ok()
}

/// Relies on aes-gcm's `Aes256Gcm` decryption: a deterministic
/// function of key, nonce, and ciphertext.
#[verifier::external_body]
fn aes256_gcm_decrypt(key: &Vec<u8>, iv: &Vec<u8>, ct: &Vec<u8>) -> (r: Option<Vec<u8>>)
    requires
        key@.len() == 32,
        iv@.len() == 12,
    ensures
        match r {
            Some(p) => aes_gcm_decrypt_spec(key@, iv@, ct@) == Some(p@),
            None => aes_gcm_decrypt_spec(key@, iv@, ct@) is None,
        },
{
    let cipher = <aes_gcm::Aes256Gcm as aes_gcm::KeyInit>::new(
        aes_gcm::Key::<aes_gcm::Aes256Gcm>::from_slice(key.as_slice()),
    );
    aes_gcm::aead::Aead::decrypt(
        &cipher,
        aes_gcm::Nonce::from_slice(iv.as_slice()),
        ct.as_slice(),
    ).ok()
}

/// Relies on zeroize's `Zeroize` for byte vectors: overwrites the
/// buffer and leaves it empty.
#[verifier::external_body]
fn wipe_bytes(v: &mut Vec<u8>)
    ensures
        final(v)@.len() == 0,
{
    zeroize::Zeroize::zeroize(v);
}

/// Relies on zeroize's `Zeroize` for strings: overwrites the buffer
/// and leaves it empty.
#[verifier::external_body]
fn wipe_string(s: &mut String)
    ensures
        final(s)@.len() == 0,
{
    zeroize::Zeroize::zeroize(s);
}

/// The encrypted envelope: the RSA-wrapped AES key, the GCM nonce,
/// and the AES-GCM ciphertext.
#[derive(Debug)]
pub struct Envelope {
    pub key: Vec<u8>,
    pub iv: Vec<u8>,
    pub payload: Vec<u8>,
}

/// What an envelope produced for message `m` under the public key
/// with PEM `pem` satisfies: a twelve-byte nonce, and some 32-byte
/// AES key that the RSA blob decrypts to, under which the payload
/// decrypts back to `m`.
pub open spec fn wraps(
    key: Seq<u8>,
    iv: Seq<u8>,
    payload: Seq<u8>,
    m: Seq<u8>,
    pem: Seq<char>,
) -> bool {
    &&& iv.len() == 12
    &&& exists|k: Seq<u8>|
        {
            &&& rsa_oaep_decrypt_spec(pem, key) == Some(k)
            &&& k.len() == 32
            &&& payload == aes_gcm_encrypt_spec(k, iv, m)
            &&& #[trigger] aes_gcm_decrypt_spec(k, iv, payload) == Some(m)
        }
}

/// What unwrapping an envelope under the private key with public PEM
/// `pem` yields: the nonce length gate, RSA-OAEP on the key blob, the
/// key length gate, then AES-GCM on the payload.
pub open spec fn unwrap_spec(key: Seq<u8>, iv: Seq<u8>, payload: Seq<u8>, pem: Seq<char>) -> Option<
    Seq<u8>,
> {
    if iv.len() != 12 {
        None
    } else {
        match rsa_oaep_decrypt_spec(pem, key) {
            None => None,
            Some(k) => if k.len() != 32 {
                None
            } else {
                aes_gcm_decrypt_spec(k, iv, payload)
            },
        }
    }
}

/// Law: an envelope wrapped for a public key unwraps, under the
/// matching private key, to exactly the original message.
pub proof fn lemma_wrap_unwrap(
    key: Seq<u8>,
    iv: Seq<u8>,
    payload: Seq<u8>,
    m: Seq<u8>,
    pem: Seq<char>,
)
    requires
        wraps(key, iv, payload, m, pem),
    ensures
        unwrap_spec(key, iv, payload, pem) == Some(m),
{
    let k = choose|k: Seq<u8>|
        {
            &&& rsa_oaep_decrypt_spec(pem, key) == Some(k)
            &&& k.len() == 32
            &&& payload == aes_gcm_encrypt_spec(k, iv, m)
            &&& #[trigger] aes_gcm_decrypt_spec(k, iv, payload) == Some(m)
        };
    assert(rsa_oaep_decrypt_spec(pem, key) == Some(k));
}

/// Encrypts `plain` for the holder of the private key matching
/// `remote_pub`: a fresh 32-byte AES key and 12-byte nonce, AES-GCM
/// for the payload, RSA-OAEP for the key. The plaintext AES key
/// buffer is wiped before return on every path. Failure is possible
/// only for a plaintext beyond the cipher's length limit, or a key
/// whose modulus cannot carry a 32-byte message.
pub fn wrap(plain: &Vec<u8>, remote_pub: &PublicKey, rng: &mut rand_chacha::ChaCha20Rng) -> (r:
    Result<Envelope, CryptoError>)
    ensures
        r matches Ok(e) ==> wraps(e.key@, e.iv@, e.payload@, plain@, remote_pub.pem()),
        r is Err ==> plain@.len() > AES_GCM_MAX_PLAIN || !oaep_fits(remote_pub.pem(), 32),
{
    let mut k = random_bytes(rng, AES_KEY_SIZE);
    let ghost k0 = k@;
    let iv = random_bytes(rng, AES_IV_SIZE);
    let payload = match aes256_gcm_encrypt(&k, &iv, plain) {
        Some(c) => c,
        None => {
            wipe_bytes(&mut k);
            return Err(CryptoError);
        },
    };
    let key = match remote_pub.oaep_encrypt(rng, &k) {
        Some(c) => c,
        None => {
            wipe_bytes(&mut k);
            return Err(CryptoError);
        },
    };
    wipe_bytes(&mut k);
    proof {
        assert(rsa_oaep_decrypt_spec(remote_pub.pem(), key@) == Some(k0));
        assert(aes_gcm_decrypt_spec(k0, iv@, payload@) == Some(plain@));
    }
    Ok(Envelope { key, iv, payload })
}

/// Decrypts an envelope under the home private key. Fails exactly
/// when the nonce is not twelve bytes, the RSA blob does not decrypt,
/// the decrypted AES key is not 32 bytes, or the payload does not
/// authenticate; the error never says which.
pub fn unwrap(envelope: &Envelope, home_priv: &PrivateKey) -> (r: Result<Vec<u8>, CryptoError>)
    ensures
        match r {
            Ok(p) => unwrap_spec(envelope.key@, envelope.iv@, envelope.payload@, home_priv.pem())
                == Some(p@),
            Err(_) => unwrap_spec(envelope.key@, envelope.iv@, envelope.payload@, home_priv.pem())
                is None,
        },
{
    if envelope.iv.len() != AES_IV_SIZE {
        return Err(CryptoError);
    }
    let mut k = match home_priv.oaep_decrypt(&envelope.key) {
        Some(k) => k,
        None => {
            return Err(CryptoError);
        },
    };
    if k.len() != AES_KEY_SIZE {
        wipe_bytes(&mut k);
        return Err(CryptoError);
    }
    let r = aes256_gcm_decrypt(&k, &envelope.iv, &envelope.payload);
    wipe_bytes(&mut k);
    match r {
        Some(p) => Ok(p),
        None => Err(CryptoError),
    }
}

/// Generates one RSA private key of the given bit size from a freshly
/// seeded CSPRNG, together with the PEM encodings this library needs.
pub fn gen_private_key(bits: usize) -> (r: Option<PrivateKey>) {
    let mut rng = fresh_rng();
    let inner = match rsa_generate(&mut rng, bits) {
        Some(k) => k,
        None => {
            return None;
        },
    };
    let public_half = rsa_public_key_of(&inner);
    let public_pem = match rsa_public_pem_of(&public_half) {
        Some(s) => s,
        None => {
            return None;
        },
    };
    let private_pem = match rsa_private_pem_of(&inner) {
        Some(s) => s,
        None => {
            return None;
        },
    };
    Some(PrivateKey { inner, public_pem, private_pem })
}

/// Generates the two unrelated private keys: the home key and the
/// remote key, each seeded independently.
pub fn gen_home_and_remote_keys() -> (r: Option<(PrivateKey, PrivateKey)>) {
    let home = match gen_private_key(RSA_BIT_SIZE) {
        Some(k) => k,
        None => {
            return None;
        },
    };
    let remote = match gen_private_key(RSA_BIT_SIZE) {
        Some(k) => k,
        None => {
            return None;
        },
    };
    Some((home, remote))
}

/// The public half of a private key, carrying the same PEM.
pub fn derive_public(key: &PrivateKey) -> (r: PublicKey)
    ensures
        r.pem() == key.pem(),
{
    PublicKey { inner: rsa_public_key_of(&key.inner), public_pem: key.public_pem.clone() }
}

/// The home public key and remote private key pair that serves as the
/// password for the remote side; both keys as PEM strings.
#[derive(Debug)]
pub struct RemotePassword {
    pub home_public_key: String,
    pub remote_private_key: String,
}

impl RemotePassword {
    /// Builds the password bundle: the home key's public PEM and the
    /// remote key's private PEM.
    pub fn from_keys(home: &PrivateKey, remote: &PrivateKey) -> (r: RemotePassword)
        ensures
            r.home_public_key@ == home.pem(),
            r.remote_private_key@ == remote.priv_pem(),
    {
        RemotePassword {
            home_public_key: home.public_pem().clone(),
            remote_private_key: remote.private_pem().clone(),
        }
    }

    /// Wipes the bundle once it has been persisted: both PEM strings
    /// are overwritten and emptied.
    pub fn wipe(&mut self)
        ensures
            final(self).home_public_key@.len() == 0,
            final(self).remote_private_key@.len() == 0,
    {
        wipe_string(&mut self.home_public_key);
        wipe_string(&mut self.remote_private_key);
    }
}

} // verus!
