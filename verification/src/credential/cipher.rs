//! Encryption of the tokens that are kept.
//!
//! A token is sealed with AES-256-GCM under a key that is kept apart from the tokens, together with
//! the nonce that the next token will use. No nonce may be used twice with one key: the next nonce
//! is written down before the current one is used.
use base64::Engine;
use ring::rand::SecureRandom;
use vstd::prelude::*;
use vstd::slice::*;
use vstd::string::*;

use crate::credential::error::{TokenStoreError, TokenStoreErrorView};
use crate::model;
use crate::text;

verus! {

/// The number of bytes of a key.
pub const KEY_LEN: usize = 32;

/// The number of bytes of a nonce.
pub const NONCE_LEN: usize = 12;

/// The number of bytes that stand for a nonce where it is written down.
pub const NONCE_SIZE: usize = 4;

/// The number of bytes of the tag that sealing appends.
pub const TAG_LEN: usize = 16;

/// The greatest number of bytes that can be sealed.
pub const MAX_SEALED: u64 = 68_719_476_704;

/// What `ring::aead` makes of a text sealed with AES-256-GCM and no additional data.
pub uninterp spec fn gcm_seal(key: Seq<u8>, nonce: Seq<u8>, plain: Seq<u8>) -> Seq<u8>;

/// Calls `ring::aead::LessSafeKey::seal_in_place_append_tag` with no additional data, as
/// `ring::aead::SealingKey` does with the nonce that its sequence gives. It fails only where there
/// is too much to seal, and appends a tag to what it seals.
#[verifier::external_body]
fn seal(key: &Vec<u8>, nonce: &Vec<u8>, plain: Vec<u8>) -> (r: Option<Vec<u8>>)
    requires
        key@.len() == KEY_LEN,
        nonce@.len() == NONCE_LEN,
    ensures
        r is Some <==> plain@.len() <= MAX_SEALED,
        r matches Some(sealed) ==> sealed@ == gcm_seal(key@, nonce@, plain@) && sealed@.len()
            == plain@.len() + TAG_LEN,
{
    let unbound = ring::aead::UnboundKey::new(&ring::aead::AES_256_GCM, key).ok()?;
    let nonce = ring::aead::Nonce::try_assume_unique_for_key(nonce).ok()?;
    let mut sealed = plain;
    ring::aead::LessSafeKey::new(unbound)
        .seal_in_place_append_tag(nonce, ring::aead::Aad::empty(), &mut sealed)
        .ok()?;
    Some(sealed)
}

/// What `ring::aead` makes of a sealed text, where it is one that was sealed so.
pub uninterp spec fn gcm_open(key: Seq<u8>, nonce: Seq<u8>, sealed: Seq<u8>) -> Option<Seq<u8>>;

/// Calls `ring::aead::LessSafeKey::open_in_place` with no additional data, as
/// `ring::aead::OpeningKey` does with the nonce that its sequence gives. What was sealed with this
/// key and this nonce is given back.
#[verifier::external_body]
fn open(key: &Vec<u8>, nonce: &Vec<u8>, sealed: Vec<u8>) -> (r: Option<Vec<u8>>)
    requires
        key@.len() == KEY_LEN,
        nonce@.len() == NONCE_LEN,
    ensures
        model::opt_view(r) == gcm_open(key@, nonce@, sealed@),
        forall|plain: Seq<u8>|
            plain.len() <= MAX_SEALED && #[trigger] gcm_seal(key@, nonce@, plain) == sealed@
                ==> model::opt_view(r) == Some(plain),
{
    let unbound = ring::aead::UnboundKey::new(&ring::aead::AES_256_GCM, key).ok()?;
    let nonce = ring::aead::Nonce::try_assume_unique_for_key(nonce).ok()?;
    let mut opened = sealed;
    let plain = ring::aead::LessSafeKey::new(unbound)
        .open_in_place(nonce, ring::aead::Aad::empty(), &mut opened)
        .ok()?;
    Some(plain.to_vec())
}

/// The standard base 64 form of bytes, with padding: what `base64::prelude::BASE64_STANDARD`
/// writes.
pub uninterp spec fn base64_text(bytes: Seq<u8>) -> Seq<char>;

/// Calls `encode` of `base64::prelude::BASE64_STANDARD`, which panics only where the length of the
/// text does not fit. What it writes, `decode` reads back.
#[verifier::external_body]
fn to_base64(bytes: &Vec<u8>) -> (text: String)
    requires
        bytes@.len() <= usize::MAX / 4,
    ensures
        text@ == base64_text(bytes@),
        base64_bytes(text@) == Some(bytes@),
{
    base64::prelude::BASE64_STANDARD.encode(bytes)
}

/// The bytes of which a text is the standard base 64 form, if it is one: what
/// `base64::prelude::BASE64_STANDARD` reads.
pub uninterp spec fn base64_bytes(text: Seq<char>) -> Option<Seq<u8>>;

/// Calls `decode` of `base64::prelude::BASE64_STANDARD`. What was encoded is given back.
#[verifier::external_body]
fn from_base64(text: &str) -> (r: Option<Vec<u8>>)
    ensures
        model::opt_view(r) == base64_bytes(text@),
        forall|bytes: Seq<u8>| #[trigger]
            base64_text(bytes) == text@ ==> model::opt_view(r) == Some(bytes),
{
    base64::prelude::BASE64_STANDARD.decode(text).ok()
}

/// Calls `String::from_utf8`.
#[verifier::external_body]
fn utf8_text(bytes: Vec<u8>) -> (r: Option<String>)
    ensures
        r is Some <==> vstd::utf8::valid_utf8(bytes@),
        r matches Some(text) ==> text@ == vstd::utf8::decode_utf8(bytes@),
{
    String::from_utf8(bytes).ok()
}

/// Calls `fill` of `ring::rand::SystemRandom`. Nothing is promised of the bytes: where the system
/// gives none, they are zero.
#[verifier::external_body]
fn random_bytes(count: usize) -> (bytes: Vec<u8>)
    ensures
        bytes@.len() == count,
{
    let mut bytes = vec![0; count];
    let _ = ring::rand::SystemRandom::new().fill(&mut bytes);
    bytes
}

/// The bytes of a number, lowest first.
pub open spec fn little_endian(n: u32) -> Seq<u8> {
    seq![
        (n % 0x100) as u8,
        ((n / 0x100) % 0x100) as u8,
        ((n / 0x1_0000) % 0x100) as u8,
        (n / 0x100_0000) as u8,
    ]
}

/// The number of which these are the bytes, lowest first.
pub open spec fn number(bytes: Seq<u8>) -> u32 {
    (bytes[0] + bytes[1] * 0x100 + bytes[2] * 0x1_0000 + bytes[3] * 0x100_0000) as u32
}

/// The nonce of a number: eight zero bytes and the bytes of the number, highest first.
pub open spec fn nonce_of(n: u32) -> Seq<u8> {
    Seq::new(8, |i: int| 0u8) + little_endian(n).reverse()
}

proof fn lemma_number(n: u32)
    ensures
        number(little_endian(n)) == n,
{
    let low = n % 0x1_0000;
    let high = n / 0x1_0000;
    assert(n == low + high * 0x1_0000);
    assert(low == low % 0x100 + (low / 0x100) * 0x100);
    assert(high == high % 0x100 + (high / 0x100) * 0x100);
    assert(low % 0x100 == n % 0x100);
    assert(low / 0x100 == (n / 0x100) % 0x100);
    assert(high / 0x100 == n / 0x100_0000);
}

/// Different numbers give different nonces.
pub proof fn nonces_are_distinct(a: u32, b: u32)
    ensures
        nonce_of(a) == nonce_of(b) ==> a == b,
{
    if nonce_of(a) == nonce_of(b) {
        assert(little_endian(a) =~= little_endian(b)) by {
            assert forall|i: int| 0 <= i < 4 implies little_endian(a)[i] == little_endian(b)[i] by {
                assert(nonce_of(a)[11 - i] == little_endian(a)[i]);
                assert(nonce_of(b)[11 - i] == little_endian(b)[i]);
            }
        }
        lemma_number(a);
        lemma_number(b);
    }
}

fn write_number(n: u32) -> (bytes: Vec<u8>)
    ensures
        bytes@ == little_endian(n),
{
    let mut bytes: Vec<u8> = Vec::new();
    bytes.push((n % 0x100) as u8);
    bytes.push(((n / 0x100) % 0x100) as u8);
    bytes.push(((n / 0x1_0000) % 0x100) as u8);
    bytes.push((n / 0x100_0000) as u8);
    bytes
}

fn read_number(bytes: &Vec<u8>) -> (n: u32)
    requires
        bytes@.len() >= NONCE_SIZE,
    ensures
        n == number(bytes@),
{
    bytes[0] as u32 + bytes[1] as u32 * 0x100 + bytes[2] as u32 * 0x1_0000 + bytes[3] as u32
        * 0x100_0000
}

fn make_nonce(n: u32) -> (nonce: Vec<u8>)
    ensures
        nonce@ == nonce_of(n),
{
    let mut nonce: Vec<u8> = Vec::new();
    let mut i: usize = 0;
    while i < 8
        invariant
            i <= 8,
            nonce@ == Seq::new(i as nat, |j: int| 0u8),
        decreases 8 - i,
    {
        nonce.push(0);
        i = i + 1;
        assert(nonce@ =~= Seq::new(i as nat, |j: int| 0u8));
    }
    let bytes = write_number(n);
    nonce.push(bytes[3]);
    nonce.push(bytes[2]);
    nonce.push(bytes[1]);
    nonce.push(bytes[0]);
    assert(nonce@ =~= nonce_of(n));
    nonce
}

/// A key and the nonce that is to be used next.
#[derive(Debug)]
pub struct Encryption {
    pub key: Vec<u8>,
    pub nonce: u32,
}

/// The model of [`Encryption`].
pub struct EncryptionView {
    pub key: Seq<u8>,
    pub nonce: u32,
}

impl EncryptionView {
    /// The key with the nonce after this one.
    pub open spec fn advanced(self) -> EncryptionView {
        EncryptionView { key: self.key, nonce: (self.nonce + 1) as u32 }
    }
}

impl View for Encryption {
    type V = EncryptionView;

    open spec fn view(&self) -> EncryptionView {
        EncryptionView { key: self.key@, nonce: self.nonce }
    }
}

impl Clone for Encryption {
    fn clone(&self) -> (copy: Encryption)
        ensures
            copy@ == self@,
    {
        Encryption { key: slice_to_vec(self.key.as_slice()), nonce: self.nonce }
    }
}

impl Default for Encryption {
    fn default() -> (encryption: Encryption)
        ensures
            encryption@ == (EncryptionView { key: seq![], nonce: 0 }),
    {
        let encryption = Encryption { key: Vec::new(), nonce: 0 };
        assert(encryption@.key =~= seq![]);
        encryption
    }
}

/// How a key and the nonce that is to be used next are kept.
pub open spec fn secret_of(encryption: EncryptionView) -> Seq<u8> {
    little_endian(encryption.nonce) + encryption.key
}

/// The key and the nonce that are kept so, where there is a key.
pub open spec fn encryption_of(secret: Seq<u8>) -> Option<EncryptionView> {
    if secret.len() > NONCE_SIZE {
        Some(
            EncryptionView {
                key: secret.skip(NONCE_SIZE as int),
                nonce: number(secret.take(NONCE_SIZE as int)),
            },
        )
    } else {
        None
    }
}

/// What was kept of a key and a nonce is read back as it was.
pub proof fn secret_round_trip(encryption: EncryptionView)
    requires
        encryption.key.len() > 0,
    ensures
        encryption_of(secret_of(encryption)) == Some(encryption),
{
    lemma_number(encryption.nonce);
    let secret = secret_of(encryption);
    assert(secret.take(NONCE_SIZE as int) =~= little_endian(encryption.nonce));
    assert(secret.skip(NONCE_SIZE as int) =~= encryption.key);
}

/// Reads a key and a nonce from how they are kept.
pub fn get_encryption(encryption_key_nonce: Vec<u8>) -> (r: Result<Encryption, TokenStoreError>)
    ensures
        match encryption_of(encryption_key_nonce@) {
            Some(encryption) => r matches Ok(found) && found@ == encryption,
            None => r matches Err(error) && error@ == (TokenStoreErrorView::Internal {
                context: "Failed to decrypt user token"@,
            }),
        },
{
    if encryption_key_nonce.len() > NONCE_SIZE {
        let nonce = read_number(&encryption_key_nonce);
        let key = slice_to_vec(
            slice_subrange(
                encryption_key_nonce.as_slice(),
                NONCE_SIZE,
                encryption_key_nonce.len(),
            ),
        );
        assert(key@ =~= encryption_key_nonce@.skip(NONCE_SIZE as int));
        Ok(Encryption { key, nonce })
    } else {
        Err(TokenStoreError::internal("Failed to decrypt user token"))
    }
}

/// Gives how a key and a nonce are kept.
pub fn get_encryption_key_with_nonce(key: &Vec<u8>, nonce: u32) -> (secret: Vec<u8>)
    ensures
        secret@ == secret_of(EncryptionView { key: key@, nonce }),
{
    let mut secret = write_number(nonce);
    secret.extend_from_slice(key.as_slice());
    assert(secret@ =~= little_endian(nonce) + key@);
    secret
}

/// Makes a new key, whose first nonce is one, in the form in which it is kept.
pub fn generate_encryption_key_nonce() -> (secret: Vec<u8>)
    ensures
        encryption_of(secret@) matches Some(encryption) && encryption.key.len() == KEY_LEN
            && encryption.nonce == 1,
{
    let key = random_bytes(KEY_LEN);
    let secret = get_encryption_key_with_nonce(&key, 1);
    proof {
        secret_round_trip(EncryptionView { key: key@, nonce: 1 });
    }
    secret
}

/// Which key is used.
#[derive(Debug)]
pub enum KeySource {
    /// The one that was kept.
    Stored(Encryption),
    /// A new one, since none was kept. All tokens have to be forgotten and the secret written down
    /// before it is used.
    New { secret: Vec<u8> },
}

/// Decides which key is used, given what was kept.
pub fn load_or_init_encryption(kept: Vec<u8>) -> (source: KeySource)
    ensures
        match encryption_of(kept@) {
            Some(encryption) => source matches KeySource::Stored(found) && found@ == encryption,
            None => source matches KeySource::New { secret } && (encryption_of(
                secret@,
            ) matches Some(fresh) && fresh.key.len() == KEY_LEN && fresh.nonce == 1),
        },
{
    match get_encryption(kept) {
        Ok(encryption) => KeySource::Stored(encryption),
        Err(_) => KeySource::New { secret: generate_encryption_key_nonce() },
    }
}

/// What is sealed of a token: its UTF-8 form and as many zero bytes as a tag has.
pub open spec fn padded(token: Seq<char>) -> Seq<u8> {
    vstd::utf8::encode_utf8(token) + Seq::new(TAG_LEN as nat, |i: int| 0u8)
}

/// The bytes that are kept of a token: those of the nonce and the sealed token.
pub open spec fn encrypted_bytes(encryption: EncryptionView, token: Seq<char>) -> Seq<u8> {
    little_endian(encryption.nonce) + gcm_seal(
        encryption.key,
        nonce_of(encryption.nonce),
        padded(token),
    )
}

/// The text that is kept of a token: its bytes in base 64.
pub open spec fn encrypted_text(encryption: EncryptionView, token: Seq<char>) -> Seq<char> {
    base64_text(encrypted_bytes(encryption, token))
}

/// The token of an opened text: without the bytes that stood for a tag.
pub open spec fn unpadded(plain: Seq<u8>) -> Seq<u8> {
    if plain.len() >= TAG_LEN {
        plain.take(plain.len() - TAG_LEN)
    } else {
        plain
    }
}

/// The token that is kept as `bytes`, a nonce and a sealed text, where they can be opened with this
/// key.
pub open spec fn opened_token(key: Seq<u8>, bytes: Seq<u8>) -> Option<Seq<char>> {
    match gcm_open(
        key,
        nonce_of(number(bytes.take(NONCE_SIZE as int))),
        bytes.skip(NONCE_SIZE as int),
    ) {
        Some(plain) => if vstd::utf8::valid_utf8(unpadded(plain)) {
            Some(vstd::utf8::decode_utf8(unpadded(plain)))
        } else {
            None
        },
        None => None,
    }
}

/// The failure to use a key of the wrong length.
pub open spec fn bad_key() -> TokenStoreErrorView {
    TokenStoreErrorView::Internal { context: "Failed to create unbound key"@ }
}

/// The failure to decrypt.
pub open spec fn cannot_decrypt() -> TokenStoreErrorView {
    TokenStoreErrorView::Internal { context: "Failed to decrypt user token"@ }
}

/// Whether `text` is what is kept of `token` under `key`, with some nonce.
pub open spec fn is_encrypted(key: Seq<u8>, token: Seq<char>, text: Seq<char>) -> bool {
    padded(token).len() <= MAX_SEALED && exists|nonce: u32|
        text == #[trigger] encrypted_text(EncryptionView { key, nonce }, token)
}

impl Encryption {
    /// The key with the nonce after this one.
    pub open spec fn advanced(&self) -> EncryptionView {
        self@.advanced()
    }

    /// Gives how the key with the next nonce is kept. It has to be written down before a token is
    /// encrypted with this one.
    pub fn next_secret(&self) -> (secret: Vec<u8>)
        requires
            self.nonce < u32::MAX,
        ensures
            secret@ == secret_of(self.advanced()),
    {
        get_encryption_key_with_nonce(&self.key, self.nonce + 1)
    }

    /// Goes on to the next nonce once it is written down, and gives the key with the nonce that one
    /// token may now use. Where it could not be written down nothing changes, so that the nonce is
    /// neither used nor lost.
    pub fn advance(&mut self, written: Result<(), TokenStoreError>) -> (r: Result<
        Encryption,
        TokenStoreError,
    >)
        requires
            old(self).nonce < u32::MAX,
        ensures
            match written {
                Ok(_) => final(self)@ == old(self).advanced() && (r matches Ok(used) && used@ == old(
                    self,
                )@),
                Err(error) => *final(self) == *old(self) && r == Err::<Encryption, TokenStoreError>(
                    error,
                ),
            },
    {
        match written {
            Ok(_) => {
                let used = self.clone();
                self.nonce = self.nonce + 1;
                Ok(used)
            },
            Err(error) => Err(error),
        }
    }

    /// Encrypts a token with the key and the nonce. The text that is kept holds the nonce, the bytes
    /// of the token and those of two tags.
    pub fn encrypt_token(&self, user_token: &str) -> (r: Result<String, TokenStoreError>)
        requires
            text::utf8_len(user_token@) <= usize::MAX / 4 - 64,
        ensures
            if self.key@.len() != KEY_LEN {
                r matches Err(error) && error@ == bad_key()
            } else if padded(user_token@).len() > MAX_SEALED {
                r matches Err(error) && error@ == (TokenStoreErrorView::Internal {
                    context: "Failed to encrypt user token"@,
                })
            } else {
                r matches Ok(text) && text@ == encrypted_text(self@, user_token@) && (base64_bytes(
                    text@,
                ) matches Some(bytes) && bytes == encrypted_bytes(self@, user_token@)
                    && bytes.len() == text::utf8_len(user_token@) + NONCE_SIZE + 2 * TAG_LEN
                    && bytes.take(NONCE_SIZE as int) == little_endian(self.nonce))
            },
    {
        if self.key.len() != KEY_LEN {
            return Err(TokenStoreError::internal("Failed to create unbound key"));
        }
        let mut plain = slice_to_vec(user_token.as_bytes());
        let mut i: usize = 0;
        while i < TAG_LEN
            invariant
                i <= TAG_LEN,
                plain@ == vstd::utf8::encode_utf8(user_token@) + Seq::new(i as nat, |j: int| 0u8),
            decreases TAG_LEN - i,
        {
            plain.push(0);
            i = i + 1;
            assert(plain@ =~= vstd::utf8::encode_utf8(user_token@) + Seq::new(
                i as nat,
                |j: int| 0u8,
            ));
        }
        let nonce = make_nonce(self.nonce);
        match seal(&self.key, &nonce, plain) {
            Some(sealed) => {
                let mut bytes = write_number(self.nonce);
                bytes.extend_from_slice(sealed.as_slice());
                assert(bytes@ =~= encrypted_bytes(self@, user_token@));
                assert(bytes@.take(NONCE_SIZE as int) =~= little_endian(self.nonce));
                Ok(to_base64(&bytes))
            },
            None => Err(TokenStoreError::internal("Failed to encrypt user token")),
        }
    }

    /// Opens a nonce and a sealed text with the key. The nonce that is to be used next makes no
    /// difference.
    pub fn open_token(&self, bytes: Vec<u8>) -> (r: Result<String, TokenStoreError>)
        requires
            bytes@.len() >= NONCE_SIZE,
        ensures
            if self.key@.len() != KEY_LEN {
                r matches Err(error) && error@ == bad_key()
            } else {
                match opened_token(self.key@, bytes@) {
                    Some(token) => r matches Ok(text) && text@ == token,
                    None => r matches Err(error) && error@ == cannot_decrypt(),
                }
            },
            forall|nonce: u32, token: Seq<char>|
                self.key@.len() == KEY_LEN && padded(token).len() <= MAX_SEALED && bytes@
                    == #[trigger] little_endian(nonce) + #[trigger] gcm_seal(
                    self.key@,
                    nonce_of(nonce),
                    padded(token),
                ) ==> (r matches Ok(text) && text@ == token),
    {
        if self.key.len() != KEY_LEN {
            return Err(TokenStoreError::internal("Failed to create unbound key"));
        }
        let n = read_number(&bytes);
        let nonce = make_nonce(n);
        let sealed = slice_to_vec(slice_subrange(bytes.as_slice(), NONCE_SIZE, bytes.len()));
        assert(sealed@ =~= bytes@.skip(NONCE_SIZE as int));
        let opened = open(&self.key, &nonce, sealed);
        proof {
            assert forall|m: u32, token: Seq<char>|
                padded(token).len() <= MAX_SEALED && bytes@ == #[trigger] little_endian(m)
                    + #[trigger] gcm_seal(
                    self.key@,
                    nonce_of(m),
                    padded(token),
                ) implies opened matches Some(plain) && vstd::utf8::valid_utf8(unpadded(plain@))
                && vstd::utf8::decode_utf8(unpadded(plain@)) == token by {
                assert(bytes@.take(NONCE_SIZE as int) =~= little_endian(m));
                lemma_number(m);
                assert(n == m);
                assert(sealed@ =~= gcm_seal(self.key@, nonce_of(m), padded(token)));
                assert(opened->0@ == padded(token));
                assert(unpadded(padded(token)) =~= vstd::utf8::encode_utf8(token));
                vstd::utf8::encode_utf8_valid_utf8(token);
                vstd::utf8::encode_utf8_decode_utf8(token);
            }
        }
        let mut plain = match opened {
            Some(plain) => plain,
            None => return Err(TokenStoreError::internal("Failed to decrypt user token")),
        };
        let ghost whole = plain@;
        if plain.len() >= TAG_LEN {
            let kept: usize = plain.len() - TAG_LEN;
            plain.truncate(kept);
        }
        assert(plain@ =~= unpadded(whole));
        match utf8_text(plain) {
            Some(token) => Ok(token),
            None => Err(TokenStoreError::internal("Failed to decrypt user token")),
        }
    }

    /// Decrypts what is kept of a token, which must be long enough to hold a nonce. What was
    /// encrypted with the key, whatever the nonce was, is given back.
    pub fn decrypt_token(&self, token: &str) -> (r: Result<String, TokenStoreError>)
        requires
            base64_bytes(token@) matches Some(bytes) ==> bytes.len() >= NONCE_SIZE,
        ensures
            match base64_bytes(token@) {
                None => r matches Err(error) && error@ == cannot_decrypt(),
                Some(bytes) => if self.key@.len() != KEY_LEN {
                    r matches Err(error) && error@ == bad_key()
                } else {
                    match opened_token(self.key@, bytes) {
                        Some(plain) => r matches Ok(text) && text@ == plain,
                        None => r matches Err(error) && error@ == cannot_decrypt(),
                    }
                },
            },
            forall|plain: Seq<char>|
                self.key@.len() == KEY_LEN && #[trigger] is_encrypted(self.key@, plain, token@) ==> (
                r matches Ok(text) && text@ == plain),
    {
        let decoded = from_base64(token);
        proof {
            assert forall|plain: Seq<char>| #[trigger] is_encrypted(self.key@, plain, token@) implies exists|
                nonce: u32,
            |
                model::opt_view(decoded) == Some(
                    #[trigger] little_endian(nonce) + gcm_seal(
                        self.key@,
                        nonce_of(nonce),
                        padded(plain),
                    ),
                ) by {
                let nonce = choose|nonce: u32|
                    token@ == #[trigger] encrypted_text(
                        EncryptionView { key: self.key@, nonce },
                        plain,
                    );
                let bytes = little_endian(nonce) + gcm_seal(
                    self.key@,
                    nonce_of(nonce),
                    padded(plain),
                );
                assert(base64_text(bytes) == token@);
            }
        }
        match decoded {
            Some(bytes) => self.open_token(bytes),
            None => Err(TokenStoreError::internal("Failed to decrypt user token")),
        }
    }

    /// Decrypts what is kept of a token; nothing is given where it is too short to hold a nonce.
    pub fn try_decrypt_token(&self, token: &str) -> (r: Option<Result<String, TokenStoreError>>)
        ensures
            match base64_bytes(token@) {
                None => r matches Some(Err(error)) && error@ == cannot_decrypt(),
                Some(bytes) => if bytes.len() < NONCE_SIZE {
                    r is None
                } else if self.key@.len() != KEY_LEN {
                    r matches Some(Err(error)) && error@ == bad_key()
                } else {
                    match opened_token(self.key@, bytes) {
                        Some(plain) => r matches Some(Ok(text)) && text@ == plain,
                        None => r matches Some(Err(error)) && error@ == cannot_decrypt(),
                    }
                },
            },
            forall|plain: Seq<char>|
                self.key@.len() == KEY_LEN && #[trigger] is_encrypted(self.key@, plain, token@) ==> (
                r matches Some(Ok(text)) && text@ == plain),
            forall|encryption: EncryptionView, plain: Seq<char>| #[trigger]
                encrypted_text(encryption, plain) == token@ ==> base64_bytes(token@) == Some(
                    encrypted_bytes(encryption, plain),
                ),
    {
        if let Some(bytes) = from_base64(token) {
            if bytes.len() < NONCE_SIZE {
                proof {
                    assert forall|plain: Seq<char>| !(#[trigger] is_encrypted(
                        self.key@,
                        plain,
                        token@,
                    )) by {
                        if is_encrypted(self.key@, plain, token@) {
                            let nonce = choose|nonce: u32|
                                token@ == #[trigger] encrypted_text(
                                    EncryptionView { key: self.key@, nonce },
                                    plain,
                                );
                            let sealed = gcm_seal(self.key@, nonce_of(nonce), padded(plain));
                            assert(base64_text(little_endian(nonce) + sealed) == token@);
                            assert((little_endian(nonce) + sealed).len() >= NONCE_SIZE);
                        }
                    }
                }
                return None;
            }
        }
        Some(self.decrypt_token(token))
    }
}

/// What is written down before a token is encrypted, read back, holds the same key and a nonce that
/// has not been used: one after that of the token.
pub proof fn written_nonce_is_unused(encryption: Encryption)
    requires
        encryption.key@.len() > 0,
        encryption.nonce < u32::MAX,
    ensures
        encryption_of(secret_of(encryption.advanced())) == Some(encryption.advanced()),
        encryption.advanced().key == encryption.key@,
        encryption.advanced().nonce > encryption.nonce,
        nonce_of(encryption.advanced().nonce) != nonce_of(encryption.nonce),
{
    secret_round_trip(encryption.advanced());
    nonces_are_distinct(encryption.advanced().nonce, encryption.nonce);
}

/// The key and the nonce after attempts to write down the next nonce, of each of which it is said
/// whether it succeeded.
pub open spec fn after_attempts(encryption: EncryptionView, written: Seq<bool>) -> EncryptionView
    decreases written.len(),
{
    if written.len() == 0 {
        encryption
    } else {
        let before = after_attempts(encryption, written.drop_last());
        if written.last() {
            before.advanced()
        } else {
            before
        }
    }
}

/// How many attempts succeeded.
pub open spec fn successes(written: Seq<bool>) -> nat
    decreases written.len(),
{
    if written.len() == 0 {
        0
    } else {
        successes(written.drop_last()) + if written.last() {
            1nat
        } else {
            0nat
        }
    }
}

proof fn lemma_successes(written: Seq<bool>, i: int)
    requires
        0 <= i <= written.len(),
    ensures
        successes(written.take(i)) <= successes(written),
    decreases written.len() - i,
{
    if i < written.len() {
        assert(written.take(i + 1).drop_last() =~= written.take(i));
        lemma_successes(written, i + 1);
    } else {
        assert(written.take(i) =~= written);
    }
}

proof fn lemma_attempts(encryption: EncryptionView, written: Seq<bool>, i: int, j: int)
    requires
        0 <= i < j <= written.len(),
        encryption.nonce + successes(written) <= u32::MAX,
    ensures
        after_attempts(encryption, written.take(i)).nonce == encryption.nonce + successes(
            written.take(i),
        ),
        after_attempts(encryption, written.take(j)).nonce == encryption.nonce + successes(
            written.take(j),
        ),
        successes(written.take(i)) <= successes(written.take(j)),
        written[i] ==> successes(written.take(i)) < successes(written.take(j)),
    decreases j,
{
    assert(written.take(j).drop_last() =~= written.take(j - 1));
    assert(written.take(j).last() == written[j - 1]);
    lemma_successes(written, j);
    if i < j - 1 {
        lemma_attempts(encryption, written, i, j - 1);
    } else if i > 0 {
        lemma_attempts(encryption, written, i - 1, i);
    } else {
        assert(written.take(0) =~= Seq::empty());
    }
}

/// Two tokens, each encrypted once the next nonce was written down, never use the same nonce, whatever
/// attempts to write one down failed before them or between them. Nor do the bytes that are kept of
/// them begin alike.
pub proof fn nonces_are_used_once(
    encryption: EncryptionView,
    written: Seq<bool>,
    i: int,
    j: int,
    earlier: Seq<char>,
    later: Seq<char>,
)
    requires
        0 <= i < j < written.len(),
        written[i],
        written[j],
        encryption.nonce + successes(written) <= u32::MAX,
    ensures
        ({
            let first = after_attempts(encryption, written.take(i));
            let second = after_attempts(encryption, written.take(j));
            &&& nonce_of(first.nonce) != nonce_of(second.nonce)
            &&& encrypted_bytes(first, earlier).take(NONCE_SIZE as int) != encrypted_bytes(
                second,
                later,
            ).take(NONCE_SIZE as int)
        }),
{
    lemma_attempts(encryption, written, i, j);
    let first = after_attempts(encryption, written.take(i));
    let second = after_attempts(encryption, written.take(j));
    nonces_are_distinct(first.nonce, second.nonce);
    assert(encrypted_bytes(first, earlier).take(NONCE_SIZE as int) =~= little_endian(first.nonce));
    assert(encrypted_bytes(second, later).take(NONCE_SIZE as int) =~= little_endian(second.nonce));
    lemma_number(first.nonce);
    lemma_number(second.nonce);
}

/// A token that was encrypted is one that decrypting gives back.
pub proof fn encrypted_token_is_encrypted(encryption: EncryptionView, token: Seq<char>)
    requires
        padded(token).len() <= MAX_SEALED,
    ensures
        is_encrypted(encryption.key, token, encrypted_text(encryption, token)),
{
    assert(encryption == EncryptionView { key: encryption.key, nonce: encryption.nonce });
}

} // verus!
