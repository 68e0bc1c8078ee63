//! What holds of secrets: where they are read and written, how they are split and how tokens are
//! sealed with them, said of the bytes and the answers.
use vstd::prelude::*;

use crate::credential::cipher;
use crate::credential::cipher::{Encryption, EncryptionView};
use crate::credential::error::TokenStoreError;
use crate::credential::secret_store;
use crate::credential::secret_store::{
    FileFailure, KeyringOutcome, ReadAction, WriteAction,
};
use crate::credential::store_key;
use crate::model;
use crate::text;

verus! {

/// A secret is read from the secure store where that is used, else from its file; in strict mode no
/// file is read, and there is no secret.
pub proof fn reading_begins_with_the_secure_store(secure: bool, strict: bool, action: ReadAction)
    requires
        action@ == secret_store::read_begin(secure, strict),
    ensures
        action is Keyring <==> secure,
        action is File <==> !secure && !strict,
        action matches ReadAction::Finish { result } ==> !secure && strict && (
        result matches Ok(secret) && secret@.len() == 0),
{
}

/// A secret that the secure store gives is the outcome, as it is; else the file is read, but for the
/// strict mode, in which there is then no secret.
pub proof fn secret_of_the_secure_store_is_taken(
    strict: bool,
    secret: Option<Vec<u8>>,
    action: ReadAction,
)
    requires
        action@ == secret_store::read_after_keyring(strict, model::opt_view(secret)),
    ensures
        match secret {
            Some(secret) => action matches ReadAction::Finish { result: Ok(given) } && given@
                == secret@,
            None => if strict {
                action matches ReadAction::Finish { result: Ok(given) } && given@.len() == 0
            } else {
                action is File
            },
        },
{
}

/// What a file holds is the secret, as it is; where there is no file there is none; and a file that
/// cannot be read is reported.
pub proof fn secret_of_a_file_is_taken(
    read: Result<Option<Seq<u8>>, FileFailure>,
    r: Result<Vec<u8>, TokenStoreError>,
)
    requires
        model::result_view(r) == secret_store::read_after_file(read),
    ensures
        match read {
            Ok(Some(secret)) => r matches Ok(given) && given@ == secret,
            Ok(None) => r matches Ok(given) && given@.len() == 0,
            Err(failure) => r matches Err(TokenStoreError::Internal { context }) && context@
                == match failure {
                FileFailure::Path => "Failed to make fallback path"@,
                FileFailure::Lock => "Failed to lock store file"@,
                FileFailure::Access => "Failed to read secret from fallback path"@,
                FileFailure::Permissions => "Failed to read secret from fallback path"@,
            },
        },
{
}

/// A secret is written to the secure store where that is used, else to its file; in strict mode no
/// file is written, and that is an error.
pub proof fn writing_begins_with_the_secure_store(secure: bool, strict: bool, action: WriteAction)
    requires
        action@ == secret_store::write_begin(secure, strict),
    ensures
        action is Keyring <==> secure,
        action matches WriteAction::File { from_now_on } ==> !secure && !strict && !from_now_on,
        !secure && !strict ==> action is File,
        action matches WriteAction::Finish { result } ==> !secure && strict && result is Err,
{
}

/// Nothing is left to do where the secure store took the secret. Where it failed, the file is used
/// from now on; where it is not to be had, just this time; and in strict mode both are errors.
pub proof fn failed_secure_store_is_given_up(
    strict: bool,
    outcome: KeyringOutcome,
    action: WriteAction,
)
    requires
        action@ == secret_store::write_after_keyring(strict, outcome),
    ensures
        match outcome {
            KeyringOutcome::Stored => action matches WriteAction::Finish { result } && result is Ok,
            KeyringOutcome::Failed => if strict {
                action matches WriteAction::Finish { result } && result is Err
            } else {
                action matches WriteAction::File { from_now_on } && from_now_on
            },
            KeyringOutcome::Unavailable => if strict {
                action matches WriteAction::Finish { result } && result is Err
            } else {
                action matches WriteAction::File { from_now_on } && !from_now_on
            },
        },
        action matches WriteAction::Finish { result: Err(TokenStoreError::Internal { context }) }
            ==> context@ == "OS secure storage is required in strict security mode"@,
        !(action matches WriteAction::Finish { result: Err(TokenStoreError::TokenNotFound) }),
{
}

/// What became of writing a file is reported as it is.
pub proof fn written_file_is_reported(
    written: Result<(), FileFailure>,
    r: Result<(), TokenStoreError>,
)
    requires
        model::unit_result_view(r) == secret_store::write_after_file(written),
    ensures
        match written {
            Ok(_) => r is Ok,
            Err(failure) => r matches Err(TokenStoreError::Internal { context }) && context@
                == match failure {
                FileFailure::Path => "Failed to make fallback path"@,
                FileFailure::Lock => "Failed to lock store file"@,
                FileFailure::Access => "Failed to write secret to fallback path"@,
                FileFailure::Permissions => "Failed to secure fallback key permissions"@,
            },
        },
{
}

/// The four bytes of a number write it with 256 as the base, the lowest first.
pub proof fn number_is_written_lowest_byte_first(n: u32)
    ensures
        cipher::little_endian(n).len() == 4,
        n == cipher::little_endian(n)[0] + cipher::little_endian(n)[1] * 256
            + cipher::little_endian(n)[2] * 65536 + cipher::little_endian(n)[3] * 16777216,
        cipher::number(cipher::little_endian(n)) == n,
{
    let low = n % 65536;
    let high = n / 65536;
    assert(n == low + high * 65536);
    assert(low == low % 256 + (low / 256) * 256);
    assert(high == high % 256 + (high / 256) * 256);
    assert(low % 256 == n % 256);
    assert(low / 256 == (n / 256) % 256);
    assert(high / 256 == n / 16777216);
}

/// The nonce of a number is twelve bytes: eight zeros, then the bytes of the number, the highest
/// first.
pub proof fn nonce_ends_with_the_number(n: u32)
    ensures
        cipher::nonce_of(n).len() == 12,
        forall|i: int| 0 <= i < 8 ==> cipher::nonce_of(n)[i] == 0,
        n == cipher::nonce_of(n)[8] * 16777216 + cipher::nonce_of(n)[9] * 65536
            + cipher::nonce_of(n)[10] * 256 + cipher::nonce_of(n)[11],
{
    number_is_written_lowest_byte_first(n);
    let bytes = cipher::little_endian(n);
    assert(cipher::nonce_of(n)[8] == bytes[3]);
    assert(cipher::nonce_of(n)[9] == bytes[2]);
    assert(cipher::nonce_of(n)[10] == bytes[1]);
    assert(cipher::nonce_of(n)[11] == bytes[0]);
}

/// A key is kept behind the four bytes of its next nonce, unchanged.
pub proof fn key_is_kept_behind_its_nonce(encryption: EncryptionView)
    ensures
        cipher::secret_of(encryption).len() == 4 + encryption.key.len(),
        cipher::secret_of(encryption).skip(4) == encryption.key,
        encryption.nonce == cipher::secret_of(encryption)[0] + cipher::secret_of(encryption)[1]
            * 256 + cipher::secret_of(encryption)[2] * 65536 + cipher::secret_of(encryption)[3]
            * 16777216,
{
    number_is_written_lowest_byte_first(encryption.nonce);
    assert(cipher::secret_of(encryption).skip(4) =~= encryption.key);
}

/// A key is read only from what is longer than a nonce: it is all that follows the nonce.
pub proof fn kept_key_follows_its_nonce(secret: Seq<u8>)
    ensures
        match cipher::encryption_of(secret) {
            Some(encryption) => {
                &&& secret.len() > 4
                &&& encryption.key == secret.skip(4)
                &&& encryption.nonce == secret[0] + secret[1] * 256 + secret[2] * 65536 + secret[3]
                    * 16777216
            },
            None => secret.len() <= 4,
        },
{
}

/// What is sealed of a token are its bytes and sixteen zeros.
pub proof fn token_is_sealed_with_sixteen_zeros(token: Seq<char>)
    ensures
        cipher::padded(token).len() == vstd::utf8::encode_utf8(token).len() + 16,
        cipher::padded(token).take(vstd::utf8::encode_utf8(token).len() as int)
            == vstd::utf8::encode_utf8(token),
        forall|i: int|
            vstd::utf8::encode_utf8(token).len() <= i < cipher::padded(token).len()
                ==> cipher::padded(token)[i] == 0,
        cipher::unpadded(cipher::padded(token)) == vstd::utf8::encode_utf8(token),
{
    assert(cipher::padded(token).take(vstd::utf8::encode_utf8(token).len() as int)
        =~= vstd::utf8::encode_utf8(token));
    assert(cipher::unpadded(cipher::padded(token)) =~= vstd::utf8::encode_utf8(token));
}

/// Of what is opened the last sixteen bytes are dropped, where there are so many.
pub proof fn opened_text_loses_sixteen_bytes(plain: Seq<u8>)
    ensures
        plain.len() >= 16 ==> cipher::unpadded(plain).len() == plain.len() - 16
            && cipher::unpadded(plain) == plain.take(plain.len() - 16),
        plain.len() < 16 ==> cipher::unpadded(plain) == plain,
{
}

/// What is kept of a token are the four bytes of the nonce and then the token, sealed with the key and
/// the nonce of that number; and to decrypt it, the same key and the same nonce open what follows the
/// four bytes.
pub proof fn token_is_kept_behind_its_nonce(
    encryption: EncryptionView,
    token: Seq<char>,
    bytes: Seq<u8>,
)
    requires
        bytes.len() >= 4,
    ensures
        cipher::encrypted_bytes(encryption, token).take(4) == cipher::little_endian(
            encryption.nonce,
        ),
        cipher::encrypted_bytes(encryption, token).skip(4) == cipher::gcm_seal(
            encryption.key,
            cipher::nonce_of(encryption.nonce),
            vstd::utf8::encode_utf8(token) + Seq::new(16, |i: int| 0u8),
        ),
        cipher::encrypted_text(encryption, token) == cipher::base64_text(
            cipher::encrypted_bytes(encryption, token),
        ),
        ({
            let nonce = (bytes[0] + bytes[1] * 256 + bytes[2] * 65536 + bytes[3] * 16777216) as u32;
            match cipher::gcm_open(encryption.key, cipher::nonce_of(nonce), bytes.skip(4)) {
                Some(plain) => {
                    let kept = cipher::unpadded(plain);
                    cipher::opened_token(encryption.key, bytes) == (if vstd::utf8::valid_utf8(
                        kept,
                    ) {
                        Some(vstd::utf8::decode_utf8(kept))
                    } else {
                        None
                    })
                },
                None => cipher::opened_token(encryption.key, bytes) is None,
            }
        }),
{
    let kept = cipher::encrypted_bytes(encryption, token);
    assert(kept.take(4) =~= cipher::little_endian(encryption.nonce));
    assert(kept.skip(4) =~= cipher::gcm_seal(
        encryption.key,
        cipher::nonce_of(encryption.nonce),
        vstd::utf8::encode_utf8(token) + Seq::new(16, |i: int| 0u8),
    ));
    let first = bytes.take(4);
    assert(first[0] == bytes[0] && first[1] == bytes[1] && first[2] == bytes[2] && first[3]
        == bytes[3]);
}

/// The next nonce is the one after, with the same key.
pub proof fn next_nonce_is_one_more(encryption: EncryptionView)
    requires
        encryption.nonce < u32::MAX,
    ensures
        encryption.advanced().nonce == encryption.nonce + 1,
        encryption.advanced().key == encryption.key,
{
}

/// A key whose path ends with a slash and 32 hexadecimal digits is split there: the digits are the
/// resource.
pub proof fn digits_at_the_end_are_the_resource(front: Seq<char>, base: Seq<char>, name: Seq<char>)
    requires
        text::is_hex_id(name),
        vstd::utf8::is_ascii_chars(base + seq!['/'] + name),
    ensures
        ({
            let path = base + seq!['/'] + name;
            &&& store_key::splittable(front + path, Some(path))
            &&& store_key::split(front + path, Some(path)) == (front + base, name)
        }),
{
    reveal_strlit("/");
    let path = base + seq!['/'] + name;
    let at = base.len() as int;
    assert("/"@ =~= seq!['/']);
    text::lemma_last_occurrence(path, "/"@);
    assert(path.subrange(at, at + 1) =~= "/"@);
    assert(text::occurs_at(path, "/"@, at));
    let found = text::last_occurrence(path, "/"@)->0;
    if found > at {
        assert(path.subrange(found, found + 1)[0] == path[found]);
        assert(path[found] == name[found - at - 1]);
        assert(text::is_hex_digit(name[found - at - 1]));
    }
    assert(path.skip(at + 1) =~= name);
    lemma_split_at(front, path);
    assert(path.take(at) =~= base);
}

proof fn lemma_split_at(front: Seq<char>, path: Seq<char>)
    requires
        vstd::utf8::is_ascii_chars(path),
        store_key::separator(path) is Some,
    ensures
        ({
            let at = store_key::separator(path)->0;
            &&& store_key::splittable(front + path, Some(path))
            &&& store_key::split(front + path, Some(path)) == (
                front + path.take(at),
                path.skip(at + 1),
            )
        }),
{
    reveal_strlit("/");
    reveal_strlit("/urc-");
    store_key::split_key_rejoins(front, path);
    text::lemma_last_occurrence(path, "/"@);
    text::lemma_last_occurrence(path, "/urc-"@);
    let at = store_key::separator(path)->0;
    let parts = store_key::split(front + path, Some(path));
    let name = path.skip(at + 1);
    assert((front + path).len() == parts.0.len() + 1 + name.len());
    assert(parts.0 =~= (front + path).take(parts.0.len() as int));
    assert(parts.0 =~= front + path.take(at));
}

proof fn lemma_last_slash(base: Seq<char>, name: Seq<char>)
    requires
        !name.contains('/'),
    ensures
        text::last_occurrence(base + seq!['/'] + name, "/"@) == Some(base.len() as int),
{
    reveal_strlit("/");
    let path = base + seq!['/'] + name;
    let at = base.len() as int;
    text::lemma_last_occurrence(path, "/"@);
    assert(path.subrange(at, at + 1) =~= "/"@);
    assert(text::occurs_at(path, "/"@, at));
    let found = text::last_occurrence(path, "/"@)->0;
    if found > at {
        assert(path.subrange(found, found + 1)[0] == path[found]);
        assert(path[found] == name[found - at - 1]);
        assert(name.contains('/'));
    }
}

proof fn lemma_last_older_name(base: Seq<char>, name: Seq<char>)
    requires
        !name.contains('/'),
        name.len() >= 4,
        name.take(4) == seq!['u', 'r', 'c', '-'],
    ensures
        text::last_occurrence(base + seq!['/'] + name, "/urc-"@) == Some(base.len() as int),
{
    reveal_strlit("/urc-");
    let path = base + seq!['/'] + name;
    let at = base.len() as int;
    text::lemma_last_occurrence(path, "/urc-"@);
    assert(path.subrange(at, at + 5) =~= "/urc-"@) by {
        assert forall|i: int| 0 <= i < 5 implies path.subrange(at, at + 5)[i] == "/urc-"@[i] by {
            if i > 0 {
                assert(path[at + i] == name[i - 1]);
                assert(name.take(4)[i - 1] == name[i - 1]);
            }
        }
    }
    assert(text::occurs_at(path, "/urc-"@, at));
    let found = text::last_occurrence(path, "/urc-"@)->0;
    if found > at {
        assert(path.subrange(found, found + 5)[0] == path[found]);
        assert(path[found] == name[found - at - 1]);
        assert(name.contains('/'));
    }
}

/// A key whose path ends with a slash and a name that starts with `urc-` is split there: the name is
/// the resource.
pub proof fn older_names_are_found_by_their_start(
    front: Seq<char>,
    base: Seq<char>,
    name: Seq<char>,
)
    requires
        vstd::utf8::is_ascii_chars(base + seq!['/'] + name),
        !name.contains('/'),
        name.len() >= 4,
        name.take(4) == seq!['u', 'r', 'c', '-'],
    ensures
        ({
            let path = base + seq!['/'] + name;
            &&& store_key::splittable(front + path, Some(path))
            &&& store_key::split(front + path, Some(path)) == (front + base, name)
        }),
{
    let path = base + seq!['/'] + name;
    let at = base.len() as int;
    lemma_last_slash(base, name);
    lemma_last_older_name(base, name);
    assert(path.skip(at + 1) =~= name);
    lemma_split_at(front, path);
    assert(path.take(at) =~= base);
}

/// A key that is no URL, or whose path holds no resource name, is the URL of a service.
pub proof fn key_without_resource_is_a_service(store_key: Seq<char>, path: Option<Seq<char>>)
    requires
        path matches Some(path) ==> forall|i: int|
            !#[trigger] text::occurs_at(path, "/urc-"@, i) && (text::occurs_at(path, "/"@, i)
                ==> !text::is_hex_id(path.skip(i + 1))),
    ensures
        store_key::splittable(store_key, path),
        store_key::split(store_key, path) == (store_key, Seq::<char>::empty()),
{
    if let Some(path) = path {
        text::lemma_last_occurrence(path, "/"@);
        text::lemma_last_occurrence(path, "/urc-"@);
        if let Some(at) = text::last_occurrence(path, "/urc-"@) {
            assert(text::occurs_at(path, "/urc-"@, at));
        }
        if let Some(at) = text::last_occurrence(path, "/"@) {
            assert(!text::occurs_at(path, "/urc-"@, at));
            assert(!text::is_hex_id(path.skip(at + 1)));
        }
    }
}

/// What is known of an encryption is its key and its nonce.
pub proof fn encryption_is_its_key_and_nonce(encryption: Encryption)
    ensures
        encryption@.key == encryption.key@,
        encryption@.nonce == encryption.nonce,
        encryption.nonce < u32::MAX ==> encryption.advanced().nonce == encryption.nonce + 1,
        encryption.advanced().key == encryption.key@,
{
}

/// A key of the wrong length and a text that cannot be decrypted are reported each in its own words.
pub proof fn failures_to_decrypt_are_told_apart(error: TokenStoreError)
    ensures
        error@ == cipher::bad_key() <==> (error matches TokenStoreError::Internal { context }
            && context@ == "Failed to create unbound key"@),
        error@ == cipher::cannot_decrypt() <==> (error matches TokenStoreError::Internal { context }
            && context@ == "Failed to decrypt user token"@),
{
}

/// A text is one that was encrypted exactly where it is the base 64 form of a nonce and of the token
/// sealed with the key and that nonce, and the token is not too long to be sealed.
pub proof fn encrypted_texts_are_sealed_tokens(key: Seq<u8>, token: Seq<char>, text: Seq<char>)
    ensures
        cipher::is_encrypted(key, token, text) <==> vstd::utf8::encode_utf8(token).len() + 16
            <= 68_719_476_704 && exists|nonce: u32|
            text == cipher::base64_text(
                #[trigger] cipher::little_endian(nonce) + cipher::gcm_seal(
                    key,
                    cipher::nonce_of(nonce),
                    cipher::padded(token),
                ),
            ),
{
    if cipher::is_encrypted(key, token, text) {
        let nonce = choose|nonce: u32|
            text == #[trigger] cipher::encrypted_text(EncryptionView { key, nonce }, token);
        assert(text == cipher::base64_text(
            cipher::little_endian(nonce) + cipher::gcm_seal(
                key,
                cipher::nonce_of(nonce),
                cipher::padded(token),
            ),
        ));
    }
    if exists|nonce: u32|
        text == cipher::base64_text(
            #[trigger] cipher::little_endian(nonce) + cipher::gcm_seal(
                key,
                cipher::nonce_of(nonce),
                cipher::padded(token),
            ),
        ) {
        let nonce = choose|nonce: u32|
            text == cipher::base64_text(
                #[trigger] cipher::little_endian(nonce) + cipher::gcm_seal(
                    key,
                    cipher::nonce_of(nonce),
                    cipher::padded(token),
                ),
            );
        assert(text == cipher::encrypted_text(EncryptionView { key, nonce }, token));
    }
}

} // verus!
