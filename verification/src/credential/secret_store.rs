//! Where the secret that encrypts the tokens is kept: in the secure store of the system or, where
//! that is not to be had and strict security is not asked for, in a file.
//!
//! The stores are asked elsewhere, one question at a time.
use vstd::prelude::*;
use vstd::string::*;

use crate::credential::error::{TokenStoreError, TokenStoreErrorView};
use crate::model;
use crate::text;

verus! {

/// Whether the secure store is used, given the setting for it: unless that says `fallback`.
pub fn use_secure_store(setting: &Option<String>) -> (secure: bool)
    ensures
        secure == (model::opt_view(*setting) != Some("fallback"@)),
{
    match setting {
        Some(store) => !text::same_text(store.as_str(), "fallback"),
        None => true,
    }
}

/// Whether strict security is asked for, given the setting for it: where that says `strict`, in
/// capitals or not.
pub fn strict_security_mode(setting: &Option<String>) -> (strict: bool)
    ensures
        strict == (*setting matches Some(value) && text::lower(value@) == text::lower("strict"@)),
{
    match setting {
        Some(value) => text::eq_ignore_ascii_case(value.as_str(), "strict"),
        None => false,
    }
}

/// Where the files are kept.
#[derive(Debug)]
pub enum BasePath {
    /// In the directory that the setting names.
    Configured { path: String },
    /// In the user's configuration directory.
    User,
}

/// Decides where the files are kept, given the setting for it. An empty one counts as none.
pub fn base_path(setting: Option<String>) -> (path: BasePath)
    ensures
        match setting {
            Some(value) => if value@.len() > 0 {
                path == (BasePath::Configured { path: value })
            } else {
                path is User
            },
            None => path is User,
        },
{
    match setting {
        Some(path) => if path.as_str().is_empty() {
            BasePath::User
        } else {
            BasePath::Configured { path }
        },
        None => BasePath::User,
    }
}

/// Gives the name of the file of all tokens.
pub fn token_map_file() -> (name: &'static str)
    ensures
        name@ == "tokens.toml"@,
{
    "tokens.toml"
}

/// Gives the name of the file that a secret is kept in outside the secure store.
pub fn store_fallback_file(name: &str) -> (file: String)
    ensures
        file@ == "sec-"@ + name@,
{
    let mut file = "sec-".to_owned();
    file.append(name);
    file
}

/// Gives the name of the secret that encrypts the tokens.
pub fn encryption_key_target() -> (target: &'static str)
    ensures
        target@ == "lore_encryption_key"@,
{
    "lore_encryption_key"
}

/// What can go wrong with the file of a secret.
#[derive(Debug)]
pub enum FileFailure {
    /// There is no directory for it.
    Path,
    /// It could not be locked.
    Lock,
    /// It could not be read or written.
    Access,
    /// It could not be made private.
    Permissions,
}

/// What is asked of the stores to read a secret.
#[derive(Debug)]
pub enum ReadAction {
    /// Read it from the secure store.
    Keyring,
    /// Read it from its file.
    File,
    /// Nothing more: this is the outcome. An empty secret means that there is none.
    Finish { result: Result<Vec<u8>, TokenStoreError> },
}

/// The model of [`ReadAction`].
pub enum ReadActionView {
    Keyring,
    File,
    Finish { result: Result<Seq<u8>, TokenStoreErrorView> },
}

impl View for ReadAction {
    type V = ReadActionView;

    open spec fn view(&self) -> ReadActionView {
        match *self {
            ReadAction::Keyring => ReadActionView::Keyring,
            ReadAction::File => ReadActionView::File,
            ReadAction::Finish { result } => ReadActionView::Finish {
                result: model::result_view(result),
            },
        }
    }
}

/// What is asked once the secure store has not given the secret: in strict mode there is none.
pub open spec fn read_without_keyring(strict: bool) -> ReadActionView {
    if strict {
        ReadActionView::Finish { result: Ok(seq![]) }
    } else {
        ReadActionView::File
    }
}

/// What is asked first.
pub open spec fn read_begin(secure: bool, strict: bool) -> ReadActionView {
    if secure {
        ReadActionView::Keyring
    } else {
        read_without_keyring(strict)
    }
}

/// What is asked once the secure store has answered: the secret, if it gave one.
pub open spec fn read_after_keyring(strict: bool, secret: Option<Seq<u8>>) -> ReadActionView {
    match secret {
        Some(secret) => ReadActionView::Finish { result: Ok(secret) },
        None => read_without_keyring(strict),
    }
}

/// The outcome once the file was read: its contents, if there is one.
pub open spec fn read_after_file(read: Result<Option<Seq<u8>>, FileFailure>) -> Result<
    Seq<u8>,
    TokenStoreErrorView,
> {
    match read {
        Ok(Some(secret)) => Ok(secret),
        Ok(None) => Ok(seq![]),
        Err(failure) => Err(
            TokenStoreErrorView::Internal {
                context: match failure {
                    FileFailure::Path => "Failed to make fallback path"@,
                    FileFailure::Lock => "Failed to lock store file"@,
                    _ => "Failed to read secret from fallback path"@,
                },
            },
        ),
    }
}

fn without_keyring(strict: bool) -> (action: ReadAction)
    ensures
        action@ == read_without_keyring(strict),
{
    if strict {
        let secret: Vec<u8> = Vec::new();
        assert(secret@ =~= seq![]);
        ReadAction::Finish { result: Ok(secret) }
    } else {
        ReadAction::File
    }
}

/// Says what to ask first to read a secret.
pub fn get_secret_from_store(secure: bool, strict: bool) -> (action: ReadAction)
    ensures
        action@ == read_begin(secure, strict),
{
    if secure {
        ReadAction::Keyring
    } else {
        without_keyring(strict)
    }
}

/// Takes what the secure store answered: the secret, or nothing where it is not to be had or has
/// none.
pub fn secret_from_keyring(strict: bool, secret: Option<Vec<u8>>) -> (action: ReadAction)
    ensures
        action@ == read_after_keyring(strict, model::opt_view(secret)),
{
    match secret {
        Some(secret) => ReadAction::Finish { result: Ok(secret) },
        None => without_keyring(strict),
    }
}

/// Takes what was read from the file: nothing where there is no file.
pub fn secret_from_file(read: Result<Option<Vec<u8>>, FileFailure>) -> (r: Result<
    Vec<u8>,
    TokenStoreError,
>)
    ensures
        model::result_view(r) == read_after_file(
            match read {
                Ok(secret) => Ok(model::opt_view(secret)),
                Err(failure) => Err(failure),
            },
        ),
{
    match read {
        Ok(Some(secret)) => Ok(secret),
        Ok(None) => {
            let secret: Vec<u8> = Vec::new();
            assert(secret@ =~= seq![]);
            Ok(secret)
        },
        Err(failure) => Err(
            match failure {
                FileFailure::Path => TokenStoreError::internal("Failed to make fallback path"),
                FileFailure::Lock => TokenStoreError::internal("Failed to lock store file"),
                _ => TokenStoreError::internal("Failed to read secret from fallback path"),
            },
        ),
    }
}

/// What is asked of the stores to write a secret down.
#[derive(Debug)]
pub enum WriteAction {
    /// Write it to the secure store.
    Keyring,
    /// Write it to its file. With `from_now_on` the secure store is not used any more.
    File { from_now_on: bool },
    /// Nothing more: it was written down, or it was not.
    Finish { result: Result<(), TokenStoreError> },
}

/// The model of [`WriteAction`].
pub enum WriteActionView {
    Keyring,
    File { from_now_on: bool },
    Finish { result: Result<(), TokenStoreErrorView> },
}

impl View for WriteAction {
    type V = WriteActionView;

    open spec fn view(&self) -> WriteActionView {
        match *self {
            WriteAction::Keyring => WriteActionView::Keyring,
            WriteAction::File { from_now_on } => WriteActionView::File { from_now_on },
            WriteAction::Finish { result } => WriteActionView::Finish {
                result: model::unit_result_view(result),
            },
        }
    }
}

/// What became of the attempt to write a secret to the secure store.
#[derive(Debug, Clone, Copy)]
pub enum KeyringOutcome {
    /// It is not to be had.
    Unavailable,
    Stored,
    Failed,
}

/// What is asked once the secure store has not taken the secret: in strict mode this is a failure.
pub open spec fn write_without_keyring(strict: bool, from_now_on: bool) -> WriteActionView {
    if strict {
        WriteActionView::Finish {
            result: Err(
                TokenStoreErrorView::Internal {
                    context: "OS secure storage is required in strict security mode"@,
                },
            ),
        }
    } else {
        WriteActionView::File { from_now_on }
    }
}

/// What is asked first.
pub open spec fn write_begin(secure: bool, strict: bool) -> WriteActionView {
    if secure {
        WriteActionView::Keyring
    } else {
        write_without_keyring(strict, false)
    }
}

/// What is asked once the secure store has answered.
pub open spec fn write_after_keyring(strict: bool, outcome: KeyringOutcome) -> WriteActionView {
    match outcome {
        KeyringOutcome::Stored => WriteActionView::Finish { result: Ok(()) },
        KeyringOutcome::Failed => write_without_keyring(strict, true),
        KeyringOutcome::Unavailable => write_without_keyring(strict, false),
    }
}

/// The outcome once the file was written.
pub open spec fn write_after_file(written: Result<(), FileFailure>) -> Result<
    (),
    TokenStoreErrorView,
> {
    match written {
        Ok(_) => Ok(()),
        Err(failure) => Err(
            TokenStoreErrorView::Internal {
                context: match failure {
                    FileFailure::Path => "Failed to make fallback path"@,
                    FileFailure::Lock => "Failed to lock store file"@,
                    FileFailure::Access => "Failed to write secret to fallback path"@,
                    FileFailure::Permissions => "Failed to secure fallback key permissions"@,
                },
            },
        ),
    }
}

fn write_elsewhere(strict: bool, from_now_on: bool) -> (action: WriteAction)
    ensures
        action@ == write_without_keyring(strict, from_now_on),
{
    if strict {
        WriteAction::Finish {
            result: Err(
                TokenStoreError::internal("OS secure storage is required in strict security mode"),
            ),
        }
    } else {
        WriteAction::File { from_now_on }
    }
}

/// Says what to ask first to write a secret down.
pub fn set_secret_in_store(secure: bool, strict: bool) -> (action: WriteAction)
    ensures
        action@ == write_begin(secure, strict),
{
    if secure {
        WriteAction::Keyring
    } else {
        write_elsewhere(strict, false)
    }
}

/// Takes what became of the attempt to write the secret to the secure store.
pub fn secret_to_keyring(strict: bool, outcome: KeyringOutcome) -> (action: WriteAction)
    ensures
        action@ == write_after_keyring(strict, outcome),
{
    match outcome {
        KeyringOutcome::Stored => WriteAction::Finish { result: Ok(()) },
        KeyringOutcome::Failed => write_elsewhere(strict, true),
        KeyringOutcome::Unavailable => write_elsewhere(strict, false),
    }
}

/// Takes what became of the attempt to write the secret to its file.
pub fn secret_to_file(written: Result<(), FileFailure>) -> (r: Result<(), TokenStoreError>)
    ensures
        model::unit_result_view(r) == write_after_file(written),
{
    match written {
        Ok(_) => Ok(()),
        Err(failure) => Err(
            match failure {
                FileFailure::Path => TokenStoreError::internal("Failed to make fallback path"),
                FileFailure::Lock => TokenStoreError::internal("Failed to lock store file"),
                FileFailure::Access => TokenStoreError::internal(
                    "Failed to write secret to fallback path",
                ),
                FileFailure::Permissions => TokenStoreError::internal(
                    "Failed to secure fallback key permissions",
                ),
            },
        ),
    }
}

/// In strict mode no secret is read from a file or written to one, whatever the settings and the
/// answers are.
pub proof fn strict_mode_uses_no_file(secure: bool, secret: Option<Seq<u8>>, outcome: KeyringOutcome)
    ensures
        !(read_begin(secure, true) is File),
        !(read_after_keyring(true, secret) is File),
        !(write_begin(secure, true) is File),
        !(write_after_keyring(true, outcome) is File),
{
}

/// A secret that the secure store has taken is read from there: what is given back is what it gives.
pub proof fn secure_store_is_asked_first(strict: bool, secret: Seq<u8>)
    ensures
        read_begin(true, strict) is Keyring,
        write_begin(true, strict) is Keyring,
        write_after_keyring(strict, KeyringOutcome::Stored) == (WriteActionView::Finish {
            result: Ok(()),
        }),
        read_after_keyring(strict, Some(secret)) == (ReadActionView::Finish { result: Ok(secret) }),
{
}

} // verus!
