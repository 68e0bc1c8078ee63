//! Creation of a repository, version 1 of the interface.
//!
//! As in [`crate::server::repository_create`], the surroundings are asked one question at a time.
//! Here a lookup gives the metadata itself, and the server sets the time of creation.
use vstd::prelude::*;
use vstd::string::*;

use crate::ids::{Context, RepositoryId};
use crate::model;
use crate::server::creation_v1_laws;
use crate::server::repository_create;
use crate::server::repository_create::{
    AuthCall, AuthCallView, BranchFailure, BranchFailureView, CreateRequest, CreateRequestView, Address,
    Limits, RepositoryMetadata, RepositoryMetadataView,
};
use crate::status::{Code, Status, StatusView};

verus! {

/// What is known of a repository: its metadata and where it is stored.
#[derive(Debug)]
pub struct RepositoryRecord {
    pub metadata: RepositoryMetadata,
    pub hash: Address,
}

/// The model of [`RepositoryRecord`].
pub struct RepositoryRecordView {
    pub metadata: RepositoryMetadataView,
    pub hash: Seq<u8>,
}

impl View for RepositoryRecord {
    type V = RepositoryRecordView;

    open spec fn view(&self) -> RepositoryRecordView {
        RepositoryRecordView { metadata: self.metadata@, hash: self.hash@ }
    }
}

/// A repository found by its name.
#[derive(Debug)]
pub struct NamedRecord {
    pub id: RepositoryId,
    pub record: RepositoryRecord,
}

/// The model of [`NamedRecord`].
pub struct NamedRecordView {
    pub id: RepositoryId,
    pub record: RepositoryRecordView,
}

impl View for NamedRecord {
    type V = NamedRecordView;

    open spec fn view(&self) -> NamedRecordView {
        NamedRecordView { id: self.id, record: self.record@ }
    }
}

/// What is asked of the surroundings.
#[derive(Debug)]
#[allow(inconsistent_fields)]
pub enum CreateAction {
    /// Look a repository up by its identifier, without checking permissions.
    LoadId { id: RepositoryId },
    /// Look a repository up by its name, without checking permissions.
    LoadName { name: String },
    /// Record that a name belongs to an identifier.
    StoreNameToId { name: String, id: RepositoryId },
    /// Store metadata and give back its address.
    StoreMetadata { metadata: RepositoryMetadata },
    /// Create a branch of the default category, with an empty stack.
    CreateBranch { id: Context, name: String, creator: String, created: u64 },
    /// Make an address the metadata address of the repository.
    StoreMetadataHash { hash: Address },
    /// Make the caller the owner of the repository.
    CreateAuthResource { call: AuthCall },
    /// Nothing more: this is the outcome.
    Finish { result: Result<RepositoryRecord, Status> },
}

/// The model of [`CreateAction`].
#[allow(inconsistent_fields)]
pub enum CreateActionView {
    LoadId { id: RepositoryId },
    LoadName { name: Seq<char> },
    StoreNameToId { name: Seq<char>, id: RepositoryId },
    StoreMetadata { metadata: RepositoryMetadataView },
    CreateBranch { id: Context, name: Seq<char>, creator: Seq<char>, created: u64 },
    StoreMetadataHash { hash: Seq<u8> },
    CreateAuthResource { call: AuthCallView },
    Finish { result: Result<RepositoryRecordView, StatusView> },
}

impl View for CreateAction {
    type V = CreateActionView;

    open spec fn view(&self) -> CreateActionView {
        match *self {
            CreateAction::LoadId { id } => CreateActionView::LoadId { id },
            CreateAction::LoadName { name } => CreateActionView::LoadName { name: name@ },
            CreateAction::StoreNameToId { name, id } => CreateActionView::StoreNameToId {
                name: name@,
                id,
            },
            CreateAction::StoreMetadata { metadata } => CreateActionView::StoreMetadata {
                metadata: metadata@,
            },
            CreateAction::CreateBranch { id, name, creator, created } =>
                CreateActionView::CreateBranch { id, name: name@, creator: creator@, created },
            CreateAction::StoreMetadataHash { hash } => CreateActionView::StoreMetadataHash {
                hash: hash@,
            },
            CreateAction::CreateAuthResource { call } => CreateActionView::CreateAuthResource {
                call: call@,
            },
            CreateAction::Finish { result } => CreateActionView::Finish {
                result: model::result_view(result),
            },
        }
    }
}

/// The answer to a [`CreateAction`].
#[derive(Debug)]
#[allow(inconsistent_fields)]
pub enum CreateEvent {
    /// The answer to `LoadId`: the repository, if there is one.
    ById { record: Option<RepositoryRecord> },
    /// The answer to `LoadName`: the repository, if there is one.
    ByName { found: Option<NamedRecord> },
    NameStored { result: Result<(), String> },
    MetadataStored { result: Result<Address, String> },
    BranchCreated { result: Result<(), BranchFailure> },
    HashStored { result: Result<(), String> },
    AuthResource { result: Result<(), Status> },
}

/// The model of [`CreateEvent`].
#[allow(inconsistent_fields)]
pub enum CreateEventView {
    ById { record: Option<RepositoryRecordView> },
    ByName { found: Option<NamedRecordView> },
    NameStored { result: Result<(), Seq<char>> },
    MetadataStored { result: Result<Seq<u8>, Seq<char>> },
    BranchCreated { result: Result<(), BranchFailureView> },
    HashStored { result: Result<(), Seq<char>> },
    AuthResource { result: Result<(), StatusView> },
}

impl View for CreateEvent {
    type V = CreateEventView;

    open spec fn view(&self) -> CreateEventView {
        match *self {
            CreateEvent::ById { record } => CreateEventView::ById {
                record: model::opt_view(record),
            },
            CreateEvent::ByName { found } => CreateEventView::ByName {
                found: model::opt_view(found),
            },
            CreateEvent::NameStored { result } => CreateEventView::NameStored {
                result: model::unit_result_view(result),
            },
            CreateEvent::MetadataStored { result } => CreateEventView::MetadataStored {
                result: model::result_view(result),
            },
            CreateEvent::BranchCreated { result } => CreateEventView::BranchCreated {
                result: model::unit_result_view(result),
            },
            CreateEvent::HashStored { result } => CreateEventView::HashStored {
                result: model::unit_result_view(result),
            },
            CreateEvent::AuthResource { result } => CreateEventView::AuthResource {
                result: model::unit_result_view(result),
            },
        }
    }
}

/// How far a creation has come.
#[derive(Debug)]
pub enum CreateState {
    /// Waiting for the lookup by identifier.
    ById,
    /// The identifier is known; waiting for the lookup by name.
    MappingById { record: RepositoryRecord },
    /// The identifier is known and its name was not; waiting for the name to be recorded.
    RepairById { record: RepositoryRecord },
    /// Waiting for the lookup by name.
    ByName,
    /// Waiting for the metadata to be stored.
    Metadata,
    /// Waiting for the default branch.
    Branch { hash: Address },
    /// Waiting for the metadata address to be stored.
    MetadataHash { hash: Address },
    /// Waiting for the name to be recorded.
    Name { hash: Address },
    /// The repository is stored; waiting for the authorization service.
    Authorize { record: RepositoryRecord },
    /// The outcome is known.
    Finished,
}

/// The model of [`CreateState`].
pub enum CreateStateView {
    ById,
    MappingById { record: RepositoryRecordView },
    RepairById { record: RepositoryRecordView },
    ByName,
    Metadata,
    Branch { hash: Seq<u8> },
    MetadataHash { hash: Seq<u8> },
    Name { hash: Seq<u8> },
    Authorize { record: RepositoryRecordView },
    Finished,
}

impl View for CreateState {
    type V = CreateStateView;

    open spec fn view(&self) -> CreateStateView {
        match *self {
            CreateState::ById => CreateStateView::ById,
            CreateState::MappingById { record } => CreateStateView::MappingById { record: record@ },
            CreateState::RepairById { record } => CreateStateView::RepairById { record: record@ },
            CreateState::ByName => CreateStateView::ByName,
            CreateState::Metadata => CreateStateView::Metadata,
            CreateState::Branch { hash } => CreateStateView::Branch { hash: hash@ },
            CreateState::MetadataHash { hash } => CreateStateView::MetadataHash { hash: hash@ },
            CreateState::Name { hash } => CreateStateView::Name { hash: hash@ },
            CreateState::Authorize { record } => CreateStateView::Authorize { record: record@ },
            CreateState::Finished => CreateStateView::Finished,
        }
    }
}

/// The subject to whom a creation is attributed: the verified user where an authorization service
/// is configured, else the creator that the message names, or the user where it names none.
pub open spec fn creator_of(
    auth_url: Option<Seq<char>>,
    requested: Option<Seq<char>>,
    user_id: Seq<char>,
) -> Seq<char> {
    match requested {
        Some(name) => if auth_url is Some || name.len() == 0 {
            user_id
        } else {
            name
        },
        None => user_id,
    }
}

/// Chooses the subject to whom a creation is attributed.
pub fn select_creator(auth_url: &Option<String>, requested: Option<String>, user_id: &str) -> (creator:
    String)
    ensures
        creator@ == creator_of(model::opt_view(*auth_url), model::opt_view(requested), user_id@),
{
    if auth_url.is_some() {
        return user_id.to_owned();
    }
    match requested {
        Some(name) => if name.as_str().is_empty() {
            user_id.to_owned()
        } else {
            name
        },
        None => user_id.to_owned(),
    }
}

/// The fields of a creation message.
#[derive(Debug)]
pub struct CreateMessage {
    pub id: RepositoryId,
    pub name: String,
    pub description: String,
    pub default_branch_id: Context,
    pub default_branch_name: String,
    pub creator: Option<String>,
}

/// Makes a request out of a message, the user who sent it, the time in seconds since the epoch, the
/// configured authorization service and the credentials that came with the message.
pub fn handler(
    message: CreateMessage,
    name_is_valid: bool,
    name_id: Option<Context>,
    user_id: &str,
    now: u64,
    auth_url: Option<String>,
    authorization: Option<String>,
) -> (req: CreateRequest)
    ensures
        req@ == (CreateRequestView {
            id: message.id,
            name: message.name@,
            name_is_valid,
            name_id,
            description: message.description@,
            default_branch_id: message.default_branch_id,
            default_branch_name: message.default_branch_name@,
            creator: creator_of(
                model::opt_view(auth_url),
                model::opt_view(message.creator),
                user_id@,
            ),
            created: now,
            auth_url: model::opt_view(auth_url),
            authorization: model::opt_view(authorization),
        }),
        creation_v1_laws::is_request_of(message, user_id@, now, auth_url, authorization, req),
        req.name_is_valid == name_is_valid && req.name_id == name_id,
{
    let creator = select_creator(&auth_url, message.creator, user_id);
    CreateRequest {
        id: message.id,
        name: message.name,
        name_is_valid,
        name_id,
        description: message.description,
        default_branch_id: message.default_branch_id,
        default_branch_name: message.default_branch_name,
        creator,
        created: now,
        auth_url,
        authorization,
    }
}

/// The record of the requested repository, stored at `hash`.
pub open spec fn created(req: CreateRequestView, hash: Seq<u8>) -> RepositoryRecordView {
    RepositoryRecordView { metadata: repository_create::new_metadata(req, req.creator), hash }
}

/// The end of a creation.
pub open spec fn finish(result: Result<RepositoryRecordView, StatusView>) -> (
    CreateStateView,
    CreateActionView,
) {
    (CreateStateView::Finished, CreateActionView::Finish { result })
}

/// The first question about a request.
pub open spec fn create_begin(limits: Limits, req: CreateRequestView) -> (
    CreateStateView,
    CreateActionView,
) {
    match repository_create::request_error(limits, req) {
        Some(status) => finish(Err(status)),
        None => (CreateStateView::ById, CreateActionView::LoadId { id: req.id }),
    }
}

/// What follows once the repository is stored, or is known to have been stored before.
pub open spec fn authorize(req: CreateRequestView, record: RepositoryRecordView) -> (
    CreateStateView,
    CreateActionView,
) {
    match req.auth_url {
        Some(url) => (
            CreateStateView::Authorize { record },
            CreateActionView::CreateAuthResource { call: repository_create::auth_call(req, url) },
        ),
        None => finish(Ok(record)),
    }
}

/// Whether an existing repository belongs to another subject than the one that asks.
pub open spec fn is_foreign(req: CreateRequestView, metadata: RepositoryMetadataView) -> bool {
    req.auth_url is Some && metadata.creator != req.creator
}

/// The refusal of a repository that belongs to another subject.
pub open spec fn foreign() -> StatusView {
    repository_create::failed(Code::PermissionDenied, "Repository is owned by another subject"@)
}

/// What follows the lookup by identifier.
pub open spec fn after_id(req: CreateRequestView, record: Option<RepositoryRecordView>) -> (
    CreateStateView,
    CreateActionView,
) {
    match record {
        None => (CreateStateView::ByName, CreateActionView::LoadName { name: req.name }),
        Some(record) => if record.metadata.name != req.name {
            finish(
                Err(
                    repository_create::failed(
                        Code::AlreadyExists,
                        "Repository "@ + req.id.hex() + " already exist with name "@
                            + record.metadata.name + " which does not match "@ + req.name,
                    ),
                ),
            )
        } else if is_foreign(req, record.metadata) {
            finish(Err(foreign()))
        } else {
            (CreateStateView::MappingById { record }, CreateActionView::LoadName { name: req.name })
        },
    }
}

/// What follows the lookup by name, where the identifier is unknown.
pub open spec fn after_name(req: CreateRequestView, found: Option<NamedRecordView>) -> (
    CreateStateView,
    CreateActionView,
) {
    match found {
        None => (
            CreateStateView::Metadata,
            CreateActionView::StoreMetadata {
                metadata: repository_create::new_metadata(req, req.creator),
            },
        ),
        Some(found) => if found.id != req.id {
            finish(
                Err(
                    repository_create::failed(
                        Code::AlreadyExists,
                        "Repository "@ + req.name + " already exist with id "@ + found.id.hex()
                            + " which does not match "@ + req.id.hex(),
                    ),
                ),
            )
        } else if is_foreign(req, found.record.metadata) {
            finish(Err(foreign()))
        } else {
            authorize(req, found.record)
        },
    }
}

/// Whether `event` answers the question that `state` waits for.
pub open spec fn create_fits(state: CreateStateView, event: CreateEventView) -> bool {
    match state {
        CreateStateView::ById => event is ById,
        CreateStateView::MappingById { .. } => event is ByName,
        CreateStateView::RepairById { .. } => event is NameStored,
        CreateStateView::ByName => event is ByName,
        CreateStateView::Metadata => event is MetadataStored,
        CreateStateView::Branch { .. } => event is BranchCreated,
        CreateStateView::MetadataHash { .. } => event is HashStored,
        CreateStateView::Name { .. } => event is NameStored,
        CreateStateView::Authorize { .. } => event is AuthResource,
        CreateStateView::Finished => false,
    }
}

/// What follows the answer `event` in `state`.
pub open spec fn create_step(
    req: CreateRequestView,
    state: CreateStateView,
    event: CreateEventView,
) -> (CreateStateView, CreateActionView) {
    match (state, event) {
        (CreateStateView::ById, CreateEventView::ById { record }) => after_id(req, record),
        (CreateStateView::MappingById { record }, CreateEventView::ByName { found }) =>
            if found is None {
                (
                    CreateStateView::RepairById { record },
                    CreateActionView::StoreNameToId { name: req.name, id: req.id },
                )
            } else {
                authorize(req, record)
            },
        // A mapping that cannot be repaired does not stop the request.
        (CreateStateView::RepairById { record }, CreateEventView::NameStored { .. }) => authorize(
            req,
            record,
        ),
        (CreateStateView::ByName, CreateEventView::ByName { found }) => after_name(req, found),
        (CreateStateView::Metadata, CreateEventView::MetadataStored { result }) => match result {
            Ok(hash) => (
                CreateStateView::Branch { hash },
                CreateActionView::CreateBranch {
                    id: req.default_branch_id,
                    name: req.default_branch_name,
                    creator: req.creator,
                    created: req.created,
                },
            ),
            Err(detail) => finish(
                Err(
                    repository_create::failed(
                        Code::Internal,
                        "Failed to serialize repository metadata: "@ + detail,
                    ),
                ),
            ),
        },
        (CreateStateView::Branch { hash }, CreateEventView::BranchCreated { result }) => match result {
            Err(failure) if !failure.already_exists => finish(
                Err(
                    repository_create::failed(
                        Code::Internal,
                        "Failed to create default branch: "@ + failure.detail,
                    ),
                ),
            ),
            _ => (
                CreateStateView::MetadataHash { hash },
                CreateActionView::StoreMetadataHash { hash },
            ),
        },
        (CreateStateView::MetadataHash { hash }, CreateEventView::HashStored { result }) => match result {
            Ok(_) => (
                CreateStateView::Name { hash },
                CreateActionView::StoreNameToId { name: req.name, id: req.id },
            ),
            Err(detail) => finish(
                Err(
                    repository_create::failed(
                        Code::Internal,
                        "Failed to store metadata hash for "@ + req.name + "/"@ + req.id.hex()
                            + ": "@ + detail,
                    ),
                ),
            ),
        },
        (CreateStateView::Name { hash }, CreateEventView::NameStored { result }) => match result {
            Ok(_) => authorize(req, created(req, hash)),
            Err(detail) => finish(
                Err(
                    repository_create::failed(
                        Code::Internal,
                        "Failed to store name to ID lookup for "@ + req.name + " -> "@
                            + req.id.hex() + ": "@ + detail,
                    ),
                ),
            ),
        },
        (CreateStateView::Authorize { record }, CreateEventView::AuthResource { result }) => match result {
            Ok(_) => finish(Ok(record)),
            Err(status) => finish(Err(status)),
        },
        _ => vstd::pervasive::arbitrary(),
    }
}

fn finish_with(result: Result<RepositoryRecord, Status>) -> (next: (CreateState, CreateAction))
    ensures
        (next.0@, next.1@) == finish(model::result_view(result)),
{
    (CreateState::Finished, CreateAction::Finish { result })
}

fn fail(code: Code, message: &str) -> (next: (CreateState, CreateAction))
    ensures
        (next.0@, next.1@) == finish(Err(repository_create::failed(code, message@))),
{
    finish_with(Err(Status::new(code, message)))
}

fn fail_with(code: Code, context: &str, detail: &str) -> (next: (CreateState, CreateAction))
    ensures
        (next.0@, next.1@) == finish(Err(repository_create::failed(code, context@ + detail@))),
{
    finish_with(Err(Status::with_detail(code, context, detail)))
}

/// Gives the first question about `req`, once the hooks that run before a creation have answered.
pub fn handle(req: &CreateRequest, limits: Limits, hooks: Result<(), Status>) -> (next: (
    CreateState,
    CreateAction,
))
    ensures
        (next.0@, next.1@) == (match hooks {
            Ok(_) => create_begin(limits, req@),
            Err(status) => finish(Err(status@)),
        }),
{
    match hooks {
        Ok(_) => begin(req, limits),
        Err(status) => finish_with(Err(status)),
    }
}

/// Checks `req` and gives the first question about it.
pub fn begin(req: &CreateRequest, limits: Limits) -> (next: (CreateState, CreateAction))
    ensures
        (next.0@, next.1@) == create_begin(limits, req@),
{
    match req.refusal(limits) {
        Some(status) => finish_with(Err(status)),
        None => (CreateState::ById, CreateAction::LoadId { id: req.id }),
    }
}

fn on_stored(req: &CreateRequest, record: RepositoryRecord) -> (next: (CreateState, CreateAction))
    ensures
        (next.0@, next.1@) == authorize(req@, record@),
{
    match &req.auth_url {
        Some(url) => {
            let call = req.auth_resource_call(url);
            (CreateState::Authorize { record }, CreateAction::CreateAuthResource { call })
        },
        None => finish_with(Ok(record)),
    }
}

fn on_id(req: &CreateRequest, record: Option<RepositoryRecord>) -> (next: (
    CreateState,
    CreateAction,
))
    ensures
        (next.0@, next.1@) == after_id(req@, model::opt_view(record)),
{
    match record {
        None => (CreateState::ByName, CreateAction::LoadName { name: req.name.clone() }),
        Some(record) => if record.metadata.name != req.name {
            let mut message = "Repository ".to_owned();
            message.append(req.id.to_hex().as_str());
            message.append(" already exist with name ");
            message.append(record.metadata.name.as_str());
            message.append(" which does not match ");
            message.append(req.name.as_str());
            fail(Code::AlreadyExists, message.as_str())
        } else if req.auth_url.is_some() && record.metadata.creator != req.creator {
            fail(Code::PermissionDenied, "Repository is owned by another subject")
        } else {
            (
                CreateState::MappingById { record },
                CreateAction::LoadName { name: req.name.clone() },
            )
        },
    }
}

fn on_name(req: &CreateRequest, found: Option<NamedRecord>) -> (next: (CreateState, CreateAction))
    ensures
        (next.0@, next.1@) == after_name(req@, model::opt_view(found)),
{
    match found {
        None => {
            let metadata = req.metadata_by(req.creator.clone());
            (CreateState::Metadata, CreateAction::StoreMetadata { metadata })
        },
        Some(found) => if found.id != req.id {
            let mut message = "Repository ".to_owned();
            message.append(req.name.as_str());
            message.append(" already exist with id ");
            message.append(found.id.to_hex().as_str());
            message.append(" which does not match ");
            message.append(req.id.to_hex().as_str());
            fail(Code::AlreadyExists, message.as_str())
        } else if req.auth_url.is_some() && found.record.metadata.creator != req.creator {
            fail(Code::PermissionDenied, "Repository is owned by another subject")
        } else {
            on_stored(req, found.record)
        },
    }
}

fn on_branch(req: &CreateRequest, hash: Address, result: Result<(), BranchFailure>) -> (next: (
    CreateState,
    CreateAction,
))
    ensures
        (next.0@, next.1@) == create_step(
            req@,
            CreateStateView::Branch { hash: hash@ },
            CreateEventView::BranchCreated { result: model::unit_result_view(result) },
        ),
{
    if let Err(failure) = result {
        if !failure.already_exists {
            return fail_with(
                Code::Internal,
                "Failed to create default branch: ",
                failure.detail.as_str(),
            );
        }
    }
    let stored = hash.clone();
    (CreateState::MetadataHash { hash }, CreateAction::StoreMetadataHash { hash: stored })
}

fn on_hash(req: &CreateRequest, hash: Address, result: Result<(), String>) -> (next: (
    CreateState,
    CreateAction,
))
    ensures
        (next.0@, next.1@) == create_step(
            req@,
            CreateStateView::MetadataHash { hash: hash@ },
            CreateEventView::HashStored { result: model::unit_result_view(result) },
        ),
{
    match result {
        Ok(_) => (
            CreateState::Name { hash },
            CreateAction::StoreNameToId { name: req.name.clone(), id: req.id },
        ),
        Err(detail) => {
            let mut message = "Failed to store metadata hash for ".to_owned();
            message.append(req.name.as_str());
            message.append("/");
            message.append(req.id.to_hex().as_str());
            message.append(": ");
            message.append(detail.as_str());
            fail(Code::Internal, message.as_str())
        },
    }
}

fn on_name_stored(req: &CreateRequest, hash: Address, result: Result<(), String>) -> (next: (
    CreateState,
    CreateAction,
))
    ensures
        (next.0@, next.1@) == create_step(
            req@,
            CreateStateView::Name { hash: hash@ },
            CreateEventView::NameStored { result: model::unit_result_view(result) },
        ),
{
    match result {
        Ok(_) => {
            let metadata = req.metadata_by(req.creator.clone());
            on_stored(req, RepositoryRecord { metadata, hash })
        },
        Err(detail) => {
            let mut message = "Failed to store name to ID lookup for ".to_owned();
            message.append(req.name.as_str());
            message.append(" -> ");
            message.append(req.id.to_hex().as_str());
            message.append(": ");
            message.append(detail.as_str());
            fail(Code::Internal, message.as_str())
        },
    }
}

/// Takes the answer to the last question about `req` and gives the next one.
pub fn step(req: &CreateRequest, state: CreateState, event: CreateEvent) -> (next: (
    CreateState,
    CreateAction,
))
    requires
        create_fits(state@, event@),
    ensures
        (next.0@, next.1@) == create_step(req@, state@, event@),
{
    match (state, event) {
        (CreateState::ById, CreateEvent::ById { record }) => on_id(req, record),
        (CreateState::MappingById { record }, CreateEvent::ByName { found }) => {
            if found.is_none() {
                (
                    CreateState::RepairById { record },
                    CreateAction::StoreNameToId { name: req.name.clone(), id: req.id },
                )
            } else {
                on_stored(req, record)
            }
        },
        (CreateState::RepairById { record }, CreateEvent::NameStored { .. }) => on_stored(
            req,
            record,
        ),
        (CreateState::ByName, CreateEvent::ByName { found }) => on_name(req, found),
        (CreateState::Metadata, CreateEvent::MetadataStored { result }) => {
            match result {
                Ok(hash) => (
                    CreateState::Branch { hash },
                    CreateAction::CreateBranch {
                        id: req.default_branch_id,
                        name: req.default_branch_name.clone(),
                        creator: req.creator.clone(),
                        created: req.created,
                    },
                ),
                Err(detail) => fail_with(
                    Code::Internal,
                    "Failed to serialize repository metadata: ",
                    detail.as_str(),
                ),
            }
        },
        (CreateState::Branch { hash }, CreateEvent::BranchCreated { result }) => on_branch(
            req,
            hash,
            result,
        ),
        (CreateState::MetadataHash { hash }, CreateEvent::HashStored { result }) => on_hash(
            req,
            hash,
            result,
        ),
        (CreateState::Name { hash }, CreateEvent::NameStored { result }) => on_name_stored(
            req,
            hash,
            result,
        ),
        (CreateState::Authorize { record }, CreateEvent::AuthResource { result }) => {
            match result {
                Ok(_) => finish_with(Ok(record)),
                Err(status) => finish_with(Err(status)),
            }
        },
        (_, _) => vstd::pervasive::unreached(),
    }
}

/// The answers that the surroundings give, one for each kind of question.
///
/// No creation asks the same kind of question twice, so these are all the answers it can get.
pub struct CreateAnswers {
    pub by_id: Option<RepositoryRecordView>,
    pub by_name: Option<NamedRecordView>,
    pub name_stored: Result<(), Seq<char>>,
    pub metadata_stored: Result<Seq<u8>, Seq<char>>,
    pub branch: Result<(), BranchFailureView>,
    pub hash_stored: Result<(), Seq<char>>,
    pub auth: Result<(), StatusView>,
}

/// The answer to `action`.
pub open spec fn create_answer(answers: CreateAnswers, action: CreateActionView) -> CreateEventView {
    match action {
        CreateActionView::LoadId { .. } => CreateEventView::ById { record: answers.by_id },
        CreateActionView::LoadName { .. } => CreateEventView::ByName { found: answers.by_name },
        CreateActionView::StoreNameToId { .. } => CreateEventView::NameStored {
            result: answers.name_stored,
        },
        CreateActionView::StoreMetadata { .. } => CreateEventView::MetadataStored {
            result: answers.metadata_stored,
        },
        CreateActionView::CreateBranch { .. } => CreateEventView::BranchCreated {
            result: answers.branch,
        },
        CreateActionView::StoreMetadataHash { .. } => CreateEventView::HashStored {
            result: answers.hash_stored,
        },
        _ => CreateEventView::AuthResource { result: answers.auth },
    }
}

/// The actions from `action` on, at most `n` of them after it.
pub open spec fn create_run(
    req: CreateRequestView,
    answers: CreateAnswers,
    state: CreateStateView,
    action: CreateActionView,
    n: nat,
) -> Seq<CreateActionView>
    decreases n,
{
    if action is Finish || n == 0 {
        seq![action]
    } else {
        let next = create_step(req, state, create_answer(answers, action));
        seq![action] + create_run(req, answers, next.0, next.1, (n - 1) as nat)
    }
}

/// Everything that a creation asks, up to its outcome.
pub open spec fn create_trace(
    limits: Limits,
    req: CreateRequestView,
    answers: CreateAnswers,
) -> Seq<CreateActionView> {
    let first = create_begin(limits, req);
    create_run(req, answers, first.0, first.1, 7)
}

/// Whether `action` changes what is stored, here or at the authorization service.
pub open spec fn is_write(action: CreateActionView) -> bool {
    match action {
        CreateActionView::StoreNameToId { .. } => true,
        CreateActionView::StoreMetadata { .. } => true,
        CreateActionView::CreateBranch { .. } => true,
        CreateActionView::StoreMetadataHash { .. } => true,
        CreateActionView::CreateAuthResource { .. } => true,
        _ => false,
    }
}

/// Where an authorization service is configured, a message cannot choose the subject to whom the
/// creation is attributed: it is the verified user.
pub proof fn message_cannot_choose_creator(
    auth_url: Seq<char>,
    requested: Option<Seq<char>>,
    user_id: Seq<char>,
)
    ensures
        creator_of(Some(auth_url), requested, user_id) == user_id,
{
}

/// Whether `state` waits for the answer to `action`, or both are the end.
pub open spec fn create_asks(state: CreateStateView, action: CreateActionView) -> bool {
    if action is Finish {
        state is Finished
    } else {
        forall|answers: CreateAnswers| create_fits(state, #[trigger] create_answer(answers, action))
    }
}

/// Every question is asked in a state that waits for its answer, so that the answer to the last
/// question can always be taken.
pub proof fn create_never_stalls(
    limits: Limits,
    req: CreateRequestView,
    state: CreateStateView,
    event: CreateEventView,
)
    ensures
        create_asks(create_begin(limits, req).0, create_begin(limits, req).1),
        create_fits(state, event) ==> create_asks(
            create_step(req, state, event).0,
            create_step(req, state, event).1,
        ),
{
}

/// Every creation comes to an outcome: the last action of its trace, and no other, is `Finish`.
pub proof fn create_ends(limits: Limits, req: CreateRequestView, answers: CreateAnswers)
    ensures
        create_trace(limits, req, answers).last() is Finish,
        forall|i: int|
            0 <= i < create_trace(limits, req, answers).len() - 1 ==> !(#[trigger] create_trace(
                limits,
                req,
                answers,
            )[i] is Finish),
{
    reveal_with_fuel(create_run, 8);
}

/// A refused request asks nothing and changes nothing.
pub proof fn refused_create_asks_nothing(
    limits: Limits,
    req: CreateRequestView,
    answers: CreateAnswers,
)
    requires
        repository_create::request_error(limits, req) is Some,
    ensures
        create_trace(limits, req, answers) == seq![
            CreateActionView::Finish {
                result: Err(repository_create::request_error(limits, req)->0),
            },
        ],
{
    reveal_with_fuel(create_run, 8);
}

/// Where an authorization service is configured, success is reported only after the service has
/// made the caller the owner, and that is the last thing asked.
pub proof fn create_succeeds_only_with_owner(
    limits: Limits,
    req: CreateRequestView,
    answers: CreateAnswers,
)
    requires
        req.auth_url is Some,
        create_trace(limits, req, answers).last() matches CreateActionView::Finish { result }
            && result is Ok,
    ensures
        answers.auth is Ok,
        create_trace(limits, req, answers).len() >= 2,
        create_trace(limits, req, answers)[create_trace(limits, req, answers).len() - 2]
            == (CreateActionView::CreateAuthResource {
            call: repository_create::auth_call(req, req.auth_url->0),
        }),
{
    let first = create_begin(limits, req);
    lemma_owner_precedes_success(req, answers, first.0, first.1, 7);
}

proof fn lemma_owner_precedes_success(
    req: CreateRequestView,
    answers: CreateAnswers,
    state: CreateStateView,
    action: CreateActionView,
    n: nat,
)
    requires
        req.auth_url is Some,
        state is Authorize ==> action == (CreateActionView::CreateAuthResource {
            call: repository_create::auth_call(req, req.auth_url->0),
        }),
        create_asks(state, action),
        create_run(req, answers, state, action, n).last() matches CreateActionView::Finish { result }
            && result is Ok,
        action matches CreateActionView::Finish { result } ==> result is Err,
    ensures
        ({
            let run = create_run(req, answers, state, action, n);
            &&& answers.auth is Ok
            &&& run.len() >= 2
            &&& run[run.len() - 2] == (CreateActionView::CreateAuthResource {
                call: repository_create::auth_call(req, req.auth_url->0),
            })
        }),
    decreases n,
{
    let event = create_answer(answers, action);
    let next = create_step(req, state, event);
    assert(create_fits(state, event));
    let rest = create_run(req, answers, next.0, next.1, (n - 1) as nat);
    let run = create_run(req, answers, state, action, n);
    assert(run == seq![action] + rest);
    assert(rest.len() >= 1);
    assert(run.last() == rest.last());
    if next.1 is Finish {
        assert(rest == seq![next.1]);
    } else {
        lemma_owner_precedes_success(req, answers, next.0, next.1, (n - 1) as nat);
        assert(run[run.len() - 2] == rest[rest.len() - 2]);
    }
}

/// The owner of a new repository is recorded only after the repository is stored: its metadata,
/// its branch, its metadata address and its name.
pub proof fn owner_follows_storage(limits: Limits, req: CreateRequestView, answers: CreateAnswers, i: int)
    requires
        answers.by_id is None,
        answers.by_name is None,
        0 <= i < create_trace(limits, req, answers).len(),
        create_trace(limits, req, answers)[i] is CreateAuthResource,
    ensures
        answers.metadata_stored is Ok,
        answers.branch is Ok || answers.branch->Err_0.already_exists,
        answers.hash_stored is Ok,
        answers.name_stored is Ok,
        i >= 4,
        create_trace(limits, req, answers)[i - 4] is StoreMetadata,
        create_trace(limits, req, answers)[i - 3] is CreateBranch,
        create_trace(limits, req, answers)[i - 2] == (CreateActionView::StoreMetadataHash {
            hash: answers.metadata_stored->Ok_0,
        }),
        create_trace(limits, req, answers)[i - 1] == (CreateActionView::StoreNameToId {
            name: req.name,
            id: req.id,
        }),
{
    reveal_with_fuel(create_run, 8);
}

/// A repository that belongs to another subject is refused, and nothing is changed.
pub proof fn foreign_repository_is_refused(
    limits: Limits,
    req: CreateRequestView,
    answers: CreateAnswers,
)
    requires
        repository_create::request_error(limits, req) is None,
        req.auth_url is Some,
        (answers.by_id matches Some(record) && record.metadata.name == req.name
            && record.metadata.creator != req.creator) || (answers.by_id is None && (
        answers.by_name matches Some(found) && found.id == req.id && found.record.metadata.creator
            != req.creator)),
    ensures
        create_trace(limits, req, answers).last() == (CreateActionView::Finish {
            result: Err(foreign()),
        }),
        forall|i: int|
            0 <= i < create_trace(limits, req, answers).len() ==> !is_write(
                #[trigger] create_trace(limits, req, answers)[i],
            ),
{
    reveal_with_fuel(create_run, 8);
}

/// Repeating a creation is harmless: where the repository is found under its name and by its own
/// creator, it is given back as it is, provided that the authorization service, where there is
/// one, does not refuse.
pub proof fn repeated_create_gives_the_same(
    limits: Limits,
    req: CreateRequestView,
    answers: CreateAnswers,
    record: RepositoryRecordView,
)
    requires
        repository_create::request_error(limits, req) is None,
        record.metadata.name == req.name,
        req.auth_url is Some ==> record.metadata.creator == req.creator && answers.auth is Ok,
        answers.by_id == Some(record) || (answers.by_id is None && answers.by_name == Some(
            NamedRecordView { id: req.id, record },
        )),
    ensures
        create_trace(limits, req, answers).last() == (CreateActionView::Finish {
            result: Ok(record),
        }),
{
    reveal_with_fuel(create_run, 8);
}

/// The stored form of a repository that exists is never written again; only a missing entry from
/// its name to its identifier is restored.
pub proof fn existing_repository_is_kept(
    limits: Limits,
    req: CreateRequestView,
    answers: CreateAnswers,
    i: int,
)
    requires
        answers.by_id is Some || answers.by_name is Some,
        0 <= i < create_trace(limits, req, answers).len(),
    ensures
        !(create_trace(limits, req, answers)[i] is StoreMetadata),
        !(create_trace(limits, req, answers)[i] is CreateBranch),
        !(create_trace(limits, req, answers)[i] is StoreMetadataHash),
        create_trace(limits, req, answers)[i] is StoreNameToId ==> answers.by_id is Some
            && answers.by_name is None,
{
    reveal_with_fuel(create_run, 8);
}

} // verus!
