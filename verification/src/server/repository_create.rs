//! Creation of a repository.
//!
//! The storage, the branch layer and the authorization service are asked one question at a time.
//! [`CreateRequest::begin`] gives the first question, [`CreateRequest::step`] takes the answer and
//! gives the next one, until the outcome is known.
use vstd::prelude::*;
use vstd::string::*;

use crate::ids;
use crate::ids::{Context, RepositoryId};
use crate::model;
use crate::server::creation_laws;
use crate::status::{Code, Status, StatusView};
use crate::text;

verus! {

/// The longest texts that a request may carry, in bytes.
#[derive(Clone, Copy, Debug)]
pub struct Limits {
    pub max_name_len: usize,
    pub max_description_len: usize,
}

/// The content address of a stored value.
#[derive(Debug)]
pub struct Address {
    pub bytes: Vec<u8>,
}

impl View for Address {
    type V = Seq<u8>;

    open spec fn view(&self) -> Seq<u8> {
        self.bytes@
    }
}

impl Clone for Address {
    fn clone(&self) -> (copy: Address)
        ensures
            copy@ == self@,
    {
        let bytes = self.bytes.clone();
        assert(bytes@ =~= self.bytes@);
        Address { bytes }
    }
}

/// What is stored about a repository.
#[derive(Debug)]
pub struct RepositoryMetadata {
    pub name: String,
    pub description: String,
    pub default_branch: Context,
    pub default_branch_name: String,
    pub creator: String,
    pub created: u64,
}

/// The model of [`RepositoryMetadata`].
pub struct RepositoryMetadataView {
    pub name: Seq<char>,
    pub description: Seq<char>,
    pub default_branch: Context,
    pub default_branch_name: Seq<char>,
    pub creator: Seq<char>,
    pub created: u64,
}

impl View for RepositoryMetadata {
    type V = RepositoryMetadataView;

    open spec fn view(&self) -> RepositoryMetadataView {
        RepositoryMetadataView {
            name: self.name@,
            description: self.description@,
            default_branch: self.default_branch,
            default_branch_name: self.default_branch_name@,
            creator: self.creator@,
            created: self.created,
        }
    }
}

impl Clone for RepositoryMetadata {
    fn clone(&self) -> (copy: RepositoryMetadata)
        ensures
            copy@ == self@,
    {
        RepositoryMetadata {
            name: self.name.clone(),
            description: self.description.clone(),
            default_branch: self.default_branch,
            default_branch_name: self.default_branch_name.clone(),
            creator: self.creator.clone(),
            created: self.created,
        }
    }
}

/// A known repository: its identifier, its name and where its metadata is.
#[derive(Debug)]
pub struct RepositoryData {
    pub id: RepositoryId,
    pub name: String,
    pub metadata: Address,
}

/// The model of [`RepositoryData`].
pub struct RepositoryDataView {
    pub id: RepositoryId,
    pub name: Seq<char>,
    pub metadata: Seq<u8>,
}

impl View for RepositoryData {
    type V = RepositoryDataView;

    open spec fn view(&self) -> RepositoryDataView {
        RepositoryDataView { id: self.id, name: self.name@, metadata: self.metadata@ }
    }
}

/// A call to the authorization service that makes the caller the owner of a resource.
#[derive(Debug)]
pub struct AuthCall {
    pub auth_url: String,
    pub authorization: Option<String>,
    pub resource_id: String,
    pub resource_name: String,
}

/// The model of [`AuthCall`].
pub struct AuthCallView {
    pub auth_url: Seq<char>,
    pub authorization: Option<Seq<char>>,
    pub resource_id: Seq<char>,
    pub resource_name: Seq<char>,
}

impl View for AuthCall {
    type V = AuthCallView;

    open spec fn view(&self) -> AuthCallView {
        AuthCallView {
            auth_url: self.auth_url@,
            authorization: model::opt_view(self.authorization),
            resource_id: self.resource_id@,
            resource_name: self.resource_name@,
        }
    }
}

/// A request to create a repository.
///
/// `name_is_valid` and `name_id` are what the naming rules say of `name`: whether it may name a
/// repository, and the identifier that it writes, if it writes one.
#[derive(Debug)]
pub struct CreateRequest {
    pub id: RepositoryId,
    pub name: String,
    pub name_is_valid: bool,
    pub name_id: Option<Context>,
    pub description: String,
    pub default_branch_id: Context,
    pub default_branch_name: String,
    pub creator: String,
    pub created: u64,
    pub auth_url: Option<String>,
    pub authorization: Option<String>,
}

/// The model of [`CreateRequest`].
pub struct CreateRequestView {
    pub id: RepositoryId,
    pub name: Seq<char>,
    pub name_is_valid: bool,
    pub name_id: Option<Context>,
    pub description: Seq<char>,
    pub default_branch_id: Context,
    pub default_branch_name: Seq<char>,
    pub creator: Seq<char>,
    pub created: u64,
    pub auth_url: Option<Seq<char>>,
    pub authorization: Option<Seq<char>>,
}

impl View for CreateRequest {
    type V = CreateRequestView;

    open spec fn view(&self) -> CreateRequestView {
        CreateRequestView {
            id: self.id,
            name: self.name@,
            name_is_valid: self.name_is_valid,
            name_id: self.name_id,
            description: self.description@,
            default_branch_id: self.default_branch_id,
            default_branch_name: self.default_branch_name@,
            creator: self.creator@,
            created: self.created,
            auth_url: model::opt_view(self.auth_url),
            authorization: model::opt_view(self.authorization),
        }
    }
}

/// Why a branch could not be created.
#[derive(Debug)]
pub struct BranchFailure {
    pub already_exists: bool,
    pub detail: String,
}

/// The model of [`BranchFailure`].
pub struct BranchFailureView {
    pub already_exists: bool,
    pub detail: Seq<char>,
}

impl View for BranchFailure {
    type V = BranchFailureView;

    open spec fn view(&self) -> BranchFailureView {
        BranchFailureView { already_exists: self.already_exists, detail: self.detail@ }
    }
}

/// What is asked of the surroundings.
#[derive(Debug)]
#[allow(inconsistent_fields)]
pub enum CreateAction {
    /// Look a repository up by its identifier, without checking permissions.
    QueryId { id: RepositoryId },
    /// Look a repository up by its name, without checking permissions.
    QueryName { name: String },
    /// Read the metadata stored under an address.
    LoadMetadata { hash: Address },
    /// Record that a name belongs to an identifier.
    StoreNameToId { name: String, id: RepositoryId },
    /// Ask for the identifier of the user on whose behalf this runs.
    CurrentUser,
    /// Store metadata and give back its address.
    StoreMetadata { metadata: RepositoryMetadata },
    /// Create a branch of the default category, with an empty stack.
    CreateBranch { id: Context, name: String, creator: String, created: u64 },
    /// Make an address the metadata address of the repository.
    StoreMetadataHash { hash: Address },
    /// Make the caller the owner of the repository.
    CreateAuthResource { call: AuthCall },
    /// Nothing more: this is the outcome.
    Finish { result: Result<RepositoryData, Status> },
}

/// The model of [`CreateAction`].
#[allow(inconsistent_fields)]
pub enum CreateActionView {
    QueryId { id: RepositoryId },
    QueryName { name: Seq<char> },
    LoadMetadata { hash: Seq<u8> },
    StoreNameToId { name: Seq<char>, id: RepositoryId },
    CurrentUser,
    StoreMetadata { metadata: RepositoryMetadataView },
    CreateBranch { id: Context, name: Seq<char>, creator: Seq<char>, created: u64 },
    StoreMetadataHash { hash: Seq<u8> },
    CreateAuthResource { call: AuthCallView },
    Finish { result: Result<RepositoryDataView, StatusView> },
}

impl View for CreateAction {
    type V = CreateActionView;

    open spec fn view(&self) -> CreateActionView {
        match *self {
            CreateAction::QueryId { id } => CreateActionView::QueryId { id },
            CreateAction::QueryName { name } => CreateActionView::QueryName { name: name@ },
            CreateAction::LoadMetadata { hash } => CreateActionView::LoadMetadata { hash: hash@ },
            CreateAction::StoreNameToId { name, id } => CreateActionView::StoreNameToId {
                name: name@,
                id,
            },
            CreateAction::CurrentUser => CreateActionView::CurrentUser,
            CreateAction::StoreMetadata { metadata } => CreateActionView::StoreMetadata {
                metadata: metadata@,
            },
            CreateAction::CreateBranch { id, name, creator, created } =>
                CreateActionView::CreateBranch { id, name: name@, creator: creator@, created },
            CreateAction::StoreMetadataHash { hash } => CreateActionView::StoreMetadataHash {
                hash: hash@,
            },
            CreateAction::CreateAuthResource { call } => CreateActionView::CreateAuthResource {
                call: call@,
            },
            CreateAction::Finish { result } => CreateActionView::Finish {
                result: model::result_view(result),
            },
        }
    }
}

/// The answer to a [`CreateAction`].
///
/// A failed answer carries the text of the failure where that text is reported.
#[derive(Debug)]
#[allow(inconsistent_fields)]
pub enum CreateEvent {
    /// The answer to `QueryId` or `QueryName`: the repository, if there is one.
    Found { data: Option<RepositoryData> },
    Metadata { result: Result<RepositoryMetadata, String> },
    NameStored { result: Result<(), String> },
    User { id: String },
    MetadataStored { result: Result<Address, String> },
    BranchCreated { result: Result<(), BranchFailure> },
    HashStored { result: Result<(), String> },
    AuthResource { result: Result<(), Status> },
}

/// The model of [`CreateEvent`].
#[allow(inconsistent_fields)]
pub enum CreateEventView {
    Found { data: Option<RepositoryDataView> },
    Metadata { result: Result<RepositoryMetadataView, Seq<char>> },
    NameStored { result: Result<(), Seq<char>> },
    User { id: Seq<char> },
    MetadataStored { result: Result<Seq<u8>, Seq<char>> },
    BranchCreated { result: Result<(), BranchFailureView> },
    HashStored { result: Result<(), Seq<char>> },
    AuthResource { result: Result<(), StatusView> },
}

impl View for CreateEvent {
    type V = CreateEventView;

    open spec fn view(&self) -> CreateEventView {
        match *self {
            CreateEvent::Found { data } => CreateEventView::Found { data: model::opt_view(data) },
            CreateEvent::Metadata { result } => CreateEventView::Metadata {
                result: model::result_view(result),
            },
            CreateEvent::NameStored { result } => CreateEventView::NameStored {
                result: model::unit_result_view(result),
            },
            CreateEvent::User { id } => CreateEventView::User { id: id@ },
            CreateEvent::MetadataStored { result } => CreateEventView::MetadataStored {
                result: model::result_view(result),
            },
            CreateEvent::BranchCreated { result } => CreateEventView::BranchCreated {
                result: model::unit_result_view(result),
            },
            CreateEvent::HashStored { result } => CreateEventView::HashStored {
                result: model::unit_result_view(result),
            },
            CreateEvent::AuthResource { result } => CreateEventView::AuthResource {
                result: model::unit_result_view(result),
            },
        }
    }
}

/// How far a creation has come.
#[derive(Debug)]
pub enum CreateState {
    /// Waiting for the lookup by identifier.
    ById,
    /// The identifier is known; waiting for the metadata that names its owner.
    OwnerById { data: RepositoryData },
    /// The identifier is known; waiting for the lookup by name.
    MappingById { data: RepositoryData },
    /// The identifier is known and its name was not; waiting for the name to be recorded.
    RepairById { data: RepositoryData },
    /// Waiting for the lookup by name.
    ByName,
    /// The name is known; waiting for the metadata that names its owner.
    OwnerByName { data: RepositoryData },
    /// The repository exists; waiting for the authorization service.
    AuthorizeExisting { data: RepositoryData },
    /// Waiting for the user on whose behalf this runs.
    Creator,
    /// Waiting for the metadata to be stored.
    Metadata,
    /// Waiting for the default branch.
    Branch { hash: Address },
    /// Waiting for the metadata address to be stored.
    MetadataHash { hash: Address },
    /// Waiting for the name to be recorded.
    Name { hash: Address },
    /// The repository is stored; waiting for the authorization service.
    AuthorizeNew { hash: Address },
    /// The outcome is known.
    Finished,
}

/// The model of [`CreateState`].
pub enum CreateStateView {
    ById,
    OwnerById { data: RepositoryDataView },
    MappingById { data: RepositoryDataView },
    RepairById { data: RepositoryDataView },
    ByName,
    OwnerByName { data: RepositoryDataView },
    AuthorizeExisting { data: RepositoryDataView },
    Creator,
    Metadata,
    Branch { hash: Seq<u8> },
    MetadataHash { hash: Seq<u8> },
    Name { hash: Seq<u8> },
    AuthorizeNew { hash: Seq<u8> },
    Finished,
}

impl View for CreateState {
    type V = CreateStateView;

    open spec fn view(&self) -> CreateStateView {
        match *self {
            CreateState::ById => CreateStateView::ById,
            CreateState::OwnerById { data } => CreateStateView::OwnerById { data: data@ },
            CreateState::MappingById { data } => CreateStateView::MappingById { data: data@ },
            CreateState::RepairById { data } => CreateStateView::RepairById { data: data@ },
            CreateState::ByName => CreateStateView::ByName,
            CreateState::OwnerByName { data } => CreateStateView::OwnerByName { data: data@ },
            CreateState::AuthorizeExisting { data } => CreateStateView::AuthorizeExisting {
                data: data@,
            },
            CreateState::Creator => CreateStateView::Creator,
            CreateState::Metadata => CreateStateView::Metadata,
            CreateState::Branch { hash } => CreateStateView::Branch { hash: hash@ },
            CreateState::MetadataHash { hash } => CreateStateView::MetadataHash { hash: hash@ },
            CreateState::Name { hash } => CreateStateView::Name { hash: hash@ },
            CreateState::AuthorizeNew { hash } => CreateStateView::AuthorizeNew { hash: hash@ },
            CreateState::Finished => CreateStateView::Finished,
        }
    }
}

/// A failed outcome with the given code and message.
pub open spec fn failed(code: Code, message: Seq<char>) -> StatusView {
    StatusView { code, message }
}

/// The refusal of a text that is too long.
pub open spec fn too_long(what: Seq<char>, limit: usize) -> StatusView {
    failed(
        Code::InvalidArgument,
        what + " exceeds maximum length of "@ + text::decimal(limit as nat) + " bytes"@,
    )
}

/// The refusal of texts that are too long, the first in the order of the parameters.
pub open spec fn input_error(
    limits: Limits,
    name: Seq<char>,
    description: Seq<char>,
    default_branch_name: Seq<char>,
    creator: Seq<char>,
) -> Option<StatusView> {
    if text::utf8_len(name) > limits.max_name_len {
        Some(too_long("Repository name"@, limits.max_name_len))
    } else if text::utf8_len(description) > limits.max_description_len {
        Some(too_long("Repository description"@, limits.max_description_len))
    } else if text::utf8_len(default_branch_name) > limits.max_name_len {
        Some(too_long("Branch name"@, limits.max_name_len))
    } else if text::utf8_len(creator) > limits.max_name_len {
        Some(too_long("Creator"@, limits.max_name_len))
    } else {
        None
    }
}

/// The refusal of a request before anything is asked: texts that are too long, a name that may not
/// name a repository, or a name that is the identifier of another repository.
pub open spec fn request_error(limits: Limits, req: CreateRequestView) -> Option<StatusView> {
    let input = input_error(
        limits,
        req.name,
        req.description,
        req.default_branch_name,
        req.creator,
    );
    if input is Some {
        input
    } else if !req.name_is_valid || (req.name_id matches Some(id) && id.value != 0
        && id != req.id.context) {
        Some(failed(Code::InvalidArgument, "Invalid repository name"@))
    } else {
        None
    }
}

/// The call that makes the caller the owner of the requested repository.
pub open spec fn auth_call(req: CreateRequestView, auth_url: Seq<char>) -> AuthCallView {
    AuthCallView {
        auth_url,
        authorization: req.authorization,
        resource_id: req.id.resource(),
        resource_name: req.name,
    }
}

/// The metadata of the requested repository, made by `creator`.
pub open spec fn new_metadata(req: CreateRequestView, creator: Seq<char>) -> RepositoryMetadataView {
    RepositoryMetadataView {
        name: req.name,
        description: req.description,
        default_branch: req.default_branch_id,
        default_branch_name: req.default_branch_name,
        creator,
        created: req.created,
    }
}

/// The end of a creation.
pub open spec fn finish(result: Result<RepositoryDataView, StatusView>) -> (
    CreateStateView,
    CreateActionView,
) {
    (CreateStateView::Finished, CreateActionView::Finish { result })
}

/// The first question about a request.
pub open spec fn create_begin(limits: Limits, req: CreateRequestView) -> (
    CreateStateView,
    CreateActionView,
) {
    match request_error(limits, req) {
        Some(status) => finish(Err(status)),
        None => (CreateStateView::ById, CreateActionView::QueryId { id: req.id }),
    }
}

/// What follows once an existing repository is known to be the requested one.
pub open spec fn authorize_existing(req: CreateRequestView, data: RepositoryDataView) -> (
    CreateStateView,
    CreateActionView,
) {
    match req.auth_url {
        Some(url) => (
            CreateStateView::AuthorizeExisting { data },
            CreateActionView::CreateAuthResource { call: auth_call(req, url) },
        ),
        None => finish(Ok(data)),
    }
}

/// The answer to the question who owns an existing repository: the refusal, if there is one.
pub open spec fn owner_error(
    req: CreateRequestView,
    result: Result<RepositoryMetadataView, Seq<char>>,
) -> Option<StatusView> {
    match result {
        Err(detail) => Some(
            failed(
                Code::Internal,
                "Failed to load existing repository metadata: "@ + detail,
            ),
        ),
        Ok(metadata) => if metadata.creator != req.creator {
            Some(failed(Code::PermissionDenied, "Repository is owned by another subject"@))
        } else {
            None
        },
    }
}

/// What follows the lookup by identifier.
pub open spec fn after_id(req: CreateRequestView, data: Option<RepositoryDataView>) -> (
    CreateStateView,
    CreateActionView,
) {
    match data {
        None => (CreateStateView::ByName, CreateActionView::QueryName { name: req.name }),
        Some(data) => if data.name != req.name {
            finish(
                Err(
                    failed(
                        Code::AlreadyExists,
                        "Repository "@ + req.id.hex() + " already exist with name "@ + data.name
                            + " which does not match "@ + req.name,
                    ),
                ),
            )
        } else if req.auth_url is Some {
            (
                CreateStateView::OwnerById { data },
                CreateActionView::LoadMetadata { hash: data.metadata },
            )
        } else {
            (CreateStateView::MappingById { data }, CreateActionView::QueryName { name: req.name })
        },
    }
}

/// What follows the lookup by name, where the identifier is unknown.
pub open spec fn after_name(req: CreateRequestView, data: Option<RepositoryDataView>) -> (
    CreateStateView,
    CreateActionView,
) {
    match data {
        None => if req.creator.len() == 0 {
            (CreateStateView::Creator, CreateActionView::CurrentUser)
        } else {
            (
                CreateStateView::Metadata,
                CreateActionView::StoreMetadata { metadata: new_metadata(req, req.creator) },
            )
        },
        Some(data) => if data.id != req.id {
            finish(
                Err(
                    failed(
                        Code::AlreadyExists,
                        "Repository "@ + req.name + " already exist with id "@ + data.id.hex()
                            + " which does not match "@ + req.id.hex(),
                    ),
                ),
            )
        } else if req.auth_url is Some {
            (
                CreateStateView::OwnerByName { data },
                CreateActionView::LoadMetadata { hash: data.metadata },
            )
        } else {
            finish(Ok(data))
        },
    }
}

/// The created repository.
pub open spec fn created(req: CreateRequestView, hash: Seq<u8>) -> RepositoryDataView {
    RepositoryDataView { id: req.id, name: req.name, metadata: hash }
}

/// Whether `event` answers the question that `state` waits for.
pub open spec fn create_fits(state: CreateStateView, event: CreateEventView) -> bool {
    match state {
        CreateStateView::ById => event is Found,
        CreateStateView::OwnerById { .. } => event is Metadata,
        CreateStateView::MappingById { .. } => event is Found,
        CreateStateView::RepairById { .. } => event is NameStored,
        CreateStateView::ByName => event is Found,
        CreateStateView::OwnerByName { .. } => event is Metadata,
        CreateStateView::AuthorizeExisting { .. } => event is AuthResource,
        CreateStateView::Creator => event is User,
        CreateStateView::Metadata => event is MetadataStored,
        CreateStateView::Branch { .. } => event is BranchCreated,
        CreateStateView::MetadataHash { .. } => event is HashStored,
        CreateStateView::Name { .. } => event is NameStored,
        CreateStateView::AuthorizeNew { .. } => event is AuthResource,
        CreateStateView::Finished => false,
    }
}

/// What follows the answer `event` in `state`.
pub open spec fn create_step(
    req: CreateRequestView,
    state: CreateStateView,
    event: CreateEventView,
) -> (CreateStateView, CreateActionView) {
    match (state, event) {
        (CreateStateView::ById, CreateEventView::Found { data }) => after_id(req, data),
        (CreateStateView::OwnerById { data }, CreateEventView::Metadata { result }) => match owner_error(
            req,
            result,
        ) {
            Some(status) => finish(Err(status)),
            None => (
                CreateStateView::MappingById { data },
                CreateActionView::QueryName { name: req.name },
            ),
        },
        (CreateStateView::MappingById { data }, CreateEventView::Found { data: found }) =>
            if found is None {
                (
                    CreateStateView::RepairById { data },
                    CreateActionView::StoreNameToId { name: req.name, id: req.id },
                )
            } else {
                authorize_existing(req, data)
            },
        // A mapping that cannot be repaired does not stop the request.
        (CreateStateView::RepairById { data }, CreateEventView::NameStored { .. }) =>
            authorize_existing(req, data),
        (CreateStateView::ByName, CreateEventView::Found { data }) => after_name(req, data),
        (CreateStateView::OwnerByName { data }, CreateEventView::Metadata { result }) => match owner_error(
            req,
            result,
        ) {
            Some(status) => finish(Err(status)),
            None => authorize_existing(req, data),
        },
        (
            CreateStateView::AuthorizeExisting { data },
            CreateEventView::AuthResource { result },
        ) => match result {
            Ok(_) => finish(Ok(data)),
            Err(status) => finish(Err(status)),
        },
        (CreateStateView::Creator, CreateEventView::User { id }) => (
            CreateStateView::Metadata,
            CreateActionView::StoreMetadata { metadata: new_metadata(req, id) },
        ),
        (CreateStateView::Metadata, CreateEventView::MetadataStored { result }) => match result {
            Ok(hash) => (
                CreateStateView::Branch { hash },
                CreateActionView::CreateBranch {
                    id: req.default_branch_id,
                    name: req.default_branch_name,
                    creator: req.creator,
                    created: req.created,
                },
            ),
            Err(detail) => finish(
                Err(
                    failed(
                        Code::Internal,
                        "Failed to serialize repository metadata: "@ + detail,
                    ),
                ),
            ),
        },
        (CreateStateView::Branch { hash }, CreateEventView::BranchCreated { result }) => match result {
            Err(failure) if !failure.already_exists => finish(
                Err(
                    failed(
                        Code::Internal,
                        "Failed to create default branch: "@ + failure.detail,
                    ),
                ),
            ),
            _ => (
                CreateStateView::MetadataHash { hash },
                CreateActionView::StoreMetadataHash { hash },
            ),
        },
        (CreateStateView::MetadataHash { hash }, CreateEventView::HashStored { result }) => match result {
            Ok(_) => (
                CreateStateView::Name { hash },
                CreateActionView::StoreNameToId { name: req.name, id: req.id },
            ),
            Err(detail) => finish(
                Err(
                    failed(
                        Code::Internal,
                        "Failed to store metadata hash for "@ + req.name + "/"@ + req.id.hex()
                            + ": "@ + detail,
                    ),
                ),
            ),
        },
        (CreateStateView::Name { hash }, CreateEventView::NameStored { result }) => match result {
            Ok(_) => match req.auth_url {
                Some(url) => (
                    CreateStateView::AuthorizeNew { hash },
                    CreateActionView::CreateAuthResource { call: auth_call(req, url) },
                ),
                None => finish(Ok(created(req, hash))),
            },
            Err(detail) => finish(
                Err(
                    failed(
                        Code::Internal,
                        "Failed to store name to ID lookup for "@ + req.name + " -> "@
                            + req.id.hex() + ": "@ + detail,
                    ),
                ),
            ),
        },
        (CreateStateView::AuthorizeNew { hash }, CreateEventView::AuthResource { result }) => match result {
            Ok(_) => finish(Ok(created(req, hash))),
            Err(status) => finish(Err(status)),
        },
        _ => vstd::pervasive::arbitrary(),
    }
}

/// The subject to whom a creation is attributed.
///
/// Where an authorization service is configured, it is the verified user, whatever the request
/// says. Otherwise it is the creator that the request names, or the user where it names none.
pub open spec fn creator_of(
    auth_url: Option<Seq<char>>,
    requested: Seq<char>,
    user_id: Seq<char>,
) -> Seq<char> {
    if auth_url is Some || requested.len() == 0 {
        user_id
    } else {
        requested
    }
}

/// Chooses the subject to whom a creation is attributed.
pub fn select_creator(auth_url: &Option<String>, requested: &str, user_id: &str) -> (creator: String)
    ensures
        creator@ == creator_of(model::opt_view(*auth_url), requested@, user_id@),
{
    if auth_url.is_some() || requested.is_empty() {
        user_id.to_owned()
    } else {
        requested.to_owned()
    }
}

/// The fields of a creation message.
#[derive(Debug)]
pub struct CreateMessage {
    pub id: RepositoryId,
    pub name: String,
    pub description: String,
    pub default_branch_id: Context,
    pub default_branch_name: String,
    pub creator: String,
    pub created: u64,
}

/// Makes a request out of a message, the user who sent it, the configured authorization service and
/// the credentials that came with the message.
pub fn handler(
    message: CreateMessage,
    name_is_valid: bool,
    name_id: Option<Context>,
    user_id: &str,
    auth_url: Option<String>,
    authorization: Option<String>,
) -> (req: CreateRequest)
    ensures
        req@ == (CreateRequestView {
            id: message.id,
            name: message.name@,
            name_is_valid,
            name_id,
            description: message.description@,
            default_branch_id: message.default_branch_id,
            default_branch_name: message.default_branch_name@,
            creator: creator_of(model::opt_view(auth_url), message.creator@, user_id@),
            created: message.created,
            auth_url: model::opt_view(auth_url),
            authorization: model::opt_view(authorization),
        }),
        creation_laws::is_request_of(message, user_id@, auth_url, authorization, req),
        req.name_is_valid == name_is_valid && req.name_id == name_id,
{
    let creator = select_creator(&auth_url, message.creator.as_str(), user_id);
    CreateRequest {
        id: message.id,
        name: message.name,
        name_is_valid,
        name_id,
        description: message.description,
        default_branch_id: message.default_branch_id,
        default_branch_name: message.default_branch_name,
        creator,
        created: message.created,
        auth_url,
        authorization,
    }
}

/// Where an authorization service is configured, a message cannot choose the subject to whom the
/// creation is attributed: it is the verified user.
pub proof fn message_cannot_choose_creator(
    auth_url: Seq<char>,
    requested: Seq<char>,
    user_id: Seq<char>,
)
    ensures
        creator_of(Some(auth_url), requested, user_id) == user_id,
{
}

fn too_long_status(what: &str, limit: usize) -> (status: Status)
    ensures
        status@ == too_long(what@, limit),
{
    let mut message = what.to_owned();
    message.append(" exceeds maximum length of ");
    message.append(text::to_decimal(limit as u64).as_str());
    message.append(" bytes");
    Status { code: Code::InvalidArgument, message }
}

/// Refuses texts that are too long.
pub fn validate_create_input(
    limits: Limits,
    name: &str,
    description: &str,
    default_branch_name: &str,
    creator: &str,
) -> (result: Result<(), Status>)
    ensures
        model::unit_result_view(result) == (match input_error(
            limits,
            name@,
            description@,
            default_branch_name@,
            creator@,
        ) {
            Some(status) => Err(status),
            None => Ok(()),
        }),
{
    if text::byte_len(name) > limits.max_name_len {
        return Err(too_long_status("Repository name", limits.max_name_len));
    }
    if text::byte_len(description) > limits.max_description_len {
        return Err(too_long_status("Repository description", limits.max_description_len));
    }
    if text::byte_len(default_branch_name) > limits.max_name_len {
        return Err(too_long_status("Branch name", limits.max_name_len));
    }
    if text::byte_len(creator) > limits.max_name_len {
        return Err(too_long_status("Creator", limits.max_name_len));
    }
    Ok(())
}

fn finish_with(result: Result<RepositoryData, Status>) -> (next: (CreateState, CreateAction))
    ensures
        (next.0@, next.1@) == finish(model::result_view(result)),
{
    (CreateState::Finished, CreateAction::Finish { result })
}

impl CreateRequest {
    /// The refusal of the request before anything is asked.
    pub fn refusal(&self, limits: Limits) -> (error: Option<Status>)
        ensures
            model::opt_view(error) == request_error(limits, self@),
    {
        let input = validate_create_input(
            limits,
            self.name.as_str(),
            self.description.as_str(),
            self.default_branch_name.as_str(),
            self.creator.as_str(),
        );
        if let Err(status) = input {
            return Some(status);
        }
        let other_id = match self.name_id {
            Some(id) => !id.is_zero() && id != self.id.context,
            None => false,
        };
        if !self.name_is_valid || other_id {
            return Some(Status::new(Code::InvalidArgument, "Invalid repository name"));
        }
        None
    }

    /// The call that makes the caller the owner of the requested repository.
    pub fn auth_resource_call(&self, auth_url: &String) -> (call: AuthCall)
        ensures
            call@ == auth_call(self@, auth_url@),
    {
        AuthCall {
            auth_url: auth_url.clone(),
            authorization: model::clone_opt_string(&self.authorization),
            resource_id: self.id.resource_id(),
            resource_name: self.name.clone(),
        }
    }

    /// The metadata of the requested repository, made by `creator`.
    pub fn metadata_by(&self, creator: String) -> (metadata: RepositoryMetadata)
        ensures
            metadata@ == new_metadata(self@, creator@),
    {
        RepositoryMetadata {
            name: self.name.clone(),
            description: self.description.clone(),
            default_branch: self.default_branch_id,
            default_branch_name: self.default_branch_name.clone(),
            creator,
            created: self.created,
        }
    }

    /// Gives the first question, once the hooks that run before a creation have answered.
    pub fn handle(&self, limits: Limits, hooks: Result<(), Status>) -> (next: (
        CreateState,
        CreateAction,
    ))
        ensures
            (next.0@, next.1@) == (match hooks {
                Ok(_) => create_begin(limits, self@),
                Err(status) => finish(Err(status@)),
            }),
    {
        match hooks {
            Ok(_) => self.begin(limits),
            Err(status) => finish_with(Err(status)),
        }
    }

    /// Checks the request and gives the first question.
    pub fn begin(&self, limits: Limits) -> (next: (CreateState, CreateAction))
        ensures
            (next.0@, next.1@) == create_begin(limits, self@),
    {
        match self.refusal(limits) {
            Some(status) => finish_with(Err(status)),
            None => (CreateState::ById, CreateAction::QueryId { id: self.id }),
        }
    }

    fn existing(&self, data: RepositoryData) -> (next: (CreateState, CreateAction))
        ensures
            (next.0@, next.1@) == authorize_existing(self@, data@),
    {
        match &self.auth_url {
            Some(url) => {
                let call = self.auth_resource_call(url);
                (CreateState::AuthorizeExisting { data }, CreateAction::CreateAuthResource { call })
            },
            None => finish_with(Ok(data)),
        }
    }

    fn owner_refusal(&self, result: Result<RepositoryMetadata, String>) -> (error: Option<Status>)
        ensures
            model::opt_view(error) == owner_error(self@, model::result_view(result)),
    {
        match result {
            Err(detail) => Some(
                Status::with_detail(
                    Code::Internal,
                    "Failed to load existing repository metadata: ",
                    detail.as_str(),
                ),
            ),
            Ok(metadata) => if metadata.creator != self.creator {
                Some(
                    Status::new(
                        Code::PermissionDenied,
                        "Repository is owned by another subject",
                    ),
                )
            } else {
                None
            },
        }
    }

    fn on_id(&self, data: Option<RepositoryData>) -> (next: (CreateState, CreateAction))
        ensures
            (next.0@, next.1@) == after_id(self@, model::opt_view(data)),
    {
        match data {
            None => (CreateState::ByName, CreateAction::QueryName { name: self.name.clone() }),
            Some(data) => if data.name != self.name {
                let mut message = "Repository ".to_owned();
                message.append(self.id.to_hex().as_str());
                message.append(" already exist with name ");
                message.append(data.name.as_str());
                message.append(" which does not match ");
                message.append(self.name.as_str());
                finish_with(Err(Status { code: Code::AlreadyExists, message }))
            } else if self.auth_url.is_some() {
                let hash = data.metadata.clone();
                (CreateState::OwnerById { data }, CreateAction::LoadMetadata { hash })
            } else {
                (
                    CreateState::MappingById { data },
                    CreateAction::QueryName { name: self.name.clone() },
                )
            },
        }
    }

    fn on_name(&self, data: Option<RepositoryData>) -> (next: (CreateState, CreateAction))
        ensures
            (next.0@, next.1@) == after_name(self@, model::opt_view(data)),
    {
        match data {
            None => if self.creator.as_str().is_empty() {
                (CreateState::Creator, CreateAction::CurrentUser)
            } else {
                let metadata = self.metadata_by(self.creator.clone());
                (CreateState::Metadata, CreateAction::StoreMetadata { metadata })
            },
            Some(data) => if data.id != self.id {
                let mut message = "Repository ".to_owned();
                message.append(self.name.as_str());
                message.append(" already exist with id ");
                message.append(data.id.to_hex().as_str());
                message.append(" which does not match ");
                message.append(self.id.to_hex().as_str());
                finish_with(Err(Status { code: Code::AlreadyExists, message }))
            } else if self.auth_url.is_some() {
                let hash = data.metadata.clone();
                (CreateState::OwnerByName { data }, CreateAction::LoadMetadata { hash })
            } else {
                finish_with(Ok(data))
            },
        }
    }

    fn on_branch(&self, hash: Address, result: Result<(), BranchFailure>) -> (next: (
        CreateState,
        CreateAction,
    ))
        ensures
            (next.0@, next.1@) == create_step(
                self@,
                CreateStateView::Branch { hash: hash@ },
                CreateEventView::BranchCreated { result: model::unit_result_view(result) },
            ),
    {
        if let Err(failure) = result {
            if !failure.already_exists {
                return finish_with(
                    Err(
                        Status::with_detail(
                            Code::Internal,
                            "Failed to create default branch: ",
                            failure.detail.as_str(),
                        ),
                    ),
                );
            }
        }
        let stored = hash.clone();
        (CreateState::MetadataHash { hash }, CreateAction::StoreMetadataHash { hash: stored })
    }

    fn on_hash(&self, hash: Address, result: Result<(), String>) -> (next: (CreateState, CreateAction))
        ensures
            (next.0@, next.1@) == create_step(
                self@,
                CreateStateView::MetadataHash { hash: hash@ },
                CreateEventView::HashStored { result: model::unit_result_view(result) },
            ),
    {
        match result {
            Ok(_) => (
                CreateState::Name { hash },
                CreateAction::StoreNameToId { name: self.name.clone(), id: self.id },
            ),
            Err(detail) => {
                let mut message = "Failed to store metadata hash for ".to_owned();
                message.append(self.name.as_str());
                message.append("/");
                message.append(self.id.to_hex().as_str());
                message.append(": ");
                message.append(detail.as_str());
                finish_with(Err(Status { code: Code::Internal, message }))
            },
        }
    }

    fn on_name_stored(&self, hash: Address, result: Result<(), String>) -> (next: (
        CreateState,
        CreateAction,
    ))
        ensures
            (next.0@, next.1@) == create_step(
                self@,
                CreateStateView::Name { hash: hash@ },
                CreateEventView::NameStored { result: model::unit_result_view(result) },
            ),
    {
        match result {
            Ok(_) => match &self.auth_url {
                Some(url) => {
                    let call = self.auth_resource_call(url);
                    (CreateState::AuthorizeNew { hash }, CreateAction::CreateAuthResource { call })
                },
                None => finish_with(Ok(self.stored(hash))),
            },
            Err(detail) => {
                let mut message = "Failed to store name to ID lookup for ".to_owned();
                message.append(self.name.as_str());
                message.append(" -> ");
                message.append(self.id.to_hex().as_str());
                message.append(": ");
                message.append(detail.as_str());
                finish_with(Err(Status { code: Code::Internal, message }))
            },
        }
    }

    fn stored(&self, hash: Address) -> (data: RepositoryData)
        ensures
            data@ == created(self@, hash@),
    {
        RepositoryData { id: self.id, name: self.name.clone(), metadata: hash }
    }

    /// Takes the answer to the last question and gives the next one.
    pub fn step(&self, state: CreateState, event: CreateEvent) -> (next: (
        CreateState,
        CreateAction,
    ))
        requires
            create_fits(state@, event@),
        ensures
            (next.0@, next.1@) == create_step(self@, state@, event@),
    {
        match (state, event) {
            (CreateState::ById, CreateEvent::Found { data }) => self.on_id(data),
            (CreateState::OwnerById { data }, CreateEvent::Metadata { result }) => {
                match self.owner_refusal(result) {
                    Some(status) => finish_with(Err(status)),
                    None => (
                        CreateState::MappingById { data },
                        CreateAction::QueryName { name: self.name.clone() },
                    ),
                }
            },
            (CreateState::MappingById { data }, CreateEvent::Found { data: found }) => {
                if found.is_none() {
                    (
                        CreateState::RepairById { data },
                        CreateAction::StoreNameToId { name: self.name.clone(), id: self.id },
                    )
                } else {
                    self.existing(data)
                }
            },
            (CreateState::RepairById { data }, CreateEvent::NameStored { .. }) => self.existing(
                data,
            ),
            (CreateState::ByName, CreateEvent::Found { data }) => self.on_name(data),
            (CreateState::OwnerByName { data }, CreateEvent::Metadata { result }) => {
                match self.owner_refusal(result) {
                    Some(status) => finish_with(Err(status)),
                    None => self.existing(data),
                }
            },
            (CreateState::AuthorizeExisting { data }, CreateEvent::AuthResource { result }) => {
                match result {
                    Ok(_) => finish_with(Ok(data)),
                    Err(status) => finish_with(Err(status)),
                }
            },
            (CreateState::Creator, CreateEvent::User { id }) => {
                let metadata = self.metadata_by(id);
                (CreateState::Metadata, CreateAction::StoreMetadata { metadata })
            },
            (CreateState::Metadata, CreateEvent::MetadataStored { result }) => {
                match result {
                    Ok(hash) => (
                        CreateState::Branch { hash },
                        CreateAction::CreateBranch {
                            id: self.default_branch_id,
                            name: self.default_branch_name.clone(),
                            creator: self.creator.clone(),
                            created: self.created,
                        },
                    ),
                    Err(detail) => finish_with(
                        Err(
                            Status::with_detail(
                                Code::Internal,
                                "Failed to serialize repository metadata: ",
                                detail.as_str(),
                            ),
                        ),
                    ),
                }
            },
            (CreateState::Branch { hash }, CreateEvent::BranchCreated { result }) => self.on_branch(
                hash,
                result,
            ),
            (CreateState::MetadataHash { hash }, CreateEvent::HashStored { result }) => self.on_hash(
                hash,
                result,
            ),
            (CreateState::Name { hash }, CreateEvent::NameStored { result }) => self.on_name_stored(
                hash,
                result,
            ),
            (CreateState::AuthorizeNew { hash }, CreateEvent::AuthResource { result }) => {
                match result {
                    Ok(_) => finish_with(Ok(self.stored(hash))),
                    Err(status) => finish_with(Err(status)),
                }
            },
            (_, _) => vstd::pervasive::unreached(),
        }
    }
}

/// The answers that the surroundings give, one for each kind of question.
///
/// No creation asks the same kind of question twice, so these are all the answers it can get.
pub struct CreateAnswers {
    pub by_id: Option<RepositoryDataView>,
    pub by_name: Option<RepositoryDataView>,
    pub metadata: Result<RepositoryMetadataView, Seq<char>>,
    pub name_stored: Result<(), Seq<char>>,
    pub user: Seq<char>,
    pub metadata_stored: Result<Seq<u8>, Seq<char>>,
    pub branch: Result<(), BranchFailureView>,
    pub hash_stored: Result<(), Seq<char>>,
    pub auth: Result<(), StatusView>,
}

/// The answer to `action`.
pub open spec fn create_answer(answers: CreateAnswers, action: CreateActionView) -> CreateEventView {
    match action {
        CreateActionView::QueryId { .. } => CreateEventView::Found { data: answers.by_id },
        CreateActionView::QueryName { .. } => CreateEventView::Found { data: answers.by_name },
        CreateActionView::LoadMetadata { .. } => CreateEventView::Metadata {
            result: answers.metadata,
        },
        CreateActionView::StoreNameToId { .. } => CreateEventView::NameStored {
            result: answers.name_stored,
        },
        CreateActionView::CurrentUser => CreateEventView::User { id: answers.user },
        CreateActionView::StoreMetadata { .. } => CreateEventView::MetadataStored {
            result: answers.metadata_stored,
        },
        CreateActionView::CreateBranch { .. } => CreateEventView::BranchCreated {
            result: answers.branch,
        },
        CreateActionView::StoreMetadataHash { .. } => CreateEventView::HashStored {
            result: answers.hash_stored,
        },
        _ => CreateEventView::AuthResource { result: answers.auth },
    }
}

/// The actions from `action` on, at most `n` of them after it.
pub open spec fn create_run(
    req: CreateRequestView,
    answers: CreateAnswers,
    state: CreateStateView,
    action: CreateActionView,
    n: nat,
) -> Seq<CreateActionView>
    decreases n,
{
    if action is Finish || n == 0 {
        seq![action]
    } else {
        let next = create_step(req, state, create_answer(answers, action));
        seq![action] + create_run(req, answers, next.0, next.1, (n - 1) as nat)
    }
}

/// Everything that a creation asks, up to its outcome.
pub open spec fn create_trace(
    limits: Limits,
    req: CreateRequestView,
    answers: CreateAnswers,
) -> Seq<CreateActionView> {
    let first = create_begin(limits, req);
    create_run(req, answers, first.0, first.1, 8)
}

/// Whether `action` changes what is stored, here or at the authorization service.
pub open spec fn is_write(action: CreateActionView) -> bool {
    match action {
        CreateActionView::StoreNameToId { .. } => true,
        CreateActionView::StoreMetadata { .. } => true,
        CreateActionView::CreateBranch { .. } => true,
        CreateActionView::StoreMetadataHash { .. } => true,
        CreateActionView::CreateAuthResource { .. } => true,
        _ => false,
    }
}

/// Whether `state` waits for the answer to `action`, or both are the end.
pub open spec fn create_asks(state: CreateStateView, action: CreateActionView) -> bool {
    if action is Finish {
        state is Finished
    } else {
        forall|answers: CreateAnswers| create_fits(state, #[trigger] create_answer(answers, action))
    }
}

/// Every question is asked in a state that waits for its answer, so that the answer to the last
/// question can always be taken.
pub proof fn create_never_stalls(
    limits: Limits,
    req: CreateRequestView,
    state: CreateStateView,
    event: CreateEventView,
)
    ensures
        create_asks(create_begin(limits, req).0, create_begin(limits, req).1),
        create_fits(state, event) ==> create_asks(
            create_step(req, state, event).0,
            create_step(req, state, event).1,
        ),
{
}

/// Every creation comes to an outcome: the last action of its trace, and no other, is `Finish`.
pub proof fn create_ends(limits: Limits, req: CreateRequestView, answers: CreateAnswers)
    ensures
        create_trace(limits, req, answers).last() is Finish,
        forall|i: int|
            0 <= i < create_trace(limits, req, answers).len() - 1 ==> !(#[trigger] create_trace(
                limits,
                req,
                answers,
            )[i] is Finish),
{
    reveal_with_fuel(create_run, 9);
}

/// A refused request asks nothing and changes nothing.
pub proof fn refused_create_asks_nothing(
    limits: Limits,
    req: CreateRequestView,
    answers: CreateAnswers,
)
    requires
        request_error(limits, req) is Some,
    ensures
        create_trace(limits, req, answers) == seq![
            CreateActionView::Finish { result: Err(request_error(limits, req)->0) },
        ],
{
    reveal_with_fuel(create_run, 9);
}

/// Where an authorization service is configured, success is reported only after the service has
/// made the caller the owner, and that is the last thing asked.
pub proof fn create_succeeds_only_with_owner(
    limits: Limits,
    req: CreateRequestView,
    answers: CreateAnswers,
)
    requires
        req.auth_url is Some,
        create_trace(limits, req, answers).last() matches CreateActionView::Finish { result }
            && result is Ok,
    ensures
        answers.auth is Ok,
        create_trace(limits, req, answers).len() >= 2,
        create_trace(limits, req, answers)[create_trace(limits, req, answers).len() - 2]
            == (CreateActionView::CreateAuthResource { call: auth_call(req, req.auth_url->0) }),
{
    let first = create_begin(limits, req);
    lemma_owner_precedes_success(req, answers, first.0, first.1, 8);
}

proof fn lemma_owner_precedes_success(
    req: CreateRequestView,
    answers: CreateAnswers,
    state: CreateStateView,
    action: CreateActionView,
    n: nat,
)
    requires
        req.auth_url is Some,
        (state is AuthorizeExisting || state is AuthorizeNew) ==> action == (
        CreateActionView::CreateAuthResource { call: auth_call(req, req.auth_url->0) }),
        create_asks(state, action),
        create_run(req, answers, state, action, n).last() matches CreateActionView::Finish { result }
            && result is Ok,
        action matches CreateActionView::Finish { result } ==> result is Err,
    ensures
        ({
            let run = create_run(req, answers, state, action, n);
            &&& answers.auth is Ok
            &&& run.len() >= 2
            &&& run[run.len() - 2] == (CreateActionView::CreateAuthResource {
                call: auth_call(req, req.auth_url->0),
            })
        }),
    decreases n,
{
    let event = create_answer(answers, action);
    let next = create_step(req, state, event);
    assert(create_fits(state, event));
    let rest = create_run(req, answers, next.0, next.1, (n - 1) as nat);
    let run = create_run(req, answers, state, action, n);
    assert(run == seq![action] + rest);
    assert(rest.len() >= 1);
    assert(run.last() == rest.last());
    if next.1 is Finish {
        assert(rest == seq![next.1]);
    } else {
        lemma_owner_precedes_success(req, answers, next.0, next.1, (n - 1) as nat);
        assert(run[run.len() - 2] == rest[rest.len() - 2]);
    }
}

/// The owner of a new repository is recorded only after the repository is stored: its metadata,
/// its branch, its metadata address and its name.
pub proof fn owner_follows_storage(limits: Limits, req: CreateRequestView, answers: CreateAnswers, i: int)
    requires
        answers.by_id is None,
        answers.by_name is None,
        0 <= i < create_trace(limits, req, answers).len(),
        create_trace(limits, req, answers)[i] is CreateAuthResource,
    ensures
        answers.metadata_stored is Ok,
        answers.branch is Ok || answers.branch->Err_0.already_exists,
        answers.hash_stored is Ok,
        answers.name_stored is Ok,
        i >= 4,
        create_trace(limits, req, answers)[i - 4] is StoreMetadata,
        create_trace(limits, req, answers)[i - 3] is CreateBranch,
        create_trace(limits, req, answers)[i - 2] == (CreateActionView::StoreMetadataHash {
            hash: answers.metadata_stored->Ok_0,
        }),
        create_trace(limits, req, answers)[i - 1] == (CreateActionView::StoreNameToId {
            name: req.name,
            id: req.id,
        }),
{
    reveal_with_fuel(create_run, 9);
}

/// A repository that belongs to another subject is refused, and nothing is changed.
pub proof fn foreign_repository_is_refused(
    limits: Limits,
    req: CreateRequestView,
    answers: CreateAnswers,
)
    requires
        request_error(limits, req) is None,
        req.auth_url is Some,
        (answers.by_id matches Some(data) && data.name == req.name) || (answers.by_id is None
            && (answers.by_name matches Some(data) && data.id == req.id)),
        answers.metadata matches Ok(metadata) && metadata.creator != req.creator,
    ensures
        create_trace(limits, req, answers).last() == (CreateActionView::Finish {
            result: Err(
                failed(Code::PermissionDenied, "Repository is owned by another subject"@),
            ),
        }),
        forall|i: int|
            0 <= i < create_trace(limits, req, answers).len() ==> !is_write(
                #[trigger] create_trace(limits, req, answers)[i],
            ),
{
    reveal_with_fuel(create_run, 9);
}

/// Repeating a creation is harmless: where the repository is found as it was created and by its
/// own creator, it is given back as it is, provided that the authorization service, where there is
/// one, does not refuse.
pub proof fn repeated_create_gives_the_same(
    limits: Limits,
    req: CreateRequestView,
    answers: CreateAnswers,
    hash: Seq<u8>,
)
    requires
        request_error(limits, req) is None,
        answers.by_id == Some(created(req, hash)) || (answers.by_id is None && answers.by_name
            == Some(created(req, hash))),
        req.auth_url is Some ==> (answers.metadata matches Ok(metadata) && metadata.creator
            == req.creator) && answers.auth is Ok,
    ensures
        create_trace(limits, req, answers).last() == (CreateActionView::Finish {
            result: Ok(created(req, hash)),
        }),
{
    reveal_with_fuel(create_run, 9);
}

/// The stored form of a repository that exists is never written again; only a missing entry from
/// its name to its identifier is restored.
pub proof fn existing_repository_is_kept(
    limits: Limits,
    req: CreateRequestView,
    answers: CreateAnswers,
    i: int,
)
    requires
        answers.by_id is Some || answers.by_name is Some,
        0 <= i < create_trace(limits, req, answers).len(),
    ensures
        !(create_trace(limits, req, answers)[i] is StoreMetadata),
        !(create_trace(limits, req, answers)[i] is CreateBranch),
        !(create_trace(limits, req, answers)[i] is StoreMetadataHash),
        create_trace(limits, req, answers)[i] is StoreNameToId ==> answers.by_id is Some
            && answers.by_name is None,
{
    reveal_with_fuel(create_run, 9);
}

} // verus!
