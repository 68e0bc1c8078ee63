//! Deletion of a repository.
//!
//! The surroundings are asked one question at a time: [`DeleteRequest::begin`] gives the first
//! question and [`DeleteRequest::step`] takes each answer and gives the next question, up to the
//! outcome.
use vstd::prelude::*;
use vstd::string::*;

use crate::ids::{Context, RepositoryId};
use crate::model;
use crate::server::deletion_laws;
use crate::server::jwt::AuthorizationToken;
use crate::server::repository_create::{
    Address, RepositoryData, RepositoryDataView, RepositoryMetadata, RepositoryMetadataView,
};
use crate::status::{Code, Status, StatusView};

verus! {

/// A request to delete a repository. With `force`, one who is not its creator may delete it.
#[derive(Debug)]
pub struct DeleteRequest {
    pub id: RepositoryId,
    pub force: bool,
    pub auth_url: Option<String>,
    pub authorization: Option<String>,
}

/// The model of [`DeleteRequest`].
pub struct DeleteRequestView {
    pub id: RepositoryId,
    pub force: bool,
    pub auth_url: Option<Seq<char>>,
    pub authorization: Option<Seq<char>>,
}

impl View for DeleteRequest {
    type V = DeleteRequestView;

    open spec fn view(&self) -> DeleteRequestView {
        DeleteRequestView {
            id: self.id,
            force: self.force,
            auth_url: model::opt_view(self.auth_url),
            authorization: model::opt_view(self.authorization),
        }
    }
}

/// Makes a request out of the repository to delete, what is known of the caller, the configured
/// authorization service and the credentials that came with the message. Service accounts may
/// delete what they have not created.
pub fn handler(
    id: RepositoryId,
    caller: Option<&AuthorizationToken>,
    auth_url: Option<String>,
    authorization: Option<String>,
) -> (req: DeleteRequest)
    ensures
        req@ == (DeleteRequestView {
            id,
            force: caller is Some && caller->0.is_service_account == Some(true),
            auth_url: model::opt_view(auth_url),
            authorization: model::opt_view(authorization),
        }),
        deletion_laws::is_request_of(id, caller, auth_url, authorization, req),
{
    let force = match caller {
        Some(token) => match token.is_service_account {
            Some(service) => service,
            None => false,
        },
        None => false,
    };
    DeleteRequest { id, force, auth_url, authorization }
}

/// A call to the authorization service about a resource.
#[derive(Debug)]
pub struct ResourceCall {
    pub auth_url: String,
    pub authorization: Option<String>,
    pub resource_id: String,
}

/// The model of [`ResourceCall`].
pub struct ResourceCallView {
    pub auth_url: Seq<char>,
    pub authorization: Option<Seq<char>>,
    pub resource_id: Seq<char>,
}

impl View for ResourceCall {
    type V = ResourceCallView;

    open spec fn view(&self) -> ResourceCallView {
        ResourceCallView {
            auth_url: self.auth_url@,
            authorization: model::opt_view(self.authorization),
            resource_id: self.resource_id@,
        }
    }
}

/// What is asked of the surroundings.
#[derive(Debug)]
#[allow(inconsistent_fields)]
pub enum DeleteAction {
    /// Look a repository up by its identifier, without checking permissions.
    QueryId { id: RepositoryId },
    /// Load metadata from its address.
    LoadMetadata { hash: Address },
    /// Give the user on whose behalf this runs.
    CurrentUser,
    /// Ask the authorization service to allow the deletion.
    DeleteAuthResource { call: ResourceCall },
    /// Record that a name belongs to an identifier.
    StoreNameToId { name: String, id: RepositoryId },
    /// Make the metadata address of the repository the empty one.
    ClearMetadataHash,
    /// List the branches of the repository.
    ListBranches,
    /// Give the name of a branch.
    BranchName { branch: Context },
    /// Forget the identifier of a branch name.
    DeleteBranchName { name: String },
    /// Forget the latest revision of a branch.
    DeleteBranchLatest { branch: Context },
    /// Forget the metadata of a branch.
    DeleteBranchMetadata { branch: Context },
    /// Tell the authorization service that the resource is gone.
    ConfirmDeleted { call: ResourceCall },
    /// Nothing more: this is the outcome.
    Finish { result: Result<(), Status> },
}

/// The model of [`DeleteAction`].
#[allow(inconsistent_fields)]
pub enum DeleteActionView {
    QueryId { id: RepositoryId },
    LoadMetadata { hash: Seq<u8> },
    CurrentUser,
    DeleteAuthResource { call: ResourceCallView },
    StoreNameToId { name: Seq<char>, id: RepositoryId },
    ClearMetadataHash,
    ListBranches,
    BranchName { branch: Context },
    DeleteBranchName { name: Seq<char> },
    DeleteBranchLatest { branch: Context },
    DeleteBranchMetadata { branch: Context },
    ConfirmDeleted { call: ResourceCallView },
    Finish { result: Result<(), StatusView> },
}

impl View for DeleteAction {
    type V = DeleteActionView;

    open spec fn view(&self) -> DeleteActionView {
        match *self {
            DeleteAction::QueryId { id } => DeleteActionView::QueryId { id },
            DeleteAction::LoadMetadata { hash } => DeleteActionView::LoadMetadata { hash: hash@ },
            DeleteAction::CurrentUser => DeleteActionView::CurrentUser,
            DeleteAction::DeleteAuthResource { call } => DeleteActionView::DeleteAuthResource {
                call: call@,
            },
            DeleteAction::StoreNameToId { name, id } => DeleteActionView::StoreNameToId {
                name: name@,
                id,
            },
            DeleteAction::ClearMetadataHash => DeleteActionView::ClearMetadataHash,
            DeleteAction::ListBranches => DeleteActionView::ListBranches,
            DeleteAction::BranchName { branch } => DeleteActionView::BranchName { branch },
            DeleteAction::DeleteBranchName { name } => DeleteActionView::DeleteBranchName {
                name: name@,
            },
            DeleteAction::DeleteBranchLatest { branch } => DeleteActionView::DeleteBranchLatest {
                branch,
            },
            DeleteAction::DeleteBranchMetadata { branch } =>
                DeleteActionView::DeleteBranchMetadata { branch },
            DeleteAction::ConfirmDeleted { call } => DeleteActionView::ConfirmDeleted {
                call: call@,
            },
            DeleteAction::Finish { result } => DeleteActionView::Finish {
                result: model::unit_result_view(result),
            },
        }
    }
}

/// The answer to a [`DeleteAction`].
///
/// That something about a branch could not be removed makes no difference, so `Removed` does not
/// say it.
#[derive(Debug)]
#[allow(inconsistent_fields)]
pub enum DeleteEvent {
    /// The answer to `QueryId`: the repository, if there is one.
    ById { data: Option<RepositoryData> },
    /// The answer to `LoadMetadata`: the metadata, if it could be loaded.
    Metadata { metadata: Option<RepositoryMetadata> },
    User { id: String },
    AuthDeleted { result: Result<(), Status> },
    NameStored { result: Result<(), String> },
    HashCleared { result: Result<(), String> },
    /// The answer to `ListBranches`: the branches, if they could be listed.
    Branches { branches: Option<Vec<Context>> },
    /// The answer to `BranchName`: the name, if there is one.
    BranchNamed { name: Option<String> },
    Removed,
    Confirmed { result: Result<(), Status> },
}

/// The model of [`DeleteEvent`].
#[allow(inconsistent_fields)]
pub enum DeleteEventView {
    ById { data: Option<RepositoryDataView> },
    Metadata { metadata: Option<RepositoryMetadataView> },
    User { id: Seq<char> },
    AuthDeleted { result: Result<(), StatusView> },
    NameStored { result: Result<(), Seq<char>> },
    HashCleared { result: Result<(), Seq<char>> },
    Branches { branches: Option<Seq<Context>> },
    BranchNamed { name: Option<Seq<char>> },
    Removed,
    Confirmed { result: Result<(), StatusView> },
}

impl View for DeleteEvent {
    type V = DeleteEventView;

    open spec fn view(&self) -> DeleteEventView {
        match *self {
            DeleteEvent::ById { data } => DeleteEventView::ById { data: model::opt_view(data) },
            DeleteEvent::Metadata { metadata } => DeleteEventView::Metadata {
                metadata: model::opt_view(metadata),
            },
            DeleteEvent::User { id } => DeleteEventView::User { id: id@ },
            DeleteEvent::AuthDeleted { result } => DeleteEventView::AuthDeleted {
                result: model::unit_result_view(result),
            },
            DeleteEvent::NameStored { result } => DeleteEventView::NameStored {
                result: model::unit_result_view(result),
            },
            DeleteEvent::HashCleared { result } => DeleteEventView::HashCleared {
                result: model::unit_result_view(result),
            },
            DeleteEvent::Branches { branches } => DeleteEventView::Branches {
                branches: model::opt_view(branches),
            },
            DeleteEvent::BranchNamed { name } => DeleteEventView::BranchNamed {
                name: model::opt_view(name),
            },
            DeleteEvent::Removed => DeleteEventView::Removed,
            DeleteEvent::Confirmed { result } => DeleteEventView::Confirmed {
                result: model::unit_result_view(result),
            },
        }
    }
}

/// The branches that are still to be removed: one, and those that follow it, last one first.
#[derive(Debug)]
pub struct PendingBranches {
    pub current: Context,
    pub later: Vec<Context>,
}

impl View for PendingBranches {
    type V = Seq<Context>;

    open spec fn view(&self) -> Seq<Context> {
        seq![self.current] + self.later@.reverse()
    }
}

/// How far a deletion has come.
#[derive(Debug)]
#[allow(inconsistent_fields)]
pub enum DeleteState {
    /// Waiting for the lookup by identifier.
    ById,
    /// Waiting for the metadata.
    Metadata,
    /// Waiting for the current user.
    User { name: String, creator: String },
    /// Waiting for the authorization service to allow the deletion.
    Authorize { name: String },
    /// Waiting for the name to be forgotten.
    Name,
    /// Waiting for the metadata address to be cleared.
    MetadataHash,
    /// Waiting for the list of branches.
    Branches,
    /// Waiting for the name of a branch.
    BranchName { pending: PendingBranches },
    /// Waiting for the name of a branch to be forgotten.
    BranchUnmap { pending: PendingBranches },
    /// Waiting for the latest revision of a branch to be forgotten.
    BranchLatest { pending: PendingBranches },
    /// Waiting for the metadata of a branch to be forgotten.
    BranchMetadata { pending: PendingBranches },
    /// The repository is removed; waiting for the authorization service.
    Confirm,
    /// The outcome is known.
    Finished,
}

/// The model of [`DeleteState`].
pub enum DeleteStateView {
    ById,
    Metadata,
    User { name: Seq<char>, creator: Seq<char> },
    Authorize { name: Seq<char> },
    Name,
    MetadataHash,
    Branches,
    BranchName { pending: Seq<Context> },
    BranchUnmap { pending: Seq<Context> },
    BranchLatest { pending: Seq<Context> },
    BranchMetadata { pending: Seq<Context> },
    Confirm,
    Finished,
}

impl View for DeleteState {
    type V = DeleteStateView;

    open spec fn view(&self) -> DeleteStateView {
        match *self {
            DeleteState::ById => DeleteStateView::ById,
            DeleteState::Metadata => DeleteStateView::Metadata,
            DeleteState::User { name, creator } => DeleteStateView::User {
                name: name@,
                creator: creator@,
            },
            DeleteState::Authorize { name } => DeleteStateView::Authorize { name: name@ },
            DeleteState::Name => DeleteStateView::Name,
            DeleteState::MetadataHash => DeleteStateView::MetadataHash,
            DeleteState::Branches => DeleteStateView::Branches,
            DeleteState::BranchName { pending } => DeleteStateView::BranchName {
                pending: pending@,
            },
            DeleteState::BranchUnmap { pending } => DeleteStateView::BranchUnmap {
                pending: pending@,
            },
            DeleteState::BranchLatest { pending } => DeleteStateView::BranchLatest {
                pending: pending@,
            },
            DeleteState::BranchMetadata { pending } => DeleteStateView::BranchMetadata {
                pending: pending@,
            },
            DeleteState::Confirm => DeleteStateView::Confirm,
            DeleteState::Finished => DeleteStateView::Finished,
        }
    }
}

/// The end of a deletion.
pub open spec fn finish(result: Result<(), StatusView>) -> (DeleteStateView, DeleteActionView) {
    (DeleteStateView::Finished, DeleteActionView::Finish { result })
}

/// The end of a deletion that failed.
pub open spec fn failed(code: Code, message: Seq<char>) -> (DeleteStateView, DeleteActionView) {
    finish(Err(StatusView { code, message }))
}

/// The call about the repository of `req` at the service `url`.
pub open spec fn resource_call(req: DeleteRequestView, url: Seq<char>) -> ResourceCallView {
    ResourceCallView {
        auth_url: url,
        authorization: req.authorization,
        resource_id: req.id.resource(),
    }
}

/// The first question about a request.
pub open spec fn delete_begin(req: DeleteRequestView) -> (DeleteStateView, DeleteActionView) {
    (DeleteStateView::ById, DeleteActionView::QueryId { id: req.id })
}

/// What follows once nothing is left of the repository: `missing` where no authorization service
/// has to be told.
pub open spec fn confirm(req: DeleteRequestView, missing: Result<(), StatusView>) -> (
    DeleteStateView,
    DeleteActionView,
) {
    match req.auth_url {
        Some(url) => (
            DeleteStateView::Confirm,
            DeleteActionView::ConfirmDeleted { call: resource_call(req, url) },
        ),
        None => finish(missing),
    }
}

/// What follows once the deletion is allowed.
pub open spec fn remove(name: Seq<char>) -> (DeleteStateView, DeleteActionView) {
    (
        DeleteStateView::Name,
        DeleteActionView::StoreNameToId {
            name,
            id: RepositoryId { context: Context { value: 0 } },
        },
    )
}

/// Whether `user` may delete a repository of `creator` where no authorization service decides.
pub open spec fn owner_may_delete(
    req: DeleteRequestView,
    creator: Seq<char>,
    user: Seq<char>,
) -> bool {
    creator == user || req.force
}

/// What follows once `user` is known.
pub open spec fn after_user(
    req: DeleteRequestView,
    name: Seq<char>,
    creator: Seq<char>,
    user: Seq<char>,
) -> (DeleteStateView, DeleteActionView) {
    match req.auth_url {
        Some(url) => (
            DeleteStateView::Authorize { name },
            DeleteActionView::DeleteAuthResource { call: resource_call(req, url) },
        ),
        None => if owner_may_delete(req, creator, user) {
            remove(name)
        } else {
            failed(Code::PermissionDenied, "Not repository owner"@)
        },
    }
}

/// What follows where the branches `pending` are still to be removed.
pub open spec fn next_branch(req: DeleteRequestView, pending: Seq<Context>) -> (
    DeleteStateView,
    DeleteActionView,
) {
    if pending.len() == 0 {
        confirm(req, Ok(()))
    } else {
        (
            DeleteStateView::BranchName { pending },
            DeleteActionView::BranchName { branch: pending[0] },
        )
    }
}

/// What follows once the name of the first of `pending` is forgotten.
pub open spec fn drop_latest(pending: Seq<Context>) -> (DeleteStateView, DeleteActionView) {
    (
        DeleteStateView::BranchLatest { pending },
        DeleteActionView::DeleteBranchLatest { branch: pending[0] },
    )
}

/// Whether `event` answers the question that `state` waits for.
pub open spec fn delete_fits(state: DeleteStateView, event: DeleteEventView) -> bool {
    match state {
        DeleteStateView::ById => event is ById,
        DeleteStateView::Metadata => event is Metadata,
        DeleteStateView::User { .. } => event is User,
        DeleteStateView::Authorize { .. } => event is AuthDeleted,
        DeleteStateView::Name => event is NameStored,
        DeleteStateView::MetadataHash => event is HashCleared,
        DeleteStateView::Branches => event is Branches,
        DeleteStateView::BranchName { .. } => event is BranchNamed,
        DeleteStateView::BranchUnmap { .. } => event is Removed,
        DeleteStateView::BranchLatest { .. } => event is Removed,
        DeleteStateView::BranchMetadata { .. } => event is Removed,
        DeleteStateView::Confirm => event is Confirmed,
        DeleteStateView::Finished => false,
    }
}

/// What follows the answer `event` in `state`.
pub open spec fn delete_step(
    req: DeleteRequestView,
    state: DeleteStateView,
    event: DeleteEventView,
) -> (DeleteStateView, DeleteActionView) {
    match (state, event) {
        // An earlier deletion may have removed the repository without the authorization service
        // hearing of it; to repeat the request tells it.
        (DeleteStateView::ById, DeleteEventView::ById { data }) => match data {
            None => confirm(
                req,
                Err(StatusView { code: Code::NotFound, message: "Repository does not exist"@ }),
            ),
            Some(data) => (
                DeleteStateView::Metadata,
                DeleteActionView::LoadMetadata { hash: data.metadata },
            ),
        },
        (DeleteStateView::Metadata, DeleteEventView::Metadata { metadata }) => match metadata {
            None => failed(Code::NotFound, "Repository metadata not found"@),
            Some(metadata) => (
                DeleteStateView::User { name: metadata.name, creator: metadata.creator },
                DeleteActionView::CurrentUser,
            ),
        },
        (DeleteStateView::User { name, creator }, DeleteEventView::User { id }) => after_user(
            req,
            name,
            creator,
            id,
        ),
        (DeleteStateView::Authorize { name }, DeleteEventView::AuthDeleted { result }) => match result {
            Ok(_) => remove(name),
            Err(status) => finish(Err(status)),
        },
        (DeleteStateView::Name, DeleteEventView::NameStored { result }) => match result {
            Ok(_) => (DeleteStateView::MetadataHash, DeleteActionView::ClearMetadataHash),
            Err(detail) => failed(
                Code::Internal,
                "Failed to delete repository name mapping: "@ + detail,
            ),
        },
        (DeleteStateView::MetadataHash, DeleteEventView::HashCleared { result }) => match result {
            Ok(_) => (DeleteStateView::Branches, DeleteActionView::ListBranches),
            Err(detail) => failed(
                Code::Internal,
                "Failed to delete repository metadata: "@ + detail,
            ),
        },
        (DeleteStateView::Branches, DeleteEventView::Branches { branches }) => match branches {
            Some(branches) => next_branch(req, branches),
            None => confirm(req, Ok(())),
        },
        (DeleteStateView::BranchName { pending }, DeleteEventView::BranchNamed { name }) => match name {
            Some(name) => if name.len() > 0 {
                (DeleteStateView::BranchUnmap { pending }, DeleteActionView::DeleteBranchName { name })
            } else {
                drop_latest(pending)
            },
            None => drop_latest(pending),
        },
        (DeleteStateView::BranchUnmap { pending }, DeleteEventView::Removed) => drop_latest(pending),
        (DeleteStateView::BranchLatest { pending }, DeleteEventView::Removed) => (
            DeleteStateView::BranchMetadata { pending },
            DeleteActionView::DeleteBranchMetadata { branch: pending[0] },
        ),
        (DeleteStateView::BranchMetadata { pending }, DeleteEventView::Removed) => next_branch(
            req,
            pending.skip(1),
        ),
        (DeleteStateView::Confirm, DeleteEventView::Confirmed { result }) => finish(result),
        _ => vstd::pervasive::arbitrary(),
    }
}

fn finish_with(result: Result<(), Status>) -> (next: (DeleteState, DeleteAction))
    ensures
        (next.0@, next.1@) == finish(model::unit_result_view(result)),
{
    (DeleteState::Finished, DeleteAction::Finish { result })
}

fn fail(code: Code, message: &str) -> (next: (DeleteState, DeleteAction))
    ensures
        (next.0@, next.1@) == failed(code, message@),
{
    finish_with(Err(Status::new(code, message)))
}

fn on_allowed(name: String) -> (next: (DeleteState, DeleteAction))
    ensures
        (next.0@, next.1@) == remove(name@),
{
    (
        DeleteState::Name,
        DeleteAction::StoreNameToId { name, id: RepositoryId { context: Context { value: 0 } } },
    )
}

fn on_unnamed(pending: PendingBranches) -> (next: (DeleteState, DeleteAction))
    ensures
        (next.0@, next.1@) == drop_latest(pending@),
{
    let branch = pending.current;
    (DeleteState::BranchLatest { pending }, DeleteAction::DeleteBranchLatest { branch })
}

fn reversed(items: Vec<Context>) -> (r: Vec<Context>)
    ensures
        r@ == items@.reverse(),
{
    let mut r: Vec<Context> = Vec::new();
    let mut i: usize = items.len();
    while i > 0
        invariant
            i <= items@.len(),
            r@.len() == items@.len() - i,
            forall|j: int| 0 <= j < r@.len() ==> r@[j] == items@[items@.len() - 1 - j],
        decreases i,
    {
        i = i - 1;
        r.push(items[i]);
    }
    r
}

impl DeleteRequest {
    fn resource_call(&self, url: &String) -> (call: ResourceCall)
        ensures
            call@ == resource_call(self@, url@),
    {
        ResourceCall {
            auth_url: url.clone(),
            authorization: model::clone_opt_string(&self.authorization),
            resource_id: self.id.resource_id(),
        }
    }

    fn on_gone(&self, missing: Result<(), Status>) -> (next: (DeleteState, DeleteAction))
        ensures
            (next.0@, next.1@) == confirm(self@, model::unit_result_view(missing)),
    {
        match &self.auth_url {
            Some(url) => (
                DeleteState::Confirm,
                DeleteAction::ConfirmDeleted { call: self.resource_call(url) },
            ),
            None => finish_with(missing),
        }
    }

    fn on_user(&self, name: String, creator: String, user: String) -> (next: (
        DeleteState,
        DeleteAction,
    ))
        ensures
            (next.0@, next.1@) == after_user(self@, name@, creator@, user@),
    {
        match &self.auth_url {
            Some(url) => (
                DeleteState::Authorize { name },
                DeleteAction::DeleteAuthResource { call: self.resource_call(url) },
            ),
            None => if creator != user && !self.force {
                fail(Code::PermissionDenied, "Not repository owner")
            } else {
                on_allowed(name)
            },
        }
    }

    /// Goes on with the branches `later`, which stand last one first.
    fn on_branches(&self, later: Vec<Context>) -> (next: (DeleteState, DeleteAction))
        ensures
            (next.0@, next.1@) == next_branch(self@, later@.reverse()),
    {
        let mut later = later;
        let ghost all = later@;
        match later.pop() {
            None => self.on_gone(Ok(())),
            Some(current) => {
                assert(all.reverse() =~= seq![current] + later@.reverse());
                (
                    DeleteState::BranchName { pending: PendingBranches { current, later } },
                    DeleteAction::BranchName { branch: current },
                )
            },
        }
    }

    /// Gives the first question about the request.
    pub fn begin(&self) -> (next: (DeleteState, DeleteAction))
        ensures
            (next.0@, next.1@) == delete_begin(self@),
    {
        (DeleteState::ById, DeleteAction::QueryId { id: self.id })
    }

    /// Takes the answer to the last question and gives the next one.
    pub fn step(&self, state: DeleteState, event: DeleteEvent) -> (next: (DeleteState, DeleteAction))
        requires
            delete_fits(state@, event@),
        ensures
            (next.0@, next.1@) == delete_step(self@, state@, event@),
    {
        match (state, event) {
            (DeleteState::ById, DeleteEvent::ById { data }) => match data {
                None => self.on_gone(
                    Err(Status::new(Code::NotFound, "Repository does not exist")),
                ),
                Some(data) => (
                    DeleteState::Metadata,
                    DeleteAction::LoadMetadata { hash: data.metadata },
                ),
            },
            (DeleteState::Metadata, DeleteEvent::Metadata { metadata }) => match metadata {
                None => fail(Code::NotFound, "Repository metadata not found"),
                Some(metadata) => (
                    DeleteState::User { name: metadata.name, creator: metadata.creator },
                    DeleteAction::CurrentUser,
                ),
            },
            (DeleteState::User { name, creator }, DeleteEvent::User { id }) => self.on_user(
                name,
                creator,
                id,
            ),
            (DeleteState::Authorize { name }, DeleteEvent::AuthDeleted { result }) => match result {
                Ok(_) => on_allowed(name),
                Err(status) => finish_with(Err(status)),
            },
            (DeleteState::Name, DeleteEvent::NameStored { result }) => match result {
                Ok(_) => (DeleteState::MetadataHash, DeleteAction::ClearMetadataHash),
                Err(detail) => finish_with(
                    Err(
                        Status::with_detail(
                            Code::Internal,
                            "Failed to delete repository name mapping: ",
                            detail.as_str(),
                        ),
                    ),
                ),
            },
            (DeleteState::MetadataHash, DeleteEvent::HashCleared { result }) => match result {
                Ok(_) => (DeleteState::Branches, DeleteAction::ListBranches),
                Err(detail) => finish_with(
                    Err(
                        Status::with_detail(
                            Code::Internal,
                            "Failed to delete repository metadata: ",
                            detail.as_str(),
                        ),
                    ),
                ),
            },
            (DeleteState::Branches, DeleteEvent::Branches { branches }) => match branches {
                Some(branches) => {
                    let ghost all = branches@;
                    let later = reversed(branches);
                    assert(later@.reverse() =~= all);
                    self.on_branches(later)
                },
                None => self.on_gone(Ok(())),
            },
            (DeleteState::BranchName { pending }, DeleteEvent::BranchNamed { name }) => match name {
                Some(name) => if name.as_str().is_empty() {
                    on_unnamed(pending)
                } else {
                    (
                        DeleteState::BranchUnmap { pending },
                        DeleteAction::DeleteBranchName { name },
                    )
                },
                None => on_unnamed(pending),
            },
            (DeleteState::BranchUnmap { pending }, DeleteEvent::Removed) => on_unnamed(pending),
            (DeleteState::BranchLatest { pending }, DeleteEvent::Removed) => {
                let branch = pending.current;
                (
                    DeleteState::BranchMetadata { pending },
                    DeleteAction::DeleteBranchMetadata { branch },
                )
            },
            (DeleteState::BranchMetadata { pending }, DeleteEvent::Removed) => {
                assert(pending@.skip(1) =~= pending.later@.reverse());
                self.on_branches(pending.later)
            },
            (DeleteState::Confirm, DeleteEvent::Confirmed { result }) => finish_with(result),
            (_, _) => vstd::pervasive::unreached(),
        }
    }
}

/// The answers that the surroundings give. No deletion asks the same question about the same
/// branch, or about the repository, twice, so these are all the answers it can get.
pub struct DeleteAnswers {
    pub by_id: Option<RepositoryDataView>,
    pub metadata: Option<RepositoryMetadataView>,
    pub user: Seq<char>,
    pub auth_deleted: Result<(), StatusView>,
    pub name_stored: Result<(), Seq<char>>,
    pub hash_cleared: Result<(), Seq<char>>,
    pub branches: Option<Seq<Context>>,
    pub branch_name: spec_fn(Context) -> Option<Seq<char>>,
    pub confirmed: Result<(), StatusView>,
}

/// The answer to `action`.
pub open spec fn delete_answer(answers: DeleteAnswers, action: DeleteActionView) -> DeleteEventView {
    match action {
        DeleteActionView::QueryId { .. } => DeleteEventView::ById { data: answers.by_id },
        DeleteActionView::LoadMetadata { .. } => DeleteEventView::Metadata {
            metadata: answers.metadata,
        },
        DeleteActionView::CurrentUser => DeleteEventView::User { id: answers.user },
        DeleteActionView::DeleteAuthResource { .. } => DeleteEventView::AuthDeleted {
            result: answers.auth_deleted,
        },
        DeleteActionView::StoreNameToId { .. } => DeleteEventView::NameStored {
            result: answers.name_stored,
        },
        DeleteActionView::ClearMetadataHash => DeleteEventView::HashCleared {
            result: answers.hash_cleared,
        },
        DeleteActionView::ListBranches => DeleteEventView::Branches { branches: answers.branches },
        DeleteActionView::BranchName { branch } => DeleteEventView::BranchNamed {
            name: (answers.branch_name)(branch),
        },
        DeleteActionView::ConfirmDeleted { .. } => DeleteEventView::Confirmed {
            result: answers.confirmed,
        },
        _ => DeleteEventView::Removed,
    }
}

/// The actions from `action` on, at most `n` of them after it.
pub open spec fn delete_run(
    req: DeleteRequestView,
    answers: DeleteAnswers,
    state: DeleteStateView,
    action: DeleteActionView,
    n: nat,
) -> Seq<DeleteActionView>
    decreases n,
{
    if action is Finish || n == 0 {
        seq![action]
    } else {
        let next = delete_step(req, state, delete_answer(answers, action));
        seq![action] + delete_run(req, answers, next.0, next.1, (n - 1) as nat)
    }
}

/// The branches that are removed.
pub open spec fn branches_of(answers: DeleteAnswers) -> Seq<Context> {
    match answers.branches {
        Some(branches) => branches,
        None => seq![],
    }
}

/// Everything that a deletion asks, up to its outcome.
pub open spec fn delete_trace(req: DeleteRequestView, answers: DeleteAnswers) -> Seq<
    DeleteActionView,
> {
    let first = delete_begin(req);
    delete_run(req, answers, first.0, first.1, 8 + 4 * branches_of(answers).len())
}

/// Whether the deletion is allowed: by the authorization service where one is configured, else
/// because the user created the repository or the request is forced.
pub open spec fn allowed(req: DeleteRequestView, answers: DeleteAnswers) -> bool {
    if req.auth_url is Some {
        answers.auth_deleted is Ok
    } else {
        owner_may_delete(req, answers.metadata->0.creator, answers.user)
    }
}

/// What removes `branch`.
pub open spec fn branch_removal(answers: DeleteAnswers, branch: Context) -> Seq<DeleteActionView> {
    let name = (answers.branch_name)(branch);
    let unmap = if name is Some && name->0.len() > 0 {
        seq![DeleteActionView::DeleteBranchName { name: name->0 }]
    } else {
        seq![]
    };
    seq![DeleteActionView::BranchName { branch }] + unmap + seq![
        DeleteActionView::DeleteBranchLatest { branch },
        DeleteActionView::DeleteBranchMetadata { branch },
    ]
}

/// What removes `branches`, one after the other.
pub open spec fn purge(answers: DeleteAnswers, branches: Seq<Context>) -> Seq<DeleteActionView>
    decreases branches.len(),
{
    if branches.len() == 0 {
        seq![]
    } else {
        branch_removal(answers, branches[0]) + purge(answers, branches.skip(1))
    }
}

/// How a deletion ends once nothing is left of the repository, where `missing` is reported if no
/// authorization service has to be told.
pub open spec fn confirmation(
    req: DeleteRequestView,
    answers: DeleteAnswers,
    missing: Result<(), StatusView>,
) -> Seq<DeleteActionView> {
    match req.auth_url {
        Some(url) => seq![
            DeleteActionView::ConfirmDeleted { call: resource_call(req, url) },
            DeleteActionView::Finish { result: answers.confirmed },
        ],
        None => seq![DeleteActionView::Finish { result: missing }],
    }
}

/// What is asked up to the decision whether the deletion is allowed.
pub open spec fn authorization(req: DeleteRequestView, answers: DeleteAnswers) -> Seq<
    DeleteActionView,
> {
    seq![
        DeleteActionView::QueryId { id: req.id },
        DeleteActionView::LoadMetadata { hash: answers.by_id->0.metadata },
        DeleteActionView::CurrentUser,
    ] + (match req.auth_url {
        Some(url) => seq![DeleteActionView::DeleteAuthResource { call: resource_call(req, url) }],
        None => seq![],
    })
}

/// Whether `state` waits for the answer to `action`, or both are the end.
pub open spec fn delete_asks(state: DeleteStateView, action: DeleteActionView) -> bool {
    if action is Finish {
        state is Finished
    } else {
        forall|answers: DeleteAnswers| delete_fits(state, #[trigger] delete_answer(answers, action))
    }
}

/// Every question is asked in a state that waits for its answer, so that the answer to the last
/// question can always be taken.
pub proof fn delete_never_stalls(
    req: DeleteRequestView,
    state: DeleteStateView,
    event: DeleteEventView,
)
    ensures
        delete_asks(delete_begin(req).0, delete_begin(req).1),
        delete_fits(state, event) ==> delete_asks(
            delete_step(req, state, event).0,
            delete_step(req, state, event).1,
        ),
{
}

proof fn lemma_purge(
    req: DeleteRequestView,
    answers: DeleteAnswers,
    pending: Seq<Context>,
    n: nat,
)
    requires
        n >= 4 * pending.len() + 1,
    ensures
        ({
            let next = next_branch(req, pending);
            delete_run(req, answers, next.0, next.1, n) == purge(answers, pending) + confirmation(
                req,
                answers,
                Ok(()),
            )
        }),
    decreases pending.len(),
{
    reveal_with_fuel(delete_run, 5);
    let next = next_branch(req, pending);
    let run = delete_run(req, answers, next.0, next.1, n);
    if pending.len() == 0 {
        assert(run =~= confirmation(req, answers, Ok(())));
        assert(purge(answers, pending) + confirmation(req, answers, Ok(())) =~= run);
    } else {
        let branch = pending[0];
        let name = (answers.branch_name)(branch);
        let rest = pending.skip(1);
        let named = name is Some && name->0.len() > 0;
        let used: nat = if named { 4 } else { 3 };
        let after = next_branch(req, rest);
        lemma_purge(req, answers, rest, (n - used) as nat);
        let tail = delete_run(req, answers, after.0, after.1, (n - used) as nat);
        assert(run =~= branch_removal(answers, branch) + tail);
        assert(run =~= purge(answers, pending) + confirmation(req, answers, Ok(())));
    }
}

/// What removes the repository itself, apart from its branches.
pub open spec fn removal(answers: DeleteAnswers) -> Seq<DeleteActionView> {
    seq![
        DeleteActionView::StoreNameToId {
            name: answers.metadata->0.name,
            id: RepositoryId { context: Context { value: 0 } },
        },
        DeleteActionView::ClearMetadataHash,
        DeleteActionView::ListBranches,
    ]
}

proof fn lemma_removal(req: DeleteRequestView, answers: DeleteAnswers, n: nat)
    requires
        answers.name_stored is Ok,
        answers.hash_cleared is Ok,
        n >= 4 * branches_of(answers).len() + 4,
    ensures
        ({
            let next = remove(answers.metadata->0.name);
            delete_run(req, answers, next.0, next.1, n) == removal(answers) + (purge(
                answers,
                branches_of(answers),
            ) + confirmation(req, answers, Ok(())))
        }),
{
    let pending = branches_of(answers);
    let first = remove(answers.metadata->0.name);
    let next = next_branch(req, pending);
    lemma_purge(req, answers, pending, (n - 3) as nat);
    reveal_with_fuel(delete_run, 4);
    assert(delete_run(req, answers, first.0, first.1, n) =~= removal(answers) + delete_run(
        req,
        answers,
        next.0,
        next.1,
        (n - 3) as nat,
    ));
}

/// An allowed deletion, where the storage does not fail, asks exactly this: the name of the
/// repository is forgotten, then its metadata, then every branch, whatever becomes of the branches
/// before it, and last the authorization service, where there is one, is told. The outcome is what
/// the service answers, or success where there is none.
pub proof fn allowed_delete_removes_everything(req: DeleteRequestView, answers: DeleteAnswers)
    requires
        answers.by_id is Some,
        answers.metadata is Some,
        allowed(req, answers),
        answers.name_stored is Ok,
        answers.hash_cleared is Ok,
    ensures
        delete_trace(req, answers) == authorization(req, answers) + (removal(answers) + (purge(
            answers,
            branches_of(answers),
        ) + confirmation(req, answers, Ok(())))),
{
    let asked: nat = if req.auth_url is Some { 4 } else { 3 };
    let n = (8 + 4 * branches_of(answers).len() - asked) as nat;
    let next = remove(answers.metadata->0.name);
    lemma_removal(req, answers, n);
    reveal_with_fuel(delete_run, 5);
    assert(delete_trace(req, answers) =~= authorization(req, answers) + delete_run(
        req,
        answers,
        next.0,
        next.1,
        n,
    ));
}

/// A deletion that is not allowed changes nothing: after the decision comes the refusal.
pub proof fn refused_delete_changes_nothing(req: DeleteRequestView, answers: DeleteAnswers)
    requires
        answers.by_id is Some,
        answers.metadata is Some,
        !allowed(req, answers),
    ensures
        delete_trace(req, answers) == authorization(req, answers) + seq![
            DeleteActionView::Finish {
                result: Err(
                    if req.auth_url is Some {
                        answers.auth_deleted->Err_0
                    } else {
                        StatusView {
                            code: Code::PermissionDenied,
                            message: "Not repository owner"@,
                        }
                    },
                ),
            },
        ],
{
    reveal_with_fuel(delete_run, 8);
}

/// To delete what is gone changes nothing here and only tells the authorization service again, so
/// that a deletion whose confirmation was lost can be repeated; without such a service it fails.
pub proof fn repeated_delete_only_confirms(req: DeleteRequestView, answers: DeleteAnswers)
    requires
        answers.by_id is None,
    ensures
        delete_trace(req, answers) == seq![DeleteActionView::QueryId { id: req.id }] + confirmation(
            req,
            answers,
            Err(StatusView { code: Code::NotFound, message: "Repository does not exist"@ }),
        ),
{
    reveal_with_fuel(delete_run, 8);
}

proof fn lemma_failing_delete_ends(req: DeleteRequestView, answers: DeleteAnswers)
    requires
        answers.by_id is Some,
        answers.metadata is None || (allowed(req, answers) && (answers.name_stored is Err
            || answers.hash_cleared is Err)),
    ensures
        delete_trace(req, answers).last() is Finish,
        forall|i: int|
            0 <= i < delete_trace(req, answers).len() - 1 ==> !(#[trigger] delete_trace(
                req,
                answers,
            )[i] is Finish),
{
    reveal_with_fuel(delete_run, 8);
}

proof fn lemma_purge_has_no_end(answers: DeleteAnswers, branches: Seq<Context>)
    ensures
        forall|i: int|
            0 <= i < purge(answers, branches).len() ==> !(#[trigger] purge(
                answers,
                branches,
            )[i] is Finish),
    decreases branches.len(),
{
    if branches.len() > 0 {
        lemma_purge_has_no_end(answers, branches.skip(1));
    }
}

/// Every deletion comes to an outcome: the last action of its trace, and no other, is `Finish`.
pub proof fn delete_ends(req: DeleteRequestView, answers: DeleteAnswers)
    ensures
        delete_trace(req, answers).last() is Finish,
        forall|i: int|
            0 <= i < delete_trace(req, answers).len() - 1 ==> !(#[trigger] delete_trace(
                req,
                answers,
            )[i] is Finish),
{
    if answers.by_id is None {
        repeated_delete_only_confirms(req, answers);
    } else if answers.metadata is None {
        lemma_failing_delete_ends(req, answers);
    } else if !allowed(req, answers) {
        refused_delete_changes_nothing(req, answers);
    } else if answers.name_stored is Err || answers.hash_cleared is Err {
        lemma_failing_delete_ends(req, answers);
    } else {
        allowed_delete_removes_everything(req, answers);
        lemma_purge_has_no_end(answers, branches_of(answers));
    }
}

} // verus!
