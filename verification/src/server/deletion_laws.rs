//! What holds of every deletion of a repository, said of the request, the answers and what is asked
//! next.
use vstd::prelude::*;

use crate::ids::{Context, RepositoryId};
use crate::server::jwt::AuthorizationToken;
use crate::server::repository_delete;
use crate::server::repository_delete::{
    DeleteAction, DeleteActionView, DeleteAnswers, DeleteEvent, DeleteRequest, DeleteRequestView,
    DeleteState, DeleteStateView, PendingBranches, ResourceCall,
};
use crate::status::Code;

verus! {

/// Whether `next` follows the answer `event` in `state`.
pub open spec fn delete_follows(
    req: DeleteRequest,
    state: DeleteState,
    event: DeleteEvent,
    next: (DeleteState, DeleteAction),
) -> bool {
    repository_delete::delete_fits(state@, event@) && (next.0@, next.1@)
        == repository_delete::delete_step(req@, state@, event@)
}

/// Whether a call is about the repository of the request: it goes to the configured service, with
/// the credentials that came with the request, and names the resource of the repository.
pub open spec fn is_call_about(req: DeleteRequest, call: ResourceCall) -> bool {
    &&& req.auth_url matches Some(url) && call.auth_url@ == url@
    &&& match (req.authorization, call.authorization) {
        (Some(given), Some(sent)) => sent@ == given@,
        (None, None) => true,
        _ => false,
    }
    &&& call.resource_id@ == "urc-"@ + req.id.context.hex()
}

/// Every call to the authorization service carries the credentials of the request and names its
/// repository.
pub proof fn service_is_asked_with_the_credentials(
    req: DeleteRequest,
    state: DeleteState,
    event: DeleteEvent,
    next: (DeleteState, DeleteAction),
)
    requires
        delete_follows(req, state, event, next),
    ensures
        match next.1 {
            DeleteAction::DeleteAuthResource { call } => is_call_about(req, call),
            DeleteAction::ConfirmDeleted { call } => is_call_about(req, call),
            DeleteAction::QueryId { .. } => false,
            _ => true,
        },
{
}

/// A deletion begins with the question for the repository of the request.
pub proof fn deletion_begins_with_the_repository(
    req: DeleteRequest,
    next: (DeleteState, DeleteAction),
)
    requires
        (next.0@, next.1@) == repository_delete::delete_begin(req@),
    ensures
        next.0 is ById,
        next.1 matches DeleteAction::QueryId { id } && id == req.id,
{
}

/// Nothing is removed unless the deletion is allowed: by the authorization service, where one is
/// configured, else because the user created the repository or the request is forced. Before that
/// the metadata of the repository is looked up, and the user.
pub proof fn removal_needs_permission(
    req: DeleteRequest,
    state: DeleteState,
    event: DeleteEvent,
    next: (DeleteState, DeleteAction),
)
    requires
        delete_follows(req, state, event, next),
    ensures
        match (state, event) {
            (DeleteState::ById, DeleteEvent::ById { data: Some(data) }) => {
                &&& next.0 is Metadata
                &&& next.1 matches DeleteAction::LoadMetadata { hash } && hash.bytes@
                    == data.metadata.bytes@
            },
            (DeleteState::Metadata, DeleteEvent::Metadata { metadata: Some(metadata) }) => {
                &&& next.1 is CurrentUser
                &&& next.0 matches DeleteState::User { name, creator } && name@ == metadata.name@
                    && creator@ == metadata.creator@
            },
            (DeleteState::User { name, creator }, DeleteEvent::User { id }) => {
                if req.auth_url is Some {
                    &&& next.1 is DeleteAuthResource
                    &&& next.0 matches DeleteState::Authorize { name: kept } && kept@ == name@
                } else if creator@ == id@ || req.force {
                    next.1 matches DeleteAction::StoreNameToId { name: forgotten, id: none }
                        && forgotten@ == name@ && none.context.value == 0
                } else {
                    next.1 matches DeleteAction::Finish { result: Err(status) } && status.code
                        == Code::PermissionDenied && status.message@ == "Not repository owner"@
                }
            },
            (DeleteState::Authorize { name }, DeleteEvent::AuthDeleted { result }) => match result {
                Ok(_) => next.0 is Name && (next.1 matches DeleteAction::StoreNameToId {
                    name: forgotten,
                    id: none,
                } && forgotten@ == name@ && none.context.value == 0),
                Err(refused) => next.1 matches DeleteAction::Finish { result: Err(status) }
                    && status.code == refused.code && status.message@ == refused.message@,
            },
            _ => !(next.1 is StoreNameToId) && !(next.1 is DeleteAuthResource) && !(
            next.1 is LoadMetadata) && !(next.1 is CurrentUser),
        },
{
}

/// Whether nothing is left to remove: the authorization service is told next, where one is
/// configured, else the deletion ends well.
pub open spec fn is_done(req: DeleteRequest, next: (DeleteState, DeleteAction)) -> bool {
    if req.auth_url is Some {
        next.0 is Confirm && next.1 is ConfirmDeleted
    } else {
        next.0 is Finished && (next.1 matches DeleteAction::Finish { result } && result is Ok)
    }
}

/// What is removed, and in what order: the name, the metadata address, then branch after branch. A
/// failure of the first two ends the deletion and is reported; where the branches cannot be listed
/// there are none to remove.
pub proof fn removal_goes_step_by_step(
    req: DeleteRequest,
    state: DeleteState,
    event: DeleteEvent,
    next: (DeleteState, DeleteAction),
)
    requires
        delete_follows(req, state, event, next),
    ensures
        match (state, event) {
            (DeleteState::Name, DeleteEvent::NameStored { result }) => match result {
                Ok(_) => next.0 is MetadataHash && next.1 is ClearMetadataHash,
                Err(detail) => next.1 matches DeleteAction::Finish { result: Err(status) }
                    && status.code == Code::Internal && status.message@
                    == "Failed to delete repository name mapping: "@ + detail@,
            },
            (DeleteState::MetadataHash, DeleteEvent::HashCleared { result }) => match result {
                Ok(_) => next.0 is Branches && next.1 is ListBranches,
                Err(detail) => next.1 matches DeleteAction::Finish { result: Err(status) }
                    && status.code == Code::Internal && status.message@
                    == "Failed to delete repository metadata: "@ + detail@,
            },
            (DeleteState::Branches, DeleteEvent::Branches { branches }) => match branches {
                Some(branches) => if branches@.len() == 0 {
                    is_done(req, next)
                } else {
                    &&& next.1 matches DeleteAction::BranchName { branch } && branch == branches@[0]
                    &&& next.0 matches DeleteState::BranchName { pending } && left(pending)
                        == branches@
                },
                None => is_done(req, next),
            },
            _ => !(next.1 is ClearMetadataHash) && !(next.1 is ListBranches),
        },
{
    if let DeleteEvent::Branches { branches: Some(branches) } = event {
        if let DeleteState::BranchName { pending } = next.0 {
            lemma_left(pending);
        }
    }
}

/// The branches that are left to remove, in the order in which they are removed.
pub open spec fn left(pending: PendingBranches) -> Seq<Context> {
    Seq::new(
        (pending.later@.len() + 1) as nat,
        |i: int|
            if i == 0 {
                pending.current
            } else {
                pending.later@[pending.later@.len() - i]
            },
    )
}

proof fn lemma_left(pending: PendingBranches)
    ensures
        left(pending) == pending@,
{
    assert(left(pending) =~= pending@);
}

/// A branch is removed as a whole before the next one: first its name, where it has one, then its
/// latest revision, then its metadata; and it is the same branch each time.
pub proof fn branch_is_removed_as_a_whole(
    req: DeleteRequest,
    state: DeleteState,
    event: DeleteEvent,
    next: (DeleteState, DeleteAction),
)
    requires
        delete_follows(req, state, event, next),
    ensures
        match (state, event) {
            (DeleteState::BranchName { pending }, DeleteEvent::BranchNamed { name }) => {
                if name is Some && name->0@.len() > 0 {
                    &&& next.1 matches DeleteAction::DeleteBranchName { name: forgotten }
                        && forgotten@ == name->0@
                    &&& next.0 matches DeleteState::BranchUnmap { pending: kept } && left(kept)
                        == left(pending)
                } else {
                    &&& next.1 matches DeleteAction::DeleteBranchLatest { branch } && branch
                        == left(pending)[0]
                    &&& next.0 matches DeleteState::BranchLatest { pending: kept } && left(kept)
                        == left(pending)
                }
            },
            (DeleteState::BranchUnmap { pending }, DeleteEvent::Removed) => {
                &&& next.1 matches DeleteAction::DeleteBranchLatest { branch } && branch == left(
                    pending,
                )[0]
                &&& next.0 matches DeleteState::BranchLatest { pending: kept } && left(kept)
                    == left(pending)
            },
            (DeleteState::BranchLatest { pending }, DeleteEvent::Removed) => {
                &&& next.1 matches DeleteAction::DeleteBranchMetadata { branch } && branch == left(
                    pending,
                )[0]
                &&& next.0 matches DeleteState::BranchMetadata { pending: kept } && left(kept)
                    == left(pending)
            },
            (DeleteState::BranchMetadata { pending }, DeleteEvent::Removed) => {
                if left(pending).len() == 1 {
                    is_done(req, next)
                } else {
                    &&& next.1 matches DeleteAction::BranchName { branch } && branch == left(
                        pending,
                    )[1]
                    &&& next.0 matches DeleteState::BranchName { pending: kept } && left(kept)
                        == left(pending).skip(1)
                }
            },
            _ => !(next.1 is DeleteBranchName) && !(next.1 is DeleteBranchLatest) && !(
            next.1 is DeleteBranchMetadata),
        },
{
    match state {
        DeleteState::BranchName { pending } => lemma_left(pending),
        DeleteState::BranchUnmap { pending } => lemma_left(pending),
        DeleteState::BranchLatest { pending } => lemma_left(pending),
        DeleteState::BranchMetadata { pending } => lemma_left(pending),
        _ => {},
    }
    match next.0 {
        DeleteState::BranchName { pending } => lemma_left(pending),
        DeleteState::BranchUnmap { pending } => lemma_left(pending),
        DeleteState::BranchLatest { pending } => lemma_left(pending),
        DeleteState::BranchMetadata { pending } => lemma_left(pending),
        _ => {},
    }
}

/// A repository that is not there is reported as such, or, where an authorization service is
/// configured, only told to it again. What the service answers in the end is the outcome.
pub proof fn missing_repository_is_only_confirmed(
    req: DeleteRequest,
    state: DeleteState,
    event: DeleteEvent,
    next: (DeleteState, DeleteAction),
)
    requires
        delete_follows(req, state, event, next),
    ensures
        match (state, event) {
            (DeleteState::ById, DeleteEvent::ById { data: None }) => if req.auth_url is Some {
                next.0 is Confirm && next.1 is ConfirmDeleted
            } else {
                next.1 matches DeleteAction::Finish { result: Err(status) } && status.code
                    == Code::NotFound && status.message@ == "Repository does not exist"@
            },
            (DeleteState::Metadata, DeleteEvent::Metadata { metadata: None }) => {
                next.1 matches DeleteAction::Finish { result: Err(status) } && status.code
                    == Code::NotFound && status.message@ == "Repository metadata not found"@
            },
            (DeleteState::Confirm, DeleteEvent::Confirmed { result }) => {
                &&& next.0 is Finished
                &&& next.1 matches DeleteAction::Finish { result: given } && match (result, given) {
                    (Ok(_), Ok(_)) => true,
                    (Err(refused), Err(status)) => status.code == refused.code && status.message@
                        == refused.message@,
                    _ => false,
                }
            },
            _ => true,
        },
{
}

/// Whether `action` is about the request, given the answers.
pub open spec fn is_about(
    req: DeleteRequestView,
    answers: DeleteAnswers,
    action: DeleteActionView,
) -> bool {
    let permitted = match req.auth_url {
        Some(_) => answers.auth_deleted is Ok,
        None => answers.metadata->0.creator == answers.user || req.force,
    };
    match action {
        DeleteActionView::QueryId { id } => id == req.id,
        DeleteActionView::LoadMetadata { hash } => answers.by_id matches Some(data) && hash
            == data.metadata,
        DeleteActionView::CurrentUser => answers.metadata is Some,
        DeleteActionView::DeleteAuthResource { call } => {
            &&& req.auth_url == Some(call.auth_url)
            &&& call.authorization == req.authorization
            &&& call.resource_id == "urc-"@ + req.id.context.hex()
        },
        DeleteActionView::ConfirmDeleted { call } => {
            &&& req.auth_url == Some(call.auth_url)
            &&& call.authorization == req.authorization
            &&& call.resource_id == "urc-"@ + req.id.context.hex()
        },
        DeleteActionView::StoreNameToId { name, id } => permitted && answers.by_id is Some && (
        answers.metadata matches Some(metadata) && name == metadata.name) && id.context.value == 0,
        DeleteActionView::ClearMetadataHash => permitted && answers.by_id is Some,
        DeleteActionView::ListBranches => permitted && answers.by_id is Some,
        DeleteActionView::BranchName { branch } => permitted && answers.by_id is Some && (
        answers.branches matches Some(branches) && branches.contains(branch)),
        DeleteActionView::DeleteBranchName { name } => permitted && answers.by_id is Some && (
        answers.branches matches Some(branches) && exists|branch: Context| #[trigger]
            branches.contains(branch) && (answers.branch_name)(branch) == Some(name)),
        DeleteActionView::DeleteBranchLatest { branch } => permitted && answers.by_id is Some && (
        answers.branches matches Some(branches) && branches.contains(branch)),
        DeleteActionView::DeleteBranchMetadata { branch } => permitted && answers.by_id is Some && (
        answers.branches matches Some(branches) && branches.contains(branch)),
        DeleteActionView::Finish { result } => result is Ok ==> (if req.auth_url is Some {
            answers.confirmed is Ok && (answers.by_id is Some ==> permitted)
        } else {
            answers.by_id is Some && permitted
        }),
    }
}

spec fn is_reached(
    req: DeleteRequestView,
    answers: DeleteAnswers,
    state: DeleteStateView,
    action: DeleteActionView,
) -> bool {
    let permitted = match req.auth_url {
        Some(_) => answers.auth_deleted is Ok,
        None => answers.metadata->0.creator == answers.user || req.force,
    };
    let removing = permitted && answers.by_id is Some;
    &&& repository_delete::delete_asks(state, action)
    &&& match state {
        DeleteStateView::ById => true,
        DeleteStateView::Metadata => answers.by_id is Some,
        DeleteStateView::User { name, creator } => answers.by_id is Some && (
        answers.metadata matches Some(metadata) && name == metadata.name && creator
            == metadata.creator),
        DeleteStateView::Authorize { name } => answers.by_id is Some && req.auth_url is Some && (
        answers.metadata matches Some(metadata) && name == metadata.name),
        DeleteStateView::Name => removing,
        DeleteStateView::MetadataHash => removing,
        DeleteStateView::Branches => removing,
        DeleteStateView::BranchName { pending } => removing && all_listed(answers, pending)
            && action == (DeleteActionView::BranchName { branch: pending[0] }),
        DeleteStateView::BranchUnmap { pending } => removing && all_listed(answers, pending),
        DeleteStateView::BranchLatest { pending } => removing && all_listed(answers, pending),
        DeleteStateView::BranchMetadata { pending } => removing && all_listed(answers, pending),
        DeleteStateView::Confirm => req.auth_url is Some && (answers.by_id is Some ==> permitted),
        DeleteStateView::Finished => true,
    }
}

spec fn all_listed(answers: DeleteAnswers, pending: Seq<Context>) -> bool {
    &&& pending.len() > 0
    &&& answers.branches matches Some(branches) && forall|i: int|
        0 <= i < pending.len() ==> branches.contains(#[trigger] pending[i])
}

proof fn lemma_run_is_about(
    req: DeleteRequestView,
    answers: DeleteAnswers,
    state: DeleteStateView,
    action: DeleteActionView,
    n: nat,
    i: int,
)
    requires
        is_reached(req, answers, state, action),
        is_about(req, answers, action),
        0 <= i < repository_delete::delete_run(req, answers, state, action, n).len(),
    ensures
        is_about(
            req,
            answers,
            repository_delete::delete_run(req, answers, state, action, n)[i],
        ),
    decreases n,
{
    if i > 0 {
        let event = repository_delete::delete_answer(answers, action);
        let next = repository_delete::delete_step(req, state, event);
        assert(repository_delete::delete_fits(state, event));
        repository_delete::delete_never_stalls(req, state, event);
        if let DeleteStateView::BranchMetadata { pending } = state {
            assert forall|j: int| 0 <= j < pending.skip(1).len() implies answers.branches->0.contains(
                #[trigger] pending.skip(1)[j],
            ) by {
                assert(pending.skip(1)[j] == pending[j + 1]);
            }
        }
        assert(is_reached(req, answers, next.0, next.1));
        assert(is_about(req, answers, next.1));
        let rest = repository_delete::delete_run(req, answers, next.0, next.1, (n - 1) as nat);
        assert(repository_delete::delete_run(req, answers, state, action, n) == seq![action] + rest);
        lemma_run_is_about(req, answers, next.0, next.1, (n - 1) as nat, i - 1);
    }
}

/// Everything that a deletion asks, from its first question to its outcome, is about the repository
/// of the request. Every call to the authorization service carries the credentials of the request;
/// nothing is removed unless that is permitted; only branches of the repository are removed; and
/// success is reported only where the deletion was permitted and the service, where there is one,
/// has heard of it.
pub proof fn whole_deletion_is_about_the_request(
    req: DeleteRequestView,
    answers: DeleteAnswers,
    i: int,
)
    requires
        0 <= i < repository_delete::delete_trace(req, answers).len(),
    ensures
        is_about(req, answers, repository_delete::delete_trace(req, answers)[i]),
{
    let first = repository_delete::delete_begin(req);
    repository_delete::delete_never_stalls(
        req,
        first.0,
        repository_delete::delete_answer(answers, first.1),
    );
    lemma_run_is_about(
        req,
        answers,
        first.0,
        first.1,
        (8 + 4 * repository_delete::branches_of(answers).len()) as nat,
        i,
    );
}

/// Whether a request is the one that was made: for that repository, with the configured service and
/// the credentials that came with it, and forced exactly where the caller is known to be a service
/// account.
pub open spec fn is_request_of(
    id: RepositoryId,
    caller: Option<&AuthorizationToken>,
    auth_url: Option<String>,
    authorization: Option<String>,
    req: DeleteRequest,
) -> bool {
    &&& req.id == id
    &&& req.force <==> (caller matches Some(token) && token.is_service_account == Some(true))
    &&& match (auth_url, req.auth_url) {
        (Some(a), Some(b)) => a@ == b@,
        (None, None) => true,
        _ => false,
    }
    &&& match (authorization, req.authorization) {
        (Some(a), Some(b)) => a@ == b@,
        (None, None) => true,
        _ => false,
    }
}

} // verus!
