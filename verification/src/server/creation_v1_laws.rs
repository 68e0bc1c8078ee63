//! What holds of every creation of a repository in version 1 of the interface, said of the request,
//! the answers and what is asked next.
use vstd::prelude::*;

use crate::server::creation_laws;
use crate::server::repository_create::{CreateRequest, CreateRequestView, Limits, RepositoryMetadata};
use crate::server::repository_create_v1;
use crate::server::repository_create_v1::{
    CreateAction, CreateActionView, CreateAnswers, CreateEvent, CreateMessage, CreateState,
    CreateStateView, RepositoryRecord,
};
use crate::status::Code;
use crate::text;

verus! {

/// Whether `next` follows the answer `event` in `state`.
pub open spec fn create_follows(
    req: CreateRequest,
    state: CreateState,
    event: CreateEvent,
    next: (CreateState, CreateAction),
) -> bool {
    repository_create_v1::create_fits(state@, event@) && (next.0@, next.1@)
        == repository_create_v1::create_step(req@, state@, event@)
}

/// Whether two records of a repository are the same.
pub open spec fn same_record(a: RepositoryRecord, b: RepositoryRecord) -> bool {
    &&& a.hash.bytes@ == b.hash.bytes@
    &&& a.metadata.name@ == b.metadata.name@
    &&& a.metadata.description@ == b.metadata.description@
    &&& a.metadata.default_branch == b.metadata.default_branch
    &&& a.metadata.default_branch_name@ == b.metadata.default_branch_name@
    &&& a.metadata.creator@ == b.metadata.creator@
    &&& a.metadata.created == b.metadata.created
}

/// Whether metadata is that of the request, field by field.
pub open spec fn is_requested(req: CreateRequest, metadata: RepositoryMetadata) -> bool {
    creation_laws::is_requested(req, metadata) && metadata.creator@ == req.creator@
}

/// Everything that a creation asks is about the request: each field of it is the field of the same
/// name in the request.
pub proof fn creation_asks_about_the_request(
    req: CreateRequest,
    state: CreateState,
    event: CreateEvent,
    next: (CreateState, CreateAction),
)
    requires
        create_follows(req, state, event, next),
    ensures
        match next.1 {
            CreateAction::LoadId { id } => id == req.id,
            CreateAction::LoadName { name } => name@ == req.name@,
            CreateAction::StoreNameToId { name, id } => name@ == req.name@ && id == req.id,
            CreateAction::StoreMetadata { metadata } => {
                &&& is_requested(req, metadata)
                &&& next.0 is Metadata
                &&& state is ByName
                &&& event matches CreateEvent::ByName { found } && found is None
            },
            CreateAction::CreateBranch { id, name, creator, created } => {
                &&& id == req.default_branch_id
                &&& name@ == req.default_branch_name@
                &&& creator@ == req.creator@
                &&& created == req.created
            },
            CreateAction::CreateAuthResource { call } => creation_laws::is_owner_call(req, call),
            _ => true,
        },
{
}

/// Whether the caller is made the owner of a stored repository next, where an authorization service
/// is configured, and the repository is given back at once where none is.
pub open spec fn authorizes(
    req: CreateRequest,
    record: RepositoryRecord,
    next: (CreateState, CreateAction),
) -> bool {
    if req.auth_url is Some {
        &&& next.1 is CreateAuthResource
        &&& next.0 matches CreateState::Authorize { record: kept } && same_record(kept, record)
    } else {
        next.1 matches CreateAction::Finish { result: Ok(given) } && same_record(given, record)
    }
}

/// A new repository is stored step by step, and each step is taken only after the one before it
/// succeeded: metadata, branch, metadata address, name, owner. A branch that is there already counts
/// as created. The address that is stored, and given back, is the one under which the metadata was
/// stored, and what is given back is what was requested.
pub proof fn storing_goes_step_by_step(
    req: CreateRequest,
    state: CreateState,
    event: CreateEvent,
    next: (CreateState, CreateAction),
)
    requires
        create_follows(req, state, event, next),
    ensures
        match (state, event) {
            (CreateState::Metadata, CreateEvent::MetadataStored { result: Ok(hash) }) => {
                &&& next.1 is CreateBranch
                &&& next.0 matches CreateState::Branch { hash: kept } && kept.bytes@ == hash.bytes@
            },
            (CreateState::Branch { hash }, CreateEvent::BranchCreated { result }) => {
                if result is Ok || result->Err_0.already_exists {
                    &&& next.1 matches CreateAction::StoreMetadataHash { hash: stored }
                        && stored.bytes@ == hash.bytes@
                    &&& next.0 matches CreateState::MetadataHash { hash: kept } && kept.bytes@
                        == hash.bytes@
                } else {
                    next.1 is Finish
                }
            },
            (CreateState::MetadataHash { hash }, CreateEvent::HashStored { result: Ok(_) }) => {
                &&& next.1 is StoreNameToId
                &&& next.0 matches CreateState::Name { hash: kept } && kept.bytes@ == hash.bytes@
            },
            (CreateState::Name { hash }, CreateEvent::NameStored { result: Ok(_) }) => {
                if req.auth_url is Some {
                    &&& next.1 is CreateAuthResource
                    &&& next.0 matches CreateState::Authorize { record } && record.hash.bytes@
                        == hash.bytes@ && is_requested(req, record.metadata)
                } else {
                    next.1 matches CreateAction::Finish { result: Ok(record) }
                        && record.hash.bytes@ == hash.bytes@ && is_requested(req, record.metadata)
                }
            },
            (CreateState::Authorize { record }, CreateEvent::AuthResource { result: Ok(_) }) => {
                next.1 matches CreateAction::Finish { result: Ok(given) } && same_record(
                    given,
                    record,
                )
            },
            _ => {
                &&& !(next.1 is CreateBranch)
                &&& !(next.1 is StoreMetadataHash)
            },
        },
{
}

/// An existing repository is taken for the requested one only where its identifier and its name are
/// both the requested ones and, where an authorization service is configured, its creator is the one
/// of the request. It is given back as it was found, and a name that was not recorded is recorded.
pub proof fn existing_repository_must_match(
    req: CreateRequest,
    state: CreateState,
    event: CreateEvent,
    next: (CreateState, CreateAction),
)
    requires
        create_follows(req, state, event, next),
    ensures
        match (state, event) {
            (CreateState::ById, CreateEvent::ById { record: None }) => next.1 is LoadName
                && next.0 is ByName,
            (CreateState::ById, CreateEvent::ById { record: Some(record) }) => {
                if record.metadata.name@ != req.name@ {
                    next.1 matches CreateAction::Finish { result: Err(status) } && status.code
                        == Code::AlreadyExists && status.message@ == "Repository "@
                        + req.id.context.hex() + " already exist with name "@
                        + record.metadata.name@ + " which does not match "@ + req.name@
                } else if req.auth_url is Some && record.metadata.creator@ != req.creator@ {
                    next.1 matches CreateAction::Finish { result: Err(status) } && status.code
                        == Code::PermissionDenied && status.message@
                        == "Repository is owned by another subject"@
                } else {
                    &&& next.1 is LoadName
                    &&& next.0 matches CreateState::MappingById { record: kept } && same_record(
                        kept,
                        record,
                    )
                }
            },
            (CreateState::ByName, CreateEvent::ByName { found: Some(found) }) => {
                if found.id != req.id {
                    next.1 matches CreateAction::Finish { result: Err(status) } && status.code
                        == Code::AlreadyExists && status.message@ == "Repository "@ + req.name@
                        + " already exist with id "@ + found.id.context.hex()
                        + " which does not match "@ + req.id.context.hex()
                } else if req.auth_url is Some && found.record.metadata.creator@ != req.creator@ {
                    next.1 matches CreateAction::Finish { result: Err(status) } && status.code
                        == Code::PermissionDenied && status.message@
                        == "Repository is owned by another subject"@
                } else {
                    authorizes(req, found.record, next)
                }
            },
            (CreateState::ByName, CreateEvent::ByName { found: None }) => next.1 is StoreMetadata,
            (CreateState::MappingById { record }, CreateEvent::ByName { found }) => {
                if found is None {
                    &&& next.1 is StoreNameToId
                    &&& next.0 matches CreateState::RepairById { record: kept } && same_record(
                        kept,
                        record,
                    )
                } else {
                    authorizes(req, record, next)
                }
            },
            (CreateState::RepairById { record }, CreateEvent::NameStored { .. }) => authorizes(
                req,
                record,
                next,
            ),
            _ => true,
        },
{
}

/// Whether `next` is the end of a creation, with an internal error of this text.
pub open spec fn fails_with(next: (CreateState, CreateAction), message: Seq<char>) -> bool {
    &&& next.0 is Finished
    &&& next.1 matches CreateAction::Finish { result: Err(status) } && status.code
        == Code::Internal && status.message@ == message
}

/// What fails is reported, with what it was and why; the refusal of the authorization service is
/// handed on as it is.
pub proof fn failed_steps_are_reported(
    req: CreateRequest,
    state: CreateState,
    event: CreateEvent,
    next: (CreateState, CreateAction),
)
    requires
        create_follows(req, state, event, next),
    ensures
        match event {
            CreateEvent::MetadataStored { result: Err(detail) } => fails_with(
                next,
                "Failed to serialize repository metadata: "@ + detail@,
            ),
            CreateEvent::BranchCreated { result: Err(failure) } => !failure.already_exists
                ==> fails_with(next, "Failed to create default branch: "@ + failure.detail@),
            CreateEvent::HashStored { result: Err(detail) } => fails_with(
                next,
                "Failed to store metadata hash for "@ + req.name@ + "/"@ + req.id.context.hex()
                    + ": "@ + detail@,
            ),
            CreateEvent::NameStored { result: Err(detail) } => state is Name ==> fails_with(
                next,
                "Failed to store name to ID lookup for "@ + req.name@ + " -> "@
                    + req.id.context.hex() + ": "@ + detail@,
            ),
            CreateEvent::AuthResource { result: Err(refused) } => {
                &&& next.0 is Finished
                &&& next.1 matches CreateAction::Finish { result: Err(status) } && status.code
                    == refused.code && status.message@ == refused.message@
            },
            _ => true,
        },
{
}

/// A request is looked at exactly where no text of it is longer than it may be, its name may name a
/// repository, and its name is not the identifier of another one.
pub proof fn acceptable_request_is_looked_up(
    req: CreateRequest,
    limits: Limits,
    next: (CreateState, CreateAction),
)
    requires
        (next.0@, next.1@) == repository_create_v1::create_begin(limits, req@),
    ensures
        ({
            let fits = {
                &&& text::utf8_len(req.name@) <= limits.max_name_len
                &&& text::utf8_len(req.description@) <= limits.max_description_len
                &&& text::utf8_len(req.default_branch_name@) <= limits.max_name_len
                &&& text::utf8_len(req.creator@) <= limits.max_name_len
            };
            let named = req.name_is_valid && (req.name_id matches Some(id) ==> id.value == 0 || id
                == req.id.context);
            if fits && named {
                next.0 is ById && (next.1 matches CreateAction::LoadId { id } && id == req.id)
            } else {
                next.0 is Finished && (next.1 matches CreateAction::Finish { result: Err(status) }
                    && status.code == Code::InvalidArgument)
            }
        }),
{
}

/// A creation is attributed to the verified user where an authorization service is configured or the
/// message names no creator; else to the one that it names.
pub proof fn creator_is_the_user_or_the_named_one(
    auth_url: Option<Seq<char>>,
    requested: Option<Seq<char>>,
    user_id: Seq<char>,
)
    ensures
        ({
            let creator = repository_create_v1::creator_of(auth_url, requested, user_id);
            match requested {
                Some(name) => {
                    &&& auth_url is None && name.len() > 0 ==> creator == name
                    &&& auth_url is Some || name.len() == 0 ==> creator == user_id
                },
                None => creator == user_id,
            }
        }),
{
}

/// Whether `action` is about the request, given the answers: each field of it is the field of the
/// same name in the request, or was answered.
pub open spec fn is_about(
    req: CreateRequestView,
    answers: CreateAnswers,
    action: CreateActionView,
) -> bool {
    match action {
        CreateActionView::StoreMetadata { metadata } => {
            &&& metadata.name == req.name
            &&& metadata.description == req.description
            &&& metadata.default_branch == req.default_branch_id
            &&& metadata.default_branch_name == req.default_branch_name
            &&& metadata.created == req.created
            &&& metadata.creator == req.creator
            &&& answers.by_id is None
            &&& answers.by_name is None
        },
        CreateActionView::CreateBranch { id, name, creator, created } => {
            &&& id == req.default_branch_id
            &&& name == req.default_branch_name
            &&& creator == req.creator
            &&& created == req.created
            &&& answers.metadata_stored is Ok
        },
        CreateActionView::StoreMetadataHash { hash } => answers.metadata_stored == Ok::<
            Seq<u8>,
            Seq<char>,
        >(hash),
        CreateActionView::StoreNameToId { name, id } => name == req.name && id == req.id,
        CreateActionView::LoadId { id } => id == req.id,
        CreateActionView::LoadName { name } => name == req.name,
        CreateActionView::CreateAuthResource { call } => {
            &&& req.auth_url == Some(call.auth_url)
            &&& call.authorization == req.authorization
            &&& call.resource_id == "urc-"@ + req.id.context.hex()
            &&& call.resource_name == req.name
        },
        CreateActionView::Finish { result } => match result {
            Ok(record) => match (answers.by_id, answers.by_name) {
                (Some(found), _) => record == found && found.metadata.name == req.name,
                (None, Some(found)) => record == found.record && found.id == req.id,
                (None, None) => {
                    &&& answers.metadata_stored == Ok::<Seq<u8>, Seq<char>>(record.hash)
                    &&& record.metadata.name == req.name
                    &&& record.metadata.description == req.description
                    &&& record.metadata.default_branch == req.default_branch_id
                    &&& record.metadata.default_branch_name == req.default_branch_name
                    &&& record.metadata.created == req.created
                    &&& record.metadata.creator == req.creator
                },
            },
            Err(_) => true,
        },
    }
}

spec fn is_reached(
    req: CreateRequestView,
    answers: CreateAnswers,
    state: CreateStateView,
    action: CreateActionView,
) -> bool {
    let is_new = answers.by_id is None && answers.by_name is None;
    &&& repository_create_v1::create_asks(state, action)
    &&& match state {
        CreateStateView::MappingById { record } => answers.by_id == Some(record)
            && record.metadata.name == req.name,
        CreateStateView::RepairById { record } => answers.by_id == Some(record)
            && record.metadata.name == req.name,
        CreateStateView::ByName => answers.by_id is None,
        CreateStateView::Metadata => is_new,
        CreateStateView::Branch { hash } => is_new && answers.metadata_stored == Ok::<
            Seq<u8>,
            Seq<char>,
        >(hash),
        CreateStateView::MetadataHash { hash } => is_new && answers.metadata_stored == Ok::<
            Seq<u8>,
            Seq<char>,
        >(hash),
        CreateStateView::Name { hash } => is_new && answers.metadata_stored == Ok::<
            Seq<u8>,
            Seq<char>,
        >(hash),
        CreateStateView::Authorize { record } => is_about(
            req,
            answers,
            CreateActionView::Finish { result: Ok(record) },
        ),
        _ => true,
    }
}

proof fn lemma_run_is_about(
    req: CreateRequestView,
    answers: CreateAnswers,
    state: CreateStateView,
    action: CreateActionView,
    n: nat,
    i: int,
)
    requires
        is_reached(req, answers, state, action),
        is_about(req, answers, action),
        0 <= i < repository_create_v1::create_run(req, answers, state, action, n).len(),
    ensures
        is_about(
            req,
            answers,
            repository_create_v1::create_run(req, answers, state, action, n)[i],
        ),
    decreases n,
{
    if i > 0 {
        let event = repository_create_v1::create_answer(answers, action);
        let next = repository_create_v1::create_step(req, state, event);
        assert(repository_create_v1::create_fits(state, event));
        repository_create_v1::create_never_stalls(
            Limits { max_name_len: 0, max_description_len: 0 },
            req,
            state,
            event,
        );
        assert(is_reached(req, answers, next.0, next.1));
        assert(is_about(req, answers, next.1));
        let rest = repository_create_v1::create_run(req, answers, next.0, next.1, (n - 1) as nat);
        assert(repository_create_v1::create_run(req, answers, state, action, n) == seq![action]
            + rest);
        lemma_run_is_about(req, answers, next.0, next.1, (n - 1) as nat, i - 1);
    }
}

/// Everything that a creation asks, from its first question to its outcome, is about the request. So
/// the metadata that is stored is that of the request, field by field, and so are the branch, the
/// recorded name and the call that records the owner; the metadata address that is stored is the one
/// that storing the metadata gave; and what is given back is the repository that was found, or the
/// new one.
pub proof fn whole_creation_is_about_the_request(
    limits: Limits,
    req: CreateRequestView,
    answers: CreateAnswers,
    i: int,
)
    requires
        0 <= i < repository_create_v1::create_trace(limits, req, answers).len(),
    ensures
        is_about(req, answers, repository_create_v1::create_trace(limits, req, answers)[i]),
{
    let first = repository_create_v1::create_begin(limits, req);
    repository_create_v1::create_never_stalls(
        limits,
        req,
        first.0,
        repository_create_v1::create_answer(answers, first.1),
    );
    lemma_run_is_about(req, answers, first.0, first.1, 7, i);
}

/// Whether a request is the one of a message that came `now`: each field of it is the field of the
/// same name in the message, and the creator is the user, unless no authorization service is
/// configured and the message names another.
pub open spec fn is_request_of(
    message: CreateMessage,
    user_id: Seq<char>,
    now: u64,
    auth_url: Option<String>,
    authorization: Option<String>,
    req: CreateRequest,
) -> bool {
    let names_another = message.creator is Some && message.creator->0@.len() > 0;
    &&& req.id == message.id
    &&& req.name@ == message.name@
    &&& req.description@ == message.description@
    &&& req.default_branch_id == message.default_branch_id
    &&& req.default_branch_name@ == message.default_branch_name@
    &&& req.created == now
    &&& auth_url is Some || !names_another ==> req.creator@ == user_id
    &&& auth_url is None && names_another ==> req.creator@ == message.creator->0@
    &&& creation_laws::same_option(req.auth_url, auth_url)
    &&& creation_laws::same_option(req.authorization, authorization)
}

} // verus!
