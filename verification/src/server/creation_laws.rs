//! What holds of every creation of a repository, said of the request, the answers and what is asked
//! next.
use vstd::prelude::*;

use crate::server::repository_create;
use crate::server::repository_create::{
    AuthCall, CreateAction, CreateActionView, CreateAnswers, CreateEvent, CreateMessage, CreateRequest,
    CreateRequestView, CreateState, CreateStateView, Limits, RepositoryData, RepositoryMetadata,
};
use crate::status::Code;
use crate::text;

verus! {

/// Whether `next` follows the answer `event` in `state`.
pub open spec fn create_follows(
    req: CreateRequest,
    state: CreateState,
    event: CreateEvent,
    next: (CreateState, CreateAction),
) -> bool {
    repository_create::create_fits(state@, event@) && (next.0@, next.1@)
        == repository_create::create_step(req@, state@, event@)
}

/// Whether a call makes the caller of the request the owner of the requested repository: it goes to
/// the configured service, with the credentials that came with the request, and names the resource
/// of the repository and the requested name.
pub open spec fn is_owner_call(req: CreateRequest, call: AuthCall) -> bool {
    &&& req.auth_url matches Some(url) && call.auth_url@ == url@
    &&& match (req.authorization, call.authorization) {
        (Some(given), Some(sent)) => sent@ == given@,
        (None, None) => true,
        _ => false,
    }
    &&& call.resource_id@ == "urc-"@ + req.id.context.hex()
    &&& call.resource_name@ == req.name@
}

/// Whether metadata is that of the request, field by field, apart from the creator.
pub open spec fn is_requested(req: CreateRequest, metadata: RepositoryMetadata) -> bool {
    &&& metadata.name@ == req.name@
    &&& metadata.description@ == req.description@
    &&& metadata.default_branch == req.default_branch_id
    &&& metadata.default_branch_name@ == req.default_branch_name@
    &&& metadata.created == req.created
}

/// Everything that a creation asks is about the request: each field of it is the field of the same
/// name in the request.
pub proof fn creation_asks_about_the_request(
    req: CreateRequest,
    state: CreateState,
    event: CreateEvent,
    next: (CreateState, CreateAction),
)
    requires
        create_follows(req, state, event, next),
    ensures
        match next.1 {
            CreateAction::QueryId { id } => id == req.id,
            CreateAction::QueryName { name } => name@ == req.name@,
            CreateAction::StoreNameToId { name, id } => name@ == req.name@ && id == req.id,
            CreateAction::StoreMetadata { metadata } => is_requested(req, metadata),
            CreateAction::CreateBranch { id, name, creator, created } => {
                &&& id == req.default_branch_id
                &&& name@ == req.default_branch_name@
                &&& creator@ == req.creator@
                &&& created == req.created
            },
            CreateAction::CreateAuthResource { call } => is_owner_call(req, call),
            _ => true,
        },
{
}

/// A new repository is attributed to the creator of the request, or, where it names none, to the
/// user on whose behalf this runs; and it is new only where neither its identifier nor its name is
/// known.
pub proof fn new_repository_has_its_creator(
    req: CreateRequest,
    state: CreateState,
    event: CreateEvent,
    next: (CreateState, CreateAction),
)
    requires
        create_follows(req, state, event, next),
    ensures
        next.1 matches CreateAction::StoreMetadata { metadata } ==> {
            &&& next.0 is Metadata
            &&& match (state, event) {
                (CreateState::ByName, CreateEvent::Found { data }) => data is None
                    && req.creator@.len() > 0 && metadata.creator@ == req.creator@,
                (CreateState::Creator, CreateEvent::User { id }) => metadata.creator@ == id@,
                _ => false,
            }
        },
        next.1 is CurrentUser ==> {
            &&& next.0 is Creator
            &&& state is ByName
            &&& event matches CreateEvent::Found { data } && data is None
            &&& req.creator@.len() == 0
        },
        next.1 is QueryName ==> match (state, event) {
            (CreateState::ById, CreateEvent::Found { data: None }) => next.0 is ByName,
            (CreateState::ById, CreateEvent::Found { data: Some(data) }) => data.name@ == req.name@
                && req.auth_url is None && (next.0 matches CreateState::MappingById { data: kept }
                && same_data(kept, data)),
            (
                CreateState::OwnerById { data },
                CreateEvent::Metadata { result: Ok(metadata) },
            ) => metadata.creator@ == req.creator@ && (next.0 matches CreateState::MappingById {
                data: kept,
            } && same_data(kept, data)),
            _ => false,
        },
{
}

/// Whether two records of a repository are the same.
pub open spec fn same_data(a: RepositoryData, b: RepositoryData) -> bool {
    a.id == b.id && a.name@ == b.name@ && a.metadata.bytes@ == b.metadata.bytes@
}

/// A new repository is stored step by step, and each step is taken only after the one before it
/// succeeded: metadata, branch, metadata address, name, owner. A branch that is there already counts
/// as created. The address that is stored, and given back, is the one under which the metadata was
/// stored.
pub proof fn storing_goes_step_by_step(
    req: CreateRequest,
    state: CreateState,
    event: CreateEvent,
    next: (CreateState, CreateAction),
)
    requires
        create_follows(req, state, event, next),
    ensures
        match (state, event) {
            (CreateState::Metadata, CreateEvent::MetadataStored { result: Ok(hash) }) => {
                &&& next.1 is CreateBranch
                &&& next.0 matches CreateState::Branch { hash: kept } && kept.bytes@ == hash.bytes@
            },
            (CreateState::Branch { hash }, CreateEvent::BranchCreated { result }) => {
                if result is Ok || result->Err_0.already_exists {
                    &&& next.1 matches CreateAction::StoreMetadataHash { hash: stored }
                        && stored.bytes@ == hash.bytes@
                    &&& next.0 matches CreateState::MetadataHash { hash: kept } && kept.bytes@
                        == hash.bytes@
                } else {
                    next.1 is Finish
                }
            },
            (CreateState::MetadataHash { hash }, CreateEvent::HashStored { result: Ok(_) }) => {
                &&& next.1 is StoreNameToId
                &&& next.0 matches CreateState::Name { hash: kept } && kept.bytes@ == hash.bytes@
            },
            (CreateState::Name { hash }, CreateEvent::NameStored { result: Ok(_) }) => {
                if req.auth_url is Some {
                    &&& next.1 is CreateAuthResource
                    &&& next.0 matches CreateState::AuthorizeNew { hash: kept } && kept.bytes@
                        == hash.bytes@
                } else {
                    next.1 matches CreateAction::Finish { result: Ok(data) } && data.id == req.id
                        && data.name@ == req.name@ && data.metadata.bytes@ == hash.bytes@
                }
            },
            (CreateState::AuthorizeNew { hash }, CreateEvent::AuthResource { result: Ok(_) }) => {
                next.1 matches CreateAction::Finish { result: Ok(data) } && data.id == req.id
                    && data.name@ == req.name@ && data.metadata.bytes@ == hash.bytes@
            },
            _ => {
                &&& !(next.1 is CreateBranch)
                &&& !(next.1 is StoreMetadataHash)
                &&& next.0 is AuthorizeNew ==> false
            },
        },
{
}

/// An existing repository is taken for the requested one only where its identifier and its name are
/// both the requested ones and, where an authorization service is configured, its creator is the one
/// of the request. It is given back as it was found, and a name that was not recorded is recorded.
pub proof fn existing_repository_must_match(
    req: CreateRequest,
    state: CreateState,
    event: CreateEvent,
    next: (CreateState, CreateAction),
)
    requires
        create_follows(req, state, event, next),
    ensures
        match (state, event) {
            (CreateState::ById, CreateEvent::Found { data: Some(data) }) => if data.name@
                != req.name@ {
                next.1 matches CreateAction::Finish { result: Err(status) } && status.code
                    == Code::AlreadyExists && status.message@ == "Repository "@
                    + req.id.context.hex() + " already exist with name "@ + data.name@
                    + " which does not match "@ + req.name@
            } else {
                req.auth_url is Some ==> {
                    &&& next.1 matches CreateAction::LoadMetadata { hash } && hash.bytes@
                        == data.metadata.bytes@
                    &&& next.0 matches CreateState::OwnerById { data: kept } && same_data(
                        kept,
                        data,
                    )
                }
            },
            (CreateState::ByName, CreateEvent::Found { data: Some(data) }) => if data.id != req.id {
                next.1 matches CreateAction::Finish { result: Err(status) } && status.code
                    == Code::AlreadyExists && status.message@ == "Repository "@ + req.name@
                    + " already exist with id "@ + data.id.context.hex()
                    + " which does not match "@ + req.id.context.hex()
            } else if req.auth_url is Some {
                &&& next.1 matches CreateAction::LoadMetadata { hash } && hash.bytes@
                    == data.metadata.bytes@
                &&& next.0 matches CreateState::OwnerByName { data: kept } && same_data(kept, data)
            } else {
                next.1 matches CreateAction::Finish { result: Ok(given) } && same_data(given, data)
            },
            (CreateState::OwnerById { data }, CreateEvent::Metadata { result: Ok(metadata) }) => {
                if metadata.creator@ != req.creator@ {
                    next.1 matches CreateAction::Finish { result: Err(status) } && status.code
                        == Code::PermissionDenied && status.message@
                        == "Repository is owned by another subject"@
                } else {
                    next.1 is QueryName
                }
            },
            (CreateState::OwnerByName { data }, CreateEvent::Metadata { result: Ok(metadata) }) => {
                if metadata.creator@ != req.creator@ {
                    next.1 matches CreateAction::Finish { result: Err(status) } && status.code
                        == Code::PermissionDenied && status.message@
                        == "Repository is owned by another subject"@
                } else {
                    authorizes(req, data, next)
                }
            },
            (CreateState::MappingById { data }, CreateEvent::Found { data: found }) => {
                if found is None {
                    &&& next.1 is StoreNameToId
                    &&& next.0 matches CreateState::RepairById { data: kept } && same_data(
                        kept,
                        data,
                    )
                } else {
                    authorizes(req, data, next)
                }
            },
            (CreateState::RepairById { data }, CreateEvent::NameStored { .. }) => authorizes(
                req,
                data,
                next,
            ),
            (CreateState::AuthorizeExisting { data }, CreateEvent::AuthResource { result: Ok(_) }) => {
                next.1 matches CreateAction::Finish { result: Ok(given) } && same_data(given, data)
            },
            _ => true,
        },
{
}

/// Whether the caller is made the owner of an existing repository next, where an authorization
/// service is configured, and the repository is given back at once where none is.
pub open spec fn authorizes(
    req: CreateRequest,
    data: RepositoryData,
    next: (CreateState, CreateAction),
) -> bool {
    if req.auth_url is Some {
        &&& next.1 is CreateAuthResource
        &&& next.0 matches CreateState::AuthorizeExisting { data: kept } && same_data(kept, data)
    } else {
        next.1 matches CreateAction::Finish { result: Ok(given) } && same_data(given, data)
    }
}

/// Whether `next` is the end of a creation, with an internal error of this text.
pub open spec fn fails_with(next: (CreateState, CreateAction), message: Seq<char>) -> bool {
    &&& next.0 is Finished
    &&& next.1 matches CreateAction::Finish { result: Err(status) } && status.code
        == Code::Internal && status.message@ == message
}

/// What fails is reported, with what it was and why; the refusal of the authorization service is
/// handed on as it is. Success comes from no answer that is a failure, but for a name of an existing
/// repository that could not be recorded.
pub proof fn failed_steps_are_reported(
    req: CreateRequest,
    state: CreateState,
    event: CreateEvent,
    next: (CreateState, CreateAction),
)
    requires
        create_follows(req, state, event, next),
    ensures
        match event {
            CreateEvent::Metadata { result: Err(detail) } => fails_with(
                next,
                "Failed to load existing repository metadata: "@ + detail@,
            ),
            CreateEvent::MetadataStored { result: Err(detail) } => fails_with(
                next,
                "Failed to serialize repository metadata: "@ + detail@,
            ),
            CreateEvent::BranchCreated { result: Err(failure) } => !failure.already_exists
                ==> fails_with(next, "Failed to create default branch: "@ + failure.detail@),
            CreateEvent::HashStored { result: Err(detail) } => fails_with(
                next,
                "Failed to store metadata hash for "@ + req.name@ + "/"@ + req.id.context.hex()
                    + ": "@ + detail@,
            ),
            CreateEvent::NameStored { result: Err(detail) } => state is Name ==> fails_with(
                next,
                "Failed to store name to ID lookup for "@ + req.name@ + " -> "@
                    + req.id.context.hex() + ": "@ + detail@,
            ),
            CreateEvent::AuthResource { result: Err(refused) } => {
                &&& next.0 is Finished
                &&& next.1 matches CreateAction::Finish { result: Err(status) } && status.code
                    == refused.code && status.message@ == refused.message@
            },
            _ => true,
        },
{
}

/// A request is looked at exactly where no text of it is longer than it may be, its name may name a
/// repository, and its name is not the identifier of another one.
pub proof fn acceptable_request_is_looked_up(
    req: CreateRequest,
    limits: Limits,
    next: (CreateState, CreateAction),
)
    requires
        (next.0@, next.1@) == repository_create::create_begin(limits, req@),
    ensures
        ({
            let fits = {
                &&& text::utf8_len(req.name@) <= limits.max_name_len
                &&& text::utf8_len(req.description@) <= limits.max_description_len
                &&& text::utf8_len(req.default_branch_name@) <= limits.max_name_len
                &&& text::utf8_len(req.creator@) <= limits.max_name_len
            };
            let named = req.name_is_valid && (req.name_id matches Some(id) ==> id.value == 0 || id
                == req.id.context);
            if fits && named {
                next.0 is ById && (next.1 matches CreateAction::QueryId { id } && id == req.id)
            } else {
                next.0 is Finished && (next.1 matches CreateAction::Finish { result: Err(status) }
                    && status.code == Code::InvalidArgument && (fits ==> status.message@
                    == "Invalid repository name"@))
            }
        }),
{
}

/// The first text that is too long is the one that is reported, with the length that it may have.
pub proof fn too_long_texts_are_named(
    req: CreateRequest,
    limits: Limits,
    next: (CreateState, CreateAction),
)
    requires
        (next.0@, next.1@) == repository_create::create_begin(limits, req@),
    ensures
        ({
            let reported = |what: Seq<char>, limit: usize|
                next.1 matches CreateAction::Finish { result: Err(status) } && status.message@
                    == what + " exceeds maximum length of "@ + text::decimal(limit as nat)
                    + " bytes"@;
            if text::utf8_len(req.name@) > limits.max_name_len {
                reported("Repository name"@, limits.max_name_len)
            } else if text::utf8_len(req.description@) > limits.max_description_len {
                reported("Repository description"@, limits.max_description_len)
            } else if text::utf8_len(req.default_branch_name@) > limits.max_name_len {
                reported("Branch name"@, limits.max_name_len)
            } else if text::utf8_len(req.creator@) > limits.max_name_len {
                reported("Creator"@, limits.max_name_len)
            } else {
                true
            }
        }),
{
}

/// A creation is attributed to the verified user where an authorization service is configured or the
/// message names no creator; else to the one that it names.
pub proof fn creator_is_the_user_or_the_named_one(
    auth_url: Option<Seq<char>>,
    requested: Seq<char>,
    user_id: Seq<char>,
)
    ensures
        auth_url is Some ==> repository_create::creator_of(auth_url, requested, user_id) == user_id,
        requested.len() == 0 ==> repository_create::creator_of(auth_url, requested, user_id)
            == user_id,
        auth_url is None && requested.len() > 0 ==> repository_create::creator_of(
            auth_url,
            requested,
            user_id,
        ) == requested,
{
}

/// Whether `action` is about the request, given the answers: each field of it is the field of the
/// same name in the request, or was answered.
pub open spec fn is_about(
    req: CreateRequestView,
    answers: CreateAnswers,
    action: CreateActionView,
) -> bool {
    match action {
        CreateActionView::StoreMetadata { metadata } => {
            &&& metadata.name == req.name
            &&& metadata.description == req.description
            &&& metadata.default_branch == req.default_branch_id
            &&& metadata.default_branch_name == req.default_branch_name
            &&& metadata.created == req.created
            &&& metadata.creator == (if req.creator.len() > 0 {
                req.creator
            } else {
                answers.user
            })
            &&& answers.by_id is None
            &&& answers.by_name is None
        },
        CreateActionView::CreateBranch { id, name, creator, created } => {
            &&& id == req.default_branch_id
            &&& name == req.default_branch_name
            &&& creator == req.creator
            &&& created == req.created
            &&& answers.metadata_stored is Ok
        },
        CreateActionView::StoreMetadataHash { hash } => answers.metadata_stored == Ok::<
            Seq<u8>,
            Seq<char>,
        >(hash),
        CreateActionView::StoreNameToId { name, id } => name == req.name && id == req.id,
        CreateActionView::QueryId { id } => id == req.id,
        CreateActionView::QueryName { name } => name == req.name,
        CreateActionView::LoadMetadata { hash } => match (answers.by_id, answers.by_name) {
            (Some(data), _) => hash == data.metadata,
            (None, Some(data)) => hash == data.metadata,
            (None, None) => false,
        },
        CreateActionView::CreateAuthResource { call } => {
            &&& req.auth_url == Some(call.auth_url)
            &&& call.authorization == req.authorization
            &&& call.resource_id == "urc-"@ + req.id.context.hex()
            &&& call.resource_name == req.name
        },
        CreateActionView::CurrentUser => req.creator.len() == 0,
        CreateActionView::Finish { result } => match result {
            Ok(data) => match (answers.by_id, answers.by_name) {
                (Some(found), _) => data == found && found.name == req.name,
                (None, Some(found)) => data == found && found.id == req.id,
                (None, None) => data.id == req.id && data.name == req.name
                    && answers.metadata_stored == Ok::<Seq<u8>, Seq<char>>(data.metadata),
            },
            Err(_) => true,
        },
    }
}

spec fn is_reached(
    req: CreateRequestView,
    answers: CreateAnswers,
    state: CreateStateView,
    action: CreateActionView,
) -> bool {
    let is_new = answers.by_id is None && answers.by_name is None;
    &&& repository_create::create_asks(state, action)
    &&& match state {
        CreateStateView::ById => action is QueryId,
        CreateStateView::OwnerById { data } => answers.by_id == Some(data) && data.name == req.name
            && action is LoadMetadata,
        CreateStateView::MappingById { data } => answers.by_id == Some(data) && data.name
            == req.name && action is QueryName,
        CreateStateView::RepairById { data } => answers.by_id == Some(data) && data.name
            == req.name,
        CreateStateView::ByName => answers.by_id is None && action is QueryName,
        CreateStateView::OwnerByName { data } => answers.by_id is None && answers.by_name == Some(
            data,
        ) && data.id == req.id,
        CreateStateView::AuthorizeExisting { data } => match answers.by_id {
            Some(found) => data == found && found.name == req.name,
            None => answers.by_name == Some(data) && data.id == req.id,
        },
        CreateStateView::Creator => is_new && req.creator.len() == 0,
        CreateStateView::Metadata => is_new,
        CreateStateView::Branch { hash } => is_new && answers.metadata_stored == Ok::<
            Seq<u8>,
            Seq<char>,
        >(hash),
        CreateStateView::MetadataHash { hash } => is_new && answers.metadata_stored == Ok::<
            Seq<u8>,
            Seq<char>,
        >(hash),
        CreateStateView::Name { hash } => is_new && answers.metadata_stored == Ok::<
            Seq<u8>,
            Seq<char>,
        >(hash),
        CreateStateView::AuthorizeNew { hash } => is_new && answers.metadata_stored == Ok::<
            Seq<u8>,
            Seq<char>,
        >(hash),
        CreateStateView::Finished => true,
    }
}

proof fn lemma_run_is_about(
    req: CreateRequestView,
    answers: CreateAnswers,
    state: CreateStateView,
    action: CreateActionView,
    n: nat,
    i: int,
)
    requires
        is_reached(req, answers, state, action),
        is_about(req, answers, action),
        0 <= i < repository_create::create_run(req, answers, state, action, n).len(),
    ensures
        is_about(
            req,
            answers,
            repository_create::create_run(req, answers, state, action, n)[i],
        ),
    decreases n,
{
    if i > 0 {
        let event = repository_create::create_answer(answers, action);
        let next = repository_create::create_step(req, state, event);
        assert(repository_create::create_fits(state, event));
        repository_create::create_never_stalls(
            Limits { max_name_len: 0, max_description_len: 0 },
            req,
            state,
            event,
        );
        assert(is_reached(req, answers, next.0, next.1));
        assert(is_about(req, answers, next.1));
        let rest = repository_create::create_run(req, answers, next.0, next.1, (n - 1) as nat);
        assert(repository_create::create_run(req, answers, state, action, n) == seq![action] + rest);
        lemma_run_is_about(req, answers, next.0, next.1, (n - 1) as nat, i - 1);
    }
}

/// Everything that a creation asks, from its first question to its outcome, is about the request. So
/// the metadata that is stored is that of the request, field by field, and so are the branch, the
/// recorded name and the call that records the owner; the metadata address that is stored is the one
/// that storing the metadata gave; and what is given back is the repository that was found, or the
/// new one.
pub proof fn whole_creation_is_about_the_request(
    limits: Limits,
    req: CreateRequestView,
    answers: CreateAnswers,
    i: int,
)
    requires
        0 <= i < repository_create::create_trace(limits, req, answers).len(),
    ensures
        is_about(req, answers, repository_create::create_trace(limits, req, answers)[i]),
{
    let first = repository_create::create_begin(limits, req);
    repository_create::create_never_stalls(
        limits,
        req,
        first.0,
        repository_create::create_answer(answers, first.1),
    );
    lemma_run_is_about(req, answers, first.0, first.1, 8, i);
}

/// Whether two optional texts are the same.
pub open spec fn same_option(a: Option<String>, b: Option<String>) -> bool {
    match (a, b) {
        (Some(a), Some(b)) => a@ == b@,
        (None, None) => true,
        _ => false,
    }
}

/// Whether a request is the one of a message: each field of it is the field of the same name in the
/// message, and the creator is the user, unless no authorization service is configured and the
/// message names another.
pub open spec fn is_request_of(
    message: CreateMessage,
    user_id: Seq<char>,
    auth_url: Option<String>,
    authorization: Option<String>,
    req: CreateRequest,
) -> bool {
    &&& req.id == message.id
    &&& req.name@ == message.name@
    &&& req.description@ == message.description@
    &&& req.default_branch_id == message.default_branch_id
    &&& req.default_branch_name@ == message.default_branch_name@
    &&& req.created == message.created
    &&& auth_url is Some || message.creator@.len() == 0 ==> req.creator@ == user_id
    &&& auth_url is None && message.creator@.len() > 0 ==> req.creator@ == message.creator@
    &&& same_option(req.auth_url, auth_url)
    &&& same_option(req.authorization, authorization)
}

} // verus!
