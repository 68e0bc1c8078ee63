use lore_auth::ids::{Context, RepositoryId};
use lore_auth::server::jwt::AuthorizationToken;
use lore_auth::server::rebac::{
    repository_confirm_auth_resource_deleted, repository_create_auth_resource,
    repository_delete_auth_resource, RebacFailure,
};
use lore_auth::server::repository_create::{
    handler, select_creator, validate_create_input, Address, BranchFailure, CreateAction,
    CreateEvent, CreateMessage, CreateRequest, CreateState, Limits, RepositoryData,
    RepositoryMetadata,
};
use lore_auth::server::repository_create_v1;
use lore_auth::server::repository_create_v1::{NamedRecord, RepositoryRecord};
use lore_auth::server::repository_delete;
use lore_auth::server::repository_delete::{DeleteAction, DeleteEvent, DeleteRequest};
use lore_auth::status::{Code, Status};

const MAX_NAME_LEN: usize = 256;
const MAX_DESCRIPTION_LEN: usize = 4096;

fn limits() -> Limits {
    Limits { max_name_len: MAX_NAME_LEN, max_description_len: MAX_DESCRIPTION_LEN }
}

#[test]
fn repository_create_accepts_valid_input() {
    validate_create_input(limits(), "my-repo", "a description", "main", "alice")
        .expect("valid input should pass");
}

#[test]
fn repository_create_accepts_name_at_max_length() {
    let name = "a".repeat(MAX_NAME_LEN);
    validate_create_input(limits(), &name, "desc", "main", "alice")
        .expect("name at exactly MAX_NAME_LEN should pass");
}

#[test]
fn repository_create_rejects_oversized_repository_name() {
    let long_name = "a".repeat(MAX_NAME_LEN + 1);
    let err = validate_create_input(limits(), &long_name, "desc", "main", "alice")
        .expect_err("should reject oversized name");
    assert_eq!(err.code, Code::InvalidArgument);
    assert_eq!(err.message, "Repository name exceeds maximum length of 256 bytes");
}

#[test]
fn repository_create_rejects_oversized_description() {
    let long_desc = "a".repeat(MAX_DESCRIPTION_LEN + 1);
    let err = validate_create_input(limits(), "my-repo", &long_desc, "main", "alice")
        .expect_err("should reject oversized description");
    assert_eq!(err.code, Code::InvalidArgument);
    assert_eq!(err.message, "Repository description exceeds maximum length of 4096 bytes");
}

#[test]
fn repository_create_rejects_oversized_branch_name() {
    let long_branch = "a".repeat(MAX_NAME_LEN + 1);
    let err = validate_create_input(limits(), "my-repo", "desc", &long_branch, "alice")
        .expect_err("should reject oversized branch name");
    assert_eq!(err.code, Code::InvalidArgument);
    assert!(err.message.contains("Branch name exceeds maximum length"));
}

#[test]
fn repository_create_rejects_oversized_creator() {
    let long_creator = "a".repeat(MAX_NAME_LEN + 1);
    let err = validate_create_input(limits(), "my-repo", "desc", "main", &long_creator)
        .expect_err("should reject oversized creator");
    assert_eq!(err.code, Code::InvalidArgument);
    assert!(err.message.contains("Creator exceeds maximum length"));
}

#[test]
fn lengths_are_counted_in_bytes() {
    let name = "\u{e9}".repeat(MAX_NAME_LEN / 2);
    assert!(validate_create_input(limits(), &name, "", "", "").is_ok());
    let name = "\u{e9}".repeat(MAX_NAME_LEN / 2 + 1);
    assert!(validate_create_input(limits(), &name, "", "", "").is_err());
}

fn refused(code: Code, message: &str) -> Result<(), RebacFailure> {
    Err(RebacFailure {
        code,
        message: message.to_string(),
        rendered: format!("status: {code:?}, message: {message:?}"),
    })
}

#[test]
fn permission_denied_propagated_to_client() {
    let error = repository_create_auth_resource(refused(Code::PermissionDenied, ""))
        .expect_err("Should have errored");
    assert_eq!(error.code, Code::PermissionDenied);
    assert_eq!(error.message, "Failed to create repository, permission denied");
}

#[test]
fn missing_auth_dependencies_returns_failed_precondition() {
    let error = repository_create_auth_resource(refused(Code::NotFound, ""))
        .expect_err("Should have errored");
    assert_eq!(error.code, Code::FailedPrecondition);
    assert_eq!(error.message, "A required Auth entity was not found");
}

#[test]
fn invalid_repository_name_returns_invalid_argument() {
    let reply = refused(Code::InvalidArgument, "Missing resource context in resourceName");
    let error = repository_create_auth_resource(reply).expect_err("Should have errored");
    assert_eq!(error.code, Code::InvalidArgument);
    assert_eq!(error.message, "Invalid repository name - missing Organization context");
}

#[test]
fn already_exists_treated_as_success() {
    repository_create_auth_resource(refused(Code::AlreadyExists, ""))
        .expect("AlreadyExists should be treated as success");
}

#[test]
fn other_errors_return_internal_error() {
    let reply = refused(Code::InvalidArgument, "You used my api wrong!");
    let error = repository_create_auth_resource(reply).expect_err("Should have errored");
    assert_eq!(error.code, Code::Internal);
    assert!(error.message.contains("Failed to call auth create_resource"));
    assert!(error.message.contains("You used my api wrong!"));
}

#[test]
fn a_missing_login_is_passed_on() {
    let error = repository_create_auth_resource(refused(Code::Unauthenticated, "")).unwrap_err();
    assert_eq!(error.code, Code::Unauthenticated);
    assert_eq!(error.message, "Failed to create repository, reauthenticate");
    assert!(repository_create_auth_resource(Ok(())).is_ok());
}

#[test]
fn refused_deletions_are_passed_on() {
    let error = repository_delete_auth_resource(refused(Code::PermissionDenied, "")).unwrap_err();
    assert_eq!(error.code, Code::PermissionDenied);
    assert_eq!(error.message, "Delete resource denied");
    let error = repository_delete_auth_resource(refused(Code::Unauthenticated, "")).unwrap_err();
    assert_eq!(error.code, Code::Unauthenticated);
    assert_eq!(error.message, "Delete resource failed - unauthenticated");
    let error = repository_delete_auth_resource(refused(Code::NotFound, "x")).unwrap_err();
    assert_eq!(error.code, Code::Internal);
    assert!(error.message.starts_with("Failed to call auth delete_resource: "));
    assert!(repository_delete_auth_resource(Ok(())).is_ok());
    for code in [Code::PermissionDenied, Code::Unauthenticated] {
        let error = repository_confirm_auth_resource_deleted(refused(code, "")).unwrap_err();
        assert_eq!(error.code, Code::PermissionDenied);
        assert_eq!(error.message, "Repository deletion confirmation denied");
    }
    let error =
        repository_confirm_auth_resource_deleted(refused(Code::Unavailable, "x")).unwrap_err();
    assert_eq!(error.code, Code::Internal);
    assert!(error.message.starts_with("Failed to confirm auth resource deletion: "));
    assert!(repository_confirm_auth_resource_deleted(Ok(())).is_ok());
}

const ID: &str = "2fc8bf934117e250152eba9a1fc78e71";

fn id() -> RepositoryId {
    Context::from_hex(ID).unwrap().into()
}

fn request(auth: bool) -> CreateRequest {
    let message = CreateMessage {
        id: id(),
        name: "repo".to_string(),
        description: "desc".to_string(),
        default_branch_id: Context { value: 5 },
        default_branch_name: "main".to_string(),
        creator: "alice".to_string(),
        created: 77,
    };
    let auth_url = if auth { Some("https://auth".to_string()) } else { None };
    handler(message, true, None, "alice", auth_url, Some("Bearer x".to_string()))
}

fn metadata(creator: &str) -> RepositoryMetadata {
    RepositoryMetadata {
        name: "repo".to_string(),
        description: "desc".to_string(),
        default_branch: Context { value: 5 },
        default_branch_name: "main".to_string(),
        creator: creator.to_string(),
        created: 77,
    }
}

fn address() -> Address {
    Address { bytes: vec![4, 2] }
}

fn data(id: RepositoryId, name: &str) -> RepositoryData {
    RepositoryData { id, name: name.to_string(), metadata: address() }
}

// What the surroundings know and how they answer.
struct World {
    by_id: Option<&'static str>,
    by_name: Option<RepositoryId>,
    creator: &'static str,
    branch: Result<(), bool>,
    failing: &'static str,
    auth: Code,
}

impl World {
    fn empty() -> World {
        World {
            by_id: None,
            by_name: None,
            creator: "alice",
            branch: Ok(()),
            failing: "",
            auth: Code::Success,
        }
    }

    fn stored(&self, what: &str) -> Result<(), String> {
        if self.failing == what {
            Err("disk full".to_string())
        } else {
            Ok(())
        }
    }

    fn authorized(&self) -> Result<(), Status> {
        if self.auth == Code::Success {
            Ok(())
        } else {
            Err(Status::new(self.auth, "refused"))
        }
    }

    fn branch(&self) -> Result<(), BranchFailure> {
        self.branch.map_err(|already_exists| BranchFailure {
            already_exists,
            detail: "no branch".to_string(),
        })
    }
}

fn create(req: &CreateRequest, world: &World) -> (Vec<String>, Result<RepositoryData, Status>) {
    let mut asked = vec![];
    let (mut state, mut action): (CreateState, CreateAction) = req.handle(limits(), Ok(()));
    loop {
        let event = match action {
            CreateAction::QueryId { id } => {
                asked.push("id".to_string());
                CreateEvent::Found { data: world.by_id.map(|name| data(id, name)) }
            }
            CreateAction::QueryName { name } => {
                asked.push("name".to_string());
                CreateEvent::Found { data: world.by_name.map(|id| data(id, &name)) }
            }
            CreateAction::LoadMetadata { hash } => {
                asked.push(format!("load {:?}", hash.bytes));
                CreateEvent::Metadata { result: Ok(metadata(world.creator)) }
            }
            CreateAction::CurrentUser => {
                asked.push("user".to_string());
                CreateEvent::User { id: "current".to_string() }
            }
            CreateAction::StoreNameToId { name, id } => {
                asked.push(format!("map {name} {}", id.to_hex()));
                CreateEvent::NameStored { result: world.stored("map") }
            }
            CreateAction::StoreMetadata { metadata } => {
                asked.push(format!("metadata by {} at {}", metadata.creator, metadata.created));
                CreateEvent::MetadataStored { result: world.stored("metadata").map(|()| address()) }
            }
            CreateAction::CreateBranch { id, name, creator, created } => {
                asked.push(format!("branch {} {name} {creator} {created}", id.value));
                CreateEvent::BranchCreated { result: world.branch() }
            }
            CreateAction::StoreMetadataHash { hash } => {
                asked.push(format!("hash {:?}", hash.bytes));
                CreateEvent::HashStored { result: world.stored("hash") }
            }
            CreateAction::CreateAuthResource { call } => {
                asked.push(format!(
                    "owner {} {} {} {:?}",
                    call.auth_url, call.resource_id, call.resource_name, call.authorization
                ));
                CreateEvent::AuthResource { result: world.authorized() }
            }
            CreateAction::Finish { result } => return (asked, result),
        };
        let next = req.step(state, event);
        state = next.0;
        action = next.1;
    }
}

const MAPPED: &str = "map repo 2fc8bf934117e250152eba9a1fc78e71";
const OWNER: &str =
    "owner https://auth urc-2fc8bf934117e250152eba9a1fc78e71 repo Some(\"Bearer x\")";

#[test]
fn a_repository_is_stored_before_its_owner() {
    let (asked, result) = create(&request(true), &World::empty());
    assert_eq!(
        asked,
        vec![
            "id",
            "name",
            "metadata by alice at 77",
            "branch 5 main alice 77",
            "hash [4, 2]",
            MAPPED,
            OWNER
        ]
    );
    let made = result.unwrap();
    assert!(made.id == id());
    assert_eq!(made.name, "repo");
    assert_eq!(made.metadata.bytes, vec![4, 2]);
    let (asked, result) = create(&request(false), &World::empty());
    assert_eq!(asked.len(), 6);
    assert!(result.is_ok());
}

#[test]
fn an_existing_repository_is_given_back() {
    let known = World { by_id: Some("repo"), by_name: Some(id()), ..World::empty() };
    let (asked, result) = create(&request(false), &known);
    assert_eq!(asked, vec!["id", "name"]);
    assert_eq!(result.unwrap().name, "repo");
    let (asked, result) = create(&request(true), &known);
    assert_eq!(asked, vec!["id", "load [4, 2]", "name", OWNER]);
    assert!(result.is_ok());
    let unmapped = World { by_id: Some("repo"), failing: "map", ..World::empty() };
    let (asked, result) = create(&request(false), &unmapped);
    assert_eq!(asked, vec!["id", "name", MAPPED]);
    assert!(result.is_ok());
    let by_name = World { by_name: Some(id()), ..World::empty() };
    let (asked, result) = create(&request(true), &by_name);
    assert_eq!(asked, vec!["id", "name", "load [4, 2]", OWNER]);
    assert!(result.is_ok());
}

#[test]
fn a_repository_of_another_subject_is_refused() {
    for world in [
        World { by_id: Some("repo"), creator: "bob", ..World::empty() },
        World { by_name: Some(id()), creator: "bob", ..World::empty() },
    ] {
        let (asked, result) = create(&request(true), &world);
        assert!(!asked.iter().any(|line| line.starts_with("map") || line.starts_with("owner")));
        let error = result.unwrap_err();
        assert_eq!(error.code, Code::PermissionDenied);
        assert_eq!(error.message, "Repository is owned by another subject");
        assert!(create(&request(false), &world).1.is_ok());
    }
}

#[test]
fn names_and_identifiers_must_agree() {
    let renamed = World { by_id: Some("old"), ..World::empty() };
    let error = create(&request(false), &renamed).1.unwrap_err();
    assert_eq!(error.code, Code::AlreadyExists);
    assert_eq!(
        error.message,
        format!("Repository {ID} already exist with name old which does not match repo")
    );
    let other: RepositoryId = Context { value: 1 }.into();
    let taken = World { by_name: Some(other), ..World::empty() };
    let error = create(&request(false), &taken).1.unwrap_err();
    assert_eq!(error.code, Code::AlreadyExists);
    assert_eq!(
        error.message,
        format!(
            "Repository repo already exist with id {} which does not match {ID}",
            other.to_hex()
        )
    );
}

#[test]
fn failures_of_the_storage_are_reported() {
    for (failing, message) in [
        ("metadata", "Failed to serialize repository metadata: disk full".to_string()),
        ("hash", format!("Failed to store metadata hash for repo/{ID}: disk full")),
        ("map", format!("Failed to store name to ID lookup for repo -> {ID}: disk full")),
    ] {
        let world = World { failing, ..World::empty() };
        let (asked, result) = create(&request(true), &world);
        assert!(!asked.iter().any(|line| line.starts_with("owner")));
        let error = result.unwrap_err();
        assert_eq!((error.code, error.message), (Code::Internal, message));
    }
    let no_branch = World { branch: Err(false), ..World::empty() };
    let error = create(&request(true), &no_branch).1.unwrap_err();
    assert_eq!(error.message, "Failed to create default branch: no branch");
    let old_branch = World { branch: Err(true), ..World::empty() };
    assert!(create(&request(true), &old_branch).1.is_ok());
    let denied = World { auth: Code::PermissionDenied, ..World::empty() };
    let error = create(&request(true), &denied).1.unwrap_err();
    assert_eq!((error.code, error.message.as_str()), (Code::PermissionDenied, "refused"));
}

#[test]
fn refused_requests_ask_nothing() {
    let mut req = request(false);
    req.name_is_valid = false;
    let (asked, result) = create(&req, &World::empty());
    assert!(asked.is_empty());
    let error = result.unwrap_err();
    assert_eq!((error.code, error.message.as_str()), (Code::InvalidArgument, "Invalid repository name"));
    let mut req = request(false);
    req.name_id = Some(Context { value: 9 });
    assert!(create(&req, &World::empty()).1.is_err());
    req.name_id = Some(Context { value: 0 });
    assert!(create(&req, &World::empty()).1.is_ok());
    req.name_id = Context::from_hex(ID);
    assert!(create(&req, &World::empty()).1.is_ok());
    let hooks = Err(Status::new(Code::Aborted, "hook"));
    match request(false).handle(limits(), hooks).1 {
        CreateAction::Finish { result: Err(status) } => assert_eq!(status.code, Code::Aborted),
        _ => panic!("a hook stops the request"),
    }
}

#[test]
fn creators_cannot_be_chosen_where_users_are_known() {
    let auth = Some("https://auth".to_string());
    assert_eq!(select_creator(&auth, "mallory", "alice"), "alice");
    assert_eq!(select_creator(&None, "mallory", "alice"), "mallory");
    assert_eq!(select_creator(&None, "", "alice"), "alice");
    let chosen = Some("mallory".to_string());
    assert_eq!(repository_create_v1::select_creator(&auth, chosen.clone(), "alice"), "alice");
    assert_eq!(repository_create_v1::select_creator(&None, chosen, "alice"), "mallory");
    assert_eq!(repository_create_v1::select_creator(&None, Some(String::new()), "alice"), "alice");
    assert_eq!(repository_create_v1::select_creator(&None, None, "alice"), "alice");
}

#[test]
fn an_unnamed_creator_is_the_current_user() {
    let mut req = request(false);
    req.creator = String::new();
    let (asked, result) = create(&req, &World::empty());
    assert!(asked.contains(&"user".to_string()));
    assert!(asked.contains(&"metadata by current at 77".to_string()));
    assert!(result.is_ok());
}

fn create_v1(
    auth: bool,
    world: &World,
) -> (Vec<String>, Result<RepositoryRecord, Status>) {
    let message = repository_create_v1::CreateMessage {
        id: id(),
        name: "repo".to_string(),
        description: "desc".to_string(),
        default_branch_id: Context { value: 5 },
        default_branch_name: "main".to_string(),
        creator: Some("alice".to_string()),
    };
    let auth_url = if auth { Some("https://auth".to_string()) } else { None };
    let authorization = Some("Bearer x".to_string());
    let req =
        repository_create_v1::handler(message, true, None, "alice", 99, auth_url, authorization);
    let record = || RepositoryRecord { metadata: metadata(world.creator), hash: address() };
    let mut asked = vec![];
    let (mut state, mut action) = repository_create_v1::handle(&req, limits(), Ok(()));
    loop {
        let event = match action {
            repository_create_v1::CreateAction::LoadId { .. } => {
                asked.push("id".to_string());
                let found = world.by_id.map(|name| {
                    let mut record = record();
                    record.metadata.name = name.to_string();
                    record
                });
                repository_create_v1::CreateEvent::ById { record: found }
            }
            repository_create_v1::CreateAction::LoadName { .. } => {
                asked.push("name".to_string());
                let found = world.by_name.map(|id| NamedRecord { id, record: record() });
                repository_create_v1::CreateEvent::ByName { found }
            }
            repository_create_v1::CreateAction::StoreNameToId { name, id } => {
                asked.push(format!("map {name} {}", id.to_hex()));
                repository_create_v1::CreateEvent::NameStored { result: world.stored("map") }
            }
            repository_create_v1::CreateAction::StoreMetadata { metadata } => {
                asked.push(format!("metadata by {} at {}", metadata.creator, metadata.created));
                repository_create_v1::CreateEvent::MetadataStored {
                    result: world.stored("metadata").map(|()| address()),
                }
            }
            repository_create_v1::CreateAction::CreateBranch { id, name, creator, created } => {
                asked.push(format!("branch {} {name} {creator} {created}", id.value));
                repository_create_v1::CreateEvent::BranchCreated { result: world.branch() }
            }
            repository_create_v1::CreateAction::StoreMetadataHash { hash } => {
                asked.push(format!("hash {:?}", hash.bytes));
                repository_create_v1::CreateEvent::HashStored { result: world.stored("hash") }
            }
            repository_create_v1::CreateAction::CreateAuthResource { call } => {
                asked.push(format!(
                    "owner {} {} {} {:?}",
                    call.auth_url, call.resource_id, call.resource_name, call.authorization
                ));
                repository_create_v1::CreateEvent::AuthResource { result: world.authorized() }
            }
            repository_create_v1::CreateAction::Finish { result } => return (asked, result),
        };
        let next = repository_create_v1::step(&req, state, event);
        state = next.0;
        action = next.1;
    }
}

#[test]
fn version_one_stores_a_repository_before_its_owner() {
    let (asked, result) = create_v1(true, &World::empty());
    assert_eq!(
        asked,
        vec![
            "id",
            "name",
            "metadata by alice at 99",
            "branch 5 main alice 99",
            "hash [4, 2]",
            MAPPED,
            OWNER
        ]
    );
    let made = result.unwrap();
    assert_eq!(made.hash.bytes, vec![4, 2]);
    assert_eq!(made.metadata.created, 99);
    assert_eq!(made.metadata.creator, "alice");
}

#[test]
fn version_one_gives_an_existing_repository_back() {
    let known = World { by_id: Some("repo"), by_name: Some(id()), ..World::empty() };
    let (asked, result) = create_v1(true, &known);
    assert_eq!(asked, vec!["id", "name", OWNER]);
    assert_eq!(result.unwrap().metadata.created, 77);
    let unmapped = World { by_id: Some("repo"), failing: "map", ..World::empty() };
    assert_eq!(create_v1(false, &unmapped).0, vec!["id", "name", MAPPED]);
    assert!(create_v1(false, &unmapped).1.is_ok());
    let by_name = World { by_name: Some(id()), ..World::empty() };
    assert_eq!(create_v1(true, &by_name).0, vec!["id", "name", OWNER]);
    for world in [
        World { by_id: Some("repo"), creator: "bob", ..World::empty() },
        World { by_name: Some(id()), creator: "bob", ..World::empty() },
    ] {
        let error = create_v1(true, &world).1.unwrap_err();
        assert_eq!(error.message, "Repository is owned by another subject");
        assert!(create_v1(false, &world).1.is_ok());
    }
}

#[test]
fn version_one_reports_failures() {
    for (failing, message) in [
        ("metadata", "Failed to serialize repository metadata: disk full".to_string()),
        ("hash", format!("Failed to store metadata hash for repo/{ID}: disk full")),
        ("map", format!("Failed to store name to ID lookup for repo -> {ID}: disk full")),
    ] {
        let world = World { failing, ..World::empty() };
        let error = create_v1(true, &world).1.unwrap_err();
        assert_eq!((error.code, error.message), (Code::Internal, message));
    }
    let no_branch = World { branch: Err(false), ..World::empty() };
    assert!(create_v1(false, &no_branch).1.is_err());
    let renamed = World { by_id: Some("old"), ..World::empty() };
    assert_eq!(create_v1(false, &renamed).1.unwrap_err().code, Code::AlreadyExists);
    let taken = World { by_name: Some(Context { value: 1 }.into()), ..World::empty() };
    assert_eq!(create_v1(false, &taken).1.unwrap_err().code, Code::AlreadyExists);
    let denied = World { auth: Code::Unauthenticated, ..World::empty() };
    assert_eq!(create_v1(true, &denied).1.unwrap_err().code, Code::Unauthenticated);
}

fn delete(
    req: &DeleteRequest,
    world: &World,
    user: &str,
    branches: Option<Vec<(u128, Option<&str>)>>,
) -> (Vec<String>, Result<(), Status>) {
    let mut asked = vec![];
    let (mut state, mut action) = req.begin();
    loop {
        let event = match action {
            DeleteAction::QueryId { id } => {
                asked.push("id".to_string());
                DeleteEvent::ById { data: world.by_id.map(|name| data(id, name)) }
            }
            DeleteAction::LoadMetadata { .. } => {
                asked.push("load".to_string());
                let found = world.failing != "load";
                DeleteEvent::Metadata {
                    metadata: if found { Some(metadata(world.creator)) } else { None },
                }
            }
            DeleteAction::CurrentUser => {
                asked.push("user".to_string());
                DeleteEvent::User { id: user.to_string() }
            }
            DeleteAction::DeleteAuthResource { call } => {
                asked.push(format!("allow {}", call.resource_id));
                let refused = world.failing == "allow";
                DeleteEvent::AuthDeleted {
                    result: if refused { Err(Status::new(Code::PermissionDenied, "no")) } else { Ok(()) },
                }
            }
            DeleteAction::StoreNameToId { name, id } => {
                asked.push(format!("map {name} {}", id.to_hex()));
                DeleteEvent::NameStored { result: world.stored("map") }
            }
            DeleteAction::ClearMetadataHash => {
                asked.push("clear".to_string());
                DeleteEvent::HashCleared { result: world.stored("clear") }
            }
            DeleteAction::ListBranches => {
                asked.push("list".to_string());
                DeleteEvent::Branches {
                    branches: branches
                        .as_ref()
                        .map(|list| list.iter().map(|b| Context { value: b.0 }).collect()),
                }
            }
            DeleteAction::BranchName { branch } => {
                let known = branches.as_ref().unwrap().iter().find(|b| b.0 == branch.value).unwrap();
                DeleteEvent::BranchNamed { name: known.1.map(str::to_string) }
            }
            DeleteAction::DeleteBranchName { name } => {
                asked.push(format!("unmap {name}"));
                DeleteEvent::Removed
            }
            DeleteAction::DeleteBranchLatest { branch } => {
                asked.push(format!("latest {}", branch.value));
                DeleteEvent::Removed
            }
            DeleteAction::DeleteBranchMetadata { branch } => {
                asked.push(format!("metadata {}", branch.value));
                DeleteEvent::Removed
            }
            DeleteAction::ConfirmDeleted { call } => {
                asked.push(format!("confirm {} {:?}", call.auth_url, call.authorization));
                DeleteEvent::Confirmed { result: world.authorized() }
            }
            DeleteAction::Finish { result } => return (asked, result),
        };
        let next = req.step(state, event);
        state = next.0;
        action = next.1;
    }
}

fn delete_request(auth: bool, service: bool) -> DeleteRequest {
    let mut caller = AuthorizationToken::default();
    caller.is_service_account = Some(service);
    let auth_url = if auth { Some("https://auth".to_string()) } else { None };
    repository_delete::handler(id(), Some(&caller), auth_url, None)
}

fn known() -> World {
    World { by_id: Some("repo"), ..World::empty() }
}

const GONE: &str = "map repo 00000000000000000000000000000000";

#[test]
fn everything_of_a_repository_is_deleted() {
    let branches = Some(vec![(1, Some("main")), (2, Some("")), (3, None)]);
    let (asked, result) = delete(&delete_request(true, false), &known(), "bob", branches);
    assert!(result.is_ok());
    assert_eq!(
        asked,
        vec![
            "id",
            "load",
            "user",
            "allow urc-2fc8bf934117e250152eba9a1fc78e71",
            GONE,
            "clear",
            "list",
            "unmap main",
            "latest 1",
            "metadata 1",
            "latest 2",
            "metadata 2",
            "latest 3",
            "metadata 3",
            "confirm https://auth None",
        ]
    );
    let (asked, result) = delete(&delete_request(false, false), &known(), "alice", None);
    assert!(result.is_ok());
    assert_eq!(asked, vec!["id", "load", "user", GONE, "clear", "list"]);
}

#[test]
fn only_owners_and_service_accounts_delete_without_authorization_service() {
    let (asked, result) = delete(&delete_request(false, false), &known(), "bob", None);
    assert_eq!(asked, vec!["id", "load", "user"]);
    let error = result.unwrap_err();
    assert_eq!((error.code, error.message.as_str()), (Code::PermissionDenied, "Not repository owner"));
    assert!(delete(&delete_request(false, true), &known(), "bob", None).1.is_ok());
    assert!(!repository_delete::handler(id(), None, None, None).force);
    let unsaid = AuthorizationToken::default();
    assert!(!repository_delete::handler(id(), Some(&unsaid), None, None).force);
}

#[test]
fn refused_deletions_change_nothing() {
    let world = World { failing: "allow", ..known() };
    let (asked, result) = delete(&delete_request(true, true), &world, "alice", None);
    assert_eq!(asked.len(), 4);
    assert_eq!(result.unwrap_err().message, "no");
}

#[test]
fn a_deletion_can_be_repeated() {
    let (asked, result) = delete(&delete_request(true, false), &World::empty(), "bob", None);
    assert_eq!(asked, vec!["id", "confirm https://auth None"]);
    assert!(result.is_ok());
    let (asked, result) = delete(&delete_request(false, false), &World::empty(), "bob", None);
    assert_eq!(asked, vec!["id"]);
    let error = result.unwrap_err();
    assert_eq!((error.code, error.message.as_str()), (Code::NotFound, "Repository does not exist"));
}

#[test]
fn failed_deletions_are_reported() {
    for (failing, code, message) in [
        ("load", Code::NotFound, "Repository metadata not found"),
        ("map", Code::Internal, "Failed to delete repository name mapping: disk full"),
        ("clear", Code::Internal, "Failed to delete repository metadata: disk full"),
    ] {
        let world = World { failing, ..known() };
        let error = delete(&delete_request(false, false), &world, "alice", None).1.unwrap_err();
        assert_eq!((error.code, error.message.as_str()), (code, message));
    }
    let world = World { auth: Code::PermissionDenied, ..known() };
    let error = delete(&delete_request(true, false), &world, "alice", Some(vec![])).1.unwrap_err();
    assert_eq!(error.message, "refused");
}
