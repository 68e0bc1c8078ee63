//! The address of the metadata of a repository, for callers who may read its data.
use vstd::prelude::*;

use crate::ids::{Context, RepositoryId};
use crate::server::jwt;
use crate::server::jwt::AuthorizationToken;
use crate::server::repository_create::Address;
use crate::status::{Code, Status, StatusView};

verus! {

/// The repository whose metadata may be looked up, or why none may: the caller is not known, no
/// repository is named, or the caller's token does not allow access to it.
pub open spec fn permitted(
    authorization: Result<AuthorizationToken, Status>,
    id: Context,
) -> Result<RepositoryId, StatusView> {
    match authorization {
        Err(status) => Err(status@),
        Ok(token) => if id.value == 0 {
            Err(StatusView { code: Code::InvalidArgument, message: "Missing repository id"@ })
        } else if !jwt::authorized(token@, RepositoryId { context: id }) {
            Err(StatusView { code: Code::PermissionDenied, message: "Repository access denied"@ })
        } else {
            Ok(RepositoryId { context: id })
        },
    }
}

/// Gives the repository whose metadata may be looked up.
pub fn handler(authorization: Result<AuthorizationToken, Status>, id: Context) -> (r: Result<
    RepositoryId,
    Status,
>)
    ensures
        match permitted(authorization, id) {
            Ok(repository) => r == Ok::<RepositoryId, Status>(repository),
            Err(status) => r matches Err(error) && error@ == status,
        },
{
    let token = match authorization {
        Ok(token) => token,
        Err(status) => return Err(status),
    };
    if id.is_zero() {
        return Err(Status::new(Code::InvalidArgument, "Missing repository id"));
    }
    let repository = RepositoryId { context: id };
    match jwt::verify_authorization(&token, repository) {
        Ok(_) => Ok(repository),
        Err(_) => Err(Status::new(Code::PermissionDenied, "Repository access denied")),
    }
}

/// Gives what was looked up: the address as it is, or that there is none and why.
pub fn respond(hash: Result<Address, String>) -> (r: Result<Address, Status>)
    ensures
        match hash {
            Ok(address) => r == Ok::<Address, Status>(address),
            Err(detail) => r matches Err(error) && error@ == (StatusView {
                code: Code::NotFound,
                message: detail@,
            }),
        },
{
    match hash {
        Ok(address) => Ok(address),
        Err(detail) => Err(Status::new(Code::NotFound, detail.as_str())),
    }
}

/// Nothing is looked up for a caller whose token does not allow access to the repository.
pub proof fn lookup_needs_authorization(
    authorization: Result<AuthorizationToken, Status>,
    id: Context,
)
    requires
        permitted(authorization, id) is Ok,
    ensures
        authorization is Ok,
        jwt::authorized(authorization->Ok_0@, permitted(authorization, id)->Ok_0),
        permitted(authorization, id)->Ok_0.context == id,
{
}

} // verus!
