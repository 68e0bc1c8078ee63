//! Verification of the tokens that callers present, and what a verified token allows.
//!
//! A token is verified in three steps. [`JwtVerifier::verify_token`] says which key is needed, and
//! [`JwtVerifier::step`] takes it, checks the signature and asks for the claims to be parsed. Then it
//! takes these, checks the rest and decides.
use vstd::prelude::*;

use crate::ids;
use crate::ids::RepositoryId;
use crate::jose;
use crate::jose::{Algorithm, TokenHeader, TokenHeaderView};
use crate::model;
use crate::server::jwk::{JWKServiceError, JWKServiceKey};
use crate::text;

verus! {

/// The claims of a token that says who the user is.
#[derive(Debug, PartialEq)]
pub struct JWTUserInfo {
    pub user_id: String,
    pub issuer: String,
    pub issued_at: u64,
    pub audience: Vec<String>,
    pub env: String,
    pub name: String,
    pub preferred_username: String,
    pub is_service_account: Option<bool>,
    pub expires: u64,
}

impl Clone for JWTUserInfo {
    fn clone(&self) -> (copy: JWTUserInfo)
        ensures
            Claims::User(copy).authorization() == Claims::User(*self).authorization(),
    {
        JWTUserInfo {
            user_id: self.user_id.clone(),
            issuer: self.issuer.clone(),
            issued_at: self.issued_at,
            audience: model::clone_strings(&self.audience),
            env: self.env.clone(),
            name: self.name.clone(),
            preferred_username: self.preferred_username.clone(),
            is_service_account: self.is_service_account,
            expires: self.expires,
        }
    }
}

/// What a token allows on a resource.
#[derive(Debug, PartialEq)]
pub struct ResourcePermission {
    pub resource_id: String,
    pub permission: Vec<String>,
}

/// The model of [`ResourcePermission`].
pub struct ResourcePermissionView {
    pub resource_id: Seq<char>,
    pub permission: Seq<Seq<char>>,
}

impl View for ResourcePermission {
    type V = ResourcePermissionView;

    open spec fn view(&self) -> ResourcePermissionView {
        ResourcePermissionView {
            resource_id: self.resource_id@,
            permission: model::seq_view(self.permission@),
        }
    }
}

impl Clone for ResourcePermission {
    fn clone(&self) -> (copy: ResourcePermission)
        ensures
            copy@ == self@,
    {
        ResourcePermission {
            resource_id: self.resource_id.clone(),
            permission: model::clone_strings(&self.permission),
        }
    }
}

impl ResourcePermission {
    /// Whether the resource stands for every repository.
    pub fn is_wildcard_resource(&self) -> (r: bool)
        ensures
            r == (self@.resource_id == "urc-*"@),
    {
        text::same_text(self.resource_id.as_str(), "urc-*")
    }

    /// Whether the resource is the repository of that resource name.
    pub fn matches_repository(&self, repository_id: &String) -> (r: bool)
        ensures
            r == (self@.resource_id == repository_id@),
    {
        self.resource_id == *repository_id
    }
}

/// What a verified token says of its bearer.
#[derive(Debug, PartialEq)]
pub struct AuthorizationToken {
    pub user_id: String,
    pub issuer: String,
    pub issued_at: u64,
    pub expires: u64,
    pub audience: Vec<String>,
    pub env: String,
    pub name: String,
    pub preferred_username: String,
    pub resources: Option<Vec<ResourcePermission>>,
    pub groups: Option<Vec<String>>,
    pub is_service_account: Option<bool>,
    pub idp: String,
}

/// The model of [`AuthorizationToken`].
#[verifier::ext_equal]
pub struct AuthorizationTokenView {
    pub user_id: Seq<char>,
    pub issuer: Seq<char>,
    pub issued_at: u64,
    pub expires: u64,
    pub audience: Seq<Seq<char>>,
    pub env: Seq<char>,
    pub name: Seq<char>,
    pub preferred_username: Seq<char>,
    pub resources: Option<Seq<ResourcePermissionView>>,
    pub groups: Option<Seq<Seq<char>>>,
    pub is_service_account: Option<bool>,
    pub idp: Seq<char>,
}

impl View for AuthorizationToken {
    type V = AuthorizationTokenView;

    open spec fn view(&self) -> AuthorizationTokenView {
        AuthorizationTokenView {
            user_id: self.user_id@,
            issuer: self.issuer@,
            issued_at: self.issued_at,
            expires: self.expires,
            audience: model::seq_view(self.audience@),
            env: self.env@,
            name: self.name@,
            preferred_username: self.preferred_username@,
            resources: model::opt_seq_view(self.resources),
            groups: model::opt_seq_view(self.groups),
            is_service_account: self.is_service_account,
            idp: self.idp@,
        }
    }
}

fn clone_resources(resources: &Vec<ResourcePermission>) -> (copy: Vec<ResourcePermission>)
    ensures
        model::seq_view(copy@) == model::seq_view(resources@),
{
    let mut copy: Vec<ResourcePermission> = Vec::new();
    let mut i: usize = 0;
    while i < resources.len()
        invariant
            i <= resources@.len(),
            copy@.len() == i,
            forall|j: int| 0 <= j < i ==> (#[trigger] copy@[j])@ == resources@[j]@,
        decreases resources@.len() - i,
    {
        copy.push(resources[i].clone());
        i = i + 1;
    }
    assert(model::seq_view(copy@) =~= model::seq_view(resources@));
    copy
}

impl Clone for AuthorizationToken {
    fn clone(&self) -> (copy: AuthorizationToken)
        ensures
            copy@ == self@,
    {
        let resources = match &self.resources {
            Some(resources) => Some(clone_resources(resources)),
            None => None,
        };
        let groups = match &self.groups {
            Some(groups) => Some(model::clone_strings(groups)),
            None => None,
        };
        AuthorizationToken {
            user_id: self.user_id.clone(),
            issuer: self.issuer.clone(),
            issued_at: self.issued_at,
            expires: self.expires,
            audience: model::clone_strings(&self.audience),
            env: self.env.clone(),
            name: self.name.clone(),
            preferred_username: self.preferred_username.clone(),
            resources,
            groups,
            is_service_account: self.is_service_account,
            idp: self.idp.clone(),
        }
    }
}

impl Default for AuthorizationToken {
    fn default() -> (token: AuthorizationToken)
        ensures
            token@ == (AuthorizationTokenView {
                user_id: seq![],
                issuer: seq![],
                issued_at: 0,
                expires: 0,
                audience: seq![],
                env: seq![],
                name: seq![],
                preferred_username: seq![],
                resources: None,
                groups: None,
                is_service_account: None,
                idp: seq![],
            }),
    {
        let token = AuthorizationToken {
            user_id: String::new(),
            issuer: String::new(),
            issued_at: 0,
            expires: 0,
            audience: Vec::new(),
            env: String::new(),
            name: String::new(),
            preferred_username: String::new(),
            resources: None,
            groups: None,
            is_service_account: None,
            idp: String::new(),
        };
        assert(token@.audience =~= seq![]);
        token
    }
}

/// Why a token is refused.
#[derive(Debug)]
pub enum JwtVerifierError {
    HeaderKIDMissing,
    KeyNotFound(JWKServiceError),
    ValidationFailed(jsonwebtoken::errors::Error),
    NotAuthorized,
    AlgorithmNotAllowed,
    EnvironmentMismatch,
    AudienceMismatch,
}

impl JwtVerifierError {
    /// Whether a token was refused because it has expired, which happens to every token in time.
    pub fn is_expiry(&self) -> (r: bool)
        ensures
            r == (*self matches JwtVerifierError::ValidationFailed(error) && jose::is_expiry(error)),
    {
        match self {
            JwtVerifierError::ValidationFailed(error) => jose::tells_expiry(error),
            _ => false,
        }
    }

    /// Describes the error.
    pub fn message(&self) -> (message: &'static str)
        ensures
            message@ == (match *self {
                JwtVerifierError::HeaderKIDMissing => "JWT header does not contain a kid"@,
                JwtVerifierError::KeyNotFound(_) => "JWT header could not be parsed"@,
                JwtVerifierError::ValidationFailed(_) => "JWT validation failed"@,
                JwtVerifierError::NotAuthorized => "JWT authorization failed"@,
                JwtVerifierError::AlgorithmNotAllowed => "JWT algorithm is not permitted"@,
                JwtVerifierError::EnvironmentMismatch =>
                    "JWT environment does not match this server"@,
                JwtVerifierError::AudienceMismatch => "JWT is missing a mandatory audience"@,
            }),
    {
        match self {
            JwtVerifierError::HeaderKIDMissing => "JWT header does not contain a kid",
            JwtVerifierError::KeyNotFound(_) => "JWT header could not be parsed",
            JwtVerifierError::ValidationFailed(_) => "JWT validation failed",
            JwtVerifierError::NotAuthorized => "JWT authorization failed",
            JwtVerifierError::AlgorithmNotAllowed => "JWT algorithm is not permitted",
            JwtVerifierError::EnvironmentMismatch => "JWT environment does not match this server",
            JwtVerifierError::AudienceMismatch => "JWT is missing a mandatory audience",
        }
    }
}

/// The claims of a token, as far as they could be parsed.
#[derive(Debug)]
pub enum Claims {
    Authorization(AuthorizationToken),
    User(JWTUserInfo),
}

impl Claims {
    /// What the claims say of the bearer: claims that only name the user say nothing of resources,
    /// groups or the identity provider.
    pub open spec fn authorization(self) -> AuthorizationTokenView {
        match self {
            Claims::Authorization(token) => token@,
            Claims::User(user) => AuthorizationTokenView {
                user_id: user.user_id@,
                issuer: user.issuer@,
                issued_at: user.issued_at,
                expires: user.expires,
                audience: model::seq_view(user.audience@),
                env: user.env@,
                name: user.name@,
                preferred_username: user.preferred_username@,
                resources: None,
                groups: None,
                is_service_account: user.is_service_account,
                idp: seq![],
            },
        }
    }

    /// Gives what the claims say of the bearer.
    pub fn into_authorization(self) -> (token: AuthorizationToken)
        ensures
            token@ == self.authorization(),
    {
        match self {
            Claims::Authorization(token) => token,
            Claims::User(user) => AuthorizationToken {
                user_id: user.user_id,
                issuer: user.issuer,
                issued_at: user.issued_at,
                expires: user.expires,
                audience: user.audience,
                env: user.env,
                name: user.name,
                preferred_username: user.preferred_username,
                resources: None,
                groups: None,
                is_service_account: user.is_service_account,
                idp: String::new(),
            },
        }
    }
}

/// Whether `names` holds `name`.
fn holds(names: &Vec<String>, name: &str) -> (r: bool)
    ensures
        r == model::seq_view(names@).contains(name@),
{
    let ghost views = model::seq_view(names@);
    let mut i: usize = 0;
    while i < names.len()
        invariant
            i <= names@.len(),
            views == model::seq_view(names@),
            forall|j: int| 0 <= j < i ==> views[j] != name@,
        decreases names@.len() - i,
    {
        assert(views[i as int] == names@[i as int]@);
        if text::same_text(names[i].as_str(), name) {
            return true;
        }
        i = i + 1;
    }
    false
}

/// Whether a token whose audience lacks `mandatory` is refused although it was meant for one of
/// `required`.
pub open spec fn lacks_mandatory(
    required: Seq<Seq<char>>,
    audience: Seq<Seq<char>>,
    mandatory: Seq<char>,
) -> bool {
    required.contains(mandatory) && !audience.contains(mandatory)
}

/// How far the verification of a token has come.
pub enum VerifyState {
    /// The key of the token is asked for.
    Key { token: String },
    /// The claims of the token, which is signed with `key`, are parsed.
    Claims { token: String, key: jsonwebtoken::DecodingKey },
    /// There is nothing left to do.
    Finished,
}

/// What is asked of the surroundings.
#[derive(Debug)]
pub enum VerifyAction {
    /// Find the key of this identifier.
    GetKey { kid: String },
    /// Parse these claims.
    ParseClaims { claims: Vec<u8> },
    /// The outcome.
    Finish { result: Result<AuthorizationToken, JwtVerifierError> },
}

/// The answer to a [`VerifyAction`].
pub enum VerifyEvent {
    /// The key, or why there is none.
    Key { reply: Result<JWKServiceKey, JWKServiceError> },
    /// The parsed claims, or why they cannot be parsed.
    Claims { parsed: Result<Claims, jsonwebtoken::errors::Error> },
}

/// Whether `event` answers the question that `state` waits for.
pub open spec fn verify_fits(state: VerifyState, event: VerifyEvent) -> bool {
    match event {
        VerifyEvent::Key { .. } => state is Key,
        VerifyEvent::Claims { .. } => state is Claims,
    }
}

/// Whether `state` waits for the answer to `action`, or both are the end.
pub open spec fn verify_asks(state: VerifyState, action: VerifyAction) -> bool {
    match action {
        VerifyAction::GetKey { .. } => state is Key,
        VerifyAction::ParseClaims { .. } => state is Claims,
        VerifyAction::Finish { .. } => state is Finished,
    }
}

/// Whether a verification ends in `next` with the given result.
pub open spec fn finishes(
    next: (VerifyState, VerifyAction),
    result: Result<AuthorizationToken, JwtVerifierError>,
) -> bool {
    next.0 is Finished && next.1 == (VerifyAction::Finish { result })
}

/// Whether a verification ends in `next` because the token is not valid.
pub open spec fn refuses_validation(next: (VerifyState, VerifyAction)) -> bool {
    &&& next.0 is Finished
    &&& next.1 matches VerifyAction::Finish { result } && (result matches Err(error)
        && error is ValidationFailed)
}

fn refuse(error: JwtVerifierError) -> (next: (VerifyState, VerifyAction))
    ensures
        finishes(next, Err(error)),
{
    (VerifyState::Finished, VerifyAction::Finish { result: Err(error) })
}

/// The rules by which tokens are verified.
#[derive(Clone, Debug)]
pub struct JwtVerifier {
    pub jwt_issuer: Option<String>,
    pub jwt_audience: Option<Vec<String>>,
    pub algorithm: Algorithm,
    pub required_environment: Option<String>,
}

impl JwtVerifier {
    /// The identifier of the key that a token with this header needs, or why it is refused.
    pub open spec fn key_of(&self, header: TokenHeaderView) -> Result<Seq<char>, JwtVerifierError> {
        if header.algorithm != self.algorithm.name_view() {
            Err(JwtVerifierError::AlgorithmNotAllowed)
        } else {
            match header.kid {
                Some(kid) => if text::trim_white(kid).len() > 0 {
                    Ok(kid)
                } else {
                    Err(JwtVerifierError::HeaderKIDMissing)
                },
                None => Err(JwtVerifierError::HeaderKIDMissing),
            }
        }
    }

    /// Whether claims from another environment are refused.
    pub open spec fn wrong_environment(&self, token: AuthorizationTokenView) -> bool {
        self.required_environment is Some && token.env != self.required_environment->0@
    }

    /// Whether claims are refused for want of a mandatory audience.
    pub open spec fn wrong_audience(&self, token: AuthorizationTokenView) -> bool {
        &&& self.jwt_audience is Some
        &&& {
            let required = model::seq_view(self.jwt_audience->0@);
            ||| lacks_mandatory(required, token.audience, "lore"@)
            ||| lacks_mandatory(required, token.audience, "portals.sh"@)
        }
    }

    /// Gives the identifier of the key that a token with this header needs.
    pub fn check_header(&self, header: Result<TokenHeader, jsonwebtoken::errors::Error>) -> (r:
        Result<String, JwtVerifierError>)
        ensures
            match header {
                Err(error) => r == Err::<String, JwtVerifierError>(
                    JwtVerifierError::ValidationFailed(error),
                ),
                Ok(header) => match self.key_of(header@) {
                    Ok(kid) => r matches Ok(found) && found@ == kid,
                    Err(error) => r == Err::<String, JwtVerifierError>(error),
                },
            },
    {
        let header = match header {
            Ok(header) => header,
            Err(error) => return Err(JwtVerifierError::ValidationFailed(error)),
        };
        if !text::same_text(header.algorithm.as_str(), self.algorithm.name()) {
            return Err(JwtVerifierError::AlgorithmNotAllowed);
        }
        match header.kid {
            Some(kid) => {
                let trimmed = text::trim(kid.as_str());
                if trimmed.as_str().is_empty() {
                    Err(JwtVerifierError::HeaderKIDMissing)
                } else {
                    Ok(kid)
                }
            },
            None => Err(JwtVerifierError::HeaderKIDMissing),
        }
    }

    /// Gives the identifier of the key that a token needs.
    pub fn key_id(&self, token: &str) -> (r: Result<String, JwtVerifierError>)
        ensures
            match jose::token_header(token@) {
                None => r matches Err(error) && error is ValidationFailed,
                Some(header) => match self.key_of(header) {
                    Ok(kid) => r matches Ok(found) && found@ == kid,
                    Err(error) => r == Err::<String, JwtVerifierError>(error),
                },
            },
    {
        let header = jose::decode_header(token);
        self.check_header(header)
    }

    /// Gives the key that was found, where it is for the permitted algorithm.
    pub fn check_key(&self, reply: Result<JWKServiceKey, JWKServiceError>) -> (r: Result<
        jsonwebtoken::DecodingKey,
        JwtVerifierError,
    >)
        ensures
            match reply {
                Err(error) => r == Err::<jsonwebtoken::DecodingKey, JwtVerifierError>(
                    JwtVerifierError::KeyNotFound(error),
                ),
                Ok(key) => if key.algorithm != self.algorithm {
                    r == Err::<jsonwebtoken::DecodingKey, JwtVerifierError>(
                        JwtVerifierError::AlgorithmNotAllowed,
                    )
                } else {
                    r == Ok::<jsonwebtoken::DecodingKey, JwtVerifierError>(key.decoding_key)
                },
            },
    {
        match reply {
            Err(error) => Err(JwtVerifierError::KeyNotFound(error)),
            Ok(key) => if key.algorithm != self.algorithm {
                Err(JwtVerifierError::AlgorithmNotAllowed)
            } else {
                Ok(key.decoding_key)
            },
        }
    }

    /// Whether `r` is what these claims of a valid token come to.
    pub open spec fn decided(
        &self,
        claims: Claims,
        r: Result<AuthorizationToken, JwtVerifierError>,
    ) -> bool {
        let token = claims.authorization();
        if self.wrong_environment(token) {
            r == Err::<AuthorizationToken, JwtVerifierError>(JwtVerifierError::EnvironmentMismatch)
        } else if self.wrong_audience(token) {
            r == Err::<AuthorizationToken, JwtVerifierError>(JwtVerifierError::AudienceMismatch)
        } else {
            r matches Ok(accepted) && accepted@ == token
        }
    }

    /// Decides on the claims of a token, where `checked` says whether the token is valid.
    pub fn accept_claims(
        &self,
        checked: Result<(), jsonwebtoken::errors::Error>,
        claims: Claims,
    ) -> (r: Result<AuthorizationToken, JwtVerifierError>)
        ensures
            match checked {
                Err(error) => r == Err::<AuthorizationToken, JwtVerifierError>(
                    JwtVerifierError::ValidationFailed(error),
                ),
                Ok(_) => self.decided(claims, r),
            },
    {
        match checked {
            Ok(_) => {},
            Err(error) => return Err(JwtVerifierError::ValidationFailed(error)),
        }
        let token = claims.into_authorization();
        if let Some(environment) = &self.required_environment {
            if token.env != *environment {
                return Err(JwtVerifierError::EnvironmentMismatch);
            }
        }
        if let Some(required) = &self.jwt_audience {
            if holds(required, "lore") && !holds(&token.audience, "lore") {
                return Err(JwtVerifierError::AudienceMismatch);
            }
            if holds(required, "portals.sh") && !holds(&token.audience, "portals.sh") {
                return Err(JwtVerifierError::AudienceMismatch);
            }
        }
        Ok(token)
    }

    /// Whether a token is valid under these rules, apart from whether it has expired.
    pub open spec fn valid(&self, token: Seq<char>, key: jsonwebtoken::DecodingKey) -> bool {
        &&& jose::is_signed(token, key, self.algorithm.name_view())
        &&& jose::claims_accepted(
            token,
            key,
            self.algorithm.name_view(),
            model::opt_view(self.jwt_issuer),
            model::opt_seq_view(self.jwt_audience),
        )
    }

    /// Whether `r` is what a token comes to whose claims were `parsed`: claims that cannot be parsed
    /// are refused before it is asked whether the token is valid. A token that is not valid is
    /// refused, and one that is valid is refused only because it has expired; else its claims decide.
    pub open spec fn judged(
        &self,
        token: Seq<char>,
        key: jsonwebtoken::DecodingKey,
        parsed: Result<Claims, jsonwebtoken::errors::Error>,
        r: Result<AuthorizationToken, JwtVerifierError>,
    ) -> bool {
        match parsed {
            Err(error) => r == Err::<AuthorizationToken, JwtVerifierError>(
                JwtVerifierError::ValidationFailed(error),
            ),
            Ok(claims) => {
                ||| (r matches Err(JwtVerifierError::ValidationFailed(error)) && (jose::is_expiry(
                    error,
                ) || !self.valid(token, key)))
                ||| (self.valid(token, key) && self.decided(claims, r))
            },
        }
    }

    /// Checks the signature, the expiry, the issuer and the audience of a token whose claims were
    /// `parsed`, and decides on the claims. Whether the token has expired depends on the clock.
    pub fn verify_token_internal(
        &self,
        token: &str,
        key: &jsonwebtoken::DecodingKey,
        parsed: Result<Claims, jsonwebtoken::errors::Error>,
    ) -> (r: Result<AuthorizationToken, JwtVerifierError>)
        ensures
            self.judged(token@, *key, parsed, r),
    {
        let claims = match parsed {
            Ok(claims) => claims,
            Err(error) => return Err(JwtVerifierError::ValidationFailed(error)),
        };
        let checked = jose::check_claims(
            token,
            key,
            self.algorithm.name(),
            &self.jwt_issuer,
            &self.jwt_audience,
        );
        self.accept_claims(checked, claims)
    }

    /// Whether `next` is how the verification of a token begins: with the question for the key that
    /// its header names, or with a refusal of the header.
    pub open spec fn begins(&self, token: Seq<char>, next: (VerifyState, VerifyAction)) -> bool {
        match jose::token_header(token) {
            None => refuses_validation(next),
            Some(header) => match self.key_of(header) {
                Err(error) => finishes(next, Err(error)),
                Ok(kid) => {
                    &&& next.0 matches VerifyState::Key { token: kept } && kept@ == token
                    &&& next.1 matches VerifyAction::GetKey { kid: asked } && asked@ == kid
                },
            },
        }
    }

    /// Whether `next` follows the answer `event` in `state`: the key is followed by the question for
    /// the parsed claims of the same token, once the token turned out to be signed with it, and the
    /// claims are followed by the outcome.
    pub open spec fn follows(
        &self,
        state: VerifyState,
        event: VerifyEvent,
        next: (VerifyState, VerifyAction),
    ) -> bool {
        match (state, event) {
            (VerifyState::Key { token }, VerifyEvent::Key { reply }) => match reply {
                Err(error) => finishes(next, Err(JwtVerifierError::KeyNotFound(error))),
                Ok(key) => if key.algorithm != self.algorithm {
                    finishes(next, Err(JwtVerifierError::AlgorithmNotAllowed))
                } else if !jose::is_signed(
                    token@,
                    key.decoding_key,
                    self.algorithm.name_view(),
                ) {
                    refuses_validation(next)
                } else {
                    &&& next.0 == (VerifyState::Claims { token, key: key.decoding_key })
                    &&& next.1 matches VerifyAction::ParseClaims { claims } && Some(claims@)
                        == jose::claims_bytes(token@)
                },
            },
            (VerifyState::Claims { token, key }, VerifyEvent::Claims { parsed }) => {
                &&& next.0 is Finished
                &&& next.1 matches VerifyAction::Finish { result } && self.judged(
                    token@,
                    key,
                    parsed,
                    result,
                )
            },
            _ => false,
        }
    }

    /// Begins to verify a token.
    pub fn verify_token(&self, token: &str) -> (next: (VerifyState, VerifyAction))
        ensures
            self.begins(token@, next),
    {
        match self.key_id(token) {
            Ok(kid) => (
                VerifyState::Key { token: token.to_owned() },
                VerifyAction::GetKey { kid },
            ),
            Err(error) => refuse(error),
        }
    }

    /// Takes the answer to the last question and gives the next one.
    pub fn step(&self, state: VerifyState, event: VerifyEvent) -> (next: (VerifyState, VerifyAction))
        requires
            verify_fits(state, event),
        ensures
            self.follows(state, event, next),
    {
        match (state, event) {
            (VerifyState::Key { token }, VerifyEvent::Key { reply }) => {
                let key = match self.check_key(reply) {
                    Ok(key) => key,
                    Err(error) => return refuse(error),
                };
                match jose::check_signature(token.as_str(), &key, self.algorithm.name()) {
                    Ok(_) => {},
                    Err(error) => return refuse(JwtVerifierError::ValidationFailed(error)),
                }
                match jose::read_claims(token.as_str()) {
                    Some(claims) => (
                        VerifyState::Claims { token, key },
                        VerifyAction::ParseClaims { claims },
                    ),
                    None => {
                        assert(false);
                        refuse(JwtVerifierError::NotAuthorized)
                    },
                }
            },
            (VerifyState::Claims { token, key }, VerifyEvent::Claims { parsed }) => {
                let result = self.verify_token_internal(token.as_str(), &key, parsed);
                (VerifyState::Finished, VerifyAction::Finish { result })
            },
            _ => {
                assert(false);
                refuse(JwtVerifierError::NotAuthorized)
            },
        }
    }
}

/// Every question is asked in a state that waits for its answer, so that the answer to the last
/// question can always be taken.
pub proof fn verification_never_stalls(
    verifier: JwtVerifier,
    token: Seq<char>,
    state: VerifyState,
    event: VerifyEvent,
    next: (VerifyState, VerifyAction),
)
    requires
        verifier.begins(token, next) || (verify_fits(state, event) && verifier.follows(
            state,
            event,
            next,
        )),
    ensures
        verify_asks(next.0, next.1),
{
}

/// A token that is accepted has passed every check. Its header names the permitted algorithm and the
/// key that was asked for; the key that was found is for that algorithm; the token is signed with it
/// and is valid under the rules; the claims that were parsed are those of the token; and they are from
/// the required environment and for the mandatory audiences. Nothing is accepted before the claims
/// are parsed.
pub proof fn accepted_token_passed_every_check(
    verifier: JwtVerifier,
    token: Seq<char>,
    first: (VerifyState, VerifyAction),
    reply: Result<JWKServiceKey, JWKServiceError>,
    second: (VerifyState, VerifyAction),
    parsed: Result<Claims, jsonwebtoken::errors::Error>,
    last: (VerifyState, VerifyAction),
)
    requires
        verifier.begins(token, first),
        verifier.follows(first.0, VerifyEvent::Key { reply }, second),
        verifier.follows(second.0, VerifyEvent::Claims { parsed }, last),
    ensures
        !(first.1 is Finish),
        !(second.1 is Finish),
        last.1 matches VerifyAction::Finish { result } && (result matches Ok(accepted) ==> {
            &&& jose::token_header(token) matches Some(header) && header.algorithm
                == verifier.algorithm.name_view() && (header.kid matches Some(kid)
                && text::trim_white(kid).len() > 0 && (first.1 matches VerifyAction::GetKey {
                kid: asked,
            } && asked@ == kid))
            &&& reply matches Ok(key) && key.algorithm == verifier.algorithm && verifier.valid(
                token,
                key.decoding_key,
            )
            &&& second.1 matches VerifyAction::ParseClaims { claims } && Some(claims@)
                == jose::claims_bytes(token)
            &&& parsed matches Ok(claims) && accepted@ == claims.authorization()
                && !verifier.wrong_environment(accepted@) && !verifier.wrong_audience(accepted@)
        }),
{
}

/// A token that is valid is accepted. Where its header names the permitted algorithm and a key, and
/// a key for that algorithm is found with which the token is valid, the key is asked for, then its
/// claims. Claims that can be parsed are what is accepted, unless they are from another environment
/// or lack a mandatory audience, or the token has expired.
pub proof fn valid_token_is_accepted(
    verifier: JwtVerifier,
    token: Seq<char>,
    header: TokenHeaderView,
    first: (VerifyState, VerifyAction),
    key: JWKServiceKey,
    second: (VerifyState, VerifyAction),
    claims: Claims,
    last: (VerifyState, VerifyAction),
)
    requires
        jose::token_header(token) == Some(header),
        verifier.key_of(header) is Ok,
        key.algorithm == verifier.algorithm,
        verifier.valid(token, key.decoding_key),
        verifier.begins(token, first),
        verify_fits(first.0, VerifyEvent::Key { reply: Ok(key) }) ==> verifier.follows(
            first.0,
            VerifyEvent::Key { reply: Ok(key) },
            second,
        ),
        verify_fits(second.0, VerifyEvent::Claims { parsed: Ok(claims) }) ==> verifier.follows(
            second.0,
            VerifyEvent::Claims { parsed: Ok(claims) },
            last,
        ),
    ensures
        first.1 is GetKey,
        second.1 is ParseClaims,
        last.1 matches VerifyAction::Finish { result } && (match result {
            Ok(accepted) => accepted@ == claims.authorization() && !verifier.wrong_environment(
                accepted@,
            ) && !verifier.wrong_audience(accepted@),
            Err(error) => {
                ||| (error matches JwtVerifierError::ValidationFailed(fault) && jose::is_expiry(
                    fault,
                ))
                ||| (error is EnvironmentMismatch && verifier.wrong_environment(
                    claims.authorization(),
                ))
                ||| (error is AudienceMismatch && verifier.wrong_audience(claims.authorization()))
            },
        }),
{
}

/// A token that is not signed with the key that was found is refused, whatever its claims are.
pub proof fn unsigned_token_is_refused(
    verifier: JwtVerifier,
    token: String,
    key: JWKServiceKey,
    next: (VerifyState, VerifyAction),
)
    requires
        !jose::is_signed(token@, key.decoding_key, verifier.algorithm.name_view()),
        verifier.follows(VerifyState::Key { token }, VerifyEvent::Key { reply: Ok(key) }, next),
    ensures
        next.1 matches VerifyAction::Finish { result } && result is Err,
{
}

/// Whether a token allows access to the data of a repository: it names this one resource and no
/// other, and allows reading or writing it.
pub open spec fn authorized(token: AuthorizationTokenView, repository: RepositoryId) -> bool {
    token.resources matches Some(resources) && {
        &&& resources.len() == 1
        &&& resources[0].permission.contains("read"@) || resources[0].permission.contains("write"@)
        &&& resources[0].resource_id == repository.resource()
    }
}

/// Checks that a token allows access to the data of a repository.
pub fn verify_authorization(authorization: &AuthorizationToken, repository: RepositoryId) -> (r:
    Result<(), JwtVerifierError>)
    ensures
        r == (if authorized(authorization@, repository) {
            Ok::<(), JwtVerifierError>(())
        } else {
            Err::<(), JwtVerifierError>(JwtVerifierError::NotAuthorized)
        }),
{
    if let Some(resources) = &authorization.resources {
        if resources.len() == 1 {
            assert(authorization@.resources->0[0] == resources@[0]@);
            let checked_repository = repository.resource_id();
            let resource = &resources[0];
            let has_data_permission = holds(&resource.permission, "read") || holds(
                &resource.permission,
                "write",
            );
            if has_data_permission && resource.matches_repository(&checked_repository) {
                return Ok(());
            }
        }
    }
    Err(JwtVerifierError::NotAuthorized)
}

/// A token allows access to the data of one repository at most.
pub proof fn token_authorizes_one_repository(
    token: AuthorizationTokenView,
    a: RepositoryId,
    b: RepositoryId,
)
    ensures
        authorized(token, a) && authorized(token, b) ==> a == b,
{
    ids::resource_names_are_distinct(a, b);
}

/// A token for the resource that stands for every repository allows access to none.
pub proof fn wildcard_authorizes_nothing(token: AuthorizationTokenView, repository: RepositoryId)
    requires
        token.resources matches Some(resources) ==> forall|i: int|
            0 <= i < resources.len() ==> (#[trigger] resources[i]).resource_id == "urc-*"@,
    ensures
        !authorized(token, repository),
{
    ids::context_hex_round_trip(repository.context);
    reveal_strlit("urc-*");
    reveal_strlit("urc-");
    assert(repository.resource().len() == 36);
    if token.resources is Some && token.resources->0.len() == 1 {
        assert(token.resources->0[0].resource_id.len() == 5);
    }
}

} // verus!
