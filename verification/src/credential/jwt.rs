//! What tokens say of their users, taken on trust, and where they may be sent.
//!
//! Whoever receives a token verifies it. Here its claims are only read: to show whose token it is,
//! and to keep it from being sent where it does not belong.
use vstd::prelude::*;
use vstd::string::*;

use crate::credential::domain;
use crate::credential::store_laws;
use crate::jose;
use crate::model;

verus! {

/// What is shown of a user.
#[derive(Debug)]
pub struct UserInfo {
    pub id: String,
    pub name: String,
    pub token: String,
    pub preferred_username: String,
    pub is_service_account: bool,
    /// The expiry of the token, in milliseconds since the epoch.
    pub expires: u64,
}

/// The model of [`UserInfo`].
pub struct UserInfoView {
    pub id: Seq<char>,
    pub name: Seq<char>,
    pub token: Seq<char>,
    pub preferred_username: Seq<char>,
    pub is_service_account: bool,
    pub expires: u64,
}

impl View for UserInfo {
    type V = UserInfoView;

    open spec fn view(&self) -> UserInfoView {
        UserInfoView {
            id: self.id@,
            name: self.name@,
            token: self.token@,
            preferred_username: self.preferred_username@,
            is_service_account: self.is_service_account,
            expires: self.expires,
        }
    }
}

impl Default for UserInfo {
    fn default() -> (info: UserInfo)
        ensures
            info@ == (UserInfoView {
                id: seq![],
                name: seq![],
                token: seq![],
                preferred_username: seq![],
                is_service_account: false,
                expires: 0,
            }),
    {
        UserInfo {
            id: String::new(),
            name: String::new(),
            token: String::new(),
            preferred_username: String::new(),
            is_service_account: false,
            expires: 0,
        }
    }
}

impl Clone for UserInfo {
    fn clone(&self) -> (copy: UserInfo)
        ensures
            copy == *self,
    {
        UserInfo {
            id: self.id.clone(),
            name: self.name.clone(),
            token: self.token.clone(),
            preferred_username: self.preferred_username.clone(),
            is_service_account: self.is_service_account,
            expires: self.expires,
        }
    }
}

/// The claims of a token.
#[derive(Clone, Debug)]
pub struct JWTUserInfo {
    pub issuer: String,
    pub user_id: String,
    pub name: String,
    pub preferred_username: Option<String>,
    pub is_service_account: Option<bool>,
    /// The expiry of the token, in seconds since the epoch.
    pub expires: u64,
    pub audience: Vec<String>,
}

impl JWTUserInfo {
    /// The domains that a token with these claims is meant for.
    pub open spec fn root_domains(&self) -> Seq<Seq<char>> {
        seq![self.issuer@] + model::seq_view(self.audience@)
    }

    /// Gives the domains that a token with these claims is meant for: that of its issuer, who knows
    /// it already, and its audience.
    pub fn acceptable_root_domains(&self) -> (domains: Vec<String>)
        ensures
            model::seq_view(domains@) == self.root_domains(),
    {
        let mut domains: Vec<String> = Vec::new();
        domains.push(self.issuer.clone());
        let mut i: usize = 0;
        while i < self.audience.len()
            invariant
                i <= self.audience@.len(),
                domains@ == seq![self.issuer] + self.audience@.take(i as int),
            decreases self.audience@.len() - i,
        {
            domains.push(self.audience[i].clone());
            i = i + 1;
            assert(domains@ =~= seq![self.issuer] + self.audience@.take(i as int));
        }
        assert(model::seq_view(domains@) =~= self.root_domains());
        domains
    }
}

/// Gives the claims of a token, as they were written, without checking who signed it, for whom, or
/// when.
pub fn insecure_decode_token(token: &str) -> (r: Result<Vec<u8>, jsonwebtoken::errors::Error>)
    ensures
        model::opt_view(model::ok(r)) == (match jose::token_header(token@) {
            Some(header) => if jose::is_readable(token@, header.algorithm) {
                jose::claims_bytes(token@)
            } else {
                None
            },
            None => None,
        }),
        jose::token_header(token@) matches Some(header) && jose::is_readable(
            token@,
            header.algorithm,
        ) ==> r is Ok,
{
    let header = match jose::decode_header(token) {
        Ok(header) => header,
        Err(error) => return Err(error),
    };
    match jose::check_readable(token, header.algorithm.as_str()) {
        Ok(_) => {},
        Err(error) => return Err(error),
    }
    match jose::read_claims(token) {
        Some(claims) => Ok(claims),
        None => {
            assert(false);
            Ok(Vec::new())
        },
    }
}

/// Gives what is shown of the user of a token, where its claims could be read.
pub fn user_info_from_token(token: String, claims: Option<JWTUserInfo>) -> (info: Option<UserInfo>)
    requires
        claims matches Some(claims) ==> claims.expires * 1000 <= u64::MAX,
    ensures
        model::opt_view(info) == (match claims {
            Some(claims) => Some(
                UserInfoView {
                    id: claims.user_id@,
                    name: claims.name@,
                    token: token@,
                    preferred_username: (match claims.preferred_username {
                        Some(name) => name@,
                        None => seq![],
                    }),
                    is_service_account: claims.is_service_account == Some(true),
                    expires: (claims.expires * 1000) as u64,
                },
            ),
            None => None,
        }),
        match claims {
            Some(claims) => info matches Some(shown) && store_laws::is_info_of(
                token@,
                claims,
                shown,
            ),
            None => info is None,
        },
{
    let claims = match claims {
        Some(claims) => claims,
        None => return None,
    };
    let preferred_username = match claims.preferred_username {
        Some(name) => name,
        None => String::new(),
    };
    let is_service_account = match claims.is_service_account {
        Some(service) => service,
        None => false,
    };
    Some(
        UserInfo {
            id: claims.user_id,
            name: claims.name,
            token,
            preferred_username,
            is_service_account,
            expires: claims.expires * 1000,
        },
    )
}

/// Why a token may not be sent somewhere.
#[derive(Debug)]
pub enum JwtUsageError {
    Internal { context: String },
}

/// Checks that a token with these claims may be sent to a domain.
pub fn verify_jwt_usage_for_remote(jwt: &JWTUserInfo, remote_domain: &str) -> (r: Result<
    (),
    JwtUsageError,
>)
    ensures
        r is Ok <==> domain::in_root_domains(remote_domain@, jwt.root_domains()),
        r matches Err(JwtUsageError::Internal { context }) ==> context@
            == "JWT 'aud' does not specify remote domain '"@ + remote_domain@ + "'"@,
{
    let root_domains = jwt.acceptable_root_domains();
    if domain::domain_in_root_domains(remote_domain, &root_domains) {
        return Ok(());
    }
    let mut context = "JWT 'aud' does not specify remote domain '".to_owned();
    context.append(remote_domain);
    context.append("'");
    Err(JwtUsageError::Internal { context })
}

/// A token may always be sent back to its issuer, and to every domain of its audience, where these
/// write a domain.
pub proof fn issuer_and_audience_may_receive(jwt: JWTUserInfo, i: int)
    requires
        0 <= i < jwt.root_domains().len(),
        domain::normalized(jwt.root_domains()[i]) is Some,
    ensures
        domain::in_root_domains(jwt.root_domains()[i], jwt.root_domains()),
{
    let forms = domain::all_normalized(jwt.root_domains());
    assert(forms[i] == domain::normalized(jwt.root_domains()[i]));
}

} // verus!
