//! What holds of every verification of a token, said of the token and its outcome.
use vstd::prelude::*;

use crate::ids::RepositoryId;
use crate::jose;
use crate::jose::{Algorithm, TokenHeader};
use crate::server::jwk::{JWKServiceError, JWKServiceKey};
use crate::server::jwt;
use crate::server::jwt::{
    AuthorizationToken, Claims, JwtVerifier, JwtVerifierError, VerifyAction, VerifyEvent,
    VerifyState,
};
use crate::text;

verus! {

/// Whether `list` names `name`.
pub open spec fn names(list: Seq<String>, name: Seq<char>) -> bool {
    exists|i: int| 0 <= i < list.len() && (#[trigger] list[i])@ == name
}

/// What is accepted is from the required environment, whatever kind of claims the token carries.
pub proof fn accepted_token_is_from_the_environment(
    verifier: JwtVerifier,
    state: VerifyState,
    parsed: Result<Claims, jsonwebtoken::errors::Error>,
    next: (VerifyState, VerifyAction),
    accepted: AuthorizationToken,
)
    requires
        verifier.follows(state, VerifyEvent::Claims { parsed }, next),
        next.1 == (VerifyAction::Finish { result: Ok(accepted) }),
    ensures
        verifier.required_environment matches Some(environment) ==> accepted.env@ == environment@
            && (match parsed {
            Ok(Claims::Authorization(token)) => token.env@ == environment@,
            Ok(Claims::User(user)) => user.env@ == environment@,
            Err(_) => false,
        }),
{
}

/// What is accepted is meant for each mandatory audience that the rules name.
pub proof fn accepted_token_is_for_the_mandatory_audiences(
    verifier: JwtVerifier,
    state: VerifyState,
    parsed: Result<Claims, jsonwebtoken::errors::Error>,
    next: (VerifyState, VerifyAction),
    accepted: AuthorizationToken,
)
    requires
        verifier.follows(state, VerifyEvent::Claims { parsed }, next),
        next.1 == (VerifyAction::Finish { result: Ok(accepted) }),
    ensures
        verifier.jwt_audience matches Some(audience) ==> {
            &&& names(audience@, "lore"@) ==> names(accepted.audience@, "lore"@)
            &&& names(audience@, "portals.sh"@) ==> names(accepted.audience@, "portals.sh"@)
        },
{
    if let Some(audience) = verifier.jwt_audience {
        lemma_names(audience@, "lore"@);
        lemma_names(audience@, "portals.sh"@);
        lemma_names(accepted.audience@, "lore"@);
        lemma_names(accepted.audience@, "portals.sh"@);
    }
}

proof fn lemma_names(list: Seq<String>, name: Seq<char>)
    ensures
        crate::model::seq_view(list).contains(name) <==> names(list, name),
{
    let views = crate::model::seq_view(list);
    if views.contains(name) {
        let i = views.index_of(name);
        assert(list[i]@ == views[i]);
    }
    if names(list, name) {
        let i = choose|i: int| 0 <= i < list.len() && (#[trigger] list[i])@ == name;
        assert(views[i] == name);
    }
}

/// What is accepted says exactly what the claims of the token say, and nothing of resources, groups
/// or the identity provider where they only name the user.
pub proof fn accepted_token_says_what_its_claims_say(
    verifier: JwtVerifier,
    state: VerifyState,
    parsed: Result<Claims, jsonwebtoken::errors::Error>,
    next: (VerifyState, VerifyAction),
    accepted: AuthorizationToken,
)
    requires
        verifier.follows(state, VerifyEvent::Claims { parsed }, next),
        next.1 == (VerifyAction::Finish { result: Ok(accepted) }),
    ensures
        match parsed {
            Ok(Claims::User(user)) => {
                &&& accepted.user_id@ == user.user_id@
                &&& accepted.issuer@ == user.issuer@
                &&& accepted.issued_at == user.issued_at
                &&& accepted.expires == user.expires
                &&& accepted.audience@.len() == user.audience@.len()
                &&& forall|i: int|
                    0 <= i < user.audience@.len() ==> (#[trigger] accepted.audience@[i])@
                        == user.audience@[i]@
                &&& accepted.env@ == user.env@
                &&& accepted.name@ == user.name@
                &&& accepted.preferred_username@ == user.preferred_username@
                &&& accepted.is_service_account == user.is_service_account
                &&& accepted.resources is None
                &&& accepted.groups is None
                &&& accepted.idp@.len() == 0
            },
            Ok(Claims::Authorization(token)) => {
                &&& accepted.user_id@ == token.user_id@
                &&& accepted.issuer@ == token.issuer@
                &&& accepted.issued_at == token.issued_at
                &&& accepted.expires == token.expires
                &&& accepted.audience@.len() == token.audience@.len()
                &&& forall|i: int|
                    0 <= i < token.audience@.len() ==> (#[trigger] accepted.audience@[i])@
                        == token.audience@[i]@
                &&& accepted.env@ == token.env@
                &&& accepted.name@ == token.name@
                &&& accepted.preferred_username@ == token.preferred_username@
                &&& accepted.is_service_account == token.is_service_account
                &&& accepted.idp@ == token.idp@
                &&& accepted.resources is Some <==> token.resources is Some
                &&& accepted.groups is Some <==> token.groups is Some
                &&& accepted.groups matches Some(groups) ==> groups@.len()
                    == token.groups->0@.len() && forall|i: int|
                    0 <= i < groups@.len() ==> (#[trigger] groups@[i])@ == token.groups->0@[i]@
                &&& accepted.resources matches Some(resources) ==> resources@.len()
                    == token.resources->0@.len() && forall|i: int|
                    0 <= i < resources@.len() ==> {
                        let from = token.resources->0@[i];
                        &&& (#[trigger] resources@[i]).resource_id@ == from.resource_id@
                        &&& resources@[i].permission@.len() == from.permission@.len()
                        &&& forall|k: int|
                            0 <= k < from.permission@.len() ==> (
                            #[trigger] resources@[i].permission@[k])@ == from.permission@[k]@
                    }
            },
            Err(_) => false,
        },
{
    match parsed {
        Ok(Claims::User(user)) => {
            lemma_same_texts(accepted.audience@, user.audience@);
        },
        Ok(Claims::Authorization(token)) => {
            lemma_same_texts(accepted.audience@, token.audience@);
            assert(accepted@ == token@);
            if accepted.groups is Some {
                lemma_same_texts(accepted.groups->0@, token.groups->0@);
            }
            if accepted.resources is Some {
                let ours = accepted.resources->0@;
                let theirs = token.resources->0@;
                assert(crate::model::seq_view(ours) == crate::model::seq_view(theirs));
                assert(ours.len() == crate::model::seq_view(ours).len());
                assert(theirs.len() == crate::model::seq_view(theirs).len());
                assert forall|i: int| 0 <= i < ours.len() implies {
                    let from = theirs[i];
                    &&& (#[trigger] ours[i]).resource_id@ == from.resource_id@
                    &&& ours[i].permission@.len() == from.permission@.len()
                    &&& forall|k: int|
                        0 <= k < from.permission@.len() ==> (#[trigger] ours[i].permission@[k])@
                            == from.permission@[k]@
                } by {
                    assert(crate::model::seq_view(ours)[i] == ours[i]@);
                    assert(crate::model::seq_view(theirs)[i] == theirs[i]@);
                    lemma_same_texts(ours[i].permission@, theirs[i].permission@);
                }
            }
        },
        Err(_) => {},
    }
}

proof fn lemma_same_texts(a: Seq<String>, b: Seq<String>)
    ensures
        crate::model::seq_view(a) == crate::model::seq_view(b) ==> a.len() == b.len() && forall|i: int|
            0 <= i < a.len() ==> (#[trigger] a[i])@ == b[i]@,
{
    if crate::model::seq_view(a) == crate::model::seq_view(b) {
        assert(a.len() == crate::model::seq_view(a).len());
        assert(b.len() == crate::model::seq_view(b).len());
        assert forall|i: int| 0 <= i < a.len() implies (#[trigger] a[i])@ == b[i]@ by {
            assert(crate::model::seq_view(a)[i] == a[i]@);
            assert(crate::model::seq_view(b)[i] == b[i]@);
        }
    }
}

/// Why parsed claims are refused: for another environment than the required one; else for a
/// mandatory audience that the rules name and the claims lack; or because the token has expired, is
/// not signed with the key, or does not meet the issuer and the audience of the rules.
pub proof fn refused_claims_have_a_reason(
    verifier: JwtVerifier,
    token: String,
    key: jsonwebtoken::DecodingKey,
    claims: Claims,
    next: (VerifyState, VerifyAction),
    error: JwtVerifierError,
)
    requires
        verifier.follows(
            VerifyState::Claims { token, key },
            VerifyEvent::Claims { parsed: Ok(claims) },
            next,
        ),
        next.1 == (VerifyAction::Finish { result: Err(error) }),
    ensures
        ({
            let env = match claims {
                Claims::Authorization(token) => token.env@,
                Claims::User(user) => user.env@,
            };
            let audience = match claims {
                Claims::Authorization(token) => token.audience@,
                Claims::User(user) => user.audience@,
            };
            let foreign = verifier.required_environment is Some
                && verifier.required_environment->0@ != env;
            match error {
                JwtVerifierError::EnvironmentMismatch => foreign,
                JwtVerifierError::AudienceMismatch => {
                    &&& !foreign
                    &&& verifier.jwt_audience matches Some(required) && {
                        ||| names(required@, "lore"@) && !names(audience, "lore"@)
                        ||| names(required@, "portals.sh"@) && !names(audience, "portals.sh"@)
                    }
                },
                JwtVerifierError::ValidationFailed(fault) => {
                    ||| jose::is_expiry(fault)
                    ||| !jose::is_signed(token@, key, verifier.algorithm.name_view())
                    ||| !jose::claims_accepted(
                        token@,
                        key,
                        verifier.algorithm.name_view(),
                        match verifier.jwt_issuer {
                            Some(issuer) => Some(issuer@),
                            None => None,
                        },
                        match verifier.jwt_audience {
                            Some(audience) => Some(
                                Seq::new(audience@.len(), |i: int| audience@[i]@),
                            ),
                            None => None,
                        },
                    )
                },
                _ => false,
            }
        }),
{
    let audience = match claims {
        Claims::Authorization(token) => token.audience@,
        Claims::User(user) => user.audience@,
    };
    lemma_names(audience, "lore"@);
    lemma_names(audience, "portals.sh"@);
    if let Some(required) = verifier.jwt_audience {
        lemma_names(required@, "lore"@);
        lemma_names(required@, "portals.sh"@);
        assert(crate::model::seq_view(required@) =~= Seq::new(
            required@.len(),
            |i: int| required@[i]@,
        ));
    }
}

/// Claims are accepted only of a token that is signed with the key and meets the issuer and the
/// audience of the rules.
pub proof fn accepted_token_meets_the_rules(
    verifier: JwtVerifier,
    token: String,
    key: jsonwebtoken::DecodingKey,
    parsed: Result<Claims, jsonwebtoken::errors::Error>,
    next: (VerifyState, VerifyAction),
    accepted: AuthorizationToken,
)
    requires
        verifier.follows(
            VerifyState::Claims { token, key },
            VerifyEvent::Claims { parsed },
            next,
        ),
        next.1 == (VerifyAction::Finish { result: Ok(accepted) }),
    ensures
        jose::is_signed(token@, key, verifier.algorithm.name_view()),
        jose::claims_accepted(
            token@,
            key,
            verifier.algorithm.name_view(),
            match verifier.jwt_issuer {
                Some(issuer) => Some(issuer@),
                None => None,
            },
            match verifier.jwt_audience {
                Some(audience) => Some(Seq::new(audience@.len(), |i: int| audience@[i]@)),
                None => None,
            },
        ),
{
    if let Some(audience) = verifier.jwt_audience {
        assert(crate::model::seq_view(audience@) =~= Seq::new(
            audience@.len(),
            |i: int| audience@[i]@,
        ));
    }
}

/// Claims that cannot be parsed are refused for just that, with nothing accepted.
pub proof fn unparsed_claims_are_refused(
    verifier: JwtVerifier,
    state: VerifyState,
    fault: jsonwebtoken::errors::Error,
    next: (VerifyState, VerifyAction),
)
    requires
        verifier.follows(state, VerifyEvent::Claims { parsed: Err(fault) }, next),
    ensures
        next.0 is Finished,
        next.1 == (VerifyAction::Finish {
            result: Err(JwtVerifierError::ValidationFailed(fault)),
        }),
{
}

/// What follows the search for the key: without one, and with one for another algorithm than the
/// permitted one, the token is refused; else its own claims are parsed next, and it is the same token
/// and the same key that they are judged by.
pub proof fn found_key_is_used_for_the_same_token(
    verifier: JwtVerifier,
    token: String,
    reply: Result<JWKServiceKey, JWKServiceError>,
    next: (VerifyState, VerifyAction),
)
    requires
        verifier.follows(VerifyState::Key { token }, VerifyEvent::Key { reply }, next),
    ensures
        match reply {
            Err(error) => next.1 == (VerifyAction::Finish {
                result: Err(JwtVerifierError::KeyNotFound(error)),
            }),
            Ok(key) => if key.algorithm != verifier.algorithm {
                next.1 == (VerifyAction::Finish {
                    result: Err(JwtVerifierError::AlgorithmNotAllowed),
                })
            } else {
                match next.1 {
                    VerifyAction::ParseClaims { claims } => {
                        &&& jose::is_signed(
                            token@,
                            key.decoding_key,
                            verifier.algorithm.name_view(),
                        )
                        &&& jose::claims_bytes(token@) == Some(claims@)
                        &&& next.0 matches VerifyState::Claims { token: kept, key: used }
                            && kept@ == token@ && used == key.decoding_key
                    },
                    VerifyAction::Finish { result } => {
                        &&& !jose::is_signed(
                            token@,
                            key.decoding_key,
                            verifier.algorithm.name_view(),
                        )
                        &&& result matches Err(error) && error is ValidationFailed
                    },
                    VerifyAction::GetKey { .. } => false,
                }
            },
        },
{
}

/// How a verification begins: a header that names another algorithm than the permitted one is
/// refused, then one that names no key or only white space; else exactly the key that it names is
/// asked for, and the token is kept as it is.
pub proof fn header_decides_the_key(
    verifier: JwtVerifier,
    token: Seq<char>,
    next: (VerifyState, VerifyAction),
)
    requires
        verifier.begins(token, next),
    ensures
        match jose::token_header(token) {
            None => next.1 matches VerifyAction::Finish { result } && (result matches Err(error)
                && error is ValidationFailed),
            Some(header) => if header.algorithm != verifier.algorithm.name_view() {
                next.1 == (VerifyAction::Finish {
                    result: Err(JwtVerifierError::AlgorithmNotAllowed),
                })
            } else if header.kid matches Some(kid) && exists|i: int|
                0 <= i < kid.len() && !#[trigger] text::is_white_space(kid[i]) {
                &&& next.0 matches VerifyState::Key { token: kept } && kept@ == token
                &&& next.1 matches VerifyAction::GetKey { kid: asked } && Some(asked@)
                    == header.kid
            } else {
                next.1 == (VerifyAction::Finish {
                    result: Err(JwtVerifierError::HeaderKIDMissing),
                })
            },
        },
{
    if let Some(header) = jose::token_header(token) {
        if let Some(kid) = header.kid {
            crate::text_laws::trimmed_text_is_empty_where_all_is_white(kid);
        }
    }
}

/// The claims of a token are what stands between its last two dots.
pub proof fn claims_stand_between_the_last_two_dots(
    head: Seq<char>,
    part: Seq<char>,
    signature: Seq<char>,
)
    requires
        !part.contains('.'),
        !signature.contains('.'),
    ensures
        jose::claims_part(head + seq!['.'] + part + seq!['.'] + signature) == part,
        jose::claims_bytes(head + seq!['.'] + part + seq!['.'] + signature)
            == jose::base64_url_bytes(part),
{
    reveal_strlit(".");
    let front = head + seq!['.'] + part;
    let token = front + seq!['.'] + signature;
    assert("."@ =~= seq!['.']);
    crate::text_laws::last_dot_is_found(front, signature);
    assert(token.take(front.len() as int) =~= front);
    crate::text_laws::last_dot_is_found(head, part);
    assert(token.subrange(head.len() as int + 1, front.len() as int) =~= part);
}

/// The name of an algorithm is the one that headers and key sets give it.
pub proof fn algorithms_have_their_standard_names(algorithm: Algorithm)
    ensures
        algorithm.name_view() == match algorithm {
            Algorithm::HS256 => "HS256"@,
            Algorithm::HS384 => "HS384"@,
            Algorithm::HS512 => "HS512"@,
            Algorithm::ES256 => "ES256"@,
            Algorithm::ES384 => "ES384"@,
            Algorithm::RS256 => "RS256"@,
            Algorithm::RS384 => "RS384"@,
            Algorithm::RS512 => "RS512"@,
            Algorithm::PS256 => "PS256"@,
            Algorithm::PS384 => "PS384"@,
            Algorithm::PS512 => "PS512"@,
            Algorithm::EdDSA => "EdDSA"@,
        },
{
}

/// A token allows access to a repository exactly where it names one resource, that of the
/// repository, and allows reading or writing it.
pub proof fn access_is_for_one_named_repository(token: AuthorizationToken, repository: RepositoryId)
    ensures
        jwt::authorized(token@, repository) <==> (token.resources matches Some(resources)
            && resources@.len() == 1 && resources@[0].resource_id@ == "urc-"@
            + repository.context.hex() && (names(resources@[0].permission@, "read"@) || names(
            resources@[0].permission@,
            "write"@,
        ))),
{
    if let Some(resources) = token.resources {
        assert(crate::model::seq_view(resources@).len() == resources@.len());
        if resources@.len() == 1 {
            assert(crate::model::seq_view(resources@)[0] == resources@[0]@);
            lemma_names(resources@[0].permission@, "read"@);
            lemma_names(resources@[0].permission@, "write"@);
        }
    }
}

/// What is known of a header is what it holds.
pub proof fn header_is_what_it_holds(header: TokenHeader)
    ensures
        header@.algorithm == header.algorithm@,
        match (header.kid, header@.kid) {
            (Some(kid), Some(seen)) => seen == kid@,
            (None, None) => true,
            _ => false,
        },
{
}

} // verus!
