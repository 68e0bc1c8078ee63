//! Signed tokens and the keys that verify them.
//!
//! The signatures, the encoding of tokens and the parsing of key sets come from `jsonwebtoken` and
//! `serde_json`; what stands here says of them no more than their sources show.
use std::str::FromStr;

use base64::Engine;
use vstd::prelude::*;
use vstd::slice::*;
use vstd::string::*;

use crate::model;
use crate::text;

verus! {

/// The failure of `jsonwebtoken`, carried through unchanged.
#[verifier::external_type_specification]
#[verifier::external_body]
pub struct ExTokenError(jsonwebtoken::errors::Error);

/// The failure of `serde_json`, carried through unchanged.
#[verifier::external_type_specification]
#[verifier::external_body]
pub struct ExJsonError(serde_json::Error);

/// A key that verifies signatures.
#[verifier::external_type_specification]
#[verifier::external_body]
pub struct ExDecodingKey(jsonwebtoken::DecodingKey);

/// A key as a key set publishes it.
#[verifier::external_type_specification]
#[verifier::external_body]
pub struct ExJwk(jsonwebtoken::jwk::Jwk);

/// The derived `clone` of `jsonwebtoken::DecodingKey` gives an equal key.
pub assume_specification[ <jsonwebtoken::DecodingKey as Clone>::clone ](
    key: &jsonwebtoken::DecodingKey,
) -> (copy: jsonwebtoken::DecodingKey)
    ensures
        copy == *key,
;

/// How a token is signed.
#[derive(Debug, Clone, Copy, PartialEq, Eq, Structural)]
pub enum Algorithm {
    HS256,
    HS384,
    HS512,
    ES256,
    ES384,
    RS256,
    RS384,
    RS512,
    PS256,
    PS384,
    PS512,
    EdDSA,
}

impl Algorithm {
    /// The name that headers and key sets give the algorithm.
    pub open spec fn name_view(self) -> Seq<char> {
        match self {
            Algorithm::HS256 => "HS256"@,
            Algorithm::HS384 => "HS384"@,
            Algorithm::HS512 => "HS512"@,
            Algorithm::ES256 => "ES256"@,
            Algorithm::ES384 => "ES384"@,
            Algorithm::RS256 => "RS256"@,
            Algorithm::RS384 => "RS384"@,
            Algorithm::RS512 => "RS512"@,
            Algorithm::PS256 => "PS256"@,
            Algorithm::PS384 => "PS384"@,
            Algorithm::PS512 => "PS512"@,
            Algorithm::EdDSA => "EdDSA"@,
        }
    }

    /// Gives the name of the algorithm.
    pub fn name(self) -> (name: &'static str)
        ensures
            name@ == self.name_view(),
    {
        match self {
            Algorithm::HS256 => "HS256",
            Algorithm::HS384 => "HS384",
            Algorithm::HS512 => "HS512",
            Algorithm::ES256 => "ES256",
            Algorithm::ES384 => "ES384",
            Algorithm::RS256 => "RS256",
            Algorithm::RS384 => "RS384",
            Algorithm::RS512 => "RS512",
            Algorithm::PS256 => "PS256",
            Algorithm::PS384 => "PS384",
            Algorithm::PS512 => "PS512",
            Algorithm::EdDSA => "EdDSA",
        }
    }
}

/// The algorithm of a name, if it is the name of one.
pub open spec fn algorithm_named(name: Seq<char>) -> Option<Algorithm> {
    if exists|a: Algorithm| #[trigger] a.name_view() == name {
        Some(choose|a: Algorithm| #[trigger] a.name_view() == name)
    } else {
        None
    }
}

/// Two algorithms have two names, so that the algorithm of a name is unique.
pub proof fn algorithm_names_are_distinct(a: Algorithm, b: Algorithm)
    ensures
        a.name_view() == b.name_view() ==> a == b,
        algorithm_named(a.name_view()) == Some(a),
{
    reveal_strlit("HS256");
    reveal_strlit("HS384");
    reveal_strlit("HS512");
    reveal_strlit("ES256");
    reveal_strlit("ES384");
    reveal_strlit("RS256");
    reveal_strlit("RS384");
    reveal_strlit("RS512");
    reveal_strlit("PS256");
    reveal_strlit("PS384");
    reveal_strlit("PS512");
    reveal_strlit("EdDSA");
    assert forall|x: Algorithm, y: Algorithm| #[trigger] x.name_view() == #[trigger] y.name_view() implies x
        == y by {
        let p = x.name_view();
        let q = y.name_view();
        assert(p[0] == q[0] && p[2] == q[2] && p[3] == q[3]);
    }
}

/// Calls `<jsonwebtoken::Algorithm as FromStr>::from_str`, which knows exactly the names of the
/// algorithms.
#[verifier::external_body]
pub(crate) fn parse_algorithm(name: &str) -> (r: Result<Algorithm, jsonwebtoken::errors::Error>)
    ensures
        r matches Ok(a) ==> algorithm_named(name@) == Some(a),
        r is Err ==> algorithm_named(name@) is None,
{
    Ok(match jsonwebtoken::Algorithm::from_str(name)? {
        jsonwebtoken::Algorithm::HS256 => Algorithm::HS256,
        jsonwebtoken::Algorithm::HS384 => Algorithm::HS384,
        jsonwebtoken::Algorithm::HS512 => Algorithm::HS512,
        jsonwebtoken::Algorithm::ES256 => Algorithm::ES256,
        jsonwebtoken::Algorithm::ES384 => Algorithm::ES384,
        jsonwebtoken::Algorithm::RS256 => Algorithm::RS256,
        jsonwebtoken::Algorithm::RS384 => Algorithm::RS384,
        jsonwebtoken::Algorithm::RS512 => Algorithm::RS512,
        jsonwebtoken::Algorithm::PS256 => Algorithm::PS256,
        jsonwebtoken::Algorithm::PS384 => Algorithm::PS384,
        jsonwebtoken::Algorithm::PS512 => Algorithm::PS512,
        jsonwebtoken::Algorithm::EdDSA => Algorithm::EdDSA,
    })
}

/// What the header of a token says: the name of its algorithm and the identifier of its key.
#[derive(Debug)]
pub struct TokenHeader {
    pub algorithm: String,
    pub kid: Option<String>,
}

/// The model of [`TokenHeader`].
pub struct TokenHeaderView {
    pub algorithm: Seq<char>,
    pub kid: Option<Seq<char>>,
}

impl View for TokenHeader {
    type V = TokenHeaderView;

    open spec fn view(&self) -> TokenHeaderView {
        TokenHeaderView { algorithm: self.algorithm@, kid: model::opt_view(self.kid) }
    }
}

/// The header of a token, where it has one that can be read: what
/// `jsonwebtoken::decode_header` gives.
pub uninterp spec fn token_header(token: Seq<char>) -> Option<TokenHeaderView>;

/// Calls `jsonwebtoken::decode_header`, which reads nothing but the token. The algorithm is given
/// by the name of its variant.
#[verifier::external_body]
pub(crate) fn decode_header(token: &str) -> (r: Result<TokenHeader, jsonwebtoken::errors::Error>)
    ensures
        model::opt_view(model::ok(r)) == token_header(token@),
{
    let header = jsonwebtoken::decode_header(token)?;
    Ok(TokenHeader { algorithm: format!("{:?}", header.alg), kid: header.kid })
}

/// The part of a token that holds its claims: what stands between its last two dots.
pub open spec fn claims_part(token: Seq<char>) -> Seq<char> {
    match text::last_occurrence(token, "."@) {
        Some(end) => match text::last_occurrence(token.take(end), "."@) {
            Some(dot) => token.subrange(dot + 1, end),
            None => Seq::empty(),
        },
        None => Seq::empty(),
    }
}

/// Gives the part of a token that holds its claims.
pub fn claims_segment(token: &str) -> (part: String)
    ensures
        part@ == claims_part(token@),
{
    proof {
        reveal_strlit(".");
    }
    let chars = text::chars_of(token);
    let end: usize = match text::rfind(token, ".") {
        Some(end) => end,
        None => return String::new(),
    };
    let message = slice_subrange(chars.as_slice(), 0, end);
    assert(message@ =~= token@.take(end as int));
    match text::rfind(text::string_of(message).as_str(), ".") {
        Some(dot) => {
            let part = slice_subrange(chars.as_slice(), dot + 1, end);
            assert(part@ =~= token@.subrange(dot + 1, end as int));
            text::string_of(part)
        },
        None => String::new(),
    }
}

/// The bytes of which a text is the URL-safe base 64 form without padding, if it is one: what
/// `base64::prelude::BASE64_URL_SAFE_NO_PAD` reads.
pub uninterp spec fn base64_url_bytes(text: Seq<char>) -> Option<Seq<u8>>;

/// Calls `decode` of `base64::prelude::BASE64_URL_SAFE_NO_PAD`.
#[verifier::external_body]
fn from_base64_url(text: &str) -> (r: Option<Vec<u8>>)
    ensures
        model::opt_view(r) == base64_url_bytes(text@),
{
    base64::prelude::BASE64_URL_SAFE_NO_PAD.decode(text).ok()
}

/// The claims of a token, as they were written.
pub open spec fn claims_bytes(token: Seq<char>) -> Option<Seq<u8>> {
    base64_url_bytes(claims_part(token))
}

/// Gives the claims of a token, as they were written.
pub(crate) fn read_claims(token: &str) -> (r: Option<Vec<u8>>)
    ensures
        model::opt_view(r) == claims_bytes(token@),
{
    from_base64_url(claims_segment(token).as_str())
}

/// Whether a token is signed with the key by the algorithm of that name, has an expiry, and names an
/// accepted issuer and an accepted audience, as far as these are limited: whether
/// `jsonwebtoken::decode` takes it, apart from whether it has expired.
pub uninterp spec fn claims_accepted(
    token: Seq<char>,
    key: jsonwebtoken::DecodingKey,
    algorithm: Seq<char>,
    issuer: Option<Seq<char>>,
    audience: Option<Seq<Seq<char>>>,
) -> bool;

/// Whether the failure is that a token has expired: whether its kind is
/// `jsonwebtoken::errors::ErrorKind::ExpiredSignature`.
pub uninterp spec fn is_expiry(error: jsonwebtoken::errors::Error) -> bool;

/// Calls `kind` of `jsonwebtoken::errors::Error` and tells whether it is `ExpiredSignature`.
#[verifier::external_body]
pub(crate) fn tells_expiry(error: &jsonwebtoken::errors::Error) -> (r: bool)
    ensures
        r == is_expiry(*error),
{
    matches!(error.kind(), jsonwebtoken::errors::ErrorKind::ExpiredSignature)
}

/// Calls `jsonwebtoken::decode`, with a `jsonwebtoken::Validation` for the algorithm of that name
/// which also checks the expiry, and with claims of which nothing is kept. Whether a token has
/// expired depends on the clock, and nothing else does: a token that is taken is accepted, and signed
/// as it is also where its claims are not checked, and one that is refused for anything but its
/// expiry is not. The clock has to stand at least a minute after the epoch.
#[verifier::external_body]
pub(crate) fn check_claims(
    token: &str,
    key: &jsonwebtoken::DecodingKey,
    algorithm: &str,
    issuer: &Option<String>,
    audience: &Option<Vec<String>>,
) -> (r: Result<(), jsonwebtoken::errors::Error>)
    ensures
        r is Ok ==> claims_accepted(
            token@,
            *key,
            algorithm@,
            model::opt_view(*issuer),
            model::opt_seq_view(*audience),
        ) && is_signed(token@, *key, algorithm@),
        r matches Err(error) ==> is_expiry(error) || !(claims_accepted(
            token@,
            *key,
            algorithm@,
            model::opt_view(*issuer),
            model::opt_seq_view(*audience),
        ) && is_signed(token@, *key, algorithm@)),
{
    let mut validation = jsonwebtoken::Validation::new(jsonwebtoken::Algorithm::from_str(algorithm)?);
    validation.iss = issuer.clone().map(|name| std::iter::once(name).collect());
    validation.aud = audience.clone().map(|names| names.into_iter().collect());
    validation.validate_exp = true;
    jsonwebtoken::decode::<serde::de::IgnoredAny>(token, key, &validation)?;
    Ok(())
}

/// Whether a token is signed with the key by the algorithm of that name, and its claims, whatever
/// they say, can be read: whether `jsonwebtoken::decode` takes it without checking the claims.
pub uninterp spec fn is_signed(
    token: Seq<char>,
    key: jsonwebtoken::DecodingKey,
    algorithm: Seq<char>,
) -> bool;

/// Calls `jsonwebtoken::decode` with a `jsonwebtoken::Validation` for the algorithm of that name
/// that asks for no claim and whose checks of the audience and the time are switched off, so that
/// nothing but the three arguments is read, and with claims of which nothing is kept. It decodes the
/// part of the token that holds the claims, which is between its last two dots.
#[verifier::external_body]
pub(crate) fn check_signature(token: &str, key: &jsonwebtoken::DecodingKey, algorithm: &str) -> (r:
    Result<(), jsonwebtoken::errors::Error>)
    ensures
        r is Ok <==> is_signed(token@, *key, algorithm@),
        r is Ok ==> claims_bytes(token@) is Some,
{
    let mut validation = jsonwebtoken::Validation::new(jsonwebtoken::Algorithm::from_str(algorithm)?);
    validation.required_spec_claims.clear();
    validation.validate_aud = false;
    validation.validate_exp = false;
    jsonwebtoken::decode::<serde::de::IgnoredAny>(token, key, &validation)?;
    Ok(())
}

/// Whether the claims of a token, whoever signed it, can be read: whether `jsonwebtoken::decode`
/// takes it without checking the signature, the audience or the time.
pub uninterp spec fn is_readable(token: Seq<char>, algorithm: Seq<char>) -> bool;

/// Calls `jsonwebtoken::decode` with a `jsonwebtoken::Validation` for the algorithm of that name
/// whose checks of the signature, the audience and the time are switched off, so that nothing but
/// the two arguments is read, and with claims of which nothing is kept. It decodes the part of the
/// token that holds the claims, which is between its last two dots.
#[verifier::external_body]
pub(crate) fn check_readable(token: &str, algorithm: &str) -> (r: Result<
    (),
    jsonwebtoken::errors::Error,
>)
    ensures
        r is Ok <==> is_readable(token@, algorithm@),
        r is Ok ==> claims_bytes(token@) is Some,
{
    let key = jsonwebtoken::DecodingKey::from_secret(&[]);
    let mut validation = jsonwebtoken::Validation::new(jsonwebtoken::Algorithm::from_str(algorithm)?);
    validation.insecure_disable_signature_validation();
    validation.validate_aud = false;
    validation.validate_exp = false;
    validation.validate_nbf = false;
    jsonwebtoken::decode::<serde::de::IgnoredAny>(token, &key, &validation)?;
    Ok(())
}

/// A key of a published key set, with what the set says of it.
#[derive(Debug)]
pub struct KeyRecord {
    pub key_id: Option<String>,
    pub algorithm: Option<String>,
    pub jwk: jsonwebtoken::jwk::Jwk,
}

/// The model of [`KeyRecord`].
pub struct KeyRecordView {
    pub key_id: Option<Seq<char>>,
    pub algorithm: Option<Seq<char>>,
    pub jwk: jsonwebtoken::jwk::Jwk,
}

impl View for KeyRecord {
    type V = KeyRecordView;

    open spec fn view(&self) -> KeyRecordView {
        KeyRecordView {
            key_id: model::opt_view(self.key_id),
            algorithm: model::opt_view(self.algorithm),
            jwk: self.jwk,
        }
    }
}

/// The keys of a published key set, in its order, where the text is one: what
/// `serde_json::from_str` reads as a `jsonwebtoken::jwk::JwkSet`.
pub uninterp spec fn key_set(text: Seq<char>) -> Option<Seq<KeyRecordView>>;

/// Calls `serde_json::from_str` for a `jsonwebtoken::jwk::JwkSet`, which reads nothing but the
/// text. Algorithms are given by their names.
#[verifier::external_body]
pub(crate) fn parse_key_set(text: &str) -> (r: Result<Vec<KeyRecord>, serde_json::Error>)
    ensures
        model::opt_seq_view(model::ok(r)) == key_set(text@),
{
    let set: jsonwebtoken::jwk::JwkSet = serde_json::from_str(text)?;
    let record = |jwk: jsonwebtoken::jwk::Jwk| KeyRecord {
        key_id: jwk.common.key_id.clone(),
        algorithm: jwk.common.key_algorithm.map(|algorithm| algorithm.to_string()),
        jwk,
    };
    Ok(set.keys.into_iter().map(record).collect())
}

/// The key that verifies what the published key signs, where its parameters can be decoded: what
/// `jsonwebtoken::DecodingKey::from_jwk` gives.
pub uninterp spec fn verifying_key(jwk: jsonwebtoken::jwk::Jwk) -> Option<jsonwebtoken::DecodingKey>;

/// Calls `jsonwebtoken::DecodingKey::from_jwk`, which reads nothing but the published key.
#[verifier::external_body]
pub(crate) fn decode_key(jwk: &jsonwebtoken::jwk::Jwk) -> (r: Result<
    jsonwebtoken::DecodingKey,
    jsonwebtoken::errors::Error,
>)
    ensures
        model::ok(r) == verifying_key(*jwk),
{
    jsonwebtoken::DecodingKey::from_jwk(jwk)
}

} // verus!
