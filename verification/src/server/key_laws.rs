//! What holds of the keys that are fetched and given, said of what was published and when.
use vstd::prelude::*;

use crate::jose;
use crate::jose::{Algorithm, KeyRecord, KeyRecordView};
use crate::server::jwk::{
    cache_knows_the_published_keys, cache_of, decoded_keys, entry_of, given_after_fetch, reports,
    verifying_keys,
    JWKServiceError, JWKServiceKey, JwkServiceImpl, KeyFault, KeyLookup,
};

verus! {

/// Whether a published key can be used: it has an identifier, the name of an algorithm, and
/// parameters that were decoded.
pub open spec fn usable(
    record: KeyRecordView,
    decoded: Option<jsonwebtoken::DecodingKey>,
) -> bool {
    &&& record.key_id is Some
    &&& record.algorithm matches Some(name) && exists|a: Algorithm| #[trigger] a.name_view() == name
    &&& decoded is Some
}

/// A cached key is that of the last published record with its identifier: for the algorithm that the
/// record names, with the parameters of the record.
pub proof fn cached_key_is_the_last_published(
    records: Seq<KeyRecordView>,
    decoded: Seq<Option<jsonwebtoken::DecodingKey>>,
    keys: Map<Seq<char>, JWKServiceKey>,
    i: int,
    kid: Seq<char>,
)
    requires
        cache_of(records, decoded) == Ok::<Map<Seq<char>, JWKServiceKey>, KeyFault>(keys),
        0 <= i < records.len(),
        records[i].key_id == Some(kid),
        forall|j: int| i < j < records.len() ==> (#[trigger] records[j]).key_id != Some(kid),
    ensures
        keys.contains_key(kid),
        records[i].algorithm == Some(keys[kid].algorithm.name_view()),
        decoded[i] == Some(keys[kid].decoding_key),
    decreases records.len(),
{
    let earlier = records.drop_last();
    let before = cache_of(earlier, decoded)->Ok_0;
    if i == records.len() - 1 {
        lemma_named(records[i].algorithm->0);
    } else {
        assert forall|j: int| i < j < earlier.len() implies (#[trigger] earlier[j]).key_id != Some(
            kid,
        ) by {
            assert(earlier[j] == records[j]);
        }
        assert(earlier[i] == records[i]);
        cached_key_is_the_last_published(earlier, decoded, before, i, kid);
        assert(records[records.len() - 1].key_id != Some(kid));
    }
}

proof fn lemma_named(name: Seq<char>)
    ensures
        jose::algorithm_named(name) matches Some(a) ==> a.name_view() == name,
        jose::algorithm_named(name) is Some <==> exists|a: Algorithm| #[trigger] a.name_view() == name,
{
}

proof fn lemma_last_record(records: Seq<KeyRecordView>, kid: Seq<char>, at: int) -> (i: int)
    requires
        0 <= at < records.len(),
        records[at].key_id == Some(kid),
    ensures
        at <= i < records.len(),
        records[i].key_id == Some(kid),
        forall|j: int| i < j < records.len() ==> (#[trigger] records[j]).key_id != Some(kid),
    decreases records.len() - at,
{
    if exists|j: int| at < j < records.len() && (#[trigger] records[j]).key_id == Some(kid) {
        let j = choose|j: int|
            at < j < records.len() && (#[trigger] records[j]).key_id == Some(kid);
        lemma_last_record(records, kid, j)
    } else {
        at
    }
}

/// Nothing is cached that was not published: every cached key is that of a record, the last one with
/// its identifier, with the algorithm that the record names and the parameters of the record.
pub proof fn every_cached_key_was_published(
    records: Seq<KeyRecordView>,
    decoded: Seq<Option<jsonwebtoken::DecodingKey>>,
    keys: Map<Seq<char>, JWKServiceKey>,
    kid: Seq<char>,
)
    requires
        cache_of(records, decoded) == Ok::<Map<Seq<char>, JWKServiceKey>, KeyFault>(keys),
        keys.contains_key(kid),
    ensures
        exists|i: int|
            {
                &&& 0 <= i < records.len()
                &&& (#[trigger] records[i]).key_id == Some(kid)
                &&& forall|j: int|
                    i < j < records.len() ==> (#[trigger] records[j]).key_id != Some(kid)
                &&& records[i].algorithm == Some(keys[kid].algorithm.name_view())
                &&& decoded[i] == Some(keys[kid].decoding_key)
            },
{
    cache_knows_the_published_keys(records, decoded, kid);
    let at = choose|i: int| 0 <= i < records.len() && (#[trigger] records[i]).key_id == Some(kid);
    let i = lemma_last_record(records, kid, at);
    cached_key_is_the_last_published(records, decoded, keys, i, kid);
}

/// A key set is taken exactly where every key of it can be used. Else the first one that cannot be
/// decides: it is incomplete where it lacks an identifier or an algorithm.
pub proof fn one_bad_key_refuses_the_set(
    records: Seq<KeyRecordView>,
    decoded: Seq<Option<jsonwebtoken::DecodingKey>>,
)
    ensures
        match cache_of(records, decoded) {
            Ok(_) => forall|i: int|
                0 <= i < records.len() ==> usable(#[trigger] records[i], decoded[i]),
            Err(fault) => exists|i: int|
                {
                    &&& 0 <= i < records.len()
                    &&& !usable(#[trigger] records[i], decoded[i])
                    &&& forall|j: int| 0 <= j < i ==> usable(#[trigger] records[j], decoded[j])
                    &&& fault is Incomplete <==> records[i].key_id is None
                        || records[i].algorithm is None
                },
        },
    decreases records.len(),
{
    if records.len() > 0 {
        let earlier = records.drop_last();
        let last = records.len() - 1;
        one_bad_key_refuses_the_set(earlier, decoded);
        if records[last].algorithm is Some {
            lemma_named(records[last].algorithm->0);
        }
        match cache_of(earlier, decoded) {
            Ok(_) => {
                assert forall|i: int| 0 <= i < last implies usable(
                    #[trigger] records[i],
                    decoded[i],
                ) by {
                    assert(earlier[i] == records[i]);
                }
                assert(records.last() == records[last]);
            },
            Err(fault) => {
                let i = choose|i: int|
                    {
                        &&& 0 <= i < earlier.len()
                        &&& !usable(#[trigger] earlier[i], decoded[i])
                        &&& forall|j: int| 0 <= j < i ==> usable(#[trigger] earlier[j], decoded[j])
                        &&& fault is Incomplete <==> earlier[i].key_id is None
                            || earlier[i].algorithm is None
                    };
                assert(records[i] == earlier[i]);
                assert forall|j: int| 0 <= j < i implies usable(#[trigger] records[j], decoded[j]) by {
                    assert(earlier[j] == records[j]);
                }
            },
        }
    }
}

/// What is decoded of each published key are its own parameters.
pub proof fn each_key_is_decoded(records: Seq<KeyRecordView>, i: int)
    requires
        0 <= i < records.len(),
    ensures
        verifying_keys(records).len() == records.len(),
        verifying_keys(records)[i] == jose::verifying_key(records[i].jwk),
{
}

/// A key that is incomplete is reported as an internal error, and one that cannot be decoded as a
/// decoding error, never as anything else.
pub proof fn bad_keys_are_reported_as_they_are(error: JWKServiceError, fault: KeyFault)
    ensures
        reports(error, fault) <==> match error {
            JWKServiceError::InternalError => fault is Incomplete,
            JWKServiceError::DecodingError(_) => fault is Undecodable,
            JWKServiceError::ParseError(_) => false,
            JWKServiceError::NotFound => false,
        },
{
}

/// Whether the last successful fetch lies at most `seconds` back; the time of a fetch still to come
/// counts as now.
pub open spec fn lies_back(refreshed: Option<u128>, now: u128, seconds: u64) -> bool {
    refreshed matches Some(time) && now - time <= seconds * 1_000_000_000
}

/// A key is given without a fetch exactly where it is known and the last successful fetch lies no
/// further back than the refresh interval; and then it is the known one of that very identifier.
pub proof fn fresh_keys_are_given_at_once(service: JwkServiceImpl, kid: Seq<char>, now: u128)
    ensures
        match service.answer(kid, now) {
            KeyLookup::Ready(key) => service.cached_set@.contains_key(kid) && key
                == service.cached_set@[kid] && lies_back(
                service.last_successful_refresh,
                now,
                service.settings.refresh_interval_seconds,
            ),
            KeyLookup::Fetch { cached, age } => {
                &&& !(service.cached_set@.contains_key(kid) && lies_back(
                    service.last_successful_refresh,
                    now,
                    service.settings.refresh_interval_seconds,
                ))
                &&& match cached {
                    Some(key) => service.cached_set@.contains_key(kid) && key
                        == service.cached_set@[kid],
                    None => !service.cached_set@.contains_key(kid),
                }
                &&& match (service.last_successful_refresh, age) {
                    (Some(time), Some(age)) => age == (if now < time {
                        0
                    } else {
                        now - time
                    }),
                    (None, None) => true,
                    _ => false,
                }
            },
        },
{
}

/// After a successful fetch only a key that is known now is given. After a failed one the key from
/// before is given exactly where there was one and it is not older than a stale key may be; else the
/// failure is reported as it is.
pub proof fn stale_keys_are_given_only_after_a_failure(
    service: JwkServiceImpl,
    kid: Seq<char>,
    cached: Option<JWKServiceKey>,
    age: Option<u128>,
    fetched: Result<(), JWKServiceError>,
)
    ensures
        ({
            let given = given_after_fetch(
                service.known(kid),
                cached,
                age,
                fetched,
                service.settings.max_stale_seconds,
            );
            match fetched {
                Ok(_) => if service.cached_set@.contains_key(kid) {
                    given == Ok::<JWKServiceKey, JWKServiceError>(service.cached_set@[kid])
                } else {
                    given == Err::<JWKServiceKey, JWKServiceError>(JWKServiceError::NotFound)
                },
                Err(error) => match (cached, age) {
                    (Some(key), Some(age)) => given == (if age
                        <= service.settings.max_stale_seconds * 1_000_000_000 {
                        Ok::<JWKServiceKey, JWKServiceError>(key)
                    } else {
                        Err::<JWKServiceKey, JWKServiceError>(error)
                    }),
                    _ => given == Err::<JWKServiceKey, JWKServiceError>(error),
                },
            }
        }),
{
}

/// What is made of a published key is its own: its identifier, the algorithm that it names and its
/// decoded parameters. It is incomplete where it lacks an identifier or an algorithm, whatever else
/// is wrong with it.
pub proof fn entry_is_that_of_the_record(
    record: KeyRecord,
    decoded: Option<jsonwebtoken::DecodingKey>,
)
    ensures
        match (record.key_id, record.algorithm) {
            (Some(kid), Some(name)) => match entry_of(record@, decoded) {
                Ok((id, key)) => id == kid@ && key.algorithm.name_view() == name@ && decoded
                    == Some(key.decoding_key),
                Err(fault) => fault is Undecodable && (decoded is None || !exists|a: Algorithm|
                    #[trigger] a.name_view() == name@),
            },
            _ => entry_of(record@, decoded) matches Err(fault) && fault is Incomplete,
        },
        record@.jwk == record.jwk,
{
    if let Some(name) = record.algorithm {
        lemma_named(name@);
    }
}

/// What was decoded of each key is what decoding it gave.
pub proof fn each_result_is_taken(
    results: Seq<Result<jsonwebtoken::DecodingKey, jsonwebtoken::errors::Error>>,
    i: int,
)
    requires
        0 <= i < results.len(),
    ensures
        decoded_keys(results).len() == results.len(),
        match results[i] {
            Ok(key) => decoded_keys(results)[i] == Some(key),
            Err(_) => decoded_keys(results)[i] is None,
        },
{
}

} // verus!
