//! The keys that verify tokens: which are cached, for how long, and when they are fetched anew.
//!
//! The endpoint is asked elsewhere. What it answered is taken in by
//! [`JwkServiceImpl::fetch_new_keys`]; [`JwkServiceImpl::get_key`] says whether it has to be asked
//! and [`JwkServiceImpl::after_fetch`] what follows.
use vstd::prelude::*;

use crate::jose;
use crate::jose::{Algorithm, KeyRecord, KeyRecordView};
use crate::model;
use crate::text;

verus! {

/// Where the keys are published, and for how long they may be used.
#[derive(Debug)]
pub struct JWKServiceSettings {
    pub endpoint: String,
    /// After so many seconds a key is used only once the endpoint has been asked again.
    pub refresh_interval_seconds: u64,
    /// For so many seconds a key may be used while the endpoint cannot be asked.
    pub max_stale_seconds: u64,
}

impl Clone for JWKServiceSettings {
    fn clone(&self) -> (copy: JWKServiceSettings)
        ensures
            copy == *self,
    {
        JWKServiceSettings {
            endpoint: self.endpoint.clone(),
            refresh_interval_seconds: self.refresh_interval_seconds,
            max_stale_seconds: self.max_stale_seconds,
        }
    }
}

/// The refresh interval where none is configured.
pub fn default_refresh_interval_seconds() -> (seconds: u64)
    ensures
        seconds == 60,
{
    60
}

/// The longest use of a stale key where none is configured.
pub fn default_max_stale_seconds() -> (seconds: u64)
    ensures
        seconds == 600,
{
    600
}

impl Default for JWKServiceSettings {
    fn default() -> (settings: JWKServiceSettings)
        ensures
            settings.endpoint@ == Seq::<char>::empty(),
            settings.refresh_interval_seconds == 60,
            settings.max_stale_seconds == 600,
    {
        let endpoint = String::new();
        JWKServiceSettings {
            endpoint,
            refresh_interval_seconds: default_refresh_interval_seconds(),
            max_stale_seconds: default_max_stale_seconds(),
        }
    }
}

/// Why no key could be given.
#[derive(Debug)]
pub enum JWKServiceError {
    /// The endpoint could not be asked, or its answer is incomplete.
    InternalError,
    /// The answer of the endpoint is no key set.
    ParseError(serde_json::Error),
    /// A key of the set, or its algorithm, cannot be used.
    DecodingError(jsonwebtoken::errors::Error),
    /// There is no key of that identifier.
    NotFound,
}

impl JWKServiceError {
    /// Describes the error.
    pub fn message(&self) -> (message: &'static str)
        ensures
            message@ == (match *self {
                JWKServiceError::InternalError => "Internal Error"@,
                JWKServiceError::ParseError(_) => "Could not parse jwks endpoint response"@,
                JWKServiceError::DecodingError(_) => "Could not decode jwk key"@,
                JWKServiceError::NotFound => "Key for kid not found"@,
            }),
    {
        match self {
            JWKServiceError::InternalError => "Internal Error",
            JWKServiceError::ParseError(_) => "Could not parse jwks endpoint response",
            JWKServiceError::DecodingError(_) => "Could not decode jwk key",
            JWKServiceError::NotFound => "Key for kid not found",
        }
    }
}

/// A key with the algorithm that it is for.
pub struct JWKServiceKey {
    pub decoding_key: jsonwebtoken::DecodingKey,
    pub algorithm: Algorithm,
}

impl Clone for JWKServiceKey {
    fn clone(&self) -> (copy: JWKServiceKey)
        ensures
            copy == *self,
    {
        JWKServiceKey { decoding_key: self.decoding_key.clone(), algorithm: self.algorithm }
    }
}

/// Keys by their identifiers.
pub struct KeyCache {
    kids: Vec<String>,
    keys: Vec<JWKServiceKey>,
}

impl View for KeyCache {
    type V = Map<Seq<char>, JWKServiceKey>;

    closed spec fn view(&self) -> Map<Seq<char>, JWKServiceKey> {
        Map::new(
            |kid: Seq<char>| model::seq_view(self.kids@).contains(kid),
            |kid: Seq<char>| self.keys@[model::seq_view(self.kids@).index_of(kid)],
        )
    }
}

impl KeyCache {
    /// No identifier occurs twice, and each has its key.
    pub closed spec fn wf(&self) -> bool {
        &&& self.kids@.len() == self.keys@.len()
        &&& model::seq_view(self.kids@).no_duplicates()
    }

    proof fn lemma_at(&self, i: int)
        requires
            self.wf(),
            0 <= i < self.kids@.len(),
        ensures
            self@.contains_key(self.kids@[i]@),
            self@[self.kids@[i]@] == self.keys@[i],
    {
        let ids = model::seq_view(self.kids@);
        assert(ids[i] == self.kids@[i]@);
        assert(ids.contains(self.kids@[i]@));
        assert(ids.index_of(self.kids@[i]@) == i);
    }

    /// A cache without keys.
    pub fn new() -> (cache: KeyCache)
        ensures
            cache.wf(),
            cache@ == Map::<Seq<char>, JWKServiceKey>::empty(),
    {
        let cache = KeyCache { kids: Vec::new(), keys: Vec::new() };
        assert(cache@ =~= Map::<Seq<char>, JWKServiceKey>::empty());
        cache
    }

    fn position(&self, kid: &str) -> (r: Option<usize>)
        requires
            self.wf(),
        ensures
            r matches Some(i) ==> i < self.kids@.len() && self.kids@[i as int]@ == kid@,
            r is None ==> !self@.contains_key(kid@),
    {
        let mut i: usize = 0;
        while i < self.kids.len()
            invariant
                i <= self.kids@.len(),
                forall|j: int| 0 <= j < i ==> self.kids@[j]@ != kid@,
            decreases self.kids@.len() - i,
        {
            if text::same_text(self.kids[i].as_str(), kid) {
                return Some(i);
            }
            i = i + 1;
        }
        proof {
            let ids = model::seq_view(self.kids@);
            if ids.contains(kid@) {
                let j = ids.index_of(kid@);
                assert(ids[j] == self.kids@[j]@);
            }
        }
        None
    }

    /// Gives the key of an identifier.
    pub fn get(&self, kid: &str) -> (r: Option<JWKServiceKey>)
        requires
            self.wf(),
        ensures
            r == (if self@.contains_key(kid@) {
                Some(self@[kid@])
            } else {
                None
            }),
    {
        match self.position(kid) {
            Some(i) => {
                proof {
                    self.lemma_at(i as int);
                }
                Some(self.keys[i].clone())
            },
            None => None,
        }
    }

    /// Gives an identifier a key, in place of the one it had.
    pub fn insert(&mut self, kid: String, key: JWKServiceKey)
        requires
            old(self).wf(),
        ensures
            final(self).wf(),
            final(self)@ == old(self)@.insert(kid@, key),
    {
        let ghost before = *self;
        let ghost ids = model::seq_view(self.kids@);
        match self.position(kid.as_str()) {
            Some(i) => {
                self.keys.set(i, key);
                proof {
                    assert(self.kids@ == before.kids@);
                    before.lemma_at(i as int);
                    assert(ids[i as int] == kid@);
                    assert forall|k: Seq<char>| #[trigger] ids.contains(k) implies self@[k] == before@.insert(
                        kid@,
                        key,
                    )[k] by {
                        let j = ids.index_of(k);
                        assert(ids[j] == k);
                        if k == kid@ {
                            assert(j == i as int);
                        } else {
                            assert(j != i as int);
                        }
                    }
                    assert(self@ =~= before@.insert(kid@, key));
                }
            },
            None => {
                self.kids.push(kid);
                self.keys.push(key);
                proof {
                    let now = model::seq_view(self.kids@);
                    assert(now =~= ids.push(kid@));
                    assert(!ids.contains(kid@));
                    assert forall|a: int, b: int| 0 <= a < b < now.len() implies now[a] != now[b] by {
                        if b == ids.len() {
                            assert(now[a] == ids[a]);
                        } else {
                            assert(now[a] == ids[a] && now[b] == ids[b]);
                        }
                    }
                    assert(self.wf());
                    assert forall|k: Seq<char>| #[trigger] now.contains(k) <==> (ids.contains(k) || k
                        == kid@) by {
                        if ids.contains(k) {
                            let j = ids.index_of(k);
                            assert(now[j] == k);
                        }
                        assert(now[ids.len() as int] == kid@);
                        if now.contains(k) {
                            let j = now.index_of(k);
                            if j < ids.len() {
                                assert(ids[j] == k);
                            }
                        }
                    }
                    assert forall|k: Seq<char>| #[trigger] now.contains(k) implies self@[k] == before@.insert(
                        kid@,
                        key,
                    )[k] by {
                        if k == kid@ {
                            self.lemma_at(ids.len() as int);
                        } else {
                            let j = ids.index_of(k);
                            assert(ids[j] == before.kids@[j]@);
                            before.lemma_at(j);
                            self.lemma_at(j);
                        }
                    }
                    assert(self@ =~= before@.insert(kid@, key));
                }
            },
        }
    }
}

/// What is wrong with a published key.
pub enum KeyFault {
    /// It has no identifier or no algorithm.
    Incomplete,
    /// Its algorithm is unknown or its parameters cannot be decoded.
    Undecodable,
}

/// Whether `error` reports `fault`.
pub open spec fn reports(error: JWKServiceError, fault: KeyFault) -> bool {
    match fault {
        KeyFault::Incomplete => error is InternalError,
        KeyFault::Undecodable => error is DecodingError,
    }
}

/// The identifier and the key of a published key, where `decoded` is what its parameters give.
pub open spec fn entry_of(
    record: KeyRecordView,
    decoded: Option<jsonwebtoken::DecodingKey>,
) -> Result<(Seq<char>, JWKServiceKey), KeyFault> {
    match (record.key_id, record.algorithm) {
        (Some(kid), Some(name)) => match (jose::algorithm_named(name), decoded) {
            (Some(algorithm), Some(decoding_key)) => Ok(
                (kid, JWKServiceKey { decoding_key, algorithm }),
            ),
            _ => Err(KeyFault::Undecodable),
        },
        _ => Err(KeyFault::Incomplete),
    }
}

/// The cache of published keys: of two with one identifier the later, and nothing at all where one
/// of them cannot be used.
pub open spec fn cache_of(
    records: Seq<KeyRecordView>,
    decoded: Seq<Option<jsonwebtoken::DecodingKey>>,
) -> Result<Map<Seq<char>, JWKServiceKey>, KeyFault>
    decreases records.len(),
{
    if records.len() == 0 {
        Ok(Map::empty())
    } else {
        match cache_of(records.drop_last(), decoded) {
            Err(fault) => Err(fault),
            Ok(earlier) => match entry_of(records.last(), decoded[records.len() - 1]) {
                Err(fault) => Err(fault),
                Ok(entry) => Ok(earlier.insert(entry.0, entry.1)),
            },
        }
    }
}

/// What the parameters of each published key give.
pub open spec fn verifying_keys(records: Seq<KeyRecordView>) -> Seq<
    Option<jsonwebtoken::DecodingKey>,
> {
    records.map_values(|record: KeyRecordView| jose::verifying_key(record.jwk))
}

/// What each of `results` holds where it is `Ok`.
pub open spec fn decoded_keys(
    results: Seq<Result<jsonwebtoken::DecodingKey, jsonwebtoken::errors::Error>>,
) -> Seq<Option<jsonwebtoken::DecodingKey>> {
    results.map_values(
        |r: Result<jsonwebtoken::DecodingKey, jsonwebtoken::errors::Error>| model::ok(r),
    )
}

/// Makes a cache entry of a published key, where `decoded` is what its parameters give.
pub fn key_entry(
    record: KeyRecord,
    decoded: Result<jsonwebtoken::DecodingKey, jsonwebtoken::errors::Error>,
) -> (r: Result<(String, JWKServiceKey), JWKServiceError>)
    ensures
        match entry_of(record@, model::ok(decoded)) {
            Ok(entry) => r matches Ok(made) && (made.0@, made.1) == entry,
            Err(fault) => r matches Err(error) && reports(error, fault),
        },
{
    let kid = match record.key_id {
        Some(kid) => kid,
        None => return Err(JWKServiceError::InternalError),
    };
    let name = match record.algorithm {
        Some(name) => name,
        None => return Err(JWKServiceError::InternalError),
    };
    let algorithm = match jose::parse_algorithm(name.as_str()) {
        Ok(algorithm) => algorithm,
        Err(error) => return Err(JWKServiceError::DecodingError(error)),
    };
    match decoded {
        Ok(decoding_key) => Ok((kid, JWKServiceKey { decoding_key, algorithm })),
        Err(error) => Err(JWKServiceError::DecodingError(error)),
    }
}

/// Makes a cache of published keys, where `decoded` is what the parameters of each give.
pub fn collect_keys(
    records: Vec<KeyRecord>,
    decoded: Vec<Result<jsonwebtoken::DecodingKey, jsonwebtoken::errors::Error>>,
) -> (r: Result<KeyCache, JWKServiceError>)
    requires
        records@.len() == decoded@.len(),
    ensures
        match cache_of(model::seq_view(records@), decoded_keys(decoded@)) {
            Ok(keys) => r matches Ok(cache) && cache.wf() && cache@ == keys,
            Err(fault) => r matches Err(error) && reports(error, fault),
        },
{
    let ghost all = model::seq_view(records@);
    let ghost keys = decoded_keys(decoded@);
    let ghost records_before = records@;
    let ghost decoded_before = decoded@;
    let count: usize = records.len();
    let mut rest = records;
    let mut rest_keys = decoded;
    let mut cache = KeyCache::new();
    let mut done: usize = 0;
    assert(all.take(0) =~= Seq::<KeyRecordView>::empty());
    while done < count
        invariant
            all == model::seq_view(records_before),
            all == model::seq_view(records@),
            keys == decoded_keys(decoded_before),
            keys == decoded_keys(decoded@),
            records_before.len() == decoded_before.len() == count,
            done <= count,
            rest@ == records_before.skip(done as int),
            rest_keys@ == decoded_before.skip(done as int),
            cache.wf(),
            cache_of(all.take(done as int), keys) == Ok::<Map<Seq<char>, JWKServiceKey>, KeyFault>(
                cache@,
            ),
        decreases count - done,
    {
        let record = rest.remove(0);
        let key = rest_keys.remove(0);
        proof {
            let part = all.take(done + 1);
            assert(part.drop_last() =~= all.take(done as int));
            assert(part.last() == record@);
            assert(keys[done as int] == model::ok(key));
            lemma_fault_stays(all, keys, done + 1);
        }
        match key_entry(record, key) {
            Ok(entry) => {
                cache.insert(entry.0, entry.1);
            },
            Err(error) => {
                return Err(error);
            },
        }
        done = done + 1;
        assert(rest@ =~= records_before.skip(done as int));
        assert(rest_keys@ =~= decoded_before.skip(done as int));
    }
    assert(all.take(done as int) =~= all);
    Ok(cache)
}

proof fn lemma_fault_stays(
    records: Seq<KeyRecordView>,
    decoded: Seq<Option<jsonwebtoken::DecodingKey>>,
    n: int,
)
    requires
        0 <= n <= records.len(),
    ensures
        cache_of(records.take(n), decoded) matches Err(fault) ==> cache_of(records, decoded)
            == Err::<Map<Seq<char>, JWKServiceKey>, KeyFault>(fault),
    decreases records.len() - n,
{
    if n == records.len() {
        assert(records.take(n) =~= records);
    } else {
        assert(records.take(n + 1).drop_last() =~= records.take(n));
        lemma_fault_stays(records, decoded, n + 1);
    }
}

/// The identifiers of a cache are those of the published keys: a key that is no longer published is
/// no longer known, and every published key is.
pub proof fn cache_knows_the_published_keys(
    records: Seq<KeyRecordView>,
    decoded: Seq<Option<jsonwebtoken::DecodingKey>>,
    kid: Seq<char>,
)
    requires
        cache_of(records, decoded) is Ok,
    ensures
        cache_of(records, decoded)->Ok_0.contains_key(kid) <==> exists|i: int|
            0 <= i < records.len() && (#[trigger] records[i]).key_id == Some(kid),
    decreases records.len(),
{
    if records.len() > 0 {
        let earlier = records.drop_last();
        cache_knows_the_published_keys(earlier, decoded, kid);
        let keys = cache_of(records, decoded)->Ok_0;
        if keys.contains_key(kid) {
            if records.last().key_id != Some(kid) {
                let i = choose|i: int|
                    0 <= i < earlier.len() && (#[trigger] earlier[i]).key_id == Some(kid);
                assert(records[i].key_id == Some(kid));
            } else {
                assert(records[records.len() - 1].key_id == Some(kid));
            }
        }
        if exists|i: int| 0 <= i < records.len() && (#[trigger] records[i]).key_id == Some(kid) {
            let i = choose|i: int|
                0 <= i < records.len() && (#[trigger] records[i]).key_id == Some(kid);
            if i < earlier.len() {
                assert(earlier[i].key_id == Some(kid));
            }
        }
    }
}

fn decode_keys(records: &Vec<KeyRecord>) -> (r: Vec<
    Result<jsonwebtoken::DecodingKey, jsonwebtoken::errors::Error>,
>)
    ensures
        r@.len() == records@.len(),
        decoded_keys(r@) == verifying_keys(model::seq_view(records@)),
{
    let mut r: Vec<Result<jsonwebtoken::DecodingKey, jsonwebtoken::errors::Error>> = Vec::new();
    let mut i: usize = 0;
    while i < records.len()
        invariant
            i <= records@.len(),
            r@.len() == i,
            forall|j: int|
                0 <= j < i ==> model::ok(#[trigger] r@[j]) == jose::verifying_key(records@[j].jwk),
        decreases records@.len() - i,
    {
        r.push(jose::decode_key(&records[i].jwk));
        i = i + 1;
    }
    assert(decoded_keys(r@) =~= verifying_keys(model::seq_view(records@)));
    r
}

/// Whether what is `age` nanoseconds old is at most `seconds` old; what has no age is not.
pub open spec fn within(age: Option<u128>, seconds: u64) -> bool {
    age is Some && age->0 <= seconds * 1_000_000_000
}

fn is_within(age: Option<u128>, seconds: u64) -> (r: bool)
    ensures
        r == within(age, seconds),
{
    match age {
        Some(nanoseconds) => nanoseconds <= seconds as u128 * 1_000_000_000,
        None => false,
    }
}

/// The answer to the question for a key.
pub enum KeyLookup {
    /// The key, which needs no fetch.
    Ready(JWKServiceKey),
    /// The endpoint has to be asked; `cached` is the key that is known until then, and `age` how
    /// old it is.
    Fetch { cached: Option<JWKServiceKey>, age: Option<u128> },
}

/// The answer to the question for a key that is `known` or not, where what is known is `age`
/// nanoseconds old.
pub open spec fn lookup_of(
    known: Option<JWKServiceKey>,
    age: Option<u128>,
    refresh_interval_seconds: u64,
) -> KeyLookup {
    match known {
        Some(key) => if within(age, refresh_interval_seconds) {
            KeyLookup::Ready(key)
        } else {
            KeyLookup::Fetch { cached: Some(key), age }
        },
        None => KeyLookup::Fetch { cached: None, age },
    }
}

/// The key that is given once the endpoint has been asked: where that succeeded the one that is
/// `known` now, else the one that was known before, as long as it is not too stale.
pub open spec fn given_after_fetch(
    known: Option<JWKServiceKey>,
    cached: Option<JWKServiceKey>,
    age: Option<u128>,
    fetched: Result<(), JWKServiceError>,
    max_stale_seconds: u64,
) -> Result<JWKServiceKey, JWKServiceError> {
    match fetched {
        Ok(_) => match known {
            Some(key) => Ok(key),
            None => Err(JWKServiceError::NotFound),
        },
        Err(error) => if cached is Some && within(age, max_stale_seconds) {
            Ok(cached->0)
        } else {
            Err(error)
        },
    }
}

/// How old what was refreshed at one time is at another, in nanoseconds. What was never refreshed has
/// no age, and nothing is younger than new.
pub open spec fn age_of(refreshed: Option<u128>, now: u128) -> Option<u128> {
    match refreshed {
        Some(time) => Some(
            if time <= now {
                (now - time) as u128
            } else {
                0
            },
        ),
        None => None,
    }
}

/// The keys that are known.
///
/// Times are nanoseconds on a clock that never goes back, counted from whenever it started.
pub struct JwkServiceImpl {
    pub settings: JWKServiceSettings,
    pub cached_set: KeyCache,
    /// When the keys were last fetched successfully.
    pub last_successful_refresh: Option<u128>,
}

impl JwkServiceImpl {
    /// Whether the cache is well formed, and empty before the first successful fetch.
    pub open spec fn wf(&self) -> bool {
        &&& self.cached_set.wf()
        &&& self.last_successful_refresh is None ==> self.cached_set@ == Map::<
            Seq<char>,
            JWKServiceKey,
        >::empty()
    }

    /// The key of an identifier, where it is known.
    pub open spec fn known(&self, kid: Seq<char>) -> Option<JWKServiceKey> {
        if self.cached_set@.contains_key(kid) {
            Some(self.cached_set@[kid])
        } else {
            None
        }
    }

    /// The answer to the question for the key of an identifier.
    pub open spec fn answer(&self, kid: Seq<char>, now: u128) -> KeyLookup {
        lookup_of(
            self.known(kid),
            age_of(self.last_successful_refresh, now),
            self.settings.refresh_interval_seconds,
        )
    }

    /// Whether the last successful fetch lies at most `seconds` back.
    pub open spec fn fetched_within(&self, now: u128, seconds: u64) -> bool {
        self.last_successful_refresh is Some && now <= self.last_successful_refresh->0 + seconds
            * 1_000_000_000
    }

    /// A service that knows no keys yet.
    pub fn new(settings: JWKServiceSettings) -> (service: JwkServiceImpl)
        ensures
            service.wf(),
            service.settings == settings,
            service.cached_set@ == Map::<Seq<char>, JWKServiceKey>::empty(),
            service.last_successful_refresh is None,
    {
        JwkServiceImpl { settings, cached_set: KeyCache::new(), last_successful_refresh: None }
    }

    /// Gives how old the known keys are.
    pub fn age(&self, now: u128) -> (age: Option<u128>)
        ensures
            age == age_of(self.last_successful_refresh, now),
    {
        match self.last_successful_refresh {
            Some(time) => if time <= now {
                Some(now - time)
            } else {
                Some(0)
            },
            None => None,
        }
    }

    /// Gives the key of an identifier, where it is known.
    pub fn get_cached_key(&self, kid: &str) -> (r: Result<JWKServiceKey, JWKServiceError>)
        requires
            self.wf(),
        ensures
            match self.known(kid@) {
                Some(key) => r == Ok::<JWKServiceKey, JWKServiceError>(key),
                None => r == Err::<JWKServiceKey, JWKServiceError>(JWKServiceError::NotFound),
            },
    {
        match self.cached_set.get(kid) {
            Some(key) => Ok(key),
            None => Err(JWKServiceError::NotFound),
        }
    }

    /// Whether the endpoint has to be asked for the sake of `desired`: not where its key is known,
    /// however old. Without `desired` it always has to be asked.
    pub fn needs_fetch(&self, desired: Option<&str>) -> (r: bool)
        requires
            self.wf(),
        ensures
            r == !(desired is Some && self.known(desired->0@) is Some),
    {
        match desired {
            Some(kid) => self.cached_set.get(kid).is_none(),
            None => true,
        }
    }

    /// Replaces the known keys by the published ones, where `decoded` is what the parameters of
    /// each give, and notes that this happened `now`. Where one of them cannot be used, nothing
    /// changes.
    pub fn replace_keys(
        &mut self,
        records: Vec<KeyRecord>,
        decoded: Vec<Result<jsonwebtoken::DecodingKey, jsonwebtoken::errors::Error>>,
        now: u128,
    ) -> (r: Result<(), JWKServiceError>)
        requires
            old(self).wf(),
            records@.len() == decoded@.len(),
        ensures
            final(self).wf(),
            final(self).settings == old(self).settings,
            match cache_of(model::seq_view(records@), decoded_keys(decoded@)) {
                Ok(keys) => {
                    &&& r is Ok
                    &&& final(self).cached_set@ == keys
                    &&& final(self).last_successful_refresh == Some(now)
                },
                Err(fault) => *final(self) == *old(self) && (r matches Err(error) && reports(
                    error,
                    fault,
                )),
            },
    {
        match collect_keys(records, decoded) {
            Ok(cache) => {
                self.cached_set = cache;
                self.last_successful_refresh = Some(now);
                Ok(())
            },
            Err(error) => Err(error),
        }
    }

    /// Takes in what the endpoint answered: whether it reported success, and the text it sent.
    /// There is no reply where it could not be asked or its text could not be read. The known keys
    /// are replaced as a whole, which makes `now` the time of the last successful fetch, or not at
    /// all.
    pub fn fetch_new_keys(&mut self, reply: Option<(bool, String)>, now: u128) -> (r: Result<
        (),
        JWKServiceError,
    >)
        requires
            old(self).wf(),
        ensures
            final(self).wf(),
            final(self).settings == old(self).settings,
            r is Err ==> *final(self) == *old(self),
            r is Ok ==> final(self).last_successful_refresh == Some(now),
            match reply {
                None => r == Err::<(), JWKServiceError>(JWKServiceError::InternalError),
                Some((success, body)) => if !success {
                    r == Err::<(), JWKServiceError>(JWKServiceError::InternalError)
                } else {
                    match jose::key_set(body@) {
                        None => r matches Err(error) && error is ParseError,
                        Some(records) => match cache_of(records, verifying_keys(records)) {
                            Ok(keys) => r is Ok && final(self).cached_set@ == keys,
                            Err(fault) => r matches Err(error) && reports(error, fault),
                        },
                    }
                },
            },
    {
        match reply {
            None => Err(JWKServiceError::InternalError),
            Some((success, body)) => {
                if !success {
                    return Err(JWKServiceError::InternalError);
                }
                match jose::parse_key_set(body.as_str()) {
                    Err(error) => Err(JWKServiceError::ParseError(error)),
                    Ok(records) => {
                        let decoded = decode_keys(&records);
                        self.replace_keys(records, decoded, now)
                    },
                }
            },
        }
    }

    /// Gives the key of an identifier at once where it is known and fresh.
    pub fn get_key(&self, kid: &str, now: u128) -> (r: KeyLookup)
        requires
            self.wf(),
        ensures
            r == self.answer(kid@, now),
    {
        let age = self.age(now);
        match self.cached_set.get(kid) {
            Some(key) => if is_within(age, self.settings.refresh_interval_seconds) {
                KeyLookup::Ready(key)
            } else {
                KeyLookup::Fetch { cached: Some(key), age }
            },
            None => KeyLookup::Fetch { cached: None, age },
        }
    }

    /// Gives the key of an identifier once the endpoint has been asked with the outcome `fetched`:
    /// where that failed, the key that was known before, `cached`, as long as its `age` then is not
    /// too great.
    pub fn after_fetch(
        &self,
        kid: &str,
        cached: Option<JWKServiceKey>,
        age: Option<u128>,
        fetched: Result<(), JWKServiceError>,
    ) -> (r: Result<JWKServiceKey, JWKServiceError>)
        requires
            self.wf(),
        ensures
            r == given_after_fetch(
                self.known(kid@),
                cached,
                age,
                fetched,
                self.settings.max_stale_seconds,
            ),
    {
        match fetched {
            Ok(_) => self.get_cached_key(kid),
            Err(error) => match cached {
                Some(key) => if is_within(age, self.settings.max_stale_seconds) {
                    Ok(key)
                } else {
                    Err(error)
                },
                None => Err(error),
            },
        }
    }
}

/// A key that is given without a fetch was fetched within the refresh interval. A key that is given
/// although the fetch failed was fetched within the time for which a stale key may be used. Where no
/// fetch ever succeeded, no key is given without one.
pub proof fn keys_in_use_are_recent(
    service: JwkServiceImpl,
    kid: Seq<char>,
    now: u128,
    after: Option<JWKServiceKey>,
    error: JWKServiceError,
)
    requires
        service.wf(),
    ensures
        service.answer(kid, now) is Ready ==> service.fetched_within(
            now,
            service.settings.refresh_interval_seconds,
        ),
        service.answer(kid, now) matches KeyLookup::Fetch { cached, age } ==> {
            let given = given_after_fetch(
                after,
                cached,
                age,
                Err(error),
                service.settings.max_stale_seconds,
            );
            &&& given is Ok ==> given->Ok_0 == service.known(kid)->0 && service.fetched_within(
                now,
                service.settings.max_stale_seconds,
            )
            &&& given is Err ==> given->Err_0 == error
        },
        service.last_successful_refresh is None ==> service.answer(kid, now) == (KeyLookup::Fetch {
            cached: None,
            age: None,
        }),
{
}

} // verus!
