//! The client: the credentials and the cache of resolved entities.

use crate::authorization::Authorization;
use crate::entity::{Entities, EntitiesView};
use crate::error::{surfaced, CacheError, ConfigError, FetchError, NotFound};
use crate::identity::{Id, IdView};
use crate::request::{build_url, params_view, request_url};
use vstd::prelude::*;

verus! {

/// The cache, as a mapping from identity to entity.
pub type Cache = Map<IdView, EntitiesView>;

/// What a lookup of `id` in `cache` yields.
pub open spec fn lookup(cache: Cache, id: IdView) -> Result<EntitiesView, NotFound> {
    if cache.contains_key(id) {
        Ok(cache[id])
    } else {
        Err(NotFound)
    }
}

/// Whether an entity that carries `delivered` may be the answer to a request
/// for `asked`: it carries the identity asked for, or the confirmed identity
/// that a placeholder was resolved to.
pub open spec fn answers(asked: IdView, delivered: IdView) -> bool {
    delivered == asked || (asked is PlaceHolderId && delivered is EntityId)
}

/// What a get-or-create of `id` makes of `cache` and yields, where `outcome`
/// is what the transport delivers when asked for `id`.
pub open spec fn resolve(cache: Cache, id: IdView, outcome: Result<EntitiesView, FetchError>) -> (
    Cache,
    Result<EntitiesView, CacheError>,
) {
    if cache.contains_key(id) {
        (cache, Ok(cache[id]))
    } else {
        match outcome {
            Ok(entity) => {
                if answers(id, entity.id) {
                    let stored = EntitiesView { kind: entity.kind, id };
                    (cache.insert(id, stored), Ok(stored))
                } else {
                    (cache, Err(CacheError::InsertionFailed))
                }
            },
            Err(e) => (cache, Err(surfaced(e))),
        }
    }
}

/// The mathematical value of what the transport delivered.
pub open spec fn outcome_view(outcome: Result<Entities, FetchError>) -> Result<
    EntitiesView,
    FetchError,
> {
    match outcome {
        Ok(entity) => Ok(entity@),
        Err(e) => Err(e),
    }
}

/// The mathematical value of what a lookup yields.
pub open spec fn found_view(r: Result<&Entities, NotFound>) -> Result<EntitiesView, NotFound> {
    match r {
        Ok(entity) => Ok(entity@),
        Err(e) => Err(e),
    }
}

/// The mathematical value of what a get-or-create yields.
pub open spec fn yield_view(r: Result<&Entities, CacheError>) -> Result<EntitiesView, CacheError> {
    match r {
        Ok(entity) => Ok(entity@),
        Err(e) => Err(e),
    }
}

/// The name of the variable that holds the application key.
pub const APP_KEY_VARIABLE: &'static str = "TRELLO_APP_KEY";

/// The name of the variable that holds the token.
pub const TOKEN_VARIABLE: &'static str = "TRELLO_TOKEN";

/// Whether a variable is set: it is there and its value is not empty.
pub open spec fn is_set(value: Option<String>) -> bool {
    value matches Some(text) && text@.len() > 0
}

/// The name of the first variable that is missing, where one of the two is:
/// that of the application key unless it is set.
pub open spec fn missing_variable(app_key: Option<String>) -> Seq<char> {
    if is_set(app_key) {
        TOKEN_VARIABLE@
    } else {
        APP_KEY_VARIABLE@
    }
}

/// The credentials of one caller and the entities resolved with them.
#[derive(Debug)]
pub struct Client {
    authorization: Authorization,
    entities: Vec<Entities>,
}

impl View for Client {
    type V = Cache;

    closed spec fn view(&self) -> Cache {
        cache_of(self.entities@)
    }
}

impl Client {
    /// The cache holds at most one entity under each identity.
    pub closed spec fn wf(&self) -> bool {
        distinct(self.entities@)
    }

    /// The credentials that the client was made with, which nothing changes.
    pub closed spec fn credentials(&self) -> Authorization {
        self.authorization
    }

    /// A client with the given credentials and nothing cached.
    pub fn new(auth: Authorization) -> (client: Client)
        ensures
            client.wf(),
            client.credentials() == auth,
            client@ == Cache::empty(),
    {
        let client = Client { authorization: auth, entities: Vec::new() };
        assert(client@ =~= Cache::empty());
        client
    }

    /// A client with the application key and the token that the caller read
    /// from the variables `TRELLO_APP_KEY` and `TRELLO_TOKEN`, `None` standing
    /// for a variable that is not set. An empty value counts as not set. The
    /// failure names the first of the two variables that is missing.
    pub fn create_by_environment_variables(app_key: Option<String>, token: Option<String>) -> (r:
        Result<Client, ConfigError>)
        ensures
            r is Ok <==> is_set(app_key) && is_set(token),
            r matches Ok(client) ==> client.wf() && client@ == Cache::empty()
                && client.credentials() == Authorization::AppKeyAndToken(
                app_key->Some_0,
                token->Some_0,
            ),
            r matches Err(ConfigError::MissingCredential(name)) ==> name@ == missing_variable(
                app_key,
            ),
    {
        match app_key {
            Some(key) => {
                if key.as_str().is_empty() {
                    return Err(ConfigError::MissingCredential(String::from_str(APP_KEY_VARIABLE)));
                }
                match token {
                    Some(token) => {
                        if token.as_str().is_empty() {
                            return Err(
                                ConfigError::MissingCredential(String::from_str(TOKEN_VARIABLE)),
                            );
                        }
                        Ok(Client::new(Authorization::AppKeyAndToken(key, token)))
                    },
                    None => Err(ConfigError::MissingCredential(String::from_str(TOKEN_VARIABLE))),
                }
            },
            None => Err(ConfigError::MissingCredential(String::from_str(APP_KEY_VARIABLE))),
        }
    }

    /// The credentials that the client was made with.
    pub fn authorization(&self) -> (auth: &Authorization)
        ensures
            *auth == self.credentials(),
    {
        &self.authorization
    }

    /// The URL of the request for `method` with the caller's parameters and
    /// the client's credentials.
    pub fn build_url(&self, method: &str, extra_params: Option<&[(&str, &str)]>) -> (url: String)
        ensures
            url@ == request_url(self.credentials(), method@, params_view(extra_params)),
    {
        build_url(&self.authorization, method, extra_params)
    }

    /// Every cached entity carries the identity that it is cached under.
    pub proof fn lemma_entities_carry_their_keys(&self)
        ensures
            forall|id: IdView| #[trigger] self@.contains_key(id) ==> self@[id].id == id,
    {
        assert forall|id: IdView| #[trigger] self@.contains_key(id) implies self@[id].id == id by {
            let i = choose|i: int| holds(self.entities@, id, i);
            assert(holds(self.entities@, id, i));
        }
    }

    fn position(&self, id: &Id) -> (r: Option<usize>)
        ensures
            r matches Some(i) ==> holds(self.entities@, id@, i as int),
            r is None ==> !self@.contains_key(id@),
    {
        let mut i: usize = 0;
        while i < self.entities.len()
            invariant
                i <= self.entities.len(),
                forall|j: int| 0 <= j < i ==> !holds(self.entities@, id@, j),
            decreases self.entities.len() - i,
        {
            if *self.entities[i].get_id() == *id {
                return Some(i);
            }
            i += 1;
        }
        None
    }

    /// The entity cached under `id`, or `NotFound` where none is. The cache
    /// stays as it is.
    pub fn get_entity_by_id(&self, id: &Id) -> (r: Result<&Entities, NotFound>)
        requires
            self.wf(),
        ensures
            found_view(r) == lookup(self@, id@),
    {
        match self.position(id) {
            Some(i) => {
                proof {
                    lemma_cache_of_entry(self.entities@, i as int);
                }
                Ok(&self.entities[i])
            },
            None => Err(NotFound),
        }
    }

    /// The entity cached under `id`; where there is none, the entity that
    /// `fetch` delivers for `id`, which is cached under `id` from then on.
    /// `fetch` is called on a miss and only then: on a hit nothing is asked
    /// of it, so it need not even be callable.
    pub fn get_or_create_card_by_id<F>(&mut self, id: Id, fetch: F) -> (r: Result<
        &Entities,
        CacheError,
    >) where F: FnOnce(&Id) -> Result<Entities, FetchError>
        requires
            old(self).wf(),
            !old(self)@.contains_key(id@) ==> fetch.requires((&id,)),
        ensures
            final(self).wf(),
            final(self).credentials() == old(self).credentials(),
            old(self)@.contains_key(id@) ==> final(self)@ == old(self)@ && yield_view(r) == Ok::<
                EntitiesView,
                CacheError,
            >(old(self)@[id@]),
            !old(self)@.contains_key(id@) ==> (exists|outcome: Result<Entities, FetchError>| #[trigger]
                fetch.ensures((&id,), outcome) && (final(self)@, yield_view(r)) == resolve(
                    old(self)@,
                    id@,
                    outcome_view(outcome),
                )),
    {
        match self.position(&id) {
            Some(i) => {
                proof {
                    lemma_cache_of_entry(self.entities@, i as int);
                }
                Ok(&self.entities[i])
            },
            None => {
                let outcome = fetch(&id);
                self.insert_fetched(id, outcome)
            },
        }
    }

    /// Takes what the transport delivered for `id` into the cache, unless an
    /// entity is cached under `id` already: then that entity is the result
    /// and `outcome` is dropped.
    pub fn insert_fetched(&mut self, id: Id, outcome: Result<Entities, FetchError>) -> (r: Result<
        &Entities,
        CacheError,
    >)
        requires
            old(self).wf(),
        ensures
            final(self).wf(),
            final(self).credentials() == old(self).credentials(),
            (final(self)@, yield_view(r)) == resolve(old(self)@, id@, outcome_view(outcome)),
    {
        match self.position(&id) {
            Some(i) => {
                proof {
                    lemma_cache_of_entry(self.entities@, i as int);
                }
                Ok(&self.entities[i])
            },
            None => match outcome {
                Ok(entity) => {
                    let delivered = entity.get_id();
                    let fits = *delivered == id || match (&id, delivered) {
                        (Id::PlaceHolderId(_), Id::EntityId(_)) => true,
                        _ => false,
                    };
                    if fits {
                        let stored = Entities::new(entity.kind(), id);
                        proof {
                            lemma_cache_of_push(self.entities@, stored);
                        }
                        self.entities.push(stored);
                        let last = self.entities.len() - 1;
                        Ok(&self.entities[last])
                    } else {
                        Err(CacheError::InsertionFailed)
                    }
                },
                Err(e) => Err(CacheError::from_fetch(e)),
            },
        }
    }
}

/// A lookup in the empty cache finds nothing, whatever the identity.
pub proof fn lemma_lookup_in_empty_cache(id: IdView)
    ensures
        lookup(Cache::empty(), id) == Err::<EntitiesView, NotFound>(NotFound),
{
}

/// After a get-or-create of `id` that yielded an entity, a lookup of `id`
/// yields that entity.
pub proof fn lemma_lookup_after_get_or_create(
    cache: Cache,
    id: IdView,
    outcome: Result<EntitiesView, FetchError>,
)
    requires
        resolve(cache, id, outcome).1 is Ok,
    ensures
        lookup(resolve(cache, id, outcome).0, id) == Ok::<EntitiesView, NotFound>(
            resolve(cache, id, outcome).1->Ok_0,
        ),
{
}

/// Get-or-create is idempotent: after one that yielded an entity, `id` is
/// cached, so that a second one is a hit, which asks nothing of the
/// transport; whatever the transport would deliver, the second one leaves
/// the cache as it is and yields the same entity.
pub proof fn lemma_get_or_create_is_idempotent(
    cache: Cache,
    id: IdView,
    first: Result<EntitiesView, FetchError>,
    second: Result<EntitiesView, FetchError>,
)
    requires
        resolve(cache, id, first).1 is Ok,
    ensures
        resolve(cache, id, first).0.contains_key(id),
        resolve(resolve(cache, id, first).0, id, second) == resolve(cache, id, first),
{
}

/// A get-or-create keeps every entity that was cached before it, and keeps
/// each cached entity under the identity that the entity carries.
pub proof fn lemma_get_or_create_keeps_entries(
    cache: Cache,
    id: IdView,
    outcome: Result<EntitiesView, FetchError>,
)
    requires
        forall|k: IdView| #[trigger] cache.contains_key(k) ==> cache[k].id == k,
    ensures
        forall|k: IdView| #[trigger]
            cache.contains_key(k) ==> resolve(cache, id, outcome).0.contains_key(k) && resolve(
                cache,
                id,
                outcome,
            ).0[k] == cache[k],
        forall|k: IdView| #[trigger]
            resolve(cache, id, outcome).0.contains_key(k) ==> resolve(cache, id, outcome).0[k].id
                == k,
{
}

spec fn holds(entries: Seq<Entities>, id: IdView, i: int) -> bool {
    0 <= i < entries.len() && entries[i]@.id == id
}

spec fn distinct(entries: Seq<Entities>) -> bool {
    forall|i: int, j: int| 0 <= i < j < entries.len() ==> entries[i]@.id != entries[j]@.id
}

spec fn cache_of(entries: Seq<Entities>) -> Cache {
    Map::new(
        |id: IdView| exists|i: int| holds(entries, id, i),
        |id: IdView| entries[choose|i: int| holds(entries, id, i)]@,
    )
}

proof fn lemma_cache_of_entry(entries: Seq<Entities>, i: int)
    requires
        distinct(entries),
        0 <= i < entries.len(),
    ensures
        cache_of(entries).contains_key(entries[i]@.id),
        cache_of(entries)[entries[i]@.id] == entries[i]@,
{
    let id = entries[i]@.id;
    assert(holds(entries, id, i));
    let j = choose|j: int| holds(entries, id, j);
    assert(holds(entries, id, j));
    assert(i == j);
}

proof fn lemma_cache_of_push(entries: Seq<Entities>, entity: Entities)
    requires
        distinct(entries),
        !cache_of(entries).contains_key(entity@.id),
    ensures
        distinct(entries.push(entity)),
        cache_of(entries.push(entity)) == cache_of(entries).insert(entity@.id, entity@),
{
    let more = entries.push(entity);
    assert forall|i: int, j: int| 0 <= i < j < more.len() implies more[i]@.id != more[j]@.id by {
        if j == entries.len() {
            assert(holds(entries, entries[i]@.id, i));
        }
    }
    assert forall|id: IdView| #[trigger]
        cache_of(more).contains_key(id) == cache_of(entries).insert(
            entity@.id,
            entity@,
        ).contains_key(id) by {
        if cache_of(more).contains_key(id) {
            let i = choose|i: int| holds(more, id, i);
            if i < entries.len() {
                assert(holds(entries, id, i));
            }
        } else if id == entity@.id {
            assert(holds(more, id, entries.len() as int));
        } else if cache_of(entries).contains_key(id) {
            let i = choose|i: int| holds(entries, id, i);
            assert(holds(more, id, i));
        }
    }
    assert forall|id: IdView| cache_of(more).contains_key(id) implies #[trigger] cache_of(more)[id]
        == cache_of(entries).insert(entity@.id, entity@)[id] by {
        let i = choose|i: int| holds(more, id, i);
        lemma_cache_of_entry(more, i);
        if i < entries.len() {
            lemma_cache_of_entry(entries, i);
        }
    }
    assert(cache_of(more) =~= cache_of(entries).insert(entity@.id, entity@));
}

} // verus!
