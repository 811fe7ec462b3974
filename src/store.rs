use vstd::prelude::*;

verus! {

/// A user known to the REST API.
#[derive(Debug)]
pub struct User {
    pub user_id: String,
}

/// An OAuth session: the access token handed to a user.
pub struct OAuthUserSession {
    pub access_token: String,
    pub user_id: String,
}

/// OAuth user sessions kept in memory.
pub struct MemoryOAuthUserSessionStore {
    sessions: Vec<OAuthUserSession>,
}

/// The user of access token `token` in a list of sessions: the latest session for it.
pub open spec fn session_user(sessions: Seq<OAuthUserSession>, token: Seq<char>) -> Option<Seq<char>>
    decreases sessions.len(),
{
    if sessions.len() == 0 {
        None
    } else if sessions.last().access_token@ == token {
        Some(sessions.last().user_id@)
    } else {
        session_user(sessions.drop_last(), token)
    }
}

impl MemoryOAuthUserSessionStore {
    pub closed spec fn user_of(&self, token: Seq<char>) -> Option<Seq<char>> {
        session_user(self.sessions@, token)
    }

    /// A store without sessions.
    pub fn new() -> (r: Self)
        ensures
            forall|t: Seq<char>| #[trigger] r.user_of(t) is None,
    {
        MemoryOAuthUserSessionStore { sessions: Vec::new() }
    }

    /// Records a session; a later session for the same token replaces an earlier one.
    pub fn add_session(&mut self, session: OAuthUserSession)
        ensures
            final(self).user_of(session.access_token@) == Some(session.user_id@),
            forall|t: Seq<char>| t != session.access_token@ ==> #[trigger] final(self).user_of(t)
                == old(self).user_of(t),
    {
        let ghost old_s = self.sessions@;
        self.sessions.push(session);
        assert(self.sessions@.drop_last() =~= old_s);
    }

    /// The user that holds an access token, if any.
    pub fn get_session_user(&self, access_token: &String) -> (r: Option<String>)
        ensures
            match r {
                Some(u) => self.user_of(access_token@) == Some(u@),
                None => self.user_of(access_token@) is None,
            },
    {
        let mut k: usize = self.sessions.len();
        assert(self.sessions@.subrange(0, k as int) =~= self.sessions@);
        while k > 0
            invariant
                k <= self.sessions@.len(),
                session_user(self.sessions@, access_token@) == session_user(
                    self.sessions@.subrange(0, k as int),
                    access_token@,
                ),
            decreases k,
        {
            assert(self.sessions@.subrange(0, k as int).drop_last() =~= self.sessions@.subrange(
                0,
                k - 1,
            ));
            if self.sessions[k - 1].access_token == *access_token {
                return Some(self.sessions[k - 1].user_id.clone());
            }
            k = k - 1;
        }
        None
    }
}

/// The value under key `k` in a list of writes: the latest write for `k`, where `None` is a
/// removal.
pub open spec fn lookup_in(entries: Seq<(String, Option<String>)>, k: Seq<char>) -> Option<Seq<char>>
    decreases entries.len(),
{
    if entries.len() == 0 {
        None
    } else if entries.last().0@ == k {
        match entries.last().1 {
            Some(v) => Some(v@),
            None => None,
        }
    } else {
        lookup_in(entries.drop_last(), k)
    }
}

/// A map from strings to strings, kept in memory.
pub struct StringTable {
    entries: Vec<(String, Option<String>)>,
}

impl StringTable {
    pub closed spec fn lookup(&self, k: Seq<char>) -> Option<Seq<char>> {
        lookup_in(self.entries@, k)
    }

    /// An empty table.
    pub fn new() -> (r: Self)
        ensures
            forall|k: Seq<char>| #[trigger] r.lookup(k) is None,
    {
        StringTable { entries: Vec::new() }
    }

    /// Sets the value of a key.
    pub fn insert(&mut self, key: String, value: String)
        ensures
            final(self).lookup(key@) == Some(value@),
            forall|k: Seq<char>| k != key@ ==> #[trigger] final(self).lookup(k) == old(self).lookup(k),
    {
        let ghost old_e = self.entries@;
        self.entries.push((key, Some(value)));
        assert(self.entries@.drop_last() =~= old_e);
    }

    /// Removes a key.
    pub fn remove(&mut self, key: String)
        ensures
            final(self).lookup(key@) is None,
            forall|k: Seq<char>| k != key@ ==> #[trigger] final(self).lookup(k) == old(self).lookup(k),
    {
        let ghost old_e = self.entries@;
        self.entries.push((key, None));
        assert(self.entries@.drop_last() =~= old_e);
    }

    /// The value of a key, if it is set.
    pub fn get(&self, key: &String) -> (r: Option<String>)
        ensures
            match r {
                Some(v) => self.lookup(key@) == Some(v@),
                None => self.lookup(key@) is None,
            },
    {
        let mut k: usize = self.entries.len();
        assert(self.entries@.subrange(0, k as int) =~= self.entries@);
        while k > 0
            invariant
                k <= self.entries@.len(),
                lookup_in(self.entries@, key@) == lookup_in(self.entries@.subrange(0, k as int), key@),
            decreases k,
        {
            assert(self.entries@.subrange(0, k as int).drop_last() =~= self.entries@.subrange(
                0,
                k - 1,
            ));
            if self.entries[k - 1].0 == *key {
                return match &self.entries[k - 1].1 {
                    Some(v) => Some(v.clone()),
                    None => None,
                };
            }
            k = k - 1;
        }
        None
    }
}

/// User credentials: the user id of each username, and every user id registered.
pub struct MemoryCredentialsStore {
    user_ids: StringTable,
    users: Vec<String>,
}

impl MemoryCredentialsStore {
    pub closed spec fn user_of(&self, username: Seq<char>) -> Option<Seq<char>> {
        self.user_ids.lookup(username)
    }

    pub closed spec fn has_user(&self, user_id: Seq<char>) -> bool {
        crate::routing::strings_view(self.users@).contains(user_id)
    }

    /// A store without credentials.
    pub fn new() -> (r: Self)
        ensures
            forall|u: Seq<char>| #[trigger] r.user_of(u) is None,
            forall|id: Seq<char>| !#[trigger] r.has_user(id),
    {
        let r = MemoryCredentialsStore { user_ids: StringTable::new(), users: Vec::new() };
        assert(crate::routing::strings_view(r.users@) =~= Seq::<Seq<char>>::empty());
        r
    }

    /// Registers `username` for user `user_id`.
    pub fn add_credentials(&mut self, user_id: String, username: String)
        ensures
            final(self).user_of(username@) == Some(user_id@),
            final(self).has_user(user_id@),
            forall|u: Seq<char>| u != username@ ==> #[trigger] final(self).user_of(u) == old(self).user_of(u),
            forall|id: Seq<char>| #[trigger] old(self).has_user(id) ==> final(self).has_user(id),
    {
        let ghost old_u = crate::routing::strings_view(self.users@);
        self.users.push(user_id.clone());
        self.user_ids.insert(username, user_id);
        proof {
            let nu = crate::routing::strings_view(self.users@);
            assert(nu =~= old_u.push(user_id@));
            assert(nu[nu.len() - 1] == user_id@);
            assert forall|id: Seq<char>| old_u.contains(id) implies nu.contains(id) by {
                let k = choose|k: int| 0 <= k < old_u.len() && old_u[k] == id;
                assert(nu[k] == id);
            }
        }
    }

    /// The user id of a username, if registered.
    pub fn get_user_id(&self, username: &String) -> (r: Option<String>)
        ensures
            match r {
                Some(v) => self.user_of(username@) == Some(v@),
                None => self.user_of(username@) is None,
            },
    {
        self.user_ids.get(username)
    }

    /// Whether a user id is registered.
    pub fn contains_user(&self, user_id: &String) -> (r: bool)
        ensures
            r == self.has_user(user_id@),
    {
        crate::routing::contains_string(&self.users, user_id)
    }
}

/// Why a store refused a write.
#[derive(Clone, Copy, Debug, PartialEq, Eq, Structural)]
pub enum StoreError {
    /// The user is not registered in the credentials store.
    UnknownUser,
}

/// The stores of a node, all kept in memory. The key store belongs to users of the
/// credentials store: a key is accepted only for a registered user.
pub struct MemoryStoreFactory {
    credentials: MemoryCredentialsStore,
    keys: StringTable,
    refresh_tokens: StringTable,
    oauth_user_session_store: MemoryOAuthUserSessionStore,
    inflight_requests: StringTable,
}

impl MemoryStoreFactory {
    pub closed spec fn credentials(&self) -> MemoryCredentialsStore {
        self.credentials
    }

    /// The owner of each public key in the key store.
    pub closed spec fn key_owner(&self, public_key: Seq<char>) -> Option<Seq<char>> {
        self.keys.lookup(public_key)
    }

    /// The refresh token of each user.
    pub closed spec fn refresh_token(&self, user_id: Seq<char>) -> Option<Seq<char>> {
        self.refresh_tokens.lookup(user_id)
    }

    /// The pending authorization of each in-flight OAuth request.
    pub closed spec fn inflight_request(&self, request_id: Seq<char>) -> Option<Seq<char>> {
        self.inflight_requests.lookup(request_id)
    }

    pub closed spec fn oauth_user_sessions(&self) -> MemoryOAuthUserSessionStore {
        self.oauth_user_session_store
    }

    /// A factory whose stores are all empty.
    pub fn new() -> (r: Self)
        ensures
            forall|u: Seq<char>| #[trigger] r.credentials().user_of(u) is None,
            forall|id: Seq<char>| !#[trigger] r.credentials().has_user(id),
            forall|k: Seq<char>| #[trigger] r.key_owner(k) is None,
            forall|id: Seq<char>| #[trigger] r.refresh_token(id) is None,
            forall|q: Seq<char>| #[trigger] r.inflight_request(q) is None,
            forall|t: Seq<char>| #[trigger] r.oauth_user_sessions().user_of(t) is None,
    {
        MemoryStoreFactory {
            credentials: MemoryCredentialsStore::new(),
            keys: StringTable::new(),
            refresh_tokens: StringTable::new(),
            oauth_user_session_store: MemoryOAuthUserSessionStore::new(),
            inflight_requests: StringTable::new(),
        }
    }

    /// The credentials store.
    pub fn get_biome_credentials_store(&mut self) -> (r: &mut MemoryCredentialsStore)
        ensures
            *r == old(self).credentials(),
            final(self).credentials() == *final(r),
            forall|k: Seq<char>| #[trigger] final(self).key_owner(k) == old(self).key_owner(k),
    {
        &mut self.credentials
    }

    /// Adds a public key for a user; the user must be registered in the credentials store.
    pub fn add_key(&mut self, public_key: String, user_id: String) -> (r: Result<(), StoreError>)
        ensures
            final(self).credentials() == old(self).credentials(),
            r is Ok <==> old(self).credentials().has_user(user_id@),
            r is Ok ==> final(self).key_owner(public_key@) == Some(user_id@),
            r is Err ==> final(self).key_owner(public_key@) == old(self).key_owner(public_key@),
            forall|k: Seq<char>| k != public_key@ ==> #[trigger] final(self).key_owner(k) == old(self).key_owner(k),
    {
        if !self.credentials.contains_user(&user_id) {
            return Err(StoreError::UnknownUser);
        }
        self.keys.insert(public_key, user_id);
        Ok(())
    }

    /// The owner of a public key, if the key is stored.
    pub fn get_key_owner(&self, public_key: &String) -> (r: Option<String>)
        ensures
            match r {
                Some(v) => self.key_owner(public_key@) == Some(v@),
                None => self.key_owner(public_key@) is None,
            },
    {
        self.keys.get(public_key)
    }

    /// Stores the refresh token of a user.
    pub fn set_refresh_token(&mut self, user_id: String, token: String)
        ensures
            final(self).refresh_token(user_id@) == Some(token@),
            forall|u: Seq<char>| u != user_id@ ==> #[trigger] final(self).refresh_token(u) == old(self).refresh_token(u),
    {
        self.refresh_tokens.insert(user_id, token);
    }

    /// The refresh token of a user, if any.
    pub fn get_refresh_token(&self, user_id: &String) -> (r: Option<String>)
        ensures
            match r {
                Some(v) => self.refresh_token(user_id@) == Some(v@),
                None => self.refresh_token(user_id@) is None,
            },
    {
        self.refresh_tokens.get(user_id)
    }

    /// Records an in-flight OAuth request.
    pub fn insert_inflight_request(&mut self, request_id: String, pending: String)
        ensures
            final(self).inflight_request(request_id@) == Some(pending@),
            forall|q: Seq<char>| q != request_id@ ==> #[trigger] final(self).inflight_request(q) == old(self).inflight_request(q),
    {
        self.inflight_requests.insert(request_id, pending);
    }

    /// Takes an in-flight OAuth request out of the store.
    pub fn take_inflight_request(&mut self, request_id: String) -> (r: Option<String>)
        ensures
            match r {
                Some(v) => old(self).inflight_request(request_id@) == Some(v@),
                None => old(self).inflight_request(request_id@) is None,
            },
            final(self).inflight_request(request_id@) is None,
            forall|q: Seq<char>| q != request_id@ ==> #[trigger] final(self).inflight_request(q) == old(self).inflight_request(q),
    {
        let r = self.inflight_requests.get(&request_id);
        self.inflight_requests.remove(request_id);
        r
    }

    /// The OAuth user session store.
    pub fn get_biome_oauth_user_session_store(&mut self) -> (r: &mut MemoryOAuthUserSessionStore)
        ensures
            *r == old(self).oauth_user_sessions(),
            final(self).oauth_user_sessions() == *final(r),
    {
        &mut self.oauth_user_session_store
    }
}

/// A bearer token of the `Authorization` header.
pub enum BearerToken {
    OAuth2(String),
    Biome(String),
    Cylinder(String),
    Custom(String),
}

/// The `Authorization` header of a request.
pub enum AuthorizationHeader {
    Bearer(BearerToken),
    Custom(String),
}

/// An error inside the library that the caller cannot act on.
#[derive(Debug)]
pub struct InternalError {
    pub message: String,
}

/// Finds the user of a request from its OAuth2 bearer token.
pub struct GetUserByOAuthAuthorization {
    oauth_user_session_store: MemoryOAuthUserSessionStore,
}

impl GetUserByOAuthAuthorization {
    pub closed spec fn sessions(&self) -> MemoryOAuthUserSessionStore {
        self.oauth_user_session_store
    }

    /// A mapping over a session store.
    pub fn new(oauth_user_session_store: MemoryOAuthUserSessionStore) -> (r: Self)
        ensures
            r.sessions() == oauth_user_session_store,
    {
        GetUserByOAuthAuthorization { oauth_user_session_store }
    }

    /// The user whose session holds the request's OAuth2 access token; none for any other
    /// authorization.
    pub fn get(&self, authorization: &AuthorizationHeader) -> (r: Result<Option<User>, InternalError>)
        ensures
            match authorization {
                AuthorizationHeader::Bearer(BearerToken::OAuth2(token)) => match r {
                    Ok(Some(u)) => self.sessions().user_of(token@) == Some(u.user_id@),
                    Ok(None) => self.sessions().user_of(token@) is None,
                    Err(_) => false,
                },
                _ => r matches Ok(None),
            },
    {
        match authorization {
            AuthorizationHeader::Bearer(BearerToken::OAuth2(access_token)) => {
                match self.oauth_user_session_store.get_session_user(access_token) {
                    Some(user_id) => Ok(Some(User { user_id })),
                    None => Ok(None),
                }
            },
            _ => Ok(None),
        }
    }
}

} // verus!
