use vstd::prelude::*;

use md5::Digest;
use std::sync::Arc;

use crate::picnic::config::Config;
use crate::picnic::error::ApiError;
use crate::picnic::models::LoginRequest;

verus! {

/// The credentials of a logged-in Picnic user.
#[derive(Clone, Debug, PartialEq, Eq)]
pub struct Credentials {
    pub auth_token: String,
    pub user_id: String,
}

impl Credentials {
    pub fn new(auth_token: String, user_id: String) -> (res: Credentials)
        ensures
            res.auth_token == auth_token,
            res.user_id == user_id,
    {
        Credentials { auth_token, user_id }
    }
}

/// What a user logs in with.
#[derive(Clone, Debug, PartialEq, Eq)]
pub struct LoginCredentials {
    pub email: String,
    pub password: String,
}

impl Default for LoginCredentials {
    fn default() -> (res: LoginCredentials)
        ensures
            res.email@.len() == 0,
            res.password@.len() == 0,
    {
        LoginCredentials { email: String::new(), password: String::new() }
    }
}

// ** The login secret **

/// The MD5 digest of the UTF-8 bytes of a text.
pub uninterp spec fn md5_digest(text: Seq<char>) -> Seq<u8>;

/// The MD5 digest of the UTF-8 bytes of `text`, through the `md5` crate (`Md5::new`, `Digest::update`,
/// `Digest::finalize`). Claimed: the result is `md5_digest` of the text, and an MD5 digest is 16 bytes.
#[verifier::external_body]
fn md5_of(text: &str) -> (res: Vec<u8>)
    ensures
        res@ == md5_digest(text@),
        res@.len() == 16,
{
    let mut hasher = md5::Md5::new();
    hasher.update(text);
    hasher.finalize().to_vec()
}

/// The lowercase hexadecimal digit of `n` (below 16).
pub open spec fn hex_digit(n: int) -> char {
    if n < 10 {
        (n + 48) as char
    } else {
        (n - 10 + 97) as char
    }
}

/// The lowercase hexadecimal text of bytes: two digits per byte, high nibble first.
pub open spec fn hex_lower(bytes: Seq<u8>) -> Seq<char>
    decreases bytes.len(),
{
    if bytes.len() == 0 {
        seq![]
    } else {
        hex_lower(bytes.drop_last()) + seq![hex_digit(bytes.last() as int / 16), hex_digit(bytes.last() as int % 16)]
    }
}

/// The lowercase hexadecimal text of `bytes`, through `hex::encode`. Claimed: two lowercase digits per
/// byte, high nibble first, as its documentation shows.
#[verifier::external_body]
fn hex_encode(bytes: &Vec<u8>) -> (res: String)
    ensures
        res@ == hex_lower(bytes@),
{
    hex::encode(bytes)
}

/// The secret sent in place of a password: the lowercase hex MD5 digest of the password.
pub fn password_secret(password: &str) -> (res: String)
    ensures
        res@ == hex_lower(md5_digest(password@)),
{
    let digest = md5_of(password);
    hex_encode(&digest)
}

/// The client id sent when no details are configured.
pub open spec fn default_client_id() -> Seq<char> {
    "30100"@
}

/// The login request for `email` and `password` under `config`: the secret is the hex MD5 digest of the
/// password, the client id and version come from the configured details (client id `30100` without
/// them).
pub fn login_request(config: &Config, email: String, password: &str) -> (res: LoginRequest)
    ensures
        res.key == email,
        res.secret@ == hex_lower(md5_digest(password@)),
        res.client_id@ == (match config.spec_details() {
            Some(d) => d.client_id@,
            None => default_client_id(),
        }),
        res.client_version == (match config.spec_details() {
            Some(d) => Some(d.client_version),
            None => None,
        }),
        res.device_id is None,
{
    let secret = password_secret(password);
    let (client_id, client_version) = match config.picnic_details() {
        Some(d) => (d.client_id.clone(), Some(d.client_version.clone())),
        None => (String::from_str("30100"), None),
    };
    LoginRequest { key: email, secret, client_id, client_version, device_id: None }
}

// ** Caches **

/// Another handle on shared credentials, through `Arc::clone`. Claimed: it shares the same value.
#[verifier::external_body]
fn share(c: &Arc<Credentials>) -> (res: Arc<Credentials>)
    ensures
        res == *c,
{
    Arc::clone(c)
}

/// The cached credentials with their auth token replaced by `auth_token`; none without cached
/// credentials.
pub open spec fn with_auth_token(cached: Option<Credentials>, auth_token: String) -> Option<Credentials> {
    match cached {
        Some(c) => Some(Credentials { auth_token, user_id: c.user_id }),
        None => None,
    }
}

/// The credentials to keep when the auth token is replaced by `auth_token`: the `found` ones with the new
/// token and their user id, or nothing to keep when none were found.
pub fn credentials_with_token(found: Option<Arc<Credentials>>, auth_token: String) -> (res: Option<Arc<Credentials>>)
    ensures
        res is Some <==> found is Some,
        res matches Some(c) ==> Some(*c) == with_auth_token(Some(*found.unwrap()), auth_token),
{
    match found {
        Some(creds) => Some(Arc::new(Credentials::new(auth_token, creds.user_id.clone()))),
        None => None,
    }
}

/// What replacing the auth token asks of a cache, given what reading the cache gave: its error, nothing
/// to keep when it held no credentials, or the credentials to keep (see [credentials_with_token]).
pub fn token_update(read: Result<Option<Arc<Credentials>>, ApiError>, auth_token: String) -> (res: Result<
    Option<Arc<Credentials>>,
    ApiError,
>)
    ensures
        read matches Err(e) ==> res == Err::<Option<Arc<Credentials>>, ApiError>(e),
        read == Ok::<Option<Arc<Credentials>>, ApiError>(None) ==> res == Ok::<Option<Arc<Credentials>>, ApiError>(
            None,
        ),
        read matches Ok(Some(found)) ==> (res matches Ok(Some(c)) && Some(*c) == with_auth_token(
            Some(*found),
            auth_token,
        )),
{
    match read {
        Ok(found) => Ok(credentials_with_token(found, auth_token)),
        Err(e) => Err(e),
    }
}

/// What an answer of the Picnic API asks of the credentials.
#[derive(Debug, PartialEq, Eq)]
pub enum ResponseAction {
    /// Keep this renewed auth token.
    KeepToken(String),
    /// The credentials were refused: an auth error.
    Unauthorised,
    /// Nothing.
    Nothing,
}

/// Decide by the status of an answer and its `x-picnic-auth` header: an OK answer with a token renews
/// the cached token, an unauthorised one is an auth error, anything else asks nothing.
pub fn response_action(status: u16, auth_token: Option<String>) -> (res: ResponseAction)
    ensures
        res == (if status == 200 {
            match auth_token {
                Some(t) => ResponseAction::KeepToken(t),
                None => ResponseAction::Nothing,
            }
        } else if status == 401 {
            ResponseAction::Unauthorised
        } else {
            ResponseAction::Nothing
        }),
{
    if status == 200 {
        match auth_token {
            Some(t) => ResponseAction::KeepToken(t),
            None => ResponseAction::Nothing,
        }
    } else if status == 401 {
        ResponseAction::Unauthorised
    } else {
        ResponseAction::Nothing
    }
}

/// Somewhere credentials are kept between requests.
pub trait CredentialsCache {
    /// The credentials that the cache holds.
    spec fn cached_credentials(&self) -> Option<Credentials>;

    /// The currently cached credentials: `None` when they do not exist and should be acquired again.
    /// Called on each request, so it should be cheap. The caller checks for expiration.
    fn request_credentials(&self) -> (res: Result<Option<Arc<Credentials>>, ApiError>)
        ensures
            res matches Ok(found) ==> match found {
                Some(c) => self.cached_credentials() == Some(*c),
                None => self.cached_credentials() is None,
            },
    ;

    /// Keep newly acquired credentials.
    fn persist_credentials(&mut self, credentials: Arc<Credentials>) -> (res: Result<(), ApiError>)
        ensures
            res is Ok ==> final(self).cached_credentials() == Some(*credentials),
    ;

    /// Replace just the auth token: nothing happens without cached credentials. Whether reading and
    /// keeping the credentials succeeds is up to the cache; an error of either is returned.
    fn update_auth_token(&mut self, auth_token: String) -> (res: Result<(), ApiError>)
        ensures
            res is Ok ==> final(self).cached_credentials() == with_auth_token(
                old(self).cached_credentials(),
                auth_token,
            ),
            old(self).cached_credentials() is None ==> final(self).cached_credentials() is None,
    {
        match token_update(self.request_credentials(), auth_token) {
            Ok(Some(updated)) => self.persist_credentials(updated),
            Ok(None) => Ok(()),
            Err(e) => Err(e),
        }
    }

    /// Ask the user for a second factor code.
    fn request_2fa_code(&self) -> Result<String, ApiError>;
}

/// An ephemeral in-memory cache.
pub struct MemoryCache {
    current_credentials: Option<Arc<Credentials>>,
}

impl MemoryCache {
    pub closed spec fn spec_credentials(&self) -> Option<Credentials> {
        match self.current_credentials {
            Some(c) => Some(*c),
            None => None,
        }
    }

    /// Create a new ephemeral in-memory cache.
    pub fn new(credentials: Option<Arc<Credentials>>) -> (res: MemoryCache)
        ensures
            res.spec_credentials() == (match credentials {
                Some(c) => Some(*c),
                None => None,
            }),
    {
        MemoryCache { current_credentials: credentials }
    }

    /// The cached credentials.
    pub fn credentials(&self) -> (res: Option<Arc<Credentials>>)
        ensures
            match res {
                Some(c) => self.spec_credentials() == Some(*c),
                None => self.spec_credentials() is None,
            },
    {
        match &self.current_credentials {
            Some(c) => Some(share(c)),
            None => None,
        }
    }

    /// Keep `credentials`.
    pub fn set_credentials(&mut self, credentials: Arc<Credentials>)
        ensures
            final(self).spec_credentials() == Some(*credentials),
    {
        self.current_credentials = Some(credentials);
    }

    /// Replace just the auth token of the cached credentials; nothing happens without them.
    pub fn replace_auth_token(&mut self, auth_token: String)
        ensures
            final(self).spec_credentials() == (match old(self).spec_credentials() {
                Some(c) => Some(Credentials { auth_token, user_id: c.user_id }),
                None => None,
            }),
    {
        match self.credentials() {
            Some(creds) => {
                let user_id = creds.user_id.clone();
                self.set_credentials(Arc::new(Credentials::new(auth_token, user_id)));
            },
            None => {},
        }
    }
}

impl CredentialsCache for MemoryCache {
    open spec fn cached_credentials(&self) -> Option<Credentials> {
        self.spec_credentials()
    }

    /// The cached credentials; reading them never fails.
    fn request_credentials(&self) -> (res: Result<Option<Arc<Credentials>>, ApiError>)
        ensures
            res matches Ok(found) && match found {
                Some(c) => self.spec_credentials() == Some(*c),
                None => self.spec_credentials() is None,
            },
    {
        Ok(self.credentials())
    }

    /// Keep `credentials`; this never fails.
    fn persist_credentials(&mut self, credentials: Arc<Credentials>) -> (res: Result<(), ApiError>)
        ensures
            res is Ok,
            final(self).spec_credentials() == Some(*credentials),
    {
        self.set_credentials(credentials);
        Ok(())
    }

    /// Replace the auth token of the cached credentials, see [MemoryCache::replace_auth_token]; this
    /// never fails.
    fn update_auth_token(&mut self, auth_token: String) -> (res: Result<(), ApiError>)
        ensures
            res is Ok,
            final(self).spec_credentials() == with_auth_token(old(self).spec_credentials(), auth_token),
    {
        self.replace_auth_token(auth_token);
        Ok(())
    }

    /// A memory cache cannot ask for a second factor code.
    fn request_2fa_code(&self) -> (res: Result<String, ApiError>)
        ensures
            res == Err::<String, ApiError>(ApiError::NoSecondFactorCode),
    {
        Err(ApiError::NoSecondFactorCode)
    }
}

/// A cache that keeps credentials in memory and saves them as JSON to a file; the file is written by
/// the caller, this keeps the path and the credentials in memory.
pub struct JsonFileCache {
    mem_cache: MemoryCache,
    cache_path: String,
}

impl JsonFileCache {
    pub closed spec fn spec_credentials(&self) -> Option<Credentials> {
        self.mem_cache.spec_credentials()
    }

    pub closed spec fn spec_path(&self) -> Seq<char> {
        self.cache_path@
    }

    /// Initialise the cache with the given `credentials` and a `file` path. The file is not opened;
    /// newly persisted credentials are saved to it.
    pub fn from_credentials(file: String, credentials: Option<Arc<Credentials>>) -> (res: JsonFileCache)
        ensures
            res.spec_path() == file@,
            res.spec_credentials() == (match credentials {
                Some(c) => Some(*c),
                None => None,
            }),
    {
        JsonFileCache { mem_cache: MemoryCache::new(credentials), cache_path: file }
    }

    /// The path of the file the credentials are saved to.
    pub fn cache_path(&self) -> (res: &str)
        ensures
            res@ == self.spec_path(),
    {
        self.cache_path.as_str()
    }

    /// The cached credentials.
    pub fn credentials(&self) -> (res: Option<Arc<Credentials>>)
        ensures
            match res {
                Some(c) => self.spec_credentials() == Some(*c),
                None => self.spec_credentials() is None,
            },
    {
        self.mem_cache.credentials()
    }

    /// Keep `credentials` in memory, once they are saved to the file.
    pub fn set_credentials(&mut self, credentials: Arc<Credentials>)
        ensures
            final(self).spec_credentials() == Some(*credentials),
            final(self).spec_path() == old(self).spec_path(),
    {
        self.mem_cache.set_credentials(credentials);
    }

    /// A file cache cannot ask for a second factor code.
    pub fn request_2fa_code(&self) -> (res: Result<String, ApiError>)
        ensures
            res == Err::<String, ApiError>(ApiError::NoSecondFactorCode),
    {
        Err(ApiError::NoSecondFactorCode)
    }
}

} // verus!
