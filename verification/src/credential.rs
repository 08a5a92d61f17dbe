use vstd::prelude::*;

use base64::Engine;

use crate::json::Json;
use crate::json::json_get;
use crate::json::json_get_str;

verus! {

/// A credential as the proxy sees it: the bearer token to inject, the
/// account identifier when the store exposes one directly, and the raw
/// identity token whose payload can otherwise be mined for one.
pub struct Credential {
    pub access_token: String,
    pub account_id: Option<String>,
    pub id_token: String,
}

/// What the external credential store reported.
#[derive(PartialEq, Eq, Structural, Clone, Copy, Debug)]
pub enum StoreError {
    /// No stored credential exists.
    NotFound,
    /// A stored credential exists but cannot be parsed.
    Unreadable,
}

/// The credential cache's error taxonomy.
#[derive(PartialEq, Eq, Structural, Clone, Copy, Debug)]
pub enum CredentialError {
    CredentialMissing,
    CredentialStoreUnreadable,
    RefreshFailed,
}

impl Clone for Credential {
    fn clone(&self) -> (res: Self)
        ensures
            res == *self,
    {
        Credential {
            access_token: self.access_token.clone(),
            account_id: match &self.account_id {
                Some(s) => Some(s.clone()),
                None => None,
            },
            id_token: self.id_token.clone(),
        }
    }
}

/// Owns the at-most-one cached credential and the configured home
/// directory of the external store. The store itself is an external
/// collaborator: its outcomes are handed in, and the cache decides.
pub struct AuthContext {
    codex_home: Option<String>,
    cred: Option<Credential>,
}

impl AuthContext {
    /// The cached credential, if one has been installed.
    pub closed spec fn cached(&self) -> Option<Credential> {
        self.cred
    }

    /// The configured home directory override.
    pub closed spec fn home(&self) -> Option<Seq<char>> {
        match self.codex_home {
            Some(h) => Some(h@),
            None => None,
        }
    }

    /// A fresh context with nothing cached.
    pub fn new(codex_home: Option<String>) -> (r: AuthContext)
        ensures
            r.cached() is None,
            r.home() == (match codex_home {
                Some(h) => Some::<Seq<char>>(h@),
                None => None::<Seq<char>>,
            }),
    {
        AuthContext { codex_home, cred: None }
    }

    /// The configured home directory override, for the caller that locates
    /// the external store.
    pub fn home_dir(&self) -> (r: &Option<String>)
        ensures
            r matches Some(h) ==> self.home() == Some(h@),
            r is None ==> self.home() is None,
    {
        &self.codex_home
    }

    /// Whether a store load is needed before a credential can be handed out.
    pub fn needs_load(&self) -> (r: bool)
        ensures
            r == (self.cached() is None),
    {
        self.cred.is_none()
    }

    /// Resolves the cache against a store-load outcome: a cached credential
    /// wins and the outcome is ignored; otherwise a loaded credential is
    /// installed before it is returned, and a store failure is mapped to
    /// the cache's error taxonomy with nothing installed.
    pub fn load_or_get(&mut self, loaded: Result<Credential, StoreError>) -> (r: Result<
        Credential,
        CredentialError,
    >)
        ensures
            old(self).cached() matches Some(c) ==> r == Ok::<Credential, CredentialError>(c)
                && *final(self) == *old(self),
            old(self).cached() is None ==> match loaded {
                Ok(c) => r == Ok::<Credential, CredentialError>(c) && final(self).cached()
                    == Some(c) && final(self).home() == old(self).home(),
                Err(StoreError::NotFound) => r == Err::<Credential, CredentialError>(
                    CredentialError::CredentialMissing,
                ) && *final(self) == *old(self),
                Err(StoreError::Unreadable) => r == Err::<Credential, CredentialError>(
                    CredentialError::CredentialStoreUnreadable,
                ) && *final(self) == *old(self),
            },
    {
        match &self.cred {
            Some(c) => Ok(c.clone()),
            None => match loaded {
                Ok(c) => {
                    let out = c.clone();
                    self.cred = Some(c);
                    Ok(out)
                },
                Err(StoreError::NotFound) => Err(CredentialError::CredentialMissing),
                Err(StoreError::Unreadable) => Err(CredentialError::CredentialStoreUnreadable),
            },
        }
    }

    /// Applies a refresh outcome: a fresh credential replaces the cached
    /// value wholesale; a failed exchange leaves the cache as it was and
    /// reports `RefreshFailed`.
    pub fn try_refresh(&mut self, refreshed: Result<Credential, StoreError>) -> (r: Result<
        (),
        CredentialError,
    >)
        ensures
            match refreshed {
                Ok(c) => r == Ok::<(), CredentialError>(()) && final(self).cached() == Some(c)
                    && final(self).home() == old(self).home(),
                Err(_) => r == Err::<(), CredentialError>(CredentialError::RefreshFailed)
                    && *final(self) == *old(self),
            },
    {
        match refreshed {
            Ok(c) => {
                self.cred = Some(c);
                Ok(())
            },
            Err(_) => Err(CredentialError::RefreshFailed),
        }
    }

    /// The bearer token and the account identifier of the cached
    /// credential; an identifier mined from the identity token stands in
    /// when the store exposed none directly. Fails only when nothing is
    /// cached.
    pub fn bearer_and_optional_account_id(&self, derived: &Option<String>) -> (r: Result<
        (String, Option<String>),
        CredentialError,
    >)
        ensures
            match self.cached() {
                Some(c) => r matches Ok(p) && p.0 == c.access_token && p.1 == (if c.account_id
                    is Some {
                    c.account_id
                } else {
                    *derived
                }),
                None => r == Err::<(String, Option<String>), CredentialError>(
                    CredentialError::CredentialMissing,
                ),
            },
    {
        match &self.cred {
            Some(c) => {
                let account = match &c.account_id {
                    Some(a) => Some(a.clone()),
                    None => match derived {
                        Some(d) => Some(d.clone()),
                        None => None,
                    },
                };
                Ok((c.access_token.clone(), account))
            },
            None => Err(CredentialError::CredentialMissing),
        }
    }

    /// Heuristic: an account identifier is resolvable for the cached
    /// credential — one the store exposed directly, or one the caller
    /// derived from the identity token's payload, handed in the same way
    /// as for `bearer_and_optional_account_id`.
    pub fn is_chatgpt(&self, derived: &Option<String>) -> (r: bool)
        ensures
            r == (self.cached() matches Some(c) && (c.account_id is Some || derived is Some)),
    {
        match &self.cred {
            Some(c) => c.account_id.is_some() || derived.is_some(),
            None => false,
        }
    }
}

/// The first index at or after `from` holding `c`, or the length when
/// there is none.
pub open spec fn index_of_from(s: Seq<char>, c: char, from: int) -> int
    decreases s.len() - from,
{
    if from < 0 || from >= s.len() {
        s.len() as int
    } else if s[from] == c {
        from
    } else {
        index_of_from(s, c, from + 1)
    }
}

/// The payload segment of an identity token in three-part form: the text
/// between the first two dots, when both exist and it is non-empty.
pub open spec fn jwt_payload_spec(s: Seq<char>) -> Option<Seq<char>> {
    let i = index_of_from(s, '.', 0);
    let j = index_of_from(s, '.', i + 1);
    if i < s.len() && j < s.len() && j > i + 1 {
        Some(s.subrange(i + 1, j))
    } else {
        None
    }
}

proof fn lemma_index_of_from(s: Seq<char>, c: char, from: int, i: int)
    requires
        0 <= from <= i <= s.len(),
        forall|j: int| from <= j < i ==> s[j] != c,
        i < s.len() ==> s[i] == c,
    ensures
        index_of_from(s, c, from) == i,
    decreases i - from,
{
    if from < s.len() && s[from] != c {
        lemma_index_of_from(s, c, from + 1, i);
    }
}

/// The payload segment of an identity token, when the token has the
/// three-part dotted form with a non-empty middle segment.
pub fn jwt_payload<'a>(tok: &'a str) -> (r: Option<&'a str>)
    ensures
        match r {
            Some(p) => jwt_payload_spec(tok@) == Some(p@),
            None => jwt_payload_spec(tok@) is None,
        },
{
    let ln: usize = tok.unicode_len();
    let first = crate::strutil::find_char(tok, '.', 0);
    match first {
        Some(i) => {
            proof {
                lemma_index_of_from(tok@, '.', 0, i as int);
                assert(i < ln);
            }
            let second = crate::strutil::find_char(tok, '.', i + 1);
            match second {
                Some(j) => {
                    proof {
                        lemma_index_of_from(tok@, '.', i + 1, j as int);
                    }
                    if j > i + 1 {
                        Some(tok.substring_char(i + 1, j))
                    } else {
                        None
                    }
                },
                None => {
                    proof {
                        lemma_index_of_from(tok@, '.', i + 1, tok@.len() as int);
                    }
                    None
                },
            }
        },
        None => {
            proof {
                lemma_index_of_from(tok@, '.', 0, tok@.len() as int);
            }
            None
        },
    }
}

/// What an outside base64 decoder reports for url-safe, unpadded input; it
/// depends on the input text alone.
pub uninterp spec fn base64url_decoded(s: Seq<char>) -> Option<Seq<u8>>;

/// Relies on base64's `Engine::decode` over the `URL_SAFE_NO_PAD` engine:
/// decodes url-safe unpadded base64 text, failing on malformed input.
#[verifier::external_body]
fn b64url_decode(s: &str) -> (r: Option<Vec<u8>>)
    ensures
        match r {
            Some(b) => base64url_decoded(s@) == Some(b@),
            None => base64url_decoded(s@) is None,
        },
{
    base64::engine::general_purpose::URL_SAFE_NO_PAD.decode(s.as_bytes()).ok()
}

/// The decoded payload bytes of an identity token: the middle segment
/// decoded as url-safe unpadded base64, `None` when the token has no
/// payload segment or the segment does not decode.
pub fn decode_jwt_payload(tok: &str) -> (r: Option<Vec<u8>>)
    ensures
        match jwt_payload_spec(tok@) {
            Some(p) => match r {
                Some(b) => base64url_decoded(p) == Some(b@),
                None => base64url_decoded(p) is None,
            },
            None => r is None,
        },
{
    match jwt_payload(tok) {
        Some(p) => b64url_decode(p),
        None => None,
    }
}

/// The account identifier held in a decoded identity-token payload.
pub open spec fn account_id_of(j: Json) -> Option<Seq<char>> {
    match json_get(j, "https://api.openai.com/auth"@) {
        Some(a) => json_get_str(a, "chatgpt_account_id"@),
        None => None,
    }
}

/// Reads the nested account identifier out of a decoded identity-token
/// payload.
pub fn account_id_in(j: &Json) -> (r: Option<String>)
    ensures
        match r {
            Some(s) => account_id_of(*j) == Some(s@),
            None => account_id_of(*j) is None,
        },
{
    match j.obj_get("https://api.openai.com/auth") {
        Some(a) => match a.obj_get_str("chatgpt_account_id") {
            Some(s) => Some(s.clone()),
            None => None,
        },
        None => None,
    }
}

} // verus!
