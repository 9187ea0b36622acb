use vstd::prelude::*;

verus! {

/// Name under which the session credential travels.
pub const SESSION_COOKIE: &'static str = "user_id";

/// Number of bytes of a session master key.
pub const MASTER_KEY_LEN: usize = 64;

/// The plaintext that a sealed `value`, stored under `name`, opens to with
/// `master`, or `None` when it does not authenticate.
pub uninterp spec fn unsealed(master: Seq<u8>, name: Seq<char>, value: Seq<char>) -> Option<Seq<char>>;

/// Relies on cookie's `PrivateJar::add`: the value is sealed with
/// authenticated encryption under `master`, and, as `PrivateJar::decrypt`
/// documents, opening it with the same key and name always gives it back.
#[verifier::external_body]
fn seal(master: &Vec<u8>, name: &str, value: &str) -> (r: String)
    requires
        master@.len() >= MASTER_KEY_LEN,
    ensures
        unsealed(master@, name@, r@) == Some(value@),
{
    let mut jar = cookie::CookieJar::new();
    jar.private_mut(&cookie::Key::from(master)).add(
        cookie::Cookie::new(name.to_string(), value.to_string()),
    );
    jar.get(name).map(|c| c.value().to_string()).unwrap_or_default()
}

/// Relies on cookie's `PrivateJar::decrypt`: authenticates and opens a sealed
/// value, or gives `None` when it does not authenticate.
#[verifier::external_body]
fn unseal(master: &Vec<u8>, name: &str, value: &str) -> (r: Option<String>)
    requires
        master@.len() >= MASTER_KEY_LEN,
    ensures
        r matches Some(s) ==> unsealed(master@, name@, value@) == Some(s@),
        r is None ==> unsealed(master@, name@, value@) is None,
{
    let jar = cookie::CookieJar::new();
    jar.private(&cookie::Key::from(master)).decrypt(
        cookie::Cookie::new(name.to_string(), value.to_string()),
    ).map(|c| c.value().to_string())
}

/// The session of a request: the identity provider's subject identifier.
#[derive(Debug)]
pub struct UserSession(pub String);

impl UserSession {
    pub open spec fn view(&self) -> Seq<char> {
        self.0@
    }
}

/// The subject that an optional session holds.
pub open spec fn session_subject(s: Option<UserSession>) -> Option<Seq<char>> {
    match s {
        Some(u) => Some(u@),
        None => None,
    }
}

/// Issues and checks stateless session credentials: a credential is the
/// subject identifier sealed under the manager's master key.
pub struct SessionManager {
    master: Vec<u8>,
    name: String,
}

impl SessionManager {
    pub closed spec fn key(&self) -> Seq<u8> {
        self.master@
    }

    /// Name under which credentials are sealed.
    pub closed spec fn cookie_name(&self) -> Seq<char> {
        self.name@
    }

    pub open spec fn wf(&self) -> bool {
        self.key().len() >= MASTER_KEY_LEN
    }

    /// The subject that `credential` is bound to under this manager, if it
    /// authenticates.
    pub open spec fn bound_subject(&self, credential: Seq<char>) -> Option<Seq<char>> {
        unsealed(self.key(), self.cookie_name(), credential)
    }

    /// A manager with the given master key; `None` when the key is shorter
    /// than `MASTER_KEY_LEN` bytes.
    pub fn new(master: Vec<u8>) -> (r: Option<SessionManager>)
        ensures
            r is Some <==> master@.len() >= MASTER_KEY_LEN,
            r matches Some(m) ==> m.wf() && m.key() == master@ && m.cookie_name()
                == SESSION_COOKIE@,
    {
        if master.len() < MASTER_KEY_LEN {
            None
        } else {
            Some(SessionManager { master, name: SESSION_COOKIE.to_owned() })
        }
    }

    /// Name of the cookie that carries the credential.
    pub fn cookie(&self) -> (r: String)
        ensures
            r@ == self.cookie_name(),
    {
        self.name.clone()
    }

    /// A credential bound to `subject`.
    pub fn issue(&self, subject: &str) -> (r: String)
        requires
            self.wf(),
        ensures
            self.bound_subject(r@) == Some(subject@),
    {
        seal(&self.master, self.name.as_str(), subject)
    }

    /// The session that a request's credential carries: `None` when the
    /// request has none or when it does not authenticate.
    pub fn extract(&self, credential: Option<&str>) -> (r: Option<UserSession>)
        requires
            self.wf(),
        ensures
            session_subject(r) == match credential {
                Some(c) => self.bound_subject(c@),
                None => None,
            },
    {
        match credential {
            None => None,
            Some(c) => match unseal(&self.master, self.name.as_str(), c) {
                Some(s) => Some(UserSession(s)),
                None => None,
            },
        }
    }
}

} // verus!
