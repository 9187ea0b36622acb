use vstd::prelude::*;

use crate::session::{SessionManager, UserSession, session_subject};

verus! {

/// Marker for the identity provider whose tokens the login flow accepts.
pub struct GoogleUserInfo;

/// Field of the user-info document that holds the stable subject identifier.
pub const SUBJECT_FIELD: &'static str = "sub";

/// Why a login did not end in an editor session.
#[derive(Debug, Clone, Copy, PartialEq, Eq, Structural)]
pub enum AuthError {
    /// The identity provider's answer was not a success or held no subject.
    IdentityProvider,
    /// The subject is not on the list of editors.
    NotAuthorized,
}

/// What a request may do.
#[derive(Debug, Clone, Copy, PartialEq, Eq, Structural)]
pub enum AccessLevel {
    Anonymous,
    Editor,
}

/// The string member `key` of the JSON object in `body`, when `body` parses
/// as JSON and has such a member.
pub uninterp spec fn json_string_member(body: Seq<u8>, key: Seq<char>) -> Option<Seq<char>>;

/// Relies on `serde_json::from_slice` into a `serde_json::Value`, then
/// `Value::get` and `Value::as_str`: the string member `key` of the parsed
/// object.
#[verifier::external_body]
fn string_member(body: &[u8], key: &str) -> (r: Option<String>)
    ensures
        r matches Some(s) ==> json_string_member(body@, key@) == Some(s@),
        r is None ==> json_string_member(body@, key@) is None,
{
    serde_json::from_slice::<serde_json::Value>(body).ok().and_then(
        |v| v.get(key).and_then(|m| m.as_str().map(|s| s.to_string())),
    )
}

/// The subject named by an answer with HTTP status `status` whose `sub`
/// member is `member`: only a 2xx answer with a string member names one.
pub open spec fn answer_subject(status: u16, member: Option<Seq<char>>) -> Option<Seq<char>> {
    if 200 <= status < 300 {
        member
    } else {
        None
    }
}

/// The subject of a user-info answer with body `body`.
pub open spec fn userinfo_subject(status: u16, body: Seq<u8>) -> Option<Seq<char>> {
    answer_subject(status, json_string_member(body, SUBJECT_FIELD@))
}

/// The subject identifier of an answer with HTTP status `status`, given the
/// string member `sub` of its body, if it has one.
pub fn subject_of_answer(status: u16, member: Option<String>) -> (r: Result<String, AuthError>)
    ensures
        r is Ok <==> answer_subject(status, opt_view(member)) is Some,
        r matches Ok(s) ==> answer_subject(status, opt_view(member)) == Some(s@),
        r matches Err(e) ==> e == AuthError::IdentityProvider,
{
    if status < 200 || status >= 300 {
        return Err(AuthError::IdentityProvider);
    }
    match member {
        Some(s) => Ok(s),
        None => Err(AuthError::IdentityProvider),
    }
}

/// The view of an optional string.
pub open spec fn opt_view(s: Option<String>) -> Option<Seq<char>> {
    match s {
        Some(x) => Some(x@),
        None => None,
    }
}

/// The subject identifier named by the identity provider's user-info answer.
pub fn subject_from_userinfo(status: u16, body: &[u8]) -> (r: Result<String, AuthError>)
    ensures
        r is Ok <==> userinfo_subject(status, body@) is Some,
        r matches Ok(s) ==> userinfo_subject(status, body@) == Some(s@),
        r matches Err(e) ==> e == AuthError::IdentityProvider,
{
    let member = string_member(body, SUBJECT_FIELD);
    subject_of_answer(status, member)
}

/// Number of records equal to `subject`.
pub open spec fn match_count(records: Seq<Seq<char>>, subject: Seq<char>) -> nat
    decreases records.len(),
{
    if records.len() == 0 {
        0
    } else {
        match_count(records.drop_last(), subject) + if records.last() == subject {
            1nat
        } else {
            0nat
        }
    }
}

/// A subject is an editor when exactly one record names it; more than one is
/// an integrity fault and grants nothing.
pub open spec fn authorized(records: Seq<Seq<char>>, subject: Seq<char>) -> bool {
    match_count(records, subject) == 1
}

/// The access level of a request whose session holds `subject`.
pub open spec fn access_level(subject: Option<Seq<char>>, records: Seq<Seq<char>>) -> AccessLevel {
    match subject {
        Some(s) => if authorized(records, s) {
            AccessLevel::Editor
        } else {
            AccessLevel::Anonymous
        },
        None => AccessLevel::Anonymous,
    }
}

/// The authorization records: the subject identifiers allowed to edit.
pub struct AuthorizationStore {
    subjects: Vec<String>,
}

impl AuthorizationStore {
    pub closed spec fn view(&self) -> Seq<Seq<char>> {
        self.subjects@.map_values(|s: String| s@)
    }

    /// A store over the given records.
    pub fn new(subjects: Vec<String>) -> (r: AuthorizationStore)
        ensures
            r@ == subjects@.map_values(|s: String| s@),
    {
        AuthorizationStore { subjects }
    }

    /// Whether exactly one record names `subject`.
    pub fn is_authorized(&self, subject: &String) -> (r: bool)
        ensures
            r == authorized(self@, subject@),
    {
        let n = self.subjects.len();
        let mut count: usize = 0;
        let mut i: usize = 0;
        while i < n
            invariant
                n == self@.len(),
                i <= n,
                count <= i,
                count == match_count(self@.subrange(0, i as int), subject@),
            decreases n - i,
        {
            proof {
                assert(self@.subrange(0, i + 1 as int).drop_last() =~= self@.subrange(0, i as int));
            }
            if self.subjects[i] == *subject {
                count = count + 1;
            }
            i = i + 1;
        }
        proof {
            assert(self@.subrange(0, n as int) =~= self@);
        }
        count == 1
    }
}

/// The access level of a request whose session is `session`.
pub fn authorize(session: &Option<UserSession>, store: &AuthorizationStore) -> (r: AccessLevel)
    ensures
        r == access_level(session_subject(*session), store@),
{
    match session {
        Some(u) => if store.is_authorized(&u.0) {
            AccessLevel::Editor
        } else {
            AccessLevel::Anonymous
        },
        None => AccessLevel::Anonymous,
    }
}

/// The subject that a request's credential is bound to, if any.
pub open spec fn credential_subject(m: SessionManager, credential: Option<&str>) -> Option<Seq<char>> {
    match credential {
        Some(c) => m.bound_subject(c@),
        None => None,
    }
}

/// The access level of a request that carries `credential`: an editor iff the
/// credential authenticates and its subject is on the list of editors.
pub fn authorize_request(
    sessions: &SessionManager,
    credential: Option<&str>,
    store: &AuthorizationStore,
) -> (r: AccessLevel)
    requires
        sessions.wf(),
    ensures
        r == access_level(credential_subject(*sessions, credential), store@),
        r == AccessLevel::Editor <==> (credential_subject(*sessions, credential) matches Some(s)
            && authorized(store@, s)),
{
    let session = sessions.extract(credential);
    authorize(&session, store)
}

/// Ends the login flow once the provider's user-info answer is in: a
/// credential for the subject when it is an editor, otherwise the reason.
pub fn complete_login(
    sessions: &SessionManager,
    status: u16,
    body: &[u8],
    store: &AuthorizationStore,
) -> (r: Result<String, AuthError>)
    requires
        sessions.wf(),
    ensures
        userinfo_subject(status, body@) is None ==> r == Err::<String, AuthError>(
            AuthError::IdentityProvider,
        ),
        userinfo_subject(status, body@) matches Some(s) && !authorized(store@, s) ==> r == Err::<
            String,
            AuthError,
        >(AuthError::NotAuthorized),
        r is Ok <==> (userinfo_subject(status, body@) matches Some(s) && authorized(store@, s)),
        r matches Ok(c) ==> sessions.bound_subject(c@) == userinfo_subject(status, body@),
{
    let subject = subject_from_userinfo(status, body)?;
    if store.is_authorized(&subject) {
        Ok(sessions.issue(subject.as_str()))
    } else {
        Err(AuthError::NotAuthorized)
    }
}

/// A subject that no record names has a match count of zero.
pub proof fn lemma_count_without_record(records: Seq<Seq<char>>, subject: Seq<char>)
    requires
        !records.contains(subject),
    ensures
        match_count(records, subject) == 0,
    decreases records.len(),
{
    if records.len() > 0 {
        assert(records.last() == records[records.len() - 1]);
        assert forall|x: Seq<char>| records.drop_last().contains(x) implies records.contains(x) by {
            let k = choose|k: int| 0 <= k < records.drop_last().len() && records.drop_last()[k] == x;
            assert(records[k] == x);
        }
        lemma_count_without_record(records.drop_last(), subject);
    }
}

/// Access follows the records as they are now: once the subject's record is
/// gone, the same credential that made a request an editor makes it
/// anonymous, with no new credential issued.
pub proof fn lemma_removed_editor_is_anonymous(
    m: SessionManager,
    credential: Option<&str>,
    before: Seq<Seq<char>>,
    after: Seq<Seq<char>>,
)
    requires
        access_level(credential_subject(m, credential), before) == AccessLevel::Editor,
        !after.contains(credential_subject(m, credential)->0),
    ensures
        access_level(credential_subject(m, credential), after) == AccessLevel::Anonymous,
{
    lemma_count_without_record(after, credential_subject(m, credential)->0);
}

} // verus!
