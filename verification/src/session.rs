//! Session-based authentication: expiry, the cookie-to-account
//! resolution, and the login flow that mints a session.

use vstd::prelude::*;

use crate::collaborators::{
    bcrypt_matches, bcrypt_verify, generate_session_key, hex_decode_str, hex_decoded,
    hex_encode_bytes, hex_of,
};
use crate::database::{first_session_from, Database};
use crate::error::Error;
use crate::login::LoginFormData;
use crate::models::Session;
use crate::user::{first_user_by_email_from, user_at, User, UserStore};

verus! {

/// The session has not timed out at `now`: `now` is still before the last
/// refresh plus the timeout.
pub open spec fn session_live(session: Session, now: u64) -> bool {
    now < session.last_refreshed + session.timeout_duration_seconds
}

/// Whether the session is still live at `now`.
pub fn session_is_live(session: &Session, now: u64) -> (r: bool)
    ensures
        r == session_live(*session, now),
{
    (now as u128) < (session.last_refreshed as u128) + (session.timeout_duration_seconds as u128)
}

/// Whom a session key authenticates at `now`: the current account of the
/// key's session's user, provided the key is stored, the session is still
/// live and the account is still live — otherwise nobody.
pub open spec fn spec_authenticate(db: Database, users: UserStore, key: Seq<u8>, now: u64) -> Option<
    User,
> {
    let i = first_session_from(db.sessions@, key, 0);
    if i < db.sessions@.len() {
        let s = db.sessions@[i];
        if session_live(s, now) {
            if users.has_current(s.user) {
                Option::Some(user_at(users, users.current_index(s.user)))
            } else {
                Option::None
            }
        } else {
            Option::None
        }
    } else {
        Option::None
    }
}

/// Resolves a session key to the acting account.
pub fn authenticate(db: &Database, users: &UserStore, session_key: &Vec<u8>, now: u64) -> (r:
    Result<Option<User>, Error>)
    ensures
        r == Result::<Option<User>, Error>::Ok(spec_authenticate(*db, *users, session_key@, now)),
{
    let session = match db.get_session_by_key(session_key) {
        Ok(s) => s,
        Err(_) => {
            return Ok(None);
        },
    };
    if session_is_live(&session, now) {
        match User::get_by_id(users, session.user) {
            Ok(u) => Ok(Some(u)),
            Err(_) => Ok(None),
        }
    } else {
        Ok(None)
    }
}

/// Resolves the session cookie to the acting account: a missing or
/// undecodable cookie, a key under which no session is stored, a timed
/// out session, or a gone account all yield nobody; only a cookie whose
/// bytes are a stored live session's key yields an account — that
/// session's.
pub fn get_user_from_jar(db: &Database, users: &UserStore, cookie: Option<&str>, now: u64) -> (r:
    Result<Option<User>, Error>)
    ensures
        r is Ok,
        cookie is None ==> r == Result::<Option<User>, Error>::Ok(Option::<User>::None),
        cookie matches Some(s) ==> r == Result::<Option<User>, Error>::Ok(
            match hex_decoded(s@) {
                Option::None => Option::<User>::None,
                Option::Some(w) => spec_authenticate(*db, *users, w, now),
            },
        ),
        forall|w: Seq<u8>|
            (cookie matches Some(s) && s@ == hex_of(w)) ==> r == Result::<Option<User>, Error>::Ok(
                spec_authenticate(*db, *users, w, now),
            ),
{
    match cookie {
        None => Ok(None),
        Some(c) => match hex_decode_str(c) {
            Err(_) => Ok(None),
            Ok(v) => authenticate(db, users, &v, now),
        },
    }
}

/// How a login attempt ended.
#[derive(Debug)]
pub enum LoginOutcome {
    /// A text field was left empty.
    AllFieldsRequired,
    /// No such account, or the password does not match.
    InvalidLoginInfo,
    /// Logged in; the value the session cookie must carry.
    LoggedIn(String),
}

impl Login {
    /// Checks the credentials against the first current account under the
    /// given email and, when the password matches its digest, mints a
    /// session valid from `now` for the form's timeout and returns its
    /// cookie value. The stores change only on success.
    pub fn post(users: &UserStore, db: &mut Database, form: &LoginFormData, now: u64) -> (r: Result<
        LoginOutcome,
        Error,
    >)
        ensures
            ({
                let i = first_user_by_email_from(*users, form.username_or_email@, 0);
                let missing = form.username_or_email@.len() == 0 || form.password@.len() == 0;
                if missing {
                    r matches Ok(LoginOutcome::AllFieldsRequired) && final(db).sessions@ == old(
                        db,
                    ).sessions@
                } else if i >= users.rows@.len() {
                    r matches Ok(LoginOutcome::InvalidLoginInfo) && final(db).sessions@ == old(
                        db,
                    ).sessions@
                } else {
                    let digest = users.rows@[i].payload.password@;
                    match r {
                        Ok(LoginOutcome::AllFieldsRequired) => false,
                        Ok(LoginOutcome::InvalidLoginInfo) => !bcrypt_matches(
                            form.password@,
                            digest,
                        ) && final(db).sessions@ == old(db).sessions@,
                        Ok(LoginOutcome::LoggedIn(cookie)) => bcrypt_matches(form.password@, digest)
                            && ({
                            &&& final(db).sessions@.len() == old(db).sessions@.len() + 1
                            &&& final(db).sessions@.drop_last() == old(db).sessions@
                            &&& final(db).sessions@.last().user == users.rows@[i].identity
                            &&& final(db).sessions@.last().created_on == now
                            &&& final(db).sessions@.last().last_refreshed == now
                            &&& final(db).sessions@.last().timeout_duration_seconds == form.timeout
                            &&& final(db).sessions@.last().session_key@.len() == 32
                            &&& cookie@ == hex_of(final(db).sessions@.last().session_key@)
                        }),
                        Err(e) => (e == Error::StorageFailure || e == Error::DuplicateEntry)
                            && final(db).sessions@ == old(db).sessions@,
                    }
                }
            }),
    {
        if !form.all_fields_populated() {
            return Ok(LoginOutcome::AllFieldsRequired);
        }
        let user = match User::get_by_email(users, form.username_or_email.as_str()) {
            Ok(u) => u,
            Err(_) => {
                return Ok(LoginOutcome::InvalidLoginInfo);
            },
        };
        let matches_digest = match bcrypt_verify(form.password.as_str(), user.password.as_str()) {
            Ok(b) => b,
            Err(e) => {
                return Err(e);
            },
        };
        if !matches_digest {
            return Ok(LoginOutcome::InvalidLoginInfo);
        }
        let key = match generate_session_key() {
            Ok(k) => k,
            Err(e) => {
                return Err(e);
            },
        };
        let session = Session {
            session_key: key,
            user: user.id,
            created_on: now,
            last_refreshed: now,
            timeout_duration_seconds: form.timeout,
        };
        match db.insert_session(&session) {
            Ok(()) => {
                let cookie = hex_encode_bytes(&session.session_key);
                Ok(LoginOutcome::LoggedIn(cookie))
            },
            Err(e) => Err(e),
        }
    }
}

/// The namespace of the login flow.
pub struct Login;

} // verus!
