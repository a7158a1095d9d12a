//! Accounts: the API key check, and the answers of login and registration.

use vstd::prelude::*;
use crate::reply::{Body, BodyView, JsonValue, JsonValueView, Reply, ReplyView, Status, json_reply, text_reply};
use crate::text::{concat2, same_text};

verus! {

/// The bearer check of the protected routes: the request passes exactly
/// when its token is the API key; otherwise it is refused as unauthorized.
pub fn validator(token: &str, api_key: &str) -> (r: Result<(), Reply>)
    ensures
        match r {
            Ok(()) => token@ == api_key@,
            Err(reply) => token@ != api_key@ && reply@ == text_reply(
                Status::Unauthorized,
                "Invalid API key"@,
            ),
        },
{
    if same_text(token, api_key) {
        Ok(())
    } else {
        Err(Reply::text(Status::Unauthorized, "Invalid API key"))
    }
}

/// What the user lookup of a login found.
#[derive(Debug)]
pub enum LoginOutcome {
    /// A user with that email and password.
    Found,
    /// No such user.
    NotFound,
    /// The database failed with this message.
    Failed(String),
}

/// The answer to a login: on success, the API key (or a placeholder where
/// none is configured).
pub open spec fn login_reply_spec(found: Option<bool>, api_key: Option<Seq<char>>) -> ReplyView {
    match found {
        Some(true) => text_reply(
            Status::Success,
            "Login successful\nAPI_KEY: "@ + match api_key {
                Some(k) => k,
                None => "API_KEY_NOT_FOUND"@,
            },
        ),
        Some(false) => text_reply(Status::Unauthorized, "Invalid email or password"@),
        None => text_reply(Status::InternalServerError, "Database error"@),
    }
}

/// The answer of `login_user` to the outcome of the user lookup, with the
/// configured API key.
pub fn login_user(outcome: &LoginOutcome, api_key: Option<&str>) -> (r: Reply)
    ensures
        r@ == login_reply_spec(
            match outcome {
                LoginOutcome::Found => Some(true),
                LoginOutcome::NotFound => Some(false),
                LoginOutcome::Failed(_) => None,
            },
            match api_key {
                Some(k) => Some(k@),
                None => None,
            },
        ),
{
    match outcome {
        LoginOutcome::Found => {
            let key = match api_key {
                Some(k) => k,
                None => "API_KEY_NOT_FOUND",
            };
            Reply::owned_text(Status::Success, concat2("Login successful\nAPI_KEY: ", key))
        },
        LoginOutcome::NotFound => Reply::text(Status::Unauthorized, "Invalid email or password"),
        LoginOutcome::Failed(_) => Reply::text(Status::InternalServerError, "Database error"),
    }
}

/// A JSON object of two text members.
pub open spec fn json_pair(
    status: Status,
    k1: Seq<char>,
    v1: Seq<char>,
    k2: Seq<char>,
    v2: Seq<char>,
) -> ReplyView {
    ReplyView {
        status,
        body: BodyView::Json(
            seq![(k1, JsonValueView::Text(v1)), (k2, JsonValueView::Text(v2))],
        ),
    }
}

fn json_pair_reply(status: Status, k1: &str, v1: &str, k2: &str, v2: &str) -> (r: Reply)
    ensures
        r@ == json_pair(status, k1@, v1@, k2@, v2@),
{
    let mut members: Vec<(String, JsonValue)> = Vec::new();
    members.push((String::from_str(k1), JsonValue::Text(String::from_str(v1))));
    members.push((String::from_str(k2), JsonValue::Text(String::from_str(v2))));
    let r = Reply { status, body: Body::Json(members) };
    assert(members@.map_values(|m: (String, JsonValue)| (m.0@, m.1@)) =~= seq![
        (k1@, JsonValueView::Text(v1@)),
        (k2@, JsonValueView::Text(v2@)),
    ]);
    r
}

/// Whether registration goes on to insert the user after the check whether
/// the email is taken: the check succeeded and did not find the email.
pub open spec fn registration_goes_on(check: Result<Option<bool>, String>) -> bool {
    check matches Ok(exists) && exists != Some(true)
}

/// The answer of `register_user` to the check whether `email` is taken
/// (`Ok(exists)`, where `exists` is what the query returned, or the
/// database error): `None` where registration goes on.
pub fn register_check(check: &Result<Option<bool>, String>, email: &str) -> (r: Option<Reply>)
    ensures
        (r is None) == registration_goes_on(*check),
        match check {
            Ok(Some(true)) => r matches Some(reply) && reply@ == json_pair(
                Status::Conflict,
                "error"@,
                "User already exists"@,
                "email"@,
                email@,
            ),
            Ok(_) => r is None,
            Err(e) => r matches Some(reply) && reply@ == json_reply(
                Status::InternalServerError,
                "error"@,
                "Database error: "@ + e@,
            ),
        },
{
    match check {
        Ok(Some(true)) => Some(
            json_pair_reply(Status::Conflict, "error", "User already exists", "email", email),
        ),
        Ok(_) => None,
        Err(e) => Some(
            Reply::json_text(
                Status::InternalServerError,
                "error",
                concat2("Database error: ", e.as_str()),
            ),
        ),
    }
}

/// The answer of `register_user` to the insertion of the new user.
pub fn register_user(inserted: &Result<(), String>, email: &str) -> (r: Reply)
    ensures
        match inserted {
            Ok(()) => r@ == json_pair(
                Status::Success,
                "message"@,
                "User registered successfully"@,
                "email"@,
                email@,
            ),
            Err(e) => r@ == json_reply(
                Status::InternalServerError,
                "error"@,
                "Registration failed: "@ + e@,
            ),
        },
{
    match inserted {
        Ok(()) => json_pair_reply(
            Status::Success,
            "message",
            "User registered successfully",
            "email",
            email,
        ),
        Err(e) => Reply::json_text(
            Status::InternalServerError,
            "error",
            concat2("Registration failed: ", e.as_str()),
        ),
    }
}

/// Whether no email occurs twice in `users`.
pub open spec fn emails_distinct(users: Seq<Seq<char>>) -> bool {
    forall|i: int, j: int| 0 <= i < j < users.len() ==> #[trigger] users[i] != #[trigger] users[j]
}

/// The emails of the users table after one registration of `email`, where
/// `check` is what the existence check answered and `inserted` whether the
/// insertion then succeeded: the email is added only where registration
/// went on and the insertion succeeded.
pub open spec fn users_after_registration(
    users: Seq<Seq<char>>,
    email: Seq<char>,
    check: Result<Option<bool>, String>,
    inserted: bool,
) -> Seq<Seq<char>> {
    if registration_goes_on(check) && inserted {
        users.push(email)
    } else {
        users
    }
}

/// Law: registration keeps the emails of the users distinct. The table is
/// taken by its list of emails, the existence check answers truthfully
/// whether `email` is in it, and no other registration runs in between.
/// An email that is already registered is refused by the check (the
/// conflict answer of `register_check`), and the table stays as it was.
pub proof fn lemma_registration_keeps_emails_distinct(
    users: Seq<Seq<char>>,
    email: Seq<char>,
    inserted: bool,
)
    requires
        emails_distinct(users),
    ensures
        emails_distinct(
            users_after_registration(users, email, Ok(Some(users.contains(email))), inserted),
        ),
        users.contains(email) ==> !registration_goes_on(Ok(Some(users.contains(email))))
            && users_after_registration(users, email, Ok(Some(users.contains(email))), inserted)
            == users,
{
    let after = users_after_registration(users, email, Ok(Some(users.contains(email))), inserted);
    if !users.contains(email) && inserted {
        assert forall|i: int, j: int| 0 <= i < j < after.len() implies #[trigger] after[i]
            != #[trigger] after[j] by {
            if j == users.len() {
                assert(after[i] == users[i]);
                assert(after[j] == email);
            } else {
                assert(after[i] == users[i] && after[j] == users[j]);
            }
        }
    }
}

} // verus!
