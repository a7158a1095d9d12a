use s4u_storage::accounts::{login_user, register_check, register_user, validator, LoginOutcome};
use s4u_storage::jwt::{claims_at, claims_for, MIN_UTC_TIMESTAMP};
use s4u_storage::clock::{unix_now, MAX_UTC_TIMESTAMP};
use s4u_storage::reply::{Body, JsonValue, Reply, Status};

fn text(r: &Reply) -> (Status, String) {
    match &r.body {
        Body::Text(t) => (r.status, t.clone()),
        other => panic!("not a text body: {:?}", other),
    }
}

fn json(r: &Reply) -> Vec<(String, String)> {
    match &r.body {
        Body::Json(m) => m
            .iter()
            .map(|(k, v)| match v {
                JsonValue::Text(t) => (k.clone(), t.clone()),
                JsonValue::List(_) => panic!("list"),
            })
            .collect(),
        other => panic!("not json: {:?}", other),
    }
}

#[test]
fn api_key_check() {
    assert!(validator("secret", "secret").is_ok());
    let e = validator("guess", "secret").unwrap_err();
    assert_eq!(text(&e), (Status::Unauthorized, "Invalid API key".to_string()));
}

#[test]
fn login_answers() {
    assert_eq!(
        text(&login_user(&LoginOutcome::Found, Some("k123"))),
        (Status::Success, "Login successful\nAPI_KEY: k123".to_string())
    );
    assert_eq!(
        text(&login_user(&LoginOutcome::Found, None)),
        (Status::Success, "Login successful\nAPI_KEY: API_KEY_NOT_FOUND".to_string())
    );
    assert_eq!(
        text(&login_user(&LoginOutcome::NotFound, Some("k"))),
        (Status::Unauthorized, "Invalid email or password".to_string())
    );
    assert_eq!(
        text(&login_user(&LoginOutcome::Failed("down".to_string()), Some("k"))),
        (Status::InternalServerError, "Database error".to_string())
    );
}

#[test]
fn register_answers() {
    let r = register_check(&Ok(Some(true)), "a@b.c").unwrap();
    assert_eq!(r.status, Status::Conflict);
    assert_eq!(
        json(&r),
        vec![("error".to_string(), "User already exists".to_string()), ("email".to_string(), "a@b.c".to_string())]
    );
    assert!(register_check(&Ok(Some(false)), "a@b.c").is_none());
    assert!(register_check(&Ok(None), "a@b.c").is_none());
    let r = register_check(&Err("timeout".to_string()), "a@b.c").unwrap();
    assert_eq!(r.status, Status::InternalServerError);
    assert_eq!(json(&r), vec![("error".to_string(), "Database error: timeout".to_string())]);
    let r = register_user(&Ok(()), "a@b.c");
    assert_eq!(r.status, Status::Success);
    assert_eq!(
        json(&r),
        vec![("message".to_string(), "User registered successfully".to_string()), ("email".to_string(), "a@b.c".to_string())]
    );
    let r = register_user(&Err("dup".to_string()), "a@b.c");
    assert_eq!(json(&r), vec![("error".to_string(), "Registration failed: dup".to_string())]);
}

#[test]
fn chrono_range_constants() {
    assert_eq!(chrono::DateTime::<chrono::Utc>::MAX_UTC.timestamp(), MAX_UTC_TIMESTAMP);
    assert_eq!(chrono::DateTime::<chrono::Utc>::MIN_UTC.timestamp(), MIN_UTC_TIMESTAMP);
}

#[test]
fn claims_expire_an_hour_later() {
    let c = claims_at("user@x", 1000).unwrap();
    assert_eq!(c.sub, "user@x");
    assert_eq!(c.exp, 4600);
    assert!(claims_at("u", MAX_UTC_TIMESTAMP - 3599).is_none());
    assert!(claims_at("u", MAX_UTC_TIMESTAMP - 3600).is_some());
    let now = unix_now();
    let c = claims_for("me").unwrap();
    assert!(c.exp as i64 >= now + 3600 && c.exp as i64 <= now + 3660);
}

#[test]
fn registering_a_taken_email_is_refused() {
    let mut users: Vec<String> = vec!["a@b.c".to_string()];
    for email in ["d@e.f", "a@b.c", "d@e.f"] {
        let exists = users.iter().any(|u| u == email);
        if register_check(&Ok(Some(exists)), email).is_none() {
            users.push(email.to_string());
        } else {
            assert!(exists);
        }
    }
    assert_eq!(users, vec!["a@b.c".to_string(), "d@e.f".to_string()]);
}
