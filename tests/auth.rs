use movierama::{
    authenticate, claims_expiring_at, hash_new_password, issue_claims, login_user, Claims, LoginUser, MovieramaError,
    RegisterUser, User,
};

fn registered(username: &str, password: &str) -> User {
    let data = RegisterUser {
        username: username.to_string(),
        email: format!("{}@mail.com", username),
        password: password.to_string(),
    };
    let hash = hash_new_password(&data).unwrap();
    User { id: 42, username: data.username, email: data.email, password: hash }
}

#[test]
fn test_login_user_success() {
    let user = registered("demo", "password");
    let login = LoginUser { username: "demo".into(), password: "password".into() };
    let claims = login_user(Some(user), &login, 1_700_000_000).unwrap();
    assert_eq!(claims.sub, "demo");
    assert_eq!(claims.user_id, 42);
    assert_eq!(claims.exp, 1_700_000_000 + 24 * 3600);
}

#[test]
fn test_login_user_wrong_password() {
    let user = registered("pavlos", "password");
    let login = LoginUser { username: "pavlos".into(), password: "wrongpass".into() };
    let result = login_user(Some(user), &login, 1_700_000_000);
    assert!(matches!(result, Err(MovieramaError::Unauthorized)));
}

#[test]
fn test_login_user_not_found() {
    let login = LoginUser { username: "ghost".into(), password: "password".into() };
    let result = login_user(None, &login, 1_700_000_000);
    assert!(matches!(result, Err(MovieramaError::NotFound)));
}

#[test]
fn stored_hash_is_not_the_password() {
    let user = registered("user1", "password");
    assert_ne!(user.password, "password");
    assert!(authenticate(&user, "password").is_ok());
}

#[test]
fn unreadable_stored_hash_is_unexpected() {
    let user = User { id: 1, username: "x".into(), email: "x@mail.com".into(), password: "plain".into() };
    assert!(matches!(authenticate(&user, "plain"), Err(MovieramaError::UnexpectedError(_))));
    assert!(matches!(issue_claims(&user, "plain", 0), Err(MovieramaError::UnexpectedError(_))));
}

#[test]
fn claims_expiry() {
    let claims = Claims { sub: "a".into(), user_id: 1, exp: 100 };
    assert!(claims.check_expiry(100).is_ok());
    let claims = Claims { sub: "a".into(), user_id: 1, exp: 100 };
    assert!(matches!(claims.check_expiry(101), Err(MovieramaError::Unauthorized)));
}

#[test]
fn claims_for_an_expiry() {
    let user = User { id: 9, username: "bob".into(), email: "b@mail.com".into(), password: "h".into() };
    let claims = claims_expiring_at(&user, Some(1_000)).unwrap();
    assert_eq!((claims.sub.as_str(), claims.user_id, claims.exp), ("bob", 9, 1_000));
    assert!(matches!(claims_expiring_at(&user, Some(-1)), Err(MovieramaError::UnexpectedError(_))));
    assert!(matches!(claims_expiring_at(&user, None), Err(MovieramaError::UnexpectedError(_))));
}
