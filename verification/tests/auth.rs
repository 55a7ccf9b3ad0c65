use photo_album::auth::{authenticate, password_check, AuthError, Credentials, SqlUser, User};

fn row(password_hash: &str, admin: bool) -> SqlUser {
    SqlUser {
        id: 7,
        username: "bob".to_string(),
        email: "bob@example.com".to_string(),
        password: password_hash.to_string(),
        signed_up: true,
        admin,
    }
}

fn creds(password: &str) -> Credentials {
    Credentials { username: "bob".to_string(), password: password.to_string() }
}

#[test]
fn guest_user_has_no_permissions() {
    let g = User::default();
    assert_eq!(g.id, -1);
    assert_eq!(g.username, "Guest");
    assert_eq!(g.email, "");
    assert!(g.permissions.is_empty());
    assert!(!g.has("admin"));
}

#[test]
fn admin_row_grants_admin_permission() {
    let u = row("x", true).into_user();
    assert_eq!(u.id, 7);
    assert_eq!(u.username, "bob");
    assert_eq!(u.email, "bob@example.com");
    assert_eq!(u.permissions, vec!["admin".to_string()]);
    assert!(u.has("admin"));
    assert!(!u.has("Admin"));
}

#[test]
fn plain_row_grants_nothing() {
    let u = row("x", false).into_user();
    assert!(u.permissions.is_empty());
    assert!(!u.has("admin"));
}

#[test]
fn correct_password_authenticates() {
    let hash = bcrypt::hash("secret", 4).unwrap();
    let r = authenticate(Some(row(&hash, false)), creds("secret"));
    assert!(matches!(r, Ok(Some(ref u)) if u.id == 7));
}

#[test]
fn wrong_password_is_refused() {
    let hash = bcrypt::hash("secret", 4).unwrap();
    let r = authenticate(Some(row(&hash, false)), creds("Secret"));
    assert!(matches!(r, Ok(None)));
}

#[test]
fn malformed_hash_is_an_error() {
    let r = authenticate(Some(row("not a hash", false)), creds("secret"));
    assert!(matches!(r, Err(AuthError::Bcrypt)));
}

#[test]
fn unknown_user_is_a_task_error() {
    let r = authenticate(None, creds("secret"));
    assert!(matches!(r, Err(AuthError::TaskJoin)));
}

#[test]
fn password_check_maps_outcomes() {
    assert!(matches!(password_check(row("h", false), Some(true)), Ok(Some(_))));
    assert!(matches!(password_check(row("h", false), Some(false)), Ok(None)));
    assert!(matches!(password_check(row("h", false), None), Err(AuthError::Bcrypt)));
}

#[test]
fn new_password_hash_logs_in() {
    let hash = photo_album::auth::hash_new_password("s3cret!").unwrap();
    assert_ne!(hash, "s3cret!");
    let r = authenticate(Some(row(&hash, false)), creds("s3cret!"));
    assert!(matches!(r, Ok(Some(_))));
    let r = authenticate(Some(row(&hash, false)), creds("other"));
    assert!(matches!(r, Ok(None)));
}
