use photo_album::auth::{AuthError, SqlUser};
use photo_album::components::home_page::{image_after_delete, make_filters, may_delete_image, Filters};
use photo_album::components::invite::{can_delete_user, invitation_address, invitation_link};
use photo_album::components::login::login_outcome;
use photo_album::components::signup::check_password_confirmation;
use photo_album::components::testdb::{last_folders, Folder};

#[test]
fn filters_drop_empty_choices() {
    let f = make_filters("HAS".to_string(), vec!["".to_string(), "".to_string()], "NOT".to_string(), vec![0, 0]);
    assert_eq!(f, Filters { tags: None, people: None });
    let f = make_filters("HAS".to_string(), vec![], "NOT".to_string(), vec![]);
    assert_eq!(f, Filters { tags: None, people: None });
}

#[test]
fn filters_keep_real_choices() {
    let f = make_filters("ONLY".to_string(), vec!["".to_string(), "sea".to_string()], "HAS".to_string(), vec![0, 3]);
    assert_eq!(
        f,
        Filters {
            tags: Some(("ONLY".to_string(), vec!["".to_string(), "sea".to_string()])),
            people: Some(("HAS".to_string(), vec![0, 3])),
        }
    );
}

#[test]
fn only_uploader_or_admin_may_delete() {
    assert_eq!(may_delete_image(true, false), Ok(()));
    assert_eq!(may_delete_image(false, true), Ok(()));
    assert_eq!(may_delete_image(false, false), Err("You are not authorized to delete this image".to_string()));
}

#[test]
fn next_image_preferred_after_delete() {
    assert_eq!(image_after_delete(Some(Some("n".to_string())), Some(Some("p".to_string()))), Some("n".to_string()));
    assert_eq!(image_after_delete(Some(None), Some(Some("p".to_string()))), Some("p".to_string()));
    assert_eq!(image_after_delete(None, Some(Some("p".to_string()))), Some("p".to_string()));
    assert_eq!(image_after_delete(Some(None), Some(None)), None);
    assert_eq!(image_after_delete(None, None), None);
}

#[test]
fn invitation_link_and_address() {
    let link = invitation_link("abc-123");
    assert_eq!(link, "/signup/abc-123");
    assert_eq!(invitation_address("https://photos.example", &link), "https://photos.example/signup/abc-123");
}

#[test]
fn first_admin_cannot_be_deleted() {
    assert!(!can_delete_user("admin"));
    assert!(can_delete_user("bob"));
    assert!(can_delete_user("Admin"));
}

#[test]
fn login_outcome_messages() {
    let u = SqlUser {
        id: 2,
        username: "ann".to_string(),
        email: String::new(),
        password: String::new(),
        signed_up: true,
        admin: false,
    };
    assert!(matches!(login_outcome(Ok(Some(u))), Ok(ref v) if v.id == 2));
    assert_eq!(
        login_outcome(Ok(None)).err(),
        Some("Password does not match or user does not exist.".to_string())
    );
    assert_eq!(login_outcome(Err(AuthError::Sqlx)).err(), Some("An error occured".to_string()));
    assert_eq!(login_outcome(Err(AuthError::TaskJoin)).err(), Some("An error occured".to_string()));
}

#[test]
fn signup_passwords_must_match() {
    assert_eq!(check_password_confirmation("pw", "pw"), Ok(()));
    assert_eq!(check_password_confirmation("pw", "pW"), Err("Passwords did not match.".to_string()));
    assert_eq!(check_password_confirmation("", ""), Ok(()));
}

fn folder(i: usize) -> Folder {
    Folder { id: i.to_string(), parent_id: None, name: format!("f{}", i) }
}

#[test]
fn last_ten_folders_are_kept() {
    let all: Vec<Folder> = (0..12).map(folder).collect();
    let ids: Vec<String> = last_folders(all).into_iter().map(|f| f.id).collect();
    assert_eq!(ids, (2..12).map(|i| i.to_string()).collect::<Vec<_>>());
    let few: Vec<Folder> = (0..3).map(folder).collect();
    assert_eq!(last_folders(few).len(), 3);
    assert!(last_folders(vec![]).is_empty());
}

#[test]
fn new_invitation_links_token() {
    let (token, link) = photo_album::components::invite::new_invitation();
    assert_eq!(token.len(), 36);
    assert_eq!(link, format!("/signup/{}", token));
    assert_eq!(token.matches('-').count(), 4);
}

#[test]
fn folder_ids_are_uuids() {
    let a = photo_album::components::testdb::new_folder_id();
    let b = photo_album::components::testdb::new_folder_id();
    assert_eq!(a.len(), 36);
    assert_ne!(a, b);
}

#[test]
fn panel_offers_invite_and_admin_by_state() {
    let u = |signed_up: bool, admin: bool| photo_album::components::invite::UserInfo { id: 1, username: "u".to_string(), email: String::new(), signed_up, admin };
    assert!(u(false, false).may_be_invited());
    assert!(!u(true, false).may_be_invited());
    assert!(u(true, false).may_become_admin());
    assert!(!u(true, true).may_become_admin());
    assert!(!u(false, false).may_become_admin());
}

#[test]
fn routes_follow_sign_in_and_admin() {
    use_routes();
}

fn use_routes() {
    let member = photo_album::auth::User {
        id: 2,
        username: "ann".to_string(),
        email: String::new(),
        permissions: vec![],
    };
    let mut admin = member.clone();
    admin.permissions = vec!["admin".to_string()];
    let signed = photo_album::pages::Visitor::SignedIn(member);
    let boss = photo_album::pages::Visitor::SignedIn(admin);
    let guest = photo_album::pages::Visitor::Guest;
    let loading = photo_album::pages::Visitor::Loading;
    let failed = photo_album::pages::Visitor::Failed;
    assert!(matches!(photo_album::pages::page_for(photo_album::pages::Route::Home, &signed), photo_album::pages::Shown::HomePage));
    assert!(matches!(photo_album::pages::page_for(photo_album::pages::Route::Home, &guest), photo_album::pages::Shown::LoginForm));
    assert!(matches!(photo_album::pages::page_for(photo_album::pages::Route::Admin, &signed), photo_album::pages::Shown::Nothing));
    assert!(matches!(photo_album::pages::page_for(photo_album::pages::Route::Admin, &boss), photo_album::pages::Shown::AdminPanel));
    assert!(matches!(photo_album::pages::page_for(photo_album::pages::Route::Admin, &failed), photo_album::pages::Shown::LoginForm));
    assert!(matches!(photo_album::pages::page_for(photo_album::pages::Route::Signup, &loading), photo_album::pages::Shown::SignupForm));
    assert!(matches!(photo_album::pages::page_for(photo_album::pages::Route::Signup, &boss), photo_album::pages::Shown::Nothing));
    assert!(matches!(photo_album::pages::page_for(photo_album::pages::Route::Other, &guest), photo_album::pages::Shown::NotFound));
}
