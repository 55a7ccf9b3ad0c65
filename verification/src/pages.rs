use vstd::prelude::*;
use crate::auth::User;

verus! {

/// The routes of the album.
pub enum Route {
    /// `/`: the feed.
    Home,
    /// `/admin`: the user panel.
    Admin,
    /// `/signup/:invite`: the sign-up form of an invitation.
    Signup,
    /// Any other path.
    Other,
}

/// What is known of the visitor while a page is shown.
pub enum Visitor {
    /// The user is still being fetched.
    Loading,
    /// Fetching the user failed.
    Failed,
    /// No one is signed in.
    Guest,
    /// A signed-in user.
    SignedIn(User),
}

/// What a route shows.
pub enum Shown {
    HomePage,
    AdminPanel,
    SignupForm,
    LoginForm,
    Nothing,
    NotFound,
}

/// What a route shows to a visitor: the feed and the user panel need a
/// signed-in user (the panel an administrator), and the login form stands in
/// for them otherwise; the sign-up form is only for visitors not signed in.
pub open spec fn shown_for(route: Route, visitor: Visitor) -> Shown {
    match route {
        Route::Home => match visitor {
            Visitor::SignedIn(_) => Shown::HomePage,
            _ => Shown::LoginForm,
        },
        Route::Admin => match visitor {
            Visitor::SignedIn(u) => if u.permission_names().contains("admin"@) {
                Shown::AdminPanel
            } else {
                Shown::Nothing
            },
            _ => Shown::LoginForm,
        },
        Route::Signup => match visitor {
            Visitor::SignedIn(_) => Shown::Nothing,
            _ => Shown::SignupForm,
        },
        Route::Other => Shown::NotFound,
    }
}

/// Decides what a route shows to a visitor.
pub fn page_for(route: Route, visitor: &Visitor) -> (r: Shown)
    ensures
        r == shown_for(route, *visitor),
{
    match route {
        Route::Home => match visitor {
            Visitor::SignedIn(_) => Shown::HomePage,
            _ => Shown::LoginForm,
        },
        Route::Admin => match visitor {
            Visitor::SignedIn(u) => if u.has("admin") {
                Shown::AdminPanel
            } else {
                Shown::Nothing
            },
            _ => Shown::LoginForm,
        },
        Route::Signup => match visitor {
            Visitor::SignedIn(_) => Shown::Nothing,
            _ => Shown::SignupForm,
        },
        Route::Other => Shown::NotFound,
    }
}

/// An invitation link is open to everyone not signed in: on the sign-up
/// route a visitor who is loading, failed or a guest sees the sign-up form,
/// and a signed-in user sees nothing.
pub proof fn law_signup_open_unless_signed_in(visitor: Visitor)
    ensures
        visitor is SignedIn ==> shown_for(Route::Signup, visitor) == Shown::Nothing,
        !(visitor is SignedIn) ==> shown_for(Route::Signup, visitor) == Shown::SignupForm,
{
}

/// The sign-up form and the feed are never offered to the same visitor: the
/// sign-up route shows its form exactly when the home route shows the login
/// form instead of the feed.
pub proof fn law_signup_form_iff_home_asks_login(visitor: Visitor)
    ensures
        (shown_for(Route::Signup, visitor) == Shown::SignupForm) <==> (shown_for(Route::Home, visitor)
            == Shown::LoginForm),
        (shown_for(Route::Home, visitor) == Shown::HomePage) <==> (visitor is SignedIn),
{
}

/// The user panel is shown exactly to signed-in administrators; other
/// signed-in users see nothing there, and visitors not signed in are asked to
/// log in.
pub proof fn law_admin_panel_only_for_admins(visitor: Visitor)
    ensures
        (shown_for(Route::Admin, visitor) == Shown::AdminPanel) <==> (visitor matches Visitor::SignedIn(u)
            && u.permission_names().contains("admin"@)),
        !(visitor is SignedIn) ==> shown_for(Route::Admin, visitor) == Shown::LoginForm,
{
}

} // verus!
