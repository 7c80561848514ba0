//! The decisions of the site's request handlers: who may log in, who may
//! write, and what the post index answers.
use vstd::prelude::*;

use crate::order::{
    in_order, lemma_index_resort_keeps_listing, lemma_stable_sorted_in_order, stable_sort,
    stable_sorted, views, PostOrder,
};
use crate::posts::{parsed_all, Post, PostError, PostView};
use crate::templates::components::layout::layout_markup;
use crate::templates::pages::post_list::{post_list_page, post_list_section};

verus! {

/// The user name that login expects when none is configured.
pub open spec fn default_user() -> Seq<char> {
    "admin"@
}

/// The password that login expects when none is configured.
pub open spec fn default_password() -> Seq<char> {
    "password"@
}

/// The configured value, or else the default.
pub open spec fn effective(configured: Option<String>, default: Seq<char>) -> Seq<char> {
    match configured {
        Some(v) => v@,
        None => default,
    }
}

/// Whether the login form's user name and password match the expected ones.
pub open spec fn login_accepted(
    username: Seq<char>,
    password: Seq<char>,
    configured_user: Option<String>,
    configured_password: Option<String>,
) -> bool {
    username == effective(configured_user, default_user()) && password == effective(
        configured_password,
        default_password(),
    )
}

/// Login accepts the expected credentials, each setting on its own: the
/// configured user name, or `admin` where none is configured, with the
/// configured password, or `password` where none is configured.
pub proof fn lemma_expected_credentials_accepted(
    configured_user: Option<String>,
    configured_password: Option<String>,
)
    ensures
        login_accepted(
            match configured_user {
                Some(u) => u@,
                None => "admin"@,
            },
            match configured_password {
                Some(p) => p@,
                None => "password"@,
            },
            configured_user,
            configured_password,
        ),
{
}

/// Login refuses any other user name, and any other password, whatever the
/// other field holds.
pub proof fn lemma_other_credentials_refused(
    username: Seq<char>,
    password: Seq<char>,
    configured_user: Option<String>,
    configured_password: Option<String>,
)
    requires
        username != (match configured_user {
            Some(u) => u@,
            None => "admin"@,
        }) || password != (match configured_password {
            Some(p) => p@,
            None => "password"@,
        }),
    ensures
        !login_accepted(username, password, configured_user, configured_password),
{
}

fn expected(configured: Option<String>, default: &str) -> (r: String)
    ensures
        r@ == effective(configured, default@),
{
    match configured {
        Some(v) => v,
        None => default.to_owned(),
    }
}

/// The answer to a login form: 200 with no body when the credentials match
/// the configured ones (`admin` and `password` where none are configured),
/// else 401 with `Invalid credentials`.
pub fn login_reply(
    username: &str,
    password: &str,
    configured_user: Option<String>,
    configured_password: Option<String>,
) -> (reply: (u16, String))
    ensures
        login_accepted(username@, password@, configured_user, configured_password) ==> reply.0
            == 200 && reply.1@.len() == 0,
        !login_accepted(username@, password@, configured_user, configured_password) ==> reply.0
            == 401 && reply.1@ == "Invalid credentials"@,
{
    let expected_user = expected(configured_user, "admin");
    let expected_password = expected(configured_password, "password");
    let user = username.to_owned();
    let pass = password.to_owned();
    if user == expected_user && pass == expected_password {
        (200, String::new())
    } else {
        (401, "Invalid credentials".to_owned())
    }
}

/// Whether a request may reach the writing pages: only with a session whose
/// `logged_in` flag reads `true`; a missing or unreadable flag counts as
/// `false`.
pub open spec fn access_granted(session_found: bool, logged_in: Option<bool>) -> bool {
    session_found && logged_in == Some(true)
}

/// A session that holds no `logged_in` flag, such as one flushed by logging
/// out and not logged in since, never reaches the writing pages.
pub proof fn lemma_session_without_flag_refused(session_found: bool)
    ensures
        !access_granted(session_found, None),
{
}

pub fn auth_allows(session_found: bool, logged_in: Option<bool>) -> (allowed: bool)
    ensures
        allowed == access_granted(session_found, logged_in),
{
    session_found && match logged_in {
        Some(flag) => flag,
        None => false,
    }
}

/// The answer of the post index: the posts sorted newest first (stably) on
/// the list page, or 500 with no body when listing failed. A listing that is
/// already in listing order is shown as it is.
pub fn posts_index_page(listing: Result<Vec<Post>, PostError>) -> (reply: (u16, String))
    ensures
        listing is Err ==> reply.0 == 500 && reply.1@.len() == 0,
        listing matches Ok(posts) ==> reply.0 == 200 && exists|shown: Seq<PostView>|
            stable_sorted(views(posts@), shown, PostOrder::NewestFirst) && reply.1@
                == layout_markup("Posts"@, post_list_section(shown)),
        listing matches Ok(posts) ==> in_order(views(posts@), PostOrder::Listing) ==> reply.1@
            == layout_markup("Posts"@, post_list_section(views(posts@))),
{
    match listing {
        Ok(posts) => {
            let ghost listed = views(posts@);
            let sorted = stable_sort(posts, PostOrder::NewestFirst);
            proof {
                if in_order(listed, PostOrder::Listing) {
                    lemma_index_resort_keeps_listing(listed, views(sorted@));
                }
            }
            (200, post_list_page(sorted))
        },
        Err(_) => (500, String::new()),
    }
}

/// The index shows the posts as the loader lists them: sorting the loaded
/// listing newest first once more leaves it as it was.
pub proof fn lemma_index_shows_loaded_listing(
    found: Seq<(String, String)>,
    listed: Seq<PostView>,
    shown: Seq<PostView>,
)
    requires
        stable_sorted(parsed_all(found), listed, PostOrder::Listing),
        stable_sorted(listed, shown, PostOrder::NewestFirst),
    ensures
        shown == listed,
{
    lemma_stable_sorted_in_order(parsed_all(found), listed, PostOrder::Listing);
    lemma_index_resort_keeps_listing(listed, shown);
}

} // verus!
