//! The pages of the site.
pub mod login;
pub mod logout;
pub mod post;
pub mod post_list;
pub mod write;

use vstd::prelude::*;

use crate::templates::components::layout::{layout, layout_markup};

verus! {

pub open spec fn home_section() -> Seq<char> {
    "<section><h1>Hello from xub!</h1><p>A place to write</p></section>"@
}

pub open spec fn login_section() -> Seq<char> {
    "<section><h1>Login</h1><form method=\"post\" action=\"/login\"><label for=\"username\">Username</label><input id=\"username\" name=\"username\" type=\"text\" required><label for=\"password\">Password</label><input id=\"password\" name=\"password\" type=\"password\" required><button type=\"submit\">Sign In</button></form></section>"@
}

pub open spec fn logout_section() -> Seq<char> {
    "<section><h1>Logged Out</h1><p>You have ended the session.</p><a href=\"/\">Go back home</a></section>"@
}

pub open spec fn secret_section() -> Seq<char> {
    "<section><h1>Top Secret</h1><p>Authorized eyes only.</p></section>"@
}

pub open spec fn write_section() -> Seq<char> {
    "<section><h1>Write a new post</h1><form method=\"post\" action=\"/write\"><label for=\"title\">Title</label><input id=\"title\" name=\"title\" type=\"text\" required><label for=\"content\">Content</label><textarea id=\"content\" name=\"content\" required></textarea><button type=\"submit\">Publish</button></form></section>"@
}

pub fn home_page() -> (m: String)
    ensures
        m@ == layout_markup("Welcome"@, home_section()),
{
    layout("Welcome", "<section><h1>Hello from xub!</h1><p>A place to write</p></section>")
}

pub fn login_page() -> (m: String)
    ensures
        m@ == layout_markup("Login"@, login_section()),
{
    layout(
        "Login",
        "<section><h1>Login</h1><form method=\"post\" action=\"/login\"><label for=\"username\">Username</label><input id=\"username\" name=\"username\" type=\"text\" required><label for=\"password\">Password</label><input id=\"password\" name=\"password\" type=\"password\" required><button type=\"submit\">Sign In</button></form></section>",
    )
}

pub fn logout_page() -> (m: String)
    ensures
        m@ == layout_markup("Logged Out"@, logout_section()),
{
    layout(
        "Logged Out",
        "<section><h1>Logged Out</h1><p>You have ended the session.</p><a href=\"/\">Go back home</a></section>",
    )
}

pub fn secret_page() -> (m: String)
    ensures
        m@ == layout_markup("Secret"@, secret_section()),
{
    layout("Secret", "<section><h1>Top Secret</h1><p>Authorized eyes only.</p></section>")
}

pub fn write_page() -> (m: String)
    ensures
        m@ == layout_markup("Write a Post"@, write_section()),
{
    layout(
        "Write a Post",
        "<section><h1>Write a new post</h1><form method=\"post\" action=\"/write\"><label for=\"title\">Title</label><input id=\"title\" name=\"title\" type=\"text\" required><label for=\"content\">Content</label><textarea id=\"content\" name=\"content\" required></textarea><button type=\"submit\">Publish</button></form></section>",
    )
}

} // verus!
