use vstd::prelude::*;
use vstd::string::StringExecFns;

use crate::templates::components::footer::{footer, footer_markup};
use crate::templates::components::navbar::{navbar, navbar_markup};
use crate::templates::{escape_markup, markup_escaped};

verus! {

/// The frame of every page: its `title` (escaped) and its `content` (markup,
/// as it is) between the navigation bar and the footer.
pub open spec fn layout_markup(title: Seq<char>, content: Seq<char>) -> Seq<char> {
    "<!DOCTYPE html><html lang=\"en\"><head><meta charset=\"utf-8\"><meta name=\"viewport\" content=\"width=device-width, initial-scale=1\"><title>"@
        + markup_escaped(title) + "</title></head><body>"@ + navbar_markup() + "<main>"@ + content
        + "</main>"@ + footer_markup() + "</body></html>"@
}

pub fn layout(title: &str, content: &str) -> (m: String)
    ensures
        m@ == layout_markup(title@, content@),
{
    "<!DOCTYPE html><html lang=\"en\"><head><meta charset=\"utf-8\"><meta name=\"viewport\" content=\"width=device-width, initial-scale=1\"><title>".to_owned()
        .concat(escape_markup(title).as_str()).concat("</title></head><body>").concat(
        navbar().as_str(),
    ).concat("<main>").concat(content).concat("</main>").concat(footer().as_str()).concat(
        "</body></html>",
    )
}

} // verus!
