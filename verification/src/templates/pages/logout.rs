use vstd::prelude::*;

use crate::templates::components::layout::layout_markup;
use crate::templates::pages::logout_section;

verus! {

pub fn logout_page() -> (m: String)
    ensures
        m@ == layout_markup("Logged Out"@, logout_section()),
{
    crate::templates::pages::logout_page()
}

} // verus!
