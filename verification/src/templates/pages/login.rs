use vstd::prelude::*;

use crate::templates::components::layout::layout_markup;
use crate::templates::pages::login_section;

verus! {

pub fn login_page() -> (m: String)
    ensures
        m@ == layout_markup("Login"@, login_section()),
{
    crate::templates::pages::login_page()
}

} // verus!
