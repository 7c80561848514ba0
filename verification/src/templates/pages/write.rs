use vstd::prelude::*;

use crate::templates::components::layout::layout_markup;
use crate::templates::pages::write_section;

verus! {

pub fn write_page() -> (m: String)
    ensures
        m@ == layout_markup("Write a Post"@, write_section()),
{
    crate::templates::pages::write_page()
}

} // verus!
