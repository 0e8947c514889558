//! Choice of the page that a job rasterises.

use vstd::prelude::*;

verus! {

/// The page that is rendered for a request against a document of
/// `page_count` pages: the first page when nothing is requested, otherwise the
/// requested index held back to the last page.
pub open spec fn page_to_render(requested: Option<usize>, page_count: usize) -> int {
    match requested {
        None => 0,
        Some(p) => if page_count == 0 {
            0
        } else if p < page_count {
            p as int
        } else {
            page_count - 1
        },
    }
}

/// Picks the page index to rasterise.
pub fn select_page(requested: Option<usize>, page_count: usize) -> (index: usize)
    ensures
        index == page_to_render(requested, page_count),
        page_count > 0 ==> index < page_count,
{
    match requested {
        None => 0,
        Some(p) => {
            if page_count == 0 {
                0
            } else if p < page_count {
                p
            } else {
                page_count - 1
            }
        },
    }
}

} // verus!
