//! Listings that come in numbered pages.

use vstd::prelude::*;

verus! {

/// The number of the page to ask for after page `page`: none where that one was refused or was not
/// full.
pub open spec fn page_number_after(page: u32, refused: bool, count: nat, per_page: nat) -> Option<u32> {
    if refused || count < per_page {
        None
    } else {
        Some((page + 1) as u32)
    }
}

pub fn next_page_number(page: u32, refused: bool, count: usize, per_page: usize) -> (next: Option<u32>)
    requires
        page < u32::MAX,
    ensures
        next == page_number_after(page, refused, count as nat, per_page as nat),
{
    if refused || count < per_page {
        None
    } else {
        Some(page + 1)
    }
}

/// The number of the page to ask for after page `page`, where nothing but an empty page ends the
/// listing.
pub fn next_page_while_filled(page: u32, refused: bool, count: usize) -> (next: Option<u32>)
    requires
        page < u32::MAX,
    ensures
        next == (if refused || count == 0 {
            None
        } else {
            Some((page + 1) as u32)
        }),
{
    if refused || count == 0 {
        None
    } else {
        Some(page + 1)
    }
}

/// A page that came and was full is followed by the next one; a page that was refused or that was not full
/// is the last.
pub proof fn lemma_full_pages_are_followed(page: u32, refused: bool, count: nat, per_page: nat)
    requires
        page < u32::MAX,
    ensures
        !refused && count >= per_page ==> page_number_after(page, refused, count, per_page) is Some
            && page_number_after(page, refused, count, per_page)->0 == page + 1,
        refused || count < per_page ==> page_number_after(page, refused, count, per_page) is None,
{
}

} // verus!
