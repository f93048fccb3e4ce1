//! Cursor-based pagination over a generated item sequence.
//!
//! The paginator keeps no state: a page is a pure function of the offset it
//! was asked for. The caller resumes by echoing back the returned cursor
//! and stops when a page carries none.

use vstd::prelude::*;
use crate::ids::new_uuid;

verus! {

/// Number of items on every page.
pub const PAGE_SIZE: usize = 50;

/// Total number of items the generated sequence exposes.
pub const BOUND: usize = 500;

/// A page of generated item identifiers together with the cursor for the
/// next page, or no cursor when the sequence is exhausted.
pub struct Page {
    pub ids: Vec<String>,
    pub next_offset: Option<usize>,
}

/// A full page of freshly generated item identifiers.
fn generate_ids() -> (ids: Vec<String>)
    ensures
        ids@.len() == PAGE_SIZE,
        forall|k: int| 0 <= k < ids@.len() ==> (#[trigger] ids@[k])@.len() == 36,
{
    let mut ids: Vec<String> = Vec::new();
    let mut i: usize = 0;
    while i < PAGE_SIZE
        invariant
            i <= PAGE_SIZE,
            ids@.len() == i,
            forall|k: int| 0 <= k < ids@.len() ==> (#[trigger] ids@[k])@.len() == 36,
        decreases PAGE_SIZE - i,
    {
        ids.push(new_uuid());
        i += 1;
    }
    ids
}

/// The page starting at `offset`: always exactly `PAGE_SIZE` items, and a
/// cursor to the next page exactly while the next page still starts below
/// `BOUND`. Callers never ask for an offset past the bound, since they stop
/// as soon as a page carries no cursor.
pub fn page_at(offset: usize) -> (page: Page)
    requires
        offset <= BOUND,
    ensures
        page.ids@.len() == PAGE_SIZE,
        forall|k: int| 0 <= k < page.ids@.len() ==> (#[trigger] page.ids@[k])@.len() == 36,
        page.next_offset == (if offset + PAGE_SIZE < BOUND {
            Some((offset + PAGE_SIZE) as usize)
        } else {
            None::<usize>
        }),
{
    let ids = generate_ids();
    let new_offset = offset + PAGE_SIZE;
    Page {
        ids,
        next_offset: if new_offset < BOUND {
            Some(new_offset)
        } else {
            None
        },
    }
}

/// The first page: the sequence starts at offset zero, and since the total
/// bound exceeds one page there is always a next page after it.
pub fn first_page() -> (page: Page)
    ensures
        page.ids@.len() == PAGE_SIZE,
        forall|k: int| 0 <= k < page.ids@.len() ==> (#[trigger] page.ids@[k])@.len() == 36,
        page.next_offset == Some(PAGE_SIZE),
{
    page_at(0)
}

/// How many pages a client fetches when it starts at `offset` and follows
/// every returned cursor until a page carries none.
pub open spec fn pages_from(offset: int) -> nat
    decreases BOUND - offset when 0 <= offset <= BOUND
{
    if offset + PAGE_SIZE < BOUND {
        1 + pages_from(offset + PAGE_SIZE)
    } else {
        1
    }
}

/// Following the cursors from the start visits exactly ten pages; the
/// tenth page, at offset 450, is the one without a cursor.
pub proof fn lemma_pagination_terminates()
    ensures
        pages_from(0) == 10,
{
    assert(pages_from(450) == 1);
    assert(pages_from(400) == 2);
    assert(pages_from(350) == 3);
    assert(pages_from(300) == 4);
    assert(pages_from(250) == 5);
    assert(pages_from(200) == 6);
    assert(pages_from(150) == 7);
    assert(pages_from(100) == 8);
    assert(pages_from(50) == 9);
    assert(pages_from(0) == 10);
}

} // verus!
