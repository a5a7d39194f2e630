//! Pagination envelopes around a page of items.

use vstd::prelude::*;

verus! {

/// A page chosen by limit and offset, with the count of all matching items.
#[derive(Debug)]
pub struct LimitOffsetPagination<T> {
    pub total: usize,
    pub items: Vec<T>,
}

/// A page chosen by page number, with the count of all matching items.
#[derive(Debug)]
pub struct PageNumberPagination<T> {
    pub total: usize,
    pub items: Vec<T>,
}

/// A page of a forward-only listing, with the cursor that continues it.
#[derive(Debug)]
pub struct CursorPagination<T> {
    pub items: Vec<T>,
    pub cursor: String,
}

} // verus!
