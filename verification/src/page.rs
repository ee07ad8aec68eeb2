//! One fetched page of a paged collection, and its assembly from a response.

use vstd::prelude::*;

use crate::error::Error;
use crate::links::{parse_links, parsed_links, rel_map, EntryModel};

verus! {

/// One page of items together with its navigation links.
///
/// `items` holds exactly one response body's items in server order.  The
/// link fields come from the same response's `Link` header alone: absent
/// `next` means this is the last page, absent `prev` the first; `current`
/// and `first` fall back to the resolved request URL when the header does
/// not name them.
pub struct Page<T> {
    pub items: Vec<T>,
    pub current: String,
    pub next: Option<String>,
    pub prev: Option<String>,
    pub first: String,
    pub last: Option<String>,
}

/// The mathematical shape of a [`Page`].
#[verifier::ext_equal]
pub struct PageModel<T> {
    pub items: Seq<T>,
    pub current: Seq<char>,
    pub next: Option<Seq<char>>,
    pub prev: Option<Seq<char>>,
    pub first: Seq<char>,
    pub last: Option<Seq<char>>,
}

/// The view of an optional URL.
pub open spec fn opt_view(o: Option<String>) -> Option<Seq<char>> {
    match o {
        Some(s) => Some(s@),
        None => None,
    }
}

impl<T> View for Page<T> {
    type V = PageModel<T>;

    open spec fn view(&self) -> PageModel<T> {
        PageModel {
            items: self.items@,
            current: self.current@,
            next: opt_view(self.next),
            prev: opt_view(self.prev),
            first: self.first@,
            last: opt_view(self.last),
        }
    }
}

impl<T> Page<T> {
    /// All items of this one page, in server order.
    pub fn all(self) -> (r: Vec<T>)
        ensures
            r == self.items,
    {
        self.items
    }
}

/// The page assembled from one response's items, its parsed `Link` header
/// entries, and the resolved request URL.
pub open spec fn assembled<T>(items: Seq<T>, es: Seq<EntryModel>, u: Seq<char>) -> PageModel<T> {
    PageModel {
        items,
        current: if rel_map(es).contains_key("current"@) {
            rel_map(es)["current"@]
        } else {
            u
        },
        next: if rel_map(es).contains_key("next"@) {
            Some(rel_map(es)["next"@])
        } else {
            None
        },
        prev: if rel_map(es).contains_key("prev"@) {
            Some(rel_map(es)["prev"@])
        } else {
            None
        },
        first: if rel_map(es).contains_key("first"@) {
            rel_map(es)["first"@]
        } else {
            u
        },
        last: if rel_map(es).contains_key("last"@) {
            Some(rel_map(es)["last"@])
        } else {
            None
        },
    }
}

/// Assembles one page from a response: the decoded items, the raw `Link`
/// header value if the response carried one, and the resolved request URL.
///
/// A missing `Link` header is not an error: the page then has no `next`,
/// `prev` or `last`, and `current` and `first` fall back to the request
/// URL.  A malformed header makes the whole response unusable.
pub fn assemble_page<T>(items: Vec<T>, link_header: Option<&str>, request_url: &str) -> (r: Result<
    Page<T>,
    Error,
>)
    ensures
        match link_header {
            None => r matches Ok(p) && p@ == assembled(items@, Seq::empty(), request_url@),
            Some(h) => match parsed_links(h@) {
                Some(es) => r matches Ok(p) && p@ == assembled(items@, es, request_url@),
                None => r matches Err(e) && e == Error::MalformedLinkHeader,
            },
        },
{
    match link_header {
        None => {
            let p = Page {
                items,
                current: request_url.to_owned(),
                next: None,
                prev: None,
                first: request_url.to_owned(),
                last: None,
            };
            proof {
                lemma_rel_map_empty();
                assert(p@ =~= assembled(p@.items, Seq::<EntryModel>::empty(), request_url@));
            }
            Ok(p)
        },
        Some(h) => match parse_links(h) {
            Err(e) => Err(e),
            Ok(l) => {
                let current = match l.get("current") {
                    Some(u) => u.clone(),
                    None => request_url.to_owned(),
                };
                let next = match l.get("next") {
                    Some(u) => Some(u.clone()),
                    None => None,
                };
                let prev = match l.get("prev") {
                    Some(u) => Some(u.clone()),
                    None => None,
                };
                let first = match l.get("first") {
                    Some(u) => u.clone(),
                    None => request_url.to_owned(),
                };
                let last = match l.get("last") {
                    Some(u) => Some(u.clone()),
                    None => None,
                };
                let p = Page { items, current, next, prev, first, last };
                proof {
                    assert(p@ =~= assembled(p@.items, l@, request_url@));
                }
                Ok(p)
            },
        },
    }
}

/// Assembles one page as [`assemble_page`] does, but under the strict
/// policy: a response without a `Link` header is rejected.
pub fn assemble_page_strict<T>(items: Vec<T>, link_header: Option<&str>, request_url: &str) -> (r:
    Result<Page<T>, Error>)
    ensures
        match link_header {
            None => r matches Err(e) && e == Error::MissingLinkHeader,
            Some(h) => match parsed_links(h@) {
                Some(es) => r matches Ok(p) && p@ == assembled(items@, es, request_url@),
                None => r matches Err(e) && e == Error::MalformedLinkHeader,
            },
        },
{
    match link_header {
        None => Err(Error::MissingLinkHeader),
        Some(h) => assemble_page(items, Some(h), request_url),
    }
}

/// No entries give an empty relation map.
proof fn lemma_rel_map_empty()
    ensures
        forall|r: Seq<char>| !rel_map(Seq::<EntryModel>::empty()).contains_key(r),
{
}

} // verus!
