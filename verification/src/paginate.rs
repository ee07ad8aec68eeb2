//! Forward-only traversal of a chain of pages.
//!
//! A [`Paginator`] is the explicit state machine behind a traversal: it
//! holds the frontier (the URL of the next page to fetch) and consumes one
//! fetch outcome at a time.  On a fetched page it yields that page's items
//! and moves the frontier to the page's `next` link; on a fetch failure it
//! yields exactly one error and ends the traversal.  [`traverse`] drives a
//! paginator over a table of recorded responses and is proved to produce
//! exactly the traversal that the table and the starting URL determine.

use vstd::prelude::*;

use crate::error::{Error, ErrorModel};
use crate::page::{opt_view, Page, PageModel};

verus! {

/// The traversal state machine: the URL of the next page to fetch, or
/// nothing once the traversal has ended.
pub struct Paginator {
    frontier: Option<String>,
}

impl Paginator {
    /// The frontier: the URL the traversal will fetch next, or nothing if
    /// the traversal has ended.
    pub closed spec fn frontier_spec(&self) -> Option<Seq<char>> {
        opt_view(self.frontier)
    }

    /// Starts a traversal at `start`.  A traversal is never restartable:
    /// walking the same chain again takes a fresh paginator, which
    /// re-fetches every page.
    pub fn new(start: String) -> (p: Self)
        ensures
            p.frontier_spec() == Some(start@),
    {
        Paginator { frontier: Some(start) }
    }

    /// Whether the traversal has ended.
    pub fn is_done(&self) -> (r: bool)
        ensures
            r == (self.frontier_spec() is None),
    {
        self.frontier.is_none()
    }

    /// The URL to fetch next, if the traversal has not ended.
    pub fn next_url(&self) -> (r: Option<String>)
        ensures
            match r {
                Some(u) => self.frontier_spec() == Some(u@),
                None => self.frontier_spec() is None,
            },
    {
        match &self.frontier {
            Some(u) => Some(u.clone()),
            None => None,
        }
    }

    /// Consumes the outcome of fetching the frontier.  A fetched page
    /// yields its items in order and moves the frontier to the page's
    /// `next` link; absence of that link ends the traversal cleanly.  A
    /// failure yields exactly one error and ends the traversal; items
    /// yielded before it stand.
    pub fn advance<T>(&mut self, fetched: Result<Page<T>, Error>) -> (y: Vec<Result<T, Error>>)
        requires
            old(self).frontier_spec() is Some,
        ensures
            match fetched {
                Ok(p) => final(self).frontier_spec() == opt_view(p.next) && y@ == p.items@.map_values(
                    |t: T| Ok::<T, Error>(t),
                ),
                Err(e) => final(self).frontier_spec() is None && y@ == seq![Err::<T, Error>(e)],
            },
    {
        match fetched {
            Ok(p) => {
                let Page { items, current: _, next, prev: _, first: _, last: _ } = p;
                self.frontier = next;
                let mut items = items;
                let ghost items0 = items@;
                let n0 = items.len();
                let mut y: Vec<Result<T, Error>> = Vec::new();
                let mut i: usize = 0;
                while items.len() > 0
                    invariant
                        n0 == items0.len(),
                        i + items@.len() == items0.len(),
                        items@ == items0.skip(i as int),
                        y@ == items0.take(i as int).map_values(|t: T| Ok::<T, Error>(t)),
                    decreases items@.len(),
                {
                    let t = items.remove(0);
                    y.push(Ok(t));
                    proof {
                        assert(items@ =~= items0.skip(i + 1));
                        assert(items0.take(i + 1).map_values(|t: T| Ok::<T, Error>(t)) =~= items0
                            .take(i as int)
                            .map_values(|t: T| Ok::<T, Error>(t))
                            .push(Ok(items0[i as int])));
                    }
                    i += 1;
                }
                proof {
                    assert(items0.take(i as int) =~= items0);
                }
                y
            },
            Err(e) => {
                self.frontier = None;
                let mut y: Vec<Result<T, Error>> = Vec::new();
                y.push(Err(e));
                proof {
                    assert(y@ =~= seq![Err::<T, Error>(e)]);
                }
                y
            },
        }
    }
}

/// The view of one recorded response.
pub open spec fn response_view<T>(r: Result<Page<T>, Error>) -> Result<PageModel<T>, ErrorModel> {
    match r {
        Ok(p) => Ok(p@),
        Err(e) => Err(e@),
    }
}

/// The view of a table of recorded responses.
pub open spec fn table_view<T>(tab: Seq<(String, Result<Page<T>, Error>)>) -> Seq<
    (Seq<char>, Result<PageModel<T>, ErrorModel>),
> {
    tab.map_values(|e: (String, Result<Page<T>, Error>)| (e.0@, response_view(e.1)))
}

/// The view of a sequence of yielded results.
pub open spec fn results_view<T>(rs: Seq<Result<T, Error>>) -> Seq<Result<T, ErrorModel>> {
    rs.map_values(
        |r: Result<T, Error>|
            match r {
                Ok(t) => Ok::<T, ErrorModel>(t),
                Err(e) => Err::<T, ErrorModel>(e@),
            },
    )
}

/// The position of the first response recorded for `u`, or `-1`.
pub open spec fn lookup_at<T>(
    tab: Seq<(Seq<char>, Result<PageModel<T>, ErrorModel>)>,
    u: Seq<char>,
) -> int
    decreases tab.len(),
{
    if tab.len() == 0 {
        -1
    } else if tab[0].0 == u {
        0
    } else {
        let r = lookup_at(tab.skip(1), u);
        if r < 0 {
            -1
        } else {
            r + 1
        }
    }
}

/// The error reported when a traversal reaches a URL the table does not
/// record a response for.
pub open spec fn no_response_note() -> Seq<char> {
    "no recorded response for frontier URL"@
}

/// The sequence of results a traversal of `tab` from `frontier` yields:
/// each fetched page's items in order, page after page, and after a failed
/// fetch exactly one error and nothing more.  Every step consumes the
/// response it used, so re-walking a chain takes a fresh table.
pub open spec fn traversal<T>(
    tab: Seq<(Seq<char>, Result<PageModel<T>, ErrorModel>)>,
    frontier: Option<Seq<char>>,
) -> Seq<Result<T, ErrorModel>>
    decreases tab.len(),
    via traversal_dec::<T>
{
    match frontier {
        None => Seq::empty(),
        Some(u) => {
            let i = lookup_at(tab, u);
            if i < 0 {
                seq![Err(ErrorModel::RequestFailure { cause: no_response_note() })]
            } else {
                match tab[i].1 {
                    Err(e) => seq![Err(e)],
                    Ok(p) => p.items.map_values(|t: T| Ok::<T, ErrorModel>(t)) + traversal(
                        tab.remove(i),
                        p.next,
                    ),
                }
            }
        },
    }
}

#[via_fn]
proof fn traversal_dec<T>(
    tab: Seq<(Seq<char>, Result<PageModel<T>, ErrorModel>)>,
    frontier: Option<Seq<char>>,
) {
    if frontier is Some {
        lemma_lookup_bounds(tab, frontier->Some_0);
    }
}

/// `lookup_at` stays in the table's bounds and finds a matching URL.
pub proof fn lemma_lookup_bounds<T>(
    tab: Seq<(Seq<char>, Result<PageModel<T>, ErrorModel>)>,
    u: Seq<char>,
)
    ensures
        -1 <= lookup_at(tab, u) < tab.len(),
        lookup_at(tab, u) >= 0 ==> tab[lookup_at(tab, u)].0 == u,
    decreases tab.len(),
{
    if tab.len() > 0 && tab[0].0 != u {
        lemma_lookup_bounds(tab.skip(1), u);
    }
}

/// A match at `j` with no match before it is what `lookup_at` finds.
pub proof fn lemma_lookup_found<T>(
    tab: Seq<(Seq<char>, Result<PageModel<T>, ErrorModel>)>,
    u: Seq<char>,
    j: int,
)
    requires
        0 <= j < tab.len(),
        tab[j].0 == u,
        forall|k: int| 0 <= k < j ==> tab[k].0 != u,
    ensures
        lookup_at(tab, u) == j,
    decreases tab.len(),
{
    if j > 0 {
        lemma_lookup_found(tab.skip(1), u, j - 1);
    }
}

/// With no match anywhere, `lookup_at` finds nothing.
pub proof fn lemma_lookup_absent<T>(
    tab: Seq<(Seq<char>, Result<PageModel<T>, ErrorModel>)>,
    u: Seq<char>,
)
    requires
        forall|k: int| 0 <= k < tab.len() ==> tab[k].0 != u,
    ensures
        lookup_at(tab, u) == -1,
    decreases tab.len(),
{
    if tab.len() > 0 {
        lemma_lookup_absent(tab.skip(1), u);
    }
}

/// Walks a whole chain of pages against a table of recorded responses,
/// starting at `start`, and returns everything the traversal yields:
/// each page's items in order, and after a failed or unrecorded fetch
/// exactly one error.  The result is exactly the traversal the table and
/// the starting URL determine.
pub fn traverse<T>(plan: Vec<(String, Result<Page<T>, Error>)>, start: String) -> (out: Vec<
    Result<T, Error>,
>)
    ensures
        results_view(out@) == traversal(table_view(plan@), Some(start@)),
{
    let mut plan = plan;
    let mut pag = Paginator::new(start);
    let mut out: Vec<Result<T, Error>> = Vec::new();
    let ghost total = traversal(table_view(plan@), pag.frontier_spec());
    proof {
        assert(results_view(out@) =~= Seq::<Result<T, ErrorModel>>::empty());
    }
    while !pag.is_done()
        invariant
            results_view(out@) + traversal(table_view(plan@), pag.frontier_spec()) == total,
        decreases plan@.len() + (if pag.frontier_spec() is Some {
            1int
        } else {
            0int
        }),
    {
        let u = pag.next_url().unwrap();
        let ghost tab = table_view(plan@);
        let ghost out0 = out@;
        let mut j: usize = 0;
        let mut found = false;
        while j < plan.len() && !found
            invariant
                0 <= j <= plan@.len(),
                found ==> j < plan@.len() && plan@[j as int].0@ == u@,
                forall|k: int| 0 <= k < j ==> plan@[k].0@ != u@,
            decreases plan@.len() - j + (if found {
                0int
            } else {
                1int
            }),
        {
            if crate::links::str_eq(plan[j].0.as_str(), u.as_str()) {
                found = true;
            } else {
                j += 1;
            }
        }
        if found {
            proof {
                lemma_lookup_found(tab, u@, j as int);
            }
            let (_, res) = plan.remove(j);
            let ghost resv = res;
            proof {
                assert(table_view(plan@) =~= tab.remove(j as int));
            }
            let mut y = pag.advance(res);
            let ghost yv = y@;
            out.append(&mut y);
            proof {
                assert(tab[j as int].1 == response_view(resv));
                match resv {
                    Ok(p) => {
                        assert(results_view(yv) =~= p@.items.map_values(
                            |t: T| Ok::<T, ErrorModel>(t),
                        ));
                    },
                    Err(e) => {
                        assert(results_view(yv) =~= seq![Err::<T, ErrorModel>(e@)]);
                    },
                }
                assert(results_view(out@) =~= results_view(out0) + results_view(yv));
            }
        } else {
            proof {
                lemma_lookup_absent(tab, u@);
            }
            let cause = "no recorded response for frontier URL".to_owned();
            let mut y = pag.advance::<T>(Err(Error::RequestFailure { cause }));
            let ghost yv = y@;
            out.append(&mut y);
            proof {
                assert(results_view(yv) =~= seq![
                    Err::<T, ErrorModel>(ErrorModel::RequestFailure { cause: no_response_note() }),
                ]);
                assert(results_view(out@) =~= results_view(out0) + results_view(yv));
            }
        }
    }
    proof {
        assert(results_view(out@) + traversal(table_view(plan@), pag.frontier_spec())
            =~= results_view(out@));
    }
    out
}

/// Ending a traversal: once the frontier is gone nothing more is yielded.
pub proof fn lemma_traversal_end<T>(tab: Seq<(Seq<char>, Result<PageModel<T>, ErrorModel>)>)
    ensures
        traversal(tab, None) == Seq::<Result<T, ErrorModel>>::empty(),
{
}

/// One successful step: a fetched page contributes exactly its items, in
/// order, and the traversal continues at the page's `next` link with that
/// response consumed.
pub proof fn lemma_traversal_success<T>(
    tab: Seq<(Seq<char>, Result<PageModel<T>, ErrorModel>)>,
    u: Seq<char>,
    p: PageModel<T>,
)
    requires
        lookup_at(tab, u) >= 0,
        tab[lookup_at(tab, u)].1 == Ok::<PageModel<T>, ErrorModel>(p),
    ensures
        traversal(tab, Some(u)) == p.items.map_values(|t: T| Ok::<T, ErrorModel>(t)) + traversal(
            tab.remove(lookup_at(tab, u)),
            p.next,
        ),
{
}

/// Yield-then-stop: a failed fetch contributes exactly one error and the
/// traversal ends; nothing yielded before it is retracted.
pub proof fn lemma_traversal_failure<T>(
    tab: Seq<(Seq<char>, Result<PageModel<T>, ErrorModel>)>,
    u: Seq<char>,
    e: ErrorModel,
)
    requires
        lookup_at(tab, u) >= 0,
        tab[lookup_at(tab, u)].1 == Err::<PageModel<T>, ErrorModel>(e),
    ensures
        traversal(tab, Some(u)) == seq![Err::<T, ErrorModel>(e)],
{
}

/// The table that records exactly one successful response per chained
/// page, in chain order.
pub open spec fn chain_table<T>(us: Seq<Seq<char>>, ps: Seq<PageModel<T>>) -> Seq<
    (Seq<char>, Result<PageModel<T>, ErrorModel>),
>
    recommends
        us.len() == ps.len(),
{
    Seq::new(us.len(), |i: int| (us[i], Ok::<PageModel<T>, ErrorModel>(ps[i])))
}

/// A chain of pages at distinct URLs: each page's `next` link names the
/// URL after it, and the last page has none.
pub open spec fn linked_chain<T>(us: Seq<Seq<char>>, ps: Seq<PageModel<T>>) -> bool {
    &&& us.len() == ps.len()
    &&& us.len() > 0
    &&& (forall|i: int| 0 <= i < ps.len() - 1 ==> ps[i].next == Some(us[i + 1]))
    &&& ps[ps.len() - 1].next is None
    &&& (forall|i: int, j: int| 0 <= i < j < us.len() ==> us[i] != us[j])
}

/// All the chain's items in page-then-in-page order, each a success.
pub open spec fn chain_items<T>(ps: Seq<PageModel<T>>) -> Seq<Result<T, ErrorModel>>
    decreases ps.len(),
{
    if ps.len() == 0 {
        Seq::empty()
    } else {
        ps[0].items.map_values(|t: T| Ok::<T, ErrorModel>(t)) + chain_items(ps.skip(1))
    }
}

/// Multi-page traversal: walking a linked chain of pages from its first
/// URL yields exactly the pages' items, page after page and in page order,
/// every one a success, and then ends cleanly with nothing after them.
pub proof fn lemma_traversal_chain<T>(us: Seq<Seq<char>>, ps: Seq<PageModel<T>>)
    requires
        linked_chain(us, ps),
    ensures
        traversal(chain_table(us, ps), Some(us[0])) == chain_items(ps),
        forall|k: int| 0 <= k < chain_items(ps).len() ==> chain_items(ps)[k] is Ok,
    decreases ps.len(),
{
    let tab = chain_table(us, ps);
    assert(tab[0].0 == us[0]);
    assert(lookup_at(tab, us[0]) == 0);
    assert(tab[0].1 == Ok::<PageModel<T>, ErrorModel>(ps[0]));
    if ps.len() == 1 {
        assert(ps[0].next is None);
        assert(traversal(tab.remove(0), ps[0].next) =~= Seq::<Result<T, ErrorModel>>::empty());
        assert(chain_items(ps.skip(1)) =~= Seq::<Result<T, ErrorModel>>::empty());
    } else {
        assert(ps[0].next == Some(us[1]));
        assert(tab.remove(0) =~= chain_table(us.skip(1), ps.skip(1)));
        assert(linked_chain(us.skip(1), ps.skip(1)));
        assert(us.skip(1)[0] == us[1]);
        lemma_traversal_chain(us.skip(1), ps.skip(1));
    }
    assert forall|k: int| 0 <= k < chain_items(ps).len() implies chain_items(ps)[k] is Ok by {
        let head = ps[0].items.map_values(|t: T| Ok::<T, ErrorModel>(t));
        if k < head.len() {
            assert(chain_items(ps)[k] == head[k]);
        }
    }
}

/// Re-traversal is idempotent: the traversal is a function of the recorded
/// responses and the starting URL alone, so walking the same chain again
/// from the same start yields the same results; no state is carried over
/// from one traversal to the next.
pub proof fn lemma_traversal_deterministic<T>(
    tab: Seq<(Seq<char>, Result<PageModel<T>, ErrorModel>)>,
    start: Seq<char>,
    first_run: Seq<Result<T, ErrorModel>>,
    second_run: Seq<Result<T, ErrorModel>>,
)
    requires
        first_run == traversal(tab, Some(start)),
        second_run == traversal(tab, Some(start)),
    ensures
        first_run == second_run,
{
}

} // verus!
