//! Walking a provider's paged listings, one page at a time, stopping early.
use vstd::prelude::*;

verus! {

/// One page of a listing: its records and how many pages the listing has.
pub struct Page<T> {
    pub data: Vec<T>,
    pub total_pages: u32,
}

/// A record that can be looked up by name.
pub trait Named {
    spec fn name_view(&self) -> Seq<char>;

    fn name(&self) -> (r: &String)
        ensures
            r@ == self.name_view(),
    ;
}

/// The first record of `items` named `name`.
pub open spec fn find_named<T: Named>(items: Seq<T>, name: Seq<char>) -> Option<T>
    decreases items.len(),
{
    if items.len() == 0 {
        None
    } else if items[0].name_view() == name {
        Some(items[0])
    } else {
        find_named(items.drop_first(), name)
    }
}

/// The first record named `name` over the pages of `listing`, in page order.
pub open spec fn find_in_listing<T: Named>(listing: Seq<Seq<T>>, name: Seq<char>) -> Option<T>
    decreases listing.len(),
{
    if listing.len() == 0 {
        None
    } else {
        match find_named(listing[0], name) {
            Some(x) => Some(x),
            None => find_in_listing(listing.drop_first(), name),
        }
    }
}

/// How many pages a lookup of `name` fetches: up to the first page holding
/// it, or all of them.
pub open spec fn fetches_for_find<T: Named>(listing: Seq<Seq<T>>, name: Seq<char>) -> nat
    decreases listing.len(),
{
    if listing.len() == 0 {
        0
    } else if find_named(listing[0], name) is Some || listing.len() == 1 {
        1
    } else {
        1 + fetches_for_find(listing.drop_first(), name)
    }
}

/// The records of `listing`, page after page.
pub open spec fn flatten<T>(listing: Seq<Seq<T>>) -> Seq<T>
    decreases listing.len(),
{
    if listing.len() == 0 {
        seq![]
    } else {
        flatten(listing.drop_last()) + listing.last()
    }
}

pub(crate) proof fn lemma_flatten_append<T>(a: Seq<Seq<T>>, b: Seq<Seq<T>>)
    ensures
        flatten(a + b) == flatten(a) + flatten(b),
    decreases b.len(),
{
    if b.len() == 0 {
        assert(a + b =~= a);
        assert(flatten(a) + flatten(b) =~= flatten(a));
    } else {
        lemma_flatten_append(a, b.drop_last());
        assert((a + b).drop_last() =~= a + b.drop_last());
        assert(flatten(a) + flatten(b) =~= flatten(a) + flatten(b.drop_last()) + b.last());
    }
}

pub(crate) proof fn lemma_flatten_split<T>(listing: Seq<Seq<T>>, k: int)
    requires
        0 <= k < listing.len(),
    ensures
        flatten(listing) == flatten(listing.take(k)) + listing[k] + flatten(listing.skip(k + 1)),
{
    let one = seq![listing[k]];
    assert(listing =~= listing.take(k) + one + listing.skip(k + 1));
    lemma_flatten_append(listing.take(k) + one, listing.skip(k + 1));
    lemma_flatten_append(listing.take(k), one);
    assert(one.drop_last() =~= Seq::<Seq<T>>::empty());
    assert(flatten(one.drop_last()) =~= Seq::<T>::empty());
    assert(one.last() == listing[k]);
    assert(flatten(one) =~= listing[k]);
}

/// `fetch` answers every page number of `listing` with that page, and reports
/// the listing's length as its page count.
pub open spec fn serves<T, F: Fn(u32) -> Option<Page<T>>>(fetch: F, listing: Seq<Seq<T>>) -> bool {
    forall|p: u32, r: Option<Page<T>>|
        1 <= p <= listing.len() && #[trigger] fetch.ensures((p,), r) ==> r is Some
            && r->Some_0.data@ == listing[p - 1] && r->Some_0.total_pages == listing.len()
}

proof fn lemma_find_named_at<T: Named>(items: Seq<T>, name: Seq<char>, i: int)
    requires
        0 <= i < items.len(),
        items[i].name_view() == name,
        forall|j: int| 0 <= j < i ==> items[j].name_view() != name,
    ensures
        find_named(items, name) == Some(items[i]),
    decreases i,
{
    if i > 0 {
        lemma_find_named_at(items.drop_first(), name, i - 1);
    }
}

proof fn lemma_find_named_none<T: Named>(items: Seq<T>, name: Seq<char>)
    requires
        forall|j: int| 0 <= j < items.len() ==> items[j].name_view() != name,
    ensures
        find_named(items, name) is None,
    decreases items.len(),
{
    if items.len() > 0 {
        lemma_find_named_none(items.drop_first(), name);
    }
}

/// Pages without a match before page `k + 1` change neither the result of a
/// lookup nor anything but the count of its fetches.
proof fn lemma_skip_pages<T: Named>(listing: Seq<Seq<T>>, name: Seq<char>, k: int)
    requires
        0 <= k < listing.len(),
        forall|i: int| 0 <= i < k ==> find_named(#[trigger] listing[i], name) is None,
    ensures
        find_in_listing(listing, name) == find_in_listing(listing.subrange(k, listing.len() as int), name),
        fetches_for_find(listing, name) == k + fetches_for_find(
            listing.subrange(k, listing.len() as int),
            name,
        ),
    decreases k,
{
    if k > 0 {
        let rest = listing.drop_first();
        assert forall|i: int| 0 <= i < k - 1 implies find_named(#[trigger] rest[i], name) is None by {
            assert(rest[i] == listing[i + 1]);
        }
        lemma_skip_pages(rest, name, k - 1);
        assert(rest.subrange(k - 1, rest.len() as int) =~= listing.subrange(k, listing.len() as int));
        assert(find_named(listing[0], name) is None);
    } else {
        assert(listing.subrange(0, listing.len() as int) =~= listing);
    }
}

/// Pages seen from a fetcher that serves `listing` are that listing's first
/// pages, and each one promised a further page.
pub(crate) proof fn lemma_seen_prefix<T, F: Fn(u32) -> Option<Page<T>>>(
    fetch: F,
    listing: Seq<Seq<T>>,
    seen: Seq<Page<T>>,
    k: int,
)
    requires
        listing.len() >= 1,
        serves(fetch, listing),
        0 <= k <= seen.len(),
        seen.len() < u32::MAX,
        forall|i: int|
            0 <= i < seen.len() ==> fetch.ensures(((i + 1) as u32,), Some(#[trigger] seen[i])),
        forall|i: int| 0 <= i < seen.len() ==> (#[trigger] seen[i]).total_pages > i + 1,
    ensures
        forall|i: int|
            0 <= i < k ==> listing[i] == (#[trigger] seen[i]).data@ && listing.len() > i + 1,
    decreases k,
{
    if k > 0 {
        lemma_seen_prefix(fetch, listing, seen, k - 1);
        let i = k - 1;
        let p = (i + 1) as u32;
        assert(p as int == i + 1);
        if i > 0 {
            assert(listing[i - 1] == seen[i - 1].data@);
            assert(listing.len() > (i - 1) + 1);
        }
        assert(1 <= p <= listing.len());
        assert(fetch.ensures((p,), Some(seen[i])));
        assert(seen[i].data@ == listing[p - 1]);
        assert(seen[i].total_pages == listing.len());
    }
}

/// A lookup over a listing whose first match sits on page `k + 1` returns that
/// page's first match and fetches no page after it.
pub proof fn lemma_found_on_page<T: Named>(listing: Seq<Seq<T>>, name: Seq<char>, k: int)
    requires
        0 <= k < listing.len(),
        find_named(listing[k], name) is Some,
        forall|i: int| 0 <= i < k ==> find_named(#[trigger] listing[i], name) is None,
    ensures
        find_in_listing(listing, name) == find_named(listing[k], name),
        fetches_for_find(listing, name) == k + 1,
{
    lemma_skip_pages(listing, name, k);
    let rest = listing.subrange(k, listing.len() as int);
    assert(rest[0] == listing[k]);
}

/// A lookup over a listing in which no page matches fetches every page once
/// and returns nothing.
pub proof fn lemma_exhausted_fetches_all<T: Named>(listing: Seq<Seq<T>>, name: Seq<char>)
    requires
        listing.len() >= 1,
        forall|i: int| 0 <= i < listing.len() ==> find_named(#[trigger] listing[i], name) is None,
    ensures
        find_in_listing(listing, name) is None,
        fetches_for_find(listing, name) == listing.len(),
{
    let k = listing.len() - 1;
    lemma_skip_pages(listing, name, k);
    let rest = listing.subrange(k, listing.len() as int);
    assert(rest[0] == listing[k]);
    assert(find_in_listing(rest.drop_first(), name) is None);
}

/// The index of the first record of `items` named `name`.
fn index_of_named<T: Named>(items: &Vec<T>, name: &String) -> (r: Option<usize>)
    ensures
        match r {
            Some(i) => i < items@.len() && items@[i as int].name_view() == name@ && forall|j: int|
                0 <= j < i ==> items@[j].name_view() != name@,
            None => forall|j: int| 0 <= j < items@.len() ==> items@[j].name_view() != name@,
        },
{
    let mut i: usize = 0;
    while i < items.len()
        invariant
            i <= items@.len(),
            forall|j: int| 0 <= j < i ==> items@[j].name_view() != name@,
        decreases items@.len() - i,
    {
        if *items[i].name() == *name {
            return Some(i);
        }
        i = i + 1;
    }
    None
}

/// Looks `name` up over the pages that `fetch` hands out, from page 1 on.
/// Stops at the first page that holds it, at the last page, or at the first
/// page that could not be fetched. Returns the record found and the number of
/// pages fetched.
pub fn find_on_pages<T: Named, F: Fn(u32) -> Option<Page<T>>>(fetch: &F, name: &str) -> (r: (
    Option<T>,
    u32,
))
    requires
        forall|p: u32| fetch.requires((p,)),
    ensures
        r.0 is Some ==> r.0->Some_0.name_view() == name@,
        1 <= r.1,
        forall|listing: Seq<Seq<T>>|
            listing.len() >= 1 && #[trigger] serves(*fetch, listing) ==> r.0 == find_in_listing(
                listing,
                name@,
            ) && r.1 == fetches_for_find(listing, name@),
{
    let target = name.to_owned();
    let mut page: u32 = 1;
    let ghost mut seen: Seq<Page<T>> = seq![];
    loop
        invariant
            forall|p: u32| fetch.requires((p,)),
            target@ == name@,
            page == seen.len() + 1,
            forall|i: int|
                0 <= i < seen.len() ==> fetch.ensures(((i + 1) as u32,), Some(#[trigger] seen[i])),
            forall|i: int| 0 <= i < seen.len() ==> (#[trigger] seen[i]).total_pages > i + 1,
            forall|i: int| 0 <= i < seen.len() ==> find_named((#[trigger] seen[i]).data@, name@) is None,
        decreases u32::MAX - page,
    {
        let fetched = fetch(page);
        proof {
            assert forall|listing: Seq<Seq<T>>|
                listing.len() >= 1 && #[trigger] serves(*fetch, listing) implies page <= listing.len()
                    && forall|i: int| 0 <= i < seen.len() ==> listing[i] == (#[trigger] seen[i]).data@ by {
                lemma_seen_prefix(*fetch, listing, seen, seen.len() as int);
                if seen.len() > 0 {
                    assert(listing[seen.len() - 1] == seen[seen.len() - 1].data@);
                    assert(listing.len() > seen.len() - 1 + 1);
                    assert(listing.len() > seen.len());
                }
            }
        }
        match fetched {
            None => {
                proof {
                    assert forall|listing: Seq<Seq<T>>|
                        listing.len() >= 1 && #[trigger] serves(*fetch, listing) implies false by {
                        assert(fetch.ensures((page,), fetched));
                    }
                }
                return (None, page);
            },
            Some(pg) => {
                let total = pg.total_pages;
                let found = index_of_named(&pg.data, &target);
                proof {
                    assert forall|listing: Seq<Seq<T>>|
                        listing.len() >= 1 && #[trigger] serves(*fetch, listing) implies listing[seen.len() as int]
                            == pg.data@ && total == listing.len() && find_in_listing(listing, name@)
                            == find_in_listing(listing.subrange(seen.len() as int, listing.len() as int), name@)
                            && fetches_for_find(listing, name@) == seen.len() + fetches_for_find(
                            listing.subrange(seen.len() as int, listing.len() as int),
                            name@,
                        ) by {
                        assert(fetch.ensures((page,), Some(pg)));
                        assert forall|i: int| 0 <= i < seen.len() implies find_named(
                            #[trigger] listing[i],
                            name@,
                        ) is None by {
                            assert(listing[i] == seen[i].data@);
                        }
                        lemma_skip_pages(listing, name@, seen.len() as int);
                    }
                }
                match found {
                    Some(i) => {
                        proof {
                            lemma_find_named_at(pg.data@, name@, i as int);
                        }
                        let mut data = pg.data;
                        let item = data.remove(i);
                        proof {
                            assert forall|listing: Seq<Seq<T>>|
                                listing.len() >= 1 && #[trigger] serves(*fetch, listing) implies (Some(
                                item,
                            ) == find_in_listing(listing, name@) && page == fetches_for_find(listing, name@)) by {
                                let rest = listing.subrange(seen.len() as int, listing.len() as int);
                                assert(rest[0] == pg.data@);
                            }
                        }
                        return (Some(item), page);
                    },
                    None => {
                        proof {
                            lemma_find_named_none(pg.data@, name@);
                        }
                        if total <= page {
                            proof {
                                assert forall|listing: Seq<Seq<T>>|
                                    listing.len() >= 1 && #[trigger] serves(*fetch, listing) implies (None::<T>
                                        == find_in_listing(listing, name@) && page == fetches_for_find(
                                        listing,
                                        name@,
                                    )) by {
                                    let rest = listing.subrange(seen.len() as int, listing.len() as int);
                                    assert(page <= listing.len());
                                    assert(total == listing.len());
                                    assert(rest.len() == 1);
                                    assert(rest[0] == pg.data@);
                                    assert(find_in_listing(rest.drop_first(), name@) is None);
                                }
                            }
                            return (None, page);
                        }
                        proof {
                            seen = seen.push(pg);
                            assert(seen[seen.len() - 1] == pg);
                        }
                        page = page + 1;
                    },
                }
            },
        }
    }
}

} // verus!
