//! Lists: a counted list for replies, and the collection of a list that an
//! upstream hands out page by page.

use vstd::prelude::*;
use vstd::std_specs::convert::FromSpecImpl;

verus! {

/// A list together with the number of its items.
#[derive(Debug)]
pub struct ListData<T> {
    pub count: usize,
    pub data: Vec<T>,
}

impl<T> ListData<T> {
    /// The list `data` with its length as the count.
    pub fn new(data: Vec<T>) -> (r: Self)
        ensures
            r.data == data,
            r.count == data@.len(),
    {
        Self { count: data.len(), data }
    }
}

impl<T> From<Vec<T>> for ListData<T> {
    fn from(data: Vec<T>) -> (r: Self)
        ensures
            r.data == data,
            r.count == data@.len(),
    {
        Self::new(data)
    }
}

impl<T> FromSpecImpl<Vec<T>> for ListData<T> {
    open spec fn obeys_from_spec() -> bool {
        true
    }

    open spec fn from_spec(data: Vec<T>) -> Self {
        ListData { count: data@.len() as usize, data }
    }
}

/// One page of a list, as an upstream returns it.
#[derive(Debug)]
pub struct Page<T> {
    pub items: Vec<T>,
    /// Where the next page starts; `None` on the last page.
    pub next_cursor: Option<String>,
}

/// A whole list, as it is answered downstream. `next_cursor` is always
/// absent.
#[derive(Debug)]
pub struct ListReply<T> {
    pub items: Vec<T>,
    pub next_cursor: Option<String>,
}

/// The items of `count` pages, one page after the other.
pub open spec fn joined<T>(pages: Seq<Page<T>>, count: int) -> Seq<T>
    decreases count,
{
    if count <= 0 {
        Seq::empty()
    } else {
        joined(pages, count - 1) + pages[count - 1].items@
    }
}

/// How many of `pages` are asked for: the pages up to the first one that
/// names no next page, and all of them where every page names one.
pub open spec fn asked<T>(pages: Seq<Page<T>>) -> int
    decreases pages.len(),
{
    if pages.len() == 0 {
        0
    } else if pages.first().next_cursor is None {
        1
    } else {
        1 + asked(pages.drop_first())
    }
}

/// Collects a paged list. Each page that the upstream returns is handed to
/// [`Collector::accept`], which says where to go on.
#[derive(Debug)]
pub struct Collector<T> {
    items: Vec<T>,
}

impl<T> Collector<T> {
    /// The items collected so far.
    pub closed spec fn items(&self) -> Seq<T> {
        self.items@
    }

    /// A collector that holds nothing yet.
    pub fn new() -> (r: Self)
        ensures
            r.items() == Seq::<T>::empty(),
    {
        Collector { items: Vec::new() }
    }

    /// Takes the items of `page` after those that are already there, and
    /// returns the cursor of the page to ask for next: `None` when the list is
    /// complete.
    pub fn accept(&mut self, page: Page<T>) -> (next: Option<String>)
        ensures
            final(self).items() == old(self).items() + page.items@,
            next == page.next_cursor,
    {
        let mut page = page;
        self.items.append(&mut page.items);
        page.next_cursor
    }

    /// The reply that holds everything collected, without a cursor.
    pub fn finish(self) -> (r: ListReply<T>)
        ensures
            r.items@ == self.items(),
            r.next_cursor is None,
    {
        ListReply { items: self.items, next_cursor: None }
    }
}

/// Collects the list that an upstream hands out as `pages`: the pages are
/// taken in order for as long as each names a next one.
pub fn collect_all<T>(pages: Vec<Page<T>>) -> (r: ListReply<T>)
    ensures
        r.items@ == joined(pages@, asked(pages@)),
        r.next_cursor is None,
{
    let ghost all = pages@;
    let total = pages.len();
    let mut waiting = pages;
    let mut collector: Collector<T> = Collector::new();
    let mut taken: usize = 0;
    proof {
        assert(all.skip(0) =~= all);
    }
    while waiting.len() > 0
        invariant
            all == pages@,
            total == all.len(),
            taken + waiting.len() == total,
            waiting@ == all.skip(taken as int),
            collector.items() == joined(all, taken as int),
            asked(all) == taken + asked(waiting@),
        decreases waiting.len(),
    {
        let ghost rest = waiting@;
        let page = waiting.remove(0);
        proof {
            assert(waiting@ =~= rest.drop_first());
            assert(rest.drop_first() =~= all.skip(taken + 1));
            assert(page == rest.first());
            assert(page == all[taken as int]);
        }
        let next = collector.accept(page);
        taken += 1;
        if next.is_none() {
            proof {
                assert(asked(rest) == 1);
            }
            return collector.finish();
        }
        proof {
            assert(asked(rest) == 1 + asked(rest.drop_first()));
        }
    }
    proof {
        assert(asked(waiting@) == 0);
    }
    collector.finish()
}

/// Where every page but the last names a next page and the last names none,
/// all pages are asked for, so the reply holds the items of all of them in
/// order.
pub proof fn law_list_aggregation<T>(pages: Seq<Page<T>>)
    requires
        pages.len() > 0,
        forall|i: int| 0 <= i < pages.len() - 1 ==> pages[i].next_cursor is Some,
        pages.last().next_cursor is None,
    ensures
        asked(pages) == pages.len(),
        joined(pages, asked(pages)) == joined(pages, pages.len() as int),
    decreases pages.len(),
{
    if pages.len() > 1 {
        let rest = pages.drop_first();
        assert forall|i: int| 0 <= i < rest.len() - 1 implies rest[i].next_cursor is Some by {
            assert(rest[i] == pages[i + 1]);
        }
        assert(rest.last() == pages.last());
        law_list_aggregation(rest);
    }
}

} // verus!
