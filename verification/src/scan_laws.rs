//! The laws of the scanning engine: what holds of every step, and what a
//! whole scan comes to, page after page.

use crate::codec::Json;
use crate::scan::{
    lemma_parsed_values_bounded, lemma_parsed_values_concat, parsed_values, start_cursor,
    ScanEventView, ScanView,
};
use vstd::prelude::*;

verus! {

impl<T> ScanView<T> {
    /// The scan after each of `events` in turn.
    pub open spec fn run(self, events: Seq<ScanEventView<T>>) -> ScanView<T>
        decreases events.len(),
    {
        if events.len() == 0 {
            self
        } else {
            self.run(events.drop_last()).step(events.last())
        }
    }
}

/// All the records that the store answered with in `events`, in their order.
pub open spec fn answered<T>(events: Seq<ScanEventView<T>>) -> Seq<Option<Json<T>>>
    decreases events.len(),
{
    if events.len() == 0 {
        Seq::empty()
    } else {
        let earlier = answered(events.drop_last());
        match events.last() {
            ScanEventView::Values { records } => earlier + records,
            _ => earlier,
        }
    }
}

/// Every step keeps a scan well formed: never more results than records
/// retrieved, and nothing left of a scan that was given up.
pub proof fn lemma_step_keeps_well_formed<T>(scan: ScanView<T>, event: ScanEventView<T>)
    requires
        scan.well_formed(),
    ensures
        scan.step(event).well_formed(),
        scan.step(event).results.len() <= scan.step(event).retrieved,
{
    if let ScanEventView::Values { records } = event {
        lemma_parsed_values_bounded(records);
    }
}

/// A pattern that matches no key gives an empty result and no error: a
/// fresh scan whose first page holds no keys and ends the enumeration is
/// finished, with no results.
pub proof fn lemma_scan_of_no_keys<T>(pattern: Seq<char>, page_size: u32, limit: Option<usize>)
    ensures
        ({
            let scan = ScanView::<T>::fresh(pattern, page_size, limit);
            let event = ScanEventView::<T>::Page { next_cursor: start_cursor(), keys: Seq::empty() };
            &&& scan.step(event).phase is Finished
            &&& scan.step(event).results == Seq::<T>::empty()
            &&& scan.asks(event) is None
        }),
{
}

/// The limit ends a scan: after any step, a scan asks for a further page
/// only while fewer records than the limit have been retrieved, and only
/// where the store has more to enumerate.
pub proof fn lemma_limit_ends_scan<T>(scan: ScanView<T>, event: ScanEventView<T>)
    requires
        scan.running(),
    ensures
        scan.step(event).phase is AwaitingPage ==> {
            &&& !scan.step(event).limit_reached()
            &&& scan.step(event).cursor != start_cursor()
        },
{
}

/// A failure of the store leaves nothing: whatever a running scan had
/// gathered, after the failure it is given up without results, and no
/// later event brings it back.
pub proof fn lemma_failure_leaves_nothing<T>(scan: ScanView<T>, later: Seq<ScanEventView<T>>)
    requires
        scan.running(),
    ensures
        scan.step(ScanEventView::StoreFailed).phase is Aborted,
        scan.step(ScanEventView::StoreFailed).results == Seq::<T>::empty(),
        scan.asks(ScanEventView::StoreFailed) is None,
        scan.step(ScanEventView::StoreFailed).run(later) == scan.step(ScanEventView::StoreFailed),
    decreases later.len(),
{
    if later.len() > 0 {
        lemma_failure_leaves_nothing(scan, later.drop_last());
    }
}

/// What a scan gathers: as long as the store answers in turn and does not
/// fail, the scan has counted every record answered, present or not, and
/// its results are the values of those that were present and parsed, in the
/// order of the answers.
pub proof fn lemma_run_gathers<T>(scan: ScanView<T>, events: Seq<ScanEventView<T>>)
    requires
        events.len() > 0 ==> scan.run(events.drop_last()).running(),
        !(scan.run(events).phase is Aborted),
    ensures
        scan.run(events).retrieved == scan.retrieved + answered(events).len(),
        scan.run(events).results == scan.results + parsed_values(answered(events)),
        scan.run(events).results.len() <= scan.results.len() + answered(events).len(),
    decreases events.len(),
{
    if events.len() == 0 {
        assert(scan.results + parsed_values(answered(events)) =~= scan.results);
    } else {
        let earlier = events.drop_last();
        let before = scan.run(earlier);
        if earlier.len() > 0 {
            let first = scan.run(earlier.drop_last());
            assert(before == first.step(earlier.last()));
            assert(first.running());
        }
        lemma_run_gathers(scan, earlier);
        match events.last() {
            ScanEventView::Values { records } => {
                lemma_parsed_values_concat(answered(earlier), records);
                assert(scan.results + (parsed_values(answered(earlier)) + parsed_values(records))
                    =~= scan.results + parsed_values(answered(earlier)) + parsed_values(records));
            },
            _ => {},
        }
        lemma_parsed_values_bounded(answered(events));
    }
}

/// One page as a store serves it: the cursor that comes with it, its keys,
/// and the records that a multi-get of those keys is answered with.
pub struct PageView<T> {
    pub next_cursor: Seq<char>,
    pub keys: Seq<Seq<char>>,
    pub records: Seq<Option<Json<T>>>,
}

impl<T> PageView<T> {
    /// What a scan is told while this page is served: the page, and the
    /// records of its keys where it has any.
    pub open spec fn events(self) -> Seq<ScanEventView<T>> {
        let page = ScanEventView::Page { next_cursor: self.next_cursor, keys: self.keys };
        if self.keys.len() == 0 {
            seq![page]
        } else {
            seq![page, ScanEventView::Values { records: self.records }]
        }
    }

    /// The records that the store answers with for this page: none where
    /// the page has no keys, since nothing is asked then.
    pub open spec fn answers(self) -> Seq<Option<Json<T>>> {
        if self.keys.len() == 0 {
            Seq::empty()
        } else {
            self.records
        }
    }
}

/// What a scan is told while `pages` are served one after the other.
pub open spec fn events_of<T>(pages: Seq<PageView<T>>) -> Seq<ScanEventView<T>>
    decreases pages.len(),
{
    if pages.len() == 0 {
        Seq::empty()
    } else {
        events_of(pages.drop_last()) + pages.last().events()
    }
}

/// All the records that the store answers with while `pages` are served.
pub open spec fn answers_of<T>(pages: Seq<PageView<T>>) -> Seq<Option<Json<T>>>
    decreases pages.len(),
{
    if pages.len() == 0 {
        Seq::empty()
    } else {
        answers_of(pages.drop_last()) + pages.last().answers()
    }
}

/// The page at `index` is the last that a scan with `limit` asks for: with
/// it the limit is reached, or the store is exhausted.
pub open spec fn ends_scan<T>(limit: Option<usize>, pages: Seq<PageView<T>>, index: int) -> bool {
    ||| limit matches Some(most) && answers_of(pages.take(index + 1)).len() >= most
    ||| pages[index].next_cursor == start_cursor()
}

/// Running through two runs of events is running through the first, then
/// through the second.
pub proof fn lemma_run_concat<T>(
    scan: ScanView<T>,
    first: Seq<ScanEventView<T>>,
    second: Seq<ScanEventView<T>>,
)
    ensures
        scan.run(first + second) == scan.run(first).run(second),
    decreases second.len(),
{
    if second.len() == 0 {
        assert(first + second =~= first);
    } else {
        lemma_run_concat(scan, first, second.drop_last());
        assert((first + second).drop_last() =~= first + second.drop_last());
        assert((first + second).last() == second.last());
    }
}

/// What serving one page does to a scan that waits for it.
proof fn lemma_page_served<T>(scan: ScanView<T>, page: PageView<T>)
    requires
        scan.phase is AwaitingPage,
    ensures
        scan.run(page.events()) == (ScanView {
            retrieved: scan.retrieved + page.answers().len(),
            results: scan.results + parsed_values(page.answers()),
            ..scan
        }).settle(page.next_cursor),
{
    let events = page.events();
    let told = ScanEventView::Page { next_cursor: page.next_cursor, keys: page.keys };
    if page.keys.len() == 0 {
        assert(events.drop_last() =~= Seq::empty());
        assert(scan.run(events.drop_last()) == scan);
        assert(scan.results + parsed_values(page.answers()) =~= scan.results);
    } else {
        assert(events.drop_last() =~= seq![told]);
        assert(seq![told].drop_last() =~= Seq::empty());
        assert(scan.run(seq![told]) == scan.run(Seq::empty()).step(told));
        assert(scan.run(Seq::empty()) == scan);
    }
}

/// While no page ends the scan, the scan has gathered all that was answered
/// and waits for the next page.
proof fn lemma_pages_served<T>(
    pattern: Seq<char>,
    page_size: u32,
    limit: Option<usize>,
    pages: Seq<PageView<T>>,
    count: int,
)
    requires
        0 <= count <= pages.len(),
        forall|i: int| 0 <= i < count ==> !ends_scan(limit, pages, i),
    ensures
        ({
            let scan = ScanView::<T>::fresh(pattern, page_size, limit).run(
                events_of(pages.take(count)),
            );
            &&& scan.phase is AwaitingPage
            &&& scan.pattern == pattern
            &&& scan.page_size == page_size
            &&& scan.limit == limit
            &&& scan.retrieved == answers_of(pages.take(count)).len()
            &&& scan.results == parsed_values(answers_of(pages.take(count)))
        }),
    decreases count,
{
    let fresh = ScanView::<T>::fresh(pattern, page_size, limit);
    if count == 0 {
        assert(pages.take(0) =~= Seq::empty());
        assert(fresh.results =~= parsed_values(answers_of(pages.take(0))));
    } else {
        lemma_pages_served(pattern, page_size, limit, pages, count - 1);
        lemma_next_page(fresh, pages, count - 1);
        assert(!ends_scan(limit, pages, count - 1));
    }
}

/// Serving the page at `index` to a scan that has been served those before
/// it.
proof fn lemma_next_page<T>(fresh: ScanView<T>, pages: Seq<PageView<T>>, index: int)
    requires
        0 <= index < pages.len(),
        fresh.run(events_of(pages.take(index))).phase is AwaitingPage,
        fresh.run(events_of(pages.take(index))).retrieved == answers_of(pages.take(index)).len(),
        fresh.run(events_of(pages.take(index))).results == parsed_values(
            answers_of(pages.take(index)),
        ),
    ensures
        ({
            let before = fresh.run(events_of(pages.take(index)));
            fresh.run(events_of(pages.take(index + 1))) == (ScanView {
                retrieved: answers_of(pages.take(index + 1)).len(),
                results: parsed_values(answers_of(pages.take(index + 1))),
                ..before
            }).settle(pages[index].next_cursor)
        }),
{
    let earlier = pages.take(index);
    let longer = pages.take(index + 1);
    let page = pages[index];
    let before = fresh.run(events_of(earlier));
    assert(longer.drop_last() =~= earlier);
    assert(longer.last() == page);
    lemma_run_concat(fresh, events_of(earlier), page.events());
    lemma_page_served(before, page);
    lemma_parsed_values_concat(answers_of(earlier), page.answers());
}

/// What a scan comes to. Let a store serve `pages`, of which the last is
/// the first to end the scan: with it the limit is reached or the store is
/// exhausted. Then the scan finishes with that page; it has counted every
/// record answered, and its results are the values of the records that were
/// present and parsed, in the order of the answers. How the keys fall into
/// pages plays no part.
pub proof fn lemma_scan_over_pages<T>(
    pattern: Seq<char>,
    page_size: u32,
    limit: Option<usize>,
    pages: Seq<PageView<T>>,
)
    requires
        pages.len() > 0,
        forall|i: int| 0 <= i < pages.len() - 1 ==> !ends_scan(limit, pages, i),
        ends_scan(limit, pages, pages.len() - 1),
    ensures
        ({
            let scan = ScanView::<T>::fresh(pattern, page_size, limit).run(events_of(pages));
            &&& scan.phase is Finished
            &&& scan.retrieved == answers_of(pages).len()
            &&& scan.results == parsed_values(answers_of(pages))
            &&& scan.results.len() <= answers_of(pages).len()
        }),
{
    let fresh = ScanView::<T>::fresh(pattern, page_size, limit);
    let last = pages.len() - 1;
    lemma_pages_served(pattern, page_size, limit, pages, last);
    lemma_next_page(fresh, pages, last);
    assert(pages.take(last + 1) =~= pages);
    lemma_parsed_values_bounded(answers_of(pages));
}

/// The chunk size changes nothing of what an unbounded scan gathers: two
/// ways of serving the same records in pages, each to the store's end, give
/// the same results.
pub proof fn lemma_paging_plays_no_part<T>(
    pattern: Seq<char>,
    page_size: u32,
    other_page_size: u32,
    pages: Seq<PageView<T>>,
    other_pages: Seq<PageView<T>>,
)
    requires
        pages.len() > 0,
        other_pages.len() > 0,
        forall|i: int| 0 <= i < pages.len() - 1 ==> pages[i].next_cursor != start_cursor(),
        forall|i: int|
            0 <= i < other_pages.len() - 1 ==> other_pages[i].next_cursor != start_cursor(),
        pages.last().next_cursor == start_cursor(),
        other_pages.last().next_cursor == start_cursor(),
        answers_of(pages) == answers_of(other_pages),
    ensures
        ScanView::<T>::fresh(pattern, page_size, None).run(events_of(pages)).results
            == ScanView::<T>::fresh(pattern, other_page_size, None).run(
            events_of(other_pages),
        ).results,
{
    lemma_scan_over_pages(pattern, page_size, None, pages);
    lemma_scan_over_pages(pattern, other_page_size, None, other_pages);
}

} // verus!
