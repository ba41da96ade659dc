//! The scanning engine: a walk over the keys that match a pattern, one page
//! at a time, that gathers the records that parse and skips those that do
//! not.
//!
//! The engine works no store. [`Scan::start`] hands out the first request;
//! the caller performs it and tells the scan what came back with
//! [`Scan::advance`], which answers with the next request, until there is
//! none.

use crate::codec::Json;
use crate::store::{texts, view_of, Request, RequestView};
use vstd::prelude::*;
use vstd::string::StringExecFns;

verus! {

/// The cursor with which an enumeration starts, and with which a store says
/// that it is exhausted.
pub open spec fn start_cursor() -> Seq<char> {
    seq!['0']
}

/// The page size asked for where the caller names none.
pub const DEFAULT_CHUNK_SIZE: usize = 100;

/// How a scan pages and when it stops.
#[derive(Debug, Clone, Copy)]
pub struct ScanOptions {
    /// How many keys to ask for in one page. A store takes a page size of
    /// 32 bits: of a larger chunk size the low 32 bits count. A chunk size
    /// that leaves a page size of zero is refused when the scan starts.
    pub chunk_size: usize,
    /// The number of retrieved records at which the scan stops; `None`
    /// leaves it unbounded.
    pub limit: Option<usize>,
}

impl ScanOptions {
    /// The options that a caller states: a chunk size, or the default
    /// where none is named, and a limit, or none.
    pub fn new(chunk_size: Option<usize>, limit: Option<usize>) -> (options: ScanOptions)
        ensures
            options.chunk_size == match chunk_size {
                Some(size) => size,
                None => DEFAULT_CHUNK_SIZE,
            },
            options.limit == limit,
    {
        let chunk_size = match chunk_size {
            Some(size) => size,
            None => DEFAULT_CHUNK_SIZE,
        };
        ScanOptions { chunk_size, limit }
    }
}

impl Default for ScanOptions {
    /// Pages of the default size, and no limit.
    fn default() -> (options: ScanOptions)
        ensures
            options.chunk_size == DEFAULT_CHUNK_SIZE,
            options.limit is None,
    {
        ScanOptions { chunk_size: DEFAULT_CHUNK_SIZE, limit: None }
    }
}

/// Where a scan stands.
#[derive(Debug, Clone, Copy, PartialEq, Eq, Structural)]
pub enum ScanPhase {
    /// A page of keys has been asked for.
    AwaitingPage,
    /// The records of a page have been asked for.
    AwaitingValues,
    /// The scan is over and its results stand.
    Finished,
    /// The scan was given up; it has no results.
    Aborted,
}

/// Why a scan gives no results.
#[derive(Debug, Clone, Copy, PartialEq, Eq, Structural)]
pub enum ScanError {
    /// The chunk size asks for pages of no keys.
    InvalidChunkSize,
    /// The store failed, or answered out of turn.
    Aborted,
    /// The scan is still waiting for an answer.
    Unfinished,
}

impl ScanError {
    /// What the error says, in words.
    pub open spec fn message(self) -> Seq<char> {
        match self {
            ScanError::InvalidChunkSize => "the chunk size of a scan stands for pages of no keys"@,
            ScanError::Aborted => "the scan was given up: the store failed or answered out of turn"@,
            ScanError::Unfinished => "the scan still waits for an answer of the store"@,
        }
    }

    /// The error as one line of text.
    pub fn to_string(&self) -> (text: String)
        ensures
            text@ == self.message(),
    {
        match self {
            ScanError::InvalidChunkSize => String::from_str(
                "the chunk size of a scan stands for pages of no keys",
            ),
            ScanError::Aborted => String::from_str(
                "the scan was given up: the store failed or answered out of turn",
            ),
            ScanError::Unfinished => String::from_str(
                "the scan still waits for an answer of the store",
            ),
        }
    }
}

/// What the store answered, or that it did not.
pub enum ScanEvent<T> {
    /// The answer to `EnumeratePage`.
    Page { next_cursor: String, keys: Vec<String> },
    /// The answer to `MultiGet`: for each key in turn nothing, or what the
    /// codec made of its record.
    Values { records: Vec<Option<Json<T>>> },
    /// The request failed in transport.
    StoreFailed,
}

/// An event as plain text and values.
pub enum ScanEventView<T> {
    Page { next_cursor: Seq<char>, keys: Seq<Seq<char>> },
    Values { records: Seq<Option<Json<T>>> },
    StoreFailed,
}

impl<T> View for ScanEvent<T> {
    type V = ScanEventView<T>;

    open spec fn view(&self) -> ScanEventView<T> {
        match *self {
            ScanEvent::Page { next_cursor, keys } => ScanEventView::Page {
                next_cursor: next_cursor@,
                keys: texts(keys@),
            },
            ScanEvent::Values { records } => ScanEventView::Values { records: records@ },
            ScanEvent::StoreFailed => ScanEventView::StoreFailed,
        }
    }
}

/// The values of the records that are present and parsed, in their order.
pub open spec fn parsed_values<T>(records: Seq<Option<Json<T>>>) -> Seq<T>
    decreases records.len(),
{
    if records.len() == 0 {
        Seq::empty()
    } else {
        let earlier = parsed_values(records.drop_last());
        match records.last() {
            Some(Ok(value)) => earlier.push(value),
            _ => earlier,
        }
    }
}

/// The page size that a chunk size stands for: its low 32 bits.
pub open spec fn page_size_of(chunk_size: usize) -> u32 {
    (chunk_size as int % 0x1_0000_0000) as u32
}

/// A scan as mathematics.
pub struct ScanView<T> {
    pub pattern: Seq<char>,
    pub page_size: u32,
    pub limit: Option<usize>,
    /// The cursor last asked with, or last answered.
    pub cursor: Seq<char>,
    /// How many records the store has answered with, present or not.
    pub retrieved: nat,
    pub phase: ScanPhase,
    pub results: Seq<T>,
}

impl<T> ScanView<T> {
    /// A scan that has asked for its first page.
    pub open spec fn fresh(pattern: Seq<char>, page_size: u32, limit: Option<usize>) -> ScanView<
        T,
    > {
        ScanView {
            pattern,
            page_size,
            limit,
            cursor: start_cursor(),
            retrieved: 0,
            phase: ScanPhase::AwaitingPage,
            results: Seq::empty(),
        }
    }

    /// As many records as the limit allows have been retrieved.
    pub open spec fn limit_reached(self) -> bool {
        self.limit matches Some(limit) && self.retrieved >= limit
    }

    /// The scan waits for an answer.
    pub open spec fn running(self) -> bool {
        self.phase is AwaitingPage || self.phase is AwaitingValues
    }

    /// The scan once a page is dealt with: over where the limit is reached
    /// or the store is exhausted, else asking on from `next_cursor`.
    pub open spec fn settle(self, next_cursor: Seq<char>) -> ScanView<T> {
        if self.limit_reached() || next_cursor == start_cursor() {
            ScanView { phase: ScanPhase::Finished, cursor: next_cursor, ..self }
        } else {
            ScanView { phase: ScanPhase::AwaitingPage, cursor: next_cursor, ..self }
        }
    }

    /// The scan given up: nothing of what it gathered is kept.
    pub open spec fn abort(self) -> ScanView<T> {
        ScanView { phase: ScanPhase::Aborted, results: Seq::empty(), ..self }
    }

    /// The scan after `event`.
    ///
    /// A page without keys is dealt with at once; one with keys has its
    /// records asked for. Records count towards the limit whether present or
    /// not, parsed or not; those that parsed join the results. A failure, or
    /// an answer to what was not asked, gives the scan up. A scan that is
    /// over or given up stays as it is.
    pub open spec fn step(self, event: ScanEventView<T>) -> ScanView<T> {
        match self.phase {
            ScanPhase::AwaitingPage => match event {
                ScanEventView::Page { next_cursor, keys } => if keys.len() == 0 {
                    self.settle(next_cursor)
                } else {
                    ScanView { phase: ScanPhase::AwaitingValues, cursor: next_cursor, ..self }
                },
                _ => self.abort(),
            },
            ScanPhase::AwaitingValues => match event {
                ScanEventView::Values { records } => ScanView {
                    retrieved: self.retrieved + records.len(),
                    results: self.results + parsed_values(records),
                    ..self
                }.settle(self.cursor),
                _ => self.abort(),
            },
            _ => self,
        }
    }

    /// What the scan asks of the store after `event`, if anything.
    pub open spec fn asks(self, event: ScanEventView<T>) -> Option<RequestView> {
        let next = self.step(event);
        if !self.running() {
            None
        } else {
            match next.phase {
                ScanPhase::AwaitingPage => Some(
                    RequestView::EnumeratePage {
                        cursor: next.cursor,
                        pattern: next.pattern,
                        page_size: next.page_size,
                    },
                ),
                ScanPhase::AwaitingValues => match event {
                    ScanEventView::Page { next_cursor, keys } => Some(
                        RequestView::MultiGet { keys },
                    ),
                    _ => None,
                },
                _ => None,
            }
        }
    }

    /// What holds of every scan, however it got where it is.
    pub open spec fn well_formed(self) -> bool {
        &&& self.page_size >= 1
        &&& self.results.len() <= self.retrieved
        &&& self.phase is AwaitingPage ==> if self.cursor == start_cursor() {
            self.retrieved == 0
        } else {
            !self.limit_reached()
        }
        &&& self.phase is Aborted ==> self.results.len() == 0
    }
}

/// A count kept in a machine word: itself where it fits, else the largest
/// word.
pub open spec fn saturated(count: nat) -> usize {
    if count <= usize::MAX {
        count as usize
    } else {
        usize::MAX
    }
}

/// Appending one record's outcome to those before it.
proof fn lemma_parsed_values_push<T>(records: Seq<Option<Json<T>>>, record: Option<Json<T>>)
    ensures
        parsed_values(records.push(record)) == match record {
            Some(Ok(value)) => parsed_values(records).push(value),
            _ => parsed_values(records),
        },
        parsed_values(records).len() <= records.len(),
    decreases records.len(),
{
    assert(records.push(record).drop_last() =~= records);
    if records.len() > 0 {
        lemma_parsed_values_push(records.drop_last(), records.last());
        assert(records.drop_last().push(records.last()) =~= records);
    }
}

/// The values of two runs of records are those of the first, then those of
/// the second.
pub proof fn lemma_parsed_values_concat<T>(
    first: Seq<Option<Json<T>>>,
    second: Seq<Option<Json<T>>>,
)
    ensures
        parsed_values(first + second) == parsed_values(first) + parsed_values(second),
    decreases second.len(),
{
    if second.len() == 0 {
        assert(first + second =~= first);
        assert(parsed_values(first) + parsed_values(second) =~= parsed_values(first));
    } else {
        lemma_parsed_values_concat(first, second.drop_last());
        assert((first + second).drop_last() =~= first + second.drop_last());
        assert((first + second).last() == second.last());
        match second.last() {
            Some(Ok(value)) => {
                assert((parsed_values(first) + parsed_values(second.drop_last())).push(value)
                    =~= parsed_values(first) + parsed_values(second.drop_last()).push(value));
            },
            _ => {},
        }
    }
}

/// No more values come out of a run of records than it has records.
pub proof fn lemma_parsed_values_bounded<T>(records: Seq<Option<Json<T>>>)
    ensures
        parsed_values(records).len() <= records.len(),
    decreases records.len(),
{
    if records.len() > 0 {
        lemma_parsed_values_bounded(records.drop_last());
    }
}

/// One malformed record costs one result and nothing else: where every
/// record of a page is present and all but the one at `bad` parse, the
/// values that come out are those of the other records, in their order, one
/// fewer than the page has records.
pub proof fn lemma_one_malformed_record<T>(records: Seq<Option<Json<T>>>, bad: int)
    requires
        0 <= bad < records.len(),
        records[bad] matches Some(Err(_)),
        forall|i: int|
            0 <= i < records.len() && i != bad ==> (#[trigger] records[i]) matches Some(Ok(_)),
    ensures
        parsed_values(records) == parsed_values(records.remove(bad)),
        parsed_values(records).len() == records.len() - 1,
        forall|i: int|
            0 <= i < records.len() - 1 ==> Some(Ok::<T, serde_json::Error>(parsed_values(records)[i]))
                == records.remove(bad)[i],
{
    let before = records.take(bad);
    let after = records.skip(bad + 1);
    assert(records =~= before + seq![records[bad]] + after);
    assert(records.remove(bad) =~= before + after);
    lemma_parsed_values_concat(before, seq![records[bad]]);
    lemma_parsed_values_concat(before + seq![records[bad]], after);
    lemma_parsed_values_concat(before, after);
    lemma_parsed_values_push(Seq::empty(), records[bad]);
    assert(seq![records[bad]] =~= Seq::<Option<Json<T>>>::empty().push(records[bad]));
    assert(parsed_values(seq![records[bad]]) =~= Seq::<T>::empty());
    assert(parsed_values(before) + Seq::<T>::empty() =~= parsed_values(before));
    lemma_all_parsed(records.remove(bad));
}

/// Where every record is present and parsed, the values are the records'
/// own, one for one.
proof fn lemma_all_parsed<T>(records: Seq<Option<Json<T>>>)
    requires
        forall|i: int| 0 <= i < records.len() ==> (#[trigger] records[i]) matches Some(Ok(_)),
    ensures
        parsed_values(records).len() == records.len(),
        forall|i: int|
            0 <= i < records.len() ==> Some(Ok::<T, serde_json::Error>(parsed_values(records)[i]))
                == records[i],
    decreases records.len(),
{
    if records.len() > 0 {
        let earlier = records.drop_last();
        lemma_all_parsed(earlier);
        assert(records.last() == records[records.len() - 1]);
        assert forall|i: int| 0 <= i < records.len() implies Some(
            Ok::<T, serde_json::Error>(parsed_values(records)[i]),
        ) == records[i] by {
            if i < earlier.len() {
                assert(earlier[i] == records[i]);
            }
        }
    }
}

/// A scan in progress.
pub struct Scan<T> {
    pattern: String,
    page_size: u32,
    limit: Option<usize>,
    cursor: String,
    retrieved: usize,
    total: Ghost<nat>,
    phase: ScanPhase,
    results: Vec<T>,
}

impl<T> View for Scan<T> {
    type V = ScanView<T>;

    closed spec fn view(&self) -> ScanView<T> {
        ScanView {
            pattern: self.pattern@,
            page_size: self.page_size,
            limit: self.limit,
            cursor: self.cursor@,
            retrieved: self.total@,
            phase: self.phase,
            results: self.results@,
        }
    }
}

impl<T> Scan<T> {
    #[verifier::type_invariant]
    spec fn inv(&self) -> bool {
        &&& self.retrieved == saturated(self.total@)
        &&& self@.well_formed()
    }

    /// Begins a scan of the keys that match `pattern` and hands out its
    /// first request. A chunk size that stands for pages of no keys is
    /// refused.
    pub fn start(pattern: &str, options: ScanOptions) -> (begun: Result<
        (Scan<T>, Request),
        ScanError,
    >)
        ensures
            page_size_of(options.chunk_size) == 0 ==> begun == Err::<(Scan<T>, Request), ScanError>(
                ScanError::InvalidChunkSize,
            ),
            page_size_of(options.chunk_size) != 0 ==> (begun matches Ok((scan, request)) && scan@
                == ScanView::<T>::fresh(pattern@, page_size_of(options.chunk_size), options.limit)
                && scan@.well_formed() && request@ == (RequestView::EnumeratePage {
                cursor: start_cursor(),
                pattern: pattern@,
                page_size: page_size_of(options.chunk_size),
            })),
    {
        let page_size: u32 = ((options.chunk_size as u64) % 0x1_0000_0000u64) as u32;
        if page_size == 0 {
            return Err(ScanError::InvalidChunkSize);
        }
        proof {
            reveal_strlit("0");
            assert("0"@ =~= start_cursor());
        }
        let scan = Scan {
            pattern: String::from_str(pattern),
            page_size,
            limit: options.limit,
            cursor: String::from_str("0"),
            retrieved: 0,
            total: Ghost(0),
            phase: ScanPhase::AwaitingPage,
            results: Vec::new(),
        };
        let request = Request::EnumeratePage {
            cursor: String::from_str("0"),
            pattern: String::from_str(pattern),
            page_size,
        };
        Ok((scan, request))
    }

    /// Tells the scan what the store answered to its last request, and
    /// hands out the next request, if there is one.
    pub fn advance(self, event: ScanEvent<T>) -> (next: (Scan<T>, Option<Request>))
        ensures
            next.0@ == self@.step(event@),
            next.0@.well_formed(),
            view_of(next.1) == self@.asks(event@),
    {
        proof {
            use_type_invariant(&self);
        }
        let Scan { pattern, page_size, limit, cursor, retrieved, total, phase, results } = self;
        match phase {
            ScanPhase::AwaitingPage => match event {
                ScanEvent::Page { next_cursor, keys } => {
                    if keys.len() == 0 {
                        settle(pattern, page_size, limit, next_cursor, retrieved, total, results)
                    } else {
                        let scan = Scan {
                            pattern,
                            page_size,
                            limit,
                            cursor: next_cursor,
                            retrieved,
                            total,
                            phase: ScanPhase::AwaitingValues,
                            results,
                        };
                        (scan, Some(Request::MultiGet { keys }))
                    }
                },
                _ => (give_up(pattern, page_size, limit, cursor, retrieved, total), None),
            },
            ScanPhase::AwaitingValues => match event {
                ScanEvent::Values { records } => {
                    let count = records.len();
                    let retrieved = retrieved.saturating_add(count);
                    let total: Ghost<nat> = Ghost(total@ + count as nat);
                    let mut results = results;
                    proof {
                        lemma_parsed_values_bounded(records@);
                    }
                    gather(&mut results, records);
                    settle(pattern, page_size, limit, cursor, retrieved, total, results)
                },
                _ => (give_up(pattern, page_size, limit, cursor, retrieved, total), None),
            },
            _ => (Scan { pattern, page_size, limit, cursor, retrieved, total, phase, results }, None),
        }
    }

    /// Where the scan stands.
    pub fn phase(&self) -> (phase: ScanPhase)
        ensures
            phase == self@.phase,
    {
        self.phase
    }

    /// How many records the store has answered with so far, present or
    /// not, as far as a machine word counts.
    pub fn retrieved(&self) -> (count: usize)
        ensures
            count == saturated(self@.retrieved),
    {
        proof {
            use_type_invariant(self);
        }
        self.retrieved
    }

    /// Ends the scan and hands out its results. Only a finished scan has
    /// any: one that was given up, or still waits, gives an error and
    /// nothing of what it had gathered.
    pub fn finish(self) -> (outcome: Result<Vec<T>, ScanError>)
        ensures
            match self@.phase {
                ScanPhase::Finished => outcome matches Ok(results) && results@ == self@.results,
                ScanPhase::Aborted => outcome == Err::<Vec<T>, ScanError>(ScanError::Aborted),
                _ => outcome == Err::<Vec<T>, ScanError>(ScanError::Unfinished),
            },
    {
        match self.phase {
            ScanPhase::Finished => Ok(self.results),
            ScanPhase::Aborted => Err(ScanError::Aborted),
            _ => Err(ScanError::Unfinished),
        }
    }
}

/// Whether `cursor` is the one that starts and ends an enumeration.
fn is_start_cursor(cursor: &String) -> (start: bool)
    ensures
        start == (cursor@ == start_cursor()),
{
    proof {
        reveal_strlit("0");
        assert("0"@ =~= start_cursor());
    }
    let zero = String::from_str("0");
    *cursor == zero
}

/// The scan once a page is dealt with, and the request for the next page
/// where the scan goes on.
fn settle<T>(
    pattern: String,
    page_size: u32,
    limit: Option<usize>,
    next_cursor: String,
    retrieved: usize,
    total: Ghost<nat>,
    results: Vec<T>,
) -> (next: (Scan<T>, Option<Request>))
    requires
        page_size >= 1,
        retrieved == saturated(total@),
        results@.len() <= total@,
    ensures
        next.0@ == (ScanView {
            pattern: pattern@,
            page_size,
            limit,
            cursor: next_cursor@,
            retrieved: total@,
            phase: next.0@.phase,
            results: results@,
        }),
        next.0@.phase == if (limit matches Some(most) && total@ >= most) || next_cursor@
            == start_cursor() {
            ScanPhase::Finished
        } else {
            ScanPhase::AwaitingPage
        },
        next.0@.well_formed(),
        view_of(next.1) == if next.0@.phase is AwaitingPage {
            Some(RequestView::EnumeratePage { cursor: next_cursor@, pattern: pattern@, page_size })
        } else {
            None
        },
{
    let limit_reached = match limit {
        Some(most) => retrieved >= most,
        None => false,
    };
    if limit_reached || is_start_cursor(&next_cursor) {
        let scan = Scan {
            pattern,
            page_size,
            limit,
            cursor: next_cursor,
            retrieved,
            total,
            phase: ScanPhase::Finished,
            results,
        };
        (scan, None)
    } else {
        let request = Request::EnumeratePage {
            cursor: next_cursor.clone(),
            pattern: pattern.clone(),
            page_size,
        };
        let scan = Scan {
            pattern,
            page_size,
            limit,
            cursor: next_cursor,
            retrieved,
            total,
            phase: ScanPhase::AwaitingPage,
            results,
        };
        (scan, Some(request))
    }
}

/// The scan given up: its results are dropped.
fn give_up<T>(
    pattern: String,
    page_size: u32,
    limit: Option<usize>,
    cursor: String,
    retrieved: usize,
    total: Ghost<nat>,
) -> (scan: Scan<T>)
    requires
        page_size >= 1,
        retrieved == saturated(total@),
    ensures
        scan@ == (ScanView {
            pattern: pattern@,
            page_size,
            limit,
            cursor: cursor@,
            retrieved: total@,
            phase: ScanPhase::Aborted,
            results: Seq::<T>::empty(),
        }),
        scan@.well_formed(),
{
    Scan {
        pattern,
        page_size,
        limit,
        cursor,
        retrieved,
        total,
        phase: ScanPhase::Aborted,
        results: Vec::new(),
    }
}

/// Moves the values of the records that are present and parsed to the end
/// of `results`, in their order; the others are dropped.
fn gather<T>(results: &mut Vec<T>, records: Vec<Option<Json<T>>>)
    ensures
        final(results)@ == old(results)@ + parsed_values(records@),
{
    broadcast use vstd::std_specs::vec::axiom_spec_into_iter;

    let ghost before = results@;
    let ghost all = records@;
    for record in it: records.into_iter()
        invariant
            it.seq() == all,
            results@ == before + parsed_values(all.take(it.index())),
    {
        proof {
            lemma_parsed_values_push(all.take(it.index()), record);
            assert(all.take(it.index() + 1) =~= all.take(it.index()).push(record));
        }
        match record {
            Some(Ok(value)) => {
                results.push(value);
            },
            _ => {},
        }
    }
    assert(all.take(all.len() as int) =~= all);
}

} // verus!
