use entity_cache::codec::Json;
use entity_cache::scan::{Scan, ScanError, ScanEvent, ScanOptions, ScanPhase, DEFAULT_CHUNK_SIZE};
use entity_cache::store::Request;

fn page(next_cursor: &str, keys: &[&str]) -> ScanEvent<u64> {
    ScanEvent::Page {
        next_cursor: next_cursor.to_string(),
        keys: keys.iter().map(|key| key.to_string()).collect(),
    }
}

fn values(texts: &[Option<&str>]) -> ScanEvent<u64> {
    let records: Vec<Option<Json<u64>>> =
        texts.iter().map(|text| text.map(|text| serde_json::from_str::<u64>(text))).collect();
    ScanEvent::Values { records }
}

fn begin(chunk_size: Option<usize>, limit: Option<usize>) -> (Scan<u64>, Request) {
    match Scan::<u64>::start("Test*", ScanOptions::new(chunk_size, limit)) {
        Ok(begun) => begun,
        Err(error) => panic!("the scan did not start: {:?}", error),
    }
}

fn expect_page_request(request: Option<Request>, cursor: &str, page_size: u32) {
    match request {
        Some(Request::EnumeratePage { cursor: asked, pattern, page_size: size }) => {
            assert_eq!(asked, cursor);
            assert_eq!(pattern, "Test*");
            assert_eq!(size, page_size);
        }
        other => panic!("expected a request for a page, got {:?}", other),
    }
}

fn expect_multi_get(request: Option<Request>, keys: &[&str]) {
    match request {
        Some(Request::MultiGet { keys: asked }) => assert_eq!(asked, keys),
        other => panic!("expected a request for records, got {:?}", other),
    }
}

#[test]
fn options_fill_in_the_defaults() {
    let options = ScanOptions::new(None, None);
    assert_eq!(options.chunk_size, 100);
    assert_eq!(options.chunk_size, DEFAULT_CHUNK_SIZE);
    assert_eq!(options.limit, None);
    let options = ScanOptions::new(Some(7), Some(3));
    assert_eq!(options.chunk_size, 7);
    assert_eq!(options.limit, Some(3));
    let options = ScanOptions::default();
    assert_eq!(options.chunk_size, 100);
    assert_eq!(options.limit, None);
}

#[test]
fn start_asks_for_the_first_page_from_the_start_cursor() {
    let (scan, request) = begin(Some(2), None);
    expect_page_request(Some(request), "0", 2);
    assert_eq!(scan.phase(), ScanPhase::AwaitingPage);
    assert_eq!(scan.retrieved(), 0);
}

#[test]
fn start_uses_pages_of_a_hundred_keys_by_default() {
    let (_, request) = begin(None, None);
    expect_page_request(Some(request), "0", 100);
}

#[test]
fn start_refuses_a_chunk_size_of_zero() {
    let begun = Scan::<u64>::start("Test*", ScanOptions::new(Some(0), None));
    assert_eq!(begun.err(), Some(ScanError::InvalidChunkSize));
}

#[test]
fn start_takes_the_low_bits_of_a_chunk_size_too_large_for_a_page() {
    if let Some(beyond) = (u32::MAX as usize).checked_add(1) {
        let begun = Scan::<u64>::start("Test*", ScanOptions::new(Some(beyond), None));
        assert_eq!(begun.err(), Some(ScanError::InvalidChunkSize));
        let (_, request) = begin(Some(beyond + 5), None);
        expect_page_request(Some(request), "0", 5);
    }
    let (_, request) = begin(Some(u32::MAX as usize), None);
    expect_page_request(Some(request), "0", u32::MAX);
}

#[test]
fn an_empty_last_page_finishes_the_scan_with_no_results() {
    let (scan, _) = begin(Some(2), None);
    let (scan, next) = scan.advance(page("0", &[]));
    assert!(next.is_none());
    assert_eq!(scan.phase(), ScanPhase::Finished);
    assert_eq!(scan.retrieved(), 0);
    assert_eq!(scan.finish(), Ok(Vec::new()));
}

#[test]
fn an_empty_page_in_the_middle_asks_for_the_next_page_without_a_multi_get() {
    let (scan, _) = begin(Some(2), None);
    let (scan, next) = scan.advance(page("17", &[]));
    expect_page_request(next, "17", 2);
    assert_eq!(scan.phase(), ScanPhase::AwaitingPage);
    assert_eq!(scan.retrieved(), 0);
}

#[test]
fn a_page_with_keys_asks_for_their_records_in_one_multi_get() {
    let (scan, _) = begin(Some(3), None);
    let (scan, next) = scan.advance(page("9", &["Test:a:1", "Test:a:2", "Test:a:3"]));
    expect_multi_get(next, &["Test:a:1", "Test:a:2", "Test:a:3"]);
    assert_eq!(scan.phase(), ScanPhase::AwaitingValues);
    assert_eq!(scan.retrieved(), 0);
}

#[test]
fn records_are_gathered_in_the_order_of_the_answer() {
    let (scan, _) = begin(Some(3), None);
    let (scan, _) = scan.advance(page("0", &["k1", "k2", "k3"]));
    let (scan, next) = scan.advance(values(&[Some("30"), Some("10"), Some("20")]));
    assert!(next.is_none());
    assert_eq!(scan.retrieved(), 3);
    assert_eq!(scan.finish(), Ok(vec![30, 10, 20]));
}

#[test]
fn results_of_later_pages_follow_those_of_earlier_pages() {
    let (scan, _) = begin(Some(2), None);
    let (scan, _) = scan.advance(page("2", &["k1", "k2"]));
    let (scan, next) = scan.advance(values(&[Some("1"), Some("2")]));
    expect_page_request(next, "2", 2);
    let (scan, _) = scan.advance(page("4", &["k3", "k4"]));
    let (scan, next) = scan.advance(values(&[Some("3"), Some("4")]));
    expect_page_request(next, "4", 2);
    let (scan, _) = scan.advance(page("0", &["k5"]));
    let (scan, next) = scan.advance(values(&[Some("5")]));
    assert!(next.is_none());
    assert_eq!(scan.retrieved(), 5);
    assert_eq!(scan.finish(), Ok(vec![1, 2, 3, 4, 5]));
}

#[test]
fn a_malformed_record_is_skipped_and_the_scan_goes_on() {
    let (scan, _) = begin(Some(4), None);
    let (scan, _) = scan.advance(page("0", &["k1", "k2", "k3", "k4"]));
    let (scan, next) = scan.advance(values(&[Some("1"), Some("not a number"), Some("3"), Some("4")]));
    assert!(next.is_none());
    assert_eq!(scan.phase(), ScanPhase::Finished);
    assert_eq!(scan.retrieved(), 4);
    assert_eq!(scan.finish(), Ok(vec![1, 3, 4]));
}

#[test]
fn absent_records_count_towards_the_limit_but_give_no_result() {
    let (scan, _) = begin(Some(2), Some(2));
    let (scan, _) = scan.advance(page("2", &["k1", "k2"]));
    let (scan, next) = scan.advance(values(&[None, None]));
    assert!(next.is_none());
    assert_eq!(scan.retrieved(), 2);
    assert_eq!(scan.finish(), Ok(Vec::new()));
}

#[test]
fn a_page_of_expired_records_leaves_the_scan_running() {
    let (scan, _) = begin(Some(2), None);
    let (scan, _) = scan.advance(page("2", &["k1", "k2"]));
    let (scan, next) = scan.advance(values(&[None, None]));
    expect_page_request(next, "2", 2);
    let (scan, _) = scan.advance(page("0", &["k3"]));
    let (scan, next) = scan.advance(values(&[Some("3")]));
    assert!(next.is_none());
    assert_eq!(scan.retrieved(), 3);
    assert_eq!(scan.finish(), Ok(vec![3]));
}

#[test]
fn malformed_records_use_up_the_limit() {
    let (scan, _) = begin(Some(3), Some(3));
    let (scan, _) = scan.advance(page("3", &["k1", "k2", "k3"]));
    let (scan, next) = scan.advance(values(&[Some("x"), Some("2"), Some("3")]));
    assert!(next.is_none());
    assert_eq!(scan.retrieved(), 3);
    assert_eq!(scan.finish(), Ok(vec![2, 3]));
}

#[test]
fn the_limit_is_tested_only_after_a_whole_page() {
    let (scan, _) = begin(Some(2), Some(3));
    let (scan, _) = scan.advance(page("2", &["k1", "k2"]));
    let (scan, next) = scan.advance(values(&[Some("1"), Some("2")]));
    expect_page_request(next, "2", 2);
    let (scan, _) = scan.advance(page("4", &["k3", "k4"]));
    let (scan, next) = scan.advance(values(&[Some("3"), Some("4")]));
    assert!(next.is_none());
    assert_eq!(scan.phase(), ScanPhase::Finished);
    assert_eq!(scan.retrieved(), 4);
    assert_eq!(scan.finish(), Ok(vec![1, 2, 3, 4]));
}

#[test]
fn a_limit_of_zero_still_fetches_the_first_page() {
    let (scan, request) = begin(Some(2), Some(0));
    expect_page_request(Some(request), "0", 2);
    let (scan, next) = scan.advance(page("2", &["k1", "k2"]));
    expect_multi_get(next, &["k1", "k2"]);
    let (scan, next) = scan.advance(values(&[Some("1"), Some("2")]));
    assert!(next.is_none());
    assert_eq!(scan.finish(), Ok(vec![1, 2]));
}

#[test]
fn a_limit_of_zero_ends_the_scan_after_an_empty_first_page() {
    let (scan, _) = begin(Some(2), Some(0));
    let (scan, next) = scan.advance(page("2", &[]));
    assert!(next.is_none());
    assert_eq!(scan.finish(), Ok(Vec::new()));
}

#[test]
fn the_count_is_of_the_records_answered_not_of_the_keys_asked() {
    let (scan, _) = begin(Some(3), Some(3));
    let (scan, _) = scan.advance(page("3", &["k1", "k2", "k3"]));
    let (scan, next) = scan.advance(values(&[Some("1")]));
    expect_page_request(next, "3", 3);
    assert_eq!(scan.retrieved(), 1);
}

#[test]
fn a_failure_while_waiting_for_a_page_gives_the_scan_up() {
    let (scan, _) = begin(Some(2), None);
    let (scan, next) = scan.advance(ScanEvent::StoreFailed);
    assert!(next.is_none());
    assert_eq!(scan.phase(), ScanPhase::Aborted);
    assert_eq!(scan.finish(), Err(ScanError::Aborted));
}

#[test]
fn a_failure_while_waiting_for_records_drops_what_was_gathered() {
    let (scan, _) = begin(Some(2), None);
    let (scan, _) = scan.advance(page("2", &["k1", "k2"]));
    let (scan, _) = scan.advance(values(&[Some("1"), Some("2")]));
    let (scan, _) = scan.advance(page("4", &["k3", "k4"]));
    let (scan, next) = scan.advance(ScanEvent::StoreFailed);
    assert!(next.is_none());
    assert_eq!(scan.phase(), ScanPhase::Aborted);
    assert_eq!(scan.retrieved(), 2);
    assert_eq!(scan.finish(), Err(ScanError::Aborted));
}

#[test]
fn records_that_were_not_asked_for_give_the_scan_up() {
    let (scan, _) = begin(Some(2), None);
    let (scan, next) = scan.advance(values(&[Some("1")]));
    assert!(next.is_none());
    assert_eq!(scan.finish(), Err(ScanError::Aborted));
}

#[test]
fn a_page_that_was_not_asked_for_gives_the_scan_up() {
    let (scan, _) = begin(Some(2), None);
    let (scan, _) = scan.advance(page("2", &["k1", "k2"]));
    let (scan, next) = scan.advance(page("4", &["k3"]));
    assert!(next.is_none());
    assert_eq!(scan.finish(), Err(ScanError::Aborted));
}

#[test]
fn a_scan_given_up_stays_given_up() {
    let (scan, _) = begin(Some(2), None);
    let (scan, _) = scan.advance(ScanEvent::StoreFailed);
    let (scan, next) = scan.advance(page("0", &[]));
    assert!(next.is_none());
    let (scan, next) = scan.advance(values(&[Some("1")]));
    assert!(next.is_none());
    assert_eq!(scan.phase(), ScanPhase::Aborted);
    assert_eq!(scan.finish(), Err(ScanError::Aborted));
}

#[test]
fn a_finished_scan_takes_no_more_events() {
    let (scan, _) = begin(Some(2), None);
    let (scan, _) = scan.advance(page("0", &["k1"]));
    let (scan, _) = scan.advance(values(&[Some("1")]));
    let (scan, next) = scan.advance(values(&[Some("2")]));
    assert!(next.is_none());
    let (scan, next) = scan.advance(ScanEvent::StoreFailed);
    assert!(next.is_none());
    assert_eq!(scan.phase(), ScanPhase::Finished);
    assert_eq!(scan.retrieved(), 1);
    assert_eq!(scan.finish(), Ok(vec![1]));
}

#[test]
fn a_scan_that_still_waits_has_no_results_to_give() {
    let (scan, _) = begin(Some(2), None);
    assert_eq!(scan.finish(), Err(ScanError::Unfinished));
    let (scan, _) = begin(Some(2), None);
    let (scan, _) = scan.advance(page("2", &["k1", "k2"]));
    assert_eq!(scan.finish(), Err(ScanError::Unfinished));
}

#[test]
fn only_the_cursor_zero_ends_an_enumeration() {
    for cursor in ["00", "1", "", " 0", "0 ", "o"] {
        let (scan, _) = begin(Some(2), None);
        let (scan, next) = scan.advance(page(cursor, &[]));
        expect_page_request(next, cursor, 2);
        assert_eq!(scan.phase(), ScanPhase::AwaitingPage);
    }
}

#[test]
fn scan_errors_say_what_went_wrong() {
    assert_eq!(
        ScanError::InvalidChunkSize.to_string(),
        "the chunk size of a scan stands for pages of no keys"
    );
    assert_eq!(
        ScanError::Aborted.to_string(),
        "the scan was given up: the store failed or answered out of turn"
    );
    assert_eq!(ScanError::Unfinished.to_string(), "the scan still waits for an answer of the store");
}

#[test]
fn retrieved_counts_every_record_of_every_page() {
    let (scan, _) = begin(Some(2), None);
    let (scan, _) = scan.advance(page("2", &["k1", "k2"]));
    let (scan, _) = scan.advance(values(&[Some("1"), None]));
    assert_eq!(scan.retrieved(), 2);
    let (scan, _) = scan.advance(page("4", &["k3", "k4"]));
    assert_eq!(scan.retrieved(), 2);
    let (scan, _) = scan.advance(values(&[Some("x"), Some("4")]));
    assert_eq!(scan.retrieved(), 4);
    let (scan, _) = scan.advance(page("0", &[]));
    assert_eq!(scan.retrieved(), 4);
    assert_eq!(scan.finish(), Ok(vec![1, 4]));
}
