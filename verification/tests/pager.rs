use finra_rs::pager::{
    all_results, check_status, read_total, start_walk, PageRequest, PagerState,
    RECORD_TOTAL_HEADER,
};
use finra_rs::stream::{RecordStream, Step};
use finra_rs::{ConsolidatedShortInterestQuery, Error, Query};

/// A canned answer of the data endpoint.
struct Answer {
    status: u16,
    record_total: Option<&'static str>,
    records: Vec<&'static str>,
}

/// Pulls a stream to its end against the given answers.  Returns what came
/// out, and the bodies of the requests that were sent.
fn pull(
    mut stream: RecordStream<&'static str, (), ConsolidatedShortInterestQuery>,
    answers: Vec<Answer>,
) -> (Vec<Result<&'static str, Error>>, Vec<String>) {
    let mut out = Vec::new();
    let mut sent = Vec::new();
    let mut answers = answers.into_iter();
    loop {
        let (step, next) = stream.next_step();
        stream = next;
        match step {
            Ok(Step::Record(record)) => out.push(Ok(record)),
            Ok(Step::Done) => return (out, sent),
            Err(e) => out.push(Err(e)),
            Ok(Step::Fetch(request)) => {
                assert_eq!(request.url, "https://example.test/data");
                assert_eq!(request.accept, "text/plain");
                assert_eq!(request.content_type, "application/json");
                sent.push(request.body.clone());
                let answer = answers.next().expect("a request that no answer was prepared for");
                let (page, next) = stream.receive_status(answer.status, &request.url);
                stream = next;
                match page {
                    Ok(true) => {
                        stream = stream.receive_page(
                            answer.record_total.map(|total| total.as_bytes()),
                            answer.records,
                        );
                    },
                    Ok(false) => {},
                    Err(e) => out.push(Err(e)),
                }
            },
        }
    }
}

const ADDRESS: &str = "https://example.test/data";

fn walk_of_everything() -> PagerState<(), ConsolidatedShortInterestQuery> {
    all_results((), ADDRESS, ConsolidatedShortInterestQuery::new(None, None, None)).unwrap()
}

fn stream_of_everything() -> RecordStream<&'static str, (), ConsolidatedShortInterestQuery> {
    RecordStream::new(walk_of_everything())
}

#[test]
fn walk_starts_open_at_the_cursor_of_the_query() {
    let state: PagerState<u8, ConsolidatedShortInterestQuery> = all_results(
        7,
        "https://example.test/data",
        ConsolidatedShortInterestQuery::new(None, None, None).move_cursor(5),
    )
    .unwrap();
    assert_eq!(state.client, 7);
    assert_eq!(state.url, "https://example.test/data");
    assert_eq!(state.query.offset(), 5);
    assert!(!state.end);
    assert_eq!(
        state.request(),
        Ok(Some(PageRequest {
            url: "https://example.test/data".to_string(),
            accept: "text/plain",
            content_type: "application/json",
            body: r#"{"limit":1000,"offset":5}"#.to_string(),
        }))
    );
}

#[test]
fn total_is_reported_in_the_record_total_header() {
    assert_eq!(RECORD_TOTAL_HEADER, "Record-Total");
}

#[test]
fn walk_does_not_start_at_an_address_that_is_no_url() {
    let refused: [&str; 4] = ["not a url", "", "/data", "https://"];
    for address in refused {
        let walk = all_results((), address, ConsolidatedShortInterestQuery::new(None, None, None));
        assert_eq!(walk.err(), Some(Error::HttpError("builder error".to_string())), "{}", address);
    }
}

#[test]
fn walk_does_not_start_at_an_address_without_a_host() {
    let walk =
        all_results((), "data:text/plain,x", ConsolidatedShortInterestQuery::new(None, None, None));
    assert_eq!(
        walk.err(),
        Some(Error::HttpError("builder error for url (data:text/plain,x)".to_string()))
    );
    let walk =
        all_results((), "mailto:someone@example.test", ConsolidatedShortInterestQuery::new(None, None, None));
    assert_eq!(
        walk.err(),
        Some(Error::HttpError("builder error for url (mailto:someone@example.test)".to_string()))
    );
}

#[test]
fn walk_goes_to_the_address_as_the_parsed_url_writes_it() {
    let walk = all_results(
        (),
        "HTTPS://Example.TEST",
        ConsolidatedShortInterestQuery::new(None, None, None),
    )
    .unwrap();
    assert_eq!(walk.url, "https://example.test/");
    assert_eq!(walk.url, reqwest::Url::parse("HTTPS://Example.TEST").unwrap().as_str());
    assert!(!walk.end);
    assert_eq!(walk.request().unwrap().unwrap().url, "https://example.test/");
    assert_eq!(walk_of_everything().url, ADDRESS);
}

#[test]
fn walk_starts_at_a_parsed_address_with_a_host() {
    let query = || ConsolidatedShortInterestQuery::new(None, None, None);
    let walk = start_walk(3u8, Some(("https://example.test/".to_string(), true)), query()).unwrap();
    assert_eq!(walk.client, 3);
    assert_eq!(walk.url, "https://example.test/");
    assert_eq!(walk.query.offset(), 0);
    assert!(!walk.end);
    assert_eq!(
        start_walk(3u8, None, query()).err(),
        Some(Error::HttpError("builder error".to_string()))
    );
    assert_eq!(
        start_walk(3u8, Some(("data:x".to_string(), false)), query()).err(),
        Some(Error::HttpError("builder error for url (data:x)".to_string()))
    );
}

#[test]
fn status_200_is_a_page() {
    assert_eq!(check_status(200, ADDRESS), Ok(true));
}

#[test]
fn success_without_content_ends_the_sequence() {
    let statuses: [u16; 4] = [201, 202, 204, 299];
    for status in statuses {
        assert_eq!(check_status(status, ADDRESS), Ok(false));
    }
}

#[test]
fn status_that_is_no_success_is_an_error() {
    let statuses: [(u16, &str); 9] = [
        (400, "HTTP status client error (400 Bad Request)"),
        (404, "HTTP status client error (404 Not Found)"),
        (499, "HTTP status client error (499 <unknown status code>)"),
        (500, "HTTP status server error (500 Internal Server Error)"),
        (503, "HTTP status server error (503 Service Unavailable)"),
        (100, "HTTP status error (100 Continue)"),
        (304, "HTTP status error (304 Not Modified)"),
        (600, "HTTP status error (600 <unknown status code>)"),
        (0, "HTTP status error (0)"),
    ];
    for (status, named) in statuses {
        assert_eq!(
            check_status(status, ADDRESS),
            Err(Error::HttpError(format!("{} for url (https://example.test/data)", named)))
        );
    }
}

#[test]
fn total_is_read_from_the_header() {
    assert_eq!(read_total(Some(b"2")), 2);
    assert_eq!(read_total(Some(b"+15")), 15);
    assert_eq!(read_total(Some(b"18446744073709551615")), u64::MAX);
}

#[test]
fn total_defaults_to_zero() {
    assert_eq!(read_total(None), 0);
    assert_eq!(read_total(Some(b"")), 0);
    assert_eq!(read_total(Some(b"many")), 0);
    assert_eq!(read_total(Some(b"-1")), 0);
    assert_eq!(read_total(Some(b" 2")), 0);
    assert_eq!(read_total(Some(b"18446744073709551616")), 0);
    assert_eq!(read_total(Some(&[0xff, 0x31])), 0);
}

#[test]
fn cursor_advances_by_the_records_received() {
    let state = walk_of_everything();
    let state = state.advance(Some(b"2500"), 1000);
    assert_eq!(state.query.offset(), 1000);
    assert_eq!(state.query.limit(), 1000);
    assert!(!state.end);
    // a short page moves the cursor by what it held, not by the page size
    let state = state.advance(Some(b"2500"), 700);
    assert_eq!(state.query.offset(), 1700);
    assert!(!state.end);
    let state = state.advance(Some(b"2500"), 800);
    assert_eq!(state.query.offset(), 2500);
    assert!(state.end);
    assert_eq!(state.request(), Ok(None));
}

#[test]
fn sequence_ends_when_the_total_does_not_exceed_the_offset() {
    let start = || -> PagerState<(), ConsolidatedShortInterestQuery> {
        all_results((), ADDRESS, ConsolidatedShortInterestQuery::new(None, None, None).move_cursor(10))
            .unwrap()
    };
    assert!(!start().advance(Some(b"16"), 5).end);
    assert!(start().advance(Some(b"15"), 5).end);
    assert!(start().advance(Some(b"14"), 5).end);
    assert!(start().advance(Some(b"0"), 0).end);
    assert!(!start().advance(Some(b"11"), 0).end);
}

#[test]
fn finished_walk_asks_for_nothing() {
    let state = walk_of_everything();
    let state = state.finish();
    assert!(state.end);
    assert_eq!(state.query.offset(), 0);
    assert_eq!(state.request(), Ok(None));
}

#[test]
fn one_record_then_no_content_yields_one_record() {
    let (out, sent) = pull(
        stream_of_everything(),
        vec![
            Answer { status: 200, record_total: Some("2"), records: vec!["first"] },
            Answer { status: 204, record_total: None, records: vec![] },
        ],
    );
    assert_eq!(out, vec![Ok("first")]);
    assert_eq!(
        sent,
        vec![
            r#"{"limit":1000,"offset":0}"#.to_string(),
            r#"{"limit":1000,"offset":1}"#.to_string(),
        ]
    );
}

#[test]
fn missing_total_ends_the_sequence_after_the_first_page() {
    let (out, sent) = pull(
        stream_of_everything(),
        vec![Answer { status: 200, record_total: None, records: vec!["a", "b", "c"] }],
    );
    assert_eq!(out, vec![Ok("a"), Ok("b"), Ok("c")]);
    assert_eq!(sent.len(), 1);
}

#[test]
fn unreadable_total_ends_the_sequence_after_the_first_page() {
    let (out, sent) = pull(
        stream_of_everything(),
        vec![Answer { status: 200, record_total: Some("lots"), records: vec!["a", "b"] }],
    );
    assert_eq!(out, vec![Ok("a"), Ok("b")]);
    assert_eq!(sent.len(), 1);
}

#[test]
fn records_come_out_in_the_order_of_pages_and_rows() {
    let (out, sent) = pull(
        stream_of_everything(),
        vec![
            Answer { status: 200, record_total: Some("5"), records: vec!["a", "b"] },
            Answer { status: 200, record_total: Some("5"), records: vec!["c"] },
            Answer { status: 200, record_total: Some("5"), records: vec!["d", "e"] },
        ],
    );
    assert_eq!(out, vec![Ok("a"), Ok("b"), Ok("c"), Ok("d"), Ok("e")]);
    assert_eq!(
        sent,
        vec![
            r#"{"limit":1000,"offset":0}"#.to_string(),
            r#"{"limit":1000,"offset":2}"#.to_string(),
            r#"{"limit":1000,"offset":3}"#.to_string(),
        ]
    );
}

#[test]
fn offset_at_the_end_is_the_number_of_records() {
    let mut stream = stream_of_everything();
    let pages: [Vec<&'static str>; 3] = [vec!["a", "b", "c"], vec!["d"], vec!["e", "f"]];
    let mut yielded = 0;
    for page in pages {
        let (step, next) = stream.next_step();
        assert!(matches!(step, Ok(Step::Fetch(_))));
        let (accepted, next) = next.receive_status(200, ADDRESS);
        assert_eq!(accepted, Ok(true));
        stream = next.receive_page(Some(b"6"), page);
        while !stream.pending.is_empty() {
            let (step, next) = stream.next_step();
            assert!(matches!(step, Ok(Step::Record(_))));
            yielded += 1;
            stream = next;
        }
    }
    let (step, stream) = stream.next_step();
    assert!(matches!(step, Ok(Step::Done)));
    assert_eq!(yielded, 6);
    assert_eq!(stream.pager.query.offset(), 6);
    assert!(stream.pager.end);
}

#[test]
fn empty_page_below_the_total_asks_again() {
    let (out, sent) = pull(
        stream_of_everything(),
        vec![
            Answer { status: 200, record_total: Some("1"), records: vec![] },
            Answer { status: 200, record_total: Some("1"), records: vec!["late"] },
        ],
    );
    assert_eq!(out, vec![Ok("late")]);
    assert_eq!(sent.len(), 2);
    assert_eq!(sent[0], sent[1]);
}

#[test]
fn error_status_ends_the_sequence_with_one_error() {
    let (out, sent) = pull(
        stream_of_everything(),
        vec![
            Answer { status: 200, record_total: Some("10"), records: vec!["a"] },
            Answer { status: 500, record_total: None, records: vec![] },
        ],
    );
    assert_eq!(
        out,
        vec![
            Ok("a"),
            Err(Error::HttpError(
                "HTTP status server error (500 Internal Server Error) for url (https://example.test/data)"
                    .to_string()
            )),
        ]
    );
    assert_eq!(sent.len(), 2);
}

#[test]
fn failed_transfer_ends_the_sequence() {
    let stream = stream_of_everything();
    let (step, stream) = stream.next_step();
    assert!(matches!(step, Ok(Step::Fetch(_))));
    let (error, stream) = stream.receive_failure("connection reset".to_string());
    assert_eq!(error, Error::HttpError("connection reset".to_string()));
    assert!(stream.pager.end);
    let (step, stream) = stream.next_step();
    assert!(matches!(step, Ok(Step::Done)));
    assert_eq!(stream.pager.query.offset(), 0);
}

#[test]
fn pending_records_come_out_even_after_a_failure() {
    let stream = stream_of_everything().receive_page(Some(b"9"), vec!["a", "b"]);
    let (_, stream) = stream.receive_failure("timed out".to_string());
    let (out, sent) = pull(stream, vec![]);
    assert_eq!(out, vec![Ok("a"), Ok("b")]);
    assert!(sent.is_empty());
}

#[test]
fn stream_that_ended_stays_ended() {
    let stream = stream_of_everything();
    let (_, stream) = stream.next_step();
    let (accepted, stream) = stream.receive_status(204, ADDRESS);
    assert_eq!(accepted, Ok(false));
    let (step, stream) = stream.next_step();
    assert!(matches!(step, Ok(Step::Done)));
    let (step, _) = stream.next_step();
    assert!(matches!(step, Ok(Step::Done)));
}
