use khudib::rewrite::{replace, rewrite_request};
use khudib::search::{begin_search, search_step, RatePlan, SearchAction, SearchEvent, SearchPhase};

#[test]
fn search_passes_nearby_hotels_to_the_rate_service() {
    let phase = begin_search("2015-04-09".to_string(), "2015-04-10".to_string());
    let (phase, action) = search_step(phase, SearchEvent::Nearby(vec!["1".to_string(), "5".to_string()]));
    assert!(matches!(phase, SearchPhase::AwaitingRates));
    match action {
        SearchAction::QueryRates(request) => {
            assert_eq!(request.hotel_ids, vec!["1".to_string(), "5".to_string()]);
            assert_eq!(request.in_date, "2015-04-09");
            assert_eq!(request.out_date, "2015-04-10");
        }
        _ => panic!("expected a rate query"),
    }
}

#[test]
fn search_answers_with_one_hotel_per_plan() {
    let plans = vec![
        RatePlan { hotel_id: "5".to_string() },
        RatePlan { hotel_id: "1".to_string() },
        RatePlan { hotel_id: "5".to_string() },
    ];
    let (phase, action) = search_step(SearchPhase::AwaitingRates, SearchEvent::Rates(plans));
    assert!(matches!(phase, SearchPhase::Finished));
    match action {
        SearchAction::Reply(result) => assert_eq!(
            result.hotel_ids,
            vec!["5".to_string(), "1".to_string(), "5".to_string()]
        ),
        _ => panic!("expected a reply"),
    }
}

#[test]
fn search_with_no_plans_answers_no_hotels() {
    let (_, action) = search_step(SearchPhase::AwaitingRates, SearchEvent::Rates(Vec::new()));
    match action {
        SearchAction::Reply(result) => assert!(result.hotel_ids.is_empty()),
        _ => panic!("expected a reply"),
    }
}

#[test]
fn search_failure_aborts() {
    let phase = begin_search("a".to_string(), "b".to_string());
    let (phase, action) = search_step(phase, SearchEvent::Failed("geo is down".to_string()));
    assert!(matches!(phase, SearchPhase::Finished));
    match action {
        SearchAction::Abort(message) => assert_eq!(message, "geo is down"),
        _ => panic!("expected an abort"),
    }
    let (_, action) = search_step(SearchPhase::AwaitingRates, SearchEvent::Failed("rate".to_string()));
    assert!(matches!(action, SearchAction::Abort(m) if m == "rate"));
}

#[test]
fn proxy_rewrites_original_to_modified() {
    assert_eq!(
        rewrite_request(b"GET /original HTTP/1.1\r\nX-Tag: original\r\n\r\n"),
        "GET /modified HTTP/1.1\r\nX-Tag: modified\r\n\r\n"
    );
}

#[test]
fn proxy_leaves_other_text_alone() {
    assert_eq!(rewrite_request(b"nothing to see here"), "nothing to see here");
    assert_eq!(rewrite_request(b""), "");
    assert_eq!(rewrite_request(b"Original ORIGINAL origina"), "Original ORIGINAL origina");
}

#[test]
fn proxy_rewrites_adjacent_and_nested_words() {
    assert_eq!(rewrite_request(b"originaloriginal"), "modifiedmodified");
    assert_eq!(rewrite_request(b"origoriginalinal"), "origmodifiedinal");
    let once = rewrite_request(b"origoriginalinal");
    assert_eq!(rewrite_request(once.as_bytes()), once);
}

#[test]
fn proxy_reads_invalid_utf8_lossily() {
    assert_eq!(rewrite_request(b"\xffori\xc3ginal original"), "\u{FFFD}ori\u{FFFD}ginal modified");
    assert_eq!(rewrite_request("caf\u{e9} original".as_bytes()), "caf\u{e9} modified");
}

#[test]
fn replace_takes_occurrences_from_the_left() {
    assert_eq!(replace("aaaa", "aa", "b"), "bb");
    assert_eq!(replace("aaa", "aa", "b"), "ba");
    assert_eq!(replace("abcabc", "bc", ""), "aa");
    assert_eq!(replace("x", "xyz", "q"), "x");
    assert_eq!(replace("\u{e9}t\u{e9}", "\u{e9}", "e"), "ete");
}

#[test]
fn replace_with_an_empty_pattern() {
    assert_eq!(replace("abc", "", "x"), "xaxbxcx");
    assert_eq!(replace("", "", "x"), "x");
    assert_eq!(replace("\u{e9}", "", "-"), "-\u{e9}-");
    assert_eq!(replace("ab", "", ""), "ab");
}

#[test]
fn proxy_forwards_valid_plain_requests_byte_for_byte() {
    let request = "GET /caf\u{e9} HTTP/1.1\r\n\r\n".as_bytes();
    assert_eq!(rewrite_request(request).as_bytes(), request);
}

#[test]
fn proxy_keeps_the_byte_count_of_valid_requests() {
    let request = "original \u{e9}original\u{1F600}".as_bytes();
    let forwarded = rewrite_request(request);
    assert_eq!(forwarded.as_bytes().len(), request.len());
    assert_eq!(forwarded, "modified \u{e9}modified\u{1F600}");
}
