use khudib::breakwater::{breakwater_request, BreakwaterRequest, NumberError};
use khudib::cli::{address_invocation, breakwater_invocation, AddressInvocation, BreakwaterInvocation, Endpoint};
use khudib::client::{KhudibClient, StampError, REQUEST_ROUNDS};
use khudib::clock::ClockReading;
use khudib::ids::RequestId;
use khudib::monitor::RequestMonitor;
use ulid_generator_rs::ULIDGenerator;

fn args(items: &[&str]) -> Vec<String> {
    items.iter().map(|s| s.to_string()).collect()
}

fn endpoint(ip: &str, port: &str) -> Endpoint {
    Endpoint { ip: ip.to_string(), port: port.to_string() }
}

#[test]
fn endpoint_addresses() {
    let e = endpoint("10.0.0.2", "7000");
    assert_eq!(e.socket_address(), "10.0.0.2:7000");
    assert_eq!(e.uri(), "http://10.0.0.2:7000");
}

#[test]
fn address_invocation_runs_with_two_arguments() {
    match address_invocation(&args(&["server", "127.0.0.1", "50051"])) {
        AddressInvocation::Run(e) => {
            assert_eq!(e.ip, "127.0.0.1");
            assert_eq!(e.port, "50051");
        }
        AddressInvocation::Usage(_) => panic!("expected to run"),
    }
}

#[test]
fn address_invocation_usage() {
    for given in [vec!["server"], vec!["server", "127.0.0.1"], vec!["server", "a", "b", "c"]] {
        match address_invocation(&args(&given)) {
            AddressInvocation::Usage(line) => {
                assert_eq!(line, "Usage: server [ipv4 address] [port number]")
            }
            AddressInvocation::Run(_) => panic!("expected the usage line"),
        }
    }
}

#[test]
fn breakwater_invocation_runs_with_five_arguments() {
    match breakwater_invocation(&args(&["bw", "10.1.1.1", "80", "7", "100", "20"])) {
        BreakwaterInvocation::Run { endpoint, id, requests, credits } => {
            assert_eq!(endpoint.uri(), "http://10.1.1.1:80");
            assert_eq!(id, "7");
            assert_eq!(requests, "100");
            assert_eq!(credits, "20");
        }
        BreakwaterInvocation::Usage(_) => panic!("expected to run"),
    }
}

#[test]
fn breakwater_invocation_usage() {
    match breakwater_invocation(&args(&["bw", "10.1.1.1", "80"])) {
        BreakwaterInvocation::Usage(line) => assert_eq!(
            line,
            "Usage: bw [ipv4 address] [port number] [Client ID] [No. of Requests] [No. of Credits]"
        ),
        BreakwaterInvocation::Run { .. } => panic!("expected the usage line"),
    }
}

#[test]
fn breakwater_request_parses_the_numbers() {
    assert_eq!(
        breakwater_request("1", "10", "5"),
        Ok(BreakwaterRequest { id: 1, requests: 10, credits: 5 })
    );
    assert_eq!(
        breakwater_request("+7", "-3", "2147483647"),
        Ok(BreakwaterRequest { id: 7, requests: -3, credits: 2147483647 })
    );
    assert_eq!(
        breakwater_request("-2147483648", "0", "007"),
        Ok(BreakwaterRequest { id: -2147483648, requests: 0, credits: 7 })
    );
}

#[test]
fn breakwater_request_errors() {
    assert_eq!(breakwater_request("", "1", "1"), Err(NumberError::Empty));
    assert_eq!(breakwater_request("x", "1", "1"), Err(NumberError::InvalidDigit));
    assert_eq!(breakwater_request("1", " 2", "1"), Err(NumberError::InvalidDigit));
    assert_eq!(breakwater_request("1", "2", "-"), Err(NumberError::InvalidDigit));
    assert_eq!(breakwater_request("2147483648", "1", "1"), Err(NumberError::PosOverflow));
    assert_eq!(breakwater_request("1", "-2147483649", "1"), Err(NumberError::NegOverflow));
    assert_eq!(breakwater_request("1", "2", ""), Err(NumberError::Empty));
    assert_eq!(breakwater_request("a", "", ""), Err(NumberError::InvalidDigit));
}

#[test]
fn request_id_text_is_crockford_base32() {
    let id = RequestId { high: 105449255778666307, low: 1874305465861347464 };
    assert_eq!(id.text(), "01ETGRM6448X1HM0PYWG2KT648");
    let id = RequestId { high: 105449255778666307, low: 1874305465861347465 };
    assert_eq!(id.text(), "01ETGRM6448X1HM0PYWG2KT649");
    assert_eq!(RequestId { high: 0, low: 0 }.text(), "00000000000000000000000000");
    assert_eq!(RequestId { high: u64::MAX, low: u64::MAX }.text(), "7ZZZZZZZZZZZZZZZZZZZZZZZZZ");
}

#[test]
fn clock_stamp_prints_second_and_microseconds() {
    assert_eq!(ClockReading { secs: 1_600_000_007, nanos: 250_031_999 }.stamp(), Some("47.250031".to_string()));
    assert_eq!(ClockReading { secs: 0, nanos: 0 }.stamp(), Some("00.000000".to_string()));
    assert_eq!(ClockReading { secs: 59, nanos: 999_999_999 }.stamp(), Some("59.999999".to_string()));
    assert_eq!(ClockReading { secs: 61, nanos: 5_000 }.stamp(), Some("01.000005".to_string()));
}

#[test]
fn clock_stamp_refuses_bad_readings() {
    assert_eq!(ClockReading { secs: 10, nanos: 1_500_000_000 }.stamp(), None);
    assert_eq!(ClockReading { secs: i64::MAX, nanos: 0 }.stamp(), None);
}

#[test]
fn clock_stamp_leap_second() {
    assert_eq!(ClockReading { secs: 59, nanos: 1_000_000_000 }.stamp(), Some("60.000000".to_string()));
}

#[test]
fn monitor_insert_and_replace() {
    let mut monitor = RequestMonitor::new();
    assert!(monitor.report().is_empty());
    let a = RequestId { high: 0, low: 1 };
    let b = RequestId { high: 0, low: 2 };
    assert_eq!(monitor.insert(a, "01.000000".to_string(), "02.000000".to_string()), None);
    assert_eq!(monitor.insert(b, "03.000000".to_string(), "04.000000".to_string()), None);
    assert_eq!(
        monitor.insert(a, "05.000000".to_string(), "06.000000".to_string()),
        Some(("01.000000".to_string(), "02.000000".to_string()))
    );
    let lines = monitor.report();
    assert_eq!(lines.len(), 2);
    assert_eq!(
        lines[0],
        "requestID: 00000000000000000000000001 requestTimestamp: 05.000000 responseTimestamp 06.000000"
    );
    assert_eq!(
        lines[1],
        "requestID: 00000000000000000000000002 requestTimestamp: 03.000000 responseTimestamp 04.000000"
    );
}

#[test]
fn client_builds_requests_for_its_server() {
    let client = KhudibClient::new(&endpoint("192.168.0.9", "8080"));
    assert_eq!(client.client_id, "127.0.0.1:5555");
    assert_eq!(client.server_id, "192.168.0.9:8080");
    let mut generator = ULIDGenerator::new();
    let (id, request) = client.next_request(&mut generator).expect("the clock is in range");
    assert_eq!(request.client_id, "127.0.0.1:5555");
    assert_eq!(request.server_id, "192.168.0.9:8080");
    assert_eq!(request.request_id, id.text());
    assert_eq!(request.request_id.len(), 26);
}

#[test]
fn client_records_rounds_and_reports() {
    let mut client = KhudibClient::new(&endpoint("127.0.0.1", "9000"));
    let id = RequestId { high: 105449255778666307, low: 1874305465861347464 };
    let sent = ClockReading { secs: 1_700_000_003, nanos: 123_456_789 };
    let answered = ClockReading { secs: 1_700_000_004, nanos: 5_000 };
    assert_eq!(client.record(id, sent, answered), Ok(()));
    let lines = client.report();
    assert_eq!(lines.len(), 1);
    assert_eq!(
        lines[0],
        "requestID: 01ETGRM6448X1HM0PYWG2KT648 requestTimestamp: 23.123456 responseTimestamp 24.000005"
    );
    let bad = ClockReading { secs: 3, nanos: 1_200_000_000 };
    assert_eq!(client.record(RequestId { high: 1, low: 1 }, bad, answered), Err(StampError::OutOfRange));
    assert_eq!(client.report().len(), 1);
}

#[test]
fn client_runs_ten_rounds() {
    assert_eq!(REQUEST_ROUNDS, 10);
}

#[test]
fn client_request_for_a_given_id() {
    let client = KhudibClient::new(&endpoint("10.0.0.1", "50051"));
    let request = client.request_for(RequestId { high: 105449255778666307, low: 1874305465861347464 });
    assert_eq!(request.client_id, "127.0.0.1:5555");
    assert_eq!(request.server_id, "10.0.0.1:50051");
    assert_eq!(request.request_id, "01ETGRM6448X1HM0PYWG2KT648");
}
