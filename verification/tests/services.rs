use khudib::dec2bin;
use khudib::sidecar::{next_sidecar_request, sidecar_proxy_request, SIDECAR_CREDIT};
use khudib::ids::RequestId;
use khudib::{KProxyRequest, KRequest, KhudibProxyService, KhudibService};
use ulid_generator_rs::ULIDGenerator;

fn krequest(client: &str, server: &str, id: &str) -> KRequest {
    KRequest {
        client_id: client.to_string(),
        server_id: server.to_string(),
        request_id: id.to_string(),
    }
}

#[test]
fn dec2bin_small_numbers() {
    assert_eq!(dec2bin(0), 0);
    assert_eq!(dec2bin(1), 1);
    assert_eq!(dec2bin(2), 10);
    assert_eq!(dec2bin(5), 101);
    assert_eq!(dec2bin(10), 1010);
}

#[test]
fn dec2bin_keeps_the_sign() {
    assert_eq!(dec2bin(-1), -1);
    assert_eq!(dec2bin(-6), -110);
    assert_eq!(dec2bin(-1023), -1111111111);
}

#[test]
fn dec2bin_largest_inputs() {
    assert_eq!(dec2bin(1023), 1111111111);
    assert_eq!(dec2bin(512), 1000000000);
}

#[test]
fn dec2bin_reads_back_in_base_two() {
    for n in -1023..1024i32 {
        let digits = dec2bin(n);
        let mut magnitude = digits.abs();
        let mut value = 0i32;
        let mut weight = 1i32;
        while magnitude > 0 {
            let d = magnitude % 10;
            assert!(d == 0 || d == 1);
            value += d * weight;
            weight *= 2;
            magnitude /= 10;
        }
        assert_eq!(value, n.abs());
        assert_eq!(digits < 0, n < 0);
    }
}

#[test]
fn khudib_service_starts_empty() {
    let service = KhudibService::new();
    assert!(service.requests().is_empty());
    let service = KhudibService::default();
    assert!(service.requests().is_empty());
}

#[test]
fn khudib_service_echoes_and_records() {
    let mut service = KhudibService::default();
    let response = service.create_khudib_request(krequest("127.0.0.1:5555", "127.0.0.1:6000", "A1"));
    let record = response.khudib.expect("the response carries the record");
    assert_eq!(record.client_id, "127.0.0.1:5555");
    assert_eq!(record.server_id, "127.0.0.1:6000");
    assert_eq!(record.request_id, "A1");
    assert_eq!(service.requests().len(), 1);
    assert_eq!(service.requests()[0].request_id, "A1");
}

#[test]
fn khudib_service_keeps_arrival_order() {
    let mut service = KhudibService::new();
    service.create_khudib_request(krequest("c1", "s", "first"));
    service.create_khudib_request(krequest("c2", "s", "second"));
    service.create_khudib_request(krequest("c1", "s", "first"));
    let log = service.requests();
    assert_eq!(log.len(), 3);
    assert_eq!(log[0].client_id, "c1");
    assert_eq!(log[1].request_id, "second");
    assert_eq!(log[2].request_id, "first");
}

fn proxy_request(id: &str, credit: i32) -> KProxyRequest {
    KProxyRequest {
        client_id: "127.0.0.1:5000".to_string(),
        server_id: "127.0.0.1:5003".to_string(),
        request_id: id.to_string(),
        client_proxy_id: "127.0.0.1:5001".to_string(),
        server_proxy_id: "127.0.0.1:5002".to_string(),
        credit,
    }
}

#[test]
fn proxy_service_echoes_and_records() {
    let mut service = KhudibProxyService::default();
    assert!(service.requests().is_empty());
    let response = service.create_khudib_proxy_request(proxy_request("R1", 5));
    let echoed = response.kproxyresponse.expect("the response carries the request");
    assert_eq!(echoed.request_id, "R1");
    assert_eq!(echoed.credit, 5);
    assert_eq!(echoed.server_proxy_id, "127.0.0.1:5002");
    service.create_khudib_proxy_request(proxy_request("R2", -3));
    assert_eq!(service.requests().len(), 2);
    assert_eq!(service.requests()[0].request_id, "R1");
    assert_eq!(service.requests()[1].credit, -3);
}

#[test]
fn sidecar_request_has_the_fixed_addresses() {
    let id = RequestId { high: 105449255778666307, low: 1874305465861347464 };
    let request = sidecar_proxy_request(id);
    assert_eq!(request.client_id, "127.0.0.1:5000");
    assert_eq!(request.client_proxy_id, "127.0.0.1:5001");
    assert_eq!(request.server_proxy_id, "127.0.0.1:5002");
    assert_eq!(request.server_id, "127.0.0.1:5003");
    assert_eq!(request.request_id, "01ETGRM6448X1HM0PYWG2KT648");
    assert_eq!(request.credit, 5);
    assert_eq!(SIDECAR_CREDIT, 5);
}

#[test]
fn next_sidecar_request_carries_a_fresh_id() {
    let mut generator = ULIDGenerator::new();
    let (first_id, first) = next_sidecar_request(&mut generator).expect("the clock is in range");
    let (_, second) = next_sidecar_request(&mut generator).expect("the clock is in range");
    assert_eq!(first.request_id, first_id.text());
    assert_eq!(first.request_id.len(), 26);
    assert_eq!(second.request_id.len(), 26);
    assert_ne!(first.request_id, second.request_id);
    assert_eq!(first.credit, 5);
    assert_eq!(first.client_id, "127.0.0.1:5000");
}

#[test]
fn proxy_service_log_is_the_requests_in_order() {
    let mut service = KhudibProxyService::new();
    let sent: Vec<KProxyRequest> = (0..5).map(|i| proxy_request(&format!("R{}", i), i)).collect();
    for r in &sent {
        service.create_khudib_proxy_request(r.clone());
    }
    let log = service.requests();
    assert_eq!(log.len(), sent.len());
    for (logged, r) in log.iter().zip(sent.iter()) {
        assert_eq!(logged.request_id, r.request_id);
        assert_eq!(logged.credit, r.credit);
    }
}
