use vstd::prelude::*;
use ulid_generator_rs::ULIDGenerator;
use crate::ids::{IdError, RequestId, generate_ulid, id_text};

verus! {

/// A request that travels through the khudib proxies: the two endpoints, the two
/// proxies between them, the request's identifier and the credit that the client grants.
#[derive(Debug, Clone)]
pub struct KProxyRequest {
    pub client_id: String,
    pub server_id: String,
    pub request_id: String,
    pub client_proxy_id: String,
    pub server_proxy_id: String,
    pub credit: i32,
}

/// The answer to a `KProxyRequest`.
#[derive(Debug, Clone)]
pub struct KProxyResponse {
    pub kproxyresponse: Option<KProxyRequest>,
}

/// The server-side proxy: it keeps every request it has answered, in arrival order.
#[derive(Debug)]
pub struct KhudibProxyService {
    kbprequests: Vec<KProxyRequest>,
}

impl View for KhudibProxyService {
    type V = Seq<KProxyRequest>;

    closed spec fn view(&self) -> Seq<KProxyRequest> {
        self.kbprequests@
    }
}

impl KhudibProxyService {
    /// A proxy that has answered nothing yet.
    pub fn new() -> (service: Self)
        ensures
            service@ == Seq::<KProxyRequest>::empty(),
    {
        KhudibProxyService { kbprequests: Vec::new() }
    }

    /// Answers `request`: the request is appended to the log and handed back,
    /// unchanged, in the response.
    pub fn create_khudib_proxy_request(&mut self, request: KProxyRequest) -> (response:
        KProxyResponse)
        ensures
            final(self)@ == old(self)@.push(request),
            response == (KProxyResponse { kproxyresponse: Some(request) }),
    {
        let logged = KProxyRequest {
            client_id: request.client_id.clone(),
            server_id: request.server_id.clone(),
            request_id: request.request_id.clone(),
            client_proxy_id: request.client_proxy_id.clone(),
            server_proxy_id: request.server_proxy_id.clone(),
            credit: request.credit,
        };
        self.kbprequests.push(logged);
        KProxyResponse { kproxyresponse: Some(request) }
    }

    /// The requests answered so far, oldest first.
    pub fn requests(&self) -> (log: &Vec<KProxyRequest>)
        ensures
            log@ == self@,
    {
        &self.kbprequests
    }
}

impl Default for KhudibProxyService {
    fn default() -> (service: Self)
        ensures
            service@ == Seq::<KProxyRequest>::empty(),
    {
        KhudibProxyService::new()
    }
}

/// The credit that the client-side proxy grants with each request.
pub const SIDECAR_CREDIT: i32 = 5;

/// The request that the client-side proxy (at 127.0.0.1:5001, speaking for the client
/// at 127.0.0.1:5000) sends to the server-side proxy (at 127.0.0.1:5002, in front of the
/// server at 127.0.0.1:5003) for the request identified by `id`.
pub fn sidecar_proxy_request(id: RequestId) -> (request: KProxyRequest)
    ensures
        request.client_id@ == "127.0.0.1:5000"@,
        request.server_id@ == "127.0.0.1:5003"@,
        request.request_id@ == id_text(id),
        request.client_proxy_id@ == "127.0.0.1:5001"@,
        request.server_proxy_id@ == "127.0.0.1:5002"@,
        request.credit == SIDECAR_CREDIT,
{
    KProxyRequest {
        client_id: "127.0.0.1:5000".to_owned(),
        server_id: "127.0.0.1:5003".to_owned(),
        request_id: id.text(),
        client_proxy_id: "127.0.0.1:5001".to_owned(),
        server_proxy_id: "127.0.0.1:5002".to_owned(),
        credit: SIDECAR_CREDIT,
    }
}

/// The request that the client-side proxy sends next, with its identifier: a fresh
/// identifier from `generator`, which depends on the time and on chance, and
/// `sidecar_proxy_request` for it.
pub fn next_sidecar_request(generator: &mut ULIDGenerator) -> (next: Result<
    (RequestId, KProxyRequest),
    IdError,
>)
    ensures
        next matches Ok((id, r)) ==> r.client_id@ == "127.0.0.1:5000"@ && r.server_id@
            == "127.0.0.1:5003"@ && r.client_proxy_id@ == "127.0.0.1:5001"@ && r.server_proxy_id@
            == "127.0.0.1:5002"@ && r.credit == SIDECAR_CREDIT && r.request_id@ == id_text(id),
{
    match generate_ulid(generator) {
        Ok(id) => Ok((id, sidecar_proxy_request(id))),
        Err(e) => Err(e),
    }
}

/// The log of a service that starts with `log` and then answers `requests` in this
/// order: each answer appends its request, as `create_khudib_proxy_request` states.
pub open spec fn log_after(log: Seq<KProxyRequest>, requests: Seq<KProxyRequest>) -> Seq<KProxyRequest>
    decreases requests.len(),
{
    if requests.len() == 0 {
        log
    } else {
        log_after(log, requests.drop_last()).push(requests.last())
    }
}

/// After `n` answers the log has grown by exactly `n` entries, the `i`-th new one for the
/// `i`-th request answered; what was logged before stays as it was. From an empty log
/// the log is therefore the requests themselves, in arrival order.
pub proof fn lemma_log_after_answers(log: Seq<KProxyRequest>, requests: Seq<KProxyRequest>)
    ensures
        log_after(log, requests).len() == log.len() + requests.len(),
        forall|i: int| 0 <= i < log.len() ==> #[trigger] log_after(log, requests)[i] == log[i],
        forall|i: int|
            0 <= i < requests.len() ==> #[trigger] log_after(log, requests)[log.len() + i]
                == requests[i],
        log_after(log, requests) == log + requests,
    decreases requests.len(),
{
    if requests.len() > 0 {
        lemma_log_after_answers(log, requests.drop_last());
        assert(log_after(log, requests) =~= log + requests);
    } else {
        assert(log_after(log, requests) =~= log + requests);
    }
}

} // verus!
