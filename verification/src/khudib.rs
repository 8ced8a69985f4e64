use vstd::prelude::*;

verus! {

/// A request for the khudib service: who asks, whom it is for, and its identifier.
#[derive(Debug, Clone)]
pub struct KRequest {
    pub client_id: String,
    pub server_id: String,
    pub request_id: String,
}

/// One request as the khudib service records it and echoes it back.
#[derive(Debug, Clone)]
pub struct Mkhudib {
    pub client_id: String,
    pub server_id: String,
    pub request_id: String,
}

/// The answer to a `KRequest`.
#[derive(Debug, Clone)]
pub struct KResponse {
    pub khudib: Option<Mkhudib>,
}

/// The record that the service keeps of `request`: the same three identifiers.
pub open spec fn record_of(request: KRequest) -> Mkhudib {
    Mkhudib {
        client_id: request.client_id,
        server_id: request.server_id,
        request_id: request.request_id,
    }
}

/// The record of a request carries the request's own client, server and identifier,
/// each in its own place.
pub proof fn lemma_record_keeps_fields(request: KRequest)
    ensures
        record_of(request).client_id == request.client_id,
        record_of(request).server_id == request.server_id,
        record_of(request).request_id == request.request_id,
{
}

/// The khudib service: it keeps every request it has answered, in arrival order.
#[derive(Debug)]
pub struct KhudibService {
    kbrequests: Vec<Mkhudib>,
}

impl View for KhudibService {
    type V = Seq<Mkhudib>;

    closed spec fn view(&self) -> Seq<Mkhudib> {
        self.kbrequests@
    }
}

impl KhudibService {
    /// A service that has answered nothing yet.
    pub fn new() -> (service: Self)
        ensures
            service@ == Seq::<Mkhudib>::empty(),
    {
        KhudibService { kbrequests: Vec::new() }
    }

    /// Answers `request`: the record of the request is appended to the log and
    /// handed back in the response.
    pub fn create_khudib_request(&mut self, request: KRequest) -> (response: KResponse)
        ensures
            final(self)@ == old(self)@.push(record_of(request)),
            response == (KResponse { khudib: Some(record_of(request)) }),
            final(self)@.len() == old(self)@.len() + 1,
            final(self)@.last().client_id == request.client_id,
            final(self)@.last().server_id == request.server_id,
            final(self)@.last().request_id == request.request_id,
            response.khudib matches Some(echoed) && echoed.client_id == request.client_id
                && echoed.server_id == request.server_id && echoed.request_id == request.request_id,
    {
        let kbrequest = Mkhudib {
            client_id: request.client_id,
            server_id: request.server_id,
            request_id: request.request_id,
        };
        let logged = Mkhudib {
            client_id: kbrequest.client_id.clone(),
            server_id: kbrequest.server_id.clone(),
            request_id: kbrequest.request_id.clone(),
        };
        self.kbrequests.push(logged);
        KResponse { khudib: Some(kbrequest) }
    }

    /// The requests answered so far, oldest first.
    pub fn requests(&self) -> (log: &Vec<Mkhudib>)
        ensures
            log@ == self@,
    {
        &self.kbrequests
    }
}

impl Default for KhudibService {
    fn default() -> (service: Self)
        ensures
            service@ == Seq::<Mkhudib>::empty(),
    {
        KhudibService::new()
    }
}


/// The log of a service that starts with `log` and then answers `requests` in this
/// order: each answer appends the record of its request, as `create_khudib_request` states.
pub open spec fn log_after(log: Seq<Mkhudib>, requests: Seq<KRequest>) -> Seq<Mkhudib>
    decreases requests.len(),
{
    if requests.len() == 0 {
        log
    } else {
        log_after(log, requests.drop_last()).push(record_of(requests.last()))
    }
}

/// After `n` answers the log has grown by exactly `n` entries, the `i`-th new one for the
/// `i`-th request answered; what was logged before stays as it was. From an empty log
/// the log is therefore the record of each request, in arrival order.
pub proof fn lemma_log_after_answers(log: Seq<Mkhudib>, requests: Seq<KRequest>)
    ensures
        log_after(log, requests).len() == log.len() + requests.len(),
        forall|i: int| 0 <= i < log.len() ==> #[trigger] log_after(log, requests)[i] == log[i],
        forall|i: int|
            0 <= i < requests.len() ==> #[trigger] log_after(log, requests)[log.len() + i]
                == record_of(requests[i]),
        log_after(log, requests) == log + requests.map_values(|r: KRequest| record_of(r)),
    decreases requests.len(),
{
    if requests.len() > 0 {
        lemma_log_after_answers(log, requests.drop_last());
        assert(log_after(log, requests) =~= log + requests.map_values(|r: KRequest| record_of(r)));
    } else {
        assert(log_after(log, requests) =~= log + requests.map_values(|r: KRequest| record_of(r)));
    }
}

} // verus!
