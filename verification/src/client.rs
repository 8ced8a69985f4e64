use vstd::prelude::*;
use ulid_generator_rs::ULIDGenerator;
use crate::cli::{Endpoint, socket_text};
use crate::clock::{ClockReading, stamp_text};
use crate::ids::{IdError, RequestId, generate_ulid, id_text};
use crate::khudib::KRequest;
use crate::monitor::RequestMonitor;

verus! {

/// How many requests the khudib client sends in one run.
pub const REQUEST_ROUNDS: u32 = 10;

/// Why a round could not be recorded.
#[derive(Debug, Clone, Copy, PartialEq, Eq, Structural)]
pub enum StampError {
    /// A clock reading lies outside the range that can be printed.
    OutOfRange,
}

/// The khudib client: who it is, which server it talks to, and what it has seen.
#[derive(Debug)]
pub struct KhudibClient {
    pub client_id: String,
    pub server_id: String,
    pub monitor: RequestMonitor,
}

impl KhudibClient {
    /// A client at 127.0.0.1:5555 that talks to the server at `endpoint` and has sent
    /// nothing yet.
    pub fn new(endpoint: &Endpoint) -> (client: Self)
        ensures
            client.client_id@ == "127.0.0.1:5555"@,
            client.server_id@ == socket_text(endpoint.ip@, endpoint.port@),
            client.monitor@ == Map::<RequestId, (Seq<char>, Seq<char>)>::empty(),
            client.monitor.order() == Seq::<RequestId>::empty(),
    {
        KhudibClient {
            client_id: "127.0.0.1:5555".to_owned(),
            server_id: endpoint.socket_address(),
            monitor: RequestMonitor::new(),
        }
    }

    /// The request that carries the identifier `id` from this client to its server.
    pub fn request_for(&self, id: RequestId) -> (request: KRequest)
        ensures
            request.client_id == self.client_id,
            request.server_id == self.server_id,
            request.request_id@ == id_text(id),
    {
        KRequest {
            client_id: self.client_id.clone(),
            server_id: self.server_id.clone(),
            request_id: id.text(),
        }
    }

    /// The next request: a fresh identifier from `generator`, and the request that
    /// carries it from this client to its server. The identifier depends on the time and
    /// on chance; whichever comes back, the request carries its text.
    pub fn next_request(&self, generator: &mut ULIDGenerator) -> (next: Result<
        (RequestId, KRequest),
        IdError,
    >)
        ensures
            next matches Ok((id, request)) ==> request.client_id == self.client_id
                && request.server_id == self.server_id && request.request_id@ == id_text(id),
    {
        let id = match generate_ulid(generator) {
            Ok(id) => id,
            Err(e) => return Err(e),
        };
        Ok((id, self.request_for(id)))
    }

    /// Records that the request `id` was sent at `sent` and answered at `answered`,
    /// replacing what was kept for `id`. Where a reading cannot be printed nothing is
    /// recorded.
    pub fn record(&mut self, id: RequestId, sent: ClockReading, answered: ClockReading) -> (done:
        Result<(), StampError>)
        ensures
            done is Ok ==> final(self).monitor@ == old(self).monitor@.insert(
                id,
                (
                    stamp_text(sent.secs as int, sent.nanos as int),
                    stamp_text(answered.secs as int, answered.nanos as int),
                ),
            ),
            done is Ok && old(self).monitor@.contains_key(id) ==> final(self).monitor.order()
                == old(self).monitor.order(),
            done is Ok && !old(self).monitor@.contains_key(id) ==> final(self).monitor.order()
                == old(self).monitor.order().push(id),
            done is Err ==> final(self).monitor@ == old(self).monitor@,
            done is Err ==> final(self).monitor.order() == old(self).monitor.order(),
            0 <= sent.secs < 0x20_0000_0000 && sent.nanos < 1_000_000_000 && 0 <= answered.secs
                < 0x20_0000_0000 && answered.nanos < 1_000_000_000 ==> done is Ok,
            final(self).client_id == old(self).client_id,
            final(self).server_id == old(self).server_id,
    {
        let sent_text = match sent.stamp() {
            Some(t) => t,
            None => return Err(StampError::OutOfRange),
        };
        let answered_text = match answered.stamp() {
            Some(t) => t,
            None => return Err(StampError::OutOfRange),
        };
        self.monitor.insert(id, sent_text, answered_text);
        Ok(())
    }

    /// One line per request recorded, as the client prints them at the end of a run.
    pub fn report(&self) -> (lines: Vec<String>)
        ensures
            lines.len() == self.monitor.order().len(),
            forall|i: int|
                0 <= i < lines.len() ==> #[trigger] lines[i]@ == crate::monitor::report_line(
                    self.monitor.order()[i],
                    self.monitor@[self.monitor.order()[i]].0,
                    self.monitor@[self.monitor.order()[i]].1,
                ),
            forall|i: int|
                0 <= i < lines.len() ==> #[trigger] lines[i]@ == "requestID: "@ + id_text(
                    self.monitor.order()[i],
                ) + " requestTimestamp: "@ + self.monitor@[self.monitor.order()[i]].0
                    + " responseTimestamp "@ + self.monitor@[self.monitor.order()[i]].1,
    {
        self.monitor.report()
    }
}

} // verus!
