use vstd::prelude::*;

verus! {

/// The part of a rate plan that the search reads: the hotel it belongs to.
#[derive(Debug, Clone)]
pub struct RatePlan {
    pub hotel_id: String,
}

/// The question put to the rate service: the rates of these hotels for these dates.
#[derive(Debug, Clone)]
pub struct RateRequest {
    pub hotel_ids: Vec<String>,
    pub in_date: String,
    pub out_date: String,
}

/// The answer of the search: the hotels that have a rate plan, in the order of the plans.
#[derive(Debug, Clone)]
pub struct SearchResult {
    pub hotel_ids: Vec<String>,
}

/// Where a search stands. It starts once the question about hotels near the asked
/// position is on its way to the geo service.
#[derive(Debug)]
pub enum SearchPhase {
    /// Waiting for the hotels near the position; the stay's dates are kept for later.
    AwaitingNearby { in_date: String, out_date: String },
    /// Waiting for the rate plans of those hotels.
    AwaitingRates,
    /// The search is over.
    Finished,
}

/// What comes back from the services during a search.
#[derive(Debug)]
pub enum SearchEvent {
    /// The geo service's answer: the hotels near the position.
    Nearby(Vec<String>),
    /// The rate service's answer: the rate plans found.
    Rates(Vec<RatePlan>),
    /// A call failed, with this message.
    Failed(String),
}

/// What the search does next.
#[derive(Debug)]
pub enum SearchAction {
    /// Ask the rate service.
    QueryRates(RateRequest),
    /// Answer the search with this result.
    Reply(SearchResult),
    /// Answer the search with an internal error carrying this message.
    Abort(String),
}

/// The event is one that can come in `phase`: an answer of the service being waited
/// for, or a failure.
pub open spec fn expects(phase: SearchPhase, event: SearchEvent) -> bool {
    match phase {
        SearchPhase::AwaitingNearby { .. } => event is Nearby || event is Failed,
        SearchPhase::AwaitingRates => event is Rates || event is Failed,
        SearchPhase::Finished => false,
    }
}

/// The hotel of each plan, in the order of the plans.
pub open spec fn plan_hotels(plans: Seq<RatePlan>) -> Seq<String> {
    plans.map_values(|plan: RatePlan| plan.hotel_id)
}

/// The hotels of the plans are as many as the plans, and the `i`-th is the hotel of the
/// `i`-th plan.
pub proof fn lemma_plan_hotels(plans: Seq<RatePlan>)
    ensures
        plan_hotels(plans).len() == plans.len(),
        forall|i: int| 0 <= i < plans.len() ==> #[trigger] plan_hotels(plans)[i] == plans[i].hotel_id,
{
}

/// The phase of a search whose question about nearby hotels has just been sent, for a
/// stay from `in_date` to `out_date`.
pub fn begin_search(in_date: String, out_date: String) -> (phase: SearchPhase)
    ensures
        phase == (SearchPhase::AwaitingNearby { in_date, out_date }),
{
    SearchPhase::AwaitingNearby { in_date, out_date }
}

/// Takes the search one step: the nearby hotels are sent on to the rate service with
/// the stay's dates; the rate plans become the answer, one hotel per plan; a failure
/// ends the search with its message.
pub fn search_step(phase: SearchPhase, event: SearchEvent) -> (next: (SearchPhase, SearchAction))
    requires
        expects(phase, event),
    ensures
        event matches SearchEvent::Failed(message) ==> next == (
        SearchPhase::Finished,
        SearchAction::Abort(message),
        ),
        phase matches SearchPhase::AwaitingNearby { in_date, out_date } ==> (
        event matches SearchEvent::Nearby(hotel_ids) ==> next == (
        SearchPhase::AwaitingRates,
        SearchAction::QueryRates(RateRequest { hotel_ids, in_date, out_date }),
        )),
        event matches SearchEvent::Rates(plans) ==> (next.0 == SearchPhase::Finished && (
        next.1 matches SearchAction::Reply(result) && result.hotel_ids@ == plan_hotels(plans@))),
        event matches SearchEvent::Rates(plans) ==> (next.1 matches SearchAction::Reply(result)
            && result.hotel_ids.len() == plans.len() && forall|i: int|
            0 <= i < plans.len() ==> #[trigger] result.hotel_ids[i] == plans[i].hotel_id),
{
    match event {
        SearchEvent::Failed(message) => (SearchPhase::Finished, SearchAction::Abort(message)),
        SearchEvent::Nearby(hotel_ids) => match phase {
            SearchPhase::AwaitingNearby { in_date, out_date } => (
                SearchPhase::AwaitingRates,
                SearchAction::QueryRates(RateRequest { hotel_ids, in_date, out_date }),
            ),
            _ => vstd::pervasive::unreached(),
        },
        SearchEvent::Rates(plans) => {
            let mut hotel_ids: Vec<String> = Vec::new();
            let mut i: usize = 0;
            while i < plans.len()
                invariant
                    0 <= i <= plans.len(),
                    hotel_ids@ == plan_hotels(plans@).take(i as int),
                decreases plans.len() - i,
            {
                hotel_ids.push(plans[i].hotel_id.clone());
                i = i + 1;
                proof {
                    assert(hotel_ids@ =~= plan_hotels(plans@).take(i as int));
                }
            }
            proof {
                assert(hotel_ids@ =~= plan_hotels(plans@));
            }
            (SearchPhase::Finished, SearchAction::Reply(SearchResult { hotel_ids }))
        },
    }
}

} // verus!
