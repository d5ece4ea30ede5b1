//! Watch service: what clients are told of changes to keys.

use vstd::prelude::*;

use super::guard::WatchPlan;
use super::kv::convert_kv;
use crate::proto::{ResponseHeader, WatchCreateRequest};
use crate::raft::WatchEventType;
use crate::text::text;

verus! {

/// Why a watch is canceled when its client is gone.
pub const STREAM_CLOSED: &'static str = "stream closed";

/// Why a watch is canceled when its client asked for it.
pub const CLIENT_CANCEL: &'static str = "client cancel";

/// The kind of events that a filter number stands for: 1 is deletes, and all
/// else is puts.
pub open spec fn filter_of(number: i32) -> WatchEventType {
    if number == 1 {
        WatchEventType::Delete
    } else {
        WatchEventType::Put
    }
}

/// The number of a kind of events in messages.
pub open spec fn event_number(event_type: WatchEventType) -> i32 {
    match event_type {
        WatchEventType::Put => 0,
        WatchEventType::Delete => 1,
    }
}

/// An event as clients see it.
pub open spec fn shown_event(event: crate::raft::WatchEvent) -> crate::proto::WatchEvent {
    crate::proto::WatchEvent {
        event_type: event_number(event.event_type),
        kv: Some(super::kv::proto_kv(event.kv)),
        prev_kv: super::kv::proto_opt_kv(event.prev_kv),
    }
}

/// The filter numbers and the event numbers agree.
pub proof fn filters_agree(event_type: WatchEventType)
    ensures
        filter_of(event_number(event_type)) == event_type,
{
}

/// The watch that a client asks for.
pub fn create_plan(create: WatchCreateRequest) -> (r: WatchPlan)
    ensures
        r.key == create.key,
        r.range_end == create.range_end,
        r.filters@ == create.filters@.map_values(|n: i32| filter_of(n)),
        r.prev_kv == create.prev_kv,
{
    let mut filters: Vec<WatchEventType> = Vec::new();
    let mut i: usize = 0;
    while i < create.filters.len()
        invariant
            i <= create.filters.len(),
            filters@.len() == i,
            forall|j: int| 0 <= j < i ==> #[trigger] filters@[j] == filter_of(create.filters@[j]),
        decreases create.filters.len() - i,
    {
        let filter = match create.filters[i] {
            0 => WatchEventType::Put,
            1 => WatchEventType::Delete,
            _ => WatchEventType::Put,
        };
        filters.push(filter);
        i = i + 1;
    }
    assert(filters@ =~= create.filters@.map_values(|n: i32| filter_of(n)));
    WatchPlan {
        key: create.key,
        range_end: create.range_end,
        filters,
        prev_kv: create.prev_kv,
    }
}

/// The acknowledgement that a watch was created.
pub fn created_response(watch_id: i64) -> (r: crate::proto::WatchResponse)
    ensures
        r.watch_id == watch_id,
        r.created,
        r.events@ == Seq::<crate::proto::WatchEvent>::empty(),
        !r.canceled,
        r.cancel_reason@ == Seq::<char>::empty(),
        r.header == Some(
            ResponseHeader { cluster_id: 0, member_id: 0, revision: 0, raft_term: 0 },
        ),
{
    crate::proto::WatchResponse {
        watch_id,
        created: true,
        events: Vec::new(),
        canceled: false,
        cancel_reason: String::new(),
        header: Some(ResponseHeader { cluster_id: 0, member_id: 0, revision: 0, raft_term: 0 }),
    }
}

/// What a client is told of one delivery of a watch.
pub fn forward_response(delivery: crate::raft::WatchResponse) -> (r: crate::proto::WatchResponse)
    ensures
        r.watch_id == delivery.watch_id,
        r.created == delivery.created,
        r.events@ == delivery.events@.map_values(|e: crate::raft::WatchEvent| shown_event(e)),
        r.canceled == delivery.canceled,
        r.cancel_reason == delivery.cancel_reason,
        r.header is None,
{
    let mut events: Vec<crate::proto::WatchEvent> = Vec::new();
    for event in iter: delivery.events
        invariant
            events@.len() == iter.index(),
            forall|j: int|
                0 <= j < events@.len() ==> #[trigger] events@[j] == shown_event(iter.seq()[j]),
    {
        let event_type: i32 = match event.event_type {
            WatchEventType::Put => 0,
            WatchEventType::Delete => 1,
        };
        let prev_kv = match event.prev_kv {
            Some(kv) => Some(convert_kv(kv)),
            None => None,
        };
        events.push(
            crate::proto::WatchEvent { event_type, kv: Some(convert_kv(event.kv)), prev_kv },
        );
    }
    assert(events@ =~= delivery.events@.map_values(
        |e: crate::raft::WatchEvent| shown_event(e),
    ));
    crate::proto::WatchResponse {
        watch_id: delivery.watch_id,
        created: delivery.created,
        events,
        canceled: delivery.canceled,
        cancel_reason: delivery.cancel_reason,
        header: None,
    }
}

/// What happened to the forwarding of a watch to its client.
pub enum ForwardEvent {
    /// The watch delivered, or is over.
    Delivered(Option<crate::raft::WatchResponse>),
    /// The last delivery was sent to the client; it was a cancellation or not.
    Sent { canceled: bool },
    /// The client could not be reached.
    ClientGone,
    /// The client canceled the watch.
    Canceled,
}

/// What the forwarding of a watch does next.
pub enum ForwardStep {
    /// Send to the client.
    Send(crate::proto::WatchResponse),
    /// Take the next delivery.
    Receive,
    /// Cancel the watch for the given reason, and stop.
    CancelAndStop(String),
    /// Stop.
    Stop,
}

/// What an event of the forwarding leads to.
pub open spec fn forward_leads_to(event: ForwardEvent, step: ForwardStep) -> bool {
    match event {
        ForwardEvent::Delivered(Some(delivery)) => match step {
            ForwardStep::Send(r) => {
                &&& r.watch_id == delivery.watch_id
                &&& r.created == delivery.created
                &&& r.events@ == delivery.events@.map_values(
                    |e: crate::raft::WatchEvent| shown_event(e),
                )
                &&& r.canceled == delivery.canceled
                &&& r.cancel_reason == delivery.cancel_reason
                &&& r.header is None
            },
            _ => false,
        },
        ForwardEvent::Delivered(None) => step is Stop,
        ForwardEvent::Sent { canceled } => if canceled {
            step is Stop
        } else {
            step is Receive
        },
        ForwardEvent::ClientGone => match step {
            ForwardStep::CancelAndStop(reason) => reason@ == STREAM_CLOSED@,
            _ => false,
        },
        ForwardEvent::Canceled => match step {
            ForwardStep::CancelAndStop(reason) => reason@ == CLIENT_CANCEL@,
            _ => false,
        },
    }
}

/// What the forwarding of a watch does after an event.
pub fn forward_step(event: ForwardEvent) -> (r: ForwardStep)
    ensures
        forward_leads_to(event, r),
{
    match event {
        ForwardEvent::Delivered(Some(delivery)) => ForwardStep::Send(forward_response(delivery)),
        ForwardEvent::Delivered(None) => ForwardStep::Stop,
        ForwardEvent::Sent { canceled } => if canceled {
            ForwardStep::Stop
        } else {
            ForwardStep::Receive
        },
        ForwardEvent::ClientGone => ForwardStep::CancelAndStop(text(STREAM_CLOSED)),
        ForwardEvent::Canceled => ForwardStep::CancelAndStop(text(CLIENT_CANCEL)),
    }
}

/// The watches that are active on one stream.
pub struct WatchService {
    active: Vec<i64>,
}

impl View for WatchService {
    type V = Set<i64>;

    closed spec fn view(&self) -> Set<i64> {
        self.active@.to_set()
    }
}

impl WatchService {
    /// Every watch is recorded once.
    pub closed spec fn wf(&self) -> bool {
        self.active@.no_duplicates()
    }

    /// A stream without watches.
    pub fn new() -> (r: Self)
        ensures
            r.wf(),
            r@ == Set::<i64>::empty(),
    {
        let r = WatchService { active: Vec::new() };
        assert(r@ =~= Set::<i64>::empty());
        r
    }

    fn position(&self, watch_id: i64) -> (r: Option<usize>)
        ensures
            match r {
                Some(i) => i < self.active@.len() && self.active@[i as int] == watch_id,
                None => !self.active@.contains(watch_id),
            },
    {
        let mut i: usize = 0;
        while i < self.active.len()
            invariant
                i <= self.active.len(),
                forall|j: int| 0 <= j < i ==> self.active@[j] != watch_id,
            decreases self.active.len() - i,
        {
            if self.active[i] == watch_id {
                return Some(i);
            }
            i = i + 1;
        }
        None
    }

    /// Records a watch that was created and acknowledged.
    pub fn started(&mut self, watch_id: i64)
        requires
            old(self).wf(),
        ensures
            final(self).wf(),
            final(self)@ == old(self)@.insert(watch_id),
    {
        match self.position(watch_id) {
            Some(_) => {
                assert(self@ =~= old(self)@.insert(watch_id));
            },
            None => {
                proof {
                    self.active@.lemma_push_to_set_commute(watch_id);
                }
                self.active.push(watch_id);
            },
        }
    }

    /// Takes a watch out that its client canceled. Says whether its forwarding is
    /// to be stopped; the watch itself is canceled in any case.
    pub fn cancel(&mut self, watch_id: i64) -> (r: bool)
        requires
            old(self).wf(),
        ensures
            final(self).wf(),
            r == old(self)@.contains(watch_id),
            final(self)@ == old(self)@.remove(watch_id),
    {
        match self.position(watch_id) {
            Some(i) => {
                let ghost before = self.active@;
                self.active.remove(i);
                proof {
                    let after = self.active@;
                    assert forall|x: i64| after.contains(x) <==> before.contains(x) && x != watch_id by {
                        if after.contains(x) {
                            let j = after.index_of(x);
                            let k = if j < i { j } else { j + 1 };
                            assert(before[k] == x);
                        }
                        if before.contains(x) && x != watch_id {
                            let k = before.index_of(x);
                            let j = if k < i { k } else { k - 1 };
                            assert(after[j] == x);
                        }
                    }
                    assert(self@ =~= old(self)@.remove(watch_id));
                }
                true
            },
            None => {
                assert(self@ =~= old(self)@.remove(watch_id));
                false
            },
        }
    }

    /// Gives all active watches, which are canceled when the stream ends, and
    /// forgets them.
    pub fn close(&mut self) -> (r: Vec<i64>)
        requires
            old(self).wf(),
        ensures
            final(self).wf(),
            final(self)@ == Set::<i64>::empty(),
            r@.no_duplicates(),
            r@.to_set() == old(self)@,
    {
        let mut active: Vec<i64> = Vec::new();
        std::mem::swap(&mut self.active, &mut active);
        assert(self@ =~= Set::<i64>::empty());
        active
    }

    /// Why the watches of a stream that failed are canceled.
    pub fn stream_error(error: &str) -> (r: String)
        ensures
            r@ == "stream error: "@ + error@,
    {
        crate::text::join2("stream error: ", error)
    }
}

/// An event that is sent to a client carries a previous key-value if and only if
/// the delivered one does. The keys, values, revisions, versions and leases are
/// those of the delivered event, and a delete is never shown as a put, nor a put
/// as a delete.
pub proof fn events_are_shown_as_delivered(event: crate::raft::WatchEvent)
    ensures
        ({
            let shown = shown_event(event);
            &&& shown.prev_kv is Some <==> event.prev_kv is Some
            &&& event.prev_kv is Some ==> {
                let (s, e) = (shown.prev_kv->Some_0, event.prev_kv->Some_0);
                &&& s.key == e.key
                &&& s.value == e.value
                &&& s.create_revision == e.create_revision
                &&& s.mod_revision == e.mod_revision
                &&& s.version == e.version
                &&& s.lease == e.lease
            }
            &&& shown.kv is Some
            &&& {
                let (s, e) = (shown.kv->Some_0, event.kv);
                &&& s.key == e.key
                &&& s.value == e.value
                &&& s.create_revision == e.create_revision
                &&& s.mod_revision == e.mod_revision
                &&& s.version == e.version
                &&& s.lease == e.lease
            }
            &&& shown.event_type == 0 <==> event.event_type is Put
            &&& shown.event_type == 1 <==> event.event_type is Delete
        }),
{
}

/// Whatever is sent for a delivery holds the delivered events one for one and in
/// their order, with the watch they are for, and no cancellation is made up or
/// lost.
pub proof fn deliveries_are_sent_whole(delivery: crate::raft::WatchResponse, step: ForwardStep)
    requires
        forward_leads_to(ForwardEvent::Delivered(Some(delivery)), step),
    ensures
        step matches ForwardStep::Send(r) && {
            &&& r.watch_id == delivery.watch_id
            &&& r.created == delivery.created
            &&& r.canceled == delivery.canceled
            &&& r.cancel_reason == delivery.cancel_reason
            &&& r.header is None
            &&& r.events@.len() == delivery.events@.len()
            &&& forall|i: int|
                0 <= i < delivery.events@.len() ==> {
                    let (s, e) = (#[trigger] r.events@[i], delivery.events@[i]);
                    &&& s.kv is Some && s.kv->Some_0.key == e.kv.key && s.kv->Some_0.value
                        == e.kv.value && s.kv->Some_0.mod_revision == e.kv.mod_revision
                    &&& s.prev_kv is Some <==> e.prev_kv is Some
                    &&& e.prev_kv is Some ==> s.prev_kv->Some_0.key == e.prev_kv->Some_0.key
                        && s.prev_kv->Some_0.value == e.prev_kv->Some_0.value
                    &&& s.event_type == 1 <==> e.event_type is Delete
                    &&& s.event_type == 0 <==> e.event_type is Put
                }
        },
{
}

/// The forwarding of a watch goes on if and only if something was just delivered
/// or sent that was no cancellation, and the watch is canceled if and only if the
/// client went away or asked for it, for different reasons.
pub proof fn forwarding_stops_when_it_is_over(event: ForwardEvent, step: ForwardStep)
    requires
        forward_leads_to(event, step),
    ensures
        step is Send <==> (event matches ForwardEvent::Delivered(d) && d is Some),
        step is Receive <==> (event matches ForwardEvent::Sent { canceled } && !canceled),
        step is CancelAndStop <==> event is ClientGone || event is Canceled,
        step matches ForwardStep::CancelAndStop(reason) ==> (reason@ == "client cancel"@
            <==> event is Canceled) && (reason@ == "stream closed"@ <==> event is ClientGone),
{
    reveal_strlit("client cancel");
    reveal_strlit("stream closed");
    assert("client cancel"@[0] == 'c');
    assert("stream closed"@[0] == 's');
}

/// A filter number stands for deletes if and only if it is the number of deletes.
pub proof fn only_deletes_filter_deletes(number: i32)
    ensures
        filter_of(number) is Delete <==> number == 1,
        filter_of(number) is Put <==> number != 1,
{
}

} // verus!
