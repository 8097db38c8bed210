//! MRR movements recorded when a recurring or adjustment invoice is issued:
//! each subscription event that changed MRR becomes one movement.
use vstd::prelude::*;
use crate::errors::StoreError;

verus! {

/// What happened to a subscription.
#[derive(Debug, Clone, Copy, PartialEq, Eq, Structural)]
pub enum SubscriptionEventType {
    Created,
    Activated,
    Switch,
    Cancelled,
    Reactivated,
    Updated,
}

/// The kind of an MRR movement.
#[derive(Debug, Clone, Copy, PartialEq, Eq, Structural)]
pub enum MrrMovementType {
    NewBusiness,
    Expansion,
    Contraction,
    Churn,
    Reactivation,
}

/// The kind of an invoice.
#[derive(Debug, Clone, Copy, PartialEq, Eq, Structural)]
pub enum InvoiceType {
    Recurring,
    Adjustment,
    /// Any other kind of invoice.
    Other,
}

/// An MRR movement to record.
#[derive(Debug, Clone, Copy, PartialEq, Eq)]
pub struct MrrMovement {
    pub movement_type: MrrMovementType,
    pub description: &'static str,
    pub net_mrr_change: i64,
}

/// The kind of movement an event with MRR change `delta` is: creation and
/// activation are new business, cancellation churn, reactivation
/// reactivation; a switch or update is an expansion when MRR grows and a
/// contraction otherwise.
pub open spec fn movement_kind(event: SubscriptionEventType, delta: int) -> MrrMovementType {
    match event {
        SubscriptionEventType::Created | SubscriptionEventType::Activated => MrrMovementType::NewBusiness,
        SubscriptionEventType::Switch | SubscriptionEventType::Updated => if delta > 0 {
            MrrMovementType::Expansion
        } else {
            MrrMovementType::Contraction
        },
        SubscriptionEventType::Cancelled => MrrMovementType::Churn,
        SubscriptionEventType::Reactivated => MrrMovementType::Reactivation,
    }
}

/// The description recorded for an event.
pub open spec fn movement_text(event: SubscriptionEventType) -> Seq<char> {
    match event {
        SubscriptionEventType::Created => "Subscription created"@,
        SubscriptionEventType::Activated => "Subscription activated"@,
        SubscriptionEventType::Switch => "Switched plan"@,
        SubscriptionEventType::Cancelled => "Subscription cancelled"@,
        SubscriptionEventType::Reactivated => "Subscription reactivated"@,
        SubscriptionEventType::Updated => "Subscription updated"@,
    }
}

/// The movement an event records, if it changed MRR.
pub open spec fn movement_of(event: (SubscriptionEventType, Option<i64>)) -> Option<(MrrMovementType, Seq<char>, i64)> {
    match event.1 {
        Some(delta) => if delta == 0 {
            None
        } else {
            Some((movement_kind(event.0, delta as int), movement_text(event.0), delta))
        },
        None => None,
    }
}

/// The movements of the events, in order.
pub open spec fn movements_of(events: Seq<(SubscriptionEventType, Option<i64>)>) -> Seq<(MrrMovementType, Seq<char>, i64)>
    decreases events.len(),
{
    if events.len() == 0 {
        seq![]
    } else {
        match movement_of(events.last()) {
            Some(m) => movements_of(events.drop_last()).push(m),
            None => movements_of(events.drop_last()),
        }
    }
}

/// The view of a movement.
pub open spec fn movement_view(m: MrrMovement) -> (MrrMovementType, Seq<char>, i64) {
    (m.movement_type, m.description@, m.net_mrr_change)
}

/// Only recurring and adjustment invoices record MRR movements.
pub fn records_mrr(invoice_type: InvoiceType) -> (b: bool)
    ensures
        b == (invoice_type is Recurring || invoice_type is Adjustment),
{
    match invoice_type {
        InvoiceType::Recurring | InvoiceType::Adjustment => true,
        _ => false,
    }
}

/// The subscription an MRR-recording invoice belongs to; a `ValueNotFound`
/// error when it has none.
pub fn mrr_subscription(subscription_id: Option<u128>) -> (r: Result<u128, StoreError>)
    ensures
        subscription_id matches Some(id) ==> r == Ok::<u128, StoreError>(id),
        subscription_id is None ==> (r matches Err(StoreError::ValueNotFound(m)) && m@ == "subscription_id is null"@),
{
    match subscription_id {
        Some(id) => Ok(id),
        None => Err(StoreError::ValueNotFound("subscription_id is null".to_owned())),
    }
}

fn movement_for(event: SubscriptionEventType, delta: i64) -> (m: MrrMovement)
    requires
        delta != 0,
    ensures
        movement_view(m) == (movement_kind(event, delta as int), movement_text(event), delta),
        follows_event((event, Some(delta)), movement_view(m)),
{
    proof {
        law_movement_follows_event((event, Some(delta)));
    }
    let (movement_type, description): (MrrMovementType, &'static str) = match event {
        SubscriptionEventType::Created => (MrrMovementType::NewBusiness, "Subscription created"),
        SubscriptionEventType::Activated => (MrrMovementType::NewBusiness, "Subscription activated"),
        SubscriptionEventType::Switch => (
            if delta > 0 { MrrMovementType::Expansion } else { MrrMovementType::Contraction },
            "Switched plan",
        ),
        SubscriptionEventType::Cancelled => (MrrMovementType::Churn, "Subscription cancelled"),
        SubscriptionEventType::Reactivated => (MrrMovementType::Reactivation, "Subscription reactivated"),
        SubscriptionEventType::Updated => (
            if delta > 0 { MrrMovementType::Expansion } else { MrrMovementType::Contraction },
            "Subscription updated",
        ),
    };
    MrrMovement { movement_type, description, net_mrr_change: delta }
}

/// The MRR movements an invoice records from the subscription's events:
/// one per event with a non-zero MRR change, in order, and none when the
/// invoice has no plan version.
pub fn mrr_movements(events: &[(SubscriptionEventType, Option<i64>)], has_plan_version: bool) -> (r: Vec<MrrMovement>)
    ensures
        has_plan_version ==> r@.map_values(|m: MrrMovement| movement_view(m)) == movements_of(events@),
        !has_plan_version ==> r@.len() == 0,
        has_plan_version ==> forall|k: int| 0 <= k < r@.len() ==> (0 <= #[trigger] movement_source(events@, k) < events@.len()
            && follows_event(events@[movement_source(events@, k)], movement_view(r@[k]))),
{
    let mut out: Vec<MrrMovement> = Vec::new();
    let mut i: usize = 0;
    while i < events.len()
        invariant
            i <= events@.len(),
            has_plan_version ==> out@.map_values(|m: MrrMovement| movement_view(m)) == movements_of(events@.take(i as int)),
            !has_plan_version ==> out@.len() == 0,
        decreases events@.len() - i,
    {
        proof {
            assert(events@.take(i + 1).drop_last() =~= events@.take(i as int));
            assert(events@.take(i + 1).last() == events@[i as int]);
        }
        let (event, delta) = events[i];
        match delta {
            Some(d) => {
                if d != 0 && has_plan_version {
                    let m = movement_for(event, d);
                    let ghost before = out@;
                    out.push(m);
                    assert(out@.map_values(|m: MrrMovement| movement_view(m))
                        =~= before.map_values(|m: MrrMovement| movement_view(m)).push(movement_view(m)));
                }
            },
            None => {},
        }
        i = i + 1;
    }
    assert(events@.take(i as int) =~= events@);
    proof {
        if has_plan_version {
            assert forall|k: int| 0 <= k < out@.len() implies (0 <= #[trigger] movement_source(events@, k) < events@.len()
                && follows_event(events@[movement_source(events@, k)], movement_view(out@[k]))) by {
                assert(movement_view(out@[k]) == out@.map_values(|m: MrrMovement| movement_view(m))[k]);
                law_movements_follow_events(events@, k);
            }
        }
    }
    out
}

/// The change of the subscription's MRR: the sum of the movements.
pub open spec fn net_change(ms: Seq<MrrMovement>) -> int
    decreases ms.len(),
{
    if ms.len() == 0 {
        0
    } else {
        net_change(ms.drop_last()) + ms.last().net_mrr_change
    }
}

/// Sums the MRR changes of the movements.
pub fn mrr_delta(movements: &Vec<MrrMovement>) -> (d: i64)
    requires
        forall|k: int| 0 <= k <= movements@.len() ==> i64::MIN <= #[trigger] net_change(movements@.take(k)) <= i64::MAX,
    ensures
        d == net_change(movements@),
{
    let mut total: i64 = 0;
    let mut i: usize = 0;
    while i < movements.len()
        invariant
            i <= movements@.len(),
            forall|k: int| 0 <= k <= movements@.len() ==> i64::MIN <= #[trigger] net_change(movements@.take(k)) <= i64::MAX,
            total == net_change(movements@.take(i as int)),
        decreases movements@.len() - i,
    {
        proof {
            assert(movements@.take(i + 1).drop_last() =~= movements@.take(i as int));
            assert(net_change(movements@.take(i + 1)) <= i64::MAX);
        }
        total = total + movements[i].net_mrr_change;
        i = i + 1;
    }
    assert(movements@.take(i as int) =~= movements@);
    total
}

/// Movement `m` is what event `ev` records: its MRR change is the event's
/// (and not zero); creation and activation, and only they, are new
/// business; a cancellation is churn; a reactivation is a reactivation; a
/// switch or update is an expansion when MRR grows and a contraction when
/// it shrinks.
pub open spec fn follows_event(ev: (SubscriptionEventType, Option<i64>), m: (MrrMovementType, Seq<char>, i64)) -> bool {
    &&& ev.1 == Some(m.2)
    &&& m.2 != 0
    &&& (ev.0 is Created || ev.0 is Activated) <==> m.0 is NewBusiness
    &&& ev.0 is Cancelled ==> m.0 is Churn
    &&& ev.0 is Reactivated ==> m.0 is Reactivation
    &&& (ev.0 is Switch || ev.0 is Updated) ==> (if m.2 > 0 { m.0 is Expansion } else { m.0 is Contraction })
}

/// An event records at most one movement, and what it records follows the
/// event (see [`follows_event`]); an event without an MRR change records
/// nothing.
pub proof fn law_movement_follows_event(ev: (SubscriptionEventType, Option<i64>))
    ensures
        movement_of(ev) matches Some(m) ==> follows_event(ev, m),
        (ev.1 is None || ev.1 == Some(0i64)) ==> movement_of(ev) is None,
        (ev.1 matches Some(d) && d != 0) ==> movement_of(ev) is Some,
{
}

/// The position of the event that records the `k`-th movement.
pub open spec fn movement_source(events: Seq<(SubscriptionEventType, Option<i64>)>, k: int) -> int
    decreases events.len(),
{
    if events.len() == 0 {
        0
    } else if movement_of(events.last()) is Some && k == movements_of(events.drop_last()).len() {
        events.len() - 1
    } else {
        movement_source(events.drop_last(), k)
    }
}

/// Every movement recorded for a list of events follows the event that
/// records it: a reactivation is recorded as a reactivation, never as new
/// business.
pub proof fn law_movements_follow_events(events: Seq<(SubscriptionEventType, Option<i64>)>, k: int)
    requires
        0 <= k < movements_of(events).len(),
    ensures
        0 <= movement_source(events, k) < events.len(),
        follows_event(events[movement_source(events, k)], movements_of(events)[k]),
    decreases events.len(),
{
    let d = events.drop_last();
    let last = events.len() - 1;
    law_movement_follows_event(events[last]);
    assert(events.last() == events[last]);
    match movement_of(events[last]) {
        Some(m) => {
            assert(movements_of(events) == movements_of(d).push(m));
            if k < movements_of(d).len() {
                law_movements_follow_events(d, k);
                assert(events[movement_source(d, k)] == d[movement_source(d, k)]);
            } else {
                assert(movements_of(events)[k] == m);
            }
        },
        None => {
            assert(movements_of(events) == movements_of(d));
            law_movements_follow_events(d, k);
            assert(events[movement_source(d, k)] == d[movement_source(d, k)]);
        },
    }
}

} // verus!
