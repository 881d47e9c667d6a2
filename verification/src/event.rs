//! Events: exactly one structured record per successful mutation, appended
//! atomically with the transition itself, so no partial event ever exists.

use vstd::prelude::*;

use crate::identity::Identity;

verus! {

/// One published record of a successful mutation.
pub enum Event {
    Mint { to: Identity, id: i128 },
    Burn { from: Identity, id: i128 },
    Transfer { from: Identity, to: Identity, id: i128 },
    Approve { operator: Identity, id: i128 },
    ApproveAll { operator: Identity, owner: Identity },
    SetAdmin { old_admin: Identity, new_admin: Identity },
}

/// The mathematical image of an event.
pub enum EventV {
    Mint { to: Seq<u8>, id: int },
    Burn { from: Seq<u8>, id: int },
    Transfer { from: Seq<u8>, to: Seq<u8>, id: int },
    Approve { operator: Seq<u8>, id: int },
    ApproveAll { operator: Seq<u8>, owner: Seq<u8> },
    SetAdmin { old_admin: Seq<u8>, new_admin: Seq<u8> },
}

impl View for Event {
    type V = EventV;

    open spec fn view(&self) -> EventV {
        match self {
            Event::Mint { to, id } => EventV::Mint { to: to@, id: *id as int },
            Event::Burn { from, id } => EventV::Burn { from: from@, id: *id as int },
            Event::Transfer { from, to, id } => EventV::Transfer {
                from: from@,
                to: to@,
                id: *id as int,
            },
            Event::Approve { operator, id } => EventV::Approve {
                operator: operator@,
                id: *id as int,
            },
            Event::ApproveAll { operator, owner } => EventV::ApproveAll {
                operator: operator@,
                owner: owner@,
            },
            Event::SetAdmin { old_admin, new_admin } => EventV::SetAdmin {
                old_admin: old_admin@,
                new_admin: new_admin@,
            },
        }
    }
}

/// The mathematical image of an event log.
pub open spec fn events_view(s: Seq<Event>) -> Seq<EventV> {
    s.map_values(|e: Event| e@)
}

/// Appending one event to the log appends its image to the log's view.
pub proof fn lemma_events_view_push(v: Seq<Event>, e: Event)
    ensures
        events_view(v.push(e)) == events_view(v).push(e@),
{
    assert(events_view(v.push(e)) =~= events_view(v).push(e@));
}

} // verus!
