//! The decisions of a relay that looks at each message with its sender.
use crate::node::{NodeId, NodeMap};
use crate::routed_message::{RoutedMessage, RoutedMessageView};
use vstd::prelude::*;

verus! {

/// What a relay finds of a message, and what it does with it.
pub struct RelayReport {
    /// The message names another sender than the one it came from.
    pub misattributed: bool,
    /// The message is for the relay itself.
    pub for_relay: bool,
    /// The message, if it is to be sent on.
    pub forward: Option<RoutedMessage>,
}

/// The mathematical view of a [`RelayReport`].
#[verifier::ext_equal]
pub struct RelayReportView {
    pub misattributed: bool,
    pub for_relay: bool,
    pub forward: Option<RoutedMessageView>,
}

impl View for RelayReport {
    type V = RelayReportView;

    open spec fn view(&self) -> RelayReportView {
        RelayReportView {
            misattributed: self.misattributed,
            for_relay: self.for_relay,
            forward: match self.forward {
                Some(m) => Some(m@),
                None => None,
            },
        }
    }
}

/// What the relay reports of a message: it is sent on exactly if the peer that it
/// came from is connected.
pub open spec fn report(
    relay: Seq<u8>,
    sender: Seq<u8>,
    m: RoutedMessageView,
    connected: Set<Seq<u8>>,
) -> RelayReportView {
    RelayReportView {
        misattributed: m.from != sender,
        for_relay: m.to == relay,
        forward: if connected.contains(sender) {
            Some(m)
        } else {
            None
        },
    }
}

/// Looks at messages in the order in which they came, each with the peer that it
/// came from, and says of each what is to be done with it.
pub fn event_handler(
    midnight_rider: &NodeId,
    events: Vec<(NodeId, RoutedMessage)>,
    connected_peers: &NodeMap<bool>,
) -> (r: Vec<RelayReport>)
    ensures
        r@.len() == events@.len(),
        forall|i: int|
            0 <= i < r@.len() ==> (#[trigger] r@[i])@ == report(
                midnight_rider@,
                events@[i].0@,
                events@[i].1@,
                connected_peers@.dom(),
            ),
        forall|i: int|
            0 <= i < r@.len() ==> {
                &&& (#[trigger] r@[i]).misattributed <==> events@[i].1.from@ != events@[i].0@
                &&& r@[i].for_relay <==> events@[i].1.to@ == midnight_rider@
                &&& r@[i].forward is Some <==> connected_peers@.dom().contains(events@[i].0@)
                &&& r@[i].forward is Some ==> r@[i].forward->Some_0@ == events@[i].1@
            },
{
    let ghost all = events@;
    let mut reports: Vec<RelayReport> = Vec::new();
    for event in it: events
        invariant
            it.seq() == all,
            reports@.len() == it.index(),
            forall|i: int|
                0 <= i < reports@.len() ==> (#[trigger] reports@[i])@ == report(
                    midnight_rider@,
                    all[i].0@,
                    all[i].1@,
                    connected_peers@.dom(),
                ),
            forall|i: int|
                0 <= i < reports@.len() ==> {
                    &&& (#[trigger] reports@[i]).misattributed <==> all[i].1.from@ != all[i].0@
                    &&& reports@[i].for_relay <==> all[i].1.to@ == midnight_rider@
                    &&& reports@[i].forward is Some <==> connected_peers@.dom().contains(all[i].0@)
                    &&& reports@[i].forward is Some ==> reports@[i].forward->Some_0@ == all[i].1@
                },
    {
        let (sender, message) = event;
        let misattributed: bool = !message.from.same(&sender);
        let for_relay: bool = message.to.same(midnight_rider);
        let forward = if connected_peers.contains_key(&sender) {
            Some(message)
        } else {
            None
        };
        reports.push(RelayReport { misattributed, for_relay, forward });
    }
    reports
}

} // verus!
