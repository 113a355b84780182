//! The router: the message state machine.
//!
//! Stateless in itself, the router takes the sending peer's id and one
//! decoded envelope, mutates the shared state as the message kind demands,
//! and decides which envelopes to send to which peers. Delivery itself —
//! serializing and writing to a sink — is the caller's business; everything
//! the caller must do is listed in the returned outbound batch.
//!
//! A relay never checks that sender and addressee share a circle: any live
//! peer is a legal relay target. Circle membership is advisory here, not an
//! access-control boundary.

use vstd::prelude::*;
use vstd::string::StringExecFns;
use crate::messages::{
    circle_created, circle_created_v, circle_discovery, circle_discovery_v, circle_not_found,
    circle_not_found_v, is_relay, is_relay_name, join_circle_name, new_circle_name,
    peer_unavailable, peer_unavailable_v, WSPayload, WSPayloadV,
};
use crate::state::{
    has_circle, spec_add_member, spec_create, spec_join, GlobalState, StateView,
};

verus! {

/// One delivery the router decided on: which live peer gets which envelope.
pub struct Outbound {
    pub to: String,
    pub payload: WSPayload,
}

/// The view of an `Outbound`.
#[verifier::ext_equal]
pub struct OutboundV {
    pub to: Seq<char>,
    pub payload: WSPayloadV,
}

impl View for Outbound {
    type V = OutboundV;

    open spec fn view(&self) -> OutboundV {
        OutboundV { to: self.to@, payload: self.payload@ }
    }
}

impl DeepView for Outbound {
    type V = OutboundV;

    open spec fn deep_view(&self) -> OutboundV {
        self@
    }
}

/// A relayed envelope: the inbound envelope with its `member_id` rewritten
/// from the addressee to the sender, so the recipient learns who sent it;
/// every other field is forwarded verbatim.
pub open spec fn relayed_v(m: WSPayloadV, sender: Seq<char>) -> WSPayloadV {
    WSPayloadV {
        name: m.name,
        member_id: Some(sender),
        circle_id: m.circle_id,
        members: m.members,
        sdps: m.sdps,
        sdp: m.sdp,
        ice: m.ice,
    }
}

/// What routing one envelope does: the state afterwards and the outbound
/// batch, in order.
///
/// - `new_circle`: a circle is created with the sender as sole member; the
///   sender is told the fresh id.
/// - `join_circle`: on success the sender joins and is told who was already
///   there; naming an unknown circle changes nothing and earns an explicit
///   failure response. An envelope without a circle id is ignored.
/// - the relay kinds: the envelope is forwarded to the addressee with the
///   sender's id written in; an addressee no longer live changes nothing
///   and earns the sender a delivery-failure response. An envelope without
///   an addressee is ignored.
/// - anything else is ignored: no response, no state change.
pub open spec fn spec_route(s: StateView, sender: Seq<char>, m: WSPayloadV) -> (
    StateView,
    Seq<OutboundV>,
) {
    if m.name == new_circle_name() {
        let (d1, cid) = spec_create(s.dir);
        let d2 = spec_add_member(d1, cid, sender);
        (
            StateView { dir: d2, peers: s.peers },
            seq![OutboundV { to: sender, payload: circle_created_v(cid) }],
        )
    } else if m.name == join_circle_name() {
        match m.circle_id {
            Some(cid) => match spec_join(s.dir, cid, sender) {
                Some((d2, snap)) => (
                    StateView { dir: d2, peers: s.peers },
                    seq![OutboundV { to: sender, payload: circle_discovery_v(cid, snap) }],
                ),
                None => (s, seq![OutboundV { to: sender, payload: circle_not_found_v(cid) }]),
            },
            None => (s, Seq::empty()),
        }
    } else if is_relay_name(m.name) {
        match m.member_id {
            Some(target) => if s.peers.contains(target) {
                (s, seq![OutboundV { to: target, payload: relayed_v(m, sender) }])
            } else {
                (s, seq![OutboundV { to: sender, payload: peer_unavailable_v(target) }])
            },
            None => (s, Seq::empty()),
        }
    } else {
        (s, Seq::empty())
    }
}

/// Routes one inbound envelope from the peer `sender_id`: performs the
/// mutations and returns the deliveries, exactly as `spec_route` lays down.
/// The counter bound is a machine limit: ids are minted from a 32-bit
/// counter.
pub fn route<S>(state: &mut GlobalState<S>, sender_id: &String, msg: WSPayload) -> (out: Vec<
    Outbound,
>)
    requires
        old(state).wf(),
        old(state)@.dir.next_id < u32::MAX,
    ensures
        final(state).wf(),
        final(state)@ == spec_route(old(state)@, sender_id@, msg@).0,
        out.deep_view() == spec_route(old(state)@, sender_id@, msg@).1,
{
    let ghost s0 = state@;
    let ghost mv = msg@;
    let mut out: Vec<Outbound> = Vec::new();
    if msg.name == String::from_str("new_circle") {
        let circle_id = state.circles.create_circle();
        proof {
            let (d1, cid) = spec_create(s0.dir);
            assert(d1.circles[d1.circles.len() - 1].id == cid);
            assert(has_circle(d1.circles, cid));
        }
        state.circles.add_circle_member(&circle_id, sender_id);
        let response = circle_created(circle_id);
        out.push(Outbound { to: sender_id.clone(), payload: response });
        proof {
            assert(state@ =~~= spec_route(s0, sender_id@, mv).0);
            assert(out.deep_view() =~~= spec_route(s0, sender_id@, mv).1);
        }
    } else if msg.name == String::from_str("join_circle") {
        match msg.circle_id {
            Some(cid) => {
                match state.circles.join_circle(&cid, sender_id) {
                    Ok(snapshot) => {
                        let response = circle_discovery(cid, snapshot);
                        out.push(Outbound { to: sender_id.clone(), payload: response });
                    },
                    Err(_) => {
                        let response = circle_not_found(cid);
                        out.push(Outbound { to: sender_id.clone(), payload: response });
                    },
                }
            },
            None => {},
        }
        proof {
            assert(state@ =~~= spec_route(s0, sender_id@, mv).0);
            assert(out.deep_view() =~~= spec_route(s0, sender_id@, mv).1);
        }
    } else if is_relay(&msg.name) {
        let mut m = msg;
        let target_opt = m.member_id;
        m.member_id = Some(sender_id.clone());
        match target_opt {
            Some(target) => {
                if state.users.contains(&target) {
                    proof {
                        assert(m@ =~~= relayed_v(mv, sender_id@));
                    }
                    out.push(Outbound { to: target, payload: m });
                } else {
                    let response = peer_unavailable(target);
                    out.push(Outbound { to: sender_id.clone(), payload: response });
                }
            },
            None => {},
        }
        proof {
            assert(state@ =~~= spec_route(s0, sender_id@, mv).0);
            assert(out.deep_view() =~~= spec_route(s0, sender_id@, mv).1);
        }
    } else {
        proof {
            assert(state@ =~~= spec_route(s0, sender_id@, mv).0);
            assert(out.deep_view() =~~= spec_route(s0, sender_id@, mv).1);
        }
    }
    out
}

} // verus!
