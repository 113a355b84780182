//! The signaling envelope and its mathematical view.
//!
//! Every message on the wire is one flat record, `WSPayload`, whose fields
//! are reused differently per message kind (the `name` field). The library
//! works on this record as plain values; encoding it to and from its wire
//! form is the transport layer's business.

use vstd::prelude::*;
use vstd::string::StringExecFns;

verus! {

/// A prior session offer: who made it and its opaque payload.
pub struct SDPOffer {
    pub user_id: String,
    pub sdp: String,
}

/// The view of an `SDPOffer`: both fields as character sequences.
#[verifier::ext_equal]
pub struct SDPOfferV {
    pub user_id: Seq<char>,
    pub sdp: Seq<char>,
}

impl View for SDPOffer {
    type V = SDPOfferV;

    open spec fn view(&self) -> SDPOfferV {
        SDPOfferV { user_id: self.user_id@, sdp: self.sdp@ }
    }
}

impl DeepView for SDPOffer {
    type V = SDPOfferV;

    open spec fn deep_view(&self) -> SDPOfferV {
        self@
    }
}

/// The signaling envelope. All fields but `name` are optional; which ones a
/// message carries depends on its kind.
pub struct WSPayload {
    /// The message kind.
    pub name: String,
    /// A peer id: the addressee on an inbound relay, the sender on the
    /// forwarded copy.
    pub member_id: Option<String>,
    /// A circle id.
    pub circle_id: Option<String>,
    /// Peer ids, carried only by responses.
    pub members: Option<Vec<String>>,
    /// Prior offers, carried only by responses.
    pub sdps: Option<Vec<SDPOffer>>,
    /// Opaque session description payload.
    pub sdp: Option<String>,
    /// Opaque ICE candidate payload.
    pub ice: Option<String>,
}

/// The view of a `WSPayload`: every field as (optional) character sequences.
#[verifier::ext_equal]
pub struct WSPayloadV {
    pub name: Seq<char>,
    pub member_id: Option<Seq<char>>,
    pub circle_id: Option<Seq<char>>,
    pub members: Option<Seq<Seq<char>>>,
    pub sdps: Option<Seq<SDPOfferV>>,
    pub sdp: Option<Seq<char>>,
    pub ice: Option<Seq<char>>,
}

impl View for WSPayload {
    type V = WSPayloadV;

    open spec fn view(&self) -> WSPayloadV {
        WSPayloadV {
            name: self.name@,
            member_id: self.member_id.deep_view(),
            circle_id: self.circle_id.deep_view(),
            members: self.members.deep_view(),
            sdps: self.sdps.deep_view(),
            sdp: self.sdp.deep_view(),
            ice: self.ice.deep_view(),
        }
    }
}

impl DeepView for WSPayload {
    type V = WSPayloadV;

    open spec fn deep_view(&self) -> WSPayloadV {
        self@
    }
}

// The message kinds, request side.
pub open spec fn new_circle_name() -> Seq<char> {
    "new_circle"@
}

pub open spec fn join_circle_name() -> Seq<char> {
    "join_circle"@
}

pub open spec fn offer_name() -> Seq<char> {
    "new_member_rtc_offer"@
}

pub open spec fn answer_name() -> Seq<char> {
    "new_member_rtc_answer"@
}

pub open spec fn ice_name() -> Seq<char> {
    "ice_candidate"@
}

// The message kinds, response side.
pub open spec fn circle_created_name() -> Seq<char> {
    "circle_created"@
}

pub open spec fn circle_discovery_name() -> Seq<char> {
    "circle_discovery"@
}

pub open spec fn circle_not_found_name() -> Seq<char> {
    "circle_not_found"@
}

pub open spec fn peer_unavailable_name() -> Seq<char> {
    "peer_unavailable"@
}

/// The three relay kinds: their envelopes are forwarded verbatim to the
/// addressee, with only the `member_id` rewritten to the sender's id.
pub open spec fn is_relay_name(n: Seq<char>) -> bool {
    ||| n == offer_name()
    ||| n == answer_name()
    ||| n == ice_name()
}

/// The request kinds are pairwise distinct, so exactly one arm of the
/// router's dispatch fires for a given envelope.
pub proof fn lemma_kind_names_distinct()
    ensures
        new_circle_name() != join_circle_name(),
        !is_relay_name(new_circle_name()),
        !is_relay_name(join_circle_name()),
        offer_name() != answer_name(),
        offer_name() != ice_name(),
        answer_name() != ice_name(),
{
    reveal_strlit("new_circle");
    reveal_strlit("join_circle");
    reveal_strlit("new_member_rtc_offer");
    reveal_strlit("new_member_rtc_answer");
    reveal_strlit("ice_candidate");
    assert(new_circle_name().len() == 10);
    assert(join_circle_name().len() == 11);
    assert(offer_name().len() == 20);
    assert(answer_name().len() == 21);
    assert(ice_name().len() == 13);
}

/// Decides whether `name` is one of the relay kinds.
pub fn is_relay(name: &String) -> (r: bool)
    ensures
        r == is_relay_name(name@),
{
    let offer = String::from_str("new_member_rtc_offer");
    let answer = String::from_str("new_member_rtc_answer");
    let ice = String::from_str("ice_candidate");
    *name == offer || *name == answer || *name == ice
}

/// An envelope of the given kind with every optional field absent.
pub open spec fn empty_payload_v(name: Seq<char>) -> WSPayloadV {
    WSPayloadV {
        name,
        member_id: None,
        circle_id: None,
        members: None,
        sdps: None,
        sdp: None,
        ice: None,
    }
}

/// The response confirming a freshly created circle.
pub open spec fn circle_created_v(cid: Seq<char>) -> WSPayloadV {
    WSPayloadV {
        name: circle_created_name(),
        member_id: None,
        circle_id: Some(cid),
        members: None,
        sdps: None,
        sdp: None,
        ice: None,
    }
}

/// The response to a successful join: the members present at the moment of
/// joining, the joiner excluded.
pub open spec fn circle_discovery_v(cid: Seq<char>, members: Seq<Seq<char>>) -> WSPayloadV {
    WSPayloadV {
        name: circle_discovery_name(),
        member_id: None,
        circle_id: Some(cid),
        members: Some(members),
        sdps: None,
        sdp: None,
        ice: None,
    }
}

/// The failure response to a join naming a circle that does not exist.
pub open spec fn circle_not_found_v(cid: Seq<char>) -> WSPayloadV {
    WSPayloadV {
        name: circle_not_found_name(),
        member_id: None,
        circle_id: Some(cid),
        members: None,
        sdps: None,
        sdp: None,
        ice: None,
    }
}

/// The delivery-failure response to a relay whose addressee is gone.
pub open spec fn peer_unavailable_v(target: Seq<char>) -> WSPayloadV {
    WSPayloadV {
        name: peer_unavailable_name(),
        member_id: Some(target),
        circle_id: None,
        members: None,
        sdps: None,
        sdp: None,
        ice: None,
    }
}

/// Builds the `circle_created` response.
pub fn circle_created(circle_id: String) -> (p: WSPayload)
    ensures
        p@ == circle_created_v(circle_id@),
{
    let p = WSPayload {
        name: String::from_str("circle_created"),
        member_id: None,
        circle_id: Some(circle_id),
        members: None,
        sdps: None,
        sdp: None,
        ice: None,
    };
    proof {
        assert(p@ =~~= circle_created_v(circle_id@));
    }
    p
}

/// Builds the `circle_discovery` response.
pub fn circle_discovery(circle_id: String, members: Vec<String>) -> (p: WSPayload)
    ensures
        p@ == circle_discovery_v(circle_id@, members.deep_view()),
{
    let ghost ms = members.deep_view();
    let p = WSPayload {
        name: String::from_str("circle_discovery"),
        member_id: None,
        circle_id: Some(circle_id),
        members: Some(members),
        sdps: None,
        sdp: None,
        ice: None,
    };
    proof {
        assert(p@ =~~= circle_discovery_v(circle_id@, ms));
    }
    p
}

/// Builds the `circle_not_found` failure response.
pub fn circle_not_found(circle_id: String) -> (p: WSPayload)
    ensures
        p@ == circle_not_found_v(circle_id@),
{
    let p = WSPayload {
        name: String::from_str("circle_not_found"),
        member_id: None,
        circle_id: Some(circle_id),
        members: None,
        sdps: None,
        sdp: None,
        ice: None,
    };
    proof {
        assert(p@ =~~= circle_not_found_v(circle_id@));
    }
    p
}

/// Builds the `peer_unavailable` delivery-failure response.
pub fn peer_unavailable(target: String) -> (p: WSPayload)
    ensures
        p@ == peer_unavailable_v(target@),
{
    let p = WSPayload {
        name: String::from_str("peer_unavailable"),
        member_id: Some(target),
        circle_id: None,
        members: None,
        sdps: None,
        sdp: None,
        ice: None,
    };
    proof {
        assert(p@ =~~= peer_unavailable_v(target@));
    }
    p
}

impl Default for WSPayload {
    /// An envelope with an empty kind and every optional field absent.
    fn default() -> (p: WSPayload)
        ensures
            p@ == empty_payload_v(Seq::<char>::empty()),
    {
        let p = WSPayload {
            name: String::new(),
            member_id: None,
            circle_id: None,
            members: None,
            sdps: None,
            sdp: None,
            ice: None,
        };
        proof {
            assert(p@ =~~= empty_payload_v(Seq::<char>::empty()));
        }
        p
    }
}

} // verus!
