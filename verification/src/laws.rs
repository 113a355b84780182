//! The guarantees of the registry and the router, stated as laws over the
//! state views and the routing function, and proved once and for all.

use vstd::prelude::*;
use crate::decimal::{decimal, lemma_decimal_injective};
use crate::messages::{
    circle_not_found_v, is_relay_name, join_circle_name, lemma_kind_names_distinct,
    new_circle_name, peer_unavailable_v, WSPayloadV,
};
use crate::router::{relayed_v, spec_route, OutboundV};
use crate::state::{
    circle_index, dir_wf, has_circle, lemma_snapshot_excludes, lemma_snapshot_keeps,
    lemma_snapshot_subset, spec_create, spec_disconnect, spec_join, spec_leave_all, DirectoryView,
    StateView,
};

verus! {

/// The directory after `n` further circle creations.
pub open spec fn spec_create_n(d: DirectoryView, n: nat) -> DirectoryView
    decreases n,
{
    if n == 0 {
        d
    } else {
        spec_create(spec_create_n(d, (n - 1) as nat)).0
    }
}

/// Each creation advances the counter by exactly one.
pub proof fn lemma_create_n_counter(d: DirectoryView, n: nat)
    ensures
        spec_create_n(d, n).next_id == d.next_id + n,
    decreases n,
{
    if n > 0 {
        lemma_create_n_counter(d, (n - 1) as nat);
    }
}

/// Circle ids are unique and contiguous: of any number of creations, the
/// i-th (counting from 0) returns the rendered value of `next_id + i`, so
/// the returned ids form a contiguous sequence from the counter's starting
/// value and no two of them coincide.
pub proof fn lemma_circle_ids_unique(d: DirectoryView, i: nat, j: nat)
    requires
        i != j,
    ensures
        spec_create(spec_create_n(d, i)).1 == decimal((d.next_id + i) as nat),
        spec_create(spec_create_n(d, i)).1 != spec_create(spec_create_n(d, j)).1,
{
    lemma_create_n_counter(d, i);
    lemma_create_n_counter(d, j);
    if spec_create(spec_create_n(d, i)).1 == spec_create(spec_create_n(d, j)).1 {
        lemma_decimal_injective((d.next_id + i) as nat, (d.next_id + j) as nat);
    }
}

/// A freshly minted circle id never collides with one already in a
/// well-formed directory.
pub proof fn lemma_created_id_fresh(d: DirectoryView)
    requires
        dir_wf(d),
    ensures
        forall|i: int|
            0 <= i < d.circles.len() ==> (#[trigger] d.circles[i]).id != spec_create(d).1,
{
    assert forall|i: int| 0 <= i < d.circles.len() implies (#[trigger] d.circles[i]).id
        != spec_create(d).1 by {
        if d.circles[i].id == spec_create(d).1 {
            lemma_decimal_injective((i + 1) as nat, d.next_id);
        }
    }
}

/// The join snapshot is exact: joining an existing circle succeeds and
/// reports precisely the members present at that moment, the joiner
/// excluded — never the joiner itself — and afterwards the joiner is a
/// member.
pub proof fn lemma_join_snapshot_excludes_self(d: DirectoryView, cid: Seq<char>, pid: Seq<char>)
    requires
        has_circle(d.circles, cid),
    ensures
        spec_join(d, cid, pid) is Some,
        ({
            let (d2, snap) = spec_join(d, cid, pid)->Some_0;
            let k = circle_index(d.circles, cid);
            &&& !snap.contains(pid)
            &&& forall|x: Seq<char>|
                #[trigger] snap.contains(x) <==> (d.circles[k].members.contains(x) && x != pid)
            &&& d2.circles[k].members.contains(pid)
        }),
{
    let (d2, snap) = spec_join(d, cid, pid)->Some_0;
    let k = circle_index(d.circles, cid);
    let ms = d.circles[k].members;
    lemma_snapshot_excludes(ms, pid);
    assert forall|x: Seq<char>| #[trigger] snap.contains(x) <==> (ms.contains(x) && x
        != pid) by {
        if snap.contains(x) {
            lemma_snapshot_subset(ms, pid, x);
        }
        if ms.contains(x) && x != pid {
            lemma_snapshot_keeps(ms, pid, x);
        }
    }
    if !ms.contains(pid) {
        let ms2 = d2.circles[k].members;
        assert(ms2[ms2.len() - 1] == pid);
    }
}

/// Joining a circle id that was never created fails cleanly: the state is
/// untouched and the sender gets an explicit failure response.
pub proof fn lemma_unknown_circle_join_fails_cleanly(
    s: StateView,
    sender: Seq<char>,
    m: WSPayloadV,
    cid: Seq<char>,
)
    requires
        m.name == join_circle_name(),
        m.circle_id == Some(cid),
        !has_circle(s.dir.circles, cid),
    ensures
        spec_route(s, sender, m).0 == s,
        spec_route(s, sender, m).1 == seq![
            OutboundV { to: sender, payload: circle_not_found_v(cid) },
        ],
{
    lemma_kind_names_distinct();
}

/// The relay round trip: a relay envelope addressed to a live peer changes
/// no state and is delivered to exactly that peer, with the `member_id`
/// field rewritten to the sender's id and every other field verbatim.
pub proof fn lemma_relay_round_trip(
    s: StateView,
    sender: Seq<char>,
    m: WSPayloadV,
    target: Seq<char>,
)
    requires
        is_relay_name(m.name),
        m.member_id == Some(target),
        s.peers.contains(target),
    ensures
        spec_route(s, sender, m).0 == s,
        spec_route(s, sender, m).1 == seq![
            OutboundV { to: target, payload: relayed_v(m, sender) },
        ],
{
    lemma_kind_names_distinct();
}

/// A relay addressed to a vanished peer fails soft: no state changes, and
/// the sender — whose own connection lives on — gets a delivery-failure
/// response naming the vanished addressee.
pub proof fn lemma_relay_to_vanished_peer(
    s: StateView,
    sender: Seq<char>,
    m: WSPayloadV,
    target: Seq<char>,
)
    requires
        is_relay_name(m.name),
        m.member_id == Some(target),
        !s.peers.contains(target),
    ensures
        spec_route(s, sender, m).0 == s,
        spec_route(s, sender, m).1 == seq![
            OutboundV { to: sender, payload: peer_unavailable_v(target) },
        ],
{
    lemma_kind_names_distinct();
}

/// Disconnect cleanup is total: after a peer disconnects it is gone from
/// the registry and from every circle's membership.
pub proof fn lemma_disconnect_removes_everywhere(s: StateView, pid: Seq<char>)
    ensures
        !spec_disconnect(s, pid).peers.contains(pid),
        forall|i: int|
            0 <= i < spec_disconnect(s, pid).dir.circles.len() ==> !(#[trigger] spec_disconnect(
                s,
                pid,
            ).dir.circles[i]).members.contains(pid),
{
    lemma_snapshot_excludes(s.peers, pid);
    assert forall|i: int|
        0 <= i < spec_disconnect(s, pid).dir.circles.len() implies !(#[trigger] spec_disconnect(
        s,
        pid,
    ).dir.circles[i]).members.contains(pid) by {
        lemma_snapshot_excludes(s.dir.circles[i].members, pid);
    }
}

/// Disconnect cleanup as a later joiner sees it: once a peer has
/// disconnected, the snapshot reported to anyone joining any circle no
/// longer lists it.
pub proof fn lemma_disconnect_cleanup(s: StateView, pid: Seq<char>, cid: Seq<char>, joiner: Seq<
    char,
>)
    ensures
        spec_join(spec_leave_all(s.dir, pid), cid, joiner) matches Some((d3, snap))
            ==> !snap.contains(pid),
{
    let d2 = spec_leave_all(s.dir, pid);
    if has_circle(d2.circles, cid) {
        let k = circle_index(d2.circles, cid);
        let (d3, snap) = spec_join(d2, cid, joiner)->Some_0;
        if snap.contains(pid) {
            lemma_snapshot_subset(d2.circles[k].members, joiner, pid);
            lemma_snapshot_excludes(s.dir.circles[k].members, pid);
        }
    }
}

/// Routing never touches the peer registry: only a connection's own
/// lifecycle registers or removes a peer.
pub proof fn lemma_route_preserves_registry(s: StateView, sender: Seq<char>, m: WSPayloadV)
    ensures
        spec_route(s, sender, m).0.peers == s.peers,
{
}

/// Every delivery the router decides on goes to the sender itself or to a
/// peer that was live in the registry when the decision was made.
pub proof fn lemma_route_targets_are_live(s: StateView, sender: Seq<char>, m: WSPayloadV)
    ensures
        forall|i: int|
            0 <= i < spec_route(s, sender, m).1.len() ==> ((#[trigger] spec_route(
                s,
                sender,
                m,
            ).1[i]).to == sender || s.peers.contains(spec_route(s, sender, m).1[i].to)),
{
}

/// An envelope of an unknown kind, a join without a circle id, and a relay
/// without an addressee are all ignored: no state change, no response. The
/// connection lives on, so a well-formed request that follows behaves
/// exactly as it would have anyway.
pub proof fn lemma_unroutable_ignored(s: StateView, sender: Seq<char>, m: WSPayloadV)
    requires
        ({
            ||| (m.name != new_circle_name() && m.name != join_circle_name() && !is_relay_name(
                m.name,
            ))
            ||| (m.name == join_circle_name() && m.circle_id is None)
            ||| (is_relay_name(m.name) && m.member_id is None)
        }),
    ensures
        spec_route(s, sender, m).0 == s,
        spec_route(s, sender, m).1 == Seq::<OutboundV>::empty(),
{
    lemma_kind_names_distinct();
}

} // verus!
