use drum_circle::messages::WSPayload;
use drum_circle::router::{route, Outbound};
use drum_circle::state::GlobalState;

fn payload(name: &str) -> WSPayload {
    WSPayload {
        name: name.to_string(),
        member_id: None,
        circle_id: None,
        members: None,
        sdps: None,
        sdp: None,
        ice: None,
    }
}

fn new_state() -> GlobalState<u32> {
    GlobalState::new()
}

fn register(state: &mut GlobalState<u32>, id: &str) {
    state.register_peer(id.to_string(), 0);
}

fn route_one(state: &mut GlobalState<u32>, sender: &str, msg: WSPayload) -> Vec<Outbound> {
    route(state, &sender.to_string(), msg)
}

#[test]
fn create_circle_responds_with_fresh_id() {
    let mut state = new_state();
    register(&mut state, "a");
    let out = route_one(&mut state, "a", payload("new_circle"));
    assert_eq!(out.len(), 1);
    assert_eq!(out[0].to, "a");
    assert_eq!(out[0].payload.name, "circle_created");
    assert_eq!(out[0].payload.circle_id, Some("1".to_string()));
    assert_eq!(out[0].payload.member_id, None);
}

#[test]
fn circle_ids_are_distinct_and_contiguous() {
    let mut state = new_state();
    register(&mut state, "a");
    register(&mut state, "b");
    let mut ids = Vec::new();
    for sender in ["a", "b", "a", "b"] {
        let out = route_one(&mut state, sender, payload("new_circle"));
        ids.push(out[0].payload.circle_id.clone().unwrap());
    }
    assert_eq!(ids, vec!["1", "2", "3", "4"]);
    for i in 0..ids.len() {
        for j in 0..ids.len() {
            if i != j {
                assert_ne!(ids[i], ids[j]);
            }
        }
    }
}

#[test]
fn join_snapshot_excludes_self() {
    let mut state = new_state();
    register(&mut state, "a");
    register(&mut state, "b");
    register(&mut state, "c");
    let out = route_one(&mut state, "a", payload("new_circle"));
    let circle_id = out[0].payload.circle_id.clone().unwrap();

    let mut join = payload("join_circle");
    join.circle_id = Some(circle_id.clone());
    let out = route_one(&mut state, "b", join);
    assert_eq!(out.len(), 1);
    assert_eq!(out[0].to, "b");
    assert_eq!(out[0].payload.name, "circle_discovery");
    assert_eq!(out[0].payload.circle_id, Some(circle_id.clone()));
    assert_eq!(out[0].payload.members, Some(vec!["a".to_string()]));

    let mut join = payload("join_circle");
    join.circle_id = Some(circle_id.clone());
    let out = route_one(&mut state, "c", join);
    assert_eq!(
        out[0].payload.members,
        Some(vec!["a".to_string(), "b".to_string()])
    );
}

#[test]
fn joining_twice_adds_no_duplicate() {
    let mut state = new_state();
    register(&mut state, "a");
    register(&mut state, "b");
    route_one(&mut state, "a", payload("new_circle"));
    for _ in 0..2 {
        let mut join = payload("join_circle");
        join.circle_id = Some("1".to_string());
        let out = route_one(&mut state, "a", join);
        // the joiner is never listed to itself, even when already a member
        assert_eq!(out[0].payload.members, Some(Vec::new()));
    }
    let mut join = payload("join_circle");
    join.circle_id = Some("1".to_string());
    let out = route_one(&mut state, "b", join);
    assert_eq!(out[0].payload.members, Some(vec!["a".to_string()]));
}

#[test]
fn unknown_circle_join_fails_cleanly() {
    let mut state = new_state();
    register(&mut state, "a");
    let mut join = payload("join_circle");
    join.circle_id = Some("99".to_string());
    let out = route_one(&mut state, "a", join);
    assert_eq!(out.len(), 1);
    assert_eq!(out[0].to, "a");
    assert_eq!(out[0].payload.name, "circle_not_found");
    assert_eq!(out[0].payload.circle_id, Some("99".to_string()));
    // the directory was not mutated: the next created circle is still "1"
    let out = route_one(&mut state, "a", payload("new_circle"));
    assert_eq!(out[0].payload.circle_id, Some("1".to_string()));
}

#[test]
fn relay_rewrites_sender_id() {
    let mut state = new_state();
    register(&mut state, "a");
    register(&mut state, "b");
    let mut msg = payload("ice_candidate");
    msg.member_id = Some("b".to_string());
    msg.ice = Some("x".to_string());
    let out = route_one(&mut state, "a", msg);
    assert_eq!(out.len(), 1);
    assert_eq!(out[0].to, "b");
    assert_eq!(out[0].payload.name, "ice_candidate");
    assert_eq!(out[0].payload.member_id, Some("a".to_string()));
    assert_eq!(out[0].payload.ice, Some("x".to_string()));
}

#[test]
fn relay_forwards_other_fields_verbatim() {
    let mut state = new_state();
    register(&mut state, "a");
    register(&mut state, "b");
    let mut msg = payload("new_member_rtc_offer");
    msg.member_id = Some("b".to_string());
    msg.sdp = Some("session-description".to_string());
    msg.circle_id = Some("7".to_string());
    let out = route_one(&mut state, "a", msg);
    assert_eq!(out[0].to, "b");
    assert_eq!(out[0].payload.name, "new_member_rtc_offer");
    assert_eq!(out[0].payload.member_id, Some("a".to_string()));
    assert_eq!(out[0].payload.sdp, Some("session-description".to_string()));
    assert_eq!(out[0].payload.circle_id, Some("7".to_string()));

    let mut msg = payload("new_member_rtc_answer");
    msg.member_id = Some("a".to_string());
    msg.sdp = Some("answer-description".to_string());
    let out = route_one(&mut state, "b", msg);
    assert_eq!(out[0].to, "a");
    assert_eq!(out[0].payload.name, "new_member_rtc_answer");
    assert_eq!(out[0].payload.member_id, Some("b".to_string()));
    assert_eq!(out[0].payload.sdp, Some("answer-description".to_string()));
}

#[test]
fn relay_to_vanished_peer_reports_failure() {
    let mut state = new_state();
    register(&mut state, "a");
    register(&mut state, "b");
    state.disconnect_peer(&"b".to_string());
    let mut msg = payload("ice_candidate");
    msg.member_id = Some("b".to_string());
    msg.ice = Some("x".to_string());
    let out = route_one(&mut state, "a", msg);
    assert_eq!(out.len(), 1);
    assert_eq!(out[0].to, "a");
    assert_eq!(out[0].payload.name, "peer_unavailable");
    assert_eq!(out[0].payload.member_id, Some("b".to_string()));
    // the sender's own connection is unaffected and usable afterwards
    let out = route_one(&mut state, "a", payload("new_circle"));
    assert_eq!(out[0].payload.name, "circle_created");
}

#[test]
fn disconnect_cleans_circle_membership() {
    let mut state = new_state();
    register(&mut state, "a");
    register(&mut state, "b");
    let out = route_one(&mut state, "a", payload("new_circle"));
    let circle_id = out[0].payload.circle_id.clone().unwrap();
    state.disconnect_peer(&"a".to_string());
    let mut join = payload("join_circle");
    join.circle_id = Some(circle_id);
    let out = route_one(&mut state, "b", join);
    assert_eq!(out[0].payload.name, "circle_discovery");
    assert_eq!(out[0].payload.members, Some(Vec::new()));
}

#[test]
fn unknown_kind_is_ignored_and_connection_stays_usable() {
    let mut state = new_state();
    register(&mut state, "a");
    let out = route_one(&mut state, "a", payload("no_such_kind"));
    assert!(out.is_empty());
    // a well-formed request on the same connection still succeeds
    let out = route_one(&mut state, "a", payload("new_circle"));
    assert_eq!(out[0].payload.name, "circle_created");
    assert_eq!(out[0].payload.circle_id, Some("1".to_string()));
}

#[test]
fn join_without_circle_id_is_ignored() {
    let mut state = new_state();
    register(&mut state, "a");
    let out = route_one(&mut state, "a", payload("join_circle"));
    assert!(out.is_empty());
}

#[test]
fn relay_without_addressee_is_ignored() {
    let mut state = new_state();
    register(&mut state, "a");
    let mut msg = payload("ice_candidate");
    msg.ice = Some("x".to_string());
    let out = route_one(&mut state, "a", msg);
    assert!(out.is_empty());
}
