use drum_circle::state::{CircleDirectory, GlobalState, NotFound, Peer, PeerRegistry};

#[test]
fn decimal_rendering_is_exact() {
    assert_eq!(drum_circle::u32_to_decimal(0), "0");
    assert_eq!(drum_circle::u32_to_decimal(7), "7");
    assert_eq!(drum_circle::u32_to_decimal(10), "10");
    assert_eq!(drum_circle::u32_to_decimal(12345), "12345");
    assert_eq!(drum_circle::u32_to_decimal(u32::MAX), "4294967295");
}

#[test]
fn create_circle_counts_from_one() {
    let mut dir = CircleDirectory::new();
    assert_eq!(dir.create_circle(), "1");
    assert_eq!(dir.create_circle(), "2");
    assert_eq!(dir.create_circle(), "3");
}

#[test]
fn join_circle_reports_not_found() {
    let mut dir = CircleDirectory::new();
    let r = dir.join_circle(&"1".to_string(), &"a".to_string());
    assert_eq!(r, Err(NotFound));
    // nothing was created behind the caller's back
    assert_eq!(dir.create_circle(), "1");
}

#[test]
fn join_circle_snapshots_then_adds() {
    let mut dir = CircleDirectory::new();
    let id = dir.create_circle();
    let snap = dir.join_circle(&id, &"a".to_string()).unwrap();
    assert!(snap.is_empty());
    let snap = dir.join_circle(&id, &"b".to_string()).unwrap();
    assert_eq!(snap, vec!["a".to_string()]);
    let snap = dir.join_circle(&id, &"c".to_string()).unwrap();
    assert_eq!(snap, vec!["a".to_string(), "b".to_string()]);
}

#[test]
fn leave_all_removes_from_every_circle() {
    let mut dir = CircleDirectory::new();
    let k1 = dir.create_circle();
    let k2 = dir.create_circle();
    dir.join_circle(&k1, &"a".to_string()).unwrap();
    dir.join_circle(&k2, &"a".to_string()).unwrap();
    dir.join_circle(&k1, &"b".to_string()).unwrap();
    dir.leave_all(&"a".to_string());
    let snap = dir.join_circle(&k1, &"c".to_string()).unwrap();
    assert_eq!(snap, vec!["b".to_string()]);
    let snap = dir.join_circle(&k2, &"c".to_string()).unwrap();
    assert!(snap.is_empty());
}

#[test]
fn leave_all_on_absent_peer_is_a_no_op() {
    let mut dir = CircleDirectory::new();
    let k = dir.create_circle();
    dir.join_circle(&k, &"a".to_string()).unwrap();
    dir.leave_all(&"nobody".to_string());
    let snap = dir.join_circle(&k, &"b".to_string()).unwrap();
    assert_eq!(snap, vec!["a".to_string()]);
}

#[test]
fn registry_register_lookup_remove() {
    let mut reg: PeerRegistry<u32> = PeerRegistry::new();
    assert!(!reg.contains(&"a".to_string()));
    reg.register(Peer { id: "a".to_string(), sink: 5 });
    reg.register(Peer { id: "b".to_string(), sink: 6 });
    assert!(reg.contains(&"a".to_string()));
    assert!(reg.contains(&"b".to_string()));
    let i = reg.index_of(&"b".to_string()).unwrap();
    assert_eq!(reg.peers[i].sink, 6);

    let removed = reg.remove(&"a".to_string());
    assert_eq!(removed.map(|p| p.sink), Some(5));
    assert!(!reg.contains(&"a".to_string()));
    assert!(reg.contains(&"b".to_string()));
    // removing an absent id is a no-op
    assert!(reg.remove(&"a".to_string()).is_none());
    assert!(reg.contains(&"b".to_string()));
}

#[test]
fn connect_peer_mints_a_uuid_shaped_id() {
    let mut state: GlobalState<u32> = GlobalState::new();
    let a = state.connect_peer(1).unwrap();
    let b = state.connect_peer(2).unwrap();
    assert_eq!(a.len(), 36);
    assert_eq!(b.len(), 36);
    assert_ne!(a, b);
    assert!(state.users.contains(&a));
    assert!(state.users.contains(&b));
}

#[test]
fn disconnect_peer_removes_registration() {
    let mut state: GlobalState<u32> = GlobalState::new();
    state.register_peer("a".to_string(), 0);
    state.disconnect_peer(&"a".to_string());
    assert!(!state.users.contains(&"a".to_string()));
    // disconnecting twice is harmless
    state.disconnect_peer(&"a".to_string());
    assert!(!state.users.contains(&"a".to_string()));
}

#[test]
fn default_payload_is_empty() {
    let p = drum_circle::WSPayload::default();
    assert_eq!(p.name, "");
    assert!(p.member_id.is_none());
    assert!(p.circle_id.is_none());
    assert!(p.members.is_none());
    assert!(p.sdps.is_none());
    assert!(p.sdp.is_none());
    assert!(p.ice.is_none());
}
